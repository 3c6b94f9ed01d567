use markdown_tagger::document::parse_markdown_lines;
use markdown_tagger::heading::heading_marker;
use markdown_tagger::tag::{add_tag, decimal_string, TagKind, TagState};
use markdown_tagger::tagger::{classify_line, process_line};

fn closed() -> TagState {
    TagState::new()
}

fn open(kind: TagKind) -> TagState {
    TagState { is_open: true, current_tag: Some(kind) }
}

fn convert(input: &str) -> String {
    let lines: Vec<String> = input.lines().map(String::from).collect();
    parse_markdown_lines(&lines).concat()
}

#[test]
fn add_tag_opens() {
    assert_eq!(add_tag("", "p", true), "<p>");
    assert_eq!(add_tag("abc", "h2", true), "abc<h2>");
}

#[test]
fn add_tag_closes_with_newline() {
    assert_eq!(add_tag("", "p", false), "</p>\n");
    assert_eq!(add_tag("<h1>Title", "h1", false), "<h1>Title</h1>\n");
}

#[test]
fn add_tag_keeps_an_empty_name() {
    assert_eq!(add_tag("x", "", true), "x<>");
    assert_eq!(add_tag("x", "", false), "x</>\n");
}

#[test]
fn decimal_string_of_small_and_large_numbers() {
    assert_eq!(decimal_string(0), "0");
    assert_eq!(decimal_string(7), "7");
    assert_eq!(decimal_string(10), "10");
    assert_eq!(decimal_string(305), "305");
    assert_eq!(decimal_string(usize::MAX), usize::MAX.to_string());
}

#[test]
fn tag_names() {
    assert_eq!(TagKind::Paragraph.name(), "p");
    assert_eq!(TagKind::Heading(1).name(), "h1");
    assert_eq!(TagKind::Heading(12).name(), "h12");
}

#[test]
fn new_state_is_closed() {
    let state = TagState::new();
    assert!(!state.is_open);
    assert_eq!(state.current_tag, None);
}

#[test]
fn heading_marker_of_body_lines_is_none() {
    assert_eq!(heading_marker(""), None);
    assert_eq!(heading_marker("text"), None);
    assert_eq!(heading_marker(" # indented"), None);
    assert_eq!(heading_marker("a # b"), None);
}

#[test]
fn heading_marker_with_separating_space() {
    assert_eq!(heading_marker("# Title"), Some((1, 2)));
    assert_eq!(heading_marker("### Deep"), Some((3, 4)));
    assert_eq!(heading_marker("# "), Some((1, 2)));
    assert_eq!(heading_marker("##  two spaces"), Some((2, 3)));
}

#[test]
fn heading_marker_without_separating_space() {
    assert_eq!(heading_marker("#"), Some((1, 1)));
    assert_eq!(heading_marker("###"), Some((3, 3)));
    assert_eq!(heading_marker("#Title"), Some((1, 1)));
    assert_eq!(heading_marker("##\tTab"), Some((2, 2)));
}

#[test]
fn heading_marker_stops_at_the_first_run() {
    assert_eq!(heading_marker("## # x"), Some((2, 3)));
    assert_eq!(heading_marker("#a# b"), Some((1, 1)));
}

#[test]
fn classify_heading_and_body() {
    assert_eq!(classify_line("## Sub"), (TagKind::Heading(2), "Sub"));
    assert_eq!(classify_line("Body text"), (TagKind::Paragraph, "Body text"));
    assert_eq!(classify_line(""), (TagKind::Paragraph, ""));
    assert_eq!(classify_line("#x"), (TagKind::Heading(1), "x"));
}

#[test]
fn classify_keeps_non_ascii_content() {
    assert_eq!(classify_line("# Überschrift ✓"), (TagKind::Heading(1), "Überschrift ✓"));
    assert_eq!(classify_line("héllo"), (TagKind::Paragraph, "héllo"));
}

#[test]
fn body_line_becomes_paragraph() {
    let (fragment, state) = process_line("Body text", closed());
    assert_eq!(fragment, "<p>Body text</p>\n");
    assert_eq!(state, closed());
}

#[test]
fn body_line_is_not_escaped() {
    let (fragment, _) = process_line("a < b & c > d", closed());
    assert_eq!(fragment, "<p>a < b & c > d</p>\n");
}

#[test]
fn body_line_of_spaces_is_emitted() {
    let (fragment, _) = process_line("   ", closed());
    assert_eq!(fragment, "<p>   </p>\n");
}

#[test]
fn body_line_after_open_paragraph_opens_its_own() {
    let (fragment, state) = process_line("more", open(TagKind::Paragraph));
    assert_eq!(fragment, "<p>more</p>\n");
    assert_eq!(state, closed());
}

#[test]
fn body_line_after_open_heading_closes_it() {
    let (fragment, state) = process_line("more", open(TagKind::Heading(3)));
    assert_eq!(fragment, "</h3>\n<p>more</p>\n");
    assert_eq!(state, closed());
}

#[test]
fn heading_line_level_one() {
    let (fragment, state) = process_line("# Title", closed());
    assert_eq!(fragment, "<h1>Title</h1>\n");
    assert_eq!(state, closed());
}

#[test]
fn heading_line_strips_whole_marker() {
    let (fragment, _) = process_line("### Deep one", closed());
    assert_eq!(fragment, "<h3>Deep one</h3>\n");
}

#[test]
fn heading_line_of_level_twelve() {
    let (fragment, _) = process_line("############ x", closed());
    assert_eq!(fragment, "<h12>x</h12>\n");
}

#[test]
fn heading_line_after_open_paragraph_closes_it() {
    let (fragment, state) = process_line("## Sub", open(TagKind::Paragraph));
    assert_eq!(fragment, "</p>\n<h2>Sub</h2>\n");
    assert_eq!(state, closed());
}

#[test]
fn heading_line_after_open_heading_closes_it() {
    let (fragment, _) = process_line("## Sub", open(TagKind::Heading(2)));
    assert_eq!(fragment, "</h2>\n<h2>Sub</h2>\n");
}

#[test]
fn heading_line_without_space_keeps_run_length() {
    let (fragment, _) = process_line("#Title", closed());
    assert_eq!(fragment, "<h1>Title</h1>\n");
    let (fragment, _) = process_line("###", closed());
    assert_eq!(fragment, "<h3></h3>\n");
}

#[test]
fn heading_line_with_empty_content() {
    let (fragment, _) = process_line("# ", closed());
    assert_eq!(fragment, "<h1></h1>\n");
}

#[test]
fn blank_line_emits_nothing() {
    let (fragment, state) = process_line("", closed());
    assert_eq!(fragment, "");
    assert_eq!(state, closed());
    let (fragment, _) = process_line("", open(TagKind::Paragraph));
    assert_eq!(fragment, "");
}

#[test]
fn blank_line_after_open_heading_still_closes_it() {
    let (fragment, state) = process_line("", open(TagKind::Heading(1)));
    assert_eq!(fragment, "</h1>\n<p></p>\n");
    assert_eq!(state, closed());
}

#[test]
fn changing_body_content_changes_inner_text_only() {
    let (first, _) = process_line("alpha", closed());
    let (second, _) = process_line("beta gamma", closed());
    assert_eq!(first, "<p>alpha</p>\n");
    assert_eq!(second, "<p>beta gamma</p>\n");
    assert!(first.starts_with("<p>") && first.ends_with("</p>\n"));
    assert!(second.starts_with("<p>") && second.ends_with("</p>\n"));
}

#[test]
fn document_title_and_body() {
    assert_eq!(convert("# Title\nBody text\n"), "<h1>Title</h1>\n<p>Body text</p>\n");
}

#[test]
fn document_blank_line_is_suppressed() {
    assert_eq!(convert("## Sub\n\nMore\n"), "<h2>Sub</h2>\n<p>More</p>\n");
}

#[test]
fn document_of_blank_lines_is_empty() {
    assert_eq!(convert("\n\n\n"), "");
    let lines = vec![String::new(), String::new(), String::new(), String::new()];
    assert_eq!(parse_markdown_lines(&lines), Vec::<String>::new());
}

#[test]
fn document_without_lines_is_empty() {
    assert_eq!(parse_markdown_lines(&Vec::new()), Vec::<String>::new());
}

#[test]
fn document_fragments_follow_line_order() {
    let lines = vec![
        String::from("# One"),
        String::from("first"),
        String::new(),
        String::from("## Two"),
        String::from("second"),
    ];
    assert_eq!(
        parse_markdown_lines(&lines),
        vec![
            String::from("<h1>One</h1>\n"),
            String::from("<p>first</p>\n"),
            String::from("<h2>Two</h2>\n"),
            String::from("<p>second</p>\n"),
        ]
    );
}

#[test]
fn document_swapping_lines_swaps_fragments() {
    let lines = vec![String::from("# A"), String::from("b"), String::from("### C")];
    let swapped = vec![String::from("### C"), String::from("b"), String::from("# A")];
    let out = parse_markdown_lines(&lines);
    let out_swapped = parse_markdown_lines(&swapped);
    assert_eq!(out, vec!["<h1>A</h1>\n", "<p>b</p>\n", "<h3>C</h3>\n"]);
    assert_eq!(out_swapped, vec!["<h3>C</h3>\n", "<p>b</p>\n", "<h1>A</h1>\n"]);
}

#[test]
fn document_consecutive_body_lines_stay_apart() {
    assert_eq!(convert("one\ntwo\n"), "<p>one</p>\n<p>two</p>\n");
}
