use rpad::document::Document;

fn doc_with(content: &str) -> Document {
    let mut d = Document::new();
    d.content = String::from(content);
    d
}

#[test]
fn fresh_document_status_is_empty_and_ready() {
    let d = Document::new();
    let st = d.compute_status_summary();
    assert_eq!(st.lines, 0);
    assert_eq!(st.chars, 0);
    assert!(!st.modified);
}

#[test]
fn status_counts_lines_and_characters() {
    let st = doc_with("one\ntwo\nthree").compute_status_summary();
    assert_eq!(st.lines, 3);
    assert_eq!(st.chars, 13);
}

#[test]
fn trailing_newline_does_not_open_an_extra_line() {
    let st = doc_with("one\ntwo\n").compute_status_summary();
    assert_eq!(st.lines, 2);
    assert_eq!(st.chars, 8);
}

#[test]
fn lone_newline_is_one_line() {
    let st = doc_with("\n").compute_status_summary();
    assert_eq!(st.lines, 1);
    assert_eq!(st.chars, 1);
}

#[test]
fn characters_count_unicode_scalars_not_bytes() {
    let st = doc_with("caf\u{e9}").compute_status_summary();
    assert_eq!(st.chars, 4);
    assert_eq!(st.lines, 1);
}

#[test]
fn status_reports_modified_flag() {
    let mut d = doc_with("text");
    d.is_modified = true;
    assert!(d.compute_status_summary().modified);
}

#[test]
fn line_counts_match_standard_library_lines() {
    let cases = ["", "a", "a\nb", "a\n", "\n", "\n\n", "a\r\nb", "one\ntwo\nthree\n"];
    for content in cases {
        let st = doc_with(content).compute_status_summary();
        assert_eq!(st.lines, content.lines().count(), "content {:?}", content);
        assert_eq!(st.chars, content.chars().count(), "content {:?}", content);
    }
}

#[test]
fn title_shows_placeholder_without_a_path() {
    let d = Document::new();
    assert_eq!(d.compute_display_title(), "Untitled - rpad");
}

#[test]
fn title_marks_unsaved_changes_with_an_asterisk() {
    let mut d = Document::new();
    d.is_modified = true;
    assert_eq!(d.compute_display_title(), "*Untitled - rpad");
}

#[test]
fn title_uses_the_file_name_of_the_source_path() {
    let mut d = Document::new();
    d.source_path = Some(String::from("/home/user/notes.txt"));
    assert_eq!(d.compute_display_title(), "notes.txt - rpad");
    d.is_modified = true;
    assert_eq!(d.compute_display_title(), "*notes.txt - rpad");
}

#[test]
fn title_handles_backslash_separators_and_bare_names() {
    let mut d = Document::new();
    d.source_path = Some(String::from("C:\\docs\\letter.txt"));
    assert_eq!(d.compute_display_title(), "letter.txt - rpad");
    d.source_path = Some(String::from("plain.txt"));
    assert_eq!(d.compute_display_title(), "plain.txt - rpad");
}

#[test]
fn title_falls_back_when_the_path_ends_in_a_separator() {
    let mut d = Document::new();
    d.source_path = Some(String::from("/ends/with/sep/"));
    assert_eq!(d.compute_display_title(), "Untitled - rpad");
}
