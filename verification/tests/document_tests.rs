use rpad::document::Document;

fn dirty_doc() -> Document {
    let mut d = Document::new();
    d.content = String::from("draft text");
    d.source_path = Some(String::from("/tmp/draft.txt"));
    d.is_modified = true;
    d
}

#[test]
fn fresh_document_is_empty_unsaved_unmodified() {
    let d = Document::new();
    assert_eq!(d.content, "");
    assert!(d.source_path.is_none());
    assert!(!d.is_modified);
    assert_eq!(d.find_text, "");
    assert_eq!(d.replace_text, "");
    assert_eq!(d.font_size, 14);
    assert!(d.word_wrap);
    assert!(d.status_bar_visible);
}

#[test]
fn default_matches_new() {
    let d = Document::default();
    assert_eq!(d.content, "");
    assert!(d.source_path.is_none());
    assert!(!d.is_modified);
    assert_eq!(d.font_size, 14);
}

#[test]
fn create_new_resets_regardless_of_prior_state() {
    let mut d = dirty_doc();
    d.create_new();
    assert_eq!(d.content, "");
    assert!(d.source_path.is_none());
    assert!(!d.is_modified);
    // preferences and transient inputs survive
    assert_eq!(d.font_size, 14);
    assert!(d.word_wrap);
}

#[test]
fn load_success_replaces_state() {
    let mut d = dirty_doc();
    let diag = d.load(
        String::from("/home/user/notes.txt"),
        Ok(String::from("line one\nline two")),
    );
    assert!(diag.is_none());
    assert_eq!(d.content, "line one\nline two");
    assert_eq!(d.source_path.as_deref(), Some("/home/user/notes.txt"));
    assert!(!d.is_modified);
}

#[test]
fn load_failure_leaves_document_untouched_and_reports() {
    let mut d = dirty_doc();
    let diag = d.load(
        String::from("/no/such/file.txt"),
        Err(String::from("No such file or directory")),
    );
    assert_eq!(
        diag.as_deref(),
        Some("Failed to open file: No such file or directory")
    );
    assert_eq!(d.content, "draft text");
    assert_eq!(d.source_path.as_deref(), Some("/tmp/draft.txt"));
    assert!(d.is_modified);
}

#[test]
fn save_success_records_path_and_clears_flag() {
    let mut d = dirty_doc();
    let diag = d.save(String::from("/tmp/saved.txt"), Ok(()));
    assert!(diag.is_none());
    assert_eq!(d.content, "draft text");
    assert_eq!(d.source_path.as_deref(), Some("/tmp/saved.txt"));
    assert!(!d.is_modified);
}

#[test]
fn save_failure_leaves_path_and_flag_untouched() {
    let mut d = dirty_doc();
    let diag = d.save(
        String::from("/read/only/place.txt"),
        Err(String::from("Permission denied")),
    );
    assert_eq!(diag.as_deref(), Some("Failed to save file: Permission denied"));
    assert_eq!(d.content, "draft text");
    assert_eq!(d.source_path.as_deref(), Some("/tmp/draft.txt"));
    assert!(d.is_modified);
}

#[test]
fn load_then_save_round_trips_content() {
    let mut d = Document::new();
    let original = String::from("alpha\nbeta\ngamma\n");
    let diag = d.load(String::from("/tmp/roundtrip.txt"), Ok(original.clone()));
    assert!(diag.is_none());
    // a save writes the buffer verbatim: what it would hand the gateway
    // is exactly what the load brought in
    assert_eq!(d.text_to_save(), &original);
    let diag = d.save(String::from("/tmp/roundtrip.txt"), Ok(()));
    assert!(diag.is_none());
    assert_eq!(d.content, original);
}

#[test]
fn save_current_target_follows_source_path() {
    let mut d = Document::new();
    assert!(d.save_current_target().is_none());
    d.source_path = Some(String::from("/tmp/known.txt"));
    assert_eq!(d.save_current_target().map(|p| p.as_str()), Some("/tmp/known.txt"));
}

#[test]
fn font_size_is_clamped_to_the_supported_range() {
    let mut d = Document::new();
    d.set_font_size(4);
    assert_eq!(d.font_size, 8);
    d.set_font_size(100);
    assert_eq!(d.font_size, 32);
    d.set_font_size(20);
    assert_eq!(d.font_size, 20);
}

#[test]
fn apply_edit_sets_flag_only_on_change() {
    let mut d = Document::new();
    d.apply_edit(String::new());
    assert!(!d.is_modified);
    d.apply_edit(String::from("x"));
    assert!(d.is_modified);
    d.load(String::from("/tmp/f.txt"), Ok(String::from("x"))).map(|_| ());
    assert!(!d.is_modified);
    // the flag stays on once set, even if a later edit restores the text
    d.apply_edit(String::from("xy"));
    d.apply_edit(String::from("x"));
    assert!(d.is_modified);
}
