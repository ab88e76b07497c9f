use snippet_engine::clipboard::{
    ClipboardModel, ClipboardContent, ClipboardWrite, borrow_begin, borrow_end, plan_copy,
    is_file_reference,
};

#[test]
fn borrow_scope_restores_existing_text() {
    let mut clip = ClipboardModel { text: Some("before".to_string()), internal_change: false };
    let snap = borrow_begin(&mut clip, &"expansion".to_string());
    assert_eq!(clip.text.as_deref(), Some("expansion"));
    assert!(clip.internal_change);
    borrow_end(&mut clip, snap);
    assert_eq!(clip.text.as_deref(), Some("before"));
    assert!(!clip.internal_change);
}

#[test]
fn borrow_scope_clears_when_nothing_was_held() {
    let mut clip = ClipboardModel { text: None, internal_change: false };
    let snap = borrow_begin(&mut clip, &"expansion".to_string());
    borrow_end(&mut clip, snap);
    assert_eq!(clip.text, None);
    assert!(!clip.internal_change);
}

#[test]
fn repeated_borrows_leave_the_clipboard_as_it_began() {
    let mut clip = ClipboardModel { text: Some("mine".to_string()), internal_change: false };
    for payload in ["one", "two", "three"] {
        let snap = borrow_begin(&mut clip, &payload.to_string());
        // The paste step reads the clipboard; a failed paste changes
        // nothing either, and restoration still runs.
        borrow_end(&mut clip, snap);
    }
    assert_eq!(clip.text.as_deref(), Some("mine"));
    assert!(!clip.internal_change);
}

#[test]
fn copy_prefers_file_then_html_then_text() {
    let full = ClipboardContent {
        text: Some("t".to_string()),
        html: Some("<b>h</b>".to_string()),
        file: Some("/tmp/f".to_string()),
    };
    match plan_copy(&full) {
        Some(ClipboardWrite::Text(t)) => assert_eq!(t, "/tmp/f"),
        other => panic!("unexpected write: {:?}", other),
    }
    let html = ClipboardContent {
        text: Some("alt".to_string()),
        html: Some("<b>h</b>".to_string()),
        file: None,
    };
    match plan_copy(&html) {
        Some(ClipboardWrite::Html(h, t)) => {
            assert_eq!(h, "<b>h</b>");
            assert_eq!(t.as_deref(), Some("alt"));
        },
        other => panic!("unexpected write: {:?}", other),
    }
    let text = ClipboardContent { text: Some("t".to_string()), html: None, file: None };
    match plan_copy(&text) {
        Some(ClipboardWrite::Text(t)) => assert_eq!(t, "t"),
        other => panic!("unexpected write: {:?}", other),
    }
    let empty = ClipboardContent { text: None, html: None, file: None };
    assert!(plan_copy(&empty).is_none());
}

#[test]
fn file_references_are_single_line_paths_or_urls() {
    assert!(is_file_reference("/home/user/notes.txt"));
    assert!(is_file_reference("file:///home/user/notes.txt"));
    assert!(!is_file_reference("plain words"));
    assert!(!is_file_reference("/two\n/lines"));
    assert!(!is_file_reference(""));
}
