use amdgpu_top_tui::text::{AppTextView, Text};

#[test]
fn fresh_slot_is_empty() {
    let t = Text::new();
    assert_eq!(t.published(), "");
    assert_eq!(t.buf, "");
}

#[test]
fn staging_never_reaches_published_without_commit() {
    let mut t = Text::new();
    t.buf.push_str("half-writ");
    assert_eq!(t.published(), "");
    t.buf.push_str("ten frame");
    assert_eq!(t.published(), "");
    t.set();
    assert_eq!(t.published(), "half-written frame");
}

#[test]
fn clear_leaves_published_untouched() {
    let mut t = Text::new();
    t.buf.push_str("first");
    t.set();
    t.clear();
    assert_eq!(t.buf, "");
    assert_eq!(t.published(), "first");
}

#[test]
fn commit_replaces_whole_value() {
    let mut t = Text::new();
    t.buf.push_str("old frame");
    t.set();
    t.clear();
    t.buf.push_str("new frame");
    // Before the commit a reader sees the old value in full.
    assert_eq!(t.published(), "old frame");
    t.set();
    // After the commit a reader sees the new value in full.
    assert_eq!(t.published(), "new frame");
}

#[test]
fn thousand_commits_publish_only_whole_values() {
    // A reader observing around any of 1000 commits sees one of the
    // written values in full, never a mixture of two.
    let mut t = Text::new();
    let mut written: Vec<String> = vec![String::new()];
    for i in 0..1000u32 {
        let value = format!("frame number {i} of this run");
        t.clear();
        t.buf.push_str(&value);
        // Mid-tick observation: still a previously committed value.
        assert!(written.contains(&t.published().clone()));
        t.set();
        written.push(value.clone());
        assert_eq!(t.published(), &value);
    }
}

#[test]
fn fdinfo_rows_in_order() {
    let mut v = AppTextView::new();
    let rows = vec![String::from("proc a"), String::from("proc b")];
    v.print_fdinfo(&rows, false);
    assert_eq!(v.text.buf, "proc a\nproc b\n");
    // Staging only: not yet published.
    assert_eq!(v.text.published(), "");
    v.text.set();
    assert_eq!(v.text.published(), "proc a\nproc b\n");
}

#[test]
fn fdinfo_rows_reversed() {
    let mut v = AppTextView::new();
    let rows = vec![
        String::from("one"),
        String::from("two"),
        String::from("three"),
    ];
    v.print_fdinfo(&rows, true);
    assert_eq!(v.text.buf, "three\ntwo\none\n");
}
