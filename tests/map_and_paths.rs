use hugo_hooks::{flatten_path, infer_note_title_from_path, stamp_text, Frontmatter, HookError, MetaValue};

#[test]
fn insert_replaces_in_place_and_remove_keeps_order() {
    let mut fm: Frontmatter<i64> = Frontmatter::new();
    assert_eq!(fm.insert("a".to_string(), MetaValue::Bool(true)), None);
    assert_eq!(fm.insert("b".to_string(), MetaValue::Null), None);
    assert_eq!(fm.insert("c".to_string(), MetaValue::Other(1)), None);
    assert_eq!(fm.insert("a".to_string(), MetaValue::Other(2)), Some(MetaValue::Bool(true)));
    assert_eq!(fm.remove("b"), Some(MetaValue::Null));
    assert_eq!(fm.remove("b"), None);
    let entries = fm.into_entries();
    assert_eq!(
        entries,
        vec![("a".to_string(), MetaValue::Other(2)), ("c".to_string(), MetaValue::Other(1))]
    );
}

#[test]
fn title_from_paths() {
    assert_eq!(infer_note_title_from_path("a/b/note.md"), "note");
    assert_eq!(infer_note_title_from_path("a/b.tar.gz"), "b.tar");
    assert_eq!(infer_note_title_from_path("plain"), "plain");
    assert_eq!(infer_note_title_from_path("dir/.hidden"), ".hidden");
    assert_eq!(infer_note_title_from_path(""), "invalid-note-title");
    assert_eq!(infer_note_title_from_path("a/.."), "invalid-note-title");
    assert_eq!(infer_note_title_from_path("vault/dir/"), "dir");
    assert_eq!(infer_note_title_from_path("vault/dir/."), "dir");
    assert_eq!(infer_note_title_from_path("vault/note.md//./"), "note");
    assert_eq!(infer_note_title_from_path("/"), "invalid-note-title");
    assert_eq!(infer_note_title_from_path("."), "invalid-note-title");
}

#[test]
fn timestamps_as_utc_text() {
    assert_eq!(stamp_text(Some(1622505600)), "2021-06-01 00:00:00");
    assert_eq!(stamp_text(Some(86399)), "1970-01-01 23:59:59");
    assert_eq!(stamp_text(Some(-1)), "1969-12-31 23:59:59");
    assert_eq!(stamp_text(None), "");
    assert_eq!(stamp_text(Some(i64::MAX)), "");
    assert_eq!(stamp_text(Some(8210266876799)), "+262142-12-31 23:59:59");
    assert_eq!(stamp_text(Some(8210266876800)), "");
    assert_eq!(stamp_text(Some(-8334601228800)), "-262143-01-01 00:00:00");
    assert_eq!(stamp_text(Some(-8334601228801)), "");
}

#[test]
fn flatten_example_path() {
    assert_eq!(flatten_path("/out/a/b.c/note.md", "/out"), Ok("/out/a-b-c-note.md".to_string()));
}

#[test]
fn flatten_with_trailing_separator_in_root() {
    assert_eq!(flatten_path("/out/x/y.md", "/out/"), Ok("/out/x-y.md".to_string()));
}

#[test]
fn flatten_skips_doubled_separators_and_dot_components() {
    assert_eq!(flatten_path("/out//a.md", "/out"), Ok("/out/a.md".to_string()));
    assert_eq!(flatten_path("/out/./x/a.md", "/out"), Ok("/out/x-a.md".to_string()));
    assert_eq!(flatten_path("/out/a.md", "/out/."), Ok("/out/./a.md".to_string()));
    assert_eq!(flatten_path("/out/a.md", "/out//"), Ok("/out//a.md".to_string()));
    assert_eq!(flatten_path("/a/b.md", "/"), Ok("/a-b.md".to_string()));
    assert_eq!(flatten_path("a/b.md", "/"), Err(HookError::OutsideRoot));
}

#[test]
fn flatten_empty_extension_drops_dot() {
    assert_eq!(flatten_path("/out/d/note.", "/out"), Ok("/out/d-note".to_string()));
}

#[test]
fn flatten_outside_root() {
    assert_eq!(flatten_path("/other/a.md", "/out"), Err(HookError::OutsideRoot));
    assert_eq!(flatten_path("/outer/a.md", "/out"), Err(HookError::OutsideRoot));
}

#[test]
fn flatten_without_extension() {
    assert_eq!(flatten_path("/out/a.b/note", "/out"), Err(HookError::NoExtension));
    assert_eq!(flatten_path("/out/a/.hidden", "/out"), Err(HookError::NoExtension));
}
