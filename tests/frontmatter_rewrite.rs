use hugo_hooks::{
    hugo_frontmatter, normalize_frontmatter, Context, FileTimes, Frontmatter, HookError,
    MarkdownEvent, MetaValue, PostprocessorResult,
};

type Value = MetaValue<i64>;

fn text(s: &str) -> Value {
    MetaValue::Str(s.to_string())
}

fn metadata(entries: Vec<(&str, Value)>) -> Frontmatter<i64> {
    let mut fm = Frontmatter::new();
    for (k, v) in entries {
        fm.insert(k.to_string(), v);
    }
    fm
}

fn context(path: &str, fm: Frontmatter<i64>) -> Context<i64> {
    Context {
        frontmatter: fm,
        current_file: path.to_string(),
        destination: "/out/note.md".to_string(),
    }
}

fn keys(fm: Frontmatter<i64>) -> Vec<String> {
    fm.into_entries().into_iter().map(|(k, _)| k).collect()
}

const JUNE_FIRST_2021: i64 = 1622505600;

#[test]
fn example_note_is_rewritten() {
    let fm = metadata(vec![
        ("title", MetaValue::Null),
        ("created", MetaValue::Null),
        ("modified", text("2020-01-02 03:04:05")),
        ("summary", MetaValue::Null),
        ("publish", MetaValue::Bool(true)),
        ("id", text("abc")),
    ]);
    let mut ctx = context("notes/note.md", fm);
    let mut events: Vec<MarkdownEvent<u8>> = Vec::new();
    let times = FileTimes { created: Some(JUNE_FIRST_2021), modified: None };
    let r = hugo_frontmatter(&mut ctx, &mut events, &times);
    assert_eq!(r, Ok(PostprocessorResult::Continue));
    let fm = &ctx.frontmatter;
    assert_eq!(fm.get("title"), Some(&text("note")));
    assert_eq!(fm.get("date"), Some(&text("2021-06-01 00:00:00")));
    assert_eq!(fm.get("lastmod"), Some(&text("2020-01-02 03:04:05")));
    assert_eq!(fm.get("draft"), Some(&MetaValue::Bool(true)));
    assert_eq!(fm.get("url"), Some(&text("abc")));
    assert_eq!(fm.get("summary"), None);
    assert_eq!(fm.get("publish"), None);
    assert_eq!(fm.get("created"), None);
    assert_eq!(fm.get("modified"), None);
    assert_eq!(fm.get("id"), None);
    assert_eq!(fm.len(), 5);
}

#[test]
fn entries_keep_their_order() {
    let mut fm = metadata(vec![
        ("title", MetaValue::Null),
        ("tags", MetaValue::Other(7)),
        ("created", text("2019-05-05")),
        ("id", text("x")),
    ]);
    let r = normalize_frontmatter(&mut fm, "t".to_string(), String::new(), "m".to_string());
    assert_eq!(r, Ok(()));
    assert_eq!(keys(fm), vec!["tags", "title", "date", "lastmod", "url"]);
}

#[test]
fn missing_title_comes_from_file_stem() {
    let mut ctx = context("vault/dir/My Note.md", metadata(vec![("id", text("a"))]));
    let mut events: Vec<MarkdownEvent<u8>> = Vec::new();
    let times = FileTimes { created: None, modified: None };
    assert!(hugo_frontmatter(&mut ctx, &mut events, &times).is_ok());
    assert_eq!(ctx.frontmatter.get("title"), Some(&text("My Note")));
}

#[test]
fn missing_title_from_path_with_trailing_separator() {
    let mut ctx = context("vault/dir/", metadata(vec![("title", MetaValue::Null), ("id", text("a"))]));
    let mut events: Vec<MarkdownEvent<u8>> = Vec::new();
    let times = FileTimes { created: None, modified: None };
    assert!(hugo_frontmatter(&mut ctx, &mut events, &times).is_ok());
    assert_eq!(ctx.frontmatter.get("title"), Some(&text("dir")));
}

#[test]
fn missing_title_without_stem_gets_placeholder() {
    let mut ctx = context("vault/..", metadata(vec![("title", MetaValue::Null), ("id", text("a"))]));
    let mut events: Vec<MarkdownEvent<u8>> = Vec::new();
    let times = FileTimes { created: None, modified: None };
    assert!(hugo_frontmatter(&mut ctx, &mut events, &times).is_ok());
    assert_eq!(ctx.frontmatter.get("title"), Some(&text("invalid-note-title")));
}

#[test]
fn present_title_is_kept() {
    let mut fm = metadata(vec![("title", text("Kept")), ("id", text("a"))]);
    normalize_frontmatter(&mut fm, "stem".to_string(), String::new(), String::new()).unwrap();
    assert_eq!(fm.get("title"), Some(&text("Kept")));
}

#[test]
fn aliases_and_renamed_keys_are_gone() {
    let mut fm = metadata(vec![
        ("alias", text("a")),
        ("aliases", MetaValue::Other(3)),
        ("created", text("c")),
        ("modified", text("m")),
        ("publish", MetaValue::Bool(false)),
        ("id", text("i")),
    ]);
    normalize_frontmatter(&mut fm, "t".to_string(), String::new(), String::new()).unwrap();
    for k in ["alias", "aliases", "created", "modified", "publish", "id"] {
        assert!(!fm.contains_key(k), "{k} left");
    }
    assert_eq!(fm.get("draft"), Some(&MetaValue::Bool(false)));
}

#[test]
fn present_created_becomes_date_unchanged() {
    let mut fm = metadata(vec![("created", MetaValue::Other(20200101)), ("id", text("i"))]);
    normalize_frontmatter(&mut fm, "t".to_string(), "ignored".to_string(), String::new()).unwrap();
    assert_eq!(fm.get("date"), Some(&MetaValue::Other(20200101)));
}

#[test]
fn missing_created_without_file_time_is_empty() {
    let mut ctx = context("n.md", metadata(vec![("created", MetaValue::Null), ("id", text("i"))]));
    let mut events: Vec<MarkdownEvent<u8>> = Vec::new();
    let times = FileTimes { created: None, modified: Some(0) };
    assert!(hugo_frontmatter(&mut ctx, &mut events, &times).is_ok());
    assert_eq!(ctx.frontmatter.get("date"), Some(&text("")));
    assert_eq!(ctx.frontmatter.get("lastmod"), Some(&text("1970-01-01 00:00:00")));
}

#[test]
fn summary_null_absent_and_present() {
    let mut fm = metadata(vec![("summary", MetaValue::Null), ("id", text("i"))]);
    normalize_frontmatter(&mut fm, "t".to_string(), String::new(), String::new()).unwrap();
    assert!(!fm.contains_key("summary"));

    let mut fm = metadata(vec![("id", text("i"))]);
    normalize_frontmatter(&mut fm, "t".to_string(), String::new(), String::new()).unwrap();
    assert!(!fm.contains_key("summary"));

    let mut fm = metadata(vec![("summary", text("short")), ("id", text("i"))]);
    normalize_frontmatter(&mut fm, "t".to_string(), String::new(), String::new()).unwrap();
    assert_eq!(fm.get("summary"), Some(&text("short")));
}

#[test]
fn publish_true_becomes_draft_true() {
    let mut fm = metadata(vec![("publish", MetaValue::Bool(true)), ("id", text("i"))]);
    normalize_frontmatter(&mut fm, "t".to_string(), String::new(), String::new()).unwrap();
    assert_eq!(fm.get("draft"), Some(&MetaValue::Bool(true)));
    assert!(!fm.contains_key("publish"));
}

#[test]
fn publish_that_is_not_a_boolean_stays() {
    let mut fm = metadata(vec![("publish", text("yes")), ("id", text("i"))]);
    normalize_frontmatter(&mut fm, "t".to_string(), String::new(), String::new()).unwrap();
    assert_eq!(fm.get("publish"), Some(&text("yes")));
    assert!(!fm.contains_key("draft"));
}

#[test]
fn second_rewrite_fails_on_missing_id() {
    let mut fm = metadata(vec![("id", text("abc"))]);
    normalize_frontmatter(&mut fm, "t".to_string(), String::new(), String::new()).unwrap();
    assert_eq!(fm.get("url"), Some(&text("abc")));
    let before = fm.len();
    let r = normalize_frontmatter(&mut fm, "t".to_string(), String::new(), String::new());
    assert_eq!(r, Err(HookError::MissingField { key: "id".to_string() }));
    assert_eq!(fm.len(), before);
    assert_eq!(fm.get("url"), Some(&text("abc")));
}

#[test]
fn hook_without_id_leaves_metadata() {
    let mut ctx = context("n.md", metadata(vec![("title", MetaValue::Null), ("alias", text("x"))]));
    let mut events: Vec<MarkdownEvent<u8>> = Vec::new();
    let times = FileTimes { created: None, modified: None };
    let r = hugo_frontmatter(&mut ctx, &mut events, &times);
    assert_eq!(r, Err(HookError::MissingField { key: "id".to_string() }));
    assert_eq!(ctx.frontmatter.get("title"), Some(&MetaValue::Null));
    assert_eq!(ctx.frontmatter.get("alias"), Some(&text("x")));
}

#[test]
fn existing_date_is_replaced_in_place() {
    let mut fm = metadata(vec![("date", text("old")), ("created", text("new")), ("id", text("i"))]);
    normalize_frontmatter(&mut fm, "t".to_string(), String::new(), String::new()).unwrap();
    assert_eq!(fm.get("date"), Some(&text("new")));
    assert_eq!(keys(fm), vec!["date", "title", "lastmod", "url"]);
}
