use hugo_hooks::{
    add_embed_info, flat_hierarchy, softbreaks_to_hardbreaks, Context, Frontmatter, HookError,
    MarkdownEvent, MetaValue, PostprocessorResult,
};

fn context_with(entries: Vec<(&str, MetaValue<i64>)>, destination: &str) -> Context<i64> {
    let mut fm = Frontmatter::new();
    for (k, v) in entries {
        fm.insert(k.to_string(), v);
    }
    Context { frontmatter: fm, current_file: "src/note.md".to_string(), destination: destination.to_string() }
}

#[test]
fn soft_breaks_become_hard() {
    let mut ctx = context_with(vec![], "/out/n.md");
    let mut events = vec![
        MarkdownEvent::Text("a".to_string()),
        MarkdownEvent::SoftBreak,
        MarkdownEvent::Other(5u8),
        MarkdownEvent::SoftBreak,
        MarkdownEvent::HardBreak,
    ];
    assert_eq!(softbreaks_to_hardbreaks(&mut ctx, &mut events), PostprocessorResult::Continue);
    assert_eq!(
        events,
        vec![
            MarkdownEvent::Text("a".to_string()),
            MarkdownEvent::HardBreak,
            MarkdownEvent::Other(5u8),
            MarkdownEvent::HardBreak,
            MarkdownEvent::HardBreak,
        ]
    );
}

#[test]
fn embed_is_wrapped_in_markers() {
    let mut ctx = context_with(vec![("embed_link", MetaValue::Str("notes/other.md".to_string()))], "/out/n.md");
    let mut events = vec![MarkdownEvent::Other(1u8)];
    assert_eq!(add_embed_info(&mut ctx, &mut events), Ok(PostprocessorResult::Continue));
    assert_eq!(
        events,
        vec![
            MarkdownEvent::Text(
                "\n<div class=\"markdown-embed\">\n<div class=\"markdown-embed-content\">\n\n".to_string()
            ),
            MarkdownEvent::Other(1u8),
            MarkdownEvent::Text(
                "\n</div>\n<div class=\"markdown-embed-link\" style=\"display:none;\">\nnotes/other.md</div>\n</div>"
                    .to_string()
            ),
        ]
    );
}

#[test]
fn embed_without_link_fails() {
    let mut ctx = context_with(vec![], "/out/n.md");
    let mut events = vec![MarkdownEvent::Other(1u8)];
    let r = add_embed_info(&mut ctx, &mut events);
    assert_eq!(r, Err(HookError::MissingField { key: "embed_link".to_string() }));
    assert_eq!(events, vec![MarkdownEvent::Other(1u8)]);
}

#[test]
fn embed_link_that_is_not_text_fails() {
    let mut ctx = context_with(vec![("embed_link", MetaValue::Bool(true))], "/out/n.md");
    let mut events: Vec<MarkdownEvent<u8>> = vec![];
    let r = add_embed_info(&mut ctx, &mut events);
    assert_eq!(r, Err(HookError::NotText { key: "embed_link".to_string() }));
    assert!(events.is_empty());
}

#[test]
fn flat_hierarchy_rewrites_destination() {
    let mut ctx = context_with(vec![("destination", MetaValue::Str("/out".to_string()))], "/out/a/b.c/note.md");
    let mut events: Vec<MarkdownEvent<u8>> = vec![];
    assert_eq!(flat_hierarchy(&mut ctx, &mut events), Ok(PostprocessorResult::Continue));
    assert_eq!(ctx.destination, "/out/a-b-c-note.md");
}

#[test]
fn flat_hierarchy_errors_leave_destination() {
    let mut events: Vec<MarkdownEvent<u8>> = vec![];
    let mut ctx = context_with(vec![], "/out/a.md");
    assert_eq!(
        flat_hierarchy(&mut ctx, &mut events),
        Err(HookError::MissingField { key: "destination".to_string() })
    );
    let mut ctx = context_with(vec![("destination", MetaValue::Other(1))], "/out/a.md");
    assert_eq!(
        flat_hierarchy(&mut ctx, &mut events),
        Err(HookError::NotText { key: "destination".to_string() })
    );
    let mut ctx = context_with(vec![("destination", MetaValue::Str("/site".to_string()))], "/out/a.md");
    assert_eq!(flat_hierarchy(&mut ctx, &mut events), Err(HookError::OutsideRoot));
    assert_eq!(ctx.destination, "/out/a.md");
    let mut ctx = context_with(vec![("destination", MetaValue::Str("/out".to_string()))], "/out/a/readme");
    assert_eq!(flat_hierarchy(&mut ctx, &mut events), Err(HookError::NoExtension));
    assert_eq!(ctx.destination, "/out/a/readme");
}
