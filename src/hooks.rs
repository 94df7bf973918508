//! The hooks run on each exported note: they rewrite its metadata, its
//! content events or its destination path, and tell the host whether to
//! go on.

use vstd::prelude::*;
use crate::error::HookError;
use crate::frontmatter::{hugo_normalized, key_id, normalize_frontmatter};
use crate::metadata::{has_key, lookup, Frontmatter, MetaValue};
use crate::paths::{extension_dot, flat_path, flatten_path, infer_note_title_from_path, note_title, relative_to};
use crate::timestamp::{is_stamp_text, stamp_text};

verus! {

/// What the host does after a hook.
#[derive(Debug, Clone, Copy, PartialEq, Eq, Structural)]
pub enum PostprocessorResult {
    /// Run the next hook.
    Continue,
    /// Run no further hook, but write the note.
    StopHere,
    /// Run no further hook and skip the note.
    StopAndSkipNote,
}

/// One event of a note's parsed content. The hooks read and write text and
/// line breaks; every other event is carried through in `Other`.
#[derive(Debug, Clone, PartialEq, Eq)]
pub enum MarkdownEvent<E> {
    Text(String),
    SoftBreak,
    HardBreak,
    Other(E),
}

pub type MarkdownEvents<E> = Vec<MarkdownEvent<E>>;

/// The note being exported.
pub struct Context<V> {
    /// Its metadata.
    pub frontmatter: Frontmatter<V>,
    /// The path of its source file.
    pub current_file: String,
    /// The path it will be written to.
    pub destination: String,
}

/// The source file's timestamps in seconds since the Unix epoch, each
/// `None` where the platform or file system does not give it.
pub struct FileTimes {
    pub created: Option<i64>,
    pub modified: Option<i64>,
}

/// Rewrites the note's metadata for Hugo (see `normalize_frontmatter`): the
/// title falls back to the file stem of `current_file`, and `date` and
/// `lastmod` fall back to the UTC text of the file's timestamps, or to the
/// empty string where there are none. A note without `id` fails and keeps
/// its metadata.
pub fn hugo_frontmatter<V, E>(
    context: &mut Context<V>,
    events: &mut MarkdownEvents<E>,
    times: &FileTimes,
) -> (r: Result<PostprocessorResult, HookError>)
    requires
        old(context).frontmatter.wf(),
    ensures
        final(context).frontmatter.wf(),
        final(context).current_file == old(context).current_file,
        final(context).destination == old(context).destination,
        *final(events) == *old(events),
        has_key(old(context).frontmatter@, key_id()) ==> r == Ok::<PostprocessorResult, HookError>(
            PostprocessorResult::Continue,
        ) && exists|title: String, created: String, modified: String|
            title@ == note_title(old(context).current_file@) && is_stamp_text(times.created, created@)
                && is_stamp_text(times.modified, modified@) && final(context).frontmatter@
                == hugo_normalized(old(context).frontmatter@, title, created, modified),
        !has_key(old(context).frontmatter@, key_id()) ==> final(context).frontmatter@ == old(
            context,
        ).frontmatter@ && (r matches Err(HookError::MissingField { key }) && key@ == key_id()),
{
    let title = infer_note_title_from_path(context.current_file.as_str());
    let created = stamp_text(times.created);
    let modified = stamp_text(times.modified);
    match normalize_frontmatter(&mut context.frontmatter, title, created, modified) {
        Ok(()) => Ok(PostprocessorResult::Continue),
        Err(e) => Err(e),
    }
}

/// Soft breaks become hard breaks.
pub open spec fn hardened<E>(e: MarkdownEvent<E>) -> MarkdownEvent<E> {
    match e {
        MarkdownEvent::SoftBreak => MarkdownEvent::HardBreak,
        _ => e,
    }
}

/// Turns every soft line break of the content into a hard one.
pub fn softbreaks_to_hardbreaks<V, E>(
    context: &mut Context<V>,
    events: &mut MarkdownEvents<E>,
) -> (r: PostprocessorResult)
    ensures
        r == PostprocessorResult::Continue,
        *final(context) == *old(context),
        final(events)@.len() == old(events)@.len(),
        forall|i: int|
            0 <= i < old(events)@.len() ==> #[trigger] final(events)@[i] == hardened(
                old(events)@[i],
            ),
{
    let ghost s = events@;
    let mut i: usize = 0;
    while i < events.len()
        invariant
            events@.len() == s.len(),
            i <= events@.len(),
            forall|j: int| 0 <= j < i ==> #[trigger] events@[j] == hardened(s[j]),
            forall|j: int| i <= j < s.len() ==> #[trigger] events@[j] == s[j],
        decreases events@.len() - i,
    {
        if matches!(events[i], MarkdownEvent::SoftBreak) {
            events[i] = MarkdownEvent::HardBreak;
        }
        i = i + 1;
    }
    PostprocessorResult::Continue
}

pub open spec fn key_embed_link() -> Seq<char> {
    "embed_link"@
}

/// The text that opens an embedded note.
pub open spec fn embed_open() -> Seq<char> {
    "\n<div class=\"markdown-embed\">\n<div class=\"markdown-embed-content\">\n\n"@
}

/// The text that closes an embedded note, with the link it was embedded by.
pub open spec fn embed_close(link: Seq<char>) -> Seq<char> {
    "\n</div>\n<div class=\"markdown-embed-link\" style=\"display:none;\">\n"@ + link
        + "</div>\n</div>"@
}

/// Wraps the content of an embedded note in `div` markers that carry its
/// `embed_link`. Fails, changing nothing, where `embed_link` is missing or
/// not text.
pub fn add_embed_info<V, E>(
    context: &mut Context<V>,
    events: &mut MarkdownEvents<E>,
) -> (r: Result<PostprocessorResult, HookError>)
    requires
        old(context).frontmatter.wf(),
    ensures
        *final(context) == *old(context),
        lookup(old(context).frontmatter@, key_embed_link()) is None ==> *final(events) == *old(
            events,
        ) && (r matches Err(HookError::MissingField { key }) && key@ == key_embed_link()),
        lookup(old(context).frontmatter@, key_embed_link()) matches Some(v) && !(v is Str)
            ==> *final(events) == *old(events) && (r matches Err(HookError::NotText { key })
            && key@ == key_embed_link()),
        lookup(old(context).frontmatter@, key_embed_link()) matches Some(MetaValue::Str(link))
            ==> r == Ok::<PostprocessorResult, HookError>(PostprocessorResult::Continue)
            && final(events)@.len() == old(events)@.len() + 2 && (final(events)@[0] matches MarkdownEvent::Text(t)
            && t@ == embed_open()) && (final(events)@.last() matches MarkdownEvent::Text(t)
            && t@ == embed_close(link@)) && final(events)@.subrange(
            1,
            old(events)@.len() as int + 1,
        ) == old(events)@,
{
    let link = match context.frontmatter.get("embed_link") {
        None => {
            return Err(HookError::MissingField { key: String::from_str("embed_link") });
        },
        Some(MetaValue::Str(link)) => link,
        Some(_) => {
            return Err(HookError::NotText { key: String::from_str("embed_link") });
        },
    };
    let ghost s = events@;
    let open = String::from_str(
        "\n<div class=\"markdown-embed\">\n<div class=\"markdown-embed-content\">\n\n",
    );
    let mut close = String::from_str(
        "\n</div>\n<div class=\"markdown-embed-link\" style=\"display:none;\">\n",
    );
    close.append(link.as_str());
    close.append("</div>\n</div>");
    events.insert(0, MarkdownEvent::Text(open));
    events.push(MarkdownEvent::Text(close));
    assert(events@.subrange(1, s.len() as int + 1) =~= s);
    Ok(PostprocessorResult::Continue)
}

pub open spec fn key_destination() -> Seq<char> {
    "destination"@
}

/// Moves the note to a flat layout: the part of its destination below the
/// `destination` root of its metadata becomes one file name, with each `/`
/// and `.` replaced by `-` and the extension kept. Fails, changing nothing,
/// where the root is missing or not text, the destination is not below it,
/// or it has no extension.
pub fn flat_hierarchy<V, E>(
    context: &mut Context<V>,
    events: &mut MarkdownEvents<E>,
) -> (r: Result<PostprocessorResult, HookError>)
    requires
        old(context).frontmatter.wf(),
    ensures
        *final(events) == *old(events),
        final(context).frontmatter == old(context).frontmatter,
        final(context).current_file == old(context).current_file,
        r is Err ==> *final(context) == *old(context),
        lookup(old(context).frontmatter@, key_destination()) is None ==> (r matches Err(
            HookError::MissingField { key },
        ) && key@ == key_destination()),
        lookup(old(context).frontmatter@, key_destination()) matches Some(v) && !(v is Str) ==> (
        r matches Err(HookError::NotText { key }) && key@ == key_destination()),
        lookup(old(context).frontmatter@, key_destination()) matches Some(MetaValue::Str(root))
            ==> match relative_to(old(context).destination@, root@) {
            None => r == Err::<PostprocessorResult, HookError>(HookError::OutsideRoot),
            Some(rel) => match extension_dot(rel) {
                None => r == Err::<PostprocessorResult, HookError>(HookError::NoExtension),
                Some(d) => r == Ok::<PostprocessorResult, HookError>(PostprocessorResult::Continue)
                    && final(context).destination@ == flat_path(root@, rel, d),
            },
        },
{
    let root = match context.frontmatter.get("destination") {
        None => {
            return Err(HookError::MissingField { key: String::from_str("destination") });
        },
        Some(MetaValue::Str(root)) => root,
        Some(_) => {
            return Err(HookError::NotText { key: String::from_str("destination") });
        },
    };
    match flatten_path(context.destination.as_str(), root.as_str()) {
        Ok(p) => {
            context.destination = p;
            Ok(PostprocessorResult::Continue)
        },
        Err(e) => Err(e),
    }
}

} // verus!
