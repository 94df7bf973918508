//! Hooks that turn the metadata and content of exported notes into what a
//! Hugo site expects: frontmatter renaming, embed markers and flat output paths.

pub mod error;
pub mod frontmatter;
pub mod hooks;
pub mod laws;
pub mod metadata;
pub mod paths;
pub mod timestamp;

pub use error::HookError;
pub use frontmatter::normalize_frontmatter;
pub use hooks::{
    add_embed_info, flat_hierarchy, hugo_frontmatter, softbreaks_to_hardbreaks, Context, FileTimes,
    MarkdownEvent, MarkdownEvents, PostprocessorResult,
};
pub use metadata::{Frontmatter, MetaValue};
pub use paths::{flatten_path, infer_note_title_from_path};
pub use timestamp::stamp_text;
