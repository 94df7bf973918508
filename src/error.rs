//! Why a hook could not process a document.

use vstd::prelude::*;

verus! {

#[derive(Debug, Clone, PartialEq, Eq)]
pub enum HookError {
    /// A metadata field that the hook needs is absent.
    MissingField { key: String },
    /// A metadata field that the hook reads as text holds something else.
    NotText { key: String },
    /// The destination path does not lie below the configured root.
    OutsideRoot,
    /// The destination path has no file extension.
    NoExtension,
}

} // verus!
