//! The data a normalization pass works on: the top-level items of a file,
//! each with the source lines and comments that belong to it.
use vstd::prelude::*;

verus! {

/// Marker placed after `///` when a plain comment is turned into a doc comment,
/// so that the parser keeps it attached to the item below it.
pub const PROMOTED_COMMENT_MARKER: &'static str = "__cargo_normalize_promoted__";

/// The syntactic kind of a top-level item.
#[derive(Debug, Clone, Copy, PartialEq, Eq, Structural)]
pub enum ItemKind {
    Const,
    Enum,
    ExternCrate,
    Fn,
    ForeignMod,
    Impl,
    Macro,
    Mod,
    Static,
    Struct,
    Trait,
    TraitAlias,
    Type,
    Union,
    Use,
    Verbatim,
    Other,
}

/// A top-level item together with the text that is moved with it.
pub struct ItemSegment {
    /// What kind of item this is.
    pub kind: ItemKind,
    /// The declared name of a struct, enum, union or module.
    pub name: Option<String>,
    /// For an inherent impl on a plain path type, the last segment of that path.
    pub impl_target: Option<String>,
    /// The item carries a `#[cfg(test)]` attribute (tracked for modules).
    pub cfg_test: bool,
    /// Plain `//` comment lines directly above the item.
    pub leading_comments: Vec<String>,
    /// `//!` comment lines that travel with the next module declaration.
    pub module_doc_comments: Vec<String>,
    /// The source lines the item spans.
    pub source: String,
}

/// What the parser reports of a top-level item: its kind, names and line span.
pub struct ItemHeader {
    pub kind: ItemKind,
    /// The declared name of a struct, enum, union or module.
    pub name: Option<String>,
    /// For an inherent impl on a plain path type, the last segment of that path.
    pub impl_target: Option<String>,
    /// The item is a module carrying `#[cfg(test)]`.
    pub cfg_test: bool,
    /// First line of the item, attributes included (1-based).
    pub start_line: usize,
    /// Last line of the item (1-based).
    pub end_line: usize,
}

/// A parsed file ready to be written: its shebang and crate attributes as printed (none if
/// it has neither), and its items in their new order.
pub struct NormalizedFile {
    pub preamble: Option<String>,
    pub items: Vec<ItemSegment>,
}

/// Groups of consecutive items that can be written without blank lines between them.
#[derive(Debug, Clone, Copy, PartialEq, Eq, Structural)]
pub enum CompactGroup {
    Use,
    Const,
    Mod,
}

/// Whether the optional name is present and equal to `n`.
pub open spec fn name_is(name: Option<String>, n: Seq<char>) -> bool {
    name matches Some(s) && s@ == n
}

} // verus!
