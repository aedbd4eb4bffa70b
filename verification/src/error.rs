use vstd::prelude::*;

verus! {

/// The ways an analysis can fail.
///
/// `MalformedIr` is raised when an intermediate representation is built from
/// a node tree whose unsafe-region markers are unbalanced; no signature is
/// produced for such a function. `UnknownNodeKind` is raised by the walker
/// when a node carries a kind code outside the closed enumeration; it fails
/// that one function's analysis only. `CatalogLoad` is raised when a rule set
/// is rejected at load time, before any function is analyzed.
#[derive(Clone, Copy, PartialEq, Eq, Structural, Debug)]
pub enum EssenceError {
    MalformedIr,
    UnknownNodeKind,
    CatalogLoad,
}

} // verus!
