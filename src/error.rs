use vstd::prelude::*;

verus! {

/// Ways in which building or rendering a tree can fail.
#[derive(Debug, Clone, Copy, PartialEq, Eq, Structural)]
pub enum CodegenError {
    /// A field of one layout was pushed onto fields committed to the other layout.
    InvalidShape,
    /// A function without a body was rendered outside a trait.
    MissingBody,
    /// A function inside a trait carries a visibility modifier.
    InvalidVisibility,
    /// A path was prepended to a name that already holds a path.
    InvalidIdentity,
}

} // verus!
