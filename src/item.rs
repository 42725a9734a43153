use vstd::prelude::*;
use crate::enum_gen::Enum;
use crate::function::Function;
use crate::impl_gen::Impl;
use crate::module::Module;
use crate::struct_gen::Struct;
use crate::trait_gen::Trait;

verus! {

/// One top-level entry of a scope.
#[derive(Debug)]
pub enum Item {
    /// A module.
    Module(Module),
    /// A struct definition.
    Struct(Struct),
    /// A free function.
    Function(Function),
    /// A trait definition.
    Trait(Trait),
    /// An enum definition.
    Enum(Enum),
    /// An impl block.
    Impl(Impl),
    /// Text written as it is, followed by a newline.
    Raw(String),
}

} // verus!
