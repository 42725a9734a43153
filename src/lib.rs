//! Builds an in-memory tree of Rust items and renders it as source text.
//!
//! Items are built through chained builder calls and rendered through an
//! indentation-aware [`Formatter`]. What each item renders to is stated by the
//! `*_out` and `*_text` specification functions of its module, and every renderer
//! is proved to write exactly that text.

pub mod associated_type;
pub mod attributes;
pub mod block;
pub mod bounds;
pub mod docs;
pub mod enum_gen;
pub mod error;
pub mod field;
pub mod fields;
pub mod formatter;
pub mod function;
pub mod generics;
pub mod impl_gen;
pub mod import;
pub mod item;
pub mod module;
pub mod scope;
pub mod struct_gen;
pub mod text;
pub mod trait_gen;
pub mod type_def;
pub mod variant;
pub mod vis;

pub use associated_type::AssociatedType;
pub use attributes::Attributes;
pub use block::{Block, Body};
pub use bounds::{Bound, BoundEndsWith, Bounds};
pub use docs::Docs;
pub use enum_gen::Enum;
pub use error::CodegenError;
pub use field::Field;
pub use fields::Fields;
pub use formatter::Formatter;
pub use function::{Function, SelfArg};
pub use generics::Generics;
pub use impl_gen::Impl;
pub use import::Import;
pub use item::Item;
pub use module::Module;
pub use scope::{ImportGroup, Scope};
pub use struct_gen::Struct;
pub use trait_gen::Trait;
pub use type_def::{Type, TypeDef};
pub use variant::Variant;
pub use vis::Vis;
