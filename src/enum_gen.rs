use vstd::prelude::*;
use crate::bounds::Bound;
use crate::formatter::{put, deeper, open_block, close_block, Formatter};
use crate::generics::type_text;
use crate::type_def::{
    Type, TypeDef, head_text, derive_added, derives_added, allow_added, repr_set, doc_added, doc_set,
    attr_added, generic_added, generics_added, bound_added, bounds_added,
};
use crate::variant::{Variant, variant_out};
use crate::vis::Vis;

verus! {

/// The buffer after writing the variants one after another at indentation `ind`.
pub open spec fn variants_out(vs: Seq<Variant>, buf: Seq<char>, ind: nat) -> Seq<char>
    decreases vs.len(),
{
    if vs.len() == 0 {
        buf
    } else {
        variant_out(vs.last(), variants_out(vs.drop_last(), buf, ind), ind)
    }
}

/// The buffer after writing the enum at indentation `ind`: its header, then a block
/// holding its variants.
pub open spec fn enum_out(e: Enum, buf: Seq<char>, ind: nat) -> Seq<char> {
    let b = open_block(put(buf, ind, head_text(e.type_def, "enum"@, Seq::empty())), ind);
    close_block(variants_out(e.variants@, b, deeper(ind)), ind)
}

/// `e` is a private enum named `name` with nothing else set.
pub open spec fn is_new_enum(e: Enum, name: Seq<char>) -> bool {
    &&& e.type_def.ty.name@ == name
    &&& type_text(e.type_def.ty) == name
    &&& e.type_def.vis == Vis::Private
    &&& e.type_def.docs.lines@.len() == 0
    &&& e.type_def.derive@.len() == 0
    &&& e.type_def.allow@.len() == 0
    &&& e.type_def.repr is None
    &&& e.type_def.bounds.bounds@.len() == 0
    &&& e.type_def.attrs.attrs@.len() == 0
    &&& e.variants@.len() == 0
}

/// An enum definition.
#[derive(Debug)]
pub struct Enum {
    pub type_def: TypeDef,
    pub variants: Vec<Variant>,
}

impl Enum {
    /// A private enum with the given name and no variants.
    pub fn new(name: &str) -> (r: Self)
        ensures
            is_new_enum(r, name@),
    {
        Enum { type_def: TypeDef::new(name), variants: Vec::new() }
    }

    /// Adds a variant with the given name and hands it out for further changes.
    pub fn new_variant(&mut self, name: &str) -> (r: &mut Variant)
        ensures
            r.name@ == name@,
            r.docs.lines@.len() == 0,
            r.attrs.attrs@.len() == 0,
            r.fields is Empty,
            final(self).type_def == old(self).type_def,
            final(self).variants@ == old(self).variants@.push(*final(r)),
    {
        self.variants.push(Variant::new(name));
        let n = self.variants.len() - 1;
        &mut self.variants[n]
    }

    /// Adds a variant.
    pub fn push_variant(&mut self, item: Variant) -> (r: &mut Self)
        ensures
            r.type_def == old(self).type_def,
            r.variants@ == old(self).variants@.push(item),
            *final(self) == *final(r),
    {
        self.variants.push(item);
        self
    }

    /// Adds a derive.
    pub fn derive(&mut self, name: &str) -> (r: &mut Self)
        ensures
            derive_added(r.type_def, old(self).type_def, name@),
            *r == (Enum { type_def: r.type_def, ..*old(self) }),
            *final(self) == *final(r),
    {
        self.type_def.derive(name);
        self
    }

    /// Adds derives, in order.
    pub fn derive_many(&mut self, names: &[&str]) -> (r: &mut Self)
        ensures
            derives_added(r.type_def, old(self).type_def, names@),
            *r == (Enum { type_def: r.type_def, ..*old(self) }),
            *final(self) == *final(r),
    {
        self.type_def.derive_many(names);
        self
    }

    /// Adds a lint allow.
    pub fn allow(&mut self, lint: &str) -> (r: &mut Self)
        ensures
            allow_added(r.type_def, old(self).type_def, lint@),
            *r == (Enum { type_def: r.type_def, ..*old(self) }),
            *final(self) == *final(r),
    {
        self.type_def.allow(lint);
        self
    }

    /// Sets the representation.
    pub fn repr(&mut self, repr: &str) -> (r: &mut Self)
        ensures
            repr_set(r.type_def, old(self).type_def, repr@),
            *r == (Enum { type_def: r.type_def, ..*old(self) }),
            *final(self) == *final(r),
    {
        self.type_def.repr(repr);
        self
    }

    /// Adds documentation lines.
    pub fn push_doc(&mut self, doc: &str) -> (r: &mut Self)
        ensures
            doc_added(r.type_def, old(self).type_def, doc@),
            *r == (Enum { type_def: r.type_def, ..*old(self) }),
            *final(self) == *final(r),
    {
        self.type_def.push_doc(doc);
        self
    }

    /// Replaces the documentation.
    pub fn set_doc(&mut self, doc: &str) -> (r: &mut Self)
        ensures
            doc_set(r.type_def, old(self).type_def, doc@),
            *r == (Enum { type_def: r.type_def, ..*old(self) }),
            *final(self) == *final(r),
    {
        self.type_def.set_doc(doc);
        self
    }

    /// Adds an attribute.
    pub fn push_attr(&mut self, attr: &str) -> (r: &mut Self)
        ensures
            attr_added(r.type_def, old(self).type_def, attr@),
            *r == (Enum { type_def: r.type_def, ..*old(self) }),
            *final(self) == *final(r),
    {
        self.type_def.push_attr(attr);
        self
    }

    /// Sets the visibility.
    pub fn set_vis(&mut self, vis: Vis) -> (r: &mut Self)
        ensures
            r.type_def == (TypeDef { vis, ..old(self).type_def }),
            *r == (Enum { type_def: r.type_def, ..*old(self) }),
            *final(self) == *final(r),
    {
        self.type_def.set_vis(vis);
        self
    }

    /// Adds a type parameter.
    pub fn push_generic(&mut self, generic: &str) -> (r: &mut Self)
        ensures
            generic_added(r.type_def, old(self).type_def, generic@),
            *r == (Enum { type_def: r.type_def, ..*old(self) }),
            *final(self) == *final(r),
    {
        self.type_def.push_generic(generic);
        self
    }

    /// Adds type parameters, in order.
    pub fn extend_generics(&mut self, generics: &[&str]) -> (r: &mut Self)
        ensures
            generics_added(r.type_def, old(self).type_def, generics@),
            *r == (Enum { type_def: r.type_def, ..*old(self) }),
            *final(self) == *final(r),
    {
        self.type_def.extend_generics(generics);
        self
    }

    /// Adds a bound to the `where` clause.
    pub fn push_bound(&mut self, bound: Bound) -> (r: &mut Self)
        ensures
            bound_added(r.type_def, old(self).type_def, bound),
            *r == (Enum { type_def: r.type_def, ..*old(self) }),
            *final(self) == *final(r),
    {
        self.type_def.push_bound(bound);
        self
    }

    /// Adds bounds to the `where` clause, in order.
    pub fn extend_bounds(&mut self, bounds: Vec<Bound>) -> (r: &mut Self)
        ensures
            bounds_added(r.type_def, old(self).type_def, bounds@),
            *r == (Enum { type_def: r.type_def, ..*old(self) }),
            *final(self) == *final(r),
    {
        self.type_def.extend_bounds(bounds);
        self
    }

    /// Writes the enum: header, then a block with one variant after another.
    pub fn fmt(&self, fmt: &mut Formatter)
        ensures
            final(fmt).indentation() == old(fmt).indentation(),
            final(fmt).text() == enum_out(*self, old(fmt).text(), old(fmt).indentation()),
    {
        let no_parents: Vec<Type> = Vec::new();
        proof { assert(no_parents@ =~= Seq::<Type>::empty()); }
        self.type_def.fmt_head("enum", no_parents.as_slice(), fmt);
        let saved = fmt.block();
        let ghost b1 = fmt.text();
        let ghost inner = fmt.indentation();
        let mut i: usize = 0;
        while i < self.variants.len()
            invariant
                0 <= i <= self.variants@.len(),
                fmt.indentation() == inner,
                fmt.text() == variants_out(self.variants@.subrange(0, i as int), b1, inner),
            decreases self.variants.len() - i,
        {
            assert(self.variants@.subrange(0, i + 1).drop_last() =~= self.variants@.subrange(0, i as int));
            self.variants[i].fmt(fmt);
            i = i + 1;
        }
        assert(self.variants@.subrange(0, self.variants@.len() as int) =~= self.variants@);
        fmt.end_block(saved);
    }
}

} // verus!
