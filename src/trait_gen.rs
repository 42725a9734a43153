use vstd::prelude::*;
use crate::associated_type::{AssociatedType, assoc_type_text};
use crate::bounds::Bound;
use crate::error::CodegenError;
use crate::formatter::{put, deeper, open_block, close_block, Formatter, lemma_put_concat};
use crate::function::{Function, is_new_fn, fns_out, fns_error, fns_check, fmt_fns};
use crate::generics::type_text;
use crate::type_def::{
    Type, TypeDef, head_text, derive_added, derives_added, allow_added, repr_set, doc_added, doc_set,
    attr_added, generic_added, generics_added, bound_added, bounds_added,
};
use crate::vis::Vis;

verus! {

/// The associated type declarations, one after another.
pub open spec fn assoc_types_text(ats: Seq<AssociatedType>) -> Seq<char>
    decreases ats.len(),
{
    if ats.len() == 0 {
        Seq::empty()
    } else {
        assoc_types_text(ats.drop_last()) + assoc_type_text(ats.last())
    }
}

/// The buffer after writing the trait at indentation `ind`: its header, then a block
/// holding the associated types and then the functions, each function after an
/// empty line unless it comes first.
pub open spec fn trait_out(t: Trait, buf: Seq<char>, ind: nat) -> Seq<char> {
    let b = open_block(put(buf, ind, head_text(t.type_def, "trait"@, t.parents@)), ind);
    let b2 = put(b, deeper(ind), assoc_types_text(t.associated_tys@));
    close_block(fns_out(t.fns@, t.associated_tys@.len() > 0, b2, deeper(ind)), ind)
}

/// What rendering the trait fails with, if anything: its first function that
/// carries a visibility.
pub open spec fn trait_error(t: Trait) -> Option<CodegenError> {
    fns_error(t.fns@, true)
}

/// `t` is a private trait named `name` with nothing in it.
pub open spec fn is_new_trait(t: Trait, name: Seq<char>) -> bool {
    &&& t.type_def.ty.name@ == name
    &&& type_text(t.type_def.ty) == name
    &&& t.type_def.vis == Vis::Private
    &&& t.type_def.docs.lines@.len() == 0
    &&& t.type_def.derive@.len() == 0
    &&& t.type_def.allow@.len() == 0
    &&& t.type_def.repr is None
    &&& t.type_def.bounds.bounds@.len() == 0
    &&& t.type_def.attrs.attrs@.len() == 0
    &&& t.parents@.len() == 0 && t.associated_tys@.len() == 0 && t.fns@.len() == 0
}

/// A trait definition.
#[derive(Debug)]
pub struct Trait {
    pub type_def: TypeDef,
    pub parents: Vec<Type>,
    pub associated_tys: Vec<AssociatedType>,
    pub fns: Vec<Function>,
}

impl Trait {
    /// A private trait with the given name and nothing in it.
    pub fn new(name: &str) -> (r: Self)
        ensures
            is_new_trait(r, name@),
    {
        Trait { type_def: TypeDef::new(name), parents: Vec::new(), associated_tys: Vec::new(), fns: Vec::new() }
    }

    /// Adds a parent trait with the given name.
    pub fn parent(&mut self, ty: &str) -> (r: &mut Self)
        ensures
            r.parents@.len() == old(self).parents@.len() + 1,
            r.parents@.drop_last() == old(self).parents@,
            type_text(r.parents@.last()) == ty@,
            *r == (Trait { parents: r.parents, ..*old(self) }),
            *final(self) == *final(r),
    {
        self.parents.push(Type::new(ty));
        assert(self.parents@.drop_last() =~= old(self).parents@);
        self
    }

    /// Adds an associated type with the given name and hands it out for further changes.
    pub fn associated_type(&mut self, name: &str) -> (r: &mut AssociatedType)
        ensures
            r.bound.name@ == name@,
            r.bound.bounds@.len() == 0,
            r.docs.lines@.len() == 0,
            final(self).associated_tys@ == old(self).associated_tys@.push(*final(r)),
            *final(self) == (Trait { associated_tys: final(self).associated_tys, ..*old(self) }),
    {
        self.associated_tys.push(AssociatedType::new(name));
        let n = self.associated_tys.len() - 1;
        &mut self.associated_tys[n]
    }

    /// Adds a function declaration with the given name and hands it out for further changes.
    pub fn new_fn(&mut self, name: &str) -> (r: &mut Function)
        ensures
            is_new_fn(*r, name@),
            r.body is None,
            final(self).fns@ == old(self).fns@.push(*final(r)),
            *final(self) == (Trait { fns: final(self).fns, ..*old(self) }),
    {
        self.fns.push(Function::new_trait_fn(name));
        let n = self.fns.len() - 1;
        &mut self.fns[n]
    }

    /// Adds a function.
    pub fn push_fn(&mut self, item: Function) -> (r: &mut Self)
        ensures
            r.fns@ == old(self).fns@.push(item),
            *r == (Trait { fns: r.fns, ..*old(self) }),
            *final(self) == *final(r),
    {
        self.fns.push(item);
        self
    }

    /// Adds a derive.
    pub fn derive(&mut self, name: &str) -> (r: &mut Self)
        ensures
            derive_added(r.type_def, old(self).type_def, name@),
            *r == (Trait { type_def: r.type_def, ..*old(self) }),
            *final(self) == *final(r),
    {
        self.type_def.derive(name);
        self
    }

    /// Adds derives, in order.
    pub fn derive_many(&mut self, names: &[&str]) -> (r: &mut Self)
        ensures
            derives_added(r.type_def, old(self).type_def, names@),
            *r == (Trait { type_def: r.type_def, ..*old(self) }),
            *final(self) == *final(r),
    {
        self.type_def.derive_many(names);
        self
    }

    /// Adds a lint allow.
    pub fn allow(&mut self, lint: &str) -> (r: &mut Self)
        ensures
            allow_added(r.type_def, old(self).type_def, lint@),
            *r == (Trait { type_def: r.type_def, ..*old(self) }),
            *final(self) == *final(r),
    {
        self.type_def.allow(lint);
        self
    }

    /// Sets the representation.
    pub fn repr(&mut self, repr: &str) -> (r: &mut Self)
        ensures
            repr_set(r.type_def, old(self).type_def, repr@),
            *r == (Trait { type_def: r.type_def, ..*old(self) }),
            *final(self) == *final(r),
    {
        self.type_def.repr(repr);
        self
    }

    /// Adds documentation lines.
    pub fn push_doc(&mut self, doc: &str) -> (r: &mut Self)
        ensures
            doc_added(r.type_def, old(self).type_def, doc@),
            *r == (Trait { type_def: r.type_def, ..*old(self) }),
            *final(self) == *final(r),
    {
        self.type_def.push_doc(doc);
        self
    }

    /// Replaces the documentation.
    pub fn set_doc(&mut self, doc: &str) -> (r: &mut Self)
        ensures
            doc_set(r.type_def, old(self).type_def, doc@),
            *r == (Trait { type_def: r.type_def, ..*old(self) }),
            *final(self) == *final(r),
    {
        self.type_def.set_doc(doc);
        self
    }

    /// Adds an attribute.
    pub fn push_attr(&mut self, attr: &str) -> (r: &mut Self)
        ensures
            attr_added(r.type_def, old(self).type_def, attr@),
            *r == (Trait { type_def: r.type_def, ..*old(self) }),
            *final(self) == *final(r),
    {
        self.type_def.push_attr(attr);
        self
    }

    /// Sets the visibility.
    pub fn set_vis(&mut self, vis: Vis) -> (r: &mut Self)
        ensures
            r.type_def == (TypeDef { vis, ..old(self).type_def }),
            *r == (Trait { type_def: r.type_def, ..*old(self) }),
            *final(self) == *final(r),
    {
        self.type_def.set_vis(vis);
        self
    }

    /// Adds a type parameter.
    pub fn push_generic(&mut self, generic: &str) -> (r: &mut Self)
        ensures
            generic_added(r.type_def, old(self).type_def, generic@),
            *r == (Trait { type_def: r.type_def, ..*old(self) }),
            *final(self) == *final(r),
    {
        self.type_def.push_generic(generic);
        self
    }

    /// Adds type parameters, in order.
    pub fn extend_generics(&mut self, generics: &[&str]) -> (r: &mut Self)
        ensures
            generics_added(r.type_def, old(self).type_def, generics@),
            *r == (Trait { type_def: r.type_def, ..*old(self) }),
            *final(self) == *final(r),
    {
        self.type_def.extend_generics(generics);
        self
    }

    /// Adds a bound to the `where` clause.
    pub fn push_bound(&mut self, bound: Bound) -> (r: &mut Self)
        ensures
            bound_added(r.type_def, old(self).type_def, bound),
            *r == (Trait { type_def: r.type_def, ..*old(self) }),
            *final(self) == *final(r),
    {
        self.type_def.push_bound(bound);
        self
    }

    /// Adds bounds to the `where` clause, in order.
    pub fn extend_bounds(&mut self, bounds: Vec<Bound>) -> (r: &mut Self)
        ensures
            bounds_added(r.type_def, old(self).type_def, bounds@),
            *r == (Trait { type_def: r.type_def, ..*old(self) }),
            *final(self) == *final(r),
    {
        self.type_def.extend_bounds(bounds);
        self
    }

    /// Writes the trait. Fails, writing nothing, when one of its functions carries a
    /// visibility.
    #[verifier::rlimit(40)]
    pub fn fmt(&self, fmt: &mut Formatter) -> (r: Result<(), CodegenError>)
        ensures
            final(fmt).indentation() == old(fmt).indentation(),
            r is Err <==> trait_error(*self) is Some,
            r is Err ==> r == Err::<(), CodegenError>(trait_error(*self).unwrap()) && final(fmt).text()
                == old(fmt).text(),
            r is Ok ==> final(fmt).text() == trait_out(*self, old(fmt).text(), old(fmt).indentation()),
    {
        match fns_check(&self.fns, true) {
            Some(e) => {
                return Err(e);
            },
            None => {},
        }
        self.type_def.fmt_head("trait", self.parents.as_slice(), fmt);
        let saved = fmt.block();
        let ghost b1 = fmt.text();
        let ghost inner = fmt.indentation();
        let mut i: usize = 0;
        while i < self.associated_tys.len()
            invariant
                0 <= i <= self.associated_tys@.len(),
                fmt.indentation() == inner,
                fmt.text() == put(b1, inner, assoc_types_text(self.associated_tys@.subrange(0, i as int))),
            decreases self.associated_tys.len() - i,
        {
            let ghost pre = self.associated_tys@.subrange(0, i as int);
            assert(self.associated_tys@.subrange(0, i + 1).drop_last() =~= pre);
            self.associated_tys[i].fmt_assoc_type(fmt);
            proof {
                lemma_put_concat(b1, inner, assoc_types_text(pre), assoc_type_text(self.associated_tys@[i as int]));
            }
            i = i + 1;
        }
        assert(self.associated_tys@.subrange(0, self.associated_tys@.len() as int) =~= self.associated_tys@);
        fmt_fns(&self.fns, self.associated_tys.len() > 0, true, fmt);
        fmt.end_block(saved);
        Ok(())
    }
}

} // verus!
