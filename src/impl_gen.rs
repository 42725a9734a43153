use vstd::prelude::*;
use crate::attributes::{Attributes, attrs_text};
use crate::bounds::{Bound, Bounds, bounds_text};
use crate::error::CodegenError;
use crate::field::{Field, assoc_value_text};
use crate::formatter::{put, deeper, open_block, close_block, Formatter, lemma_put_concat};
use crate::function::{Function, is_new_fn, fns_out, fns_error, fns_check, fmt_fns};
use crate::generics::{Generics, type_text, generics_text};
use crate::text::pushed;
use crate::type_def::Type;

verus! {

/// The associated type values, one `type X = T;` line each.
pub open spec fn assoc_values_text(fs: Seq<Field>) -> Seq<char>
    decreases fs.len(),
{
    if fs.len() == 0 {
        Seq::empty()
    } else {
        assoc_values_text(fs.drop_last()) + assoc_value_text(fs.last())
    }
}

/// How the header of an impl block is written: attributes, `impl`, generics, the
/// trait and `for` if any, the target type and the `where` clause.
pub open spec fn impl_head_text(i: Impl) -> Seq<char> {
    attrs_text(i.attrs.attrs@) + "impl"@ + generics_text(i.generics) + (if i.impl_trait is Some {
        " "@ + type_text(i.impl_trait.unwrap()) + " for"@
    } else {
        Seq::empty()
    }) + " "@ + type_text(i.target) + bounds_text(i.bounds.bounds@)
}

/// The buffer after writing the impl block at indentation `ind`: its header, then a
/// block holding the associated type values and then the functions, each function
/// after an empty line unless it comes first.
pub open spec fn impl_out(i: Impl, buf: Seq<char>, ind: nat) -> Seq<char> {
    let b = open_block(put(buf, ind, impl_head_text(i)), ind);
    let b2 = put(b, deeper(ind), assoc_values_text(i.assoc_tys@));
    close_block(fns_out(i.fns@, i.assoc_tys@.len() > 0, b2, deeper(ind)), ind)
}

/// What rendering the impl block fails with, if anything: its first function
/// without a body.
pub open spec fn impl_error(i: Impl) -> Option<CodegenError> {
    fns_error(i.fns@, false)
}

/// `i` is an empty impl block for the named type.
pub open spec fn is_new_impl(i: Impl, target: Seq<char>) -> bool {
    &&& type_text(i.target) == target
    &&& i.target.generics.lifetimes@.len() == 0 && i.target.generics.generics@.len() == 0
    &&& i.generics.lifetimes@.len() == 0 && i.generics.generics@.len() == 0
    &&& i.impl_trait is None
    &&& i.assoc_tys@.len() == 0 && i.fns@.len() == 0
    &&& i.bounds.bounds@.len() == 0 && i.attrs.attrs@.len() == 0
}

/// An impl block.
#[derive(Debug)]
pub struct Impl {
    pub target: Type,
    pub generics: Generics,
    pub impl_trait: Option<Type>,
    pub assoc_tys: Vec<Field>,
    pub bounds: Bounds,
    pub fns: Vec<Function>,
    pub attrs: Attributes,
}

impl Impl {
    /// An empty impl block for the named type.
    pub fn new(target: &str) -> (r: Self)
        ensures
            is_new_impl(r, target@),
    {
        Impl {
            target: Type::new(target),
            generics: Generics::new(),
            impl_trait: None,
            assoc_tys: Vec::new(),
            bounds: Bounds::new(),
            fns: Vec::new(),
            attrs: Attributes::new(),
        }
    }

    /// Adds a generic argument to the target type.
    pub fn target_generic(&mut self, ty: &str) -> (r: &mut Self)
        ensures
            r.target.name == old(self).target.name,
            r.target.generics.generics@.len() == old(self).target.generics.generics@.len() + 1,
            r.target.generics.generics@.drop_last() == old(self).target.generics.generics@,
            type_text(r.target.generics.generics@.last()) == ty@,
            r.target.generics.lifetimes == old(self).target.generics.lifetimes,
            *r == (Impl { target: r.target, ..*old(self) }),
            *final(self) == *final(r),
    {
        self.target.push_generic(ty);
        self
    }

    /// Sets the trait being implemented.
    pub fn impl_trait(&mut self, ty: &str) -> (r: &mut Self)
        ensures
            r.impl_trait is Some && type_text(r.impl_trait.unwrap()) == ty@,
            *r == (Impl { impl_trait: r.impl_trait, ..*old(self) }),
            *final(self) == *final(r),
    {
        self.impl_trait = Some(Type::new(ty));
        self
    }

    /// Adds an associated type value `type name = ty;`.
    pub fn associate_type(&mut self, name: &str, ty: &str) -> (r: &mut Self)
        ensures
            r.assoc_tys@.len() == old(self).assoc_tys@.len() + 1,
            r.assoc_tys@.drop_last() == old(self).assoc_tys@,
            assoc_value_text(r.assoc_tys@.last()) == "type "@ + name@ + " = "@ + ty@ + ";\n"@,
            *r == (Impl { assoc_tys: r.assoc_tys, ..*old(self) }),
            *final(self) == *final(r),
    {
        self.assoc_tys.push(Field::new_named(name, ty));
        assert(self.assoc_tys@.drop_last() =~= old(self).assoc_tys@);
        self
    }

    /// Adds a function with an empty body and hands it out for further changes.
    pub fn new_fn(&mut self, name: &str) -> (r: &mut Function)
        ensures
            is_new_fn(*r, name@),
            r.body is Some,
            final(self).fns@ == old(self).fns@.push(*final(r)),
            *final(self) == (Impl { fns: final(self).fns, ..*old(self) }),
    {
        self.fns.push(Function::new(name));
        let n = self.fns.len() - 1;
        &mut self.fns[n]
    }

    /// Adds a function.
    pub fn push_fn(&mut self, item: Function) -> (r: &mut Self)
        ensures
            r.fns@ == old(self).fns@.push(item),
            *r == (Impl { fns: r.fns, ..*old(self) }),
            *final(self) == *final(r),
    {
        self.fns.push(item);
        self
    }

    /// Adds an attribute.
    pub fn push_attr(&mut self, attr: &str) -> (r: &mut Self)
        ensures
            pushed(r.attrs.attrs@, old(self).attrs.attrs@, attr@),
            *r == (Impl { attrs: r.attrs, ..*old(self) }),
            *final(self) == *final(r),
    {
        self.attrs.push_attr(attr);
        self
    }

    /// Adds a type parameter of the impl block.
    pub fn push_generic(&mut self, generic: &str) -> (r: &mut Self)
        ensures
            r.generics.generics@.len() == old(self).generics.generics@.len() + 1,
            r.generics.generics@.drop_last() == old(self).generics.generics@,
            type_text(r.generics.generics@.last()) == generic@,
            r.generics.lifetimes == old(self).generics.lifetimes,
            *r == (Impl { generics: r.generics, ..*old(self) }),
            *final(self) == *final(r),
    {
        self.generics.push_generic(generic);
        self
    }

    /// Adds a bound to the `where` clause.
    pub fn push_bound(&mut self, bound: Bound) -> (r: &mut Self)
        ensures
            r.bounds.bounds@ == old(self).bounds.bounds@.push(bound),
            *r == (Impl { bounds: r.bounds, ..*old(self) }),
            *final(self) == *final(r),
    {
        self.bounds.push_bound(bound);
        self
    }

    /// Writes the impl block. Fails, writing nothing, when one of its functions has
    /// no body.
    #[verifier::rlimit(40)]
    pub fn fmt(&self, fmt: &mut Formatter) -> (r: Result<(), CodegenError>)
        ensures
            final(fmt).indentation() == old(fmt).indentation(),
            r is Err <==> impl_error(*self) is Some,
            r is Err ==> r == Err::<(), CodegenError>(impl_error(*self).unwrap()) && final(fmt).text()
                == old(fmt).text(),
            r is Ok ==> final(fmt).text() == impl_out(*self, old(fmt).text(), old(fmt).indentation()),
    {
        match fns_check(&self.fns, false) {
            Some(e) => {
                return Err(e);
            },
            None => {},
        }
        let ghost b0 = fmt.text();
        let ghost ind = fmt.indentation();
        self.attrs.fmt_attrs(fmt);
        fmt.write_str("impl");
        self.generics.fmt_generics(fmt);
        let ghost t1 = attrs_text(self.attrs.attrs@) + "impl"@ + generics_text(self.generics);
        proof {
            lemma_put_concat(b0, ind, attrs_text(self.attrs.attrs@), "impl"@);
            lemma_put_concat(b0, ind, attrs_text(self.attrs.attrs@) + "impl"@, generics_text(self.generics));
        }
        let ghost tr = if self.impl_trait is Some {
            " "@ + type_text(self.impl_trait.unwrap()) + " for"@
        } else {
            Seq::<char>::empty()
        };
        match &self.impl_trait {
            Some(t) => {
                fmt.write_str(" ");
                t.fmt(fmt);
                fmt.write_str(" for");
                proof {
                    lemma_put_concat(b0, ind, t1, " "@);
                    lemma_put_concat(b0, ind, t1 + " "@, type_text(*t));
                    lemma_put_concat(b0, ind, t1 + " "@ + type_text(*t), " for"@);
                    assert(t1 + " "@ + type_text(*t) + " for"@ =~= t1 + tr);
                }
            },
            None => {
                assert(t1 + tr =~= t1);
            },
        }
        fmt.write_str(" ");
        self.target.fmt(fmt);
        self.bounds.fmt_bounds(fmt);
        proof {
            lemma_put_concat(b0, ind, t1 + tr, " "@);
            lemma_put_concat(b0, ind, t1 + tr + " "@, type_text(self.target));
            lemma_put_concat(b0, ind, t1 + tr + " "@ + type_text(self.target), bounds_text(self.bounds.bounds@));
            assert(t1 + tr + " "@ + type_text(self.target) + bounds_text(self.bounds.bounds@) =~= impl_head_text(*self));
        }
        let saved = fmt.block();
        let ghost b1 = fmt.text();
        let ghost inner = fmt.indentation();
        let mut i: usize = 0;
        while i < self.assoc_tys.len()
            invariant
                0 <= i <= self.assoc_tys@.len(),
                fmt.indentation() == inner,
                fmt.text() == put(b1, inner, assoc_values_text(self.assoc_tys@.subrange(0, i as int))),
            decreases self.assoc_tys.len() - i,
        {
            let ghost pre = self.assoc_tys@.subrange(0, i as int);
            assert(self.assoc_tys@.subrange(0, i + 1).drop_last() =~= pre);
            self.assoc_tys[i].fmt_assoc_type_value(fmt);
            proof {
                lemma_put_concat(b1, inner, assoc_values_text(pre), assoc_value_text(self.assoc_tys@[i as int]));
            }
            i = i + 1;
        }
        assert(self.assoc_tys@.subrange(0, self.assoc_tys@.len() as int) =~= self.assoc_tys@);
        fmt_fns(&self.fns, self.assoc_tys.len() > 0, false, fmt);
        fmt.end_block(saved);
        Ok(())
    }
}

} // verus!
