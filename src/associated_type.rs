use vstd::prelude::*;
use crate::bounds::{Bound, BoundEndsWith, bound_text, ends_text};
use crate::docs::{Docs, text_lines};
use crate::formatter::{put, Formatter, lemma_put_concat};
use crate::generics::type_text;
use crate::text::views;

verus! {

/// How an associated type is declared: `type `, the bound, then `;` and a newline.
pub open spec fn assoc_type_text(a: AssociatedType) -> Seq<char> {
    "type "@ + bound_text(a.bound) + ends_text(BoundEndsWith::SemiColon)
}

/// An associated type declared in a trait.
#[derive(Debug)]
pub struct AssociatedType {
    pub bound: Bound,
    pub docs: Docs,
}

impl AssociatedType {
    /// An associated type with the given name and no bounds.
    pub fn new(name: &str) -> (r: Self)
        ensures
            r.bound.name@ == name@,
            r.bound.bounds@.len() == 0,
            r.docs.lines@.len() == 0,
    {
        AssociatedType { bound: Bound::new(name), docs: Docs::empty() }
    }

    /// An associated type with the given name, bounded by the named type.
    pub fn new_with_bound(name: &str, bound: &str) -> (r: Self)
        ensures
            r.bound.name@ == name@,
            r.bound.bounds@.len() == 1,
            type_text(r.bound.bounds@[0]) == bound@,
            r.docs.lines@.len() == 0,
    {
        AssociatedType { bound: Bound::new_with_bound(name, bound), docs: Docs::empty() }
    }

    /// Adds a bound with the given type name.
    pub fn push_bound(&mut self, bound: &str) -> (r: &mut Self)
        ensures
            r.bound.name == old(self).bound.name,
            r.bound.bounds@.len() == old(self).bound.bounds@.len() + 1,
            r.bound.bounds@.drop_last() == old(self).bound.bounds@,
            type_text(r.bound.bounds@.last()) == bound@,
            r.docs == old(self).docs,
            *final(self) == *final(r),
    {
        self.bound.push_bound(bound);
        self
    }

    /// Adds documentation lines.
    pub fn push_doc(&mut self, doc: &str) -> (r: &mut Self)
        ensures
            views(r.docs.lines@) == views(old(self).docs.lines@) + text_lines(doc@),
            r.bound == old(self).bound,
            *final(self) == *final(r),
    {
        self.docs.push_doc(doc);
        self
    }

    /// Writes the declaration `type Name: Bounds;`.
    pub fn fmt_assoc_type(&self, fmt: &mut Formatter)
        ensures
            final(fmt).indentation() == old(fmt).indentation(),
            final(fmt).text() == put(old(fmt).text(), old(fmt).indentation(), assoc_type_text(*self)),
    {
        let ghost b0 = fmt.text();
        let ghost ind = fmt.indentation();
        fmt.write_str("type ");
        self.bound.fmt_bound(fmt, BoundEndsWith::SemiColon);
        proof {
            lemma_put_concat(b0, ind, "type "@, bound_text(self.bound) + ends_text(BoundEndsWith::SemiColon));
            assert("type "@ + (bound_text(self.bound) + ends_text(BoundEndsWith::SemiColon)) =~= assoc_type_text(*self));
        }
    }
}

} // verus!
