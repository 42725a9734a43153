use vstd::prelude::*;
use crate::formatter::{put, Formatter, lemma_put_concat};
use crate::text::{has_prefix, has_suffix, pushed, extended, views, owned, starts_with, ends_with, extend_strings};

verus! {

/// How one attribute is written: wrapped in `#[` and `]` where it lacks them, then a newline.
pub open spec fn attr_text(a: Seq<char>) -> Seq<char> {
    (if has_prefix(a, "#["@) { Seq::empty() } else { "#["@ }) + a + (if has_suffix(a, "]"@) {
        Seq::empty()
    } else {
        "]"@
    }) + "\n"@
}

/// The attribute lines of `attrs`, in order.
pub open spec fn attrs_text(attrs: Seq<String>) -> Seq<char>
    decreases attrs.len(),
{
    if attrs.len() == 0 {
        Seq::empty()
    } else {
        attrs_text(attrs.drop_last()) + attr_text(attrs.last()@)
    }
}

/// An ordered list of attributes.
#[derive(Debug, Clone, PartialEq, Eq)]
pub struct Attributes {
    pub attrs: Vec<String>,
}

impl Attributes {
    /// Creates an empty attribute list.
    pub fn new() -> (r: Self)
        ensures
            r.attrs@.len() == 0,
    {
        Attributes { attrs: Vec::new() }
    }

    /// Creates a list holding one attribute.
    pub fn new_with_attr(attr: &str) -> (r: Self)
        ensures
            r.attrs@.len() == 1,
            r.attrs@[0]@ == attr@,
    {
        let mut r = Self::new();
        r.push_attr(attr);
        r
    }

    /// Creates a list holding the given attributes, in order.
    pub fn new_with_attrs(attrs: &[&str]) -> (r: Self)
        ensures
            extended(r.attrs@, Seq::empty(), attrs@),
    {
        let mut r = Self::new();
        r.extend_attrs(attrs);
        assert(r.attrs@.subrange(0, 0) =~= Seq::<String>::empty());
        r
    }

    /// The number of attributes.
    pub fn attr_count(&self) -> (r: usize)
        ensures
            r == self.attrs@.len(),
    {
        self.attrs.len()
    }

    /// Whether the list is empty.
    pub fn is_attrs_empty(&self) -> (r: bool)
        ensures
            r == (self.attrs@.len() == 0),
    {
        self.attrs.len() == 0
    }

    /// Removes every attribute.
    pub fn clear_attrs(&mut self) -> (r: &mut Self)
        ensures
            r.attrs@.len() == 0,
            *final(self) == *final(r),
    {
        self.attrs.clear();
        self
    }

    /// The attributes, in order.
    pub fn attrs(&self) -> (r: &[String])
        ensures
            r@ == self.attrs@,
    {
        self.attrs.as_slice()
    }

    /// Whether an attribute with exactly these characters is present.
    pub fn has_attr(&self, attr: &str) -> (r: bool)
        ensures
            r == views(self.attrs@).contains(attr@),
    {
        let a = owned(attr);
        let mut i: usize = 0;
        while i < self.attrs.len()
            invariant
                0 <= i <= self.attrs@.len(),
                a@ == attr@,
                forall|k: int| 0 <= k < i ==> self.attrs@[k]@ != attr@,
            decreases self.attrs.len() - i,
        {
            if self.attrs[i] == a {
                assert(views(self.attrs@)[i as int] == attr@);
                return true;
            }
            i = i + 1;
        }
        assert forall|k: int| 0 <= k < views(self.attrs@).len() implies views(self.attrs@)[k] != attr@ by {
            assert(self.attrs@[k]@ != attr@);
        }
        false
    }

    /// Replaces the attributes with the given ones.
    pub fn set_attrs(&mut self, attrs: &[&str]) -> (r: &mut Self)
        ensures
            extended(r.attrs@, Seq::empty(), attrs@),
            *final(self) == *final(r),
    {
        self.attrs.clear();
        extend_strings(&mut self.attrs, attrs);
        assert(self.attrs@.subrange(0, 0) =~= Seq::<String>::empty());
        self
    }

    /// Adds an attribute at the end.
    pub fn push_attr(&mut self, attr: &str) -> (r: &mut Self)
        ensures
            pushed(r.attrs@, old(self).attrs@, attr@),
            *final(self) == *final(r),
    {
        self.attrs.push(owned(attr));
        assert(self.attrs@.drop_last() =~= old(self).attrs@);
        self
    }

    /// Adds the given attributes at the end, in order.
    pub fn extend_attrs(&mut self, attrs: &[&str]) -> (r: &mut Self)
        ensures
            extended(r.attrs@, old(self).attrs@, attrs@),
            *final(self) == *final(r),
    {
        extend_strings(&mut self.attrs, attrs);
        self
    }

    /// Writes one line per attribute, adding `#[` and `]` where missing.
    pub fn fmt_attrs(&self, fmt: &mut Formatter)
        ensures
            final(fmt).indentation() == old(fmt).indentation(),
            final(fmt).text() == put(old(fmt).text(), old(fmt).indentation(), attrs_text(self.attrs@)),
    {
        let ghost b0 = fmt.text();
        let ghost ind = fmt.indentation();
        let mut i: usize = 0;
        while i < self.attrs.len()
            invariant
                0 <= i <= self.attrs@.len(),
                fmt.indentation() == ind,
                fmt.text() == put(b0, ind, attrs_text(self.attrs@.subrange(0, i as int))),
            decreases self.attrs.len() - i,
        {
            let ghost sofar = attrs_text(self.attrs@.subrange(0, i as int));
            let a = self.attrs[i].as_str();
            let ghost t0 = if has_prefix(a@, "#["@) { Seq::<char>::empty() } else { "#["@ };
            let ghost t2 = if has_suffix(a@, "]"@) { Seq::<char>::empty() } else { "]"@ };
            if !starts_with(a, "#[") {
                fmt.write_str("#[");
            }
            assert(fmt.text() == put(put(b0, ind, sofar), ind, t0));
            fmt.write_str(a);
            if !ends_with(a, "]") {
                fmt.write_str("]");
            }
            assert(fmt.text() == put(put(put(put(b0, ind, sofar), ind, t0), ind, a@), ind, t2));
            fmt.write_str("\n");
            proof {
                lemma_put_concat(b0, ind, sofar, t0);
                lemma_put_concat(b0, ind, sofar + t0, a@);
                lemma_put_concat(b0, ind, sofar + t0 + a@, t2);
                lemma_put_concat(b0, ind, sofar + t0 + a@ + t2, "\n"@);
                assert(self.attrs@.subrange(0, i + 1).drop_last() =~= self.attrs@.subrange(0, i as int));
                assert(sofar + t0 + a@ + t2 + "\n"@ =~= sofar + attr_text(a@));
            }
            i = i + 1;
        }
        assert(self.attrs@.subrange(0, self.attrs@.len() as int) =~= self.attrs@);
    }
}

impl Default for Attributes {
    fn default() -> (r: Self)
        ensures
            r.attrs@.len() == 0,
    {
        Attributes::new()
    }
}

} // verus!
