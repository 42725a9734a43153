use vstd::prelude::*;
use crate::formatter::{put, Formatter, lemma_put_concat};
use crate::generics::type_text;
use crate::text::owned;
use crate::type_def::Type;

verus! {

/// The types written one after another, separated by ` + `.
pub open spec fn plus_text(ts: Seq<Type>) -> Seq<char>
    decreases ts.len(),
{
    if ts.len() == 0 {
        Seq::empty()
    } else if ts.len() == 1 {
        type_text(ts[0])
    } else {
        plus_text(ts.drop_last()) + " + "@ + type_text(ts.last())
    }
}

/// How a bound is written, before its terminator: the name alone, or the name, `: `
/// and the required types joined by ` + `.
pub open spec fn bound_text(b: Bound) -> Seq<char> {
    if b.bounds@.len() == 0 {
        b.name@
    } else {
        b.name@ + ": "@ + plus_text(b.bounds@)
    }
}

/// The terminator of a bound line.
pub open spec fn ends_text(e: BoundEndsWith) -> Seq<char> {
    match e {
        BoundEndsWith::SemiColon => ";\n"@,
        BoundEndsWith::Comma => ",\n"@,
    }
}

/// One line per bound, each ending in `,` and a newline.
pub open spec fn bound_lines(bs: Seq<Bound>) -> Seq<char>
    decreases bs.len(),
{
    if bs.len() == 0 {
        Seq::empty()
    } else {
        bound_lines(bs.drop_last()) + bound_text(bs.last()) + ends_text(BoundEndsWith::Comma)
    }
}

/// How a `where` clause is written: nothing without bounds, else a newline, `where`,
/// a newline and one line per bound.
pub open spec fn bounds_text(bs: Seq<Bound>) -> Seq<char> {
    if bs.len() == 0 {
        Seq::empty()
    } else {
        "\nwhere\n"@ + bound_lines(bs)
    }
}

/// The requirements on one named type.
#[derive(Debug)]
pub struct Bound {
    pub name: String,
    pub bounds: Vec<Type>,
}

/// How a bound line ends.
#[derive(Debug, Clone, Copy, PartialEq, Eq, Structural)]
pub enum BoundEndsWith {
    /// `;` and a newline, as for an associated type.
    SemiColon,
    /// `,` and a newline, as in a `where` clause.
    Comma,
}

impl Bound {
    /// A bound on `name` with no requirements.
    pub fn new(name: &str) -> (r: Self)
        ensures
            r.name@ == name@,
            r.bounds@.len() == 0,
    {
        Bound { name: owned(name), bounds: Vec::new() }
    }

    /// A bound on `name` requiring the named types, in order.
    pub fn new_with_bounds(name: &str, bounds: &[&str]) -> (r: Self)
        ensures
            r.name@ == name@,
            r.bounds@.len() == bounds@.len(),
            forall|i: int| 0 <= i < bounds@.len() ==> type_text(#[trigger] r.bounds@[i]) == bounds@[i]@,
    {
        let mut r = Self::new(name);
        r.extend_bounds(bounds);
        assert forall|i: int| 0 <= i < bounds@.len() implies type_text(#[trigger] r.bounds@[i]) == bounds@[i]@ by {
            assert(r.bounds@[i] == r.bounds@[0 + i]);
        }
        r
    }

    /// A bound on `name` requiring one type.
    pub fn new_with_bound(name: &str, bound: &str) -> (r: Self)
        ensures
            r.name@ == name@,
            r.bounds@.len() == 1,
            type_text(r.bounds@[0]) == bound@,
    {
        let mut r = Self::new(name);
        r.push_bound(bound);
        r
    }

    /// The bounded name.
    pub fn name(&self) -> (r: &str)
        ensures
            r@ == self.name@,
    {
        self.name.as_str()
    }

    /// The required types.
    pub fn bounds(&self) -> (r: &[Type])
        ensures
            r@ == self.bounds@,
    {
        self.bounds.as_slice()
    }

    /// The number of required types.
    pub fn bound_count(&self) -> (r: usize)
        ensures
            r == self.bounds@.len(),
    {
        self.bounds.len()
    }

    /// Whether any type is required.
    pub fn has_inner_bounds(&self) -> (r: bool)
        ensures
            r == (self.bounds@.len() > 0),
    {
        self.bounds.len() > 0
    }

    /// Removes every requirement.
    pub fn clear_bounds(&mut self) -> (r: &mut Self)
        ensures
            r.name == old(self).name,
            r.bounds@.len() == 0,
            *final(self) == *final(r),
    {
        self.bounds.clear();
        self
    }

    /// Adds a required type with the given name.
    pub fn push_bound(&mut self, bound: &str) -> (r: &mut Self)
        ensures
            r.name == old(self).name,
            r.bounds@.len() == old(self).bounds@.len() + 1,
            r.bounds@.drop_last() == old(self).bounds@,
            type_text(r.bounds@.last()) == bound@,
            *final(self) == *final(r),
    {
        self.bounds.push(Type::new(bound));
        assert(self.bounds@.drop_last() =~= old(self).bounds@);
        self
    }

    /// Adds required types with the given names, in order.
    pub fn extend_bounds(&mut self, bounds: &[&str]) -> (r: &mut Self)
        ensures
            r.name == old(self).name,
            r.bounds@.len() == old(self).bounds@.len() + bounds@.len(),
            r.bounds@.subrange(0, old(self).bounds@.len() as int) == old(self).bounds@,
            forall|i: int|
                0 <= i < bounds@.len() ==> type_text(#[trigger] r.bounds@[old(self).bounds@.len() + i])
                    == bounds@[i]@,
            *final(self) == *final(r),
    {
        let ghost n = old(self).bounds@.len();
        let mut i: usize = 0;
        while i < bounds.len()
            invariant
                0 <= i <= bounds@.len(),
                n == old(self).bounds@.len(),
                self.name == old(self).name,
                self.bounds@.len() == n + i,
                self.bounds@.subrange(0, n as int) == old(self).bounds@,
                forall|k: int| 0 <= k < i ==> type_text(#[trigger] self.bounds@[n + k]) == bounds@[k]@,
            decreases bounds.len() - i,
        {
            self.bounds.push(Type::new(bounds[i]));
            assert(self.bounds@.subrange(0, n as int) =~= old(self).bounds@);
            i = i + 1;
        }
        self
    }

    /// Writes the bound and its terminator.
    pub fn fmt_bound(&self, fmt: &mut Formatter, ends_with: BoundEndsWith)
        ensures
            final(fmt).indentation() == old(fmt).indentation(),
            final(fmt).text() == put(
                old(fmt).text(),
                old(fmt).indentation(),
                bound_text(*self) + ends_text(ends_with),
            ),
    {
        let ghost b0 = fmt.text();
        let ghost ind = fmt.indentation();
        fmt.write_str(self.name.as_str());
        if self.bounds.len() > 0 {
            fmt.write_str(": ");
            proof { lemma_put_concat(b0, ind, self.name@, ": "@); }
            let ghost head = self.name@ + ": "@;
            let mut i: usize = 0;
            while i < self.bounds.len()
                invariant
                    0 <= i <= self.bounds@.len(),
                    fmt.indentation() == ind,
                    fmt.text() == put(b0, ind, head + plus_text(self.bounds@.subrange(0, i as int))),
                decreases self.bounds.len() - i,
            {
                let ghost pre = self.bounds@.subrange(0, i as int);
                let ghost nxt = self.bounds@.subrange(0, i + 1);
                assert(nxt.drop_last() =~= pre);
                if i > 0 {
                    fmt.write_str(" + ");
                    proof { lemma_put_concat(b0, ind, head + plus_text(pre), " + "@); }
                }
                let ghost mid = if i > 0 { head + plus_text(pre) + " + "@ } else { head + plus_text(pre) };
                self.bounds[i].fmt(fmt);
                proof {
                    lemma_put_concat(b0, ind, mid, type_text(self.bounds@[i as int]));
                    if i == 0 {
                        assert(plus_text(pre) =~= Seq::<char>::empty());
                        assert(mid + type_text(self.bounds@[0]) =~= head + plus_text(nxt));
                    } else {
                        assert(mid + type_text(self.bounds@[i as int]) =~= head + plus_text(nxt));
                    }
                }
                i = i + 1;
            }
            assert(self.bounds@.subrange(0, self.bounds@.len() as int) =~= self.bounds@);
        }
        let ghost body = bound_text(*self);
        assert(fmt.text() == put(b0, ind, body)) by {
            if self.bounds@.len() > 0 {
                assert(self.name@ + ": "@ + plus_text(self.bounds@) =~= body);
            }
        }
        match ends_with {
            BoundEndsWith::SemiColon => {
                fmt.write_str(";\n");
            },
            BoundEndsWith::Comma => {
                fmt.write_str(",\n");
            },
        }
        proof { lemma_put_concat(b0, ind, body, ends_text(ends_with)); }
    }
}

/// The bounds of a `where` clause, in order.
#[derive(Debug)]
pub struct Bounds {
    pub bounds: Vec<Bound>,
}

impl Bounds {
    /// No bounds.
    pub fn new() -> (r: Self)
        ensures
            r.bounds@.len() == 0,
    {
        Bounds { bounds: Vec::new() }
    }

    /// One bound.
    pub fn new_with_bound(bound: Bound) -> (r: Self)
        ensures
            r.bounds@ == seq![bound],
    {
        let mut v = Vec::new();
        v.push(bound);
        assert(v@ =~= seq![bound]);
        Bounds { bounds: v }
    }

    /// The given bounds, in order.
    pub fn new_with_bounds(bounds: Vec<Bound>) -> (r: Self)
        ensures
            r.bounds@ == bounds@,
    {
        Bounds { bounds }
    }

    /// The number of bounds.
    pub fn bound_count(&self) -> (r: usize)
        ensures
            r == self.bounds@.len(),
    {
        self.bounds.len()
    }

    /// Whether there is any bound.
    pub fn has_bounds(&self) -> (r: bool)
        ensures
            r == (self.bounds@.len() > 0),
    {
        self.bounds.len() > 0
    }

    /// Removes every bound.
    pub fn clear_bounds(&mut self) -> (r: &mut Self)
        ensures
            r.bounds@.len() == 0,
            *final(self) == *final(r),
    {
        self.bounds.clear();
        self
    }

    /// Adds a bound at the end.
    pub fn push_bound(&mut self, bound: Bound) -> (r: &mut Self)
        ensures
            r.bounds@ == old(self).bounds@.push(bound),
            *final(self) == *final(r),
    {
        self.bounds.push(bound);
        self
    }

    /// Adds bounds at the end, in order.
    pub fn extend_bounds(&mut self, bounds: Vec<Bound>) -> (r: &mut Self)
        ensures
            r.bounds@ == old(self).bounds@ + bounds@,
            *final(self) == *final(r),
    {
        let mut bounds = bounds;
        self.bounds.append(&mut bounds);
        self
    }

    /// Writes the `where` clause, or nothing without bounds.
    pub fn fmt_bounds(&self, fmt: &mut Formatter)
        ensures
            final(fmt).indentation() == old(fmt).indentation(),
            final(fmt).text() == put(old(fmt).text(), old(fmt).indentation(), bounds_text(self.bounds@)),
    {
        if self.bounds.len() == 0 {
            return;
        }
        let ghost b0 = fmt.text();
        let ghost ind = fmt.indentation();
        fmt.write_str("\nwhere\n");
        let mut i: usize = 0;
        while i < self.bounds.len()
            invariant
                0 <= i <= self.bounds@.len(),
                fmt.indentation() == ind,
                fmt.text() == put(b0, ind, "\nwhere\n"@ + bound_lines(self.bounds@.subrange(0, i as int))),
            decreases self.bounds.len() - i,
        {
            let ghost pre = self.bounds@.subrange(0, i as int);
            assert(self.bounds@.subrange(0, i + 1).drop_last() =~= pre);
            self.bounds[i].fmt_bound(fmt, BoundEndsWith::Comma);
            proof {
                lemma_put_concat(
                    b0,
                    ind,
                    "\nwhere\n"@ + bound_lines(pre),
                    bound_text(self.bounds@[i as int]) + ends_text(BoundEndsWith::Comma),
                );
                assert("\nwhere\n"@ + bound_lines(pre) + (bound_text(self.bounds@[i as int]) + ends_text(
                    BoundEndsWith::Comma,
                )) =~= "\nwhere\n"@ + bound_lines(self.bounds@.subrange(0, i + 1)));
            }
            i = i + 1;
        }
        assert(self.bounds@.subrange(0, self.bounds@.len() as int) =~= self.bounds@);
    }
}

impl Default for Bounds {
    fn default() -> (r: Self)
        ensures
            r.bounds@.len() == 0,
    {
        Bounds::new()
    }
}

} // verus!
