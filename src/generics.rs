use vstd::prelude::*;
use crate::formatter::{put, Formatter, lemma_put_concat};
use crate::text::{join, views, pushed, extended, owned, extend_strings};
use crate::type_def::Type;

verus! {

/// How a type is written: its name, then its generic arguments.
pub open spec fn type_text(t: Type) -> Seq<char>
    decreases t,
{
    t.name@ + generics_text(t.generics)
}

/// The types written one after another, separated by `, `.
pub open spec fn types_text(ts: Seq<Type>) -> Seq<char>
    decreases ts,
{
    if ts.len() == 0 {
        Seq::empty()
    } else if ts.len() == 1 {
        type_text(ts[0])
    } else {
        types_text(ts.drop_last()) + ", "@ + type_text(ts.last())
    }
}

/// How a generic list is written: nothing when empty, else lifetimes then types,
/// separated by `, `, between `<` and `>`.
pub open spec fn generics_text(g: Generics) -> Seq<char>
    decreases g,
{
    if g.lifetimes@.len() == 0 && g.generics@.len() == 0 {
        Seq::empty()
    } else {
        "<"@ + join(views(g.lifetimes@), ", "@) + (if g.lifetimes@.len() > 0 && g.generics@.len() > 0 {
            ", "@
        } else {
            Seq::empty()
        }) + types_text(g.generics@) + ">"@
    }
}

/// Lifetime and type parameters of a type.
#[derive(Debug)]
pub struct Generics {
    pub lifetimes: Vec<String>,
    pub generics: Vec<Type>,
}

impl Generics {
    /// An empty parameter list.
    pub fn new() -> (r: Self)
        ensures
            r.lifetimes@.len() == 0,
            r.generics@.len() == 0,
            generics_text(r) == Seq::<char>::empty(),
    {
        Generics { lifetimes: Vec::new(), generics: Vec::new() }
    }

    /// Adds a lifetime at the end.
    pub fn push_lifetime(&mut self, lifetime: &str) -> (r: &mut Self)
        ensures
            pushed(r.lifetimes@, old(self).lifetimes@, lifetime@),
            r.generics == old(self).generics,
            *final(self) == *final(r),
    {
        self.lifetimes.push(owned(lifetime));
        assert(self.lifetimes@.drop_last() =~= old(self).lifetimes@);
        self
    }

    /// Adds lifetimes at the end, in order.
    pub fn extend_lifetimes(&mut self, lifetimes: &[&str]) -> (r: &mut Self)
        ensures
            extended(r.lifetimes@, old(self).lifetimes@, lifetimes@),
            r.generics == old(self).generics,
            *final(self) == *final(r),
    {
        extend_strings(&mut self.lifetimes, lifetimes);
        self
    }

    /// Removes every lifetime.
    pub fn clear_lifetimes(&mut self) -> (r: &mut Self)
        ensures
            r.lifetimes@.len() == 0,
            r.generics == old(self).generics,
            *final(self) == *final(r),
    {
        self.lifetimes.clear();
        self
    }

    /// Adds a type parameter with the given name at the end.
    pub fn push_generic(&mut self, generic: &str) -> (r: &mut Self)
        ensures
            r.generics@.len() == old(self).generics@.len() + 1,
            r.generics@.drop_last() == old(self).generics@,
            type_text(r.generics@.last()) == generic@,
            r.lifetimes == old(self).lifetimes,
            *final(self) == *final(r),
    {
        let t = Type::new(generic);
        self.generics.push(t);
        assert(self.generics@.drop_last() =~= old(self).generics@);
        self
    }

    /// Adds type parameters with the given names at the end, in order.
    pub fn extend_generics(&mut self, generics: &[&str]) -> (r: &mut Self)
        ensures
            r.generics@.len() == old(self).generics@.len() + generics@.len(),
            r.generics@.subrange(0, old(self).generics@.len() as int) == old(self).generics@,
            forall|i: int|
                0 <= i < generics@.len() ==> type_text(#[trigger] r.generics@[old(self).generics@.len() + i])
                    == generics@[i]@,
            r.lifetimes == old(self).lifetimes,
            *final(self) == *final(r),
    {
        let ghost n = old(self).generics@.len();
        let mut i: usize = 0;
        while i < generics.len()
            invariant
                0 <= i <= generics@.len(),
                n == old(self).generics@.len(),
                self.lifetimes == old(self).lifetimes,
                self.generics@.len() == n + i,
                self.generics@.subrange(0, n as int) == old(self).generics@,
                forall|k: int| 0 <= k < i ==> type_text(#[trigger] self.generics@[n + k]) == generics@[k]@,
            decreases generics.len() - i,
        {
            let t = Type::new(generics[i]);
            self.generics.push(t);
            assert(self.generics@.subrange(0, n as int) =~= old(self).generics@);
            i = i + 1;
        }
        self
    }

    /// Removes every type parameter.
    pub fn clear_generics(&mut self) -> (r: &mut Self)
        ensures
            r.generics@.len() == 0,
            r.lifetimes == old(self).lifetimes,
            *final(self) == *final(r),
    {
        self.generics.clear();
        self
    }

    /// A copy that is written the same way.
    pub fn duplicate(&self) -> (r: Self)
        ensures
            generics_text(r) == generics_text(*self),
            views(r.lifetimes@) == views(self.lifetimes@),
            r.generics@.len() == self.generics@.len(),
        decreases self,
    {
        let mut lifetimes: Vec<String> = Vec::new();
        let mut i: usize = 0;
        while i < self.lifetimes.len()
            invariant
                0 <= i <= self.lifetimes@.len(),
                lifetimes@ == self.lifetimes@.subrange(0, i as int),
            decreases self.lifetimes.len() - i,
        {
            lifetimes.push(self.lifetimes[i].clone());
            assert(lifetimes@ =~= self.lifetimes@.subrange(0, i + 1));
            i = i + 1;
        }
        assert(lifetimes@ =~= self.lifetimes@);
        let mut generics: Vec<Type> = Vec::new();
        let mut j: usize = 0;
        while j < self.generics.len()
            invariant
                0 <= j <= self.generics@.len(),
                generics@.len() == j,
                types_text(generics@) == types_text(self.generics@.subrange(0, j as int)),
            decreases self.generics.len() - j,
        {
            let t = self.generics[j].duplicate();
            let ghost before = generics@;
            generics.push(t);
            proof {
                let pre = self.generics@.subrange(0, j as int);
                let nxt = self.generics@.subrange(0, j + 1);
                assert(nxt.drop_last() =~= pre);
                assert(generics@.drop_last() =~= before);
                assert(types_text(nxt) == if nxt.len() == 1 { type_text(nxt[0]) } else {
                    types_text(pre) + ", "@ + type_text(nxt.last())
                });
            }
            j = j + 1;
        }
        assert(self.generics@.subrange(0, self.generics@.len() as int) =~= self.generics@);
        Generics { lifetimes, generics }
    }

    /// Writes the list between `<` and `>`, or nothing when it is empty.
    #[verifier::rlimit(40)]
    pub fn fmt_generics(&self, fmt: &mut Formatter)
        ensures
            final(fmt).indentation() == old(fmt).indentation(),
            final(fmt).text() == put(old(fmt).text(), old(fmt).indentation(), generics_text(*self)),
        decreases self,
    {
        let ghost b0 = fmt.text();
        let ghost ind = fmt.indentation();
        if self.lifetimes.len() == 0 && self.generics.len() == 0 {
            return;
        }
        fmt.write_str("<");
        let mut i: usize = 0;
        while i < self.lifetimes.len()
            invariant
                0 <= i <= self.lifetimes@.len(),
                fmt.indentation() == ind,
                fmt.text() == put(b0, ind, "<"@ + join(views(self.lifetimes@.subrange(0, i as int)), ", "@)),
            decreases self.lifetimes.len() - i,
        {
            let ghost sofar = "<"@ + join(views(self.lifetimes@.subrange(0, i as int)), ", "@);
            let ghost lts = views(self.lifetimes@.subrange(0, i + 1));
            assert(lts.drop_last() =~= views(self.lifetimes@.subrange(0, i as int)));
            if i > 0 {
                fmt.write_str(", ");
                proof { lemma_put_concat(b0, ind, sofar, ", "@); }
            }
            let ghost mid = if i > 0 { sofar + ", "@ } else { sofar };
            fmt.write_str(self.lifetimes[i].as_str());
            proof {
                lemma_put_concat(b0, ind, mid, self.lifetimes@[i as int]@);
                if i == 0 {
                    assert(join(views(self.lifetimes@.subrange(0, i as int)), ", "@) =~= Seq::<char>::empty());
                    assert(lts.len() == 1);
                    assert(sofar + self.lifetimes@[0]@ =~= "<"@ + join(lts, ", "@));
                } else {
                    assert(mid + self.lifetimes@[i as int]@ =~= "<"@ + join(lts, ", "@));
                }
            }
            i = i + 1;
        }
        assert(self.lifetimes@.subrange(0, self.lifetimes@.len() as int) =~= self.lifetimes@);
        let ghost lt_part = "<"@ + join(views(self.lifetimes@), ", "@);
        if self.lifetimes.len() > 0 && self.generics.len() > 0 {
            fmt.write_str(", ");
            proof { lemma_put_concat(b0, ind, lt_part, ", "@); }
        }
        let ghost head = lt_part + (if self.lifetimes@.len() > 0 && self.generics@.len() > 0 {
            ", "@
        } else {
            Seq::<char>::empty()
        });
        assert(fmt.text() == put(b0, ind, head)) by {
            if !(self.lifetimes@.len() > 0 && self.generics@.len() > 0) {
                assert(head =~= lt_part);
            }
        }
        let mut j: usize = 0;
        while j < self.generics.len()
            invariant
                0 <= j <= self.generics@.len(),
                fmt.indentation() == ind,
                fmt.text() == put(b0, ind, head + types_text(self.generics@.subrange(0, j as int))),
            decreases self.generics.len() - j,
        {
            let ghost pre = self.generics@.subrange(0, j as int);
            let ghost nxt = self.generics@.subrange(0, j + 1);
            assert(nxt.drop_last() =~= pre);
            if j > 0 {
                fmt.write_str(", ");
                proof { lemma_put_concat(b0, ind, head + types_text(pre), ", "@); }
            }
            let ghost mid = if j > 0 { head + types_text(pre) + ", "@ } else { head + types_text(pre) };
            self.generics[j].fmt(fmt);
            proof {
                lemma_put_concat(b0, ind, mid, type_text(self.generics@[j as int]));
                if j == 0 {
                    assert(types_text(pre) =~= Seq::<char>::empty());
                    assert(mid + type_text(self.generics@[0]) =~= head + types_text(nxt));
                } else {
                    assert(mid + type_text(self.generics@[j as int]) =~= head + types_text(nxt));
                }
            }
            j = j + 1;
        }
        assert(self.generics@.subrange(0, self.generics@.len() as int) =~= self.generics@);
        fmt.write_str(">");
        proof {
            lemma_put_concat(b0, ind, head + types_text(self.generics@), ">"@);
            assert(head + types_text(self.generics@) + ">"@ =~= generics_text(*self));
        }
    }
}

impl Default for Generics {
    fn default() -> (r: Self)
        ensures
            r.lifetimes@.len() == 0 && r.generics@.len() == 0,
    {
        Generics::new()
    }
}

} // verus!
