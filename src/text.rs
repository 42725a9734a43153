use vstd::prelude::*;
use crate::formatter::{chars_of, string_of};

verus! {

/// `new` is `old` with one more string, whose characters are `s`, at the end.
pub open spec fn pushed(new: Seq<String>, old: Seq<String>, s: Seq<char>) -> bool {
    &&& new.len() == old.len() + 1
    &&& new.drop_last() == old
    &&& new.last()@ == s
}

/// `new` is `old` followed by strings whose characters are those of `xs`, in order.
pub open spec fn extended(new: Seq<String>, old: Seq<String>, xs: Seq<&str>) -> bool {
    &&& new.len() == old.len() + xs.len()
    &&& new.subrange(0, old.len() as int) == old
    &&& forall|i: int| 0 <= i < xs.len() ==> #[trigger] new[old.len() + i]@ == xs[i]@
}

/// The characters of each string.
pub open spec fn views(v: Seq<String>) -> Seq<Seq<char>> {
    v.map_values(|s: String| s@)
}

/// The parts one after another.
pub open spec fn concat(parts: Seq<Seq<char>>) -> Seq<char>
    decreases parts.len(),
{
    if parts.len() == 0 {
        Seq::empty()
    } else {
        concat(parts.drop_last()) + parts.last()
    }
}

/// The parts with `sep` between each two neighbours.
pub open spec fn join(parts: Seq<Seq<char>>, sep: Seq<char>) -> Seq<char>
    decreases parts.len(),
{
    if parts.len() == 0 {
        Seq::empty()
    } else if parts.len() == 1 {
        parts[0]
    } else {
        join(parts.drop_last(), sep) + sep + parts.last()
    }
}

/// Whether `s` starts with the characters `p`.
pub open spec fn has_prefix(s: Seq<char>, p: Seq<char>) -> bool {
    p.len() <= s.len() && s.subrange(0, p.len() as int) == p
}

/// Whether `s` ends with the characters `p`.
pub open spec fn has_suffix(s: Seq<char>, p: Seq<char>) -> bool {
    p.len() <= s.len() && s.subrange(s.len() - p.len(), s.len() as int) == p
}

/// A `String` holding the characters of `s`.
pub fn owned(s: &str) -> (r: String)
    ensures
        r@ == s@,
{
    s.to_owned()
}

/// Whether `s` starts with the characters of `p`.
pub fn starts_with(s: &str, p: &str) -> (r: bool)
    ensures
        r == has_prefix(s@, p@),
{
    let a = chars_of(s);
    let b = chars_of(p);
    if b.len() > a.len() {
        return false;
    }
    let mut i: usize = 0;
    while i < b.len()
        invariant
            a@ == s@,
            b@ == p@,
            b@.len() <= a@.len(),
            0 <= i <= b.len(),
            a@.subrange(0, i as int) == b@.subrange(0, i as int),
        decreases b.len() - i,
    {
        if a[i] != b[i] {
            assert(a@.subrange(0, b@.len() as int)[i as int] != b@[i as int]);
            assert(a@.subrange(0, b@.len() as int) != b@);
            return false;
        }
        assert(a@.subrange(0, i + 1) =~= a@.subrange(0, i as int).push(a@[i as int]));
        assert(b@.subrange(0, i + 1) =~= b@.subrange(0, i as int).push(b@[i as int]));
        i = i + 1;
    }
    assert(b@.subrange(0, b@.len() as int) =~= b@);
    assert(a@.subrange(0, b@.len() as int) == b@);
    true
}

/// Whether `s` ends with the characters of `p`.
pub fn ends_with(s: &str, p: &str) -> (r: bool)
    ensures
        r == has_suffix(s@, p@),
{
    let a = chars_of(s);
    let b = chars_of(p);
    if b.len() > a.len() {
        return false;
    }
    let off = a.len() - b.len();
    let mut i: usize = 0;
    while i < b.len()
        invariant
            a@ == s@,
            b@ == p@,
            b@.len() <= a@.len(),
            off == a@.len() - b@.len(),
            a@.len() <= usize::MAX,
            0 <= i <= b.len(),
            a@.subrange(off as int, off + i) == b@.subrange(0, i as int),
        decreases b.len() - i,
    {
        let j: usize = off + i;
        if a[j] != b[i] {
            assert(a@.subrange(off as int, a@.len() as int)[i as int] != b@[i as int]);
            assert(a@.subrange(off as int, a@.len() as int) != b@);
            return false;
        }
        assert(a@.subrange(off as int, off + i + 1) =~= a@.subrange(off as int, off + i).push(a@[off + i]));
        assert(b@.subrange(0, i + 1) =~= b@.subrange(0, i as int).push(b@[i as int]));
        i = i + 1;
    }
    assert(b@.subrange(0, b@.len() as int) =~= b@);
    assert(a@.subrange(a@.len() - b@.len(), a@.len() as int) == b@);
    true
}

/// Appends to `v` a `String` for each of `xs`, in order.
pub fn extend_strings(v: &mut Vec<String>, xs: &[&str])
    ensures
        extended(final(v)@, old(v)@, xs@),
{
    let mut i: usize = 0;
    while i < xs.len()
        invariant
            0 <= i <= xs@.len(),
            v@.len() == old(v)@.len() + i,
            v@.subrange(0, old(v)@.len() as int) == old(v)@,
            forall|k: int| 0 <= k < i ==> #[trigger] v@[old(v)@.len() + k]@ == xs@[k]@,
        decreases xs.len() - i,
    {
        v.push(owned(xs[i]));
        assert(v@.subrange(0, old(v)@.len() as int) =~= old(v)@);
        i = i + 1;
    }
}

/// The characters of `s` joined to a `String`.
pub fn string_from_chars(s: &Vec<char>) -> (r: String)
    ensures
        r@ == s@,
{
    string_of(s)
}

} // verus!
