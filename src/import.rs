use vstd::prelude::*;
use crate::formatter::chars_of;
use crate::text::string_from_chars;
use crate::vis::Vis;

verus! {

/// One `use` of a path and a name.
#[derive(Debug)]
pub struct Import {
    pub line: String,
    pub vis: Vis,
}

impl Import {
    /// A private import of `ty` from `path`; its line is `path::ty`.
    pub fn new(path: &str, ty: &str) -> (r: Self)
        ensures
            r.line@ == path@ + "::"@ + ty@,
            r.vis == Vis::Private,
    {
        let mut v = chars_of(path);
        let sep = chars_of("::");
        let t = chars_of(ty);
        let ghost p = v@;
        let mut i: usize = 0;
        while i < sep.len()
            invariant
                0 <= i <= sep@.len(),
                sep@ == "::"@,
                v@ == p + sep@.subrange(0, i as int),
            decreases sep.len() - i,
        {
            v.push(sep[i]);
            assert(v@ =~= p + sep@.subrange(0, i + 1));
            i = i + 1;
        }
        assert(sep@.subrange(0, sep@.len() as int) =~= sep@);
        let ghost q = v@;
        let mut j: usize = 0;
        while j < t.len()
            invariant
                0 <= j <= t@.len(),
                v@ == q + t@.subrange(0, j as int),
            decreases t.len() - j,
        {
            v.push(t[j]);
            assert(v@ =~= q + t@.subrange(0, j + 1));
            j = j + 1;
        }
        assert(t@.subrange(0, t@.len() as int) =~= t@);
        Import { line: string_from_chars(&v), vis: Vis::Private }
    }

    /// Sets the visibility.
    pub fn set_vis(&mut self, vis: Vis) -> (r: &mut Self)
        ensures
            r.vis == vis,
            r.line == old(self).line,
            *final(self) == *final(r),
    {
        self.vis = vis;
        self
    }

    /// The visibility.
    pub fn get_vis(&self) -> (r: Vis)
        ensures
            r == self.vis,
    {
        self.vis
    }

    /// Whether the import is private.
    pub fn is_private(&self) -> (r: bool)
        ensures
            r == (self.vis == Vis::Private),
    {
        self.vis == Vis::Private
    }
}

} // verus!
