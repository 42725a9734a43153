use vstd::prelude::*;
use crate::formatter::{put, Formatter, lemma_put_concat};
use crate::text::{views, string_from_chars};
use crate::formatter::chars_of;

verus! {

/// The pieces of `s` between newlines: one more piece than `s` has newlines.
pub open spec fn split_nl(s: Seq<char>) -> Seq<Seq<char>>
    decreases s.len(),
{
    if s.len() == 0 {
        seq![Seq::empty()]
    } else {
        let p = split_nl(s.drop_last());
        if s.last() == '\n' {
            p.push(Seq::empty())
        } else {
            p.update(p.len() - 1, p.last().push(s.last()))
        }
    }
}

/// A line that ended in `\r\n` loses its `\r`.
pub open spec fn strip_cr(l: Seq<char>) -> Seq<char> {
    if l.len() > 0 && l.last() == '\r' {
        l.drop_last()
    } else {
        l
    }
}

/// The lines of `s`: split at each `\n`, a `\r` before the `\n` dropped, and the text
/// after the last `\n` kept only when it is not empty.
pub open spec fn text_lines(s: Seq<char>) -> Seq<Seq<char>> {
    let p = split_nl(s);
    let body = p.drop_last().map_values(|l: Seq<char>| strip_cr(l));
    if p.last().len() == 0 {
        body
    } else {
        body.push(p.last())
    }
}

/// How the documentation lines are written: `/// ` before each, a newline after.
pub open spec fn docs_text(lines: Seq<String>) -> Seq<char>
    decreases lines.len(),
{
    if lines.len() == 0 {
        Seq::empty()
    } else {
        docs_text(lines.drop_last()) + "/// "@ + lines.last()@ + "\n"@
    }
}

proof fn lemma_split_nl_len(s: Seq<char>)
    ensures
        split_nl(s).len() >= 1,
    decreases s.len(),
{
    if s.len() > 0 {
        lemma_split_nl_len(s.drop_last());
    }
}

/// Splits `s` into its lines.
pub fn lines_of(s: &str) -> (r: Vec<String>)
    ensures
        views(r@) == text_lines(s@),
{
    let cs = chars_of(s);
    let mut done: Vec<String> = Vec::new();
    let mut cur: Vec<char> = Vec::new();
    let mut i: usize = 0;
    proof {
        assert(cs@.subrange(0, 0) =~= Seq::<char>::empty());
    }
    while i < cs.len()
        invariant
            cs@ == s@,
            0 <= i <= cs@.len(),
            split_nl(cs@.subrange(0, i as int)).len() >= 1,
            views(done@) == split_nl(cs@.subrange(0, i as int)).drop_last().map_values(
                |l: Seq<char>| strip_cr(l),
            ),
            cur@ == split_nl(cs@.subrange(0, i as int)).last(),
        decreases cs.len() - i,
    {
        let ghost pre = cs@.subrange(0, i as int);
        let ghost next = cs@.subrange(0, i + 1);
        proof {
            assert(next.drop_last() =~= pre);
            assert(next.last() == cs@[i as int]);
            lemma_split_nl_len(next);
        }
        let c = cs[i];
        if c == '\n' {
            let ghost old_cur = cur@;
            let ghost old_done = done@;
            let n = cur.len();
            if n > 0 && cur[n - 1] == '\r' {
                cur.pop();
                assert(cur@ =~= old_cur.drop_last());
            }
            assert(cur@ == strip_cr(old_cur));
            let line = string_from_chars(&cur);
            done.push(line);
            assert(views(done@) =~= views(old_done).push(strip_cr(old_cur)));
            cur = Vec::new();
            proof {
                let p = split_nl(pre);
                assert(split_nl(next) == p.push(Seq::<char>::empty()));
                assert(split_nl(next).drop_last() =~= p);
                assert(p =~= p.drop_last().push(p.last()));
                assert(views(done@) =~= p.map_values(|l: Seq<char>| strip_cr(l)));
            }
        } else {
            cur.push(c);
            proof {
                let p = split_nl(pre);
                assert(split_nl(next) == p.update(p.len() - 1, p.last().push(c)));
                assert(split_nl(next).drop_last() =~= p.drop_last());
            }
        }
        i = i + 1;
    }
    proof {
        assert(cs@.subrange(0, cs@.len() as int) =~= cs@);
    }
    if cur.len() > 0 {
        let line = string_from_chars(&cur);
        done.push(line);
        proof {
            assert(views(done@) =~= views(done@).drop_last().push(cur@));
        }
    }
    done
}

/// An ordered list of documentation lines.
#[derive(Debug, Clone, PartialEq, Eq)]
pub struct Docs {
    pub lines: Vec<String>,
}

impl Docs {
    /// Creates an empty list.
    pub fn empty() -> (r: Self)
        ensures
            r.lines@.len() == 0,
    {
        Docs { lines: Vec::new() }
    }

    /// Creates a list holding the lines of `doc`.
    pub fn new(doc: &str) -> (r: Self)
        ensures
            views(r.lines@) == text_lines(doc@),
    {
        let mut r = Self::empty();
        r.push_doc(doc);
        r
    }

    /// Removes every line.
    pub fn clear_docs(&mut self) -> (r: &mut Self)
        ensures
            r.lines@.len() == 0,
            *final(self) == *final(r),
    {
        self.lines.clear();
        self
    }

    /// The number of lines.
    pub fn doc_line_count(&self) -> (r: usize)
        ensures
            r == self.lines@.len(),
    {
        self.lines.len()
    }

    /// Whether there are no lines.
    pub fn is_docs_empty(&self) -> (r: bool)
        ensures
            r == (self.lines@.len() == 0),
    {
        self.lines.len() == 0
    }

    /// Adds the lines of `doc` at the end.
    pub fn push_doc(&mut self, doc: &str) -> (r: &mut Self)
        ensures
            views(r.lines@) == views(old(self).lines@) + text_lines(doc@),
            *final(self) == *final(r),
    {
        let mut new_lines = lines_of(doc);
        let ghost added = new_lines@;
        let ghost before = self.lines@;
        self.lines.append(&mut new_lines);
        assert(views(self.lines@) =~= views(before) + views(added));
        self
    }

    /// Adds the lines of each of `docs` at the end, in order.
    pub fn push_docs(&mut self, docs: &[&str]) -> (r: &mut Self)
        ensures
            views(r.lines@) == views(old(self).lines@) + docs@.fold_left(
                Seq::<Seq<char>>::empty(),
                |acc: Seq<Seq<char>>, d: &str| acc + text_lines(d@),
            ),
            *final(self) == *final(r),
    {
        let mut i: usize = 0;
        while i < docs.len()
            invariant
                0 <= i <= docs@.len(),
                views(self.lines@) == views(old(self).lines@) + docs@.subrange(0, i as int).fold_left(
                    Seq::<Seq<char>>::empty(),
                    |acc: Seq<Seq<char>>, d: &str| acc + text_lines(d@),
                ),
            decreases docs.len() - i,
        {
            proof {
                let f = |acc: Seq<Seq<char>>, d: &str| acc + text_lines(d@);
                assert(docs@.subrange(0, i + 1).drop_last() =~= docs@.subrange(0, i as int));
                assert(docs@.subrange(0, i + 1).last() == docs@[i as int]);
            }
            self.push_doc(docs[i]);
            proof {
                let f = |acc: Seq<Seq<char>>, d: &str| acc + text_lines(d@);
                let e = Seq::<Seq<char>>::empty();
                assert(docs@.subrange(0, i + 1).fold_left(e, f) == f(docs@.subrange(0, i as int).fold_left(e, f), docs@[i as int]));
            }
            i = i + 1;
        }
        assert(docs@.subrange(0, docs@.len() as int) =~= docs@);
        self
    }

    /// Replaces the lines with those of `doc`.
    pub fn set_doc(&mut self, doc: &str) -> (r: &mut Self)
        ensures
            views(r.lines@) == text_lines(doc@),
            *final(self) == *final(r),
    {
        self.lines.clear();
        let ghost e = self.lines@;
        self.push_doc(doc);
        assert(views(e) =~= Seq::<Seq<char>>::empty());
        self
    }

    /// Writes one `/// ` line per documentation line.
    pub fn fmt_docs(&self, fmt: &mut Formatter)
        ensures
            final(fmt).indentation() == old(fmt).indentation(),
            final(fmt).text() == put(old(fmt).text(), old(fmt).indentation(), docs_text(self.lines@)),
    {
        let ghost b0 = fmt.text();
        let ghost ind = fmt.indentation();
        let mut i: usize = 0;
        while i < self.lines.len()
            invariant
                0 <= i <= self.lines@.len(),
                fmt.indentation() == ind,
                fmt.text() == put(b0, ind, docs_text(self.lines@.subrange(0, i as int))),
            decreases self.lines.len() - i,
        {
            let ghost sofar = docs_text(self.lines@.subrange(0, i as int));
            let l = self.lines[i].as_str();
            fmt.write_str("/// ");
            fmt.write_str(l);
            fmt.write_str("\n");
            proof {
                lemma_put_concat(b0, ind, sofar, "/// "@);
                lemma_put_concat(b0, ind, sofar + "/// "@, l@);
                lemma_put_concat(b0, ind, sofar + "/// "@ + l@, "\n"@);
                assert(self.lines@.subrange(0, i + 1).drop_last() =~= self.lines@.subrange(0, i as int));
            }
            i = i + 1;
        }
        assert(self.lines@.subrange(0, self.lines@.len() as int) =~= self.lines@);
    }
}

impl Default for Docs {
    fn default() -> (r: Self)
        ensures
            r.lines@.len() == 0,
    {
        Docs::empty()
    }
}

} // verus!
