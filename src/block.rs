use vstd::prelude::*;
use crate::formatter::{put, deeper, open_block, Formatter, lemma_put_concat};
use crate::text::owned;

verus! {

/// The buffer after writing one body entry at indentation `ind`: a line and a
/// newline, or a nested block.
pub open spec fn body_out(b: Body, buf: Seq<char>, ind: nat) -> Seq<char>
    decreases b,
{
    match b {
        Body::String(s) => put(buf, ind, s@ + "\n"@),
        Body::Block(bl) => block_out(bl, buf, ind),
    }
}

/// The buffer after writing the body entries one after another at indentation `ind`.
pub open spec fn bodies_out(bs: Seq<Body>, buf: Seq<char>, ind: nat) -> Seq<char>
    decreases bs,
{
    if bs.len() == 0 {
        buf
    } else {
        body_out(bs.last(), bodies_out(bs.drop_last(), buf, ind), ind)
    }
}

/// The text before the opening brace, if any.
pub open spec fn before_text(bl: Block) -> Seq<char> {
    match bl.before {
        Some(s) => s@,
        None => Seq::empty(),
    }
}

/// The text after the closing brace, if any.
pub open spec fn after_text(bl: Block) -> Seq<char> {
    match bl.after {
        Some(s) => s@,
        None => Seq::empty(),
    }
}

/// The buffer after writing the block at indentation `ind`: the text before it, an
/// opened block with the entries one level deeper, then `}`, the text after it and
/// a newline.
pub open spec fn block_out(bl: Block, buf: Seq<char>, ind: nat) -> Seq<char>
    decreases bl,
{
    let b = open_block(put(buf, ind, before_text(bl)), ind);
    put(bodies_out(bl.body@, b, deeper(ind)), ind, "}"@ + after_text(bl) + "\n"@)
}

/// One entry of a function or block body.
#[derive(Debug)]
pub enum Body {
    /// A line of code.
    String(String),
    /// A nested block.
    Block(Block),
}

/// The text of a line entry.
pub open spec fn line_of(b: Body) -> Option<Seq<char>> {
    match b {
        Body::String(s) => Some(s@),
        Body::Block(_) => None,
    }
}

/// A block of code: optional text before `{`, entries, optional text after `}`.
#[derive(Debug)]
pub struct Block {
    pub before: Option<String>,
    pub after: Option<String>,
    pub body: Vec<Body>,
}

impl Body {
    /// Writes the entry: a line and a newline, or a nested block.
    pub fn fmt(&self, fmt: &mut Formatter)
        ensures
            final(fmt).indentation() == old(fmt).indentation(),
            final(fmt).text() == body_out(*self, old(fmt).text(), old(fmt).indentation()),
        decreases self,
    {
        match self {
            Body::String(s) => {
                let ghost b0 = fmt.text();
                let ghost ind = fmt.indentation();
                fmt.write_str(s.as_str());
                fmt.write_str("\n");
                proof { lemma_put_concat(b0, ind, s@, "\n"@); }
            },
            Body::Block(b) => b.fmt(fmt),
        }
    }
}

impl Block {
    /// A block with the given text before its opening brace.
    pub fn new(before: &str) -> (r: Self)
        ensures
            r.before is Some && r.before.unwrap()@ == before@,
            r.after is None,
            r.body@.len() == 0,
    {
        Block { before: Some(owned(before)), after: None, body: Vec::new() }
    }

    /// Adds a line.
    pub fn line(&mut self, line: &str) -> (r: &mut Self)
        ensures
            r.body@.len() == old(self).body@.len() + 1,
            r.body@.drop_last() == old(self).body@,
            line_of(r.body@.last()) == Some(line@),
            r.before == old(self).before && r.after == old(self).after,
            *final(self) == *final(r),
    {
        self.body.push(Body::String(owned(line)));
        assert(self.body@.drop_last() =~= old(self).body@);
        self
    }

    /// Adds a nested block.
    pub fn push_block(&mut self, block: Block) -> (r: &mut Self)
        ensures
            r.body@ == old(self).body@.push(Body::Block(block)),
            r.before == old(self).before && r.after == old(self).after,
            *final(self) == *final(r),
    {
        self.body.push(Body::Block(block));
        self
    }

    /// Sets the text after the closing brace.
    pub fn after(&mut self, after: &str) -> (r: &mut Self)
        ensures
            r.after is Some && r.after.unwrap()@ == after@,
            r.before == old(self).before && r.body == old(self).body,
            *final(self) == *final(r),
    {
        self.after = Some(owned(after));
        self
    }

    /// Writes the block: text before, `{`, the entries one level deeper, `}`, text after.
    pub fn fmt(&self, fmt: &mut Formatter)
        ensures
            final(fmt).indentation() == old(fmt).indentation(),
            final(fmt).text() == block_out(*self, old(fmt).text(), old(fmt).indentation()),
        decreases self,
    {
        match &self.before {
            Some(s) => fmt.write_str(s.as_str()),
            None => {},
        }
        let saved = fmt.block();
        let ghost b1 = fmt.text();
        let ghost inner = fmt.indentation();
        let mut i: usize = 0;
        while i < self.body.len()
            invariant
                0 <= i <= self.body@.len(),
                fmt.indentation() == inner,
                fmt.text() == bodies_out(self.body@.subrange(0, i as int), b1, inner),
            decreases self.body.len() - i,
        {
            assert(self.body@.subrange(0, i + 1).drop_last() =~= self.body@.subrange(0, i as int));
            self.body[i].fmt(fmt);
            i = i + 1;
        }
        assert(self.body@.subrange(0, self.body@.len() as int) =~= self.body@);
        fmt.restore_indent(saved);
        let ghost b2 = fmt.text();
        fmt.write_str("}");
        match &self.after {
            Some(s) => {
                fmt.write_str(s.as_str());
                proof { lemma_put_concat(b2, saved as nat, "}"@, s@); }
            },
            None => {
                assert("}"@ + after_text(*self) =~= "}"@);
            },
        }
        fmt.write_str("\n");
        proof { lemma_put_concat(b2, saved as nat, "}"@ + after_text(*self), "\n"@); }
    }
}

} // verus!
