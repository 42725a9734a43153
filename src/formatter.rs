use vstd::prelude::*;
use vstd::std_specs::iter::IteratorSpec;

verus! {

/// Number of spaces that one level of indentation adds.
pub const INDENT_STEP: usize = 4;

/// True where the next character written starts a new line.
pub open spec fn at_line_start(buf: Seq<char>) -> bool {
    buf.len() == 0 || buf.last() == '\n'
}

/// `n` space characters.
pub open spec fn spaces(n: nat) -> Seq<char> {
    Seq::new(n, |i: int| ' ')
}

/// The indentation inside one more level, saturating at the largest `usize`.
pub open spec fn deeper(ind: nat) -> nat {
    if ind + INDENT_STEP <= usize::MAX {
        (ind + INDENT_STEP) as nat
    } else {
        usize::MAX as nat
    }
}

/// Appends one character: a line that starts gets `ind` spaces before its first character.
pub open spec fn put_char(buf: Seq<char>, ind: nat, c: char) -> Seq<char> {
    if c == '\n' {
        buf.push('\n')
    } else if at_line_start(buf) {
        (buf + spaces(ind)).push(c)
    } else {
        buf.push(c)
    }
}

/// The buffer after writing `s` at indentation `ind`.
pub open spec fn put(buf: Seq<char>, ind: nat, s: Seq<char>) -> Seq<char>
    decreases s.len(),
{
    if s.len() == 0 {
        buf
    } else {
        put_char(put(buf, ind, s.drop_last()), ind, s.last())
    }
}

/// The buffer after opening a block: a space unless at the start of a line, then `{` and a newline.
pub open spec fn open_block(buf: Seq<char>, ind: nat) -> Seq<char> {
    let b = if at_line_start(buf) {
        buf
    } else {
        put(buf, ind, seq![' '])
    };
    put(b, ind, seq!['{', '\n'])
}

/// The buffer after closing a block opened at indentation `ind`.
pub open spec fn close_block(buf: Seq<char>, ind: nat) -> Seq<char> {
    put(buf, ind, seq!['}', '\n'])
}

/// The text without its final newline, if it ends in one.
pub open spec fn strip_newline(buf: Seq<char>) -> Seq<char> {
    if buf.len() > 0 && buf.last() == '\n' {
        buf.drop_last()
    } else {
        buf
    }
}

/// Writing one character more extends the output by that character's step.
pub proof fn lemma_put_push(buf: Seq<char>, ind: nat, s: Seq<char>, c: char)
    ensures
        put(buf, ind, s.push(c)) == put_char(put(buf, ind, s), ind, c),
{
    assert(s.push(c).drop_last() =~= s);
}

/// Splitting one write into two at any point never changes the output.
pub proof fn lemma_put_concat(buf: Seq<char>, ind: nat, a: Seq<char>, b: Seq<char>)
    ensures
        put(put(buf, ind, a), ind, b) == put(buf, ind, a + b),
    decreases b.len(),
{
    if b.len() == 0 {
        assert(a + b =~= a);
    } else {
        lemma_put_concat(buf, ind, a, b.drop_last());
        assert((a + b).drop_last() =~= a + b.drop_last());
        assert((a + b).last() == b.last());
    }
}

/// Writing text with no newline appends it, after the indentation if a line starts.
pub proof fn lemma_put_line(buf: Seq<char>, ind: nat, s: Seq<char>)
    requires
        s.len() > 0,
        !s.contains('\n'),
    ensures
        put(buf, ind, s) == if at_line_start(buf) {
            buf + spaces(ind) + s
        } else {
            buf + s
        },
    decreases s.len(),
{
    if s.len() == 1 {
        assert(s.drop_last() =~= Seq::<char>::empty());
        assert(put(buf, ind, s.drop_last()) == buf);
        assert(s[0] != '\n');
        assert(s =~= seq![s[0]]);
        assert((buf + spaces(ind)).push(s[0]) =~= buf + spaces(ind) + s);
        assert(buf.push(s[0]) =~= buf + s);
    } else {
        let p = s.drop_last();
        assert(!p.contains('\n')) by {
            if p.contains('\n') {
                let k = choose|k: int| 0 <= k < p.len() && p[k] == '\n';
                assert(s[k] == '\n');
            }
        }
        lemma_put_line(buf, ind, p);
        assert(s.last() == s[s.len() - 1]);
        assert(s.last() != '\n');
        assert(p.last() == s[s.len() - 2]);
        assert(p.last() != '\n');
        if at_line_start(buf) {
            assert((buf + spaces(ind) + p).last() == p.last());
            assert((buf + spaces(ind) + p).push(s.last()) =~= buf + spaces(ind) + s);
        } else {
            assert((buf + p).last() == p.last());
            assert((buf + p).push(s.last()) =~= buf + s);
        }
    }
}

/// At indentation zero, writing appends the text unchanged.
pub proof fn lemma_put_zero(buf: Seq<char>, s: Seq<char>)
    ensures
        put(buf, 0, s) == buf + s,
    decreases s.len(),
{
    if s.len() == 0 {
        assert(buf + s =~= buf);
    } else {
        lemma_put_zero(buf, s.drop_last());
        assert(spaces(0) =~= Seq::<char>::empty());
        assert(buf + spaces(0) =~= buf);
        assert((buf + s.drop_last()).push(s.last()) =~= buf + s);
    }
}

/// Writing a line without inner newlines, then a newline: the line is indented if
/// it starts a line, and the newline follows it.
pub proof fn lemma_put_line_nl(buf: Seq<char>, ind: nat, p: Seq<char>)
    requires
        p.len() > 0,
        !p.contains('\n'),
    ensures
        put(buf, ind, p.push('\n')) == if at_line_start(buf) {
            buf + spaces(ind) + p + seq!['\n']
        } else {
            buf + p + seq!['\n']
        },
{
    lemma_put_push(buf, ind, p, '\n');
    lemma_put_line(buf, ind, p);
    if at_line_start(buf) {
        assert((buf + spaces(ind) + p).push('\n') =~= buf + spaces(ind) + p + seq!['\n']);
    } else {
        assert((buf + p).push('\n') =~= buf + p + seq!['\n']);
    }
}

/// The characters of a `str`, in order.
pub(crate) fn chars_of(s: &str) -> (r: Vec<char>)
    ensures
        r@ == s@,
{
    broadcast use vstd::string::group_string_axioms;

    let mut it = s.chars();
    let mut v: Vec<char> = Vec::new();
    loop
        invariant
            it.obeys_prophetic_iter_laws(),
            v@ + it.remaining() == s@,
            it.decrease() is Some,
        ensures
            v@ == s@,
        decreases it.decrease()->0,
    {
        let ghost before = it.remaining();
        match it.next() {
            Some(c) => {
                v.push(c);
                assert(v@ + it.remaining() =~= s@) by {
                    assert(before =~= seq![c] + it.remaining());
                }
            },
            None => {
                assert(v@ =~= s@);
                break;
            },
        }
    }
    v
}

/// Relies on `String::push`: the string gains the character at its end.
#[verifier::external_body]
fn push_char(s: &mut String, c: char)
    ensures
        final(s)@ == old(s)@.push(c),
{
    s.push(c);
}

/// A `String` holding the given characters.
pub(crate) fn string_of(v: &Vec<char>) -> (r: String)
    ensures
        r@ == v@,
{
    let mut s = String::new();
    let mut i: usize = 0;
    while i < v.len()
        invariant
            0 <= i <= v@.len(),
            s@ == v@.subrange(0, i as int),
        decreases v.len() - i,
    {
        push_char(&mut s, v[i]);
        assert(s@ =~= v@.subrange(0, i + 1));
        i = i + 1;
    }
    assert(v@.subrange(0, v@.len() as int) =~= v@);
    s
}

/// An indentation-aware text sink: every renderer appends its text here.
pub struct Formatter {
    dst: Vec<char>,
    spaces: usize,
}

impl Formatter {
    /// The text written so far.
    pub closed spec fn text(&self) -> Seq<char> {
        self.dst@
    }

    /// The current indentation, in spaces.
    pub closed spec fn indentation(&self) -> nat {
        self.spaces as nat
    }

    /// Returns an empty sink at indentation zero.
    pub fn new() -> (r: Formatter)
        ensures
            r.text() == Seq::<char>::empty(),
            r.indentation() == 0,
    {
        Formatter { dst: Vec::new(), spaces: 0 }
    }

    /// Whether the next character written starts a new line.
    pub fn is_start_of_line(&self) -> (r: bool)
        ensures
            r == at_line_start(self.text()),
    {
        self.dst.len() == 0 || self.dst[self.dst.len() - 1] == '\n'
    }

    /// Appends one character, indenting it if it starts a line.
    pub fn write_char(&mut self, c: char)
        ensures
            final(self).text() == put_char(old(self).text(), old(self).indentation(), c),
            final(self).indentation() == old(self).indentation(),
    {
        if c != '\n' && self.is_start_of_line() {
            let ghost before = self.dst@;
            let mut i: usize = 0;
            while i < self.spaces
                invariant
                    0 <= i <= self.spaces,
                    self.spaces == old(self).spaces,
                    before == old(self).dst@,
                    self.dst@ == before + spaces(i as nat),
                decreases self.spaces - i,
            {
                self.dst.push(' ');
                i = i + 1;
                assert(self.dst@ =~= before + spaces(i as nat));
            }
        }
        self.dst.push(c);
    }

    /// Appends a sequence of characters.
    pub fn write_chars(&mut self, s: &Vec<char>)
        ensures
            final(self).text() == put(old(self).text(), old(self).indentation(), s@),
            final(self).indentation() == old(self).indentation(),
    {
        let mut i: usize = 0;
        while i < s.len()
            invariant
                0 <= i <= s.len(),
                self.indentation() == old(self).indentation(),
                self.text() == put(old(self).text(), old(self).indentation(), s@.subrange(0, i as int)),
            decreases s.len() - i,
        {
            proof {
                lemma_put_push(old(self).text(), old(self).indentation(), s@.subrange(0, i as int), s@[i as int]);
                assert(s@.subrange(0, i as int).push(s@[i as int]) =~= s@.subrange(0, i + 1));
            }
            self.write_char(s[i]);
            i = i + 1;
        }
        assert(s@.subrange(0, s.len() as int) =~= s@);
    }

    /// Appends `s`, splitting it into lines: each line that starts is indented before
    /// its first character, and empty lines stay empty.
    pub fn write_str(&mut self, s: &str)
        ensures
            final(self).text() == put(old(self).text(), old(self).indentation(), s@),
            final(self).indentation() == old(self).indentation(),
    {
        let cs = chars_of(s);
        self.write_chars(&cs);
    }

    /// Enters one more level of indentation and returns the level to restore afterwards.
    pub fn indent(&mut self) -> (saved: usize)
        ensures
            saved == old(self).indentation(),
            final(self).indentation() == deeper(old(self).indentation()),
            final(self).text() == old(self).text(),
    {
        let saved = self.spaces;
        if self.spaces <= usize::MAX - INDENT_STEP {
            self.spaces = self.spaces + INDENT_STEP;
        } else {
            self.spaces = usize::MAX;
        }
        saved
    }

    /// Returns to the indentation that `indent` or `block` handed out.
    pub fn restore_indent(&mut self, saved: usize)
        ensures
            final(self).indentation() == saved,
            final(self).text() == old(self).text(),
    {
        self.spaces = saved;
    }

    /// Opens a block: a space unless at the start of a line, then `{` and a newline;
    /// then enters one more level of indentation, returning the level to restore.
    pub fn block(&mut self) -> (saved: usize)
        ensures
            saved == old(self).indentation(),
            final(self).indentation() == deeper(old(self).indentation()),
            final(self).text() == open_block(old(self).text(), old(self).indentation()),
    {
        let ghost b0 = self.text();
        let ghost ind = self.indentation();
        if !self.is_start_of_line() {
            self.write_char(' ');
            proof {
                lemma_put_push(b0, ind, Seq::<char>::empty(), ' ');
                assert(Seq::<char>::empty().push(' ') =~= seq![' ']);
            }
        }
        let ghost b1 = self.text();
        self.write_char('{');
        self.write_char('\n');
        proof {
            lemma_put_push(b1, ind, Seq::<char>::empty(), '{');
            assert(Seq::<char>::empty().push('{') =~= seq!['{']);
            lemma_put_push(b1, ind, seq!['{'], '\n');
            assert(seq!['{'].push('\n') =~= seq!['{', '\n']);
        }
        self.indent()
    }

    /// Closes a block: returns to the saved indentation and writes `}` and a newline.
    pub fn end_block(&mut self, saved: usize)
        ensures
            final(self).indentation() == saved,
            final(self).text() == close_block(old(self).text(), saved as nat),
    {
        self.restore_indent(saved);
        let ghost b = self.text();
        self.write_char('}');
        self.write_char('\n');
        proof {
            lemma_put_push(b, saved as nat, Seq::<char>::empty(), '}');
            assert(Seq::<char>::empty().push('}') =~= seq!['}']);
            lemma_put_push(b, saved as nat, seq!['}'], '\n');
            assert(seq!['}'].push('\n') =~= seq!['}', '\n']);
        }
    }

    /// Removes one newline at the very end of the text, if there is one.
    pub fn trim_trailing_newline(&mut self)
        ensures
            final(self).text() == strip_newline(old(self).text()),
            final(self).indentation() == old(self).indentation(),
    {
        if self.dst.len() > 0 && self.dst[self.dst.len() - 1] == '\n' {
            self.dst.pop();
        }
    }

    /// The text written so far, as a `String`.
    pub fn contents(&self) -> (r: String)
        ensures
            r@ == self.text(),
    {
        string_of(&self.dst)
    }
}

} // verus!
