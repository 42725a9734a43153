use vstd::prelude::*;
use crate::attributes::{Attributes, attrs_text};
use crate::block::{Block, Body, bodies_out, line_of};
use crate::bounds::{Bound, Bounds, bounds_text};
use crate::docs::{Docs, docs_text, text_lines};
use crate::error::CodegenError;
use crate::field::Field;
use crate::formatter::{put, deeper, open_block, close_block, Formatter, lemma_put_concat};
use crate::generics::{Generics, type_text, generics_text};
use crate::text::{owned, pushed, views};
use crate::type_def::Type;
use crate::vis::{Vis, vis_text};

verus! {

/// How a function takes `self`.
#[derive(Debug, Clone, Copy, PartialEq, Eq, Structural)]
pub enum SelfArg {
    /// `self`
    Value,
    /// `&self`
    Ref,
    /// `&mut self`
    MutRef,
}

/// The token of a `self` parameter.
pub open spec fn self_text(s: SelfArg) -> Seq<char> {
    match s {
        SelfArg::Value => "self"@,
        SelfArg::Ref => "&self"@,
        SelfArg::MutRef => "&mut self"@,
    }
}

/// How a parameter is written: `name: T`.
pub open spec fn param_text(a: Field) -> Seq<char> {
    (if a.name is Some {
        a.name.unwrap()@ + ": "@
    } else {
        Seq::empty()
    }) + type_text(a.ty)
}

/// The parameters after the `self` token, if any, each preceded by `, ` unless it is
/// the very first.
pub open spec fn args_text(args: Seq<Field>, after_self: bool) -> Seq<char>
    decreases args.len(),
{
    if args.len() == 0 {
        Seq::empty()
    } else {
        args_text(args.drop_last(), after_self) + (if args.len() > 1 || after_self {
            ", "@
        } else {
            Seq::empty()
        }) + param_text(args.last())
    }
}

/// An optional piece of text: the text, or nothing.
pub open spec fn opt_text(o: Option<String>, before: Seq<char>, after: Seq<char>) -> Seq<char> {
    match o {
        Some(s) => before + s@ + after,
        None => Seq::empty(),
    }
}

/// How a function's signature is written, up to its body: documentation, lint allow,
/// attributes, visibility, ABI, `async`, `fn`, name, generics, parameters, return
/// type and `where` clause.
pub open spec fn fn_head_text(f: Function) -> Seq<char> {
    docs_text(f.docs.lines@) + opt_text(f.allow, "#[allow("@, ")]\n"@) + attrs_text(f.attrs.attrs@) + vis_text(
        f.vis,
    ) + opt_text(f.extern_abi, "extern \""@, "\" "@) + (if f.is_async {
        "async "@
    } else {
        Seq::empty()
    }) + "fn "@ + f.name@ + generics_text(f.generics) + "("@ + (match f.arg_self {
        Some(s) => self_text(s),
        None => Seq::empty(),
    }) + args_text(f.args@, f.arg_self is Some) + ")"@ + (match f.ret {
        Some(t) => " -> "@ + type_text(t),
        None => Seq::empty(),
    }) + bounds_text(f.bounds.bounds@)
}

/// The buffer after writing the function at indentation `ind`: its signature, then
/// a block with its body, or `;` and a newline when it has no body.
pub open spec fn fn_out(f: Function, buf: Seq<char>, ind: nat) -> Seq<char> {
    let b = put(buf, ind, fn_head_text(f));
    match f.body {
        Some(body) => close_block(bodies_out(body@, open_block(b, ind), deeper(ind)), ind),
        None => put(b, ind, ";\n"@),
    }
}

/// What rendering the function fails with, if anything: a trait's function cannot
/// carry a visibility, and any other function needs a body.
pub open spec fn fn_error(f: Function, is_trait: bool) -> Option<CodegenError> {
    if is_trait && f.vis != Vis::Private {
        Some(CodegenError::InvalidVisibility)
    } else if !is_trait && f.body is None {
        Some(CodegenError::MissingBody)
    } else {
        None
    }
}

/// The buffer after writing the functions one after another at indentation `ind`,
/// with an empty line before each but the first, and before the first too when
/// `lead` holds.
pub open spec fn fns_out(fs: Seq<Function>, lead: bool, buf: Seq<char>, ind: nat) -> Seq<char>
    decreases fs.len(),
{
    if fs.len() == 0 {
        buf
    } else {
        let b = fns_out(fs.drop_last(), lead, buf, ind);
        let b1 = if fs.len() > 1 || lead {
            put(b, ind, "\n"@)
        } else {
            b
        };
        fn_out(fs.last(), b1, ind)
    }
}

/// The first failure among the functions, in order, if any.
pub open spec fn fns_error(fs: Seq<Function>, is_trait: bool) -> Option<CodegenError>
    decreases fs.len(),
{
    if fs.len() == 0 {
        None
    } else {
        match fns_error(fs.drop_last(), is_trait) {
            Some(e) => Some(e),
            None => fn_error(fs.last(), is_trait),
        }
    }
}

/// The first failure among the functions, in order, if any.
pub fn fns_check(fns: &Vec<Function>, is_trait: bool) -> (r: Option<CodegenError>)
    ensures
        r == fns_error(fns@, is_trait),
{
    let mut k: usize = 0;
    while k < fns.len()
        invariant
            0 <= k <= fns@.len(),
            fns_error(fns@.subrange(0, k as int), is_trait) is None,
        decreases fns.len() - k,
    {
        assert(fns@.subrange(0, k + 1).drop_last() =~= fns@.subrange(0, k as int));
        match fns[k].error(is_trait) {
            Some(e) => {
                proof {
                    lemma_fns_error_extends(fns@, is_trait, k + 1);
                }
                return Some(e);
            },
            None => {},
        }
        k = k + 1;
    }
    assert(fns@.subrange(0, fns@.len() as int) =~= fns@);
    None
}

/// Writes the functions, with an empty line before each but the first, and before the
/// first too when `lead` holds.
pub fn fmt_fns(fns: &Vec<Function>, lead: bool, is_trait: bool, fmt: &mut Formatter)
    requires
        fns_error(fns@, is_trait) is None,
    ensures
        final(fmt).indentation() == old(fmt).indentation(),
        final(fmt).text() == fns_out(fns@, lead, old(fmt).text(), old(fmt).indentation()),
{
    let ghost b0 = fmt.text();
    let ghost ind = fmt.indentation();
    let mut i: usize = 0;
    while i < fns.len()
        invariant
            0 <= i <= fns@.len(),
            fmt.indentation() == ind,
            fns_error(fns@, is_trait) is None,
            fmt.text() == fns_out(fns@.subrange(0, i as int), lead, b0, ind),
        decreases fns.len() - i,
    {
        let ghost pre = fns@.subrange(0, i as int);
        let ghost nxt = fns@.subrange(0, i + 1);
        assert(nxt.drop_last() =~= pre);
        proof {
            lemma_fns_error_none(fns@, is_trait, i as int);
        }
        if i != 0 || lead {
            fmt.write_str("\n");
        }
        let _ = fns[i].fmt(is_trait, fmt);
        i = i + 1;
    }
    assert(fns@.subrange(0, fns@.len() as int) =~= fns@);
}

proof fn lemma_fns_error_none(fs: Seq<Function>, is_trait: bool, k: int)
    requires
        0 <= k < fs.len(),
        fns_error(fs, is_trait) is None,
    ensures
        fn_error(fs[k], is_trait) is None,
    decreases fs.len(),
{
    if k < fs.len() - 1 {
        assert(fs.drop_last()[k] == fs[k]);
        lemma_fns_error_none(fs.drop_last(), is_trait, k);
    }
}

proof fn lemma_fns_error_extends(fs: Seq<Function>, is_trait: bool, k: int)
    requires
        0 < k <= fs.len(),
        fns_error(fs.subrange(0, k - 1), is_trait) is None,
        fn_error(fs[k - 1], is_trait) is Some,
    ensures
        fns_error(fs, is_trait) == fn_error(fs[k - 1], is_trait),
    decreases fs.len() - k,
{
    let e = fn_error(fs[k - 1], is_trait);
    assert(fs.subrange(0, k).drop_last() =~= fs.subrange(0, k - 1));
    assert(fns_error(fs.subrange(0, k), is_trait) == e);
    lemma_fns_error_prefix(fs, is_trait, k);
}

proof fn lemma_fns_error_prefix(fs: Seq<Function>, is_trait: bool, k: int)
    requires
        0 <= k <= fs.len(),
        fns_error(fs.subrange(0, k), is_trait) is Some,
    ensures
        fns_error(fs, is_trait) == fns_error(fs.subrange(0, k), is_trait),
    decreases fs.len() - k,
{
    if k == fs.len() {
        assert(fs.subrange(0, k) =~= fs);
    } else {
        assert(fs.subrange(0, k + 1).drop_last() =~= fs.subrange(0, k));
        lemma_fns_error_prefix(fs, is_trait, k + 1);
    }
}

/// The body entries, none when there is no body.
pub open spec fn body_of(f: Function) -> Seq<Body> {
    match f.body {
        Some(b) => b@,
        None => Seq::empty(),
    }
}

/// `f` is a private function named `name` with nothing set, whatever its body.
pub open spec fn is_new_fn(f: Function, name: Seq<char>) -> bool {
    &&& f.name@ == name
    &&& f.vis == Vis::Private
    &&& f.docs.lines@.len() == 0 && f.attrs.attrs@.len() == 0
    &&& f.allow is None && f.extern_abi is None && !f.is_async
    &&& f.generics.lifetimes@.len() == 0 && f.generics.generics@.len() == 0
    &&& f.arg_self is None && f.args@.len() == 0 && f.ret is None
    &&& f.bounds.bounds@.len() == 0
    &&& body_of(f).len() == 0
}

/// A function definition or declaration.
#[derive(Debug)]
pub struct Function {
    pub name: String,
    pub docs: Docs,
    pub allow: Option<String>,
    pub vis: Vis,
    pub generics: Generics,
    pub arg_self: Option<SelfArg>,
    pub args: Vec<Field>,
    pub ret: Option<Type>,
    pub bounds: Bounds,
    pub body: Option<Vec<Body>>,
    pub attrs: Attributes,
    pub extern_abi: Option<String>,
    pub is_async: bool,
}

impl Function {
    /// A function declaration for a trait: no body until a line or block is added.
    pub fn new_trait_fn(name: &str) -> (r: Self)
        ensures
            is_new_fn(r, name@),
            r.body is None,
    {
        Function {
            name: owned(name),
            docs: Docs::empty(),
            allow: None,
            vis: Vis::Private,
            generics: Generics::new(),
            arg_self: None,
            args: Vec::new(),
            ret: None,
            bounds: Bounds::new(),
            body: None,
            attrs: Attributes::new(),
            extern_abi: None,
            is_async: false,
        }
    }

    /// A function with an empty body.
    pub fn new(name: &str) -> (r: Self)
        ensures
            is_new_fn(r, name@),
            r.body is Some,
    {
        let mut r = Self::new_trait_fn(name);
        r.body = Some(Vec::new());
        r
    }

    /// Sets the lint to allow.
    pub fn allow(&mut self, allow: &str) -> (r: &mut Self)
        ensures
            r.allow is Some && r.allow.unwrap()@ == allow@,
            *r == (Function { allow: r.allow, ..*old(self) }),
            *final(self) == *final(r),
    {
        self.allow = Some(owned(allow));
        self
    }

    /// Sets whether the function is `async`.
    pub fn set_async(&mut self, is_async: bool) -> (r: &mut Self)
        ensures
            *r == (Function { is_async, ..*old(self) }),
            *final(self) == *final(r),
    {
        self.is_async = is_async;
        self
    }

    /// Takes `self` by value.
    pub fn arg_self(&mut self) -> (r: &mut Self)
        ensures
            *r == (Function { arg_self: Some(SelfArg::Value), ..*old(self) }),
            *final(self) == *final(r),
    {
        self.arg_self = Some(SelfArg::Value);
        self
    }

    /// Takes `&self`.
    pub fn arg_ref_self(&mut self) -> (r: &mut Self)
        ensures
            *r == (Function { arg_self: Some(SelfArg::Ref), ..*old(self) }),
            *final(self) == *final(r),
    {
        self.arg_self = Some(SelfArg::Ref);
        self
    }

    /// Takes `&mut self`.
    pub fn arg_mut_self(&mut self) -> (r: &mut Self)
        ensures
            *r == (Function { arg_self: Some(SelfArg::MutRef), ..*old(self) }),
            *final(self) == *final(r),
    {
        self.arg_self = Some(SelfArg::MutRef);
        self
    }

    /// Adds a parameter with the given name and type name.
    pub fn arg(&mut self, name: &str, ty: &str) -> (r: &mut Self)
        ensures
            r.args@.len() == old(self).args@.len() + 1,
            r.args@.drop_last() == old(self).args@,
            param_text(r.args@.last()) == name@ + ": "@ + ty@,
            *r == (Function { args: r.args, ..*old(self) }),
            *final(self) == *final(r),
    {
        self.args.push(Field::new_named(name, ty));
        assert(self.args@.drop_last() =~= old(self).args@);
        self
    }

    /// Sets the return type to the named type.
    pub fn ret(&mut self, ty: &str) -> (r: &mut Self)
        ensures
            r.ret is Some && type_text(r.ret.unwrap()) == ty@,
            *r == (Function { ret: r.ret, ..*old(self) }),
            *final(self) == *final(r),
    {
        self.ret = Some(Type::new(ty));
        self
    }

    /// Adds a line to the body, giving the function a body if it had none.
    pub fn line(&mut self, line: &str) -> (r: &mut Self)
        ensures
            r.body is Some,
            body_of(*r).len() == body_of(*old(self)).len() + 1,
            body_of(*r).drop_last() == body_of(*old(self)),
            line_of(body_of(*r).last()) == Some(line@),
            *r == (Function { body: r.body, ..*old(self) }),
            *final(self) == *final(r),
    {
        self.push_body(Body::String(owned(line)));
        self
    }

    /// Sets the ABI of an `extern` function.
    pub fn extern_abi(&mut self, abi: &str) -> (r: &mut Self)
        ensures
            r.extern_abi is Some && r.extern_abi.unwrap()@ == abi@,
            *r == (Function { extern_abi: r.extern_abi, ..*old(self) }),
            *final(self) == *final(r),
    {
        self.extern_abi = Some(owned(abi));
        self
    }

    /// Adds a block to the body, giving the function a body if it had none.
    pub fn push_block(&mut self, block: Block) -> (r: &mut Self)
        ensures
            r.body is Some,
            body_of(*r) == body_of(*old(self)).push(Body::Block(block)),
            *r == (Function { body: r.body, ..*old(self) }),
            *final(self) == *final(r),
    {
        self.push_body(Body::Block(block));
        self
    }

    fn push_body(&mut self, entry: Body)
        ensures
            final(self).body is Some,
            body_of(*final(self)) == body_of(*old(self)).push(entry),
            *final(self) == (Function { body: final(self).body, ..*old(self) }),
    {
        match &mut self.body {
            Some(b) => {
                b.push(entry);
            },
            None => {
                let mut b = Vec::new();
                b.push(entry);
                assert(b@ =~= Seq::<Body>::empty().push(entry));
                self.body = Some(b);
            },
        }
    }

    /// Adds documentation lines.
    pub fn push_doc(&mut self, doc: &str) -> (r: &mut Self)
        ensures
            views(r.docs.lines@) == views(old(self).docs.lines@) + text_lines(doc@),
            *r == (Function { docs: r.docs, ..*old(self) }),
            *final(self) == *final(r),
    {
        self.docs.push_doc(doc);
        self
    }

    /// Adds an attribute.
    pub fn push_attr(&mut self, attr: &str) -> (r: &mut Self)
        ensures
            pushed(r.attrs.attrs@, old(self).attrs.attrs@, attr@),
            *r == (Function { attrs: r.attrs, ..*old(self) }),
            *final(self) == *final(r),
    {
        self.attrs.push_attr(attr);
        self
    }

    /// Sets the visibility.
    pub fn set_vis(&mut self, vis: Vis) -> (r: &mut Self)
        ensures
            *r == (Function { vis, ..*old(self) }),
            *final(self) == *final(r),
    {
        self.vis = vis;
        self
    }

    /// Adds a type parameter.
    pub fn push_generic(&mut self, generic: &str) -> (r: &mut Self)
        ensures
            r.generics.generics@.len() == old(self).generics.generics@.len() + 1,
            r.generics.generics@.drop_last() == old(self).generics.generics@,
            type_text(r.generics.generics@.last()) == generic@,
            r.generics.lifetimes == old(self).generics.lifetimes,
            *r == (Function { generics: r.generics, ..*old(self) }),
            *final(self) == *final(r),
    {
        self.generics.push_generic(generic);
        self
    }

    /// Adds a bound to the `where` clause.
    pub fn push_bound(&mut self, bound: Bound) -> (r: &mut Self)
        ensures
            r.bounds.bounds@ == old(self).bounds.bounds@.push(bound),
            *r == (Function { bounds: r.bounds, ..*old(self) }),
            *final(self) == *final(r),
    {
        self.bounds.push_bound(bound);
        self
    }

    /// What rendering the function fails with, if anything.
    pub fn error(&self, is_trait: bool) -> (r: Option<CodegenError>)
        ensures
            r == fn_error(*self, is_trait),
    {
        if is_trait && self.vis != Vis::Private {
            Some(CodegenError::InvalidVisibility)
        } else if !is_trait && self.body.is_none() {
            Some(CodegenError::MissingBody)
        } else {
            None
        }
    }

    /// Writes the function. Inside a trait (`is_trait`) a function may lack a body and
    /// is then declared with `;`, but must not carry a visibility; elsewhere it needs
    /// a body. On failure nothing is written.
    #[verifier::rlimit(50)]
    pub fn fmt(&self, is_trait: bool, fmt: &mut Formatter) -> (r: Result<(), CodegenError>)
        ensures
            final(fmt).indentation() == old(fmt).indentation(),
            r is Err <==> fn_error(*self, is_trait) is Some,
            r is Err ==> r == Err::<(), CodegenError>(fn_error(*self, is_trait).unwrap()) && final(fmt).text()
                == old(fmt).text(),
            r is Ok ==> final(fmt).text() == fn_out(*self, old(fmt).text(), old(fmt).indentation()),
    {
        if is_trait && self.vis != Vis::Private {
            return Err(CodegenError::InvalidVisibility);
        }
        if !is_trait && self.body.is_none() {
            return Err(CodegenError::MissingBody);
        }
        let ghost b0 = fmt.text();
        let ghost ind = fmt.indentation();
        self.docs.fmt_docs(fmt);
        let ghost t1 = docs_text(self.docs.lines@);
        match &self.allow {
            Some(a) => {
                fmt.write_str("#[allow(");
                fmt.write_str(a.as_str());
                fmt.write_str(")]\n");
                proof {
                    lemma_put_concat(b0, ind, t1, "#[allow("@);
                    lemma_put_concat(b0, ind, t1 + "#[allow("@, a@);
                    lemma_put_concat(b0, ind, t1 + "#[allow("@ + a@, ")]\n"@);
                    assert(t1 + "#[allow("@ + a@ + ")]\n"@ =~= t1 + opt_text(self.allow, "#[allow("@, ")]\n"@));
                }
            },
            None => {
                assert(t1 + opt_text(self.allow, "#[allow("@, ")]\n"@) =~= t1);
            },
        }
        let ghost t2 = t1 + opt_text(self.allow, "#[allow("@, ")]\n"@);
        self.attrs.fmt_attrs(fmt);
        proof { lemma_put_concat(b0, ind, t2, attrs_text(self.attrs.attrs@)); }
        let ghost t3 = t2 + attrs_text(self.attrs.attrs@);
        self.vis.fmt(fmt);
        proof { lemma_put_concat(b0, ind, t3, vis_text(self.vis)); }
        let ghost t4 = t3 + vis_text(self.vis);
        match &self.extern_abi {
            Some(abi) => {
                fmt.write_str("extern \"");
                fmt.write_str(abi.as_str());
                fmt.write_str("\" ");
                proof {
                    lemma_put_concat(b0, ind, t4, "extern \""@);
                    lemma_put_concat(b0, ind, t4 + "extern \""@, abi@);
                    lemma_put_concat(b0, ind, t4 + "extern \""@ + abi@, "\" "@);
                    assert(t4 + "extern \""@ + abi@ + "\" "@ =~= t4 + opt_text(self.extern_abi, "extern \""@, "\" "@));
                }
            },
            None => {
                assert(t4 + opt_text(self.extern_abi, "extern \""@, "\" "@) =~= t4);
            },
        }
        let ghost t5 = t4 + opt_text(self.extern_abi, "extern \""@, "\" "@);
        let ghost asy = if self.is_async { "async "@ } else { Seq::<char>::empty() };
        if self.is_async {
            fmt.write_str("async ");
            proof { lemma_put_concat(b0, ind, t5, "async "@); }
        } else {
            assert(t5 + asy =~= t5);
        }
        let ghost t6 = t5 + asy;
        fmt.write_str("fn ");
        fmt.write_str(self.name.as_str());
        proof {
            lemma_put_concat(b0, ind, t6, "fn "@);
            lemma_put_concat(b0, ind, t6 + "fn "@, self.name@);
        }
        let ghost t7 = t6 + "fn "@ + self.name@;
        self.generics.fmt_generics(fmt);
        fmt.write_str("(");
        proof {
            lemma_put_concat(b0, ind, t7, generics_text(self.generics));
            lemma_put_concat(b0, ind, t7 + generics_text(self.generics), "("@);
        }
        let ghost t8 = t7 + generics_text(self.generics) + "("@;
        let ghost st = if self.arg_self is Some {
            self_text(self.arg_self.unwrap())
        } else {
            Seq::<char>::empty()
        };
        match self.arg_self {
            Some(SelfArg::Value) => fmt.write_str("self"),
            Some(SelfArg::Ref) => fmt.write_str("&self"),
            Some(SelfArg::MutRef) => fmt.write_str("&mut self"),
            None => {},
        }
        proof {
            if self.arg_self is Some {
                lemma_put_concat(b0, ind, t8, st);
            } else {
                assert(t8 + st =~= t8);
            }
        }
        let ghost t9 = t8 + st;
        let lead = self.arg_self.is_some();
        let mut i: usize = 0;
        while i < self.args.len()
            invariant
                0 <= i <= self.args@.len(),
                lead == self.arg_self is Some,
                fmt.indentation() == ind,
                fmt.text() == put(b0, ind, t9 + args_text(self.args@.subrange(0, i as int), lead)),
            decreases self.args.len() - i,
        {
            let ghost pre = self.args@.subrange(0, i as int);
            let ghost nxt = self.args@.subrange(0, i + 1);
            assert(nxt.drop_last() =~= pre);
            let ghost sep = if i > 0 || lead { ", "@ } else { Seq::<char>::empty() };
            if i > 0 || lead {
                fmt.write_str(", ");
                proof { lemma_put_concat(b0, ind, t9 + args_text(pre, lead), ", "@); }
            } else {
                assert(t9 + args_text(pre, lead) + sep =~= t9 + args_text(pre, lead));
            }
            let ghost mid = t9 + args_text(pre, lead) + sep;
            let a = &self.args[i];
            match &a.name {
                Some(n) => {
                    fmt.write_str(n.as_str());
                    fmt.write_str(": ");
                    proof {
                        lemma_put_concat(b0, ind, mid, n@);
                        lemma_put_concat(b0, ind, mid + n@, ": "@);
                    }
                },
                None => {},
            }
            let ghost nm = if a.name is Some { a.name.unwrap()@ + ": "@ } else { Seq::<char>::empty() };
            assert(fmt.text() == put(b0, ind, mid + nm)) by {
                if a.name is Some {
                    assert(mid + a.name.unwrap()@ + ": "@ =~= mid + nm);
                } else {
                    assert(mid + nm =~= mid);
                }
            }
            a.ty.fmt(fmt);
            proof {
                lemma_put_concat(b0, ind, mid + nm, type_text(a.ty));
                assert(mid + nm + type_text(a.ty) =~= t9 + args_text(nxt, lead));
            }
            i = i + 1;
        }
        assert(self.args@.subrange(0, self.args@.len() as int) =~= self.args@);
        let ghost t10 = t9 + args_text(self.args@, lead);
        fmt.write_str(")");
        proof { lemma_put_concat(b0, ind, t10, ")"@); }
        let ghost t11 = t10 + ")"@;
        let ghost rt = if self.ret is Some {
            " -> "@ + type_text(self.ret.unwrap())
        } else {
            Seq::<char>::empty()
        };
        match &self.ret {
            Some(t) => {
                fmt.write_str(" -> ");
                t.fmt(fmt);
                proof {
                    lemma_put_concat(b0, ind, t11, " -> "@);
                    lemma_put_concat(b0, ind, t11 + " -> "@, type_text(*t));
                    assert(t11 + " -> "@ + type_text(*t) =~= t11 + rt);
                }
            },
            None => {
                assert(t11 + rt =~= t11);
            },
        }
        let ghost t12 = t11 + rt;
        self.bounds.fmt_bounds(fmt);
        proof {
            lemma_put_concat(b0, ind, t12, bounds_text(self.bounds.bounds@));
            assert(t12 + bounds_text(self.bounds.bounds@) =~= fn_head_text(*self));
        }
        match &self.body {
            Some(body) => {
                let saved = fmt.block();
                let ghost b1 = fmt.text();
                let ghost inner = fmt.indentation();
                let mut j: usize = 0;
                while j < body.len()
                    invariant
                        0 <= j <= body@.len(),
                        fmt.indentation() == inner,
                        fmt.text() == bodies_out(body@.subrange(0, j as int), b1, inner),
                    decreases body.len() - j,
                {
                    assert(body@.subrange(0, j + 1).drop_last() =~= body@.subrange(0, j as int));
                    body[j].fmt(fmt);
                    j = j + 1;
                }
                assert(body@.subrange(0, body@.len() as int) =~= body@);
                fmt.end_block(saved);
            },
            None => {
                fmt.write_str(";\n");
            },
        }
        Ok(())
    }
}

} // verus!
