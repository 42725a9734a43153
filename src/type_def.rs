use vstd::prelude::*;
use crate::attributes::{Attributes, attrs_text};
use crate::bounds::{Bound, Bounds, bounds_text, plus_text};
use crate::docs::{Docs, docs_text, text_lines};
use crate::error::CodegenError;
use crate::formatter::{put, Formatter, lemma_put_concat, chars_of};
use crate::generics::{Generics, type_text, generics_text};
use crate::text::{owned, string_from_chars, join, views, pushed, extended};
use crate::vis::{Vis, vis_text};

verus! {

/// Whether `s` holds a path separator `::`.
pub open spec fn has_path_sep(s: Seq<char>) -> bool {
    exists|i: int| 0 <= i < s.len() - 1 && #[trigger] s[i] == ':' && s[i + 1] == ':'
}

/// A type: a name and its generic arguments.
#[derive(Debug)]
pub struct Type {
    pub name: String,
    pub generics: Generics,
}

impl Type {
    /// A type with the given name and no generic arguments.
    pub fn new(name: &str) -> (r: Self)
        ensures
            r.name@ == name@,
            r.generics.lifetimes@.len() == 0,
            r.generics.generics@.len() == 0,
            type_text(r) == name@,
    {
        let r = Type { name: owned(name), generics: Generics::new() };
        assert(type_text(r) =~= name@);
        r
    }

    /// The name.
    pub fn name(&self) -> (r: &str)
        ensures
            r@ == self.name@,
    {
        self.name.as_str()
    }

    /// The same type with `path::` before its name. A name that already holds `::`
    /// cannot take a path.
    pub fn path(&self, path: &str) -> (r: Result<Type, CodegenError>)
        ensures
            r is Err <==> has_path_sep(self.name@),
            r is Err ==> r == Err::<Type, CodegenError>(CodegenError::InvalidIdentity),
            r is Ok ==> r.unwrap().name@ == path@ + "::"@ + self.name@,
            r is Ok ==> type_text(r.unwrap()) == path@ + "::"@ + type_text(*self),
    {
        let cs = chars_of(self.name.as_str());
        let mut i: usize = 0;
        while i < cs.len() && i < cs.len() - 1
            invariant
                cs@ == self.name@,
                i <= cs@.len(),
                forall|k: int| 0 <= k < i && k + 1 < cs@.len() ==> !(#[trigger] cs@[k] == ':' && cs@[k + 1] == ':'),
            decreases cs.len() - i,
        {
            if cs[i] == ':' && cs[i + 1] == ':' {
                return Err(CodegenError::InvalidIdentity);
            }
            i = i + 1;
        }
        let mut name = chars_of(path);
        let sep = chars_of("::");
        let mut k: usize = 0;
        let ghost p = name@;
        while k < sep.len()
            invariant
                0 <= k <= sep@.len(),
                sep@ == "::"@,
                name@ == p + sep@.subrange(0, k as int),
            decreases sep.len() - k,
        {
            name.push(sep[k]);
            assert(name@ =~= p + sep@.subrange(0, k + 1));
            k = k + 1;
        }
        assert(sep@.subrange(0, sep@.len() as int) =~= sep@);
        let ghost q = name@;
        let mut k2: usize = 0;
        while k2 < cs.len()
            invariant
                0 <= k2 <= cs@.len(),
                name@ == q + cs@.subrange(0, k2 as int),
            decreases cs.len() - k2,
        {
            name.push(cs[k2]);
            assert(name@ =~= q + cs@.subrange(0, k2 + 1));
            k2 = k2 + 1;
        }
        assert(cs@.subrange(0, cs@.len() as int) =~= cs@);
        let r = Type { name: string_from_chars(&name), generics: self.generics.duplicate() };
        assert(type_text(r) =~= path@ + "::"@ + type_text(*self));
        Ok(r)
    }

    /// A copy that is written the same way.
    pub fn duplicate(&self) -> (r: Type)
        ensures
            r.name == self.name,
            type_text(r) == type_text(*self),
        decreases self,
    {
        Type { name: self.name.clone(), generics: self.generics.duplicate() }
    }

    /// Adds a type argument with the given name.
    pub fn push_generic(&mut self, generic: &str) -> (r: &mut Self)
        ensures
            r.name == old(self).name,
            r.generics.generics@.len() == old(self).generics.generics@.len() + 1,
            r.generics.generics@.drop_last() == old(self).generics.generics@,
            type_text(r.generics.generics@.last()) == generic@,
            r.generics.lifetimes == old(self).generics.lifetimes,
            *final(self) == *final(r),
    {
        self.generics.push_generic(generic);
        self
    }

    /// Adds a lifetime argument.
    pub fn push_lifetime(&mut self, lifetime: &str) -> (r: &mut Self)
        ensures
            r.name == old(self).name,
            r.generics.lifetimes@.len() == old(self).generics.lifetimes@.len() + 1,
            r.generics.lifetimes@.drop_last() == old(self).generics.lifetimes@,
            r.generics.lifetimes@.last()@ == lifetime@,
            r.generics.generics == old(self).generics.generics,
            *final(self) == *final(r),
    {
        self.generics.push_lifetime(lifetime);
        self
    }

    /// Writes the name and the generic arguments.
    pub fn fmt(&self, fmt: &mut Formatter)
        ensures
            final(fmt).indentation() == old(fmt).indentation(),
            final(fmt).text() == put(old(fmt).text(), old(fmt).indentation(), type_text(*self)),
        decreases self,
    {
        let ghost b0 = fmt.text();
        let ghost ind = fmt.indentation();
        fmt.write_str(self.name.as_str());
        self.generics.fmt_generics(fmt);
        proof {
            lemma_put_concat(b0, ind, self.name@, generics_text(self.generics));
        }
    }
}

/// One `#[allow(..)]` line per lint.
pub open spec fn allow_text(allow: Seq<String>) -> Seq<char>
    decreases allow.len(),
{
    if allow.len() == 0 {
        Seq::empty()
    } else {
        allow_text(allow.drop_last()) + "#[allow("@ + allow.last()@ + ")]\n"@
    }
}

/// One `#[derive(..)]` line listing every derive, or nothing.
pub open spec fn derive_text(derive: Seq<String>) -> Seq<char> {
    if derive.len() == 0 {
        Seq::empty()
    } else {
        "#[derive("@ + join(views(derive), ", "@) + ")]\n"@
    }
}

/// One `#[repr(..)]` line, or nothing.
pub open spec fn repr_text(repr: Option<String>) -> Seq<char> {
    match repr {
        None => Seq::empty(),
        Some(r) => "#[repr("@ + r@ + ")]\n"@,
    }
}

/// The parent list: nothing, or `: ` and the parents joined by ` + `.
pub open spec fn parents_text(parents: Seq<Type>) -> Seq<char> {
    if parents.len() == 0 {
        Seq::empty()
    } else {
        ": "@ + plus_text(parents)
    }
}

/// How a type definition's header is written, in this fixed order: documentation,
/// lint allows, derives, representation, other attributes, visibility, keyword,
/// name with generics, parents, `where` clause.
pub open spec fn head_text(td: TypeDef, keyword: Seq<char>, parents: Seq<Type>) -> Seq<char> {
    docs_text(td.docs.lines@) + allow_text(td.allow@) + derive_text(td.derive@) + repr_text(td.repr)
        + attrs_text(td.attrs.attrs@) + vis_text(td.vis) + keyword + " "@ + type_text(td.ty)
        + parents_text(parents) + bounds_text(td.bounds.bounds@)
}

/// `new` is `old` with one more derive.
pub open spec fn derive_added(new: TypeDef, old: TypeDef, name: Seq<char>) -> bool {
    pushed(new.derive@, old.derive@, name) && new == (TypeDef { derive: new.derive, ..old })
}

/// `new` is `old` with more derives, in order.
pub open spec fn derives_added(new: TypeDef, old: TypeDef, names: Seq<&str>) -> bool {
    extended(new.derive@, old.derive@, names) && new == (TypeDef { derive: new.derive, ..old })
}

/// `new` is `old` with one more lint allow.
pub open spec fn allow_added(new: TypeDef, old: TypeDef, lint: Seq<char>) -> bool {
    pushed(new.allow@, old.allow@, lint) && new == (TypeDef { allow: new.allow, ..old })
}

/// `new` is `old` with the representation set.
pub open spec fn repr_set(new: TypeDef, old: TypeDef, repr: Seq<char>) -> bool {
    new.repr is Some && new.repr.unwrap()@ == repr && new == (TypeDef { repr: new.repr, ..old })
}

/// `new` is `old` with the lines of `doc` added to the documentation.
pub open spec fn doc_added(new: TypeDef, old: TypeDef, doc: Seq<char>) -> bool {
    views(new.docs.lines@) == views(old.docs.lines@) + text_lines(doc) && new == (TypeDef {
        docs: new.docs,
        ..old
    })
}

/// `new` is `old` with the documentation replaced by the lines of `doc`.
pub open spec fn doc_set(new: TypeDef, old: TypeDef, doc: Seq<char>) -> bool {
    views(new.docs.lines@) == text_lines(doc) && new == (TypeDef { docs: new.docs, ..old })
}

/// `new` is `old` with one more attribute.
pub open spec fn attr_added(new: TypeDef, old: TypeDef, attr: Seq<char>) -> bool {
    pushed(new.attrs.attrs@, old.attrs.attrs@, attr) && new == (TypeDef { attrs: new.attrs, ..old })
}

/// `new` is `old` with one more type parameter, written `generic`.
pub open spec fn generic_added(new: TypeDef, old: TypeDef, generic: Seq<char>) -> bool {
    &&& new.ty.name == old.ty.name
    &&& new.ty.generics.lifetimes == old.ty.generics.lifetimes
    &&& new.ty.generics.generics@.len() == old.ty.generics.generics@.len() + 1
    &&& new.ty.generics.generics@.drop_last() == old.ty.generics.generics@
    &&& type_text(new.ty.generics.generics@.last()) == generic
    &&& new == (TypeDef { ty: new.ty, ..old })
}

/// `new` is `old` with more type parameters, written as `generics`, in order.
pub open spec fn generics_added(new: TypeDef, old: TypeDef, generics: Seq<&str>) -> bool {
    let n = old.ty.generics.generics@.len();
    &&& new.ty.name == old.ty.name
    &&& new.ty.generics.lifetimes == old.ty.generics.lifetimes
    &&& new.ty.generics.generics@.len() == n + generics.len()
    &&& new.ty.generics.generics@.subrange(0, n as int) == old.ty.generics.generics@
    &&& forall|i: int|
        0 <= i < generics.len() ==> type_text(#[trigger] new.ty.generics.generics@[n + i]) == generics[i]@
    &&& new == (TypeDef { ty: new.ty, ..old })
}

/// `new` is `old` with one more bound.
pub open spec fn bound_added(new: TypeDef, old: TypeDef, bound: Bound) -> bool {
    new.bounds.bounds@ == old.bounds.bounds@.push(bound) && new == (TypeDef { bounds: new.bounds, ..old })
}

/// `new` is `old` with more bounds, in order.
pub open spec fn bounds_added(new: TypeDef, old: TypeDef, bounds: Seq<Bound>) -> bool {
    new.bounds.bounds@ == old.bounds.bounds@ + bounds && new == (TypeDef { bounds: new.bounds, ..old })
}

/// What a struct, enum or trait definition shares: its type, visibility,
/// documentation, derives, lint allows, representation, bounds and other attributes.
#[derive(Debug)]
pub struct TypeDef {
    pub ty: Type,
    pub vis: Vis,
    pub docs: Docs,
    pub derive: Vec<String>,
    pub allow: Vec<String>,
    pub repr: Option<String>,
    pub bounds: Bounds,
    pub attrs: Attributes,
}

impl TypeDef {
    /// A private definition of the named type with nothing else set.
    pub fn new(name: &str) -> (r: Self)
        ensures
            r.ty.name@ == name@,
            type_text(r.ty) == name@,
            r.vis == Vis::Private,
            r.docs.lines@.len() == 0,
            r.derive@.len() == 0,
            r.allow@.len() == 0,
            r.repr is None,
            r.bounds.bounds@.len() == 0,
            r.attrs.attrs@.len() == 0,
    {
        TypeDef {
            ty: Type::new(name),
            vis: Vis::Private,
            docs: Docs::empty(),
            derive: Vec::new(),
            allow: Vec::new(),
            repr: None,
            bounds: Bounds::new(),
            attrs: Attributes::new(),
        }
    }

    /// Adds a derive.
    pub fn derive(&mut self, name: &str)
        ensures
            derive_added(*final(self), *old(self), name@),
    {
        self.derive.push(owned(name));
        assert(self.derive@.drop_last() =~= old(self).derive@);
    }

    /// Adds derives, in order.
    pub fn derive_many(&mut self, names: &[&str])
        ensures
            derives_added(*final(self), *old(self), names@),
    {
        let mut i: usize = 0;
        while i < names.len()
            invariant
                0 <= i <= names@.len(),
                self.derive@.len() == old(self).derive@.len() + i,
                self.derive@.subrange(0, old(self).derive@.len() as int) == old(self).derive@,
                forall|k: int| 0 <= k < i ==> #[trigger] self.derive@[old(self).derive@.len() + k]@ == names@[k]@,
                *self == (TypeDef { derive: self.derive, ..*old(self) }),
            decreases names.len() - i,
        {
            let ghost prev = self.derive@;
            self.derive(names[i]);
            assert(self.derive@.subrange(0, old(self).derive@.len() as int) =~= old(self).derive@);
            assert forall|k: int| 0 <= k < i + 1 implies #[trigger] self.derive@[old(self).derive@.len() + k]@
                == names@[k]@ by {
                if k < i {
                    assert(self.derive@[old(self).derive@.len() + k] == self.derive@.drop_last()[old(self).derive@.len() + k]);
                    assert(prev[old(self).derive@.len() + k]@ == names@[k]@);
                }
            }
            i = i + 1;
        }
    }

    /// Adds a lint allow.
    pub fn allow(&mut self, lint: &str)
        ensures
            allow_added(*final(self), *old(self), lint@),
    {
        self.allow.push(owned(lint));
        assert(self.allow@.drop_last() =~= old(self).allow@);
    }

    /// Sets the representation.
    pub fn repr(&mut self, repr: &str)
        ensures
            repr_set(*final(self), *old(self), repr@),
    {
        self.repr = Some(owned(repr));
    }

    /// Adds documentation lines.
    pub fn push_doc(&mut self, doc: &str)
        ensures
            doc_added(*final(self), *old(self), doc@),
    {
        self.docs.push_doc(doc);
    }

    /// Replaces the documentation.
    pub fn set_doc(&mut self, doc: &str)
        ensures
            doc_set(*final(self), *old(self), doc@),
    {
        self.docs.set_doc(doc);
    }

    /// Adds an attribute.
    pub fn push_attr(&mut self, attr: &str)
        ensures
            attr_added(*final(self), *old(self), attr@),
    {
        self.attrs.push_attr(attr);
    }

    /// Sets the visibility.
    pub fn set_vis(&mut self, vis: Vis)
        ensures
            *final(self) == (TypeDef { vis, ..*old(self) }),
    {
        self.vis = vis;
    }

    /// Adds a type parameter.
    pub fn push_generic(&mut self, generic: &str)
        ensures
            generic_added(*final(self), *old(self), generic@),
    {
        self.ty.push_generic(generic);
    }

    /// Adds type parameters, in order.
    pub fn extend_generics(&mut self, generics: &[&str])
        ensures
            generics_added(*final(self), *old(self), generics@),
    {
        self.ty.generics.extend_generics(generics);
    }

    /// Adds a bound.
    pub fn push_bound(&mut self, bound: Bound)
        ensures
            bound_added(*final(self), *old(self), bound),
    {
        self.bounds.push_bound(bound);
    }

    /// Adds bounds, in order.
    pub fn extend_bounds(&mut self, bounds: Vec<Bound>)
        ensures
            bounds_added(*final(self), *old(self), bounds@),
    {
        self.bounds.extend_bounds(bounds);
    }

    /// Writes the header: everything before the body, in the fixed order of `head_text`.
    #[verifier::rlimit(40)]
    pub fn fmt_head(&self, keyword: &str, parents: &[Type], fmt: &mut Formatter)
        ensures
            final(fmt).indentation() == old(fmt).indentation(),
            final(fmt).text() == put(old(fmt).text(), old(fmt).indentation(), head_text(*self, keyword@, parents@)),
    {
        let ghost b0 = fmt.text();
        let ghost ind = fmt.indentation();
        self.docs.fmt_docs(fmt);
        let ghost t1 = docs_text(self.docs.lines@);
        self.fmt_allow(fmt);
        proof { lemma_put_concat(b0, ind, t1, allow_text(self.allow@)); }
        let ghost t2 = t1 + allow_text(self.allow@);
        self.fmt_derive(fmt);
        proof { lemma_put_concat(b0, ind, t2, derive_text(self.derive@)); }
        let ghost t3 = t2 + derive_text(self.derive@);
        self.fmt_repr(fmt);
        proof { lemma_put_concat(b0, ind, t3, repr_text(self.repr)); }
        let ghost t4 = t3 + repr_text(self.repr);
        self.attrs.fmt_attrs(fmt);
        proof { lemma_put_concat(b0, ind, t4, attrs_text(self.attrs.attrs@)); }
        let ghost t5 = t4 + attrs_text(self.attrs.attrs@);
        self.vis.fmt(fmt);
        proof { lemma_put_concat(b0, ind, t5, vis_text(self.vis)); }
        let ghost t6 = t5 + vis_text(self.vis);
        fmt.write_str(keyword);
        fmt.write_str(" ");
        proof {
            lemma_put_concat(b0, ind, t6, keyword@);
            lemma_put_concat(b0, ind, t6 + keyword@, " "@);
        }
        let ghost t7 = t6 + keyword@ + " "@;
        self.ty.fmt(fmt);
        proof { lemma_put_concat(b0, ind, t7, type_text(self.ty)); }
        let ghost t8 = t7 + type_text(self.ty);
        let mut i: usize = 0;
        while i < parents.len()
            invariant
                0 <= i <= parents@.len(),
                fmt.indentation() == ind,
                fmt.text() == put(b0, ind, t8 + parents_text(parents@.subrange(0, i as int))),
            decreases parents.len() - i,
        {
            let ghost pre = parents@.subrange(0, i as int);
            let ghost nxt = parents@.subrange(0, i + 1);
            assert(nxt.drop_last() =~= pre);
            let ghost sep = if i == 0 { ": "@ } else { " + "@ };
            if i == 0 {
                fmt.write_str(": ");
            } else {
                fmt.write_str(" + ");
            }
            proof { lemma_put_concat(b0, ind, t8 + parents_text(pre), sep); }
            parents[i].fmt(fmt);
            proof {
                lemma_put_concat(b0, ind, t8 + parents_text(pre) + sep, type_text(parents@[i as int]));
                if i == 0 {
                    assert(parents_text(pre) =~= Seq::<char>::empty());
                    assert(plus_text(nxt) == type_text(nxt[0]));
                    assert(t8 + parents_text(pre) + sep + type_text(parents@[0]) =~= t8 + parents_text(nxt));
                } else {
                    assert(t8 + parents_text(pre) + sep + type_text(parents@[i as int]) =~= t8 + parents_text(nxt));
                }
            }
            i = i + 1;
        }
        assert(parents@.subrange(0, parents@.len() as int) =~= parents@);
        let ghost t9 = t8 + parents_text(parents@);
        self.bounds.fmt_bounds(fmt);
        proof {
            lemma_put_concat(b0, ind, t9, bounds_text(self.bounds.bounds@));
            assert(t9 + bounds_text(self.bounds.bounds@) =~= head_text(*self, keyword@, parents@));
        }
    }

    fn fmt_allow(&self, fmt: &mut Formatter)
        ensures
            final(fmt).indentation() == old(fmt).indentation(),
            final(fmt).text() == put(old(fmt).text(), old(fmt).indentation(), allow_text(self.allow@)),
    {
        let ghost b0 = fmt.text();
        let ghost ind = fmt.indentation();
        let mut i: usize = 0;
        while i < self.allow.len()
            invariant
                0 <= i <= self.allow@.len(),
                fmt.indentation() == ind,
                fmt.text() == put(b0, ind, allow_text(self.allow@.subrange(0, i as int))),
            decreases self.allow.len() - i,
        {
            let ghost sofar = allow_text(self.allow@.subrange(0, i as int));
            let a = self.allow[i].as_str();
            fmt.write_str("#[allow(");
            fmt.write_str(a);
            fmt.write_str(")]\n");
            proof {
                lemma_put_concat(b0, ind, sofar, "#[allow("@);
                lemma_put_concat(b0, ind, sofar + "#[allow("@, a@);
                lemma_put_concat(b0, ind, sofar + "#[allow("@ + a@, ")]\n"@);
                assert(self.allow@.subrange(0, i + 1).drop_last() =~= self.allow@.subrange(0, i as int));
            }
            i = i + 1;
        }
        assert(self.allow@.subrange(0, self.allow@.len() as int) =~= self.allow@);
    }

    fn fmt_repr(&self, fmt: &mut Formatter)
        ensures
            final(fmt).indentation() == old(fmt).indentation(),
            final(fmt).text() == put(old(fmt).text(), old(fmt).indentation(), repr_text(self.repr)),
    {
        let ghost b0 = fmt.text();
        let ghost ind = fmt.indentation();
        match &self.repr {
            Some(r) => {
                fmt.write_str("#[repr(");
                fmt.write_str(r.as_str());
                fmt.write_str(")]\n");
                proof {
                    lemma_put_concat(b0, ind, "#[repr("@, r@);
                    lemma_put_concat(b0, ind, "#[repr("@ + r@, ")]\n"@);
                }
            },
            None => {},
        }
    }

    fn fmt_derive(&self, fmt: &mut Formatter)
        ensures
            final(fmt).indentation() == old(fmt).indentation(),
            final(fmt).text() == put(old(fmt).text(), old(fmt).indentation(), derive_text(self.derive@)),
    {
        if self.derive.len() == 0 {
            return;
        }
        let ghost b0 = fmt.text();
        let ghost ind = fmt.indentation();
        fmt.write_str("#[derive(");
        let mut i: usize = 0;
        while i < self.derive.len()
            invariant
                0 <= i <= self.derive@.len(),
                fmt.indentation() == ind,
                fmt.text() == put(b0, ind, "#[derive("@ + join(views(self.derive@.subrange(0, i as int)), ", "@)),
            decreases self.derive.len() - i,
        {
            let ghost sofar = "#[derive("@ + join(views(self.derive@.subrange(0, i as int)), ", "@);
            let ghost ds = views(self.derive@.subrange(0, i + 1));
            assert(ds.drop_last() =~= views(self.derive@.subrange(0, i as int)));
            if i > 0 {
                fmt.write_str(", ");
                proof { lemma_put_concat(b0, ind, sofar, ", "@); }
            }
            let ghost mid = if i > 0 { sofar + ", "@ } else { sofar };
            fmt.write_str(self.derive[i].as_str());
            proof {
                lemma_put_concat(b0, ind, mid, self.derive@[i as int]@);
                if i == 0 {
                    assert(join(views(self.derive@.subrange(0, i as int)), ", "@) =~= Seq::<char>::empty());
                    assert(sofar + self.derive@[0]@ =~= "#[derive("@ + join(ds, ", "@));
                } else {
                    assert(mid + self.derive@[i as int]@ =~= "#[derive("@ + join(ds, ", "@));
                }
            }
            i = i + 1;
        }
        assert(self.derive@.subrange(0, self.derive@.len() as int) =~= self.derive@);
        fmt.write_str(")]\n");
        proof {
            lemma_put_concat(b0, ind, "#[derive("@ + join(views(self.derive@), ", "@), ")]\n"@);
        }
    }
}

/// Documentation text depends only on the characters of the lines.
pub proof fn lemma_docs_text_views(a: Seq<String>, b: Seq<String>)
    requires
        views(a) == views(b),
    ensures
        docs_text(a) == docs_text(b),
    decreases a.len(),
{
    assert(a.len() == views(a).len() && b.len() == views(b).len());
    if a.len() > 0 {
        assert(views(a.drop_last()) =~= views(a).drop_last());
        assert(views(b.drop_last()) =~= views(b).drop_last());
        assert(a.last()@ == views(a)[a.len() - 1]);
        assert(b.last()@ == views(b)[b.len() - 1]);
        lemma_docs_text_views(a.drop_last(), b.drop_last());
    }
}

/// Attribute text depends only on the characters of the attributes.
pub proof fn lemma_attrs_text_views(a: Seq<String>, b: Seq<String>)
    requires
        views(a) == views(b),
    ensures
        attrs_text(a) == attrs_text(b),
    decreases a.len(),
{
    assert(a.len() == views(a).len() && b.len() == views(b).len());
    if a.len() > 0 {
        assert(views(a.drop_last()) =~= views(a).drop_last());
        assert(views(b.drop_last()) =~= views(b).drop_last());
        assert(a.last()@ == views(a)[a.len() - 1]);
        assert(b.last()@ == views(b)[b.len() - 1]);
        lemma_attrs_text_views(a.drop_last(), b.drop_last());
    }
}

proof fn lemma_pushed_views(new: Seq<String>, old: Seq<String>, s: Seq<char>)
    requires
        pushed(new, old, s),
    ensures
        views(new) == views(old).push(s),
{
    assert(views(new) =~= views(old).push(s)) by {
        assert forall|i: int| 0 <= i < new.len() implies views(new)[i] == views(old).push(s)[i] by {
            if i < old.len() {
                assert(new[i] == new.drop_last()[i]);
            }
        }
    }
}

/// The header is written in a fixed order whatever the order of the builder calls:
/// adding documentation, an attribute and a derive and setting the representation,
/// in one order or in the reverse order, gives the same header, with documentation
/// first, then the derive line, the representation line and the attributes, then
/// the visibility and the keyword.
pub proof fn lemma_header_order(
    t0: TypeDef,
    a1: TypeDef,
    a2: TypeDef,
    a3: TypeDef,
    a4: TypeDef,
    b1: TypeDef,
    b2: TypeDef,
    b3: TypeDef,
    b4: TypeDef,
    doc: Seq<char>,
    attr: Seq<char>,
    derive: Seq<char>,
    repr: Seq<char>,
    keyword: Seq<char>,
    parents: Seq<Type>,
)
    requires
        doc_added(a1, t0, doc),
        attr_added(a2, a1, attr),
        derive_added(a3, a2, derive),
        repr_set(a4, a3, repr),
        repr_set(b1, t0, repr),
        derive_added(b2, b1, derive),
        attr_added(b3, b2, attr),
        doc_added(b4, b3, doc),
    ensures
        head_text(a4, keyword, parents) == head_text(b4, keyword, parents),
        head_text(a4, keyword, parents) == docs_text(a4.docs.lines@) + allow_text(t0.allow@) + derive_text(
            a4.derive@,
        ) + "#[repr("@ + repr + ")]\n"@ + attrs_text(a4.attrs.attrs@) + vis_text(t0.vis) + keyword + " "@
            + type_text(t0.ty) + parents_text(parents) + bounds_text(t0.bounds.bounds@),
{
    lemma_docs_text_views(a4.docs.lines@, b4.docs.lines@);
    lemma_pushed_views(a2.attrs.attrs@, a1.attrs.attrs@, attr);
    lemma_pushed_views(b3.attrs.attrs@, b2.attrs.attrs@, attr);
    lemma_attrs_text_views(a4.attrs.attrs@, b4.attrs.attrs@);
    lemma_pushed_views(a3.derive@, a2.derive@, derive);
    lemma_pushed_views(b2.derive@, b1.derive@, derive);
    assert(views(a4.derive@) == views(b4.derive@));
}

} // verus!
