use vstd::prelude::*;
use crate::attributes::{Attributes, attrs_text};
use crate::docs::{Docs, docs_text, text_lines};
use crate::formatter::{put, Formatter, lemma_put_concat};
use crate::generics::type_text;
use crate::text::{owned, pushed, extended, views};
use crate::type_def::Type;
use crate::vis::Vis;

verus! {

/// How a field is written: documentation, attributes, `name: ` if named, the type,
/// then `,` and a newline.
pub open spec fn field_text(f: Field) -> Seq<char> {
    docs_text(f.docs.lines@) + attrs_text(f.attrs.attrs@) + (if f.name is Some {
        f.name.unwrap()@ + ": "@
    } else {
        Seq::empty()
    }) + type_text(f.ty) + ",\n"@
}

/// How a named field is written as an associated type's value: `type name = T;`.
pub open spec fn assoc_value_text(f: Field) -> Seq<char> {
    "type "@ + (if f.name is Some {
        f.name.unwrap()@
    } else {
        Seq::empty()
    }) + " = "@ + type_text(f.ty) + ";\n"@
}

/// A field of a struct or variant, or an argument of a function.
#[derive(Debug)]
pub struct Field {
    pub name: Option<String>,
    pub ty: Type,
    pub docs: Docs,
    pub attrs: Attributes,
    pub vis: Vis,
}

impl Field {
    /// A private field with the given name and type name.
    pub fn new_named(name: &str, ty: &str) -> (r: Self)
        ensures
            r.name is Some,
            r.name.unwrap()@ == name@,
            type_text(r.ty) == ty@,
            r.docs.lines@.len() == 0,
            r.attrs.attrs@.len() == 0,
            r.vis == Vis::Private,
    {
        Field {
            name: Some(owned(name)),
            ty: Type::new(ty),
            docs: Docs::empty(),
            attrs: Attributes::new(),
            vis: Vis::Private,
        }
    }

    /// A private field without a name.
    pub fn new_unnamed(ty: &str) -> (r: Self)
        ensures
            r.name is None,
            type_text(r.ty) == ty@,
            r.docs.lines@.len() == 0,
            r.attrs.attrs@.len() == 0,
            r.vis == Vis::Private,
    {
        Field { name: None, ty: Type::new(ty), docs: Docs::empty(), attrs: Attributes::new(), vis: Vis::Private }
    }

    /// Whether the field has a name.
    pub fn is_named(&self) -> (r: bool)
        ensures
            r == self.name is Some,
    {
        self.name.is_some()
    }

    /// Adds documentation lines.
    pub fn push_doc(&mut self, doc: &str) -> (r: &mut Self)
        ensures
            views(r.docs.lines@) == views(old(self).docs.lines@) + text_lines(doc@),
            *r == (Field { docs: r.docs, ..*old(self) }),
            *final(self) == *final(r),
    {
        self.docs.push_doc(doc);
        self
    }

    /// Adds the lines of each documentation text, in order.
    pub fn push_docs(&mut self, docs: &[&str]) -> (r: &mut Self)
        ensures
            views(r.docs.lines@) == views(old(self).docs.lines@) + docs@.fold_left(
                Seq::<Seq<char>>::empty(),
                |acc: Seq<Seq<char>>, d: &str| acc + text_lines(d@),
            ),
            *r == (Field { docs: r.docs, ..*old(self) }),
            *final(self) == *final(r),
    {
        self.docs.push_docs(docs);
        self
    }

    /// Adds an attribute.
    pub fn push_attr(&mut self, attr: &str) -> (r: &mut Self)
        ensures
            pushed(r.attrs.attrs@, old(self).attrs.attrs@, attr@),
            *r == (Field { attrs: r.attrs, ..*old(self) }),
            *final(self) == *final(r),
    {
        self.attrs.push_attr(attr);
        self
    }

    /// Adds attributes, in order.
    pub fn extend_attrs(&mut self, attrs: &[&str]) -> (r: &mut Self)
        ensures
            extended(r.attrs.attrs@, old(self).attrs.attrs@, attrs@),
            *r == (Field { attrs: r.attrs, ..*old(self) }),
            *final(self) == *final(r),
    {
        self.attrs.extend_attrs(attrs);
        self
    }

    /// Sets the visibility.
    pub fn set_vis(&mut self, vis: Vis) -> (r: &mut Self)
        ensures
            *r == (Field { vis, ..*old(self) }),
            *final(self) == *final(r),
    {
        self.vis = vis;
        self
    }

    /// Writes the field as a line of a struct or variant body.
    pub fn fmt_field(&self, fmt: &mut Formatter)
        ensures
            final(fmt).indentation() == old(fmt).indentation(),
            final(fmt).text() == put(old(fmt).text(), old(fmt).indentation(), field_text(*self)),
    {
        let ghost b0 = fmt.text();
        let ghost ind = fmt.indentation();
        self.docs.fmt_docs(fmt);
        self.attrs.fmt_attrs(fmt);
        let ghost t1 = docs_text(self.docs.lines@) + attrs_text(self.attrs.attrs@);
        proof { lemma_put_concat(b0, ind, docs_text(self.docs.lines@), attrs_text(self.attrs.attrs@)); }
        let ghost nm = if self.name is Some {
            self.name.unwrap()@ + ": "@
        } else {
            Seq::<char>::empty()
        };
        match &self.name {
            Some(n) => {
                fmt.write_str(n.as_str());
                fmt.write_str(": ");
                proof {
                    lemma_put_concat(b0, ind, t1, n@);
                    lemma_put_concat(b0, ind, t1 + n@, ": "@);
                    assert(t1 + n@ + ": "@ =~= t1 + nm);
                }
            },
            None => {
                assert(t1 + nm =~= t1);
            },
        }
        self.ty.fmt(fmt);
        fmt.write_str(",\n");
        proof {
            lemma_put_concat(b0, ind, t1 + nm, type_text(self.ty));
            lemma_put_concat(b0, ind, t1 + nm + type_text(self.ty), ",\n"@);
        }
    }

    /// Writes the field as an associated type's value, `type name = T;`.
    pub fn fmt_assoc_type_value(&self, fmt: &mut Formatter)
        ensures
            final(fmt).indentation() == old(fmt).indentation(),
            final(fmt).text() == put(old(fmt).text(), old(fmt).indentation(), assoc_value_text(*self)),
    {
        let ghost b0 = fmt.text();
        let ghost ind = fmt.indentation();
        let ghost n = if self.name is Some { self.name.unwrap()@ } else { Seq::<char>::empty() };
        fmt.write_str("type ");
        match &self.name {
            Some(name) => {
                fmt.write_str(name.as_str());
                proof { lemma_put_concat(b0, ind, "type "@, n); }
            },
            None => {
                assert("type "@ + n =~= "type "@);
            },
        }
        fmt.write_str(" = ");
        self.ty.fmt(fmt);
        fmt.write_str(";\n");
        proof {
            lemma_put_concat(b0, ind, "type "@ + n, " = "@);
            lemma_put_concat(b0, ind, "type "@ + n + " = "@, type_text(self.ty));
            lemma_put_concat(b0, ind, "type "@ + n + " = "@ + type_text(self.ty), ";\n"@);
        }
    }
}

} // verus!
