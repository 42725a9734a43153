use vstd::prelude::*;
use crate::attributes::{Attributes, attrs_text};
use crate::docs::{Docs, docs_text, text_lines};
use crate::error::CodegenError;
use crate::fields::{Fields, fields_out, named_of, tuple_of};
use crate::formatter::{put, Formatter, lemma_put_concat};
use crate::generics::type_text;
use crate::text::{owned, pushed, views};

verus! {

/// The buffer after writing the variant at indentation `ind`: documentation,
/// attributes and name, its fields, then `,` and a newline.
pub open spec fn variant_out(v: Variant, buf: Seq<char>, ind: nat) -> Seq<char> {
    let head = docs_text(v.docs.lines@) + attrs_text(v.attrs.attrs@) + v.name@;
    put(fields_out(v.fields, put(buf, ind, head), ind), ind, ",\n"@)
}

/// A variant of an enum.
#[derive(Debug)]
pub struct Variant {
    pub name: String,
    pub docs: Docs,
    pub attrs: Attributes,
    pub fields: Fields,
}

impl Variant {
    /// A variant with the given name and no fields.
    pub fn new(name: &str) -> (r: Self)
        ensures
            r.name@ == name@,
            r.docs.lines@.len() == 0,
            r.attrs.attrs@.len() == 0,
            r.fields is Empty,
    {
        Variant { name: owned(name), docs: Docs::empty(), attrs: Attributes::new(), fields: Fields::Empty }
    }

    /// Adds a named field. A variant with positional fields takes no named one.
    pub fn named(&mut self, name: &str, ty: &str) -> (r: Result<&mut Self, CodegenError>)
        ensures
            r is Err <==> old(self).fields is Tuple,
            r is Err ==> r == Err::<&mut Self, CodegenError>(CodegenError::InvalidShape) && *final(self)
                == *old(self),
            r is Ok ==> {
                let v = *r.unwrap();
                let f = named_of(v.fields);
                &&& v == (Variant { fields: v.fields, ..*old(self) })
                &&& v.fields is Named
                &&& f.len() == named_of(old(self).fields).len() + 1
                &&& f.drop_last() == named_of(old(self).fields)
                &&& f.last().name is Some && f.last().name.unwrap()@ == name@
                &&& type_text(f.last().ty) == ty@
                &&& f.last().docs.lines@.len() == 0 && f.last().attrs.attrs@.len() == 0
                &&& *final(self) == *final(r.unwrap())
            },
    {
        match self.fields.named(name, ty) {
            Ok(_) => Ok(self),
            Err(e) => Err(e),
        }
    }

    /// Adds a positional field. A variant with named fields takes no positional one.
    pub fn tuple(&mut self, ty: &str) -> (r: Result<&mut Self, CodegenError>)
        ensures
            r is Err <==> old(self).fields is Named,
            r is Err ==> r == Err::<&mut Self, CodegenError>(CodegenError::InvalidShape) && *final(self)
                == *old(self),
            r is Ok ==> {
                let v = *r.unwrap();
                &&& v == (Variant { fields: v.fields, ..*old(self) })
                &&& v.fields is Tuple
                &&& tuple_of(v.fields).len() == tuple_of(old(self).fields).len() + 1
                &&& tuple_of(v.fields).drop_last() == tuple_of(old(self).fields)
                &&& type_text(tuple_of(v.fields).last()) == ty@
                &&& *final(self) == *final(r.unwrap())
            },
    {
        match self.fields.tuple(ty) {
            Ok(_) => Ok(self),
            Err(e) => Err(e),
        }
    }

    /// Adds documentation lines.
    pub fn push_doc(&mut self, doc: &str) -> (r: &mut Self)
        ensures
            views(r.docs.lines@) == views(old(self).docs.lines@) + text_lines(doc@),
            *r == (Variant { docs: r.docs, ..*old(self) }),
            *final(self) == *final(r),
    {
        self.docs.push_doc(doc);
        self
    }

    /// Replaces the documentation.
    pub fn set_doc(&mut self, doc: &str) -> (r: &mut Self)
        ensures
            views(r.docs.lines@) == text_lines(doc@),
            *r == (Variant { docs: r.docs, ..*old(self) }),
            *final(self) == *final(r),
    {
        self.docs.set_doc(doc);
        self
    }

    /// Adds an attribute.
    pub fn push_attr(&mut self, attr: &str) -> (r: &mut Self)
        ensures
            pushed(r.attrs.attrs@, old(self).attrs.attrs@, attr@),
            *r == (Variant { attrs: r.attrs, ..*old(self) }),
            *final(self) == *final(r),
    {
        self.attrs.push_attr(attr);
        self
    }

    /// Writes the variant: documentation, attributes, name, fields, then `,`.
    pub fn fmt(&self, fmt: &mut Formatter)
        ensures
            final(fmt).indentation() == old(fmt).indentation(),
            final(fmt).text() == variant_out(*self, old(fmt).text(), old(fmt).indentation()),
    {
        let ghost b0 = fmt.text();
        let ghost ind = fmt.indentation();
        self.docs.fmt_docs(fmt);
        self.attrs.fmt_attrs(fmt);
        fmt.write_str(self.name.as_str());
        proof {
            lemma_put_concat(b0, ind, docs_text(self.docs.lines@), attrs_text(self.attrs.attrs@));
            lemma_put_concat(b0, ind, docs_text(self.docs.lines@) + attrs_text(self.attrs.attrs@), self.name@);
        }
        self.fields.fmt(fmt);
        fmt.write_str(",\n");
    }
}

} // verus!
