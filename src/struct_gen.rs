use vstd::prelude::*;
use crate::bounds::Bound;
use crate::error::CodegenError;
use crate::field::Field;
use crate::fields::{Fields, fields_out, named_of, tuple_of};
use crate::formatter::{put, Formatter};
use crate::generics::type_text;
use crate::type_def::{
    Type, TypeDef, head_text, derive_added, derives_added, allow_added, repr_set, doc_added, doc_set,
    attr_added, generic_added, generics_added, bound_added, bounds_added,
};
use crate::vis::Vis;

verus! {

/// The buffer after writing the struct at indentation `ind`: its header, its fields,
/// and `;` with a newline unless the fields are named.
pub open spec fn struct_out(s: Struct, buf: Seq<char>, ind: nat) -> Seq<char> {
    let b = fields_out(s.fields, put(buf, ind, head_text(s.type_def, "struct"@, Seq::empty())), ind);
    if s.fields is Named {
        b
    } else {
        put(b, ind, ";\n"@)
    }
}

/// `s` is a private struct named `name` with nothing else set.
pub open spec fn is_new_struct(s: Struct, name: Seq<char>) -> bool {
    &&& s.type_def.ty.name@ == name
    &&& type_text(s.type_def.ty) == name
    &&& s.type_def.vis == Vis::Private
    &&& s.type_def.docs.lines@.len() == 0
    &&& s.type_def.derive@.len() == 0
    &&& s.type_def.allow@.len() == 0
    &&& s.type_def.repr is None
    &&& s.type_def.bounds.bounds@.len() == 0
    &&& s.type_def.attrs.attrs@.len() == 0
    &&& s.fields is Empty
}

/// A struct definition.
#[derive(Debug)]
pub struct Struct {
    pub type_def: TypeDef,
    pub fields: Fields,
}

impl Struct {
    /// A private struct with the given name and no fields.
    pub fn new(name: &str) -> (r: Self)
        ensures
            is_new_struct(r, name@),
    {
        Struct { type_def: TypeDef::new(name), fields: Fields::Empty }
    }

    /// Adds a named field. A struct with positional fields takes no named one.
    pub fn push_field(&mut self, field: Field) -> (r: Result<&mut Self, CodegenError>)
        ensures
            r is Err <==> old(self).fields is Tuple,
            r is Err ==> r == Err::<&mut Self, CodegenError>(CodegenError::InvalidShape) && *final(self)
                == *old(self),
            r is Ok ==> {
                let s = *r.unwrap();
                &&& s.type_def == old(self).type_def
                &&& s.fields is Named
                &&& named_of(s.fields) == named_of(old(self).fields).push(field)
                &&& *final(self) == *final(r.unwrap())
            },
    {
        match self.fields.push_named(field) {
            Ok(_) => Ok(self),
            Err(e) => Err(e),
        }
    }

    /// Adds a named field with the given name and type name. A struct with
    /// positional fields takes no named one.
    pub fn field(&mut self, name: &str, ty: &str) -> (r: Result<&mut Self, CodegenError>)
        ensures
            r is Err <==> old(self).fields is Tuple,
            r is Err ==> r == Err::<&mut Self, CodegenError>(CodegenError::InvalidShape) && *final(self)
                == *old(self),
            r is Ok ==> {
                let s = *r.unwrap();
                let f = named_of(s.fields);
                &&& s.type_def == old(self).type_def
                &&& s.fields is Named
                &&& f.len() == named_of(old(self).fields).len() + 1
                &&& f.drop_last() == named_of(old(self).fields)
                &&& f.last().name is Some && f.last().name.unwrap()@ == name@
                &&& type_text(f.last().ty) == ty@
                &&& f.last().docs.lines@.len() == 0 && f.last().attrs.attrs@.len() == 0
                &&& *final(self) == *final(r.unwrap())
            },
    {
        match self.fields.named(name, ty) {
            Ok(_) => Ok(self),
            Err(e) => Err(e),
        }
    }

    /// Adds a positional field with the given type name. A struct with named fields
    /// takes no positional one.
    pub fn tuple_field(&mut self, ty: &str) -> (r: Result<&mut Self, CodegenError>)
        ensures
            r is Err <==> old(self).fields is Named,
            r is Err ==> r == Err::<&mut Self, CodegenError>(CodegenError::InvalidShape) && *final(self)
                == *old(self),
            r is Ok ==> {
                let s = *r.unwrap();
                &&& s.type_def == old(self).type_def
                &&& s.fields is Tuple
                &&& tuple_of(s.fields).len() == tuple_of(old(self).fields).len() + 1
                &&& tuple_of(s.fields).drop_last() == tuple_of(old(self).fields)
                &&& type_text(tuple_of(s.fields).last()) == ty@
                &&& *final(self) == *final(r.unwrap())
            },
    {
        match self.fields.tuple(ty) {
            Ok(_) => Ok(self),
            Err(e) => Err(e),
        }
    }

    /// Adds a derive.
    pub fn derive(&mut self, name: &str) -> (r: &mut Self)
        ensures
            derive_added(r.type_def, old(self).type_def, name@),
            *r == (Struct { type_def: r.type_def, ..*old(self) }),
            *final(self) == *final(r),
    {
        self.type_def.derive(name);
        self
    }

    /// Adds derives, in order.
    pub fn derive_many(&mut self, names: &[&str]) -> (r: &mut Self)
        ensures
            derives_added(r.type_def, old(self).type_def, names@),
            *r == (Struct { type_def: r.type_def, ..*old(self) }),
            *final(self) == *final(r),
    {
        self.type_def.derive_many(names);
        self
    }

    /// Adds a lint allow.
    pub fn allow(&mut self, lint: &str) -> (r: &mut Self)
        ensures
            allow_added(r.type_def, old(self).type_def, lint@),
            *r == (Struct { type_def: r.type_def, ..*old(self) }),
            *final(self) == *final(r),
    {
        self.type_def.allow(lint);
        self
    }

    /// Sets the representation.
    pub fn repr(&mut self, repr: &str) -> (r: &mut Self)
        ensures
            repr_set(r.type_def, old(self).type_def, repr@),
            *r == (Struct { type_def: r.type_def, ..*old(self) }),
            *final(self) == *final(r),
    {
        self.type_def.repr(repr);
        self
    }

    /// Adds documentation lines.
    pub fn push_doc(&mut self, doc: &str) -> (r: &mut Self)
        ensures
            doc_added(r.type_def, old(self).type_def, doc@),
            *r == (Struct { type_def: r.type_def, ..*old(self) }),
            *final(self) == *final(r),
    {
        self.type_def.push_doc(doc);
        self
    }

    /// Replaces the documentation.
    pub fn set_doc(&mut self, doc: &str) -> (r: &mut Self)
        ensures
            doc_set(r.type_def, old(self).type_def, doc@),
            *r == (Struct { type_def: r.type_def, ..*old(self) }),
            *final(self) == *final(r),
    {
        self.type_def.set_doc(doc);
        self
    }

    /// Adds an attribute.
    pub fn push_attr(&mut self, attr: &str) -> (r: &mut Self)
        ensures
            attr_added(r.type_def, old(self).type_def, attr@),
            *r == (Struct { type_def: r.type_def, ..*old(self) }),
            *final(self) == *final(r),
    {
        self.type_def.push_attr(attr);
        self
    }

    /// Sets the visibility.
    pub fn set_vis(&mut self, vis: Vis) -> (r: &mut Self)
        ensures
            r.type_def == (TypeDef { vis, ..old(self).type_def }),
            *r == (Struct { type_def: r.type_def, ..*old(self) }),
            *final(self) == *final(r),
    {
        self.type_def.set_vis(vis);
        self
    }

    /// Adds a type parameter.
    pub fn push_generic(&mut self, generic: &str) -> (r: &mut Self)
        ensures
            generic_added(r.type_def, old(self).type_def, generic@),
            *r == (Struct { type_def: r.type_def, ..*old(self) }),
            *final(self) == *final(r),
    {
        self.type_def.push_generic(generic);
        self
    }

    /// Adds type parameters, in order.
    pub fn extend_generics(&mut self, generics: &[&str]) -> (r: &mut Self)
        ensures
            generics_added(r.type_def, old(self).type_def, generics@),
            *r == (Struct { type_def: r.type_def, ..*old(self) }),
            *final(self) == *final(r),
    {
        self.type_def.extend_generics(generics);
        self
    }

    /// Adds a bound to the `where` clause.
    pub fn push_bound(&mut self, bound: Bound) -> (r: &mut Self)
        ensures
            bound_added(r.type_def, old(self).type_def, bound),
            *r == (Struct { type_def: r.type_def, ..*old(self) }),
            *final(self) == *final(r),
    {
        self.type_def.push_bound(bound);
        self
    }

    /// Adds bounds to the `where` clause, in order.
    pub fn extend_bounds(&mut self, bounds: Vec<Bound>) -> (r: &mut Self)
        ensures
            bounds_added(r.type_def, old(self).type_def, bounds@),
            *r == (Struct { type_def: r.type_def, ..*old(self) }),
            *final(self) == *final(r),
    {
        self.type_def.extend_bounds(bounds);
        self
    }

    /// Writes the struct: header, fields, and `;` unless the fields are named.
    pub fn fmt(&self, fmt: &mut Formatter)
        ensures
            final(fmt).indentation() == old(fmt).indentation(),
            final(fmt).text() == struct_out(*self, old(fmt).text(), old(fmt).indentation()),
    {
        let no_parents: Vec<Type> = Vec::new();
        proof { assert(no_parents@ =~= Seq::<Type>::empty()); }
        self.type_def.fmt_head("struct", no_parents.as_slice(), fmt);
        self.fields.fmt(fmt);
        match self.fields {
            Fields::Named(_) => {},
            _ => {
                fmt.write_str(";\n");
            },
        }
    }
}

} // verus!
