use vstd::prelude::*;
use crate::error::CodegenError;
use crate::field::{Field, field_text};
use crate::formatter::{put, deeper, open_block, close_block, Formatter, lemma_put_concat};
use crate::generics::{type_text, types_text};
use crate::type_def::Type;

verus! {

/// The field lines, one after another.
pub open spec fn field_lines(fs: Seq<Field>) -> Seq<char>
    decreases fs.len(),
{
    if fs.len() == 0 {
        Seq::empty()
    } else {
        field_lines(fs.drop_last()) + field_text(fs.last())
    }
}

/// The named fields held: none unless the fields are named.
pub open spec fn named_of(f: Fields) -> Seq<Field> {
    match f {
        Fields::Named(v) => v@,
        _ => Seq::empty(),
    }
}

/// The positional fields held: none unless the fields are positional.
pub open spec fn tuple_of(f: Fields) -> Seq<Type> {
    match f {
        Fields::Tuple(v) => v@,
        _ => Seq::empty(),
    }
}

/// The buffer after writing the fields at indentation `ind`: nothing when empty,
/// `(T1, T2)` when positional, and a block with one line per field when named.
pub open spec fn fields_out(f: Fields, buf: Seq<char>, ind: nat) -> Seq<char> {
    match f {
        Fields::Empty => buf,
        Fields::Tuple(ts) => put(buf, ind, "("@ + types_text(ts@) + ")"@),
        Fields::Named(fs) => close_block(put(open_block(buf, ind), deeper(ind), field_lines(fs@)), ind),
    }
}

/// The fields of a struct or variant: none, positional, or named. Once positional
/// or named, they stay so.
#[derive(Debug)]
pub enum Fields {
    /// No fields.
    Empty,
    /// Positional fields.
    Tuple(Vec<Type>),
    /// Named fields.
    Named(Vec<Field>),
}

impl Fields {
    /// Adds a named field and hands it out for further changes. Positional fields
    /// take no named one.
    pub fn add_named(&mut self, name: &str, ty: &str) -> (r: Result<&mut Field, CodegenError>)
        ensures
            r is Err <==> *old(self) is Tuple,
            r is Err ==> r == Err::<&mut Field, CodegenError>(CodegenError::InvalidShape) && *final(self)
                == *old(self),
            r is Ok ==> {
                let f = *r.unwrap();
                &&& f.name is Some && f.name.unwrap()@ == name@
                &&& type_text(f.ty) == ty@
                &&& f.docs.lines@.len() == 0 && f.attrs.attrs@.len() == 0
                &&& *final(self) is Named
                &&& named_of(*final(self)) == named_of(*old(self)).push(*final(r.unwrap()))
            },
    {
        match self {
            Fields::Tuple(_) => Err(CodegenError::InvalidShape),
            Fields::Empty => {
                let mut v = Vec::new();
                v.push(Field::new_named(name, ty));
                *self = Fields::Named(v);
                match self {
                    Fields::Named(v) => {
                        let f = &mut v[0];
                        Ok(f)
                    },
                    _ => Err(CodegenError::InvalidShape),
                }
            },
            Fields::Named(v) => {
                v.push(Field::new_named(name, ty));
                let n = v.len() - 1;
                Ok(&mut v[n])
            },
        }
    }

    /// Adds a positional field with the given type name. Named fields take no
    /// positional one.
    pub fn add_tuple(&mut self, ty: &str) -> (r: Result<&mut Self, CodegenError>)
        ensures
            r is Err <==> *old(self) is Named,
            r is Err ==> r == Err::<&mut Self, CodegenError>(CodegenError::InvalidShape) && *final(self)
                == *old(self),
            r is Ok ==> {
                let f = *r.unwrap();
                &&& f is Tuple
                &&& tuple_of(f).len() == tuple_of(*old(self)).len() + 1
                &&& tuple_of(f).drop_last() == tuple_of(*old(self))
                &&& type_text(tuple_of(f).last()) == ty@
                &&& *final(self) == *final(r.unwrap())
            },
    {
        self.tuple(ty)
    }

    /// Adds a named field. Positional fields take no named one.
    pub fn push_named(&mut self, field: Field) -> (r: Result<&mut Self, CodegenError>)
        ensures
            r is Err <==> *old(self) is Tuple,
            r is Err ==> r == Err::<&mut Self, CodegenError>(CodegenError::InvalidShape) && *final(self)
                == *old(self),
            r is Ok ==> {
                let f = *r.unwrap();
                &&& f is Named
                &&& named_of(f) == named_of(*old(self)).push(field)
                &&& *final(self) == *final(r.unwrap())
            },
    {
        match self {
            Fields::Tuple(_) => {
                return Err(CodegenError::InvalidShape);
            },
            Fields::Empty => {
                let mut v = Vec::new();
                v.push(field);
                assert(v@ =~= Seq::<Field>::empty().push(field));
                *self = Fields::Named(v);
            },
            Fields::Named(v) => {
                v.push(field);
            },
        }
        Ok(self)
    }

    /// Adds a named field with the given name and type name. Positional fields take
    /// no named one.
    pub fn named(&mut self, name: &str, ty: &str) -> (r: Result<&mut Self, CodegenError>)
        ensures
            r is Err <==> *old(self) is Tuple,
            r is Err ==> r == Err::<&mut Self, CodegenError>(CodegenError::InvalidShape) && *final(self)
                == *old(self),
            r is Ok ==> {
                let f = *r.unwrap();
                &&& f is Named
                &&& named_of(f).len() == named_of(*old(self)).len() + 1
                &&& named_of(f).drop_last() == named_of(*old(self))
                &&& named_of(f).last().name is Some
                &&& named_of(f).last().name.unwrap()@ == name@
                &&& type_text(named_of(f).last().ty) == ty@
                &&& named_of(f).last().docs.lines@.len() == 0
                &&& named_of(f).last().attrs.attrs@.len() == 0
                &&& *final(self) == *final(r.unwrap())
            },
    {
        self.push_named(Field::new_named(name, ty))
    }

    /// Adds a positional field with the given type name. Named fields take no
    /// positional one.
    pub fn tuple(&mut self, ty: &str) -> (r: Result<&mut Self, CodegenError>)
        ensures
            r is Err <==> *old(self) is Named,
            r is Err ==> r == Err::<&mut Self, CodegenError>(CodegenError::InvalidShape) && *final(self)
                == *old(self),
            r is Ok ==> {
                let f = *r.unwrap();
                &&& f is Tuple
                &&& tuple_of(f).len() == tuple_of(*old(self)).len() + 1
                &&& tuple_of(f).drop_last() == tuple_of(*old(self))
                &&& type_text(tuple_of(f).last()) == ty@
                &&& *final(self) == *final(r.unwrap())
            },
    {
        match self {
            Fields::Named(_) => {
                return Err(CodegenError::InvalidShape);
            },
            Fields::Empty => {
                let mut v = Vec::new();
                v.push(Type::new(ty));
                *self = Fields::Tuple(v);
            },
            Fields::Tuple(v) => {
                v.push(Type::new(ty));
                assert(v@.drop_last() =~= tuple_of(*old(self)));
            },
        }
        Ok(self)
    }

    /// Writes the fields: nothing, `(T1, T2)`, or a block of named fields.
    pub fn fmt(&self, fmt: &mut Formatter)
        ensures
            final(fmt).indentation() == old(fmt).indentation(),
            final(fmt).text() == fields_out(*self, old(fmt).text(), old(fmt).indentation()),
    {
        let ghost b0 = fmt.text();
        let ghost ind = fmt.indentation();
        match self {
            Fields::Empty => {},
            Fields::Tuple(tys) => {
                fmt.write_str("(");
                let mut i: usize = 0;
                while i < tys.len()
                    invariant
                        0 <= i <= tys@.len(),
                        fmt.indentation() == ind,
                        fmt.text() == put(b0, ind, "("@ + types_text(tys@.subrange(0, i as int))),
                    decreases tys.len() - i,
                {
                    let ghost pre = tys@.subrange(0, i as int);
                    let ghost nxt = tys@.subrange(0, i + 1);
                    assert(nxt.drop_last() =~= pre);
                    if i > 0 {
                        fmt.write_str(", ");
                        proof { lemma_put_concat(b0, ind, "("@ + types_text(pre), ", "@); }
                    }
                    let ghost mid = if i > 0 { "("@ + types_text(pre) + ", "@ } else { "("@ + types_text(pre) };
                    tys[i].fmt(fmt);
                    proof {
                        lemma_put_concat(b0, ind, mid, type_text(tys@[i as int]));
                        if i == 0 {
                            assert(types_text(pre) =~= Seq::<char>::empty());
                            assert(mid + type_text(tys@[0]) =~= "("@ + types_text(nxt));
                        } else {
                            assert(mid + type_text(tys@[i as int]) =~= "("@ + types_text(nxt));
                        }
                    }
                    i = i + 1;
                }
                assert(tys@.subrange(0, tys@.len() as int) =~= tys@);
                fmt.write_str(")");
                proof { lemma_put_concat(b0, ind, "("@ + types_text(tys@), ")"@); }
            },
            Fields::Named(fields) => {
                let saved = fmt.block();
                let ghost b1 = fmt.text();
                let ghost inner = fmt.indentation();
                let mut i: usize = 0;
                while i < fields.len()
                    invariant
                        0 <= i <= fields@.len(),
                        fmt.indentation() == inner,
                        fmt.text() == put(b1, inner, field_lines(fields@.subrange(0, i as int))),
                    decreases fields.len() - i,
                {
                    let ghost pre = fields@.subrange(0, i as int);
                    assert(fields@.subrange(0, i + 1).drop_last() =~= pre);
                    fields[i].fmt_field(fmt);
                    proof { lemma_put_concat(b1, inner, field_lines(pre), field_text(fields@[i as int])); }
                    i = i + 1;
                }
                assert(fields@.subrange(0, fields@.len() as int) =~= fields@);
                fmt.end_block(saved);
            },
        }
    }
}

} // verus!
