//! The schema-wide content digest: a 256-bit hash over every type and
//! function definition's identity, name, field names and field types,
//! computed by walking the schema in declaration order. Two parties comparing
//! this value can detect schema drift before exchanging any messages.

use crate::identify::{sha3_256, sha3_256_of};
use crate::parser::{Field, FieldV, FunctionDefinition, Schema, Type, TypeDefinition, TypeV};
use vstd::bytes::{spec_u32_to_le_bytes, u32_to_le_bytes};
use vstd::prelude::*;
use vstd::utf8::encode_utf8;

verus! {

/// The digest input contributed by one type expression: a tag byte per
/// constructor, the UTF-8 name for Defined references.
pub open spec fn spec_hash_type(t: TypeV) -> Seq<u8>
    decreases t,
{
    match t {
        TypeV::Int32 => seq![0u8],
        TypeV::Int64 => seq![1u8],
        TypeV::Float => seq![2u8],
        TypeV::Bool => seq![3u8],
        TypeV::String => seq![4u8],
        TypeV::Bytes => seq![5u8],
        TypeV::Time => seq![6u8],
        TypeV::Vector(inner) => seq![7u8] + spec_hash_type(*inner),
        TypeV::Option(inner) => seq![8u8] + spec_hash_type(*inner),
        TypeV::Defined(name) => encode_utf8(name),
    }
}

/// The digest input contributed by one field: its UTF-8 name, then its type.
pub open spec fn spec_hash_field(f: FieldV) -> Seq<u8> {
    encode_utf8(f.name) + spec_hash_type(f.typ)
}

/// The digest input of a field list, in declaration order.
pub open spec fn spec_hash_fields(fields: Seq<FieldV>) -> Seq<u8>
    decreases fields.len(),
{
    if fields.len() == 0 {
        Seq::empty()
    } else {
        spec_hash_fields(fields.drop_last()) + spec_hash_field(fields.last())
    }
}

/// The digest input of one type definition: identity, name, fields.
pub open spec fn spec_hash_type_def(d: crate::parser::TypeDefV) -> Seq<u8> {
    spec_u32_to_le_bytes(d.core.id) + encode_utf8(d.core.name) + spec_hash_fields(d.core.fields)
}

/// The digest input of one function definition: identity, name, fields,
/// return type.
pub open spec fn spec_hash_function_def(f: crate::parser::FunctionDefV) -> Seq<u8> {
    spec_u32_to_le_bytes(f.core.id) + encode_utf8(f.core.name) + spec_hash_fields(f.core.fields)
        + spec_hash_type(f.ret)
}

/// The digest input of a whole schema: all type definitions, then all
/// function definitions, in declaration order.
pub open spec fn spec_hash_type_defs(defs: Seq<crate::parser::TypeDefV>) -> Seq<u8>
    decreases defs.len(),
{
    if defs.len() == 0 {
        Seq::empty()
    } else {
        spec_hash_type_defs(defs.drop_last()) + spec_hash_type_def(defs.last())
    }
}

/// The digest input of the function definitions, in declaration order.
pub open spec fn spec_hash_function_defs(defs: Seq<crate::parser::FunctionDefV>) -> Seq<u8>
    decreases defs.len(),
{
    if defs.len() == 0 {
        Seq::empty()
    } else {
        spec_hash_function_defs(defs.drop_last()) + spec_hash_function_def(defs.last())
    }
}

/// The digest input of a whole schema.
pub open spec fn spec_hash_schema(s: crate::parser::SchemaV) -> Seq<u8> {
    spec_hash_type_defs(s.types) + spec_hash_function_defs(s.functions)
}

impl Type {
    /// Append this type's digest input.
    pub fn hash(&self, acc: &mut Vec<u8>)
        ensures
            final(acc)@ == old(acc)@ + spec_hash_type(self@),
        decreases self,
    {
        match self {
            Type::Int32 => acc.push(0),
            Type::Int64 => acc.push(1),
            Type::Float => acc.push(2),
            Type::Bool => acc.push(3),
            Type::String => acc.push(4),
            Type::Bytes => acc.push(5),
            Type::Time => acc.push(6),
            Type::Vector(inner) => {
                acc.push(7);
                inner.hash(acc);
                proof {
                    assert(self@ == TypeV::Vector(Box::new(inner@)));
                }
            },
            Type::Option(inner) => {
                acc.push(8);
                inner.hash(acc);
                proof {
                    assert(self@ == TypeV::Option(Box::new(inner@)));
                }
            },
            Type::Defined(name) => {
                let mut bytes = vstd::slice::slice_to_vec(name.as_str().as_bytes());
                acc.append(&mut bytes);
            },
        }
        proof {
            assert(acc@ =~= old(acc)@ + spec_hash_type(self@));
        }
    }
}

impl Field {
    /// Append this field's digest input.
    pub fn hash(&self, acc: &mut Vec<u8>)
        ensures
            final(acc)@ == old(acc)@ + spec_hash_field(self@),
    {
        let mut bytes = vstd::slice::slice_to_vec(self.name.as_str().as_bytes());
        acc.append(&mut bytes);
        self.typ.hash(acc);
        proof {
            assert(acc@ =~= old(acc)@ + spec_hash_field(self@));
        }
    }
}

impl TypeDefinition {
    /// Append this definition's digest input.
    #[verifier::loop_isolation(false)]
    pub fn hash(&self, acc: &mut Vec<u8>)
        ensures
            final(acc)@ == old(acc)@ + spec_hash_type_def(self@),
    {
        let mut id_bytes = u32_to_le_bytes(self.core.id);
        acc.append(&mut id_bytes);
        let mut name_bytes = vstd::slice::slice_to_vec(self.core.name.as_str().as_bytes());
        acc.append(&mut name_bytes);
        hash_fields(&self.core.fields, acc);
        proof {
            assert(acc@ =~= old(acc)@ + spec_hash_type_def(self@));
        }
    }
}

impl FunctionDefinition {
    /// Append this definition's digest input.
    #[verifier::loop_isolation(false)]
    pub fn hash(&self, acc: &mut Vec<u8>)
        ensures
            final(acc)@ == old(acc)@ + spec_hash_function_def(self@),
    {
        let mut id_bytes = u32_to_le_bytes(self.core.id);
        acc.append(&mut id_bytes);
        let mut name_bytes = vstd::slice::slice_to_vec(self.core.name.as_str().as_bytes());
        acc.append(&mut name_bytes);
        hash_fields(&self.core.fields, acc);
        self.ret.hash(acc);
        proof {
            assert(acc@ =~= old(acc)@ + spec_hash_function_def(self@));
        }
    }
}

/// Append the digest input of a field list.
#[verifier::loop_isolation(false)]
fn hash_fields(fields: &Vec<Field>, acc: &mut Vec<u8>)
    ensures
        final(acc)@ == old(acc)@ + spec_hash_fields(crate::parser::fields_view(fields@)),
{
    let ghost fv = crate::parser::fields_view(fields@);
    let mut i: usize = 0;
    let n = fields.len();
    proof {
        assert(acc@ =~= old(acc)@ + spec_hash_fields(fv.take(0)));
    }
    while i < n
        invariant
            i <= n == fields@.len(),
            acc@ == old(acc)@ + spec_hash_fields(fv.take(i as int)),
        decreases n - i,
    {
        fields[i].hash(acc);
        i = i + 1;
        proof {
            assert(fv.take(i as int).drop_last() =~= fv.take(i - 1));
            assert(fv.take(i as int).last() == fv[i - 1]);
            assert(acc@ =~= old(acc)@ + spec_hash_fields(fv.take(i as int)));
        }
    }
    proof {
        assert(fv.take(n as int) =~= fv);
    }
}

impl Schema {
    /// Append this schema's digest input: types, then functions.
    #[verifier::loop_isolation(false)]
    pub fn hash(&self, acc: &mut Vec<u8>)
        ensures
            final(acc)@ == old(acc)@ + spec_hash_schema(self@),
    {
        let ghost tv = self@.types;
        let ghost fv = self@.functions;
        let mut i: usize = 0;
        let nt = self.types.len();
        proof {
            assert(acc@ =~= old(acc)@ + spec_hash_type_defs(tv.take(0)));
        }
        while i < nt
            invariant
                i <= nt == self.types@.len(),
                acc@ == old(acc)@ + spec_hash_type_defs(tv.take(i as int)),
            decreases nt - i,
        {
            self.types[i].hash(acc);
            i = i + 1;
            proof {
                assert(tv.take(i as int).drop_last() =~= tv.take(i - 1));
                assert(tv.take(i as int).last() == tv[i - 1]);
                assert(acc@ =~= old(acc)@ + spec_hash_type_defs(tv.take(i as int)));
            }
        }
        proof {
            assert(tv.take(nt as int) =~= tv);
        }
        let ghost mark = acc@;
        let mut j: usize = 0;
        let nf = self.functions.len();
        proof {
            assert(acc@ =~= mark + spec_hash_function_defs(fv.take(0)));
        }
        while j < nf
            invariant
                j <= nf == self.functions@.len(),
                acc@ == mark + spec_hash_function_defs(fv.take(j as int)),
            decreases nf - j,
        {
            self.functions[j].hash(acc);
            j = j + 1;
            proof {
                assert(fv.take(j as int).drop_last() =~= fv.take(j - 1));
                assert(fv.take(j as int).last() == fv[j - 1]);
                assert(acc@ =~= mark + spec_hash_function_defs(fv.take(j as int)));
            }
        }
        proof {
            assert(fv.take(nf as int) =~= fv);
            assert(acc@ =~= old(acc)@ + spec_hash_schema(self@));
        }
    }
}

/// The schema-wide content digest: the SHA3-256 hash of the schema's digest
/// input.
pub fn schema_digest(schema: &Schema) -> (r: Vec<u8>)
    ensures
        r@ == sha3_256_of(spec_hash_schema(schema@)),
        r@.len() == 32,
{
    let mut acc: Vec<u8> = Vec::new();
    schema.hash(&mut acc);
    proof {
        assert(acc@ =~= spec_hash_schema(schema@));
    }
    sha3_256(acc.as_slice())
}

} // verus!
