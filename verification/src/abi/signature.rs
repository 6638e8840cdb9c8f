//! The canonical text of types and of lists of types.

use crate::abi::text::{decimal_text, push_decimal};
use crate::abi::types::{lemma_type_models, type_models, SolType, TypeModel};
use vstd::prelude::*;
use vstd::string::*;

verus! {

/// The canonical text of a type: the word of a simple type, with its width
/// where it has one; the element's text and `[]`, or `[N]`, for an array;
/// the texts of the parts in round brackets for a tuple.
pub open spec fn type_text(ty: TypeModel) -> Seq<char>
    decreases ty, 0nat,
{
    match ty {
        TypeModel::Bool => "bool"@,
        TypeModel::Int(bits) => "int"@ + decimal_text(bits),
        TypeModel::Uint(bits) => "uint"@ + decimal_text(bits),
        TypeModel::FixedBytes(bytes) => "bytes"@ + decimal_text(bytes),
        TypeModel::Address => "address"@,
        TypeModel::Function => "function"@,
        TypeModel::Bytes => "bytes"@,
        TypeModel::String => "string"@,
        TypeModel::Array(elem) => type_text(*elem) + "[]"@,
        TypeModel::FixedArray(elem, len) => type_text(*elem) + "["@ + decimal_text(len) + "]"@,
        TypeModel::Tuple(types) => params_text(types),
    }
}

/// The texts of the first `n` types, with commas between them.
pub open spec fn listed_types(types: Seq<TypeModel>, n: nat) -> Seq<char>
    decreases types, n,
{
    if n == 0 || n > types.len() {
        Seq::empty()
    } else if n == 1 {
        type_text(types[0])
    } else {
        listed_types(types, (n - 1) as nat) + ","@ + type_text(types[n - 1])
    }
}

/// The texts of the types in round brackets, with commas between them.
pub open spec fn params_text(types: Seq<TypeModel>) -> Seq<char>
    decreases types, types.len() + 1,
{
    "("@ + listed_types(types, types.len()) + ")"@
}

/// The signature of a function: its name and the types of its inputs; where
/// it has outputs, a colon and their types behind that.
pub open spec fn signature_text(
    name: Seq<char>,
    inputs: Seq<TypeModel>,
    outputs: Seq<TypeModel>,
) -> Seq<char> {
    if outputs.len() == 0 {
        name + params_text(inputs)
    } else {
        name + params_text(inputs) + ":"@ + params_text(outputs)
    }
}

/// Appends the canonical text of a type.
pub fn push_type(ty: &SolType, out: &mut String)
    ensures
        final(out)@ == old(out)@ + type_text(ty@),
    decreases ty, 0nat,
{
    match ty {
        SolType::Bool => out.append("bool"),
        SolType::Int(bits) => {
            out.append("int");
            push_decimal(out, *bits);
            assert(out@ =~= old(out)@ + type_text(ty@));
        },
        SolType::Uint(bits) => {
            out.append("uint");
            push_decimal(out, *bits);
            assert(out@ =~= old(out)@ + type_text(ty@));
        },
        SolType::FixedBytes(bytes) => {
            out.append("bytes");
            push_decimal(out, *bytes);
            assert(out@ =~= old(out)@ + type_text(ty@));
        },
        SolType::Address => out.append("address"),
        SolType::Function => out.append("function"),
        SolType::Bytes => out.append("bytes"),
        SolType::String => out.append("string"),
        SolType::Array(elem) => {
            push_type(elem, out);
            out.append("[]");
            assert(out@ =~= old(out)@ + type_text(ty@));
        },
        SolType::FixedArray(elem, len) => {
            push_type(elem, out);
            out.append("[");
            push_decimal(out, *len);
            out.append("]");
            assert(out@ =~= old(out)@ + type_text(ty@));
        },
        SolType::Tuple(types) => {
            assert(decreases_to!(*ty => ty->Tuple_0));
            push_types(types, out);
        },
    }
}

/// Appends the texts of the types in round brackets, with commas between
/// them.
pub fn push_types(types: &Vec<SolType>, out: &mut String)
    ensures
        final(out)@ == old(out)@ + params_text(type_models(types@)),
    decreases types, 1nat,
{
    let ghost start = out@;
    let ghost models = type_models(types@);
    proof {
        lemma_type_models(types@);
    }
    out.append("(");
    assert(out@ =~= start + "("@ + listed_types(models, 0));
    let mut i: usize = 0;
    while i < types.len()
        invariant
            i <= types.len(),
            models == type_models(types@),
            models.len() == types.len(),
            forall|j: int| 0 <= j < types.len() ==> (#[trigger] models[j]) == types[j]@,
            out@ == start + "("@ + listed_types(models, i as nat),
        decreases types.len() - i,
    {
        if i > 0 {
            out.append(",");
        }
        push_type(&types[i], out);
        proof {
            assert(models[i as int] == types[i as int]@);
            assert(out@ =~= start + "("@ + listed_types(models, (i + 1) as nat));
        }
        i += 1;
    }
    out.append(")");
    assert(out@ =~= start + params_text(models));
}

} // verus!
