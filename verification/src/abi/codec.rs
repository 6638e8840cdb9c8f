//! The boundary to `alloy`: its types, what its encoder and decoder are
//! taken to return, and the conversions to and from its values.
//!
//! Nothing in this file is proved. Each item says which function of `alloy`
//! it stands for and what it claims of it.

use crate::abi::convert::{inside_values, outside_values, to_outside};
use crate::abi::types::{zero_sized, SolType, SolValue, TypeModel, ValueModel};
use crate::abi::value_ext::{each_matches_exactly, matches_exactly};
use alloy::dyn_abi::{DynSolCall, DynSolEvent, DynSolReturns, DynSolType, DynSolValue, Error};
use alloy::primitives::{Address, Function, Selector, B256, I256, U256};
use vstd::prelude::*;

verus! {

/// The types of `alloy`, of which nothing is seen but through `type_model`.
#[verifier::external_type_specification]
#[verifier::external_body]
pub struct ExOutsideType(alloy::dyn_abi::DynSolType);

/// The values of `alloy`, of which nothing is seen but through
/// `value_model`.
#[verifier::external_type_specification]
#[verifier::external_body]
pub struct ExOutsideValue(alloy::dyn_abi::DynSolValue);

/// The errors of `alloy`, which are carried and never looked into.
#[verifier::external_type_specification]
#[verifier::external_body]
pub struct ExOutsideError(alloy::dyn_abi::Error);

/// The type that an `alloy` type stands for.
pub uninterp spec fn type_model(ty: alloy::dyn_abi::DynSolType) -> TypeModel;

/// The value that an `alloy` value stands for: its words as 32 big-endian
/// bytes, its widths as they are.
pub uninterp spec fn value_model(value: alloy::dyn_abi::DynSolValue) -> ValueModel;

/// The bytes that `DynSolValue::abi_encode` gives for a value.
pub uninterp spec fn abi_encoded(value: ValueModel) -> Seq<u8>;

/// The value that `DynSolType::abi_decode` reads from bytes, if it reads one.
pub uninterp spec fn abi_decoded(ty: TypeModel, data: Seq<u8>) -> Option<ValueModel>;

/// The values that `DynSolCall::abi_decode_input` reads from bytes for the
/// parameter types of a call, if it reads them.
pub uninterp spec fn inputs_decoded(types: Seq<TypeModel>, data: Seq<u8>) -> Option<
    Seq<ValueModel>,
>;

/// The values that `DynSolCall::abi_decode_output` reads from bytes for the
/// return types of a call, if it reads them.
pub uninterp spec fn outputs_decoded(types: Seq<TypeModel>, data: Seq<u8>) -> Option<
    Seq<ValueModel>,
>;

/// The bytes that `DynSolCall::abi_encode_input` puts behind the selector for
/// a sequence of values.
pub uninterp spec fn params_encoded(values: Seq<ValueModel>) -> Seq<u8>;

/// What `DynSolEvent::decode_log_parts` reads from the topics and the data of
/// a log, if it reads it: the indexed values, then those of the body.
pub uninterp spec fn log_decoded(
    topic_0: Option<Seq<u8>>,
    indexed: Seq<TypeModel>,
    body: Seq<TypeModel>,
    topics: Seq<Seq<u8>>,
    data: Seq<u8>,
) -> Option<(Seq<ValueModel>, Seq<ValueModel>)>;

/// The Keccak-256 hash of a byte string.
pub uninterp spec fn keccak256_of(bytes: Seq<u8>) -> Seq<u8>;

/// The types that `alloy` types stand for, in order.
pub open spec fn type_models_of(types: Seq<alloy::dyn_abi::DynSolType>) -> Seq<TypeModel> {
    Seq::new(types.len(), |i: int| type_model(types[i]))
}

/// The values that `alloy` values stand for, in order.
pub open spec fn value_models_of(values: Seq<alloy::dyn_abi::DynSolValue>) -> Seq<ValueModel> {
    Seq::new(values.len(), |i: int| value_model(values[i]))
}

/// The byte strings of 32-byte words, in order.
pub open spec fn words(topics: Seq<[u8; 32]>) -> Seq<Seq<u8>> {
    Seq::new(topics.len(), |i: int| topics[i]@)
}

/// The bytes of a word, if there is one.
pub open spec fn word_of(word: Option<[u8; 32]>) -> Option<Seq<u8>> {
    match word {
        Some(w) => Some(w@),
        None => None,
    }
}

/// Whether there is one value for each type, with exactly its shape and
/// widths.
pub open spec fn accepted(values: Seq<ValueModel>, types: Seq<TypeModel>) -> bool {
    values.len() == types.len() && each_matches_exactly(values, types)
}

/// Whether there is one value for each type, and each value that stands at a
/// type that is not zero-sized has exactly that type's shape and widths.
pub open spec fn read_as(values: Seq<ValueModel>, types: Seq<TypeModel>) -> bool {
    values.len() == types.len() && forall|i: int|
        0 <= i < values.len() ==> (!zero_sized(types[i]) ==> matches_exactly(
            #[trigger] values[i],
            types[i],
        ))
}

/// Builds the `alloy` type with the same variant, the same widths and
/// lengths, and the parts built in the same way.
#[verifier::external_body]
pub(crate) fn outside_type(ty: &SolType) -> (o: DynSolType)
    ensures
        type_model(o) == ty@,
{
    match ty {
        SolType::Bool => DynSolType::Bool,
        SolType::Int(bits) => DynSolType::Int(*bits),
        SolType::Uint(bits) => DynSolType::Uint(*bits),
        SolType::FixedBytes(bytes) => DynSolType::FixedBytes(*bytes),
        SolType::Address => DynSolType::Address,
        SolType::Function => DynSolType::Function,
        SolType::Bytes => DynSolType::Bytes,
        SolType::String => DynSolType::String,
        SolType::Array(elem) => DynSolType::Array(Box::new(outside_type(elem))),
        SolType::FixedArray(elem, len) => DynSolType::FixedArray(Box::new(outside_type(elem)), *len),
        SolType::Tuple(types) => DynSolType::Tuple(types.iter().map(outside_type).collect()),
    }
}

/// Builds the `alloy` value with the same variant and the same data, for a
/// value that holds no 32-byte word. The items of a sequence go through
/// `outside_values`.
#[verifier::external_body]
pub(crate) fn outside_value(value: &SolValue) -> (o: DynSolValue)
    ensures
        value_model(o) == value@,
{
    match value {
        SolValue::Bool(b) => DynSolValue::Bool(*b),
        SolValue::Address(a) => DynSolValue::Address(Address::new(*a)),
        SolValue::Function(f) => DynSolValue::Function(Function::new(*f)),
        SolValue::Bytes(b) => DynSolValue::Bytes(b.clone()),
        SolValue::String(s) => DynSolValue::String(s.clone()),
        SolValue::Array(items) => DynSolValue::Array(outside_values(items)),
        SolValue::FixedArray(items) => DynSolValue::FixedArray(outside_values(items)),
        SolValue::Tuple(items) => DynSolValue::Tuple(outside_values(items)),
        word => to_outside(word),
    }
}

/// Builds the `alloy` value with the same variant and the same data, for a
/// value that holds a 32-byte word; a number goes through `from_be_bytes`.
#[verifier::external_body]
pub(crate) fn outside_word(value: &SolValue) -> (o: DynSolValue)
    ensures
        value_model(o) == value@,
{
    match value {
        SolValue::Int(word, bits) => DynSolValue::Int(I256::from_be_bytes(*word), *bits),
        SolValue::Uint(word, bits) => DynSolValue::Uint(U256::from_be_bytes(*word), *bits),
        SolValue::FixedBytes(word, bytes) => DynSolValue::FixedBytes(B256::new(*word), *bytes),
        other => to_outside(other),
    }
}

/// Reads an `alloy` value into the value with the same variant and the same
/// data; a number comes out through `to_be_bytes`. The items of a sequence
/// go through `inside_values`.
#[verifier::external_body]
pub(crate) fn inside_value(o: DynSolValue) -> (value: SolValue)
    ensures
        value@ == value_model(o),
{
    match o {
        DynSolValue::Bool(b) => SolValue::Bool(b),
        DynSolValue::Int(word, bits) => SolValue::Int(word.to_be_bytes(), bits),
        DynSolValue::Uint(word, bits) => SolValue::Uint(word.to_be_bytes(), bits),
        DynSolValue::FixedBytes(word, bytes) => SolValue::FixedBytes(word.0, bytes),
        DynSolValue::Address(a) => SolValue::Address(a.into_array()),
        DynSolValue::Function(f) => SolValue::Function(f.into_array()),
        DynSolValue::Bytes(b) => SolValue::Bytes(b),
        DynSolValue::String(s) => SolValue::String(s),
        DynSolValue::Array(items) => SolValue::Array(inside_values(items)),
        DynSolValue::FixedArray(items) => SolValue::FixedArray(inside_values(items)),
        DynSolValue::Tuple(items) => SolValue::Tuple(inside_values(items)),
    }
}

/// `DynSolValue::abi_encode`: the encoding is a function of the value.
pub assume_specification[ alloy::dyn_abi::DynSolValue::abi_encode ](
    value: &alloy::dyn_abi::DynSolValue,
) -> (bytes: Vec<u8>)
    ensures
        bytes@ == abi_encoded(value_model(*value)),
;

/// `DynSolType::abi_decode`: what is read is a function of the type and the
/// bytes. A value read for a type that is not zero-sized is built node by
/// node from the type, so it has exactly the type's shape and widths; for a
/// zero-sized type the decoder hands back an empty sequence without looking
/// at the type's parts.
pub assume_specification[ alloy::dyn_abi::DynSolType::abi_decode ](
    ty: &alloy::dyn_abi::DynSolType,
    data: &[u8],
) -> (r: Result<alloy::dyn_abi::DynSolValue, alloy::dyn_abi::Error>)
    ensures
        match r {
            Ok(v) => abi_decoded(type_model(*ty), data@) == Some(value_model(v)),
            Err(_) => abi_decoded(type_model(*ty), data@) is None,
        },
        r matches Ok(v) ==> (!zero_sized(type_model(*ty)) ==> matches_exactly(
            value_model(v),
            type_model(*ty),
        )),
;

/// `DynSolCall::abi_decode_input` on a call with the given parameter types.
/// The selector and the return types of the call play no part in it. It
/// reads one value for each type, each as `DynSolType::abi_decode` reads a
/// single value.
#[verifier::external_body]
pub(crate) fn call_decode_input(inputs: Vec<DynSolType>, data: &[u8]) -> (r: Result<
    Vec<DynSolValue>,
    Error,
>)
    ensures
        match r {
            Ok(vs) => inputs_decoded(type_models_of(inputs@), data@) == Some(
                value_models_of(vs@),
            ),
            Err(_) => inputs_decoded(type_models_of(inputs@), data@) is None,
        },
        r matches Ok(vs) ==> read_as(value_models_of(vs@), type_models_of(inputs@)),
{
    let outputs = DynSolReturns::new(Vec::new());
    DynSolCall::new(Selector::ZERO, inputs, None, outputs).abi_decode_input(data)
}

/// `DynSolCall::abi_decode_output` on a call with the given return types.
/// The selector and the parameter types of the call play no part in it. It
/// reads one value for each type, each as `DynSolType::abi_decode` reads a
/// single value.
#[verifier::external_body]
pub(crate) fn call_decode_output(outputs: Vec<DynSolType>, data: &[u8]) -> (r: Result<
    Vec<DynSolValue>,
    Error,
>)
    ensures
        match r {
            Ok(vs) => outputs_decoded(type_models_of(outputs@), data@) == Some(
                value_models_of(vs@),
            ),
            Err(_) => outputs_decoded(type_models_of(outputs@), data@) is None,
        },
        r matches Ok(vs) ==> read_as(value_models_of(vs@), type_models_of(outputs@)),
{
    let outputs = DynSolReturns::new(outputs);
    DynSolCall::new(Selector::ZERO, Vec::new(), None, outputs).abi_decode_output(data)
}

/// `DynSolCall::abi_encode_input` on a call with the given selector and
/// parameter types. It fails unless there is one value for each type and
/// each has exactly its type's shape and widths; then it gives the selector
/// and, behind it, the encoding of the values as a sequence.
#[verifier::external_body]
pub(crate) fn call_encode_input(
    selector: &[u8; 4],
    inputs: Vec<DynSolType>,
    values: &Vec<DynSolValue>,
) -> (r: Result<Vec<u8>, Error>)
    ensures
        match r {
            Ok(bytes) => accepted(value_models_of(values@), type_models_of(inputs@)) && bytes@
                == selector@ + params_encoded(value_models_of(values@)),
            Err(_) => !accepted(value_models_of(values@), type_models_of(inputs@)),
        },
{
    let outputs = DynSolReturns::new(Vec::new());
    DynSolCall::new(Selector::new(*selector), inputs, None, outputs).abi_encode_input(values)
}

/// `DynSolEvent::decode_log_parts` on an event with the given signature
/// hash, indexed types and body types, the body being their tuple: what is
/// read is a function of the event, the topics and the data.
#[verifier::external_body]
pub(crate) fn event_decode_log(
    topic_0: Option<[u8; 32]>,
    indexed: Vec<DynSolType>,
    body: Vec<DynSolType>,
    topics: &Vec<[u8; 32]>,
    data: &[u8],
) -> (r: Result<(Vec<DynSolValue>, Vec<DynSolValue>), Error>)
    ensures
        match r {
            Ok((i, b)) => log_decoded(
                word_of(topic_0),
                type_models_of(indexed@),
                type_models_of(body@),
                words(topics@),
                data@,
            ) == Some((value_models_of(i@), value_models_of(b@))),
            Err(_) => log_decoded(
                word_of(topic_0),
                type_models_of(indexed@),
                type_models_of(body@),
                words(topics@),
                data@,
            ) is None,
        },
{
    let event = DynSolEvent::new_unchecked(topic_0.map(B256::new), indexed, DynSolType::Tuple(body));
    let decoded = event.decode_log_parts(topics.iter().copied().map(B256::new), data);
    decoded.map(|d| (d.indexed, d.body))
}

/// `alloy::primitives::keccak256`: the hash is a function of the bytes.
#[verifier::external_body]
pub(crate) fn keccak256(bytes: &[u8]) -> (hash: [u8; 32])
    ensures
        hash@ == keccak256_of(bytes@),
{
    alloy::primitives::keccak256(bytes).0
}

} // verus!
