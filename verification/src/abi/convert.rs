//! Sequences of types and values on their way to and from `alloy`.

use crate::abi::codec::{
    inside_value, outside_type, outside_value, outside_word, type_model, type_models_of,
    value_model, value_models_of,
};
use crate::abi::descriptor::{param_types, Param};
use crate::abi::types::{lemma_value_models, value_models, SolValue};
use alloy::dyn_abi::{DynSolType, DynSolValue};
use vstd::prelude::*;

verus! {

/// The `alloy` types of the parameters, in order.
pub(crate) fn outside_param_types(params: &[Param]) -> (r: Vec<DynSolType>)
    ensures
        type_models_of(r@) == param_types(params@),
{
    let mut types: Vec<DynSolType> = Vec::new();
    let mut i: usize = 0;
    while i < params.len()
        invariant
            i <= params@.len(),
            types@.len() == i,
            forall|j: int| 0 <= j < i ==> type_model(#[trigger] types@[j]) == params@[j].ty@,
        decreases params@.len() - i,
    {
        types.push(outside_type(&params[i].ty));
        i += 1;
    }
    assert(type_models_of(types@) =~= param_types(params@));
    types
}

/// The `alloy` value of a value.
pub(crate) fn to_outside(value: &SolValue) -> (o: DynSolValue)
    ensures
        value_model(o) == value@,
{
    match value {
        SolValue::Int(..) | SolValue::Uint(..) | SolValue::FixedBytes(..) => outside_word(value),
        _ => outside_value(value),
    }
}

/// The `alloy` values of the values, in order.
pub(crate) fn outside_values(values: &[SolValue]) -> (r: Vec<DynSolValue>)
    ensures
        value_models_of(r@) == value_models(values@),
{
    proof {
        lemma_value_models(values@);
    }
    let mut converted: Vec<DynSolValue> = Vec::new();
    let mut i: usize = 0;
    while i < values.len()
        invariant
            i <= values@.len(),
            converted@.len() == i,
            forall|j: int| 0 <= j < i ==> value_model(#[trigger] converted@[j]) == values@[j]@,
        decreases values@.len() - i,
    {
        converted.push(to_outside(&values[i]));
        i += 1;
    }
    assert(value_models_of(converted@) =~= value_models(values@));
    converted
}

/// The values that the `alloy` values stand for, in order.
pub(crate) fn inside_values(values: Vec<DynSolValue>) -> (r: Vec<SolValue>)
    ensures
        value_models(r@) == value_models_of(values@),
{
    let ghost models = value_models_of(values@);
    let mut converted: Vec<SolValue> = Vec::with_capacity(values.len());
    for value in it: values.into_iter()
        invariant
            value_models_of(it.seq()) == models,
            converted@.len() == it.index(),
            forall|j: int| 0 <= j < it.index() ==> converted@[j]@ == models[j],
    {
        let ghost at = converted@.len() as int;
        assert(models[at] == value_model(it.seq()[at]));
        converted.push(inside_value(value));
    }
    proof {
        lemma_value_models(converted@);
        assert(value_models(converted@) =~= models);
    }
    converted
}

} // verus!
