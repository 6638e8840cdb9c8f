//! Signatures of functions, and the encoding and decoding of their calls.

use crate::abi::codec::{
    abi_decoded, abi_encoded, accepted, call_decode_input, call_decode_output,
    call_encode_input, inputs_decoded, inside_value, keccak256, keccak256_of, outputs_decoded,
    outside_type, params_encoded, read_as,
};
use crate::abi::convert::{inside_values, outside_param_types, outside_values, to_outside};
use crate::abi::descriptor::{param_types, Function, Param};
use crate::abi::error::{AbiError, ErrorKind};
use crate::abi::signature::{listed_types, params_text, push_type, signature_text};
use crate::abi::types::{
    lemma_value_models, value_models, zero_sized, SolType, SolValue, TypeModel, ValueModel,
};
use crate::abi::value_ext::{
    each_matches_exactly, lemma_exact_type_checks, lemma_other_kind_never_checks,
    matches_exactly, type_checks, DynSolValueExt,
};
use std::borrow::Cow;
use vstd::prelude::*;
use vstd::string::*;
use vstd::utf8::encode_utf8;

verus! {

/// What reconciling a value with a type gives: the value itself where it has
/// exactly the type's shape and widths; a mismatch where it cannot stand for
/// the type; else what the decoder reads for the type from the value's own
/// encoding.
pub open spec fn reconciled(value: ValueModel, ty: TypeModel) -> Result<ValueModel, ErrorKind> {
    if matches_exactly(value, ty) {
        Ok(value)
    } else if !type_checks(value, ty) {
        Err(ErrorKind::TypeMismatch)
    } else {
        match abi_decoded(ty, abi_encoded(value)) {
            Some(decoded) => Ok(decoded),
            None => Err(ErrorKind::Decode),
        }
    }
}

/// A value of one kind never reconciles with a type of another: that is a
/// mismatch.
pub proof fn lemma_other_kind_is_mismatch(value: ValueModel, ty: TypeModel)
    requires
        value.kind() != ty.kind(),
    ensures
        reconciled(value, ty) == Err::<ValueModel, ErrorKind>(ErrorKind::TypeMismatch),
{
    lemma_other_kind_never_checks(value, ty);
}

/// Reconciling fails with a mismatch on exactly the values that cannot stand
/// for the type. A value that has the type's shape and widths already comes
/// back as it is; any other failure is the decoder's.
pub proof fn lemma_reconciled_outcomes(value: ValueModel, ty: TypeModel)
    ensures
        reconciled(value, ty) == Err::<ValueModel, ErrorKind>(ErrorKind::TypeMismatch)
            <==> !type_checks(value, ty),
        matches_exactly(value, ty) ==> reconciled(value, ty) == Ok::<ValueModel, ErrorKind>(value),
        reconciled(value, ty) matches Err(kind) ==> kind == ErrorKind::TypeMismatch || kind
            == ErrorKind::Decode,
{
    if matches_exactly(value, ty) {
        lemma_exact_type_checks(value, ty);
    }
}

/// Reconciling is idempotent wherever its result has the shape and the
/// widths of the type: reconciling the result again gives the same result.
pub proof fn lemma_reconcile_idempotent(value: ValueModel, ty: TypeModel)
    requires
        reconciled(value, ty) is Ok,
        matches_exactly(reconciled(value, ty)->Ok_0, ty),
    ensures
        reconciled(reconciled(value, ty)->Ok_0, ty) == reconciled(value, ty),
{
}

/// Brings a value to the widths of a type.
///
/// A value that has them already is handed back as it is. One that can
/// stand for the type is encoded and decoded again as the type says. Any
/// other value is a mismatch.
pub fn fix_type_size<'a>(ty: &SolType, val: &'a SolValue) -> (r: Result<
    Cow<'a, SolValue>,
    AbiError,
>)
    ensures
        match r {
            Ok(fixed) => {
                &&& reconciled(val@, ty@) == Ok::<ValueModel, ErrorKind>(fixed@)
                &&& (fixed is Borrowed) == matches_exactly(val@, ty@)
                &&& fixed matches Cow::Borrowed(same) ==> *same == *val
                &&& matches_exactly(val@, ty@) || !zero_sized(ty@) ==> matches_exactly(fixed@, ty@)
                &&& matches_exactly(val@, ty@) || !zero_sized(ty@) ==> reconciled(fixed@, ty@)
                    == Ok::<ValueModel, ErrorKind>(fixed@)
            },
            Err(e) => {
                &&& reconciled(val@, ty@) == Err::<ValueModel, ErrorKind>(e.kind())
                &&& e matches AbiError::TypeMismatch { expected, actual } ==> expected@ == ty@
                    && actual@ == val@
            },
        },
{
    if val.matches(ty) {
        return Ok(Cow::Borrowed(val));
    }
    if !val.type_check(ty) {
        return Err(AbiError::TypeMismatch { expected: ty.clone(), actual: val.clone() });
    }
    let bytes = to_outside(val).abi_encode();
    match outside_type(ty).abi_decode(bytes.as_slice()) {
        Ok(new_val) => Ok(Cow::Owned(inside_value(new_val))),
        Err(e) => Err(AbiError::Decode(e)),
    }
}

/// The first `n` values reconciled with the types at their positions, or the
/// failure of the first that fails.
pub open spec fn reconciled_all(values: Seq<ValueModel>, types: Seq<TypeModel>, n: nat) -> Result<
    Seq<ValueModel>,
    ErrorKind,
>
    decreases n,
{
    if n == 0 {
        Ok(Seq::empty())
    } else {
        match reconciled_all(values, types, (n - 1) as nat) {
            Err(e) => Err(e),
            Ok(done) => match reconciled(values[n - 1], types[n - 1]) {
                Err(e) => Err(e),
                Ok(fixed) => Ok(done.push(fixed)),
            },
        }
    }
}

/// The selector of a function: the first four bytes of the hash of its name
/// and the types of its inputs.
pub open spec fn selector_of(name: Seq<char>, inputs: Seq<TypeModel>) -> Seq<u8> {
    keccak256_of(encode_utf8(name + params_text(inputs))).take(4)
}

/// What encoding the inputs of a call gives: no encoding unless there is one
/// value for each input and each can be reconciled with its type; then the
/// selector and, behind it, the encoding of the reconciled values, if the
/// encoder takes them.
pub open spec fn encoded_input(
    name: Seq<char>,
    inputs: Seq<TypeModel>,
    values: Seq<ValueModel>,
) -> Result<Seq<u8>, ErrorKind> {
    if values.len() != inputs.len() {
        Err(ErrorKind::ArityMismatch)
    } else {
        match reconciled_all(values, inputs, values.len()) {
            Err(e) => Err(e),
            Ok(fixed) => if accepted(fixed, inputs) {
                Ok(selector_of(name, inputs) + params_encoded(fixed))
            } else {
                Err(ErrorKind::Encode)
            },
        }
    }
}

/// Values that have exactly the shapes and the widths of the types at their
/// positions reconcile to themselves.
pub proof fn lemma_reconciled_all_of_exact(values: Seq<ValueModel>, types: Seq<TypeModel>, n: nat)
    requires
        n <= values.len() <= types.len(),
        each_matches_exactly(values, types),
    ensures
        reconciled_all(values, types, n) == Ok::<Seq<ValueModel>, ErrorKind>(values.take(n as int)),
    decreases n,
{
    if n == 0 {
        assert(values.take(0) =~= Seq::empty());
    } else {
        lemma_reconciled_all_of_exact(values, types, (n - 1) as nat);
        assert(matches_exactly(values[n - 1], types[n - 1]));
        assert(values.take(n - 1).push(values[n - 1]) =~= values.take(n as int));
    }
}

/// The encoding of inputs succeeds wherever there is one value for each
/// input and each has exactly the shape and the widths of its type: it is
/// the selector and, behind it, the encoding of the values as they are.
pub proof fn lemma_encoded_input_of_exact(
    name: Seq<char>,
    inputs: Seq<TypeModel>,
    values: Seq<ValueModel>,
)
    requires
        accepted(values, inputs),
    ensures
        encoded_input(name, inputs, values) == Ok::<Seq<u8>, ErrorKind>(
            selector_of(name, inputs) + params_encoded(values),
        ),
{
    lemma_reconciled_all_of_exact(values, inputs, values.len());
    assert(values.take(values.len() as int) =~= values);
}

/// The values that reconciled values hold, in order.
pub open spec fn fixed_models<'a>(fixed: Seq<Cow<'a, SolValue>>) -> Seq<ValueModel> {
    Seq::new(fixed.len(), |i: int| fixed[i]@)
}

pub trait FunctionExt {
    /// Returns the signature of this function in the following formats:
    /// - if the function has no outputs: `$name($($inputs),*)`
    /// - if the function has outputs: `$name($($inputs),*):($(outputs),*)`
    ///
    /// Examples:
    /// - `functionName()`
    /// - `functionName():(uint256)`
    /// - `functionName(bool):(uint256,string)`
    /// - `functionName(uint256,bytes32):(string,uint256)`
    fn signature_compat(&self) -> String;

    /// ABI-decodes the given data according to the function's input types.
    fn abi_decode_input(&self, data: &[u8]) -> Result<Vec<SolValue>, AbiError>;

    /// ABI-decodes the given data according to the function's output types.
    fn abi_decode_output(&self, data: &[u8]) -> Result<Vec<SolValue>, AbiError>;

    /// ABI-encodes the given values, prefixed by the function's selector.
    fn abi_encode_input(&self, values: &[SolValue]) -> Result<Vec<u8>, AbiError>;
}

impl Function {
    /// The selector of this function.
    pub fn selector(&self) -> (selector: [u8; 4])
        ensures
            selector@ == selector_of(self.name@, param_types(self.inputs@)),
    {
        let mut sig = String::new();
        sig.append(self.name.as_str());
        signature_part(self.inputs.as_slice(), &mut sig);
        assert(sig@ =~= self.name@ + params_text(param_types(self.inputs@)));
        let hash = keccak256(sig.as_str().as_bytes());
        let selector = [hash[0], hash[1], hash[2], hash[3]];
        assert(selector@ =~= hash@.take(4));
        selector
    }

    /// Encodes values that were reconciled with the inputs of this function.
    fn encode_fixed(&self, fixed: &[SolValue]) -> (r: Result<Vec<u8>, AbiError>)
        ensures
            match r {
                Ok(bytes) => accepted(value_models(fixed@), param_types(self.inputs@)) && bytes@
                    == selector_of(self.name@, param_types(self.inputs@)) + params_encoded(
                    value_models(fixed@),
                ),
                Err(e) => !accepted(value_models(fixed@), param_types(self.inputs@)) && e.kind()
                    == ErrorKind::Encode,
            },
    {
        let selector = self.selector();
        let types = outside_param_types(self.inputs.as_slice());
        let values = outside_values(fixed);
        match call_encode_input(&selector, types, &values) {
            Ok(bytes) => Ok(bytes),
            Err(e) => Err(AbiError::Encode(e)),
        }
    }
}

impl FunctionExt for Function {
    fn signature_compat(&self) -> (sig: String)
        ensures
            sig@ == signature_text(
                self.name@,
                param_types(self.inputs@),
                param_types(self.outputs@),
            ),
    {
        let name = &self.name;
        let inputs = &self.inputs;
        let outputs = &self.outputs;

        let mut sig = String::new();

        sig.append(name.as_str());
        signature_part(inputs.as_slice(), &mut sig);

        if outputs.len() != 0 {
            sig.append(":");
            signature_part(outputs.as_slice(), &mut sig);
        }
        assert(sig@ =~= signature_text(
            self.name@,
            param_types(self.inputs@),
            param_types(self.outputs@),
        ));
        sig
    }

    fn abi_decode_input(&self, data: &[u8]) -> (r: Result<Vec<SolValue>, AbiError>)
        ensures
            match r {
                Ok(values) => inputs_decoded(param_types(self.inputs@), data@) == Some(
                    value_models(values@),
                ),
                Err(e) => inputs_decoded(param_types(self.inputs@), data@) is None && e.kind()
                    == ErrorKind::Decode,
            },
            r matches Ok(values) ==> read_as(value_models(values@), param_types(self.inputs@)),
    {
        match call_decode_input(outside_param_types(self.inputs.as_slice()), data) {
            Ok(values) => Ok(inside_values(values)),
            Err(e) => Err(AbiError::Decode(e)),
        }
    }

    fn abi_decode_output(&self, data: &[u8]) -> (r: Result<Vec<SolValue>, AbiError>)
        ensures
            match r {
                Ok(values) => outputs_decoded(param_types(self.outputs@), data@) == Some(
                    value_models(values@),
                ),
                Err(e) => outputs_decoded(param_types(self.outputs@), data@) is None && e.kind()
                    == ErrorKind::Decode,
            },
            r matches Ok(values) ==> read_as(value_models(values@), param_types(self.outputs@)),
    {
        match call_decode_output(outside_param_types(self.outputs.as_slice()), data) {
            Ok(values) => Ok(inside_values(values)),
            Err(e) => Err(AbiError::Decode(e)),
        }
    }

    fn abi_encode_input(&self, values: &[SolValue]) -> (r: Result<Vec<u8>, AbiError>)
        ensures
            match r {
                Ok(bytes) => encoded_input(
                    self.name@,
                    param_types(self.inputs@),
                    value_models(values@),
                ) == Ok::<Seq<u8>, ErrorKind>(bytes@),
                Err(e) => encoded_input(
                    self.name@,
                    param_types(self.inputs@),
                    value_models(values@),
                ) == Err::<Seq<u8>, ErrorKind>(e.kind()),
            },
            r matches Err(AbiError::ArityMismatch { inputs, values: given }) ==> inputs
                == self.inputs@.len() && given == values@.len(),
            r matches Err(AbiError::TypeMismatch { expected, actual }) ==> exists|i: int|
                0 <= i < values@.len() && expected@ == (#[trigger] self.inputs@[i]).ty@ && actual@
                    == values@[i]@,
    {
        let inputs = &self.inputs;

        if inputs.len() != values.len() {
            proof {
                lemma_value_models(values@);
            }
            return Err(AbiError::ArityMismatch { inputs: inputs.len(), values: values.len() });
        }
        let ghost types = param_types(inputs@);
        let ghost models = value_models(values@);
        proof {
            lemma_value_models(values@);
        }
        let mut fixed_values: Vec<Cow<SolValue>> = Vec::with_capacity(values.len());
        assert(fixed_models(fixed_values@) =~= Seq::empty());
        let mut i: usize = 0;
        while i < inputs.len()
            invariant
                i <= inputs@.len() == values@.len(),
                inputs@ == self.inputs@,
                types == param_types(inputs@),
                models == value_models(values@),
                models.len() == values@.len(),
                forall|j: int| 0 <= j < values@.len() ==> (#[trigger] models[j]) == values@[j]@,
                fixed_values@.len() == i,
                reconciled_all(models, types, i as nat) == Ok::<Seq<ValueModel>, ErrorKind>(
                    fixed_models(fixed_values@),
                ),
                forall|j: int|
                    0 <= j < i ==> ((#[trigger] fixed_values@[j]) is Borrowed) == matches_exactly(
                        models[j],
                        types[j],
                    ),
                forall|j: int|
                    0 <= j < i ==> ((#[trigger] fixed_values@[j]) is Borrowed ==> fixed_values@[j]@
                        == models[j]),
            decreases inputs@.len() - i,
        {
            let ghost before = fixed_models(fixed_values@);
            match fix_type_size(&inputs[i].ty, &values[i]) {
                Ok(fixed) => {
                    fixed_values.push(fixed);
                    proof {
                        assert(types[i as int] == inputs@[i as int].ty@);
                        assert(models[i as int] == values@[i as int]@);
                        assert(fixed_models(fixed_values@) =~= before.push(fixed@));
                    }
                },
                Err(e) => {
                    proof {
                        assert(types[i as int] == inputs@[i as int].ty@);
                        assert(models[i as int] == values@[i as int]@);
                        assert(reconciled_all(models, types, (i + 1) as nat) == Err::<
                            Seq<ValueModel>,
                            ErrorKind,
                        >(e.kind()));
                        lemma_reconciled_all_fails(models, types, (i + 1) as nat, values@.len());
                        assert(e matches AbiError::TypeMismatch { expected, actual } ==> expected@
                            == self.inputs@[i as int].ty@ && actual@ == values@[i as int]@);
                    }
                    return Err(e);
                },
            }
            i += 1;
        }

        let mut all_borrowed = true;
        let mut k: usize = 0;
        while k < fixed_values.len()
            invariant
                k <= fixed_values@.len(),
                all_borrowed == forall|j: int| 0 <= j < k ==> (#[trigger] fixed_values@[j]) is Borrowed,
            decreases fixed_values@.len() - k,
        {
            if !matches!(fixed_values[k], Cow::Borrowed(_)) {
                all_borrowed = false;
            }
            k += 1;
        }

        if all_borrowed {
            proof {
                assert(fixed_models(fixed_values@) =~= models);
            }
            return self.encode_fixed(values);
        }
        // The encoder takes values, not borrows of them.
        let ghost fixed = fixed_models(fixed_values@);
        let mut owned_fixed_values: Vec<SolValue> = Vec::with_capacity(fixed_values.len());
        for value in it: fixed_values.into_iter()
            invariant
                fixed_models(it.seq()) == fixed,
                owned_fixed_values@.len() == it.index(),
                forall|j: int| 0 <= j < it.index() ==> owned_fixed_values@[j]@ == fixed[j],
        {
            let ghost at = owned_fixed_values@.len() as int;
            assert(fixed[at] == it.seq()[at]@);
            let owned = match value {
                Cow::Borrowed(borrowed) => borrowed.clone(),
                Cow::Owned(owned) => owned,
            };
            owned_fixed_values.push(owned);
        }
        proof {
            lemma_value_models(owned_fixed_values@);
            assert(value_models(owned_fixed_values@) =~= fixed);
        }
        self.encode_fixed(owned_fixed_values.as_slice())
    }
}

/// Once a value fails to reconcile, so does every longer run of the values.
proof fn lemma_reconciled_all_fails(
    values: Seq<ValueModel>,
    types: Seq<TypeModel>,
    n: nat,
    m: nat,
)
    requires
        n <= m,
        reconciled_all(values, types, n) is Err,
    ensures
        reconciled_all(values, types, m) == reconciled_all(values, types, n),
    decreases m - n,
{
    if n < m {
        lemma_reconciled_all_fails(values, types, n, (m - 1) as nat);
    }
}

/// Appends the types of the parameters in round brackets, with commas
/// between them.
fn signature_part(params: &[Param], out: &mut String)
    ensures
        final(out)@ == old(out)@ + params_text(param_types(params@)),
{
    let ghost start = out@;
    let ghost types = param_types(params@);
    out.append("(");
    assert(out@ =~= start + "("@ + listed_types(types, 0));

    let n = params.len();
    if n > 0 {
        push_type(&params[0].ty, out);
        assert(out@ =~= start + "("@ + listed_types(types, 1));

        let mut i: usize = 1;
        while i < n
            invariant
                1 <= i <= n == params@.len(),
                types == param_types(params@),
                out@ == start + "("@ + listed_types(types, i as nat),
            decreases n - i,
        {
            out.append(",");
            push_type(&params[i].ty, out);
            assert(out@ =~= start + "("@ + listed_types(types, (i + 1) as nat));
            i += 1;
        }
    }
    out.append(")");
    assert(out@ =~= start + params_text(types));
}

} // verus!
