//! Construction, text and type checks of values.

use crate::abi::error::AbiError;
use crate::abi::text::{hex_text, push_hex, push_word_hex, word_hex};
use crate::abi::types::{
    lemma_type_models, lemma_value_models, type_models, value_models, SolType, SolValue,
    TypeModel, ValueModel,
};
use vstd::prelude::*;
use vstd::string::*;

verus! {

/// Whether a value can stand for a type: the kinds agree, an observed width
/// is at most the declared one, a fixed array has the declared length, and
/// the parts can stand for their types in turn. A tuple may stop short of
/// its type, but not overrun it.
pub open spec fn type_checks(value: ValueModel, ty: TypeModel) -> bool
    decreases value, 0nat,
{
    match (value, ty) {
        (ValueModel::Bool(_), TypeModel::Bool) => true,
        (ValueModel::Int(_, seen), TypeModel::Int(declared)) => seen <= declared,
        (ValueModel::Uint(_, seen), TypeModel::Uint(declared)) => seen <= declared,
        (ValueModel::FixedBytes(_, seen), TypeModel::FixedBytes(declared)) => seen <= declared,
        (ValueModel::Address(_), TypeModel::Address) => true,
        (ValueModel::Function(_), TypeModel::Function) => true,
        (ValueModel::Bytes(_), TypeModel::Bytes) => true,
        (ValueModel::String(_), TypeModel::String) => true,
        (ValueModel::Array(items), TypeModel::Array(elem)) => all_type_check(items, *elem),
        (ValueModel::FixedArray(items), TypeModel::FixedArray(elem, len)) => len == items.len()
            && all_type_check(items, *elem),
        (ValueModel::Tuple(items), TypeModel::Tuple(types)) => items.len() <= types.len()
            && each_type_checks(items, types),
        _ => false,
    }
}

/// Whether every value can stand for the one type.
pub open spec fn all_type_check(values: Seq<ValueModel>, ty: TypeModel) -> bool
    decreases values, 1nat,
{
    forall|i: int| 0 <= i < values.len() ==> type_checks(#[trigger] values[i], ty)
}

/// Whether every value can stand for the type at its position.
pub open spec fn each_type_checks(values: Seq<ValueModel>, types: Seq<TypeModel>) -> bool
    decreases values, 1nat,
{
    forall|i: int| 0 <= i < values.len() ==> type_checks(#[trigger] values[i], types[i])
}

/// Whether a value has exactly the shape and the widths of a type.
pub open spec fn matches_exactly(value: ValueModel, ty: TypeModel) -> bool
    decreases value, 0nat,
{
    match (value, ty) {
        (ValueModel::Bool(_), TypeModel::Bool) => true,
        (ValueModel::Int(_, seen), TypeModel::Int(declared)) => seen == declared,
        (ValueModel::Uint(_, seen), TypeModel::Uint(declared)) => seen == declared,
        (ValueModel::FixedBytes(_, seen), TypeModel::FixedBytes(declared)) => seen == declared,
        (ValueModel::Address(_), TypeModel::Address) => true,
        (ValueModel::Function(_), TypeModel::Function) => true,
        (ValueModel::Bytes(_), TypeModel::Bytes) => true,
        (ValueModel::String(_), TypeModel::String) => true,
        (ValueModel::Array(items), TypeModel::Array(elem)) => all_match_exactly(items, *elem),
        (ValueModel::FixedArray(items), TypeModel::FixedArray(elem, len)) => len == items.len()
            && all_match_exactly(items, *elem),
        (ValueModel::Tuple(items), TypeModel::Tuple(types)) => items.len() == types.len()
            && each_matches_exactly(items, types),
        _ => false,
    }
}

/// Whether every value has exactly the shape and the widths of the one type.
pub open spec fn all_match_exactly(values: Seq<ValueModel>, ty: TypeModel) -> bool
    decreases values, 1nat,
{
    forall|i: int| 0 <= i < values.len() ==> matches_exactly(#[trigger] values[i], ty)
}

/// Whether every value has exactly the shape and the widths of the type at
/// its position.
pub open spec fn each_matches_exactly(values: Seq<ValueModel>, types: Seq<TypeModel>) -> bool
    decreases values, 1nat,
{
    forall|i: int| 0 <= i < values.len() ==> matches_exactly(#[trigger] values[i], types[i])
}

/// Whether every width that a type declares fits a 32-byte slot: at most
/// 256 bits for an integer, at most 32 bytes for a fixed byte string.
pub open spec fn fits_slot(ty: TypeModel) -> bool
    decreases ty, 0nat,
{
    match ty {
        TypeModel::Int(bits) => bits <= 256,
        TypeModel::Uint(bits) => bits <= 256,
        TypeModel::FixedBytes(bytes) => bytes <= 32,
        TypeModel::Array(elem) => fits_slot(*elem),
        TypeModel::FixedArray(elem, _) => fits_slot(*elem),
        TypeModel::Tuple(types) => all_fit_slot(types),
        _ => true,
    }
}

/// Whether every width that the types declare fits a 32-byte slot.
pub open spec fn all_fit_slot(types: Seq<TypeModel>) -> bool
    decreases types, 1nat,
{
    forall|i: int| 0 <= i < types.len() ==> fits_slot(#[trigger] types[i])
}

/// Whether every width that a value was observed at fits a 32-byte slot.
pub open spec fn well_formed(value: ValueModel) -> bool
    decreases value, 0nat,
{
    match value {
        ValueModel::Int(_, bits) => bits <= 256,
        ValueModel::Uint(_, bits) => bits <= 256,
        ValueModel::FixedBytes(_, bytes) => bytes <= 32,
        ValueModel::Array(items) => all_well_formed(items),
        ValueModel::FixedArray(items) => all_well_formed(items),
        ValueModel::Tuple(items) => all_well_formed(items),
        _ => true,
    }
}

/// Whether every one of the values is well-formed.
pub open spec fn all_well_formed(values: Seq<ValueModel>) -> bool
    decreases values, 1nat,
{
    forall|i: int| 0 <= i < values.len() ==> well_formed(#[trigger] values[i])
}

/// A byte string in a 32-byte slot, with zeros behind it.
pub open spec fn zero_padded(bytes: Seq<u8>) -> Seq<u8> {
    Seq::new(
        32,
        |i: int|
            if i < bytes.len() {
                bytes[i]
            } else {
                0u8
            },
    )
}

/// The text of a value, which names no type: `true` or `false`, a number in
/// hexadecimal without leading zeros, bytes in hexadecimal, a string as it
/// is, the items of an array in square brackets and those of a tuple in
/// round ones.
pub open spec fn value_text(value: ValueModel) -> Seq<char>
    decreases value, 0nat,
{
    match value {
        ValueModel::Bool(b) => if b {
            "true"@
        } else {
            "false"@
        },
        ValueModel::Int(word, _) => word_hex(word),
        ValueModel::Uint(word, _) => word_hex(word),
        ValueModel::FixedBytes(word, _) => hex_text(word),
        ValueModel::Address(bytes) => hex_text(bytes),
        ValueModel::Function(bytes) => hex_text(bytes),
        ValueModel::Bytes(bytes) => hex_text(bytes),
        ValueModel::String(s) => s,
        ValueModel::Array(items) => "["@ + listed_values(items, items.len()) + "]"@,
        ValueModel::FixedArray(items) => "["@ + listed_values(items, items.len()) + "]"@,
        ValueModel::Tuple(items) => "("@ + listed_values(items, items.len()) + ")"@,
    }
}

/// The texts of the first `n` values, with commas between them.
pub open spec fn listed_values(values: Seq<ValueModel>, n: nat) -> Seq<char>
    decreases values, n,
{
    if n == 0 || n > values.len() {
        Seq::empty()
    } else if n == 1 {
        value_text(values[0])
    } else {
        listed_values(values, (n - 1) as nat) + ","@ + value_text(values[n - 1])
    }
}

pub trait DynSolValueExt: Sized {
    /// Creates a fixed-byte value from a slice.
    ///
    /// Fails if the source slice exceeds 32 bytes.
    fn fixed_bytes_from_slice(s: &[u8]) -> Result<Self, AbiError>;

    /// Returns the value as a string.
    ///
    /// The resulting string contains no type information.
    fn to_string(&self) -> String;

    /// Checks whether the value is of the specified type.
    ///
    /// For types with additional size information, returns true if the size
    /// of the value is less than or equal to the size of the specified type.
    fn type_check(&self, ty: &SolType) -> bool;
}

/// Whether every value can stand for the one type.
fn all_check(items: &Vec<SolValue>, elem: &SolType) -> (ok: bool)
    ensures
        ok == all_type_check(value_models(items@), elem@),
    decreases items,
{
    proof {
        lemma_value_models(items@);
    }
    let mut i: usize = 0;
    while i < items.len()
        invariant
            i <= items.len(),
            value_models(items@).len() == items.len(),
            forall|j: int| 0 <= j < i ==> type_checks(#[trigger] value_models(items@)[j], elem@),
            forall|j: int|
                0 <= j < items.len() ==> (#[trigger] value_models(items@)[j]) == items[j]@,
        decreases items.len() - i,
    {
        if !items[i].type_check(elem) {
            assert(!type_checks(value_models(items@)[i as int], elem@));
            return false;
        }
        i += 1;
    }
    true
}

/// Whether every value can stand for the type at its position.
fn each_check(items: &Vec<SolValue>, types: &Vec<SolType>) -> (ok: bool)
    requires
        items.len() <= types.len(),
    ensures
        ok == each_type_checks(value_models(items@), type_models(types@)),
    decreases items,
{
    proof {
        lemma_value_models(items@);
        lemma_type_models(types@);
    }
    let mut i: usize = 0;
    while i < items.len()
        invariant
            i <= items.len() <= types.len(),
            value_models(items@).len() == items.len(),
            forall|j: int|
                0 <= j < i ==> type_checks(
                    #[trigger] value_models(items@)[j],
                    type_models(types@)[j],
                ),
            forall|j: int|
                0 <= j < items.len() ==> (#[trigger] value_models(items@)[j]) == items[j]@,
            forall|j: int|
                0 <= j < types.len() ==> (#[trigger] type_models(types@)[j]) == types[j]@,
        decreases items.len() - i,
    {
        if !items[i].type_check(&types[i]) {
            assert(!type_checks(value_models(items@)[i as int], type_models(types@)[i as int]));
            return false;
        }
        i += 1;
    }
    true
}

/// Whether every value has exactly the shape and the widths of the one type.
fn all_match(items: &Vec<SolValue>, elem: &SolType) -> (ok: bool)
    ensures
        ok == all_match_exactly(value_models(items@), elem@),
    decreases items,
{
    proof {
        lemma_value_models(items@);
    }
    let mut i: usize = 0;
    while i < items.len()
        invariant
            i <= items.len(),
            value_models(items@).len() == items.len(),
            forall|j: int|
                0 <= j < i ==> matches_exactly(#[trigger] value_models(items@)[j], elem@),
            forall|j: int|
                0 <= j < items.len() ==> (#[trigger] value_models(items@)[j]) == items[j]@,
        decreases items.len() - i,
    {
        if !items[i].matches(elem) {
            assert(!matches_exactly(value_models(items@)[i as int], elem@));
            return false;
        }
        i += 1;
    }
    true
}

/// Whether every value has exactly the shape and the widths of the type at
/// its position.
fn each_match(items: &Vec<SolValue>, types: &Vec<SolType>) -> (ok: bool)
    requires
        items.len() <= types.len(),
    ensures
        ok == each_matches_exactly(value_models(items@), type_models(types@)),
    decreases items,
{
    proof {
        lemma_value_models(items@);
        lemma_type_models(types@);
    }
    let mut i: usize = 0;
    while i < items.len()
        invariant
            i <= items.len() <= types.len(),
            value_models(items@).len() == items.len(),
            forall|j: int|
                0 <= j < i ==> matches_exactly(
                    #[trigger] value_models(items@)[j],
                    type_models(types@)[j],
                ),
            forall|j: int|
                0 <= j < items.len() ==> (#[trigger] value_models(items@)[j]) == items[j]@,
            forall|j: int|
                0 <= j < types.len() ==> (#[trigger] type_models(types@)[j]) == types[j]@,
        decreases items.len() - i,
    {
        if !items[i].matches(&types[i]) {
            assert(!matches_exactly(
                value_models(items@)[i as int],
                type_models(types@)[i as int],
            ));
            return false;
        }
        i += 1;
    }
    true
}

impl SolValue {
    /// Checks whether the value has exactly the shape and the widths of the
    /// type.
    pub fn matches(&self, ty: &SolType) -> (ok: bool)
        ensures
            ok == matches_exactly(self@, ty@),
        decreases self,
    {
        match self {
            SolValue::Bool(_) => matches!(ty, SolType::Bool),
            SolValue::Int(_, a) => {
                if let SolType::Int(b) = ty {
                    *b == *a
                } else {
                    false
                }
            },
            SolValue::Uint(_, a) => {
                if let SolType::Uint(b) = ty {
                    *b == *a
                } else {
                    false
                }
            },
            SolValue::FixedBytes(_, a) => {
                if let SolType::FixedBytes(b) = ty {
                    *b == *a
                } else {
                    false
                }
            },
            SolValue::Address(_) => matches!(ty, SolType::Address),
            SolValue::Function(_) => matches!(ty, SolType::Function),
            SolValue::Bytes(_) => matches!(ty, SolType::Bytes),
            SolValue::String(_) => matches!(ty, SolType::String),
            SolValue::Array(values) => {
                if let SolType::Array(elem) = ty {
                    assert(decreases_to!(*self => self->Array_0));
                    all_match(values, elem)
                } else {
                    false
                }
            },
            SolValue::FixedArray(values) => {
                if let SolType::FixedArray(elem, size) = ty {
                    assert(decreases_to!(*self => self->FixedArray_0));
                    proof {
                        lemma_value_models(values@);
                    }
                    *size == values.len() && all_match(values, elem)
                } else {
                    false
                }
            },
            SolValue::Tuple(values) => {
                if let SolType::Tuple(types) = ty {
                    assert(decreases_to!(*self => self->Tuple_0));
                    proof {
                        lemma_value_models(values@);
                        lemma_type_models(types@);
                    }
                    values.len() == types.len() && each_match(values, types)
                } else {
                    false
                }
            },
        }
    }
}

/// A value that has exactly the shape and the widths of a type can stand
/// for it.
pub proof fn lemma_exact_type_checks(value: ValueModel, ty: TypeModel)
    requires
        matches_exactly(value, ty),
    ensures
        type_checks(value, ty),
    decreases value,
{
    match (value, ty) {
        (ValueModel::Array(items), TypeModel::Array(elem)) => {
            assert forall|i: int| 0 <= i < items.len() implies type_checks(
                #[trigger] items[i],
                *elem,
            ) by {
                lemma_exact_type_checks(items[i], *elem);
            }
        },
        (ValueModel::FixedArray(items), TypeModel::FixedArray(elem, _)) => {
            assert forall|i: int| 0 <= i < items.len() implies type_checks(
                #[trigger] items[i],
                *elem,
            ) by {
                lemma_exact_type_checks(items[i], *elem);
            }
        },
        (ValueModel::Tuple(items), TypeModel::Tuple(types)) => {
            assert forall|i: int| 0 <= i < items.len() implies type_checks(
                #[trigger] items[i],
                types[i],
            ) by {
                lemma_exact_type_checks(items[i], types[i]);
            }
        },
        _ => {},
    }
}

/// A value that can stand for a type whose widths fit a slot is
/// well-formed.
pub proof fn lemma_type_checked_is_well_formed(value: ValueModel, ty: TypeModel)
    requires
        type_checks(value, ty),
        fits_slot(ty),
    ensures
        well_formed(value),
    decreases value,
{
    match (value, ty) {
        (ValueModel::Array(items), TypeModel::Array(elem)) => {
            assert forall|i: int| 0 <= i < items.len() implies well_formed(#[trigger] items[i]) by {
                lemma_type_checked_is_well_formed(items[i], *elem);
            }
        },
        (ValueModel::FixedArray(items), TypeModel::FixedArray(elem, _)) => {
            assert forall|i: int| 0 <= i < items.len() implies well_formed(#[trigger] items[i]) by {
                lemma_type_checked_is_well_formed(items[i], *elem);
            }
        },
        (ValueModel::Tuple(items), TypeModel::Tuple(types)) => {
            assert(all_fit_slot(types));
            assert forall|i: int| 0 <= i < items.len() implies well_formed(#[trigger] items[i]) by {
                assert(fits_slot(types[i]));
                lemma_type_checked_is_well_formed(items[i], types[i]);
            }
        },
        _ => {},
    }
}

/// A value of one kind cannot stand for a type of another.
pub proof fn lemma_other_kind_never_checks(value: ValueModel, ty: TypeModel)
    requires
        value.kind() != ty.kind(),
    ensures
        !type_checks(value, ty),
        !matches_exactly(value, ty),
{
}

/// Appends the text of a value.
fn push_value(value: &SolValue, out: &mut String)
    ensures
        final(out)@ == old(out)@ + value_text(value@),
    decreases value, 0nat,
{
    match value {
        SolValue::Bool(v) => {
            if *v {
                out.append("true");
            } else {
                out.append("false");
            }
        },
        SolValue::Int(v, _) => push_word_hex(out, v),
        SolValue::Uint(v, _) => push_word_hex(out, v),
        SolValue::FixedBytes(v, _) => push_hex(out, v.as_slice()),
        SolValue::Address(v) => push_hex(out, v.as_slice()),
        SolValue::Function(v) => push_hex(out, v.as_slice()),
        SolValue::Bytes(v) => push_hex(out, v.as_slice()),
        SolValue::String(v) => out.append(v.as_str()),
        SolValue::Array(v) => {
            assert(decreases_to!(*value => value->Array_0));
            out.append("[");
            push_values(v, out);
            out.append("]");
            proof {
                lemma_value_models(v@);
                assert(out@ =~= old(out)@ + value_text(value@));
            }
        },
        SolValue::FixedArray(v) => {
            assert(decreases_to!(*value => value->FixedArray_0));
            out.append("[");
            push_values(v, out);
            out.append("]");
            proof {
                lemma_value_models(v@);
                assert(out@ =~= old(out)@ + value_text(value@));
            }
        },
        SolValue::Tuple(v) => {
            assert(decreases_to!(*value => value->Tuple_0));
            out.append("(");
            push_values(v, out);
            out.append(")");
            proof {
                lemma_value_models(v@);
                assert(out@ =~= old(out)@ + value_text(value@));
            }
        },
    }
}

/// Appends the texts of the values, with commas between them.
fn push_values(items: &Vec<SolValue>, out: &mut String)
    ensures
        final(out)@ == old(out)@ + listed_values(value_models(items@), items@.len()),
    decreases items, 1nat,
{
    let ghost start = out@;
    let ghost models = value_models(items@);
    proof {
        lemma_value_models(items@);
        assert(start + listed_values(models, 0) =~= start);
    }
    let mut i: usize = 0;
    while i < items.len()
        invariant
            i <= items.len(),
            models == value_models(items@),
            models.len() == items.len(),
            forall|j: int| 0 <= j < items.len() ==> (#[trigger] models[j]) == items[j]@,
            out@ == start + listed_values(models, i as nat),
        decreases items.len() - i,
    {
        if i > 0 {
            out.append(",");
        }
        push_value(&items[i], out);
        proof {
            assert(models[i as int] == items[i as int]@);
            assert(out@ =~= start + listed_values(models, (i + 1) as nat));
        }
        i += 1;
    }
}

impl DynSolValueExt for SolValue {
    fn fixed_bytes_from_slice(s: &[u8]) -> (r: Result<Self, AbiError>)
        ensures
            s@.len() <= 32 ==> (r matches Ok(v) && v@ == ValueModel::FixedBytes(
                zero_padded(s@),
                s@.len(),
            ) && well_formed(v@)),
            s@.len() > 32 ==> (r matches Err(AbiError::InvalidLength { len }) && len == s@.len()),
    {
        let num_bytes = s.len();

        if num_bytes > 32 {
            return Err(AbiError::InvalidLength { len: num_bytes });
        }
        let mut bytes = [0u8;32];
        let mut i: usize = 0;
        while i < num_bytes
            invariant
                i <= num_bytes == s@.len() <= 32,
                forall|j: int| 0 <= j < i ==> bytes@[j] == s@[j],
                forall|j: int| i <= j < 32 ==> bytes@[j] == 0u8,
            decreases num_bytes - i,
        {
            bytes[i] = s[i];
            i += 1;
        }
        assert(bytes@ =~= zero_padded(s@));
        Ok(SolValue::FixedBytes(bytes, num_bytes))
    }

    fn to_string(&self) -> (text: String)
        ensures
            text@ == value_text(self@),
    {
        let mut out = String::new();
        push_value(self, &mut out);
        assert(Seq::<char>::empty() + value_text(self@) =~= value_text(self@));
        out
    }

    fn type_check(&self, ty: &SolType) -> (ok: bool)
        ensures
            ok == type_checks(self@, ty@),
        decreases self,
    {
        match self {
            SolValue::Bool(_) => matches!(ty, SolType::Bool),
            SolValue::Int(_, a) => {
                if let SolType::Int(b) = ty {
                    *b >= *a
                } else {
                    false
                }
            },
            SolValue::Uint(_, a) => {
                if let SolType::Uint(b) = ty {
                    *b >= *a
                } else {
                    false
                }
            },
            SolValue::FixedBytes(_, a) => {
                if let SolType::FixedBytes(b) = ty {
                    *b >= *a
                } else {
                    false
                }
            },
            SolValue::Address(_) => matches!(ty, SolType::Address),
            SolValue::Function(_) => matches!(ty, SolType::Function),
            SolValue::Bytes(_) => matches!(ty, SolType::Bytes),
            SolValue::String(_) => matches!(ty, SolType::String),
            SolValue::Array(values) => {
                if let SolType::Array(elem) = ty {
                    assert(decreases_to!(*self => self->Array_0));
                    all_check(values, elem)
                } else {
                    false
                }
            },
            SolValue::FixedArray(values) => {
                if let SolType::FixedArray(elem, size) = ty {
                    assert(decreases_to!(*self => self->FixedArray_0));
                    proof {
                        lemma_value_models(values@);
                    }
                    *size == values.len() && all_check(values, elem)
                } else {
                    false
                }
            },
            SolValue::Tuple(values) => {
                if let SolType::Tuple(types) = ty {
                    assert(decreases_to!(*self => self->Tuple_0));
                    proof {
                        lemma_value_models(values@);
                        lemma_type_models(types@);
                    }
                    values.len() <= types.len() && each_check(values, types)
                } else {
                    false
                }
            },
        }
    }
}

} // verus!
