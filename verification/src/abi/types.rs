//! The types of the contract interface and the values that inhabit them.

use vstd::prelude::*;

verus! {

/// The mathematical model of an interface type.
pub enum TypeModel {
    Bool,
    Int(nat),
    Uint(nat),
    FixedBytes(nat),
    Address,
    Function,
    Bytes,
    String,
    Array(Box<TypeModel>),
    FixedArray(Box<TypeModel>, nat),
    Tuple(Seq<TypeModel>),
}

/// The mathematical model of a value: its data and, where the variant has
/// one, its observed width.
pub enum ValueModel {
    Bool(bool),
    Int(Seq<u8>, nat),
    Uint(Seq<u8>, nat),
    FixedBytes(Seq<u8>, nat),
    Address(Seq<u8>),
    Function(Seq<u8>),
    Bytes(Seq<u8>),
    String(Seq<char>),
    Array(Seq<ValueModel>),
    FixedArray(Seq<ValueModel>),
    Tuple(Seq<ValueModel>),
}

/// The kinds of types and of values.
#[derive(Clone, Copy, Debug, PartialEq, Eq, Structural)]
pub enum Kind {
    Bool,
    Int,
    Uint,
    FixedBytes,
    Address,
    Function,
    Bytes,
    String,
    Array,
    FixedArray,
    Tuple,
}

impl TypeModel {
    /// The kind of this type.
    pub open spec fn kind(self) -> Kind {
        match self {
            TypeModel::Bool => Kind::Bool,
            TypeModel::Int(_) => Kind::Int,
            TypeModel::Uint(_) => Kind::Uint,
            TypeModel::FixedBytes(_) => Kind::FixedBytes,
            TypeModel::Address => Kind::Address,
            TypeModel::Function => Kind::Function,
            TypeModel::Bytes => Kind::Bytes,
            TypeModel::String => Kind::String,
            TypeModel::Array(_) => Kind::Array,
            TypeModel::FixedArray(_, _) => Kind::FixedArray,
            TypeModel::Tuple(_) => Kind::Tuple,
        }
    }
}

impl ValueModel {
    /// The kind of this value.
    pub open spec fn kind(self) -> Kind {
        match self {
            ValueModel::Bool(_) => Kind::Bool,
            ValueModel::Int(_, _) => Kind::Int,
            ValueModel::Uint(_, _) => Kind::Uint,
            ValueModel::FixedBytes(_, _) => Kind::FixedBytes,
            ValueModel::Address(_) => Kind::Address,
            ValueModel::Function(_) => Kind::Function,
            ValueModel::Bytes(_) => Kind::Bytes,
            ValueModel::String(_) => Kind::String,
            ValueModel::Array(_) => Kind::Array,
            ValueModel::FixedArray(_) => Kind::FixedArray,
            ValueModel::Tuple(_) => Kind::Tuple,
        }
    }
}

/// A type of the contract interface. Widths are those that the interface
/// declares: bits for integers, bytes for fixed byte strings.
#[derive(Debug)]
pub enum SolType {
    Bool,
    Int(usize),
    Uint(usize),
    FixedBytes(usize),
    Address,
    Function,
    Bytes,
    String,
    Array(Box<SolType>),
    FixedArray(Box<SolType>, usize),
    Tuple(Vec<SolType>),
}

/// A value, with the width it was observed at.
#[derive(Debug)]
pub enum SolValue {
    Bool(bool),
    Int([u8; 32], usize),
    Uint([u8; 32], usize),
    FixedBytes([u8; 32], usize),
    Address([u8; 20]),
    Function([u8; 24]),
    Bytes(Vec<u8>),
    String(String),
    Array(Vec<SolValue>),
    FixedArray(Vec<SolValue>),
    Tuple(Vec<SolValue>),
}

impl SolType {
    /// The model of this type.
    pub open spec fn model(self) -> TypeModel
        decreases self,
    {
        match self {
            SolType::Bool => TypeModel::Bool,
            SolType::Int(bits) => TypeModel::Int(bits as nat),
            SolType::Uint(bits) => TypeModel::Uint(bits as nat),
            SolType::FixedBytes(bytes) => TypeModel::FixedBytes(bytes as nat),
            SolType::Address => TypeModel::Address,
            SolType::Function => TypeModel::Function,
            SolType::Bytes => TypeModel::Bytes,
            SolType::String => TypeModel::String,
            SolType::Array(elem) => TypeModel::Array(Box::new(elem.model())),
            SolType::FixedArray(elem, len) => TypeModel::FixedArray(
                Box::new(elem.model()),
                len as nat,
            ),
            SolType::Tuple(types) => TypeModel::Tuple(type_models(types@)),
        }
    }
}

impl SolValue {
    /// The model of this value.
    pub open spec fn model(self) -> ValueModel
        decreases self,
    {
        match self {
            SolValue::Bool(b) => ValueModel::Bool(b),
            SolValue::Int(word, bits) => ValueModel::Int(word@, bits as nat),
            SolValue::Uint(word, bits) => ValueModel::Uint(word@, bits as nat),
            SolValue::FixedBytes(word, bytes) => ValueModel::FixedBytes(word@, bytes as nat),
            SolValue::Address(a) => ValueModel::Address(a@),
            SolValue::Function(f) => ValueModel::Function(f@),
            SolValue::Bytes(b) => ValueModel::Bytes(b@),
            SolValue::String(s) => ValueModel::String(s@),
            SolValue::Array(items) => ValueModel::Array(value_models(items@)),
            SolValue::FixedArray(items) => ValueModel::FixedArray(value_models(items@)),
            SolValue::Tuple(items) => ValueModel::Tuple(value_models(items@)),
        }
    }
}

/// The models of the types, in order.
pub open spec fn type_models(types: Seq<SolType>) -> Seq<TypeModel>
    decreases types,
{
    Seq::new(
        types.len(),
        |i: int|
            if 0 <= i < types.len() {
                types[i].model()
            } else {
                TypeModel::Bool
            },
    )
}

/// The models of the values, in order.
pub open spec fn value_models(values: Seq<SolValue>) -> Seq<ValueModel>
    decreases values,
{
    Seq::new(
        values.len(),
        |i: int|
            if 0 <= i < values.len() {
                values[i].model()
            } else {
                ValueModel::Bool(false)
            },
    )
}

impl View for SolType {
    type V = TypeModel;

    open spec fn view(&self) -> TypeModel {
        self.model()
    }
}

impl View for SolValue {
    type V = ValueModel;

    open spec fn view(&self) -> ValueModel {
        self.model()
    }
}

/// `type_models` goes item by item.
pub proof fn lemma_type_models(types: Seq<SolType>)
    ensures
        type_models(types).len() == types.len(),
        forall|i: int| 0 <= i < types.len() ==> (#[trigger] type_models(types)[i]) == types[i]@,
{
}

/// `value_models` goes item by item.
pub proof fn lemma_value_models(values: Seq<SolValue>)
    ensures
        value_models(values).len() == values.len(),
        forall|i: int|
            0 <= i < values.len() ==> (#[trigger] value_models(values)[i]) == values[i]@,
{
}

/// Whether the values of a type take no room in an encoding: an array of
/// such values, a fixed array of none or of such values, a tuple of nothing
/// but such values.
pub open spec fn zero_sized(ty: TypeModel) -> bool
    decreases ty, 0nat,
{
    match ty {
        TypeModel::Array(elem) => zero_sized(*elem),
        TypeModel::FixedArray(elem, len) => len == 0 || zero_sized(*elem),
        TypeModel::Tuple(types) => all_zero_sized(types),
        _ => false,
    }
}

/// Whether every one of the types is zero-sized.
pub open spec fn all_zero_sized(types: Seq<TypeModel>) -> bool
    decreases types, 1nat,
{
    forall|i: int| 0 <= i < types.len() ==> zero_sized(#[trigger] types[i])
}

impl SolType {
    /// The kind of this type.
    pub fn kind(&self) -> (kind: Kind)
        ensures
            kind == self@.kind(),
    {
        match self {
            SolType::Bool => Kind::Bool,
            SolType::Int(_) => Kind::Int,
            SolType::Uint(_) => Kind::Uint,
            SolType::FixedBytes(_) => Kind::FixedBytes,
            SolType::Address => Kind::Address,
            SolType::Function => Kind::Function,
            SolType::Bytes => Kind::Bytes,
            SolType::String => Kind::String,
            SolType::Array(_) => Kind::Array,
            SolType::FixedArray(_, _) => Kind::FixedArray,
            SolType::Tuple(_) => Kind::Tuple,
        }
    }

    /// Whether the values of this type take no room in an encoding.
    pub fn is_zero_sized(&self) -> (zero: bool)
        ensures
            zero == zero_sized(self@),
        decreases self,
    {
        match self {
            SolType::Array(elem) => elem.is_zero_sized(),
            SolType::FixedArray(elem, len) => *len == 0 || elem.is_zero_sized(),
            SolType::Tuple(types) => {
                proof {
                    lemma_type_models(types@);
                }
                let mut i: usize = 0;
                while i < types.len()
                    invariant
                        *self is Tuple,
                        self->Tuple_0 == *types,
                        i <= types.len(),
                        type_models(types@).len() == types.len(),
                        forall|j: int|
                            0 <= j < types.len() ==> (#[trigger] type_models(types@)[j])
                                == types[j]@,
                        forall|j: int| 0 <= j < i ==> zero_sized(#[trigger] type_models(types@)[j]),
                    decreases types.len() - i,
                {
                    assert(decreases_to!(*self => self->Tuple_0));
                    if !types[i].is_zero_sized() {
                        assert(!zero_sized(type_models(types@)[i as int]));
                        assert(!all_zero_sized(type_models(types@)));
                        return false;
                    }
                    i += 1;
                }
                assert(all_zero_sized(type_models(types@)));
                true
            },
            _ => false,
        }
    }

    /// An independent copy of this type.
    pub fn duplicate(&self) -> (r: SolType)
        ensures
            r@ == self@,
        decreases self,
    {
        match self {
            SolType::Bool => SolType::Bool,
            SolType::Int(bits) => SolType::Int(*bits),
            SolType::Uint(bits) => SolType::Uint(*bits),
            SolType::FixedBytes(bytes) => SolType::FixedBytes(*bytes),
            SolType::Address => SolType::Address,
            SolType::Function => SolType::Function,
            SolType::Bytes => SolType::Bytes,
            SolType::String => SolType::String,
            SolType::Array(elem) => SolType::Array(Box::new(elem.duplicate())),
            SolType::FixedArray(elem, len) => SolType::FixedArray(
                Box::new(elem.duplicate()),
                *len,
            ),
            SolType::Tuple(types) => {
                let mut copies: Vec<SolType> = Vec::new();
                let mut i: usize = 0;
                while i < types.len()
                    invariant
                        *self is Tuple,
                        self->Tuple_0 == *types,
                        i <= types.len(),
                        copies.len() == i,
                        forall|j: int| 0 <= j < i ==> copies[j]@ == types[j]@,
                    decreases types.len() - i,
                {
                    assert(decreases_to!(*self => self->Tuple_0));
                    copies.push(types[i].duplicate());
                    i += 1;
                }
                let r = SolType::Tuple(copies);
                proof {
                    lemma_type_models(copies@);
                    lemma_type_models(types@);
                    assert(r@->Tuple_0 =~= self@->Tuple_0);
                }
                r
            },
        }
    }

    /// Whether two types are the same type.
    pub fn same(&self, other: &SolType) -> (r: bool)
        ensures
            r == (self@ == other@),
        decreases self,
    {
        match (self, other) {
            (SolType::Bool, SolType::Bool) => true,
            (SolType::Int(a), SolType::Int(b)) => *a == *b,
            (SolType::Uint(a), SolType::Uint(b)) => *a == *b,
            (SolType::FixedBytes(a), SolType::FixedBytes(b)) => *a == *b,
            (SolType::Address, SolType::Address) => true,
            (SolType::Function, SolType::Function) => true,
            (SolType::Bytes, SolType::Bytes) => true,
            (SolType::String, SolType::String) => true,
            (SolType::Array(a), SolType::Array(b)) => a.same(b),
            (SolType::FixedArray(a, n), SolType::FixedArray(b, m)) => *n == *m && a.same(b),
            (SolType::Tuple(a), SolType::Tuple(b)) => {
                proof {
                    lemma_type_models(a@);
                    lemma_type_models(b@);
                }
                if a.len() != b.len() {
                    return false;
                }
                let mut i: usize = 0;
                while i < a.len()
                    invariant
                        *self is Tuple,
                        self->Tuple_0 == *a,
                        *other is Tuple,
                        other->Tuple_0 == *b,
                        i <= a.len() == b.len(),
                        type_models(a@).len() == a.len(),
                        type_models(b@).len() == b.len(),
                        forall|j: int|
                            0 <= j < a.len() ==> (#[trigger] type_models(a@)[j]) == a[j]@,
                        forall|j: int|
                            0 <= j < b.len() ==> (#[trigger] type_models(b@)[j]) == b[j]@,
                        forall|j: int| 0 <= j < i ==> a[j]@ == b[j]@,
                    decreases a.len() - i,
                {
                    assert(decreases_to!(*self => self->Tuple_0));
                    if !a[i].same(&b[i]) {
                        assert(type_models(a@)[i as int] != type_models(b@)[i as int]);
                        return false;
                    }
                    i += 1;
                }
                assert(type_models(a@) =~= type_models(b@));
                true
            },
            _ => false,
        }
    }
}

impl Clone for SolType {
    fn clone(&self) -> (r: Self)
        ensures
            r@ == self@,
    {
        self.duplicate()
    }
}

impl PartialEq for SolType {
    fn eq(&self, other: &Self) -> (r: bool) {
        self.same(other)
    }
}

impl vstd::std_specs::cmp::PartialEqSpecImpl for SolType {
    open spec fn obeys_eq_spec() -> bool {
        true
    }

    open spec fn eq_spec(&self, other: &Self) -> bool {
        self@ == other@
    }
}

/// Whether two byte strings hold the same bytes.
fn same_bytes(a: &[u8], b: &[u8]) -> (r: bool)
    ensures
        r == (a@ == b@),
{
    if a.len() != b.len() {
        return false;
    }
    let mut i: usize = 0;
    while i < a.len()
        invariant
            i <= a@.len() == b@.len(),
            forall|j: int| 0 <= j < i ==> a@[j] == b@[j],
        decreases a@.len() - i,
    {
        if a[i] != b[i] {
            return false;
        }
        i += 1;
    }
    assert(a@ =~= b@);
    true
}

impl SolValue {
    /// The kind of this value.
    pub fn kind(&self) -> (kind: Kind)
        ensures
            kind == self@.kind(),
    {
        match self {
            SolValue::Bool(_) => Kind::Bool,
            SolValue::Int(_, _) => Kind::Int,
            SolValue::Uint(_, _) => Kind::Uint,
            SolValue::FixedBytes(_, _) => Kind::FixedBytes,
            SolValue::Address(_) => Kind::Address,
            SolValue::Function(_) => Kind::Function,
            SolValue::Bytes(_) => Kind::Bytes,
            SolValue::String(_) => Kind::String,
            SolValue::Array(_) => Kind::Array,
            SolValue::FixedArray(_) => Kind::FixedArray,
            SolValue::Tuple(_) => Kind::Tuple,
        }
    }

    /// An independent copy of this value.
    pub fn duplicate(&self) -> (r: SolValue)
        ensures
            r@ == self@,
        decreases self,
    {
        match self {
            SolValue::Bool(b) => SolValue::Bool(*b),
            SolValue::Int(word, bits) => SolValue::Int(*word, *bits),
            SolValue::Uint(word, bits) => SolValue::Uint(*word, *bits),
            SolValue::FixedBytes(word, bytes) => SolValue::FixedBytes(*word, *bytes),
            SolValue::Address(a) => SolValue::Address(*a),
            SolValue::Function(f) => SolValue::Function(*f),
            SolValue::Bytes(b) => SolValue::Bytes(b.clone()),
            SolValue::String(s) => SolValue::String(s.clone()),
            SolValue::Array(items) => {
                assert(decreases_to!(*self => self->Array_0));
                let copies = Self::duplicate_all(items);
                proof {
                    lemma_value_models(copies@);
                    lemma_value_models(items@);
                    assert(value_models(copies@) =~= value_models(items@));
                }
                SolValue::Array(copies)
            },
            SolValue::FixedArray(items) => {
                assert(decreases_to!(*self => self->FixedArray_0));
                let copies = Self::duplicate_all(items);
                proof {
                    lemma_value_models(copies@);
                    lemma_value_models(items@);
                    assert(value_models(copies@) =~= value_models(items@));
                }
                SolValue::FixedArray(copies)
            },
            SolValue::Tuple(items) => {
                assert(decreases_to!(*self => self->Tuple_0));
                let copies = Self::duplicate_all(items);
                proof {
                    lemma_value_models(copies@);
                    lemma_value_models(items@);
                    assert(value_models(copies@) =~= value_models(items@));
                }
                SolValue::Tuple(copies)
            },
        }
    }

    /// Independent copies of the values, in order.
    fn duplicate_all(items: &Vec<SolValue>) -> (r: Vec<SolValue>)
        ensures
            r.len() == items.len(),
            forall|j: int| 0 <= j < items.len() ==> r[j]@ == items[j]@,
        decreases items,
    {
        let mut copies: Vec<SolValue> = Vec::new();
        let mut i: usize = 0;
        while i < items.len()
            invariant
                i <= items.len(),
                copies.len() == i,
                forall|j: int| 0 <= j < i ==> copies[j]@ == items[j]@,
            decreases items.len() - i,
        {
            copies.push(items[i].duplicate());
            i += 1;
        }
        copies
    }

    /// Whether two values hold the same data at the same widths.
    pub fn same(&self, other: &SolValue) -> (r: bool)
        ensures
            r == (self@ == other@),
        decreases self,
    {
        match (self, other) {
            (SolValue::Bool(a), SolValue::Bool(b)) => *a == *b,
            (SolValue::Int(a, n), SolValue::Int(b, m)) => *n == *m && same_bytes(
                a.as_slice(),
                b.as_slice(),
            ),
            (SolValue::Uint(a, n), SolValue::Uint(b, m)) => *n == *m && same_bytes(
                a.as_slice(),
                b.as_slice(),
            ),
            (SolValue::FixedBytes(a, n), SolValue::FixedBytes(b, m)) => *n == *m && same_bytes(
                a.as_slice(),
                b.as_slice(),
            ),
            (SolValue::Address(a), SolValue::Address(b)) => same_bytes(a.as_slice(), b.as_slice()),
            (SolValue::Function(a), SolValue::Function(b)) => same_bytes(
                a.as_slice(),
                b.as_slice(),
            ),
            (SolValue::Bytes(a), SolValue::Bytes(b)) => same_bytes(a.as_slice(), b.as_slice()),
            (SolValue::String(a), SolValue::String(b)) => *a == *b,
            (SolValue::Array(a), SolValue::Array(b)) => {
                assert(decreases_to!(*self => self->Array_0));
                Self::same_all(a, b)
            },
            (SolValue::FixedArray(a), SolValue::FixedArray(b)) => {
                assert(decreases_to!(*self => self->FixedArray_0));
                Self::same_all(a, b)
            },
            (SolValue::Tuple(a), SolValue::Tuple(b)) => {
                assert(decreases_to!(*self => self->Tuple_0));
                Self::same_all(a, b)
            },
            _ => false,
        }
    }

    /// Whether two sequences hold the same values in the same order.
    fn same_all(a: &Vec<SolValue>, b: &Vec<SolValue>) -> (r: bool)
        ensures
            r == (value_models(a@) == value_models(b@)),
        decreases a,
    {
        proof {
            lemma_value_models(a@);
            lemma_value_models(b@);
        }
        if a.len() != b.len() {
            return false;
        }
        let mut i: usize = 0;
        while i < a.len()
            invariant
                i <= a.len() == b.len(),
                value_models(a@).len() == a.len(),
                value_models(b@).len() == b.len(),
                forall|j: int| 0 <= j < a.len() ==> (#[trigger] value_models(a@)[j]) == a[j]@,
                forall|j: int| 0 <= j < b.len() ==> (#[trigger] value_models(b@)[j]) == b[j]@,
                forall|j: int| 0 <= j < i ==> a[j]@ == b[j]@,
            decreases a.len() - i,
        {
            if !a[i].same(&b[i]) {
                assert(value_models(a@)[i as int] != value_models(b@)[i as int]);
                return false;
            }
            i += 1;
        }
        assert(value_models(a@) =~= value_models(b@));
        true
    }
}

impl Clone for SolValue {
    fn clone(&self) -> (r: Self)
        ensures
            r@ == self@,
    {
        self.duplicate()
    }
}

impl PartialEq for SolValue {
    fn eq(&self, other: &Self) -> (r: bool) {
        self.same(other)
    }
}

impl vstd::std_specs::cmp::PartialEqSpecImpl for SolValue {
    open spec fn obeys_eq_spec() -> bool {
        true
    }

    open spec fn eq_spec(&self, other: &Self) -> bool {
        self@ == other@
    }
}

} // verus!
