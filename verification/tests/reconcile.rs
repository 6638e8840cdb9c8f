use graph::abi::{fix_type_size, AbiError, DynSolValueExt, ErrorKind, SolType, SolValue};
use std::borrow::Cow;

fn word(n: u128) -> [u8; 32] {
    let mut w = [0u8; 32];
    w[16..].copy_from_slice(&n.to_be_bytes());
    w
}

#[test]
fn an_exact_value_is_handed_back_as_it_is() {
    let value = SolValue::Uint(word(42), 256);
    let fixed = fix_type_size(&SolType::Uint(256), &value).unwrap();
    assert!(matches!(fixed, Cow::Borrowed(_)));
    assert!(std::ptr::eq(fixed.as_ref(), &value));
}

#[test]
fn a_narrow_integer_is_widened() {
    let value = SolValue::Uint(word(42), 64);
    let fixed = fix_type_size(&SolType::Uint(256), &value).unwrap();
    assert!(matches!(fixed, Cow::Owned(_)));
    assert_eq!(fixed.into_owned(), SolValue::Uint(word(42), 256));
}

#[test]
fn a_narrow_negative_integer_keeps_its_value() {
    let mut minus_one = [0xffu8; 32];
    minus_one[31] = 0xff;
    let value = SolValue::Int(minus_one, 8);
    let fixed = fix_type_size(&SolType::Int(256), &value).unwrap();
    assert_eq!(fixed.into_owned(), SolValue::Int(minus_one, 256));
}

#[test]
fn narrow_fixed_bytes_are_widened() {
    let value = SolValue::fixed_bytes_from_slice(&[1, 2, 3]).unwrap();
    let fixed = fix_type_size(&SolType::FixedBytes(32), &value).unwrap().into_owned();
    let mut expected = [0u8; 32];
    expected[..3].copy_from_slice(&[1, 2, 3]);
    assert_eq!(fixed, SolValue::FixedBytes(expected, 32));
    assert!(fixed.matches(&SolType::FixedBytes(32)));
}

#[test]
fn widths_are_fixed_at_every_node() {
    let ty = SolType::Tuple(vec![
        SolType::Array(Box::new(SolType::Uint(256))),
        SolType::FixedArray(Box::new(SolType::Int(128)), 2),
        SolType::String,
    ]);
    let value = SolValue::Tuple(vec![
        SolValue::Array(vec![SolValue::Uint(word(1), 8), SolValue::Uint(word(2), 256)]),
        SolValue::FixedArray(vec![SolValue::Int(word(3), 16), SolValue::Int(word(4), 128)]),
        SolValue::String("abc".to_owned()),
    ]);
    assert!(!value.matches(&ty));
    assert!(value.type_check(&ty));
    let fixed = fix_type_size(&ty, &value).unwrap().into_owned();
    assert!(fixed.matches(&ty));
    assert_eq!(
        fixed,
        SolValue::Tuple(vec![
            SolValue::Array(vec![SolValue::Uint(word(1), 256), SolValue::Uint(word(2), 256)]),
            SolValue::FixedArray(vec![SolValue::Int(word(3), 128), SolValue::Int(word(4), 128)]),
            SolValue::String("abc".to_owned()),
        ])
    );
}

#[test]
fn reconciling_twice_changes_nothing_more() {
    let ty = SolType::Array(Box::new(SolType::Uint(256)));
    let value = SolValue::Array(vec![SolValue::Uint(word(9), 32)]);
    let once = fix_type_size(&ty, &value).unwrap().into_owned();
    let twice = fix_type_size(&ty, &once).unwrap();
    assert!(matches!(twice, Cow::Borrowed(_)));
    assert_eq!(*twice, once);
}

#[test]
fn another_kind_is_a_mismatch() {
    let value = SolValue::Bool(true);
    let err = fix_type_size(&SolType::Uint(256), &value).unwrap_err();
    assert_eq!(err.kind(), ErrorKind::TypeMismatch);
    match err {
        AbiError::TypeMismatch { expected, actual } => {
            assert_eq!(expected, SolType::Uint(256));
            assert_eq!(actual, SolValue::Bool(true));
        },
        other => panic!("{other:?}"),
    }
}

#[test]
fn every_other_kind_is_a_mismatch() {
    let values = [
        SolValue::Bool(true),
        SolValue::Int(word(1), 256),
        SolValue::Uint(word(1), 256),
        SolValue::FixedBytes(word(1), 32),
        SolValue::Address([1; 20]),
        SolValue::Function([1; 24]),
        SolValue::Bytes(vec![1]),
        SolValue::String("1".to_owned()),
        SolValue::Array(vec![]),
        SolValue::FixedArray(vec![]),
        SolValue::Tuple(vec![]),
    ];
    let types = [
        SolType::Bool,
        SolType::Int(256),
        SolType::Uint(256),
        SolType::FixedBytes(32),
        SolType::Address,
        SolType::Function,
        SolType::Bytes,
        SolType::String,
        SolType::Array(Box::new(SolType::Bool)),
        SolType::FixedArray(Box::new(SolType::Bool), 0),
        SolType::Tuple(vec![]),
    ];
    for (i, value) in values.iter().enumerate() {
        for (j, ty) in types.iter().enumerate() {
            let result = fix_type_size(ty, value);
            if i == j {
                assert!(matches!(result, Ok(Cow::Borrowed(_))));
            } else {
                assert_eq!(result.unwrap_err().kind(), ErrorKind::TypeMismatch);
            }
        }
    }
}

#[test]
fn a_wider_value_is_a_mismatch() {
    let value = SolValue::Uint(word(1), 256);
    let err = fix_type_size(&SolType::Uint(8), &value).unwrap_err();
    assert_eq!(err.kind(), ErrorKind::TypeMismatch);
}

#[test]
fn a_fixed_array_of_another_length_is_a_mismatch() {
    let ty = SolType::FixedArray(Box::new(SolType::Bool), 2);
    let value = SolValue::FixedArray(vec![SolValue::Bool(true)]);
    assert_eq!(fix_type_size(&ty, &value).unwrap_err().kind(), ErrorKind::TypeMismatch);
}

#[test]
fn a_tuple_that_overruns_its_type_is_a_mismatch() {
    let ty = SolType::Tuple(vec![SolType::Bool]);
    let value = SolValue::Tuple(vec![SolValue::Bool(true), SolValue::Bool(true)]);
    assert_eq!(fix_type_size(&ty, &value).unwrap_err().kind(), ErrorKind::TypeMismatch);
}

#[test]
fn a_tuple_that_stops_short_is_left_to_the_decoder() {
    let ty = SolType::Tuple(vec![SolType::Uint(256), SolType::Uint(256)]);
    let value = SolValue::Tuple(vec![SolValue::Uint(word(1), 256)]);
    let err = fix_type_size(&ty, &value).unwrap_err();
    assert_eq!(err.kind(), ErrorKind::Decode);
}

#[test]
fn a_zero_sized_type_is_decoded_to_an_empty_sequence() {
    let unit = SolType::Tuple(vec![SolType::Tuple(vec![])]);
    let ty = SolType::FixedArray(Box::new(unit), 2);
    assert!(ty.is_zero_sized());
    let value = SolValue::FixedArray(vec![SolValue::Tuple(vec![]), SolValue::Tuple(vec![])]);
    assert!(value.type_check(&ty));
    assert!(!value.matches(&ty));
    let fixed = fix_type_size(&ty, &value).unwrap().into_owned();
    assert_eq!(fixed, SolValue::FixedArray(vec![]));
    assert!(!fixed.matches(&ty));
    assert_eq!(fix_type_size(&ty, &fixed).unwrap_err().kind(), ErrorKind::TypeMismatch);
}
