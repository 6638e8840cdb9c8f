use graph::abi::{AbiError, DynSolValueExt, ErrorKind, SolType, SolValue};

fn word(n: u128) -> [u8; 32] {
    let mut w = [0u8; 32];
    w[16..].copy_from_slice(&n.to_be_bytes());
    w
}

fn uint(n: u128) -> SolValue {
    SolValue::Uint(word(n), 256)
}

#[test]
fn fixed_bytes_from_slice_pads_on_the_right() {
    let value = SolValue::fixed_bytes_from_slice(&[1, 2, 3]).unwrap();
    let mut expected = [0u8; 32];
    expected[0] = 1;
    expected[1] = 2;
    expected[2] = 3;
    assert_eq!(value, SolValue::FixedBytes(expected, 3));
}

#[test]
fn fixed_bytes_from_slice_takes_an_empty_slice() {
    let value = SolValue::fixed_bytes_from_slice(&[]).unwrap();
    assert_eq!(value, SolValue::FixedBytes([0u8; 32], 0));
}

#[test]
fn fixed_bytes_from_slice_takes_a_full_word() {
    let bytes = [0xabu8; 32];
    let value = SolValue::fixed_bytes_from_slice(&bytes).unwrap();
    assert_eq!(value, SolValue::FixedBytes(bytes, 32));
}

#[test]
fn fixed_bytes_from_slice_refuses_thirty_three_bytes() {
    let err = SolValue::fixed_bytes_from_slice(&[7u8; 33]).unwrap_err();
    assert_eq!(err.kind(), ErrorKind::InvalidLength);
    assert!(matches!(err, AbiError::InvalidLength { len: 33 }));
}

#[test]
fn fixed_bytes_from_slice_agrees_with_its_length_for_every_size() {
    for len in 0..=40usize {
        let bytes = vec![0x5au8; len];
        let result = SolValue::fixed_bytes_from_slice(&bytes);
        assert_eq!(result.is_err(), len > 32);
        if let Ok(SolValue::FixedBytes(word, size)) = result {
            assert_eq!(size, len);
            assert!(word[..len].iter().all(|b| *b == 0x5a));
            assert!(word[len..].iter().all(|b| *b == 0));
        }
    }
}

#[test]
fn to_string_of_booleans() {
    assert_eq!(SolValue::Bool(true).to_string(), "true");
    assert_eq!(SolValue::Bool(false).to_string(), "false");
}

#[test]
fn to_string_of_unsigned_integers() {
    assert_eq!(uint(0).to_string(), "0");
    assert_eq!(uint(1).to_string(), "1");
    assert_eq!(uint(255).to_string(), "ff");
    assert_eq!(uint(256).to_string(), "100");
    assert_eq!(uint(0xdead_beef).to_string(), "deadbeef");
    assert_eq!(SolValue::Uint([0xff; 32], 256).to_string(), "f".repeat(64));
}

#[test]
fn to_string_of_an_integer_does_not_show_its_width() {
    assert_eq!(SolValue::Uint(word(10), 8).to_string(), "a");
    assert_eq!(SolValue::Uint(word(10), 256).to_string(), "a");
}

#[test]
fn to_string_of_signed_integers_is_twos_complement() {
    assert_eq!(SolValue::Int(word(5), 256).to_string(), "5");
    assert_eq!(SolValue::Int([0xff; 32], 256).to_string(), "f".repeat(64));
    let mut minus_two = [0xffu8; 32];
    minus_two[31] = 0xfe;
    assert_eq!(SolValue::Int(minus_two, 256).to_string(), format!("{}e", "f".repeat(63)));
}

#[test]
fn to_string_of_integers_is_what_alloy_prints() {
    for n in [0u128, 1, 9, 10, 15, 16, 255, 4096, u64::MAX as u128, u128::MAX] {
        let expected = format!("{:x}", alloy::primitives::U256::from(n));
        assert_eq!(uint(n).to_string(), expected);
        let signed = alloy::primitives::I256::from_be_bytes(word(n));
        assert_eq!(SolValue::Int(word(n), 256).to_string(), format!("{signed:x}"));
    }
    let minus_one = alloy::primitives::I256::MINUS_ONE;
    assert_eq!(
        SolValue::Int(minus_one.to_be_bytes(), 256).to_string(),
        format!("{minus_one:x}")
    );
}

#[test]
fn to_string_of_fixed_bytes_shows_the_whole_slot() {
    let value = SolValue::fixed_bytes_from_slice(&[1, 2, 0xab]).unwrap();
    assert_eq!(value.to_string(), format!("0102ab{}", "0".repeat(58)));
}

#[test]
fn to_string_of_addresses_and_functions() {
    assert_eq!(SolValue::Address([0x11; 20]).to_string(), "11".repeat(20));
    let mut address = [0u8; 20];
    address[19] = 0x0f;
    assert_eq!(SolValue::Address(address).to_string(), format!("{}0f", "00".repeat(19)));
    assert_eq!(SolValue::Function([0xa0; 24]).to_string(), "a0".repeat(24));
    let outside = alloy::primitives::Address::new(address);
    assert_eq!(SolValue::Address(address).to_string(), format!("{outside:x}"));
}

#[test]
fn to_string_of_bytes_is_what_hex_encodes() {
    assert_eq!(SolValue::Bytes(vec![]).to_string(), "");
    assert_eq!(SolValue::Bytes(vec![1, 2, 3, 15, 16]).to_string(), "0102030f10");
    let all: Vec<u8> = (0..=255u8).collect();
    assert_eq!(SolValue::Bytes(all.clone()).to_string(), hex::encode(&all));
}

#[test]
fn to_string_of_strings_is_the_string() {
    assert_eq!(SolValue::String(String::new()).to_string(), "");
    assert_eq!(SolValue::String("héllo, wörld".to_owned()).to_string(), "héllo, wörld");
}

#[test]
fn to_string_of_sequences() {
    assert_eq!(SolValue::Array(vec![]).to_string(), "[]");
    assert_eq!(SolValue::FixedArray(vec![uint(1)]).to_string(), "[1]");
    assert_eq!(SolValue::Array(vec![uint(1), uint(2), uint(3)]).to_string(), "[1,2,3]");
    assert_eq!(SolValue::Tuple(vec![]).to_string(), "()");
    assert_eq!(
        SolValue::Tuple(vec![SolValue::Bool(true), SolValue::String("a".to_owned())]).to_string(),
        "(true,a)"
    );
    let nested = SolValue::Tuple(vec![
        SolValue::Array(vec![SolValue::Tuple(vec![uint(16), SolValue::Bool(false)])]),
        SolValue::Bytes(vec![0xff]),
    ]);
    assert_eq!(nested.to_string(), "([(10,false)],ff)");
}

#[test]
fn type_check_of_simple_values() {
    assert!(SolValue::Bool(true).type_check(&SolType::Bool));
    assert!(!SolValue::Bool(true).type_check(&SolType::Uint(8)));
    assert!(SolValue::Address([0; 20]).type_check(&SolType::Address));
    assert!(!SolValue::Address([0; 20]).type_check(&SolType::Function));
    assert!(SolValue::Function([0; 24]).type_check(&SolType::Function));
    assert!(SolValue::Bytes(vec![1]).type_check(&SolType::Bytes));
    assert!(!SolValue::Bytes(vec![1]).type_check(&SolType::String));
    assert!(!SolValue::Bytes(vec![1]).type_check(&SolType::FixedBytes(1)));
    assert!(SolValue::String("x".to_owned()).type_check(&SolType::String));
}

#[test]
fn type_check_takes_a_narrower_width() {
    let narrow = SolValue::Uint(word(1), 64);
    assert!(narrow.type_check(&SolType::Uint(64)));
    assert!(narrow.type_check(&SolType::Uint(256)));
    assert!(!narrow.type_check(&SolType::Uint(32)));
    assert!(!narrow.type_check(&SolType::Int(256)));
    let signed = SolValue::Int(word(1), 8);
    assert!(signed.type_check(&SolType::Int(8)));
    assert!(signed.type_check(&SolType::Int(16)));
    assert!(!signed.type_check(&SolType::Uint(16)));
    let bytes = SolValue::fixed_bytes_from_slice(&[1, 2]).unwrap();
    assert!(bytes.type_check(&SolType::FixedBytes(2)));
    assert!(bytes.type_check(&SolType::FixedBytes(32)));
    assert!(!bytes.type_check(&SolType::FixedBytes(1)));
}

#[test]
fn type_check_of_arrays() {
    let ty = SolType::Array(Box::new(SolType::Uint(256)));
    assert!(SolValue::Array(vec![]).type_check(&ty));
    assert!(SolValue::Array(vec![SolValue::Uint(word(1), 8), uint(2)]).type_check(&ty));
    assert!(!SolValue::Array(vec![uint(1), SolValue::Bool(true)]).type_check(&ty));
    assert!(!SolValue::FixedArray(vec![uint(1)]).type_check(&ty));
    assert!(!SolValue::Tuple(vec![uint(1)]).type_check(&ty));
}

#[test]
fn type_check_of_fixed_arrays_needs_the_length() {
    let ty = SolType::FixedArray(Box::new(SolType::Bool), 2);
    let two = SolValue::FixedArray(vec![SolValue::Bool(true), SolValue::Bool(false)]);
    let one = SolValue::FixedArray(vec![SolValue::Bool(true)]);
    let three = SolValue::FixedArray(vec![
        SolValue::Bool(true),
        SolValue::Bool(true),
        SolValue::Bool(true),
    ]);
    assert!(two.type_check(&ty));
    assert!(!one.type_check(&ty));
    assert!(!three.type_check(&ty));
    assert!(!SolValue::FixedArray(vec![uint(1), uint(2)]).type_check(&ty));
    assert!(!SolValue::Array(vec![SolValue::Bool(true), SolValue::Bool(false)]).type_check(&ty));
}

#[test]
fn type_check_of_tuples_goes_by_position() {
    let ty = SolType::Tuple(vec![SolType::Uint(256), SolType::Bool]);
    assert!(SolValue::Tuple(vec![uint(1), SolValue::Bool(true)]).type_check(&ty));
    assert!(SolValue::Tuple(vec![SolValue::Uint(word(1), 8), SolValue::Bool(true)])
        .type_check(&ty));
    assert!(!SolValue::Tuple(vec![SolValue::Bool(true), uint(1)]).type_check(&ty));
}

#[test]
fn type_check_of_a_tuple_that_stops_short_or_overruns() {
    let ty = SolType::Tuple(vec![SolType::Uint(256), SolType::Bool]);
    assert!(SolValue::Tuple(vec![]).type_check(&ty));
    assert!(SolValue::Tuple(vec![uint(1)]).type_check(&ty));
    assert!(!SolValue::Tuple(vec![uint(1), SolValue::Bool(true), uint(2)]).type_check(&ty));
}

#[test]
fn matches_needs_the_exact_width() {
    let narrow = SolValue::Uint(word(1), 64);
    assert!(narrow.matches(&SolType::Uint(64)));
    assert!(!narrow.matches(&SolType::Uint(256)));
    let ty = SolType::Tuple(vec![SolType::Uint(256), SolType::Bool]);
    assert!(SolValue::Tuple(vec![uint(1), SolValue::Bool(true)]).matches(&ty));
    assert!(!SolValue::Tuple(vec![uint(1)]).matches(&ty));
    assert!(!SolValue::Tuple(vec![SolValue::Uint(word(1), 8), SolValue::Bool(true)]).matches(&ty));
}

#[test]
fn matches_implies_type_check() {
    let types = [
        SolType::Bool,
        SolType::Uint(8),
        SolType::Uint(256),
        SolType::Int(256),
        SolType::Array(Box::new(SolType::Uint(8))),
        SolType::Tuple(vec![SolType::Uint(8), SolType::Bool]),
    ];
    let values = [
        SolValue::Bool(true),
        SolValue::Uint(word(1), 8),
        uint(1),
        SolValue::Int(word(1), 256),
        SolValue::Array(vec![SolValue::Uint(word(1), 8)]),
        SolValue::Tuple(vec![SolValue::Uint(word(1), 8), SolValue::Bool(true)]),
        SolValue::Tuple(vec![SolValue::Uint(word(1), 8)]),
    ];
    for value in &values {
        for ty in &types {
            if value.matches(ty) {
                assert!(value.type_check(ty));
            }
        }
    }
}

#[test]
fn clone_and_equality_go_by_the_data() {
    let value = SolValue::Tuple(vec![
        uint(7),
        SolValue::Array(vec![SolValue::String("a".to_owned()), SolValue::String("b".to_owned())]),
    ]);
    let copy = value.clone();
    assert_eq!(copy, value);
    assert_ne!(copy, SolValue::Tuple(vec![uint(7)]));
    assert_ne!(uint(7), SolValue::Uint(word(7), 8));
    assert_ne!(uint(7), SolValue::Int(word(7), 256));
    let ty = SolType::FixedArray(Box::new(SolType::Tuple(vec![SolType::Bool])), 3);
    assert_eq!(ty.clone(), ty);
    assert_ne!(ty, SolType::FixedArray(Box::new(SolType::Tuple(vec![SolType::Bool])), 4));
}

#[test]
fn zero_sized_types() {
    assert!(SolType::Tuple(vec![]).is_zero_sized());
    assert!(SolType::FixedArray(Box::new(SolType::Uint(256)), 0).is_zero_sized());
    assert!(SolType::Array(Box::new(SolType::Tuple(vec![]))).is_zero_sized());
    assert!(SolType::Tuple(vec![SolType::Tuple(vec![]), SolType::Tuple(vec![])]).is_zero_sized());
    assert!(!SolType::Uint(256).is_zero_sized());
    assert!(!SolType::Array(Box::new(SolType::Uint(256))).is_zero_sized());
    assert!(!SolType::Tuple(vec![SolType::Tuple(vec![]), SolType::Bool]).is_zero_sized());
    assert!(!SolType::Bytes.is_zero_sized());
}
