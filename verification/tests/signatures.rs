use graph::abi::{Function, FunctionExt, Param, SolType};

fn param(ty: SolType) -> Param {
    Param { name: String::new(), ty }
}

fn function(name: &str, inputs: Vec<SolType>, outputs: Vec<SolType>) -> Function {
    Function {
        name: name.to_owned(),
        inputs: inputs.into_iter().map(param).collect(),
        outputs: outputs.into_iter().map(param).collect(),
    }
}

#[test]
fn signature_without_parameters() {
    assert_eq!(function("f", vec![], vec![]).signature_compat(), "f()");
}

#[test]
fn signature_with_one_input() {
    assert_eq!(function("f", vec![SolType::Uint(256)], vec![]).signature_compat(), "f(uint256)");
}

#[test]
fn signature_with_outputs() {
    let f = function("f", vec![SolType::Bool], vec![SolType::Uint(256), SolType::String]);
    assert_eq!(f.signature_compat(), "f(bool):(uint256,string)");
}

#[test]
fn signature_with_outputs_only() {
    let f = function("functionName", vec![], vec![SolType::Uint(256)]);
    assert_eq!(f.signature_compat(), "functionName():(uint256)");
}

#[test]
fn signature_with_two_inputs_and_two_outputs() {
    let f = function(
        "functionName",
        vec![SolType::Uint(256), SolType::FixedBytes(32)],
        vec![SolType::String, SolType::Uint(256)],
    );
    assert_eq!(f.signature_compat(), "functionName(uint256,bytes32):(string,uint256)");
}

#[test]
fn signature_of_every_simple_type() {
    let f = function(
        "all",
        vec![
            SolType::Bool,
            SolType::Int(8),
            SolType::Uint(16),
            SolType::FixedBytes(4),
            SolType::Address,
            SolType::Function,
            SolType::Bytes,
            SolType::String,
        ],
        vec![],
    );
    assert_eq!(f.signature_compat(), "all(bool,int8,uint16,bytes4,address,function,bytes,string)");
}

#[test]
fn signature_of_arrays_and_tuples() {
    let pair = SolType::Tuple(vec![SolType::Address, SolType::Uint(256)]);
    let f = function(
        "g",
        vec![
            SolType::Array(Box::new(SolType::Uint(8))),
            SolType::FixedArray(Box::new(SolType::Bool), 10),
            SolType::Array(Box::new(pair.clone())),
            SolType::Tuple(vec![]),
            SolType::Tuple(vec![SolType::Array(Box::new(SolType::FixedArray(
                Box::new(pair),
                2,
            )))]),
        ],
        vec![],
    );
    assert_eq!(
        f.signature_compat(),
        "g(uint8[],bool[10],(address,uint256)[],(),((address,uint256)[2][]))"
    );
}

#[test]
fn signature_keeps_the_name_as_it_is() {
    assert_eq!(function("", vec![SolType::Bool], vec![]).signature_compat(), "(bool)");
    assert_eq!(function("名前", vec![], vec![SolType::Bool]).signature_compat(), "名前():(bool)");
}

#[test]
fn signature_of_widths_in_decimal() {
    let f = function(
        "w",
        vec![
            SolType::Uint(0),
            SolType::Uint(9),
            SolType::Uint(10),
            SolType::FixedArray(Box::new(SolType::Bool), 1234567890),
        ],
        vec![],
    );
    assert_eq!(f.signature_compat(), "w(uint0,uint9,uint10,bool[1234567890])");
}

#[test]
fn signature_is_what_alloy_gives_for_the_parsed_function() {
    let f = function(
        "transferFrom",
        vec![SolType::Address, SolType::Address, SolType::Uint(256)],
        vec![SolType::Bool],
    );
    let outside =
        alloy::json_abi::Function::parse("transferFrom(address,address,uint256) returns (bool)")
            .unwrap();
    assert_eq!(f.signature_compat(), "transferFrom(address,address,uint256):(bool)");
    assert_eq!(
        function("transferFrom", vec![SolType::Address, SolType::Address, SolType::Uint(256)], vec![])
            .signature_compat(),
        outside.signature()
    );
}

#[test]
fn selector_of_transfer() {
    let f = function("transfer", vec![SolType::Address, SolType::Uint(256)], vec![SolType::Bool]);
    assert_eq!(f.selector(), [0xa9, 0x05, 0x9c, 0xbb]);
}

#[test]
fn selector_is_what_alloy_gives_for_the_parsed_function() {
    let f = function(
        "swap",
        vec![
            SolType::Tuple(vec![SolType::Address, SolType::Uint(24)]),
            SolType::Array(Box::new(SolType::Bytes)),
        ],
        vec![],
    );
    let outside = alloy::json_abi::Function::parse("swap((address,uint24),bytes[])").unwrap();
    assert_eq!(f.selector(), outside.selector().0);
}
