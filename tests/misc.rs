use sway_sema::expression::{LazyOp, OpVariant};
use sway_sema::script_data::{format_field_to_hex, format_hex_data, script_data_from_hex, ScriptDataError};
use sway_sema::type_engine::{AbiName, CallPath};

#[test]
fn lazy_operators() {
    assert_eq!(LazyOp::from(OpVariant::And), LazyOp::And);
    assert_eq!(LazyOp::from(OpVariant::Or), LazyOp::Or);
}

#[test]
fn hex_prefix_is_cut() {
    assert_eq!(format_hex_data("0xdeadbeef"), "deadbeef");
    assert_eq!(format_hex_data("deadbeef"), "deadbeef");
    assert_eq!(format_hex_data("0x"), "");
}

#[test]
fn bytes_render_as_lowercase_hex() {
    assert_eq!(format_field_to_hex(vec![0x00, 0x0f, 0xab, 0xff]), "000fabff");
    assert_eq!(format_field_to_hex(vec![]), "");
}

#[test]
fn abi_names_display() {
    assert_eq!(AbiName::Deferred.to_display_string(), "for unspecified ABI");
    let cp = CallPath { prefixes: vec!["std".to_string(), "token".to_string()], suffix: "Token".to_string() };
    assert_eq!(AbiName::Known(cp).to_display_string(), "std::token::Token");
}

#[test]
fn script_data_decodes_hex() {
    assert_eq!(script_data_from_hex("0x0aFF").unwrap(), vec![10u8, 255]);
    assert_eq!(script_data_from_hex("").unwrap(), Vec::<u8>::new());
    assert_eq!(script_data_from_hex("abc"), Err(ScriptDataError::OddLength));
    assert_eq!(
        script_data_from_hex("0x1g"),
        Err(ScriptDataError::InvalidHexCharacter { c: 'g', index: 1 })
    );
}
