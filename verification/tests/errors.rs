use proto_rw::error::{decimal_string, integer_string, ProtoRwError};
use proto_rw::types::integer::Integer;

#[test]
fn every_error_has_its_message() {
    assert_eq!(ProtoRwError::TruncatedInput.to_string(), "Unexpected end of input");
    assert_eq!(ProtoRwError::InvalidUtf8.to_string(), "Invalid UTF-8 in a string");
    assert_eq!(
        ProtoRwError::InvalidBoolValue(2).to_string(),
        "Get 2 while reading bool. Expected 0 or 1"
    );
    assert_eq!(
        ProtoRwError::InvalidBoolValue(255).to_string(),
        "Get 255 while reading bool. Expected 0 or 1"
    );
    assert_eq!(
        ProtoRwError::UnknownDiscriminant(Integer::Unsigned(5)).to_string(),
        "Get 5 while reading a union"
    );
    assert_eq!(
        ProtoRwError::UnknownDiscriminant(Integer::Signed(-120)).to_string(),
        "Get -120 while reading a union"
    );
    assert_eq!(
        ProtoRwError::ArityMismatch { expected: 4 }.to_string(),
        "Array length does not match. Expected 4"
    );
    assert_eq!(ProtoRwError::LengthOverflow.to_string(), "Length does not fit its integer kind");
    assert_eq!(
        ProtoRwError::VarIntOverflow.to_string(),
        "Variable-length integer is too long for its type"
    );
    assert_eq!(
        ProtoRwError::SchemaViolation("two variants have the same discriminant".to_string())
            .to_string(),
        "Schema violation: two variants have the same discriminant"
    );
    assert_eq!(ProtoRwError::Error("anything".to_string()).to_string(), "anything");
    assert_eq!(ProtoRwError::Error(String::new()).to_string(), "");
}

#[test]
fn numbers_are_written_in_decimal() {
    assert_eq!(decimal_string(0), "0");
    assert_eq!(decimal_string(9), "9");
    assert_eq!(decimal_string(10), "10");
    assert_eq!(decimal_string(1234567890), "1234567890");
    assert_eq!(decimal_string(u128::MAX), u128::MAX.to_string());
    assert_eq!(integer_string(Integer::Signed(0)), "0");
    assert_eq!(integer_string(Integer::Signed(-1)), "-1");
    assert_eq!(integer_string(Integer::Signed(i128::MIN)), i128::MIN.to_string());
    assert_eq!(integer_string(Integer::Signed(i128::MAX)), i128::MAX.to_string());
    assert_eq!(integer_string(Integer::Unsigned(u128::MAX)), u128::MAX.to_string());
}

#[test]
fn bytes_that_are_not_text_become_invalid_utf8() {
    let failure = String::from_utf8(vec![0xFF]).unwrap_err();
    assert_eq!(ProtoRwError::from(failure), ProtoRwError::InvalidUtf8);
}
