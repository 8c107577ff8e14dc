//! The errors of encoding, decoding and schema compilation.

use crate::types::integer::Integer;
use std::string::FromUtf8Error;
use vstd::prelude::*;
use vstd::std_specs::convert::FromSpecImpl;
use vstd::string::StringExecFns;

verus! {

/// Why a value could not be read, written, or a schema not compiled.
#[derive(Debug, PartialEq, Eq)]
pub enum ProtoRwError {
    /// The stream ended before a primitive or a declared length was complete.
    TruncatedInput,
    /// The bytes of a string are not UTF-8.
    InvalidUtf8,
    /// A boolean was encoded as a byte other than 0 or 1.
    InvalidBoolValue(u8),
    /// The discriminant read for a union belongs to none of its variants.
    UnknownDiscriminant(Integer),
    /// A fixed-size collection was given another number of elements.
    ArityMismatch { expected: usize },
    /// An element count does not fit the integer kind that carries it.
    LengthOverflow,
    /// A variable-length integer runs past the width of its type.
    VarIntOverflow,
    /// The schema is malformed; the message says how.
    SchemaViolation(String),
    /// Any other failure, described by its message.
    Error(String),
}

/// The mathematical content of a [`ProtoRwError`].
pub enum ErrorView {
    TruncatedInput,
    InvalidUtf8,
    InvalidBoolValue(u8),
    UnknownDiscriminant(int),
    ArityMismatch { expected: nat },
    LengthOverflow,
    VarIntOverflow,
    SchemaViolation(Seq<char>),
    Error(Seq<char>),
}

impl From<FromUtf8Error> for ProtoRwError {
    /// Bytes that are not UTF-8 are reported as `InvalidUtf8`.
    fn from(e: FromUtf8Error) -> (r: ProtoRwError) {
        ProtoRwError::InvalidUtf8
    }
}

impl FromSpecImpl<FromUtf8Error> for ProtoRwError {
    open spec fn obeys_from_spec() -> bool {
        true
    }

    open spec fn from_spec(e: FromUtf8Error) -> ProtoRwError {
        ProtoRwError::InvalidUtf8
    }
}

impl View for ProtoRwError {
    type V = ErrorView;

    open spec fn view(&self) -> ErrorView {
        match self {
            ProtoRwError::TruncatedInput => ErrorView::TruncatedInput,
            ProtoRwError::InvalidUtf8 => ErrorView::InvalidUtf8,
            ProtoRwError::InvalidBoolValue(b) => ErrorView::InvalidBoolValue(*b),
            ProtoRwError::UnknownDiscriminant(d) => ErrorView::UnknownDiscriminant(d@),
            ProtoRwError::ArityMismatch { expected } => ErrorView::ArityMismatch {
                expected: *expected as nat,
            },
            ProtoRwError::LengthOverflow => ErrorView::LengthOverflow,
            ProtoRwError::VarIntOverflow => ErrorView::VarIntOverflow,
            ProtoRwError::SchemaViolation(m) => ErrorView::SchemaViolation(m@),
            ProtoRwError::Error(m) => ErrorView::Error(m@),
        }
    }
}

/// The text of one decimal digit.
pub open spec fn digit_text(digit: nat) -> Seq<char> {
    if digit == 0 {
        "0"@
    } else if digit == 1 {
        "1"@
    } else if digit == 2 {
        "2"@
    } else if digit == 3 {
        "3"@
    } else if digit == 4 {
        "4"@
    } else if digit == 5 {
        "5"@
    } else if digit == 6 {
        "6"@
    } else if digit == 7 {
        "7"@
    } else if digit == 8 {
        "8"@
    } else {
        "9"@
    }
}

/// The decimal text of a natural number, without leading zeros.
pub open spec fn decimal(n: nat) -> Seq<char>
    decreases n,
{
    if n < 10 {
        digit_text(n)
    } else {
        decimal(n / 10) + digit_text(n % 10)
    }
}

/// The decimal text of an integer, with a minus sign where it is negative.
pub open spec fn signed_decimal(n: int) -> Seq<char> {
    if n < 0 {
        "-"@ + decimal((-n) as nat)
    } else {
        decimal(n as nat)
    }
}

impl ErrorView {
    /// The message of the error.
    pub open spec fn message(self) -> Seq<char> {
        match self {
            ErrorView::TruncatedInput => "Unexpected end of input"@,
            ErrorView::InvalidUtf8 => "Invalid UTF-8 in a string"@,
            ErrorView::InvalidBoolValue(value) => "Get "@ + decimal(value as nat)
                + " while reading bool. Expected 0 or 1"@,
            ErrorView::UnknownDiscriminant(value) => "Get "@ + signed_decimal(value)
                + " while reading a union"@,
            ErrorView::ArityMismatch { expected } => "Array length does not match. Expected "@
                + decimal(expected),
            ErrorView::LengthOverflow => "Length does not fit its integer kind"@,
            ErrorView::VarIntOverflow => "Variable-length integer is too long for its type"@,
            ErrorView::SchemaViolation(message) => "Schema violation: "@ + message,
            ErrorView::Error(message) => message,
        }
    }
}

fn digit_str(digit: u128) -> (text: &'static str)
    requires
        digit < 10,
    ensures
        text@ == digit_text(digit as nat),
{
    if digit == 0 {
        "0"
    } else if digit == 1 {
        "1"
    } else if digit == 2 {
        "2"
    } else if digit == 3 {
        "3"
    } else if digit == 4 {
        "4"
    } else if digit == 5 {
        "5"
    } else if digit == 6 {
        "6"
    } else if digit == 7 {
        "7"
    } else if digit == 8 {
        "8"
    } else {
        "9"
    }
}

/// The decimal text of `n`.
pub fn decimal_string(n: u128) -> (text: String)
    ensures
        text@ == decimal(n as nat),
    decreases n,
{
    if n < 10 {
        digit_str(n).to_owned()
    } else {
        let mut text = decimal_string(n / 10);
        text.append(digit_str(n % 10));
        text
    }
}

/// The decimal text of `n`.
pub fn integer_string(n: Integer) -> (text: String)
    ensures
        text@ == signed_decimal(n@),
{
    match n {
        Integer::Unsigned(n) => decimal_string(n),
        Integer::Signed(n) => if n >= 0 {
            decimal_string(n as u128)
        } else {
            let magnitude: u128 = ((-(n + 1)) as u128) + 1;
            let mut text = "-".to_owned();
            text.append(decimal_string(magnitude).as_str());
            text
        },
    }
}

impl ProtoRwError {
    /// The message of the error.
    pub fn to_string(&self) -> (text: String)
        ensures
            text@ == self@.message(),
    {
        match self {
            ProtoRwError::TruncatedInput => "Unexpected end of input".to_owned(),
            ProtoRwError::InvalidUtf8 => "Invalid UTF-8 in a string".to_owned(),
            ProtoRwError::InvalidBoolValue(value) => {
                let mut text = "Get ".to_owned();
                text.append(decimal_string(*value as u128).as_str());
                text.append(" while reading bool. Expected 0 or 1");
                text
            },
            ProtoRwError::UnknownDiscriminant(value) => {
                let mut text = "Get ".to_owned();
                text.append(integer_string(*value).as_str());
                text.append(" while reading a union");
                text
            },
            ProtoRwError::ArityMismatch { expected } => {
                let mut text = "Array length does not match. Expected ".to_owned();
                text.append(decimal_string(*expected as u128).as_str());
                text
            },
            ProtoRwError::LengthOverflow => "Length does not fit its integer kind".to_owned(),
            ProtoRwError::VarIntOverflow => "Variable-length integer is too long for its type"
                .to_owned(),
            ProtoRwError::SchemaViolation(message) => {
                let mut text = "Schema violation: ".to_owned();
                text.append(message.as_str());
                text
            },
            ProtoRwError::Error(message) => message.clone(),
        }
    }
}

} // verus!
