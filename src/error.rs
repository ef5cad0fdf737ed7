//! The error kinds of the library.
use vstd::prelude::*;

verus! {

/// What can go wrong while reading or building a payload.
#[derive(Debug, PartialEq, Eq)]
pub enum PromptParseError {
    InvalidPayload,
    InvalidChecksum,
    InvalidTlv,
    TagNotFound(String),
    InvalidProxyType,
    InvalidAmount,
    InvalidMobileNumber,
    MissingRequiredField(String),
    InvalidBarcode,
    ParseError(String),
    EncodingError(String),
}

/// The text of a message with a detail appended.
pub open spec fn with_detail(prefix: Seq<char>, detail: String) -> Seq<char> {
    prefix + detail@
}

/// The human-readable message of each error.
pub open spec fn error_message(e: PromptParseError) -> Seq<char> {
    match e {
        PromptParseError::InvalidPayload => "Invalid payload format"@,
        PromptParseError::InvalidChecksum => "Invalid checksum"@,
        PromptParseError::InvalidTlv => "Invalid TLV data"@,
        PromptParseError::TagNotFound(tag) => with_detail("Tag not found: "@, tag),
        PromptParseError::InvalidProxyType => "Invalid proxy type"@,
        PromptParseError::InvalidAmount => "Invalid amount format"@,
        PromptParseError::InvalidMobileNumber => "Invalid mobile number format"@,
        PromptParseError::MissingRequiredField(field) => with_detail(
            "Missing required field: "@,
            field,
        ),
        PromptParseError::InvalidBarcode => "Invalid barcode format"@,
        PromptParseError::ParseError(msg) => with_detail("Parse error: "@, msg),
        PromptParseError::EncodingError(msg) => with_detail("Encoding error: "@, msg),
    }
}

fn detailed(prefix: &str, detail: &String) -> (r: String)
    ensures
        r@ == with_detail(prefix@, *detail),
{
    let mut out = String::from_str(prefix);
    out.append(detail.as_str());
    out
}

impl PromptParseError {
    /// The human-readable message of the error.
    pub fn to_string(&self) -> (r: String)
        ensures
            r@ == error_message(*self),
    {
        match self {
            PromptParseError::InvalidPayload => String::from_str("Invalid payload format"),
            PromptParseError::InvalidChecksum => String::from_str("Invalid checksum"),
            PromptParseError::InvalidTlv => String::from_str("Invalid TLV data"),
            PromptParseError::TagNotFound(tag) => detailed("Tag not found: ", tag),
            PromptParseError::InvalidProxyType => String::from_str("Invalid proxy type"),
            PromptParseError::InvalidAmount => String::from_str("Invalid amount format"),
            PromptParseError::InvalidMobileNumber => String::from_str(
                "Invalid mobile number format",
            ),
            PromptParseError::MissingRequiredField(field) => detailed(
                "Missing required field: ",
                field,
            ),
            PromptParseError::InvalidBarcode => String::from_str("Invalid barcode format"),
            PromptParseError::ParseError(msg) => detailed("Parse error: ", msg),
            PromptParseError::EncodingError(msg) => detailed("Encoding error: ", msg),
        }
    }
}

} // verus!
