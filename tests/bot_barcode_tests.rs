use promptparse::generate::{bot_barcode, BotBarcodeConfig};
use promptparse::{parse_barcode, BotBarcode, PromptParseError};

#[test]
fn test_bot_barcode_from_string() {
    let payload = "|099999999999990\r111222333444\r\r0";
    let barcode = BotBarcode::from_string(payload).unwrap();

    assert_eq!(barcode.biller_id, "099999999999990");
    assert_eq!(barcode.ref1, "111222333444");
    assert_eq!(barcode.ref2, None);
    assert_eq!(barcode.amount, None);
}

#[test]
fn bot_barcode_test_bot_barcode_with_ref2_and_amount() {
    let payload = "|099400016550100\r123456789012\r670429\r364922";
    let barcode = BotBarcode::from_string(payload).unwrap();

    assert_eq!(barcode.biller_id, "099400016550100");
    assert_eq!(barcode.ref1, "123456789012");
    assert_eq!(barcode.ref2, Some("670429".to_string()));
    assert_eq!(barcode.amount, Some(364922));
}

#[test]
fn test_bot_barcode_to_string() {
    let barcode = BotBarcode::new(
        "099999999999990".to_string(),
        "111222333444".to_string(),
        None,
        None,
    );

    assert_eq!(barcode.to_string(), "|099999999999990\r111222333444\r\r0");
}

#[test]
fn test_bot_barcode_invalid_format() {
    assert!(BotBarcode::from_string("invalid").is_none());
    assert!(BotBarcode::from_string("|too\rfew\rparts").is_none());
}

#[test]
fn test_bot_barcode_basic() {
    let config = BotBarcodeConfig {
        biller_id: "099999999999990".to_string(),
        ref1: "111222333444".to_string(),
        ref2: None,
        amount: None,
    };
    let result = bot_barcode(config);
    assert_eq!(result, "|099999999999990\r111222333444\r\r0");
}

#[test]
fn test_bot_barcode_with_ref2_and_amount() {
    let config = BotBarcodeConfig {
        biller_id: "099400016550100".to_string(),
        ref1: "123456789012".to_string(),
        ref2: Some("670429".to_string()),
        amount: Some(364922),
    };
    let result = bot_barcode(config);
    assert_eq!(result, "|099400016550100\r123456789012\r670429\r364922");
}

#[test]
fn test_bot_barcode_with_amount_only() {
    let config = BotBarcodeConfig {
        biller_id: "099999999999990".to_string(),
        ref1: "111222333444".to_string(),
        ref2: None,
        amount: Some(10000),
    };
    let result = bot_barcode(config);
    assert_eq!(result, "|099999999999990\r111222333444\r\r10000");
}

#[test]
fn test_parse_barcode_valid() {
    let payload = "|099999999999990\r111222333444\r\r0";
    let result = parse_barcode(payload).unwrap();
    assert_eq!(result.biller_id, "099999999999990");
}

#[test]
fn test_parse_barcode_invalid() {
    let payload = "invalid barcode";
    assert!(parse_barcode(payload).is_none());
}

#[test]
fn barcode_amount_that_is_not_a_number_is_dropped() {
    let barcode = BotBarcode::from_string("|1\r2\r3\rabc").unwrap();
    assert_eq!(barcode.amount, None);
    assert_eq!(barcode.ref2, Some("3".to_string()));
}

#[test]
fn barcode_amount_signs_and_range() {
    assert_eq!(BotBarcode::from_string("|1\r2\r\r-150").unwrap().amount, Some(-150));
    assert_eq!(BotBarcode::from_string("|1\r2\r\r+7").unwrap().amount, Some(7));
    assert_eq!(
        BotBarcode::from_string("|1\r2\r\r2147483647").unwrap().amount,
        Some(2147483647)
    );
    assert_eq!(
        BotBarcode::from_string("|1\r2\r\r-2147483648").unwrap().amount,
        Some(-2147483648)
    );
    assert_eq!(BotBarcode::from_string("|1\r2\r\r2147483648").unwrap().amount, None);
    assert_eq!(BotBarcode::from_string("|1\r2\r\r-").unwrap().amount, None);
    assert_eq!(BotBarcode::from_string("|1\r2\r\r").unwrap().amount, None);
}

#[test]
fn barcode_with_too_many_pieces_is_refused() {
    assert!(BotBarcode::from_string("|1\r2\r3\r4\r5").is_none());
    assert!(BotBarcode::from_string("").is_none());
}

#[test]
fn barcode_negative_amount_is_written_with_sign() {
    let barcode = BotBarcode::new("1".to_string(), "2".to_string(), None, Some(-150));
    assert_eq!(barcode.to_string(), "|1\r2\r\r-150");
}

#[test]
fn error_messages() {
    assert_eq!(PromptParseError::InvalidTlv.to_string(), "Invalid TLV data");
    assert_eq!(
        PromptParseError::TagNotFound("63".to_string()).to_string(),
        "Tag not found: 63"
    );
    assert_eq!(
        PromptParseError::MissingRequiredField("target".to_string()).to_string(),
        "Missing required field: target"
    );
}
