use promptparse::generate::{
    any_id, bill_payment, true_money, AnyIdConfig, BillPaymentConfig, ProxyType, TrueMoneyConfig,
};
use promptparse::parse;

#[test]
fn test_any_id_msisdn() {
    let config = AnyIdConfig {
        proxy_type: ProxyType::Msisdn,
        target: "0812223333".to_string(),
        amount: None,
    };
    let result = any_id(config).unwrap();
    assert_eq!(
        result,
        "00020101021129370016A0000006770101110113006681222333353037645802TH63041DCF"
    );
}

#[test]
fn test_any_id_msisdn_with_amount() {
    let config = AnyIdConfig {
        proxy_type: ProxyType::Msisdn,
        target: "0812223333".to_string(),
        amount: Some(3000),
    };
    let result = any_id(config).unwrap();
    assert_eq!(
        result,
        "00020101021229370016A0000006770101110113006681222333353037645802TH540530.0063043CAD"
    );
}

#[test]
fn test_any_id_natid() {
    let config = AnyIdConfig {
        proxy_type: ProxyType::NatId,
        target: "1234567890123".to_string(),
        amount: None,
    };
    let result = any_id(config).unwrap();
    assert!(!result.is_empty());
}

#[test]
fn any_id_ewallet_keeps_target() {
    let config = AnyIdConfig {
        proxy_type: ProxyType::EWalletId,
        target: "0123".to_string(),
        amount: None,
    };
    let result = any_id(config).unwrap();
    let qr = parse(&result, true, true).unwrap();
    assert_eq!(qr.get_tag_value("29", Some("03")), Some("0123"));
    assert!(qr.validate("63"));
}

#[test]
fn any_id_msisdn_without_leading_zero_is_padded() {
    let config = AnyIdConfig {
        proxy_type: ProxyType::Msisdn,
        target: "812223333".to_string(),
        amount: Some(5),
    };
    let result = any_id(config).unwrap();
    let qr = parse(&result, true, true).unwrap();
    assert_eq!(qr.get_tag_value("29", Some("01")), Some("0000812223333"));
    assert_eq!(qr.get_tag_value("54", None), Some("0.05"));
    assert_eq!(qr.get_tag_value("01", None), Some("12"));
}

#[test]
fn test_bill_payment_basic() {
    let config = BillPaymentConfig {
        biller_id: "0112233445566".to_string(),
        amount: None,
        ref1: "CUSTOMER001".to_string(),
        ref2: None,
        ref3: None,
    };
    let result = bill_payment(config).unwrap();
    assert!(!result.is_empty());
}

#[test]
fn test_bill_payment_with_all_refs() {
    let config = BillPaymentConfig {
        biller_id: "0112233445566".to_string(),
        amount: None,
        ref1: "CUSTOMER001".to_string(),
        ref2: Some("INV001".to_string()),
        ref3: Some("SCB".to_string()),
    };
    let result = bill_payment(config).unwrap();
    assert_eq!(result, "00020101021130620016A000000677010112011301122334455660211CUSTOMER0010306INV00153037645802TH62070703SCB6304780E");
}

#[test]
fn bill_payment_test_bill_payment_with_amount() {
    let config = BillPaymentConfig {
        biller_id: "0112233445566".to_string(),
        amount: Some(10050),
        ref1: "CUSTOMER001".to_string(),
        ref2: None,
        ref3: None,
    };
    let result = bill_payment(config).unwrap();
    assert!(result.contains("5406100.50"));
}

#[test]
fn test_true_money_basic() {
    let config = TrueMoneyConfig {
        mobile_no: "0801111111".to_string(),
        amount: None,
        message: None,
    };
    let result = true_money(config);
    assert_eq!(
        result,
        "00020101021129390016A000000677010111031514000080111111153037645802TH63047C0F"
    );
}

#[test]
fn test_true_money_with_amount_and_message() {
    let config = TrueMoneyConfig {
        mobile_no: "0801111111".to_string(),
        amount: Some(1005),
        message: Some("Hello World!".to_string()),
    };
    let result = true_money(config);
    assert_eq!(result, "00020101021229390016A000000677010111031514000080111111153037645802TH540510.05814800480065006C006C006F00200057006F0072006C006400216304F5A2");
}

#[test]
fn test_true_money_with_amount_only() {
    let config = TrueMoneyConfig {
        mobile_no: "0801111111".to_string(),
        amount: Some(5000),
        message: None,
    };
    let result = true_money(config);
    assert!(result.contains("540550.00"));
}

#[test]
fn negative_amount_is_written_with_sign() {
    let config = TrueMoneyConfig {
        mobile_no: "0801111111".to_string(),
        amount: Some(-250),
        message: None,
    };
    assert!(true_money(config).contains("5405-2.50"));
}
