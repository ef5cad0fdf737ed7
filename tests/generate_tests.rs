use promptparse::generate::{
    slip_verify, true_money_slip_verify, ProxyType, SlipVerifyConfig, TrueMoneySlipVerifyConfig,
};

#[test]
fn test_slip_verify() {
    let config = SlipVerifyConfig {
        sending_bank: "002".to_string(),
        trans_ref: "0002123123121200011".to_string(),
    };
    let result = slip_verify(config);
    assert_eq!(
        result,
        "004000060000010103002021900021231231212000115102TH91049C30"
    );
}

#[test]
fn test_slip_verify_different_bank() {
    let config = SlipVerifyConfig {
        sending_bank: "014".to_string(),
        trans_ref: "00111222233344ABCD12".to_string(),
    };
    let result = slip_verify(config);
    assert!(result.contains("0103014"));
    assert!(result.contains("00111222233344ABCD12"));
}

#[test]
fn test_true_money_slip_verify() {
    let config = TrueMoneySlipVerifyConfig {
        event_type: "P2P".to_string(),
        transaction_id: "TXN123456789".to_string(),
        date: "01012024".to_string(),
    };
    let result = true_money_slip_verify(config);

    assert!(result.contains("00"));
    assert!(result.contains("91"));
    assert!(!result.is_empty());
}

#[test]
fn test_true_money_slip_verify_structure() {
    let config = TrueMoneySlipVerifyConfig {
        event_type: "P2P".to_string(),
        transaction_id: "TXN123456789".to_string(),
        date: "31122023".to_string(),
    };
    let result = true_money_slip_verify(config);

    assert!(result.starts_with("00"));
    assert!(result.contains("9104"));
}

#[test]
fn true_money_slip_verify_reads_back() {
    let config = TrueMoneySlipVerifyConfig {
        event_type: "P2P".to_string(),
        transaction_id: "TXN123456789".to_string(),
        date: "01012024".to_string(),
    };
    let result = true_money_slip_verify(config);
    assert_eq!(
        &result[..result.len() - 4],
        "00470002010102010203P2P0312TXN1234567890408010120249104"
    );
    let data = promptparse::validate::true_money_slip_verify(&result).unwrap();
    assert_eq!(data.event_type, "P2P");
    assert_eq!(data.transaction_id, "TXN123456789");
    assert_eq!(data.date, "01012024");
}

#[test]
fn proxy_type_codes() {
    assert_eq!(ProxyType::Msisdn.to_code(), "01");
    assert_eq!(ProxyType::NatId.to_code(), "02");
    assert_eq!(ProxyType::EWalletId.to_code(), "03");
    assert_eq!(ProxyType::BankAcc.to_code(), "04");
}
