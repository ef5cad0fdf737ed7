use promptparse::validate::{
    bcel_one_proof, slip_verify, true_money_slip_verify, BcelOneProofData,
    TrueMoneySlipVerifyData,
};
use promptparse::{encode, tag, with_crc_tag};

#[test]
fn test_bcel_one_proof_structure() {
    let data = BcelOneProofData {
        txn_type: Some("TRANSFER".to_string()),
        ticket: Some("TKT123456".to_string()),
        fccref: Some("REF789012".to_string()),
    };

    assert_eq!(data.txn_type, Some("TRANSFER".to_string()));
    assert_eq!(data.ticket, Some("TKT123456".to_string()));
    assert_eq!(data.fccref, Some("REF789012".to_string()));
}

#[test]
fn test_bcel_one_proof_with_none_values() {
    let data = BcelOneProofData {
        txn_type: None,
        ticket: Some("TKT123456".to_string()),
        fccref: None,
    };

    assert_eq!(data.txn_type, None);
    assert_eq!(data.ticket, Some("TKT123456".to_string()));
    assert_eq!(data.fccref, None);
}

#[test]
fn test_bcel_one_proof_invalid_payload() {
    let payload = "invalid_payload";
    let result = bcel_one_proof(payload);
    assert!(result.is_none());
}

#[test]
fn test_bcel_one_proof_wrong_tag_00() {
    let payload = "00020101021229370016A0000006770101110113006680111111153037645802TH63041DCF";
    let result = bcel_one_proof(payload);
    assert!(result.is_none());
}

#[test]
fn bcel_one_proof_valid() {
    let inner = encode(&[tag("00", "BCEL"), tag("02", "TRANSFER"), tag("03", "TKT123456")]);
    let body = encode(&[tag("00", "01"), tag("01", "11"), tag("33", &inner)]);
    let payload = with_crc_tag(&body, "63", true);
    let data = bcel_one_proof(&payload).unwrap();
    assert_eq!(data.txn_type, Some("TRANSFER".to_string()));
    assert_eq!(data.ticket, Some("TKT123456".to_string()));
    assert_eq!(data.fccref, None);
}

#[test]
fn bcel_one_proof_rejects_unknown_issuer() {
    let inner = encode(&[tag("00", "OTHER"), tag("02", "TRANSFER")]);
    let body = encode(&[tag("00", "01"), tag("01", "11"), tag("33", &inner)]);
    let payload = with_crc_tag(&body, "63", true);
    assert!(bcel_one_proof(&payload).is_none());
}

#[test]
fn test_slip_verify_valid() {
    let payload = "004100060000010103014022000111222233344ABCD126304BA3C";
    let result = slip_verify(payload, true).unwrap();
    assert_eq!(result.sending_bank, "014");
    assert_eq!(result.trans_ref, "00111222233344ABCD12");
}

#[test]
fn test_slip_verify_invalid() {
    let payload =
        "00020101021229370016A0000006770101110113006680111111153037645802TH540520.15630442BE";
    assert!(slip_verify(payload, true).is_none());
}

#[test]
fn test_slip_verify_invalid_api_type() {
    let payload = "004000060000020103014022000111222233344ABCD125102TH9104XXXX";
    assert!(slip_verify(payload, true).is_none());
}

#[test]
fn slip_verify_pads_short_checksum() {
    let full = "004000060000010103002021900021231231212000115102TH91049C30";
    assert!(slip_verify(full, false).is_some());
    // a checksum whose leading zero was dropped is restored only with the fix
    for n in 0..400u32 {
        let inner = encode(&[
            tag("00", "000001"),
            tag("01", "014"),
            tag("02", &format!("REF{n}")),
        ]);
        let payload = with_crc_tag(&encode(&[tag("00", &inner), tag("51", "TH")]), "91", true);
        let crc_start = payload.len() - 4;
        if !payload[crc_start..].starts_with('0') {
            continue;
        }
        let short = format!("{}{}", &payload[..crc_start], &payload[crc_start + 1..]);
        assert!(slip_verify(&short, false).is_none());
        let data = slip_verify(&short, true).unwrap();
        assert_eq!(data.sending_bank, "014");
        assert_eq!(data.trans_ref, format!("REF{n}"));
        return;
    }
    panic!("no checksum with a leading zero found");
}

#[test]
fn test_true_money_slip_verify_extraction() {
    let event_type = "P2P";
    let transaction_id = "TXN123456789";
    let date = "01012024";

    let expected = TrueMoneySlipVerifyData {
        event_type: event_type.to_string(),
        transaction_id: transaction_id.to_string(),
        date: date.to_string(),
    };

    assert_eq!(expected.event_type, "P2P");
    assert_eq!(expected.transaction_id, "TXN123456789");
    assert_eq!(expected.date, "01012024");
}

#[test]
fn test_true_money_slip_verify_invalid_format() {
    let payload = "invalid_payload";
    assert!(true_money_slip_verify(payload).is_none());
}
