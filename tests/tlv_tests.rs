use promptparse::{checksum, decode, encode, get_tag, tag, with_crc_tag, PromptParseError, TlvTag};

#[test]
fn test_tlv_encode_decode() {
    let tags = vec![tag("00", "01"), tag("01", "11"), tag("02", "test")];

    let encoded = encode(&tags);
    let decoded = decode(&encoded).unwrap();

    assert_eq!(decoded.len(), 3);
    assert_eq!(decoded[0].id, "00");
    assert_eq!(decoded[0].value, "01");
    assert_eq!(decoded[1].id, "01");
    assert_eq!(decoded[1].value, "11");
    assert_eq!(decoded[2].id, "02");
    assert_eq!(decoded[2].value, "test");
}

#[test]
fn test_checksum() {
    let payload =
        "00020101021229370016A0000006770101110113006680111111153037645802TH540520.156304";
    let result = checksum(payload, true);
    assert_eq!(result, "42BE");
}

#[test]
fn test_with_crc_tag() {
    let payload = "00020101021129370016A0000006770101110113006681222333353037645802TH";
    let result = with_crc_tag(payload, "63", true);
    assert_eq!(
        result,
        "00020101021129370016A0000006770101110113006681222333353037645802TH63041DCF"
    );
}

#[test]
fn test_get_tag() {
    let tags = vec![tag("00", "01"), tag("01", "11"), tag("02", "test")];

    let found = get_tag(&tags, "01", None).unwrap();
    assert_eq!(found.value, "11");

    let not_found = get_tag(&tags, "99", None);
    assert!(not_found.is_none());
}

#[test]
fn encode_empty_list_is_empty() {
    assert_eq!(encode(&[]), "");
}

#[test]
fn decode_empty_string_is_empty() {
    assert_eq!(decode("").unwrap().len(), 0);
}

#[test]
fn zero_length_value_encodes_with_00() {
    assert_eq!(encode(&[tag("05", "")]), "0500");
    let decoded = decode("0500").unwrap();
    assert_eq!(decoded.len(), 1);
    assert_eq!(decoded[0].id, "05");
    assert_eq!(decoded[0].value, "");
    assert_eq!(decoded[0].length, 0);
}

#[test]
fn decode_scenario_three_tags() {
    let decoded = decode("000411110104222202043333").unwrap();
    assert_eq!(decoded.len(), 3);
    assert_eq!(decoded[0].id, "00");
    assert_eq!(decoded[0].value, "1111");
    assert_eq!(decoded[1].id, "01");
    assert_eq!(decoded[1].value, "2222");
    assert_eq!(decoded[2].id, "02");
    assert_eq!(decoded[2].value, "3333");
}

#[test]
fn decode_ignores_short_remainder() {
    let decoded = decode("0002AB123").unwrap();
    assert_eq!(decoded.len(), 1);
    assert_eq!(decoded[0].value, "AB");
}

#[test]
fn decode_rejects_non_numeric_length() {
    assert_eq!(decode("00XY1234"), Err(PromptParseError::InvalidTlv));
}

#[test]
fn decode_rejects_truncated_value() {
    assert_eq!(decode("0005AB"), Err(PromptParseError::InvalidTlv));
}

#[test]
fn decode_reads_signed_one_digit_length() {
    let decoded = decode("00+3ABC").unwrap();
    assert_eq!(decoded.len(), 1);
    assert_eq!(decoded[0].value, "ABC");
}

#[test]
fn round_trip_of_leaf_tags() {
    let tags = vec![tag("00", "01"), tag("26", "hello world"), tag("99", "")];
    let decoded = decode(&encode(&tags)).unwrap();
    assert_eq!(decoded, tags);
}

#[test]
fn value_of_99_characters_round_trips() {
    let value = "x".repeat(99);
    let tags = vec![tag("01", &value)];
    let encoded = encode(&tags);
    assert_eq!(&encoded[..4], "0199");
    let decoded = decode(&encoded).unwrap();
    assert_eq!(decoded, tags);
}

#[test]
fn value_of_100_characters_does_not_round_trip() {
    let value = "x".repeat(100);
    let tags = vec![tag("01", &value)];
    let encoded = encode(&tags);
    assert_eq!(&encoded[..5], "01100");
    match decode(&encoded) {
        Ok(decoded) => assert_ne!(decoded, tags),
        Err(e) => assert_eq!(e, PromptParseError::InvalidTlv),
    }
}

#[test]
fn encode_uses_sub_tags_not_value() {
    let inner = vec![tag("00", "AB")];
    let outer = vec![TlvTag::with_sub_tags("29".to_string(), "0002AB".to_string(), inner)];
    assert_eq!(encode(&outer), "29060002AB");
    let stale = vec![TlvTag::with_sub_tags(
        "29".to_string(),
        "0002ZZ".to_string(),
        vec![tag("00", "AB")],
    )];
    assert_eq!(encode(&stale), "29060002AB");
}

#[test]
fn checksum_case_variants_agree() {
    for s in ["", "A", "hello", "00020101021153037646304"] {
        assert_eq!(checksum(s, true), checksum(s, false).to_uppercase());
        assert_eq!(checksum(s, true).len(), 4);
    }
}

#[test]
fn checksum_of_empty_string_is_initial_register() {
    assert_eq!(checksum("", true), "FFFF");
    assert_eq!(checksum("", false), "ffff");
}

#[test]
fn checksum_of_standard_check_string() {
    // CRC-16 with polynomial 0x1021 and initial value 0xFFFF over "123456789"
    assert_eq!(checksum("123456789", true), "29B1");
}

#[test]
fn checksum_is_zero_padded() {
    let mut found = false;
    for i in 0..5000u32 {
        let s = i.to_string();
        let c = checksum(&s, true);
        assert_eq!(c.len(), 4);
        if c.starts_with('0') {
            found = true;
        }
    }
    assert!(found);
}

#[test]
fn with_crc_tag_pads_short_id() {
    let result = with_crc_tag("0002AB", "3", true);
    assert!(result.starts_with("0002AB0304"));
    assert_eq!(result.len(), 14);
    assert_eq!(&result[10..], checksum("0002AB0304", true));
}

#[test]
fn with_crc_tag_lower_case() {
    let result = with_crc_tag("", "91", false);
    assert_eq!(&result[..4], "9104");
    assert_eq!(&result[4..], checksum("9104", false));
}

#[test]
fn get_tag_sub_tag_lookup() {
    let tags = vec![
        tag("00", "01"),
        TlvTag::with_sub_tags(
            "29".to_string(),
            "0002AB0102CD".to_string(),
            vec![tag("00", "AB"), tag("01", "CD")],
        ),
    ];
    assert_eq!(get_tag(&tags, "29", Some("01")).unwrap().value, "CD");
    assert!(get_tag(&tags, "29", Some("05")).is_none());
    assert!(get_tag(&tags, "00", Some("00")).is_none());
}

#[test]
fn get_tag_finds_first_match() {
    let tags = vec![tag("01", "first"), tag("01", "second")];
    assert_eq!(get_tag(&tags, "01", None).unwrap().value, "first");
}

#[test]
fn tag_length_counts_characters() {
    let t = tag("81", "åäö");
    assert_eq!(t.length, 3);
    assert!(t.sub_tags.is_none());
}
