use corex_ttk2::normalize::build_terminal_response_from_raw;
use corex_ttk2::normalize::determine_success;
use corex_ttk2::normalize::map_pin_coding_mode;
use corex_ttk2::normalize::normalize_terminal_response;
use corex_ttk2::rawmap::RawMap;
use corex_ttk2::types::ProtocolType;

fn raw_of(pairs: &[(&str, &str)]) -> RawMap {
    let mut m = RawMap::new();
    for (k, v) in pairs {
        m.insert(k.to_string(), v.to_string());
    }
    m
}

#[test]
fn rawmap_insert_overwrites() {
    let mut m = RawMap::new();
    m.insert("a".to_string(), "1".to_string());
    m.insert("a".to_string(), "2".to_string());
    assert_eq!(m.get("a").unwrap().as_str(), "2");
    assert_eq!(m.entry_count(), 1);
    assert!(!m.is_empty());
    assert!(m.contains_key("a"));
    assert!(!m.contains_key("b"));
}

#[test]
fn ttk_mapping_copies_named_keys() {
    let raw = raw_of(&[
        ("Message ID", "PUR"),
        ("Response Code", "00"),
        ("Transaction Amount", "1000"),
        ("RRN", "123456"),
        ("Visual Host Response", "APPROVED"),
        ("Date", "20240102"),
        ("Time", "153045"),
    ]);
    let data = normalize_terminal_response(ProtocolType::Ttk, &raw);
    assert_eq!(data.message_id.as_deref(), Some("PUR"));
    assert_eq!(data.response_code.as_deref(), Some("00"));
    assert_eq!(data.amount.as_deref(), Some("1000"));
    assert_eq!(data.rrn.as_deref(), Some("123456"));
    assert_eq!(data.text_response.as_deref(), Some("APPROVED"));
    assert_eq!(data.timestamp.as_deref(), Some("20240102153045"));
    assert!(data.status.is_none());
    assert!(data.extras.is_none());
}

#[test]
fn ttk_amount_falls_back_to_second_tag() {
    let raw = raw_of(&[("Transaction Amount #2", "500")]);
    let data = normalize_terminal_response(ProtocolType::Ttk, &raw);
    assert_eq!(data.amount.as_deref(), Some("500"));
    let both = raw_of(&[("Transaction Amount", "1"), ("Transaction Amount #2", "2")]);
    let data = normalize_terminal_response(ProtocolType::Ttk, &both);
    assert_eq!(data.amount.as_deref(), Some("1"));
}

#[test]
fn ttk_timestamp_needs_both_date_and_time() {
    let raw = raw_of(&[("Date", "20240102")]);
    let data = normalize_terminal_response(ProtocolType::Ttk, &raw);
    assert!(data.timestamp.is_none());
}

#[test]
fn ttk_unknown_keys_land_in_extras() {
    let raw = raw_of(&[("Response Code", "00"), ("TAG_7777", "DEAD")]);
    let data = normalize_terminal_response(ProtocolType::Ttk, &raw);
    let extras = data.extras.unwrap();
    assert_eq!(extras.get("TAG_7777").unwrap().as_str(), "DEAD");
    assert!(extras.get("Response Code").is_none());
}

#[test]
fn inpas_mapping_by_field_id() {
    let raw = raw_of(&[
        ("00", "1000"),
        ("04", "643"),
        ("15", "00"),
        ("19", "Approved"),
        ("25", "29"),
        ("39", "000"),
        ("99", "spare"),
    ]);
    let data = normalize_terminal_response(ProtocolType::Inpas, &raw);
    assert_eq!(data.amount.as_deref(), Some("1000"));
    assert_eq!(data.currency.as_deref(), Some("643"));
    assert_eq!(data.response_code.as_deref(), Some("00"));
    assert_eq!(data.text_response.as_deref(), Some("Approved"));
    assert_eq!(data.operation_code.as_deref(), Some("29"));
    assert_eq!(data.status.as_deref(), Some("000"));
    assert_eq!(data.extras.unwrap().get("99").unwrap().as_str(), "spare");
}

#[test]
fn inpas_pin_coding_mode_rewording() {
    let raw = raw_of(&[("09", "1")]);
    let data = normalize_terminal_response(ProtocolType::Inpas, &raw);
    assert_eq!(data.cardholder_verification.as_deref(), Some("PIN"));
    let raw = raw_of(&[("09", "3")]);
    let data = normalize_terminal_response(ProtocolType::Inpas, &raw);
    assert_eq!(data.cardholder_verification.as_deref(), Some("3"));
}

#[test]
fn pin_coding_mode_values() {
    assert_eq!(map_pin_coding_mode("1".to_string()), "PIN");
    assert_eq!(map_pin_coding_mode("2".to_string()), "PIN");
    assert_eq!(map_pin_coding_mode("9".to_string()), "9");
}

#[test]
fn success_verdict_truth_table() {
    // The observed verdict is true on every row, the final fallback
    // answering true even for a non-zero response code.
    let rows: &[&[(&str, &str)]] = &[
        &[("Response Code", "00")],
        &[("Response Code", "000000")],
        &[("Approve", "Y")],
        &[("Approve", "y")],
        &[("Approve", "N")],
        &[("Response Code", "05")],
        &[],
    ];
    for row in rows {
        let data = normalize_terminal_response(ProtocolType::Ttk, &raw_of(row));
        assert!(determine_success(&data));
    }
}

#[test]
fn build_response_aggregates_code_and_message() {
    let raw = raw_of(&[("Response Code", "00"), ("Visual Host Response", "APPROVED")]);
    let resp = build_terminal_response_from_raw(ProtocolType::Ttk, raw);
    assert!(resp.success);
    assert_eq!(resp.code.as_deref(), Some("00"));
    assert_eq!(resp.message.as_deref(), Some("APPROVED"));
    assert!(resp.error.is_none());
    assert_eq!(resp.data.unwrap().response_code.as_deref(), Some("00"));
}

#[test]
fn build_response_code_falls_back_to_status_then_approve() {
    let raw = raw_of(&[("39", "000")]);
    let resp = build_terminal_response_from_raw(ProtocolType::Inpas, raw);
    assert_eq!(resp.code.as_deref(), Some("000"));
    let raw = raw_of(&[("Approve", "Y")]);
    let resp = build_terminal_response_from_raw(ProtocolType::Ttk, raw);
    assert_eq!(resp.code.as_deref(), Some("Y"));
    let raw = raw_of(&[]);
    let resp = build_terminal_response_from_raw(ProtocolType::Ttk, raw);
    assert!(resp.code.is_none());
    assert!(resp.message.is_none());
}

#[test]
fn normalizer_is_idempotent_on_its_own_raw() {
    // Normalizing the raw bag a record carries reproduces the record.
    let raw = raw_of(&[
        ("Response Code", "00"),
        ("Visual Host Response", "APPROVED"),
        ("TAG_7777", "DEAD"),
    ]);
    let once = normalize_terminal_response(ProtocolType::Ttk, &raw);
    let twice = normalize_terminal_response(ProtocolType::Ttk, &once.raw);
    assert_eq!(once.response_code, twice.response_code);
    assert_eq!(once.text_response, twice.text_response);
    assert_eq!(once.amount, twice.amount);
    assert_eq!(once.timestamp, twice.timestamp);
    assert_eq!(
        once.extras.as_ref().unwrap().get("TAG_7777"),
        twice.extras.as_ref().unwrap().get("TAG_7777")
    );
    assert_eq!(once.raw.entry_count(), twice.raw.entry_count());
}
