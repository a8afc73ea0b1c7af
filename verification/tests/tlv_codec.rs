use corex_ttk2::tlv::TlvEncoder;
use corex_ttk2::tlv::TlvItem;
use corex_ttk2::types::DataType;
use corex_ttk2::types::Encoding;
use corex_ttk2::types::TagDefinition;

#[test]
fn tlv_roundtrip_single_byte_tag() {
    let value: Vec<u8> = vec![0x41, 0x42, 0x43];
    let encoded = TlvEncoder::encode(0x01, &value);
    assert_eq!(encoded, vec![0x01, 0x03, 0x41, 0x42, 0x43]);
    let items = TlvEncoder::decode(&encoded).unwrap();
    assert_eq!(items.len(), 1);
    assert_eq!(items[0].tag, 0x01);
    assert_eq!(items[0].length, 3);
    assert_eq!(items[0].value, value);
    assert_eq!(items[0].definition.as_ref().unwrap().name, "Message ID");
}

#[test]
fn tlv_roundtrip_two_byte_continuation_tag() {
    // A two-byte tag decodes back only when its first byte carries the
    // continuation bits and its second byte's high bit is clear.
    let value: Vec<u8> = vec![0x7a];
    let encoded = TlvEncoder::encode(0x1f01, &value);
    assert_eq!(encoded, vec![0x1f, 0x01, 0x01, 0x7a]);
    let items = TlvEncoder::decode(&encoded).unwrap();
    assert_eq!(items.len(), 1);
    assert_eq!(items[0].tag, 0x1f01);
    assert_eq!(items[0].value, value);
}

#[test]
fn tlv_decode_continuation_tag_three_bytes() {
    // Encoded bytes 1F 81 06 01 41 hold one item with tag 0x1F8106.
    let data: Vec<u8> = vec![0x1f, 0x81, 0x06, 0x01, 0x41];
    let items = TlvEncoder::decode(&data).unwrap();
    assert_eq!(items.len(), 1);
    assert_eq!(items[0].tag, 0x1f8106);
    assert_eq!(items[0].length, 1);
    assert_eq!(items[0].value, vec![0x41]);
    assert!(items[0].definition.is_none());
}

#[test]
fn tag_codec_widths() {
    assert_eq!(TlvEncoder::encode_tag(0x01), vec![0x01]);
    assert_eq!(TlvEncoder::encode_tag(0xff), vec![0xff]);
    assert_eq!(TlvEncoder::encode_tag(0x100), vec![0x01, 0x00]);
    assert_eq!(TlvEncoder::encode_tag(0xffff), vec![0xff, 0xff]);
    assert_eq!(TlvEncoder::encode_tag(0x10000), vec![0x00, 0x01, 0x00, 0x00]);
}

#[test]
fn tag_decode_recovers_roundtrippable_tags() {
    // 0x01 decodes back from its own encoding.
    let (tag, width) = TlvEncoder::decode_tag(&TlvEncoder::encode_tag(0x01), 0).unwrap();
    assert_eq!((tag, width), (0x01, 1));
    // 0x1F01 decodes back: first byte asks for a continuation.
    let (tag, width) = TlvEncoder::decode_tag(&TlvEncoder::encode_tag(0x1f01), 0).unwrap();
    assert_eq!((tag, width), (0x1f01, 2));
}

#[test]
fn tag_decode_departs_from_encode_outside_continuation_shape() {
    // 0xFF alone asks for a continuation byte that is not there.
    assert!(TlvEncoder::decode_tag(&TlvEncoder::encode_tag(0xff), 0).is_err());
    // 0x100 encodes as [0x01, 0x00] and reads back as tag 0x01, width 1.
    let (tag, width) = TlvEncoder::decode_tag(&TlvEncoder::encode_tag(0x100), 0).unwrap();
    assert_eq!((tag, width), (0x01, 1));
    // 0xFFFF's second byte has its high bit set, so a third is consumed.
    assert!(TlvEncoder::decode_tag(&TlvEncoder::encode_tag(0xffff), 0).is_err());
    // 0x10000's four-byte encoding reads back as tag 0x00, width 1.
    let (tag, width) = TlvEncoder::decode_tag(&TlvEncoder::encode_tag(0x10000), 0).unwrap();
    assert_eq!((tag, width), (0x00, 1));
}

#[test]
fn length_roundtrip_all_widths() {
    for len in [0usize, 0x7f, 0x80, 0xff, 0x100, 0xffff, 0x10000] {
        let encoded = TlvEncoder::encode_length(len);
        let (decoded, width) = TlvEncoder::decode_length(&encoded, 0).unwrap();
        assert_eq!(decoded, len);
        assert_eq!(width, encoded.len());
    }
}

#[test]
fn length_long_forms() {
    // A 200-byte value gets the prefix 0x81 0xC8; 300 bytes 0x82 0x01 0x2C.
    assert_eq!(TlvEncoder::encode_length(200), vec![0x81, 0xc8]);
    assert_eq!(TlvEncoder::encode_length(300), vec![0x82, 0x01, 0x2c]);
    assert_eq!(TlvEncoder::decode_length(&[0x81, 0xc8], 0).unwrap(), (200, 2));
    assert_eq!(TlvEncoder::decode_length(&[0x82, 0x01, 0x2c], 0).unwrap(), (300, 3));
    let value_200 = vec![0u8; 200];
    let encoded = TlvEncoder::encode(0x05, &value_200);
    assert_eq!(&encoded[..3], &[0x05, 0x81, 0xc8]);
}

#[test]
fn decode_rejects_truncated_value() {
    // Tag 0x01, length 4, but only two value bytes follow.
    let data: Vec<u8> = vec![0x01, 0x04, 0xaa, 0xbb];
    assert!(TlvEncoder::decode(&data).is_err());
}

#[test]
fn decode_rejects_truncated_length() {
    // 0x82 announces two length bytes; only one follows.
    let data: Vec<u8> = vec![0x01, 0x82, 0x01];
    assert!(TlvEncoder::decode(&data).is_err());
}

#[test]
fn decode_empty_buffer_is_empty_stream() {
    let items = TlvEncoder::decode(&[]).unwrap();
    assert!(items.is_empty());
}

#[test]
fn decode_two_items_in_order() {
    let mut data = TlvEncoder::encode(0x01, b"PUR");
    data.extend_from_slice(&TlvEncoder::encode(0x9b, b"00"));
    let items = TlvEncoder::decode(&data).unwrap();
    assert_eq!(items.len(), 2);
    assert_eq!(items[0].tag, 0x01);
    assert_eq!(items[1].tag, 0x9b);
    assert_eq!(items[1].value, b"00".to_vec());
}

fn item(tag: u32, value: Vec<u8>, definition: Option<TagDefinition>) -> TlvItem {
    TlvItem { tag, length: value.len(), value, definition }
}

#[test]
fn value_rendering_bcd() {
    let def = TagDefinition {
        tag: 0x03,
        name: "ERN".to_string(),
        data_type: DataType::Bcd,
        encoding: None,
    };
    let it = item(0x03, vec![0, 1, 23, 99], Some(def));
    assert_eq!(TlvEncoder::value_to_string(&it), "00012399");
}

#[test]
fn value_rendering_bcd_byte_above_99_takes_three_digits() {
    let def = TagDefinition {
        tag: 0x03,
        name: "ERN".to_string(),
        data_type: DataType::Bcd,
        encoding: None,
    };
    let it = item(0x03, vec![255], Some(def));
    assert_eq!(TlvEncoder::value_to_string(&it), "255");
}

#[test]
fn value_rendering_hex_and_unknown() {
    let def = TagDefinition {
        tag: 0x95,
        name: "TVR".to_string(),
        data_type: DataType::Hex,
        encoding: None,
    };
    let it = item(0x95, vec![0x0a, 0xff, 0x00], Some(def));
    assert_eq!(TlvEncoder::value_to_string(&it), "0AFF00");
    let unknown = item(0x7777, vec![0xde, 0xad], None);
    assert_eq!(TlvEncoder::value_to_string(&unknown), "DEAD");
}

#[test]
fn value_rendering_dwords() {
    let le = TagDefinition {
        tag: 0x10,
        name: "X".to_string(),
        data_type: DataType::DwordLe,
        encoding: None,
    };
    let it = item(0x10, vec![0x01, 0x02, 0x03, 0x04, 0x99], Some(le));
    assert_eq!(TlvEncoder::value_to_string(&it), "0x04030201");
    let be = TagDefinition {
        tag: 0x10,
        name: "X".to_string(),
        data_type: DataType::DwordBe,
        encoding: None,
    };
    let it = item(0x10, vec![0x01, 0x02, 0x03, 0x04, 0x99], Some(be));
    assert_eq!(TlvEncoder::value_to_string(&it), "0x01020304");
}

#[test]
fn value_rendering_ascii_string() {
    let def = TagDefinition {
        tag: 0x9b,
        name: "Response Code".to_string(),
        data_type: DataType::String,
        encoding: Some(Encoding::Ascii),
    };
    let it = item(0x9b, b"00".to_vec(), Some(def));
    assert_eq!(TlvEncoder::value_to_string(&it), "00");
}

#[test]
fn value_rendering_cp1251_string() {
    // 0xCF 0xD0 0xC8 0xC2 0xC5 0xD2 is "ПРИВЕТ" in windows-1251; passing
    // the bytes through unchanged would render mojibake instead.
    let def = TagDefinition {
        tag: 0xa0,
        name: "Visual Host Response".to_string(),
        data_type: DataType::String,
        encoding: Some(Encoding::Cp1251),
    };
    let it = item(0xa0, vec![0xcf, 0xd0, 0xc8, 0xc2, 0xc5, 0xd2], Some(def));
    assert_eq!(TlvEncoder::value_to_string(&it), "ПРИВЕТ");
}

#[test]
fn value_rendering_cp866_string() {
    // 0x80 0x81 0x82 is "АБВ" in code page 866.
    let def = TagDefinition {
        tag: 0xa0,
        name: "Visual Host Response".to_string(),
        data_type: DataType::String,
        encoding: Some(Encoding::Cp866),
    };
    let it = item(0xa0, vec![0x80, 0x81, 0x82], Some(def));
    assert_eq!(TlvEncoder::value_to_string(&it), "АБВ");
}

#[test]
fn value_rendering_lossy_utf8() {
    let def = TagDefinition {
        tag: 0x9c,
        name: "Receipt".to_string(),
        data_type: DataType::String,
        encoding: Some(Encoding::Ascii),
    };
    let it = item(0x9c, vec![0x41, 0xff, 0x42], Some(def));
    assert_eq!(TlvEncoder::value_to_string(&it), "A\u{fffd}B");
}

#[test]
fn bytes_to_hex_pairs() {
    assert_eq!(TlvEncoder::bytes_to_hex(&[]), "");
    assert_eq!(TlvEncoder::bytes_to_hex(&[0x00, 0x0f, 0xf0, 0xff]), "000FF0FF");
}
