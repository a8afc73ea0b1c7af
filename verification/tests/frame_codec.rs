use corex_ttk2::frame::TtkBuffer;
use corex_ttk2::get_tag_definition;
use corex_ttk2::tlv::TlvEncoder;
use corex_ttk2::tlv::TlvItem;
use corex_ttk2::types::MessageType;

fn item(tag: u32, value: &[u8]) -> TlvItem {
    TlvItem {
        tag,
        length: value.len(),
        value: value.to_vec(),
        definition: get_tag_definition(tag),
    }
}

#[test]
fn frame_roundtrip() {
    let items = vec![item(0x01, b"PUR"), item(0x9b, b"00")];
    let message = TtkBuffer::create_message(MessageType::ClientRequest, &items);
    // Header: length covers type field and body; type 0x96F2.
    let body_len = 5 + 4;
    assert_eq!(message[0], 0x00);
    assert_eq!(message[1], (body_len + 2) as u8);
    assert_eq!(message[2], 0x96);
    assert_eq!(message[3], 0xf2);
    let (mtype, parsed) = TtkBuffer::parse_message(&message).unwrap();
    assert_eq!(mtype, MessageType::ClientRequest);
    assert_eq!(parsed.len(), 2);
    assert_eq!(parsed[0].tag, 0x01);
    assert_eq!(parsed[0].value, b"PUR".to_vec());
    assert_eq!(parsed[1].tag, 0x9b);
    assert_eq!(parsed[1].value, b"00".to_vec());
}

#[test]
fn frame_roundtrip_server_response() {
    let items = vec![item(0x9b, b"00")];
    let message = TtkBuffer::create_message(MessageType::ServerResponse, &items);
    assert_eq!(message[2], 0x97);
    assert_eq!(message[3], 0xf2);
    let (mtype, parsed) = TtkBuffer::parse_message(&message).unwrap();
    assert_eq!(mtype, MessageType::ServerResponse);
    assert_eq!(parsed.len(), 1);
}

#[test]
fn frame_roundtrip_empty_body() {
    let message = TtkBuffer::create_message(MessageType::ClientRequest, &[]);
    assert_eq!(message, vec![0x00, 0x02, 0x96, 0xf2]);
    let (mtype, parsed) = TtkBuffer::parse_message(&message).unwrap();
    assert_eq!(mtype, MessageType::ClientRequest);
    assert!(parsed.is_empty());
}

#[test]
fn parse_rejects_short_message() {
    assert!(TtkBuffer::parse_message(&[0x00, 0x02, 0x96]).is_err());
}

#[test]
fn parse_rejects_length_mismatch() {
    // Claims a body longer than what follows.
    assert!(TtkBuffer::parse_message(&[0x00, 0x05, 0x96, 0xf2]).is_err());
}

#[test]
fn parse_rejects_unknown_type() {
    assert!(TtkBuffer::parse_message(&[0x00, 0x02, 0x12, 0x34]).is_err());
}

#[test]
fn parse_rejects_bad_body() {
    // Valid header, but the body's TLV length runs past the end.
    let data = vec![0x00, 0x04, 0x97, 0xf2, 0x01, 0x05];
    assert!(TtkBuffer::parse_message(&data).is_err());
}

#[test]
fn items_to_object_names_and_unknown_tags() {
    let items = vec![item(0x9b, b"00"), item(0x7777, &[0xde, 0xad])];
    let raw = TtkBuffer::items_to_object(&items);
    assert_eq!(raw.get("Response Code").unwrap().as_str(), "00");
    assert_eq!(raw.get("TAG_7777").unwrap().as_str(), "DEAD");
    assert!(raw.get("Approve").is_none());
}

#[test]
fn items_to_object_later_name_overwrites_earlier() {
    // 0x01 and 0x81 share the display name "Message ID"; the later item
    // wins.
    let items = vec![item(0x01, b"PUR"), item(0x81, b"ANS")];
    let raw = TtkBuffer::items_to_object(&items);
    assert_eq!(raw.get("Message ID").unwrap().as_str(), "ANS");
}

#[test]
fn decode_stream_inside_frame_matches_plain_decode() {
    let items = vec![item(0x03, &[1, 2, 3])];
    let message = TtkBuffer::create_message(MessageType::ClientRequest, &items);
    let direct = TlvEncoder::decode(&message[4..]).unwrap();
    assert_eq!(direct.len(), 1);
    assert_eq!(direct[0].tag, 0x03);
}
