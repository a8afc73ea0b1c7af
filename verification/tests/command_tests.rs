use corex_ttk2::commands::CommandContext;
use corex_ttk2::commands::PaymentCommand;
use corex_ttk2::commands::RefundCommand;
use corex_ttk2::commands::TotalsCommand;
use corex_ttk2::dispatch::ttk_build_request;
use corex_ttk2::dispatch::ttk_handle_frame;
use corex_ttk2::dispatch::ttk_read_timeout;
use corex_ttk2::frame::TtkBuffer;
use corex_ttk2::get_tag_definition;
use corex_ttk2::tlv::TlvItem;
use corex_ttk2::types::ConnectionConfig;
use corex_ttk2::types::ConnectionType;
use corex_ttk2::types::MessageType;
use corex_ttk2::types::ProtocolType;
use corex_ttk2::types::TerminalError;

fn ttk_config() -> ConnectionConfig {
    ConnectionConfig {
        connection_type: ConnectionType::Tcp,
        protocol: ProtocolType::Ttk,
        serial_number: "10285694".to_string(),
        address: Some("192.168.0.10".to_string()),
        port: Some(4444),
        timeout: None,
        dc_host: None,
        ncom: None,
        baudrate: None,
    }
}

fn fixed_context(ern: u64) -> CommandContext {
    CommandContext { config: ttk_config(), request_id: 1, ern }
}

#[test]
fn context_new_draws_bounded_randoms() {
    let ctx = CommandContext::new(ttk_config());
    assert!(ctx.request_id < 0x8000_0000);
    assert!(ctx.ern < 9_999_999_999);
    assert_eq!(ctx.config.serial_number, "10285694");
    assert!(!ctx.should_use_inpas());
}

#[test]
fn context_helpers() {
    let ctx = fixed_context(42);
    assert_eq!(ctx.int_to_bcd(42, 10), vec![0, 0, 0, 0, 0, 0, 0, 0, 4, 2]);
    assert_eq!(ctx.int_to_bcd(1234, 2), vec![1, 2, 3, 4]);
    assert_eq!(ctx.int_to_string(1000, 12), "000000001000");
    assert_eq!(ctx.int_to_string(123456789012345, 12), "123456789012345");
    assert_eq!(ctx.string_to_bytes("PUR"), b"PUR".to_vec());
}

#[test]
fn context_fills_missing_inpas_fields() {
    let ctx = fixed_context(1);
    let fields = vec![];
    let filled = ctx.build_inpas_fields(fields);
    assert_eq!(filled.len(), 2);
    assert_eq!(filled[0].id, "21");
    assert_eq!(filled[0].value.len(), 14);
    assert!(filled[0].value.chars().all(|c| c.is_ascii_digit()));
    assert_eq!(filled[1].id, "27");
    assert_eq!(filled[1].value, "10285694");
}

#[test]
fn context_keeps_present_inpas_fields() {
    let ctx = fixed_context(1);
    let fields = vec![
        corex_ttk2::inpas::InpasField { id: "21".to_string(), value: "x".to_string() },
        corex_ttk2::inpas::InpasField { id: "27".to_string(), value: "y".to_string() },
    ];
    let filled = ctx.build_inpas_fields(fields);
    assert_eq!(filled.len(), 2);
    assert_eq!(filled[0].value, "x");
    assert_eq!(filled[1].value, "y");
}

#[test]
fn payment_prepare_items() {
    let ctx = fixed_context(12345);
    let cmd = PaymentCommand::new(1000, None);
    let items = cmd.prepare(&ctx);
    assert_eq!(items.len(), 3);
    assert_eq!(items[0].tag, 0x01);
    assert_eq!(items[0].value, b"PUR".to_vec());
    assert_eq!(items[1].tag, 0x03);
    assert_eq!(items[1].value, vec![0, 0, 0, 0, 0, 1, 2, 3, 4, 5]);
    assert_eq!(items[2].tag, 0x04);
    assert_eq!(items[2].value, b"000000001000".to_vec());
}

#[test]
fn payment_prepare_inpas_fields() {
    let ctx = fixed_context(1);
    let cmd = PaymentCommand::new(1000, None);
    let fields = cmd.prepare_inpas(&ctx);
    assert_eq!(fields.len(), 3);
    assert_eq!(fields[0].id, "00");
    assert_eq!(fields[0].value, "1000");
    assert_eq!(fields[1].id, "04");
    assert_eq!(fields[1].value, "643");
    assert_eq!(fields[2].id, "25");
    assert_eq!(fields[2].value, "01");
}

#[test]
fn refund_prepare_differs_only_in_markers() {
    let ctx = fixed_context(7);
    let cmd = RefundCommand::new(500, Some("840".to_string()));
    let items = cmd.prepare(&ctx);
    assert_eq!(items[0].value, b"REF".to_vec());
    let fields = cmd.prepare_inpas(&ctx);
    assert_eq!(fields[1].value, "840");
    assert_eq!(fields[2].value, "29");
}

#[test]
fn totals_prepare_items_and_fields() {
    let ctx = fixed_context(7);
    let cmd = TotalsCommand::new();
    let items = cmd.prepare(&ctx);
    assert_eq!(items.len(), 3);
    assert_eq!(items[0].value, b"SRV".to_vec());
    assert_eq!(items[2].tag, 0x1a);
    assert_eq!(items[2].value, b"2".to_vec());
    let fields = cmd.prepare_inpas(&ctx);
    assert_eq!(fields.len(), 1);
    assert_eq!(fields[0].id, "25");
    assert_eq!(fields[0].value, "59");
}

#[test]
fn outbound_purchase_frame() {
    // The framed purchase begins 00 XX 96 F2, and its body opens with the
    // ECR-number item: tag 0x02 carrying the serial number's bytes.
    let ctx = fixed_context(12345);
    let cmd = PaymentCommand::new(1000, None);
    let message = ttk_build_request(cmd.prepare(&ctx), "10285694");
    assert_eq!(message[0], 0x00);
    let body_len = message.len() - 4;
    assert_eq!(message[1] as usize, body_len + 2);
    assert_eq!(message[2], 0x96);
    assert_eq!(message[3], 0xf2);
    assert_eq!(message[4], 0x02);
    assert_eq!(message[5], 0x08);
    assert_eq!(&message[6..14], b"10285694");
    let (mtype, items) = TtkBuffer::parse_message(&message).unwrap();
    assert_eq!(mtype, MessageType::ClientRequest);
    assert_eq!(items.len(), 4);
    assert_eq!(items[0].tag, 0x02);
    assert_eq!(items[1].tag, 0x01);
}

fn server_frame(items: &[TlvItem]) -> Vec<u8> {
    TtkBuffer::create_message(MessageType::ServerResponse, items)
}

fn item(tag: u32, value: &[u8]) -> TlvItem {
    TlvItem {
        tag,
        length: value.len(),
        value: value.to_vec(),
        definition: get_tag_definition(tag),
    }
}

#[test]
fn read_loop_accepts_response_with_code() {
    let frame = server_frame(&[item(0x9b, b"00"), item(0xa0, b"APPROVED")]);
    let resp = ttk_handle_frame(&frame).unwrap().unwrap();
    assert!(resp.success);
    assert_eq!(resp.code.as_deref(), Some("00"));
    assert_eq!(resp.message.as_deref(), Some("APPROVED"));
}

#[test]
fn read_loop_discards_response_without_code() {
    let frame = server_frame(&[item(0xa0, b"WAIT")]);
    assert!(ttk_handle_frame(&frame).unwrap().is_none());
}

#[test]
fn read_loop_discards_client_request_frames() {
    let frame = TtkBuffer::create_message(MessageType::ClientRequest, &[item(0x9b, b"00")]);
    assert!(ttk_handle_frame(&frame).unwrap().is_none());
}

#[test]
fn read_loop_propagates_frame_errors() {
    assert!(matches!(
        ttk_handle_frame(&[0x00, 0x01]),
        Err(TerminalError::InvalidFrame(_))
    ));
}

#[test]
fn read_timeout_defaults_to_thirty_seconds() {
    let mut config = ttk_config();
    assert_eq!(ttk_read_timeout(&config), 30000);
    config.timeout = Some(10000);
    assert_eq!(ttk_read_timeout(&config), 10000);
}
