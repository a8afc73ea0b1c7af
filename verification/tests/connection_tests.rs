use corex_ttk2::connection::InpasConnection;
use corex_ttk2::connection::serial_target;
use corex_ttk2::connection::tcp_endpoint;
use corex_ttk2::get_tag_definition;
use corex_ttk2::kkt;
use corex_ttk2::types::ConnectionConfig;
use corex_ttk2::types::ConnectionType;
use corex_ttk2::types::DataType;
use corex_ttk2::types::MessageType;
use corex_ttk2::types::ProtocolType;
use corex_ttk2::types::ResponseCode;
use corex_ttk2::types::TerminalError;

fn config() -> ConnectionConfig {
    ConnectionConfig {
        connection_type: ConnectionType::Tcp,
        protocol: ProtocolType::Inpas,
        serial_number: "10285694".to_string(),
        address: Some("10.0.0.2".to_string()),
        port: Some(9015),
        timeout: None,
        dc_host: Some("10.0.0.2:9015".to_string()),
        ncom: None,
        baudrate: None,
    }
}

#[test]
fn inpas_connection_state_machine() {
    let mut conn = InpasConnection::new(config());
    assert!(!conn.is_connected());
    assert_eq!(conn.connect().unwrap(), true);
    assert!(conn.is_connected());
    conn.disconnect().unwrap();
    assert!(!conn.is_connected());
    conn.disconnect().unwrap();
    assert!(!conn.is_connected());
    assert_eq!(conn.config().serial_number, "10285694");
}

#[test]
fn inpas_connection_rejects_raw_io() {
    let mut conn = InpasConnection::new(config());
    conn.connect().unwrap();
    assert!(matches!(conn.write(&[1, 2, 3]), Err(TerminalError::TransportIo(_))));
    assert!(matches!(conn.read(Some(1000)), Err(TerminalError::TransportIo(_))));
}

#[test]
fn tcp_endpoint_joins_address_and_port() {
    assert_eq!(tcp_endpoint(&config()).unwrap(), "10.0.0.2:9015");
    let mut c = config();
    c.port = None;
    assert!(matches!(tcp_endpoint(&c), Err(TerminalError::ConfigMissing(_))));
    let mut c = config();
    c.address = None;
    assert!(matches!(tcp_endpoint(&c), Err(TerminalError::ConfigMissing(_))));
}

#[test]
fn serial_target_falls_back_to_address() {
    let mut c = config();
    c.ncom = Some("/dev/ttyUSB1".to_string());
    c.baudrate = Some(115200);
    assert_eq!(serial_target(&c).unwrap(), ("/dev/ttyUSB1".to_string(), 115200));
    let mut c = config();
    c.ncom = None;
    assert_eq!(serial_target(&c).unwrap(), ("10.0.0.2".to_string(), 9600));
    let mut c = config();
    c.ncom = None;
    c.address = None;
    assert!(matches!(serial_target(&c), Err(TerminalError::ConfigMissing(_))));
}

#[test]
fn kkt_connection_type_words() {
    assert_eq!(kkt::ConnectionType::Usb.raw(), "usb");
    assert_eq!(kkt::ConnectionType::Com.raw(), "com");
    assert_eq!(kkt::ConnectionType::Tcp.raw(), "tcp");
}

#[test]
fn response_code_parsing() {
    assert_eq!(ResponseCode::from_str("00"), Some(ResponseCode::Success));
    assert_eq!(ResponseCode::from_str("FE"), Some(ResponseCode::InvalidFormat));
    assert_eq!(ResponseCode::from_str("B4"), Some(ResponseCode::InvalidDocumentNumber));
    assert_eq!(ResponseCode::from_str("77"), None);
}

#[test]
fn message_type_wire_codes() {
    assert_eq!(MessageType::ClientRequest.wire_code(), 0x96f2);
    assert_eq!(MessageType::ServerResponse.wire_code(), 0x97f2);
    assert_eq!(ProtocolType::default(), ProtocolType::Ttk);
}

#[test]
fn tag_dictionary_entries() {
    let ecr = get_tag_definition(0x02).unwrap();
    assert_eq!(ecr.name, "ECR Number");
    assert_eq!(ecr.data_type, DataType::String);
    let ern = get_tag_definition(0x03).unwrap();
    assert_eq!(ern.name, "ERN");
    assert_eq!(ern.data_type, DataType::Bcd);
    let code = get_tag_definition(0x9b).unwrap();
    assert_eq!(code.name, "Response Code");
    // Client and server variants share a display name.
    assert_eq!(get_tag_definition(0x01).unwrap().name, "Message ID");
    assert_eq!(get_tag_definition(0x81).unwrap().name, "Message ID");
    assert!(get_tag_definition(0x7777).is_none());
}
