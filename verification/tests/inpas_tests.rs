use corex_ttk2::commands::fill_inpas_fields;
use corex_ttk2::inpas::EnvelopeOptions;
use corex_ttk2::inpas::InpasField;
use corex_ttk2::inpas::build_inpas_xml;
use corex_ttk2::inpas::decode_http_body;
use corex_ttk2::inpas::envelope_options_from_config;
use corex_ttk2::inpas::extract_charset;
use corex_ttk2::inpas::handle_inpas_http_response;
use corex_ttk2::inpas::normalize_dc_url;
use corex_ttk2::inpas::parse_inpas_response;
use corex_ttk2::inpas::prepare_inpas_request;
use corex_ttk2::inpas::zero_pad2;
use corex_ttk2::types::ConnectionConfig;
use corex_ttk2::types::ConnectionType;
use corex_ttk2::types::ProtocolType;
use corex_ttk2::types::TerminalError;

fn field(id: &str, value: &str) -> InpasField {
    InpasField { id: id.to_string(), value: value.to_string() }
}

fn inpas_tcp_config() -> ConnectionConfig {
    ConnectionConfig {
        connection_type: ConnectionType::Tcp,
        protocol: ProtocolType::Inpas,
        serial_number: "10285694".to_string(),
        address: Some("192.168.39.176".to_string()),
        port: Some(9015),
        timeout: Some(10000),
        dc_host: Some("192.168.39.176:9015".to_string()),
        ncom: None,
        baudrate: None,
    }
}

#[test]
fn xml_build_flat_fields() {
    let fields = vec![field("00", "1000"), field("04", "643"), field("25", "29")];
    let meta = EnvelopeOptions { timeout: None, ipaddr: None, ncom: None, baudrate: None };
    let xml = build_inpas_xml(&fields, &meta);
    assert_eq!(
        xml,
        "<?xml version=\"1.0\" encoding=\"windows-1251\"?><request>\
         <field id=\"00\">1000</field><field id=\"04\">643</field>\
         <field id=\"25\">29</field></request>"
    );
}

#[test]
fn xml_build_meta_block() {
    let fields = vec![field("25", "59")];
    let meta = EnvelopeOptions {
        timeout: Some(10000),
        ipaddr: Some("192.168.39.176:9015".to_string()),
        ncom: None,
        baudrate: None,
    };
    let xml = build_inpas_xml(&fields, &meta);
    assert_eq!(
        xml,
        "<?xml version=\"1.0\" encoding=\"windows-1251\"?><request>\
         <field id=\"25\">59</field><timeout>10000</timeout>\
         <ipaddr>192.168.39.176:9015</ipaddr></request>"
    );
}

#[test]
fn xml_build_escapes_text() {
    let fields = vec![field("19", "a<b&c>d\"e'f")];
    let meta = EnvelopeOptions { timeout: None, ipaddr: None, ncom: None, baudrate: None };
    let xml = build_inpas_xml(&fields, &meta);
    assert!(xml.contains("<field id=\"19\">a&lt;b&amp;c&gt;d&quot;e&apos;f</field>"));
}

#[test]
fn xml_roundtrip_recovers_fields() {
    // Building a request and reading it back as a response document
    // recovers each field under its zero-padded id.
    let fields = vec![field("5", "abc"), field("15", "00"), field("19", "Approved")];
    let meta = EnvelopeOptions { timeout: None, ipaddr: None, ncom: None, baudrate: None };
    let xml = build_inpas_xml(&fields, &meta);
    let resp = parse_inpas_response(&xml).unwrap();
    let data = resp.data.unwrap();
    assert_eq!(data.raw.get("05").unwrap().as_str(), "abc");
    assert_eq!(data.raw.get("15").unwrap().as_str(), "00");
    assert_eq!(data.raw.get("19").unwrap().as_str(), "Approved");
}

#[test]
fn parse_response_fields_and_verdict() {
    let xml = "<response><field id=\"15\">00</field><field id=\"19\">Approved</field></response>";
    let resp = parse_inpas_response(xml).unwrap();
    assert!(resp.success);
    assert_eq!(resp.code.as_deref(), Some("00"));
    assert_eq!(resp.message.as_deref(), Some("Approved"));
    let data = resp.data.unwrap();
    assert_eq!(data.response_code.as_deref(), Some("00"));
}

#[test]
fn parse_response_error_envelope() {
    let xml = "<response><errorcode>42</errorcode>\
               <errordescription>No link</errordescription></response>";
    let resp = parse_inpas_response(xml).unwrap();
    assert!(!resp.success);
    assert_eq!(resp.code.as_deref(), Some("42"));
    assert_eq!(resp.message.as_deref(), Some("No link"));
    assert_eq!(resp.error.as_deref(), Some("No link"));
    assert!(resp.data.is_none());
}

#[test]
fn parse_response_error_without_description() {
    let xml = "<response><errorcode>7</errorcode></response>";
    let resp = parse_inpas_response(xml).unwrap();
    assert!(!resp.success);
    assert_eq!(resp.error.as_deref(), Some("DualConnector error code 7"));
}

#[test]
fn parse_response_camel_case_description() {
    let xml = "<response><errorcode>9</errorcode>\
               <errorDescription>Busy</errorDescription></response>";
    let resp = parse_inpas_response(xml).unwrap();
    assert_eq!(resp.message.as_deref(), Some("Busy"));
    assert_eq!(resp.error.as_deref(), Some("Busy"));
}

#[test]
fn parse_response_trims_text_runs() {
    let xml = "<response><field id=\"15\"> 00 </field></response>";
    let resp = parse_inpas_response(xml).unwrap();
    assert_eq!(resp.data.unwrap().raw.get("15").unwrap().as_str(), "00");
}

#[test]
fn parse_response_with_declaration_and_unknown_elements() {
    let xml = "<?xml version=\"1.0\" encoding=\"windows-1251\"?>\
               <response><other>x</other><field id=\"15\">00</field></response>";
    let resp = parse_inpas_response(xml).unwrap();
    assert_eq!(resp.data.unwrap().response_code.as_deref(), Some("00"));
}

#[test]
fn parse_response_field_without_id_is_dropped() {
    let xml = "<response><field>zz</field><field id=\"15\">00</field></response>";
    let resp = parse_inpas_response(xml).unwrap();
    let data = resp.data.unwrap();
    assert_eq!(data.raw.entry_count(), 1);
}

#[test]
fn parse_response_rejects_unterminated_element() {
    assert!(matches!(
        parse_inpas_response("<response><field id=\"15\">00"),
        Err(TerminalError::XmlParse(_))
    ));
}

#[test]
fn parse_response_rejects_malformed_attribute() {
    assert!(matches!(
        parse_inpas_response("<response><field id=15>00</field></response>"),
        Err(TerminalError::XmlParse(_))
    ));
}

#[test]
fn zero_padding_of_ids() {
    assert_eq!(zero_pad2("5".to_string()), "05");
    assert_eq!(zero_pad2("15".to_string()), "15");
    assert_eq!(zero_pad2("".to_string()), "00");
    assert_eq!(zero_pad2("123".to_string()), "123");
}

#[test]
fn dc_url_scheme_defaulting() {
    assert_eq!(normalize_dc_url("192.168.39.176:9015"), "http://192.168.39.176:9015");
    assert_eq!(normalize_dc_url("http://host/x"), "http://host/x");
    assert_eq!(normalize_dc_url("https://host"), "https://host");
}

#[test]
fn charset_extraction() {
    assert_eq!(extract_charset(Some("text/xml; charset=windows-1251")), Some("windows-1251"));
    assert_eq!(extract_charset(Some("text/xml; Charset=UTF-8")), Some("UTF-8"));
    assert_eq!(extract_charset(Some("text/xml")), None);
    assert_eq!(extract_charset(None), None);
    assert_eq!(extract_charset(Some("charset=a; charset=b")), Some("a"));
}

#[test]
fn body_decoding_by_charset() {
    // 0xCF 0xD0 0xC8 0xC2 0xC5 0xD2 reads "ПРИВЕТ" under windows-1251 and
    // mojibake replacement under lossy UTF-8.
    let body = [0xcfu8, 0xd0, 0xc8, 0xc2, 0xc5, 0xd2];
    let text = decode_http_body(Some("text/xml; charset=windows-1251"), &body);
    assert_eq!(text, "ПРИВЕТ");
    let text = decode_http_body(Some("text/xml; charset=cp1251"), &body);
    assert_eq!(text, "ПРИВЕТ");
    let lossy = decode_http_body(Some("text/xml"), &body);
    assert_ne!(lossy, "ПРИВЕТ");
    let ascii = decode_http_body(None, b"plain");
    assert_eq!(ascii, "plain");
}

#[test]
fn envelope_options_tcp_and_usb() {
    let meta = envelope_options_from_config(&inpas_tcp_config()).unwrap();
    assert_eq!(meta.ipaddr.as_deref(), Some("192.168.39.176:9015"));
    assert_eq!(meta.timeout, Some(10000));
    assert!(meta.ncom.is_none());

    let mut usb = inpas_tcp_config();
    usb.connection_type = ConnectionType::Usb;
    usb.ncom = Some("/dev/ttyUSB0".to_string());
    usb.baudrate = Some(115200);
    let meta = envelope_options_from_config(&usb).unwrap();
    assert_eq!(meta.ncom.as_deref(), Some("/dev/ttyUSB0"));
    assert_eq!(meta.baudrate, Some(115200));
    assert!(meta.ipaddr.is_none());
}

#[test]
fn envelope_options_missing_fields() {
    let mut c = inpas_tcp_config();
    c.port = None;
    assert!(matches!(
        envelope_options_from_config(&c),
        Err(TerminalError::ConfigMissing(_))
    ));
    let mut c = inpas_tcp_config();
    c.connection_type = ConnectionType::Usb;
    assert!(matches!(
        envelope_options_from_config(&c),
        Err(TerminalError::ConfigMissing(_))
    ));
}

#[test]
fn prepared_request_for_refund() {
    // The refund request carries amount, currency, operation code 29, the
    // given timestamp as field 21, and the serial number as field 27.
    let fields = vec![field("00", "1000"), field("04", "643"), field("25", "29")];
    let filled = fill_inpas_fields(fields, "20240101120000".to_string(), "10285694");
    let config = inpas_tcp_config();
    let req = prepare_inpas_request(&config, &filled).unwrap();
    assert_eq!(req.url, "http://192.168.39.176:9015");
    let body = String::from_utf8(req.body.clone()).unwrap();
    assert!(body.contains("<field id=\"00\">1000</field>"));
    assert!(body.contains("<field id=\"04\">643</field>"));
    assert!(body.contains("<field id=\"25\">29</field>"));
    assert!(body.contains("<field id=\"21\">20240101120000</field>"));
    assert!(body.contains("<field id=\"27\">10285694</field>"));
    assert!(body.contains("<timeout>10000</timeout>"));
    assert!(body.contains("<ipaddr>192.168.39.176:9015</ipaddr>"));
}

#[test]
fn prepared_request_requires_dc_host() {
    let mut config = inpas_tcp_config();
    config.dc_host = None;
    let r = prepare_inpas_request(&config, &vec![]);
    assert!(matches!(r, Err(TerminalError::ConfigMissing(_))));
}

#[test]
fn inpas_loopback_through_cp1251() {
    // The whole INPAS path against itself: the request body is encoded to
    // windows-1251 — "Привет" becomes CF F0 E8 E2 E5 F2, not its UTF-8
    // bytes — and decoding the same bytes by the declared charset parses
    // back to the same fields.
    let fields = vec![field("15", "00"), field("19", "Привет")];
    let config = inpas_tcp_config();
    let req = prepare_inpas_request(&config, &fields).unwrap();
    let cyr = [0xcfu8, 0xf0, 0xe8, 0xe2, 0xe5, 0xf2];
    assert!(req.body.windows(cyr.len()).any(|w| w == cyr));
    let resp =
        handle_inpas_http_response(200, Some("text/xml; charset=windows-1251"), &req.body).unwrap();
    assert!(resp.success);
    assert_eq!(resp.code.as_deref(), Some("00"));
    assert_eq!(resp.message.as_deref(), Some("Привет"));
}

#[test]
fn http_response_error_status() {
    let r = handle_inpas_http_response(500, Some("text/plain"), b"boom");
    match r {
        Err(TerminalError::HttpStatus(status, body)) => {
            assert_eq!(status, 500);
            assert_eq!(body, "boom");
        },
        _ => panic!("expected an HTTP status error"),
    }
}

#[test]
fn http_response_ok_parses_body() {
    let body = b"<response><field id=\"15\">00</field></response>";
    let resp = handle_inpas_http_response(200, Some("text/xml; charset=windows-1251"), body)
        .unwrap();
    assert!(resp.success);
    assert_eq!(resp.code.as_deref(), Some("00"));
}
