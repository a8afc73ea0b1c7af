//! Shared data model: protocol and connection selectors, the connection
//! configuration, the tag dictionary entry shape, message types of the TTK
//! envelope, and the uniform response record.

use vstd::prelude::*;

use crate::rawmap::RawMap;

verus! {

/// Which wire protocol the terminal speaks.
#[derive(Debug, Clone, Copy, PartialEq, Eq, Structural)]
pub enum ProtocolType {
    Ttk,
    Inpas,
}

impl Default for ProtocolType {
    /// The default protocol is the binary TTK protocol.
    fn default() -> (r: Self)
        ensures
            r == ProtocolType::Ttk,
    {
        ProtocolType::Ttk
    }
}

/// Which physical transport carries the connection.
#[derive(Debug, Clone, Copy, PartialEq, Eq, Structural)]
pub enum ConnectionType {
    Tcp,
    Usb,
    Bluetooth,
}

/// Immutable per-connection configuration.
#[derive(Debug, Clone)]
pub struct ConnectionConfig {
    pub connection_type: ConnectionType,
    pub protocol: ProtocolType,
    /// The ECR (cash register) identifier echoed in every TTK request.
    pub serial_number: String,
    pub address: Option<String>,
    pub port: Option<u16>,
    /// Read timeout in milliseconds; TTK reads default to 30000 when absent.
    pub timeout: Option<u32>,
    /// The INPAS DualConnector relay, bare `host[:port]` or a full URL.
    pub dc_host: Option<String>,
    /// Serial port path for USB/serial connections.
    pub ncom: Option<String>,
    /// Serial baud rate; defaults to 9600 when absent.
    pub baudrate: Option<u32>,
}

/// Mathematical image of `ConnectionConfig`.
pub struct ConnectionConfigView {
    pub connection_type: ConnectionType,
    pub protocol: ProtocolType,
    pub serial_number: Seq<char>,
    pub address: Option<Seq<char>>,
    pub port: Option<u16>,
    pub timeout: Option<u32>,
    pub dc_host: Option<Seq<char>>,
    pub ncom: Option<Seq<char>>,
    pub baudrate: Option<u32>,
}

impl View for ConnectionConfig {
    type V = ConnectionConfigView;

    open spec fn view(&self) -> ConnectionConfigView {
        ConnectionConfigView {
            connection_type: self.connection_type,
            protocol: self.protocol,
            serial_number: self.serial_number@,
            address: self.address.deep_view(),
            port: self.port,
            timeout: self.timeout,
            dc_host: self.dc_host.deep_view(),
            ncom: self.ncom.deep_view(),
            baudrate: self.baudrate,
        }
    }
}

/// The error taxonomy of the driver.
#[derive(Debug)]
pub enum TerminalError {
    /// A required configuration field is absent for the chosen mode.
    ConfigMissing(String),
    /// A read or write was issued while the transport is disconnected.
    NotConnected,
    /// An underlying socket or serial error.
    TransportIo(String),
    /// A read did not complete within its deadline.
    Timeout,
    /// The TTK envelope length or type is invalid.
    InvalidFrame(String),
    /// A TLV tag, length or value read ran past the buffer.
    InvalidTlv(String),
    /// The DualConnector returned a 4xx/5xx status; carries status and raw
    /// body text.
    HttpStatus(u16, String),
    /// The INPAS response XML is malformed.
    XmlParse(String),
    /// The Bluetooth transport is declared but not implemented.
    UnimplementedTransport,
}

/// Mathematical image of `TerminalError`.
pub enum TerminalErrorView {
    ConfigMissing(Seq<char>),
    NotConnected,
    TransportIo(Seq<char>),
    Timeout,
    InvalidFrame(Seq<char>),
    InvalidTlv(Seq<char>),
    HttpStatus(u16, Seq<char>),
    XmlParse(Seq<char>),
    UnimplementedTransport,
}

impl View for TerminalError {
    type V = TerminalErrorView;

    open spec fn view(&self) -> TerminalErrorView {
        match self {
            TerminalError::ConfigMissing(s) => TerminalErrorView::ConfigMissing(s@),
            TerminalError::NotConnected => TerminalErrorView::NotConnected,
            TerminalError::TransportIo(s) => TerminalErrorView::TransportIo(s@),
            TerminalError::Timeout => TerminalErrorView::Timeout,
            TerminalError::InvalidFrame(s) => TerminalErrorView::InvalidFrame(s@),
            TerminalError::InvalidTlv(s) => TerminalErrorView::InvalidTlv(s@),
            TerminalError::HttpStatus(c, s) => TerminalErrorView::HttpStatus(*c, s@),
            TerminalError::XmlParse(s) => TerminalErrorView::XmlParse(s@),
            TerminalError::UnimplementedTransport => TerminalErrorView::UnimplementedTransport,
        }
    }
}

/// How the value bytes of a tag are rendered as text.
#[derive(Debug, Clone, Copy, PartialEq, Eq, Structural)]
pub enum DataType {
    String,
    Bcd,
    Hex,
    Binary,
    DwordLe,
    DwordBe,
}

/// Character encoding of a string-typed tag value.
#[derive(Debug, Clone, Copy, PartialEq, Eq, Structural)]
pub enum Encoding {
    Cp1251,
    Cp866,
    Ascii,
}

/// One entry of the tag dictionary.
#[derive(Debug, Clone)]
pub struct TagDefinition {
    pub tag: u32,
    pub name: String,
    pub data_type: DataType,
    pub encoding: Option<Encoding>,
}

/// Mathematical image of `TagDefinition`.
pub struct TagDefView {
    pub tag: u32,
    pub name: Seq<char>,
    pub data_type: DataType,
    pub encoding: Option<Encoding>,
}

impl View for TagDefinition {
    type V = TagDefView;

    open spec fn view(&self) -> TagDefView {
        TagDefView {
            tag: self.tag,
            name: self.name@,
            data_type: self.data_type,
            encoding: self.encoding,
        }
    }
}

/// The two recognized 16-bit message-type codes of the TTK envelope.
#[derive(Debug, Clone, Copy, PartialEq, Eq, Structural)]
pub enum MessageType {
    ClientRequest,
    ServerResponse,
}

/// Wire code of `MessageType::ClientRequest`.
pub const CLIENT_REQUEST_CODE: u16 = 0x96f2;

/// Wire code of `MessageType::ServerResponse`.
pub const SERVER_RESPONSE_CODE: u16 = 0x97f2;

pub open spec fn spec_wire_code(t: MessageType) -> u16 {
    match t {
        MessageType::ClientRequest => CLIENT_REQUEST_CODE,
        MessageType::ServerResponse => SERVER_RESPONSE_CODE,
    }
}

impl MessageType {
    /// The 16-bit code that identifies this message type on the wire.
    pub fn wire_code(self) -> (r: u16)
        ensures
            r == spec_wire_code(self),
    {
        match self {
            MessageType::ClientRequest => CLIENT_REQUEST_CODE,
            MessageType::ServerResponse => SERVER_RESPONSE_CODE,
        }
    }
}

/// Well-known terminal response codes.
#[derive(Debug, Clone, Copy, PartialEq, Eq, Structural)]
pub enum ResponseCode {
    Success,
    InvalidFormat,
    InvalidDocumentNumber,
}

pub open spec fn spec_response_code_from(s: Seq<char>) -> Option<ResponseCode> {
    if s == "00"@ {
        Some(ResponseCode::Success)
    } else if s == "FE"@ {
        Some(ResponseCode::InvalidFormat)
    } else if s == "B4"@ {
        Some(ResponseCode::InvalidDocumentNumber)
    } else {
        None
    }
}

impl ResponseCode {
    /// Parses the two-character wire code of a well-known response code.
    pub fn from_str(s: &str) -> (r: Option<Self>)
        ensures
            r == spec_response_code_from(s@),
    {
        if crate::strutil::str_eq(s, "00") {
            Some(Self::Success)
        } else if crate::strutil::str_eq(s, "FE") {
            Some(Self::InvalidFormat)
        } else if crate::strutil::str_eq(s, "B4") {
            Some(Self::InvalidDocumentNumber)
        } else {
            None
        }
    }
}

/// The uniform transaction record both protocols normalize into.
#[derive(Debug)]
pub struct NormalizedTransactionData {
    pub message_id: Option<String>,
    pub operation_code: Option<String>,
    pub ecr_number: Option<String>,
    pub response_code: Option<String>,
    pub approve: Option<String>,
    pub status: Option<String>,
    pub status_text: Option<String>,
    pub amount: Option<String>,
    pub additional_amount: Option<String>,
    pub currency: Option<String>,
    pub pan_masked: Option<String>,
    pub rrn: Option<String>,
    pub invoice_number: Option<String>,
    pub authorization_code: Option<String>,
    pub terminal_id: Option<String>,
    pub merchant_id: Option<String>,
    pub batch_number: Option<String>,
    pub date: Option<String>,
    pub time: Option<String>,
    pub timestamp: Option<String>,
    pub host_timestamp: Option<String>,
    pub card_entry_mode: Option<String>,
    pub cardholder_verification: Option<String>,
    pub text_response: Option<String>,
    pub receipt: Option<String>,
    pub application_label: Option<String>,
    pub issuer_name: Option<String>,
    pub transaction_id: Option<String>,
    pub cashier_request: Option<String>,
    pub cashier_response: Option<String>,
    pub provider_code: Option<String>,
    /// The raw key/value bag the record was built from, verbatim.
    pub raw: RawMap,
    /// Raw keys that are not in the protocol's known set, when any exist.
    pub extras: Option<RawMap>,
}

/// Mathematical image of `NormalizedTransactionData`.
pub struct NormalizedDataView {
    pub message_id: Option<Seq<char>>,
    pub operation_code: Option<Seq<char>>,
    pub ecr_number: Option<Seq<char>>,
    pub response_code: Option<Seq<char>>,
    pub approve: Option<Seq<char>>,
    pub status: Option<Seq<char>>,
    pub status_text: Option<Seq<char>>,
    pub amount: Option<Seq<char>>,
    pub additional_amount: Option<Seq<char>>,
    pub currency: Option<Seq<char>>,
    pub pan_masked: Option<Seq<char>>,
    pub rrn: Option<Seq<char>>,
    pub invoice_number: Option<Seq<char>>,
    pub authorization_code: Option<Seq<char>>,
    pub terminal_id: Option<Seq<char>>,
    pub merchant_id: Option<Seq<char>>,
    pub batch_number: Option<Seq<char>>,
    pub date: Option<Seq<char>>,
    pub time: Option<Seq<char>>,
    pub timestamp: Option<Seq<char>>,
    pub host_timestamp: Option<Seq<char>>,
    pub card_entry_mode: Option<Seq<char>>,
    pub cardholder_verification: Option<Seq<char>>,
    pub text_response: Option<Seq<char>>,
    pub receipt: Option<Seq<char>>,
    pub application_label: Option<Seq<char>>,
    pub issuer_name: Option<Seq<char>>,
    pub transaction_id: Option<Seq<char>>,
    pub cashier_request: Option<Seq<char>>,
    pub cashier_response: Option<Seq<char>>,
    pub provider_code: Option<Seq<char>>,
    pub raw: Map<Seq<char>, Seq<char>>,
    pub extras: Option<Map<Seq<char>, Seq<char>>>,
}

impl View for NormalizedTransactionData {
    type V = NormalizedDataView;

    open spec fn view(&self) -> NormalizedDataView {
        NormalizedDataView {
            message_id: self.message_id.deep_view(),
            operation_code: self.operation_code.deep_view(),
            ecr_number: self.ecr_number.deep_view(),
            response_code: self.response_code.deep_view(),
            approve: self.approve.deep_view(),
            status: self.status.deep_view(),
            status_text: self.status_text.deep_view(),
            amount: self.amount.deep_view(),
            additional_amount: self.additional_amount.deep_view(),
            currency: self.currency.deep_view(),
            pan_masked: self.pan_masked.deep_view(),
            rrn: self.rrn.deep_view(),
            invoice_number: self.invoice_number.deep_view(),
            authorization_code: self.authorization_code.deep_view(),
            terminal_id: self.terminal_id.deep_view(),
            merchant_id: self.merchant_id.deep_view(),
            batch_number: self.batch_number.deep_view(),
            date: self.date.deep_view(),
            time: self.time.deep_view(),
            timestamp: self.timestamp.deep_view(),
            host_timestamp: self.host_timestamp.deep_view(),
            card_entry_mode: self.card_entry_mode.deep_view(),
            cardholder_verification: self.cardholder_verification.deep_view(),
            text_response: self.text_response.deep_view(),
            receipt: self.receipt.deep_view(),
            application_label: self.application_label.deep_view(),
            issuer_name: self.issuer_name.deep_view(),
            transaction_id: self.transaction_id.deep_view(),
            cashier_request: self.cashier_request.deep_view(),
            cashier_response: self.cashier_response.deep_view(),
            provider_code: self.provider_code.deep_view(),
            raw: self.raw@,
            extras: match self.extras {
                Some(ref m) => Some(m@),
                None => None,
            },
        }
    }
}

/// The outcome of one logical terminal operation.
#[derive(Debug)]
pub struct TerminalResponse {
    pub success: bool,
    pub code: Option<String>,
    pub message: Option<String>,
    pub data: Option<NormalizedTransactionData>,
    /// Present exactly when `!success`.
    pub error: Option<String>,
}

/// Mathematical image of `TerminalResponse`.
pub struct TerminalResponseView {
    pub success: bool,
    pub code: Option<Seq<char>>,
    pub message: Option<Seq<char>>,
    pub data: Option<NormalizedDataView>,
    pub error: Option<Seq<char>>,
}

impl View for TerminalResponse {
    type V = TerminalResponseView;

    open spec fn view(&self) -> TerminalResponseView {
        TerminalResponseView {
            success: self.success,
            code: self.code.deep_view(),
            message: self.message.deep_view(),
            data: match self.data {
                Some(ref d) => Some(d@),
                None => None,
            },
            error: self.error.deep_view(),
        }
    }
}

} // verus!
