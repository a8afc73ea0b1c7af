//! Core of a payment-terminal acquiring client: a dual-protocol driver that
//! prepares requests for point-of-sale PIN-pad terminals, frames and parses
//! the proprietary binary TLV protocol ("TTK"), builds and parses the
//! XML-over-HTTP envelope of the "INPAS" DualConnector relay, and normalizes
//! both protocols' response shapes into one uniform transaction record.

pub mod commands;
pub mod connection;
pub mod dispatch;
pub mod frame;
pub mod inpas;
pub mod kkt;
pub mod normalize;
pub mod rawmap;
pub mod strutil;
pub mod tags;
pub mod textenc;
pub mod tlv;
pub mod types;

pub use tags::get_tag_definition;

pub use types::ConnectionConfig;
pub use types::ConnectionType;
pub use types::ProtocolType;
pub use types::TerminalResponse;

pub use kkt::ConnectionType as KktConnectionType;
pub use kkt::KktConfig;
pub use kkt::Operator;
