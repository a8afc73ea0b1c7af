//! The data model of the fiscal-cash-register subsystem. The subsystem
//! itself is an external collaborator — a thin HTTP client to a locally
//! spawned daemon — and lives outside the library; these are the plain
//! request shapes it sends.

use vstd::prelude::*;

verus! {

/// How the cash register is attached.
#[derive(Debug, Clone, Copy, PartialEq, Eq, Structural)]
pub enum ConnectionType {
    Usb,
    Com,
    Tcp,
}

/// The wire word of a connection type.
pub open spec fn spec_connection_type_raw(t: ConnectionType) -> Seq<char> {
    match t {
        ConnectionType::Usb => "usb"@,
        ConnectionType::Com => "com"@,
        ConnectionType::Tcp => "tcp"@,
    }
}

impl ConnectionType {
    /// The lowercase word the daemon is told on its command line.
    pub fn raw(&self) -> (r: &'static str)
        ensures
            r@ == spec_connection_type_raw(*self),
    {
        match self {
            ConnectionType::Usb => "usb",
            ConnectionType::Com => "com",
            ConnectionType::Tcp => "tcp",
        }
    }
}

/// How to reach the cash register daemon.
#[derive(Debug, Clone)]
pub struct KktConfig {
    pub connection_type: ConnectionType,
    pub address: Option<String>,
    pub port: Option<u16>,
}

/// The operator a shift or sale is booked under.
#[derive(Debug, Clone)]
pub struct Operator {
    pub name: String,
    pub vatin: Option<String>,
}

/// The customer contact a receipt is sent to.
#[derive(Debug, Clone)]
pub struct ClientInfo {
    pub email_or_phone: Option<String>,
}

/// A tax kind marker.
#[derive(Debug, Clone)]
pub struct Tax {
    pub tax_type: String,
}

/// A free-form attribute attached to a shift document.
#[derive(Debug, Clone)]
pub struct AdditionalAttribute {
    pub name: String,
    pub value: String,
}

/// An open- or close-shift request.
#[derive(Debug, Clone)]
pub struct ShiftTask {
    pub operator: Operator,
    pub additional_attribute: Option<AdditionalAttribute>,
    pub address: Option<String>,
    pub payment_address: Option<String>,
}

} // verus!
