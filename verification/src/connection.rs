//! The connection layer's verified part: the INPAS pseudo-transport,
//! which only tracks a connected flag and rejects raw reads and writes —
//! the INPAS envelope owns its I/O — and the configuration checks of the
//! TCP and serial transports, whose sockets and ports live outside the
//! library.

use vstd::prelude::*;

use crate::strutil::dec_string;
use crate::strutil::spec_dec;
use crate::types::ConnectionConfig;
use crate::types::ConnectionConfigView;
use crate::types::TerminalError;

verus! {

/// The pseudo-transport of the INPAS protocol: always reports connected
/// once asked, and supports no raw reads or writes.
#[derive(Debug)]
pub struct InpasConnection {
    config: ConnectionConfig,
    connected: bool,
}

impl InpasConnection {
    /// The configuration the connection was made with.
    pub closed spec fn cfg(&self) -> ConnectionConfigView {
        self.config@
    }

    /// Whether the connection counts as established.
    pub closed spec fn connected_state(&self) -> bool {
        self.connected
    }

    /// A fresh, disconnected pseudo-transport.
    pub fn new(config: ConnectionConfig) -> (r: Self)
        ensures
            !r.connected_state(),
            r.cfg() == config@,
    {
        InpasConnection { config, connected: false }
    }

    /// The configuration the connection carries.
    pub fn config(&self) -> (r: &ConnectionConfig)
        ensures
            r@ == self.cfg(),
    {
        &self.config
    }

    /// Whether the connection is established.
    pub fn is_connected(&self) -> (r: bool)
        ensures
            r == self.connected_state(),
    {
        self.connected
    }

    /// Connecting always succeeds and reports true.
    pub fn connect(&mut self) -> (r: Result<bool, TerminalError>)
        ensures
            final(self).connected_state(),
            final(self).cfg() == old(self).cfg(),
            r matches Ok(b) && b == true,
    {
        self.connected = true;
        Ok(true)
    }

    /// Disconnecting is idempotent and always succeeds.
    pub fn disconnect(&mut self) -> (r: Result<(), TerminalError>)
        ensures
            !final(self).connected_state(),
            final(self).cfg() == old(self).cfg(),
            r is Ok,
    {
        self.connected = false;
        Ok(())
    }

    /// Raw writes are rejected: the INPAS envelope owns its I/O.
    pub fn write(&mut self, _data: &[u8]) -> (r: Result<(), TerminalError>)
        ensures
            *final(self) == *old(self),
            r matches Err(e) && e@ is TransportIo,
    {
        Err(TerminalError::TransportIo("write is not supported for inpas protocol".to_owned()))
    }

    /// Raw reads are rejected: the INPAS envelope owns its I/O.
    pub fn read(&mut self, _timeout_ms: Option<u32>) -> (r: Result<Vec<u8>, TerminalError>)
        ensures
            *final(self) == *old(self),
            r matches Err(e) && e@ is TransportIo,
    {
        Err(TerminalError::TransportIo("read is not supported for inpas protocol".to_owned()))
    }
}

/// The `host:port` endpoint a TCP transport connects to; both fields are
/// required.
pub fn tcp_endpoint(config: &ConnectionConfig) -> (r: Result<String, TerminalError>)
    ensures
        match r {
            Ok(s) => config@.address matches Some(a) && config@.port matches Some(p) && s@ == a
                + seq![':'] + spec_dec(p as nat),
            Err(e) => (config@.address is None || config@.port is None) && e@ is ConfigMissing,
        },
{
    let port: u16 = match config.port {
        Some(p) => p,
        None => {
            return Err(
                TerminalError::ConfigMissing("Port is required for TCP connection".to_owned()),
            );
        },
    };
    let address: &String = match &config.address {
        Some(a) => a,
        None => {
            return Err(
                TerminalError::ConfigMissing("Address is required for TCP connection".to_owned()),
            );
        },
    };
    let mut s: String = address.clone();
    s.append(":");
    let digits: String = dec_string(port as u64);
    s.append(digits.as_str());
    proof {
        reveal_strlit(":");
        assert(s@ =~= config@.address->0 + seq![':'] + spec_dec(port as nat));
    }
    Ok(s)
}

/// The serial path and baud rate a serial transport opens: the port named
/// by `ncom`, falling back to `address`; the baud rate defaults to 9600.
pub fn serial_target(config: &ConnectionConfig) -> (r: Result<(String, u32), TerminalError>)
    ensures
        match r {
            Ok((path, baud)) => {
                &&& path@ == (match config@.ncom {
                    Some(n) => n,
                    None => match config@.address {
                        Some(a) => a,
                        None => Seq::empty(),
                    },
                })
                &&& (config@.ncom is Some || config@.address is Some)
                &&& baud == (match config@.baudrate {
                    Some(b) => b,
                    None => 9600u32,
                })
            },
            Err(e) => config@.ncom is None && config@.address is None && e@ is ConfigMissing,
        },
{
    let path: String = match &config.ncom {
        Some(n) => n.clone(),
        None => match &config.address {
            Some(a) => a.clone(),
            None => {
                return Err(
                    TerminalError::ConfigMissing(
                        "USB path or serialNumber must be provided in config".to_owned(),
                    ),
                );
            },
        },
    };
    let baud: u32 = match config.baudrate {
        Some(b) => b,
        None => 9600,
    };
    Ok((path, baud))
}

} // verus!
