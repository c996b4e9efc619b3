//! Transport selection - TCP (104) or serial (101) - for both daemons.
//!
//! Both daemons accept the same set of flags. [`TransportArgs::resolve`]
//! enforces that an address is mutually exclusive with the serial-only flags,
//! and resolves to a typed [`TransportChoice`].

use vstd::prelude::*;
use crate::frame101::frame::LinkAddressSize;

verus! {

/// Wire transport this daemon will use.
#[derive(Debug, Clone, Copy, PartialEq, Eq, Structural)]
pub enum TransportKind {
    /// IEC 60870-5-104 over TCP.
    Tcp,
    /// IEC 60870-5-101 over a serial port (or socat pty).
    Serial,
}

impl TransportKind {
    /// The name that the daemon reports in its status.
    pub fn name(self) -> (s: &'static str)
        ensures
            s@ == (match self {
                TransportKind::Tcp => "tcp"@,
                TransportKind::Serial => "serial"@,
            }),
    {
        match self {
            TransportKind::Tcp => "tcp",
            TransportKind::Serial => "serial",
        }
    }
}

/// One-octet or two-octet link address.
#[derive(Debug, Default, Clone, Copy, PartialEq, Eq, Structural)]
pub enum LinkAddrSize {
    #[default]
    One,
    Two,
}

impl LinkAddrSize {
    pub fn to_proto(self) -> (size: LinkAddressSize)
        ensures
            size == (match self {
                LinkAddrSize::One => LinkAddressSize::One,
                LinkAddrSize::Two => LinkAddressSize::Two,
            }),
    {
        match self {
            LinkAddrSize::One => LinkAddressSize::One,
            LinkAddrSize::Two => LinkAddressSize::Two,
        }
    }
}

/// Shared transport flags for both daemons.
#[derive(Debug, Clone)]
pub struct TransportArgs {
    /// Wire transport: `tcp` (IEC-104) or `serial` (IEC-101).
    pub transport: TransportKind,
    /// TCP only: socket address (server `bind`, client `connect`).
    /// Defaults to `127.0.0.1:2404` if omitted.
    pub addr: Option<String>,
    /// Serial only: device path (e.g. `/dev/ttyUSB0`, `/dev/pts/N`).
    pub serial: Option<String>,
    /// Serial only: baud rate.
    pub baud: u32,
    /// Serial only: link address.
    pub link_addr: u16,
    /// Serial only: link-address octet count (1 or 2).
    pub link_addr_size: LinkAddrSize,
    /// Common Address of the ASDU.
    pub coa: u16,
}

/// Fully resolved transport choice ready to hand to the daemon.
#[derive(Debug, Clone)]
pub enum TransportChoice {
    Tcp { addr: String, coa: u16 },
    Serial { path: String, baud: u32, link_addr: u16, link_addr_size: LinkAddrSize, coa: u16 },
}

/// Flags that contradict the transport.
#[derive(Debug, Clone, Copy, PartialEq, Eq, Structural)]
pub enum TransportError {
    SerialWithTcp,
    SerialMissing,
    AddrWithSerial,
}

impl TransportError {
    pub fn message(self) -> (s: &'static str)
        ensures
            s@ == (match self {
                TransportError::SerialWithTcp =>
                    "--serial is incompatible with --transport tcp; drop it or switch transports"@,
                TransportError::SerialMissing =>
                    "--serial <PATH> is required for --transport serial"@,
                TransportError::AddrWithSerial =>
                    "--addr is incompatible with --transport serial; drop it or switch transports"@,
            }),
    {
        match self {
            TransportError::SerialWithTcp =>
                "--serial is incompatible with --transport tcp; drop it or switch transports",
            TransportError::SerialMissing => "--serial <PATH> is required for --transport serial",
            TransportError::AddrWithSerial =>
                "--addr is incompatible with --transport serial; drop it or switch transports",
        }
    }
}

impl TransportChoice {
    /// The common address of either transport.
    pub fn coa(&self) -> (coa: u16)
        ensures
            coa == (match *self {
                TransportChoice::Tcp { coa, .. } => coa,
                TransportChoice::Serial { coa, .. } => coa,
            }),
    {
        match self {
            TransportChoice::Tcp { coa, .. } => *coa,
            TransportChoice::Serial { coa, .. } => *coa,
        }
    }
}

impl TransportArgs {
    pub fn resolve(self) -> (r: core::result::Result<TransportChoice, TransportError>)
        ensures
            match r {
                Ok(TransportChoice::Tcp { addr, coa }) => {
                    &&& self.transport is Tcp
                    &&& self.serial is None
                    &&& addr@ == (match self.addr {
                        Some(a) => a@,
                        None => "127.0.0.1:2404"@,
                    })
                    &&& coa == self.coa
                },
                Ok(TransportChoice::Serial { path, baud, link_addr, link_addr_size, coa }) => {
                    &&& self.transport is Serial
                    &&& self.addr is None
                    &&& self.serial == Some(path)
                    &&& baud == self.baud
                    &&& link_addr == self.link_addr
                    &&& link_addr_size == self.link_addr_size
                    &&& coa == self.coa
                },
                Err(TransportError::SerialWithTcp) => self.transport is Tcp && self.serial is Some,
                Err(TransportError::SerialMissing) => self.transport is Serial
                    && self.serial is None,
                Err(TransportError::AddrWithSerial) => self.transport is Serial
                    && self.serial is Some && self.addr is Some,
            },
    {
        let coa: u16 = self.coa;
        match self.transport {
            TransportKind::Tcp => {
                if self.serial.is_some() {
                    return Err(TransportError::SerialWithTcp);
                }
                let addr: String = match self.addr {
                    Some(a) => a,
                    None => String::from_str("127.0.0.1:2404"),
                };
                Ok(TransportChoice::Tcp { addr, coa })
            },
            TransportKind::Serial => match self.serial {
                Some(path) => {
                    if self.addr.is_some() {
                        return Err(TransportError::AddrWithSerial);
                    }
                    Ok(
                        TransportChoice::Serial {
                            path,
                            baud: self.baud,
                            link_addr: self.link_addr,
                            link_addr_size: self.link_addr_size,
                            coa,
                        },
                    )
                },
                None => Err(TransportError::SerialMissing),
            },
        }
    }
}

} // verus!
