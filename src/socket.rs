//! Protocol families and the lifecycle of a Netlink socket.

use vstd::prelude::*;
use crate::error::NlError;
use crate::message::Message;
use crate::wire::{le16, le32, read32};

verus! {

/// Netlink protocol families, each selecting a kernel subsystem.
#[derive(Debug, Clone, Copy, PartialEq, Eq, Structural)]
pub enum NetlinkProtocol {
    Route,
    Unused,
    Usersock,
    Firewall,
    SockDiag,
    NfLog,
    Xfrm,
    Selinux,
    Iscsi,
    Audit,
    FibLookup,
    Connector,
    Netfilter,
    Ip6Fw,
    Dnrtmsg,
    KobjectUevent,
    DMEVENTS,
    Scsitransport,
    Ecryptfs,
    Rdma,
    Crypto,
    Zu,
}

/// The number that identifies each family on the wire.
pub open spec fn protocol_number(p: NetlinkProtocol) -> i32 {
    match p {
        NetlinkProtocol::Route => 0,
        NetlinkProtocol::Unused => 1,
        NetlinkProtocol::Usersock => 2,
        NetlinkProtocol::Firewall => 3,
        NetlinkProtocol::SockDiag => 4,
        NetlinkProtocol::NfLog => 5,
        NetlinkProtocol::Xfrm => 6,
        NetlinkProtocol::Selinux => 7,
        NetlinkProtocol::Iscsi => 8,
        NetlinkProtocol::Audit => 9,
        NetlinkProtocol::FibLookup => 10,
        NetlinkProtocol::Connector => 11,
        NetlinkProtocol::Netfilter => 12,
        NetlinkProtocol::Ip6Fw => 13,
        NetlinkProtocol::Dnrtmsg => 14,
        NetlinkProtocol::KobjectUevent => 15,
        NetlinkProtocol::DMEVENTS => 16,
        NetlinkProtocol::Scsitransport => 17,
        NetlinkProtocol::Ecryptfs => 18,
        NetlinkProtocol::Rdma => 19,
        NetlinkProtocol::Crypto => 20,
        NetlinkProtocol::Zu => 30,
    }
}

impl NetlinkProtocol {
    /// The family's number.
    pub fn number(&self) -> (r: i32)
        ensures
            r == protocol_number(*self),
    {
        match self {
            NetlinkProtocol::Route => 0,
            NetlinkProtocol::Unused => 1,
            NetlinkProtocol::Usersock => 2,
            NetlinkProtocol::Firewall => 3,
            NetlinkProtocol::SockDiag => 4,
            NetlinkProtocol::NfLog => 5,
            NetlinkProtocol::Xfrm => 6,
            NetlinkProtocol::Selinux => 7,
            NetlinkProtocol::Iscsi => 8,
            NetlinkProtocol::Audit => 9,
            NetlinkProtocol::FibLookup => 10,
            NetlinkProtocol::Connector => 11,
            NetlinkProtocol::Netfilter => 12,
            NetlinkProtocol::Ip6Fw => 13,
            NetlinkProtocol::Dnrtmsg => 14,
            NetlinkProtocol::KobjectUevent => 15,
            NetlinkProtocol::DMEVENTS => 16,
            NetlinkProtocol::Scsitransport => 17,
            NetlinkProtocol::Ecryptfs => 18,
            NetlinkProtocol::Rdma => 19,
            NetlinkProtocol::Crypto => 20,
            NetlinkProtocol::Zu => 30,
        }
    }
}

/// Kernel buffer size used where a caller asks for zero or less.
pub const DEFAULT_BUFFER_SIZE: i32 = 32768;

/// The lifecycle state of one Netlink socket: its descriptor once connected, its local
/// port, and whether it was closed.
///
/// The operating system's work (opening, configuring, sending, releasing) is done by the
/// caller; these methods decide what is to be done and take the outcome back.
pub struct Socket {
    fd: Option<i32>,
    local_port: u32,
    closed: bool,
}

/// The abstract state of a socket.
pub struct SocketView {
    pub fd: Option<i32>,
    pub local_port: u32,
    pub closed: bool,
}

/// The effective buffer size for a requested one.
pub open spec fn effective_size(n: i32) -> i32 {
    if n <= 0 {
        DEFAULT_BUFFER_SIZE
    } else {
        n
    }
}

/// The error, if any, for an operation that needs a connected socket in state `s`.
pub open spec fn usable(s: SocketView) -> Result<i32, NlError> {
    if s.closed {
        Err(NlError::HandleClosed)
    } else if s.fd is None {
        Err(NlError::NotConnected)
    } else {
        Ok(s.fd->0)
    }
}

impl View for Socket {
    type V = SocketView;

    closed spec fn view(&self) -> SocketView {
        SocketView { fd: self.fd, local_port: self.local_port, closed: self.closed }
    }
}

impl Socket {
    /// A socket that is neither connected nor closed, with no local port chosen.
    pub fn new() -> (r: Socket)
        ensures
            r@ == (SocketView { fd: None, local_port: 0, closed: false }),
    {
        Socket { fd: None, local_port: 0, closed: false }
    }

    /// The descriptor, or -1 where there is none.
    pub fn get_fd(&self) -> (r: i32)
        ensures
            r == (match self@.fd {
                Some(f) => f,
                None => -1i32,
            }),
    {
        match self.fd {
            Some(f) => f,
            None => -1,
        }
    }

    pub fn get_local_port(&self) -> (r: u32)
        ensures
            r == self@.local_port,
    {
        self.local_port
    }

    /// Chooses the local port; zero leaves the choice to the kernel at connect time.
    pub fn set_local_port(&mut self, port: u32)
        ensures
            final(self)@ == (SocketView { local_port: port, ..old(self)@ }),
    {
        self.local_port = port;
    }

    pub fn is_closed(&self) -> (r: bool)
        ensures
            r == self@.closed,
    {
        self.closed
    }

    /// The receive and send buffer sizes to hand to the operating system for the requested
    /// ones; zero or less asks for the default.
    pub fn set_buffer_size(&self, rxbuf: i32, txbuf: i32) -> (r: Result<(i32, i32), NlError>)
        ensures
            usable(self@) is Ok <==> r is Ok,
            r is Ok ==> r->Ok_0 == (effective_size(rxbuf), effective_size(txbuf)),
            r is Err ==> usable(self@) == Err::<i32, NlError>(r->Err_0),
    {
        self.check_usable()?;
        let rx = if rxbuf <= 0 {
            DEFAULT_BUFFER_SIZE
        } else {
            rxbuf
        };
        let tx = if txbuf <= 0 {
            DEFAULT_BUFFER_SIZE
        } else {
            txbuf
        };
        Ok((rx, tx))
    }

    /// What the operating system's answer to a buffer-size change means: a negative code is
    /// a refusal.
    pub fn buffer_size_outcome(code: i32) -> (r: Result<(), NlError>)
        ensures
            code >= 0 <==> r is Ok,
            r is Err ==> r->Err_0 == NlError::ConfigurationRejected(code),
    {
        if code < 0 {
            Err(NlError::ConfigurationRejected(code))
        } else {
            Ok(())
        }
    }

    fn check_usable(&self) -> (r: Result<i32, NlError>)
        ensures
            r == usable(self@),
    {
        if self.closed {
            Err(NlError::HandleClosed)
        } else {
            match self.fd {
                Some(f) => Ok(f),
                None => Err(NlError::NotConnected),
            }
        }
    }

    /// The family number to open the socket with; fails on a closed or already connected
    /// socket.
    pub fn connect(&self, protocol: NetlinkProtocol) -> (r: Result<i32, NlError>)
        ensures
            !self@.closed && self@.fd is None <==> r is Ok,
            r is Ok ==> r->Ok_0 == protocol_number(protocol),
            r is Err ==> r->Err_0 == (if self@.closed {
                NlError::HandleClosed
            } else {
                NlError::AlreadyConnected
            }),
    {
        if self.closed {
            return Err(NlError::HandleClosed);
        }
        if self.fd.is_some() {
            return Err(NlError::AlreadyConnected);
        }
        Ok(protocol.number())
    }

    /// Takes the outcome of opening and binding: the descriptor and the port the kernel
    /// bound, or the operating system's error code. A port chosen beforehand is kept.
    pub fn connect_outcome(&mut self, outcome: Result<(i32, u32), i32>) -> (r: Result<(), NlError>)
        ensures
            outcome is Ok <==> r is Ok,
            outcome is Ok ==> final(self)@ == (SocketView {
                fd: Some(outcome->Ok_0.0),
                local_port: if old(self)@.local_port == 0 {
                    outcome->Ok_0.1
                } else {
                    old(self)@.local_port
                },
                closed: old(self)@.closed,
            }),
            outcome is Err ==> final(self)@ == old(self)@ && r->Err_0 == NlError::ConnectFailed(
                outcome->Err_0,
            ),
    {
        match outcome {
            Ok((fd, port)) => {
                self.fd = Some(fd);
                if self.local_port == 0 {
                    self.local_port = port;
                }
                Ok(())
            },
            Err(code) => Err(NlError::ConnectFailed(code)),
        }
    }

    /// The bytes to transmit for `msg`: its own bytes with the given type and flags, and
    /// this socket's local port as sender; the length and sequence fields stay as they are.
    pub fn send_simple(&self, msg: &Message, msg_type: u16, flags: u16) -> (r: Result<
        Vec<u8>,
        NlError,
    >)
        requires
            msg.wf(),
        ensures
            usable(self@) is Ok <==> r is Ok,
            r is Ok ==> r->Ok_0@ == msg@.subrange(0, 4) + le16(msg_type) + le16(flags) + le32(
                read32(msg@.skip(8)),
            ) + le32(self@.local_port) + msg@.skip(16),
            r is Err ==> usable(self@) == Err::<i32, NlError>(r->Err_0),
    {
        self.check_usable()?;
        let mut framed = match Message::from_bytes(msg.as_bytes()) {
            Ok(m) => m,
            Err(e) => {
                return Err(e);
            },
        };
        let seq = framed.header().seq;
        framed.set_header_fields(msg_type, flags, seq, self.local_port);
        let bytes = framed.as_bytes();
        let mut out: Vec<u8> = Vec::new();
        crate::attr::push_bytes(&mut out, bytes);
        Ok(out)
    }

    /// What the operating system's answer to a send means: the byte count, or a refusal
    /// where it is negative.
    pub fn send_outcome(code: i64) -> (r: Result<u64, NlError>)
        ensures
            code >= 0 <==> r is Ok,
            r is Ok ==> r->Ok_0 == code,
            r is Err ==> r->Err_0 == NlError::SendFailed(
                if code < i32::MIN as i64 { i32::MIN } else { code as i32 },
            ),
    {
        if code < 0 {
            let c: i32 = if code < i32::MIN as i64 {
                i32::MIN
            } else {
                code as i32
            };
            Err(NlError::SendFailed(c))
        } else {
            Ok(code as u64)
        }
    }

    /// Marks the socket closed and hands back the descriptor to release, if one is still
    /// held; a second call hands back nothing.
    pub fn close(&mut self) -> (r: Option<i32>)
        ensures
            r == old(self)@.fd,
            final(self)@ == (SocketView { fd: None, closed: true, ..old(self)@ }),
    {
        let fd = self.fd;
        self.fd = None;
        self.closed = true;
        fd
    }
}

} // verus!
