//! Commands for sockets.

use vstd::prelude::*;
use vstd::string::StringSliceAdditionalSpecFns;
use crate::argument::{Argument, ArgumentModel};
use crate::codec::{Command, CommandModel};
use crate::command::device::{bare, decimal};
use crate::command::wlan::token_text;
use crate::number::Radix;
use crate::text::Text;

verus! {

/// The address family of a socket.
#[derive(Debug, Clone, Copy, PartialEq, Eq, Structural)]
pub enum SocketFamily {
    Inet,
    Inet6,
}

impl SocketFamily {
    /// The token that stands for the family on the wire.
    pub open spec fn token(self) -> &'static str {
        match self {
            SocketFamily::Inet => "INET",
            SocketFamily::Inet6 => "INET6",
        }
    }

    /// The family as the text of its token.
    pub fn into(self) -> (out: Text<5>)
        ensures
            out@ == self.token().spec_bytes(),
    {
        broadcast use vstd::string::is_ascii_spec_bytes;

        proof {
            reveal_strlit("INET");
            reveal_strlit("INET6");
            assert(vstd::string::is_ascii(self.token()));
        }
        token_text(
            match self {
                SocketFamily::Inet => "INET",
                SocketFamily::Inet6 => "INET6",
            },
        )
    }
}

/// The type of a socket.
#[derive(Debug, Clone, Copy, PartialEq, Eq, Structural)]
pub enum SocketType {
    Stream,
    Dgram,
}

impl SocketType {
    /// The token that stands for the type on the wire.
    pub open spec fn token(self) -> &'static str {
        match self {
            SocketType::Stream => "STREAM",
            SocketType::Dgram => "DGRAM",
        }
    }

    /// The type as the text of its token.
    pub fn into(self) -> (out: Text<6>)
        ensures
            out@ == self.token().spec_bytes(),
    {
        broadcast use vstd::string::is_ascii_spec_bytes;

        proof {
            reveal_strlit("STREAM");
            reveal_strlit("DGRAM");
            assert(vstd::string::is_ascii(self.token()));
        }
        token_text(
            match self {
                SocketType::Stream => "STREAM",
                SocketType::Dgram => "DGRAM",
            },
        )
    }
}

/// The protocol of a socket.
#[derive(Debug, Clone, Copy, PartialEq, Eq, Structural)]
pub enum SocketProtocol {
    Tcp,
    Udp,
    Sec,
}

impl SocketProtocol {
    /// The token that stands for the protocol on the wire.
    pub open spec fn token(self) -> &'static str {
        match self {
            SocketProtocol::Tcp => "TCP",
            SocketProtocol::Udp => "UDP",
            SocketProtocol::Sec => "SEC",
        }
    }

    /// The protocol as the text of its token.
    pub fn into(self) -> (out: Text<3>)
        ensures
            out@ == self.token().spec_bytes(),
    {
        broadcast use vstd::string::is_ascii_spec_bytes;

        proof {
            reveal_strlit("TCP");
            reveal_strlit("UDP");
            reveal_strlit("SEC");
            assert(vstd::string::is_ascii(self.token()));
        }
        token_text(
            match self {
                SocketProtocol::Tcp => "TCP",
                SocketProtocol::Udp => "UDP",
                SocketProtocol::Sec => "SEC",
            },
        )
    }
}

/// Create a socket
#[derive(Debug)]
pub struct Socket {
    pub family: Text<5>,
    pub type_: Text<6>,
    pub protocol: Text<3>,
}

impl Socket {
    /// The command as plain values.
    pub open spec fn request(self) -> CommandModel {
        CommandModel {
            arguments: seq![
                ArgumentModel::Text(self.family@),
                ArgumentModel::Text(self.type_@),
                ArgumentModel::Text(self.protocol@),
            ],
            quoting: false,
            ..bare("+socket", 100)
        }
    }

    /// The command, ready to be sent.
    pub fn command(&self) -> (out: Command)
        ensures
            out@ == self.request(),
    {
        let out = Command::new("+socket").timeout_ms(100).quoting(false).argument(
            self.family.to_argument(),
        ).argument(self.type_.to_argument()).argument(self.protocol.to_argument());
        assert(out@.arguments =~= self.request().arguments);
        out
    }
}

/// Close a socket
#[derive(Debug, Clone, Copy, PartialEq, Eq, Structural)]
pub struct Close {
    pub socket_id: u8,
}

impl Close {
    /// The command as plain values.
    pub open spec fn request(self) -> CommandModel {
        CommandModel { arguments: seq![decimal(self.socket_id as u32)], ..bare("+close", 100) }
    }

    /// The command, ready to be sent.
    pub fn command(&self) -> (out: Command)
        ensures
            out@ == self.request(),
    {
        let out = Command::new("+close").timeout_ms(100).argument(
            Argument::Integer { value: self.socket_id as u32, radix: Radix::Decimal },
        );
        assert(out@.arguments =~= self.request().arguments);
        out
    }
}

/// Bind a socket
#[derive(Debug)]
pub struct Bind {
    pub socket_id: u8,
    pub family: Text<5>,
    pub local_port: u16,
    pub local_address: Text<15>,
}

impl Bind {
    /// The command as plain values.
    pub open spec fn request(self) -> CommandModel {
        CommandModel {
            arguments: seq![
                decimal(self.socket_id as u32),
                ArgumentModel::Text(self.family@),
                decimal(self.local_port as u32),
                ArgumentModel::Text(self.local_address@),
            ],
            ..bare("+bind", 100)
        }
    }

    /// The command, ready to be sent.
    pub fn command(&self) -> (out: Command)
        ensures
            out@ == self.request(),
    {
        let out = Command::new("+bind").timeout_ms(100).argument(
            Argument::Integer { value: self.socket_id as u32, radix: Radix::Decimal },
        ).argument(self.family.to_argument()).argument(
            Argument::Integer { value: self.local_port as u32, radix: Radix::Decimal },
        ).argument(self.local_address.to_argument());
        assert(out@.arguments =~= self.request().arguments);
        out
    }
}

} // verus!
