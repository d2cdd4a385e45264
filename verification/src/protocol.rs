use vstd::prelude::*;
use crate::error::TunnelError;
use crate::outside::invalid_protocol_error;
use crate::text::str_eq;

verus! {

/// The transport that carries a tunnel's connection to the edge.
#[derive(Debug, Clone, Copy, PartialEq, Eq, Structural)]
pub enum Protocol {
    Quic,
    Http2,
}

/// The name by which a protocol is chosen on the command line.
pub open spec fn protocol_name(p: Protocol) -> Seq<char> {
    match p {
        Protocol::Quic => seq!['q', 'u', 'i', 'c'],
        Protocol::Http2 => seq!['h', 't', 't', 'p', '2'],
    }
}

/// The protocol a name selects, if any.
pub open spec fn protocol_named(s: Seq<char>) -> Option<Protocol> {
    if s == protocol_name(Protocol::Quic) {
        Some(Protocol::Quic)
    } else if s == protocol_name(Protocol::Http2) {
        Some(Protocol::Http2)
    } else {
        None
    }
}

impl Protocol {
    /// Reads a protocol from its name: `quic` or `http2`, nothing else.
    pub fn parse(s: &str) -> (r: Result<Protocol, TunnelError>)
        ensures
            match r {
                Ok(p) => protocol_named(s@) == Some(p),
                Err(e) => protocol_named(s@) is None && e is InvalidProtocol,
            },
    {
        let quic = "quic";
        let http2 = "http2";
        proof {
            reveal_strlit("quic");
            reveal_strlit("http2");
            assert(quic@ =~= protocol_name(Protocol::Quic));
            assert(http2@ =~= protocol_name(Protocol::Http2));
        }
        if str_eq(s, quic) {
            Ok(Protocol::Quic)
        } else if str_eq(s, http2) {
            Ok(Protocol::Http2)
        } else {
            Err(TunnelError::InvalidProtocol)
        }
    }

    /// The protocol a tunnel uses: the one asked for, QUIC when none is.
    pub fn or_default(requested: Option<Protocol>) -> (p: Protocol)
        ensures
            p == match requested {
                Some(q) => q,
                None => Protocol::Quic,
            },
    {
        match requested {
            Some(q) => q,
            None => Protocol::Quic,
        }
    }
}

/// Every protocol is read back from its own name, and no other name selects it.
pub proof fn lemma_protocol_name_roundtrip(p: Protocol, s: Seq<char>)
    ensures
        protocol_named(protocol_name(p)) == Some(p),
        protocol_named(s) == Some(p) ==> s == protocol_name(p),
{
    assert(protocol_name(Protocol::Quic) != protocol_name(Protocol::Http2)) by {
        assert(protocol_name(Protocol::Quic).len() != protocol_name(Protocol::Http2).len());
    }
}

impl core::str::FromStr for Protocol {
    type Err = std::io::Error;

    /// Reads a protocol from its name; any other name is an I/O error of kind
    /// `Other` that carries the refusal's message.
    fn from_str(s: &str) -> (r: Result<Protocol, std::io::Error>)
        ensures
            match r {
                Ok(p) => protocol_named(s@) == Some(p),
                Err(_) => protocol_named(s@) is None,
            },
    {
        match Protocol::parse(s) {
            Ok(p) => Ok(p),
            Err(_) => Err(invalid_protocol_error()),
        }
    }
}

} // verus!
