use vstd::prelude::*;
use crate::error::TunnelError;

verus! {

/// The six bytes that open a data stream.
pub const DATA_SIG: [u8; 6] = [0x0A, 0x36, 0xCD, 0x12, 0xA1, 0x3E];

/// The six bytes that open an RPC stream.
pub const RPC_SIG: [u8; 6] = [0x52, 0xBB, 0x82, 0x5C, 0xDB, 0x65];

/// The version of the data stream protocol: `01` in ASCII.
pub const VERSION: [u8; 2] = [0x30, 0x31];

/// The data stream signature.
pub open spec fn data_sig() -> Seq<u8> {
    seq![0x0Au8, 0x36u8, 0xCDu8, 0x12u8, 0xA1u8, 0x3Eu8]
}

/// The RPC stream signature.
pub open spec fn rpc_sig() -> Seq<u8> {
    seq![0x52u8, 0xBBu8, 0x82u8, 0x5Cu8, 0xDBu8, 0x65u8]
}

/// The protocol version.
pub open spec fn version() -> Seq<u8> {
    seq![0x30u8, 0x31u8]
}

/// What a stream that the edge opens carries, by its first six bytes.
#[derive(Debug, Clone, Copy, PartialEq, Eq, Structural)]
pub enum StreamKind {
    /// Traffic for the origin.
    Data,
    /// An RPC session.
    Rpc,
    /// Anything else; the stream is passed over.
    Unknown,
}

/// The kind that a signature announces.
pub open spec fn stream_kind_of(sig: Seq<u8>) -> StreamKind {
    if sig == data_sig() {
        StreamKind::Data
    } else if sig == rpc_sig() {
        StreamKind::Rpc
    } else {
        StreamKind::Unknown
    }
}

fn same_bytes(a: &[u8; 6], b: &[u8; 6]) -> (r: bool)
    ensures
        r == (a@ == b@),
{
    let mut i: usize = 0;
    while i < 6
        invariant
            i <= 6,
            a@.len() == 6,
            b@.len() == 6,
            forall|j: int| 0 <= j < i ==> a@[j] == b@[j],
        decreases 6 - i,
    {
        if a[i] != b[i] {
            return false;
        }
        i = i + 1;
    }
    assert(a@ =~= b@);
    true
}

/// Reads what a stream carries from its signature.
pub fn classify_stream(sig: &[u8; 6]) -> (k: StreamKind)
    ensures
        k == stream_kind_of(sig@),
{
    let data = DATA_SIG;
    let rpc = RPC_SIG;
    assert(data@ =~= data_sig());
    assert(rpc@ =~= rpc_sig());
    if same_bytes(sig, &data) {
        StreamKind::Data
    } else if same_bytes(sig, &rpc) {
        StreamKind::Rpc
    } else {
        StreamKind::Unknown
    }
}

/// Accepts a data stream's version only when it is ours.
pub fn check_version(v: &[u8; 2]) -> (r: Result<(), TunnelError>)
    ensures
        match r {
            Ok(()) => v@ == version(),
            Err(e) => v@ != version() && e is VersionMismatch,
        },
{
    if v[0] == 0x30 && v[1] == 0x31 {
        assert(v@ =~= version());
        Ok(())
    } else {
        assert(v@[0] != version()[0] || v@[1] != version()[1]);
        Err(TunnelError::VersionMismatch)
    }
}

/// What a data stream asks to be connected to.
#[derive(Debug, Clone, Copy, PartialEq, Eq, Structural)]
pub enum ConnectionType {
    Http,
    Websocket,
    Tcp,
}

/// The connection type that a request's code names, as the schema numbers
/// them: `0` HTTP, `1` WebSocket, `2` TCP; no other code names one.
pub fn connection_type_from_code(code: u16) -> (r: Option<ConnectionType>)
    ensures
        r == match code {
            0 => Some(ConnectionType::Http),
            1 => Some(ConnectionType::Websocket),
            2 => Some(ConnectionType::Tcp),
            _ => None::<ConnectionType>,
        },
{
    match code {
        0 => Some(ConnectionType::Http),
        1 => Some(ConnectionType::Websocket),
        2 => Some(ConnectionType::Tcp),
        _ => None,
    }
}

/// The bytes written before the response metadata on a data stream: the data
/// signature and the version when answering HTTP or WebSocket, nothing when
/// answering TCP.
pub open spec fn response_preamble_of(t: ConnectionType) -> Seq<u8> {
    match t {
        ConnectionType::Tcp => Seq::empty(),
        _ => data_sig() + version(),
    }
}

/// The bytes written before the response metadata on a data stream.
pub fn response_preamble(t: ConnectionType) -> (r: Vec<u8>)
    ensures
        r@ == response_preamble_of(t),
{
    let mut out: Vec<u8> = Vec::new();
    match t {
        ConnectionType::Tcp => {},
        _ => {
            let mut i: usize = 0;
            let sig = DATA_SIG;
            while i < 6
                invariant
                    i <= 6,
                    sig@ == data_sig(),
                    out@ == data_sig().take(i as int),
                decreases 6 - i,
            {
                out.push(sig[i]);
                i = i + 1;
                assert(out@ =~= data_sig().take(i as int));
            }
            out.push(0x30);
            out.push(0x31);
            assert(out@ =~= data_sig() + version());
        },
    }
    assert(out@ =~= response_preamble_of(t));
    out
}

/// A preamble that the tunnel writes is read back as a data stream of our
/// version.
pub proof fn lemma_preamble_roundtrip(t: ConnectionType)
    requires
        t != ConnectionType::Tcp,
    ensures
        stream_kind_of(response_preamble_of(t).subrange(0, 6)) == StreamKind::Data,
        response_preamble_of(t).subrange(6, 8) == version(),
{
    assert(response_preamble_of(t).subrange(0, 6) =~= data_sig());
    assert(response_preamble_of(t).subrange(6, 8) =~= version());
}

/// The edge's data and RPC signatures differ, so no stream is both.
pub proof fn lemma_signatures_distinct()
    ensures
        data_sig() != rpc_sig(),
        stream_kind_of(data_sig()) == StreamKind::Data,
        stream_kind_of(rpc_sig()) == StreamKind::Rpc,
{
    assert(data_sig()[0] != rpc_sig()[0]);
}

/// Whether the origin switched protocols, so the stream continues as an
/// upgraded connection rather than as a response body.
pub fn is_switching_protocols(status: u16) -> (r: bool)
    ensures
        r == (status == 101),
{
    status == 101
}

} // verus!
