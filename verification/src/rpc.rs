use vstd::prelude::*;
use crate::config::{CloudflaredTunnelConfig, TunnelConfig};
use crate::error::TunnelError;
use crate::outside::{base64_encode, decode_base64, is_v4_uuid, parse_uuid, parsed_uuid, random_uuid};

verus! {

/// What a connection is registered with at the edge.
#[derive(Debug)]
pub struct RegisterConnectionRequest {
    pub account_tag: String,
    pub tunnel_secret: Vec<u8>,
    pub tunnel_id: Vec<u8>,
    pub conn_index: u8,
    pub client_id: Vec<u8>,
}

/// What the edge answers a successful registration with.
#[derive(Debug)]
pub struct RegisterConnectionResponse {
    pub uuid: Vec<u8>,
    pub location: String,
}

/// The registration that a configuration leads to, whatever the client id:
/// the tunnel id read as a UUID, the secret read as standard base64, the
/// account tag as it stands, on connection zero.
pub open spec fn registers(c_tag: Seq<char>, c_secret: Seq<char>, c_id: Seq<char>, req: RegisterConnectionRequest) -> bool {
    &&& req.account_tag@ == c_tag
    &&& parsed_uuid(c_id) == Some(req.tunnel_id@)
    &&& base64_encode(true, req.tunnel_secret@) == c_secret
    &&& forall|b: Seq<u8>| base64_encode(true, b) == c_secret ==> b == req.tunnel_secret@
    &&& req.conn_index == 0
}

/// Why a configuration cannot register.
pub open spec fn refuses(c_secret: Seq<char>, c_id: Seq<char>, e: TunnelError) -> bool {
    ||| parsed_uuid(c_id) is None && e is Uuid
    ||| parsed_uuid(c_id) is Some && (forall|b: Seq<u8>| base64_encode(true, b) != c_secret)
        && e is DecodeError
}

fn copy_bytes(b: &[u8]) -> (r: Vec<u8>)
    ensures
        r@ == b@,
{
    let mut out: Vec<u8> = Vec::new();
    let mut i: usize = 0;
    while i < b.len()
        invariant
            i <= b@.len(),
            out@ == b@.take(i as int),
        decreases b@.len() - i,
    {
        out.push(b[i]);
        i = i + 1;
        assert(out@ =~= b@.take(i as int));
    }
    assert(b@.take(b@.len() as int) =~= b@);
    out
}

/// The registration of connection zero for a configuration and a client id.
pub fn registration_request<C: TunnelConfig>(config: &C, client_id: &[u8]) -> (r: Result<
    RegisterConnectionRequest,
    TunnelError,
>)
    ensures
        match r {
            Ok(req) => registers(config.account_tag_text(), config.secret_text(), config.id_text(), req)
                && req.client_id@ == client_id@,
            Err(e) => refuses(config.secret_text(), config.id_text(), e),
        },
{
    let id = match parse_uuid(config.id()) {
        Ok(id) => id,
        Err(e) => return Err(TunnelError::Uuid(e)),
    };
    let secret = match decode_base64(config.secret()) {
        Ok(s) => s,
        Err(e) => return Err(TunnelError::DecodeError(e)),
    };
    Ok(
        RegisterConnectionRequest {
            account_tag: config.account_tag().to_owned(),
            tunnel_secret: secret,
            tunnel_id: copy_bytes(&id),
            conn_index: 0,
            client_id: copy_bytes(client_id),
        },
    )
}

/// The registration a tunnel sends when it connects, under a fresh random
/// version-4 UUID as its client id.
pub fn new_registration<C: TunnelConfig>(config: &C) -> (r: Result<RegisterConnectionRequest, TunnelError>)
    ensures
        match r {
            Ok(req) => registers(config.account_tag_text(), config.secret_text(), config.id_text(), req)
                && is_v4_uuid(req.client_id@),
            Err(e) => refuses(config.secret_text(), config.id_text(), e),
        },
{
    let client_id = random_uuid();
    registration_request(config, &client_id)
}

/// How the edge answered a registration.
#[derive(Debug)]
pub enum ConnectionReply {
    /// The connection stands: its id and the edge location that serves it.
    Details { uuid: Vec<u8>, location: String },
    /// The edge refused, for the given cause.
    Failure { cause: String },
}

/// The outcome of a registration, from the edge's answer.
pub fn registration_result(reply: ConnectionReply) -> (r: Result<RegisterConnectionResponse, TunnelError>)
    ensures
        match reply {
            ConnectionReply::Details { uuid, location } => r matches Ok(resp) && resp.uuid@ == uuid@
                && resp.location@ == location@,
            ConnectionReply::Failure { cause } => r matches Err(TunnelError::RpcError(c)) && c@
                == cause@,
        },
{
    match reply {
        ConnectionReply::Details { uuid, location } => Ok(RegisterConnectionResponse { uuid, location }),
        ConnectionReply::Failure { cause } => Err(TunnelError::RpcError(cause)),
    }
}

/// A secret written into a credentials file is read back unchanged: a tunnel
/// whose id is a UUID registers with exactly the bytes that were written.
pub proof fn lemma_written_secret_registers(
    c: CloudflaredTunnelConfig,
    secret: Seq<u8>,
    r: Result<RegisterConnectionRequest, TunnelError>,
)
    requires
        c.tunnel_secret@ == base64_encode(true, secret),
        parsed_uuid(c.tunnel_id@) is Some,
        match r {
            Ok(req) => registers(c.account_tag@, c.tunnel_secret@, c.tunnel_id@, req),
            Err(e) => refuses(c.tunnel_secret@, c.tunnel_id@, e),
        },
    ensures
        r matches Ok(req) && req.tunnel_secret@ == secret && req.account_tag@ == c.account_tag@,
{
}

} // verus!
