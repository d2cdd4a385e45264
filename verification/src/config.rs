use vstd::prelude::*;
use crate::error::TunnelError;
use crate::outside::{base64_encode, decode_base64, encode_base64, parse_uuid, parsed_uuid, random_secret};
use crate::text::concat;

verus! {

/// The credentials a tunnel registers with.
pub trait TunnelConfig {
    /// The account the tunnel belongs to.
    spec fn account_tag_text(&self) -> Seq<char>;

    /// The tunnel's secret, in standard base64.
    spec fn secret_text(&self) -> Seq<char>;

    /// The tunnel's id, a UUID.
    spec fn id_text(&self) -> Seq<char>;

    fn account_tag(&self) -> (r: &str)
        ensures
            r@ == self.account_tag_text(),
    ;

    fn secret(&self) -> (r: &str)
        ensures
            r@ == self.secret_text(),
    ;

    fn id(&self) -> (r: &str)
        ensures
            r@ == self.id_text(),
    ;
}

/// What the quick-tunnel service answers with.
#[derive(Debug)]
pub struct QuickTunnelTunnel {
    pub kind: String,
    pub id: String,
    pub name: String,
    pub hostname: String,
    pub account_tag: String,
    pub secret: String,
}

/// A tunnel handed out by the quick-tunnel service, reachable at `hostname`.
#[derive(Debug)]
pub struct QuickTunnel {
    pub hostname: String,
    pub account_tag: String,
    pub id: String,
    pub secret: String,
}

impl QuickTunnel {
    /// Keeps what a tunnel needs from the service's answer.
    pub fn from_tunnel(t: QuickTunnelTunnel) -> (q: QuickTunnel)
        ensures
            q.hostname@ == t.hostname@,
            q.account_tag@ == t.account_tag@,
            q.id@ == t.id@,
            q.secret@ == t.secret@,
    {
        QuickTunnel { hostname: t.hostname, account_tag: t.account_tag, id: t.id, secret: t.secret }
    }

    /// The public address at which the tunnel serves: `https://` and its hostname.
    pub fn url(&self) -> (r: String)
        ensures
            r@ == seq!['h', 't', 't', 'p', 's', ':', '/', '/'] + self.hostname@,
    {
        let scheme = "https://";
        proof {
            reveal_strlit("https://");
            assert(scheme@ =~= seq!['h', 't', 't', 'p', 's', ':', '/', '/']);
        }
        concat(scheme, self.hostname.as_str())
    }
}

impl TunnelConfig for QuickTunnel {
    open spec fn account_tag_text(&self) -> Seq<char> {
        self.account_tag@
    }

    open spec fn secret_text(&self) -> Seq<char> {
        self.secret@
    }

    open spec fn id_text(&self) -> Seq<char> {
        self.id@
    }

    fn account_tag(&self) -> (r: &str) {
        self.account_tag.as_str()
    }

    fn secret(&self) -> (r: &str) {
        self.secret.as_str()
    }

    fn id(&self) -> (r: &str) {
        self.id.as_str()
    }
}

/// A tunnel handed out by the quick-tunnel service, with its id and secret read.
#[derive(Debug)]
pub struct TryTunnel {
    pub hostname: String,
    pub account_tag: String,
    pub id: [u8; 16],
    pub secret: Vec<u8>,
}

impl TryTunnel {
    /// Reads the id and the secret of the service's answer: the id as a UUID,
    /// the secret as standard base64.
    pub fn from_tunnel(t: QuickTunnelTunnel) -> (r: Result<TryTunnel, TunnelError>)
        ensures
            match r {
                Ok(tt) => {
                    &&& parsed_uuid(t.id@) == Some(tt.id@)
                    &&& base64_encode(true, tt.secret@) == t.secret@
                    &&& forall|b: Seq<u8>| base64_encode(true, b) == t.secret@ ==> b == tt.secret@
                    &&& tt.hostname@ == t.hostname@
                    &&& tt.account_tag@ == t.account_tag@
                },
                Err(e) => {
                    ||| parsed_uuid(t.id@) is None && e is Uuid
                    ||| parsed_uuid(t.id@) is Some && (forall|b: Seq<u8>|
                        base64_encode(true, b) != t.secret@) && e is DecodeError
                },
            },
    {
        let id = match parse_uuid(t.id.as_str()) {
            Ok(id) => id,
            Err(e) => return Err(TunnelError::Uuid(e)),
        };
        let secret = match decode_base64(t.secret.as_str()) {
            Ok(s) => s,
            Err(e) => return Err(TunnelError::DecodeError(e)),
        };
        Ok(TryTunnel { hostname: t.hostname, account_tag: t.account_tag, id, secret })
    }
}

/// The credentials file of a named tunnel, as `cloudflared` keeps it.
#[derive(Debug)]
pub struct CloudflaredTunnelConfig {
    pub account_tag: String,
    pub tunnel_secret: String,
    pub tunnel_id: String,
}

impl CloudflaredTunnelConfig {
    /// The credentials of a newly created tunnel: the secret is written in
    /// padded standard base64.
    pub fn new(account_tag: String, secret: &[u8], tunnel_id: String) -> (c: CloudflaredTunnelConfig)
        requires
            secret@.len() <= isize::MAX,
        ensures
            c.account_tag@ == account_tag@,
            c.tunnel_secret@ == base64_encode(true, secret@),
            c.tunnel_id@ == tunnel_id@,
    {
        CloudflaredTunnelConfig { account_tag, tunnel_secret: encode_base64(secret), tunnel_id }
    }
}

impl TunnelConfig for CloudflaredTunnelConfig {
    open spec fn account_tag_text(&self) -> Seq<char> {
        self.account_tag@
    }

    open spec fn secret_text(&self) -> Seq<char> {
        self.tunnel_secret@
    }

    open spec fn id_text(&self) -> Seq<char> {
        self.tunnel_id@
    }

    fn account_tag(&self) -> (r: &str) {
        self.account_tag.as_str()
    }

    fn secret(&self) -> (r: &str) {
        self.tunnel_secret.as_str()
    }

    fn id(&self) -> (r: &str) {
        self.tunnel_id.as_str()
    }
}

/// The directory under the home directory that holds credentials files.
pub open spec fn config_dir_name() -> Seq<char> {
    seq!['.', 'c', 'l', 'o', 'u', 'd', 'f', 'l', 'a', 'r', 'e', 'd']
}

/// The directory under the home directory that holds credentials files.
pub fn config_dir() -> (r: String)
    ensures
        r@ == config_dir_name(),
{
    let d = ".cloudflared";
    proof {
        reveal_strlit(".cloudflared");
        assert(d@ =~= config_dir_name());
    }
    d.to_owned()
}

/// The name of a tunnel's credentials file: its id, then `.json`.
pub fn config_file_name(tunnel_id: &str) -> (r: String)
    ensures
        r@ == tunnel_id@ + seq!['.', 'j', 's', 'o', 'n'],
{
    let ext = ".json";
    proof {
        reveal_strlit(".json");
        assert(ext@ =~= seq!['.', 'j', 's', 'o', 'n']);
    }
    concat(tunnel_id, ext)
}

/// The bytes of a drawn secret, in order.
pub fn secret_bytes(s: &[u8; 32]) -> (r: Vec<u8>)
    ensures
        r@ == s@,
{
    let mut out: Vec<u8> = Vec::new();
    let mut i: usize = 0;
    while i < 32
        invariant
            i <= 32,
            s@.len() == 32,
            out@ == s@.take(i as int),
        decreases 32 - i,
    {
        out.push(s[i]);
        i = i + 1;
        assert(out@ =~= s@.take(i as int));
    }
    assert(s@.take(32) =~= s@);
    out
}

/// A fresh secret for a tunnel that is about to be created: thirty-two bytes
/// drawn from the random source, kept as they were drawn.
pub fn new_tunnel_secret() -> (r: Vec<u8>)
    ensures
        r@.len() == 32,
{
    let s = random_secret();
    secret_bytes(&s)
}

} // verus!
