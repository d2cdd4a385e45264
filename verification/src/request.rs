use vstd::prelude::*;
use crate::decimal::{parse_usize, parsed_usize};
use crate::error::TunnelError;
use crate::metadata::{
    distinct_keys, insert_pair, lemma_map_of_distinct, map_of, pairs_of, pairs_view, Metadata, MetadataMap,
};
use crate::outside::{check_method, parse_uri, parsed_uri};
use crate::text::{chars_of, starts_with, string_of};

verus! {

/// The metadata key that names the request's method.
pub open spec fn method_key() -> Seq<char> {
    seq!['H', 't', 't', 'p', 'M', 'e', 't', 'h', 'o', 'd']
}

/// The prefix of the metadata keys that carry request headers.
pub open spec fn header_key_prefix() -> Seq<char> {
    seq!['H', 't', 't', 'p', 'H', 'e', 'a', 'd', 'e', 'r']
}

/// The metadata key that carries the request body's length.
pub open spec fn content_length_key() -> Seq<char> {
    header_key_prefix() + seq![':'] + seq![
        'C', 'o', 'n', 't', 'e', 'n', 't', '-', 'L', 'e', 'n', 'g', 't', 'h'
    ]
}

/// The name of the header that carries the destination's host.
pub open spec fn host_header() -> Seq<char> {
    seq!['h', 'o', 's', 't']
}

/// The path a request goes to when its destination names none.
pub open spec fn root_path() -> Seq<char> {
    seq!['/']
}

/// A character of an HTTP token (RFC 9110, `tchar`).
pub open spec fn is_tchar(c: char) -> bool {
    ||| ('0' <= c && c <= '9')
    ||| ('a' <= c && c <= 'z')
    ||| ('A' <= c && c <= 'Z')
    ||| c == '!' || c == '#' || c == '$' || c == '%' || c == '&' || c == '\''
    ||| c == '*' || c == '+' || c == '-' || c == '.' || c == '^' || c == '_'
    ||| c == '`' || c == '|' || c == '~'
}

/// A non-empty HTTP token: the texts that HTTP takes as a method.
pub open spec fn is_http_token(s: Seq<char>) -> bool {
    s.len() > 0 && forall|i: int| 0 <= i < s.len() ==> is_tchar(#[trigger] s[i])
}

/// `end` is where the first `:` at or after `from` stands, or the length when
/// there is none.
pub open spec fn is_field_end(s: Seq<char>, from: int, end: int) -> bool {
    &&& from <= end <= s.len()
    &&& end < s.len() ==> s[end] == ':'
    &&& forall|j: int| from <= j < end ==> s[j] != ':'
}

/// Where the `:`-separated field that starts at `from` ends.
pub open spec fn field_end(s: Seq<char>, from: int) -> int {
    choose|e: int| is_field_end(s, from, e)
}

/// The header a metadata key names: for a key that starts with `HttpHeader`,
/// its second `:`-separated field (what `key.split(':').nth(1)` gives).
pub open spec fn header_name_of(k: Seq<char>) -> Option<Seq<char>> {
    if header_key_prefix().len() <= k.len() && k.subrange(0, header_key_prefix().len() as int)
        == header_key_prefix() {
        let a = field_end(k, 0);
        if a == k.len() {
            None
        } else {
            Some(k.subrange(a + 1, field_end(k, a + 1)))
        }
    } else {
        None
    }
}

/// The headers that metadata pairs carry, in the pairs' order.
pub open spec fn metadata_headers(s: Seq<(Seq<char>, Seq<char>)>) -> Seq<(Seq<char>, Seq<char>)>
    decreases s.len(),
{
    if s.len() == 0 {
        Seq::empty()
    } else {
        let rest = metadata_headers(s.drop_last());
        match header_name_of(s.last().0) {
            Some(n) => rest.push((n, s.last().1)),
            None => rest,
        }
    }
}

proof fn lemma_field_end_unique(s: Seq<char>, from: int, e: int)
    requires
        is_field_end(s, from, e),
    ensures
        field_end(s, from) == e,
{
    let f = field_end(s, from);
    assert(is_field_end(s, from, f));
    if f < e {
        assert(s[f] == ':');
    } else if e < f {
        assert(s[e] == ':');
    }
}

/// Where the field that starts at `from` ends.
fn find_field_end(cs: &Vec<char>, from: usize) -> (e: usize)
    requires
        from <= cs@.len(),
    ensures
        is_field_end(cs@, from as int, e as int),
        field_end(cs@, from as int) == e,
{
    let mut i = from;
    while i < cs.len()
        invariant
            from <= i <= cs@.len(),
            forall|j: int| from <= j < i ==> cs@[j] != ':',
        decreases cs@.len() - i,
    {
        if cs[i] == ':' {
            proof {
                lemma_field_end_unique(cs@, from as int, i as int);
            }
            return i;
        }
        i = i + 1;
    }
    proof {
        lemma_field_end_unique(cs@, from as int, i as int);
    }
    i
}

/// The header a metadata key names, if it names one.
pub fn header_name(key: &str) -> (r: Option<String>)
    ensures
        match r {
            Some(n) => header_name_of(key@) == Some(n@),
            None => header_name_of(key@) is None,
        },
{
    let cs = chars_of(key);
    let prefix_text = "HttpHeader";
    proof {
        reveal_strlit("HttpHeader");
    }
    let prefix = chars_of(prefix_text);
    assert(prefix@ =~= header_key_prefix());
    if !starts_with(&cs, &prefix) {
        return None;
    }
    let a = find_field_end(&cs, 0);
    if a == cs.len() {
        return None;
    }
    let b = find_field_end(&cs, a + 1);
    Some(string_of(&cs, a + 1, b))
}

/// Where a data stream's destination sends the request: its path and query,
/// when it has them, and its host, when it names one. `None` when the
/// destination is not a URI.
pub fn destination(dest: &str) -> (r: Option<(Option<String>, Option<String>)>)
    ensures
        match r {
            Some((pq, host)) => parsed_uri(dest@) == Some(
                (
                    match pq {
                        Some(q) => Some(q@),
                        None => None,
                    },
                    match host {
                        Some(h) => Some(h@),
                        None => None,
                    },
                ),
            ),
            None => parsed_uri(dest@) is None,
        },
{
    match parse_uri(dest) {
        Ok(parts) => Some(parts),
        Err(_) => None,
    }
}

/// The path a request for the origin goes to: the destination's path and
/// query, or `/` when it has none.
pub fn origin_path(path_and_query: Option<String>) -> (r: String)
    ensures
        r@ == match path_and_query {
            Some(q) => q@,
            None => root_path(),
        },
{
    let root_text = "/";
    proof {
        reveal_strlit("/");
        assert(root_text@ =~= root_path());
    }
    match path_and_query {
        Some(q) => q,
        None => root_text.to_owned(),
    }
}

/// The request's method: the `HttpMethod` entry of the metadata, which must
/// be an HTTP token.
pub fn request_method(metadata: &MetadataMap) -> (r: Result<String, TunnelError>)
    ensures
        match r {
            Ok(m) => metadata@.contains_key(method_key()) && is_http_token(metadata@[method_key()])
                && m@ == metadata@[method_key()],
            Err(e) => {
                ||| !metadata@.contains_key(method_key()) && e is NoMethod
                ||| metadata@.contains_key(method_key()) && !is_http_token(
                    metadata@[method_key()],
                ) && e is InvalidMethod
            },
        },
{
    let method_text = "HttpMethod";
    proof {
        reveal_strlit("HttpMethod");
        assert(method_text@ =~= method_key());
    }
    let method = match metadata.get(method_text) {
        Some(m) => m,
        None => return Err(TunnelError::NoMethod),
    };
    match check_method(method.as_str()) {
        Ok(()) => Ok(method.clone()),
        Err(e) => Err(TunnelError::InvalidMethod(e)),
    }
}

/// One request header.
#[derive(Debug)]
pub struct Header {
    pub name: String,
    pub value: String,
}

impl View for Header {
    type V = (Seq<char>, Seq<char>);

    open spec fn view(&self) -> (Seq<char>, Seq<char>) {
        (self.name@, self.value@)
    }
}

/// The pairs of a list of headers.
pub open spec fn headers_view(s: Seq<Header>) -> Seq<(Seq<char>, Seq<char>)> {
    s.map_values(|h: Header| h@)
}

/// The headers that a map's entries carry, in the map's order.
pub fn metadata_request_headers(metadata: &MetadataMap) -> (r: Vec<Header>)
    ensures
        headers_view(r@) == metadata_headers(metadata.pairs()),
{
    let entries = metadata.entries();
    let ghost all = pairs_view(entries@);
    let mut out: Vec<Header> = Vec::new();
    let mut i: usize = 0;
    while i < entries.len()
        invariant
            i <= entries@.len(),
            all == pairs_view(entries@),
            all == metadata.pairs(),
            headers_view(out@) == metadata_headers(all.take(i as int)),
        decreases entries@.len() - i,
    {
        let e = &entries[i];
        proof {
            assert(all.take(i + 1).drop_last() =~= all.take(i as int));
            assert(all.take(i + 1).last() == e@);
        }
        match header_name(e.key.as_str()) {
            Some(n) => {
                out.push(Header { name: n, value: e.val.clone() });
                assert(headers_view(out@) =~= metadata_headers(all.take(i + 1)));
            },
            None => {},
        }
        i = i + 1;
    }
    assert(all.take(entries@.len() as int) =~= all);
    out
}

/// What the origin is asked: the method, the path, the headers in order, and
/// how many body bytes follow on the stream when the metadata gives a length.
#[derive(Debug)]
pub struct RequestPlan {
    pub method: String,
    pub path: String,
    pub headers: Vec<Header>,
    pub body_len: Option<usize>,
}

/// Turns a stream's destination and metadata into the request for the origin.
///
/// The method is the `HttpMethod` entry; every entry whose key starts with
/// `HttpHeader` and has a second `:` field becomes a header after `host`; the
/// `HttpHeader:Content-Length` entry, when present, gives the body's length.
pub fn build_http_request(path_and_query: Option<String>, host: String, metadata: &MetadataMap) -> (r:
    Result<RequestPlan, TunnelError>)
    ensures
        match r {
            Ok(p) => {
                &&& metadata@.contains_key(method_key())
                &&& is_http_token(metadata@[method_key()])
                &&& p.method@ == metadata@[method_key()]
                &&& p.path@ == match path_and_query {
                    Some(q) => q@,
                    None => root_path(),
                }
                &&& headers_view(p.headers@) == seq![(host_header(), host@)] + metadata_headers(
                    metadata.pairs(),
                )
                &&& p.body_len == if metadata@.contains_key(content_length_key()) {
                    parsed_usize(metadata@[content_length_key()])
                } else {
                    None
                }
                &&& metadata@.contains_key(content_length_key()) ==> parsed_usize(
                    metadata@[content_length_key()],
                ) is Some
            },
            Err(e) => {
                ||| !metadata@.contains_key(method_key()) && e is NoMethod
                ||| metadata@.contains_key(method_key()) && !is_http_token(
                    metadata@[method_key()],
                ) && e is InvalidMethod
                ||| metadata@.contains_key(method_key()) && is_http_token(metadata@[method_key()])
                    && metadata@.contains_key(content_length_key()) && parsed_usize(
                    metadata@[content_length_key()],
                ) is None && e is ParseIntError
            },
        },
{
    let length_text = "HttpHeader:Content-Length";
    let host_text = "host";
    proof {
        reveal_strlit("HttpHeader:Content-Length");
        reveal_strlit("host");
        assert(length_text@ =~= content_length_key());
        assert(host_text@ =~= host_header());
    }
    let method = request_method(metadata)?;
    let path = origin_path(path_and_query);
    let mut headers: Vec<Header> = Vec::new();
    headers.push(Header { name: host_text.to_owned(), value: host });
    let mut rest = metadata_request_headers(metadata);
    let ghost first = headers@;
    let ghost tail = rest@;
    headers.append(&mut rest);
    assert(headers_view(headers@) =~= seq![(host_header(), host@)] + metadata_headers(
        metadata.pairs(),
    )) by {
        assert(headers@ =~= first + tail);
    }
    let body_len = match metadata.get(length_text) {
        Some(len) => match parse_usize(len.as_str()) {
            Some(n) => Some(n),
            None => return Err(TunnelError::ParseIntError),
        },
        None => None,
    };
    Ok(RequestPlan { method, path, headers, body_len })
}

/// The metadata key of the `Connection` header.
pub open spec fn connection_key() -> Seq<char> {
    header_key_prefix() + seq![':'] + seq!['C', 'o', 'n', 'n', 'e', 'c', 't', 'i', 'o', 'n']
}

/// The metadata key of the `Upgrade` header.
pub open spec fn upgrade_key() -> Seq<char> {
    header_key_prefix() + seq![':'] + seq!['U', 'p', 'g', 'r', 'a', 'd', 'e']
}

/// The metadata of a stream, with the two upgrade headers that a WebSocket
/// stream adds on top of what the edge sent.
pub fn stream_metadata(entries: Vec<Metadata>, websocket: bool) -> (m: MetadataMap)
    ensures
        m@ == if websocket {
            map_of(pairs_view(entries@)).insert(
                connection_key(),
                seq!['u', 'p', 'g', 'r', 'a', 'd', 'e'],
            ).insert(upgrade_key(), seq!['w', 'e', 'b', 's', 'o', 'c', 'k', 'e', 't'])
        } else {
            map_of(pairs_view(entries@))
        },
        m.pairs() == if websocket {
            insert_pair(
                insert_pair(
                    pairs_of(pairs_view(entries@)),
                    connection_key(),
                    seq!['u', 'p', 'g', 'r', 'a', 'd', 'e'],
                ),
                upgrade_key(),
                seq!['w', 'e', 'b', 's', 'o', 'c', 'k', 'e', 't'],
            )
        } else {
            pairs_of(pairs_view(entries@))
        },
{
    let mut m = MetadataMap::from_entries(entries);
    if websocket {
        let connection = "HttpHeader:Connection";
        let upgrade_value = "upgrade";
        let upgrade = "HttpHeader:Upgrade";
        let websocket_value = "websocket";
        proof {
            reveal_strlit("HttpHeader:Connection");
            reveal_strlit("upgrade");
            reveal_strlit("HttpHeader:Upgrade");
            reveal_strlit("websocket");
            assert(connection@ =~= header_key_prefix() + seq![':'] + seq![
                'C', 'o', 'n', 'n', 'e', 'c', 't', 'i', 'o', 'n'
            ]);
            assert(upgrade_value@ =~= seq!['u', 'p', 'g', 'r', 'a', 'd', 'e']);
            assert(upgrade@ =~= header_key_prefix() + seq![':'] + seq!['U', 'p', 'g', 'r', 'a', 'd', 'e']);
            assert(websocket_value@ =~= seq!['w', 'e', 'b', 's', 'o', 'c', 'k', 'e', 't']);
        }
        m.insert(connection.to_owned(), upgrade_value.to_owned());
        m.insert(upgrade.to_owned(), websocket_value.to_owned());
    }
    m
}

/// The name of the header that announces the request body's length.
pub open spec fn content_length_header() -> Seq<char> {
    seq!['C', 'o', 'n', 't', 'e', 'n', 't', '-', 'L', 'e', 'n', 'g', 't', 'h']
}

/// Each pair whose key names a header shows up among the headers.
proof fn lemma_metadata_headers_contain(s: Seq<(Seq<char>, Seq<char>)>, i: int)
    requires
        0 <= i < s.len(),
        header_name_of(s[i].0) is Some,
    ensures
        metadata_headers(s).contains((header_name_of(s[i].0)->0, s[i].1)),
    decreases s.len(),
{
    let t = s.drop_last();
    if i < s.len() - 1 {
        assert(t[i] == s[i]);
        lemma_metadata_headers_contain(t, i);
        let rest = metadata_headers(t);
        let h = (header_name_of(s[i].0)->0, s[i].1);
        let j = choose|j: int| 0 <= j < rest.len() && rest[j] == h;
        match header_name_of(s.last().0) {
            Some(n) => {
                assert(metadata_headers(s)[j] == h);
            },
            None => {
                assert(metadata_headers(s)[j] == h);
            },
        }
    } else {
        let h = (header_name_of(s[i].0)->0, s[i].1);
        assert(metadata_headers(s).last() == h);
    }
}

/// When the metadata announces a body length, the request for the origin
/// carries that same text as its `Content-Length` header: the body that is
/// read and the length that is announced agree.
pub proof fn lemma_content_length_forwarded(s: Seq<(Seq<char>, Seq<char>)>)
    requires
        distinct_keys(s),
        map_of(s).contains_key(content_length_key()),
    ensures
        metadata_headers(s).contains((content_length_header(), map_of(s)[content_length_key()])),
{
    lemma_map_of_distinct(s);
    let k = content_length_key();
    let i = choose|i: int| 0 <= i < s.len() && s[i].0 == k;
    assert(k.subrange(0, 10) =~= header_key_prefix());
    assert(is_field_end(k, 0, 10));
    lemma_field_end_unique(k, 0, 10);
    assert(is_field_end(k, 11, k.len() as int));
    lemma_field_end_unique(k, 11, k.len() as int);
    assert(k.subrange(11, k.len() as int) =~= content_length_header());
    assert(header_name_of(k) == Some(content_length_header()));
    lemma_metadata_headers_contain(s, i);
}

} // verus!
