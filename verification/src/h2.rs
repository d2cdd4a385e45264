use vstd::prelude::*;
use crate::response::{all_visible_ascii, ascii_text, header_value_text, ResponseHeader};
use crate::text::{chars_of, str_eq};

verus! {

/// What an HTTP/2 stream that the edge opens asks for.
#[derive(Debug, Clone, Copy, PartialEq, Eq, Structural)]
pub enum H2Request {
    /// The stream that carries the control channel.
    ControlStream,
    /// A push of new local configuration.
    UpdateConfiguration,
    /// A WebSocket upgrade.
    Websocket,
    /// A raw TCP stream to proxy.
    TcpProxy,
    /// An ordinary HTTP request for the origin.
    Http,
}

/// The upgrade header's value that marks the control stream.
pub open spec fn control_stream_value() -> Seq<char> {
    seq!['c', 'o', 'n', 't', 'r', 'o', 'l', '-', 's', 't', 'r', 'e', 'a', 'm']
}

/// The upgrade header's value that marks a configuration update.
pub open spec fn update_configuration_value() -> Seq<char> {
    seq![
        'u', 'p', 'd', 'a', 't', 'e', '-', 'c', 'o', 'n', 'f', 'i', 'g', 'u', 'r', 'a', 't', 'i',
        'o', 'n'
    ]
}

/// The upgrade header's value that marks a WebSocket.
pub open spec fn websocket_value() -> Seq<char> {
    seq!['w', 'e', 'b', 's', 'o', 'c', 'k', 'e', 't']
}

/// How a stream is handled, from its `cf-cloudflared-proxy-connection-upgrade`
/// header (when present and readable as text) and from whether it carries a
/// `cf-cloudflared-proxy-src` header.
pub open spec fn h2_request_kind(upgrade: Option<Seq<u8>>, has_proxy_src: bool) -> H2Request {
    let text = match upgrade {
        Some(b) => if all_visible_ascii(b) {
            Some(ascii_text(b))
        } else {
            None
        },
        None => None,
    };
    if text == Some(control_stream_value()) {
        H2Request::ControlStream
    } else if text == Some(update_configuration_value()) {
        H2Request::UpdateConfiguration
    } else if text == Some(websocket_value()) {
        H2Request::Websocket
    } else if has_proxy_src {
        H2Request::TcpProxy
    } else {
        H2Request::Http
    }
}

/// Decides how an HTTP/2 stream from the edge is handled.
pub fn classify_h2_request(upgrade: Option<&[u8]>, has_proxy_src: bool) -> (r: H2Request)
    ensures
        r == h2_request_kind(
            match upgrade {
                Some(b) => Some(b@),
                None => None,
            },
            has_proxy_src,
        ),
{
    let control = "control-stream";
    let update = "update-configuration";
    let websocket = "websocket";
    proof {
        reveal_strlit("control-stream");
        reveal_strlit("update-configuration");
        reveal_strlit("websocket");
        assert(control@ =~= control_stream_value());
        assert(update@ =~= update_configuration_value());
        assert(websocket@ =~= websocket_value());
    }
    let text = match upgrade {
        Some(b) => header_value_text(b),
        None => None,
    };
    match text {
        Some(t) => {
            if str_eq(t.as_str(), control) {
                return H2Request::ControlStream;
            } else if str_eq(t.as_str(), update) {
                return H2Request::UpdateConfiguration;
            } else if str_eq(t.as_str(), websocket) {
                return H2Request::Websocket;
            }
        },
        None => {},
    }
    if has_proxy_src {
        H2Request::TcpProxy
    } else {
        H2Request::Http
    }
}

/// The lower-case form of an ASCII letter; other characters stay.
pub open spec fn ascii_lower(c: char) -> char {
    if 'A' <= c && c <= 'Z' {
        (c as int + 32) as char
    } else {
        c
    }
}

/// Two names are equal up to the case of ASCII letters, as header names compare.
pub open spec fn eq_ignore_ascii_case(a: Seq<char>, b: Seq<char>) -> bool {
    a.len() == b.len() && forall|i: int| 0 <= i < a.len() ==> ascii_lower(#[trigger] a[i]) == ascii_lower(b[i])
}

fn lower(c: char) -> (r: char)
    ensures
        r == ascii_lower(c),
{
    if 'A' <= c && c <= 'Z' {
        ((c as u32 + 32) as u8) as char
    } else {
        c
    }
}

/// Whether two names are equal up to the case of ASCII letters.
pub fn names_match(a: &str, b: &str) -> (r: bool)
    ensures
        r == eq_ignore_ascii_case(a@, b@),
{
    let x = chars_of(a);
    let y = chars_of(b);
    if x.len() != y.len() {
        return false;
    }
    let mut i: usize = 0;
    while i < x.len()
        invariant
            i <= x@.len(),
            x@.len() == y@.len(),
            x@ == a@,
            y@ == b@,
            forall|j: int| 0 <= j < i ==> ascii_lower(#[trigger] x@[j]) == ascii_lower(y@[j]),
        decreases x@.len() - i,
    {
        if lower(x[i]) != lower(y[i]) {
            return false;
        }
        i = i + 1;
    }
    true
}

/// The name of the header that gives the body's type.
pub open spec fn content_type_name() -> Seq<char> {
    seq!['c', 'o', 'n', 't', 'e', 'n', 't', '-', 't', 'y', 'p', 'e']
}

/// The name of the header that gives the body's length.
pub open spec fn content_length_name() -> Seq<char> {
    seq!['c', 'o', 'n', 't', 'e', 'n', 't', '-', 'l', 'e', 'n', 'g', 't', 'h']
}

/// A response header that is handed on to the edge as a header of its own.
pub open spec fn is_forwarded(name: Seq<char>) -> bool {
    eq_ignore_ascii_case(name, content_type_name()) || eq_ignore_ascii_case(
        name,
        content_length_name(),
    )
}

/// The headers of a response that are forwarded, in order.
pub open spec fn forwarded_headers(hs: Seq<(Seq<char>, Seq<u8>)>) -> Seq<(Seq<char>, Seq<u8>)> {
    hs.filter(|h: (Seq<char>, Seq<u8>)| is_forwarded(h.0))
}

/// A name that, once its ASCII capitals are lowered, reads `content-type` or
/// `content-length`.
pub open spec fn names_content_header(name: Seq<char>) -> bool {
    let lowered = name.map_values(
        |c: char|
            if 'A' <= c && c <= 'Z' {
                (c as int + 32) as char
            } else {
                c
            },
    );
    lowered == content_type_name() || lowered == content_length_name()
}

/// How many of the headers are named `content-type` or `content-length`, in
/// any case.
pub open spec fn content_header_count(hs: Seq<(Seq<char>, Seq<u8>)>) -> nat
    decreases hs.len(),
{
    if hs.len() == 0 {
        0
    } else {
        content_header_count(hs.drop_last()) + if names_content_header(hs.last().0) {
            1nat
        } else {
            0nat
        }
    }
}

proof fn lemma_lower_case_name(name: Seq<char>, target: Seq<char>)
    requires
        forall|i: int| 0 <= i < target.len() ==> !('A' <= #[trigger] target[i] && target[i] <= 'Z'),
    ensures
        eq_ignore_ascii_case(name, target) <==> name.map_values(
            |c: char|
                if 'A' <= c && c <= 'Z' {
                    (c as int + 32) as char
                } else {
                    c
                },
        ) == target,
{
    let lowered = name.map_values(
        |c: char|
            if 'A' <= c && c <= 'Z' {
                (c as int + 32) as char
            } else {
                c
            },
    );
    if eq_ignore_ascii_case(name, target) {
        assert forall|i: int| 0 <= i < target.len() implies lowered[i] == target[i] by {
            assert(ascii_lower(name[i]) == ascii_lower(target[i]));
        }
        assert(lowered =~= target);
    }
    if lowered == target {
        assert forall|i: int| 0 <= i < name.len() implies ascii_lower(#[trigger] name[i])
            == ascii_lower(target[i]) by {
            assert(lowered[i] == target[i]);
        }
    }
}

/// A header is forwarded exactly when its name, with ASCII capitals lowered,
/// is `content-type` or `content-length`.
pub proof fn lemma_forwarded_names(name: Seq<char>)
    ensures
        is_forwarded(name) <==> names_content_header(name),
{
    let t = content_type_name();
    let l = content_length_name();
    assert forall|i: int| 0 <= i < t.len() implies !('A' <= #[trigger] t[i] && t[i] <= 'Z') by {}
    assert forall|i: int| 0 <= i < l.len() implies !('A' <= #[trigger] l[i] && l[i] <= 'Z') by {}
    lemma_lower_case_name(name, t);
    lemma_lower_case_name(name, l);
}

proof fn lemma_content_header_count_grows(hs: Seq<(Seq<char>, Seq<u8>)>, j: int, k: int)
    requires
        0 <= j < k <= hs.len(),
    ensures
        content_header_count(hs.take(j)) + (if names_content_header(hs[j].0) {
            1int
        } else {
            0int
        }) <= content_header_count(hs.take(k)),
    decreases k,
{
    assert(hs.take(k).drop_last() =~= hs.take(k - 1));
    assert(hs.take(k).last() == hs[k - 1]);
    if j < k - 1 {
        lemma_content_header_count_grows(hs, j, k - 1);
    }
}

/// Exactly the headers named `content-type` or `content-length`, in any case,
/// are forwarded, each once and in order: as many as there are such headers,
/// each at the place given by the number of such headers before it, and no
/// header of another name.
pub proof fn lemma_forwarded_headers_exact(hs: Seq<(Seq<char>, Seq<u8>)>)
    ensures
        forwarded_headers(hs).len() == content_header_count(hs),
        forall|i: int|
            0 <= i < hs.len() && names_content_header((#[trigger] hs[i]).0)
                ==> forwarded_headers(hs)[content_header_count(hs.take(i)) as int] == hs[i],
        forall|j: int|
            0 <= j < forwarded_headers(hs).len() ==> names_content_header(
                (#[trigger] forwarded_headers(hs)[j]).0,
            ) && hs.contains(forwarded_headers(hs)[j]),
    decreases hs.len(),
{
    if hs.len() > 0 {
        let n = hs.len() as int;
        let t = hs.drop_last();
        lemma_forwarded_headers_exact(t);
        lemma_forwarded_names(hs.last().0);
        let ft = forwarded_headers(t);
        let f = forwarded_headers(hs);
        assert(f == if is_forwarded(hs.last().0) {
            ft.push(hs.last())
        } else {
            ft
        }) by {
            reveal_with_fuel(Seq::filter, 1);
        }
        assert forall|i: int|
            0 <= i < hs.len() && names_content_header((#[trigger] hs[i]).0) implies f[content_header_count(
                hs.take(i),
            ) as int] == hs[i] by {
            if i < n - 1 {
                assert(t[i] == hs[i]);
                assert(hs.take(i) =~= t.take(i));
                lemma_content_header_count_grows(t, i, n - 1);
                assert(t.take(n - 1) =~= t);
            } else {
                assert(hs.take(i) =~= t);
            }
        }
        assert forall|j: int| 0 <= j < f.len() implies names_content_header(
            (#[trigger] f[j]).0,
        ) && hs.contains(f[j]) by {
            if j < ft.len() {
                assert(f[j] == ft[j]);
                assert(t.contains(ft[j]));
                let k = choose|k: int| 0 <= k < t.len() && t[k] == ft[j];
                assert(hs[k] == ft[j]);
            } else {
                assert(f[j] == hs[n - 1]);
            }
        }
    }
}

/// The views of a list of response headers.
pub open spec fn response_headers_view(hs: Seq<ResponseHeader>) -> Seq<(Seq<char>, Seq<u8>)> {
    hs.map_values(|h: ResponseHeader| h@)
}

/// The origin's headers that travel to the edge as headers of their own: those
/// named `content-type` or `content-length`, in any case, in order. Each is set
/// on the edge's response in turn, so a later one replaces an earlier one of
/// the same name.
pub fn forwarded_response_headers(headers: &Vec<ResponseHeader>) -> (r: Vec<ResponseHeader>)
    ensures
        response_headers_view(r@) == forwarded_headers(response_headers_view(headers@)),
        r@.len() == content_header_count(response_headers_view(headers@)),
        forall|i: int|
            0 <= i < headers@.len() && names_content_header((#[trigger] headers@[i]).name@)
                ==> r@[content_header_count(response_headers_view(headers@).take(i)) as int]@
                == headers@[i]@,
        forall|j: int| 0 <= j < r@.len() ==> names_content_header((#[trigger] r@[j]).name@),
{
    let content_type = "content-type";
    let content_length = "content-length";
    proof {
        reveal_strlit("content-type");
        reveal_strlit("content-length");
        assert(content_type@ =~= content_type_name());
        assert(content_length@ =~= content_length_name());
    }
    let ghost all = response_headers_view(headers@);
    let mut out: Vec<ResponseHeader> = Vec::new();
    let mut i: usize = 0;
    while i < headers.len()
        invariant
            i <= headers@.len(),
            all == response_headers_view(headers@),
            content_type@ == content_type_name(),
            content_length@ == content_length_name(),
            response_headers_view(out@) == forwarded_headers(all.take(i as int)),
        decreases headers@.len() - i,
    {
        let h = &headers[i];
        proof {
            assert(all.take(i + 1).drop_last() =~= all.take(i as int));
            assert(all.take(i + 1).last() == h@);
            reveal_with_fuel(Seq::filter, 1);
        }
        if names_match(h.name.as_str(), content_type) || names_match(h.name.as_str(), content_length) {
            out.push(ResponseHeader { name: h.name.clone(), value: h.value.clone() });
            assert(response_headers_view(out@) =~= forwarded_headers(all.take(i + 1)));
        } else {
            assert(response_headers_view(out@) =~= forwarded_headers(all.take(i + 1)));
        }
        i = i + 1;
    }
    assert(all.take(headers@.len() as int) =~= all);
    proof {
        lemma_forwarded_headers_exact(all);
        assert forall|i: int|
            0 <= i < headers@.len() && names_content_header((#[trigger] headers@[i]).name@)
                implies out@[content_header_count(all.take(i)) as int]@ == headers@[i]@ by {
            assert(all[i] == headers@[i]@);
            lemma_content_header_count_grows(all, i, all.len() as int);
            assert(all.take(all.len() as int) =~= all);
            let k = content_header_count(all.take(i)) as int;
            assert(response_headers_view(out@)[k] == out@[k]@);
        }
        assert forall|j: int| 0 <= j < out@.len() implies names_content_header(
            (#[trigger] out@[j]).name@,
        ) by {
            assert(response_headers_view(out@)[j] == out@[j]@);
        }
    }
    out
}

/// How many bytes of a write go out as one DATA frame: nothing for an empty
/// write, else as much as both the write and the stream's send capacity allow.
pub fn chunk_len(buf_len: usize, capacity: usize) -> (n: usize)
    ensures
        n == if buf_len == 0 {
            0
        } else if buf_len <= capacity {
            buf_len
        } else {
            capacity
        },
{
    if buf_len == 0 {
        0
    } else if buf_len <= capacity {
        buf_len
    } else {
        capacity
    }
}

} // verus!
