use vstd::prelude::*;
use crate::decimal::{decimal_string, decimal_text};
use crate::error::TunnelError;
use crate::metadata::{pairs_view, Metadata};
use crate::outside::{base64_encode, encode_base64_no_pad};
use crate::request::header_key_prefix;
use crate::text::{concat, push_char};
use vstd::utf8::encode_utf8;

verus! {

/// A byte that a header value may hold and still read as text: a visible
/// ASCII character, a space or a tab.
pub open spec fn is_visible_ascii(b: u8) -> bool {
    (32 <= b && b < 127) || b == 9
}

/// Every byte is visible ASCII.
pub open spec fn all_visible_ascii(s: Seq<u8>) -> bool {
    forall|i: int| 0 <= i < s.len() ==> is_visible_ascii(#[trigger] s[i])
}

/// The text that ASCII bytes spell.
pub open spec fn ascii_text(s: Seq<u8>) -> Seq<char> {
    s.map_values(|b: u8| b as char)
}

/// A header value as text, as `HeaderValue::to_str` reads it: only a value of
/// visible ASCII bytes reads as text.
pub fn header_value_text(v: &[u8]) -> (r: Option<String>)
    ensures
        match r {
            Some(t) => all_visible_ascii(v@) && t@ == ascii_text(v@),
            None => !all_visible_ascii(v@),
        },
        r is Some <==> forall|i: int|
            0 <= i < v@.len() ==> (0x20 <= #[trigger] v@[i] <= 0x7e || v@[i] == 0x09),
        r matches Some(t) ==> t@.len() == v@.len() && forall|i: int|
            0 <= i < v@.len() ==> t@[i] == (#[trigger] v@[i]) as char,
{
    let mut out = String::new();
    let mut i: usize = 0;
    while i < v.len()
        invariant
            i <= v@.len(),
            all_visible_ascii(v@.take(i as int)),
            out@ == ascii_text(v@.take(i as int)),
        decreases v@.len() - i,
    {
        let b = v[i];
        if !((32 <= b && b < 127) || b == 9) {
            assert(!is_visible_ascii(v@[i as int]));
            return None;
        }
        push_char(&mut out, b as char);
        i = i + 1;
        assert(v@.take(i as int).drop_last() =~= v@.take(i - 1));
        assert(out@ =~= ascii_text(v@.take(i as int)));
        assert(all_visible_ascii(v@.take(i as int))) by {
            assert forall|j: int| 0 <= j < i implies is_visible_ascii(#[trigger] v@.take(i as int)[j]) by {
                if j < i - 1 {
                    assert(v@.take(i as int)[j] == v@.take(i - 1)[j]);
                }
            }
        }
    }
    assert(v@.take(v@.len() as int) =~= v@);
    Some(out)
}

/// One header of the origin's response: its name and its raw value.
#[derive(Debug)]
pub struct ResponseHeader {
    pub name: String,
    pub value: Vec<u8>,
}

impl View for ResponseHeader {
    type V = (Seq<char>, Seq<u8>);

    open spec fn view(&self) -> (Seq<char>, Seq<u8>) {
        (self.name@, self.value@)
    }
}

/// The metadata key that carries the response's status.
pub open spec fn status_key() -> Seq<char> {
    seq!['H', 't', 't', 'p', 'S', 't', 'a', 't', 'u', 's']
}

/// The metadata key under which a response header travels.
pub open spec fn response_header_key(name: Seq<char>) -> Seq<char> {
    header_key_prefix() + seq![':'] + name
}

/// Every response header's value reads as text.
pub open spec fn all_values_text(hs: Seq<ResponseHeader>) -> bool {
    forall|i: int| 0 <= i < hs.len() ==> all_visible_ascii(#[trigger] hs[i].value@)
}

/// The metadata entries that a response's headers become, in order.
pub open spec fn response_header_entries(hs: Seq<ResponseHeader>) -> Seq<(Seq<char>, Seq<char>)> {
    hs.map_values(|h: ResponseHeader| (response_header_key(h.name@), ascii_text(h.value@)))
}

/// The metadata that answers a data stream once the origin has responded:
/// `HttpStatus` with the status in decimal, then `HttpHeader:<name>` for each
/// header in order. A header value that does not read as text refuses the
/// whole answer.
pub fn response_metadata(status: u16, headers: &Vec<ResponseHeader>) -> (r: Result<
    Vec<Metadata>,
    TunnelError,
>)
    ensures
        match r {
            Ok(m) => all_values_text(headers@) && pairs_view(m@) == seq![
                (status_key(), decimal_text(status as nat)),
            ] + response_header_entries(headers@),
            Err(e) => !all_values_text(headers@) && e is ToStrError,
        },
        r is Ok <==> forall|i: int, j: int|
            0 <= i < headers@.len() && 0 <= j < headers@[i].value@.len() ==> (0x20
                <= #[trigger] headers@[i].value@[j] <= 0x7e || headers@[i].value@[j] == 0x09),
{
    let status_text = "HttpStatus";
    let prefix_text = "HttpHeader:";
    proof {
        reveal_strlit("HttpStatus");
        reveal_strlit("HttpHeader:");
        assert(status_text@ =~= status_key());
        assert(prefix_text@ =~= header_key_prefix() + seq![':']);
    }
    let mut out: Vec<Metadata> = Vec::new();
    out.push(Metadata { key: status_text.to_owned(), val: decimal_string(status as u64) });
    let ghost first = seq![(status_key(), decimal_text(status as nat))];
    assert(pairs_view(out@) =~= first);
    let mut i: usize = 0;
    while i < headers.len()
        invariant
            i <= headers@.len(),
            prefix_text@ == header_key_prefix() + seq![':'],
            all_values_text(headers@.take(i as int)),
            pairs_view(out@) == first + response_header_entries(headers@.take(i as int)),
        decreases headers@.len() - i,
    {
        let h = &headers[i];
        let val = match header_value_text(h.value.as_slice()) {
            Some(t) => t,
            None => {
                assert(!all_values_text(headers@)) by {
                    assert(headers@[i as int] == *h);
                }
                return Err(TunnelError::ToStrError);
            },
        };
        let key = concat(prefix_text, h.name.as_str());
        let ghost before = out@;
        out.push(Metadata { key, val });
        proof {
            let t1 = headers@.take(i + 1);
            assert(t1.drop_last() =~= headers@.take(i as int));
            assert(response_header_entries(t1) =~= response_header_entries(headers@.take(i as int)).push(
                (response_header_key(h.name@), ascii_text(h.value@)),
            ));
            assert(pairs_view(out@) =~= pairs_view(before).push(out@.last()@));
            assert forall|j: int| 0 <= j < t1.len() implies all_visible_ascii(
                #[trigger] t1[j].value@,
            ) by {
                if j < i {
                    assert(t1[j] == headers@.take(i as int)[j]);
                }
            }
        }
        i = i + 1;
    }
    assert(headers@.take(headers@.len() as int) =~= headers@);
    Ok(out)
}

/// One of the origin's headers as the edge receives it: the base64 of the
/// name's UTF-8 bytes, a colon, and the base64 of the value.
pub open spec fn encoded_header(h: (Seq<char>, Seq<u8>)) -> Seq<char> {
    base64_encode(false, encode_utf8(h.0)) + seq![':'] + base64_encode(false, h.1)
}

/// `parts` joined with `;` between each two.
pub open spec fn join_semicolon(parts: Seq<Seq<char>>) -> Seq<char>
    decreases parts.len(),
{
    if parts.len() == 0 {
        Seq::empty()
    } else if parts.len() == 1 {
        parts[0]
    } else {
        join_semicolon(parts.drop_last()) + seq![';'] + parts.last()
    }
}

/// Where the `i`-th of `parts` starts when every part is followed by one
/// separator character.
#[verifier::opaque]
pub open spec fn part_start(parts: Seq<Seq<char>>, i: int) -> int
    decreases i,
{
    if i <= 0 {
        0
    } else {
        part_start(parts, i - 1) + parts[i - 1].len() + 1
    }
}

/// One more part moves the start on by that part and its separator.
pub proof fn lemma_part_start_step(parts: Seq<Seq<char>>, i: int)
    requires
        0 <= i,
    ensures
        part_start(parts, 0) == 0,
        part_start(parts, i + 1) == part_start(parts, i) + parts[i].len() + 1,
{
    reveal(part_start);
}

proof fn lemma_part_start_prefix(parts: Seq<Seq<char>>, k: int, i: int)
    requires
        0 <= i <= k <= parts.len(),
    ensures
        part_start(parts.take(k), i) == part_start(parts, i),
    decreases i,
{
    lemma_part_start_step(parts, 0);
    lemma_part_start_step(parts.take(k), 0);
    if i > 0 {
        lemma_part_start_prefix(parts, k, i - 1);
        lemma_part_start_step(parts, i - 1);
        lemma_part_start_step(parts.take(k), i - 1);
        assert(parts.take(k)[i - 1] == parts[i - 1]);
    }
}

/// Joining parts with `;` lays them out one after another with one `;`
/// between each two: the result is as long as the parts together plus one
/// character per boundary, each part stands at its place, and a `;` follows
/// every part but the last.
pub proof fn lemma_join_semicolon_layout(parts: Seq<Seq<char>>)
    requires
        parts.len() > 0,
    ensures
        join_semicolon(parts).len() == part_start(parts, parts.len() as int) - 1,
        forall|i: int|
            0 <= i < parts.len() ==> join_semicolon(parts).subrange(
                part_start(parts, i),
                part_start(parts, i) + parts[i].len(),
            ) == #[trigger] parts[i],
        forall|i: int|
            0 <= i < parts.len() - 1 ==> join_semicolon(parts)[part_start(parts, i)
                + #[trigger] parts[i].len()] == ';',
    decreases parts.len(),
{
    let n = parts.len() as int;
    lemma_part_start_step(parts, n - 1);
    if n == 1 {
        assert(join_semicolon(parts).subrange(0, parts[0].len() as int) =~= parts[0]);
    } else {
        let q = parts.drop_last();
        assert(q =~= parts.take(n - 1));
        lemma_join_semicolon_layout(q);
        let jq = join_semicolon(q);
        let j = join_semicolon(parts);
        assert(j == jq + seq![';'] + parts.last());
        lemma_part_start_prefix(parts, n - 1, n - 1);
        assert forall|i: int| 0 <= i < n implies j.subrange(
            part_start(parts, i),
            part_start(parts, i) + parts[i].len(),
        ) == #[trigger] parts[i] by {
            if i < n - 1 {
                lemma_part_start_prefix(parts, n - 1, i);
                lemma_part_start_prefix(parts, n - 1, i + 1);
                lemma_part_start_grows(q, i + 1, n - 1);
                lemma_part_start_step(q, i);
                lemma_part_start_step(q, 0);
                lemma_part_start_grows(q, 0, i);
                assert(q[i] == parts[i]);
                let a = part_start(q, i);
                assert(0 <= a && a + q[i].len() <= jq.len());
                let sub = jq.subrange(a, a + q[i].len());
                assert(sub == q[i]);
                assert(j.subrange(a, a + parts[i].len()) =~= sub);
            } else {
                assert(j.subrange(part_start(parts, i), part_start(parts, i) + parts[i].len())
                    =~= parts.last());
            }
        }
        assert forall|i: int| 0 <= i < n - 1 implies j[part_start(parts, i)
            + #[trigger] parts[i].len()] == ';' by {
            lemma_part_start_prefix(parts, n - 1, i);
            lemma_part_start_prefix(parts, n - 1, i + 1);
            lemma_part_start_step(q, i);
            lemma_part_start_step(parts, i);
            lemma_part_start_step(q, 0);
            lemma_part_start_grows(q, 0, i);
            assert(q[i] == parts[i]);
            let p = part_start(q, i) + q[i].len();
            if i < n - 2 {
                lemma_part_start_grows(q, i + 1, n - 1);
                assert(jq[p] == ';');
                assert(0 <= p < jq.len());
                assert(j[p] == jq[p]);
            } else {
                assert(p == jq.len());
                assert(j[p] == ';');
            }
        }
    }
}

proof fn lemma_part_start_grows(parts: Seq<Seq<char>>, i: int, k: int)
    requires
        0 <= i <= k,
    ensures
        part_start(parts, i) + (k - i) <= part_start(parts, k),
    decreases k,
{
    if i < k {
        lemma_part_start_grows(parts, i, k - 1);
        lemma_part_start_step(parts, k - 1);
    }
}

/// The value of the header through which an HTTP/2 stream hands the origin's
/// headers to the edge: each header as `base64(name):base64(value)` without
/// padding, the headers joined by `;`.
pub open spec fn encoded_headers(hs: Seq<ResponseHeader>) -> Seq<char> {
    join_semicolon(encoded_parts(hs))
}

/// Each of the origin's headers as the edge receives it, in order.
pub open spec fn encoded_parts(hs: Seq<ResponseHeader>) -> Seq<Seq<char>> {
    hs.map_values(|h: ResponseHeader| encoded_header(h@))
}

/// A character a header value may hold.
pub open spec fn is_visible_char(c: char) -> bool {
    (' ' <= c && c <= '~') || c == '\t'
}

/// Every character may stand in a header value.
pub open spec fn all_visible_chars(s: Seq<char>) -> bool {
    forall|j: int| 0 <= j < s.len() ==> is_visible_char(#[trigger] s[j])
}

/// No header name or value is too long to encode.
pub open spec fn encodable_headers(hs: Seq<ResponseHeader>) -> bool {
    forall|i: int|
        0 <= i < hs.len() ==> #[trigger] encode_utf8(hs[i].name@).len() <= isize::MAX
            && hs[i].value@.len() <= isize::MAX
}

/// Encodes the origin's response headers for the edge. The result is always
/// a valid header value: every character is visible ASCII.
pub fn encode_response_headers(headers: &Vec<ResponseHeader>) -> (r: String)
    requires
        encodable_headers(headers@),
    ensures
        r@ == encoded_headers(headers@),
        all_visible_chars(r@),
        r@.len() == if headers@.len() == 0 {
            0
        } else {
            part_start(encoded_parts(headers@), headers@.len() as int) - 1
        },
        forall|i: int|
            0 <= i < headers@.len() ==> r@.subrange(
                part_start(encoded_parts(headers@), i),
                part_start(encoded_parts(headers@), i) + encoded_parts(headers@)[i].len(),
            ) == base64_encode(false, encode_utf8(#[trigger] headers@[i].name@)) + seq![':']
                + base64_encode(false, headers@[i].value@),
        forall|i: int|
            0 <= i < headers@.len() - 1 ==> r@[part_start(encoded_parts(headers@), i)
                + #[trigger] encoded_parts(headers@)[i].len()] == ';',
{
    let mut out = String::new();
    let ghost parts = headers@.map_values(|h: ResponseHeader| encoded_header(h@));
    let mut i: usize = 0;
    while i < headers.len()
        invariant
            i <= headers@.len(),
            encodable_headers(headers@),
            parts == headers@.map_values(|h: ResponseHeader| encoded_header(h@)),
            out@ == join_semicolon(parts.take(i as int)),
            all_visible_chars(out@),
        decreases headers@.len() - i,
    {
        let h = &headers[i];
        assert(headers@[i as int] == *h);
        assert(encode_utf8(headers@[i as int].name@).len() <= isize::MAX);
        let k = encode_base64_no_pad(h.name.as_str().as_bytes());
        let v = encode_base64_no_pad(h.value.as_slice());
        let ghost before = out@;
        if i > 0 {
            push_char(&mut out, ';');
        }
        out.append(k.as_str());
        push_char(&mut out, ':');
        out.append(v.as_str());
        proof {
            let t1 = parts.take(i + 1);
            assert(t1.drop_last() =~= parts.take(i as int));
            assert(t1.last() == encoded_header(h@));
            if i > 0 {
                assert(out@ =~= before + seq![';'] + encoded_header(h@));
            } else {
                assert(parts.take(i as int).len() == 0);
                assert(out@ =~= encoded_header(h@));
            }
            assert forall|j: int| 0 <= j < out@.len() implies is_visible_char(#[trigger] out@[j]) by {
                let kl = k@.len();
                let base = if i > 0 { before.len() + 1 } else { 0 };
                if i > 0 && j < before.len() {
                    assert(out@[j] == before[j]);
                } else if i > 0 && j == before.len() {
                    assert(out@[j] == ';');
                } else if j < base + kl {
                    assert(out@[j] == k@[j - base]);
                } else if j > base + kl {
                    assert(out@[j] == v@[j - base - kl - 1]);
                }
            }
        }
        i = i + 1;
    }
    assert(parts.take(headers@.len() as int) =~= parts);
    proof {
        assert(parts == encoded_parts(headers@));
        if headers@.len() > 0 {
            lemma_join_semicolon_layout(parts);
            assert forall|i: int| 0 <= i < headers@.len() implies out@.subrange(
                part_start(parts, i),
                part_start(parts, i) + parts[i].len(),
            ) == base64_encode(false, encode_utf8(#[trigger] headers@[i].name@)) + seq![':']
                + base64_encode(false, headers@[i].value@) by {
                assert(parts[i] == encoded_header(headers@[i]@));
            }
        }
    }
    out
}

} // verus!
