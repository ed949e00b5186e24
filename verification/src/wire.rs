//! Wire format for protocol messages.
//!
//! Every message is a tag byte followed by its fields. A byte string is
//! length-prefixed with a little-endian 64-bit length; a text field is the
//! UTF-8 encoding of the string, framed the same way; a boolean and an
//! option are one canonical byte each. A decoder accepts exactly the
//! encodings this module produces: trailing bytes, a short buffer, a
//! non-canonical boolean or option byte, or invalid UTF-8 in a text field
//! all make it reject the whole message.

use vstd::prelude::*;
use vstd::utf8::{valid_utf8, decode_utf8, encode_utf8};
use crate::protocol::{AppRequest, AppRequestView, AppResponse, AppResponseView};

verus! {

/// The little-endian bytes of a 64-bit length prefix.
pub open spec fn u64_le(n: u64) -> Seq<u8> {
    seq![
        (n & 0xff) as u8,
        ((n >> 8) & 0xff) as u8,
        ((n >> 16) & 0xff) as u8,
        ((n >> 24) & 0xff) as u8,
        ((n >> 32) & 0xff) as u8,
        ((n >> 40) & 0xff) as u8,
        ((n >> 48) & 0xff) as u8,
        ((n >> 56) & 0xff) as u8,
    ]
}

/// The 64-bit value read from eight little-endian bytes.
pub open spec fn u64_from_le(s: Seq<u8>) -> u64
    recommends
        s.len() == 8,
{
    ((s[0] as u64) | ((s[1] as u64) << 8) | ((s[2] as u64) << 16) | ((s[3] as u64) << 24)
        | ((s[4] as u64) << 32) | ((s[5] as u64) << 40) | ((s[6] as u64) << 48) | ((
    s[7] as u64) << 56)) as u64
}

/// Reading back the little-endian bytes of `n` yields `n`.
pub proof fn lemma_u64_le_round_trip(n: u64)
    ensures
        u64_from_le(u64_le(n)) == n,
{
    let s = u64_le(n);
    assert(s[0] == (n & 0xff) as u8);
    assert(s[1] == ((n >> 8) & 0xff) as u8);
    assert(s[2] == ((n >> 16) & 0xff) as u8);
    assert(s[3] == ((n >> 24) & 0xff) as u8);
    assert(s[4] == ((n >> 32) & 0xff) as u8);
    assert(s[5] == ((n >> 40) & 0xff) as u8);
    assert(s[6] == ((n >> 48) & 0xff) as u8);
    assert(s[7] == ((n >> 56) & 0xff) as u8);
    assert((((n & 0xff) as u8 as u64) | ((((n >> 8) & 0xff) as u8 as u64) << 8) | ((((n >> 16)
        & 0xff) as u8 as u64) << 16) | ((((n >> 24) & 0xff) as u8 as u64) << 24) | ((((n >> 32)
        & 0xff) as u8 as u64) << 32) | ((((n >> 40) & 0xff) as u8 as u64) << 40) | ((((n >> 48)
        & 0xff) as u8 as u64) << 48) | ((((n >> 56) & 0xff) as u8 as u64) << 56)) as u64 == n)
        by (bit_vector);
}

/// A length-prefixed byte string.
pub open spec fn enc_bytes(b: Seq<u8>) -> Seq<u8>
    recommends
        b.len() < 0x1_0000_0000_0000_0000,
{
    u64_le(b.len() as u64) + b
}

/// A length-prefixed UTF-8 text field.
pub open spec fn enc_str(s: Seq<char>) -> Seq<u8> {
    enc_bytes(encode_utf8(s))
}

/// A canonical boolean byte.
pub open spec fn enc_bool(b: bool) -> Seq<u8> {
    if b {
        seq![1u8]
    } else {
        seq![0u8]
    }
}

/// An optional byte string: a presence byte, then the string if present.
pub open spec fn enc_opt_bytes(o: Option<Seq<u8>>) -> Seq<u8> {
    match o {
        Some(b) => seq![1u8] + enc_bytes(b),
        None => seq![0u8],
    }
}

/// Reads a 64-bit length prefix; yields the value and the remaining bytes.
pub open spec fn parse_u64(s: Seq<u8>) -> Option<(u64, Seq<u8>)> {
    if s.len() >= 8 {
        Some((u64_from_le(s.take(8)), s.skip(8)))
    } else {
        None
    }
}

/// Reads a length-prefixed byte string.
pub open spec fn parse_bytes(s: Seq<u8>) -> Option<(Seq<u8>, Seq<u8>)> {
    match parse_u64(s) {
        Some((n, r)) => if n <= r.len() {
            Some((r.take(n as int), r.skip(n as int)))
        } else {
            None
        },
        None => None,
    }
}

/// Reads a length-prefixed UTF-8 text field.
pub open spec fn parse_str(s: Seq<u8>) -> Option<(Seq<char>, Seq<u8>)> {
    match parse_bytes(s) {
        Some((b, r)) => if valid_utf8(b) {
            Some((decode_utf8(b), r))
        } else {
            None
        },
        None => None,
    }
}

/// Reads a canonical boolean byte.
pub open spec fn parse_bool(s: Seq<u8>) -> Option<(bool, Seq<u8>)> {
    if s.len() >= 1 && (s[0] == 0 || s[0] == 1) {
        Some((s[0] == 1, s.skip(1)))
    } else {
        None
    }
}

/// Reads an optional byte string.
pub open spec fn parse_opt_bytes(s: Seq<u8>) -> Option<(Option<Seq<u8>>, Seq<u8>)> {
    if s.len() >= 1 && s[0] == 0 {
        Some((None, s.skip(1)))
    } else if s.len() >= 1 && s[0] == 1 {
        match parse_bytes(s.skip(1)) {
            Some((b, r)) => Some((Some(b), r)),
            None => None,
        }
    } else {
        None
    }
}

/// Reading a length prefix back off its own encoding yields the value and
/// leaves the rest untouched.
pub proof fn lemma_parse_u64(n: u64, rest: Seq<u8>)
    ensures
        parse_u64(u64_le(n) + rest) == Some((n, rest)),
{
    let s = u64_le(n) + rest;
    assert(s.take(8) =~= u64_le(n));
    assert(s.skip(8) =~= rest);
    lemma_u64_le_round_trip(n);
}

/// Reading a byte string back off its own encoding yields the string and
/// leaves the rest untouched.
pub proof fn lemma_parse_bytes(b: Seq<u8>, rest: Seq<u8>)
    requires
        b.len() < 0x1_0000_0000_0000_0000,
    ensures
        parse_bytes(enc_bytes(b) + rest) == Some((b, rest)),
{
    let n = b.len() as u64;
    assert(enc_bytes(b) + rest =~= u64_le(n) + (b + rest));
    lemma_parse_u64(n, b + rest);
    assert((b + rest).take(n as int) =~= b);
    assert((b + rest).skip(n as int) =~= rest);
}

/// Reading a text field back off its own encoding yields the string and
/// leaves the rest untouched.
pub proof fn lemma_parse_str(s: Seq<char>, rest: Seq<u8>)
    requires
        encode_utf8(s).len() < 0x1_0000_0000_0000_0000,
    ensures
        parse_str(enc_str(s) + rest) == Some((s, rest)),
{
    lemma_parse_bytes(encode_utf8(s), rest);
    vstd::utf8::encode_utf8_valid_utf8(s);
    vstd::utf8::encode_utf8_decode_utf8(s);
}

/// Reading a boolean back off its own encoding yields the value and leaves
/// the rest untouched.
pub proof fn lemma_parse_bool(b: bool, rest: Seq<u8>)
    ensures
        parse_bool(enc_bool(b) + rest) == Some((b, rest)),
{
    let s = enc_bool(b) + rest;
    assert(s.skip(1) =~= rest);
}

/// Reading an optional byte string back off its own encoding yields the
/// value and leaves the rest untouched.
pub proof fn lemma_parse_opt_bytes(o: Option<Seq<u8>>, rest: Seq<u8>)
    requires
        o matches Some(b) ==> b.len() < 0x1_0000_0000_0000_0000,
    ensures
        parse_opt_bytes(enc_opt_bytes(o) + rest) == Some((o, rest)),
{
    let s = enc_opt_bytes(o) + rest;
    match o {
        Some(b) => {
            assert(s.skip(1) =~= enc_bytes(b) + rest);
            lemma_parse_bytes(b, rest);
        },
        None => {
            assert(s.skip(1) =~= rest);
        },
    }
}

/// Relies on std's `String::from_utf8`: it succeeds exactly when the bytes
/// are valid UTF-8, and the returned string's UTF-8 encoding is exactly
/// those bytes.
#[verifier::external_body]
fn string_from_utf8(bytes: Vec<u8>) -> (r: Option<String>)
    ensures
        match r {
            Some(s) => valid_utf8(bytes@) && encode_utf8(s@) == bytes@,
            None => !valid_utf8(bytes@),
        },
{
    String::from_utf8(bytes).ok()
}

/// Appends the little-endian length prefix for `n`.
fn write_u64(out: &mut Vec<u8>, n: u64)
    ensures
        final(out)@ == old(out)@ + u64_le(n),
{
    out.push((n & 0xff) as u8);
    out.push(((n >> 8) & 0xff) as u8);
    out.push(((n >> 16) & 0xff) as u8);
    out.push(((n >> 24) & 0xff) as u8);
    out.push(((n >> 32) & 0xff) as u8);
    out.push(((n >> 40) & 0xff) as u8);
    out.push(((n >> 48) & 0xff) as u8);
    out.push(((n >> 56) & 0xff) as u8);
    proof {
        assert(final(out)@ =~= old(out)@ + u64_le(n));
    }
}

/// Appends a length-prefixed byte string.
fn write_bytes(out: &mut Vec<u8>, b: &[u8])
    ensures
        final(out)@ == old(out)@ + enc_bytes(b@),
{
    write_u64(out, b.len() as u64);
    out.extend_from_slice(b);
    proof {
        assert(final(out)@ =~= old(out)@ + enc_bytes(b@));
    }
}

/// Appends a length-prefixed UTF-8 text field.
fn write_str(out: &mut Vec<u8>, s: &str)
    ensures
        final(out)@ == old(out)@ + enc_str(s@),
{
    write_bytes(out, s.as_bytes());
}

/// Reads the little-endian length prefix at `pos`.
fn read_u64(buf: &Vec<u8>, pos: usize) -> (r: Option<(u64, usize)>)
    requires
        pos <= buf.len(),
    ensures
        match r {
            Some((n, p2)) => pos <= p2 <= buf.len() && parse_u64(buf@.skip(pos as int)) == Some(
                (n, buf@.skip(p2 as int)),
            ),
            None => parse_u64(buf@.skip(pos as int)) is None,
        },
{
    if buf.len() - pos >= 8 {
        let n = (buf[pos] as u64) | ((buf[pos + 1] as u64) << 8) | ((buf[pos + 2] as u64) << 16)
            | ((buf[pos + 3] as u64) << 24) | ((buf[pos + 4] as u64) << 32) | ((buf[pos
            + 5] as u64) << 40) | ((buf[pos + 6] as u64) << 48) | ((buf[pos + 7] as u64) << 56);
        proof {
            let s = buf@.skip(pos as int);
            assert(s.take(8) =~= seq![
                buf@[pos as int],
                buf@[pos + 1],
                buf@[pos + 2],
                buf@[pos + 3],
                buf@[pos + 4],
                buf@[pos + 5],
                buf@[pos + 6],
                buf@[pos + 7],
            ]);
            assert(s.skip(8) =~= buf@.skip(pos + 8));
        }
        Some((n, pos + 8))
    } else {
        None
    }
}

/// Reads the length-prefixed byte string at `pos`.
fn read_bytes(buf: &Vec<u8>, pos: usize) -> (r: Option<(Vec<u8>, usize)>)
    requires
        pos <= buf.len(),
    ensures
        match r {
            Some((v, p2)) => pos <= p2 <= buf.len() && parse_bytes(buf@.skip(pos as int)) == Some(
                (v@, buf@.skip(p2 as int)),
            ),
            None => parse_bytes(buf@.skip(pos as int)) is None,
        },
{
    match read_u64(buf, pos) {
        Some((n, p)) => {
            if n > (buf.len() - p) as u64 {
                None
            } else {
                let len = n as usize;
                let mut v: Vec<u8> = Vec::new();
                let mut i: usize = p;
                while i < p + len
                    invariant
                        p + len <= buf.len(),
                        p <= i <= p + len,
                        v@ =~= buf@.subrange(p as int, i as int),
                    decreases p + len - i,
                {
                    v.push(buf[i]);
                    i += 1;
                }
                proof {
                    let rest = buf@.skip(p as int);
                    assert(rest.take(n as int) =~= buf@.subrange(p as int, p + len));
                    assert(rest.skip(n as int) =~= buf@.skip(p + len));
                }
                Some((v, p + len))
            }
        },
        None => None,
    }
}

/// Reads the length-prefixed UTF-8 text field at `pos`.
fn read_string(buf: &Vec<u8>, pos: usize) -> (r: Option<(String, usize)>)
    requires
        pos <= buf.len(),
    ensures
        match r {
            Some((s, p2)) => pos <= p2 <= buf.len() && parse_str(buf@.skip(pos as int)) == Some(
                (s@, buf@.skip(p2 as int)),
            ),
            None => parse_str(buf@.skip(pos as int)) is None,
        },
{
    match read_bytes(buf, pos) {
        Some((v, p2)) => {
            let ghost bytes = v@;
            match string_from_utf8(v) {
                Some(s) => {
                    proof {
                        vstd::utf8::encode_utf8_decode_utf8(s@);
                    }
                    Some((s, p2))
                },
                None => None,
            }
        },
        None => None,
    }
}

/// Reads the canonical boolean byte at `pos`.
fn read_bool(buf: &Vec<u8>, pos: usize) -> (r: Option<(bool, usize)>)
    requires
        pos <= buf.len(),
    ensures
        match r {
            Some((b, p2)) => pos <= p2 <= buf.len() && parse_bool(buf@.skip(pos as int)) == Some(
                (b, buf@.skip(p2 as int)),
            ),
            None => parse_bool(buf@.skip(pos as int)) is None,
        },
{
    if buf.len() - pos >= 1 && (buf[pos] == 0 || buf[pos] == 1) {
        proof {
            assert(buf@.skip(pos as int).skip(1) =~= buf@.skip(pos + 1));
        }
        Some((buf[pos] == 1, pos + 1))
    } else {
        None
    }
}

/// Reads the optional byte string at `pos`.
fn read_opt_bytes(buf: &Vec<u8>, pos: usize) -> (r: Option<(Option<Vec<u8>>, usize)>)
    requires
        pos <= buf.len(),
    ensures
        match r {
            Some((o, p2)) => pos <= p2 <= buf.len() && ({
                let ov = match o {
                    Some(v) => Some(v@),
                    None => None,
                };
                parse_opt_bytes(buf@.skip(pos as int)) == Some((ov, buf@.skip(p2 as int)))
            }),
            None => parse_opt_bytes(buf@.skip(pos as int)) is None,
        },
{
    if buf.len() - pos >= 1 && buf[pos] == 0 {
        proof {
            assert(buf@.skip(pos as int).skip(1) =~= buf@.skip(pos + 1));
        }
        Some((None, pos + 1))
    } else if buf.len() - pos >= 1 && buf[pos] == 1 {
        proof {
            assert(buf@.skip(pos as int).skip(1) =~= buf@.skip(pos + 1));
        }
        match read_bytes(buf, pos + 1) {
            Some((v, p2)) => Some((Some(v), p2)),
            None => None,
        }
    } else {
        None
    }
}

/// Encodes a request for the wire.
pub fn encode_request(m: &AppRequest) -> (r: Vec<u8>)
    ensures
        r@ == spec_encode_request(m@),
{
    let mut out: Vec<u8> = Vec::new();
    match m {
        AppRequest::Join { username } => {
            out.push(1u8);
            write_str(&mut out, username.as_str());
        },
        AppRequest::Sync { path, data } => {
            out.push(2u8);
            write_str(&mut out, path.as_str());
            write_bytes(&mut out, data.as_slice());
        },
        AppRequest::FileContent { path, data } => {
            out.push(3u8);
            write_str(&mut out, path.as_str());
            write_bytes(&mut out, data.as_slice());
        },
        AppRequest::RequestSync { path } => {
            out.push(4u8);
            write_str(&mut out, path.as_str());
        },
        AppRequest::Ping => {
            out.push(5u8);
        },
    }
    proof {
        assert(out@ =~= spec_encode_request(m@));
    }
    out
}

/// Decodes the wire form of a request; rejects anything the encoder does
/// not produce.
pub fn decode_request(buf: &Vec<u8>) -> (r: Option<AppRequest>)
    ensures
        match r {
            Some(m) => spec_decode_request(buf@) == Some(m@),
            None => spec_decode_request(buf@) is None,
        },
{
    if buf.len() < 1 {
        return None;
    }
    let tag = buf[0];
    if tag == 1 {
        match read_string(buf, 1) {
            Some((username, p)) => {
                if p == buf.len() {
                    proof {
                        assert(buf@.skip(p as int) =~= Seq::<u8>::empty());
                    }
                    Some(AppRequest::Join { username })
                } else {
                    None
                }
            },
            None => None,
        }
    } else if tag == 2 || tag == 3 {
        match read_string(buf, 1) {
            Some((path, p)) => {
                match read_bytes(buf, p) {
                    Some((data, p2)) => {
                        if p2 == buf.len() {
                            proof {
                                assert(buf@.skip(p2 as int) =~= Seq::<u8>::empty());
                            }
                            if tag == 2 {
                                Some(AppRequest::Sync { path, data })
                            } else {
                                Some(AppRequest::FileContent { path, data })
                            }
                        } else {
                            None
                        }
                    },
                    None => None,
                }
            },
            None => None,
        }
    } else if tag == 4 {
        match read_string(buf, 1) {
            Some((path, p)) => {
                if p == buf.len() {
                    proof {
                        assert(buf@.skip(p as int) =~= Seq::<u8>::empty());
                    }
                    Some(AppRequest::RequestSync { path })
                } else {
                    None
                }
            },
            None => None,
        }
    } else if tag == 5 {
        if buf.len() == 1 {
            proof {
                assert(buf@.skip(1) =~= Seq::<u8>::empty());
            }
            Some(AppRequest::Ping)
        } else {
            None
        }
    } else {
        None
    }
}

/// Encodes a response for the wire.
pub fn encode_response(m: &AppResponse) -> (r: Vec<u8>)
    ensures
        r@ == spec_encode_response(m@),
{
    let mut out: Vec<u8> = Vec::new();
    match m {
        AppResponse::Join { accepted, content } => {
            out.push(1u8);
            if *accepted {
                out.push(1u8);
            } else {
                out.push(0u8);
            }
            match content {
                Some(c) => {
                    out.push(1u8);
                    write_bytes(&mut out, c.as_slice());
                },
                None => {
                    out.push(0u8);
                },
            }
        },
        AppResponse::Ack => {
            out.push(2u8);
        },
        AppResponse::Pong => {
            out.push(3u8);
        },
    }
    proof {
        assert(out@ =~= spec_encode_response(m@));
    }
    out
}

/// Decodes the wire form of a response; rejects anything the encoder does
/// not produce.
pub fn decode_response(buf: &Vec<u8>) -> (r: Option<AppResponse>)
    ensures
        match r {
            Some(m) => spec_decode_response(buf@) == Some(m@),
            None => spec_decode_response(buf@) is None,
        },
{
    if buf.len() < 1 {
        return None;
    }
    let tag = buf[0];
    if tag == 1 {
        match read_bool(buf, 1) {
            Some((accepted, p)) => {
                match read_opt_bytes(buf, p) {
                    Some((content, p2)) => {
                        if p2 == buf.len() {
                            proof {
                                assert(buf@.skip(p2 as int) =~= Seq::<u8>::empty());
                            }
                            Some(AppResponse::Join { accepted, content })
                        } else {
                            None
                        }
                    },
                    None => None,
                }
            },
            None => None,
        }
    } else if tag == 2 {
        if buf.len() == 1 {
            proof {
                assert(buf@.skip(1) =~= Seq::<u8>::empty());
            }
            Some(AppResponse::Ack)
        } else {
            None
        }
    } else if tag == 3 {
        if buf.len() == 1 {
            proof {
                assert(buf@.skip(1) =~= Seq::<u8>::empty());
            }
            Some(AppResponse::Pong)
        } else {
            None
        }
    } else {
        None
    }
}

/// Tag byte of each request variant.
pub open spec fn req_tag(m: AppRequestView) -> u8 {
    match m {
        AppRequestView::Join { .. } => 1,
        AppRequestView::Sync { .. } => 2,
        AppRequestView::FileContent { .. } => 3,
        AppRequestView::RequestSync { .. } => 4,
        AppRequestView::Ping => 5,
    }
}

/// The encoding of a request: its tag byte, then its fields in order.
pub open spec fn spec_encode_request(m: AppRequestView) -> Seq<u8> {
    seq![req_tag(m)] + match m {
        AppRequestView::Join { username } => enc_str(username),
        AppRequestView::Sync { path, data } => enc_str(path) + enc_bytes(data),
        AppRequestView::FileContent { path, data } => enc_str(path) + enc_bytes(data),
        AppRequestView::RequestSync { path } => enc_str(path),
        AppRequestView::Ping => Seq::<u8>::empty(),
    }
}

/// The request a byte string decodes to, if it is exactly one encoded
/// request.
pub open spec fn spec_decode_request(s: Seq<u8>) -> Option<AppRequestView> {
    if s.len() < 1 {
        None
    } else {
        let body = s.skip(1);
        if s[0] == 1 {
            match parse_str(body) {
                Some((username, r)) => if r.len() == 0 {
                    Some(AppRequestView::Join { username })
                } else {
                    None
                },
                None => None,
            }
        } else if s[0] == 2 || s[0] == 3 {
            match parse_str(body) {
                Some((path, r)) => match parse_bytes(r) {
                    Some((data, r2)) => if r2.len() == 0 {
                        if s[0] == 2 {
                            Some(AppRequestView::Sync { path, data })
                        } else {
                            Some(AppRequestView::FileContent { path, data })
                        }
                    } else {
                        None
                    },
                    None => None,
                },
                None => None,
            }
        } else if s[0] == 4 {
            match parse_str(body) {
                Some((path, r)) => if r.len() == 0 {
                    Some(AppRequestView::RequestSync { path })
                } else {
                    None
                },
                None => None,
            }
        } else if s[0] == 5 {
            if body.len() == 0 {
                Some(AppRequestView::Ping)
            } else {
                None
            }
        } else {
            None
        }
    }
}

/// Tag byte of each response variant.
pub open spec fn resp_tag(m: AppResponseView) -> u8 {
    match m {
        AppResponseView::Join { .. } => 1,
        AppResponseView::Ack => 2,
        AppResponseView::Pong => 3,
    }
}

/// The encoding of a response: its tag byte, then its fields in order.
pub open spec fn spec_encode_response(m: AppResponseView) -> Seq<u8> {
    seq![resp_tag(m)] + match m {
        AppResponseView::Join { accepted, content } => enc_bool(accepted) + enc_opt_bytes(
            content,
        ),
        AppResponseView::Ack => Seq::<u8>::empty(),
        AppResponseView::Pong => Seq::<u8>::empty(),
    }
}

/// The response a byte string decodes to, if it is exactly one encoded
/// response.
pub open spec fn spec_decode_response(s: Seq<u8>) -> Option<AppResponseView> {
    if s.len() < 1 {
        None
    } else {
        let body = s.skip(1);
        if s[0] == 1 {
            match parse_bool(body) {
                Some((accepted, r)) => match parse_opt_bytes(r) {
                    Some((content, r2)) => if r2.len() == 0 {
                        Some(AppResponseView::Join { accepted, content })
                    } else {
                        None
                    },
                    None => None,
                },
                None => None,
            }
        } else if s[0] == 2 {
            if body.len() == 0 {
                Some(AppResponseView::Ack)
            } else {
                None
            }
        } else if s[0] == 3 {
            if body.len() == 0 {
                Some(AppResponseView::Pong)
            } else {
                None
            }
        } else {
            None
        }
    }
}

/// The lengths under which a request fits the wire format's prefixes.
/// Every value built in executable code satisfies this.
pub open spec fn req_fits(m: AppRequestView) -> bool {
    match m {
        AppRequestView::Join { username } => encode_utf8(username).len()
            < 0x1_0000_0000_0000_0000,
        AppRequestView::Sync { path, data } => encode_utf8(path).len() < 0x1_0000_0000_0000_0000
            && data.len() < 0x1_0000_0000_0000_0000,
        AppRequestView::FileContent { path, data } => encode_utf8(path).len()
            < 0x1_0000_0000_0000_0000 && data.len() < 0x1_0000_0000_0000_0000,
        AppRequestView::RequestSync { path } => encode_utf8(path).len()
            < 0x1_0000_0000_0000_0000,
        AppRequestView::Ping => true,
    }
}

/// The lengths under which a response fits the wire format's prefixes.
pub open spec fn resp_fits(m: AppResponseView) -> bool {
    match m {
        AppResponseView::Join { content, .. } => content matches Some(b) ==> b.len()
            < 0x1_0000_0000_0000_0000,
        AppResponseView::Ack => true,
        AppResponseView::Pong => true,
    }
}

/// Decoding the encoding of any request yields that request back.
pub proof fn lemma_request_round_trip(m: AppRequestView)
    requires
        req_fits(m),
    ensures
        spec_decode_request(spec_encode_request(m)) == Some(m),
{
    let s = spec_encode_request(m);
    assert(s[0] == req_tag(m));
    match m {
        AppRequestView::Join { username } => {
            assert(s.skip(1) =~= enc_str(username) + Seq::<u8>::empty());
            assert(enc_str(username) + Seq::<u8>::empty() =~= enc_str(username));
            lemma_parse_str(username, Seq::<u8>::empty());
        },
        AppRequestView::Sync { path, data } => {
            assert(s.skip(1) =~= enc_str(path) + (enc_bytes(data) + Seq::<u8>::empty()));
            assert(enc_bytes(data) + Seq::<u8>::empty() =~= enc_bytes(data));
            lemma_parse_str(path, enc_bytes(data));
            lemma_parse_bytes(data, Seq::<u8>::empty());
        },
        AppRequestView::FileContent { path, data } => {
            assert(s.skip(1) =~= enc_str(path) + (enc_bytes(data) + Seq::<u8>::empty()));
            assert(enc_bytes(data) + Seq::<u8>::empty() =~= enc_bytes(data));
            lemma_parse_str(path, enc_bytes(data));
            lemma_parse_bytes(data, Seq::<u8>::empty());
        },
        AppRequestView::RequestSync { path } => {
            assert(s.skip(1) =~= enc_str(path) + Seq::<u8>::empty());
            assert(enc_str(path) + Seq::<u8>::empty() =~= enc_str(path));
            lemma_parse_str(path, Seq::<u8>::empty());
        },
        AppRequestView::Ping => {
            assert(s.skip(1) =~= Seq::<u8>::empty());
        },
    }
}

/// Decoding the encoding of any response yields that response back.
pub proof fn lemma_response_round_trip(m: AppResponseView)
    requires
        resp_fits(m),
    ensures
        spec_decode_response(spec_encode_response(m)) == Some(m),
{
    let s = spec_encode_response(m);
    assert(s[0] == resp_tag(m));
    match m {
        AppResponseView::Join { accepted, content } => {
            assert(s.skip(1) =~= enc_bool(accepted) + (enc_opt_bytes(content)
                + Seq::<u8>::empty()));
            assert(enc_opt_bytes(content) + Seq::<u8>::empty() =~= enc_opt_bytes(content));
            lemma_parse_bool(accepted, enc_opt_bytes(content));
            lemma_parse_opt_bytes(content, Seq::<u8>::empty());
        },
        AppResponseView::Ack => {
            assert(s.skip(1) =~= Seq::<u8>::empty());
        },
        AppResponseView::Pong => {
            assert(s.skip(1) =~= Seq::<u8>::empty());
        },
    }
}

} // verus!
