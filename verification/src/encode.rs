//! Verified body encoders: `application/x-www-form-urlencoded` and
//! `multipart/form-data` wire formats, byte-buffer helpers, and the
//! engine's base64 and boundary-token primitives.

use vstd::prelude::*;
use vstd::utf8::encode_utf8;
use crate::types::{MultipartField, MultipartValue};
use base64::Engine;

verus! {

/// The UTF-8 bytes of a character sequence.
pub open spec fn str_bytes(s: Seq<char>) -> Seq<u8> {
    encode_utf8(s)
}

/// Appends the bytes of `b` to `v`.
pub fn extend_bytes(v: &mut Vec<u8>, b: &[u8])
    ensures
        final(v)@ == old(v)@ + b@,
{
    let n = b.len();
    let mut i: usize = 0;
    while i < n
        invariant
            n == b@.len(),
            i <= n,
            v@ == old(v)@ + b@.subrange(0, i as int),
        decreases n - i,
    {
        v.push(b[i]);
        i += 1;
        proof {
            assert(old(v)@ + b@.subrange(0, i as int) =~= (old(v)@ + b@.subrange(0, i - 1))
                .push(b@[i - 1]));
        }
    }
    proof {
        assert(old(v)@ + b@.subrange(0, n as int) =~= old(v)@ + b@);
    }
}

/// Appends the UTF-8 bytes of `s` to `v`.
pub fn extend_str(v: &mut Vec<u8>, s: &str)
    ensures
        final(v)@ == old(v)@ + str_bytes(s@),
{
    extend_bytes(v, s.as_bytes());
}

/// The character for the hex digit `d`, upper case, as a byte.
pub open spec fn hex_digit(d: int) -> u8 {
    if d < 10 {
        (48 + d) as u8
    } else {
        (55 + d) as u8
    }
}

/// Whether a byte passes through form-urlencoding unchanged: ASCII
/// alphanumerics and `*`, `-`, `.`, `_`.
pub open spec fn fe_unreserved(b: u8) -> bool {
    (48 <= b && b <= 57) || (65 <= b && b <= 90) || (97 <= b && b <= 122) || b == 42 || b == 45
        || b == 46 || b == 95
}

/// The form-urlencoding of one byte: itself if unreserved, `+` for a
/// space, and `%XX` with upper-case hex digits otherwise.
pub open spec fn fe_byte(b: u8) -> Seq<u8> {
    if fe_unreserved(b) {
        seq![b]
    } else if b == 32 {
        seq![43u8]
    } else {
        seq![37u8, hex_digit(b as int / 16), hex_digit(b as int % 16)]
    }
}

/// The form-urlencoding of a byte string.
pub open spec fn fe_bytes(s: Seq<u8>) -> Seq<u8>
    decreases s.len(),
{
    if s.len() == 0 {
        seq![]
    } else {
        fe_bytes(s.drop_last()) + fe_byte(s.last())
    }
}

/// One encoded `key=value` pair.
pub open spec fn fe_pair(k: Seq<u8>, v: Seq<u8>) -> Seq<u8> {
    fe_bytes(k) + seq![61u8] + fe_bytes(v)
}

/// The encoded pairs of `fields`, joined by `&` in field order.
pub open spec fn fe_fields(fields: Seq<(String, String)>) -> Seq<u8>
    decreases fields.len(),
{
    if fields.len() == 0 {
        seq![]
    } else if fields.len() == 1 {
        fe_pair(str_bytes(fields[0].0@), str_bytes(fields[0].1@))
    } else {
        fe_fields(fields.drop_last()) + seq![38u8] + fe_pair(
            str_bytes(fields.last().0@),
            str_bytes(fields.last().1@),
        )
    }
}

/// Appends the form-urlencoding of one byte to `out`.
fn fe_push(out: &mut Vec<u8>, b: u8)
    ensures
        final(out)@ == old(out)@ + fe_byte(b),
{
    if (48 <= b && b <= 57) || (65 <= b && b <= 90) || (97 <= b && b <= 122) || b == 42 || b == 45
        || b == 46 || b == 95 {
        out.push(b);
        proof {
            assert(old(out)@.push(b) =~= old(out)@ + fe_byte(b));
        }
    } else if b == 32 {
        out.push(43);
        proof {
            assert(old(out)@.push(43u8) =~= old(out)@ + fe_byte(b));
        }
    } else {
        out.push(37);
        let hi = b / 16;
        let lo = b % 16;
        out.push(if hi < 10 {
            48 + hi
        } else {
            55 + hi
        });
        out.push(if lo < 10 {
            48 + lo
        } else {
            55 + lo
        });
        proof {
            assert(old(out)@.push(37u8).push(hex_digit(b as int / 16)).push(
                hex_digit(b as int % 16),
            ) =~= old(out)@ + fe_byte(b));
        }
    }
}

/// Appends the form-urlencoding of the byte string `b` to `out`.
fn fe_extend(out: &mut Vec<u8>, b: &[u8])
    ensures
        final(out)@ == old(out)@ + fe_bytes(b@),
{
    let n = b.len();
    let mut i: usize = 0;
    while i < n
        invariant
            n == b@.len(),
            i <= n,
            out@ == old(out)@ + fe_bytes(b@.subrange(0, i as int)),
        decreases n - i,
    {
        fe_push(out, b[i]);
        i += 1;
        proof {
            let pre = b@.subrange(0, i as int);
            assert(pre.drop_last() =~= b@.subrange(0, i - 1));
            assert(old(out)@ + (fe_bytes(pre.drop_last()) + fe_byte(pre.last())) =~= (old(out)@
                + fe_bytes(b@.subrange(0, i - 1))) + fe_byte(b@[i - 1]));
        }
    }
    proof {
        assert(b@.subrange(0, n as int) =~= b@);
    }
}

/// Encodes `fields` as an `application/x-www-form-urlencoded` body: each
/// key and value percent-encoded with `+` for a space, pairs joined by
/// `&` in field order.
pub fn form_urlencode(fields: &Vec<(String, String)>) -> (r: Vec<u8>)
    ensures
        r@ == fe_fields(fields@),
{
    let mut out: Vec<u8> = Vec::new();
    let n = fields.len();
    let mut i: usize = 0;
    while i < n
        invariant
            n == fields@.len(),
            i <= n,
            out@ == fe_fields(fields@.subrange(0, i as int)),
        decreases n - i,
    {
        if i > 0 {
            out.push(38);
        }
        fe_extend(&mut out, fields[i].0.as_str().as_bytes());
        out.push(61);
        fe_extend(&mut out, fields[i].1.as_str().as_bytes());
        i += 1;
        proof {
            let pre = fields@.subrange(0, i as int);
            assert(pre.drop_last() =~= fields@.subrange(0, i - 1));
            assert(pre.last() == fields@[i - 1]);
            if i == 1 {
                assert(out@ =~= fe_fields(pre));
            } else {
                assert(out@ =~= fe_fields(pre.drop_last()) + seq![38u8] + fe_pair(
                    str_bytes(pre.last().0@),
                    str_bytes(pre.last().1@),
                ));
            }
        }
    }
    proof {
        assert(fields@.subrange(0, n as int) =~= fields@);
    }
    out
}

/// The default content type of a file part that declares none.
pub open spec fn file_ct_or_default(ct: Option<String>) -> Seq<char> {
    match ct {
        Option::Some(c) => c@,
        Option::None => "application/octet-stream"@,
    }
}

/// The opening of any part: the boundary line and the start of its
/// `Content-Disposition` line, up to and with the field name.
pub open spec fn mp_head(name: Seq<char>, boundary: Seq<char>) -> Seq<u8> {
    str_bytes("--"@) + str_bytes(boundary) + str_bytes("\r\n"@) + str_bytes(
        "Content-Disposition: form-data; name=\""@,
    ) + str_bytes(name)
}

/// The rest of a text part: the closed name quote, a blank line, the
/// text, and a closing CRLF.
pub open spec fn mp_text_tail(t: Seq<char>) -> Seq<u8> {
    str_bytes("\"\r\n\r\n"@) + str_bytes(t) + str_bytes("\r\n"@)
}

/// The rest of a file part: the `filename` attribute, a `Content-Type`
/// line, a blank line, the payload, and a closing CRLF.
pub open spec fn mp_file_tail(filename: Seq<char>, ct: Seq<char>, data: Seq<u8>) -> Seq<u8> {
    str_bytes("\"; filename=\""@) + str_bytes(filename) + str_bytes("\"\r\n"@) + str_bytes(
        "Content-Type: "@,
    ) + str_bytes(ct) + str_bytes("\r\n\r\n"@) + data + str_bytes("\r\n"@)
}

/// One multipart part: the boundary line, a `Content-Disposition` line
/// (with a `filename` and a `Content-Type` line for file parts), the
/// payload, and a closing CRLF.
pub open spec fn mp_part(f: MultipartField, boundary: Seq<char>) -> Seq<u8> {
    match f.value {
        MultipartValue::Text(t) => mp_head(f.name@, boundary) + mp_text_tail(t@),
        MultipartValue::File { data, filename, content_type } => mp_head(f.name@, boundary)
            + mp_file_tail(filename@, file_ct_or_default(content_type), data@),
    }
}

/// The parts of `fields`, in order.
pub open spec fn mp_parts(fields: Seq<MultipartField>, boundary: Seq<char>) -> Seq<u8>
    decreases fields.len(),
{
    if fields.len() == 0 {
        seq![]
    } else {
        mp_parts(fields.drop_last(), boundary) + mp_part(fields.last(), boundary)
    }
}

/// A whole `multipart/form-data` body: every part, then the terminator
/// `--boundary--` line.
pub open spec fn multipart_bytes(fields: Seq<MultipartField>, boundary: Seq<char>) -> Seq<u8> {
    mp_parts(fields, boundary) + str_bytes("--"@) + str_bytes(boundary) + str_bytes("--\r\n"@)
}

/// Appends the opening of a part to `out`.
#[verifier::rlimit(100)]
fn write_head(out: &mut Vec<u8>, name: &str, boundary: &str)
    ensures
        final(out)@ == old(out)@ + mp_head(name@, boundary@),
{
    extend_str(out, "--");
    extend_str(out, boundary);
    extend_str(out, "\r\n");
    extend_str(out, "Content-Disposition: form-data; name=\"");
    extend_str(out, name);
    proof {
        assert(out@ =~= old(out)@ + mp_head(name@, boundary@));
    }
}

/// Appends the rest of a text part to `out`.
#[verifier::rlimit(100)]
fn write_text_tail(out: &mut Vec<u8>, t: &str)
    ensures
        final(out)@ == old(out)@ + mp_text_tail(t@),
{
    extend_str(out, "\"\r\n\r\n");
    extend_str(out, t);
    extend_str(out, "\r\n");
    proof {
        assert(out@ =~= old(out)@ + mp_text_tail(t@));
    }
}

/// Appends the rest of a file part to `out`.
#[verifier::rlimit(100)]
fn write_file_tail(out: &mut Vec<u8>, filename: &str, ct: &str, data: &[u8])
    ensures
        final(out)@ == old(out)@ + mp_file_tail(filename@, ct@, data@),
{
    extend_str(out, "\"; filename=\"");
    extend_str(out, filename);
    extend_str(out, "\"\r\n");
    extend_str(out, "Content-Type: ");
    extend_str(out, ct);
    extend_str(out, "\r\n\r\n");
    extend_bytes(out, data);
    extend_str(out, "\r\n");
    proof {
        assert(out@ =~= old(out)@ + mp_file_tail(filename@, ct@, data@));
    }
}

/// Appends one part of a multipart body to `out`.
fn write_part(out: &mut Vec<u8>, f: &MultipartField, boundary: &str)
    ensures
        final(out)@ == old(out)@ + mp_part(*f, boundary@),
{
    write_head(out, f.name.as_str(), boundary);
    match &f.value {
        MultipartValue::Text(t) => {
            write_text_tail(out, t.as_str());
            proof {
                assert(out@ =~= old(out)@ + mp_part(*f, boundary@));
            }
        },
        MultipartValue::File { data, filename, content_type } => {
            match content_type {
                Option::Some(ct) => write_file_tail(out, filename.as_str(), ct.as_str(), data.as_slice()),
                Option::None => write_file_tail(
                    out,
                    filename.as_str(),
                    "application/octet-stream",
                    data.as_slice(),
                ),
            }
            proof {
                assert(out@ =~= old(out)@ + mp_part(*f, boundary@));
            }
        },
    }
}

/// Encodes `fields` as a `multipart/form-data` body delimited by
/// `boundary`. The boundary must not occur inside any part's payload;
/// the engine does not check this (a known limitation of the format).
pub fn encode_multipart(fields: &Vec<MultipartField>, boundary: &str) -> (r: Vec<u8>)
    ensures
        r@ == multipart_bytes(fields@, boundary@),
{
    let mut out: Vec<u8> = Vec::new();
    let n = fields.len();
    let mut i: usize = 0;
    while i < n
        invariant
            n == fields@.len(),
            i <= n,
            out@ == mp_parts(fields@.subrange(0, i as int), boundary@),
        decreases n - i,
    {
        write_part(&mut out, &fields[i], boundary);
        i += 1;
        proof {
            let pre = fields@.subrange(0, i as int);
            assert(pre.drop_last() =~= fields@.subrange(0, i - 1));
            assert(pre.last() == fields@[i - 1]);
            assert(out@ =~= mp_parts(pre.drop_last(), boundary@) + mp_part(pre.last(), boundary@));
        }
    }
    extend_str(&mut out, "--");
    extend_str(&mut out, boundary);
    extend_str(&mut out, "--\r\n");
    proof {
        assert(fields@.subrange(0, n as int) =~= fields@);
        assert(out@ =~= multipart_bytes(fields@, boundary@));
    }
    out
}

/// The base64 encoding (standard alphabet, padded) of a byte string.
pub uninterp spec fn base64_of(b: Seq<u8>) -> Seq<char>;

/// Relies on `base64::engine::Engine::encode` with the `STANDARD`
/// engine: the padded standard-alphabet encoding, a function of the input
/// bytes alone; its length is four characters per three-byte group,
/// rounded up, and it is empty exactly for empty input.
#[verifier::external_body]
pub(crate) fn base64_encode(b: &Vec<u8>) -> (r: String)
    ensures
        r@ == base64_of(b@),
        r@.len() == 4 * ((b@.len() + 2) / 3),
{
    base64::engine::general_purpose::STANDARD.encode(b)
}

/// Relies on `std::time::SystemTime::now` and hex formatting: a token of
/// at most 24 ASCII characters drawn from the clock; distinct calls are
/// expected, not guaranteed, to yield distinct tokens.
#[verifier::external_body]
pub fn uuid_simple() -> (r: String)
    ensures
        r@.len() <= 24,
{
    let now = std::time::SystemTime::now()
        .duration_since(std::time::UNIX_EPOCH)
        .unwrap_or_default();
    format!("{:x}{:x}", now.as_secs(), now.subsec_nanos())
}

/// A fresh multipart boundary token: the customary WebKit-style prefix
/// followed by a clock-derived suffix.
pub fn gen_boundary() -> (r: String)
    ensures
        crate::text::starts_with(r@, "----WebKitFormBoundary"@),
{
    let prefix: String = String::from_str("----WebKitFormBoundary");
    let token = uuid_simple();
    let r = prefix.concat(token.as_str());
    proof {
        assert(r@.subrange(0, "----WebKitFormBoundary"@.len() as int) =~= "----WebKitFormBoundary"@);
    }
    r
}

} // verus!
