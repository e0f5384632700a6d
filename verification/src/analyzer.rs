//! The response analyzer: status text, timing and size breakdowns,
//! protocol normalization, header canonicalization, cookie extraction,
//! and renderer detection.

use vstd::prelude::*;
use crate::types::{Cookie, CookieModel, ResponseRenderer, SizeInfo, TimingInfo};
use crate::text::{
    chars_of, contains_ci, eq_ci, find_in_range, index_of, range_eq_ci, range_starts_with,
    starts_with, str_contains_ci, substring_of, trim_range, trim_spec,
};

verus! {

/// The decimal digit character for `d`.
pub open spec fn dec_digit(d: int) -> char {
    if d == 0 {
        '0'
    } else if d == 1 {
        '1'
    } else if d == 2 {
        '2'
    } else if d == 3 {
        '3'
    } else if d == 4 {
        '4'
    } else if d == 5 {
        '5'
    } else if d == 6 {
        '6'
    } else if d == 7 {
        '7'
    } else if d == 8 {
        '8'
    } else {
        '9'
    }
}

/// The decimal rendering of a non-negative integer, no leading zeros.
pub open spec fn dec_str(n: int) -> Seq<char>
    decreases n,
{
    if n < 10 {
        seq![dec_digit(n)]
    } else {
        dec_str(n / 10) + seq![dec_digit(n % 10)]
    }
}

/// The decimal digit character for `d`, as a string.
fn dec_digit_str(d: u16) -> (r: &'static str)
    requires
        d < 10,
    ensures
        r@ == seq![dec_digit(d as int)],
{
    let r: &'static str = match d {
        0 => "0",
        1 => "1",
        2 => "2",
        3 => "3",
        4 => "4",
        5 => "5",
        6 => "6",
        7 => "7",
        8 => "8",
        _ => "9",
    };
    proof {
        reveal_strlit("0");
        reveal_strlit("1");
        reveal_strlit("2");
        reveal_strlit("3");
        reveal_strlit("4");
        reveal_strlit("5");
        reveal_strlit("6");
        reveal_strlit("7");
        reveal_strlit("8");
        reveal_strlit("9");
        assert(r@ =~= seq![dec_digit(d as int)]);
    }
    r
}

/// The decimal rendering of `n`.
pub fn dec_u16(n: u16) -> (r: String)
    ensures
        r@ == dec_str(n as int),
    decreases n,
{
    if n < 10 {
        dec_digit_str(n).to_owned()
    } else {
        let r = dec_u16(n / 10).concat(dec_digit_str(n % 10));
        proof {
            assert(r@ =~= dec_str(n as int));
        }
        r
    }
}

/// The reason phrase of a well-known status code; an unknown code renders
/// as `Status {code}`.
pub open spec fn status_text_spec(status: u16) -> Seq<char> {
    if status == 100 {
        "Continue"@
    } else if status == 101 {
        "Switching Protocols"@
    } else if status == 200 {
        "OK"@
    } else if status == 201 {
        "Created"@
    } else if status == 202 {
        "Accepted"@
    } else if status == 204 {
        "No Content"@
    } else if status == 206 {
        "Partial Content"@
    } else if status == 301 {
        "Moved Permanently"@
    } else if status == 302 {
        "Found"@
    } else if status == 303 {
        "See Other"@
    } else if status == 304 {
        "Not Modified"@
    } else if status == 307 {
        "Temporary Redirect"@
    } else if status == 308 {
        "Permanent Redirect"@
    } else if status == 400 {
        "Bad Request"@
    } else if status == 401 {
        "Unauthorized"@
    } else if status == 403 {
        "Forbidden"@
    } else if status == 404 {
        "Not Found"@
    } else if status == 405 {
        "Method Not Allowed"@
    } else if status == 408 {
        "Request Timeout"@
    } else if status == 409 {
        "Conflict"@
    } else if status == 410 {
        "Gone"@
    } else if status == 413 {
        "Payload Too Large"@
    } else if status == 414 {
        "URI Too Long"@
    } else if status == 415 {
        "Unsupported Media Type"@
    } else if status == 422 {
        "Unprocessable Entity"@
    } else if status == 429 {
        "Too Many Requests"@
    } else if status == 500 {
        "Internal Server Error"@
    } else if status == 501 {
        "Not Implemented"@
    } else if status == 502 {
        "Bad Gateway"@
    } else if status == 503 {
        "Service Unavailable"@
    } else if status == 504 {
        "Gateway Timeout"@
    } else {
        "Status "@ + dec_str(status as int)
    }
}

/// The reason phrase for `status`.
pub fn status_text(status: u16) -> (r: String)
    ensures
        r@ == status_text_spec(status),
{
    match status {
        100 => String::from_str("Continue"),
        101 => String::from_str("Switching Protocols"),
        200 => String::from_str("OK"),
        201 => String::from_str("Created"),
        202 => String::from_str("Accepted"),
        204 => String::from_str("No Content"),
        206 => String::from_str("Partial Content"),
        301 => String::from_str("Moved Permanently"),
        302 => String::from_str("Found"),
        303 => String::from_str("See Other"),
        304 => String::from_str("Not Modified"),
        307 => String::from_str("Temporary Redirect"),
        308 => String::from_str("Permanent Redirect"),
        400 => String::from_str("Bad Request"),
        401 => String::from_str("Unauthorized"),
        403 => String::from_str("Forbidden"),
        404 => String::from_str("Not Found"),
        405 => String::from_str("Method Not Allowed"),
        408 => String::from_str("Request Timeout"),
        409 => String::from_str("Conflict"),
        410 => String::from_str("Gone"),
        413 => String::from_str("Payload Too Large"),
        414 => String::from_str("URI Too Long"),
        415 => String::from_str("Unsupported Media Type"),
        422 => String::from_str("Unprocessable Entity"),
        429 => String::from_str("Too Many Requests"),
        500 => String::from_str("Internal Server Error"),
        501 => String::from_str("Not Implemented"),
        502 => String::from_str("Bad Gateway"),
        503 => String::from_str("Service Unavailable"),
        504 => String::from_str("Gateway Timeout"),
        _ => String::from_str("Status ").concat(dec_u16(status).as_str()),
    }
}

/// `a - b`, clamped to zero: phase boundaries can be measured out of
/// order for non-TLS or cached connections.
pub open spec fn csub(a: int, b: int) -> int {
    if a >= b {
        a - b
    } else {
        0
    }
}

/// The timing signals a transport exposes: per-phase timestamps measured
/// from request start (the rich contract), or a single wall-clock total
/// (the reduced contract). All values are in milliseconds.
#[derive(Clone, Copy, PartialEq, Eq, Structural, Debug)]
pub enum TransportTiming {
    Phases {
        dns_ms: u64,
        connect_ms: u64,
        tls_ms: u64,
        pretransfer_ms: u64,
        firstbyte_ms: u64,
        total_ms: u64,
    },
    TotalOnly { total_ms: u64 },
}

/// The derived timing breakdown of the phase timestamps `t`. Under the
/// reduced contract every sub-phase is zero.
pub open spec fn timing_spec(t: TransportTiming) -> TimingInfo {
    match t {
        TransportTiming::Phases { dns_ms, connect_ms, tls_ms, pretransfer_ms, firstbyte_ms, total_ms } => TimingInfo {
            total_ms,
            dns_lookup_ms: dns_ms,
            tcp_handshake_ms: csub(connect_ms as int, dns_ms as int) as u64,
            tls_handshake_ms: csub(tls_ms as int, connect_ms as int) as u64,
            transfer_start_ms: csub(pretransfer_ms as int, tls_ms as int) as u64,
            ttfb_ms: csub(firstbyte_ms as int, pretransfer_ms as int) as u64,
            content_download_ms: csub(total_ms as int, firstbyte_ms as int) as u64,
        },
        TransportTiming::TotalOnly { total_ms } => TimingInfo {
            total_ms,
            dns_lookup_ms: 0,
            tcp_handshake_ms: 0,
            tls_handshake_ms: 0,
            transfer_start_ms: 0,
            ttfb_ms: 0,
            content_download_ms: 0,
        },
    }
}

/// Derives the timing breakdown from the transport's timing signals.
pub fn derive_timing(t: &TransportTiming) -> (r: TimingInfo)
    ensures
        r == timing_spec(*t),
{
    match t {
        TransportTiming::Phases { dns_ms, connect_ms, tls_ms, pretransfer_ms, firstbyte_ms, total_ms } => TimingInfo {
            total_ms: *total_ms,
            dns_lookup_ms: *dns_ms,
            tcp_handshake_ms: if *connect_ms >= *dns_ms {
                *connect_ms - *dns_ms
            } else {
                0
            },
            tls_handshake_ms: if *tls_ms >= *connect_ms {
                *tls_ms - *connect_ms
            } else {
                0
            },
            transfer_start_ms: if *pretransfer_ms >= *tls_ms {
                *pretransfer_ms - *tls_ms
            } else {
                0
            },
            ttfb_ms: if *firstbyte_ms >= *pretransfer_ms {
                *firstbyte_ms - *pretransfer_ms
            } else {
                0
            },
            content_download_ms: if *total_ms >= *firstbyte_ms {
                *total_ms - *firstbyte_ms
            } else {
                0
            },
        },
        TransportTiming::TotalOnly { total_ms } => TimingInfo {
            total_ms: *total_ms,
            dns_lookup_ms: 0,
            tcp_handshake_ms: 0,
            tls_handshake_ms: 0,
            transfer_start_ms: 0,
            ttfb_ms: 0,
            content_download_ms: 0,
        },
    }
}

/// `a + b`, clamped to the largest representable value.
pub open spec fn sat_add(a: int, b: int) -> int {
    if a + b > u64::MAX {
        u64::MAX as int
    } else {
        a + b
    }
}

/// Adds two byte counts, saturating.
pub fn sat_add_u64(a: u64, b: u64) -> (r: u64)
    ensures
        r as int == sat_add(a as int, b as int),
{
    if a <= u64::MAX - b {
        a + b
    } else {
        u64::MAX
    }
}

/// The size record for `headers_bytes` header bytes and `body_bytes`
/// body bytes; the total saturates.
pub open spec fn size_spec(headers_bytes: int, body_bytes: int) -> SizeInfo {
    SizeInfo {
        headers_bytes: headers_bytes as u64,
        body_bytes: body_bytes as u64,
        total_bytes: sat_add(headers_bytes, body_bytes) as u64,
    }
}

/// Builds a size record from header and body byte counts.
pub fn size_info(headers_bytes: u64, body_bytes: u64) -> (r: SizeInfo)
    ensures
        r == size_spec(headers_bytes as int, body_bytes as int),
{
    SizeInfo { headers_bytes, body_bytes, total_bytes: sat_add_u64(headers_bytes, body_bytes) }
}

/// The normalized protocol label: any version string naming 3 is
/// reported as HTTP/3, else one naming 2 as HTTP/2, else verbatim.
pub open spec fn protocol_spec(version: Seq<char>) -> Seq<char> {
    if version.contains('3') {
        "HTTP/3"@
    } else if version.contains('2') {
        "HTTP/2"@
    } else {
        version
    }
}

/// Whether `c` occurs in `cs`.
fn has_char(cs: &Vec<char>, c: char) -> (r: bool)
    ensures
        r == cs@.contains(c),
{
    let n = cs.len();
    let mut i: usize = 0;
    while i < n
        invariant
            n == cs@.len(),
            i <= n,
            forall|k: int| 0 <= k < i ==> cs@[k] != c,
        decreases n - i,
    {
        if cs[i] == c {
            return true;
        }
        i += 1;
    }
    false
}

/// Normalizes a raw HTTP version string to a protocol label.
pub fn normalize_protocol(version: &str) -> (r: String)
    ensures
        r@ == protocol_spec(version@),
{
    let cs = chars_of(version);
    if has_char(&cs, '3') {
        String::from_str("HTTP/3")
    } else if has_char(&cs, '2') {
        String::from_str("HTTP/2")
    } else {
        version.to_owned()
    }
}

/// One `Set-Cookie` attribute applied to a cookie under construction:
/// `Domain`, `Path` and `Expires` take the attribute's trimmed value,
/// `HttpOnly` and `Secure` set their flag, anything else is ignored.
/// Attribute names compare ASCII-case-insensitively.
pub open spec fn attr_step(ck: CookieModel, part: Seq<char>) -> CookieModel {
    let e = index_of(part, '=');
    let aname = if e < 0 {
        trim_spec(part)
    } else {
        trim_spec(part.subrange(0, e))
    };
    let aval = if e < 0 {
        Option::<Seq<char>>::None
    } else {
        Option::Some(trim_spec(part.subrange(e + 1, part.len() as int)))
    };
    if eq_ci(aname, "domain"@) {
        CookieModel { domain: aval, ..ck }
    } else if eq_ci(aname, "path"@) {
        CookieModel { path: aval, ..ck }
    } else if eq_ci(aname, "expires"@) {
        CookieModel { expires: aval, ..ck }
    } else if eq_ci(aname, "httponly"@) {
        CookieModel { http_only: Option::Some(true), ..ck }
    } else if eq_ci(aname, "secure"@) {
        CookieModel { secure: Option::Some(true), ..ck }
    } else {
        ck
    }
}

/// The attribute list `s` (the text after the first `;`), split on `;`
/// and applied to `ck` left to right.
pub open spec fn cookie_attrs(s: Seq<char>, ck: CookieModel) -> CookieModel
    decreases s.len(),
{
    let k = index_of(s, ';');
    if 0 <= k < s.len() {
        cookie_attrs(s.subrange(k + 1, s.len() as int), attr_step(ck, s.subrange(0, k)))
    } else {
        attr_step(ck, s)
    }
}

/// The cookie a `Set-Cookie` header value parses to: the first
/// `;`-segment must hold `name=value` (both trimmed), the remaining
/// segments are attributes; a first segment with no `=` yields none.
pub open spec fn set_cookie_spec(s: Seq<char>) -> Option<CookieModel> {
    let k = index_of(s, ';');
    let first = if 0 <= k < s.len() {
        s.subrange(0, k)
    } else {
        s
    };
    let e = index_of(first, '=');
    if e < 0 {
        Option::None
    } else {
        let base = CookieModel {
            name: trim_spec(first.subrange(0, e)),
            value: trim_spec(first.subrange(e + 1, first.len() as int)),
            domain: Option::None,
            path: Option::None,
            expires: Option::None,
            http_only: Option::None,
            secure: Option::None,
        };
        if 0 <= k < s.len() {
            Option::Some(cookie_attrs(s.subrange(k + 1, s.len() as int), base))
        } else {
            Option::Some(base)
        }
    }
}

/// Applies the attribute in `[lo, hi)` of `cs` to `ck`.
fn apply_attr(ck: &mut Cookie, raw: &str, cs: &Vec<char>, lo: usize, hi: usize)
    requires
        cs@ == raw@,
        lo <= hi <= cs@.len(),
    ensures
        final(ck)@ == attr_step(old(ck)@, cs@.subrange(lo as int, hi as int)),
{
    let ghost part = cs@.subrange(lo as int, hi as int);
    let e_opt = find_in_range(cs, lo, hi, '=');
    let name_end = match e_opt {
        Option::Some(e) => e,
        Option::None => hi,
    };
    proof {
        if e_opt is Some {
            assert(part.subrange(0, index_of(part, '=')) =~= cs@.subrange(
                lo as int,
                name_end as int,
            ));
        }
    }
    let (alo, ahi) = trim_range(cs, lo, name_end);
    let aval: Option<String> = match e_opt {
        Option::Some(e) => {
            proof {
                assert(part.subrange(index_of(part, '=') + 1, part.len() as int) =~= cs@.subrange(
                    e + 1 as int,
                    hi as int,
                ));
            }
            let (vlo, vhi) = trim_range(cs, e + 1, hi);
            Option::Some(substring_of(raw, vlo, vhi))
        },
        Option::None => Option::None,
    };
    let dn = chars_of("domain");
    let pn = chars_of("path");
    let en = chars_of("expires");
    let hn = chars_of("httponly");
    let sn = chars_of("secure");
    if range_eq_ci(cs, alo, ahi, &dn, 0, dn.len()) {
        ck.domain = aval;
    } else if range_eq_ci(cs, alo, ahi, &pn, 0, pn.len()) {
        ck.path = aval;
    } else if range_eq_ci(cs, alo, ahi, &en, 0, en.len()) {
        ck.expires = aval;
    } else if range_eq_ci(cs, alo, ahi, &hn, 0, hn.len()) {
        ck.http_only = Option::Some(true);
    } else if range_eq_ci(cs, alo, ahi, &sn, 0, sn.len()) {
        ck.secure = Option::Some(true);
    }
    proof {
        assert(dn@.subrange(0, dn@.len() as int) =~= "domain"@);
        assert(pn@.subrange(0, pn@.len() as int) =~= "path"@);
        assert(en@.subrange(0, en@.len() as int) =~= "expires"@);
        assert(hn@.subrange(0, hn@.len() as int) =~= "httponly"@);
        assert(sn@.subrange(0, sn@.len() as int) =~= "secure"@);
    }
}

/// Applies every attribute of `cs` from `pos` on (split on `;`) to `ck`.
fn apply_attrs(ck: &mut Cookie, raw: &str, cs: &Vec<char>, pos: usize)
    requires
        cs@ == raw@,
        pos <= cs@.len(),
    ensures
        final(ck)@ == cookie_attrs(cs@.subrange(pos as int, cs@.len() as int), old(ck)@),
    decreases cs@.len() - pos,
{
    let ghost t = cs@.subrange(pos as int, cs@.len() as int);
    let n = cs.len();
    match find_in_range(cs, pos, n, ';') {
        Option::Some(k) => {
            proof {
                assert(t.subrange(0, index_of(t, ';')) =~= cs@.subrange(pos as int, k as int));
            }
            apply_attr(ck, raw, cs, pos, k);
            apply_attrs(ck, raw, cs, k + 1);
            proof {
                assert(t.subrange(index_of(t, ';') + 1, t.len() as int) =~= cs@.subrange(
                    k + 1 as int,
                    cs@.len() as int,
                ));
            }
        },
        Option::None => {
            apply_attr(ck, raw, cs, pos, n);
        },
    }
}

/// Parses one `Set-Cookie` header value into a cookie, or nothing when
/// its first segment carries no `=`.
pub fn parse_set_cookie(header_value: &str) -> (r: Option<Cookie>)
    ensures
        match r {
            Option::Some(ck) => set_cookie_spec(header_value@) == Option::Some(ck@),
            Option::None => set_cookie_spec(header_value@) is None,
        },
{
    let cs = chars_of(header_value);
    let n = cs.len();
    proof {
        assert(cs@.subrange(0, n as int) =~= cs@);
    }
    let k_opt = find_in_range(&cs, 0, n, ';');
    let first_end = match k_opt {
        Option::Some(k) => k,
        Option::None => n,
    };
    proof {
        if k_opt is Some {
            assert(cs@.subrange(0, index_of(cs@, ';')) =~= cs@.subrange(0, first_end as int));
        }
    }
    let e_opt = find_in_range(&cs, 0, first_end, '=');
    match e_opt {
        Option::None => Option::None,
        Option::Some(e) => {
            let ghost first = cs@.subrange(0, first_end as int);
            proof {
                assert(first.subrange(0, index_of(first, '=')) =~= cs@.subrange(0, e as int));
                assert(first.subrange(index_of(first, '=') + 1, first.len() as int) =~= cs@
                    .subrange(e + 1 as int, first_end as int));
            }
            let (nlo, nhi) = trim_range(&cs, 0, e);
            let name = substring_of(header_value, nlo, nhi);
            let (vlo, vhi) = trim_range(&cs, e + 1, first_end);
            let value = substring_of(header_value, vlo, vhi);
            let mut ck = Cookie {
                name,
                value,
                domain: Option::None,
                path: Option::None,
                expires: Option::None,
                http_only: Option::None,
                secure: Option::None,
            };
            match k_opt {
                Option::Some(k) => {
                    apply_attrs(&mut ck, header_value, &cs, k + 1);
                },
                Option::None => {},
            }
            Option::Some(ck)
        },
    }
}

/// The mathematical model of a scanned header block: the HTTP version
/// line's first token, the canonicalized header pairs, and the extracted
/// cookies.
pub ghost struct HeaderState {
    pub version: Seq<char>,
    pub headers: Seq<(Seq<char>, Seq<char>)>,
    pub cookies: Seq<CookieModel>,
}

/// `l` without one trailing carriage return.
pub open spec fn strip_cr(l: Seq<char>) -> Seq<char> {
    if l.len() > 0 && l.last() == '\r' {
        l.drop_last()
    } else {
        l
    }
}

/// The first space-delimited token of a status line.
pub open spec fn version_token(line: Seq<char>) -> Seq<char> {
    let k = index_of(line, ' ');
    if 0 <= k < line.len() {
        line.subrange(0, k)
    } else {
        line
    }
}

/// The least index `>= from` of a pair whose name equals `name`
/// (case-sensitive), or `-1`.
pub open spec fn key_index(hs: Seq<(Seq<char>, Seq<char>)>, name: Seq<char>, from: int) -> int
    decreases hs.len() - from,
{
    if from < 0 || from >= hs.len() {
        -1
    } else if hs[from].0 == name {
        from
    } else {
        key_index(hs, name, from + 1)
    }
}

pub proof fn lemma_key_index_props(hs: Seq<(Seq<char>, Seq<char>)>, name: Seq<char>, from: int)
    requires
        0 <= from <= hs.len(),
    ensures
        key_index(hs, name, from) == -1 ==> forall|k: int| from <= k < hs.len() ==> hs[k].0 != name,
        key_index(hs, name, from) != -1 ==> {
            let j = key_index(hs, name, from);
            &&& from <= j < hs.len()
            &&& hs[j].0 == name
            &&& forall|k: int| from <= k < j ==> hs[k].0 != name
        },
    decreases hs.len() - from,
{
    if from < hs.len() && hs[from].0 != name {
        lemma_key_index_props(hs, name, from + 1);
    }
}

/// `hs` with `value` recorded under `name`: appended to the first pair
/// already named `name` with a `", "` separator, or pushed as a new pair.
pub open spec fn merge_header(
    hs: Seq<(Seq<char>, Seq<char>)>,
    name: Seq<char>,
    value: Seq<char>,
) -> Seq<(Seq<char>, Seq<char>)> {
    let j = key_index(hs, name, 0);
    if 0 <= j < hs.len() {
        hs.update(j, (hs[j].0, hs[j].1 + ", "@ + value))
    } else {
        hs.push((name, value))
    }
}

/// One line of the raw header block applied to the scan state: a line
/// opening with the protocol marker sets the version, a line with a `:`
/// records a header (and, for `Set-Cookie`, a cookie), anything else is
/// ignored.
pub open spec fn line_step(st: HeaderState, line: Seq<char>) -> HeaderState {
    if starts_with(line, "HTTP/"@) {
        HeaderState { version: version_token(line), ..st }
    } else {
        let c = index_of(line, ':');
        if c < 0 {
            st
        } else {
            let name = trim_spec(line.subrange(0, c));
            let value = trim_spec(line.subrange(c + 1, line.len() as int));
            HeaderState {
                version: st.version,
                headers: merge_header(st.headers, name, value),
                cookies: if eq_ci(name, "set-cookie"@) {
                    match set_cookie_spec(value) {
                        Option::Some(ck) => st.cookies.push(ck),
                        Option::None => st.cookies,
                    }
                } else {
                    st.cookies
                },
            }
        }
    }
}

/// The scan state after every line of `s` (split on `\n`, one trailing
/// `\r` stripped per line) is applied to `st` in order.
pub open spec fn parse_lines_from(s: Seq<char>, st: HeaderState) -> HeaderState
    decreases s.len(),
{
    let k = index_of(s, '\n');
    if 0 <= k < s.len() {
        parse_lines_from(s.subrange(k + 1, s.len() as int), line_step(st, strip_cr(s.subrange(0, k))))
    } else {
        line_step(st, strip_cr(s))
    }
}

/// The canonicalized scan of a raw header block: version defaulting to
/// HTTP/1.1, headers merged in first-seen order, cookies in
/// header-appearance order.
pub open spec fn header_block_spec(s: Seq<char>) -> HeaderState {
    parse_lines_from(
        s,
        HeaderState { version: "HTTP/1.1"@, headers: Seq::empty(), cookies: Seq::empty() },
    )
}

/// The result of scanning a raw response header block.
pub struct HeaderScan {
    pub version: String,
    pub headers: Vec<(String, String)>,
    pub cookies: Vec<Cookie>,
}

impl View for HeaderScan {
    type V = HeaderState;

    open spec fn view(&self) -> HeaderState {
        HeaderState {
            version: self.version@,
            headers: crate::types::kv_views(self.headers@),
            cookies: crate::types::cookie_models(self.cookies@),
        }
    }
}

/// The first index of a header pair named `name`, case-sensitively.
fn find_key(hs: &Vec<(String, String)>, name: &String) -> (r: Option<usize>)
    ensures
        match r {
            Option::Some(j) => key_index(crate::types::kv_views(hs@), name@, 0) == j,
            Option::None => key_index(crate::types::kv_views(hs@), name@, 0) == -1,
        },
{
    let ghost m = crate::types::kv_views(hs@);
    let n = hs.len();
    let mut j: usize = 0;
    while j < n
        invariant
            n == hs@.len(),
            m == crate::types::kv_views(hs@),
            j <= n,
            forall|k: int| 0 <= k < j ==> m[k].0 != name@,
        decreases n - j,
    {
        if hs[j].0.eq(name) {
            proof {
                lemma_key_index_props(m, name@, 0);
                assert(m[j as int].0 == name@);
            }
            return Option::Some(j);
        }
        proof {
            assert(m[j as int].0 == hs@[j as int].0@);
        }
        j += 1;
    }
    proof {
        lemma_key_index_props(m, name@, 0);
    }
    Option::None
}

/// Applies one header line (already stripped of its CR) to the scan.
#[verifier::rlimit(100)]
fn process_line(st: &mut HeaderScan, raw: &str, cs: &Vec<char>, lo: usize, hi: usize)
    requires
        cs@ == raw@,
        lo <= hi <= cs@.len(),
    ensures
        final(st)@ == line_step(old(st)@, cs@.subrange(lo as int, hi as int)),
{
    let ghost line = cs@.subrange(lo as int, hi as int);
    let marker = chars_of("HTTP/");
    if range_starts_with(cs, lo, hi, &marker) {
        let sp = find_in_range(cs, lo, hi, ' ');
        let vend = match sp {
            Option::Some(k) => k,
            Option::None => hi,
        };
        proof {
            if sp is Some {
                assert(line.subrange(0, index_of(line, ' ')) =~= cs@.subrange(
                    lo as int,
                    vend as int,
                ));
            }
        }
        st.version = substring_of(raw, lo, vend);
    } else {
        let colon = find_in_range(cs, lo, hi, ':');
        match colon {
            Option::None => {},
            Option::Some(c) => {
                proof {
                    assert(line.subrange(0, index_of(line, ':')) =~= cs@.subrange(
                        lo as int,
                        c as int,
                    ));
                    assert(line.subrange(index_of(line, ':') + 1, line.len() as int) =~= cs@
                        .subrange(c + 1 as int, hi as int));
                }
                let (nlo, nhi) = trim_range(cs, lo, c);
                let name = substring_of(raw, nlo, nhi);
                let (vlo, vhi) = trim_range(cs, c + 1, hi);
                let value = substring_of(raw, vlo, vhi);
                let sc = chars_of("set-cookie");
                let ghost name_s = name@;
                let ghost value_s = value@;
                if range_eq_ci(cs, nlo, nhi, &sc, 0, sc.len()) {
                    proof {
                        assert(sc@.subrange(0, sc@.len() as int) =~= "set-cookie"@);
                    }
                    match parse_set_cookie(value.as_str()) {
                        Option::Some(ck) => {
                            st.cookies.push(ck);
                            proof {
                                assert(crate::types::cookie_models(st.cookies@) =~~= crate::types::cookie_models(
                                    old(st).cookies@,
                                ).push(st.cookies@.last()@));
                            }
                        },
                        Option::None => {},
                    }
                } else {
                    proof {
                        assert(sc@.subrange(0, sc@.len() as int) =~= "set-cookie"@);
                    }
                }
                let ghost hs0 = crate::types::kv_views(st.headers@);
                match find_key(&st.headers, &name) {
                    Option::Some(j) => {
                        proof {
                            lemma_key_index_props(hs0, name_s, 0);
                            assert(hs0.len() == st.headers@.len());
                        }
                        let merged = st.headers[j].1.clone().concat(", ").concat(value.as_str());
                        let kept = st.headers[j].0.clone();
                        st.headers.set(j, (kept, merged));
                        proof {
                            lemma_key_index_props(hs0, name_s, 0);
                            assert(crate::types::kv_views(st.headers@) =~~= hs0.update(
                                j as int,
                                (hs0[j as int].0, hs0[j as int].1 + ", "@ + value_s),
                            ));
                        }
                    },
                    Option::None => {
                        st.headers.push((name, value));
                        proof {
                            assert(crate::types::kv_views(st.headers@) =~~= hs0.push(
                                (name_s, value_s),
                            ));
                        }
                    },
                }
            },
        }
    }
}

/// Applies every line of `cs` from `pos` on to the scan.
fn scan_lines(st: &mut HeaderScan, raw: &str, cs: &Vec<char>, pos: usize)
    requires
        cs@ == raw@,
        pos <= cs@.len(),
    ensures
        final(st)@ == parse_lines_from(cs@.subrange(pos as int, cs@.len() as int), old(st)@),
    decreases cs@.len() - pos,
{
    let ghost t = cs@.subrange(pos as int, cs@.len() as int);
    let n = cs.len();
    match find_in_range(cs, pos, n, '\n') {
        Option::Some(k) => {
            let line_hi = if k > pos && cs[k - 1] == '\r' {
                k - 1
            } else {
                k
            };
            proof {
                assert(t.subrange(0, index_of(t, '\n')) =~= cs@.subrange(pos as int, k as int));
                assert(strip_cr(cs@.subrange(pos as int, k as int)) =~= cs@.subrange(
                    pos as int,
                    line_hi as int,
                ));
            }
            process_line(st, raw, cs, pos, line_hi);
            scan_lines(st, raw, cs, k + 1);
            proof {
                assert(t.subrange(index_of(t, '\n') + 1, t.len() as int) =~= cs@.subrange(
                    k + 1 as int,
                    cs@.len() as int,
                ));
            }
        },
        Option::None => {
            let line_hi = if n > pos && cs[n - 1] == '\r' {
                n - 1
            } else {
                n
            };
            proof {
                assert(strip_cr(t) =~= cs@.subrange(pos as int, line_hi as int));
            }
            process_line(st, raw, cs, pos, line_hi);
        },
    }
}

/// Scans a raw response header block: the version line sets
/// `http_version`, other lines split on the first `:` with both sides
/// trimmed; repeated names are merged with `", "`, and every
/// `Set-Cookie` line is parsed into a cookie.
pub fn parse_header_block(raw: &str) -> (r: HeaderScan)
    ensures
        r@ == header_block_spec(raw@),
{
    let cs = chars_of(raw);
    let mut st = HeaderScan {
        version: String::from_str("HTTP/1.1"),
        headers: Vec::new(),
        cookies: Vec::new(),
    };
    proof {
        assert(crate::types::kv_views(st.headers@) =~~= Seq::<(Seq<char>, Seq<char>)>::empty());
        assert(crate::types::cookie_models(st.cookies@) =~~= Seq::<CookieModel>::empty());
    }
    scan_lines(&mut st, raw, &cs, 0);
    proof {
        assert(cs@.subrange(0, cs@.len() as int) =~= cs@);
    }
    st
}

/// Whether the bytes parse as one JSON document.
pub uninterp spec fn json_parses(b: Seq<u8>) -> bool;

/// Relies on `serde_json::from_slice::<serde_json::Value>`: whether the
/// bytes parse as one JSON document, a function of the bytes alone.
#[verifier::external_body]
fn json_valid(b: &[u8]) -> (r: bool)
    ensures
        r == json_parses(b@),
{
    serde_json::from_slice::<serde_json::Value>(b).is_ok()
}

/// The content type to match against: the header's value, or empty when
/// the header is absent.
pub open spec fn ct_or_empty(ct: Option<Seq<char>>) -> Seq<char> {
    match ct {
        Option::Some(c) => c,
        Option::None => Seq::empty(),
    }
}

/// An ASCII whitespace byte.
pub open spec fn is_ws_byte(b: u8) -> bool {
    b == 9 || b == 10 || b == 11 || b == 12 || b == 13 || b == 32
}

/// `b` without its leading whitespace bytes.
pub open spec fn skip_ws_bytes(b: Seq<u8>) -> Seq<u8>
    decreases b.len(),
{
    if b.len() > 0 && is_ws_byte(b[0]) {
        skip_ws_bytes(b.drop_first())
    } else {
        b
    }
}

/// `b` starts with `p`.
pub open spec fn bytes_start(b: Seq<u8>, p: Seq<u8>) -> bool {
    p.len() <= b.len() && b.subrange(0, p.len() as int) == p
}

/// The bytes of `<?xml`.
pub open spec fn xml_decl_bytes() -> Seq<u8> {
    seq![60u8, 63u8, 120u8, 109u8, 108u8]
}

/// The bytes of `<!DOCTYPE html`.
pub open spec fn doctype_bytes() -> Seq<u8> {
    seq![60u8, 33u8, 68u8, 79u8, 67u8, 84u8, 89u8, 80u8, 69u8, 32u8, 104u8, 116u8, 109u8, 108u8]
}

/// The bytes of `<html`.
pub open spec fn html_tag_bytes() -> Seq<u8> {
    seq![60u8, 104u8, 116u8, 109u8, 108u8]
}

/// Content sniffing on the body alone: after leading whitespace, an XML
/// declaration marks XML and an HTML document marker marks HTML.
pub open spec fn sniff_tags(body: Seq<u8>) -> Seq<ResponseRenderer> {
    let t = skip_ws_bytes(body);
    if bytes_start(t, xml_decl_bytes()) {
        seq![ResponseRenderer::Xml]
    } else if bytes_start(t, doctype_bytes()) || bytes_start(t, html_tag_bytes()) {
        seq![ResponseRenderer::Html, ResponseRenderer::HtmlPreview]
    } else {
        Seq::empty()
    }
}

/// The JSON segment of the renderer list: JSON is offered when the
/// content type names it, or when no such naming exists and the body
/// opens with `{` or `[` — and, either way, only when the body parses.
pub open spec fn json_segment(c: Seq<char>, body: Seq<u8>, json_ok: bool) -> Seq<
    ResponseRenderer,
> {
    if contains_ci(c, "application/json"@) || contains_ci(c, "+json"@) {
        if json_ok {
            seq![ResponseRenderer::Json]
        } else {
            Seq::empty()
        }
    } else if body.len() > 0 && (body[0] == 123 || body[0] == 91) {
        if json_ok {
            seq![ResponseRenderer::Json]
        } else {
            Seq::empty()
        }
    } else {
        Seq::empty()
    }
}

/// The markup segment: HTML types beat XML types; with neither declared
/// the body is sniffed.
pub open spec fn markup_segment(c: Seq<char>, body: Seq<u8>) -> Seq<ResponseRenderer> {
    if contains_ci(c, "text/html"@) || contains_ci(c, "application/xhtml"@) {
        seq![ResponseRenderer::Html, ResponseRenderer::HtmlPreview]
    } else if contains_ci(c, "application/xml"@) || contains_ci(c, "text/xml"@) || contains_ci(
        c,
        "+xml"@,
    ) {
        seq![ResponseRenderer::Xml]
    } else {
        sniff_tags(body)
    }
}

/// The media segment: image, PDF, audio and video tags drawn from the
/// content type, in that order.
pub open spec fn media_segment(c: Seq<char>) -> Seq<ResponseRenderer> {
    (if contains_ci(c, "image/png"@) || contains_ci(c, "image/jpeg"@) || contains_ci(
        c,
        "image/gif"@,
    ) || contains_ci(c, "image/webp"@) || contains_ci(c, "image/svg"@) || contains_ci(
        c,
        "image/bmp"@,
    ) || contains_ci(c, "image/ico"@) {
        seq![ResponseRenderer::Image]
    } else {
        Seq::empty()
    }) + (if contains_ci(c, "application/pdf"@) {
        seq![ResponseRenderer::Pdf]
    } else {
        Seq::empty()
    }) + (if contains_ci(c, "audio/"@) {
        seq![ResponseRenderer::Audio]
    } else {
        Seq::empty()
    }) + (if contains_ci(c, "video/"@) {
        seq![ResponseRenderer::Video]
    } else {
        Seq::empty()
    })
}

/// The full renderer list: `Raw` always and first, then the JSON,
/// markup and media segments.
pub open spec fn renderers_spec(ct: Option<Seq<char>>, body: Seq<u8>, json_ok: bool) -> Seq<
    ResponseRenderer,
> {
    let c = ct_or_empty(ct);
    seq![ResponseRenderer::Raw] + json_segment(c, body, json_ok) + markup_segment(c, body)
        + media_segment(c)
}

/// Whether `b` is an ASCII whitespace byte.
fn is_ws_byte_x(b: u8) -> (r: bool)
    ensures
        r == is_ws_byte(b),
{
    b == 9 || b == 10 || b == 11 || b == 12 || b == 13 || b == 32
}

/// The length of the whitespace prefix of `b`.
fn ws_prefix_len(b: &[u8]) -> (i: usize)
    ensures
        i <= b@.len(),
        b@.skip(i as int) == skip_ws_bytes(b@),
{
    let n = b.len();
    let mut i: usize = 0;
    proof {
        assert(b@.skip(0) =~= b@);
    }
    while i < n && is_ws_byte_x(b[i])
        invariant
            n == b@.len(),
            i <= n,
            skip_ws_bytes(b@.skip(i as int)) == skip_ws_bytes(b@),
        decreases n - i,
    {
        proof {
            assert(b@.skip(i as int).drop_first() =~= b@.skip(i + 1));
        }
        i += 1;
    }
    proof {
        assert(skip_ws_bytes(b@.skip(i as int)) == b@.skip(i as int));
    }
    i
}

/// Whether `b` continues with `p` at offset `off`.
fn bytes_start_at(b: &[u8], off: usize, p: &Vec<u8>) -> (r: bool)
    requires
        off <= b@.len(),
    ensures
        r == bytes_start(b@.skip(off as int), p@),
{
    let ghost t = b@.skip(off as int);
    let m = p.len();
    if m > b.len() - off {
        return false;
    }
    let mut j: usize = 0;
    proof {
        vstd::slice::axiom_spec_len(b);
    }
    while j < m
        invariant
            b@.len() <= usize::MAX,
            off <= b@.len(),
            m == p@.len(),
            m <= b@.len() - off,
            t == b@.skip(off as int),
            j <= m,
            forall|k: int| 0 <= k < j ==> t[k] == p@[k],
        decreases m - j,
    {
        assert(off + j < b@.len());
        if b[off + j] != p[j] {
            assert(t[j as int] == b@[off + j as int]);
            assert(t.subrange(0, m as int)[j as int] == t[j as int]);
            return false;
        }
        assert(t[j as int] == b@[off + j as int]);
        j += 1;
    }
    proof {
        assert(t.subrange(0, m as int) =~= p@);
    }
    true
}

/// The JSON segment, computed.
fn json_vec(c: &Vec<char>, body: &[u8], json_ok: bool) -> (r: Vec<ResponseRenderer>)
    ensures
        r@ == json_segment(c@, body@, json_ok),
{
    let mut r: Vec<ResponseRenderer> = Vec::new();
    if str_contains_ci(c, &chars_of("application/json")) || str_contains_ci(
        c,
        &chars_of("+json"),
    ) {
        if json_ok {
            r.push(ResponseRenderer::Json);
        }
    } else if body.len() > 0 && (body[0] == 123 || body[0] == 91) {
        if json_ok {
            r.push(ResponseRenderer::Json);
        }
    }
    proof {
        assert(r@ =~= json_segment(c@, body@, json_ok));
    }
    r
}

/// The markup segment, computed.
fn markup_vec(c: &Vec<char>, body: &[u8]) -> (r: Vec<ResponseRenderer>)
    ensures
        r@ == markup_segment(c@, body@),
{
    let mut r: Vec<ResponseRenderer> = Vec::new();
    if str_contains_ci(c, &chars_of("text/html")) || str_contains_ci(
        c,
        &chars_of("application/xhtml"),
    ) {
        r.push(ResponseRenderer::Html);
        r.push(ResponseRenderer::HtmlPreview);
    } else if str_contains_ci(c, &chars_of("application/xml")) || str_contains_ci(
        c,
        &chars_of("text/xml"),
    ) || str_contains_ci(c, &chars_of("+xml")) {
        r.push(ResponseRenderer::Xml);
    } else {
        let off = ws_prefix_len(body);
        let xml_pat: Vec<u8> = vec![60u8, 63u8, 120u8, 109u8, 108u8];
        let dt_pat: Vec<u8> = vec![
            60u8,
            33u8,
            68u8,
            79u8,
            67u8,
            84u8,
            89u8,
            80u8,
            69u8,
            32u8,
            104u8,
            116u8,
            109u8,
            108u8,
        ];
        let ht_pat: Vec<u8> = vec![60u8, 104u8, 116u8, 109u8, 108u8];
        proof {
            assert(xml_pat@ =~= xml_decl_bytes());
            assert(dt_pat@ =~= doctype_bytes());
            assert(ht_pat@ =~= html_tag_bytes());
        }
        if bytes_start_at(body, off, &xml_pat) {
            r.push(ResponseRenderer::Xml);
        } else if bytes_start_at(body, off, &dt_pat) || bytes_start_at(body, off, &ht_pat) {
            r.push(ResponseRenderer::Html);
            r.push(ResponseRenderer::HtmlPreview);
        }
    }
    proof {
        assert(r@ =~= markup_segment(c@, body@));
    }
    r
}

/// The media segment, computed.
#[verifier::rlimit(100)]
fn media_vec(c: &Vec<char>) -> (r: Vec<ResponseRenderer>)
    ensures
        r@ == media_segment(c@),
{
    let mut r: Vec<ResponseRenderer> = Vec::new();
    let ghost img = (if contains_ci(c@, "image/png"@) || contains_ci(c@, "image/jpeg"@)
        || contains_ci(c@, "image/gif"@) || contains_ci(c@, "image/webp"@) || contains_ci(
        c@,
        "image/svg"@,
    ) || contains_ci(c@, "image/bmp"@) || contains_ci(c@, "image/ico"@) {
        seq![ResponseRenderer::Image]
    } else {
        Seq::<ResponseRenderer>::empty()
    });
    if str_contains_ci(c, &chars_of("image/png")) || str_contains_ci(c, &chars_of("image/jpeg"))
        || str_contains_ci(c, &chars_of("image/gif")) || str_contains_ci(
        c,
        &chars_of("image/webp"),
    ) || str_contains_ci(c, &chars_of("image/svg")) || str_contains_ci(
        c,
        &chars_of("image/bmp"),
    ) || str_contains_ci(c, &chars_of("image/ico")) {
        r.push(ResponseRenderer::Image);
    }
    proof {
        assert(r@ =~= img);
    }
    let ghost pdf = (if contains_ci(c@, "application/pdf"@) {
        seq![ResponseRenderer::Pdf]
    } else {
        Seq::<ResponseRenderer>::empty()
    });
    if str_contains_ci(c, &chars_of("application/pdf")) {
        r.push(ResponseRenderer::Pdf);
    }
    proof {
        assert(r@ =~= img + pdf);
    }
    let ghost aud = (if contains_ci(c@, "audio/"@) {
        seq![ResponseRenderer::Audio]
    } else {
        Seq::<ResponseRenderer>::empty()
    });
    if str_contains_ci(c, &chars_of("audio/")) {
        r.push(ResponseRenderer::Audio);
    }
    proof {
        assert(r@ =~= img + pdf + aud);
    }
    if str_contains_ci(c, &chars_of("video/")) {
        r.push(ResponseRenderer::Video);
    }
    proof {
        assert(r@ =~= media_segment(c@));
    }
    r
}

/// Determines the valid renderers of a body, given as `json_ok` whether
/// the body parses as JSON. `Raw` is always offered and always first.
pub fn detect_renderers_from(content_type: Option<&str>, body: &[u8], json_ok: bool) -> (r: Vec<
    ResponseRenderer,
>)
    ensures
        r@ == renderers_spec(
            match content_type {
                Option::Some(c) => Option::Some(c@),
                Option::None => Option::None,
            },
            body@,
            json_ok,
        ),
{
    let c: Vec<char> = match content_type {
        Option::Some(s) => chars_of(s),
        Option::None => Vec::new(),
    };
    let ghost cv = ct_or_empty(
        match content_type {
            Option::Some(s) => Option::Some(s@),
            Option::None => Option::None,
        },
    );
    proof {
        assert(c@ =~= cv);
    }
    let mut r: Vec<ResponseRenderer> = Vec::new();
    r.push(ResponseRenderer::Raw);
    let mut js = json_vec(&c, body, json_ok);
    r.append(&mut js);
    let mut mk = markup_vec(&c, body);
    r.append(&mut mk);
    let mut md = media_vec(&c);
    r.append(&mut md);
    proof {
        assert(r@ =~= renderers_spec(
            match content_type {
                Option::Some(cc) => Option::Some(cc@),
                Option::None => Option::None,
            },
            body@,
            json_ok,
        ));
    }
    r
}

/// Determines the valid renderers of a response body from its content
/// type and its bytes, parsing the body as JSON where the rules call for
/// it.
pub fn detect_renderers(content_type: Option<&str>, body: &[u8]) -> (r: Vec<ResponseRenderer>)
    ensures
        r@ == renderers_spec(
            match content_type {
                Option::Some(c) => Option::Some(c@),
                Option::None => Option::None,
            },
            body@,
            json_parses(body@),
        ),
{
    let c: Vec<char> = match content_type {
        Option::Some(s) => chars_of(s),
        Option::None => Vec::new(),
    };
    let ghost cv = ct_or_empty(
        match content_type {
            Option::Some(s) => Option::Some(s@),
            Option::None => Option::None,
        },
    );
    proof {
        assert(c@ =~= cv);
    }
    let need_json = str_contains_ci(&c, &chars_of("application/json")) || str_contains_ci(
        &c,
        &chars_of("+json"),
    ) || (body.len() > 0 && (body[0] == 123 || body[0] == 91));
    let json_ok = if need_json {
        json_valid(body)
    } else {
        false
    };
    let r = detect_renderers_from(content_type, body, json_ok);
    proof {
        if !need_json {
            assert(json_segment(cv, body@, json_ok) =~= json_segment(
                cv,
                body@,
                json_parses(body@),
            ));
            assert(renderers_spec(
                match content_type {
                    Option::Some(cc) => Option::Some(cc@),
                    Option::None => Option::None,
                },
                body@,
                json_ok,
            ) =~= renderers_spec(
                match content_type {
                    Option::Some(cc) => Option::Some(cc@),
                    Option::None => Option::None,
                },
                body@,
                json_parses(body@),
            ));
        }
    }
    r
}

/// The least index `>= from` of a pair whose name equals `name` up to
/// ASCII case, or `-1`.
pub open spec fn ci_key_index(hs: Seq<(Seq<char>, Seq<char>)>, name: Seq<char>, from: int) -> int
    decreases hs.len() - from,
{
    if from < 0 || from >= hs.len() {
        -1
    } else if eq_ci(hs[from].0, name) {
        from
    } else {
        ci_key_index(hs, name, from + 1)
    }
}

pub proof fn lemma_ci_key_index_props(hs: Seq<(Seq<char>, Seq<char>)>, name: Seq<char>, from: int)
    requires
        0 <= from <= hs.len(),
    ensures
        ci_key_index(hs, name, from) == -1 ==> forall|k: int|
            from <= k < hs.len() ==> !eq_ci(hs[k].0, name),
        ci_key_index(hs, name, from) != -1 ==> {
            let j = ci_key_index(hs, name, from);
            &&& from <= j < hs.len()
            &&& eq_ci(hs[j].0, name)
            &&& forall|k: int| from <= k < j ==> !eq_ci(hs[k].0, name)
        },
    decreases hs.len() - from,
{
    if from < hs.len() && !eq_ci(hs[from].0, name) {
        lemma_ci_key_index_props(hs, name, from + 1);
    }
}

/// The detected content type of a canonicalized header list: the value
/// of the first header named `content-type` up to ASCII case, if any.
pub open spec fn detected_ct(hs: Seq<(Seq<char>, Seq<char>)>) -> Option<Seq<char>> {
    let j = ci_key_index(hs, "content-type"@, 0);
    if 0 <= j < hs.len() {
        Option::Some(hs[j].1)
    } else {
        Option::None
    }
}

/// Looks up the first `content-type` header, case-insensitively.
pub fn lookup_content_type(headers: &Vec<(String, String)>) -> (r: Option<String>)
    ensures
        crate::types::opt_str_view(r) == detected_ct(crate::types::kv_views(headers@)),
{
    let ghost m = crate::types::kv_views(headers@);
    let needle = chars_of("content-type");
    let n = headers.len();
    let mut j: usize = 0;
    while j < n
        invariant
            n == headers@.len(),
            m == crate::types::kv_views(headers@),
            needle@ == "content-type"@,
            j <= n,
            forall|k: int| 0 <= k < j ==> !eq_ci(m[k].0, "content-type"@),
        decreases n - j,
    {
        let hc = chars_of(headers[j].0.as_str());
        if range_eq_ci(&hc, 0, hc.len(), &needle, 0, needle.len()) {
            proof {
                assert(hc@.subrange(0, hc@.len() as int) =~= m[j as int].0);
                assert(needle@.subrange(0, needle@.len() as int) =~= "content-type"@);
                lemma_ci_key_index_props(m, "content-type"@, 0);
            }
            return Option::Some(headers[j].1.clone());
        }
        proof {
            assert(hc@.subrange(0, hc@.len() as int) =~= m[j as int].0);
            assert(needle@.subrange(0, needle@.len() as int) =~= "content-type"@);
        }
        j += 1;
    }
    proof {
        lemma_ci_key_index_props(m, "content-type"@, 0);
    }
    Option::None
}

} // verus!
