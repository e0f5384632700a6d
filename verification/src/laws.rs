//! The engine's laws: properties that hold of every input, stated over
//! the same spec functions the executable contracts use.

use vstd::prelude::*;
use crate::analyzer::{
    header_block_spec, key_index, lemma_key_index_props, line_step, merge_header,
    parse_lines_from, renderers_spec, timing_spec, HeaderState, TransportTiming,
};
use crate::builder::{
    auth_headers, body_bytes_spec, built_headers, content_type_headers, cookie_headers,
};
use crate::text::index_of;
use crate::types::{kv_views, ApiRequest, BodyType, ResponseRenderer};

verus! {

/// Law: a request without a body carries no engine-injected
/// `Content-Type` header — the built header list is exactly the explicit
/// headers followed by the auth and cookie headers, whose names are
/// `Authorization`, the API key's own name, and `Cookie`.
pub proof fn lemma_no_body_no_content_type(req: ApiRequest, boundary: Seq<char>)
    requires
        req.body is NoBody,
    ensures
        content_type_headers(req.body, boundary) == Seq::<(Seq<char>, Seq<char>)>::empty(),
        built_headers(req, boundary) =~= kv_views(req.headers@) + auth_headers(req.auth)
            + cookie_headers(req.cookies@),
        body_bytes_spec(req.body, boundary) is None,
{
    assert(built_headers(req, boundary) =~= kv_views(req.headers@) + auth_headers(req.auth)
        + cookie_headers(req.cookies@));
}

/// Law: for ordered phase timestamps the six derived timing fields are
/// the exact telescoping of the phases — their sum equals the total, so
/// in particular the sub-phases never exceed it. (Each field is a `u64`,
/// hence never negative.)
pub proof fn lemma_timing_subphases_sum(
    dns_ms: u64,
    connect_ms: u64,
    tls_ms: u64,
    pretransfer_ms: u64,
    firstbyte_ms: u64,
    total_ms: u64,
)
    requires
        dns_ms <= connect_ms,
        connect_ms <= tls_ms,
        tls_ms <= pretransfer_ms,
        pretransfer_ms <= firstbyte_ms,
        firstbyte_ms <= total_ms,
    ensures
        ({
            let t = timing_spec(
                TransportTiming::Phases {
                    dns_ms,
                    connect_ms,
                    tls_ms,
                    pretransfer_ms,
                    firstbyte_ms,
                    total_ms,
                },
            );
            t.dns_lookup_ms as int + t.tcp_handshake_ms as int + t.tls_handshake_ms as int
                + t.transfer_start_ms as int + t.ttfb_ms as int + t.content_download_ms as int
                == t.total_ms as int
        }),
{
}

/// Law: under the reduced timing contract every sub-phase is zero and
/// only the total is reported.
pub proof fn lemma_timing_total_only(total_ms: u64)
    ensures
        ({
            let t = timing_spec(TransportTiming::TotalOnly { total_ms });
            &&& t.total_ms == total_ms
            &&& t.dns_lookup_ms == 0 && t.tcp_handshake_ms == 0 && t.tls_handshake_ms == 0
            &&& t.transfer_start_ms == 0 && t.ttfb_ms == 0 && t.content_download_ms == 0
        }),
{
}

/// Law: building is deterministic — the boundary token is the only
/// source of variation, and it only reaches a multipart body. For any
/// other body the built headers and body bytes are identical whatever
/// boundaries the two builds drew.
pub proof fn lemma_build_deterministic(req: ApiRequest, b1: Seq<char>, b2: Seq<char>)
    requires
        !(req.body is Multipart),
    ensures
        built_headers(req, b1) == built_headers(req, b2),
        body_bytes_spec(req.body, b1) == body_bytes_spec(req.body, b2),
{
    match req.body {
        BodyType::Multipart { .. } => {},
        _ => {
            assert(content_type_headers(req.body, b1) =~~= content_type_headers(req.body, b2));
            assert(built_headers(req, b1) =~~= built_headers(req, b2));
        },
    }
}

/// Law: the renderer list is never empty and always opens with `Raw`,
/// whatever the content type, the body, and the JSON verdict.
pub proof fn lemma_renderers_raw_first(ct: Option<Seq<char>>, body: Seq<u8>, json_ok: bool)
    ensures
        renderers_spec(ct, body, json_ok).len() > 0,
        renderers_spec(ct, body, json_ok)[0] == ResponseRenderer::Raw,
{
}

/// No two header entries share a name.
pub open spec fn unique_names(hs: Seq<(Seq<char>, Seq<char>)>) -> bool {
    forall|i: int, j: int| 0 <= i < j < hs.len() ==> hs[i].0 != hs[j].0
}

proof fn lemma_merge_keeps_unique(hs: Seq<(Seq<char>, Seq<char>)>, name: Seq<char>, value: Seq<char>)
    requires
        unique_names(hs),
    ensures
        unique_names(merge_header(hs, name, value)),
{
    let j = key_index(hs, name, 0);
    lemma_key_index_props(hs, name, 0);
    if 0 <= j < hs.len() {
        let hs2 = hs.update(j, (hs[j].0, hs[j].1 + ", "@ + value));
        assert forall|i: int| 0 <= i < hs2.len() implies hs2[i].0 == hs[i].0 by {}
    } else {
        let hs2 = hs.push((name, value));
        assert forall|i: int, k: int| 0 <= i < k < hs2.len() implies hs2[i].0 != hs2[k].0 by {
            if k == hs.len() {
                assert(hs[i].0 != name);
            }
        }
    }
}

proof fn lemma_line_step_keeps_unique(st: HeaderState, line: Seq<char>)
    requires
        unique_names(st.headers),
    ensures
        unique_names(line_step(st, line).headers),
{
    if !crate::text::starts_with(line, "HTTP/"@) {
        let c = index_of(line, ':');
        if c >= 0 {
            lemma_merge_keeps_unique(
                st.headers,
                crate::text::trim_spec(line.subrange(0, c)),
                crate::text::trim_spec(line.subrange(c + 1, line.len() as int)),
            );
        }
    }
}

proof fn lemma_parse_lines_keep_unique(s: Seq<char>, st: HeaderState)
    requires
        unique_names(st.headers),
    ensures
        unique_names(parse_lines_from(s, st).headers),
    decreases s.len(),
{
    let k = index_of(s, '\n');
    if 0 <= k < s.len() {
        lemma_line_step_keeps_unique(st, crate::analyzer::strip_cr(s.subrange(0, k)));
        lemma_parse_lines_keep_unique(
            s.subrange(k + 1, s.len() as int),
            line_step(st, crate::analyzer::strip_cr(s.subrange(0, k))),
        );
    } else {
        lemma_line_step_keeps_unique(st, crate::analyzer::strip_cr(s));
    }
}

/// Law: header canonicalization merges, it never duplicates — in the
/// scanned header list of any raw block no two entries share a name
/// (repeated response headers land in one entry, `", "`-joined).
pub proof fn lemma_canonical_headers_unique(s: Seq<char>)
    ensures
        unique_names(header_block_spec(s).headers),
{
    lemma_parse_lines_keep_unique(
        s,
        HeaderState { version: "HTTP/1.1"@, headers: Seq::empty(), cookies: Seq::empty() },
    );
}

} // verus!
