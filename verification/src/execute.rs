//! The inbound operation: one atomic request/response exchange. The only
//! failure it raises is a malformed base URL; every transport failure is
//! represented inside the response.

use vstd::prelude::*;
use crate::analyzer::{
    derive_timing, detect_renderers, detected_ct, header_block_spec, json_parses,
    lookup_content_type, normalize_protocol, parse_header_block, protocol_spec, renderers_spec,
    size_info, size_spec, status_text, status_text_spec, timing_spec,
};
use crate::builder::{build_request, effective_policy, url_parse_ok, BuiltRequest, ExecuteError};
use crate::classify::failure_response;
use crate::encode::{base64_encode, base64_of, gen_boundary, str_bytes};
use crate::transport::{HttpTransport, TransportReply};
use crate::types::{
    ApiRequest, ApiResponse, RedirectEntry, ResponseRenderer, cookie_models, kv_views,
    opt_str_view,
};

verus! {

/// `x`, clamped to the largest 64-bit value.
pub open spec fn cap64(x: int) -> int {
    if x > u64::MAX {
        u64::MAX as int
    } else {
        x
    }
}

/// The byte length of a text as the machine measures it.
pub open spec fn measured_len(s: Seq<char>) -> int {
    (str_bytes(s).len() as usize) as int
}

/// The wire size of a header list: each pair serialized as
/// `name: value` with a CRLF terminator.
pub open spec fn wire_sum(hs: Seq<(Seq<char>, Seq<char>)>) -> int
    decreases hs.len(),
{
    if hs.len() == 0 {
        0
    } else {
        wire_sum(hs.drop_last()) + measured_len(hs.last().0) + 4 + measured_len(hs.last().1)
    }
}

proof fn lemma_wire_sum_nonneg(hs: Seq<(Seq<char>, Seq<char>)>)
    ensures
        wire_sum(hs) >= 0,
    decreases hs.len(),
{
    if hs.len() > 0 {
        lemma_wire_sum_nonneg(hs.drop_last());
    }
}

/// The byte count of the built header list on the wire, saturating.
pub fn headers_wire_bytes(hs: &Vec<(String, String)>) -> (r: u64)
    ensures
        r as int == cap64(wire_sum(kv_views(hs@))),
{
    let ghost m = kv_views(hs@);
    let n = hs.len();
    let mut acc: u64 = 0;
    let mut i: usize = 0;
    while i < n
        invariant
            n == hs@.len(),
            m == kv_views(hs@),
            i <= n,
            acc as int == cap64(wire_sum(m.take(i as int))),
        decreases n - i,
    {
        let name_len = hs[i].0.as_str().len() as u64;
        let value_len = hs[i].1.as_str().len() as u64;
        let line = crate::analyzer::sat_add_u64(crate::analyzer::sat_add_u64(name_len, 4), value_len);
        acc = crate::analyzer::sat_add_u64(acc, line);
        i += 1;
        proof {
            let pre = m.take(i as int);
            assert(pre.drop_last() =~= m.take(i - 1));
            assert(pre.last() == m[i - 1]);
            assert(m[i - 1] == (hs@[i - 1].0@, hs@[i - 1].1@));
            lemma_wire_sum_nonneg(m.take(i - 1));
            assert(name_len as int == measured_len(m[i - 1].0));
            assert(value_len as int == measured_len(m[i - 1].1));
            assert(wire_sum(pre) == wire_sum(m.take(i - 1)) + measured_len(m[i - 1].0) + 4
                + measured_len(m[i - 1].1));
        }
    }
    proof {
        assert(m.take(n as int) =~= m);
    }
    acc
}

/// The body byte count of a built request.
pub fn built_body_len(built: &BuiltRequest) -> (r: u64)
    ensures
        r as int == match built.body {
            Option::Some(b) => cap64(b@.len() as int),
            Option::None => 0,
        },
{
    match &built.body {
        Option::Some(b) => {
            let n = b.len();
            if n as u64 <= u64::MAX {
                n as u64
            } else {
                u64::MAX
            }
        },
        Option::None => 0,
    }
}

/// Analyzes a completed exchange into the structured response: every
/// field is pinned to the scan of the raw header block, the body bytes,
/// and the transport's timing signals.
pub fn analyze_reply(built: &BuiltRequest, reply: TransportReply) -> (r: ApiResponse)
    ensures
        r.status == reply.status,
        r.status_text@ == status_text_spec(reply.status),
        kv_views(r.headers@) == header_block_spec(reply.raw_headers@).headers,
        cookie_models(r.cookies@) == header_block_spec(reply.raw_headers@).cookies,
        r.http_version@ == header_block_spec(reply.raw_headers@).version,
        r.protocol_used@ == protocol_spec(header_block_spec(reply.raw_headers@).version),
        r.body_base64@ == base64_of(reply.body@),
        r.timing == timing_spec(reply.timing),
        r.request_size == size_spec(
            cap64(wire_sum(built_header_views(built))),
            match built.body {
                Option::Some(b) => cap64(b@.len() as int),
                Option::None => 0,
            },
        ),
        r.response_size == size_spec(
            (str_bytes(reply.raw_headers@).len() as usize) as int,
            (reply.body@.len() as usize) as int,
        ),
        r.redirects@.len() == 0,
        r.remote_addr == reply.remote_addr,
        opt_str_view(r.detected_content_type) == detected_ct(
            header_block_spec(reply.raw_headers@).headers,
        ),
        r.available_renderers@ == renderers_spec(
            detected_ct(header_block_spec(reply.raw_headers@).headers),
            reply.body@,
            json_parses(reply.body@),
        ),
        r.error is None,
{
    let scan = parse_header_block(reply.raw_headers.as_str());
    let content_type = lookup_content_type(&scan.headers);
    let renderers = detect_renderers(
        match &content_type {
            Option::Some(s) => Option::Some(s.as_str()),
            Option::None => Option::None,
        },
        reply.body.as_slice(),
    );
    let body_base64 = base64_encode(&reply.body);
    let timing = derive_timing(&reply.timing);
    let request_size = size_info(headers_wire_bytes(&built.headers), built_body_len(built));
    let response_size = size_info(
        reply.raw_headers.as_str().len() as u64,
        reply.body.len() as u64,
    );
    let protocol_used = normalize_protocol(scan.version.as_str());
    ApiResponse {
        status: reply.status,
        status_text: status_text(reply.status),
        headers: scan.headers,
        cookies: scan.cookies,
        body_base64,
        timing,
        request_size,
        response_size,
        redirects: Vec::<RedirectEntry>::new(),
        remote_addr: reply.remote_addr,
        http_version: scan.version,
        available_renderers: renderers,
        detected_content_type: content_type,
        protocol_used,
        error: Option::None,
    }
}

/// The header views of a built request.
pub open spec fn built_header_views(built: &BuiltRequest) -> Seq<(Seq<char>, Seq<char>)> {
    kv_views(built.headers@)
}

/// Executes one request through the given transport. Fails with
/// `InvalidUrl`, before any transport call, exactly when the base URL
/// does not parse; every other failure is represented inside a normal
/// response with status `0` and `error` set. `Raw` always leads the
/// renderer list, and the redirect chain is always reported empty.
pub fn execute<T: HttpTransport>(req: &ApiRequest, transport: &mut T) -> (r: Result<
    ApiResponse,
    ExecuteError,
>)
    ensures
        r is Ok <==> url_parse_ok(req.url@),
        r matches Err(e) ==> e == ExecuteError::InvalidUrl,
        r matches Ok(resp) ==> {
            &&& (resp.error is Some ==> resp.status == 0 && resp.status_text@ == "Request Failed"@)
            &&& (resp.error is None ==> resp.status_text@ == status_text_spec(resp.status))
            &&& resp.available_renderers@.len() > 0
            &&& resp.available_renderers@[0] == ResponseRenderer::Raw
            &&& resp.redirects@.len() == 0
        },
{
    let boundary = gen_boundary();
    match build_request(req, boundary.as_str()) {
        Result::Err(e) => Result::Err(e),
        Result::Ok(built) => {
            let policy = effective_policy(req);
            match transport.perform(&built, &req.method, &policy) {
                Result::Ok(reply) => {
                    let resp = analyze_reply(&built, reply);
                    proof {
                        assert(resp.available_renderers@[0] == ResponseRenderer::Raw);
                    }
                    Result::Ok(resp)
                },
                Result::Err(f) => Result::Ok(failure_response(&f)),
            }
        },
    }
}

} // verus!
