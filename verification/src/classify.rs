//! The error classifier: maps a structured transport failure onto a
//! stable diagnostic message, and builds the failure response.

use vstd::prelude::*;
use crate::types::{ApiResponse, RedirectEntry, ResponseRenderer, SizeInfo, TimingInfo};
use crate::encode::{base64_encode, base64_of};

verus! {

/// A transport failure, as the set of categories the transport reports
/// (several may co-occur) and the transport's own diagnostic text.
#[derive(Clone, Debug)]
pub struct TransportFailure {
    pub host_resolution_failed: bool,
    pub connect_failed: bool,
    pub timed_out: bool,
    pub tls_connect_error: bool,
    pub certificate_verification_failed: bool,
    pub too_many_redirects: bool,
    pub body_error: bool,
    pub decode_error: bool,
    pub detail: String,
}

/// The composed diagnostic: one fixed prefix per reported category, in a
/// fixed order, followed by the transport's own text. No category is
/// ever discarded.
pub open spec fn failure_message_spec(f: TransportFailure) -> Seq<char> {
    (if f.host_resolution_failed {
        "Could not resolve host. "@
    } else {
        Seq::<char>::empty()
    }) + (if f.connect_failed {
        "Could not connect. "@
    } else {
        Seq::<char>::empty()
    }) + (if f.timed_out {
        "Operation timed out. "@
    } else {
        Seq::<char>::empty()
    }) + (if f.tls_connect_error {
        "SSL connect error. "@
    } else {
        Seq::<char>::empty()
    }) + (if f.certificate_verification_failed {
        "SSL certificate verification failed. "@
    } else {
        Seq::<char>::empty()
    }) + (if f.too_many_redirects {
        "Too many redirects. "@
    } else {
        Seq::<char>::empty()
    }) + (if f.body_error {
        "Body error. "@
    } else {
        Seq::<char>::empty()
    }) + (if f.decode_error {
        "Decode error. "@
    } else {
        Seq::<char>::empty()
    }) + f.detail@
}

/// Composes the diagnostic message of a transport failure.
#[verifier::rlimit(100)]
pub fn format_transport_error(f: &TransportFailure) -> (r: String)
    ensures
        r@ == failure_message_spec(*f),
{
    let mut s = String::new();
    if f.host_resolution_failed {
        s.append("Could not resolve host. ");
    }
    if f.connect_failed {
        s.append("Could not connect. ");
    }
    if f.timed_out {
        s.append("Operation timed out. ");
    }
    if f.tls_connect_error {
        s.append("SSL connect error. ");
    }
    if f.certificate_verification_failed {
        s.append("SSL certificate verification failed. ");
    }
    if f.too_many_redirects {
        s.append("Too many redirects. ");
    }
    if f.body_error {
        s.append("Body error. ");
    }
    if f.decode_error {
        s.append("Decode error. ");
    }
    s.append(f.detail.as_str());
    proof {
        assert(s@ =~= failure_message_spec(*f));
    }
    s
}

/// The response that represents a transport failure: status `0`, the
/// fixed sentinel reason, the composed diagnostic in `error`, an empty
/// body (whose base64 is empty), zeroed timing and sizes, and the
/// always-present `Raw` renderer. Version and protocol are reported
/// empty: nothing was received.
pub fn failure_response(f: &TransportFailure) -> (r: ApiResponse)
    ensures
        r.status == 0,
        r.status_text@ == "Request Failed"@,
        r.headers@.len() == 0,
        r.cookies@.len() == 0,
        r.body_base64@ == base64_of(Seq::<u8>::empty()),
        r.body_base64@.len() == 0,
        r.timing == (TimingInfo {
            total_ms: 0u64,
            dns_lookup_ms: 0u64,
            tcp_handshake_ms: 0u64,
            tls_handshake_ms: 0u64,
            transfer_start_ms: 0u64,
            ttfb_ms: 0u64,
            content_download_ms: 0u64,
        }),
        r.request_size == (SizeInfo { headers_bytes: 0u64, body_bytes: 0u64, total_bytes: 0u64 }),
        r.response_size == (SizeInfo { headers_bytes: 0u64, body_bytes: 0u64, total_bytes: 0u64 }),
        r.redirects@.len() == 0,
        r.remote_addr is None,
        r.http_version@.len() == 0,
        r.available_renderers@ == seq![ResponseRenderer::Raw],
        r.detected_content_type is None,
        r.protocol_used@.len() == 0,
        r.error matches Some(e) && e@ == failure_message_spec(*f),
{
    let empty_body: Vec<u8> = Vec::new();
    let body_base64 = base64_encode(&empty_body);
    let mut renderers: Vec<ResponseRenderer> = Vec::new();
    renderers.push(ResponseRenderer::Raw);
    proof {
        assert(empty_body@ =~= Seq::<u8>::empty());
        assert(renderers@ =~= seq![ResponseRenderer::Raw]);
    }
    ApiResponse {
        status: 0,
        status_text: String::from_str("Request Failed"),
        headers: Vec::new(),
        cookies: Vec::new(),
        body_base64,
        timing: TimingInfo {
            total_ms: 0,
            dns_lookup_ms: 0,
            tcp_handshake_ms: 0,
            tls_handshake_ms: 0,
            transfer_start_ms: 0,
            ttfb_ms: 0,
            content_download_ms: 0,
        },
        request_size: SizeInfo { headers_bytes: 0, body_bytes: 0, total_bytes: 0 },
        response_size: SizeInfo { headers_bytes: 0, body_bytes: 0, total_bytes: 0 },
        redirects: Vec::<RedirectEntry>::new(),
        remote_addr: Option::None,
        http_version: String::new(),
        available_renderers: renderers,
        detected_content_type: Option::None,
        protocol_used: String::new(),
        error: Option::Some(format_transport_error(f)),
    }
}

} // verus!
