use base64::Engine;
use httpcore::analyzer::TransportTiming;
use httpcore::builder::{BuiltRequest, ExecuteError, TransportPolicy};
use httpcore::classify::{failure_response, format_transport_error, TransportFailure};
use httpcore::execute::execute;
use httpcore::transport::{HttpTransport, TransportReply};
use httpcore::types::{ApiRequest, Methods, ResponseRenderer};

fn no_failure_detail(detail: &str) -> TransportFailure {
    TransportFailure {
        host_resolution_failed: false,
        connect_failed: false,
        timed_out: false,
        tls_connect_error: false,
        certificate_verification_failed: false,
        too_many_redirects: false,
        body_error: false,
        decode_error: false,
        detail: detail.to_string(),
    }
}

struct CountingTransport {
    calls: usize,
    reply: Option<TransportReply>,
}

impl HttpTransport for CountingTransport {
    fn perform(
        &mut self,
        _built: &BuiltRequest,
        _method: &Methods,
        _policy: &TransportPolicy,
    ) -> Result<TransportReply, TransportFailure> {
        self.calls += 1;
        match self.reply.take() {
            Some(r) => Ok(r),
            None => Err(no_failure_detail("stub")),
        }
    }
}

fn request_to(url: &str) -> ApiRequest {
    let mut req = ApiRequest::default();
    req.url = String::from(url);
    req
}

#[test]
fn malformed_url_fails_before_any_transport_call() {
    let mut t = CountingTransport { calls: 0, reply: None };
    let r = execute(&request_to("not a url"), &mut t);
    assert_eq!(r.unwrap_err(), ExecuteError::InvalidUrl);
    assert_eq!(t.calls, 0);
}

#[test]
fn successful_exchange_is_fully_analyzed() {
    let raw_headers = "HTTP/2 200 OK\r\n\
Content-Type: application/json\r\n\
Set-Cookie: sid=1; HttpOnly\r\n\r\n";
    let body = b"{\"ok\":true}".to_vec();
    let mut t = CountingTransport {
        calls: 0,
        reply: Some(TransportReply {
            status: 200,
            raw_headers: raw_headers.to_string(),
            body: body.clone(),
            timing: TransportTiming::TotalOnly { total_ms: 12 },
            remote_addr: Some("93.184.216.34".to_string()),
        }),
    };
    let resp = execute(&request_to("http://example.com/"), &mut t).unwrap();
    assert_eq!(t.calls, 1);
    assert_eq!(resp.status, 200);
    assert_eq!(resp.status_text, "OK");
    assert!(resp.error.is_none());
    assert_eq!(resp.http_version, "HTTP/2");
    assert_eq!(resp.protocol_used, "HTTP/2");
    assert_eq!(
        resp.body_base64,
        base64::engine::general_purpose::STANDARD.encode(&body)
    );
    assert_eq!(
        resp.detected_content_type.as_deref(),
        Some("application/json")
    );
    assert_eq!(
        resp.available_renderers,
        vec![ResponseRenderer::Raw, ResponseRenderer::Json]
    );
    assert_eq!(resp.cookies.len(), 1);
    assert_eq!(resp.cookies[0].name, "sid");
    assert_eq!(resp.cookies[0].http_only, Some(true));
    assert_eq!(resp.timing.total_ms, 12);
    assert_eq!(resp.timing.dns_lookup_ms, 0);
    assert_eq!(resp.remote_addr.as_deref(), Some("93.184.216.34"));
    assert!(resp.redirects.is_empty());
    assert_eq!(resp.response_size.headers_bytes, raw_headers.len() as u64);
    assert_eq!(resp.response_size.body_bytes, body.len() as u64);
    assert_eq!(
        resp.response_size.total_bytes,
        (raw_headers.len() + body.len()) as u64
    );
    // Built headers were empty for this request, so only the body counts.
    assert_eq!(resp.request_size.headers_bytes, 0);
    assert_eq!(resp.request_size.body_bytes, 0);
}

#[test]
fn request_size_counts_built_header_lines() {
    let mut req = request_to("http://example.com/");
    req.headers.push(("A".to_string(), "bc".to_string()));
    let mut t = CountingTransport {
        calls: 0,
        reply: Some(TransportReply {
            status: 204,
            raw_headers: String::new(),
            body: Vec::new(),
            timing: TransportTiming::TotalOnly { total_ms: 1 },
            remote_addr: None,
        }),
    };
    let resp = execute(&req, &mut t).unwrap();
    // "A: bc\r\n" = 1 + 4 + 2 bytes.
    assert_eq!(resp.request_size.headers_bytes, 7);
    assert_eq!(resp.status, 204);
    assert_eq!(resp.status_text, "No Content");
}

#[test]
fn transport_failure_becomes_status_zero_response() {
    let mut t = CountingTransport { calls: 0, reply: None };
    let resp = execute(&request_to("http://example.com/"), &mut t).unwrap();
    assert_eq!(t.calls, 1);
    assert_eq!(resp.status, 0);
    assert_eq!(resp.status_text, "Request Failed");
    assert_eq!(resp.error.as_deref(), Some("stub"));
    assert_eq!(resp.available_renderers, vec![ResponseRenderer::Raw]);
    assert_eq!(resp.body_base64, "");
}

#[test]
fn failure_message_prefixes_compose_in_order() {
    let mut f = no_failure_detail("curl said no");
    f.host_resolution_failed = true;
    f.timed_out = true;
    assert_eq!(
        format_transport_error(&f),
        "Could not resolve host. Operation timed out. curl said no"
    );
    let mut f = no_failure_detail("x");
    f.connect_failed = true;
    f.tls_connect_error = true;
    f.certificate_verification_failed = true;
    f.too_many_redirects = true;
    f.body_error = true;
    f.decode_error = true;
    assert_eq!(
        format_transport_error(&f),
        "Could not connect. SSL connect error. SSL certificate verification failed. \
Too many redirects. Body error. Decode error. x"
    );
    assert_eq!(format_transport_error(&no_failure_detail("bare")), "bare");
}

#[test]
fn failure_response_is_empty_but_renderable() {
    let resp = failure_response(&no_failure_detail("boom"));
    assert_eq!(resp.status, 0);
    assert_eq!(resp.status_text, "Request Failed");
    assert!(resp.headers.is_empty());
    assert!(resp.cookies.is_empty());
    assert_eq!(resp.body_base64, "");
    assert_eq!(resp.timing.total_ms, 0);
    assert_eq!(resp.request_size.total_bytes, 0);
    assert_eq!(resp.response_size.total_bytes, 0);
    assert!(resp.redirects.is_empty());
    assert_eq!(resp.remote_addr, None);
    assert_eq!(resp.available_renderers, vec![ResponseRenderer::Raw]);
    assert_eq!(resp.detected_content_type, None);
    assert_eq!(resp.error.as_deref(), Some("boom"));
}

#[test]
fn base64_round_trip_of_response_body() {
    let body = b"hi".to_vec();
    let mut t = CountingTransport {
        calls: 0,
        reply: Some(TransportReply {
            status: 200,
            raw_headers: "HTTP/1.1 200 OK\r\n\r\n".to_string(),
            body,
            timing: TransportTiming::Phases {
                dns_ms: 1,
                connect_ms: 2,
                tls_ms: 2,
                pretransfer_ms: 3,
                firstbyte_ms: 4,
                total_ms: 6,
            },
            remote_addr: None,
        }),
    };
    let resp = execute(&request_to("http://example.com/"), &mut t).unwrap();
    assert_eq!(resp.body_base64, "aGk=");
    assert_eq!(resp.timing.dns_lookup_ms, 1);
    assert_eq!(resp.timing.tcp_handshake_ms, 1);
    assert_eq!(resp.timing.tls_handshake_ms, 0);
    assert_eq!(resp.timing.transfer_start_ms, 1);
    assert_eq!(resp.timing.ttfb_ms, 1);
    assert_eq!(resp.timing.content_download_ms, 2);
    assert_eq!(resp.http_version, "HTTP/1.1");
    assert_eq!(resp.protocol_used, "HTTP/1.1");
}
