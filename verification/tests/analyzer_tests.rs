use httpcore::analyzer::{
    derive_timing, detect_renderers, detect_renderers_from, lookup_content_type,
    normalize_protocol, parse_header_block, parse_set_cookie, status_text, TransportTiming,
};
use httpcore::types::ResponseRenderer;

#[test]
fn two_set_cookie_lines_give_two_cookies() {
    let raw = "HTTP/1.1 200 OK\r\n\
Set-Cookie: session=abc; Path=/; HttpOnly\r\n\
Set-Cookie: theme=dark; Domain=example.com\r\n\r\n";
    let scan = parse_header_block(raw);
    assert_eq!(scan.cookies.len(), 2);
    assert_eq!(scan.cookies[0].name, "session");
    assert_eq!(scan.cookies[0].value, "abc");
    assert_eq!(scan.cookies[0].path.as_deref(), Some("/"));
    assert_eq!(scan.cookies[0].http_only, Some(true));
    assert_eq!(scan.cookies[0].domain, None);
    assert_eq!(scan.cookies[1].name, "theme");
    assert_eq!(scan.cookies[1].value, "dark");
    assert_eq!(scan.cookies[1].domain.as_deref(), Some("example.com"));
    assert_eq!(scan.cookies[1].http_only, None);
}

#[test]
fn set_cookie_parses_all_attributes() {
    let c = parse_set_cookie(" sid = 42 ; Domain=ex.com; Path=/a; Expires=soon; Secure; HttpOnly")
        .unwrap();
    assert_eq!(c.name, "sid");
    assert_eq!(c.value, "42");
    assert_eq!(c.domain.as_deref(), Some("ex.com"));
    assert_eq!(c.path.as_deref(), Some("/a"));
    assert_eq!(c.expires.as_deref(), Some("soon"));
    assert_eq!(c.secure, Some(true));
    assert_eq!(c.http_only, Some(true));
}

#[test]
fn set_cookie_without_equals_is_dropped() {
    assert!(parse_set_cookie("no-equals-here").is_none());
    assert!(parse_set_cookie("").is_none());
}

#[test]
fn repeated_header_names_merge_with_comma() {
    let raw = "HTTP/1.1 200 OK\r\nX-Multi: a\r\nX-Multi: b\r\nx-multi: c\r\n\r\n";
    let scan = parse_header_block(raw);
    let find = |n: &str| {
        scan.headers
            .iter()
            .find(|(k, _)| k == n)
            .map(|(_, v)| v.clone())
    };
    assert_eq!(find("X-Multi").as_deref(), Some("a, b"));
    assert_eq!(find("x-multi").as_deref(), Some("c"));
}

#[test]
fn version_line_sets_http_version() {
    let scan = parse_header_block("HTTP/2 200\r\nServer: x\r\n\r\n");
    assert_eq!(scan.version, "HTTP/2");
    let scan = parse_header_block("Server: x\r\n");
    assert_eq!(scan.version, "HTTP/1.1");
}

#[test]
fn json_content_type_with_valid_body() {
    let r = detect_renderers(Some("application/json"), b"{\"ok\":true}");
    assert_eq!(r, vec![ResponseRenderer::Raw, ResponseRenderer::Json]);
}

#[test]
fn json_content_type_with_invalid_body() {
    let r = detect_renderers(Some("application/json"), b"{nope");
    assert_eq!(r, vec![ResponseRenderer::Raw]);
}

#[test]
fn json_sniffed_from_body_start() {
    let r = detect_renderers(None, b"[1, 2, 3]");
    assert_eq!(r, vec![ResponseRenderer::Raw, ResponseRenderer::Json]);
}

#[test]
fn html_content_type() {
    let r = detect_renderers(Some("text/html"), b"<html><body/></html>");
    assert_eq!(
        r,
        vec![
            ResponseRenderer::Raw,
            ResponseRenderer::Html,
            ResponseRenderer::HtmlPreview
        ]
    );
}

#[test]
fn xml_content_type_and_sniffed_xml() {
    let r = detect_renderers(Some("application/xml"), b"<a/>");
    assert_eq!(r, vec![ResponseRenderer::Raw, ResponseRenderer::Xml]);
    let r = detect_renderers(None, b"  <?xml version=\"1.0\"?><a/>");
    assert_eq!(r, vec![ResponseRenderer::Raw, ResponseRenderer::Xml]);
    let r = detect_renderers(None, b"\n<!DOCTYPE html><html></html>");
    assert_eq!(
        r,
        vec![
            ResponseRenderer::Raw,
            ResponseRenderer::Html,
            ResponseRenderer::HtmlPreview
        ]
    );
}

#[test]
fn media_types_add_their_renderers() {
    let r = detect_renderers(Some("image/png"), b"");
    assert_eq!(r, vec![ResponseRenderer::Raw, ResponseRenderer::Image]);
    let r = detect_renderers(Some("application/pdf"), b"");
    assert_eq!(r, vec![ResponseRenderer::Raw, ResponseRenderer::Pdf]);
    let r = detect_renderers(Some("audio/mpeg"), b"");
    assert_eq!(r, vec![ResponseRenderer::Raw, ResponseRenderer::Audio]);
    let r = detect_renderers(Some("video/mp4"), b"");
    assert_eq!(r, vec![ResponseRenderer::Raw, ResponseRenderer::Video]);
}

#[test]
fn renderer_detection_is_case_insensitive_on_content_type() {
    let r = detect_renderers(Some("TEXT/HTML; charset=utf-8"), b"x");
    assert_eq!(
        r,
        vec![
            ResponseRenderer::Raw,
            ResponseRenderer::Html,
            ResponseRenderer::HtmlPreview
        ]
    );
}

#[test]
fn renderers_from_explicit_json_flag() {
    let r = detect_renderers_from(Some("application/json"), b"ignored", true);
    assert_eq!(r, vec![ResponseRenderer::Raw, ResponseRenderer::Json]);
    let r = detect_renderers_from(Some("application/json"), b"ignored", false);
    assert_eq!(r, vec![ResponseRenderer::Raw]);
}

#[test]
fn status_text_covers_known_and_unknown_codes() {
    assert_eq!(status_text(100), "Continue");
    assert_eq!(status_text(200), "OK");
    assert_eq!(status_text(204), "No Content");
    assert_eq!(status_text(301), "Moved Permanently");
    assert_eq!(status_text(404), "Not Found");
    assert_eq!(status_text(429), "Too Many Requests");
    assert_eq!(status_text(503), "Service Unavailable");
    assert_eq!(status_text(999), "Status 999");
    assert_eq!(status_text(0), "Status 0");
}

#[test]
fn phase_timing_telescopes() {
    let t = derive_timing(&TransportTiming::Phases {
        dns_ms: 1,
        connect_ms: 2,
        tls_ms: 3,
        pretransfer_ms: 4,
        firstbyte_ms: 5,
        total_ms: 10,
    });
    assert_eq!(t.dns_lookup_ms, 1);
    assert_eq!(t.tcp_handshake_ms, 1);
    assert_eq!(t.tls_handshake_ms, 1);
    assert_eq!(t.transfer_start_ms, 1);
    assert_eq!(t.ttfb_ms, 1);
    assert_eq!(t.content_download_ms, 5);
    assert_eq!(t.total_ms, 10);
    let sum = t.dns_lookup_ms
        + t.tcp_handshake_ms
        + t.tls_handshake_ms
        + t.transfer_start_ms
        + t.ttfb_ms
        + t.content_download_ms;
    assert_eq!(sum, t.total_ms);
}

#[test]
fn out_of_order_phases_clamp_to_zero() {
    let t = derive_timing(&TransportTiming::Phases {
        dns_ms: 5,
        connect_ms: 3,
        tls_ms: 0,
        pretransfer_ms: 0,
        firstbyte_ms: 0,
        total_ms: 4,
    });
    assert_eq!(t.tcp_handshake_ms, 0);
    assert_eq!(t.tls_handshake_ms, 0);
    assert_eq!(t.content_download_ms, 4);
}

#[test]
fn total_only_timing_zeroes_subphases() {
    let t = derive_timing(&TransportTiming::TotalOnly { total_ms: 77 });
    assert_eq!(t.total_ms, 77);
    assert_eq!(t.dns_lookup_ms, 0);
    assert_eq!(t.tcp_handshake_ms, 0);
    assert_eq!(t.tls_handshake_ms, 0);
    assert_eq!(t.transfer_start_ms, 0);
    assert_eq!(t.ttfb_ms, 0);
    assert_eq!(t.content_download_ms, 0);
}

#[test]
fn protocol_normalization() {
    assert_eq!(normalize_protocol("HTTP/3"), "HTTP/3");
    assert_eq!(normalize_protocol("HTTP/2"), "HTTP/2");
    assert_eq!(normalize_protocol("HTTP/1.1"), "HTTP/1.1");
    assert_eq!(normalize_protocol("h3-29"), "HTTP/3");
}

#[test]
fn header_names_and_values_are_trimmed() {
    let scan = parse_header_block("HTTP/1.1 200 OK\r\n  X-Pad  :   spaced value  \r\n\r\n");
    assert_eq!(scan.headers.len(), 1);
    assert_eq!(scan.headers[0].0, "X-Pad");
    assert_eq!(scan.headers[0].1, "spaced value");
}

#[test]
fn cookie_attribute_names_ignore_case() {
    let c = parse_set_cookie("a=b; DOMAIN=ex.com; HTTPONLY").unwrap();
    assert_eq!(c.domain.as_deref(), Some("ex.com"));
    assert_eq!(c.http_only, Some(true));
}

#[test]
fn repeated_cookie_attribute_last_wins() {
    let c = parse_set_cookie("a=b; Path=/x; Path=/y").unwrap();
    assert_eq!(c.path.as_deref(), Some("/y"));
}

#[test]
fn unknown_status_codes_render_decimal() {
    assert_eq!(status_text(65535), "Status 65535");
    assert_eq!(status_text(7), "Status 7");
    assert_eq!(status_text(418), "Status 418");
}

#[test]
fn content_type_lookup_is_case_insensitive_first_seen() {
    let headers = vec![
        ("Server".to_string(), "x".to_string()),
        ("CONTENT-TYPE".to_string(), "text/html".to_string()),
        ("content-type".to_string(), "text/plain".to_string()),
    ];
    assert_eq!(lookup_content_type(&headers).as_deref(), Some("text/html"));
    assert_eq!(lookup_content_type(&vec![]), None);
}
