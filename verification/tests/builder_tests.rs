use httpcore::builder::{
    build_cookie_header, build_request, effective_policy, method_to_curl_string,
};
use httpcore::encode::{encode_multipart, form_urlencode, gen_boundary, uuid_simple};
use httpcore::types::{
    ApiKeyLocation, ApiRequest, AuthType, BodyType, Cookie, Methods, MultipartField,
    MultipartValue,
};

fn base_request(url: &str) -> ApiRequest {
    let mut req = ApiRequest::default();
    req.url = String::from(url);
    req
}

fn header_names(headers: &[(String, String)]) -> Vec<String> {
    headers.iter().map(|(k, _)| k.clone()).collect()
}

fn find_header<'a>(headers: &'a [(String, String)], name: &str) -> Option<&'a str> {
    headers
        .iter()
        .find(|(k, _)| k == name)
        .map(|(_, v)| v.as_str())
}

#[test]
fn no_body_injects_no_content_type() {
    let mut req = base_request("http://example.com/");
    req.headers.push(("X-Custom".to_string(), "1".to_string()));
    req.cookies.push(Cookie {
        name: "sid".to_string(),
        value: "42".to_string(),
        domain: None,
        path: None,
        expires: None,
        http_only: None,
        secure: None,
    });
    let built = build_request(&req, "BOUNDARY").unwrap();
    assert!(!header_names(&built.headers)
        .iter()
        .any(|n| n == "Content-Type"));
    assert!(built.body.is_none());
    assert_eq!(find_header(&built.headers, "X-Custom"), Some("1"));
    assert_eq!(find_header(&built.headers, "Cookie"), Some("sid=42"));
}

#[test]
fn form_urlencoded_body_and_content_type() {
    let mut req = base_request("http://example.com/");
    req.body = BodyType::FormUrlEncoded {
        fields: vec![
            ("a".to_string(), "1 2".to_string()),
            ("b".to_string(), "x".to_string()),
        ],
    };
    let built = build_request(&req, "BOUNDARY").unwrap();
    assert_eq!(built.body.as_deref(), Some(b"a=1+2&b=x".as_slice()));
    assert_eq!(
        find_header(&built.headers, "Content-Type"),
        Some("application/x-www-form-urlencoded")
    );
}

#[test]
fn form_urlencode_percent_encodes_reserved_bytes() {
    let fields = vec![("k&=".to_string(), "v%~".to_string())];
    let encoded = form_urlencode(&fields);
    assert_eq!(encoded, b"k%26%3D=v%25%7E".to_vec());
}

#[test]
fn raw_body_keeps_declared_content_type() {
    let mut req = base_request("http://example.com/");
    req.body = BodyType::Raw {
        content: "hello".to_string(),
        content_type: Some("text/plain".to_string()),
    };
    let built = build_request(&req, "B").unwrap();
    assert_eq!(built.body.as_deref(), Some(b"hello".as_slice()));
    assert_eq!(find_header(&built.headers, "Content-Type"), Some("text/plain"));
}

#[test]
fn raw_body_without_type_gets_none() {
    let mut req = base_request("http://example.com/");
    req.body = BodyType::Raw {
        content: "hello".to_string(),
        content_type: None,
    };
    let built = build_request(&req, "B").unwrap();
    assert!(find_header(&built.headers, "Content-Type").is_none());
}

#[test]
fn binary_body_is_octet_stream() {
    let mut req = base_request("http://example.com/");
    req.body = BodyType::Binary {
        data: vec![0, 159, 146, 150],
        filename: Some("blob.bin".to_string()),
    };
    let built = build_request(&req, "B").unwrap();
    assert_eq!(built.body.as_deref(), Some([0u8, 159, 146, 150].as_slice()));
    assert_eq!(
        find_header(&built.headers, "Content-Type"),
        Some("application/octet-stream")
    );
}

#[test]
fn multipart_text_and_file_layout() {
    let fields = vec![
        MultipartField {
            name: "n".to_string(),
            value: MultipartValue::Text("v".to_string()),
        },
        MultipartField {
            name: "f".to_string(),
            value: MultipartValue::File {
                data: b"DATA".to_vec(),
                filename: "a.bin".to_string(),
                content_type: None,
            },
        },
    ];
    let body = encode_multipart(&fields, "B");
    let expected = b"--B\r\nContent-Disposition: form-data; name=\"n\"\r\n\r\nv\r\n\
--B\r\nContent-Disposition: form-data; name=\"f\"; filename=\"a.bin\"\r\n\
Content-Type: application/octet-stream\r\n\r\nDATA\r\n--B--\r\n"
        .to_vec();
    assert_eq!(body, expected);
}

#[test]
fn multipart_content_type_carries_boundary() {
    let mut req = base_request("http://example.com/");
    req.body = BodyType::Multipart { fields: vec![] };
    let built = build_request(&req, "XYZ").unwrap();
    assert_eq!(
        find_header(&built.headers, "Content-Type"),
        Some("multipart/form-data; boundary=XYZ")
    );
    assert_eq!(built.body.as_deref(), Some(b"--XYZ--\r\n".as_slice()));
}

#[test]
fn basic_auth_injects_base64_credentials() {
    let mut req = base_request("http://example.com/");
    req.auth = AuthType::Basic {
        username: "user".to_string(),
        password: "pass".to_string(),
    };
    let built = build_request(&req, "B").unwrap();
    assert_eq!(
        find_header(&built.headers, "Authorization"),
        Some("Basic dXNlcjpwYXNz")
    );
}

#[test]
fn bearer_auth_injects_token_header() {
    let mut req = base_request("http://example.com/");
    req.auth = AuthType::Bearer {
        token: "tok123".to_string(),
    };
    let built = build_request(&req, "B").unwrap();
    assert_eq!(
        find_header(&built.headers, "Authorization"),
        Some("Bearer tok123")
    );
}

#[test]
fn api_key_in_header_uses_key_as_name() {
    let mut req = base_request("http://example.com/");
    req.auth = AuthType::ApiKey {
        key: "X-Api-Key".to_string(),
        value: "secret".to_string(),
        add_to: ApiKeyLocation::Header,
    };
    let built = build_request(&req, "B").unwrap();
    assert_eq!(find_header(&built.headers, "X-Api-Key"), Some("secret"));
}

#[test]
fn api_key_in_query_appends_after_params() {
    let mut req = base_request("http://example.com/");
    req.query_params
        .push(("q".to_string(), "a b".to_string()));
    req.auth = AuthType::ApiKey {
        key: "api_key".to_string(),
        value: "secret".to_string(),
        add_to: ApiKeyLocation::Query,
    };
    let built = build_request(&req, "B").unwrap();
    assert_eq!(built.url, "http://example.com/?q=a+b&api_key=secret");
    assert!(!header_names(&built.headers).iter().any(|n| n == "api_key"));
}

#[test]
fn invalid_url_is_rejected() {
    let req = base_request("not a url");
    assert!(build_request(&req, "B").is_err());
}

#[test]
fn cookie_header_joins_pairs_in_order() {
    let mk = |n: &str, v: &str| Cookie {
        name: n.to_string(),
        value: v.to_string(),
        domain: None,
        path: None,
        expires: None,
        http_only: None,
        secure: None,
    };
    assert_eq!(build_cookie_header(&[]), "");
    assert_eq!(
        build_cookie_header(&[mk("a", "1"), mk("b", "2")]),
        "a=1; b=2"
    );
}

#[test]
fn method_names_match_the_wire() {
    assert_eq!(method_to_curl_string(&Methods::GET), "GET");
    assert_eq!(method_to_curl_string(&Methods::POST), "POST");
    assert_eq!(method_to_curl_string(&Methods::PUT), "PUT");
    assert_eq!(method_to_curl_string(&Methods::DELETE), "DELETE");
    assert_eq!(method_to_curl_string(&Methods::PATCH), "PATCH");
    assert_eq!(method_to_curl_string(&Methods::HEAD), "HEAD");
    assert_eq!(method_to_curl_string(&Methods::OPTIONS), "OPTIONS");
    assert_eq!(method_to_curl_string(&Methods::TRACE), "TRACE");
    assert_eq!(method_to_curl_string(&Methods::CONNECT), "CONNECT");
}

#[test]
fn defaults_apply_only_when_absent() {
    let mut req = base_request("http://example.com/");
    req.timeout_ms = None;
    req.follow_redirects = None;
    req.max_redirects = None;
    req.verify_ssl = None;
    let p = effective_policy(&req);
    assert_eq!(p.timeout_ms, None);
    assert!(p.follow_redirects);
    assert_eq!(p.max_redirects, 10);
    assert!(p.verify_ssl);

    req.follow_redirects = Some(false);
    req.verify_ssl = Some(false);
    req.max_redirects = Some(0);
    req.timeout_ms = Some(0);
    let p = effective_policy(&req);
    assert_eq!(p.timeout_ms, Some(0));
    assert!(!p.follow_redirects);
    assert_eq!(p.max_redirects, 0);
    assert!(!p.verify_ssl);
}

#[test]
fn build_is_deterministic_for_same_boundary() {
    let mut req = base_request("http://example.com/a");
    req.headers.push(("H".to_string(), "1".to_string()));
    req.query_params.push(("x".to_string(), "y".to_string()));
    req.body = BodyType::FormUrlEncoded {
        fields: vec![("a".to_string(), "b".to_string())],
    };
    let b1 = build_request(&req, "SAME").unwrap();
    let b2 = build_request(&req, "SAME").unwrap();
    assert_eq!(b1.url, b2.url);
    assert_eq!(b1.headers, b2.headers);
    assert_eq!(b1.body, b2.body);
}

#[test]
fn boundaries_do_not_collide_across_rapid_calls() {
    let mut seen: Vec<String> = (0..50).map(|_| uuid_simple()).collect();
    seen.sort();
    for w in seen.windows(2) {
        assert_ne!(w[0], w[1]);
    }
    let b = gen_boundary();
    assert!(b.starts_with("----WebKitFormBoundary"));
    assert!(b.is_ascii());
}
