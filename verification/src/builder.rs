//! The request builder: deterministically lowers a request model into
//! transport primitives — the final URL with merged query pairs, the
//! injected header list, and the encoded body bytes.

use vstd::prelude::*;
use crate::types::{
    ApiKeyLocation, ApiRequest, AuthType, BodyType, Cookie, Methods, ProxyConfig, cookie_models,
    kv_views, opt_bytes_view, opt_str_view,
};
use crate::encode::{
    base64_encode, base64_of, encode_multipart, extend_str, fe_fields, form_urlencode,
    multipart_bytes, str_bytes,
};

verus! {

/// Whether the `url` crate accepts `s` as an absolute URL.
pub uninterp spec fn url_parse_ok(s: Seq<char>) -> bool;

/// The serialization of the URL `s` after the given pairs are appended to
/// its query, percent-encoded, in order.
pub uninterp spec fn url_with_query(s: Seq<char>, pairs: Seq<(Seq<char>, Seq<char>)>) -> Seq<char>;

/// Relies on `url::Url::parse` for URL validation and on
/// `form_urlencoded::Serializer::append_pair` (via `Url::query_pairs_mut`)
/// for appending percent-encoded query pairs in order; the reserialized
/// URL is a function of the base string and the pairs alone.
#[verifier::external_body]
fn url_append_pairs(base: &str, pairs: &Vec<(String, String)>) -> (r: Option<String>)
    ensures
        r is Some <==> url_parse_ok(base@),
        r matches Some(u) ==> u@ == url_with_query(base@, kv_views(pairs@)),
{
    match url::Url::parse(base) {
        Ok(mut u) => {
            {
                let mut q = u.query_pairs_mut();
                for (k, v) in pairs.iter() {
                    q.append_pair(k, v);
                }
            }
            Some(u.to_string())
        },
        Err(_) => None,
    }
}

/// The wire name of an HTTP verb.
pub open spec fn method_str(m: Methods) -> Seq<char> {
    match m {
        Methods::GET => "GET"@,
        Methods::POST => "POST"@,
        Methods::PUT => "PUT"@,
        Methods::DELETE => "DELETE"@,
        Methods::PATCH => "PATCH"@,
        Methods::HEAD => "HEAD"@,
        Methods::OPTIONS => "OPTIONS"@,
        Methods::TRACE => "TRACE"@,
        Methods::CONNECT => "CONNECT"@,
    }
}

/// The wire name of an HTTP verb, for a transport that takes verbs as
/// strings.
pub fn method_to_curl_string(method: &Methods) -> (r: &'static str)
    ensures
        r@ == method_str(*method),
{
    match method {
        Methods::GET => "GET",
        Methods::POST => "POST",
        Methods::PUT => "PUT",
        Methods::DELETE => "DELETE",
        Methods::PATCH => "PATCH",
        Methods::HEAD => "HEAD",
        Methods::OPTIONS => "OPTIONS",
        Methods::TRACE => "TRACE",
        Methods::CONNECT => "CONNECT",
    }
}

/// The request `Cookie` header value: `name=value` pairs joined by `"; "`
/// in list order.
pub open spec fn cookie_pairs_join(cs: Seq<crate::types::CookieModel>) -> Seq<char>
    decreases cs.len(),
{
    if cs.len() == 0 {
        Seq::empty()
    } else if cs.len() == 1 {
        cs[0].name + "="@ + cs[0].value
    } else {
        cookie_pairs_join(cs.drop_last()) + "; "@ + cs.last().name + "="@ + cs.last().value
    }
}

/// Builds the request `Cookie` header value from `cookies`.
pub fn build_cookie_header(cookies: &[Cookie]) -> (r: String)
    ensures
        r@ == cookie_pairs_join(cookie_models(cookies@)),
{
    let ghost m = cookie_models(cookies@);
    let mut s = String::new();
    let n = cookies.len();
    let mut i: usize = 0;
    while i < n
        invariant
            n == cookies@.len(),
            m == cookie_models(cookies@),
            i <= n,
            s@ == cookie_pairs_join(m.take(i as int)),
        decreases n - i,
    {
        if i > 0 {
            s.append("; ");
        }
        s.append(cookies[i].name.as_str());
        s.append("=");
        s.append(cookies[i].value.as_str());
        i += 1;
        proof {
            let pre = m.take(i as int);
            assert(pre.drop_last() =~= m.take(i - 1));
            assert(pre.last() == m[i - 1]);
            assert(m[i - 1].name == cookies@[i - 1]@.name);
        }
    }
    proof {
        assert(m.take(n as int) =~= m);
    }
    s
}

/// The headers injected for an authentication variant: `Basic` and
/// `Bearer` produce an `Authorization` header, a header-located API key a
/// header named by the key; a query-located key and no auth produce none.
pub open spec fn auth_headers(auth: AuthType) -> Seq<(Seq<char>, Seq<char>)> {
    match auth {
        AuthType::NoAuth => Seq::empty(),
        AuthType::Basic { username, password } => seq![
            (
                "Authorization"@,
                "Basic "@ + base64_of(
                    str_bytes(username@) + seq![58u8] + str_bytes(password@),
                ),
            ),
        ],
        AuthType::Bearer { token } => seq![("Authorization"@, "Bearer "@ + token@)],
        AuthType::ApiKey { key, value, add_to } => if add_to == ApiKeyLocation::Header {
            seq![(key@, value@)]
        } else {
            Seq::empty()
        },
    }
}

/// The `Cookie` header, present only when the cookie list is non-empty.
pub open spec fn cookie_headers(cookies: Seq<Cookie>) -> Seq<(Seq<char>, Seq<char>)> {
    if cookies.len() == 0 {
        Seq::empty()
    } else {
        seq![("Cookie"@, cookie_pairs_join(cookie_models(cookies)))]
    }
}

/// The `Content-Type` header a body variant carries: none for an absent
/// body, the declared type (if any) for a raw body, and the fixed types
/// of the encoded variants.
pub open spec fn content_type_headers(body: BodyType, boundary: Seq<char>) -> Seq<
    (Seq<char>, Seq<char>),
> {
    match body {
        BodyType::NoBody => Seq::empty(),
        BodyType::Raw { content, content_type } => match content_type {
            Option::Some(ct) => seq![("Content-Type"@, ct@)],
            Option::None => Seq::empty(),
        },
        BodyType::FormUrlEncoded { .. } => seq![
            ("Content-Type"@, "application/x-www-form-urlencoded"@),
        ],
        BodyType::Multipart { .. } => seq![
            ("Content-Type"@, "multipart/form-data; boundary="@ + boundary),
        ],
        BodyType::Binary { .. } => seq![("Content-Type"@, "application/octet-stream"@)],
    }
}

/// Every header of the built request, in order: the explicit headers
/// verbatim, then auth, then the `Cookie` header, then the body's
/// `Content-Type`.
pub open spec fn built_headers(req: ApiRequest, boundary: Seq<char>) -> Seq<
    (Seq<char>, Seq<char>),
> {
    kv_views(req.headers@) + auth_headers(req.auth) + cookie_headers(req.cookies@)
        + content_type_headers(req.body, boundary)
}

/// The encoded body bytes of a body variant, if it carries any.
pub open spec fn body_bytes_spec(body: BodyType, boundary: Seq<char>) -> Option<Seq<u8>> {
    match body {
        BodyType::NoBody => Option::None,
        BodyType::Raw { content, .. } => Option::Some(str_bytes(content@)),
        BodyType::FormUrlEncoded { fields } => Option::Some(fe_fields(fields@)),
        BodyType::Multipart { fields } => Option::Some(multipart_bytes(fields@, boundary)),
        BodyType::Binary { data, .. } => Option::Some(data@),
    }
}

/// The query pair a query-located API key adds, appended after every
/// explicit query pair.
pub open spec fn auth_query_pairs(auth: AuthType) -> Seq<(Seq<char>, Seq<char>)> {
    match auth {
        AuthType::ApiKey { key, value, add_to } => if add_to == ApiKeyLocation::Query {
            seq![(key@, value@)]
        } else {
            Seq::empty()
        },
        _ => Seq::empty(),
    }
}

/// Every query pair appended to the base URL, in order.
pub open spec fn final_pairs(req: ApiRequest) -> Seq<(Seq<char>, Seq<char>)> {
    kv_views(req.query_params@) + auth_query_pairs(req.auth)
}

/// The transport primitives a request model lowers to.
pub struct BuiltRequest {
    pub url: String,
    pub headers: Vec<(String, String)>,
    pub body: Option<Vec<u8>>,
}

/// The one failure the inbound operation can raise: the base URL did not
/// parse, found before any network activity.
#[derive(Clone, Copy, PartialEq, Eq, Structural, Debug)]
pub enum ExecuteError {
    InvalidUrl,
}

/// Encodes the body bytes of a body variant.
pub fn encode_body(body: &BodyType, boundary: &str) -> (r: Option<Vec<u8>>)
    ensures
        opt_bytes_view(r) == body_bytes_spec(*body, boundary@),
{
    match body {
        BodyType::NoBody => Option::None,
        BodyType::Raw { content, .. } => Option::Some(content.as_str().as_bytes_vec()),
        BodyType::FormUrlEncoded { fields } => Option::Some(form_urlencode(fields)),
        BodyType::Multipart { fields } => Option::Some(encode_multipart(fields, boundary)),
        BodyType::Binary { data, .. } => {
            let mut v: Vec<u8> = Vec::new();
            crate::encode::extend_bytes(&mut v, data.as_slice());
            proof {
                assert(v@ =~= data@);
            }
            Option::Some(v)
        },
    }
}

/// Assembles the built header list of a request.
#[verifier::rlimit(100)]
pub fn inject_headers(req: &ApiRequest, boundary: &str) -> (hs: Vec<(String, String)>)
    ensures
        kv_views(hs@) == built_headers(*req, boundary@),
{
    let mut hs: Vec<(String, String)> = Vec::new();
    let n = req.headers.len();
    let mut i: usize = 0;
    while i < n
        invariant
            n == req.headers@.len(),
            i <= n,
            hs@.len() == i,
            kv_views(hs@) == kv_views(req.headers@).take(i as int),
        decreases n - i,
    {
        let name = req.headers[i].0.clone();
        let value = req.headers[i].1.clone();
        let ghost hs0 = hs@;
        hs.push((name, value));
        proof {
            let s = req.headers@;
            assert(hs@ == hs0.push((name, value)));
            assert(hs@[i as int] == (name, value));
            assert forall|k: int| 0 <= k <= i implies kv_views(hs@)[k] == kv_views(s).take(
                i + 1,
            )[k] by {
                if k < i {
                    assert(kv_views(hs0)[k] == kv_views(s).take(i as int)[k]);
                    assert(hs@[k] == hs0[k]);
                } else {
                    assert(hs@[k] == (name, value));
                }
            }
            assert(kv_views(hs@) =~~= kv_views(s).take(i + 1));
        }
        i += 1;
    }
    proof {
        assert(kv_views(req.headers@).take(n as int) =~~= kv_views(req.headers@));
    }
    let ghost explicit = kv_views(req.headers@);
    match &req.auth {
        AuthType::NoAuth => {},
        AuthType::Basic { username, password } => {
            let mut creds: Vec<u8> = Vec::new();
            extend_str(&mut creds, username.as_str());
            creds.push(58);
            extend_str(&mut creds, password.as_str());
            proof {
                assert(creds@ =~= str_bytes(username@) + seq![58u8] + str_bytes(password@));
            }
            let b64 = base64_encode(&creds);
            let value = String::from_str("Basic ").concat(b64.as_str());
            hs.push((String::from_str("Authorization"), value));
        },
        AuthType::Bearer { token } => {
            let value = String::from_str("Bearer ").concat(token.as_str());
            hs.push((String::from_str("Authorization"), value));
        },
        AuthType::ApiKey { key, value, add_to } => {
            match add_to {
                ApiKeyLocation::Header => {
                    hs.push((key.clone(), value.clone()));
                },
                ApiKeyLocation::Query => {},
            }
        },
    }
    proof {
        assert(kv_views(hs@) =~~= explicit + auth_headers(req.auth));
    }
    let ghost with_auth = explicit + auth_headers(req.auth);
    if req.cookies.len() > 0 {
        let value = build_cookie_header(req.cookies.as_slice());
        hs.push((String::from_str("Cookie"), value));
    }
    proof {
        assert(kv_views(hs@) =~~= with_auth + cookie_headers(req.cookies@));
    }
    let ghost with_cookies = with_auth + cookie_headers(req.cookies@);
    match &req.body {
        BodyType::NoBody => {},
        BodyType::Raw { content_type, .. } => {
            match content_type {
                Option::Some(ct) => {
                    hs.push((String::from_str("Content-Type"), ct.clone()));
                },
                Option::None => {},
            }
        },
        BodyType::FormUrlEncoded { .. } => {
            hs.push(
                (
                    String::from_str("Content-Type"),
                    String::from_str("application/x-www-form-urlencoded"),
                ),
            );
        },
        BodyType::Multipart { .. } => {
            let value = String::from_str("multipart/form-data; boundary=").concat(boundary);
            hs.push((String::from_str("Content-Type"), value));
        },
        BodyType::Binary { .. } => {
            hs.push(
                (
                    String::from_str("Content-Type"),
                    String::from_str("application/octet-stream"),
                ),
            );
        },
    }
    proof {
        assert(kv_views(hs@) =~~= with_cookies + content_type_headers(req.body, boundary@));
    }
    hs
}

/// Lowers a request model into transport primitives, or reports
/// `InvalidUrl` exactly when the base URL does not parse.
pub fn build_request(req: &ApiRequest, boundary: &str) -> (r: Result<BuiltRequest, ExecuteError>)
    ensures
        r is Ok <==> url_parse_ok(req.url@),
        r matches Ok(b) ==> {
            &&& b.url@ == url_with_query(req.url@, final_pairs(*req))
            &&& kv_views(b.headers@) == built_headers(*req, boundary@)
            &&& opt_bytes_view(b.body) == body_bytes_spec(req.body, boundary@)
        },
        r matches Err(e) ==> e == ExecuteError::InvalidUrl,
{
    let mut pairs: Vec<(String, String)> = Vec::new();
    let n = req.query_params.len();
    let mut i: usize = 0;
    while i < n
        invariant
            n == req.query_params@.len(),
            i <= n,
            pairs@.len() == i,
            kv_views(pairs@) == kv_views(req.query_params@).take(i as int),
        decreases n - i,
    {
        let name = req.query_params[i].0.clone();
        let value = req.query_params[i].1.clone();
        let ghost ps0 = pairs@;
        pairs.push((name, value));
        proof {
            let s = req.query_params@;
            assert(pairs@ == ps0.push((name, value)));
            assert(pairs@[i as int] == (name, value));
            assert forall|k: int| 0 <= k <= i implies kv_views(pairs@)[k] == kv_views(s).take(
                i + 1,
            )[k] by {
                if k < i {
                    assert(kv_views(ps0)[k] == kv_views(s).take(i as int)[k]);
                    assert(pairs@[k] == ps0[k]);
                } else {
                    assert(pairs@[k] == (name, value));
                }
            }
            assert(kv_views(pairs@) =~~= kv_views(s).take(i + 1));
        }
        i += 1;
    }
    proof {
        assert(kv_views(req.query_params@).take(n as int) =~~= kv_views(req.query_params@));
    }
    match &req.auth {
        AuthType::ApiKey { key, value, add_to } => {
            match add_to {
                ApiKeyLocation::Query => {
                    pairs.push((key.clone(), value.clone()));
                },
                ApiKeyLocation::Header => {},
            }
        },
        _ => {},
    }
    proof {
        assert(kv_views(pairs@) =~~= final_pairs(*req));
    }
    match url_append_pairs(req.url.as_str(), &pairs) {
        Option::Some(u) => {
            let headers = inject_headers(req, boundary);
            let body = encode_body(&req.body, boundary);
            Result::Ok(BuiltRequest { url: u, headers, body })
        },
        Option::None => Result::Err(ExecuteError::InvalidUrl),
    }
}

/// The policy a transport must honor, with every default resolved: a
/// default applies only when the optional field is absent, never when it
/// is explicitly `false` or zero.
pub struct TransportPolicy {
    pub timeout_ms: Option<u32>,
    pub follow_redirects: bool,
    pub max_redirects: u32,
    pub verify_ssl: bool,
    pub proxy: Option<ProxyConfig>,
}

/// Resolves the optional policy fields of a request model: redirects are
/// followed by default with a cap of 10 hops, TLS is verified by default,
/// and an absent timeout means no enforced timeout.
pub fn effective_policy(req: &ApiRequest) -> (p: TransportPolicy)
    ensures
        p.timeout_ms == req.timeout_ms,
        p.follow_redirects == match req.follow_redirects {
            Option::Some(b) => b,
            Option::None => true,
        },
        p.max_redirects == match req.max_redirects {
            Option::Some(m) => m,
            Option::None => 10u32,
        },
        p.verify_ssl == match req.verify_ssl {
            Option::Some(b) => b,
            Option::None => true,
        },
        p.proxy is Some <==> req.proxy is Some,
        (match (p.proxy, req.proxy) {
            (Option::Some(a), Option::Some(b)) => a.url@ == b.url@ && opt_str_view(a.username)
                == opt_str_view(b.username) && opt_str_view(a.password) == opt_str_view(b.password),
            _ => true,
        }),
{
    let timeout_ms = req.timeout_ms;
    let follow_redirects = match req.follow_redirects {
        Option::Some(b) => b,
        Option::None => true,
    };
    let max_redirects = match req.max_redirects {
        Option::Some(m) => m,
        Option::None => 10,
    };
    let verify_ssl = match req.verify_ssl {
        Option::Some(b) => b,
        Option::None => true,
    };
    let proxy = match &req.proxy {
        Option::Some(pc) => Option::Some(
            ProxyConfig {
                url: pc.url.clone(),
                username: match &pc.username {
                    Option::Some(u) => Option::Some(u.clone()),
                    Option::None => Option::None,
                },
                password: match &pc.password {
                    Option::Some(w) => Option::Some(w.clone()),
                    Option::None => Option::None,
                },
            },
        ),
        Option::None => Option::None,
    };
    TransportPolicy { timeout_ms, follow_redirects, max_redirects, verify_ssl, proxy }
}

} // verus!
