//! The value types of the request/response model.

use vstd::prelude::*;

verus! {

/// The HTTP verbs the engine can issue.
#[derive(Clone, Copy, PartialEq, Eq, Structural, Debug)]
pub enum Methods {
    GET,
    POST,
    PUT,
    DELETE,
    PATCH,
    HEAD,
    OPTIONS,
    TRACE,
    CONNECT,
}

/// Where an API key credential is placed: as a request header or as an
/// extra query pair.
#[derive(Clone, Copy, PartialEq, Eq, Structural, Debug)]
pub enum ApiKeyLocation {
    Header,
    Query,
}

/// The authentication variants of a request model.
#[derive(Clone, Debug)]
pub enum AuthType {
    NoAuth,
    Basic { username: String, password: String },
    Bearer { token: String },
    ApiKey { key: String, value: String, add_to: ApiKeyLocation },
}

/// One field of a multipart body: a plain text value or a file payload.
#[derive(Clone, Debug)]
pub enum MultipartValue {
    Text(String),
    File { data: Vec<u8>, filename: String, content_type: Option<String> },
}

/// A named multipart field.
#[derive(Clone, Debug)]
pub struct MultipartField {
    pub name: String,
    pub value: MultipartValue,
}

/// The body variants of a request model; exactly one is active.
#[derive(Clone, Debug)]
pub enum BodyType {
    NoBody,
    Raw { content: String, content_type: Option<String> },
    FormUrlEncoded { fields: Vec<(String, String)> },
    Multipart { fields: Vec<MultipartField> },
    Binary { data: Vec<u8>, filename: Option<String> },
}

/// A cookie, either sent with a request or parsed from a `Set-Cookie`
/// response header.
#[derive(Clone, Debug)]
pub struct Cookie {
    pub name: String,
    pub value: String,
    pub domain: Option<String>,
    pub path: Option<String>,
    pub expires: Option<String>,
    pub http_only: Option<bool>,
    pub secure: Option<bool>,
}

/// The mathematical model of a [`Cookie`]: every text field as a sequence
/// of characters.
pub ghost struct CookieModel {
    pub name: Seq<char>,
    pub value: Seq<char>,
    pub domain: Option<Seq<char>>,
    pub path: Option<Seq<char>>,
    pub expires: Option<Seq<char>>,
    pub http_only: Option<bool>,
    pub secure: Option<bool>,
}

impl View for Cookie {
    type V = CookieModel;

    open spec fn view(&self) -> CookieModel {
        CookieModel {
            name: self.name@,
            value: self.value@,
            domain: match self.domain {
                Option::Some(ref d) => Option::Some(d@),
                Option::None => Option::None,
            },
            path: match self.path {
                Option::Some(ref p) => Option::Some(p@),
                Option::None => Option::None,
            },
            expires: match self.expires {
                Option::Some(ref e) => Option::Some(e@),
                Option::None => Option::None,
            },
            http_only: self.http_only,
            secure: self.secure,
        }
    }
}

/// The view of a sequence of string pairs: each side as its character
/// sequence.
pub open spec fn kv_views(s: Seq<(String, String)>) -> Seq<(Seq<char>, Seq<char>)> {
    s.map_values(|p: (String, String)| (p.0@, p.1@))
}

/// The view of an optional string.
pub open spec fn opt_str_view(o: Option<String>) -> Option<Seq<char>> {
    match o {
        Option::Some(s) => Option::Some(s@),
        Option::None => Option::None,
    }
}

/// The view of an optional byte buffer.
pub open spec fn opt_bytes_view(o: Option<Vec<u8>>) -> Option<Seq<u8>> {
    match o {
        Option::Some(v) => Option::Some(v@),
        Option::None => Option::None,
    }
}

/// The models of a sequence of cookies.
pub open spec fn cookie_models(s: Seq<Cookie>) -> Seq<CookieModel> {
    s.map_values(|c: Cookie| c@)
}

/// A transport-level protocol hint carried by the request model. The
/// executor never attempts QUIC: HTTP/3 negotiation is out of scope, so the
/// hint does not change what is put on the wire.
#[derive(Clone, Copy, PartialEq, Eq, Structural, Debug)]
pub enum HttpProtocol {
    Tcp,
    Quic,
}

impl Default for HttpProtocol {
    fn default() -> (r: Self)
        ensures
            r == HttpProtocol::Tcp,
    {
        HttpProtocol::Tcp
    }
}

/// An outbound proxy: its URL and optional basic credentials.
#[derive(Clone, Debug)]
pub struct ProxyConfig {
    pub url: String,
    pub username: Option<String>,
    pub password: Option<String>,
}

/// An immutable description of one HTTP call.
///
/// Defaults apply only when an optional policy field is absent, never when
/// it is explicitly `false` or zero; see [`crate::builder::effective_policy`].
#[derive(Clone, Debug)]
pub struct ApiRequest {
    pub method: Methods,
    pub url: String,
    pub headers: Vec<(String, String)>,
    pub body: BodyType,
    pub auth: AuthType,
    pub query_params: Vec<(String, String)>,
    pub cookies: Vec<Cookie>,
    pub timeout_ms: Option<u32>,
    pub follow_redirects: Option<bool>,
    pub max_redirects: Option<u32>,
    pub verify_ssl: Option<bool>,
    pub proxy: Option<ProxyConfig>,
    pub protocol: Option<HttpProtocol>,
}

impl Default for ApiRequest {
    /// A GET of the empty URL with every policy field at its default.
    fn default() -> (r: Self)
        ensures
            r.method == Methods::GET,
            r.url@ == Seq::<char>::empty(),
            r.headers@ == Seq::<(String, String)>::empty(),
            r.body is NoBody,
            r.auth is NoAuth,
            r.query_params@ == Seq::<(String, String)>::empty(),
            r.cookies@ == Seq::<Cookie>::empty(),
            r.timeout_ms == Option::Some(30000u32),
            r.follow_redirects == Option::Some(true),
            r.max_redirects == Option::Some(10u32),
            r.verify_ssl == Option::Some(true),
            r.proxy is None,
            r.protocol is None,
    {
        ApiRequest {
            method: Methods::GET,
            url: String::new(),
            headers: Vec::new(),
            body: BodyType::NoBody,
            auth: AuthType::NoAuth,
            query_params: Vec::new(),
            cookies: Vec::new(),
            timeout_ms: Option::Some(30000),
            follow_redirects: Option::Some(true),
            max_redirects: Option::Some(10),
            verify_ssl: Option::Some(true),
            proxy: Option::None,
            protocol: Option::None,
        }
    }
}

/// A capability tag: one way the response body could be displayed.
#[derive(Clone, Copy, PartialEq, Eq, Structural, Debug)]
pub enum ResponseRenderer {
    Raw,
    Json,
    Xml,
    Html,
    HtmlPreview,
    Image,
    Audio,
    Video,
    Pdf,
}

/// One intermediate hop of a redirect chain. The chain is reserved: the
/// current engine always reports it empty.
#[derive(Clone, Debug)]
pub struct RedirectEntry {
    pub url: String,
    pub status: u16,
}

/// The phase breakdown of one exchange, in whole milliseconds. Under the
/// reduced transport contract only `total_ms` is meaningful and every
/// sub-phase is zero.
#[derive(Clone, Copy, PartialEq, Eq, Structural, Debug)]
pub struct TimingInfo {
    pub total_ms: u64,
    pub dns_lookup_ms: u64,
    pub tcp_handshake_ms: u64,
    pub tls_handshake_ms: u64,
    pub transfer_start_ms: u64,
    pub ttfb_ms: u64,
    pub content_download_ms: u64,
}

/// Byte accounting for one direction of an exchange.
#[derive(Clone, Copy, PartialEq, Eq, Structural, Debug)]
pub struct SizeInfo {
    pub headers_bytes: u64,
    pub body_bytes: u64,
    pub total_bytes: u64,
}

/// The structured outcome of one execution. `status == 0` signals a
/// transport-level failure described by `error`; any received HTTP status,
/// even 4xx/5xx, is a successful exchange with `error` absent. Headers
/// keep first-seen order, a repeated name merged into one entry with its
/// values joined by `", "`.
#[derive(Clone, Debug)]
pub struct ApiResponse {
    pub status: u16,
    pub status_text: String,
    pub headers: Vec<(String, String)>,
    pub cookies: Vec<Cookie>,
    pub body_base64: String,
    pub timing: TimingInfo,
    pub request_size: SizeInfo,
    pub response_size: SizeInfo,
    pub redirects: Vec<RedirectEntry>,
    pub remote_addr: Option<String>,
    pub http_version: String,
    pub available_renderers: Vec<ResponseRenderer>,
    pub detected_content_type: Option<String>,
    pub protocol_used: String,
    pub error: Option<String>,
}

} // verus!
