use vstd::prelude::*;
use vstd::string::StringExecFns;

use crate::response::{
    json_response, redirect_response, HeaderField, ResponsePlan, ResponseView, STATUS_BAD_GATEWAY,
    STATUS_FORBIDDEN,
};
use crate::text::utf8;

verus! {

/// What the proxy reads of a request's URI.
#[derive(Debug, Clone)]
pub struct RequestInfo {
    pub host: Option<String>,
    pub scheme: Option<String>,
    pub path_and_query: Option<String>,
}

/// The text of an optional string.
pub open spec fn opt_text(s: Option<String>) -> Option<Seq<char>> {
    match s {
        Some(t) => Some(t@),
        None => None,
    }
}

/// The mathematical content of a [`RequestInfo`].
pub struct RequestView {
    pub host: Option<Seq<char>>,
    pub scheme: Option<Seq<char>>,
    pub path_and_query: Option<Seq<char>>,
}

impl View for RequestInfo {
    type V = RequestView;

    open spec fn view(&self) -> RequestView {
        RequestView {
            host: opt_text(self.host),
            scheme: opt_text(self.scheme),
            path_and_query: opt_text(self.path_and_query),
        }
    }
}

/// What the proxy does with a request before choosing an upstream.
#[derive(Debug, Clone)]
pub enum RequestDecision {
    /// Go on and forward the request upstream.
    Forward,
    /// Answer the request directly and stop.
    Respond(ResponsePlan),
}

pub enum DecisionView {
    Forward,
    Respond(ResponseView),
}

impl View for RequestDecision {
    type V = DecisionView;

    open spec fn view(&self) -> DecisionView {
        match self {
            RequestDecision::Forward => DecisionView::Forward,
            RequestDecision::Respond(p) => DecisionView::Respond(p@),
        }
    }
}

/// The scheme of a request; a URI without one counts as plain `http`.
pub open spec fn effective_scheme(req: RequestView) -> Seq<char> {
    match req.scheme {
        Some(s) => s,
        None => "http"@,
    }
}

pub open spec fn is_https(req: RequestView) -> bool {
    effective_scheme(req) == "https"@
}

/// Where a plain request for `host` is sent: the same host and path over
/// `https`, with `/` for a URI without a path.
pub open spec fn https_location(host: Seq<char>, req: RequestView) -> Seq<char> {
    "https://"@ + host + match req.path_and_query {
        Some(p) => p,
        None => "/"@,
    }
}

/// The answer to a request without a host.
pub open spec fn host_invalid_response() -> ResponseView {
    json_response(STATUS_BAD_GATEWAY, "Host invalid"@, false)
}

/// The redirect that sends a request that did not come over `https` to
/// its `https` address, if it has a host.
pub open spec fn https_redirect(req: RequestView) -> ResponseView {
    redirect_response(https_location(req.host.unwrap(), req), effective_scheme(req))
}

/// Decides what to do with a request before it is routed, as
/// `Router::request_filter` does, and returns the answer to send if it is
/// not forwarded; `allowed` says whether the router accepts a host.
pub open spec fn screen_request(req: RequestView, allowed: spec_fn(Seq<char>) -> bool) -> DecisionView {
    match req.host {
        None => DecisionView::Respond(host_invalid_response()),
        Some(host) => if !is_https(req) {
            DecisionView::Respond(https_redirect(req))
        } else if !allowed(host) {
            DecisionView::Respond(json_response(STATUS_FORBIDDEN, "Host is not allow"@, true))
        } else {
            DecisionView::Forward
        },
    }
}

/// The host name that a request names, or the empty text.
pub open spec fn host_or_empty(req: RequestView) -> Seq<char> {
    match req.host {
        Some(h) => h,
        None => Seq::empty(),
    }
}

/// The host used in forwarded headers: the request's, or `unknown-host`.
pub open spec fn forwarded_host(req: RequestView) -> Seq<char> {
    match req.host {
        Some(h) => h,
        None => "unknown-host"@,
    }
}

/// The headers set on a request before it goes upstream, for a client at
/// `client_addr`.
pub open spec fn upstream_headers(client_addr: Seq<char>, req: RequestView) -> Seq<(HeaderField, Seq<u8>)> {
    seq![
        (HeaderField::XForwardedFor, utf8(client_addr)),
        (HeaderField::XForwardedProto, utf8(effective_scheme(req))),
        (HeaderField::XForwardedHost, utf8(forwarded_host(req))),
        (HeaderField::Host, utf8(forwarded_host(req))),
    ]
}

/// The view of a list of header fields.
pub open spec fn headers_view(h: Seq<(HeaderField, Vec<u8>)>) -> Seq<(HeaderField, Seq<u8>)> {
    h.map_values(|f: (HeaderField, Vec<u8>)| (f.0, f.1@))
}

/// The scheme of `req` as text.
pub fn request_scheme(req: &RequestInfo) -> (r: &str)
    ensures
        r@ == effective_scheme(req@),
{
    match &req.scheme {
        Some(s) => s.as_str(),
        None => "http",
    }
}

/// Decides whether `req` came in over `https`.
pub fn request_is_https(req: &RequestInfo) -> (r: bool)
    ensures
        r == is_https(req@),
{
    let scheme = String::from_str(request_scheme(req));
    let https = String::from_str("https");
    scheme == https
}

/// The `https` address that a plain request for `host` is sent to.
pub fn https_location_of(host: &str, req: &RequestInfo) -> (r: String)
    ensures
        r@ == https_location(host@, req@),
{
    let mut location = String::from_str("https://");
    location.append(host);
    match &req.path_and_query {
        Some(p) => location.append(p.as_str()),
        None => location.append("/"),
    }
    location
}

/// The headers to set on a request before it goes upstream: who sent it,
/// over which scheme, and for which host.
pub fn upstream_request_headers(client_addr: &str, req: &RequestInfo) -> (r: Vec<(HeaderField, Vec<u8>)>)
    ensures
        headers_view(r@) == upstream_headers(client_addr@, req@),
{
    let scheme = request_scheme(req);
    let host: &str = match &req.host {
        Some(h) => h.as_str(),
        None => "unknown-host",
    };
    let mut headers: Vec<(HeaderField, Vec<u8>)> = Vec::new();
    headers.push((HeaderField::XForwardedFor, vstd::slice::slice_to_vec(client_addr.as_bytes())));
    headers.push((HeaderField::XForwardedProto, vstd::slice::slice_to_vec(scheme.as_bytes())));
    headers.push((HeaderField::XForwardedHost, vstd::slice::slice_to_vec(host.as_bytes())));
    headers.push((HeaderField::Host, vstd::slice::slice_to_vec(host.as_bytes())));
    assert(headers_view(headers@) =~= upstream_headers(client_addr@, req@));
    headers
}

} // verus!
