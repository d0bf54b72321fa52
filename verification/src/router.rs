use vstd::prelude::*;

use crate::config::Config;
use crate::request::{
    host_or_empty, https_location_of, is_https, request_is_https, request_scheme, screen_request, DecisionView,
    RequestDecision, RequestInfo, RequestView,
};
use crate::response::{
    json_response, json_response_plan, redirect_plan, ResponsePlan, ResponseView,
    STATUS_BAD_GATEWAY, STATUS_FORBIDDEN, STATUS_PAYLOAD_TOO_LARGE,
};
use crate::text::{bytes_end_with, ends_with, texts, utf8};

verus! {

/// The largest request body that the proxy accepts: 120 MiB.
pub const MAX_BODY_SIZE: usize = 120 * 1024 * 1024;

/// A request body of `total` bytes is over the limit.
pub open spec fn exceeds_body_limit(total: nat) -> bool {
    total > MAX_BODY_SIZE
}

/// The answer to a request whose body grew over the limit.
pub open spec fn payload_too_large_response() -> ResponseView {
    json_response(STATUS_PAYLOAD_TOO_LARGE, "payload too large (max: 120mb)"@, true)
}

/// The length of an optional body chunk; no chunk counts as none.
pub open spec fn chunk_len(chunk: Option<usize>) -> nat {
    match chunk {
        Some(n) => n as nat,
        None => 0,
    }
}

/// The view of an optional answer.
pub open spec fn opt_response(r: Option<ResponsePlan>) -> Option<ResponseView> {
    match r {
        Some(p) => Some(p@),
        None => None,
    }
}

/// What counting one more body chunk does, for the router and the balancer
/// alike: the new total, and the `413` answer exactly when it is over the
/// limit.
pub open spec fn body_filter_outcome(received: nat, chunk: Option<usize>) -> (nat, Option<ResponseView>) {
    let total = received + chunk_len(chunk);
    (total, if exceeds_body_limit(total) { Some(payload_too_large_response()) } else { None })
}

/// The answer owed once `total` bytes of body have arrived, if any.
pub fn body_limit_response(total: usize) -> (r: Option<ResponsePlan>)
    ensures
        r is Some <==> exceeds_body_limit(total as nat),
        r matches Some(p) ==> p@ == payload_too_large_response(),
{
    if total > MAX_BODY_SIZE {
        Some(json_response_plan(STATUS_PAYLOAD_TOO_LARGE, "payload too large (max: 120mb)", true))
    } else {
        None
    }
}

/// The state that the router keeps for one request: how many body bytes
/// have arrived so far.
pub struct RouterContext {
    body_size: usize,
}

impl RouterContext {
    /// The number of body bytes received so far.
    pub closed spec fn received(&self) -> nat {
        self.body_size as nat
    }

    /// The state of a request that has received no body yet.
    pub fn new() -> (r: Self)
        ensures
            r.received() == 0,
    {
        RouterContext { body_size: 0 }
    }

    pub fn body_size(&self) -> (r: usize)
        ensures
            r == self.received(),
    {
        self.body_size
    }

    /// Counts a body chunk of `chunk` bytes (none when there is no chunk)
    /// and, once the total is over [`MAX_BODY_SIZE`], returns the
    /// `413 Payload Too Large` answer to write.
    pub fn request_body_filter(&mut self, chunk: Option<usize>) -> (r: Option<ResponsePlan>)
        requires
            old(self).received() + chunk_len(chunk) <= usize::MAX,
        ensures
            final(self).received() == old(self).received() + chunk_len(chunk),
            r is Some <==> exceeds_body_limit(final(self).received()),
            r matches Some(p) ==> p@ == payload_too_large_response(),
            (final(self).received(), opt_response(r)) == body_filter_outcome(old(self).received(), chunk),
    {
        if let Some(n) = chunk {
            self.body_size = self.body_size + n;
        }
        body_limit_response(self.body_size)
    }
}

/// An upstream cluster and the host name suffix that it serves.
pub struct RouterService<S> {
    pub host_name: String,
    pub service: S,
}

/// A host is served by a route whose host name is a suffix of it.
pub open spec fn route_serves(host: Seq<char>, host_name: Seq<char>) -> bool {
    ends_with(utf8(host), utf8(host_name))
}

/// A host is accepted when one of the allowed names is a suffix of it.
pub open spec fn host_allowed(host: Seq<char>, allow_hosts: Seq<Seq<char>>) -> bool {
    exists|i: int| 0 <= i < allow_hosts.len() && ends_with(utf8(host), utf8(#[trigger] allow_hosts[i]))
}

/// The proxy's front door: which hosts it accepts and which cluster
/// serves each of them.
pub struct Router<S> {
    pub allow_hosts: Vec<String>,
    pub routes: Vec<RouterService<S>>,
}

impl<S> Router<S> {
    pub open spec fn allowed_names(&self) -> Seq<Seq<char>> {
        texts(self.allow_hosts@)
    }

    pub open spec fn route_names(&self) -> Seq<Seq<char>> {
        self.routes@.map_values(|r: RouterService<S>| r.host_name@)
    }

    /// What the router does with `req` before choosing an upstream.
    pub open spec fn decision(&self, req: RequestView) -> DecisionView {
        screen_request(req, |h: Seq<char>| host_allowed(h, self.allowed_names()))
    }

    /// The first route that serves `host`, if one does.
    pub open spec fn is_first_route(&self, host: Seq<char>, i: int) -> bool {
        &&& 0 <= i < self.routes@.len()
        &&& route_serves(host, self.route_names()[i])
        &&& forall|j: int| 0 <= j < i ==> !route_serves(host, #[trigger] self.route_names()[j])
    }

    /// Decides whether one of the allowed names is a suffix of `host`.
    pub fn is_host_allowed(&self, host: &str) -> (r: bool)
        ensures
            r == host_allowed(host@, self.allowed_names()),
    {
        let mut i: usize = 0;
        while i < self.allow_hosts.len()
            invariant
                i <= self.allow_hosts@.len(),
                forall|j: int|
                    0 <= j < i ==> !ends_with(utf8(host@), utf8(#[trigger] self.allowed_names()[j])),
            decreases self.allow_hosts@.len() - i,
        {
            if bytes_end_with(host.as_bytes(), self.allow_hosts[i].as_str().as_bytes()) {
                assert(ends_with(utf8(host@), utf8(self.allowed_names()[i as int])));
                return true;
            }
            i = i + 1;
        }
        false
    }

    /// Screens a request before it is routed: a request without a host is
    /// answered `502`, one that did not come over `https` is redirected to
    /// its `https` address, one for a host that is not allowed is answered
    /// `403`; any other request is forwarded. `server_port` is the port the
    /// request arrived on; it must be known for a request with a host that
    /// came over `https`, and no answer depends on it.
    pub fn request_filter(&self, req: &RequestInfo, server_port: Option<u16>) -> (r: RequestDecision)
        requires
            req@.host is Some && is_https(req@) ==> server_port is Some,
        ensures
            r@ == self.decision(req@),
    {
        match &req.host {
            None => RequestDecision::Respond(
                json_response_plan(STATUS_BAD_GATEWAY, "Host invalid", false),
            ),
            Some(host) => {
                let https = request_is_https(req);
                if !https {
                    let location = https_location_of(host.as_str(), req);
                    return RequestDecision::Respond(
                        redirect_plan(location.as_str(), request_scheme(req)),
                    );
                }
                let plain_on_tls_port = !https && match server_port {
                    Some(port) => port == 443,
                    None => false,
                };
                if plain_on_tls_port {
                    return RequestDecision::Respond(
                        json_response_plan(STATUS_FORBIDDEN, "Http is not allow", true),
                    );
                }
                if !self.is_host_allowed(host.as_str()) {
                    return RequestDecision::Respond(
                        json_response_plan(STATUS_FORBIDDEN, "Host is not allow", true),
                    );
                }
                RequestDecision::Forward
            },
        }
    }

    /// The router described by `cfg`: its allowed hosts, and one route per
    /// proxied site, in the file's order, each served by the cluster built
    /// for that site.
    pub fn from_config(cfg: &Config, services: Vec<S>) -> (r: Router<S>)
        requires
            services@.len() == cfg.proxies@.len(),
        ensures
            r.allow_hosts@ == cfg.allow_hosts@,
            r.routes@.len() == cfg.proxies@.len(),
            forall|i: int|
                0 <= i < r.routes@.len() ==> (#[trigger] r.routes@[i]).host_name == cfg.proxies@[i].name
                    && r.routes@[i].service == services@[i],
    {
        let ghost given = services@;
        let mut rest = services;
        let mut routes: Vec<RouterService<S>> = Vec::new();
        let mut i: usize = 0;
        while i < cfg.proxies.len()
            invariant
                i <= cfg.proxies@.len(),
                given.len() == cfg.proxies@.len(),
                rest@ == given.subrange(i as int, given.len() as int),
                routes@.len() == i,
                forall|k: int|
                    0 <= k < i ==> (#[trigger] routes@[k]).host_name == cfg.proxies@[k].name
                        && routes@[k].service == given[k],
            decreases cfg.proxies@.len() - i,
        {
            let service = rest.remove(0);
            let host_name = cfg.proxies[i].name.clone();
            routes.push(RouterService { host_name, service });
            i = i + 1;
        }
        Router { allow_hosts: cfg.allow_hosts.clone(), routes }
    }

    /// A fresh per-request state.
    pub fn new_ctx(&self) -> (r: RouterContext)
        ensures
            r.received() == 0,
    {
        RouterContext::new()
    }

    /// The route that serves a request: the first whose host name is a
    /// suffix of the request's host (the empty text when it has none). Some
    /// route must serve it.
    pub fn upstream_peer(&self, req: &RequestInfo) -> (r: usize)
        requires
            exists|j: int|
                0 <= j < self.routes@.len() && route_serves(
                    host_or_empty(req@),
                    #[trigger] self.route_names()[j],
                ),
        ensures
            self.is_first_route(host_or_empty(req@), r as int),
    {
        match self.find_route(upstream_host(req)) {
            Some(i) => i,
            None => {
                assert(false);
                0
            },
        }
    }

    /// The index of the first route whose host name is a suffix of `host`.
    pub fn find_route(&self, host: &str) -> (r: Option<usize>)
        ensures
            r matches Some(i) ==> self.is_first_route(host@, i as int),
            r is None ==> forall|j: int|
                0 <= j < self.routes@.len() ==> !route_serves(host@, #[trigger] self.route_names()[j]),
    {
        let mut i: usize = 0;
        while i < self.routes.len()
            invariant
                i <= self.routes@.len(),
                forall|j: int| 0 <= j < i ==> !route_serves(host@, #[trigger] self.route_names()[j]),
            decreases self.routes@.len() - i,
        {
            if bytes_end_with(host.as_bytes(), self.routes[i].host_name.as_str().as_bytes()) {
                assert(route_serves(host@, self.route_names()[i as int]));
                return Some(i);
            }
            i = i + 1;
        }
        None
    }
}

/// The host that a request is sent upstream for: its own, or the empty text.
pub fn upstream_host(req: &RequestInfo) -> (r: &str)
    ensures
        r@ == host_or_empty(req@),
{
    match &req.host {
        Some(h) => h.as_str(),
        None => {
            proof {
                reveal_strlit("");
            }
            ""
        },
    }
}

} // verus!
