use vstd::prelude::*;

use crate::request::{
    host_invalid_response, https_location_of, https_redirect, is_https, request_is_https,
    request_scheme, DecisionView, RequestDecision, RequestInfo, RequestView,
};
use crate::response::{json_response_plan, redirect_plan, ResponsePlan, STATUS_BAD_GATEWAY};
use crate::router::{body_filter_outcome, opt_response, body_limit_response, chunk_len, exceeds_body_limit, payload_too_large_response};

verus! {

/// What the single-cluster balancer does with a request: a request without
/// a host is answered `502`, one that did not come over `https` is
/// redirected to its `https` address, and any other is forwarded.
pub open spec fn lb_decision(req: RequestView) -> DecisionView {
    match req.host {
        None => DecisionView::Respond(host_invalid_response()),
        Some(_) => if !is_https(req) {
            DecisionView::Respond(https_redirect(req))
        } else {
            DecisionView::Forward
        },
    }
}

/// Screens a request for the single-cluster balancer; `server_port` is the
/// port the request arrived on; it must be known for a request with a host
/// that came over `https`, and no answer depends on it.
pub fn lb_request_filter(req: &RequestInfo, server_port: Option<u16>) -> (r: RequestDecision)
    requires
        req@.host is Some && is_https(req@) ==> server_port is Some,
    ensures
        r@ == lb_decision(req@),
{
    match &req.host {
        None => RequestDecision::Respond(json_response_plan(STATUS_BAD_GATEWAY, "Host invalid", false)),
        Some(host) => {
            let https = request_is_https(req);
            let scheme = request_scheme(req);
            if !https {
                let location = https_location_of(host.as_str(), req);
                return RequestDecision::Respond(redirect_plan(location.as_str(), scheme));
            }
            let plain_on_tls_port = !https && match server_port {
                Some(port) => port == 443,
                None => false,
            };
            if plain_on_tls_port {
                return RequestDecision::Respond(
                    redirect_plan("https://huutuananh.com/error/500", scheme),
                );
            }
            RequestDecision::Forward
        },
    }
}

/// The state that the balancer keeps for one request: how many body bytes
/// have arrived so far.
pub struct LBContext {
    body_size: usize,
}

impl LBContext {
    /// The number of body bytes received so far.
    pub closed spec fn received(&self) -> nat {
        self.body_size as nat
    }

    /// The state of a request that has received no body yet.
    pub fn new() -> (r: Self)
        ensures
            r.received() == 0,
    {
        LBContext { body_size: 0 }
    }

    pub fn body_size(&self) -> (r: usize)
        ensures
            r == self.received(),
    {
        self.body_size
    }

    /// Counts a body chunk of `chunk` bytes (none when there is no chunk)
    /// and, once the total is over the limit, returns the
    /// `413 Payload Too Large` answer to write.
    pub fn request_body_filter(&mut self, chunk: Option<usize>) -> (r: Option<ResponsePlan>)
        requires
            old(self).received() + chunk_len(chunk) <= usize::MAX,
        ensures
            final(self).received() == old(self).received() + chunk_len(chunk),
            r is Some <==> exceeds_body_limit(final(self).received()),
            r matches Some(p) ==> p@ == payload_too_large_response(),
            (final(self).received(), opt_response(r)) == body_filter_outcome(old(self).received(), chunk),
    {
        if let Some(n) = chunk {
            self.body_size = self.body_size + n;
        }
        body_limit_response(self.body_size)
    }
}

} // verus!
