use vstd::prelude::*;

use crate::lb::lb_decision;
use crate::request::{
    forwarded_host, https_location, https_redirect, is_https, upstream_headers, DecisionView,
    RequestView,
};
use crate::response::{
    decimal_text, json_plain, json_response, lemma_plain_message_body, message_body, plain_message_text,
    HeaderField, ResponseView, STATUS_FOUND,
};
use crate::router::{
    body_filter_outcome, chunk_len, exceeds_body_limit, host_allowed, payload_too_large_response, Router,
};
use crate::text::{ends_with, utf8};
use crate::tls::{CertificateInfo, Certificates};
use crate::tls::{
    alpn_choice, alpn_protocols, name_serves, pem_first_certificate, preferred_protocols, present,
    x509_subject_names, CertificateNames,
};

verus! {

/// A router forwards a request exactly when it names a host, came over
/// `https`, and its host ends with one of the allowed names.
pub proof fn law_router_forwards_only_allowed_https<S>(router: Router<S>, req: RequestView)
    ensures
        router.decision(req) is Forward <==> (req.host matches Some(h) && is_https(req)
            && host_allowed(h, router.allowed_names())),
{
}

/// A request with a host that did not come over `https` is redirected to
/// the same host and path over `https`, whatever port it arrived on and
/// whatever the allowed hosts are.
pub proof fn law_plain_http_is_redirected<S>(router: Router<S>, req: RequestView)
    requires
        req.host is Some,
        !is_https(req),
    ensures
        router.decision(req) == DecisionView::Respond(https_redirect(req)),
        lb_decision(req) == DecisionView::Respond(https_redirect(req)),
        https_redirect(req).status == STATUS_FOUND,
        https_redirect(req).headers[0] == (
            HeaderField::Location,
            utf8(https_location(req.host.unwrap(), req)),
        ),
        https_location(req.host.unwrap(), req).subrange(0, 8) == "https://"@,
{
    reveal_strlit("https://");
}

/// Following the redirect does not redirect again: the same host and path
/// requested over `https` is forwarded or refused, never sent back.
pub proof fn law_redirect_is_followed_once<S>(router: Router<S>, req: RequestView, followed: RequestView)
    requires
        req.host is Some,
        !is_https(req),
        followed.host == req.host,
        followed.scheme == Some("https"@),
    ensures
        !(router.decision(followed) matches DecisionView::Respond(r) && r.status == STATUS_FOUND),
        lb_decision(followed) is Forward,
{
}

/// For requests whose host is allowed, the router behaves as the
/// single-cluster balancer: the allow list only ever adds refusals.
pub proof fn law_router_agrees_with_balancer_on_allowed_hosts<S>(router: Router<S>, req: RequestView)
    requires
        req.host matches Some(h) ==> host_allowed(h, router.allowed_names()),
    ensures
        router.decision(req) == lb_decision(req),
{
}

/// A JSON answer declares the length of its message body, whether the body
/// is then written (refusals, oversized bodies) or not (a missing host).
pub proof fn law_json_answer_declares_body_length(status: u16, msg: Seq<char>, with_body: bool)
    ensures
        json_response(status, msg, with_body).headers == seq![
            (HeaderField::ContentLength, decimal_text(message_body(msg).len())),
        ],
        with_body ==> json_response(status, msg, with_body).body == Some(message_body(msg)),
        !with_body ==> json_response(status, msg, with_body).body is None,
{
}

/// A router that allows the empty name accepts every host, and then
/// decides every request as the single-cluster balancer does.
pub proof fn law_balancer_is_router_allowing_all<S>(router: Router<S>, req: RequestView)
    requires
        router.allowed_names().contains(Seq::empty()),
    ensures
        router.decision(req) == lb_decision(req),
{
    let i = choose|i: int| 0 <= i < router.allowed_names().len() && router.allowed_names()[i] == Seq::<char>::empty();
    if let Some(h) = req.host {
        assert(utf8(Seq::<char>::empty()) =~= Seq::<u8>::empty());
        assert(utf8(h).subrange(utf8(h).len() as int, utf8(h).len() as int) =~= Seq::<u8>::empty());
        assert(ends_with(utf8(h), utf8(router.allowed_names()[i])));
        assert(host_allowed(h, router.allowed_names()));
    }
}

/// The names read from a PEM file depend on the file only through its first
/// certificate: two files that begin with the same certificate give the
/// same common names and the same alternative names, whatever follows.
pub proof fn law_only_first_certificate_names(
    a: Seq<u8>,
    b: Seq<u8>,
    names_a: CertificateNames,
    names_b: CertificateNames,
)
    requires
        pem_first_certificate(a) == pem_first_certificate(b),
        pem_first_certificate(a) matches Some(der) && x509_subject_names(der) matches Some(found)
            && names_a.lists(found.0, found.1) && names_b.lists(found.0, found.1),
    ensures
        crate::text::texts(names_a.common_names@).to_set() == crate::text::texts(
            names_b.common_names@,
        ).to_set(),
        crate::text::texts(names_a.alt_names@).to_set() == crate::text::texts(
            names_b.alt_names@,
        ).to_set(),
{
}

/// The host sent upstream in `Host` is the one sent in `X-Forwarded-Host`.
pub proof fn law_forwarded_host_is_host(client_addr: Seq<char>, req: RequestView)
    ensures
        upstream_headers(client_addr, req)[2].0 == HeaderField::XForwardedHost,
        upstream_headers(client_addr, req)[3].0 == HeaderField::Host,
        upstream_headers(client_addr, req)[2].1 == upstream_headers(client_addr, req)[3].1,
        upstream_headers(client_addr, req)[3].1 == utf8(forwarded_host(req)),
{
}

/// The body bytes received after the first `n` of `chunks`.
pub open spec fn body_total(chunks: Seq<Option<usize>>, n: int) -> nat
    decreases n,
{
    if n <= 0 {
        0
    } else {
        body_total(chunks, n - 1) + chunk_len(chunks[n - 1])
    }
}

/// Once a request body is over the limit it stays over it: every later
/// chunk is answered `413` again.
pub proof fn law_oversized_body_stays_refused(chunks: Seq<Option<usize>>, i: int, j: int)
    requires
        0 <= i <= j <= chunks.len(),
        exceeds_body_limit(body_total(chunks, i)),
    ensures
        exceeds_body_limit(body_total(chunks, j)),
    decreases j - i,
{
    if i < j {
        law_oversized_body_stays_refused(chunks, i, j - 1);
    }
}

/// Counting chunk after chunk from an empty body, as the router and the
/// balancer both do, gives the sum of the chunks so far, and the `413`
/// answer exactly after the chunks that leave that sum over the limit.
pub proof fn law_body_filter_counts_every_chunk(chunks: Seq<Option<usize>>, n: int)
    requires
        0 <= n < chunks.len(),
    ensures
        body_filter_outcome(body_total(chunks, n), chunks[n]).0 == body_total(chunks, n + 1),
        body_filter_outcome(body_total(chunks, n), chunks[n]).1 == if exceeds_body_limit(
            body_total(chunks, n + 1),
        ) {
            Some(payload_too_large_response())
        } else {
            None
        },
{
}

/// A wildcard certificate name `*.<d>` serves the names below `<d>`, never
/// `<d>` itself.
pub proof fn law_wildcard_excludes_bare_domain(domain: Seq<u8>, label: Seq<u8>)
    ensures
        !name_serves(seq![42u8, 46u8] + domain, domain),
        name_serves(seq![42u8, 46u8] + domain, label + seq![46u8] + domain),
{
    let pattern = seq![42u8, 46u8] + domain;
    assert(pattern.len() > domain.len());
    assert(pattern != domain);
    let server = label + seq![46u8] + domain;
    assert(pattern.subrange(1, pattern.len() as int) =~= seq![46u8] + domain);
    assert(server.subrange(server.len() - (domain.len() + 1), server.len() as int) =~= seq![46u8]
        + domain);
    assert(ends_with(server, pattern.subrange(1, pattern.len() as int)));
}

/// Each name a certificate carries is listed exactly once: a common name
/// in the common names, any other DNS alternative name in the alternative
/// names, and nothing else in either.
pub proof fn law_certificate_names_partition(
    names: CertificateNames,
    cn: Seq<Option<Seq<char>>>,
    dns: Seq<Option<Seq<char>>>,
    s: Seq<char>,
)
    requires
        names.lists(cn, dns),
    ensures
        crate::text::texts(names.common_names@).contains(s) <==> cn.contains(Some(s)),
        crate::text::texts(names.alt_names@).contains(s) <==> dns.contains(Some(s)) && !cn.contains(
            Some(s),
        ),
        forall|i: int, j: int|
            0 <= i < j < names.common_names@.len() ==> names.common_names@[i]@
                != names.common_names@[j]@,
        forall|i: int, j: int|
            0 <= i < j < names.alt_names@.len() ==> names.alt_names@[i]@ != names.alt_names@[j]@,
{
    let common = crate::text::texts(names.common_names@);
    let alt = crate::text::texts(names.alt_names@);
    assert(common.to_set().contains(s) == common.contains(s));
    assert(alt.to_set().contains(s) == alt.contains(s));
    assert(present(cn).contains(s) == cn.contains(Some(s)));
    assert(present(dns).contains(s) == dns.contains(Some(s)));
    assert forall|i: int, j: int|
        0 <= i < j < names.common_names@.len() implies names.common_names@[i]@
            != names.common_names@[j]@ by {
        assert(common[i] == names.common_names@[i]@ && common[j] == names.common_names@[j]@);
    }
    assert forall|i: int, j: int|
        0 <= i < j < names.alt_names@.len() implies names.alt_names@[i]@ != names.alt_names@[j]@ by {
        assert(alt[i] == names.alt_names@[i]@ && alt[j] == names.alt_names@[j]@);
    }
}

/// HTTP/2 (`h2`) is chosen whenever the client offers it; otherwise
/// HTTP/1.1 (`http/1.1`) when the client offers that; otherwise none.
pub proof fn law_h2_preferred(client: Seq<Seq<u8>>)
    ensures
        client.contains(seq![104u8, 50u8]) ==> alpn_choice(preferred_protocols(), client) == Some(
            seq![104u8, 50u8],
        ),
        !client.contains(seq![104u8, 50u8]) && client.contains(
            seq![104u8, 116u8, 116u8, 112u8, 47u8, 49u8, 46u8, 49u8],
        ) ==> alpn_choice(preferred_protocols(), client) == Some(
            seq![104u8, 116u8, 116u8, 112u8, 47u8, 49u8, 46u8, 49u8],
        ),
        !client.contains(seq![104u8, 50u8]) && !client.contains(
            seq![104u8, 116u8, 116u8, 112u8, 47u8, 49u8, 46u8, 49u8],
        ) ==> alpn_choice(preferred_protocols(), client) is None,
{
    let p = preferred_protocols();
    assert(p.drop_first() =~= seq![p[1]]);
    assert(p.drop_first().drop_first() =~= Seq::<Seq<u8>>::empty());
    reveal_with_fuel(alpn_choice, 3);
}


/// A certificate serves a server name through any of its common names, at
/// any position: one that equals the name, or a `*.` wildcard whose suffix
/// after the `*` ends the name.
pub proof fn law_certificate_serves_by_any_common_name<C>(info: CertificateInfo<C>, server: Seq<u8>, k: int)
    requires
        0 <= k < info.common_names@.len(),
        ({
            let n = vstd::utf8::encode_utf8(info.common_names@[k]@);
            n == server || (n.len() >= 2 && n[0] == 42u8 && n[1] == 46u8 && n.len() - 1
                <= server.len() && server.subrange(server.len() - (n.len() - 1), server.len() as int)
                == n.subrange(1, n.len() as int))
        }),
    ensures
        info.serves(server),
{
    let names = crate::text::texts(info.common_names@);
    assert(names[k] == info.common_names@[k]@);
    assert(name_serves(utf8(names[k]), server));
}

/// A certificate serves a server name through any of its alternative
/// names, at any position, as through its common names.
pub proof fn law_certificate_serves_by_any_alt_name<C>(info: CertificateInfo<C>, server: Seq<u8>, k: int)
    requires
        0 <= k < info.alt_names@.len(),
        ({
            let n = vstd::utf8::encode_utf8(info.alt_names@[k]@);
            n == server || (n.len() >= 2 && n[0] == 42u8 && n[1] == 46u8 && n.len() - 1
                <= server.len() && server.subrange(server.len() - (n.len() - 1), server.len() as int)
                == n.subrange(1, n.len() as int))
        }),
    ensures
        info.serves(server),
{
    let names = crate::text::texts(info.alt_names@);
    assert(names[k] == info.alt_names@[k]@);
    assert(name_serves(utf8(names[k]), server));
}

/// A certificate serves a server name only through one of its names.
pub proof fn law_certificate_serves_only_by_its_names<C>(info: CertificateInfo<C>, server: Seq<u8>)
    requires
        info.serves(server),
    ensures
        exists|names: Seq<String>, k: int|
            (names == info.common_names@ || names == info.alt_names@) && 0 <= k < names.len() && ({
                let n = vstd::utf8::encode_utf8(#[trigger] names[k]@);
                n == server || (n.len() >= 2 && n[0] == 42u8 && n[1] == 46u8 && n.len() - 1
                    <= server.len() && server.subrange(
                    server.len() - (n.len() - 1),
                    server.len() as int,
                ) == n.subrange(1, n.len() as int))
            }),
{
    let cn = crate::text::texts(info.common_names@);
    let alt = crate::text::texts(info.alt_names@);
    if crate::tls::some_name_serves(cn, server) {
        let k = choose|k: int| 0 <= k < cn.len() && name_serves(utf8(#[trigger] cn[k]), server);
        assert(cn[k] == info.common_names@[k]@);
        let names = info.common_names@;
        assert(names[k]@ == cn[k]);
    } else {
        let k = choose|k: int| 0 <= k < alt.len() && name_serves(utf8(#[trigger] alt[k]), server);
        assert(alt[k] == info.alt_names@[k]@);
        let names = info.alt_names@;
        assert(names[k]@ == alt[k]);
    }
}

/// A router forwards a request exactly when it names a host, its scheme is
/// `https`, and some allowed name, at any index, is a byte suffix of the
/// host.
pub proof fn law_router_forwards_exactly_allowed_https<S>(router: Router<S>, req: RequestView)
    ensures
        router.decision(req) is Forward <==> (req.host matches Some(h) && req.scheme == Some(
            "https"@,
        ) && exists|i: int|
            0 <= i < router.allow_hosts@.len() && ({
                let host = vstd::utf8::encode_utf8(h);
                let name = vstd::utf8::encode_utf8(#[trigger] router.allow_hosts@[i]@);
                name.len() <= host.len() && host.subrange(host.len() - name.len(), host.len() as int)
                    == name
            })),
{
    reveal_strlit("http");
    reveal_strlit("https");
    assert("http"@ != "https"@) by {
        assert("http"@.len() != "https"@.len());
    }
    let names = router.allowed_names();
    if let Some(h) = req.host {
        assert(is_https(req) <==> req.scheme == Some("https"@));
        let host = vstd::utf8::encode_utf8(h);
        let by_index = exists|i: int|
            0 <= i < router.allow_hosts@.len() && ({
                let name = vstd::utf8::encode_utf8(#[trigger] router.allow_hosts@[i]@);
                name.len() <= host.len() && host.subrange(host.len() - name.len(), host.len() as int)
                    == name
            });
        if host_allowed(h, names) {
            let i = choose|i: int| 0 <= i < names.len() && ends_with(utf8(h), utf8(#[trigger] names[i]));
            assert(names[i] == router.allow_hosts@[i]@);
            assert(by_index);
        }
        if by_index {
            let i = choose|i: int|
                0 <= i < router.allow_hosts@.len() && ({
                    let name = vstd::utf8::encode_utf8(#[trigger] router.allow_hosts@[i]@);
                    name.len() <= host.len() && host.subrange(
                        host.len() - name.len(),
                        host.len() as int,
                    ) == name
                });
            assert(names[i] == router.allow_hosts@[i]@);
            assert(ends_with(utf8(h), utf8(names[i])));
            assert(host_allowed(h, names));
        }
        assert(host_allowed(h, names) <== by_index);
    }
}

/// A route serves exactly the hosts that its name is a byte suffix of, its
/// own name included; the route chosen for a host is the first such route.
pub proof fn law_route_serves_hosts_ending_with_its_name<S>(router: Router<S>, host: Seq<char>, i: int)
    ensures
        router.is_first_route(host, i) <==> (0 <= i < router.routes@.len() && ({
            let h = vstd::utf8::encode_utf8(host);
            let n = vstd::utf8::encode_utf8(router.routes@[i].host_name@);
            n.len() <= h.len() && h.subrange(h.len() - n.len(), h.len() as int) == n
        }) && forall|j: int|
            0 <= j < i ==> !({
                let h = vstd::utf8::encode_utf8(host);
                let n = vstd::utf8::encode_utf8(#[trigger] router.routes@[j].host_name@);
                n.len() <= h.len() && h.subrange(h.len() - n.len(), h.len() as int) == n
            })),
{
    assert forall|j: int| 0 <= j < router.routes@.len() implies router.route_names()[j]
        == (#[trigger] router.routes@[j]).host_name@ by {}
}

/// A plain-HTTP request for a host is redirected `302` to `https://`, the
/// host, and its whole path and query, whatever their length (to `/` only
/// when the URI has no path), with no body, a zero length, and the scheme
/// it came by in `Redirect-From`.
pub proof fn law_redirect_keeps_host_and_path<S>(router: Router<S>, req: RequestView)
    requires
        req.host is Some,
        req.scheme != Some("https"@),
    ensures
        router.decision(req) == DecisionView::Respond(
            ResponseView {
                status: 302u16,
                headers: seq![
                    (
                        HeaderField::Location,
                        vstd::utf8::encode_utf8(
                            "https://"@ + req.host.unwrap() + match req.path_and_query {
                                Some(p) => p,
                                None => "/"@,
                            },
                        ),
                    ),
                    (HeaderField::ContentLength, seq![48u8]),
                    (
                        HeaderField::RedirectFrom,
                        vstd::utf8::encode_utf8(
                            match req.scheme {
                                Some(s) => s,
                                None => "http"@,
                            },
                        ),
                    ),
                ],
                body: None,
            },
        ),
        lb_decision(req) == router.decision(req),
{
    reveal_strlit("http");
    reveal_strlit("https");
    assert("http"@ != "https"@) by {
        assert("http"@.len() != "https"@.len());
    }
    assert(decimal_text(0) =~= seq![48u8]);
    assert(!is_https(req));
    let r = https_redirect(req);
    assert(router.decision(req) == DecisionView::Respond(r));
    let expected = seq![
        (
            HeaderField::Location,
            vstd::utf8::encode_utf8(
                "https://"@ + req.host.unwrap() + match req.path_and_query {
                    Some(p) => p,
                    None => "/"@,
                },
            ),
        ),
        (HeaderField::ContentLength, seq![48u8]),
        (
            HeaderField::RedirectFrom,
            vstd::utf8::encode_utf8(
                match req.scheme {
                    Some(s) => s,
                    None => "http"@,
                },
            ),
        ),
    ];
    assert(r.headers[0] == expected[0]);
    assert(r.headers[1] == expected[1]);
    assert(r.headers[2] == expected[2]);
    assert(r.headers =~= expected);
}

/// The headers sent upstream carry the client's whole address, the
/// request's scheme (`http` when it has none), and its whole host
/// (`unknown-host` when it has none), as `Host` and `X-Forwarded-Host`.
pub proof fn law_upstream_headers_carry_whole_values(client_addr: Seq<char>, req: RequestView)
    ensures
        upstream_headers(client_addr, req).len() == 4,
        upstream_headers(client_addr, req)[0] == (
            HeaderField::XForwardedFor,
            vstd::utf8::encode_utf8(client_addr),
        ),
        upstream_headers(client_addr, req)[1] == (
            HeaderField::XForwardedProto,
            vstd::utf8::encode_utf8(
                match req.scheme {
                    Some(s) => s,
                    None => "http"@,
                },
            ),
        ),
        upstream_headers(client_addr, req)[2] == (
            HeaderField::XForwardedHost,
            vstd::utf8::encode_utf8(
                match req.host {
                    Some(h) => h,
                    None => "unknown-host"@,
                },
            ),
        ),
        upstream_headers(client_addr, req)[3] == (
            HeaderField::Host,
            vstd::utf8::encode_utf8(
                match req.host {
                    Some(h) => h,
                    None => "unknown-host"@,
                },
            ),
        ),
{
}

/// When a certificate has a name, at any position among its common or its
/// alternative names, that equals the server name or is a `*.` wildcard it
/// falls under, a certificate is chosen for that server name: that one or
/// an earlier one, so the default certificate does not stay; and only one
/// certificate is the first to serve it.
pub proof fn law_certificate_chosen_when_any_name_serves<C>(
    certs: Certificates<C>,
    server: Seq<u8>,
    k: int,
    names: Seq<String>,
    m: int,
)
    requires
        0 <= k < certs.configs@.len(),
        names == certs.configs@[k].common_names@ || names == certs.configs@[k].alt_names@,
        0 <= m < names.len(),
        ({
            let n = vstd::utf8::encode_utf8(names[m]@);
            n == server || (n.len() >= 2 && n[0] == 42u8 && n[1] == 46u8 && n.len() - 1
                <= server.len() && server.subrange(server.len() - (n.len() - 1), server.len() as int)
                == n.subrange(1, n.len() as int))
        }),
    ensures
        exists|i: int| 0 <= i <= k && certs.is_first_match(server, i),
        forall|i: int, j: int|
            certs.is_first_match(server, i) && certs.is_first_match(server, j) ==> i == j,
{
    assert forall|i: int, j: int|
        certs.is_first_match(server, i) && certs.is_first_match(server, j) implies i == j by {
        if i < j {
            assert(!certs.configs@[i].serves(server));
        } else if j < i {
            assert(!certs.configs@[j].serves(server));
        }
    }
    if names == certs.configs@[k].common_names@ {
        law_certificate_serves_by_any_common_name(certs.configs@[k], server, m);
    } else {
        law_certificate_serves_by_any_alt_name(certs.configs@[k], server, m);
    }
    lemma_first_serving(certs, server, k);
}

proof fn lemma_first_serving<C>(certs: Certificates<C>, server: Seq<u8>, k: int)
    requires
        0 <= k < certs.configs@.len(),
        certs.configs@[k].serves(server),
    ensures
        exists|i: int| 0 <= i <= k && certs.is_first_match(server, i),
    decreases k,
{
    if exists|j: int| 0 <= j < k && (#[trigger] certs.configs@[j]).serves(server) {
        let j = choose|j: int| 0 <= j < k && (#[trigger] certs.configs@[j]).serves(server);
        lemma_first_serving(certs, server, j);
    } else {
        assert(certs.is_first_match(server, k));
    }
}

/// The number that ASCII decimal digits spell, most significant first.
pub open spec fn decimal_value(digits: Seq<u8>) -> int
    decreases digits.len(),
{
    if digits.len() == 0 {
        0
    } else {
        10 * decimal_value(digits.drop_last()) + (digits.last() - 48)
    }
}

/// A `Content-Length` value is the number written in decimal: at least one
/// ASCII digit, no leading zero, and the digits spell the number.
pub proof fn law_decimal_text_spells_number(n: nat)
    ensures
        decimal_text(n).len() >= 1,
        forall|i: int| 0 <= i < decimal_text(n).len() ==> 48 <= #[trigger] decimal_text(n)[i] <= 57,
        decimal_text(n)[0] == 48u8 ==> n == 0,
        decimal_value(decimal_text(n)) == n,
    decreases n,
{
    let d = decimal_text(n);
    if n >= 10 {
        law_decimal_text_spells_number(n / 10);
        let front = decimal_text(n / 10);
        assert(d == front.push((48 + n % 10) as u8));
        assert(d.drop_last() =~= front);
        assert(d.last() == 48 + n % 10);
        assert(n == 10 * (n / 10) + n % 10);
        assert(decimal_value(d) == 10 * decimal_value(front) + (d.last() - 48));
        assert(d[0] == front[0]);
        assert forall|i: int| 0 <= i < d.len() implies 48 <= #[trigger] d[i] <= 57 by {
            if i < front.len() {
                assert(d[i] == front[i]);
            }
        }
    } else {
        assert(d.drop_last() =~= Seq::<u8>::empty());
        assert(decimal_value(d.drop_last()) == 0);
        assert(d.last() == 48 + n);
    }
}

/// The JSON bodies of the three messages that the proxy answers with,
/// written out.
proof fn lemma_answer_bodies()
    ensures
        message_body("Host invalid"@) == vstd::utf8::encode_utf8("{\"message\":\"Host invalid\"}"@),
        message_body("Host is not allow"@) == vstd::utf8::encode_utf8(
            "{\"message\":\"Host is not allow\"}"@,
        ),
        message_body("payload too large (max: 120mb)"@) == vstd::utf8::encode_utf8(
            "{\"message\":\"payload too large (max: 120mb)\"}"@,
        ),
{
    reveal_strlit("{\"message\":\"");
    reveal_strlit("\"}");
    reveal_strlit("Host invalid");
    reveal_strlit("Host is not allow");
    reveal_strlit("payload too large (max: 120mb)");
    reveal_strlit("{\"message\":\"Host invalid\"}");
    reveal_strlit("{\"message\":\"Host is not allow\"}");
    reveal_strlit("{\"message\":\"payload too large (max: 120mb)\"}");
    assert(json_plain("Host invalid"@));
    assert(json_plain("Host is not allow"@));
    assert(json_plain("payload too large (max: 120mb)"@));
    lemma_plain_message_body("Host invalid"@);
    lemma_plain_message_body("Host is not allow"@);
    lemma_plain_message_body("payload too large (max: 120mb)"@);
    assert(plain_message_text("Host invalid"@) =~= "{\"message\":\"Host invalid\"}"@);
    assert(plain_message_text("Host is not allow"@) =~= "{\"message\":\"Host is not allow\"}"@);
    assert(plain_message_text("payload too large (max: 120mb)"@)
        =~= "{\"message\":\"payload too large (max: 120mb)\"}"@);
}

/// A request without a host is answered `502` by the router and by the
/// balancer alike, with no body and the length of the JSON body
/// `{"message":"Host invalid"}` declared.
pub proof fn law_missing_host_is_bad_gateway<S>(router: Router<S>, req: RequestView)
    requires
        req.host is None,
    ensures
        router.decision(req) == DecisionView::Respond(
            ResponseView {
                status: 502u16,
                headers: seq![
                    (
                        HeaderField::ContentLength,
                        decimal_text(vstd::utf8::encode_utf8("{\"message\":\"Host invalid\"}"@).len()),
                    ),
                ],
                body: None,
            },
        ),
        lb_decision(req) == router.decision(req),
{
    lemma_answer_bodies();
}

/// An `https` request whose host no allowed name is a byte suffix of is
/// refused `403`, with the JSON body `{"message":"Host is not allow"}` and
/// its length.
pub proof fn law_disallowed_host_is_forbidden<S>(router: Router<S>, req: RequestView)
    requires
        req.host is Some,
        req.scheme == Some("https"@),
        forall|i: int|
            0 <= i < router.allow_hosts@.len() ==> !({
                let host = vstd::utf8::encode_utf8(req.host.unwrap());
                let name = vstd::utf8::encode_utf8(#[trigger] router.allow_hosts@[i]@);
                name.len() <= host.len() && host.subrange(host.len() - name.len(), host.len() as int)
                    == name
            }),
    ensures
        router.decision(req) == DecisionView::Respond(
            ResponseView {
                status: 403u16,
                headers: seq![
                    (
                        HeaderField::ContentLength,
                        decimal_text(
                            vstd::utf8::encode_utf8("{\"message\":\"Host is not allow\"}"@).len(),
                        ),
                    ),
                ],
                body: Some(vstd::utf8::encode_utf8("{\"message\":\"Host is not allow\"}"@)),
            },
        ),
{
    lemma_answer_bodies();
    let h = req.host.unwrap();
    let names = router.allowed_names();
    if host_allowed(h, names) {
        let i = choose|i: int| 0 <= i < names.len() && ends_with(utf8(h), utf8(#[trigger] names[i]));
        assert(names[i] == router.allow_hosts@[i]@);
    }
}

/// Each body chunk adds its length to the bytes received, no chunk adding
/// none; exactly when they are over 120 MiB (125829120 bytes) the answer is
/// `413`, with the JSON body `{"message":"payload too large (max: 120mb)"}`
/// and its length.
pub proof fn law_body_limit_is_120_mib(received: nat, chunk: Option<usize>)
    ensures
        body_filter_outcome(received, chunk).0 == received + match chunk {
            Some(n) => n as nat,
            None => 0nat,
        },
        body_filter_outcome(received, chunk).1 is Some <==> body_filter_outcome(received, chunk).0
            > 125829120,
        body_filter_outcome(received, chunk).1 matches Some(r) ==> r == (ResponseView {
            status: 413u16,
            headers: seq![
                (
                    HeaderField::ContentLength,
                    decimal_text(
                        vstd::utf8::encode_utf8(
                            "{\"message\":\"payload too large (max: 120mb)\"}"@,
                        ).len(),
                    ),
                ),
            ],
            body: Some(
                vstd::utf8::encode_utf8("{\"message\":\"payload too large (max: 120mb)\"}"@),
            ),
        }),
{
    lemma_answer_bodies();
}

} // verus!
