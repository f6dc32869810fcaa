//! What the routing proxy does with a request.
//!
//! The proxy listens on port 80 and, unless it serves plain HTTP only, with
//! TLS on port 443. A request is answered by the proxy itself where it asks
//! for a challenge token of the certificate authority or has to be sent on
//! to HTTPS; every other request goes to the service that its host and path
//! lead to.

use crate::atomic_socket::SocketAddrV4;
use crate::file::ProxyStrategy;
use crate::manager::ServicesManager;
use crate::text::{chars_of, has_prefix, push_str, slice_of, string_of};
use vstd::prelude::*;
use vstd::string::*;

verus! {

/// The prefix of the paths under which challenge tokens are served.
pub open spec fn challenge_prefix() -> Seq<char> {
    "/.well-known/acme-challenge/"@
}

/// The token that a request path asks for, if it asks for one: what follows
/// the challenge prefix.
pub open spec fn challenge_token(path: Seq<char>) -> Option<Seq<char>> {
    if challenge_prefix().is_prefix_of(path) {
        Some(path.subrange(challenge_prefix().len() as int, path.len() as int))
    } else {
        None
    }
}

/// Where a request on the plain port is sent on to: the same host, path and
/// query over HTTPS. A request without a host goes to `localhost`, one
/// without a path to `/`.
pub open spec fn redirect_location(host: Option<Seq<char>>, path_and_query: Option<Seq<char>>) -> Seq<
    char,
> {
    "https://"@ + (match host {
        Some(h) => h,
        None => "localhost"@,
    }) + (match path_and_query {
        Some(p) => p,
        None => "/"@,
    })
}

/// What the proxy does with a request before it looks for a route.
#[derive(Debug, Clone, PartialEq, Eq)]
pub enum FilterStep {
    /// Answer with the challenge token of this name, if it is there.
    ServeChallenge(String),
    /// Send the client on to this address.
    Redirect(String),
    /// Pass the request on to the service that its route leads to.
    Forward,
}

pub enum FilterStepView {
    ServeChallenge(Seq<char>),
    Redirect(Seq<char>),
    Forward,
}

impl DeepView for FilterStep {
    type V = FilterStepView;

    open spec fn deep_view(&self) -> FilterStepView {
        match self {
            FilterStep::ServeChallenge(t) => FilterStepView::ServeChallenge(t@),
            FilterStep::Redirect(l) => FilterStepView::Redirect(l@),
            FilterStep::Forward => FilterStepView::Forward,
        }
    }
}

/// What the proxy does with a request:
/// 1. a request for a challenge token is answered with the token, on either
///    port and whatever the strategy;
/// 2. else a request on the plain port is sent on to HTTPS if the proxy
///    serves over HTTPS only;
/// 3. every other request is passed on.
pub open spec fn filter_step(
    is_ssl: bool,
    strategy: ProxyStrategy,
    path: Seq<char>,
    host: Option<Seq<char>>,
    path_and_query: Option<Seq<char>>,
) -> FilterStepView {
    match challenge_token(path) {
        Some(token) => FilterStepView::ServeChallenge(token),
        None => if !is_ssl && strategy == ProxyStrategy::HttpsOnly {
            FilterStepView::Redirect(redirect_location(host, path_and_query))
        } else {
            FilterStepView::Forward
        },
    }
}

/// Decides what the proxy does with a request. `host` is the request's
/// `Host` header, `path_and_query` the path of the request target with its
/// query.
pub fn request_filter(
    is_ssl: bool,
    strategy: ProxyStrategy,
    path: &str,
    host: Option<&str>,
    path_and_query: Option<&str>,
) -> (r: FilterStep)
    ensures
        r.deep_view() == filter_step(is_ssl, strategy, path@, host.deep_view(), path_and_query.deep_view()),
{
    let chars = chars_of(path);
    let prefix = chars_of("/.well-known/acme-challenge/");
    if has_prefix(&chars, &prefix) {
        let token = slice_of(&chars, prefix.len(), chars.len());
        return FilterStep::ServeChallenge(string_of(&token));
    }
    let https_only = match strategy {
        ProxyStrategy::HttpsOnly => true,
        _ => false,
    };
    if !is_ssl && https_only {
        let mut location: Vec<char> = Vec::new();
        push_str(&mut location, "https://");
        match host {
            Some(h) => push_str(&mut location, h),
            None => push_str(&mut location, "localhost"),
        }
        match path_and_query {
            Some(p) => push_str(&mut location, p),
            None => push_str(&mut location, "/"),
        }
        assert(location@ =~= redirect_location(host.deep_view(), path_and_query.deep_view()));
        FilterStep::Redirect(string_of(&location))
    } else {
        FilterStep::Forward
    }
}

/// An answer that the proxy gives itself.
#[derive(Debug, Clone, PartialEq, Eq)]
pub struct Reply {
    pub status: u16,
    pub content_type: String,
    /// The address for the `Location` header, on a redirect.
    pub location: Option<String>,
    pub body: Vec<u8>,
}

/// The body of a redirect.
pub open spec fn moved_body() -> Seq<char> {
    "<html><body>301 Moved Permanently</body></html>"@
}

/// The answer to a request for a challenge token: the token's content as
/// plain text, or "not found" where the token is not there.
pub fn challenge_reply(content: Option<Vec<u8>>) -> (r: Reply)
    ensures
        r.location is None,
        r.content_type@ == "text/plain"@,
        match content {
            Some(c) => r.status == 200 && r.body@ == c@,
            None => r.status == 404 && r.body@.len() == 0,
        },
{
    match content {
        Some(body) => Reply {
            status: 200,
            content_type: "text/plain".to_owned(),
            location: None,
            body,
        },
        None => Reply {
            status: 404,
            content_type: "text/plain".to_owned(),
            location: None,
            body: Vec::new(),
        },
    }
}

/// The answer that sends a client on to `location`: "moved permanently".
pub fn redirect_reply(location: String) -> (r: Reply)
    ensures
        r.status == 301,
        r.content_type@ == "text/html"@,
        r.location == Some(location),
        r.body@ == string_bytes(moved_body()),
{
    Reply {
        status: 301,
        content_type: "text/html".to_owned(),
        location: Some(location),
        body: "<html><body>301 Moved Permanently</body></html>".as_bytes_vec(),
    }
}

/// The scheme that a service is told the request came by.
pub fn forwarded_proto(is_ssl: bool) -> (r: &'static str)
    ensures
        r@ == if is_ssl {
            "https"@
        } else {
            "http"@
        },
{
    if is_ssl {
        "https"
    } else {
        "http"
    }
}

/// The host that a request is for: that of the request target if it names
/// one, else that of the `Host` header.
pub fn effective_host<'a>(target_host: Option<&'a str>, host_header: Option<&'a str>) -> (r: Option<
    &'a str,
>)
    ensures
        r == match target_host {
            Some(h) => Some(h),
            None => host_header,
        },
{
    match target_host {
        Some(h) => Some(h),
        None => host_header,
    }
}

/// The status of the answer to a request that no route serves.
pub const BAD_GATEWAY: u16 = 502;

/// What is said to a client whose request no route serves.
pub open spec fn no_upstream_message(host: Option<Seq<char>>, path: Seq<char>) -> Seq<char> {
    "No upstream configured for host: "@ + (match host {
        Some(h) => h,
        None => "(none)"@,
    }) + " with path: "@ + path
}

/// Where a request is sent: the address of the service that serves its host
/// and path. A request without a host, or one that no route serves, is
/// answered with "bad gateway" and a message that names host and path.
pub fn upstream_peer(
    manager: &ServicesManager,
    target_host: Option<&str>,
    host_header: Option<&str>,
    path: &str,
) -> (r: Result<SocketAddrV4, Reply>)
    requires
        manager.routes_hold(),
    ensures
        match r {
            Ok(addr) => {
                let host = match target_host {
                    Some(h) => Some(h),
                    None => host_header,
                };
                host is Some && exists|i: int|
                    0 <= i < manager.instances@.len() && crate::route::resolved(
                        crate::route::route_decls(crate::manager::proxies_of(manager.instances@)),
                        host.unwrap()@,
                        path@,
                        Some(i as usize),
                    ) && addr.ip == (#[trigger] manager.instances@[i]).assigned_ip
                        && manager.instances@[i].config.proxy is Some && addr.port
                        == manager.instances@[i].config.proxy.unwrap().service_port
            },
            Err(reply) => {
                let host = match target_host {
                    Some(h) => Some(h),
                    None => host_header,
                };
                &&& reply.status == BAD_GATEWAY
                &&& reply.location is None
                &&& reply.body@ == string_bytes(no_upstream_message(host.deep_view(), path@))
                &&& host is Some ==> crate::route::resolved(
                    crate::route::route_decls(crate::manager::proxies_of(manager.instances@)),
                    host.unwrap()@,
                    path@,
                    None,
                )
            },
        },
{
    let host = effective_host(target_host, host_header);
    match host {
        Some(h) => match manager.resolve_route(h, path) {
            Some(addr) => {
                return Ok(addr);
            },
            None => {},
        },
        None => {},
    }
    let mut text: Vec<char> = Vec::new();
    push_str(&mut text, "No upstream configured for host: ");
    match host {
        Some(h) => push_str(&mut text, h),
        None => push_str(&mut text, "(none)"),
    }
    push_str(&mut text, " with path: ");
    push_str(&mut text, path);
    assert(text@ =~= no_upstream_message(host.deep_view(), path@));
    let message = string_of(&text);
    Err(
        Reply {
            status: BAD_GATEWAY,
            content_type: "text/plain".to_owned(),
            location: None,
            body: message.as_str().as_bytes_vec(),
        },
    )
}

/// The bytes of a text in UTF-8.
pub open spec fn string_bytes(text: Seq<char>) -> Seq<u8> {
    vstd::utf8::encode_utf8(text)
}

/// The port of the plain listener.
pub const HTTP_PORT: u16 = 80;

/// The port of the TLS listener.
pub const HTTPS_PORT: u16 = 443;

/// The listeners of the proxy.
#[derive(Debug, Clone, Copy, PartialEq, Eq, Structural)]
pub struct Listeners {
    /// The port of the plain listener. It is always open: it serves, or
    /// sends on to HTTPS, and answers challenges.
    pub http: u16,
    /// The port of the TLS listener, if there is one.
    pub https: Option<u16>,
    /// Whether the TLS listener speaks HTTP/2 as well.
    pub h2: bool,
}

/// The listeners of the proxy under a strategy: always the plain one on
/// port 80, and one with TLS and HTTP/2 on port 443 unless the proxy serves
/// plain HTTP only.
pub fn listeners(strategy: ProxyStrategy) -> (r: Listeners)
    ensures
        r.http == HTTP_PORT,
        r.https == if strategy == ProxyStrategy::HttpOnly {
            None
        } else {
            Some(HTTPS_PORT)
        },
        r.h2 == (strategy != ProxyStrategy::HttpOnly),
{
    match strategy {
        ProxyStrategy::HttpOnly => Listeners { http: HTTP_PORT, https: None, h2: false },
        _ => Listeners { http: HTTP_PORT, https: Some(HTTPS_PORT), h2: true },
    }
}

/// The certificate for a TLS session: the position in `hosts` of the host
/// that the client names, or nothing, which stands for the fallback
/// certificate, where the client names no host or one that has no certificate.
pub fn select_certificate(server_name: Option<&str>, hosts: &Vec<String>) -> (r: Option<usize>)
    ensures
        match r {
            Some(i) => server_name is Some && i < hosts@.len() && hosts@[i as int]@
                == server_name.unwrap()@ && forall|j: int|
                0 <= j < i ==> (#[trigger] hosts@[j])@ != server_name.unwrap()@,
            None => server_name is Some ==> forall|j: int|
                0 <= j < hosts@.len() ==> (#[trigger] hosts@[j])@ != server_name.unwrap()@,
        },
{
    match server_name {
        Some(name) => {
            let owned = name.to_owned();
            crate::manager::position_of(hosts, &owned)
        },
        None => None,
    }
}

} // verus!
