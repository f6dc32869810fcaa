use dispenser::atomic_socket::{Ipv4Addr, SocketAddrV4};
use dispenser::file::{
    DispenserConfig, Initialize, ProxySettings, ProxyStrategy, PullPolicy, Restart, ServiceEntry,
    ServiceFile,
};
use dispenser::instance::ServiceInstance;
use dispenser::manager::ServicesManager;
use dispenser::proxy::{
    challenge_reply, effective_host, forwarded_proto, listeners, redirect_reply, request_filter,
    select_certificate, upstream_peer, FilterStep, BAD_GATEWAY,
};

#[test]
fn challenge_requests_are_served_on_either_port() {
    for is_ssl in [false, true] {
        for strategy in [ProxyStrategy::HttpOnly, ProxyStrategy::HttpsOnly, ProxyStrategy::Both] {
            assert_eq!(
                request_filter(
                    is_ssl,
                    strategy,
                    "/.well-known/acme-challenge/tok-123",
                    Some("example.com"),
                    Some("/.well-known/acme-challenge/tok-123"),
                ),
                FilterStep::ServeChallenge("tok-123".to_string())
            );
        }
    }
}

#[test]
fn challenge_prefix_alone_asks_for_the_empty_token() {
    assert_eq!(
        request_filter(false, ProxyStrategy::Both, "/.well-known/acme-challenge/", None, None),
        FilterStep::ServeChallenge(String::new())
    );
    assert_eq!(
        request_filter(false, ProxyStrategy::Both, "/.well-known/acme-challenge", None, None),
        FilterStep::Forward
    );
}

#[test]
fn https_only_redirects_the_plain_port() {
    assert_eq!(
        request_filter(
            false,
            ProxyStrategy::HttpsOnly,
            "/a/b",
            Some("example.com"),
            Some("/a/b?x=1"),
        ),
        FilterStep::Redirect("https://example.com/a/b?x=1".to_string())
    );
    assert_eq!(
        request_filter(false, ProxyStrategy::HttpsOnly, "/", None, None),
        FilterStep::Redirect("https://localhost/".to_string())
    );
}

#[test]
fn other_requests_are_forwarded() {
    assert_eq!(
        request_filter(true, ProxyStrategy::HttpsOnly, "/a", Some("h"), Some("/a")),
        FilterStep::Forward
    );
    assert_eq!(
        request_filter(false, ProxyStrategy::Both, "/a", Some("h"), Some("/a")),
        FilterStep::Forward
    );
    assert_eq!(
        request_filter(false, ProxyStrategy::HttpOnly, "/a", Some("h"), Some("/a")),
        FilterStep::Forward
    );
}

#[test]
fn challenge_replies() {
    let found = challenge_reply(Some(b"key-authorization".to_vec()));
    assert_eq!(found.status, 200);
    assert_eq!(found.content_type, "text/plain");
    assert_eq!(found.body, b"key-authorization".to_vec());
    assert_eq!(found.location, None);
    let missing = challenge_reply(None);
    assert_eq!(missing.status, 404);
    assert!(missing.body.is_empty());
}

#[test]
fn redirect_is_moved_permanently() {
    let r = redirect_reply("https://example.com/x".to_string());
    assert_eq!(r.status, 301);
    assert_eq!(r.content_type, "text/html");
    assert_eq!(r.location, Some("https://example.com/x".to_string()));
    assert_eq!(r.body, b"<html><body>301 Moved Permanently</body></html>".to_vec());
}

#[test]
fn forwarded_proto_follows_the_port() {
    assert_eq!(forwarded_proto(true), "https");
    assert_eq!(forwarded_proto(false), "http");
}

#[test]
fn host_of_the_target_comes_before_the_header() {
    assert_eq!(effective_host(Some("a"), Some("b")), Some("a"));
    assert_eq!(effective_host(None, Some("b")), Some("b"));
    assert_eq!(effective_host(None, None), None);
}

#[test]
fn listeners_per_strategy() {
    let plain = listeners(ProxyStrategy::HttpOnly);
    assert_eq!((plain.http, plain.https, plain.h2), (80, None, false));
    for strategy in [ProxyStrategy::HttpsOnly, ProxyStrategy::Both] {
        let both = listeners(strategy);
        assert_eq!((both.http, both.https, both.h2), (80, Some(443), true));
    }
}

#[test]
fn certificate_by_server_name() {
    let hosts = vec!["a.com".to_string(), "b.com".to_string()];
    assert_eq!(select_certificate(Some("b.com"), &hosts), Some(1));
    assert_eq!(select_certificate(Some("c.com"), &hosts), None);
    assert_eq!(select_certificate(None, &hosts), None);
}

fn manager() -> ServicesManager {
    let file = ServiceFile {
        service: ServiceEntry {
            name: "web".to_string(),
            image: "web".to_string(),
            command: None,
            entrypoint: None,
            working_dir: None,
            user: None,
            hostname: None,
            memory: None,
            cpus: None,
        },
        ports: vec![],
        volume: vec![],
        env: vec![],
        restart: Restart::No,
        network: vec![],
        dispenser: DispenserConfig {
            watch: false,
            initialize: Initialize::Immediately,
            cron: None,
            pull: PullPolicy::OnStartup,
        },
        depends_on: vec![],
        proxy: Some(ProxySettings {
            host: "example.com".to_string(),
            path: Some("/app".to_string()),
            service_port: 3000,
            cert_file: None,
            key_file: None,
        }),
    };
    ServicesManager::new(
        vec![ServiceInstance {
            dir: ".".to_string(),
            config: file,
            assigned_ip: Ipv4Addr::new(172, 28, 0, 2),
            cron_watcher: None,
            image_watcher: None,
        }],
        vec![],
        60,
        true,
        ProxyStrategy::Both,
        None,
    )
}

#[test]
fn upstream_of_a_routed_request() {
    let m = manager();
    let want = SocketAddrV4::new(Ipv4Addr::new(172, 28, 0, 2), 3000);
    assert_eq!(upstream_peer(&m, None, Some("example.com"), "/app/x"), Ok(want));
    assert_eq!(upstream_peer(&m, Some("example.com"), Some("other"), "/app"), Ok(want));
}

#[test]
fn bad_gateway_without_a_route() {
    let m = manager();
    let reply = upstream_peer(&m, None, Some("example.com"), "/other").unwrap_err();
    assert_eq!(reply.status, BAD_GATEWAY);
    assert_eq!(reply.status, 502);
    assert_eq!(
        String::from_utf8(reply.body).unwrap(),
        "No upstream configured for host: example.com with path: /other"
    );
    let reply = upstream_peer(&m, None, None, "/app").unwrap_err();
    assert_eq!(reply.status, 502);
    assert_eq!(
        String::from_utf8(reply.body).unwrap(),
        "No upstream configured for host: (none) with path: /app"
    );
    let reply = upstream_peer(&m, Some("other"), Some("example.com"), "/app").unwrap_err();
    assert_eq!(reply.status, 502);
}
