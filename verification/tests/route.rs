use dispenser::file::ProxySettings;
use dispenser::route::{build_routes, matches_path, normalize_path, RouteTable};

fn proxy(host: &str, path: Option<&str>) -> Option<ProxySettings> {
    Some(ProxySettings {
        host: host.to_string(),
        path: path.map(|p| p.to_string()),
        service_port: 8080,
        cert_file: None,
        key_file: None,
    })
}

fn example_table() -> RouteTable {
    // Index 0: "/api/v1", index 1: "/api", index 2: "/".
    build_routes(&vec![
        proxy("example.com", Some("/api/v1")),
        proxy("example.com", Some("/api")),
        proxy("example.com", Some("/")),
    ])
}

#[test]
fn normalize_empty_and_root() {
    assert_eq!(normalize_path(""), "/");
    assert_eq!(normalize_path("/"), "/");
}

#[test]
fn normalize_api_variants() {
    assert_eq!(normalize_path("/api/"), "/api");
    assert_eq!(normalize_path("api"), "/api");
    assert_eq!(normalize_path("/api"), "/api");
}

#[test]
fn normalize_keeps_inner_slashes_and_is_idempotent() {
    assert_eq!(normalize_path("//a/b//"), "/a/b");
    assert_eq!(normalize_path("///"), "/");
    for p in ["", "/", "/api/", "api", "a/b/", "//x//y//"] {
        let once = normalize_path(p);
        assert_eq!(normalize_path(&once), once);
    }
}

#[test]
fn route_api_exact() {
    assert_eq!(example_table().resolve("example.com", "/api"), Some(1));
}

#[test]
fn route_api_v1_users() {
    assert_eq!(example_table().resolve("example.com", "/api/v1/users"), Some(0));
}

#[test]
fn route_dashboard_falls_to_root() {
    assert_eq!(example_table().resolve("example.com", "/dashboard"), Some(2));
}

#[test]
fn route_api_v2_is_no_segment_match() {
    assert_eq!(example_table().resolve("example.com", "/api-v2"), Some(2));
}

#[test]
fn route_api_trailing_slash() {
    assert_eq!(example_table().resolve("example.com", "/api/"), Some(1));
}

#[test]
fn route_empty_path_is_root() {
    assert_eq!(example_table().resolve("example.com", ""), Some(2));
}

#[test]
fn route_unknown_host_is_none() {
    assert_eq!(example_table().resolve("other.com", "/api"), None);
}

#[test]
fn route_without_root_prefix_can_miss() {
    let table = build_routes(&vec![proxy("example.com", Some("/api")), None]);
    assert_eq!(table.resolve("example.com", "/api-v2"), None);
    assert_eq!(table.resolve("example.com", "/"), None);
    assert_eq!(table.resolve("example.com", "/api/x"), Some(0));
}

#[test]
fn table_is_ordered_by_descending_prefix_length() {
    let table = build_routes(&vec![
        proxy("a.com", Some("/")),
        None,
        proxy("b.com", Some("/long/prefix")),
        proxy("a.com", Some("/api")),
        proxy("a.com", None),
    ]);
    assert_eq!(table.len(), 4);
    let got: Vec<(String, String, usize)> = (0..table.len())
        .map(|k| {
            let r = table.get(k);
            (r.host.clone(), r.path.clone(), r.index)
        })
        .collect();
    assert_eq!(
        got,
        vec![
            ("b.com".to_string(), "/long/prefix".to_string(), 2),
            ("a.com".to_string(), "/api".to_string(), 3),
            ("a.com".to_string(), "/".to_string(), 0),
            ("a.com".to_string(), "/".to_string(), 4),
        ]
    );
    // Of two routes with the same prefix the one declared first serves.
    assert_eq!(table.resolve("a.com", "/x"), Some(0));
}

#[test]
fn matching_is_on_whole_segments() {
    let c = |s: &str| s.chars().collect::<Vec<char>>();
    assert!(matches_path(&c("/api"), &c("/api")));
    assert!(matches_path(&c("/api"), &c("/api/")));
    assert!(matches_path(&c("/api"), &c("/api/v1")));
    assert!(!matches_path(&c("/api"), &c("/api-v2")));
    assert!(!matches_path(&c("/api"), &c("/ap")));
    assert!(matches_path(&c("/"), &c("/anything")));
    assert!(!matches_path(&c("/api/v1"), &c("/api")));
}

#[test]
fn empty_table_resolves_nothing() {
    assert_eq!(RouteTable::new().resolve("example.com", "/"), None);
}
