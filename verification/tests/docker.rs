use dispenser::docker::{
    credential_plan, extract_registry, get_registry_keys, parse_image_reference,
    CredentialSource, DockerConfig,
};

#[test]
fn registry_of_plain_images_is_docker_io() {
    assert_eq!(extract_registry("nginx"), "docker.io");
    assert_eq!(extract_registry("library/nginx:latest"), "docker.io");
    assert_eq!(extract_registry(""), "docker.io");
}

#[test]
fn registry_with_dot_colon_or_localhost() {
    assert_eq!(extract_registry("ghcr.io/owner/app:1"), "ghcr.io");
    assert_eq!(extract_registry("localhost:5000/app"), "localhost:5000");
    assert_eq!(extract_registry("localhost/app"), "localhost");
    assert_eq!(extract_registry("registry:5000/a/b"), "registry:5000");
    assert_eq!(extract_registry("owner/app.v2"), "docker.io");
}

#[test]
fn image_reference_with_tag() {
    assert_eq!(parse_image_reference("nginx:1.25"), ("nginx", "1.25"));
    assert_eq!(parse_image_reference("ghcr.io/o/app:v1"), ("ghcr.io/o/app", "v1"));
}

#[test]
fn image_reference_without_tag_is_latest() {
    assert_eq!(parse_image_reference("nginx"), ("nginx", "latest"));
    assert_eq!(
        parse_image_reference("localhost:5000/myimage"),
        ("localhost:5000/myimage", "latest")
    );
}

#[test]
fn image_reference_with_port_and_tag() {
    assert_eq!(
        parse_image_reference("localhost:5000/myimage:tag"),
        ("localhost:5000/myimage", "tag")
    );
}

#[test]
fn image_reference_with_digest_keeps_the_at() {
    assert_eq!(
        parse_image_reference("nginx@sha256:abcd"),
        ("nginx", "@sha256:abcd")
    );
    assert_eq!(parse_image_reference("a:b@c"), ("a:b", "@c"));
}

#[test]
fn registry_keys_for_a_private_registry() {
    assert_eq!(
        get_registry_keys("ghcr.io"),
        vec!["ghcr.io".to_string(), "https://ghcr.io".to_string()]
    );
    assert_eq!(
        get_registry_keys("http://plain.local"),
        vec!["http://plain.local".to_string()]
    );
}

#[test]
fn registry_keys_for_the_default_registry() {
    assert_eq!(
        get_registry_keys("docker.io"),
        vec![
            "docker.io".to_string(),
            "https://docker.io".to_string(),
            "https://index.docker.io/v1/".to_string(),
            "index.docker.io/v1/".to_string(),
            "https://registry-1.docker.io/v2/".to_string(),
        ]
    );
    assert_eq!(get_registry_keys("index.docker.io").len(), 5);
    assert_eq!(get_registry_keys("registry-1.docker.io").len(), 5);
}

fn config() -> DockerConfig {
    DockerConfig {
        auths: vec![
            ("https://ghcr.io".to_string(), Some("Z2g6dG9rZW4=".to_string())),
            ("empty.io".to_string(), None),
            ("https://index.docker.io/v1/".to_string(), Some("aHViOnB3".to_string())),
        ],
        creds_store: Some("desktop".to_string()),
        cred_helpers: vec![("gcr.io".to_string(), "gcloud".to_string())],
    }
}

#[test]
fn credentials_own_helper_comes_first_then_store() {
    assert_eq!(
        credential_plan(&config(), "gcr.io"),
        vec![
            CredentialSource::Helper("gcloud".to_string()),
            CredentialSource::Helper("desktop".to_string()),
        ]
    );
}

#[test]
fn credentials_static_entry_ends_the_search() {
    assert_eq!(
        credential_plan(&config(), "ghcr.io"),
        vec![CredentialSource::Static("Z2g6dG9rZW4=".to_string())]
    );
    assert_eq!(
        credential_plan(&config(), "docker.io"),
        vec![CredentialSource::Static("aHViOnB3".to_string())]
    );
}

#[test]
fn credentials_entry_without_auth_is_passed_over() {
    assert_eq!(
        credential_plan(&config(), "empty.io"),
        vec![CredentialSource::Helper("desktop".to_string())]
    );
}

#[test]
fn credentials_nothing_configured() {
    let none = DockerConfig { auths: vec![], creds_store: None, cred_helpers: vec![] };
    assert!(credential_plan(&none, "ghcr.io").is_empty());
}
