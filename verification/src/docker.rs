//! Image references and registry credentials.
//!
//! An image reference names a registry, a repository and a tag or digest.
//! The functions here take a reference apart and decide, from the runtime's
//! client configuration, where the credentials for a registry are looked up
//! and in which order.

use crate::file::same_string;
use crate::text::{
    chars_eq, chars_of, find_char, has_prefix, push_all, range_contains, rfind_char, slice_of,
    string_of, strings_view,
};
use vstd::prelude::*;
use vstd::string::*;

verus! {

/// The registry that an image reference names. The part before the first
/// slash is a registry if it holds a dot or a colon or is `localhost`;
/// every other reference is one of the default registry, `docker.io`.
pub open spec fn registry_of(image: Seq<char>) -> Seq<char> {
    match image.index_of_first('/') {
        Some(slash) => {
            let part = image.subrange(0, slash);
            if part.contains('.') || part.contains(':') || part == "localhost"@ {
                part
            } else {
                "docker.io"@
            }
        },
        None => "docker.io"@,
    }
}

/// Extracts the registry part from an image name.
pub fn extract_registry<'a>(image: &'a str) -> (r: &'a str)
    ensures
        r@ == registry_of(image@),
{
    let v = chars_of(image);
    match find_char(&v, '/') {
        Some(slash) => {
            proof {
                v@.index_of_first_ensures('/');
            }
            let part = slice_of(&v, 0, slash);
            let localhost = chars_of("localhost");
            if range_contains(&v, 0, slash, '.') || range_contains(&v, 0, slash, ':') || chars_eq(
                &part,
                &localhost,
            ) {
                image.substring_char(0, slash)
            } else {
                "docker.io"
            }
        },
        None => "docker.io",
    }
}

/// The two parts of an image reference.
/// - With a digest (`image@sha256:...`): the part before the `@`, and the
///   rest with the `@`.
/// - With a tag: the parts before and after the last colon. A colon that a
///   slash follows belongs to a registry's port and starts no tag.
/// - Else the whole reference and the tag `latest`.
pub open spec fn image_reference_parts(image: Seq<char>) -> (Seq<char>, Seq<char>) {
    match image.index_of_first('@') {
        Some(at) => (image.subrange(0, at), image.subrange(at, image.len() as int)),
        None => match image.index_of_last(':') {
            Some(colon) => {
                let after = image.subrange(colon + 1, image.len() as int);
                if after.contains('/') {
                    (image, "latest"@)
                } else {
                    (image.subrange(0, colon), after)
                }
            },
            None => (image, "latest"@),
        },
    }
}

/// Parses an image reference into its image and tag components.
pub fn parse_image_reference<'a>(image: &'a str) -> (r: (&'a str, &'a str))
    ensures
        (r.0@, r.1@) == image_reference_parts(image@),
{
    let v = chars_of(image);
    let n = v.len();
    match find_char(&v, '@') {
        Some(at) => {
            proof {
                v@.index_of_first_ensures('@');
            }
            return (image.substring_char(0, at), image.substring_char(at, n));
        },
        None => {},
    }
    match rfind_char(&v, ':') {
        Some(colon) => {
            proof {
                v@.index_of_last_ensures(':');
            }
            if !range_contains(&v, colon + 1, n, '/') {
                return (image.substring_char(0, colon), image.substring_char(colon + 1, n));
            }
        },
        None => {},
    }
    (image, "latest")
}

/// Whether `registry` is one of the names of the default registry.
pub open spec fn is_default_registry(registry: Seq<char>) -> bool {
    registry == "docker.io"@ || registry == "registry-1.docker.io"@ || registry
        == "index.docker.io"@
}

/// The keys under which the client configuration may hold the static
/// credentials of `registry`, in the order in which they are tried: the name
/// itself; the name as an `https` address unless it begins with `http`; and
/// for the default registry its three well-known addresses.
pub open spec fn registry_keys(registry: Seq<char>) -> Seq<Seq<char>> {
    let own = seq![registry];
    let with_scheme = if "http"@.is_prefix_of(registry) {
        own
    } else {
        own.push("https://"@ + registry)
    };
    if is_default_registry(registry) {
        with_scheme.push("https://index.docker.io/v1/"@).push("index.docker.io/v1/"@).push(
            "https://registry-1.docker.io/v2/"@,
        )
    } else {
        with_scheme
    }
}

/// Generates the list of possible configuration keys for a registry.
pub fn get_registry_keys(registry: &str) -> (keys: Vec<String>)
    ensures
        strings_view(keys@) == registry_keys(registry@),
{
    let v = chars_of(registry);
    let mut keys: Vec<String> = Vec::new();
    keys.push(string_of(&v));
    assert(strings_view(keys@) =~= seq![registry@]);
    let http = chars_of("http");
    if !has_prefix(&v, &http) {
        let mut address = chars_of("https://");
        push_all(&mut address, &v);
        keys.push(string_of(&address));
        assert(strings_view(keys@) =~= seq![registry@].push("https://"@ + registry@));
    }
    let docker_io = chars_of("docker.io");
    let registry_1 = chars_of("registry-1.docker.io");
    let index = chars_of("index.docker.io");
    if chars_eq(&v, &docker_io) || chars_eq(&v, &registry_1) || chars_eq(&v, &index) {
        let ghost before = strings_view(keys@);
        keys.push("https://index.docker.io/v1/".to_owned());
        keys.push("index.docker.io/v1/".to_owned());
        keys.push("https://registry-1.docker.io/v2/".to_owned());
        assert(strings_view(keys@) =~= before.push("https://index.docker.io/v1/"@).push(
            "index.docker.io/v1/"@,
        ).push("https://registry-1.docker.io/v2/"@));
    }
    keys
}

/// What the runtime's client configuration says about credentials.
#[derive(Debug, Clone, PartialEq, Eq)]
pub struct DockerConfig {
    /// Static entries: a registry key and, if present, its encoded
    /// credentials.
    pub auths: Vec<(String, Option<String>)>,
    /// The helper, by its suffix, that serves every registry.
    pub creds_store: Option<String>,
    /// Helpers, by their suffix, that serve one registry each.
    pub cred_helpers: Vec<(String, String)>,
}

/// One place where credentials are looked up.
#[derive(Debug, Clone, PartialEq, Eq)]
pub enum CredentialSource {
    /// Ask the helper program with this suffix; it may have none.
    Helper(String),
    /// Use these encoded credentials from the configuration.
    Static(String),
}

pub enum CredentialSourceView {
    Helper(Seq<char>),
    Static(Seq<char>),
}

impl DeepView for CredentialSource {
    type V = CredentialSourceView;

    open spec fn deep_view(&self) -> CredentialSourceView {
        match self {
            CredentialSource::Helper(h) => CredentialSourceView::Helper(h@),
            CredentialSource::Static(a) => CredentialSourceView::Static(a@),
        }
    }
}

/// The helper configured for `registry` alone: that of the first entry for it.
pub open spec fn helper_for(helpers: Seq<(String, String)>, registry: Seq<char>) -> Option<Seq<char>>
    decreases helpers.len(),
{
    if helpers.len() == 0 {
        None
    } else if helpers[0].0@ == registry {
        Some(helpers[0].1@)
    } else {
        helper_for(helpers.drop_first(), registry)
    }
}

/// The static entry under `key`: the first one with that key, whether or not
/// it holds credentials.
pub open spec fn auth_entry(auths: Seq<(String, Option<String>)>, key: Seq<char>) -> Option<
    Option<Seq<char>>,
>
    decreases auths.len(),
{
    if auths.len() == 0 {
        None
    } else if auths[0].0@ == key {
        Some(auths[0].1.deep_view())
    } else {
        auth_entry(auths.drop_first(), key)
    }
}

/// The static credentials of the first of `keys` whose entry holds some.
pub open spec fn static_auth(auths: Seq<(String, Option<String>)>, keys: Seq<Seq<char>>) -> Option<
    Seq<char>,
>
    decreases keys.len(),
{
    if keys.len() == 0 {
        None
    } else {
        match auth_entry(auths, keys[0]) {
            Some(Some(auth)) => Some(auth),
            _ => static_auth(auths, keys.drop_first()),
        }
    }
}

/// Where the credentials of `registry` are looked up, in order: the
/// registry's own helper, the static entries, the helper for all registries.
/// The first source that yields credentials ends the search. Static
/// credentials always do, so nothing follows them.
pub open spec fn credential_sources(config: DockerConfig, registry: Seq<char>) -> Seq<
    CredentialSourceView,
> {
    let own = match helper_for(config.cred_helpers@, registry) {
        Some(h) => seq![CredentialSourceView::Helper(h)],
        None => seq![],
    };
    match static_auth(config.auths@, registry_keys(registry)) {
        Some(auth) => own.push(CredentialSourceView::Static(auth)),
        None => match config.creds_store {
            Some(store) => own.push(CredentialSourceView::Helper(store@)),
            None => own,
        },
    }
}

pub(crate) fn find_helper(helpers: &Vec<(String, String)>, registry: &String) -> (r: Option<String>)
    ensures
        r.deep_view() == helper_for(helpers@, registry@),
{
    let mut i: usize = 0;
    assert(helpers@.subrange(0, helpers@.len() as int) =~= helpers@);
    while i < helpers.len()
        invariant
            i <= helpers.len(),
            helper_for(helpers@, registry@) == helper_for(
                helpers@.subrange(i as int, helpers@.len() as int),
                registry@,
            ),
        decreases helpers.len() - i,
    {
        let ghost rest = helpers@.subrange(i as int, helpers@.len() as int);
        assert(rest[0] == helpers@[i as int]);
        assert(rest.drop_first() =~= helpers@.subrange(i + 1, helpers@.len() as int));
        if same_string(&helpers[i].0, registry) {
            return Some(helpers[i].1.clone());
        }
        i += 1;
    }
    None
}

pub(crate) fn find_auth_entry(auths: &Vec<(String, Option<String>)>, key: &String) -> (r: Option<
    Option<String>,
>)
    ensures
        r.deep_view() == auth_entry(auths@, key@),
{
    let mut i: usize = 0;
    assert(auths@.subrange(0, auths@.len() as int) =~= auths@);
    while i < auths.len()
        invariant
            i <= auths.len(),
            auth_entry(auths@, key@) == auth_entry(
                auths@.subrange(i as int, auths@.len() as int),
                key@,
            ),
        decreases auths.len() - i,
    {
        let ghost rest = auths@.subrange(i as int, auths@.len() as int);
        assert(rest[0] == auths@[i as int]);
        assert(rest.drop_first() =~= auths@.subrange(i + 1, auths@.len() as int));
        if same_string(&auths[i].0, key) {
            let found: Option<String> = match &auths[i].1 {
                Some(a) => Some(a.clone()),
                None => None,
            };
            return Some(found);
        }
        i += 1;
    }
    None
}

fn find_static_auth(auths: &Vec<(String, Option<String>)>, keys: &Vec<String>) -> (r: Option<
    String,
>)
    ensures
        r.deep_view() == static_auth(auths@, strings_view(keys@)),
{
    let ghost all = strings_view(keys@);
    let mut i: usize = 0;
    assert(all.subrange(0, all.len() as int) =~= all);
    while i < keys.len()
        invariant
            i <= keys.len(),
            all == strings_view(keys@),
            static_auth(auths@, all) == static_auth(auths@, all.subrange(i as int, all.len() as int)),
        decreases keys.len() - i,
    {
        let ghost rest = all.subrange(i as int, all.len() as int);
        assert(rest[0] == keys@[i as int]@);
        assert(rest.drop_first() =~= all.subrange(i + 1, all.len() as int));
        match find_auth_entry(auths, &keys[i]) {
            Some(Some(auth)) => {
                return Some(auth);
            },
            _ => {},
        }
        i += 1;
    }
    None
}

/// The sources to ask for the credentials of `registry`, in order.
pub fn credential_plan(config: &DockerConfig, registry: &str) -> (plan: Vec<CredentialSource>)
    ensures
        plan.deep_view() == credential_sources(*config, registry@),
{
    let name = registry.to_owned();
    let mut plan: Vec<CredentialSource> = Vec::new();
    match find_helper(&config.cred_helpers, &name) {
        Some(h) => {
            plan.push(CredentialSource::Helper(h));
        },
        None => {},
    }
    let ghost own = plan.deep_view();
    assert(own =~= match helper_for(config.cred_helpers@, registry@) {
        Some(h) => seq![CredentialSourceView::Helper(h)],
        None => seq![],
    });
    let keys = get_registry_keys(registry);
    match find_static_auth(&config.auths, &keys) {
        Some(auth) => {
            let ghost a = auth@;
            plan.push(CredentialSource::Static(auth));
            assert(plan.deep_view() =~= own.push(CredentialSourceView::Static(a)));
        },
        None => match &config.creds_store {
            Some(store) => {
                plan.push(CredentialSource::Helper(store.clone()));
                assert(plan.deep_view() =~= own.push(CredentialSourceView::Helper(store@)));
            },
            None => {},
        },
    }
    plan
}

} // verus!
