//! Watching an image by its registry manifest.
//!
//! A manifest answer either describes one image, whose digest stands under
//! `config`, or lists one manifest per platform. The watcher follows the
//! digest for one platform.

use crate::file::same_string;
use crate::manifest::{
    digest_after, digest_is, digest_view, hash_is_sized, read_digest, sha256_hash, status_after,
    ImageWatcherStatus, Sha256,
};
use vstd::prelude::*;
use vstd::utf8::encode_utf8;

verus! {

/// Why the digest of a manifest could not be had.
#[derive(Debug, Clone, PartialEq, Eq)]
pub enum DockerWatcherError {
    /// The digest text does not start with `sha256:`.
    InvalidDigestPrefix(String),
    /// The registry's answer could not be read as JSON.
    SerdeJsonError(String),
    /// The registry could not be asked.
    IoError(String),
    /// The answer lists no manifest for the platform.
    NoMatchingManifest { architecture: String, os: String },
}

pub enum DockerWatcherErrorView {
    InvalidDigestPrefix(Seq<char>),
    SerdeJsonError(Seq<char>),
    IoError(Seq<char>),
    NoMatchingManifest { architecture: Seq<char>, os: Seq<char> },
}

impl DeepView for DockerWatcherError {
    type V = DockerWatcherErrorView;

    open spec fn deep_view(&self) -> DockerWatcherErrorView {
        match self {
            DockerWatcherError::InvalidDigestPrefix(s) => DockerWatcherErrorView::InvalidDigestPrefix(
                s@,
            ),
            DockerWatcherError::SerdeJsonError(s) => DockerWatcherErrorView::SerdeJsonError(s@),
            DockerWatcherError::IoError(s) => DockerWatcherErrorView::IoError(s@),
            DockerWatcherError::NoMatchingManifest { architecture, os } => {
                DockerWatcherErrorView::NoMatchingManifest { architecture: architecture@, os: os@ }
            },
        }
    }
}

/// The image that a manifest answer describes itself.
#[derive(Debug, Clone, PartialEq, Eq)]
pub struct Config {
    pub digest: String,
}

/// The platform of a listed manifest.
#[derive(Debug, Clone, PartialEq, Eq)]
pub struct Platform {
    pub architecture: String,
    pub os: String,
}

/// One listed manifest.
#[derive(Debug, Clone, PartialEq, Eq)]
pub struct Manifest {
    pub digest: String,
    pub platform: Platform,
}

/// What the registry answers when asked for the manifest of an image.
#[derive(Debug, Clone, PartialEq, Eq)]
pub struct DockerManifestsResponse {
    pub config: Option<Config>,
    pub manifests: Option<Vec<Manifest>>,
}

/// The digest text of the first of `manifests` for the platform.
pub open spec fn platform_digest(manifests: Seq<Manifest>, architecture: Seq<char>, os: Seq<char>) -> Option<
    Seq<char>,
>
    decreases manifests.len(),
{
    if manifests.len() == 0 {
        None
    } else if manifests[0].platform.architecture@ == architecture && manifests[0].platform.os@
        == os {
        Some(manifests[0].digest@)
    } else {
        platform_digest(manifests.drop_first(), architecture, os)
    }
}

impl DockerManifestsResponse {
    /// The digest text that the answer holds for the platform: that under
    /// `config` if there is one, else that of the first listed manifest for
    /// the platform.
    pub open spec fn digest_text(&self, architecture: Seq<char>, os: Seq<char>) -> Option<Seq<char>> {
        match self.config {
            Some(config) => Some(config.digest@),
            None => match self.manifests {
                Some(manifests) => platform_digest(manifests@, architecture, os),
                None => None,
            },
        }
    }

    /// The digest of the answer for the platform, or why it has none.
    pub open spec fn digest_spec(&self, architecture: Seq<char>, os: Seq<char>) -> Result<
        Seq<u8>,
        DockerWatcherErrorView,
    > {
        match self.digest_text(architecture, os) {
            Some(text) => match sha256_hash(text) {
                Some(hash) => Ok(encode_utf8(hash)),
                None => Err(DockerWatcherErrorView::InvalidDigestPrefix(text)),
            },
            None => Err(DockerWatcherErrorView::NoMatchingManifest { architecture, os }),
        }
    }

    /// Whether the digest of the answer for the platform has the length of a
    /// digest. A registry reports no other.
    pub open spec fn digest_is_sized(&self, architecture: Seq<char>, os: Seq<char>) -> bool {
        match self.digest_text(architecture, os) {
            Some(text) => hash_is_sized(text),
            None => true,
        }
    }

    #[verifier::loop_isolation(false)]
    fn digest_source<'a>(&'a self, architecture: &str, os: &str) -> (r: Option<&'a String>)
        ensures
            match r {
                Some(t) => self.digest_text(architecture@, os@) == Some(t@),
                None => self.digest_text(architecture@, os@) is None,
            },
    {
        match &self.config {
            Some(config) => {
                return Some(&config.digest);
            },
            None => {},
        }
        match &self.manifests {
            Some(manifests) => {
                let arch = architecture.to_owned();
                let system = os.to_owned();
                let mut i: usize = 0;
                assert(manifests@.subrange(0, manifests@.len() as int) =~= manifests@);
                while i < manifests.len()
                    invariant
                        i <= manifests.len(),
                        arch@ == architecture@,
                        system@ == os@,
                        platform_digest(manifests@, architecture@, os@) == platform_digest(
                            manifests@.subrange(i as int, manifests@.len() as int),
                            architecture@,
                            os@,
                        ),
                    decreases manifests.len() - i,
                {
                    let ghost rest = manifests@.subrange(i as int, manifests@.len() as int);
                    assert(rest[0] == manifests@[i as int]);
                    assert(rest.drop_first() =~= manifests@.subrange(
                        i + 1,
                        manifests@.len() as int,
                    ));
                    let man = &manifests[i];
                    if same_string(&man.platform.architecture, &arch) && same_string(
                        &man.platform.os,
                        &system,
                    ) {
                        return Some(&man.digest);
                    }
                    i += 1;
                }
                None
            },
            None => None,
        }
    }

    /// The digest of the image for the platform.
    pub fn get_digest(&self, architecture: &str, os: &str) -> (r: Result<Sha256, DockerWatcherError>)
        requires
            self.digest_is_sized(architecture@, os@),
        ensures
            match r {
                Ok(d) => self.digest_spec(architecture@, os@) == Ok::<
                    Seq<u8>,
                    DockerWatcherErrorView,
                >(d@),
                Err(e) => self.digest_spec(architecture@, os@) == Err::<
                    Seq<u8>,
                    DockerWatcherErrorView,
                >(e.deep_view()),
            },
    {
        match self.digest_source(architecture, os) {
            Some(text) => match read_digest(text.as_str()) {
                Ok(d) => Ok(d),
                Err(_) => Err(DockerWatcherError::InvalidDigestPrefix(text.clone())),
            },
            None => Err(
                DockerWatcherError::NoMatchingManifest {
                    architecture: architecture.to_owned(),
                    os: os.to_owned(),
                },
            ),
        }
    }
}

/// What a look at the registry found.
#[derive(Debug, Copy, Clone, PartialEq, Eq, Structural)]
pub enum DockerWatcherStatus {
    NotUpdated,
    Updated,
    Deleted,
}

/// The same finding, for a watcher of the runtime.
pub open spec fn as_image_status(s: DockerWatcherStatus) -> ImageWatcherStatus {
    match s {
        DockerWatcherStatus::NotUpdated => ImageWatcherStatus::NotUpdated,
        DockerWatcherStatus::Updated => ImageWatcherStatus::Updated,
        DockerWatcherStatus::Deleted => ImageWatcherStatus::Deleted,
    }
}

/// The digest of a fetch from the registry, if it brought one.
pub open spec fn fetched_digest(fetched: Result<Sha256, DockerWatcherError>) -> Option<Seq<u8>> {
    match fetched {
        Ok(d) => Some(d@),
        Err(_) => None,
    }
}

/// Watches one tag of one image in one registry.
#[derive(Debug, Clone)]
pub struct DockerWatcher {
    pub registry: String,
    pub image: String,
    pub tag: String,
    pub last_digest: Option<Sha256>,
}

impl DockerWatcher {
    /// A watcher that knows what a first fetch brought: its digest, or
    /// nothing if the fetch failed.
    pub fn initialize(
        registry: &str,
        image: &str,
        tag: &str,
        fetched: Result<Sha256, DockerWatcherError>,
    ) -> (r: DockerWatcher)
        ensures
            r.registry@ == registry@,
            r.image@ == image@,
            r.tag@ == tag@,
            digest_view(r.last_digest) == fetched_digest(fetched),
    {
        let last_digest = match fetched {
            Ok(d) => Some(d),
            Err(_) => None,
        };
        DockerWatcher {
            registry: registry.to_owned(),
            image: image.to_owned(),
            tag: tag.to_owned(),
            last_digest,
        }
    }

    /// Takes note of what a fetch brought and says whether it is news.
    pub fn update(&mut self, fetched: Result<Sha256, DockerWatcherError>) -> (status:
        DockerWatcherStatus)
        ensures
            as_image_status(status) == status_after(
                digest_view(old(self).last_digest),
                fetched_digest(fetched),
            ),
            digest_view(final(self).last_digest) == digest_after(
                digest_view(old(self).last_digest),
                fetched_digest(fetched),
            ),
            final(self).registry == old(self).registry,
            final(self).image == old(self).image,
            final(self).tag == old(self).tag,
    {
        match fetched {
            Err(_) => DockerWatcherStatus::Deleted,
            Ok(new_digest) => {
                if digest_is(&self.last_digest, &new_digest) {
                    DockerWatcherStatus::NotUpdated
                } else {
                    self.last_digest = Some(new_digest);
                    DockerWatcherStatus::Updated
                }
            },
        }
    }
}

} // verus!
