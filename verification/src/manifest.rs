//! The image watcher: which version of an image is current, and whether it
//! changed since it was last looked at.
//!
//! A version is identified by its digest, written `sha256:` and 64
//! characters. The watcher is handed what the runtime reported for the image
//! and says whether that is news.

use crate::text::{chars_of, find_char, has_prefix, push_str, string_of};
use vstd::prelude::*;
use vstd::string::*;
use vstd::utf8::encode_utf8;

verus! {

/// The number of bytes of a digest.
pub const DIGEST_LEN: usize = 64;

/// A digest: the 64 bytes that follow `sha256:`.
#[derive(Copy, Clone, Debug, PartialEq, Eq)]
pub struct Sha256 {
    pub inner: [u8; 64],
}

impl View for Sha256 {
    type V = Seq<u8>;

    open spec fn view(&self) -> Seq<u8> {
        self.inner@
    }
}

impl Sha256 {
    /// Whether the two digests are the same, byte for byte.
    pub fn same_as(&self, other: &Sha256) -> (r: bool)
        ensures
            r == (self@ == other@),
    {
        let mut i: usize = 0;
        while i < 64
            invariant
                i <= 64,
                forall|j: int| 0 <= j < i ==> self.inner@[j] == other.inner@[j],
            decreases 64 - i,
        {
            if self.inner[i] != other.inner[i] {
                return false;
            }
            i += 1;
        }
        assert(self@ =~= other@);
        true
    }
}

/// Whether a known digest equals `new`. An unknown digest equals none.
pub fn digest_is(last: &Option<Sha256>, new: &Sha256) -> (r: bool)
    ensures
        r == (last is Some && last.unwrap()@ == new@),
{
    match last {
        Some(d) => d.same_as(new),
        None => false,
    }
}

/// Why the digest of an image could not be had.
#[derive(Debug, Clone, PartialEq, Eq)]
pub enum ImageWatcherError {
    /// The digest text does not start with `sha256:`.
    InvalidDigestPrefix(String),
    /// The runtime's answer could not be read as JSON.
    SerdeJsonError(String),
    /// The runtime could not be asked.
    IoError(String),
    /// The runtime refused, or its answer held no digest.
    DockerCommandFailed(String),
}

pub enum ImageWatcherErrorView {
    InvalidDigestPrefix(Seq<char>),
    SerdeJsonError(Seq<char>),
    IoError(Seq<char>),
    DockerCommandFailed(Seq<char>),
}

impl DeepView for ImageWatcherError {
    type V = ImageWatcherErrorView;

    open spec fn deep_view(&self) -> ImageWatcherErrorView {
        match self {
            ImageWatcherError::InvalidDigestPrefix(s) => ImageWatcherErrorView::InvalidDigestPrefix(
                s@,
            ),
            ImageWatcherError::SerdeJsonError(s) => ImageWatcherErrorView::SerdeJsonError(s@),
            ImageWatcherError::IoError(s) => ImageWatcherErrorView::IoError(s@),
            ImageWatcherError::DockerCommandFailed(s) => ImageWatcherErrorView::DockerCommandFailed(
                s@,
            ),
        }
    }
}

/// The message of an error.
pub open spec fn error_message(e: ImageWatcherErrorView) -> Seq<char> {
    match e {
        ImageWatcherErrorView::InvalidDigestPrefix(s) => "Digest string '"@ + s
            + "' does not start with 'sha256:'"@,
        ImageWatcherErrorView::SerdeJsonError(s) => "JSON deserialization error: "@ + s,
        ImageWatcherErrorView::IoError(s) => "IO error: "@ + s,
        ImageWatcherErrorView::DockerCommandFailed(s) => "Docker command failed: "@ + s,
    }
}

impl ImageWatcherError {
    /// The message of the error, as it is logged.
    pub fn message(&self) -> (r: String)
        ensures
            r@ == error_message(self.deep_view()),
    {
        let mut out: Vec<char> = Vec::new();
        match self {
            ImageWatcherError::InvalidDigestPrefix(s) => {
                push_str(&mut out, "Digest string '");
                push_str(&mut out, s.as_str());
                push_str(&mut out, "' does not start with 'sha256:'");
            },
            ImageWatcherError::SerdeJsonError(s) => {
                push_str(&mut out, "JSON deserialization error: ");
                push_str(&mut out, s.as_str());
            },
            ImageWatcherError::IoError(s) => {
                push_str(&mut out, "IO error: ");
                push_str(&mut out, s.as_str());
            },
            ImageWatcherError::DockerCommandFailed(s) => {
                push_str(&mut out, "Docker command failed: ");
                push_str(&mut out, s.as_str());
            },
        }
        assert(out@ =~= error_message(self.deep_view()));
        string_of(&out)
    }
}

/// The hash of a digest text: what follows `sha256:`, or nothing if the text
/// does not start with it.
pub open spec fn sha256_hash(text: Seq<char>) -> Option<Seq<char>> {
    if "sha256:"@.is_prefix_of(text) {
        Some(text.subrange("sha256:"@.len() as int, text.len() as int))
    } else {
        None
    }
}

/// Whether the hash of a digest text, if it has one, is 64 bytes long.
pub open spec fn hash_is_sized(text: Seq<char>) -> bool {
    match sha256_hash(text) {
        Some(hash) => encode_utf8(hash).len() == DIGEST_LEN,
        None => true,
    }
}

/// The text from which the digest of a repository digest is read: what
/// stands between the first `@` and the next one, or the end.
pub open spec fn after_at(text: Seq<char>) -> Option<Seq<char>> {
    match text.index_of_first('@') {
        Some(at) => {
            let rest = text.subrange(at + 1, text.len() as int);
            match rest.index_of_first('@') {
                Some(next) => Some(rest.subrange(0, next)),
                None => Some(rest),
            }
        },
        None => None,
    }
}

/// What the runtime reports when an image is inspected.
#[derive(Debug, Clone, PartialEq, Eq)]
pub struct DockerInspectResponse {
    /// The repository digests, each written `repository@sha256:...`.
    pub repo_digests: Option<Vec<String>>,
    /// The image identifier, written `sha256:...`.
    pub id: Option<String>,
}

impl DockerInspectResponse {
    /// What the first repository digest writes behind its `@`, if there is
    /// such a digest and it holds one.
    pub open spec fn repo_text(&self) -> Option<Seq<char>> {
        match self.repo_digests {
            Some(digests) => if digests@.len() > 0 {
                after_at(digests@[0]@)
            } else {
                None
            },
            None => None,
        }
    }

    /// The text from which the digest is read:
    /// 1. that of the first repository digest, where it begins `sha256:`;
    /// 2. else the image identifier, where there is one;
    /// 3. else that of the first repository digest, which then is what the
    ///    error names.
    pub open spec fn digest_text(&self) -> Option<Seq<char>> {
        match self.repo_text() {
            Some(t) => if sha256_hash(t) is Some {
                Some(t)
            } else {
                match self.id {
                    Some(id) => Some(id@),
                    None => Some(t),
                }
            },
            None => match self.id {
                Some(id) => Some(id@),
                None => None,
            },
        }
    }

    /// The digest of the response, or why it has none.
    pub open spec fn digest_spec(&self) -> Result<Seq<u8>, ImageWatcherErrorView> {
        match self.digest_text() {
            Some(text) => match sha256_hash(text) {
                Some(hash) => Ok(encode_utf8(hash)),
                None => Err(ImageWatcherErrorView::InvalidDigestPrefix(text)),
            },
            None => Err(
                ImageWatcherErrorView::DockerCommandFailed("No digest found in inspect output"@),
            ),
        }
    }

    /// Whether the digest of the response has the length of a digest. The
    /// runtime reports no other.
    pub open spec fn digest_is_sized(&self) -> bool {
        match self.digest_text() {
            Some(text) => hash_is_sized(text),
            None => true,
        }
    }

    fn digest_source<'a>(&'a self) -> (r: Option<&'a str>)
        ensures
            match r {
                Some(t) => self.digest_text() == Some(t@),
                None => self.digest_text() is None,
            },
    {
        let from_repo: Option<&'a str> = match &self.repo_digests {
            Some(digests) => if digests.len() > 0 {
                part_after_at(digests[0].as_str())
            } else {
                None
            },
            None => None,
        };
        match from_repo {
            Some(part) => {
                if hash_of(part).is_some() {
                    return Some(part);
                }
            },
            None => {},
        }
        match &self.id {
            Some(id) => Some(id.as_str()),
            None => from_repo,
        }
    }

    /// Whether the digest of the response has the length of a digest.
    pub fn has_sized_digest(&self) -> (r: bool)
        ensures
            r == self.digest_is_sized(),
    {
        match self.digest_source() {
            Some(text) => match hash_of(text) {
                Some(hash) => hash.as_bytes_vec().len() == DIGEST_LEN,
                None => true,
            },
            None => true,
        }
    }

    /// The digest of the inspected image. A repository digest that begins
    /// `sha256:` is preferred; the image identifier is the fallback. The
    /// prefix is reported as invalid only if neither begins so.
    pub fn get_digest(&self) -> (r: Result<Sha256, ImageWatcherError>)
        requires
            self.digest_is_sized(),
        ensures
            match r {
                Ok(d) => self.digest_spec() == Ok::<Seq<u8>, ImageWatcherErrorView>(d@),
                Err(e) => self.digest_spec() == Err::<Seq<u8>, ImageWatcherErrorView>(
                    e.deep_view(),
                ),
            },
    {
        match self.digest_source() {
            Some(text) => read_digest(text),
            None => Err(
                ImageWatcherError::DockerCommandFailed(
                    "No digest found in inspect output".to_owned(),
                ),
            ),
        }
    }
}

/// Whether a text begins `sha256:`.
pub open spec fn begins_sha256(text: Option<Seq<char>>) -> bool {
    match text {
        Some(t) => sha256_hash(t) is Some,
        None => false,
    }
}

/// The digest is read from the first repository digest where that begins
/// `sha256:`, else from the image identifier where that does. An invalid
/// prefix is reported exactly if there is a text to read from and neither of
/// the two begins so; with nothing to read from the inspection is reported
/// as failed.
pub proof fn lemma_digest_prefers_repo_then_id(response: DockerInspectResponse)
    ensures
        begins_sha256(response.repo_text()) ==> response.digest_spec() == Ok::<
            Seq<u8>,
            ImageWatcherErrorView,
        >(encode_utf8(sha256_hash(response.repo_text().unwrap()).unwrap())),
        !begins_sha256(response.repo_text()) && begins_sha256(response.id.deep_view())
            ==> response.digest_spec() == Ok::<Seq<u8>, ImageWatcherErrorView>(
            encode_utf8(sha256_hash(response.id.unwrap()@).unwrap()),
        ),
        response.digest_spec() is Ok <==> begins_sha256(response.repo_text()) || begins_sha256(
            response.id.deep_view(),
        ),
        response.digest_spec() is Err ==> (response.digest_spec()->Err_0
            is DockerCommandFailed <==> response.repo_text() is None && response.id is None),
{
}

/// What stands between the first `@` of `text` and the next one, or the end.
fn part_after_at<'a>(text: &'a str) -> (r: Option<&'a str>)
    ensures
        match r {
            Some(t) => after_at(text@) == Some(t@),
            None => after_at(text@) is None,
        },
{
    let v = chars_of(text);
    match find_char(&v, '@') {
        Some(at) => {
            proof {
                v@.index_of_first_ensures('@');
            }
            let rest = text.substring_char(at + 1, v.len());
            let w = chars_of(rest);
            match find_char(&w, '@') {
                Some(next) => {
                    proof {
                        w@.index_of_first_ensures('@');
                    }
                    Some(rest.substring_char(0, next))
                },
                None => Some(rest),
            }
        },
        None => None,
    }
}

/// What follows `sha256:` in `text`.
fn hash_of<'a>(text: &'a str) -> (r: Option<&'a str>)
    ensures
        match r {
            Some(h) => sha256_hash(text@) == Some(h@),
            None => sha256_hash(text@) is None,
        },
{
    let v = chars_of(text);
    let prefix = chars_of("sha256:");
    if has_prefix(&v, &prefix) {
        Some(text.substring_char(prefix.len(), v.len()))
    } else {
        None
    }
}

/// Reads the digest that the text `sha256:...` writes.
pub fn read_digest(text: &str) -> (r: Result<Sha256, ImageWatcherError>)
    requires
        hash_is_sized(text@),
    ensures
        match r {
            Ok(d) => sha256_hash(text@) is Some && d@ == encode_utf8(sha256_hash(text@).unwrap()),
            Err(e) => sha256_hash(text@) is None && e.deep_view()
                == ImageWatcherErrorView::InvalidDigestPrefix(text@),
        },
{
    match hash_of(text) {
        Some(hash) => {
            let bytes = hash.as_bytes_vec();
            let mut inner: [u8; 64] = [0u8; 64];
            let mut i: usize = 0;
            while i < 64
                invariant
                    i <= 64,
                    bytes.len() == 64,
                    forall|j: int| 0 <= j < i ==> inner@[j] == bytes@[j],
                decreases 64 - i,
            {
                inner[i] = bytes[i];
                i += 1;
            }
            assert(inner@ =~= bytes@);
            Ok(Sha256 { inner })
        },
        None => Err(ImageWatcherError::InvalidDigestPrefix(text.to_owned())),
    }
}

/// What a look at the image found.
#[derive(Debug, Copy, Clone, PartialEq, Eq, Structural)]
pub enum ImageWatcherStatus {
    /// The image is the one seen last.
    NotUpdated,
    /// The image is another one than seen last, or the first one seen.
    Updated,
    /// The image could not be had.
    Deleted,
}

/// What the watcher reports for a fetched digest, given the one it knows:
/// - no digest could be fetched: `Deleted`;
/// - the fetched digest is the known one: `NotUpdated`;
/// - else, also where none was known: `Updated`.
pub open spec fn status_after(last: Option<Seq<u8>>, fetched: Option<Seq<u8>>) -> ImageWatcherStatus {
    match fetched {
        None => ImageWatcherStatus::Deleted,
        Some(d) => if last == Some(d) {
            ImageWatcherStatus::NotUpdated
        } else {
            ImageWatcherStatus::Updated
        },
    }
}

/// The digest the watcher knows after a fetch: the fetched one, or the one
/// it knew where none could be fetched.
pub open spec fn digest_after(last: Option<Seq<u8>>, fetched: Option<Seq<u8>>) -> Option<Seq<u8>> {
    match fetched {
        None => last,
        Some(d) => Some(d),
    }
}

/// Two successive fetches of the same digest: the second one is no news.
pub proof fn lemma_same_digest_twice_is_not_updated(last: Option<Seq<u8>>, d: Seq<u8>)
    ensures
        status_after(digest_after(last, Some(d)), Some(d)) == ImageWatcherStatus::NotUpdated,
{
}

/// A failed fetch between two fetches of the same digest changes nothing:
/// the watcher stays at the digest it knew.
pub proof fn lemma_failed_fetch_keeps_digest(last: Option<Seq<u8>>)
    ensures
        digest_after(last, None) == last,
        status_after(last, None) == ImageWatcherStatus::Deleted,
{
}

/// The digest of a fetch, if it brought one.
pub open spec fn fetched_view(fetched: Result<Sha256, ImageWatcherError>) -> Option<Seq<u8>> {
    match fetched {
        Ok(d) => Some(d@),
        Err(_) => None,
    }
}

/// The digest that an optional digest holds.
pub open spec fn digest_view(d: Option<Sha256>) -> Option<Seq<u8>> {
    match d {
        Some(d) => Some(d@),
        None => None,
    }
}

/// Watches one image.
#[derive(Debug, Clone)]
pub struct ImageWatcher {
    pub image: String,
    pub last_digest: Option<Sha256>,
}

impl ImageWatcher {
    /// A watcher for `image` that knows what a first fetch brought: its
    /// digest, or nothing if the fetch failed.
    pub fn initialize(image: &str, fetched: Result<Sha256, ImageWatcherError>) -> (r: ImageWatcher)
        ensures
            r.image@ == image@,
            digest_view(r.last_digest) == fetched_view(fetched),
    {
        let last_digest = match fetched {
            Ok(d) => Some(d),
            Err(_) => None,
        };
        ImageWatcher { image: image.to_owned(), last_digest }
    }

    /// Takes note of what a fetch brought and says whether it is news.
    pub fn update(&mut self, fetched: Result<Sha256, ImageWatcherError>) -> (status:
        ImageWatcherStatus)
        ensures
            status == status_after(digest_view(old(self).last_digest), fetched_view(fetched)),
            digest_view(final(self).last_digest) == digest_after(
                digest_view(old(self).last_digest),
                fetched_view(fetched),
            ),
            final(self).image == old(self).image,
    {
        match fetched {
            Err(_) => ImageWatcherStatus::Deleted,
            Ok(new_digest) => {
                if digest_is(&self.last_digest, &new_digest) {
                    ImageWatcherStatus::NotUpdated
                } else {
                    self.last_digest = Some(new_digest);
                    ImageWatcherStatus::Updated
                }
            },
        }
    }

    /// Whether the two watchers watch the same image. The digests they know
    /// play no part.
    pub fn same_as(&self, other: &ImageWatcher) -> (r: bool)
        ensures
            r == (self.image@ == other.image@),
    {
        self.image == other.image
    }
}

/// The digest of the first of the inspected images.
pub fn first_digest(responses: &Vec<DockerInspectResponse>) -> (r: Result<
    Sha256,
    ImageWatcherError,
>)
    requires
        responses@.len() > 0 ==> responses@[0].digest_is_sized(),
    ensures
        match r {
            Ok(d) => responses@.len() > 0 && responses@[0].digest_spec() == Ok::<
                Seq<u8>,
                ImageWatcherErrorView,
            >(d@),
            Err(e) => if responses@.len() > 0 {
                responses@[0].digest_spec() == Err::<Seq<u8>, ImageWatcherErrorView>(e.deep_view())
            } else {
                e.deep_view() == ImageWatcherErrorView::DockerCommandFailed(
                    "Empty inspect response"@,
                )
            },
        },
{
    if responses.len() > 0 {
        responses[0].get_digest()
    } else {
        Err(ImageWatcherError::DockerCommandFailed("Empty inspect response".to_owned()))
    }
}

} // verus!
