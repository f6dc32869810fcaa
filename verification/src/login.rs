//! Credentials for a registry, from the client configuration of the runtime.
//!
//! The configuration names a helper program for a registry, a helper for all
//! registries, or the credentials themselves, encoded. A helper answers with
//! a user name and a secret, which are made safe for use in an address.

use crate::certs::{base64_decoded, decode_base64};
use crate::docker::{
    auth_entry, find_auth_entry, find_helper, helper_for, CredentialSource, CredentialSourceView,
    DockerConfig,
};
use crate::text::{chars_of, find_char, slice_of, string_of};
use vstd::prelude::*;
use vstd::string::*;
use vstd::utf8::{decode_utf8, encode_utf8, valid_utf8};

verus! {

/// Why encoded credentials could not be read.
#[derive(Debug, Clone, Copy, PartialEq, Eq, Structural)]
pub enum AuthError {
    /// They are no base64.
    NotBase64,
    /// What they decode to is no UTF-8.
    NotUtf8,
    /// What they decode to is not a user name, a colon and a secret.
    InvalidFormat,
    /// The configuration holds no credentials for the registry.
    NoCredentials,
}

/// The message of an error.
pub open spec fn auth_error_text(e: AuthError) -> Seq<char> {
    match e {
        AuthError::NotBase64 => "Invalid base64 in auth"@,
        AuthError::NotUtf8 => "Invalid UTF-8 in auth"@,
        AuthError::InvalidFormat => "Invalid auth format"@,
        AuthError::NoCredentials => "No credentials found"@,
    }
}

impl AuthError {
    /// The message of the error.
    pub fn message(&self) -> (r: &'static str)
        ensures
            r@ == auth_error_text(*self),
    {
        match self {
            AuthError::NotBase64 => "Invalid base64 in auth",
            AuthError::NotUtf8 => "Invalid UTF-8 in auth",
            AuthError::InvalidFormat => "Invalid auth format",
            AuthError::NoCredentials => "No credentials found",
        }
    }
}

/// Wraps `String::from_utf8` of std: the text that the bytes are the UTF-8
/// encoding of, or nothing where they are no valid UTF-8.
#[verifier::external_body]
fn utf8_text(bytes: Vec<u8>) -> (r: Option<String>)
    ensures
        match r {
            Some(text) => valid_utf8(bytes@) && text@ == decode_utf8(bytes@),
            None => !valid_utf8(bytes@),
        },
{
    match String::from_utf8(bytes) {
        Ok(text) => Some(text),
        Err(_) => None,
    }
}

/// The user name and the secret of a text `user:secret`. A text without a
/// colon, or with more than one, holds none.
pub open spec fn user_and_secret(text: Seq<char>) -> Option<(Seq<char>, Seq<char>)> {
    match text.index_of_first(':') {
        Some(colon) => {
            let secret = text.subrange(colon + 1, text.len() as int);
            if secret.contains(':') {
                None
            } else {
                Some((text.subrange(0, colon), secret))
            }
        },
        None => None,
    }
}

/// What encoded credentials hold: they are the base64 encoding of the UTF-8
/// text `user:secret`.
pub open spec fn decoded_auth(auth: Seq<char>) -> Result<(Seq<char>, Seq<char>), AuthError> {
    match base64_decoded(encode_utf8(auth)) {
        None => Err(AuthError::NotBase64),
        Some(bytes) => if !valid_utf8(bytes) {
            Err(AuthError::NotUtf8)
        } else {
            match user_and_secret(decode_utf8(bytes)) {
                Some(pair) => Ok(pair),
                None => Err(AuthError::InvalidFormat),
            }
        },
    }
}

/// The user name and the secret of the text `user:secret`.
pub fn split_user_and_secret(text: &str) -> (r: Option<(String, String)>)
    ensures
        match r {
            Some((user, secret)) => user_and_secret(text@) == Some((user@, secret@)),
            None => user_and_secret(text@) is None,
        },
{
    let v = chars_of(text);
    match find_char(&v, ':') {
        Some(colon) => {
            proof {
                v@.index_of_first_ensures(':');
            }
            let secret = slice_of(&v, colon + 1, v.len());
            let more = find_char(&secret, ':');
            proof {
                secret@.index_of_first_ensures(':');
            }
            if more.is_some() {
                None
            } else {
                let user = slice_of(&v, 0, colon);
                Some((string_of(&user), string_of(&secret)))
            }
        },
        None => {
            proof {
                v@.index_of_first_ensures(':');
            }
            None
        },
    }
}

/// Reads encoded credentials: the user name and the secret.
pub fn decode_auth(auth: &str) -> (r: Result<(String, String), AuthError>)
    ensures
        match r {
            Ok((user, secret)) => decoded_auth(auth@) == Ok::<
                (Seq<char>, Seq<char>),
                AuthError,
            >((user@, secret@)),
            Err(e) => decoded_auth(auth@) == Err::<(Seq<char>, Seq<char>), AuthError>(e),
        },
{
    let input = auth.as_bytes_vec();
    let bytes = match decode_base64(&input) {
        Some(bytes) => bytes,
        None => {
            return Err(AuthError::NotBase64);
        },
    };
    let text = match utf8_text(bytes) {
        Some(text) => text,
        None => {
            return Err(AuthError::NotUtf8);
        },
    };
    match split_user_and_secret(text.as_str()) {
        Some(pair) => Ok(pair),
        None => Err(AuthError::InvalidFormat),
    }
}

/// Whether a byte stands for itself in an address: a letter, a digit, or
/// one of `-`, `.`, `_` and `~`.
pub open spec fn is_unreserved(b: u8) -> bool {
    (0x30 <= b <= 0x39) || (0x41 <= b <= 0x5a) || (0x61 <= b <= 0x7a) || b == 0x2d || b == 0x2e
        || b == 0x5f || b == 0x7e
}

/// The digit, `0` to `9` and `A` to `F`, that writes a value below 16.
pub open spec fn hex_digit(d: int) -> u8 {
    if d < 10 {
        (0x30 + d) as u8
    } else {
        (0x41 + d - 10) as u8
    }
}

/// The bytes with every byte that does not stand for itself written as a
/// percent sign and its two hexadecimal digits.
pub open spec fn percent_encoded(bytes: Seq<u8>) -> Seq<u8>
    decreases bytes.len(),
{
    if bytes.len() == 0 {
        Seq::<u8>::empty()
    } else if is_unreserved(bytes[0]) {
        seq![bytes[0]] + percent_encoded(bytes.drop_first())
    } else {
        seq![0x25u8, hex_digit(bytes[0] as int / 16), hex_digit(bytes[0] as int % 16)]
            + percent_encoded(
            bytes.drop_first(),
        )
    }
}

/// Wraps `encode` of urlencoding: the text with every byte of its UTF-8
/// encoding percent-encoded but for letters, digits, `-`, `.`, `_` and `~`.
#[verifier::external_body]
fn url_encode(text: &str) -> (r: String)
    ensures
        encode_utf8(r@) == percent_encoded(encode_utf8(text@)),
{
    urlencoding::encode(text).into_owned()
}

/// What a helper answered, made safe for use in an address: the user name
/// and the secret, percent-encoded.
pub fn encode_credentials(username: &str, secret: &str) -> (r: (String, String))
    ensures
        encode_utf8(r.0@) == percent_encoded(encode_utf8(username@)),
        encode_utf8(r.1@) == percent_encoded(encode_utf8(secret@)),
{
    (url_encode(username), url_encode(secret))
}

/// The name of the helper program with the suffix `helper`.
pub fn helper_command(helper: &str) -> (r: String)
    ensures
        r@ == "docker-credential-"@ + helper@,
{
    let mut out: Vec<char> = Vec::new();
    crate::text::push_str(&mut out, "docker-credential-");
    crate::text::push_str(&mut out, helper);
    string_of(&out)
}

/// Where the credentials of `registry` come from, the first that applies:
/// 1. the helper configured for the registry;
/// 2. the helper for all registries;
/// 3. the encoded credentials under the registry's name.
/// Nothing where the configuration knows none of these.
pub open spec fn credential_source(config: DockerConfig, registry: Seq<char>) -> Option<
    CredentialSourceView,
> {
    match helper_for(config.cred_helpers@, registry) {
        Some(helper) => Some(CredentialSourceView::Helper(helper)),
        None => match config.creds_store {
            Some(store) => Some(CredentialSourceView::Helper(store@)),
            None => match auth_entry(config.auths@, registry) {
                Some(Some(auth)) => Some(CredentialSourceView::Static(auth)),
                _ => None,
            },
        },
    }
}

/// Where the credentials of `registry` come from, or that there are none.
pub fn get_docker_credentials_internal(config: &DockerConfig, registry: &str) -> (r: Result<
    CredentialSource,
    AuthError,
>)
    ensures
        match r {
            Ok(source) => credential_source(*config, registry@) == Some(source.deep_view()),
            Err(e) => e == AuthError::NoCredentials && credential_source(*config, registry@)
                is None,
        },
{
    let name = registry.to_owned();
    match find_helper(&config.cred_helpers, &name) {
        Some(helper) => {
            return Ok(CredentialSource::Helper(helper));
        },
        None => {},
    }
    match &config.creds_store {
        Some(store) => {
            return Ok(CredentialSource::Helper(store.clone()));
        },
        None => {},
    }
    match find_auth_entry(&config.auths, &name) {
        Some(Some(auth)) => Ok(CredentialSource::Static(auth)),
        _ => Err(AuthError::NoCredentials),
    }
}

} // verus!
