//! The certificates of the proxy: where each one lies, which one serves a
//! host, and when one has to be renewed.
//!
//! The managed certificate of a host lies under `.dispenser/certs` as
//! `<host>.crt` with its key `<host>.key`. A service may name files of its
//! own instead. A managed certificate is renewed when less than 30 days of
//! its validity remain.

use crate::file::ProxySettings;
use crate::telemetry::events::div_toward_zero;
use crate::text::{push_str, string_of};
use base64::Engine;
use vstd::prelude::*;
use x509_parser::prelude::FromDer;

verus! {

/// A certificate is renewed when fewer days than this remain.
pub const RENEW_BEFORE_DAYS: i64 = 30;

/// Seconds in a day.
pub const SECONDS_PER_DAY: i64 = 86400;

/// The directory of the managed certificates.
pub open spec fn certs_dir() -> Seq<char> {
    ".dispenser/certs"@
}

/// Where the managed certificate of `host` lies.
pub open spec fn managed_cert(host: Seq<char>) -> Seq<char> {
    certs_dir() + "/"@ + host + ".crt"@
}

/// Where the key of the managed certificate of `host` lies.
pub open spec fn managed_key(host: Seq<char>) -> Seq<char> {
    certs_dir() + "/"@ + host + ".key"@
}

/// Where the challenge token `token` lies.
pub open spec fn challenge_file(token: Seq<char>) -> Seq<char> {
    ".dispenser/challenges"@ + "/"@ + token
}

/// Where the managed certificate of `host` lies.
pub fn managed_cert_path(host: &str) -> (r: String)
    ensures
        r@ == managed_cert(host@),
{
    let mut out: Vec<char> = Vec::new();
    push_str(&mut out, ".dispenser/certs");
    push_str(&mut out, "/");
    push_str(&mut out, host);
    push_str(&mut out, ".crt");
    assert(out@ =~= managed_cert(host@));
    string_of(&out)
}

/// Where the key of the managed certificate of `host` lies.
pub fn managed_key_path(host: &str) -> (r: String)
    ensures
        r@ == managed_key(host@),
{
    let mut out: Vec<char> = Vec::new();
    push_str(&mut out, ".dispenser/certs");
    push_str(&mut out, "/");
    push_str(&mut out, host);
    push_str(&mut out, ".key");
    assert(out@ =~= managed_key(host@));
    string_of(&out)
}

/// Where the challenge token `token` lies.
pub fn challenge_path(token: &str) -> (r: String)
    ensures
        r@ == challenge_file(token@),
{
    let mut out: Vec<char> = Vec::new();
    push_str(&mut out, ".dispenser/challenges");
    push_str(&mut out, "/");
    push_str(&mut out, token);
    assert(out@ =~= challenge_file(token@));
    string_of(&out)
}

/// Where the fallback certificate and its key lie, and whether they have to
/// be made: they have unless both files are there. The fallback certificate
/// serves a client that names no host, or one that has no certificate.
pub fn ensure_default_cert(cert_exists: bool, key_exists: bool) -> (r: (String, String, bool))
    ensures
        r.0@ == ".dispenser/default.crt"@,
        r.1@ == ".dispenser/default.key"@,
        r.2 == !(cert_exists && key_exists),
{
    (
        ".dispenser/default.crt".to_owned(),
        ".dispenser/default.key".to_owned(),
        !(cert_exists && key_exists),
    )
}

/// A certificate with its key, by the files they lie in.
#[derive(Debug, Clone, PartialEq, Eq)]
pub struct CertFiles {
    pub cert: String,
    pub key: String,
    /// Whether the service names the files itself.
    pub manual: bool,
}

pub struct CertFilesView {
    pub cert: Seq<char>,
    pub key: Seq<char>,
    pub manual: bool,
}

impl DeepView for CertFiles {
    type V = CertFilesView;

    open spec fn deep_view(&self) -> CertFilesView {
        CertFilesView { cert: self.cert@, key: self.key@, manual: self.manual }
    }
}

/// The certificates that may serve the host of a proxy block, the preferred
/// one first: the files that the block names, if it names both, then the
/// managed certificate. The first one that loads serves the host.
pub open spec fn certificate_candidates(proxy: crate::file::ProxySettingsView) -> Seq<CertFilesView> {
    let managed = CertFilesView {
        cert: managed_cert(proxy.host),
        key: managed_key(proxy.host),
        manual: false,
    };
    match (proxy.cert_file, proxy.key_file) {
        (Some(cert), Some(key)) => seq![CertFilesView { cert, key, manual: true }, managed],
        _ => seq![managed],
    }
}

/// The certificates that may serve the host of `proxy`, the preferred one
/// first.
pub fn load_candidates(proxy: &ProxySettings) -> (r: Vec<CertFiles>)
    ensures
        r.deep_view() == certificate_candidates(proxy.deep_view()),
{
    let mut out: Vec<CertFiles> = Vec::new();
    match (&proxy.cert_file, &proxy.key_file) {
        (Some(cert), Some(key)) => {
            out.push(CertFiles { cert: cert.clone(), key: key.clone(), manual: true });
        },
        _ => {},
    }
    out.push(
        CertFiles {
            cert: managed_cert_path(proxy.host.as_str()),
            key: managed_key_path(proxy.host.as_str()),
            manual: false,
        },
    );
    assert(out.deep_view() =~= certificate_candidates(proxy.deep_view()));
    out
}

/// The bytes that an optional vector holds.
pub open spec fn bytes_view(v: Option<Vec<u8>>) -> Option<Seq<u8>> {
    match v {
        Some(bytes) => Some(bytes@),
        None => None,
    }
}

/// What the standard base64 alphabet with padding decodes `input` to, or
/// nothing where `input` is not such an encoding.
pub uninterp spec fn base64_decoded(input: Seq<u8>) -> Option<Seq<u8>>;

/// When the certificate that the DER bytes `der` hold ceases to be valid, as
/// Unix seconds, or nothing where the bytes hold no certificate.
pub uninterp spec fn x509_not_after(der: Seq<u8>) -> Option<i64>;

/// Wraps `Engine::decode` of base64 on the engine `STANDARD`: the decoded
/// bytes, or nothing where the engine reports an error.
#[verifier::external_body]
pub(crate) fn decode_base64(input: &Vec<u8>) -> (r: Option<Vec<u8>>)
    ensures
        bytes_view(r) == base64_decoded(input@),
{
    match base64::prelude::BASE64_STANDARD.decode(input) {
        Ok(bytes) => Some(bytes),
        Err(_) => None,
    }
}

/// Wraps `X509Certificate::from_der` of x509-parser, and `timestamp` of
/// the end of the validity that it read: the time after which the parsed
/// certificate is not valid, or nothing where the parser reports an error.
#[verifier::external_body]
fn certificate_not_after(der: &Vec<u8>) -> (r: Option<i64>)
    ensures
        r == x509_not_after(der@),
{
    match x509_parser::certificate::X509Certificate::from_der(der.as_slice()) {
        Ok((_, cert)) => Some(cert.validity().not_after.timestamp()),
        Err(_) => None,
    }
}

/// The line with which a certificate in PEM form begins.
pub open spec fn pem_header() -> Seq<u8> {
    seq![
        0x2du8, 0x2d, 0x2d, 0x2d, 0x2d, 0x42, 0x45, 0x47, 0x49, 0x4e, 0x20, 0x43, 0x45, 0x52, 0x54,
        0x49, 0x46, 0x49, 0x43, 0x41, 0x54, 0x45, 0x2d, 0x2d, 0x2d, 0x2d, 0x2d,
    ]
}

/// Whether `line` begins with five dashes, as the first and the last line of
/// a PEM block do.
pub open spec fn is_boundary(line: Seq<u8>) -> bool {
    line.len() >= 5 && line[0] == 0x2d && line[1] == 0x2d && line[2] == 0x2d && line[3] == 0x2d
        && line[4] == 0x2d
}

/// A line as it counts: without the carriage return before its line feed.
pub open spec fn without_return(raw: Seq<u8>) -> Seq<u8> {
    if raw.len() > 0 && raw.last() == 0x0d {
        raw.drop_last()
    } else {
        raw
    }
}

/// The line itself, or nothing for a boundary line.
pub open spec fn payload(line: Seq<u8>) -> Seq<u8> {
    if is_boundary(line) {
        Seq::<u8>::empty()
    } else {
        line
    }
}

/// The position of the first line feed at or after `from`, or the length of
/// `s` if there is none.
pub open spec fn line_end(s: Seq<u8>, from: int) -> int
    decreases s.len() - from,
{
    if from >= s.len() {
        s.len() as int
    } else if s[from] == 0x0a {
        from
    } else {
        line_end(s, from + 1)
    }
}

/// A line ends at or after the position at which it begins, and within the
/// text.
pub proof fn lemma_line_end_bounds(s: Seq<u8>, from: int)
    requires
        0 <= from,
    ensures
        from <= line_end(s, from) || s.len() <= line_end(s, from),
        line_end(s, from) <= s.len(),
    decreases s.len() - from,
{
    if from < s.len() && s[from] != 0x0a {
        lemma_line_end_bounds(s, from + 1);
    }
}

/// The lines of `s` from position `from` on, one after the other, without
/// their line ends and without the boundary lines. A line ends with a line
/// feed, with or without a carriage return before it; what follows the last
/// line feed is a line as it stands.
pub open spec fn pem_body(s: Seq<u8>, from: int) -> Seq<u8>
    decreases s.len() - from,
{
    if from >= s.len() || from < 0 {
        Seq::<u8>::empty()
    } else {
        let end = line_end(s, from);
        proof {
            lemma_line_end_bounds(s, from);
        }
        if end < s.len() {
            payload(without_return(s.subrange(from, end))) + pem_body(s, end + 1)
        } else {
            payload(s.subrange(from, s.len() as int))
        }
    }
}

/// The DER bytes of a certificate file: of a file in PEM form, what its
/// lines decode to, which is nothing where they are no base64; every other
/// file is taken to be DER as it stands.
pub open spec fn der_of(content: Seq<u8>) -> Seq<u8> {
    if pem_header().is_prefix_of(content) {
        match base64_decoded(pem_body(content, 0)) {
            Some(der) => der,
            None => Seq::<u8>::empty(),
        }
    } else {
        content
    }
}

/// The whole days that remain at `now` until `not_after`, both in Unix
/// seconds; negative when the time has passed.
pub open spec fn remaining_days(not_after: i64, now: i64) -> int {
    div_toward_zero(not_after - now, SECONDS_PER_DAY as int)
}

/// Whether a certificate that is valid until `not_after` has to be renewed at
/// `now`: it has if fewer than 30 whole days remain. A certificate that
/// could not be read has to be renewed.
pub open spec fn expires_soon(not_after: Option<i64>, now: i64) -> bool {
    match not_after {
        Some(t) => remaining_days(t, now) < RENEW_BEFORE_DAYS,
        None => true,
    }
}

/// Whether the certificate with this content has to be renewed at `now`.
/// `None` stands for a file that is not there or cannot be read.
pub open spec fn renewal_due(content: Option<Seq<u8>>, now: i64) -> bool {
    match content {
        Some(c) => expires_soon(x509_not_after(der_of(c)), now),
        None => true,
    }
}

/// Whether a certificate that is valid until `not_after` has to be renewed at
/// `now`.
pub fn is_expiring(not_after: Option<i64>, now: i64) -> (r: bool)
    ensures
        r == expires_soon(not_after, now),
{
    match not_after {
        Some(t) => {
            let left: i128 = (t as i128) - (now as i128);
            let days: i128 = left / 86400;
            days < 30
        },
        None => true,
    }
}

fn begins_with_header(content: &Vec<u8>) -> (r: bool)
    ensures
        r == pem_header().is_prefix_of(content@),
{
    let header: [u8; 27] = [
        0x2d, 0x2d, 0x2d, 0x2d, 0x2d, 0x42, 0x45, 0x47, 0x49, 0x4e, 0x20, 0x43, 0x45, 0x52, 0x54,
        0x49, 0x46, 0x49, 0x43, 0x41, 0x54, 0x45, 0x2d, 0x2d, 0x2d, 0x2d, 0x2d,
    ];
    assert(header@ =~= pem_header());
    if content.len() < 27 {
        return false;
    }
    let mut i: usize = 0;
    while i < 27
        invariant
            i <= 27,
            content.len() >= 27,
            header@ == pem_header(),
            forall|j: int| 0 <= j < i ==> content@[j] == header@[j],
        decreases 27 - i,
    {
        if content[i] != header[i] {
            assert(content@.subrange(0, 27)[i as int] != pem_header()[i as int]);
            return false;
        }
        i += 1;
    }
    assert(content@.subrange(0, 27) =~= pem_header());
    true
}

fn boundary(content: &Vec<u8>, from: usize, to: usize) -> (r: bool)
    requires
        from <= to <= content.len(),
    ensures
        r == is_boundary(content@.subrange(from as int, to as int)),
{
    to - from >= 5 && content[from] == 0x2d && content[from + 1] == 0x2d && content[from + 2]
        == 0x2d && content[from + 3] == 0x2d && content[from + 4] == 0x2d
}

/// The lines of a file in PEM form without their line ends and without the
/// boundary lines.
pub fn pem_payload(content: &Vec<u8>) -> (r: Vec<u8>)
    ensures
        r@ == pem_body(content@, 0),
{
    let n = content.len();
    let mut out: Vec<u8> = Vec::new();
    let mut from: usize = 0;
    while from < n
        invariant
            from <= n,
            n == content.len(),
            pem_body(content@, 0) == out@ + pem_body(content@, from as int),
        decreases n - from,
    {
        let mut end: usize = from;
        while end < n && content[end] != 0x0a
            invariant
                from <= end <= n,
                n == content.len(),
                line_end(content@, from as int) == line_end(content@, end as int),
            decreases n - end,
        {
            end += 1;
        }
        assert(line_end(content@, from as int) == end);
        let stop: usize = if end < n && end > from && content[end - 1] == 0x0d {
            end - 1
        } else {
            end
        };
        proof {
            let raw = content@.subrange(from as int, end as int);
            if end < n {
                assert(without_return(raw) =~= content@.subrange(from as int, stop as int));
            } else {
                assert(raw =~= content@.subrange(from as int, stop as int));
            }
        }
        let ghost before = out@;
        let ghost line = content@.subrange(from as int, stop as int);
        if !boundary(content, from, stop) {
            let mut i: usize = from;
            while i < stop
                invariant
                    from <= i <= stop <= n,
                    n == content.len(),
                    out@ =~= before + content@.subrange(from as int, i as int),
                decreases stop - i,
            {
                out.push(content[i]);
                i += 1;
            }
        }
        assert(out@ =~= before + payload(line));
        if end < n {
            assert(pem_body(content@, from as int) == payload(line) + pem_body(
                content@,
                end + 1,
            ));
            assert(out@ + pem_body(content@, end + 1) =~= before + (payload(line) + pem_body(
                content@,
                end + 1,
            )));
            from = end + 1;
        } else {
            assert(pem_body(content@, from as int) == payload(line));
            assert(pem_body(content@, n as int) =~= Seq::<u8>::empty());
            assert(out@ + pem_body(content@, n as int) =~= before + payload(line));
            from = n;
        }
    }
    assert(pem_body(content@, n as int) =~= Seq::<u8>::empty());
    assert(out@ + Seq::<u8>::empty() =~= out@);
    out
}

/// Whether the certificate with this content has to be renewed at `now`.
/// `None` stands for a file that is not there or cannot be read.
pub fn needs_renewal(content: Option<&Vec<u8>>, now: i64) -> (r: bool)
    ensures
        r == renewal_due(
            match content {
                Some(bytes) => Some(bytes@),
                None => None,
            },
            now,
        ),
{
    match content {
        Some(bytes) => {
            let not_after = if begins_with_header(bytes) {
                let body = pem_payload(bytes);
                match decode_base64(&body) {
                    Some(der) => certificate_not_after(&der),
                    None => {
                        let empty: Vec<u8> = Vec::new();
                        assert(empty@ =~= Seq::<u8>::empty());
                        certificate_not_after(&empty)
                    },
                }
            } else {
                certificate_not_after(bytes)
            };
            is_expiring(not_after, now)
        },
        None => true,
    }
}

} // verus!
