use dispenser::acme::{
    acme_begin, acme_next, contact_of, hosts_to_maintain, sweep_changed,
    AcmeError, AcmeNext, AcmeOutcome, AcmePhase, AcmeStart, POLL_INITIAL_DELAY_SECS,
    POLL_TIMEOUT_SECS, SWEEP_INTERVAL_SECS,
};
use dispenser::certs::{
    challenge_path, is_expiring, load_candidates, managed_cert_path, managed_key_path,
    needs_renewal, pem_payload, CertFiles,
};
use dispenser::file::ProxySettings;

/// 2030-01-01T00:00:00Z.
const END: i64 = 1_893_456_000;
const DAY: i64 = 86_400;

fn certificate() -> rcgen::Certificate {
    let mut params = rcgen::CertificateParams::new(vec!["example.com".to_string()]).unwrap();
    params.not_before = rcgen::date_time_ymd(2020, 1, 1);
    params.not_after = rcgen::date_time_ymd(2030, 1, 1);
    let key = rcgen::KeyPair::generate().unwrap();
    params.self_signed(&key).unwrap()
}

#[test]
fn paths_of_managed_files() {
    assert_eq!(managed_cert_path("example.com"), ".dispenser/certs/example.com.crt");
    assert_eq!(managed_key_path("example.com"), ".dispenser/certs/example.com.key");
    assert_eq!(challenge_path("tok"), ".dispenser/challenges/tok");
}

#[test]
fn thirty_days_is_the_limit() {
    assert!(!is_expiring(Some(END), END - 31 * DAY));
    assert!(!is_expiring(Some(END), END - 30 * DAY));
    assert!(is_expiring(Some(END), END - 30 * DAY + 1));
    assert!(is_expiring(Some(END), END - DAY));
    assert!(is_expiring(Some(END), END));
    assert!(is_expiring(Some(END), END + 400 * DAY));
    assert!(is_expiring(None, 0));
    assert!(!is_expiring(Some(i64::MAX), i64::MIN));
    assert!(is_expiring(Some(i64::MIN), i64::MAX));
}

#[test]
fn renewal_of_a_pem_certificate() {
    let pem = certificate().pem().into_bytes();
    assert!(!needs_renewal(Some(&pem), END - 31 * DAY));
    assert!(!needs_renewal(Some(&pem), END - 30 * DAY));
    assert!(needs_renewal(Some(&pem), END - 29 * DAY));
    assert!(needs_renewal(Some(&pem), END + DAY));
}

#[test]
fn renewal_of_a_pem_certificate_with_carriage_returns() {
    let text = certificate().pem().replace("\r\n", "\n").replace('\n', "\r\n");
    let pem = text.into_bytes();
    assert!(!needs_renewal(Some(&pem), END - 31 * DAY));
    assert!(needs_renewal(Some(&pem), END - 29 * DAY));
}

#[test]
fn renewal_of_a_der_certificate() {
    let der = certificate().der().to_vec();
    assert!(!needs_renewal(Some(&der), END - 31 * DAY));
    assert!(needs_renewal(Some(&der), END - 29 * DAY));
}

#[test]
fn a_missing_or_unreadable_certificate_is_renewed() {
    assert!(needs_renewal(None, 0));
    assert!(needs_renewal(Some(&Vec::new()), 0));
    assert!(needs_renewal(Some(&b"not a certificate".to_vec()), 0));
    let broken = b"-----BEGIN CERTIFICATE-----\n!!!!\n-----END CERTIFICATE-----\n".to_vec();
    assert!(needs_renewal(Some(&broken), 0));
    let mut cut = certificate().der().to_vec();
    cut.truncate(40);
    assert!(needs_renewal(Some(&cut), 0));
}

#[test]
fn pem_payload_joins_the_lines_between_the_boundaries() {
    let pem = b"-----BEGIN CERTIFICATE-----\nQUJD\r\nREVG\n-----END CERTIFICATE-----\n".to_vec();
    assert_eq!(pem_payload(&pem), b"QUJDREVG".to_vec());
    assert_eq!(pem_payload(&b"a\n\nb".to_vec()), b"ab".to_vec());
    assert_eq!(pem_payload(&b"a\r".to_vec()), b"a\r".to_vec());
    assert_eq!(pem_payload(&b"----x\n-----y\nz".to_vec()), b"----xz".to_vec());
    assert_eq!(pem_payload(&Vec::new()), Vec::<u8>::new());
    assert_eq!(pem_payload(&b"\n\n".to_vec()), Vec::<u8>::new());
}

fn block(host: &str, cert: Option<&str>, key: Option<&str>) -> ProxySettings {
    ProxySettings {
        host: host.to_string(),
        path: None,
        service_port: 80,
        cert_file: cert.map(|s| s.to_string()),
        key_file: key.map(|s| s.to_string()),
    }
}

#[test]
fn operator_files_come_before_the_managed_certificate() {
    let managed = CertFiles {
        cert: ".dispenser/certs/a.com.crt".to_string(),
        key: ".dispenser/certs/a.com.key".to_string(),
        manual: false,
    };
    assert_eq!(
        load_candidates(&block("a.com", Some("/etc/a.crt"), Some("/etc/a.key"))),
        vec![
            CertFiles { cert: "/etc/a.crt".to_string(), key: "/etc/a.key".to_string(), manual: true },
            managed.clone(),
        ]
    );
    assert_eq!(load_candidates(&block("a.com", None, None)), vec![managed.clone()]);
    assert_eq!(load_candidates(&block("a.com", Some("/etc/a.crt"), None)), vec![managed]);
}

#[test]
fn a_sweep_looks_at_the_hosts_without_files_of_their_own() {
    let configs = vec![
        block("a.com", None, None),
        block("b.com", Some("c"), Some("k")),
        block("c.com", Some("c"), None),
        block("d.com", None, Some("k")),
        block("e.com", None, None),
    ];
    assert_eq!(hosts_to_maintain(&configs), vec!["a.com".to_string(), "e.com".to_string()]);
}

#[test]
fn a_sweep_notifies_once_if_anything_changed() {
    assert!(!sweep_changed(&vec![]));
    assert!(!sweep_changed(&vec![Ok(false), Err(AcmeError::MissingEmail)]));
    assert!(sweep_changed(&vec![Ok(false), Err(AcmeError::OrderFailed), Ok(true), Ok(true)]));
}

#[test]
fn an_attempt_begins_only_where_needed_and_possible() {
    assert_eq!(acme_begin(false, true), AcmeStart::NotNeeded);
    assert_eq!(acme_begin(false, false), AcmeStart::NotNeeded);
    assert_eq!(acme_begin(true, false), AcmeStart::Error(AcmeError::MissingEmail));
    assert_eq!(acme_begin(true, true), AcmeStart::Go(AcmePhase::Account));
}

#[test]
fn the_order_flow_with_two_authorizations() {
    let mut phase = AcmePhase::Account;
    let mut seen = vec![phase];
    let mut authorizations = 2;
    loop {
        let outcome = match phase {
            AcmePhase::NextAuthorization if authorizations == 0 => {
                AcmeOutcome::NoMoreAuthorizations
            }
            AcmePhase::NextAuthorization => {
                authorizations -= 1;
                AcmeOutcome::Done
            }
            AcmePhase::ClearChallenges => AcmeOutcome::Failed,
            _ => AcmeOutcome::Done,
        };
        match acme_next(phase, outcome) {
            AcmeNext::Go(next) => {
                phase = next;
                seen.push(next);
            }
            AcmeNext::Renewed => break,
            AcmeNext::Error(e) => panic!("failed: {:?}", e),
        }
    }
    assert_eq!(
        seen,
        vec![
            AcmePhase::Account,
            AcmePhase::Order,
            AcmePhase::NextAuthorization,
            AcmePhase::StoreChallenge,
            AcmePhase::MarkReady,
            AcmePhase::NextAuthorization,
            AcmePhase::StoreChallenge,
            AcmePhase::MarkReady,
            AcmePhase::NextAuthorization,
            AcmePhase::PollOrder,
            AcmePhase::Finalize,
            AcmePhase::PollCertificate,
            AcmePhase::StoreCertificate,
            AcmePhase::ClearChallenges,
        ]
    );
}

#[test]
fn failures_of_the_order_flow() {
    assert_eq!(
        acme_next(AcmePhase::NextAuthorization, AcmeOutcome::NoHttpChallenge),
        AcmeNext::Error(AcmeError::NoHttpChallenge)
    );
    assert_eq!(
        acme_next(AcmePhase::PollOrder, AcmeOutcome::OrderNotReady),
        AcmeNext::Error(AcmeError::OrderFailed)
    );
    for phase in [
        AcmePhase::Account,
        AcmePhase::Order,
        AcmePhase::NextAuthorization,
        AcmePhase::StoreChallenge,
        AcmePhase::MarkReady,
        AcmePhase::PollOrder,
        AcmePhase::Finalize,
        AcmePhase::PollCertificate,
        AcmePhase::StoreCertificate,
    ] {
        assert_eq!(
            acme_next(phase, AcmeOutcome::Failed),
            AcmeNext::Error(AcmeError::Failed(phase))
        );
    }
    assert_eq!(
        acme_next(AcmePhase::Account, AcmeOutcome::NoMoreAuthorizations),
        AcmeNext::Error(AcmeError::Failed(AcmePhase::Account))
    );
}

#[test]
fn acme_messages_and_settings() {
    assert_eq!(
        AcmeError::MissingEmail.message(),
        "No certbot settings (email) found in dispenser.toml"
    );
    assert_eq!(AcmeError::NoHttpChallenge.message(), "No HTTP-01 challenge found");
    assert_eq!(AcmeError::OrderFailed.message(), "ACME order failed");
    assert_eq!(AcmeError::Failed(AcmePhase::Order).message(), "ACME request failed");
    assert_eq!(contact_of("ops@example.com"), "mailto:ops@example.com");
    assert_eq!(SWEEP_INTERVAL_SECS, 3600);
    assert_eq!(POLL_INITIAL_DELAY_SECS, 2);
    assert_eq!(POLL_TIMEOUT_SECS, 30);
}

#[test]
fn the_fallback_certificate_is_made_unless_both_files_are_there() {
    use_default_cert();
}

fn use_default_cert() {
    let both = dispenser::certs::ensure_default_cert(true, true);
    assert_eq!(
        both,
        (".dispenser/default.crt".to_string(), ".dispenser/default.key".to_string(), false)
    );
    assert!(dispenser::certs::ensure_default_cert(true, false).2);
    assert!(dispenser::certs::ensure_default_cert(false, true).2);
    assert!(dispenser::certs::ensure_default_cert(false, false).2);
}
