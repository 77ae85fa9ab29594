use proxy_vet::filter::AnonymityFlags;
use proxy_vet::evaluate::{check_identity, evaluate_probed, format_record, parse_candidate,
    DeadReason, Evaluation, IdentityCheck, ProxyCandidate, RejectReason};
use proxy_vet::geo::{build_geo_record, AsnRaw, CountryRaw};
use proxy_vet::http::{IdentityDocument, ProbeOutcome};
use proxy_vet::ip::{parse_ip_text, parse_cidr_line, IpAddress, Network};

fn candidate() -> ProxyCandidate {
    parse_candidate("1.2.3.4,8080,US,Acme").unwrap()
}

fn identity(ip: &str) -> ProbeOutcome {
    ProbeOutcome::Identity(IdentityDocument { client_ip: Some(String::from(ip)) })
}

fn us_geo() -> proxy_vet::geo::GeoRecord {
    build_geo_record(
        Some(CountryRaw {
            iso_code: Some(String::from("US")),
            name_preferred: None,
            name_fallback: Some(String::from("United States")),
        }),
        None,
        None,
    )
}

#[test]
fn parses_well_formed_candidate() {
    let c = candidate();
    assert_eq!(c.ip, "1.2.3.4");
    assert_eq!(c.port, 8080);
    assert_eq!(c.hint_country, "US");
    assert_eq!(c.hint_org, "Acme");
}

#[test]
fn rejects_short_candidate_line() {
    assert!(matches!(
        parse_candidate("1.2.3.4,8080,US"),
        Err(RejectReason::MalformedLine)
    ));
}

#[test]
fn rejects_bad_port_before_any_probe() {
    assert!(matches!(
        parse_candidate("1.2.3.4,notaport,US,Acme"),
        Err(RejectReason::InvalidPort)
    ));
}

#[test]
fn identity_check_compares_to_baseline() {
    let same = IdentityDocument { client_ip: Some(String::from("9.9.9.9")) };
    let distinct = IdentityDocument { client_ip: Some(String::from("1.2.3.4")) };
    let missing = IdentityDocument { client_ip: None };
    let baseline = String::from("9.9.9.9");
    assert_eq!(check_identity(&same, &baseline), IdentityCheck::Same);
    assert_eq!(check_identity(&distinct, &baseline), IdentityCheck::Distinct);
    assert_eq!(check_identity(&missing, &baseline), IdentityCheck::Missing);
}

#[test]
fn working_proxy_with_clean_address_is_accepted() {
    let r = evaluate_probed(
        &candidate(),
        &String::from("9.9.9.9"),
        &identity("1.2.3.4"),
        &None,
        &Vec::new(),
        &Vec::new(),
        us_geo(),
    );
    match r {
        Evaluation::Accepted(rec) => {
            assert_eq!(format_record(&rec), "1.2.3.4,8080,US,United States,,,,");
        },
        other => panic!("expected acceptance, got {:?}", other),
    }
}

#[test]
fn proxy_answering_with_the_baseline_address_is_dead() {
    let r = evaluate_probed(
        &candidate(),
        &String::from("9.9.9.9"),
        &identity("9.9.9.9"),
        &None,
        &Vec::new(),
        &Vec::new(),
        us_geo(),
    );
    assert!(matches!(r, Evaluation::Dead(DeadReason::SameIdentity)));
}

#[test]
fn abuse_listed_address_is_rejected_before_enrichment() {
    let abuse: Vec<IpAddress> = vec![parse_ip_text("1.2.3.4").unwrap()];
    let r = evaluate_probed(
        &candidate(),
        &String::from("9.9.9.9"),
        &identity("1.2.3.4"),
        &None,
        &abuse,
        &Vec::new(),
        us_geo(),
    );
    assert!(matches!(r, Evaluation::Rejected(RejectReason::AbuseListed)));
}

#[test]
fn cidr_blocked_address_is_rejected() {
    let cidrs: Vec<Network> = vec![parse_cidr_line("1.0.0.0/8").unwrap()];
    let r = evaluate_probed(
        &candidate(),
        &String::from("9.9.9.9"),
        &identity("1.2.3.4"),
        &None,
        &Vec::new(),
        &cidrs,
        us_geo(),
    );
    assert!(matches!(r, Evaluation::Rejected(RejectReason::CidrBlocked)));
}

#[test]
fn timeout_is_dead_distinctly_from_connection_failure() {
    let r = evaluate_probed(
        &candidate(),
        &String::from("9.9.9.9"),
        &ProbeOutcome::Timeout,
        &None,
        &Vec::new(),
        &Vec::new(),
        us_geo(),
    );
    assert!(matches!(r, Evaluation::Dead(DeadReason::Timeout)));
    let r2 = evaluate_probed(
        &candidate(),
        &String::from("9.9.9.9"),
        &ProbeOutcome::ConnectFailed,
        &None,
        &Vec::new(),
        &Vec::new(),
        us_geo(),
    );
    assert!(matches!(r2, Evaluation::Dead(DeadReason::ConnectFailed)));
}

#[test]
fn missing_client_address_is_dead() {
    let outcome = ProbeOutcome::Identity(IdentityDocument { client_ip: None });
    let r = evaluate_probed(
        &candidate(),
        &String::from("9.9.9.9"),
        &outcome,
        &None,
        &Vec::new(),
        &Vec::new(),
        us_geo(),
    );
    assert!(matches!(r, Evaluation::Dead(DeadReason::MissingClientIp)));
}

#[test]
fn unparsable_declared_address_is_rejected() {
    let c = parse_candidate("not-an-ip,8080,US,Acme").unwrap();
    let r = evaluate_probed(
        &c,
        &String::from("9.9.9.9"),
        &identity("1.2.3.4"),
        &None,
        &Vec::new(),
        &Vec::new(),
        us_geo(),
    );
    assert!(matches!(r, Evaluation::Rejected(RejectReason::InvalidIpFormat)));
}

#[test]
fn anonymity_rejection_carries_its_reason() {
    let r = evaluate_probed(
        &candidate(),
        &String::from("9.9.9.9"),
        &identity("1.2.3.4"),
        &Some(AnonymityFlags { vpn: true, public_proxy: false, tor_exit: true }),
        &Vec::new(),
        &Vec::new(),
        us_geo(),
    );
    match r {
        Evaluation::Rejected(RejectReason::Anonymous(reason)) => {
            assert_eq!(reason, "VPN+TorExit");
        },
        other => panic!("expected an anonymity rejection, got {:?}", other),
    }
}

#[test]
fn record_line_renders_all_eight_fields() {
    let geo = build_geo_record(
        Some(CountryRaw {
            iso_code: Some(String::from("US")),
            name_preferred: Some(String::from("country preferred")),
            name_fallback: Some(String::from("United States")),
        }),
        Some(proxy_vet::geo::CityRaw {
            name_preferred: None,
            name_fallback: Some(String::from("Dallas")),
        }),
        Some(AsnRaw { number: Some(13335), organization: Some(String::from("CloudCo")) }),
    );
    let c = candidate();
    let r = evaluate_probed(
        &c,
        &String::from("9.9.9.9"),
        &identity("1.2.3.4"),
        &None,
        &Vec::new(),
        &Vec::new(),
        geo,
    );
    match r {
        Evaluation::Accepted(rec) => {
            assert_eq!(
                format_record(&rec),
                "1.2.3.4,8080,US,country preferred,Dallas,Dallas,13335,CloudCo"
            );
        },
        other => panic!("expected acceptance, got {:?}", other),
    }
}
