use proxy_vet::filter::{anonymity_verdict, decide, AnonymityFlags, FilterDecision};
use proxy_vet::ip::{parse_ip_text, parse_cidr_line, IpAddress};

fn flags(vpn: bool, public_proxy: bool, tor_exit: bool) -> AnonymityFlags {
    AnonymityFlags { vpn, public_proxy, tor_exit }
}

#[test]
fn quiet_flags_are_not_anonymous() {
    let (anon, reason) = anonymity_verdict(&flags(false, false, false));
    assert!(!anon);
    assert_eq!(reason, "");
}

#[test]
fn single_flag_reasons() {
    assert_eq!(anonymity_verdict(&flags(true, false, false)).1, "VPN");
    assert_eq!(anonymity_verdict(&flags(false, true, false)).1, "PublicProxy");
    assert_eq!(anonymity_verdict(&flags(false, false, true)).1, "TorExit");
}

#[test]
fn joined_flag_reasons() {
    assert_eq!(anonymity_verdict(&flags(true, false, true)).1, "VPN+TorExit");
    assert_eq!(
        anonymity_verdict(&flags(true, true, true)).1,
        "VPN+PublicProxy+TorExit"
    );
    assert!(anonymity_verdict(&flags(true, true, true)).0);
}

#[test]
fn empty_filters_accept_every_address() {
    let ip = parse_ip_text("1.2.3.4").unwrap();
    let d = decide(&ip, &None, &Vec::new(), &Vec::new());
    assert!(matches!(d, FilterDecision::Accept));
}

#[test]
fn anonymity_fires_before_the_abuse_list() {
    let ip = parse_ip_text("1.2.3.4").unwrap();
    let abuse = vec![ip];
    let d = decide(&ip, &Some(flags(true, false, false)), &abuse, &Vec::new());
    match d {
        FilterDecision::RejectAnonymous(reason) => assert_eq!(reason, "VPN"),
        other => panic!("expected an anonymity rejection, got {:?}", other),
    }
}

#[test]
fn abuse_list_rejects_members_only() {
    let ip = parse_ip_text("1.2.3.4").unwrap();
    let other: IpAddress = parse_ip_text("5.6.7.8").unwrap();
    let abuse = vec![ip];
    assert!(matches!(
        decide(&ip, &None, &abuse, &Vec::new()),
        FilterDecision::RejectAbuse
    ));
    assert!(matches!(
        decide(&other, &None, &abuse, &Vec::new()),
        FilterDecision::Accept
    ));
}

#[test]
fn cidr_blocklist_rejects_contained_addresses() {
    let ip = parse_ip_text("10.1.2.3").unwrap();
    let cidrs = vec![parse_cidr_line("10.0.0.0/8").unwrap()];
    assert!(matches!(
        decide(&ip, &None, &Vec::new(), &cidrs),
        FilterDecision::RejectCidr
    ));
    let outside = parse_ip_text("11.1.2.3").unwrap();
    assert!(matches!(
        decide(&outside, &None, &Vec::new(), &cidrs),
        FilterDecision::Accept
    ));
}

#[test]
fn non_anonymous_flags_fall_through_to_later_filters() {
    let ip = parse_ip_text("10.1.2.3").unwrap();
    let cidrs = vec![parse_cidr_line("10.0.0.0/8").unwrap()];
    let d = decide(&ip, &Some(flags(false, false, false)), &Vec::new(), &cidrs);
    assert!(matches!(d, FilterDecision::RejectCidr));
}
