use proxy_vet::ip::{ip_list_contains, is_ip_in_cidr_list, load_abuse_ips, load_firehol_cidrs,
    net_contains, networks_wf, parse_abuse_line, parse_cidr_line, parse_ip_text, IpAddress,
    Network};

#[test]
fn parses_ipv4_address() {
    assert_eq!(parse_ip_text("1.2.3.4"), Some(IpAddress::V4(0x01020304)));
}

#[test]
fn parses_ipv6_address() {
    assert_eq!(parse_ip_text("::1"), Some(IpAddress::V6(1)));
}

#[test]
fn rejects_malformed_addresses() {
    assert_eq!(parse_ip_text("1.2.3"), None);
    assert_eq!(parse_ip_text("256.1.1.1"), None);
    assert_eq!(parse_ip_text("abc"), None);
    assert_eq!(parse_ip_text(""), None);
}

#[test]
fn rejects_cidr_notation_as_address() {
    assert_eq!(parse_ip_text("1.2.3.4/24"), None);
}

#[test]
fn parses_ipv4_network() {
    assert_eq!(
        parse_cidr_line("10.0.0.0/8"),
        Some(Network { addr: IpAddress::V4(0x0a000000), prefix: 8 })
    );
}

#[test]
fn bare_address_parses_as_full_network() {
    assert_eq!(
        parse_cidr_line("1.2.3.4"),
        Some(Network { addr: IpAddress::V4(0x01020304), prefix: 32 })
    );
}

#[test]
fn rejects_network_with_wide_prefix() {
    assert_eq!(parse_cidr_line("10.0.0.0/33"), None);
}

#[test]
fn network_contains_its_addresses() {
    let net = Network { addr: IpAddress::V4(0x0a000000), prefix: 8 };
    assert!(net_contains(&net, &IpAddress::V4(0x0a010203)));
    assert!(!net_contains(&net, &IpAddress::V4(0x0b010203)));
}

#[test]
fn zero_prefix_network_contains_every_address_of_its_family() {
    let net = Network { addr: IpAddress::V4(0), prefix: 0 };
    assert!(net_contains(&net, &IpAddress::V4(0xffffffff)));
    assert!(!net_contains(&net, &IpAddress::V6(1)));
}

#[test]
fn ipv6_network_containment() {
    let net = parse_cidr_line("2001:db8::/32").unwrap();
    assert!(net_contains(&net, &parse_ip_text("2001:db8::42").unwrap()));
    assert!(!net_contains(&net, &parse_ip_text("2001:db9::42").unwrap()));
}

#[test]
fn cidr_list_membership() {
    let cidrs = vec![
        parse_cidr_line("10.0.0.0/8").unwrap(),
        parse_cidr_line("192.168.0.0/16").unwrap(),
    ];
    assert!(networks_wf(&cidrs));
    assert!(is_ip_in_cidr_list(&parse_ip_text("192.168.3.4").unwrap(), &cidrs));
    assert!(!is_ip_in_cidr_list(&parse_ip_text("8.8.8.8").unwrap(), &cidrs));
    assert!(!is_ip_in_cidr_list(&parse_ip_text("8.8.8.8").unwrap(), &Vec::new()));
}

#[test]
fn ip_list_membership() {
    let ips = vec![parse_ip_text("1.2.3.4").unwrap(), parse_ip_text("::1").unwrap()];
    assert!(ip_list_contains(&parse_ip_text("1.2.3.4").unwrap(), &ips));
    assert!(!ip_list_contains(&parse_ip_text("1.2.3.5").unwrap(), &ips));
}

#[test]
fn abuse_line_takes_first_field() {
    assert_eq!(
        parse_abuse_line("1.2.3.4,US,100"),
        Some(IpAddress::V4(0x01020304))
    );
    assert_eq!(parse_abuse_line(" 1.2.3.4 ,US,100"), Some(IpAddress::V4(0x01020304)));
    assert_eq!(parse_abuse_line("bogus,US,100"), None);
    assert_eq!(parse_abuse_line(""), None);
    assert_eq!(parse_abuse_line("2001:db8::7,NL,80"), parse_ip_text("2001:db8::7"));
}

#[test]
fn cidr_line_is_trimmed_and_blank_lines_skip() {
    assert_eq!(
        parse_cidr_line("  10.0.0.0/8  "),
        Some(Network { addr: IpAddress::V4(0x0a000000), prefix: 8 })
    );
    assert_eq!(parse_cidr_line("   "), None);
    assert_eq!(parse_cidr_line("nonsense"), None);
}

#[test]
fn loads_abuse_list_dropping_bad_lines() {
    let lines = vec![
        String::from("1.2.3.4,US,100"),
        String::from("not an ip,DE,5"),
        String::from("5.6.7.8,FR,90"),
    ];
    let set = load_abuse_ips(&lines);
    assert_eq!(set, vec![IpAddress::V4(0x01020304), IpAddress::V4(0x05060708)]);
}

#[test]
fn loads_cidr_list_dropping_bad_lines() {
    let lines = vec![
        String::from("10.0.0.0/8"),
        String::from(""),
        String::from("junk"),
        String::from("192.168.0.0/16"),
    ];
    let cidrs = load_firehol_cidrs(&lines);
    assert_eq!(cidrs.len(), 2);
    assert_eq!(cidrs[0].prefix, 8);
    assert_eq!(cidrs[1].prefix, 16);
}
