use lambdo::vm_manager::net::{
    dec_string, ip_string, parse_inet, port_mapping_rules, tap_device_name, IpNet,
};

#[test]
fn parse_valid_bridge_address() {
    let inet = parse_inet("192.168.10.1/24").expect("address must parse");
    assert_eq!(inet.addr, 0xC0A80A01);
    assert_eq!(inet.prefix, 24);
}

#[test]
fn parse_zero_network() {
    let inet = parse_inet("0.0.0.0/0").expect("address must parse");
    assert_eq!(inet.addr, 0);
    assert_eq!(inet.prefix, 0);
}

#[test]
fn parse_host_prefix() {
    let inet = parse_inet("10.0.0.1/32").expect("address must parse");
    assert_eq!(inet.addr, 0x0A000001);
    assert_eq!(inet.prefix, 32);
}

#[test]
fn parse_rejects_missing_slash() {
    assert!(parse_inet("192.168.10.1").is_none());
}

#[test]
fn parse_rejects_octet_out_of_range() {
    assert!(parse_inet("300.1.1.1/24").is_none());
    assert!(parse_inet("1.2.3.256/24").is_none());
}

#[test]
fn parse_rejects_leading_zero() {
    assert!(parse_inet("01.2.3.4/8").is_none());
    assert!(parse_inet("1.2.3.4/08").is_none());
}

#[test]
fn parse_rejects_prefix_out_of_range() {
    assert!(parse_inet("1.2.3.4/33").is_none());
}

#[test]
fn parse_rejects_empty_parts() {
    assert!(parse_inet("1.2.3./24").is_none());
    assert!(parse_inet("1.2.3.4/").is_none());
    assert!(parse_inet("/24").is_none());
    assert!(parse_inet("").is_none());
}

#[test]
fn parse_rejects_garbage() {
    assert!(parse_inet("a.b.c.d/24").is_none());
    assert!(parse_inet("1.2.3.4.5/24").is_none());
    assert!(parse_inet("1.2.3.4/2x").is_none());
}

#[test]
fn decimal_rendering() {
    assert_eq!(dec_string(0).as_str(), "0");
    assert_eq!(dec_string(7).as_str(), "7");
    assert_eq!(dec_string(65535).as_str(), "65535");
}

#[test]
fn address_rendering() {
    assert_eq!(ip_string(0xC0A80A01).as_str(), "192.168.10.1");
    assert_eq!(ip_string(0).as_str(), "0.0.0.0");
    assert_eq!(ip_string(0xFFFFFFFF).as_str(), "255.255.255.255");
}

#[test]
fn netmask_of_prefix() {
    let inet = parse_inet("192.168.10.1/24").unwrap();
    assert_eq!(inet.mask(), 0xFFFFFF00);
    assert_eq!(inet.mask_string().as_str(), "255.255.255.0");
    let whole = parse_inet("10.0.0.1/0").unwrap();
    assert_eq!(whole.mask(), 0);
    let host = parse_inet("10.0.0.1/32").unwrap();
    assert_eq!(host.mask(), 0xFFFFFFFF);
}

#[test]
fn inet_display_round_trip() {
    let inet = parse_inet("192.168.10.1/24").unwrap();
    let shown = inet.display();
    assert_eq!(shown.as_str(), "192.168.10.1/24");
    assert_eq!(parse_inet(shown.as_str()), Some(inet));
}

#[test]
fn tap_name_truncates_id() {
    let name = tap_device_name("abcdefgh-1234-rest");
    assert_eq!(name.as_str(), "tap-abcdefgh");
    assert!(name.len() <= 15);
}

#[test]
fn port_mapping_rule_strings() {
    let ip = IpNet { addr: 0xC0A80A02, prefix: 24 };
    let rules = port_mapping_rules(ip, &vec![(8080, 80)]);
    assert_eq!(rules.len(), 3);
    assert_eq!(rules[0].table.as_str(), "nat");
    assert_eq!(rules[0].chain.as_str(), "PREROUTING");
    assert_eq!(
        rules[0].rule.as_str(),
        "-p tcp --dport 8080 -j DNAT --to-destination 192.168.10.2:80"
    );
    assert_eq!(rules[1].table.as_str(), "nat");
    assert_eq!(rules[1].chain.as_str(), "POSTROUTING");
    assert_eq!(rules[1].rule.as_str(), "-p tcp -d 192.168.10.2 --dport 80 -j MASQUERADE");
    assert_eq!(rules[2].table.as_str(), "filter");
    assert_eq!(rules[2].chain.as_str(), "FORWARD");
    assert_eq!(
        rules[2].rule.as_str(),
        "-p tcp -d 192.168.10.2 --dport 80 -m state --state NEW,ESTABLISHED,RELATED -j ACCEPT"
    );
}

#[test]
fn port_mapping_rules_per_entry() {
    let ip = IpNet { addr: 0x0A000002, prefix: 8 };
    let rules = port_mapping_rules(ip, &vec![(10000, 80), (10001, 443)]);
    assert_eq!(rules.len(), 6);
    assert_eq!(
        rules[3].rule.as_str(),
        "-p tcp --dport 10001 -j DNAT --to-destination 10.0.0.2:443"
    );
}
