use myddns::DdnsError;
use myddns::NetInterface;
use myddns::get_ipv6_address;
use myddns::get_local_ipv6_address;
use myddns::list_all_netcards;
use myddns::select_global_address;

fn iface(name: &str, addr: &str, is_ipv6: bool) -> NetInterface {
    NetInterface {
        name: name.to_string(),
        addr: addr.to_string(),
        is_ipv6,
    }
}

#[test]
fn selection_prefers_global_address() {
    let addrs = vec!["fe80::1".to_string(), "2001:db8::1".to_string()];
    assert_eq!(select_global_address(&addrs).unwrap(), "2001:db8::1");
}

#[test]
fn selection_falls_back_to_first_link_local() {
    let addrs = vec!["fe80::1".to_string(), "fe80::2".to_string()];
    assert_eq!(select_global_address(&addrs).unwrap(), "fe80::1");
}

#[test]
fn selection_fails_on_empty_list() {
    let addrs: Vec<String> = Vec::new();
    assert!(matches!(
        select_global_address(&addrs),
        Err(DdnsError::NoAddressesFound)
    ));
}

#[test]
fn selection_takes_first_of_several_globals() {
    let addrs = vec![
        "fe80::1".to_string(),
        "2001:db8::a".to_string(),
        "2001:db8::b".to_string(),
    ];
    assert_eq!(select_global_address(&addrs).unwrap(), "2001:db8::a");
}

#[test]
fn filter_keeps_named_interface_ipv6_in_order() {
    let ifs = vec![
        iface("eth0", "fe80::1", true),
        iface("wlan0", "2001:db8::9", true),
        iface("eth0", "192.0.2.1", false),
        iface("eth0", "2001:db8::1", true),
    ];
    let v = get_ipv6_address(&ifs, "eth0".to_string()).unwrap();
    assert_eq!(v, vec!["fe80::1".to_string(), "2001:db8::1".to_string()]);
}

#[test]
fn filter_fails_when_interface_is_missing() {
    let ifs = vec![iface("eth0", "fe80::1", true)];
    assert!(matches!(
        get_ipv6_address(&ifs, "eth9".to_string()),
        Err(DdnsError::NoAddressesFound)
    ));
}

#[test]
fn filter_fails_when_interface_has_only_ipv4() {
    let ifs = vec![iface("eth0", "192.0.2.1", false)];
    assert!(matches!(
        get_ipv6_address(&ifs, "eth0".to_string()),
        Err(DdnsError::NoAddressesFound)
    ));
}

#[test]
fn local_address_combines_filter_and_selection() {
    let ifs = vec![
        iface("eth0", "fe80::1", true),
        iface("eth0", "2001:db8::1", true),
    ];
    assert_eq!(
        get_local_ipv6_address(&ifs, "eth0".to_string()).unwrap(),
        "2001:db8::1"
    );
}

#[test]
fn netcards_grouped_and_sorted_alphabetically() {
    let ifs = vec![
        iface("wlan0", "fe80::3", true),
        iface("eth0", "fe80::1", true),
        iface("lo", "127.0.0.1", false),
        iface("eth0", "2001:db8::1", true),
    ];
    let cards = list_all_netcards(&ifs);
    assert_eq!(cards.len(), 2);
    assert_eq!(cards[0].0, "eth0");
    assert_eq!(
        cards[0].1,
        vec!["fe80::1".to_string(), "2001:db8::1".to_string()]
    );
    assert_eq!(cards[1].0, "wlan0");
    assert_eq!(cards[1].1, vec!["fe80::3".to_string()]);
}

#[test]
fn netcards_empty_without_ipv6() {
    let ifs = vec![iface("lo", "127.0.0.1", false)];
    assert!(list_all_netcards(&ifs).is_empty());
}
