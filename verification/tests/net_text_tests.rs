use skate::net::{gateway_for_subnet, ipv4_to_text, is_ipv4_cidr, next_service_ip, parse_ipv4};
use skate::text::{replace_all, split_text, split_words};

#[test]
fn ipv4_parse_and_print() {
    assert_eq!(parse_ipv4("10.30.0.1"), Some((10, 30, 0, 1)));
    assert_eq!(parse_ipv4("255.255.255.255"), Some((255, 255, 255, 255)));
    assert_eq!(parse_ipv4("256.1.1.1"), None);
    assert_eq!(parse_ipv4("01.1.1.1"), None);
    assert_eq!(parse_ipv4("1.1.1"), None);
    assert_eq!(parse_ipv4("1.1.1.1.1"), None);
    assert_eq!(parse_ipv4(""), None);
    assert_eq!(ipv4_to_text((192, 168, 0, 10)), "192.168.0.10");
    // what is printed reads back
    let o = (10, 0, 255, 7);
    assert_eq!(parse_ipv4(&ipv4_to_text(o)), Some(o));
}

#[test]
fn service_ips_count_up() {
    assert_eq!(next_service_ip("").unwrap(), "10.30.0.2");
    assert_eq!(next_service_ip("garbage").unwrap(), "10.30.0.2");
    assert_eq!(next_service_ip("10.30.0.9").unwrap(), "10.30.0.10");
    assert_eq!(next_service_ip("10.30.0.255").unwrap(), "10.30.1.0");
    let e = next_service_ip("10.30.255.255").unwrap_err();
    assert_eq!(format!("{:?}", e), format!("{:?}", skate::errors::SkateError::String("no more ips available on subnet 10.30.0.1/16".to_string())));
    // the recorded address is where the next allocation starts
    let a = next_service_ip("10.30.3.4").unwrap();
    let b = next_service_ip(&a).unwrap();
    assert_eq!(b, "10.30.3.6");
}

#[test]
fn gateway_and_cidr() {
    assert_eq!(gateway_for_subnet("10.1.2.0/24"), "10.1.2.1");
    assert_eq!(gateway_for_subnet("10.1"), "10.1.1");
    assert!(is_ipv4_cidr("10.1.2.0/24"));
    assert!(is_ipv4_cidr("10.1.2.0/32"));
    assert!(!is_ipv4_cidr("10.1.2.0/33"));
    assert!(!is_ipv4_cidr("10.1.2.0"));
    assert!(!is_ipv4_cidr("10.1.2/24"));
}

#[test]
fn splitting_and_replacing() {
    assert_eq!(split_text("a.b..c", '.'), vec!["a", "b", "", "c"]);
    assert_eq!(split_text("", '.'), vec![""]);
    assert_eq!(replace_all("%%x%% and %%x%%", "%%x%%", "y"), "y and y");
    assert_eq!(replace_all("aaa", "aa", "b"), "ba");
    assert_eq!(replace_all("none here", "zz", "y"), "none here");
    assert_eq!(split_words("  abc  def\tg\n", true), vec!["abc", "def", "g"]);
    assert_eq!(split_words("skatelet 0.1.2", false), vec!["skatelet", "0.1.2"]);
    assert!(split_words("   ", true).is_empty());
}
