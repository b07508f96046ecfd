//! Reading the command-line cluster map.

use raft_kv::cluster::parse_cluster;

#[test]
fn parses_the_documented_form() {
    let m = parse_cluster("1=127.0.0.1:20171:20181,2=127.0.0.1:20172:20182").expect("well formed");
    assert_eq!(m.len(), 2);
    let a1 = m.get(&1).unwrap();
    assert_eq!(a1.raft_addr, "127.0.0.1:20171");
    assert_eq!(a1.http_port, 20181);
    let a2 = m.get(&2).unwrap();
    assert_eq!(a2.raft_addr, "127.0.0.1:20172");
    assert_eq!(a2.http_port, 20182);
}

#[test]
fn parses_a_single_entry() {
    let m = parse_cluster("7=10.0.0.7:9000:8080").expect("well formed");
    assert_eq!(m.len(), 1);
    let a = m.get(&7).unwrap();
    assert_eq!(a.raft_addr, "10.0.0.7:9000");
    assert_eq!(a.http_port, 8080);
}

#[test]
fn a_later_entry_for_the_same_id_wins() {
    let m = parse_cluster("1=a:1:2,1=b:3:4").expect("well formed");
    assert_eq!(m.len(), 1);
    let a = m.get(&1).unwrap();
    assert_eq!(a.raft_addr, "b:3");
    assert_eq!(a.http_port, 4);
}

#[test]
fn rejects_malformed_strings() {
    assert!(parse_cluster("").is_none());
    assert!(parse_cluster("1").is_none());
    assert!(parse_cluster("1=").is_none());
    assert!(parse_cluster("x=127.0.0.1:1:2").is_none());
    assert!(parse_cluster("1=127.0.0.1:1").is_none());
    assert!(parse_cluster("1=127.0.0.1:1:port").is_none());
    assert!(parse_cluster("1=a:1:2,").is_none());
    assert!(parse_cluster("1=a:1:70000").is_none());
    assert!(parse_cluster("99999999999999999999=a:1:2").is_none());
}

#[test]
fn port_and_id_bounds_are_exact() {
    let m = parse_cluster("18446744073709551615=h:1:65535").expect("largest values fit");
    let a = m.get(&u64::MAX).unwrap();
    assert_eq!(a.http_port, 65535);
    assert!(parse_cluster("18446744073709551616=h:1:1").is_none());
    assert!(parse_cluster("1=h:1:65536").is_none());
}
