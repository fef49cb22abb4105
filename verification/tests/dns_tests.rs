use audit_core::dns::{DnsQuery, DnsServer, FAKE_IP_FIRST, FAKE_IP_LIMIT, ip_string};

fn a_query(name: &str, id: u16) -> DnsQuery {
    DnsQuery { id, qclass: 1, qtype: 1, name: name.to_string() }
}

#[test]
fn queries_get_sequential_fake_addresses() {
    let mut dns = DnsServer::new();
    let a = dns.build_response(&a_query("one.example", 7)).expect("answer");
    let b = dns.build_response(&a_query("two.example", 8)).expect("answer");
    assert_eq!(a.ip, FAKE_IP_FIRST);
    assert_eq!(b.ip, FAKE_IP_FIRST + 1);
    assert_eq!(a.id, 7);
    assert_eq!(a.ttl_secs, 60);
    assert_eq!(a.name, "one.example");
}

#[test]
fn repeated_name_reuses_its_address() {
    let mut dns = DnsServer::new();
    let a = dns.build_response(&a_query("one.example", 1)).expect("answer");
    let again = dns.build_response(&a_query("one.example", 2)).expect("answer");
    assert_eq!(a.ip, again.ip);
    assert_eq!(dns.entries.len(), 1);
}

#[test]
fn reverse_lookup_recovers_the_domain() {
    let mut dns = DnsServer::new();
    let a = dns.build_response(&a_query("one.example", 1)).expect("answer");
    assert_eq!(dns.get_domain_by_ip(a.ip).as_deref(), Some("one.example"));
    assert!(dns.get_domain_by_ip(a.ip + 1).is_none());
}

#[test]
fn only_in_class_a_queries_are_answered() {
    let mut dns = DnsServer::new();
    let aaaa = DnsQuery { id: 1, qclass: 1, qtype: 28, name: "x".to_string() };
    assert!(dns.build_response(&aaaa).is_none());
    let chaos = DnsQuery { id: 1, qclass: 3, qtype: 1, name: "x".to_string() };
    assert!(dns.build_response(&chaos).is_none());
    assert_eq!(dns.entries.len(), 0);
}

#[test]
fn exhausted_block_stops_allocating() {
    let mut dns = DnsServer::new();
    let block = (FAKE_IP_LIMIT - FAKE_IP_FIRST) as usize;
    for i in 0..block {
        assert!(dns.build_response(&a_query(&format!("n{i}.example"), 1)).is_some());
    }
    // the block is used up: a new name gets no answer, known names still do
    assert!(dns.build_response(&a_query("overflow.example", 1)).is_none());
    assert!(dns.build_response(&a_query("n0.example", 1)).is_some());
}

#[test]
fn addresses_render_as_dotted_decimal() {
    assert_eq!(ip_string(FAKE_IP_FIRST), "10.0.1.1");
    assert_eq!(ip_string(0xC0A80009), "192.168.0.9");
    assert_eq!(ip_string(0), "0.0.0.0");
    assert_eq!(ip_string(u32::MAX), "255.255.255.255");
}
