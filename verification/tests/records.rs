use gandi_dyndns::error::ErrorKind;
use gandi_dyndns::ipv4::Ipv4;
use gandi_dyndns::record::{ipv4_of_record, ns_of_record, RecordData, RecordType, ResourceRecord};
use gandi_dyndns::resolver::{
    dns_lookup, resolver_opts_with_timeout, Answer, ResolverConfig, Scope, ServerEndpoint,
    Transport, DNS_PORT, DNS_TIMEOUT_SECS,
};

#[test]
fn record_types_have_their_names() {
    assert_eq!(RecordType::A.as_str(), "A");
    assert_eq!(RecordType::NS.as_str(), "NS");
}

#[test]
fn a_record_knows_its_type_and_owner() {
    let a = ResourceRecord::a("home.example.com.", Ipv4::new(203, 0, 113, 1));
    assert_eq!(a.name(), "home.example.com.");
    assert_eq!(a.rr_type(), Some(RecordType::A));
    assert!(a.has_type(RecordType::A));
    assert!(!a.has_type(RecordType::NS));

    let ns = ResourceRecord::ns("example.com.", "ns1.example.com.");
    assert_eq!(ns.rr_type(), Some(RecordType::NS));
    assert!(ns.has_type(RecordType::NS));
    assert!(!ns.has_type(RecordType::A));

    let other = ResourceRecord::other("www.example.com.");
    assert_eq!(other.rr_type(), None);
    assert!(!other.has_type(RecordType::A));
    assert!(!other.has_type(RecordType::NS));
}

#[test]
fn a_record_is_what_its_constructor_says() {
    assert_eq!(
        ResourceRecord::ns("example.com.", "ns1.example.com."),
        ResourceRecord {
            owner: "example.com.".to_string(),
            data: RecordData::NS("ns1.example.com.".to_string()),
        }
    );
    assert_eq!(
        ResourceRecord::a("h.example.com.", Ipv4::new(1, 2, 3, 4)),
        ResourceRecord {
            owner: "h.example.com.".to_string(),
            data: RecordData::A(Ipv4::new(1, 2, 3, 4)),
        }
    );
}

#[test]
fn ns_of_record_reads_ns_records_only() {
    let ns = ResourceRecord::ns("example.com.", "ns1.example.com.");
    assert_eq!(ns_of_record(&ns), Some("ns1.example.com.".to_string()));
    let a = ResourceRecord::a("example.com.", Ipv4::new(1, 2, 3, 4));
    assert_eq!(ns_of_record(&a), None);
    assert_eq!(ns_of_record(&ResourceRecord::other("example.com.")), None);
}

#[test]
fn ipv4_of_record_reads_a_records_only() {
    let a = ResourceRecord::a("example.com.", Ipv4::new(1, 2, 3, 4));
    assert_eq!(ipv4_of_record(&a), Some(Ipv4::new(1, 2, 3, 4)));
    let ns = ResourceRecord::ns("example.com.", "ns1.example.com.");
    assert_eq!(ipv4_of_record(&ns), None);
    assert_eq!(ipv4_of_record(&ResourceRecord::other("example.com.")), None);
}

#[test]
fn a_copy_of_a_record_equals_it() {
    let ns = ResourceRecord::ns("example.com.", "ns1.example.com.");
    assert_eq!(ns.clone(), ns);
    let a = ResourceRecord::a("example.com.", Ipv4::new(9, 8, 7, 6));
    assert_eq!(a.clone(), a);
}

#[test]
fn lookup_takes_the_first_record_of_the_type() {
    let answer = Answer::Records(vec![
        ResourceRecord::other("www.example.com."),
        ResourceRecord::ns("example.com.", "ns1.example.com."),
        ResourceRecord::a("a.example.com.", Ipv4::new(192, 0, 2, 1)),
        ResourceRecord::a("b.example.com.", Ipv4::new(192, 0, 2, 2)),
        ResourceRecord::ns("example.com.", "ns2.example.com."),
    ]);
    assert_eq!(
        dns_lookup(&answer, RecordType::A),
        Ok(ResourceRecord::a("a.example.com.", Ipv4::new(192, 0, 2, 1)))
    );
    assert_eq!(
        dns_lookup(&answer, RecordType::NS),
        Ok(ResourceRecord::ns("example.com.", "ns1.example.com."))
    );
}

#[test]
fn lookup_passes_over_records_of_other_types() {
    let answer = Answer::Records(vec![
        ResourceRecord::other("www.example.com."),
        ResourceRecord::other("cdn.example.net."),
        ResourceRecord::a("cdn.example.net.", Ipv4::new(198, 51, 100, 7)),
    ]);
    assert_eq!(
        dns_lookup(&answer, RecordType::A),
        Ok(ResourceRecord::a("cdn.example.net.", Ipv4::new(198, 51, 100, 7)))
    );
}

#[test]
fn lookup_without_a_record_of_the_type_is_not_found() {
    let answer = Answer::Records(vec![
        ResourceRecord::other("www.example.com."),
        ResourceRecord::a("a.example.com.", Ipv4::new(192, 0, 2, 1)),
    ]);
    let e = dns_lookup(&answer, RecordType::NS).unwrap_err();
    assert_eq!(e.kind, ErrorKind::NotFound);
    assert_eq!(e.msg, "Record type NS not found");

    let e = dns_lookup(&Answer::Records(vec![]), RecordType::A).unwrap_err();
    assert_eq!(e.kind, ErrorKind::NotFound);
    assert_eq!(e.msg, "Record type A not found");
}

#[test]
fn lookup_of_a_failed_query_is_a_transport_error() {
    let answer = Answer::Failed("request timed out".to_string());
    for rr_type in [RecordType::A, RecordType::NS] {
        let e = dns_lookup(&answer, rr_type).unwrap_err();
        assert_eq!(e.kind, ErrorKind::Transport);
        assert_eq!(e.msg, "Resolve error: request timed out");
    }
}

#[test]
fn resolvers_wait_fifteen_seconds_and_skip_the_hosts_file() {
    let options = resolver_opts_with_timeout();
    assert_eq!(options.timeout_secs, 15);
    assert_eq!(DNS_TIMEOUT_SECS, 15);
    assert!(!options.use_hosts_file);
    assert_eq!(ResolverConfig::recursive().options, options);
    assert_eq!(ResolverConfig::single_server(Ipv4::new(1, 2, 3, 4), "example.com.").options, options);
}

#[test]
fn a_single_server_resolver_is_bound_to_its_server() {
    let resolver = ResolverConfig::single_server(Ipv4::new(192, 0, 2, 10), "example.com.");
    match resolver.scope {
        Scope::Server(endpoint) => {
            assert_eq!(endpoint, ServerEndpoint::new(Ipv4::new(192, 0, 2, 10), "example.com."));
            assert_eq!(endpoint.addr, Ipv4::new(192, 0, 2, 10));
            assert_eq!(endpoint.domain, "example.com.");
            assert_eq!(endpoint.port(), 53);
            assert_eq!(endpoint.transport(), Transport::Udp);
            assert_eq!(DNS_PORT, 53);
        }
        Scope::Recursive => panic!("bound to no server"),
    }
    assert_eq!(ResolverConfig::recursive().scope, Scope::Recursive);
}
