use gandi_dyndns::gandi_client::Ttl;
use gandi_dyndns::ipv4::Ipv4;
use gandi_dyndns::reconcile::{
    dynamic_record_name, reconcile, ReconciliationOutcome, SinkCall, UPDATE_TTL_SECS,
};

#[test]
fn a_record_name_is_joined_to_its_zone_by_one_dot() {
    assert_eq!(dynamic_record_name("home", "example.com."), "home.example.com.");
    assert_eq!(dynamic_record_name("www", "sub.example.org."), "www.sub.example.org.");
    assert_eq!(dynamic_record_name("", "example.com."), ".example.com.");
    assert_eq!(dynamic_record_name("home", ""), "home.");
}

#[test]
fn a_joined_name_has_no_double_dot() {
    for (record, zone) in [("home", "example.com."), ("a", "b."), ("x-1", "co.uk.")] {
        let name = dynamic_record_name(record, zone);
        assert!(!name.contains(".."));
        assert!(name.ends_with('.'));
        assert_eq!(name.len(), record.len() + 1 + zone.len());
        assert_eq!(&name[..record.len()], record);
        assert_eq!(&name[record.len() + 1..], zone);
    }
}

#[test]
fn a_double_dot_comes_from_the_parts_only() {
    assert!(dynamic_record_name("home.", "example.com.").contains(".."));
    assert!(dynamic_record_name("home", ".example.com.").contains(".."));
    assert!(dynamic_record_name("ho..me", "example.com.").contains(".."));
    assert!(dynamic_record_name("home", "example..com.").contains(".."));
}

#[test]
fn equal_addresses_need_no_update() {
    let ip = Ipv4::new(203, 0, 113, 5);
    assert_eq!(
        reconcile(ip, ip),
        ReconciliationOutcome { desired: ip, observed: ip, update_required: false }
    );
}

#[test]
fn different_addresses_need_an_update() {
    let observed = Ipv4::new(203, 0, 113, 1);
    let desired = Ipv4::new(203, 0, 113, 5);
    assert_eq!(
        reconcile(observed, desired),
        ReconciliationOutcome { desired, observed, update_required: true }
    );
    assert!(reconcile(Ipv4::new(1, 2, 3, 4), Ipv4::new(4, 3, 2, 1)).update_required);
    assert!(reconcile(Ipv4::new(1, 2, 3, 4), Ipv4::new(1, 2, 3, 5)).update_required);
    assert!(reconcile(Ipv4::new(0, 2, 3, 4), Ipv4::new(1, 2, 3, 4)).update_required);
}

#[test]
fn a_write_names_zone_record_address_and_ttl() {
    let call = SinkCall::update("example.com.", "home", Ipv4::new(203, 0, 113, 5));
    assert_eq!(
        call,
        SinkCall {
            domain: "example.com".to_string(),
            name: "home".to_string(),
            value: "203.0.113.5".to_string(),
            ttl: Ttl::from_secs(300),
        }
    );
    assert_eq!(UPDATE_TTL_SECS, 300);
}

#[test]
fn a_write_strips_every_dot_at_the_end_of_the_zone() {
    assert_eq!(SinkCall::update("example.com", "h", Ipv4::new(1, 1, 1, 1)).domain, "example.com");
    assert_eq!(SinkCall::update("example.com..", "h", Ipv4::new(1, 1, 1, 1)).domain, "example.com");
    assert_eq!(SinkCall::update(".", "h", Ipv4::new(1, 1, 1, 1)).domain, "");
}
