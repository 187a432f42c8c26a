use valhali::record::Record;
use valhali::rdata::Cname;
use valhali::name::NameBuf;
use valhali::status::{entry_group_severity, server_severity, ServerStatus, Severity};
use valhali::text::push_decimal;
use valhali::types::{DnsClass, DnsType, EntryGroupState, InterfaceIndex, Protocol, ServerState, Ttl};

#[test]
fn ttl_conversions() {
    let t = Ttl::from_mins(75);
    assert_eq!(t.as_secs(), 4500);
    assert_eq!(t.as_mins(), 75);
    assert_eq!(t.as_hours(), 1);
    assert_eq!(t.as_days(), 0);
    assert_eq!(Ttl::from_hours(2).as_secs(), 7200);
    assert_eq!(Ttl::from_days(3).as_secs(), 259_200);
    assert_eq!(Ttl::from_days(3).as_days(), 3);
    assert_eq!(Ttl::from_secs(59).as_mins(), 0);
    assert_eq!(Ttl::minute().as_secs(), 60);
    assert_eq!(Ttl::hour().as_secs(), 3600);
    assert_eq!(Ttl::day().as_secs(), 86400);
    assert_eq!(Ttl::cap().as_secs(), 604_800);
    assert_eq!(Ttl::zero().as_secs(), 0);
    assert_eq!(Ttl::second().as_secs(), 1);
    assert_eq!(Ttl::max().as_secs(), u32::MAX);
    assert_eq!(Ttl::default_record().as_mins(), 75);
    assert_eq!(Ttl::default_host_name().as_secs(), 120);
    assert_eq!(Ttl::from_mins(71582788).as_secs(), 4_294_967_280);
    assert_eq!(Ttl::from_days(49710).as_secs(), 4_294_944_000);
}

#[test]
fn wire_codes() {
    assert_eq!(DnsType::CNAME.code(), 5);
    assert_eq!(DnsType::SRV.code(), 0x21);
    assert_eq!(DnsType::AAAA.code(), 0x1C);
    assert_eq!(DnsClass::IN.code(), 1);
    assert_eq!(Protocol::Unspec.code(), -1);
    assert_eq!(Protocol::Inet6.code(), 1);
    assert_eq!(InterfaceIndex::null_value(), -1);
    assert_eq!(InterfaceIndex::from_raw(3), Some(InterfaceIndex(3)));
    assert_eq!(InterfaceIndex::from_raw(-1), None);
    assert_eq!(InterfaceIndex::from_raw(70000), None);
    assert_eq!(ServerState::from_code(2), Some(ServerState::Running));
    assert_eq!(ServerState::from_code(5), None);
    assert_eq!(EntryGroupState::from_code(3), Some(EntryGroupState::Collision));
}

#[test]
fn severities() {
    assert_eq!(server_severity(ServerState::Failure), Severity::Error);
    assert_eq!(server_severity(ServerState::Invalid), Severity::Error);
    assert_eq!(server_severity(ServerState::Collision), Severity::Warning);
    assert_eq!(server_severity(ServerState::Running), Severity::Info);
    assert_eq!(entry_group_severity(EntryGroupState::Failure), Severity::Error);
    assert_eq!(entry_group_severity(EntryGroupState::Collision), Severity::Warning);
    assert_eq!(entry_group_severity(EntryGroupState::Established), Severity::Info);
    assert_eq!(entry_group_severity(EntryGroupState::Uncommitted), Severity::Info);
}

#[test]
fn record_fields() {
    let name = NameBuf::parse("x.local").unwrap();
    let data = Cname::parse("host.local").unwrap();
    let record = Record::new(name.clone(), Ttl::minute(), data);
    assert_eq!(record.name, name);
    assert_eq!(record.ttl, Ttl::from_secs(60));
    assert_eq!(record.data.to_string(), "host.local");
}

#[test]
fn status_lines() {
    let status = ServerStatus {
        host_name: "box".to_string(),
        domain_name: "local".to_string(),
        version: "avahi 0.8".to_string(),
        api: 512,
        state: ServerState::Running,
    };
    assert_eq!(
        status.describe(),
        "Host: box\nDomain: local\nVersion: avahi 0.8\nApi: 512\nState: Running"
    );
    assert_eq!(ServerState::Collision.name(), "Collision");
}

#[test]
fn decimal_text() {
    for (n, text) in [(0u32, "0"), (7, "7"), (10, "10"), (4096, "4096"), (u32::MAX, "4294967295")] {
        let mut out = String::from("n=");
        push_decimal(&mut out, n);
        assert_eq!(out, format!("n={text}"));
    }
}
