use std::str::FromStr;

use valhali::name::{NameBuf, NameError};
use valhali::rdata::{Cname, RecordData};
use valhali::types::DnsType;

#[test]
fn name() {
    let domain = "a.local";
    let name = NameBuf::from_str(domain).unwrap();

    assert_eq!(
        name.as_slice(),
        &[1, b'a', 5, b'l', b'o', b'c', b'a', b'l', 0]
    )
}

#[test]
fn round_trip_text() {
    for s in ["a.local", "foo.bar.local", "x", "caf\u{e9}.local", "my-host.example.org"] {
        let name = NameBuf::parse(s).unwrap();
        assert_eq!(name.to_string(), s);
        assert_eq!(name.as_name().to_string(), s);
    }
}

#[test]
fn rejects_empty_name() {
    assert_eq!(NameBuf::parse(""), Err(NameError::EmptyLabel));
}

#[test]
fn rejects_empty_labels() {
    assert_eq!(NameBuf::parse("a..b"), Err(NameError::EmptyLabel));
    assert_eq!(NameBuf::parse("a."), Err(NameError::EmptyLabel));
    assert_eq!(NameBuf::parse(".a"), Err(NameError::EmptyLabel));
}

#[test]
fn rejects_long_label() {
    let label = "a".repeat(64);
    assert_eq!(NameBuf::parse(&label), Err(NameError::LongLabel));
    let name = format!("x.{label}.local");
    assert_eq!(NameBuf::parse(&name), Err(NameError::LongLabel));
    let ok = "a".repeat(63);
    assert_eq!(NameBuf::parse(&ok).unwrap().as_slice().len(), 65);
}

#[test]
fn first_bad_label_decides() {
    let name = format!("a..{}", "b".repeat(64));
    assert_eq!(NameBuf::parse(&name), Err(NameError::EmptyLabel));
    let name = format!("{}..b", "b".repeat(64));
    assert_eq!(NameBuf::parse(&name), Err(NameError::LongLabel));
}

#[test]
fn rejects_long_name() {
    let l = "a".repeat(63);
    // 63 * 3 + 60 + 3 dots = 252 bytes of text: 254 encoded bytes
    let longest = format!("{l}.{l}.{l}.{}", "d".repeat(60));
    let name = NameBuf::parse(&longest).unwrap();
    assert_eq!(name.as_slice().len(), 254);
    assert_eq!(name.to_string(), longest);
    // one byte more: 255 encoded bytes
    let too_long = format!("{l}.{l}.{l}.{}", "d".repeat(61));
    assert_eq!(NameBuf::parse(&too_long), Err(NameError::LongName));
    assert_eq!(NameBuf::parse(&"a".repeat(300)), Err(NameError::LongName));
}

#[test]
fn labels_in_order() {
    let name = NameBuf::parse("www.example.local").unwrap();
    let view = name.as_name();
    let mut it = view.iter();
    assert_eq!(it.next().unwrap().as_str(), "www");
    assert_eq!(it.next().unwrap().as_str(), "example");
    assert_eq!(it.next().unwrap().as_slice(), b"local");
    assert!(it.next().is_none());
    assert!(it.next().is_none());
    // a fresh walk starts over
    assert_eq!(view.iter().next().unwrap().as_str(), "www");
}

#[test]
fn root_label() {
    let name = NameBuf::parse("a.local").unwrap();
    assert_eq!(name.as_name().root().as_str(), "a");
    assert!(!name.as_name().is_root());
    let single = NameBuf::parse("local").unwrap();
    assert!(single.as_name().is_root());
}

#[test]
fn prefix_and_suffix() {
    let full = NameBuf::parse("a.local").unwrap();
    let local = NameBuf::parse("local").unwrap();
    let a = NameBuf::parse("a").unwrap();
    assert!(full.as_name().ends_with(&local.as_name()));
    assert!(!full.as_name().starts_with(&local.as_name()));
    // the root byte of `a` makes it no prefix of `a.local`
    assert!(!full.as_name().starts_with(&a.as_name()));
    assert!(full.as_name().starts_with(&full.as_name()));
    assert!(full.as_name().ends_with(&full.as_name()));
    assert!(!local.as_name().ends_with(&full.as_name()));
}

#[test]
fn equality_is_bytewise() {
    let a = NameBuf::parse("a.local").unwrap();
    let b = NameBuf::from_str("a.local").unwrap();
    let c = NameBuf::parse("A.local").unwrap();
    assert_eq!(a, b);
    assert_ne!(a, c);
    assert_eq!(a.clone(), a);
    assert_eq!(a.clone().into_vec(), vec![1, b'a', 5, b'l', b'o', b'c', b'a', b'l', 0]);
}

#[test]
fn cname_data() {
    let c = Cname::from_str("host.local").unwrap();
    assert_eq!(c.as_rdata(), &[4, b'h', b'o', b's', b't', 5, b'l', b'o', b'c', b'a', b'l', 0]);
    assert_eq!(Cname::kind(), DnsType::CNAME);
    assert_eq!(c.to_string(), "host.local");
    assert_eq!(c.as_name().as_slice(), c.as_rdata());
    let from_buf = Cname::from(NameBuf::parse("host.local").unwrap());
    assert_eq!(from_buf.as_rdata(), c.as_rdata());
    assert!(Cname::parse("bad..name").is_err());
}
