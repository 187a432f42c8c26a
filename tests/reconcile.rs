use valhali::config::{same_config, snapshot, Config, ConfigWatch, ServiceConfig, ServiceEntryText};
use valhali::name::NameBuf;
use valhali::rdata::{Cname, RecordData};
use valhali::reconcile::{plan, Action, Cycle, Event, Phase, Task, ALIAS_TTL_SECS};
use valhali::service::{ServiceKind, TransportProtocol};

fn name(s: &str) -> NameBuf {
    NameBuf::parse(s).unwrap()
}

fn host() -> Cname {
    Cname::parse("myhost.local").unwrap()
}

fn alias_config(aliases: &[&str]) -> Config {
    Config {
        aliases: aliases.iter().map(|a| name(a)).collect(),
        services: Vec::new(),
    }
}

fn web_service(alias: Option<&str>) -> (String, ServiceConfig) {
    (
        "web".to_string(),
        ServiceConfig {
            alias: alias.map(name),
            kind: ServiceKind::parse("_http").unwrap(),
            protocol: TransportProtocol::Tcp,
            port: 8080,
        },
    )
}

fn started(config: &Config) -> (Cycle, Action) {
    let mut cycle = Cycle::new(config, host());
    let first = cycle.step(Event::Start);
    assert!(matches!(first, Action::Reset));
    let next = cycle.step(Event::Done);
    (cycle, next)
}

#[test]
fn unresolved_alias_is_added() {
    let (mut cycle, action) = started(&alias_config(&["x.local"]));
    match action {
        Action::Resolve(n) => assert_eq!(n.to_string(), "x.local"),
        other => panic!("unexpected {other:?}"),
    }
    match cycle.step(Event::Resolved(None)) {
        Action::AddRecord(record) => {
            assert_eq!(record.name.to_string(), "x.local");
            assert_eq!(record.ttl.as_secs(), ALIAS_TTL_SECS);
            assert_eq!(record.data.as_rdata(), host().as_rdata());
        }
        other => panic!("unexpected {other:?}"),
    }
    assert!(matches!(cycle.step(Event::Done), Action::Commit));
    assert_eq!(cycle.staged(), 1);
    assert!(matches!(cycle.step(Event::Done), Action::Finished));
    assert_eq!(cycle.phase(), Phase::Finished);
}

#[test]
fn alias_owned_elsewhere_is_a_conflict() {
    let (mut cycle, action) = started(&alias_config(&["x.local"]));
    assert!(matches!(action, Action::Resolve(_)));
    match cycle.step(Event::Resolved(Some("other.local".to_string()))) {
        Action::Conflict(alias, owner) => {
            assert_eq!(alias.to_string(), "x.local");
            assert_eq!(owner, "other.local");
        }
        other => panic!("unexpected {other:?}"),
    }
    // nothing was staged, so no commit
    assert!(matches!(cycle.step(Event::Done), Action::Finished));
    assert_eq!(cycle.staged(), 0);
}

#[test]
fn alias_owned_here_is_already_published() {
    let (mut cycle, _) = started(&alias_config(&["x.local"]));
    match cycle.step(Event::Resolved(Some("myhost.local".to_string()))) {
        Action::AlreadyPublished(alias) => assert_eq!(alias.to_string(), "x.local"),
        other => panic!("unexpected {other:?}"),
    }
    assert!(matches!(cycle.step(Event::Done), Action::Finished));
}

#[test]
fn empty_config_never_commits() {
    let (mut cycle, action) = started(&alias_config(&[]));
    assert!(matches!(action, Action::Finished));
    assert_eq!(cycle.staged(), 0);
    assert!(matches!(cycle.step(Event::Done), Action::Finished));
}

#[test]
fn failure_aborts_cycle() {
    let (mut cycle, _) = started(&alias_config(&["x.local", "y.local"]));
    assert!(matches!(cycle.step(Event::Resolved(None)), Action::AddRecord(_)));
    assert!(matches!(cycle.step(Event::Failed), Action::Aborted));
    assert_eq!(cycle.phase(), Phase::Aborted);
    assert!(matches!(cycle.step(Event::Done), Action::Aborted));

    let mut cycle = Cycle::new(&alias_config(&[]), host());
    assert!(matches!(cycle.step(Event::Start), Action::Reset));
    assert!(matches!(cycle.step(Event::Failed), Action::Aborted));
}

#[test]
fn services_follow_aliases() {
    let config = Config {
        aliases: vec![name("a.local")],
        services: vec![web_service(Some("web.local"))],
    };
    let tasks = plan(&config);
    assert_eq!(tasks.len(), 3);
    assert!(matches!(&tasks[0], Task::Alias(n) if n.to_string() == "a.local"));
    assert!(matches!(&tasks[1], Task::Alias(n) if n.to_string() == "web.local"));
    assert!(matches!(&tasks[2], Task::Service(s) if s.name == "web" && s.port == 8080));

    let (mut cycle, action) = started(&config);
    assert!(matches!(action, Action::Resolve(_)));
    assert!(matches!(
        cycle.step(Event::Resolved(Some("other.local".to_string()))),
        Action::Conflict(_, _)
    ));
    assert!(matches!(cycle.step(Event::Done), Action::Resolve(n) if n.to_string() == "web.local"));
    assert!(matches!(cycle.step(Event::Resolved(None)), Action::AddRecord(_)));
    match cycle.step(Event::Done) {
        Action::AddService(s) => {
            assert_eq!(s.name, "web");
            assert_eq!(s.service_type(), "_http._tcp");
        }
        other => panic!("unexpected {other:?}"),
    }
    assert!(matches!(cycle.step(Event::Done), Action::Commit));
    assert_eq!(cycle.staged(), 2);
    assert!(matches!(cycle.step(Event::Done), Action::Finished));
}

#[test]
fn service_without_alias_is_staged() {
    let config = Config { aliases: Vec::new(), services: vec![web_service(None)] };
    let (mut cycle, action) = started(&config);
    assert!(matches!(action, Action::AddService(_)));
    assert!(matches!(cycle.step(Event::Done), Action::Commit));
}

#[test]
fn same_snapshot_twice_is_one_change() {
    let first = alias_config(&["x.local"]);
    let mut watch = ConfigWatch::new(alias_config(&[]));
    assert!(watch.observe(first.clone()));
    assert!(!watch.observe(first.clone()));
    assert!(same_config(watch.current(), &first));
    assert!(watch.observe(alias_config(&["y.local"])));
    assert!(!watch.observe(alias_config(&["y.local"])));
}

#[test]
fn snapshot_equality() {
    let a = Config { aliases: vec![name("x.local")], services: vec![web_service(Some("w.local"))] };
    let b = Config { aliases: vec![name("x.local")], services: vec![web_service(Some("w.local"))] };
    let c = Config { aliases: vec![name("x.local")], services: vec![web_service(None)] };
    let d = alias_config(&["x.local", "y.local"]);
    assert!(same_config(&a, &b));
    assert!(!same_config(&a, &c));
    assert!(!same_config(&a, &d));
}

#[test]
fn service_order_does_not_matter() {
    let mut other = web_service(None);
    other.0 = "other".to_string();
    let a = Config { aliases: Vec::new(), services: vec![web_service(None), other.clone()] };
    let b = Config { aliases: Vec::new(), services: vec![other, web_service(None)] };
    assert!(a.has_distinct_names());
    assert!(same_config(&a, &b));
    let mut watch = ConfigWatch::new(a);
    assert!(!watch.observe(b));
}

#[test]
fn duplicate_names_are_detected() {
    let c = Config { aliases: Vec::new(), services: vec![web_service(None), web_service(Some("w.local"))] };
    assert!(!c.has_distinct_names());
}

fn entry(alias: Option<&str>, kind: &str, protocol: &str) -> ServiceEntryText {
    ServiceEntryText {
        alias: alias.map(|a| a.to_string()),
        kind: kind.to_string(),
        protocol: protocol.to_string(),
        port: 80,
    }
}

#[test]
fn malformed_entries_are_left_out() {
    let aliases = vec!["x.local".to_string(), "a..b".to_string(), "y.local".to_string()];
    let services = vec![
        ("web".to_string(), entry(Some("web.local"), "_http", "tcp")),
        ("bad-kind".to_string(), entry(None, "HTTP", "tcp")),
        ("bad-proto".to_string(), entry(None, "http", "sctp")),
        ("bad-alias".to_string(), entry(Some(""), "http", "udp")),
        ("web".to_string(), entry(None, "ftp", "tcp")),
        ("dns".to_string(), entry(None, "dns", "udp")),
    ];
    let read = snapshot(&aliases, &services);
    let kept: Vec<String> = read.config.aliases.iter().map(|n| n.to_string()).collect();
    assert_eq!(kept, vec!["x.local", "y.local"]);
    assert_eq!(read.dropped_aliases, vec!["a..b".to_string()]);
    let names: Vec<&str> = read.config.services.iter().map(|(n, _)| n.as_str()).collect();
    assert_eq!(names, vec!["web", "dns"]);
    assert_eq!(read.config.services[0].1.kind.as_str(), "http");
    assert_eq!(read.config.services[0].1.alias.as_ref().unwrap().to_string(), "web.local");
    assert_eq!(read.config.services[1].1.protocol, TransportProtocol::Udp);
    assert_eq!(read.dropped_services, vec!["bad-kind", "bad-proto", "bad-alias", "web"]);
    assert!(read.config.has_distinct_names());
}
