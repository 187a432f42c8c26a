//! Configuration snapshots, and the decision to reconcile when one changes.
use crate::name::{NameBuf, bytes_eq, parse_bytes};
use crate::service::{ServiceKind, TransportProtocol, parse_kind};
use vstd::prelude::*;
use vstd::string::StringSliceAdditionalSpecFns;
use vstd::utf8::encode_utf8;

verus! {

/// How one service instance is to be published.
#[derive(Debug)]
pub struct ServiceConfig {
    /// An alias to publish for this host along with the service.
    pub alias: Option<NameBuf>,
    pub kind: ServiceKind,
    pub protocol: TransportProtocol,
    pub port: u16,
}

/// What a service configuration states.
pub struct ServiceConfigView {
    pub alias: Option<Seq<u8>>,
    pub kind: Seq<char>,
    pub protocol: TransportProtocol,
    pub port: u16,
}

pub open spec fn alias_view(a: Option<NameBuf>) -> Option<Seq<u8>> {
    match a {
        Some(n) => Some(n@),
        None => None,
    }
}

impl View for ServiceConfig {
    type V = ServiceConfigView;

    open spec fn view(&self) -> ServiceConfigView {
        ServiceConfigView {
            alias: alias_view(self.alias),
            kind: self.kind@,
            protocol: self.protocol,
            port: self.port,
        }
    }
}

/// A configuration snapshot: aliases of this host, and services by instance
/// name.
#[derive(Debug)]
pub struct Config {
    pub aliases: Vec<NameBuf>,
    pub services: Vec<(String, ServiceConfig)>,
}

/// What a configuration snapshot states.
pub struct ConfigView {
    pub aliases: Seq<Seq<u8>>,
    pub services: Seq<(Seq<char>, ServiceConfigView)>,
}

impl View for Config {
    type V = ConfigView;

    open spec fn view(&self) -> ConfigView {
        ConfigView {
            aliases: self.aliases@.map_values(|n: NameBuf| n@),
            services: self.services@.map_values(|e: (String, ServiceConfig)| (e.0@, e.1@)),
        }
    }
}

impl Clone for ServiceConfig {
    fn clone(&self) -> (r: Self)
        ensures
            r@ == self@,
    {
        let alias = match &self.alias {
            Some(a) => Some(a.clone()),
            None => None,
        };
        ServiceConfig { alias, kind: self.kind.clone(), protocol: self.protocol, port: self.port }
    }
}

impl Clone for Config {
    fn clone(&self) -> (r: Self)
        ensures
            r@ == self@,
    {
        let mut aliases: Vec<NameBuf> = Vec::new();
        let mut i: usize = 0;
        while i < self.aliases.len()
            invariant
                i <= self.aliases@.len(),
                aliases@.len() == i,
                forall|k: int| 0 <= k < i ==> #[trigger] aliases@[k]@ == self.aliases@[k]@,
            decreases self.aliases@.len() - i,
        {
            aliases.push(self.aliases[i].clone());
            i += 1;
        }
        let mut services: Vec<(String, ServiceConfig)> = Vec::new();
        let mut j: usize = 0;
        while j < self.services.len()
            invariant
                j <= self.services@.len(),
                services@.len() == j,
                forall|k: int|
                    0 <= k < j ==> (#[trigger] services@[k]).0@ == self.services@[k].0@
                        && services@[k].1@ == self.services@[k].1@,
            decreases self.services@.len() - j,
        {
            let (name, sc) = &self.services[j];
            services.push((name.clone(), sc.clone()));
            j += 1;
        }
        let r = Config { aliases, services };
        assert(r@.aliases =~= self@.aliases);
        assert(r@.services =~= self@.services);
        r
    }
}

/// Whether two service configurations state the same.
pub fn same_service_config(a: &ServiceConfig, b: &ServiceConfig) -> (r: bool)
    ensures
        r == (a@ == b@),
{
    let alias_same = match (&a.alias, &b.alias) {
        (Some(x), Some(y)) => bytes_eq(x.as_slice(), y.as_slice()),
        (None, None) => true,
        _ => false,
    };
    alias_same && a.kind == b.kind && a.protocol == b.protocol && a.port == b.port
}

/// The services of a snapshot as a mapping from instance name to configuration.
pub open spec fn service_map(s: Seq<(Seq<char>, ServiceConfigView)>) -> Map<
    Seq<char>,
    ServiceConfigView,
>
    decreases s.len(),
{
    if s.len() == 0 {
        Map::empty()
    } else {
        service_map(s.drop_last()).insert(s.last().0, s.last().1)
    }
}

/// Two snapshots state the same: equal aliases in the same order, and the
/// same mapping of services.
pub open spec fn same_snapshot(a: ConfigView, b: ConfigView) -> bool {
    a.aliases == b.aliases && service_map(a.services) == service_map(b.services)
}

proof fn lemma_service_map(s: Seq<(Seq<char>, ServiceConfigView)>)
    requires
        distinct_names(s),
    ensures
        service_map(s).dom().finite(),
        service_map(s).dom().len() == s.len(),
        forall|k: Seq<char>| service_map(s).contains_key(k) <==> has_name(s, k),
        forall|i: int| 0 <= i < s.len() ==> service_map(s)[#[trigger] s[i].0] == s[i].1,
    decreases s.len(),
{
    broadcast use vstd::set::axiom_set_insert_len, vstd::set::axiom_set_insert_finite;

    if s.len() > 0 {
        let p = s.drop_last();
        assert forall|i: int, j: int| 0 <= i < j < p.len() implies #[trigger] p[i].0
            != #[trigger] p[j].0 by {
            assert(p[i] == s[i] && p[j] == s[j]);
        }
        lemma_service_map(p);
        let last = s.last();
        assert(!has_name(p, last.0)) by {
            if has_name(p, last.0) {
                let i = choose|i: int| 0 <= i < p.len() && #[trigger] p[i].0 == last.0;
                assert(s[i].0 == s[s.len() - 1].0);
            }
        }
        assert(service_map(s).dom() == service_map(p).dom().insert(last.0));
        assert forall|k: Seq<char>| service_map(s).contains_key(k) <==> has_name(s, k) by {
            if has_name(p, k) {
                let i = choose|i: int| 0 <= i < p.len() && #[trigger] p[i].0 == k;
                assert(s[i].0 == k);
            }
            if has_name(s, k) && k != last.0 {
                let i = choose|i: int| 0 <= i < s.len() && #[trigger] s[i].0 == k;
                assert(p[i].0 == k);
            }
            if k == last.0 {
                assert(s[s.len() - 1].0 == k);
            }
        }
        assert forall|i: int| 0 <= i < s.len() implies service_map(s)[#[trigger] s[i].0]
            == s[i].1 by {
            if i < s.len() - 1 {
                assert(s[i] == p[i]);
                assert(s[i].0 != last.0);
            }
        }
    }
}

/// Whether two snapshots state the same: equal aliases in the same order,
/// and the same services whatever their order.
pub fn same_config(a: &Config, b: &Config) -> (r: bool)
    requires
        a.wf(),
        b.wf(),
    ensures
        r == same_snapshot(a@, b@),
{
    proof {
        lemma_service_map(a@.services);
        lemma_service_map(b@.services);
    }
    if a.aliases.len() != b.aliases.len() || a.services.len() != b.services.len() {
        proof {
            if a.aliases.len() != b.aliases.len() {
                assert(a@.aliases.len() != b@.aliases.len());
            } else {
                assert(service_map(a@.services).dom().len() != service_map(b@.services).dom().len());
            }
        }
        return false;
    }
    let mut i: usize = 0;
    while i < a.aliases.len()
        invariant
            a.aliases@.len() == b.aliases@.len(),
            i <= a.aliases@.len(),
            forall|k: int| 0 <= k < i ==> #[trigger] a.aliases@[k]@ == b.aliases@[k]@,
        decreases a.aliases@.len() - i,
    {
        if !(a.aliases[i] == b.aliases[i]) {
            proof {
                assert(a@.aliases[i as int] != b@.aliases[i as int]);
            }
            return false;
        }
        i += 1;
    }
    assert(a@.aliases =~= b@.aliases);
    let ghost am = service_map(a@.services);
    let ghost bm = service_map(b@.services);
    let n = a.services.len();
    let mut j: usize = 0;
    while j < n
        invariant
            n == a.services@.len(),
            n == b.services@.len(),
            j <= n,
            a@.aliases == b@.aliases,
            am == service_map(a@.services),
            bm == service_map(b@.services),
            forall|k: Seq<char>| am.contains_key(k) <==> has_name(a@.services, k),
            forall|k: Seq<char>| bm.contains_key(k) <==> has_name(b@.services, k),
            forall|m: int| 0 <= m < n ==> am[#[trigger] a@.services[m].0] == a@.services[m].1,
            forall|m: int| 0 <= m < n ==> bm[#[trigger] b@.services[m].0] == b@.services[m].1,
            forall|m: int|
                0 <= m < j ==> bm.contains_key(#[trigger] a@.services[m].0) && bm[a@.services[m].0]
                    == a@.services[m].1,
        decreases n - j,
    {
        let (an, ac) = &a.services[j];
        proof {
            assert(am[a@.services[j as int].0] == a@.services[j as int].1);
            assert(has_name(a@.services, a@.services[j as int].0));
        }
        let mut k: usize = 0;
        let mut found = false;
        while k < n && !found
            invariant
                n == b.services@.len(),
                k <= n,
                j < n,
                an@ == a@.services[j as int].0,
                ac@ == a@.services[j as int].1,
                found ==> bm.contains_key(an@) && bm[an@] == ac@,
                am.contains_key(an@),
                am[an@] == ac@,
                n == a@.services.len(),
                am == service_map(a@.services),
                bm == service_map(b@.services),
                !found ==> forall|m: int| 0 <= m < k ==> #[trigger] b@.services[m].0 != an@,
                forall|m: int| 0 <= m < n ==> bm[#[trigger] b@.services[m].0] == b@.services[m].1,
                forall|q: Seq<char>| bm.contains_key(q) <==> has_name(b@.services, q),
            decreases n - k,
        {
            let (bn, bc) = &b.services[k];
            if *bn == *an {
                assert(b@.services[k as int].0 == an@);
                if !same_service_config(ac, bc) {
                    proof {
                        assert(am[an@] == ac@);
                        assert(bm[an@] == bc@);
                        assert(am.contains_key(an@));
                    }
                    return false;
                }
                assert(has_name(b@.services, an@));
                found = true;
            }
            k += 1;
        }
        if !found {
            proof {
                assert(!has_name(b@.services, an@));
                assert(has_name(a@.services, an@));
                assert(am.contains_key(an@) && !bm.contains_key(an@));
            }
            return false;
        }
        j += 1;
    }
    proof {
        assert(am.dom().subset_of(bm.dom())) by {
            assert forall|q: Seq<char>| am.contains_key(q) implies bm.contains_key(q) by {
                let m = choose|m: int| 0 <= m < n && #[trigger] a@.services[m].0 == q;
            }
        }
        vstd::set_lib::lemma_subset_equality(am.dom(), bm.dom());
        assert forall|q: Seq<char>| #[trigger] am.contains_key(q) implies am[q] == bm[q] by {
            let m = choose|m: int| 0 <= m < n && #[trigger] a@.services[m].0 == q;
        }
        assert(am =~= bm);
    }
    true
}

/// The reload decision: the snapshot kept after a reload, and whether it
/// differs from the one kept before (and so calls for a reconciliation).
pub open spec fn reload_spec(current: ConfigView, loaded: ConfigView) -> (ConfigView, bool) {
    if same_snapshot(current, loaded) {
        (current, false)
    } else {
        (loaded, true)
    }
}

/// Holds the snapshot that was last applied, and tells whether a freshly
/// loaded one differs from it.
#[derive(Debug)]
pub struct ConfigWatch {
    current: Config,
}

impl ConfigWatch {
    #[verifier::type_invariant]
    spec fn inv(self) -> bool {
        self.current.wf()
    }

    pub closed spec fn current_view(&self) -> ConfigView {
        self.current@
    }

    /// A watch whose applied snapshot is `initial`.
    pub fn new(initial: Config) -> (r: ConfigWatch)
        requires
            initial.wf(),
        ensures
            r.current_view() == initial@,
    {
        ConfigWatch { current: initial }
    }

    /// The snapshot last applied.
    pub fn current(&self) -> (r: &Config)
        ensures
            r@ == self.current_view(),
            r.wf(),
    {
        proof {
            use_type_invariant(self);
        }
        &self.current
    }

    /// Takes a freshly loaded snapshot; returns whether it differs from the
    /// one applied before, which it then replaces.
    pub fn observe(&mut self, loaded: Config) -> (changed: bool)
        requires
            loaded.wf(),
        ensures
            (final(self).current_view(), changed) == reload_spec(old(self).current_view(), loaded@),
    {
        proof {
            use_type_invariant(&*self);
        }
        if same_config(&self.current, &loaded) {
            false
        } else {
            self.current = loaded;
            true
        }
    }
}

/// Loading the same snapshot twice in a row calls for no second
/// reconciliation, whatever snapshot was applied before.
pub proof fn lemma_reload_idempotent(current: ConfigView, loaded: ConfigView)
    ensures
        !reload_spec(reload_spec(current, loaded).0, loaded).1,
{
}

/// No two services share an instance name.
pub open spec fn distinct_names(services: Seq<(Seq<char>, ServiceConfigView)>) -> bool {
    forall|i: int, j: int|
        0 <= i < j < services.len() ==> #[trigger] services[i].0 != #[trigger] services[j].0
}

impl Config {
    /// A snapshot names each service once, as the mapping it comes from does.
    pub open spec fn wf(&self) -> bool {
        distinct_names(self@.services)
    }

    /// Whether no two services share an instance name.
    pub fn has_distinct_names(&self) -> (r: bool)
        ensures
            r == self.wf(),
    {
        let n = self.services.len();
        let mut j: usize = 0;
        while j < n
            invariant
                n == self.services@.len(),
                j <= n,
                forall|a: int, b: int|
                    0 <= a < b < j ==> #[trigger] self@.services[a].0 != #[trigger] self@.services[b].0,
            decreases n - j,
        {
            let mut i: usize = 0;
            while i < j
                invariant
                    n == self.services@.len(),
                    i <= j < n,
                    forall|a: int| 0 <= a < i ==> #[trigger] self@.services[a].0 != self@.services[j as int].0,
                decreases j - i,
            {
                if self.services[i].0 == self.services[j].0 {
                    assert(self@.services[i as int].0 == self@.services[j as int].0);
                    return false;
                }
                i += 1;
            }
            j += 1;
        }
        true
    }
}

/// A service entry as written in a configuration file.
#[derive(Debug)]
pub struct ServiceEntryText {
    pub alias: Option<String>,
    pub kind: String,
    pub protocol: String,
    pub port: u16,
}

pub struct ServiceEntryTextView {
    pub alias: Option<Seq<char>>,
    pub kind: Seq<char>,
    pub protocol: Seq<char>,
    pub port: u16,
}

impl View for ServiceEntryText {
    type V = ServiceEntryTextView;

    open spec fn view(&self) -> ServiceEntryTextView {
        ServiceEntryTextView {
            alias: match self.alias {
                Some(a) => Some(a@),
                None => None,
            },
            kind: self.kind@,
            protocol: self.protocol@,
            port: self.port,
        }
    }
}

/// The protocol a text names, if it names one.
pub open spec fn protocol_named(t: Seq<char>) -> Option<TransportProtocol> {
    if t == seq!['t', 'c', 'p'] {
        Some(TransportProtocol::Tcp)
    } else if t == seq!['u', 'd', 'p'] {
        Some(TransportProtocol::Udp)
    } else {
        None
    }
}

/// The configuration a written entry stands for, when all its parts are well formed.
pub open spec fn entry_config(e: ServiceEntryTextView) -> Option<ServiceConfigView> {
    let alias: Option<Option<Seq<u8>>> = match e.alias {
        None => Some(None),
        Some(a) => match parse_bytes(encode_utf8(a)) {
            Ok(w) => Some(Some(w)),
            Err(_) => None,
        },
    };
    match (alias, parse_kind(e.kind, encode_utf8(e.kind).len()), protocol_named(e.protocol)) {
        (Some(a), Ok(k), Some(p)) => Some(
            ServiceConfigView { alias: a, kind: k, protocol: p, port: e.port },
        ),
        _ => None,
    }
}

/// The aliases kept from written ones: those that parse, in order.
pub open spec fn kept_aliases(texts: Seq<Seq<char>>) -> Seq<Seq<u8>>
    decreases texts.len(),
{
    if texts.len() == 0 {
        seq![]
    } else {
        let prev = kept_aliases(texts.drop_last());
        match parse_bytes(encode_utf8(texts.last())) {
            Ok(w) => prev.push(w),
            Err(_) => prev,
        }
    }
}

/// The written aliases that are left out.
pub open spec fn dropped_aliases(texts: Seq<Seq<char>>) -> Seq<Seq<char>>
    decreases texts.len(),
{
    if texts.len() == 0 {
        seq![]
    } else {
        let prev = dropped_aliases(texts.drop_last());
        match parse_bytes(encode_utf8(texts.last())) {
            Ok(_) => prev,
            Err(_) => prev.push(texts.last()),
        }
    }
}

pub open spec fn has_name(services: Seq<(Seq<char>, ServiceConfigView)>, name: Seq<char>) -> bool {
    exists|i: int| 0 <= i < services.len() && #[trigger] services[i].0 == name
}

/// The services kept from written entries: those whose parts are all well
/// formed, in order, the first one of each name.
pub open spec fn kept_services(entries: Seq<(Seq<char>, ServiceEntryTextView)>) -> Seq<
    (Seq<char>, ServiceConfigView),
>
    decreases entries.len(),
{
    if entries.len() == 0 {
        seq![]
    } else {
        let prev = kept_services(entries.drop_last());
        let e = entries.last();
        match entry_config(e.1) {
            Some(c) => if has_name(prev, e.0) {
                prev
            } else {
                prev.push((e.0, c))
            },
            None => prev,
        }
    }
}

/// The names of the written entries that are left out.
pub open spec fn dropped_services(entries: Seq<(Seq<char>, ServiceEntryTextView)>) -> Seq<Seq<char>>
    decreases entries.len(),
{
    if entries.len() == 0 {
        seq![]
    } else {
        let prev = dropped_services(entries.drop_last());
        let e = entries.last();
        match entry_config(e.1) {
            Some(_) => if has_name(kept_services(entries.drop_last()), e.0) {
                prev.push(e.0)
            } else {
                prev
            },
            None => prev.push(e.0),
        }
    }
}

/// A snapshot read from written entries, and what was left out of it.
#[derive(Debug)]
pub struct Snapshot {
    pub config: Config,
    /// Aliases that are not well-formed names.
    pub dropped_aliases: Vec<String>,
    /// Services with a malformed part, or named twice.
    pub dropped_services: Vec<String>,
}

fn entry_config_of(e: &ServiceEntryText) -> (r: Option<ServiceConfig>)
    ensures
        match r {
            Some(c) => entry_config(e@) == Some(c@),
            None => entry_config(e@) is None,
        },
{
    let alias = match &e.alias {
        None => None,
        Some(a) => match NameBuf::parse(a.as_str()) {
            Ok(n) => Some(n),
            Err(_) => {
                return None;
            },
        },
    };
    let kind = match ServiceKind::parse(e.kind.as_str()) {
        Ok(k) => k,
        Err(_) => {
            return None;
        },
    };
    let protocol = match TransportProtocol::parse(e.protocol.as_str()) {
        Ok(p) => p,
        Err(_) => {
            return None;
        },
    };
    Some(ServiceConfig { alias, kind, protocol, port: e.port })
}

/// Builds a snapshot from written aliases and service entries. Each malformed
/// alias, and each service with a malformed part, is left out and listed,
/// without affecting the others; a service named a second time is left out
/// too.
pub fn snapshot(aliases: &Vec<String>, services: &Vec<(String, ServiceEntryText)>) -> (r: Snapshot)
    ensures
        r.config.wf(),
        r.config@.aliases == kept_aliases(aliases@.map_values(|a: String| a@)),
        r.config@.services == kept_services(
            services@.map_values(|e: (String, ServiceEntryText)| (e.0@, e.1@)),
        ),
        r.dropped_aliases@.map_values(|a: String| a@) == dropped_aliases(
            aliases@.map_values(|a: String| a@),
        ),
        r.dropped_services@.map_values(|a: String| a@) == dropped_services(
            services@.map_values(|e: (String, ServiceEntryText)| (e.0@, e.1@)),
        ),
{
    let ghost texts = aliases@.map_values(|a: String| a@);
    let mut kept: Vec<NameBuf> = Vec::new();
    let mut dropped: Vec<String> = Vec::new();
    let mut i: usize = 0;
    while i < aliases.len()
        invariant
            i <= aliases@.len(),
            texts == aliases@.map_values(|a: String| a@),
            kept@.map_values(|n: NameBuf| n@) == kept_aliases(texts.take(i as int)),
            dropped@.map_values(|a: String| a@) == dropped_aliases(texts.take(i as int)),
        decreases aliases@.len() - i,
    {
        let a = &aliases[i];
        proof {
            assert(texts.take(i + 1).drop_last() == texts.take(i as int));
            assert(texts.take(i + 1).last() == a@);
        }
        match NameBuf::parse(a.as_str()) {
            Ok(n) => {
                kept.push(n);
                proof {
                    assert(kept@.map_values(|n: NameBuf| n@) =~= kept_aliases(texts.take(i + 1)));
                }
            },
            Err(_) => {
                dropped.push(a.clone());
                proof {
                    assert(dropped@.map_values(|a: String| a@) =~= dropped_aliases(
                        texts.take(i + 1),
                    ));
                }
            },
        }
        i += 1;
    }
    assert(texts.take(i as int) == texts);
    let ghost entries = services@.map_values(|e: (String, ServiceEntryText)| (e.0@, e.1@));
    let mut out: Vec<(String, ServiceConfig)> = Vec::new();
    let mut skipped: Vec<String> = Vec::new();
    let mut j: usize = 0;
    while j < services.len()
        invariant
            j <= services@.len(),
            entries == services@.map_values(|e: (String, ServiceEntryText)| (e.0@, e.1@)),
            out@.map_values(|e: (String, ServiceConfig)| (e.0@, e.1@)) == kept_services(
                entries.take(j as int),
            ),
            skipped@.map_values(|a: String| a@) == dropped_services(entries.take(j as int)),
            distinct_names(out@.map_values(|e: (String, ServiceConfig)| (e.0@, e.1@))),
        decreases services@.len() - j,
    {
        let (name, entry) = &services[j];
        let ghost prev = out@.map_values(|e: (String, ServiceConfig)| (e.0@, e.1@));
        proof {
            assert(entries.take(j + 1).drop_last() == entries.take(j as int));
            assert(entries.take(j + 1).last() == (name@, entry@));
        }
        match entry_config_of(entry) {
            Some(c) => {
                let mut k: usize = 0;
                let mut seen = false;
                while k < out.len()
                    invariant
                        k <= out@.len(),
                        prev == out@.map_values(|e: (String, ServiceConfig)| (e.0@, e.1@)),
                        seen ==> has_name(prev, name@),
                        !seen ==> forall|m: int| 0 <= m < k ==> #[trigger] prev[m].0 != name@,
                    decreases out@.len() - k,
                {
                    if out[k].0 == *name {
                        assert(prev[k as int].0 == name@);
                        seen = true;
                    }
                    k += 1;
                }
                if seen {
                    skipped.push(name.clone());
                    proof {
                        assert(skipped@.map_values(|a: String| a@) =~= dropped_services(
                            entries.take(j + 1),
                        ));
                    }
                } else {
                    proof {
                        assert(!has_name(prev, name@));
                    }
                    out.push((name.clone(), c));
                    proof {
                        assert(out@.map_values(|e: (String, ServiceConfig)| (e.0@, e.1@)) =~= prev.push(
                            (name@, c@),
                        ));
                    }
                }
            },
            None => {
                skipped.push(name.clone());
                proof {
                    assert(skipped@.map_values(|a: String| a@) =~= dropped_services(
                        entries.take(j + 1),
                    ));
                }
            },
        }
        j += 1;
    }
    assert(entries.take(j as int) == entries);
    let config = Config { aliases: kept, services: out };
    Snapshot { config, dropped_aliases: dropped, dropped_services: skipped }
}

} // verus!
