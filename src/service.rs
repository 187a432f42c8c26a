//! DNS-SD service types, transport protocols and service descriptions.
use vstd::prelude::*;
use vstd::string::StrSliceExecFns;
use vstd::string::StringExecFns;
use vstd::string::StringSliceAdditionalSpecFns;
use vstd::utf8::encode_utf8;
use crate::text::{decimal, push_decimal};

verus! {

/// Service type tokens are shorter than this many bytes.
pub const KIND_LIMIT: usize = 64;

/// Why a service type was rejected.
#[derive(Clone, Copy, PartialEq, Eq, Structural, Debug, Hash)]
pub enum ServiceError {
    /// More than 63 bytes.
    LongKind,
    /// Empty.
    ShortKind,
    /// A character other than a lowercase letter or a hyphen.
    InvalidChar,
}

/// Whether `c` has the Unicode Alphabetic property, as std decides it.
pub uninterp spec fn alphabetic_char(c: char) -> bool;

/// Whether `c` has the Unicode Lowercase property, as std decides it.
pub uninterp spec fn lowercase_char(c: char) -> bool;

/// Relies on `char::is_alphabetic`: whether the character is alphabetic.
#[verifier::external_body]
fn char_is_alphabetic(c: char) -> (r: bool)
    ensures
        r == alphabetic_char(c),
{
    c.is_alphabetic()
}

/// Relies on `char::is_lowercase`: whether the character is lowercase.
#[verifier::external_body]
fn char_is_lowercase(c: char) -> (r: bool)
    ensures
        r == lowercase_char(c),
{
    c.is_lowercase()
}

/// Whether `c` may stand in a service type, given whether it is alphabetic
/// and whether it is lowercase.
pub open spec fn kind_char_given(c: char, alphabetic: bool, lowercase: bool) -> bool {
    (alphabetic && lowercase) || c == '-'
}

/// A character that may stand in a service type: a lowercase letter or a hyphen.
pub open spec fn kind_char(c: char) -> bool {
    kind_char_given(c, alphabetic_char(c), lowercase_char(c))
}

/// Whether `c` may stand in a service type, given whether it is alphabetic
/// and whether it is lowercase: a lowercase letter, or a hyphen.
pub fn kind_char_from(c: char, alphabetic: bool, lowercase: bool) -> (r: bool)
    ensures
        r == kind_char_given(c, alphabetic, lowercase),
{
    (alphabetic && lowercase) || c == '-'
}

/// `s` without one leading underscore, if it has one.
pub open spec fn strip_underscore(s: Seq<char>) -> Seq<char> {
    if s.len() > 0 && s[0] == '_' {
        s.drop_first()
    } else {
        s
    }
}

/// What parsing a service type with characters `s`, `byte_len` bytes long in
/// UTF-8, gives.
pub open spec fn parse_kind(s: Seq<char>, byte_len: nat) -> Result<Seq<char>, ServiceError> {
    if s.len() == 0 {
        Err(ServiceError::ShortKind)
    } else if byte_len >= KIND_LIMIT {
        Err(ServiceError::LongKind)
    } else if strip_underscore(s).len() == 0 {
        Err(ServiceError::ShortKind)
    } else if forall|i: int|
        0 <= i < strip_underscore(s).len() ==> kind_char(#[trigger] strip_underscore(s)[i]) {
        Ok(strip_underscore(s))
    } else {
        Err(ServiceError::InvalidChar)
    }
}

/// Whether `c` may stand in a service type.
pub fn is_valid(c: char) -> (r: bool)
    ensures
        r == kind_char(c),
{
    kind_char_from(c, char_is_alphabetic(c), char_is_lowercase(c))
}

/// A validated DNS-SD service type, without its leading underscore.
#[derive(Debug, Hash)]
pub struct ServiceKind(String);

impl View for ServiceKind {
    type V = Seq<char>;

    closed spec fn view(&self) -> Seq<char> {
        self.0@
    }
}

impl ServiceKind {
    #[verifier::type_invariant]
    spec fn inv(self) -> bool {
        &&& 1 <= self.0@.len()
        &&& encode_utf8(self.0@).len() < KIND_LIMIT
        &&& forall|i: int| 0 <= i < self.0@.len() ==> kind_char(#[trigger] self.0@[i])
    }

    /// The service type's text.
    pub fn as_str(&self) -> (r: &str)
        ensures
            r@ == self@,
            1 <= r@.len(),
            r.spec_bytes().len() < KIND_LIMIT,
            forall|i: int| 0 <= i < r@.len() ==> kind_char(#[trigger] r@[i]),
    {
        proof {
            use_type_invariant(self);
        }
        self.0.as_str()
    }

    /// Parses a service type: 1 to 63 bytes, one leading underscore dropped,
    /// then at least one character, lowercase letters and hyphens only.
    pub fn parse(s: &str) -> (r: Result<ServiceKind, ServiceError>)
        ensures
            match r {
                Ok(k) => parse_kind(s@, s.spec_bytes().len()) == Ok::<Seq<char>, ServiceError>(
                    k@,
                ),
                Err(e) => parse_kind(s@, s.spec_bytes().len()) == Err::<Seq<char>, ServiceError>(
                    e,
                ),
            },
    {
        if s.is_empty() {
            return Err(ServiceError::ShortKind);
        }
        if s.as_bytes().len() >= KIND_LIMIT {
            return Err(ServiceError::LongKind);
        }
        let n = s.unicode_len();
        let start: usize = if s.get_char(0) == '_' {
            1
        } else {
            0
        };
        let ghost t = strip_underscore(s@);
        proof {
            assert(t == s@.subrange(start as int, n as int));
            if start == 1 {
                assert(s@.drop_first() == t);
            }
            assert(encode_utf8(t).len() <= s.spec_bytes().len());
        }
        if start == n {
            return Err(ServiceError::ShortKind);
        }
        let mut i: usize = start;
        while i < n
            invariant
                n == s@.len(),
                s@.len() > 0,
                s.spec_bytes().len() < KIND_LIMIT,
                encode_utf8(t).len() < KIND_LIMIT,
                t.len() >= 1,
                start <= i <= n,
                t == strip_underscore(s@),
                t == s@.subrange(start as int, n as int),
                forall|k: int| start <= k < i ==> kind_char(#[trigger] s@[k]),
            decreases n - i,
        {
            let c = s.get_char(i);
            if !is_valid(c) {
                assert(t[i - start] == c);
                return Err(ServiceError::InvalidChar);
            }
            i += 1;
        }
        assert forall|k: int| 0 <= k < t.len() implies kind_char(#[trigger] t[k]) by {
            assert(t[k] == s@[k + start]);
        }
        let body = s.substring_char(start, n);
        Ok(ServiceKind(String::from_str(body)))
    }
}

impl Clone for ServiceKind {
    fn clone(&self) -> (r: Self)
        ensures
            r@ == self@,
    {
        proof {
            use_type_invariant(self);
        }
        ServiceKind(self.0.clone())
    }
}

impl PartialEq for ServiceKind {
    fn eq(&self, other: &ServiceKind) -> (r: bool) {
        self.0 == other.0
    }
}

impl vstd::std_specs::cmp::PartialEqSpecImpl for ServiceKind {
    open spec fn obeys_eq_spec() -> bool {
        true
    }

    open spec fn eq_spec(&self, other: &ServiceKind) -> bool {
        self@ == other@
    }
}

impl Eq for ServiceKind {

}

impl core::str::FromStr for ServiceKind {
    type Err = ServiceError;

    fn from_str(s: &str) -> (r: Result<ServiceKind, ServiceError>)
        ensures
            match r {
                Ok(k) => parse_kind(s@, s.spec_bytes().len()) == Ok::<Seq<char>, ServiceError>(k@),
                Err(e) => parse_kind(s@, s.spec_bytes().len()) == Err::<Seq<char>, ServiceError>(e),
            },
    {
        ServiceKind::parse(s)
    }
}

/// Transport protocol of a service.
#[derive(Clone, Copy, PartialEq, Eq, Structural, Debug, Hash)]
pub enum TransportProtocol {
    Tcp,
    Udp,
}

impl TransportProtocol {
    /// The protocol's lowercase name.
    pub open spec fn text(self) -> Seq<char> {
        match self {
            TransportProtocol::Tcp => seq!['t', 'c', 'p'],
            TransportProtocol::Udp => seq!['u', 'd', 'p'],
        }
    }

    /// The protocol's lowercase name.
    pub fn as_str(&self) -> (r: &'static str)
        ensures
            r@ == self.text(),
    {
        proof {
            reveal_strlit("tcp");
            reveal_strlit("udp");
        }
        match self {
            TransportProtocol::Tcp => "tcp",
            TransportProtocol::Udp => "udp",
        }
    }

    /// The protocol named exactly `s`; otherwise `s` itself as the error.
    pub fn parse(s: &str) -> (r: Result<TransportProtocol, String>)
        ensures
            s@ == seq!['t', 'c', 'p'] ==> r == Ok::<TransportProtocol, String>(
                TransportProtocol::Tcp,
            ),
            s@ == seq!['u', 'd', 'p'] ==> r == Ok::<TransportProtocol, String>(
                TransportProtocol::Udp,
            ),
            s@ != seq!['t', 'c', 'p'] && s@ != seq!['u', 'd', 'p'] ==> (r matches Err(e) && e@
                == s@),
    {
        if s.unicode_len() == 3 {
            let a = s.get_char(0);
            let b = s.get_char(1);
            let c = s.get_char(2);
            if a == 't' && b == 'c' && c == 'p' {
                assert(s@ == seq!['t', 'c', 'p']);
                return Ok(TransportProtocol::Tcp);
            }
            if a == 'u' && b == 'd' && c == 'p' {
                assert(s@ == seq!['u', 'd', 'p']);
                return Ok(TransportProtocol::Udp);
            }
        }
        Err(String::from_str(s))
    }
}

impl core::str::FromStr for TransportProtocol {
    type Err = String;

    fn from_str(s: &str) -> (r: Result<TransportProtocol, String>)
        ensures
            s@ == seq!['t', 'c', 'p'] ==> r == Ok::<TransportProtocol, String>(
                TransportProtocol::Tcp,
            ),
            s@ == seq!['u', 'd', 'p'] ==> r == Ok::<TransportProtocol, String>(
                TransportProtocol::Udp,
            ),
            s@ != seq!['t', 'c', 'p'] && s@ != seq!['u', 'd', 'p'] ==> (r matches Err(e) && e@
                == s@),
    {
        TransportProtocol::parse(s)
    }
}

/// A service advertisement: an instance name, its service types (the primary
/// one first, then the sub-types) and where it listens.
#[derive(Debug)]
pub struct Service {
    pub name: String,
    pub kinds: Vec<ServiceKind>,
    pub protocol: TransportProtocol,
    pub port: u16,
}

/// What a service states: its name, the text of its kinds, protocol and port.
pub struct ServiceView {
    pub name: Seq<char>,
    pub kinds: Seq<Seq<char>>,
    pub protocol: TransportProtocol,
    pub port: u16,
}

impl View for Service {
    type V = ServiceView;

    open spec fn view(&self) -> ServiceView {
        ServiceView {
            name: self.name@,
            kinds: self.kinds@.map_values(|k: ServiceKind| k@),
            protocol: self.protocol,
            port: self.port,
        }
    }
}

/// The DNS-SD type of a service with primary kind `kind`: `_<kind>._<protocol>`.
pub open spec fn service_type_text(kind: Seq<char>, protocol: TransportProtocol) -> Seq<char> {
    seq!['_'] + kind + seq!['.', '_'] + protocol.text()
}

/// A service as one line of text: `<name> { Type: <type>, Port: <port> }`.
pub open spec fn service_line(v: ServiceView) -> Seq<char> {
    v.name + seq![' ', '{', ' ', 'T', 'y', 'p', 'e', ':', ' '] + service_type_text(
        v.kinds[0],
        v.protocol,
    ) + seq![',', ' ', 'P', 'o', 'r', 't', ':', ' '] + decimal(v.port as nat) + seq![' ', '}']
}

impl Service {
    /// The service as one line of text: `<name> { Type: <type>, Port: <port> }`.
    pub fn describe(&self) -> (r: String)
        requires
            self.kinds@.len() >= 1,
        ensures
            r@ == service_line(self@),
    {
        let open = " { Type: ";
        let mid = ", Port: ";
        let close = " }";
        proof {
            reveal_strlit(" { Type: ");
            reveal_strlit(", Port: ");
            reveal_strlit(" }");
            assert(open@ =~= seq![' ', '{', ' ', 'T', 'y', 'p', 'e', ':', ' ']);
            assert(mid@ =~= seq![',', ' ', 'P', 'o', 'r', 't', ':', ' ']);
            assert(close@ =~= seq![' ', '}']);
        }
        let mut r = self.name.clone();
        r.append(open);
        let ty = self.service_type();
        r.append(ty.as_str());
        r.append(mid);
        push_decimal(&mut r, self.port as u32);
        r.append(close);
        r
    }

    /// A service with a single kind.
    pub fn new(name: String, kind: ServiceKind, protocol: TransportProtocol, port: u16) -> (r:
        Service)
        ensures
            r.name == name,
            r.kinds@ == seq![kind],
            r.protocol == protocol,
            r.port == port,
    {
        Service { name, kinds: vec![kind], protocol, port }
    }

    /// A service with a primary kind followed by sub-kinds.
    pub fn with_sub_kinds(
        name: String,
        kinds: Vec<ServiceKind>,
        protocol: TransportProtocol,
        port: u16,
    ) -> (r: Service)
        requires
            kinds@.len() >= 1,
        ensures
            r.name == name,
            r.kinds == kinds,
            r.protocol == protocol,
            r.port == port,
    {
        Service { name, kinds, protocol, port }
    }

    /// The DNS-SD type advertised for the primary kind, `_<kind>._<protocol>`.
    pub fn service_type(&self) -> (r: String)
        requires
            self.kinds@.len() >= 1,
        ensures
            r@ == service_type_text(self.kinds@[0]@, self.protocol),
    {
        proof {
            reveal_strlit("_");
            reveal_strlit("._");
        }
        let mut r = String::from_str("_");
        r.append(self.kinds[0].as_str());
        r.append("._");
        r.append(self.protocol.as_str());
        r
    }

    /// The sub-type registered for the kind at `i`, `_<kind>`.
    pub fn sub_type(&self, i: usize) -> (r: String)
        requires
            i < self.kinds@.len(),
        ensures
            r@ == seq!['_'] + self.kinds@[i as int]@,
    {
        proof {
            reveal_strlit("_");
        }
        let mut r = String::from_str("_");
        r.append(self.kinds[i].as_str());
        r
    }
}

impl Clone for Service {
    fn clone(&self) -> (r: Self)
        ensures
            r@ == self@,
    {
        let mut kinds: Vec<ServiceKind> = Vec::new();
        let mut i: usize = 0;
        while i < self.kinds.len()
            invariant
                i <= self.kinds@.len(),
                kinds@.len() == i,
                forall|k: int| 0 <= k < i ==> #[trigger] kinds@[k]@ == self.kinds@[k]@,
            decreases self.kinds@.len() - i,
        {
            kinds.push(self.kinds[i].clone());
            i += 1;
        }
        let r = Service { name: self.name.clone(), kinds, protocol: self.protocol, port: self.port };
        assert(r@.kinds == self@.kinds);
        r
    }
}

} // verus!
