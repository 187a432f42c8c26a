//! Value types shared with the responder's control interface.
use vstd::prelude::*;

verus! {

/// Seconds in one minute.
pub const SECS_PER_MINUTE: u32 = 60;

/// Seconds in one hour.
pub const SECS_PER_HOUR: u32 = 3600;

/// Seconds in one day.
pub const SECS_PER_DAY: u32 = 86400;

/// The practical upper bound on a time-to-live, one week.
pub const TTL_CAP_SECS: u32 = 604_800;

/// Network protocol selector of the responder.
#[derive(Clone, Copy, PartialEq, Eq, Structural, Debug, Hash)]
pub enum Protocol {
    Unspec,
    Inet,
    Inet6,
}

impl Protocol {
    pub open spec fn spec_code(self) -> int {
        match self {
            Protocol::Unspec => -1,
            Protocol::Inet => 0,
            Protocol::Inet6 => 1,
        }
    }

    /// The integer that stands for this protocol on the control interface.
    pub fn code(&self) -> (r: i32)
        ensures
            r == self.spec_code(),
    {
        match self {
            Protocol::Unspec => -1,
            Protocol::Inet => 0,
            Protocol::Inet6 => 1,
        }
    }
}

/// Index of a network interface.
#[derive(Clone, Copy, PartialEq, Eq, Structural, Debug, Hash)]
pub struct InterfaceIndex(pub u16);

impl InterfaceIndex {
    /// The integer that stands for "no interface" (all interfaces).
    pub fn null_value() -> (r: i32)
        ensures
            r == -1,
    {
        -1
    }

    /// The index held by a raw interface number, if it is one.
    pub fn from_raw(value: i32) -> (r: Option<InterfaceIndex>)
        ensures
            r == (if 0 <= value <= u16::MAX {
                Some(InterfaceIndex(value as u16))
            } else {
                None
            }),
    {
        if 0 <= value && value <= 65535 {
            Some(InterfaceIndex(value as u16))
        } else {
            None
        }
    }
}

/// State of the responder as a whole.
#[derive(Clone, Copy, PartialEq, Eq, Structural, Debug, Hash)]
pub enum ServerState {
    Invalid,
    Registering,
    Running,
    Collision,
    Failure,
}

/// State of an entry group.
#[derive(Clone, Copy, PartialEq, Eq, Structural, Debug, Hash)]
pub enum EntryGroupState {
    Uncommitted,
    Registering,
    Established,
    Collision,
    Failure,
}

impl ServerState {
    /// The state's name.
    pub open spec fn name_text(self) -> Seq<char> {
        match self {
            ServerState::Invalid => seq!['I', 'n', 'v', 'a', 'l', 'i', 'd'],
            ServerState::Registering => seq!['R', 'e', 'g', 'i', 's', 't', 'e', 'r', 'i', 'n', 'g'],
            ServerState::Running => seq!['R', 'u', 'n', 'n', 'i', 'n', 'g'],
            ServerState::Collision => seq!['C', 'o', 'l', 'l', 'i', 's', 'i', 'o', 'n'],
            ServerState::Failure => seq!['F', 'a', 'i', 'l', 'u', 'r', 'e'],
        }
    }

    /// The state's name.
    pub fn name(&self) -> (r: &'static str)
        ensures
            r@ == self.name_text(),
    {
        proof {
            reveal_strlit("Invalid");
            reveal_strlit("Registering");
            reveal_strlit("Running");
            reveal_strlit("Collision");
            reveal_strlit("Failure");
        }
        let r = match self {
            ServerState::Invalid => "Invalid",
            ServerState::Registering => "Registering",
            ServerState::Running => "Running",
            ServerState::Collision => "Collision",
            ServerState::Failure => "Failure",
        };
        assert(r@ =~= self.name_text());
        r
    }

    /// The state that a raw state number stands for.
    pub fn from_code(code: i32) -> (r: Option<ServerState>)
        ensures
            r == (if code == 0 {
                Some(ServerState::Invalid)
            } else if code == 1 {
                Some(ServerState::Registering)
            } else if code == 2 {
                Some(ServerState::Running)
            } else if code == 3 {
                Some(ServerState::Collision)
            } else if code == 4 {
                Some(ServerState::Failure)
            } else {
                None
            }),
    {
        if code == 0 {
            Some(ServerState::Invalid)
        } else if code == 1 {
            Some(ServerState::Registering)
        } else if code == 2 {
            Some(ServerState::Running)
        } else if code == 3 {
            Some(ServerState::Collision)
        } else if code == 4 {
            Some(ServerState::Failure)
        } else {
            None
        }
    }
}

impl EntryGroupState {
    /// The state that a raw state number stands for.
    pub fn from_code(code: i32) -> (r: Option<EntryGroupState>)
        ensures
            r == (if code == 0 {
                Some(EntryGroupState::Uncommitted)
            } else if code == 1 {
                Some(EntryGroupState::Registering)
            } else if code == 2 {
                Some(EntryGroupState::Established)
            } else if code == 3 {
                Some(EntryGroupState::Collision)
            } else if code == 4 {
                Some(EntryGroupState::Failure)
            } else {
                None
            }),
    {
        if code == 0 {
            Some(EntryGroupState::Uncommitted)
        } else if code == 1 {
            Some(EntryGroupState::Registering)
        } else if code == 2 {
            Some(EntryGroupState::Established)
        } else if code == 3 {
            Some(EntryGroupState::Collision)
        } else if code == 4 {
            Some(EntryGroupState::Failure)
        } else {
            None
        }
    }
}

/// Flags accepted when publishing records.
#[derive(Clone, Copy, Debug)]
pub struct PublishFlags;

impl PublishFlags {
    pub const UNIQUE: i32 = 1;
    pub const NO_PROBE: i32 = 2;
    pub const NO_ANNOUNCE: i32 = 4;
    pub const ALLOW_MULTIPLE: i32 = 8;
    pub const NO_REVERSE: i32 = 16;
    pub const NO_COOKIE: i32 = 32;
    pub const UPDATE: i32 = 64;
    pub const USE_WIDE_AREA: i32 = 128;
    pub const USE_MULTICAST: i32 = 256;
}

/// Flags accepted by lookups.
#[derive(Clone, Copy, Debug)]
pub struct LookupFlags;

impl LookupFlags {
    pub const USE_WIDE_AREA: i32 = 1;
    pub const USE_MULTICAST: i32 = 2;
    pub const NO_TXT: i32 = 4;
    pub const NO_ADDRESS: i32 = 8;
}

/// Flags reported with lookup results.
#[derive(Clone, Copy, Debug)]
pub struct LookupResultFlags;

impl LookupResultFlags {
    pub const CACHED: i32 = 1;
    pub const WIDE_AREA: i32 = 2;
    pub const MULTICAST: i32 = 4;
    pub const LOCAL: i32 = 8;
    pub const OUR_OWN: i32 = 16;
    pub const STATIC: i32 = 32;
}

/// Kind of domain browser.
#[derive(Clone, Copy, PartialEq, Eq, Structural, Debug, Hash)]
pub enum DomainBrowserType {
    Browse,
    BrowseDefault,
    Register,
    RegisterDefault,
    BrowseLegacy,
    Max,
}

/// The answer to a host-name lookup: where it was found, the name, and the
/// address it resolves to.
#[derive(Debug)]
pub struct ResolveHostNameResponse {
    pub interface: Option<InterfaceIndex>,
    pub protocol: Protocol,
    pub name: String,
    pub aprotocol: Protocol,
    pub address: String,
    pub flags: u32,
}

impl Protocol {
    /// The protocol that a raw protocol number stands for.
    pub fn from_code(code: i32) -> (r: Option<Protocol>)
        ensures
            r == (if code == -1 {
                Some(Protocol::Unspec)
            } else if code == 0 {
                Some(Protocol::Inet)
            } else if code == 1 {
                Some(Protocol::Inet6)
            } else {
                None
            }),
    {
        if code == -1 {
            Some(Protocol::Unspec)
        } else if code == 0 {
            Some(Protocol::Inet)
        } else if code == 1 {
            Some(Protocol::Inet6)
        } else {
            None
        }
    }
}

/// DNS record class.
#[derive(Clone, Copy, PartialEq, Eq, Structural, Debug, Hash)]
pub enum DnsClass {
    /// Internet (IN), the one class in practical use.
    IN,
}

impl DnsClass {
    pub open spec fn spec_code(self) -> int {
        1
    }

    /// The class number on the wire.
    pub fn code(&self) -> (r: u16)
        ensures
            r == self.spec_code(),
    {
        1
    }
}

/// DNS record type.
#[derive(Clone, Copy, PartialEq, Eq, Structural, Debug, Hash)]
pub enum DnsType {
    A,
    NS,
    CNAME,
    SOA,
    PTR,
    HINFO,
    MX,
    TXT,
    AAAA,
    SRV,
}

impl DnsType {
    pub open spec fn spec_code(self) -> int {
        match self {
            DnsType::A => 0x01,
            DnsType::NS => 0x02,
            DnsType::CNAME => 0x05,
            DnsType::SOA => 0x06,
            DnsType::PTR => 0x0C,
            DnsType::HINFO => 0x0D,
            DnsType::MX => 0x0F,
            DnsType::TXT => 0x10,
            DnsType::AAAA => 0x1C,
            DnsType::SRV => 0x21,
        }
    }

    /// The type number on the wire.
    pub fn code(&self) -> (r: u16)
        ensures
            r == self.spec_code(),
    {
        match self {
            DnsType::A => 0x01,
            DnsType::NS => 0x02,
            DnsType::CNAME => 0x05,
            DnsType::SOA => 0x06,
            DnsType::PTR => 0x0C,
            DnsType::HINFO => 0x0D,
            DnsType::MX => 0x0F,
            DnsType::TXT => 0x10,
            DnsType::AAAA => 0x1C,
            DnsType::SRV => 0x21,
        }
    }
}

/// A DNS time-to-live, a whole number of seconds.
#[derive(Clone, Copy, PartialEq, Eq, Structural, Debug, Hash)]
pub struct Ttl(pub u32);

impl Ttl {
    pub open spec fn secs(self) -> nat {
        self.0 as nat
    }

    pub fn as_secs(&self) -> (r: u32)
        ensures
            r == self.secs(),
    {
        self.0
    }

    /// Whole minutes, rounded down.
    pub fn as_mins(&self) -> (r: u32)
        ensures
            r == self.secs() / 60,
    {
        self.0 / SECS_PER_MINUTE
    }

    /// Whole hours, rounded down.
    pub fn as_hours(&self) -> (r: u32)
        ensures
            r == self.secs() / 3600,
    {
        self.0 / SECS_PER_HOUR
    }

    /// Whole days, rounded down.
    pub fn as_days(&self) -> (r: u32)
        ensures
            r == self.secs() / 86400,
    {
        self.0 / SECS_PER_DAY
    }

    /// Creates a new `Ttl` from the specified number of seconds.
    pub fn from_secs(secs: u32) -> (r: Ttl)
        ensures
            r.secs() == secs,
    {
        Ttl(secs)
    }

    /// Creates a new `Ttl` from the specified number of minutes; at most 71582788 fit.
    pub fn from_mins(minutes: u32) -> (r: Ttl)
        requires
            minutes <= 71582788,
        ensures
            r.secs() == minutes * 60,
    {
        Ttl(minutes * SECS_PER_MINUTE)
    }

    /// Creates a new `Ttl` from the specified number of hours; at most 1193046 fit.
    pub fn from_hours(hours: u32) -> (r: Ttl)
        requires
            hours <= 1193046,
        ensures
            r.secs() == hours * 3600,
    {
        Ttl(hours * SECS_PER_HOUR)
    }

    /// Creates a new `Ttl` from the specified number of days; at most 49710 fit.
    pub fn from_days(days: u16) -> (r: Ttl)
        requires
            days <= 49710,
        ensures
            r.secs() == days * 86400,
    {
        Ttl(days as u32 * SECS_PER_DAY)
    }

    /// No time to live at all.
    pub fn zero() -> (r: Ttl)
        ensures
            r.secs() == 0,
    {
        Ttl(0)
    }

    /// A time-to-live of one second.
    pub fn second() -> (r: Ttl)
        ensures
            r.secs() == 1,
    {
        Ttl(1)
    }

    /// The longest time-to-live the wire form can carry.
    pub fn max() -> (r: Ttl)
        ensures
            r.secs() == u32::MAX,
    {
        Ttl(u32::MAX)
    }

    /// The usual time-to-live of a record, 75 minutes.
    pub fn default_record() -> (r: Ttl)
        ensures
            r.secs() == 75 * 60,
    {
        Ttl::from_mins(75)
    }

    /// The usual time-to-live of a host-name record, 2 minutes.
    pub fn default_host_name() -> (r: Ttl)
        ensures
            r.secs() == 2 * 60,
    {
        Ttl::from_mins(2)
    }

    /// A time-to-live of one minute.
    pub fn minute() -> (r: Ttl)
        ensures
            r.secs() == 60,
    {
        Ttl(SECS_PER_MINUTE)
    }

    /// A time-to-live of one hour.
    pub fn hour() -> (r: Ttl)
        ensures
            r.secs() == 3600,
    {
        Ttl(SECS_PER_HOUR)
    }

    /// A time-to-live of one day.
    pub fn day() -> (r: Ttl)
        ensures
            r.secs() == 86400,
    {
        Ttl(SECS_PER_DAY)
    }

    /// The practical maximum time-to-live, one week.
    pub fn cap() -> (r: Ttl)
        ensures
            r.secs() == 604_800,
    {
        Ttl(TTL_CAP_SECS)
    }
}

} // verus!
