//! Record data: what a record type places in the record-data field.
use crate::name::{Name, NameBuf, NameError, parse_bytes, name_text};
use crate::types::DnsType;
use vstd::prelude::*;
use vstd::string::StringSliceAdditionalSpecFns;

verus! {

/// A kind of record data: its DNS record type and the bytes it puts on the wire.
pub trait RecordData {
    /// The record type of this kind of data.
    spec fn record_type() -> DnsType;

    /// The record-data bytes.
    spec fn rdata(&self) -> Seq<u8>;

    /// The record type of this kind of data.
    fn kind() -> (r: DnsType)
        ensures
            r == Self::record_type(),
    ;

    /// The record-data bytes.
    fn as_rdata(&self) -> (r: &[u8])
        ensures
            r@ == self.rdata(),
    ;
}

/// Canonical-name data: the name that an alias points to.
#[derive(Debug, Hash)]
pub struct Cname(pub NameBuf);

impl View for Cname {
    type V = Seq<u8>;

    open spec fn view(&self) -> Seq<u8> {
        self.0@
    }
}

impl Cname {
    /// The target name.
    pub fn as_name(&self) -> (r: Name<'_>)
        ensures
            r@ == self@,
    {
        self.0.as_name()
    }

    /// The data pointing at `name`.
    pub fn new(name: NameBuf) -> (r: Cname)
        ensures
            r@ == name@,
    {
        Cname(name)
    }

    /// Parses the dotted target name.
    pub fn parse(s: &str) -> (r: Result<Cname, NameError>)
        ensures
            match r {
                Ok(c) => parse_bytes(s.spec_bytes()) == Ok::<Seq<u8>, NameError>(c@),
                Err(e) => parse_bytes(s.spec_bytes()) == Err::<Seq<u8>, NameError>(e),
            },
    {
        match NameBuf::parse(s) {
            Ok(n) => Ok(Cname(n)),
            Err(e) => Err(e),
        }
    }

    /// The dotted text of the target name.
    pub fn to_string(&self) -> (r: String)
        ensures
            r@ == name_text(self@),
    {
        self.0.to_string()
    }
}

impl Clone for Cname {
    fn clone(&self) -> (r: Self)
        ensures
            r@ == self@,
    {
        Cname(self.0.clone())
    }
}

impl From<NameBuf> for Cname {
    fn from(value: NameBuf) -> (r: Cname)
        ensures
            r@ == value@,
    {
        Cname(value)
    }
}

impl vstd::std_specs::convert::FromSpecImpl<NameBuf> for Cname {
    open spec fn obeys_from_spec() -> bool {
        true
    }

    open spec fn from_spec(v: NameBuf) -> Cname {
        Cname(v)
    }
}

impl core::str::FromStr for Cname {
    type Err = NameError;

    fn from_str(s: &str) -> (r: Result<Cname, NameError>)
        ensures
            match r {
                Ok(c) => parse_bytes(s.spec_bytes()) == Ok::<Seq<u8>, NameError>(c@),
                Err(e) => parse_bytes(s.spec_bytes()) == Err::<Seq<u8>, NameError>(e),
            },
    {
        Cname::parse(s)
    }
}

impl RecordData for Cname {
    open spec fn record_type() -> DnsType {
        DnsType::CNAME
    }

    open spec fn rdata(&self) -> Seq<u8> {
        self.0@
    }

    fn kind() -> (r: DnsType) {
        DnsType::CNAME
    }

    fn as_rdata(&self) -> (r: &[u8]) {
        self.0.as_slice()
    }
}

} // verus!
