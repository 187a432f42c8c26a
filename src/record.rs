//! Resource records waiting to be published.
use crate::name::NameBuf;
use crate::rdata::RecordData;
use crate::types::Ttl;
use vstd::prelude::*;

verus! {

/// One resource record: an owner name, a time-to-live and its data.
#[derive(Debug)]
pub struct Record<D: RecordData> {
    pub name: NameBuf,
    pub ttl: Ttl,
    pub data: D,
}

impl<D: RecordData> Record<D> {
    pub fn new(name: NameBuf, ttl: Ttl, data: D) -> (r: Record<D>)
        ensures
            r.name == name,
            r.ttl == ttl,
            r.data == data,
    {
        Record { name, ttl, data }
    }
}

} // verus!
