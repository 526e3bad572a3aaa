//! Resource records as a DNS answer carries them, reduced to what the
//! library reads: the owner name and, for the two types it asks for, the
//! payload.

use crate::ipv4::Ipv4;
use vstd::prelude::*;
use vstd::string::*;

verus! {

/// The record types that a query can ask for.
#[derive(Clone, Copy, Debug, PartialEq, Eq, Structural)]
pub enum RecordType {
    /// A name server that is authoritative for a zone.
    NS,
    /// An IPv4 address.
    A,
}

impl RecordType {
    /// The type's name as it is written in messages.
    pub open spec fn name(self) -> Seq<char> {
        match self {
            RecordType::NS => "NS"@,
            RecordType::A => "A"@,
        }
    }

    /// The type's name as it is written in messages.
    pub fn as_str(&self) -> (s: &'static str)
        ensures
            s@ == self.name(),
    {
        match self {
            RecordType::NS => "NS",
            RecordType::A => "A",
        }
    }
}

/// What a record holds. Its type is the variant: a record of any type that
/// is never asked for is `Other`, whatever it carries.
#[derive(Debug, PartialEq, Eq)]
pub enum RecordData {
    /// The host name of a name server.
    NS(String),
    /// An IPv4 address.
    A(Ipv4),
    /// A record of another type, such as a link in a CNAME chain.
    Other,
}

/// A [`RecordData`] as a mathematical value.
pub ghost enum RecordDataView {
    NS(Seq<char>),
    A(Ipv4),
    Other,
}

impl View for RecordData {
    type V = RecordDataView;

    open spec fn view(&self) -> RecordDataView {
        match self {
            RecordData::NS(host) => RecordDataView::NS(host@),
            RecordData::A(ip) => RecordDataView::A(*ip),
            RecordData::Other => RecordDataView::Other,
        }
    }
}

impl Clone for RecordData {
    fn clone(&self) -> (out: RecordData)
        ensures
            out == *self,
    {
        match self {
            RecordData::NS(host) => RecordData::NS(host.clone()),
            RecordData::A(ip) => RecordData::A(*ip),
            RecordData::Other => RecordData::Other,
        }
    }
}

/// One record of an answer: the fully-qualified name that owns it, and what
/// it holds.
#[derive(Debug, PartialEq, Eq)]
pub struct ResourceRecord {
    pub owner: String,
    pub data: RecordData,
}

/// A [`ResourceRecord`] as a mathematical value.
pub ghost struct ResourceRecordView {
    pub owner: Seq<char>,
    pub data: RecordDataView,
}

impl ResourceRecordView {
    /// The record's type, where it is one that a query can ask for.
    pub open spec fn rr_type(self) -> Option<RecordType> {
        match self.data {
            RecordDataView::NS(_) => Some(RecordType::NS),
            RecordDataView::A(_) => Some(RecordType::A),
            RecordDataView::Other => None,
        }
    }

    /// The record is of type `rr_type`.
    pub open spec fn has_type(self, rr_type: RecordType) -> bool {
        self.rr_type() == Some(rr_type)
    }
}

impl View for ResourceRecord {
    type V = ResourceRecordView;

    open spec fn view(&self) -> ResourceRecordView {
        ResourceRecordView { owner: self.owner@, data: self.data@ }
    }
}

impl DeepView for ResourceRecord {
    type V = ResourceRecordView;

    open spec fn deep_view(&self) -> ResourceRecordView {
        self@
    }
}

impl Clone for ResourceRecord {
    fn clone(&self) -> (out: ResourceRecord)
        ensures
            out == *self,
    {
        ResourceRecord { owner: self.owner.clone(), data: self.data.clone() }
    }
}

impl ResourceRecord {
    /// An NS record: `owner` is served by the name server `host`.
    pub fn ns(owner: &str, host: &str) -> (record: ResourceRecord)
        ensures
            record@ == (ResourceRecordView { owner: owner@, data: RecordDataView::NS(host@) }),
    {
        ResourceRecord {
            owner: String::from_str(owner),
            data: RecordData::NS(String::from_str(host)),
        }
    }

    /// An A record: `owner` has the address `ip`.
    pub fn a(owner: &str, ip: Ipv4) -> (record: ResourceRecord)
        ensures
            record@ == (ResourceRecordView { owner: owner@, data: RecordDataView::A(ip) }),
    {
        ResourceRecord { owner: String::from_str(owner), data: RecordData::A(ip) }
    }

    /// A record of a type that is never asked for.
    pub fn other(owner: &str) -> (record: ResourceRecord)
        ensures
            record@ == (ResourceRecordView { owner: owner@, data: RecordDataView::Other }),
    {
        ResourceRecord { owner: String::from_str(owner), data: RecordData::Other }
    }

    /// The name that owns the record.
    pub fn name(&self) -> (owner: &str)
        ensures
            owner@ == self@.owner,
    {
        self.owner.as_str()
    }

    /// The record's type, where it is one that a query can ask for.
    pub fn rr_type(&self) -> (t: Option<RecordType>)
        ensures
            t == self@.rr_type(),
    {
        match &self.data {
            RecordData::NS(_) => Some(RecordType::NS),
            RecordData::A(_) => Some(RecordType::A),
            RecordData::Other => None,
        }
    }

    /// Whether the record is of type `rr_type`.
    pub fn has_type(&self, rr_type: RecordType) -> (b: bool)
        ensures
            b == self@.has_type(rr_type),
    {
        match (&self.data, rr_type) {
            (RecordData::NS(_), RecordType::NS) => true,
            (RecordData::A(_), RecordType::A) => true,
            _ => false,
        }
    }
}

/// The name server that an NS record names; `None` for any other record.
pub fn ns_of_record(record: &ResourceRecord) -> (host: Option<String>)
    ensures
        match host {
            Some(h) => record@.data == RecordDataView::NS(h@),
            None => !record@.has_type(RecordType::NS),
        },
{
    match &record.data {
        RecordData::NS(host) => Some(host.clone()),
        _ => None,
    }
}

/// The address that an A record holds; `None` for any other record.
pub fn ipv4_of_record(record: &ResourceRecord) -> (ip: Option<Ipv4>)
    ensures
        match ip {
            Some(ip) => record@.data == RecordDataView::A(ip),
            None => !record@.has_type(RecordType::A),
        },
{
    match &record.data {
        RecordData::A(ip) => Some(*ip),
        _ => None,
    }
}

} // verus!
