//! Record reconciliation: the name to ask for, the comparison of what is
//! there with what is wanted, and the write that brings the two together.

use crate::gandi_client::Ttl;
use crate::ipv4::Ipv4;
use crate::text::{ends_in, trim_end_matches, without_trailing};
use vstd::prelude::*;
use vstd::string::*;

verus! {

/// The time to live, in seconds, of every record that is written.
pub const UPDATE_TTL_SECS: u64 = 300;

/// The fully-qualified name of the record `record` in the zone `zone`: the
/// two with one dot between them.
pub open spec fn record_fqdn(record: Seq<char>, zone: Seq<char>) -> Seq<char> {
    record + seq!['.'] + zone
}

/// In `s`, a dot stands at `i` and another one right after it.
pub open spec fn double_dot_at(s: Seq<char>, i: int) -> bool {
    0 <= i < s.len() - 1 && s[i] == '.' && s[i + 1] == '.'
}

/// Somewhere in `s` a dot follows a dot.
pub open spec fn has_double_dot(s: Seq<char>) -> bool {
    exists|i: int| double_dot_at(s, i)
}

/// The fully-qualified name of the record `record` in the zone `zone`.
pub fn dynamic_record_name(record: &str, zone: &str) -> (name: String)
    ensures
        name@ == record_fqdn(record@, zone@),
{
    proof {
        reveal_strlit(".");
    }
    let mut name = String::from_str(record);
    assert("."@ =~= seq!['.']);
    name.append(".");
    name.append(zone);
    name
}

/// What the comparison of one record came to.
#[derive(Clone, Copy, Debug, PartialEq, Eq, Structural)]
pub struct ReconciliationOutcome {
    /// The address that the record should hold.
    pub desired: Ipv4,
    /// The address that the authoritative server gave for it.
    pub observed: Ipv4,
    /// Whether the record has to be written.
    pub update_required: bool,
}

/// The outcome for a record that holds `observed` and should hold
/// `desired`: it has to be written exactly if the two differ.
pub open spec fn outcome_of(observed: Ipv4, desired: Ipv4) -> ReconciliationOutcome {
    ReconciliationOutcome { desired, observed, update_required: observed != desired }
}

/// Compares what a record holds with what it should hold.
pub fn reconcile(observed: Ipv4, desired: Ipv4) -> (outcome: ReconciliationOutcome)
    ensures
        outcome == outcome_of(observed, desired),
{
    ReconciliationOutcome { desired, observed, update_required: observed != desired }
}

/// One write to the update sink: the zone without the dot at its end, the
/// bare name of the record, the address as text, and the time to live.
#[derive(Debug, PartialEq, Eq)]
pub struct SinkCall {
    pub domain: String,
    pub name: String,
    pub value: String,
    pub ttl: Ttl,
}

/// A [`SinkCall`] as a mathematical value.
pub ghost struct SinkCallView {
    pub domain: Seq<char>,
    pub name: Seq<char>,
    pub value: Seq<char>,
    pub ttl: Ttl,
}

impl View for SinkCall {
    type V = SinkCallView;

    open spec fn view(&self) -> SinkCallView {
        SinkCallView { domain: self.domain@, name: self.name@, value: self.value@, ttl: self.ttl }
    }
}

impl SinkCallView {
    /// The write that sets the record `record` of the zone `zone` to
    /// `desired`.
    pub open spec fn update(zone: Seq<char>, record: Seq<char>, desired: Ipv4) -> SinkCallView {
        SinkCallView {
            domain: without_trailing(zone, '.'),
            name: record,
            value: desired.text(),
            ttl: Ttl { secs: 300 },
        }
    }
}

impl SinkCall {
    /// The write that sets the record `record` of the zone `zone` to
    /// `desired`.
    pub fn update(zone: &str, record: &str, desired: Ipv4) -> (call: SinkCall)
        ensures
            call@ == SinkCallView::update(zone@, record@, desired),
    {
        SinkCall {
            domain: trim_end_matches(zone, '.'),
            name: String::from_str(record),
            value: desired.to_string(),
            ttl: Ttl::from_secs(UPDATE_TTL_SECS),
        }
    }
}

/// A record's fully-qualified name is the record's name, one dot and the
/// zone, in this order and with nothing else. A dot follows a dot in it only
/// where one does so in the record's name or in the zone, where the record's
/// name ends with a dot, or where the zone begins with one.
pub proof fn lemma_record_fqdn(record: Seq<char>, zone: Seq<char>)
    ensures
        ({
            let name = record_fqdn(record, zone);
            &&& name.len() == record.len() + 1 + zone.len()
            &&& name.take(record.len() as int) == record
            &&& name[record.len() as int] == '.'
            &&& name.skip(record.len() as int + 1) == zone
            &&& ends_in(zone, '.') ==> ends_in(name, '.')
            &&& has_double_dot(name) <==> {
                ||| has_double_dot(record)
                ||| has_double_dot(zone)
                ||| ends_in(record, '.')
                ||| (zone.len() > 0 && zone[0] == '.')
            }
        }),
{
    let name = record_fqdn(record, zone);
    let n = record.len() as int;
    assert(name.take(n) =~= record);
    assert(name.skip(n + 1) =~= zone);
    if has_double_dot(name) {
        let i = choose|i: int| double_dot_at(name, i);
        if i + 1 < n {
            assert(double_dot_at(record, i));
        } else if i + 1 == n {
            assert(record[i] == '.');
        } else if i == n {
            assert(zone[0] == '.');
        } else {
            assert(double_dot_at(zone, i - n - 1));
        }
    }
    if has_double_dot(record) {
        let i = choose|i: int| double_dot_at(record, i);
        assert(double_dot_at(name, i));
    }
    if has_double_dot(zone) {
        let i = choose|i: int| double_dot_at(zone, i);
        assert(double_dot_at(name, n + 1 + i));
    }
    if ends_in(record, '.') {
        assert(double_dot_at(name, n - 1));
    }
    if zone.len() > 0 && zone[0] == '.' {
        assert(double_dot_at(name, n));
    }
}

/// In a zone that ends with a dot, a record's fully-qualified name ends with
/// a dot and holds no dot after a dot, as long as neither its own name nor
/// the zone holds one, its own name does not end with a dot and the zone
/// does not begin with one.
pub proof fn lemma_no_double_dot(record: Seq<char>, zone: Seq<char>)
    requires
        ends_in(zone, '.'),
        zone[0] != '.',
        !ends_in(record, '.'),
        !has_double_dot(record),
        !has_double_dot(zone),
    ensures
        !has_double_dot(record_fqdn(record, zone)),
        ends_in(record_fqdn(record, zone), '.'),
{
    lemma_record_fqdn(record, zone);
}

} // verus!
