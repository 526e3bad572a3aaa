//! What the two discoveries ask and what they read from the answers: the
//! caller's public address, found through a resolver that echoes it, and
//! the authoritative name server of a zone, found through its NS record.

use crate::error::{AppError, AppErrorView, ErrorKind};
use crate::ipv4::Ipv4;
use crate::record::{ipv4_of_record, ns_of_record, RecordDataView, RecordType};
use crate::reconcile::{dynamic_record_name, record_fqdn};
use crate::resolver::{
    dns_lookup, lemma_lookup_result, lookup_result, Answer, AnswerView, Query, QueryView,
    ResolverConfig, ResolverConfigView,
};
use vstd::prelude::*;
use vstd::string::*;

verus! {

/// The host whose address is that of a server which answers a query for
/// [`ECHO_HOST`] with the address that the query came from.
pub const ECHO_RESOLVER_HOST: &'static str = "resolver1.opendns.com.";

/// The name that the echoing server answers with the asker's own address.
pub const ECHO_HOST: &'static str = "myip.opendns.com";

/// The owner and the address of the first A record of an answer, or why
/// there is none to be had.
pub open spec fn address_of(answer: AnswerView) -> Result<(Seq<char>, Ipv4), AppErrorView> {
    match lookup_result(answer, RecordType::A) {
        Err(e) => Err(e),
        Ok(record) => match record.data {
            RecordDataView::A(ip) => Ok((record.owner, ip)),
            _ => Err(AppErrorView { kind: ErrorKind::NotFound, msg: "No IPv4 record found"@ }),
        },
    }
}

/// The owner of the first NS record of an answer and the name server that
/// it names, or why there is none to be had.
pub open spec fn name_server_of(answer: AnswerView) -> Result<
    (Seq<char>, Seq<char>),
    AppErrorView,
> {
    match lookup_result(answer, RecordType::NS) {
        Err(e) => Err(e),
        Ok(record) => match record.data {
            RecordDataView::NS(host) => Ok((record.owner, host)),
            _ => Err(AppErrorView { kind: ErrorKind::NotFound, msg: "No NS record found"@ }),
        },
    }
}

/// What a lookup finds is of the type asked for: the first A record holds
/// an address and the first NS record names a name server, so either lookup
/// fails only as the lookup for the record fails, and with that failure.
pub proof fn lemma_lookups_are_typed(answer: AnswerView)
    ensures
        match lookup_result(answer, RecordType::A) {
            Ok(record) => record.data is A && address_of(answer) == Ok::<_, AppErrorView>(
                (record.owner, record.data->A_0),
            ),
            Err(e) => address_of(answer) == Err::<(Seq<char>, Ipv4), _>(e),
        },
        match lookup_result(answer, RecordType::NS) {
            Ok(record) => record.data is NS && name_server_of(answer) == Ok::<_, AppErrorView>(
                (record.owner, record.data->NS_0),
            ),
            Err(e) => name_server_of(answer) == Err::<(Seq<char>, Seq<char>), _>(e),
        },
{
    lemma_lookup_result(answer, RecordType::A);
    lemma_lookup_result(answer, RecordType::NS);
}

/// The owner and the address of the first A record of an answer.
pub fn lookup_address(answer: &Answer) -> (r: Result<(String, Ipv4), AppError>)
    ensures
        match r {
            Ok((owner, ip)) => address_of(answer@) == Ok::<_, AppErrorView>((owner@, ip)),
            Err(e) => address_of(answer@) == Err::<(Seq<char>, Ipv4), _>(e@),
        },
{
    match dns_lookup(answer, RecordType::A) {
        Err(e) => Err(e),
        Ok(record) => match ipv4_of_record(&record) {
            Some(ip) => Ok((record.owner, ip)),
            None => Err(AppError::new(ErrorKind::NotFound, "No IPv4 record found")),
        },
    }
}

/// The owner of the first NS record of an answer, and the name server that
/// it names.
pub fn lookup_name_server(answer: &Answer) -> (r: Result<(String, String), AppError>)
    ensures
        match r {
            Ok((owner, host)) => name_server_of(answer@) == Ok::<_, AppErrorView>(
                (owner@, host@),
            ),
            Err(e) => name_server_of(answer@) == Err::<(Seq<char>, Seq<char>), _>(e@),
        },
{
    match dns_lookup(answer, RecordType::NS) {
        Err(e) => Err(e),
        Ok(record) => match ns_of_record(&record) {
            Some(host) => Ok((record.owner, host)),
            None => Err(AppError::new(ErrorKind::NotFound, "No NS record found")),
        },
    }
}

impl QueryView {
    /// The recursive resolver is asked for the address of the echoing
    /// server.
    pub open spec fn echo_resolver() -> QueryView {
        QueryView {
            resolver: ResolverConfigView::recursive(),
            name: ECHO_RESOLVER_HOST@,
            rr_type: RecordType::A,
        }
    }

    /// The echoing server at `addr`, known under the name `owner`, is asked
    /// directly for the asker's own address.
    pub open spec fn echo(addr: Ipv4, owner: Seq<char>) -> QueryView {
        QueryView {
            resolver: ResolverConfigView::single_server(addr, owner),
            name: ECHO_HOST@,
            rr_type: RecordType::A,
        }
    }

    /// The recursive resolver is asked for a name server of `domain`.
    pub open spec fn name_server(domain: Seq<char>) -> QueryView {
        QueryView {
            resolver: ResolverConfigView::recursive(),
            name: domain,
            rr_type: RecordType::NS,
        }
    }

    /// The recursive resolver is asked for the address of the name server
    /// `host`.
    pub open spec fn name_server_addr(host: Seq<char>) -> QueryView {
        QueryView {
            resolver: ResolverConfigView::recursive(),
            name: host,
            rr_type: RecordType::A,
        }
    }

    /// The authoritative server of `zone`, at `addr`, is asked directly for
    /// the address that the record `record` of the zone holds.
    pub open spec fn current(addr: Ipv4, zone: Seq<char>, record: Seq<char>) -> QueryView {
        QueryView {
            resolver: ResolverConfigView::single_server(addr, zone),
            name: record_fqdn(record, zone),
            rr_type: RecordType::A,
        }
    }
}

impl Query {
    /// The first query of the discovery of the caller's address.
    pub fn echo_resolver() -> (query: Query)
        ensures
            query@ == QueryView::echo_resolver(),
    {
        Query {
            resolver: ResolverConfig::recursive(),
            name: String::from_str(ECHO_RESOLVER_HOST),
            rr_type: RecordType::A,
        }
    }

    /// The second query of the discovery of the caller's address, to the
    /// echoing server that the first one found.
    pub fn echo(addr: Ipv4, owner: &str) -> (query: Query)
        ensures
            query@ == QueryView::echo(addr, owner@),
    {
        Query {
            resolver: ResolverConfig::single_server(addr, owner),
            name: String::from_str(ECHO_HOST),
            rr_type: RecordType::A,
        }
    }

    /// The first query of the discovery of a zone's authoritative server.
    pub fn name_server(domain: &str) -> (query: Query)
        ensures
            query@ == QueryView::name_server(domain@),
    {
        Query {
            resolver: ResolverConfig::recursive(),
            name: String::from_str(domain),
            rr_type: RecordType::NS,
        }
    }

    /// The second query of the discovery of a zone's authoritative server.
    pub fn name_server_addr(host: &str) -> (query: Query)
        ensures
            query@ == QueryView::name_server_addr(host@),
    {
        Query {
            resolver: ResolverConfig::recursive(),
            name: String::from_str(host),
            rr_type: RecordType::A,
        }
    }

    /// The query for what a record holds now, to the authoritative server.
    pub fn current(addr: Ipv4, zone: &str, record: &str) -> (query: Query)
        ensures
            query@ == QueryView::current(addr, zone@, record@),
    {
        Query {
            resolver: ResolverConfig::single_server(addr, zone),
            name: dynamic_record_name(record, zone),
            rr_type: RecordType::A,
        }
    }
}

} // verus!
