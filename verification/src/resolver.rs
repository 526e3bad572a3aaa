//! The resolver port: what a DNS query is asked of, what comes back, and
//! which record of an answer is the result of the lookup.
//!
//! The library never sends a query. It says which query to send, as a
//! [`Query`], and is handed what came back, as an [`Answer`] or as the
//! resolver's own result, which [`Answer::from_lookup`] reads.

use crate::error::{resolve_error_text, result_view, AppError, AppErrorView, ErrorKind};
use crate::ipv4::Ipv4;
use crate::record::{RecordData, RecordType, ResourceRecord, ResourceRecordView};
use trust_dns_resolver::error::ResolveError;
use trust_dns_resolver::lookup::Lookup;
use trust_dns_resolver::proto::rr;
use trust_dns_resolver::proto::rr::RData;
use vstd::prelude::*;
use vstd::string::*;

verus! {

/// Seconds after which a DNS query is given up.
pub const DNS_TIMEOUT_SECS: u64 = 15;

/// The port that name servers are asked on, over UDP.
pub const DNS_PORT: u16 = 53;

/// How a resolver asks: how long it waits, and whether it looks into the
/// local hosts file before it asks.
#[derive(Clone, Copy, Debug, PartialEq, Eq, Structural)]
pub struct ResolverOpts {
    pub timeout_secs: u64,
    pub use_hosts_file: bool,
}

/// The options of every resolver of this library: a bounded wait, and no
/// look into the hosts file.
pub fn resolver_opts_with_timeout() -> (options: ResolverOpts)
    ensures
        options == (ResolverOpts { timeout_secs: 15, use_hosts_file: false }),
{
    ResolverOpts { timeout_secs: DNS_TIMEOUT_SECS, use_hosts_file: false }
}

/// How a query travels to a name server.
#[derive(Clone, Copy, Debug, PartialEq, Eq, Structural)]
pub enum Transport {
    Udp,
    Tcp,
}

/// A single name server to ask directly: its IPv4 address, and the domain
/// that names are searched in. It is asked on [`DNS_PORT`], over UDP.
#[derive(Debug, PartialEq, Eq)]
pub struct ServerEndpoint {
    pub addr: Ipv4,
    pub domain: String,
}

/// A [`ServerEndpoint`] as a mathematical value.
pub ghost struct ServerEndpointView {
    pub addr: Ipv4,
    pub domain: Seq<char>,
}

impl View for ServerEndpoint {
    type V = ServerEndpointView;

    open spec fn view(&self) -> ServerEndpointView {
        ServerEndpointView { addr: self.addr, domain: self.domain@ }
    }
}

impl ServerEndpoint {
    /// The server at `addr`, with names searched in `domain`.
    pub fn new(addr: Ipv4, domain: &str) -> (endpoint: ServerEndpoint)
        ensures
            endpoint@ == (ServerEndpointView { addr, domain: domain@ }),
    {
        ServerEndpoint { addr, domain: String::from_str(domain) }
    }

    /// The port that the server is asked on.
    pub fn port(&self) -> (port: u16)
        ensures
            port == 53,
    {
        DNS_PORT
    }

    /// How queries travel to the server.
    pub fn transport(&self) -> (transport: Transport)
        ensures
            transport == Transport::Udp,
    {
        Transport::Udp
    }
}

/// Whom a resolver asks.
#[derive(Debug, PartialEq, Eq)]
pub enum Scope {
    /// The well-known public recursive resolver that every run starts from.
    Recursive,
    /// One server, asked directly and exclusively.
    Server(ServerEndpoint),
}

/// A [`Scope`] as a mathematical value.
pub ghost enum ScopeView {
    Recursive,
    Server(ServerEndpointView),
}

impl View for Scope {
    type V = ScopeView;

    open spec fn view(&self) -> ScopeView {
        match self {
            Scope::Recursive => ScopeView::Recursive,
            Scope::Server(endpoint) => ScopeView::Server(endpoint@),
        }
    }
}

/// A resolver: whom it asks, and how.
#[derive(Debug, PartialEq, Eq)]
pub struct ResolverConfig {
    pub scope: Scope,
    pub options: ResolverOpts,
}

/// A [`ResolverConfig`] as a mathematical value.
pub ghost struct ResolverConfigView {
    pub scope: ScopeView,
    pub options: ResolverOpts,
}

impl View for ResolverConfig {
    type V = ResolverConfigView;

    open spec fn view(&self) -> ResolverConfigView {
        ResolverConfigView { scope: self.scope@, options: self.options }
    }
}

impl ResolverConfigView {
    /// The recursive resolver that every run starts from.
    pub open spec fn recursive() -> ResolverConfigView {
        ResolverConfigView {
            scope: ScopeView::Recursive,
            options: ResolverOpts { timeout_secs: 15, use_hosts_file: false },
        }
    }

    /// The resolver that asks the one server at `addr`.
    pub open spec fn single_server(addr: Ipv4, domain: Seq<char>) -> ResolverConfigView {
        ResolverConfigView {
            scope: ScopeView::Server(ServerEndpointView { addr, domain }),
            options: ResolverOpts { timeout_secs: 15, use_hosts_file: false },
        }
    }
}

impl ResolverConfig {
    /// The recursive resolver that every run starts from.
    pub fn recursive() -> (resolver: ResolverConfig)
        ensures
            resolver@ == ResolverConfigView::recursive(),
    {
        ResolverConfig { scope: Scope::Recursive, options: resolver_opts_with_timeout() }
    }

    /// The resolver that asks the one server at `addr`, with names searched
    /// in `domain`.
    pub fn single_server(addr: Ipv4, domain: &str) -> (resolver: ResolverConfig)
        ensures
            resolver@ == ResolverConfigView::single_server(addr, domain@),
    {
        ResolverConfig {
            scope: Scope::Server(ServerEndpoint::new(addr, domain)),
            options: resolver_opts_with_timeout(),
        }
    }
}

/// One DNS query: to whom, for which name, for which type of record.
#[derive(Debug, PartialEq, Eq)]
pub struct Query {
    pub resolver: ResolverConfig,
    pub name: String,
    pub rr_type: RecordType,
}

/// A [`Query`] as a mathematical value.
pub ghost struct QueryView {
    pub resolver: ResolverConfigView,
    pub name: Seq<char>,
    pub rr_type: RecordType,
}

impl View for Query {
    type V = QueryView;

    open spec fn view(&self) -> QueryView {
        QueryView { resolver: self.resolver@, name: self.name@, rr_type: self.rr_type }
    }
}

/// What came back for a query.
#[derive(Debug, PartialEq, Eq)]
pub enum Answer {
    /// The records of the answer, in the order they came in.
    Records(Vec<ResourceRecord>),
    /// The query failed; the text says how.
    Failed(String),
}

/// An [`Answer`] as a mathematical value.
pub ghost enum AnswerView {
    Records(Seq<ResourceRecordView>),
    Failed(Seq<char>),
}

impl View for Answer {
    type V = AnswerView;

    open spec fn view(&self) -> AnswerView {
        match self {
            Answer::Records(records) => AnswerView::Records(records.deep_view()),
            Answer::Failed(cause) => AnswerView::Failed(cause@),
        }
    }
}

/// The result of a query as the resolver hands it over: a set of records,
/// opaque to this library but for what [`lookup_records`] names.
#[verifier::external_type_specification]
#[verifier::external_body]
pub struct ExLookup(Lookup);

/// The failure of a query as the resolver hands it over.
#[verifier::external_type_specification]
#[verifier::external_body]
pub struct ExResolveError(ResolveError);

/// The records that a lookup holds, in the order in which it gives them,
/// each reduced to what this library reads: the owner's name as text and,
/// for a record of type A that holds an address or of type NS that holds a
/// name, that address or name. Every other record is `Other`.
pub uninterp spec fn lookup_records(lookup: Lookup) -> Seq<ResourceRecordView>;

/// The record at `i` of those that `Lookup::record_iter` walks, in its
/// order, or `None` where it walks no more than `i`. The record comes as
/// this library reads it: `Record::rr_type` and `Record::rdata` tell whether
/// it is an A record with an address or an NS record with a name, and
/// `Name::to_utf8` writes the owner and the name server. The records of a
/// lookup are a slice, so a `usize` counts them. All this is believed of the
/// resolver, not proved.
#[verifier::external_body]
fn record_at(lookup: &Lookup, i: usize) -> (record: Option<ResourceRecord>)
    ensures
        match record {
            Some(r) => {
                &&& i < lookup_records(*lookup).len() <= usize::MAX
                &&& r@ == lookup_records(*lookup)[i as int]
            },
            None => i >= lookup_records(*lookup).len(),
        },
{
    let rec = lookup.record_iter().nth(i)?;
    let data = match (rec.rr_type(), rec.rdata()) {
        (rr::RecordType::A, RData::A(ip)) => {
            let [a, b, c, d] = ip.octets();
            RecordData::A(Ipv4 { a, b, c, d })
        },
        (rr::RecordType::NS, RData::NS(host)) => RecordData::NS(host.to_utf8()),
        _ => RecordData::Other,
    };
    Some(ResourceRecord { owner: rec.name().to_utf8(), data })
}

/// What a `ResolveError` writes when it is displayed, by `to_string`. The
/// text of a failure of the system is the system's, so nothing is said of
/// it.
#[verifier::external_body]
fn display_of(e: &ResolveError) -> (text: String) {
    e.to_string()
}

impl Answer {
    /// The answer that the resolver's result stands for: the records of a
    /// lookup in their order, or a failure with what the resolver says of
    /// it.
    pub fn from_lookup(result: &Result<Lookup, ResolveError>) -> (answer: Answer)
        ensures
            match result {
                Ok(lookup) => answer@ == AnswerView::Records(lookup_records(*lookup)),
                Err(_) => answer@ is Failed,
            },
    {
        match result {
            Err(e) => Answer::Failed(display_of(e)),
            Ok(lookup) => {
                let mut records: Vec<ResourceRecord> = Vec::new();
                let mut i: usize = 0;
                loop
                    invariant
                        i <= lookup_records(*lookup).len(),
                        records.len() == i,
                        forall|j: int| 0 <= j < i ==> records@[j]@ == lookup_records(*lookup)[j],
                    ensures
                        i == lookup_records(*lookup).len(),
                    decreases lookup_records(*lookup).len() - i,
                {
                    match record_at(lookup, i) {
                        Some(record) => {
                            records.push(record);
                            i += 1;
                        },
                        None => {
                            break ;
                        },
                    }
                }
                assert(records.deep_view() =~= lookup_records(*lookup));
                Answer::Records(records)
            },
        }
    }
}

/// The first of `records` that is of type `rr_type`, if there is one.
pub open spec fn first_of_type(records: Seq<ResourceRecordView>, rr_type: RecordType) -> Option<
    ResourceRecordView,
>
    decreases records.len(),
{
    if records.len() == 0 {
        None
    } else if records[0].has_type(rr_type) {
        Some(records[0])
    } else {
        first_of_type(records.drop_first(), rr_type)
    }
}

/// The message of a lookup that found no record of the type asked for.
pub open spec fn not_found_text(rr_type: RecordType) -> Seq<char> {
    "Record type "@ + rr_type.name() + " not found"@
}

/// The result of a lookup for `rr_type`, given what came back.
pub open spec fn lookup_result(answer: AnswerView, rr_type: RecordType) -> Result<
    ResourceRecordView,
    AppErrorView,
> {
    match answer {
        AnswerView::Failed(cause) => Err(
            AppErrorView { kind: ErrorKind::Transport, msg: resolve_error_text(cause) },
        ),
        AnswerView::Records(records) => match first_of_type(records, rr_type) {
            Some(record) => Ok(record),
            None => Err(AppErrorView { kind: ErrorKind::NotFound, msg: not_found_text(rr_type) }),
        },
    }
}

/// The record at `i` is of type `rr_type`, and none before it is.
pub open spec fn first_at(records: Seq<ResourceRecordView>, rr_type: RecordType, i: int) -> bool {
    &&& 0 <= i < records.len()
    &&& records[i].has_type(rr_type)
    &&& forall|j: int| 0 <= j < i ==> !records[j].has_type(rr_type)
}

/// Where the first record of a type stands: before it there is none of that
/// type, and if there is none at all, nothing is found.
pub proof fn lemma_first_of_type(records: Seq<ResourceRecordView>, rr_type: RecordType)
    ensures
        match first_of_type(records, rr_type) {
            Some(record) => exists|i: int| first_at(records, rr_type, i) && records[i] == record,
            None => forall|i: int| 0 <= i < records.len() ==> !records[i].has_type(rr_type),
        },
    decreases records.len(),
{
    if records.len() > 0 && !records[0].has_type(rr_type) {
        let rest = records.drop_first();
        lemma_first_of_type(rest, rr_type);
        match first_of_type(rest, rr_type) {
            Some(record) => {
                let i = choose|i: int| first_at(rest, rr_type, i) && rest[i] == record;
                assert forall|j: int| 0 <= j < i + 1 implies !records[j].has_type(rr_type) by {
                    if j > 0 {
                        assert(records[j] == rest[j - 1]);
                    }
                }
                assert(first_at(records, rr_type, i + 1) && records[i + 1] == record);
            },
            None => {
                assert forall|i: int| 0 <= i < records.len() implies !records[i].has_type(
                    rr_type,
                ) by {
                    if i > 0 {
                        assert(records[i] == rest[i - 1]);
                    }
                }
            },
        }
    } else if records.len() > 0 {
        assert(first_at(records, rr_type, 0));
    }
}

/// A lookup gives only a record of the type asked for, and one that the
/// answer holds; it finds none only where the answer holds none of that
/// type, and then it fails as `NotFound`. A failed query fails the lookup as
/// `Transport`, whatever was asked for.
pub proof fn lemma_lookup_result(answer: AnswerView, rr_type: RecordType)
    ensures
        match (answer, lookup_result(answer, rr_type)) {
            (AnswerView::Records(records), Ok(record)) => {
                &&& record.has_type(rr_type)
                &&& records.contains(record)
            },
            (AnswerView::Records(records), Err(e)) => {
                &&& e.kind == ErrorKind::NotFound
                &&& forall|i: int| 0 <= i < records.len() ==> !records[i].has_type(rr_type)
            },
            (AnswerView::Failed(cause), Ok(_)) => false,
            (AnswerView::Failed(cause), Err(e)) => e.kind == ErrorKind::Transport,
        },
{
    if let AnswerView::Records(records) = answer {
        lemma_first_of_type(records, rr_type);
    }
}

/// A record of the type, with none of that type before it, is the first.
proof fn lemma_first_at(records: Seq<ResourceRecordView>, rr_type: RecordType, i: int)
    requires
        0 <= i <= records.len(),
        forall|j: int| 0 <= j < i ==> !records[j].has_type(rr_type),
        i < records.len() ==> records[i].has_type(rr_type),
    ensures
        first_of_type(records, rr_type) == if i < records.len() {
            Some(records[i])
        } else {
            None
        },
    decreases i,
{
    if i > 0 {
        let rest = records.drop_first();
        assert forall|j: int| 0 <= j < i - 1 implies !rest[j].has_type(rr_type) by {
            assert(rest[j] == records[j + 1]);
        }
        lemma_first_at(rest, rr_type, i - 1);
    }
}

/// The result of a lookup for `rr_type`: the first record of that type in
/// the answer. An answer without one is a `NotFound` failure, a query that
/// failed a `Transport` failure that keeps the cause.
pub fn dns_lookup(answer: &Answer, rr_type: RecordType) -> (r: Result<ResourceRecord, AppError>)
    ensures
        result_view(r) == lookup_result(answer@, rr_type),
{
    match answer {
        Answer::Failed(cause) => Err(AppError::from_resolve_error(cause.as_str())),
        Answer::Records(records) => {
            let mut i: usize = 0;
            while i < records.len()
                invariant
                    i <= records.len(),
                    answer@ == AnswerView::Records(records.deep_view()),
                    forall|j: int| 0 <= j < i ==> !records.deep_view()[j].has_type(rr_type),
                decreases records.len() - i,
            {
                if records[i].has_type(rr_type) {
                    proof {
                        lemma_first_at(records.deep_view(), rr_type, i as int);
                    }
                    return Ok(records[i].clone());
                }
                i += 1;
            }
            proof {
                lemma_first_at(records.deep_view(), rr_type, i as int);
            }
            let mut msg = String::from_str("Record type ");
            msg.append(rr_type.as_str());
            msg.append(" not found");
            Err(AppError { kind: ErrorKind::NotFound, msg })
        },
    }
}

} // verus!
