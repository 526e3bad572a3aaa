//! A run, as the sequence of its decisions.
//!
//! A run first settles the address to set: the configured one or, where
//! there is none, the caller's public address, found in two queries. It then
//! goes through the configured records in order. For each it finds the
//! zone's authoritative name server in two queries, asks that server for
//! what the record holds, and has the record written if it holds another
//! address than the one to set. The first failure ends the run.
//!
//! The library asks and writes nothing itself. A [`Run`] says what is to be
//! done next; whoever drives it does that and hands the result back, to
//! [`Asking::answered`] or to [`Writing::written`], which give the run
//! that follows.

use crate::config::{AppConfig, AppConfigView};
use crate::discovery::{
    address_of, lookup_address, lookup_name_server, name_server_of, ECHO_HOST, ECHO_RESOLVER_HOST,
};
use crate::error::{AppError, AppErrorView};
use crate::ipv4::Ipv4;
use crate::reconcile::{outcome_of, reconcile, record_fqdn, SinkCall, SinkCallView};
use crate::record::RecordType;
use crate::resolver::{
    lookup_result, Answer, AnswerView, Query, QueryView, ResolverConfigView, ResolverOpts,
};
use crate::text::without_trailing;
use vstd::prelude::*;
use vstd::string::*;

verus! {

/// What is still to be done after the record in hand: the configured zone,
/// and the records not yet begun, in order.
#[derive(Debug, PartialEq, Eq)]
pub struct Rest {
    pub domain_fqdn: String,
    pub records: Vec<String>,
}

/// A [`Rest`] as a mathematical value.
pub ghost struct RestView {
    pub domain_fqdn: Seq<char>,
    pub records: Seq<Seq<char>>,
}

impl View for Rest {
    type V = RestView;

    open spec fn view(&self) -> RestView {
        RestView { domain_fqdn: self.domain_fqdn@, records: self.records.deep_view() }
    }
}

/// What the query that is out is for.
#[derive(Debug, PartialEq, Eq)]
pub enum Stage {
    /// The address of the echoing server.
    EchoResolver,
    /// The caller's public address, from the echoing server.
    Echo,
    /// A name server of the zone, for the record `record`.
    NameServer { desired: Ipv4, record: String },
    /// The address of that name server. `zone` is the zone's name as the
    /// NS record gave it.
    NameServerAddr { desired: Ipv4, record: String, zone: String },
    /// The address that the record holds, from the authoritative server.
    Current { desired: Ipv4, record: String, zone: String },
}

/// A [`Stage`] as a mathematical value.
pub ghost enum StageView {
    EchoResolver,
    Echo,
    NameServer { desired: Ipv4, record: Seq<char> },
    NameServerAddr { desired: Ipv4, record: Seq<char>, zone: Seq<char> },
    Current { desired: Ipv4, record: Seq<char>, zone: Seq<char> },
}

impl View for Stage {
    type V = StageView;

    open spec fn view(&self) -> StageView {
        match self {
            Stage::EchoResolver => StageView::EchoResolver,
            Stage::Echo => StageView::Echo,
            Stage::NameServer { desired, record } => StageView::NameServer {
                desired: *desired,
                record: record@,
            },
            Stage::NameServerAddr { desired, record, zone } => StageView::NameServerAddr {
                desired: *desired,
                record: record@,
                zone: zone@,
            },
            Stage::Current { desired, record, zone } => StageView::Current {
                desired: *desired,
                record: record@,
                zone: zone@,
            },
        }
    }
}

/// A run that waits for the answer to a query.
#[derive(Debug, PartialEq, Eq)]
pub struct Asking {
    pub stage: Stage,
    pub query: Query,
    pub rest: Rest,
}

/// An [`Asking`] as a mathematical value.
pub ghost struct AskingView {
    pub stage: StageView,
    pub query: QueryView,
    pub rest: RestView,
}

impl View for Asking {
    type V = AskingView;

    open spec fn view(&self) -> AskingView {
        AskingView { stage: self.stage@, query: self.query@, rest: self.rest@ }
    }
}

/// A run that waits for the outcome of a write.
#[derive(Debug, PartialEq, Eq)]
pub struct Writing {
    pub desired: Ipv4,
    pub call: SinkCall,
    pub rest: Rest,
}

/// A [`Writing`] as a mathematical value.
pub ghost struct WritingView {
    pub desired: Ipv4,
    pub call: SinkCallView,
    pub rest: RestView,
}

impl View for Writing {
    type V = WritingView;

    open spec fn view(&self) -> WritingView {
        WritingView { desired: self.desired, call: self.call@, rest: self.rest@ }
    }
}

/// A run, by what it waits for.
#[derive(Debug, PartialEq, Eq)]
pub enum Run {
    /// The query is to be sent, and its answer handed to
    /// [`Asking::answered`].
    Asking(Asking),
    /// The write is to be made, and its outcome handed to
    /// [`Writing::written`].
    Writing(Writing),
    /// Every record holds the address to set.
    Done,
    /// The run has failed, and nothing more is asked or written.
    Failed(AppError),
}

/// A [`Run`] as a mathematical value.
pub ghost enum RunView {
    Asking(AskingView),
    Writing(WritingView),
    Done,
    Failed(AppErrorView),
}

impl View for Run {
    type V = RunView;

    open spec fn view(&self) -> RunView {
        match self {
            Run::Asking(asking) => RunView::Asking(asking@),
            Run::Writing(writing) => RunView::Writing(writing@),
            Run::Done => RunView::Done,
            Run::Failed(e) => RunView::Failed(e@),
        }
    }
}

/// What can happen to a run: the answer to its query comes back, or its
/// write comes to an outcome.
#[derive(Debug, PartialEq, Eq)]
pub enum Event {
    Answer(Answer),
    Outcome(Result<(), AppError>),
}

/// An [`Event`] as a mathematical value.
pub ghost enum EventView {
    Answer(AnswerView),
    Outcome(Result<(), AppErrorView>),
}

impl View for Event {
    type V = EventView;

    open spec fn view(&self) -> EventView {
        match self {
            Event::Answer(answer) => EventView::Answer(answer@),
            Event::Outcome(Ok(_)) => EventView::Outcome(Ok(())),
            Event::Outcome(Err(e)) => EventView::Outcome(Err(e@)),
        }
    }
}

impl RunView {
    /// The run that begins a configured run: with the address to set in
    /// hand it turns to the first record, without it to the discovery of
    /// the caller's public address.
    pub open spec fn start(config: AppConfigView) -> RunView {
        let rest = RestView {
            domain_fqdn: config.domain_fqdn,
            records: config.domain_dynamic_items,
        };
        match config.domain_ip {
            Some(ip) => RunView::next_record(ip, rest),
            None => RunView::whats_my_ip(rest),
        }
    }

    /// The run that begins the discovery of the caller's public address: it
    /// asks the recursive resolver for the address of the echoing server.
    pub open spec fn whats_my_ip(rest: RestView) -> RunView {
        RunView::Asking(
            AskingView { stage: StageView::EchoResolver, query: QueryView::echo_resolver(), rest },
        )
    }

    /// The run that turns to the next record: it asks for a name server of
    /// the configured zone, or is done where no record is left.
    pub open spec fn next_record(desired: Ipv4, rest: RestView) -> RunView {
        if rest.records.len() == 0 {
            RunView::Done
        } else {
            RunView::Asking(
                AskingView {
                    stage: StageView::NameServer { desired, record: rest.records[0] },
                    query: QueryView::name_server(rest.domain_fqdn),
                    rest: RestView {
                        domain_fqdn: rest.domain_fqdn,
                        records: rest.records.drop_first(),
                    },
                },
            )
        }
    }

    /// The run waits for nothing more.
    pub open spec fn is_over(self) -> bool {
        self is Done || self is Failed
    }

    /// The run after `event`. An event that the run does not wait for leaves
    /// it as it is.
    pub open spec fn after(self, event: EventView) -> RunView {
        match (self, event) {
            (RunView::Asking(asking), EventView::Answer(answer)) => asking.answered(answer),
            (RunView::Writing(writing), EventView::Outcome(outcome)) => writing.written(outcome),
            _ => self,
        }
    }
}

impl AskingView {
    /// The run that follows when `answer` comes back.
    pub open spec fn answered(self, answer: AnswerView) -> RunView {
        match self.stage {
            StageView::EchoResolver => match address_of(answer) {
                Err(e) => RunView::Failed(e),
                Ok((owner, addr)) => RunView::Asking(
                    AskingView {
                        stage: StageView::Echo,
                        query: QueryView::echo(addr, owner),
                        rest: self.rest,
                    },
                ),
            },
            StageView::Echo => match address_of(answer) {
                Err(e) => RunView::Failed(e),
                Ok((_, addr)) => RunView::next_record(addr, self.rest),
            },
            StageView::NameServer { desired, record } => match name_server_of(answer) {
                Err(e) => RunView::Failed(e),
                Ok((zone, host)) => RunView::Asking(
                    AskingView {
                        stage: StageView::NameServerAddr { desired, record, zone },
                        query: QueryView::name_server_addr(host),
                        rest: self.rest,
                    },
                ),
            },
            StageView::NameServerAddr { desired, record, zone } => match address_of(answer) {
                Err(e) => RunView::Failed(e),
                Ok((_, addr)) => RunView::Asking(
                    AskingView {
                        stage: StageView::Current { desired, record, zone },
                        query: QueryView::current(addr, zone, record),
                        rest: self.rest,
                    },
                ),
            },
            StageView::Current { desired, record, zone } => match address_of(answer) {
                Err(e) => RunView::Failed(e),
                Ok((_, observed)) => if outcome_of(observed, desired).update_required {
                    RunView::Writing(
                        WritingView {
                            desired,
                            call: SinkCallView::update(zone, record, desired),
                            rest: self.rest,
                        },
                    )
                } else {
                    RunView::next_record(desired, self.rest)
                },
            },
        }
    }
}

impl WritingView {
    /// The run that follows when the write has come to `outcome`: the next
    /// record after a success, and after a failure the end, with the failure
    /// as it came.
    pub open spec fn written(self, outcome: Result<(), AppErrorView>) -> RunView {
        match outcome {
            Ok(_) => RunView::next_record(self.desired, self.rest),
            Err(e) => RunView::Failed(e),
        }
    }
}

/// The query waits 15 seconds at most and does not look into the hosts
/// file.
pub open spec fn bounded(query: QueryView) -> bool {
    query.resolver.options == (ResolverOpts { timeout_secs: 15, use_hosts_file: false })
}

/// How many answers and outcomes a run can still take in.
pub open spec fn steps_left(run: RunView) -> nat {
    match run {
        RunView::Done => 0,
        RunView::Failed(_) => 0,
        RunView::Writing(writing) => 1 + 4 * writing.rest.records.len(),
        RunView::Asking(asking) => match asking.stage {
            StageView::Current { .. } => 2 + 4 * asking.rest.records.len(),
            StageView::NameServerAddr { .. } => 3 + 4 * asking.rest.records.len(),
            StageView::NameServer { .. } => 4 + 4 * asking.rest.records.len(),
            StageView::Echo => 1 + 4 * asking.rest.records.len(),
            StageView::EchoResolver => 2 + 4 * asking.rest.records.len(),
        },
    }
}

/// Discovery of the caller's public address takes two answers. The first
/// gives the address of the echoing server and the name that owns it; the
/// second query goes to that server alone, with names searched under that
/// owner, and asks for the echo host. The address in the second answer is
/// the address to set, and the run turns to the first record with it.
/// Either lookup that fails ends the run with its failure.
pub proof fn lemma_public_ip_discovery(rest: RestView, first: AnswerView, second: AnswerView)
    ensures
        ({
            let begun = RunView::whats_my_ip(rest)->Asking_0;
            let hop = begun.answered(first);
            &&& begun.query == QueryView {
                resolver: ResolverConfigView::recursive(),
                name: ECHO_RESOLVER_HOST@,
                rr_type: RecordType::A,
            }
            &&& match address_of(first) {
                Err(e) => hop == RunView::Failed(e),
                Ok((owner, server)) => {
                    &&& hop is Asking
                    &&& hop->Asking_0.query == QueryView {
                        resolver: ResolverConfigView::single_server(server, owner),
                        name: ECHO_HOST@,
                        rr_type: RecordType::A,
                    }
                    &&& hop->Asking_0.answered(second) == match address_of(second) {
                        Err(e) => RunView::Failed(e),
                        Ok((_, ip)) => RunView::next_record(ip, rest),
                    }
                },
            }
        }),
{
}

/// Discovery of a zone's authoritative server takes two answers. The first,
/// to a query for the NS record of the configured zone, gives the zone's
/// name as it is used from then on and the name of a name server; the
/// second, to a query for that name server's address, gives the address.
/// What the record holds is then asked of the server at that address alone,
/// with names searched under the zone, under the record's fully-qualified
/// name. Either lookup that fails ends the run with its failure.
pub proof fn lemma_authoritative_discovery(
    desired: Ipv4,
    rest: RestView,
    first: AnswerView,
    second: AnswerView,
)
    requires
        rest.records.len() > 0,
    ensures
        ({
            let begun = RunView::next_record(desired, rest)->Asking_0;
            let hop = begun.answered(first);
            &&& begun.query == QueryView {
                resolver: ResolverConfigView::recursive(),
                name: rest.domain_fqdn,
                rr_type: RecordType::NS,
            }
            &&& match name_server_of(first) {
                Err(e) => hop == RunView::Failed(e),
                Ok((zone, host)) => {
                    &&& hop is Asking
                    &&& hop->Asking_0.query == QueryView {
                        resolver: ResolverConfigView::recursive(),
                        name: host,
                        rr_type: RecordType::A,
                    }
                    &&& match address_of(second) {
                        Err(e) => hop->Asking_0.answered(second) == RunView::Failed(e),
                        Ok((_, addr)) => {
                            let found = hop->Asking_0.answered(second);
                            &&& found is Asking
                            &&& found->Asking_0.stage == StageView::Current {
                                desired,
                                record: rest.records[0],
                                zone,
                            }
                            &&& found->Asking_0.query == QueryView {
                                resolver: ResolverConfigView::single_server(addr, zone),
                                name: record_fqdn(rest.records[0], zone),
                                rr_type: RecordType::A,
                            }
                        },
                    }
                },
            }
        }),
{
}

/// A record that holds the address to set is not written: the run turns to
/// the next record.
pub proof fn lemma_up_to_date_is_kept(asking: AskingView, answer: AnswerView)
    requires
        asking.stage is Current,
        address_of(answer) is Ok,
        address_of(answer)->Ok_0.1 == asking.stage->Current_desired,
    ensures
        !(asking.answered(answer) is Writing),
        asking.answered(answer) == RunView::next_record(
            asking.stage->Current_desired,
            asking.rest,
        ),
{
}

/// A record that holds another address than the one to set is written, and
/// written once: the write names the zone without the dots at its end, the
/// bare name of the record, the text of the address to set and 300 seconds
/// to live, and whatever the write comes to, the run does not write for
/// this record again.
pub proof fn lemma_stale_is_written_once(asking: AskingView, answer: AnswerView)
    requires
        asking.stage is Current,
        address_of(answer) is Ok,
        address_of(answer)->Ok_0.1 != asking.stage->Current_desired,
    ensures
        asking.answered(answer) is Writing,
        ({
            let writing = asking.answered(answer)->Writing_0;
            &&& writing.call.domain == without_trailing(asking.stage->Current_zone, '.')
            &&& writing.call.name == asking.stage->Current_record
            &&& writing.call.value == asking.stage->Current_desired.text()
            &&& writing.call.ttl.secs == 300
            &&& writing.desired == asking.stage->Current_desired
            &&& writing.rest == asking.rest
            &&& forall|outcome: Result<(), AppErrorView>|
                !(#[trigger] writing.written(outcome) is Writing)
        }),
{
}

/// A run only writes after it has seen that a record holds another address
/// than the one to set.
pub proof fn lemma_write_follows_difference(asking: AskingView, answer: AnswerView)
    requires
        asking.answered(answer) is Writing,
    ensures
        asking.stage is Current,
        address_of(answer) is Ok,
        address_of(answer)->Ok_0.1 != asking.stage->Current_desired,
{
}

/// A failed lookup ends the run, with the failure as the lookup gave it,
/// and a failed write ends it with the failure as the sink gave it.
pub proof fn lemma_failure_ends_run(
    asking: AskingView,
    answer: AnswerView,
    writing: WritingView,
    e: AppErrorView,
)
    ensures
        !(asking.stage is NameServer) && lookup_result(answer, RecordType::A) is Err
            ==> asking.answered(answer) == RunView::Failed(
            lookup_result(answer, RecordType::A)->Err_0,
        ),
        asking.stage is NameServer && lookup_result(answer, RecordType::NS) is Err
            ==> asking.answered(answer) == RunView::Failed(
            lookup_result(answer, RecordType::NS)->Err_0,
        ),
        writing.written(Err(e)) == RunView::Failed(e),
{
}

/// Whatever a run asks, it asks with the bounded wait and without a look
/// into the hosts file.
pub proof fn lemma_queries_are_bounded(
    config: AppConfigView,
    asking: AskingView,
    answer: AnswerView,
    writing: WritingView,
    outcome: Result<(), AppErrorView>,
)
    ensures
        RunView::start(config) is Asking ==> bounded(RunView::start(config)->Asking_0.query),
        asking.answered(answer) is Asking ==> bounded(asking.answered(answer)->Asking_0.query),
        writing.written(outcome) is Asking ==> bounded(writing.written(outcome)->Asking_0.query),
{
}

/// Every answer and every outcome brings a run nearer to its end: a run of
/// `n` records is over after `4 * n + 2` of them at most.
pub proof fn lemma_run_ends(
    config: AppConfigView,
    asking: AskingView,
    answer: AnswerView,
    writing: WritingView,
    outcome: Result<(), AppErrorView>,
)
    ensures
        steps_left(RunView::start(config)) <= 4 * config.domain_dynamic_items.len() + 2,
        steps_left(asking.answered(answer)) < steps_left(RunView::Asking(asking)),
        steps_left(writing.written(outcome)) < steps_left(RunView::Writing(writing)),
        forall|run: RunView| steps_left(run) == 0 <==> run.is_over(),
{
}

/// Begins the discovery of the caller's public address, with `rest` to be
/// done once it is known.
pub fn whats_my_ip(rest: Rest) -> (run: Run)
    ensures
        run@ == RunView::whats_my_ip(rest@),
{
    Run::Asking(Asking { stage: Stage::EchoResolver, query: Query::echo_resolver(), rest })
}

/// Turns to the next record of `rest`, to be set to `desired`.
pub fn next_record(desired: Ipv4, rest: Rest) -> (run: Run)
    ensures
        run@ == RunView::next_record(desired, rest@),
{
    let mut rest = rest;
    if rest.records.len() == 0 {
        return Run::Done;
    }
    let ghost before = rest.records.deep_view();
    let record = rest.records.remove(0);
    assert(rest.records.deep_view() =~= before.drop_first());
    let query = Query::name_server(rest.domain_fqdn.as_str());
    Run::Asking(Asking { stage: Stage::NameServer { desired, record }, query, rest })
}

/// A copy of `names`.
fn copy_of(names: &Vec<String>) -> (out: Vec<String>)
    ensures
        out.deep_view() == names.deep_view(),
{
    let mut out: Vec<String> = Vec::new();
    let mut i: usize = 0;
    while i < names.len()
        invariant
            i <= names.len(),
            out.len() == i,
            forall|j: int| 0 <= j < i ==> out@[j]@ == names@[j]@,
        decreases names.len() - i,
    {
        out.push(names[i].clone());
        i += 1;
    }
    assert(out.deep_view() =~= names.deep_view());
    out
}

impl Run {
    /// Begins a run on `config`.
    pub fn start(config: &AppConfig) -> (run: Run)
        ensures
            run@ == RunView::start(config@),
    {
        let rest = Rest {
            domain_fqdn: config.domain_fqdn.clone(),
            records: copy_of(&config.domain_dynamic_items),
        };
        match config.domain_ip {
            Some(ip) => next_record(ip, rest),
            None => whats_my_ip(rest),
        }
    }

    /// The run after `event`. An event that the run does not wait for leaves
    /// it as it is.
    pub fn after(self, event: Event) -> (run: Run)
        ensures
            run@ == self@.after(event@),
    {
        match (self, event) {
            (Run::Asking(asking), Event::Answer(answer)) => asking.answered(&answer),
            (Run::Writing(writing), Event::Outcome(outcome)) => writing.written(outcome),
            (run, _) => run,
        }
    }

    /// Whether the run waits for nothing more.
    pub fn is_over(&self) -> (b: bool)
        ensures
            b == self@.is_over(),
    {
        match self {
            Run::Done => true,
            Run::Failed(_) => true,
            _ => false,
        }
    }
}

impl Asking {
    /// The run that follows when `answer` has come back for the query.
    pub fn answered(self, answer: &Answer) -> (run: Run)
        ensures
            run@ == self@.answered(answer@),
    {
        let rest = self.rest;
        match self.stage {
            Stage::EchoResolver => match lookup_address(answer) {
                Err(e) => Run::Failed(e),
                Ok((owner, addr)) => Run::Asking(
                    Asking { stage: Stage::Echo, query: Query::echo(addr, owner.as_str()), rest },
                ),
            },
            Stage::Echo => match lookup_address(answer) {
                Err(e) => Run::Failed(e),
                Ok((_, addr)) => next_record(addr, rest),
            },
            Stage::NameServer { desired, record } => match lookup_name_server(answer) {
                Err(e) => Run::Failed(e),
                Ok((zone, host)) => Run::Asking(
                    Asking {
                        stage: Stage::NameServerAddr { desired, record, zone },
                        query: Query::name_server_addr(host.as_str()),
                        rest,
                    },
                ),
            },
            Stage::NameServerAddr { desired, record, zone } => match lookup_address(answer) {
                Err(e) => Run::Failed(e),
                Ok((_, addr)) => {
                    let query = Query::current(addr, zone.as_str(), record.as_str());
                    let stage = Stage::Current { desired, record, zone };
                    Run::Asking(Asking { stage, query, rest })
                },
            },
            Stage::Current { desired, record, zone } => match lookup_address(answer) {
                Err(e) => Run::Failed(e),
                Ok((_, observed)) => {
                    if reconcile(observed, desired).update_required {
                        let call = SinkCall::update(zone.as_str(), record.as_str(), desired);
                        Run::Writing(Writing { desired, call, rest })
                    } else {
                        next_record(desired, rest)
                    }
                },
            },
        }
    }
}

impl Writing {
    /// The run that follows when the write has come to `outcome`.
    pub fn written(self, outcome: Result<(), AppError>) -> (run: Run)
        ensures
            run@ == self@.written(
                match outcome {
                    Ok(_) => Ok(()),
                    Err(e) => Err(e@),
                },
            ),
    {
        match outcome {
            Ok(_) => next_record(self.desired, self.rest),
            Err(e) => Run::Failed(e),
        }
    }
}

} // verus!
