//! Whole runs: what holds of every sequence of answers and outcomes.
//!
//! Whatever the name servers answer and whatever the sink reports, a run
//! writes nothing but configured records, in the configured order and each
//! once at most, and every write carries the address to set and the fixed
//! time to live.

use crate::config::AppConfigView;
use crate::discovery::address_of;
use crate::ipv4::Ipv4;
use crate::reconcile::SinkCallView;
use crate::run::{EventView, RunView, StageView};
use vstd::prelude::*;

verus! {

/// The run after all of `events`, in order.
pub open spec fn after_all(run: RunView, events: Seq<EventView>) -> RunView
    decreases events.len(),
{
    if events.len() == 0 {
        run
    } else {
        after_all(run.after(events[0]), events.drop_first())
    }
}

/// The writes that the run asks for while `events` happen, in order.
pub open spec fn writes(run: RunView, events: Seq<EventView>) -> Seq<SinkCallView>
    decreases events.len(),
{
    if events.len() == 0 {
        Seq::<SinkCallView>::empty()
    } else {
        let next = run.after(events[0]);
        let later = writes(next, events.drop_first());
        if run is Asking && next is Writing {
            seq![next->Writing_0.call] + later
        } else {
            later
        }
    }
}

/// `event` shows the run that the record in hand holds another address than
/// the one to set.
pub open spec fn shows_difference(run: RunView, event: EventView) -> bool {
    &&& run matches RunView::Asking(asking)
    &&& asking.stage matches StageView::Current { desired, .. }
    &&& event matches EventView::Answer(answer)
    &&& address_of(answer) matches Ok((_, observed))
    &&& observed != desired
}

/// How often, while `events` happen, the run is shown that the record in
/// hand holds another address than the one to set.
pub open spec fn differences(run: RunView, events: Seq<EventView>) -> nat
    decreases events.len(),
{
    if events.len() == 0 {
        0
    } else {
        let later = differences(run.after(events[0]), events.drop_first());
        if shows_difference(run, events[0]) {
            1 + later
        } else {
            later
        }
    }
}

/// `part` can be had from `whole` by leaving elements out.
pub open spec fn is_subsequence(part: Seq<Seq<char>>, whole: Seq<Seq<char>>) -> bool
    decreases whole.len(),
{
    if part.len() == 0 {
        true
    } else if whole.len() == 0 {
        false
    } else {
        ||| is_subsequence(part, whole.drop_first())
        ||| (part[0] == whole[0] && is_subsequence(part.drop_first(), whole.drop_first()))
    }
}

/// The names of the records that `calls` write.
pub open spec fn names(calls: Seq<SinkCallView>) -> Seq<Seq<char>> {
    calls.map_values(|call: SinkCallView| call.name)
}

/// The records that a run may still write: the one in hand, unless its write
/// is out already, and those not yet begun.
pub open spec fn pending(run: RunView) -> Seq<Seq<char>> {
    match run {
        RunView::Asking(asking) => match asking.stage {
            StageView::NameServer { record, .. } => seq![record] + asking.rest.records,
            StageView::NameServerAddr { record, .. } => seq![record] + asking.rest.records,
            StageView::Current { record, .. } => seq![record] + asking.rest.records,
            _ => asking.rest.records,
        },
        RunView::Writing(writing) => writing.rest.records,
        _ => Seq::<Seq<char>>::empty(),
    }
}

/// The address that a run sets, once it is known.
pub open spec fn address(run: RunView) -> Option<Ipv4> {
    match run {
        RunView::Asking(asking) => match asking.stage {
            StageView::NameServer { desired, .. } => Some(desired),
            StageView::NameServerAddr { desired, .. } => Some(desired),
            StageView::Current { desired, .. } => Some(desired),
            _ => None,
        },
        RunView::Writing(writing) => Some(writing.desired),
        _ => None,
    }
}

/// Every one of `calls` carries the time to live of 300 seconds, and the
/// text of `ip` where `ip` is an address.
pub open spec fn all_set(calls: Seq<SinkCallView>, ip: Option<Ipv4>) -> bool {
    forall|i: int|
        0 <= i < calls.len() ==> {
            &&& (#[trigger] calls[i]).ttl.secs == 300
            &&& ip is Some ==> calls[i].value == ip->0.text()
        }
}

/// A run that is over stays as it is, whatever happens, and writes nothing:
/// after a failure no write is asked for.
pub proof fn lemma_over_is_final(run: RunView, events: Seq<EventView>)
    requires
        run.is_over(),
    ensures
        after_all(run, events) == run,
        writes(run, events).len() == 0,
    decreases events.len(),
{
    if events.len() > 0 {
        lemma_over_is_final(run, events.drop_first());
    }
}

/// A run writes once each time it is shown that a record holds another
/// address than the one to set, and at no other time: a run that is shown
/// no difference writes nothing.
pub proof fn lemma_one_write_per_difference(run: RunView, events: Seq<EventView>)
    ensures
        writes(run, events).len() == differences(run, events),
    decreases events.len(),
{
    if events.len() > 0 {
        lemma_one_write_per_difference(run.after(events[0]), events.drop_first());
    }
}

/// From wherever a run stands, it writes nothing but the records that it may
/// still write, in their order and each once at most, and what it writes is
/// the address it sets.
pub proof fn lemma_writes_from(run: RunView, events: Seq<EventView>)
    ensures
        is_subsequence(names(writes(run, events)), pending(run)),
        all_set(writes(run, events), address(run)),
    decreases events.len(),
{
    if events.len() > 0 {
        let next = run.after(events[0]);
        let later = writes(next, events.drop_first());
        lemma_writes_from(next, events.drop_first());
        if run is Asking && next is Writing {
            let call = next->Writing_0.call;
            let all = seq![call] + later;
            assert(names(all).drop_first() == names(later));
            assert(pending(run).drop_first() == pending(next));
            assert forall|i: int| 0 <= i < all.len() implies {
                &&& (#[trigger] all[i]).ttl.secs == 300
                &&& address(run) is Some ==> all[i].value == address(run)->0.text()
            } by {
                if i > 0 {
                    assert(all[i] == later[i - 1]);
                }
            }
        } else if pending(next).len() == 0 {
            assert(names(later).len() == 0);
        } else if pending(next).len() < pending(run).len() {
            assert(pending(run).drop_first() == pending(next));
            lemma_subsequence_of_longer(names(later), pending(next), pending(run)[0]);
        } else {
            assert(pending(next) == pending(run));
        }
    }
}

/// What can be had from `whole` can be had from `whole` with one more
/// element in front.
proof fn lemma_subsequence_of_longer(part: Seq<Seq<char>>, whole: Seq<Seq<char>>, first: Seq<char>)
    requires
        is_subsequence(part, whole),
    ensures
        is_subsequence(part, seq![first] + whole),
{
    assert((seq![first] + whole).drop_first() == whole);
}

/// Whatever happens to a run on `config`, it writes nothing but configured
/// records, in the configured order and each once at most; every write
/// carries the time to live of 300 seconds and, where the address to set is
/// configured, the text of that address.
pub proof fn lemma_run_writes(config: AppConfigView, events: Seq<EventView>)
    ensures
        is_subsequence(names(writes(RunView::start(config), events)), config.domain_dynamic_items),
        writes(RunView::start(config), events).len() <= config.domain_dynamic_items.len(),
        all_set(writes(RunView::start(config), events), config.domain_ip),
{
    let begun = RunView::start(config);
    lemma_writes_from(begun, events);
    assert(pending(begun) == config.domain_dynamic_items);
    lemma_subsequence_is_shorter(names(writes(begun, events)), config.domain_dynamic_items);
}

/// What can be had from `whole` is no longer than `whole`.
proof fn lemma_subsequence_is_shorter(part: Seq<Seq<char>>, whole: Seq<Seq<char>>)
    requires
        is_subsequence(part, whole),
    ensures
        part.len() <= whole.len(),
    decreases whole.len(),
{
    if part.len() > 0 {
        if is_subsequence(part, whole.drop_first()) {
            lemma_subsequence_is_shorter(part, whole.drop_first());
        } else {
            lemma_subsequence_is_shorter(part.drop_first(), whole.drop_first());
        }
    }
}

} // verus!
