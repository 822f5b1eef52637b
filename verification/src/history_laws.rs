//! What holds over any run of steps: what becomes of one event while others come, are claimed,
//! finish, fail and are purged.

use vstd::prelude::*;

use crate::api::{
    accepted, answer, law_acknowledged_means_stored, law_known_event_is_acknowledged_again,
    received, Ack, Request, StatusCode,
};
use crate::invoice_laws::lemma_invoiced_keeps_wf;
use crate::queue_laws::{lemma_filter_holds, lemma_next_ready};
use crate::store::{
    lemma_filter_keeps_ids_apart, next_ready, EventView, NewEventView, Status, StoreView,
};

verus! {

/// A step that changes the tables.
pub enum Step {
    Enqueue { ev: NewEventView, now: int },
    Claim { now: int, until: int },
    Done { event_id: Seq<char>, result: Seq<char>, now: int },
    Failed { event_id: Seq<char>, error: Seq<char>, retry: bool, next: int },
    Purge { cutoff: int },
    Invoice { invoice_id: Seq<char>, status: Seq<char>, ts: int },
}

/// The tables after a step.
pub open spec fn step(store: StoreView, s: Step) -> StoreView {
    match s {
        Step::Enqueue { ev, now } => store.enqueued(ev, now),
        Step::Claim { now, until } => store.claimed(now, until),
        Step::Done { event_id, result, now } => store.marked_done(event_id, result, now),
        Step::Failed { event_id, error, retry, next } => store.marked_failed(
            event_id,
            error,
            retry,
            next,
        ),
        Step::Purge { cutoff } => store.purged(cutoff),
        Step::Invoice { invoice_id, status, ts } => store.invoiced(invoice_id, status, ts),
    }
}

/// The tables after a run of steps.
pub open spec fn after(store: StoreView, steps: Seq<Step>) -> StoreView
    decreases steps.len(),
{
    if steps.len() == 0 {
        store
    } else {
        step(after(store, steps.drop_last()), steps.last())
    }
}

/// Every step keeps the tables valid: ids stay apart and rows stay valid.
pub proof fn law_step_keeps_tables_valid(store: StoreView, s: Step)
    requires
        store.wf(),
    ensures
        step(store, s).wf(),
{
    match s {
        Step::Enqueue { ev, now } => {},
        Step::Claim { now, until } => {
            lemma_next_ready(store.events, now);
        },
        Step::Done { event_id, result, now } => {},
        Step::Failed { event_id, error, retry, next } => {},
        Step::Purge { cutoff } => {
            let keeps = |e: EventView| !e.expired(cutoff);
            lemma_filter_keeps_ids_apart(store.events, keeps);
            let kept = store.purged(cutoff);
            assert forall|i: int| 0 <= i < kept.events.len() implies (
            #[trigger] kept.events[i]).valid() by {
                assert(store.events.contains(kept.events[i]));
            }
        },
        Step::Invoice { invoice_id, status, ts } => {
            lemma_invoiced_keeps_wf(store, invoice_id, status, ts);
        },
    }
}

/// Whether a step cannot touch the row: it is no claim while the row is ready, does not finish or
/// fail its event, and is no purge that drops it.
pub open spec fn spares(s: Step, row: EventView) -> bool {
    match s {
        Step::Enqueue { ev, now } => true,
        Step::Claim { now, until } => !row.ready(now),
        Step::Done { event_id, result, now } => event_id != row.event_id,
        Step::Failed { event_id, error, retry, next } => event_id != row.event_id,
        Step::Purge { cutoff } => !row.expired(cutoff),
        Step::Invoice { invoice_id, status, ts } => true,
    }
}

/// Whether none of the steps can touch the row.
pub open spec fn all_spare(steps: Seq<Step>, row: EventView) -> bool {
    forall|i: int| 0 <= i < steps.len() ==> spares(#[trigger] steps[i], row)
}

/// A step that spares a row leaves it in the tables as it is.
proof fn lemma_step_leaves_row(store: StoreView, s: Step, row: EventView)
    requires
        store.events.contains(row),
        spares(s, row),
    ensures
        step(store, s).events.contains(row),
{
    let i = store.events.index_of(row);
    let next = step(store, s);
    match s {
        Step::Claim { now, until } => {
            lemma_next_ready(store.events, now);
            assert(next.events[i] == row);
        },
        Step::Purge { cutoff } => {
            lemma_filter_holds(store.events, |e: EventView| !e.expired(cutoff), row);
        },
        _ => {
            assert(next.events[i] == row);
        },
    }
}

/// Whatever else happens, a row stays as it is over any run of steps that spares it.
pub proof fn law_spared_row_stays(store: StoreView, steps: Seq<Step>, row: EventView)
    requires
        store.wf(),
        store.events.contains(row),
        all_spare(steps, row),
    ensures
        after(store, steps).wf(),
        after(store, steps).events.contains(row),
    decreases steps.len(),
{
    if steps.len() > 0 {
        let front = steps.drop_last();
        assert forall|i: int| 0 <= i < front.len() implies spares(#[trigger] front[i], row) by {
            assert(front[i] == steps[i]);
        }
        law_spared_row_stays(store, front, row);
        let last = steps[steps.len() - 1];
        law_step_keeps_tables_valid(after(store, front), last);
        lemma_step_leaves_row(after(store, front), last, row);
    }
}

/// The row with which a claim at `now` comes back is the one of its event; a row that is not ready
/// then is not it.
proof fn lemma_claim_passes_over(store: StoreView, row: EventView, now: int)
    requires
        store.wf(),
        store.events.contains(row),
    ensures
        next_ready(store.events, now) matches Some(j) ==> 0 <= j < store.events.len() && (
        store.events[j].event_id == row.event_id ==> store.events[j] == row && row.ready(now)),
        row.ready(now) ==> next_ready(store.events, now) is Some,
{
    lemma_next_ready(store.events, now);
    let i = store.events.index_of(row);
    if let Some(j) = next_ready(store.events, now) {
        if i < j {
            assert(store.events[i].event_id != store.events[j].event_id);
        } else if j < i {
            assert(store.events[j].event_id != store.events[i].event_id);
        }
    }
}

/// No two live leases on one event: after a claim with a lease up to `until`, and any steps that do
/// not finish or fail the claimed event and claim before the lease runs out, a claim at `later`
/// does not come back with that event while the lease runs; from then on the event is ready
/// again, and when it comes back its attempts are one more.
pub proof fn law_lease_is_exclusive(
    store: StoreView,
    now: int,
    until: int,
    steps: Seq<Step>,
    later: int,
)
    requires
        store.wf(),
        next_ready(store.events, now) is Some,
        forall|i: int|
            0 <= i < steps.len() ==> match #[trigger] steps[i] {
                Step::Claim { now: t, until: _ } => t < until,
                Step::Done { event_id, .. } => event_id != store.events[next_ready(
                    store.events,
                    now,
                )->0].event_id,
                Step::Failed { event_id, .. } => event_id != store.events[next_ready(
                    store.events,
                    now,
                )->0].event_id,
                _ => true,
            },
    ensures
        ({
            let first = store.claimed(now, until).events[next_ready(store.events, now)->0];
            let then = after(store.claimed(now, until), steps);
            let found = next_ready(then.events, later);
            &&& first.event_id == store.events[next_ready(store.events, now)->0].event_id
            &&& then.wf()
            &&& then.events.contains(first)
            &&& later < until ==> (found matches Some(j) ==> then.events[j].event_id
                != first.event_id)
            &&& until <= later ==> first.ready(later) && found is Some
            &&& forall|again: int|
                (found matches Some(j) && then.events[j].event_id == first.event_id) ==> (
                #[trigger] then.claimed(later, again)).events[found->0].attempts == first.attempts
                    + 1
        }),
{
    lemma_next_ready(store.events, now);
    let i = next_ready(store.events, now)->0;
    let claimed = store.claimed(now, until);
    let first = claimed.events[i];
    law_step_keeps_tables_valid(store, Step::Claim { now, until });
    assert(claimed.events.contains(first));
    assert forall|k: int| 0 <= k < steps.len() implies spares(#[trigger] steps[k], first) by {}
    law_spared_row_stays(claimed, steps, first);
    lemma_claim_passes_over(after(claimed, steps), first, later);
}

/// Whether every row of the event is done or given up.
pub open spec fn finished_in(store: StoreView, event_id: Seq<char>) -> bool {
    forall|j: int|
        0 <= j < store.events.len() && (#[trigger] store.events[j]).event_id == event_id ==> {
            ||| store.events[j].status == Status::Done
            ||| store.events[j].status == Status::Dead
        }
}

/// Whether no step brings the event back: none fails it with another attempt ahead, and none
/// stores its id anew once it was purged.
pub open spec fn none_brings_back(
    store: StoreView,
    steps: Seq<Step>,
    event_id: Seq<char>,
) -> bool {
    forall|k: int|
        0 <= k < steps.len() ==> match #[trigger] steps[k] {
            Step::Enqueue { ev, .. } => ev.event_id == event_id ==> after(
                store,
                steps.take(k),
            ).has_event(event_id),
            Step::Failed { event_id: id, retry, .. } => !(id == event_id && retry),
            _ => true,
        }
}

/// An event that is done or was given up is never claimed again: after any steps, purges among
/// them, that do not bring it back, no claim at any time comes back with it.
pub proof fn law_finished_event_stays_finished(
    store: StoreView,
    event_id: Seq<char>,
    steps: Seq<Step>,
    later: int,
)
    requires
        finished_in(store, event_id),
        none_brings_back(store, steps, event_id),
    ensures
        finished_in(after(store, steps), event_id),
        next_ready(after(store, steps).events, later) matches Some(j) ==> after(
            store,
            steps,
        ).events[j].event_id != event_id,
    decreases steps.len(),
{
    if steps.len() > 0 {
        let front = steps.drop_last();
        let n = steps.len() - 1;
        assert forall|k: int| 0 <= k < front.len() implies match #[trigger] front[k] {
            Step::Enqueue { ev, .. } => ev.event_id == event_id ==> after(
                store,
                front.take(k),
            ).has_event(event_id),
            Step::Failed { event_id: id, retry, .. } => !(id == event_id && retry),
            _ => true,
        } by {
            assert(front[k] == steps[k]);
            assert(front.take(k) =~= steps.take(k));
        }
        law_finished_event_stays_finished(store, event_id, front, later);
        let before = after(store, front);
        let last = steps[n];
        assert(steps.take(n) =~= front);
        let then = step(before, last);
        match last {
            Step::Claim { now, until } => {
                lemma_next_ready(before.events, now);
            },
            Step::Purge { cutoff } => {
                let keeps = |e: EventView| !e.expired(cutoff);
                assert forall|j: int|
                    0 <= j < then.events.len() && (#[trigger] then.events[j]).event_id
                        == event_id implies {
                    ||| then.events[j].status == Status::Done
                    ||| then.events[j].status == Status::Dead
                } by {
                    lemma_filter_holds(before.events, keeps, then.events[j]);
                    assert(then.events.contains(then.events[j]));
                    let i = before.events.index_of(then.events[j]);
                    assert(before.events[i] == then.events[j]);
                }
            },
            _ => {},
        }
        assert(finished_in(then, event_id));
    }
    lemma_next_ready(after(store, steps).events, later);
}

/// After an event is marked done, or failed with no attempt left, no later claim comes back with
/// it, whatever steps lie between that do not bring it back.
pub proof fn law_marked_event_is_never_claimed_again(
    store: StoreView,
    event_id: Seq<char>,
    text: Seq<char>,
    now: int,
    done: bool,
    steps: Seq<Step>,
    later: int,
)
    requires
        none_brings_back(
            if done {
                store.marked_done(event_id, text, now)
            } else {
                store.marked_failed(event_id, text, false, now)
            },
            steps,
            event_id,
        ),
    ensures
        ({
            let marked = if done {
                store.marked_done(event_id, text, now)
            } else {
                store.marked_failed(event_id, text, false, now)
            };
            let then = after(marked, steps);
            next_ready(then.events, later) matches Some(j) ==> then.events[j].event_id != event_id
        }),
{
    let marked = if done {
        store.marked_done(event_id, text, now)
    } else {
        store.marked_failed(event_id, text, false, now)
    };
    law_finished_event_stays_finished(marked, event_id, steps, later);
}

/// After an event failed with an attempt left at `next`, and any steps that claim before then and
/// do not mark it, no claim before `next` comes back with it, and from then on it is ready.
pub proof fn law_failed_event_comes_back_at_its_time(
    store: StoreView,
    i: int,
    error: Seq<char>,
    next: int,
    steps: Seq<Step>,
    later: int,
)
    requires
        store.wf(),
        0 <= i < store.events.len(),
        forall|k: int|
            0 <= k < steps.len() ==> match #[trigger] steps[k] {
                Step::Claim { now, until: _ } => now < next,
                Step::Done { event_id, .. } => event_id != store.events[i].event_id,
                Step::Failed { event_id, .. } => event_id != store.events[i].event_id,
                _ => true,
            },
    ensures
        ({
            let id = store.events[i].event_id;
            let failed = store.marked_failed(id, error, true, next);
            let then = after(failed, steps);
            &&& then.events.contains(failed.events[i])
            &&& later < next ==> (next_ready(then.events, later) matches Some(j)
                ==> then.events[j].event_id != id)
            &&& next <= later ==> failed.events[i].ready(later) && next_ready(
                then.events,
                later,
            ) is Some
        }),
{
    let id = store.events[i].event_id;
    let mark = Step::Failed { event_id: id, error, retry: true, next };
    law_step_keeps_tables_valid(store, mark);
    let failed = step(store, mark);
    let row = failed.events[i];
    assert(failed.events.contains(row));
    assert forall|k: int| 0 <= k < steps.len() implies spares(#[trigger] steps[k], row) by {}
    law_spared_row_stays(failed, steps, row);
    lemma_claim_passes_over(after(failed, steps), row, later);
}

/// Nothing but a purge makes the store forget an id.
pub proof fn law_only_a_purge_forgets(store: StoreView, steps: Seq<Step>, event_id: Seq<char>)
    requires
        store.has_event(event_id),
        forall|i: int| 0 <= i < steps.len() ==> !(#[trigger] steps[i] is Purge),
    ensures
        after(store, steps).has_event(event_id),
    decreases steps.len(),
{
    if steps.len() > 0 {
        let front = steps.drop_last();
        assert forall|i: int| 0 <= i < front.len() implies !(#[trigger] front[i] is Purge) by {
            assert(front[i] == steps[i]);
        }
        law_only_a_purge_forgets(store, front, event_id);
        let before = after(store, front);
        let last = steps[steps.len() - 1];
        let i = choose|i: int|
            0 <= i < before.events.len() && (#[trigger] before.events[i]).event_id == event_id;
        if let Step::Claim { now, until } = last {
            lemma_next_ready(before.events, now);
        }
        assert(step(before, last).events[i].event_id == event_id);
    }
}

/// A request that is sent again at any time after it was accepted, whatever steps lie between, is
/// answered with success, wakes no worker and leaves the tables as they are, unless its event was
/// purged in between.
pub proof fn law_redelivery_is_harmless_ever_after(
    secret: Seq<u8>,
    request: Request,
    store: StoreView,
    now: int,
    steps: Seq<Step>,
    later: int,
)
    requires
        accepted(secret, request) is Some,
        (forall|i: int| 0 <= i < steps.len() ==> !(#[trigger] steps[i] is Purge)) || after(
            received(secret, request, store, now),
            steps,
        ).has_event(accepted(secret, request)->0.event_id),
    ensures
        ({
            let then = after(received(secret, request, store, now), steps);
            &&& answer(secret, request, then, true) == (Ack {
                status: StatusCode::Success,
                wake: false,
            })
            &&& received(secret, request, then, later) == then
        }),
{
    let id = accepted(secret, request)->0.event_id;
    let first = received(secret, request, store, now);
    law_acknowledged_means_stored(secret, request, store, true, now);
    if forall|i: int| 0 <= i < steps.len() ==> !(#[trigger] steps[i] is Purge) {
        law_only_a_purge_forgets(first, steps, id);
    }
    law_known_event_is_acknowledged_again(secret, request, after(first, steps), later);
}

/// No step makes up or alters an event: every row that is there after a step is of an event that was
/// there before it, with the same id, type, time, payload and time of receipt, or of the event that
/// the step stored, as it came.
pub proof fn law_no_step_alters_an_event(store: StoreView, s: Step, j: int)
    requires
        0 <= j < step(store, s).events.len(),
    ensures
        ({
            let row = step(store, s).events[j];
            ||| exists|i: int|
                {
                    &&& 0 <= i < store.events.len()
                    &&& row.event_id == (#[trigger] store.events[i]).event_id
                    &&& row.event_type == store.events[i].event_type
                    &&& row.event_ts == store.events[i].event_ts
                    &&& row.payload == store.events[i].payload
                    &&& row.received_at == store.events[i].received_at
                }
            ||| s matches Step::Enqueue { ev, now } && row.event_id == ev.event_id
                && row.event_type == ev.event_type && row.event_ts == ev.event_ts && row.payload
                == ev.payload && row.received_at == now
        }),
{
    let row = step(store, s).events[j];
    let i = match s {
        Step::Claim { now, until } => {
            lemma_next_ready(store.events, now);
            j
        },
        Step::Purge { cutoff } => {
            lemma_filter_holds(store.events, |e: EventView| !e.expired(cutoff), row);
            assert(step(store, s).events.contains(row));
            store.events.index_of(row)
        },
        _ => j,
    };
    if i < store.events.len() {
        assert(row.event_id == store.events[i].event_id);
    }
}

} // verus!
