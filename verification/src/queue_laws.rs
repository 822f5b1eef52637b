//! What holds of the queue as a whole, across calls.

use vstd::prelude::*;

use crate::store::{
    epoch_ms, fits_i64, is_next, lemma_filter_keeps_ids_apart, lemma_next_is_unique, next_ready,
    span_ms, Claimed, EventRow, EventView, InvoiceRow, NewEvent, NewEventView, Status, Store,
    StoreView,
};

verus! {

/// How the next row to claim changes when a row is added behind the others.
proof fn lemma_next_ready_push(events: Seq<EventView>, e: EventView, now: int)
    requires
        next_ready(events, now) matches Some(i) ==> is_next(events, i, now),
        next_ready(events, now) is None ==> forall|j: int|
            0 <= j < events.len() ==> !(#[trigger] events[j]).ready(now),
    ensures
        ({
            let n = events.len() as int;
            let more = events.push(e);
            match next_ready(events, now) {
                Some(i) => if e.ready(now) && e.next_attempt_at < events[i].next_attempt_at {
                    is_next(more, n, now) && next_ready(more, now) == Some(n)
                } else {
                    is_next(more, i, now) && next_ready(more, now) == Some(i)
                },
                None => if e.ready(now) {
                    is_next(more, n, now) && next_ready(more, now) == Some(n)
                } else {
                    next_ready(more, now) is None
                },
            }
        }),
{
    let n = events.len() as int;
    let more = events.push(e);
    assert(forall|j: int| 0 <= j < n ==> more[j] == events[j]);
    match next_ready(events, now) {
        Some(i) => {
            let k = if e.ready(now) && e.next_attempt_at < events[i].next_attempt_at {
                n
            } else {
                i
            };
            assert(is_next(more, k, now));
            let c = choose|c: int| is_next(more, c, now);
            lemma_next_is_unique(more, k, c, now);
        },
        None => {
            if e.ready(now) {
                assert(is_next(more, n, now));
                let c = choose|c: int| is_next(more, c, now);
                lemma_next_is_unique(more, n, c, now);
            }
        },
    }
}

/// A next row to claim exists exactly when some row is ready.
pub proof fn lemma_next_ready(events: Seq<EventView>, now: int)
    ensures
        next_ready(events, now) matches Some(i) ==> is_next(events, i, now),
        next_ready(events, now) is None ==> forall|j: int|
            0 <= j < events.len() ==> !(#[trigger] events[j]).ready(now),
    decreases events.len(),
{
    if events.len() > 0 {
        lemma_next_ready(events.drop_last(), now);
        lemma_next_ready_push(events.drop_last(), events.last(), now);
        assert(events.drop_last().push(events.last()) =~= events);
    }
}

/// Storing an event under an id that is taken changes nothing, however often it is done and
/// whatever else the event holds.
pub proof fn law_enqueue_is_idempotent(
    store: StoreView,
    ev: NewEventView,
    again: NewEventView,
    now: int,
    later: int,
)
    requires
        again.event_id == ev.event_id,
    ensures
        store.enqueued(ev, now).has_event(ev.event_id),
        store.enqueued(ev, now).enqueued(again, later) == store.enqueued(ev, now),
{
    let after = store.enqueued(ev, now);
    if !store.has_event(ev.event_id) {
        assert(after.events[after.events.len() - 1].event_id == ev.event_id);
    }
}

/// A new event is stored behind the others exactly as it came, and they stay as they are.
pub proof fn law_new_event_is_stored_as_received(store: StoreView, ev: NewEventView, now: int)
    requires
        !store.has_event(ev.event_id),
    ensures
        ({
            let after = store.enqueued(ev, now);
            &&& after.events.drop_last() == store.events
            &&& after.events.last().event_id == ev.event_id
            &&& after.events.last().event_type == ev.event_type
            &&& after.events.last().event_ts == ev.event_ts
            &&& after.events.last().payload == ev.payload
            &&& after.events.last().attempts == 0
            &&& after.invoices == store.invoices
        }),
{
    assert(store.enqueued(ev, now).events.drop_last() =~= store.events);
}

/// From the moment that an event is stored it can be claimed: a claim then comes back with an
/// event, and with this one, as a first attempt, when no other is ready.
pub proof fn law_new_event_can_be_claimed(store: StoreView, ev: NewEventView, now: int, later: int)
    requires
        !store.has_event(ev.event_id),
        now <= later,
    ensures
        ({
            let after = store.enqueued(ev, now);
            &&& next_ready(after.events, later) is Some
            &&& next_ready(store.events, later) is None ==> next_ready(after.events, later) == Some(
                store.events.len() as int,
            )
        }),
{
    let after = store.enqueued(ev, now);
    lemma_next_ready(after.events, later);
    lemma_next_ready(store.events, later);
    lemma_next_ready_push(store.events, EventView::fresh(ev, now), later);
    assert(after.events[store.events.len() as int].ready(later));
}

/// A claim takes a ready row that no ready row precedes, counts the attempt, and leaves every
/// other row and the invoices as they are.
pub proof fn law_claim_takes_the_row_that_waited_longest(store: StoreView, now: int, until: int)
    ensures
        match next_ready(store.events, now) {
            Some(i) => {
                let after = store.claimed(now, until);
                &&& 0 <= i < store.events.len()
                &&& store.events[i].ready(now)
                &&& forall|j: int|
                    0 <= j < store.events.len() && (#[trigger] store.events[j]).ready(now)
                        ==> store.events[i].next_attempt_at <= store.events[j].next_attempt_at
                &&& after.events[i].status == Status::Processing
                &&& after.events[i].attempts == store.events[i].attempts + 1
                &&& after.events.len() == store.events.len()
                &&& forall|j: int|
                    0 <= j < store.events.len() && j != i ==> #[trigger] after.events[j]
                        == store.events[j]
                &&& after.invoices == store.invoices
            },
            None => {
                &&& forall|j: int|
                    0 <= j < store.events.len() ==> !(#[trigger] store.events[j]).ready(now)
                &&& store.claimed(now, until) == store
            },
        },
{
    lemma_next_ready(store.events, now);
}

/// Until its lease runs out, a claimed event is not claimed again, and claims of other events
/// leave it as it is.
pub proof fn law_lease_hides_the_event(store: StoreView, now: int, until: int, later: int)
    requires
        later < until,
        next_ready(store.events, now) is Some,
    ensures
        ({
            let i = next_ready(store.events, now)->0;
            let after = store.claimed(now, until);
            &&& !after.events[i].ready(later)
            &&& next_ready(after.events, later) != Some(i)
            &&& forall|x: int| (#[trigger] after.claimed(later, x)).events[i] == after.events[i]
        }),
{
    lemma_next_ready(store.events, now);
    lemma_next_ready(store.claimed(now, until).events, later);
}

/// Once its lease has run out, an event that was claimed and not finished can be claimed again:
/// the work of a crashed worker is taken up, and the attempt is counted.
pub proof fn law_expired_lease_is_reclaimed(store: StoreView, now: int, until: int, later: int)
    requires
        until <= later,
        next_ready(store.events, now) is Some,
    ensures
        ({
            let i = next_ready(store.events, now)->0;
            let after = store.claimed(now, until);
            &&& after.events[i].ready(later)
            &&& next_ready(after.events, later) is Some
            &&& forall|again: int|
                next_ready(after.events, later) == Some(i) ==> (#[trigger] after.claimed(
                    later,
                    again,
                )).events[i].attempts == store.events[i].attempts + 2
        }),
{
    lemma_next_ready(store.events, now);
    lemma_next_ready(store.claimed(now, until).events, later);
}

/// An event that is done or given up is never claimed.
pub proof fn law_finished_event_is_never_claimed(store: StoreView, i: int, now: int)
    requires
        0 <= i < store.events.len(),
        store.events[i].status == Status::Done || store.events[i].status == Status::Dead,
    ensures
        !store.events[i].ready(now),
        next_ready(store.events, now) != Some(i),
{
    lemma_next_ready(store.events, now);
}

/// Whether two rows are of the same event as it came in.
pub open spec fn same_event(a: EventView, b: EventView) -> bool {
    &&& a.event_id == b.event_id
    &&& a.event_type == b.event_type
    &&& a.event_ts == b.event_ts
    &&& a.payload == b.payload
    &&& a.received_at == b.received_at
}

/// Storing, claiming, finishing and failing events lose no event and change nothing of what came
/// in: each row keeps its place, and its event.
pub proof fn law_no_event_is_lost(
    store: StoreView,
    ev: NewEventView,
    event_id: Seq<char>,
    text: Seq<char>,
    retry: bool,
    next: int,
    until: int,
    now: int,
    i: int,
)
    requires
        0 <= i < store.events.len(),
    ensures
        same_event(store.events[i], store.enqueued(ev, now).events[i]),
        same_event(store.events[i], store.claimed(now, until).events[i]),
        same_event(store.events[i], store.marked_done(event_id, text, now).events[i]),
        same_event(store.events[i], store.marked_failed(event_id, text, retry, next).events[i]),
{
    lemma_next_ready(store.events, now);
}

/// Only processing changes invoices: the steps of the queue leave them alone.
pub proof fn law_queue_leaves_invoices_alone(
    store: StoreView,
    ev: NewEventView,
    event_id: Seq<char>,
    text: Seq<char>,
    retry: bool,
    next: int,
    until: int,
    cutoff: int,
    now: int,
)
    ensures
        store.enqueued(ev, now).invoices == store.invoices,
        store.claimed(now, until).invoices == store.invoices,
        store.marked_done(event_id, text, now).invoices == store.invoices,
        store.marked_failed(event_id, text, retry, next).invoices == store.invoices,
        store.purged(cutoff).invoices == store.invoices,
{
}

/// Finishing or failing an event changes the rows of that id only.
pub proof fn law_other_events_are_untouched(
    store: StoreView,
    event_id: Seq<char>,
    text: Seq<char>,
    retry: bool,
    next: int,
    now: int,
    i: int,
)
    requires
        0 <= i < store.events.len(),
        store.events[i].event_id != event_id,
    ensures
        store.marked_done(event_id, text, now).events[i] == store.events[i],
        store.marked_failed(event_id, text, retry, next).events[i] == store.events[i],
{
}

/// A failed event with another attempt ahead is claimed again from its time on and not before; one
/// without is never claimed again.
pub proof fn law_failed_event_waits_or_is_given_up(
    store: StoreView,
    i: int,
    error: Seq<char>,
    retry: bool,
    next: int,
    now: int,
)
    requires
        0 <= i < store.events.len(),
    ensures
        ({
            let after = store.marked_failed(store.events[i].event_id, error, retry, next);
            &&& after.events[i].last_error == Some(error)
            &&& after.events[i].ready(now) <==> retry && next <= now
            &&& next_ready(after.events, now) == Some(i) ==> retry && next <= now
        }),
{
    let after = store.marked_failed(store.events[i].event_id, error, retry, next);
    lemma_next_ready(after.events, now);
}

/// A purge drops an event exactly when it is over and came in before the cutoff: what is still to
/// be processed is never dropped, and what is kept stays as it is.
pub proof fn law_purge_drops_only_what_is_over(store: StoreView, cutoff: int, e: EventView)
    ensures
        store.purged(cutoff).events.contains(e) <==> store.events.contains(e) && !e.expired(cutoff),
        e.status == Status::Pending || e.status == Status::Processing ==> !e.expired(cutoff),
        store.purged(cutoff).invoices == store.invoices,
{
    lemma_filter_holds(store.events, |x: EventView| !x.expired(cutoff), e);
}

/// A filtered sequence holds what the whole one holds and the filter lets through.
pub proof fn lemma_filter_holds<A>(s: Seq<A>, p: spec_fn(A) -> bool, e: A)
    ensures
        s.filter(p).contains(e) <==> s.contains(e) && p(e),
    decreases s.len(),
{
    reveal(Seq::filter);
    if s.len() > 0 {
        let front = s.drop_last();
        lemma_filter_holds(front, p, e);
        let f = front.filter(p);
        if s.contains(e) && p(e) {
            let k = s.index_of(e);
            if k < front.len() {
                assert(front[k] == e);
                let m = f.index_of(e);
                assert(s.filter(p)[m] == e);
            } else {
                assert(s.filter(p)[f.len() as int] == e);
            }
        }
        if s.filter(p).contains(e) {
            let m = s.filter(p).index_of(e);
            if m < f.len() {
                assert(f[m] == e);
                let k = front.index_of(e);
                assert(s[k] == e);
            } else {
                assert(s[s.len() - 1] == e);
            }
        }
    }
}

/// Once an event is purged, its id is free again: an event of that id counts as new.
pub proof fn law_purged_id_is_free(store: StoreView, i: int, cutoff: int)
    requires
        store.wf(),
        0 <= i < store.events.len(),
        store.events[i].expired(cutoff),
    ensures
        !store.purged(cutoff).has_event(store.events[i].event_id),
{
    let keeps = |e: EventView| !e.expired(cutoff);
    let after = store.purged(cutoff);
    lemma_filter_keeps_ids_apart(store.events, keeps);
    assert forall|j: int| 0 <= j < after.events.len() implies (#[trigger] after.events[j]).event_id
        != store.events[i].event_id by {
        let k = store.events.index_of(after.events[j]);
        assert(store.events[k] == after.events[j]);
    }
}

/// Whether an event is still to be processed.
pub open spec fn unfinished(e: EventView) -> bool {
    e.status == Status::Pending || e.status == Status::Processing
}

/// A claim needs the rows of unfinished events only: among them it takes the row that it takes
/// among all.
pub proof fn law_claim_needs_unfinished_rows_only(events: Seq<EventView>, now: int)
    ensures
        ({
            let open = events.filter(|e: EventView| unfinished(e));
            match next_ready(events, now) {
                Some(i) => next_ready(open, now) matches Some(j) && open[j] == events[i],
                None => next_ready(open, now) is None,
            }
        }),
    decreases events.len(),
{
    let p = |e: EventView| unfinished(e);
    reveal(Seq::filter);
    if events.len() > 0 {
        let front = events.drop_last();
        let last = events.last();
        law_claim_needs_unfinished_rows_only(front, now);
        lemma_next_ready(front, now);
        lemma_next_ready(front.filter(p), now);
        lemma_next_ready_push(front, last, now);
        lemma_next_ready_push(front.filter(p), last, now);
        assert(front.push(last) =~= events);
    } else {
        lemma_next_ready(events, now);
    }
}

/// Which row is claimed next depends on the statuses and times of the rows only.
pub proof fn law_claim_order_needs_times_only(a: Seq<EventView>, b: Seq<EventView>, now: int)
    requires
        a.len() == b.len(),
        forall|i: int|
            0 <= i < a.len() ==> (#[trigger] a[i]).status == (#[trigger] b[i]).status
                && a[i].next_attempt_at == b[i].next_attempt_at && a[i].locked_until
                == b[i].locked_until,
    ensures
        next_ready(a, now) == next_ready(b, now),
{
    lemma_next_ready(a, now);
    lemma_next_ready(b, now);
    assert forall|i: int| 0 <= i < a.len() implies (#[trigger] a[i]).ready(now) == b[i].ready(
        now,
    ) by {}
    if let Some(i) = next_ready(a, now) {
        assert(b[i].ready(now));
        assert forall|j: int| 0 <= j < b.len() && (#[trigger] b[j]).ready(now) implies {
            ||| b[i].next_attempt_at < b[j].next_attempt_at
            ||| b[i].next_attempt_at == b[j].next_attempt_at && i <= j
        } by {
            assert(a[j].ready(now));
        }
        assert(is_next(b, i, now));
        let c = next_ready(b, now)->0;
        lemma_next_is_unique(b, i, c, now);
    } else if let Some(i) = next_ready(b, now) {
        assert(a[i].ready(now));
    }
}

/// Once it is known which row is next, a claim needs that row only: alone it is claimed too, and
/// changes the same way.
pub proof fn law_claim_needs_the_next_row_only(store: StoreView, now: int, until: int)
    requires
        next_ready(store.events, now) is Some,
    ensures
        ({
            let i = next_ready(store.events, now)->0;
            let alone = StoreView { events: seq![store.events[i]], ..store };
            &&& next_ready(alone.events, now) == Some(0int)
            &&& alone.claimed(now, until).events == seq![store.claimed(now, until).events[i]]
        }),
{
    lemma_next_ready(store.events, now);
    let i = next_ready(store.events, now)->0;
    let alone = StoreView { events: seq![store.events[i]], ..store };
    lemma_next_ready(alone.events, now);
    assert(alone.events[0].ready(now));
    assert(next_ready(alone.events, now) == Some(0int));
    assert(alone.claimed(now, until).events =~= seq![store.claimed(now, until).events[i]]);
}

/// The rows of one event.
pub open spec fn rows_of(store: StoreView, event_id: Seq<char>) -> StoreView {
    StoreView { events: store.events.filter(|e: EventView| e.event_id == event_id), ..store }
}

/// Storing, finishing and failing an event need the rows of that event only: they decide the same
/// on them, and change them the same way.
pub proof fn law_one_event_needs_its_rows_only(
    store: StoreView,
    event_id: Seq<char>,
    text: Seq<char>,
    retry: bool,
    next: int,
    now: int,
)
    ensures
        rows_of(store, event_id).has_event(event_id) == store.has_event(event_id),
        rows_of(store.marked_done(event_id, text, now), event_id) == rows_of(
            store,
            event_id,
        ).marked_done(event_id, text, now),
        rows_of(store.marked_failed(event_id, text, retry, next), event_id) == rows_of(
            store,
            event_id,
        ).marked_failed(event_id, text, retry, next),
{
    let p = |e: EventView| e.event_id == event_id;
    let done = |e: EventView|
        if e.event_id == event_id {
            e.finished(text, now)
        } else {
            e
        };
    let failed = |e: EventView|
        if e.event_id == event_id {
            e.failed(text, retry, next)
        } else {
            e
        };
    lemma_filter_then_map(store.events, p, done);
    lemma_filter_then_map(store.events, p, failed);
    if store.has_event(event_id) {
        let i = choose|i: int|
            0 <= i < store.events.len() && (#[trigger] store.events[i]).event_id == event_id;
        lemma_filter_holds(store.events, p, store.events[i]);
        let j = store.events.filter(p).index_of(store.events[i]);
        assert(rows_of(store, event_id).events[j].event_id == event_id);
    }
    if rows_of(store, event_id).has_event(event_id) {
        let rows = store.events.filter(p);
        let j = choose|j: int| 0 <= j < rows.len() && (#[trigger] rows[j]).event_id == event_id;
        lemma_filter_holds(store.events, p, rows[j]);
        assert(rows.contains(rows[j]));
        let i = store.events.index_of(rows[j]);
        assert(store.events[i].event_id == event_id);
    }
}

/// A change that the filter does not see can come before or after the filter.
pub proof fn lemma_filter_then_map<A>(s: Seq<A>, p: spec_fn(A) -> bool, f: spec_fn(A) -> A)
    requires
        forall|e: A| p(#[trigger] f(e)) == p(e),
    ensures
        s.map_values(f).filter(p) == s.filter(p).map_values(f),
    decreases s.len(),
{
    reveal(Seq::filter);
    if s.len() > 0 {
        let front = s.drop_last();
        lemma_filter_then_map(front, p, f);
        assert(s.map_values(f).drop_last() =~= front.map_values(f));
        assert(s.map_values(f).last() == f(s.last()));
        assert(s.filter(p).map_values(f) =~= if p(s.last()) {
            front.filter(p).map_values(f).push(f(s.last()))
        } else {
            front.filter(p).map_values(f)
        });
    } else {
        assert(s.map_values(f).filter(p) =~= s.filter(p).map_values(f));
    }
}

/// A purge needs the rows of finished events only: among them it drops the rows that it drops
/// among all, as many of them, and what it keeps of them is what it keeps of them among all.
pub proof fn law_purge_needs_finished_rows_only(store: StoreView, cutoff: int)
    ensures
        ({
            let over = StoreView {
                events: store.events.filter(|e: EventView| !unfinished(e)),
                ..store
            };
            let drops = |e: EventView| e.expired(cutoff);
            &&& over.events.filter(drops) == store.events.filter(drops)
            &&& over.events.len() - over.purged(cutoff).events.len() == store.events.len()
                - store.purged(cutoff).events.len()
            &&& over.purged(cutoff).events == store.purged(cutoff).events.filter(
                |e: EventView| !unfinished(e),
            )
        }),
    decreases store.events.len(),
{
    reveal(Seq::filter);
    let finished = |e: EventView| !unfinished(e);
    let keeps = |e: EventView| !e.expired(cutoff);
    let drops = |e: EventView| e.expired(cutoff);
    if store.events.len() > 0 {
        let front = StoreView { events: store.events.drop_last(), ..store };
        let last = store.events.last();
        law_purge_needs_finished_rows_only(front, cutoff);
        let over = front.events.filter(finished);
        let kept = front.events.filter(keeps);
        assert(over.push(last).drop_last() =~= over);
        assert(kept.push(last).drop_last() =~= kept);
    }
}

/// The model of a stored row shows every field of it, whole.
pub proof fn law_row_is_shown_whole(row: EventRow)
    ensures
        row@.event_id == row.event_id@,
        row@.event_type == row.event_type@,
        row@.event_ts == row.event_ts,
        row@.payload == row.payload@,
        row@.status == row.status,
        row@.attempts == row.attempts,
        row@.next_attempt_at == row.next_attempt_at,
        row@.locked_until == row.locked_until,
        row@.received_at == row.received_at,
        row.result is None <==> row@.result is None,
        row.result matches Some(t) ==> row@.result == Some(t@),
        row.last_error is None <==> row@.last_error is None,
        row.last_error matches Some(t) ==> row@.last_error == Some(t@),
        row.processed_at is None <==> row@.processed_at is None,
        row.processed_at matches Some(t) ==> row@.processed_at == Some(t as int),
{
}

/// The models of an event that comes in, of one that is handed out and of an invoice show every
/// field of them, whole.
pub proof fn law_events_and_invoices_are_shown_whole(
    ev: NewEvent,
    claimed: Claimed,
    invoice: InvoiceRow,
)
    ensures
        ev@.event_id == ev.event_id@,
        ev@.event_type == ev.event_type@,
        ev@.event_ts == ev.event_ts,
        ev@.payload == ev.payload@,
        claimed@.event_id == claimed.event_id@,
        claimed@.event_type == claimed.event_type@,
        claimed@.event_ts == claimed.event_ts,
        claimed@.payload == claimed.payload@,
        claimed@.attempts == claimed.attempts,
        invoice@.invoice_id == invoice.invoice_id@,
        invoice@.status == invoice.status@,
        invoice@.last_event_ts == invoice.last_event_ts,
{
}

/// The model of the tables shows every row of them, in order.
pub proof fn law_tables_are_shown_whole(store: Store)
    ensures
        store@.events.len() == store.events@.len(),
        store@.invoices.len() == store.invoices@.len(),
        forall|i: int|
            0 <= i < store.events@.len() ==> #[trigger] store@.events[i] == store.events@[i]@,
        forall|i: int|
            0 <= i < store.invoices@.len() ==> #[trigger] store@.invoices[i]
                == store.invoices@[i]@,
{
}

/// An id is known exactly when some row carries it, character for character.
pub proof fn law_id_is_known_when_a_row_carries_it(store: StoreView, id: Seq<char>)
    ensures
        !store.has_event(id) <==> forall|i: int|
            0 <= i < store.events.len() ==> (#[trigger] store.events[i]).event_id != id,
        !store.has_invoice(id) <==> forall|i: int|
            0 <= i < store.invoices.len() ==> (#[trigger] store.invoices[i]).invoice_id != id,
{
}

/// Tables are valid when no two rows share an id, attempts count from zero, only leased rows carry
/// a lease, leased rows were claimed, done rows have a result, a time and no error, and rows that
/// were given up or wait after an attempt say what went wrong. No valid table lacks any of this.
pub proof fn law_valid_tables(store: StoreView)
    ensures
        store.wf() <==> {
            &&& forall|i: int, j: int|
                0 <= i < store.events.len() && 0 <= j < store.events.len() && (
                #[trigger] store.events[i]).event_id == (#[trigger] store.events[j]).event_id
                    ==> i == j
            &&& forall|i: int, j: int|
                0 <= i < store.invoices.len() && 0 <= j < store.invoices.len() && (
                #[trigger] store.invoices[i]).invoice_id == (
                #[trigger] store.invoices[j]).invoice_id ==> i == j
            &&& forall|i: int|
                0 <= i < store.events.len() ==> {
                    let e = #[trigger] store.events[i];
                    match e.status {
                        Status::Processing => e.attempts >= 1,
                        Status::Pending => e.locked_until == 0 && (e.attempts == 0 || e.attempts
                            > 0 && e.last_error is Some),
                        Status::Done => e.locked_until == 0 && e.attempts >= 0 && e.result is Some
                            && e.last_error is None && e.processed_at is Some,
                        Status::Dead => e.locked_until == 0 && e.attempts >= 0
                            && e.last_error is Some,
                    }
                }
        },
{
    let apart = forall|i: int, j: int|
        0 <= i < store.events.len() && 0 <= j < store.events.len() && (
        #[trigger] store.events[i]).event_id == (#[trigger] store.events[j]).event_id ==> i == j;
    let invoices_apart = forall|i: int, j: int|
        0 <= i < store.invoices.len() && 0 <= j < store.invoices.len() && (
        #[trigger] store.invoices[i]).invoice_id == (#[trigger] store.invoices[j]).invoice_id ==> i
            == j;
    if store.wf() {
        assert forall|i: int, j: int|
            0 <= i < store.events.len() && 0 <= j < store.events.len() && (
            #[trigger] store.events[i]).event_id == (
            #[trigger] store.events[j]).event_id implies i == j by {
            if i < j {
                assert(store.events[i].event_id != store.events[j].event_id);
            } else if j < i {
                assert(store.events[j].event_id != store.events[i].event_id);
            }
        }
        assert forall|i: int, j: int|
            0 <= i < store.invoices.len() && 0 <= j < store.invoices.len() && (
            #[trigger] store.invoices[i]).invoice_id == (
            #[trigger] store.invoices[j]).invoice_id implies i == j by {
            if i < j {
                assert(store.invoices[i].invoice_id != store.invoices[j].invoice_id);
            } else if j < i {
                assert(store.invoices[j].invoice_id != store.invoices[i].invoice_id);
            }
        }
        assert(apart && invoices_apart);
    }
}

/// An event whose id no row carries becomes one more row behind the others: pending, due and
/// received now, never attempted, and otherwise as it came. Where a row carries the id, nothing
/// changes.
pub proof fn law_event_comes_in_whole(store: StoreView, ev: NewEventView, now: int)
    ensures
        ({
            let after = store.enqueued(ev, now);
            let n = store.events.len() as int;
            &&& after.invoices == store.invoices
            &&& (exists|i: int|
                0 <= i < n && (#[trigger] store.events[i]).event_id == ev.event_id) ==> after.events
                == store.events
            &&& (forall|i: int|
                0 <= i < n ==> (#[trigger] store.events[i]).event_id != ev.event_id) ==> {
                &&& after.events.len() == n + 1
                &&& forall|i: int| 0 <= i < n ==> #[trigger] after.events[i] == store.events[i]
                &&& after.events[n].event_id == ev.event_id
                &&& after.events[n].event_type == ev.event_type
                &&& after.events[n].event_ts == ev.event_ts
                &&& after.events[n].payload == ev.payload
                &&& after.events[n].status == Status::Pending
                &&& after.events[n].attempts == 0
                &&& after.events[n].next_attempt_at == now
                &&& after.events[n].received_at == now
                &&& after.events[n].locked_until == 0
                &&& after.events[n].result is None
                &&& after.events[n].last_error is None
                &&& after.events[n].processed_at is None
            }
        }),
{
}

/// A row can be claimed exactly when it is pending and due, or leased and the lease has run out;
/// nothing else of the row matters.
pub proof fn law_row_is_ready_by_status_and_time(row: EventView, now: int)
    ensures
        row.status == Status::Pending ==> (row.ready(now) <==> row.next_attempt_at <= now),
        row.status == Status::Processing ==> (row.ready(now) <==> row.locked_until <= now),
        row.status == Status::Done || row.status == Status::Dead ==> !row.ready(now),
{
}

/// A claim comes back with an event exactly when some row is pending and due or leased with its
/// lease run out; of these it takes the one whose attempt was due first, the earlier row among
/// equals.
pub proof fn law_claim_takes_what_was_due_first(events: Seq<EventView>, now: int)
    ensures
        match next_ready(events, now) {
            Some(i) => {
                &&& 0 <= i < events.len()
                &&& events[i].status == Status::Pending && events[i].next_attempt_at <= now
                    || events[i].status == Status::Processing && events[i].locked_until <= now
                &&& forall|j: int|
                    0 <= j < events.len() && ((#[trigger] events[j]).status == Status::Pending
                        && events[j].next_attempt_at <= now || events[j].status
                        == Status::Processing && events[j].locked_until <= now) ==> {
                        ||| events[i].next_attempt_at < events[j].next_attempt_at
                        ||| events[i].next_attempt_at == events[j].next_attempt_at && i <= j
                    }
            },
            None => forall|j: int|
                0 <= j < events.len() ==> match (#[trigger] events[j]).status {
                    Status::Pending => events[j].next_attempt_at > now,
                    Status::Processing => events[j].locked_until > now,
                    Status::Done => true,
                    Status::Dead => true,
                },
        },
{
    lemma_next_ready(events, now);
    if let Some(i) = next_ready(events, now) {
        assert forall|j: int|
            0 <= j < events.len() && ((#[trigger] events[j]).status == Status::Pending
                && events[j].next_attempt_at <= now || events[j].status == Status::Processing
                && events[j].locked_until <= now) implies {
            ||| events[i].next_attempt_at < events[j].next_attempt_at
            ||| events[i].next_attempt_at == events[j].next_attempt_at && i <= j
        } by {
            assert(events[j].ready(now));
        }
    } else {
        assert forall|j: int| 0 <= j < events.len() implies match (#[trigger] events[j]).status {
            Status::Pending => events[j].next_attempt_at > now,
            Status::Processing => events[j].locked_until > now,
            Status::Done => true,
            Status::Dead => true,
        } by {
            assert(!events[j].ready(now));
        }
    }
}

/// A claim hands out the stored event: the id, the type, the time and the whole payload of the row
/// that was next, with the attempt counted. The row is leased and otherwise as it was, and so is
/// every other row.
pub proof fn law_claim_hands_out_the_stored_event(store: StoreView, now: int, until: int)
    requires
        next_ready(store.events, now) is Some,
    ensures
        ({
            let i = next_ready(store.events, now)->0;
            let row = store.events[i];
            let after = store.claimed(now, until);
            let left = after.events[i];
            let handed = left.claimed();
            &&& handed.event_id == row.event_id
            &&& handed.event_type == row.event_type
            &&& handed.event_ts == row.event_ts
            &&& handed.payload == row.payload
            &&& handed.attempts == row.attempts + 1
            &&& left.status == Status::Processing
            &&& left.locked_until == until
            &&& left.attempts == row.attempts + 1
            &&& left.event_id == row.event_id
            &&& left.event_type == row.event_type
            &&& left.event_ts == row.event_ts
            &&& left.payload == row.payload
            &&& left.next_attempt_at == row.next_attempt_at
            &&& left.result == row.result
            &&& left.last_error == row.last_error
            &&& left.received_at == row.received_at
            &&& left.processed_at == row.processed_at
            &&& after.invoices == store.invoices
            &&& after.events.len() == store.events.len()
            &&& forall|j: int|
                0 <= j < store.events.len() && j != i ==> #[trigger] after.events[j]
                    == store.events[j]
        }),
{
    lemma_next_ready(store.events, now);
}

/// An event is claimed as it came in: the first claim of a new event hands out the id, the type,
/// the time and the payload that were stored, as a first attempt.
pub proof fn law_event_is_claimed_as_it_came_in(
    store: StoreView,
    ev: NewEventView,
    now: int,
    later: int,
    until: int,
)
    requires
        forall|i: int|
            0 <= i < store.events.len() ==> (#[trigger] store.events[i]).event_id != ev.event_id,
        next_ready(store.enqueued(ev, now).events, later) == Some(store.events.len() as int),
    ensures
        ({
            let handed = store.enqueued(ev, now).claimed(
                later,
                until,
            ).events[store.events.len() as int].claimed();
            &&& handed.event_id == ev.event_id
            &&& handed.event_type == ev.event_type
            &&& handed.event_ts == ev.event_ts
            &&& handed.payload == ev.payload
            &&& handed.attempts == 1
        }),
{
    law_event_comes_in_whole(store, ev, now);
    law_claim_hands_out_the_stored_event(store.enqueued(ev, now), later, until);
}

/// A finished event is done with its result and its time, carries no error and no lease, and is
/// otherwise as it was.
pub proof fn law_finished_row_keeps_its_event(
    store: StoreView,
    event_id: Seq<char>,
    result: Seq<char>,
    now: int,
    i: int,
)
    requires
        0 <= i < store.events.len(),
    ensures
        ({
            let row = store.events[i];
            let after = store.marked_done(event_id, result, now);
            let left = after.events[i];
            &&& after.invoices == store.invoices
            &&& after.events.len() == store.events.len()
            &&& row.event_id != event_id ==> left == row
            &&& row.event_id == event_id ==> {
                &&& left.status == Status::Done
                &&& left.result == Some(result)
                &&& left.last_error is None
                &&& left.processed_at == Some(now)
                &&& left.locked_until == 0
                &&& left.event_id == row.event_id
                &&& left.event_type == row.event_type
                &&& left.event_ts == row.event_ts
                &&& left.payload == row.payload
                &&& left.attempts == row.attempts
                &&& left.next_attempt_at == row.next_attempt_at
                &&& left.received_at == row.received_at
            }
        }),
{
}

/// A failed event is pending, or dead when there is no other attempt; it carries the error and no
/// lease, and is otherwise as it was.
pub proof fn law_failed_row_keeps_its_event(
    store: StoreView,
    event_id: Seq<char>,
    error: Seq<char>,
    retry: bool,
    next: int,
    i: int,
)
    requires
        0 <= i < store.events.len(),
    ensures
        ({
            let row = store.events[i];
            let after = store.marked_failed(event_id, error, retry, next);
            let left = after.events[i];
            &&& after.invoices == store.invoices
            &&& after.events.len() == store.events.len()
            &&& row.event_id != event_id ==> left == row
            &&& row.event_id == event_id ==> {
                &&& retry ==> left.status == Status::Pending
                &&& !retry ==> left.status == Status::Dead
                &&& left.next_attempt_at == next
                &&& left.last_error == Some(error)
                &&& left.locked_until == 0
                &&& left.event_id == row.event_id
                &&& left.event_type == row.event_type
                &&& left.event_ts == row.event_ts
                &&& left.payload == row.payload
                &&& left.attempts == row.attempts
                &&& left.result == row.result
                &&& left.received_at == row.received_at
                &&& left.processed_at == row.processed_at
            }
        }),
{
}

/// A span counts as its whole milliseconds, whatever its length, as long as 64 bits hold them.
pub proof fn law_span_counts_its_milliseconds(nanos: nat)
    ensures
        nanos / 1_000_000 <= i64::MAX ==> span_ms(nanos) == nanos / 1_000_000,
        i64::MIN <= span_ms(nanos) <= i64::MAX,
        (nanos / 1_000_000 - span_ms(nanos)) % 0x1_0000_0000_0000_0000 == 0,
{
    crate::duration::law_narrowing_keeps_what_fits(nanos as int / 1_000_000);
}

/// A number fits in 64 bits exactly when it is one of theirs.
pub proof fn law_fits_when_in_range(x: int)
    ensures
        fits_i64(x) <==> -0x8000_0000_0000_0000 <= x < 0x8000_0000_0000_0000,
{
}

/// A lease of some length hides the event for so many milliseconds, neither more nor fewer.
pub proof fn law_lease_lasts_its_length(store: StoreView, lease: nat, now: int, later: int)
    requires
        next_ready(store.events, now) is Some,
        lease / 1_000_000 <= i64::MAX,
    ensures
        ({
            let i = next_ready(store.events, now)->0;
            let left = store.claimed(now, now + span_ms(lease)).events[i];
            left.ready(later) <==> later - now >= lease / 1_000_000
        }),
{
    law_span_counts_its_milliseconds(lease);
    law_claim_hands_out_the_stored_event(store, now, now + span_ms(lease));
}

/// An event that fails with a wait ahead can be claimed once so many milliseconds have passed, and
/// not before.
pub proof fn law_retry_comes_after_its_wait(
    store: StoreView,
    error: Seq<char>,
    wait: nat,
    now: int,
    later: int,
    i: int,
)
    requires
        0 <= i < store.events.len(),
        wait / 1_000_000 <= i64::MAX,
    ensures
        ({
            let id = store.events[i].event_id;
            let left = store.marked_failed(id, error, true, now + span_ms(wait)).events[i];
            &&& left.next_attempt_at - now == wait / 1_000_000
            &&& left.ready(later) <==> later - now >= wait / 1_000_000
        }),
{
    law_span_counts_its_milliseconds(wait);
}

/// After a purge no row is left that is done or dead and came in before the cutoff, whatever else
/// it holds, and every other row is left, as often as before and in its order.
pub proof fn law_purge_goes_by_status_and_age(store: StoreView, cutoff: int)
    ensures
        store.purged(cutoff).invoices == store.invoices,
        store.purged(cutoff).events == store.events.filter(
            |e: EventView|
                e.received_at >= cutoff || e.status == Status::Pending || e.status
                    == Status::Processing,
        ),
        forall|i: int|
            0 <= i < store.purged(cutoff).events.len() ==> {
                ||| (#[trigger] store.purged(cutoff).events[i]).received_at >= cutoff
                ||| store.purged(cutoff).events[i].status == Status::Pending
                ||| store.purged(cutoff).events[i].status == Status::Processing
            },
        forall|i: int|
            0 <= i < store.events.len() && ((#[trigger] store.events[i]).received_at >= cutoff
                || store.events[i].status == Status::Pending || store.events[i].status
                == Status::Processing) ==> store.purged(cutoff).events.contains(store.events[i]),
        forall|i: int|
            0 <= i < store.events.len() && (#[trigger] store.events[i]).received_at < cutoff && (
            store.events[i].status == Status::Done || store.events[i].status == Status::Dead)
                ==> !store.purged(cutoff).events.contains(store.events[i]),
{
    let stays = |e: EventView|
        e.received_at >= cutoff || e.status == Status::Pending || e.status == Status::Processing;
    let keeps = |e: EventView| !e.expired(cutoff);
    assert forall|e: EventView| #[trigger] stays(e) == keeps(e) by {
        match e.status {
            Status::Pending => {},
            Status::Processing => {},
            Status::Done => {},
            Status::Dead => {},
        }
    }
    lemma_filters_agree(store.events, stays, keeps);
    let after = store.purged(cutoff);
    assert forall|i: int| 0 <= i < after.events.len() implies stays(#[trigger] after.events[i]) by {
        lemma_filter_holds(store.events, stays, after.events[i]);
        assert(after.events.contains(after.events[i]));
    }
    assert forall|i: int| 0 <= i < store.events.len() implies (stays(#[trigger] store.events[i])
        <==> after.events.contains(store.events[i])) by {
        lemma_filter_holds(store.events, stays, store.events[i]);
        assert(store.events.contains(store.events[i]));
    }
}

/// Two filters that let the same through give the same.
proof fn lemma_filters_agree(
    s: Seq<EventView>,
    p: spec_fn(EventView) -> bool,
    q: spec_fn(EventView) -> bool,
)
    requires
        forall|e: EventView| #[trigger] p(e) == q(e),
    ensures
        s.filter(p) == s.filter(q),
    decreases s.len(),
{
    reveal(Seq::filter);
    if s.len() > 0 {
        lemma_filters_agree(s.drop_last(), p, q);
    }
}

/// What came in within a retention period stays through a purge, and what is over and older goes,
/// by the milliseconds of the period.
pub proof fn law_retention_lasts_its_length(store: StoreView, keep: nat, now: int, i: int)
    requires
        0 <= i < store.events.len(),
        keep / 1_000_000 <= i64::MAX,
    ensures
        ({
            let row = store.events[i];
            let after = store.purged(now - span_ms(keep));
            after.events.contains(row) <==> {
                ||| now - row.received_at <= keep / 1_000_000
                ||| row.status == Status::Pending
                ||| row.status == Status::Processing
            }
        }),
{
    law_span_counts_its_milliseconds(keep);
    law_purge_goes_by_status_and_age(store, now - span_ms(keep));
}

/// A clock reading counts as its whole milliseconds since the epoch, as long as 64 bits hold them;
/// a clock before the epoch has none.
pub proof fn law_reading_counts_its_milliseconds(secs: u64, nanos: u32)
    requires
        nanos < 1_000_000_000,
    ensures
        epoch_ms(None) is None,
        epoch_ms(Some((secs, nanos))) is Some,
        secs * 1_000 + nanos / 1_000_000 <= i64::MAX ==> epoch_ms(Some((secs, nanos)))->0 == secs
            * 1_000 + nanos / 1_000_000,
        (secs * 1_000 + nanos / 1_000_000 - epoch_ms(Some((secs, nanos)))->0)
            % 0x1_0000_0000_0000_0000 == 0,
{
    let ms = (secs * 1_000_000_000 + nanos) / 1_000_000;
    assert(ms == secs * 1_000 + nanos / 1_000_000);
    crate::duration::law_narrowing_keeps_what_fits(ms);
}

/// Each status is written as the word that the tables hold.
pub proof fn law_statuses_are_written_in_words()
    ensures
        Status::Pending.spec_text() == "pending"@,
        Status::Processing.spec_text() == "processing"@,
        Status::Done.spec_text() == "done"@,
        Status::Dead.spec_text() == "dead"@,
{
}

} // verus!
