//! What holds of the invoices whatever the order in which events are processed, and however
//! often.

use vstd::prelude::*;

use crate::processor::{invoice_status, process_fails, process_text, processed, stale_text};
use crate::queue_laws::{
    law_one_event_needs_its_rows_only, lemma_filter_holds, lemma_filter_then_map, rows_of,
};
use crate::store::{span_ms, ClaimedView, EventView, InvoiceView, Status, StoreView};
use crate::worker::{after_failure, after_success, retry_nanos, WorkerCfg};

verus! {

/// The invoice of this id, where there is one.
pub open spec fn invoice(store: StoreView, id: Seq<char>) -> Option<InvoiceView> {
    if store.has_invoice(id) {
        Some(
            store.invoices[choose|i: int|
                0 <= i < store.invoices.len() && (#[trigger] store.invoices[i]).invoice_id == id],
        )
    } else {
        None
    }
}

/// The tables after a sequence of events was processed, each with the invoice that it names.
pub open spec fn process_all(store: StoreView, evs: Seq<(ClaimedView, Seq<char>)>) -> StoreView
    decreases evs.len(),
{
    if evs.len() == 0 {
        store
    } else {
        processed(process_all(store, evs.drop_last()), evs.last().0, Some(evs.last().1))
    }
}

/// What is found at a place of the invoices is what a lookup of its id finds.
proof fn lemma_invoice_at(store: StoreView, i: int)
    requires
        store.wf(),
        0 <= i < store.invoices.len(),
    ensures
        invoice(store, store.invoices[i].invoice_id) == Some(store.invoices[i]),
{
    let id = store.invoices[i].invoice_id;
    assert(store.has_invoice(id));
    let c = choose|c: int|
        0 <= c < store.invoices.len() && (#[trigger] store.invoices[c]).invoice_id == id;
    if c < i {
        assert(store.invoices[c].invoice_id != store.invoices[i].invoice_id);
    } else if i < c {
        assert(store.invoices[i].invoice_id != store.invoices[c].invoice_id);
    }
}

/// What one event does to an invoice, and that it does nothing to another.
proof fn lemma_invoiced(store: StoreView, id: Seq<char>, status: Seq<char>, ts: int, other: Seq<char>)
    requires
        store.wf(),
        other != id,
    ensures
        store.invoiced(id, status, ts).wf(),
        invoice(store.invoiced(id, status, ts), id) == match invoice(store, id) {
            Some(v) => if ts > v.last_event_ts {
                Some(InvoiceView { invoice_id: id, status, last_event_ts: ts })
            } else {
                Some(v)
            },
            None => Some(InvoiceView { invoice_id: id, status, last_event_ts: ts }),
        },
        invoice(store.invoiced(id, status, ts), other) == invoice(store, other),
        store.applies(id, ts) == match invoice(store, id) {
            Some(v) => ts > v.last_event_ts,
            None => true,
        },
{
    let after = store.invoiced(id, status, ts);
    let new = InvoiceView { invoice_id: id, status, last_event_ts: ts };
    assert(after.wf());
    if store.has_invoice(id) {
        let i = choose|i: int|
            0 <= i < store.invoices.len() && (#[trigger] store.invoices[i]).invoice_id == id;
        lemma_invoice_at(store, i);
        assert(after.invoices[i].invoice_id == id);
        lemma_invoice_at(after, i);
        assert forall|j: int|
            0 <= j < store.invoices.len() && (#[trigger] store.invoices[j]).invoice_id
                == id implies j == i by {
            lemma_invoice_at(store, j);
            if j < i {
                assert(store.invoices[j].invoice_id != store.invoices[i].invoice_id);
            } else if i < j {
                assert(store.invoices[i].invoice_id != store.invoices[j].invoice_id);
            }
        }
    } else {
        let n = store.invoices.len() as int;
        assert(after.invoices[n] == new);
        lemma_invoice_at(after, n);
    }
    if store.has_invoice(other) {
        let j = choose|j: int|
            0 <= j < store.invoices.len() && (#[trigger] store.invoices[j]).invoice_id == other;
        lemma_invoice_at(store, j);
        assert(after.invoices[j] == store.invoices[j]);
        lemma_invoice_at(after, j);
    } else if after.has_invoice(other) {
        let j = choose|j: int|
            0 <= j < after.invoices.len() && (#[trigger] after.invoices[j]).invoice_id == other;
        assert(j < store.invoices.len());
        assert(store.invoices[j].invoice_id == other);
    }
}

/// Applying an event to an invoice keeps the tables valid.
pub proof fn lemma_invoiced_keeps_wf(store: StoreView, id: Seq<char>, status: Seq<char>, ts: int)
    requires
        store.wf(),
    ensures
        store.invoiced(id, status, ts).wf(),
{
    let other = lemma_other_text(id);
    lemma_invoiced(store, id, status, ts, other);
}

/// A text that differs from `id`.
proof fn lemma_other_text(id: Seq<char>) -> (other: Seq<char>)
    ensures
        other != id,
{
    let other = id.push('x');
    assert(other.len() != id.len());
    other
}

/// The invoice after an event of this type and time was applied to it.
pub open spec fn next_invoice(
    held: Option<InvoiceView>,
    id: Seq<char>,
    ev: ClaimedView,
) -> Option<InvoiceView> {
    match invoice_status(ev.event_type) {
        Some(status) => {
            let new = InvoiceView { invoice_id: id, status, last_event_ts: ev.event_ts };
            match held {
                Some(v) => if ev.event_ts > v.last_event_ts {
                    Some(new)
                } else {
                    Some(v)
                },
                None => Some(new),
            }
        },
        None => held,
    }
}

/// An event changes the invoice that it names, and that one only.
pub proof fn law_event_changes_its_invoice_only(
    store: StoreView,
    ev: ClaimedView,
    named: Seq<char>,
    id: Seq<char>,
)
    requires
        store.wf(),
    ensures
        processed(store, ev, Some(named)).wf(),
        invoice(processed(store, ev, Some(named)), id) == if id == named {
            next_invoice(invoice(store, id), id, ev)
        } else {
            invoice(store, id)
        },
{
    let other = if id == named {
        lemma_other_text(named)
    } else {
        id
    };
    if let Some(status) = invoice_status(ev.event_type) {
        lemma_invoiced(store, named, status, ev.event_ts, other);
    }
}

/// Processing an event a second time changes nothing, and the audit log calls it stale.
pub proof fn law_processing_is_idempotent(store: StoreView, ev: ClaimedView, id: Seq<char>)
    requires
        store.wf(),
    ensures
        ({
            let once = processed(store, ev, Some(id));
            &&& processed(once, ev, Some(id)) == once
            &&& invoice_status(ev.event_type) is Some ==> process_text(once, ev, Some(id))
                == stale_text(ev.event_type, id)
        }),
{
    let once = processed(store, ev, Some(id));
    let other = lemma_other_text(id);
    if let Some(status) = invoice_status(ev.event_type) {
        lemma_invoiced(store, id, status, ev.event_ts, other);
        lemma_invoiced(once, id, status, ev.event_ts, other);
        assert(!once.applies(id, ev.event_ts));
        assert(once.has_invoice(id));
        assert(once.invoiced(id, status, ev.event_ts).invoices =~= once.invoices);
    }
}

/// The time of an invoice's last event never goes back, and an invoice is never dropped.
pub proof fn law_invoice_time_never_goes_back(store: StoreView, ev: ClaimedView, id: Seq<char>)
    requires
        store.wf(),
    ensures
        invoice(store, id) matches Some(v) ==> invoice(processed(store, ev, Some(id)), id) matches Some(
            w,
        ) && v.last_event_ts <= w.last_event_ts,
{
    law_event_changes_its_invoice_only(store, ev, id, id);
}

/// Whether an event bears on the invoice: a handler takes it, and it names that invoice.
pub open spec fn concerns(pair: (ClaimedView, Seq<char>), id: Seq<char>) -> bool {
    pair.1 == id && invoice_status(pair.0.event_type) is Some
}

/// Whether no event that bears on the invoice is newer than event `k`, and none but its like is as
/// new.
pub open spec fn is_newest(evs: Seq<(ClaimedView, Seq<char>)>, id: Seq<char>, k: int) -> bool {
    &&& 0 <= k < evs.len()
    &&& concerns(evs[k], id)
    &&& forall|j: int|
        0 <= j < evs.len() && concerns(#[trigger] evs[j], id) ==> {
            ||| evs[j].0.event_ts < evs[k].0.event_ts
            ||| evs[j].0.event_ts == evs[k].0.event_ts && invoice_status(evs[j].0.event_type)
                == invoice_status(evs[k].0.event_type)
        }
}

/// What an event gives to the invoice that it names.
pub open spec fn given(pair: (ClaimedView, Seq<char>)) -> InvoiceView {
    InvoiceView {
        invoice_id: pair.1,
        status: invoice_status(pair.0.event_type)->0,
        last_event_ts: pair.0.event_ts,
    }
}

/// The newest event decides: when it is newer than what is held, the invoice ends with the status
/// and the time of that event, wherever in the sequence it stands and whatever events of other
/// invoices stand between.
pub proof fn law_newest_event_decides(
    store: StoreView,
    id: Seq<char>,
    evs: Seq<(ClaimedView, Seq<char>)>,
    k: int,
)
    requires
        store.wf(),
        is_newest(evs, id, k),
        invoice(store, id) matches Some(v) ==> v.last_event_ts < evs[k].0.event_ts,
    ensures
        process_all(store, evs).wf(),
        invoice(process_all(store, evs), id) == Some(given(evs[k])),
{
    lemma_newest_event_decides_up_to(store, id, evs, k, evs.len() as int);
    assert(evs.take(evs.len() as int) =~= evs);
}

/// The same, for the first `n` events: the invoice holds something older, or what the newest
/// event gives it, and the latter once that event was among them.
proof fn lemma_newest_event_decides_up_to(
    store: StoreView,
    id: Seq<char>,
    evs: Seq<(ClaimedView, Seq<char>)>,
    k: int,
    n: int,
)
    requires
        store.wf(),
        0 <= n <= evs.len(),
        is_newest(evs, id, k),
        invoice(store, id) matches Some(v) ==> v.last_event_ts < evs[k].0.event_ts,
    ensures
        process_all(store, evs.take(n)).wf(),
        match invoice(process_all(store, evs.take(n)), id) {
            Some(v) => v == given(evs[k]) || v.last_event_ts < evs[k].0.event_ts && n <= k,
            None => n <= k,
        },
    decreases n,
{
    if n > 0 {
        lemma_newest_event_decides_up_to(store, id, evs, k, n - 1);
        assert(evs.take(n).drop_last() =~= evs.take(n - 1));
        let last = evs[n - 1];
        let before = process_all(store, evs.take(n - 1));
        law_event_changes_its_invoice_only(before, last.0, last.1, id);
    }
}

/// When no event that bears on the invoice is newer than what is held, the invoice stays.
pub proof fn law_stale_events_change_nothing(
    store: StoreView,
    id: Seq<char>,
    evs: Seq<(ClaimedView, Seq<char>)>,
)
    requires
        store.wf(),
        forall|j: int|
            0 <= j < evs.len() && concerns(#[trigger] evs[j], id) ==> (invoice(store, id) matches Some(
                v,
            ) && evs[j].0.event_ts <= v.last_event_ts),
    ensures
        process_all(store, evs).wf(),
        invoice(process_all(store, evs), id) == invoice(store, id),
    decreases evs.len(),
{
    if evs.len() > 0 {
        let front = evs.drop_last();
        assert(forall|j: int| 0 <= j < front.len() ==> front[j] == evs[j]);
        law_stale_events_change_nothing(store, id, front);
        let last = evs[evs.len() - 1];
        law_event_changes_its_invoice_only(process_all(store, front), last.0, last.1, id);
    }
}

/// Among the events that bear on an invoice, if there are any, one is not older than any other.
proof fn lemma_newest_exists(evs: Seq<(ClaimedView, Seq<char>)>, id: Seq<char>) -> (k: int)
    requires
        exists|j: int| 0 <= j < evs.len() && concerns(#[trigger] evs[j], id),
    ensures
        0 <= k < evs.len(),
        concerns(evs[k], id),
        forall|j: int|
            0 <= j < evs.len() && concerns(#[trigger] evs[j], id) ==> evs[j].0.event_ts
                <= evs[k].0.event_ts,
    decreases evs.len(),
{
    let front = evs.drop_last();
    let last = evs.len() - 1;
    assert(forall|j: int| 0 <= j < front.len() ==> front[j] == evs[j]);
    if exists|j: int| 0 <= j < front.len() && concerns(#[trigger] front[j], id) {
        let k = lemma_newest_exists(front, id);
        if concerns(evs[last], id) && evs[last].0.event_ts > evs[k].0.event_ts {
            last
        } else {
            k
        }
    } else {
        let j = choose|j: int| 0 <= j < evs.len() && concerns(#[trigger] evs[j], id);
        assert(j == last) by {
            if j < last {
                assert(concerns(front[j], id));
            }
        }
        last
    }
}

/// Whether events of the same time give the same invoice the same status.
pub open spec fn agree_on_ties(evs: Seq<(ClaimedView, Seq<char>)>) -> bool {
    forall|i: int, j: int|
        0 <= i < evs.len() && 0 <= j < evs.len() && (#[trigger] evs[i]).1 == (#[trigger] evs[j]).1
            && invoice_status(evs[i].0.event_type) is Some && invoice_status(
            evs[j].0.event_type,
        ) is Some && evs[i].0.event_ts == evs[j].0.event_ts ==> invoice_status(
            evs[i].0.event_type,
        ) == invoice_status(evs[j].0.event_type)
}

/// Out-of-order events converge: two sequences that hold the same events, for whatever invoices,
/// each in its own order and with its own repetitions, leave every invoice the same, as long as
/// events of the same time give an invoice the same status.
pub proof fn law_out_of_order_events_converge(
    store: StoreView,
    a: Seq<(ClaimedView, Seq<char>)>,
    b: Seq<(ClaimedView, Seq<char>)>,
)
    requires
        store.wf(),
        forall|e: (ClaimedView, Seq<char>)| #[trigger] a.contains(e) <==> b.contains(e),
        agree_on_ties(a),
    ensures
        forall|id: Seq<char>| #[trigger]
            invoice(process_all(store, a), id) == invoice(process_all(store, b), id),
{
    assert forall|id: Seq<char>| #[trigger]
        invoice(process_all(store, a), id) == invoice(process_all(store, b), id) by {
        lemma_one_invoice_converges(store, id, a, b);
    }
}

/// The same, for one invoice.
proof fn lemma_one_invoice_converges(
    store: StoreView,
    id: Seq<char>,
    a: Seq<(ClaimedView, Seq<char>)>,
    b: Seq<(ClaimedView, Seq<char>)>,
)
    requires
        store.wf(),
        forall|e: (ClaimedView, Seq<char>)| #[trigger] a.contains(e) <==> b.contains(e),
        agree_on_ties(a),
    ensures
        invoice(process_all(store, a), id) == invoice(process_all(store, b), id),
{
    assert forall|j: int| 0 <= j < b.len() implies a.contains(#[trigger] b[j]) by {
        assert(b.contains(b[j]));
    }
    if exists|j: int| 0 <= j < a.len() && concerns(#[trigger] a[j], id) {
        let k = lemma_newest_exists(a, id);
        assert(a.contains(a[k]));
        assert(b.contains(a[k]));
        let m = b.index_of(a[k]);
        assert(b[m] == a[k]);
        assert(is_newest(a, id, k));
        assert forall|j: int| 0 <= j < b.len() && concerns(#[trigger] b[j], id) implies {
            ||| b[j].0.event_ts < b[m].0.event_ts
            ||| b[j].0.event_ts == b[m].0.event_ts && invoice_status(b[j].0.event_type)
                == invoice_status(b[m].0.event_type)
        } by {
            assert(a.contains(b[j]));
            let i = a.index_of(b[j]);
            assert(a[i] == b[j]);
        }
        assert(is_newest(b, id, m));
        let newer = match invoice(store, id) {
            Some(v) => v.last_event_ts < a[k].0.event_ts,
            None => true,
        };
        if newer {
            law_newest_event_decides(store, id, a, k);
            law_newest_event_decides(store, id, b, m);
        } else {
            law_stale_events_change_nothing(store, id, a);
            law_stale_events_change_nothing(store, id, b);
        }
    } else {
        assert forall|j: int| 0 <= j < b.len() implies !concerns(#[trigger] b[j], id) by {
            assert(a.contains(b[j]));
            let i = a.index_of(b[j]);
            assert(a[i] == b[j]);
        }
        law_stale_events_change_nothing(store, id, a);
        law_stale_events_change_nothing(store, id, b);
    }
}

/// The side effects of an event and its acknowledgement come together or not at all: when
/// processing succeeds, every row of the event is done and the invoices are as processing leaves
/// them; when it fails, the invoices stay as they are and no row becomes done.
pub proof fn law_effect_and_acknowledgement_come_together(
    store: StoreView,
    cfg: WorkerCfg,
    ev: ClaimedView,
    id: Option<Seq<char>>,
    error: Seq<char>,
    now: int,
    i: int,
)
    requires
        0 <= i < store.events.len(),
        store.events[i].event_id == ev.event_id,
    ensures
        ({
            let success = after_success(store, ev, id, now);
            let failure = after_failure(store, cfg, ev, error, now);
            &&& success.invoices == processed(store, ev, id).invoices
            &&& success.events[i] == store.events[i].finished(process_text(store, ev, id), now)
            &&& failure.invoices == store.invoices
            &&& failure.events[i].status != Status::Done
            &&& process_fails(ev, id) ==> processed(store, ev, id) == store
        }),
{
}

/// The rows that handling one event needs: those of the event, and those of the invoice that it
/// names.
pub open spec fn rows_for(
    store: StoreView,
    event_id: Seq<char>,
    named: Option<Seq<char>>,
) -> StoreView {
    StoreView {
        events: store.events.filter(|e: EventView| e.event_id == event_id),
        invoices: match named {
            Some(id) => store.invoices.filter(|v: InvoiceView| v.invoice_id == id),
            None => Seq::empty(),
        },
    }
}

/// An invoice is found among the rows of its id as it is among all.
proof fn lemma_invoice_among_its_rows(store: StoreView, event_id: Seq<char>, id: Seq<char>)
    ensures
        rows_for(store, event_id, Some(id)).has_invoice(id) == store.has_invoice(id),
        forall|ts: int| #[trigger]
            rows_for(store, event_id, Some(id)).applies(id, ts) == store.applies(id, ts),
        store.wf() ==> invoice(rows_for(store, event_id, Some(id)), id) == invoice(store, id),
{
    let p = |v: InvoiceView| v.invoice_id == id;
    let few = rows_for(store, event_id, Some(id));
    assert forall|i: int|
        0 <= i < store.invoices.len() && (#[trigger] store.invoices[i]).invoice_id == id implies exists|
        j: int,
    |
        0 <= j < few.invoices.len() && #[trigger] few.invoices[j] == store.invoices[i] by {
        lemma_filter_holds(store.invoices, p, store.invoices[i]);
        assert(store.invoices.contains(store.invoices[i]));
        assert(few.invoices.contains(store.invoices[i]));
    }
    assert forall|j: int| 0 <= j < few.invoices.len() implies (
    #[trigger] few.invoices[j]).invoice_id == id && store.invoices.contains(few.invoices[j]) by {
        lemma_filter_holds(store.invoices, p, few.invoices[j]);
        assert(few.invoices.contains(few.invoices[j]));
    }
    assert(few.has_invoice(id) == store.has_invoice(id)) by {
        if store.has_invoice(id) {
            let i = choose|i: int|
                0 <= i < store.invoices.len() && (#[trigger] store.invoices[i]).invoice_id == id;
            let j = choose|j: int|
                0 <= j < few.invoices.len() && #[trigger] few.invoices[j] == store.invoices[i];
            assert(few.invoices[j].invoice_id == id);
        }
        if few.has_invoice(id) {
            let j = choose|j: int|
                0 <= j < few.invoices.len() && (#[trigger] few.invoices[j]).invoice_id == id;
            let i = store.invoices.index_of(few.invoices[j]);
            assert(store.invoices[i].invoice_id == id);
        }
    }
    assert forall|ts: int| #[trigger] few.applies(id, ts) == store.applies(id, ts) by {
        if store.has_invoice(id) && store.applies(id, ts) {
            let i = choose|i: int|
                0 <= i < store.invoices.len() && (#[trigger] store.invoices[i]).invoice_id == id
                    && ts > store.invoices[i].last_event_ts;
            let j = choose|j: int|
                0 <= j < few.invoices.len() && #[trigger] few.invoices[j] == store.invoices[i];
            assert(few.invoices[j].invoice_id == id && ts > few.invoices[j].last_event_ts);
        }
        if few.has_invoice(id) && few.applies(id, ts) {
            let j = choose|j: int|
                0 <= j < few.invoices.len() && (#[trigger] few.invoices[j]).invoice_id == id && ts
                    > few.invoices[j].last_event_ts;
            let i = store.invoices.index_of(few.invoices[j]);
            assert(store.invoices[i].invoice_id == id && ts > store.invoices[i].last_event_ts);
        }
    }
    if store.wf() && few.has_invoice(id) {
        let c = choose|c: int|
            0 <= c < few.invoices.len() && (#[trigger] few.invoices[c]).invoice_id == id;
        let i = store.invoices.index_of(few.invoices[c]);
        assert(store.invoices[i] == few.invoices[c]);
        lemma_invoice_at(store, i);
    }
}

/// Handling an event needs its own rows and those of the invoice that it names: on them it comes to
/// the same result, and changes them the same way, whether it succeeds or fails.
pub proof fn law_handling_needs_its_rows_only(
    store: StoreView,
    cfg: WorkerCfg,
    ev: ClaimedView,
    named: Option<Seq<char>>,
    error: Seq<char>,
    now: int,
)
    ensures
        ({
            let few = rows_for(store, ev.event_id, named);
            &&& process_text(few, ev, named) == process_text(store, ev, named)
            &&& processed(few, ev, named) == rows_for(
                processed(store, ev, named),
                ev.event_id,
                named,
            )
            &&& after_success(few, ev, named, now) == rows_for(
                after_success(store, ev, named, now),
                ev.event_id,
                named,
            )
            &&& after_failure(few, cfg, ev, error, now) == rows_for(
                after_failure(store, cfg, ev, error, now),
                ev.event_id,
                named,
            )
            &&& store.wf() ==> (named matches Some(id) ==> invoice(processed(few, ev, named), id)
                == invoice(processed(store, ev, named), id))
        }),
{
    let few = rows_for(store, ev.event_id, named);
    let after = processed(store, ev, named);
    if let Some(id) = named {
        lemma_invoice_among_its_rows(store, ev.event_id, id);
        if let Some(status) = invoice_status(ev.event_type) {
            let p = |v: InvoiceView| v.invoice_id == id;
            let new = InvoiceView { invoice_id: id, status, last_event_ts: ev.event_ts };
            let f = |v: InvoiceView|
                if v.invoice_id == id && ev.event_ts > v.last_event_ts {
                    new
                } else {
                    v
                };
            if store.has_invoice(id) {
                lemma_filter_then_map(store.invoices, p, f);
            } else {
                reveal(Seq::filter);
                assert(store.invoices.push(new).drop_last() =~= store.invoices);
            }
        }
        assert(processed(few, ev, named).invoices =~= rows_for(
            after,
            ev.event_id,
            named,
        ).invoices);
        if store.wf() {
            law_event_changes_its_invoice_only(store, ev, id, id);
            lemma_invoice_among_its_rows(after, ev.event_id, id);
        }
    }
    assert(processed(few, ev, named) =~= rows_for(after, ev.event_id, named));
    let text = process_text(store, ev, named);
    law_one_event_needs_its_rows_only(after, ev.event_id, text, false, 0, now);
    let (retry, next) = match retry_nanos(cfg, ev.attempts) {
        Some(n) => (true, now + span_ms(n)),
        None => (false, now),
    };
    law_one_event_needs_its_rows_only(store, ev.event_id, error, retry, next, now);
    assert(rows_of(after, ev.event_id).marked_done(ev.event_id, text, now).events == few.marked_done(
        ev.event_id,
        text,
        now,
    ).events);
    assert(rows_of(store, ev.event_id).marked_failed(ev.event_id, error, retry, next).events
        == few.marked_failed(ev.event_id, error, retry, next).events);
}

/// An invoice that no row carries is added with its status and time. Otherwise each row of that id
/// takes the status and the time of the event when the event is newer than the row, and stays when
/// it is not; rows of other ids stay, and so does the queue.
pub proof fn law_invoice_takes_newer_events_only(
    store: StoreView,
    id: Seq<char>,
    status: Seq<char>,
    ts: int,
)
    ensures
        ({
            let after = store.invoiced(id, status, ts);
            let n = store.invoices.len() as int;
            let unknown = forall|i: int|
                0 <= i < n ==> (#[trigger] store.invoices[i]).invoice_id != id;
            &&& after.events == store.events
            &&& unknown ==> {
                &&& after.invoices.len() == n + 1
                &&& after.invoices[n].invoice_id == id
                &&& after.invoices[n].status == status
                &&& after.invoices[n].last_event_ts == ts
                &&& forall|i: int| 0 <= i < n ==> #[trigger] after.invoices[i] == store.invoices[i]
                &&& store.applies(id, ts)
            }
            &&& !unknown ==> {
                &&& after.invoices.len() == n
                &&& forall|i: int|
                    0 <= i < n ==> (#[trigger] after.invoices[i]).invoice_id
                        == store.invoices[i].invoice_id
                &&& forall|i: int|
                    0 <= i < n && ((#[trigger] store.invoices[i]).invoice_id != id || ts
                        <= store.invoices[i].last_event_ts) ==> after.invoices[i]
                        == store.invoices[i]
                &&& forall|i: int|
                    0 <= i < n && (#[trigger] store.invoices[i]).invoice_id == id
                        && store.invoices[i].last_event_ts < ts ==> after.invoices[i].status
                        == status && after.invoices[i].last_event_ts == ts
                &&& !store.applies(id, ts) <==> forall|i: int|
                    0 <= i < n && (#[trigger] store.invoices[i]).invoice_id == id ==> ts
                        <= store.invoices[i].last_event_ts
            }
        }),
{
}

} // verus!
