//! The durable queue and its side effects, as tables.
//!
//! The events table is both the audit log and the queue: a row is added as pending before the
//! provider is answered, workers claim rows with a lease, and a row becomes done together with
//! the side effects of its event.

use vstd::prelude::*;

use crate::duration::{wrapped_i64, Duration, NANOS_PER_MILLI};
use crate::queue_laws::{law_purge_goes_by_status_and_age, law_span_counts_its_milliseconds};
use crate::text::{opt_text, same_text};

verus! {

/// Where an event stands in the queue.
#[derive(Clone, Copy, Debug, PartialEq, Eq, Structural)]
pub enum Status {
    /// Waits for its next attempt.
    Pending,
    /// Leased to a worker.
    Processing,
    /// Finished, with its side effects.
    Done,
    /// Given up.
    Dead,
}

impl Status {
    /// The text that stands for a status in a stored row.
    pub open spec fn spec_text(self) -> Seq<char> {
        match self {
            Status::Pending => "pending"@,
            Status::Processing => "processing"@,
            Status::Done => "done"@,
            Status::Dead => "dead"@,
        }
    }

    /// The text that stands for this status in a stored row.
    pub fn text(&self) -> (text: &'static str)
        ensures
            text@ == self.spec_text(),
    {
        match self {
            Status::Pending => "pending",
            Status::Processing => "processing",
            Status::Done => "done",
            Status::Dead => "dead",
        }
    }

    /// The status that a stored text stands for.
    #[verifier::spinoff_prover]
    pub fn from_text(text: &str) -> (status: Option<Status>)
        ensures
            status matches Some(s) ==> s.spec_text() == text@,
            forall|s: Status| #[trigger] s.spec_text() == text@ ==> status == Some(s),
    {
        proof {
            lemma_status_texts_differ();
        }
        let status = if same_text(text, "pending") {
            Some(Status::Pending)
        } else if same_text(text, "processing") {
            Some(Status::Processing)
        } else if same_text(text, "done") {
            Some(Status::Done)
        } else if same_text(text, "dead") {
            Some(Status::Dead)
        } else {
            None
        };
        proof {
            assert forall|s: Status| #[trigger] s.spec_text() == text@ implies status == Some(s) by {
                assert(status is Some);
                assert(status->0.spec_text() == s.spec_text());
            }
        }
        status
    }
}

/// No two statuses have the same text.
proof fn lemma_status_texts_differ()
    ensures
        forall|a: Status, b: Status|
            #![trigger a.spec_text(), b.spec_text()]
            a.spec_text() == b.spec_text() ==> a == b,
{
    reveal_strlit("pending");
    reveal_strlit("processing");
    reveal_strlit("done");
    reveal_strlit("dead");
    assert("pending"@.len() == 7);
    assert("processing"@.len() == 10);
    assert("done"@.len() == 4);
    assert("dead"@.len() == 4);
    assert("done"@ != "dead"@) by {
        assert("done"@[1] == 'o');
        assert("dead"@[1] == 'e');
    }
    assert forall|a: Status, b: Status|
        #![trigger a.spec_text(), b.spec_text()]
        a.spec_text() == b.spec_text() implies a == b by {
        assert(a.spec_text().len() == b.spec_text().len());
    }
}

/// An event as the provider sent it.
#[derive(Debug)]
pub struct NewEvent {
    /// The provider's id, under which the event is stored once.
    pub event_id: String,
    /// What happened.
    pub event_type: String,
    /// The provider's timestamp, in seconds.
    pub event_ts: i64,
    /// The body exactly as received.
    pub payload: String,
}

/// The model of a `NewEvent`.
#[verifier::ext_equal]
pub struct NewEventView {
    pub event_id: Seq<char>,
    pub event_type: Seq<char>,
    pub event_ts: int,
    pub payload: Seq<char>,
}

impl View for NewEvent {
    type V = NewEventView;

    open spec fn view(&self) -> NewEventView {
        NewEventView {
            event_id: self.event_id@,
            event_type: self.event_type@,
            event_ts: self.event_ts as int,
            payload: self.payload@,
        }
    }
}

/// Whether an event was stored now or was there before.
#[derive(Clone, Copy, Debug, PartialEq, Eq, Structural)]
pub enum Enqueued {
    New,
    Duplicate,
}

/// An event that is leased to a worker.
#[derive(Debug)]
pub struct Claimed {
    pub event_id: String,
    pub event_type: String,
    pub event_ts: i64,
    pub payload: String,
    /// How often the event was claimed, this claim among them.
    pub attempts: i64,
}

/// The model of a `Claimed`.
#[verifier::ext_equal]
pub struct ClaimedView {
    pub event_id: Seq<char>,
    pub event_type: Seq<char>,
    pub event_ts: int,
    pub payload: Seq<char>,
    pub attempts: int,
}

impl View for Claimed {
    type V = ClaimedView;

    open spec fn view(&self) -> ClaimedView {
        ClaimedView {
            event_id: self.event_id@,
            event_type: self.event_type@,
            event_ts: self.event_ts as int,
            payload: self.payload@,
            attempts: self.attempts as int,
        }
    }
}

/// A row of the events table. Times are in milliseconds since the Unix epoch, except
/// `event_ts`.
#[derive(Debug)]
pub struct EventRow {
    pub event_id: String,
    pub event_type: String,
    pub event_ts: i64,
    pub payload: String,
    pub status: Status,
    pub attempts: i64,
    pub next_attempt_at: i64,
    pub locked_until: i64,
    pub result: Option<String>,
    pub last_error: Option<String>,
    pub received_at: i64,
    pub processed_at: Option<i64>,
}

/// The model of an `EventRow`.
#[verifier::ext_equal]
pub struct EventView {
    pub event_id: Seq<char>,
    pub event_type: Seq<char>,
    pub event_ts: int,
    pub payload: Seq<char>,
    pub status: Status,
    pub attempts: int,
    pub next_attempt_at: int,
    pub locked_until: int,
    pub result: Option<Seq<char>>,
    pub last_error: Option<Seq<char>>,
    pub received_at: int,
    pub processed_at: Option<int>,
}

impl View for EventRow {
    type V = EventView;

    open spec fn view(&self) -> EventView {
        EventView {
            event_id: self.event_id@,
            event_type: self.event_type@,
            event_ts: self.event_ts as int,
            payload: self.payload@,
            status: self.status,
            attempts: self.attempts as int,
            next_attempt_at: self.next_attempt_at as int,
            locked_until: self.locked_until as int,
            result: opt_text(self.result),
            last_error: opt_text(self.last_error),
            received_at: self.received_at as int,
            processed_at: match self.processed_at {
                Some(t) => Some(t as int),
                None => None,
            },
        }
    }
}

impl EventView {
    /// The row of an event that has just come in.
    pub open spec fn fresh(ev: NewEventView, now: int) -> EventView {
        EventView {
            event_id: ev.event_id,
            event_type: ev.event_type,
            event_ts: ev.event_ts,
            payload: ev.payload,
            status: Status::Pending,
            attempts: 0,
            next_attempt_at: now,
            locked_until: 0,
            result: None,
            last_error: None,
            received_at: now,
            processed_at: None,
        }
    }

    /// Whether a worker may claim the event: it is due, or the lease on it has run out.
    pub open spec fn ready(self, now: int) -> bool {
        ||| self.status == Status::Pending && self.next_attempt_at <= now
        ||| self.status == Status::Processing && self.locked_until <= now
    }

    /// The row once it is claimed, with a lease up to `until`.
    pub open spec fn leased(self, until: int) -> EventView {
        EventView {
            status: Status::Processing,
            attempts: self.attempts + 1,
            locked_until: until,
            ..self
        }
    }

    /// The row once its event is finished.
    pub open spec fn finished(self, result: Seq<char>, now: int) -> EventView {
        EventView {
            status: Status::Done,
            result: Some(result),
            last_error: None,
            processed_at: Some(now),
            locked_until: 0,
            ..self
        }
    }

    /// The row after a failure, due again at `next` when there is a `retry`.
    pub open spec fn failed(self, error: Seq<char>, retry: bool, next: int) -> EventView {
        EventView {
            status: if retry {
                Status::Pending
            } else {
                Status::Dead
            },
            next_attempt_at: next,
            last_error: Some(error),
            locked_until: 0,
            ..self
        }
    }

    /// Whether the event is over and came in before `cutoff`.
    pub open spec fn expired(self, cutoff: int) -> bool {
        (self.status == Status::Done || self.status == Status::Dead) && self.received_at < cutoff
    }

    /// What a worker is handed of the row.
    pub open spec fn claimed(self) -> ClaimedView {
        ClaimedView {
            event_id: self.event_id,
            event_type: self.event_type,
            event_ts: self.event_ts,
            payload: self.payload,
            attempts: self.attempts,
        }
    }

    /// What holds of every row: attempts are counted up from zero, a leased row has been claimed
    /// at least once, no row but a leased one carries a lease, a finished one has its result and
    /// no error, one that was given up says why, and so does one that waits after an attempt.
    pub open spec fn valid(self) -> bool {
        &&& self.attempts >= 0
        &&& self.status == Status::Processing ==> self.attempts >= 1
        &&& self.status != Status::Processing ==> self.locked_until == 0
        &&& self.status == Status::Done ==> self.result is Some && self.last_error is None
            && self.processed_at is Some
        &&& self.status == Status::Dead ==> self.last_error is Some
        &&& self.status == Status::Pending && self.attempts > 0 ==> self.last_error is Some
    }
}

/// A row of the invoices table.
#[derive(Debug)]
pub struct InvoiceRow {
    pub invoice_id: String,
    pub status: String,
    /// The timestamp of the event that was applied last.
    pub last_event_ts: i64,
}

/// The model of an `InvoiceRow`.
#[verifier::ext_equal]
pub struct InvoiceView {
    pub invoice_id: Seq<char>,
    pub status: Seq<char>,
    pub last_event_ts: int,
}

impl View for InvoiceRow {
    type V = InvoiceView;

    open spec fn view(&self) -> InvoiceView {
        InvoiceView {
            invoice_id: self.invoice_id@,
            status: self.status@,
            last_event_ts: self.last_event_ts as int,
        }
    }
}

/// The tables, or the rows of them that one operation needs.
#[derive(Debug)]
pub struct Store {
    pub events: Vec<EventRow>,
    pub invoices: Vec<InvoiceRow>,
}

/// The model of a `Store`.
#[verifier::ext_equal]
pub struct StoreView {
    pub events: Seq<EventView>,
    pub invoices: Seq<InvoiceView>,
}

impl View for Store {
    type V = StoreView;

    open spec fn view(&self) -> StoreView {
        StoreView {
            events: self.events@.map_values(|r: EventRow| r@),
            invoices: self.invoices@.map_values(|r: InvoiceRow| r@),
        }
    }
}

/// Whether row `i` is the next one to claim: it is ready, and of the ready rows it has waited
/// longest, the one stored first among equals.
pub open spec fn is_next(events: Seq<EventView>, i: int, now: int) -> bool {
    &&& 0 <= i < events.len()
    &&& events[i].ready(now)
    &&& forall|j: int|
        0 <= j < events.len() && (#[trigger] events[j]).ready(now) ==> {
            ||| events[i].next_attempt_at < events[j].next_attempt_at
            ||| events[i].next_attempt_at == events[j].next_attempt_at && i <= j
        }
}

/// The next row to claim, where there is one.
pub open spec fn next_ready(events: Seq<EventView>, now: int) -> Option<int> {
    if exists|i: int| is_next(events, i, now) {
        Some(choose|i: int| is_next(events, i, now))
    } else {
        None
    }
}

impl StoreView {
    /// Whether an event of this id is stored.
    pub open spec fn has_event(self, event_id: Seq<char>) -> bool {
        exists|i: int| 0 <= i < self.events.len() && (#[trigger] self.events[i]).event_id == event_id
    }

    /// Whether an invoice of this id is stored.
    pub open spec fn has_invoice(self, invoice_id: Seq<char>) -> bool {
        exists|i: int|
            0 <= i < self.invoices.len() && (#[trigger] self.invoices[i]).invoice_id == invoice_id
    }

    /// No two events and no two invoices have the same id, and every event's row is valid.
    pub open spec fn wf(self) -> bool {
        &&& forall|i: int, j: int|
            0 <= i < j < self.events.len() ==> (#[trigger] self.events[i]).event_id != (
            #[trigger] self.events[j]).event_id
        &&& forall|i: int, j: int|
            0 <= i < j < self.invoices.len() ==> (#[trigger] self.invoices[i]).invoice_id != (
            #[trigger] self.invoices[j]).invoice_id
        &&& forall|i: int| 0 <= i < self.events.len() ==> (#[trigger] self.events[i]).valid()
    }

    /// The tables after an event came in.
    pub open spec fn enqueued(self, ev: NewEventView, now: int) -> StoreView {
        if self.has_event(ev.event_id) {
            self
        } else {
            StoreView { events: self.events.push(EventView::fresh(ev, now)), ..self }
        }
    }

    /// The tables after the next ready event was claimed with a lease up to `until`.
    pub open spec fn claimed(self, now: int, until: int) -> StoreView {
        match next_ready(self.events, now) {
            Some(i) => StoreView {
                events: self.events.update(i, self.events[i].leased(until)),
                ..self
            },
            None => self,
        }
    }

    /// The tables after the event `event_id` was finished.
    pub open spec fn marked_done(self, event_id: Seq<char>, result: Seq<char>, now: int) -> StoreView {
        StoreView {
            events: self.events.map_values(
                |e: EventView|
                    if e.event_id == event_id {
                        e.finished(result, now)
                    } else {
                        e
                    },
            ),
            ..self
        }
    }

    /// The tables after the event `event_id` failed.
    pub open spec fn marked_failed(
        self,
        event_id: Seq<char>,
        error: Seq<char>,
        retry: bool,
        next: int,
    ) -> StoreView {
        StoreView {
            events: self.events.map_values(
                |e: EventView|
                    if e.event_id == event_id {
                        e.failed(error, retry, next)
                    } else {
                        e
                    },
            ),
            ..self
        }
    }

    /// The tables without the events that are over and came in before `cutoff`.
    pub open spec fn purged(self, cutoff: int) -> StoreView {
        StoreView { events: self.events.filter(|e: EventView| !e.expired(cutoff)), ..self }
    }

    /// Whether an event of time `ts` changes the invoice: it is the first for it, or newer than
    /// what is held.
    pub open spec fn applies(self, invoice_id: Seq<char>, ts: int) -> bool {
        ||| !self.has_invoice(invoice_id)
        ||| exists|i: int|
            0 <= i < self.invoices.len() && (#[trigger] self.invoices[i]).invoice_id == invoice_id
                && ts > self.invoices[i].last_event_ts
    }

    /// The tables after an event of time `ts` gave the invoice a status.
    pub open spec fn invoiced(self, invoice_id: Seq<char>, status: Seq<char>, ts: int) -> StoreView {
        let new = InvoiceView { invoice_id, status, last_event_ts: ts };
        if self.has_invoice(invoice_id) {
            StoreView {
                invoices: self.invoices.map_values(
                    |v: InvoiceView|
                        if v.invoice_id == invoice_id && ts > v.last_event_ts {
                            new
                        } else {
                            v
                        },
                ),
                ..self
            }
        } else {
            StoreView { invoices: self.invoices.push(new), ..self }
        }
    }
}

/// Whether `x` is a number that 64 bits hold.
pub open spec fn fits_i64(x: int) -> bool {
    i64::MIN <= x <= i64::MAX
}

/// A span of so many nanoseconds in milliseconds, as it is added to a time.
pub open spec fn span_ms(nanos: nat) -> int {
    wrapped_i64(nanos as int / NANOS_PER_MILLI as int)
}

impl EventRow {
    /// The row of an event that has just come in.
    pub fn new(ev: &NewEvent, now: i64) -> (row: EventRow)
        ensures
            row@ == EventView::fresh(ev@, now as int),
    {
        EventRow {
            event_id: ev.event_id.clone(),
            event_type: ev.event_type.clone(),
            event_ts: ev.event_ts,
            payload: ev.payload.clone(),
            status: Status::Pending,
            attempts: 0,
            next_attempt_at: now,
            locked_until: 0,
            result: None,
            last_error: None,
            received_at: now,
            processed_at: None,
        }
    }

    /// Whether a worker may claim the event now.
    pub fn is_ready(&self, now: i64) -> (ready: bool)
        ensures
            ready == self@.ready(now as int),
    {
        match self.status {
            Status::Pending => self.next_attempt_at <= now,
            Status::Processing => self.locked_until <= now,
            _ => false,
        }
    }

    /// Leases the row to a worker.
    fn lease(&mut self, until: i64)
        requires
            old(self).attempts < i64::MAX,
        ensures
            final(self)@ == old(self)@.leased(until as int),
    {
        self.status = Status::Processing;
        self.attempts = self.attempts + 1;
        self.locked_until = until;
    }

    /// Finishes the row.
    fn finish(&mut self, result: &str, now: i64)
        ensures
            final(self)@ == old(self)@.finished(result@, now as int),
    {
        self.status = Status::Done;
        self.result = Some(result.to_owned());
        self.last_error = None;
        self.processed_at = Some(now);
        self.locked_until = 0;
    }

    /// Records a failure on the row.
    fn fail(&mut self, error: &str, retry: bool, next: i64)
        ensures
            final(self)@ == old(self)@.failed(error@, retry, next as int),
    {
        self.status = if retry {
            Status::Pending
        } else {
            Status::Dead
        };
        self.next_attempt_at = next;
        self.last_error = Some(error.to_owned());
        self.locked_until = 0;
    }

    /// Whether the event is over and came in before `cutoff`.
    pub fn is_expired(&self, cutoff: i64) -> (expired: bool)
        ensures
            expired == self@.expired(cutoff as int),
    {
        match self.status {
            Status::Done => self.received_at < cutoff,
            Status::Dead => self.received_at < cutoff,
            _ => false,
        }
    }

    /// What a worker is handed of the row.
    fn to_claimed(&self) -> (claimed: Claimed)
        ensures
            claimed@ == self@.claimed(),
    {
        Claimed {
            event_id: self.event_id.clone(),
            event_type: self.event_type.clone(),
            event_ts: self.event_ts,
            payload: self.payload.clone(),
            attempts: self.attempts,
        }
    }
}

impl Store {
    /// Empty tables.
    pub fn new() -> (store: Store)
        ensures
            store@ == (StoreView { events: Seq::empty(), invoices: Seq::empty() }),
            store@.wf(),
    {
        let store = Store { events: Vec::new(), invoices: Vec::new() };
        assert(store@.events =~= Seq::empty());
        assert(store@.invoices =~= Seq::empty());
        store
    }
}

/// Durably stores the event. A repeated `event_id` changes nothing.
pub fn enqueue(store: &mut Store, ev: &NewEvent, now: i64) -> (outcome: Enqueued)
    ensures
        final(store)@ == old(store)@.enqueued(ev@, now as int),
        outcome == if old(store)@.has_event(ev@.event_id) {
            Enqueued::Duplicate
        } else {
            Enqueued::New
        },
        outcome == Enqueued::Duplicate ==> *final(store) == *old(store),
        outcome == Enqueued::New ==> {
            &&& final(store).invoices == old(store).invoices
            &&& final(store).events@.drop_last() == old(store).events@
            &&& final(store).events@.last().event_id@ == ev.event_id@
            &&& final(store).events@.last().event_type@ == ev.event_type@
            &&& final(store).events@.last().event_ts == ev.event_ts
            &&& final(store).events@.last().payload@ == ev.payload@
            &&& final(store).events@.last().status == Status::Pending
            &&& final(store).events@.last().next_attempt_at == now
            &&& final(store).events@.last().received_at == now
        },
        old(store)@.wf() ==> final(store)@.wf(),
{
    let mut i: usize = 0;
    while i < store.events.len()
        invariant
            0 <= i <= store.events.len(),
            *store == *old(store),
            forall|j: int| 0 <= j < i ==> (#[trigger] store@.events[j]).event_id != ev@.event_id,
        decreases store.events.len() - i,
    {
        if store.events[i].event_id == ev.event_id {
            assert(store@.events[i as int].event_id == ev@.event_id);
            return Enqueued::Duplicate;
        }
        i = i + 1;
    }
    let row = EventRow::new(ev, now);
    store.events.push(row);
    assert(store@.events =~= old(store)@.events.push(row@));
    assert(store@.invoices =~= old(store)@.invoices);
    assert(store.events@.drop_last() =~= old(store).events@);
    Enqueued::New
}

/// Only one row can be the next one to claim.
pub proof fn lemma_next_is_unique(events: Seq<EventView>, i: int, j: int, now: int)
    requires
        is_next(events, i, now),
        is_next(events, j, now),
    ensures
        i == j,
{
}

/// Finds the next event to claim.
pub fn find_ready(rows: &Vec<EventRow>, now: i64) -> (found: Option<usize>)
    ensures
        match found {
            Some(i) => next_ready(rows@.map_values(|r: EventRow| r@), now as int) == Some(i as int)
                && is_next(rows@.map_values(|r: EventRow| r@), i as int, now as int),
            None => {
                &&& next_ready(rows@.map_values(|r: EventRow| r@), now as int) is None
                &&& forall|j: int| 0 <= j < rows.len() ==> !(#[trigger] rows@[j])@.ready(now as int)
            },
        },
{
    let ghost events = rows@.map_values(|r: EventRow| r@);
    let mut found: Option<usize> = None;
    let mut i: usize = 0;
    while i < rows.len()
        invariant
            0 <= i <= rows.len(),
            events == rows@.map_values(|r: EventRow| r@),
            match found {
                Some(b) => {
                    &&& b < i
                    &&& events[b as int].ready(now as int)
                    &&& forall|j: int|
                        0 <= j < i && (#[trigger] events[j]).ready(now as int) ==> {
                            ||| events[b as int].next_attempt_at < events[j].next_attempt_at
                            ||| events[b as int].next_attempt_at == events[j].next_attempt_at && b
                                <= j
                        }
                },
                None => forall|j: int| 0 <= j < i ==> !(#[trigger] events[j]).ready(now as int),
            },
        decreases rows.len() - i,
    {
        assert(events[i as int] == rows@[i as int]@);
        if rows[i].is_ready(now) {
            let earlier: bool = match found {
                Some(b) => rows[i].next_attempt_at < rows[b].next_attempt_at,
                None => true,
            };
            if earlier {
                found = Some(i);
            }
        }
        i = i + 1;
    }
    proof {
        if found is None {
            assert forall|j: int| 0 <= j < rows.len() implies !(#[trigger] rows@[j])@.ready(
                now as int,
            ) by {
                assert(events[j] == rows@[j]@);
            }
        }
        if let Some(b) = found {
            assert(is_next(events, b as int, now as int));
            let c = choose|c: int| is_next(events, c, now as int);
            lemma_next_is_unique(events, b as int, c, now as int);
        }
    }
    found
}

/// Leases the next ready event for `lease`, and counts the attempt. An event whose lease ran out
/// is ready too, which is how the work of a crashed worker is taken up again.
pub fn claim(store: &mut Store, lease: Duration, now: i64) -> (claimed: Option<Claimed>)
    requires
        fits_i64(now + span_ms(lease@)),
        next_ready(old(store)@.events, now as int) matches Some(i)
            ==> old(store)@.events[i].attempts < i64::MAX,
    ensures
        final(store)@ == old(store)@.claimed(now as int, now + span_ms(lease@)),
        match next_ready(old(store)@.events, now as int) {
            Some(i) => {
                &&& is_next(old(store)@.events, i, now as int)
                &&& claimed matches Some(c) && c@ == final(store)@.events[i].claimed()
            },
            None => {
                &&& forall|j: int|
                    0 <= j < old(store)@.events.len() ==> !(#[trigger] old(
                        store,
                    )@.events[j]).ready(now as int)
                &&& claimed is None
            },
        },
        claimed matches Some(c) ==> exists|i: int|
            {
                &&& 0 <= i < old(store).events@.len()
                &&& c.event_id@ == (#[trigger] old(store).events@[i]).event_id@
                &&& c.event_type@ == old(store).events@[i].event_type@
                &&& c.event_ts == old(store).events@[i].event_ts
                &&& c.payload@ == old(store).events@[i].payload@
                &&& c.attempts == old(store).events@[i].attempts + 1
            },
        old(store)@.wf() ==> final(store)@.wf(),
{
    let until: i64 = now + lease.as_millis_i64();
    match find_ready(&store.events, now) {
        Some(i) => {
            let ghost row = store.events@[i as int];
            assert(store@.events[i as int] == row@);
            store.events[i].lease(until);
            assert(store@.events =~= old(store)@.events.update(
                i as int,
                row@.leased(until as int),
            ));
            assert(store@.invoices =~= old(store)@.invoices);
            let claimed = store.events[i].to_claimed();
            assert(claimed.payload@ == old(store).events@[i as int].payload@);
            Some(claimed)
        },
        None => None,
    }
}

/// Finishes the event `event_id`, in one step with its side effects.
pub fn mark_done(store: &mut Store, event_id: &str, result: &str, now: i64)
    ensures
        final(store)@ == old(store)@.marked_done(event_id@, result@, now as int),
        forall|i: int|
            0 <= i < final(store).events@.len() && (
            #[trigger] final(store).events@[i]).event_id@ == event_id@ ==> final(store).events@[i].status == Status::Done,
        old(store)@.wf() ==> final(store)@.wf(),
{
    let ghost done = old(store)@.marked_done(event_id@, result@, now as int);
    let mut i: usize = 0;
    while i < store.events.len()
        invariant
            0 <= i <= store.events.len(),
            done == old(store)@.marked_done(event_id@, result@, now as int),
            store.events.len() == old(store).events.len(),
            store.invoices == old(store).invoices,
            forall|j: int| 0 <= j < i ==> #[trigger] store.events@[j]@ == done.events[j],
            forall|j: int|
                i <= j < store.events.len() ==> #[trigger] store.events@[j]
                    == old(store).events@[j],
        decreases store.events.len() - i,
    {
        if same_text(store.events[i].event_id.as_str(), event_id) {
            store.events[i].finish(result, now);
        }
        i = i + 1;
    }
    assert(store@.events =~= done.events);
    assert forall|j: int|
        0 <= j < store.events@.len() && (#[trigger] store.events@[j]).event_id@
            == event_id@ implies store.events@[j].status == Status::Done by {
        assert(store.events@[j]@ == done.events[j]);
    }
}

/// Schedules another attempt at the event `event_id`, or gives it up when there is to be none.
pub fn mark_failed(
    store: &mut Store,
    event_id: &str,
    error: &str,
    retry_in: Option<Duration>,
    now: i64,
)
    requires
        retry_in matches Some(d) ==> fits_i64(now + span_ms(d@)),
    ensures
        final(store)@ == match retry_in {
            Some(d) => old(store)@.marked_failed(event_id@, error@, true, now + span_ms(d@)),
            None => old(store)@.marked_failed(event_id@, error@, false, now as int),
        },
        retry_in matches Some(d) ==> d@ / 1_000_000 <= i64::MAX ==> forall|i: int|
            0 <= i < final(store).events@.len() && (
            #[trigger] final(store).events@[i]).event_id@ == event_id@ ==> final(store).events@[i].next_attempt_at == now
                + d@ / 1_000_000,
        old(store)@.wf() ==> final(store)@.wf(),
{
    let retry: bool = retry_in.is_some();
    let next: i64 = match retry_in {
        Some(d) => now + d.as_millis_i64(),
        None => now,
    };
    let ghost failed = old(store)@.marked_failed(event_id@, error@, retry, next as int);
    let mut i: usize = 0;
    while i < store.events.len()
        invariant
            0 <= i <= store.events.len(),
            failed == old(store)@.marked_failed(event_id@, error@, retry, next as int),
            store.events.len() == old(store).events.len(),
            store.invoices == old(store).invoices,
            forall|j: int| 0 <= j < i ==> #[trigger] store.events@[j]@ == failed.events[j],
            forall|j: int|
                i <= j < store.events.len() ==> #[trigger] store.events@[j]
                    == old(store).events@[j],
        decreases store.events.len() - i,
    {
        if same_text(store.events[i].event_id.as_str(), event_id) {
            store.events[i].fail(error, retry, next);
        }
        i = i + 1;
    }
    assert(store@.events =~= failed.events);
    proof {
        if let Some(d) = retry_in {
            law_span_counts_its_milliseconds(d@);
        }
        assert forall|j: int|
            0 <= j < store.events@.len() && (#[trigger] store.events@[j]).event_id@
                == event_id@ implies store.events@[j].next_attempt_at == next by {
            assert(store.events@[j]@ == failed.events[j]);
        }
    }
}

/// Drops the events that are over, and with them their ids, once they are older than `keep`.
/// Returns how many were dropped.
pub fn purge_older_than(store: &mut Store, keep: Duration, now: i64) -> (dropped: u64)
    requires
        fits_i64(now - span_ms(keep@)),
    ensures
        final(store)@ == old(store)@.purged(now - span_ms(keep@)),
        dropped == old(store)@.events.len() - final(store)@.events.len(),
        keep@ / 1_000_000 <= i64::MAX ==> forall|i: int|
            0 <= i < final(store).events@.len() ==> {
                ||| (#[trigger] final(store).events@[i]).status == Status::Pending
                ||| final(store).events@[i].status == Status::Processing
                ||| now - final(store).events@[i].received_at <= keep@ / 1_000_000
            },
        old(store)@.wf() ==> final(store)@.wf(),
{
    let cutoff: i64 = now - keep.as_millis_i64();
    let ghost before = store@.events;
    let ghost keeps = |e: EventView| !e.expired(cutoff as int);
    let mut rows: Vec<EventRow> = Vec::new();
    std::mem::swap(&mut rows, &mut store.events);
    let n: usize = rows.len();
    let mut dropped: u64 = 0;
    for row in it: rows
        invariant
            before == it.seq().map_values(|r: EventRow| r@),
            keeps == (|e: EventView| !e.expired(cutoff as int)),
            it.seq().len() == n,
            store.invoices == old(store).invoices,
            store@.events == before.take(it.index() as int).filter(keeps),
            dropped == it.index() - store.events.len(),
    {
        let ghost i = it.index() as int;
        let ghost kept = store@.events;
        assert(before.take(i + 1).drop_last() =~= before.take(i));
        assert(before[i] == row@);
        reveal(Seq::filter);
        if row.is_expired(cutoff) {
            dropped = dropped + 1;
        } else {
            store.events.push(row);
            assert(store@.events =~= kept.push(row@));
        }
    }
    assert(before.take(n as int) =~= before);
    proof {
        law_span_counts_its_milliseconds(keep@);
        law_purge_goes_by_status_and_age(old(store)@, cutoff as int);
        assert forall|i: int| 0 <= i < store.events@.len() implies {
            ||| (#[trigger] store.events@[i]).status == Status::Pending
            ||| store.events@[i].status == Status::Processing
            ||| store.events@[i].received_at >= cutoff
        } by {
            assert(store@.events[i] == store.events@[i]@);
            assert(old(store)@.purged(cutoff as int).events[i] == store@.events[i]);
        }
        if old(store)@.wf() {
            lemma_filter_keeps_ids_apart(before, keeps);
            assert forall|i: int| 0 <= i < store@.events.len() implies (
            #[trigger] store@.events[i]).valid() by {
                assert(before.contains(store@.events[i]));
            }
        }
    }
    dropped
}

/// Dropping rows neither brings in a row nor doubles an id.
pub proof fn lemma_filter_keeps_ids_apart(s: Seq<EventView>, p: spec_fn(EventView) -> bool)
    requires
        forall|i: int, j: int|
            0 <= i < j < s.len() ==> (#[trigger] s[i]).event_id != (#[trigger] s[j]).event_id,
    ensures
        forall|i: int, j: int|
            0 <= i < j < s.filter(p).len() ==> (#[trigger] s.filter(p)[i]).event_id != (
            #[trigger] s.filter(p)[j]).event_id,
        forall|i: int|
            0 <= i < s.filter(p).len() ==> s.contains(#[trigger] s.filter(p)[i]) && p(
                s.filter(p)[i],
            ),
    decreases s.len(),
{
    reveal(Seq::filter);
    if s.len() > 0 {
        let front = s.drop_last();
        lemma_filter_keeps_ids_apart(front, p);
        let f = front.filter(p);
        assert forall|i: int| 0 <= i < f.len() implies s.contains(#[trigger] f[i]) && f[i].event_id
            != s.last().event_id by {
            let k = front.index_of(f[i]);
            assert(front[k] == f[i]);
            assert(s[k] == f[i]);
        }
        assert(s.contains(s.last()));
    }
}

/// Gives the invoice a status, unless an event as new as `ts` or newer already did. Returns
/// whether anything changed.
pub fn upsert_invoice(store: &mut Store, invoice_id: &str, status: &str, ts: i64) -> (changed: bool)
    ensures
        final(store)@ == old(store)@.invoiced(invoice_id@, status@, ts as int),
        changed == old(store)@.applies(invoice_id@, ts as int),
        old(store)@.wf() ==> final(store)@.wf(),
{
    let ghost before = old(store)@;
    let ghost new = InvoiceView {
        invoice_id: invoice_id@,
        status: status@,
        last_event_ts: ts as int,
    };
    let ghost update = |v: InvoiceView|
        if v.invoice_id == invoice_id@ && ts > v.last_event_ts {
            new
        } else {
            v
        };
    let mut held: bool = false;
    let mut changed: bool = false;
    let mut i: usize = 0;
    while i < store.invoices.len()
        invariant
            0 <= i <= store.invoices.len(),
            before == old(store)@,
            new == (InvoiceView {
                invoice_id: invoice_id@,
                status: status@,
                last_event_ts: ts as int,
            }),
            update == (|v: InvoiceView|
                if v.invoice_id == invoice_id@ && ts > v.last_event_ts {
                    new
                } else {
                    v
                }),
            store.invoices.len() == old(store).invoices.len(),
            store.events == old(store).events,
            forall|j: int| 0 <= j < i ==> #[trigger] store.invoices@[j]@ == update(before.invoices[j]),
            forall|j: int|
                i <= j < store.invoices.len() ==> #[trigger] store.invoices@[j]
                    == old(store).invoices@[j],
            held == exists|j: int|
                0 <= j < i && (#[trigger] before.invoices[j]).invoice_id == invoice_id@,
            changed == exists|j: int|
                0 <= j < i && (#[trigger] before.invoices[j]).invoice_id == invoice_id@ && ts
                    > before.invoices[j].last_event_ts,
        decreases store.invoices.len() - i,
    {
        assert(before.invoices[i as int] == store.invoices@[i as int]@);
        if same_text(store.invoices[i].invoice_id.as_str(), invoice_id) {
            held = true;
            if ts > store.invoices[i].last_event_ts {
                store.invoices[i].status = status.to_owned();
                store.invoices[i].last_event_ts = ts;
                changed = true;
            }
        }
        i = i + 1;
    }
    assert(held == before.has_invoice(invoice_id@));
    if held {
        assert(store@.invoices =~= before.invoices.map_values(update));
        return changed;
    }
    assert(store@.invoices =~= before.invoices);
    let row = InvoiceRow {
        invoice_id: invoice_id.to_owned(),
        status: status.to_owned(),
        last_event_ts: ts,
    };
    store.invoices.push(row);
    assert(store@.invoices =~= before.invoices.push(new));
    true
}

/// A clock reading, in seconds since the Unix epoch and nanoseconds beyond them, as whole
/// milliseconds; nothing for a clock that stands before the epoch.
pub open spec fn epoch_ms(reading: Option<(u64, u32)>) -> Option<i64> {
    match reading {
        Some((secs, nanos)) => Some(
            wrapped_i64((secs * 1_000_000_000 + nanos) / 1_000_000) as i64,
        ),
        None => None,
    }
}

/// Calls `SystemTime::elapsed` on the Unix epoch: the seconds since then and the nanoseconds
/// beyond them, which are less than a second, or nothing when the clock stands before it. What
/// the clock shows is left open.
#[verifier::external_body]
fn since_epoch() -> (reading: Option<(u64, u32)>)
    ensures
        reading matches Some(r) ==> r.1 < 1_000_000_000,
{
    match std::time::UNIX_EPOCH.elapsed() {
        Ok(d) => Some((d.as_secs(), d.subsec_nanos())),
        Err(_) => None,
    }
}

/// A clock reading in milliseconds since the Unix epoch.
pub fn reading_ms(reading: Option<(u64, u32)>) -> (ms: Option<i64>)
    requires
        reading matches Some(r) ==> r.1 < 1_000_000_000,
    ensures
        ms == epoch_ms(reading),
{
    match reading {
        Some((secs, nanos)) => Some(Duration::new(secs, nanos).as_millis_i64()),
        None => None,
    }
}

/// The time now, in milliseconds since the Unix epoch; nothing when the clock stands before it.
pub fn now_ms() -> (now: Option<i64>)
    ensures
        exists|reading: Option<(u64, u32)>|
            (reading matches Some(r) ==> r.1 < 1_000_000_000) && now == #[trigger] epoch_ms(
                reading,
            ),
{
    reading_ms(since_epoch())
}

} // verus!
