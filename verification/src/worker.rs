//! Queue consumers: claim, process, persist and acknowledge, with retries and backoff.

use vstd::arithmetic::power2::pow2;
use vstd::prelude::*;

use crate::duration::{
    law_spans_of_the_same_length_are_the_same, Duration, NANOS_PER_MILLI, NANOS_PER_SEC,
};
use crate::processor::{process, process_fails, process_text, processed, ProcessError};
use crate::queue_laws::law_span_counts_its_milliseconds;
use crate::store::{
    fits_i64, mark_done, mark_failed, span_ms, Claimed, ClaimedView, Status, Store, StoreView,
};
use crate::text::opt_str;

verus! {

/// How a worker behaves.
#[derive(Clone, Copy, Debug)]
pub struct WorkerCfg {
    /// How long a claimed event is invisible to other workers.
    pub lease: Duration,
    /// How long to wait for a wake-up before looking again, which also finds retries.
    pub poll: Duration,
    /// How often an event is attempted before it is given up.
    pub max_attempts: i64,
    /// The wait after the first failure.
    pub backoff_base: Duration,
    /// The longest wait after a failure.
    pub backoff_cap: Duration,
}

impl Default for WorkerCfg {
    fn default() -> (cfg: WorkerCfg)
        ensures
            cfg.lease@ == 30 * NANOS_PER_SEC,
            cfg.poll@ == 500 * NANOS_PER_MILLI,
            cfg.max_attempts == 10,
            cfg.backoff_base@ == 2 * NANOS_PER_SEC,
            cfg.backoff_cap@ == 900 * NANOS_PER_SEC,
    {
        WorkerCfg {
            lease: Duration::from_secs(30),
            poll: Duration::from_millis(500),
            max_attempts: 10,
            backoff_base: Duration::from_secs(2),
            backoff_cap: Duration::from_secs(15 * 60),
        }
    }
}

/// How often the base is doubled for an attempt: once for each attempt before it.
pub open spec fn doublings(attempt: int) -> nat {
    if attempt <= 1 {
        0
    } else {
        (attempt - 1) as nat
    }
}

/// The wait after a failed attempt, in nanoseconds.
pub open spec fn backoff_nanos(base: nat, cap: nat, attempt: int) -> nat {
    let wait = base * pow2(doublings(attempt));
    if wait <= cap {
        wait
    } else {
        cap
    }
}

/// Exponential backoff: the base, doubled for each attempt before this one, up to the cap.
pub fn backoff(cfg: &WorkerCfg, attempt: i64) -> (wait: Duration)
    ensures
        wait@ == backoff_nanos(cfg.backoff_base@, cfg.backoff_cap@, attempt as int),
{
    let zero = Duration::from_secs(0);
    let mut wait = cfg.backoff_base.min(cfg.backoff_cap);
    let mut at: i64 = 1;
    proof {
        lemma_first_wait(cfg.backoff_base@, cfg.backoff_cap@);
        if attempt <= 1 {
            assert(doublings(attempt as int) == doublings(1));
        }
    }
    while at < attempt && wait != cfg.backoff_cap && wait != zero
        invariant
            zero@ == 0,
            1 <= at,
            at <= attempt || at == 1,
            attempt <= 1 ==> doublings(attempt as int) == doublings(at as int),
            wait@ == backoff_nanos(cfg.backoff_base@, cfg.backoff_cap@, at as int),
            wait@ <= cfg.backoff_cap@,
        decreases attempt - at,
    {
        proof {
            law_backoff_doubles(cfg.backoff_base@, cfg.backoff_cap@, at as int);
        }
        wait = wait.saturating_mul(2).min(cfg.backoff_cap);
        at = at + 1;
    }
    proof {
        law_spans_of_the_same_length_are_the_same(wait, cfg.backoff_cap);
        law_spans_of_the_same_length_are_the_same(wait, zero);
        if at < attempt {
            lemma_wait_stays(
                cfg.backoff_base@,
                cfg.backoff_cap@,
                at as int,
                attempt as int,
            );
        }
    }
    wait
}

/// The first wait is the base, up to the cap.
proof fn lemma_first_wait(base: nat, cap: nat)
    ensures
        backoff_nanos(base, cap, 1) == if base <= cap {
            base
        } else {
            cap
        },
{
    vstd::arithmetic::power2::lemma2_to64();
    assert(base * 1 == base);
}

/// A wait that has reached the cap, or is none at all, stays as it is.
proof fn lemma_wait_stays(base: nat, cap: nat, attempt: int, later: int)
    requires
        1 <= attempt <= later,
        backoff_nanos(base, cap, attempt) == cap || backoff_nanos(base, cap, attempt) == 0,
    ensures
        backoff_nanos(base, cap, later) == backoff_nanos(base, cap, attempt),
    decreases later - attempt,
{
    if attempt < later {
        law_backoff_doubles(base, cap, attempt);
        lemma_wait_stays(base, cap, attempt + 1, later);
    }
}

/// The wait before the next attempt at an event, in nanoseconds; nothing once the attempts are
/// used up.
pub open spec fn retry_nanos(cfg: WorkerCfg, attempts: int) -> Option<nat> {
    if attempts < cfg.max_attempts {
        Some(backoff_nanos(cfg.backoff_base@, cfg.backoff_cap@, attempts))
    } else {
        None
    }
}

/// The wait before the next attempt at an event; nothing once the attempts are used up.
pub fn retry_in(cfg: &WorkerCfg, attempts: i64) -> (wait: Option<Duration>)
    ensures
        wait is Some <==> retry_nanos(*cfg, attempts as int) is Some,
        wait matches Some(d) ==> retry_nanos(*cfg, attempts as int) == Some(d@),
{
    if attempts < cfg.max_attempts {
        Some(backoff(cfg, attempts))
    } else {
        None
    }
}

/// Whether the next attempt after a failure now falls at a time that 64 bits hold.
pub open spec fn retry_fits(cfg: WorkerCfg, attempts: int, now: int) -> bool {
    retry_nanos(cfg, attempts) matches Some(n) ==> fits_i64(now + span_ms(n))
}

/// The tables after an attempt at an event failed.
pub open spec fn after_failure(
    store: StoreView,
    cfg: WorkerCfg,
    ev: ClaimedView,
    error: Seq<char>,
    now: int,
) -> StoreView {
    match retry_nanos(cfg, ev.attempts) {
        Some(n) => store.marked_failed(ev.event_id, error, true, now + span_ms(n)),
        None => store.marked_failed(ev.event_id, error, false, now),
    }
}

/// Records that an attempt at an event failed: the event is due again after the backoff, or given
/// up when its attempts are used up. Returns the wait.
pub fn record_failure(
    store: &mut Store,
    cfg: &WorkerCfg,
    ev: &Claimed,
    error: &str,
    now: i64,
) -> (wait: Option<Duration>)
    requires
        retry_fits(*cfg, ev.attempts as int, now as int),
    ensures
        final(store)@ == after_failure(old(store)@, *cfg, ev@, error@, now as int),
        wait is Some <==> retry_nanos(*cfg, ev.attempts as int) is Some,
        wait matches Some(d) ==> retry_nanos(*cfg, ev.attempts as int) == Some(d@),
        old(store)@.wf() ==> final(store)@.wf(),
{
    let wait = retry_in(cfg, ev.attempts);
    mark_failed(store, ev.event_id.as_str(), error, wait, now);
    wait
}

/// What became of an attempt at an event.
#[derive(Debug)]
pub enum Handled {
    /// The event is finished.
    Done { result: String },
    /// The attempt failed. The event is due again after `retry_in`, or given up.
    Failed { error: ProcessError, retry_in: Option<Duration> },
}

/// The tables after an event was processed and acknowledged.
pub open spec fn after_success(
    store: StoreView,
    ev: ClaimedView,
    invoice_id: Option<Seq<char>>,
    now: int,
) -> StoreView {
    processed(store, ev, invoice_id).marked_done(
        ev.event_id,
        process_text(store, ev, invoice_id),
        now,
    )
}

/// Processes a claimed event and acknowledges it, both or neither, and records the failure when
/// there is one. `invoice_id` is the invoice that the payload names, where it names one.
pub fn handle(
    store: &mut Store,
    cfg: &WorkerCfg,
    ev: &Claimed,
    invoice_id: Option<&str>,
    now: i64,
) -> (handled: Handled)
    requires
        process_fails(ev@, opt_str(invoice_id)) ==> retry_fits(
            *cfg,
            ev.attempts as int,
            now as int,
        ),
    ensures
        final(store)@ == if process_fails(ev@, opt_str(invoice_id)) {
            after_failure(
                old(store)@,
                *cfg,
                ev@,
                ProcessError::MalformedInvoice.spec_message(),
                now as int,
            )
        } else {
            after_success(old(store)@, ev@, opt_str(invoice_id), now as int)
        },
        match handled {
            Handled::Done { result } => !process_fails(ev@, opt_str(invoice_id)) && result@
                == process_text(old(store)@, ev@, opt_str(invoice_id)),
            Handled::Failed { error, retry_in } => {
                &&& process_fails(ev@, opt_str(invoice_id))
                &&& error == ProcessError::MalformedInvoice
                &&& retry_in is Some <==> retry_nanos(*cfg, ev.attempts as int) is Some
                &&& retry_in matches Some(d) ==> retry_nanos(*cfg, ev.attempts as int) == Some(d@)
            },
        },
        old(store)@.wf() ==> final(store)@.wf(),
{
    match process(store, ev, invoice_id) {
        Ok(result) => {
            mark_done(store, ev.event_id.as_str(), result.as_str(), now);
            Handled::Done { result }
        },
        Err(error) => {
            let retry_in = record_failure(store, cfg, ev, error.message(), now);
            Handled::Failed { error, retry_in }
        },
    }
}

/// What a worker learns.
#[derive(Debug)]
pub enum RunEvent {
    /// It is free; `shutdown` tells whether it was asked to stop.
    Turn { shutdown: bool },
    /// It claimed an event.
    Claimed(Claimed),
    /// No event is ready.
    Empty,
    /// The claim failed.
    ClaimFailed,
}

/// What a worker does next. After anything but `Stop` and `Claim` it is free again.
#[derive(Debug)]
pub enum RunAction {
    /// End.
    Stop,
    /// Claim the next ready event, with a lease of this length.
    Claim(Duration),
    /// Handle the event.
    Handle(Claimed),
    /// Wait for a wake-up, for shutdown, or for this long.
    Wait(Duration),
    /// Sleep this long.
    Pause(Duration),
}

/// Decides what a worker does next.
pub fn run(cfg: &WorkerCfg, event: RunEvent) -> (action: RunAction)
    ensures
        match event {
            RunEvent::Turn { shutdown } => action == if shutdown {
                RunAction::Stop
            } else {
                RunAction::Claim(cfg.lease)
            },
            RunEvent::Claimed(ev) => action == RunAction::Handle(ev),
            RunEvent::Empty => action == RunAction::Wait(cfg.poll),
            RunEvent::ClaimFailed => action matches RunAction::Pause(d) && d@ == NANOS_PER_SEC,
        },
{
    match event {
        RunEvent::Turn { shutdown } => if shutdown {
            RunAction::Stop
        } else {
            RunAction::Claim(cfg.lease)
        },
        RunEvent::Claimed(ev) => RunAction::Handle(ev),
        RunEvent::Empty => RunAction::Wait(cfg.poll),
        RunEvent::ClaimFailed => RunAction::Pause(Duration::from_secs(1)),
    }
}

/// What the purger learns.
#[derive(Clone, Copy, Debug)]
pub enum PurgeEvent {
    /// It is free; `shutdown` tells whether it was asked to stop.
    Turn { shutdown: bool },
    /// It purged the store, or failed to.
    Purged,
}

/// What the purger does next. After a `Wait` it is free again.
#[derive(Clone, Copy, Debug)]
pub enum PurgeAction {
    /// End.
    Stop,
    /// Drop what is over and older than this.
    Purge(Duration),
    /// Wait for shutdown, or for this long.
    Wait(Duration),
}

/// Decides what the purger does next: thirty days are kept, and it looks once an hour.
pub fn purge_loop(event: PurgeEvent) -> (action: PurgeAction)
    ensures
        match event {
            PurgeEvent::Turn { shutdown } => if shutdown {
                action == PurgeAction::Stop
            } else {
                action matches PurgeAction::Purge(keep) && keep@ == 30 * 24 * 3600 * NANOS_PER_SEC
            },
            PurgeEvent::Purged => action matches PurgeAction::Wait(d) && d@ == 3600
                * NANOS_PER_SEC,
        },
{
    match event {
        PurgeEvent::Turn { shutdown } => if shutdown {
            PurgeAction::Stop
        } else {
            PurgeAction::Purge(Duration::from_secs(30 * 24 * 3600))
        },
        PurgeEvent::Purged => PurgeAction::Wait(Duration::from_secs(3600)),
    }
}

/// The wait is the base doubled for each attempt before this one, up to the cap.
pub proof fn law_backoff_is_exponential_up_to_the_cap(base: nat, cap: nat, attempt: int)
    requires
        1 <= attempt,
    ensures
        backoff_nanos(base, cap, attempt) == if base * pow2((attempt - 1) as nat) <= cap {
            base * pow2((attempt - 1) as nat)
        } else {
            cap
        },
{
}

/// Each wait is twice the one before it, up to the cap.
pub proof fn law_backoff_doubles(base: nat, cap: nat, attempt: int)
    requires
        1 <= attempt,
    ensures
        backoff_nanos(base, cap, attempt + 1) == if 2 * backoff_nanos(base, cap, attempt) <= cap {
            2 * backoff_nanos(base, cap, attempt)
        } else {
            cap
        },
{
    let e = (attempt - 1) as nat;
    vstd::arithmetic::power2::lemma_pow2_unfold((e + 1) as nat);
    let p = pow2(e);
    assert(pow2((e + 1) as nat) == 2 * p);
    assert(base * (2 * p) == 2 * (base * p)) by (nonlinear_arith);
}

/// No wait is longer than the cap, and a later attempt never waits shorter than an earlier one.
pub proof fn law_backoff_grows_and_is_capped(base: nat, cap: nat, attempt: int, later: int)
    requires
        attempt <= later,
    ensures
        backoff_nanos(base, cap, later) <= cap,
        backoff_nanos(base, cap, attempt) <= backoff_nanos(base, cap, later),
{
    let d = doublings(attempt);
    let e = doublings(later);
    if d < e {
        vstd::arithmetic::power2::lemma_pow2_strictly_increases(d, e);
    }
    let few = pow2(d);
    let many = pow2(e);
    assert(base * few <= base * many) by (nonlinear_arith)
        requires
            few <= many,
    ;
}

/// After a failure an event is pending with its wait ahead as long as it has attempts left, and
/// given up for good once it has not: it is then never ready again.
pub proof fn law_attempts_run_out(
    store: StoreView,
    cfg: WorkerCfg,
    ev: ClaimedView,
    error: Seq<char>,
    now: int,
    i: int,
    later: int,
)
    requires
        0 <= i < store.events.len(),
        store.events[i].event_id == ev.event_id,
    ensures
        ({
            let row = after_failure(store, cfg, ev, error, now).events[i];
            &&& row.last_error == Some(error)
            &&& row.attempts == store.events[i].attempts
            &&& ev.attempts < cfg.max_attempts ==> row.status == Status::Pending && (row.ready(later)
                <==> now + span_ms(
                backoff_nanos(cfg.backoff_base@, cfg.backoff_cap@, ev.attempts),
            ) <= later)
            &&& ev.attempts >= cfg.max_attempts ==> row.status == Status::Dead && !row.ready(later)
        }),
{
}

/// The first attempt waits for the base, up to the cap, and so does any count below it.
pub proof fn law_first_wait_is_the_base(base: nat, cap: nat, attempt: int)
    requires
        attempt <= 1,
    ensures
        base <= cap ==> backoff_nanos(base, cap, attempt) == base,
        base > cap ==> backoff_nanos(base, cap, attempt) == cap,
{
    lemma_first_wait(base, cap);
    assert(doublings(attempt) == doublings(1));
}

/// An event is attempted again exactly when it was attempted less often than the most that is
/// allowed, and waits for the backoff of that attempt.
pub proof fn law_attempts_below_the_most_are_retried(cfg: WorkerCfg, attempts: int)
    ensures
        attempts >= cfg.max_attempts ==> retry_nanos(cfg, attempts) is None,
        attempts < cfg.max_attempts ==> retry_nanos(cfg, attempts) == Some(
            backoff_nanos(cfg.backoff_base@, cfg.backoff_cap@, attempts),
        ),
{
}

/// A failed attempt puts the event off by the milliseconds of its backoff, from the time of the
/// failure, or gives it up; either way the row carries the error and keeps its event, and no other
/// row and no invoice changes.
pub proof fn law_failure_puts_the_event_off(
    store: StoreView,
    cfg: WorkerCfg,
    ev: ClaimedView,
    error: Seq<char>,
    now: int,
    later: int,
    i: int,
)
    requires
        0 <= i < store.events.len(),
        backoff_nanos(cfg.backoff_base@, cfg.backoff_cap@, ev.attempts) / 1_000_000 <= i64::MAX,
    ensures
        ({
            let wait = backoff_nanos(cfg.backoff_base@, cfg.backoff_cap@, ev.attempts) / 1_000_000;
            let after = after_failure(store, cfg, ev, error, now);
            let row = store.events[i];
            let left = after.events[i];
            &&& after.invoices == store.invoices
            &&& after.events.len() == store.events.len()
            &&& row.event_id != ev.event_id ==> left == row
            &&& row.event_id == ev.event_id ==> {
                &&& ev.attempts < cfg.max_attempts ==> left.status == Status::Pending
                    && left.next_attempt_at == now + wait && (left.ready(later) <==> now + wait
                    <= later)
                &&& ev.attempts >= cfg.max_attempts ==> left.status == Status::Dead
                    && left.next_attempt_at == now && !left.ready(later)
                &&& left.last_error == Some(error)
                &&& left.locked_until == 0
                &&& left.event_id == row.event_id
                &&& left.event_type == row.event_type
                &&& left.event_ts == row.event_ts
                &&& left.payload == row.payload
                &&& left.attempts == row.attempts
                &&& left.result == row.result
                &&& left.received_at == row.received_at
                &&& left.processed_at == row.processed_at
            }
        }),
{
    law_span_counts_its_milliseconds(
        backoff_nanos(cfg.backoff_base@, cfg.backoff_cap@, ev.attempts),
    );
}

/// A processed event is done, with what the audit log says of it as its result; the invoices are as
/// processing leaves them, and no other row changes.
pub proof fn law_success_finishes_the_event(
    store: StoreView,
    ev: ClaimedView,
    invoice_id: Option<Seq<char>>,
    now: int,
    i: int,
)
    requires
        0 <= i < store.events.len(),
    ensures
        ({
            let after = after_success(store, ev, invoice_id, now);
            let row = store.events[i];
            let left = after.events[i];
            &&& after.invoices == processed(store, ev, invoice_id).invoices
            &&& after.events.len() == store.events.len()
            &&& row.event_id != ev.event_id ==> left == row
            &&& row.event_id == ev.event_id ==> {
                &&& left.status == Status::Done
                &&& left.result == Some(process_text(store, ev, invoice_id))
                &&& left.last_error is None
                &&& left.processed_at == Some(now)
                &&& left.locked_until == 0
                &&& left.event_id == row.event_id
                &&& left.event_type == row.event_type
                &&& left.event_ts == row.event_ts
                &&& left.payload == row.payload
                &&& left.attempts == row.attempts
                &&& left.next_attempt_at == row.next_attempt_at
                &&& left.received_at == row.received_at
            }
        }),
{
}

/// A failure can be recorded whenever the time of the next attempt is one that 64 bits hold, and
/// always when there is no next attempt.
pub proof fn law_failure_can_be_recorded(cfg: WorkerCfg, attempts: int, now: int)
    ensures
        attempts >= cfg.max_attempts ==> retry_fits(cfg, attempts, now),
        ({
            let wait = backoff_nanos(cfg.backoff_base@, cfg.backoff_cap@, attempts) / 1_000_000;
            attempts < cfg.max_attempts && wait <= i64::MAX && i64::MIN <= now + wait <= i64::MAX
                ==> retry_fits(cfg, attempts, now)
        }),
{
    law_span_counts_its_milliseconds(
        backoff_nanos(cfg.backoff_base@, cfg.backoff_cap@, attempts),
    );
}

} // verus!
