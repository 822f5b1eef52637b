use webhook_service::duration::Duration;
use webhook_service::processor::{process, ProcessError};
use webhook_service::store::{
    claim, enqueue, find_ready, mark_done, mark_failed, now_ms, purge_older_than, reading_ms, upsert_invoice,
    Claimed, Enqueued, NewEvent, Status, Store,
};
use webhook_service::worker::{handle, record_failure, Handled, WorkerCfg};

const LEASE: u64 = 30;

fn ev(id: &str, ty: &str, ts: i64) -> NewEvent {
    NewEvent {
        event_id: id.into(),
        event_type: ty.into(),
        event_ts: ts,
        payload: format!(
            r#"{{"id":"{id}","type":"{ty}","created":{ts},"data":{{"invoice_id":"inv_1"}}}}"#
        ),
    }
}

fn invoice_in(payload: &str) -> Option<String> {
    let value: serde_json::Value = serde_json::from_str(payload).ok()?;
    Some(value.get("data")?.get("invoice_id")?.as_str()?.to_string())
}

fn drain(store: &mut Store, now: i64) {
    while let Some(c) = claim(store, Duration::from_secs(LEASE), now) {
        let invoice = invoice_in(&c.payload);
        let r = process(store, &c, invoice.as_deref()).unwrap();
        mark_done(store, &c.event_id, &r, now);
    }
}

fn claimed(id: &str, ty: &str, ts: i64, attempts: i64) -> Claimed {
    Claimed {
        event_id: id.into(),
        event_type: ty.into(),
        event_ts: ts,
        payload: String::new(),
        attempts,
    }
}

#[test]
fn duplicate_event_ids_are_stored_once() {
    let mut store = Store::new();
    assert_eq!(enqueue(&mut store, &ev("e1", "invoice.created", 100), 1), Enqueued::New);
    assert_eq!(enqueue(&mut store, &ev("e1", "invoice.created", 100), 2), Enqueued::Duplicate);
    assert_eq!(store.events.len(), 1);
    assert_eq!(store.events[0].received_at, 1);
}

#[test]
fn out_of_order_events_converge() {
    let mut store = Store::new();
    // `paid` (ts 200) arrives before `created` (ts 100).
    enqueue(&mut store, &ev("e2", "invoice.paid", 200), 1);
    drain(&mut store, 1);
    enqueue(&mut store, &ev("e1", "invoice.created", 100), 2);
    drain(&mut store, 2);

    let invoice = store.invoices.iter().find(|v| v.invoice_id == "inv_1").unwrap();
    assert_eq!(invoice.status, "paid");
    let row = store.events.iter().find(|e| e.event_id == "e1").unwrap();
    assert!(row.result.as_ref().unwrap().starts_with("skipped stale"));
    assert_eq!(row.result.as_deref(), Some("skipped stale invoice.created for inv_1"));
}

#[test]
fn expired_lease_is_reclaimed() {
    let mut store = Store::new();
    enqueue(&mut store, &ev("e3", "invoice.created", 1), 1000);
    // A "crashed" worker: claims with a zero-length lease and never finishes.
    assert!(claim(&mut store, Duration::from_secs(0), 1000).is_some());
    let again = claim(&mut store, Duration::from_secs(30), 1005).unwrap();
    assert_eq!(again.attempts, 2);
}

#[test]
fn a_new_event_is_stored_as_received_and_can_be_claimed() {
    let mut store = Store::new();
    enqueue(&mut store, &ev("e1", "invoice.paid", 7), 50);
    let row = &store.events[0];
    assert_eq!(row.status, Status::Pending);
    assert_eq!((row.attempts, row.next_attempt_at, row.locked_until), (0, 50, 0));
    assert_eq!((row.received_at, row.processed_at), (50, None));
    assert_eq!((&row.result, &row.last_error), (&None, &None));

    assert!(claim(&mut store, Duration::from_secs(1), 49).is_none());
    let c = claim(&mut store, Duration::from_secs(1), 50).unwrap();
    assert_eq!((c.event_id.as_str(), c.event_type.as_str(), c.event_ts), ("e1", "invoice.paid", 7));
    assert_eq!(c.payload, ev("e1", "invoice.paid", 7).payload);
    assert_eq!(c.attempts, 1);
    assert_eq!(store.events[0].status, Status::Processing);
    assert_eq!(store.events[0].locked_until, 1050);
}

#[test]
fn a_lease_hides_the_event_until_it_runs_out() {
    let mut store = Store::new();
    enqueue(&mut store, &ev("e1", "invoice.paid", 7), 0);
    assert!(claim(&mut store, Duration::from_millis(100), 0).is_some());
    assert!(claim(&mut store, Duration::from_millis(100), 99).is_none());
    assert!(claim(&mut store, Duration::from_millis(100), 100).is_some());
}

#[test]
fn the_event_that_waited_longest_is_claimed_first() {
    let mut store = Store::new();
    enqueue(&mut store, &ev("late", "x", 1), 20);
    enqueue(&mut store, &ev("early", "x", 1), 10);
    enqueue(&mut store, &ev("also_early", "x", 1), 10);
    let lease = Duration::from_secs(LEASE);
    assert_eq!(claim(&mut store, lease, 30).unwrap().event_id, "early");
    assert_eq!(claim(&mut store, lease, 30).unwrap().event_id, "also_early");
    assert_eq!(claim(&mut store, lease, 30).unwrap().event_id, "late");
    assert!(claim(&mut store, lease, 30).is_none());
}

#[test]
fn a_finished_event_is_not_claimed_again() {
    let mut store = Store::new();
    enqueue(&mut store, &ev("e1", "x", 1), 0);
    enqueue(&mut store, &ev("e2", "x", 1), 5);
    assert!(claim(&mut store, Duration::from_secs(0), 0).is_some());
    mark_failed(&mut store, "e1", "first", Some(Duration::from_secs(0)), 0);
    mark_done(&mut store, "e1", "fine", 3);
    let row = &store.events[0];
    assert_eq!(row.status, Status::Done);
    assert_eq!(row.result.as_deref(), Some("fine"));
    assert_eq!((&row.last_error, row.processed_at, row.locked_until), (&None, Some(3), 0));
    assert_eq!(store.events[1].status, Status::Pending);
    assert!(claim(&mut store, Duration::from_secs(1), 4).is_none());
    mark_done(&mut store, "unknown", "fine", 3);
    assert_eq!(store.events[1].status, Status::Pending);
}

#[test]
fn a_failed_event_waits_or_is_given_up() {
    let mut store = Store::new();
    enqueue(&mut store, &ev("e1", "x", 1), 0);
    enqueue(&mut store, &ev("e2", "x", 1), 0);
    mark_failed(&mut store, "e1", "boom", Some(Duration::from_millis(40)), 10);
    mark_failed(&mut store, "e2", "bang", None, 10);
    assert_eq!((store.events[0].status, store.events[0].next_attempt_at), (Status::Pending, 50));
    assert_eq!(store.events[0].last_error.as_deref(), Some("boom"));
    assert_eq!((store.events[1].status, store.events[1].next_attempt_at), (Status::Dead, 10));
    assert!(claim(&mut store, Duration::from_secs(1), 49).is_none());
    assert_eq!(claim(&mut store, Duration::from_secs(1), 50).unwrap().event_id, "e1");
    assert!(claim(&mut store, Duration::from_secs(1), 60).is_none());
}

#[test]
fn a_purge_drops_only_what_is_over_and_frees_its_id() {
    let mut store = Store::new();
    for (id, at) in [("done", 0), ("dead", 1), ("pending", 2), ("young", 100)] {
        enqueue(&mut store, &ev(id, "x", 1), at);
    }
    mark_done(&mut store, "done", "ok", 5);
    mark_failed(&mut store, "dead", "no", None, 5);
    mark_done(&mut store, "young", "ok", 105);
    assert_eq!(purge_older_than(&mut store, Duration::from_millis(100), 200), 2);
    let left: Vec<&str> = store.events.iter().map(|e| e.event_id.as_str()).collect();
    assert_eq!(left, ["pending", "young"]);
    assert_eq!(purge_older_than(&mut store, Duration::from_millis(100), 201), 1);
    assert_eq!(enqueue(&mut store, &ev("done", "x", 1), 300), Enqueued::New);
}

#[test]
fn processing_words_its_results() {
    let mut store = Store::new();
    let paid = claimed("e1", "invoice.paid", 200, 1);
    let created = claimed("e2", "invoice.created", 300, 1);
    assert_eq!(process(&mut store, &paid, Some("inv_9")), Ok("invoice inv_9 -> paid".to_string()));
    assert_eq!(process(&mut store, &created, Some("inv_9")), Ok("invoice inv_9 -> open".to_string()));
    assert_eq!(
        process(&mut store, &paid, Some("inv_9")),
        Ok("skipped stale invoice.paid for inv_9".to_string())
    );
    assert_eq!(
        process(&mut store, &claimed("e3", "invoice.void", 1, 1), None),
        Ok("ignored: no handler for 'invoice.void'".to_string())
    );
    assert_eq!(process(&mut store, &paid, None), Err(ProcessError::MalformedInvoice));
    assert_eq!(ProcessError::MalformedInvoice.message(), "malformed invoice payload");
    assert_eq!(store.invoices.len(), 1);
    assert_eq!(store.invoices[0].last_event_ts, 300);
}

#[test]
fn processing_an_event_again_changes_nothing() {
    let mut store = Store::new();
    let paid = claimed("e1", "invoice.paid", 200, 1);
    process(&mut store, &paid, Some("inv_1")).unwrap();
    let text = process(&mut store, &paid, Some("inv_1")).unwrap();
    assert_eq!(text, "skipped stale invoice.paid for inv_1");
    assert_eq!((store.invoices[0].status.as_str(), store.invoices[0].last_event_ts), ("paid", 200));
}

#[test]
fn the_newest_event_decides_in_any_order() {
    let evs = [("invoice.created", 1), ("invoice.paid", 3), ("invoice.created", 2)];
    for order in [[0, 1, 2], [0, 2, 1], [1, 0, 2], [1, 2, 0], [2, 0, 1], [2, 1, 0]] {
        let mut store = Store::new();
        upsert_invoice(&mut store, "other", "open", 9);
        for i in order {
            process(&mut store, &claimed("e", evs[i].0, evs[i].1, 1), Some("inv")).unwrap();
        }
        assert_eq!(store.invoices[1].status, "paid");
        assert_eq!(store.invoices[1].last_event_ts, 3);
        assert_eq!(store.invoices[0].last_event_ts, 9);
    }
}

#[test]
fn interleaved_events_of_several_invoices_converge() {
    let evs = [
        ("invoice.created", 1, "a"),
        ("invoice.paid", 2, "b"),
        ("invoice.paid", 5, "a"),
        ("invoice.created", 9, "b"),
        ("invoice.void", 99, "a"),
    ];
    for order in [[0, 1, 2, 3, 4], [4, 3, 2, 1, 0], [2, 3, 0, 4, 1], [3, 0, 1, 2, 4]] {
        let mut store = Store::new();
        for i in order.iter().chain(order.iter().rev()) {
            let (ty, ts, id) = evs[*i];
            process(&mut store, &claimed("e", ty, ts, 1), Some(id)).unwrap();
        }
        let held = |id: &str| {
            let v = store.invoices.iter().find(|v| v.invoice_id == id).unwrap();
            (v.status.clone(), v.last_event_ts)
        };
        assert_eq!(held("a"), ("paid".to_string(), 5));
        assert_eq!(held("b"), ("open".to_string(), 9));
        assert_eq!(store.invoices.len(), 2);
    }
}

#[test]
fn handling_needs_its_rows_only() {
    let cfg = WorkerCfg::default();
    let mut all = Store::new();
    for id in ["e1", "e2"] {
        enqueue(&mut all, &ev(id, "invoice.paid", 200), 0);
    }
    upsert_invoice(&mut all, "other", "open", 1);
    upsert_invoice(&mut all, "inv_1", "open", 300);
    let mut few = Store::new();
    enqueue(&mut few, &ev("e2", "invoice.paid", 200), 0);
    upsert_invoice(&mut few, "inv_1", "open", 300);
    for store in [&mut all, &mut few] {
        let c = claimed("e2", "invoice.paid", 200, 1);
        match handle(store, &cfg, &c, Some("inv_1"), 7) {
            Handled::Done { result } => assert_eq!(result, "skipped stale invoice.paid for inv_1"),
            Handled::Failed { .. } => panic!("an invoice is named"),
        }
        assert_eq!(store.events.last().unwrap().processed_at, Some(7));
        assert_eq!(store.invoices.last().unwrap().last_event_ts, 300);
    }
    assert_eq!(all.events[0].status, Status::Pending);
}

#[test]
fn a_purge_needs_finished_rows_only() {
    let build = || {
        let mut store = Store::new();
        for (id, at) in [("a", 1), ("b", 2), ("c", 3), ("d", 50)] {
            enqueue(&mut store, &ev(id, "x", 1), at);
        }
        for id in ["a", "c", "d"] {
            mark_done(&mut store, id, "ok", 60);
        }
        store
    };
    let mut all = build();
    let mut over = build();
    over.events.retain(|e| e.status == Status::Done || e.status == Status::Dead);
    assert_eq!(purge_older_than(&mut all, Duration::from_millis(10), 30), 2);
    assert_eq!(purge_older_than(&mut over, Duration::from_millis(10), 30), 2);
    assert_eq!(over.events.len(), 1);
    assert_eq!(over.events[0].event_id, "d");
    assert_eq!(all.events.len(), 2);
}

#[test]
fn a_lease_is_exclusive_whatever_happens_meanwhile() {
    let mut store = Store::new();
    enqueue(&mut store, &ev("e1", "x", 1), 0);
    let lease = Duration::from_millis(100);
    let first = claim(&mut store, lease, 0).unwrap();
    enqueue(&mut store, &ev("e1", "x", 1), 10);
    enqueue(&mut store, &ev("e2", "x", 1), 10);
    assert_eq!(claim(&mut store, lease, 20).unwrap().event_id, "e2");
    mark_done(&mut store, "e2", "ok", 30);
    purge_older_than(&mut store, Duration::from_millis(0), 90);
    assert_eq!(store.events.len(), 1);
    assert!(claim(&mut store, lease, 99).is_none());
    let again = claim(&mut store, lease, 100).unwrap();
    assert_eq!(again.event_id, "e1");
    assert_eq!(again.attempts, first.attempts + 1);
}

#[test]
fn events_of_the_same_time_keep_the_first() {
    let mut store = Store::new();
    assert!(upsert_invoice(&mut store, "inv", "open", 5));
    assert!(!upsert_invoice(&mut store, "inv", "paid", 5));
    assert_eq!(store.invoices[0].status, "open");
    assert!(upsert_invoice(&mut store, "inv", "paid", 6));
}

#[test]
fn handling_finishes_or_records_the_failure() {
    let mut store = Store::new();
    let cfg = WorkerCfg::default();
    enqueue(&mut store, &ev("e1", "invoice.paid", 200), 0);
    let c = claim(&mut store, cfg.lease, 0).unwrap();
    match handle(&mut store, &cfg, &c, None, 1000) {
        Handled::Failed { error, retry_in } => {
            assert_eq!(error, ProcessError::MalformedInvoice);
            assert_eq!(retry_in, Some(Duration::from_secs(2)));
        }
        Handled::Done { .. } => panic!("no invoice"),
    }
    assert!(store.invoices.is_empty());
    assert_eq!(store.events[0].last_error.as_deref(), Some("malformed invoice payload"));
    assert_eq!(store.events[0].next_attempt_at, 3000);

    let c = claim(&mut store, cfg.lease, 3000).unwrap();
    match handle(&mut store, &cfg, &c, invoice_in(&c.payload).as_deref(), 3001) {
        Handled::Done { result } => assert_eq!(result, "invoice inv_1 -> paid"),
        Handled::Failed { .. } => panic!("an invoice is named"),
    }
    assert_eq!(store.events[0].status, Status::Done);
    assert_eq!(store.events[0].processed_at, Some(3001));
    assert_eq!(store.events[0].attempts, 2);
    assert_eq!(store.invoices[0].status, "paid");
}

#[test]
fn attempts_run_out() {
    let mut store = Store::new();
    let cfg = WorkerCfg::default();
    enqueue(&mut store, &ev("e1", "x", 1), 0);
    let mut now = 0;
    for attempt in 1..=10 {
        let c = claim(&mut store, cfg.lease, now).unwrap();
        assert_eq!(c.attempts, attempt);
        let wait = record_failure(&mut store, &cfg, &c, "boom", now);
        assert_eq!(wait.is_some(), attempt < 10);
        now = store.events[0].next_attempt_at;
    }
    assert_eq!(store.events[0].status, Status::Dead);
    assert!(claim(&mut store, cfg.lease, i64::MAX - 30_000).is_none());
}

#[test]
fn an_id_that_is_taken_is_never_stored_again() {
    let mut store = Store::new();
    enqueue(&mut store, &ev("e1", "invoice.created", 100), 1);
    mark_done(&mut store, "e1", "ok", 2);
    assert_eq!(enqueue(&mut store, &ev("e1", "invoice.paid", 900), 3), Enqueued::Duplicate);
    assert_eq!(store.events.len(), 1);
    assert_eq!(store.events[0].event_type, "invoice.created");
    assert_eq!(store.events[0].status, Status::Done);
}

#[test]
fn no_step_of_the_queue_loses_an_event_or_changes_an_invoice() {
    let mut store = Store::new();
    upsert_invoice(&mut store, "inv", "open", 4);
    enqueue(&mut store, &ev("a", "x", 11), 1);
    enqueue(&mut store, &ev("b", "y", 12), 2);
    claim(&mut store, Duration::from_secs(1), 5);
    mark_failed(&mut store, "a", "boom", None, 6);
    mark_done(&mut store, "b", "ok", 7);
    let seen: Vec<(&str, &str, i64, i64)> = store
        .events
        .iter()
        .map(|e| (e.event_id.as_str(), e.event_type.as_str(), e.event_ts, e.received_at))
        .collect();
    assert_eq!(seen, [("a", "x", 11, 1), ("b", "y", 12, 2)]);
    assert_eq!(store.events[0].payload, ev("a", "x", 11).payload);
    assert_eq!(store.invoices.len(), 1);
    assert_eq!((store.invoices[0].status.as_str(), store.invoices[0].last_event_ts), ("open", 4));
}

#[test]
fn a_claim_needs_unfinished_rows_only() {
    let build = || {
        let mut store = Store::new();
        for (id, at) in [("a", 1), ("b", 3), ("c", 2), ("d", 2)] {
            enqueue(&mut store, &ev(id, "x", 1), at);
        }
        mark_done(&mut store, "a", "ok", 4);
        store
    };
    let mut all = build();
    let mut open = build();
    open.events.retain(|e| e.status == Status::Pending);
    for expected in ["c", "d", "b"] {
        let lease = Duration::from_secs(LEASE);
        assert_eq!(claim(&mut all, lease, 9).unwrap().event_id, expected);
        assert_eq!(claim(&mut open, lease, 9).unwrap().event_id, expected);
    }
}

#[test]
fn one_event_needs_its_rows_only() {
    let mut all = Store::new();
    let mut one = Store::new();
    for id in ["a", "b"] {
        enqueue(&mut all, &ev(id, "x", 1), 1);
    }
    enqueue(&mut one, &ev("b", "x", 1), 1);
    for store in [&mut all, &mut one] {
        assert_eq!(enqueue(store, &ev("b", "x", 1), 2), Enqueued::Duplicate);
        mark_failed(store, "b", "boom", Some(Duration::from_millis(5)), 2);
        let row = store.events.last().unwrap();
        assert_eq!((row.status, row.next_attempt_at), (Status::Pending, 7));
        mark_done(store, "b", "ok", 8);
        assert_eq!(store.events.last().unwrap().processed_at, Some(8));
    }
    assert_eq!(all.events[0].status, Status::Pending);
}

#[test]
fn statuses_are_written_and_read_back() {
    for s in [Status::Pending, Status::Processing, Status::Done, Status::Dead] {
        assert_eq!(Status::from_text(s.text()), Some(s));
    }
    assert_eq!(Status::Dead.text(), "dead");
    assert_eq!(Status::from_text("Done"), None);
}

#[test]
fn the_clock_counts_milliseconds() {
    assert_eq!(reading_ms(Some((1, 1_999_999))), Some(1001));
    assert_eq!(reading_ms(Some((u64::MAX, 0))), Some(-1000));
    assert_eq!(reading_ms(None), None);
    let now = now_ms().unwrap();
    assert!(now > 1_600_000_000_000);
    assert!(now_ms().unwrap() >= now);
}

#[test]
fn a_purged_event_is_not_claimed_unless_it_is_stored_anew() {
    let mut store = Store::new();
    enqueue(&mut store, &ev("e1", "invoice.created", 1), 1000);
    claim(&mut store, Duration::from_secs(30), 1000);
    mark_done(&mut store, "e1", "ok", 1001);
    // Stored again while it is there: nothing changes.
    assert_eq!(enqueue(&mut store, &ev("e1", "invoice.created", 1), 1002), Enqueued::Duplicate);
    assert_eq!(purge_older_than(&mut store, Duration::from_secs(0), 2000), 1);
    assert!(claim(&mut store, Duration::from_secs(30), 90_000).is_none());
    // Stored anew after the purge, it is an event like any other.
    assert_eq!(enqueue(&mut store, &ev("e1", "invoice.created", 1), 90_000), Enqueued::New);
    assert_eq!(claim(&mut store, Duration::from_secs(30), 90_000).unwrap().event_id, "e1");
}

#[test]
fn a_claim_needs_times_to_choose_and_then_its_row_only() {
    let stored = || {
        let mut store = Store::new();
        enqueue(&mut store, &ev("e1", "invoice.created", 1), 500);
        enqueue(&mut store, &ev("e2", "invoice.created", 2), 400);
        enqueue(&mut store, &ev("e3", "invoice.created", 3), 400);
        store
    };
    let mut light = stored();
    for e in light.events.iter_mut() {
        e.payload.clear();
    }
    assert_eq!(find_ready(&light.events, 399), None);
    assert_eq!(find_ready(&light.events, 600), Some(1));
    assert_eq!(find_ready(&stored().events, 600), Some(1));

    let mut whole = stored();
    let mut alone = Store { events: vec![stored().events.remove(1)], invoices: Vec::new() };
    let a = claim(&mut whole, Duration::from_secs(30), 600).unwrap();
    let b = claim(&mut alone, Duration::from_secs(30), 600).unwrap();
    assert_eq!(a.event_id, "e2");
    assert_eq!((a.event_id, a.payload, a.attempts), (b.event_id, b.payload, b.attempts));
    assert_eq!(whole.events[1].locked_until, 30_600);
    assert_eq!(alone.events[0].locked_until, 30_600);
    assert_eq!(whole.events[1].status, alone.events[0].status);
}
