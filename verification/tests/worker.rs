use webhook_service::duration::Duration;
use webhook_service::store::Claimed;
use webhook_service::worker::{
    backoff, purge_loop, retry_in, run, PurgeAction, PurgeEvent, RunAction, RunEvent, WorkerCfg,
};

#[test]
fn backoff_doubles_then_caps() {
    let cfg = WorkerCfg::default();
    assert_eq!(backoff(&cfg, 1), Duration::from_secs(2));
    assert_eq!(backoff(&cfg, 2), Duration::from_secs(4));
    assert_eq!(backoff(&cfg, 3), Duration::from_secs(8));
    assert_eq!(backoff(&cfg, 30), cfg.backoff_cap);
}

#[test]
fn the_default_configuration() {
    let cfg = WorkerCfg::default();
    assert_eq!(cfg.lease, Duration::from_secs(30));
    assert_eq!(cfg.poll, Duration::from_millis(500));
    assert_eq!(cfg.max_attempts, 10);
    assert_eq!(cfg.backoff_base, Duration::from_secs(2));
    assert_eq!(cfg.backoff_cap, Duration::from_secs(900));
    assert_eq!(backoff(&cfg, 9), Duration::from_secs(512));
    assert_eq!(backoff(&cfg, 10), Duration::from_secs(900));
}

#[test]
fn backoff_takes_any_attempt() {
    let cfg = WorkerCfg {
        backoff_base: Duration::from_millis(1),
        backoff_cap: Duration::from_secs(1_000_000),
        ..WorkerCfg::default()
    };
    assert_eq!(backoff(&cfg, i64::MIN), Duration::from_millis(1));
    assert_eq!(backoff(&cfg, 0), Duration::from_millis(1));
    assert_eq!(backoff(&cfg, 21), Duration::from_millis(1 << 20));
    assert_eq!(backoff(&cfg, 22), Duration::from_millis(1 << 21));
    assert_eq!(backoff(&cfg, 30), Duration::from_millis(1 << 29));
    assert_eq!(backoff(&cfg, 31), cfg.backoff_cap);
    assert_eq!(backoff(&cfg, i64::MAX), cfg.backoff_cap);
    let hour = WorkerCfg { backoff_cap: Duration::from_secs(3600), ..cfg };
    assert_eq!(backoff(&hour, 22), Duration::from_millis(2_097_152));
    let none = WorkerCfg { backoff_base: Duration::from_secs(0), ..cfg };
    assert_eq!(backoff(&none, i64::MAX), Duration::from_secs(0));
    let low = WorkerCfg { backoff_cap: Duration::from_secs(0), ..cfg };
    assert_eq!(backoff(&low, 1), Duration::from_secs(0));
    let huge = WorkerCfg {
        backoff_base: Duration::from_secs(u64::MAX),
        backoff_cap: Duration::new(u64::MAX, 999_999_999),
        ..cfg
    };
    assert_eq!(backoff(&huge, 5), huge.backoff_cap);
}

#[test]
fn backoff_grows_by_doubling_and_is_capped() {
    let cfg = WorkerCfg::default();
    for attempt in 1..=20 {
        let twice = backoff(&cfg, attempt).saturating_mul(2);
        assert_eq!(backoff(&cfg, attempt + 1), twice.min(cfg.backoff_cap));
        let formula = cfg.backoff_base.saturating_mul(1 << (attempt - 1));
        assert_eq!(backoff(&cfg, attempt), formula.min(cfg.backoff_cap));
        assert!(backoff(&cfg, attempt).as_millis() <= backoff(&cfg, attempt + 1).as_millis());
    }
    assert_eq!(backoff(&cfg, 1_000_000), cfg.backoff_cap);
}

#[test]
fn retries_until_attempts_are_used_up() {
    let cfg = WorkerCfg::default();
    assert_eq!(retry_in(&cfg, 9), Some(Duration::from_secs(512)));
    assert_eq!(retry_in(&cfg, 10), None);
    assert_eq!(retry_in(&cfg, 11), None);
}

#[test]
fn a_worker_claims_handles_waits_and_stops() {
    let cfg = WorkerCfg::default();
    assert!(matches!(run(&cfg, RunEvent::Turn { shutdown: true }), RunAction::Stop));
    assert!(matches!(
        run(&cfg, RunEvent::Turn { shutdown: false }),
        RunAction::Claim(d) if d == cfg.lease
    ));
    let ev = Claimed {
        event_id: "e1".into(),
        event_type: "x".into(),
        event_ts: 1,
        payload: String::new(),
        attempts: 3,
    };
    assert!(matches!(
        run(&cfg, RunEvent::Claimed(ev)),
        RunAction::Handle(c) if c.event_id == "e1" && c.attempts == 3
    ));
    assert!(matches!(run(&cfg, RunEvent::Empty), RunAction::Wait(d) if d == cfg.poll));
    assert!(matches!(
        run(&cfg, RunEvent::ClaimFailed),
        RunAction::Pause(d) if d == Duration::from_secs(1)
    ));
}

#[test]
fn the_purger_keeps_thirty_days_and_looks_hourly() {
    assert!(matches!(purge_loop(PurgeEvent::Turn { shutdown: true }), PurgeAction::Stop));
    assert!(matches!(
        purge_loop(PurgeEvent::Turn { shutdown: false }),
        PurgeAction::Purge(d) if d == Duration::from_secs(2_592_000)
    ));
    assert!(matches!(
        purge_loop(PurgeEvent::Purged),
        PurgeAction::Wait(d) if d == Duration::from_secs(3600)
    ));
}

#[test]
fn durations_measure_as_std_does() {
    for (secs, nanos) in [(0u64, 0u32), (1, 999_999_999), (123_456, 7_654_321), (u64::MAX, 1)] {
        let ours = Duration::new(secs, nanos);
        let std = std::time::Duration::new(secs, nanos);
        assert_eq!(ours.as_secs(), std.as_secs());
        assert_eq!(ours.subsec_nanos(), std.subsec_nanos());
        assert_eq!(ours.as_millis(), std.as_millis());
        assert_eq!(ours.as_millis_i64(), std.as_millis() as i64);
        for factor in [0u32, 1, 3, 1 << 20, u32::MAX] {
            let product = std.saturating_mul(factor);
            let expected = Duration::new(product.as_secs(), product.subsec_nanos());
            assert_eq!(ours.saturating_mul(factor), expected);
        }
    }
}
