use webhook_service::duration::Duration;
use webhook_service::settings::{ServiceSettings, ServiceVars};
use webhook_service::text::{parse_unsigned, same_text, strip_prefix};
use webhook_service::traffic::{
    check_traffic, Config, ConfigError, Exchange, PollerVars, TrafficError,
};

fn some(text: &str) -> Option<String> {
    Some(text.to_string())
}

fn service(secret: Option<&str>, workers: Option<&str>) -> ServiceVars {
    ServiceVars {
        secret: secret.map(str::to_string),
        db_url: None,
        bind: None,
        workers: workers.map(str::to_string),
    }
}

fn poller() -> PollerVars {
    PollerVars {
        api_key: some("k"),
        origin: some("1,2"),
        destination: some("3,4"),
        poll_interval_secs: None,
        ntfy_topic: None,
    }
}

fn reply(success: bool, body: &str, routes: Option<Vec<u32>>) -> Exchange<u32> {
    Exchange::Reply {
        success,
        status: "404 Not Found".to_string(),
        body: body.to_string(),
        routes,
    }
}

#[test]
fn numbers_are_read_as_std_reads_them() {
    let texts = [
        "0", "7", "+7", "007", "42", "18446744073709551615", "18446744073709551616", "", "+", "-1",
        "-0", " 1", "1 ", "1_000", "0x10", "++1", "9a", "99999999999999999999999", "\u{663}",
    ];
    for t in texts {
        assert_eq!(parse_unsigned(t, u64::MAX), t.parse::<u64>().ok(), "{t}");
    }
    assert_eq!(parse_unsigned("256", 255), None);
    assert_eq!(parse_unsigned("255", 255), Some(255));
    assert_eq!(parse_unsigned("0", 0), Some(0));
}

#[test]
fn prefixes_are_stripped() {
    assert_eq!(strip_prefix("sha256=ab", "sha256="), Some("ab"));
    assert_eq!(strip_prefix("\u{e9}t\u{e9}", "\u{e9}"), Some("t\u{e9}"));
    assert_eq!(strip_prefix("ab", "abc"), None);
    assert_eq!(strip_prefix("ab", ""), Some("ab"));
    assert!(same_text("a\u{e9}", "a\u{e9}"));
    assert!(!same_text("a", "A"));
}

#[test]
fn the_service_needs_its_secret_only() {
    assert!(ServiceSettings::from_env(service(None, Some("2"))).is_none());
    let s = ServiceSettings::from_env(service(Some("s3cret"), None)).unwrap();
    assert_eq!(s.secret, "s3cret");
    assert_eq!(s.db_url, "sqlite://webhook.db");
    assert_eq!(s.bind, "0.0.0.0:3000");
    assert_eq!(s.workers, 4);
    let s = ServiceSettings::from_env(service(Some("x"), Some("16"))).unwrap();
    assert_eq!(s.workers, 16);
    let s = ServiceSettings::from_env(service(Some("x"), Some("many"))).unwrap();
    assert_eq!(s.workers, 4);
    let vars = ServiceVars {
        secret: some("x"),
        db_url: some("sqlite://other.db"),
        bind: some("127.0.0.1:80"),
        workers: some("0"),
    };
    let s = ServiceSettings::from_env(vars).unwrap();
    assert_eq!((s.db_url.as_str(), s.bind.as_str(), s.workers), ("sqlite://other.db", "127.0.0.1:80", 0));
}

#[test]
fn the_poller_names_the_first_missing_variable() {
    let all = PollerVars { api_key: None, origin: None, destination: None, ..poller() };
    assert_eq!(Config::from_env(all).unwrap_err(), ConfigError::ApiKey);
    let two = PollerVars { origin: None, destination: None, ..poller() };
    assert_eq!(Config::from_env(two).unwrap_err(), ConfigError::Origin);
    let one = PollerVars { destination: None, ..poller() };
    assert_eq!(Config::from_env(one).unwrap_err(), ConfigError::Destination);
    assert_eq!(
        ConfigError::ApiKey.message(),
        "set TOMTOM_API_KEY (free, no card, at developer.tomtom.com)"
    );
    assert_eq!(
        ConfigError::Origin.message(),
        "set ORIGIN as \"lat,lon\", e.g. -1.286389,36.817223"
    );
    assert_eq!(ConfigError::Destination.message(), "set DESTINATION as \"lat,lon\"");
}

#[test]
fn the_poller_has_defaults() {
    let cfg = Config::from_env(poller()).unwrap();
    assert_eq!(cfg.poll_interval, Duration::from_secs(300));
    assert_eq!(cfg.alert_url(), None);
    let vars = PollerVars { poll_interval_secs: some("60"), ntfy_topic: some("road"), ..poller() };
    let cfg = Config::from_env(vars).unwrap();
    assert_eq!(cfg.poll_interval, Duration::from_secs(60));
    assert_eq!(cfg.alert_url().as_deref(), Some("https://ntfy.sh/road"));
    let vars = PollerVars { poll_interval_secs: some("soon"), ntfy_topic: some(""), ..poller() };
    let cfg = Config::from_env(vars).unwrap();
    assert_eq!(cfg.poll_interval, Duration::from_secs(300));
    assert_eq!(cfg.ntfy_topic, None);
}

#[test]
fn the_poller_words_its_request_and_alert() {
    let cfg = Config::from_env(poller()).unwrap();
    assert_eq!(
        cfg.route_url(),
        "https://api.tomtom.com/routing/1/calculateRoute/1,2:3,4/json"
    );
    assert_eq!(
        cfg.route_query(),
        vec![
            ("key", "k".to_string()),
            ("traffic", "true".to_string()),
            ("computeTravelTimeFor", "all".to_string()),
        ]
    );
    assert_eq!(
        cfg.alert("30 min", "20 min", "50", "12.3"),
        "Traffic alert: 1,2 -> 3,4 is 30 min in traffic (normally 20 min), 50% slower, 12.3 km"
    );
}

#[test]
fn the_first_route_counts() {
    let cfg = Config::from_env(poller()).unwrap();
    assert!(matches!(check_traffic(&cfg, reply(true, "{}", Some(vec![7, 8, 9]))), Ok(7)));
}

#[test]
fn what_is_wrong_with_a_reply_is_worded() {
    let cfg = Config::from_env(poller()).unwrap();
    let words = |exchange: Exchange<u32>| check_traffic(&cfg, exchange).unwrap_err().message();
    assert_eq!(words(Exchange::NoReply), "request to TomTom Routing API failed");
    assert_eq!(words(Exchange::NoBody), "reading TomTom response body");
    assert_eq!(words(reply(false, "no", Some(vec![1]))), "TomTom API returned 404 Not Found: no");
    assert_eq!(words(reply(true, "[]", None)), "unexpected TomTom response shape: []");
    assert_eq!(
        words(reply(true, "{}", Some(vec![]))),
        "TomTom returned no route for '1,2' -> '3,4'"
    );
    assert!(matches!(check_traffic(&cfg, reply(true, "x", None)), Err(TrafficError::Shape { .. })));
}
