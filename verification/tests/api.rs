use hmac::{Hmac, Mac};
use sha2::Sha256;
use webhook_service::api::{
    acknowledge, authenticate, body_allowed, deliver, parse_signature, receive, validate,
    verify_signature, Ack, Envelope, ReceiveAction, ReceiveEvent, StatusCode, MAX_BODY,
};
use webhook_service::store::{enqueue, mark_done, Enqueued, Status, Store};

fn code(secret: &[u8], body: &[u8]) -> Vec<u8> {
    let mut mac = Hmac::<Sha256>::new_from_slice(secret).unwrap();
    mac.update(body);
    mac.finalize().into_bytes().to_vec()
}

fn sign(secret: &[u8], body: &[u8]) -> String {
    format!("sha256={}", hex::encode(code(secret, body)))
}

fn envelope(id: &str) -> Envelope {
    Envelope { id: id.to_string(), event_type: "invoice.paid".to_string(), created: 200 }
}

#[test]
fn accepts_valid_signature() {
    let sig = sign(b"secret", b"{\"a\":1}");
    assert!(verify_signature(b"secret", b"{\"a\":1}", &sig));
}

#[test]
fn rejects_tampered_body_wrong_key_and_garbage() {
    let sig = sign(b"secret", b"{\"a\":1}");
    assert!(!verify_signature(b"secret", b"{\"a\":2}", &sig));
    assert!(!verify_signature(b"other", b"{\"a\":1}", &sig));
    assert!(!verify_signature(b"secret", b"{\"a\":1}", "sha256=zz"));
    assert!(!verify_signature(b"secret", b"{\"a\":1}", "nope"));
}

#[test]
fn accepts_a_published_code() {
    // A test vector of RFC 4231.
    let header = "sha256=5bdcc146bf60754e6a042426089575c75a003f089d2739839dec58b964ec3843";
    assert!(verify_signature(b"Jefe", b"what do ya want for nothing?", header));
    assert!(!verify_signature(b"Jefe", b"what do ya want for nothing", header));
}

#[test]
fn accepts_upper_case_digits_and_any_key_length() {
    let long = vec![7u8; 200];
    let upper = format!("sha256={}", hex::encode_upper(code(&long, b"body")));
    assert!(verify_signature(&long, b"body", &upper));
    assert!(verify_signature(b"", b"", &sign(b"", b"")));
    assert!(!verify_signature(b"k", b"", &upper.replace("sha256=", "SHA256=")));
}

#[test]
fn rejects_a_code_of_another_length() {
    let sig = sign(b"secret", b"body");
    assert!(!verify_signature(b"secret", b"body", &sig[..sig.len() - 2]));
    assert!(!verify_signature(b"secret", b"body", &sig[..sig.len() - 1]));
    assert!(!verify_signature(b"secret", b"body", &format!("{sig}00")));
    assert!(!verify_signature(b"secret", b"body", "sha256="));
    assert!(!verify_signature(b"secret", b"body", ""));
}

#[test]
fn reads_the_code_of_a_header() {
    assert_eq!(parse_signature("sha256=0aF1"), Some(vec![0x0a, 0xf1]));
    assert_eq!(parse_signature("sha256="), Some(vec![]));
    assert_eq!(parse_signature("sha256=0"), None);
    assert_eq!(parse_signature("sha256=0g"), None);
    assert_eq!(parse_signature("sha256=\u{e9}"), None);
    assert_eq!(parse_signature("sha1=0a"), None);
    assert_eq!(parse_signature("sha256"), None);
}

#[test]
fn answers_with_http_codes() {
    assert_eq!(StatusCode::Success.code(), 200);
    assert_eq!(StatusCode::BadRequest.code(), 400);
    assert_eq!(StatusCode::Unauthorized.code(), 401);
    assert_eq!(StatusCode::PayloadTooLarge.code(), 413);
    assert_eq!(StatusCode::ServiceUnavailable.code(), 503);
    assert_eq!(MAX_BODY, 64 * 1024);
}

#[test]
fn authenticates_over_the_raw_body() {
    let sig = sign(b"secret", b"raw");
    assert_eq!(authenticate(b"secret", b"raw", Some(&sig)), Ok(()));
    assert_eq!(authenticate(b"secret", b"raw ", Some(&sig)), Err(StatusCode::Unauthorized));
    assert_eq!(authenticate(b"secret", b"raw", None), Err(StatusCode::Unauthorized));
}

#[test]
fn validates_envelope_and_text() {
    let body = "{\"id\":\"e\u{e9}\"}".as_bytes().to_vec();
    let ev = validate(body.clone(), Some(envelope("e1"))).unwrap();
    assert_eq!(ev.event_id, "e1");
    assert_eq!(ev.event_type, "invoice.paid");
    assert_eq!(ev.event_ts, 200);
    assert_eq!(ev.payload, "{\"id\":\"e\u{e9}\"}");
    assert!(matches!(validate(body, None), Err(StatusCode::BadRequest)));
    assert!(matches!(
        validate(vec![0x22, 0xff, 0x22], Some(envelope("e1"))),
        Err(StatusCode::BadRequest)
    ));
}

#[test]
fn acknowledges_what_is_stored() {
    assert_eq!(acknowledge(Some(Enqueued::New)), Ack { status: StatusCode::Success, wake: true });
    assert_eq!(
        acknowledge(Some(Enqueued::Duplicate)),
        Ack { status: StatusCode::Success, wake: false }
    );
    assert_eq!(
        acknowledge(None),
        Ack { status: StatusCode::ServiceUnavailable, wake: false }
    );
}

/// Runs a request against a store, as the service does.
fn run_request(store: &mut Store, signature: Option<String>, body: &[u8], env: Option<Envelope>) -> Ack {
    let mut event = ReceiveEvent::Request { signature, body: body.to_vec() };
    let mut env = env;
    loop {
        event = match receive(b"secret", event) {
            ReceiveAction::Parse { body } => ReceiveEvent::Parsed { body, envelope: env.take() },
            ReceiveAction::Enqueue(ev) => ReceiveEvent::Stored(Some(enqueue(store, &ev, 1))),
            ReceiveAction::Answer(ack) => return ack,
        };
    }
}

#[test]
fn stores_before_it_acknowledges() {
    let mut store = Store::new();
    let sig = sign(b"secret", b"{}");
    let first = run_request(&mut store, Some(sig.clone()), b"{}", Some(envelope("e1")));
    assert_eq!(first, Ack { status: StatusCode::Success, wake: true });
    assert_eq!(store.events.len(), 1);
    assert_eq!(store.events[0].payload, "{}");

    let again = run_request(&mut store, Some(sig), b"{}", Some(envelope("e1")));
    assert_eq!(again, Ack { status: StatusCode::Success, wake: false });
    assert_eq!(store.events.len(), 1);
}

#[test]
fn refused_requests_change_nothing() {
    let mut store = Store::new();
    let sig = sign(b"secret", b"{}");
    let unauthorized = Ack { status: StatusCode::Unauthorized, wake: false };
    let bad = Ack { status: StatusCode::BadRequest, wake: false };
    assert_eq!(run_request(&mut store, None, b"{}", Some(envelope("e1"))), unauthorized);
    assert_eq!(run_request(&mut store, Some(sig.clone()), b"{ }", Some(envelope("e1"))), unauthorized);
    assert_eq!(run_request(&mut store, Some(sig), b"{}", None), bad);
    let binary = sign(b"secret", b"\xff");
    assert_eq!(run_request(&mut store, Some(binary), b"\xff", Some(envelope("e1"))), bad);
    assert!(store.events.is_empty());
}

#[test]
fn a_delivery_stores_and_answers() {
    let mut store = Store::new();
    let body = b"{}".to_vec();
    let sig = Some(sign(b"secret", &body));
    let new = Ack { status: StatusCode::Success, wake: true };
    let known = Ack { status: StatusCode::Success, wake: false };
    let env = || Some(envelope("e1"));
    assert_eq!(deliver(&mut store, b"secret", sig.clone(), body.clone(), env(), 5), new);
    assert_eq!(store.events[0].received_at, 5);
    // Whatever becomes of the event, sending it again changes nothing.
    mark_done(&mut store, "e1", "ok", 6);
    assert_eq!(deliver(&mut store, b"secret", sig.clone(), body.clone(), env(), 7), known);
    assert_eq!(store.events.len(), 1);
    assert_eq!(store.events[0].status, Status::Done);
    let refused = deliver(&mut store, b"other", sig.clone(), body.clone(), env(), 8);
    assert_eq!(refused, Ack { status: StatusCode::Unauthorized, wake: false });
    let bad = deliver(&mut store, b"secret", sig, body, None, 8);
    assert_eq!(bad, Ack { status: StatusCode::BadRequest, wake: false });
    assert_eq!(store.events.len(), 1);
}

#[test]
fn a_body_over_the_limit_is_refused_and_not_stored() {
    assert!(body_allowed(0));
    assert!(body_allowed(65536));
    assert!(!body_allowed(65537));
    let too_large = Ack { status: StatusCode::PayloadTooLarge, wake: false };
    let mut store = Store::new();
    let body = vec![b' '; 65537];
    let sig = sign(b"secret", &body);
    assert_eq!(run_request(&mut store, Some(sig.clone()), &body, Some(envelope("e1"))), too_large);
    assert_eq!(run_request(&mut store, None, &body, None), too_large);
    let ack = deliver(&mut store, b"secret", Some(sig), body, Some(envelope("e1")), 1);
    assert_eq!(ack, too_large);
    assert!(store.events.is_empty());

    let body = vec![b' '; 65536];
    let sig = sign(b"secret", &body);
    let ack = deliver(&mut store, b"secret", Some(sig), body, Some(envelope("e1")), 1);
    assert_eq!(ack, Ack { status: StatusCode::Success, wake: true });
    assert_eq!(store.events[0].payload.len(), 65536);
}
