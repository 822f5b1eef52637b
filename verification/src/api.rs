//! The HTTP edge: authenticate a request, check its envelope, and answer for what was stored.

use hmac::Mac;
use vstd::prelude::*;
use vstd::utf8::{decode_utf8, encode_utf8, valid_utf8};

use crate::store::{
    enqueue, Enqueued, EventView, NewEvent, NewEventView, Status, Store, StoreView,
};
use crate::text::{opt_str, opt_text, string_from_utf8, strip_prefix};

verus! {

/// The value of a hexadecimal digit, in either case.
pub open spec fn hex_value(c: char) -> Option<nat> {
    if '0' <= c <= '9' {
        Some((c as nat - '0' as nat) as nat)
    } else if 'a' <= c <= 'f' {
        Some((c as nat - 'a' as nat + 10) as nat)
    } else if 'A' <= c <= 'F' {
        Some((c as nat - 'A' as nat + 10) as nat)
    } else {
        None
    }
}

/// The bytes that a hexadecimal text writes, two digits for each; nothing for any other text.
pub open spec fn hex_bytes(s: Seq<char>) -> Option<Seq<u8>> {
    if s.len() % 2 == 0 && (forall|i: int| 0 <= i < s.len() ==> hex_value(#[trigger] s[i]) is Some) {
        Some(
            Seq::new(
                s.len() / 2,
                |i: int| (hex_value(s[2 * i])->0 * 16 + hex_value(s[2 * i + 1])->0) as u8,
            ),
        )
    } else {
        None
    }
}

/// Calls `hex::decode`: an even number of hexadecimal digits, in either case, gives the bytes
/// that they write, and any other text gives nothing.
#[verifier::external_body]
fn hex_decode(text: &str) -> (bytes: Option<Vec<u8>>)
    ensures
        bytes is Some <==> hex_bytes(text@) is Some,
        bytes matches Some(b) ==> hex_bytes(text@) == Some(b@),
{
    hex::decode(text).ok()
}

/// The HMAC-SHA256 code of `body` under the key `secret`.
pub uninterp spec fn hmac_sha256(secret: Seq<u8>, body: Seq<u8>) -> Seq<u8>;

/// Whether a key and a body can be counted: SHA-256 counts the bits that it reads in 64 bits, and
/// reads a block of 64 bytes made of the key ahead of the body.
pub open spec fn hmac_counts(secret: Seq<u8>, body: Seq<u8>) -> bool {
    secret.len() < 0x2000_0000_0000_0000 && body.len() + 64 < 0x2000_0000_0000_0000
}

/// Calls `Hmac::<Sha256>::new_from_slice`, which takes a key of any length, feeds the body to
/// `update` and compares by `verify_slice`, in constant time: a code is accepted exactly when it
/// is, at its full length of 32 bytes, the HMAC-SHA256 code of the body under the key.
/// How long the comparison takes is no part of the contract.
#[verifier::external_body]
fn hmac_matches(secret: &[u8], body: &[u8], code: &[u8]) -> (matches: bool)
    requires
        hmac_counts(secret@, body@),
    ensures
        matches == (code@ == hmac_sha256(secret@, body@)),
        matches ==> code@.len() == 32,
{
    let mut mac = hmac::Hmac::<sha2::Sha256>::new_from_slice(secret).expect("any key length");
    mac.update(body);
    mac.verify_slice(code).is_ok()
}

/// The code that a signature header carries: the bytes written in hexadecimal after `sha256=`.
pub open spec fn signature_code(header: Seq<char>) -> Option<Seq<u8>> {
    if "sha256="@.is_prefix_of(header) {
        hex_bytes(header.skip("sha256="@.len() as int))
    } else {
        None
    }
}

/// Reads the code out of a signature header.
pub fn parse_signature(header: &str) -> (code: Option<Vec<u8>>)
    ensures
        code is Some <==> signature_code(header@) is Some,
        code matches Some(c) ==> signature_code(header@) == Some(c@),
{
    match strip_prefix(header, "sha256=") {
        Some(digits) => {
            proof {
                assert(header@.skip("sha256="@.len() as int) =~= digits@);
            }
            hex_decode(digits)
        },
        None => None,
    }
}

/// Whether `header` signs `body` under `secret`.
pub open spec fn signature_valid(secret: Seq<u8>, body: Seq<u8>, header: Seq<char>) -> bool {
    signature_code(header) == Some(hmac_sha256(secret, body))
}

/// Expects `sha256=<hex hmac of body>` and compares the codes in constant time.
pub fn verify_signature(secret: &[u8], body: &[u8], header: &str) -> (valid: bool)
    requires
        hmac_counts(secret@, body@),
    ensures
        valid == signature_valid(secret@, body@, header@),
        valid ==> header@.len() == 7 + 64,
{
    proof {
        reveal_strlit("sha256=");
    }
    match parse_signature(header) {
        Some(code) => hmac_matches(secret, body, code.as_slice()),
        None => false,
    }
}

/// The largest body that a request may carry, in bytes. Events are about 5 KB.
pub const MAX_BODY: usize = 65536;

/// Whether a body of this length may come in at all.
pub fn body_allowed(len: usize) -> (allowed: bool)
    ensures
        allowed == (len <= MAX_BODY),
{
    len <= MAX_BODY
}

/// How a request is answered.
#[derive(Clone, Copy, Debug, PartialEq, Eq, Structural)]
pub enum StatusCode {
    Success,
    BadRequest,
    Unauthorized,
    PayloadTooLarge,
    ServiceUnavailable,
}

impl StatusCode {
    /// The HTTP status code.
    pub open spec fn spec_code(self) -> u16 {
        match self {
            StatusCode::Success => 200,
            StatusCode::BadRequest => 400,
            StatusCode::Unauthorized => 401,
            StatusCode::PayloadTooLarge => 413,
            StatusCode::ServiceUnavailable => 503,
        }
    }

    /// The HTTP status code.
    pub fn code(&self) -> (code: u16)
        ensures
            code == self.spec_code(),
    {
        match self {
            StatusCode::Success => 200,
            StatusCode::BadRequest => 400,
            StatusCode::Unauthorized => 401,
            StatusCode::PayloadTooLarge => 413,
            StatusCode::ServiceUnavailable => 503,
        }
    }
}

/// What is read of a body before it is stored.
#[derive(Debug)]
pub struct Envelope {
    pub id: String,
    pub event_type: String,
    pub created: i64,
}

/// The model of an `Envelope`.
#[verifier::ext_equal]
pub struct EnvelopeView {
    pub id: Seq<char>,
    pub event_type: Seq<char>,
    pub created: int,
}

impl View for Envelope {
    type V = EnvelopeView;

    open spec fn view(&self) -> EnvelopeView {
        EnvelopeView {
            id: self.id@,
            event_type: self.event_type@,
            created: self.created as int,
        }
    }
}

/// Whether a request proves that it comes from the provider: it carries a signature, and the
/// signature is valid for the raw body.
pub open spec fn authentic(secret: Seq<u8>, body: Seq<u8>, signature: Option<Seq<char>>) -> bool {
    signature matches Some(header) && signature_valid(secret, body, header)
}

/// Authenticates a request over the raw bytes of its body.
pub fn authenticate(secret: &[u8], body: &[u8], signature: Option<&str>) -> (outcome: Result<
    (),
    StatusCode,
>)
    requires
        hmac_counts(secret@, body@),
    ensures
        outcome is Ok <==> authentic(secret@, body@, opt_str(signature)),
        outcome matches Err(status) ==> status == StatusCode::Unauthorized,
{
    match signature {
        Some(header) => if verify_signature(secret, body, header) {
            Ok(())
        } else {
            Err(StatusCode::Unauthorized)
        },
        None => Err(StatusCode::Unauthorized),
    }
}

/// The model of an optional envelope.
pub open spec fn opt_envelope(envelope: Option<Envelope>) -> Option<EnvelopeView> {
    match envelope {
        Some(env) => Some(env@),
        None => None,
    }
}

/// The event in an authentic request: what its envelope says, with the body as it came. There is
/// none without an envelope, or when the body is no text.
pub open spec fn event_in(body: Seq<u8>, envelope: Option<EnvelopeView>) -> Option<NewEventView> {
    match envelope {
        Some(env) => if valid_utf8(body) {
            Some(
                NewEventView {
                    event_id: env.id,
                    event_type: env.event_type,
                    event_ts: env.created,
                    payload: decode_utf8(body),
                },
            )
        } else {
            None
        },
        None => None,
    }
}

/// Checks an authentic request. `envelope` is what could be read of its body.
pub fn validate(body: Vec<u8>, envelope: Option<Envelope>) -> (outcome: Result<
    NewEvent,
    StatusCode,
>)
    ensures
        outcome is Ok <==> event_in(body@, opt_envelope(envelope)) is Some,
        outcome matches Ok(ev) ==> event_in(body@, opt_envelope(envelope)) == Some(ev@),
        outcome is Ok <==> envelope is Some && valid_utf8(body@),
        outcome matches Ok(ev) ==> ev.event_id@ == envelope->0.id@ && ev.event_type@
            == envelope->0.event_type@ && ev.event_ts == envelope->0.created && ev.payload@
            == decode_utf8(body@),
        outcome matches Err(status) ==> status == StatusCode::BadRequest,
{
    match envelope {
        Some(env) => match string_from_utf8(body) {
            Some(payload) => Ok(
                NewEvent {
                    event_id: env.id,
                    event_type: env.event_type,
                    event_ts: env.created,
                    payload,
                },
            ),
            None => Err(StatusCode::BadRequest),
        },
        None => Err(StatusCode::BadRequest),
    }
}

/// The answer to a request, and whether a worker is to be woken at once.
#[derive(Clone, Copy, Debug, PartialEq, Eq, Structural)]
pub struct Ack {
    pub status: StatusCode,
    pub wake: bool,
}

/// The answer for what became of the event in the store; nothing when it could not be stored.
pub open spec fn ack_for(stored: Option<Enqueued>) -> Ack {
    match stored {
        Some(Enqueued::New) => Ack { status: StatusCode::Success, wake: true },
        Some(Enqueued::Duplicate) => Ack { status: StatusCode::Success, wake: false },
        None => Ack { status: StatusCode::ServiceUnavailable, wake: false },
    }
}

/// Answers for what became of the event in the store. A duplicate is fine, so that the provider
/// stops sending it; when the event could not be stored, the provider is to send it again.
pub fn acknowledge(stored: Option<Enqueued>) -> (ack: Ack)
    ensures
        ack == ack_for(stored),
{
    match stored {
        Some(Enqueued::New) => Ack { status: StatusCode::Success, wake: true },
        Some(Enqueued::Duplicate) => Ack { status: StatusCode::Success, wake: false },
        None => Ack { status: StatusCode::ServiceUnavailable, wake: false },
    }
}

/// What is learnt of a request, in this order.
#[derive(Debug)]
pub enum ReceiveEvent {
    /// It came in, with or without a signature header.
    Request { signature: Option<String>, body: Vec<u8> },
    /// The envelope was read out of the body, where that could be done.
    Parsed { body: Vec<u8>, envelope: Option<Envelope> },
    /// The event was handed to the store; nothing when it could not be stored.
    Stored(Option<Enqueued>),
}

/// What is done next for a request.
#[derive(Debug)]
pub enum ReceiveAction {
    /// Read the envelope out of the body.
    Parse { body: Vec<u8> },
    /// Hand the event to the store.
    Enqueue(NewEvent),
    /// Answer, and be done.
    Answer(Ack),
}

/// Decides what is done next for a request: refuse it where its body is too large, authenticate
/// it, validate it, store its event, and only then acknowledge it.
pub fn receive(secret: &[u8], event: ReceiveEvent) -> (action: ReceiveAction)
    requires
        event is Request ==> secret@.len() < 0x2000_0000_0000_0000,
    ensures
        match event {
            ReceiveEvent::Request { signature, body } => if body@.len() > MAX_BODY {
                action == ReceiveAction::Answer(
                    Ack { status: StatusCode::PayloadTooLarge, wake: false },
                )
            } else if authentic(secret@, body@, opt_text(signature)) {
                action == ReceiveAction::Parse { body }
            } else {
                action == ReceiveAction::Answer(
                    Ack { status: StatusCode::Unauthorized, wake: false },
                )
            },
            ReceiveEvent::Parsed { body, envelope } => match event_in(
                body@,
                opt_envelope(envelope),
            ) {
                Some(ev) => action matches ReceiveAction::Enqueue(e) && e@ == ev,
                None => action == ReceiveAction::Answer(
                    Ack { status: StatusCode::BadRequest, wake: false },
                ),
            },
            ReceiveEvent::Stored(stored) => action == ReceiveAction::Answer(ack_for(stored)),
        },
{
    match event {
        ReceiveEvent::Request { signature, body } => {
            if !body_allowed(body.len()) {
                return ReceiveAction::Answer(
                    Ack { status: StatusCode::PayloadTooLarge, wake: false },
                );
            }
            let header: Option<&str> = match &signature {
                Some(text) => Some(text.as_str()),
                None => None,
            };
            match authenticate(secret, body.as_slice(), header) {
                Ok(()) => ReceiveAction::Parse { body },
                Err(status) => ReceiveAction::Answer(Ack { status, wake: false }),
            }
        },
        ReceiveEvent::Parsed { body, envelope } => match validate(body, envelope) {
            Ok(ev) => ReceiveAction::Enqueue(ev),
            Err(status) => ReceiveAction::Answer(Ack { status, wake: false }),
        },
        ReceiveEvent::Stored(stored) => ReceiveAction::Answer(acknowledge(stored)),
    }
}

/// A request as it reaches the service: the parts that decide how it is answered.
pub struct Request {
    pub signature: Option<Seq<char>>,
    pub body: Seq<u8>,
    pub envelope: Option<EnvelopeView>,
}

/// The event that a request brings in, when its body is not too large and it is authentic and
/// valid.
pub open spec fn accepted(secret: Seq<u8>, request: Request) -> Option<NewEventView> {
    if request.body.len() <= MAX_BODY && authentic(secret, request.body, request.signature) {
        event_in(request.body, request.envelope)
    } else {
        None
    }
}

/// The tables after a request that could reach them.
pub open spec fn received(secret: Seq<u8>, request: Request, store: StoreView, now: int) -> StoreView {
    match accepted(secret, request) {
        Some(ev) => store.enqueued(ev, now),
        None => store,
    }
}

/// The answer to a request; `reachable` tells whether the store could be written.
pub open spec fn answer(
    secret: Seq<u8>,
    request: Request,
    store: StoreView,
    reachable: bool,
) -> Ack {
    if request.body.len() > MAX_BODY {
        Ack { status: StatusCode::PayloadTooLarge, wake: false }
    } else if !authentic(secret, request.body, request.signature) {
        Ack { status: StatusCode::Unauthorized, wake: false }
    } else {
        match event_in(request.body, request.envelope) {
            None => Ack { status: StatusCode::BadRequest, wake: false },
            Some(ev) => ack_for(
                if !reachable {
                    None
                } else if store.has_event(ev.event_id) {
                    Some(Enqueued::Duplicate)
                } else {
                    Some(Enqueued::New)
                },
            ),
        }
    }
}

/// The parts of a request as they come in.
pub open spec fn request_of(
    signature: Option<String>,
    body: Vec<u8>,
    envelope: Option<Envelope>,
) -> Request {
    Request {
        signature: opt_text(signature),
        body: body@,
        envelope: opt_envelope(envelope),
    }
}

/// Takes a request all the way against tables at hand: decides, stores and answers. `envelope` is
/// what could be read of the body.
pub fn deliver(
    store: &mut Store,
    secret: &[u8],
    signature: Option<String>,
    body: Vec<u8>,
    envelope: Option<Envelope>,
    now: i64,
) -> (ack: Ack)
    requires
        secret@.len() < 0x2000_0000_0000_0000,
    ensures
        ack == answer(secret@, request_of(signature, body, envelope), old(store)@, true),
        final(store)@ == received(
            secret@,
            request_of(signature, body, envelope),
            old(store)@,
            now as int,
        ),
        old(store)@.wf() ==> final(store)@.wf(),
{
    match receive(secret, ReceiveEvent::Request { signature, body }) {
        ReceiveAction::Parse { body } => match receive(
            secret,
            ReceiveEvent::Parsed { body, envelope },
        ) {
            ReceiveAction::Enqueue(ev) => {
                let stored = enqueue(store, &ev, now);
                match receive(secret, ReceiveEvent::Stored(Some(stored))) {
                    ReceiveAction::Answer(ack) => ack,
                    _ => {
                        assert(false);
                        acknowledge(None)
                    },
                }
            },
            ReceiveAction::Answer(ack) => ack,
            _ => {
                assert(false);
                acknowledge(None)
            },
        },
        ReceiveAction::Answer(ack) => ack,
        _ => {
            assert(false);
            acknowledge(None)
        },
    }
}

/// A request is answered with success exactly when its body is not too large, it is authentic and
/// valid and the store could be written; an event of its id is then in the store, and it is this
/// one, as it came, unless the id was there before.
pub proof fn law_acknowledged_means_stored(
    secret: Seq<u8>,
    request: Request,
    store: StoreView,
    reachable: bool,
    now: int,
)
    ensures
        answer(secret, request, store, reachable).status == StatusCode::Success <==> reachable
            && accepted(secret, request) is Some,
        answer(secret, request, store, reachable).status == StatusCode::Success ==> received(
            secret,
            request,
            store,
            now,
        ).has_event(accepted(secret, request)->0.event_id),
        accepted(secret, request) matches Some(ev) ==> !store.has_event(ev.event_id) ==> received(
            secret,
            request,
            store,
            now,
        ).events == store.events.push(EventView::fresh(ev, now)),
{
    if let Some(ev) = accepted(secret, request) {
        if !store.has_event(ev.event_id) {
            let after = store.enqueued(ev, now);
            assert(after.events[after.events.len() - 1].event_id == ev.event_id);
        }
    }
}

/// A request whose body is too large is answered so whatever else it holds, another one that is
/// not authentic as unauthorized, and one that is authentic but not valid as a bad request; none
/// of them changes the store or wakes a worker.
pub proof fn law_refused_changes_nothing(
    secret: Seq<u8>,
    request: Request,
    store: StoreView,
    reachable: bool,
    now: int,
)
    requires
        accepted(secret, request) is None,
    ensures
        answer(secret, request, store, reachable) == (Ack {
            status: if request.body.len() > MAX_BODY {
                StatusCode::PayloadTooLarge
            } else if !authentic(secret, request.body, request.signature) {
                StatusCode::Unauthorized
            } else {
                StatusCode::BadRequest
            },
            wake: false,
        }),
        received(secret, request, store, now) == store,
{
}

/// An accepted request whose event is in the store, whatever has become of that event since, is
/// answered with success, wakes no worker and changes nothing.
pub proof fn law_known_event_is_acknowledged_again(
    secret: Seq<u8>,
    request: Request,
    store: StoreView,
    now: int,
)
    requires
        accepted(secret, request) is Some,
        store.has_event(accepted(secret, request)->0.event_id),
    ensures
        answer(secret, request, store, true) == (Ack { status: StatusCode::Success, wake: false }),
        received(secret, request, store, now) == store,
{
}

/// A request that is sent again after it was accepted is answered with success, wakes no worker
/// and changes nothing.
pub proof fn law_redelivery_is_harmless(
    secret: Seq<u8>,
    request: Request,
    store: StoreView,
    now: int,
    later: int,
)
    requires
        accepted(secret, request) is Some,
    ensures
        ({
            let after = received(secret, request, store, now);
            &&& answer(secret, request, after, true) == (Ack {
                status: StatusCode::Success,
                wake: false,
            })
            &&& received(secret, request, after, later) == after
        }),
{
    law_acknowledged_means_stored(secret, request, store, true, now);
}

/// The payload that is stored is the body, byte for byte.
pub proof fn law_payload_is_the_body(body: Seq<u8>, envelope: Option<EnvelopeView>)
    ensures
        event_in(body, envelope) matches Some(ev) ==> encode_utf8(ev.payload) == body,
{
    if valid_utf8(body) {
        vstd::utf8::decode_utf8_encode_utf8(body);
    }
}

/// The lower-case hexadecimal digit of a value below sixteen.
pub open spec fn hex_digit(n: nat) -> char {
    if n < 10 {
        ('0' as nat + n) as char
    } else {
        ('a' as nat + n - 10) as char
    }
}

/// The hexadecimal text of `bytes`, two lower-case digits for each.
pub open spec fn hex_text(bytes: Seq<u8>) -> Seq<char> {
    Seq::new(
        2 * bytes.len(),
        |i: int|
            if i % 2 == 0 {
                hex_digit((bytes[i / 2] / 16) as nat)
            } else {
                hex_digit((bytes[i / 2] % 16) as nat)
            },
    )
}

/// Hexadecimal text reads back as the bytes that it was written from.
pub proof fn lemma_hex_reads_back(bytes: Seq<u8>)
    ensures
        hex_bytes(hex_text(bytes)) == Some(bytes),
{
    let s = hex_text(bytes);
    assert forall|i: int| 0 <= i < s.len() implies hex_value(#[trigger] s[i]) is Some by {
        assert(bytes[i / 2] / 16 < 16 && bytes[i / 2] % 16 < 16);
    }
    assert forall|i: int| 0 <= i < bytes.len() implies #[trigger] hex_bytes(s)->0[i] == bytes[i] by {
        let b = bytes[i];
        assert(s[2 * i] == hex_digit((b / 16) as nat));
        assert(s[2 * i + 1] == hex_digit((b % 16) as nat));
        assert(hex_value(s[2 * i]) == Some((b / 16) as nat));
        assert(hex_value(s[2 * i + 1]) == Some((b % 16) as nat));
    }
    assert(hex_bytes(s)->0 =~= bytes);
}

/// A body that is signed with the shared secret is accepted under that secret.
pub proof fn law_signed_body_is_accepted(secret: Seq<u8>, body: Seq<u8>)
    ensures
        signature_valid(secret, body, "sha256="@ + hex_text(hmac_sha256(secret, body))),
{
    let code = hmac_sha256(secret, body);
    let header = "sha256="@ + hex_text(code);
    assert(header.skip("sha256="@.len() as int) =~= hex_text(code));
    lemma_hex_reads_back(code);
}

/// A signature is good for another body or under another secret only where the codes are the
/// same.
pub proof fn law_signature_binds_body_and_secret(
    secret: Seq<u8>,
    body: Seq<u8>,
    header: Seq<char>,
    other_secret: Seq<u8>,
    other_body: Seq<u8>,
)
    requires
        signature_valid(secret, body, header),
    ensures
        signature_valid(other_secret, other_body, header) <==> hmac_sha256(other_secret, other_body)
            == hmac_sha256(secret, body),
{
}

/// A character is a hexadecimal digit of this value exactly when it stands at that place among the
/// sixteen digits, in lower or in upper case.
proof fn lemma_hex_digits(c: char, n: nat)
    requires
        n < 16,
    ensures
        hex_value(c) == Some(n) <==> c == "0123456789abcdef"@[n as int] || c
            == "0123456789ABCDEF"@[n as int],
{
    reveal_strlit("0123456789abcdef");
    reveal_strlit("0123456789ABCDEF");
}

/// A header carries a code exactly when it is `sha256=` and then, for each byte of the code, its
/// high and its low hexadecimal digit, in either case, and nothing more.
pub proof fn law_header_writes_its_code(header: Seq<char>, code: Seq<u8>)
    ensures
        ({
            let low = "0123456789abcdef"@;
            let up = "0123456789ABCDEF"@;
            signature_code(header) == Some(code) <==> {
                &&& header.len() == 7 + 2 * code.len()
                &&& header.take(7) == "sha256="@
                &&& forall|i: int|
                    0 <= i < code.len() ==> {
                        let high = (#[trigger] code[i]) as int / 16;
                        let rest = code[i] as int % 16;
                        &&& header[7 + 2 * i] == low[high] || header[7 + 2 * i] == up[high]
                        &&& header[8 + 2 * i] == low[rest] || header[8 + 2 * i] == up[rest]
                    }
            }
        }),
{
    reveal_strlit("sha256=");
    let low = "0123456789abcdef"@;
    let up = "0123456789ABCDEF"@;
    let digits = header.skip(7);
    if signature_code(header) == Some(code) {
        assert("sha256="@.is_prefix_of(header));
        assert(header.take(7) =~= "sha256="@);
        assert(hex_bytes(digits) == Some(code));
        assert forall|i: int| 0 <= i < code.len() implies {
            let high = (#[trigger] code[i]) as int / 16;
            let rest = code[i] as int % 16;
            &&& header[7 + 2 * i] == low[high] || header[7 + 2 * i] == up[high]
            &&& header[8 + 2 * i] == low[rest] || header[8 + 2 * i] == up[rest]
        } by {
            assert(digits[2 * i] == header[7 + 2 * i]);
            assert(digits[2 * i + 1] == header[8 + 2 * i]);
            assert(hex_value(digits[2 * i]) is Some && hex_value(digits[2 * i + 1]) is Some);
            let h = hex_value(digits[2 * i])->0;
            let l = hex_value(digits[2 * i + 1])->0;
            assert(h < 16 && l < 16);
            assert(code[i] == (h * 16 + l) as u8);
            assert(code[i] as int / 16 == h && code[i] as int % 16 == l);
            lemma_hex_digits(digits[2 * i], h);
            lemma_hex_digits(digits[2 * i + 1], l);
        }
    }
    if header.len() == 7 + 2 * code.len() && header.take(7) == "sha256="@ && (forall|i: int|
        0 <= i < code.len() ==> {
            let high = (#[trigger] code[i]) as int / 16;
            let rest = code[i] as int % 16;
            &&& header[7 + 2 * i] == low[high] || header[7 + 2 * i] == up[high]
            &&& header[8 + 2 * i] == low[rest] || header[8 + 2 * i] == up[rest]
        }) {
        assert forall|i: int| 0 <= i < code.len() implies hex_value(digits[2 * i]) == Some(
            ((#[trigger] code[i]) as int / 16) as nat,
        ) && hex_value(digits[2 * i + 1]) == Some((code[i] as int % 16) as nat) by {
            assert(digits[2 * i] == header[7 + 2 * i]);
            assert(digits[2 * i + 1] == header[8 + 2 * i]);
            lemma_hex_digits(digits[2 * i], (code[i] as int / 16) as nat);
            lemma_hex_digits(digits[2 * i + 1], (code[i] as int % 16) as nat);
        }
        assert forall|j: int| 0 <= j < digits.len() implies hex_value(#[trigger] digits[j]) is Some by {
            let i = j / 2;
            assert(0 <= i < code.len());
            assert(hex_value(digits[2 * i]) == Some((code[i] as int / 16) as nat));
            assert(j == 2 * i || j == 2 * i + 1);
        }
        assert(hex_bytes(digits)->0 =~= code);
        assert("sha256="@.is_prefix_of(header)) by {
            assert(header.subrange(0, 7) =~= "sha256="@);
        }
    }
}

/// A header signs a body exactly when it is `sha256=` and then, for each byte of the body's code
/// under the secret, its high and its low hexadecimal digit, in either case, and nothing more.
pub proof fn law_signature_is_the_code_in_hexadecimal(
    secret: Seq<u8>,
    body: Seq<u8>,
    header: Seq<char>,
)
    ensures
        ({
            let code = hmac_sha256(secret, body);
            let low = "0123456789abcdef"@;
            let up = "0123456789ABCDEF"@;
            signature_valid(secret, body, header) <==> {
                &&& header.len() == 7 + 2 * code.len()
                &&& header.take(7) == "sha256="@
                &&& forall|i: int|
                    0 <= i < code.len() ==> {
                        let high = (#[trigger] code[i]) as int / 16;
                        let rest = code[i] as int % 16;
                        &&& header[7 + 2 * i] == low[high] || header[7 + 2 * i] == up[high]
                        &&& header[8 + 2 * i] == low[rest] || header[8 + 2 * i] == up[rest]
                    }
            }
        }),
{
    law_header_writes_its_code(header, hmac_sha256(secret, body));
}

/// Any envelope does: an authentic request within the limit brings in an event exactly when an
/// envelope could be read out of it and its body is UTF-8, whatever the envelope's id, type and
/// time; the event has that id, type and time, and the body as its payload.
pub proof fn law_any_envelope_is_accepted(secret: Seq<u8>, request: Request, header: Seq<char>)
    requires
        request.body.len() <= 65536,
        request.signature == Some(header),
        signature_valid(secret, request.body, header),
    ensures
        accepted(secret, request) is Some <==> request.envelope is Some && valid_utf8(request.body),
        event_in(request.body, request.envelope) is Some <==> request.envelope is Some
            && valid_utf8(request.body),
        accepted(secret, request) == event_in(request.body, request.envelope),
        accepted(secret, request) matches Some(ev) ==> {
            &&& ev.event_id == request.envelope->0.id
            &&& ev.event_type == request.envelope->0.event_type
            &&& ev.event_ts == request.envelope->0.created
            &&& ev.payload == decode_utf8(request.body)
            &&& encode_utf8(ev.payload) == request.body
        },
{
    law_payload_is_the_body(request.body, request.envelope);
}

/// A request is refused when its body is over 64 KiB, when it carries no signature, when it carries
/// one that is not its body's, when no envelope was read or when its body is no UTF-8, and for no
/// other reason.
pub proof fn law_nothing_else_is_refused(secret: Seq<u8>, request: Request)
    ensures
        accepted(secret, request) is None <==> {
            ||| request.body.len() > 64 * 1024
            ||| request.signature is None
            ||| !signature_valid(secret, request.body, request.signature->0)
            ||| request.envelope is None
            ||| !valid_utf8(request.body)
        },
        authentic(secret, request.body, request.signature) <==> request.signature is Some
            && signature_valid(secret, request.body, request.signature->0),
{
}

/// Every answer is one of five codes. The first of these that holds decides: 413 for a body over 64
/// KiB, 401 without a valid signature, 400 without an envelope or for a body that is no UTF-8, 503
/// when the store could not be written, and else 200. A worker is woken exactly when the event is
/// new in a store that could be written.
pub proof fn law_answers(
    secret: Seq<u8>,
    request: Request,
    store: StoreView,
    reachable: bool,
)
    ensures
        ({
            let ack = answer(secret, request, store, reachable);
            let large = request.body.len() > 64 * 1024;
            let signed = request.signature is Some && signature_valid(
                secret,
                request.body,
                request.signature->0,
            );
            let readable = request.envelope is Some && valid_utf8(request.body);
            &&& ack.status.spec_code() == 413 <==> large
            &&& ack.status.spec_code() == 401 <==> !large && !signed
            &&& ack.status.spec_code() == 400 <==> !large && signed && !readable
            &&& ack.status.spec_code() == 503 <==> !large && signed && readable && !reachable
            &&& ack.status.spec_code() == 200 <==> !large && signed && readable && reachable
            &&& ack.wake <==> !large && signed && readable && reachable && forall|i: int|
                0 <= i < store.events.len() ==> (#[trigger] store.events[i]).event_id
                    != request.envelope->0.id
        }),
{
}

/// Answers have the codes of HTTP.
pub proof fn law_answers_have_http_codes()
    ensures
        StatusCode::Success.spec_code() == 200,
        StatusCode::BadRequest.spec_code() == 400,
        StatusCode::Unauthorized.spec_code() == 401,
        StatusCode::PayloadTooLarge.spec_code() == 413,
        StatusCode::ServiceUnavailable.spec_code() == 503,
        MAX_BODY == 64 * 1024,
{
}

/// A stored event is a success, known or not, and wakes a worker only when it is new; one that could
/// not be stored is to be sent again.
pub proof fn law_stored_is_success(stored: Option<Enqueued>)
    ensures
        ack_for(stored).status == StatusCode::Success <==> stored is Some,
        ack_for(stored).status == StatusCode::ServiceUnavailable <==> stored is None,
        ack_for(stored).wake <==> stored == Some(Enqueued::New),
{
}

/// The event of an accepted request is stored as a pending row that carries the envelope's id, type
/// and time and the body's text, behind the rows that are there; any other request leaves the tables
/// as they are.
pub proof fn law_request_is_stored_whole(
    secret: Seq<u8>,
    request: Request,
    store: StoreView,
    now: int,
)
    ensures
        ({
            let after = received(secret, request, store, now);
            let n = store.events.len() as int;
            let good = request.body.len() <= 64 * 1024 && request.signature is Some
                && signature_valid(secret, request.body, request.signature->0)
                && request.envelope is Some && valid_utf8(request.body);
            let unknown = forall|i: int|
                0 <= i < n ==> (#[trigger] store.events[i]).event_id != request.envelope->0.id;
            &&& after.invoices == store.invoices
            &&& !good || !unknown ==> after.events == store.events
            &&& good && unknown ==> {
                &&& after.events.len() == n + 1
                &&& forall|i: int| 0 <= i < n ==> #[trigger] after.events[i] == store.events[i]
                &&& after.events[n].event_id == request.envelope->0.id
                &&& after.events[n].event_type == request.envelope->0.event_type
                &&& after.events[n].event_ts == request.envelope->0.created
                &&& after.events[n].payload == decode_utf8(request.body)
                &&& after.events[n].status == Status::Pending
                &&& after.events[n].next_attempt_at == now
                &&& after.events[n].received_at == now
                &&& after.events[n].attempts == 0
            }
        }),
{
}

/// The models of an envelope and of a request show every part of them, whole.
pub proof fn law_request_is_shown_whole(
    signature: Option<String>,
    body: Vec<u8>,
    envelope: Option<Envelope>,
)
    ensures
        ({
            let request = request_of(signature, body, envelope);
            &&& request.body == body@
            &&& request.signature is None <==> signature is None
            &&& signature matches Some(text) ==> request.signature == Some(text@)
            &&& request.envelope is None <==> envelope is None
            &&& envelope matches Some(env) ==> request.envelope matches Some(shown) && shown.id
                == env.id@ && shown.event_type == env.event_type@ && shown.created == env.created
            &&& request.envelope == opt_envelope(envelope)
        }),
{
}

} // verus!
