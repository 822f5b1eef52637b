//! What an event does. Processing is idempotent and assumes no order among events.

use vstd::prelude::*;

use crate::store::{upsert_invoice, Claimed, ClaimedView, Store, StoreView};
use crate::text::{opt_str, same_text};

verus! {

/// Why an event could not be processed.
#[derive(Clone, Copy, Debug, PartialEq, Eq, Structural)]
pub enum ProcessError {
    /// The payload names no invoice.
    MalformedInvoice,
}

impl ProcessError {
    /// The error in words.
    pub open spec fn spec_message(self) -> Seq<char> {
        "malformed invoice payload"@
    }

    /// The error in words.
    pub fn message(&self) -> (text: &'static str)
        ensures
            text@ == self.spec_message(),
    {
        "malformed invoice payload"
    }
}

/// The status that an event of this type gives to its invoice; nothing for a type that no
/// handler takes.
pub open spec fn invoice_status(event_type: Seq<char>) -> Option<Seq<char>> {
    if event_type == "invoice.paid"@ {
        Some("paid"@)
    } else if event_type == "invoice.created"@ {
        Some("open"@)
    } else {
        None
    }
}

/// The status that an event of this type gives to its invoice; nothing for a type that no
/// handler takes.
pub fn handler(event_type: &str) -> (status: Option<&'static str>)
    ensures
        status is Some <==> invoice_status(event_type@) is Some,
        status matches Some(s) ==> invoice_status(event_type@) == Some(s@),
{
    if same_text(event_type, "invoice.paid") {
        Some("paid")
    } else if same_text(event_type, "invoice.created") {
        Some("open")
    } else {
        None
    }
}

/// What the audit log says of an event that no handler takes.
pub open spec fn ignored_text(event_type: Seq<char>) -> Seq<char> {
    "ignored: no handler for '"@ + event_type + "'"@
}

/// What the audit log says of an event that came too late to change its invoice.
pub open spec fn stale_text(event_type: Seq<char>, invoice_id: Seq<char>) -> Seq<char> {
    "skipped stale "@ + event_type + " for "@ + invoice_id
}

/// What the audit log says of an event that changed its invoice.
pub open spec fn applied_text(invoice_id: Seq<char>, status: Seq<char>) -> Seq<char> {
    "invoice "@ + invoice_id + " -> "@ + status
}

/// Whether processing fails: a handler takes the event, but its payload names no invoice.
pub open spec fn process_fails(ev: ClaimedView, invoice_id: Option<Seq<char>>) -> bool {
    invoice_status(ev.event_type) is Some && invoice_id is None
}

/// The tables once the event is processed.
pub open spec fn processed(
    store: StoreView,
    ev: ClaimedView,
    invoice_id: Option<Seq<char>>,
) -> StoreView {
    match (invoice_status(ev.event_type), invoice_id) {
        (Some(status), Some(id)) => store.invoiced(id, status, ev.event_ts),
        _ => store,
    }
}

/// What the audit log says of an event whose processing does not fail.
pub open spec fn process_text(
    store: StoreView,
    ev: ClaimedView,
    invoice_id: Option<Seq<char>>,
) -> Seq<char> {
    match (invoice_status(ev.event_type), invoice_id) {
        (Some(status), Some(id)) => if store.applies(id, ev.event_ts) {
            applied_text(id, status)
        } else {
            stale_text(ev.event_type, id)
        },
        _ => ignored_text(ev.event_type),
    }
}

/// Processes an event. `invoice_id` is the invoice that its payload names, where it names one.
/// An event that is not newer than what the invoice holds leaves it as it is. Returns a short
/// result for the audit log.
pub fn process(store: &mut Store, ev: &Claimed, invoice_id: Option<&str>) -> (outcome: Result<
    String,
    ProcessError,
>)
    ensures
        final(store)@ == processed(old(store)@, ev@, opt_str(invoice_id)),
        match outcome {
            Ok(text) => !process_fails(ev@, opt_str(invoice_id)) && text@ == process_text(
                old(store)@,
                ev@,
                opt_str(invoice_id),
            ),
            Err(e) => process_fails(ev@, opt_str(invoice_id)) && e
                == ProcessError::MalformedInvoice,
        },
        ev.event_type@ != "invoice.paid"@ && ev.event_type@ != "invoice.created"@ ==> {
            &&& final(store)@ == old(store)@
            &&& outcome matches Ok(text)
            &&& text@ == "ignored: no handler for '"@ + ev.event_type@ + "'"@
        },
        old(store)@.wf() ==> final(store)@.wf(),
{
    match handler(ev.event_type.as_str()) {
        Some(status) => match invoice_id {
            Some(id) => {
                let mut text: String;
                if upsert_invoice(store, id, status, ev.event_ts) {
                    text = "invoice ".to_owned();
                    text.append(id);
                    text.append(" -> ");
                    text.append(status);
                } else {
                    text = "skipped stale ".to_owned();
                    text.append(ev.event_type.as_str());
                    text.append(" for ");
                    text.append(id);
                }
                Ok(text)
            },
            None => Err(ProcessError::MalformedInvoice),
        },
        None => {
            let mut text = "ignored: no handler for '".to_owned();
            text.append(ev.event_type.as_str());
            text.append("'");
            Ok(text)
        },
    }
}

/// An event of any type but `invoice.created` and `invoice.paid` is never a failure, whatever its
/// payload names: nothing is changed, and the audit log names the type that no handler takes.
pub proof fn law_other_events_are_ignored(
    store: StoreView,
    ev: ClaimedView,
    invoice_id: Option<Seq<char>>,
)
    requires
        ev.event_type != "invoice.created"@,
        ev.event_type != "invoice.paid"@,
    ensures
        invoice_status(ev.event_type) is None,
        !process_fails(ev, invoice_id),
        processed(store, ev, invoice_id) == store,
        process_text(store, ev, invoice_id) == "ignored: no handler for '"@ + ev.event_type + "'"@,
{
}

/// A paid invoice becomes `paid` and a created one `open`. Such an event fails exactly when it
/// names no invoice, and then changes nothing; the audit log says what the invoice became, or that
/// the event came too late.
pub proof fn law_invoice_events_set_their_status(
    store: StoreView,
    ev: ClaimedView,
    invoice_id: Seq<char>,
    paid: bool,
)
    requires
        ev.event_type == if paid {
            "invoice.paid"@
        } else {
            "invoice.created"@
        },
    ensures
        ({
            let status = if paid {
                "paid"@
            } else {
                "open"@
            };
            &&& invoice_status(ev.event_type) == Some(status)
            &&& process_fails(ev, None)
            &&& processed(store, ev, None) == store
            &&& !process_fails(ev, Some(invoice_id))
            &&& processed(store, ev, Some(invoice_id)) == store.invoiced(
                invoice_id,
                status,
                ev.event_ts,
            )
            &&& store.applies(invoice_id, ev.event_ts) ==> process_text(
                store,
                ev,
                Some(invoice_id),
            ) == "invoice "@ + invoice_id + " -> "@ + status
            &&& !store.applies(invoice_id, ev.event_ts) ==> process_text(
                store,
                ev,
                Some(invoice_id),
            ) == "skipped stale "@ + ev.event_type + " for "@ + invoice_id
        }),
{
    reveal_strlit("invoice.paid");
    reveal_strlit("invoice.created");
    assert("invoice.paid"@.len() != "invoice.created"@.len());
}

/// What processing does and says depends on the event's type and time and on the invoice that it
/// names: neither its id, nor the rest of its payload, nor how often it was attempted matter.
pub proof fn law_processing_goes_by_type_time_and_invoice(
    store: StoreView,
    a: ClaimedView,
    b: ClaimedView,
    invoice_id: Option<Seq<char>>,
)
    requires
        a.event_type == b.event_type,
        a.event_ts == b.event_ts,
    ensures
        process_fails(a, invoice_id) == process_fails(b, invoice_id),
        processed(store, a, invoice_id) == processed(store, b, invoice_id),
        process_text(store, a, invoice_id) == process_text(store, b, invoice_id),
{
}

/// The one error is worded after what is wrong.
pub proof fn law_errors_are_worded(error: ProcessError)
    ensures
        error.spec_message() == "malformed invoice payload"@,
{
}

} // verus!
