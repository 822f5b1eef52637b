//! A webhook service: authenticate a request, store its event, acknowledge it, and let workers
//! process what is stored; and a poller that watches travel times.

pub mod api;
pub mod duration;
pub mod history_laws;
pub mod invoice_laws;
pub mod processor;
pub mod queue_laws;
pub mod settings;
pub mod store;
pub mod text;
pub mod traffic;
pub mod worker;
