//! Core of an interactive terminal client for a relay-based event feed.
//!
//! The library holds the verified state machine of the client: the event
//! list and its selection cursor, the compose draft, the overlay dialogs
//! with their nested calculator, the key-input dispatch, the reconciliation
//! of fetch and publish results, the bounded one-shot collector, and the
//! password-gated session unlock. Terminal drawing, networking and file
//! handling stay outside; they exchange plain values with this crate.

pub mod event;
pub mod number;
pub mod decimal;
pub mod calculator;
pub mod strings;
pub mod app;
pub mod collector;
pub mod keyvault;
pub mod relays;
