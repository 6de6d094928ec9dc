//! Core of a peer-to-peer networking runtime: a service event loop that
//! coordinates dialing, listening, authenticated handshakes, multiplexed
//! sessions and a two-tier protocol handler system.
//!
//! The service state machine lives here, fully verified: every transition
//! (session open and close, protocol open, message and close, service task
//! dispatch, one event-loop iteration) is an executable function whose
//! contract pins down the new state and the actions the surrounding runtime
//! must perform. Transport, handshake and executor work is carried out by an
//! embedding runtime that drives these functions.

pub mod buffer;
pub mod context;
pub mod events;
pub mod handles;
pub mod laws;
pub mod payload;
pub mod poll;
pub mod service;
pub mod types;
