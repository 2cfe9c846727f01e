//! Gong retrieval turns.
//!
//! A turn puts the user's question to a retrieval sidecar, a long-lived process
//! that speaks one JSON object per line, and turns what the sidecar reports
//! into items of a transcript: retrieval stages as tool calls, the planned
//! retrieval and the ranked calls as agent messages.
//!
//! [`turn`] holds the state machine: a [`turn::Turn`] takes one
//! [`turn::Signal`] after the other and answers each with the
//! [`items::Action`]s that its surroundings are to perform. [`history`] states
//! what holds of any sequence of signals, [`shown`] what the user sees of each
//! thing that the sidecar can report, and [`sent`] what the sidecar is sent. [`events`] and [`requests`] are the
//! two directions of the wire format, over the JSON documents of [`json`].

pub mod choice;
pub mod events;
pub mod history;
pub mod ids;
pub mod items;
pub mod json;
pub mod model;
pub mod plan;
pub mod question;
pub mod requests;
pub mod results;
pub mod sent;
pub mod shown;
pub mod sidecar;
pub mod stages;
pub mod task;
pub mod text;
pub mod turn;
