//! Core engine of a terminal messaging client: conversation-list
//! reconciliation, deterministic line layout for message viewports,
//! single-in-flight fetch coordination, and the shared event slots that
//! connect them.  All state transitions are verified; the network, the
//! terminal and the clock stay outside.

pub mod chats_view;
pub mod command;
pub mod input_view;
pub mod layout;
pub mod main_app;
pub mod models;
pub mod msgs_view;
pub mod state;
pub mod text;
pub mod utilities;
pub mod wrap;
