//! Decision logic of a terminal client for Azure Privileged Identity Management.
use vstd::prelude::*;

pub mod text;
pub mod clock;
pub mod text_map;
pub mod models;
pub mod config;
pub mod error;
pub mod auth;
pub mod app;
pub mod event;
pub mod event_modal;
pub mod role_order;
pub mod pim;
pub mod group;
pub mod cached_credential;
pub mod graph_credential;
pub mod ui;
pub mod session;
pub mod laws;

verus! {
}
