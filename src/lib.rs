//! Orchestration core of a desktop widget host: configuration state, monitor
//! topology, the open-widget registry, data-provider subscriptions, tray menu
//! contents and the reconciliation rules that tie them together.
//!
//! Everything here is plain state and decisions; windows, files, timers and
//! the event loop belong to the host application, which feeds events in and
//! carries out the actions that come back.

pub mod monitor_state;
pub mod placement;
pub mod config;
pub mod widget_factory;
pub mod providers;
pub mod cli;
pub mod tray;
pub mod dispatcher;
