//! Verified core of CosmiCal: the command wire protocol, calendar arithmetic,
//! the note / clipboard data model and the application's decision logic.

pub mod commands;
pub mod text;
pub mod focus;
pub mod calendar;
pub mod model;
pub mod launch;
pub mod clipboard;
pub mod app_state;
pub mod views;
pub mod ipc;
pub mod platform;
