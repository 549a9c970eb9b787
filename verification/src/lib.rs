//! Turns the ITMO personal schedule into an iCalendar feed.
pub mod auth;
pub mod cache;
pub mod calendar;
pub mod calendar_laws;
pub mod codes;
pub mod config;
pub mod dates;
pub mod error;
pub mod event_laws;
pub mod itmo;
pub mod login_laws;
pub mod schedule_laws;
pub mod server;
pub mod service_laws;
pub mod settings_laws;
pub mod telegram;
pub mod text;
pub mod value_laws;
pub mod view_laws;
pub mod web;
