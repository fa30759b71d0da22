//! Cafeteria menu decoding and durable cron-style re-posting of the daily menu.
pub mod command;
pub mod date;
pub mod diet;
pub mod json;
pub mod menu;
pub mod render;
pub mod schedule;
pub mod store;
pub mod text;
