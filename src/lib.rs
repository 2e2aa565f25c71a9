//! Weekly class schedule: aggregation by category, chat publishing plans and
//! calendar events.
pub mod category;
pub mod calendar;
pub mod models;
pub mod schedule;
pub mod publish;
pub mod events;
pub mod discord;
