//! A filtering DNS forwarder's request pipeline: a denylist of exact domain
//! names, a time-bounded answer cache, and the decisions that turn one client
//! query into one response.

pub mod cache;
pub mod denylist;
pub mod handler;
pub mod message;
pub mod name;
pub mod record;
mod table;
pub mod wire;
