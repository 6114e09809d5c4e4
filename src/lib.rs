//! Controller for a fleet of competitive game servers: the RCON wire codec and
//! exchange, the per-server worker decisions, the log-event classifier and the
//! supervisor that owns the authoritative per-server state.
pub mod packet;
pub mod connection;
pub mod text;
pub mod types;
pub mod log_events;
pub mod classifier;
pub mod frames;
pub mod csctrl;
pub mod commands;
pub mod server;
pub mod terminal;
