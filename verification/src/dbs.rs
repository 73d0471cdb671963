//! What the engine keeps for each connection.

pub mod session;
