//! Request handling for the torsen agent API: the messages that agents and the
//! server exchange, the answers the server gives, and the schedule on which it
//! streams heartbeat commands back to an agent.
pub mod api;
pub mod client;
pub mod decimal;
pub mod heartbeat;
pub mod pem;
pub mod server;
pub mod tls;
