//! The verified core of a mock Agones SDK server: it records the SDK calls a
//! game server makes, answers them (or refuses them with a configured error),
//! keeps the current game-server record and publishes its updates to watchers.
pub mod sdk;
pub mod calls;
pub mod channel;
pub mod status;
pub mod server;
pub mod laws;
