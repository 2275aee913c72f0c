pub mod config;
pub mod handshake;
pub mod persist;
pub mod routes;
pub mod settings;
pub mod varint;
pub mod world;
