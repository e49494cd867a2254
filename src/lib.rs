//! Connector logic of an event-streaming runtime: protobuf mapping for table
//! sinks, the circuit-breaker test connector, HTTP request heads, listener
//! routing keys and connector configuration checks.

pub mod value;
pub mod protobuf;
pub mod config;
pub mod event;
pub mod cb;
pub mod http;
pub mod tcp;
pub mod ws;
pub mod unix_socket;
pub mod connector;
pub mod clickhouse;
pub mod kafka;
pub mod gbq;
