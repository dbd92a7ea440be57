//! The core of a GraphQL federation gateway: the service registry, the lifecycle
//! of the composed schema, the decisions of the query entry path, and the
//! correlation of multiplexed WebSocket replies.
pub mod route_table;
pub mod composer;
pub mod websocket;
pub mod handler;
pub mod fetcher;
