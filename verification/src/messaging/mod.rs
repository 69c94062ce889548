//! Topic routing and message filtering for the embedded messaging system.

pub mod filters;
pub mod stream;
pub mod types;
pub mod addressing;
pub mod embedded;
pub mod history;
pub mod websocket;
