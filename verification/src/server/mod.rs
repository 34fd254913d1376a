//! The server side: the registry of admitted clients.

pub mod error;
pub mod event;
pub mod model;
pub mod peer_id;
pub mod server;

pub use error::ServerError;
pub use event::{ServerEvent, ServerEventView};
pub use model::{ServerPollView, ServerView};
pub use peer_id::PeerId;
pub use server::{ServerPeer, ServerPoll};
