//! The client side: one logical connection to one server.

pub mod client;
pub mod error;
pub mod event;
pub mod handshake;
pub mod model;
pub mod state;

pub use client::{ClientPeer, ClientPoll};
pub use error::ClientError;
pub use event::{ClientEvent, ClientEventView};
pub use handshake::ConnectAttempt;
pub use model::{ClientPollView, ClientView};
pub use state::ClientState;
