//! An in-memory broker that relays live state between one authenticated
//! streamer and many anonymous viewers, one lobby per channel.

mod broadcast;
mod errors;
mod frame;
mod http;
pub mod laws;
mod registry;
mod relay;
mod session;

pub use broadcast::{catch_up, oldest_retained, Broadcast, BROADCAST_CAPACITY};
pub use errors::{status_of, ErrorKind, Errors, ResultExt};
pub use frame::{fits_viewer_limit, Frame, FrameKind, FrameView, MAX_VIEWER_FRAME};
pub use http::{default_catcher, index, reason_phrase, GenericError};
pub use registry::{Lobbies, Lobby, LobbySummary, LobbyView, RegistryView, StreamerHandle, ViewerHandle};
pub use relay::{Relay, RelayView, QUEUE_CAPACITY};
pub use session::{Flow, PollView, Polled, SocketEvent};
