//! Shared conversation state for a live reply overlay: one controller pushes
//! reply options and key bindings, any number of viewers follow along.

use vstd::prelude::*;

pub mod conversation;
pub mod error;
pub mod laws;
pub mod manifest;
pub mod notif;
pub mod reply;
pub mod state;
pub mod text;
pub mod viewer;

pub use conversation::Conversation;
pub use error::{ErrorKind, HandlerError, ManifestField, ParseError, StoreError};
pub use notif::WebNotif;
pub use reply::ConversationReply;
pub use state::AppState;
pub use viewer::{Viewer, ViewerAction, ViewerEvent};

verus! {

/// Number of reply slots in a conversation, and of key bindings in a layout.
pub const MAX_REPLIES: usize = 16;

} // verus!
