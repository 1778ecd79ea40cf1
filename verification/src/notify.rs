//! Change notification: subscriber registry and watcher state.

pub mod subscriber;
pub mod watcher;
