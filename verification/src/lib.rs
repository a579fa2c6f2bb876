//! Clipboard history for a menu-bar app: the ring of clips, how they are
//! filed, kept, expired and shown, and the decisions around reading and
//! writing the system clipboard.

pub mod clipboard;
pub mod fingerprint;
pub mod history;
pub mod imaging;
pub mod laws;
pub mod paste;
pub mod settings;
pub mod store;
