//! The input service of a remote desktop server: what is done on the machine for the
//! mouse and key events of its peers, and what the peers are told about the cursor.

pub mod cursor;
pub mod device;
pub mod dialogue;
pub mod events;
pub mod keyboard;
pub mod keys;
pub mod laws;
pub mod moments;
pub mod mouse;
pub mod notes;
pub mod promises;
pub mod records;
pub mod script;
pub mod session;
pub mod text;
pub mod touching;
pub mod transcript;
pub mod typing;
