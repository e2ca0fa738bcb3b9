//! The bounded-resource and ordering engine of a chat client: insertion-ordered
//! keyed collections, reordering of display lists, byte-budgeted image pools and
//! the sliding window over a channel's message log.

pub mod cache;
pub mod channel;
pub mod client;
pub mod guild;
pub mod image;
pub mod main_screen;
pub mod manage_emotes;
pub mod member;
pub mod members;
pub mod message;
pub mod ordered;
pub mod reorder;
