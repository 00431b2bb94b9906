//! A turn-based shogi game driven through a public message feed.
//!
//! Each game turn is one post; the next move is chosen from the replies to
//! that post. The whole game state lives in the feed itself as an encoded
//! token in the image alt-text of the bot's latest post, re-derived on every
//! run. This crate holds the verified core: state encoding and decoding,
//! candidate scanning, move resolution, termination detection and reply
//! composition. Network access, image rendering and uploading live outside.

pub mod codec;
pub mod compose;
pub mod engine;
pub mod error;
pub mod moves;
pub mod orchestrate;
pub mod resolve;
pub mod scan;
pub mod text;
