//! A local, incrementally synchronised index of a numbered comic archive,
//! with substring search over the text gathered for each comic.
//!
//! The library holds the rules of the index: how a comic is decoded from the
//! archive's replies, how a transcript is cut out of a companion page, how a
//! synchronisation pass proceeds from one remote reply to the next, and which
//! comics answer a query. Performing the requests and touching the file
//! system is left to the program that drives it.
//!
//! - [`item`]: the comic record.
//! - [`remote`]: the requests to make for one comic, how often to repeat
//!   them, and how to read the replies.
//! - [`transcript`]: the text between the two anchors of a companion page.
//! - [`store`]: the files of the index and what they hold.
//! - [`sync`]: a synchronisation pass, step by step.
//! - [`pass`] and [`partition`]: what is proved of a whole pass.
//! - [`search`]: the comics that answer a query.
//! - [`text`] and [`json`]: characters, words and numbers; and what is taken
//!   on trust from the JSON codec.
//! - [`error`]: the ways in which all this can fail.

pub mod error;
pub mod item;
pub mod json;
pub mod partition;
pub mod pass;
pub mod remote;
pub mod search;
pub mod store;
pub mod sync;
pub mod text;
pub mod transcript;
