//! A length-prefixed binary codec for a small publish/subscribe protocol
//! carried in single UDP datagrams, with the text front end that goes with
//! it.
//!
//! - [`mqtt`] is the codec: the wire values, the nine packet kinds, the
//!   frame that carries one packet per datagram, and the proofs that
//!   decoding undoes encoding.
//! - [`utils`] reads payloads written by hand, as hexadecimal digits or as
//!   text with escapes.
//! - [`tui`] is what the terminal front end decides: it reads command
//!   lines as frames, shows payloads in one line, and says what each key
//!   and each report of the network side does to the screen's state.
//! - [`cli`] is what the line-by-line front end decides.
//! - [`text`] holds the operations on characters that the others share.
//!
//! Every function states what it computes over sequences of bytes and of
//! characters, and no function panics on any input that its contract
//! admits.

pub mod cli;
pub mod mqtt;
pub mod text;
pub mod tui;
pub mod utils;
