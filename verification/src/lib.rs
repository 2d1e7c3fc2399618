//! A small bidirectional message protocol between a game process, a server
//! session, and an external controller, together with a deterministic binary
//! codec for its messages and an adapter that translates between the binary
//! wire form and a dynamically typed value representation.

use vstd::prelude::*;

pub mod messages;
pub mod wire;
pub mod codec;
pub mod codec_entry;
pub mod laws;
pub mod stats;
pub mod adapter;
pub mod schema;

verus! {

/// The ways in which decoding a byte buffer can fail.
#[derive(Clone, Copy, Debug, PartialEq, Eq, Structural)]
pub enum DecodeError {
    /// Fewer bytes were available than the message shape requires.
    TruncatedInput,
    /// A decoded enum tag exceeds the variant count of the target type.
    InvalidDiscriminant,
    /// The bytes of a string field are not valid UTF-8.
    InvalidUtf8,
    /// Decoding consumed fewer bytes than were supplied.
    TrailingBytes,
}

} // verus!
