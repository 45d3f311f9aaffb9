//! An IRC-like peer-to-peer chat client.
//!
//! Each client listens for peers and connects to peers. The user types messages and commands at a
//! terminal. Messages are broadcast to all connected peers whom the user has not blocked, unless
//! the user asks for something else. What arrives is answered, unless it is itself an answer or a
//! goodbye: it is confirmed, or it is rejected with the reason.
//!
//! This library decides; it does no input or output. Messages and their bytes are in [`message`]
//! and [`codec`], the peers and what is answered to them in [`peer`], and the terminal in
//! [`terminal`] and [`commands`]. [`addr`] and [`assoc`] are the parts that these are made of, and
//! [`buffers`], [`wire`], [`text`] and [`clock`] hold what the library has from elsewhere.
//!
//! The other modules state what holds of these: [`framing`] of messages that are written and read,
//! however they arrive; [`exchange`] of messages and their answers, and of what is learnt from
//! them; [`composing`] of what the user types; [`orders`] of commands, and of where messages go;
//! [`showing`] of what the user is shown; [`wording`] of texts; and [`standing`] of what values
//! stand for.

pub mod addr;
pub mod assoc;
pub mod buffers;
pub mod clock;
pub mod codec;
pub mod commands;
pub mod composing;
pub mod exchange;
pub mod framing;
pub mod message;
pub mod orders;
pub mod peer;
pub mod showing;
pub mod standing;
pub mod terminal;
pub mod text;
pub mod wire;
pub mod wording;
