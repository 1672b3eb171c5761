//! Reconstruction of YGOPro duels from their recorded replays.
//!
//! A replay holds the seed, the decks and the players' responses of a duel, but not what was
//! seen of it. This library opens a replay (`read`), sets up its duel (`setup`), brings the
//! duel to its first turn (`start`), plays it with the recorded responses (`drive`), and
//! writes what an observer saw as a YRP3D file (`yrp3d`). The server that hosts the duel is
//! left to the caller: the library says what the clients send to it, and is told what they
//! receive.

pub mod bytes;
pub mod client;
pub mod drive;
pub mod error;
pub mod header;
pub mod message;
pub mod read;
pub mod replay;
pub mod responses;
pub mod setup;
pub mod start;
pub mod yrp3d;
