//! A networked chess core: the chessboard with move generation, and the
//! secure packet transport that carries encoded messages between peers over
//! an ordered, possibly fragmented byte stream, optionally protecting them
//! with authenticated encryption.

pub mod board;
pub mod codec;
pub mod net;
pub mod wire;
