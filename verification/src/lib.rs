//! The engine side of a text-protocol chess engine: an authoritative board
//! state with FEN input and output, validation and application of moves in
//! coordinate notation, and the state machine that coordinates one
//! cancellable background search.

pub mod types;
pub mod text;
pub mod position;
pub mod fen;
pub mod fen_laws;
pub mod start;
pub mod attack;
pub mod moves;
pub mod codec;
pub mod search;
pub mod options;
pub mod uci;
pub mod dispatch;
