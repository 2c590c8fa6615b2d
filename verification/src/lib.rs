//! The rules of a falling-block puzzle: a field of cells, pieces that move,
//! rotate and settle, rows that clear, and the session that drives them.
use vstd::prelude::*;

pub mod board;
pub mod game;
pub mod session;
pub mod layout;
pub mod laws;

verus! {

} // verus!
