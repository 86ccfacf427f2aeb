//! A two-player grid-drop game on a square board of configurable size.
//!
//! Players take turns dropping a piece into a column; the piece falls to the
//! lowest empty cell. The first player with four pieces in a row, a column or
//! a diagonal wins.
//!
//! The engine is verified with Verus. Every function states what it returns
//! and what it changes over a mathematical model of the board, and the laws
//! of the game are proved over the same model. The only statements taken on
//! trust describe the three calls into the `colored` crate that paint the
//! pieces when the board is drawn.

pub mod game;
