//! The core of a chess engine that speaks the UCI text protocol: a
//! centipawn evaluator over material and piece-square tables, a move
//! orderer, an alpha-beta searcher with extensions and futility pruning,
//! a direct-mapped transposition table, an iterative-deepening driver,
//! and the command handler that ties them together.
pub mod board;
pub mod engine;
pub mod eval;
pub mod fen;
pub mod ordering;
pub mod search;
pub mod text;
pub mod uci;
