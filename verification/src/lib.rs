//! A verified chess engine library.

pub mod attacks;
pub mod bitboard;
pub mod board;
pub mod book;
pub mod bytes;
pub mod choice;
pub mod conduct;
pub mod constancy;
pub mod datagen;
pub mod decide;
pub mod display;
pub mod embedded;
pub mod eval;
pub mod expbook;
pub mod fen;
pub mod game;
pub mod insight;
pub mod keeping;
mod keys;
pub mod listing;
pub mod lmr;
pub mod logs;
pub mod magic;
pub mod model;
pub mod movegen;
pub mod moves;
pub mod netfile;
pub mod nnue;
pub mod nodes;
pub mod num;
pub mod ordering;
pub mod outcomes;
pub mod pacing;
pub mod perft;
pub mod play;
pub mod polykeys;
pub mod pst;
pub mod quiet;
pub mod readings;
pub mod records;
pub mod rescore;
pub mod rng;
pub mod roundtrip;
pub mod rules;
pub mod search;
pub mod selfplaybook;
pub mod session;
pub mod sight;
pub mod symmetry;
pub mod tablebase;
pub mod tables;
pub mod text;
pub mod time;
pub mod tt;
pub mod tune;
pub mod types;
pub mod uci;
pub mod verify;
pub mod weighing;
pub mod worth;
pub mod zobrist;

pub use embedded::{
    search_embedded, EmbeddedConfig, EmbeddedEngine, EmbeddedFiles, EmbeddedLimits, NetLoad, Reply,
    SearchOutcome,
};
