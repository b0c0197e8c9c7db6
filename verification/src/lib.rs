//! An adaptive keyboard remapper core: a modal reducer turns a stream of
//! hardware key events into logged symbolic actions ("kapps"), learns which
//! short kapp sequences recur, and binds the most rewarding ones to the
//! home-row keys of a command mode. Host I/O (event grabbing, key synthesis,
//! the durable record store, the terminal) stays outside; this crate holds
//! the state machine, the learning table, the evaluator and the record codec.

pub mod keys;
pub mod kapp;
pub mod codec;
pub mod keyboard;
pub mod ngram;
pub mod state;
pub mod render;
