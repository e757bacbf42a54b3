//! The server side of an iterated prisoner's-dilemma game played over a
//! stream socket: the fixed 30-byte wire message, the store of parties with
//! its round state machine and payoff rule, the registry of player
//! connections, the settings lookup, and the client window's panel logic.
//!
//! Sockets, threads, locks, the configuration file and the result
//! spreadsheet stay with the program that uses this library; every operation
//! here takes plain values and returns the messages to send.
pub mod bytes;
pub mod game;
pub mod money;
pub mod protocol;
pub mod registry;
pub mod screen;
pub mod settings;
