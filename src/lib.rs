//! Core of a BFT blockchain node: a consensus state machine over a weighted
//! validator set, evidence handling and slashing, an authenticated state
//! tree, a bounded mempool and the rate limits of the consensus transport.
pub mod bytes;
pub mod crypto;
pub mod error;
pub mod merkle;
pub mod validator;
pub mod evidence;
pub mod mempool;
pub mod block;
pub mod message;
pub mod engine;
pub mod transport;
pub mod discovery;
pub mod types;
pub mod svbft;
