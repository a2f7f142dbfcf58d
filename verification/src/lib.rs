//! The decisions of an Ethereum engine node launcher, verified.
//!
//! Launching the node alternates work that only the node's services can do
//! (open the database, run the EVM, talk to peers) with decisions. The
//! decisions are here, as functions on plain values:
//!
//! - [`args`]: the command line options that configure the engine;
//! - [`launcher`]: the launcher and the settings it settles on its own;
//! - [`etherscan`]: how Etherscan is reached as the consensus client;
//! - [`engine`]: the loop that runs the consensus engine;
//! - [`state`]: merging the accounts an execution touched into a change set;
//! - [`replay`]: replaying the transaction pool at launch;
//! - [`block`]: the block that collects the replayed transactions.
//!
//! The services themselves live with the program that drives this library.
pub mod args;
pub mod block;
pub mod engine;
pub mod etherscan;
pub mod launcher;
pub mod primitives;
pub mod replay;
pub mod state;
