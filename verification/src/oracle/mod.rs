//! The Ethereum oracle: it watches Ethereum for events of the bridge contracts,
//! and sends them on to the ledger once they have their confirmations.

pub mod config;
pub mod error;
pub mod events;
pub mod process;
pub mod process_laws;
pub mod run;
pub mod run_laws;
