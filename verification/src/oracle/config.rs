//! The configuration of the oracle, and how it reaches a running oracle.

use vstd::prelude::*;

use crate::ethereum::{EthAddress, EventKind};
use crate::uint256::Uint256;

verus! {

/// What the ledger tells the oracle about the bridge.
#[derive(Clone, Copy, Debug)]
pub struct Config {
    /// The number of blocks that must stand on top of a block before its events
    /// are processed. It is at least one.
    pub min_confirmations: u64,
    /// The address of the bridge contract.
    pub bridge_contract: EthAddress,
    /// The address of the governance contract.
    pub governance_contract: EthAddress,
    /// The first block to process.
    pub start_block: Uint256,
}

impl Config {
    /// At least one confirmation is asked for.
    pub open spec fn wf(&self) -> bool {
        self.min_confirmations > 0
    }

    /// The contract whose events are of the given kind.
    pub open spec fn contract(&self, kind: EventKind) -> EthAddress {
        match kind {
            EventKind::Bridge => self.bridge_contract,
            EventKind::Governance => self.governance_contract,
        }
    }

    /// The contract whose events are of the given kind.
    pub fn contract_address(&self, kind: EventKind) -> (r: EthAddress)
        ensures
            r == self.contract(kind),
    {
        match kind {
            EventKind::Bridge => self.bridge_contract,
            EventKind::Governance => self.governance_contract,
        }
    }
}

/// A command to the oracle.
#[derive(Clone, Copy, Debug)]
pub enum Command {
    /// Replaces the configuration of the oracle.
    UpdateConfig(Config),
}

impl Command {
    /// The configuration that the command brings.
    pub open spec fn config(&self) -> Config {
        match self {
            Command::UpdateConfig(config) => *config,
        }
    }
}

/// What a look at the command channel finds.
#[derive(Clone, Copy, Debug)]
pub enum Polled {
    /// A command is there.
    Received(Command),
    /// No command is there yet.
    Empty,
    /// The other end of the channel is gone.
    Disconnected,
}

/// The initial configuration, from what the wait on the command channel ended
/// with: a command, or `None` where the channel was closed.
pub fn await_initial_configuration(received: Option<Command>) -> (r: Option<Config>)
    ensures
        r == (match received {
            Some(command) => Some(command.config()),
            None => None,
        }),
{
    match received {
        Some(Command::UpdateConfig(config)) => Some(config),
        None => None,
    }
}

/// The new configuration, where one has been sent. The command channel does not
/// hang up on a running oracle.
pub fn update_config(polled: Polled) -> (r: Option<Config>)
    requires
        !(polled is Disconnected),
    ensures
        r == (match polled {
            Polled::Received(command) => Some(command.config()),
            _ => None,
        }),
{
    match polled {
        Polled::Received(Command::UpdateConfig(config)) => Some(config),
        _ => None,
    }
}

/// A configuration names two contracts, one for each kind of event, asks for some number
/// of confirmations that is not zero, and reaches the oracle as it was sent.
pub proof fn law_configuration(config: Config)
    ensures
        config.contract(EventKind::Bridge) == config.bridge_contract,
        config.contract(EventKind::Governance) == config.governance_contract,
        config.wf() <==> config.min_confirmations != 0,
        Command::UpdateConfig(config).config() == config,
{
}

} // verus!
