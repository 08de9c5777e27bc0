//! What can go wrong while a block is processed.

use vstd::prelude::*;
use vstd::string::StringExecFns;

use crate::ethereum::EthAddress;

verus! {

/// Errors of the oracle.
pub enum Error {
    /// The Ethereum node has fallen out of sync.
    FallenBehind,
    /// The node could not be asked for an event: the signature of the event, the
    /// contract, and what the endpoint said.
    CheckEvents(String, EthAddress, String),
    /// The events of a contract could not all be sent on: the signature of the
    /// event, and the contract.
    Channel(String, EthAddress),
    /// The block has too few confirmations.
    MoreConfirmations,
    /// The node did not answer in time.
    Timeout,
}

/// What an error holds.
pub enum ErrorView {
    FallenBehind,
    CheckEvents(Seq<char>, EthAddress, Seq<char>),
    Channel(Seq<char>, EthAddress),
    MoreConfirmations,
    Timeout,
}

impl View for Error {
    type V = ErrorView;

    open spec fn view(&self) -> ErrorView {
        match self {
            Error::FallenBehind => ErrorView::FallenBehind,
            Error::CheckEvents(signature, address, reason) => ErrorView::CheckEvents(
                signature@,
                *address,
                reason@,
            ),
            Error::Channel(signature, address) => ErrorView::Channel(signature@, *address),
            Error::MoreConfirmations => ErrorView::MoreConfirmations,
            Error::Timeout => ErrorView::Timeout,
        }
    }
}

impl ErrorView {
    /// Whether the block can be tried again after a while.
    pub open spec fn recoverable(self) -> bool {
        self is FallenBehind || self is MoreConfirmations
    }

    /// The error in words; `address` is the contract in words.
    pub open spec fn text(self, address: Seq<char>) -> Seq<char> {
        match self {
            ErrorView::FallenBehind => "Ethereum node has fallen out of sync"@,
            ErrorView::CheckEvents(signature, _, reason) => "Couldn't check for events ("@
                + signature + " from "@ + address + ") with the RPC endpoint: "@ + reason,
            ErrorView::Channel(signature, _) => "Could not send all bridge events ("@ + signature
                + " from "@ + address + ") to the shell"@,
            ErrorView::MoreConfirmations =>
                "Need more confirmations for oracle to continue processing blocks."@,
            ErrorView::Timeout => "The Ethereum oracle timed out"@,
        }
    }

    /// The contract that the error speaks of.
    pub open spec fn contract(self) -> Option<EthAddress> {
        match self {
            ErrorView::CheckEvents(_, address, _) => Some(address),
            ErrorView::Channel(_, address) => Some(address),
            _ => None,
        }
    }
}

/// How `clarity` writes an Ethereum address: in hexadecimal, with the checksum
/// that the case of its letters carries.
pub uninterp spec fn address_text(address: Seq<u8>) -> Seq<char>;

/// `clarity::Address`'s `to_string` on the bytes of an address; what it writes is
/// named `address_text`.
#[verifier::external_body]
fn write_address(address: &EthAddress) -> (r: String)
    ensures
        r@ == address_text(address.bytes@),
{
    clarity::Address::from(address.bytes).to_string()
}

impl Error {
    /// Whether the block can be tried again after a while.
    pub fn is_recoverable(&self) -> (r: bool)
        ensures
            r == self@.recoverable(),
    {
        match self {
            Error::FallenBehind => true,
            Error::MoreConfirmations => true,
            _ => false,
        }
    }

    /// The error in words, with `address` in the place of the contract.
    pub fn message_with(&self, address: &str) -> (r: String)
        ensures
            r@ == self@.text(address@),
    {
        match self {
            Error::FallenBehind => "Ethereum node has fallen out of sync".to_owned(),
            Error::CheckEvents(signature, _, reason) => "Couldn't check for events (".to_owned()
                .concat(signature.as_str()).concat(" from ").concat(address).concat(
                ") with the RPC endpoint: ",
            ).concat(reason.as_str()),
            Error::Channel(signature, _) => "Could not send all bridge events (".to_owned().concat(
                signature.as_str(),
            ).concat(" from ").concat(address).concat(") to the shell"),
            Error::MoreConfirmations =>
                "Need more confirmations for oracle to continue processing blocks.".to_owned(),
            Error::Timeout => "The Ethereum oracle timed out".to_owned(),
        }
    }

    /// The error in words.
    pub fn message(&self) -> (r: String)
        ensures
            r@ == self@.text(
                match self@.contract() {
                    Some(address) => address_text(address.bytes@),
                    None => Seq::empty(),
                },
            ),
    {
        match self {
            Error::CheckEvents(_, address, _) => self.message_with(write_address(address).as_str()),
            Error::Channel(_, address) => self.message_with(write_address(address).as_str()),
            _ => self.message_with(String::new().as_str()),
        }
    }
}

/// An error holds what it was made from.
pub proof fn law_error_holds(signature: String, address: EthAddress, reason: String)
    ensures
        Error::FallenBehind@ == ErrorView::FallenBehind,
        Error::MoreConfirmations@ == ErrorView::MoreConfirmations,
        Error::Timeout@ == ErrorView::Timeout,
        Error::CheckEvents(signature, address, reason)@ == ErrorView::CheckEvents(
            signature@,
            address,
            reason@,
        ),
        Error::Channel(signature, address)@ == ErrorView::Channel(signature@, address),
{
}

/// A block is tried again when the node has fallen behind or confirmations are missing,
/// and on no other error.
pub proof fn law_errors_that_pass(error: ErrorView)
    ensures
        error.recoverable() <==> error == ErrorView::FallenBehind || error
            == ErrorView::MoreConfirmations,
{
}

/// What an error says: where it names an event, the signature comes before the contract,
/// and what the endpoint said comes last.
pub proof fn law_errors_in_words(
    signature: Seq<char>,
    contract: EthAddress,
    reason: Seq<char>,
    written: Seq<char>,
)
    ensures
        ErrorView::FallenBehind.text(written) == "Ethereum node has fallen out of sync"@,
        ErrorView::CheckEvents(signature, contract, reason).text(written)
            == "Couldn't check for events ("@ + signature + " from "@ + written
            + ") with the RPC endpoint: "@ + reason,
        ErrorView::Channel(signature, contract).text(written) == "Could not send all bridge events ("@
            + signature + " from "@ + written + ") to the shell"@,
        ErrorView::MoreConfirmations.text(written)
            == "Need more confirmations for oracle to continue processing blocks."@,
        ErrorView::Timeout.text(written) == "The Ethereum oracle timed out"@,
        ErrorView::CheckEvents(signature, contract, reason).contract() == Some(contract),
        ErrorView::Channel(signature, contract).contract() == Some(contract),
        ErrorView::FallenBehind.contract() is None,
        ErrorView::MoreConfirmations.contract() is None,
        ErrorView::Timeout.contract() is None,
{
}

} // verus!
