//! Addresses of accounts.

use vstd::prelude::*;
use vstd::std_specs::cmp::{PartialEqSpec, PartialEqSpecImpl};

use crate::ethereum::EthAddress;

verus! {

/// A hash of 20 bytes.
#[derive(Clone, Copy, Debug)]
pub struct Hash20 {
    pub bytes: [u8; 20],
}

/// An address of the ledger itself.
#[derive(Clone, Copy, Debug)]
pub enum InternalAddress {
    /// Proof-of-stake.
    PoS,
    /// The pool of slashed tokens.
    PosSlashPool,
    /// Protocol parameters.
    Parameters,
    /// Inter-blockchain communication.
    Ibc,
    /// A token of another blockchain.
    IbcToken(Hash20),
    /// Governance.
    Governance,
    /// The bridge to Ethereum.
    EthBridge,
    /// The pool of transactions to be relayed to Ethereum.
    EthBridgePool,
    /// An ERC20 token.
    Erc20(EthAddress),
    /// An ERC20 token that cannot be used.
    Nut(EthAddress),
    /// The balances of all tokens.
    Multitoken,
    /// Public goods funding.
    Pgf,
    /// The multi-asset shielded pool.
    Masp,
}

/// An address.
#[derive(Clone, Copy, Debug)]
pub enum Address {
    /// An established address, by its hash.
    Established(Hash20),
    /// An implicit address, by the hash of a public key.
    Implicit(Hash20),
    /// An address of the ledger itself.
    Internal(InternalAddress),
}

fn same_bytes(a: &[u8; 20], b: &[u8; 20]) -> (r: bool)
    ensures
        r == (a == b),
{
    for i in 0..20usize
        invariant
            forall|j: int| 0 <= j < i ==> a@[j] == b@[j],
    {
        if a[i] != b[i] {
            return false;
        }
    }
    assert(*a =~= *b);
    true
}

impl PartialEq for Hash20 {
    fn eq(&self, other: &Hash20) -> (r: bool) {
        same_bytes(&self.bytes, &other.bytes)
    }
}

impl PartialEqSpecImpl for Hash20 {
    open spec fn obeys_eq_spec() -> bool {
        true
    }

    open spec fn eq_spec(&self, other: &Hash20) -> bool {
        *self == *other
    }
}

impl Eq for Hash20 {

}

impl PartialEq for InternalAddress {
    fn eq(&self, other: &InternalAddress) -> (r: bool) {
        match (self, other) {
            (InternalAddress::PoS, InternalAddress::PoS) => true,
            (InternalAddress::PosSlashPool, InternalAddress::PosSlashPool) => true,
            (InternalAddress::Parameters, InternalAddress::Parameters) => true,
            (InternalAddress::Ibc, InternalAddress::Ibc) => true,
            (InternalAddress::IbcToken(a), InternalAddress::IbcToken(b)) => same_bytes(
                &a.bytes,
                &b.bytes,
            ),
            (InternalAddress::Governance, InternalAddress::Governance) => true,
            (InternalAddress::EthBridge, InternalAddress::EthBridge) => true,
            (InternalAddress::EthBridgePool, InternalAddress::EthBridgePool) => true,
            (InternalAddress::Erc20(a), InternalAddress::Erc20(b)) => same_bytes(
                &a.bytes,
                &b.bytes,
            ),
            (InternalAddress::Nut(a), InternalAddress::Nut(b)) => same_bytes(&a.bytes, &b.bytes),
            (InternalAddress::Multitoken, InternalAddress::Multitoken) => true,
            (InternalAddress::Pgf, InternalAddress::Pgf) => true,
            (InternalAddress::Masp, InternalAddress::Masp) => true,
            _ => false,
        }
    }
}

impl PartialEqSpecImpl for InternalAddress {
    open spec fn obeys_eq_spec() -> bool {
        true
    }

    open spec fn eq_spec(&self, other: &InternalAddress) -> bool {
        *self == *other
    }
}

impl Eq for InternalAddress {

}

impl PartialEq for Address {
    fn eq(&self, other: &Address) -> (r: bool) {
        match (self, other) {
            (Address::Established(a), Address::Established(b)) => same_bytes(&a.bytes, &b.bytes),
            (Address::Implicit(a), Address::Implicit(b)) => same_bytes(&a.bytes, &b.bytes),
            (Address::Internal(a), Address::Internal(b)) => *a == *b,
            _ => false,
        }
    }
}

impl PartialEqSpecImpl for Address {
    open spec fn obeys_eq_spec() -> bool {
        true
    }

    open spec fn eq_spec(&self, other: &Address) -> bool {
        *self == *other
    }
}

impl Eq for Address {

}

/// Two addresses compare as equal just where they are the same, in every variant and in
/// every byte.
pub proof fn law_equal_is_same(
    address: Address,
    other: Address,
    internal: InternalAddress,
    other_internal: InternalAddress,
    hash: Hash20,
    other_hash: Hash20,
)
    ensures
        PartialEqSpec::eq_spec(&address, &other) <==> address == other,
        PartialEqSpec::eq_spec(&internal, &other_internal) <==> internal == other_internal,
        PartialEqSpec::eq_spec(&hash, &other_hash) <==> (forall|i: int|
            0 <= i < 20 ==> #[trigger] hash.bytes@[i] == other_hash.bytes@[i]),
{
    if forall|i: int| 0 <= i < 20 ==> #[trigger] hash.bytes@[i] == other_hash.bytes@[i] {
        assert(hash.bytes =~= other_hash.bytes);
    }
}

} // verus!
