//! Transactions that transfer tokens.
//!
//! The ledger reads a transfer in the Borsh encoding: the fields of a record stand one
//! after the other, a variant begins with its place among the variants, and a text
//! begins with its length.

use vstd::bytes::{
    lemma_auto_spec_u32_to_from_le_bytes, lemma_auto_spec_u64_to_from_le_bytes,
    spec_u32_from_le_bytes, spec_u32_to_le_bytes, spec_u64_from_le_bytes, spec_u64_to_le_bytes,
    u32_to_le_bytes, u64_to_le_bytes,
};
use vstd::prelude::*;
use vstd::utf8::{decode_utf8, encode_utf8};

use crate::address::{Address, Hash20, InternalAddress};
use crate::ethereum::EthAddress;

verus! {

/// The tag of the code that carries out a transfer.
pub const TX_TRANSFER_WASM: &'static str = "tx_transfer.wasm";

/// An amount of a token, with the number of its decimal places.
#[derive(Clone, Copy, Debug)]
pub struct DenominatedAmount {
    /// The amount in the smallest unit, least significant part first.
    pub raw: [u64; 4],
    /// The number of decimal places.
    pub denom: u8,
}

/// What a transfer says, as the ledger reads it.
pub struct TransferView {
    pub source: Address,
    pub target: Address,
    pub token: Address,
    pub amount: DenominatedAmount,
    pub key: Option<Seq<char>>,
    pub shielded: Option<Seq<u8>>,
}

/// The bytes of an internal address: the place of its variant, and what it holds.
pub open spec fn internal_address_bytes(address: InternalAddress) -> Seq<u8> {
    match address {
        InternalAddress::PoS => seq![0u8],
        InternalAddress::PosSlashPool => seq![1u8],
        InternalAddress::Parameters => seq![2u8],
        InternalAddress::Ibc => seq![3u8],
        InternalAddress::IbcToken(hash) => seq![4u8] + hash.bytes@,
        InternalAddress::Governance => seq![5u8],
        InternalAddress::EthBridge => seq![6u8],
        InternalAddress::EthBridgePool => seq![7u8],
        InternalAddress::Erc20(eth) => seq![8u8] + eth.bytes@,
        InternalAddress::Nut(eth) => seq![9u8] + eth.bytes@,
        InternalAddress::Multitoken => seq![10u8],
        InternalAddress::Pgf => seq![11u8],
        InternalAddress::Masp => seq![12u8],
    }
}

/// The bytes of an address: the place of its variant, and what it holds.
pub open spec fn address_bytes(address: Address) -> Seq<u8> {
    match address {
        Address::Established(hash) => seq![0u8] + hash.bytes@,
        Address::Implicit(hash) => seq![1u8] + hash.bytes@,
        Address::Internal(internal) => seq![2u8] + internal_address_bytes(internal),
    }
}

/// The bytes of an amount: its parts, least significant byte first, and the number of
/// decimal places.
pub open spec fn amount_bytes(amount: DenominatedAmount) -> Seq<u8> {
    spec_u64_to_le_bytes(amount.raw@[0]) + spec_u64_to_le_bytes(amount.raw@[1])
        + spec_u64_to_le_bytes(amount.raw@[2]) + spec_u64_to_le_bytes(amount.raw@[3])
        + seq![amount.denom]
}

/// The bytes of a text that may be missing: whether it is there, its length in bytes,
/// least significant byte first, and its bytes.
pub open spec fn key_bytes(key: Option<Seq<char>>) -> Seq<u8> {
    match key {
        None => seq![0u8],
        Some(text) => seq![1u8] + spec_u32_to_le_bytes(encode_utf8(text).len() as u32)
            + encode_utf8(text),
    }
}

/// The bytes of a hash that may be missing: whether it is there, and its bytes.
pub open spec fn shielded_bytes(shielded: Option<Seq<u8>>) -> Seq<u8> {
    match shielded {
        None => seq![0u8],
        Some(hash) => seq![1u8] + hash,
    }
}

impl TransferView {
    /// The length of the text is one that its encoding can hold, and the hash is one.
    pub open spec fn wf(self) -> bool {
        &&& self.key matches Some(text) ==> encode_utf8(text).len() <= u32::MAX
        &&& self.shielded matches Some(hash) ==> hash.len() == 32
    }

    /// The transfer as the ledger reads it: one field after the other.
    pub open spec fn bytes(self) -> Seq<u8> {
        address_bytes(self.source) + address_bytes(self.target) + address_bytes(self.token)
            + amount_bytes(self.amount) + key_bytes(self.key) + shielded_bytes(self.shielded)
    }
}

/// A transaction that transfers tokens, before it is signed.
pub struct Transfer<A> {
    /// What all kinds of transactions need.
    pub args: A,
    /// The transfer, as the ledger reads it.
    pub data: Vec<u8>,
    /// The tag of the code that carries it out.
    pub code_tag: String,
}

fn append(to: &mut Vec<u8>, bytes: &[u8])
    ensures
        final(to)@ == old(to)@ + bytes@,
{
    let ghost before = to@;
    for i in 0..bytes.len()
        invariant
            to@ == before + bytes@.take(i as int),
            before == old(to)@,
    {
        assert(bytes@.take(i + 1) == bytes@.take(i as int).push(bytes@[i as int]));
        to.push(bytes[i]);
    }
    assert(bytes@.take(bytes@.len() as int) == bytes@);
}

fn append_internal_address(to: &mut Vec<u8>, address: &InternalAddress)
    ensures
        final(to)@ == old(to)@ + internal_address_bytes(*address),
{
    match address {
        InternalAddress::PoS => to.push(0),
        InternalAddress::PosSlashPool => to.push(1),
        InternalAddress::Parameters => to.push(2),
        InternalAddress::Ibc => to.push(3),
        InternalAddress::IbcToken(hash) => {
            to.push(4);
            append(to, &hash.bytes);
        },
        InternalAddress::Governance => to.push(5),
        InternalAddress::EthBridge => to.push(6),
        InternalAddress::EthBridgePool => to.push(7),
        InternalAddress::Erc20(eth) => {
            to.push(8);
            append(to, &eth.bytes);
        },
        InternalAddress::Nut(eth) => {
            to.push(9);
            append(to, &eth.bytes);
        },
        InternalAddress::Multitoken => to.push(10),
        InternalAddress::Pgf => to.push(11),
        InternalAddress::Masp => to.push(12),
    }
    assert(to@ == old(to)@ + internal_address_bytes(*address));
}

fn append_address(to: &mut Vec<u8>, address: &Address)
    ensures
        final(to)@ == old(to)@ + address_bytes(*address),
{
    match address {
        Address::Established(hash) => {
            to.push(0);
            append(to, &hash.bytes);
        },
        Address::Implicit(hash) => {
            to.push(1);
            append(to, &hash.bytes);
        },
        Address::Internal(internal) => {
            to.push(2);
            append_internal_address(to, internal);
        },
    }
    assert(to@ == old(to)@ + address_bytes(*address));
}

fn append_amount(to: &mut Vec<u8>, amount: &DenominatedAmount)
    ensures
        final(to)@ == old(to)@ + amount_bytes(*amount),
{
    append(to, u64_to_le_bytes(amount.raw[0]).as_slice());
    append(to, u64_to_le_bytes(amount.raw[1]).as_slice());
    append(to, u64_to_le_bytes(amount.raw[2]).as_slice());
    append(to, u64_to_le_bytes(amount.raw[3]).as_slice());
    to.push(amount.denom);
    assert(to@ == old(to)@ + amount_bytes(*amount));
}

/// What an optional text holds.
pub open spec fn key_view(key: Option<String>) -> Option<Seq<char>> {
    match key {
        Some(text) => Some(text@),
        None => None,
    }
}

/// What an optional hash holds.
pub open spec fn shielded_view(shielded: Option<[u8; 32]>) -> Option<Seq<u8>> {
    match shielded {
        Some(hash) => Some(hash@),
        None => None,
    }
}

fn append_key(to: &mut Vec<u8>, key: &Option<String>)
    requires
        *key matches Some(text) ==> encode_utf8(text@).len() <= u32::MAX,
    ensures
        final(to)@ == old(to)@ + key_bytes(key_view(*key)),
{
    match key {
        None => to.push(0),
        Some(text) => {
            let bytes = text.as_str().as_bytes();
            to.push(1);
            append(to, u32_to_le_bytes(bytes.len() as u32).as_slice());
            append(to, bytes);
        },
    }
    assert(to@ == old(to)@ + key_bytes(key_view(*key)));
}

fn append_shielded(to: &mut Vec<u8>, shielded: &Option<[u8; 32]>)
    ensures
        final(to)@ == old(to)@ + shielded_bytes(shielded_view(*shielded)),
{
    match shielded {
        None => to.push(0),
        Some(hash) => {
            to.push(1);
            append(to, hash);
        },
    }
    assert(to@ == old(to)@ + shielded_bytes(shielded_view(*shielded)));
}

impl<A> Transfer<A> {
    /// Build a raw Transfer transaction from the given parameters
    pub fn new(
        source: Address,
        target: Address,
        token: Address,
        amount: DenominatedAmount,
        key: Option<String>,
        shielded: Option<[u8; 32]>,
        args: A,
    ) -> (r: Transfer<A>)
        requires
            key matches Some(text) ==> encode_utf8(text@).len() <= u32::MAX,
        ensures
            r.args == args,
            r.data@ == (TransferView {
                source,
                target,
                token,
                amount,
                key: key_view(key),
                shielded: shielded_view(shielded),
            }).bytes(),
            r.code_tag@ == TX_TRANSFER_WASM@,
    {
        let mut data: Vec<u8> = Vec::new();
        append_address(&mut data, &source);
        append_address(&mut data, &target);
        append_address(&mut data, &token);
        append_amount(&mut data, &amount);
        append_key(&mut data, &key);
        append_shielded(&mut data, &shielded);
        Transfer { args, data, code_tag: TX_TRANSFER_WASM.to_owned() }
    }
}

proof fn lemma_split(a1: Seq<u8>, b1: Seq<u8>, a2: Seq<u8>, b2: Seq<u8>)
    requires
        a1 + b1 == a2 + b2,
        a1.len() == a2.len(),
    ensures
        a1 == a2,
        b1 == b2,
{
    assert(a1 == (a1 + b1).take(a1.len() as int));
    assert(a2 == (a2 + b2).take(a2.len() as int));
    assert(b1 == (a1 + b1).skip(a1.len() as int));
    assert(b2 == (a2 + b2).skip(a2.len() as int));
}

proof fn lemma_tagged(tag: u8, a: Seq<u8>, rest: Seq<u8>)
    ensures
        (seq![tag] + a + rest)[0] == tag,
        (seq![tag] + a + rest).skip(1) == a + rest,
{
}

proof fn lemma_internal_address_read_back(
    a1: InternalAddress,
    rest1: Seq<u8>,
    a2: InternalAddress,
    rest2: Seq<u8>,
)
    requires
        internal_address_bytes(a1) + rest1 == internal_address_bytes(a2) + rest2,
    ensures
        a1 == a2,
        rest1 == rest2,
{
    let (b1, b2) = (internal_address_bytes(a1), internal_address_bytes(a2));
    assert((b1 + rest1)[0] == b1[0]);
    assert((b2 + rest2)[0] == b2[0]);
    assert(b1[0] == b2[0]);
    assert(b1.len() == b2.len());
    lemma_split(b1, rest1, b2, rest2);
    match (a1, a2) {
        (InternalAddress::IbcToken(h1), InternalAddress::IbcToken(h2)) => {
            lemma_split(seq![4u8], h1.bytes@, seq![4u8], h2.bytes@);
            assert(h1.bytes =~= h2.bytes);
        },
        (InternalAddress::Erc20(h1), InternalAddress::Erc20(h2)) => {
            lemma_split(seq![8u8], h1.bytes@, seq![8u8], h2.bytes@);
            assert(h1.bytes =~= h2.bytes);
        },
        (InternalAddress::Nut(h1), InternalAddress::Nut(h2)) => {
            lemma_split(seq![9u8], h1.bytes@, seq![9u8], h2.bytes@);
            assert(h1.bytes =~= h2.bytes);
        },
        _ => {},
    }
}

proof fn lemma_address_read_back(a1: Address, rest1: Seq<u8>, a2: Address, rest2: Seq<u8>)
    requires
        address_bytes(a1) + rest1 == address_bytes(a2) + rest2,
    ensures
        a1 == a2,
        rest1 == rest2,
{
    let (b1, b2) = (address_bytes(a1), address_bytes(a2));
    assert((b1 + rest1)[0] == b1[0]);
    assert((b2 + rest2)[0] == b2[0]);
    assert(b1[0] == b2[0]);
    match (a1, a2) {
        (Address::Established(h1), Address::Established(h2)) => {
            lemma_split(b1, rest1, b2, rest2);
            lemma_split(seq![0u8], h1.bytes@, seq![0u8], h2.bytes@);
            assert(h1.bytes =~= h2.bytes);
        },
        (Address::Implicit(h1), Address::Implicit(h2)) => {
            lemma_split(b1, rest1, b2, rest2);
            lemma_split(seq![1u8], h1.bytes@, seq![1u8], h2.bytes@);
            assert(h1.bytes =~= h2.bytes);
        },
        (Address::Internal(i1), Address::Internal(i2)) => {
            lemma_tagged(2, internal_address_bytes(i1), rest1);
            lemma_tagged(2, internal_address_bytes(i2), rest2);
            lemma_internal_address_read_back(i1, rest1, i2, rest2);
        },
        _ => {},
    }
}

proof fn lemma_amount_read_back(
    a1: DenominatedAmount,
    rest1: Seq<u8>,
    a2: DenominatedAmount,
    rest2: Seq<u8>,
)
    requires
        amount_bytes(a1) + rest1 == amount_bytes(a2) + rest2,
    ensures
        a1 == a2,
        rest1 == rest2,
{
    lemma_auto_spec_u64_to_from_le_bytes();
    let (b1, b2) = (amount_bytes(a1), amount_bytes(a2));
    assert(b1.len() == 33 && b2.len() == 33);
    lemma_split(b1, rest1, b2, rest2);
    assert(a1.denom == b1[32] && a2.denom == b2[32]);
    assert forall|i: int| 0 <= i < 4 implies a1.raw@[i] == a2.raw@[i] by {
        assert(spec_u64_to_le_bytes(a1.raw@[i]) == b1.subrange(8 * i, 8 * i + 8));
        assert(spec_u64_to_le_bytes(a2.raw@[i]) == b2.subrange(8 * i, 8 * i + 8));
    }
    assert(a1.raw =~= a2.raw);
}

proof fn lemma_key_read_back(
    k1: Option<Seq<char>>,
    rest1: Seq<u8>,
    k2: Option<Seq<char>>,
    rest2: Seq<u8>,
)
    requires
        key_bytes(k1) + rest1 == key_bytes(k2) + rest2,
        k1 matches Some(text) ==> encode_utf8(text).len() <= u32::MAX,
        k2 matches Some(text) ==> encode_utf8(text).len() <= u32::MAX,
    ensures
        k1 == k2,
        rest1 == rest2,
{
    lemma_auto_spec_u32_to_from_le_bytes();
    let (b1, b2) = (key_bytes(k1), key_bytes(k2));
    assert((b1 + rest1)[0] == b1[0]);
    assert((b2 + rest2)[0] == b2[0]);
    assert(b1[0] == b2[0]);
    match (k1, k2) {
        (Some(t1), Some(t2)) => {
            let (u1, u2) = (encode_utf8(t1), encode_utf8(t2));
            let (n1, n2) = (
                spec_u32_to_le_bytes(u1.len() as u32),
                spec_u32_to_le_bytes(u2.len() as u32),
            );
            assert(b1 + rest1 == (seq![1u8] + n1) + (u1 + rest1));
            assert(b2 + rest2 == (seq![1u8] + n2) + (u2 + rest2));
            lemma_split(seq![1u8] + n1, u1 + rest1, seq![1u8] + n2, u2 + rest2);
            lemma_split(seq![1u8], n1, seq![1u8], n2);
            assert(u1.len() == u2.len());
            lemma_split(u1, rest1, u2, rest2);
            vstd::utf8::encode_utf8_decode_utf8(t1);
            vstd::utf8::encode_utf8_decode_utf8(t2);
        },
        _ => {
            lemma_split(b1, rest1, b2, rest2);
        },
    }
}

proof fn lemma_shielded_read_back(h1: Option<Seq<u8>>, h2: Option<Seq<u8>>)
    requires
        shielded_bytes(h1) == shielded_bytes(h2),
    ensures
        h1 == h2,
{
    assert(shielded_bytes(h1)[0] == shielded_bytes(h2)[0]);
    match (h1, h2) {
        (Some(b1), Some(b2)) => {
            lemma_split(seq![1u8], b1, seq![1u8], b2);
        },
        (None, Some(b)) => {
            assert((seq![1u8] + b)[0] == 1);
        },
        (Some(b), None) => {
            assert((seq![1u8] + b)[0] == 1);
        },
        (None, None) => {},
    }
}

proof fn lemma_regroup(
    a: Seq<u8>,
    b: Seq<u8>,
    c: Seq<u8>,
    d: Seq<u8>,
    e: Seq<u8>,
    f: Seq<u8>,
)
    ensures
        a + b + c + d + e + f == a + (b + (c + (d + (e + f)))),
{
    assert(d + e + f == d + (e + f));
    assert(a + b + c + d + e + f == a + b + c + (d + e + f));
    assert(a + b + c + (d + e + f) == a + (b + (c + (d + e + f))));
}

/// The ledger can read a transfer back from its bytes: two transfers that are not the
/// same do not have the same bytes.
pub proof fn law_transfer_read_back(t1: TransferView, t2: TransferView)
    requires
        t1.wf(),
        t2.wf(),
        t1.bytes() == t2.bytes(),
    ensures
        t1 == t2,
{
    let (s1, s2) = (shielded_bytes(t1.shielded), shielded_bytes(t2.shielded));
    let (k1, k2) = (key_bytes(t1.key) + s1, key_bytes(t2.key) + s2);
    let (a1, a2) = (amount_bytes(t1.amount) + k1, amount_bytes(t2.amount) + k2);
    let (o1, o2) = (address_bytes(t1.token) + a1, address_bytes(t2.token) + a2);
    let (g1, g2) = (address_bytes(t1.target) + o1, address_bytes(t2.target) + o2);
    lemma_regroup(
        address_bytes(t1.source),
        address_bytes(t1.target),
        address_bytes(t1.token),
        amount_bytes(t1.amount),
        key_bytes(t1.key),
        s1,
    );
    lemma_regroup(
        address_bytes(t2.source),
        address_bytes(t2.target),
        address_bytes(t2.token),
        amount_bytes(t2.amount),
        key_bytes(t2.key),
        s2,
    );
    lemma_address_read_back(t1.source, g1, t2.source, g2);
    lemma_address_read_back(t1.target, o1, t2.target, o2);
    lemma_address_read_back(t1.token, a1, t2.token, a2);
    lemma_amount_read_back(t1.amount, k1, t2.amount, k2);
    lemma_key_read_back(t1.key, s1, t2.key, s2);
    lemma_shielded_read_back(t1.shielded, t2.shielded);
}

/// The array of 20 bytes that holds the given bytes.
pub open spec fn hash_of(bytes: Seq<u8>) -> [u8; 20] {
    choose|hash: [u8; 20]| hash@ == bytes
}

/// The array of four numbers that holds the given numbers.
pub open spec fn raw_of(parts: Seq<u64>) -> [u64; 4] {
    choose|raw: [u64; 4]| raw@ == parts
}

/// What is read from bytes, and how many bytes it took.
pub struct Read<T> {
    pub value: T,
    pub len: int,
}

/// Reads an internal address: the first byte is the place of the variant in the list of
/// internal addresses, and a variant that holds a hash has its 20 bytes next.
pub open spec fn read_internal_address(bytes: Seq<u8>) -> Read<InternalAddress> {
    let hash = hash_of(bytes.subrange(1, 21));
    if bytes[0] == 0 {
        Read { value: InternalAddress::PoS, len: 1 }
    } else if bytes[0] == 1 {
        Read { value: InternalAddress::PosSlashPool, len: 1 }
    } else if bytes[0] == 2 {
        Read { value: InternalAddress::Parameters, len: 1 }
    } else if bytes[0] == 3 {
        Read { value: InternalAddress::Ibc, len: 1 }
    } else if bytes[0] == 4 {
        Read { value: InternalAddress::IbcToken(Hash20 { bytes: hash }), len: 21 }
    } else if bytes[0] == 5 {
        Read { value: InternalAddress::Governance, len: 1 }
    } else if bytes[0] == 6 {
        Read { value: InternalAddress::EthBridge, len: 1 }
    } else if bytes[0] == 7 {
        Read { value: InternalAddress::EthBridgePool, len: 1 }
    } else if bytes[0] == 8 {
        Read { value: InternalAddress::Erc20(EthAddress { bytes: hash }), len: 21 }
    } else if bytes[0] == 9 {
        Read { value: InternalAddress::Nut(EthAddress { bytes: hash }), len: 21 }
    } else if bytes[0] == 10 {
        Read { value: InternalAddress::Multitoken, len: 1 }
    } else if bytes[0] == 11 {
        Read { value: InternalAddress::Pgf, len: 1 }
    } else {
        Read { value: InternalAddress::Masp, len: 1 }
    }
}

/// Reads an address: the first byte says whether it is established, implicit or internal.
pub open spec fn read_address(bytes: Seq<u8>) -> Read<Address> {
    let hash = Hash20 { bytes: hash_of(bytes.subrange(1, 21)) };
    if bytes[0] == 0 {
        Read { value: Address::Established(hash), len: 21 }
    } else if bytes[0] == 1 {
        Read { value: Address::Implicit(hash), len: 21 }
    } else {
        let internal = read_internal_address(bytes.skip(1));
        Read { value: Address::Internal(internal.value), len: 1 + internal.len }
    }
}

/// Reads an amount: four numbers of eight bytes, and the number of decimal places.
pub open spec fn read_amount(bytes: Seq<u8>) -> Read<DenominatedAmount> {
    let raw = raw_of(
        Seq::new(4, |i: int| spec_u64_from_le_bytes(bytes.subrange(8 * i, 8 * i + 8))),
    );
    Read { value: DenominatedAmount { raw, denom: bytes[32] }, len: 33 }
}

/// Reads a text that may be missing: the byte zero stands for none, and one for a text of
/// as many bytes as the number in the next four bytes says.
pub open spec fn read_key(bytes: Seq<u8>) -> Read<Option<Seq<char>>> {
    if bytes[0] == 0 {
        Read { value: None, len: 1 }
    } else {
        let n = spec_u32_from_le_bytes(bytes.subrange(1, 5)) as int;
        Read { value: Some(decode_utf8(bytes.subrange(5, 5 + n))), len: 5 + n }
    }
}

/// Reads a hash that may be missing: the byte zero stands for none, and one for a hash.
pub open spec fn read_shielded(bytes: Seq<u8>) -> Read<Option<Seq<u8>>> {
    if bytes[0] == 0 {
        Read { value: None, len: 1 }
    } else {
        Read { value: Some(bytes.subrange(1, 33)), len: 33 }
    }
}

/// Reads a transfer as the ledger does: source, target, token, amount, key and shielded
/// hash, each from where the one before it ended.
pub open spec fn read_transfer(bytes: Seq<u8>) -> Read<TransferView> {
    let source = read_address(bytes);
    let after_source = bytes.skip(source.len);
    let target = read_address(after_source);
    let after_target = after_source.skip(target.len);
    let token = read_address(after_target);
    let after_token = after_target.skip(token.len);
    let amount = read_amount(after_token);
    let after_amount = after_token.skip(amount.len);
    let key = read_key(after_amount);
    let after_key = after_amount.skip(key.len);
    let shielded = read_shielded(after_key);
    Read {
        value: TransferView {
            source: source.value,
            target: target.value,
            token: token.value,
            amount: amount.value,
            key: key.value,
            shielded: shielded.value,
        },
        len: source.len + target.len + token.len + amount.len + key.len + shielded.len,
    }
}

proof fn lemma_hash_of(hash: [u8; 20])
    ensures
        hash_of(hash@) == hash,
{
    assert(hash_of(hash@) =~= hash);
}

proof fn lemma_internal_address_is_read(address: InternalAddress, rest: Seq<u8>)
    ensures
        read_internal_address(internal_address_bytes(address) + rest) == (Read {
            value: address,
            len: internal_address_bytes(address).len() as int,
        }),
{
    let bytes = internal_address_bytes(address) + rest;
    match address {
        InternalAddress::IbcToken(hash) => {
            lemma_hash_of(hash.bytes);
            assert(bytes.subrange(1, 21) == hash.bytes@);
        },
        InternalAddress::Erc20(eth) => {
            lemma_hash_of(eth.bytes);
            assert(bytes.subrange(1, 21) == eth.bytes@);
        },
        InternalAddress::Nut(eth) => {
            lemma_hash_of(eth.bytes);
            assert(bytes.subrange(1, 21) == eth.bytes@);
        },
        _ => {},
    }
}

proof fn lemma_address_is_read(address: Address, rest: Seq<u8>)
    ensures
        read_address(address_bytes(address) + rest) == (Read {
            value: address,
            len: address_bytes(address).len() as int,
        }),
{
    let bytes = address_bytes(address) + rest;
    match address {
        Address::Established(hash) => {
            lemma_hash_of(hash.bytes);
            assert(bytes.subrange(1, 21) == hash.bytes@);
        },
        Address::Implicit(hash) => {
            lemma_hash_of(hash.bytes);
            assert(bytes.subrange(1, 21) == hash.bytes@);
        },
        Address::Internal(internal) => {
            lemma_internal_address_is_read(internal, rest);
            assert(bytes.skip(1) == internal_address_bytes(internal) + rest);
        },
    }
}

proof fn lemma_amount_is_read(amount: DenominatedAmount, rest: Seq<u8>)
    ensures
        read_amount(amount_bytes(amount) + rest) == (Read { value: amount, len: 33 }),
        amount_bytes(amount).len() == 33,
{
    lemma_auto_spec_u64_to_from_le_bytes();
    let bytes = amount_bytes(amount) + rest;
    let parts = Seq::new(4, |i: int| spec_u64_from_le_bytes(bytes.subrange(8 * i, 8 * i + 8)));
    assert forall|i: int| 0 <= i < 4 implies parts[i] == amount.raw@[i] by {
        assert(bytes.subrange(8 * i, 8 * i + 8) == spec_u64_to_le_bytes(amount.raw@[i]));
    }
    assert(parts == amount.raw@);
    assert(raw_of(parts) =~= amount.raw);
}

proof fn lemma_key_is_read(key: Option<Seq<char>>, rest: Seq<u8>)
    requires
        key matches Some(text) ==> encode_utf8(text).len() <= u32::MAX,
    ensures
        read_key(key_bytes(key) + rest) == (Read { value: key, len: key_bytes(key).len() as int }),
{
    lemma_auto_spec_u32_to_from_le_bytes();
    let bytes = key_bytes(key) + rest;
    if let Some(text) = key {
        let utf8 = encode_utf8(text);
        assert(bytes.subrange(1, 5) == spec_u32_to_le_bytes(utf8.len() as u32));
        assert(bytes.subrange(5, 5 + utf8.len() as int) == utf8);
        vstd::utf8::encode_utf8_decode_utf8(text);
    }
}

/// The ledger reads back what a transfer says: field by field, from the bytes of the
/// transfer and whatever comes after them, it gets the same source, target, token,
/// amount, key and shielded hash.
pub proof fn law_transfer_is_read_field_by_field(t: TransferView, rest: Seq<u8>)
    requires
        t.wf(),
    ensures
        read_transfer(t.bytes() + rest) == (Read { value: t, len: t.bytes().len() as int }),
{
    let bytes = t.bytes() + rest;
    let (a, b, c, d, e, f) = (
        address_bytes(t.source),
        address_bytes(t.target),
        address_bytes(t.token),
        amount_bytes(t.amount),
        key_bytes(t.key),
        shielded_bytes(t.shielded),
    );
    lemma_regroup(a, b, c, d, e, f);
    let after_key = f + rest;
    let after_amount = e + after_key;
    let after_token = d + after_amount;
    let after_target = c + after_token;
    let after_source = b + after_target;
    assert(bytes == a + after_source);
    lemma_address_is_read(t.source, after_source);
    assert(bytes.skip(a.len() as int) == after_source);
    lemma_address_is_read(t.target, after_target);
    assert(after_source.skip(b.len() as int) == after_target);
    lemma_address_is_read(t.token, after_token);
    assert(after_target.skip(c.len() as int) == after_token);
    lemma_amount_is_read(t.amount, after_amount);
    assert(after_token.skip(d.len() as int) == after_amount);
    lemma_key_is_read(t.key, after_key);
    assert(after_amount.skip(e.len() as int) == after_key);
    if let Some(hash) = t.shielded {
        assert(after_key.subrange(1, 33) == hash);
    }
}

/// The fields of a transfer stand one after the other: the source, directly followed by
/// the target, the token, the amount, the key and the shielded hash, and nothing else.
pub proof fn law_transfer_layout(t: TransferView)
    ensures
        ({
            let source = address_bytes(t.source);
            let target = address_bytes(t.target);
            let token = address_bytes(t.token);
            let amount = amount_bytes(t.amount);
            let key = key_bytes(t.key);
            let shielded = shielded_bytes(t.shielded);
            let bytes = t.bytes();
            &&& source.is_prefix_of(bytes)
            &&& (source + target).is_prefix_of(bytes)
            &&& (source + target + token).is_prefix_of(bytes)
            &&& (source + target + token + amount).is_prefix_of(bytes)
            &&& (source + target + token + amount + key).is_prefix_of(bytes)
            &&& bytes.len() == source.len() + target.len() + token.len() + amount.len() + key.len()
                + shielded.len()
            &&& bytes.skip(bytes.len() - shielded.len()) == shielded
        }),
{
    let bytes = t.bytes();
    let shielded = shielded_bytes(t.shielded);
    assert(bytes.skip(bytes.len() - shielded.len()) == shielded);
}

/// How an address is laid out: the place of its variant comes first, then what it holds.
pub proof fn law_address_layout(hash: Hash20, eth: EthAddress)
    ensures
        address_bytes(Address::Established(hash)) == seq![0u8] + hash.bytes@,
        address_bytes(Address::Implicit(hash)) == seq![1u8] + hash.bytes@,
        address_bytes(Address::Internal(InternalAddress::PoS)) == seq![2u8, 0u8],
        address_bytes(Address::Internal(InternalAddress::PosSlashPool)) == seq![2u8, 1u8],
        address_bytes(Address::Internal(InternalAddress::Parameters)) == seq![2u8, 2u8],
        address_bytes(Address::Internal(InternalAddress::Ibc)) == seq![2u8, 3u8],
        address_bytes(Address::Internal(InternalAddress::IbcToken(hash))) == seq![2u8, 4u8]
            + hash.bytes@,
        address_bytes(Address::Internal(InternalAddress::Governance)) == seq![2u8, 5u8],
        address_bytes(Address::Internal(InternalAddress::EthBridge)) == seq![2u8, 6u8],
        address_bytes(Address::Internal(InternalAddress::EthBridgePool)) == seq![2u8, 7u8],
        address_bytes(Address::Internal(InternalAddress::Erc20(eth))) == seq![2u8, 8u8] + eth.bytes@,
        address_bytes(Address::Internal(InternalAddress::Nut(eth))) == seq![2u8, 9u8] + eth.bytes@,
        address_bytes(Address::Internal(InternalAddress::Multitoken)) == seq![2u8, 10u8],
        address_bytes(Address::Internal(InternalAddress::Pgf)) == seq![2u8, 11u8],
        address_bytes(Address::Internal(InternalAddress::Masp)) == seq![2u8, 12u8],
{
}

/// How the other fields are laid out: numbers begin with their least significant byte,
/// what may be missing begins with a byte that says whether it is there, and a text has
/// the number of its bytes before them.
pub proof fn law_field_layout(
    amount: DenominatedAmount,
    part: int,
    text: String,
    hash: [u8; 32],
)
    requires
        0 <= part < 4,
    ensures
        amount_bytes(amount).len() == 33,
        amount_bytes(amount).subrange(8 * part, 8 * part + 8) == spec_u64_to_le_bytes(
            amount.raw@[part],
        ),
        amount_bytes(amount)[32] == amount.denom,
        key_bytes(key_view(None)) == seq![0u8],
        key_bytes(key_view(Some(text))) == seq![1u8] + spec_u32_to_le_bytes(
            encode_utf8(text@).len() as u32,
        ) + encode_utf8(text@),
        shielded_bytes(shielded_view(None)) == seq![0u8],
        shielded_bytes(shielded_view(Some(hash))) == seq![1u8] + hash@,
        TX_TRANSFER_WASM@ == "tx_transfer.wasm"@,
{
    lemma_auto_spec_u64_to_from_le_bytes();
    assert(amount_bytes(amount).subrange(8 * part, 8 * part + 8) == spec_u64_to_le_bytes(
        amount.raw@[part],
    ));
}

} // verus!
