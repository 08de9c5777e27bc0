//! Storage keys of transparent tokens.

use vstd::prelude::*;

use crate::address::{Address, InternalAddress};
use crate::storage::{is_segment_text, DbKeySeg, Key, SegView};
use crate::text::{same_text, starts_with};

verus! {

/// Key segment for a balance key
pub const BALANCE_STORAGE_KEY: &'static str = "balance";

/// Key segment for a denomination key
pub const DENOM_STORAGE_KEY: &'static str = "denomination";

/// Key segment for multitoken minter
pub const MINTER_STORAGE_KEY: &'static str = "minter";

/// Key segment for minted balance
pub const MINTED_STORAGE_KEY: &'static str = "minted";

/// Key segment for head shielded transaction pointer keys
pub const HEAD_TX_KEY: &'static str = "head-tx";

/// Key segment prefix for shielded transaction key
pub const TX_KEY_PREFIX: &'static str = "tx-";

/// Key segment prefix for pinned shielded transactions
pub const PIN_KEY_PREFIX: &'static str = "pin-";

/// Key segment prefix for the nullifiers
pub const MASP_NULLIFIERS_KEY_PREFIX: &'static str = "nullifiers";

/// Last calculated inflation value handed out
pub const MASP_LAST_INFLATION_KEY: &'static str = "last_inflation";

/// The last locked ratio
pub const MASP_LAST_LOCKED_RATIO_KEY: &'static str = "last_locked_ratio";

/// The key for the nominal proportional gain of a shielded pool for a given asset
pub const MASP_KP_GAIN_KEY: &'static str = "proportional_gain";

/// The key for the nominal derivative gain of a shielded pool for a given asset
pub const MASP_KD_GAIN_KEY: &'static str = "derivative_gain";

/// The key for the locked ratio target for a given asset
pub const MASP_LOCKED_RATIO_TARGET_KEY: &'static str = "locked_ratio_target";

/// The key for the max reward rate for a given asset
pub const MASP_MAX_REWARD_RATE_KEY: &'static str = "max_reward_rate";

/// The address under which the balances of all tokens are kept.
pub open spec fn multitoken() -> Address {
    Address::Internal(InternalAddress::Multitoken)
}

/// The address of the shielded pool.
pub open spec fn masp() -> Address {
    Address::Internal(InternalAddress::Masp)
}

/// The path of a value that is kept under the address of its token.
pub open spec fn token_path(token: Address, name: Seq<char>) -> Seq<SegView> {
    seq![SegView::AddressSeg(token), SegView::StringSeg(name)]
}

/// The path under which the balances of a token are kept.
pub open spec fn balances_path(token: Address) -> Seq<SegView> {
    seq![
        SegView::AddressSeg(multitoken()),
        SegView::AddressSeg(token),
        SegView::StringSeg(BALANCE_STORAGE_KEY@),
    ]
}

/// The path of the balance of an owner.
pub open spec fn balance_path(token: Address, owner: Address) -> Seq<SegView> {
    balances_path(token).push(SegView::AddressSeg(owner))
}

/// The path of the total supply of a token.
pub open spec fn minted_path(token: Address) -> Seq<SegView> {
    balances_path(token).push(SegView::StringSeg(MINTED_STORAGE_KEY@))
}

/// The path of the minter of a token.
pub open spec fn minter_path(token: Address) -> Seq<SegView> {
    seq![
        SegView::AddressSeg(multitoken()),
        SegView::AddressSeg(token),
        SegView::StringSeg(MINTER_STORAGE_KEY@),
    ]
}

/// A path from an address to a last segment that is the name of denominations.
pub open spec fn is_denom_path(token: Address, path: Seq<SegView>) -> bool {
    &&& path.len() >= 2
    &&& path.first() == SegView::AddressSeg(token)
    &&& path.last() == SegView::StringSeg(DENOM_STORAGE_KEY@)
}

/// A path into the part of the storage that the shielded pool keeps its
/// transactions in.
pub open spec fn is_masp_path(path: Seq<SegView>) -> bool {
    &&& path.len() >= 2
    &&& path[0] == SegView::AddressSeg(masp())
    &&& path[1] matches SegView::StringSeg(name) && {
        ||| name == HEAD_TX_KEY@
        ||| TX_KEY_PREFIX@.is_prefix_of(name)
        ||| PIN_KEY_PREFIX@.is_prefix_of(name)
        ||| MASP_NULLIFIERS_KEY_PREFIX@.is_prefix_of(name)
    }
}

/// A path to the nullifiers of the shielded pool.
pub open spec fn is_masp_nullifier_path(path: Seq<SegView>) -> bool {
    &&& path.len() >= 2
    &&& path[0] == SegView::AddressSeg(masp())
    &&& path[1] == SegView::StringSeg(MASP_NULLIFIERS_KEY_PREFIX@)
}

proof fn lemma_names_are_segments()
    ensures
        is_segment_text(BALANCE_STORAGE_KEY@),
        is_segment_text(DENOM_STORAGE_KEY@),
        is_segment_text(MINTER_STORAGE_KEY@),
        is_segment_text(MINTED_STORAGE_KEY@),
        is_segment_text(MASP_LAST_INFLATION_KEY@),
        is_segment_text(MASP_LAST_LOCKED_RATIO_KEY@),
        is_segment_text(MASP_KP_GAIN_KEY@),
        is_segment_text(MASP_KD_GAIN_KEY@),
        is_segment_text(MASP_LOCKED_RATIO_TARGET_KEY@),
        is_segment_text(MASP_MAX_REWARD_RATE_KEY@),
{
    reveal_strlit("balance");
    reveal_strlit("denomination");
    reveal_strlit("minter");
    reveal_strlit("minted");
    reveal_strlit("last_inflation");
    reveal_strlit("last_locked_ratio");
    reveal_strlit("proportional_gain");
    reveal_strlit("derivative_gain");
    reveal_strlit("locked_ratio_target");
    reveal_strlit("max_reward_rate");
}

proof fn lemma_balance_path_parts(token: Address, owner: Address)
    ensures
        balance_path(token, owner).len() == 4,
        balance_path(token, owner)[0] == SegView::AddressSeg(multitoken()),
        balance_path(token, owner)[1] == SegView::AddressSeg(token),
        balance_path(token, owner)[2] == SegView::StringSeg(BALANCE_STORAGE_KEY@),
        balance_path(token, owner)[3] == SegView::AddressSeg(owner),
{
}

fn text_segment(text: &str) -> (r: DbKeySeg)
    ensures
        r@ == SegView::StringSeg(text@),
{
    DbKeySeg::StringSeg(text.to_owned())
}

/// Gets the key for the given token address. The text `specific_key` must be one
/// that a key can hold as it is: text with a separator in it is no single segment, and
/// text marked as an address stands for an address. Otherwise the call panics with the
/// given message.
pub fn key_of_token(token_addr: &Address, specific_key: &str, expect_message: &str) -> (r: Key)
    requires
        is_segment_text(specific_key@),
    ensures
        r@ == token_path(*token_addr, specific_key@),
        r@ =~= seq![SegView::AddressSeg(*token_addr), SegView::StringSeg(specific_key@)],
{
    let key = Key::from_segment(token_addr.to_db_key()).push(text_segment(specific_key)).expect(
        expect_message,
    );
    assert(key@ == token_path(*token_addr, specific_key@));
    key
}

/// Obtain a storage key for user's balance.
pub fn balance_key(token_addr: &Address, owner: &Address) -> (r: Key)
    ensures
        r@ == balance_path(*token_addr, *owner),
        r@ =~= seq![
            SegView::AddressSeg(Address::Internal(InternalAddress::Multitoken)),
            SegView::AddressSeg(*token_addr),
            SegView::StringSeg("balance"@),
            SegView::AddressSeg(*owner),
        ],
{
    balance_prefix(token_addr).push(owner.to_db_key()).expect("Cannot obtain a storage key")
}

/// Obtain a storage key prefix for all users' balances.
pub fn balance_prefix(token_addr: &Address) -> (r: Key)
    ensures
        r@ == balances_path(*token_addr),
        r@ =~= seq![
            SegView::AddressSeg(Address::Internal(InternalAddress::Multitoken)),
            SegView::AddressSeg(*token_addr),
            SegView::StringSeg("balance"@),
        ],
{
    proof {
        lemma_names_are_segments();
    }
    let key = Key::from_segment(Address::Internal(InternalAddress::Multitoken).to_db_key()).push(
        token_addr.to_db_key(),
    ).expect("Cannot obtain a storage key").push(text_segment(BALANCE_STORAGE_KEY)).expect(
        "Cannot obtain a storage key",
    );
    assert(key@ == balances_path(*token_addr));
    key
}

/// Obtain a storage key for the multitoken minter.
pub fn minter_key(token_addr: &Address) -> (r: Key)
    ensures
        r@ == minter_path(*token_addr),
        r@ =~= seq![
            SegView::AddressSeg(Address::Internal(InternalAddress::Multitoken)),
            SegView::AddressSeg(*token_addr),
            SegView::StringSeg("minter"@),
        ],
{
    proof {
        lemma_names_are_segments();
    }
    let key = Key::from_segment(Address::Internal(InternalAddress::Multitoken).to_db_key()).push(
        token_addr.to_db_key(),
    ).expect("Cannot obtain a storage key").push(text_segment(MINTER_STORAGE_KEY)).expect(
        "Cannot obtain a storage key",
    );
    assert(key@ == minter_path(*token_addr));
    key
}

/// Obtain a storage key for the minted multitoken balance.
pub fn minted_balance_key(token_addr: &Address) -> (r: Key)
    ensures
        r@ == minted_path(*token_addr),
        r@ =~= seq![
            SegView::AddressSeg(Address::Internal(InternalAddress::Multitoken)),
            SegView::AddressSeg(*token_addr),
            SegView::StringSeg("balance"@),
            SegView::StringSeg("minted"@),
        ],
{
    proof {
        lemma_names_are_segments();
    }
    balance_prefix(token_addr).push(text_segment(MINTED_STORAGE_KEY)).expect(
        "Cannot obtain a storage key",
    )
}

/// Obtain the nominal proportional key for the given token
pub fn masp_kp_gain_key(token_addr: &Address) -> (r: Key)
    ensures
        r@ == token_path(*token_addr, MASP_KP_GAIN_KEY@),
        r@ =~= seq![SegView::AddressSeg(*token_addr), SegView::StringSeg("proportional_gain"@)],
{
    proof {
        lemma_names_are_segments();
    }
    key_of_token(token_addr, MASP_KP_GAIN_KEY, "nominal proproitonal gains")
}

/// Obtain the nominal derivative key for the given token
pub fn masp_kd_gain_key(token_addr: &Address) -> (r: Key)
    ensures
        r@ == token_path(*token_addr, MASP_KD_GAIN_KEY@),
        r@ =~= seq![SegView::AddressSeg(*token_addr), SegView::StringSeg("derivative_gain"@)],
{
    proof {
        lemma_names_are_segments();
    }
    key_of_token(token_addr, MASP_KD_GAIN_KEY, "nominal proproitonal gains")
}

/// The max reward rate key for the given token
pub fn masp_max_reward_rate_key(token_addr: &Address) -> (r: Key)
    ensures
        r@ == token_path(*token_addr, MASP_MAX_REWARD_RATE_KEY@),
        r@ =~= seq![SegView::AddressSeg(*token_addr), SegView::StringSeg("max_reward_rate"@)],
{
    proof {
        lemma_names_are_segments();
    }
    key_of_token(token_addr, MASP_MAX_REWARD_RATE_KEY, "max reward rate")
}

/// Obtain the locked target ratio key for the given token
pub fn masp_locked_ratio_target_key(token_addr: &Address) -> (r: Key)
    ensures
        r@ == token_path(*token_addr, MASP_LOCKED_RATIO_TARGET_KEY@),
        r@ =~= seq![SegView::AddressSeg(*token_addr), SegView::StringSeg("locked_ratio_target"@)],
{
    proof {
        lemma_names_are_segments();
    }
    key_of_token(token_addr, MASP_LOCKED_RATIO_TARGET_KEY, "nominal proproitonal gains")
}

/// Obtain the storage key for the last locked ratio of a token
pub fn masp_last_locked_ratio_key(token_address: &Address) -> (r: Key)
    ensures
        r@ == token_path(*token_address, MASP_LAST_LOCKED_RATIO_KEY@),
        r@ =~= seq![SegView::AddressSeg(*token_address), SegView::StringSeg("last_locked_ratio"@)],
{
    proof {
        lemma_names_are_segments();
    }
    key_of_token(
        token_address,
        MASP_LAST_LOCKED_RATIO_KEY,
        "cannot obtain storage key for the last locked ratio",
    )
}

/// Obtain the storage key for the last inflation of a token
pub fn masp_last_inflation_key(token_address: &Address) -> (r: Key)
    ensures
        r@ == token_path(*token_address, MASP_LAST_INFLATION_KEY@),
        r@ =~= seq![SegView::AddressSeg(*token_address), SegView::StringSeg("last_inflation"@)],
{
    proof {
        lemma_names_are_segments();
    }
    key_of_token(
        token_address,
        MASP_LAST_INFLATION_KEY,
        "cannot obtain storage key for the last inflation rate",
    )
}

/// Obtain a storage key denomination of a token.
pub fn denom_key(token_addr: &Address) -> (r: Key)
    ensures
        r@ == token_path(*token_addr, DENOM_STORAGE_KEY@),
        r@ =~= seq![SegView::AddressSeg(*token_addr), SegView::StringSeg("denomination"@)],
{
    proof {
        lemma_names_are_segments();
    }
    let key = Key::from_segment(token_addr.to_db_key()).push(text_segment(DENOM_STORAGE_KEY)).expect(
        "Cannot obtain a storage key",
    );
    assert(key@ == token_path(*token_addr, DENOM_STORAGE_KEY@));
    key
}

/// Check if the given storage key is balance key for the given token. If it is,
/// returns the owner. For minted balances, use [`is_any_minted_balance_key()`].
pub fn is_balance_key<'a>(token_addr: &Address, key: &'a Key) -> (r: Option<&'a Address>)
    ensures
        match r {
            Some(owner) => key@ == balance_path(*token_addr, *owner),
            None => forall|owner: Address| key@ != #[trigger] balance_path(*token_addr, owner),
        },
        r is Some <==> {
            &&& key@.len() == 4
            &&& key@[0] == SegView::AddressSeg(Address::Internal(InternalAddress::Multitoken))
            &&& key@[1] == SegView::AddressSeg(*token_addr)
            &&& key@[2] == SegView::StringSeg("balance"@)
            &&& key@[3] is AddressSeg
        },
        r matches Some(owner) ==> key@[3] == SegView::AddressSeg(*owner),
{
    match is_any_token_balance_key(key) {
        Some(found) => if *found[0] == *token_addr {
            Some(found[1])
        } else {
            proof {
                assert forall|owner: Address| key@ != #[trigger] balance_path(
                    *token_addr,
                    owner,
                ) by {
                    lemma_balance_path_parts(*token_addr, owner);
                    lemma_balance_path_parts(*found@[0], *found@[1]);
                }
            }
            None
        },
        None => None,
    }
}

/// Check if the given storage key is balance key for unspecified token. If it
/// is, returns the token and owner address.
pub fn is_any_token_balance_key<'a>(key: &'a Key) -> (r: Option<[&'a Address; 2]>)
    ensures
        match r {
            Some(found) => key@ == balance_path(*found@[0], *found@[1]),
            None => forall|token: Address, owner: Address|
                key@ != #[trigger] balance_path(token, owner),
        },
        r is Some <==> {
            &&& key@.len() == 4
            &&& key@[0] == SegView::AddressSeg(Address::Internal(InternalAddress::Multitoken))
            &&& key@[1] is AddressSeg
            &&& key@[2] == SegView::StringSeg("balance"@)
            &&& key@[3] is AddressSeg
        },
        r matches Some(found) ==> {
            &&& key@[1] == SegView::AddressSeg(*found@[0])
            &&& key@[3] == SegView::AddressSeg(*found@[1])
        },
{
    if key.segments.len() == 4 {
        if let DbKeySeg::AddressSeg(addr) = &key.segments[0] {
            if let DbKeySeg::AddressSeg(token) = &key.segments[1] {
                if let DbKeySeg::StringSeg(balance) = &key.segments[2] {
                    if let DbKeySeg::AddressSeg(owner) = &key.segments[3] {
                        if *addr == Address::Internal(InternalAddress::Multitoken) && same_text(
                            balance.as_str(),
                            BALANCE_STORAGE_KEY,
                        ) {
                            assert(key@ == balance_path(*token, *owner));
                            return Some([token, owner]);
                        }
                    }
                }
            }
        }
    }
    proof {
        assert forall|token: Address, owner: Address| key@ != #[trigger] balance_path(
            token,
            owner,
        ) by {
            lemma_balance_path_parts(token, owner);
            if key@ == balance_path(token, owner) {
                assert(key.segments@[0]@ == key@[0]);
                assert(key.segments@[1]@ == key@[1]);
                assert(key.segments@[2]@ == key@[2]);
                assert(key.segments@[3]@ == key@[3]);
            }
        }
    }
    None
}

/// Check if the given storage key is a denomination key for the given token.
pub fn is_denom_key(token_addr: &Address, key: &Key) -> (r: bool)
    ensures
        r == is_denom_path(*token_addr, key@),
        r <==> {
            &&& key@.len() >= 2
            &&& key@[0] == SegView::AddressSeg(*token_addr)
            &&& key@[key@.len() - 1] == SegView::StringSeg("denomination"@)
        },
{
    let n = key.segments.len();
    if n < 2 {
        return false;
    }
    assert(key@.first() == key.segments@[0]@);
    assert(key@.last() == key.segments@[n - 1]@);
    match (&key.segments[0], &key.segments[n - 1]) {
        (DbKeySeg::AddressSeg(addr), DbKeySeg::StringSeg(name)) => same_text(
            name.as_str(),
            DENOM_STORAGE_KEY,
        ) && *addr == *token_addr,
        _ => false,
    }
}

/// Check if the given storage key is a masp key
pub fn is_masp_key(key: &Key) -> (r: bool)
    ensures
        r == is_masp_path(key@),
        r <==> {
            &&& key@.len() >= 2
            &&& key@[0] == SegView::AddressSeg(Address::Internal(InternalAddress::Masp))
            &&& key@[1] matches SegView::StringSeg(name)
            &&& name == "head-tx"@ || "tx-"@.is_prefix_of(name) || "pin-"@.is_prefix_of(name)
                || "nullifiers"@.is_prefix_of(name)
        },
{
    if key.segments.len() < 2 {
        return false;
    }
    assert(key@[0] == key.segments@[0]@);
    assert(key@[1] == key.segments@[1]@);
    match (&key.segments[0], &key.segments[1]) {
        (DbKeySeg::AddressSeg(addr), DbKeySeg::StringSeg(name)) => *addr == Address::Internal(
            InternalAddress::Masp,
        ) && (same_text(name.as_str(), HEAD_TX_KEY) || starts_with(name.as_str(), TX_KEY_PREFIX)
            || starts_with(name.as_str(), PIN_KEY_PREFIX) || starts_with(
            name.as_str(),
            MASP_NULLIFIERS_KEY_PREFIX,
        )),
        _ => false,
    }
}

/// Check if the given storage key is a masp nullifier key
pub fn is_masp_nullifier_key(key: &Key) -> (r: bool)
    ensures
        r == is_masp_nullifier_path(key@),
        r <==> {
            &&& key@.len() >= 2
            &&& key@[0] == SegView::AddressSeg(Address::Internal(InternalAddress::Masp))
            &&& key@[1] == SegView::StringSeg("nullifiers"@)
        },
{
    if key.segments.len() < 2 {
        return false;
    }
    assert(key@[0] == key.segments@[0]@);
    assert(key@[1] == key.segments@[1]@);
    match (&key.segments[0], &key.segments[1]) {
        (DbKeySeg::AddressSeg(addr), DbKeySeg::StringSeg(prefix)) => *addr == Address::Internal(
            InternalAddress::Masp,
        ) && same_text(prefix.as_str(), MASP_NULLIFIERS_KEY_PREFIX),
        _ => false,
    }
}

/// Check if the given storage key is for a minter of a unspecified token.
/// If it is, returns the token.
pub fn is_any_minter_key<'a>(key: &'a Key) -> (r: Option<&'a Address>)
    ensures
        match r {
            Some(token) => key@ == minter_path(*token),
            None => forall|token: Address| key@ != #[trigger] minter_path(token),
        },
        r is Some <==> {
            &&& key@.len() == 3
            &&& key@[0] == SegView::AddressSeg(Address::Internal(InternalAddress::Multitoken))
            &&& key@[1] is AddressSeg
            &&& key@[2] == SegView::StringSeg("minter"@)
        },
        r matches Some(token) ==> key@[1] == SegView::AddressSeg(*token),
{
    if key.segments.len() == 3 {
        if let DbKeySeg::AddressSeg(addr) = &key.segments[0] {
            if let DbKeySeg::AddressSeg(token) = &key.segments[1] {
                if let DbKeySeg::StringSeg(minter) = &key.segments[2] {
                    if *addr == Address::Internal(InternalAddress::Multitoken) && same_text(
                        minter.as_str(),
                        MINTER_STORAGE_KEY,
                    ) {
                        assert(key@ == minter_path(*token));
                        return Some(token);
                    }
                }
            }
        }
    }
    proof {
        assert forall|token: Address| key@ != #[trigger] minter_path(token) by {
            if key@ == minter_path(token) {
                assert(minter_path(token).len() == 3);
                assert(key.segments@[0]@ == key@[0]);
                assert(key.segments@[1]@ == key@[1]);
                assert(key.segments@[2]@ == key@[2]);
            }
        }
    }
    None
}

/// Check if the given storage key is for total supply of a unspecified token.
/// If it is, returns the token.
pub fn is_any_minted_balance_key<'a>(key: &'a Key) -> (r: Option<&'a Address>)
    ensures
        match r {
            Some(token) => key@ == minted_path(*token),
            None => forall|token: Address| key@ != #[trigger] minted_path(token),
        },
        r is Some <==> {
            &&& key@.len() == 4
            &&& key@[0] == SegView::AddressSeg(Address::Internal(InternalAddress::Multitoken))
            &&& key@[1] is AddressSeg
            &&& key@[2] == SegView::StringSeg("balance"@)
            &&& key@[3] == SegView::StringSeg("minted"@)
        },
        r matches Some(token) ==> key@[1] == SegView::AddressSeg(*token),
{
    if key.segments.len() == 4 {
        if let DbKeySeg::AddressSeg(addr) = &key.segments[0] {
            if let DbKeySeg::AddressSeg(token) = &key.segments[1] {
                if let DbKeySeg::StringSeg(balance) = &key.segments[2] {
                    if let DbKeySeg::StringSeg(owner) = &key.segments[3] {
                        if *addr == Address::Internal(InternalAddress::Multitoken) && same_text(
                            balance.as_str(),
                            BALANCE_STORAGE_KEY,
                        ) && same_text(owner.as_str(), MINTED_STORAGE_KEY) {
                            assert(key@ == minted_path(*token));
                            return Some(token);
                        }
                    }
                }
            }
        }
    }
    proof {
        assert forall|token: Address| key@ != #[trigger] minted_path(token) by {
            if key@ == minted_path(token) {
                assert(minted_path(token).len() == 4);
                assert(key.segments@[0]@ == key@[0]);
                assert(key.segments@[1]@ == key@[1]);
                assert(key.segments@[2]@ == key@[2]);
                assert(key.segments@[3]@ == key@[3]);
            }
        }
    }
    None
}

/// A balance key names its token and its owner: no other token and owner have the
/// same key.
pub proof fn law_balance_keys_distinct(
    token1: Address,
    owner1: Address,
    token2: Address,
    owner2: Address,
)
    requires
        balance_path(token1, owner1) == balance_path(token2, owner2),
    ensures
        token1 == token2,
        owner1 == owner2,
{
    lemma_balance_path_parts(token1, owner1);
    lemma_balance_path_parts(token2, owner2);
}

/// A minter key names its token, and so does the key of a total supply.
pub proof fn law_token_keys_distinct(token1: Address, token2: Address)
    ensures
        minter_path(token1) == minter_path(token2) ==> token1 == token2,
        minted_path(token1) == minted_path(token2) ==> token1 == token2,
{
    assert(minter_path(token1)[1] == SegView::AddressSeg(token1));
    assert(minter_path(token2)[1] == SegView::AddressSeg(token2));
    assert(minted_path(token1)[1] == SegView::AddressSeg(token1));
    assert(minted_path(token2)[1] == SegView::AddressSeg(token2));
}

/// The key of a token's balance, that of its total supply, that of its minter, and
/// the keys that are kept under its own address are never the same, whatever the
/// tokens and the owner.
pub proof fn law_key_families_disjoint(
    token1: Address,
    owner: Address,
    token2: Address,
    token3: Address,
    token4: Address,
    name: Seq<char>,
)
    ensures
        balance_path(token1, owner) != minted_path(token2),
        balance_path(token1, owner) != minter_path(token3),
        balance_path(token1, owner) != token_path(token4, name),
        minted_path(token2) != minter_path(token3),
        minted_path(token2) != token_path(token4, name),
        minter_path(token3) != token_path(token4, name),
{
    lemma_balance_path_parts(token1, owner);
    assert(minted_path(token2)[3] is StringSeg);
    assert(minter_path(token3).len() == 3);
    assert(token_path(token4, name).len() == 2);
}

/// Every balance of a token, and its total supply, is kept under the prefix of the
/// token's balances; the minter is not.
pub proof fn law_balances_under_prefix(token: Address, owner: Address)
    ensures
        balances_path(token).is_prefix_of(balance_path(token, owner)),
        balances_path(token).is_prefix_of(minted_path(token)),
        !balances_path(token).is_prefix_of(minter_path(token)),
{
    reveal_strlit("balance");
    reveal_strlit("minter");
    assert(balance_path(token, owner).take(3) == balances_path(token));
    assert(minted_path(token).take(3) == balances_path(token));
    assert(BALANCE_STORAGE_KEY@.len() != MINTER_STORAGE_KEY@.len());
    assert(balances_path(token)[2] != minter_path(token)[2]);
}

/// A key under the address of a token names the token and the value.
pub proof fn law_names_of_token_distinct(
    token1: Address,
    name1: Seq<char>,
    token2: Address,
    name2: Seq<char>,
)
    requires
        token_path(token1, name1) == token_path(token2, name2),
    ensures
        token1 == token2,
        name1 == name2,
{
    assert(token_path(token1, name1)[0] == token_path(token2, name2)[0]);
    assert(token_path(token1, name1)[1] == token_path(token2, name2)[1]);
}

/// The values that the shielded pool keeps for a token have keys of their own.
pub proof fn law_masp_names_distinct()
    ensures
        seq![
            MASP_LAST_INFLATION_KEY@,
            MASP_LAST_LOCKED_RATIO_KEY@,
            MASP_KP_GAIN_KEY@,
            MASP_KD_GAIN_KEY@,
            MASP_LOCKED_RATIO_TARGET_KEY@,
            MASP_MAX_REWARD_RATE_KEY@,
            DENOM_STORAGE_KEY@,
        ].no_duplicates(),
{
    reveal_strlit("denomination");
    reveal_strlit("last_inflation");
    reveal_strlit("last_locked_ratio");
    reveal_strlit("proportional_gain");
    reveal_strlit("derivative_gain");
    reveal_strlit("locked_ratio_target");
    reveal_strlit("max_reward_rate");
    assert(MASP_LAST_INFLATION_KEY@.len() == 14);
    assert(MASP_LAST_LOCKED_RATIO_KEY@.len() == 17);
    assert(MASP_KP_GAIN_KEY@.len() == 17);
    assert(MASP_KD_GAIN_KEY@.len() == 15);
    assert(MASP_LOCKED_RATIO_TARGET_KEY@.len() == 19);
    assert(MASP_MAX_REWARD_RATE_KEY@.len() == 15);
    assert(DENOM_STORAGE_KEY@.len() == 12);
    assert(MASP_LAST_LOCKED_RATIO_KEY@[0] != MASP_KP_GAIN_KEY@[0]);
    assert(MASP_KD_GAIN_KEY@[0] != MASP_MAX_REWARD_RATE_KEY@[0]);
}

/// The denomination key of a token is recognised, as its own and as no other
/// token's, and no other value under the address of a token is taken for one.
pub proof fn law_denom_key_recognised(token: Address, other: Address, name: Seq<char>)
    ensures
        is_denom_path(token, token_path(token, DENOM_STORAGE_KEY@)),
        is_denom_path(other, token_path(token, DENOM_STORAGE_KEY@)) ==> other == token,
        is_denom_path(token, token_path(token, name)) ==> name == DENOM_STORAGE_KEY@,
{
}

/// Every nullifier key is a key of the shielded pool.
pub proof fn law_nullifiers_are_masp(path: Seq<SegView>)
    requires
        is_masp_nullifier_path(path),
    ensures
        is_masp_path(path),
{
}

/// No key of a balance, a total supply or a minter is a key of the shielded pool, or
/// a denomination key.
pub proof fn law_token_keys_are_not_masp(token: Address, owner: Address, other: Address)
    ensures
        !is_masp_path(balance_path(token, owner)),
        !is_masp_path(minted_path(token)),
        !is_masp_path(minter_path(token)),
        !is_denom_path(other, balance_path(token, owner)),
        !is_denom_path(other, minted_path(token)),
        !is_denom_path(other, minter_path(token)),
{
    reveal_strlit("minted");
    reveal_strlit("minter");
    reveal_strlit("denomination");
    lemma_balance_path_parts(token, owner);
    assert(MINTED_STORAGE_KEY@.len() != DENOM_STORAGE_KEY@.len());
    assert(MINTER_STORAGE_KEY@.len() != DENOM_STORAGE_KEY@.len());
}

/// The keys of a token's balances: the multitoken address comes first, then the token,
/// whatever kind of address it is, then the word for balances. The balance of an owner
/// ends with the owner, and the total supply with a word of its own.
pub proof fn law_balance_key_segments(token: Address, owner: Address)
    ensures
        balances_path(token).len() == 3,
        balances_path(token)[0] == SegView::AddressSeg(
            Address::Internal(InternalAddress::Multitoken),
        ),
        balances_path(token)[1] == SegView::AddressSeg(token),
        balances_path(token)[2] == SegView::StringSeg("balance"@),
        balance_path(token, owner).len() == 4,
        balance_path(token, owner).take(3) == balances_path(token),
        balance_path(token, owner)[3] == SegView::AddressSeg(owner),
        minted_path(token).len() == 4,
        minted_path(token).take(3) == balances_path(token),
        minted_path(token)[3] == SegView::StringSeg("minted"@),
{
    assert(balance_path(token, owner).take(3) == balances_path(token));
    assert(minted_path(token).take(3) == balances_path(token));
}

/// The key of a token's minter has three segments: the multitoken address, then the
/// token, whatever kind of address it is, then the word for minters. It differs from the
/// prefix of the token's balances in that word alone.
pub proof fn law_minter_key_segments(token: Address)
    ensures
        minter_path(token).len() == 3,
        minter_path(token)[0] == SegView::AddressSeg(Address::Internal(InternalAddress::Multitoken)),
        minter_path(token)[1] == SegView::AddressSeg(token),
        minter_path(token)[2] == SegView::StringSeg("minter"@),
        minter_path(token) == balances_path(token).update(2, SegView::StringSeg("minter"@)),
{
    assert(minter_path(token) == balances_path(token).update(2, SegView::StringSeg("minter"@)));
}

/// A value under the address of a token has a key of two segments: the token, then the
/// name of the value. These are the names.
pub proof fn law_token_key_segments(token: Address, name: Seq<char>)
    ensures
        token_path(token, name).len() == 2,
        token_path(token, name)[0] == SegView::AddressSeg(token),
        token_path(token, name)[1] == SegView::StringSeg(name),
        DENOM_STORAGE_KEY@ == "denomination"@,
        MASP_LAST_INFLATION_KEY@ == "last_inflation"@,
        MASP_LAST_LOCKED_RATIO_KEY@ == "last_locked_ratio"@,
        MASP_KP_GAIN_KEY@ == "proportional_gain"@,
        MASP_KD_GAIN_KEY@ == "derivative_gain"@,
        MASP_LOCKED_RATIO_TARGET_KEY@ == "locked_ratio_target"@,
        MASP_MAX_REWARD_RATE_KEY@ == "max_reward_rate"@,
{
}

/// A key is taken for a denomination key of a token just where it begins with the token
/// and ends with the word for denominations; what stands between does not matter.
pub proof fn law_denom_key_by_its_ends(
    token: Address,
    middle: Seq<SegView>,
    path: Seq<SegView>,
)
    ensures
        is_denom_path(
            token,
            seq![SegView::AddressSeg(token)] + middle + seq![SegView::StringSeg("denomination"@)],
        ),
        is_denom_path(token, path) ==> path == seq![SegView::AddressSeg(token)] + path.subrange(
            1,
            path.len() - 1,
        ) + seq![SegView::StringSeg("denomination"@)],
        path.len() < 2 ==> !is_denom_path(token, path),
{
    if is_denom_path(token, path) {
        assert(path == seq![SegView::AddressSeg(token)] + path.subrange(1, path.len() - 1)
            + seq![SegView::StringSeg("denomination"@)]);
    }
}

/// A key belongs to the shielded pool by its first two segments: the address of the pool,
/// and a name that is the word for the head transaction, or begins like the name of a
/// transaction, of a pinned one, or of a nullifier. What comes after does not matter.
pub proof fn law_masp_key_by_its_beginning(
    first: SegView,
    second: SegView,
    rest: Seq<SegView>,
    name: Seq<char>,
)
    ensures
        ({
            let pool = SegView::AddressSeg(Address::Internal(InternalAddress::Masp));
            let path = seq![first, second] + rest;
            &&& first != pool || second is AddressSeg ==> !is_masp_path(path)
                && !is_masp_nullifier_path(path)
            &&& !is_masp_path(seq![first]) && !is_masp_nullifier_path(seq![first])
            &&& !is_masp_path(Seq::empty()) && !is_masp_nullifier_path(Seq::empty())
            &&& is_masp_path(seq![pool, SegView::StringSeg("head-tx"@)] + rest)
            &&& is_masp_path(seq![pool, SegView::StringSeg("tx-"@ + name)] + rest)
            &&& is_masp_path(seq![pool, SegView::StringSeg("pin-"@ + name)] + rest)
            &&& is_masp_path(seq![pool, SegView::StringSeg("nullifiers"@ + name)] + rest)
            &&& is_masp_path(seq![pool, SegView::StringSeg(name)] + rest) ==> name == "head-tx"@
                || "tx-"@.is_prefix_of(name) || "pin-"@.is_prefix_of(name)
                || "nullifiers"@.is_prefix_of(name)
            &&& is_masp_nullifier_path(seq![pool, SegView::StringSeg(name)] + rest) <==> name
                == "nullifiers"@
        }),
{
    let pool = SegView::AddressSeg(Address::Internal(InternalAddress::Masp));
    assert("tx-"@.is_prefix_of("tx-"@ + name));
    assert("pin-"@.is_prefix_of("pin-"@ + name));
    assert("nullifiers"@.is_prefix_of("nullifiers"@ + name));
    assert((seq![first, second] + rest)[0] == first);
    assert((seq![first, second] + rest)[1] == second);
    assert((seq![pool, SegView::StringSeg("head-tx"@)] + rest)[1] == SegView::StringSeg("head-tx"@));
    assert((seq![pool, SegView::StringSeg("tx-"@ + name)] + rest)[1] == SegView::StringSeg(
        "tx-"@ + name,
    ));
    assert((seq![pool, SegView::StringSeg("pin-"@ + name)] + rest)[1] == SegView::StringSeg(
        "pin-"@ + name,
    ));
    assert((seq![pool, SegView::StringSeg("nullifiers"@ + name)] + rest)[1] == SegView::StringSeg(
        "nullifiers"@ + name,
    ));
    assert((seq![pool, SegView::StringSeg(name)] + rest)[1] == SegView::StringSeg(name));
}

} // verus!
