use namada_ledger::address::{Address, Hash20, InternalAddress};
use namada_ledger::ethereum::EthAddress;
use namada_ledger::storage::{DbKeySeg, InvalidKeySeg, Key};
use namada_ledger::storage_key::{
    balance_key, balance_prefix, denom_key, is_any_minted_balance_key, is_any_minter_key,
    is_any_token_balance_key, is_balance_key, is_denom_key, is_masp_key, is_masp_nullifier_key,
    key_of_token, masp_kd_gain_key, masp_kp_gain_key, masp_last_inflation_key,
    masp_last_locked_ratio_key, masp_locked_ratio_target_key, masp_max_reward_rate_key,
    minted_balance_key, minter_key,
};

fn established(n: u8) -> Address {
    Address::Established(Hash20 { bytes: [n; 20] })
}

fn text(s: &str) -> DbKeySeg {
    DbKeySeg::StringSeg(s.to_owned())
}

fn addr(a: Address) -> DbKeySeg {
    DbKeySeg::AddressSeg(a)
}

fn key(segments: Vec<DbKeySeg>) -> Key {
    Key { segments }
}

const MULTITOKEN: Address = Address::Internal(InternalAddress::Multitoken);
const MASP: Address = Address::Internal(InternalAddress::Masp);

#[test]
fn keys_of_balances() {
    let (token, owner) = (established(1), established(2));
    assert_eq!(
        balance_prefix(&token),
        key(vec![addr(MULTITOKEN), addr(token), text("balance")])
    );
    assert_eq!(
        balance_key(&token, &owner),
        key(vec![addr(MULTITOKEN), addr(token), text("balance"), addr(owner)])
    );
    assert_eq!(
        minted_balance_key(&token),
        key(vec![addr(MULTITOKEN), addr(token), text("balance"), text("minted")])
    );
    assert_eq!(minter_key(&token), key(vec![addr(MULTITOKEN), addr(token), text("minter")]));
}

#[test]
fn keys_under_the_token() {
    let token = established(1);
    let under = |name: &str| key(vec![addr(token), text(name)]);
    assert_eq!(denom_key(&token), under("denomination"));
    assert_eq!(masp_kp_gain_key(&token), under("proportional_gain"));
    assert_eq!(masp_kd_gain_key(&token), under("derivative_gain"));
    assert_eq!(masp_max_reward_rate_key(&token), under("max_reward_rate"));
    assert_eq!(masp_locked_ratio_target_key(&token), under("locked_ratio_target"));
    assert_eq!(masp_last_locked_ratio_key(&token), under("last_locked_ratio"));
    assert_eq!(masp_last_inflation_key(&token), under("last_inflation"));
    assert_eq!(key_of_token(&token, "anything", "never seen"), under("anything"));
}

#[test]
fn balance_keys_are_recognised() {
    let (token, other, owner) = (established(1), established(3), Address::Implicit(Hash20 { bytes: [2; 20] }));
    let balance = balance_key(&token, &owner);
    assert_eq!(is_balance_key(&token, &balance), Some(&owner));
    assert_eq!(is_balance_key(&other, &balance), None);
    assert_eq!(is_any_token_balance_key(&balance), Some([&token, &owner]));
    for not_one in [
        minted_balance_key(&token),
        minter_key(&token),
        balance_prefix(&token),
        denom_key(&token),
        key(vec![addr(MASP), addr(token), text("balance"), addr(owner)]),
        key(vec![addr(MULTITOKEN), addr(token), text("balances"), addr(owner)]),
        key(vec![addr(MULTITOKEN), addr(token), text("balance"), addr(owner), text("x")]),
        key(vec![]),
    ] {
        assert_eq!(is_balance_key(&token, &not_one), None);
        assert_eq!(is_any_token_balance_key(&not_one), None);
    }
}

#[test]
fn minter_keys_are_recognised() {
    let token = established(1);
    assert_eq!(is_any_minter_key(&minter_key(&token)), Some(&token));
    for not_one in [
        minted_balance_key(&token),
        balance_prefix(&token),
        key(vec![addr(token), addr(token), text("minter")]),
        key(vec![addr(MULTITOKEN), text("minter"), text("minter")]),
    ] {
        assert_eq!(is_any_minter_key(&not_one), None);
    }
}

#[test]
fn minted_balance_keys_are_recognised() {
    let token = established(1);
    assert_eq!(is_any_minted_balance_key(&minted_balance_key(&token)), Some(&token));
    for not_one in [
        balance_key(&token, &established(2)),
        balance_prefix(&token),
        minter_key(&token),
        key(vec![addr(MULTITOKEN), addr(token), text("balance"), text("mint")]),
        key(vec![addr(MULTITOKEN), addr(token), text("minted"), text("balance")]),
    ] {
        assert_eq!(is_any_minted_balance_key(&not_one), None);
    }
}

#[test]
fn denom_keys_are_recognised() {
    let (token, other) = (established(1), established(2));
    assert!(is_denom_key(&token, &denom_key(&token)));
    assert!(!is_denom_key(&other, &denom_key(&token)));
    assert!(is_denom_key(&token, &key(vec![addr(token), text("a"), addr(other), text("denomination")])));
    assert!(!is_denom_key(&token, &key(vec![addr(token)])));
    assert!(!is_denom_key(&token, &key(vec![text("denomination")])));
    assert!(!is_denom_key(&token, &key(vec![addr(token), text("denomination"), text("x")])));
    assert!(!is_denom_key(&token, &masp_kp_gain_key(&token)));
}

#[test]
fn masp_keys_are_recognised() {
    for name in ["head-tx", "tx-", "tx-17", "pin-x", "nullifiers", "nullifiers-old"] {
        assert!(is_masp_key(&key(vec![addr(MASP), text(name)])));
        assert!(is_masp_key(&key(vec![addr(MASP), text(name), text("more")])));
        assert!(!is_masp_key(&key(vec![addr(MULTITOKEN), text(name)])));
    }
    for name in ["head-tx2", "tx", "pin", "nullifier", "", "last_inflation"] {
        assert!(!is_masp_key(&key(vec![addr(MASP), text(name)])));
    }
    assert!(!is_masp_key(&key(vec![addr(MASP)])));
    assert!(!is_masp_key(&key(vec![])));
    assert!(!is_masp_key(&key(vec![addr(MASP), addr(MASP)])));
}

#[test]
fn masp_nullifier_keys_are_recognised() {
    let nullifier = key(vec![addr(MASP), text("nullifiers"), text("00ff")]);
    assert!(is_masp_nullifier_key(&nullifier));
    assert!(is_masp_key(&nullifier));
    assert!(is_masp_nullifier_key(&key(vec![addr(MASP), text("nullifiers")])));
    assert!(!is_masp_nullifier_key(&key(vec![addr(MASP), text("nullifiers-old")])));
    assert!(!is_masp_nullifier_key(&key(vec![addr(MULTITOKEN), text("nullifiers")])));
    assert!(!is_masp_nullifier_key(&key(vec![addr(MASP)])));
}

#[test]
fn text_that_is_no_segment_is_refused() {
    let start = || Key::from_segment(established(1).to_db_key());
    for bad in ["a/b", "/", "#atest1"] {
        assert_eq!(start().push(text(bad)), Err(InvalidKeySeg { segment: bad.to_owned() }));
    }
    for good in ["", "a#b", "tx-1"] {
        assert_eq!(start().push(text(good)), Ok(key(vec![addr(established(1)), text(good)])));
    }
    assert_eq!(
        start().push(addr(MASP)),
        Ok(key(vec![addr(established(1)), addr(MASP)]))
    );
}

#[test]
fn addresses_are_told_apart() {
    let eth = |n: u8| EthAddress { bytes: [n; 20] };
    let all = [
        established(1),
        established(2),
        Address::Implicit(Hash20 { bytes: [1; 20] }),
        Address::Internal(InternalAddress::PoS),
        Address::Internal(InternalAddress::PosSlashPool),
        Address::Internal(InternalAddress::Parameters),
        Address::Internal(InternalAddress::Ibc),
        Address::Internal(InternalAddress::IbcToken(Hash20 { bytes: [1; 20] })),
        Address::Internal(InternalAddress::Governance),
        Address::Internal(InternalAddress::EthBridge),
        Address::Internal(InternalAddress::EthBridgePool),
        Address::Internal(InternalAddress::Erc20(eth(1))),
        Address::Internal(InternalAddress::Erc20(eth(2))),
        Address::Internal(InternalAddress::Nut(eth(1))),
        MULTITOKEN,
        Address::Internal(InternalAddress::Pgf),
        MASP,
    ];
    for (i, a) in all.iter().enumerate() {
        for (j, b) in all.iter().enumerate() {
            assert_eq!(a == b, i == j);
        }
    }
}
