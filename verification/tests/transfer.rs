use namada_ledger::address::{Address, Hash20, InternalAddress};
use namada_ledger::ethereum::EthAddress;
use namada_ledger::transfer::{DenominatedAmount, Transfer};

fn amount() -> DenominatedAmount {
    DenominatedAmount { raw: [0x0102030405060708, 2, 3, u64::MAX], denom: 6 }
}

#[test]
fn transfer_is_written_field_by_field() {
    let transfer = Transfer::new(
        Address::Established(Hash20 { bytes: [1; 20] }),
        Address::Implicit(Hash20 { bytes: [2; 20] }),
        Address::Internal(InternalAddress::Masp),
        amount(),
        Some("k\u{e9}y".to_owned()),
        Some([9; 32]),
        "args",
    );
    let expected = borsh::to_vec(&(
        (0u8, [1u8; 20]),
        (1u8, [2u8; 20]),
        (2u8, 12u8),
        (amount().raw, amount().denom),
        Some("k\u{e9}y".to_owned()),
        Some([9u8; 32]),
    ))
    .unwrap();
    assert_eq!(transfer.data, expected);
    assert_eq!(transfer.code_tag, "tx_transfer.wasm");
    assert_eq!(transfer.args, "args");
}

#[test]
fn transfer_without_options() {
    let erc20 = Address::Internal(InternalAddress::Erc20(EthAddress { bytes: [7; 20] }));
    let transfer = Transfer::new(erc20, erc20, erc20, amount(), None, None, ());
    let address = (2u8, 8u8, [7u8; 20]);
    let nothing: (Option<String>, Option<[u8; 32]>) = (None, None);
    let expected =
        borsh::to_vec(&(address, address, address, amount().raw, amount().denom, nothing)).unwrap();
    assert_eq!(transfer.data, expected);
    assert_eq!(transfer.data.len(), 3 * 22 + 33 + 2);
    assert_eq!(transfer.data[transfer.data.len() - 2..], [0, 0]);
}

#[test]
fn internal_addresses_by_their_place() {
    let hash = Hash20 { bytes: [5; 20] };
    let eth = EthAddress { bytes: [5; 20] };
    let all = [
        InternalAddress::PoS,
        InternalAddress::PosSlashPool,
        InternalAddress::Parameters,
        InternalAddress::Ibc,
        InternalAddress::IbcToken(hash),
        InternalAddress::Governance,
        InternalAddress::EthBridge,
        InternalAddress::EthBridgePool,
        InternalAddress::Erc20(eth),
        InternalAddress::Nut(eth),
        InternalAddress::Multitoken,
        InternalAddress::Pgf,
        InternalAddress::Masp,
    ];
    let other = Address::Established(hash);
    for (place, internal) in all.iter().enumerate() {
        let transfer =
            Transfer::new(Address::Internal(*internal), other, other, amount(), None, None, ());
        assert_eq!(transfer.data[..2], [2, place as u8]);
        let holds_bytes = place == 4 || place == 8 || place == 9;
        assert_eq!(transfer.data.len(), 2 + if holds_bytes { 20 } else { 0 } + 42 + 33 + 2);
    }
}

#[test]
fn different_transfers_have_different_bytes() {
    let address = Address::Established(Hash20 { bytes: [1; 20] });
    let write = |key: Option<&str>, shielded: Option<[u8; 32]>| {
        let key = key.map(|k| k.to_owned());
        Transfer::new(address, address, address, amount(), key, shielded, ()).data
    };
    let all = [
        write(None, None),
        write(Some(""), None),
        write(Some("a"), None),
        write(None, Some([0; 32])),
        write(None, Some([1; 32])),
        write(Some("a"), Some([0; 32])),
    ];
    for (i, a) in all.iter().enumerate() {
        for (j, b) in all.iter().enumerate() {
            assert_eq!(a == b, i == j);
        }
    }
}
