use namada_ledger::parameters::{
    after_answer, review, validate_tx, ChangedKey, Error, KeyType, NativeVpError, Review,
};

const PARAMETER: ChangedKey = ChangedKey { protocol_parameter: true, parameter: true };
const STRAY: ChangedKey = ChangedKey { protocol_parameter: false, parameter: true };
const OTHER: ChangedKey = ChangedKey { protocol_parameter: false, parameter: false };

fn valid(data: &Option<Vec<u8>>, keys: Vec<ChangedKey>, accepted: Option<bool>) -> bool {
    validate_tx(data, &keys, accepted).unwrap()
}

#[test]
fn kinds_of_keys() {
    assert_eq!(KeyType::from(&PARAMETER), KeyType::PARAMETER);
    assert_eq!(
        KeyType::from(&ChangedKey { protocol_parameter: true, parameter: false }),
        KeyType::PARAMETER
    );
    assert_eq!(KeyType::from(&STRAY), KeyType::UNKNOWN_PARAMETER);
    assert_eq!(KeyType::from(&OTHER), KeyType::UNKNOWN);
}

#[test]
fn parameters_change_by_governance_only() {
    let data = Some(vec![1]);
    assert!(valid(&data, vec![PARAMETER], Some(true)));
    assert!(valid(&data, vec![OTHER, PARAMETER, OTHER, PARAMETER], Some(true)));
    assert!(!valid(&data, vec![PARAMETER], Some(false)));
    assert!(!valid(&data, vec![OTHER, PARAMETER], None));
}

#[test]
fn stray_keys_are_refused() {
    let data = Some(vec![]);
    assert!(!valid(&data, vec![STRAY], Some(true)));
    assert!(!valid(&data, vec![OTHER, PARAMETER, STRAY], Some(true)));
}

#[test]
fn other_keys_need_no_governance() {
    assert!(valid(&Some(vec![]), vec![OTHER, OTHER], None));
    assert!(valid(&Some(vec![]), vec![], None));
}

#[test]
fn changes_need_data() {
    assert!(!valid(&None, vec![OTHER], Some(true)));
    assert!(!valid(&None, vec![PARAMETER], Some(true)));
    assert!(valid(&None, vec![], None));
}

#[test]
fn order_of_keys_does_not_matter() {
    let data = Some(vec![2]);
    for accepted in [Some(true), Some(false), None] {
        let one = valid(&data, vec![OTHER, PARAMETER], accepted);
        let two = valid(&data, vec![PARAMETER, OTHER, OTHER], accepted);
        assert_eq!(one, two);
    }
}

#[test]
fn governance_is_asked_when_needed() {
    let data = Some(vec![3]);
    let keys = vec![OTHER, PARAMETER, OTHER, PARAMETER];
    assert!(matches!(
        review(&data, &keys, 0),
        Review::AskGovernance { place: 1, tx_data } if *tx_data == vec![3]
    ));
    assert!(matches!(
        after_answer(&data, &keys, 1, Some(true)),
        Review::AskGovernance { place: 3, tx_data } if *tx_data == vec![3]
    ));
    assert!(matches!(after_answer(&data, &keys, 3, Some(true)), Review::Decided(true)));
    assert!(matches!(after_answer(&data, &keys, 1, Some(false)), Review::Decided(false)));
    assert!(matches!(after_answer(&data, &keys, 1, None), Review::Decided(false)));
    assert!(matches!(review(&data, &vec![STRAY, PARAMETER], 0), Review::Decided(false)));
    assert!(matches!(review(&None, &keys, 0), Review::Decided(false)));
}

#[test]
fn error_in_words() {
    let error = Error::from(NativeVpError { reason: "out of gas".to_owned() });
    assert_eq!(error.message(), "Native VP error: out of gas");
}
