//! The validity predicate of the protocol parameters.
//!
//! A transaction may change a protocol parameter only where governance has accepted
//! the proposal that it carries out. The lookup of the proposal is done elsewhere:
//! [`review`] says when it is needed, and [`after_answer`] goes on from its answer.

use vstd::prelude::*;
use vstd::std_specs::convert::{FromSpec, FromSpecImpl};
use vstd::string::StringExecFns;

verus! {

/// An error of the host environment of validity predicates.
#[derive(Debug)]
pub struct NativeVpError {
    /// The error in words.
    pub reason: String,
}

/// Errors of the validity predicate.
#[derive(Debug)]
pub enum Error {
    /// The host environment failed.
    NativeVpError(NativeVpError),
}

impl From<NativeVpError> for Error {
    fn from(err: NativeVpError) -> (r: Error) {
        Error::NativeVpError(err)
    }
}

impl FromSpecImpl<NativeVpError> for Error {
    open spec fn obeys_from_spec() -> bool {
        true
    }

    open spec fn from_spec(err: NativeVpError) -> Error {
        Error::NativeVpError(err)
    }
}

impl Error {
    /// The error in words.
    pub fn message(&self) -> (r: String)
        ensures
            match self {
                Error::NativeVpError(err) => r@ == "Native VP error: "@ + err.reason@,
            },
    {
        match self {
            Error::NativeVpError(err) => "Native VP error: ".to_owned().concat(err.reason.as_str()),
        }
    }
}

/// Where a changed key stands in the storage.
#[derive(Clone, Copy, Debug)]
pub struct ChangedKey {
    /// The key is that of a protocol parameter.
    pub protocol_parameter: bool,
    /// The key lies in the part of the storage that is set aside for parameters.
    pub parameter: bool,
}

/// What kind of key was changed.
#[allow(non_camel_case_types)]
#[derive(Clone, Copy, Debug, PartialEq, Eq, Structural)]
pub enum KeyType {
    /// A protocol parameter.
    PARAMETER,
    /// A key among the parameters that is none.
    UNKNOWN_PARAMETER,
    /// Any other key.
    UNKNOWN,
}

/// The kind of a changed key.
pub open spec fn key_type(key: ChangedKey) -> KeyType {
    if key.protocol_parameter {
        KeyType::PARAMETER
    } else if key.parameter {
        KeyType::UNKNOWN_PARAMETER
    } else {
        KeyType::UNKNOWN
    }
}

impl From<&ChangedKey> for KeyType {
    fn from(value: &ChangedKey) -> (r: KeyType) {
        if value.protocol_parameter {
            KeyType::PARAMETER
        } else if value.parameter {
            KeyType::UNKNOWN_PARAMETER
        } else {
            KeyType::UNKNOWN
        }
    }
}

impl FromSpecImpl<&ChangedKey> for KeyType {
    open spec fn obeys_from_spec() -> bool {
        true
    }

    open spec fn from_spec(value: &ChangedKey) -> KeyType {
        key_type(*value)
    }
}

/// How far the review of a transaction has come.
#[derive(Clone, Copy, Debug)]
pub enum Review<'a> {
    /// The transaction is valid, or not.
    Decided(bool),
    /// Governance has to be asked whether it accepted the proposal that the data names,
    /// because of the key at the given place.
    AskGovernance { place: usize, tx_data: &'a Vec<u8> },
}

/// What a review holds.
pub enum ReviewView {
    Decided(bool),
    AskGovernance { place: int, tx_data: Seq<u8> },
}

impl<'a> View for Review<'a> {
    type V = ReviewView;

    open spec fn view(&self) -> ReviewView {
        match self {
            Review::Decided(valid) => ReviewView::Decided(*valid),
            Review::AskGovernance { place, tx_data } => ReviewView::AskGovernance {
                place: *place as int,
                tx_data: tx_data@,
            },
        }
    }
}

/// The data of a transaction, if it has any.
pub open spec fn data_of(tx_data: Option<Vec<u8>>) -> Option<Seq<u8>> {
    match tx_data {
        Some(data) => Some(data@),
        None => None,
    }
}

/// Whether a change to the key is allowed in a transaction with or without data,
/// given whether governance accepted the proposal.
pub open spec fn change_allowed(has_data: bool, key: ChangedKey, accepted: bool) -> bool {
    has_data && match key_type(key) {
        KeyType::PARAMETER => accepted,
        KeyType::UNKNOWN_PARAMETER => false,
        KeyType::UNKNOWN => true,
    }
}

/// Whether all changes from the place `from` on are allowed.
pub open spec fn all_allowed(
    has_data: bool,
    keys: Seq<ChangedKey>,
    from: int,
    accepted: bool,
) -> bool {
    forall|i: int|
        from <= i < keys.len() ==> change_allowed(has_data, #[trigger] keys[i], accepted)
}

/// Where the review of the changed keys from the place `from` on gets without
/// governance: to the first key that makes the transaction invalid, or that governance
/// has to be asked about.
pub open spec fn review_from(
    tx_data: Option<Seq<u8>>,
    keys: Seq<ChangedKey>,
    from: int,
) -> ReviewView
    decreases keys.len() - from,
{
    if from >= keys.len() {
        ReviewView::Decided(true)
    } else {
        match (tx_data, key_type(keys[from])) {
            (None, _) => ReviewView::Decided(false),
            (Some(data), KeyType::PARAMETER) => ReviewView::AskGovernance {
                place: from,
                tx_data: data,
            },
            (Some(_), KeyType::UNKNOWN_PARAMETER) => ReviewView::Decided(false),
            (Some(_), KeyType::UNKNOWN) => review_from(tx_data, keys, from + 1),
        }
    }
}

/// Whether the answer of governance, if it gave one, is that the proposal was
/// accepted.
pub open spec fn accepts(answer: Option<bool>) -> bool {
    answer == Some(true)
}

/// Reviews the changed keys from the place `from` on, until the transaction turns
/// out to be invalid, governance has to be asked, or no key is left.
pub fn review<'a>(
    tx_data: &'a Option<Vec<u8>>,
    keys_changed: &Vec<ChangedKey>,
    from: usize,
) -> (r: Review<'a>)
    requires
        from <= keys_changed@.len(),
    ensures
        r@ == review_from(data_of(*tx_data), keys_changed@, from as int),
{
    let mut i: usize = from;
    while i < keys_changed.len()
        invariant
            i <= keys_changed@.len(),
            review_from(data_of(*tx_data), keys_changed@, from as int) == review_from(
                data_of(*tx_data),
                keys_changed@,
                i as int,
            ),
        decreases keys_changed@.len() - i,
    {
        let data = match tx_data {
            Some(data) => data,
            None => {
                return Review::Decided(false);
            },
        };
        match KeyType::from(&keys_changed[i]) {
            KeyType::PARAMETER => {
                return Review::AskGovernance { place: i, tx_data: data };
            },
            KeyType::UNKNOWN_PARAMETER => {
                return Review::Decided(false);
            },
            KeyType::UNKNOWN => {},
        }
        i = i + 1;
    }
    Review::Decided(true)
}

/// Goes on with the review of a transaction once governance was asked because of the
/// key at `place`. `None` stands for a lookup that failed.
pub fn after_answer<'a>(
    tx_data: &'a Option<Vec<u8>>,
    keys_changed: &Vec<ChangedKey>,
    place: usize,
    answer: Option<bool>,
) -> (r: Review<'a>)
    requires
        place < keys_changed@.len(),
    ensures
        r@ == (if accepts(answer) {
            review_from(data_of(*tx_data), keys_changed@, place + 1)
        } else {
            ReviewView::Decided(false)
        }),
{
    match answer {
        Some(true) => {
            assert(place < keys_changed.len());
            review(tx_data, keys_changed, place + 1)
        },
        _ => Review::Decided(false),
    }
}

/// What a review that stopped says of the changes that it went over; governance is
/// asked about the data of the transaction.
pub proof fn law_review_is_sound(
    tx_data: Option<Seq<u8>>,
    keys: Seq<ChangedKey>,
    from: int,
    accepted: bool,
)
    requires
        0 <= from <= keys.len(),
    ensures
        match review_from(tx_data, keys, from) {
            ReviewView::Decided(valid) => valid == all_allowed(
                tx_data is Some,
                keys,
                from,
                accepted,
            ),
            ReviewView::AskGovernance { place, tx_data: data } => {
                &&& from <= place < keys.len()
                &&& key_type(keys[place]) == KeyType::PARAMETER
                &&& tx_data == Some(data)
                &&& all_allowed(tx_data is Some, keys, from, accepted) == (accepted && all_allowed(
                    tx_data is Some,
                    keys,
                    place + 1,
                    accepted,
                ))
            },
        },
    decreases keys.len() - from,
{
    let has_data = tx_data is Some;
    if from < keys.len() {
        if has_data && key_type(keys[from]) == KeyType::UNKNOWN {
            law_review_is_sound(tx_data, keys, from + 1, accepted);
            assert(change_allowed(has_data, keys[from], accepted));
        }
        assert(all_allowed(has_data, keys, from, accepted) == (change_allowed(
            has_data,
            keys[from],
            accepted,
        ) && all_allowed(has_data, keys, from + 1, accepted)));
    }
}

/// Validates a transaction that changed the given keys, given what governance answers
/// whenever it is asked about the transaction's data (`None` where the lookup fails).
pub fn validate_tx(
    tx_data: &Option<Vec<u8>>,
    keys_changed: &Vec<ChangedKey>,
    proposal_accepted: Option<bool>,
) -> (r: Result<bool, Error>)
    ensures
        r == Ok::<bool, Error>(
            all_allowed(*tx_data is Some, keys_changed@, 0, accepts(proposal_accepted)),
        ),
        r matches Ok(valid) && (valid <==> {
            &&& keys_changed@.len() > 0 ==> *tx_data is Some
            &&& forall|i: int|
                0 <= i < keys_changed@.len() && (
                #[trigger] keys_changed@[i]).protocol_parameter ==> proposal_accepted == Some(true)
            &&& forall|i: int|
                0 <= i < keys_changed@.len() && (#[trigger] keys_changed@[i]).parameter
                    ==> keys_changed@[i].protocol_parameter
        }),
{
    let ghost has_data = *tx_data is Some;
    let ghost accepted = accepts(proposal_accepted);
    let mut from: usize = 0;
    loop
        invariant
            from <= keys_changed@.len(),
            has_data == *tx_data is Some,
            accepted == accepts(proposal_accepted),
            all_allowed(has_data, keys_changed@, 0, accepted) == all_allowed(
                has_data,
                keys_changed@,
                from as int,
                accepted,
            ),
        decreases keys_changed@.len() - from,
    {
        assert(keys_changed.len() <= usize::MAX);
        proof {
            law_review_is_sound(data_of(*tx_data), keys_changed@, from as int, accepted);
            law_changes_one_by_one(has_data, keys_changed@, 0, accepted);
        }
        match review(tx_data, keys_changed, from) {
            Review::Decided(valid) => {
                return Ok(valid);
            },
            Review::AskGovernance { place, .. } => {
                match proposal_accepted {
                    Some(true) => {
                        from = place + 1;
                    },
                    _ => {
                        return Ok(false);
                    },
                }
            },
        }
    }
}

/// A transaction that changes a key among the parameters that is no parameter is
/// invalid, whatever governance says; so is one that changes anything without data,
/// and one that changes a parameter when governance did not accept it.
pub proof fn law_bad_change_is_refused(
    has_data: bool,
    keys: Seq<ChangedKey>,
    place: int,
    accepted: bool,
)
    requires
        0 <= place < keys.len(),
        !has_data || key_type(keys[place]) == KeyType::UNKNOWN_PARAMETER || (key_type(keys[place])
            == KeyType::PARAMETER && !accepted),
    ensures
        !all_allowed(has_data, keys, 0, accepted),
{
    assert(!change_allowed(has_data, keys[place], accepted));
}

/// A transaction that changes no parameter and nothing else among the parameters is
/// valid without governance, as long as it has data or changes nothing.
pub proof fn law_unrelated_changes_are_allowed(
    tx_data: Option<Seq<u8>>,
    keys: Seq<ChangedKey>,
    accepted: bool,
)
    requires
        tx_data is Some || keys.len() == 0,
        forall|i: int| 0 <= i < keys.len() ==> key_type(#[trigger] keys[i]) == KeyType::UNKNOWN,
    ensures
        all_allowed(tx_data is Some, keys, 0, accepted),
        review_from(tx_data, keys, 0) == ReviewView::Decided(true),
{
    lemma_unasked(tx_data, keys, 0);
}

proof fn lemma_unasked(tx_data: Option<Seq<u8>>, keys: Seq<ChangedKey>, from: int)
    requires
        0 <= from,
        tx_data is Some || keys.len() == 0,
        forall|i: int| 0 <= i < keys.len() ==> key_type(#[trigger] keys[i]) == KeyType::UNKNOWN,
    ensures
        review_from(tx_data, keys, from) == ReviewView::Decided(true),
    decreases keys.len() - from,
{
    if from < keys.len() {
        lemma_unasked(tx_data, keys, from + 1);
    }
}

/// The order in which the keys are looked at, and how often each of them is listed,
/// do not matter.
pub proof fn law_order_does_not_matter(
    has_data: bool,
    keys: Seq<ChangedKey>,
    others: Seq<ChangedKey>,
    accepted: bool,
)
    requires
        forall|key: ChangedKey| keys.contains(key) == others.contains(key),
    ensures
        all_allowed(has_data, keys, 0, accepted) == all_allowed(has_data, others, 0, accepted),
{
    if all_allowed(has_data, keys, 0, accepted) {
        assert forall|i: int| 0 <= i < others.len() implies change_allowed(
            has_data,
            #[trigger] others[i],
            accepted,
        ) by {
            assert(keys.contains(others[i]));
        }
    }
    if all_allowed(has_data, others, 0, accepted) {
        assert forall|i: int| 0 <= i < keys.len() implies change_allowed(
            has_data,
            #[trigger] keys[i],
            accepted,
        ) by {
            assert(others.contains(keys[i]));
        }
    }
}

/// A key that is that of a protocol parameter is a parameter, wherever else it lies; any
/// other key is a stray one where it lies among the parameters, and unrelated elsewhere.
/// This is what the conversion gives.
pub proof fn law_kinds_of_keys(key: ChangedKey)
    ensures
        key_type(key) == KeyType::PARAMETER <==> key.protocol_parameter,
        key_type(key) == KeyType::UNKNOWN_PARAMETER <==> !key.protocol_parameter && key.parameter,
        key_type(key) == KeyType::UNKNOWN <==> !key.protocol_parameter && !key.parameter,
        <KeyType as FromSpec<&ChangedKey>>::from_spec(&key) == key_type(key),
{
}

/// Each change is judged by itself, and all of them have to be allowed: one to a
/// parameter where governance accepted the proposal, one to a stray key never, any other
/// always, and none where the transaction has no data. A failed lookup is no acceptance.
pub proof fn law_changes_one_by_one(
    has_data: bool,
    keys: Seq<ChangedKey>,
    from: int,
    accepted: bool,
)
    requires
        0 <= from <= keys.len(),
    ensures
        all_allowed(has_data, keys, from, accepted) <==> {
            &&& from < keys.len() ==> has_data
            &&& forall|i: int|
                from <= i < keys.len() && (#[trigger] keys[i]).protocol_parameter ==> accepted
            &&& forall|i: int|
                from <= i < keys.len() && (#[trigger] keys[i]).parameter
                    ==> keys[i].protocol_parameter
        },
        accepts(Some(true)),
        !accepts(Some(false)),
        !accepts(None),
{
    if all_allowed(has_data, keys, from, accepted) {
        assert(from < keys.len() ==> change_allowed(has_data, keys[from], accepted));
    } else {
        let i = choose|i: int|
            from <= i < keys.len() && !change_allowed(has_data, #[trigger] keys[i], accepted);
        assert(!change_allowed(has_data, keys[i], accepted));
    }
}

/// A review stops at the first key that is not unrelated to the parameters: where that is
/// a parameter, governance is asked about the data of the transaction because of it, and
/// where it is a stray key the transaction is invalid. Without data the transaction is
/// invalid as soon as a key is left. A review that finds none of these is over.
pub proof fn law_review_stops_at_first(
    tx_data: Option<Seq<u8>>,
    keys: Seq<ChangedKey>,
    from: int,
)
    requires
        0 <= from <= keys.len(),
    ensures
        match review_from(tx_data, keys, from) {
            ReviewView::AskGovernance { place, tx_data: data } => {
                &&& from <= place < keys.len()
                &&& tx_data == Some(data)
                &&& keys[place].protocol_parameter
                &&& forall|i: int|
                    from <= i < place ==> !(#[trigger] keys[i]).protocol_parameter
                        && !keys[i].parameter
            },
            ReviewView::Decided(true) => {
                &&& from < keys.len() ==> tx_data is Some
                &&& forall|i: int|
                    from <= i < keys.len() ==> !(#[trigger] keys[i]).protocol_parameter
                        && !keys[i].parameter
            },
            ReviewView::Decided(false) => {
                &&& from < keys.len()
                &&& tx_data is Some ==> exists|place: int|
                    {
                        &&& from <= place < keys.len()
                        &&& !(#[trigger] keys[place]).protocol_parameter
                        &&& keys[place].parameter
                        &&& forall|i: int|
                            from <= i < place ==> !(#[trigger] keys[i]).protocol_parameter
                                && !keys[i].parameter
                    }
            },
        },
    decreases keys.len() - from,
{
    if from < keys.len() && tx_data is Some {
        if key_type(keys[from]) == KeyType::UNKNOWN {
            law_review_stops_at_first(tx_data, keys, from + 1);
            if review_from(tx_data, keys, from + 1) == ReviewView::Decided(false) {
                let place = choose|place: int|
                    {
                        &&& from + 1 <= place < keys.len()
                        &&& !(#[trigger] keys[place]).protocol_parameter
                        &&& keys[place].parameter
                        &&& forall|i: int|
                            from + 1 <= i < place ==> !(#[trigger] keys[i]).protocol_parameter
                                && !keys[i].parameter
                    };
                assert(keys[place].parameter);
            }
        } else {
            assert(keys[from].parameter || keys[from].protocol_parameter);
        }
    }
}

/// A review, the data of a transaction and an error hold what they were made from.
pub proof fn law_review_holds(
    valid: bool,
    place: usize,
    data: Vec<u8>,
    failure: NativeVpError,
)
    ensures
        Review::Decided(valid)@ == ReviewView::Decided(valid),
        (Review::AskGovernance { place, tx_data: &data })@ == (ReviewView::AskGovernance {
            place: place as int,
            tx_data: data@,
        }),
        data_of(Some(data)) == Some(data@),
        data_of(None) is None,
        <Error as FromSpec<NativeVpError>>::from_spec(failure) == Error::NativeVpError(failure),
{
}

} // verus!
