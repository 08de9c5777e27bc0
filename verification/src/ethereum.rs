//! Ethereum values: addresses, logs, and the events of the bridge contracts.

use vstd::prelude::*;

verus! {

/// An Ethereum address.
#[derive(Clone, Copy, Debug, PartialEq, Eq)]
pub struct EthAddress {
    pub bytes: [u8; 20],
}

/// The length in bytes of a topic that names or indexes an event.
pub const TOPIC_LEN: usize = 32;

/// An event log, as an Ethereum node hands it out.
pub struct Log {
    /// The topics of the log, of whatever length the node gave them.
    pub topics: Vec<Vec<u8>>,
    /// The data of the log.
    pub data: Vec<u8>,
}

/// An event log that is ready to be decoded.
pub struct RawLog {
    /// The topics, each a hash.
    pub topics: Vec<[u8; 32]>,
    /// The data of the log.
    pub data: Vec<u8>,
}

/// What a log holds.
pub struct LogView {
    pub topics: Seq<Seq<u8>>,
    pub data: Seq<u8>,
}

impl View for Log {
    type V = LogView;

    open spec fn view(&self) -> LogView {
        LogView { topics: self.topics@.map_values(|t: Vec<u8>| t@), data: self.data@ }
    }
}

impl View for RawLog {
    type V = LogView;

    open spec fn view(&self) -> LogView {
        LogView { topics: self.topics@.map_values(|t: [u8; 32]| t@), data: self.data@ }
    }
}

impl LogView {
    /// The log without the topics that are not hashes.
    pub open spec fn hashes_only(self) -> LogView {
        LogView {
            topics: self.topics.filter(|t: Seq<u8>| t.len() == TOPIC_LEN),
            data: self.data,
        }
    }
}

/// `ethabi::Hash::from_slice`: the hash that holds the bytes of the slice. It
/// panics on a slice of any other length than that of a hash.
#[verifier::external_body]
fn hash_of_topic(topic: &Vec<u8>) -> (r: [u8; 32])
    requires
        topic@.len() == TOPIC_LEN,
    ensures
        r@ == topic@,
{
    ethabi::Hash::from_slice(topic.as_slice()).0
}

impl Log {
    /// Converts the log of a node to one that can be decoded: topics that are not
    /// 32 bytes long are left out, the others keep their order.
    pub fn into_ethabi(self) -> (r: RawLog)
        ensures
            r@ == self@.hashes_only(),
    {
        let mut topics: Vec<[u8; 32]> = Vec::new();
        let ghost all = self@.topics;
        let ghost is_hash = |t: Seq<u8>| t.len() == TOPIC_LEN;
        proof {
            reveal(Seq::filter);
            assert(all.take(0).len() == 0);
        }
        for i in 0..self.topics.len()
            invariant
                all == self@.topics,
                is_hash == (|t: Seq<u8>| t.len() == TOPIC_LEN),
                topics@.map_values(|t: [u8; 32]| t@) == all.take(i as int).filter(is_hash),
        {
            let topic = &self.topics[i];
            let ghost before = topics@;
            proof {
                reveal(Seq::filter);
                assert(all.take(i + 1).drop_last() == all.take(i as int));
                assert(all.take(i + 1).last() == topic@);
            }
            if topic.len() == TOPIC_LEN {
                topics.push(hash_of_topic(topic));
                assert(topics@.map_values(|t: [u8; 32]| t@) == before.map_values(
                    |t: [u8; 32]| t@,
                ).push(topic@));
            }
        }
        assert(all.take(all.len() as int) == all);
        RawLog { topics, data: self.data }
    }
}

/// The contract that an event comes from.
#[derive(Clone, Copy, Debug, PartialEq, Eq, Structural)]
pub enum EventKind {
    /// Events of the bridge contract.
    Bridge,
    /// Events of the governance contract.
    Governance,
}

/// A type of event that the bridge contracts emit.
pub struct EventCodec {
    /// The ABI signature of the event.
    pub signature: String,
    /// The contract that emits it.
    pub kind: EventKind,
}

/// The number of types of events.
pub const EVENT_CODECS: usize = 3;

/// The ABI signature of the `i`-th type of event.
pub open spec fn codec_signature(i: int) -> Seq<char> {
    if i == 0 {
        "TransferToChain(uint256,(uint256,address,string)[],uint256)"@
    } else if i == 1 {
        "TransferToErc(uint256,(bytes32,uint256,address,address)[],string)"@
    } else {
        "ValidatorSetUpdate(uint256,bytes32,bytes32)"@
    }
}

/// The signature of the `i`-th codec that `ethbridge_events::event_codecs` lists,
/// by its `event_signature`: the name of the event, and in brackets the types of
/// its fields.
#[verifier::external_body]
fn signature_of_codec(i: usize) -> (r: String)
    requires
        i < EVENT_CODECS,
    ensures
        r@ == codec_signature(i as int),
{
    ethbridge_events::event_codecs()[i].event_signature().into_owned()
}

/// The kind of the `i`-th codec that `ethbridge_events::event_codecs` lists, by its
/// `kind`: all of them are events of the bridge contract.
#[verifier::external_body]
fn kind_of_codec(i: usize) -> (r: EventKind)
    requires
        i < EVENT_CODECS,
    ensures
        r == EventKind::Bridge,
{
    match ethbridge_events::event_codecs()[i].kind() {
        ethbridge_events::EventKind::Bridge => EventKind::Bridge,
    }
}

/// All types of events of the bridge contracts, in the order in which a block is
/// checked for them.
pub fn event_codecs() -> (r: Vec<EventCodec>)
    ensures
        r@.len() == EVENT_CODECS,
        forall|i: int|
            0 <= i < EVENT_CODECS ==> (#[trigger] r@[i]).signature@ == codec_signature(i)
                && r@[i].kind == EventKind::Bridge,
{
    let mut codecs: Vec<EventCodec> = Vec::new();
    for i in 0..EVENT_CODECS
        invariant
            codecs@.len() == i,
            forall|j: int|
                0 <= j < i ==> (#[trigger] codecs@[j]).signature@ == codec_signature(j)
                    && codecs@[j].kind == EventKind::Bridge,
    {
        codecs.push(EventCodec { signature: signature_of_codec(i), kind: kind_of_codec(i) });
    }
    codecs
}

/// What a log holds is its topics, byte by byte and in their order, and its data.
pub proof fn law_log_holds_topics_and_data(log: Log, raw: RawLog)
    ensures
        log@.topics.len() == log.topics@.len(),
        forall|i: int| 0 <= i < log.topics@.len() ==> #[trigger] log@.topics[i] == log.topics@[i]@,
        log@.data == log.data@,
        raw@.topics.len() == raw.topics@.len(),
        forall|i: int| 0 <= i < raw.topics@.len() ==> #[trigger] raw@.topics[i] == raw.topics@[i]@,
        raw@.data == raw.data@,
{
}

/// A log is made ready topic by topic: a topic of 32 bytes is kept as it is, any other is
/// left out, the order stays, and the data is not touched.
pub proof fn law_topics_of_32_bytes_are_kept(
    log: LogView,
    first: Seq<Seq<u8>>,
    topic: Seq<u8>,
)
    ensures
        log.hashes_only().data == log.data,
        (LogView { topics: Seq::empty(), data: log.data }).hashes_only().topics == Seq::<
            Seq<u8>,
        >::empty(),
        ({
            let before = LogView { topics: first, data: log.data };
            let after = LogView { topics: first.push(topic), data: log.data };
            after.hashes_only().topics == if topic.len() == 32 {
                before.hashes_only().topics.push(topic)
            } else {
                before.hashes_only().topics
            }
        }),
{
    reveal(Seq::filter);
    assert(first.push(topic).drop_last() == first);
}

/// The bridge contracts emit three types of events: transfers to the ledger, transfers to
/// Ethereum, and changes of the validator set, in this order.
pub proof fn law_event_types_of_the_bridge()
    ensures
        EVENT_CODECS == 3,
        codec_signature(0) == "TransferToChain(uint256,(uint256,address,string)[],uint256)"@,
        codec_signature(1) == "TransferToErc(uint256,(bytes32,uint256,address,address)[],string)"@,
        codec_signature(2) == "ValidatorSetUpdate(uint256,bytes32,bytes32)"@,
{
}

} // verus!
