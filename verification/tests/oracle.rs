use std::time::Duration;

use namada_ledger::ethereum::{event_codecs, EthAddress, EventCodec, EventKind, Log};
use namada_ledger::oracle::config::{
    await_initial_configuration, update_config, Command, Config, Polled,
};
use namada_ledger::oracle::error::Error;
use namada_ledger::oracle::events::{process_queue, PendingEvent};
use namada_ledger::oracle::process::{sync_status, syncing, Action, Job, Phase, Reply, SyncStatus};
use namada_ledger::oracle::run::{
    Event, Oracle, StopReason, Task, DEFAULT_BACKOFF_MS, DEFAULT_CEILING_MS,
};
use namada_ledger::uint256::Uint256;

const TO_NAMADA: &str = "TransferToNamada(uint256)";
const TO_ERC: &str = "TransferToErc(uint256)";

#[derive(Clone, Debug, PartialEq)]
struct TransferToEthereum {
    amount: u64,
    asset: [u8; 20],
    sender: String,
    receiver: [u8; 20],
    gas_amount: u64,
    gas_payer: String,
}

#[derive(Clone, Debug, PartialEq)]
enum EthereumEvent {
    TransfersToNamada { nonce: u64, transfers: Vec<u8>, valid_transfers_map: Vec<bool> },
    TransfersToEthereum { transfers: Vec<TransferToEthereum> },
}

fn to_namada() -> EthereumEvent {
    EthereumEvent::TransfersToNamada {
        nonce: 0,
        transfers: vec![],
        valid_transfers_map: vec![],
    }
}

fn to_ethereum(gas_payer: &str) -> EthereumEvent {
    EthereumEvent::TransfersToEthereum {
        transfers: vec![TransferToEthereum {
            amount: 0,
            asset: [0; 20],
            sender: gas_payer.to_owned(),
            receiver: [1; 20],
            gas_amount: 0,
            gas_payer: gas_payer.to_owned(),
        }],
    }
}

fn millis(n: u64) -> Duration {
    Duration::from_millis(n)
}

fn height(n: u64) -> Uint256 {
    Uint256::from_u64(n)
}

fn config(min_confirmations: u64) -> Config {
    Config {
        min_confirmations,
        bridge_contract: EthAddress { bytes: [0; 20] },
        governance_contract: EthAddress { bytes: [1; 20] },
        start_block: height(0),
    }
}

fn codecs() -> Vec<EventCodec> {
    vec![
        EventCodec { signature: TO_NAMADA.to_owned(), kind: EventKind::Bridge },
        EventCodec { signature: TO_ERC.to_owned(), kind: EventKind::Bridge },
    ]
}

/// An event that a block of the simulated chain holds.
struct Emitted {
    signature: &'static str,
    height: u64,
    confirmations: u64,
    event: EthereumEvent,
}

/// An oracle over a simulated chain.
struct Simulation {
    oracle: Option<Oracle<EthereumEvent>>,
    task: Option<Task<EthereumEvent>>,
    latest: u64,
    responsive: bool,
    receiver_open: bool,
    emitted: Vec<Emitted>,
    commands: Vec<Command>,
    checked: Vec<(Uint256, Uint256, EthAddress, String)>,
    received: Vec<EthereumEvent>,
    published: Vec<Uint256>,
    slept: Vec<Duration>,
    stopped: bool,
}

impl Simulation {
    fn start(config: Config) -> Simulation {
        let ceiling = millis(DEFAULT_CEILING_MS);
        let oracle = Oracle::with_codecs(codecs(), None, millis(5), ceiling, true);
        let task = oracle.first_task();
        let mut simulation = Simulation {
            oracle: Some(oracle),
            task: Some(task),
            latest: 0,
            responsive: true,
            receiver_open: true,
            emitted: vec![],
            commands: vec![Command::UpdateConfig(config)],
            checked: vec![],
            received: vec![],
            published: vec![],
            slept: vec![],
            stopped: false,
        };
        simulation.pump();
        simulation
    }

    fn new_height(&mut self, latest: u64) {
        self.latest = latest;
        self.pump();
    }

    fn emit(&mut self, signature: &'static str, height: u64, event: EthereumEvent) {
        self.emitted.push(Emitted { signature, height, confirmations: 100, event });
        self.pump();
    }

    /// Lets the oracle run until it waits to try its block again, or stops.
    fn pump(&mut self) {
        let mut attempts = 0;
        while let Some(task) = self.task.take() {
            let event = match task {
                Task::AwaitConfiguration => Event::Configured(Some(self.commands.remove(0))),
                Task::Sleep { time, .. } if attempts == 0 => {
                    attempts += 1;
                    self.slept.push(time);
                    Event::Slept
                }
                Task::Sleep { time, block, error } => {
                    self.task = Some(Task::Sleep { time, block, error });
                    return;
                }
                Task::Publish(block) => {
                    attempts = 0;
                    self.published.push(block);
                    if self.commands.is_empty() {
                        Event::Published(Polled::Empty)
                    } else {
                        Event::Published(Polled::Received(self.commands.remove(0)))
                    }
                }
                Task::Stop(_) => {
                    self.stopped = true;
                    return;
                }
                Task::Process(_) if !self.receiver_open => Event::ReceiverHungUp,
                Task::Process(action) => Event::Processed(self.perform(action)),
            };
            let (oracle, task) = self.oracle.take().unwrap().step(event);
            self.oracle = Some(oracle);
            self.task = Some(task);
        }
    }

    fn perform(&mut self, action: Action<EthereumEvent>) -> Reply<EthereumEvent> {
        match action {
            Action::GetSyncStatus => {
                Reply::SyncStatus(Some(SyncStatus::AtHeight(height(self.latest))))
            }
            Action::CheckForEvents { from_block, to_block, address, signature } => {
                if !self.responsive {
                    return Reply::Logs(Err("no answer".to_owned()));
                }
                let mut logs = vec![];
                for (i, emitted) in self.emitted.iter().enumerate() {
                    if emitted.signature == signature && height(emitted.height) == from_block {
                        logs.push(Log { topics: vec![vec![7; 32], vec![7; 31]], data: vec![i as u8] });
                    }
                }
                self.checked.push((from_block, to_block, address, signature));
                Reply::Logs(Ok(logs))
            }
            Action::Decode { codec: _, block_height, logs, confirmations } => {
                let mut decoded = vec![];
                for log in logs {
                    assert_eq!(log.topics, vec![[7; 32]]);
                    let emitted = &self.emitted[log.data[0] as usize];
                    assert!(confirmations.at_most(&height(emitted.confirmations)));
                    decoded.push(Some(PendingEvent {
                        confirmations: height(emitted.confirmations),
                        block_height,
                        event: emitted.event.clone(),
                    }));
                }
                Reply::Decoded(decoded)
            }
            Action::CheckReceiver => Reply::ReceiverClosed(!self.receiver_open),
            Action::Send(event) => {
                self.received.push(event);
                Reply::Sent(true)
            }
            Action::Finish(_) => panic!("a task is never the end of a check"),
        }
    }

    fn drop_receiver(&mut self) {
        self.receiver_open = false;
        self.pump();
        assert!(self.stopped, "Test failed");
    }

    fn blocks_checked(&self) -> Vec<Uint256> {
        let mut blocks: Vec<Uint256> = vec![];
        for (block, _, _, signature) in &self.checked {
            if signature == TO_NAMADA {
                blocks.push(*block);
            }
        }
        blocks
    }
}

#[test]
fn test_shutdown() {
    let mut simulation = Simulation::start(config(100));
    simulation.responsive = false;
    simulation.pump();
    assert!(!simulation.stopped);
    simulation.drop_receiver();
}

#[test]
fn test_no_logs_no_op() {
    let mut simulation = Simulation::start(config(100));
    simulation.new_height(150);
    assert!(simulation.received.is_empty());
    simulation.drop_receiver();
}

#[test]
fn test_cant_get_new_height() {
    let mut simulation = Simulation::start(config(100));
    simulation.new_height(100);
    simulation.emit(TO_NAMADA, 101, to_namada());
    for _ in 0..100 {
        simulation.pump();
        assert!(simulation.received.is_empty());
    }
    simulation.drop_receiver();
}

#[test]
fn test_wait_on_new_logs() {
    let mut simulation = Simulation::start(config(100));
    simulation.new_height(100);
    simulation.responsive = false;
    simulation.emit(TO_NAMADA, 150, to_namada());
    simulation.new_height(251);
    for _ in 0..100 {
        simulation.pump();
        assert!(simulation.received.is_empty());
    }
    simulation.responsive = true;
    simulation.pump();
    assert_eq!(simulation.received, vec![to_namada()]);
    simulation.drop_receiver();
}

#[test]
fn test_finality_gadget() {
    let mut simulation = Simulation::start(config(100));
    simulation.new_height(100);
    let gas_payer = "atest1gaspayer";
    simulation.emit(TO_ERC, 125, to_ethereum(gas_payer));
    simulation.emit(TO_NAMADA, 100, to_namada());
    simulation.new_height(200);
    assert_eq!(simulation.received.len(), 1);
    match &simulation.received[0] {
        EthereumEvent::TransfersToNamada { nonce, transfers, valid_transfers_map } => {
            assert_eq!(*nonce, 0);
            assert!(transfers.is_empty());
            assert!(valid_transfers_map.is_empty());
        }
        event => panic!("Test failed, {:?}", event),
    }
    for _ in 0..100 {
        simulation.pump();
        assert_eq!(simulation.received.len(), 1);
    }
    simulation.new_height(225);
    assert!(simulation.blocks_checked().contains(&height(125)));
    assert!(simulation
        .checked
        .iter()
        .any(|(block, _, _, signature)| *block == height(125) && signature == TO_ERC));
    simulation.new_height(250);
    assert_eq!(simulation.received.len(), 2);
    match &simulation.received[1] {
        EthereumEvent::TransfersToEthereum { transfers } => {
            assert_eq!(transfers.len(), 1);
            assert_eq!(
                transfers[0],
                TransferToEthereum {
                    amount: Default::default(),
                    asset: [0; 20],
                    sender: gas_payer.to_owned(),
                    receiver: [1; 20],
                    gas_amount: Default::default(),
                    gas_payer: gas_payer.to_owned(),
                }
            );
        }
        _ => panic!("Test failed"),
    }
    simulation.drop_receiver();
}

#[test]
fn test_blocks_checked_sequence() {
    let config = config(100);
    let mut simulation = Simulation::start(config);
    let confirmed_block_height = 9;
    let synced_block_height = config.min_confirmations + confirmed_block_height;
    for height in 0..synced_block_height + 1 {
        simulation.new_height(height);
    }
    let mut expected: Vec<Uint256> = (0..confirmed_block_height + 1).map(height).collect();
    assert_eq!(simulation.blocks_checked(), expected);
    simulation.pump();
    assert_eq!(simulation.blocks_checked(), expected);
    let synced_block_height = synced_block_height + 1;
    simulation.new_height(synced_block_height);
    expected.push(height(confirmed_block_height + 1));
    assert_eq!(simulation.blocks_checked(), expected);
    simulation.drop_receiver();
}

#[test]
fn test_all_blocks_checked() {
    let config = config(100);
    let mut simulation = Simulation::start(config);
    let confirmed_block_height = 9;
    let synced_block_height = config.min_confirmations + confirmed_block_height;
    simulation.new_height(synced_block_height);
    let expected: Vec<Uint256> = (0..confirmed_block_height + 1).map(height).collect();
    assert_eq!(simulation.blocks_checked(), expected);
    let difference = 10;
    let synced_block_height = synced_block_height + difference;
    simulation.new_height(synced_block_height);
    let expected: Vec<Uint256> = (0..confirmed_block_height + difference + 1).map(height).collect();
    assert_eq!(simulation.blocks_checked(), expected);
    simulation.drop_receiver();
}

#[test]
fn published_blocks_follow_each_other() {
    let mut start = config(3);
    start.start_block = height(40);
    let mut simulation = Simulation::start(start);
    let mut moved = config(5);
    moved.start_block = height(1000);
    simulation.commands.push(Command::UpdateConfig(moved));
    simulation.new_height(50);
    let expected: Vec<Uint256> = (40..46).map(height).collect();
    assert_eq!(simulation.published, expected);
    assert_eq!(simulation.slept[0], millis(5));
    for (from, to, address, _) in &simulation.checked {
        assert_eq!(from, to);
        assert_eq!(address.bytes, [0; 20]);
    }
}

#[test]
fn events_are_sent_in_order() {
    let mut simulation = Simulation::start(config(100));
    simulation.emit(TO_ERC, 1, to_ethereum("a"));
    simulation.emit(TO_NAMADA, 1, to_namada());
    simulation.emit(TO_ERC, 1, to_ethereum("b"));
    simulation.emit(TO_NAMADA, 0, to_namada());
    simulation.new_height(101);
    assert_eq!(
        simulation.received,
        vec![to_namada(), to_namada(), to_ethereum("a"), to_ethereum("b")]
    );
}

#[test]
fn event_is_sent_once_it_has_its_confirmations() {
    let mut simulation = Simulation::start(config(100));
    simulation.emitted.push(Emitted {
        signature: TO_NAMADA,
        height: 0,
        confirmations: 150,
        event: to_namada(),
    });
    simulation.new_height(149);
    assert!(simulation.blocks_checked().contains(&height(49)));
    assert!(simulation.received.is_empty());
    simulation.new_height(150);
    assert_eq!(simulation.received, vec![to_namada()]);
    simulation.new_height(400);
    assert_eq!(simulation.received, vec![to_namada()]);
}

#[test]
fn no_event_is_lost_or_sent_twice() {
    let mut simulation = Simulation::start(config(10));
    let emitted = [(0, 13, "a"), (0, 10, "b"), (1, 30, "c"), (2, 11, "d"), (2, 10, "e")];
    for (height, confirmations, gas_payer) in emitted {
        simulation.emitted.push(Emitted {
            signature: TO_ERC,
            height,
            confirmations,
            event: to_ethereum(gas_payer),
        });
    }
    let mut at_height = vec![];
    for latest in 10..40 {
        let before = simulation.received.len();
        simulation.new_height(latest);
        for event in &simulation.received[before..] {
            at_height.push((latest, event.clone()));
        }
    }
    assert_eq!(
        at_height,
        vec![
            (10, to_ethereum("b")),
            (12, to_ethereum("e")),
            (13, to_ethereum("a")),
            (13, to_ethereum("d")),
            (31, to_ethereum("c")),
        ]
    );
}

#[test]
fn failed_check_hands_on_what_waits() {
    let waits = |confirmations: u64, event: u8| PendingEvent {
        confirmations: height(confirmations),
        block_height: height(3),
        event,
    };
    let at_height = |n: u64| Reply::SyncStatus(Some(SyncStatus::AtHeight(height(n))));
    let left = |phase: Phase<u8>| -> Vec<u8> {
        match phase {
            Phase::Done { waiting } => waiting.iter().map(|p| p.event).collect(),
            _ => panic!("the check is not over"),
        }
    };
    let job = Job {
        block: height(4),
        config: config(10),
        last_processed_block: Some(height(3)),
        codecs: codecs(),
    };

    let (phase, _) = Phase::start(vec![waits(12, 1), waits(11, 2)]);
    let (phase, _) = phase.step(&job, at_height(13));
    assert_eq!(left(phase), vec![1, 2]);

    let (phase, _) = Phase::start(vec![waits(12, 1), waits(11, 2)]);
    let (phase, _) = phase.step(&job, at_height(14));
    let (phase, _) = phase.step(&job, Reply::Logs(Err("gone".to_owned())));
    assert_eq!(left(phase), vec![1, 2]);

    let (phase, _) = Phase::start(vec![waits(12, 1), waits(11, 2)]);
    let (phase, _) = phase.step(&job, at_height(14));
    let (phase, _) = phase.step(&job, Reply::Logs(Ok(vec![])));
    let (phase, _) = phase.step(&job, Reply::Decoded(vec![Some(waits(13, 3))]));
    let (phase, action) = phase.step(&job, Reply::ReceiverClosed(false));
    assert!(matches!(action, Action::Send(2)));
    let (phase, _) = phase.step(&job, Reply::Sent(true));
    let (phase, _) = phase.step(&job, Reply::Logs(Err("gone".to_owned())));
    assert_eq!(left(phase), vec![1]);
}

#[test]
fn oracle_without_configuration_stops() {
    let oracle: Oracle<u8> =
        Oracle::new(None, millis(DEFAULT_BACKOFF_MS), millis(DEFAULT_CEILING_MS));
    assert_eq!(oracle.backoff(), millis(500));
    assert_eq!(oracle.ceiling(), Duration::from_secs(30));
    assert!(matches!(oracle.first_task(), Task::AwaitConfiguration));
    let (_, task) = oracle.step(Event::Configured(None));
    assert!(matches!(task, Task::Stop(StopReason::NotConfigured)));
}

#[test]
fn impatient_oracle_stops_when_endpoint_fails() {
    let oracle: Oracle<u8> = Oracle::new(None, millis(1), millis(1));
    let (oracle, _) = oracle.step(Event::Configured(Some(Command::UpdateConfig(config(1)))));
    let status = Some(SyncStatus::AtHeight(height(1)));
    let (oracle, task) = oracle.step(Event::Processed(Reply::SyncStatus(status)));
    match task {
        Task::Process(Action::CheckForEvents { signature, .. }) => {
            assert_eq!(signature, "TransferToChain(uint256,(uint256,address,string)[],uint256)")
        }
        _ => panic!("the first type of event is asked for"),
    }
    let (_, task) = oracle.step(Event::Processed(Reply::Logs(Err("gone".to_owned()))));
    match task {
        Task::Stop(StopReason::Disconnected { block, reason: Error::CheckEvents(_, _, said) }) => {
            assert_eq!(block, height(0));
            assert_eq!(said, "gone");
        }
        _ => panic!("the endpoint is gone"),
    }
}

#[test]
fn unresponsive_node_stops_the_oracle() {
    let oracle: Oracle<u8> = Oracle::with_codecs(codecs(), None, millis(7), millis(8), true);
    let (oracle, _) = oracle.step(Event::Configured(Some(Command::UpdateConfig(config(1)))));
    let (_, task) = oracle.step(Event::Processed(Reply::SyncStatus(None)));
    assert!(matches!(
        task,
        Task::Stop(StopReason::Disconnected { block, reason: Error::Timeout }) if block == height(0)
    ));
}

#[test]
fn receiver_that_hangs_up_stops_the_oracle() {
    let oracle: Oracle<u8> = Oracle::with_codecs(codecs(), None, millis(7), millis(8), true);
    let (oracle, _) = oracle.step(Event::Configured(Some(Command::UpdateConfig(config(1)))));
    let (_, task) = oracle.step(Event::ReceiverHungUp);
    assert!(matches!(task, Task::Stop(StopReason::ReceiverHungUp)));
}

#[test]
fn oracle_waits_for_the_node_to_pass_the_published_block() {
    let start = |last: Option<u64>| {
        let last = last.map(height);
        let oracle: Oracle<u8> = Oracle::with_codecs(codecs(), last, millis(7), millis(8), false);
        oracle.step(Event::Configured(Some(Command::UpdateConfig(config(1))))).0
    };
    let at_height = |n: u64| {
        Event::Processed(Reply::SyncStatus(Some(SyncStatus::AtHeight(height(n)))))
    };
    for (last, latest) in [(9, 9), (10, 9)] {
        let (oracle, task) = start(Some(last)).step(at_height(latest));
        assert!(matches!(
            task,
            Task::Sleep { time, block, error: Error::FallenBehind }
                if time == millis(7) && block == height(0)
        ));
        let (oracle, _) = oracle.step(Event::Slept);
        let (_, task) = oracle.step(at_height(last + 1));
        assert!(matches!(task, Task::Process(Action::CheckForEvents { .. })));
    }
    for last in [None, Some(8)] {
        let (_, task) = start(last).step(at_height(9));
        assert!(matches!(task, Task::Process(Action::CheckForEvents { .. })));
    }
}

#[test]
fn events_found_before_the_endpoint_fails_are_sent() {
    let oracle: Oracle<u8> = Oracle::with_codecs(codecs(), None, millis(7), millis(8), true);
    let (oracle, _) = oracle.step(Event::Configured(Some(Command::UpdateConfig(config(2)))));
    let status = Some(SyncStatus::AtHeight(height(2)));
    let (oracle, _) = oracle.step(Event::Processed(Reply::SyncStatus(status)));
    let (oracle, _) = oracle.step(Event::Processed(Reply::Logs(Ok(vec![]))));
    let found = |confirmations: u64, event: u8| {
        Some(PendingEvent { confirmations: height(confirmations), block_height: height(0), event })
    };
    let decoded = Reply::Decoded(vec![found(2, 5), found(3, 6), found(2, 7)]);
    let (oracle, _) = oracle.step(Event::Processed(decoded));
    let (oracle, task) = oracle.step(Event::Processed(Reply::ReceiverClosed(false)));
    assert!(matches!(task, Task::Process(Action::Send(5))));
    let (oracle, task) = oracle.step(Event::Processed(Reply::Sent(true)));
    assert!(matches!(task, Task::Process(Action::Send(7))));
    let (oracle, task) = oracle.step(Event::Processed(Reply::Sent(true)));
    assert!(matches!(
        task,
        Task::Process(Action::CheckForEvents { signature, .. }) if signature == TO_ERC
    ));
    let (_, task) = oracle.step(Event::Processed(Reply::Logs(Err("gone".to_owned()))));
    assert!(matches!(
        task,
        Task::Sleep { block, error: Error::CheckEvents(signature, _, _), .. }
            if block == height(0) && signature == TO_ERC
    ));
}

#[test]
fn node_that_catches_up_is_waited_for() {
    let oracle: Oracle<u8> = Oracle::with_codecs(codecs(), None, millis(7), millis(8), false);
    let (oracle, _) = oracle.step(Event::Configured(Some(Command::UpdateConfig(config(1)))));
    let (oracle, task) =
        oracle.step(Event::Processed(Reply::SyncStatus(Some(SyncStatus::Syncing))));
    assert!(matches!(
        task,
        Task::Sleep { time, error: Error::FallenBehind, .. } if time == millis(7)
    ));
    let (_, task) = oracle.step(Event::Slept);
    assert!(matches!(task, Task::Process(Action::GetSyncStatus)));
}

#[test]
fn codecs_of_the_bridge() {
    let codecs = event_codecs();
    let signatures: Vec<&str> = codecs.iter().map(|c| c.signature.as_str()).collect();
    assert_eq!(
        signatures,
        vec![
            "TransferToChain(uint256,(uint256,address,string)[],uint256)",
            "TransferToErc(uint256,(bytes32,uint256,address,address)[],string)",
            "ValidatorSetUpdate(uint256,bytes32,bytes32)",
        ]
    );
    assert!(codecs.iter().all(|c| c.kind == EventKind::Bridge));
}

fn job(block: u64, last: Option<u64>) -> Job {
    Job {
        block: height(block),
        config: config(10),
        last_processed_block: last.map(height),
        codecs: vec![EventCodec { signature: "Vote()".to_owned(), kind: EventKind::Governance }],
    }
}

fn finish_of(action: Action<u8>) -> Result<(), Error> {
    match action {
        Action::Finish(outcome) => outcome,
        _ => panic!("the check is not over"),
    }
}

#[test]
fn governance_events_come_from_the_governance_contract() {
    let job = job(4, None);
    let (phase, action): (Phase<u8>, Action<u8>) = Phase::start(vec![]);
    assert!(matches!(action, Action::GetSyncStatus));
    let (_, action) =
        phase.step(&job, Reply::SyncStatus(Some(SyncStatus::AtHeight(height(14)))));
    match action {
        Action::CheckForEvents { from_block, to_block, address, signature } => {
            assert_eq!(from_block, height(4));
            assert_eq!(to_block, height(4));
            assert_eq!(address.bytes, [1; 20]);
            assert_eq!(signature, "Vote()");
        }
        _ => panic!("the node is asked for logs"),
    }
}

#[test]
fn block_without_confirmations_is_not_checked() {
    let (phase, _): (Phase<u8>, Action<u8>) = Phase::start(vec![]);
    let status = Some(SyncStatus::AtHeight(height(13)));
    let (_, action) = phase.step(&job(4, None), Reply::SyncStatus(status));
    assert!(matches!(finish_of(action), Err(Error::MoreConfirmations)));
}

#[test]
fn node_behind_the_last_block_has_fallen_behind() {
    let (phase, _): (Phase<u8>, Action<u8>) = Phase::start(vec![]);
    let status = Some(SyncStatus::AtHeight(height(30)));
    let (_, action) = phase.step(&job(4, Some(30)), Reply::SyncStatus(status));
    assert!(matches!(finish_of(action), Err(Error::FallenBehind)));
}

#[test]
fn sync_answers() {
    let at = |n: u64| Some(SyncStatus::AtHeight(height(n)));
    assert!(matches!(syncing(None, &None), Err(Error::Timeout)));
    assert!(matches!(syncing(Some(SyncStatus::Syncing), &None), Ok(SyncStatus::Syncing)));
    assert!(matches!(syncing(at(5), &None), Ok(SyncStatus::AtHeight(h)) if h == height(5)));
    assert!(matches!(syncing(at(5), &Some(height(4))), Ok(SyncStatus::AtHeight(h)) if h == height(5)));
    assert!(matches!(syncing(at(5), &Some(height(5))), Err(Error::FallenBehind)));
    assert!(matches!(syncing(at(5), &Some(height(6))), Err(Error::FallenBehind)));
}

#[test]
fn node_at_height_zero_is_catching_up() {
    assert!(matches!(sync_status(false, height(0)), SyncStatus::Syncing));
    assert!(matches!(sync_status(true, height(9)), SyncStatus::Syncing));
    assert!(matches!(sync_status(false, height(9)), SyncStatus::AtHeight(h) if h == height(9)));
}

#[test]
fn oracle_says_what_it_can_take() {
    let mut high = config(2);
    high.start_block = Uint256::max().minus(&height(1));
    let oracle: Oracle<u8> = Oracle::with_codecs(codecs(), None, millis(1), millis(1), false);
    assert!(!oracle.can_take(&Event::Slept));
    assert!(!oracle.can_take(&Event::Configured(Some(Command::UpdateConfig(config(0))))));
    let (oracle, _) = oracle.step(Event::Configured(Some(Command::UpdateConfig(high))));
    let at_top = Some(SyncStatus::AtHeight(Uint256::max()));
    assert!(!oracle.can_take(&Event::Processed(Reply::SyncStatus(at_top))));
    assert!(oracle.can_take(&Event::Processed(Reply::SyncStatus(None))));
    assert!(!oracle.can_take(&Event::Processed(Reply::Sent(true))));
    assert!(oracle.can_take(&Event::ReceiverHungUp));
}

#[test]
fn receiver_that_hangs_up_ends_the_check() {
    let job = job(4, None);
    let (phase, _): (Phase<u8>, Action<u8>) = Phase::start(vec![]);
    let (phase, _) = phase.step(&job, Reply::SyncStatus(Some(SyncStatus::AtHeight(height(14)))));
    let (phase, _) = phase.step(&job, Reply::Logs(Ok(vec![])));
    let event = PendingEvent { confirmations: height(10), block_height: height(4), event: 3u8 };
    let (phase, action) = phase.step(&job, Reply::Decoded(vec![None, Some(event)]));
    assert!(matches!(action, Action::CheckReceiver));
    let (phase, action) = phase.step(&job, Reply::ReceiverClosed(false));
    assert!(matches!(action, Action::Send(3)));
    let (_, action) = phase.step(&job, Reply::Sent(false));
    match finish_of(action) {
        Err(Error::Channel(signature, address)) => {
            assert_eq!(signature, "Vote()");
            assert_eq!(address.bytes, [1; 20]);
        }
        _ => panic!("the receiver is gone"),
    }
}

#[test]
fn closed_receiver_is_noticed_without_events() {
    let job = job(4, None);
    let (phase, _): (Phase<u8>, Action<u8>) = Phase::start(vec![]);
    let (phase, _) = phase.step(&job, Reply::SyncStatus(Some(SyncStatus::AtHeight(height(14)))));
    let (phase, _) = phase.step(&job, Reply::Logs(Ok(vec![])));
    let (phase, _) = phase.step(&job, Reply::Decoded(vec![]));
    let (_, action) = phase.step(&job, Reply::ReceiverClosed(true));
    assert!(matches!(finish_of(action), Err(Error::Channel(_, _))));
}

#[test]
fn check_of_all_types_ends_well() {
    let job = job(4, Some(3));
    let (phase, _): (Phase<u8>, Action<u8>) = Phase::start(vec![]);
    let (phase, _) = phase.step(&job, Reply::SyncStatus(Some(SyncStatus::AtHeight(height(14)))));
    let (phase, action) = phase.step(
        &job,
        Reply::Logs(Ok(vec![Log { topics: vec![vec![1; 32], vec![2; 20], vec![3; 32]], data: vec![9] }])),
    );
    match action {
        Action::Decode { codec, block_height, logs, confirmations } => {
            assert_eq!(codec, 0);
            assert_eq!(block_height, height(4));
            assert_eq!(confirmations, height(10));
            assert_eq!(logs.len(), 1);
            assert_eq!(logs[0].topics, vec![[1; 32], [3; 32]]);
            assert_eq!(logs[0].data, vec![9]);
        }
        _ => panic!("the logs are decoded"),
    }
    let (phase, _) = phase.step(&job, Reply::Decoded(vec![None]));
    let (_, action) = phase.step(&job, Reply::ReceiverClosed(false));
    assert!(finish_of(action).is_ok());
}

#[test]
fn queue_is_split_by_confirmations() {
    let pending = |block: u64, confirmations: u64, event: u8| PendingEvent {
        confirmations: height(confirmations),
        block_height: height(block),
        event,
    };
    let mut queue = vec![pending(100, 100, 1), pending(125, 100, 2), pending(90, 111, 3), pending(0, 200, 4)];
    assert_eq!(process_queue(&height(200), &mut queue), vec![1, 4]);
    assert_eq!(queue.len(), 2);
    assert_eq!(queue[0].event, 2);
    assert_eq!(queue[1].event, 3);
    assert!(process_queue(&height(200), &mut queue).is_empty());
    assert_eq!(process_queue(&height(225), &mut queue), vec![2, 3]);
    assert!(queue.is_empty());
}

#[test]
fn event_of_a_future_block_is_not_confirmed() {
    let event = PendingEvent { confirmations: height(0), block_height: height(8), event: 0u8 };
    assert!(!event.is_confirmed(&height(7)));
    assert!(event.is_confirmed(&height(8)));
}

#[test]
fn commands_bring_configurations() {
    let command = Command::UpdateConfig(config(6));
    assert_eq!(await_initial_configuration(Some(command)).unwrap().min_confirmations, 6);
    assert!(await_initial_configuration(None).is_none());
    assert_eq!(update_config(Polled::Received(command)).unwrap().min_confirmations, 6);
    assert!(update_config(Polled::Empty).is_none());
}

#[test]
fn errors_in_words() {
    let address = EthAddress {
        bytes: [
            0x5a, 0xae, 0xb6, 0x05, 0x3f, 0x3e, 0x94, 0xc9, 0xb9, 0xa0, 0x9f, 0x33, 0x66, 0x94,
            0x35, 0xe7, 0xef, 0x1b, 0xea, 0xed,
        ],
    };
    let written = "0x5aAeb6053F3E94C9b9A09f33669435E7Ef1BeAed";
    assert_eq!(Error::FallenBehind.message(), "Ethereum node has fallen out of sync");
    assert_eq!(
        Error::CheckEvents("Vote()".to_owned(), address, "no answer".to_owned()).message(),
        format!("Couldn't check for events (Vote() from {}) with the RPC endpoint: no answer", written)
    );
    assert_eq!(
        Error::Channel("Vote()".to_owned(), address).message(),
        format!("Could not send all bridge events (Vote() from {}) to the shell", written)
    );
    assert_eq!(
        Error::Channel("Vote()".to_owned(), address).message_with("there"),
        "Could not send all bridge events (Vote() from there) to the shell"
    );
    assert_eq!(
        Error::MoreConfirmations.message(),
        "Need more confirmations for oracle to continue processing blocks."
    );
    assert_eq!(Error::Timeout.message(), "The Ethereum oracle timed out");
    assert!(Error::FallenBehind.is_recoverable());
    assert!(Error::MoreConfirmations.is_recoverable());
    assert!(!Error::Timeout.is_recoverable());
    assert!(!Error::Channel("Vote()".to_owned(), address).is_recoverable());
}

#[test]
fn heights_are_numbers() {
    let big = Uint256 { bytes: [255; 32] };
    let one = height(1);
    assert_eq!(height(0x0102).bytes[30..], [1, 2]);
    assert_eq!(height(255).plus(&one), height(256));
    assert_eq!(height(256).minus(&one), height(255));
    assert!(height(255).at_most(&height(256)));
    assert!(!height(256).at_most(&height(255)));
    assert!(big.at_most(&big));
    assert_eq!(big.minus(&one).plus(&one), big);
    assert_eq!(Uint256::max(), big);
    assert!(big.minus(&one).can_add(&one));
    assert!(!big.can_add(&one));
}
