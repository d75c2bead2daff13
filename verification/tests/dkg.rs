use fastcrypto::bls12381::min_sig::BLS12381KeyPair;
use fastcrypto::groups::bls12381::{G2Element, Scalar};
use fastcrypto::groups::GroupElement;
use fastcrypto::serde_helpers::ToFromByteArray;
use fastcrypto::traits::{KeyPair, ToFromBytes};
use rand::rngs::StdRng;
use rand::SeedableRng;
use randomness::dkg::{Confirmation, Message, PublicKey};
use randomness::manager::{RandomnessManager, Startup};
use randomness::setup::{Committee, CommitteeMember, EpochSetup, ProtocolConfig};
use randomness::state::{
    ConsensusTransaction, ConsensusTransactionKind, DkgAction, EpochUpdate, Reception, RoundAction,
};
use randomness::store::{DBBatch, Refusal, StoredRows, TableWrite};
use randomness::types::{
    AuthorityName, DkgMetrics, EpochStore, PeerId, RandomnessRound, SuiError, SuiResult,
};

const TIMEOUT_ROUND: u32 = 200;

fn no_rows() -> StoredRows {
    StoredRows {
        dkg_processed_messages: vec![],
        dkg_used_messages: None,
        dkg_confirmations: vec![],
        dkg_output: None,
        randomness_next_round: None,
        randomness_rounds_pending: vec![],
    }
}

fn no_metrics() -> DkgMetrics {
    DkgMetrics {
        epoch_random_beacon_dkg_num_shares: -1,
        epoch_random_beacon_dkg_message_time_ms: -1,
        epoch_random_beacon_dkg_confirmation_time_ms: -1,
        epoch_random_beacon_dkg_epoch_start_completion_time_ms: -1,
        epoch_random_beacon_dkg_completion_time_ms: -1,
        epoch_random_beacon_dkg_failed: -1,
    }
}

/// What a write does to the rows of the tables.
fn write(rows: &mut StoredRows, batch: DBBatch) {
    for write in batch.writes {
        match write {
            TableWrite::DkgProcessedMessages(key, row) => {
                rows.dkg_processed_messages.retain(|(k, _)| *k != key);
                rows.dkg_processed_messages.push((key, row));
            }
            TableWrite::DkgUsedMessages(key, row) => {
                assert_eq!(key, 0);
                rows.dkg_used_messages = Some(row);
            }
            TableWrite::DkgConfirmations(key, row) => {
                rows.dkg_confirmations.retain(|(k, _)| *k != key);
                rows.dkg_confirmations.push((key, row));
            }
            TableWrite::DkgOutput(key, row) => {
                assert_eq!(key, 0);
                rows.dkg_output = Some(row);
            }
            TableWrite::RandomnessRoundsPending(round) => {
                rows.randomness_rounds_pending.push(round);
            }
            TableWrite::RandomnessNextRound(key, round) => {
                assert_eq!(key, 0);
                rows.randomness_next_round = Some(round);
            }
        }
    }
}

struct Validator {
    name: AuthorityName,
    private_key: [u8; 32],
    store: EpochStore,
    metrics: DkgMetrics,
    rows: StoredRows,
    manager: RandomnessManager,
}

struct Network {
    names: Vec<AuthorityName>,
    private_keys: Vec<[u8; 32]>,
    setup: EpochSetup,
}

/// Validators with the given stakes, before any of them runs.
fn network(stakes: &[u64], validity_threshold: u64, config: ProtocolConfig, epoch: u64) -> Network {
    let mut rng = StdRng::from_seed([7; 32]);
    let mut names = Vec::new();
    let mut private_keys = Vec::new();
    let mut members = Vec::new();
    let mut peer_ids = Vec::new();
    for (i, stake) in stakes.iter().enumerate() {
        let key_pair = BLS12381KeyPair::generate(&mut rng);
        let public: [u8; 96] = key_pair.public().as_bytes().try_into().unwrap();
        let private: [u8; 32] = key_pair.private().as_bytes().try_into().unwrap();
        let name = AuthorityName { bytes: public };
        members.push(CommitteeMember {
            name,
            index: i as u32,
            public_key: PublicKey { bytes: public },
            stake: *stake,
        });
        peer_ids.push((name, PeerId { bytes: [i as u8; 32] }));
        names.push(name);
        private_keys.push(private);
    }
    Network {
        names,
        private_keys,
        setup: EpochSetup {
            committee: Committee { epoch, members, validity_threshold },
            protocol_config: config,
            chain_identifier: [9; 32],
            peer_ids,
        },
    }
}

fn large() -> Network {
    let config = ProtocolConfig {
        random_beacon_reduction_allowed_delta: 800,
        random_beacon_reduction_lower_bound: 500,
    };
    network(&[2500, 2500, 2500, 2500], 3334, config, 0)
}

fn small_in(epoch: u64) -> Network {
    let config = ProtocolConfig {
        random_beacon_reduction_allowed_delta: 0,
        random_beacon_reduction_lower_bound: 20,
    };
    network(&[5, 5, 5, 5], 7, config, epoch)
}

fn small() -> Network {
    small_in(3)
}

impl Network {
    fn store(&self, i: usize) -> EpochStore {
        EpochStore {
            name: self.names[i],
            epoch: self.setup.committee.epoch,
            tables: Ok(()),
            dkg_timeout_round: TIMEOUT_ROUND,
            epoch_open_time: 1_000,
        }
    }

    fn start(&self, i: usize, rows: &StoredRows, metrics: &mut DkgMetrics)
        -> Option<(RandomnessManager, Startup)> {
        let store = self.store(i);
        RandomnessManager::try_new(Some(&store), &self.setup, rows, &self.private_keys[i], metrics)
    }

    fn validator(&self, i: usize) -> Validator {
        let mut metrics = no_metrics();
        let (manager, startup) = self.start(i, &no_rows(), &mut metrics).unwrap();
        assert!(startup.update.is_none());
        assert!(startup.rounds.is_empty());
        assert_eq!(metrics, no_metrics());
        Validator {
            name: self.names[i],
            private_key: self.private_keys[i],
            store: self.store(i),
            metrics,
            rows: no_rows(),
            manager,
        }
    }

    fn validators(&self) -> Vec<Validator> {
        (0..self.names.len()).map(|i| self.validator(i)).collect()
    }
}

impl Validator {
    /// Begins key generation. Transactions go to `sent`, and are taken at all times.
    fn start_dkg(&mut self, now: u64, sent: &mut Vec<ConsensusTransaction>) -> SuiResult<()> {
        match self.manager.start_dkg(Some(&self.store), now) {
            DkgAction::Submit(transaction) => {
                sent.push(transaction);
                self.manager.message_submitted(&mut self.metrics, now + 5, Ok(()))
            }
            DkgAction::Return { update, result } => {
                assert!(update.is_none());
                result
            }
        }
    }

    /// Advances key generation.
    fn advance(
        &mut self,
        batch: &mut DBBatch,
        round: u64,
        now: u64,
        sent: &mut Vec<ConsensusTransaction>,
    ) -> (Option<EpochUpdate>, SuiResult<()>) {
        let store = self.store;
        let mut action =
            self.manager.advance_dkg(Some(&store), batch, &mut self.metrics, round, now);
        if let DkgAction::Submit(transaction) = action {
            sent.push(transaction);
            action = self.manager.confirmation_submitted(
                &store,
                batch,
                &mut self.metrics,
                round,
                now,
                Ok(()),
            );
        }
        match action {
            DkgAction::Submit(_) => panic!("more than one submission"),
            DkgAction::Return { update, result } => (update, result),
        }
    }

    fn add_message(&mut self, batch: &mut DBBatch, from: AuthorityName, message: Message) {
        self.manager.add_message(Some(&self.store), batch, &from, message).unwrap();
    }

    fn add_confirmation(&mut self, batch: &mut DBBatch, from: AuthorityName, c: Confirmation) {
        self.manager.add_confirmation(Some(&self.store), batch, &from, c).unwrap();
    }
}

fn message_of(transaction: &ConsensusTransaction) -> (AuthorityName, Message) {
    match &transaction.kind {
        ConsensusTransactionKind::RandomnessDkgMessage(name, message) => {
            let bytes = bcs::to_bytes(&message.content).unwrap();
            let content =
                bcs::from_bytes(&bytes).expect("DKG message deserialization should not fail");
            (*name, Message { content })
        }
        _ => panic!("wrong type of message sent"),
    }
}

fn confirmation_of(transaction: &ConsensusTransaction) -> (AuthorityName, Confirmation) {
    match &transaction.kind {
        ConsensusTransactionKind::RandomnessDkgConfirmation(name, confirmation) => {
            let bytes = bcs::to_bytes(&confirmation.content).unwrap();
            let content =
                bcs::from_bytes(&bytes).expect("DKG confirmation deserialization should not fail");
            (*name, Confirmation { content })
        }
        _ => panic!("wrong type of message sent"),
    }
}

/// Has all validators send their messages, and returns them.
fn all_messages(validators: &mut [Validator]) -> Vec<ConsensusTransaction> {
    let mut sent = Vec::new();
    for validator in validators.iter_mut() {
        validator.start_dkg(2_000, &mut sent).unwrap();
    }
    sent
}

/// Hands messages to all validators and has them confirm.
fn all_confirmations(
    validators: &mut [Validator],
    messages: &[ConsensusTransaction],
) -> Vec<ConsensusTransaction> {
    let mut sent = Vec::new();
    for validator in validators.iter_mut() {
        let mut batch = DBBatch::new();
        for transaction in messages {
            let (from, message) = message_of(transaction);
            validator.add_message(&mut batch, from, message);
        }
        let (update, result) = validator.advance(&mut batch, 0, 2_300, &mut sent);
        assert!(update.is_none());
        assert_eq!(result, Ok(()));
        write(&mut validator.rows, batch);
    }
    sent
}

#[test]
fn test_dkg() {
    let network = large();
    let mut validators = network.validators();

    // Generate and distribute messages.
    let mut sent = Vec::new();
    let mut messages = Vec::new();
    for validator in validators.iter_mut() {
        validator.start_dkg(2_000, &mut sent).unwrap();
        messages.push(message_of(&sent.pop().unwrap()).1);
        assert!(sent.is_empty());
    }
    let mut confirmations = Vec::new();
    for i in 0..validators.len() {
        let mut batch = DBBatch::new();
        for (j, message) in messages.iter().enumerate() {
            let bytes = bcs::to_bytes(&message.content).unwrap();
            let copy = Message { content: bcs::from_bytes(&bytes).unwrap() };
            let from = network.names[j];
            validators[i].add_message(&mut batch, from, copy);
        }
        assert_eq!(validators[i].advance(&mut batch, 0, 2_300, &mut sent).1, Ok(()));
        let rows = &mut validators[i].rows;
        write(rows, batch);
        assert_eq!(rows.dkg_processed_messages.len(), 4);
        assert!(rows.dkg_used_messages.is_some());
    }

    // Generate and distribute confirmations.
    assert_eq!(sent.len(), 4);
    for transaction in &sent {
        confirmations.push(confirmation_of(transaction).1);
    }
    for i in 0..validators.len() {
        let mut batch = DBBatch::new();
        for (j, confirmation) in confirmations.iter().enumerate() {
            let copy = confirmation.clone();
            let from = network.names[j];
            validators[i].add_confirmation(&mut batch, from, copy);
        }
        let (update, result) = validators[i].advance(&mut batch, 0, 2_600, &mut sent);
        assert_eq!(result, Ok(()));
        let update = update.unwrap();
        assert_eq!(update.epoch, 0);
        // Weights are divided by twenty.
        assert_eq!(update.threshold, 167);
        assert_eq!(update.output.num_shares(), 125);
        write(&mut validators[i].rows, batch);
    }

    // Verify that key generation completed.
    for validator in &validators {
        assert!(validator.manager.is_dkg_successful());
        assert!(validator.manager.is_dkg_closed());
        assert_eq!(validator.metrics.epoch_random_beacon_dkg_num_shares, 125);
    }
}

#[test]
fn test_dkg_expiration() {
    let network = large();
    let mut validators = network.validators();

    // Generate and distribute messages.
    let mut sent = Vec::new();
    let mut messages = Vec::new();
    for validator in validators.iter_mut() {
        validator.start_dkg(2_000, &mut sent).unwrap();
        messages.push(message_of(&sent.pop().unwrap()).1);
    }
    for i in 0..validators.len() {
        let mut batch = DBBatch::new();
        for (j, message) in messages.iter().enumerate() {
            let bytes = bcs::to_bytes(&message.content).unwrap();
            let copy = Message { content: bcs::from_bytes(&bytes).unwrap() };
            let from = network.names[j];
            validators[i].add_message(&mut batch, from, copy);
        }
        assert_eq!(validators[i].advance(&mut batch, u64::MAX, 2_300, &mut sent).1, Ok(()));
        write(&mut validators[i].rows, batch);
    }

    // Verify that key generation failed.
    for validator in &validators {
        assert!(validator.manager.is_dkg_closed());
        assert!(!validator.manager.is_dkg_successful());
        assert_eq!(validator.metrics.epoch_random_beacon_dkg_failed, 1);
    }
}

#[test]
fn gauges_follow_key_generation() {
    let network = small();
    let mut validators = network.validators();
    let messages = all_messages(&mut validators);
    assert_eq!(validators[0].metrics.epoch_random_beacon_dkg_message_time_ms, 5);
    let confirmations = all_confirmations(&mut validators, &messages);
    assert_eq!(validators[0].metrics.epoch_random_beacon_dkg_confirmation_time_ms, 300);
    assert_eq!(validators[0].metrics.epoch_random_beacon_dkg_completion_time_ms, -1);
    let mut batch = DBBatch::new();
    for transaction in &confirmations {
        let (from, confirmation) = confirmation_of(transaction);
        validators[0].add_confirmation(&mut batch, from, confirmation);
    }
    let mut sent = Vec::new();
    let (update, result) = validators[0].advance(&mut batch, 7, 2_750, &mut sent);
    assert_eq!(result, Ok(()));
    assert!(sent.is_empty());
    let update = update.unwrap();
    assert_eq!(update.epoch, 3);
    assert_eq!(update.threshold, 7);
    assert_eq!(
        validators[0].metrics,
        DkgMetrics {
            epoch_random_beacon_dkg_num_shares: 5,
            epoch_random_beacon_dkg_message_time_ms: 5,
            epoch_random_beacon_dkg_confirmation_time_ms: 300,
            epoch_random_beacon_dkg_epoch_start_completion_time_ms: 1_750,
            epoch_random_beacon_dkg_completion_time_ms: 750,
            epoch_random_beacon_dkg_failed: 0,
        }
    );
}

#[test]
fn clock_runs_from_first_start() {
    let network = small();
    let mut validator = network.validator(0);
    let mut sent = Vec::new();
    assert_eq!(validator.start_dkg(2_000, &mut sent), Ok(()));
    assert_eq!(validator.start_dkg(5_000, &mut sent), Ok(()));
    // The message goes out again, but the time counts from the first call.
    assert_eq!(sent.len(), 2);
    assert_eq!(validator.metrics.epoch_random_beacon_dkg_message_time_ms, 3_005);
    assert_eq!(sent[0].kind_name(), validator.name);
    let commitment = message_of(&sent[0]).1.content.vss_pk;
    assert_eq!(message_of(&sent[1]).1.content.vss_pk, commitment);
}

trait KindName {
    fn kind_name(&self) -> AuthorityName;
}

impl KindName for ConsensusTransaction {
    fn kind_name(&self) -> AuthorityName {
        match &self.kind {
            ConsensusTransactionKind::RandomnessDkgMessage(name, _) => *name,
            ConsensusTransactionKind::RandomnessDkgConfirmation(name, _) => *name,
        }
    }
}

#[test]
fn confirms_once_threshold_is_met() {
    let network = small();
    let mut validators = network.validators();
    let messages = all_messages(&mut validators);
    let mut batch = DBBatch::new();
    let mut sent = Vec::new();
    // One dealer weighs five, and it takes seven.
    let (from, message) = message_of(&messages[1]);
    validators[0].add_message(&mut batch, from, message);
    assert_eq!(validators[0].advance(&mut batch, 1, 2_100, &mut sent).1, Ok(()));
    assert!(sent.is_empty());
    // The same dealer again changes nothing about that.
    let (from, message) = message_of(&messages[1]);
    validators[0].add_message(&mut batch, from, message);
    assert_eq!(validators[0].advance(&mut batch, 2, 2_100, &mut sent).1, Ok(()));
    assert!(sent.is_empty());
    // Two dealers weigh ten.
    let (from, message) = message_of(&messages[2]);
    validators[0].add_message(&mut batch, from, message);
    assert_eq!(validators[0].advance(&mut batch, 3, 2_100, &mut sent).1, Ok(()));
    assert_eq!(sent.len(), 1);
    let (from, confirmation) = confirmation_of(&sent[0]);
    assert_eq!(from, network.names[0]);
    assert_eq!(confirmation.content.sender, 0);
    assert!(confirmation.content.complaints.is_empty());
    // From now on messages are of no use, and there is no second confirmation.
    let writes = batch.writes.len();
    let (from, message) = message_of(&messages[3]);
    validators[0].add_message(&mut batch, from, message);
    assert_eq!(batch.writes.len(), writes);
    assert_eq!(validators[0].advance(&mut batch, 4, 2_100, &mut sent).1, Ok(()));
    assert_eq!(sent.len(), 1);
    assert_eq!(validators[0].start_dkg(9_000, &mut sent), Ok(()));
    assert_eq!(sent.len(), 1);
    match &batch.writes[writes - 1] {
        TableWrite::DkgUsedMessages(_, used) => {
            let senders: Vec<u16> = used.content.0.iter().map(|m| m.message.sender).collect();
            assert_eq!(senders, vec![1, 2]);
        }
        _ => panic!("used messages are written last"),
    }
}

#[test]
fn completes_once_enough_have_confirmed() {
    let network = small();
    let mut validators = network.validators();
    let messages = all_messages(&mut validators);
    let confirmations = all_confirmations(&mut validators, &messages);
    let mut batch = DBBatch::new();
    let mut sent = Vec::new();
    // It takes thirteen; two weigh ten.
    for transaction in &confirmations[..2] {
        let (from, confirmation) = confirmation_of(transaction);
        validators[3].add_confirmation(&mut batch, from, confirmation);
    }
    let (update, result) = validators[3].advance(&mut batch, 4, 2_700, &mut sent);
    assert!(update.is_none());
    assert_eq!(result, Ok(()));
    assert!(!validators[3].manager.is_dkg_closed());
    let (from, confirmation) = confirmation_of(&confirmations[2]);
    validators[3].add_confirmation(&mut batch, from, confirmation);
    // The last round is long over, but there is an output.
    let (update, result) = validators[3].advance(&mut batch, u64::MAX, 2_700, &mut sent);
    assert!(update.is_some());
    assert_eq!(result, Ok(()));
    assert!(validators[3].manager.is_dkg_successful());
    // Later confirmations are of no use, and the output stays.
    let writes = batch.writes.len();
    let (from, confirmation) = confirmation_of(&confirmations[3]);
    validators[3].add_confirmation(&mut batch, from, confirmation);
    assert_eq!(batch.writes.len(), writes);
    let (update, result) = validators[3].advance(&mut batch, u64::MAX, 2_700, &mut sent);
    assert!(update.is_none());
    assert_eq!(result, Ok(()));
    assert!(validators[3].manager.is_dkg_successful());
    assert_eq!(validators[3].metrics.epoch_random_beacon_dkg_failed, 0);
    assert!(sent.is_empty());
}

#[test]
fn fails_only_after_last_round() {
    let network = small();
    let mut validator = network.validator(2);
    let mut batch = DBBatch::new();
    let mut sent = Vec::new();
    assert_eq!(validator.advance(&mut batch, TIMEOUT_ROUND as u64, 2_000, &mut sent).1, Ok(()));
    assert!(!validator.manager.is_dkg_closed());
    assert_eq!(validator.metrics.epoch_random_beacon_dkg_failed, -1);
    assert_eq!(
        validator.advance(&mut batch, TIMEOUT_ROUND as u64 + 1, 2_000, &mut sent).1,
        Ok(())
    );
    assert!(validator.manager.is_dkg_closed());
    assert!(!validator.manager.is_dkg_successful());
    assert_eq!(validator.metrics.epoch_random_beacon_dkg_failed, 1);
    assert!(batch.writes.is_empty());
    // That is final.
    assert_eq!(validator.start_dkg(3_000, &mut sent), Ok(()));
    assert!(sent.is_empty());
}

#[test]
fn nobody_speaks_for_another() {
    let network = small();
    let mut validators = network.validators();
    let messages = all_messages(&mut validators);
    let confirmations = all_confirmations(&mut validators, &messages);
    let mut fresh = network.validator(0);
    let mut batch = DBBatch::new();
    let stranger = AuthorityName { bytes: [1; 96] };
    for from in [network.names[0], network.names[2], stranger] {
        let (_, message) = message_of(&messages[1]);
        fresh.add_message(&mut batch, from, message);
        let (_, confirmation) = confirmation_of(&confirmations[1]);
        fresh.add_confirmation(&mut batch, from, confirmation);
    }
    assert!(batch.writes.is_empty());
    let (_, message) = message_of(&messages[1]);
    fresh.add_message(&mut batch, network.names[1], message);
    let (_, confirmation) = confirmation_of(&confirmations[1]);
    fresh.add_confirmation(&mut batch, network.names[1], confirmation);
    assert!(matches!(&batch.writes[0], TableWrite::DkgProcessedMessages(1, _)));
    assert!(matches!(&batch.writes[1], TableWrite::DkgConfirmations(1, _)));
    assert_eq!(batch.writes.len(), 2);
}

#[test]
fn message_of_another_epoch_is_ignored() {
    let network = small();
    let elsewhere = small_in(4);
    let mut validator = network.validator(0);
    let mut other = elsewhere.validator(1);
    let mut sent = Vec::new();
    other.start_dkg(2_000, &mut sent).unwrap();
    let (from, message) = message_of(&sent[0]);
    assert_eq!(from, network.names[1]);
    let mut batch = DBBatch::new();
    validator.add_message(&mut batch, from, message);
    assert!(batch.writes.is_empty());
}

#[test]
fn message_for_another_threshold_is_ignored() {
    let network = small();
    let mut validators = network.validators();
    let messages = all_messages(&mut validators);
    let (from, mut message) = message_of(&messages[1]);
    let mut coefficients = message.content.vss_pk.as_vec().clone();
    coefficients.pop();
    message.content.vss_pk = fastcrypto_tbls::polynomial::Poly::from(coefficients);
    let mut batch = DBBatch::new();
    let result =
        validators[0].manager.try_add_message(Some(&network.store(0)), &mut batch, &from, message);
    assert_eq!(result, Some(Ok(())));
    assert!(batch.writes.is_empty());
}

#[test]
fn empty_commitment_is_not_processed() {
    let network = small();
    let mut validators = network.validators();
    let messages = all_messages(&mut validators);
    let mut batch = DBBatch::new();
    let store = network.store(0);
    let (from, mut message) = message_of(&messages[1]);
    message.content.vss_pk = fastcrypto_tbls::polynomial::Poly::from(vec![]);
    let result = validators[0].manager.try_add_message(Some(&store), &mut batch, &from, message);
    assert_eq!(result, None);
    // From somebody else it is ignored before it is looked at.
    let (_, mut message) = message_of(&messages[1]);
    message.content.vss_pk = fastcrypto_tbls::polynomial::Poly::from(vec![]);
    let from = network.names[2];
    let result = validators[0].manager.try_add_message(Some(&store), &mut batch, &from, message);
    assert_eq!(result, Some(Ok(())));
    assert!(batch.writes.is_empty());
    let (from, message) = message_of(&messages[1]);
    let result = validators[0].manager.try_add_message(Some(&store), &mut batch, &from, message);
    assert_eq!(result, Some(Ok(())));
    assert_eq!(batch.writes.len(), 1);
}

#[test]
fn calls_fail_when_epoch_is_over() {
    let network = small();
    let mut validators = network.validators();
    let messages = all_messages(&mut validators);
    let confirmations = all_confirmations(&mut validators, &messages);
    let mut fresh = network.validator(0);
    let mut batch = DBBatch::new();
    let ended = Err(SuiError::EpochEnded);
    match fresh.manager.start_dkg(None, 2_000) {
        DkgAction::Return { update: None, result } => assert_eq!(result, ended),
        _ => panic!("nothing to submit"),
    }
    match fresh.manager.advance_dkg(None, &mut batch, &mut fresh.metrics, u64::MAX, 2_000) {
        DkgAction::Return { update: None, result } => assert_eq!(result, ended),
        _ => panic!("nothing to submit"),
    }
    assert!(!fresh.manager.is_dkg_closed());
    let (from, message) = message_of(&messages[1]);
    assert_eq!(fresh.manager.add_message(None, &mut batch, &from, message), ended);
    let (from, confirmation) = confirmation_of(&confirmations[1]);
    assert_eq!(fresh.manager.add_confirmation(None, &mut batch, &from, confirmation), ended);
    assert_eq!(
        fresh.manager.reserve_next_randomness(None, &mut batch),
        Err(SuiError::EpochEnded)
    );
    // The number is used up.
    assert_eq!(fresh.manager.next_randomness_round(), RandomnessRound(1));
    let round = RandomnessRound(0);
    assert_eq!(
        fresh.manager.notify_randomness_in_checkpoint(None, round),
        RoundAction::Fail(SuiError::EpochEnded)
    );
    assert_eq!(
        fresh.manager.pending_removed(None, round, Ok(())),
        RoundAction::Fail(SuiError::EpochEnded)
    );
    assert!(batch.writes.is_empty());
}

#[test]
fn calls_fail_when_tables_are_gone() {
    let network = small();
    let mut validators = network.validators();
    let messages = all_messages(&mut validators);
    let mut gone = network.store(0);
    gone.tables = Err(SuiError::Storage);
    let mut batch = DBBatch::new();
    // The messages are there all the same, and lead to a confirmation that cannot be stored.
    for transaction in &messages {
        let (from, message) = message_of(transaction);
        let result = validators[0].manager.add_message(Some(&gone), &mut batch, &from, message);
        assert_eq!(result, Err(SuiError::Storage));
    }
    let validator = &mut validators[0];
    validator.store = gone;
    let mut sent = Vec::new();
    let (update, result) = validator.advance(&mut batch, 0, 2_000, &mut sent);
    assert!(update.is_none());
    assert_eq!(result, Err(SuiError::Storage));
    assert!(sent.is_empty());
    assert!(batch.writes.is_empty());
    assert_eq!(
        validator.manager.notify_randomness_in_checkpoint(Some(&gone), RandomnessRound(4)),
        RoundAction::Fail(SuiError::Storage)
    );
    assert!(RandomnessManager::try_new(
        Some(&gone),
        &network.setup,
        &no_rows(),
        &validator.private_key,
        &mut no_metrics(),
    )
    .is_none());
}

#[test]
fn output_that_cannot_be_stored_is_still_announced() {
    let network = small();
    let mut validators = network.validators();
    let messages = all_messages(&mut validators);
    let confirmations = all_confirmations(&mut validators, &messages);
    let mut batch = DBBatch::new();
    for transaction in &confirmations {
        let (from, confirmation) = confirmation_of(transaction);
        validators[0].add_confirmation(&mut batch, from, confirmation);
    }
    validators[0].store.tables = Err(SuiError::EpochEnded);
    let (update, result) = validators[0].advance(&mut batch, 0, 2_000, &mut Vec::new());
    assert!(update.is_some());
    assert_eq!(result, Err(SuiError::EpochEnded));
    assert!(validators[0].manager.is_dkg_successful());
    assert_eq!(batch.writes.len(), 4);
}

#[test]
fn refused_submissions_are_reported() {
    let network = small();
    let mut validators = network.validators();
    let messages = all_messages(&mut validators);
    let mut fresh = network.validator(1);
    let store = network.store(1);
    let mut batch = DBBatch::new();
    let refused = Err(SuiError::Consensus);
    assert!(matches!(fresh.manager.start_dkg(Some(&store), 2_000), DkgAction::Submit(_)));
    assert_eq!(fresh.manager.message_submitted(&mut fresh.metrics, 2_500, refused), refused);
    assert_eq!(fresh.metrics, no_metrics());
    for transaction in &messages {
        let (from, message) = message_of(transaction);
        fresh.add_message(&mut batch, from, message);
    }
    let action =
        fresh.manager.advance_dkg(Some(&store), &mut batch, &mut fresh.metrics, u64::MAX, 2_000);
    assert!(matches!(action, DkgAction::Submit(_)));
    let action = fresh.manager.confirmation_submitted(
        &store,
        &mut batch,
        &mut fresh.metrics,
        u64::MAX,
        2_000,
        refused,
    );
    match action {
        DkgAction::Return { update: None, result } => assert_eq!(result, refused),
        _ => panic!("the error is returned"),
    }
    // Time did not run out in that call, but it does in the next.
    assert!(!fresh.manager.is_dkg_closed());
    assert_eq!(fresh.metrics, no_metrics());
    assert_eq!(fresh.advance(&mut batch, u64::MAX, 2_000, &mut Vec::new()).1, Ok(()));
    assert!(fresh.manager.is_dkg_closed());
}

#[test]
fn rounds_are_reserved_one_after_another() {
    let network = small();
    let mut validator = network.validator(0);
    let store = network.store(0);
    let mut batch = DBBatch::new();
    for n in 0..3 {
        assert_eq!(
            validator.manager.reserve_next_randomness(Some(&store), &mut batch),
            Ok(RandomnessRound(n))
        );
    }
    assert_eq!(batch.writes.len(), 6);
    write(&mut validator.rows, batch);
    assert_eq!(validator.rows.randomness_next_round, Some(RandomnessRound(3)));
    assert_eq!(
        validator.rows.randomness_rounds_pending,
        vec![RandomnessRound(0), RandomnessRound(1), RandomnessRound(2)]
    );
    assert_eq!(
        validator.manager.generate_randomness(3, RandomnessRound(1)),
        RoundAction::SendPartialSignatures(3, RandomnessRound(1))
    );
    let round = RandomnessRound(1);
    assert_eq!(
        validator.manager.notify_randomness_in_checkpoint(Some(&store), round),
        RoundAction::RemovePending(round)
    );
    assert_eq!(
        validator.manager.pending_removed(Some(&store), round, Err(SuiError::Storage)),
        RoundAction::Fail(SuiError::Storage)
    );
    validator.rows.randomness_rounds_pending.retain(|r| *r != round);
    assert_eq!(
        validator.manager.pending_removed(Some(&store), round, Ok(())),
        RoundAction::CompleteRound(3, round)
    );

    // A new manager resumes what is pending and goes on with the next number.
    let (mut manager, startup) = network.start(0, &validator.rows, &mut no_metrics()).unwrap();
    assert_eq!(
        startup.rounds,
        vec![
            RoundAction::SendPartialSignatures(3, RandomnessRound(0)),
            RoundAction::SendPartialSignatures(3, RandomnessRound(2)),
        ]
    );
    assert_eq!(
        manager.reserve_next_randomness(Some(&store), &mut DBBatch::new()),
        Ok(RandomnessRound(3))
    );
}

#[test]
fn restart_goes_on_with_messages_and_confirmations() {
    let network = small();
    let mut validators = network.validators();
    let messages = all_messages(&mut validators);

    // One manager stops before it confirms.
    let mut batch = DBBatch::new();
    for transaction in &messages[2..] {
        let (from, message) = message_of(transaction);
        validators[0].add_message(&mut batch, from, message);
    }
    write(&mut validators[0].rows, batch);
    let rows = &validators[0].rows;
    let (manager, startup) = network.start(0, rows, &mut no_metrics()).unwrap();
    assert!(startup.update.is_none());
    validators[0].manager = manager;
    let mut sent = Vec::new();
    let mut batch = DBBatch::new();
    assert_eq!(validators[0].advance(&mut batch, 1, 2_000, &mut sent).1, Ok(()));
    assert_eq!(sent.len(), 1);
    write(&mut validators[0].rows, batch);
    // Its clock has not run, so the gauge stays.
    assert_eq!(validators[0].metrics.epoch_random_beacon_dkg_confirmation_time_ms, -1);

    // It stops after it has confirmed, and does not confirm again.
    let rows = &validators[0].rows;
    let (manager, _) = network.start(0, rows, &mut no_metrics()).unwrap();
    validators[0].manager = manager;
    let mut batch = DBBatch::new();
    assert_eq!(validators[0].advance(&mut batch, 2, 2_000, &mut sent).1, Ok(()));
    assert_eq!(sent.len(), 1);

    // The others confirm the same messages.
    sent.extend(all_confirmations(&mut validators[1..], &messages[2..]));
    for transaction in &sent {
        let (from, confirmation) = confirmation_of(transaction);
        validators[0].add_confirmation(&mut batch, from, confirmation);
    }
    write(&mut validators[0].rows, batch);
    let rows = &validators[0].rows;
    assert_eq!(rows.dkg_confirmations.len(), 4);
    let (manager, _) = network.start(0, rows, &mut no_metrics()).unwrap();
    validators[0].manager = manager;
    let mut batch = DBBatch::new();
    assert!(validators[0].advance(&mut batch, 3, 2_000, &mut sent).0.is_some());
    write(&mut validators[0].rows, batch);

    // With the output there, that is all it needs.
    let mut metrics = no_metrics();
    let rows = &validators[0].rows;
    let (manager, startup) = network.start(0, rows, &mut metrics).unwrap();
    assert!(manager.is_dkg_successful());
    let update = startup.update.unwrap();
    assert_eq!(update.epoch, 3);
    assert_eq!(update.threshold, 7);
    assert_eq!(update.output.num_shares(), 5);
    assert_eq!(
        metrics,
        DkgMetrics { epoch_random_beacon_dkg_num_shares: 5, ..no_metrics() }
    );
}

#[test]
fn failure_is_forgotten_on_restart() {
    let network = small();
    let mut validator = network.validator(0);
    let mut batch = DBBatch::new();
    assert_eq!(validator.advance(&mut batch, u64::MAX, 2_000, &mut Vec::new()).1, Ok(()));
    write(&mut validator.rows, batch);
    assert!(validator.manager.is_dkg_closed());
    let (manager, _) = network.start(0, &validator.rows, &mut no_metrics()).unwrap();
    assert!(!manager.is_dkg_closed());
}

#[test]
fn rows_are_loaded_as_they_are() {
    let network = small();
    let mut validators = network.validators();
    let messages = all_messages(&mut validators);
    let confirmations = all_confirmations(&mut validators, &messages);

    // A row under a key that is not its sender.
    let mut rows = no_rows();
    for (key, row) in &validators[1].rows.dkg_processed_messages {
        rows.dkg_processed_messages.push((*key + 3, row.clone()));
    }
    let (mut manager, _) = network.start(1, &rows, &mut no_metrics()).unwrap();
    assert!(manager.can_advance_dkg());
    let store = network.store(1);
    let mut batch = DBBatch::new();
    let action =
        manager.advance_dkg(Some(&store), &mut batch, &mut no_metrics(), 0, 2_000);
    assert!(matches!(action, DkgAction::Submit(_)));

    // A row of a sender that is no party: it would not do to go on with it.
    rows.dkg_processed_messages[0].1.content.message.sender = 4;
    let (manager, _) = network.start(1, &rows, &mut no_metrics()).unwrap();
    assert!(!manager.can_advance_dkg());
    assert!(!manager.is_dkg_closed());

    // Messages with the shares of another party, which do no harm before enough have confirmed.
    let mut rows = no_rows();
    rows.dkg_used_messages = validators[1].rows.dkg_used_messages.clone();
    let (mut manager, _) = network.start(0, &rows, &mut no_metrics()).unwrap();
    let store = network.store(0);
    for (i, transaction) in confirmations.iter().enumerate() {
        assert_eq!(manager.can_advance_dkg(), i < 3);
        let (from, confirmation) = confirmation_of(transaction);
        assert_eq!(
            manager.add_confirmation(Some(&store), &mut batch, &from, confirmation),
            Ok(())
        );
    }
    assert!(!manager.can_advance_dkg());
    // They do none to the party itself.
    let (mut manager, _) = network.start(1, &rows, &mut no_metrics()).unwrap();
    for transaction in &confirmations {
        let (from, confirmation) = confirmation_of(transaction);
        assert_eq!(
            manager.add_confirmation(Some(&store), &mut batch, &from, confirmation),
            Ok(())
        );
    }
    assert!(manager.can_advance_dkg());
    let action =
        manager.advance_dkg(Some(&store), &mut batch, &mut no_metrics(), 0, 2_000);
    assert!(matches!(action, DkgAction::Return { update: Some(_), result: Ok(()) }));
    assert!(manager.can_advance_dkg());
}

#[test]
fn short_commitments_matter_only_to_complaints() {
    let network = small();
    let mut validators = network.validators();
    let mut messages = all_messages(&mut validators);
    messages[1] = ConsensusTransaction::new_randomness_dkg_message(
        network.names[1],
        unfair_message(&network),
    );
    let confirmations = all_confirmations(&mut validators, &messages);
    let store = network.store(2);
    // The first confirmation holds a complaint about the second party, and about nobody else.
    for (from, dealer, can) in [(0, 1, false), (1, 1, true), (0, 3, true)] {
        let mut rows = no_rows();
        rows.dkg_used_messages = validators[2].rows.dkg_used_messages.clone();
        let used = rows.dkg_used_messages.as_mut().unwrap();
        let c0 = *used.content.0[dealer].message.vss_pk.c0();
        used.content.0[dealer].message.vss_pk = fastcrypto_tbls::polynomial::Poly::from(vec![c0]);
        let (mut manager, _) = network.start(2, &rows, &mut no_metrics()).unwrap();
        let mut batch = DBBatch::new();
        for transaction in &confirmations[from..] {
            let (from, confirmation) = confirmation_of(transaction);
            assert_eq!(
                manager.add_confirmation(Some(&store), &mut batch, &from, confirmation),
                Ok(())
            );
        }
        assert_eq!(manager.can_advance_dkg(), can);
        if can {
            manager.advance_dkg(Some(&store), &mut batch, &mut no_metrics(), 0, 2_000);
            assert!(manager.is_dkg_successful());
        }
    }
}

#[test]
fn ended_epoch_is_reported_in_any_state() {
    let network = small();
    let mut validators = network.validators();
    let messages = all_messages(&mut validators);
    all_confirmations(&mut validators, &messages);
    let mut rows = no_rows();
    for (key, row) in &validators[1].rows.dkg_processed_messages {
        rows.dkg_processed_messages.push((*key, row.clone()));
    }
    rows.dkg_processed_messages[0].1.content.message.sender = 4;
    let (mut manager, _) = network.start(1, &rows, &mut no_metrics()).unwrap();
    assert!(!manager.can_advance_dkg());
    let mut batch = DBBatch::new();
    let mut metrics = no_metrics();
    match manager.advance_dkg(None, &mut batch, &mut metrics, u64::MAX, 2_000) {
        DkgAction::Return { update: None, result } => {
            assert_eq!(result, Err(SuiError::EpochEnded));
        }
        _ => panic!("nothing to submit"),
    }
    assert!(!manager.is_dkg_closed());
    assert!(batch.writes.is_empty());
    assert_eq!(metrics, no_metrics());
}

fn refusing(from: usize) -> DBBatch {
    DBBatch { writes: vec![], refusal: Some(Refusal { from, error: SuiError::Storage }) }
}

#[test]
fn refused_writes_end_a_call() {
    let network = small();
    let mut validators = network.validators();
    let messages = all_messages(&mut validators);
    let confirmations = all_confirmations(&mut validators, &messages);
    let refused = Err(SuiError::Storage);
    let mut fresh = network.validator(0);
    let store = network.store(0);
    let mut batch = refusing(1);
    // The second message is not in the batch, but it is there all the same.
    let (from, message) = message_of(&messages[1]);
    assert_eq!(fresh.manager.add_message(Some(&store), &mut batch, &from, message), Ok(()));
    let (from, message) = message_of(&messages[2]);
    assert_eq!(fresh.manager.add_message(Some(&store), &mut batch, &from, message), refused);
    assert_eq!(batch.writes.len(), 1);
    // So this party confirms, but does not say so.
    let mut sent = Vec::new();
    let (update, result) = fresh.advance(&mut batch, 0, 2_000, &mut sent);
    assert!(update.is_none());
    assert_eq!(result, refused);
    assert!(sent.is_empty());
    assert_eq!(batch.writes.len(), 1);
    let (from, confirmation) = confirmation_of(&confirmations[0]);
    assert_eq!(
        fresh.manager.add_confirmation(Some(&store), &mut batch, &from, confirmation),
        refused
    );
    for transaction in &confirmations[1..] {
        let (from, confirmation) = confirmation_of(transaction);
        fresh.add_confirmation(&mut DBBatch::new(), from, confirmation);
    }
    // The key is announced, but not stored.
    let (update, result) = fresh.advance(&mut batch, 0, 2_000, &mut sent);
    assert!(update.is_some());
    assert_eq!(result, refused);
    assert!(fresh.manager.is_dkg_successful());
    assert_eq!(batch.writes.len(), 1);
    // A round is used up, though only the pending one got into the batch.
    let mut batch = refusing(1);
    assert_eq!(
        fresh.manager.reserve_next_randomness(Some(&store), &mut batch),
        Err(SuiError::Storage)
    );
    assert_eq!(batch.writes.len(), 1);
    assert_eq!(fresh.manager.next_randomness_round(), RandomnessRound(1));
    let mut batch = refusing(0);
    assert_eq!(
        fresh.manager.reserve_next_randomness(Some(&store), &mut batch),
        Err(SuiError::Storage)
    );
    assert!(batch.writes.is_empty());
    assert_eq!(fresh.manager.next_randomness_round(), RandomnessRound(2));
}

#[test]
fn reception_tells_why_something_is_ignored() {
    let network = small();
    let mut validators = network.validators();
    let messages = all_messages(&mut validators);
    let names = &network.names;
    let stranger = AuthorityName { bytes: [1; 96] };
    let manager = &validators[0].manager;
    assert_eq!(manager.message_reception(&names[1], 1), Reception::Taken);
    assert_eq!(manager.message_reception(&names[1], 2), Reception::FalseSender);
    assert_eq!(manager.message_reception(&stranger, 1), Reception::UnknownAuthority);
    assert_eq!(manager.confirmation_reception(&names[3], 3), Reception::Taken);
    assert_eq!(manager.confirmation_reception(&names[3], 0), Reception::FalseSender);
    assert_eq!(manager.confirmation_reception(&stranger, 0), Reception::UnknownAuthority);
    // Once it has confirmed, messages come too late, and confirmations do not.
    let confirmations = all_confirmations(&mut validators, &messages);
    let manager = &validators[0].manager;
    assert_eq!(manager.message_reception(&names[1], 1), Reception::TooLate);
    assert_eq!(manager.message_reception(&stranger, 1), Reception::TooLate);
    assert_eq!(manager.confirmation_reception(&names[3], 3), Reception::Taken);
    all_updates(&mut validators, &confirmations);
    let manager = &validators[0].manager;
    assert_eq!(manager.confirmation_reception(&names[3], 3), Reception::TooLate);
}

#[test]
fn encryptions_of_any_common_size_are_processed() {
    let network = small();
    let mut validators = network.validators();
    let messages = all_messages(&mut validators);
    let (from, message) = message_of(&messages[1]);
    // Four lists of shares, with a key and a proof.
    let size = bcs::serialized_size(&message.content.encrypted_shares).unwrap();
    assert!(4 * 160 < size && size < 2_000);
    assert!(validators[0].manager.can_add_message(&from, &message));
}

#[test]
fn party_without_weight_has_no_message() {
    let config = ProtocolConfig {
        random_beacon_reduction_allowed_delta: 800,
        random_beacon_reduction_lower_bound: 500,
    };
    let network = network(&[10, 3330, 3330, 3330], 3334, config, 1);
    let mut validators = network.validators();
    let mut sent = Vec::new();
    assert_eq!(validators[0].start_dkg(2_000, &mut sent), Ok(()));
    assert!(sent.is_empty());
    assert_eq!(validators[1].start_dkg(2_000, &mut sent), Ok(()));
    assert_eq!(validators[2].start_dkg(2_000, &mut sent), Ok(()));
    let confirmations = all_confirmations(&mut validators, &sent);
    assert_eq!(confirmations.len(), 4);
    let mut batch = DBBatch::new();
    for transaction in &confirmations {
        let (from, confirmation) = confirmation_of(transaction);
        validators[0].add_confirmation(&mut batch, from, confirmation);
    }
    let (update, result) = validators[0].advance(&mut batch, 0, 2_600, &mut Vec::new());
    assert_eq!(result, Ok(()));
    let update = update.unwrap();
    // Weights are divided by nineteen.
    assert_eq!(update.threshold, 176);
    assert_eq!(update.output.num_shares(), 0);
    assert_eq!(validators[0].metrics.epoch_random_beacon_dkg_num_shares, 0);
}

#[test]
fn invalid_setups_are_refused() {
    let start = |change: &dyn Fn(&mut Network)| {
        let mut network = small();
        change(&mut network);
        let started = network.start(0, &no_rows(), &mut no_metrics());
        started.is_some()
    };
    assert!(start(&|_| {}));
    assert!(!start(&|n| {
        n.setup.peer_ids.remove(2);
    }));
    assert!(!start(&|n| n.setup.committee.members[1].stake = 0x1_0000));
    assert!(!start(&|n| n.setup.committee.members[1].index = 0x1_0001));
    assert!(!start(&|n| n.setup.committee.members[1].index = 4));
    assert!(!start(&|n| n.setup.committee.members[1].index = 0));
    assert!(!start(&|n| n.setup.committee.members[3].public_key.bytes = [3; 96]));
    assert!(!start(&|n| n.setup.committee.members.clear()));
    assert!(!start(&|n| n.setup.committee.validity_threshold = 0));
    assert!(start(&|n| n.setup.committee.validity_threshold = 10));
    assert!(!start(&|n| n.setup.committee.validity_threshold = 11));
    assert!(!start(&|n| n.setup.committee.validity_threshold = 0x1_0000));
    assert!(!start(&|n| n.setup.protocol_config.random_beacon_reduction_lower_bound = 0));
    assert!(!start(&|n| n.setup.protocol_config.random_beacon_reduction_lower_bound = 21));
    assert!(!start(&|n| n.setup.protocol_config.random_beacon_reduction_lower_bound = 0x1_0001));
    // The key of nobody in the committee, and no key at all.
    assert!(!start(&|n| n.private_keys[0] = [2; 32]));
    assert!(!start(&|n| n.private_keys[0] = [0xff; 32]));
    assert!(RandomnessManager::try_new(
        None,
        &small().setup,
        &no_rows(),
        &small().private_keys[0],
        &mut no_metrics(),
    )
    .is_none());
}

#[test]
fn authorities_are_known_by_name() {
    let mut network = small();
    network.setup.committee.members.reverse();
    let (manager, _) = network.start(2, &no_rows(), &mut no_metrics()).unwrap();
    let info = manager.authority_info();
    assert_eq!(info.len(), 4);
    for (i, entry) in info.iter().rev().enumerate() {
        assert_eq!(entry.name, network.names[i]);
        assert_eq!(entry.party_id, i as u16);
        assert_eq!(entry.peer_id, PeerId { bytes: [i as u8; 32] });
    }
}

#[test]
fn committee_gives_parties() {
    let network = small();
    let committee = &network.setup.committee;
    let info = RandomnessManager::randomness_dkg_info_from_committee(committee).unwrap();
    assert_eq!(info.len(), 4);
    for (i, (id, name, public_key, stake)) in info.iter().enumerate() {
        assert_eq!(*id, i as u16);
        assert_eq!(*name, network.names[i]);
        assert_eq!(public_key.bytes, network.names[i].bytes);
        assert_eq!(*stake, 5);
    }
}

/// Hands confirmations to all validators and has them complete key generation.
fn all_updates(
    validators: &mut [Validator],
    confirmations: &[ConsensusTransaction],
) -> Vec<EpochUpdate> {
    let mut updates = Vec::new();
    for validator in validators.iter_mut() {
        let mut batch = DBBatch::new();
        for transaction in confirmations {
            let (from, confirmation) = confirmation_of(transaction);
            validator.add_confirmation(&mut batch, from, confirmation);
        }
        let (update, result) = validator.advance(&mut batch, 0, 2_600, &mut Vec::new());
        assert_eq!(result, Ok(()));
        updates.push(update.unwrap());
    }
    updates
}

#[test]
fn validators_agree_on_key() {
    let network = small();
    let mut validators = network.validators();
    let messages = all_messages(&mut validators);
    let confirmations = all_confirmations(&mut validators, &messages);
    let updates = all_updates(&mut validators, &confirmations);
    let mut first_share = 1;
    for update in &updates {
        assert_eq!(update.output.content.vss_pk, updates[0].output.content.vss_pk);
        assert_eq!(&update.authority_info, validators[0].manager.authority_info());
        let keys: Vec<[u8; 96]> = update
            .output
            .content
            .nodes
            .iter()
            .map(|node| node.pk.as_element().to_byte_array())
            .collect();
        assert_eq!(keys, network.names.iter().map(|name| name.bytes).collect::<Vec<_>>());
        // Shares are numbered through, in the order of the parties.
        for share in update.output.content.shares.as_ref().unwrap() {
            assert_eq!(share.index.get(), first_share);
            // Each share belongs to the key.
            let commitment = update.output.content.vss_pk.eval(share.index).value;
            assert_eq!(G2Element::generator() * share.value, commitment);
            first_share += 1;
        }
    }
    assert_eq!(first_share, 21);
    // The key is the sum of the dealers' commitments.
    let mut sum = fastcrypto_tbls::polynomial::Poly::zero();
    for transaction in &messages {
        sum += &message_of(transaction).1.content.vss_pk;
    }
    assert_eq!(updates[0].output.content.vss_pk, sum);
}

/// A message of the second party with shares that are good for all but the first party.
fn unfair_message(network: &Network) -> Message {
    let mut rng = StdRng::from_seed([8; 32]);
    let secret = fastcrypto_tbls::polynomial::Poly::<Scalar>::rand(6, &mut rng);
    let mut encryptions = Vec::new();
    for (i, member) in network.setup.committee.members.iter().enumerate() {
        let key = G2Element::from_byte_array(&member.public_key.bytes).unwrap();
        let first = if i == 0 { 16 } else { 5 * i as u16 + 1 };
        let shares: Vec<Scalar> = (first..first + 5)
            .map(|n| secret.eval(n.try_into().unwrap()).value)
            .collect();
        encryptions.push((
            fastcrypto_tbls::ecies::PublicKey::from(key),
            bcs::to_bytes(&shares).unwrap(),
        ));
    }
    let prefix = randomness::setup::prefix_str(
        &network.setup.chain_identifier,
        network.setup.committee.epoch,
    );
    let oracle = fastcrypto_tbls::random_oracle::RandomOracle::new(&prefix).extend("encs 1");
    Message {
        content: fastcrypto_tbls::dkg_v0::Message {
            sender: 1,
            vss_pk: secret.commit(),
            encrypted_shares: fastcrypto_tbls::ecies_v0::MultiRecipientEncryption::encrypt(
                &encryptions,
                &oracle,
                &mut rng,
            ),
        },
    }
}

#[test]
fn unfair_dealer_is_left_out() {
    let network = small();
    let mut validators = network.validators();
    let mut messages = all_messages(&mut validators);
    messages[1] = ConsensusTransaction::new_randomness_dkg_message(
        network.names[1],
        unfair_message(&network),
    );
    let confirmations = all_confirmations(&mut validators, &messages);
    for (i, transaction) in confirmations.iter().enumerate() {
        let (_, confirmation) = confirmation_of(transaction);
        assert_eq!(confirmation.content.complaints.len(), if i == 0 { 1 } else { 0 });
    }
    let updates = all_updates(&mut validators, &confirmations);
    let mut sum = fastcrypto_tbls::polynomial::Poly::zero();
    for i in [0, 2, 3] {
        sum += &message_of(&messages[i]).1.content.vss_pk;
    }
    for update in &updates {
        assert_eq!(update.output.content.vss_pk, sum);
        assert_eq!(update.output.num_shares(), 5);
    }
}

#[test]
fn no_shares_without_a_complaint_that_counts() {
    let network = small();
    let mut validators = network.validators();
    let mut messages = all_messages(&mut validators);
    messages[1] = ConsensusTransaction::new_randomness_dkg_message(
        network.names[1],
        unfair_message(&network),
    );
    let confirmations = all_confirmations(&mut validators, &messages);
    // The others are enough, and nobody hears the complaint.
    let updates = all_updates(&mut validators, &confirmations[1..]);
    assert_eq!(updates[0].output.num_shares(), 0);
    assert_eq!(updates[1].output.num_shares(), 5);
    assert_eq!(updates[0].output.content.vss_pk, updates[1].output.content.vss_pk);
}

#[test]
fn only_bad_messages_do_not_lead_to_a_confirmation() {
    let config = ProtocolConfig {
        random_beacon_reduction_allowed_delta: 0,
        random_beacon_reduction_lower_bound: 20,
    };
    let network = network(&[5, 8, 4, 3], 7, config, 3);
    let mut validator = network.validator(0);
    let mut other = network.validator(1);
    let mut sent = Vec::new();
    other.start_dkg(2_000, &mut sent).unwrap();
    let (from, good) = message_of(&sent[0]);
    // A dealer who gives the first party the shares of another.
    let mut batch = DBBatch::new();
    validator.add_message(&mut batch, from, unfair_message(&network));
    assert_eq!(batch.writes.len(), 1);
    assert_eq!(validator.advance(&mut batch, 0, 2_000, &mut sent).1, Ok(()));
    assert_eq!(sent.len(), 1);
    // A dealer who speaks again is heard, and is enough alone.
    validator.add_message(&mut batch, from, good);
    assert_eq!(validator.advance(&mut batch, 0, 2_000, &mut sent).1, Ok(()));
    assert_eq!(sent.len(), 2);
}
