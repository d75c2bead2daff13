//! The randomness manager of an epoch: how it starts, and what the node can ask of it.

use crate::dkg::{Confirmation, Message, is_public_key};
use crate::inner::{Inner, copy_info, tables};
use crate::setup::{
    Committee, CommitteeMember, DkgInfo, EpochSetup, authority_entries, authority_info,
    can_be_party, dkg_info, make_party, peer_map,
};
use crate::state::{
    AuthorityInfo, DkgAction, DkgState, EpochUpdate, EpochUpdateView, Progress, Reception,
    RoundAction, adding_message, advancing, checkpoint_action, completion_action,
    confirmation_added, generation_action, going_on, info_map, message_sent, news, restored,
    restored_metrics, restored_update, resumed, round_reserved, starting,
};
use crate::store::{DBBatch, StoredRows};
use crate::types::{
    AuthorityName, DkgMetrics, EpochId, EpochStore, Millis, PartyId, RandomnessRound, Round,
    SuiResult, tables_of,
};
use vstd::prelude::*;

verus! {

/// What a manager has the network do when it starts.
pub struct Startup {
    /// The key of the epoch, if there is one already.
    pub update: Option<EpochUpdate>,
    /// The rounds to resume.
    pub rounds: Vec<RoundAction>,
}

/// Manager of an epoch's randomness.
///
/// Key generation:
/// 1. This validator sends a message to all others.
/// 2. Once enough valid messages of others have come through consensus, it sends a confirmation.
/// 3. Once enough confirmations have come, they are combined to a public key and to this
///    validator's shares of the private key.
/// 4. Randomness generation begins.
///
/// Randomness generation:
/// 1. The node reserves a round, and asks for its randomness once the reservation is written.
/// 2. Partial signatures for the round are sent to all other validators.
/// 3. When the randomness is in a checkpoint, the round is complete.
pub struct RandomnessManager {
    inner: Inner,
}

impl View for RandomnessManager {
    type V = DkgState;

    closed spec fn view(&self) -> DkgState {
        self.inner@
    }
}

/// Whether a manager can start: the epoch is there with its tables, the setup is valid, and this
/// validator can take part.
pub open spec fn can_start(
    store: Option<&EpochStore>,
    setup: EpochSetup,
    private_key: Seq<u8>,
) -> bool {
    &&& tables_of(store) is Ok
    &&& setup.members_valid()
    &&& setup.weights_valid()
    &&& setup.can_take_part(private_key)
}

/// Whether a manager can start like this: in the state restored from the rows, with the party and
/// the authorities of the setup, with the news, the rounds and the gauges that come with the rows.
pub open spec fn starts_as(
    setup: EpochSetup,
    rows: StoredRows,
    private_key: Seq<u8>,
    before: DkgMetrics,
    state: DkgState,
    update: Option<EpochUpdateView>,
    rounds: Seq<RoundAction>,
    after: DkgMetrics,
) -> bool {
    &&& state.well_formed()
    &&& state.party@ == setup.party(private_key, state.party@.commitment)
    &&& state == restored(
        info_map(authority_entries(setup.info(), peer_map(setup.peer_ids@))),
        state.party,
        rows,
    )
    &&& update == restored_update(
        setup.committee.epoch,
        state.authority_info,
        setup.threshold(),
        rows,
    )
    &&& rounds == resumed(setup.committee.epoch, rows.randomness_rounds_pending@)
    &&& after == restored_metrics(before, rows)
}

impl RandomnessManager {
    /// Starts a manager from an epoch's setup and what its tables hold. There is none if the
    /// input is invalid.
    pub fn try_new(
        store: Option<&EpochStore>,
        setup: &EpochSetup,
        rows: &StoredRows,
        private_key: &[u8; 32],
        metrics: &mut DkgMetrics,
    ) -> (started: Option<(RandomnessManager, Startup)>)
        ensures
            started is Some <==> can_start(store, *setup, private_key@),
            started is None ==> *final(metrics) == *old(metrics),
            started matches Some((manager, startup)) ==> starts_as(
                *setup,
                *rows,
                private_key@,
                *old(metrics),
                manager@,
                news(startup.update),
                startup.rounds@,
                *final(metrics),
            ),
    {
        match tables(store) {
            Ok(_) => {},
            Err(_) => {
                return None;
            },
        }
        let info: Vec<DkgInfo> = match Self::randomness_dkg_info_from_committee(&setup.committee) {
            Some(info) => info,
            None => {
                return None;
            },
        };
        proof {
            lemma_members(setup);
        }
        let entries: Vec<AuthorityInfo> = match authority_info(&info, &setup.peer_ids) {
            Some(entries) => entries,
            None => {
                return None;
            },
        };
        let (party, weights) = match make_party(setup, &info, private_key) {
            Some(made) => made,
            None => {
                return None;
            },
        };
        let threshold: u16 = party.t();
        let inner: Inner = Inner::restore(entries, party, weights, rows);
        let epoch: EpochId = setup.committee.epoch;
        let update = match &rows.dkg_output {
            Some(output) => {
                metrics.epoch_random_beacon_dkg_num_shares = output.num_shares() as i64;
                Some(
                    EpochUpdate {
                        epoch,
                        authority_info: copy_info(inner.authority_info()),
                        output: output.clone(),
                        threshold,
                    },
                )
            },
            None => None,
        };
        let mut rounds: Vec<RoundAction> = Vec::new();
        let mut i: usize = 0;
        while i < rows.randomness_rounds_pending.len()
            invariant
                i <= rows.randomness_rounds_pending@.len(),
                rounds@ == resumed(epoch, rows.randomness_rounds_pending@.take(i as int)),
            decreases rows.randomness_rounds_pending@.len() - i,
        {
            rounds.push(
                RoundAction::SendPartialSignatures(epoch, rows.randomness_rounds_pending[i]),
            );
            i = i + 1;
            assert(rounds@ =~= resumed(epoch, rows.randomness_rounds_pending@.take(i as int)));
        }
        assert(rows.randomness_rounds_pending@.take(i as int)
            =~= rows.randomness_rounds_pending@);
        Some((RandomnessManager { inner }, Startup { update, rounds }))
    }

    /// What key generation needs of the committee, if all its members can be parties.
    pub fn randomness_dkg_info_from_committee(committee: &Committee) -> (info: Option<Vec<DkgInfo>>)
        ensures
            match info {
                Some(info) => {
                    &&& forall|i: int|
                        0 <= i < committee.members@.len() ==> can_be_party(
                            #[trigger] committee.members@[i],
                        )
                    &&& info@ == dkg_info(committee.members@)
                },
                None => exists|i: int|
                    0 <= i < committee.members@.len() && !can_be_party(
                        #[trigger] committee.members@[i],
                    ),
            },
    {
        let mut info: Vec<DkgInfo> = Vec::new();
        let mut i: usize = 0;
        while i < committee.members.len()
            invariant
                i <= committee.members@.len(),
                forall|j: int| 0 <= j < i ==> can_be_party(#[trigger] committee.members@[j]),
                info@ == dkg_info(committee.members@.take(i as int)),
            decreases committee.members@.len() - i,
        {
            let member: &CommitteeMember = &committee.members[i];
            if member.index > 0xffff || !is_public_key(&member.public_key.bytes) {
                assert(!can_be_party(committee.members@[i as int]));
                return None;
            }
            info.push((member.index as u16, member.name, member.public_key, member.stake));
            i = i + 1;
            assert(info@ =~= dkg_info(committee.members@.take(i as int)));
        }
        assert(committee.members@.take(i as int) =~= committee.members@);
        Some(info)
    }
    /// Sends this validator's message, to begin key generation. The outcome of the submission
    /// goes to `message_submitted`.
    pub fn start_dkg(&mut self, store: Option<&EpochStore>, now: Millis) -> (action: DkgAction)
        requires
            old(self)@.well_formed(),
        ensures
            final(self)@.well_formed(),
            starting(old(self)@, store, now, final(self)@, action@),
    {
        self.inner.start_dkg(store, now)
    }

    /// Ends a call that began with `start_dkg` and asked for a submission.
    pub fn message_submitted(
        &self,
        metrics: &mut DkgMetrics,
        now: Millis,
        submitted: SuiResult<()>,
    ) -> (result: SuiResult<()>)
        requires
            self@.dkg_start_time is Some,
        ensures
            message_sent(
                *old(metrics),
                self@.dkg_start_time,
                now,
                submitted,
                *final(metrics),
                result,
            ),
    {
        self.inner.message_submitted(metrics, now, submitted)
    }

    /// Processes what has been received, and advances key generation as far as it goes: a
    /// confirmation is sent, and the output is made. The outcome of a submission goes to
    /// `confirmation_submitted`.
    pub fn advance_dkg(
        &mut self,
        store: Option<&EpochStore>,
        batch: &mut DBBatch,
        metrics: &mut DkgMetrics,
        round: Round,
        now: Millis,
    ) -> (action: DkgAction)
        requires
            old(self)@.well_formed(),
            store is Some ==> old(self)@.can_advance(),
        ensures
            final(self)@.well_formed(),
            advancing(
                Progress { state: old(self)@, batch: old(batch)@, metrics: *old(metrics) },
                store,
                round,
                now,
                Progress { state: final(self)@, batch: final(batch)@, metrics: *final(metrics) },
                action@,
            ),
    {
        self.inner.advance_dkg(store, batch, metrics, round, now)
    }

    /// Whether the manager can be asked to advance, or to go on with that. That can fail only
    /// after a start from rows that this validator did not write.
    pub fn can_advance_dkg(&self) -> (can: bool)
        requires
            self@.well_formed(),
        ensures
            can == self@.can_advance(),
    {
        self.inner.can_advance_dkg()
    }

    /// Goes on with a call that began with `advance_dkg` and asked for a submission.
    pub fn confirmation_submitted(
        &mut self,
        epoch_store: &EpochStore,
        batch: &mut DBBatch,
        metrics: &mut DkgMetrics,
        round: Round,
        now: Millis,
        submitted: SuiResult<()>,
    ) -> (action: DkgAction)
        requires
            old(self)@.well_formed(),
            submitted is Ok ==> old(self)@.can_finish(),
        ensures
            final(self)@.well_formed(),
            going_on(
                Progress { state: old(self)@, batch: old(batch)@, metrics: *old(metrics) },
                *epoch_store,
                round,
                now,
                submitted,
                Progress { state: final(self)@, batch: final(batch)@, metrics: *final(metrics) },
                action@,
            ),
    {
        self.inner.confirmation_submitted(epoch_store, batch, metrics, round, now, submitted)
    }

    /// Adds a message that was received from an authority.
    pub fn add_message(
        &mut self,
        store: Option<&EpochStore>,
        batch: &mut DBBatch,
        authority: &AuthorityName,
        message: Message,
    ) -> (result: SuiResult<()>)
        requires
            old(self)@.well_formed(),
            old(self)@.takes_message(authority@, message@.sender) ==> old(self)@.can_process(
                message,
            ),
        ensures
            final(self)@.well_formed(),
            adding_message(
                old(self)@,
                old(batch)@,
                store,
                authority@,
                message,
                (final(self)@, final(batch)@, result),
            ),
    {
        self.inner.add_message(store, batch, authority, message)
    }

    /// Whether a message that came from an authority can be handed to `add_message`.
    pub fn can_add_message(&self, authority: &AuthorityName, message: &Message) -> (can: bool)
        ensures
            can == (self@.takes_message(authority@, message@.sender) ==> self@.can_process(
                *message,
            )),
    {
        self.inner.can_add_message(authority, message)
    }

    /// Adds a message that was received from an authority, if the protocol can process it.
    pub fn try_add_message(
        &mut self,
        store: Option<&EpochStore>,
        batch: &mut DBBatch,
        authority: &AuthorityName,
        message: Message,
    ) -> (result: Option<SuiResult<()>>)
        requires
            old(self)@.well_formed(),
        ensures
            final(self)@.well_formed(),
            result is None <==> old(self)@.takes_message(authority@, message@.sender) && !old(
                self,
            )@.can_process(message),
            match result {
                Some(result) => adding_message(
                    old(self)@,
                    old(batch)@,
                    store,
                    authority@,
                    message,
                    (final(self)@, final(batch)@, result),
                ),
                None => final(self)@ == old(self)@ && final(batch)@ == old(batch)@,
            },
    {
        if self.inner.can_add_message(authority, &message) {
            Some(self.inner.add_message(store, batch, authority, message))
        } else {
            None
        }
    }

    /// What becomes of a message that an authority sends as a party.
    pub fn message_reception(&self, authority: &AuthorityName, sender: PartyId) -> (reception:
        Reception)
        ensures
            reception == self@.message_reception(authority@, sender),
    {
        self.inner.message_reception(authority, sender)
    }

    /// What becomes of a confirmation that an authority sends as a party.
    pub fn confirmation_reception(&self, authority: &AuthorityName, sender: PartyId) -> (reception:
        Reception)
        ensures
            reception == self@.confirmation_reception(authority@, sender),
    {
        self.inner.confirmation_reception(authority, sender)
    }

    /// Adds a confirmation that was received from an authority.
    pub fn add_confirmation(
        &mut self,
        store: Option<&EpochStore>,
        batch: &mut DBBatch,
        authority: &AuthorityName,
        confirmation: Confirmation,
    ) -> (result: SuiResult<()>)
        requires
            old(self)@.well_formed(),
        ensures
            final(self)@.well_formed(),
            (final(self)@, final(batch)@, result) == confirmation_added(
                old(self)@,
                old(batch)@,
                store,
                authority@,
                confirmation,
            ),
    {
        self.inner.add_confirmation(store, batch, authority, confirmation)
    }

    /// Reserves the next round for randomness generation. Once the batch is written,
    /// `generate_randomness` must be called for it. When a manager starts again, it resumes the
    /// reserved rounds that were written.
    pub fn reserve_next_randomness(&mut self, store: Option<&EpochStore>, batch: &mut DBBatch)
        -> (result: SuiResult<RandomnessRound>)
        requires
            old(self)@.well_formed(),
            old(self)@.next_randomness_round.0 < u64::MAX,
        ensures
            final(self)@.well_formed(),
            (final(self)@, final(batch)@, result) == round_reserved(
                old(self)@,
                old(batch)@,
                store,
            ),
    {
        self.inner.reserve_next_randomness(store, batch)
    }

    /// Begins to generate randomness for a round.
    pub fn generate_randomness(&self, epoch: EpochId, round: RandomnessRound) -> (action:
        RoundAction)
        ensures
            action == generation_action(epoch, round),
    {
        self.inner.generate_randomness(epoch, round)
    }

    /// Learns that randomness for a round is in a checkpoint, which completes the round. The
    /// outcome of removing it from the pending rounds goes to `pending_removed`.
    pub fn notify_randomness_in_checkpoint(
        &self,
        store: Option<&EpochStore>,
        round: RandomnessRound,
    ) -> (action: RoundAction)
        ensures
            action == checkpoint_action(store, round),
    {
        self.inner.notify_randomness_in_checkpoint(store, round)
    }

    /// Ends a call that began with `notify_randomness_in_checkpoint` and asked for the removal of
    /// a round.
    pub fn pending_removed(
        &self,
        store: Option<&EpochStore>,
        round: RandomnessRound,
        removed: SuiResult<()>,
    ) -> (action: RoundAction)
        ensures
            action == completion_action(store, round, removed),
    {
        self.inner.pending_removed(store, round, removed)
    }

    /// Whether key generation is over for this epoch, with a key or without.
    pub fn is_dkg_closed(&self) -> (closed: bool)
        ensures
            closed == self@.closed(),
    {
        self.inner.is_dkg_closed()
    }

    /// Whether key generation ended with a key.
    pub fn is_dkg_successful(&self) -> (successful: bool)
        ensures
            successful == self@.successful(),
    {
        self.inner.is_dkg_successful()
    }

    /// How to reach the validators, and which parties they are. The last entry for a name counts.
    pub fn authority_info(&self) -> (entries: &Vec<AuthorityInfo>)
        ensures
            info_map(entries@) == self@.authority_info,
    {
        self.inner.authority_info()
    }

    /// The round that would be reserved next.
    pub fn next_randomness_round(&self) -> (round: RandomnessRound)
        ensures
            round == self@.next_randomness_round,
    {
        self.inner.next_randomness_round()
    }
}

/// What is said of members is said of what key generation needs of them.
proof fn lemma_members(setup: &EpochSetup)
    ensures
        setup.members_valid() <==> {
            &&& forall|i: int|
                0 <= i < setup.committee.members@.len() ==> can_be_party(
                    #[trigger] setup.committee.members@[i],
                )
            &&& forall|i: int|
                0 <= i < setup.info().len() ==> peer_map(setup.peer_ids@).contains_key(
                    (#[trigger] setup.info()[i]).1@,
                )
            &&& forall|i: int|
                0 <= i < setup.info().len() ==> (#[trigger] setup.info()[i]).3 <= u16::MAX
        },
{
    let members = setup.committee.members@;
    assert forall|i: int| 0 <= i < members.len() implies (#[trigger] setup.info()[i]) == (
        members[i].index as u16,
        members[i].name,
        members[i].public_key,
        members[i].stake,
    ) by {}
    if setup.members_valid() {
        assert forall|i: int| 0 <= i < setup.info().len() implies {
            &&& peer_map(setup.peer_ids@).contains_key((#[trigger] setup.info()[i]).1@)
            &&& setup.info()[i].3 <= u16::MAX
        } by {
            assert(can_be_party(members[i]));
        }
    } else {
        let i = choose|i: int|
            0 <= i < members.len() && {
                let member = #[trigger] members[i];
                ||| !can_be_party(member)
                ||| member.stake > u16::MAX
                ||| !peer_map(setup.peer_ids@).contains_key(member.name@)
            };
        assert(setup.info()[i].3 == members[i].stake);
    }
}

} // verus!
