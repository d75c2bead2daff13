//! Key generation over BLS12-381: the `fastcrypto_tbls` protocol as the manager sees it.
//!
//! The protocol's types are generic over a group, with a bound that Verus cannot take in a
//! declaration of the type. Each of them is therefore held in a struct of this module, fixed to
//! the group of the validators' keys, and its contents are named by a view. Everything in this
//! module that is marked `external_body` is believed, not proved.

use crate::types::PartyId;
use fastcrypto::encoding::{Encoding, Hex};
use fastcrypto::error::FastCryptoError;
use fastcrypto::groups::bls12381::{G2Element, Scalar};
use fastcrypto::serde_helpers::ToFromByteArray;
use fastcrypto_tbls::random_oracle::RandomOracle;
use fastcrypto_tbls::{dkg, dkg_v0, ecies, nodes};
use rand::rngs::{OsRng, StdRng};
use rand::SeedableRng;
use vstd::prelude::*;

verus! {

/// Most nodes that the protocol takes.
pub const MAX_NODES: usize = 1000;

/// Largest divisor by which the protocol reduces weights.
pub const MAX_DIVISOR: u16 = 40;

/// Number of bytes from which on an encryption is too long for the oracle.
pub const ENCRYPTION_LIMIT: usize = 0x8000_0000;

/// Why a step of the protocol fails.
#[derive(Clone, Copy, Debug, PartialEq, Eq)]
pub enum DkgError {
    /// The parameters do not make a protocol instance.
    InvalidInput,
    /// The message does not pass the checks that every party makes.
    InvalidMessage,
    /// This party has no weight, so it has nothing to say.
    IgnoredMessage,
    /// More inputs are needed.
    NotEnoughInputs,
    /// Any other failure.
    Other,
}

// ---------------------------------------------------------------------------------------------
// Weights and shares
// ---------------------------------------------------------------------------------------------

/// Sum of all weights.
pub open spec fn total(weights: Seq<u16>) -> nat
    decreases weights.len(),
{
    if weights.len() == 0 {
        0
    } else {
        total(weights.drop_last()) + weights.last() as nat
    }
}

/// The shares of a party: as many as it has weight, numbered after those of the parties before
/// it, from one.
pub open spec fn share_ids(weights: Seq<u16>, id: int) -> Seq<u16> {
    Seq::new(weights[id] as nat, |i: int| (total(weights.take(id)) + 1 + i) as u16)
}

/// The weight of a party; none if there is no such party.
pub open spec fn weight(weights: Seq<u16>, id: PartyId) -> nat {
    if id < weights.len() {
        weights[id as int] as nat
    } else {
        0
    }
}

/// Whether an id is among some ids.
pub open spec fn among(ids: Seq<PartyId>, id: PartyId) -> bool {
    exists|i: int| 0 <= i < ids.len() && ids[i] == id
}

/// Weight of some parties together, each counted once.
pub open spec fn joint_weight(weights: Seq<u16>, ids: Seq<PartyId>) -> nat
    decreases ids.len(),
{
    if ids.len() == 0 {
        0
    } else if among(ids.drop_last(), ids.last()) {
        joint_weight(weights, ids.drop_last())
    } else {
        joint_weight(weights, ids.drop_last()) + weight(weights, ids.last())
    }
}

// ---------------------------------------------------------------------------------------------
// Nodes
// ---------------------------------------------------------------------------------------------

/// A compressed public key of the group of the validators' keys.
#[derive(Clone, Copy, Debug, PartialEq, Eq)]
pub struct PublicKey {
    pub bytes: [u8; 96],
}

impl View for PublicKey {
    type V = Seq<u8>;

    open spec fn view(&self) -> Seq<u8> {
        self.bytes@
    }
}

/// Whether bytes are the compressed form of a group element, as
/// `G2Element::from_byte_array` decides.
pub uninterp spec fn encodes_public_key(bytes: Seq<u8>) -> bool;

/// Whether bytes are a scalar of the group, as `Scalar::from_byte_array` decides.
pub uninterp spec fn encodes_private_key(bytes: Seq<u8>) -> bool;

/// The compressed public key of a private key, as `ecies::PublicKey::from_private_key` finds it.
pub uninterp spec fn public_key_of(private_key: Seq<u8>) -> Seq<u8>;

/// Calls `G2Element::from_byte_array`. Whether it succeeds is a function of the bytes alone;
/// the contract gives that function a name and says nothing more of it.
#[verifier::external_body]
pub(crate) fn is_public_key(bytes: &[u8; 96]) -> (valid: bool)
    ensures
        valid == encodes_public_key(bytes@),
{
    G2Element::from_byte_array(bytes).is_ok()
}

/// Calls `Scalar::from_byte_array`. Whether it succeeds is a function of the bytes alone; the
/// contract gives that function a name and says nothing more of it.
#[verifier::external_body]
pub(crate) fn is_private_key(bytes: &[u8; 32]) -> (valid: bool)
    ensures
        valid == encodes_private_key(bytes@),
{
    Scalar::from_byte_array(bytes).is_ok()
}

/// A party as it enters the protocol.
#[derive(Clone, Copy, Debug, PartialEq, Eq)]
pub struct Node {
    pub id: PartyId,
    pub public_key: PublicKey,
    pub weight: u16,
}

/// Sum of the weights of some nodes, each divided by `d`.
pub open spec fn divided_weight(nodes: Seq<Node>, d: nat) -> nat
    decreases nodes.len(),
{
    if nodes.len() == 0 {
        0
    } else {
        divided_weight(nodes.drop_last(), d) + nodes.last().weight as nat / d
    }
}

/// What division of the weights of some nodes by `d` loses.
pub open spec fn lost_weight(nodes: Seq<Node>, d: nat) -> nat
    decreases nodes.len(),
{
    if nodes.len() == 0 {
        0
    } else {
        lost_weight(nodes.drop_last(), d) + nodes.last().weight as nat % d
    }
}

/// Whether one of some nodes has an id.
pub open spec fn has_node(nodes: Seq<Node>, id: int) -> bool {
    exists|j: int| 0 <= j < nodes.len() && (#[trigger] nodes[j]).id == id
}

/// Whether nodes make a protocol instance: some, not too many, numbered from zero without a
/// gap, with a total weight that is not zero and can be numbered.
pub open spec fn valid_nodes(nodes: Seq<Node>) -> bool {
    &&& 1 <= nodes.len() <= MAX_NODES
    &&& forall|id: int| 0 <= id < nodes.len() ==> #[trigger] has_node(nodes, id)
    &&& 1 <= divided_weight(nodes, 1) <= u16::MAX
}

/// Whether weights may be divided by `d`: no division, or one that leaves the total weight at
/// the lower bound or above and loses no more than is allowed.
pub open spec fn may_divide(
    nodes: Seq<Node>,
    allowed_delta: u16,
    total_weight_lower_bound: u16,
    d: nat,
) -> bool {
    d == 1 || (divided_weight(nodes, d) >= total_weight_lower_bound && lost_weight(nodes, d)
        <= allowed_delta)
}

/// The largest divisor up to `d` by which weights may be divided.
pub open spec fn largest_divisor(
    nodes: Seq<Node>,
    allowed_delta: u16,
    total_weight_lower_bound: u16,
    d: nat,
) -> nat
    decreases d,
{
    if d <= 1 {
        1
    } else if may_divide(nodes, allowed_delta, total_weight_lower_bound, d) {
        d
    } else {
        largest_divisor(nodes, allowed_delta, total_weight_lower_bound, (d - 1) as nat)
    }
}

/// The parties of a protocol instance, by id.
#[verifier::external_body]
pub struct Nodes {
    pub content: nodes::Nodes<G2Element>,
}

/// What a set of nodes holds.
pub struct NodesView {
    pub weights: Seq<u16>,
    pub public_keys: Seq<Seq<u8>>,
}

/// The weights and compressed public keys in a set of nodes, by id.
pub uninterp spec fn nodes_view(nodes: Nodes) -> NodesView;

impl View for Nodes {
    type V = NodesView;

    open spec fn view(&self) -> NodesView {
        nodes_view(*self)
    }
}

/// What reducing nodes gives: an error if they make no protocol instance, else the nodes with
/// their weights divided by the largest divisor allowed, and the threshold divided by it,
/// rounded up.
pub open spec fn reduce_outcome(
    nodes: Seq<Node>,
    t: u16,
    allowed_delta: u16,
    total_weight_lower_bound: u16,
    result: Result<(Nodes, u16), DkgError>,
) -> bool {
    let d = largest_divisor(nodes, allowed_delta, total_weight_lower_bound, MAX_DIVISOR as nat);
    match result {
        Ok((reduced, new_t)) => {
            &&& valid_nodes(nodes)
            &&& reduced@.weights.len() == nodes.len()
            &&& reduced@.public_keys.len() == nodes.len()
            &&& forall|j: int|
                0 <= j < nodes.len() ==> {
                    &&& reduced@.weights[(#[trigger] nodes[j]).id as int] as nat
                        == nodes[j].weight as nat / d
                    &&& reduced@.public_keys[nodes[j].id as int] == nodes[j].public_key@
                }
            &&& total(reduced@.weights) == divided_weight(nodes, d)
            &&& new_t as nat == (t as nat + d - 1) as nat / d
        },
        Err(error) => !valid_nodes(nodes) && error == DkgError::InvalidInput,
    }
}

impl Nodes {
    /// Calls `Nodes::new_reduced`, after decoding each node's key. Its documentation says what
    /// the contract says: which nodes are taken, and the divisor that weights and threshold
    /// are divided by. It panics if valid nodes weigh less than the lower bound or the lower
    /// bound is zero.
    #[verifier::external_body]
    pub(crate) fn new_reduced(
        nodes: &Vec<Node>,
        t: u16,
        allowed_delta: u16,
        total_weight_lower_bound: u16,
    ) -> (result: Result<(Nodes, u16), DkgError>)
        requires
            forall|j: int|
                0 <= j < nodes@.len() ==> encodes_public_key((#[trigger] nodes@[j]).public_key@),
            valid_nodes(nodes@) ==> 1 <= total_weight_lower_bound <= divided_weight(nodes@, 1),
        ensures
            reduce_outcome(nodes@, t, allowed_delta, total_weight_lower_bound, result),
    {
        let decode = |n: &Node| nodes::Node {
            id: n.id,
            pk: ecies::PublicKey::from(G2Element::from_byte_array(&n.public_key.bytes).unwrap()),
            weight: n.weight,
        };
        let decoded = nodes.iter().map(decode).collect();
        match nodes::Nodes::new_reduced(decoded, t, allowed_delta, total_weight_lower_bound) {
            Ok((content, new_t)) => Ok((Nodes { content }, new_t)),
            Err(FastCryptoError::InvalidInput) => Err(DkgError::InvalidInput),
            Err(_) => Err(DkgError::Other),
        }
    }

    /// Calls `Nodes::iter` and takes each node's weight: the weights, in the order of the ids.
    #[verifier::external_body]
    pub(crate) fn weights(&self) -> (weights: Vec<u16>)
        ensures
            weights@ == nodes_view(*self).weights,
    {
        self.content.iter().map(|n| n.weight).collect()
    }
}

// ---------------------------------------------------------------------------------------------
// Messages
// ---------------------------------------------------------------------------------------------

/// A dealer's message: the commitment to its secret polynomial, and encrypted shares for every
/// party.
#[verifier::external_body]
pub struct Message {
    pub content: dkg_v0::Message<G2Element, G2Element>,
}

/// What a dealer's message holds.
pub struct MessageView {
    /// Who claims to have dealt.
    pub sender: PartyId,
    /// The commitment, serialized.
    pub commitment: Seq<u8>,
    /// Number of coefficients in the commitment.
    pub coefficients: nat,
    /// Whether the commitment is to the secret zero.
    pub zero_secret: bool,
    /// The encrypted shares with the proof about them, serialized without a limit on length.
    pub encryption: Seq<u8>,
    /// Number of parties that shares were encrypted for.
    pub encryptions: nat,
}

/// The contents of a dealer's message.
pub uninterp spec fn message_view(message: Message) -> MessageView;

/// Whether the proof in a serialized encryption verifies, as `MultiRecipientEncryption::verify`
/// decides under the oracle for its sender that extends the given prefix.
pub uninterp spec fn encryption_verifies(
    oracle_prefix: Seq<char>,
    sender: PartyId,
    encryption: Seq<u8>,
) -> bool;

impl View for Message {
    type V = MessageView;

    open spec fn view(&self) -> MessageView {
        message_view(*self)
    }
}

impl Message {
    /// Reads the field `sender` of `dkg_v0::Message`.
    #[verifier::external_body]
    pub(crate) fn sender(&self) -> (sender: PartyId)
        ensures
            sender == message_view(*self).sender,
    {
        self.content.sender
    }

    /// Calls `Poly::as_vec` on the commitment in `dkg_v0::Message`: the number of coefficients.
    #[verifier::external_body]
    pub(crate) fn coefficients(&self) -> (count: usize)
        ensures
            count == message_view(*self).coefficients,
    {
        self.content.vss_pk.as_vec().len()
    }

    /// Calls `bcs::serialized_size` on the encrypted shares in `dkg_v0::Message`: how long they
    /// are, serialized. There is no size if they hold a sequence that is too long for BCS, of
    /// two to the power of thirty-one bytes or more.
    #[verifier::external_body]
    pub(crate) fn encryption_size(&self) -> (size: Option<usize>)
        ensures
            match size {
                Some(size) => size == message_view(*self).encryption.len(),
                None => message_view(*self).encryption.len() >= ENCRYPTION_LIMIT,
            },
    {
        bcs::serialized_size(&self.content.encrypted_shares).ok()
    }
}

/// A dealer's message with what a party found in it.
#[verifier::external_body]
pub struct ProcessedMessage {
    pub content: dkg_v0::ProcessedMessage<G2Element, G2Element>,
}

/// A complaint about a dealer's shares.
pub struct ComplaintView {
    /// Who dealt the shares.
    pub accused: PartyId,
    /// The proof that they are no good, serialized.
    pub proof: Seq<u8>,
}

/// A share of a private key.
pub struct ShareView {
    pub index: u16,
    /// The value, serialized.
    pub value: Seq<u8>,
}

/// Numbers of shares, in order.
pub open spec fn share_numbers(shares: Seq<ShareView>) -> Seq<u16> {
    shares.map_values(|share: ShareView| share.index)
}

/// Shares with given numbers and values.
pub open spec fn numbered(ids: Seq<u16>, values: Seq<Seq<u8>>) -> Seq<ShareView> {
    Seq::new(ids.len(), |i: int| ShareView { index: ids[i], value: values[i] })
}

/// What a processed message holds.
pub struct ProcessedMessageView {
    pub message: Message,
    /// The shares that were decrypted and checked.
    pub shares: Seq<ShareView>,
    /// The complaint about the dealer, if its shares were no good.
    pub complaint: Option<ComplaintView>,
}

/// The contents of a processed message.
pub uninterp spec fn processed_message_view(processed: ProcessedMessage) -> ProcessedMessageView;

impl View for ProcessedMessage {
    type V = ProcessedMessageView;

    open spec fn view(&self) -> ProcessedMessageView {
        processed_message_view(*self)
    }
}

/// Sender of a processed message.
pub open spec fn sender_of(processed: ProcessedMessage) -> PartyId {
    processed@.message@.sender
}

/// The commitments in processed messages with their senders, in order.
pub open spec fn commitments_of(messages: Seq<ProcessedMessage>) -> Seq<(PartyId, Seq<u8>)> {
    messages.map_values(|m: ProcessedMessage| (sender_of(m), m@.message@.commitment))
}

/// The shares in processed messages, in order.
pub open spec fn shares_of(messages: Seq<ProcessedMessage>) -> Seq<Seq<ShareView>> {
    messages.map_values(|m: ProcessedMessage| m@.shares)
}

/// Senders of processed messages, in order.
pub open spec fn senders_of(messages: Seq<ProcessedMessage>) -> Seq<PartyId> {
    messages.map_values(|m: ProcessedMessage| sender_of(m))
}

/// The first message of each sender, in order.
pub open spec fn first_of_each(messages: Seq<ProcessedMessage>) -> Seq<ProcessedMessage>
    decreases messages.len(),
{
    if messages.len() == 0 {
        Seq::empty()
    } else {
        let before = first_of_each(messages.drop_last());
        if among(senders_of(messages.drop_last()), sender_of(messages.last())) {
            before
        } else {
            before.push(messages.last())
        }
    }
}

/// The complaints in processed messages, in order.
pub open spec fn complaints_of(messages: Seq<ProcessedMessage>) -> Seq<ComplaintView>
    decreases messages.len(),
{
    if messages.len() == 0 {
        Seq::empty()
    } else {
        match messages.last()@.complaint {
            Some(complaint) => complaints_of(messages.drop_last()).push(complaint),
            None => complaints_of(messages.drop_last()),
        }
    }
}

/// What a check of a processed message needs of it.
#[derive(Debug, PartialEq, Eq)]
pub struct ProcessedSummary {
    pub sender: PartyId,
    pub coefficients: usize,
    pub encryptions: usize,
    pub shares: Vec<u16>,
}

/// Whether a summary is that of a processed message.
pub open spec fn summarizes(summary: ProcessedSummary, processed: ProcessedMessage) -> bool {
    &&& summary.sender == sender_of(processed)
    &&& summary.coefficients == processed@.message@.coefficients
    &&& summary.encryptions == processed@.message@.encryptions
    &&& summary.shares@ == share_numbers(processed@.shares)
}

impl ProcessedMessage {
    /// Reads the sender in `dkg_v0::ProcessedMessage`.
    #[verifier::external_body]
    pub(crate) fn sender(&self) -> (sender: PartyId)
        ensures
            sender == message_view(processed_message_view(*self).message).sender,
    {
        self.content.message.sender
    }

    /// Reads the fields of `dkg_v0::ProcessedMessage`; the sizes of the commitment and of the
    /// encryption are what `Poly::as_vec` and `MultiRecipientEncryption::len` report.
    #[verifier::external_body]
    pub(crate) fn summary(&self) -> (summary: ProcessedSummary)
        ensures
            summarizes(summary, *self),
    {
        ProcessedSummary {
            sender: self.content.message.sender,
            coefficients: self.content.message.vss_pk.as_vec().len(),
            encryptions: self.content.message.encrypted_shares.len(),
            shares: self.content.shares.iter().map(|s| s.index.get()).collect(),
        }
    }
}

impl Clone for ProcessedMessage {
    /// Calls the derived `clone` of `dkg_v0::ProcessedMessage`, which copies every field.
    #[verifier::external_body]
    fn clone(&self) -> (copy: ProcessedMessage)
        ensures
            copy == *self,
    {
        ProcessedMessage { content: self.content.clone() }
    }
}

/// The messages that a party goes on with.
#[verifier::external_body]
pub struct UsedMessages {
    pub content: dkg_v0::UsedProcessedMessages<G2Element, G2Element>,
}

/// The messages in a set of used messages, in order.
pub uninterp spec fn used_messages(used: UsedMessages) -> Seq<ProcessedMessage>;

impl View for UsedMessages {
    type V = Seq<ProcessedMessage>;

    open spec fn view(&self) -> Seq<ProcessedMessage> {
        used_messages(*self)
    }
}

impl UsedMessages {
    /// Reads the vector in `dkg_v0::UsedProcessedMessages` and copies each message out.
    #[verifier::external_body]
    pub(crate) fn messages(&self) -> (messages: Vec<ProcessedMessage>)
        ensures
            messages@ == used_messages(*self),
    {
        self.content.0.iter().map(|m| ProcessedMessage { content: m.clone() }).collect()
    }
}

impl Clone for UsedMessages {
    /// Calls the derived `clone` of `dkg_v0::UsedProcessedMessages`, which copies every message.
    #[verifier::external_body]
    fn clone(&self) -> (copy: UsedMessages)
        ensures
            copy == *self,
    {
        UsedMessages { content: self.content.clone() }
    }
}

/// A party's word that it has processed enough messages, with its complaints.
#[verifier::external_body]
pub struct Confirmation {
    pub content: dkg::Confirmation<G2Element>,
}

/// What a confirmation holds.
pub struct ConfirmationView {
    pub sender: PartyId,
    pub complaints: Seq<ComplaintView>,
}

/// The contents of a confirmation.
pub uninterp spec fn confirmation_view(confirmation: Confirmation) -> ConfirmationView;

impl View for Confirmation {
    type V = ConfirmationView;

    open spec fn view(&self) -> ConfirmationView {
        confirmation_view(*self)
    }
}

/// Senders of confirmations, in order.
pub open spec fn confirmers_of(confirmations: Seq<Confirmation>) -> Seq<PartyId> {
    confirmations.map_values(|c: Confirmation| c@.sender)
}

/// The accused in a confirmation, in the order of the complaints.
pub open spec fn accused_in(confirmation: ConfirmationView) -> Seq<PartyId> {
    confirmation.complaints.map_values(|c: ComplaintView| c.accused)
}

impl Confirmation {
    /// Reads the field `sender` of `dkg::Confirmation`.
    #[verifier::external_body]
    pub(crate) fn sender(&self) -> (sender: PartyId)
        ensures
            sender == confirmation_view(*self).sender,
    {
        self.content.sender
    }

    /// Calls `bcs::to_bytes` on each complaint in `dkg::Confirmation`. The accused party is its
    /// first field, which has no accessor; BCS writes fields in order, and integers with the
    /// low byte first.
    #[verifier::external_body]
    pub(crate) fn accused(&self) -> (accused: Vec<PartyId>)
        ensures
            accused@ == accused_in(confirmation_view(*self)),
    {
        let encode = |c| bcs::to_bytes(c).expect("a complaint has a fixed size");
        let encoded = self.content.complaints.iter().map(encode);
        encoded.map(|bytes| PartyId::from_le_bytes([bytes[0], bytes[1]])).collect()
    }
}

impl Clone for Confirmation {
    /// Calls the derived `clone` of `dkg::Confirmation`, which copies every field.
    #[verifier::external_body]
    fn clone(&self) -> (copy: Confirmation)
        ensures
            copy == *self,
    {
        Confirmation { content: self.content.clone() }
    }
}

/// What key generation ends with: the public key and this party's shares of the private key.
#[verifier::external_body]
pub struct Output {
    pub content: dkg::Output<G2Element, G2Element>,
}

/// What the output holds.
pub struct OutputView {
    /// The public key, with the commitments to the shares of all parties, serialized.
    pub public_key: Seq<u8>,
    /// Weights of the parties.
    pub weights: Seq<u16>,
    /// Compressed public keys of the parties.
    pub public_keys: Seq<Seq<u8>>,
    /// This party's shares, unless it has none.
    pub shares: Option<Seq<ShareView>>,
}

/// The contents of an output.
pub uninterp spec fn output_view(output: Output) -> OutputView;

/// The public key that dealers' commitments make together: their sum, serialized. Of several
/// commitments by one sender the last stands for all.
pub uninterp spec fn combined_key(commitments: Seq<(PartyId, Seq<u8>)>) -> Seq<u8>;

/// The values that the shares of several messages make together for share numbers: for each
/// number the sum of the values under it, serialized.
pub uninterp spec fn combined_shares(ids: Seq<u16>, shares: Seq<Seq<ShareView>>) -> Seq<Seq<u8>>;

impl View for Output {
    type V = OutputView;

    open spec fn view(&self) -> OutputView {
        output_view(*self)
    }
}

/// Number of shares in an output.
pub open spec fn num_shares(output: OutputView) -> nat {
    match output.shares {
        Some(shares) => shares.len(),
        None => 0,
    }
}

impl Output {
    /// Reads the field `shares` of `dkg::Output`: how many there are, if there are any.
    #[verifier::external_body]
    pub(crate) fn share_count(&self) -> (count: Option<usize>)
        ensures
            match output_view(*self).shares {
                Some(shares) => count matches Some(n) && n == shares.len(),
                None => count is None,
            },
    {
        self.content.shares.as_ref().map(|shares| shares.len())
    }

    /// How many shares this party has.
    pub fn num_shares(&self) -> (count: usize)
        ensures
            count == num_shares(self@),
    {
        match self.share_count() {
            Some(count) => count,
            None => 0,
        }
    }
}

impl Clone for Output {
    /// Calls the derived `clone` of `dkg::Output`, which copies every field.
    #[verifier::external_body]
    fn clone(&self) -> (copy: Output)
        ensures
            copy == *self,
    {
        Output { content: self.content.clone() }
    }
}

// ---------------------------------------------------------------------------------------------
// The party
// ---------------------------------------------------------------------------------------------

/// This validator's part in the protocol.
#[verifier::external_body]
pub struct Party {
    pub content: dkg::Party<G2Element, G2Element>,
}

/// What of a party the protocol's decisions depend on.
pub struct PartyView {
    /// The party itself.
    pub id: PartyId,
    /// The key with which it decrypts its shares.
    pub private_key: Seq<u8>,
    /// The commitment to the polynomial that it deals, serialized.
    pub commitment: Seq<u8>,
    /// Weights of all parties.
    pub weights: Seq<u16>,
    /// Compressed public keys of all parties, to which shares are encrypted.
    pub public_keys: Seq<Seq<u8>>,
    /// How much weight it takes to use the key.
    pub threshold: u16,
    /// Prefix of the random oracle of this protocol instance.
    pub oracle_prefix: Seq<char>,
}

/// The contents of a party.
pub uninterp spec fn party_view(party: Party) -> PartyView;

impl View for Party {
    type V = PartyView;

    open spec fn view(&self) -> PartyView {
        party_view(*self)
    }
}

/// Whether an oracle prefix can be extended by what the protocol appends: its length in bytes
/// stays far below the largest that an oracle takes.
pub open spec fn extensible(oracle_prefix: Seq<char>) -> bool {
    4 * oracle_prefix.len() + 256 < u32::MAX
}

impl PartyView {
    /// What holds of every party that was made.
    pub open spec fn well_formed(self) -> bool {
        &&& self.id < self.weights.len() <= MAX_NODES
        &&& 1 <= self.threshold
        &&& 2 * self.threshold <= total(self.weights) <= u16::MAX
        &&& extensible(self.oracle_prefix)
    }

    /// Whether a message passes the checks that every party makes.
    pub open spec fn accepts(self, message: Message) -> bool {
        &&& weight(self.weights, message@.sender) > 0
        &&& message@.coefficients == self.threshold
        &&& !message@.zero_secret
        &&& message@.encryptions == self.weights.len()
        &&& encryption_verifies(self.oracle_prefix, message@.sender, message@.encryption)
    }

    /// Whether a processed message has the shape of one that this party has processed.
    pub open spec fn could_have_processed(self, processed: ProcessedMessage) -> bool {
        &&& weight(self.weights, sender_of(processed)) > 0
        &&& 2 <= processed@.message@.coefficients == self.threshold
        &&& processed@.message@.encryptions == self.weights.len()
        &&& self.has_own_shares(processed)
    }

    /// Whether the shares in a processed message are this party's.
    pub open spec fn has_own_shares(self, processed: ProcessedMessage) -> bool {
        forall|i: int|
            0 <= i < processed@.shares.len() ==> share_ids(self.weights, self.id as int).contains(
                (#[trigger] processed@.shares[i]).index,
            )
    }

    /// Weight that confirmations must have together.
    pub open spec fn confirmation_threshold(self) -> int {
        2 * self.threshold - 1
    }
}

/// What making a party gives: the party that holds the private key's public half, with these
/// nodes and this threshold; an error if no node has that key, or if the threshold is zero or
/// more than half of the total weight.
pub open spec fn party_outcome(
    private_key: Seq<u8>,
    nodes: NodesView,
    threshold: u16,
    oracle_prefix: Seq<char>,
    result: Result<Party, DkgError>,
) -> bool {
    let public_key = public_key_of(private_key);
    let possible = nodes.public_keys.contains(public_key) && 1 <= threshold && threshold <= total(
        nodes.weights,
    ) / 2;
    match result {
        Ok(party) => {
            &&& possible
            &&& party@.id as int == nodes.public_keys.index_of_first(public_key)->0
            &&& party@.private_key == private_key
            &&& party@.weights == nodes.weights
            &&& party@.public_keys == nodes.public_keys
            &&& party@.threshold == threshold
            &&& party@.oracle_prefix == oracle_prefix
        },
        Err(error) => !possible && error == DkgError::InvalidInput,
    }
}

/// What dealing gives: a message for everyone, with this party's commitment, unless it has no
/// weight.
pub open spec fn create_outcome(party: PartyView, result: Result<Message, DkgError>) -> bool {
    match result {
        Ok(message) => {
            &&& weight(party.weights, party.id) > 0
            &&& message@.sender == party.id
            &&& message@.commitment == party.commitment
            &&& message@.coefficients == party.threshold
            &&& message@.encryptions == party.weights.len()
        },
        Err(error) => weight(party.weights, party.id) == 0 && error == DkgError::IgnoredMessage,
    }
}

/// What processing a message gives: the message itself with either all shares of this party or
/// a complaint, or an error if the message is not acceptable.
pub open spec fn process_outcome(
    party: PartyView,
    message: Message,
    result: Result<ProcessedMessage, DkgError>,
) -> bool {
    match result {
        Ok(processed) => {
            &&& party.accepts(message)
            &&& processed@.message == message
            &&& processed@.complaint matches Some(complaint) ==> complaint.accused
                == message@.sender
            &&& share_numbers(processed@.shares) == match processed@.complaint {
                Some(_) => Seq::<u16>::empty(),
                None => share_ids(party.weights, party.id as int),
            }
        },
        Err(error) => !party.accepts(message) && error == DkgError::InvalidMessage,
    }
}

/// What merging messages gives: an error while their senders weigh less than the threshold, or
/// if every message led to a complaint; else the first message of each sender, and a
/// confirmation of this party with the complaints in them.
pub open spec fn merge_outcome(
    party: PartyView,
    messages: Seq<ProcessedMessage>,
    result: Result<(Confirmation, UsedMessages), DkgError>,
) -> bool {
    let unique = first_of_each(messages);
    let enough = joint_weight(party.weights, senders_of(messages)) >= party.threshold;
    let all_bad = forall|i: int|
        0 <= i < unique.len() ==> (#[trigger] unique[i])@.complaint is Some;
    match result {
        Ok((confirmation, used)) => {
            &&& enough && !all_bad
            &&& confirmation@.sender == party.id
            &&& confirmation@.complaints == complaints_of(unique)
            &&& used@ == unique
        },
        Err(error) => if !enough {
            error == DkgError::NotEnoughInputs
        } else {
            all_bad && error == DkgError::Other
        },
    }
}

/// Whether a confirmation counts: its sender has weight, and it is the first of its sender.
pub open spec fn counts(weights: Seq<u16>, confirmations: Seq<Confirmation>, i: int) -> bool {
    &&& 0 <= i < confirmations.len()
    &&& weight(weights, confirmations[i]@.sender) > 0
    &&& forall|j: int|
        0 <= j < i ==> (#[trigger] confirmations[j])@.sender != confirmations[i]@.sender
}

/// Whether a party is accused in a confirmation.
pub open spec fn accuses(confirmation: ConfirmationView, id: PartyId) -> bool {
    exists|k: int|
        0 <= k < confirmation.complaints.len() && (#[trigger] confirmation.complaints[k]).accused
            == id
}

/// Whether nobody complains in the confirmations that count.
pub open spec fn undisputed(weights: Seq<u16>, confirmations: Seq<Confirmation>) -> bool {
    forall|i: int|
        #![trigger confirmations[i]]
        counts(weights, confirmations, i) ==> confirmations[i]@.complaints.len() == 0
}

/// Whether those who confirmed have enough weight to complete the protocol.
pub open spec fn enough_confirmed(party: PartyView, confirmations: Seq<Confirmation>) -> bool {
    joint_weight(party.weights, confirmers_of(confirmations)) >= party.confirmation_threshold()
}

/// Whether the complaints about a processed message that count can be looked into: its commitment
/// is not to a constant polynomial, and there is an encryption for the accuser.
pub open spec fn can_be_accused(
    weights: Seq<u16>,
    confirmations: Seq<Confirmation>,
    processed: ProcessedMessage,
) -> bool {
    forall|k: int|
        #![trigger confirmations[k]]
        counts(weights, confirmations, k) && accuses(confirmations[k]@, sender_of(processed)) ==> {
            &&& processed@.message@.coefficients >= 2
            &&& processed@.message@.encryptions > confirmations[k]@.sender
        }
}

/// Whether the protocol can be completed, or is to wait: once enough have confirmed, the shares
/// in all messages are this party's, and complaints about them can be looked into.
pub open spec fn can_complete(
    party: PartyView,
    used: Seq<ProcessedMessage>,
    confirmations: Seq<Confirmation>,
) -> bool {
    enough_confirmed(party, confirmations) ==> forall|i: int|
        0 <= i < used.len() ==> {
            &&& party.has_own_shares(#[trigger] used[i])
            &&& can_be_accused(party.weights, confirmations, used[i])
        }
}

/// Whether the complaints in confirmations can be settled by leaving some parties out: those are
/// parties that complain or that are accused; and of a confirmation with complaints, either its
/// sender is left out, or all those whom it accuses are.
pub open spec fn settles(
    weights: Seq<u16>,
    confirmations: Seq<Confirmation>,
    excluded: Set<PartyId>,
) -> bool {
    &&& forall|id: PartyId| #[trigger]
        excluded.contains(id) ==> exists|i: int|
            #![trigger confirmations[i]]
            counts(weights, confirmations, i) && {
                ||| accuses(confirmations[i]@, id)
                ||| confirmations[i]@.sender == id && confirmations[i]@.complaints.len() > 0
            }
    &&& forall|i: int|
        #![trigger confirmations[i]]
        counts(weights, confirmations, i) && confirmations[i]@.complaints.len() > 0 ==> {
            ||| excluded.contains(confirmations[i]@.sender)
            ||| forall|id: PartyId|
                accuses(confirmations[i]@, id) ==> #[trigger] excluded.contains(id)
        }
}

/// The messages whose senders are not left out, in order.
pub open spec fn standing(messages: Seq<ProcessedMessage>, excluded: Set<PartyId>) -> Seq<
    ProcessedMessage,
>
    decreases messages.len(),
{
    if messages.len() == 0 {
        Seq::empty()
    } else if excluded.contains(sender_of(messages.last())) {
        standing(messages.drop_last(), excluded)
    } else {
        standing(messages.drop_last(), excluded).push(messages.last())
    }
}

/// What aggregating messages gives: an error if there are none, else the key that they make, and
/// all shares of this party, unless it has no weight or has a complaint about one of them.
pub open spec fn aggregate_outcome(
    party: PartyView,
    messages: Seq<ProcessedMessage>,
    result: Result<Output, DkgError>,
) -> bool {
    let ids = share_ids(party.weights, party.id as int);
    let all_good = forall|i: int|
        0 <= i < messages.len() ==> (#[trigger] messages[i])@.complaint is None;
    match result {
        Ok(output) => {
            &&& messages.len() > 0
            &&& output@.public_key == combined_key(commitments_of(messages))
            &&& output@.weights == party.weights
            &&& output@.public_keys == party.public_keys
            &&& output@.shares == if weight(party.weights, party.id) > 0 && all_good {
                Some(numbered(ids, combined_shares(ids, shares_of(messages))))
            } else {
                None
            }
        },
        Err(error) => messages.len() == 0 && error == DkgError::Other,
    }
}

/// What completing the protocol gives: an error while those who confirmed weigh less than twice
/// the threshold minus one; else complaints are settled, and the messages that stand are
/// aggregated.
pub open spec fn complete_outcome(
    party: PartyView,
    used: Seq<ProcessedMessage>,
    confirmations: Seq<Confirmation>,
    result: Result<Output, DkgError>,
) -> bool {
    if !enough_confirmed(party, confirmations) {
        result == Err::<Output, DkgError>(DkgError::NotEnoughInputs)
    } else {
        exists|excluded: Set<PartyId>| #[trigger]
            settles(party.weights, confirmations, excluded) && aggregate_outcome(
                party,
                standing(used, excluded),
                result,
            )
    }
}

impl Party {
    /// Calls `Party::new` with fresh randomness, after decoding the private key and making the
    /// oracle. Its source takes the first node whose key is the private key's public half, and
    /// refuses a threshold that is zero or above half of the total weight. The polynomial that
    /// the party deals is left to chance. `RandomOracle::new` panics on a prefix that is too long
    /// or, in debug builds, that holds a dash.
    #[verifier::external_body]
    pub(crate) fn new(private_key: &[u8; 32], nodes: Nodes, threshold: u16, oracle_prefix: &str)
        -> (result: Result<Party, DkgError>)
        requires
            encodes_private_key(private_key@),
            extensible(oracle_prefix@),
            !oracle_prefix@.contains('-'),
        ensures
            party_outcome(private_key@, nodes@, threshold, oracle_prefix@, result),
            result is Ok ==> nodes@.public_keys.contains(public_key_of(private_key@)),
    {
        let key = ecies::PrivateKey::from(Scalar::from_byte_array(private_key).unwrap());
        let oracle = RandomOracle::new(oracle_prefix);
        let mut rng = rand::thread_rng();
        match dkg::Party::new(key, nodes.content, threshold, oracle, &mut rng) {
            Ok(content) => Ok(Party { content }),
            Err(FastCryptoError::InvalidInput) => Err(DkgError::InvalidInput),
            Err(_) => Err(DkgError::Other),
        }
    }

    /// Reads the field `id` of `dkg::Party`.
    #[verifier::external_body]
    pub(crate) fn id(&self) -> (id: PartyId)
        ensures
            id == party_view(*self).id,
    {
        self.content.id
    }

    /// Calls `Party::t`.
    #[verifier::external_body]
    pub(crate) fn t(&self) -> (threshold: u16)
        ensures
            threshold == party_view(*self).threshold,
    {
        self.content.t()
    }

    /// Calls `Party::create_message` with fresh randomness. Its source fails only for a party
    /// without weight, and commits to the party's polynomial. How shares are encrypted, to the
    /// keys of the parties, is left to chance.
    #[verifier::external_body]
    pub(crate) fn create_message(&self) -> (result: Result<Message, DkgError>)
        requires
            self@.well_formed(),
        ensures
            create_outcome(self@, result),
    {
        match self.content.create_message(&mut rand::thread_rng()) {
            Ok(content) => Ok(Message { content }),
            Err(FastCryptoError::IgnoredMessage) => Err(DkgError::IgnoredMessage),
            Err(_) => Err(DkgError::Other),
        }
    }

    /// Calls `Party::process_message` with fresh randomness. Its source hands the message back
    /// unchanged, with all shares or with a complaint. Which of the two it is rests on what was
    /// encrypted, and on a randomized check; the contract leaves it open, as it does the values
    /// of the shares, since decryption depends on the word size of the machine. The source panics
    /// on an empty commitment, and when it checks shares against one to a constant polynomial,
    /// which can happen only if the threshold is one. It also panics when the encrypted shares,
    /// which it serializes for the oracle, are too long together for BCS; a bound on the whole
    /// encryption bounds them.
    #[verifier::external_body]
    pub(crate) fn process_message(&self, message: Message) -> (result: Result<
        ProcessedMessage,
        DkgError,
    >)
        requires
            self@.well_formed(),
            message@.coefficients >= 1,
            message@.coefficients == 1 ==> self@.threshold >= 2,
            message@.encryption.len() < ENCRYPTION_LIMIT,
        ensures
            process_outcome(self@, message, result),
            result is Ok ==> encryption_verifies(
                self@.oracle_prefix,
                message@.sender,
                message@.encryption,
            ),
    {
        match self.content.process_message(message.content, &mut rand::thread_rng()) {
            Ok(content) => Ok(ProcessedMessage { content }),
            Err(FastCryptoError::InvalidMessage) => Err(DkgError::InvalidMessage),
            Err(_) => Err(DkgError::Other),
        }
    }

    /// Calls `Party::merge`. Its source panics on a message whose sender is no party.
    #[verifier::external_body]
    pub(crate) fn merge(&self, messages: &Vec<&ProcessedMessage>) -> (result: Result<
        (Confirmation, UsedMessages),
        DkgError,
    >)
        requires
            forall|i: int|
                0 <= i < messages@.len() ==> sender_of(*#[trigger] messages@[i])
                    < self@.weights.len(),
        ensures
            merge_outcome(self@, messages@.unref(), result),
    {
        let inputs: Vec<_> = messages.iter().map(|m| m.content.clone()).collect();
        match self.content.merge(&inputs) {
            Ok((confirmation, used)) => Ok((
                Confirmation { content: confirmation },
                UsedMessages { content: used },
            )),
            Err(FastCryptoError::NotEnoughInputs) => Err(DkgError::NotEnoughInputs),
            Err(_) => Err(DkgError::Other),
        }
    }

    /// Calls `Party::complete` with a generator seeded by the operating system. Its source counts
    /// confirmations, leaves out parties whose complaints do not hold and dealers about whom they
    /// do, and sums up what is left: commitments to the public key, and share values. Which
    /// complaints hold rests on their proofs and on a randomized check; the contract leaves it
    /// open. Once enough have confirmed, the source panics on a share of another party in a
    /// message that stands, and on a complaint about a message with a constant or empty
    /// commitment or without an encryption for the accuser. Seeding panics, should the operating
    /// system have no randomness.
    #[verifier::external_body]
    pub(crate) fn complete(&self, used: &UsedMessages, confirmations: &Vec<&Confirmation>)
        -> (result: Result<Output, DkgError>)
        requires
            self@.well_formed(),
            can_complete(self@, used@, confirmations@.unref()),
        ensures
            complete_outcome(self@, used@, confirmations@.unref(), result),
            undisputed(self@.weights, confirmations@.unref()) ==> (result matches Ok(output) ==> {
                let ids = share_ids(self@.weights, self@.id as int);
                &&& output_view(output).public_key == combined_key(commitments_of(used@))
                &&& output_view(output).shares matches Some(shares) ==> shares == numbered(
                    ids,
                    combined_shares(ids, shares_of(used@)),
                )
            }),
    {
        let inputs: Vec<_> = confirmations.iter().map(|c| c.content.clone()).collect();
        let mut rng = StdRng::from_rng(OsRng).expect("RNG construction should not fail");
        match self.content.complete(&used.content, &inputs, &mut rng) {
            Ok(content) => Ok(Output { content }),
            Err(FastCryptoError::NotEnoughInputs) => Err(DkgError::NotEnoughInputs),
            Err(_) => Err(DkgError::Other),
        }
    }
}

// ---------------------------------------------------------------------------------------------
// Encoding
// ---------------------------------------------------------------------------------------------

/// The digit for a value below sixteen, in lower case.
pub open spec fn hex_digit(value: u8) -> char {
    if value < 10 {
        ('0' as u8 + value) as char
    } else {
        ('a' as u8 + value - 10) as char
    }
}

/// Bytes as hexadecimal digits, the high half of each byte first.
pub open spec fn hex_of(bytes: Seq<u8>) -> Seq<char> {
    Seq::new(
        2 * bytes.len(),
        |i: int|
            if i % 2 == 0 {
                hex_digit((bytes[i / 2] / 16) as u8)
            } else {
                hex_digit((bytes[i / 2] % 16) as u8)
            },
    )
}

/// Calls `Hex::encode`: two lower case digits for each byte, without a prefix.
#[verifier::external_body]
pub(crate) fn hex_encode(bytes: &[u8; 32]) -> (hex: String)
    ensures
        hex@ == hex_of(bytes@),
{
    Hex::encode(bytes)
}

} // verus!
