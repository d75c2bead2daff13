//! What a manager is made from: the committee, the protocol's parameters and the keys.

use crate::dkg::{
    DkgError, MAX_DIVISOR, Node, Nodes, Party, PartyView, PublicKey, divided_weight,
    encodes_private_key, encodes_public_key, has_node, hex_encode, hex_of, is_private_key,
    largest_divisor, public_key_of, reduce_outcome, total, valid_nodes,
};
use crate::state::AuthorityInfo;
use crate::types::{AuthorityName, EpochId, PeerId, StakeUnit};
use vstd::prelude::*;
use vstd::string::StringExecFns;

verus! {

/// A validator of the committee.
#[derive(Clone, Copy, Debug, PartialEq, Eq)]
pub struct CommitteeMember {
    pub name: AuthorityName,
    /// Index of the validator in the committee.
    pub index: u32,
    pub public_key: PublicKey,
    pub stake: StakeUnit,
}

/// The validators of an epoch.
pub struct Committee {
    pub epoch: EpochId,
    pub members: Vec<CommitteeMember>,
    /// Stake that holds at least one honest validator.
    pub validity_threshold: StakeUnit,
}

/// Parameters of key generation.
#[derive(Clone, Copy, Debug, PartialEq, Eq)]
pub struct ProtocolConfig {
    /// Weight that may be lost when weights are reduced.
    pub random_beacon_reduction_allowed_delta: u16,
    /// Total weight below which weights are not reduced.
    pub random_beacon_reduction_lower_bound: u32,
}

/// All that an epoch gives a manager to start with, but for what its tables hold.
pub struct EpochSetup {
    pub committee: Committee,
    pub protocol_config: ProtocolConfig,
    pub chain_identifier: [u8; 32],
    pub peer_ids: Vec<(AuthorityName, PeerId)>,
}

// ---------------------------------------------------------------------------------------------
// The oracle prefix
// ---------------------------------------------------------------------------------------------

/// The digit for a value below ten.
pub open spec fn decimal_digit(value: nat) -> char {
    ('0' as u8 + value) as char
}

/// A number in decimal.
pub open spec fn decimal(n: nat) -> Seq<char>
    decreases n,
{
    if n < 10 {
        seq![decimal_digit(n)]
    } else {
        decimal(n / 10).push(decimal_digit(n % 10))
    }
}

/// Prefix of the random oracle of an epoch's key generation.
pub open spec fn dkg_prefix(chain_identifier: Seq<u8>, epoch: EpochId) -> Seq<char> {
    "dkg "@ + hex_of(chain_identifier) + " "@ + decimal(epoch as nat)
}

/// The digit for a value below ten.
fn digit(value: u64) -> (digit: &'static str)
    requires
        value < 10,
    ensures
        digit@ == seq![decimal_digit(value as nat)],
{
    proof {
        reveal_strlit("0");
        reveal_strlit("1");
        reveal_strlit("2");
        reveal_strlit("3");
        reveal_strlit("4");
        reveal_strlit("5");
        reveal_strlit("6");
        reveal_strlit("7");
        reveal_strlit("8");
        reveal_strlit("9");
    }
    let digit = if value == 0 {
        "0"
    } else if value == 1 {
        "1"
    } else if value == 2 {
        "2"
    } else if value == 3 {
        "3"
    } else if value == 4 {
        "4"
    } else if value == 5 {
        "5"
    } else if value == 6 {
        "6"
    } else if value == 7 {
        "7"
    } else if value == 8 {
        "8"
    } else {
        "9"
    };
    assert(digit@ =~= seq![decimal_digit(value as nat)]);
    digit
}

/// A number in decimal.
fn to_decimal(n: u64) -> (text: String)
    ensures
        text@ == decimal(n as nat),
    decreases n,
{
    if n < 10 {
        let mut text = String::new();
        text.append(digit(n));
        assert(text@ =~= decimal(n as nat));
        text
    } else {
        let mut text = to_decimal(n / 10);
        text.append(digit(n % 10));
        assert(text@ =~= decimal(n as nat));
        text
    }
}

/// A number below a power of ten has no more digits than the exponent.
proof fn lemma_decimal_len(n: nat, digits: nat)
    requires
        digits >= 1,
        n < vstd::arithmetic::power::pow(10, digits),
    ensures
        decimal(n).len() <= digits,
    decreases digits,
{
    reveal(vstd::arithmetic::power::pow);
    if n >= 10 {
        assert(vstd::arithmetic::power::pow(10, digits) == 10 * vstd::arithmetic::power::pow(
            10,
            (digits - 1) as nat,
        ));
        assert(digits > 1) by {
            if digits == 1 {
                assert(vstd::arithmetic::power::pow(10, 0) == 1);
            }
        }
        lemma_decimal_len(n / 10, (digits - 1) as nat);
    }
}

/// There is no dash in a number.
proof fn lemma_decimal_digits(n: nat)
    ensures
        !decimal(n).contains('-'),
    decreases n,
{
    if n >= 10 {
        lemma_decimal_digits(n / 10);
        assert forall|i: int| 0 <= i < decimal(n).len() implies decimal(n)[i] != '-' by {
            if i < decimal(n).len() - 1 {
                assert(decimal(n)[i] == decimal(n / 10)[i]);
                assert(decimal(n / 10).contains(decimal(n / 10)[i]));
            }
        }
    }
}

/// The oracle prefix of an epoch is short and without a dash.
pub proof fn lemma_dkg_prefix(chain_identifier: Seq<u8>, epoch: EpochId)
    requires
        chain_identifier.len() == 32,
    ensures
        dkg_prefix(chain_identifier, epoch).len() <= 89,
        !dkg_prefix(chain_identifier, epoch).contains('-'),
{
    reveal_strlit("dkg ");
    reveal_strlit(" ");
    lemma_decimal_digits(epoch as nat);
    assert(epoch < vstd::arithmetic::power::pow(10, 20)) by {
        reveal_with_fuel(vstd::arithmetic::power::pow, 21);
    }
    lemma_decimal_len(epoch as nat, 20);
    let hex = hex_of(chain_identifier);
    let number = decimal(epoch as nat);
    let prefix = dkg_prefix(chain_identifier, epoch);
    assert(hex.len() == 64);
    assert forall|i: int| 0 <= i < prefix.len() implies prefix[i] != '-' by {
        if 4 <= i < 68 {
            assert(prefix[i] == hex[i - 4]);
        } else if i >= 69 {
            assert(prefix[i] == number[i - 69]);
            assert(number.contains(number[i - 69]));
        }
    }
}

/// Prefix of the random oracle of an epoch's key generation.
pub fn prefix_str(chain_identifier: &[u8; 32], epoch: EpochId) -> (prefix: String)
    ensures
        prefix@ == dkg_prefix(chain_identifier@, epoch),
{
    let mut prefix = String::new();
    prefix.append("dkg ");
    prefix.append(hex_encode(chain_identifier).as_str());
    prefix.append(" ");
    prefix.append(to_decimal(epoch).as_str());
    assert(prefix@ =~= dkg_prefix(chain_identifier@, epoch));
    prefix
}

// ---------------------------------------------------------------------------------------------
// The committee
// ---------------------------------------------------------------------------------------------

/// What key generation needs of a member: its party, name, key and stake.
pub type DkgInfo = (u16, AuthorityName, PublicKey, StakeUnit);

/// Whether a member can be a party: its index is a party id, and its key a group element.
pub open spec fn can_be_party(member: CommitteeMember) -> bool {
    member.index <= u16::MAX && encodes_public_key(member.public_key@)
}

/// What key generation needs of members, in order.
pub open spec fn dkg_info(members: Seq<CommitteeMember>) -> Seq<DkgInfo> {
    members.map_values(
        |member: CommitteeMember|
            (member.index as u16, member.name, member.public_key, member.stake),
    )
}

/// The peers of authorities, by name. The last entry for a name counts.
pub open spec fn peer_map(entries: Seq<(AuthorityName, PeerId)>) -> Map<Seq<u8>, PeerId>
    decreases entries.len(),
{
    if entries.len() == 0 {
        Map::empty()
    } else {
        peer_map(entries.drop_last()).insert(entries.last().0@, entries.last().1)
    }
}

/// The peer of an authority, if it is known.
fn find_peer(entries: &Vec<(AuthorityName, PeerId)>, name: &AuthorityName) -> (found: Option<
    PeerId,
>)
    ensures
        found == (if peer_map(entries@).contains_key(name@) {
            Some(peer_map(entries@)[name@])
        } else {
            None
        }),
{
    let mut rest: usize = entries.len();
    assert(entries@.take(rest as int) =~= entries@);
    while rest > 0
        invariant
            rest <= entries@.len(),
            peer_map(entries@).contains_key(name@) == peer_map(
                entries@.take(rest as int),
            ).contains_key(name@),
            peer_map(entries@).contains_key(name@) ==> peer_map(entries@)[name@] == peer_map(
                entries@.take(rest as int),
            )[name@],
        decreases rest,
    {
        let ghost upto = entries@.take(rest as int);
        assert(upto.drop_last() =~= entries@.take(rest - 1));
        rest = rest - 1;
        if entries[rest].0.is(name) {
            return Some(entries[rest].1);
        }
    }
    None
}

/// How to reach each member, and which party it is.
pub open spec fn authority_entries(
    info: Seq<DkgInfo>,
    peers: Map<Seq<u8>, PeerId>,
) -> Seq<AuthorityInfo> {
    info.map_values(
        |entry: DkgInfo|
            AuthorityInfo { name: entry.1, peer_id: peers[entry.1@], party_id: entry.0 },
    )
}

/// How to reach each member, and which party it is, if the peer of every member is known.
pub(crate) fn authority_info(info: &Vec<DkgInfo>, peer_ids: &Vec<(AuthorityName, PeerId)>)
    -> (entries: Option<Vec<AuthorityInfo>>)
    ensures
        match entries {
            Some(entries) => {
                &&& forall|i: int|
                    0 <= i < info@.len() ==> peer_map(peer_ids@).contains_key(
                        (#[trigger] info@[i]).1@,
                    )
                &&& entries@ == authority_entries(info@, peer_map(peer_ids@))
            },
            None => exists|i: int|
                0 <= i < info@.len() && !peer_map(peer_ids@).contains_key((#[trigger] info@[i]).1@),
        },
{
    let mut entries: Vec<AuthorityInfo> = Vec::new();
    let mut i: usize = 0;
    while i < info.len()
        invariant
            i <= info@.len(),
            forall|j: int|
                0 <= j < i ==> peer_map(peer_ids@).contains_key((#[trigger] info@[j]).1@),
            entries@ == authority_entries(info@.take(i as int), peer_map(peer_ids@)),
        decreases info@.len() - i,
    {
        let entry: DkgInfo = info[i];
        match find_peer(peer_ids, &entry.1) {
            Some(peer_id) => {
                entries.push(AuthorityInfo { name: entry.1, peer_id, party_id: entry.0 });
            },
            None => {
                assert(!peer_map(peer_ids@).contains_key(info@[i as int].1@));
                return None;
            },
        }
        i = i + 1;
        assert(entries@ =~= authority_entries(info@.take(i as int), peer_map(peer_ids@)));
    }
    assert(info@.take(i as int) =~= info@);
    Some(entries)
}

/// The parties that members make; their stake is their weight.
pub open spec fn dkg_nodes(info: Seq<DkgInfo>) -> Seq<Node> {
    info.map_values(
        |entry: DkgInfo| Node { id: entry.0, public_key: entry.2, weight: entry.3 as u16 },
    )
}

/// The parties that members make, if the stake of each can be a weight.
pub(crate) fn nodes_from(info: &Vec<DkgInfo>) -> (nodes: Option<Vec<Node>>)
    ensures
        match nodes {
            Some(nodes) => {
                &&& forall|i: int| 0 <= i < info@.len() ==> (#[trigger] info@[i]).3 <= u16::MAX
                &&& nodes@ == dkg_nodes(info@)
            },
            None => exists|i: int| 0 <= i < info@.len() && (#[trigger] info@[i]).3 > u16::MAX,
        },
{
    let mut nodes: Vec<Node> = Vec::new();
    let mut i: usize = 0;
    while i < info.len()
        invariant
            i <= info@.len(),
            forall|j: int| 0 <= j < i ==> (#[trigger] info@[j]).3 <= u16::MAX,
            nodes@ == dkg_nodes(info@.take(i as int)),
        decreases info@.len() - i,
    {
        let entry: DkgInfo = info[i];
        if entry.3 > 0xffff {
            assert(info@[i as int].3 > u16::MAX);
            return None;
        }
        nodes.push(Node { id: entry.0, public_key: entry.2, weight: entry.3 as u16 });
        i = i + 1;
        assert(nodes@ =~= dkg_nodes(info@.take(i as int)));
    }
    assert(info@.take(i as int) =~= info@);
    Some(nodes)
}

/// Sum of the weights of some nodes.
pub(crate) fn total_weight(nodes: &Vec<Node>) -> (sum: u128)
    ensures
        sum == divided_weight(nodes@, 1),
{
    let mut sum: u128 = 0;
    let mut i: usize = 0;
    assert(nodes@.take(0) =~= Seq::<Node>::empty());
    while i < nodes.len()
        invariant
            i <= nodes@.len(),
            sum == divided_weight(nodes@.take(i as int), 1),
            sum <= i * 0xffff,
        decreases nodes@.len() - i,
    {
        assert(nodes@.take(i + 1).drop_last() =~= nodes@.take(i as int));
        sum = sum + nodes[i].weight as u128;
        i = i + 1;
    }
    assert(nodes@.take(i as int) =~= nodes@);
    sum
}

// ---------------------------------------------------------------------------------------------
// The party
// ---------------------------------------------------------------------------------------------

impl EpochSetup {
    /// What key generation needs of the members.
    pub open spec fn info(self) -> Seq<DkgInfo> {
        dkg_info(self.committee.members@)
    }

    /// The parties before their weights are reduced.
    pub open spec fn nodes(self) -> Seq<Node> {
        dkg_nodes(self.info())
    }

    /// Whether every member can be a party, with a weight and a peer.
    pub open spec fn members_valid(self) -> bool {
        forall|i: int|
            0 <= i < self.committee.members@.len() ==> {
                let member = #[trigger] self.committee.members@[i];
                &&& can_be_party(member)
                &&& member.stake <= u16::MAX
                &&& peer_map(self.peer_ids@).contains_key(member.name@)
            }
    }

    /// Whether the parties make a protocol instance whose weights can be reduced.
    pub open spec fn weights_valid(self) -> bool {
        &&& self.committee.validity_threshold <= u16::MAX
        &&& self.protocol_config.random_beacon_reduction_lower_bound <= u16::MAX
        &&& valid_nodes(self.nodes())
        &&& 1 <= self.protocol_config.random_beacon_reduction_lower_bound <= divided_weight(
            self.nodes(),
            1,
        )
    }

    /// What weights are divided by.
    pub open spec fn divisor(self) -> nat {
        largest_divisor(
            self.nodes(),
            self.protocol_config.random_beacon_reduction_allowed_delta,
            self.protocol_config.random_beacon_reduction_lower_bound as u16,
            MAX_DIVISOR as nat,
        )
    }

    /// The party with an id, before its weight is reduced.
    pub open spec fn node(self, id: int) -> Node {
        self.nodes()[choose|j: int|
            0 <= j < self.nodes().len() && (#[trigger] self.nodes()[j]).id == id]
    }

    /// The reduced weights of the parties, by id.
    pub open spec fn weights(self) -> Seq<u16> {
        Seq::new(
            self.nodes().len(),
            |id: int| (self.node(id).weight as nat / self.divisor()) as u16,
        )
    }

    /// The compressed public keys of the parties, by id.
    pub open spec fn public_keys(self) -> Seq<Seq<u8>> {
        Seq::new(self.nodes().len(), |id: int| self.node(id).public_key@)
    }

    /// The reduced threshold, rounded up.
    pub open spec fn threshold(self) -> u16 {
        ((self.committee.validity_threshold as nat + self.divisor() - 1) as nat / self.divisor())
            as u16
    }

    /// This validator's part in the protocol, with the polynomial that it has chosen.
    pub open spec fn party(self, private_key: Seq<u8>, commitment: Seq<u8>) -> PartyView {
        PartyView {
            id: self.public_keys().index_of_first(public_key_of(private_key))->0 as u16,
            private_key,
            commitment,
            weights: self.weights(),
            public_keys: self.public_keys(),
            threshold: self.threshold(),
            oracle_prefix: dkg_prefix(self.chain_identifier@, self.committee.epoch),
        }
    }

    /// Whether the holder of a private key can take part: it is the key of a party, and the
    /// threshold is at least one and at most half of the total weight.
    pub open spec fn can_take_part(self, private_key: Seq<u8>) -> bool {
        &&& encodes_private_key(private_key)
        &&& self.public_keys().contains(public_key_of(private_key))
        &&& 1 <= self.threshold() && self.threshold() <= total(self.weights()) / 2
    }
}

/// The divisor found is positive.
proof fn lemma_divisor(nodes: Seq<Node>, allowed_delta: u16, lower_bound: u16, d: nat)
    ensures
        1 <= largest_divisor(nodes, allowed_delta, lower_bound, d),
    decreases d,
{
    if d > 1 {
        lemma_divisor(nodes, allowed_delta, lower_bound, (d - 1) as nat);
    }
}

/// Division makes no weight larger.
pub proof fn lemma_divided_weight(nodes: Seq<Node>, d: nat)
    requires
        d >= 1,
    ensures
        divided_weight(nodes, d) <= divided_weight(nodes, 1),
    decreases nodes.len(),
{
    if nodes.len() > 0 {
        lemma_divided_weight(nodes.drop_last(), d);
        let w = nodes.last().weight as nat;
        assert(w / d <= w / 1) by (nonlinear_arith)
            requires
                d >= 1,
        ;
    }
}

/// Reduced nodes are those that the setup says.
proof fn lemma_reduced(setup: &EpochSetup, result: Result<(Nodes, u16), DkgError>)
    requires
        setup.weights_valid(),
        reduce_outcome(
            setup.nodes(),
            setup.committee.validity_threshold as u16,
            setup.protocol_config.random_beacon_reduction_allowed_delta,
            setup.protocol_config.random_beacon_reduction_lower_bound as u16,
            result,
        ),
    ensures
        result matches Ok((reduced, new_t)) && {
            &&& reduced@.weights == setup.weights()
            &&& reduced@.public_keys == setup.public_keys()
            &&& new_t == setup.threshold()
            &&& total(setup.weights()) <= u16::MAX
        },
{
    let nodes = setup.nodes();
    let d = setup.divisor();
    lemma_divisor(
        nodes,
        setup.protocol_config.random_beacon_reduction_allowed_delta,
        setup.protocol_config.random_beacon_reduction_lower_bound as u16,
        MAX_DIVISOR as nat,
    );
    lemma_divided_weight(nodes, d);
    let (reduced, new_t) = result->Ok_0;
    assert forall|id: int| 0 <= id < nodes.len() implies {
        &&& reduced@.weights[id] == #[trigger] setup.weights()[id]
        &&& reduced@.public_keys[id] == setup.public_keys()[id]
    } by {
        assert(has_node(nodes, id));
        let j = choose|j: int| 0 <= j < nodes.len() && (#[trigger] nodes[j]).id == id;
        assert(setup.node(id) == nodes[j]);
    }
    assert(reduced@.weights =~= setup.weights());
    assert(reduced@.public_keys =~= setup.public_keys()) by {
        assert forall|id: int| 0 <= id < nodes.len() implies reduced@.public_keys[id]
            == setup.public_keys()[id] by {
            assert(reduced@.weights[id] == setup.weights()[id]);
        }
    }
}

/// Makes this validator's part in the protocol, along with the weights of all parties, if the
/// setup allows it.
pub(crate) fn make_party(setup: &EpochSetup, info: &Vec<DkgInfo>, private_key: &[u8; 32])
    -> (made: Option<(Party, Vec<u16>)>)
    requires
        info@ == setup.info(),
        forall|i: int|
            0 <= i < setup.committee.members@.len() ==> can_be_party(
                #[trigger] setup.committee.members@[i],
            ),
    ensures
        made is Some <==> {
            &&& forall|i: int| 0 <= i < info@.len() ==> (#[trigger] info@[i]).3 <= u16::MAX
            &&& setup.weights_valid()
            &&& setup.can_take_part(private_key@)
        },
        made matches Some((party, weights)) ==> {
            &&& party@ == setup.party(private_key@, party@.commitment)
            &&& party@.well_formed()
            &&& weights@ == setup.weights()
        },
{
    let nodes: Vec<Node> = match nodes_from(info) {
        Some(nodes) => nodes,
        None => {
            return None;
        },
    };
    let lower_bound: u32 = setup.protocol_config.random_beacon_reduction_lower_bound;
    if setup.committee.validity_threshold > 0xffff || lower_bound > 0xffff {
        return None;
    }
    if lower_bound == 0 || lower_bound as u128 > total_weight(&nodes) {
        return None;
    }
    proof {
        assert forall|j: int| 0 <= j < nodes@.len() implies encodes_public_key(
            (#[trigger] nodes@[j]).public_key@,
        ) by {
            assert(can_be_party(setup.committee.members@[j]));
        }
    }
    let result = Nodes::new_reduced(
        &nodes,
        setup.committee.validity_threshold as u16,
        setup.protocol_config.random_beacon_reduction_allowed_delta,
        lower_bound as u16,
    );
    proof {
        if setup.weights_valid() {
            lemma_reduced(setup, result);
        }
    }
    let (reduced, threshold) = match result {
        Ok(reduced) => reduced,
        Err(_) => {
            return None;
        },
    };
    if !is_private_key(private_key) {
        return None;
    }
    let weights: Vec<u16> = reduced.weights();
    let prefix: String = prefix_str(&setup.chain_identifier, setup.committee.epoch);
    proof {
        lemma_dkg_prefix(setup.chain_identifier@, setup.committee.epoch);
        setup.public_keys().index_of_first_ensures(public_key_of(private_key@));
    }
    match Party::new(private_key, reduced, threshold, prefix.as_str()) {
        Ok(party) => Some((party, weights)),
        Err(_) => None,
    }
}

} // verus!
