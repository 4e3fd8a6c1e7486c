//! Sending statements to peers.
use crate::collections::{ListMap, distinct, lemma_push_contains, lemma_take_one_more};
use crate::head::{ActiveHeadData, entries_about};
use crate::ids::{BlockHash, CandidateHash, Ident, PeerId, SessionIndex, ValidatorIndex};
use crate::message::{
    Action, ActionView, NetworkLimits, Outbox, StatementDistributionMessage, ValidationVersion,
    compatible_v1_message, creation_count, statement_message, v1_statement_message, wrapped,
};
use crate::peer::{PeerData, PeerDataView};
use crate::statement::{Fingerprint, SignedFullStatement};
use crate::stored::{StoredEntry, StoredStatement, StoredStatementComparator, entry_fingerprint};
use vstd::prelude::*;

verus! {

/// What is done to send a peer one statement.
pub open spec fn sending(
    peer: PeerId,
    version: ValidationVersion,
    relay_parent: BlockHash,
    statement: SignedFullStatement,
    limits: NetworkLimits,
) -> Seq<ActionView> {
    creation_count(statement, limits) + seq![
        ActionView::SendValidationMessage(
            seq![peer],
            wrapped(version, statement_message(relay_parent, statement, limits)),
        ),
        ActionView::CountStatementDistributed,
    ]
}

/// Goes through statements in order and sends a peer each one that it can accept by then: the peer
/// afterwards, and what is done.
pub open spec fn dispatch(
    peer: PeerId,
    data: PeerDataView,
    relay_parent: BlockHash,
    s: Seq<StoredEntry>,
    limits: NetworkLimits,
) -> (PeerDataView, Seq<ActionView>)
    decreases s.len(),
{
    if s.len() == 0 {
        (data, seq![])
    } else {
        let (d, done) = dispatch(peer, data, relay_parent, s.drop_last(), limits);
        let fp = entry_fingerprint(s.last());
        if d.accepts(relay_parent, fp) {
            (
                d.after_send(relay_parent, fp),
                done + sending(peer, d.protocol_version, relay_parent, s.last().1, limits),
            )
        } else {
            (d, done)
        }
    }
}

/// Goes through statements in order and sends a peer each one that it can accept by then.
fn send_each(
    peer: PeerId,
    peer_data: &mut PeerData,
    relay_parent: BlockHash,
    list: &Vec<StoredStatement<'_>>,
    limits: NetworkLimits,
    outbox: &mut Outbox,
    Ghost(s): Ghost<Seq<StoredEntry>>,
)
    requires
        list@.len() == s.len(),
        forall|i: int|
            0 <= i < list@.len() ==> (#[trigger] list@[i]).comparator == s[i].0 && *list@[i].statement
                == s[i].1,
    ensures
        final(peer_data)@ == dispatch(peer, old(peer_data)@, relay_parent, s, limits).0,
        final(outbox)@ == old(outbox)@ + dispatch(
            peer,
            old(peer_data)@,
            relay_parent,
            s,
            limits,
        ).1,
{
    let mut i: usize = 0;
    assert(outbox@ =~= old(outbox)@ + dispatch(peer, old(peer_data)@, relay_parent, s.take(0), limits).1);
    while i < list.len()
        invariant
            i <= list@.len(),
            list@.len() == s.len(),
            forall|j: int|
                0 <= j < list@.len() ==> (#[trigger] list@[j]).comparator == s[j].0
                    && *list@[j].statement == s[j].1,
            peer_data@ == dispatch(peer, old(peer_data)@, relay_parent, s.take(i as int), limits).0,
            outbox@ == old(outbox)@ + dispatch(
                peer,
                old(peer_data)@,
                relay_parent,
                s.take(i as int),
                limits,
            ).1,
        decreases list@.len() - i,
    {
        proof {
            assert(s.take(i + 1).drop_last() =~= s.take(i as int));
            assert(s.take(i + 1).last() == s[i as int]);
        }
        let stored = &list[i];
        let fingerprint = stored.fingerprint();
        let ghost before = outbox@;
        let ghost version = peer_data@.protocol_version;
        if peer_data.can_send(&relay_parent, &fingerprint) {
            let _ = peer_data.send(&relay_parent, &fingerprint);
            let payload = v1_statement_message(
                relay_parent,
                stored.statement.clone(),
                limits,
                outbox,
            );
            let mut to: Vec<PeerId> = Vec::new();
            to.push(peer);
            assert(to@ =~= seq![peer]);
            outbox.push(
                Action::SendValidationMessage(
                    to,
                    compatible_v1_message(peer_data.protocol_version(), payload),
                ),
            );
            outbox.push(Action::CountStatementDistributed);
            assert(outbox@ =~= before + sending(peer, version, relay_parent, s[i as int].1, limits));
        }
        i = i + 1;
        assert(outbox@ =~= old(outbox)@ + dispatch(
            peer,
            old(peer_data)@,
            relay_parent,
            s.take(i as int),
            limits,
        ).1);
    }
    assert(s.take(i as int) =~= s);
}

/// Send all statements about a given candidate hash to a peer.
pub fn send_statements_about(
    peer: PeerId,
    peer_data: &mut PeerData,
    relay_parent: BlockHash,
    candidate_hash: CandidateHash,
    active_head: &ActiveHeadData,
    limits: NetworkLimits,
    outbox: &mut Outbox,
)
    ensures
        final(peer_data)@ == dispatch(
            peer,
            old(peer_data)@,
            relay_parent,
            entries_about(active_head@.statements, candidate_hash),
            limits,
        ).0,
        final(outbox)@ == old(outbox)@ + dispatch(
            peer,
            old(peer_data)@,
            relay_parent,
            entries_about(active_head@.statements, candidate_hash),
            limits,
        ).1,
{
    let list = active_head.statements_about(candidate_hash);
    send_each(
        peer,
        peer_data,
        relay_parent,
        &list,
        limits,
        outbox,
        Ghost(entries_about(active_head@.statements, candidate_hash)),
    );
}

/// Send all statements at a given relay-parent to a peer.
pub fn send_statements(
    peer: PeerId,
    peer_data: &mut PeerData,
    relay_parent: BlockHash,
    active_head: &ActiveHeadData,
    limits: NetworkLimits,
    outbox: &mut Outbox,
)
    ensures
        final(peer_data)@ == dispatch(
            peer,
            old(peer_data)@,
            relay_parent,
            active_head@.statements,
            limits,
        ).0,
        final(outbox)@ == old(outbox)@ + dispatch(
            peer,
            old(peer_data)@,
            relay_parent,
            active_head@.statements,
            limits,
        ).1,
{
    let list = active_head.statements();
    send_each(
        peer,
        peer_data,
        relay_parent,
        &list,
        limits,
        outbox,
        Ghost(active_head@.statements),
    );
}

/// Which neighbors in the grid topology a statement is routed to.
#[derive(Clone, Copy, PartialEq, Eq, Debug)]
pub enum GossipScope {
    /// Both grid directions, in the topology of a session.
    Grid(SessionIndex),
    /// The direction that the place of a validator in the grid asks for, in the topology of the session
    /// of the child of a relay parent, or in the current one if that session is not known.
    ByValidator(BlockHash, ValidatorIndex),
}

/// A statement on its way to the peers that can accept it.
pub struct Circulation {
    /// The relay parent that the statement is for.
    pub relay_parent: BlockHash,
    /// What tells the statement apart.
    pub comparator: StoredStatementComparator,
    /// The statement.
    pub statement: SignedFullStatement,
    /// Peers that get the statement first.
    pub priority_peers: Vec<PeerId>,
    /// The other peers that can accept the statement. Some of them are to be chosen.
    pub other_peers: Vec<PeerId>,
    /// Which of the other peers the topology asks for.
    pub scope: GossipScope,
}

impl Circulation {
    /// What is stated, and by which validator.
    pub open spec fn fp(self) -> Fingerprint {
        (self.comparator.compact, self.statement.validator_index)
    }

    /// All peers that can accept the statement. The choice among them without any priority peers says how
    /// many peers would be used then.
    pub fn all_peers(&self) -> (r: Vec<PeerId>)
        ensures
            r@ == self.priority_peers@ + self.other_peers@,
    {
        let mut all: Vec<PeerId> = Vec::new();
        let mut i: usize = 0;
        while i < self.priority_peers.len()
            invariant
                i <= self.priority_peers@.len(),
                all@ == self.priority_peers@.take(i as int),
            decreases self.priority_peers@.len() - i,
        {
            all.push(self.priority_peers[i]);
            i = i + 1;
            assert(all@ =~= self.priority_peers@.take(i as int));
        }
        let mut j: usize = 0;
        assert(all@ =~= self.priority_peers@ + self.other_peers@.take(0));
        while j < self.other_peers.len()
            invariant
                j <= self.other_peers@.len(),
                all@ == self.priority_peers@ + self.other_peers@.take(j as int),
            decreases self.other_peers@.len() - j,
        {
            all.push(self.other_peers[j]);
            j = j + 1;
            assert(all@ =~= self.priority_peers@ + self.other_peers@.take(j as int));
        }
        assert(self.other_peers@.take(j as int) =~= self.other_peers@);
        all
    }
}

/// Whether a peer is connected and can accept a statement.
pub open spec fn can_accept(
    peers: Map<PeerId, PeerDataView>,
    peer: PeerId,
    relay_parent: BlockHash,
    fp: Fingerprint,
) -> bool {
    peers.contains_key(peer) && peers[peer].accepts(relay_parent, fp)
}

/// The peers of a list that can accept a statement, each one once, in the order in which they come first.
pub open spec fn accepting(
    peers: Map<PeerId, PeerDataView>,
    list: Seq<PeerId>,
    relay_parent: BlockHash,
    fp: Fingerprint,
) -> Seq<PeerId>
    decreases list.len(),
{
    if list.len() == 0 {
        seq![]
    } else {
        let before = accepting(peers, list.drop_last(), relay_parent, fp);
        if can_accept(peers, list.last(), relay_parent, fp) && !before.contains(list.last()) {
            before.push(list.last())
        } else {
            before
        }
    }
}

proof fn lemma_accepting(
    peers: Map<PeerId, PeerDataView>,
    list: Seq<PeerId>,
    relay_parent: BlockHash,
    fp: Fingerprint,
)
    ensures
        forall|i: int|
            0 <= i < accepting(peers, list, relay_parent, fp).len() ==> can_accept(
                peers,
                #[trigger] accepting(peers, list, relay_parent, fp)[i],
                relay_parent,
                fp,
            ),
        distinct(accepting(peers, list, relay_parent, fp)),
    decreases list.len(),
{
    if list.len() > 0 {
        lemma_accepting(peers, list.drop_last(), relay_parent, fp);
        let before = accepting(peers, list.drop_last(), relay_parent, fp);
        let all = accepting(peers, list, relay_parent, fp);
        assert forall|i: int| 0 <= i < all.len() implies can_accept(
            peers,
            #[trigger] all[i],
            relay_parent,
            fp,
        ) by {
            if i < before.len() {
                assert(before[i] == all[i]);
            }
        }
        assert forall|i: int, j: int| 0 <= i < j < all.len() implies #[trigger] all[i]
            != #[trigger] all[j] by {
            assert(before[i] == all[i]);
            assert(before.contains(before[i]));
            if j < before.len() {
                assert(before[j] == all[j]);
            }
        }
    }
}

/// Whether a peer is in a list.
pub fn lists(list: &Vec<PeerId>, peer: &PeerId) -> (r: bool)
    ensures
        r == list@.contains(*peer),
{
    let mut i: usize = 0;
    while i < list.len()
        invariant
            i <= list@.len(),
            forall|j: int| 0 <= j < i ==> list@[j] != *peer,
        decreases list@.len() - i,
    {
        if list[i].same(peer) {
            return true;
        }
        i = i + 1;
    }
    false
}

/// Whether every peer of a list is connected and has the relay parent in its view.
pub open spec fn reachable(
    peers: Map<PeerId, PeerDataView>,
    list: Seq<PeerId>,
    relay_parent: BlockHash,
) -> bool {
    forall|i: int|
        0 <= i < list.len() ==> peers.contains_key(#[trigger] list[i]) && peers[list[i]].tracks(
            relay_parent,
        )
}

/// Whether a statement is on its way to all peers that can accept it: those of a list first, in its order,
/// and then the others, in any order. Each peer is named once, also where the list repeats one.
pub open spec fn plans(
    c: Circulation,
    peers: Map<PeerId, PeerDataView>,
    relay_parent: BlockHash,
    comparator: StoredStatementComparator,
    statement: SignedFullStatement,
    priority_peers: Seq<PeerId>,
    scope: GossipScope,
) -> bool {
    &&& c.relay_parent == relay_parent
    &&& c.comparator == comparator
    &&& c.statement == statement
    &&& c.scope == scope
    &&& c.priority_peers@ == accepting(peers, priority_peers, relay_parent, c.fp())
    &&& distinct(c.priority_peers@)
    &&& distinct(c.other_peers@)
    &&& forall|p: PeerId|
        #[trigger] c.other_peers@.contains(p) <==> can_accept(peers, p, relay_parent, c.fp())
            && !c.priority_peers@.contains(p)
}

/// Finds the peers that can accept a statement: those that are to get it first, and the others.
pub fn plan_circulation(
    peers: &ListMap<PeerId, PeerData>,
    relay_parent: BlockHash,
    comparator: StoredStatementComparator,
    statement: SignedFullStatement,
    priority_peers: Vec<PeerId>,
    scope: GossipScope,
) -> (r: Circulation)
    ensures
        plans(r, peers@, relay_parent, comparator, statement, priority_peers@, scope),
        reachable(peers@, r.priority_peers@, relay_parent),
        reachable(peers@, r.other_peers@, relay_parent),
{
    let fingerprint: Fingerprint = (comparator.compact, statement.validator_index);
    // Only take priority peers we can send data to, and each one once:
    let mut priority: Vec<PeerId> = Vec::new();
    let mut i: usize = 0;
    while i < priority_peers.len()
        invariant
            i <= priority_peers@.len(),
            priority@ == accepting(
                peers@,
                priority_peers@.take(i as int),
                relay_parent,
                fingerprint,
            ),
        decreases priority_peers@.len() - i,
    {
        proof {
            assert(priority_peers@.take(i + 1).drop_last() =~= priority_peers@.take(i as int));
        }
        if let Some(data) = peers.get(&priority_peers[i]) {
            if data.can_send(&relay_parent, &fingerprint) && !lists(&priority, &priority_peers[i]) {
                priority.push(priority_peers[i]);
            }
        }
        i = i + 1;
    }
    proof {
        assert(priority_peers@.take(i as int) =~= priority_peers@);
        lemma_accepting(peers@, priority_peers@, relay_parent, fingerprint);
    }
    let mut others: Vec<PeerId> = Vec::new();
    let total: usize = peers.len();
    let ghost keys = peers.keys();
    let mut j: usize = 0;
    while j < total
        invariant
            j <= total,
            total == keys.len(),
            keys == peers.keys(),
            distinct(keys),
            distinct(others@),
            forall|k: int| 0 <= k < others@.len() ==> keys.take(j as int).contains(#[trigger] others@[k]),
            forall|p: PeerId|
                #[trigger] others@.contains(p) <==> keys.take(j as int).contains(p) && can_accept(
                    peers@,
                    p,
                    relay_parent,
                    fingerprint,
                ) && !priority@.contains(p),
        decreases total - j,
    {
        let (peer, data) = peers.at(j);
        let ghost before = others@;
        proof {
            assert(keys.take(j + 1) =~= keys.take(j as int).push(peer));
            assert(!keys.take(j as int).contains(peer));
        }
        // Avoid duplicates:
        if data.can_send(&relay_parent, &fingerprint) && !lists(&priority, &peer) {
            others.push(peer);
        }
        proof {
            assert forall|k: int| 0 <= k < others@.len() implies keys.take(j + 1).contains(
                #[trigger] others@[k],
            ) by {
                if k < before.len() {
                    assert(before[k] == others@[k]);
                    lemma_push_contains(keys.take(j as int), peer, others@[k]);
                } else {
                    lemma_push_contains(keys.take(j as int), peer, peer);
                }
            }
            assert forall|p: PeerId|
                #[trigger] others@.contains(p) <==> keys.take(j + 1).contains(p) && can_accept(
                    peers@,
                    p,
                    relay_parent,
                    fingerprint,
                ) && !priority@.contains(p) by {
                lemma_push_contains(before, peer, p);
                lemma_push_contains(keys.take(j as int), peer, p);
            }
        }
        j = j + 1;
    }
    proof {
        assert(keys.take(j as int) =~= keys);
        assert forall|k: int| 0 <= k < others@.len() implies can_accept(
            peers@,
            #[trigger] others@[k],
            relay_parent,
            fingerprint,
        ) by {
            assert(others@.contains(others@[k]));
        }
    }
    Circulation {
        relay_parent,
        comparator,
        statement,
        priority_peers: priority,
        other_peers: others,
        scope,
    }
}

/// A peer that a statement was sent to, whether the statement brought it a candidate, and the version
/// that it speaks.
pub type Delivery = (PeerId, bool, ValidationVersion);

/// The greatest of three numbers.
pub open spec fn greatest(a: int, b: int, c: int) -> int {
    if a >= b && a >= c {
        a
    } else if b >= c {
        b
    } else {
        c
    }
}

/// The peers that a statement goes to: those with priority, and then so many of the chosen ones that
/// there are no fewer in all than `usual`, the number that would be used without any priority peers, no
/// fewer than were chosen and no fewer than are gossiped to; or all of the chosen ones, if they do not
/// suffice.
pub open spec fn recipients(
    priority: Seq<PeerId>,
    chosen: Seq<PeerId>,
    usual: usize,
    limits: NetworkLimits,
) -> Seq<PeerId> {
    let min_size = greatest(chosen.len() as int, usual as int, limits.min_gossip_peers as int);
    if min_size > priority.len() {
        let needed = min_size - priority.len();
        priority + chosen.take(if chosen.len() < needed {
            chosen.len() as int
        } else {
            needed
        })
    } else {
        priority
    }
}

/// Sends a statement to peers, one after the other: the peers afterwards, and the deliveries.
pub open spec fn deliveries(
    peers: Map<PeerId, PeerDataView>,
    to: Seq<PeerId>,
    relay_parent: BlockHash,
    fp: Fingerprint,
) -> (Map<PeerId, PeerDataView>, Seq<Delivery>)
    decreases to.len(),
{
    if to.len() == 0 {
        (peers, seq![])
    } else {
        let (before, done) = deliveries(peers, to.drop_last(), relay_parent, fp);
        let data = before[to.last()];
        (
            before.insert(to.last(), data.after_send(relay_parent, fp)),
            done.push((to.last(), data.introduces(relay_parent, fp), data.protocol_version)),
        )
    }
}

/// The peers among the deliveries that speak a version, in order.
pub open spec fn speakers(done: Seq<Delivery>, version: ValidationVersion) -> Seq<PeerId>
    decreases done.len(),
{
    if done.len() == 0 {
        seq![]
    } else {
        let before = speakers(done.drop_last(), version);
        if done.last().2 == version {
            before.push(done.last().0)
        } else {
            before
        }
    }
}

/// The peers among the deliveries to which the statement brought a candidate, in order: those that
/// speak the first version, or those that do not.
pub open spec fn newcomers(done: Seq<Delivery>, first_version: bool) -> Seq<PeerId>
    decreases done.len(),
{
    if done.len() == 0 {
        seq![]
    } else {
        let before = newcomers(done.drop_last(), first_version);
        if done.last().1 && (done.last().2 == ValidationVersion::V1) == first_version {
            before.push(done.last().0)
        } else {
            before
        }
    }
}

/// What is done to send a message to the peers that speak a version, if there are any.
pub open spec fn broadcast_to(
    peers: Seq<PeerId>,
    version: ValidationVersion,
    relay_parent: BlockHash,
    statement: SignedFullStatement,
    limits: NetworkLimits,
) -> Seq<ActionView> {
    if peers.len() == 0 {
        seq![]
    } else {
        seq![
            ActionView::SendValidationMessage(
                peers,
                wrapped(version, statement_message(relay_parent, statement, limits)),
            ),
        ]
    }
}

/// What is done to circulate a statement.
pub open spec fn circulating(
    done: Seq<Delivery>,
    relay_parent: BlockHash,
    statement: SignedFullStatement,
    limits: NetworkLimits,
) -> Seq<ActionView> {
    creation_count(statement, limits) + broadcast_to(
        speakers(done, ValidationVersion::V1),
        ValidationVersion::V1,
        relay_parent,
        statement,
        limits,
    ) + broadcast_to(
        speakers(done, ValidationVersion::V2),
        ValidationVersion::V2,
        relay_parent,
        statement,
        limits,
    ) + broadcast_to(
        speakers(done, ValidationVersion::V3),
        ValidationVersion::V3,
        relay_parent,
        statement,
        limits,
    )
}

/// The peers that a statement goes to.
fn choose_recipients(
    priority_peers: Vec<PeerId>,
    chosen: Vec<PeerId>,
    usual: usize,
    limits: NetworkLimits,
) -> (r: Vec<PeerId>)
    ensures
        r@ == recipients(priority_peers@, chosen@, usual, limits),
{
    let mut to = priority_peers;
    let mut peers_to_send = chosen;
    // We don't want to use less peers, than we would without any priority peers:
    let mut min_size: usize = limits.min_gossip_peers;
    if usual > min_size {
        min_size = usual;
    }
    if peers_to_send.len() > min_size {
        min_size = peers_to_send.len();
    }
    // Make set full:
    if min_size > to.len() {
        let needed_peers: usize = min_size - to.len();
        if peers_to_send.len() > needed_peers {
            peers_to_send.truncate(needed_peers);
        } else {
            assert(chosen@.take(chosen@.len() as int) =~= chosen@);
        }
        assert(peers_to_send@ =~= chosen@.take(
            if chosen@.len() < needed_peers {
                chosen@.len() as int
            } else {
                needed_peers as int
            },
        ));
        // Order important here - priority peers are placed first, so will be sent first.
        // This gives backers a chance to be among the first in requesting any large statement
        // data.
        to.append(&mut peers_to_send);
    }
    to
}

/// Notes that a statement is sent to peers, one after the other.
fn note_deliveries(
    peers: &mut ListMap<PeerId, PeerData>,
    to: &Vec<PeerId>,
    relay_parent: BlockHash,
    fingerprint: Fingerprint,
) -> (r: Vec<Delivery>)
    requires
        reachable(old(peers)@, to@, relay_parent),
    ensures
        final(peers)@ == deliveries(old(peers)@, to@, relay_parent, fingerprint).0,
        r@ == deliveries(old(peers)@, to@, relay_parent, fingerprint).1,
{
    let mut done: Vec<Delivery> = Vec::new();
    let mut i: usize = 0;
    while i < to.len()
        invariant
            i <= to@.len(),
            reachable(peers@, to@, relay_parent),
            peers@ == deliveries(old(peers)@, to@.take(i as int), relay_parent, fingerprint).0,
            done@ == deliveries(old(peers)@, to@.take(i as int), relay_parent, fingerprint).1,
        decreases to@.len() - i,
    {
        proof {
            assert(to@.take(i + 1).drop_last() =~= to@.take(i as int));
        }
        let peer = to[i];
        let peer_data = peers.get_mut(&peer).unwrap();
        let version = peer_data.protocol_version();
        let new = peer_data.send(&relay_parent, &fingerprint);
        done.push((peer, new, version));
        i = i + 1;
    }
    assert(to@.take(i as int) =~= to@);
    done
}

/// Sends a message to peers, if there are any.
fn broadcast_message(
    peers: Vec<PeerId>,
    version: ValidationVersion,
    payload: &StatementDistributionMessage,
    outbox: &mut Outbox,
)
    ensures
        final(outbox)@ == old(outbox)@ + (if peers@.len() == 0 {
            seq![]
        } else {
            seq![ActionView::SendValidationMessage(peers@, wrapped(version, *payload))]
        }),
{
    if peers.len() != 0 {
        outbox.push(
            Action::SendValidationMessage(peers, compatible_v1_message(version, payload.clone())),
        );
    }
}

/// What follows from circulating a statement: the peers afterwards, what is done, and the peers that
/// learned of a candidate.
pub open spec fn circulated(
    c: Circulation,
    chosen: Seq<PeerId>,
    usual: usize,
    peers: Map<PeerId, PeerDataView>,
    limits: NetworkLimits,
) -> (Map<PeerId, PeerDataView>, Seq<ActionView>, Seq<PeerId>) {
    let to = recipients(c.priority_peers@, chosen, usual, limits);
    let (after, done) = deliveries(peers, to, c.relay_parent, c.fp());
    (
        after,
        circulating(done, c.relay_parent, c.statement, limits),
        newcomers(done, true) + newcomers(done, false),
    )
}

/// Circulates a statement to all peers who have not seen it yet, and returns
/// the peers who need to have dependent statements sent.
///
/// The peers are those with priority, and those that were chosen among the others that can accept
/// the statement. `usual` is the number of peers that would be used without any priority peers.
pub fn circulate_statement(
    circulation: Circulation,
    chosen: Vec<PeerId>,
    usual: usize,
    peers: &mut ListMap<PeerId, PeerData>,
    limits: NetworkLimits,
    outbox: &mut Outbox,
) -> (r: Vec<PeerId>)
    requires
        reachable(old(peers)@, circulation.priority_peers@, circulation.relay_parent),
        reachable(old(peers)@, chosen@, circulation.relay_parent),
    ensures
        ({
            let (after, actions, newcomers) = circulated(
                circulation,
                chosen@,
                usual,
                old(peers)@,
                limits,
            );
            &&& final(peers)@ == after
            &&& final(outbox)@ == old(outbox)@ + actions
            &&& r@ == newcomers
        }),
{
    let relay_parent = circulation.relay_parent;
    let statement = circulation.statement;
    let fingerprint: Fingerprint = (circulation.comparator.compact, statement.validator_index);
    let to = choose_recipients(circulation.priority_peers, chosen, usual, limits);
    let done = note_deliveries(peers, &to, relay_parent, fingerprint);
    let mut v1_peers: Vec<PeerId> = Vec::new();
    let mut v2_peers: Vec<PeerId> = Vec::new();
    let mut v3_peers: Vec<PeerId> = Vec::new();
    let mut need_dependents: Vec<PeerId> = Vec::new();
    let mut need_dependents_later: Vec<PeerId> = Vec::new();
    let mut i: usize = 0;
    while i < done.len()
        invariant
            i <= done@.len(),
            v1_peers@ == speakers(done@.take(i as int), ValidationVersion::V1),
            v2_peers@ == speakers(done@.take(i as int), ValidationVersion::V2),
            v3_peers@ == speakers(done@.take(i as int), ValidationVersion::V3),
            need_dependents@ == newcomers(done@.take(i as int), true),
            need_dependents_later@ == newcomers(done@.take(i as int), false),
        decreases done@.len() - i,
    {
        proof {
            assert(done@.take(i + 1).drop_last() =~= done@.take(i as int));
        }
        let (peer, new, version) = done[i];
        match version {
            ValidationVersion::V1 => v1_peers.push(peer),
            ValidationVersion::V2 => v2_peers.push(peer),
            ValidationVersion::V3 => v3_peers.push(peer),
        }
        if new {
            if version == ValidationVersion::V1 {
                need_dependents.push(peer);
            } else {
                need_dependents_later.push(peer);
            }
        }
        i = i + 1;
    }
    assert(done@.take(i as int) =~= done@);
    let ghost stated = statement;
    let payload = v1_statement_message(relay_parent, statement, limits, outbox);
    // Send all these peers the initial statement.
    broadcast_message(v1_peers, ValidationVersion::V1, &payload, outbox);
    broadcast_message(v2_peers, ValidationVersion::V2, &payload, outbox);
    broadcast_message(v3_peers, ValidationVersion::V3, &payload, outbox);
    assert(outbox@ =~= old(outbox)@ + circulating(done@, relay_parent, stated, limits));
    need_dependents.append(&mut need_dependents_later);
    need_dependents
}

/// Whether every peer of a list is connected and has the relay parent in its view.
pub fn all_reachable(
    peers: &ListMap<PeerId, PeerData>,
    list: &Vec<PeerId>,
    relay_parent: &BlockHash,
) -> (r: bool)
    ensures
        r == reachable(peers@, list@, *relay_parent),
{
    let mut i: usize = 0;
    while i < list.len()
        invariant
            i <= list@.len(),
            reachable(peers@, list@.take(i as int), *relay_parent),
        decreases list@.len() - i,
    {
        let in_view = match peers.get(&list[i]) {
            Some(data) => data.tracks_head(relay_parent),
            None => false,
        };
        if !in_view {
            return false;
        }
        proof {
            assert forall|j: int| 0 <= j < i + 1 implies peers@.contains_key(
                #[trigger] list@.take(i + 1)[j],
            ) && peers@[list@.take(i + 1)[j]].tracks(*relay_parent) by {
                if j < i {
                    assert(list@.take(i as int)[j] == list@.take(i + 1)[j]);
                }
            }
        }
        i = i + 1;
    }
    assert(list@.take(i as int) =~= list@);
    true
}

/// Sends peers all statements about a candidate, one peer after the other: the peers afterwards, and
/// what is done.
pub open spec fn informing(
    peers: Map<PeerId, PeerDataView>,
    list: Seq<PeerId>,
    relay_parent: BlockHash,
    s: Seq<StoredEntry>,
    limits: NetworkLimits,
) -> (Map<PeerId, PeerDataView>, Seq<ActionView>)
    decreases list.len(),
{
    if list.len() == 0 {
        (peers, seq![])
    } else {
        let (before, done) = informing(peers, list.drop_last(), relay_parent, s, limits);
        if before.contains_key(list.last()) {
            let (data, sent) = dispatch(list.last(), before[list.last()], relay_parent, s, limits);
            (before.insert(list.last(), data), done + sent)
        } else {
            (before, done)
        }
    }
}

/// Sends peers all statements about a candidate, one peer after the other.
pub fn send_dependents(
    list: &Vec<PeerId>,
    peers: &mut ListMap<PeerId, PeerData>,
    relay_parent: BlockHash,
    candidate_hash: CandidateHash,
    active_head: &ActiveHeadData,
    limits: NetworkLimits,
    outbox: &mut Outbox,
)
    ensures
        ({
            let (after, actions) = informing(
                old(peers)@,
                list@,
                relay_parent,
                entries_about(active_head@.statements, candidate_hash),
                limits,
            );
            &&& final(peers)@ == after
            &&& final(outbox)@ == old(outbox)@ + actions
        }),
{
    let ghost s = entries_about(active_head@.statements, candidate_hash);
    let mut i: usize = 0;
    assert(outbox@ =~= old(outbox)@ + informing(old(peers)@, list@.take(0), relay_parent, s, limits).1);
    while i < list.len()
        invariant
            i <= list@.len(),
            s == entries_about(active_head@.statements, candidate_hash),
            peers@ == informing(old(peers)@, list@.take(i as int), relay_parent, s, limits).0,
            outbox@ == old(outbox)@ + informing(
                old(peers)@,
                list@.take(i as int),
                relay_parent,
                s,
                limits,
            ).1,
        decreases list@.len() - i,
    {
        proof {
            lemma_take_one_more(list@, i as int);
        }
        let peer = list[i];
        if let Some(data) = peers.get_mut(&peer) {
            send_statements_about(
                peer,
                data,
                relay_parent,
                candidate_hash,
                active_head,
                limits,
                outbox,
            );
        }
        i = i + 1;
        assert(outbox@ =~= old(outbox)@ + informing(
            old(peers)@,
            list@.take(i as int),
            relay_parent,
            s,
            limits,
        ).1);
    }
    assert(list@.take(i as int) =~= list@);
}

} // verus!
