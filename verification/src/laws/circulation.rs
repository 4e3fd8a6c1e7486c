//! What holds when a statement is circulated.
use crate::collections::{distinct, lemma_push_contains};
use crate::distribute::{
    Circulation, Delivery, GossipScope, accepting, broadcast_to, circulated, deliveries, dispatch,
    informing, newcomers, plans, reachable, recipients, speakers,
};
use crate::ids::{BlockHash, PeerId};
use crate::laws::delivery::{deliveries_reach_their_peers, recipients_were_named};
use crate::message::{
    ActionView, NetworkLimits, ValidationVersion, creation_count, statement_message, wrapped,
};
use crate::peer::PeerDataView;
use crate::statement::{Fingerprint, SignedFullStatement};
use crate::stored::{StoredEntry, StoredStatementComparator};
use vstd::prelude::*;

verus! {

/// Whether an action sends a message to peers that a peer is among.
pub open spec fn goes_to(action: ActionView, peer: PeerId) -> bool {
    action matches ActionView::SendValidationMessage(to, _) && to.contains(peer)
}

/// Whether a peer is in the list of exactly one message among actions, in the envelope of its version of
/// the protocol, and that message carries a statement for a relay parent.
pub open spec fn is_sent_once(
    actions: Seq<ActionView>,
    peer: PeerId,
    version: ValidationVersion,
    relay_parent: BlockHash,
    statement: SignedFullStatement,
    limits: NetworkLimits,
) -> bool {
    exists|i: int|
        {
            &&& 0 <= i < actions.len()
            &&& goes_to(#[trigger] actions[i], peer)
            &&& actions[i]->SendValidationMessage_1 == wrapped(
                version,
                statement_message(relay_parent, statement, limits),
            )
            &&& forall|j: int|
                0 <= j < actions.len() && goes_to(#[trigger] actions[j], peer) ==> j == i
        }
}

proof fn lemma_deliveries(
    peers: Map<PeerId, PeerDataView>,
    to: Seq<PeerId>,
    relay_parent: BlockHash,
    fp: Fingerprint,
)
    requires
        reachable(peers, to, relay_parent),
    ensures
        ({
            let (after, done) = deliveries(peers, to, relay_parent, fp);
            &&& done.len() == to.len()
            &&& forall|i: int|
                0 <= i < to.len() ==> (#[trigger] done[i]).0 == to[i] && done[i].2
                    == peers[to[i]].protocol_version
            &&& forall|p: PeerId| (#[trigger] after[p]).protocol_version == peers[p].protocol_version
            &&& distinct(to) ==> forall|i: int|
                0 <= i < to.len() ==> (#[trigger] done[i]).1 == peers[to[i]].introduces(relay_parent, fp)
        }),
    decreases to.len(),
{
    if to.len() > 0 {
        let front = to.drop_last();
        let last = to.last();
        assert forall|i: int| 0 <= i < front.len() implies peers.contains_key(#[trigger] front[i])
            && peers[front[i]].tracks(relay_parent) by {
            assert(front[i] == to[i]);
        }
        lemma_deliveries(peers, front, relay_parent, fp);
        deliveries_reach_their_peers(peers, front, relay_parent, fp);
        let (before, earlier) = deliveries(peers, front, relay_parent, fp);
        let (after, done) = deliveries(peers, to, relay_parent, fp);
        assert(to[to.len() - 1] == last);
        assert(before[last].protocol_version == peers[last].protocol_version);
        if distinct(to) {
            assert(distinct(front)) by {
                assert forall|i: int, j: int| 0 <= i < j < front.len() implies #[trigger] front[i]
                    != #[trigger] front[j] by {
                    assert(front[i] == to[i] && front[j] == to[j]);
                }
            }
            assert(!front.contains(last)) by {
                if front.contains(last) {
                    let i = choose|i: int| 0 <= i < front.len() && front[i] == last;
                    assert(to[i] == to[to.len() - 1]);
                }
            }
            assert(before[last] == peers[last]);
        }
        assert forall|i: int| 0 <= i < to.len() implies (#[trigger] done[i]).0 == to[i] && done[i].2
            == peers[to[i]].protocol_version && (distinct(to) ==> done[i].1 == peers[to[i]].introduces(
            relay_parent,
            fp,
        )) by {
            if i < front.len() {
                assert(done[i] == earlier[i]);
                assert(front[i] == to[i]);
            }
        }
        assert forall|p: PeerId| (#[trigger] after[p]).protocol_version == peers[p].protocol_version by {
            assert(before[p].protocol_version == peers[p].protocol_version);
        }
    }
}

/// The peers that speak a version of the protocol are those of the first deliveries and behind them those
/// of the rest, wherever they are parted; and a single delivery is to a peer that speaks its version.
pub proof fn speakers_keep_their_order(
    done: Seq<Delivery>,
    rest: Seq<Delivery>,
    one: Delivery,
    version: ValidationVersion,
)
    ensures
        speakers(done + rest, version) == speakers(done, version) + speakers(rest, version),
        one.2 == version ==> speakers(seq![one], version) == seq![one.0],
        one.2 != version ==> speakers(seq![one], version).len() == 0,
    decreases rest.len(),
{
    let all = done + rest;
    if rest.len() == 0 {
        assert(all =~= done);
        assert(speakers(all, version) =~= speakers(done, version) + speakers(rest, version));
    } else {
        assert(all.drop_last() =~= done + rest.drop_last());
        speakers_keep_their_order(done, rest.drop_last(), one, version);
        assert(speakers(all, version) =~= speakers(done, version) + speakers(rest, version));
    }
    assert(seq![one].drop_last() =~= Seq::empty());
    assert(speakers(seq![one].drop_last(), version) =~= Seq::empty());
}

proof fn lemma_speakers(done: Seq<Delivery>, version: ValidationVersion, p: PeerId)
    ensures
        speakers(done, version).contains(p) <==> exists|i: int|
            0 <= i < done.len() && (#[trigger] done[i]).0 == p && done[i].2 == version,
    decreases done.len(),
{
    if done.len() > 0 {
        let front = done.drop_last();
        lemma_speakers(front, version, p);
        lemma_push_contains(speakers(front, version), done.last().0, p);
        assert(done[done.len() - 1] == done.last());
        if speakers(front, version).contains(p) {
            let i = choose|i: int|
                0 <= i < front.len() && (#[trigger] front[i]).0 == p && front[i].2 == version;
            assert(done[i] == front[i]);
        }
        if exists|i: int| 0 <= i < done.len() && (#[trigger] done[i]).0 == p && done[i].2 == version {
            let i = choose|i: int|
                0 <= i < done.len() && (#[trigger] done[i]).0 == p && done[i].2 == version;
            if i < front.len() {
                assert(front[i] == done[i]);
            }
        }
    }
}

proof fn lemma_speakers_of(
    peers: Map<PeerId, PeerDataView>,
    to: Seq<PeerId>,
    relay_parent: BlockHash,
    fp: Fingerprint,
    version: ValidationVersion,
    p: PeerId,
)
    requires
        reachable(peers, to, relay_parent),
    ensures
        speakers(deliveries(peers, to, relay_parent, fp).1, version).contains(p) <==> to.contains(p)
            && peers[p].protocol_version == version,
{
    let done = deliveries(peers, to, relay_parent, fp).1;
    lemma_deliveries(peers, to, relay_parent, fp);
    lemma_speakers(done, version, p);
    if to.contains(p) && peers[p].protocol_version == version {
        let i = choose|i: int| 0 <= i < to.len() && to[i] == p;
        assert(done[i].0 == p);
    }
    if speakers(done, version).contains(p) {
        let i = choose|i: int|
            0 <= i < done.len() && (#[trigger] done[i]).0 == p && done[i].2 == version;
        assert(to[i] == p);
    }
}

/// Every peer that a circulated statement is noted as sent to, and was not before, is in the list of exactly
/// one message, which carries the statement in the envelope of the peer's version of the protocol, whether
/// it seconds a candidate or says that one is valid. So is every peer that the statement goes to, and no
/// other peer is in any list or changed.
pub proof fn every_recipient_is_sent_the_statement_once(
    c: Circulation,
    chosen: Seq<PeerId>,
    usual: usize,
    peers: Map<PeerId, PeerDataView>,
    limits: NetworkLimits,
    p: PeerId,
)
    requires
        reachable(peers, c.priority_peers@, c.relay_parent),
        reachable(peers, chosen, c.relay_parent),
    ensures
        ({
            let (after, actions, _) = circulated(c, chosen, usual, peers, limits);
            let to = recipients(c.priority_peers@, chosen, usual, limits);
            let noted = after[p].view_knowledge[c.relay_parent].sent_statements.contains(c.fp());
            let was_noted = peers[p].view_knowledge[c.relay_parent].sent_statements.contains(c.fp());
            &&& noted && !was_noted ==> is_sent_once(
                actions,
                p,
                peers[p].protocol_version,
                c.relay_parent,
                c.statement,
                limits,
            )
            &&& to.contains(p) ==> noted && is_sent_once(
                actions,
                p,
                peers[p].protocol_version,
                c.relay_parent,
                c.statement,
                limits,
            )
            &&& !to.contains(p) ==> after[p] == peers[p] && forall|i: int|
                0 <= i < actions.len() ==> !goes_to(#[trigger] actions[i], p)
        }),
{
    let to = recipients(c.priority_peers@, chosen, usual, limits);
    let (after, actions, _) = circulated(c, chosen, usual, peers, limits);
    lemma_recipients(c, chosen, usual, peers, limits);
    let done = deliveries(peers, to, c.relay_parent, c.fp()).1;
    deliveries_reach_their_peers(peers, to, c.relay_parent, c.fp());
    assert(after == deliveries(peers, to, c.relay_parent, c.fp()).0);
    let count = creation_count(c.statement, limits);
    let v1 = ValidationVersion::V1;
    let v2 = ValidationVersion::V2;
    let v3 = ValidationVersion::V3;
    let s1 = speakers(done, v1);
    let s2 = speakers(done, v2);
    let s3 = speakers(done, v3);
    lemma_speakers_of(peers, to, c.relay_parent, c.fp(), v1, p);
    lemma_speakers_of(peers, to, c.relay_parent, c.fp(), v2, p);
    lemma_speakers_of(peers, to, c.relay_parent, c.fp(), v3, p);
    let b1 = broadcast_to(s1, v1, c.relay_parent, c.statement, limits);
    let b2 = broadcast_to(s2, v2, c.relay_parent, c.statement, limits);
    let b3 = broadcast_to(s3, v3, c.relay_parent, c.statement, limits);
    assert(actions == count + b1 + b2 + b3);
    let i1 = count.len() as int;
    let i2 = i1 + b1.len();
    let i3 = i2 + b2.len();
    assert forall|j: int| 0 <= j < actions.len() && goes_to(#[trigger] actions[j], p) implies {
        ||| j == i1 && s1.contains(p)
        ||| j == i2 && s2.contains(p)
        ||| j == i3 && s3.contains(p)
    } by {
        if j < i1 {
            assert(actions[j] == count[j]);
        } else if j < i2 {
            assert(actions[j] == b1[j - i1]);
        } else if j < i3 {
            assert(actions[j] == b2[j - i2]);
        } else {
            assert(actions[j] == b3[j - i3]);
        }
    }
    if to.contains(p) {
        match peers[p].protocol_version {
            ValidationVersion::V1 => {
                assert(s1.len() > 0);
                assert(actions[i1] == b1[0]);
                assert(goes_to(actions[i1], p));
            },
            ValidationVersion::V2 => {
                assert(s2.len() > 0);
                assert(actions[i2] == b2[0]);
                assert(goes_to(actions[i2], p));
            },
            ValidationVersion::V3 => {
                assert(s3.len() > 0);
                assert(actions[i3] == b3[0]);
                assert(goes_to(actions[i3], p));
            },
        }
    }
}

proof fn lemma_recipients(
    c: Circulation,
    chosen: Seq<PeerId>,
    usual: usize,
    peers: Map<PeerId, PeerDataView>,
    limits: NetworkLimits,
)
    requires
        reachable(peers, c.priority_peers@, c.relay_parent),
        reachable(peers, chosen, c.relay_parent),
    ensures
        reachable(peers, recipients(c.priority_peers@, chosen, usual, limits), c.relay_parent),
{
    let to = recipients(c.priority_peers@, chosen, usual, limits);
    recipients_were_named(c.priority_peers@, chosen, usual, limits);
    assert forall|i: int| 0 <= i < to.len() implies peers.contains_key(#[trigger] to[i])
        && peers[to[i]].tracks(c.relay_parent) by {
        if c.priority_peers@.contains(to[i]) {
            let j = choose|j: int| 0 <= j < c.priority_peers@.len() && c.priority_peers@[j] == to[i];
            assert(peers.contains_key(c.priority_peers@[j]));
        } else {
            let j = choose|j: int| 0 <= j < chosen.len() && chosen[j] == to[i];
            assert(peers.contains_key(chosen[j]));
        }
    }
}

/// Circulating a statement makes at most one message for each version of the protocol, and no message
/// without peers in its list. Besides messages there is one count for a statement that seconds a candidate,
/// and none for one that says that a candidate is valid.
pub proof fn circulation_makes_one_message_per_version(
    c: Circulation,
    chosen: Seq<PeerId>,
    usual: usize,
    peers: Map<PeerId, PeerDataView>,
    limits: NetworkLimits,
    i: int,
    j: int,
)
    requires
        reachable(peers, c.priority_peers@, c.relay_parent),
        reachable(peers, chosen, c.relay_parent),
        0 <= i < circulated(c, chosen, usual, peers, limits).1.len(),
        0 <= j < circulated(c, chosen, usual, peers, limits).1.len(),
    ensures
        ({
            let actions = circulated(c, chosen, usual, peers, limits).1;
            &&& match actions[i] {
                ActionView::SendValidationMessage(to, m) => to.len() > 0 && (exists|
                    version: ValidationVersion,
                |
                    m == #[trigger] wrapped(
                        version,
                        statement_message(c.relay_parent, c.statement, limits),
                    )),
                ActionView::CountCreatedMessage(_) => i == 0 && c.statement.payload is Seconded,
                _ => false,
            }
            &&& actions[i] is SendValidationMessage && actions[j] is SendValidationMessage && i != j
                ==> actions[i]->SendValidationMessage_1 != actions[j]->SendValidationMessage_1
            &&& c.statement.payload is Seconded ==> actions[0] is CountCreatedMessage
        }),
{
    let to = recipients(c.priority_peers@, chosen, usual, limits);
    let actions = circulated(c, chosen, usual, peers, limits).1;
    let done = deliveries(peers, to, c.relay_parent, c.fp()).1;
    let count = creation_count(c.statement, limits);
    let m = statement_message(c.relay_parent, c.statement, limits);
    let v1 = ValidationVersion::V1;
    let v2 = ValidationVersion::V2;
    let v3 = ValidationVersion::V3;
    let b1 = broadcast_to(speakers(done, v1), v1, c.relay_parent, c.statement, limits);
    let b2 = broadcast_to(speakers(done, v2), v2, c.relay_parent, c.statement, limits);
    let b3 = broadcast_to(speakers(done, v3), v3, c.relay_parent, c.statement, limits);
    assert(actions == count + b1 + b2 + b3);
    let i1 = count.len() as int;
    let i2 = i1 + b1.len();
    let i3 = i2 + b2.len();
    assert forall|x: int| 0 <= x < actions.len() implies {
        ||| x < i1 && #[trigger] actions[x] == count[x]
        ||| x == i1 && x < i2 && b1.len() == 1 && actions[x] == b1[0]
        ||| x == i2 && x < i3 && b2.len() == 1 && actions[x] == b2[0]
        ||| x == i3 && b3.len() == 1 && actions[x] == b3[0]
    } by {
        if x < i1 {
            assert(actions[x] == count[x]);
        } else if x < i2 {
            assert(actions[x] == b1[x - i1]);
        } else if x < i3 {
            assert(actions[x] == b2[x - i2]);
        } else {
            assert(actions[x] == b3[x - i3]);
        }
    }
    assert(actions[i] == actions[i]);
    assert(actions[j] == actions[j]);
    assert(wrapped(v1, m) != wrapped(v2, m) && wrapped(v2, m) != wrapped(v3, m) && wrapped(v1, m)
        != wrapped(v3, m));
}

/// A statement goes to all peers with priority, in their order, and behind them to the first of the chosen
/// ones, in their order: to so many that there are as many in all as were chosen, as would be used without
/// priority peers and as are gossiped to at least, whichever is most; or to all of the chosen ones, where
/// there are not so many; or to none, where the priority peers are as many already.
pub proof fn recipients_are_filled_up(
    priority: Seq<PeerId>,
    chosen: Seq<PeerId>,
    usual: usize,
    limits: NetworkLimits,
)
    ensures
        ({
            let to = recipients(priority, chosen, usual, limits);
            let extra = to.len() - priority.len();
            let enough = |n: int| n >= chosen.len() && n >= usual && n >= limits.min_gossip_peers;
            &&& 0 <= extra <= chosen.len()
            &&& forall|i: int| 0 <= i < priority.len() ==> to[i] == #[trigger] priority[i]
            &&& forall|i: int| 0 <= i < extra ==> to[priority.len() + i] == #[trigger] chosen[i]
            &&& enough(to.len() as int) || extra == chosen.len()
            &&& extra > 0 ==> !enough(to.len() - 1)
        }),
{
}

/// The peers of a list that can accept a statement are in it in the order in which they first come up, each
/// of them once, and no others.
pub proof fn accepting_peers_are_listed_once(
    peers: Map<PeerId, PeerDataView>,
    list: Seq<PeerId>,
    one: PeerId,
    relay_parent: BlockHash,
    fp: Fingerprint,
)
    ensures
        accepting(peers, Seq::empty(), relay_parent, fp).len() == 0,
        accepting(peers, list.push(one), relay_parent, fp) == if peers.contains_key(one)
            && peers[one].accepts(relay_parent, fp) && !list.contains(one) {
            accepting(peers, list, relay_parent, fp).push(one)
        } else {
            accepting(peers, list, relay_parent, fp)
        },
        distinct(accepting(peers, list, relay_parent, fp)),
        accepting(peers, list, relay_parent, fp).contains(one) <==> list.contains(one)
            && peers.contains_key(one) && peers[one].accepts(relay_parent, fp),
    decreases list.len(),
{
    assert(list.push(one).drop_last() =~= list);
    if list.len() > 0 {
        let front = list.drop_last();
        let last = list.last();
        let before = accepting(peers, front, relay_parent, fp);
        let all = accepting(peers, list, relay_parent, fp);
        accepting_peers_are_listed_once(peers, front, one, relay_parent, fp);
        accepting_peers_are_listed_once(peers, front, last, relay_parent, fp);
        assert(list =~= front.push(last));
        lemma_push_contains(front, last, one);
        lemma_push_contains(before, last, one);
        if all.len() > before.len() {
            assert forall|i: int, j: int| 0 <= i < j < all.len() implies #[trigger] all[i]
                != #[trigger] all[j] by {
                assert(all[i] == before[i]);
                assert(before.contains(before[i]));
                if j < before.len() {
                    assert(all[j] == before[j]);
                }
            }
        }
    }
}

/// A circulation is planned for the statement as it is, with what tells it apart, at its relay parent. Each
/// peer that can accept the statement is planned for once, among the priority peers if and only if it is in
/// their list; and no other peer is.
pub proof fn plan_covers_all_that_can_accept(
    c: Circulation,
    peers: Map<PeerId, PeerDataView>,
    relay_parent: BlockHash,
    comparator: StoredStatementComparator,
    statement: SignedFullStatement,
    priority_peers: Seq<PeerId>,
    scope: GossipScope,
    p: PeerId,
)
    requires
        plans(c, peers, relay_parent, comparator, statement, priority_peers, scope),
    ensures
        c.relay_parent == relay_parent,
        c.comparator == comparator,
        c.statement == statement,
        c.scope == scope,
        c.fp() == (comparator.compact, statement.validator_index),
        distinct(c.priority_peers@ + c.other_peers@),
        c.priority_peers@.contains(p) <==> priority_peers.contains(p) && peers.contains_key(p)
            && peers[p].accepts(relay_parent, c.fp()),
        c.other_peers@.contains(p) <==> !priority_peers.contains(p) && peers.contains_key(p)
            && peers[p].accepts(relay_parent, c.fp()),
{
    accepting_peers_are_listed_once(peers, priority_peers, p, relay_parent, c.fp());
    let a = c.priority_peers@;
    let b = c.other_peers@;
    let all = a + b;
    assert forall|i: int, j: int| 0 <= i < j < all.len() implies #[trigger] all[i] != #[trigger] all[j] by {
        if j < a.len() {
            assert(all[i] == a[i] && all[j] == a[j]);
        } else if i < a.len() {
            assert(all[i] == a[i] && all[j] == b[j - a.len()]);
            assert(b.contains(all[j]));
            assert(a.contains(all[i]));
        } else {
            assert(all[i] == b[i - a.len()] && all[j] == b[j - a.len()]);
        }
    }
}

/// The peers that learn of a candidate are those of the first deliveries and behind them those of the rest,
/// wherever they are parted; a single delivery is such a one if it introduces the candidate to a peer of the
/// kind that is asked for, one of the first version or one of the others.
pub proof fn newcomers_keep_their_order(
    done: Seq<Delivery>,
    rest: Seq<Delivery>,
    one: Delivery,
    first_version: bool,
)
    ensures
        newcomers(done + rest, first_version) == newcomers(done, first_version) + newcomers(
            rest,
            first_version,
        ),
        one.1 && first_version == (one.2 == ValidationVersion::V1) ==> newcomers(
            seq![one],
            first_version,
        ) == seq![one.0],
        !one.1 || first_version != (one.2 == ValidationVersion::V1) ==> newcomers(
            seq![one],
            first_version,
        ).len() == 0,
    decreases rest.len(),
{
    let all = done + rest;
    if rest.len() == 0 {
        assert(all =~= done);
        assert(newcomers(all, first_version) =~= newcomers(done, first_version) + newcomers(
            rest,
            first_version,
        ));
    } else {
        assert(all.drop_last() =~= done + rest.drop_last());
        newcomers_keep_their_order(done, rest.drop_last(), one, first_version);
        assert(newcomers(all, first_version) =~= newcomers(done, first_version) + newcomers(
            rest,
            first_version,
        ));
    }
    assert(seq![one].drop_last() =~= Seq::empty());
    assert(newcomers(seq![one].drop_last(), first_version) =~= Seq::empty());
}

proof fn lemma_newcomers(done: Seq<Delivery>, first_version: bool, p: PeerId)
    ensures
        newcomers(done, first_version).contains(p) <==> exists|i: int|
            0 <= i < done.len() && (#[trigger] done[i]).0 == p && done[i].1 && (done[i].2
                == ValidationVersion::V1) == first_version,
    decreases done.len(),
{
    if done.len() > 0 {
        let front = done.drop_last();
        lemma_newcomers(front, first_version, p);
        lemma_push_contains(newcomers(front, first_version), done.last().0, p);
        assert(done[done.len() - 1] == done.last());
        if newcomers(front, first_version).contains(p) {
            let i = choose|i: int|
                0 <= i < front.len() && (#[trigger] front[i]).0 == p && front[i].1 && (front[i].2
                    == ValidationVersion::V1) == first_version;
            assert(done[i] == front[i]);
        }
        if exists|i: int|
            0 <= i < done.len() && (#[trigger] done[i]).0 == p && done[i].1 && (done[i].2
                == ValidationVersion::V1) == first_version {
            let i = choose|i: int|
                0 <= i < done.len() && (#[trigger] done[i]).0 == p && done[i].1 && (done[i].2
                    == ValidationVersion::V1) == first_version;
            if i < front.len() {
                assert(front[i] == done[i]);
            }
        }
    }
}

/// Where a statement goes to each peer once, the peers that learn of a candidate by it are exactly those
/// that it goes to and that were not known to have the candidate before; and none learns of a candidate by
/// a statement that it is valid.
pub proof fn newcomers_did_not_know_the_candidate(
    c: Circulation,
    chosen: Seq<PeerId>,
    usual: usize,
    peers: Map<PeerId, PeerDataView>,
    limits: NetworkLimits,
    p: PeerId,
)
    requires
        reachable(peers, c.priority_peers@, c.relay_parent),
        reachable(peers, chosen, c.relay_parent),
        distinct(recipients(c.priority_peers@, chosen, usual, limits)),
    ensures
        circulated(c, chosen, usual, peers, limits).2.contains(p) <==> {
            let k = peers[p].view_knowledge[c.relay_parent];
            let h = c.comparator.compact.candidate();
            &&& recipients(c.priority_peers@, chosen, usual, limits).contains(p)
            &&& c.comparator.compact is Seconded
            &&& !k.sent_candidates.contains(h)
            &&& !k.received_candidates.contains(h)
        },
{
    let to = recipients(c.priority_peers@, chosen, usual, limits);
    lemma_recipients(c, chosen, usual, peers, limits);
    lemma_deliveries(peers, to, c.relay_parent, c.fp());
    let done = deliveries(peers, to, c.relay_parent, c.fp()).1;
    lemma_newcomers(done, true, p);
    lemma_newcomers(done, false, p);
    let first = newcomers(done, true);
    let others = newcomers(done, false);
    let all = circulated(c, chosen, usual, peers, limits).2;
    assert(all == first + others);
    assert(all.contains(p) <==> first.contains(p) || others.contains(p)) by {
        if all.contains(p) {
            let i = choose|i: int| 0 <= i < all.len() && all[i] == p;
            if i < first.len() {
                assert(first[i] == p);
            } else {
                assert(others[i - first.len()] == p);
            }
        }
        if first.contains(p) {
            let i = choose|i: int| 0 <= i < first.len() && first[i] == p;
            assert(all[i] == p);
        }
        if others.contains(p) {
            let i = choose|i: int| 0 <= i < others.len() && others[i] == p;
            assert(all[first.len() + i] == p);
        }
    }
    if to.contains(p) && peers[p].introduces(c.relay_parent, c.fp()) {
        let i = choose|i: int| 0 <= i < to.len() && to[i] == p;
        assert(done[i].0 == p && done[i].1);
    }
    if first.contains(p) || others.contains(p) {
        let i = choose|i: int| 0 <= i < done.len() && (#[trigger] done[i]).0 == p && done[i].1;
        assert(to[i] == p);
    }
}

/// Telling peers what is stated is telling the first of them and then the rest, wherever they are parted. A
/// single peer is told it if it is connected, and no other peer is changed.
pub proof fn peers_are_informed_one_by_one(
    peers: Map<PeerId, PeerDataView>,
    list: Seq<PeerId>,
    rest: Seq<PeerId>,
    one: PeerId,
    relay_parent: BlockHash,
    s: Seq<StoredEntry>,
    limits: NetworkLimits,
)
    ensures
        ({
            let (first, done) = informing(peers, list, relay_parent, s, limits);
            let (second, more) = informing(first, rest, relay_parent, s, limits);
            informing(peers, list + rest, relay_parent, s, limits) == (second, done + more)
        }),
        !peers.contains_key(one) ==> informing(peers, seq![one], relay_parent, s, limits) == (
            peers,
            Seq::<ActionView>::empty(),
        ),
        peers.contains_key(one) ==> {
            let (after, actions) = informing(peers, seq![one], relay_parent, s, limits);
            &&& after == peers.insert(one, dispatch(one, peers[one], relay_parent, s, limits).0)
            &&& actions == dispatch(one, peers[one], relay_parent, s, limits).1
        },
    decreases rest.len(),
{
    let all = list + rest;
    let (first, done) = informing(peers, list, relay_parent, s, limits);
    let (second, more) = informing(first, rest, relay_parent, s, limits);
    if rest.len() == 0 {
        assert(all =~= list);
        assert(done + more =~= done);
    } else {
        assert(all.drop_last() =~= list + rest.drop_last());
        peers_are_informed_one_by_one(peers, list, rest.drop_last(), one, relay_parent, s, limits);
        assert(informing(peers, all, relay_parent, s, limits).1 =~= done + more);
    }
    assert(seq![one].drop_last() =~= Seq::empty());
    assert(informing(peers, seq![one].drop_last(), relay_parent, s, limits) == (
        peers,
        Seq::<ActionView>::empty(),
    ));
    assert(informing(peers, seq![one], relay_parent, s, limits).1 =~= if peers.contains_key(one) {
        dispatch(one, peers[one], relay_parent, s, limits).1
    } else {
        Seq::empty()
    });
}

} // verus!
