//! What holds of the statements that are sent to peers.
use crate::collections::{distinct, lemma_push_contains};
use crate::distribute::{
    Circulation, accepting, can_accept, deliveries, dispatch, plans, reachable, recipients, sending,
};
use crate::ids::{BlockHash, PeerId};
use crate::knowledge::KnowledgeView;
use crate::laws::head::{is_seconded, ordered};
use crate::laws::knowledge::{
    blank_knowledge_is_sound,
    metered, send_keeps_knowledge_metered, send_keeps_knowledge_sound, sound,
};
use crate::message::{
    ActionView, NetworkLimits, ValidationVersion, VersionedMessage, creation_count, statement_message,
    wrapped,
};
use crate::peer::PeerDataView;
use crate::statement::{CompactStatement, Fingerprint, SignedFullStatement};
use crate::stored::{StoredEntry, entry_fingerprint};
use vstd::prelude::*;

verus! {

/// Whether one knowledge holds all that another one holds of what was sent and received.
pub open spec fn grown(before: KnowledgeView, after: KnowledgeView) -> bool {
    &&& before.sent_statements.subset_of(after.sent_statements)
    &&& before.sent_candidates.subset_of(after.sent_candidates)
    &&& before.received_statements.subset_of(after.received_statements)
    &&& before.received_candidates.subset_of(after.received_candidates)
}

/// Telling a peer what is stated at a relay parent changes nothing but what it knows about that relay
/// parent, and makes it forget nothing.
pub proof fn dispatch_only_adds_knowledge(
    peer: PeerId,
    data: PeerDataView,
    relay_parent: BlockHash,
    s: Seq<StoredEntry>,
    limits: NetworkLimits,
)
    ensures
        ({
            let after = dispatch(peer, data, relay_parent, s, limits).0;
            &&& after.view == data.view
            &&& after.protocol_version == data.protocol_version
            &&& after.maybe_authority == data.maybe_authority
            &&& after.view_knowledge.dom() == data.view_knowledge.dom()
            &&& forall|h: BlockHash|
                h != relay_parent ==> #[trigger] after.view_knowledge[h] == data.view_knowledge[h]
            &&& grown(data.view_knowledge[relay_parent], after.view_knowledge[relay_parent])
            &&& after.view_knowledge[relay_parent].large_statement_count
                == data.view_knowledge[relay_parent].large_statement_count
            &&& data.tracks(relay_parent) && sound(data.view_knowledge[relay_parent]) ==> sound(
                after.view_knowledge[relay_parent],
            )
            &&& forall|max: usize|
                metered(data.view_knowledge[relay_parent], max) ==> #[trigger] metered(
                    after.view_knowledge[relay_parent],
                    max,
                )
        }),
    decreases s.len(),
{
    if s.len() > 0 {
        dispatch_only_adds_knowledge(peer, data, relay_parent, s.drop_last(), limits);
        let (d, done) = dispatch(peer, data, relay_parent, s.drop_last(), limits);
        let fp = entry_fingerprint(s.last());
        if d.accepts(relay_parent, fp) {
            let k = d.view_knowledge[relay_parent];
            if sound(k) {
                send_keeps_knowledge_sound(k, fp);
            }
            assert forall|max: usize| metered(data.view_knowledge[relay_parent], max) implies
                #[trigger] metered(k.after_send(fp), max) by {
                assert(metered(k, max));
                send_keeps_knowledge_metered(k, fp, max);
            }
            assert(d.after_send(relay_parent, fp).view_knowledge.dom() =~= d.view_knowledge.dom());
        }
    }
}

/// A peer that is told what is stated at a relay parent in its view ends up with every one of the
/// statements, if each `Valid` one comes behind one that seconds its candidate.
pub proof fn dispatch_tells_everything(
    peer: PeerId,
    data: PeerDataView,
    relay_parent: BlockHash,
    s: Seq<StoredEntry>,
    limits: NetworkLimits,
)
    requires
        data.tracks(relay_parent),
        sound(data.view_knowledge[relay_parent]),
        ordered(s),
    ensures
        ({
            let k = dispatch(peer, data, relay_parent, s, limits).0.view_knowledge[relay_parent];
            &&& forall|i: int|
                0 <= i < s.len() ==> k.knows_statement(entry_fingerprint(#[trigger] s[i]))
            &&& forall|i: int|
                0 <= i < s.len() ==> k.knows_candidate((#[trigger] s[i]).0.compact.candidate())
        }),
    decreases s.len(),
{
    if s.len() > 0 {
        let front = s.drop_last();
        assert(ordered(front)) by {
            assert forall|i: int| 0 <= i < front.len() && (#[trigger] front[i]).0.compact is Valid implies is_seconded(
                front.take(i),
                front[i].0.compact.candidate(),
            ) by {
                assert(front[i] == s[i]);
                assert(front.take(i) =~= s.take(i));
            }
        }
        dispatch_tells_everything(peer, data, relay_parent, front, limits);
        dispatch_only_adds_knowledge(peer, data, relay_parent, front, limits);
        dispatch_only_adds_knowledge(peer, data, relay_parent, s, limits);
        let d = dispatch(peer, data, relay_parent, front, limits).0;
        let before = d.view_knowledge[relay_parent];
        let k = dispatch(peer, data, relay_parent, s, limits).0.view_knowledge[relay_parent];
        let fp = entry_fingerprint(s.last());
        let h = s.last().0.compact.candidate();
        assert(d.tracks(relay_parent));
        if s.last().0.compact is Valid {
            assert(s[s.len() - 1] == s.last());
            assert(s.take(s.len() - 1) =~= front);
            let i = choose|i: int|
                0 <= i < front.len() && (#[trigger] front[i]).0.compact == CompactStatement::Seconded(h);
            assert(before.knows_candidate(front[i].0.compact.candidate()));
        }
        assert(k.knows_statement(fp));
        assert(k.knows_candidate(h));
        assert forall|i: int| 0 <= i < s.len() implies k.knows_statement(
            entry_fingerprint(#[trigger] s[i]),
        ) && k.knows_candidate(s[i].0.compact.candidate()) by {
            if i < front.len() {
                assert(front[i] == s[i]);
                assert(before.knows_statement(entry_fingerprint(front[i])));
                assert(before.knows_candidate(front[i].0.compact.candidate()));
                assert(grown(before, k));
            }
        }
    }
}

/// A peer that knows every one of the statements is sent nothing.
pub proof fn known_statements_are_not_sent(
    peer: PeerId,
    data: PeerDataView,
    relay_parent: BlockHash,
    s: Seq<StoredEntry>,
    limits: NetworkLimits,
)
    requires
        forall|i: int|
            0 <= i < s.len() ==> data.view_knowledge[relay_parent].knows_statement(
                entry_fingerprint(#[trigger] s[i]),
            ),
    ensures
        dispatch(peer, data, relay_parent, s, limits) == (data, Seq::<ActionView>::empty()),
    decreases s.len(),
{
    if s.len() > 0 {
        let front = s.drop_last();
        assert forall|i: int| 0 <= i < front.len() implies data.view_knowledge[relay_parent].knows_statement(
            entry_fingerprint(#[trigger] front[i]),
        ) by {
            assert(front[i] == s[i]);
        }
        known_statements_are_not_sent(peer, data, relay_parent, front, limits);
        assert(s[s.len() - 1] == s.last());
    }
}

/// Telling a peer a second time what is stated at a relay parent sends it nothing.
pub proof fn nothing_is_sent_twice(
    peer: PeerId,
    data: PeerDataView,
    relay_parent: BlockHash,
    s: Seq<StoredEntry>,
    limits: NetworkLimits,
)
    requires
        data.tracks(relay_parent),
        sound(data.view_knowledge[relay_parent]),
        ordered(s),
    ensures
        ({
            let after = dispatch(peer, data, relay_parent, s, limits).0;
            dispatch(peer, after, relay_parent, s, limits) == (after, Seq::<ActionView>::empty())
        }),
{
    let after = dispatch(peer, data, relay_parent, s, limits).0;
    dispatch_tells_everything(peer, data, relay_parent, s, limits);
    known_statements_are_not_sent(peer, after, relay_parent, s, limits);
}

/// Whether a message carries one of the statements that a peer did not know.
pub open spec fn carries_news(
    data: PeerDataView,
    relay_parent: BlockHash,
    s: Seq<StoredEntry>,
    message: VersionedMessage,
    limits: NetworkLimits,
) -> bool {
    exists|j: int|
        0 <= j < s.len() && message == wrapped(
            data.protocol_version,
            statement_message(relay_parent, (#[trigger] s[j]).1, limits),
        ) && !data.view_knowledge[relay_parent].knows_statement(entry_fingerprint(s[j]))
}

/// Whatever is sent goes to the peer alone, in its version of the protocol, and is one of the
/// statements that it did not know. Nobody's reputation changes.
pub proof fn only_unknown_statements_are_sent(
    peer: PeerId,
    data: PeerDataView,
    relay_parent: BlockHash,
    s: Seq<StoredEntry>,
    limits: NetworkLimits,
)
    ensures
        ({
            let actions = dispatch(peer, data, relay_parent, s, limits).1;
            forall|i: int|
                0 <= i < actions.len() ==> match #[trigger] actions[i] {
                    ActionView::SendValidationMessage(to, m) => to == seq![peer] && carries_news(
                        data,
                        relay_parent,
                        s,
                        m,
                        limits,
                    ),
                    ActionView::CountCreatedMessage(_) => true,
                    ActionView::CountStatementDistributed => true,
                    _ => false,
                }
        }),
    decreases s.len(),
{
    if s.len() > 0 {
        let front = s.drop_last();
        only_unknown_statements_are_sent(peer, data, relay_parent, front, limits);
        dispatch_only_adds_knowledge(peer, data, relay_parent, front, limits);
        let (d, done) = dispatch(peer, data, relay_parent, front, limits);
        let actions = dispatch(peer, data, relay_parent, s, limits).1;
        assert forall|i: int| 0 <= i < actions.len() implies match #[trigger] actions[i] {
            ActionView::SendValidationMessage(to, m) => to == seq![peer] && carries_news(
                data,
                relay_parent,
                s,
                m,
                limits,
            ),
            ActionView::CountCreatedMessage(_) => true,
            ActionView::CountStatementDistributed => true,
            _ => false,
        } by {
            if i < done.len() {
                assert(actions[i] == done[i]);
                if let ActionView::SendValidationMessage(to, m) = done[i] {
                    assert(carries_news(data, relay_parent, front, m, limits));
                    let j = choose|j: int|
                        0 <= j < front.len() && m == wrapped(
                            data.protocol_version,
                            statement_message(relay_parent, (#[trigger] front[j]).1, limits),
                        ) && !data.view_knowledge[relay_parent].knows_statement(
                            entry_fingerprint(front[j]),
                        );
                    assert(s[j] == front[j]);
                }
            } else {
                let fp = entry_fingerprint(s.last());
                let sent = sending(peer, d.protocol_version, relay_parent, s.last().1, limits);
                assert(actions == done + sent);
                assert(actions[i] == sent[i - done.len()]);
                if let ActionView::SendValidationMessage(to, m) = actions[i] {
                    assert(s[s.len() - 1] == s.last());
                    assert(!data.view_knowledge[relay_parent].knows_statement(fp));
                }
            }
        }
    }
}

/// Peers with priority come first. There are no fewer peers in all than were chosen, and, as far as so
/// many are at hand, no fewer than would be used without any priority peers and no fewer than are
/// gossiped to.
pub proof fn priority_peers_come_first(
    priority: Seq<PeerId>,
    chosen: Seq<PeerId>,
    usual: usize,
    limits: NetworkLimits,
)
    ensures
        ({
            let to = recipients(priority, chosen, usual, limits);
            let at_hand = priority.len() + chosen.len();
            &&& to.len() >= priority.len()
            &&& to.take(priority.len() as int) == priority
            &&& to.len() >= chosen.len()
            &&& to.len() <= at_hand
            &&& usual <= at_hand ==> to.len() >= usual
            &&& limits.min_gossip_peers <= at_hand ==> to.len() >= limits.min_gossip_peers
            &&& usual > at_hand || limits.min_gossip_peers > at_hand ==> to.len() == at_hand
        }),
{
    assert(recipients(priority, chosen, usual, limits).take(priority.len() as int) =~= priority);
}

/// A statement goes only to peers with priority and to peers that were chosen.
pub proof fn recipients_were_named(
    priority: Seq<PeerId>,
    chosen: Seq<PeerId>,
    usual: usize,
    limits: NetworkLimits,
)
    ensures
        forall|i: int|
            0 <= i < recipients(priority, chosen, usual, limits).len() ==> priority.contains(
                #[trigger] recipients(priority, chosen, usual, limits)[i],
            ) || chosen.contains(recipients(priority, chosen, usual, limits)[i]),
{
    let to = recipients(priority, chosen, usual, limits);
    assert forall|i: int| 0 <= i < to.len() implies priority.contains(#[trigger] to[i])
        || chosen.contains(to[i]) by {
        if i < priority.len() {
            assert(to[i] == priority[i]);
        } else {
            assert(to[i] == chosen[i - priority.len()]);
        }
    }
}

/// No peer is sent a statement twice, whatever the list of priority peers repeats, if each of the others
/// was chosen once.
pub proof fn recipients_have_no_duplicates(
    c: Circulation,
    peers: Map<PeerId, PeerDataView>,
    priority_peers: Seq<PeerId>,
    chosen: Seq<PeerId>,
    usual: usize,
    limits: NetworkLimits,
)
    requires
        plans(c, peers, c.relay_parent, c.comparator, c.statement, priority_peers, c.scope),
        distinct(chosen),
        forall|p: PeerId| #[trigger] chosen.contains(p) ==> c.other_peers@.contains(p),
    ensures
        distinct(recipients(c.priority_peers@, chosen, usual, limits)),
{
    let priority = c.priority_peers@;
    let to = recipients(priority, chosen, usual, limits);
    assert forall|i: int, j: int| 0 <= i < j < to.len() implies #[trigger] to[i] != #[trigger] to[j] by {
        if j < priority.len() {
            assert(to[i] == priority[i] && to[j] == priority[j]);
        } else if i < priority.len() {
            assert(to[i] == priority[i] && to[j] == chosen[j - priority.len()]);
            assert(chosen.contains(chosen[j - priority.len()]));
            assert(c.other_peers@.contains(to[j]));
            assert(priority.contains(priority[i]));
        } else {
            assert(to[i] == chosen[i - priority.len()] && to[j] == chosen[j - priority.len()]);
        }
    }
}

proof fn lemma_accepting_members(
    peers: Map<PeerId, PeerDataView>,
    list: Seq<PeerId>,
    relay_parent: BlockHash,
    fp: Fingerprint,
)
    ensures
        forall|p: PeerId| #[trigger]
            accepting(peers, list, relay_parent, fp).contains(p) <==> list.contains(p) && can_accept(
                peers,
                p,
                relay_parent,
                fp,
            ),
    decreases list.len(),
{
    if list.len() > 0 {
        let front = list.drop_last();
        lemma_accepting_members(peers, front, relay_parent, fp);
        assert(list =~= front.push(list.last()));
        assert forall|p: PeerId| #[trigger]
            accepting(peers, list, relay_parent, fp).contains(p) <==> list.contains(p) && can_accept(
                peers,
                p,
                relay_parent,
                fp,
            ) by {
            lemma_push_contains(front, list.last(), p);
            lemma_push_contains(
                accepting(peers, front, relay_parent, fp),
                list.last(),
                p,
            );
            assert(accepting(peers, front, relay_parent, fp).contains(p) <==> front.contains(p)
                && can_accept(peers, p, relay_parent, fp));
        }
    }
}

/// A statement goes only to peers that can accept it, whichever of the others were chosen; and a peer
/// with priority that can accept it gets it in any case.
pub proof fn recipients_can_accept(
    c: Circulation,
    peers: Map<PeerId, PeerDataView>,
    priority_peers: Seq<PeerId>,
    chosen: Seq<PeerId>,
    usual: usize,
    limits: NetworkLimits,
)
    requires
        plans(c, peers, c.relay_parent, c.comparator, c.statement, priority_peers, c.scope),
        forall|p: PeerId| #[trigger] chosen.contains(p) ==> c.other_peers@.contains(p),
    ensures
        forall|p: PeerId| #[trigger]
            recipients(c.priority_peers@, chosen, usual, limits).contains(p) ==> can_accept(
                peers,
                p,
                c.relay_parent,
                c.fp(),
            ),
        forall|p: PeerId| #[trigger]
            priority_peers.contains(p) && can_accept(peers, p, c.relay_parent, c.fp()) ==> recipients(
                c.priority_peers@,
                chosen,
                usual,
                limits,
            ).contains(p),
{
    let to = recipients(c.priority_peers@, chosen, usual, limits);
    lemma_accepting_members(peers, priority_peers, c.relay_parent, c.fp());
    recipients_were_named(c.priority_peers@, chosen, usual, limits);
    priority_peers_come_first(c.priority_peers@, chosen, usual, limits);
    assert forall|p: PeerId| #[trigger] to.contains(p) implies can_accept(
        peers,
        p,
        c.relay_parent,
        c.fp(),
    ) by {
        let i = choose|i: int| 0 <= i < to.len() && to[i] == p;
        if c.priority_peers@.contains(to[i]) {
            assert(accepting(peers, priority_peers, c.relay_parent, c.fp()).contains(p));
        } else {
            assert(chosen.contains(p));
            assert(c.other_peers@.contains(p));
        }
    }
    assert forall|p: PeerId| #[trigger]
        priority_peers.contains(p) && can_accept(peers, p, c.relay_parent, c.fp()) implies to.contains(
        p,
    ) by {
        let s = accepting(peers, priority_peers, c.relay_parent, c.fp());
        assert(s.contains(p));
        let i = choose|i: int| 0 <= i < s.len() && s[i] == p;
        assert(to.take(c.priority_peers@.len() as int)[i] == p);
        assert(to[i] == p);
    }
}

/// Each peer that a statement was delivered to knows it afterwards, and every other peer is as before.
pub proof fn deliveries_reach_their_peers(
    peers: Map<PeerId, PeerDataView>,
    to: Seq<PeerId>,
    relay_parent: BlockHash,
    fp: Fingerprint,
)
    requires
        reachable(peers, to, relay_parent),
    ensures
        ({
            let after = deliveries(peers, to, relay_parent, fp).0;
            &&& after.dom() == peers.dom()
            &&& forall|p: PeerId|
                #![trigger after[p]]
                if to.contains(p) {
                    &&& after[p].tracks(relay_parent)
                    &&& after[p].view_knowledge[relay_parent].sent_statements.contains(fp)
                    &&& fp.0 is Seconded
                        ==> after[p].view_knowledge[relay_parent].sent_candidates.contains(
                        fp.0.candidate(),
                    )
                    &&& !after[p].accepts(relay_parent, fp)
                } else {
                    after[p] == peers[p]
                }
        }),
    decreases to.len(),
{
    if to.len() > 0 {
        let front = to.drop_last();
        let last = to.last();
        assert(to[to.len() - 1] == last);
        assert forall|i: int| 0 <= i < front.len() implies peers.contains_key(#[trigger] front[i])
            && peers[front[i]].tracks(relay_parent) by {
            assert(front[i] == to[i]);
        }
        deliveries_reach_their_peers(peers, front, relay_parent, fp);
        let before = deliveries(peers, front, relay_parent, fp).0;
        let after = deliveries(peers, to, relay_parent, fp).0;
        assert(before[last].tracks(relay_parent));
        assert(after.dom() =~= peers.dom());
        assert(to =~= front.push(last));
        assert forall|p: PeerId|
            #![trigger after[p]]
            if to.contains(p) {
                &&& after[p].tracks(relay_parent)
                &&& after[p].view_knowledge[relay_parent].sent_statements.contains(fp)
                &&& fp.0 is Seconded ==> after[p].view_knowledge[relay_parent].sent_candidates.contains(
                    fp.0.candidate(),
                )
                &&& !after[p].accepts(relay_parent, fp)
            } else {
                after[p] == peers[p]
            } by {
            lemma_push_contains(front, last, p);
            assert(p != last ==> after[p] == before[p]);
        }
    }
}

/// How many of the actions send a message.
pub open spec fn messages_in(actions: Seq<ActionView>) -> nat
    decreases actions.len(),
{
    if actions.len() == 0 {
        0
    } else {
        messages_in(actions.drop_last()) + if actions.last() is SendValidationMessage {
            1nat
        } else {
            0nat
        }
    }
}

/// How many of the actions count a statement that was sent.
pub open spec fn distributed_in(actions: Seq<ActionView>) -> nat
    decreases actions.len(),
{
    if actions.len() == 0 {
        0
    } else {
        distributed_in(actions.drop_last()) + if actions.last() is CountStatementDistributed {
            1nat
        } else {
            0nat
        }
    }
}

/// How many of the actions count a message that was made of a `Seconded` statement.
pub open spec fn created_in(actions: Seq<ActionView>) -> nat
    decreases actions.len(),
{
    if actions.len() == 0 {
        0
    } else {
        created_in(actions.drop_last()) + if actions.last() is CountCreatedMessage {
            1nat
        } else {
            0nat
        }
    }
}

proof fn lemma_counts_add(s: Seq<ActionView>, t: Seq<ActionView>)
    ensures
        messages_in(s + t) == messages_in(s) + messages_in(t),
        distributed_in(s + t) == distributed_in(s) + distributed_in(t),
        created_in(s + t) == created_in(s) + created_in(t),
    decreases t.len(),
{
    if t.len() == 0 {
        assert(s + t =~= s);
    } else {
        assert((s + t).drop_last() =~= s + t.drop_last());
        lemma_counts_add(s, t.drop_last());
    }
}

proof fn lemma_count_one(a: ActionView)
    ensures
        messages_in(seq![a]) == if a is SendValidationMessage {
            1nat
        } else {
            0nat
        },
        distributed_in(seq![a]) == if a is CountStatementDistributed {
            1nat
        } else {
            0nat
        },
        created_in(seq![a]) == if a is CountCreatedMessage {
            1nat
        } else {
            0nat
        },
{
    assert(seq![a].drop_last() =~= Seq::<ActionView>::empty());
    assert(messages_in(seq![a].drop_last()) == 0);
    assert(distributed_in(seq![a].drop_last()) == 0);
    assert(created_in(seq![a].drop_last()) == 0);
}

/// Whether actions hold the message to a peer alone, in its version of the protocol, that carries a
/// statement for a relay parent.
pub open spec fn sends(
    actions: Seq<ActionView>,
    peer: PeerId,
    version: ValidationVersion,
    relay_parent: BlockHash,
    statement: SignedFullStatement,
    limits: NetworkLimits,
) -> bool {
    actions.contains(
        ActionView::SendValidationMessage(
            seq![peer],
            wrapped(version, statement_message(relay_parent, statement, limits)),
        ),
    )
}

/// Whether actions send one of the statements with a fingerprint to a peer.
pub open spec fn sends_one_of(
    actions: Seq<ActionView>,
    peer: PeerId,
    version: ValidationVersion,
    relay_parent: BlockHash,
    s: Seq<StoredEntry>,
    fp: Fingerprint,
    limits: NetworkLimits,
) -> bool {
    exists|j: int|
        0 <= j < s.len() && entry_fingerprint(#[trigger] s[j]) == fp && sends(
            actions,
            peer,
            version,
            relay_parent,
            s[j].1,
            limits,
        )
}

/// What is sent among some actions is sent among more of them.
pub proof fn lemma_sends_more(
    done: Seq<ActionView>,
    more: Seq<ActionView>,
    peer: PeerId,
    version: ValidationVersion,
    relay_parent: BlockHash,
    statement: SignedFullStatement,
    limits: NetworkLimits,
)
    requires
        sends(done, peer, version, relay_parent, statement, limits) || sends(
            more,
            peer,
            version,
            relay_parent,
            statement,
            limits,
        ),
    ensures
        sends(done + more, peer, version, relay_parent, statement, limits),
{
    let all = done + more;
    let a = ActionView::SendValidationMessage(
        seq![peer],
        wrapped(version, statement_message(relay_parent, statement, limits)),
    );
    if done.contains(a) {
        let i = choose|i: int| 0 <= i < done.len() && done[i] == a;
        assert(all[i] == a);
    } else {
        let i = choose|i: int| 0 <= i < more.len() && more[i] == a;
        assert(all[done.len() + i] == a);
    }
}

/// A single statement that a peer can be sent is noted as sent and goes to the peer in one message, which is
/// counted; where it seconds a candidate, one more count is of its size. A statement that the peer cannot be
/// sent changes nothing and makes nothing be sent.
pub proof fn one_statement_is_sent_in_one_message(
    peer: PeerId,
    data: PeerDataView,
    relay_parent: BlockHash,
    e: StoredEntry,
    limits: NetworkLimits,
)
    ensures
        ({
            let fp = entry_fingerprint(e);
            let (after, actions) = dispatch(peer, data, relay_parent, seq![e], limits);
            &&& data.accepts(relay_parent, fp) ==> {
                &&& after == data.after_send(relay_parent, fp)
                &&& sends(actions, peer, data.protocol_version, relay_parent, e.1, limits)
                &&& messages_in(actions) == 1
                &&& distributed_in(actions) == 1
                &&& created_in(actions) == if e.1.payload is Seconded {
                    1nat
                } else {
                    0nat
                }
                &&& actions.len() == messages_in(actions) + distributed_in(actions) + created_in(actions)
            }
            &&& !data.accepts(relay_parent, fp) ==> after == data && actions.len() == 0
        }),
{
    let fp = entry_fingerprint(e);
    let s = seq![e];
    assert(s.drop_last() =~= Seq::empty());
    assert(s.last() == e);
    assert(dispatch(peer, data, relay_parent, s.drop_last(), limits) == (
        data,
        Seq::<ActionView>::empty(),
    ));
    let actions = dispatch(peer, data, relay_parent, s, limits).1;
    if data.accepts(relay_parent, fp) {
        let count = creation_count(e.1, limits);
        let m = ActionView::SendValidationMessage(
            seq![peer],
            wrapped(data.protocol_version, statement_message(relay_parent, e.1, limits)),
        );
        assert(actions =~= (count + seq![m]) + seq![ActionView::CountStatementDistributed]);
        assert(actions[count.len() as int] == m);
        lemma_counts_add(count + seq![m], seq![ActionView::CountStatementDistributed]);
        lemma_counts_add(count, seq![m]);
        lemma_count_one(m);
        lemma_count_one(ActionView::CountStatementDistributed);
        if e.1.payload is Seconded {
            lemma_count_one(count[0]);
            assert(count =~= seq![count[0]]);
        } else {
            assert(count =~= Seq::empty());
            assert(messages_in(count) == 0 && distributed_in(count) == 0 && created_in(count) == 0);
        }
    }
}

/// Telling a peer some statements and then some more is telling it all of them at once, in this order.
pub proof fn statements_are_sent_in_their_order(
    peer: PeerId,
    data: PeerDataView,
    relay_parent: BlockHash,
    s: Seq<StoredEntry>,
    rest: Seq<StoredEntry>,
    limits: NetworkLimits,
)
    ensures
        ({
            let (first, done) = dispatch(peer, data, relay_parent, s, limits);
            let (second, more) = dispatch(peer, first, relay_parent, rest, limits);
            dispatch(peer, data, relay_parent, s + rest, limits) == (second, done + more)
        }),
    decreases rest.len(),
{
    let all = s + rest;
    let (first, done) = dispatch(peer, data, relay_parent, s, limits);
    let (second, more) = dispatch(peer, first, relay_parent, rest, limits);
    if rest.len() == 0 {
        assert(all =~= s);
        assert(done + more =~= done);
    } else {
        assert(all.drop_last() =~= s + rest.drop_last());
        statements_are_sent_in_their_order(peer, data, relay_parent, s, rest.drop_last(), limits);
        assert(dispatch(peer, data, relay_parent, all, limits).1 =~= done + more);
    }
}

/// Each statement that a peer is newly noted to have been sent goes to the peer alone, in its version of the
/// protocol, and there are as many messages as statements that are newly noted; each is counted. What is
/// noted as sent is what was so before and what was told. Nothing that came from the peer is changed.
pub proof fn every_noted_statement_is_sent(
    peer: PeerId,
    data: PeerDataView,
    relay_parent: BlockHash,
    s: Seq<StoredEntry>,
    limits: NetworkLimits,
)
    ensures
        ({
            let (after, actions) = dispatch(peer, data, relay_parent, s, limits);
            let before = data.view_knowledge[relay_parent];
            let k = after.view_knowledge[relay_parent];
            &&& forall|fp: Fingerprint| #[trigger]
                k.sent_statements.contains(fp) && !before.sent_statements.contains(fp) ==> sends_one_of(
                    actions,
                    peer,
                    data.protocol_version,
                    relay_parent,
                    s,
                    fp,
                    limits,
                )
            &&& before.sent_statements.finite() ==> k.sent_statements.finite()
                && k.sent_statements.len() == before.sent_statements.len() + messages_in(actions)
            &&& distributed_in(actions) == messages_in(actions)
            &&& actions.len() == messages_in(actions) + distributed_in(actions) + created_in(actions)
            &&& k.received_statements == before.received_statements
            &&& k.received_candidates == before.received_candidates
            &&& k.received_message_count == before.received_message_count
            &&& k.large_statement_count == before.large_statement_count
            &&& k.unexpected_count == before.unexpected_count
        }),
    decreases s.len(),
{
    let (after, actions) = dispatch(peer, data, relay_parent, s, limits);
    let before = data.view_knowledge[relay_parent];
    let k = after.view_knowledge[relay_parent];
    let version = data.protocol_version;
    if s.len() > 0 {
        let front = s.drop_last();
        let e = s.last();
        let fp = entry_fingerprint(e);
        every_noted_statement_is_sent(peer, data, relay_parent, front, limits);
        dispatch_only_adds_knowledge(peer, data, relay_parent, front, limits);
        statements_are_sent_in_their_order(peer, data, relay_parent, front, seq![e], limits);
        assert(front + seq![e] =~= s);
        let (d, done) = dispatch(peer, data, relay_parent, front, limits);
        let more = dispatch(peer, d, relay_parent, seq![e], limits).1;
        one_statement_is_sent_in_one_message(peer, d, relay_parent, e, limits);
        lemma_counts_add(done, more);
        if !d.accepts(relay_parent, fp) {
            assert(more =~= Seq::empty());
            assert(messages_in(more) == 0 && distributed_in(more) == 0 && created_in(more) == 0);
        }
        assert forall|x: Fingerprint| #[trigger]
            k.sent_statements.contains(x) && !before.sent_statements.contains(x) implies sends_one_of(
            actions,
            peer,
            version,
            relay_parent,
            s,
            x,
            limits,
        ) by {
            if d.view_knowledge[relay_parent].sent_statements.contains(x) {
                assert(sends_one_of(done, peer, version, relay_parent, front, x, limits));
                let j = choose|j: int|
                    0 <= j < front.len() && entry_fingerprint(#[trigger] front[j]) == x && sends(
                        done,
                        peer,
                        version,
                        relay_parent,
                        front[j].1,
                        limits,
                    );
                assert(s[j] == front[j]);
                lemma_sends_more(done, more, peer, version, relay_parent, front[j].1, limits);
            } else {
                assert(x == fp);
                assert(s[s.len() - 1] == e);
                lemma_sends_more(done, more, peer, version, relay_parent, e.1, limits);
            }
        }
    }
}

/// Where a peer knows nothing about a relay parent, it is sent one message for every statement with a
/// fingerprint of its own, if each `Valid` one comes behind one that seconds its candidate.
pub proof fn peer_without_knowledge_is_sent_everything(
    peer: PeerId,
    data: PeerDataView,
    relay_parent: BlockHash,
    s: Seq<StoredEntry>,
    limits: NetworkLimits,
    i: int,
)
    requires
        data.tracks(relay_parent),
        data.view_knowledge[relay_parent] == KnowledgeView::blank(),
        ordered(s),
        0 <= i < s.len(),
    ensures
        sends_one_of(
            dispatch(peer, data, relay_parent, s, limits).1,
            peer,
            data.protocol_version,
            relay_parent,
            s,
            entry_fingerprint(s[i]),
            limits,
        ),
{
    blank_knowledge_is_sound(0);
    dispatch_tells_everything(peer, data, relay_parent, s, limits);
    every_noted_statement_is_sent(peer, data, relay_parent, s, limits);
    let k = dispatch(peer, data, relay_parent, s, limits).0.view_knowledge[relay_parent];
    assert(k.knows_statement(entry_fingerprint(s[i])));
    assert(!KnowledgeView::blank().received_statements.contains(entry_fingerprint(s[i])));
}

} // verus!
