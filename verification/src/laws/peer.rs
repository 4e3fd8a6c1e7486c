//! What holds of what is known of one peer.
use crate::collections::lemma_push_contains;
use crate::ids::{AuthorityDiscoveryId, BlockHash};
use crate::knowledge::KnowledgeView;
use crate::message::ValidationVersion;
use crate::peer::{PeerDataView, heads_beyond, large_total, lemma_large_total_at};
use crate::reputation::Rep;
use crate::statement::Fingerprint;
use vstd::prelude::*;

verus! {

/// Whether two peers differ at most in what is known about one relay parent, and something is known about
/// the same relay parents.
pub open spec fn same_but_at(a: PeerDataView, b: PeerDataView, relay_parent: BlockHash) -> bool {
    &&& a.view == b.view
    &&& a.protocol_version == b.protocol_version
    &&& a.maybe_authority == b.maybe_authority
    &&& forall|h: BlockHash| #[trigger]
        a.view_knowledge.contains_key(h) <==> b.view_knowledge.contains_key(h)
    &&& forall|h: BlockHash|
        h != relay_parent ==> #[trigger] a.view_knowledge[h] == b.view_knowledge[h]
}

/// A peer of which nothing is known has no view, and no statement can be sent to it or come from it.
pub proof fn connected_peer_knows_nothing(
    version: ValidationVersion,
    ids: Option<Set<AuthorityDiscoveryId>>,
    h: BlockHash,
    fp: Fingerprint,
    max_message_count: usize,
)
    ensures
        ({
            let data = PeerDataView::connected(version, ids);
            &&& data.view.len() == 0
            &&& data.protocol_version == version
            &&& data.maybe_authority == ids
            &&& !data.tracks(h)
            &&& !data.accepts(h, fp)
            &&& data.receive_objection(h, fp, max_message_count) == Some(
                Rep::CostUnexpectedStatementMissingKnowledge,
            )
            &&& data.large_objection(h) == Some(Rep::CostUnexpectedStatementMissingKnowledge)
        }),
{
}

/// What a peer can be sent, and what is wrong with what it sends, for a relay parent is what its knowledge
/// about the relay parent says. Without any, nothing can be sent to it, and whatever comes is unexpected.
pub proof fn peer_is_judged_by_its_knowledge(
    data: PeerDataView,
    relay_parent: BlockHash,
    fp: Fingerprint,
    max_message_count: usize,
)
    ensures
        ({
            let k = data.view_knowledge[relay_parent];
            let missing = Some(Rep::CostUnexpectedStatementMissingKnowledge);
            if data.view_knowledge.contains_key(relay_parent) {
                &&& data.tracks(relay_parent)
                &&& data.accepts(relay_parent, fp) <==> k.accepts(fp)
                &&& data.introduces(relay_parent, fp) <==> k.introduces(fp)
                &&& data.receive_objection(relay_parent, fp, max_message_count) == k.receive_objection(
                    fp,
                    max_message_count,
                )
                &&& data.check_objection(relay_parent, fp, max_message_count) == k.check_objection(
                    fp,
                    max_message_count,
                )
                &&& data.unexpected_count(relay_parent) == k.unexpected_count
            } else {
                &&& !data.tracks(relay_parent)
                &&& !data.accepts(relay_parent, fp)
                &&& data.receive_objection(relay_parent, fp, max_message_count) == missing
                &&& data.check_objection(relay_parent, fp, max_message_count) == missing
                &&& data.large_objection(relay_parent) == missing
                &&& data.unexpected_count(relay_parent) == 0
            }
        }),
{
}

/// What is sent to a peer and what comes from it for a relay parent changes what is known about this relay
/// parent and nothing else; and where nothing is known about it, nothing at all.
pub proof fn relay_parents_are_kept_apart(
    data: PeerDataView,
    relay_parent: BlockHash,
    fp: Fingerprint,
    max_message_count: usize,
)
    ensures
        data.tracks(relay_parent) ==> {
            let k = data.view_knowledge[relay_parent];
            &&& same_but_at(data.after_send(relay_parent, fp), data, relay_parent)
            &&& data.after_send(relay_parent, fp).view_knowledge[relay_parent] == k.after_send(fp)
            &&& same_but_at(
                data.after_receive(relay_parent, fp, max_message_count),
                data,
                relay_parent,
            )
            &&& data.after_receive(relay_parent, fp, max_message_count).view_knowledge[relay_parent]
                == k.after_receive(fp, max_message_count)
            &&& same_but_at(data.after_unexpected(relay_parent), data, relay_parent)
            &&& same_but_at(data.after_large(relay_parent), data, relay_parent)
        },
        !data.tracks(relay_parent) ==> {
            &&& data.after_receive(relay_parent, fp, max_message_count) == data
            &&& data.after_unexpected(relay_parent) == data
            &&& data.after_large(relay_parent) == data
        },
{
}

/// An unexpected message and a large statement are counted by one at their relay parent, and change nothing
/// else that is known about it.
pub proof fn counts_go_up_by_one(data: PeerDataView, relay_parent: BlockHash)
    requires
        data.tracks(relay_parent),
        data.unexpected_count(relay_parent) < usize::MAX,
        data.view_knowledge.dom().finite(),
    ensures
        ({
            let k = data.view_knowledge[relay_parent];
            let counted = data.after_unexpected(relay_parent).view_knowledge[relay_parent];
            let let_in = data.after_large(relay_parent).view_knowledge[relay_parent];
            &&& counted.unexpected_count == k.unexpected_count + 1
            &&& counted == (KnowledgeView { unexpected_count: counted.unexpected_count, ..k })
            &&& large_total(data.view_knowledge) < 20 ==> {
                &&& data.large_objection(relay_parent) is None
                &&& let_in.large_statement_count == k.large_statement_count + 1
                &&& let_in == (KnowledgeView { large_statement_count: let_in.large_statement_count, ..k })
                &&& large_total(data.after_large(relay_parent).view_knowledge) == large_total(
                    data.view_knowledge,
                ) + 1
            }
            &&& large_total(data.view_knowledge) >= 20 ==> {
                &&& data.large_objection(relay_parent) == Some(Rep::CostApparentFlood)
                &&& data.after_large(relay_parent) == data
            }
        }),
{
    let after = data.after_large(relay_parent).view_knowledge;
    lemma_large_total_at(data.view_knowledge, relay_parent);
    lemma_large_total_at(after, relay_parent);
    assert(after.remove(relay_parent) =~= data.view_knowledge.remove(relay_parent));
}

/// The large statements of a peer are those for one relay parent and those for all others together. With
/// nothing known there are none.
pub proof fn large_statements_are_summed(known: Map<BlockHash, KnowledgeView>, h: BlockHash)
    requires
        known.dom().finite(),
    ensures
        known.contains_key(h) ==> large_total(known) == known[h].large_statement_count + large_total(
            known.remove(h),
        ),
        large_total(Map::empty()) == 0,
{
    if known.contains_key(h) {
        lemma_large_total_at(known, h);
    }
}

/// A peer's new view takes the place of its view. What is known about a relay parent is kept unless the
/// relay parent was in the old view and is not in the new one, and stays as it is.
pub proof fn view_decides_what_is_forgotten(data: PeerDataView, new_view: Seq<BlockHash>, h: BlockHash)
    ensures
        ({
            let after = data.with_view(new_view);
            &&& after.view == new_view
            &&& after.protocol_version == data.protocol_version
            &&& after.maybe_authority == data.maybe_authority
            &&& after.tracks(h) <==> data.tracks(h) && (new_view.contains(h) || !data.view.contains(h))
            &&& after.tracks(h) ==> after.view_knowledge[h] == data.view_knowledge[h]
        }),
{
}

/// The heads that are new in a view are those of its first part and behind them those of the rest, wherever
/// it is parted; a single head is new unless it was there.
pub proof fn new_heads_keep_their_order(
    heads: Seq<BlockHash>,
    rest: Seq<BlockHash>,
    one: BlockHash,
    other: Seq<BlockHash>,
)
    ensures
        heads_beyond(heads + rest, other) == heads_beyond(heads, other) + heads_beyond(rest, other),
        other.contains(one) ==> heads_beyond(seq![one], other).len() == 0,
        !other.contains(one) ==> heads_beyond(seq![one], other) == seq![one],
    decreases rest.len(),
{
    let all = heads + rest;
    if rest.len() == 0 {
        assert(all =~= heads);
        assert(heads_beyond(all, other) =~= heads_beyond(heads, other) + heads_beyond(rest, other));
    } else {
        assert(all.drop_last() =~= heads + rest.drop_last());
        new_heads_keep_their_order(heads, rest.drop_last(), one, other);
        assert(heads_beyond(all, other) =~= heads_beyond(heads, other) + heads_beyond(rest, other));
    }
    assert(seq![one].drop_last() =~= Seq::empty());
    assert(heads_beyond(seq![one].drop_last(), other) =~= Seq::empty());
}

/// A head is new in a view if and only if the view holds it and the old one does not.
pub proof fn new_heads_are_those_not_seen(
    new_view: Seq<BlockHash>,
    old_view: Seq<BlockHash>,
    h: BlockHash,
)
    ensures
        heads_beyond(new_view, old_view).contains(h) <==> new_view.contains(h) && !old_view.contains(h),
    decreases new_view.len(),
{
    if new_view.len() > 0 {
        let front = new_view.drop_last();
        new_heads_are_those_not_seen(front, old_view, h);
        assert(new_view =~= front.push(new_view.last()));
        lemma_push_contains(front, new_view.last(), h);
        lemma_push_contains(heads_beyond(front, old_view), new_view.last(), h);
    }
}

} // verus!
