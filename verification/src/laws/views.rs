//! What holds when the views of peers change.
use crate::collections::lemma_push_contains;
use crate::distribute::dispatch;
use crate::head::HeadView;
use crate::ids::{BlockHash, PeerId};
use crate::knowledge::KnowledgeView;
use crate::laws::delivery::{
    dispatch_only_adds_knowledge, dispatch_tells_everything, lemma_sends_more,
    peer_without_knowledge_is_sent_everything, sends, sends_one_of,
};
use crate::laws::incoming::{large_total_does_not_grow, peer_sound};
use crate::laws::peer::new_heads_are_those_not_seen;
use crate::laws::{head, knowledge};
use crate::message::{ActionView, NetworkLimits};
use crate::peer::{PeerDataView, heads_beyond, heads_beyond_is_difference};
use crate::stored::entry_fingerprint;
use crate::views::{unlocking, view_update};
use vstd::prelude::*;

verus! {

/// Whether something is known of a peer about exactly the heads in its view.
pub open spec fn aligned(data: PeerDataView) -> bool {
    forall|h: BlockHash| #[trigger] data.tracks(h) <==> data.view.contains(h)
}

/// Whether a peer knows every statement that is stored at a head.
pub open spec fn told(k: KnowledgeView, active_head: HeadView) -> bool {
    forall|i: int|
        0 <= i < active_head.statements.len() ==> k.knows_statement(
            entry_fingerprint(#[trigger] active_head.statements[i]),
        )
}

proof fn lemma_unlocking(
    peer: PeerId,
    data: PeerDataView,
    heads: Map<BlockHash, HeadView>,
    s: Seq<BlockHash>,
    lucky: bool,
    limits: NetworkLimits,
)
    requires
        forall|h: BlockHash| #[trigger] heads.contains_key(h) ==> head::sound(heads[h]),
    ensures
        ({
            let after = unlocking(peer, data, heads, s, lucky, limits).0;
            &&& after.view == data.view
            &&& after.protocol_version == data.protocol_version
            &&& after.maybe_authority == data.maybe_authority
            &&& data.view_knowledge.dom().finite() ==> after.view_knowledge.dom().finite()
            &&& forall|h: BlockHash| #[trigger]
                after.tracks(h) <==> data.tracks(h) || s.contains(h)
            &&& forall|h: BlockHash|
                !s.contains(h) ==> #[trigger] after.view_knowledge[h] == data.view_knowledge[h]
            &&& forall|h: BlockHash|
                #![trigger after.view_knowledge[h]]
                s.contains(h) ==> {
                    &&& knowledge::sound(after.view_knowledge[h])
                    &&& forall|max: usize| #[trigger]
                        knowledge::metered(after.view_knowledge[h], max)
                    &&& after.view_knowledge[h].large_statement_count == 0
                    &&& if lucky && heads.contains_key(h) {
                        told(after.view_knowledge[h], heads[h])
                    } else {
                        after.view_knowledge[h] == KnowledgeView::blank()
                    }
                }
        }),
    decreases s.len(),
{
    if s.len() > 0 {
        let front = s.drop_last();
        let new = s.last();
        lemma_unlocking(peer, data, heads, front, lucky, limits);
        let before = unlocking(peer, data, heads, front, lucky, limits).0;
        let fresh = before.with_knowledge(new, KnowledgeView::blank());
        let after = unlocking(peer, data, heads, s, lucky, limits).0;
        assert forall|max: usize| #[trigger] knowledge::metered(KnowledgeView::blank(), max) by {
            knowledge::blank_knowledge_is_sound(max);
        }
        knowledge::blank_knowledge_is_sound(0);
        assert(s =~= front.push(new));
        assert forall|h: BlockHash| #[trigger] s.contains(h) <==> front.contains(h) || h == new by {
            lemma_push_contains(front, new, h);
        }
        if lucky && heads.contains_key(new) {
            dispatch_only_adds_knowledge(peer, fresh, new, heads[new].statements, limits);
            dispatch_tells_everything(peer, fresh, new, heads[new].statements, limits);
            assert(after == dispatch(peer, fresh, new, heads[new].statements, limits).0);
            assert(told(after.view_knowledge[new], heads[new]));
        }
        assert forall|h: BlockHash| #[trigger] after.tracks(h) <==> data.tracks(h) || s.contains(h) by {
            assert(before.tracks(h) <==> data.tracks(h) || front.contains(h));
            assert(after.tracks(h) <==> fresh.view_knowledge.dom().contains(h));
        }
        assert forall|h: BlockHash| h != new implies #[trigger] after.view_knowledge[h]
            == before.view_knowledge[h] by {
            assert(fresh.view_knowledge[h] == before.view_knowledge[h]);
        }
    }
}

/// What follows from a change of a peer's view: what the peer knows about a head that stays in its view
/// is kept; a head that has left it is forgotten; and of a head that is new in it nothing is known but
/// what the peer is told. A lucky peer is told all that is stored at the heads that are active.
pub proof fn view_change_keeps_what_stays(
    peer: PeerId,
    data: PeerDataView,
    heads: Map<BlockHash, HeadView>,
    new_view: Seq<BlockHash>,
    lucky: bool,
    limits: NetworkLimits,
)
    requires
        aligned(data),
        forall|h: BlockHash| #[trigger] heads.contains_key(h) ==> head::sound(heads[h]),
    ensures
        ({
            let after = view_update(peer, data, heads, new_view, lucky, limits).0;
            &&& after.view == new_view
            &&& aligned(after)
            &&& forall|h: BlockHash|
                #![trigger after.view_knowledge[h]]
                new_view.contains(h) ==> if data.view.contains(h) {
                    after.view_knowledge[h] == data.view_knowledge[h]
                } else if lucky && heads.contains_key(h) {
                    told(after.view_knowledge[h], heads[h])
                } else {
                    after.view_knowledge[h] == KnowledgeView::blank()
                }
        }),
{
    let viewed = data.with_view(new_view);
    let new_heads = heads_beyond(new_view, data.view);
    heads_beyond_is_difference(new_view, data.view);
    lemma_unlocking(peer, viewed, heads, new_heads, lucky, limits);
    let after = view_update(peer, data, heads, new_view, lucky, limits).0;
    assert forall|h: BlockHash| #[trigger] after.tracks(h) <==> after.view.contains(h) by {
        assert(data.tracks(h) <==> data.view.contains(h));
        assert(new_heads.contains(h) <==> new_view.contains(h) && !data.view.contains(h));
        assert(viewed.tracks(h) <==> data.tracks(h) && !(data.view.contains(h) && !new_view.contains(h)));
    }
    assert forall|h: BlockHash|
        #![trigger after.view_knowledge[h]]
        new_view.contains(h) implies if data.view.contains(h) {
        after.view_knowledge[h] == data.view_knowledge[h]
    } else if lucky && heads.contains_key(h) {
        told(after.view_knowledge[h], heads[h])
    } else {
        after.view_knowledge[h] == KnowledgeView::blank()
    } by {
        assert(new_heads.contains(h) <==> new_view.contains(h) && !data.view.contains(h));
        assert(data.tracks(h) <==> data.view.contains(h));
        if data.view.contains(h) {
            assert(viewed.view_knowledge[h] == data.view_knowledge[h]);
        }
    }
}

/// A change of a peer's view keeps what is known of it sound.
pub proof fn view_change_keeps_peer_sound(
    peer: PeerId,
    data: PeerDataView,
    heads: Map<BlockHash, HeadView>,
    limit: spec_fn(BlockHash) -> usize,
    new_view: Seq<BlockHash>,
    lucky: bool,
    limits: NetworkLimits,
)
    requires
        peer_sound(data, limit),
        forall|h: BlockHash| #[trigger] heads.contains_key(h) ==> head::sound(heads[h]),
    ensures
        peer_sound(view_update(peer, data, heads, new_view, lucky, limits).0, limit),
{
    let viewed = data.with_view(new_view);
    let new_heads = heads_beyond(new_view, data.view);
    lemma_unlocking(peer, viewed, heads, new_heads, lucky, limits);
    let after = view_update(peer, data, heads, new_view, lucky, limits).0;
    vstd::set_lib::lemma_set_subset_finite(data.view_knowledge.dom(), viewed.view_knowledge.dom());
    assert forall|h: BlockHash| #[trigger]
        after.view_knowledge.contains_key(h) && after.view_knowledge[h].large_statement_count
            > 0 implies data.view_knowledge.contains_key(h)
        && after.view_knowledge[h].large_statement_count
        <= data.view_knowledge[h].large_statement_count by {
        assert(after.tracks(h));
        assert(!new_heads.contains(h));
        assert(viewed.tracks(h));
        assert(viewed.view_knowledge[h] == data.view_knowledge[h]);
    }
    large_total_does_not_grow(data.view_knowledge, after.view_knowledge);
    assert forall|h: BlockHash| #[trigger] after.tracks(h) implies knowledge::sound(
        after.view_knowledge[h],
    ) && knowledge::metered(after.view_knowledge[h], limit(h)) by {
        if !new_heads.contains(h) {
            assert(viewed.tracks(h));
            assert(data.tracks(h));
            assert(viewed.view_knowledge[h] == data.view_knowledge[h]);
        }
    }
}

/// A peer that is new in the topology is told all that is stored at the active heads in its view, if it
/// is lucky. Its view stays as it is, and what was known of it is forgotten.
pub proof fn refresh_starts_afresh(
    peer: PeerId,
    data: PeerDataView,
    heads: Map<BlockHash, HeadView>,
    lucky: bool,
    limits: NetworkLimits,
)
    requires
        aligned(data),
        forall|h: BlockHash| #[trigger] heads.contains_key(h) ==> head::sound(heads[h]),
    ensures
        ({
            let unseen = PeerDataView { view: Seq::empty(), ..data };
            let after = view_update(peer, unseen, heads, data.view, lucky, limits).0;
            &&& after.view == data.view
            &&& aligned(after)
            &&& forall|h: BlockHash|
                #![trigger after.view_knowledge[h]]
                data.view.contains(h) ==> if lucky && heads.contains_key(h) {
                    told(after.view_knowledge[h], heads[h])
                } else {
                    after.view_knowledge[h] == KnowledgeView::blank()
                }
        }),
{
    let unseen = PeerDataView { view: Seq::empty(), ..data };
    let viewed = unseen.with_view(data.view);
    let new_heads = heads_beyond(data.view, unseen.view);
    heads_beyond_is_difference(data.view, unseen.view);
    lemma_unlocking(peer, viewed, heads, new_heads, lucky, limits);
    let after = view_update(peer, unseen, heads, data.view, lucky, limits).0;
    assert forall|h: BlockHash| #[trigger] after.tracks(h) <==> after.view.contains(h) by {
        assert(data.tracks(h) <==> data.view.contains(h));
        assert(new_heads.contains(h) <==> data.view.contains(h) && !unseen.view.contains(h));
        assert(viewed.tracks(h) <==> data.tracks(h));
    }
    assert forall|h: BlockHash|
        #![trigger after.view_knowledge[h]]
        data.view.contains(h) implies if lucky && heads.contains_key(h) {
        told(after.view_knowledge[h], heads[h])
    } else {
        after.view_knowledge[h] == KnowledgeView::blank()
    } by {
        assert(new_heads.contains(h) <==> data.view.contains(h) && !unseen.view.contains(h));
    }
}

/// Going over new heads is going over the first of them and then over the rest, wherever they are parted. At
/// a single head everything that is known of the peer is forgotten; and if the peer is lucky and the head
/// active, it is told what is stored there. Otherwise nothing is done.
pub proof fn new_heads_are_unlocked_one_by_one(
    peer: PeerId,
    data: PeerDataView,
    heads: Map<BlockHash, HeadView>,
    s: Seq<BlockHash>,
    rest: Seq<BlockHash>,
    one: BlockHash,
    lucky: bool,
    limits: NetworkLimits,
)
    ensures
        ({
            let (first, done) = unlocking(peer, data, heads, s, lucky, limits);
            let (second, more) = unlocking(peer, first, heads, rest, lucky, limits);
            unlocking(peer, data, heads, s + rest, lucky, limits) == (second, done + more)
        }),
        ({
            let fresh = PeerDataView {
                view_knowledge: data.view_knowledge.insert(one, KnowledgeView::blank()),
                ..data
            };
            let (after, actions) = unlocking(peer, data, heads, seq![one], lucky, limits);
            if lucky && heads.contains_key(one) {
                (after, actions) == dispatch(peer, fresh, one, heads[one].statements, limits)
            } else {
                after == fresh && actions.len() == 0
            }
        }),
    decreases rest.len(),
{
    let all = s + rest;
    let (first, done) = unlocking(peer, data, heads, s, lucky, limits);
    let (second, more) = unlocking(peer, first, heads, rest, lucky, limits);
    if rest.len() == 0 {
        assert(all =~= s);
        assert(done + more =~= done);
    } else {
        assert(all.drop_last() =~= s + rest.drop_last());
        new_heads_are_unlocked_one_by_one(
            peer,
            data,
            heads,
            s,
            rest.drop_last(),
            one,
            lucky,
            limits,
        );
        assert(unlocking(peer, data, heads, all, lucky, limits).1 =~= done + more);
    }
    assert(seq![one].drop_last() =~= Seq::empty());
    assert(unlocking(peer, data, heads, seq![one].drop_last(), lucky, limits) == (
        data,
        Seq::<ActionView>::empty(),
    ));
    let fresh = data.with_knowledge(one, KnowledgeView::blank());
    if lucky && heads.contains_key(one) {
        assert(unlocking(peer, data, heads, seq![one], lucky, limits).1 =~= dispatch(
            peer,
            fresh,
            one,
            heads[one].statements,
            limits,
        ).1);
    }
}

proof fn lemma_unlocking_sends(
    peer: PeerId,
    data: PeerDataView,
    heads: Map<BlockHash, HeadView>,
    s: Seq<BlockHash>,
    lucky: bool,
    limits: NetworkLimits,
    h: BlockHash,
    i: int,
)
    requires
        forall|x: BlockHash| #[trigger] heads.contains_key(x) ==> head::sound(heads[x]),
        lucky,
        heads.contains_key(h),
        s.contains(h),
        0 <= i < heads[h].statements.len(),
    ensures
        sends_one_of(
            unlocking(peer, data, heads, s, lucky, limits).1,
            peer,
            data.protocol_version,
            h,
            heads[h].statements,
            entry_fingerprint(heads[h].statements[i]),
            limits,
        ),
    decreases s.len(),
{
    let front = s.drop_last();
    let new = s.last();
    let stored = heads[h].statements;
    let fp = entry_fingerprint(stored[i]);
    let version = data.protocol_version;
    lemma_unlocking(peer, data, heads, front, lucky, limits);
    let (before, done) = unlocking(peer, data, heads, front, lucky, limits);
    let fresh = before.with_knowledge(new, KnowledgeView::blank());
    let actions = unlocking(peer, data, heads, s, lucky, limits).1;
    let more = if heads.contains_key(new) {
        dispatch(peer, fresh, new, heads[new].statements, limits).1
    } else {
        seq![]
    };
    assert(actions =~= done + more);
    assert(s =~= front.push(new));
    lemma_push_contains(front, new, h);
    if h == new {
        peer_without_knowledge_is_sent_everything(peer, fresh, h, stored, limits, i);
        let j = choose|j: int|
            0 <= j < stored.len() && entry_fingerprint(#[trigger] stored[j]) == fp && sends(
                more,
                peer,
                version,
                h,
                stored[j].1,
                limits,
            );
        lemma_sends_more(done, more, peer, version, h, stored[j].1, limits);
    } else {
        lemma_unlocking_sends(peer, data, heads, front, lucky, limits, h, i);
        let j = choose|j: int|
            0 <= j < stored.len() && entry_fingerprint(#[trigger] stored[j]) == fp && sends(
                done,
                peer,
                version,
                h,
                stored[j].1,
                limits,
            );
        lemma_sends_more(done, more, peer, version, h, stored[j].1, limits);
    }
}

/// A lucky peer is sent, in its version of the protocol, one of the statements for every fingerprint that is
/// stored at an active head that is new in its view.
pub proof fn lucky_peer_is_sent_what_is_stored_at_new_heads(
    peer: PeerId,
    data: PeerDataView,
    heads: Map<BlockHash, HeadView>,
    new_view: Seq<BlockHash>,
    limits: NetworkLimits,
    h: BlockHash,
    i: int,
)
    requires
        forall|x: BlockHash| #[trigger] heads.contains_key(x) ==> head::sound(heads[x]),
        new_view.contains(h),
        !data.view.contains(h),
        heads.contains_key(h),
        0 <= i < heads[h].statements.len(),
    ensures
        sends_one_of(
            view_update(peer, data, heads, new_view, true, limits).1,
            peer,
            data.protocol_version,
            h,
            heads[h].statements,
            entry_fingerprint(heads[h].statements[i]),
            limits,
        ),
{
    let viewed = data.with_view(new_view);
    let new_heads = heads_beyond(new_view, data.view);
    new_heads_are_those_not_seen(new_view, data.view, h);
    lemma_unlocking_sends(peer, viewed, heads, new_heads, true, limits, h, i);
}

/// A peer that is not lucky is sent nothing, and neither is one whose view has no new head that is active.
pub proof fn nothing_is_sent_without_luck_or_news(
    peer: PeerId,
    data: PeerDataView,
    heads: Map<BlockHash, HeadView>,
    new_view: Seq<BlockHash>,
    lucky: bool,
    limits: NetworkLimits,
)
    requires
        lucky ==> forall|h: BlockHash| #[trigger]
            new_view.contains(h) && heads.contains_key(h) ==> data.view.contains(h),
    ensures
        view_update(peer, data, heads, new_view, lucky, limits).1.len() == 0,
{
    let new_heads = heads_beyond(new_view, data.view);
    assert forall|h: BlockHash| #[trigger] new_heads.contains(h) implies !(lucky && heads.contains_key(
        h,
    )) by {
        new_heads_are_those_not_seen(new_view, data.view, h);
    }
    lemma_nothing_unlocked(peer, data.with_view(new_view), heads, new_heads, lucky, limits);
}

proof fn lemma_nothing_unlocked(
    peer: PeerId,
    data: PeerDataView,
    heads: Map<BlockHash, HeadView>,
    s: Seq<BlockHash>,
    lucky: bool,
    limits: NetworkLimits,
)
    requires
        forall|h: BlockHash| #[trigger] s.contains(h) ==> !(lucky && heads.contains_key(h)),
    ensures
        unlocking(peer, data, heads, s, lucky, limits).1.len() == 0,
    decreases s.len(),
{
    if s.len() > 0 {
        let front = s.drop_last();
        assert(s =~= front.push(s.last()));
        assert forall|h: BlockHash| #[trigger] front.contains(h) implies !(lucky && heads.contains_key(
            h,
        )) by {
            lemma_push_contains(front, s.last(), h);
            assert(s.contains(h));
        }
        lemma_push_contains(front, s.last(), s.last());
        assert(s.contains(s.last()));
        lemma_nothing_unlocked(peer, data, heads, front, lucky, limits);
    }
}

} // verus!
