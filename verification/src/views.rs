//! Changes of the views of peers.
use crate::collections::ListMap;
use crate::distribute::{dispatch, send_statements};
use crate::head::{ActiveHeadData, HeadView};
use crate::ids::{BlockHash, PeerId};
use crate::knowledge::KnowledgeView;
use crate::message::{ActionView, NetworkLimits, Outbox};
use crate::peer::{PeerData, PeerDataView, PeerView, heads_beyond};
use vstd::prelude::*;

verus! {

/// How it is found out whether a peer is told what is stated at the heads that are new in its view.
#[derive(Clone, Copy, PartialEq, Eq, Structural, Debug)]
pub enum Luck {
    /// It is told in any case.
    Sure,
    /// A draw decides: `favourable` outcomes of `total` are in its favour.
    Draw { favourable: usize, total: usize },
}

/// How it is found out whether a peer is told what is stated: one that we gossip with always is, and
/// another one the more likely the fewer neighbors the topology has.
pub fn luck(is_gossip_peer: bool, topology_len: usize, limits: NetworkLimits) -> (r: Luck)
    ensures
        r == if is_gossip_peer {
            Luck::Sure
        } else {
            Luck::Draw {
                favourable: if limits.min_gossip_peers > topology_len {
                    (limits.min_gossip_peers - topology_len) as usize
                } else {
                    0
                },
                total: limits.min_gossip_peers,
            }
        },
        r is Sure <==> is_gossip_peer,
        r matches Luck::Draw { favourable, total } ==> total == limits.min_gossip_peers && if topology_len
            < total {
            favourable + topology_len == total
        } else {
            favourable == 0
        },
{
    if is_gossip_peer {
        Luck::Sure
    } else {
        Luck::Draw {
            favourable: limits.min_gossip_peers.saturating_sub(topology_len),
            total: limits.min_gossip_peers,
        }
    }
}

/// Starts to note what a peer knows about heads, one after the other, and tells it what is stated at
/// those that are active, if it is lucky: the peer afterwards, and what is done.
pub open spec fn unlocking(
    peer: PeerId,
    data: PeerDataView,
    heads: Map<BlockHash, HeadView>,
    s: Seq<BlockHash>,
    lucky: bool,
    limits: NetworkLimits,
) -> (PeerDataView, Seq<ActionView>)
    decreases s.len(),
{
    if s.len() == 0 {
        (data, seq![])
    } else {
        let (d, done) = unlocking(peer, data, heads, s.drop_last(), lucky, limits);
        let fresh = d.with_knowledge(s.last(), KnowledgeView::blank());
        if lucky && heads.contains_key(s.last()) {
            let (e, sent) = dispatch(peer, fresh, s.last(), heads[s.last()].statements, limits);
            (e, done + sent)
        } else {
            (fresh, done)
        }
    }
}

/// What follows from a change of a peer's view: the peer afterwards, and what is done.
pub open spec fn view_update(
    peer: PeerId,
    data: PeerDataView,
    heads: Map<BlockHash, HeadView>,
    new_view: Seq<BlockHash>,
    lucky: bool,
    limits: NetworkLimits,
) -> (PeerDataView, Seq<ActionView>) {
    unlocking(
        peer,
        data.with_view(new_view),
        heads,
        heads_beyond(new_view, data.view),
        lucky,
        limits,
    )
}

/// Update a peer's view. Sends a lucky peer all statements that the new heads unlock.
pub fn update_peer_view_and_maybe_send_unlocked(
    peer: PeerId,
    peer_data: &mut PeerData,
    active_heads: &ListMap<BlockHash, ActiveHeadData>,
    new_view: PeerView,
    lucky: bool,
    limits: NetworkLimits,
    outbox: &mut Outbox,
)
    ensures
        ({
            let (data, actions) = view_update(
                peer,
                old(peer_data)@,
                active_heads@,
                new_view@,
                lucky,
                limits,
            );
            &&& final(peer_data)@ == data
            &&& final(outbox)@ == old(outbox)@ + actions
        }),
{
    let new_heads = peer_data.replace_view(new_view);
    // Add entries for all relay-parents in the new view but not the old.
    // Furthermore, send all statements we have for those relay parents.
    let ghost data = peer_data@;
    let mut i: usize = 0;
    assert(outbox@ =~= old(outbox)@ + unlocking(
        peer,
        data,
        active_heads@,
        new_heads@.take(0),
        lucky,
        limits,
    ).1);
    while i < new_heads.len()
        invariant
            i <= new_heads@.len(),
            peer_data@ == unlocking(
                peer,
                data,
                active_heads@,
                new_heads@.take(i as int),
                lucky,
                limits,
            ).0,
            outbox@ == old(outbox)@ + unlocking(
                peer,
                data,
                active_heads@,
                new_heads@.take(i as int),
                lucky,
                limits,
            ).1,
        decreases new_heads@.len() - i,
    {
        assert(new_heads@.take(i + 1).drop_last() =~= new_heads@.take(i as int));
        let head = new_heads[i];
        peer_data.begin_head(head);
        if lucky {
            if let Some(active_head) = active_heads.get(&head) {
                send_statements(peer, peer_data, head, active_head, limits, outbox);
            }
        }
        i = i + 1;
        assert(outbox@ =~= old(outbox)@ + unlocking(
            peer,
            data,
            active_heads@,
            new_heads@.take(i as int),
            lucky,
            limits,
        ).1);
    }
    assert(new_heads@.take(i as int) =~= new_heads@);
}

} // verus!
