//! What holds of the state at any time, and of one event after the other.
use crate::collections::lemma_push_contains;
use crate::distribute::{
    Circulation, circulated, deliveries, dispatch, informing, newcomers, reachable, recipients,
};
use crate::error::{JfyiError, ValidationDataAnswer};
use crate::fetching::{FetchingView, StatusView};
use crate::head::{HeadView, entries_about};
use crate::ids::{AuthorityDiscoveryId, BlockHash, CandidateHash, PeerId, SessionIndex, ValidatorId};
use crate::incoming::{PendingStatement, reception, resumption};
use crate::laws::delivery::{
    deliveries_reach_their_peers, dispatch_only_adds_knowledge, dispatch_tells_everything, grown,
    recipients_were_named,
};
use crate::laws::incoming::{
    large_total_does_not_grow, message_keeps_peer_and_head_sound, peer_sound, resumption_keeps_head_sound,
};
use crate::laws::knowledge::{send_keeps_knowledge_metered, send_keeps_knowledge_sound};
use crate::laws::views::{
    aligned, refresh_starts_afresh, view_change_keeps_peer_sound, view_change_keeps_what_stays,
};
use crate::laws::{head, knowledge};
use crate::message::{NetworkLimits, StatementMetadata, ValidationVersion, VersionedMessage};
use crate::outdated::{MAX_BUF_LEN, latest};
use crate::peer::PeerDataView;
use crate::state::{NetworkUpdate, StateView, held};
use crate::statement::{
    CommittedCandidateReceipt, Fingerprint, SignedFullStatement, largeness,
};
use crate::stored::{StoredEntry, comparator, entry_fingerprint};
use crate::views::view_update;
use futures::channel::oneshot;
use vstd::prelude::*;

verus! {

/// Whether all that is known of the peers is sound, and known about exactly the heads in their views.
pub open spec fn peers_sound(
    peers: Map<PeerId, PeerDataView>,
    limit: spec_fn(BlockHash) -> usize,
) -> bool {
    forall|p: PeerId| #[trigger] peers.contains_key(p) ==> peer_sound(peers[p], limit) && aligned(peers[p])
}

/// Whether all active heads are sound, and `limit` gives how many messages about one candidate a peer may
/// send for them.
pub open spec fn heads_sound(
    heads: Map<BlockHash, HeadView>,
    limit: spec_fn(BlockHash) -> usize,
) -> bool {
    forall|h: BlockHash| #[trigger]
        heads.contains_key(h) ==> head::sound(heads[h]) && heads[h].max_message_count() == limit(h)
}

/// What holds of the state at any time. `limit` gives how many messages about one candidate a peer may
/// send for a relay parent: twice the number of its validators.
pub open spec fn sound(s: StateView, limit: spec_fn(BlockHash) -> usize) -> bool {
    &&& peers_sound(s.peers, limit)
    &&& heads_sound(s.active_heads, limit)
    &&& s.recent_outdated_heads.len() <= MAX_BUF_LEN
}

/// The state of which nothing is known yet is sound.
pub proof fn blank_state_is_sound(limit: spec_fn(BlockHash) -> usize)
    ensures
        sound(StateView::blank(), limit),
{
}

/// Activating a leaf keeps the state sound, if a leaf that is activated again has as many validators as
/// before.
pub proof fn activated_leaf_keeps_state_sound(
    s: StateView,
    limit: spec_fn(BlockHash) -> usize,
    h: BlockHash,
    validators: Seq<ValidatorId>,
    session_index: SessionIndex,
)
    requires
        sound(s, limit),
        HeadView::blank(validators, session_index).max_message_count() == limit(h),
    ensures
        sound(s.with_leaf(h, HeadView::blank(validators, session_index)), limit),
{
    head::blank_head_is_sound(validators, session_index);
    let after = s.with_leaf(h, HeadView::blank(validators, session_index));
    assert forall|x: BlockHash| #[trigger] after.active_heads.contains_key(x) implies head::sound(
        after.active_heads[x],
    ) && after.active_heads[x].max_message_count() == limit(x) by {
        if s.active_heads.contains_key(x) {
            assert(after.active_heads[x] == s.active_heads[x]);
        }
    }
}

/// Deactivating a leaf keeps the state sound.
pub proof fn deactivated_leaf_keeps_state_sound(
    s: StateView,
    limit: spec_fn(BlockHash) -> usize, h: BlockHash,
)
    requires
        sound(s, limit),
    ensures
        sound(s.without_leaf(h), limit),
{
    let after = s.without_leaf(h);
    assert forall|x: BlockHash| #[trigger] after.active_heads.contains_key(x) implies head::sound(
        after.active_heads[x],
    ) && after.active_heads[x].max_message_count() == limit(x) by {
        assert(s.active_heads.contains_key(x));
    }
}

/// A peer that connects keeps the state sound.
pub proof fn connected_peer_keeps_state_sound(
    s: StateView,
    limit: spec_fn(BlockHash) -> usize,
    peer: PeerId,
    protocol_version: Option<ValidationVersion>,
    maybe_authority: Option<Set<AuthorityDiscoveryId>>,
)
    requires
        sound(s, limit),
    ensures
        sound(s.with_peer(peer, protocol_version, maybe_authority), limit),
{
    let after = s.with_peer(peer, protocol_version, maybe_authority);
    assert forall|p: PeerId| #[trigger] after.peers.contains_key(p) implies peer_sound(after.peers[p], limit)
        && aligned(after.peers[p]) by {
        if protocol_version is Some && p == peer {
        } else {
            assert(s.peers.contains_key(p));
        }
    }
}

/// A peer that disconnects keeps the state sound.
pub proof fn disconnected_peer_keeps_state_sound(
    s: StateView,
    limit: spec_fn(BlockHash) -> usize, peer: PeerId,
)
    requires
        sound(s, limit),
    ensures
        sound(s.without_peer(peer), limit),
{
    let after = s.without_peer(peer);
    assert forall|p: PeerId| #[trigger] after.peers.contains_key(p) implies peer_sound(after.peers[p], limit)
        && aligned(after.peers[p]) by {
        assert(s.peers.contains_key(p));
    }
}

/// A change of the authorities that a peer is known as keeps the state sound.
pub proof fn authority_ids_keep_state_sound(
    s: StateView,
    limit: spec_fn(BlockHash) -> usize,
    peer: PeerId,
    ids: Set<AuthorityDiscoveryId>,
)
    requires
        sound(s, limit),
    ensures
        sound(s.with_authority_ids(peer, ids), limit),
{
    let after = s.with_authority_ids(peer, ids);
    assert forall|p: PeerId| #[trigger] after.peers.contains_key(p) implies peer_sound(after.peers[p], limit)
        && aligned(after.peers[p]) by {
        let data = s.peers[p];
        assert(s.peers.contains_key(p));
        assert forall|h: BlockHash| #[trigger] after.peers[p].tracks(h) <==> data.tracks(h) by {}
        assert forall|h: BlockHash| #[trigger] after.peers[p].tracks(h) implies knowledge::sound(
            after.peers[p].view_knowledge[h],
        ) && knowledge::metered(after.peers[p].view_knowledge[h], limit(h)) by {
            assert(data.tracks(h));
        }
        assert forall|h: BlockHash| #[trigger]
            after.peers[p].tracks(h) <==> after.peers[p].view.contains(h) by {
            assert(data.tracks(h) <==> data.view.contains(h));
        }
    }
}

proof fn lemma_peer_update(
    peers: Map<PeerId, PeerDataView>,
    limit: spec_fn(BlockHash) -> usize, peer: PeerId, data: PeerDataView,
)
    requires
        peers_sound(peers, limit),
        peer_sound(data, limit),
        aligned(data),
    ensures
        peers_sound(peers.insert(peer, data), limit),
{
    let after = peers.insert(peer, data);
    assert forall|p: PeerId| #[trigger] after.contains_key(p) implies peer_sound(after[p], limit) && aligned(
        after[p],
    ) by {
        if p != peer {
            assert(peers.contains_key(p));
        }
    }
}

proof fn lemma_head_update(
    heads: Map<BlockHash, HeadView>,
    limit: spec_fn(BlockHash) -> usize, h: BlockHash, data: HeadView,
)
    requires
        heads_sound(heads, limit),
        head::sound(data),
        data.max_message_count() == limit(h),
    ensures
        heads_sound(heads.insert(h, data), limit),
{
    let after = heads.insert(h, data);
    assert forall|x: BlockHash| #[trigger] after.contains_key(x) implies head::sound(after[x])
        && after[x].max_message_count() == limit(x) by {
        if x != h {
            assert(heads.contains_key(x));
        }
    }
}

/// A change of a peer's view keeps the state sound.
pub proof fn view_change_keeps_state_sound(
    s: StateView,
    limit: spec_fn(BlockHash) -> usize,
    peer: PeerId,
    view: Seq<BlockHash>,
    lucky: bool,
    limits: NetworkLimits,
)
    requires
        sound(s, limit),
    ensures
        sound(s.with_view_change(peer, view, lucky, limits).0, limit),
{
    if s.peers.contains_key(peer) {
        let data = s.peers[peer];
        view_change_keeps_what_stays(peer, data, s.active_heads, view, lucky, limits);
        view_change_keeps_peer_sound(peer, data, s.active_heads, limit, view, lucky, limits);
        lemma_peer_update(
            s.peers,
            limit,
            peer,
            view_update(peer, data, s.active_heads, view, lucky, limits).0,
        );
    }
}

proof fn lemma_refresh(
    s: StateView,
    limit: spec_fn(BlockHash) -> usize, peer: PeerId, lucky: bool, limits: NetworkLimits,
)
    requires
        sound(s, limit),
    ensures
        sound(s.with_refresh(peer, lucky, limits).0, limit),
{
    if s.peers.contains_key(peer) {
        let data = s.peers[peer];
        let unseen = PeerDataView { view: Seq::empty(), ..data };
        assert(peer_sound(unseen, limit)) by {
            assert forall|h: BlockHash| #[trigger] unseen.tracks(h) implies knowledge::sound(
                unseen.view_knowledge[h],
            ) && knowledge::metered(unseen.view_knowledge[h], limit(h)) by {
                assert(data.tracks(h));
            }
        }
        refresh_starts_afresh(peer, data, s.active_heads, lucky, limits);
        view_change_keeps_peer_sound(peer, unseen, s.active_heads, limit, data.view, lucky, limits);
        lemma_peer_update(
            s.peers,
            limit,
            peer,
            view_update(peer, unseen, s.active_heads, data.view, lucky, limits).0,
        );
    }
}

/// A change of the topology keeps the state sound.
pub proof fn topology_keeps_state_sound(
    s: StateView,
    limit: spec_fn(BlockHash) -> usize,
    newly_added: Seq<(PeerId, bool)>,
    limits: NetworkLimits,
)
    requires
        sound(s, limit),
    ensures
        sound(s.with_refreshes(newly_added, limits).0, limit),
    decreases newly_added.len(),
{
    if newly_added.len() > 0 {
        topology_keeps_state_sound(s, limit, newly_added.drop_last(), limits);
        lemma_refresh(
            s.with_refreshes(newly_added.drop_last(), limits).0,
            limit,
            newly_added.last().0,
            newly_added.last().1,
            limits,
        );
    }
}

/// A message keeps the state sound.
pub proof fn message_keeps_state_sound(
    s: StateView,
    limit: spec_fn(BlockHash) -> usize,
    peer: PeerId,
    message: VersionedMessage,
    released: bool,
    limits: NetworkLimits,
    taken: bool,
)
    requires
        sound(s, limit),
        s.can_count(peer, message),
    ensures
        sound(s.after_message(peer, message, released, limits, taken).0, limit),
{
    if s.peers.contains_key(peer) {
        let data = s.peers[peer];
        assert(s.peers.insert(peer, data) =~= s.peers);
        if let Some(m) = message.plain() {
            let h = m.relay_parent();
            if s.active_heads.contains_key(h) {
                let active_head = s.active_heads[h];
                message_keeps_peer_and_head_sound(
                    peer,
                    data,
                    active_head,
                    limit,
                    m,
                    released,
                    limits,
                    taken,
                );
                let outcome = reception(peer, data, active_head, m, released, limits, taken);
                assert(aligned(outcome.data)) by {
                    assert forall|x: BlockHash| #[trigger]
                        outcome.data.tracks(x) <==> outcome.data.view.contains(x) by {
                        assert(data.tracks(x) <==> data.view.contains(x));
                        assert(data.tracks(x) <==> data.view_knowledge.dom().contains(x));
                    }
                }
                lemma_peer_update(s.peers, limit, peer, outcome.data);
                lemma_head_update(s.active_heads, limit, h, outcome.head);
            }
        }
    }
}

/// Every update of the network keeps the state sound.
pub proof fn network_update_keeps_state_sound(
    s: StateView,
    limit: spec_fn(BlockHash) -> usize,
    update: NetworkUpdate,
    limits: NetworkLimits,
    taken: bool,
)
    requires
        sound(s, limit),
        update matches NetworkUpdate::PeerMessage(peer, message) ==> s.can_count(peer, message),
    ensures
        sound(s.after_update(update, limits, taken).0, limit),
{
    match update {
        NetworkUpdate::PeerConnected(peer, version, maybe_authority) => {
            connected_peer_keeps_state_sound(s, limit, peer, version, held(maybe_authority));
        },
        NetworkUpdate::PeerDisconnected(peer) => {
            disconnected_peer_keeps_state_sound(s, limit, peer);
        },
        NetworkUpdate::NewGossipTopology(newly_added) => {
            topology_keeps_state_sound(s, limit, newly_added@, limits);
        },
        NetworkUpdate::PeerMessage(peer, message) => {
            message_keeps_state_sound(s, limit, peer, message, false, limits, taken);
        },
        NetworkUpdate::PeerViewChange(peer, view, lucky) => {
            view_change_keeps_state_sound(s, limit, peer, view@, lucky, limits);
        },
        NetworkUpdate::OurViewChange => {},
        NetworkUpdate::UpdatedAuthorityIds(peer, ids) => {
            authority_ids_keep_state_sound(s, limit, peer, ids@);
        },
    }
}

/// Going on with a statement once the runtime was asked for its validation data keeps the state sound.
pub proof fn validation_data_keeps_state_sound<E>(
    s: StateView,
    limit: spec_fn(BlockHash) -> usize,
    pending: PendingStatement,
    answer: ValidationDataAnswer<E>,
)
    requires
        sound(s, limit),
    ensures
        sound(s.after_fetch(pending, answer).0, limit),
{
    let h = pending.relay_parent;
    if s.active_heads.contains_key(h) {
        resumption_keeps_head_sound(s.active_heads[h], pending, answer);
        lemma_head_update(s.active_heads, limit, h, resumption(s.active_heads[h], pending, answer).head);
    }
}

proof fn lemma_status(
    s: StateView,
    limit: spec_fn(BlockHash) -> usize, h: BlockHash, waiting: Map<CandidateHash,
    StatusView>,
)
    requires
        sound(s, limit),
        s.active_heads.contains_key(h),
    ensures
        sound(
            StateView {
                active_heads: s.active_heads.insert(
                    h,
                    HeadView { waiting_large_statements: waiting, ..s.active_heads[h] },
                ),
                ..s
            },
            limit,
        ),
{
    head::status_keeps_head_sound(s.active_heads[h], waiting);
    lemma_head_update(
        s.active_heads,
        limit,
        h,
        HeadView { waiting_large_statements: waiting, ..s.active_heads[h] },
    );
}

/// Fetching the payload of a large statement, from the launch of the request over the demand for more
/// peers to the end, keeps the state sound.
pub proof fn fetching_keeps_state_sound(
    s: StateView,
    limit: spec_fn(BlockHash) -> usize,
    relay_parent: BlockHash,
    candidate_hash: CandidateHash,
    metadata: StatementMetadata,
    info: FetchingView,
    response: CommittedCandidateReceipt,
    tx: oneshot::Sender<Vec<PeerId>>,
    taken: bool,
)
    requires
        sound(s, limit),
    ensures
        sound(s.with_request(metadata, info), limit),
        sound(s.after_request(relay_parent, candidate_hash, tx, taken), limit),
        sound(s.after_finish(relay_parent, candidate_hash, response), limit),
{
    if s.active_heads.contains_key(metadata.relay_parent) {
        let head = s.active_heads[metadata.relay_parent];
        lemma_status(
            s,
            limit,
            metadata.relay_parent,
            head.waiting_large_statements.insert(metadata.candidate_hash, StatusView::Fetching(info)),
        );
    }
    if s.active_heads.contains_key(relay_parent) {
        let waiting = s.active_heads[relay_parent].waiting_large_statements;
        match s.large_status(relay_parent, candidate_hash) {
            Some(StatusView::Fetching(known)) => {
                lemma_status(
                    s,
                    limit,
                    relay_parent,
                    waiting.insert(
                        candidate_hash,
                        StatusView::Fetching(known.after_request(tx, taken)),
                    ),
                );
                lemma_status(
                    s,
                    limit,
                    relay_parent,
                    waiting.insert(candidate_hash, StatusView::FetchedOrShared(response)),
                );
            },
            Some(StatusView::FetchedOrShared(_)) => {
                lemma_status(s, limit, relay_parent, waiting.remove(candidate_hash));
            },
            None => {},
        }
    }
}

/// Noting a statement of ours, with its payload, keeps the state sound.
pub proof fn local_statement_keeps_state_sound(
    s: StateView,
    limit: spec_fn(BlockHash) -> usize,
    relay_parent: BlockHash,
    statement: SignedFullStatement,
    limits: NetworkLimits,
)
    requires
        sound(s, limit),
    ensures
        sound(s.with_local_payload(relay_parent, statement, limits), limit),
        sound(s.with_local_statement(relay_parent, statement), limit),
{
    if s.active_heads.contains_key(relay_parent) {
        let head = s.active_heads[relay_parent];
        lemma_status(
            s,
            limit,
            relay_parent,
            head.waiting_large_statements.insert(
                statement.payload.compact().candidate(),
                StatusView::FetchedOrShared(statement.payload->Seconded_0),
            ),
        );
        head::note_keeps_head_sound(head, statement);
        lemma_head_update(s.active_heads, limit, relay_parent, head.after_note(statement));
    }
}

proof fn lemma_deliveries_sound(
    peers: Map<PeerId, PeerDataView>,
    limit: spec_fn(BlockHash) -> usize,
    to: Seq<PeerId>,
    relay_parent: BlockHash,
    fp: Fingerprint,
)
    requires
        peers_sound(peers, limit),
        reachable(peers, to, relay_parent),
    ensures
        peers_sound(deliveries(peers, to, relay_parent, fp).0, limit),
    decreases to.len(),
{
    if to.len() > 0 {
        let front = to.drop_last();
        let last = to.last();
        assert(to[to.len() - 1] == last);
        assert forall|i: int| 0 <= i < front.len() implies peers.contains_key(#[trigger] front[i])
            && peers[front[i]].tracks(relay_parent) by {
            assert(front[i] == to[i]);
        }
        lemma_deliveries_sound(peers, limit, front, relay_parent, fp);
        deliveries_reach_their_peers(peers, front, relay_parent, fp);
        let before = deliveries(peers, front, relay_parent, fp).0;
        let data = before[last];
        assert(before.contains_key(last));
        assert(data.tracks(relay_parent));
        let after = data.after_send(relay_parent, fp);
        send_keeps_knowledge_sound(data.view_knowledge[relay_parent], fp);
        send_keeps_knowledge_metered(data.view_knowledge[relay_parent], fp, limit(relay_parent));
        assert(after.view_knowledge.dom() =~= data.view_knowledge.dom());
        large_total_does_not_grow(data.view_knowledge, after.view_knowledge);
        assert forall|h: BlockHash| #[trigger] after.tracks(h) <==> data.tracks(h) by {}
        assert forall|h: BlockHash| #[trigger] after.tracks(h) implies knowledge::sound(
            after.view_knowledge[h],
        ) && knowledge::metered(after.view_knowledge[h], limit(h)) by {
            assert(data.tracks(h));
        }
        assert forall|h: BlockHash| #[trigger] after.tracks(h) <==> after.view.contains(h) by {
            assert(data.tracks(h) <==> data.view.contains(h));
        }
        lemma_peer_update(before, limit, last, after);
    }
}

/// Telling peers what is stated about a candidate makes no peer forget anything, and keeps what is
/// known of them sound.
pub proof fn informing_only_adds_knowledge(
    peers: Map<PeerId, PeerDataView>,
    limit: spec_fn(BlockHash) -> usize,
    list: Seq<PeerId>,
    relay_parent: BlockHash,
    s: Seq<StoredEntry>,
    limits: NetworkLimits,
)
    ensures
        ({
            let after = informing(peers, list, relay_parent, s, limits).0;
            &&& after.dom() == peers.dom()
            &&& peers_sound(peers, limit) ==> peers_sound(after, limit)
            &&& forall|p: PeerId|
                #![trigger after[p]]
                peers.contains_key(p) ==> {
                    &&& after[p].view_knowledge.dom() == peers[p].view_knowledge.dom()
                    &&& grown(
                        peers[p].view_knowledge[relay_parent],
                        after[p].view_knowledge[relay_parent],
                    )
                }
        }),
    decreases list.len(),
{
    if list.len() > 0 {
        let front = list.drop_last();
        let last = list.last();
        informing_only_adds_knowledge(peers, limit, front, relay_parent, s, limits);
        let before = informing(peers, front, relay_parent, s, limits).0;
        let after = informing(peers, list, relay_parent, s, limits).0;
        if before.contains_key(last) {
            let data = before[last];
            dispatch_only_adds_knowledge(last, data, relay_parent, s, limits);
            let told = dispatch(last, data, relay_parent, s, limits).0;
            assert(after == before.insert(last, told));
            assert(after.dom() =~= peers.dom());
            if peers_sound(peers, limit) {
                large_total_does_not_grow(data.view_knowledge, told.view_knowledge);
                assert forall|h: BlockHash| #[trigger] told.tracks(h) <==> data.tracks(h) by {
                    assert(told.tracks(h) <==> told.view_knowledge.dom().contains(h));
                }
                assert forall|h: BlockHash| #[trigger] told.tracks(h) implies knowledge::sound(
                    told.view_knowledge[h],
                ) && knowledge::metered(told.view_knowledge[h], limit(h)) by {
                    assert(data.tracks(h));
                    assert(data.tracks(relay_parent) || h != relay_parent);
                }
                assert forall|h: BlockHash| #[trigger] told.tracks(h) <==> told.view.contains(h) by {
                    assert(data.tracks(h) <==> data.view.contains(h));
                }
                lemma_peer_update(before, limit, last, told);
            }
        }
        assert forall|p: PeerId| #![trigger after[p]] peers.contains_key(p) implies {
            &&& after[p].view_knowledge.dom() == peers[p].view_knowledge.dom()
            &&& grown(
                peers[p].view_knowledge[relay_parent],
                after[p].view_knowledge[relay_parent],
            )
        } by {
            assert(before[p].view_knowledge.dom() == peers[p].view_knowledge.dom());
        }
    }
}

proof fn lemma_recipients_reachable(
    s: StateView,
    c: Circulation,
    chosen: Seq<PeerId>,
    usual: usize,
    limits: NetworkLimits,
)
    requires
        s.reaches(c, chosen),
    ensures
        reachable(s.peers, recipients(c.priority_peers@, chosen, usual, limits), c.relay_parent),
{
    let to = recipients(c.priority_peers@, chosen, usual, limits);
    recipients_were_named(c.priority_peers@, chosen, usual, limits);
    assert forall|i: int| 0 <= i < to.len() implies s.peers.contains_key(#[trigger] to[i])
        && s.peers[to[i]].tracks(c.relay_parent) by {
        if c.priority_peers@.contains(to[i]) {
            let j = choose|j: int| 0 <= j < c.priority_peers@.len() && c.priority_peers@[j] == to[i];
            assert(s.peers.contains_key(c.priority_peers@[j]));
        } else {
            let j = choose|j: int| 0 <= j < chosen.len() && chosen[j] == to[i];
            assert(s.peers.contains_key(chosen[j]));
        }
    }
}

/// Circulating a statement, with or without what depends on it, keeps the state sound.
pub proof fn circulation_keeps_state_sound(
    s: StateView,
    limit: spec_fn(BlockHash) -> usize,
    c: Circulation,
    chosen: Seq<PeerId>,
    usual: usize,
    limits: NetworkLimits,
)
    requires
        sound(s, limit),
        s.reaches(c, chosen),
    ensures
        sound(StateView { peers: circulated(c, chosen, usual, s.peers, limits).0, ..s }, limit),
        sound(s.after_circulation(c, chosen, usual, limits).0, limit),
{
    let to = recipients(c.priority_peers@, chosen, usual, limits);
    lemma_recipients_reachable(s, c, chosen, usual, limits);
    lemma_deliveries_sound(s.peers, limit, to, c.relay_parent, c.fp());
    let (peers, actions, new) = circulated(c, chosen, usual, s.peers, limits);
    if s.active_heads.contains_key(c.relay_parent) {
        informing_only_adds_knowledge(
            peers,
            limit,
            new,
            c.relay_parent,
            entries_about(
                s.active_heads[c.relay_parent].statements,
                c.comparator.compact.candidate(),
            ),
            limits,
        );
    }
}

proof fn lemma_newcomers_were_named(
    peers: Map<PeerId, PeerDataView>,
    to: Seq<PeerId>,
    relay_parent: BlockHash,
    fp: Fingerprint,
    first_version: bool,
)
    ensures
        forall|p: PeerId| #[trigger]
            newcomers(deliveries(peers, to, relay_parent, fp).1, first_version).contains(p)
                ==> to.contains(p),
    decreases to.len(),
{
    let done = deliveries(peers, to, relay_parent, fp).1;
    if to.len() > 0 {
        let front = to.drop_last();
        lemma_newcomers_were_named(peers, front, relay_parent, fp, first_version);
        let before = deliveries(peers, front, relay_parent, fp).1;
        assert(done.drop_last() =~= before);
        assert(to =~= front.push(to.last()));
        assert forall|p: PeerId| #[trigger] newcomers(done, first_version).contains(p) implies to.contains(
            p,
        ) by {
            lemma_push_contains(newcomers(before, first_version), to.last(), p);
            lemma_push_contains(front, to.last(), p);
            if newcomers(before, first_version).contains(p) {
                assert(front.contains(p));
            }
        }
    } else {
        assert(done =~= Seq::empty());
    }
}

/// Each peer that is told what is stated about a candidate ends up with every one of the statements.
pub proof fn informing_tells_everything(
    peers: Map<PeerId, PeerDataView>,
    limit: spec_fn(BlockHash) -> usize,
    list: Seq<PeerId>,
    relay_parent: BlockHash,
    s: Seq<StoredEntry>,
    limits: NetworkLimits,
)
    requires
        peers_sound(peers, limit),
        reachable(peers, list, relay_parent),
        head::ordered(s),
    ensures
        ({
            let after = informing(peers, list, relay_parent, s, limits).0;
            forall|p: PeerId, i: int|
                #![trigger list.contains(p), s[i]]
                list.contains(p) && 0 <= i < s.len()
                    ==> after[p].view_knowledge[relay_parent].knows_statement(entry_fingerprint(s[i]))
        }),
    decreases list.len(),
{
    if list.len() > 0 {
        let front = list.drop_last();
        let last = list.last();
        assert(list[list.len() - 1] == last);
        assert forall|i: int| 0 <= i < front.len() implies peers.contains_key(#[trigger] front[i])
            && peers[front[i]].tracks(relay_parent) by {
            assert(front[i] == list[i]);
        }
        informing_tells_everything(peers, limit, front, relay_parent, s, limits);
        informing_only_adds_knowledge(peers, limit, front, relay_parent, s, limits);
        let before = informing(peers, front, relay_parent, s, limits).0;
        let after = informing(peers, list, relay_parent, s, limits).0;
        assert(before.contains_key(last));
        assert(before[last].view_knowledge.dom() == peers[last].view_knowledge.dom());
        assert(before[last].tracks(relay_parent));
        dispatch_tells_everything(last, before[last], relay_parent, s, limits);
        assert(list =~= front.push(last));
        assert forall|p: PeerId, i: int|
            #![trigger list.contains(p), s[i]]
            list.contains(p) && 0 <= i < s.len() implies after[p].view_knowledge[relay_parent].knows_statement(
            entry_fingerprint(s[i]),
        ) by {
            lemma_push_contains(front, last, p);
            if p != last {
                assert(front.contains(p));
                assert(after[p] == before[p]);
            }
        }
    }
}

/// When a statement of ours is circulated, each peer that learns of the candidate by it ends up with
/// every statement about the candidate that is stored.
pub proof fn newcomers_are_told_what_depends(
    s: StateView,
    limit: spec_fn(BlockHash) -> usize,
    c: Circulation,
    chosen: Seq<PeerId>,
    usual: usize,
    limits: NetworkLimits,
)
    requires
        sound(s, limit),
        s.reaches(c, chosen),
        s.active_heads.contains_key(c.relay_parent),
    ensures
        ({
            let new = circulated(c, chosen, usual, s.peers, limits).2;
            let after = s.after_circulation(c, chosen, usual, limits).0;
            let about = entries_about(
                s.active_heads[c.relay_parent].statements,
                c.comparator.compact.candidate(),
            );
            forall|p: PeerId, i: int|
                #![trigger new.contains(p), about[i]]
                new.contains(p) && 0 <= i < about.len()
                    ==> after.peers[p].view_knowledge[c.relay_parent].knows_statement(
                    entry_fingerprint(about[i]),
                )
        }),
{
    let to = recipients(c.priority_peers@, chosen, usual, limits);
    let (peers, done) = deliveries(s.peers, to, c.relay_parent, c.fp());
    let new = circulated(c, chosen, usual, s.peers, limits).2;
    lemma_recipients_reachable(s, c, chosen, usual, limits);
    lemma_deliveries_sound(s.peers, limit, to, c.relay_parent, c.fp());
    deliveries_reach_their_peers(s.peers, to, c.relay_parent, c.fp());
    lemma_newcomers_were_named(s.peers, to, c.relay_parent, c.fp(), true);
    lemma_newcomers_were_named(s.peers, to, c.relay_parent, c.fp(), false);
    assert forall|i: int| 0 <= i < new.len() implies peers.contains_key(#[trigger] new[i])
        && peers[new[i]].tracks(c.relay_parent) by {
        let first = newcomers(done, true);
        if i < first.len() {
            assert(first[i] == new[i]);
            assert(first.contains(new[i]));
        } else {
            assert(newcomers(done, false)[i - first.len()] == new[i]);
            assert(newcomers(done, false).contains(new[i]));
        }
        assert(to.contains(new[i]));
        let j = choose|j: int| 0 <= j < to.len() && to[j] == new[i];
        assert(s.peers.contains_key(to[j]));
    }
    head::statements_about_a_candidate_are_ordered(
        s.active_heads[c.relay_parent].statements,
        c.comparator.compact.candidate(),
    );
    informing_tells_everything(
        peers,
        limit,
        new,
        c.relay_parent,
        entries_about(
            s.active_heads[c.relay_parent].statements,
            c.comparator.compact.candidate(),
        ),
        limits,
    );
}

/// A peer gets the payload of a large statement only if it is connected, has the relay parent in its
/// view and was told of the candidate by us, and only at an active head.
pub proof fn payload_is_given_only_where_announced(
    s: StateView,
    requesting_peer: PeerId,
    relay_parent: BlockHash,
    candidate_hash: CandidateHash,
)
    ensures
        s.data_for(requesting_peer, relay_parent, candidate_hash) is Ok ==> {
            &&& s.peers.contains_key(requesting_peer)
            &&& s.peers[requesting_peer].tracks(relay_parent)
            &&& s.peers[requesting_peer].view_knowledge[relay_parent].sent_candidates.contains(
                candidate_hash,
            )
            &&& s.active_heads.contains_key(relay_parent)
        },
{
}

/// Every peer that a large statement of ours was circulated to gets its payload when it asks for it.
pub proof fn shared_payload_is_given_to_recipients(
    s: StateView,
    relay_parent: BlockHash,
    statement: SignedFullStatement,
    c: Circulation,
    chosen: Seq<PeerId>,
    usual: usize,
    limits: NetworkLimits,
    peer: PeerId,
)
    requires
        s.active_heads.contains_key(relay_parent),
        largeness(statement, limits.max_notification_size).0,
        c.relay_parent == relay_parent,
        c.statement == statement,
        c.comparator == comparator(statement),
        s.reaches(c, chosen),
        recipients(c.priority_peers@, chosen, usual, limits).contains(peer),
    ensures
        s.with_local_payload(relay_parent, statement, limits).with_local_statement(
            relay_parent,
            statement,
        ).after_circulation(c, chosen, usual, limits).0.data_for(
            peer,
            relay_parent,
            statement.payload.compact().candidate(),
        ) == Ok::<CommittedCandidateReceipt, JfyiError>(statement.payload->Seconded_0),
{
    let h = statement.payload.compact().candidate();
    let stored = s.with_local_payload(relay_parent, statement, limits);
    let shared = stored.with_local_statement(relay_parent, statement);
    assert(shared.peers == s.peers);
    assert(shared.reaches(c, chosen));
    let to = recipients(c.priority_peers@, chosen, usual, limits);
    lemma_recipients_reachable(shared, c, chosen, usual, limits);
    deliveries_reach_their_peers(shared.peers, to, relay_parent, c.fp());
    let (peers, actions, new) = circulated(c, chosen, usual, shared.peers, limits);
    let i = choose|i: int| 0 <= i < to.len() && to[i] == peer;
    assert(shared.peers.contains_key(to[i]));
    assert(peers.contains_key(peer));
    assert(peers[peer].view_knowledge[relay_parent].sent_candidates.contains(h));
    informing_only_adds_knowledge(
        peers,
        |x: BlockHash| 0usize,
        new,
        relay_parent,
        entries_about(shared.active_heads[relay_parent].statements, c.comparator.compact.candidate()),
        limits,
    );
    let after = shared.after_circulation(c, chosen, usual, limits).0;
    assert(after.peers.contains_key(peer));
    assert(peers[peer].tracks(relay_parent));
    assert(after.peers[peer].view_knowledge.dom() == peers[peer].view_knowledge.dom());
    assert(after.peers[peer].tracks(relay_parent));
    assert(shared.large_status(relay_parent, h) == Some(
        StatusView::FetchedOrShared(statement.payload->Seconded_0),
    ));
}

/// The payload that was fetched is there for the messages that waited for it, and those are released.
pub proof fn fetched_payload_is_kept(
    s: StateView,
    relay_parent: BlockHash,
    candidate_hash: CandidateHash,
    response: CommittedCandidateReceipt,
)
    requires
        s.active_heads.contains_key(relay_parent),
        s.large_status(relay_parent, candidate_hash) matches Some(StatusView::Fetching(_)),
    ensures
        s.after_finish(relay_parent, candidate_hash, response).large_status(
            relay_parent,
            candidate_hash,
        ) == Some(StatusView::FetchedOrShared(response)),
        s.released(relay_parent, candidate_hash) == Ok::<_, JfyiError>(
            s.large_status(relay_parent, candidate_hash)->0->Fetching_0.available_peers,
        ),
{
}

/// A message for a head that was active until recently costs nothing.
pub proof fn recently_active_head_costs_nothing(
    s: StateView,
    h: BlockHash,
    peer: PeerId,
    message: VersionedMessage,
    released: bool,
    limits: NetworkLimits,
    taken: bool,
)
    requires
        s.active_heads.contains_key(h),
        message.plain() is Some,
        message.plain()->0.relay_parent() == h,
    ensures
        s.without_leaf(h).recent_outdated_heads.contains(h),
        s.without_leaf(h).after_message(peer, message, released, limits, taken).2.len() == 0,
        s.without_leaf(h).after_message(peer, message, released, limits, taken).1 is Done,
{
    let all = s.recent_outdated_heads.push(h);
    let kept = latest(all);
    assert(kept.last() == h);
    assert(kept[kept.len() - 1] == h);
}

/// As many outdated heads are remembered as there is room for, and they are the last ones.
pub proof fn last_outdated_heads_are_remembered(
    s: StateView,
    limit: spec_fn(BlockHash) -> usize, h: BlockHash,
)
    requires
        s.active_heads.contains_key(h),
        sound(s, limit),
    ensures
        ({
            let kept = s.without_leaf(h).recent_outdated_heads;
            &&& kept.len() <= MAX_BUF_LEN
            &&& kept.last() == h
            &&& if s.recent_outdated_heads.len() < MAX_BUF_LEN {
                kept.drop_last() == s.recent_outdated_heads
            } else {
                kept.drop_last() == s.recent_outdated_heads.skip(1)
            }
        }),
{
    let all = s.recent_outdated_heads.push(h);
    let kept = latest(all);
    if s.recent_outdated_heads.len() < MAX_BUF_LEN {
        assert(kept.drop_last() =~= s.recent_outdated_heads);
    } else {
        assert(kept.drop_last() =~= s.recent_outdated_heads.skip(1));
    }
}

/// A peer that connects and disconnects leaves no trace, if neither it nor any of its authorities was
/// known before.
pub proof fn disconnecting_undoes_connecting(
    s: StateView,
    peer: PeerId,
    protocol_version: Option<ValidationVersion>,
    maybe_authority: Option<Set<AuthorityDiscoveryId>>,
)
    requires
        !s.peers.contains_key(peer),
        maybe_authority matches Some(ids) ==> forall|a: AuthorityDiscoveryId| #[trigger]
            ids.contains(a) ==> !s.authorities.contains_key(a),
    ensures
        s.with_peer(peer, protocol_version, maybe_authority).without_peer(peer) == s,
{
    let connected = s.with_peer(peer, protocol_version, maybe_authority);
    let after = connected.without_peer(peer);
    assert(after.peers =~= s.peers);
    assert(after.authorities =~= s.authorities);
}

/// Once a peer has disconnected, it is not known, and none of its authorities is mapped to any peer.
pub proof fn disconnected_peer_is_forgotten(s: StateView, peer: PeerId)
    ensures
        !s.without_peer(peer).peers.contains_key(peer),
        s.peers.contains_key(peer) && s.peers[peer].maybe_authority is Some ==> forall|
            a: AuthorityDiscoveryId,
        | #[trigger]
            s.peers[peer].maybe_authority->0.contains(a) ==> !s.without_peer(
                peer,
            ).authorities.contains_key(a),
{
}

/// Once the authorities that a peer is known as have changed, they are exactly those that are mapped to
/// it; those that are mapped to other peers stay so, but for the ones that the peer turned out to be.
pub proof fn authority_ids_are_exact(s: StateView, peer: PeerId, ids: Set<AuthorityDiscoveryId>)
    ensures
        ({
            let after = s.with_authority_ids(peer, ids).authorities;
            forall|a: AuthorityDiscoveryId|
                #![trigger after.contains_key(a)]
                {
                    &&& after.contains_key(a) && after[a] == peer <==> ids.contains(a)
                    &&& !ids.contains(a) && s.authorities.contains_key(a) && s.authorities[a] != peer
                        ==> after.contains_key(a) && after[a] == s.authorities[a]
                }
        }),
{
}

} // verus!
