//! What each event changes, and what it leaves as it is.
use crate::distribute::{Circulation, circulated, informing};
use crate::error::{JfyiError, ValidationDataAnswer};
use crate::fetching::{FetchingView, PeerMessages, StatusView};
use crate::head::{HeadView, entries_about};
use crate::ids::{
    AuthorityDiscoveryId, BlockHash, CandidateHash, ParaId, PeerId, ValidatorId, ValidatorIndex,
};
use crate::incoming::{PendingStatement, handling, resumption};
use crate::message::{
    ActionView, NetworkLimits, StatementMetadata, ValidationVersion, VersionedMessage,
};
use crate::outdated::latest;
use crate::peer::PeerDataView;
use crate::reputation::Rep;
use crate::state::{NetworkUpdate, StateView, verdicts};
use crate::statement::{CommittedCandidateReceipt, SignedFullStatement, Statement, receipt_has_new_code};
use crate::stored::comparator;
use crate::views::view_update;
use futures::channel::oneshot;
use vstd::prelude::*;

verus! {

/// When the payload of a large statement was fetched, each peer that failed to give it loses reputation for
/// that, in the order in which they failed, and no other peer does; and the one that gave it earns
/// reputation, whether or not others had failed. Nothing else is done.
pub proof fn fetch_is_judged(bad_peers: Seq<PeerId>, from_peer: PeerId, p: PeerId, rep: Rep)
    ensures
        ({
            let actions = verdicts(bad_peers, from_peer);
            &&& actions.len() == bad_peers.len() + 1
            &&& forall|i: int|
                0 <= i < bad_peers.len() ==> #[trigger] actions[i] == ActionView::ModifyReputation(
                    bad_peers[i],
                    Rep::CostFetchFail,
                )
            &&& actions.last() == ActionView::ModifyReputation(from_peer, Rep::BenefitValidResponse)
            &&& actions.contains(ActionView::ModifyReputation(p, rep)) <==> {
                ||| rep == Rep::CostFetchFail && bad_peers.contains(p)
                ||| rep == Rep::BenefitValidResponse && p == from_peer
            }
            &&& bad_peers.len() == 0 ==> actions == seq![
                ActionView::ModifyReputation(from_peer, Rep::BenefitValidResponse),
            ]
        }),
{
    let actions = verdicts(bad_peers, from_peer);
    let a = ActionView::ModifyReputation(p, rep);
    if rep == Rep::CostFetchFail && bad_peers.contains(p) {
        let i = choose|i: int| 0 <= i < bad_peers.len() && bad_peers[i] == p;
        assert(actions[i] == a);
    }
    if rep == Rep::BenefitValidResponse && p == from_peer {
        assert(actions[bad_peers.len() as int] == a);
    }
    if actions.contains(a) {
        let i = choose|i: int| 0 <= i < actions.len() && actions[i] == a;
        if i < bad_peers.len() {
            assert(bad_peers.contains(bad_peers[i]));
        }
    }
}

/// A leaf that is activated is blank, unless it was active before and keeps what is known at it. One that is
/// deactivated is gone, and is the last of those that were active until recently; one that was not active
/// changes nothing. No other head and no peer is changed.
pub proof fn leaves_come_and_go(s: StateView, h: BlockHash, data: HeadView, other: BlockHash)
    ensures
        ({
            let came = s.with_leaf(h, data);
            let gone = s.without_leaf(h);
            &&& came.active_heads.contains_key(h)
            &&& came.active_heads[h] == if s.active_heads.contains_key(h) {
                s.active_heads[h]
            } else {
                data
            }
            &&& other != h ==> (came.active_heads.contains_key(other) <==> s.active_heads.contains_key(
                other,
            )) && came.active_heads[other] == s.active_heads[other]
            &&& came.recent_outdated_heads == s.recent_outdated_heads
            &&& came.peers == s.peers
            &&& came.authorities == s.authorities
            &&& !gone.active_heads.contains_key(h)
            &&& other != h ==> (gone.active_heads.contains_key(other) <==> s.active_heads.contains_key(
                other,
            )) && (s.active_heads.contains_key(other) ==> gone.active_heads[other]
                == s.active_heads[other])
            &&& s.active_heads.contains_key(h) ==> gone.recent_outdated_heads.len() > 0
                && gone.recent_outdated_heads.last() == h
            &&& !s.active_heads.contains_key(h) ==> gone == s
            &&& gone.peers == s.peers
            &&& gone.authorities == s.authorities
        }),
{
}

/// Of the heads that were active until recently, the last ten are remembered, in their order.
pub proof fn last_ten_heads_are_remembered(s: Seq<BlockHash>, i: int)
    ensures
        latest(s).len() <= 10,
        latest(s).len() == s.len() || latest(s).len() == 10,
        0 <= i < latest(s).len() ==> latest(s)[latest(s).len() - 1 - i] == s[s.len() - 1 - i],
{
}

/// A blank head has the validators and the session that it is given and nothing else.
pub proof fn blank_head_knows_nothing(validators: Seq<ValidatorId>, session_index: u32, h: CandidateHash)
    ensures
        ({
            let head = HeadView::blank(validators, session_index);
            &&& head.validators == validators
            &&& head.session_index == session_index
            &&& head.statements.len() == 0
            &&& !head.candidates.contains(h)
            &&& !head.waiting_large_statements.contains_key(h)
            &&& head.cached_validation_data.dom() == Set::<ParaId>::empty()
            &&& head.seconded_counts.dom() == Set::<ValidatorIndex>::empty()
        }),
{
    let head = HeadView::blank(validators, session_index);
    assert(head.cached_validation_data.dom() =~= Set::empty());
    assert(head.seconded_counts.dom() =~= Set::empty());
}

/// A peer that connects with a known version of the protocol is there, with nothing known of it, and exactly
/// the authorities that it may be known as are mapped to it anew. With an unknown version nothing happens.
/// No other peer, no other authority and no head is changed.
pub proof fn connecting_adds_the_peer(
    s: StateView,
    peer: PeerId,
    version: Option<ValidationVersion>,
    ids: Option<Set<AuthorityDiscoveryId>>,
    other: PeerId,
    a: AuthorityDiscoveryId,
)
    ensures
        ({
            let after = s.with_peer(peer, version, ids);
            let named = ids is Some && ids->0.contains(a);
            &&& version is None ==> after == s
            &&& version matches Some(v) ==> {
                &&& after.peers.contains_key(peer)
                &&& after.peers[peer].protocol_version == v
                &&& after.peers[peer].maybe_authority == ids
                &&& after.peers[peer].view.len() == 0
                &&& after.peers[peer].view_knowledge.dom() == Set::<BlockHash>::empty()
                &&& named ==> after.authorities.contains_key(a) && after.authorities[a] == peer
                &&& !named ==> (after.authorities.contains_key(a) <==> s.authorities.contains_key(a))
                    && (s.authorities.contains_key(a) ==> after.authorities[a] == s.authorities[a])
            }
            &&& other != peer ==> (after.peers.contains_key(other) <==> s.peers.contains_key(other))
                && after.peers[other] == s.peers[other]
            &&& after.active_heads == s.active_heads
            &&& after.recent_outdated_heads == s.recent_outdated_heads
        }),
{
    if let Some(v) = version {
        assert(PeerDataView::connected(v, ids).view_knowledge.dom() =~= Set::empty());
    }
}

/// A peer that disconnects is gone, and so are exactly the authorities that it may be known as. One that is
/// not connected changes nothing. No other peer, no other authority and no head is changed.
pub proof fn disconnecting_removes_the_peer(
    s: StateView,
    peer: PeerId,
    other: PeerId,
    a: AuthorityDiscoveryId,
)
    ensures
        ({
            let after = s.without_peer(peer);
            let ids = s.peers[peer].maybe_authority;
            let named = s.peers.contains_key(peer) && ids is Some && ids->0.contains(a);
            &&& !after.peers.contains_key(peer)
            &&& !s.peers.contains_key(peer) ==> after == s
            &&& other != peer ==> (after.peers.contains_key(other) <==> s.peers.contains_key(other)) && (
            s.peers.contains_key(other) ==> after.peers[other] == s.peers[other])
            &&& after.authorities.contains_key(a) <==> s.authorities.contains_key(a) && !named
            &&& after.authorities.contains_key(a) ==> after.authorities[a] == s.authorities[a]
            &&& after.active_heads == s.active_heads
            &&& after.recent_outdated_heads == s.recent_outdated_heads
        }),
{
}

/// When the authorities of a peer change, an authority is mapped to the peer if and only if it is among them;
/// another one is mapped as before if it was mapped to another peer, and not at all otherwise. A connected
/// peer is known as them from then on; nothing else is changed.
pub proof fn authorities_follow_their_peer(
    s: StateView,
    peer: PeerId,
    ids: Set<AuthorityDiscoveryId>,
    other: PeerId,
    a: AuthorityDiscoveryId,
)
    ensures
        ({
            let after = s.with_authority_ids(peer, ids);
            let elsewhere = s.authorities.contains_key(a) && s.authorities[a] != peer;
            &&& ids.contains(a) ==> after.authorities.contains_key(a) && after.authorities[a] == peer
            &&& !ids.contains(a) ==> (after.authorities.contains_key(a) <==> elsewhere)
            &&& !ids.contains(a) && elsewhere ==> after.authorities[a] == s.authorities[a]
            &&& after.peers.contains_key(other) <==> s.peers.contains_key(other)
            &&& other != peer ==> after.peers[other] == s.peers[other]
            &&& s.peers.contains_key(peer) ==> {
                &&& after.peers[peer].maybe_authority == Some(ids)
                &&& after.peers[peer].view == s.peers[peer].view
                &&& after.peers[peer].protocol_version == s.peers[peer].protocol_version
                &&& after.peers[peer].view_knowledge == s.peers[peer].view_knowledge
            }
            &&& after.active_heads == s.active_heads
            &&& after.recent_outdated_heads == s.recent_outdated_heads
        }),
{
}

/// A change of a connected peer's view changes what is known of the peer and nothing else; of another peer it
/// changes nothing at all. So does its being new in the topology, when it is told what is stored at the heads
/// in its view as if they were new in it.
pub proof fn views_change_one_peer(
    s: StateView,
    peer: PeerId,
    view: Seq<BlockHash>,
    lucky: bool,
    limits: NetworkLimits,
    other: PeerId,
)
    ensures
        ({
            let (changed, told) = s.with_view_change(peer, view, lucky, limits);
            let (fresh, retold) = s.with_refresh(peer, lucky, limits);
            let data = s.peers[peer];
            let unseen = PeerDataView { view: Seq::empty(), ..data };
            &&& s.peers.contains_key(peer) ==> {
                &&& (changed.peers[peer], told) == view_update(
                    peer,
                    data,
                    s.active_heads,
                    view,
                    lucky,
                    limits,
                )
                &&& (fresh.peers[peer], retold) == view_update(
                    peer,
                    unseen,
                    s.active_heads,
                    data.view,
                    lucky,
                    limits,
                )
            }
            &&& !s.peers.contains_key(peer) ==> told.len() == 0 && retold.len() == 0
            &&& changed.peers.dom() == s.peers.dom()
            &&& fresh.peers.dom() == s.peers.dom()
            &&& other != peer ==> changed.peers[other] == s.peers[other] && fresh.peers[other]
                == s.peers[other]
            &&& changed == (StateView { peers: changed.peers, ..s })
            &&& fresh == (StateView { peers: fresh.peers, ..s })
        }),
{
    let (changed, told) = s.with_view_change(peer, view, lucky, limits);
    let (fresh, retold) = s.with_refresh(peer, lucky, limits);
    assert(changed.peers.dom() =~= s.peers.dom());
    assert(fresh.peers.dom() =~= s.peers.dom());
}

/// Peers that are new in the topology are told one after the other, in their order: the first ones and then
/// the rest, wherever they are parted.
pub proof fn topology_goes_peer_by_peer(
    s: StateView,
    first: Seq<(PeerId, bool)>,
    rest: Seq<(PeerId, bool)>,
    one: PeerId,
    lucky: bool,
    limits: NetworkLimits,
)
    ensures
        ({
            let (middle, done) = s.with_refreshes(first, limits);
            let (end, more) = middle.with_refreshes(rest, limits);
            s.with_refreshes(first + rest, limits) == (end, done + more)
        }),
        s.with_refreshes(seq![(one, lucky)], limits) == s.with_refresh(one, lucky, limits),
        s.with_refreshes(Seq::empty(), limits) == (s, Seq::<ActionView>::empty()),
    decreases rest.len(),
{
    let all = first + rest;
    let (middle, done) = s.with_refreshes(first, limits);
    let (end, more) = middle.with_refreshes(rest, limits);
    if rest.len() == 0 {
        assert(all =~= first);
        assert(done + more =~= done);
    } else {
        assert(all.drop_last() =~= first + rest.drop_last());
        topology_goes_peer_by_peer(s, first, rest.drop_last(), one, lucky, limits);
        assert(s.with_refreshes(all, limits).1 =~= done + more);
    }
    let single = seq![(one, lucky)];
    assert(single.drop_last() =~= Seq::empty());
    assert(s.with_refreshes(single.drop_last(), limits) == (s, Seq::<ActionView>::empty()));
    assert(s.with_refreshes(single, limits).1 =~= s.with_refresh(one, lucky, limits).1);
}

/// A message of a peer that is not connected is ignored. One of a connected peer changes what is known of the
/// peer, and the head that it is for, and nothing else.
pub proof fn message_changes_its_sender_and_its_head(
    s: StateView,
    peer: PeerId,
    message: VersionedMessage,
    released: bool,
    limits: NetworkLimits,
    taken: bool,
    other: PeerId,
    h: BlockHash,
)
    ensures
        ({
            let (after, step, actions) = s.after_message(peer, message, released, limits, taken);
            let outcome = handling(
                peer,
                s.peers[peer],
                s.active_heads,
                s.recent_outdated_heads,
                message,
                released,
                limits,
                taken,
            );
            &&& !s.peers.contains_key(peer) ==> after == s && step is Done && actions.len() == 0
            &&& s.peers.contains_key(peer) ==> {
                &&& after.peers[peer] == outcome.data
                &&& after.active_heads == outcome.heads
                &&& step == outcome.step
                &&& actions == outcome.actions
            }
            &&& after.peers.contains_key(other) <==> s.peers.contains_key(other)
            &&& other != peer ==> after.peers[other] == s.peers[other]
            &&& after.active_heads.contains_key(h) <==> s.active_heads.contains_key(h)
            &&& message.plain() matches Some(m) ==> h != m.relay_parent() ==> after.active_heads[h]
                == s.active_heads[h]
            &&& message.plain() is None ==> after.active_heads == s.active_heads && actions.len() == 0
            &&& after.authorities == s.authorities
            &&& after.recent_outdated_heads == s.recent_outdated_heads
        }),
{
}

/// Each update of the network is handled as what it is: a connected and a disconnected peer, a change of
/// authorities, of a view or of the topology, and a message that has just come. Our own view changes nothing
/// here.
pub proof fn updates_are_handled_as_what_they_are(
    s: StateView,
    limits: NetworkLimits,
    taken: bool,
    update: NetworkUpdate,
)
    ensures
        ({
            let (after, step, actions) = s.after_update(update, limits, taken);
            &&& !(update is PeerMessage) ==> step is Done
            &&& match update {
                NetworkUpdate::PeerConnected(peer, version, ids) => after == s.with_peer(
                    peer,
                    version,
                    match ids {
                        Some(set) => Some(set@),
                        None => None,
                    },
                ) && actions.len() == 0,
                NetworkUpdate::PeerDisconnected(peer) => after == s.without_peer(peer) && actions.len()
                    == 0,
                NetworkUpdate::NewGossipTopology(added) => (after, actions) == s.with_refreshes(
                    added@,
                    limits,
                ),
                NetworkUpdate::PeerMessage(peer, message) => (after, step, actions) == s.after_message(
                    peer,
                    message,
                    false,
                    limits,
                    taken,
                ),
                NetworkUpdate::PeerViewChange(peer, view, lucky) => (after, actions)
                    == s.with_view_change(peer, view.heads@, lucky, limits),
                NetworkUpdate::OurViewChange => after == s && actions.len() == 0,
                NetworkUpdate::UpdatedAuthorityIds(peer, ids) => after == s.with_authority_ids(
                    peer,
                    ids@,
                ) && actions.len() == 0,
            }
        }),
{
}

/// The validation data that a statement waits for goes to the head that the statement is for, and to nothing
/// else; and nowhere if the head is not active any more.
pub proof fn validation_data_goes_to_its_head<E>(
    s: StateView,
    pending: PendingStatement,
    answer: ValidationDataAnswer<E>,
    h: BlockHash,
)
    ensures
        ({
            let (after, step, actions) = s.after_fetch(pending, answer);
            let outcome = resumption(s.active_heads[pending.relay_parent], pending, answer);
            &&& s.active_heads.contains_key(pending.relay_parent) ==> {
                &&& after.active_heads[pending.relay_parent] == outcome.head
                &&& step == outcome.step
                &&& actions == outcome.actions
            }
            &&& !s.active_heads.contains_key(pending.relay_parent) ==> after == s && step is Done
                && actions.len() == 0
            &&& after.active_heads.contains_key(h) <==> s.active_heads.contains_key(h)
            &&& h != pending.relay_parent ==> after.active_heads[h] == s.active_heads[h]
            &&& after == (StateView { active_heads: after.active_heads, ..s })
        }),
{
    let after = s.after_fetch(pending, answer).0;
    assert(after =~= (StateView { active_heads: after.active_heads, ..s }));
}

/// Whether two states differ at most in the status of one large statement at a head, and the same heads are
/// active.
pub open spec fn same_but_for_status(
    a: StateView,
    b: StateView,
    relay_parent: BlockHash,
    candidate_hash: CandidateHash,
) -> bool {
    &&& a.peers == b.peers
    &&& a.authorities == b.authorities
    &&& a.recent_outdated_heads == b.recent_outdated_heads
    &&& forall|h: BlockHash| #[trigger]
        a.active_heads.contains_key(h) <==> b.active_heads.contains_key(h)
    &&& forall|h: BlockHash|
        h != relay_parent ==> #[trigger] a.active_heads[h] == b.active_heads[h]
    &&& ({
        let x = a.active_heads[relay_parent];
        let y = b.active_heads[relay_parent];
        &&& x == (HeadView { waiting_large_statements: x.waiting_large_statements, ..y })
        &&& forall|c: CandidateHash|
            c != candidate_hash ==> (#[trigger] x.waiting_large_statements.contains_key(c)
                <==> y.waiting_large_statements.contains_key(c)) && x.waiting_large_statements[c]
                == y.waiting_large_statements[c]
    })
}

/// The status of a large statement, if there is one.
pub open spec fn status_of(s: StateView, relay_parent: BlockHash, h: CandidateHash) -> Option<StatusView> {
    if s.active_heads.contains_key(relay_parent)
        && s.active_heads[relay_parent].waiting_large_statements.contains_key(h) {
        Some(s.active_heads[relay_parent].waiting_large_statements[h])
    } else {
        None
    }
}

/// A payload is fetched once a request for it was launched at an active head, unless it was fetched or there
/// already. Nothing else is changed.
pub proof fn launched_request_is_noted(s: StateView, metadata: StatementMetadata, info: FetchingView)
    ensures
        ({
            let relay_parent = metadata.relay_parent;
            let h = metadata.candidate_hash;
            let after = s.with_request(metadata, info);
            &&& !s.active_heads.contains_key(relay_parent) ==> after == s
            &&& s.active_heads.contains_key(relay_parent) ==> status_of(after, relay_parent, h)
                == match status_of(s, relay_parent, h) {
                Some(status) => Some(status),
                None => Some(StatusView::Fetching(info)),
            }
            &&& same_but_for_status(after, s, relay_parent, h)
        }),
{
}

/// Once a payload was fetched it is there, and all messages that waited for it are released; if it was there
/// already, nothing is released, and it is not kept any longer. Without a request for it, or at a head that
/// is not active, that is told, and nothing is changed. In no case is anything else changed.
pub proof fn finished_fetch_releases_what_waited(
    s: StateView,
    relay_parent: BlockHash,
    h: CandidateHash,
    response: CommittedCandidateReceipt,
)
    ensures
        ({
            let after = s.after_finish(relay_parent, h, response);
            let released = s.released(relay_parent, h);
            &&& same_but_for_status(after, s, relay_parent, h)
            &&& !s.active_heads.contains_key(relay_parent) ==> after == s && released == Err::<
                Seq<PeerMessages>,
                _,
            >(JfyiError::NoSuchHead(relay_parent))
            &&& s.active_heads.contains_key(relay_parent) ==> match status_of(s, relay_parent, h) {
                None => after == s && released == Err::<Seq<PeerMessages>, _>(
                    JfyiError::NoSuchLargeStatementStatus(relay_parent, h),
                ),
                Some(StatusView::Fetching(info)) => status_of(after, relay_parent, h) == Some(
                    StatusView::FetchedOrShared(response),
                ) && released == Ok::<_, JfyiError>(info.available_peers),
                Some(StatusView::FetchedOrShared(_)) => status_of(after, relay_parent, h) is None
                    && released == Ok::<_, JfyiError>(Seq::<PeerMessages>::empty()),
            }
        }),
{
}

/// Whoever fetches a payload and wants more peers is served while it is fetched. At any other time, nothing
/// is changed.
pub proof fn demand_for_peers_is_met_while_fetching(
    s: StateView,
    relay_parent: BlockHash,
    h: CandidateHash,
    tx: oneshot::Sender<Vec<PeerId>>,
    taken: bool,
)
    ensures
        ({
            let after = s.after_request(relay_parent, h, tx, taken);
            &&& same_but_for_status(after, s, relay_parent, h)
            &&& status_of(after, relay_parent, h) == match status_of(s, relay_parent, h) {
                Some(StatusView::Fetching(info)) => Some(
                    StatusView::Fetching(info.after_request(tx, taken)),
                ),
                any => any,
            }
        }),
{
}

/// A peer gets the payload of a large statement if and only if it is connected, something is known of it
/// about the relay parent, we have told it of the candidate, the head is active and the payload is there.
/// Otherwise it is told the first of these that is not so.
pub proof fn payload_is_given_if_announced_and_there(
    s: StateView,
    peer: PeerId,
    relay_parent: BlockHash,
    h: CandidateHash,
)
    ensures
        ({
            let got = s.data_for(peer, relay_parent, h);
            let connected = s.peers.contains_key(peer);
            let seen = s.peers[peer].view_knowledge.contains_key(relay_parent);
            let announced = s.peers[peer].view_knowledge[relay_parent].sent_candidates.contains(h);
            let active = s.active_heads.contains_key(relay_parent);
            let status = status_of(s, relay_parent, h);
            &&& got matches Ok(receipt) ==> connected && seen && announced && active && status == Some(
                StatusView::FetchedOrShared(receipt),
            )
            &&& connected && seen && announced && active && status is Some
                && status->0 is FetchedOrShared ==> got == Ok::<_, JfyiError>(
                status->0->FetchedOrShared_0,
            )
            &&& got matches Err(e) ==> {
                ||| !connected && e == JfyiError::NoSuchPeer(peer)
                ||| connected && !seen && e == JfyiError::NoSuchHead(relay_parent)
                ||| connected && seen && !announced && e
                    == JfyiError::RequestedUnannouncedCandidate(peer, h)
                ||| connected && seen && announced && !active && e == JfyiError::NoSuchHead(
                    relay_parent,
                )
                ||| connected && seen && announced && active && e
                    == JfyiError::NoSuchFetchedLargeStatement(relay_parent, h)
            }
        }),
{
}

/// The payload of a statement of ours that is too large for a notification is there from now on, at an active
/// head. A statement that is not changes nothing, and neither does one that a candidate is valid.
pub proof fn large_payload_of_ours_is_there(
    s: StateView,
    relay_parent: BlockHash,
    statement: SignedFullStatement,
    limits: NetworkLimits,
)
    ensures
        ({
            let h = statement.payload.compact().candidate();
            let after = s.with_local_payload(relay_parent, statement, limits);
            &&& same_but_for_status(after, s, relay_parent, h)
            &&& statement.payload is Valid ==> after == s
            &&& statement.payload matches Statement::Seconded(receipt) ==> {
                let large = receipt_has_new_code(receipt.bytes()) || (receipt.bytes().len() + 69) as usize
                    >= limits.max_notification_size / 2;
                &&& large && s.active_heads.contains_key(relay_parent) ==> status_of(
                    after,
                    relay_parent,
                    h,
                ) == Some(StatusView::FetchedOrShared(receipt))
                &&& !large || !s.active_heads.contains_key(relay_parent) ==> after == s
            }
        }),
{
}

/// A statement of ours is noted at its head, and changes nothing else. It is fresh if and only if the head is
/// active and it is fresh there.
pub proof fn local_statement_is_noted_at_its_head(
    s: StateView,
    relay_parent: BlockHash,
    statement: SignedFullStatement,
    h: BlockHash,
)
    ensures
        ({
            let after = s.with_local_statement(relay_parent, statement);
            let active = s.active_heads.contains_key(relay_parent);
            &&& s.is_fresh(relay_parent, statement) <==> active && s.active_heads[relay_parent].denial(
                comparator(statement),
            ) is None
            &&& active ==> after.active_heads[relay_parent] == s.active_heads[relay_parent].after_note(
                statement,
            )
            &&& !active ==> after == s
            &&& after.active_heads.contains_key(h) <==> s.active_heads.contains_key(h)
            &&& h != relay_parent ==> after.active_heads[h] == s.active_heads[h]
            &&& after == (StateView { active_heads: after.active_heads, ..s })
        }),
{
    let after = s.with_local_statement(relay_parent, statement);
    assert(after =~= (StateView { active_heads: after.active_heads, ..s }));
}

/// When a statement of ours is circulated, first it goes out itself; and then, at an active head, the peers
/// that learned of the candidate by it are told what is stored about the candidate. No head and no authority
/// is changed.
pub proof fn dependents_follow_the_statement(
    s: StateView,
    c: Circulation,
    chosen: Seq<PeerId>,
    usual: usize,
    limits: NetworkLimits,
)
    ensures
        ({
            let (after, actions) = s.after_circulation(c, chosen, usual, limits);
            let (peers, sent, new) = circulated(c, chosen, usual, s.peers, limits);
            let n = sent.len() as int;
            &&& after == (StateView { peers: after.peers, ..s })
            &&& actions.len() >= n
            &&& actions.take(n) == sent
            &&& !s.active_heads.contains_key(c.relay_parent) ==> after.peers == peers && actions == sent
            &&& s.active_heads.contains_key(c.relay_parent) ==> (after.peers, actions.skip(n))
                == informing(
                peers,
                new,
                c.relay_parent,
                entries_about(
                    s.active_heads[c.relay_parent].statements,
                    c.comparator.compact.candidate(),
                ),
                limits,
            )
        }),
{
    let (after, actions) = s.after_circulation(c, chosen, usual, limits);
    let (peers, sent, new) = circulated(c, chosen, usual, s.peers, limits);
    let n = sent.len() as int;
    assert(actions.take(n) =~= sent);
    if s.active_heads.contains_key(c.relay_parent) {
        let more = informing(
            peers,
            new,
            c.relay_parent,
            entries_about(
                s.active_heads[c.relay_parent].statements,
                c.comparator.compact.candidate(),
            ),
            limits,
        ).1;
        assert(actions.skip(n) =~= more);
    }
}

/// A statement can be circulated to peers if and only if all of them, with priority or chosen, are connected
/// and have the relay parent in their view.
pub proof fn circulation_reaches_connected_peers(
    s: StateView,
    c: Circulation,
    chosen: Seq<PeerId>,
)
    ensures
        s.reaches(c, chosen) <==> forall|p: PeerId|
            #![trigger s.peers.contains_key(p)]
            c.priority_peers@.contains(p) || chosen.contains(p) ==> s.peers.contains_key(p)
                && s.peers[p].view_knowledge.contains_key(c.relay_parent),
{
    if s.reaches(c, chosen) {
        assert forall|p: PeerId|
            #![trigger s.peers.contains_key(p)]
            c.priority_peers@.contains(p) || chosen.contains(p) implies s.peers.contains_key(p)
            && s.peers[p].view_knowledge.contains_key(c.relay_parent) by {
            if c.priority_peers@.contains(p) {
                let i = choose|i: int| 0 <= i < c.priority_peers@.len() && c.priority_peers@[i] == p;
                assert(s.peers[c.priority_peers@[i]].tracks(c.relay_parent));
            } else {
                let i = choose|i: int| 0 <= i < chosen.len() && chosen[i] == p;
                assert(s.peers[chosen[i]].tracks(c.relay_parent));
            }
        }
    }
    if forall|p: PeerId|
        #![trigger s.peers.contains_key(p)]
        c.priority_peers@.contains(p) || chosen.contains(p) ==> s.peers.contains_key(p)
            && s.peers[p].view_knowledge.contains_key(c.relay_parent) {
        assert forall|i: int| 0 <= i < c.priority_peers@.len() implies s.peers.contains_key(
            #[trigger] c.priority_peers@[i],
        ) && s.peers[c.priority_peers@[i]].tracks(c.relay_parent) by {
            assert(c.priority_peers@.contains(c.priority_peers@[i]));
        }
        assert forall|i: int| 0 <= i < chosen.len() implies s.peers.contains_key(#[trigger] chosen[i])
            && s.peers[chosen[i]].tracks(c.relay_parent) by {
            assert(chosen.contains(chosen[i]));
        }
    }
}

/// Another unexpected message of a peer can be counted if and only if the peer is not connected, or the
/// message is not one of the first version, or fewer than the greatest number were counted of it at the
/// relay parent.
pub proof fn message_can_be_counted_below_the_greatest_number(
    s: StateView,
    peer: PeerId,
    message: VersionedMessage,
)
    ensures
        s.can_count(peer, message) <==> {
            ||| !s.peers.contains_key(peer)
            ||| message.plain() is None
            ||| s.peers[peer].unexpected_count(message.plain()->0.relay_parent()) < usize::MAX
        },
{
}

} // verus!
