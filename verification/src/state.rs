//! The state of statement distribution, and how it answers to events.
use crate::collections::{ListMap, ListSet, lemma_take_one_more};
use crate::distribute::{
    Circulation, GossipScope, all_reachable, circulate_statement, circulated, informing,
    plan_circulation, plans, reachable, send_dependents,
};
use crate::error::{JfyiError, ValidationDataAnswer};
use crate::fetching::{
    FetchingInfo, FetchingView, LargeStatementStatus, PeerMessages, StatusView, send_once,
};
use crate::head::{ActiveHeadData, HeadView, NotedStatement, ValidatorSet, entries_about};
use crate::ids::{
    AuthorityDiscoveryId, BlockHash, CandidateHash, Ident, PeerId, SessionIndex, ValidatorId,
    ValidatorIndex,
};
use crate::incoming::{
    AcceptedStatement, IncomingStep, PendingStatement, countable, handle_incoming_message,
    handling, resume_statement, resumption,
};
use crate::message::{
    Action, ActionView, NetworkLimits, Outbox, StatementDistributionMessage, StatementMetadata,
    ValidationVersion, VersionedMessage, wrapped,
};
use crate::outdated::{RecentOutdatedHeads, latest};
use crate::peer::{PeerData, PeerDataView, PeerView};
use crate::reputation::Rep;
use crate::session::SessionGroups;
use crate::statement::{
    CommittedCandidateReceipt, SignedFullStatement, Statement, is_statement_large, largeness,
};
use crate::stored::comparator;
use crate::views::{update_peer_view_and_maybe_send_unlocked, view_update};
use futures::channel::oneshot;
use futures::future::RemoteHandle;
use vstd::prelude::*;

verus! {

/// Overall state of the distribution of statements.
pub struct State {
    peers: ListMap<PeerId, PeerData>,
    authorities: ListMap<AuthorityDiscoveryId, PeerId>,
    active_heads: ListMap<BlockHash, ActiveHeadData>,
    recent_outdated_heads: RecentOutdatedHeads,
}

/// Overall state, as sequences and maps.
#[verifier::ext_equal]
pub struct StateView {
    pub peers: Map<PeerId, PeerDataView>,
    pub authorities: Map<AuthorityDiscoveryId, PeerId>,
    pub active_heads: Map<BlockHash, HeadView>,
    pub recent_outdated_heads: Seq<BlockHash>,
}

/// An update of the network.
pub enum NetworkUpdate {
    /// A peer has connected, with the version of the protocol that it speaks, if it is a known one, and
    /// the authorities that it may be known as.
    PeerConnected(PeerId, Option<ValidationVersion>, Option<ListSet<AuthorityDiscoveryId>>),
    /// A peer has disconnected.
    PeerDisconnected(PeerId),
    /// The topology has changed. These peers are new in it; each one is lucky or not.
    NewGossipTopology(Vec<(PeerId, bool)>),
    /// A peer has sent a message.
    PeerMessage(PeerId, VersionedMessage),
    /// The view of a peer has changed. The peer is lucky or not.
    PeerViewChange(PeerId, PeerView, bool),
    /// Our own view has changed.
    OurViewChange,
    /// The authorities that a peer is known as have changed.
    UpdatedAuthorityIds(PeerId, ListSet<AuthorityDiscoveryId>),
}

/// What a set of authorities holds, if there is one.
pub open spec fn held(ids: Option<ListSet<AuthorityDiscoveryId>>) -> Option<Set<AuthorityDiscoveryId>> {
    match ids {
        Some(set) => Some(set@),
        None => None,
    }
}

/// Which peers authorities are, once all authorities of a set turned out to be one peer.
pub open spec fn assigned(
    authorities: Map<AuthorityDiscoveryId, PeerId>,
    ids: Set<AuthorityDiscoveryId>,
    peer: PeerId,
) -> Map<AuthorityDiscoveryId, PeerId> {
    Map::new(
        |a: AuthorityDiscoveryId| authorities.contains_key(a) || ids.contains(a),
        |a: AuthorityDiscoveryId|
            if ids.contains(a) {
                peer
            } else {
                authorities[a]
            },
    )
}

impl StateView {
    /// Nothing is known yet.
    pub open spec fn blank() -> StateView {
        StateView {
            peers: Map::empty(),
            authorities: Map::empty(),
            active_heads: Map::empty(),
            recent_outdated_heads: Seq::empty(),
        }
    }

    /// The state once a head is active.
    pub open spec fn with_leaf(self, head: BlockHash, data: HeadView) -> StateView {
        StateView {
            active_heads: if self.active_heads.contains_key(head) {
                self.active_heads
            } else {
                self.active_heads.insert(head, data)
            },
            ..self
        }
    }

    /// The state once a head is not active any more.
    pub open spec fn without_leaf(self, head: BlockHash) -> StateView {
        if self.active_heads.contains_key(head) {
            StateView {
                active_heads: self.active_heads.remove(head),
                recent_outdated_heads: latest(self.recent_outdated_heads.push(head)),
                ..self
            }
        } else {
            self
        }
    }

    /// The state once a peer has connected. A peer with an unknown version of the protocol is ignored.
    pub open spec fn with_peer(
        self,
        peer: PeerId,
        protocol_version: Option<ValidationVersion>,
        maybe_authority: Option<Set<AuthorityDiscoveryId>>,
    ) -> StateView {
        match protocol_version {
            None => self,
            Some(version) => StateView {
                peers: self.peers.insert(peer, PeerDataView::connected(version, maybe_authority)),
                authorities: match maybe_authority {
                    Some(ids) => assigned(self.authorities, ids, peer),
                    None => self.authorities,
                },
                ..self
            },
        }
    }

    /// The state once a peer has disconnected.
    pub open spec fn without_peer(self, peer: PeerId) -> StateView {
        if self.peers.contains_key(peer) {
            StateView {
                peers: self.peers.remove(peer),
                authorities: match self.peers[peer].maybe_authority {
                    Some(ids) => self.authorities.remove_keys(ids),
                    None => self.authorities,
                },
                ..self
            }
        } else {
            self
        }
    }

    /// The state once the authorities that a peer is known as have changed.
    pub open spec fn with_authority_ids(self, peer: PeerId, ids: Set<AuthorityDiscoveryId>) -> StateView {
        StateView {
            authorities: Map::new(
                |a: AuthorityDiscoveryId|
                    ids.contains(a) || self.authorities.contains_key(a) && self.authorities[a] != peer,
                |a: AuthorityDiscoveryId|
                    if ids.contains(a) {
                        peer
                    } else {
                        self.authorities[a]
                    },
            ),
            peers: if self.peers.contains_key(peer) {
                self.peers.insert(
                    peer,
                    PeerDataView { maybe_authority: Some(ids), ..self.peers[peer] },
                )
            } else {
                self.peers
            },
            ..self
        }
    }

    /// What follows once the view of a peer has changed: the state afterwards, and what is done.
    pub open spec fn with_view_change(
        self,
        peer: PeerId,
        view: Seq<BlockHash>,
        lucky: bool,
        limits: NetworkLimits,
    ) -> (StateView, Seq<ActionView>) {
        if self.peers.contains_key(peer) {
            let (data, actions) = view_update(
                peer,
                self.peers[peer],
                self.active_heads,
                view,
                lucky,
                limits,
            );
            (StateView { peers: self.peers.insert(peer, data), ..self }, actions)
        } else {
            (self, seq![])
        }
    }

    /// What follows once a peer is new in the topology: all heads in its view count as new ones.
    pub open spec fn with_refresh(self, peer: PeerId, lucky: bool, limits: NetworkLimits) -> (
        StateView,
        Seq<ActionView>,
    ) {
        if self.peers.contains_key(peer) {
            let (data, actions) = view_update(
                peer,
                PeerDataView { view: Seq::empty(), ..self.peers[peer] },
                self.active_heads,
                self.peers[peer].view,
                lucky,
                limits,
            );
            (StateView { peers: self.peers.insert(peer, data), ..self }, actions)
        } else {
            (self, seq![])
        }
    }

    /// What follows once peers are new in the topology, one after the other.
    pub open spec fn with_refreshes(self, s: Seq<(PeerId, bool)>, limits: NetworkLimits) -> (
        StateView,
        Seq<ActionView>,
    )
        decreases s.len(),
    {
        if s.len() == 0 {
            (self, seq![])
        } else {
            let (before, done) = self.with_refreshes(s.drop_last(), limits);
            let (after, actions) = before.with_refresh(s.last().0, s.last().1, limits);
            (after, done + actions)
        }
    }

    /// Whether one more unexpected message of a peer can be counted, if that is what a message is.
    pub open spec fn can_count(self, peer: PeerId, message: VersionedMessage) -> bool {
        self.peers.contains_key(peer) ==> countable(self.peers[peer], message)
    }

    /// What follows from a message: the state afterwards, how the handling goes on, and what is done.
    /// `released` says whether the message has waited for a payload and is handled once more.
    pub open spec fn after_message(
        self,
        peer: PeerId,
        message: VersionedMessage,
        released: bool,
        limits: NetworkLimits,
        taken: bool,
    ) -> (StateView, IncomingStep, Seq<ActionView>) {
        if self.peers.contains_key(peer) {
            let outcome = handling(
                peer,
                self.peers[peer],
                self.active_heads,
                self.recent_outdated_heads,
                message,
                released,
                limits,
                taken,
            );
            (
                StateView {
                    peers: self.peers.insert(peer, outcome.data),
                    active_heads: outcome.heads,
                    ..self
                },
                outcome.step,
                outcome.actions,
            )
        } else {
            (self, IncomingStep::Done, seq![])
        }
    }

    /// What follows from an update of the network: the state afterwards, how the handling goes on, and
    /// what is done.
    pub open spec fn after_update(self, update: NetworkUpdate, limits: NetworkLimits, taken: bool) -> (
        StateView,
        IncomingStep,
        Seq<ActionView>,
    ) {
        match update {
            NetworkUpdate::PeerConnected(peer, version, maybe_authority) => (
                self.with_peer(peer, version, held(maybe_authority)),
                IncomingStep::Done,
                seq![],
            ),
            NetworkUpdate::PeerDisconnected(peer) => (
                self.without_peer(peer),
                IncomingStep::Done,
                seq![],
            ),
            NetworkUpdate::NewGossipTopology(newly_added) => {
                let (state, actions) = self.with_refreshes(newly_added@, limits);
                (state, IncomingStep::Done, actions)
            },
            NetworkUpdate::PeerMessage(peer, message) => self.after_message(
                peer,
                message,
                false,
                limits,
                taken,
            ),
            NetworkUpdate::PeerViewChange(peer, view, lucky) => {
                let (state, actions) = self.with_view_change(peer, view@, lucky, limits);
                (state, IncomingStep::Done, actions)
            },
            NetworkUpdate::OurViewChange => (self, IncomingStep::Done, seq![]),
            NetworkUpdate::UpdatedAuthorityIds(peer, ids) => (
                self.with_authority_ids(peer, ids@),
                IncomingStep::Done,
                seq![],
            ),
        }
    }

    /// What follows once the runtime was asked for validation data.
    pub open spec fn after_fetch<E>(
        self,
        pending: PendingStatement,
        answer: ValidationDataAnswer<E>,
    ) -> (StateView, IncomingStep, Seq<ActionView>) {
        if self.active_heads.contains_key(pending.relay_parent) {
            let outcome = resumption(self.active_heads[pending.relay_parent], pending, answer);
            (
                StateView {
                    active_heads: self.active_heads.insert(pending.relay_parent, outcome.head),
                    ..self
                },
                outcome.step,
                outcome.actions,
            )
        } else {
            (self, IncomingStep::Done, seq![])
        }
    }

    /// The state once a large statement is being fetched. One that is known of already stays as it is.
    pub open spec fn with_request(self, metadata: StatementMetadata, info: FetchingView) -> StateView {
        let relay_parent = metadata.relay_parent;
        let h = metadata.candidate_hash;
        if self.active_heads.contains_key(relay_parent)
            && !self.active_heads[relay_parent].waiting_large_statements.contains_key(h) {
            StateView {
                active_heads: self.active_heads.insert(
                    relay_parent,
                    self.active_heads[relay_parent].with_status(h, StatusView::Fetching(info)),
                ),
                ..self
            }
        } else {
            self
        }
    }

    /// The payload of a large statement for a peer, or why the peer does not get it.
    pub open spec fn data_for(
        self,
        requesting_peer: PeerId,
        relay_parent: BlockHash,
        candidate_hash: CandidateHash,
    ) -> Result<CommittedCandidateReceipt, JfyiError> {
        match knowledge_of_candidate(self.peers, requesting_peer, relay_parent, candidate_hash) {
            Err(e) => Err(e),
            Ok(false) => Err(
                JfyiError::RequestedUnannouncedCandidate(requesting_peer, candidate_hash),
            ),
            Ok(true) => {
                if !self.active_heads.contains_key(relay_parent) {
                    Err(JfyiError::NoSuchHead(relay_parent))
                } else {
                    match self.large_status(relay_parent, candidate_hash) {
                        Some(StatusView::FetchedOrShared(committed)) => Ok(committed),
                        _ => Err(
                            JfyiError::NoSuchFetchedLargeStatement(relay_parent, candidate_hash),
                        ),
                    }
                }
            },
        }
    }

    /// The status of a large statement at an active head.
    pub open spec fn large_status(self, relay_parent: BlockHash, candidate_hash: CandidateHash) -> Option<
        StatusView,
    > {
        let waiting = self.active_heads[relay_parent].waiting_large_statements;
        if waiting.contains_key(candidate_hash) {
            Some(waiting[candidate_hash])
        } else {
            None
        }
    }

    /// The messages that wait for the payload of a large statement, by peer, or why none can.
    pub open spec fn released(self, relay_parent: BlockHash, candidate_hash: CandidateHash) -> Result<
        Seq<PeerMessages>,
        JfyiError,
    > {
        if !self.active_heads.contains_key(relay_parent) {
            Err(JfyiError::NoSuchHead(relay_parent))
        } else {
            match self.large_status(relay_parent, candidate_hash) {
                Some(StatusView::Fetching(info)) => Ok(info.available_peers),
                Some(StatusView::FetchedOrShared(_)) => Ok(seq![]),
                None => Err(JfyiError::NoSuchLargeStatementStatus(relay_parent, candidate_hash)),
            }
        }
    }

    /// The state once the payload of a large statement was fetched. A payload that was there already
    /// is dropped.
    pub open spec fn after_finish(
        self,
        relay_parent: BlockHash,
        candidate_hash: CandidateHash,
        response: CommittedCandidateReceipt,
    ) -> StateView {
        let head = self.active_heads[relay_parent];
        if !self.active_heads.contains_key(relay_parent) {
            self
        } else {
            match self.large_status(relay_parent, candidate_hash) {
                Some(StatusView::Fetching(_)) => StateView {
                    active_heads: self.active_heads.insert(
                        relay_parent,
                        head.with_status(candidate_hash, StatusView::FetchedOrShared(response)),
                    ),
                    ..self
                },
                Some(StatusView::FetchedOrShared(_)) => StateView {
                    active_heads: self.active_heads.insert(
                        relay_parent,
                        HeadView {
                            waiting_large_statements: head.waiting_large_statements.remove(
                                candidate_hash,
                            ),
                            ..head
                        },
                    ),
                    ..self
                },
                None => self,
            }
        }
    }

    /// The state once the task that fetches a large statement has asked for more peers.
    pub open spec fn after_request(
        self,
        relay_parent: BlockHash,
        candidate_hash: CandidateHash,
        tx: oneshot::Sender<Vec<PeerId>>,
        taken: bool,
    ) -> StateView {
        match self.large_status(relay_parent, candidate_hash) {
            Some(StatusView::Fetching(info)) if self.active_heads.contains_key(relay_parent) => StateView {
                active_heads: self.active_heads.insert(
                    relay_parent,
                    self.active_heads[relay_parent].with_status(
                        candidate_hash,
                        StatusView::Fetching(info.after_request(tx, taken)),
                    ),
                ),
                ..self
            },
            _ => self,
        }
    }

    /// Whether all peers that a statement goes to are connected and have the relay parent in their view.
    pub open spec fn reaches(self, c: Circulation, chosen: Seq<PeerId>) -> bool {
        reachable(self.peers, c.priority_peers@, c.relay_parent) && reachable(
            self.peers,
            chosen,
            c.relay_parent,
        )
    }

    /// What follows once a statement of ours was circulated: the state afterwards, and what is done.
    pub open spec fn after_circulation(
        self,
        c: Circulation,
        chosen: Seq<PeerId>,
        usual: usize,
        limits: NetworkLimits,
    ) -> (StateView, Seq<ActionView>) {
        let (peers, actions, newcomers) = circulated(c, chosen, usual, self.peers, limits);
        if self.active_heads.contains_key(c.relay_parent) {
            let (informed, sent) = informing(
                peers,
                newcomers,
                c.relay_parent,
                entries_about(
                    self.active_heads[c.relay_parent].statements,
                    c.comparator.compact.candidate(),
                ),
                limits,
            );
            (StateView { peers: informed, ..self }, actions + sent)
        } else {
            (StateView { peers, ..self }, actions)
        }
    }

    /// The state once the payload of a statement of ours is there, if it is too large for a
    /// notification.
    pub open spec fn with_local_payload(
        self,
        relay_parent: BlockHash,
        statement: SignedFullStatement,
        limits: NetworkLimits,
    ) -> StateView {
        if largeness(statement, limits.max_notification_size).0 && self.active_heads.contains_key(
            relay_parent,
        ) {
            StateView {
                active_heads: self.active_heads.insert(
                    relay_parent,
                    self.active_heads[relay_parent].with_status(
                        statement.payload.compact().candidate(),
                        StatusView::FetchedOrShared(statement.payload->Seconded_0),
                    ),
                ),
                ..self
            }
        } else {
            self
        }
    }

    /// Whether a statement of ours is useful and new.
    pub open spec fn is_fresh(self, relay_parent: BlockHash, statement: SignedFullStatement) -> bool {
        self.active_heads.contains_key(relay_parent) && self.active_heads[relay_parent].denial(
            comparator(statement),
        ) is None
    }

    /// The state once a statement of ours was noted.
    pub open spec fn with_local_statement(
        self,
        relay_parent: BlockHash,
        statement: SignedFullStatement,
    ) -> StateView {
        if self.active_heads.contains_key(relay_parent) {
            StateView {
                active_heads: self.active_heads.insert(
                    relay_parent,
                    self.active_heads[relay_parent].after_note(statement),
                ),
                ..self
            }
        } else {
            self
        }
    }
}

impl View for State {
    type V = StateView;

    closed spec fn view(&self) -> StateView {
        StateView {
            peers: self.peers@,
            authorities: self.authorities@,
            active_heads: self.active_heads@,
            recent_outdated_heads: self.recent_outdated_heads@,
        }
    }
}

impl State {
    /// Create a new state.
    pub fn new() -> (r: Self)
        ensures
            r@ == StateView::blank(),
    {
        State {
            peers: ListMap::new(),
            authorities: ListMap::new(),
            active_heads: ListMap::new(),
            recent_outdated_heads: RecentOutdatedHeads::new(),
        }
    }

    /// Query whether the state contains some relay-parent.
    pub fn contains_relay_parent(&self, relay_parent: &BlockHash) -> (r: bool)
        ensures
            r == self@.active_heads.contains_key(*relay_parent),
    {
        self.active_heads.contains_key(relay_parent)
    }

    /// The session of the child of an active head.
    pub fn session_index(&self, relay_parent: &BlockHash) -> (r: Option<SessionIndex>)
        ensures
            r == if self@.active_heads.contains_key(*relay_parent) {
                Some(self@.active_heads[*relay_parent].session_index)
            } else {
                None
            },
    {
        match self.active_heads.get(relay_parent) {
            Some(active_head) => Some(active_head.session_index()),
            None => None,
        }
    }

    /// The key of a validator at an active head.
    pub fn validator(&self, relay_parent: &BlockHash, index: ValidatorIndex) -> (r: Option<ValidatorId>)
        ensures
            r == if self@.active_heads.contains_key(*relay_parent) && index.0
                < self@.active_heads[*relay_parent].validators.len() {
                Some(self@.active_heads[*relay_parent].validators[index.0 as int])
            } else {
                None
            },
    {
        match self.active_heads.get(relay_parent) {
            Some(active_head) => active_head.validator(index),
            None => None,
        }
    }

    /// Handle a deactivated leaf.
    pub fn handle_deactivate_leaf(&mut self, deactivated: BlockHash)
        ensures
            final(self)@ == old(self)@.without_leaf(deactivated),
    {
        if self.active_heads.remove(&deactivated).is_some() {
            self.recent_outdated_heads.note_outdated(deactivated);
        }
        assert(self@ =~= old(self)@.without_leaf(deactivated));
    }

    /// Handle a new activated leaf, with the parachain validators at the child of the head and their
    /// session. A head that is active already keeps what is known at it.
    pub fn handle_activated_leaf(
        &mut self,
        relay_parent: BlockHash,
        validators: ValidatorSet,
        session_index: SessionIndex,
    )
        ensures
            final(self)@ == old(self)@.with_leaf(
                relay_parent,
                HeadView::blank(validators@, session_index),
            ),
    {
        if !self.active_heads.contains_key(&relay_parent) {
            self.active_heads.insert(relay_parent, ActiveHeadData::new(validators, session_index));
        }
    }

    /// Makes all authorities of a set one peer.
    fn assign_authorities(&mut self, ids: &ListSet<AuthorityDiscoveryId>, peer: PeerId)
        ensures
            final(self)@ == (StateView {
                authorities: assigned(old(self)@.authorities, ids@, peer),
                ..old(self)@
            }),
    {
        let ghost before = self.authorities@;
        let ghost items = ids.items();
        let total: usize = ids.len();
        let mut i: usize = 0;
        while i < total
            invariant
                i <= total,
                total == items.len(),
                items == ids.items(),
                self.authorities@ == assigned(before, items.take(i as int).to_set(), peer),
                self.peers == old(self).peers,
                self.active_heads == old(self).active_heads,
                self.recent_outdated_heads == old(self).recent_outdated_heads,
            decreases total - i,
        {
            proof {
                lemma_take_one_more(items, i as int);
            }
            self.authorities.insert(ids.at(i), peer);
            i = i + 1;
            assert(self.authorities@ =~= assigned(before, items.take(i as int).to_set(), peer));
        }
        assert(items.take(i as int) =~= items);
        assert(items.to_set() =~= ids@);
    }

    /// A peer has connected, which may be known as authorities. One whose version of the protocol is
    /// unknown is ignored.
    pub fn peer_connected(
        &mut self,
        peer: PeerId,
        protocol_version: Option<ValidationVersion>,
        maybe_authority: Option<ListSet<AuthorityDiscoveryId>>,
    )
        ensures
            final(self)@ == old(self)@.with_peer(peer, protocol_version, held(maybe_authority)),
    {
        let version = match protocol_version {
            Some(v) => v,
            None => return,
        };
        if let Some(ids) = &maybe_authority {
            self.assign_authorities(ids, peer);
        }
        self.peers.insert(peer, PeerData::new(version, maybe_authority));
    }

    /// A peer has disconnected.
    pub fn peer_disconnected(&mut self, peer: &PeerId)
        ensures
            final(self)@ == old(self)@.without_peer(*peer),
    {
        let ghost before = self.authorities@;
        if let Some(data) = self.peers.remove(peer) {
            if let Some(ids) = data.into_authority() {
                let ghost items = ids.items();
                let total: usize = ids.len();
                let mut i: usize = 0;
                while i < total
                    invariant
                        i <= total,
                        total == items.len(),
                        items == ids.items(),
                        self.authorities@ == before.remove_keys(items.take(i as int).to_set()),
                        self.peers@ == old(self).peers@.remove(*peer),
                        self.active_heads == old(self).active_heads,
                        self.recent_outdated_heads == old(self).recent_outdated_heads,
                    decreases total - i,
                {
                    proof {
                        lemma_take_one_more(items, i as int);
                    }
                    let _ = self.authorities.remove(&ids.at(i));
                    i = i + 1;
                    assert(self.authorities@ =~= before.remove_keys(items.take(i as int).to_set()));
                }
                assert(items.take(i as int) =~= items);
                assert(items.to_set() =~= ids@);
            }
        }
        assert(self@ =~= old(self)@.without_peer(*peer));
    }

    /// Drops the authorities that are a peer and are not in a set.
    fn retain_authorities(&mut self, peer: PeerId, ids: &ListSet<AuthorityDiscoveryId>)
        ensures
            final(self)@ == (StateView {
                authorities: old(self)@.authorities.remove_keys(
                    Set::new(
                        |a: AuthorityDiscoveryId| old(self)@.authorities[a] == peer && !ids@.contains(a),
                    ),
                ),
                ..old(self)@
            }),
    {
        let ghost before = self.authorities@;
        let ghost keys = self.authorities.keys();
        let total: usize = self.authorities.len();
        let mut kept: ListMap<AuthorityDiscoveryId, PeerId> = ListMap::new();
        let mut i: usize = 0;
        while i < total
            invariant
                i <= total,
                total == keys.len(),
                keys == self.authorities.keys(),
                before == self.authorities@,
                *self == *old(self),
                forall|a: AuthorityDiscoveryId|
                    #[trigger] kept@.contains_key(a) <==> keys.take(i as int).to_set().contains(a)
                        && !(before[a] == peer && !ids@.contains(a)),
                forall|a: AuthorityDiscoveryId| #[trigger]
                    kept@.contains_key(a) ==> kept@[a] == before[a],
            decreases total - i,
        {
            proof {
                lemma_take_one_more(keys, i as int);
            }
            let (a, p) = self.authorities.at(i);
            if !p.same(&peer) || ids.contains(&a) {
                kept.insert(a, *p);
            }
            i = i + 1;
        }
        assert(keys.take(i as int) =~= keys);
        assert(forall|a: AuthorityDiscoveryId| keys.to_set().contains(a) <==> keys.contains(a));
        self.authorities = kept;
        assert(self@.authorities =~= before.remove_keys(
            Set::new(|a: AuthorityDiscoveryId| before[a] == peer && !ids@.contains(a)),
        ));
    }

    /// The authorities that a peer is known as have changed.
    pub fn updated_authority_ids(&mut self, peer: PeerId, ids: ListSet<AuthorityDiscoveryId>)
        ensures
            final(self)@ == old(self)@.with_authority_ids(peer, ids@),
    {
        // Remove the authority IDs which were previously mapped to the peer
        // but aren't part of the new set.
        self.retain_authorities(peer, &ids);
        // Map the new authority IDs to the peer.
        self.assign_authorities(&ids, peer);
        if let Some(data) = self.peers.get_mut(&peer) {
            data.set_authority(ids);
        }
        assert(self@ =~= old(self)@.with_authority_ids(peer, ids@));
    }

    /// The view of a peer has changed.
    pub fn peer_view_change(
        &mut self,
        peer: PeerId,
        view: PeerView,
        lucky: bool,
        limits: NetworkLimits,
        outbox: &mut Outbox,
    )
        ensures
            final(self)@ == old(self)@.with_view_change(peer, view@, lucky, limits).0,
            final(outbox)@ == old(outbox)@ + old(self)@.with_view_change(peer, view@, lucky, limits).1,
    {
        if let Some(data) = self.peers.get_mut(&peer) {
            update_peer_view_and_maybe_send_unlocked(
                peer,
                data,
                &self.active_heads,
                view,
                lucky,
                limits,
                outbox,
            );
        }
    }

    /// A peer is new in the topology.
    fn refresh_peer(&mut self, peer: PeerId, lucky: bool, limits: NetworkLimits, outbox: &mut Outbox)
        ensures
            final(self)@ == old(self)@.with_refresh(peer, lucky, limits).0,
            final(outbox)@ == old(outbox)@ + old(self)@.with_refresh(peer, lucky, limits).1,
    {
        if let Some(data) = self.peers.get_mut(&peer) {
            let view = data.take_view();
            update_peer_view_and_maybe_send_unlocked(
                peer,
                data,
                &self.active_heads,
                view,
                lucky,
                limits,
                outbox,
            );
        }
    }

    /// The topology has changed: `newly_added` are the peers that are new in it, and whether each one
    /// is lucky.
    pub fn new_gossip_topology(
        &mut self,
        newly_added: &Vec<(PeerId, bool)>,
        limits: NetworkLimits,
        outbox: &mut Outbox,
    )
        ensures
            final(self)@ == old(self)@.with_refreshes(newly_added@, limits).0,
            final(outbox)@ == old(outbox)@ + old(self)@.with_refreshes(newly_added@, limits).1,
    {
        let mut i: usize = 0;
        assert(outbox@ =~= old(outbox)@ + old(self)@.with_refreshes(newly_added@.take(0), limits).1);
        while i < newly_added.len()
            invariant
                i <= newly_added@.len(),
                self@ == old(self)@.with_refreshes(newly_added@.take(i as int), limits).0,
                outbox@ == old(outbox)@ + old(self)@.with_refreshes(
                    newly_added@.take(i as int),
                    limits,
                ).1,
            decreases newly_added@.len() - i,
        {
            proof {
                lemma_take_one_more(newly_added@, i as int);
            }
            let (peer, lucky) = newly_added[i];
            self.refresh_peer(peer, lucky, limits, outbox);
            i = i + 1;
            assert(outbox@ =~= old(outbox)@ + old(self)@.with_refreshes(
                newly_added@.take(i as int),
                limits,
            ).1);
        }
        assert(newly_added@.take(i as int) =~= newly_added@);
    }

    /// Handles a message that has just come, or one that is released after it has waited.
    fn handle_message(
        &mut self,
        peer: PeerId,
        message: VersionedMessage,
        released: bool,
        limits: NetworkLimits,
        outbox: &mut Outbox,
    ) -> (r: IncomingStep)
        requires
            old(self)@.can_count(peer, message),
        ensures
            exists|taken: bool|
                ({
                    let (state, step, actions) = #[trigger] old(self)@.after_message(
                        peer,
                        message,
                        released,
                        limits,
                        taken,
                    );
                    &&& r == step
                    &&& final(self)@ == state
                    &&& final(outbox)@ == old(outbox)@ + actions
                }),
    {
        let ghost before = self@;
        match self.peers.get_mut(&peer) {
            Some(data) => {
                let ghost known = data@;
                let step = handle_incoming_message(
                    peer,
                    data,
                    &mut self.active_heads,
                    &self.recent_outdated_heads,
                    message,
                    released,
                    limits,
                    outbox,
                );
                proof {
                    let taken = choose|taken: bool|
                        ({
                            let outcome = #[trigger] handling(
                                peer,
                                known,
                                before.active_heads,
                                before.recent_outdated_heads,
                                message,
                                released,
                                limits,
                                taken,
                            );
                            &&& step == outcome.step
                            &&& data@ == outcome.data
                            &&& self.active_heads@ == outcome.heads
                            &&& outbox@ == old(outbox)@ + outcome.actions
                        });
                    let (state, next, actions) = before.after_message(peer, message, released, limits, taken);
                    assert(step == next);
                }
                step
            },
            None => {
                assert(before.after_message(peer, message, released, limits, true).0 == before);
                IncomingStep::Done
            },
        }
    }

    /// Handle incoming message. A statement that is accepted is to be circulated.
    ///
    /// Messages of peers that are not connected are ignored.
    pub fn handle_incoming(
        &mut self,
        peer: PeerId,
        message: VersionedMessage,
        limits: NetworkLimits,
        outbox: &mut Outbox,
    ) -> (r: IncomingStep)
        requires
            old(self)@.can_count(peer, message),
        ensures
            exists|taken: bool|
                ({
                    let (state, step, actions) = #[trigger] old(self)@.after_message(
                        peer,
                        message,
                        false,
                        limits,
                        taken,
                    );
                    &&& r == step
                    &&& final(self)@ == state
                    &&& final(outbox)@ == old(outbox)@ + actions
                }),
    {
        self.handle_message(peer, message, false, limits, outbox)
    }

    /// Handle once more a message that has waited for the payload of a large statement, which is there now.
    /// It was counted as a large statement when it came, and is not counted again.
    pub fn handle_released(
        &mut self,
        peer: PeerId,
        message: VersionedMessage,
        limits: NetworkLimits,
        outbox: &mut Outbox,
    ) -> (r: IncomingStep)
        requires
            old(self)@.can_count(peer, message),
        ensures
            exists|taken: bool|
                ({
                    let (state, step, actions) = #[trigger] old(self)@.after_message(
                        peer,
                        message,
                        true,
                        limits,
                        taken,
                    );
                    &&& r == step
                    &&& final(self)@ == state
                    &&& final(outbox)@ == old(outbox)@ + actions
                }),
    {
        self.handle_message(peer, message, true, limits, outbox)
    }

    /// Handle an update of the network. A statement that is accepted is to be circulated.
    pub fn handle_network_update(
        &mut self,
        update: NetworkUpdate,
        limits: NetworkLimits,
        outbox: &mut Outbox,
    ) -> (r: IncomingStep)
        requires
            update matches NetworkUpdate::PeerMessage(peer, message) ==> old(self)@.can_count(
                peer,
                message,
            ),
        ensures
            exists|taken: bool|
                ({
                    let (state, step, actions) = #[trigger] old(self)@.after_update(
                        update,
                        limits,
                        taken,
                    );
                    &&& r == step
                    &&& final(self)@ == state
                    &&& final(outbox)@ == old(outbox)@ + actions
                }),
    {
        let ghost before = self@;
        let ghost event = update;
        let ghost held_back = outbox@;
        match update {
            NetworkUpdate::PeerMessage(peer, message) => {
                let step = self.handle_incoming(peer, message, limits, outbox);
                proof {
                    let taken = choose|taken: bool|
                        ({
                            let (state, next, actions) = #[trigger] before.after_message(
                                peer,
                                message,
                                false,
                                limits,
                                taken,
                            );
                            &&& step == next
                            &&& self@ == state
                            &&& outbox@ == held_back + actions
                        });
                    assert(before.after_update(event, limits, taken) == before.after_message(
                        peer,
                        message,
                        false,
                        limits,
                        taken,
                    ));
                }
                return step;
            },
            NetworkUpdate::PeerConnected(peer, version, maybe_authority) => {
                self.peer_connected(peer, version, maybe_authority);
            },
            NetworkUpdate::PeerDisconnected(peer) => {
                self.peer_disconnected(&peer);
            },
            NetworkUpdate::NewGossipTopology(newly_added) => {
                self.new_gossip_topology(&newly_added, limits, outbox);
            },
            NetworkUpdate::PeerViewChange(peer, view, lucky) => {
                self.peer_view_change(peer, view, lucky, limits, outbox);
            },
            NetworkUpdate::OurViewChange => {
                // handled when leaves are activated and deactivated
            },
            NetworkUpdate::UpdatedAuthorityIds(peer, ids) => {
                self.updated_authority_ids(peer, ids);
            },
        }
        proof {
            let (state, step, actions) = before.after_update(event, limits, true);
            assert(self@ == state);
            assert(outbox@ =~= held_back + actions);
        }
        IncomingStep::Done
    }

    /// Whether one more unexpected message of a peer can be counted, if that is what a message is.
    pub fn can_count_message(&self, peer: &PeerId, message: &VersionedMessage) -> (r: bool)
        ensures
            r == self@.can_count(*peer, *message),
    {
        match (self.peers.get(peer), message.clone().into_v1()) {
            (Some(data), Some(m)) => data.unexpected_count(&m.get_relay_parent()) < usize::MAX,
            _ => true,
        }
    }

    /// The runtime was asked for the validation data that a statement waits for.
    pub fn validation_data_fetched<E>(
        &mut self,
        pending: PendingStatement,
        answer: ValidationDataAnswer<E>,
        outbox: &mut Outbox,
    ) -> (r: IncomingStep)
        ensures
            ({
                let (state, step, actions) = old(self)@.after_fetch(pending, answer);
                &&& r == step
                &&& final(self)@ == state
                &&& final(outbox)@ == old(outbox)@ + actions
            }),
    {
        match self.active_heads.get_mut(&pending.relay_parent) {
            Some(active_head) => resume_statement(active_head, pending, answer, outbox),
            None => IncomingStep::Done,
        }
    }

    /// The request for the payload of a large statement was launched.
    pub fn request_launched(
        &mut self,
        peer: PeerId,
        peer_version: ValidationVersion,
        metadata: StatementMetadata,
        fetching_task: RemoteHandle<()>,
    )
        ensures
            final(self)@ == old(self)@.with_request(
                metadata,
                FetchingView::launched(
                    peer,
                    wrapped(peer_version, StatementDistributionMessage::LargeStatement(metadata)),
                    fetching_task,
                ),
            ),
    {
        if let Some(active_head) = self.active_heads.get_mut(&metadata.relay_parent) {
            let ghost heads = old(self)@.active_heads;
            assert(heads.insert(metadata.relay_parent, heads[metadata.relay_parent]) =~= heads);
            if active_head.large_statement(&metadata.candidate_hash).is_none() {
                active_head.set_large_statement(
                    metadata.candidate_hash,
                    LargeStatementStatus::Fetching(
                        FetchingInfo::launched(peer, peer_version, metadata, fetching_task),
                    ),
                );
            }
        }
    }

    /// The payload of a large statement, for a peer that we told of the candidate.
    pub fn get_data(
        &self,
        requesting_peer: PeerId,
        relay_parent: BlockHash,
        candidate_hash: CandidateHash,
    ) -> (r: Result<CommittedCandidateReceipt, JfyiError>)
        ensures
            r == self@.data_for(requesting_peer, relay_parent, candidate_hash),
    {
        match requesting_peer_knows_about_candidate(
            &self.peers,
            &requesting_peer,
            &relay_parent,
            &candidate_hash,
        ) {
            Err(e) => return Err(e),
            Ok(false) => {
                return Err(JfyiError::RequestedUnannouncedCandidate(requesting_peer, candidate_hash));
            },
            Ok(true) => {},
        }
        match self.active_heads.get(&relay_parent) {
            None => Err(JfyiError::NoSuchHead(relay_parent)),
            Some(active_head) => match active_head.large_statement(&candidate_hash) {
                Some(LargeStatementStatus::FetchedOrShared(committed)) => Ok(committed.clone()),
                _ => Err(JfyiError::NoSuchFetchedLargeStatement(relay_parent, candidate_hash)),
            },
        }
    }

    /// Handle a message from the responder background task, which wants the payload of a large
    /// statement for a peer.
    ///
    /// The payload is what `get_data` gives. Whether the task still waits for it is not known here.
    pub fn handle_responder_message(
        &self,
        requesting_peer: PeerId,
        relay_parent: BlockHash,
        candidate_hash: CandidateHash,
        tx: oneshot::Sender<CommittedCandidateReceipt>,
    ) -> (r: Result<(), JfyiError>)
        ensures
            match self@.data_for(requesting_peer, relay_parent, candidate_hash) {
                Err(e) => r == Err::<(), JfyiError>(e),
                Ok(_) => r is Ok || r == Err::<(), JfyiError>(JfyiError::ResponderGetDataCanceled),
            },
    {
        match self.get_data(requesting_peer, relay_parent, candidate_hash) {
            Err(e) => Err(e),
            Ok(committed) => settle_response(send_once(tx, committed)),
        }
    }

    /// The payload of a large statement was fetched from a peer, after others had failed.
    ///
    /// Gives the messages that waited for it, by peer, in the order in which the peers first wrote.
    /// They are to be handled now, by `handle_released`.
    pub fn fetch_finished(
        &mut self,
        relay_parent: BlockHash,
        candidate_hash: CandidateHash,
        from_peer: PeerId,
        response: CommittedCandidateReceipt,
        bad_peers: Vec<PeerId>,
        outbox: &mut Outbox,
    ) -> (r: Result<Vec<(PeerId, Vec<VersionedMessage>)>, JfyiError>)
        ensures
            final(self)@ == old(self)@.after_finish(relay_parent, candidate_hash, response),
            final(outbox)@ == old(outbox)@ + verdicts(bad_peers@, from_peer),
            final(outbox)@.len() == old(outbox)@.len() + bad_peers@.len() + 1,
            forall|i: int|
                0 <= i < bad_peers@.len() ==> final(outbox)@[old(outbox)@.len() + i]
                    == ActionView::ModifyReputation(#[trigger] bad_peers@[i], Rep::CostFetchFail),
            final(outbox)@.last() == ActionView::ModifyReputation(from_peer, Rep::BenefitValidResponse),
            match (r, old(self)@.released(relay_parent, candidate_hash)) {
                (Err(e), Err(x)) => e == x,
                (Ok(list), Ok(s)) => list@.len() == s.len() && forall|i: int|
                    0 <= i < s.len() ==> (#[trigger] list@[i]).0 == s[i].0 && list@[i].1@ == s[i].1,
                _ => false,
            },
    {
        let mut i: usize = 0;
        assert(outbox@ =~= old(outbox)@ + failures(bad_peers@.take(0)));
        while i < bad_peers.len()
            invariant
                i <= bad_peers@.len(),
                outbox@ == old(outbox)@ + failures(bad_peers@.take(i as int)),
            decreases bad_peers@.len() - i,
        {
            outbox.push(Action::ModifyReputation(bad_peers[i], Rep::CostFetchFail));
            i = i + 1;
            assert(outbox@ =~= old(outbox)@ + failures(bad_peers@.take(i as int)));
        }
        assert(bad_peers@.take(i as int) =~= bad_peers@);
        outbox.push(Action::ModifyReputation(from_peer, Rep::BenefitValidResponse));
        assert(outbox@ =~= old(outbox)@ + verdicts(bad_peers@, from_peer));
        let ghost heads = self@.active_heads;
        let active_head = match self.active_heads.get_mut(&relay_parent) {
            Some(head) => head,
            None => return Err(JfyiError::NoSuchHead(relay_parent)),
        };
        let ghost waiting = active_head@.waiting_large_statements;
        match active_head.take_large_statement(&candidate_hash) {
            Some(LargeStatementStatus::Fetching(info)) => {
                active_head.set_large_statement(
                    candidate_hash,
                    LargeStatementStatus::FetchedOrShared(response),
                );
                assert(active_head@ =~= heads[relay_parent].with_status(
                    candidate_hash,
                    StatusView::FetchedOrShared(response),
                ));
                // Cache is now populated, send all messages:
                Ok(info.into_messages())
            },
            Some(LargeStatementStatus::FetchedOrShared(_)) => {
                // We are no longer interested in the data.
                Ok(Vec::new())
            },
            None => {
                assert(waiting.remove(candidate_hash) =~= waiting);
                assert(heads.insert(relay_parent, heads[relay_parent]) =~= heads);
                Err(JfyiError::NoSuchLargeStatementStatus(relay_parent, candidate_hash))
            },
        }
    }

    /// The task that fetches the payload of a large statement wants more peers to try.
    pub fn more_peers_wanted(
        &mut self,
        relay_parent: BlockHash,
        candidate_hash: CandidateHash,
        tx: oneshot::Sender<Vec<PeerId>>,
    ) -> (r: Result<(), JfyiError>)
        ensures
            r == match old(self)@.released(relay_parent, candidate_hash) {
                Err(e) => Err::<(), JfyiError>(e),
                Ok(_) => Ok(()),
            },
            exists|taken: bool|
                final(self)@ == #[trigger] old(self)@.after_request(
                    relay_parent,
                    candidate_hash,
                    tx,
                    taken,
                ),
    {
        let ghost before = self@;
        let ghost heads = self@.active_heads;
        proof {
            if !(before.large_status(relay_parent, candidate_hash) matches Some(StatusView::Fetching(_))
                && heads.contains_key(relay_parent)) {
                assert(before.after_request(relay_parent, candidate_hash, tx, true) == before);
            }
        }
        let active_head = match self.active_heads.get_mut(&relay_parent) {
            Some(head) => head,
            None => return Err(JfyiError::NoSuchHead(relay_parent)),
        };
        let ghost head = active_head@;
        proof {
            assert(heads.insert(relay_parent, heads[relay_parent]) =~= heads);
            if head.waiting_large_statements.contains_key(candidate_hash) {
                assert(head.with_status(
                    candidate_hash,
                    head.waiting_large_statements[candidate_hash],
                ) =~= head);
            }
        }
        match active_head.large_statement_mut(&candidate_hash) {
            Some(LargeStatementStatus::Fetching(info)) => {
                let ghost known = info@;
                info.want_more_peers(tx);
                proof {
                    let taken = choose|taken: bool| info@ == #[trigger] known.after_request(tx, taken);
                    let after = before.after_request(relay_parent, candidate_hash, tx, taken);
                    assert(after.active_heads[relay_parent] == head.with_status(
                        candidate_hash,
                        StatusView::Fetching(info@),
                    ));
                }
                Ok(())
            },
            Some(LargeStatementStatus::FetchedOrShared(_)) => {
                // The fetching task is going to die soon - no need to send it anything.
                Ok(())
            },
            None => Err(JfyiError::NoSuchLargeStatementStatus(relay_parent, candidate_hash)),
        }
    }

    /// Finds the peers that a statement goes to that was accepted from a peer.
    ///
    /// Once some of the other peers were chosen, `circulate` goes on.
    pub fn plan_accepted(&self, accepted: AcceptedStatement) -> (r: Circulation)
        ensures
            plans(
                r,
                self@.peers,
                accepted.relay_parent,
                accepted.comparator,
                accepted.statement,
                Seq::empty(),
                GossipScope::ByValidator(accepted.relay_parent, accepted.statement.validator_index),
            ),
            reachable(self@.peers, r.priority_peers@, accepted.relay_parent),
            reachable(self@.peers, r.other_peers@, accepted.relay_parent),
    {
        let scope = GossipScope::ByValidator(
            accepted.relay_parent,
            accepted.statement.validator_index,
        );
        plan_circulation(
            &self.peers,
            accepted.relay_parent,
            accepted.comparator,
            accepted.statement,
            Vec::new(),
            scope,
        )
    }

    /// Whether all peers that a statement goes to are connected and have the relay parent in their view.
    pub fn can_circulate(&self, circulation: &Circulation, chosen: &Vec<PeerId>) -> (r: bool)
        ensures
            r == self@.reaches(*circulation, chosen@),
    {
        all_reachable(&self.peers, &circulation.priority_peers, &circulation.relay_parent)
            && all_reachable(&self.peers, chosen, &circulation.relay_parent)
    }

    /// Circulates a statement to the peers with priority and to those that were chosen. `usual` is the
    /// number of peers that would be used without any priority peers. Gives the peers that learned of a
    /// candidate by it.
    pub fn circulate(
        &mut self,
        circulation: Circulation,
        chosen: Vec<PeerId>,
        usual: usize,
        limits: NetworkLimits,
        outbox: &mut Outbox,
    ) -> (r: Vec<PeerId>)
        requires
            old(self)@.reaches(circulation, chosen@),
        ensures
            ({
                let (peers, actions, newcomers) = circulated(
                    circulation,
                    chosen@,
                    usual,
                    old(self)@.peers,
                    limits,
                );
                &&& final(self)@ == (StateView { peers, ..old(self)@ })
                &&& final(outbox)@ == old(outbox)@ + actions
                &&& r@ == newcomers
            }),
    {
        circulate_statement(circulation, chosen, usual, &mut self.peers, limits, outbox)
    }

    /// Circulates a statement of ours to the peers with priority and to those that were chosen, and
    /// sends all statements dependent on that statement to peers who could previously not receive
    /// them but now can. `usual` is the number of peers that would be used without any priority peers.
    pub fn circulate_statement_and_dependents(
        &mut self,
        circulation: Circulation,
        chosen: Vec<PeerId>,
        usual: usize,
        limits: NetworkLimits,
        outbox: &mut Outbox,
    )
        requires
            old(self)@.reaches(circulation, chosen@),
        ensures
            final(self)@ == old(self)@.after_circulation(circulation, chosen@, usual, limits).0,
            final(outbox)@ == old(outbox)@ + old(self)@.after_circulation(
                circulation,
                chosen@,
                usual,
                limits,
            ).1,
    {
        let relay_parent = circulation.relay_parent;
        let candidate_hash = circulation.comparator.compact.candidate_hash();
        let ghost expected = old(self)@.after_circulation(circulation, chosen@, usual, limits);
        // First circulate the statement directly to all peers needing it.
        let peers_needing_dependents = self.circulate(circulation, chosen, usual, limits, outbox);
        // Now send dependent statements to all peers needing them, if any.
        if let Some(active_head) = self.active_heads.get(&relay_parent) {
            send_dependents(
                &peers_needing_dependents,
                &mut self.peers,
                relay_parent,
                candidate_hash,
                active_head,
                limits,
                outbox,
            );
        }
        assert(outbox@ =~= old(outbox)@ + expected.1);
    }

    /// Makes sure that the payload of a statement of ours is there if it is too large for a
    /// notification.
    pub fn prepare_local_statement(
        &mut self,
        relay_parent: BlockHash,
        statement: &SignedFullStatement,
        limits: NetworkLimits,
    ) -> (r: Result<(), JfyiError>)
        ensures
            final(self)@ == old(self)@.with_local_payload(relay_parent, *statement, limits),
            r == if largeness(*statement, limits.max_notification_size).0
                && !old(self)@.active_heads.contains_key(relay_parent) {
                Err::<(), JfyiError>(JfyiError::NoSuchHead(relay_parent))
            } else {
                Ok(())
            },
    {
        // Make sure we have data in cache:
        if is_statement_large(statement, limits.max_notification_size).0 {
            if let Statement::Seconded(committed) = &statement.payload {
                // This should never be out-of-sync with our view if the view
                // updates correspond to actual `StartWork` messages.
                match self.active_heads.get_mut(&relay_parent) {
                    Some(active_head) => {
                        active_head.set_large_statement(
                            statement.payload.candidate_hash(),
                            LargeStatementStatus::FetchedOrShared(committed.clone()),
                        );
                    },
                    None => return Err(JfyiError::NoSuchHead(relay_parent)),
                }
            }
        }
        Ok(())
    }

    /// Share a local statement with the rest of the network: places it in storage if it is new, and
    /// finds the peers that it goes to. Those in our group come first.
    ///
    /// Once some of the other peers were chosen, `circulate_statement_and_dependents` goes on.
    pub fn share_local_statement(
        &mut self,
        relay_parent: BlockHash,
        statement: SignedFullStatement,
        session: &SessionGroups,
    ) -> (r: Option<Circulation>)
        requires
            session.consistent(),
        ensures
            final(self)@ == old(self)@.with_local_statement(relay_parent, statement),
            match r {
                Some(c) => old(self)@.is_fresh(relay_parent, statement) && plans(
                    c,
                    old(self)@.peers,
                    relay_parent,
                    comparator(statement),
                    statement,
                    session.group_peers_of(old(self)@.authorities),
                    GossipScope::Grid(old(self)@.active_heads[relay_parent].session_index),
                ) && old(self)@.reaches(c, c.other_peers@),
                None => !old(self)@.is_fresh(relay_parent, statement),
            },
    {
        let group_peers = session.group_peers(&self.authorities);
        match self.active_heads.get_mut(&relay_parent) {
            None => None,
            Some(active_head) => {
                // Use both grid directions
                let scope = GossipScope::Grid(active_head.session_index());
                match active_head.note_statement(statement) {
                    NotedStatement::Fresh(stored) => Some(
                        plan_circulation(
                            &self.peers,
                            relay_parent,
                            stored.comparator,
                            stored.statement.clone(),
                            group_peers,
                            scope,
                        ),
                    ),
                    _ => None,
                }
            },
        }
    }
}

/// Whether a peer was told of a candidate, or why that cannot be said.
pub open spec fn knowledge_of_candidate(
    peers: Map<PeerId, PeerDataView>,
    requesting_peer: PeerId,
    relay_parent: BlockHash,
    candidate_hash: CandidateHash,
) -> Result<bool, JfyiError> {
    if !peers.contains_key(requesting_peer) {
        Err(JfyiError::NoSuchPeer(requesting_peer))
    } else if !peers[requesting_peer].tracks(relay_parent) {
        Err(JfyiError::NoSuchHead(relay_parent))
    } else {
        Ok(
            peers[requesting_peer].view_knowledge[relay_parent].sent_candidates.contains(
                candidate_hash,
            ),
        )
    }
}

/// Check whether a peer knows about a candidate from us.
///
/// If not, it is deemed illegal for it to request corresponding data from us.
pub fn requesting_peer_knows_about_candidate(
    peers: &ListMap<PeerId, PeerData>,
    requesting_peer: &PeerId,
    relay_parent: &BlockHash,
    candidate_hash: &CandidateHash,
) -> (r: Result<bool, JfyiError>)
    ensures
        r == knowledge_of_candidate(peers@, *requesting_peer, *relay_parent, *candidate_hash),
{
    match peers.get(requesting_peer) {
        None => Err(JfyiError::NoSuchPeer(*requesting_peer)),
        Some(data) => match data.was_sent_candidate(relay_parent, candidate_hash) {
            None => Err(JfyiError::NoSuchHead(*relay_parent)),
            Some(known) => Ok(known),
        },
    }
}

/// What becomes of a response once it was sent, or came back because nobody waits for it.
pub fn settle_response(outcome: Result<(), CommittedCandidateReceipt>) -> (r: Result<(), JfyiError>)
    ensures
        r == match outcome {
            Ok(_) => Ok::<(), JfyiError>(()),
            Err(_) => Err(JfyiError::ResponderGetDataCanceled),
        },
{
    match outcome {
        Ok(_) => Ok(()),
        Err(_) => Err(JfyiError::ResponderGetDataCanceled),
    }
}

/// What peers lose that did not give the payload of a large statement.
pub open spec fn failures(bad_peers: Seq<PeerId>) -> Seq<ActionView> {
    bad_peers.map_values(|p: PeerId| ActionView::ModifyReputation(p, Rep::CostFetchFail))
}

/// How peers are judged once the payload of a large statement was fetched.
pub open spec fn verdicts(bad_peers: Seq<PeerId>, from_peer: PeerId) -> Seq<ActionView> {
    failures(bad_peers).push(ActionView::ModifyReputation(from_peer, Rep::BenefitValidResponse))
}

} // verus!
