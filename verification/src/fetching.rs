//! Large statements whose payload has to be requested from a peer.
use crate::ids::PeerId;
use crate::message::{
    StatementDistributionMessage, StatementMetadata, ValidationVersion, VersionedMessage,
    compatible_v1_message, wrapped,
};
use crate::statement::CommittedCandidateReceipt;
use crate::stored::has_key;
use futures::channel::oneshot;
use futures::future::RemoteHandle;
use indexmap::IndexMap;
use std::hash::RandomState;
use vstd::prelude::*;

verus! {

/// The sending half of a channel of the crate `futures` that carries one value.
#[verifier::external_type_specification]
#[verifier::external_body]
#[verifier::reject_recursive_types(T)]
pub struct ExSender<T>(oneshot::Sender<T>);

/// The handle of the crate `futures` by which a task that runs elsewhere is kept alive.
#[verifier::external_type_specification]
#[verifier::external_body]
#[verifier::reject_recursive_types(T)]
pub struct ExRemoteHandle<T>(RemoteHandle<T>);

/// Calls `oneshot::Sender::send`. The value is given back where the other half of the channel was
/// dropped; whether it was is up to the task that holds it, and nothing is said of it.
#[verifier::external_body]
pub(crate) fn send_once<T>(sender: oneshot::Sender<T>, value: T) -> (r: Result<(), T>)
    ensures
        r matches Err(back) ==> back == value,
{
    sender.send(value)
}

/// A peer as a key: the bytes that encode its multihash, and how many they are.
pub type PeerKey = (u8, [u8; 76]);

/// The peer that a key stands for.
pub open spec fn peer_of(key: PeerKey) -> PeerId {
    PeerId { len: key.0, bytes: key.1 }
}

/// A peer as a key.
pub open spec fn key_of(peer: PeerId) -> PeerKey {
    (peer.len, peer.bytes)
}

/// What the map holds, in the order of insertion.
pub uninterp spec fn messages_by_peer(
    m: IndexMap<PeerKey, Vec<VersionedMessage>, RandomState>,
) -> Seq<(PeerKey, Vec<VersionedMessage>)>;

/// Calls `IndexMap::new`, which gives a map that holds nothing.
#[verifier::external_body]
fn no_messages() -> (r: IndexMap<PeerKey, Vec<VersionedMessage>>)
    ensures
        messages_by_peer(r) == Seq::<(PeerKey, Vec<VersionedMessage>)>::empty(),
{
    IndexMap::new()
}

/// Calls `IndexMap::insert` with a key that is not there: key and value come last in the order.
#[verifier::external_body]
fn insert_messages(
    m: &mut IndexMap<PeerKey, Vec<VersionedMessage>>,
    k: PeerKey,
    v: Vec<VersionedMessage>,
)
    requires
        !has_key(messages_by_peer(*old(m)), k),
    ensures
        messages_by_peer(*final(m)) == messages_by_peer(*old(m)).push((k, v)),
{
    let _ = m.insert(k, v);
}

/// Calls `IndexMap::get_mut`: the value beside the key, where the key is there. No key is there
/// twice, and the value can be changed in its place.
#[verifier::external_body]
fn messages_mut<'a>(m: &'a mut IndexMap<PeerKey, Vec<VersionedMessage>>, k: &PeerKey) -> (r: Option<
    &'a mut Vec<VersionedMessage>,
>)
    ensures
        match r {
            Some(v) => {
                &&& has_key(messages_by_peer(*old(m)), *k)
                &&& messages_by_peer(*final(m)).len() == messages_by_peer(*old(m)).len()
                &&& forall|i: int|
                    0 <= i < messages_by_peer(*old(m)).len() ==> if (
                    #[trigger] messages_by_peer(*old(m))[i]).0 == *k {
                        *v == messages_by_peer(*old(m))[i].1 && messages_by_peer(*final(m))[i] == (
                            *k,
                            *final(v),
                        )
                    } else {
                        messages_by_peer(*final(m))[i] == messages_by_peer(*old(m))[i]
                    }
            },
            None => !has_key(messages_by_peer(*old(m)), *k) && messages_by_peer(*final(m))
                == messages_by_peer(*old(m)),
        },
{
    m.get_mut(k)
}

/// Calls `IndexMap::into_iter`, which gives the keys and the values in the order of insertion.
#[verifier::external_body]
fn into_messages(m: IndexMap<PeerKey, Vec<VersionedMessage>>) -> (r: Vec<
    (PeerKey, Vec<VersionedMessage>),
>)
    ensures
        r@ == messages_by_peer(m),
{
    m.into_iter().collect()
}

/// Info about a fetch in progress.
pub struct FetchingInfo {
    /// All peers that send us a `LargeStatement` or a `Valid` statement for the given
    /// `CandidateHash`, together with their originally sent messages.
    ///
    /// We use an `IndexMap` here to preserve the ordering of peers sending us messages. This is
    /// desirable because we reward first sending peers with reputation.
    available_peers: IndexMap<PeerKey, Vec<VersionedMessage>>,
    /// Peers left to try in case the background task needs it.
    peers_to_try: Vec<PeerId>,
    /// Sender for sending fresh peers to the fetching task in case of failure.
    peer_sender: Option<oneshot::Sender<Vec<PeerId>>>,
    /// Task taking care of the request.
    ///
    /// Will be killed once dropped.
    #[allow(dead_code)]
    fetching_task: RemoteHandle<()>,
}

/// A peer with the messages that it sent, in order.
pub type PeerMessages = (PeerId, Seq<VersionedMessage>);

/// Info about a fetch in progress, with sequences.
#[verifier::ext_equal]
pub struct FetchingView {
    pub available_peers: Seq<PeerMessages>,
    pub peers_to_try: Seq<PeerId>,
    pub peer_sender: Option<oneshot::Sender<Vec<PeerId>>>,
    pub fetching_task: RemoteHandle<()>,
}

/// The messages by peer, with one more message of a peer.
pub open spec fn with_message(
    s: Seq<PeerMessages>,
    peer: PeerId,
    message: VersionedMessage,
) -> Seq<PeerMessages> {
    if has_key(s, peer) {
        Seq::new(
            s.len(),
            |i: int|
                if s[i].0 == peer {
                    (peer, s[i].1.push(message))
                } else {
                    s[i]
                },
        )
    } else {
        s.push((peer, seq![message]))
    }
}

impl FetchingView {
    /// A fetch that has just been started because of a peer's message.
    pub open spec fn launched(
        peer: PeerId,
        message: VersionedMessage,
        fetching_task: RemoteHandle<()>,
    ) -> FetchingView {
        FetchingView {
            available_peers: seq![(peer, seq![message])],
            peers_to_try: seq![],
            peer_sender: None,
            fetching_task,
        }
    }

    /// The fetch once the peers to try were offered to the fetching task, which took them or not.
    pub open spec fn after_offer(self, taken: bool) -> FetchingView {
        FetchingView {
            peers_to_try: if taken {
                seq![]
            } else {
                self.peers_to_try
            },
            peer_sender: None,
            ..self
        }
    }

    /// The fetch once a peer has sent one more message. A new peer that has the data is to be tried,
    /// and a fetching task that waits for peers is offered those to be tried.
    pub open spec fn after_message(
        self,
        peer: PeerId,
        message: VersionedMessage,
        is_large: bool,
        taken: bool,
    ) -> FetchingView {
        let known = FetchingView {
            available_peers: with_message(self.available_peers, peer, message),
            ..self
        };
        if !has_key(self.available_peers, peer) && is_large {
            let tried = FetchingView { peers_to_try: self.peers_to_try.push(peer), ..known };
            if self.peer_sender is Some {
                tried.after_offer(taken)
            } else {
                tried
            }
        } else {
            known
        }
    }

    /// The fetch once the fetching task has asked for more peers.
    pub open spec fn after_request(
        self,
        sender: oneshot::Sender<Vec<PeerId>>,
        taken: bool,
    ) -> FetchingView {
        if self.peers_to_try.len() == 0 {
            FetchingView { peer_sender: Some(sender), ..self }
        } else {
            FetchingView { peer_sender: self.peer_sender, ..self.after_offer(taken) }
        }
    }
}

impl View for FetchingInfo {
    type V = FetchingView;

    closed spec fn view(&self) -> FetchingView {
        FetchingView {
            available_peers: Seq::new(
                messages_by_peer(self.available_peers).len(),
                |i: int|
                    (
                        peer_of(messages_by_peer(self.available_peers)[i].0),
                        messages_by_peer(self.available_peers)[i].1@,
                    ),
            ),
            peers_to_try: self.peers_to_try@,
            peer_sender: self.peer_sender,
            fetching_task: self.fetching_task,
        }
    }
}

impl FetchingInfo {
    /// A fetch that has just been started because of a peer's message about a large statement.
    pub fn launched(
        peer: PeerId,
        peer_version: ValidationVersion,
        metadata: StatementMetadata,
        fetching_task: RemoteHandle<()>,
    ) -> (r: Self)
        ensures
            r@ == FetchingView::launched(
                peer,
                wrapped(peer_version, StatementDistributionMessage::LargeStatement(metadata)),
                fetching_task,
            ),
    {
        let mut available_peers = no_messages();
        let mut messages: Vec<VersionedMessage> = Vec::new();
        messages.push(
            compatible_v1_message(
                peer_version,
                StatementDistributionMessage::LargeStatement(metadata),
            ),
        );
        assert(messages@ =~= seq![
            wrapped(peer_version, StatementDistributionMessage::LargeStatement(metadata)),
        ]);
        insert_messages(&mut available_peers, (peer.len, peer.bytes), messages);
        FetchingInfo { available_peers, peers_to_try: Vec::new(), peer_sender: None, fetching_task }
    }

    proof fn lemma_has_peer(&self, peer: PeerId)
        ensures
            has_key(self@.available_peers, peer) <==> has_key(
                messages_by_peer(self.available_peers),
                key_of(peer),
            ),
    {
        let raw = messages_by_peer(self.available_peers);
        let seen = self@.available_peers;
        if has_key(seen, peer) {
            let i = choose|i: int| 0 <= i < seen.len() && (#[trigger] seen[i]).0 == peer;
            assert(raw[i].0 == key_of(peer));
        }
        if has_key(raw, key_of(peer)) {
            let i = choose|i: int| 0 <= i < raw.len() && (#[trigger] raw[i]).0 == key_of(peer);
            assert(seen[i].0 == peer);
        }
    }

    /// Keeps a message of a peer. Says whether the peer is new.
    fn keep_message(&mut self, peer: PeerId, message: VersionedMessage) -> (r: bool)
        ensures
            r == !has_key(old(self)@.available_peers, peer),
            final(self)@ == (FetchingView {
                available_peers: with_message(old(self)@.available_peers, peer, message),
                ..old(self)@
            }),
    {
        let key: PeerKey = (peer.len, peer.bytes);
        proof {
            self.lemma_has_peer(peer);
        }
        let ghost before = messages_by_peer(self.available_peers);
        let ghost seen = self@.available_peers;
        let is_new = match messages_mut(&mut self.available_peers, &key) {
            Some(messages) => {
                messages.push(message);
                false
            },
            None => {
                let mut messages: Vec<VersionedMessage> = Vec::new();
                messages.push(message);
                assert(messages@ =~= seq![message]);
                insert_messages(&mut self.available_peers, key, messages);
                true
            },
        };
        proof {
            assert forall|i: int| 0 <= i < before.len() implies (#[trigger] before[i].0 == key) == (
            seen[i].0 == peer) by {}
            assert(self@.available_peers =~= with_message(seen, peer, message));
        }
        is_new
    }

    /// Takes out the peers to try, which are all offered at once to a task that waits for them.
    pub fn take_offer(&mut self) -> (r: Vec<PeerId>)
        ensures
            r@ == old(self)@.peers_to_try,
            final(self)@ == (FetchingView { peers_to_try: seq![], ..old(self)@ }),
    {
        let mut to_send: Vec<PeerId> = Vec::new();
        std::mem::swap(&mut to_send, &mut self.peers_to_try);
        to_send
    }

    /// Offers a task that waits for them the peers that `take_offer` gives. Those it does not take are
    /// kept, as `settle_offer` says; whether it takes them is up to the task.
    fn offer_peers(&mut self, sender: oneshot::Sender<Vec<PeerId>>)
        ensures
            exists|taken: bool|
                final(self)@ == (FetchingView {
                    peer_sender: old(self)@.peer_sender,
                    ..#[trigger] old(self)@.after_offer(taken)
                }),
    {
        let to_send = self.take_offer();
        let outcome = send_once(sender, to_send);
        self.settle_offer(outcome);
        proof {
            let taken = outcome is Ok;
            let expected = FetchingView {
                peer_sender: old(self)@.peer_sender,
                ..old(self)@.after_offer(taken)
            };
            assert(self@ =~= expected);
        }
    }

    /// Takes note of how an offer of peers ended: peers that come back are kept for later.
    pub fn settle_offer(&mut self, outcome: Result<(), Vec<PeerId>>)
        ensures
            final(self)@ == match outcome {
                Ok(_) => old(self)@,
                Err(peers) => FetchingView { peers_to_try: peers@, ..old(self)@ },
            },
    {
        if let Err(peers) = outcome {
            // Requester no longer interested for now, might want them
            // later:
            self.peers_to_try = peers;
        }
    }

    /// Keeps a message of a peer that has, or talks of, the data that is being fetched.
    pub fn note_message(
        &mut self,
        peer: PeerId,
        peer_version: ValidationVersion,
        message: StatementDistributionMessage,
    )
        ensures
            exists|taken: bool|
                final(self)@ == #[trigger] old(self)@.after_message(
                    peer,
                    wrapped(peer_version, message),
                    message is LargeStatement,
                    taken,
                ),
    {
        let is_large_statement = message.is_large_statement();
        let ghost sent = wrapped(peer_version, message);
        let is_new_peer = self.keep_message(peer, compatible_v1_message(peer_version, message));
        if is_new_peer && is_large_statement {
            self.peers_to_try.push(peer);
            // Answer any pending request for more peers:
            if let Some(sender) = self.peer_sender.take() {
                let ghost offered = self@;
                self.offer_peers(sender);
                proof {
                    let taken = choose|taken: bool|
                        self@ == (FetchingView {
                            peer_sender: offered.peer_sender,
                            ..#[trigger] offered.after_offer(taken)
                        });
                    assert(self@ =~= old(self)@.after_message(peer, sent, true, taken));
                }
            } else {
                assert(self@ =~= old(self)@.after_message(peer, sent, true, true));
            }
        } else {
            assert(self@ =~= old(self)@.after_message(peer, sent, is_large_statement, true));
        }
    }

    /// Answers the fetching task, which has asked for more peers, now or once there are any.
    pub fn want_more_peers(&mut self, sender: oneshot::Sender<Vec<PeerId>>)
        ensures
            exists|taken: bool| final(self)@ == #[trigger] old(self)@.after_request(sender, taken),
    {
        if self.peers_to_try.len() == 0 {
            self.peer_sender = Some(sender);
            assert(self@ =~= old(self)@.after_request(sender, true));
        } else {
            self.offer_peers(sender);
            proof {
                let taken = choose|taken: bool|
                    self@ == (FetchingView {
                        peer_sender: old(self)@.peer_sender,
                        ..#[trigger] old(self)@.after_offer(taken)
                    });
                assert(self@ =~= old(self)@.after_request(sender, taken));
            }
        }
    }

    /// The peers with their messages, in the order in which they first wrote. The fetching task ends.
    pub fn into_messages(self) -> (r: Vec<(PeerId, Vec<VersionedMessage>)>)
        ensures
            r@.len() == self@.available_peers.len(),
            forall|i: int|
                0 <= i < r@.len() ==> (#[trigger] r@[i]).0 == self@.available_peers[i].0 && r@[i].1@
                    == self@.available_peers[i].1,
    {
        let ghost seen = self@.available_peers;
        let ghost raw = messages_by_peer(self.available_peers);
        let mut rest = into_messages(self.available_peers);
        let mut list: Vec<(PeerId, Vec<VersionedMessage>)> = Vec::new();
        let total: usize = rest.len();
        let mut i: usize = 0;
        while i < total
            invariant
                i <= total,
                total == raw.len(),
                seen.len() == raw.len(),
                rest@ == raw.skip(i as int),
                list@.len() == i,
                forall|j: int|
                    0 <= j < raw.len() ==> #[trigger] seen[j] == (peer_of(raw[j].0), raw[j].1@),
                forall|j: int|
                    0 <= j < i ==> (#[trigger] list@[j]).0 == seen[j].0 && list@[j].1@ == seen[j].1,
            decreases total - i,
        {
            let ghost before = rest@;
            let (key, messages) = rest.remove(0);
            proof {
                assert(before[0] == raw[i as int]);
                assert(rest@ =~= raw.skip(i + 1));
                assert(seen[i as int] == (peer_of(raw[i as int].0), raw[i as int].1@));
            }
            list.push((PeerId { len: key.0, bytes: key.1 }, messages));
            i = i + 1;
        }
        list
    }
}

/// Large statement fetching status.
pub enum LargeStatementStatus {
    /// We are currently fetching the statement data from a remote peer. We keep a list of other
    /// nodes claiming to have that data and will fallback on them.
    Fetching(FetchingInfo),
    /// Statement data is fetched or we got it locally.
    FetchedOrShared(CommittedCandidateReceipt),
}

/// Large statement fetching status, with sequences.
#[verifier::ext_equal]
pub enum StatusView {
    Fetching(FetchingView),
    FetchedOrShared(CommittedCandidateReceipt),
}

impl View for LargeStatementStatus {
    type V = StatusView;

    open spec fn view(&self) -> StatusView {
        match *self {
            LargeStatementStatus::Fetching(info) => StatusView::Fetching(info@),
            LargeStatementStatus::FetchedOrShared(receipt) => StatusView::FetchedOrShared(receipt),
        }
    }
}

} // verus!
