//! What holds while the payload of a large statement is fetched.
use crate::fetching::{FetchingView, PeerMessages, with_message};
use crate::ids::PeerId;
use crate::message::VersionedMessage;
use crate::stored::has_key;
use futures::channel::oneshot;
use futures::future::RemoteHandle;
use vstd::prelude::*;

verus! {

/// A message is kept behind those that its sender sent before, or, if it is the first, behind the peers that
/// wrote before. No other peer loses or gains a message, and no peer changes its place.
pub proof fn messages_are_kept_in_their_order(
    s: Seq<PeerMessages>,
    peer: PeerId,
    message: VersionedMessage,
    i: int,
)
    requires
        0 <= i < s.len(),
    ensures
        ({
            let after = with_message(s, peer, message);
            let known = exists|j: int| 0 <= j < s.len() && (#[trigger] s[j]).0 == peer;
            &&& after.len() == s.len() + if known {
                0int
            } else {
                1int
            }
            &&& after[i].0 == s[i].0
            &&& s[i].0 == peer ==> after[i].1 == s[i].1.push(message)
            &&& s[i].0 != peer ==> after[i].1 == s[i].1
            &&& !known ==> after.last() == (peer, seq![message])
        }),
{
}

/// The first message of all is kept as the only one, with its sender as the only peer.
pub proof fn first_message_is_kept(peer: PeerId, message: VersionedMessage, task: RemoteHandle<()>)
    ensures
        with_message(Seq::empty(), peer, message) == seq![(peer, seq![message])],
        FetchingView::launched(peer, message, task).available_peers == with_message(
            Seq::empty(),
            peer,
            message,
        ),
        FetchingView::launched(peer, message, task).peers_to_try.len() == 0,
        FetchingView::launched(peer, message, task).peer_sender is None,
        FetchingView::launched(peer, message, task).fetching_task == task,
{
    assert(with_message(Seq::empty(), peer, message) =~= seq![(peer, seq![message])]);
}

/// Every message is kept. A peer that writes for the first time, and with a large statement, is one to try
/// besides those that there are; any other message adds nobody. Peers to try are handed over as soon as
/// there are new ones, if they are waited for, and all of them at once. They leave the list if and only if
/// they were taken, and whoever waited for them waits no more.
pub proof fn message_brings_a_peer_to_try(
    info: FetchingView,
    peer: PeerId,
    message: VersionedMessage,
    is_large: bool,
    taken: bool,
)
    ensures
        ({
            let after = info.after_message(peer, message, is_large, taken);
            let new = is_large && !has_key(info.available_peers, peer);
            let offered = new && info.peer_sender is Some;
            &&& after.available_peers == with_message(info.available_peers, peer, message)
            &&& after.fetching_task == info.fetching_task
            &&& !new ==> after.peers_to_try == info.peers_to_try && after.peer_sender
                == info.peer_sender
            &&& new && !offered ==> after.peers_to_try == info.peers_to_try.push(peer)
                && after.peer_sender is None
            &&& offered && taken ==> after.peers_to_try.len() == 0 && after.peer_sender is None
            &&& offered && !taken ==> after.peers_to_try == info.peers_to_try.push(peer)
                && after.peer_sender is None
        }),
{
}

/// Whoever wants peers to try gets those that there are, which leave the list if and only if they were
/// taken; or waits, if there are none. No message is lost by it.
pub proof fn peers_to_try_are_handed_over_or_awaited(
    info: FetchingView,
    sender: oneshot::Sender<Vec<PeerId>>,
    taken: bool,
)
    ensures
        ({
            let after = info.after_request(sender, taken);
            &&& after.available_peers == info.available_peers
            &&& after.fetching_task == info.fetching_task
            &&& info.peers_to_try.len() == 0 ==> after.peers_to_try.len() == 0 && after.peer_sender
                == Some(sender)
            &&& info.peers_to_try.len() > 0 ==> after.peer_sender == info.peer_sender
                && after.peers_to_try == if taken {
                Seq::empty()
            } else {
                info.peers_to_try
            }
        }),
{
}

} // verus!
