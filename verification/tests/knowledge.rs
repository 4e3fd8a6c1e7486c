//! What is known of peers.
use statement_distribution::collections::{ListMap, ListSet};
use statement_distribution::ids::{
    AuthorityDiscoveryId, BlockHash, CandidateHash, Ident, PeerId, ValidatorIndex,
};
use statement_distribution::knowledge::{MAX_LARGE_STATEMENTS_PER_SENDER, PeerRelayParentKnowledge};
use statement_distribution::message::ValidationVersion;
use statement_distribution::outdated::{MAX_BUF_LEN, RecentOutdatedHeads};
use statement_distribution::peer::{PeerData, PeerView};
use statement_distribution::reputation::{Rep, RepKind};
use statement_distribution::statement::{CompactStatement, Fingerprint};
use statement_distribution::tracker::{VC_THRESHOLD, VcPerPeerTracker};

fn candidate(n: u8) -> CandidateHash {
    CandidateHash([n; 32])
}

fn head(n: u8) -> BlockHash {
    BlockHash([n; 32])
}

fn seconded(n: u8, v: u32) -> Fingerprint {
    (CompactStatement::Seconded(candidate(n)), ValidatorIndex(v))
}

fn valid(n: u8, v: u32) -> Fingerprint {
    (CompactStatement::Valid(candidate(n)), ValidatorIndex(v))
}

fn tracking_peer() -> PeerData {
    let mut data = PeerData::new(ValidationVersion::V1, None);
    let new_heads = data.replace_view(PeerView { heads: vec![head(1)] });
    assert_eq!(new_heads, vec![head(1)]);
    data.begin_head(head(1));
    data
}

#[test]
fn tracker_notes_two_remote_candidates() {
    assert_eq!(VC_THRESHOLD, 2);
    let mut tracker = VcPerPeerTracker::new();
    assert!(tracker.is_wanted_candidate(&candidate(1)));
    assert!(!tracker.is_noted_candidate(&candidate(1)));
    assert!(tracker.note_remote(candidate(1)));
    assert!(tracker.is_noted_candidate(&candidate(1)));
    assert!(!tracker.is_wanted_candidate(&candidate(1)));
    assert!(tracker.is_wanted_candidate(&candidate(2)));
    assert!(tracker.note_remote(candidate(1)));
    assert!(tracker.note_remote(candidate(2)));
    assert!(!tracker.is_wanted_candidate(&candidate(3)));
    assert!(!tracker.note_remote(candidate(3)));
    assert!(tracker.note_remote(candidate(2)));
}

#[test]
fn tracker_keeps_local_and_remote_apart() {
    let mut tracker = VcPerPeerTracker::new();
    tracker.note_local(candidate(1));
    tracker.note_local(candidate(2));
    tracker.note_local(candidate(3));
    assert!(tracker.is_wanted_candidate(&candidate(1)));
    assert!(tracker.note_remote(candidate(3)));
    assert!(tracker.note_remote(candidate(4)));
    assert!(!tracker.note_remote(candidate(5)));
}

#[test]
fn knowledge_of_sent_statements() {
    let mut knowledge = PeerRelayParentKnowledge::new();
    // Sending an un-pinned statement should not work and should have no effect.
    assert!(!knowledge.can_send(&valid(1, 0)));
    assert!(!knowledge.is_known_candidate(&candidate(1)));
    // Make the peer aware of the candidate.
    assert!(knowledge.can_send(&seconded(1, 0)));
    assert!(knowledge.send(&seconded(1, 0)));
    assert!(knowledge.can_send(&seconded(1, 1)));
    assert!(!knowledge.send(&seconded(1, 1)));
    assert!(knowledge.is_known_candidate(&candidate(1)));
    assert!(knowledge.was_sent_candidate(&candidate(1)));
    // And now it should accept the dependent message.
    assert!(knowledge.can_send(&valid(1, 0)));
    assert!(!knowledge.send(&valid(1, 0)));
    assert!(!knowledge.can_send(&valid(1, 0)));
    assert!(!knowledge.can_send(&seconded(1, 0)));
}

#[test]
fn statement_that_was_received_is_not_sent() {
    let mut knowledge = PeerRelayParentKnowledge::new();
    assert_eq!(knowledge.receive(&seconded(1, 0), 3), Ok(true));
    assert!(!knowledge.can_send(&seconded(1, 0)));
    assert!(knowledge.can_send(&seconded(1, 1)));
    assert!(knowledge.can_send(&valid(1, 1)));
    assert!(!knowledge.was_sent_candidate(&candidate(1)));
}

#[test]
fn knowledge_of_received_statements() {
    let mut knowledge = PeerRelayParentKnowledge::new();
    assert_eq!(
        knowledge.check_can_receive(&valid(1, 0), 3),
        Err(Rep::CostUnexpectedStatementUnknownCandidate)
    );
    assert_eq!(
        knowledge.receive(&valid(1, 0), 3),
        Err(Rep::CostUnexpectedStatementUnknownCandidate)
    );
    assert_eq!(knowledge.check_can_receive(&seconded(1, 0), 3), Ok(()));
    assert_eq!(knowledge.receive(&seconded(1, 0), 3), Ok(true));
    // Push statements up to the flood limit.
    assert_eq!(knowledge.check_can_receive(&valid(1, 1), 3), Ok(()));
    assert_eq!(knowledge.receive(&valid(1, 1), 3), Ok(false));
    assert_eq!(knowledge.receive(&valid(1, 2), 3), Ok(false));
    assert_eq!(knowledge.check_can_receive(&valid(1, 7), 3), Err(Rep::CostApparentFlood));
    assert_eq!(knowledge.receive(&valid(1, 7), 3), Err(Rep::CostApparentFlood));
    // Now make sure that the seconding limit is respected.
    assert_eq!(knowledge.check_can_receive(&seconded(2, 0), 3), Ok(()));
    assert_eq!(knowledge.receive(&seconded(2, 0), 3), Ok(true));
    assert_eq!(
        knowledge.check_can_receive(&seconded(3, 0), 3),
        Err(Rep::CostUnexpectedStatementRemote)
    );
    assert_eq!(knowledge.receive(&seconded(3, 0), 3), Err(Rep::CostUnexpectedStatementRemote));
    // Last, make sure that already-known statements are disregarded.
    assert_eq!(knowledge.check_can_receive(&valid(1, 2), 3), Err(Rep::CostDuplicateStatement));
    assert_eq!(knowledge.receive(&valid(1, 2), 3), Err(Rep::CostDuplicateStatement));
    assert_eq!(knowledge.receive(&seconded(2, 0), 3), Err(Rep::CostDuplicateStatement));
}

#[test]
fn check_agrees_with_receive_after_a_flood() {
    let mut knowledge = PeerRelayParentKnowledge::new();
    assert_eq!(knowledge.receive(&seconded(1, 0), 0), Err(Rep::CostApparentFlood));
    // The candidate is noted, though the statement was refused.
    assert_eq!(knowledge.check_can_receive(&seconded(1, 0), 0), Err(Rep::CostApparentFlood));
    assert_eq!(knowledge.check_can_receive(&seconded(1, 0), 1), Ok(()));
    assert_eq!(knowledge.receive(&seconded(1, 0), 1), Ok(true));
    assert_eq!(knowledge.check_can_receive(&seconded(1, 1), 1), Err(Rep::CostApparentFlood));
    assert_eq!(knowledge.receive(&seconded(1, 1), 1), Err(Rep::CostApparentFlood));
    assert_eq!(knowledge.check_can_receive(&seconded(1, 1), 1), Err(Rep::CostApparentFlood));
}

#[test]
fn twenty_large_statements_are_let_in() {
    assert_eq!(MAX_LARGE_STATEMENTS_PER_SENDER, 20);
    let mut data = tracking_peer();
    for _ in 0..20 {
        assert_eq!(data.receive_large_statement(&head(1)), Ok(()));
    }
    assert_eq!(data.receive_large_statement(&head(1)), Err(Rep::CostApparentFlood));
    assert_eq!(
        data.receive_large_statement(&head(2)),
        Err(Rep::CostUnexpectedStatementMissingKnowledge)
    );
}

#[test]
fn large_statements_are_counted_over_all_heads() {
    let mut data = PeerData::new(ValidationVersion::V1, None);
    for head in data.replace_view(PeerView { heads: vec![head(1), head(2), head(3)] }) {
        data.begin_head(head);
    }
    for n in 0..20 {
        assert_eq!(data.receive_large_statement(&head(1 + n % 2)), Ok(()));
    }
    for n in 1..4 {
        assert_eq!(data.receive_large_statement(&head(n)), Err(Rep::CostApparentFlood));
    }
    // What was known about a head that has left the view counts no more.
    let _ = data.replace_view(PeerView { heads: vec![head(2), head(3)] });
    for _ in 0..10 {
        assert_eq!(data.receive_large_statement(&head(3)), Ok(()));
    }
    assert_eq!(data.receive_large_statement(&head(2)), Err(Rep::CostApparentFlood));
}

#[test]
fn unexpected_messages_are_counted() {
    let mut data = tracking_peer();
    assert_eq!(data.unexpected_count(&head(1)), 0);
    assert_eq!(data.receive_unexpected(&head(1)), 0);
    assert_eq!(data.receive_unexpected(&head(1)), 1);
    assert_eq!(data.unexpected_count(&head(1)), 2);
    assert_eq!(data.receive_unexpected(&head(2)), 0);
    assert_eq!(data.unexpected_count(&head(2)), 0);
}

#[test]
fn peer_knows_only_about_heads_in_its_view() {
    let mut data = tracking_peer();
    assert!(data.tracks_head(&head(1)));
    assert!(!data.tracks_head(&head(2)));
    assert!(!data.can_send(&head(2), &seconded(1, 0)));
    assert_eq!(
        data.check_can_receive(&head(2), &seconded(1, 0), 3),
        Err(Rep::CostUnexpectedStatementMissingKnowledge)
    );
    assert_eq!(
        data.receive(&head(2), &seconded(1, 0), 3),
        Err(Rep::CostUnexpectedStatementMissingKnowledge)
    );
    assert_eq!(data.was_sent_candidate(&head(2), &candidate(1)), None);
    assert!(data.send(&head(1), &seconded(1, 0)));
    assert_eq!(data.was_sent_candidate(&head(1), &candidate(1)), Some(true));
    assert_eq!(data.was_sent_candidate(&head(1), &candidate(2)), Some(false));
}

#[test]
fn replaced_view_forgets_heads_that_left() {
    let mut data = tracking_peer();
    assert!(data.send(&head(1), &seconded(1, 0)));
    let new_heads = data.replace_view(PeerView { heads: vec![head(2), head(1), head(3)] });
    assert_eq!(new_heads, vec![head(2), head(3)]);
    assert!(data.tracks_head(&head(1)));
    assert!(!data.can_send(&head(1), &seconded(1, 0)));
    let new_heads = data.replace_view(PeerView { heads: vec![head(3)] });
    assert_eq!(new_heads, Vec::<BlockHash>::new());
    assert!(!data.tracks_head(&head(1)));
    let view = data.take_view();
    assert_eq!(view.heads, vec![head(3)]);
    assert!(data.take_view().heads.is_empty());
}

#[test]
fn view_difference_keeps_the_order() {
    let a = PeerView { heads: vec![head(3), head(1), head(2)] };
    let b = PeerView { heads: vec![head(1)] };
    assert_eq!(a.difference(&b), vec![head(3), head(2)]);
    assert_eq!(b.difference(&a), Vec::<BlockHash>::new());
    assert!(a.contains(&head(2)));
    assert!(!b.contains(&head(2)));
}

#[test]
fn authorities_of_a_peer() {
    let mut ids = ListSet::new();
    ids.insert(AuthorityDiscoveryId([7; 32]));
    let data = PeerData::new(ValidationVersion::V3, Some(ids));
    assert_eq!(data.protocol_version(), ValidationVersion::V3);
    let ids = data.into_authority().unwrap();
    assert_eq!(ids.len(), 1);
    assert!(ids.contains(&AuthorityDiscoveryId([7; 32])));
    assert!(PeerData::new(ValidationVersion::V1, None).into_authority().is_none());
}

#[test]
fn ten_outdated_heads_are_remembered() {
    assert_eq!(MAX_BUF_LEN, 10);
    let mut heads = RecentOutdatedHeads::new();
    assert!(!heads.is_recent_outdated(&head(0)));
    for n in 0..11 {
        heads.note_outdated(head(n));
    }
    assert!(!heads.is_recent_outdated(&head(0)));
    for n in 1..11 {
        assert!(heads.is_recent_outdated(&head(n)));
    }
}

#[test]
fn list_map_holds_each_key_once() {
    let mut map: ListMap<CandidateHash, usize> = ListMap::new();
    assert_eq!(map.len(), 0);
    map.insert(candidate(1), 10);
    map.insert(candidate(2), 20);
    map.insert(candidate(1), 11);
    assert_eq!(map.len(), 2);
    assert_eq!(map.get(&candidate(1)), Some(&11));
    *map.get_mut(&candidate(2)).unwrap() += 1;
    assert_eq!(map.get(&candidate(2)), Some(&21));
    *map.get_or_insert(&candidate(3), 5) += 1;
    assert_eq!(map.get(&candidate(3)), Some(&6));
    assert_eq!(map.at(0), (candidate(1), &11));
    assert_eq!(map.remove(&candidate(1)), Some(11));
    assert_eq!(map.remove(&candidate(1)), None);
    assert!(!map.contains_key(&candidate(1)));
    assert_eq!(map.get(&candidate(1)), None);
    assert!(map.get_mut(&candidate(1)).is_none());
}

#[test]
fn list_set_holds_each_item_once() {
    let mut set: ListSet<ValidatorIndex> = ListSet::new();
    set.insert(ValidatorIndex(3));
    set.insert(ValidatorIndex(4));
    set.insert(ValidatorIndex(3));
    assert_eq!(set.len(), 2);
    assert_eq!(set.at(1), ValidatorIndex(4));
    assert!(set.contains(&ValidatorIndex(3)));
    assert!(!set.contains(&ValidatorIndex(5)));
}

#[test]
fn peers_are_told_apart_by_all_their_parts() {
    let peer = PeerId { len: 38, bytes: [1; 76] };
    assert!(peer.same(&peer.dup()));
    assert!(!peer.same(&PeerId { len: 37, ..peer }));
    let mut bytes = [1; 76];
    bytes[75] = 2;
    assert!(!peer.same(&PeerId { bytes, ..peer }));
    let made = PeerId::from_bytes(&vec![7, 8, 9]).unwrap();
    assert_eq!(made.len, 3);
    assert_eq!(made.bytes[..4], [7, 8, 9, 0]);
    assert!(made.bytes[3..].iter().all(|b| *b == 0));
    assert_eq!(PeerId::from_bytes(&vec![5; 76]), Some(PeerId { len: 76, bytes: [5; 76] }));
    assert_eq!(PeerId::from_bytes(&vec![5; 77]), None);
}

#[test]
fn weight_and_words_of_reputation_changes() {
    let expected = [
        (Rep::CostUnexpectedStatement, RepKind::CostMinor, "Unexpected Statement"),
        (
            Rep::CostUnexpectedStatementMissingKnowledge,
            RepKind::CostMinor,
            "Unexpected Statement, missing knowlege for relay parent",
        ),
        (
            Rep::CostUnexpectedStatementUnknownCandidate,
            RepKind::CostMinor,
            "Unexpected Statement, unknown candidate",
        ),
        (
            Rep::CostUnexpectedStatementRemote,
            RepKind::CostMinor,
            "Unexpected Statement, remote not allowed",
        ),
        (
            Rep::CostFetchFail,
            RepKind::CostMinor,
            "Requesting `CommittedCandidateReceipt` from peer failed",
        ),
        (Rep::CostInvalidSignature, RepKind::CostMajor, "Invalid Statement Signature"),
        (Rep::CostWrongHash, RepKind::CostMajor, "Received candidate had wrong hash"),
        (
            Rep::CostDuplicateStatement,
            RepKind::CostMajorRepeated,
            "Statement sent more than once by peer",
        ),
        (
            Rep::CostApparentFlood,
            RepKind::Malicious,
            "Peer appears to be flooding us with statements",
        ),
        (Rep::BenefitValidStatement, RepKind::BenefitMajor, "Peer provided a valid statement"),
        (
            Rep::BenefitValidStatementFirst,
            RepKind::BenefitMajorFirst,
            "Peer was the first to provide a valid statement",
        ),
        (
            Rep::BenefitValidResponse,
            RepKind::BenefitMajor,
            "Peer provided a valid large statement response",
        ),
    ];
    for (rep, kind, reason) in expected {
        assert_eq!(rep.kind(), kind);
        assert_eq!(rep.reason(), reason);
    }
}
