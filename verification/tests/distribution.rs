//! Sending statements to peers.
use parity_scale_codec::Encode;
use polkadot_primitives::vstaging::{CandidateDescriptorV2, CommittedCandidateReceiptV2};
use polkadot_primitives::{CandidateCommitments, CoreIndex, SigningContext, ValidationCodeHash};
use sp_core::Pair;
use sp_core::sr25519;
use statement_distribution::collections::ListMap;
use statement_distribution::distribute::{
    GossipScope, all_reachable, circulate_statement, lists, plan_circulation, send_dependents, send_statements,
    send_statements_about,
};
use statement_distribution::head::{ActiveHeadData, ValidatorSet};
use statement_distribution::ids::{BlockHash, PeerId, ValidatorId, ValidatorIndex, ValidatorSignature};
use statement_distribution::message::{
    Action, NetworkLimits, Outbox, StatementDistributionMessage, ValidationVersion,
    VersionedMessage, compatible_v1_message,
};
use statement_distribution::peer::{PeerData, PeerView};
use statement_distribution::statement::{
    CommittedCandidateReceipt, Signed, SignedFullStatement, Statement,
};
use statement_distribution::stored::StoredStatementComparator;
use statement_distribution::views::{Luck, luck, update_peer_view_and_maybe_send_unlocked};

const HEAD: BlockHash = BlockHash([9; 32]);
const SESSION: u32 = 4;
const SCOPE: GossipScope = GossipScope::Grid(SESSION);
const LIMITS: NetworkLimits = NetworkLimits { min_gossip_peers: 3, max_notification_size: 100_000 };

fn receipt(para: u32) -> CommittedCandidateReceipt {
    let zero = polkadot_primitives::Hash::zero();
    let outside = CommittedCandidateReceiptV2 {
        descriptor: CandidateDescriptorV2::new(
            para.into(),
            polkadot_primitives::Hash::from(HEAD.0),
            CoreIndex(0),
            SESSION,
            zero,
            zero,
            zero,
            zero,
            ValidationCodeHash::from(zero),
        ),
        commitments: CandidateCommitments::default(),
    };
    CommittedCandidateReceipt::from_encoded(outside.encode()).unwrap()
}

fn key_pair(n: u8) -> sr25519::Pair {
    sr25519::Pair::from_seed(&[n; 32])
}

fn key(n: u8) -> ValidatorId {
    let mut bytes = [0; 32];
    bytes.copy_from_slice(key_pair(n).public().as_ref());
    ValidatorId(bytes)
}

/// A statement of validator `v`, whose key is made of `v + 1`.
fn signed(payload: Statement, v: u32) -> SignedFullStatement {
    let hash = polkadot_primitives::CandidateHash(polkadot_primitives::Hash::from(
        payload.candidate_hash().0,
    ));
    let compact = match &payload {
        Statement::Seconded(_) => polkadot_primitives::CompactStatement::Seconded(hash),
        Statement::Valid(_) => polkadot_primitives::CompactStatement::Valid(hash),
    };
    let context = SigningContext {
        session_index: SESSION,
        parent_hash: polkadot_primitives::Hash::from(HEAD.0),
    };
    let made = key_pair(v as u8 + 1).sign(&compact.signing_payload(&context));
    let mut bytes = [0; 64];
    bytes.copy_from_slice(made.as_ref());
    Signed { payload, validator_index: ValidatorIndex(v), signature: ValidatorSignature(bytes) }
}

fn peer(n: u8) -> PeerId {
    PeerId { len: 38, bytes: [n; 76] }
}

fn validators() -> ValidatorSet {
    ValidatorSet::new(vec![key(1), key(2), key(3)])
}

fn tracking(version: ValidationVersion) -> PeerData {
    let mut data = PeerData::new(version, None);
    let _ = data.replace_view(PeerView { heads: vec![HEAD] });
    data.begin_head(HEAD);
    data
}

fn comparator(statement: &SignedFullStatement) -> StoredStatementComparator {
    StoredStatementComparator {
        compact: statement.payload.to_compact(),
        validator_index: statement.validator_index,
        signature: statement.signature,
    }
}

fn head_with(statements: &[&SignedFullStatement]) -> ActiveHeadData {
    let mut head = ActiveHeadData::new(validators(), SESSION);
    for statement in statements {
        let _ = head.note_statement((*statement).clone());
    }
    head
}

fn carried(version: ValidationVersion, statement: &SignedFullStatement) -> VersionedMessage {
    compatible_v1_message(
        version,
        StatementDistributionMessage::Statement(HEAD, statement.clone().into_unchecked()),
    )
}

fn created(statement: &SignedFullStatement) -> Action {
    match &statement.payload {
        Statement::Seconded(receipt) => Action::CountCreatedMessage(receipt.encoded().len() + 69),
        Statement::Valid(_) => panic!("only `Seconded` statements are measured"),
    }
}

#[test]
fn peer_is_sent_what_it_lacks_once() {
    let seconded = signed(Statement::Seconded(receipt(1)), 0);
    let valid = signed(Statement::Valid(receipt(1).hash()), 1);
    let head = head_with(&[&seconded, &valid]);
    let mut data = tracking(ValidationVersion::V2);
    let mut outbox = Outbox::new();
    send_statements(peer(1), &mut data, HEAD, &head, LIMITS, &mut outbox);
    assert_eq!(
        outbox.into_actions(),
        vec![
            created(&seconded),
            Action::SendValidationMessage(
                vec![peer(1)],
                carried(ValidationVersion::V2, &seconded),
            ),
            Action::CountStatementDistributed,
            Action::SendValidationMessage(vec![peer(1)], carried(ValidationVersion::V2, &valid)),
            Action::CountStatementDistributed,
        ]
    );
    let mut outbox = Outbox::new();
    send_statements(peer(1), &mut data, HEAD, &head, LIMITS, &mut outbox);
    assert!(outbox.into_actions().is_empty());
}

#[test]
fn peer_is_sent_only_statements_about_the_candidate() {
    let a = signed(Statement::Seconded(receipt(1)), 0);
    let b = signed(Statement::Seconded(receipt(2)), 1);
    let head = head_with(&[&a, &b]);
    let mut data = tracking(ValidationVersion::V1);
    let mut outbox = Outbox::new();
    send_statements_about(
        peer(1),
        &mut data,
        HEAD,
        receipt(2).hash(),
        &head,
        LIMITS,
        &mut outbox,
    );
    assert_eq!(
        outbox.into_actions(),
        vec![
            created(&b),
            Action::SendValidationMessage(vec![peer(1)], VersionedMessage::V1(
                StatementDistributionMessage::Statement(HEAD, b.into_unchecked()),
            )),
            Action::CountStatementDistributed,
        ]
    );
    assert_eq!(data.was_sent_candidate(&HEAD, &receipt(1).hash()), Some(false));
}

#[test]
fn peer_that_does_not_work_on_the_head_is_sent_nothing() {
    let a = signed(Statement::Seconded(receipt(1)), 0);
    let head = head_with(&[&a]);
    let mut data = PeerData::new(ValidationVersion::V1, None);
    let mut outbox = Outbox::new();
    send_statements(peer(1), &mut data, HEAD, &head, LIMITS, &mut outbox);
    assert!(outbox.into_actions().is_empty());
}

#[test]
fn plan_names_all_peers_that_can_accept() {
    let a = signed(Statement::Seconded(receipt(1)), 0);
    let mut peers = ListMap::new();
    for n in 1..5 {
        peers.insert(peer(n), tracking(ValidationVersion::V1));
    }
    peers.insert(peer(5), PeerData::new(ValidationVersion::V1, None));
    let fingerprint = (a.payload.to_compact(), a.validator_index);
    let _ = peers.get_mut(&peer(2)).unwrap().send(&HEAD, &fingerprint);
    let plan = plan_circulation(
        &peers,
        HEAD,
        comparator(&a),
        a.clone(),
        vec![peer(3), peer(2), peer(6), peer(3)],
        GossipScope::Grid(SESSION),
    );
    assert_eq!(plan.priority_peers, vec![peer(3)]);
    assert_eq!(plan.other_peers, vec![peer(1), peer(4)]);
    assert_eq!(plan.statement, a);
    assert_eq!(plan.scope, GossipScope::Grid(SESSION));
    assert_eq!(plan.all_peers(), vec![peer(3), peer(1), peer(4)]);
    assert!(all_reachable(&peers, &plan.other_peers, &HEAD));
    assert!(!all_reachable(&peers, &vec![peer(5)], &HEAD));
    assert!(!all_reachable(&peers, &vec![peer(6)], &HEAD));
    assert!(lists(&plan.other_peers, &peer(4)));
    assert!(!lists(&plan.other_peers, &peer(3)));
}

#[test]
fn statement_goes_to_each_version_at_once() {
    let a = signed(Statement::Seconded(receipt(1)), 0);
    let mut peers = ListMap::new();
    let versions = [ValidationVersion::V1, ValidationVersion::V2, ValidationVersion::V3];
    for n in 1..7u8 {
        peers.insert(peer(n), tracking(versions[n as usize % 3]));
    }
    let plan = plan_circulation(&peers, HEAD, comparator(&a), a.clone(), vec![peer(5)], SCOPE);
    let chosen = vec![peer(1), peer(2), peer(3), peer(4), peer(6)];
    let mut outbox = Outbox::new();
    let new = circulate_statement(plan, chosen, 5, &mut peers, LIMITS, &mut outbox);
    // No more peers are used than without priority.
    assert_eq!(
        outbox.into_actions(),
        vec![
            created(&a),
            Action::SendValidationMessage(vec![peer(3)], carried(ValidationVersion::V1, &a)),
            Action::SendValidationMessage(
                vec![peer(1), peer(4)],
                carried(ValidationVersion::V2, &a),
            ),
            Action::SendValidationMessage(
                vec![peer(5), peer(2)],
                carried(ValidationVersion::V3, &a),
            ),
        ]
    );
    assert_eq!(new, vec![peer(3), peer(5), peer(1), peer(2), peer(4)]);
    let fingerprint = (a.payload.to_compact(), a.validator_index);
    assert!(!peers.get(&peer(5)).unwrap().can_send(&HEAD, &fingerprint));
    assert!(peers.get(&peer(6)).unwrap().can_send(&HEAD, &fingerprint));
}

#[test]
fn priority_peers_make_up_for_chosen_ones() {
    let a = signed(Statement::Seconded(receipt(1)), 0);
    let mut peers = ListMap::new();
    for n in 1..6 {
        peers.insert(peer(n), tracking(ValidationVersion::V1));
    }
    let priority = vec![peer(1), peer(2), peer(3)];
    let plan = plan_circulation(&peers, HEAD, comparator(&a), a.clone(), priority.clone(), SCOPE);
    let mut outbox = Outbox::new();
    let _ = circulate_statement(plan, vec![peer(4), peer(5)], 2, &mut peers, LIMITS, &mut outbox);
    assert_eq!(
        outbox.into_actions(),
        vec![
            created(&a),
            Action::SendValidationMessage(priority, carried(ValidationVersion::V1, &a)),
        ]
    );
}

#[test]
fn no_fewer_peers_are_used_than_without_priority() {
    // All of ten peers are routed to, so all would be used; three of them have priority.
    let a = signed(Statement::Seconded(receipt(1)), 0);
    let mut peers = ListMap::new();
    for n in 1..11 {
        peers.insert(peer(n), tracking(ValidationVersion::V1));
    }
    let priority = vec![peer(4), peer(2), peer(9)];
    let plan = plan_circulation(&peers, HEAD, comparator(&a), a.clone(), priority.clone(), SCOPE);
    let chosen = plan.other_peers.clone();
    assert_eq!(chosen.len(), 7);
    let mut outbox = Outbox::new();
    let new = circulate_statement(plan, chosen.clone(), 10, &mut peers, LIMITS, &mut outbox);
    assert_eq!(new.len(), 10);
    let mut to = priority;
    to.extend(chosen);
    assert_eq!(
        outbox.into_actions()[1],
        Action::SendValidationMessage(to, carried(ValidationVersion::V1, &a))
    );
}

#[test]
fn dependents_follow_the_statement() {
    let seconded = signed(Statement::Seconded(receipt(1)), 0);
    let valid = signed(Statement::Valid(receipt(1).hash()), 1);
    let head = head_with(&[&seconded, &valid]);
    let mut peers = ListMap::new();
    peers.insert(peer(1), tracking(ValidationVersion::V1));
    let fingerprint = (seconded.payload.to_compact(), seconded.validator_index);
    assert!(peers.get_mut(&peer(1)).unwrap().send(&HEAD, &fingerprint));
    let mut outbox = Outbox::new();
    send_dependents(
        &vec![peer(1), peer(2)],
        &mut peers,
        HEAD,
        receipt(1).hash(),
        &head,
        LIMITS,
        &mut outbox,
    );
    assert_eq!(
        outbox.into_actions(),
        vec![
            Action::SendValidationMessage(vec![peer(1)], carried(ValidationVersion::V1, &valid)),
            Action::CountStatementDistributed,
        ]
    );
}

#[test]
fn luck_depends_on_the_topology() {
    assert_eq!(luck(true, 0, LIMITS), Luck::Sure);
    assert_eq!(luck(false, 1, LIMITS), Luck::Draw { favourable: 2, total: 3 });
    assert_eq!(luck(false, 3, LIMITS), Luck::Draw { favourable: 0, total: 3 });
    assert_eq!(luck(false, 9, LIMITS), Luck::Draw { favourable: 0, total: 3 });
}

#[test]
fn peer_view_update_sends_messages() {
    let a = signed(Statement::Seconded(receipt(1)), 0);
    let mut heads = ListMap::new();
    heads.insert(HEAD, head_with(&[&a]));
    let other = BlockHash([7; 32]);
    let mut data = PeerData::new(ValidationVersion::V1, None);
    let mut outbox = Outbox::new();
    let view = PeerView { heads: vec![other, HEAD] };
    update_peer_view_and_maybe_send_unlocked(
        peer(1),
        &mut data,
        &heads,
        view,
        true,
        LIMITS,
        &mut outbox,
    );
    assert_eq!(outbox.into_actions().len(), 3);
    assert!(data.tracks_head(&other));
    assert_eq!(data.was_sent_candidate(&HEAD, &receipt(1).hash()), Some(true));
    // The head stays in the view, and nothing is sent again.
    let mut outbox = Outbox::new();
    let view = PeerView { heads: vec![HEAD] };
    update_peer_view_and_maybe_send_unlocked(
        peer(1),
        &mut data,
        &heads,
        view,
        true,
        LIMITS,
        &mut outbox,
    );
    assert!(outbox.into_actions().is_empty());
    assert!(!data.tracks_head(&other));
    assert_eq!(data.was_sent_candidate(&HEAD, &receipt(1).hash()), Some(true));
}

#[test]
fn unlucky_peer_is_told_nothing() {
    let a = signed(Statement::Seconded(receipt(1)), 0);
    let mut heads = ListMap::new();
    heads.insert(HEAD, head_with(&[&a]));
    let mut data = PeerData::new(ValidationVersion::V1, None);
    let mut outbox = Outbox::new();
    let view = PeerView { heads: vec![HEAD] };
    update_peer_view_and_maybe_send_unlocked(
        peer(1),
        &mut data,
        &heads,
        view,
        false,
        LIMITS,
        &mut outbox,
    );
    assert!(outbox.into_actions().is_empty());
    assert_eq!(data.was_sent_candidate(&HEAD, &receipt(1).hash()), Some(false));
}
