//! Events, one after the other.
use futures::FutureExt;
use futures::channel::oneshot;
use futures::future::RemoteHandle;
use parity_scale_codec::Encode;
use polkadot_primitives::vstaging::{CandidateDescriptorV2, CommittedCandidateReceiptV2};
use polkadot_primitives::{CandidateCommitments, CoreIndex, SigningContext, ValidationCodeHash};
use sp_core::Pair;
use sp_core::sr25519;
use statement_distribution::collections::ListSet;
use statement_distribution::distribute::GossipScope;
use statement_distribution::error::{JfyiError, RuntimeFailure, ValidationDataAnswer};
use statement_distribution::head::ValidatorSet;
use statement_distribution::ids::{
    AuthorityDiscoveryId, BlockHash, CandidateHash, ParaId, PeerId, ValidatorId, ValidatorIndex,
    ValidatorSignature,
};
use statement_distribution::incoming::{IncomingStep, PendingStatement};
use statement_distribution::message::{
    Action, CompatMessage, NetworkLimits, Outbox, StatementDistributionMessage, StatementMetadata,
    ValidationVersion, VersionedMessage,
};
use statement_distribution::peer::PeerView;
use statement_distribution::reputation::Rep;
use statement_distribution::session::SessionGroups;
use statement_distribution::state::{NetworkUpdate, State, settle_response};
use statement_distribution::statement::{
    CommittedCandidateReceipt, PersistedValidationData, Signed, SignedFullStatement, Statement,
    StatementWithPVD,
};
use std::sync::Arc;

const HEAD: BlockHash = BlockHash([9; 32]);
const SESSION: u32 = 4;
const LIMITS: NetworkLimits = NetworkLimits { min_gossip_peers: 3, max_notification_size: 100_000 };

fn receipt(para: u32) -> CommittedCandidateReceipt {
    let zero = polkadot_primitives::Hash::zero();
    let outside = CommittedCandidateReceiptV2 {
        descriptor: CandidateDescriptorV2::new(
            para.into(),
            polkadot_primitives::Hash::from(HEAD.0),
            CoreIndex(0),
            SESSION,
            zero,
            zero,
            zero,
            zero,
            ValidationCodeHash::from(zero),
        ),
        commitments: CandidateCommitments::default(),
    };
    CommittedCandidateReceipt::from_encoded(outside.encode()).unwrap()
}

fn key_pair(n: u8) -> sr25519::Pair {
    sr25519::Pair::from_seed(&[n; 32])
}

fn key(n: u8) -> ValidatorId {
    let mut bytes = [0; 32];
    bytes.copy_from_slice(key_pair(n).public().as_ref());
    ValidatorId(bytes)
}

/// A statement of validator `v`, whose key is made of `v + 1`.
fn signed(payload: Statement, v: u32) -> SignedFullStatement {
    let hash = polkadot_primitives::CandidateHash(polkadot_primitives::Hash::from(
        payload.candidate_hash().0,
    ));
    let compact = match &payload {
        Statement::Seconded(_) => polkadot_primitives::CompactStatement::Seconded(hash),
        Statement::Valid(_) => polkadot_primitives::CompactStatement::Valid(hash),
    };
    let context = SigningContext {
        session_index: SESSION,
        parent_hash: polkadot_primitives::Hash::from(HEAD.0),
    };
    let made = key_pair(v as u8 + 1).sign(&compact.signing_payload(&context));
    let mut bytes = [0; 64];
    bytes.copy_from_slice(made.as_ref());
    Signed { payload, validator_index: ValidatorIndex(v), signature: ValidatorSignature(bytes) }
}

fn peer(n: u8) -> PeerId {
    PeerId { len: 38, bytes: [n; 76] }
}

fn validators() -> ValidatorSet {
    ValidatorSet::new(vec![key(1), key(2), key(3)])
}

fn task() -> RemoteHandle<()> {
    let (_, handle) = futures::future::ready(()).remote_handle();
    handle
}

fn pvd() -> PersistedValidationData {
    PersistedValidationData { encoded: Arc::new(vec![1, 2, 3]) }
}

fn given() -> ValidationDataAnswer<u8> {
    Ok(Some(pvd()))
}

fn ids(list: &[u8]) -> ListSet<AuthorityDiscoveryId> {
    let mut set = ListSet::new();
    for n in list {
        set.insert(AuthorityDiscoveryId([*n; 32]));
    }
    set
}

/// A state with the head and with peers 1, 2 and 3, which work on it.
fn working_state() -> State {
    let mut state = State::new();
    state.handle_activated_leaf(HEAD, validators(), SESSION);
    for n in 1..4 {
        state.peer_connected(peer(n), Some(ValidationVersion::V1), None);
        let mut outbox = Outbox::new();
        let view = PeerView { heads: vec![HEAD] };
        state.peer_view_change(peer(n), view, true, LIMITS, &mut outbox);
        assert!(outbox.into_actions().is_empty());
    }
    state
}

fn plain(statement: &SignedFullStatement) -> VersionedMessage {
    VersionedMessage::V1(StatementDistributionMessage::Statement(
        HEAD,
        statement.clone().into_unchecked(),
    ))
}

fn metadata(statement: &SignedFullStatement) -> StatementMetadata {
    StatementMetadata {
        relay_parent: HEAD,
        candidate_hash: statement.payload.candidate_hash(),
        signed_by: statement.validator_index,
        signature: statement.signature,
    }
}

fn large(statement: &SignedFullStatement) -> VersionedMessage {
    VersionedMessage::V1(StatementDistributionMessage::LargeStatement(metadata(statement)))
}

fn hand_in(state: &mut State, n: u8, message: VersionedMessage) -> (IncomingStep, Vec<Action>) {
    assert!(state.can_count_message(&peer(n), &message));
    let mut outbox = Outbox::new();
    let step = state.handle_incoming(peer(n), message, LIMITS, &mut outbox);
    (step, outbox.into_actions())
}

fn hand_in_released(
    state: &mut State,
    n: u8,
    message: VersionedMessage,
) -> (IncomingStep, Vec<Action>) {
    assert!(state.can_count_message(&peer(n), &message));
    let mut outbox = Outbox::new();
    let step = state.handle_released(peer(n), message, LIMITS, &mut outbox);
    (step, outbox.into_actions())
}

/// Hands in a `Seconded` statement and what it waits for.
fn take_in(state: &mut State, n: u8, statement: &SignedFullStatement) -> Vec<Action> {
    let (step, mut actions) = hand_in(state, n, plain(statement));
    match step {
        IncomingStep::FetchValidationData(pending) => {
            let mut outbox = Outbox::new();
            let step = state.validation_data_fetched(pending, given(), &mut outbox);
            assert!(matches!(step, IncomingStep::Accepted(_)));
            actions.append(&mut outbox.into_actions());
        },
        IncomingStep::Accepted(_) => {},
        _ => panic!("the statement is new"),
    }
    actions
}

fn backed(statement: &SignedFullStatement) -> Action {
    let payload = match &statement.payload {
        Statement::Seconded(receipt) => StatementWithPVD::Seconded(receipt.clone(), pvd()),
        Statement::Valid(h) => StatementWithPVD::Valid(*h),
    };
    Action::BackStatement(
        HEAD,
        Signed {
            payload,
            validator_index: statement.validator_index,
            signature: statement.signature,
        },
    )
}

#[test]
fn new_statement_is_accepted_and_circulated() {
    let mut state = working_state();
    let a = signed(Statement::Seconded(receipt(1)), 0);
    let (step, actions) = hand_in(&mut state, 1, plain(&a));
    assert!(actions.is_empty());
    let pending = match step {
        IncomingStep::FetchValidationData(pending) => pending,
        _ => panic!("the validation data is not there"),
    };
    assert_eq!(pending.para_id(), ParaId(1));
    assert_eq!(pending.relay_parent, HEAD);
    let mut outbox = Outbox::new();
    let step = state.validation_data_fetched(pending, given(), &mut outbox);
    assert_eq!(
        outbox.into_actions(),
        vec![Action::ModifyReputation(peer(1), Rep::BenefitValidStatementFirst), backed(&a)]
    );
    let accepted = match step {
        IncomingStep::Accepted(accepted) => accepted,
        _ => panic!("the statement is new"),
    };
    assert_eq!(accepted.statement, a);
    let plan = state.plan_accepted(accepted);
    assert_eq!(plan.scope, GossipScope::ByValidator(HEAD, ValidatorIndex(0)));
    // It does not go back to where it came from.
    assert_eq!(plan.other_peers, vec![peer(2), peer(3)]);
    assert!(plan.priority_peers.is_empty());
    let chosen = vec![peer(3)];
    assert!(state.can_circulate(&plan, &chosen));
    assert!(!state.can_circulate(&plan, &vec![peer(9)]));
    let mut outbox = Outbox::new();
    assert_eq!(state.circulate(plan, chosen, 1, LIMITS, &mut outbox), vec![peer(3)]);
    assert_eq!(
        outbox.into_actions(),
        vec![
            Action::CountCreatedMessage(receipt(1).encoded().len() + 69),
            Action::SendValidationMessage(vec![peer(3)], plain(&a)),
        ]
    );
}

#[test]
fn second_statement_finds_the_validation_data_in_the_cache() {
    let mut state = working_state();
    let a = signed(Statement::Seconded(receipt(1)), 0);
    take_in(&mut state, 1, &a);
    let b = signed(Statement::Seconded(receipt(1)), 1);
    let (step, actions) = hand_in(&mut state, 2, plain(&b));
    assert!(matches!(step, IncomingStep::Accepted(_)));
    // The peer has just learned about the candidate and is told what we know.
    assert_eq!(
        actions,
        vec![
            Action::CountCreatedMessage(receipt(1).encoded().len() + 69),
            Action::SendValidationMessage(vec![peer(2)], plain(&a)),
            Action::CountStatementDistributed,
            Action::ModifyReputation(peer(2), Rep::BenefitValidStatementFirst),
            backed(&b),
        ]
    );
}

#[test]
fn statement_without_validation_data_is_not_accepted() {
    let mut state = working_state();
    let a = signed(Statement::Seconded(receipt(1)), 0);
    let (step, _) = hand_in(&mut state, 1, plain(&a));
    let pending = match step {
        IncomingStep::FetchValidationData(pending) => pending,
        _ => panic!("the validation data is not there"),
    };
    let answers: [ValidationDataAnswer<u8>; 3] =
        [Ok(None), Err(RuntimeFailure::NoAnswer), Err(RuntimeFailure::Failed(1))];
    for answer in answers {
        let pending = PendingStatement {
            peer: pending.peer,
            relay_parent: pending.relay_parent,
            receipt: pending.receipt.clone(),
            validator_index: pending.validator_index,
            signature: pending.signature,
        };
        let mut outbox = Outbox::new();
        assert_eq!(state.validation_data_fetched(pending, answer, &mut outbox), IncomingStep::Done);
        assert!(outbox.into_actions().is_empty());
    }
    // Nothing was stored, so another peer can still bring it.
    take_in(&mut state, 2, &a);
}

#[test]
fn known_statement_is_a_benefit() {
    let mut state = working_state();
    let a = signed(Statement::Seconded(receipt(1)), 0);
    take_in(&mut state, 1, &a);
    let (step, actions) = hand_in(&mut state, 2, plain(&a));
    assert_eq!(step, IncomingStep::Done);
    assert_eq!(actions, vec![Action::ModifyReputation(peer(2), Rep::BenefitValidStatement)]);
    let (_, actions) = hand_in(&mut state, 2, plain(&a));
    assert_eq!(actions, vec![Action::ModifyReputation(peer(2), Rep::CostDuplicateStatement)]);
}

#[test]
fn valid_statement_of_an_unknown_candidate_costs_once() {
    let mut state = working_state();
    let valid = signed(Statement::Valid(receipt(1).hash()), 1);
    let (step, actions) = hand_in(&mut state, 1, plain(&valid));
    assert_eq!(step, IncomingStep::Done);
    assert_eq!(
        actions,
        vec![
            Action::CountUnexpectedValid,
            Action::ModifyReputation(peer(1), Rep::CostUnexpectedStatementUnknownCandidate),
        ]
    );
    let (_, actions) = hand_in(&mut state, 1, plain(&valid));
    assert_eq!(actions, vec![Action::CountUnexpectedValid]);
}

#[test]
fn valid_statement_is_accepted_behind_a_seconded_one() {
    let mut state = working_state();
    let a = signed(Statement::Seconded(receipt(1)), 0);
    take_in(&mut state, 1, &a);
    let valid = signed(Statement::Valid(receipt(1).hash()), 1);
    let (step, actions) = hand_in(&mut state, 1, plain(&valid));
    assert!(matches!(step, IncomingStep::Accepted(_)));
    assert_eq!(
        actions,
        vec![Action::ModifyReputation(peer(1), Rep::BenefitValidStatementFirst), backed(&valid)]
    );
}

#[test]
fn third_seconded_statement_of_a_validator_is_unexpected() {
    let mut state = working_state();
    for para in 1..3 {
        take_in(&mut state, 1, &signed(Statement::Seconded(receipt(para)), 0));
    }
    let third = signed(Statement::Seconded(receipt(3)), 0);
    let (step, actions) = hand_in(&mut state, 1, plain(&third));
    assert_eq!(step, IncomingStep::Done);
    assert_eq!(
        actions,
        vec![
            Action::CountUnexpectedSeconded,
            Action::ModifyReputation(peer(1), Rep::CostUnexpectedStatementRemote),
        ]
    );
    // From a peer that has not told us of the others it is of no use.
    let (step, actions) = hand_in(&mut state, 2, plain(&third));
    assert_eq!(step, IncomingStep::Done);
    assert!(actions.is_empty());
}

#[test]
fn forged_statement_costs() {
    let mut state = working_state();
    let mut a = signed(Statement::Seconded(receipt(1)), 0);
    a.validator_index = ValidatorIndex(1);
    let (step, actions) = hand_in(&mut state, 1, plain(&a));
    assert_eq!(step, IncomingStep::Done);
    assert_eq!(actions, vec![Action::ModifyReputation(peer(1), Rep::CostInvalidSignature)]);
}

#[test]
fn message_for_an_unknown_head_costs_unless_it_was_active() {
    let mut state = working_state();
    let a = signed(Statement::Seconded(receipt(1)), 0);
    state.handle_deactivate_leaf(HEAD);
    assert!(!state.contains_relay_parent(&HEAD));
    let (step, actions) = hand_in(&mut state, 1, plain(&a));
    assert_eq!(step, IncomingStep::Done);
    assert!(actions.is_empty());
    for n in 10..20 {
        state.handle_activated_leaf(BlockHash([n; 32]), validators(), SESSION);
        state.handle_deactivate_leaf(BlockHash([n; 32]));
        // A head that is not active is not noted again.
        state.handle_deactivate_leaf(BlockHash([n; 32]));
    }
    let (_, actions) = hand_in(&mut state, 1, plain(&a));
    assert_eq!(actions, vec![Action::ModifyReputation(peer(1), Rep::CostUnexpectedStatement)]);
}

#[test]
fn message_of_a_peer_that_does_not_work_on_the_head_costs() {
    let mut state = working_state();
    state.peer_connected(peer(4), Some(ValidationVersion::V2), None);
    let a = signed(Statement::Seconded(receipt(1)), 0);
    let (_, actions) = hand_in(&mut state, 4, plain(&a));
    assert_eq!(
        actions,
        vec![Action::ModifyReputation(peer(4), Rep::CostUnexpectedStatementMissingKnowledge)]
    );
    let (_, actions) = hand_in(&mut state, 4, large(&a));
    assert_eq!(
        actions,
        vec![Action::ModifyReputation(peer(4), Rep::CostUnexpectedStatementMissingKnowledge)]
    );
}

#[test]
fn strangers_and_other_messages_are_ignored() {
    let mut state = working_state();
    let a = signed(Statement::Seconded(receipt(1)), 0);
    assert_eq!(hand_in(&mut state, 9, plain(&a)), (IncomingStep::Done, vec![]));
    for message in
        [VersionedMessage::V2(CompatMessage::Other), VersionedMessage::V3(CompatMessage::Other)]
    {
        assert_eq!(hand_in(&mut state, 1, message), (IncomingStep::Done, vec![]));
    }
}

#[test]
fn peer_floods_with_statements_about_one_candidate() {
    let mut state = State::new();
    state.handle_activated_leaf(HEAD, ValidatorSet::new(vec![key(1)]), SESSION);
    state.peer_connected(peer(1), Some(ValidationVersion::V1), None);
    let mut outbox = Outbox::new();
    let view = PeerView { heads: vec![HEAD] };
    state.peer_view_change(peer(1), view, true, LIMITS, &mut outbox);
    take_in(&mut state, 1, &signed(Statement::Seconded(receipt(1)), 0));
    let valid = signed(Statement::Valid(receipt(1).hash()), 0);
    let (step, _) = hand_in(&mut state, 1, plain(&valid));
    assert!(matches!(step, IncomingStep::Accepted(_)));
    let more = signed(Statement::Valid(receipt(1).hash()), 1);
    let (_, actions) = hand_in(&mut state, 1, plain(&more));
    assert_eq!(actions, vec![Action::ModifyReputation(peer(1), Rep::CostApparentFlood)]);
}

#[test]
fn large_statement_is_fetched_and_its_messages_replayed() {
    let mut state = working_state();
    let a = signed(Statement::Seconded(receipt(1)), 0);
    let hash = receipt(1).hash();
    let (step, actions) = hand_in(&mut state, 1, large(&a));
    assert!(actions.is_empty());
    assert_eq!(step, IncomingStep::LaunchRequest(ValidationVersion::V1, metadata(&a)));
    state.request_launched(peer(1), ValidationVersion::V1, metadata(&a), task());
    // The task wants more peers before there are any.
    let (tx, mut rx) = oneshot::channel();
    assert_eq!(state.more_peers_wanted(HEAD, hash, tx), Ok(()));
    assert_eq!(rx.try_recv(), Ok(None));
    let (step, actions) = hand_in(&mut state, 2, large(&a));
    assert_eq!((step, actions), (IncomingStep::Done, vec![]));
    assert_eq!(rx.try_recv(), Ok(Some(vec![peer(2)])));
    // A peer that was offered is not offered again, one that is new is kept.
    let _ = hand_in(&mut state, 2, large(&a));
    let _ = hand_in(&mut state, 3, large(&a));
    let (tx, mut rx) = oneshot::channel();
    assert_eq!(state.more_peers_wanted(HEAD, hash, tx), Ok(()));
    assert_eq!(rx.try_recv(), Ok(Some(vec![peer(3)])));
    // The payload comes.
    let mut outbox = Outbox::new();
    let released = state
        .fetch_finished(HEAD, hash, peer(2), receipt(1), vec![peer(1), peer(3)], &mut outbox)
        .unwrap();
    assert_eq!(
        outbox.into_actions(),
        vec![
            Action::ModifyReputation(peer(1), Rep::CostFetchFail),
            Action::ModifyReputation(peer(3), Rep::CostFetchFail),
            Action::ModifyReputation(peer(2), Rep::BenefitValidResponse),
        ]
    );
    assert_eq!(
        released,
        vec![
            (peer(1), vec![large(&a)]),
            (peer(2), vec![large(&a), large(&a)]),
            (peer(3), vec![large(&a)]),
        ]
    );
    let (step, _) = hand_in_released(&mut state, 1, large(&a));
    match step {
        IncomingStep::FetchValidationData(pending) => assert_eq!(pending.receipt, receipt(1)),
        _ => panic!("the payload is there"),
    }
}

#[test]
fn peers_that_the_task_does_not_take_are_kept() {
    let mut state = working_state();
    let a = signed(Statement::Seconded(receipt(1)), 0);
    let hash = receipt(1).hash();
    let _ = hand_in(&mut state, 1, large(&a));
    state.request_launched(peer(1), ValidationVersion::V1, metadata(&a), task());
    let (tx, rx) = oneshot::channel();
    assert_eq!(state.more_peers_wanted(HEAD, hash, tx), Ok(()));
    drop(rx);
    let _ = hand_in(&mut state, 2, large(&a));
    let (tx, rx) = oneshot::channel();
    drop(rx);
    assert_eq!(state.more_peers_wanted(HEAD, hash, tx), Ok(()));
    let (tx, mut rx) = oneshot::channel();
    assert_eq!(state.more_peers_wanted(HEAD, hash, tx), Ok(()));
    assert_eq!(rx.try_recv(), Ok(Some(vec![peer(2)])));
}

#[test]
fn valid_statement_waits_while_the_payload_is_fetched() {
    let mut state = working_state();
    let a = signed(Statement::Seconded(receipt(1)), 0);
    let b = signed(Statement::Seconded(receipt(1)), 1);
    let hash = receipt(1).hash();
    take_in(&mut state, 1, &a);
    let _ = hand_in(&mut state, 1, large(&b));
    state.request_launched(peer(1), ValidationVersion::V1, metadata(&b), task());
    let valid = signed(Statement::Valid(hash), 2);
    assert_eq!(hand_in(&mut state, 1, plain(&valid)), (IncomingStep::Done, vec![]));
    let mut outbox = Outbox::new();
    let released =
        state.fetch_finished(HEAD, hash, peer(1), receipt(1), vec![], &mut outbox).unwrap();
    assert_eq!(released, vec![(peer(1), vec![large(&b), plain(&valid)])]);
    let (step, _) = hand_in_released(&mut state, 1, plain(&valid));
    assert!(matches!(step, IncomingStep::Accepted(_)));
}

#[test]
fn wrong_payload_costs() {
    let mut state = working_state();
    let a = signed(Statement::Seconded(receipt(1)), 0);
    let hash = receipt(1).hash();
    let _ = hand_in(&mut state, 1, large(&a));
    state.request_launched(peer(1), ValidationVersion::V1, metadata(&a), task());
    let mut outbox = Outbox::new();
    let _ = state.fetch_finished(HEAD, hash, peer(1), receipt(2), vec![], &mut outbox);
    let (step, actions) = hand_in_released(&mut state, 1, large(&a));
    assert_eq!(step, IncomingStep::Done);
    assert_eq!(actions, vec![Action::ModifyReputation(peer(1), Rep::CostWrongHash)]);
}

#[test]
fn too_many_large_statements_cost() {
    let mut state = working_state();
    let a = signed(Statement::Seconded(receipt(1)), 0);
    for _ in 0..20 {
        let _ = hand_in(&mut state, 1, large(&a));
    }
    let (step, actions) = hand_in(&mut state, 1, large(&a));
    assert_eq!(step, IncomingStep::Done);
    assert_eq!(actions, vec![Action::ModifyReputation(peer(1), Rep::CostApparentFlood)]);
}

#[test]
fn end_of_a_fetch_that_nobody_knows_of() {
    let mut state = working_state();
    let hash = receipt(1).hash();
    let other = BlockHash([8; 32]);
    let mut outbox = Outbox::new();
    assert_eq!(
        state.fetch_finished(other, hash, peer(1), receipt(1), vec![], &mut outbox),
        Err(JfyiError::NoSuchHead(other))
    );
    assert_eq!(
        state.fetch_finished(HEAD, hash, peer(1), receipt(1), vec![], &mut outbox),
        Err(JfyiError::NoSuchLargeStatementStatus(HEAD, hash))
    );
    assert_eq!(outbox.into_actions().len(), 2);
    let (tx, _rx) = oneshot::channel();
    assert_eq!(
        state.more_peers_wanted(other, hash, tx),
        Err(JfyiError::NoSuchHead(other))
    );
    let (tx, _rx) = oneshot::channel();
    assert_eq!(
        state.more_peers_wanted(HEAD, hash, tx),
        Err(JfyiError::NoSuchLargeStatementStatus(HEAD, hash))
    );
}

#[test]
fn our_payload_makes_a_fetch_pointless() {
    let mut state = working_state();
    let limits = NetworkLimits { max_notification_size: 2, ..LIMITS };
    let a = signed(Statement::Seconded(receipt(1)), 0);
    let hash = receipt(1).hash();
    assert_eq!(state.prepare_local_statement(HEAD, &a, limits), Ok(()));
    let (tx, mut rx) = oneshot::channel();
    assert_eq!(state.more_peers_wanted(HEAD, hash, tx), Ok(()));
    assert!(rx.try_recv().is_err());
    let mut outbox = Outbox::new();
    let released = state.fetch_finished(HEAD, hash, peer(1), receipt(1), vec![], &mut outbox);
    assert_eq!(released, Ok(vec![]));
}

fn session() -> SessionGroups {
    SessionGroups {
        our_group: Some(1),
        our_index: Some(ValidatorIndex(0)),
        validator_groups: vec![
            vec![ValidatorIndex(3)],
            vec![ValidatorIndex(2), ValidatorIndex(0), ValidatorIndex(1)],
        ],
        discovery_keys: (0..4).map(|n| AuthorityDiscoveryId([n; 32])).collect(),
    }
}

#[test]
fn statement_of_ours_goes_to_our_group_first() {
    let mut state = working_state();
    state.updated_authority_ids(peer(3), ids(&[2]));
    state.updated_authority_ids(peer(1), ids(&[0, 3]));
    let a = signed(Statement::Seconded(receipt(1)), 0);
    assert_eq!(state.prepare_local_statement(HEAD, &a, LIMITS), Ok(()));
    assert!(session().is_consistent());
    let plan = state.share_local_statement(HEAD, a.clone(), &session()).unwrap();
    assert_eq!(plan.scope, GossipScope::Grid(SESSION));
    assert_eq!(plan.priority_peers, vec![peer(3)]);
    assert_eq!(plan.other_peers, vec![peer(1), peer(2)]);
    let mut outbox = Outbox::new();
    state.circulate_statement_and_dependents(plan, vec![peer(1)], 1, LIMITS, &mut outbox);
    assert_eq!(
        outbox.into_actions(),
        vec![
            Action::CountCreatedMessage(receipt(1).encoded().len() + 69),
            Action::SendValidationMessage(vec![peer(3), peer(1)], plain(&a)),
        ]
    );
    // It is known now.
    assert!(state.share_local_statement(HEAD, a, &session()).is_none());
}

#[test]
fn dependents_of_our_statement_are_sent_to_peers_that_learn_of_the_candidate() {
    let mut state = working_state();
    let other = signed(Statement::Seconded(receipt(1)), 1);
    let valid = signed(Statement::Valid(receipt(1).hash()), 2);
    take_in(&mut state, 1, &other);
    take_in(&mut state, 1, &valid);
    let ours = signed(Statement::Seconded(receipt(1)), 0);
    let none = SessionGroups {
        our_group: None,
        our_index: None,
        validator_groups: vec![],
        discovery_keys: vec![],
    };
    let plan = state.share_local_statement(HEAD, ours.clone(), &none).unwrap();
    let mut outbox = Outbox::new();
    state.circulate_statement_and_dependents(plan, vec![peer(2)], 1, LIMITS, &mut outbox);
    let size = receipt(1).encoded().len() + 69;
    assert_eq!(
        outbox.into_actions(),
        vec![
            Action::CountCreatedMessage(size),
            Action::SendValidationMessage(vec![peer(2)], plain(&ours)),
            Action::CountCreatedMessage(size),
            Action::SendValidationMessage(vec![peer(2)], plain(&other)),
            Action::CountStatementDistributed,
            Action::SendValidationMessage(vec![peer(2)], plain(&valid)),
            Action::CountStatementDistributed,
        ]
    );
}

#[test]
fn statement_of_ours_needs_an_active_head() {
    let mut state = State::new();
    let limits = NetworkLimits { max_notification_size: 2, ..LIMITS };
    let a = signed(Statement::Seconded(receipt(1)), 0);
    assert_eq!(
        state.prepare_local_statement(HEAD, &a, limits),
        Err(JfyiError::NoSuchHead(HEAD))
    );
    assert_eq!(state.prepare_local_statement(HEAD, &a, LIMITS), Ok(()));
    assert!(state.share_local_statement(HEAD, a, &session()).is_none());
}

#[test]
fn groups_and_keys_that_do_not_fit() {
    let mut wrong = session();
    wrong.our_group = Some(2);
    assert!(!wrong.is_consistent());
    wrong.our_group = Some(0);
    wrong.discovery_keys.truncate(3);
    assert!(!wrong.is_consistent());
    // A key of our own is not needed.
    wrong.our_index = Some(ValidatorIndex(3));
    assert!(wrong.is_consistent());
    wrong.our_group = None;
    assert!(wrong.is_consistent());
}

#[test]
fn payload_is_given_to_peers_that_were_told_of_the_candidate() {
    let mut state = working_state();
    let limits = NetworkLimits { max_notification_size: 2, ..LIMITS };
    let a = signed(Statement::Seconded(receipt(1)), 0);
    let hash = receipt(1).hash();
    assert_eq!(state.prepare_local_statement(HEAD, &a, limits), Ok(()));
    let plan = state.share_local_statement(HEAD, a.clone(), &session()).unwrap();
    let mut outbox = Outbox::new();
    state.circulate_statement_and_dependents(plan, vec![peer(2)], 1, limits, &mut outbox);
    assert_eq!(
        outbox.into_actions()[1],
        Action::SendValidationMessage(vec![peer(2)], large(&a))
    );
    assert_eq!(state.get_data(peer(2), HEAD, hash), Ok(receipt(1)));
    let (tx, mut rx) = oneshot::channel();
    assert_eq!(state.handle_responder_message(peer(2), HEAD, hash, tx), Ok(()));
    assert_eq!(rx.try_recv(), Ok(Some(receipt(1))));
    let (tx, rx) = oneshot::channel();
    drop(rx);
    assert_eq!(
        state.handle_responder_message(peer(2), HEAD, hash, tx),
        Err(JfyiError::ResponderGetDataCanceled)
    );
    assert_eq!(
        state.get_data(peer(1), HEAD, hash),
        Err(JfyiError::RequestedUnannouncedCandidate(peer(1), hash))
    );
    let (tx, mut rx) = oneshot::channel();
    assert_eq!(
        state.handle_responder_message(peer(1), HEAD, hash, tx),
        Err(JfyiError::RequestedUnannouncedCandidate(peer(1), hash))
    );
    assert!(rx.try_recv().is_err());
    assert_eq!(state.get_data(peer(9), HEAD, hash), Err(JfyiError::NoSuchPeer(peer(9))));
    let other = BlockHash([8; 32]);
    assert_eq!(state.get_data(peer(2), other, hash), Err(JfyiError::NoSuchHead(other)));
    state.handle_deactivate_leaf(HEAD);
    assert_eq!(state.get_data(peer(2), HEAD, hash), Err(JfyiError::NoSuchHead(HEAD)));
}

#[test]
fn payload_that_is_not_there_is_not_given() {
    let mut state = working_state();
    let a = signed(Statement::Seconded(receipt(1)), 0);
    let hash = receipt(1).hash();
    let plan = state.share_local_statement(HEAD, a, &session()).unwrap();
    let mut outbox = Outbox::new();
    state.circulate_statement_and_dependents(plan, vec![peer(2)], 1, LIMITS, &mut outbox);
    assert_eq!(
        state.get_data(peer(2), HEAD, hash),
        Err(JfyiError::NoSuchFetchedLargeStatement(HEAD, hash))
    );
}

#[test]
fn response_that_comes_back_is_canceled() {
    assert_eq!(settle_response(Ok(())), Ok(()));
    assert_eq!(settle_response(Err(receipt(1))), Err(JfyiError::ResponderGetDataCanceled));
}

#[test]
fn authorities_come_and_go_with_their_peers() {
    let mut state = working_state();
    let a = signed(Statement::Seconded(receipt(1)), 0);
    state.peer_connected(peer(4), Some(ValidationVersion::V1), Some(ids(&[1, 2])));
    let mut outbox = Outbox::new();
    let view = PeerView { heads: vec![HEAD] };
    state.peer_view_change(peer(4), view, true, LIMITS, &mut outbox);
    state.updated_authority_ids(peer(4), ids(&[2]));
    state.updated_authority_ids(peer(3), ids(&[1]));
    let plan = state.share_local_statement(HEAD, a, &session()).unwrap();
    assert_eq!(plan.priority_peers, vec![peer(4), peer(3)]);
    state.peer_disconnected(&peer(4));
    let b = signed(Statement::Seconded(receipt(2)), 0);
    let plan = state.share_local_statement(HEAD, b, &session()).unwrap();
    assert_eq!(plan.priority_peers, vec![peer(3)]);
    assert_eq!(plan.other_peers, vec![peer(1), peer(2)]);
}

#[test]
fn peer_with_an_unknown_version_is_ignored() {
    let mut state = working_state();
    state.peer_connected(peer(4), None, Some(ids(&[2])));
    let a = signed(Statement::Seconded(receipt(1)), 0);
    assert_eq!(hand_in(&mut state, 4, plain(&a)), (IncomingStep::Done, vec![]));
    let plan = state.share_local_statement(HEAD, a, &session()).unwrap();
    assert!(plan.priority_peers.is_empty());
}

#[test]
fn peer_that_is_new_in_the_topology_is_told_again() {
    let mut state = working_state();
    let a = signed(Statement::Seconded(receipt(1)), 0);
    take_in(&mut state, 1, &a);
    let mut outbox = Outbox::new();
    let added = vec![(peer(2), true), (peer(3), false), (peer(9), true), (peer(1), true)];
    state.new_gossip_topology(&added, LIMITS, &mut outbox);
    let actions = outbox.into_actions();
    assert_eq!(actions.len(), 6);
    assert_eq!(actions[1], Action::SendValidationMessage(vec![peer(2)], plain(&a)));
    assert_eq!(actions[4], Action::SendValidationMessage(vec![peer(1)], plain(&a)));
}

#[test]
fn active_head_is_not_replaced() {
    let mut state = working_state();
    let a = signed(Statement::Seconded(receipt(1)), 0);
    take_in(&mut state, 1, &a);
    state.handle_activated_leaf(HEAD, ValidatorSet::new(vec![]), SESSION + 1);
    assert!(state.contains_relay_parent(&HEAD));
    let (_, actions) = hand_in(&mut state, 2, plain(&a));
    assert_eq!(actions, vec![Action::ModifyReputation(peer(2), Rep::BenefitValidStatement)]);
    assert_ne!(receipt(1).hash(), CandidateHash([0; 32]));
}

#[test]
fn updates_of_the_network_reach_the_state() {
    let mut state = State::new();
    state.handle_activated_leaf(HEAD, validators(), SESSION);
    assert_eq!(state.session_index(&HEAD), Some(SESSION));
    assert_eq!(state.validator(&HEAD, ValidatorIndex(2)), Some(key(3)));
    assert_eq!(state.validator(&HEAD, ValidatorIndex(3)), None);
    assert_eq!(state.validator(&BlockHash([8; 32]), ValidatorIndex(0)), None);
    assert_eq!(state.session_index(&BlockHash([8; 32])), None);
    let view = PeerView { heads: vec![HEAD] };
    let version = Some(ValidationVersion::V1);
    let mut outbox = Outbox::new();
    for update in [
        NetworkUpdate::PeerConnected(peer(1), version, Some(ids(&[2]))),
        NetworkUpdate::PeerViewChange(peer(1), view, true),
        NetworkUpdate::OurViewChange,
        NetworkUpdate::UpdatedAuthorityIds(peer(1), ids(&[1])),
        NetworkUpdate::NewGossipTopology(vec![(peer(1), true)]),
    ] {
        let step = state.handle_network_update(update, LIMITS, &mut outbox);
        assert_eq!(step, IncomingStep::Done);
    }
    let a = signed(Statement::Seconded(receipt(1)), 0);
    let update = NetworkUpdate::PeerMessage(peer(1), plain(&a));
    let step = state.handle_network_update(update, LIMITS, &mut outbox);
    assert!(matches!(step, IncomingStep::FetchValidationData(_)));
    let plan = state.share_local_statement(HEAD, a, &session()).unwrap();
    assert!(plan.priority_peers.is_empty());
    let b = signed(Statement::Seconded(receipt(2)), 0);
    let plan = state.share_local_statement(HEAD, b, &session()).unwrap();
    assert_eq!(plan.priority_peers, vec![peer(1)]);
    let update = NetworkUpdate::PeerDisconnected(peer(1));
    assert_eq!(state.handle_network_update(update, LIMITS, &mut outbox), IncomingStep::Done);
    assert!(outbox.into_actions().is_empty());
    let c = signed(Statement::Seconded(receipt(3)), 1);
    let plan = state.share_local_statement(HEAD, c, &session()).unwrap();
    assert!(plan.priority_peers.is_empty());
    assert!(plan.other_peers.is_empty());
}

#[test]
fn peer_that_is_two_validators_of_our_group_is_sent_to_once() {
    let mut state = working_state();
    state.updated_authority_ids(peer(3), ids(&[1, 2]));
    let a = signed(Statement::Seconded(receipt(1)), 0);
    let plan = state.share_local_statement(HEAD, a.clone(), &session()).unwrap();
    assert_eq!(plan.priority_peers, vec![peer(3)]);
    let mut outbox = Outbox::new();
    state.circulate_statement_and_dependents(plan, vec![peer(1)], 2, LIMITS, &mut outbox);
    assert_eq!(
        outbox.into_actions()[1],
        Action::SendValidationMessage(vec![peer(3), peer(1)], plain(&a))
    );
}

#[test]
fn large_statements_of_a_peer_are_limited_over_all_heads() {
    let mut state = working_state();
    let other = BlockHash([8; 32]);
    state.handle_activated_leaf(other, validators(), SESSION);
    let mut outbox = Outbox::new();
    let view = PeerView { heads: vec![HEAD, other] };
    state.peer_view_change(peer(1), view, true, LIMITS, &mut outbox);
    let a = signed(Statement::Seconded(receipt(1)), 0);
    for _ in 0..20 {
        let _ = hand_in(&mut state, 1, large(&a));
    }
    let there = StatementMetadata { relay_parent: other, ..metadata(&a) };
    let message = VersionedMessage::V1(StatementDistributionMessage::LargeStatement(there));
    let (step, actions) = hand_in(&mut state, 1, message);
    assert_eq!(step, IncomingStep::Done);
    assert_eq!(actions, vec![Action::ModifyReputation(peer(1), Rep::CostApparentFlood)]);
}

#[test]
fn fetched_large_statement_is_counted_once() {
    // Twenty large statements, ten at each of two heads, are all fetched and handled once more.
    let mut state = State::new();
    let other = BlockHash([8; 32]);
    let keys: Vec<_> = (1..11).map(key).collect();
    for head in [HEAD, other] {
        state.handle_activated_leaf(head, ValidatorSet::new(keys.clone()), SESSION);
    }
    state.peer_connected(peer(1), Some(ValidationVersion::V1), None);
    let mut outbox = Outbox::new();
    let view = PeerView { heads: vec![HEAD, other] };
    state.peer_view_change(peer(1), view, true, LIMITS, &mut outbox);
    for v in 0..10 {
        let a = signed(Statement::Seconded(receipt(v)), v);
        let hash = receipt(v).hash();
        // At the other head the signature does not hold, and the message is counted all the same.
        let there = StatementMetadata { relay_parent: other, ..metadata(&a) };
        let message = VersionedMessage::V1(StatementDistributionMessage::LargeStatement(there));
        let (_, actions) = hand_in(&mut state, 1, message);
        assert_eq!(actions, vec![Action::ModifyReputation(peer(1), Rep::CostInvalidSignature)]);
        let (step, _) = hand_in(&mut state, 1, large(&a));
        assert_eq!(step, IncomingStep::LaunchRequest(ValidationVersion::V1, metadata(&a)));
        state.request_launched(peer(1), ValidationVersion::V1, metadata(&a), task());
        let mut outbox = Outbox::new();
        let released =
            state.fetch_finished(HEAD, hash, peer(1), receipt(v), vec![], &mut outbox).unwrap();
        assert_eq!(released, vec![(peer(1), vec![large(&a)])]);
        let (step, _) = hand_in_released(&mut state, 1, large(&a));
        assert!(matches!(step, IncomingStep::FetchValidationData(_)));
    }
    let (_, actions) = hand_in(&mut state, 1, large(&signed(Statement::Seconded(receipt(20)), 0)));
    assert_eq!(actions, vec![Action::ModifyReputation(peer(1), Rep::CostApparentFlood)]);
}

#[test]
fn released_message_of_a_peer_that_left_the_head_costs() {
    let mut state = working_state();
    let a = signed(Statement::Seconded(receipt(1)), 0);
    let mut outbox = Outbox::new();
    state.peer_view_change(peer(1), PeerView { heads: vec![] }, true, LIMITS, &mut outbox);
    let (step, actions) = hand_in_released(&mut state, 1, large(&a));
    assert_eq!(step, IncomingStep::Done);
    assert_eq!(
        actions,
        vec![Action::ModifyReputation(peer(1), Rep::CostUnexpectedStatementMissingKnowledge)]
    );
}
