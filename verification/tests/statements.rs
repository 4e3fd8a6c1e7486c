//! Statements, their signatures, and how they are stored.
use parity_scale_codec::Encode;
use polkadot_primitives::vstaging::{CandidateDescriptorV2, CommittedCandidateReceiptV2};
use polkadot_primitives::{
    CandidateCommitments, CoreIndex, SigningContext, ValidationCode, ValidationCodeHash,
};
use sp_core::Pair;
use sp_core::sr25519;
use statement_distribution::error::{Error, RuntimeFailure, ValidationDataAnswer};
use statement_distribution::fetching::LargeStatementStatus;
use statement_distribution::head::{
    ActiveHeadData, DeniedStatement, NotedStatement, ValidatorSet, check_statement_signature,
};
use statement_distribution::ids::{
    BlockHash, CandidateHash, ParaId, ValidatorId, ValidatorIndex, ValidatorSignature,
};
use statement_distribution::message::{
    Action, CompatMessage, NetworkLimits, Outbox, StatementDistributionMessage, ValidationVersion,
    VersionedMessage, compatible_v1_message, v1_statement_message,
};
use statement_distribution::statement::{
    CommittedCandidateReceipt, CompactStatement, PersistedValidationData, Signed,
    SignedFullStatement, Statement, UncheckedSigned, UncheckedSignedStatement, is_statement_large,
};
use statement_distribution::stored::{StatementStore, StoredStatementComparator};
use std::sync::Arc;

const HEAD: BlockHash = BlockHash([9; 32]);
const SESSION: u32 = 4;

fn outside_receipt(para: u32, code: Option<Vec<u8>>) -> CommittedCandidateReceiptV2 {
    let mut commitments = CandidateCommitments::default();
    commitments.new_validation_code = code.map(ValidationCode);
    CommittedCandidateReceiptV2 {
        descriptor: CandidateDescriptorV2::new(
            para.into(),
            polkadot_primitives::Hash::from(HEAD.0),
            CoreIndex(0),
            SESSION,
            polkadot_primitives::Hash::zero(),
            polkadot_primitives::Hash::zero(),
            polkadot_primitives::Hash::zero(),
            polkadot_primitives::Hash::zero(),
            ValidationCodeHash::from(polkadot_primitives::Hash::zero()),
        ),
        commitments,
    }
}

fn receipt(para: u32) -> CommittedCandidateReceipt {
    CommittedCandidateReceipt::from_encoded(outside_receipt(para, None).encode()).unwrap()
}

fn key_pair(n: u8) -> sr25519::Pair {
    sr25519::Pair::from_seed(&[n; 32])
}

fn key(n: u8) -> ValidatorId {
    let mut bytes = [0; 32];
    bytes.copy_from_slice(key_pair(n).public().as_ref());
    ValidatorId(bytes)
}

fn sign(compact: &CompactStatement, n: u8) -> ValidatorSignature {
    let hash = polkadot_primitives::CandidateHash(polkadot_primitives::Hash::from(compact.candidate_hash().0));
    let payload = match compact {
        CompactStatement::Seconded(_) => polkadot_primitives::CompactStatement::Seconded(hash),
        CompactStatement::Valid(_) => polkadot_primitives::CompactStatement::Valid(hash),
    };
    let context = SigningContext { session_index: SESSION, parent_hash: polkadot_primitives::Hash::from(HEAD.0) };
    let signature = key_pair(n).sign(&payload.signing_payload(&context));
    let mut bytes = [0; 64];
    bytes.copy_from_slice(signature.as_ref());
    ValidatorSignature(bytes)
}

/// A statement of validator `v`, whose key is made of `v + 1`.
fn signed(payload: Statement, v: u32) -> SignedFullStatement {
    let signature = sign(&payload.to_compact(), v as u8 + 1);
    Signed { payload, validator_index: ValidatorIndex(v), signature }
}

fn unchecked_compact(statement: &SignedFullStatement) -> UncheckedSignedStatement {
    UncheckedSigned {
        payload: statement.payload.to_compact(),
        validator_index: statement.validator_index,
        signature: statement.signature,
    }
}

fn head_data() -> ActiveHeadData {
    ActiveHeadData::new(ValidatorSet::new(vec![key(1), key(2), key(3)]), SESSION)
}

fn comparator(statement: &SignedFullStatement) -> StoredStatementComparator {
    StoredStatementComparator {
        compact: statement.payload.to_compact(),
        validator_index: statement.validator_index,
        signature: statement.signature,
    }
}

#[test]
fn receipt_is_what_its_bytes_encode() {
    let outside = outside_receipt(7, None);
    let encoded = outside.encode();
    let receipt = CommittedCandidateReceipt::from_encoded(encoded.clone()).unwrap();
    assert_eq!(receipt.encoded(), &encoded);
    assert_eq!(receipt.hash().0, outside.hash().0.0);
    assert_ne!(receipt.hash().0.to_vec(), encoded);
    assert_eq!(receipt.para_id(), ParaId(7));
    let far = CommittedCandidateReceipt::from_encoded(outside_receipt(0x0403_0201, None).encode());
    assert_eq!(far.as_ref().unwrap().para_id(), ParaId(0x0403_0201));
    assert_eq!(far.unwrap().encoded()[..4], [1, 2, 3, 4]);
    assert!(!receipt.has_new_validation_code());
    let upgrade = outside_receipt(7, Some(vec![1, 2, 3])).encode();
    let upgrade = CommittedCandidateReceipt::from_encoded(upgrade).unwrap();
    assert!(upgrade.has_new_validation_code());
    assert_ne!(upgrade.hash(), receipt.hash());
}

#[test]
fn bytes_that_encode_no_receipt_are_refused() {
    assert_eq!(CommittedCandidateReceipt::from_encoded(vec![]), None);
    assert_eq!(CommittedCandidateReceipt::from_encoded(vec![1, 2, 3]), None);
    let mut encoded = outside_receipt(7, None).encode();
    encoded.push(0);
    assert_eq!(CommittedCandidateReceipt::from_encoded(encoded), None);
}

#[test]
fn compact_statement_has_the_hash_of_the_receipt() {
    let receipt = receipt(1);
    let hash = receipt.hash();
    let seconded = Statement::Seconded(receipt);
    assert_eq!(seconded.to_compact(), CompactStatement::Seconded(hash));
    assert_eq!(seconded.candidate_hash(), hash);
    assert_eq!(Statement::Valid(hash).to_compact(), CompactStatement::Valid(hash));
    assert_eq!(Statement::Valid(hash).candidate_hash(), hash);
    assert_eq!(seconded.clone(), seconded);
}

#[test]
fn statement_of_half_the_maximum_is_large() {
    let receipt = receipt(1);
    // The variant, the receipt, the validator index and the signature.
    let size = 1 + receipt.encoded().len() + 4 + 64;
    let statement = signed(Statement::Seconded(receipt), 0);
    assert_eq!(is_statement_large(&statement, 2 * size), (true, Some(size)));
    assert_eq!(is_statement_large(&statement, 2 * size + 1), (true, Some(size)));
    assert_eq!(is_statement_large(&statement, 2 * size + 2), (false, Some(size)));
}

#[test]
fn runtime_upgrade_is_always_large() {
    let encoded = outside_receipt(1, Some(vec![1])).encode();
    let size = 1 + encoded.len() + 4 + 64;
    let receipt = CommittedCandidateReceipt::from_encoded(encoded).unwrap();
    let statement = signed(Statement::Seconded(receipt), 0);
    assert_eq!(is_statement_large(&statement, 1_000_000), (true, Some(size)));
}

#[test]
fn valid_statement_is_never_large() {
    let statement = signed(Statement::Valid(CandidateHash([1; 32])), 0);
    assert_eq!(is_statement_large(&statement, 0), (false, None));
}

#[test]
fn signature_is_checked_against_everything_that_was_signed() {
    let statement = signed(Statement::Seconded(receipt(1)), 0);
    let unchecked = unchecked_compact(&statement);
    assert!(unchecked_compact(&statement).try_into_checked(SESSION, &HEAD, &key(1)).is_ok());
    assert_eq!(
        unchecked_compact(&statement).try_into_checked(SESSION, &HEAD, &key(2)),
        Err(unchecked_compact(&statement))
    );
    assert!(unchecked_compact(&statement).try_into_checked(SESSION + 1, &HEAD, &key(1)).is_err());
    let other = BlockHash([8; 32]);
    assert!(unchecked_compact(&statement).try_into_checked(SESSION, &other, &key(1)).is_err());
    let valid = UncheckedSigned {
        payload: CompactStatement::Valid(unchecked.payload.candidate_hash()),
        validator_index: unchecked.validator_index,
        signature: unchecked.signature,
    };
    assert!(valid.try_into_checked(SESSION, &HEAD, &key(1)).is_err());
    let mut forged = unchecked_compact(&statement);
    forged.signature.0[0] ^= 1;
    assert!(forged.try_into_checked(SESSION, &HEAD, &key(1)).is_err());
}

#[test]
fn full_payload_must_be_what_was_signed() {
    let statement = signed(Statement::Seconded(receipt(1)), 0);
    let checked = unchecked_compact(&statement).try_into_checked(SESSION, &HEAD, &key(1)).unwrap();
    let wrong = Statement::Seconded(receipt(2));
    let (checked, wrong) = checked.convert_to_superpayload(wrong).unwrap_err();
    assert_eq!(wrong, Statement::Seconded(receipt(2)));
    let valid = Statement::Valid(receipt(1).hash());
    let (checked, _) = checked.convert_to_superpayload(valid).unwrap_err();
    let full = checked.convert_to_superpayload(Statement::Seconded(receipt(1))).unwrap();
    assert_eq!(full, statement);
}

#[test]
fn head_checks_signatures_of_its_validators() {
    let head = head_data();
    let statement = signed(Statement::Seconded(receipt(1)), 1);
    let checked = check_statement_signature(&head, HEAD, unchecked_compact(&statement)).unwrap();
    assert_eq!(checked.validator_index, ValidatorIndex(1));
    let mut stranger = unchecked_compact(&statement);
    stranger.validator_index = ValidatorIndex(3);
    let back = check_statement_signature(&head, HEAD, stranger).unwrap_err();
    assert_eq!(back.validator_index, ValidatorIndex(3));
    let mut other = unchecked_compact(&statement);
    other.validator_index = ValidatorIndex(0);
    assert!(check_statement_signature(&head, HEAD, other).is_err());
}

#[test]
fn active_head_accepts_only_2_seconded_per_validator() {
    let mut head = head_data();
    let a = signed(Statement::Seconded(receipt(1)), 0);
    let b = signed(Statement::Seconded(receipt(2)), 0);
    let c = signed(Statement::Seconded(receipt(3)), 0);
    let other = signed(Statement::Seconded(receipt(2)), 1);
    // note A
    assert_eq!(head.check_useful_or_unknown(&unchecked_compact(&a)), Ok(()));
    assert!(matches!(head.note_statement(a.clone()), NotedStatement::Fresh(_)));
    // note A (duplicate)
    assert_eq!(
        head.check_useful_or_unknown(&unchecked_compact(&a)),
        Err(DeniedStatement::UsefulButKnown)
    );
    assert!(matches!(head.note_statement(a.clone()), NotedStatement::UsefulButKnown));
    // note B
    assert_eq!(head.check_useful_or_unknown(&unchecked_compact(&b)), Ok(()));
    assert!(matches!(head.note_statement(b.clone()), NotedStatement::Fresh(_)));
    // note C (beyond 2 - ignored)
    assert_eq!(
        head.check_useful_or_unknown(&unchecked_compact(&c)),
        Err(DeniedStatement::NotUseful)
    );
    assert!(matches!(head.note_statement(c), NotedStatement::NotUseful));
    // beyond the threshold the first ones are of no use either
    assert_eq!(
        head.check_useful_or_unknown(&unchecked_compact(&a)),
        Err(DeniedStatement::NotUseful)
    );
    // note B (new validator)
    assert_eq!(head.check_useful_or_unknown(&unchecked_compact(&other)), Ok(()));
    assert!(matches!(head.note_statement(other), NotedStatement::Fresh(_)));
    assert_eq!(head.statements().len(), 3);
}

#[test]
fn valid_statement_needs_a_seconded_candidate() {
    let mut head = head_data();
    let seconded = signed(Statement::Seconded(receipt(1)), 0);
    let valid = signed(Statement::Valid(receipt(1).hash()), 1);
    assert!(matches!(head.note_statement(valid.clone()), NotedStatement::NotUseful));
    assert!(matches!(head.note_statement(seconded.clone()), NotedStatement::Fresh(_)));
    match head.note_statement(valid.clone()) {
        NotedStatement::Fresh(stored) => {
            assert_eq!(stored.comparator, comparator(&valid));
            assert_eq!(stored.statement, &valid);
            assert_eq!(stored.compact(), &CompactStatement::Valid(receipt(1).hash()));
            assert_eq!(
                stored.fingerprint(),
                (CompactStatement::Valid(receipt(1).hash()), ValidatorIndex(1))
            );
        },
        _ => panic!("the candidate is seconded"),
    }
    assert!(matches!(head.note_statement(valid), NotedStatement::UsefulButKnown));
}

#[test]
fn statements_are_kept_in_order() {
    let mut head = head_data();
    let a = signed(Statement::Seconded(receipt(1)), 0);
    let b = signed(Statement::Seconded(receipt(2)), 1);
    let a_valid = signed(Statement::Valid(receipt(1).hash()), 2);
    for statement in [&a, &b, &a_valid] {
        let _ = head.note_statement(statement.clone());
    }
    let all: Vec<_> = head.statements().iter().map(|s| s.statement.clone()).collect();
    assert_eq!(all, vec![a.clone(), b, a_valid.clone()]);
    let about: Vec<_> =
        head.statements_about(receipt(1).hash()).iter().map(|s| s.statement.clone()).collect();
    assert_eq!(about, vec![a, a_valid]);
    assert!(head.statements_about(receipt(3).hash()).is_empty());
}

#[test]
fn same_statement_with_two_signatures_is_stored_twice() {
    let mut store = StatementStore::new();
    let a = signed(Statement::Seconded(receipt(1)), 0);
    let mut b = a.clone();
    b.signature.0[5] ^= 1;
    assert!(!store.insert(comparator(&a), a.clone()));
    assert!(!store.insert(comparator(&b), b.clone()));
    assert!(store.insert(comparator(&a), a.clone()));
    assert!(store.contains(&comparator(&b)));
    assert_eq!(store.get(&comparator(&b)).unwrap().statement, &b);
    assert_eq!(store.iter().len(), 2);
    assert_eq!(store.iter()[0].comparator, comparator(&a));
    let c = signed(Statement::Seconded(receipt(2)), 0);
    assert!(!store.contains(&comparator(&c)));
    assert!(store.get(&comparator(&c)).is_none());
}

#[test]
fn comparator_as_a_key() {
    let a = comparator(&signed(Statement::Seconded(receipt(1)), 3));
    let key = a.to_key();
    assert_eq!(key, (true, receipt(1).hash().0, 3, a.signature.0));
    assert_eq!(StoredStatementComparator::from_key(&key), a);
    let b = StoredStatementComparator { compact: CompactStatement::Valid(receipt(1).hash()), ..a };
    assert!(!b.to_key().0);
    assert_eq!(StoredStatementComparator::from_key(&b.to_key()), b);
}

#[test]
fn validation_data_is_fetched_once() {
    let mut head = head_data();
    let first = PersistedValidationData { encoded: Arc::new(vec![1]) };
    let second = PersistedValidationData { encoded: Arc::new(vec![2]) };
    assert_eq!(head.cached_validation_data(ParaId(1)), None);
    let failed: ValidationDataAnswer<u8> = Err(RuntimeFailure::Failed(7));
    let silent: ValidationDataAnswer<u8> = Err(RuntimeFailure::NoAnswer);
    assert_eq!(
        head.fetch_persisted_validation_data(ParaId(1), failed.clone()),
        Err(Error::FetchPersistedValidationData(ParaId(1), 7))
    );
    assert_eq!(
        head.fetch_persisted_validation_data(ParaId(1), silent.clone()),
        Err(Error::RuntimeApiUnavailable)
    );
    assert_eq!(head.fetch_persisted_validation_data::<u8>(ParaId(1), Ok(None)), Ok(None));
    assert_eq!(head.cached_validation_data(ParaId(1)), None);
    assert_eq!(
        head.fetch_persisted_validation_data::<u8>(ParaId(1), Ok(Some(first.clone()))),
        Ok(Some(first.clone()))
    );
    for answer in [Ok(Some(second)), Ok(None), failed, silent] {
        assert_eq!(
            head.fetch_persisted_validation_data(ParaId(1), answer),
            Ok(Some(first.clone()))
        );
    }
    assert_eq!(head.cached_validation_data(ParaId(1)), Some(first));
    assert_eq!(head.cached_validation_data(ParaId(2)), None);
}

#[test]
fn new_head_knows_its_session_and_no_large_statement() {
    let head = head_data();
    assert_eq!(head.session_index(), SESSION);
    assert_eq!(head.max_message_count(), 6);
    assert_eq!(head.validator(ValidatorIndex(1)), Some(key(2)));
    assert_eq!(head.validator(ValidatorIndex(3)), None);
    assert!(matches!(head.large_statement(&receipt(1).hash()), None::<&LargeStatementStatus>));
}

#[test]
fn message_of_a_small_statement_carries_it() {
    let statement = signed(Statement::Seconded(receipt(1)), 0);
    let size = 1 + receipt(1).encoded().len() + 4 + 64;
    let limits = NetworkLimits { min_gossip_peers: 25, max_notification_size: 100_000 };
    let mut outbox = Outbox::new();
    let message = v1_statement_message(HEAD, statement.clone(), limits, &mut outbox);
    assert_eq!(outbox.into_actions(), vec![Action::CountCreatedMessage(size)]);
    assert!(!message.is_large_statement());
    assert_eq!(message.get_relay_parent(), HEAD);
    assert_eq!(message.get_signature(), statement.signature);
    assert_eq!(
        message,
        StatementDistributionMessage::Statement(HEAD, statement.into_unchecked())
    );
}

#[test]
fn message_of_a_large_statement_names_it() {
    let statement = signed(Statement::Seconded(receipt(1)), 2);
    let limits = NetworkLimits { min_gossip_peers: 25, max_notification_size: 2 };
    let mut outbox = Outbox::new();
    let message = v1_statement_message(HEAD, statement.clone(), limits, &mut outbox);
    assert!(message.is_large_statement());
    assert_eq!(message.get_relay_parent(), HEAD);
    assert_eq!(message.get_signature(), statement.signature);
    assert_eq!(
        message.get_fingerprint(),
        (CompactStatement::Seconded(receipt(1).hash()), ValidatorIndex(2))
    );
    let valid = signed(Statement::Valid(receipt(1).hash()), 2);
    let mut outbox = Outbox::new();
    let message = v1_statement_message(HEAD, valid, limits, &mut outbox);
    assert!(!message.is_large_statement());
    assert_eq!(outbox.into_actions(), Vec::<Action>::new());
}

#[test]
fn message_is_wrapped_for_each_version() {
    let statement = signed(Statement::Valid(receipt(1).hash()), 0);
    let message = StatementDistributionMessage::Statement(HEAD, statement.into_unchecked());
    assert_eq!(
        compatible_v1_message(ValidationVersion::V1, message.clone()),
        VersionedMessage::V1(message.clone())
    );
    assert_eq!(
        compatible_v1_message(ValidationVersion::V2, message.clone()),
        VersionedMessage::V2(CompatMessage::V1Compatibility(message.clone()))
    );
    assert_eq!(
        compatible_v1_message(ValidationVersion::V3, message.clone()),
        VersionedMessage::V3(CompatMessage::V1Compatibility(message.clone()))
    );
    for version in [ValidationVersion::V1, ValidationVersion::V2, ValidationVersion::V3] {
        let wrapped = compatible_v1_message(version, message.clone());
        assert_eq!(wrapped.clone().into_v1(), Some(message.clone()));
    }
    assert_eq!(VersionedMessage::V2(CompatMessage::Other).into_v1(), None);
    assert_eq!(VersionedMessage::V3(CompatMessage::Other).into_v1(), None);
}
