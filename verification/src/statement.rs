//! Statements about candidates, in their compact and their full form, and their signatures.
use crate::ids::{
    BlockHash, CandidateHash, Ident, ParaId, SessionIndex, ValidatorId, ValidatorIndex,
    ValidatorSignature,
};
use parity_scale_codec::{Decode, DecodeAll, Encode};
use polkadot_primitives::vstaging::CommittedCandidateReceiptV2;
use std::sync::Arc;
use vstd::prelude::*;

verus! {

/// What a validator signs: that it seconds a candidate, or that it holds it valid.
#[derive(Clone, Copy, PartialEq, Eq, Debug)]
pub enum CompactStatement {
    /// Proposal of a parachain candidate.
    Seconded(CandidateHash),
    /// Statement that a parachain candidate is valid.
    Valid(CandidateHash),
}

impl CompactStatement {
    /// The candidate that the statement is about.
    pub open spec fn candidate(self) -> CandidateHash {
        match self {
            CompactStatement::Seconded(h) => h,
            CompactStatement::Valid(h) => h,
        }
    }

    /// The candidate that the statement is about.
    pub fn candidate_hash(&self) -> (r: CandidateHash)
        ensures
            r == self.candidate(),
    {
        match self {
            CompactStatement::Seconded(h) => *h,
            CompactStatement::Valid(h) => *h,
        }
    }
}

impl Ident for CompactStatement {
    fn same(&self, other: &Self) -> (r: bool) {
        match (self, other) {
            (CompactStatement::Seconded(a), CompactStatement::Seconded(b)) => a.same(b),
            (CompactStatement::Valid(a), CompactStatement::Valid(b)) => a.same(b),
            _ => false,
        }
    }

    fn dup(&self) -> (r: Self) {
        *self
    }
}

/// What tells two statements apart: what is stated, and by which validator.
pub type Fingerprint = (CompactStatement, ValidatorIndex);

impl Ident for Fingerprint {
    fn same(&self, other: &Self) -> (r: bool) {
        self.0.same(&other.0) && self.1.same(&other.1)
    }

    fn dup(&self) -> (r: Self) {
        (self.0, self.1)
    }
}

/// Whether `CommittedCandidateReceiptV2::decode_all` accepts the bytes.
pub uninterp spec fn is_receipt(encoded: Seq<u8>) -> bool;

/// What `CommittedCandidateReceiptV2::hash` gives for the receipt that the bytes encode.
pub uninterp spec fn receipt_hash(encoded: Seq<u8>) -> [u8; 32];

/// The parachain of the receipt that the bytes encode: the first four bytes, the least significant first.
pub open spec fn receipt_para_id(encoded: Seq<u8>) -> u32 {
    (encoded[0] + 256 * encoded[1] + 65536 * encoded[2] + 16777216 * encoded[3]) as u32
}

/// Whether the commitments of the receipt that the bytes encode hold new validation code.
pub uninterp spec fn receipt_has_new_code(encoded: Seq<u8>) -> bool;

/// The size of a signed `Seconded` statement with the receipt that the bytes encode: one byte for the
/// variant, the receipt, four bytes for the validator index and 64 for the signature.
pub open spec fn seconded_size(encoded: Seq<u8>) -> usize {
    (1 + encoded.len() + 4 + 64) as usize
}

/// Whether `UncheckedSigned::try_into_checked` accepts the signature under the compact statement,
/// given the session, the relay parent and the public key.
pub uninterp spec fn signature_accepted(
    seconded: bool,
    candidate: Seq<u8>,
    validator_index: u32,
    signature: Seq<u8>,
    session_index: u32,
    parent_hash: Seq<u8>,
    key: Seq<u8>,
) -> bool;

/// Calls `CommittedCandidateReceiptV2::decode_all`, which decodes a receipt and fails unless it
/// consumes all of the bytes. The result depends on the bytes alone and is named by `is_receipt`.
#[verifier::external_body]
fn decodes_as_receipt(encoded: &Vec<u8>) -> (r: bool)
    ensures
        r == is_receipt(encoded@),
{
    CommittedCandidateReceiptV2::<polkadot_primitives::Hash>::decode_all(&mut encoded.as_slice()).is_ok()
}

/// Calls `CommittedCandidateReceiptV2::hash` on the receipt that the bytes encode. The result depends
/// on the receipt alone and is named by `receipt_hash`.
#[verifier::external_body]
fn hash_of_receipt(encoded: &Vec<u8>) -> (r: [u8; 32])
    requires
        is_receipt(encoded@),
    ensures
        r == receipt_hash(encoded@),
{
    let receipt = CommittedCandidateReceiptV2::<polkadot_primitives::Hash>::decode_all(
        &mut encoded.as_slice(),
    ).expect("the bytes decode");
    receipt.hash().0.0
}

/// Calls `CandidateDescriptorV2::para_id` on the receipt that the bytes encode. The result is the first
/// field that is encoded, a `u32` in four bytes, the least significant first.
#[verifier::external_body]
fn para_id_of_receipt(encoded: &Vec<u8>) -> (r: u32)
    requires
        is_receipt(encoded@),
    ensures
        r == receipt_para_id(encoded@),
{
    let receipt = CommittedCandidateReceiptV2::<polkadot_primitives::Hash>::decode_all(
        &mut encoded.as_slice(),
    ).expect("the bytes decode");
    u32::from(receipt.descriptor.para_id())
}

/// Reads the field `new_validation_code` in the commitments of the receipt that the bytes encode.
/// Whether it is there is named by `receipt_has_new_code`.
#[verifier::external_body]
fn new_code_in_receipt(encoded: &Vec<u8>) -> (r: bool)
    requires
        is_receipt(encoded@),
    ensures
        r == receipt_has_new_code(encoded@),
{
    let receipt = CommittedCandidateReceiptV2::<polkadot_primitives::Hash>::decode_all(
        &mut encoded.as_slice(),
    ).expect("the bytes decode");
    receipt.commitments.new_validation_code.is_some()
}

/// Calls `Encode::encoded_size` on the unchecked signed statement made of the receipt that the bytes
/// encode, the validator index and the signature. A receipt has one encoding only, so that its size is
/// the number of the bytes; the other parts have fixed sizes.
#[verifier::external_body]
fn size_of_seconded(encoded: &Vec<u8>, validator_index: u32, signature: &[u8; 64]) -> (r: usize)
    requires
        is_receipt(encoded@),
    ensures
        r == seconded_size(encoded@),
{
    let receipt = CommittedCandidateReceiptV2::<polkadot_primitives::Hash>::decode_all(
        &mut encoded.as_slice(),
    ).expect("the bytes decode");
    polkadot_node_primitives::UncheckedSignedFullStatement::new(
        polkadot_node_primitives::Statement::Seconded(receipt),
        polkadot_primitives::ValidatorIndex(validator_index),
        polkadot_primitives::ValidatorSignature::decode(&mut signature.as_slice()).expect("64 bytes"),
    ).encoded_size()
}

/// Calls `UncheckedSigned::try_into_checked`, which checks the signature of a validator under a
/// compact statement in a signing context. The result depends on the arguments alone and is named by
/// `signature_accepted`.
#[verifier::external_body]
fn checks_signature(
    compact: &CompactStatement,
    validator_index: u32,
    signature: &[u8; 64],
    session_index: u32,
    parent_hash: &[u8; 32],
    key: &[u8; 32],
) -> (r: bool)
    ensures
        r == signature_accepted(
            compact is Seconded,
            compact.candidate().0@,
            validator_index,
            signature@,
            session_index,
            parent_hash@,
            key@,
        ),
{
    let payload = match compact {
        CompactStatement::Seconded(h) =>
            polkadot_primitives::CompactStatement::Seconded(polkadot_primitives::CandidateHash(h.0.into())),
        CompactStatement::Valid(h) =>
            polkadot_primitives::CompactStatement::Valid(polkadot_primitives::CandidateHash(h.0.into())),
    };
    polkadot_primitives::UncheckedSignedStatement::new(
        payload,
        polkadot_primitives::ValidatorIndex(validator_index),
        polkadot_primitives::ValidatorSignature::decode(&mut signature.as_slice()).expect("64 bytes"),
    ).try_into_checked(
        &polkadot_primitives::SigningContext { session_index, parent_hash: polkadot_primitives::Hash::from(*parent_hash) },
        &polkadot_primitives::ValidatorId::decode(&mut key.as_slice()).expect("32 bytes"),
    ).is_ok()
}

/// A candidate receipt with the commitments of the candidate, as the bytes that encode it.
#[derive(PartialEq, Eq, Debug)]
pub struct CommittedCandidateReceipt {
    encoded: Arc<Vec<u8>>,
}

impl CommittedCandidateReceipt {
    #[verifier::type_invariant]
    spec fn well_formed(&self) -> bool {
        is_receipt(self.encoded@)
    }

    /// The bytes that encode the receipt.
    pub closed spec fn bytes(self) -> Seq<u8> {
        self.encoded@
    }

    /// The hash of the candidate.
    pub open spec fn candidate(self) -> CandidateHash {
        CandidateHash(receipt_hash(self.bytes()))
    }

    /// A receipt from the bytes that encode it.
    pub fn from_encoded(encoded: Vec<u8>) -> (r: Option<Self>)
        ensures
            r is Some <==> is_receipt(encoded@),
            r matches Some(receipt) ==> receipt.bytes() == encoded@,
    {
        if decodes_as_receipt(&encoded) {
            Some(CommittedCandidateReceipt { encoded: Arc::new(encoded) })
        } else {
            None
        }
    }

    /// The bytes that encode the receipt.
    pub fn encoded(&self) -> (r: &Vec<u8>)
        ensures
            r@ == self.bytes(),
    {
        &self.encoded
    }

    /// The hash of the candidate.
    pub fn hash(&self) -> (r: CandidateHash)
        ensures
            r == self.candidate(),
    {
        proof {
            use_type_invariant(self);
        }
        CandidateHash(hash_of_receipt(&self.encoded))
    }

    /// The parachain that the candidate is for.
    pub fn para_id(&self) -> (r: ParaId)
        ensures
            r == ParaId(receipt_para_id(self.bytes())),
    {
        proof {
            use_type_invariant(self);
        }
        ParaId(para_id_of_receipt(&self.encoded))
    }

    /// Whether the candidate brings new validation code.
    pub fn has_new_validation_code(&self) -> (r: bool)
        ensures
            r == receipt_has_new_code(self.bytes()),
    {
        proof {
            use_type_invariant(self);
        }
        new_code_in_receipt(&self.encoded)
    }
}

impl Clone for CommittedCandidateReceipt {
    fn clone(&self) -> (r: Self)
        ensures
            r == *self,
    {
        proof {
            use_type_invariant(self);
        }
        CommittedCandidateReceipt { encoded: self.encoded.clone() }
    }
}

/// The data that a parachain candidate is validated against, as the bytes that encode it.
#[derive(PartialEq, Eq, Debug)]
pub struct PersistedValidationData {
    pub encoded: Arc<Vec<u8>>,
}

impl View for PersistedValidationData {
    type V = PersistedValidationData;

    open spec fn view(&self) -> PersistedValidationData {
        *self
    }
}

impl Clone for PersistedValidationData {
    fn clone(&self) -> (r: Self)
        ensures
            r == *self,
    {
        PersistedValidationData { encoded: self.encoded.clone() }
    }
}

/// A statement, where `Seconded` carries the receipt of the candidate.
#[derive(PartialEq, Eq, Debug)]
pub enum Statement {
    /// A statement that a validator seconds a candidate.
    Seconded(CommittedCandidateReceipt),
    /// A statement that a validator has deemed a candidate valid.
    Valid(CandidateHash),
}

impl Statement {
    /// The statement with the hash of the candidate in place of its receipt.
    pub open spec fn compact(self) -> CompactStatement {
        match self {
            Statement::Seconded(receipt) => CompactStatement::Seconded(receipt.candidate()),
            Statement::Valid(h) => CompactStatement::Valid(h),
        }
    }

    /// The candidate that the statement is about.
    pub fn candidate_hash(&self) -> (r: CandidateHash)
        ensures
            r == self.compact().candidate(),
    {
        match self {
            Statement::Seconded(receipt) => receipt.hash(),
            Statement::Valid(h) => *h,
        }
    }

    /// The statement with the hash of the candidate in place of its receipt.
    pub fn to_compact(&self) -> (r: CompactStatement)
        ensures
            r == self.compact(),
    {
        match self {
            Statement::Seconded(receipt) => CompactStatement::Seconded(receipt.hash()),
            Statement::Valid(h) => CompactStatement::Valid(*h),
        }
    }
}

impl Clone for Statement {
    fn clone(&self) -> (r: Self)
        ensures
            r == *self,
    {
        match self {
            Statement::Seconded(receipt) => Statement::Seconded(receipt.clone()),
            Statement::Valid(h) => Statement::Valid(*h),
        }
    }
}

/// A statement, where `Seconded` carries the receipt and the validation data of the candidate.
#[derive(PartialEq, Eq, Debug)]
pub enum StatementWithPVD {
    /// A statement that a validator seconds a candidate.
    Seconded(CommittedCandidateReceipt, PersistedValidationData),
    /// A statement that a validator has deemed a candidate valid.
    Valid(CandidateHash),
}

/// A payload with the signature of a validator that nobody has checked.
#[derive(PartialEq, Eq, Debug)]
pub struct UncheckedSigned<P> {
    pub payload: P,
    pub validator_index: ValidatorIndex,
    pub signature: ValidatorSignature,
}

/// A payload with the signature of a validator. Whoever makes one has checked the signature, or has it
/// from somebody who has.
#[derive(PartialEq, Eq, Debug)]
pub struct Signed<P> {
    pub payload: P,
    pub validator_index: ValidatorIndex,
    pub signature: ValidatorSignature,
}

/// A signed compact statement.
pub type SignedStatement = Signed<CompactStatement>;

/// A compact statement whose signature nobody has checked.
pub type UncheckedSignedStatement = UncheckedSigned<CompactStatement>;

/// A signed statement with the receipt of the candidate, if it is `Seconded`.
pub type SignedFullStatement = Signed<Statement>;

/// A statement with the receipt of the candidate whose signature nobody has checked.
pub type UncheckedSignedFullStatement = UncheckedSigned<Statement>;

/// A signed statement with the receipt and the validation data of the candidate.
pub type SignedFullStatementWithPVD = Signed<StatementWithPVD>;

impl Clone for Signed<Statement> {
    fn clone(&self) -> (r: Self)
        ensures
            r == *self,
    {
        Signed {
            payload: self.payload.clone(),
            validator_index: self.validator_index,
            signature: self.signature,
        }
    }
}

impl Clone for UncheckedSigned<Statement> {
    fn clone(&self) -> (r: Self)
        ensures
            r == *self,
    {
        UncheckedSigned {
            payload: self.payload.clone(),
            validator_index: self.validator_index,
            signature: self.signature,
        }
    }
}

impl UncheckedSigned<CompactStatement> {
    /// Whether the key made the signature under the statement in the session and for the relay parent.
    pub open spec fn signed_by(
        self,
        session_index: SessionIndex,
        relay_parent: BlockHash,
        key: ValidatorId,
    ) -> bool {
        signature_accepted(
            self.payload is Seconded,
            self.payload.candidate().0@,
            self.validator_index.0,
            self.signature.0@,
            session_index,
            relay_parent.0@,
            key.0@,
        )
    }

    /// The statement as a signed one.
    pub open spec fn trusted(self) -> SignedStatement {
        Signed {
            payload: self.payload,
            validator_index: self.validator_index,
            signature: self.signature,
        }
    }

    /// Checks the signature, and gives the statement back where it is not the validator's.
    pub fn try_into_checked(
        self,
        session_index: SessionIndex,
        relay_parent: &BlockHash,
        key: &ValidatorId,
    ) -> (r: Result<SignedStatement, UncheckedSignedStatement>)
        ensures
            r == if self.signed_by(session_index, *relay_parent, *key) {
                Ok::<SignedStatement, UncheckedSignedStatement>(self.trusted())
            } else {
                Err(self)
            },
    {
        if checks_signature(
            &self.payload,
            self.validator_index.0,
            &self.signature.0,
            session_index,
            &relay_parent.0,
            &key.0,
        ) {
            Ok(
                Signed {
                    payload: self.payload,
                    validator_index: self.validator_index,
                    signature: self.signature,
                },
            )
        } else {
            Err(self)
        }
    }
}

impl Signed<CompactStatement> {
    /// Puts a full statement in the place of the compact one, if it is the statement that was signed.
    pub fn convert_to_superpayload(self, claimed: Statement) -> (r: Result<
        SignedFullStatement,
        (SignedStatement, Statement),
    >)
        ensures
            r == if claimed.compact() == self.payload {
                Ok::<SignedFullStatement, (SignedStatement, Statement)>(
                    Signed {
                        payload: claimed,
                        validator_index: self.validator_index,
                        signature: self.signature,
                    },
                )
            } else {
                Err((self, claimed))
            },
    {
        if claimed.to_compact().same(&self.payload) {
            Ok(
                Signed {
                    payload: claimed,
                    validator_index: self.validator_index,
                    signature: self.signature,
                },
            )
        } else {
            Err((self, claimed))
        }
    }
}

impl Signed<Statement> {
    /// The statement as one whose signature nobody has checked.
    pub open spec fn unchecked(self) -> UncheckedSignedFullStatement {
        UncheckedSigned {
            payload: self.payload,
            validator_index: self.validator_index,
            signature: self.signature,
        }
    }

    /// The statement as one whose signature nobody has checked.
    pub fn into_unchecked(self) -> (r: UncheckedSignedFullStatement)
        ensures
            r == self.unchecked(),
    {
        UncheckedSigned {
            payload: self.payload,
            validator_index: self.validator_index,
            signature: self.signature,
        }
    }
}

/// How a statement is sent: whether it is too large for a notification, and its size, if it is
/// `Seconded`.
pub open spec fn largeness(
    statement: SignedFullStatement,
    max_notification_size: usize,
) -> (bool, Option<usize>) {
    match statement.payload {
        Statement::Seconded(receipt) => {
            let size = seconded_size(receipt.bytes());
            (receipt_has_new_code(receipt.bytes()) || size >= max_notification_size / 2, Some(size))
        },
        Statement::Valid(_) => (false, None),
    }
}

/// Check whether a statement should be treated as large statement.
///
/// Also report size of statement - if it is a `Seconded` statement, otherwise `None`.
pub fn is_statement_large(statement: &SignedFullStatement, max_notification_size: usize) -> (r: (
    bool,
    Option<usize>,
))
    ensures
        r == largeness(*statement, max_notification_size),
{
    match &statement.payload {
        Statement::Seconded(receipt) => {
            proof {
                use_type_invariant(receipt);
            }
            let size = size_of_seconded(
                &receipt.encoded,
                statement.validator_index.0,
                &statement.signature.0,
            );
            // Runtime upgrades will always be large and even if not - no harm done.
            if receipt.has_new_validation_code() {
                return (true, Some(size));
            }
            // Half max size seems to be a good threshold to start not using notifications:
            let threshold: usize = max_notification_size / 2;
            (size >= threshold, Some(size))
        },
        Statement::Valid(_) => (false, None),
    }
}

} // verus!
