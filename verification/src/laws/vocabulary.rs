//! What holds of statements and of the messages that carry them.
use crate::collections::distinct;
use crate::fetching::{PeerKey, key_of, peer_of};
use crate::ids::{BlockHash, CandidateHash, PeerId, SessionIndex, ValidatorId};
use crate::message::{
    Action, ActionView, CompatMessage, NetworkLimits, StatementDistributionMessage, ValidationVersion,
    VersionedMessage, creation_count, statement_message, wrapped,
};
use crate::reputation::Rep;
use crate::statement::{
    CompactStatement, SignedFullStatement, SignedFullStatementWithPVD, Statement,
    UncheckedSignedStatement, largeness, receipt_has_new_code, receipt_hash, receipt_para_id,
    signature_accepted,
};
use crate::stored::{
    StatementKey, StoredEntry, StoredStatementComparator, comparator, comparator_of, entry_fingerprint,
    has_key, with_value,
};
use vstd::prelude::*;

verus! {

/// A peer of each version reads a message in the envelope of its version, and reads the same message.
/// No message of another kind is one of the first version.
pub proof fn each_version_has_its_envelope(m: StatementDistributionMessage, v: VersionedMessage)
    ensures
        wrapped(ValidationVersion::V1, m) == VersionedMessage::V1(m),
        wrapped(ValidationVersion::V2, m) == VersionedMessage::V2(CompatMessage::V1Compatibility(m)),
        wrapped(ValidationVersion::V3, m) == VersionedMessage::V3(CompatMessage::V1Compatibility(m)),
        v.plain() == Some(m) <==> exists|version: ValidationVersion| v == #[trigger] wrapped(version, m),
        v.plain() is None <==> v == VersionedMessage::V2(CompatMessage::Other) || v
            == VersionedMessage::V3(CompatMessage::Other),
{
    if v.plain() == Some(m) {
        match v {
            VersionedMessage::V1(_) => {
                assert(v == wrapped(ValidationVersion::V1, m));
            },
            VersionedMessage::V2(_) => {
                assert(v == wrapped(ValidationVersion::V2, m));
            },
            VersionedMessage::V3(_) => {
                assert(v == wrapped(ValidationVersion::V3, m));
            },
        }
    }
}

/// A compact statement says the same of the same candidate: that of a receipt is the hash of the receipt.
pub proof fn compact_statement_says_the_same(statement: Statement)
    ensures
        statement matches Statement::Seconded(receipt) ==> {
            &&& statement.compact() is Seconded
            &&& statement.compact().candidate().0 == receipt_hash(receipt.bytes())
        },
        statement matches Statement::Valid(h) ==> {
            &&& statement.compact() is Valid
            &&& statement.compact().candidate() == h
        },
{
}

/// The message that carries a statement is for the relay parent, states what the statement states, by the
/// same validator and with the same signature; and a peer can tell all of it from the message, whether or
/// not the payload comes along.
pub proof fn message_carries_its_statement(
    relay_parent: BlockHash,
    statement: SignedFullStatement,
    limits: NetworkLimits,
)
    ensures
        ({
            let m = statement_message(relay_parent, statement, limits);
            &&& m.relay_parent() == relay_parent
            &&& m.fingerprint().0 == statement.payload.compact()
            &&& m.fingerprint().1 == statement.validator_index
            &&& m.signature() == statement.signature
            &&& m matches StatementDistributionMessage::Statement(h, s) ==> h == relay_parent
                && s.payload == statement.payload && s.validator_index == statement.validator_index
                && s.signature == statement.signature
            &&& m matches StatementDistributionMessage::LargeStatement(meta) ==> meta.relay_parent
                == relay_parent && meta.candidate_hash == statement.payload.compact().candidate()
                && meta.signed_by == statement.validator_index && meta.signature == statement.signature
                && statement.payload is Seconded
        }),
{
}

/// What a message says can be read off its parts.
pub proof fn message_is_read_off_its_parts(m: StatementDistributionMessage)
    ensures
        m matches StatementDistributionMessage::Statement(h, s) ==> m.relay_parent() == h
            && m.fingerprint() == (s.payload.compact(), s.validator_index) && m.signature()
            == s.signature,
        m matches StatementDistributionMessage::LargeStatement(meta) ==> m.relay_parent()
            == meta.relay_parent && m.fingerprint() == (
            CompactStatement::Seconded(meta.candidate_hash),
            meta.signed_by,
        ) && m.signature() == meta.signature,
{
}

/// A `Valid` statement always goes out with its payload, and its size is not counted. A `Seconded` one
/// does so if and only if it brings no new code and its size, that of the receipt and 69 bytes more, is
/// below half of the largest notification; its size is counted once. What is large under a limit is large
/// under every smaller one.
pub proof fn large_statements_are_those_of_half_the_limit(
    relay_parent: BlockHash,
    statement: SignedFullStatement,
    limits: NetworkLimits,
    smaller: NetworkLimits,
)
    ensures
        statement.payload is Valid ==> {
            &&& !largeness(statement, limits.max_notification_size).0
            &&& statement_message(relay_parent, statement, limits) is Statement
            &&& creation_count(statement, limits).len() == 0
        },
        statement.payload matches Statement::Seconded(receipt) ==> {
            let size = (receipt.bytes().len() + 69) as usize;
            &&& statement_message(relay_parent, statement, limits) is Statement
                <==> !receipt_has_new_code(receipt.bytes()) && size < limits.max_notification_size / 2
            &&& largeness(statement, limits.max_notification_size).0 <==> statement_message(
                relay_parent,
                statement,
                limits,
            ) is LargeStatement
            &&& largeness(statement, limits.max_notification_size).1 == Some(size)
            &&& creation_count(statement, limits) == seq![ActionView::CountCreatedMessage(size)]
        },
        smaller.max_notification_size <= limits.max_notification_size && statement_message(
            relay_parent,
            statement,
            limits,
        ) is LargeStatement ==> statement_message(relay_parent, statement, smaller) is LargeStatement,
{
}

/// Two statements are stored as one if and only if they state the same, by the same validator and with the
/// same signature. What tells a statement apart can be written as a key and read back.
pub proof fn statements_are_told_apart(
    a: SignedFullStatement,
    b: SignedFullStatement,
    c: StoredStatementComparator,
)
    ensures
        comparator(a) == comparator(b) <==> {
            &&& a.payload.compact() == b.payload.compact()
            &&& a.validator_index == b.validator_index
            &&& a.signature == b.signature
        },
        comparator(a).compact == a.payload.compact(),
        comparator(a).validator_index == a.validator_index,
        comparator(a).signature == a.signature,
        entry_fingerprint((comparator(a), a)) == (a.payload.compact(), a.validator_index),
        comparator_of(c.key()) == c,
{
}

/// Replacing the value beside a key changes no key and no other value, and a key that is there has the new
/// value beside it.
pub proof fn replacing_a_value_changes_nothing_else(
    s: Seq<StoredEntry>,
    c: StoredStatementComparator,
    statement: SignedFullStatement,
)
    ensures
        with_value(s, c, statement).len() == s.len(),
        forall|i: int|
            0 <= i < s.len() ==> (#[trigger] with_value(s, c, statement)[i]).0 == s[i].0 && (s[i].0
                == c ==> with_value(s, c, statement)[i].1 == statement) && (s[i].0 != c
                ==> with_value(s, c, statement)[i] == s[i]),
        has_key(s, c) <==> exists|x: SignedFullStatement| #[trigger] s.contains((c, x)),
{
    if has_key(s, c) {
        let i = choose|i: int| 0 <= i < s.len() && (#[trigger] s[i]).0 == c;
        assert(s[i] == (c, s[i].1));
        assert(s.contains((c, s[i].1)));
    }
    if exists|x: SignedFullStatement| #[trigger] s.contains((c, x)) {
        let x = choose|x: SignedFullStatement| #[trigger] s.contains((c, x));
        let i = choose|i: int| 0 <= i < s.len() && s[i] == (c, x);
        assert(s[i].0 == c);
    }
}

/// A compact statement is signed by a key for a session and a relay parent if and only if the signature
/// was accepted for all that was signed; what is trusted then is the statement as it is.
pub proof fn signature_covers_everything(
    s: UncheckedSignedStatement,
    session_index: SessionIndex,
    relay_parent: BlockHash,
    key: ValidatorId,
)
    ensures
        s.signed_by(session_index, relay_parent, key) <==> signature_accepted(
            s.payload is Seconded,
            s.payload.candidate().0@,
            s.validator_index.0,
            s.signature.0@,
            session_index,
            relay_parent.0@,
            key.0@,
        ),
        s.trusted().payload == s.payload,
        s.trusted().validator_index == s.validator_index,
        s.trusted().signature == s.signature,
{
}

/// The four bytes of the parachain of a receipt can be read off its number.
pub proof fn para_id_is_written_least_significant_first(encoded: Seq<u8>)
    ensures
        receipt_para_id(encoded) % 256 == encoded[0],
        receipt_para_id(encoded) / 256 % 256 == encoded[1],
        receipt_para_id(encoded) / 65536 % 256 == encoded[2],
        receipt_para_id(encoded) / 16777216 == encoded[3],
{
}

/// A compact statement is about the candidate that it names. What a signed statement is without its trust in
/// the signature is the same statement.
pub proof fn statements_name_their_candidate(h: CandidateHash, s: SignedFullStatement)
    ensures
        CompactStatement::Seconded(h).candidate() == h,
        CompactStatement::Valid(h).candidate() == h,
        s.unchecked().payload == s.payload,
        s.unchecked().validator_index == s.validator_index,
        s.unchecked().signature == s.signature,
{
}

/// A key stands for one statement, and a key of a peer for one peer: each can be had back from the other.
pub proof fn keys_can_be_read_back(key: StatementKey, peer: PeerId, peer_key: PeerKey)
    ensures
        comparator_of(key).key() == key,
        peer_of(key_of(peer)) == peer,
        key_of(peer_of(peer_key)) == peer_key,
        key_of(peer).0 == peer.len,
        key_of(peer).1 == peer.bytes,
{
}

/// An action is seen as what it is.
pub proof fn actions_are_seen_as_they_are(
    peers: Vec<PeerId>,
    m: VersionedMessage,
    h: BlockHash,
    s: SignedFullStatementWithPVD,
    peer: PeerId,
    rep: Rep,
    size: usize,
)
    ensures
        Action::SendValidationMessage(peers, m)@ == ActionView::SendValidationMessage(peers@, m),
        Action::BackStatement(h, s)@ == ActionView::BackStatement(h, s),
        Action::ModifyReputation(peer, rep)@ == ActionView::ModifyReputation(peer, rep),
        Action::CountCreatedMessage(size)@ == ActionView::CountCreatedMessage(size),
        Action::CountStatementDistributed@ is CountStatementDistributed,
        Action::CountUnexpectedValid@ is CountUnexpectedValid,
        Action::CountUnexpectedSeconded@ is CountUnexpectedSeconded,
{
}

/// An apparent flood weighs most, a statement that was sent before more when it is repeated, a forged
/// signature and a wrong payload much, and all else that costs reputation little. To be the first to provide
/// a statement earns more than to provide one that is known, and no cost is a benefit.
pub proof fn reputation_changes_have_their_weights(rep: Rep)
    ensures
        rep.weight() is Malicious <==> rep is CostApparentFlood,
        rep.weight() is CostMajorRepeated <==> rep is CostDuplicateStatement,
        rep.weight() is CostMajor <==> rep is CostInvalidSignature || rep is CostWrongHash,
        rep.weight() is CostMinor <==> {
            ||| rep is CostUnexpectedStatement
            ||| rep is CostUnexpectedStatementMissingKnowledge
            ||| rep is CostUnexpectedStatementUnknownCandidate
            ||| rep is CostUnexpectedStatementRemote
            ||| rep is CostFetchFail
        },
        rep.weight() is BenefitMajor <==> rep is BenefitValidStatement || rep is BenefitValidResponse,
        rep.weight() is BenefitMajorFirst <==> rep is BenefitValidStatementFirst,
{
}

/// What has no repetitions, in a list, names each of its items at one place.
pub proof fn distinct_lists_repeat_nothing<A>(s: Seq<A>)
    ensures
        distinct(s) <==> s.no_duplicates(),
{
    if distinct(s) {
        assert forall|i: int, j: int| 0 <= i < s.len() && 0 <= j < s.len() && i != j implies s[i]
            != s[j] by {
            if i < j {
                assert(s[i] != s[j]);
            } else {
                assert(s[j] != s[i]);
            }
        }
    }
}

} // verus!
