//! What holds of the statements that are stored at a head.
use crate::collections::lemma_push_contains;
use crate::error::{Error, RuntimeFailure, ValidationDataAnswer};
use crate::head::{DeniedStatement, HeadView, entries_about};
use crate::ids::{BlockHash, CandidateHash, ParaId, ValidatorId, ValidatorIndex};
use crate::fetching::StatusView;
use crate::statement::{
    CompactStatement, PersistedValidationData, SignedFullStatement, UncheckedSignedStatement,
    signature_accepted,
};
use crate::stored::{StoredEntry, StoredStatementComparator, comparator, has_key, with_value};
use crate::tracker::VC_THRESHOLD;
use vstd::prelude::*;

verus! {

/// How many of the statements are those by which a validator seconds a candidate.
pub open spec fn seconded_entries(s: Seq<StoredEntry>, v: ValidatorIndex) -> nat
    decreases s.len(),
{
    if s.len() == 0 {
        0
    } else {
        seconded_entries(s.drop_last(), v) + if s.last().0.compact is Seconded
            && s.last().0.validator_index == v {
            1nat
        } else {
            0nat
        }
    }
}

/// Whether a candidate is seconded by one of the statements.
pub open spec fn is_seconded(s: Seq<StoredEntry>, h: CandidateHash) -> bool {
    exists|i: int| 0 <= i < s.len() && (#[trigger] s[i]).0.compact == CompactStatement::Seconded(h)
}

/// Whether each statement that a candidate is valid comes behind one that seconds the candidate.
pub open spec fn ordered(s: Seq<StoredEntry>) -> bool {
    forall|i: int|
        0 <= i < s.len() && (#[trigger] s[i]).0.compact is Valid ==> is_seconded(
            s.take(i),
            s[i].0.compact.candidate(),
        )
}

/// What holds of a head at any time: each statement is stored once, under what tells it apart; the
/// candidates that are known are those that are seconded; a validator's count is the number of its
/// `Seconded` statements, and not above the threshold; and no `Valid` statement is stored before a
/// `Seconded` statement for its candidate.
pub open spec fn sound(head: HeadView) -> bool {
    &&& forall|i: int|
        0 <= i < head.statements.len() ==> (#[trigger] head.statements[i]).0 == comparator(
            head.statements[i].1,
        )
    &&& forall|i: int, j: int|
        0 <= i < j < head.statements.len() ==> (#[trigger] head.statements[i]).0 != (
        #[trigger] head.statements[j]).0
    &&& forall|h: CandidateHash| #[trigger]
        head.candidates.contains(h) <==> is_seconded(head.statements, h)
    &&& forall|v: ValidatorIndex| #[trigger]
        head.seconded_by(v) as nat == seconded_entries(head.statements, v)
    &&& forall|v: ValidatorIndex| #[trigger] head.seconded_by(v) <= VC_THRESHOLD
    &&& ordered(head.statements)
}

/// A head at which nothing was said yet is sound.
pub proof fn blank_head_is_sound(validators: Seq<ValidatorId>, session_index: u32)
    ensures
        sound(HeadView::blank(validators, session_index)),
{
}

proof fn lemma_seconded_push(s: Seq<StoredEntry>, e: StoredEntry, h: CandidateHash)
    ensures
        is_seconded(s.push(e), h) <==> is_seconded(s, h) || e.0.compact == CompactStatement::Seconded(h),
{
    let t = s.push(e);
    if is_seconded(s, h) {
        let i = choose|i: int|
            0 <= i < s.len() && (#[trigger] s[i]).0.compact == CompactStatement::Seconded(h);
        assert(t[i] == s[i]);
    }
    if e.0.compact == CompactStatement::Seconded(h) {
        assert(t[s.len() as int] == e);
    }
    if is_seconded(t, h) {
        let i = choose|i: int|
            0 <= i < t.len() && (#[trigger] t[i]).0.compact == CompactStatement::Seconded(h);
        if i < s.len() {
            assert(t[i] == s[i]);
        }
    }
}

/// Two sequences of statements that are told apart in the same way.
spec fn same_keys(s: Seq<StoredEntry>, t: Seq<StoredEntry>) -> bool {
    s.len() == t.len() && forall|i: int| 0 <= i < s.len() ==> (#[trigger] s[i]).0 == t[i].0
}

proof fn lemma_same_keys_seconded(s: Seq<StoredEntry>, t: Seq<StoredEntry>, h: CandidateHash)
    requires
        same_keys(s, t),
    ensures
        is_seconded(s, h) <==> is_seconded(t, h),
{
    if is_seconded(s, h) {
        let i = choose|i: int|
            0 <= i < s.len() && (#[trigger] s[i]).0.compact == CompactStatement::Seconded(h);
        assert(t[i].0 == s[i].0);
    }
    if is_seconded(t, h) {
        let i = choose|i: int|
            0 <= i < t.len() && (#[trigger] t[i]).0.compact == CompactStatement::Seconded(h);
        assert(t[i].0 == s[i].0);
    }
}

proof fn lemma_same_keys_count(s: Seq<StoredEntry>, t: Seq<StoredEntry>, v: ValidatorIndex)
    requires
        same_keys(s, t),
    ensures
        seconded_entries(s, v) == seconded_entries(t, v),
    decreases s.len(),
{
    if s.len() > 0 {
        assert(same_keys(s.drop_last(), t.drop_last())) by {
            assert forall|i: int| 0 <= i < s.drop_last().len() implies (#[trigger] s.drop_last()[i]).0
                == t.drop_last()[i].0 by {
                assert(s.drop_last()[i] == s[i]);
            }
        }
        lemma_same_keys_count(s.drop_last(), t.drop_last(), v);
        assert(s[s.len() - 1].0 == t[s.len() - 1].0);
    }
}

proof fn lemma_same_keys_ordered(s: Seq<StoredEntry>, t: Seq<StoredEntry>)
    requires
        same_keys(s, t),
        ordered(s),
    ensures
        ordered(t),
{
    assert forall|i: int| 0 <= i < t.len() && (#[trigger] t[i]).0.compact is Valid implies is_seconded(
        t.take(i),
        t[i].0.compact.candidate(),
    ) by {
        assert(s[i].0 == t[i].0);
        assert(same_keys(s.take(i), t.take(i))) by {
            assert forall|j: int| 0 <= j < i implies (#[trigger] s.take(i)[j]).0 == t.take(i)[j].0 by {
                assert(s[j].0 == t[j].0);
            }
        }
        lemma_same_keys_seconded(s.take(i), t.take(i), t[i].0.compact.candidate());
    }
}

/// Noting a statement, accepted or not, keeps a head sound. So at most as many `Seconded` statements
/// as the threshold are ever stored of a validator, and they are the first ones.
pub proof fn note_keeps_head_sound(head: HeadView, statement: SignedFullStatement)
    requires
        sound(head),
    ensures
        sound(head.after_note(statement)),
{
    let c = comparator(statement);
    let after = head.after_note(statement);
    let s = head.statements;
    let t = after.statements;
    match head.denial(c) {
        None => {
            assert(t == s.push((c, statement)));
            assert(t.drop_last() =~= s);
            assert forall|i: int, j: int| 0 <= i < j < t.len() implies (#[trigger] t[i]).0 != (
            #[trigger] t[j]).0 by {
                assert(t[i] == s[i]);
                if j < s.len() {
                    assert(t[j] == s[j]);
                }
            }
            assert forall|h: CandidateHash| #[trigger]
                after.candidates.contains(h) <==> is_seconded(t, h) by {
                lemma_seconded_push(s, (c, statement), h);
                assert(head.candidates.contains(h) <==> is_seconded(s, h));
            }
            assert forall|v: ValidatorIndex| #[trigger]
                after.seconded_by(v) as nat == seconded_entries(t, v) by {
                assert(head.seconded_by(v) as nat == seconded_entries(s, v));
                assert(head.seconded_by(v) <= VC_THRESHOLD);
            }
            assert forall|v: ValidatorIndex| #[trigger] after.seconded_by(v) <= VC_THRESHOLD by {
                assert(head.seconded_by(v) <= VC_THRESHOLD);
            }
            assert forall|i: int| 0 <= i < t.len() && (#[trigger] t[i]).0.compact is Valid implies is_seconded(
                t.take(i),
                t[i].0.compact.candidate(),
            ) by {
                assert(t.take(i) =~= s.take(i));
                if i < s.len() {
                    assert(t[i] == s[i]);
                } else {
                    assert(s.take(i) =~= s);
                    assert(head.candidates.contains(c.compact.candidate()));
                }
            }
        },
        Some(DeniedStatement::UsefulButKnown) => {
            assert(t == with_value(s, c, statement));
            assert(same_keys(s, t));
            lemma_same_keys_ordered(s, t);
            assert forall|h: CandidateHash| #[trigger]
                after.candidates.contains(h) <==> is_seconded(t, h) by {
                lemma_same_keys_seconded(s, t, h);
                assert(head.candidates.contains(h) <==> is_seconded(s, h));
                if c.compact is Seconded && h == c.compact.candidate() {
                    let i = choose|i: int| 0 <= i < s.len() && (#[trigger] s[i]).0 == c;
                    assert(s[i].0.compact == CompactStatement::Seconded(h));
                }
            }
            assert forall|v: ValidatorIndex| #[trigger]
                after.seconded_by(v) as nat == seconded_entries(t, v) by {
                lemma_same_keys_count(s, t, v);
                assert(head.seconded_by(v) as nat == seconded_entries(s, v));
            }
            assert forall|v: ValidatorIndex| #[trigger] after.seconded_by(v) <= VC_THRESHOLD by {
                assert(head.seconded_by(v) <= VC_THRESHOLD);
            }
        },
        Some(DeniedStatement::NotUseful) => {
            assert forall|v: ValidatorIndex| #[trigger]
                after.seconded_by(v) as nat == seconded_entries(t, v) by {
                assert(head.seconded_by(v) as nat == seconded_entries(s, v));
            }
            assert forall|v: ValidatorIndex| #[trigger] after.seconded_by(v) <= VC_THRESHOLD by {
                assert(head.seconded_by(v) <= VC_THRESHOLD);
            }
        },
    }
}

/// The status of a large statement has no part in what makes a head sound.
pub proof fn status_keeps_head_sound(head: HeadView, waiting: Map<CandidateHash, StatusView>)
    requires
        sound(head),
    ensures
        sound(HeadView { waiting_large_statements: waiting, ..head }),
{
    let after = HeadView { waiting_large_statements: waiting, ..head };
    assert forall|v: ValidatorIndex| #[trigger] after.seconded_by(v) == head.seconded_by(v) by {}
}

/// Validation data has no part in what makes a head sound.
pub proof fn validation_data_keeps_head_sound<E>(
    head: HeadView,
    para_id: ParaId,
    answer: ValidationDataAnswer<E>,
)
    requires
        sound(head),
    ensures
        sound(head.with_validation_data(para_id, answer)),
{
    let after = head.with_validation_data(para_id, answer);
    assert forall|v: ValidatorIndex| #[trigger] after.seconded_by(v) == head.seconded_by(v) by {}
}

/// Validation data that was fetched once is given from then on, whatever the runtime would answer.
pub proof fn fetched_validation_data_stays<E, F>(
    head: HeadView,
    para_id: ParaId,
    answer: ValidationDataAnswer<E>,
    later: ValidationDataAnswer<F>,
)
    requires
        head.fetched_validation_data(para_id, answer) matches Ok(Some(_)),
    ensures
        head.with_validation_data(para_id, answer).fetched_validation_data(para_id, later) == Ok::<
            Option<PersistedValidationData>,
            Error<F>,
        >(head.fetched_validation_data(para_id, answer)->Ok_0),
        head.with_validation_data(para_id, answer).with_validation_data(para_id, later)
            == head.with_validation_data(para_id, answer),
{
}

/// A statement that was noted is not fresh when it is noted again.
pub proof fn noted_statement_is_not_fresh_again(head: HeadView, statement: SignedFullStatement)
    ensures
        head.after_note(statement).denial(comparator(statement)) is Some,
{
    let c = comparator(statement);
    let after = head.after_note(statement);
    match head.denial(c) {
        None => {
            assert(after.statements[head.statements.len() as int].0 == c);
        },
        Some(DeniedStatement::UsefulButKnown) => {
            let i = choose|i: int|
                0 <= i < head.statements.len() && (#[trigger] head.statements[i]).0 == c;
            assert(after.statements[i].0 == c);
        },
        Some(DeniedStatement::NotUseful) => {},
    }
}

/// What is stored stays stored, whatever else is noted.
pub proof fn stored_statement_stays(
    head: HeadView,
    c: StoredStatementComparator,
    statement: SignedFullStatement,
)
    requires
        has_key(head.statements, c),
    ensures
        has_key(head.after_note(statement).statements, c),
{
    let after = head.after_note(statement);
    let i = choose|i: int| 0 <= i < head.statements.len() && (#[trigger] head.statements[i]).0 == c;
    assert(after.statements[i].0 == c);
}

/// The first `Seconded` statements of a validator, as many as the threshold, are useful, and no others
/// are.
pub proof fn seconded_statements_are_useful_up_to_the_threshold(
    head: HeadView,
    c: StoredStatementComparator,
)
    requires
        sound(head),
        c.compact is Seconded,
    ensures
        head.denial(c) == Some(DeniedStatement::NotUseful) <==> seconded_entries(
            head.statements,
            c.validator_index,
        ) >= VC_THRESHOLD,
{
    assert(head.seconded_by(c.validator_index) as nat == seconded_entries(
        head.statements,
        c.validator_index,
    ));
}

/// A statement that a candidate is valid is of no use until somebody has seconded the candidate.
pub proof fn valid_statement_needs_a_seconded_one(head: HeadView, c: StoredStatementComparator)
    requires
        sound(head),
        c.compact is Valid,
    ensures
        head.denial(c) == Some(DeniedStatement::NotUseful) <==> !is_seconded(
            head.statements,
            c.compact.candidate(),
        ),
{
    assert(head.candidates.contains(c.compact.candidate()) <==> is_seconded(
        head.statements,
        c.compact.candidate(),
    ));
}

/// Nothing is stored about a candidate that is not known. So the first `Seconded` statement for it has
/// no dependents: once it is stored, it is all that is stored about the candidate, and a peer that gets it
/// needs nothing more.
pub proof fn unknown_candidate_has_no_statements(head: HeadView, h: CandidateHash)
    requires
        sound(head),
        !head.candidates.contains(h),
    ensures
        entries_about(head.statements, h).len() == 0,
        forall|statement: SignedFullStatement|
            statement.payload.compact() == CompactStatement::Seconded(h) && head.denial(
                comparator(statement),
            ) is None ==> entries_about(
                (#[trigger] head.after_note(statement)).statements,
                h,
            ) == seq![(comparator(statement), statement)],
{
    let s = head.statements;
    let t = entries_about(s, h);
    statements_about_a_candidate_are_all_of_them(s, h);
    if t.len() > 0 {
        assert(t.contains(t[0]));
        let i = choose|i: int| 0 <= i < s.len() && s[i] == t[0];
        assert(s[i].0.compact.candidate() == h);
        assert(!is_seconded(s, h));
        if s[i].0.compact is Valid {
            assert(is_seconded(s.take(i), h));
            let j = choose|j: int|
                0 <= j < s.take(i).len() && (#[trigger] s.take(i)[j]).0.compact
                    == CompactStatement::Seconded(h);
            assert(s[j].0.compact == CompactStatement::Seconded(h));
        } else {
            assert(s[i].0.compact == CompactStatement::Seconded(h));
        }
    }
    assert forall|statement: SignedFullStatement|
        statement.payload.compact() == CompactStatement::Seconded(h) && head.denial(
            comparator(statement),
        ) is None implies entries_about((#[trigger] head.after_note(statement)).statements, h) == seq![
        (comparator(statement), statement),
    ] by {
        let e = (comparator(statement), statement);
        assert(s.push(e).drop_last() =~= s);
        assert(t =~= Seq::empty());
        assert(entries_about(s.push(e), h) =~= seq![e]);
    }
}

/// The statements about a candidate are exactly those of all statements that name it.
pub proof fn statements_about_a_candidate_are_all_of_them(s: Seq<StoredEntry>, h: CandidateHash)
    ensures
        forall|e: StoredEntry| #[trigger]
            entries_about(s, h).contains(e) <==> s.contains(e) && e.0.compact.candidate() == h,
    decreases s.len(),
{
    if s.len() > 0 {
        let front = s.drop_last();
        statements_about_a_candidate_are_all_of_them(front, h);
        assert(s =~= front.push(s.last()));
        assert forall|e: StoredEntry| #[trigger]
            entries_about(s, h).contains(e) <==> s.contains(e) && e.0.compact.candidate() == h by {
            lemma_push_contains(front, s.last(), e);
            lemma_push_contains(entries_about(front, h), s.last(), e);
            assert(entries_about(front, h).contains(e) <==> front.contains(e)
                && e.0.compact.candidate() == h);
        }
    }
}

proof fn lemma_about_seconded(s: Seq<StoredEntry>, h: CandidateHash)
    requires
        is_seconded(s, h),
    ensures
        is_seconded(entries_about(s, h), h),
{
    statements_about_a_candidate_are_all_of_them(s, h);
    let i = choose|i: int|
        0 <= i < s.len() && (#[trigger] s[i]).0.compact == CompactStatement::Seconded(h);
    assert(s.contains(s[i]));
    assert(entries_about(s, h).contains(s[i]));
    let t = entries_about(s, h);
    let j = choose|j: int| 0 <= j < t.len() && t[j] == s[i];
    assert(t[j].0.compact == CompactStatement::Seconded(h));
}

/// Among the statements about a candidate too, each one that it is valid comes behind one that seconds it.
pub proof fn statements_about_a_candidate_are_ordered(s: Seq<StoredEntry>, h: CandidateHash)
    requires
        ordered(s),
    ensures
        ordered(entries_about(s, h)),
    decreases s.len(),
{
    if s.len() > 0 {
        let front = s.drop_last();
        assert(ordered(front)) by {
            assert forall|i: int| 0 <= i < front.len() && (#[trigger] front[i]).0.compact is Valid implies is_seconded(
                front.take(i),
                front[i].0.compact.candidate(),
            ) by {
                assert(front[i] == s[i]);
                assert(front.take(i) =~= s.take(i));
            }
        }
        statements_about_a_candidate_are_ordered(front, h);
        let before = entries_about(front, h);
        let t = entries_about(s, h);
        assert forall|i: int| 0 <= i < t.len() && (#[trigger] t[i]).0.compact is Valid implies is_seconded(
            t.take(i),
            t[i].0.compact.candidate(),
        ) by {
            if i < before.len() {
                assert(t[i] == before[i]);
                assert(t.take(i) =~= before.take(i));
            } else {
                assert(t.take(i) =~= before);
                assert(s[s.len() - 1] == s.last());
                assert(s.take(s.len() - 1) =~= front);
                lemma_about_seconded(front, h);
            }
        }
    }
}

/// A `Seconded` statement is of no use if and only if two of its validator were counted before it, and a
/// `Valid` one if and only if its candidate is not known. Of those that are of use, one is known if and
/// only if a statement is stored that states the same, by the same validator and with the same signature.
/// All others are fresh.
pub proof fn statement_is_fresh_unless_useless_or_stored(head: HeadView, c: StoredStatementComparator)
    ensures
        ({
            let useless = match c.compact {
                CompactStatement::Seconded(_) => head.seconded_by(c.validator_index) >= 2,
                CompactStatement::Valid(h) => !head.candidates.contains(h),
            };
            let stored = exists|statement: SignedFullStatement|
                #[trigger] head.statements.contains((c, statement));
            &&& head.denial(c) == Some(DeniedStatement::NotUseful) <==> useless
            &&& head.denial(c) == Some(DeniedStatement::UsefulButKnown) <==> !useless && stored
            &&& head.denial(c) is None <==> !useless && !stored
        }),
{
    let s = head.statements;
    if has_key(s, c) {
        let i = choose|i: int| 0 <= i < s.len() && (#[trigger] s[i]).0 == c;
        assert(s[i] == (c, s[i].1));
        assert(s.contains((c, s[i].1)));
    }
    if exists|statement: SignedFullStatement| #[trigger] s.contains((c, statement)) {
        let statement = choose|statement: SignedFullStatement| #[trigger] s.contains((c, statement));
        let i = choose|i: int| 0 <= i < s.len() && s[i] == (c, statement);
        assert(s[i].0 == c);
    }
}

/// A fresh statement is stored behind all others, and where it seconds a candidate, one more is counted for
/// the validator; any other statement adds nothing to what is stored or to the counts. The candidate that a
/// statement of use seconds is known. All else at the head stays as it is in any case.
pub proof fn fresh_statement_is_stored_last(
    head: HeadView,
    statement: SignedFullStatement,
    h: CandidateHash,
    v: ValidatorIndex,
)
    ensures
        ({
            let after = head.after_note(statement);
            let denial = head.denial(comparator(statement));
            let seconds = statement.payload.compact() is Seconded;
            &&& denial is None ==> after.statements == head.statements.push(
                (comparator(statement), statement),
            )
            &&& denial is Some ==> after.statements.len() == head.statements.len() && forall|i: int|
                0 <= i < head.statements.len() ==> (#[trigger] after.statements[i]).0
                    == head.statements[i].0
            &&& after.candidates.contains(h) <==> head.candidates.contains(h) || denial != Some(
                DeniedStatement::NotUseful,
            ) && seconds && h == statement.payload.compact().candidate()
            &&& after.seconded_by(v) == head.seconded_by(v) + if denial is None && seconds && v
                == statement.validator_index {
                1int
            } else {
                0int
            }
            &&& after.cached_validation_data == head.cached_validation_data
            &&& after.waiting_large_statements == head.waiting_large_statements
            &&& after.validators == head.validators
            &&& after.session_index == head.session_index
        }),
{
}

/// The value that a statement is stored with is the last one that was noted under what tells it apart, and
/// all other values stay as they are.
pub proof fn last_value_is_stored(head: HeadView, statement: SignedFullStatement, i: int)
    requires
        0 <= i < head.statements.len(),
    ensures
        ({
            let after = head.after_note(statement);
            let c = comparator(statement);
            &&& head.denial(c) == Some(DeniedStatement::UsefulButKnown) && head.statements[i].0 == c
                ==> after.statements[i] == (c, statement)
            &&& head.statements[i].0 != c || head.denial(c) == Some(DeniedStatement::NotUseful)
                ==> after.statements[i] == head.statements[i]
        }),
{
    let c = comparator(statement);
    if head.denial(c) is None && head.statements[i].0 == c {
        assert(has_key(head.statements, c));
    }
}

/// A statement is authentic if and only if the validator that it names is one of those at the head, and the
/// signature is that of the validator for the session of the head and the relay parent.
pub proof fn authentic_statement_is_signed_by_its_validator(
    head: HeadView,
    relay_parent: BlockHash,
    s: UncheckedSignedStatement,
)
    ensures
        s.validator_index.0 >= head.validators.len() ==> !head.authentic(relay_parent, s),
        s.validator_index.0 < head.validators.len() ==> (head.authentic(relay_parent, s)
            <==> signature_accepted(
            s.payload is Seconded,
            s.payload.candidate().0@,
            s.validator_index.0,
            s.signature.0@,
            head.session_index,
            relay_parent.0@,
            head.validators[s.validator_index.0 as int].0@,
        )),
{
}

/// Per candidate a peer may send two messages for each validator.
pub proof fn two_messages_are_allowed_per_validator(head: HeadView)
    requires
        head.validators.len() * 2 <= usize::MAX,
    ensures
        head.max_message_count() == head.validators.len() + head.validators.len(),
{
}

/// Validation data that is there is given, and the runtime's answer is of no account. Without it, what the
/// runtime gives is given and kept; and if the runtime has none, or fails, nothing is kept, and the failure
/// is told. Data of other parachains stays as it is.
pub proof fn validation_data_is_asked_for_once<E>(
    head: HeadView,
    para_id: ParaId,
    other: ParaId,
    answer: ValidationDataAnswer<E>,
)
    ensures
        ({
            let after = head.with_validation_data(para_id, answer);
            let got = head.fetched_validation_data(para_id, answer);
            &&& head.cached_validation_data.contains_key(para_id) ==> {
                &&& head.validation_data(para_id) == Some(head.cached_validation_data[para_id])
                &&& got == Ok::<_, Error<E>>(Some(head.cached_validation_data[para_id]))
                &&& after == head
            }
            &&& !head.cached_validation_data.contains_key(para_id) ==> {
                &&& head.validation_data(para_id) is None
                &&& answer matches Ok(given) ==> got == Ok::<_, Error<E>>(given)
                    && after.validation_data(para_id) == given
                &&& answer matches Err(RuntimeFailure::NoAnswer) ==> got == Err::<
                    Option<PersistedValidationData>,
                    _,
                >(Error::<E>::RuntimeApiUnavailable) && after == head
                &&& answer matches Err(RuntimeFailure::Failed(e)) ==> got == Err::<
                    Option<PersistedValidationData>,
                    _,
                >(Error::FetchPersistedValidationData(para_id, e)) && after == head
            }
            &&& other != para_id ==> after.validation_data(other) == head.validation_data(other)
            &&& after.statements == head.statements
            &&& after.candidates == head.candidates
            &&& after.seconded_counts == head.seconded_counts
            &&& after.waiting_large_statements == head.waiting_large_statements
            &&& after.validators == head.validators
            &&& after.session_index == head.session_index
        }),
{
}

/// The statements about a candidate are those of the first part of the statements and behind them those of
/// the rest, wherever they are parted; a single one is about the candidate that it names.
pub proof fn statements_about_a_candidate_keep_their_order(
    s: Seq<StoredEntry>,
    rest: Seq<StoredEntry>,
    one: StoredEntry,
    h: CandidateHash,
)
    ensures
        entries_about(s + rest, h) == entries_about(s, h) + entries_about(rest, h),
        one.0.compact.candidate() == h ==> entries_about(seq![one], h) == seq![one],
        one.0.compact.candidate() != h ==> entries_about(seq![one], h).len() == 0,
    decreases rest.len(),
{
    let all = s + rest;
    if rest.len() == 0 {
        assert(all =~= s);
        assert(entries_about(all, h) =~= entries_about(s, h) + entries_about(rest, h));
    } else {
        assert(all.drop_last() =~= s + rest.drop_last());
        statements_about_a_candidate_keep_their_order(s, rest.drop_last(), one, h);
        assert(entries_about(all, h) =~= entries_about(s, h) + entries_about(rest, h));
    }
    assert(seq![one].drop_last() =~= Seq::empty());
    assert(entries_about(seq![one].drop_last(), h) =~= Seq::empty());
}

} // verus!
