//! What holds of the messages that peers send us.
use crate::distribute::dispatch;
use crate::error::{RuntimeFailure, ValidationDataAnswer};
use crate::fetching::StatusView;
use crate::head::{HeadView, entries_about};
use crate::ids::{BlockHash, CandidateHash, ParaId, PeerId, ValidatorIndex};
use crate::incoming::{
    HeadOutcome, IncomingStep, PendingStatement, Retrieved, Screening, acceptance, completion,
    data_noted, data_screened, handling, message_comparator, message_statement, reception,
    resumption, retrieval, screening,
};
use crate::knowledge::{KnowledgeView, MAX_LARGE_STATEMENTS_PER_SENDER};
use crate::laws::delivery::{dispatch_only_adds_knowledge, only_unknown_statements_are_sent};
use crate::laws::knowledge::{
    large_statement_keeps_knowledge_sound, receive_keeps_knowledge_sound,
    unexpected_message_keeps_knowledge_sound,
};
use crate::laws::{head, knowledge};
use crate::message::{
    ActionView, NetworkLimits, StatementDistributionMessage, StatementMetadata, VersionedMessage,
};
use crate::peer::{PeerDataView, large_total, lemma_large_total_at};
use crate::reputation::Rep;
use crate::statement::{
    CommittedCandidateReceipt, PersistedValidationData, Signed, SignedFullStatement, Statement,
    StatementWithPVD, UncheckedSigned, receipt_para_id,
};
use crate::stored::{StoredEntry, comparator, has_key};
use vstd::prelude::*;

verus! {

/// Whether an action changes the reputation of a peer.
pub open spec fn is_verdict(a: ActionView) -> bool {
    a is ModifyReputation
}

/// How many of the actions change the reputation of a peer.
pub open spec fn verdict_count(actions: Seq<ActionView>) -> nat
    decreases actions.len(),
{
    if actions.len() == 0 {
        0
    } else {
        verdict_count(actions.drop_last()) + if is_verdict(actions.last()) {
            1nat
        } else {
            0nat
        }
    }
}

proof fn lemma_no_verdicts(s: Seq<ActionView>)
    requires
        forall|i: int| 0 <= i < s.len() ==> !is_verdict(#[trigger] s[i]),
    ensures
        verdict_count(s) == 0,
    decreases s.len(),
{
    if s.len() > 0 {
        assert(s[s.len() - 1] == s.last());
        assert forall|i: int| 0 <= i < s.drop_last().len() implies !is_verdict(
            #[trigger] s.drop_last()[i],
        ) by {
            assert(s.drop_last()[i] == s[i]);
        }
        lemma_no_verdicts(s.drop_last());
    }
}

proof fn lemma_verdicts_add(s: Seq<ActionView>, t: Seq<ActionView>)
    ensures
        verdict_count(s + t) == verdict_count(s) + verdict_count(t),
    decreases t.len(),
{
    if t.len() == 0 {
        assert(s + t =~= s);
    } else {
        assert((s + t).drop_last() =~= s + t.drop_last());
        lemma_verdicts_add(s, t.drop_last());
    }
}

proof fn lemma_two_verdicts(a: ActionView, b: ActionView)
    ensures
        verdict_count(seq![a]) == if is_verdict(a) {
            1nat
        } else {
            0nat
        },
        verdict_count(seq![a, b]) == (if is_verdict(a) {
            1nat
        } else {
            0nat
        }) + if is_verdict(b) {
            1nat
        } else {
            0nat
        },
{
    assert(verdict_count(Seq::<ActionView>::empty()) == 0);
    assert(seq![a].drop_last() =~= Seq::<ActionView>::empty());
    assert(verdict_count(seq![a]) == verdict_count(Seq::<ActionView>::empty()) + if is_verdict(a) {
        1nat
    } else {
        0nat
    });
    assert(seq![a, b].drop_last() =~= seq![a]);
}

proof fn lemma_dispatch_no_verdicts(
    peer: PeerId,
    data: PeerDataView,
    relay_parent: BlockHash,
    s: Seq<StoredEntry>,
    limits: NetworkLimits,
)
    ensures
        verdict_count(dispatch(peer, data, relay_parent, s, limits).1) == 0,
{
    only_unknown_statements_are_sent(peer, data, relay_parent, s, limits);
    lemma_no_verdicts(dispatch(peer, data, relay_parent, s, limits).1);
}

proof fn lemma_acceptance_verdicts(
    peer: PeerId,
    head: HeadView,
    relay_parent: BlockHash,
    statement: SignedFullStatement,
    payload: StatementWithPVD,
)
    ensures
        verdict_count(acceptance(peer, head, relay_parent, statement, payload).actions) <= 1,
{
    let end = acceptance(peer, head, relay_parent, statement, payload);
    if end.actions.len() > 0 {
        lemma_two_verdicts(end.actions[0], end.actions[1]);
        assert(end.actions =~= seq![end.actions[0], end.actions[1]]);
    }
}

proof fn lemma_completion_verdicts(
    peer: PeerId,
    data: PeerDataView,
    head: HeadView,
    message: StatementDistributionMessage,
    payload: Statement,
    limits: NetworkLimits,
)
    ensures
        verdict_count(completion(peer, data, head, message, payload, limits).actions) <= 1,
{
    let relay_parent = message.relay_parent();
    let fp = message.fingerprint();
    let statement = Signed { payload, validator_index: fp.1, signature: message.signature() };
    let actions = completion(peer, data, head, message, payload, limits).actions;
    if payload.compact() != fp.0 {
        lemma_two_verdicts(actions[0], actions[0]);
    } else {
        let received = data.after_receive(relay_parent, fp, head.max_message_count());
        let about = entries_about(head.statements, fp.0.candidate());
        lemma_dispatch_no_verdicts(peer, received, relay_parent, about, limits);
        let sent = if data.introduces(relay_parent, fp) {
            dispatch(peer, received, relay_parent, about, limits).1
        } else {
            seq![]
        };
        assert(verdict_count(sent) == 0);
        match payload {
            Statement::Valid(h) => {
                lemma_acceptance_verdicts(
                    peer,
                    head,
                    relay_parent,
                    statement,
                    StatementWithPVD::Valid(h),
                );
                lemma_verdicts_add(
                    sent,
                    acceptance(peer, head, relay_parent, statement, StatementWithPVD::Valid(h)).actions,
                );
            },
            Statement::Seconded(receipt) => {
                let para_id = ParaId(receipt_para_id(receipt.bytes()));
                if let Some(pvd) = head.validation_data(para_id) {
                    let with_pvd = StatementWithPVD::Seconded(receipt, pvd);
                    lemma_acceptance_verdicts(peer, head, relay_parent, statement, with_pvd);
                    lemma_verdicts_add(
                        sent,
                        acceptance(peer, head, relay_parent, statement, with_pvd).actions,
                    );
                }
            },
        }
    }
}

/// One message changes at most one reputation.
pub proof fn message_changes_at_most_one_reputation(
    peer: PeerId,
    data: PeerDataView,
    heads: Map<BlockHash, HeadView>,
    outdated: Seq<BlockHash>,
    message: VersionedMessage,
    released: bool,
    limits: NetworkLimits,
    taken: bool,
)
    ensures
        verdict_count(handling(peer, data, heads, outdated, message, released, limits, taken).actions) <= 1,
{
    let actions = handling(peer, data, heads, outdated, message, released, limits, taken).actions;
    if let Some(m) = message.plain() {
        if heads.contains_key(m.relay_parent()) {
            let head = heads[m.relay_parent()];
            match screening(data, head, m, released) {
                Screening::Passed => {
                    if let Retrieved::Statement(s) = retrieval(head.waiting_large_statements, m) {
                        lemma_completion_verdicts(
                            peer,
                            data_screened(data, head, m, released),
                            head,
                            m,
                            s.payload,
                            limits,
                        );
                    }
                },
                _ => {
                    if actions.len() == 1 {
                        lemma_two_verdicts(actions[0], actions[0]);
                        assert(actions =~= seq![actions[0]]);
                    } else if actions.len() == 2 {
                        lemma_two_verdicts(actions[0], actions[1]);
                        assert(actions =~= seq![actions[0], actions[1]]);
                    }
                },
            }
        } else if actions.len() == 1 {
            lemma_two_verdicts(actions[0], actions[0]);
            assert(actions =~= seq![actions[0]]);
        }
    }
}

/// A statement is stored only where the validator that it names has signed it for the head, where it
/// was not stored before, and as the message has it. It is stored then, and its sender is known to have
/// it. Nothing else makes a message add to what is stored.
pub proof fn only_authentic_statements_are_stored(
    peer: PeerId,
    data: PeerDataView,
    head: HeadView,
    message: StatementDistributionMessage,
    released: bool,
    limits: NetworkLimits,
    taken: bool,
)
    ensures
        ({
            let outcome = reception(peer, data, head, message, released, limits, taken);
            &&& outcome.step matches IncomingStep::Accepted(accepted) ==> {
                &&& head.authentic(message.relay_parent(), message_statement(message))
                &&& accepted.relay_parent == message.relay_parent()
                &&& accepted.comparator == message_comparator(message)
                &&& accepted.comparator == comparator(accepted.statement)
                &&& !has_key(head.statements, accepted.comparator)
                &&& outcome.head.statements == head.statements.push(
                    (accepted.comparator, accepted.statement),
                )
                &&& outcome.data.view_knowledge[message.relay_parent()].received_statements.contains(
                    message.fingerprint(),
                )
            }
            &&& !(outcome.step is Accepted) ==> outcome.head.statements == head.statements
        }),
{
    let relay_parent = message.relay_parent();
    let outcome = reception(peer, data, head, message, released, limits, taken);
    if screening(data, head, message, released) is Passed {
        let screened = data_screened(data, head, message, released);
        let fp = message.fingerprint();
        if let Retrieved::Statement(s) = retrieval(head.waiting_large_statements, message) {
            if s.payload.compact() == fp.0 {
                let statement: SignedFullStatement = Signed {
                    payload: s.payload,
                    validator_index: fp.1,
                    signature: message.signature(),
                };
                assert(comparator(statement) == message_comparator(message));
                let received = screened.after_receive(relay_parent, fp, head.max_message_count());
                assert(received.view_knowledge[relay_parent].received_statements.contains(fp));
                dispatch_only_adds_knowledge(
                    peer,
                    received,
                    relay_parent,
                    entries_about(head.statements, fp.0.candidate()),
                    limits,
                );
            }
        }
    }
}

/// A statement that was accepted from a peer is not sent back to it.
pub proof fn accepted_statement_is_not_sent_back(
    peer: PeerId,
    data: PeerDataView,
    head: HeadView,
    message: StatementDistributionMessage,
    released: bool,
    limits: NetworkLimits,
    taken: bool,
)
    requires
        reception(peer, data, head, message, released, limits, taken).step is Accepted,
    ensures
        !reception(peer, data, head, message, released, limits, taken).data.accepts(
            message.relay_parent(),
            message.fingerprint(),
        ),
{
    only_authentic_statements_are_stored(peer, data, head, message, released, limits, taken);
}

/// The runtime gives validation data.
pub open spec fn given<E>(pvd: PersistedValidationData) -> ValidationDataAnswer<E> {
    Ok(Some(pvd))
}

/// The runtime has no validation data.
pub open spec fn nothing<E>() -> ValidationDataAnswer<E> {
    Ok(None)
}

/// A statement that only waits for validation data is accepted as soon as the data is there, and not
/// at all if it cannot be had.
pub proof fn pending_statement_is_accepted_with_its_data<E>(
    peer: PeerId,
    data: PeerDataView,
    head: HeadView,
    message: StatementDistributionMessage,
    released: bool,
    limits: NetworkLimits,
    taken: bool,
    pvd: PersistedValidationData,
    failure: RuntimeFailure<E>,
)
    ensures
        ({
            let outcome = reception(peer, data, head, message, released, limits, taken);
            outcome.step matches IncomingStep::FetchValidationData(pending) ==> {
                &&& pending.peer == peer
                &&& pending.relay_parent == message.relay_parent()
                &&& comparator(pending.statement()) == message_comparator(message)
                &&& resumption(outcome.head, pending, given::<E>(pvd)).step is Accepted
                &&& resumption(outcome.head, pending, given::<E>(pvd)).actions == seq![
                    ActionView::ModifyReputation(peer, Rep::BenefitValidStatementFirst),
                    ActionView::BackStatement(
                        message.relay_parent(),
                        Signed {
                            payload: StatementWithPVD::Seconded(pending.receipt, pvd),
                            validator_index: pending.validator_index,
                            signature: pending.signature,
                        },
                    ),
                ]
                &&& resumption(outcome.head, pending, nothing::<E>()) == (HeadOutcome {
                    head: outcome.head,
                    step: IncomingStep::Done,
                    actions: seq![],
                })
                &&& resumption(outcome.head, pending, Err(failure)) == (HeadOutcome {
                    head: outcome.head,
                    step: IncomingStep::Done,
                    actions: seq![],
                })
            }
        }),
{
    let outcome = reception(peer, data, head, message, released, limits, taken);
    if let IncomingStep::FetchValidationData(pending) = outcome.step {
        assert(outcome.head == head);
        assert(comparator(pending.statement()) == message_comparator(message));
        let supplied = head.with_validation_data(pending.para(), given::<E>(pvd));
        assert(supplied.denial(comparator(pending.statement())) == head.denial(
            message_comparator(message),
        )) by {
            assert(supplied.seconded_by(pending.validator_index) == head.seconded_by(
                pending.validator_index,
            ));
        }
    }
}

/// A large statement whose payload was fetched, or is ours, is had at once; and if the payload is that
/// of the candidate, it is what the message states.
pub proof fn fetched_payload_is_returned(
    head: HeadView,
    metadata: StatementMetadata,
    payload: CommittedCandidateReceipt,
)
    requires
        head.waiting_large_statements.contains_key(metadata.candidate_hash),
        head.waiting_large_statements[metadata.candidate_hash] == StatusView::FetchedOrShared(payload),
    ensures
        ({
            let message = StatementDistributionMessage::LargeStatement(metadata);
            &&& retrieval(head.waiting_large_statements, message) == Retrieved::Statement(
                UncheckedSigned {
                    payload: Statement::Seconded(payload),
                    validator_index: metadata.signed_by,
                    signature: metadata.signature,
                },
            )
            &&& payload.candidate() == metadata.candidate_hash ==> Statement::Seconded(payload).compact()
                == message.fingerprint().0
        }),
{
}

/// A peer that states that a candidate is valid which it never told us of loses reputation for it only
/// the first time.
pub proof fn unknown_candidate_costs_reputation_once(
    peer: PeerId,
    data: PeerDataView,
    head: HeadView,
    message: StatementDistributionMessage,
    released: bool,
    limits: NetworkLimits,
    taken: bool,
)
    requires
        screening(data, head, message, released) == Screening::Unexpected(
            Rep::CostUnexpectedStatementUnknownCandidate,
        ),
        data.unexpected_count(message.relay_parent()) < usize::MAX,
    ensures
        ({
            let first = reception(peer, data, head, message, released, limits, taken);
            let second = reception(peer, first.data, first.head, message, released, limits, taken);
            &&& verdict_count(first.actions) == if data.unexpected_count(message.relay_parent()) == 0 {
                1nat
            } else {
                0nat
            }
            &&& second.actions == seq![ActionView::CountUnexpectedValid]
            &&& verdict_count(second.actions) == 0
        }),
{
    let first = reception(peer, data, head, message, released, limits, taken);
    let second = reception(peer, first.data, first.head, message, released, limits, taken);
    if first.actions.len() == 1 {
        lemma_two_verdicts(first.actions[0], first.actions[0]);
        assert(first.actions =~= seq![first.actions[0]]);
    } else {
        lemma_two_verdicts(first.actions[0], first.actions[1]);
        assert(first.actions =~= seq![first.actions[0], first.actions[1]]);
    }
    assert(message.fingerprint().0 is Valid);
    assert(message is Statement);
    assert(data.tracks(message.relay_parent()));
    assert(screening(first.data, first.head, message, released) == Screening::Unexpected(
        Rep::CostUnexpectedStatementUnknownCandidate,
    ));
    assert(first.data.unexpected_count(message.relay_parent()) > 0);
    lemma_two_verdicts(second.actions[0], second.actions[0]);
}

/// Whether all that is known of a peer is sound: what it knows about each relay parent; that no more of
/// its messages were counted for any candidate than `limit` gives for the relay parent; and that no more
/// large statements were let in from it, over all relay parents, than one sender may send.
pub open spec fn peer_sound(data: PeerDataView, limit: spec_fn(BlockHash) -> usize) -> bool {
    &&& forall|h: BlockHash| #[trigger]
        data.tracks(h) ==> knowledge::sound(data.view_knowledge[h]) && knowledge::metered(
            data.view_knowledge[h],
            limit(h),
        )
    &&& data.view_knowledge.dom().finite()
    &&& large_total(data.view_knowledge) <= MAX_LARGE_STATEMENTS_PER_SENDER
}

/// Where no relay parent has a greater count of large statements than before, the total is not greater.
pub proof fn large_total_does_not_grow(
    before: Map<BlockHash, KnowledgeView>,
    after: Map<BlockHash, KnowledgeView>,
)
    requires
        before.dom().finite(),
        after.dom().finite(),
        forall|h: BlockHash| #[trigger]
            after.contains_key(h) && after[h].large_statement_count > 0 ==> before.contains_key(h)
                && after[h].large_statement_count <= before[h].large_statement_count,
    ensures
        large_total(after) <= large_total(before),
    decreases after.dom().len(),
{
    if after.dom().len() > 0 {
        let h = after.dom().choose();
        assert(after.dom().contains(h));
        lemma_large_total_at(after, h);
        let rest = after.remove(h);
        if before.contains_key(h) {
            lemma_large_total_at(before, h);
            assert forall|x: BlockHash| #[trigger]
                rest.contains_key(x) && rest[x].large_statement_count > 0 implies before.remove(
                h,
            ).contains_key(x) && rest[x].large_statement_count <= before.remove(
                h,
            )[x].large_statement_count by {
                assert(after.contains_key(x));
            }
            large_total_does_not_grow(before.remove(h), rest);
        } else {
            assert forall|x: BlockHash| #[trigger]
                rest.contains_key(x) && rest[x].large_statement_count > 0 implies before.contains_key(x)
                && rest[x].large_statement_count <= before[x].large_statement_count by {
                assert(after.contains_key(x));
            }
            large_total_does_not_grow(before, rest);
        }
    }
}

/// However the large statements of a peer are spread over relay parents, one more is refused once as
/// many were let in, in total, as one sender may send.
pub proof fn large_statements_are_limited_in_total(data: PeerDataView, relay_parent: BlockHash)
    requires
        data.tracks(relay_parent),
        large_total(data.view_knowledge) >= MAX_LARGE_STATEMENTS_PER_SENDER,
    ensures
        data.large_objection(relay_parent) == Some(Rep::CostApparentFlood),
        data.after_large(relay_parent) == data,
{
}

proof fn lemma_same_counts(before: KnowledgeView, after: KnowledgeView, max_message_count: usize)
    requires
        knowledge::metered(before, max_message_count),
        after.received_statements == before.received_statements,
        after.received_message_count == before.received_message_count,
        after.seconded_counts == before.seconded_counts,
    ensures
        knowledge::metered(after, max_message_count),
{
    assert(forall|h: CandidateHash| #[trigger] after.message_count(h) == before.message_count(h));
    assert(forall|v: ValidatorIndex| #[trigger] after.tracker(v) == before.tracker(v));
}

/// A message keeps what is known of its sender, and of the head, sound, if twice the number of validators
/// at the head is what may be counted there. So however many messages a peer sends, no more of them are
/// counted for any candidate. The message changes neither the view of the sender nor the heads that
/// something is known about.
pub proof fn message_keeps_peer_and_head_sound(
    peer: PeerId,
    data: PeerDataView,
    active_head: HeadView,
    limit: spec_fn(BlockHash) -> usize,
    message: StatementDistributionMessage,
    released: bool,
    limits: NetworkLimits,
    taken: bool,
)
    requires
        peer_sound(data, limit),
        head::sound(active_head),
        active_head.max_message_count() == limit(message.relay_parent()),
        data.unexpected_count(message.relay_parent()) < usize::MAX,
    ensures
        peer_sound(
            reception(peer, data, active_head, message, released, limits, taken).data,
            limit,
        ),
        head::sound(reception(peer, data, active_head, message, released, limits, taken).head),
        reception(peer, data, active_head, message, released, limits, taken).data.view == data.view,
        reception(peer, data, active_head, message, released, limits, taken).data.view_knowledge.dom()
            == data.view_knowledge.dom(),
{
    let relay_parent = message.relay_parent();
    let fp = message.fingerprint();
    let max = active_head.max_message_count();
    let outcome = reception(peer, data, active_head, message, released, limits, taken);
    let noted = data_noted(data, message, released);
    assert(noted.view_knowledge.dom() =~= data.view_knowledge.dom());
    assert(peer_sound(noted, limit)) by {
        if data.tracks(relay_parent) && data.large_objection(relay_parent) is None {
            lemma_large_total_at(data.view_knowledge, relay_parent);
            if message is LargeStatement {
                lemma_large_total_at(noted.view_knowledge, relay_parent);
                assert(noted.view_knowledge.remove(relay_parent) =~= data.view_knowledge.remove(
                    relay_parent,
                ));
            }
            large_statement_keeps_knowledge_sound(data.view_knowledge[relay_parent]);
            lemma_same_counts(
                data.view_knowledge[relay_parent],
                noted.view_knowledge[relay_parent],
                max,
            );
        }
        assert forall|h: BlockHash| #[trigger] noted.tracks(h) implies knowledge::sound(
            noted.view_knowledge[h],
        ) && knowledge::metered(noted.view_knowledge[h], limit(h)) by {
            assert(data.tracks(h));
        }
    }
    let received = noted.after_receive(relay_parent, fp, max);
    assert(received.view_knowledge.dom() =~= data.view_knowledge.dom());
    assert(peer_sound(received, limit)) by {
        large_total_does_not_grow(noted.view_knowledge, received.view_knowledge);
        if noted.tracks(relay_parent) {
            receive_keeps_knowledge_sound(noted.view_knowledge[relay_parent], fp, max);
            knowledge::receive_keeps_knowledge_metered(noted.view_knowledge[relay_parent], fp, max);
        }
        assert forall|h: BlockHash| #[trigger] received.tracks(h) implies knowledge::sound(
            received.view_knowledge[h],
        ) && knowledge::metered(received.view_knowledge[h], limit(h)) by {
            assert(noted.tracks(h));
        }
    }
    let warned = noted.after_unexpected(relay_parent);
    assert(warned.view_knowledge.dom() =~= data.view_knowledge.dom());
    assert(peer_sound(warned, limit)) by {
        large_total_does_not_grow(noted.view_knowledge, warned.view_knowledge);
        if noted.tracks(relay_parent) {
            let k = noted.view_knowledge[relay_parent];
            unexpected_message_keeps_knowledge_sound(k, (k.unexpected_count + 1) as usize);
            lemma_same_counts(k, warned.view_knowledge[relay_parent], max);
        }
        assert forall|h: BlockHash| #[trigger] warned.tracks(h) implies knowledge::sound(
            warned.view_knowledge[h],
        ) && knowledge::metered(warned.view_knowledge[h], limit(h)) by {
            assert(noted.tracks(h));
        }
    }
    let about = entries_about(active_head.statements, fp.0.candidate());
    dispatch_only_adds_knowledge(peer, received, relay_parent, about, limits);
    let informed = dispatch(peer, received, relay_parent, about, limits).0;
    assert(peer_sound(informed, limit)) by {
        large_total_does_not_grow(received.view_knowledge, informed.view_knowledge);
        assert forall|h: BlockHash| #[trigger] informed.tracks(h) implies knowledge::sound(
            informed.view_knowledge[h],
        ) && knowledge::metered(informed.view_knowledge[h], limit(h)) by {
            assert(received.tracks(h));
            assert(received.tracks(relay_parent) || h != relay_parent);
        }
    }
    match screening(data, active_head, message, released) {
        Screening::Passed => match retrieval(active_head.waiting_large_statements, message) {
            Retrieved::Statement(s) => {
                let statement: SignedFullStatement = Signed {
                    payload: s.payload,
                    validator_index: fp.1,
                    signature: message.signature(),
                };
                head::note_keeps_head_sound(active_head, statement);
            },
            Retrieved::Launch(_) => {},
            Retrieved::Waiting => {
                head::status_keeps_head_sound(
                    active_head,
                    outcome.head.waiting_large_statements,
                );
            },
        },
        _ => {},
    }
}

/// A large statement adds one to what was let in from its sender when it comes, unless it is refused. It
/// adds nothing more when it is released after it has waited, and no other message adds anything.
pub proof fn large_statement_is_counted_once(
    peer: PeerId,
    data: PeerDataView,
    active_head: HeadView,
    message: StatementDistributionMessage,
    limits: NetworkLimits,
    taken: bool,
)
    requires
        data.view_knowledge.dom().finite(),
    ensures
        ({
            let relay_parent = message.relay_parent();
            let before = large_total(data.view_knowledge);
            let came = reception(peer, data, active_head, message, false, limits, taken).data;
            let freed = reception(peer, data, active_head, message, true, limits, taken).data;
            &&& large_total(came.view_knowledge) == before + if message is LargeStatement
                && data.large_objection(relay_parent) is None {
                1nat
            } else {
                0nat
            }
            &&& large_total(freed.view_knowledge) == before
        }),
{
    lemma_large_total_after(peer, data, active_head, message, false, limits, taken);
    lemma_large_total_after(peer, data, active_head, message, true, limits, taken);
    let relay_parent = message.relay_parent();
    if message is LargeStatement && data.large_objection(relay_parent) is None {
        let noted = data_noted(data, message, false);
        lemma_large_total_at(data.view_knowledge, relay_parent);
        lemma_large_total_at(noted.view_knowledge, relay_parent);
        assert(noted.view_knowledge.remove(relay_parent) =~= data.view_knowledge.remove(
            relay_parent,
        ));
    }
}

proof fn lemma_large_total_after(
    peer: PeerId,
    data: PeerDataView,
    active_head: HeadView,
    message: StatementDistributionMessage,
    released: bool,
    limits: NetworkLimits,
    taken: bool,
)
    requires
        data.view_knowledge.dom().finite(),
    ensures
        large_total(
            reception(
                peer,
                data,
                active_head,
                message,
                released,
                limits,
                taken,
            ).data.view_knowledge,
        ) == large_total(data_noted(data, message, released).view_knowledge),
{
    let relay_parent = message.relay_parent();
    let fp = message.fingerprint();
    let noted = data_noted(data, message, released);
    let received = noted.after_receive(relay_parent, fp, active_head.max_message_count());
    let about = entries_about(active_head.statements, fp.0.candidate());
    dispatch_only_adds_knowledge(peer, received, relay_parent, about, limits);
    let after = reception(peer, data, active_head, message, released, limits, taken).data;
    assert(noted.view_knowledge.dom() =~= data.view_knowledge.dom());
    assert(received.view_knowledge.dom() =~= data.view_knowledge.dom());
    assert(after.view_knowledge.dom() =~= data.view_knowledge.dom());
    assert(forall|h: BlockHash|
        noted.view_knowledge.contains_key(h) ==> (
        #[trigger] after.view_knowledge[h]).large_statement_count
            == noted.view_knowledge[h].large_statement_count);
    large_total_does_not_grow(noted.view_knowledge, after.view_knowledge);
    large_total_does_not_grow(after.view_knowledge, noted.view_knowledge);
}

/// Going on with a statement once the runtime was asked for its validation data keeps a head sound.
pub proof fn resumption_keeps_head_sound<E>(
    active_head: HeadView,
    pending: PendingStatement,
    answer: ValidationDataAnswer<E>,
)
    requires
        head::sound(active_head),
    ensures
        head::sound(resumption(active_head, pending, answer).head),
{
    head::validation_data_keeps_head_sound(active_head, pending.para(), answer);
    head::note_keeps_head_sound(
        active_head.with_validation_data(pending.para(), answer),
        pending.statement(),
    );
}

} // verus!
