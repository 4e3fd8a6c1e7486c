//! What comes of each kind of message.
use crate::distribute::dispatch;
use crate::error::ValidationDataAnswer;
use crate::fetching::StatusView;
use crate::head::{DeniedStatement, HeadView, entries_about};
use crate::ids::{BlockHash, CandidateHash, ParaId, PeerId};
use crate::incoming::{
    IncomingStep, PendingStatement, Retrieved, acceptance, completion, data_screened, handling,
    message_comparator, message_statement, reception, resumption, retrieval, waiting_after,
};
use crate::laws::delivery::every_noted_statement_is_sent;
use crate::message::{
    ActionView, NetworkLimits, StatementDistributionMessage, ValidationVersion, VersionedMessage, wrapped,
};
use crate::peer::PeerDataView;
use crate::reputation::Rep;
use crate::statement::{
    Signed, SignedFullStatement, Statement, StatementWithPVD, receipt_para_id,
};
use crate::stored::comparator;
use vstd::prelude::*;

verus! {

/// Whether a message is counted as a large statement when it comes: unless it was counted before, and is
/// released now.
pub open spec fn counts_as_large(message: StatementDistributionMessage, released: bool) -> bool {
    message is LargeStatement && !released
}

/// What is known of the sender of a message once the message is counted as far as it has to be.
pub open spec fn counted(
    data: PeerDataView,
    message: StatementDistributionMessage,
    released: bool,
) -> PeerDataView {
    if counts_as_large(message, released) {
        data.after_large(message.relay_parent())
    } else {
        data
    }
}

/// What the rules of flood protection have against a message: that its sender may not send any more large
/// statements, or what is wrong with the statement itself.
pub open spec fn flood_objection(
    data: PeerDataView,
    head: HeadView,
    message: StatementDistributionMessage,
    released: bool,
) -> Option<Rep> {
    if counts_as_large(message, released) && data.large_objection(message.relay_parent()) is Some {
        data.large_objection(message.relay_parent())
    } else {
        counted(data, message, released).receive_objection(
            message.relay_parent(),
            message.fingerprint(),
            head.max_message_count(),
        )
    }
}

/// A large statement that its sender may not send costs it reputation and changes nothing.
pub proof fn refused_large_statement_changes_nothing(
    peer: PeerId,
    data: PeerDataView,
    head: HeadView,
    message: StatementDistributionMessage,
    limits: NetworkLimits,
    taken: bool,
)
    requires
        message is LargeStatement,
        data.large_objection(message.relay_parent()) is Some,
    ensures
        ({
            let outcome = reception(peer, data, head, message, false, limits, taken);
            &&& outcome.actions == seq![
                ActionView::ModifyReputation(peer, data.large_objection(message.relay_parent())->0),
            ]
            &&& outcome.data == data
            &&& outcome.head == head
            &&& outcome.step is Done
        }),
{
}

/// A message with a statement that its sender should not have sent costs reputation, for what is wrong with
/// it. It is counted: as unexpected at the sender, and, for a statement about an unknown candidate or beyond
/// what a validator may second, in the kind that it is of. About an unknown candidate, only the first
/// unexpected message costs anything. Nothing else is changed.
pub proof fn unexpected_message_costs_what_is_wrong_with_it(
    peer: PeerId,
    data: PeerDataView,
    head: HeadView,
    message: StatementDistributionMessage,
    released: bool,
    limits: NetworkLimits,
    taken: bool,
)
    requires
        counts_as_large(message, released) ==> data.large_objection(message.relay_parent()) is None,
        flood_objection(data, head, message, released) is Some,
    ensures
        ({
            let outcome = reception(peer, data, head, message, released, limits, taken);
            let rep = flood_objection(data, head, message, released)->0;
            let cost = ActionView::ModifyReputation(peer, rep);
            let unknown = Rep::CostUnexpectedStatementUnknownCandidate;
            let remote = Rep::CostUnexpectedStatementRemote;
            &&& rep != unknown && rep != remote ==> outcome.actions == seq![cost]
            &&& rep == remote ==> outcome.actions == seq![ActionView::CountUnexpectedSeconded, cost]
            &&& rep == unknown && data.unexpected_count(message.relay_parent()) == 0 ==> outcome.actions
                == seq![ActionView::CountUnexpectedValid, cost]
            &&& rep == unknown && data.unexpected_count(message.relay_parent()) > 0 ==> outcome.actions
                == seq![ActionView::CountUnexpectedValid]
            &&& outcome.data == counted(data, message, released).after_unexpected(message.relay_parent())
            &&& outcome.head == head
            &&& outcome.step is Done
        }),
{
}

/// A statement that is of no use costs nothing and earns nothing, and changes nothing but the count of large
/// statements.
pub proof fn useless_statement_is_ignored(
    peer: PeerId,
    data: PeerDataView,
    head: HeadView,
    message: StatementDistributionMessage,
    released: bool,
    limits: NetworkLimits,
    taken: bool,
)
    requires
        flood_objection(data, head, message, released) is None,
        head.denial(message_comparator(message)) == Some(DeniedStatement::NotUseful),
    ensures
        ({
            let outcome = reception(peer, data, head, message, released, limits, taken);
            &&& outcome.actions.len() == 0
            &&& outcome.data == counted(data, message, released)
            &&& outcome.head == head
            &&& outcome.step is Done
        }),
{
}

/// A statement that is stored already and of use earns its sender reputation, once: `Valid` or `Seconded`,
/// the sender is known to have it from now on, so that it is not sent to it, and costs it when it comes
/// again. Nothing is changed at the head.
pub proof fn known_statement_earns_reputation(
    peer: PeerId,
    data: PeerDataView,
    head: HeadView,
    message: StatementDistributionMessage,
    released: bool,
    limits: NetworkLimits,
    taken: bool,
    later_max: usize,
)
    requires
        flood_objection(data, head, message, released) is None,
        head.denial(message_comparator(message)) == Some(DeniedStatement::UsefulButKnown),
    ensures
        ({
            let relay_parent = message.relay_parent();
            let fp = message.fingerprint();
            let outcome = reception(peer, data, head, message, released, limits, taken);
            let k = outcome.data.view_knowledge[relay_parent];
            &&& outcome.actions == seq![ActionView::ModifyReputation(peer, Rep::BenefitValidStatement)]
            &&& outcome.data == counted(data, message, released).after_receive(
                relay_parent,
                fp,
                head.max_message_count(),
            )
            &&& k.received_statements.contains(fp)
            &&& k.received_candidates.contains(fp.0.candidate())
            &&& !outcome.data.accepts(relay_parent, fp)
            &&& outcome.data.receive_objection(relay_parent, fp, later_max) == Some(
                Rep::CostDuplicateStatement,
            )
            &&& outcome.head == head
            &&& outcome.step is Done
        }),
{
}

/// A fresh statement that its validator has not signed costs its sender reputation and changes nothing but
/// the count of large statements.
pub proof fn forged_statement_costs_reputation(
    peer: PeerId,
    data: PeerDataView,
    head: HeadView,
    message: StatementDistributionMessage,
    released: bool,
    limits: NetworkLimits,
    taken: bool,
)
    requires
        flood_objection(data, head, message, released) is None,
        head.denial(message_comparator(message)) is None,
        !head.authentic(message.relay_parent(), message_statement(message)),
    ensures
        ({
            let outcome = reception(peer, data, head, message, released, limits, taken);
            &&& outcome.actions == seq![ActionView::ModifyReputation(peer, Rep::CostInvalidSignature)]
            &&& outcome.data == counted(data, message, released)
            &&& outcome.head == head
            &&& outcome.step is Done
        }),
{
}

/// Whether nothing speaks against a message: neither flood protection nor what is stored nor its signature.
pub open spec fn in_order(
    data: PeerDataView,
    head: HeadView,
    message: StatementDistributionMessage,
    released: bool,
) -> bool {
    &&& flood_objection(data, head, message, released) is None
    &&& head.denial(message_comparator(message)) is None
    &&& head.authentic(message.relay_parent(), message_statement(message))
}

/// The payload of a large statement of which nothing is known has to be requested. Until then nothing is
/// changed but the count of large statements.
pub proof fn unknown_payload_is_requested(
    peer: PeerId,
    data: PeerDataView,
    head: HeadView,
    message: StatementDistributionMessage,
    released: bool,
    limits: NetworkLimits,
    taken: bool,
)
    requires
        in_order(data, head, message, released),
        message is LargeStatement,
        !head.waiting_large_statements.contains_key(message.fingerprint().0.candidate()),
    ensures
        ({
            let outcome = reception(peer, data, head, message, released, limits, taken);
            &&& outcome.step == IncomingStep::LaunchRequest(
                data.protocol_version,
                message->LargeStatement_0,
            )
            &&& outcome.actions.len() == 0
            &&& outcome.data == counted(data, message, released)
            &&& outcome.head == head
        }),
{
}

/// While the payload of a candidate is fetched, a large statement and a `Valid` one about the candidate are
/// kept with their sender, as they came. Nothing else is changed at the head, and nothing is known of the
/// sender but the count of large statements.
pub proof fn message_waits_for_its_payload(
    peer: PeerId,
    data: PeerDataView,
    head: HeadView,
    message: StatementDistributionMessage,
    released: bool,
    limits: NetworkLimits,
    taken: bool,
    other: CandidateHash,
)
    requires
        in_order(data, head, message, released),
        message is LargeStatement || message.fingerprint().0 is Valid,
        head.waiting_large_statements.contains_key(message.fingerprint().0.candidate()),
        head.waiting_large_statements[message.fingerprint().0.candidate()] is Fetching,
    ensures
        ({
            let h = message.fingerprint().0.candidate();
            let outcome = reception(peer, data, head, message, released, limits, taken);
            let before = head.waiting_large_statements;
            let after = outcome.head.waiting_large_statements;
            &&& after.contains_key(h)
            &&& after[h] == StatusView::Fetching(
                before[h]->Fetching_0.after_message(
                    peer,
                    wrapped(data.protocol_version, message),
                    message is LargeStatement,
                    taken,
                ),
            )
            &&& other != h ==> (after.contains_key(other) <==> before.contains_key(other))
                && after[other] == before[other]
            &&& outcome.head == (HeadView { waiting_large_statements: after, ..head })
            &&& outcome.actions.len() == 0
            &&& outcome.step is Done
            &&& outcome.data == counted(data, message, released)
        }),
{
}

/// The payload that a message states, if it is there: that of the message itself, unless it is a `Valid`
/// statement about a candidate whose payload is fetched, or else what was fetched or shared.
pub open spec fn payload_at_hand(head: HeadView, message: StatementDistributionMessage) -> Option<Statement> {
    let h = message.fingerprint().0.candidate();
    let waiting = head.waiting_large_statements;
    match message {
        StatementDistributionMessage::Statement(_, s) => if s.payload is Valid && waiting.contains_key(h)
            && waiting[h] is Fetching {
            None
        } else {
            Some(s.payload)
        },
        StatementDistributionMessage::LargeStatement(_) => if waiting.contains_key(h) {
            match waiting[h] {
                StatusView::FetchedOrShared(receipt) => Some(Statement::Seconded(receipt)),
                StatusView::Fetching(_) => None,
            }
        } else {
            None
        },
    }
}

/// A payload that is not what the message says costs its sender reputation, and changes nothing but the
/// count of large statements.
pub proof fn wrong_payload_costs_reputation(
    peer: PeerId,
    data: PeerDataView,
    head: HeadView,
    message: StatementDistributionMessage,
    released: bool,
    limits: NetworkLimits,
    taken: bool,
)
    requires
        in_order(data, head, message, released),
        payload_at_hand(head, message) is Some,
        payload_at_hand(head, message)->0.compact() != message.fingerprint().0,
    ensures
        ({
            let outcome = reception(peer, data, head, message, released, limits, taken);
            &&& outcome.actions == seq![ActionView::ModifyReputation(peer, Rep::CostWrongHash)]
            &&& outcome.data == counted(data, message, released)
            &&& outcome.head == head
            &&& outcome.step is Done
        }),
{
}

/// What is known of the sender of a statement in order, and what it is told: it is known to have sent the
/// statement; and if it was not known to have the candidate that the statement seconds, it is told what is
/// stored about the candidate, and nothing otherwise.
pub open spec fn sender_is_told(
    peer: PeerId,
    data: PeerDataView,
    head: HeadView,
    message: StatementDistributionMessage,
    released: bool,
    limits: NetworkLimits,
    after: PeerDataView,
    told: Seq<ActionView>,
) -> bool {
    let relay_parent = message.relay_parent();
    let fp = message.fingerprint();
    let before = counted(data, message, released);
    let received = before.after_receive(relay_parent, fp, head.max_message_count());
    if before.introduces(relay_parent, fp) {
        (after, told) == dispatch(
            peer,
            received,
            relay_parent,
            entries_about(head.statements, fp.0.candidate()),
            limits,
        )
    } else {
        after == received && told.len() == 0
    }
}

/// What comes of a fresh statement once all is there that it needs: its sender is the first to provide it,
/// it is handed on for backing, at its relay parent and with its signature, and then circulated; and it is
/// stored behind all others.
pub open spec fn is_accepted(
    peer: PeerId,
    head: HeadView,
    relay_parent: BlockHash,
    statement: SignedFullStatement,
    payload: StatementWithPVD,
    after: HeadView,
    step: IncomingStep,
    end: Seq<ActionView>,
) -> bool {
    &&& step matches IncomingStep::Accepted(accepted) && accepted.relay_parent == relay_parent
        && accepted.comparator == comparator(statement) && accepted.statement == statement
    &&& end == seq![
        ActionView::ModifyReputation(peer, Rep::BenefitValidStatementFirst),
        ActionView::BackStatement(
            relay_parent,
            Signed {
                payload,
                validator_index: statement.validator_index,
                signature: statement.signature,
            },
        ),
    ]
    &&& after == head.after_note(statement)
    &&& after.statements == head.statements.push((comparator(statement), statement))
}

/// A `Valid` statement that is in order is accepted: its sender is told what it is to be told, and earns
/// reputation as the first to provide it; it is stored, handed on for backing, and circulated.
pub proof fn valid_statement_in_order_is_accepted(
    peer: PeerId,
    data: PeerDataView,
    head: HeadView,
    message: StatementDistributionMessage,
    released: bool,
    limits: NetworkLimits,
    taken: bool,
)
    requires
        in_order(data, head, message, released),
        payload_at_hand(head, message) is Some,
        payload_at_hand(head, message)->0.compact() == message.fingerprint().0,
        message.fingerprint().0 is Valid,
    ensures
        ({
            let outcome = reception(peer, data, head, message, released, limits, taken);
            let n = outcome.actions.len() - 2;
            let statement: SignedFullStatement = Signed {
                payload: payload_at_hand(head, message)->0,
                validator_index: message.fingerprint().1,
                signature: message.signature(),
            };
            &&& n >= 0
            &&& sender_is_told(
                peer,
                data,
                head,
                message,
                released,
                limits,
                outcome.data,
                outcome.actions.take(n),
            )
            &&& is_accepted(
                peer,
                head,
                message.relay_parent(),
                statement,
                StatementWithPVD::Valid(message.fingerprint().0.candidate()),
                outcome.head,
                outcome.step,
                outcome.actions.skip(n),
            )
        }),
{
    lemma_completion(peer, data, head, message, released, limits, taken);
}

proof fn lemma_completion(
    peer: PeerId,
    data: PeerDataView,
    head: HeadView,
    message: StatementDistributionMessage,
    released: bool,
    limits: NetworkLimits,
    taken: bool,
)
    requires
        in_order(data, head, message, released),
        payload_at_hand(head, message) is Some,
        payload_at_hand(head, message)->0.compact() == message.fingerprint().0,
    ensures
        ({
            let outcome = reception(peer, data, head, message, released, limits, taken);
            let payload = payload_at_hand(head, message)->0;
            let statement: SignedFullStatement = Signed {
                payload,
                validator_index: message.fingerprint().1,
                signature: message.signature(),
            };
            let n = outcome.actions.len() - 2;
            let needs = match payload {
                Statement::Valid(h) => Some(StatementWithPVD::Valid(h)),
                Statement::Seconded(receipt) => match head.validation_data(
                    ParaId(receipt_para_id(receipt.bytes())),
                ) {
                    Some(pvd) => Some(StatementWithPVD::Seconded(receipt, pvd)),
                    None => None,
                },
            };
            match needs {
                Some(with_pvd) => {
                    &&& n >= 0
                    &&& sender_is_told(
                        peer,
                        data,
                        head,
                        message,
                        released,
                        limits,
                        outcome.data,
                        outcome.actions.take(n),
                    )
                    &&& is_accepted(
                        peer,
                        head,
                        message.relay_parent(),
                        statement,
                        with_pvd,
                        outcome.head,
                        outcome.step,
                        outcome.actions.skip(n),
                    )
                },
                None => sender_is_told(
                    peer,
                    data,
                    head,
                    message,
                    released,
                    limits,
                    outcome.data,
                    outcome.actions,
                ),
            }
        }),
{
    let relay_parent = message.relay_parent();
    let fp = message.fingerprint();
    let payload = payload_at_hand(head, message)->0;
    let outcome = reception(peer, data, head, message, released, limits, taken);
    let before = data_screened(data, head, message, released);
    assert(before == counted(data, message, released));
    let s = retrieval(head.waiting_large_statements, message)->Statement_0;
    assert(s.payload == payload);
    assert(outcome == completion(peer, before, head, message, payload, limits));
    let statement: SignedFullStatement = Signed {
        payload,
        validator_index: fp.1,
        signature: message.signature(),
    };
    assert(comparator(statement) == message_comparator(message));
    let received = before.after_receive(relay_parent, fp, head.max_message_count());
    let (informed, sent) = if before.introduces(relay_parent, fp) {
        dispatch(
            peer,
            received,
            relay_parent,
            entries_about(head.statements, fp.0.candidate()),
            limits,
        )
    } else {
        (received, seq![])
    };
    let n = outcome.actions.len() - 2;
    let end = outcome.actions.skip(sent.len() as int);
    assert(outcome.actions.take(sent.len() as int) =~= sent);
    match payload {
        Statement::Valid(h) => {
            let tail = acceptance(peer, head, relay_parent, statement, StatementWithPVD::Valid(h));
            assert(outcome.actions == sent + tail.actions);
            assert(end =~= tail.actions);
            assert(n == sent.len());
        },
        Statement::Seconded(receipt) => {
            match head.validation_data(ParaId(receipt_para_id(receipt.bytes()))) {
                Some(pvd) => {
                    let tail = acceptance(
                        peer,
                        head,
                        relay_parent,
                        statement,
                        StatementWithPVD::Seconded(receipt, pvd),
                    );
                    assert(outcome.actions == sent + tail.actions);
                    assert(end =~= tail.actions);
                    assert(n == sent.len());
                },
                None => {
                    assert(outcome.actions == sent);
                },
            }
        },
    }
}

/// A `Seconded` statement that is in order is accepted like a `Valid` one, with the validation data of its
/// parachain, if that is there. If it is not, the sender is told what it is to be told, the data is asked
/// for, and nothing else comes of the statement until then.
pub proof fn seconded_statement_in_order_needs_validation_data(
    peer: PeerId,
    data: PeerDataView,
    head: HeadView,
    message: StatementDistributionMessage,
    released: bool,
    limits: NetworkLimits,
    taken: bool,
)
    requires
        in_order(data, head, message, released),
        payload_at_hand(head, message) is Some,
        payload_at_hand(head, message)->0.compact() == message.fingerprint().0,
        message.fingerprint().0 is Seconded,
    ensures
        ({
            let outcome = reception(peer, data, head, message, released, limits, taken);
            let receipt = payload_at_hand(head, message)->0->Seconded_0;
            let para = ParaId(receipt_para_id(receipt.bytes()));
            let n = outcome.actions.len() - 2;
            let statement: SignedFullStatement = Signed {
                payload: Statement::Seconded(receipt),
                validator_index: message.fingerprint().1,
                signature: message.signature(),
            };
            &&& head.cached_validation_data.contains_key(para) ==> {
                &&& n >= 0
                &&& sender_is_told(
                    peer,
                    data,
                    head,
                    message,
                    released,
                    limits,
                    outcome.data,
                    outcome.actions.take(n),
                )
                &&& is_accepted(
                    peer,
                    head,
                    message.relay_parent(),
                    statement,
                    StatementWithPVD::Seconded(receipt, head.cached_validation_data[para]),
                    outcome.head,
                    outcome.step,
                    outcome.actions.skip(n),
                )
            }
            &&& !head.cached_validation_data.contains_key(para) ==> {
                &&& sender_is_told(
                    peer,
                    data,
                    head,
                    message,
                    released,
                    limits,
                    outcome.data,
                    outcome.actions,
                )
                &&& outcome.head == head
                &&& outcome.step == IncomingStep::FetchValidationData(
                    PendingStatement {
                        peer,
                        relay_parent: message.relay_parent(),
                        receipt,
                        validator_index: message.fingerprint().1,
                        signature: message.signature(),
                    },
                )
            }
        }),
{
    lemma_completion(peer, data, head, message, released, limits, taken);
}

/// A statement that waited for validation data is accepted with it, if it is still fresh. If it is not, or
/// if there is no data, nobody's reputation changes and nothing is handed on. The data is kept in any case.
pub proof fn statement_goes_on_with_its_validation_data<E>(
    head: HeadView,
    pending: PendingStatement,
    answer: ValidationDataAnswer<E>,
)
    ensures
        ({
            let para = ParaId(receipt_para_id(pending.receipt.bytes()));
            let statement: SignedFullStatement = Signed {
                payload: Statement::Seconded(pending.receipt),
                validator_index: pending.validator_index,
                signature: pending.signature,
            };
            let supplied = head.with_validation_data(para, answer);
            let outcome = resumption(head, pending, answer);
            match supplied.validation_data(para) {
                Some(pvd) => {
                    &&& supplied.denial(comparator(statement)) is None ==> is_accepted(
                        pending.peer,
                        supplied,
                        pending.relay_parent,
                        statement,
                        StatementWithPVD::Seconded(pending.receipt, pvd),
                        outcome.head,
                        outcome.step,
                        outcome.actions,
                    )
                    &&& supplied.denial(comparator(statement)) is Some ==> outcome.actions.len() == 0
                        && outcome.step is Done && outcome.head == supplied.after_note(statement)
                },
                None => outcome.actions.len() == 0 && outcome.step is Done && outcome.head == supplied,
            }
        }),
{
}

/// What a peer knows once its statement was accepted: the statement and the candidate came from it, and all
/// else that came from it stays as it was.
pub proof fn sender_of_accepted_statement_is_known_to_have_it(
    peer: PeerId,
    data: PeerDataView,
    head: HeadView,
    message: StatementDistributionMessage,
    released: bool,
    limits: NetworkLimits,
    after: PeerDataView,
    told: Seq<ActionView>,
)
    requires
        in_order(data, head, message, released),
        sender_is_told(peer, data, head, message, released, limits, after, told),
    ensures
        ({
            let relay_parent = message.relay_parent();
            let fp = message.fingerprint();
            let before = counted(data, message, released).view_knowledge[relay_parent];
            let k = after.view_knowledge[relay_parent];
            &&& k.received_statements == before.received_statements.insert(fp)
            &&& k.received_candidates == before.received_candidates.insert(fp.0.candidate())
            &&& !after.accepts(relay_parent, fp)
        }),
{
    let relay_parent = message.relay_parent();
    let fp = message.fingerprint();
    let before = counted(data, message, released);
    let received = before.after_receive(relay_parent, fp, head.max_message_count());
    every_noted_statement_is_sent(
        peer,
        received,
        relay_parent,
        entries_about(head.statements, fp.0.candidate()),
        limits,
    );
}

/// A message that is not one of the first version is ignored. One for an active head is judged there, and
/// changes nothing at other heads. One for another head costs its sender reputation, unless the head was
/// active until recently, and changes nothing.
pub proof fn message_is_judged_at_its_head(
    peer: PeerId,
    data: PeerDataView,
    heads: Map<BlockHash, HeadView>,
    outdated: Seq<BlockHash>,
    message: VersionedMessage,
    released: bool,
    limits: NetworkLimits,
    taken: bool,
)
    ensures
        ({
            let outcome = handling(peer, data, heads, outdated, message, released, limits, taken);
            &&& message.plain() is None ==> outcome.data == data && outcome.heads == heads
                && outcome.step is Done && outcome.actions.len() == 0
            &&& message.plain() matches Some(m) ==> {
                let h = m.relay_parent();
                &&& heads.contains_key(h) ==> {
                    let end = reception(peer, data, heads[h], m, released, limits, taken);
                    &&& outcome.data == end.data
                    &&& outcome.heads == heads.insert(h, end.head)
                    &&& outcome.step == end.step
                    &&& outcome.actions == end.actions
                }
                &&& !heads.contains_key(h) ==> {
                    &&& outcome.data == data
                    &&& outcome.heads == heads
                    &&& outcome.step is Done
                    &&& outdated.contains(h) ==> outcome.actions.len() == 0
                    &&& !outdated.contains(h) ==> outcome.actions == seq![
                        ActionView::ModifyReputation(peer, Rep::CostUnexpectedStatement),
                    ]
                }
            }
        }),
{
}

/// A message stands for what it states, by whom and with which signature, whether or not the payload comes
/// along.
pub proof fn message_stands_for_its_statement(m: StatementDistributionMessage)
    ensures
        message_comparator(m).compact == m.fingerprint().0,
        message_comparator(m).validator_index == m.fingerprint().1,
        message_comparator(m).signature == m.signature(),
        message_statement(m).payload == m.fingerprint().0,
        message_statement(m).validator_index == m.fingerprint().1,
        message_statement(m).signature == m.signature(),
{
}

/// Whether the payload of a message is there, has to be requested or is fetched already can be told from
/// what is known about the candidate; and only where it is fetched is anything changed by the message.
pub proof fn payload_is_retrieved_requested_or_awaited(
    head: HeadView,
    peer: PeerId,
    version: ValidationVersion,
    m: StatementDistributionMessage,
    taken: bool,
)
    ensures
        ({
            let waiting = head.waiting_large_statements;
            let h = m.fingerprint().0.candidate();
            let fetching = waiting.contains_key(h) && waiting[h] is Fetching;
            let got = retrieval(waiting, m);
            &&& got is Waiting <==> fetching && (m is LargeStatement || m.fingerprint().0 is Valid)
            &&& got is Launch <==> m is LargeStatement && !waiting.contains_key(h)
            &&& got is Launch ==> got->Launch_0 == m->LargeStatement_0
            &&& got matches Retrieved::Statement(s) ==> {
                &&& payload_at_hand(head, m) == Some(s.payload)
                &&& s.validator_index == m.fingerprint().1
                &&& s.signature == m.signature()
            }
            &&& got is Statement <==> payload_at_hand(head, m) is Some
            &&& !(got is Waiting) ==> waiting_after(waiting, peer, version, m, taken) == waiting
        }),
{
}

} // verus!
