//! Statements that peers send us.
use crate::collections::ListMap;
use crate::distribute::{dispatch, send_statements_about};
use crate::error::ValidationDataAnswer;
use crate::fetching::{LargeStatementStatus, StatusView};
use crate::head::{
    ActiveHeadData, DeniedStatement, HeadView, NotedStatement, check_statement_signature,
    entries_about,
};
use crate::ids::{BlockHash, CandidateHash, ParaId, PeerId, ValidatorIndex, ValidatorSignature};
use crate::message::{
    Action, ActionView, NetworkLimits, Outbox, StatementDistributionMessage, StatementMetadata,
    ValidationVersion, VersionedMessage, wrapped,
};
use crate::outdated::RecentOutdatedHeads;
use crate::peer::{PeerData, PeerDataView};
use crate::reputation::Rep;
use crate::statement::{
    CommittedCandidateReceipt, CompactStatement, Fingerprint, Signed, SignedFullStatement,
    Statement, StatementWithPVD, UncheckedSigned,
    UncheckedSignedFullStatement, UncheckedSignedStatement, receipt_para_id,
};
use crate::stored::{StoredStatementComparator, comparator};
use vstd::prelude::*;

verus! {

/// A statement that has passed all checks but waits for the validation data of its parachain.
#[derive(PartialEq, Eq, Debug)]
pub struct PendingStatement {
    /// The peer that sent the statement.
    pub peer: PeerId,
    /// The relay parent that the statement is for.
    pub relay_parent: BlockHash,
    /// The receipt of the candidate that is seconded.
    pub receipt: CommittedCandidateReceipt,
    /// The validator that seconds it.
    pub validator_index: ValidatorIndex,
    /// The signature of the validator.
    pub signature: ValidatorSignature,
}

impl PendingStatement {
    /// The parachain whose validation data is needed.
    pub open spec fn para(self) -> ParaId {
        ParaId(receipt_para_id(self.receipt.bytes()))
    }

    /// The statement.
    pub open spec fn statement(self) -> SignedFullStatement {
        Signed {
            payload: Statement::Seconded(self.receipt),
            validator_index: self.validator_index,
            signature: self.signature,
        }
    }

    /// The parachain whose validation data is needed.
    pub fn para_id(&self) -> (r: ParaId)
        ensures
            r == self.para(),
    {
        self.receipt.para_id()
    }
}

/// A statement that is new and was stored.
#[derive(PartialEq, Eq, Debug)]
pub struct AcceptedStatement {
    /// The relay parent that the statement is for.
    pub relay_parent: BlockHash,
    /// What tells the statement apart.
    pub comparator: StoredStatementComparator,
    /// The statement.
    pub statement: SignedFullStatement,
}

/// How the handling of a message goes on.
#[derive(PartialEq, Eq, Debug)]
pub enum IncomingStep {
    /// There is nothing more to do.
    Done,
    /// The payload of a large statement has to be requested from its sender.
    LaunchRequest(ValidationVersion, StatementMetadata),
    /// The validation data of a parachain is needed.
    FetchValidationData(PendingStatement),
    /// The statement is new, and is to be circulated.
    Accepted(AcceptedStatement),
}

/// How the payload of a message is had.
#[derive(PartialEq, Eq, Debug)]
pub enum Retrieved {
    /// It is there.
    Statement(UncheckedSignedFullStatement),
    /// It has to be requested from the sender.
    Launch(StatementMetadata),
    /// It is being fetched; the message is kept until then.
    Waiting,
}

/// How the payload of a message is had. Of a large statement the payload is there once it was fetched.
/// While it is being fetched, `Valid` statements about its candidate wait too.
pub open spec fn retrieval(
    waiting: Map<CandidateHash, StatusView>,
    message: StatementDistributionMessage,
) -> Retrieved {
    let h = message.fingerprint().0.candidate();
    match message {
        StatementDistributionMessage::Statement(_, s) => {
            if s.payload is Valid && waiting.contains_key(h) && waiting[h] is Fetching {
                Retrieved::Waiting
            } else {
                Retrieved::Statement(s)
            }
        },
        StatementDistributionMessage::LargeStatement(m) => {
            if waiting.contains_key(h) {
                match waiting[h] {
                    StatusView::Fetching(_) => Retrieved::Waiting,
                    StatusView::FetchedOrShared(committed) => Retrieved::Statement(
                        UncheckedSigned {
                            payload: Statement::Seconded(committed),
                            validator_index: m.signed_by,
                            signature: m.signature,
                        },
                    ),
                }
            } else {
                Retrieved::Launch(m)
            }
        },
    }
}

/// The large statements that are waited for, once a message has come that has to wait.
pub open spec fn waiting_after(
    waiting: Map<CandidateHash, StatusView>,
    peer: PeerId,
    peer_version: ValidationVersion,
    message: StatementDistributionMessage,
    taken: bool,
) -> Map<CandidateHash, StatusView> {
    let h = message.fingerprint().0.candidate();
    if retrieval(waiting, message) is Waiting {
        waiting.insert(
            h,
            StatusView::Fetching(
                waiting[h]->Fetching_0.after_message(
                    peer,
                    wrapped(peer_version, message),
                    message is LargeStatement,
                    taken,
                ),
            ),
        )
    } else {
        waiting
    }
}

/// If message contains a statement, then retrieve it, otherwise say that it has to be fetched.
///
/// If the message was large, but the result has been fetched already that one is returned.
pub fn retrieve_statement_from_message(
    peer: PeerId,
    peer_version: ValidationVersion,
    message: StatementDistributionMessage,
    active_head: &mut ActiveHeadData,
) -> (r: Retrieved)
    ensures
        r == retrieval(old(active_head)@.waiting_large_statements, message),
        exists|taken: bool|
            final(active_head)@ == (HeadView {
                waiting_large_statements: #[trigger] waiting_after(
                    old(active_head)@.waiting_large_statements,
                    peer,
                    peer_version,
                    message,
                    taken,
                ),
                ..old(active_head)@
            }),
{
    let fingerprint = message.get_fingerprint();
    let candidate_hash = fingerprint.0.candidate_hash();
    let ghost waiting = active_head@.waiting_large_statements;
    proof {
        if !(retrieval(waiting, message) is Waiting) {
            assert(waiting_after(waiting, peer, peer_version, message, true) == waiting);
        }
    }
    // Immediately return any Seconded statement:
    let message = match message {
        StatementDistributionMessage::Statement(h, s) => {
            if let Statement::Seconded(_) = &s.payload {
                return Retrieved::Statement(s);
            }
            StatementDistributionMessage::Statement(h, s)
        },
        StatementDistributionMessage::LargeStatement(m) =>
            StatementDistributionMessage::LargeStatement(m),
    };
    match active_head.large_statement_mut(&candidate_hash) {
        Some(status) => {
            assert(waiting.insert(candidate_hash, waiting[candidate_hash]) =~= waiting);
            match status {
                LargeStatementStatus::Fetching(info) => {
                    let ghost known = info@;
                    info.note_message(peer, peer_version, message);
                    proof {
                        let taken = choose|taken: bool|
                            info@ == #[trigger] known.after_message(
                                peer,
                                wrapped(peer_version, message),
                                message is LargeStatement,
                                taken,
                            );
                        assert(waiting_after(waiting, peer, peer_version, message, taken)
                            == waiting.insert(candidate_hash, StatusView::Fetching(info@)));
                    }
                    Retrieved::Waiting
                },
                LargeStatementStatus::FetchedOrShared(committed) => {
                    match message {
                        StatementDistributionMessage::Statement(_, s) => {
                            // We can now immediately return any statements (should only be
                            // `Statement::Valid` ones, but we don't care at this point.)
                            Retrieved::Statement(s)
                        },
                        StatementDistributionMessage::LargeStatement(metadata) => Retrieved::Statement(
                            UncheckedSigned {
                                payload: Statement::Seconded(committed.clone()),
                                validator_index: metadata.signed_by,
                                signature: metadata.signature,
                            },
                        ),
                    }
                },
            }
        },
        None => {
            match message {
                StatementDistributionMessage::LargeStatement(metadata) => Retrieved::Launch(metadata),
                StatementDistributionMessage::Statement(_, s) => {
                    // No fetch in progress, safe to return any statement immediately (we don't
                    // bother about normal network jitter which might cause `Valid` statements to
                    // arrive early for now.).
                    Retrieved::Statement(s)
                },
            }
        },
    }
}

/// What the checks before the retrieval of the payload say of a message.
pub enum Screening {
    /// The peer may not send large statements for the relay parent any more.
    LargeRefused(Rep),
    /// The peer should not have sent the message, by the rules of flood protection.
    Unexpected(Rep),
    /// The statement is of no use.
    NotUseful,
    /// The statement is stored already.
    Known,
    /// The signature is not that of the validator.
    BadSignature,
    /// Nothing speaks against the message.
    Passed,
}

/// What is told apart by a message.
pub open spec fn message_comparator(message: StatementDistributionMessage) -> StoredStatementComparator {
    StoredStatementComparator {
        compact: message.fingerprint().0,
        validator_index: message.fingerprint().1,
        signature: message.signature(),
    }
}

/// The compact statement of a message, with its signature.
pub open spec fn message_statement(message: StatementDistributionMessage) -> UncheckedSignedStatement {
    UncheckedSigned {
        payload: message.fingerprint().0,
        validator_index: message.fingerprint().1,
        signature: message.signature(),
    }
}

/// The peer once it is noted whether it has sent a large statement. A message that is released after it
/// has waited was counted when it came.
pub open spec fn data_noted(
    data: PeerDataView,
    message: StatementDistributionMessage,
    released: bool,
) -> PeerDataView {
    if message is LargeStatement && !released {
        data.after_large(message.relay_parent())
    } else {
        data
    }
}

/// What the checks before the retrieval of the payload say of a message.
pub open spec fn screening(
    data: PeerDataView,
    head: HeadView,
    message: StatementDistributionMessage,
    released: bool,
) -> Screening {
    let relay_parent = message.relay_parent();
    let large_objection = data.large_objection(relay_parent);
    let objection = data_noted(data, message, released).check_objection(
        relay_parent,
        message.fingerprint(),
        head.max_message_count(),
    );
    if message is LargeStatement && !released && large_objection is Some {
        Screening::LargeRefused(large_objection->0)
    } else if objection is Some {
        Screening::Unexpected(objection->0)
    } else {
        match head.denial(message_comparator(message)) {
            Some(DeniedStatement::NotUseful) => Screening::NotUseful,
            Some(DeniedStatement::UsefulButKnown) => Screening::Known,
            None => if head.authentic(relay_parent, message_statement(message)) {
                Screening::Passed
            } else {
                Screening::BadSignature
            },
        }
    }
}

/// The peer after the checks.
pub open spec fn data_screened(
    data: PeerDataView,
    head: HeadView,
    message: StatementDistributionMessage,
    released: bool,
) -> PeerDataView {
    let noted = data_noted(data, message, released);
    match screening(data, head, message, released) {
        Screening::Unexpected(_) => noted.after_unexpected(message.relay_parent()),
        Screening::Known => noted.after_receive(
            message.relay_parent(),
            message.fingerprint(),
            head.max_message_count(),
        ),
        _ => noted,
    }
}

/// What is done after the checks. A `Valid` statement whose `Seconded` statement may have been lost
/// costs the peer reputation only the first time.
pub open spec fn screening_actions(
    peer: PeerId,
    screening: Screening,
    unexpected_count: usize,
) -> Seq<ActionView> {
    match screening {
        Screening::LargeRefused(rep) => seq![ActionView::ModifyReputation(peer, rep)],
        Screening::Unexpected(Rep::CostUnexpectedStatementUnknownCandidate) => {
            if unexpected_count == 0 {
                seq![
                    ActionView::CountUnexpectedValid,
                    ActionView::ModifyReputation(peer, Rep::CostUnexpectedStatementUnknownCandidate),
                ]
            } else {
                seq![ActionView::CountUnexpectedValid]
            }
        },
        Screening::Unexpected(Rep::CostUnexpectedStatementRemote) => seq![
            ActionView::CountUnexpectedSeconded,
            ActionView::ModifyReputation(peer, Rep::CostUnexpectedStatementRemote),
        ],
        Screening::Unexpected(rep) => seq![ActionView::ModifyReputation(peer, rep)],
        Screening::NotUseful => seq![],
        Screening::Known => seq![ActionView::ModifyReputation(peer, Rep::BenefitValidStatement)],
        Screening::BadSignature => seq![ActionView::ModifyReputation(peer, Rep::CostInvalidSignature)],
        Screening::Passed => seq![],
    }
}

/// Checks a message before its payload is retrieved. Gives the signed compact statement where nothing
/// speaks against it.
fn screen_message(
    peer: PeerId,
    peer_data: &mut PeerData,
    active_head: &ActiveHeadData,
    message: &StatementDistributionMessage,
    released: bool,
    outbox: &mut Outbox,
) -> (r: Option<Signed<CompactStatement>>)
    requires
        old(peer_data)@.unexpected_count(message.relay_parent()) < usize::MAX,
    ensures
        r == match screening(old(peer_data)@, active_head@, *message, released) {
            Screening::Passed => Some(message_statement(*message).trusted()),
            _ => None,
        },
        final(peer_data)@ == data_screened(old(peer_data)@, active_head@, *message, released),
        final(outbox)@ == old(outbox)@ + screening_actions(
            peer,
            screening(old(peer_data)@, active_head@, *message, released),
            old(peer_data)@.unexpected_count(message.relay_parent()),
        ),
{
    let relay_parent = message.get_relay_parent();
    if message.is_large_statement() && !released {
        if let Err(rep) = peer_data.receive_large_statement(&relay_parent) {
            outbox.push(Action::ModifyReputation(peer, rep));
            return None;
        }
    }
    let fingerprint = message.get_fingerprint();
    let max_message_count: usize = active_head.max_message_count();
    // perform only basic checks before verifying the signature
    // as it's more computationally heavy
    if let Err(rep) = peer_data.check_can_receive(&relay_parent, &fingerprint, max_message_count) {
        // This situation can happen when a peer's Seconded message was lost
        // but we have received the Valid statement.
        // So we check it once and then ignore repeated violation to avoid
        // reputation change flood.
        let unexpected_count: usize = peer_data.receive_unexpected(&relay_parent);
        match rep {
            // This happens when a Valid statement has been received but there is no corresponding
            // Seconded
            Rep::CostUnexpectedStatementUnknownCandidate => {
                outbox.push(Action::CountUnexpectedValid);
                // Report peer merely if this is not a duplicate out-of-view statement that
                // was caused by a missing Seconded statement from this peer
                if unexpected_count == 0 {
                    outbox.push(Action::ModifyReputation(peer, rep));
                }
            },
            // This happens when we have an unexpected remote peer that announced Seconded
            Rep::CostUnexpectedStatementRemote => {
                outbox.push(Action::CountUnexpectedSeconded);
                outbox.push(Action::ModifyReputation(peer, rep));
            },
            _ => {
                outbox.push(Action::ModifyReputation(peer, rep));
            },
        }
        return None;
    }
    let unchecked_compact: UncheckedSignedStatement = UncheckedSigned {
        payload: fingerprint.0,
        validator_index: fingerprint.1,
        signature: message.get_signature(),
    };
    match active_head.check_useful_or_unknown(&unchecked_compact) {
        Ok(()) => {},
        Err(DeniedStatement::NotUseful) => return None,
        Err(DeniedStatement::UsefulButKnown) => {
            // Note a received statement in the peer data
            let _ = peer_data.receive(&relay_parent, &fingerprint, max_message_count);
            outbox.push(Action::ModifyReputation(peer, Rep::BenefitValidStatement));
            return None;
        },
    }
    // check the signature on the statement.
    match check_statement_signature(active_head, relay_parent, unchecked_compact) {
        Err(_) => {
            outbox.push(Action::ModifyReputation(peer, Rep::CostInvalidSignature));
            None
        },
        Ok(statement) => Some(statement),
    }
}

/// What follows from an event: the head afterwards, how the handling goes on, and what is done.
#[verifier::ext_equal]
pub struct HeadOutcome {
    pub head: HeadView,
    pub step: IncomingStep,
    pub actions: Seq<ActionView>,
}

/// What follows once a statement has all that it needs. One that is new is stored and handed to
/// candidate backing, and its sender is rewarded.
pub open spec fn acceptance(
    peer: PeerId,
    head: HeadView,
    relay_parent: BlockHash,
    statement: SignedFullStatement,
    payload: StatementWithPVD,
) -> HeadOutcome {
    if head.denial(comparator(statement)) is None {
        HeadOutcome {
            head: head.after_note(statement),
            step: IncomingStep::Accepted(
                AcceptedStatement { relay_parent, comparator: comparator(statement), statement },
            ),
            actions: seq![
                ActionView::ModifyReputation(peer, Rep::BenefitValidStatementFirst),
                ActionView::BackStatement(
                    relay_parent,
                    Signed {
                        payload,
                        validator_index: statement.validator_index,
                        signature: statement.signature,
                    },
                ),
            ],
        }
    } else {
        HeadOutcome { head: head.after_note(statement), step: IncomingStep::Done, actions: seq![] }
    }
}

/// Stores a statement that has all that it needs. One that is new is handed to candidate backing, and
/// its sender is rewarded.
fn accept_statement(
    peer: PeerId,
    active_head: &mut ActiveHeadData,
    relay_parent: BlockHash,
    statement: SignedFullStatement,
    payload: StatementWithPVD,
    outbox: &mut Outbox,
) -> (r: IncomingStep)
    ensures
        ({
            let outcome = acceptance(peer, old(active_head)@, relay_parent, statement, payload);
            &&& r == outcome.step
            &&& final(active_head)@ == outcome.head
            &&& final(outbox)@ == old(outbox)@ + outcome.actions
        }),
{
    let validator_index = statement.validator_index;
    let signature = statement.signature;
    match active_head.note_statement(statement) {
        NotedStatement::NotUseful | NotedStatement::UsefulButKnown => IncomingStep::Done,
        NotedStatement::Fresh(stored) => {
            let accepted = AcceptedStatement {
                relay_parent,
                comparator: stored.comparator,
                statement: stored.statement.clone(),
            };
            outbox.push(Action::ModifyReputation(peer, Rep::BenefitValidStatementFirst));
            // When we receive a new message from a peer, we forward it to the
            // candidate backing subsystem.
            outbox.push(
                Action::BackStatement(relay_parent, Signed { payload, validator_index, signature }),
            );
            IncomingStep::Accepted(accepted)
        },
    }
}

/// What follows from a message: the peer and the head afterwards, how the handling goes on, and what is
/// done.
#[verifier::ext_equal]
pub struct Outcome {
    pub data: PeerDataView,
    pub head: HeadView,
    pub step: IncomingStep,
    pub actions: Seq<ActionView>,
}

/// What follows from a message that passed the checks, once its payload is there.
pub open spec fn completion(
    peer: PeerId,
    data: PeerDataView,
    head: HeadView,
    message: StatementDistributionMessage,
    payload: Statement,
    limits: NetworkLimits,
) -> Outcome {
    let relay_parent = message.relay_parent();
    let fp = message.fingerprint();
    let statement = Signed { payload, validator_index: fp.1, signature: message.signature() };
    if payload.compact() != fp.0 {
        Outcome {
            data,
            head,
            step: IncomingStep::Done,
            actions: seq![ActionView::ModifyReputation(peer, Rep::CostWrongHash)],
        }
    } else {
        let received = data.after_receive(relay_parent, fp, head.max_message_count());
        // A peer that appears to have just learned about a candidate is told what is stated about it.
        let (informed, sent) = if data.introduces(relay_parent, fp) {
            dispatch(
                peer,
                received,
                relay_parent,
                entries_about(head.statements, fp.0.candidate()),
                limits,
            )
        } else {
            (received, seq![])
        };
        match payload {
            Statement::Valid(h) => {
                let end = acceptance(peer, head, relay_parent, statement, StatementWithPVD::Valid(h));
                Outcome {
                    data: informed,
                    head: end.head,
                    step: end.step,
                    actions: sent + end.actions,
                }
            },
            Statement::Seconded(receipt) => {
                match head.validation_data(ParaId(receipt_para_id(receipt.bytes()))) {
                    Some(pvd) => {
                        let end = acceptance(
                            peer,
                            head,
                            relay_parent,
                            statement,
                            StatementWithPVD::Seconded(receipt, pvd),
                        );
                        Outcome {
                            data: informed,
                            head: end.head,
                            step: end.step,
                            actions: sent + end.actions,
                        }
                    },
                    None => Outcome {
                        data: informed,
                        head,
                        step: IncomingStep::FetchValidationData(
                            PendingStatement {
                                peer,
                                relay_parent,
                                receipt,
                                validator_index: fp.1,
                                signature: message.signature(),
                            },
                        ),
                        actions: sent,
                    },
                }
            },
        }
    }
}

/// Goes on with a message that passed the checks, once its payload is there.
fn complete_message(
    peer: PeerId,
    peer_data: &mut PeerData,
    active_head: &mut ActiveHeadData,
    relay_parent: BlockHash,
    checked_compact: Signed<CompactStatement>,
    payload: Statement,
    limits: NetworkLimits,
    outbox: &mut Outbox,
    Ghost(message): Ghost<StatementDistributionMessage>,
) -> (r: IncomingStep)
    requires
        relay_parent == message.relay_parent(),
        checked_compact == message_statement(message).trusted(),
        old(peer_data)@.receive_objection(
            relay_parent,
            message.fingerprint(),
            old(active_head)@.max_message_count(),
        ) is None,
    ensures
        ({
            let outcome = completion(
                peer,
                old(peer_data)@,
                old(active_head)@,
                message,
                payload,
                limits,
            );
            &&& r == outcome.step
            &&& final(peer_data)@ == outcome.data
            &&& final(active_head)@ == outcome.head
            &&& final(outbox)@ == old(outbox)@ + outcome.actions
        }),
{
    let fingerprint: Fingerprint = (checked_compact.payload, checked_compact.validator_index);
    let max_message_count: usize = active_head.max_message_count();
    // Upgrade the `Signed` wrapper from the compact payload to the full payload.
    // This fails if the payload doesn't encode correctly.
    let statement = match checked_compact.convert_to_superpayload(payload) {
        Err(_) => {
            outbox.push(Action::ModifyReputation(peer, Rep::CostWrongHash));
            return IncomingStep::Done;
        },
        Ok(statement) => statement,
    };
    // Ensure the statement is stored in the peer data.
    //
    // Note that if the peer is sending us something that is not within their view,
    // it will not be kept within their log.
    if let Ok(true) = peer_data.receive(&relay_parent, &fingerprint, max_message_count) {
        // Send the peer all statements concerning the candidate that we have,
        // since it appears to have just learned about the candidate.
        send_statements_about(
            peer,
            peer_data,
            relay_parent,
            fingerprint.0.candidate_hash(),
            active_head,
            limits,
            outbox,
        );
    }
    let ghost told = outbox@;
    // Extend the payload with persisted validation data required by the backing
    // subsystem.
    let with_pvd = match &statement.payload {
        Statement::Seconded(receipt) => {
            let para_id = receipt.para_id();
            match active_head.cached_validation_data(para_id) {
                Some(pvd) => StatementWithPVD::Seconded(receipt.clone(), pvd),
                None => {
                    return IncomingStep::FetchValidationData(
                        PendingStatement {
                            peer,
                            relay_parent,
                            receipt: receipt.clone(),
                            validator_index: statement.validator_index,
                            signature: statement.signature,
                        },
                    );
                },
            }
        },
        Statement::Valid(h) => StatementWithPVD::Valid(*h),
    };
    let step = accept_statement(peer, active_head, relay_parent, statement, with_pvd, outbox);
    assert(outbox@ =~= old(outbox)@ + completion(
        peer,
        old(peer_data)@,
        old(active_head)@,
        message,
        payload,
        limits,
    ).actions);
    step
}

/// What follows from a message for an active head. `released` says whether the message has waited for a
/// payload and is handled once more; `taken` says whether a task that waits for more
/// peers takes those that it is offered.
pub open spec fn reception(
    peer: PeerId,
    data: PeerDataView,
    head: HeadView,
    message: StatementDistributionMessage,
    released: bool,
    limits: NetworkLimits,
    taken: bool,
) -> Outcome {
    let screened = data_screened(data, head, message, released);
    let waiting = head.waiting_large_statements;
    match screening(data, head, message, released) {
        Screening::Passed => match retrieval(waiting, message) {
            // Fetch from the network only after signature and usefulness checks are completed.
            Retrieved::Statement(s) => completion(peer, screened, head, message, s.payload, limits),
            Retrieved::Launch(metadata) => Outcome {
                data: screened,
                head,
                step: IncomingStep::LaunchRequest(data.protocol_version, metadata),
                actions: seq![],
            },
            Retrieved::Waiting => Outcome {
                data: screened,
                head: HeadView {
                    waiting_large_statements: waiting_after(
                        waiting,
                        peer,
                        data.protocol_version,
                        message,
                        taken,
                    ),
                    ..head
                },
                step: IncomingStep::Done,
                actions: seq![],
            },
        },
        refused => Outcome {
            data: screened,
            head,
            step: IncomingStep::Done,
            actions: screening_actions(
                peer,
                refused,
                data.unexpected_count(message.relay_parent()),
            ),
        },
    }
}

/// Handles a message for an active head. One that is released has waited for a payload, and is handled
/// once more.
pub fn receive_message(
    peer: PeerId,
    peer_data: &mut PeerData,
    active_head: &mut ActiveHeadData,
    message: StatementDistributionMessage,
    released: bool,
    limits: NetworkLimits,
    outbox: &mut Outbox,
) -> (r: IncomingStep)
    requires
        old(peer_data)@.unexpected_count(message.relay_parent()) < usize::MAX,
    ensures
        exists|taken: bool|
            ({
                let outcome = #[trigger] reception(
                    peer,
                    old(peer_data)@,
                    old(active_head)@,
                    message,
                    released,
                    limits,
                    taken,
                );
                &&& r == outcome.step
                &&& final(peer_data)@ == outcome.data
                &&& final(active_head)@ == outcome.head
                &&& final(outbox)@ == old(outbox)@ + outcome.actions
            }),
{
    let ghost data = peer_data@;
    let ghost head = active_head@;
    let ghost received = message;
    let relay_parent = message.get_relay_parent();
    let checked_compact = match screen_message(
        peer,
        peer_data,
        active_head,
        &message,
        released,
        outbox,
    ) {
        Some(checked) => checked,
        None => {
            assert(reception(peer, data, head, received, released, limits, true).step is Done);
            return IncomingStep::Done;
        },
    };
    let peer_version = peer_data.protocol_version();
    let retrieved = retrieve_statement_from_message(peer, peer_version, message, active_head);
    proof {
        let taken = choose|taken: bool|
            active_head@ == (HeadView {
                waiting_large_statements: #[trigger] waiting_after(
                    head.waiting_large_statements,
                    peer,
                    peer_version,
                    received,
                    taken,
                ),
                ..head
            });
        let outcome = reception(peer, data, head, received, released, limits, taken);
        assert(retrieved is Waiting ==> active_head@ == outcome.head);
        assert(!(retrieved is Waiting) ==> active_head@ =~= head);
        assert(old(outbox)@ + Seq::<ActionView>::empty() =~= old(outbox)@);
    }
    match retrieved {
        Retrieved::Waiting => IncomingStep::Done,
        Retrieved::Launch(metadata) => IncomingStep::LaunchRequest(peer_version, metadata),
        Retrieved::Statement(statement) => {
            complete_message(
                peer,
                peer_data,
                active_head,
                relay_parent,
                checked_compact,
                statement.payload,
                limits,
                outbox,
                Ghost(received),
            )
        },
    }
}

/// What follows from a message: the peer and the heads afterwards, how the handling goes on, and what is
/// done.
#[verifier::ext_equal]
pub struct MessageOutcome {
    pub data: PeerDataView,
    pub heads: Map<BlockHash, HeadView>,
    pub step: IncomingStep,
    pub actions: Seq<ActionView>,
}

/// What follows from a message of a connected peer. A message for a head that is not active costs
/// reputation unless the head was active until recently.
pub open spec fn handling(
    peer: PeerId,
    data: PeerDataView,
    heads: Map<BlockHash, HeadView>,
    outdated: Seq<BlockHash>,
    message: VersionedMessage,
    released: bool,
    limits: NetworkLimits,
    taken: bool,
) -> MessageOutcome {
    match message.plain() {
        None => MessageOutcome { data, heads, step: IncomingStep::Done, actions: seq![] },
        Some(m) => {
            let relay_parent = m.relay_parent();
            if heads.contains_key(relay_parent) {
                let outcome = reception(peer, data, heads[relay_parent], m, released, limits, taken);
                MessageOutcome {
                    data: outcome.data,
                    heads: heads.insert(relay_parent, outcome.head),
                    step: outcome.step,
                    actions: outcome.actions,
                }
            } else {
                MessageOutcome {
                    data,
                    heads,
                    step: IncomingStep::Done,
                    actions: if outdated.contains(relay_parent) {
                        seq![]
                    } else {
                        seq![ActionView::ModifyReputation(peer, Rep::CostUnexpectedStatement)]
                    },
                }
            }
        },
    }
}

/// Whether one more unexpected message of a peer can be counted, if that is what a message is.
pub open spec fn countable(data: PeerDataView, message: VersionedMessage) -> bool {
    message.plain() matches Some(m) ==> data.unexpected_count(m.relay_parent()) < usize::MAX
}

/// Handle a statement. Says that a statement is accepted if we were not already aware of it, along
/// with the corresponding relay-parent.
///
/// This function checks the signature and ensures the statement is compatible with our
/// view. It also notifies candidate backing if the statement was previously unknown.
///
/// A message that is released has waited for a payload, and is handled once more.
pub fn handle_incoming_message(
    peer: PeerId,
    peer_data: &mut PeerData,
    active_heads: &mut ListMap<BlockHash, ActiveHeadData>,
    recent_outdated_heads: &RecentOutdatedHeads,
    message: VersionedMessage,
    released: bool,
    limits: NetworkLimits,
    outbox: &mut Outbox,
) -> (r: IncomingStep)
    requires
        countable(old(peer_data)@, message),
    ensures
        exists|taken: bool|
            ({
                let outcome = #[trigger] handling(
                    peer,
                    old(peer_data)@,
                    old(active_heads)@,
                    recent_outdated_heads@,
                    message,
                    released,
                    limits,
                    taken,
                );
                &&& r == outcome.step
                &&& final(peer_data)@ == outcome.data
                &&& final(active_heads)@ == outcome.heads
                &&& final(outbox)@ == old(outbox)@ + outcome.actions
            }),
{
    let ghost data = peer_data@;
    let ghost heads = active_heads@;
    let ghost received = message;
    let ghost outdated = recent_outdated_heads@;
    let message = match message.into_v1() {
        Some(m) => m,
        None => {
            assert(handling(peer, data, heads, outdated, received, released, limits, true).step is Done);
            return IncomingStep::Done;
        },
    };
    let relay_parent = message.get_relay_parent();
    match active_heads.get_mut(&relay_parent) {
        Some(active_head) => {
            let ghost head = active_head@;
            let ghost plain = message;
            let step = receive_message(
                peer,
                peer_data,
                active_head,
                message,
                released,
                limits,
                outbox,
            );
            proof {
                let taken = choose|taken: bool|
                    ({
                        let outcome = #[trigger] reception(peer, data, head, plain, released, limits, taken);
                        &&& step == outcome.step
                        &&& peer_data@ == outcome.data
                        &&& active_head@ == outcome.head
                        &&& outbox@ == old(outbox)@ + outcome.actions
                    });
                let outcome = handling(peer, data, heads, outdated, received, released, limits, taken);
                assert(step == outcome.step);
            }
            step
        },
        None => {
            if !recent_outdated_heads.is_recent_outdated(&relay_parent) {
                outbox.push(Action::ModifyReputation(peer, Rep::CostUnexpectedStatement));
            }
            assert(handling(peer, data, heads, outdated, received, released, limits, true).step is Done);
            IncomingStep::Done
        },
    }
}

/// What follows once the runtime was asked for the validation data that a statement waits for. Without
/// the data the statement is not accepted.
pub open spec fn resumption<E>(
    head: HeadView,
    pending: PendingStatement,
    answer: ValidationDataAnswer<E>,
) -> HeadOutcome {
    let supplied = head.with_validation_data(pending.para(), answer);
    match head.fetched_validation_data(pending.para(), answer) {
        Ok(Some(pvd)) => acceptance(
            pending.peer,
            supplied,
            pending.relay_parent,
            pending.statement(),
            StatementWithPVD::Seconded(pending.receipt, pvd),
        ),
        _ => HeadOutcome { head: supplied, step: IncomingStep::Done, actions: seq![] },
    }
}

/// Goes on with a statement once the runtime was asked for the validation data that it waits for.
pub fn resume_statement<E>(
    active_head: &mut ActiveHeadData,
    pending: PendingStatement,
    answer: ValidationDataAnswer<E>,
    outbox: &mut Outbox,
) -> (r: IncomingStep)
    ensures
        ({
            let outcome = resumption(old(active_head)@, pending, answer);
            &&& r == outcome.step
            &&& final(active_head)@ == outcome.head
            &&& final(outbox)@ == old(outbox)@ + outcome.actions
        }),
{
    match active_head.fetch_persisted_validation_data(pending.para_id(), answer) {
        Ok(Some(pvd)) => {
            let payload = StatementWithPVD::Seconded(pending.receipt.clone(), pvd);
            let statement: SignedFullStatement = Signed {
                payload: Statement::Seconded(pending.receipt),
                validator_index: pending.validator_index,
                signature: pending.signature,
            };
            accept_statement(
                pending.peer,
                active_head,
                pending.relay_parent,
                statement,
                payload,
                outbox,
            )
        },
        // `None` or `Err` means we couldn't fetch the PVD, which means the statement shouldn't be
        // accepted.
        Ok(None) | Err(_) => IncomingStep::Done,
    }
}

} // verus!
