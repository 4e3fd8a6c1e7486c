//! Messages that peers exchange, and what a node does in answer to an event.
use crate::ids::{BlockHash, CandidateHash, PeerId, ValidatorIndex, ValidatorSignature};
use crate::reputation::Rep;
use crate::statement::{
    CompactStatement, Fingerprint, SignedFullStatement, SignedFullStatementWithPVD,
    UncheckedSignedFullStatement, is_statement_large, largeness,
};
use vstd::prelude::*;

verus! {

/// What the network fixes.
#[derive(Clone, Copy, PartialEq, Eq, Structural, Debug)]
pub struct NetworkLimits {
    /// The least number of peers that a statement is gossiped to.
    pub min_gossip_peers: usize,
    /// The size of the largest notification that an authority may send.
    pub max_notification_size: usize,
}

/// The version of the protocol that a peer speaks.
#[derive(Clone, Copy, PartialEq, Eq, Structural, Debug)]
pub enum ValidationVersion {
    V1,
    V2,
    V3,
}

/// A large statement, without its payload.
#[derive(Clone, Copy, PartialEq, Eq, Debug)]
pub struct StatementMetadata {
    /// The relay parent that the statement is for.
    pub relay_parent: BlockHash,
    /// The candidate that is seconded.
    pub candidate_hash: CandidateHash,
    /// The validator that seconds it.
    pub signed_by: ValidatorIndex,
    /// The signature of the validator.
    pub signature: ValidatorSignature,
}

/// A message that carries a statement.
#[derive(PartialEq, Eq, Debug)]
pub enum StatementDistributionMessage {
    /// A signed full statement under a given relay-parent.
    Statement(BlockHash, UncheckedSignedFullStatement),
    /// A `Seconded` statement that is too large for a notification: its payload has to be requested.
    LargeStatement(StatementMetadata),
}

impl Clone for StatementDistributionMessage {
    fn clone(&self) -> (r: Self)
        ensures
            r == *self,
    {
        match self {
            StatementDistributionMessage::Statement(h, s) => StatementDistributionMessage::Statement(
                *h,
                s.clone(),
            ),
            StatementDistributionMessage::LargeStatement(m) =>
                StatementDistributionMessage::LargeStatement(*m),
        }
    }
}

impl StatementDistributionMessage {
    /// The relay parent that the statement is for.
    pub open spec fn relay_parent(self) -> BlockHash {
        match self {
            StatementDistributionMessage::Statement(h, _) => h,
            StatementDistributionMessage::LargeStatement(m) => m.relay_parent,
        }
    }

    /// What is stated, and by which validator.
    pub open spec fn fingerprint(self) -> Fingerprint {
        match self {
            StatementDistributionMessage::Statement(_, s) => (s.payload.compact(), s.validator_index),
            StatementDistributionMessage::LargeStatement(m) => (
                CompactStatement::Seconded(m.candidate_hash),
                m.signed_by,
            ),
        }
    }

    /// The signature under the statement.
    pub open spec fn signature(self) -> ValidatorSignature {
        match self {
            StatementDistributionMessage::Statement(_, s) => s.signature,
            StatementDistributionMessage::LargeStatement(m) => m.signature,
        }
    }

    /// The relay parent that the statement is for.
    pub fn get_relay_parent(&self) -> (r: BlockHash)
        ensures
            r == self.relay_parent(),
    {
        match self {
            StatementDistributionMessage::Statement(h, _) => *h,
            StatementDistributionMessage::LargeStatement(m) => m.relay_parent,
        }
    }

    /// What is stated, and by which validator.
    pub fn get_fingerprint(&self) -> (r: Fingerprint)
        ensures
            r == self.fingerprint(),
    {
        match self {
            StatementDistributionMessage::Statement(_, s) => (
                s.payload.to_compact(),
                s.validator_index,
            ),
            StatementDistributionMessage::LargeStatement(m) => (
                CompactStatement::Seconded(m.candidate_hash),
                m.signed_by,
            ),
        }
    }

    /// The signature under the statement.
    pub fn get_signature(&self) -> (r: ValidatorSignature)
        ensures
            r == self.signature(),
    {
        match self {
            StatementDistributionMessage::Statement(_, s) => s.signature,
            StatementDistributionMessage::LargeStatement(m) => m.signature,
        }
    }

    /// Whether the payload has to be requested.
    pub fn is_large_statement(&self) -> (r: bool)
        ensures
            r == (self is LargeStatement),
    {
        match self {
            StatementDistributionMessage::LargeStatement(_) => true,
            StatementDistributionMessage::Statement(_, _) => false,
        }
    }
}

/// A message of a later version of the protocol.
#[derive(PartialEq, Eq, Debug)]
pub enum CompatMessage {
    /// A message that the first version has too.
    V1Compatibility(StatementDistributionMessage),
    /// Any other message. None is handled here.
    Other,
}

/// A message together with the version of the protocol that it is in.
#[derive(PartialEq, Eq, Debug)]
pub enum VersionedMessage {
    V1(StatementDistributionMessage),
    V2(CompatMessage),
    V3(CompatMessage),
}

impl Clone for VersionedMessage {
    fn clone(&self) -> (r: Self)
        ensures
            r == *self,
    {
        match self {
            VersionedMessage::V1(m) => VersionedMessage::V1(m.clone()),
            VersionedMessage::V2(CompatMessage::V1Compatibility(m)) => VersionedMessage::V2(
                CompatMessage::V1Compatibility(m.clone()),
            ),
            VersionedMessage::V3(CompatMessage::V1Compatibility(m)) => VersionedMessage::V3(
                CompatMessage::V1Compatibility(m.clone()),
            ),
            VersionedMessage::V2(CompatMessage::Other) => VersionedMessage::V2(CompatMessage::Other),
            VersionedMessage::V3(CompatMessage::Other) => VersionedMessage::V3(CompatMessage::Other),
        }
    }
}

impl VersionedMessage {
    /// The message that the first version of the protocol has too.
    pub open spec fn plain(self) -> Option<StatementDistributionMessage> {
        match self {
            VersionedMessage::V1(m) => Some(m),
            VersionedMessage::V2(CompatMessage::V1Compatibility(m)) => Some(m),
            VersionedMessage::V3(CompatMessage::V1Compatibility(m)) => Some(m),
            _ => None,
        }
    }

    /// The message that the first version of the protocol has too.
    pub fn into_v1(self) -> (r: Option<StatementDistributionMessage>)
        ensures
            r == self.plain(),
    {
        match self {
            VersionedMessage::V1(m) => Some(m),
            VersionedMessage::V2(CompatMessage::V1Compatibility(m)) => Some(m),
            VersionedMessage::V3(CompatMessage::V1Compatibility(m)) => Some(m),
            // The higher-level subsystem code is supposed to filter out
            // all non v1 messages.
            VersionedMessage::V2(CompatMessage::Other) => None,
            VersionedMessage::V3(CompatMessage::Other) => None,
        }
    }
}

/// A message as a peer of a given version reads it.
pub open spec fn wrapped(
    version: ValidationVersion,
    message: StatementDistributionMessage,
) -> VersionedMessage {
    match version {
        ValidationVersion::V1 => VersionedMessage::V1(message),
        ValidationVersion::V2 => VersionedMessage::V2(CompatMessage::V1Compatibility(message)),
        ValidationVersion::V3 => VersionedMessage::V3(CompatMessage::V1Compatibility(message)),
    }
}

/// Wraps a message for a peer of a given version.
pub fn compatible_v1_message(
    version: ValidationVersion,
    message: StatementDistributionMessage,
) -> (r: VersionedMessage)
    ensures
        r == wrapped(version, message),
        r.plain() == Some(message),
{
    match version {
        ValidationVersion::V1 => VersionedMessage::V1(message),
        ValidationVersion::V2 => VersionedMessage::V2(CompatMessage::V1Compatibility(message)),
        ValidationVersion::V3 => VersionedMessage::V3(CompatMessage::V1Compatibility(message)),
    }
}

/// Something to be done outside of the library.
#[derive(PartialEq, Eq, Debug)]
pub enum Action {
    /// Send a message to peers over the network.
    SendValidationMessage(Vec<PeerId>, VersionedMessage),
    /// Hand a statement to the candidate backing subsystem.
    BackStatement(BlockHash, SignedFullStatementWithPVD),
    /// Change the reputation of a peer.
    ModifyReputation(PeerId, Rep),
    /// Count a message that was made of a `Seconded` statement of a given size.
    CountCreatedMessage(usize),
    /// Count a statement that was sent to a peer.
    CountStatementDistributed,
    /// Count a `Valid` statement for a candidate that its sender never mentioned.
    CountUnexpectedValid,
    /// Count a `Seconded` statement that its sender was not allowed to send.
    CountUnexpectedSeconded,
}

/// Something to be done, with the peers as a sequence.
#[verifier::ext_equal]
pub enum ActionView {
    SendValidationMessage(Seq<PeerId>, VersionedMessage),
    BackStatement(BlockHash, SignedFullStatementWithPVD),
    ModifyReputation(PeerId, Rep),
    CountCreatedMessage(usize),
    CountStatementDistributed,
    CountUnexpectedValid,
    CountUnexpectedSeconded,
}

impl View for Action {
    type V = ActionView;

    open spec fn view(&self) -> ActionView {
        match *self {
            Action::SendValidationMessage(peers, m) => ActionView::SendValidationMessage(peers@, m),
            Action::BackStatement(h, s) => ActionView::BackStatement(h, s),
            Action::ModifyReputation(p, rep) => ActionView::ModifyReputation(p, rep),
            Action::CountCreatedMessage(size) => ActionView::CountCreatedMessage(size),
            Action::CountStatementDistributed => ActionView::CountStatementDistributed,
            Action::CountUnexpectedValid => ActionView::CountUnexpectedValid,
            Action::CountUnexpectedSeconded => ActionView::CountUnexpectedSeconded,
        }
    }
}

/// What is to be done, in order.
pub struct Outbox {
    actions: Vec<Action>,
}

impl View for Outbox {
    type V = Seq<ActionView>;

    closed spec fn view(&self) -> Seq<ActionView> {
        self.actions@.map_values(|a: Action| a@)
    }
}

impl Outbox {
    /// Nothing to do.
    pub fn new() -> (r: Self)
        ensures
            r@ == Seq::<ActionView>::empty(),
    {
        let r = Outbox { actions: Vec::new() };
        assert(r@ =~= Seq::<ActionView>::empty());
        r
    }

    /// Puts something behind what is to be done.
    pub fn push(&mut self, action: Action)
        ensures
            final(self)@ == old(self)@.push(action@),
    {
        self.actions.push(action);
        assert(self@ =~= old(self)@.push(action@));
    }

    /// Everything that is to be done.
    pub fn into_actions(self) -> (r: Vec<Action>)
        ensures
            r@.len() == self@.len(),
            forall|i: int| 0 <= i < r@.len() ==> (#[trigger] r@[i])@ == self@[i],
    {
        self.actions
    }
}

/// The message that carries a statement.
pub open spec fn statement_message(
    relay_parent: BlockHash,
    statement: SignedFullStatement,
    limits: NetworkLimits,
) -> StatementDistributionMessage {
    if largeness(statement, limits.max_notification_size).0 {
        StatementDistributionMessage::LargeStatement(
            StatementMetadata {
                relay_parent,
                candidate_hash: statement.payload.compact().candidate(),
                signed_by: statement.validator_index,
                signature: statement.signature,
            },
        )
    } else {
        StatementDistributionMessage::Statement(relay_parent, statement.unchecked())
    }
}

/// What is counted when a message is made of a statement.
pub open spec fn creation_count(statement: SignedFullStatement, limits: NetworkLimits) -> Seq<
    ActionView,
> {
    match largeness(statement, limits.max_notification_size).1 {
        Some(size) => seq![ActionView::CountCreatedMessage(size)],
        None => seq![],
    }
}

/// Create a network message from a given statement.
pub fn v1_statement_message(
    relay_parent: BlockHash,
    statement: SignedFullStatement,
    limits: NetworkLimits,
    outbox: &mut Outbox,
) -> (r: StatementDistributionMessage)
    ensures
        r == statement_message(relay_parent, statement, limits),
        final(outbox)@ == old(outbox)@ + creation_count(statement, limits),
{
    let (is_large, size) = is_statement_large(&statement, limits.max_notification_size);
    if let Some(size) = size {
        outbox.push(Action::CountCreatedMessage(size));
    }
    if is_large {
        StatementDistributionMessage::LargeStatement(
            StatementMetadata {
                relay_parent,
                candidate_hash: statement.payload.candidate_hash(),
                signed_by: statement.validator_index,
                signature: statement.signature,
            },
        )
    } else {
        StatementDistributionMessage::Statement(relay_parent, statement.into_unchecked())
    }
}

} // verus!
