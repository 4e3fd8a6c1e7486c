//! Changes to the reputation of peers.
use vstd::prelude::*;

verus! {

/// How much a change weighs.
#[derive(Clone, Copy, PartialEq, Eq, Structural, Debug)]
pub enum RepKind {
    CostMinor,
    CostMajor,
    CostMajorRepeated,
    Malicious,
    BenefitMajor,
    BenefitMajorFirst,
}

/// A reason to change the reputation of a peer.
#[derive(Clone, Copy, PartialEq, Eq, Structural, Debug)]
pub enum Rep {
    CostUnexpectedStatement,
    CostUnexpectedStatementMissingKnowledge,
    CostUnexpectedStatementUnknownCandidate,
    CostUnexpectedStatementRemote,
    CostFetchFail,
    CostInvalidSignature,
    CostWrongHash,
    CostDuplicateStatement,
    CostApparentFlood,
    BenefitValidStatement,
    BenefitValidStatementFirst,
    BenefitValidResponse,
}

impl Rep {
    /// How much the change weighs.
    pub open spec fn weight(self) -> RepKind {
        match self {
            Rep::CostInvalidSignature | Rep::CostWrongHash => RepKind::CostMajor,
            Rep::CostDuplicateStatement => RepKind::CostMajorRepeated,
            Rep::CostApparentFlood => RepKind::Malicious,
            Rep::BenefitValidStatement | Rep::BenefitValidResponse => RepKind::BenefitMajor,
            Rep::BenefitValidStatementFirst => RepKind::BenefitMajorFirst,
            _ => RepKind::CostMinor,
        }
    }

    /// The words that explain the change.
    pub open spec fn explanation(self) -> Seq<char> {
        match self {
            Rep::CostUnexpectedStatement => "Unexpected Statement"@,
            Rep::CostUnexpectedStatementMissingKnowledge =>
                "Unexpected Statement, missing knowlege for relay parent"@,
            Rep::CostUnexpectedStatementUnknownCandidate =>
                "Unexpected Statement, unknown candidate"@,
            Rep::CostUnexpectedStatementRemote => "Unexpected Statement, remote not allowed"@,
            Rep::CostFetchFail => "Requesting `CommittedCandidateReceipt` from peer failed"@,
            Rep::CostInvalidSignature => "Invalid Statement Signature"@,
            Rep::CostWrongHash => "Received candidate had wrong hash"@,
            Rep::CostDuplicateStatement => "Statement sent more than once by peer"@,
            Rep::CostApparentFlood => "Peer appears to be flooding us with statements"@,
            Rep::BenefitValidStatement => "Peer provided a valid statement"@,
            Rep::BenefitValidStatementFirst => "Peer was the first to provide a valid statement"@,
            Rep::BenefitValidResponse => "Peer provided a valid large statement response"@,
        }
    }

    /// How much the change weighs.
    pub fn kind(&self) -> (r: RepKind)
        ensures
            r == self.weight(),
    {
        match self {
            Rep::CostInvalidSignature => RepKind::CostMajor,
            Rep::CostWrongHash => RepKind::CostMajor,
            Rep::CostDuplicateStatement => RepKind::CostMajorRepeated,
            Rep::CostApparentFlood => RepKind::Malicious,
            Rep::BenefitValidStatement => RepKind::BenefitMajor,
            Rep::BenefitValidResponse => RepKind::BenefitMajor,
            Rep::BenefitValidStatementFirst => RepKind::BenefitMajorFirst,
            _ => RepKind::CostMinor,
        }
    }

    /// The words that explain the change.
    pub fn reason(&self) -> (r: &'static str)
        ensures
            r@ == self.explanation(),
    {
        match self {
            Rep::CostUnexpectedStatement => "Unexpected Statement",
            Rep::CostUnexpectedStatementMissingKnowledge =>
                "Unexpected Statement, missing knowlege for relay parent",
            Rep::CostUnexpectedStatementUnknownCandidate =>
                "Unexpected Statement, unknown candidate",
            Rep::CostUnexpectedStatementRemote => "Unexpected Statement, remote not allowed",
            Rep::CostFetchFail => "Requesting `CommittedCandidateReceipt` from peer failed",
            Rep::CostInvalidSignature => "Invalid Statement Signature",
            Rep::CostWrongHash => "Received candidate had wrong hash",
            Rep::CostDuplicateStatement => "Statement sent more than once by peer",
            Rep::CostApparentFlood => "Peer appears to be flooding us with statements",
            Rep::BenefitValidStatement => "Peer provided a valid statement",
            Rep::BenefitValidStatementFirst => "Peer was the first to provide a valid statement",
            Rep::BenefitValidResponse => "Peer provided a valid large statement response",
        }
    }
}

} // verus!
