//! What a peer knows about the statements at a relay parent.
use crate::collections::{ListMap, ListSet};
use crate::ids::{CandidateHash, ValidatorIndex};
use crate::reputation::Rep;
use crate::statement::{CompactStatement, Fingerprint};
use crate::tracker::{TrackerView, VcPerPeerTracker, notable};
use vstd::prelude::*;

verus! {

/// Large statements should be rare.
pub const MAX_LARGE_STATEMENTS_PER_SENDER: usize = 20;

/// knowledge that a peer has about goings-on in a relay parent.
pub struct PeerRelayParentKnowledge {
    /// candidates that the peer is aware of because we sent statements to it. This indicates that
    /// we can send other statements pertaining to that candidate.
    sent_candidates: ListSet<CandidateHash>,
    /// candidates that peer is aware of, because we received statements from it.
    received_candidates: ListSet<CandidateHash>,
    /// fingerprints of all statements a peer should be aware of: those that
    /// were sent to the peer by us.
    sent_statements: ListSet<Fingerprint>,
    /// fingerprints of all statements a peer should be aware of: those that
    /// were sent to us by the peer.
    received_statements: ListSet<Fingerprint>,
    /// How many candidates this peer is aware of for each given validator index.
    seconded_counts: ListMap<ValidatorIndex, VcPerPeerTracker>,
    /// How many statements we've received for each candidate that we're aware of.
    received_message_count: ListMap<CandidateHash, usize>,
    /// How many large statements this peer already sent us for the relay parent.
    ///
    /// We keep messages around until we fetched the payload, and a node that makes up statements
    /// never provides it. So only `MAX_LARGE_STATEMENTS_PER_SENDER` are accepted per connected
    /// node: in total, over all relay parents that something is known about, and not per candidate
    /// hash, as those can be made up too.
    large_statement_count: usize,
    /// We have seen a message that that is unexpected from this peer, so note this fact
    /// and stop subsequent logging and peer reputation flood.
    unexpected_count: usize,
}

/// What is known, as sets and maps.
#[verifier::ext_equal]
pub struct KnowledgeView {
    pub sent_candidates: Set<CandidateHash>,
    pub received_candidates: Set<CandidateHash>,
    pub sent_statements: Set<Fingerprint>,
    pub received_statements: Set<Fingerprint>,
    pub seconded_counts: Map<ValidatorIndex, TrackerView>,
    pub received_message_count: Map<CandidateHash, usize>,
    pub large_statement_count: usize,
    pub unexpected_count: usize,
}

impl KnowledgeView {
    /// Nothing known yet.
    pub open spec fn blank() -> KnowledgeView {
        KnowledgeView {
            sent_candidates: Set::empty(),
            received_candidates: Set::empty(),
            sent_statements: Set::empty(),
            received_statements: Set::empty(),
            seconded_counts: Map::empty(),
            received_message_count: Map::empty(),
            large_statement_count: 0,
            unexpected_count: 0,
        }
    }

    /// Whether the peer is aware of a candidate.
    pub open spec fn knows_candidate(self, h: CandidateHash) -> bool {
        self.sent_candidates.contains(h) || self.received_candidates.contains(h)
    }

    /// Whether the peer is aware of a statement.
    pub open spec fn knows_statement(self, fp: Fingerprint) -> bool {
        self.sent_statements.contains(fp) || self.received_statements.contains(fp)
    }

    /// Whether the peer can accept a statement: it does not have it, and has heard of the candidate
    /// unless the statement introduces it.
    pub open spec fn accepts(self, fp: Fingerprint) -> bool {
        !self.knows_statement(fp) && (fp.0 matches CompactStatement::Valid(h) ==> self.knows_candidate(
            h,
        ))
    }

    /// Whether a statement brings the peer a candidate that it was not aware of.
    pub open spec fn introduces(self, fp: Fingerprint) -> bool {
        fp.0 matches CompactStatement::Seconded(h) && !self.knows_candidate(h)
    }

    /// What is tracked for a validator.
    pub open spec fn tracker(self, v: ValidatorIndex) -> TrackerView {
        if self.seconded_counts.contains_key(v) {
            self.seconded_counts[v]
        } else {
            TrackerView::blank()
        }
    }

    /// How many statements about a candidate the peer has sent us.
    pub open spec fn message_count(self, h: CandidateHash) -> usize {
        if self.received_message_count.contains_key(h) {
            self.received_message_count[h]
        } else {
            0
        }
    }

    /// The knowledge once we have sent a statement.
    pub open spec fn after_send(self, fp: Fingerprint) -> KnowledgeView {
        match fp.0 {
            CompactStatement::Seconded(h) => KnowledgeView {
                seconded_counts: self.seconded_counts.insert(fp.1, self.tracker(fp.1).with_local(h)),
                sent_candidates: self.sent_candidates.insert(h),
                sent_statements: self.sent_statements.insert(fp),
                ..self
            },
            CompactStatement::Valid(_) => KnowledgeView {
                sent_statements: self.sent_statements.insert(fp),
                ..self
            },
        }
    }

    /// The rule of flood protection that a statement from the peer breaks, if `allowed` says whether
    /// the peer may tell us of the candidate that it seconds.
    pub open spec fn objection(self, fp: Fingerprint, allowed: bool, max_message_count: usize) -> Option<
        Rep,
    > {
        if self.received_statements.contains(fp) {
            Some(Rep::CostDuplicateStatement)
        } else if fp.0 is Seconded && !allowed {
            Some(Rep::CostUnexpectedStatementRemote)
        } else if fp.0 is Valid && !self.knows_candidate(fp.0.candidate()) {
            Some(Rep::CostUnexpectedStatementUnknownCandidate)
        } else if self.message_count(fp.0.candidate()) >= max_message_count {
            Some(Rep::CostApparentFlood)
        } else {
            None
        }
    }

    /// The rule of flood protection that taking a statement from the peer breaks.
    pub open spec fn receive_objection(self, fp: Fingerprint, max_message_count: usize) -> Option<
        Rep,
    > {
        self.objection(
            fp,
            notable(self.tracker(fp.1).remote, fp.0.candidate()),
            max_message_count,
        )
    }

    /// The rule of flood protection that a look at a statement from the peer finds broken.
    pub open spec fn check_objection(self, fp: Fingerprint, max_message_count: usize) -> Option<Rep> {
        let h = fp.0.candidate();
        let tracker = self.tracker(fp.1);
        self.objection(fp, tracker.wants(h) || tracker.remote.contains(h.0), max_message_count)
    }

    /// The knowledge once the peer has told us that a validator seconds a candidate.
    pub open spec fn with_remote(self, fp: Fingerprint) -> KnowledgeView {
        if fp.0 is Seconded {
            KnowledgeView {
                seconded_counts: self.seconded_counts.insert(
                    fp.1,
                    self.tracker(fp.1).with_remote(fp.0.candidate()),
                ),
                ..self
            }
        } else {
            self
        }
    }

    /// The knowledge once we have received a statement, accepted or not.
    pub open spec fn after_receive(self, fp: Fingerprint, max_message_count: usize) -> KnowledgeView {
        let h = fp.0.candidate();
        match self.receive_objection(fp, max_message_count) {
            None => KnowledgeView {
                received_message_count: self.received_message_count.insert(
                    h,
                    (self.message_count(h) + 1) as usize,
                ),
                received_statements: self.received_statements.insert(fp),
                received_candidates: self.received_candidates.insert(h),
                ..self.with_remote(fp)
            },
            Some(Rep::CostApparentFlood) => KnowledgeView {
                received_message_count: self.received_message_count.insert(h, self.message_count(h)),
                ..self.with_remote(fp)
            },
            Some(_) => self,
        }
    }
}

impl View for PeerRelayParentKnowledge {
    type V = KnowledgeView;

    closed spec fn view(&self) -> KnowledgeView {
        KnowledgeView {
            sent_candidates: self.sent_candidates@,
            received_candidates: self.received_candidates@,
            sent_statements: self.sent_statements@,
            received_statements: self.received_statements@,
            seconded_counts: self.seconded_counts@,
            received_message_count: self.received_message_count@,
            large_statement_count: self.large_statement_count,
            unexpected_count: self.unexpected_count,
        }
    }
}

impl PeerRelayParentKnowledge {
    /// Nothing known yet.
    pub fn new() -> (r: Self)
        ensures
            r@ == KnowledgeView::blank(),
    {
        PeerRelayParentKnowledge {
            sent_candidates: ListSet::new(),
            received_candidates: ListSet::new(),
            sent_statements: ListSet::new(),
            received_statements: ListSet::new(),
            seconded_counts: ListMap::new(),
            received_message_count: ListMap::new(),
            large_statement_count: 0,
            unexpected_count: 0,
        }
    }

    /// Updates our view of the peer's knowledge with this statement's fingerprint based
    /// on something that we would like to send to the peer.
    ///
    /// It is meant for statements for which `can_send` returned true. Once the knowledge has
    /// incorporated a statement, `can_send` does not let it be incorporated again.
    ///
    /// This returns `true` if this is the first time the peer has become aware of a
    /// candidate with the given hash.
    pub fn send(&mut self, fingerprint: &Fingerprint) -> (r: bool)
        ensures
            r == old(self)@.introduces(*fingerprint),
            final(self)@ == old(self)@.after_send(*fingerprint),
    {
        let new_known = match fingerprint.0 {
            CompactStatement::Seconded(h) => {
                self.seconded_counts.get_or_insert(&fingerprint.1, VcPerPeerTracker::new()).note_local(
                    h,
                );
                let was_known = self.is_known_candidate(&h);
                self.sent_candidates.insert(h);
                !was_known
            },
            CompactStatement::Valid(_) => false,
        };
        self.sent_statements.insert((fingerprint.0, fingerprint.1));
        new_known
    }

    /// This returns `true` if the peer can accept this statement, without altering internal
    /// state, `false` otherwise.
    pub fn can_send(&self, fingerprint: &Fingerprint) -> (r: bool)
        ensures
            r == self@.accepts(*fingerprint),
    {
        let already_known = self.sent_statements.contains(fingerprint)
            || self.received_statements.contains(fingerprint);
        if already_known {
            return false;
        }
        match fingerprint.0 {
            CompactStatement::Valid(h) => {
                // The peer can only accept Valid statements for which it is aware
                // of the corresponding candidate.
                self.is_known_candidate(&h)
            },
            CompactStatement::Seconded(_) => true,
        }
    }

    /// Attempt to update our view of the peer's knowledge with this statement's fingerprint based
    /// on a message we are receiving from the peer.
    ///
    /// Provide the maximum message count that we can receive per candidate. In practice we should
    /// not receive more statements for any one candidate than there are members in the group
    /// assigned to that para, but this maximum needs to be lenient to account for equivocations
    /// that may be cross-group. As such, a maximum of 2 * `n_validators` is recommended.
    ///
    /// This returns an error if the peer should not have sent us this message according to protocol
    /// rules for flood protection.
    ///
    /// If this returns `Ok`, the internal state has been altered. After `receive`ing a new
    /// candidate, we are then cleared to send the peer further statements about that candidate.
    ///
    /// This returns `Ok(true)` if this is the first time the peer has become aware of a
    /// candidate with given hash.
    pub fn receive(&mut self, fingerprint: &Fingerprint, max_message_count: usize) -> (r: Result<
        bool,
        Rep,
    >)
        ensures
            r == match old(self)@.receive_objection(*fingerprint, max_message_count) {
                Some(rep) => Err::<bool, Rep>(rep),
                None => Ok(old(self)@.introduces(*fingerprint)),
            },
            final(self)@ == old(self)@.after_receive(*fingerprint, max_message_count),
    {
        // We don't check `sent_statements` because a statement could be in-flight from both
        // sides at the same time.
        if self.received_statements.contains(fingerprint) {
            return Err(Rep::CostDuplicateStatement);
        }
        let (candidate_hash, fresh) = match fingerprint.0 {
            CompactStatement::Seconded(h) => {
                let allowed_remote = self.seconded_counts.get_or_insert(
                    &fingerprint.1,
                    VcPerPeerTracker::new(),
                ).note_remote(h);
                if !allowed_remote {
                    proof {
                        let k = old(self)@;
                        assert(k.seconded_counts.contains_key(fingerprint.1));
                        assert(k.seconded_counts.insert(
                            fingerprint.1,
                            k.tracker(fingerprint.1).with_remote(h),
                        ) =~= k.seconded_counts);
                    }
                    return Err(Rep::CostUnexpectedStatementRemote);
                }
                (h, !self.is_known_candidate(&h))
            },
            CompactStatement::Valid(h) => {
                if !self.is_known_candidate(&h) {
                    return Err(Rep::CostUnexpectedStatementUnknownCandidate);
                }
                (h, false)
            },
        };
        {
            let received_per_candidate = self.received_message_count.get_or_insert(
                &candidate_hash,
                0,
            );
            if *received_per_candidate >= max_message_count {
                return Err(Rep::CostApparentFlood);
            }
            *received_per_candidate = *received_per_candidate + 1;
        }
        self.received_statements.insert((fingerprint.0, fingerprint.1));
        self.received_candidates.insert(candidate_hash);
        Ok(fresh)
    }

    /// Note a received large statement metadata. That no more are let in over all relay parents than one
    /// sender may send is up to `PeerData::receive_large_statement`.
    pub fn receive_large_statement(&mut self) -> (r: Result<(), Rep>)
        ensures
            r == if old(self)@.large_statement_count >= MAX_LARGE_STATEMENTS_PER_SENDER {
                Err::<(), Rep>(Rep::CostApparentFlood)
            } else {
                Ok(())
            },
            final(self)@ == if r is Ok {
                KnowledgeView {
                    large_statement_count: (old(self)@.large_statement_count + 1) as usize,
                    ..old(self)@
                }
            } else {
                old(self)@
            },
    {
        if self.large_statement_count >= MAX_LARGE_STATEMENTS_PER_SENDER {
            return Err(Rep::CostApparentFlood);
        }
        self.large_statement_count = self.large_statement_count + 1;
        Ok(())
    }

    /// Notes an unexpected message, and returns how many there were before it.
    pub fn receive_unexpected(&mut self) -> (r: usize)
        requires
            old(self)@.unexpected_count < usize::MAX,
        ensures
            r == old(self)@.unexpected_count,
            final(self)@ == (KnowledgeView {
                unexpected_count: (old(self)@.unexpected_count + 1) as usize,
                ..old(self)@
            }),
    {
        let before: usize = self.unexpected_count;
        self.unexpected_count = self.unexpected_count + 1;
        before
    }

    /// How many large statements this peer already sent us for the relay parent.
    pub fn large_statement_count(&self) -> (r: usize)
        ensures
            r == self@.large_statement_count,
    {
        self.large_statement_count
    }

    /// How many unexpected messages there were.
    pub fn unexpected_count(&self) -> (r: usize)
        ensures
            r == self@.unexpected_count,
    {
        self.unexpected_count
    }

    /// This method does the same checks as `receive` without modifying the internal state.
    /// Returns an error if the peer should not have sent us this message according to protocol
    /// rules for flood protection.
    pub fn check_can_receive(&self, fingerprint: &Fingerprint, max_message_count: usize) -> (r: Result<
        (),
        Rep,
    >)
        ensures
            r == match self@.check_objection(*fingerprint, max_message_count) {
                Some(rep) => Err::<(), Rep>(rep),
                None => Ok(()),
            },
    {
        // We don't check `sent_statements` because a statement could be in-flight from both
        // sides at the same time.
        if self.received_statements.contains(fingerprint) {
            return Err(Rep::CostDuplicateStatement);
        }
        let candidate_hash = match fingerprint.0 {
            CompactStatement::Seconded(h) => {
                let allowed_remote = match self.seconded_counts.get(&fingerprint.1) {
                    Some(tracker) => tracker.is_wanted_candidate(&h) || tracker.is_noted_candidate(&h),
                    None => true,
                };
                if !allowed_remote {
                    return Err(Rep::CostUnexpectedStatementRemote);
                }
                h
            },
            CompactStatement::Valid(h) => {
                if !self.is_known_candidate(&h) {
                    return Err(Rep::CostUnexpectedStatementUnknownCandidate);
                }
                h
            },
        };
        let received_per_candidate: usize = match self.received_message_count.get(&candidate_hash) {
            Some(count) => *count,
            None => 0,
        };
        if received_per_candidate >= max_message_count {
            Err(Rep::CostApparentFlood)
        } else {
            Ok(())
        }
    }

    /// Check for candidates that the peer is aware of. This indicates that we can
    /// send other statements pertaining to that candidate.
    pub fn is_known_candidate(&self, candidate: &CandidateHash) -> (r: bool)
        ensures
            r == self@.knows_candidate(*candidate),
    {
        self.sent_candidates.contains(candidate) || self.received_candidates.contains(candidate)
    }

    /// Whether we sent the peer a statement that introduced the candidate.
    pub fn was_sent_candidate(&self, candidate: &CandidateHash) -> (r: bool)
        ensures
            r == self@.sent_candidates.contains(*candidate),
    {
        self.sent_candidates.contains(candidate)
    }
}

} // verus!
