//! What holds of a peer's knowledge about a relay parent.
use crate::collections::lemma_push_contains;
use crate::ids::{CandidateHash, ValidatorIndex};
use crate::knowledge::{KnowledgeView, MAX_LARGE_STATEMENTS_PER_SENDER};
use crate::reputation::Rep;
use crate::statement::{CompactStatement, Fingerprint};
use crate::tracker::{TrackerView, VC_THRESHOLD, notable, noted};
use vstd::prelude::*;

verus! {

/// What holds of the knowledge about a relay parent at any time: no more candidates are tracked for a
/// validator than it may second, in either direction; no more large statements were let in than one
/// sender may send; and whatever was sent or received is known of.
pub open spec fn sound(k: KnowledgeView) -> bool {
    &&& forall|v: ValidatorIndex| (#[trigger] k.tracker(v)).bounded()
    &&& k.large_statement_count <= MAX_LARGE_STATEMENTS_PER_SENDER
    &&& forall|fp: Fingerprint| #[trigger]
        k.sent_statements.contains(fp) && fp.0 is Seconded ==> k.sent_candidates.contains(
            fp.0.candidate(),
        )
    &&& forall|fp: Fingerprint| #[trigger]
        k.received_statements.contains(fp) ==> k.received_candidates.contains(fp.0.candidate())
}

/// What holds of the knowledge if no more than `max_message_count` statements per candidate are taken
/// from the peer: no more were counted, and a candidate that the peer told us of is either in a
/// statement that we took, or the peer has used up its messages about it.
pub open spec fn metered(k: KnowledgeView, max_message_count: usize) -> bool {
    &&& forall|h: CandidateHash| #[trigger] k.message_count(h) <= max_message_count
    &&& forall|v: ValidatorIndex, h: CandidateHash| #[trigger]
        k.tracker(v).remote.contains(h.0) ==> k.received_statements.contains(
            (CompactStatement::Seconded(h), v),
        ) || k.message_count(h) >= max_message_count
}

/// A peer of which nothing is known yet breaks no bound.
pub proof fn blank_knowledge_is_sound(max_message_count: usize)
    ensures
        sound(KnowledgeView::blank()),
        metered(KnowledgeView::blank(), max_message_count),
{
}

proof fn lemma_noted(s: Seq<[u8; 32]>, h: CandidateHash)
    ensures
        s.len() <= VC_THRESHOLD ==> noted(s, h).len() <= VC_THRESHOLD,
        forall|x: [u8; 32]| #[trigger]
            noted(s, h).contains(x) ==> s.contains(x) || x == h.0,
        forall|x: [u8; 32]| #[trigger] s.contains(x) ==> noted(s, h).contains(x),
{
    assert forall|x: [u8; 32]| #[trigger] noted(s, h).contains(x) implies s.contains(x) || x == h.0 by {
        lemma_push_contains(s, h.0, x);
    }
    assert forall|x: [u8; 32]| #[trigger] s.contains(x) implies noted(s, h).contains(x) by {
        lemma_push_contains(s, h.0, x);
    }
}

/// Sending a statement keeps every bound.
pub proof fn send_keeps_knowledge_sound(k: KnowledgeView, fp: Fingerprint)
    requires
        sound(k),
    ensures
        sound(k.after_send(fp)),
{
    let after = k.after_send(fp);
    assert forall|v: ValidatorIndex| (#[trigger] after.tracker(v)).bounded() by {
        assert(k.tracker(v).bounded());
        lemma_noted(k.tracker(v).local, fp.0.candidate());
    }
}

/// Sending a statement leaves what is counted of the peer's messages as it is.
pub proof fn send_keeps_knowledge_metered(k: KnowledgeView, fp: Fingerprint, max_message_count: usize)
    requires
        metered(k, max_message_count),
    ensures
        metered(k.after_send(fp), max_message_count),
{
    let after = k.after_send(fp);
    assert forall|h: CandidateHash| #[trigger] after.message_count(h) <= max_message_count by {
        assert(k.message_count(h) == after.message_count(h));
    }
    assert forall|v: ValidatorIndex, h: CandidateHash| #[trigger]
        after.tracker(v).remote.contains(h.0) implies after.received_statements.contains(
        (CompactStatement::Seconded(h), v),
    ) || after.message_count(h) >= max_message_count by {
        assert(k.tracker(v).remote == after.tracker(v).remote);
        assert(k.message_count(h) == after.message_count(h));
    }
}

/// Receiving a statement, accepted or not, keeps every bound.
pub proof fn receive_keeps_knowledge_sound(k: KnowledgeView, fp: Fingerprint, max_message_count: usize)
    requires
        sound(k),
    ensures
        sound(k.after_receive(fp, max_message_count)),
{
    let after = k.after_receive(fp, max_message_count);
    assert forall|v: ValidatorIndex| (#[trigger] after.tracker(v)).bounded() by {
        assert(k.tracker(v).bounded());
        lemma_noted(k.tracker(v).remote, fp.0.candidate());
    }
}

/// Receiving a statement, accepted or not, lets the peer have no more messages than it may send.
pub proof fn receive_keeps_knowledge_metered(
    k: KnowledgeView,
    fp: Fingerprint,
    max_message_count: usize,
)
    requires
        metered(k, max_message_count),
    ensures
        metered(k.after_receive(fp, max_message_count), max_message_count),
{
    let after = k.after_receive(fp, max_message_count);
    let c = fp.0.candidate();
    assert forall|h: CandidateHash| #[trigger] after.message_count(h) <= max_message_count by {
        assert(k.message_count(h) <= max_message_count);
    }
    assert forall|v: ValidatorIndex, h: CandidateHash| #[trigger]
        after.tracker(v).remote.contains(h.0) implies after.received_statements.contains(
        (CompactStatement::Seconded(h), v),
    ) || after.message_count(h) >= max_message_count by {
        lemma_noted(k.tracker(v).remote, c);
        assert(k.message_count(h) <= after.message_count(h));
        if k.tracker(v).remote.contains(h.0) {
            assert(k.received_statements.contains((CompactStatement::Seconded(h), v))
                || k.message_count(h) >= max_message_count);
        } else {
            assert(h.0 == c.0 && v == fp.1 && fp.0 is Seconded);
            assert(h == c);
            assert(fp == (CompactStatement::Seconded(h), v));
        }
    }
}

/// Letting a large statement in keeps every bound, as long as it is let in only below the limit.
pub proof fn large_statement_keeps_knowledge_sound(k: KnowledgeView)
    requires
        sound(k),
        k.large_statement_count < MAX_LARGE_STATEMENTS_PER_SENDER,
    ensures
        sound(
            KnowledgeView { large_statement_count: (k.large_statement_count + 1) as usize, ..k },
        ),
{
    let after = KnowledgeView {
        large_statement_count: (k.large_statement_count + 1) as usize,
        ..k
    };
    assert forall|v: ValidatorIndex| (#[trigger] after.tracker(v)).bounded() by {
        assert(k.tracker(v).bounded());
    }
}

/// Counting an unexpected message keeps every bound.
pub proof fn unexpected_message_keeps_knowledge_sound(k: KnowledgeView, unexpected_count: usize)
    requires
        sound(k),
    ensures
        sound(KnowledgeView { unexpected_count, ..k }),
{
    let after = KnowledgeView { unexpected_count, ..k };
    assert forall|v: ValidatorIndex| (#[trigger] after.tracker(v)).bounded() by {
        assert(k.tracker(v).bounded());
    }
}

/// Once the knowledge has incorporated a statement that was sent, the statement cannot be sent again,
/// also when more was sent to the peer and received from it.
pub proof fn sent_statement_is_not_sent_again(k: KnowledgeView, fp: Fingerprint, later: KnowledgeView)
    requires
        k.after_send(fp).sent_statements.subset_of(later.sent_statements),
    ensures
        !later.accepts(fp),
{
    assert(k.after_send(fp).sent_statements.contains(fp));
}

/// What a peer knows, it keeps knowing, whatever is sent to it and received from it.
pub proof fn knowledge_grows(k: KnowledgeView, fp: Fingerprint, max_message_count: usize)
    ensures
        k.sent_statements.subset_of(k.after_send(fp).sent_statements),
        k.sent_candidates.subset_of(k.after_send(fp).sent_candidates),
        k.received_statements == k.after_send(fp).received_statements,
        k.received_candidates == k.after_send(fp).received_candidates,
        k.sent_statements == k.after_receive(fp, max_message_count).sent_statements,
        k.sent_candidates == k.after_receive(fp, max_message_count).sent_candidates,
        k.received_statements.subset_of(k.after_receive(fp, max_message_count).received_statements),
        k.received_candidates.subset_of(k.after_receive(fp, max_message_count).received_candidates),
{
}

/// After a candidate was received, the peer is known to be aware of it, and we are cleared to send the
/// peer any further statement about it that it does not have.
pub proof fn received_candidate_is_cleared(
    k: KnowledgeView,
    fp: Fingerprint,
    other: Fingerprint,
    max_message_count: usize,
)
    requires
        k.receive_objection(fp, max_message_count) is None,
        other.0.candidate() == fp.0.candidate(),
    ensures
        k.after_receive(fp, max_message_count).knows_candidate(fp.0.candidate()),
        k.after_receive(fp, max_message_count).accepts(other) <==> !k.after_receive(
            fp,
            max_message_count,
        ).knows_statement(other),
{
}

/// A statement that was received is a duplicate when it comes again, whatever maximum applies.
pub proof fn received_statement_is_a_duplicate(
    k: KnowledgeView,
    fp: Fingerprint,
    max_message_count: usize,
    later_max: usize,
)
    requires
        k.receive_objection(fp, max_message_count) is None,
    ensures
        k.after_receive(fp, max_message_count).receive_objection(fp, later_max) == Some(
            Rep::CostDuplicateStatement,
        ),
        k.after_receive(fp, max_message_count).check_objection(fp, later_max) == Some(
            Rep::CostDuplicateStatement,
        ),
{
}

/// The check and the taking of a statement find the same wrong with it: what the check lets through is
/// received, and what it refuses is refused for the same reason.
pub proof fn check_agrees_with_receive(k: KnowledgeView, fp: Fingerprint, max_message_count: usize)
    ensures
        k.check_objection(fp, max_message_count) == k.receive_objection(fp, max_message_count),
{
}

/// A validator that seconds beyond the threshold is not believed: once a peer has told us of as many
/// candidates as a validator may second, any other one is unexpected.
pub proof fn peer_tells_of_no_more_candidates_than_the_threshold(
    k: KnowledgeView,
    fp: Fingerprint,
    max_message_count: usize,
)
    requires
        fp.0 is Seconded,
        k.tracker(fp.1).remote.len() >= VC_THRESHOLD,
        !k.tracker(fp.1).remote.contains(fp.0.candidate().0),
        !k.received_statements.contains(fp),
    ensures
        k.receive_objection(fp, max_message_count) == Some(Rep::CostUnexpectedStatementRemote),
        k.check_objection(fp, max_message_count) == Some(Rep::CostUnexpectedStatementRemote),
        k.after_receive(fp, max_message_count) == k,
{
}

/// A statement is sent to a peer if and only if it was neither sent to the peer nor received from it,
/// and, where it is that a candidate is valid, one of the two tells that the peer knows the candidate.
/// It introduces the candidate if and only if it seconds one that neither of the two tells the peer of.
pub proof fn news_about_known_candidates_is_sent(k: KnowledgeView, fp: Fingerprint)
    ensures
        k.accepts(fp) <==> {
            &&& !k.sent_statements.contains(fp)
            &&& !k.received_statements.contains(fp)
            &&& fp.0 is Seconded || k.sent_candidates.contains(fp.0.candidate())
                || k.received_candidates.contains(fp.0.candidate())
        },
        k.introduces(fp) <==> {
            &&& fp.0 is Seconded
            &&& !k.sent_candidates.contains(fp.0.candidate())
            &&& !k.received_candidates.contains(fp.0.candidate())
        },
{
}

/// Sending a statement adds it to those that were sent, and, where it seconds a candidate, the candidate
/// too, and leaves all else that was sent as it is. A validator's candidates that we told the peer of are
/// those before and, as far as there is room, the one that it seconds now. Nothing that comes from the peer
/// is changed.
pub proof fn send_adds_what_was_sent(
    k: KnowledgeView,
    fp: Fingerprint,
    other: Fingerprint,
    h: CandidateHash,
    v: ValidatorIndex,
)
    ensures
        ({
            let after = k.after_send(fp);
            let told = k.tracker(v).local;
            &&& after.sent_statements.contains(other) <==> k.sent_statements.contains(other) || other == fp
            &&& after.sent_candidates.contains(h) <==> k.sent_candidates.contains(h) || fp.0
                == CompactStatement::Seconded(h)
            &&& after.received_statements == k.received_statements
            &&& after.received_candidates == k.received_candidates
            &&& after.received_message_count == k.received_message_count
            &&& after.large_statement_count == k.large_statement_count
            &&& after.unexpected_count == k.unexpected_count
            &&& after.tracker(v).remote == k.tracker(v).remote
            &&& after.tracker(v).local == if fp.1 == v && fp.0 is Seconded && told.len() < 2
                && !told.contains(fp.0.candidate().0) {
                told.push(fp.0.candidate().0)
            } else {
                told
            }
        }),
{
}

/// What is wrong with a statement that a peer sends, of all that can be: that it was received before; that
/// its validator has seconded two other candidates towards us by way of the peer; that it is about a
/// candidate which the peer never told us of, nor we it; or that the peer has sent all the messages about
/// the candidate that it may. The first of these is the one that counts, and without any of them the
/// statement is received.
pub proof fn statement_is_received_unless_something_is_wrong(
    k: KnowledgeView,
    fp: Fingerprint,
    max_message_count: usize,
)
    ensures
        ({
            let h = fp.0.candidate();
            let duplicate = k.received_statements.contains(fp);
            let seconded = k.tracker(fp.1).remote;
            let beyond = fp.0 is Seconded && seconded.len() >= 2 && !seconded.contains(h.0);
            let unknown = fp.0 is Valid && !k.sent_candidates.contains(h)
                && !k.received_candidates.contains(h);
            let used_up = k.message_count(h) >= max_message_count;
            let objection = k.receive_objection(fp, max_message_count);
            &&& objection == Some(Rep::CostDuplicateStatement) <==> duplicate
            &&& objection == Some(Rep::CostUnexpectedStatementRemote) <==> !duplicate && beyond
            &&& objection == Some(Rep::CostUnexpectedStatementUnknownCandidate) <==> !duplicate
                && unknown
            &&& objection == Some(Rep::CostApparentFlood) <==> !duplicate && !beyond && !unknown
                && used_up
            &&& objection is None <==> !duplicate && !beyond && !unknown && !used_up
        }),
{
}

/// A statement that is received is among those that came from the peer, with its candidate, and is counted
/// for the candidate; where it seconds the candidate, the candidate is among those that its validator has
/// seconded. A statement that is not received changes none of these, but that a candidate may have been
/// noted before the messages about it were found to be used up. What was sent stays as it is in any case.
pub proof fn receive_adds_what_came(
    k: KnowledgeView,
    fp: Fingerprint,
    max_message_count: usize,
    other: Fingerprint,
    h: CandidateHash,
    v: ValidatorIndex,
)
    ensures
        ({
            let after = k.after_receive(fp, max_message_count);
            let objection = k.receive_objection(fp, max_message_count);
            let received = objection is None;
            let reached = received || objection == Some(Rep::CostApparentFlood);
            let told = k.tracker(v).remote;
            &&& after.received_statements.contains(other) <==> k.received_statements.contains(other)
                || received && other == fp
            &&& after.received_candidates.contains(h) <==> k.received_candidates.contains(h) || received
                && h == fp.0.candidate()
            &&& after.message_count(h) == k.message_count(h) + if received && h == fp.0.candidate() {
                1int
            } else {
                0int
            }
            &&& after.tracker(v).remote == if reached && fp.0 is Seconded && fp.1 == v && !told.contains(
                fp.0.candidate().0,
            ) {
                told.push(fp.0.candidate().0)
            } else {
                told
            }
            &&& after.tracker(v).local == k.tracker(v).local
            &&& after.sent_statements == k.sent_statements
            &&& after.sent_candidates == k.sent_candidates
            &&& after.large_statement_count == k.large_statement_count
            &&& after.unexpected_count == k.unexpected_count
        }),
{
}

/// A tracker with nothing in it, and one into which candidates are put: the first two different ones are
/// kept, in their order, and no others. Another candidate is wanted as long as there is room for it.
pub proof fn first_two_candidates_are_kept(
    t: TrackerView,
    h: CandidateHash,
    second: CandidateHash,
    third: CandidateHash,
)
    ensures
        noted(Seq::empty(), h) == seq![h.0],
        noted(noted(Seq::empty(), h), second) == if second == h {
            seq![h.0]
        } else {
            seq![h.0, second.0]
        },
        second != h ==> noted(noted(noted(Seq::empty(), h), second), third) == seq![h.0, second.0],
        second != h ==> (notable(seq![h.0, second.0], third) <==> third == h || third == second),
        notable(seq![h.0], second),
        notable(Seq::empty(), h),
        t.wants(h) <==> t.remote.len() < 2 && !t.remote.contains(h.0),
        t.with_local(h).remote == t.remote,
        t.with_remote(h).local == t.local,
        t.with_local(h).local == noted(t.local, h),
        t.with_remote(h).remote == noted(t.remote, h),
{
    let none = Seq::<[u8; 32]>::empty();
    let one = seq![h.0];
    let two = seq![h.0, second.0];
    assert(none.push(h.0) =~= one);
    assert(one.push(second.0) =~= two);
    assert(one[0] == h.0 && two[0] == h.0 && two[1] == second.0);
    assert(second == h || second.0 != h.0);
}

} // verus!
