//! The candidates that a peer knows a validator to have seconded.
use crate::ids::CandidateHash;
use arrayvec::ArrayVec;
use vstd::prelude::*;

verus! {

/// The maximum amount of candidates each validator is allowed to second at any relay-parent.
/// Short for "Validator Candidate Threshold".
///
/// This is the amount of candidates we keep per validator at any relay-parent.
/// Typically we will only keep 1, but when a validator equivocates we will need to track 2.
pub const VC_THRESHOLD: usize = 2;

/// The vector of fixed capacity of the crate `arrayvec`.
#[verifier::external_type_specification]
#[verifier::external_body]
#[verifier::reject_recursive_types(T)]
pub struct ExArrayVec<T, const CAP: usize>(ArrayVec<T, CAP>);

/// What the vector holds, in the order in which it was pushed.
pub uninterp spec fn observed(v: ArrayVec<[u8; 32], VC_THRESHOLD>) -> Seq<[u8; 32]>;

/// Calls `ArrayVec::new`, which gives a vector that holds nothing.
#[verifier::external_body]
fn nothing_observed() -> (r: ArrayVec<[u8; 32], VC_THRESHOLD>)
    ensures
        observed(r) == Seq::<[u8; 32]>::empty(),
{
    ArrayVec::new()
}

/// Calls `contains` on the slice of the vector: whether one of the items is equal to the hash.
#[verifier::external_body]
fn has_observed(v: &ArrayVec<[u8; 32], VC_THRESHOLD>, h: &[u8; 32]) -> (r: bool)
    ensures
        r == observed(*v).contains(*h),
{
    v.contains(h)
}

/// Calls `ArrayVec::is_full`: whether the vector holds as many items as its capacity, which it never
/// exceeds.
#[verifier::external_body]
fn observed_is_full(v: &ArrayVec<[u8; 32], VC_THRESHOLD>) -> (r: bool)
    ensures
        r == (observed(*v).len() >= VC_THRESHOLD),
{
    v.is_full()
}

/// Calls `ArrayVec::try_push`, which puts an item behind the others if the vector is not full, and
/// otherwise fails and leaves it as it is. The vector never exceeds its capacity.
#[verifier::external_body]
fn try_observe(v: &mut ArrayVec<[u8; 32], VC_THRESHOLD>, h: [u8; 32]) -> (r: bool)
    ensures
        r == (observed(*old(v)).len() < VC_THRESHOLD),
        observed(*final(v)) == (if r {
            observed(*old(v)).push(h)
        } else {
            observed(*old(v))
        }),
        observed(*final(v)).len() <= VC_THRESHOLD,
{
    v.try_push(h).is_ok()
}

/// Whether a candidate is among those observed or there is room for it.
pub open spec fn notable(s: Seq<[u8; 32]>, h: CandidateHash) -> bool {
    s.contains(h.0) || s.len() < VC_THRESHOLD
}

/// The candidates observed after one more was noted.
pub open spec fn noted(s: Seq<[u8; 32]>, h: CandidateHash) -> Seq<[u8; 32]> {
    if s.contains(h.0) || s.len() >= VC_THRESHOLD {
        s
    } else {
        s.push(h.0)
    }
}

/// Notes a candidate. Gives `false` where it is new and there is no room for it.
pub fn note_hash(v: &mut ArrayVec<[u8; 32], VC_THRESHOLD>, h: CandidateHash) -> (r: bool)
    ensures
        r == notable(observed(*old(v)), h),
        observed(*final(v)) == noted(observed(*old(v)), h),
{
    if has_observed(v, &h.0) {
        return true;
    }
    try_observe(v, h.0)
}

/// Tracks our impression of a single peer's view of the candidates a validator has seconded
/// for a given relay-parent.
///
/// It is expected to receive at most `VC_THRESHOLD` from us and be aware of at most `VC_THRESHOLD`
/// via other means.
pub struct VcPerPeerTracker {
    local_observed: ArrayVec<[u8; 32], VC_THRESHOLD>,
    remote_observed: ArrayVec<[u8; 32], VC_THRESHOLD>,
}

/// What a tracker knows: the candidates that the peer has from us, and those it has told us of.
#[verifier::ext_equal]
pub struct TrackerView {
    pub local: Seq<[u8; 32]>,
    pub remote: Seq<[u8; 32]>,
}

impl TrackerView {
    /// A tracker that knows of no candidate.
    pub open spec fn blank() -> TrackerView {
        TrackerView { local: Seq::empty(), remote: Seq::empty() }
    }

    /// The tracker once the peer has a candidate from us.
    pub open spec fn with_local(self, h: CandidateHash) -> TrackerView {
        TrackerView { local: noted(self.local, h), ..self }
    }

    /// The tracker once the peer has told us of a candidate.
    pub open spec fn with_remote(self, h: CandidateHash) -> TrackerView {
        TrackerView { remote: noted(self.remote, h), ..self }
    }

    /// Whether a candidate is a new one that the peer may still tell us of.
    pub open spec fn wants(self, h: CandidateHash) -> bool {
        !self.remote.contains(h.0) && self.remote.len() < VC_THRESHOLD
    }

    /// Whether no more candidates are tracked than a validator may second.
    pub open spec fn bounded(self) -> bool {
        self.local.len() <= VC_THRESHOLD && self.remote.len() <= VC_THRESHOLD
    }
}

impl View for VcPerPeerTracker {
    type V = TrackerView;

    closed spec fn view(&self) -> TrackerView {
        TrackerView { local: observed(self.local_observed), remote: observed(self.remote_observed) }
    }
}

impl VcPerPeerTracker {
    /// A tracker that knows of no candidate.
    pub fn new() -> (r: Self)
        ensures
            r@ == TrackerView::blank(),
    {
        VcPerPeerTracker { local_observed: nothing_observed(), remote_observed: nothing_observed() }
    }

    /// Note that the remote should now be aware that a validator has seconded a given candidate (by
    /// hash) based on a message that we have sent it from our local pool.
    pub fn note_local(&mut self, h: CandidateHash)
        ensures
            final(self)@ == old(self)@.with_local(h),
    {
        let _ = note_hash(&mut self.local_observed, h);
    }

    /// Note that the remote should now be aware that a validator has seconded a given candidate (by
    /// hash) based on a message that it has sent us.
    ///
    /// Returns `true` if the peer was allowed to send us such a message, `false` otherwise.
    pub fn note_remote(&mut self, h: CandidateHash) -> (r: bool)
        ensures
            r == notable(old(self)@.remote, h),
            final(self)@ == old(self)@.with_remote(h),
    {
        note_hash(&mut self.remote_observed, h)
    }

    /// Returns `true` if the candidate is a new one and the peer is allowed to tell us of it, `false`
    /// otherwise.
    pub fn is_wanted_candidate(&self, h: &CandidateHash) -> (r: bool)
        ensures
            r == self@.wants(*h),
    {
        !has_observed(&self.remote_observed, &h.0) && !observed_is_full(&self.remote_observed)
    }

    /// Returns `true` if the peer has told us of the candidate, `false` otherwise.
    pub fn is_noted_candidate(&self, h: &CandidateHash) -> (r: bool)
        ensures
            r == self@.remote.contains(h.0),
    {
        has_observed(&self.remote_observed, &h.0)
    }
}

} // verus!
