//! Relay-chain heads that were active until recently.
use crate::ids::{BlockHash, Ident};
use std::collections::VecDeque;
use vstd::prelude::*;

verus! {

/// How many outdated heads are remembered.
pub const MAX_BUF_LEN: usize = 10;

/// Relay-chain heads that were active until recently.
pub struct RecentOutdatedHeads {
    buf: VecDeque<BlockHash>,
}

impl View for RecentOutdatedHeads {
    type V = Seq<BlockHash>;

    closed spec fn view(&self) -> Seq<BlockHash> {
        self.buf@
    }
}

/// The last items of a sequence, as many as are remembered.
pub open spec fn latest(s: Seq<BlockHash>) -> Seq<BlockHash> {
    if s.len() > MAX_BUF_LEN {
        s.skip(s.len() - MAX_BUF_LEN)
    } else {
        s
    }
}

impl RecentOutdatedHeads {
    /// No head is outdated yet.
    pub fn new() -> (r: Self)
        ensures
            r@ == Seq::<BlockHash>::empty(),
    {
        RecentOutdatedHeads { buf: VecDeque::new() }
    }

    /// Remembers an outdated head, and forgets the oldest ones if there are too many.
    pub fn note_outdated(&mut self, hash: BlockHash)
        ensures
            final(self)@ == latest(old(self)@.push(hash)),
    {
        self.buf.push_back(hash);
        let ghost all = self.buf@;
        while self.buf.len() > MAX_BUF_LEN
            invariant
                self.buf@.len() <= all.len(),
                self.buf@ == all.skip(all.len() - self.buf@.len()),
                all.len() >= MAX_BUF_LEN ==> self.buf@.len() >= MAX_BUF_LEN,
                all.len() < MAX_BUF_LEN ==> self.buf@ == all,
            decreases self.buf@.len(),
        {
            let ghost before = self.buf@;
            let _ = self.buf.pop_front();
            assert(self.buf@ =~= all.skip(all.len() - self.buf@.len()));
        }
        assert(self.buf@ =~= latest(all));
    }

    /// Whether a head is among those remembered.
    pub fn is_recent_outdated(&self, hash: &BlockHash) -> (r: bool)
        ensures
            r == self@.contains(*hash),
    {
        let mut i: usize = 0;
        while i < self.buf.len()
            invariant
                i <= self.buf@.len(),
                forall|j: int| 0 <= j < i ==> self.buf@[j] != *hash,
            decreases self.buf@.len() - i,
        {
            if self.buf[i].same(hash) {
                return true;
            }
            i = i + 1;
        }
        false
    }
}

} // verus!
