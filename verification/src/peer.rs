//! What is known of a connected peer.
use crate::collections::{
    ListMap, ListSet, distinct, lemma_push_contains, lemma_take_one_more,
};
use crate::ids::{AuthorityDiscoveryId, BlockHash, CandidateHash, Ident};
use crate::knowledge::{KnowledgeView, MAX_LARGE_STATEMENTS_PER_SENDER, PeerRelayParentKnowledge};
use crate::message::ValidationVersion;
use crate::reputation::Rep;
use crate::statement::Fingerprint;
use vstd::prelude::*;

verus! {

/// The relay-chain heads that a peer works on.
pub struct PeerView {
    pub heads: Vec<BlockHash>,
}

impl View for PeerView {
    type V = Seq<BlockHash>;

    open spec fn view(&self) -> Seq<BlockHash> {
        self.heads@
    }
}

/// The heads of one view that are not in another, in order.
pub open spec fn heads_beyond(heads: Seq<BlockHash>, other: Seq<BlockHash>) -> Seq<BlockHash>
    decreases heads.len(),
{
    if heads.len() == 0 {
        seq![]
    } else {
        let before = heads_beyond(heads.drop_last(), other);
        if other.contains(heads.last()) {
            before
        } else {
            before.push(heads.last())
        }
    }
}

/// The heads of one view that are not in another are those that the first one holds and the other
/// does not.
pub proof fn heads_beyond_is_difference(heads: Seq<BlockHash>, other: Seq<BlockHash>)
    ensures
        forall|h: BlockHash|
            #[trigger] heads_beyond(heads, other).contains(h) <==> heads.contains(h) && !other.contains(h),
    decreases heads.len(),
{
    if heads.len() > 0 {
        let front = heads.drop_last();
        let before = heads_beyond(front, other);
        heads_beyond_is_difference(front, other);
        assert(heads =~= front.push(heads.last()));
        assert forall|h: BlockHash|
            #[trigger] heads_beyond(heads, other).contains(h) <==> heads.contains(h) && !other.contains(
                h,
            ) by {
            lemma_push_contains(front, heads.last(), h);
            lemma_push_contains(before, heads.last(), h);
            assert(before.contains(h) <==> front.contains(h) && !other.contains(h));
        }
    }
}

impl PeerView {
    /// A view without heads.
    pub fn new() -> (r: Self)
        ensures
            r@ == Seq::<BlockHash>::empty(),
    {
        PeerView { heads: Vec::new() }
    }

    /// Whether a head is in the view.
    pub fn contains(&self, head: &BlockHash) -> (r: bool)
        ensures
            r == self@.contains(*head),
    {
        let mut i: usize = 0;
        while i < self.heads.len()
            invariant
                i <= self.heads@.len(),
                forall|j: int| 0 <= j < i ==> self.heads@[j] != *head,
            decreases self.heads@.len() - i,
        {
            if self.heads[i].same(head) {
                return true;
            }
            i = i + 1;
        }
        false
    }

    /// The heads of this view that are not in another, in order.
    pub fn difference(&self, other: &PeerView) -> (r: Vec<BlockHash>)
        ensures
            r@ == heads_beyond(self@, other@),
    {
        let mut beyond: Vec<BlockHash> = Vec::new();
        let mut i: usize = 0;
        while i < self.heads.len()
            invariant
                i <= self.heads@.len(),
                beyond@ == heads_beyond(self@.take(i as int), other@),
            decreases self.heads@.len() - i,
        {
            assert(self@.take(i + 1).drop_last() =~= self@.take(i as int));
            if !other.contains(&self.heads[i]) {
                beyond.push(self.heads[i]);
            }
            i = i + 1;
        }
        assert(self@.take(i as int) =~= self@);
        beyond
    }
}

/// What is known of a connected peer.
pub struct PeerData {
    view: PeerView,
    protocol_version: ValidationVersion,
    view_knowledge: ListMap<BlockHash, PeerRelayParentKnowledge>,
    /// Peer might be known as authority with the given ids.
    maybe_authority: Option<ListSet<AuthorityDiscoveryId>>,
}

/// What is known of a connected peer, as sets and maps.
#[verifier::ext_equal]
pub struct PeerDataView {
    pub view: Seq<BlockHash>,
    pub protocol_version: ValidationVersion,
    pub view_knowledge: Map<BlockHash, KnowledgeView>,
    pub maybe_authority: Option<Set<AuthorityDiscoveryId>>,
}

/// How many large statements were let in from a peer, over all relay parents.
pub open spec fn large_total(known: Map<BlockHash, KnowledgeView>) -> nat
    decreases known.dom().len(),
{
    if known.dom().finite() && known.dom().len() > 0 {
        let h = known.dom().choose();
        known[h].large_statement_count as nat + large_total(known.remove(h))
    } else {
        0
    }
}

/// The total is made of the count of any one relay parent and of the total of the others.
pub proof fn lemma_large_total_at(known: Map<BlockHash, KnowledgeView>, h: BlockHash)
    requires
        known.dom().finite(),
        known.contains_key(h),
    ensures
        large_total(known) == known[h].large_statement_count as nat + large_total(known.remove(h)),
    decreases known.dom().len(),
{
    let c = known.dom().choose();
    assert(known.dom().len() > 0) by {
        assert(known.dom().contains(h));
        vstd::set_lib::lemma_set_empty_equivalency_len(known.dom());
    }
    if c != h {
        assert(known.dom().contains(c));
        lemma_large_total_at(known.remove(c), h);
        lemma_large_total_at(known.remove(h), c);
        assert(known.remove(c).remove(h) =~= known.remove(h).remove(c));
    }
}

/// The total of the relay parents in a list.
spec fn listed_total(known: Map<BlockHash, KnowledgeView>, list: Seq<BlockHash>) -> nat
    decreases list.len(),
{
    if list.len() == 0 {
        0
    } else {
        listed_total(known, list.drop_last()) + known[list.last()].large_statement_count as nat
    }
}

proof fn lemma_listed_total(known: Map<BlockHash, KnowledgeView>, list: Seq<BlockHash>)
    requires
        distinct(list),
        forall|h: BlockHash| #[trigger] list.contains(h) <==> known.contains_key(h),
    ensures
        known.dom().finite(),
        large_total(known) == listed_total(known, list),
    decreases list.len(),
{
    assert(list.to_set() =~= known.dom());
    vstd::seq_lib::seq_to_set_is_finite(list);
    if list.len() == 0 {
        assert(known.dom() =~= Set::empty());
    } else {
        let front = list.drop_last();
        let last = list.last();
        let rest = known.remove(last);
        assert(list =~= front.push(last));
        assert(list.contains(last)) by {
            assert(list[list.len() - 1] == last);
        }
        assert forall|h: BlockHash| #[trigger] front.contains(h) <==> rest.contains_key(h) by {
            lemma_push_contains(front, last, h);
            if front.contains(h) {
                let i = choose|i: int| 0 <= i < front.len() && front[i] == h;
                assert(list[i] == h && list[list.len() - 1] == last);
            }
            assert(list.contains(h) <==> known.contains_key(h));
        }
        lemma_listed_total(rest, front);
        lemma_listed_agrees(known, rest, front);
        lemma_large_total_at(known, last);
    }
}

proof fn lemma_listed_agrees(
    a: Map<BlockHash, KnowledgeView>,
    b: Map<BlockHash, KnowledgeView>,
    list: Seq<BlockHash>,
)
    requires
        forall|h: BlockHash| #[trigger] list.contains(h) ==> a[h] == b[h],
    ensures
        listed_total(a, list) == listed_total(b, list),
    decreases list.len(),
{
    if list.len() > 0 {
        let front = list.drop_last();
        assert(list[list.len() - 1] == list.last());
        assert(list.contains(list.last()));
        assert forall|h: BlockHash| #[trigger] front.contains(h) implies a[h] == b[h] by {
            let i = choose|i: int| 0 <= i < front.len() && front[i] == h;
            assert(list[i] == h);
            assert(list.contains(h));
        }
        lemma_listed_agrees(a, b, front);
    }
}

proof fn lemma_listed_part(known: Map<BlockHash, KnowledgeView>, list: Seq<BlockHash>, i: int)
    requires
        0 <= i <= list.len(),
    ensures
        listed_total(known, list.take(i)) <= listed_total(known, list),
    decreases list.len(),
{
    if i < list.len() {
        assert(list.drop_last().take(i) =~= list.take(i));
        lemma_listed_part(known, list.drop_last(), i);
    } else {
        assert(list.take(i) =~= list);
    }
}

impl PeerDataView {
    /// A peer that has just connected.
    pub open spec fn connected(
        protocol_version: ValidationVersion,
        maybe_authority: Option<Set<AuthorityDiscoveryId>>,
    ) -> PeerDataView {
        PeerDataView { view: Seq::empty(), protocol_version, view_knowledge: Map::empty(), maybe_authority }
    }

    /// Whether the relay parent is in the view of the peer.
    pub open spec fn tracks(self, relay_parent: BlockHash) -> bool {
        self.view_knowledge.contains_key(relay_parent)
    }

    /// The peer with other knowledge about a relay parent.
    pub open spec fn with_knowledge(self, relay_parent: BlockHash, k: KnowledgeView) -> PeerDataView {
        PeerDataView { view_knowledge: self.view_knowledge.insert(relay_parent, k), ..self }
    }

    /// The peer with another view. What it knew about heads that have left its view is forgotten.
    pub open spec fn with_view(self, new_view: Seq<BlockHash>) -> PeerDataView {
        PeerDataView {
            view: new_view,
            view_knowledge: self.view_knowledge.remove_keys(
                Set::new(|h: BlockHash| self.view.contains(h) && !new_view.contains(h)),
            ),
            ..self
        }
    }

    /// Whether the peer can accept a statement.
    pub open spec fn accepts(self, relay_parent: BlockHash, fp: Fingerprint) -> bool {
        self.tracks(relay_parent) && self.view_knowledge[relay_parent].accepts(fp)
    }

    /// Whether a statement brings the peer a candidate that it was not aware of.
    pub open spec fn introduces(self, relay_parent: BlockHash, fp: Fingerprint) -> bool {
        self.view_knowledge[relay_parent].introduces(fp)
    }

    /// The peer once we have sent it a statement.
    pub open spec fn after_send(self, relay_parent: BlockHash, fp: Fingerprint) -> PeerDataView {
        self.with_knowledge(relay_parent, self.view_knowledge[relay_parent].after_send(fp))
    }

    /// The rule that taking a statement from the peer breaks.
    pub open spec fn receive_objection(
        self,
        relay_parent: BlockHash,
        fp: Fingerprint,
        max_message_count: usize,
    ) -> Option<Rep> {
        if self.tracks(relay_parent) {
            self.view_knowledge[relay_parent].receive_objection(fp, max_message_count)
        } else {
            Some(Rep::CostUnexpectedStatementMissingKnowledge)
        }
    }

    /// The rule that a look at a statement from the peer finds broken.
    pub open spec fn check_objection(
        self,
        relay_parent: BlockHash,
        fp: Fingerprint,
        max_message_count: usize,
    ) -> Option<Rep> {
        if self.tracks(relay_parent) {
            self.view_knowledge[relay_parent].check_objection(fp, max_message_count)
        } else {
            Some(Rep::CostUnexpectedStatementMissingKnowledge)
        }
    }

    /// The peer once we have received a statement from it.
    pub open spec fn after_receive(
        self,
        relay_parent: BlockHash,
        fp: Fingerprint,
        max_message_count: usize,
    ) -> PeerDataView {
        if self.tracks(relay_parent) {
            self.with_knowledge(
                relay_parent,
                self.view_knowledge[relay_parent].after_receive(fp, max_message_count),
            )
        } else {
            self
        }
    }

    /// How many unexpected messages for a relay parent the peer has sent.
    pub open spec fn unexpected_count(self, relay_parent: BlockHash) -> usize {
        if self.tracks(relay_parent) {
            self.view_knowledge[relay_parent].unexpected_count
        } else {
            0
        }
    }

    /// The peer once it has sent one more unexpected message.
    pub open spec fn after_unexpected(self, relay_parent: BlockHash) -> PeerDataView {
        if self.tracks(relay_parent) {
            let k = self.view_knowledge[relay_parent];
            self.with_knowledge(
                relay_parent,
                KnowledgeView { unexpected_count: (k.unexpected_count + 1) as usize, ..k },
            )
        } else {
            self
        }
    }

    /// The rule that a large statement from the peer breaks: there is a limit to how many are let in,
    /// over all relay parents.
    pub open spec fn large_objection(self, relay_parent: BlockHash) -> Option<Rep> {
        if !self.tracks(relay_parent) {
            Some(Rep::CostUnexpectedStatementMissingKnowledge)
        } else if large_total(self.view_knowledge) >= MAX_LARGE_STATEMENTS_PER_SENDER {
            Some(Rep::CostApparentFlood)
        } else {
            None
        }
    }

    /// The peer once it has sent a large statement.
    pub open spec fn after_large(self, relay_parent: BlockHash) -> PeerDataView {
        if self.large_objection(relay_parent) is None {
            let k = self.view_knowledge[relay_parent];
            self.with_knowledge(
                relay_parent,
                KnowledgeView { large_statement_count: (k.large_statement_count + 1) as usize, ..k },
            )
        } else {
            self
        }
    }
}

impl View for PeerData {
    type V = PeerDataView;

    closed spec fn view(&self) -> PeerDataView {
        PeerDataView {
            view: self.view@,
            protocol_version: self.protocol_version,
            view_knowledge: self.view_knowledge@,
            maybe_authority: match self.maybe_authority {
                Some(ids) => Some(ids@),
                None => None,
            },
        }
    }
}

impl PeerData {
    /// A peer that has just connected.
    pub fn new(
        protocol_version: ValidationVersion,
        maybe_authority: Option<ListSet<AuthorityDiscoveryId>>,
    ) -> (r: Self)
        ensures
            r@ == PeerDataView::connected(
                protocol_version,
                match maybe_authority {
                    Some(ids) => Some(ids@),
                    None => None,
                },
            ),
    {
        PeerData {
            view: PeerView::new(),
            protocol_version,
            view_knowledge: ListMap::new(),
            maybe_authority,
        }
    }

    /// The version of the protocol that the peer speaks.
    pub fn protocol_version(&self) -> (r: ValidationVersion)
        ensures
            r == self@.protocol_version,
    {
        self.protocol_version
    }

    /// The authorities that the peer is known as.
    pub fn into_authority(self) -> (r: Option<ListSet<AuthorityDiscoveryId>>)
        ensures
            match r {
                Some(ids) => self@.maybe_authority == Some(ids@),
                None => self@.maybe_authority is None,
            },
    {
        self.maybe_authority
    }

    /// Sets the authorities that the peer is known as.
    pub fn set_authority(&mut self, ids: ListSet<AuthorityDiscoveryId>)
        ensures
            final(self)@ == (PeerDataView { maybe_authority: Some(ids@), ..old(self)@ }),
    {
        self.maybe_authority = Some(ids);
    }

    /// Takes the view out, and leaves one without heads. What the peer knows stays.
    pub fn take_view(&mut self) -> (r: PeerView)
        ensures
            r@ == old(self)@.view,
            final(self)@ == (PeerDataView { view: Seq::empty(), ..old(self)@ }),
    {
        let mut view = PeerView::new();
        std::mem::swap(&mut view, &mut self.view);
        view
    }

    /// Replaces the view, and gives the heads in the new view but not in the old.
    pub fn replace_view(&mut self, new_view: PeerView) -> (r: Vec<BlockHash>)
        ensures
            r@ == heads_beyond(new_view@, old(self)@.view),
            final(self)@ == old(self)@.with_view(new_view@),
    {
        let ghost known = self.view_knowledge@;
        let mut old_view = new_view;
        std::mem::swap(&mut old_view, &mut self.view);
        // Remove entries for all relay-parents in the old view but not the new.
        let removed = old_view.difference(&self.view);
        let mut i: usize = 0;
        while i < removed.len()
            invariant
                i <= removed@.len(),
                self.view@ == new_view@,
                self.protocol_version == old(self).protocol_version,
                self.maybe_authority == old(self).maybe_authority,
                forall|h: BlockHash|
                    #[trigger] self.view_knowledge@.contains_key(h) <==> known.contains_key(h)
                        && !removed@.take(i as int).contains(h),
                forall|h: BlockHash| #[trigger]
                    self.view_knowledge@.contains_key(h) ==> self.view_knowledge@[h] == known[h],
            decreases removed@.len() - i,
        {
            proof {
                assert(removed@.take(i + 1) =~= removed@.take(i as int).push(removed@[i as int]));
                assert forall|h: BlockHash|
                    #[trigger] removed@.take(i + 1).contains(h) <==> removed@.take(i as int).contains(h)
                        || h == removed@[i as int] by {
                    lemma_push_contains(removed@.take(i as int), removed@[i as int], h);
                }
            }
            let _ = self.view_knowledge.remove(&removed[i]);
            i = i + 1;
        }
        proof {
            assert(removed@.take(i as int) =~= removed@);
            heads_beyond_is_difference(old_view@, new_view@);
            assert(self@.view_knowledge =~= old(self)@.with_view(new_view@).view_knowledge);
        }
        self.view.difference(&old_view)
    }

    /// Starts to note what the peer knows about a head.
    pub fn begin_head(&mut self, head: BlockHash)
        ensures
            final(self)@ == old(self)@.with_knowledge(head, KnowledgeView::blank()),
    {
        self.view_knowledge.insert(head, PeerRelayParentKnowledge::new());
    }

    /// Whether the relay parent is in the view of the peer.
    pub fn tracks_head(&self, relay_parent: &BlockHash) -> (r: bool)
        ensures
            r == self@.tracks(*relay_parent),
    {
        self.view_knowledge.contains_key(relay_parent)
    }

    /// Updates our view of the peer's knowledge with this statement's fingerprint based
    /// on something that we would like to send to the peer.
    ///
    /// It is meant for statements for which `can_send` returned true. Once the knowledge has
    /// incorporated a statement, `can_send` does not let it be incorporated again.
    ///
    /// This returns `true` if this is the first time the peer has become aware of a
    /// candidate with the given hash.
    pub fn send(&mut self, relay_parent: &BlockHash, fingerprint: &Fingerprint) -> (r: bool)
        requires
            old(self)@.tracks(*relay_parent),
        ensures
            r == old(self)@.introduces(*relay_parent, *fingerprint),
            final(self)@ == old(self)@.after_send(*relay_parent, *fingerprint),
    {
        self.view_knowledge.get_mut(relay_parent).unwrap().send(fingerprint)
    }

    /// This returns `false` if the peer cannot accept this statement, without altering internal
    /// state.
    pub fn can_send(&self, relay_parent: &BlockHash, fingerprint: &Fingerprint) -> (r: bool)
        ensures
            r == self@.accepts(*relay_parent, *fingerprint),
    {
        match self.view_knowledge.get(relay_parent) {
            Some(k) => k.can_send(fingerprint),
            None => false,
        }
    }

    /// Attempt to update our view of the peer's knowledge with this statement's fingerprint based
    /// on a message we are receiving from the peer.
    ///
    /// Provide the maximum message count that we can receive per candidate. In practice we should
    /// not receive more statements for any one candidate than there are members in the group
    /// assigned to that para, but this maximum needs to be lenient to account for equivocations
    /// that may be cross-group. As such, a maximum of 2 * `n_validators` is recommended.
    ///
    /// This returns an error if the peer should not have sent us this message according to protocol
    /// rules for flood protection.
    ///
    /// If this returns `Ok`, the internal state has been altered. After `receive`ing a new
    /// candidate, we are then cleared to send the peer further statements about that candidate.
    ///
    /// This returns `Ok(true)` if this is the first time the peer has become aware of a
    /// candidate with given hash.
    pub fn receive(
        &mut self,
        relay_parent: &BlockHash,
        fingerprint: &Fingerprint,
        max_message_count: usize,
    ) -> (r: Result<bool, Rep>)
        ensures
            r == match old(self)@.receive_objection(*relay_parent, *fingerprint, max_message_count) {
                Some(rep) => Err::<bool, Rep>(rep),
                None => Ok(old(self)@.introduces(*relay_parent, *fingerprint)),
            },
            final(self)@ == old(self)@.after_receive(*relay_parent, *fingerprint, max_message_count),
    {
        match self.view_knowledge.get_mut(relay_parent) {
            Some(k) => k.receive(fingerprint, max_message_count),
            None => Err(Rep::CostUnexpectedStatementMissingKnowledge),
        }
    }

    /// This method does the same checks as `receive` without modifying the internal state.
    /// Returns an error if the peer should not have sent us this message according to protocol
    /// rules for flood protection.
    pub fn check_can_receive(
        &self,
        relay_parent: &BlockHash,
        fingerprint: &Fingerprint,
        max_message_count: usize,
    ) -> (r: Result<(), Rep>)
        ensures
            r == match self@.check_objection(*relay_parent, *fingerprint, max_message_count) {
                Some(rep) => Err::<(), Rep>(rep),
                None => Ok(()),
            },
    {
        match self.view_knowledge.get(relay_parent) {
            Some(k) => k.check_can_receive(fingerprint, max_message_count),
            None => Err(Rep::CostUnexpectedStatementMissingKnowledge),
        }
    }

    /// How many unexpected messages for a relay parent the peer has sent.
    pub fn unexpected_count(&self, relay_parent: &BlockHash) -> (r: usize)
        ensures
            r == self@.unexpected_count(*relay_parent),
    {
        match self.view_knowledge.get(relay_parent) {
            Some(k) => k.unexpected_count(),
            None => 0,
        }
    }

    /// Receive a notice about out of view statement and returns the value of the old flag
    pub fn receive_unexpected(&mut self, relay_parent: &BlockHash) -> (r: usize)
        requires
            old(self)@.unexpected_count(*relay_parent) < usize::MAX,
        ensures
            r == old(self)@.unexpected_count(*relay_parent),
            final(self)@ == old(self)@.after_unexpected(*relay_parent),
    {
        match self.view_knowledge.get_mut(relay_parent) {
            Some(k) => k.receive_unexpected(),
            None => 0,
        }
    }

    /// Whether as many large statements were let in from the peer, over all relay parents, as one sender
    /// may send.
    fn large_statements_used_up(&self) -> (r: bool)
        ensures
            self@.view_knowledge.dom().finite(),
            r == (large_total(self@.view_knowledge) >= MAX_LARGE_STATEMENTS_PER_SENDER),
    {
        let ghost known = self@.view_knowledge;
        let ghost keys = self.view_knowledge.keys();
        let total: usize = self.view_knowledge.len();
        proof {
            lemma_listed_total(known, keys);
        }
        let mut sum: usize = 0;
        let mut i: usize = 0;
        while i < total
            invariant
                i <= total,
                total == keys.len(),
                keys == self.view_knowledge.keys(),
                known == self.view_knowledge@,
                large_total(known) == listed_total(known, keys),
                sum < MAX_LARGE_STATEMENTS_PER_SENDER,
                sum == listed_total(known, keys.take(i as int)),
            decreases total - i,
        {
            proof {
                lemma_take_one_more(keys, i as int);
                lemma_listed_part(known, keys, i + 1);
            }
            let (_, k) = self.view_knowledge.at(i);
            let count: usize = k.large_statement_count();
            if count >= MAX_LARGE_STATEMENTS_PER_SENDER - sum {
                return true;
            }
            sum = sum + count;
            i = i + 1;
        }
        assert(keys.take(i as int) =~= keys);
        false
    }

    /// Basic flood protection for large statements.
    ///
    /// Only `MAX_LARGE_STATEMENTS_PER_SENDER` are let in from the peer in total, over all relay parents.
    pub fn receive_large_statement(&mut self, relay_parent: &BlockHash) -> (r: Result<(), Rep>)
        ensures
            r == match old(self)@.large_objection(*relay_parent) {
                Some(rep) => Err::<(), Rep>(rep),
                None => Ok(()),
            },
            final(self)@ == old(self)@.after_large(*relay_parent),
    {
        let used_up = self.large_statements_used_up();
        match self.view_knowledge.get_mut(relay_parent) {
            Some(k) => {
                proof {
                    let known = old(self)@.view_knowledge;
                    lemma_large_total_at(known, *relay_parent);
                    assert(known.insert(*relay_parent, known[*relay_parent]) =~= known);
                }
                if used_up {
                    return Err(Rep::CostApparentFlood);
                }
                k.receive_large_statement()
            },
            None => Err(Rep::CostUnexpectedStatementMissingKnowledge),
        }
    }

    /// Whether we sent the peer a statement that introduced the candidate, if the relay parent is in
    /// its view.
    pub fn was_sent_candidate(&self, relay_parent: &BlockHash, candidate: &CandidateHash) -> (r: Option<
        bool,
    >)
        ensures
            r == if self@.tracks(*relay_parent) {
                Some(self@.view_knowledge[*relay_parent].sent_candidates.contains(*candidate))
            } else {
                None
            },
    {
        match self.view_knowledge.get(relay_parent) {
            Some(k) => Some(k.was_sent_candidate(candidate)),
            None => None,
        }
    }
}

} // verus!
