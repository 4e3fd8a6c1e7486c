//! What is known at an active relay-chain head.
use crate::collections::{ListMap, ListSet};
use crate::error::{Error, RuntimeFailure, ValidationDataAnswer};
use crate::fetching::{LargeStatementStatus, StatusView};
use crate::ids::{BlockHash, CandidateHash, Ident, ParaId, SessionIndex, ValidatorId, ValidatorIndex};
use crate::statement::{
    CompactStatement, PersistedValidationData, SignedFullStatement, SignedStatement,
    UncheckedSignedStatement,
};
use crate::stored::{
    StatementStore, StoredEntry, StoredStatement, StoredStatementComparator, comparator, has_key,
    with_value,
};
use crate::tracker::VC_THRESHOLD;
use vstd::prelude::*;

verus! {

/// The parachain validators of a session.
pub struct ValidatorSet {
    keys: Vec<ValidatorId>,
}

impl View for ValidatorSet {
    type V = Seq<ValidatorId>;

    closed spec fn view(&self) -> Seq<ValidatorId> {
        self.keys@
    }
}

impl ValidatorSet {
    #[verifier::type_invariant]
    spec fn well_formed(&self) -> bool {
        self.keys@.len() * 2 <= usize::MAX
    }

    /// The validators with the given keys, in the order of their indices.
    pub fn new(keys: Vec<ValidatorId>) -> (r: Self)
        requires
            keys@.len() * 2 <= usize::MAX,
        ensures
            r@ == keys@,
    {
        ValidatorSet { keys }
    }

    /// The key of a validator.
    pub fn get(&self, index: ValidatorIndex) -> (r: Option<&ValidatorId>)
        ensures
            match r {
                Some(key) => index.0 < self@.len() && *key == self@[index.0 as int],
                None => index.0 >= self@.len(),
            },
    {
        let i: usize = index.0 as usize;
        if i < self.keys.len() {
            Some(&self.keys[i])
        } else {
            None
        }
    }

    /// How many statements about one candidate a peer may send.
    pub fn max_message_count(&self) -> (r: usize)
        ensures
            r == self@.len() * 2,
    {
        proof {
            use_type_invariant(self);
        }
        self.keys.len() * 2
    }
}

/// What became of a statement that was noted.
#[derive(Debug)]
pub enum NotedStatement<'a> {
    NotUseful,
    Fresh(StoredStatement<'a>),
    UsefulButKnown,
}

/// Why a statement is not taken.
#[derive(Clone, Copy, PartialEq, Eq, Structural, Debug)]
pub enum DeniedStatement {
    NotUseful,
    UsefulButKnown,
}

/// What is known at an active relay-chain head.
pub struct ActiveHeadData {
    /// All candidates we are aware of for this head, keyed by hash.
    candidates: ListSet<CandidateHash>,
    /// Persisted validation data cache.
    cached_validation_data: ListMap<ParaId, PersistedValidationData>,
    /// Stored statements for circulation to peers.
    ///
    /// These are iterable in insertion order, and `Seconded` statements are always
    /// accepted before dependent statements.
    statements: StatementStore,
    /// Large statements we are waiting for with associated meta data.
    waiting_large_statements: ListMap<CandidateHash, LargeStatementStatus>,
    /// The parachain validators at the head's child session index.
    validators: ValidatorSet,
    /// The current session index of this fork.
    session_index: SessionIndex,
    /// How many `Seconded` statements we've seen per validator.
    seconded_counts: ListMap<ValidatorIndex, usize>,
}

/// What is known at a head, as sequences, sets and maps.
#[verifier::ext_equal]
pub struct HeadView {
    pub candidates: Set<CandidateHash>,
    pub cached_validation_data: Map<ParaId, PersistedValidationData>,
    pub statements: Seq<StoredEntry>,
    pub waiting_large_statements: Map<CandidateHash, StatusView>,
    pub validators: Seq<ValidatorId>,
    pub session_index: SessionIndex,
    pub seconded_counts: Map<ValidatorIndex, usize>,
}

/// The statements that are about a candidate, in order.
pub open spec fn entries_about(s: Seq<StoredEntry>, h: CandidateHash) -> Seq<StoredEntry>
    decreases s.len(),
{
    if s.len() == 0 {
        seq![]
    } else {
        let before = entries_about(s.drop_last(), h);
        if s.last().0.compact.candidate() == h {
            before.push(s.last())
        } else {
            before
        }
    }
}

impl HeadView {
    /// A head at which nothing was said yet.
    pub open spec fn blank(validators: Seq<ValidatorId>, session_index: SessionIndex) -> HeadView {
        HeadView {
            candidates: Set::empty(),
            cached_validation_data: Map::empty(),
            statements: Seq::empty(),
            waiting_large_statements: Map::empty(),
            validators,
            session_index,
            seconded_counts: Map::empty(),
        }
    }

    /// How many statements about one candidate a peer may send.
    pub open spec fn max_message_count(self) -> usize {
        (self.validators.len() * 2) as usize
    }

    /// The validation data of a parachain, if it is in the cache.
    pub open spec fn validation_data(self, para_id: ParaId) -> Option<PersistedValidationData> {
        if self.cached_validation_data.contains_key(para_id) {
            Some(self.cached_validation_data[para_id])
        } else {
            None
        }
    }

    /// The head once the runtime was asked for validation data. What is in the cache stays, and only
    /// data that was given is added.
    pub open spec fn with_validation_data<E>(
        self,
        para_id: ParaId,
        answer: ValidationDataAnswer<E>,
    ) -> HeadView {
        match answer {
            Ok(Some(pvd)) if self.validation_data(para_id) is None => HeadView {
                cached_validation_data: self.cached_validation_data.insert(para_id, pvd),
                ..self
            },
            _ => self,
        }
    }

    /// The validation data of a parachain that is in the cache or that the runtime gave, or why there is
    /// none.
    pub open spec fn fetched_validation_data<E>(
        self,
        para_id: ParaId,
        answer: ValidationDataAnswer<E>,
    ) -> Result<Option<PersistedValidationData>, Error<E>> {
        match (self.validation_data(para_id), answer) {
            (Some(pvd), _) => Ok(Some(pvd)),
            (None, Ok(given)) => Ok(given),
            (None, Err(RuntimeFailure::NoAnswer)) => Err(Error::RuntimeApiUnavailable),
            (None, Err(RuntimeFailure::Failed(e))) => Err(
                Error::FetchPersistedValidationData(para_id, e),
            ),
        }
    }

    /// The head with another status of the large statement about a candidate.
    pub open spec fn with_status(self, h: CandidateHash, status: StatusView) -> HeadView {
        HeadView {
            waiting_large_statements: self.waiting_large_statements.insert(h, status),
            ..self
        }
    }

    /// How many candidates a validator has seconded.
    pub open spec fn seconded_by(self, v: ValidatorIndex) -> usize {
        if self.seconded_counts.contains_key(v) {
            self.seconded_counts[v]
        } else {
            0
        }
    }

    /// Why a statement is not taken: a `Seconded` statement beyond the threshold of its validator or a
    /// `Valid` statement about a candidate that nobody has seconded is not useful; and one that is
    /// stored is known.
    pub open spec fn denial(self, c: StoredStatementComparator) -> Option<DeniedStatement> {
        let useful = match c.compact {
            CompactStatement::Seconded(_) => self.seconded_by(c.validator_index) < VC_THRESHOLD,
            CompactStatement::Valid(h) => self.candidates.contains(h),
        };
        if !useful {
            Some(DeniedStatement::NotUseful)
        } else if has_key(self.statements, c) {
            Some(DeniedStatement::UsefulButKnown)
        } else {
            None
        }
    }

    /// The head once a statement was noted.
    pub open spec fn after_note(self, statement: SignedFullStatement) -> HeadView {
        let c = comparator(statement);
        let v = statement.validator_index;
        let denial = self.denial(c);
        HeadView {
            candidates: if c.compact is Seconded && denial != Some(DeniedStatement::NotUseful) {
                self.candidates.insert(c.compact.candidate())
            } else {
                self.candidates
            },
            statements: match denial {
                None => self.statements.push((c, statement)),
                Some(DeniedStatement::UsefulButKnown) => with_value(self.statements, c, statement),
                Some(DeniedStatement::NotUseful) => self.statements,
            },
            seconded_counts: if c.compact is Seconded {
                self.seconded_counts.insert(
                    v,
                    if denial is None {
                        (self.seconded_by(v) + 1) as usize
                    } else {
                        self.seconded_by(v)
                    },
                )
            } else {
                self.seconded_counts
            },
            ..self
        }
    }

    /// Whether a statement has the signature of the validator that it names.
    pub open spec fn authentic(self, relay_parent: BlockHash, s: UncheckedSignedStatement) -> bool {
        s.validator_index.0 < self.validators.len() && s.signed_by(
            self.session_index,
            relay_parent,
            self.validators[s.validator_index.0 as int],
        )
    }
}

impl View for ActiveHeadData {
    type V = HeadView;

    closed spec fn view(&self) -> HeadView {
        HeadView {
            candidates: self.candidates@,
            cached_validation_data: self.cached_validation_data@,
            statements: self.statements@,
            waiting_large_statements: self.waiting_large_statements@,
            validators: self.validators@,
            session_index: self.session_index,
            seconded_counts: self.seconded_counts@,
        }
    }
}

impl ActiveHeadData {
    /// A head at which nothing was said yet.
    pub fn new(validators: ValidatorSet, session_index: SessionIndex) -> (r: Self)
        ensures
            r@ == HeadView::blank(validators@, session_index),
    {
        ActiveHeadData {
            candidates: ListSet::new(),
            cached_validation_data: ListMap::new(),
            statements: StatementStore::new(),
            waiting_large_statements: ListMap::new(),
            validators,
            session_index,
            seconded_counts: ListMap::new(),
        }
    }

    /// The session of the child of the head.
    pub fn session_index(&self) -> (r: SessionIndex)
        ensures
            r == self@.session_index,
    {
        self.session_index
    }

    /// The key of a validator of the session.
    pub fn validator(&self, index: ValidatorIndex) -> (r: Option<ValidatorId>)
        ensures
            r == if index.0 < self@.validators.len() {
                Some(self@.validators[index.0 as int])
            } else {
                None
            },
    {
        match self.validators.get(index) {
            Some(key) => Some(*key),
            None => None,
        }
    }

    /// The validation data of a parachain, if it is in the cache.
    pub fn cached_validation_data(&self, para_id: ParaId) -> (r: Option<PersistedValidationData>)
        ensures
            r == self@.validation_data(para_id),
    {
        match self.cached_validation_data.get(&para_id) {
            Some(pvd) => Some(pvd.clone()),
            None => None,
        }
    }

    /// The validation data of a parachain. If it is not in the cache, it is what the runtime answered for
    /// this head, which is put there.
    ///
    /// Gives `None` if nothing is there and the runtime has nothing either.
    pub fn fetch_persisted_validation_data<E>(
        &mut self,
        para_id: ParaId,
        answer: ValidationDataAnswer<E>,
    ) -> (r: Result<Option<PersistedValidationData>, Error<E>>)
        ensures
            r == old(self)@.fetched_validation_data(para_id, answer),
            final(self)@ == old(self)@.with_validation_data(para_id, answer),
    {
        if !self.cached_validation_data.contains_key(&para_id) {
            match answer {
                Ok(Some(pvd)) => self.cached_validation_data.insert(para_id, pvd),
                Ok(None) => return Ok(None),
                Err(RuntimeFailure::NoAnswer) => return Err(Error::RuntimeApiUnavailable),
                Err(RuntimeFailure::Failed(e)) => {
                    return Err(Error::FetchPersistedValidationData(para_id, e));
                },
            }
        }
        Ok(self.cached_validation_data(para_id))
    }

    /// How many statements about one candidate a peer may send.
    pub fn max_message_count(&self) -> (r: usize)
        ensures
            r == self@.max_message_count(),
    {
        self.validators.max_message_count()
    }

    /// The status of the large statement about a candidate.
    pub fn large_statement(&self, h: &CandidateHash) -> (r: Option<&LargeStatementStatus>)
        ensures
            match r {
                Some(status) => self@.waiting_large_statements.contains_key(*h) && status@
                    == self@.waiting_large_statements[*h],
                None => !self@.waiting_large_statements.contains_key(*h),
            },
    {
        self.waiting_large_statements.get(h)
    }

    /// The status of the large statement about a candidate, for changing it in place.
    pub(crate) fn large_statement_mut(&mut self, h: &CandidateHash) -> (r: Option<&mut LargeStatementStatus>)
        ensures
            match r {
                Some(status) => old(self)@.waiting_large_statements.contains_key(*h) && status@
                    == old(self)@.waiting_large_statements[*h] && final(self)@
                    == old(self)@.with_status(*h, final(status)@),
                None => !old(self)@.waiting_large_statements.contains_key(*h) && final(self)@
                    == old(self)@,
            },
    {
        self.waiting_large_statements.get_mut(h)
    }

    /// Sets the status of the large statement about a candidate.
    pub(crate) fn set_large_statement(&mut self, h: CandidateHash, status: LargeStatementStatus)
        ensures
            final(self)@ == old(self)@.with_status(h, status@),
    {
        self.waiting_large_statements.insert(h, status);
    }

    /// Takes the status of the large statement about a candidate out.
    pub(crate) fn take_large_statement(&mut self, h: &CandidateHash) -> (r: Option<LargeStatementStatus>)
        ensures
            match r {
                Some(status) => old(self)@.waiting_large_statements.contains_key(*h) && status@
                    == old(self)@.waiting_large_statements[*h],
                None => !old(self)@.waiting_large_statements.contains_key(*h),
            },
            final(self)@ == (HeadView {
                waiting_large_statements: old(self)@.waiting_large_statements.remove(*h),
                ..old(self)@
            }),
    {
        self.waiting_large_statements.remove(h)
    }

    /// Note the given statement.
    ///
    /// If it was not already known and can be accepted,  returns `NotedStatement::Fresh`,
    /// with a handle to the statement.
    ///
    /// If it can be accepted, but we already know it, returns `NotedStatement::UsefulButKnown`.
    ///
    /// We accept up to `VC_THRESHOLD` (2 at time of writing) `Seconded` statements
    /// per validator. These will be the first ones we see. The statement is assumed
    /// to have been checked, including that the validator index is not out-of-bounds and
    /// the signature is valid.
    ///
    /// Any other statements or those that reference a candidate we are not aware of cannot be
    /// accepted and will return `NotedStatement::NotUseful`.
    pub fn note_statement(&mut self, statement: SignedFullStatement) -> (r: NotedStatement<'_>)
        ensures
            match old(self)@.denial(comparator(statement)) {
                Some(DeniedStatement::NotUseful) => r is NotUseful,
                Some(DeniedStatement::UsefulButKnown) => r is UsefulButKnown,
                None => r matches NotedStatement::Fresh(s) && s.comparator == comparator(statement)
                    && *s.statement == statement,
            },
            final(self)@ == old(self)@.after_note(statement),
    {
        let validator_index = statement.validator_index;
        let ghost noted = statement;
        let c = StoredStatementComparator {
            compact: statement.payload.to_compact(),
            validator_index,
            signature: statement.signature,
        };
        match c.compact {
            CompactStatement::Seconded(h) => {
                let seconded_so_far = self.seconded_counts.get_or_insert(&validator_index, 0);
                if *seconded_so_far >= VC_THRESHOLD {
                    return NotedStatement::NotUseful;
                }
                self.candidates.insert(h);
                if self.statements.insert(c, statement) {
                    NotedStatement::UsefulButKnown
                } else {
                    *seconded_so_far = *seconded_so_far + 1;
                    proof {
                        lemma_pushed(old(self)@.statements, c, noted);
                    }
                    // This will always return `Some` because it was just inserted.
                    NotedStatement::Fresh(self.statements.get(&c).unwrap())
                }
            },
            CompactStatement::Valid(h) => {
                if !self.candidates.contains(&h) {
                    return NotedStatement::NotUseful;
                }
                if self.statements.insert(c, statement) {
                    NotedStatement::UsefulButKnown
                } else {
                    proof {
                        lemma_pushed(old(self)@.statements, c, noted);
                    }
                    // This will always return `Some` because it was just inserted.
                    NotedStatement::Fresh(self.statements.get(&c).unwrap())
                }
            },
        }
    }

    /// Returns an error if the statement is already known or not useful
    /// without modifying the internal state.
    pub fn check_useful_or_unknown(&self, statement: &UncheckedSignedStatement) -> (r: Result<
        (),
        DeniedStatement,
    >)
        ensures
            r == match self@.denial(
                StoredStatementComparator {
                    compact: statement.payload,
                    validator_index: statement.validator_index,
                    signature: statement.signature,
                },
            ) {
                Some(denied) => Err::<(), DeniedStatement>(denied),
                None => Ok(()),
            },
    {
        let validator_index = statement.validator_index;
        let c = StoredStatementComparator {
            compact: statement.payload,
            validator_index,
            signature: statement.signature,
        };
        match statement.payload {
            CompactStatement::Seconded(_) => {
                let seconded_so_far: usize = match self.seconded_counts.get(&validator_index) {
                    Some(count) => *count,
                    None => 0,
                };
                if seconded_so_far >= VC_THRESHOLD {
                    return Err(DeniedStatement::NotUseful);
                }
                if self.statements.contains(&c) {
                    return Err(DeniedStatement::UsefulButKnown);
                }
            },
            CompactStatement::Valid(h) => {
                if !self.candidates.contains(&h) {
                    return Err(DeniedStatement::NotUseful);
                }
                if self.statements.contains(&c) {
                    return Err(DeniedStatement::UsefulButKnown);
                }
            },
        }
        Ok(())
    }

    /// All statements for the active head, in the order in which they came. A statement about a
    /// candidate comes behind one that seconds it.
    pub fn statements(&self) -> (r: Vec<StoredStatement<'_>>)
        ensures
            r@.len() == self@.statements.len(),
            forall|i: int|
                0 <= i < r@.len() ==> (#[trigger] r@[i]).comparator == self@.statements[i].0
                    && *r@[i].statement == self@.statements[i].1,
    {
        self.statements.iter()
    }

    /// All statements for the active head that are for a particular candidate.
    pub fn statements_about(&self, candidate_hash: CandidateHash) -> (r: Vec<StoredStatement<'_>>)
        ensures
            r@.len() == entries_about(self@.statements, candidate_hash).len(),
            forall|i: int|
                0 <= i < r@.len() ==> (#[trigger] r@[i]).comparator == entries_about(
                    self@.statements,
                    candidate_hash,
                )[i].0 && *r@[i].statement == entries_about(self@.statements, candidate_hash)[i].1,
    {
        let all = self.statements();
        let ghost s = self@.statements;
        let mut about: Vec<StoredStatement<'_>> = Vec::new();
        let mut i: usize = 0;
        while i < all.len()
            invariant
                i <= all@.len(),
                all@.len() == s.len(),
                forall|j: int|
                    0 <= j < all@.len() ==> (#[trigger] all@[j]).comparator == s[j].0
                        && *all@[j].statement == s[j].1,
                about@.len() == entries_about(s.take(i as int), candidate_hash).len(),
                forall|j: int|
                    0 <= j < about@.len() ==> (#[trigger] about@[j]).comparator == entries_about(
                        s.take(i as int),
                        candidate_hash,
                    )[j].0 && *about@[j].statement == entries_about(s.take(i as int), candidate_hash)[j].1,
            decreases all@.len() - i,
        {
            assert(s.take(i + 1).drop_last() =~= s.take(i as int));
            if all[i].compact().candidate_hash().same(&candidate_hash) {
                about.push(all[i]);
            }
            i = i + 1;
        }
        assert(s.take(i as int) =~= s);
        about
    }
}

proof fn lemma_pushed(s: Seq<StoredEntry>, c: StoredStatementComparator, statement: SignedFullStatement)
    requires
        !has_key(s, c),
    ensures
        has_key(s.push((c, statement)), c),
        forall|x: SignedFullStatement|
            #[trigger] s.push((c, statement)).contains((c, x)) ==> x == statement,
{
    let t = s.push((c, statement));
    assert(t[s.len() as int].0 == c);
    assert forall|x: SignedFullStatement| #[trigger] t.contains((c, x)) implies x == statement by {
        let i = choose|i: int| 0 <= i < t.len() && t[i] == (c, x);
        if i < s.len() {
            assert(s[i].0 == c);
        }
    }
}

/// Check a statement signature under this parent hash.
pub fn check_statement_signature(
    head: &ActiveHeadData,
    relay_parent: BlockHash,
    statement: UncheckedSignedStatement,
) -> (r: Result<SignedStatement, UncheckedSignedStatement>)
    ensures
        r == if head@.authentic(relay_parent, statement) {
            Ok::<SignedStatement, UncheckedSignedStatement>(statement.trusted())
        } else {
            Err(statement)
        },
{
    match head.validators.get(statement.validator_index) {
        Some(key) => statement.try_into_checked(head.session_index, &relay_parent, key),
        None => Err(statement),
    }
}

} // verus!
