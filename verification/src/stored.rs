//! The statements kept for a relay-chain head, in the order in which they came.
use crate::ids::{CandidateHash, ValidatorIndex, ValidatorSignature};
use crate::statement::{CompactStatement, Fingerprint, SignedFullStatement};
use indexmap::IndexMap;
use std::hash::RandomState;
use vstd::prelude::*;

verus! {

/// The map of the crate `indexmap`, which keeps the order of insertion.
#[verifier::external_type_specification]
#[verifier::external_body]
#[verifier::reject_recursive_types(K)]
#[verifier::reject_recursive_types(V)]
#[verifier::reject_recursive_types(S)]
pub struct ExIndexMap<K, V, S>(IndexMap<K, V, S>);

/// A value used for comparison of stored statements to each other.
///
/// The compact version of the statement, the validator index, and the signature of the validator
/// is enough to differentiate between all types of equivocations, as long as the signature is
/// actually checked to be valid. The same statement with 2 signatures and 2 statements with
/// different (or same) signatures wll all be correctly judged to be unequal with this comparator.
#[derive(Clone, Copy, PartialEq, Eq, Debug)]
pub struct StoredStatementComparator {
    pub compact: CompactStatement,
    pub validator_index: ValidatorIndex,
    pub signature: ValidatorSignature,
}

/// A comparator as a key: whether the statement is `Seconded`, the candidate, the validator and the
/// signature.
pub type StatementKey = (bool, [u8; 32], u32, [u8; 64]);

/// The comparator that a key stands for.
pub open spec fn comparator_of(key: StatementKey) -> StoredStatementComparator {
    StoredStatementComparator {
        compact: if key.0 {
            CompactStatement::Seconded(CandidateHash(key.1))
        } else {
            CompactStatement::Valid(CandidateHash(key.1))
        },
        validator_index: ValidatorIndex(key.2),
        signature: ValidatorSignature(key.3),
    }
}

impl StoredStatementComparator {
    /// The comparator as a key.
    pub open spec fn key(self) -> StatementKey {
        (self.compact is Seconded, self.compact.candidate().0, self.validator_index.0, self.signature.0)
    }

    /// The comparator as a key.
    pub fn to_key(&self) -> (r: StatementKey)
        ensures
            r == self.key(),
            comparator_of(r) == *self,
    {
        let seconded = match self.compact {
            CompactStatement::Seconded(_) => true,
            CompactStatement::Valid(_) => false,
        };
        (seconded, self.compact.candidate_hash().0, self.validator_index.0, self.signature.0)
    }

    /// The comparator that a key stands for.
    pub fn from_key(key: &StatementKey) -> (r: Self)
        ensures
            r == comparator_of(*key),
            r.key() == *key,
    {
        StoredStatementComparator {
            compact: if key.0 {
                CompactStatement::Seconded(CandidateHash(key.1))
            } else {
                CompactStatement::Valid(CandidateHash(key.1))
            },
            validator_index: ValidatorIndex(key.2),
            signature: ValidatorSignature(key.3),
        }
    }
}

/// The comparator of a statement.
pub open spec fn comparator(statement: SignedFullStatement) -> StoredStatementComparator {
    StoredStatementComparator {
        compact: statement.payload.compact(),
        validator_index: statement.validator_index,
        signature: statement.signature,
    }
}

/// What the map holds, in the order of insertion.
pub uninterp spec fn entries(
    m: IndexMap<StatementKey, SignedFullStatement, RandomState>,
) -> Seq<(StatementKey, SignedFullStatement)>;

/// Whether one of the entries has the key.
pub open spec fn has_key<K, V>(s: Seq<(K, V)>, k: K) -> bool {
    exists|i: int| 0 <= i < s.len() && (#[trigger] s[i]).0 == k
}

/// The entries with another value beside the key.
pub open spec fn with_value<K, V>(s: Seq<(K, V)>, k: K, v: V) -> Seq<(K, V)> {
    Seq::new(
        s.len(),
        |i: int|
            if s[i].0 == k {
                (k, v)
            } else {
                s[i]
            },
    )
}

/// Calls `IndexMap::new`, which gives a map that holds nothing.
#[verifier::external_body]
fn empty_entries() -> (r: IndexMap<StatementKey, SignedFullStatement>)
    ensures
        entries(r) == Seq::<(StatementKey, SignedFullStatement)>::empty(),
{
    IndexMap::new()
}

/// Calls `IndexMap::insert`. Where the key is there, its value is replaced in its place and the older
/// value is returned; otherwise key and value come last in the order, and nothing is returned.
#[verifier::external_body]
fn insert_entry(
    m: &mut IndexMap<StatementKey, SignedFullStatement>,
    k: StatementKey,
    v: SignedFullStatement,
) -> (r: Option<SignedFullStatement>)
    ensures
        r is Some <==> has_key(entries(*old(m)), k),
        r matches Some(older) ==> entries(*old(m)).contains((k, older)),
        entries(*final(m)) == (if r is Some {
            with_value(entries(*old(m)), k, v)
        } else {
            entries(*old(m)).push((k, v))
        }),
{
    m.insert(k, v)
}

/// Calls `IndexMap::contains_key`: whether the key is there.
#[verifier::external_body]
fn contains_entry(m: &IndexMap<StatementKey, SignedFullStatement>, k: &StatementKey) -> (r: bool)
    ensures
        r == has_key(entries(*m), *k),
{
    m.contains_key(k)
}

/// Calls `IndexMap::get_key_value`: the key and the value stored beside it, where the key is there.
#[verifier::external_body]
fn get_entry<'a>(m: &'a IndexMap<StatementKey, SignedFullStatement>, k: &StatementKey) -> (r: Option<
    (&'a StatementKey, &'a SignedFullStatement),
>)
    ensures
        r is Some <==> has_key(entries(*m), *k),
        r matches Some(e) ==> *e.0 == *k && entries(*m).contains((*e.0, *e.1)),
{
    m.get_key_value(k)
}

/// Calls `IndexMap::iter`, which gives the keys and the values in the order of insertion.
#[verifier::external_body]
fn iter_entries<'a>(m: &'a IndexMap<StatementKey, SignedFullStatement>) -> (r: Vec<
    (&'a StatementKey, &'a SignedFullStatement),
>)
    ensures
        r@.len() == entries(*m).len(),
        forall|i: int|
            0 <= i < r@.len() ==> *(#[trigger] r@[i]).0 == entries(*m)[i].0 && *r@[i].1 == entries(
                *m,
            )[i].1,
{
    m.iter().collect()
}

/// A statement stored while a relay chain head is active.
#[derive(Clone, Copy, Debug)]
pub struct StoredStatement<'a> {
    pub comparator: StoredStatementComparator,
    pub statement: &'a SignedFullStatement,
}

impl<'a> StoredStatement<'a> {
    /// What the statement says, with the hash of the candidate in place of its receipt.
    pub fn compact(&self) -> (r: &CompactStatement)
        ensures
            *r == self.comparator.compact,
    {
        &self.comparator.compact
    }

    /// What is stated, and by which validator.
    pub fn fingerprint(&self) -> (r: Fingerprint)
        ensures
            r == (self.comparator.compact, self.statement.validator_index),
    {
        (self.comparator.compact, self.statement.validator_index)
    }
}

/// A stored statement with its comparator.
pub type StoredEntry = (StoredStatementComparator, SignedFullStatement);

/// What a stored statement says, and which validator says it.
pub open spec fn entry_fingerprint(e: StoredEntry) -> Fingerprint {
    (e.0.compact, e.1.validator_index)
}

/// The statements kept for a head.
pub struct StatementStore {
    statements: IndexMap<StatementKey, SignedFullStatement>,
}

impl View for StatementStore {
    type V = Seq<StoredEntry>;

    closed spec fn view(&self) -> Seq<StoredEntry> {
        Seq::new(
            entries(self.statements).len(),
            |i: int| (comparator_of(entries(self.statements)[i].0), entries(self.statements)[i].1),
        )
    }
}

impl StatementStore {
    /// No statements.
    pub fn new() -> (r: Self)
        ensures
            r@ == Seq::<StoredEntry>::empty(),
    {
        let r = StatementStore { statements: empty_entries() };
        assert(r@ =~= Seq::<StoredEntry>::empty());
        r
    }

    proof fn lemma_has_key(&self, c: StoredStatementComparator)
        ensures
            has_key(self@, c) <==> has_key(entries(self.statements), c.key()),
    {
        let raw = entries(self.statements);
        if has_key(self@, c) {
            let i = choose|i: int| 0 <= i < self@.len() && (#[trigger] self@[i]).0 == c;
            assert(raw[i].0 == c.key());
        }
        if has_key(raw, c.key()) {
            let i = choose|i: int| 0 <= i < raw.len() && (#[trigger] raw[i]).0 == c.key();
            assert(self@[i].0 == c);
        }
    }

    /// Keeps a statement, behind the others if there is none with its comparator, and otherwise in
    /// the place of that one. Says whether there was one.
    pub fn insert(&mut self, c: StoredStatementComparator, statement: SignedFullStatement) -> (r: bool)
        ensures
            r == has_key(old(self)@, c),
            final(self)@ == (if r {
                with_value(old(self)@, c, statement)
            } else {
                old(self)@.push((c, statement))
            }),
    {
        proof {
            self.lemma_has_key(c);
        }
        let older = insert_entry(&mut self.statements, c.to_key(), statement);
        proof {
            let before = entries(old(self).statements);
            assert forall|i: int| 0 <= i < before.len() implies (#[trigger] before[i].0 == c.key())
                == (old(self)@[i].0 == c) by {}
            if older is Some {
                assert(self@ =~= with_value(old(self)@, c, statement));
            } else {
                assert(self@ =~= old(self)@.push((c, statement)));
            }
        }
        older.is_some()
    }

    /// Whether there is a statement with the comparator.
    pub fn contains(&self, c: &StoredStatementComparator) -> (r: bool)
        ensures
            r == has_key(self@, *c),
    {
        proof {
            self.lemma_has_key(*c);
        }
        contains_entry(&self.statements, &c.to_key())
    }

    /// The statement with the comparator.
    pub fn get(&self, c: &StoredStatementComparator) -> (r: Option<StoredStatement<'_>>)
        ensures
            r is Some <==> has_key(self@, *c),
            r matches Some(s) ==> s.comparator == *c && self@.contains((s.comparator, *s.statement)),
    {
        proof {
            self.lemma_has_key(*c);
        }
        match get_entry(&self.statements, &c.to_key()) {
            Some((k, v)) => {
                proof {
                    let raw = entries(self.statements);
                    let i = choose|i: int| 0 <= i < raw.len() && raw[i] == (*k, *v);
                    assert(self@[i] == (*c, *v));
                }
                Some(StoredStatement { comparator: StoredStatementComparator::from_key(k), statement: v })
            },
            None => None,
        }
    }

    /// All statements, in the order in which they came.
    pub fn iter(&self) -> (r: Vec<StoredStatement<'_>>)
        ensures
            r@.len() == self@.len(),
            forall|i: int|
                0 <= i < r@.len() ==> (#[trigger] r@[i]).comparator == self@[i].0 && *r@[i].statement
                    == self@[i].1,
    {
        let list = iter_entries(&self.statements);
        let mut stored: Vec<StoredStatement<'_>> = Vec::new();
        let mut i: usize = 0;
        while i < list.len()
            invariant
                i <= list@.len(),
                stored@.len() == i,
                list@.len() == entries(self.statements).len(),
                forall|j: int|
                    0 <= j < list@.len() ==> *(#[trigger] list@[j]).0 == entries(self.statements)[j].0
                        && *list@[j].1 == entries(self.statements)[j].1,
                forall|j: int|
                    0 <= j < i ==> (#[trigger] stored@[j]).comparator == self@[j].0 && *stored@[j].statement
                        == self@[j].1,
            decreases list@.len() - i,
        {
            let (k, v) = list[i];
            stored.push(
                StoredStatement { comparator: StoredStatementComparator::from_key(k), statement: v },
            );
            i = i + 1;
        }
        stored
    }
}

} // verus!
