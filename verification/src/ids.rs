//! Identifiers: block and candidate hashes, peers, validators and parachains.
use vstd::prelude::*;

verus! {

/// A value that identifies something: it can be compared for identity, and copied.
pub trait Ident: Sized {
    fn same(&self, other: &Self) -> (r: bool)
        ensures
            r == (*self == *other),
    ;

    fn dup(&self) -> (r: Self)
        ensures
            r == *self,
    ;
}

/// Whether two byte arrays hold the same bytes.
pub fn same_bytes<const N: usize>(a: &[u8; N], b: &[u8; N]) -> (r: bool)
    ensures
        r == (*a == *b),
{
    let mut i: usize = 0;
    while i < N
        invariant
            i <= N,
            forall|j: int| 0 <= j < i ==> a@[j] == b@[j],
        decreases N - i,
    {
        if a[i] != b[i] {
            return false;
        }
        i = i + 1;
    }
    assert(*a =~= *b);
    true
}

/// The hash of a relay-chain block.
#[derive(Clone, Copy, PartialEq, Eq, Debug)]
pub struct BlockHash(pub [u8; 32]);

impl Ident for BlockHash {
    fn same(&self, other: &Self) -> (r: bool) {
        same_bytes(&self.0, &other.0)
    }

    fn dup(&self) -> (r: Self) {
        *self
    }
}

/// The hash of a candidate receipt.
#[derive(Clone, Copy, PartialEq, Eq, Debug)]
pub struct CandidateHash(pub [u8; 32]);

impl Ident for CandidateHash {
    fn same(&self, other: &Self) -> (r: bool) {
        same_bytes(&self.0, &other.0)
    }

    fn dup(&self) -> (r: Self) {
        *self
    }
}

/// The identity of a peer on the network: the bytes that encode its multihash, and how many they are. All
/// bytes tell peers apart; `from_bytes` makes those beyond zero.
#[derive(Clone, Copy, PartialEq, Eq, Debug)]
pub struct PeerId {
    pub len: u8,
    pub bytes: [u8; 76],
}

impl PeerId {
    /// The identity that bytes encode. There is room for 76 of them.
    pub fn from_bytes(encoded: &Vec<u8>) -> (r: Option<PeerId>)
        ensures
            match r {
                Some(peer) => encoded@.len() <= 76 && peer.len == encoded@.len() && forall|i: int|
                    0 <= i < 76 ==> #[trigger] peer.bytes@[i] == if i < encoded@.len() {
                        encoded@[i]
                    } else {
                        0
                    },
                None => encoded@.len() > 76,
            },
    {
        if encoded.len() > 76 {
            return None;
        }
        let mut bytes: [u8; 76] = [0u8; 76];
        let mut i: usize = 0;
        while i < encoded.len()
            invariant
                i <= encoded@.len() <= 76,
                forall|j: int|
                    0 <= j < 76 ==> #[trigger] bytes@[j] == if j < i {
                        encoded@[j]
                    } else {
                        0
                    },
            decreases encoded@.len() - i,
        {
            bytes[i] = encoded[i];
            i = i + 1;
        }
        Some(PeerId { len: encoded.len() as u8, bytes })
    }
}

impl Ident for PeerId {
    fn same(&self, other: &Self) -> (r: bool) {
        self.len == other.len && same_bytes(&self.bytes, &other.bytes)
    }

    fn dup(&self) -> (r: Self) {
        *self
    }
}

impl View for PeerId {
    type V = PeerId;

    open spec fn view(&self) -> PeerId {
        *self
    }
}

/// The public key by which an authority is discovered on the network.
#[derive(Clone, Copy, PartialEq, Eq, Debug)]
pub struct AuthorityDiscoveryId(pub [u8; 32]);

impl Ident for AuthorityDiscoveryId {
    fn same(&self, other: &Self) -> (r: bool) {
        same_bytes(&self.0, &other.0)
    }

    fn dup(&self) -> (r: Self) {
        *self
    }
}

/// The place of a validator in the validator set of a session.
#[derive(Clone, Copy, PartialEq, Eq, Debug)]
pub struct ValidatorIndex(pub u32);

impl Ident for ValidatorIndex {
    fn same(&self, other: &Self) -> (r: bool) {
        self.0 == other.0
    }

    fn dup(&self) -> (r: Self) {
        *self
    }
}

/// The public key with which a validator signs statements.
#[derive(Clone, Copy, PartialEq, Eq, Debug)]
pub struct ValidatorId(pub [u8; 32]);

/// The signature of a validator under a statement.
#[derive(Clone, Copy, PartialEq, Eq, Debug)]
pub struct ValidatorSignature(pub [u8; 64]);

/// The identifier of a parachain.
#[derive(Clone, Copy, PartialEq, Eq, Debug)]
pub struct ParaId(pub u32);

impl Ident for ParaId {
    fn same(&self, other: &Self) -> (r: bool) {
        self.0 == other.0
    }

    fn dup(&self) -> (r: Self) {
        *self
    }
}

/// The number of a session.
pub type SessionIndex = u32;

} // verus!
