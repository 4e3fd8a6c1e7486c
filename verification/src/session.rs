//! What is known of the backing group of this node in a session.
use crate::ids::{AuthorityDiscoveryId, Ident, PeerId, ValidatorIndex};
use crate::collections::{ListMap, lemma_take_one_more};
use vstd::prelude::*;

verus! {

/// The validators of a session and their groups, as far as sharing a statement needs them.
pub struct SessionGroups {
    /// The group that this node is in, if any.
    pub our_group: Option<usize>,
    /// The index of this node among the validators, if it is one.
    pub our_index: Option<ValidatorIndex>,
    /// The validators of each group.
    pub validator_groups: Vec<Vec<ValidatorIndex>>,
    /// The discovery key of each validator.
    pub discovery_keys: Vec<AuthorityDiscoveryId>,
}

/// The peers that the other validators of a group are, as far as they are connected, in order.
pub open spec fn members(
    group: Seq<ValidatorIndex>,
    our_index: Option<ValidatorIndex>,
    discovery_keys: Seq<AuthorityDiscoveryId>,
    authorities: Map<AuthorityDiscoveryId, PeerId>,
) -> Seq<PeerId>
    decreases group.len(),
{
    if group.len() == 0 {
        seq![]
    } else {
        let before = members(group.drop_last(), our_index, discovery_keys, authorities);
        let key = discovery_keys[group.last().0 as int];
        if our_index != Some(group.last()) && authorities.contains_key(key) {
            before.push(authorities[key])
        } else {
            before
        }
    }
}

impl SessionGroups {
    /// Whether our group exists, and each other validator in it has a discovery key.
    pub open spec fn consistent(self) -> bool {
        self.our_group matches Some(g) ==> g < self.validator_groups@.len() && forall|i: int|
            0 <= i < self.validator_groups@[g as int]@.len() && Some(
                #[trigger] self.validator_groups@[g as int]@[i],
            ) != self.our_index ==> self.validator_groups@[g as int]@[i].0 < self.discovery_keys@.len()
    }

    /// The peers that the other validators of our group are, as far as they are connected, in order.
    pub open spec fn group_peers_of(self, authorities: Map<AuthorityDiscoveryId, PeerId>) -> Seq<PeerId> {
        match self.our_group {
            Some(g) => members(
                self.validator_groups@[g as int]@,
                self.our_index,
                self.discovery_keys@,
                authorities,
            ),
            None => seq![],
        }
    }

    fn is_us(&self, index: &ValidatorIndex) -> (r: bool)
        ensures
            r == (self.our_index == Some(*index)),
    {
        match &self.our_index {
            Some(ours) => ours.same(index),
            None => false,
        }
    }

    /// Whether our group exists, and each other validator in it has a discovery key.
    pub fn is_consistent(&self) -> (r: bool)
        ensures
            r == self.consistent(),
    {
        match self.our_group {
            None => true,
            Some(g) => {
                if g >= self.validator_groups.len() {
                    return false;
                }
                let group = &self.validator_groups[g];
                let mut i: usize = 0;
                while i < group.len()
                    invariant
                        i <= group@.len(),
                        self.our_group == Some(g),
                        g < self.validator_groups@.len(),
                        *group == self.validator_groups@[g as int],
                        forall|j: int|
                            0 <= j < i && Some(#[trigger] group@[j]) != self.our_index ==> group@[j].0
                                < self.discovery_keys@.len(),
                    decreases group@.len() - i,
                {
                    if !self.is_us(&group[i]) && group[i].0 as usize >= self.discovery_keys.len() {
                        return false;
                    }
                    i = i + 1;
                }
                true
            },
        }
    }

    /// Get peers in our group, so we can make sure they get our statement directly.
    pub fn group_peers(&self, authorities: &ListMap<AuthorityDiscoveryId, PeerId>) -> (r: Vec<PeerId>)
        requires
            self.consistent(),
        ensures
            r@ == self.group_peers_of(authorities@),
    {
        let mut peers: Vec<PeerId> = Vec::new();
        if let Some(g) = self.our_group {
            let group = &self.validator_groups[g];
            let mut i: usize = 0;
            while i < group.len()
                invariant
                    i <= group@.len(),
                    self.consistent(),
                    self.our_group == Some(g),
                    *group == self.validator_groups@[g as int],
                    peers@ == members(
                        group@.take(i as int),
                        self.our_index,
                        self.discovery_keys@,
                        authorities@,
                    ),
                decreases group@.len() - i,
            {
                proof {
                    lemma_take_one_more(group@, i as int);
                }
                if !self.is_us(&group[i]) {
                    let authority_id = &self.discovery_keys[group[i].0 as usize];
                    if let Some(peer) = authorities.get(authority_id) {
                        peers.push(*peer);
                    }
                }
                i = i + 1;
            }
            assert(group@.take(i as int) =~= group@);
        }
        peers
    }
}

} // verus!
