//! What holds of the peers that are in our group.
use crate::collections::lemma_push_contains;
use crate::ids::{AuthorityDiscoveryId, PeerId, ValidatorIndex};
use crate::session::{SessionGroups, members};
use vstd::prelude::*;

verus! {

/// Whether a peer is known as the authority of a validator in a group, and the validator is not us.
pub open spec fn is_other_member(
    group: Seq<ValidatorIndex>,
    our_index: Option<ValidatorIndex>,
    discovery_keys: Seq<AuthorityDiscoveryId>,
    authorities: Map<AuthorityDiscoveryId, PeerId>,
    peer: PeerId,
) -> bool {
    exists|i: int|
        0 <= i < group.len() && our_index != Some(#[trigger] group[i]) && authorities.contains_key(
            discovery_keys[group[i].0 as int],
        ) && authorities[discovery_keys[group[i].0 as int]] == peer
}

/// The peers of a group are those of its first part and behind them those of the rest, wherever it is
/// parted. A group of one validator has the peer that the validator's discovery key is mapped to, unless
/// the validator is us or the key is not mapped.
pub proof fn group_is_made_of_its_parts(
    group: Seq<ValidatorIndex>,
    rest: Seq<ValidatorIndex>,
    one: ValidatorIndex,
    our_index: Option<ValidatorIndex>,
    discovery_keys: Seq<AuthorityDiscoveryId>,
    authorities: Map<AuthorityDiscoveryId, PeerId>,
)
    ensures
        members(group + rest, our_index, discovery_keys, authorities) == members(
            group,
            our_index,
            discovery_keys,
            authorities,
        ) + members(rest, our_index, discovery_keys, authorities),
        our_index == Some(one) ==> members(seq![one], our_index, discovery_keys, authorities).len() == 0,
        !authorities.contains_key(discovery_keys[one.0 as int]) ==> members(
            seq![one],
            our_index,
            discovery_keys,
            authorities,
        ).len() == 0,
        our_index != Some(one) && authorities.contains_key(discovery_keys[one.0 as int]) ==> members(
            seq![one],
            our_index,
            discovery_keys,
            authorities,
        ) == seq![authorities[discovery_keys[one.0 as int]]],
    decreases rest.len(),
{
    let all = group + rest;
    if rest.len() == 0 {
        assert(all =~= group);
    } else {
        assert(all.drop_last() =~= group + rest.drop_last());
        group_is_made_of_its_parts(
            group,
            rest.drop_last(),
            one,
            our_index,
            discovery_keys,
            authorities,
        );
        assert(members(all, our_index, discovery_keys, authorities) =~= members(
            group,
            our_index,
            discovery_keys,
            authorities,
        ) + members(rest, our_index, discovery_keys, authorities));
    }
    assert(seq![one].drop_last() =~= Seq::empty());
    assert(members(seq![one].drop_last(), our_index, discovery_keys, authorities) =~= Seq::empty());
    assert(members(seq![one], our_index, discovery_keys, authorities).len() <= 1);
}

proof fn lemma_members(
    group: Seq<ValidatorIndex>,
    our_index: Option<ValidatorIndex>,
    discovery_keys: Seq<AuthorityDiscoveryId>,
    authorities: Map<AuthorityDiscoveryId, PeerId>,
    peer: PeerId,
)
    ensures
        members(group, our_index, discovery_keys, authorities).contains(peer) <==> is_other_member(
            group,
            our_index,
            discovery_keys,
            authorities,
            peer,
        ),
    decreases group.len(),
{
    if group.len() > 0 {
        let front = group.drop_last();
        let last = group.last();
        let key = discovery_keys[last.0 as int];
        let before = members(front, our_index, discovery_keys, authorities);
        lemma_members(front, our_index, discovery_keys, authorities, peer);
        lemma_push_contains(before, authorities[key], peer);
        assert(group[group.len() - 1] == last);
        if is_other_member(front, our_index, discovery_keys, authorities, peer) {
            let i = choose|i: int|
                0 <= i < front.len() && our_index != Some(#[trigger] front[i])
                    && authorities.contains_key(discovery_keys[front[i].0 as int])
                    && authorities[discovery_keys[front[i].0 as int]] == peer;
            assert(group[i] == front[i]);
        }
        if is_other_member(group, our_index, discovery_keys, authorities, peer) {
            let i = choose|i: int|
                0 <= i < group.len() && our_index != Some(#[trigger] group[i])
                    && authorities.contains_key(discovery_keys[group[i].0 as int])
                    && authorities[discovery_keys[group[i].0 as int]] == peer;
            if i < front.len() {
                assert(front[i] == group[i]);
            }
        }
    }
}

/// A peer is among those of our group if and only if a member of our group other than us has a discovery
/// key that is mapped to the peer, whatever the order of the indices. Outside of any group there are none.
pub proof fn group_peers_are_the_other_members(
    groups: SessionGroups,
    authorities: Map<AuthorityDiscoveryId, PeerId>,
    peer: PeerId,
)
    requires
        groups.consistent(),
    ensures
        groups.our_group is None ==> groups.group_peers_of(authorities).len() == 0,
        groups.our_group matches Some(g) ==> (groups.group_peers_of(authorities).contains(peer)
            <==> is_other_member(
            groups.validator_groups@[g as int]@,
            groups.our_index,
            groups.discovery_keys@,
            authorities,
            peer,
        )),
{
    if let Some(g) = groups.our_group {
        lemma_members(
            groups.validator_groups@[g as int]@,
            groups.our_index,
            groups.discovery_keys@,
            authorities,
            peer,
        );
    }
}

/// Groups are consistent without a group of ours. With one, they are consistent if and only if there is
/// such a group and each of its members other than us has a discovery key.
pub proof fn consistent_groups_have_keys_for_all_others(groups: SessionGroups)
    ensures
        groups.our_group is None ==> groups.consistent(),
        groups.our_group matches Some(g) ==> (groups.consistent() <==> {
            &&& g < groups.validator_groups@.len()
            &&& forall|v: ValidatorIndex| #[trigger]
                groups.validator_groups@[g as int]@.contains(v) && groups.our_index != Some(v) ==> v.0
                    < groups.discovery_keys@.len()
        }),
{
    if let Some(g) = groups.our_group {
        let group = groups.validator_groups@[g as int]@;
        assert forall|i: int| 0 <= i < group.len() implies group.contains(#[trigger] group[i]) by {}
    }
}

} // verus!
