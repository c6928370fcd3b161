//! Staked-list generations: each stake or unstake builds a new list from the
//! current one.
use vstd::prelude::*;
use vstd::multiset::Multiset;
use crate::types::Pubkey;

verus! {

broadcast use vstd::seq_lib::group_to_multiset_ensures;

/// The identities that a list of keys holds, in order.
pub open spec fn staked_keys(s: Seq<Pubkey>) -> Seq<Seq<u8>> {
    s.map_values(|k: Pubkey| k@)
}

/// Whether `list` holds `key`.
pub fn list_contains(list: &Vec<Pubkey>, key: &Pubkey) -> (r: bool)
    ensures
        r == staked_keys(list@).contains(key@),
{
    let mut i: usize = 0;
    while i < list.len()
        invariant
            i <= list@.len(),
            forall|j: int| 0 <= j < i ==> list@[j]@ != key@,
        decreases list@.len() - i,
    {
        if list[i] == *key {
            assert(staked_keys(list@)[i as int] == key@);
            return true;
        }
        i = i + 1;
    }
    assert(!staked_keys(list@).contains(key@)) by {
        if staked_keys(list@).contains(key@) {
            let j = choose|j: int| 0 <= j < staked_keys(list@).len() && staked_keys(list@)[j] == key@;
            assert(list@[j]@ == key@);
        }
    }
    false
}

/// A new list: the entries of `list` in order, then `key`.
pub fn with_appended(list: &Vec<Pubkey>, key: Pubkey) -> (r: Vec<Pubkey>)
    ensures
        r@ == list@.push(key),
        staked_keys(r@) == staked_keys(list@).push(key@),
{
    let mut out: Vec<Pubkey> = Vec::new();
    let mut i: usize = 0;
    while i < list.len()
        invariant
            i <= list@.len(),
            out@ == list@.subrange(0, i as int),
        decreases list@.len() - i,
    {
        out.push(list[i]);
        i = i + 1;
        assert(out@ =~= list@.subrange(0, i as int));
    }
    assert(out@ =~= list@);
    out.push(key);
    assert(staked_keys(out@) =~= staked_keys(list@).push(key@));
    out
}

/// A new list: the entries of `list` in order, less the first one equal to `key`.
pub fn without_first(list: &Vec<Pubkey>, key: &Pubkey) -> (r: Vec<Pubkey>)
    ensures
        staked_keys(r@) == staked_keys(list@).remove_value(key@),
{
    let ghost keys = staked_keys(list@);
    let mut out: Vec<Pubkey> = Vec::new();
    let mut found = false;
    let ghost mut at: int = 0;
    let mut i: usize = 0;
    while i < list.len()
        invariant
            keys == staked_keys(list@),
            i <= list@.len(),
            !found ==> forall|j: int| 0 <= j < i ==> keys[j] != key@,
            !found ==> staked_keys(out@) == keys.subrange(0, i as int),
            found ==> 0 <= at < i && keys[at] == key@ && (forall|j: int| 0 <= j < at ==> keys[j] != key@)
                && staked_keys(out@) == keys.subrange(0, i as int).remove(at),
        decreases list@.len() - i,
    {
        if !found && list[i] == *key {
            found = true;
            proof {
                at = i as int;
                assert(keys.subrange(0, i + 1).remove(at) =~= keys.subrange(0, i as int));
            }
        } else {
            out.push(list[i]);
            proof {
                if found {
                    assert(keys.subrange(0, i + 1).remove(at) =~= keys.subrange(0, i as int).remove(
                        at,
                    ).push(keys[i as int]));
                } else {
                    assert(keys.subrange(0, i + 1) =~= keys.subrange(0, i as int).push(keys[i as int]));
                }
            }
        }
        i = i + 1;
    }
    proof {
        assert(keys.subrange(0, list@.len() as int) =~= keys);
        keys.index_of_first_ensures(key@);
        if found {
            assert(keys.contains(key@));
            let f = keys.index_of_first(key@).unwrap();
            assert(f == at) by {
                if f < at {
                    assert(keys[f] != key@);
                } else if at < f {
                    assert(keys[at] != key@);
                }
            }
        } else {
            assert(!keys.contains(key@)) by {
                if keys.contains(key@) {
                    let j = choose|j: int| 0 <= j < keys.len() && keys[j] == key@;
                    assert(keys[j] != key@);
                }
            }
        }
    }
    out
}

/// Staking appends at the end; unstaking an item that the list holds removes
/// exactly one matching entry, keeps the others in their order, and takes that
/// item once out of the multiset of what is staked.
pub proof fn lemma_membership_step(list: Seq<Seq<u8>>, key: Seq<u8>)
    ensures
        list.push(key).to_multiset() == list.to_multiset().insert(key),
        list.push(key).remove_value(key).len() == list.len(),
        list.contains(key) ==> ({
            let i = list.index_of_first(key).unwrap();
            &&& list.remove_value(key) == list.subrange(0, i) + list.subrange(i + 1, list.len() as int)
            &&& list.remove_value(key).to_multiset() == list.to_multiset().remove(key)
            &&& list.remove_value(key).len() + 1 == list.len()
        }),
{
    list.index_of_first_ensures(key);
    list.push(key).index_of_first_ensures(key);
    assert(list.push(key).contains(key)) by {
        assert(list.push(key)[list.len() as int] == key);
    }
    if list.contains(key) {
        let i = list.index_of_first(key).unwrap();
        assert(list.remove(i) =~= list.subrange(0, i) + list.subrange(i + 1, list.len() as int));
    }
}

/// The staked list after a run of operations from an empty list; each operation
/// is `(true, k)` for staking `k` and `(false, k)` for unstaking it, with the list
/// changing as `with_appended` and `without_first` change it.
pub open spec fn replay(ops: Seq<(bool, Seq<u8>)>) -> Seq<Seq<u8>>
    decreases ops.len(),
{
    if ops.len() == 0 {
        Seq::empty()
    } else {
        let prev = replay(ops.drop_last());
        let (is_stake, k) = ops.last();
        if is_stake {
            prev.push(k)
        } else {
            prev.remove_value(k)
        }
    }
}

/// Every unstake in the run is of an item that the list holds at that point.
pub open spec fn replay_valid(ops: Seq<(bool, Seq<u8>)>) -> bool {
    forall|i: int| 0 <= i < ops.len() && !(#[trigger] ops[i]).0 ==> replay(ops.take(i)).contains(ops[i].1)
}

/// The items that the run stakes, with repeats.
pub open spec fn staked_items(ops: Seq<(bool, Seq<u8>)>) -> Multiset<Seq<u8>>
    decreases ops.len(),
{
    if ops.len() == 0 {
        Multiset::empty()
    } else if ops.last().0 {
        staked_items(ops.drop_last()).insert(ops.last().1)
    } else {
        staked_items(ops.drop_last())
    }
}

/// The items that the run unstakes, with repeats.
pub open spec fn unstaked_items(ops: Seq<(bool, Seq<u8>)>) -> Multiset<Seq<u8>>
    decreases ops.len(),
{
    if ops.len() == 0 {
        Multiset::empty()
    } else if !ops.last().0 {
        unstaked_items(ops.drop_last()).insert(ops.last().1)
    } else {
        unstaked_items(ops.drop_last())
    }
}

/// After any run of stakes and unstakes in which each unstaked item was staked at
/// that point, the list holds exactly the staked items less the unstaked ones.
pub proof fn lemma_membership_round_trip(ops: Seq<(bool, Seq<u8>)>)
    requires
        replay_valid(ops),
    ensures
        replay(ops).to_multiset().add(unstaked_items(ops)) == staked_items(ops),
    decreases ops.len(),
{
    if ops.len() == 0 {
        assert(replay(ops).to_multiset() =~= Multiset::empty());
        assert(Multiset::<Seq<u8>>::empty().add(Multiset::empty()) =~= Multiset::empty());
    } else {
        let pre = ops.drop_last();
        assert forall|i: int| 0 <= i < pre.len() && !(#[trigger] pre[i]).0 implies replay(pre.take(i)).contains(
            pre[i].1,
        ) by {
            assert(pre.take(i) =~= ops.take(i));
            assert(ops[i] == pre[i]);
        }
        lemma_membership_round_trip(pre);
        let prev = replay(pre);
        let (is_stake, k) = ops.last();
        if is_stake {
            assert(replay(ops) == prev.push(k));
            assert(replay(ops).to_multiset().add(unstaked_items(ops)) =~= staked_items(ops));
        } else {
            let n = ops.len() - 1;
            assert(ops.take(n) =~= pre);
            assert(!ops[n].0);
            assert(prev.contains(k));
            lemma_membership_step(prev, k);
            assert(prev.to_multiset().count(k) > 0);
            assert(replay(ops).to_multiset().add(unstaked_items(ops)) =~= staked_items(ops));
        }
    }
}

/// A stake (`with_appended`) or an unstake of a held item (`without_first`)
/// applied to the list that a valid run leaves gives the list that the run
/// extended by that operation leaves, and the extended run is valid. With the
/// empty first generation that `create_user` makes, any sequence of successful
/// stakes and unstakes therefore leaves `replay` of that sequence, of which
/// `lemma_membership_round_trip` gives the contents.
pub proof fn lemma_replay_step(
    ops: Seq<(bool, Seq<u8>)>,
    before: Seq<Seq<u8>>,
    after: Seq<Seq<u8>>,
    op: (bool, Seq<u8>),
)
    requires
        replay_valid(ops),
        before == replay(ops),
        op.0 ==> after == before.push(op.1),
        !op.0 ==> before.contains(op.1) && after == before.remove_value(op.1),
    ensures
        replay_valid(ops.push(op)),
        after == replay(ops.push(op)),
        op.0 ==> after.len() == before.len() + 1,
        !op.0 ==> after.len() + 1 == before.len(),
{
    let next = ops.push(op);
    assert(next.drop_last() =~= ops);
    assert forall|i: int| 0 <= i < next.len() && !(#[trigger] next[i]).0 implies replay(next.take(i)).contains(
        next[i].1,
    ) by {
        if i < ops.len() {
            assert(next.take(i) =~= ops.take(i));
            assert(next[i] == ops[i]);
        } else {
            assert(next.take(i) =~= ops);
        }
    }
    lemma_membership_step(before, op.1);
}

} // verus!
