//! The initiative order of a combat: descending initiative roll, ties kept in
//! registration order.
use vstd::prelude::*;
use crate::character::{CombatantId, Health};

verus! {

/// The first position from `k` on whose roll is below `r` (or the end).
pub open spec fn insert_pos(order: Seq<CombatantId>, rolls: Seq<u64>, r: u64, k: int) -> int
    decreases order.len() - k,
{
    if k >= order.len() || rolls[order[k].index as int] < r {
        k
    } else {
        insert_pos(order, rolls, r, k + 1)
    }
}

/// `id` put into `order` after every entry whose roll is at least its own.
pub open spec fn insert_by_roll(order: Seq<CombatantId>, rolls: Seq<u64>, id: CombatantId) -> Seq<
    CombatantId,
> {
    order.insert(insert_pos(order, rolls, rolls[id.index as int], 0), id)
}

/// The turn order of the living combatants among the first `n`: each is
/// placed, in registration order, after all those already placed whose roll
/// is at least its own.
pub open spec fn initiative_order(rolls: Seq<u64>, healths: Seq<Health>, n: nat) -> Seq<
    CombatantId,
>
    decreases n,
{
    if n == 0 {
        Seq::empty()
    } else {
        let prev = initiative_order(rolls, healths, (n - 1) as nat);
        if healths[n - 1].current > 0 {
            insert_by_roll(prev, rolls, CombatantId { index: (n - 1) as usize })
        } else {
            prev
        }
    }
}

/// `a` goes before `b`: a higher roll, or an equal roll and an earlier
/// registration.
pub open spec fn goes_before(rolls: Seq<u64>, a: CombatantId, b: CombatantId) -> bool {
    rolls[a.index as int] > rolls[b.index as int] || (rolls[a.index as int]
        == rolls[b.index as int] && a.index < b.index)
}

/// Every entry goes before every later one.
pub open spec fn ordered_by_initiative(order: Seq<CombatantId>, rolls: Seq<u64>) -> bool {
    forall|i: int, j: int|
        #![trigger order[i], order[j]]
        0 <= i < j < order.len() ==> goes_before(rolls, order[i], order[j])
}

pub open spec fn indices_below(order: Seq<CombatantId>, n: int) -> bool {
    forall|i: int| 0 <= i < order.len() ==> #[trigger] order[i].index < n
}

proof fn lemma_insert_pos(order: Seq<CombatantId>, rolls: Seq<u64>, r: u64, k: int)
    requires
        0 <= k <= order.len(),
        indices_below(order, rolls.len() as int),
        forall|i: int| 0 <= i < k ==> rolls[#[trigger] order[i].index as int] >= r,
    ensures
        k <= insert_pos(order, rolls, r, k) <= order.len(),
        forall|i: int|
            0 <= i < insert_pos(order, rolls, r, k) ==> rolls[#[trigger] order[i].index as int]
                >= r,
        insert_pos(order, rolls, r, k) < order.len() ==> rolls[order[insert_pos(
            order,
            rolls,
            r,
            k,
        )].index as int] < r,
    decreases order.len() - k,
{
    if k < order.len() && rolls[order[k].index as int] >= r {
        lemma_insert_pos(order, rolls, r, k + 1);
    }
}

/// The order holds each living combatant among the first `n` once, by
/// registration index, descending by roll with ties in registration order.
pub proof fn lemma_initiative_order(rolls: Seq<u64>, healths: Seq<Health>, n: nat)
    requires
        n <= rolls.len(),
        n <= healths.len(),
        n <= usize::MAX,
    ensures
        indices_below(initiative_order(rolls, healths, n), n as int),
        ordered_by_initiative(initiative_order(rolls, healths, n), rolls),
        forall|i: int|
            0 <= i < n ==> (initiative_order(rolls, healths, n).contains(
                CombatantId { index: i as usize },
            ) <==> healths[i].current > 0),
    decreases n,
{
    if n > 0 {
        let prev = initiative_order(rolls, healths, (n - 1) as nat);
        lemma_initiative_order(rolls, healths, (n - 1) as nat);
        if healths[n - 1].current > 0 {
            let id = CombatantId { index: (n - 1) as usize };
            let r = rolls[n - 1];
            lemma_insert_pos(prev, rolls, r, 0);
            let k = insert_pos(prev, rolls, r, 0);
            let next = prev.insert(k, id);
            assert(next[k] == id);
            assert forall|i: int| k <= i < prev.len() implies rolls[#[trigger] prev[i].index as int]
                < r by {
                if i > k {
                    assert(rolls[prev[k].index as int] >= rolls[prev[i].index as int]);
                }
            }
            assert forall|i: int, j: int|
                #![trigger next[i], next[j]]
                0 <= i < j < next.len() implies goes_before(rolls, next[i], next[j]) by {
                if j < k {
                    assert(next[i] == prev[i] && next[j] == prev[j]);
                    assert(goes_before(rolls, prev[i], prev[j]));
                } else if j == k {
                    assert(next[i] == prev[i]);
                    assert(prev[i].index < n - 1);
                    assert(rolls[prev[i].index as int] >= r);
                } else if i == k {
                    assert(next[j] == prev[j - 1]);
                    assert(rolls[prev[j - 1].index as int] < r);
                } else if i < k {
                    assert(next[i] == prev[i] && next[j] == prev[j - 1]);
                    assert(goes_before(rolls, prev[i], prev[j - 1]));
                } else {
                    assert(next[i] == prev[i - 1] && next[j] == prev[j - 1]);
                    assert(goes_before(rolls, prev[i - 1], prev[j - 1]));
                }
            }
            assert forall|i: int| 0 <= i < next.len() implies #[trigger] next[i].index < n by {
                if i < k {
                    assert(next[i] == prev[i]);
                } else if i > k {
                    assert(next[i] == prev[i - 1]);
                }
            }
            assert forall|i: int| 0 <= i < n implies (next.contains(
                CombatantId { index: i as usize },
            ) <==> healths[i].current > 0) by {
                let c = CombatantId { index: i as usize };
                if i == n - 1 {
                    assert(next[k] == c);
                } else {
                    if prev.contains(c) {
                        let p = choose|p: int| 0 <= p < prev.len() && prev[p] == c;
                        if p < k {
                            assert(next[p] == c);
                        } else {
                            assert(next[p + 1] == c);
                        }
                    }
                    if next.contains(c) {
                        let p = choose|p: int| 0 <= p < next.len() && next[p] == c;
                        if p < k {
                            assert(prev[p] == c);
                        } else {
                            assert(p != k);
                            assert(prev[p - 1] == c);
                        }
                    }
                }
            }
        } else {
            assert forall|i: int| 0 <= i < n implies (prev.contains(
                CombatantId { index: i as usize },
            ) <==> healths[i].current > 0) by {
                if i == n - 1 {
                    let c = CombatantId { index: i as usize };
                    if prev.contains(c) {
                        let p = choose|p: int| 0 <= p < prev.len() && prev[p] == c;
                        assert(prev[p].index < n - 1);
                    }
                }
            }
        }
    }
}

/// The turn order of the living combatants, by initiative roll.
pub fn initiative_order_of(rolls: &Vec<u64>, healths: &Vec<Health>) -> (r: Vec<CombatantId>)
    requires
        rolls.len() == healths.len(),
    ensures
        r@ == initiative_order(rolls@, healths@, rolls.len() as nat),
{
    let mut order: Vec<CombatantId> = Vec::new();
    let mut i: usize = 0;
    while i < rolls.len()
        invariant
            i <= rolls.len() == healths.len(),
            order@ == initiative_order(rolls@, healths@, i as nat),
        decreases rolls.len() - i,
    {
        proof {
            lemma_initiative_order(rolls@, healths@, i as nat);
        }
        if healths[i].current > 0 {
            let r = rolls[i];
            let mut k: usize = 0;
            while k < order.len() && rolls[order[k].index] >= r
                invariant
                    i < rolls.len() == healths.len(),
                    indices_below(order@, i as int),
                    k <= order.len(),
                    r == rolls@[i as int],
                    insert_pos(order@, rolls@, r, k as int) == insert_pos(order@, rolls@, r, 0),
                decreases order.len() - k,
            {
                k = k + 1;
            }
            order.insert(k, CombatantId { index: i });
        }
        i = i + 1;
    }
    order
}

} // verus!
