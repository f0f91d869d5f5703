use vstd::prelude::*;

use crate::util::shuffle::{lemma_shuffle_is_permutation, shuffle, shuffle_spec};

verus! {

// The vertical and horizontal layouts place their children on whole pixels:
// each child's length is rounded down, and the pixels that the rounding left
// over are handed back one by one. This module decides who gets them.

/// the seed of the order among the children above their minimum length
pub const ABOVE_MIN_SEED: u64 = 1234u64;

/// the seed of the order among the children at their minimum length
pub const AT_MIN_SEED: u64 = 5678u64;

/// The positions in `s` that hold `flag`, in increasing order.
pub open spec fn indices_where(s: Seq<bool>, flag: bool) -> Seq<usize>
    decreases s.len(),
{
    if s.len() == 0 {
        Seq::empty()
    } else {
        let rest = indices_where(s.drop_last(), flag);
        if s.last() == flag {
            rest.push((s.len() - 1) as usize)
        } else {
            rest
        }
    }
}

/// The order in which the children, of which those at `at_min` are at their
/// minimum length, are offered a leftover pixel: first the children above
/// their minimum, then those at it (as a last resort, to prevent jitter),
/// each group in a fixed pseudo random order, so that the pixels are spread
/// evenly and a change of the parent's length changes each child by at most
/// the same amount in the same direction.
pub open spec fn round_up_order_spec(at_min: Seq<bool>) -> Seq<usize> {
    shuffle_spec(indices_where(at_min, false), ABOVE_MIN_SEED) + shuffle_spec(
        indices_where(at_min, true),
        AT_MIN_SEED,
    )
}

/// The children that take one of `count` leftover pixels: walking `order`,
/// each child that can still grow (one more pixel stays below its maximum)
/// takes one, until none are left.
pub open spec fn hand_out_spec(order: Seq<usize>, can_grow: Seq<bool>, count: nat) -> Seq<usize>
    decreases order.len(),
{
    if order.len() == 0 || count == 0 {
        Seq::empty()
    } else {
        let i = order[0];
        if i < can_grow.len() && can_grow[i as int] {
            seq![i] + hand_out_spec(order.drop_first(), can_grow, (count - 1) as nat)
        } else {
            hand_out_spec(order.drop_first(), can_grow, count)
        }
    }
}

/// the positions that `indices_where` lists are those that hold `flag`, each
/// once and in increasing order
proof fn lemma_indices_where(s: Seq<bool>, flag: bool)
    requires
        s.len() <= usize::MAX,
    ensures
        ({
            let r = indices_where(s, flag);
            &&& forall|i: int| 0 <= i < r.len() ==> r[i] < s.len() && s[r[i] as int] == flag
            &&& forall|i: int, j: int| 0 <= i < j < r.len() ==> r[i] < r[j]
            &&& forall|k: int| 0 <= k < s.len() && s[k] == flag ==> r.contains(k as usize)
        }),
        indices_where(s, false).len() + indices_where(s, true).len() == s.len(),
    decreases s.len(),
{
    if s.len() > 0 {
        let t = s.drop_last();
        lemma_indices_where(t, flag);
        lemma_indices_where(t, !flag);
        let r = indices_where(s, flag);
        let rt = indices_where(t, flag);
        assert forall|k: int| 0 <= k < s.len() && s[k] == flag implies r.contains(k as usize) by {
            if k < t.len() {
                assert(t[k] == s[k]);
                let j = choose|j: int| 0 <= j < rt.len() && rt[j] == k as usize;
                assert(r[j] == rt[j]);
            } else {
                assert(r[r.len() - 1] == k as usize);
            }
        }
        if flag {
            lemma_indices_where(t, false);
        } else {
            lemma_indices_where(t, true);
        }
    }
}

/// a shuffle of `r` holds the elements of `r`, each once when `r` does
proof fn lemma_shuffle_keeps_elements(r: Seq<usize>, seed: u64)
    requires
        r.no_duplicates(),
    ensures
        shuffle_spec(r, seed).len() == r.len(),
        shuffle_spec(r, seed).no_duplicates(),
        forall|x: usize|
            #![trigger shuffle_spec(r, seed).contains(x)]
            #![trigger r.contains(x)]
            shuffle_spec(r, seed).contains(x) <==> r.contains(x),
{
    broadcast use vstd::seq_lib::to_multiset_contains;
    broadcast use vstd::multiset::group_multiset_axioms;

    lemma_shuffle_is_permutation(r, seed);
    let q = shuffle_spec(r, seed);
    r.lemma_multiset_has_no_duplicates();
    assert forall|x: usize| q.to_multiset().contains(x) implies q.to_multiset().count(x) == 1 by {
        assert(r.to_multiset().count(x) == q.to_multiset().count(x));
    }
    q.lemma_multiset_has_no_duplicates_conv();
    assert forall|x: usize| q.contains(x) <==> r.contains(x) by {
        assert(r.to_multiset().count(x) == q.to_multiset().count(x));
    }
}

/// Law: every child is offered a leftover pixel exactly once, and all the
/// children above their minimum length are offered one before any child at
/// its minimum.
pub proof fn lemma_round_up_order(at_min: Seq<bool>)
    requires
        at_min.len() <= usize::MAX,
    ensures
        ({
            let order = round_up_order_spec(at_min);
            &&& order.len() == at_min.len()
            &&& order.no_duplicates()
            &&& forall|k: usize| order.contains(k) <==> k < at_min.len()
            &&& forall|i: int, j: int|
                0 <= i < j < order.len() && at_min[order[i] as int] ==> at_min[order[j] as int]
        }),
{
    lemma_indices_where(at_min, false);
    lemma_indices_where(at_min, true);
    let above = indices_where(at_min, false);
    let at = indices_where(at_min, true);
    assert(above.no_duplicates());
    assert(at.no_duplicates());
    lemma_shuffle_keeps_elements(above, ABOVE_MIN_SEED);
    lemma_shuffle_keeps_elements(at, AT_MIN_SEED);
    let a = shuffle_spec(above, ABOVE_MIN_SEED);
    let b = shuffle_spec(at, AT_MIN_SEED);
    let order = a + b;
    assert forall|i: int| 0 <= i < a.len() implies a[i] < at_min.len() && !at_min[a[i] as int] by {
        assert(a.contains(a[i]));
        assert(above.contains(a[i]));
        let j = choose|j: int| 0 <= j < above.len() && above[j] == a[i];
    }
    assert forall|i: int| 0 <= i < b.len() implies b[i] < at_min.len() && at_min[b[i] as int] by {
        assert(b.contains(b[i]));
        assert(at.contains(b[i]));
        let j = choose|j: int| 0 <= j < at.len() && at[j] == b[i];
    }
    vstd::seq_lib::lemma_no_dup_in_concat(a, b);
    assert forall|k: usize| order.contains(k) <==> k < at_min.len() by {
        if k < at_min.len() {
            if at_min[k as int] {
                assert(at.contains(k as usize));
                let j = choose|j: int| 0 <= j < b.len() && b[j] == k;
                assert(order[a.len() + j] == k);
            } else {
                assert(above.contains(k as usize));
                let j = choose|j: int| 0 <= j < a.len() && a[j] == k;
                assert(order[j] == k);
            }
        }
        if order.contains(k) {
            let j = choose|j: int| 0 <= j < order.len() && order[j] == k;
            if j < a.len() {
                assert(order[j] == a[j]);
            } else {
                assert(order[j] == b[j - a.len()]);
            }
        }
    }
    assert forall|i: int, j: int|
        0 <= i < j < order.len() && at_min[order[i] as int] implies at_min[order[j] as int] by {
        if i < a.len() {
            assert(order[i] == a[i]);
        }
        assert(order[j] == b[j - a.len()]);
    }
}

/// the number of children in `order` that can grow
pub open spec fn growable_count(order: Seq<usize>, can_grow: Seq<bool>) -> nat
    decreases order.len(),
{
    if order.len() == 0 {
        0
    } else {
        (if order[0] < can_grow.len() && can_grow[order[0] as int] {
            1nat
        } else {
            0nat
        }) + growable_count(order.drop_first(), can_grow)
    }
}

/// Law: the leftover pixels go only to children that are offered one and can
/// still grow, each child taking at most one. Exactly `count` are handed out,
/// or one to every child that can grow when there are fewer of those.
pub proof fn lemma_hand_out(order: Seq<usize>, can_grow: Seq<bool>, count: nat)
    requires
        order.no_duplicates(),
    ensures
        ({
            let r = hand_out_spec(order, can_grow, count);
            &&& forall|i: int|
                0 <= i < r.len() ==> r[i] < can_grow.len() && can_grow[r[i] as int] && order.contains(
                    r[i],
                )
            &&& r.no_duplicates()
            &&& r.len() == if count < growable_count(order, can_grow) {
                count
            } else {
                growable_count(order, can_grow)
            }
        }),
    decreases order.len(),
{
    if order.len() > 0 && count > 0 {
        let rest_order = order.drop_first();
        assert(rest_order.no_duplicates());
        let first = order[0];
        let grows = first < can_grow.len() && can_grow[first as int];
        let c1: nat = if grows { (count - 1) as nat } else { count };
        lemma_hand_out(rest_order, can_grow, c1);
        let rest = hand_out_spec(rest_order, can_grow, c1);
        assert forall|i: int| 0 <= i < rest.len() implies order.contains(rest[i]) by {
            let j = choose|j: int| 0 <= j < rest_order.len() && rest_order[j] == rest[i];
            assert(order[j + 1] == rest[i]);
        }
        if grows {
            let r = seq![first] + rest;
            assert(hand_out_spec(order, can_grow, count) == r);
            assert(!rest.contains(first)) by {
                if rest.contains(first) {
                    let i = choose|i: int| 0 <= i < rest.len() && rest[i] == first;
                    let j = choose|j: int| 0 <= j < rest_order.len() && rest_order[j] == rest[i];
                    assert(order[j + 1] == order[0]);
                }
            }
            assert forall|i: int| 0 <= i < r.len() implies r[i] < can_grow.len() && can_grow[r[i] as int]
                && order.contains(r[i]) by {
                if i > 0 {
                    assert(r[i] == rest[i - 1]);
                }
            }
            assert forall|i: int, j: int| 0 <= i < r.len() && 0 <= j < r.len() && i != j implies r[i]
                != r[j] by {
                if i > 0 && j > 0 {
                    assert(r[i] == rest[i - 1] && r[j] == rest[j - 1]);
                } else if i == 0 {
                    assert(r[j] == rest[j - 1]);
                } else {
                    assert(r[i] == rest[i - 1]);
                }
            }
        }
    }
}

/// with leftover pixels enough for all of them, every child in `order` that
/// can grow takes one
proof fn lemma_hand_out_all(order: Seq<usize>, can_grow: Seq<bool>, count: nat)
    requires
        count >= growable_count(order, can_grow),
    ensures
        forall|x: usize|
            order.contains(x) && x < can_grow.len() && can_grow[x as int] ==> #[trigger] hand_out_spec(
                order,
                can_grow,
                count,
            ).contains(x),
    decreases order.len(),
{
    if order.len() > 0 {
        let rest_order = order.drop_first();
        let first = order[0];
        let grows = first < can_grow.len() && can_grow[first as int];
        let c1: nat = if grows { (count - 1) as nat } else { count };
        lemma_hand_out_all(rest_order, can_grow, c1);
        let rest = hand_out_spec(rest_order, can_grow, c1);
        assert forall|x: usize|
            order.contains(x) && x < can_grow.len() && can_grow[x as int] implies #[trigger] hand_out_spec(
            order,
            can_grow,
            count,
        ).contains(x) by {
            let j = choose|j: int| 0 <= j < order.len() && order[j] == x;
            if grows {
                let r = seq![first] + rest;
                assert(hand_out_spec(order, can_grow, count) == r);
                if j == 0 {
                    assert(r[0] == x);
                } else {
                    assert(rest_order[j - 1] == x);
                    assert(rest_order.contains(x));
                    assert(hand_out_spec(rest_order, can_grow, c1).contains(x));
                    let i = choose|i: int| 0 <= i < rest.len() && rest[i] == x;
                    assert(r[i + 1] == x);
                }
            } else {
                assert(j != 0);
                assert(rest_order[j - 1] == x);
                assert(rest_order.contains(x));
                assert(hand_out_spec(rest_order, can_grow, c1).contains(x));
            }
        }
    }
}

/// handing out over two groups in turn: the first group takes what it can,
/// the second what is left
proof fn lemma_hand_out_concat(a: Seq<usize>, b: Seq<usize>, can_grow: Seq<bool>, count: nat)
    ensures
        hand_out_spec(a + b, can_grow, count) == if count <= growable_count(a, can_grow) {
            hand_out_spec(a, can_grow, count)
        } else {
            hand_out_spec(a, can_grow, count) + hand_out_spec(
                b,
                can_grow,
                (count - growable_count(a, can_grow)) as nat,
            )
        },
    decreases a.len(),
{
    if a.len() == 0 {
        assert(a + b == b);
    } else if count == 0 {
    } else {
        let first = a[0];
        assert((a + b)[0] == first);
        assert((a + b).drop_first() == a.drop_first() + b);
        let grows = first < can_grow.len() && can_grow[first as int];
        let c1: nat = if grows { (count - 1) as nat } else { count };
        lemma_hand_out_concat(a.drop_first(), b, can_grow, c1);
        if grows {
            assert(seq![first] + (hand_out_spec(a.drop_first(), can_grow, c1) + hand_out_spec(
                b,
                can_grow,
                (c1 - growable_count(a.drop_first(), can_grow)) as nat,
            )) == (seq![first] + hand_out_spec(a.drop_first(), can_grow, c1)) + hand_out_spec(
                b,
                can_grow,
                (c1 - growable_count(a.drop_first(), can_grow)) as nat,
            ));
        }
    }
}

/// Law: a child at its minimum length only gets a leftover pixel once every
/// child above its minimum that can grow got one.
pub proof fn lemma_round_ups_last_resort(
    at_min: Seq<bool>,
    can_grow: Seq<bool>,
    count: nat,
    k: usize,
    m: usize,
)
    requires
        at_min.len() <= usize::MAX,
        can_grow.len() == at_min.len(),
        k < at_min.len() && at_min[k as int],
        m < at_min.len() && !at_min[m as int] && can_grow[m as int],
        hand_out_spec(round_up_order_spec(at_min), can_grow, count).contains(k),
    ensures
        hand_out_spec(round_up_order_spec(at_min), can_grow, count).contains(m),
{
    lemma_indices_where(at_min, false);
    lemma_indices_where(at_min, true);
    let above = indices_where(at_min, false);
    let at = indices_where(at_min, true);
    lemma_shuffle_keeps_elements(above, ABOVE_MIN_SEED);
    lemma_shuffle_keeps_elements(at, AT_MIN_SEED);
    let a = shuffle_spec(above, ABOVE_MIN_SEED);
    let b = shuffle_spec(at, AT_MIN_SEED);
    lemma_hand_out_concat(a, b, can_grow, count);
    let r = hand_out_spec(a + b, can_grow, count);
    assert(above.contains(m));
    assert(a.contains(m));
    if count <= growable_count(a, can_grow) {
        // then everything handed out is above its minimum: not `k`
        lemma_hand_out(a, can_grow, count);
        let i = choose|i: int| 0 <= i < r.len() && r[i] == k;
        assert(a.contains(k));
        assert(above.contains(k));
        let j = choose|j: int| 0 <= j < above.len() && above[j] == k;
        assert(false);
    } else {
        lemma_hand_out_all(a, can_grow, count);
        let ra = hand_out_spec(a, can_grow, count);
        assert(ra.contains(m));
        let i = choose|i: int| 0 <= i < ra.len() && ra[i] == m;
        assert(r[i] == m);
    }
}

/// the positions in `s` that hold `flag`, in increasing order
fn collect_indices(s: &[bool], flag: bool) -> (r: Vec<usize>)
    ensures
        r@ == indices_where(s@, flag),
{
    let mut r: Vec<usize> = Vec::new();
    let mut i: usize = 0;
    while i < s.len()
        invariant
            i <= s@.len(),
            r@ == indices_where(s@.take(i as int), flag),
        decreases s@.len() - i,
    {
        assert(s@.take(i + 1).drop_last() == s@.take(i as int));
        if s[i] == flag {
            r.push(i);
        }
        i = i + 1;
    }
    assert(s@.take(s@.len() as int) == s@);
    r
}

pub fn round_up_order(at_min: &[bool]) -> (r: Vec<usize>)
    ensures
        r@ == round_up_order_spec(at_min@),
{
    let mut above_min = collect_indices(at_min, false);
    let mut at_min_indices = collect_indices(at_min, true);
    shuffle(above_min.as_mut_slice(), ABOVE_MIN_SEED);
    shuffle(at_min_indices.as_mut_slice(), AT_MIN_SEED);
    above_min.append(&mut at_min_indices);
    above_min
}

pub fn hand_out_round_ups(order: &[usize], can_grow: &[bool], count: usize) -> (r: Vec<usize>)
    requires
        forall|k: int| 0 <= k < order@.len() ==> order@[k] < can_grow@.len(),
    ensures
        r@ == hand_out_spec(order@, can_grow@, count as nat),
{
    let mut chosen: Vec<usize> = Vec::new();
    let mut remaining = count;
    let mut k: usize = 0;
    assert(order@.skip(0) == order@);
    assert(chosen@ + hand_out_spec(order@, can_grow@, count as nat) == hand_out_spec(
        order@,
        can_grow@,
        count as nat,
    ));
    while k < order.len() && remaining >= 1
        invariant
            k <= order@.len(),
            forall|j: int| 0 <= j < order@.len() ==> order@[j] < can_grow@.len(),
            chosen@ + hand_out_spec(order@.skip(k as int), can_grow@, remaining as nat)
                == hand_out_spec(order@, can_grow@, count as nat),
        decreases order@.len() - k,
    {
        let ghost rest = order@.skip(k as int);
        assert(rest.drop_first() == order@.skip(k + 1));
        assert(rest[0] == order@[k as int]);
        let i = order[k];
        if can_grow[i] {
            assert(chosen@.push(i) + hand_out_spec(rest.drop_first(), can_grow@, (remaining - 1) as nat)
                == chosen@ + (seq![i] + hand_out_spec(rest.drop_first(), can_grow@, (remaining - 1) as nat)));
            chosen.push(i);
            remaining = remaining - 1;
        }
        k = k + 1;
    }
    chosen
}

} // verus!
