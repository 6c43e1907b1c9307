//! Proportional redistribution of a fixed total among items that each have a
//! minimum and a maximum size.
//!
//! Every item first gets its minimum. What is left of the total is handed
//! out in proportion to each item's slack, the distance from its minimum up
//! to its ceiling. Sizes are whole nanoseconds, so the proportional parts are
//! rounded: the first `k` items together get the exact proportional part of
//! their joint slack rounded down, and an item gets the difference between
//! two such prefixes. Each item is then within one nanosecond of its exact
//! proportional part, and the sizes add up to the total to the nanosecond.

use vstd::prelude::*;
use vstd::arithmetic::div_mod::{lemma_fundamental_div_mod, lemma_fundamental_div_mod_converse};
use vstd::arithmetic::mul::lemma_mul_is_commutative;
use crate::time::Duration;

verus! {

/// The least and the most that one item may take, in nanoseconds.
pub struct Bounds {
    pub min: nat,
    pub max: nat,
}

impl Bounds {
    /// The most the item can be given: its maximum, or its minimum where the
    /// maximum lies under it (such an item is rigid at its minimum).
    pub open spec fn ceiling(self) -> nat {
        if self.max >= self.min {
            self.max
        } else {
            self.min
        }
    }

    /// How far the item can grow beyond its minimum.
    pub open spec fn slack(self) -> nat {
        (self.ceiling() - self.min) as nat
    }
}

/// Something that can be resized between a least and a greatest size.
pub trait FlexItem {
    /// The greatest size, in nanoseconds.
    spec fn spec_max_size(&self) -> nat;

    /// The least size, in nanoseconds.
    spec fn spec_min_size(&self) -> nat;

    /// The greatest size the item should take.
    fn max_size(&self) -> (d: Duration)
        ensures
            d@ == self.spec_max_size(),
    ;

    /// The least size the item can take.
    fn min_size(&self) -> (d: Duration)
        ensures
            d@ == self.spec_min_size(),
    ;
}

/// The bounds of every item, in order.
pub open spec fn bounds_of<T: FlexItem>(items: Seq<T>) -> Seq<Bounds> {
    Seq::new(
        items.len(),
        |i: int| Bounds { min: items[i].spec_min_size(), max: items[i].spec_max_size() },
    )
}

/// The length of every span in nanoseconds, in order.
pub open spec fn nanos(spans: Seq<Duration>) -> Seq<nat> {
    Seq::new(spans.len(), |i: int| spans[i]@)
}

/// A budget does not cover the minimums: `needed` is the least, in
/// nanoseconds, that the items take together.
#[derive(Clone, Copy, Debug, PartialEq, Eq)]
pub struct Infeasible {
    pub needed: u128,
}

/// The sum of the entries of `s`.
pub open spec fn total(s: Seq<nat>) -> nat
    decreases s.len(),
{
    if s.len() == 0 {
        0
    } else {
        total(s.drop_last()) + s.last()
    }
}

/// The minimum of every item, in order.
pub open spec fn mins(b: Seq<Bounds>) -> Seq<nat> {
    Seq::new(b.len(), |i: int| b[i].min)
}

/// The ceiling of every item, in order.
pub open spec fn ceilings(b: Seq<Bounds>) -> Seq<nat> {
    Seq::new(b.len(), |i: int| b[i].ceiling())
}

/// The slack of every item, in order.
pub open spec fn slacks(b: Seq<Bounds>) -> Seq<nat> {
    Seq::new(b.len(), |i: int| b[i].slack())
}

/// The least the items can take together.
pub open spec fn total_min(b: Seq<Bounds>) -> nat {
    total(mins(b))
}

/// The most the items can take together.
pub open spec fn total_ceiling(b: Seq<Bounds>) -> nat {
    total(ceilings(b))
}

/// The joint slack of the items.
pub open spec fn total_slack(b: Seq<Bounds>) -> nat {
    total(slacks(b))
}

/// Whether `budget` covers the minimum of every item.
pub open spec fn feasible(b: Seq<Bounds>, budget: nat) -> bool {
    total_min(b) <= budget
}

/// What is handed out beyond the minimums: the part of `budget` above the
/// joint minimum, and no more than the joint slack.
pub open spec fn room(b: Seq<Bounds>, budget: nat) -> nat {
    if budget >= total_ceiling(b) {
        total_slack(b)
    } else if budget >= total_min(b) {
        (budget - total_min(b)) as nat
    } else {
        0
    }
}

/// What the first `k` items get together beyond their minimums: the
/// proportional part of their joint slack, rounded down.
pub open spec fn granted(b: Seq<Bounds>, budget: nat, k: int) -> nat {
    if total_slack(b) == 0 {
        0
    } else {
        total(slacks(b).take(k)) * room(b, budget) / total_slack(b)
    }
}

/// The size of item `i` under `budget`.
pub open spec fn share(b: Seq<Bounds>, budget: nat, i: int) -> nat {
    (b[i].min + granted(b, budget, i + 1) - granted(b, budget, i)) as nat
}

/// The size of every item under `budget`, in order.
pub open spec fn flexed(b: Seq<Bounds>, budget: nat) -> Seq<nat> {
    Seq::new(b.len(), |i: int| share(b, budget, i))
}

/// Taking one more entry adds that entry to the sum.
pub proof fn lemma_total_take(s: Seq<nat>, k: int)
    requires
        0 <= k < s.len(),
    ensures
        total(s.take(k + 1)) == total(s.take(k)) + s[k],
{
    assert(s.take(k + 1).drop_last() =~= s.take(k));
}

/// The sum of a prefix is at most the sum of the whole.
pub proof fn lemma_total_take_le(s: Seq<nat>, k: int)
    requires
        0 <= k <= s.len(),
    ensures
        total(s.take(k)) <= total(s),
    decreases s.len() - k,
{
    if k == s.len() {
        assert(s.take(k) =~= s);
    } else {
        lemma_total_take(s, k);
        lemma_total_take_le(s, k + 1);
    }
}

/// Replacing one entry changes the sum by the difference of the entries.
pub proof fn lemma_total_update(s: Seq<nat>, i: int, x: nat)
    requires
        0 <= i < s.len(),
    ensures
        total(s.update(i, x)) + s[i] == total(s) + x,
    decreases s.len(),
{
    if i == s.len() - 1 {
        assert(s.update(i, x).drop_last() =~= s.drop_last());
    } else {
        lemma_total_update(s.drop_last(), i, x);
        assert(s.update(i, x).drop_last() =~= s.drop_last().update(i, x));
    }
}

/// Inserting an entry adds it to the sum.
pub proof fn lemma_total_insert(s: Seq<nat>, i: int, x: nat)
    requires
        0 <= i <= s.len(),
    ensures
        total(s.insert(i, x)) == total(s) + x,
    decreases s.len(),
{
    if i == s.len() {
        assert(s.insert(i, x).drop_last() =~= s);
    } else {
        lemma_total_insert(s.drop_last(), i, x);
        assert(s.insert(i, x).drop_last() =~= s.drop_last().insert(i, x));
    }
}

/// A sequence of zeros adds up to zero.
pub proof fn lemma_total_zeros(s: Seq<nat>)
    requires
        forall|i: int| 0 <= i < s.len() ==> s[i] == 0,
    ensures
        total(s) == 0,
    decreases s.len(),
{
    if s.len() > 0 {
        lemma_total_zeros(s.drop_last());
    }
}

/// A sequence that is entry by entry at most another adds up to at most
/// what the other adds up to.
pub proof fn lemma_total_le(s: Seq<nat>, t: Seq<nat>)
    requires
        s.len() == t.len(),
        forall|i: int| 0 <= i < s.len() ==> s[i] <= t[i],
    ensures
        total(s) <= total(t),
    decreases s.len(),
{
    if s.len() > 0 {
        lemma_total_le(s.drop_last(), t.drop_last());
    }
}

/// The joint ceiling is the joint minimum plus the joint slack.
pub proof fn lemma_ceiling_is_min_plus_slack(b: Seq<Bounds>)
    ensures
        total_ceiling(b) == total_min(b) + total_slack(b),
    decreases b.len(),
{
    if b.len() > 0 {
        let front = b.drop_last();
        lemma_ceiling_is_min_plus_slack(front);
        assert(mins(b).drop_last() =~= mins(front));
        assert(ceilings(b).drop_last() =~= ceilings(front));
        assert(slacks(b).drop_last() =~= slacks(front));
    }
}

/// The room never exceeds the joint slack, and with a feasible budget the
/// joint minimum plus the room is the budget capped at the joint ceiling.
pub proof fn lemma_room(b: Seq<Bounds>, budget: nat)
    ensures
        room(b, budget) <= total_slack(b),
        feasible(b, budget) ==> total_min(b) + room(b, budget) == if budget
            >= total_ceiling(b) {
            total_ceiling(b)
        } else {
            budget
        },
{
    lemma_ceiling_is_min_plus_slack(b);
}

/// Dividing by `s` is monotone, and adding `w * r` with `r <= s` before the
/// division raises the quotient by at most `w`.
proof fn lemma_quotient_step(a: int, w: int, r: int, s: int)
    requires
        0 <= a,
        0 <= w,
        0 <= r <= s,
        0 < s,
    ensures
        a / s <= (a + w * r) / s <= a / s + w,
        -s < s * ((a + w * r) / s - a / s) - w * r < s,
{
    let x = a + w * r;
    lemma_fundamental_div_mod(a, s);
    lemma_fundamental_div_mod(x, s);
    let qa = a / s;
    let qx = x / s;
    assert(0 <= a % s < s);
    assert(0 <= x % s < s);
    assert(s * (qx - qa) == s * qx - s * qa) by (nonlinear_arith);
    assert(s * (qx - qa) == w * r + a % s - x % s);
    assert(0 <= w * r <= w * s) by (nonlinear_arith)
        requires
            0 <= w,
            0 <= r <= s,
    ;
    assert(qx - qa >= 0) by (nonlinear_arith)
        requires
            s * (qx - qa) > -s,
            s > 0,
    ;
    assert(qx - qa <= w) by (nonlinear_arith)
        requires
            s * (qx - qa) < w * s + s,
            s > 0,
    ;
}

/// Nothing is granted to no items, and the whole room to all of them.
pub proof fn lemma_granted_ends(b: Seq<Bounds>, budget: nat)
    ensures
        granted(b, budget, 0) == 0,
        granted(b, budget, b.len() as int) == room(b, budget),
{
    let s = total_slack(b) as int;
    let r = room(b, budget) as int;
    lemma_room(b, budget);
    if s > 0 {
        assert(slacks(b).take(0) =~= Seq::<nat>::empty());
        assert(0 * r == 0) by (nonlinear_arith);
        assert(slacks(b).take(b.len() as int) =~= slacks(b));
        lemma_fundamental_div_mod_converse(s * r, s, r, 0);
    }
}

/// From one item to the next the grant grows by at least nothing and by at
/// most the item's slack.
pub proof fn lemma_granted_step(b: Seq<Bounds>, budget: nat, i: int)
    requires
        0 <= i < b.len(),
    ensures
        granted(b, budget, i) <= granted(b, budget, i + 1) <= granted(b, budget, i)
            + b[i].slack(),
{
    let s = total_slack(b) as int;
    let r = room(b, budget) as int;
    lemma_room(b, budget);
    if s > 0 {
        lemma_total_take(slacks(b), i);
        let p = total(slacks(b).take(i)) as int;
        let w = b[i].slack() as int;
        assert((p + w) * r == p * r + w * r) by (nonlinear_arith);
        assert(0 <= p * r) by (nonlinear_arith)
            requires
                0 <= p,
                0 <= r,
        ;
        lemma_quotient_step(p * r, w, r, s);
    }
}

/// Floor and ceiling: every item gets at least its minimum and at most its
/// ceiling, whatever the budget.
pub proof fn lemma_share_within_bounds(b: Seq<Bounds>, budget: nat, i: int)
    requires
        0 <= i < b.len(),
    ensures
        b[i].min <= share(b, budget, i) <= b[i].ceiling(),
        share(b, budget, i) == b[i].min + granted(b, budget, i + 1) - granted(b, budget, i),
{
    lemma_granted_step(b, budget, i);
}

/// Proportionality: what an item gets beyond its minimum differs from the
/// exact proportional part of its slack, `slack * room / total_slack`, by
/// less than one nanosecond.
pub proof fn lemma_share_is_proportional(b: Seq<Bounds>, budget: nat, i: int)
    requires
        0 <= i < b.len(),
        total_slack(b) > 0,
    ensures
        -total_slack(b) < total_slack(b) * (share(b, budget, i) - b[i].min) - b[i].slack()
            * room(b, budget) < total_slack(b),
{
    let s = total_slack(b) as int;
    let r = room(b, budget) as int;
    lemma_room(b, budget);
    lemma_share_within_bounds(b, budget, i);
    lemma_total_take(slacks(b), i);
    let p = total(slacks(b).take(i)) as int;
    let w = b[i].slack() as int;
    assert((p + w) * r == p * r + w * r) by (nonlinear_arith);
    assert(0 <= p * r) by (nonlinear_arith)
        requires
            0 <= p,
            0 <= r,
    ;
    lemma_quotient_step(p * r, w, r, s);
}

/// The first `k` sizes add up to the first `k` minimums plus what the first
/// `k` items are granted.
proof fn lemma_flexed_prefix(b: Seq<Bounds>, budget: nat, k: int)
    requires
        0 <= k <= b.len(),
    ensures
        total(flexed(b, budget).take(k)) == total(mins(b).take(k)) + granted(b, budget, k),
    decreases k,
{
    if k == 0 {
        lemma_granted_ends(b, budget);
        assert(flexed(b, budget).take(0) =~= Seq::<nat>::empty());
        assert(mins(b).take(0) =~= Seq::<nat>::empty());
    } else {
        lemma_flexed_prefix(b, budget, k - 1);
        lemma_total_take(flexed(b, budget), k - 1);
        lemma_total_take(mins(b), k - 1);
        lemma_share_within_bounds(b, budget, k - 1);
    }
}

/// Sum law: under a feasible budget the sizes add up to the budget exactly,
/// or to the joint ceiling where the budget is larger than that.
pub proof fn lemma_flexed_total(b: Seq<Bounds>, budget: nat)
    ensures
        total(flexed(b, budget)) == total_min(b) + room(b, budget),
        feasible(b, budget) ==> total(flexed(b, budget)) == if budget >= total_ceiling(b) {
            total_ceiling(b)
        } else {
            budget
        },
{
    lemma_flexed_prefix(b, budget, b.len() as int);
    lemma_granted_ends(b, budget);
    lemma_room(b, budget);
    assert(flexed(b, budget).take(b.len() as int) =~= flexed(b, budget));
    assert(mins(b).take(b.len() as int) =~= mins(b));
}

/// The first `k` items are granted their whole slack when the budget reaches
/// the joint ceiling.
proof fn lemma_granted_in_surplus(b: Seq<Bounds>, budget: nat, k: int)
    requires
        0 <= k <= b.len(),
        budget >= total_ceiling(b),
    ensures
        granted(b, budget, k) == total(slacks(b).take(k)),
{
    let s = total_slack(b) as int;
    let p = total(slacks(b).take(k)) as int;
    lemma_total_take_le(slacks(b), k);
    if s > 0 {
        lemma_mul_is_commutative(p, s);
        lemma_fundamental_div_mod_converse(p * s, s, p, 0);
    }
}

/// Surplus: with a budget at or above the joint ceiling every item gets its
/// own ceiling.
pub proof fn lemma_surplus_gives_ceilings(b: Seq<Bounds>, budget: nat)
    requires
        budget >= total_ceiling(b),
    ensures
        flexed(b, budget) == ceilings(b),
{
    assert forall|i: int| 0 <= i < b.len() implies share(b, budget, i) == b[i].ceiling() by {
        lemma_granted_in_surplus(b, budget, i);
        lemma_granted_in_surplus(b, budget, i + 1);
        lemma_total_take(slacks(b), i);
    }
    assert(flexed(b, budget) =~= ceilings(b));
}

/// Rigid items: where no item has any slack every item gets its minimum.
pub proof fn lemma_rigid_gives_mins(b: Seq<Bounds>, budget: nat)
    requires
        total_slack(b) == 0,
    ensures
        flexed(b, budget) == mins(b),
{
    assert(flexed(b, budget) =~= mins(b));
}

/// The least the items take together, in nanoseconds.
fn sum_of_mins<T: FlexItem>(items: &Vec<T>) -> (sum: u128)
    ensures
        sum == total_min(bounds_of(items@)),
{
    let ghost b = bounds_of(items@);
    let mut sum: u128 = 0;
    let mut k: usize = 0;
    while k < items.len()
        invariant
            k <= items.len(),
            b == bounds_of(items@),
            sum == total(mins(b).take(k as int)),
            sum <= k * u64::MAX,
        decreases items.len() - k,
    {
        let lo = items[k].min_size().as_nanos();
        proof {
            lemma_total_take(mins(b), k as int);
            assert((k + 1) * u64::MAX <= u128::MAX) by (nonlinear_arith)
                requires
                    k + 1 <= u64::MAX,
            ;
        }
        sum = sum + lo as u128;
        k += 1;
    }
    proof {
        assert(mins(b).take(k as int) =~= mins(b));
    }
    sum
}

/// The most the items can take together, in nanoseconds.
fn sum_of_ceilings<T: FlexItem>(items: &Vec<T>) -> (sum: u128)
    ensures
        sum == total_ceiling(bounds_of(items@)),
{
    let ghost b = bounds_of(items@);
    let mut sum: u128 = 0;
    let mut k: usize = 0;
    while k < items.len()
        invariant
            k <= items.len(),
            b == bounds_of(items@),
            sum == total(ceilings(b).take(k as int)),
            sum <= k * u64::MAX,
        decreases items.len() - k,
    {
        let lo = items[k].min_size().as_nanos();
        let hi = items[k].max_size().as_nanos();
        let top = if hi >= lo {
            hi
        } else {
            lo
        };
        proof {
            lemma_total_take(ceilings(b), k as int);
            assert((k + 1) * u64::MAX <= u128::MAX) by (nonlinear_arith)
                requires
                    k + 1 <= u64::MAX,
            ;
        }
        sum = sum + top as u128;
        k += 1;
    }
    proof {
        assert(ceilings(b).take(k as int) =~= ceilings(b));
    }
    sum
}

/// The ceiling of every item, in order.
fn ceilings_of<T: FlexItem>(items: &Vec<T>) -> (tops: Vec<Duration>)
    ensures
        nanos(tops@) == ceilings(bounds_of(items@)),
{
    let ghost b = bounds_of(items@);
    let mut tops: Vec<Duration> = Vec::new();
    let mut k: usize = 0;
    while k < items.len()
        invariant
            k <= items.len(),
            b == bounds_of(items@),
            tops.len() == k,
            forall|j: int| 0 <= j < k ==> tops[j]@ == b[j].ceiling(),
        decreases items.len() - k,
    {
        let lo = items[k].min_size();
        let hi = items[k].max_size();
        let top = if hi.as_nanos() >= lo.as_nanos() {
            hi
        } else {
            lo
        };
        tops.push(top);
        k += 1;
    }
    proof {
        assert(nanos(tops@) =~= ceilings(b));
    }
    tops
}

/// One step of the running division: from the grant and remainder of the
/// first items to those of one item more.
proof fn lemma_running_division(
    prefix: int,
    w: int,
    r: int,
    s: int,
    rem: int,
    q: int,
    r1: int,
)
    requires
        0 < s,
        0 <= prefix,
        0 <= w,
        0 <= r,
        0 <= rem < s,
        rem == (prefix * r) % s,
        0 <= r1 < s,
        w * r == s * q + r1,
    ensures
        rem + r1 >= s ==> ((prefix + w) * r) / s == (prefix * r) / s + q + 1 && ((prefix + w)
            * r) % s == rem + r1 - s,
        rem + r1 < s ==> ((prefix + w) * r) / s == (prefix * r) / s + q && ((prefix + w) * r)
            % s == rem + r1,
{
    let g = (prefix * r) / s;
    lemma_fundamental_div_mod(prefix * r, s);
    assert((prefix + w) * r == prefix * r + w * r) by (nonlinear_arith);
    if rem + r1 >= s {
        assert((prefix + w) * r == (g + q + 1) * s + (rem + r1 - s)) by (nonlinear_arith)
            requires
                (prefix + w) * r == prefix * r + w * r,
                prefix * r == s * g + rem,
                w * r == s * q + r1,
        ;
        lemma_fundamental_div_mod_converse((prefix + w) * r, s, g + q + 1, rem + r1 - s);
    } else {
        assert((prefix + w) * r == (g + q) * s + (rem + r1)) by (nonlinear_arith)
            requires
                (prefix + w) * r == prefix * r + w * r,
                prefix * r == s * g + rem,
                w * r == s * q + r1,
        ;
        lemma_fundamental_div_mod_converse((prefix + w) * r, s, g + q, rem + r1);
    }
}

/// The size of every item under the budget `size`, or the joint minimum
/// where the budget does not cover it.
fn flex_items<T: FlexItem>(items: &Vec<T>, size: Duration) -> (r: Result<
    Vec<Duration>,
    Infeasible,
>)
    ensures
        match r {
            Ok(sizes) => feasible(bounds_of(items@), size@) && nanos(sizes@) == flexed(
                bounds_of(items@),
                size@,
            ),
            Err(e) => !feasible(bounds_of(items@), size@) && e.needed == total_min(
                bounds_of(items@),
            ),
        },
{
    let ghost b = bounds_of(items@);
    let lo = sum_of_mins(items);
    let hi = sum_of_ceilings(items);
    let budget: u128 = size.as_nanos() as u128;
    if budget < lo {
        return Err(Infeasible { needed: lo });
    }
    if budget > hi {
        let tops = ceilings_of(items);
        proof {
            lemma_surplus_gives_ceilings(b, size@);
        }
        return Ok(tops);
    }
    proof {
        lemma_ceiling_is_min_plus_slack(b);
        lemma_granted_ends(b, size@);
        assert(slacks(b).take(0) =~= Seq::<nat>::empty());
        assert(0 * room(b, size@) == 0) by (nonlinear_arith);
    }
    let spare: u128 = budget - lo;
    let slack: u128 = hi - lo;
    let mut sizes: Vec<Duration> = Vec::new();
    let mut rem: u128 = 0;
    let mut k: usize = 0;
    while k < items.len()
        invariant
            k <= items.len(),
            b == bounds_of(items@),
            slack == total_slack(b),
            spare == room(b, size@),
            spare <= u64::MAX,
            spare <= slack,
            sizes.len() == k,
            forall|j: int| 0 <= j < k ==> sizes[j]@ == share(b, size@, j),
            slack > 0 ==> rem < slack && rem == (total(slacks(b).take(k as int)) * spare) % (
            slack as int),
        decreases items.len() - k,
    {
        let lo_k = items[k].min_size().as_nanos();
        let hi_k = items[k].max_size().as_nanos();
        let w: u64 = if hi_k > lo_k {
            hi_k - lo_k
        } else {
            0
        };
        let mut extra: u128 = 0;
        proof {
            lemma_share_within_bounds(b, size@, k as int);
            lemma_total_take(slacks(b), k as int);
        }
        if slack > 0 {
            assert(w * spare <= u64::MAX * u64::MAX) by (nonlinear_arith)
                requires
                    w <= u64::MAX,
                    spare <= u64::MAX,
            ;
            let p: u128 = w as u128 * spare;
            let q = p / slack;
            let r1 = p % slack;
            proof {
                lemma_fundamental_div_mod(p as int, slack as int);
                lemma_running_division(
                    total(slacks(b).take(k as int)) as int,
                    w as int,
                    spare as int,
                    slack as int,
                    rem as int,
                    q as int,
                    r1 as int,
                );
            }
            if rem >= slack - r1 {
                extra = q + 1;
                rem = rem - (slack - r1);
            } else {
                extra = q;
                rem = rem + r1;
            }
        }
        sizes.push(Duration::from_nanos(lo_k + extra as u64));
        k += 1;
    }
    proof {
        assert(nanos(sizes@) =~= flexed(b, size@));
    }
    Ok(sizes)
}

/// A collection of items that can be resized together to fit a budget.
pub trait Flex {
    /// What the collection holds.
    type Item: FlexItem;

    /// The items, in order.
    spec fn spec_items(&self) -> Seq<Self::Item>;

    /// The items, in order.
    fn get_items(&self) -> (items: &Vec<Self::Item>)
        ensures
            items@ == self.spec_items(),
    ;

    /// The least the items take together, in nanoseconds.
    fn min_size(&self) -> (sum: u128)
        ensures
            sum == total_min(bounds_of(self.spec_items())),
    {
        sum_of_mins(self.get_items())
    }

    /// The most the items can take together, in nanoseconds.
    fn max_size(&self) -> (sum: u128)
        ensures
            sum == total_ceiling(bounds_of(self.spec_items())),
    {
        sum_of_ceilings(self.get_items())
    }

    /// The ceiling of every item, in order.
    fn max_sizes(&self) -> (tops: Vec<Duration>)
        ensures
            nanos(tops@) == ceilings(bounds_of(self.spec_items())),
    {
        ceilings_of(self.get_items())
    }

    /// Resizes the items to fit `size`.
    ///
    /// Fails exactly when `size` is under the joint minimum, and then
    /// reports that minimum. Otherwise item `i` gets `share(.., i)`: its
    /// minimum plus its proportional part of what `size` leaves above the
    /// joint minimum, and its ceiling where `size` reaches the joint ceiling.
    fn flex(&self, size: Duration) -> (r: Result<Vec<Duration>, Infeasible>)
        ensures
            match r {
                Ok(sizes) => feasible(bounds_of(self.spec_items()), size@) && nanos(sizes@)
                    == flexed(bounds_of(self.spec_items()), size@),
                Err(e) => !feasible(bounds_of(self.spec_items()), size@) && e.needed
                    == total_min(bounds_of(self.spec_items())),
            },
    {
        flex_items(self.get_items(), size)
    }
}

/// An item that is nothing but its two bounds.
#[derive(Clone, Copy, Debug, PartialEq, Eq)]
pub struct Limits {
    /// The least size of the item.
    pub min: Duration,
    /// The greatest size of the item.
    pub max: Duration,
}

impl FlexItem for Limits {
    open spec fn spec_max_size(&self) -> nat {
        self.max@
    }

    open spec fn spec_min_size(&self) -> nat {
        self.min@
    }

    fn max_size(&self) -> (d: Duration) {
        self.max
    }

    fn min_size(&self) -> (d: Duration) {
        self.min
    }
}

impl Flex for Vec<Limits> {
    type Item = Limits;

    open spec fn spec_items(&self) -> Seq<Limits> {
        self@
    }

    fn get_items(&self) -> (items: &Vec<Limits>) {
        self
    }
}

} // verus!
