//! Sums of lists of numbers, and what capping their partial sums comes to.
use vstd::prelude::*;

verus! {

/// The sum of a list of numbers.
pub open spec fn sum(values: Seq<nat>) -> nat {
    values.fold_left(0nat, |total: nat, value: nat| total + value)
}

/// A number, or the limit where it is larger.
pub open spec fn at_most(n: nat, limit: nat) -> nat {
    if n <= limit {
        n
    } else {
        limit
    }
}

/// The sum of a list grows by the number that is appended.
pub proof fn sums_grow_by_what_is_appended(values: Seq<nat>, value: nat)
    ensures
        sum(values.push(value)) == sum(values) + value,
        sum(Seq::<nat>::empty()) == 0,
        sum(seq![value]) == value,
{
    assert(values.push(value).drop_last() == values);
    assert(seq![value].drop_last() == Seq::<nat>::empty());
    assert(sum(Seq::<nat>::empty()) == 0);
}

/// The sum of two lists put together is the sum of their sums.
pub proof fn sums_add_up(a: Seq<nat>, b: Seq<nat>)
    ensures
        sum(a + b) == sum(a) + sum(b),
    decreases b.len(),
{
    if b.len() == 0 {
        assert(a + b == a);
        sums_grow_by_what_is_appended(a, 0);
    } else {
        let rest = b.drop_last();
        sums_add_up(a, rest);
        sums_grow_by_what_is_appended(a + rest, b.last());
        sums_grow_by_what_is_appended(rest, b.last());
        assert(rest.push(b.last()) == b);
        assert((a + rest).push(b.last()) == a + b);
    }
}

/// A sum is at least each of its numbers.
pub proof fn sums_cover_every_number(values: Seq<nat>, i: int)
    requires
        0 <= i < values.len(),
    ensures
        values[i] <= sum(values),
{
    let head = values.take(i);
    let tail = values.skip(i + 1);
    assert(values == head.push(values[i]) + tail);
    sums_add_up(head.push(values[i]), tail);
    sums_grow_by_what_is_appended(head, values[i]);
}

/// The order of the numbers does not matter.
pub proof fn sums_ignore_the_order(a: Seq<nat>, b: Seq<nat>)
    requires
        a.to_multiset() == b.to_multiset(),
    ensures
        sum(a) == sum(b),
    decreases a.len(),
{
    vstd::seq_lib::to_multiset_len(a);
    vstd::seq_lib::to_multiset_len(b);
    if a.len() == 0 {
        assert(a == b);
    } else {
        let last = a.last();
        let rest = a.drop_last();
        assert(rest.push(last) == a);
        vstd::seq_lib::to_multiset_build(rest, last);
        vstd::seq_lib::to_multiset_contains(b, last);
        assert(a.to_multiset().count(last) > 0);
        let i = choose|i: int| 0 <= i < b.len() && b[i] == last;
        let head = b.take(i);
        let tail = b.skip(i + 1);
        assert(b == head.push(last) + tail);
        assert(b.remove(i) == head + tail);
        vstd::seq_lib::to_multiset_remove(b, i);
        assert(rest.to_multiset() =~= b.remove(i).to_multiset());
        sums_ignore_the_order(rest, b.remove(i));
        sums_add_up(head.push(last), tail);
        sums_add_up(head, tail);
        sums_grow_by_what_is_appended(head, last);
        sums_grow_by_what_is_appended(rest, last);
    }
}

} // verus!
