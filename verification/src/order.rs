//! The byte order of texts, and stable sorting by it.
use vstd::prelude::*;
use vstd::string::*;
use vstd::utf8::*;

use crate::text::{lemma_same_bytes, texts};

verus! {

/// Lexicographic order on byte strings.
pub open spec fn bytes_le(a: Seq<u8>, b: Seq<u8>) -> bool
    decreases a.len(),
{
    if a.len() == 0 {
        true
    } else if b.len() == 0 {
        false
    } else if a[0] != b[0] {
        a[0] < b[0]
    } else {
        bytes_le(a.drop_first(), b.drop_first())
    }
}

/// The order of texts: lexicographic on their UTF-8 bytes.
pub open spec fn text_le(a: Seq<char>, b: Seq<char>) -> bool {
    bytes_le(encode_utf8(a), encode_utf8(b))
}

/// The strict order of texts.
pub open spec fn text_lt(a: Seq<char>, b: Seq<char>) -> bool {
    !text_le(b, a)
}

proof fn lemma_bytes_total(a: Seq<u8>, b: Seq<u8>)
    ensures
        bytes_le(a, b) || bytes_le(b, a),
    decreases a.len(),
{
    if a.len() > 0 && b.len() > 0 && a[0] == b[0] {
        lemma_bytes_total(a.drop_first(), b.drop_first());
    }
}

proof fn lemma_bytes_antisymmetric(a: Seq<u8>, b: Seq<u8>)
    requires
        bytes_le(a, b),
        bytes_le(b, a),
    ensures
        a == b,
    decreases a.len(),
{
    if a.len() > 0 && b.len() > 0 {
        lemma_bytes_antisymmetric(a.drop_first(), b.drop_first());
        assert(a == seq![a[0]] + a.drop_first());
        assert(b == seq![b[0]] + b.drop_first());
    } else {
        assert(a == b);
    }
}

proof fn lemma_bytes_transitive(a: Seq<u8>, b: Seq<u8>, c: Seq<u8>)
    requires
        bytes_le(a, b),
        bytes_le(b, c),
    ensures
        bytes_le(a, c),
    decreases a.len(),
{
    if a.len() > 0 && b.len() > 0 && c.len() > 0 && a[0] == b[0] && b[0] == c[0] {
        lemma_bytes_transitive(a.drop_first(), b.drop_first(), c.drop_first());
    }
}

/// The order of texts is total.
pub proof fn text_order_total(a: Seq<char>, b: Seq<char>)
    ensures
        text_le(a, b) || text_le(b, a),
{
    lemma_bytes_total(encode_utf8(a), encode_utf8(b));
}

/// Texts that precede each other are equal.
pub proof fn text_order_antisymmetric(a: Seq<char>, b: Seq<char>)
    requires
        text_le(a, b),
        text_le(b, a),
    ensures
        a == b,
{
    lemma_bytes_antisymmetric(encode_utf8(a), encode_utf8(b));
    lemma_same_bytes(a, b);
}

/// The order of texts is transitive.
pub proof fn text_order_transitive(a: Seq<char>, b: Seq<char>, c: Seq<char>)
    requires
        text_le(a, b),
        text_le(b, c),
    ensures
        text_le(a, c),
{
    lemma_bytes_transitive(encode_utf8(a), encode_utf8(b), encode_utf8(c));
}

/// Whether `a` precedes or equals `b`.
pub fn precedes(a: &str, b: &str) -> (r: bool)
    ensures
        r == text_le(a@, b@),
{
    let x = a.as_bytes();
    let y = b.as_bytes();
    let mut i: usize = 0;
    assert(x@.skip(0) == x@);
    assert(y@.skip(0) == y@);
    loop
        invariant
            i <= x@.len(),
            i <= y@.len(),
            x@ == encode_utf8(a@),
            y@ == encode_utf8(b@),
            bytes_le(x@.skip(i as int), y@.skip(i as int)) == text_le(a@, b@),
        decreases x@.len() - i,
    {
        if i >= x.len() {
            return true;
        }
        if i >= y.len() {
            return false;
        }
        assert(x@.skip(i as int)[0] == x@[i as int]);
        assert(y@.skip(i as int)[0] == y@[i as int]);
        if x[i] != y[i] {
            return x[i] < y[i];
        }
        assert(x@.skip(i as int).drop_first() == x@.skip(i + 1));
        assert(y@.skip(i as int).drop_first() == y@.skip(i + 1));
        i += 1;
    }
}

/// `order` lists every index below `n` exactly once.
pub open spec fn is_permutation(order: Seq<usize>, n: nat) -> bool {
    &&& order.len() == n
    &&& forall|k: int| 0 <= k < n ==> (#[trigger] order[k]) < n
    &&& forall|k: int, l: int|
        0 <= k < n && 0 <= l < n && k != l ==> #[trigger] order[k] != #[trigger] order[l]
    &&& forall|i: usize| i < n ==> #[trigger] order.contains(i)
}

/// `order` lists the names in ascending order, and equal names by position.
pub open spec fn is_stable_order(names: Seq<Seq<char>>, order: Seq<usize>) -> bool {
    &&& is_permutation(order, names.len())
    &&& forall|k: int, l: int|
        0 <= k < l < order.len() ==> before(names, #[trigger] order[k], #[trigger] order[l])
}

/// Position `i` sorts before position `j`.
pub open spec fn before(names: Seq<Seq<char>>, i: usize, j: usize) -> bool {
    text_lt(names[i as int], names[j as int]) || (names[i as int] == names[j as int] && i < j)
}

/// The stable ascending order of a list of names, as positions.
pub fn stable_order(names: &Vec<String>) -> (order: Vec<usize>)
    ensures
        is_stable_order(texts(names@), order@),
{
    let ghost keys = texts(names@);
    let mut order: Vec<usize> = Vec::new();
    let mut i: usize = 0;
    while i < names.len()
        invariant
            i <= names@.len(),
            keys == texts(names@),
            order@.len() == i,
            forall|k: int| 0 <= k < i ==> (#[trigger] order@[k]) < i,
            forall|k: int, l: int|
                0 <= k < l < i ==> before(keys, #[trigger] order@[k], #[trigger] order@[l]),
            forall|j: usize| j < i ==> #[trigger] order@.contains(j),
        decreases names@.len() - i,
    {
        let mut at: usize = order.len();
        while at > 0 && !precedes(names[order[at - 1]].as_str(), names[i].as_str())
            invariant
                at <= order@.len(),
                i < names@.len(),
                order@.len() == i,
                keys == texts(names@),
                forall|k: int| 0 <= k < i ==> (#[trigger] order@[k]) < i,
                forall|k: int|
                    at <= k < i ==> text_lt(keys[i as int], keys[#[trigger] order@[k] as int]),
            decreases at,
        {
            at -= 1;
        }
        let ghost old_order = order@;
        order.insert(at, i);
        proof {
            assert forall|k: int, l: int| 0 <= k < l < i + 1 implies before(
                keys,
                #[trigger] order@[k],
                #[trigger] order@[l],
            ) by {
                if l < at {
                    assert(order@[k] == old_order[k]);
                    assert(order@[l] == old_order[l]);
                } else if l == at {
                    let last = old_order[at - 1];
                    assert(order@[k] == old_order[k]);
                    if k < at - 1 {
                        assert(before(keys, old_order[k], last));
                        lemma_before_le(keys, old_order[k], last);
                        text_order_transitive(
                            keys[old_order[k] as int],
                            keys[last as int],
                            keys[i as int],
                        );
                    }
                    assert(text_le(keys[old_order[k] as int], keys[i as int]));
                    if text_le(keys[i as int], keys[old_order[k] as int]) {
                        text_order_antisymmetric(keys[old_order[k] as int], keys[i as int]);
                    }
                } else if k < at {
                    assert(order@[k] == old_order[k]);
                    assert(order@[l] == old_order[l - 1]);
                } else if k == at {
                    assert(order@[l] == old_order[l - 1]);
                } else {
                    assert(order@[k] == old_order[k - 1]);
                    assert(order@[l] == old_order[l - 1]);
                }
            }
            assert forall|j: usize| j < i + 1 implies #[trigger] order@.contains(j) by {
                if j < i {
                    assert(old_order.contains(j));
                    let k = choose|k: int| 0 <= k < old_order.len() && old_order[k] == j;
                    if k < at {
                        assert(order@[k] == j);
                    } else {
                        assert(order@[k + 1] == j);
                    }
                } else {
                    assert(order@[at as int] == i);
                }
            }
            assert forall|k: int| 0 <= k < i + 1 implies (#[trigger] order@[k]) < i + 1 by {
                if k < at {
                    assert(order@[k] == old_order[k]);
                } else if k > at {
                    assert(order@[k] == old_order[k - 1]);
                }
            }
        }
        i += 1;
    }
    proof {
        assert forall|k: int, l: int|
            0 <= k < names@.len() && 0 <= l < names@.len() && k != l implies #[trigger] order@[k]
            != #[trigger] order@[l] by {
            if k < l {
                assert(before(keys, order@[k], order@[l]));
                lemma_before_irreflexive(keys, order@[k], order@[l]);
            } else {
                assert(before(keys, order@[l], order@[k]));
                lemma_before_irreflexive(keys, order@[l], order@[k]);
            }
        }
    }
    order
}

proof fn lemma_before_le(names: Seq<Seq<char>>, i: usize, j: usize)
    requires
        before(names, i, j),
    ensures
        text_le(names[i as int], names[j as int]),
{
    text_order_total(names[i as int], names[j as int]);
}

proof fn lemma_before_irreflexive(names: Seq<Seq<char>>, i: usize, j: usize)
    requires
        before(names, i, j),
    ensures
        i != j,
{
    text_order_total(names[i as int], names[i as int]);
}

/// `sorted` lists the names in ascending order.
pub open spec fn sorts(names: Seq<Seq<char>>, sorted: Seq<Seq<char>>) -> bool {
    exists|order: Seq<usize>| #[trigger]
        is_stable_order(names, order) && sorted == Seq::new(
            order.len(),
            |k: int| names[order[k] as int],
        )
}

/// The names in ascending order.
pub fn sorted_texts(names: &Vec<String>) -> (r: Vec<String>)
    ensures
        sorts(texts(names@), texts(r@)),
{
    let order = stable_order(names);
    let mut out: Vec<String> = Vec::new();
    let mut k: usize = 0;
    while k < order.len()
        invariant
            k <= order@.len(),
            is_stable_order(texts(names@), order@),
            texts(out@) == Seq::new(k as nat, |j: int| texts(names@)[order@[j] as int]),
        decreases order@.len() - k,
    {
        let i: usize = order[k];
        let ghost done = out@;
        out.push(names[i].clone());
        k += 1;
        assert(texts(out@) == texts(done).push(names@[i as int]@));
        assert(texts(out@) == Seq::new(k as nat, |j: int| texts(names@)[order@[j] as int]));
    }
    out
}

proof fn lemma_same_prefix(names: Seq<Seq<char>>, a: Seq<usize>, b: Seq<usize>, k: int)
    requires
        is_stable_order(names, a),
        is_stable_order(names, b),
        0 <= k <= names.len(),
    ensures
        a.take(k) == b.take(k),
    decreases k,
{
    if k > 0 {
        lemma_same_prefix(names, a, b, k - 1);
        let x = a[k - 1];
        let y = b[k - 1];
        assert(a.contains(y) && b.contains(x));
        let i = choose|i: int| 0 <= i < a.len() && a[i] == y;
        let j = choose|j: int| 0 <= j < b.len() && b[j] == x;
        if x != y {
            if i < k - 1 {
                assert(a.take(k - 1)[i] == b.take(k - 1)[i]);
                assert(b[i] == b[k - 1]);
            }
            if j < k - 1 {
                assert(a.take(k - 1)[j] == b.take(k - 1)[j]);
                assert(a[j] == a[k - 1]);
            }
            assert(before(names, a[k - 1], a[i]));
            assert(before(names, b[k - 1], b[j]));
            lemma_before_le(names, x, y);
            lemma_before_le(names, y, x);
            text_order_antisymmetric(names[x as int], names[y as int]);
            text_order_total(names[x as int], names[x as int]);
        }
        assert(a.take(k) == a.take(k - 1).push(x));
        assert(b.take(k) == b.take(k - 1).push(y));
    }
}

/// A list of names has only one stable order.
pub proof fn stable_orders_are_unique(names: Seq<Seq<char>>, a: Seq<usize>, b: Seq<usize>)
    requires
        is_stable_order(names, a),
        is_stable_order(names, b),
    ensures
        a == b,
{
    lemma_same_prefix(names, a, b, names.len() as int);
    assert(a.take(names.len() as int) == a);
    assert(b.take(names.len() as int) == b);
}

/// A list of names sorts in only one way.
pub proof fn sorted_lists_are_unique(
    names: Seq<Seq<char>>,
    a: Seq<Seq<char>>,
    b: Seq<Seq<char>>,
)
    requires
        sorts(names, a),
        sorts(names, b),
    ensures
        a == b,
{
    let p = choose|order: Seq<usize>| #[trigger]
        is_stable_order(names, order) && a == Seq::new(
            order.len(),
            |k: int| names[order[k] as int],
        );
    let q = choose|order: Seq<usize>| #[trigger]
        is_stable_order(names, order) && b == Seq::new(
            order.len(),
            |k: int| names[order[k] as int],
        );
    stable_orders_are_unique(names, p, q);
}

/// Texts are ordered by the first byte in which they differ, and a text comes
/// before all that it begins.
pub proof fn the_first_difference_decides(common: Seq<u8>, a: Seq<u8>, b: Seq<u8>)
    ensures
        bytes_le(common, common + a),
        a.len() > 0 ==> !bytes_le(common + a, common),
        a.len() > 0 && b.len() > 0 && a[0] < b[0] ==> bytes_le(common + a, common + b)
            && !bytes_le(common + b, common + a),
    decreases common.len(),
{
    if common.len() == 0 {
        assert(common + a == a);
        assert(common + b == b);
    } else {
        let rest = common.drop_first();
        the_first_difference_decides(rest, a, b);
        assert((common + a).drop_first() == rest + a);
        assert((common + b).drop_first() == rest + b);
    }
}

/// A sorted list is in ascending order, as long as the list that it sorts, and
/// holds the same names.
pub proof fn sorting_keeps_the_names(names: Seq<Seq<char>>, sorted: Seq<Seq<char>>)
    requires
        sorts(names, sorted),
        names.len() <= usize::MAX,
    ensures
        sorted.len() == names.len(),
        forall|k: int, l: int|
            0 <= k < l < sorted.len() ==> text_le(#[trigger] sorted[k], #[trigger] sorted[l]),
        forall|name: Seq<char>| names.contains(name) <==> #[trigger] sorted.contains(name),
{
    let order = choose|order: Seq<usize>| #[trigger]
        is_stable_order(names, order) && sorted == Seq::new(
            order.len(),
            |k: int| names[order[k] as int],
        );
    assert forall|k: int, l: int| 0 <= k < l < sorted.len() implies text_le(
        #[trigger] sorted[k],
        #[trigger] sorted[l],
    ) by {
        assert(before(names, order[k], order[l]));
        text_order_total(sorted[k], sorted[l]);
    }
    assert forall|name: Seq<char>| names.contains(name) <==> #[trigger] sorted.contains(name) by {
        if names.contains(name) {
            let i = choose|i: int| 0 <= i < names.len() && names[i] == name;
            assert(order.contains(i as usize));
            let k = choose|k: int| 0 <= k < order.len() && order[k] == i as usize;
            assert(sorted[k] == name);
        }
        if sorted.contains(name) {
            let k = choose|k: int| 0 <= k < sorted.len() && sorted[k] == name;
            assert(names[order[k] as int] == name);
        }
    }
}

/// Sorting is stable: equal names stay in the order in which they were given.
pub proof fn equal_names_keep_their_order(
    names: Seq<Seq<char>>,
    order: Seq<usize>,
    k: int,
    l: int,
)
    requires
        is_stable_order(names, order),
        0 <= k < l < order.len(),
        names[order[k] as int] == names[order[l] as int],
    ensures
        order[k] < order[l],
{
    assert(before(names, order[k], order[l]));
    text_order_total(names[order[k] as int], names[order[k] as int]);
}

} // verus!
