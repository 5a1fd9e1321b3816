//! A sorted set of names.
use vstd::prelude::*;

use crate::order::{precedes, text_le, text_lt, text_order_antisymmetric, text_order_total, text_order_transitive};
use crate::text::{copy_texts, same};

verus! {

/// A set of names, kept in ascending order without repetition.
#[derive(Debug)]
pub struct NameSet {
    names: Vec<String>,
}

impl View for NameSet {
    type V = Set<Seq<char>>;

    closed spec fn view(&self) -> Set<Seq<char>> {
        Set::new(|s: Seq<char>| exists|i: int| 0 <= i < self.names@.len() && #[trigger] self.names@[i]@ == s)
    }
}

impl NameSet {
    /// The names in ascending order.
    pub closed spec fn listed(&self) -> Seq<String> {
        self.names@
    }

    #[verifier::type_invariant]
    spec fn inv(&self) -> bool {
        forall|i: int, j: int|
            0 <= i < j < self.names@.len() ==> text_lt(
                #[trigger] self.names@[i]@,
                #[trigger] self.names@[j]@,
            )
    }

    /// The empty set.
    pub fn new() -> (r: Self)
        ensures
            r@ == Set::<Seq<char>>::empty(),
    {
        let r = NameSet { names: Vec::new() };
        assert(r@ == Set::<Seq<char>>::empty());
        r
    }

    /// Whether `name` is in the set.
    pub fn contains(&self, name: &str) -> (r: bool)
        ensures
            r == self@.contains(name@),
    {
        let mut i: usize = 0;
        while i < self.names.len()
            invariant
                i <= self.names@.len(),
                forall|k: int| 0 <= k < i ==> self.names@[k]@ != name@,
            decreases self.names@.len() - i,
        {
            if same(self.names[i].as_str(), name) {
                assert(self.names@[i as int]@ == name@);
                return true;
            }
            i += 1;
        }
        false
    }

    /// Add `name`; the result says whether it was new.
    pub fn insert(&mut self, name: &str) -> (added: bool)
        ensures
            final(self)@ == old(self)@.insert(name@),
            added == !old(self)@.contains(name@),
    {
        proof {
            use_type_invariant(&*self);
        }
        if self.contains(name) {
            assert(self@ == self@.insert(name@));
            return false;
        }
        let ghost before = self.names@;
        let mut names = copy_texts(&self.names);
        let mut at: usize = names.len();
        while at > 0 && !precedes(names[at - 1].as_str(), name)
            invariant
                at <= names@.len(),
                names@ == before,
                forall|k: int| at <= k < names@.len() ==> text_lt(name@, #[trigger] names@[k]@),
            decreases at,
        {
            at -= 1;
        }
        let entry = name.to_owned();
        names.insert(at, entry);
        proof {
            assert forall|i: int, j: int| 0 <= i < j < names@.len() implies text_lt(
                #[trigger] names@[i]@,
                #[trigger] names@[j]@,
            ) by {
                if j < at {
                    assert(names@[i] == before[i]);
                    assert(names@[j] == before[j]);
                } else if j == at {
                    assert(names@[i] == before[i]);
                    let last = before[at - 1]@;
                    if i < at - 1 {
                        text_order_total(before[i]@, last);
                        text_order_transitive(before[i]@, last, name@);
                    }
                    if text_le(name@, before[i]@) {
                        text_order_antisymmetric(before[i]@, name@);
                        assert(self@.contains(name@));
                    }
                } else if i < at {
                    assert(names@[i] == before[i]);
                    assert(names@[j] == before[j - 1]);
                } else if i == at {
                    assert(names@[j] == before[j - 1]);
                } else {
                    assert(names@[i] == before[i - 1]);
                    assert(names@[j] == before[j - 1]);
                }
            }
        }
        *self = NameSet { names };
        proof {
            assert forall|s: Seq<char>| #[trigger]
                self@.contains(s) == old(self)@.insert(name@).contains(s) by {
                if old(self)@.contains(s) {
                    let k = choose|k: int| 0 <= k < before.len() && #[trigger] before[k]@ == s;
                    if k < at {
                        assert(names@[k]@ == s);
                    } else {
                        assert(names@[k + 1]@ == s);
                    }
                }
                if s == name@ {
                    assert(names@[at as int]@ == s);
                }
                if self@.contains(s) {
                    let k = choose|k: int| 0 <= k < names@.len() && #[trigger] names@[k]@ == s;
                    if k < at {
                        assert(before[k]@ == s);
                    } else if k > at {
                        assert(before[k - 1]@ == s);
                    }
                }
            }
            assert(self@ == old(self)@.insert(name@));
        }
        true
    }

    /// The set of the given names.
    pub fn from_names(names: &Vec<String>) -> (r: Self)
        ensures
            r@ == crate::text::texts(names@).to_set(),
    {
        let mut out = NameSet::new();
        let mut i: usize = 0;
        let ghost keys = crate::text::texts(names@);
        assert(keys.take(0).to_set() == Set::<Seq<char>>::empty());
        while i < names.len()
            invariant
                i <= names@.len(),
                keys == crate::text::texts(names@),
                out@ == keys.take(i as int).to_set(),
            decreases names@.len() - i,
        {
            out.insert(names[i].as_str());
            proof {
                let a = keys.take(i as int);
                let b = keys.take(i + 1);
                assert(b == a.push(keys[i as int]));
                assert forall|s: Seq<char>| #[trigger]
                    b.to_set().contains(s) == a.to_set().insert(keys[i as int]).contains(s) by {
                    if a.contains(s) {
                        let k = choose|k: int| 0 <= k < a.len() && a[k] == s;
                        assert(b[k] == s);
                    }
                    if s == keys[i as int] {
                        assert(b[i as int] == s);
                    }
                    if b.contains(s) {
                        let k = choose|k: int| 0 <= k < b.len() && b[k] == s;
                        if k < i {
                            assert(a[k] == s);
                        }
                    }
                }
                assert(b.to_set() == a.to_set().insert(keys[i as int]));
            }
            i += 1;
        }
        assert(keys.take(names@.len() as int) == keys);
        out
    }

    /// Whether the two sets have no name in common.
    pub fn is_disjoint(&self, other: &NameSet) -> (r: bool)
        ensures
            r == self@.disjoint(other@),
    {
        let mut i: usize = 0;
        while i < self.names.len()
            invariant
                i <= self.names@.len(),
                forall|k: int| 0 <= k < i ==> !other@.contains(#[trigger] self.names@[k]@),
            decreases self.names@.len() - i,
        {
            if other.contains(self.names[i].as_str()) {
                assert(self@.contains(self.names@[i as int]@));
                return false;
            }
            i += 1;
        }
        true
    }

    /// The names in ascending order.
    pub fn to_vec(&self) -> (r: Vec<String>)
        ensures
            r@ == self.listed(),
            crate::text::texts(r@).to_set() == self@,
            forall|i: int, j: int|
                0 <= i < j < r@.len() ==> text_lt(#[trigger] r@[i]@, #[trigger] r@[j]@),
    {
        proof {
            use_type_invariant(self);
        }
        let r = copy_texts(&self.names);
        proof {
            let keys = crate::text::texts(r@);
            assert forall|s: Seq<char>| #[trigger] keys.to_set().contains(s) == self@.contains(
                s,
            ) by {
                if keys.contains(s) {
                    let k = choose|k: int| 0 <= k < keys.len() && keys[k] == s;
                    assert(self.names@[k]@ == s);
                }
                if self@.contains(s) {
                    let k = choose|k: int|
                        0 <= k < self.names@.len() && #[trigger] self.names@[k]@ == s;
                    assert(keys[k] == s);
                }
            }
            assert(keys.to_set() == self@);
        }
        r
    }
}

impl Clone for NameSet {
    fn clone(&self) -> (r: Self)
        ensures
            r@ == self@,
            r.listed() == self.listed(),
    {
        proof {
            use_type_invariant(self);
        }
        let r = NameSet { names: copy_texts(&self.names) };
        r
    }
}

/// A set made of names holds exactly those names, whatever their order and however
/// often they are given, and lists each of them once in ascending order.
pub proof fn sets_hold_the_names_given(
    names: Vec<String>,
    set: NameSet,
    name: &str,
    found: bool,
    list: Vec<String>,
)
    requires
        call_ensures(NameSet::from_names, (&names,), set),
        call_ensures(NameSet::contains, (&set, name), found),
        call_ensures(NameSet::to_vec, (&set,), list),
    ensures
        found <==> crate::text::texts(names@).contains(name@),
        found <==> crate::text::texts(list@).contains(name@),
        forall|i: int, j: int|
            0 <= i < j < list@.len() ==> text_lt(#[trigger] list@[i]@, #[trigger] list@[j]@),
{
    let given = crate::text::texts(names@);
    let listed = crate::text::texts(list@);
    assert(given.to_set().contains(name@) <==> given.contains(name@));
    assert(listed.to_set().contains(name@) <==> listed.contains(name@));
}

/// Two sets are disjoint exactly when no name is in both.
pub proof fn disjoint_sets_share_no_name(
    a: NameSet,
    b: NameSet,
    apart: bool,
    name: &str,
    in_a: bool,
    in_b: bool,
)
    requires
        call_ensures(NameSet::is_disjoint, (&a, &b), apart),
        call_ensures(NameSet::contains, (&a, name), in_a),
        call_ensures(NameSet::contains, (&b, name), in_b),
    ensures
        in_a && in_b ==> !apart,
        !apart ==> exists|shared: Seq<char>| #[trigger] a@.contains(shared) && b@.contains(shared),
{
}

} // verus!
