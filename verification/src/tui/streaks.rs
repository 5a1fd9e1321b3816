//! Counters by name.
use vstd::prelude::*;
use vstd::string::*;

use crate::text::same;

verus! {

/// How many times in a row something was missed, by name.
#[derive(Debug)]
pub struct Streaks {
    names: Vec<String>,
    counts: Vec<u32>,
}

impl View for Streaks {
    type V = Map<Seq<char>, u32>;

    closed spec fn view(&self) -> Map<Seq<char>, u32> {
        Map::new(
            |name: Seq<char>| exists|i: int| self.holds(i, name),
            |name: Seq<char>| self.counts@[choose|i: int| self.holds(i, name)],
        )
    }
}

/// The streak of a name; none is a streak of nothing.
pub open spec fn streak_of(streaks: Map<Seq<char>, u32>, name: Seq<char>) -> u32 {
    if streaks.dom().contains(name) {
        streaks[name]
    } else {
        0
    }
}

/// One more, capped at the largest count.
pub open spec fn one_more(count: u32) -> u32 {
    if count == u32::MAX {
        u32::MAX
    } else {
        (count + 1) as u32
    }
}

impl Streaks {
    spec fn holds(&self, i: int, name: Seq<char>) -> bool {
        0 <= i < self.names@.len() && self.names@[i]@ == name
    }

    #[verifier::type_invariant]
    spec fn inv(&self) -> bool {
        &&& self.names@.len() == self.counts@.len()
        &&& forall|i: int, j: int|
            0 <= i < j < self.names@.len() ==> #[trigger] self.names@[i]@
                != #[trigger] self.names@[j]@
    }

    proof fn lemma_lookup(&self, i: int)
        requires
            self.inv(),
            0 <= i < self.names@.len(),
        ensures
            self@.dom().contains(self.names@[i]@),
            self@[self.names@[i]@] == self.counts@[i],
    {
        let name = self.names@[i]@;
        assert(self.holds(i, name));
        let j = choose|j: int| self.holds(j, name);
        assert(self.holds(j, name));
        assert(i == j) by {
            if i < j {
                assert(self.names@[i]@ != self.names@[j]@);
            } else if j < i {
                assert(self.names@[j]@ != self.names@[i]@);
            }
        }
    }

    /// No counters.
    pub fn new() -> (r: Self)
        ensures
            r@ == Map::<Seq<char>, u32>::empty(),
    {
        let r = Streaks { names: Vec::new(), counts: Vec::new() };
        assert(r@ == Map::<Seq<char>, u32>::empty());
        r
    }

    fn find(&self, name: &str) -> (r: Option<usize>)
        ensures
            match r {
                Some(i) => self.holds(i as int, name@),
                None => forall|i: int| !self.holds(i, name@),
            },
    {
        let mut i: usize = 0;
        while i < self.names.len()
            invariant
                i <= self.names@.len(),
                forall|j: int| 0 <= j < i ==> !self.holds(j, name@),
            decreases self.names@.len() - i,
        {
            if same(self.names[i].as_str(), name) {
                return Some(i);
            }
            i += 1;
        }
        None
    }

    /// The counter of a name.
    pub fn get(&self, name: &str) -> (r: u32)
        ensures
            r == streak_of(self@, name@),
    {
        proof {
            use_type_invariant(self);
        }
        match self.find(name) {
            Some(i) => {
                proof {
                    self.lemma_lookup(i as int);
                }
                self.counts[i]
            },
            None => 0,
        }
    }

    /// Count one more for a name.
    pub fn bump(&mut self, name: &str)
        ensures
            final(self)@ == old(self)@.insert(name@, one_more(streak_of(old(self)@, name@))),
    {
        proof {
            use_type_invariant(&*self);
        }
        let ghost before = *self;
        match self.find(name) {
            Some(i) => {
                let count: u32 = self.counts[i];
                proof {
                    before.lemma_lookup(i as int);
                }
                self.counts[i] = count.saturating_add(1);
                proof {
                    assert forall|n: Seq<char>| #[trigger] self@.dom().contains(n) implies self@[n]
                        == before@.insert(name@, one_more(count))[n] by {
                        let j = choose|j: int| self.holds(j, n);
                        assert(before.holds(j, n));
                        self.lemma_lookup(j);
                        before.lemma_lookup(j);
                        if n == name@ {
                            assert(i == j) by {
                                if i < j {
                                    assert(before.names@[i as int]@ != before.names@[j]@);
                                } else if j < i {
                                    assert(before.names@[j]@ != before.names@[i as int]@);
                                }
                            }
                        }
                    }
                    assert forall|n: Seq<char>| #[trigger]
                        self@.dom().contains(n) == before@.insert(
                            name@,
                            one_more(count),
                        ).dom().contains(n) by {
                        if self@.dom().contains(n) {
                            let j = choose|j: int| self.holds(j, n);
                            assert(before.holds(j, n));
                        }
                        if before@.dom().contains(n) {
                            let j = choose|j: int| before.holds(j, n);
                            assert(self.holds(j, n));
                        }
                        if n == name@ {
                            assert(self.holds(i as int, n));
                        }
                    }
                    assert(self@ == before@.insert(name@, one_more(count)));
                }
            },
            None => {
                let mut names: Vec<String> = Vec::new();
                let mut counts: Vec<u32> = Vec::new();
                let mut k: usize = 0;
                while k < self.names.len()
                    invariant
                        k <= self.names@.len(),
                        self.names@.len() == self.counts@.len(),
                        names@ == self.names@.take(k as int),
                        counts@ == self.counts@.take(k as int),
                    decreases self.names@.len() - k,
                {
                    names.push(self.names[k].clone());
                    counts.push(self.counts[k]);
                    k += 1;
                    assert(names@ == self.names@.take(k as int));
                    assert(counts@ == self.counts@.take(k as int));
                }
                assert(names@ == before.names@);
                assert(counts@ == before.counts@);
                let ghost n0 = names@.len() as int;
                names.push(name.to_owned());
                counts.push(1);
                proof {
                    assert forall|i: int, j: int|
                        0 <= i < j < names@.len() implies #[trigger] names@[i]@
                        != #[trigger] names@[j]@ by {
                        if j < n0 {
                            assert(before.names@[i]@ != before.names@[j]@);
                        } else {
                            assert(!before.holds(i, name@));
                        }
                    }
                }
                *self = Streaks { names, counts };
                proof {
                    assert(!before@.dom().contains(name@));
                    assert forall|n: Seq<char>| #[trigger]
                        self@.dom().contains(n) == before@.insert(name@, 1u32).dom().contains(
                        n,
                    ) by {
                        if self@.dom().contains(n) && n != name@ {
                            let j = choose|j: int| self.holds(j, n);
                            assert(before.holds(j, n));
                        }
                        if before@.dom().contains(n) {
                            let j = choose|j: int| before.holds(j, n);
                            assert(self.holds(j, n));
                        }
                        if n == name@ {
                            assert(self.holds(n0, n));
                        }
                    }
                    assert forall|n: Seq<char>| #[trigger] self@.dom().contains(n) implies self@[n]
                        == before@.insert(name@, 1u32)[n] by {
                        let j = choose|j: int| self.holds(j, n);
                        self.lemma_lookup(j);
                        if j < n0 {
                            before.lemma_lookup(j);
                            assert(!before.holds(j, name@));
                        }
                    }
                    assert(self@ == before@.insert(name@, 1u32));
                }
            },
        }
    }

    /// Forget a name's counter.
    pub fn remove(&mut self, name: &str)
        ensures
            final(self)@ == old(self)@.remove(name@),
    {
        proof {
            use_type_invariant(&*self);
        }
        let ghost before = *self;
        let mut names: Vec<String> = Vec::new();
        let mut counts: Vec<u32> = Vec::new();
        let mut k: usize = 0;
        let ghost mut from: Seq<int> = Seq::empty();
        while k < self.names.len()
            invariant
                k <= self.names@.len(),
                *self == before,
                before.inv(),
                names@.len() == counts@.len(),
                from.len() == names@.len(),
                forall|i: int|
                    0 <= i < from.len() ==> {
                        &&& 0 <= #[trigger] from[i] < k
                        &&& names@[i]@ == before.names@[from[i]]@
                        &&& counts@[i] == before.counts@[from[i]]
                        &&& names@[i]@ != name@
                    },
                forall|i: int, j: int|
                    0 <= i < j < from.len() ==> #[trigger] from[i] < #[trigger] from[j],
                forall|i: int|
                    0 <= i < k && #[trigger] before.names@[i]@ != name@ ==> exists|j: int|
                        0 <= j < from.len() && #[trigger] from[j] == i,
            decreases self.names@.len() - k,
        {
            let ghost kept = from;
            if !same(self.names[k].as_str(), name) {
                names.push(self.names[k].clone());
                counts.push(self.counts[k]);
                proof {
                    from = from.push(k as int);
                    assert(from[from.len() - 1] == k);
                }
            }
            proof {
                assert forall|i: int|
                    0 <= i < k + 1 && #[trigger] before.names@[i]@ != name@ implies exists|j: int|
                    0 <= j < from.len() && #[trigger] from[j] == i by {
                    if i < k {
                        let j = choose|j: int| 0 <= j < kept.len() && #[trigger] kept[j] == i;
                        assert(from[j] == i);
                    }
                }
            }
            k += 1;
        }
        proof {
            assert forall|i: int, j: int| 0 <= i < j < names@.len() implies #[trigger] names@[i]@
                != #[trigger] names@[j]@ by {
                assert(from[i] < from[j]);
                assert(before.names@[from[i]]@ != before.names@[from[j]]@);
            }
        }
        *self = Streaks { names, counts };
        proof {
            assert forall|n: Seq<char>| #[trigger]
                self@.dom().contains(n) == before@.remove(name@).dom().contains(n) by {
                if self@.dom().contains(n) {
                    let j = choose|j: int| self.holds(j, n);
                    assert(before.holds(from[j], n));
                }
                if before@.remove(name@).dom().contains(n) {
                    let j = choose|j: int| before.holds(j, n);
                    assert(before.names@[j]@ != name@);
                    let i = choose|i: int| 0 <= i < from.len() && #[trigger] from[i] == j;
                    assert(self.holds(i, n));
                }
            }
            assert forall|n: Seq<char>| #[trigger] self@.dom().contains(n) implies self@[n]
                == before@.remove(name@)[n] by {
                let j = choose|j: int| self.holds(j, n);
                self.lemma_lookup(j);
                before.lemma_lookup(from[j]);
            }
            assert(self@ == before@.remove(name@));
        }
    }

    /// Forget every counter that has reached a limit.
    pub fn drop_from(&mut self, limit: u32)
        ensures
            final(self)@ == below(old(self)@, limit),
    {
        proof {
            use_type_invariant(&*self);
        }
        let ghost before = *self;
        let mut over: Vec<String> = Vec::new();
        let mut k: usize = 0;
        while k < self.names.len()
            invariant
                k <= self.names@.len(),
                *self == before,
                before.inv(),
                forall|i: int|
                    0 <= i < over@.len() ==> {
                        &&& before@.dom().contains((#[trigger] over@[i])@)
                        &&& before@[over@[i]@] >= limit
                    },
                forall|i: int|
                    0 <= i < k && before.counts@[i] >= limit ==> exists|j: int|
                        0 <= j < over@.len() && (#[trigger] over@[j])@
                            == #[trigger] before.names@[i]@,
            decreases self.names@.len() - k,
        {
            let ghost listed = over@;
            if self.counts[k] >= limit {
                over.push(self.names[k].clone());
                proof {
                    before.lemma_lookup(k as int);
                    assert(over@[over@.len() - 1]@ == before.names@[k as int]@);
                }
            }
            proof {
                assert forall|i: int| 0 <= i < k + 1 && before.counts@[i] >= limit implies exists|
                    j: int,
                |
                    0 <= j < over@.len() && (#[trigger] over@[j])@
                        == #[trigger] before.names@[i]@ by {
                    if i < k {
                        let j = choose|j: int|
                            0 <= j < listed.len() && (#[trigger] listed[j])@
                                == before.names@[i]@;
                        assert(over@[j]@ == before.names@[i]@);
                    }
                }
            }
            k += 1;
        }
        let mut done: usize = 0;
        assert(self@ == without_first(before@, over@, 0));
        while done < over.len()
            invariant
                done <= over@.len(),
                self@ == without_first(before@, over@, done as int),
            decreases over@.len() - done,
        {
            let ghost earlier = self@;
            self.remove(over[done].as_str());
            proof {
                let later = without_first(before@, over@, done + 1);
                assert forall|n: Seq<char>| #[trigger]
                    later.dom().contains(n) == self@.dom().contains(n) by {
                    if exists|i: int| 0 <= i < done + 1 && (#[trigger] over@[i])@ == n {
                        let i = choose|i: int| 0 <= i < done + 1 && (#[trigger] over@[i])@ == n;
                        if i < done {
                            assert(over@[i]@ == n);
                        }
                    }
                    if n == over@[done as int]@ {
                        assert(over@[done as int]@ == n);
                    }
                }
                assert(self@ == later);
            }
            done += 1;
        }
        proof {
            assert forall|n: Seq<char>| #[trigger]
                self@.dom().contains(n) == below(before@, limit).dom().contains(n) by {
                if before@.dom().contains(n) {
                    let j = choose|j: int| before.holds(j, n);
                    before.lemma_lookup(j);
                    if before@[n] >= limit {
                        assert(before.counts@[j] >= limit);
                        let i = choose|i: int|
                            0 <= i < over@.len() && (#[trigger] over@[i])@
                                == before.names@[j]@;
                        assert(over@[i]@ == n);
                    }
                }
            }
            assert(self@ == below(before@, limit));
        }
    }
}

/// The counters below the limit.
pub open spec fn below(streaks: Map<Seq<char>, u32>, limit: u32) -> Map<Seq<char>, u32> {
    Map::new(
        |name: Seq<char>| streaks.dom().contains(name) && streaks[name] < limit,
        |name: Seq<char>| streaks[name],
    )
}

/// The counters without those of the first `n` listed names.
spec fn without_first(streaks: Map<Seq<char>, u32>, listed: Seq<String>, n: int) -> Map<
    Seq<char>,
    u32,
> {
    Map::new(
        |name: Seq<char>|
            streaks.dom().contains(name) && !exists|i: int|
                0 <= i < n && (#[trigger] listed[i])@ == name,
        |name: Seq<char>| streaks[name],
    )
}

/// A streak grows by one, as far as it can be counted, and a limit forgets exactly
/// the streaks that have reached it.
pub proof fn streaks_grow_by_one(streaks: Map<Seq<char>, u32>, name: Seq<char>, limit: u32)
    ensures
        streak_of(streaks, name) < u32::MAX ==> one_more(streak_of(streaks, name)) == streak_of(
            streaks,
            name,
        ) + 1,
        below(streaks, limit).dom().contains(name) <==> streaks.dom().contains(name)
            && streaks[name] < limit,
        below(streaks, limit).dom().contains(name) ==> below(streaks, limit)[name]
            == streaks[name],
        !streaks.dom().contains(name) ==> streak_of(streaks, name) == 0,
        streaks.dom().contains(name) ==> streak_of(streaks, name) == streaks[name],
{
}

} // verus!
