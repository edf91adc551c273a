//! Small verified containers used across the simulator: a set of event
//! ids, a set of node names, a set of directed links and a timer table.
//!
//! All of them are backed by vectors with a no-duplicates invariant, and
//! their contracts speak of membership over their views, so the structures
//! that use them can state their behaviour set-wise.

use vstd::prelude::*;

verus! {

/// Every index of `s` below `bound` holds something other than `x`.
pub open spec fn seq_misses<T>(s: Seq<T>, x: T) -> bool {
    forall|k: int| 0 <= k < s.len() ==> s[k] != x
}

proof fn lemma_contains_iff<T>(s: Seq<T>, x: T)
    ensures
        s.contains(x) <==> !seq_misses(s, x),
{
    if s.contains(x) {
        let k = choose|k: int| 0 <= k < s.len() && s[k] == x;
        assert(!seq_misses(s, x));
    }
    if !seq_misses(s, x) {
        let k = choose|k: int| 0 <= k < s.len() && s[k] == x;
        assert(s.contains(x));
    }
}

/// A set of event identifiers, used for lazy cancellation.
pub struct CancelSet {
    items: Vec<u64>,
}

impl View for CancelSet {
    type V = Seq<u64>;

    closed spec fn view(&self) -> Seq<u64> {
        self.items@
    }
}

impl CancelSet {
    /// No id occurs twice.
    pub open spec fn wf(&self) -> bool {
        forall|i: int, j: int| 0 <= i < j < self@.len() ==> self@[i] != self@[j]
    }

    pub open spec fn contains(&self, id: u64) -> bool {
        self@.contains(id)
    }

    pub fn new() -> (r: CancelSet)
        ensures
            r.wf(),
            r@.len() == 0,
            forall|id: u64| !r.contains(id),
    {
        let r = CancelSet { items: Vec::new() };
        proof {
            assert forall|id: u64| !r.contains(id) by {
                lemma_contains_iff(r@, id);
            }
        }
        r
    }

    pub fn has(&self, id: u64) -> (r: bool)
        ensures
            r == self.contains(id),
    {
        let mut i: usize = 0;
        while i < self.items.len()
            invariant
                i <= self.items@.len(),
                self.items@ == self@,
                forall|j: int| 0 <= j < i ==> self.items@[j] != id,
            decreases self.items@.len() - i,
        {
            if self.items[i] == id {
                assert(self@.contains(id));
                return true;
            }
            i += 1;
        }
        proof {
            lemma_contains_iff(self@, id);
        }
        false
    }

    /// Record `id` as canceled; recording it again changes nothing.
    pub fn insert(&mut self, id: u64)
        requires
            old(self).wf(),
        ensures
            final(self).wf(),
            final(self).contains(id),
            forall|x: u64| x != id ==> final(self).contains(x) == old(self).contains(x),
            old(self).contains(id) ==> final(self)@ == old(self)@,
    {
        if !self.has(id) {
            proof {
                lemma_contains_iff(self@, id);
            }
            self.items.push(id);
            assert(self@ == old(self)@.push(id));
            assert(self@.contains(id)) by {
                assert(self@[self@.len() - 1] == id);
            }
            assert forall|x: u64| x != id implies self.contains(x) == old(self).contains(x) by {
                lemma_contains_iff(self@, x);
                lemma_contains_iff(old(self)@, x);
                if !seq_misses(old(self)@, x) {
                    let k = choose|k: int| 0 <= k < old(self)@.len() && old(self)@[k] == x;
                    assert(self@[k] == x);
                }
            }
        }
    }

    /// Remove `id`, reporting whether it was present.
    pub fn remove(&mut self, id: u64) -> (r: bool)
        requires
            old(self).wf(),
        ensures
            final(self).wf(),
            r == old(self).contains(id),
            !final(self).contains(id),
            forall|x: u64| x != id ==> final(self).contains(x) == old(self).contains(x),
            !old(self).contains(id) ==> *final(self) == *old(self),
    {
        let mut i: usize = 0;
        while i < self.items.len()
            invariant
                old(self).wf(),
                *self == *old(self),
                self.items@ == old(self)@,
                self@ == old(self)@,
                i <= self.items@.len(),
                forall|j: int| 0 <= j < i ==> self.items@[j] != id,
            decreases self.items@.len() - i,
        {
            if self.items[i] == id {
                assert(self@.contains(id));
                let ghost pre = self.items@;
                self.items.remove(i);
                proof {
                    assert forall|x: u64| self@.contains(x) implies pre.contains(x) && x != id by {
                        let k = choose|k: int| 0 <= k < self@.len() && self@[k] == x;
                        if k < i {
                            assert(pre[k] == x);
                        } else {
                            assert(pre[k + 1] == x);
                        }
                    }
                    assert forall|x: u64| x != id && pre.contains(x) implies self@.contains(x) by {
                        let k = choose|k: int| 0 <= k < pre.len() && pre[k] == x;
                        if k < i {
                            assert(self@[k] == x);
                        } else {
                            assert(self@[k - 1] == x);
                        }
                    }
                    lemma_contains_iff(self@, id);
                }
                return true;
            }
            i += 1;
        }
        proof {
            lemma_contains_iff(self@, id);
        }
        false
    }

    pub fn clear(&mut self)
        ensures
            final(self).wf(),
            final(self)@.len() == 0,
            forall|id: u64| !final(self).contains(id),
    {
        self.items.clear();
        proof {
            assert forall|id: u64| !self.contains(id) by {
                lemma_contains_iff(self@, id);
            }
        }
    }

    /// A deep copy with the same membership.
    pub fn duplicate(&self) -> (r: CancelSet)
        ensures
            r@ == self@,
    {
        let mut out: Vec<u64> = Vec::new();
        let mut i: usize = 0;
        while i < self.items.len()
            invariant
                i <= self.items@.len(),
                self.items@ == self@,
                out@ == self@.subrange(0, i as int),
            decreases self.items@.len() - i,
        {
            out.push(self.items[i]);
            assert(out@ == self@.subrange(0, i as int + 1));
            i += 1;
        }
        assert(out@ == self@);
        CancelSet { items: out }
    }
}

/// The sequence of names a vector of strings stands for.
pub open spec fn names_of(items: Seq<String>) -> Seq<Seq<char>> {
    Seq::new(items.len(), |i: int| items[i]@)
}

/// A set of node names.
pub struct NameSet {
    items: Vec<String>,
}

impl View for NameSet {
    type V = Seq<Seq<char>>;

    closed spec fn view(&self) -> Seq<Seq<char>> {
        names_of(self.items@)
    }
}

impl NameSet {
    pub open spec fn wf(&self) -> bool {
        forall|i: int, j: int| 0 <= i < j < self@.len() ==> self@[i] != self@[j]
    }

    pub open spec fn contains(&self, name: Seq<char>) -> bool {
        self@.contains(name)
    }

    pub fn new() -> (r: NameSet)
        ensures
            r.wf(),
            r@.len() == 0,
            forall|n: Seq<char>| !r.contains(n),
    {
        let r = NameSet { items: Vec::new() };
        proof {
            assert forall|n: Seq<char>| !r.contains(n) by {
                lemma_contains_iff(r@, n);
            }
        }
        r
    }

    pub fn has(&self, name: &str) -> (r: bool)
        ensures
            r == self.contains(name@),
    {
        let wanted = name.to_owned();
        let mut i: usize = 0;
        while i < self.items.len()
            invariant
                i <= self.items@.len(),
                wanted@ == name@,
                forall|j: int| 0 <= j < i ==> self@[j] != name@,
            decreases self.items@.len() - i,
        {
            if self.items[i] == wanted {
                assert(self@[i as int] == name@);
                assert(self@.contains(name@));
                return true;
            }
            assert(self@[i as int] != name@);
            i += 1;
        }
        proof {
            lemma_contains_iff(self@, name@);
        }
        false
    }

    /// Add `name`; adding a present name changes nothing.
    pub fn insert(&mut self, name: &str)
        requires
            old(self).wf(),
        ensures
            final(self).wf(),
            final(self).contains(name@),
            forall|n: Seq<char>| n != name@ ==> final(self).contains(n) == old(self).contains(n),
            old(self).contains(name@) ==> final(self)@ == old(self)@,
    {
        if !self.has(name) {
            proof {
                lemma_contains_iff(self@, name@);
            }
            let owned = name.to_owned();
            self.items.push(owned);
            assert(self@ =~= old(self)@.push(name@));
            assert(self@.contains(name@)) by {
                assert(self@[self@.len() - 1] == name@);
            }
            assert forall|n: Seq<char>| n != name@ implies self.contains(n) == old(self).contains(
                n,
            ) by {
                lemma_contains_iff(self@, n);
                lemma_contains_iff(old(self)@, n);
                if !seq_misses(old(self)@, n) {
                    let k = choose|k: int| 0 <= k < old(self)@.len() && old(self)@[k] == n;
                    assert(self@[k] == n);
                }
            }
        }
    }

    /// Remove `name`; removing an absent name changes nothing.
    pub fn remove(&mut self, name: &str)
        requires
            old(self).wf(),
        ensures
            final(self).wf(),
            !final(self).contains(name@),
            forall|n: Seq<char>| n != name@ ==> final(self).contains(n) == old(self).contains(n),
            !old(self).contains(name@) ==> final(self)@ == old(self)@,
    {
        let wanted = name.to_owned();
        let mut i: usize = 0;
        while i < self.items.len()
            invariant
                old(self).wf(),
                self@ == old(self)@,
                self.items@.len() == self@.len(),
                wanted@ == name@,
                i <= self.items@.len(),
                forall|j: int| 0 <= j < i ==> self@[j] != name@,
            decreases self.items@.len() - i,
        {
            if self.items[i] == wanted {
                assert(self@[i as int] == name@);
                assert(self@.contains(name@));
                let ghost pre = self@;
                self.items.remove(i);
                proof {
                    assert(self@ =~= pre.subrange(0, i as int) + pre.subrange(
                        i as int + 1,
                        pre.len() as int,
                    ));
                    assert forall|n: Seq<char>| self@.contains(n) implies pre.contains(n) && n
                        != name@ by {
                        let k = choose|k: int| 0 <= k < self@.len() && self@[k] == n;
                        if k < i {
                            assert(pre[k] == n);
                        } else {
                            assert(pre[k + 1] == n);
                        }
                    }
                    assert forall|n: Seq<char>| n != name@ && pre.contains(n) implies self@.contains(
                        n,
                    ) by {
                        let k = choose|k: int| 0 <= k < pre.len() && pre[k] == n;
                        if k < i {
                            assert(self@[k] == n);
                        } else {
                            assert(self@[k - 1] == n);
                        }
                    }
                    lemma_contains_iff(self@, name@);
                }
                return;
            }
            assert(self@[i as int] != name@);
            i += 1;
        }
        proof {
            lemma_contains_iff(self@, name@);
        }
    }

    pub fn clear(&mut self)
        ensures
            final(self).wf(),
            final(self)@.len() == 0,
            forall|n: Seq<char>| !final(self).contains(n),
    {
        self.items.clear();
        proof {
            assert(self@ =~= Seq::<Seq<char>>::empty());
            assert forall|n: Seq<char>| !self.contains(n) by {
                lemma_contains_iff(self@, n);
            }
        }
    }

    /// A deep copy with the same membership.
    pub fn duplicate(&self) -> (r: NameSet)
        ensures
            r@ == self@,
    {
        let mut out: Vec<String> = Vec::new();
        let mut i: usize = 0;
        while i < self.items.len()
            invariant
                i <= self.items@.len(),
                out@.len() == i,
                forall|j: int| 0 <= j < i ==> out@[j]@ == self@[j],
            decreases self.items@.len() - i,
        {
            out.push(self.items[i].clone());
            i += 1;
        }
        let r = NameSet { items: out };
        assert(r@ =~= self@);
        r
    }
}

/// The sequence of directed links a vector of string pairs stands for.
pub open spec fn links_of(items: Seq<(String, String)>) -> Seq<(Seq<char>, Seq<char>)> {
    Seq::new(items.len(), |i: int| (items[i].0@, items[i].1@))
}

/// A set of directed links `(from, to)`.
pub struct LinkSet {
    items: Vec<(String, String)>,
}

impl View for LinkSet {
    type V = Seq<(Seq<char>, Seq<char>)>;

    closed spec fn view(&self) -> Seq<(Seq<char>, Seq<char>)> {
        links_of(self.items@)
    }
}

impl LinkSet {
    pub open spec fn wf(&self) -> bool {
        forall|i: int, j: int| 0 <= i < j < self@.len() ==> self@[i] != self@[j]
    }

    pub open spec fn contains(&self, from: Seq<char>, to: Seq<char>) -> bool {
        self@.contains((from, to))
    }

    pub fn new() -> (r: LinkSet)
        ensures
            r.wf(),
            r@.len() == 0,
            forall|f: Seq<char>, t: Seq<char>| !r.contains(f, t),
    {
        let r = LinkSet { items: Vec::new() };
        proof {
            assert forall|f: Seq<char>, t: Seq<char>| !r.contains(f, t) by {
                lemma_contains_iff(r@, (f, t));
            }
        }
        r
    }

    pub fn has(&self, from: &str, to: &str) -> (r: bool)
        ensures
            r == self.contains(from@, to@),
    {
        let wf_ = from.to_owned();
        let wt = to.to_owned();
        let mut i: usize = 0;
        while i < self.items.len()
            invariant
                i <= self.items@.len(),
                wf_@ == from@,
                wt@ == to@,
                forall|j: int| 0 <= j < i ==> self@[j] != (from@, to@),
            decreases self.items@.len() - i,
        {
            if self.items[i].0 == wf_ && self.items[i].1 == wt {
                assert(self@[i as int] == (from@, to@));
                assert(self@.contains((from@, to@)));
                return true;
            }
            assert(self@[i as int] != (from@, to@));
            i += 1;
        }
        proof {
            lemma_contains_iff(self@, (from@, to@));
        }
        false
    }

    /// Add a link; adding a present link changes nothing.
    pub fn insert(&mut self, from: &str, to: &str)
        requires
            old(self).wf(),
        ensures
            final(self).wf(),
            final(self).contains(from@, to@),
            forall|f: Seq<char>, t: Seq<char>|
                (f, t) != (from@, to@) ==> final(self).contains(f, t) == old(self).contains(f, t),
            old(self).contains(from@, to@) ==> final(self)@ == old(self)@,
    {
        if !self.has(from, to) {
            proof {
                lemma_contains_iff(self@, (from@, to@));
            }
            let pair = (from.to_owned(), to.to_owned());
            self.items.push(pair);
            assert(self@ =~= old(self)@.push((from@, to@)));
            assert(self@.contains((from@, to@))) by {
                assert(self@[self@.len() - 1] == (from@, to@));
            }
            assert forall|f: Seq<char>, t: Seq<char>| (f, t) != (from@, to@) implies self.contains(
                f,
                t,
            ) == old(self).contains(f, t) by {
                lemma_contains_iff(self@, (f, t));
                lemma_contains_iff(old(self)@, (f, t));
                if !seq_misses(old(self)@, (f, t)) {
                    let k = choose|k: int| 0 <= k < old(self)@.len() && old(self)@[k] == (f, t);
                    assert(self@[k] == (f, t));
                }
            }
        }
    }

    /// Remove a link; removing an absent link changes nothing.
    pub fn remove(&mut self, from: &str, to: &str)
        requires
            old(self).wf(),
        ensures
            final(self).wf(),
            !final(self).contains(from@, to@),
            forall|f: Seq<char>, t: Seq<char>|
                (f, t) != (from@, to@) ==> final(self).contains(f, t) == old(self).contains(f, t),
            !old(self).contains(from@, to@) ==> final(self)@ == old(self)@,
    {
        let wf_ = from.to_owned();
        let wt = to.to_owned();
        let mut i: usize = 0;
        while i < self.items.len()
            invariant
                old(self).wf(),
                self@ == old(self)@,
                self.items@.len() == self@.len(),
                wf_@ == from@,
                wt@ == to@,
                i <= self.items@.len(),
                forall|j: int| 0 <= j < i ==> self@[j] != (from@, to@),
            decreases self.items@.len() - i,
        {
            if self.items[i].0 == wf_ && self.items[i].1 == wt {
                assert(self@[i as int] == (from@, to@));
                assert(self@.contains((from@, to@)));
                let ghost pre = self@;
                self.items.remove(i);
                proof {
                    assert(self@ =~= pre.subrange(0, i as int) + pre.subrange(
                        i as int + 1,
                        pre.len() as int,
                    ));
                    assert forall|p: (Seq<char>, Seq<char>)| self@.contains(p) implies pre.contains(
                        p,
                    ) && p != (from@, to@) by {
                        let k = choose|k: int| 0 <= k < self@.len() && self@[k] == p;
                        if k < i {
                            assert(pre[k] == p);
                        } else {
                            assert(pre[k + 1] == p);
                        }
                    }
                    assert forall|p: (Seq<char>, Seq<char>)|
                        p != (from@, to@) && pre.contains(p) implies self@.contains(p) by {
                        let k = choose|k: int| 0 <= k < pre.len() && pre[k] == p;
                        if k < i {
                            assert(self@[k] == p);
                        } else {
                            assert(self@[k - 1] == p);
                        }
                    }
                    lemma_contains_iff(self@, (from@, to@));
                }
                return;
            }
            assert(self@[i as int] != (from@, to@));
            i += 1;
        }
        proof {
            lemma_contains_iff(self@, (from@, to@));
        }
    }

    pub fn clear(&mut self)
        ensures
            final(self).wf(),
            final(self)@.len() == 0,
            forall|f: Seq<char>, t: Seq<char>| !final(self).contains(f, t),
    {
        self.items.clear();
        proof {
            assert(self@ =~= Seq::<(Seq<char>, Seq<char>)>::empty());
            assert forall|f: Seq<char>, t: Seq<char>| !self.contains(f, t) by {
                lemma_contains_iff(self@, (f, t));
            }
        }
    }

    /// A deep copy with the same membership.
    pub fn duplicate(&self) -> (r: LinkSet)
        ensures
            r@ == self@,
    {
        let mut out: Vec<(String, String)> = Vec::new();
        let mut i: usize = 0;
        while i < self.items.len()
            invariant
                i <= self.items@.len(),
                out@.len() == i,
                forall|j: int|
                    0 <= j < i ==> (out@[j].0@, out@[j].1@) == self@[j],
            decreases self.items@.len() - i,
        {
            let f = self.items[i].0.clone();
            let t = self.items[i].1.clone();
            out.push((f, t));
            i += 1;
        }
        let r = LinkSet { items: out };
        assert(r@ =~= self@);
        r
    }
}

/// The sequence of timer entries a vector of pairs stands for.
pub open spec fn timers_of(items: Seq<(String, u64)>) -> Seq<(Seq<char>, u64)> {
    Seq::new(items.len(), |i: int| (items[i].0@, items[i].1))
}

/// A table from timer name to the id of the pending event that will fire
/// it.  Each name holds at most one entry.
pub struct TimerTable {
    items: Vec<(String, u64)>,
}

impl View for TimerTable {
    type V = Seq<(Seq<char>, u64)>;

    closed spec fn view(&self) -> Seq<(Seq<char>, u64)> {
        timers_of(self.items@)
    }
}

impl TimerTable {
    /// No timer name occurs twice.
    pub open spec fn wf(&self) -> bool {
        forall|i: int, j: int| 0 <= i < j < self@.len() ==> self@[i].0 != self@[j].0
    }

    pub open spec fn has_entry(&self, name: Seq<char>, id: u64) -> bool {
        self@.contains((name, id))
    }

    pub open spec fn has_timer(&self, name: Seq<char>) -> bool {
        exists|id: u64| self.has_entry(name, id)
    }

    pub fn new() -> (r: TimerTable)
        ensures
            r.wf(),
            r@.len() == 0,
            forall|n: Seq<char>, id: u64| !r.has_entry(n, id),
    {
        let r = TimerTable { items: Vec::new() };
        proof {
            assert forall|n: Seq<char>, id: u64| !r.has_entry(n, id) by {
                lemma_contains_iff(r@, (n, id));
            }
        }
        r
    }

    /// Bind `name` to `id`, returning the id the name was bound to before,
    /// if any; that binding is gone afterwards.
    pub fn set(&mut self, name: &str, id: u64) -> (prev: Option<u64>)
        ensures
            old(self).wf() ==> {
                &&& final(self).wf()
                &&& final(self).has_entry(name@, id)
                &&& forall|x: u64| x != id ==> !final(self).has_entry(name@, x)
                &&& forall|n: Seq<char>, x: u64|
                    n != name@ ==> final(self).has_entry(n, x) == old(self).has_entry(n, x)
                &&& match prev {
                    Some(x) => old(self).has_entry(name@, x),
                    None => forall|x: u64| !old(self).has_entry(name@, x),
                }
            },
    {
        let prev = self.take(name);
        let ghost mid = *self;
        proof {
            lemma_contains_iff(self@, (name@, id));
        }
        let owned = name.to_owned();
        self.items.push((owned, id));
        assert(self@ =~= mid@.push((name@, id)));
        assert(self@.contains((name@, id))) by {
            assert(self@[self@.len() - 1] == (name@, id));
        }
        proof {
            if old(self).wf() {
            assert forall|n: Seq<char>, x: u64| self@.contains((n, x)) implies mid@.contains(
                (n, x),
            ) || (n, x) == (name@, id) by {
                let k = choose|k: int| 0 <= k < self@.len() && self@[k] == (n, x);
                if k < mid@.len() {
                    assert(mid@[k] == (n, x));
                }
            }
            assert forall|n: Seq<char>, x: u64| mid@.contains((n, x)) implies self@.contains(
                (n, x),
            ) by {
                let k = choose|k: int| 0 <= k < mid@.len() && mid@[k] == (n, x);
                assert(self@[k] == (n, x));
            }
            assert forall|k: int| 0 <= k < mid@.len() implies mid@[k].0 != name@ by {
                if mid@[k].0 == name@ {
                    assert(mid.has_entry(name@, mid@[k].1));
                }
            }
            }
        }
        prev
    }

    /// Drop the binding of `name`, returning the id it was bound to.
    pub fn take(&mut self, name: &str) -> (r: Option<u64>)
        ensures
            old(self).wf() ==> {
                &&& final(self).wf()
                &&& (forall|x: u64| !final(self).has_entry(name@, x))
                &&& forall|n: Seq<char>, x: u64|
                    n != name@ ==> final(self).has_entry(n, x) == old(self).has_entry(n, x)
                &&& match r {
                    Some(x) => old(self).has_entry(name@, x),
                    None => {
                        &&& forall|x: u64| !old(self).has_entry(name@, x)
                        &&& final(self)@ == old(self)@
                    },
                }
            },
    {
        let wanted = name.to_owned();
        let mut i: usize = 0;
        while i < self.items.len()
            invariant
                self@ == old(self)@,
                self.items@.len() == self@.len(),
                wanted@ == name@,
                i <= self.items@.len(),
                forall|j: int| 0 <= j < i ==> self@[j].0 != name@,
            decreases self.items@.len() - i,
        {
            if self.items[i].0 == wanted {
                let id = self.items[i].1;
                assert(self@[i as int] == (name@, id));
                assert(self@.contains((name@, id)));
                let ghost pre = self@;
                self.items.remove(i);
                proof {
                    assert(self@ =~= pre.subrange(0, i as int) + pre.subrange(
                        i as int + 1,
                        pre.len() as int,
                    ));
                    if old(self).wf() {
                    assert forall|p: (Seq<char>, u64)| self@.contains(p) implies pre.contains(p)
                        && p.0 != name@ by {
                        let k = choose|k: int| 0 <= k < self@.len() && self@[k] == p;
                        if k < i {
                            assert(pre[k] == p);
                        } else {
                            assert(pre[k + 1] == p);
                        }
                    }
                    assert forall|p: (Seq<char>, u64)|
                        p.0 != name@ && pre.contains(p) implies self@.contains(p) by {
                        let k = choose|k: int| 0 <= k < pre.len() && pre[k] == p;
                        if k < i {
                            assert(self@[k] == p);
                        } else {
                            assert(self@[k - 1] == p);
                        }
                    }
                    }
                }
                return Some(id);
            }
            assert(self@[i as int].0 != name@);
            i += 1;
        }
        proof {
            assert forall|x: u64| !self.has_entry(name@, x) by {
                lemma_contains_iff(self@, (name@, x));
            }
        }
        None
    }

    /// A deep copy with the same entries.
    pub fn duplicate(&self) -> (r: TimerTable)
        ensures
            r@ == self@,
    {
        let mut out: Vec<(String, u64)> = Vec::new();
        let mut i: usize = 0;
        while i < self.items.len()
            invariant
                i <= self.items@.len(),
                out@.len() == i,
                forall|j: int|
                    0 <= j < i ==> (out@[j].0@, out@[j].1) == self@[j],
            decreases self.items@.len() - i,
        {
            let n = self.items[i].0.clone();
            out.push((n, self.items[i].1));
            i += 1;
        }
        let r = TimerTable { items: out };
        assert(r@ =~= self@);
        r
    }
}

} // verus!
