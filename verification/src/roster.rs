//! Lists keyed by a subscriber's number, in ascending order.
use vstd::prelude::*;

verus! {

/// Whether entries stand in strictly ascending order of their numbers.
pub open spec fn ascending<T>(s: Seq<(i32, T)>) -> bool {
    forall|i: int, j: int| 0 <= i < j < s.len() ==> (#[trigger] s[i]).0 < (#[trigger] s[j]).0
}

/// Where a number stands, or where it would be put in.
pub open spec fn place<T>(s: Seq<(i32, T)>, id: i32) -> int
    decreases s.len(),
{
    if s.len() == 0 || s[0].0 >= id {
        0
    } else {
        1 + place(s.skip(1), id)
    }
}

/// Whether a number is on the list.
pub open spec fn holds<T>(s: Seq<(i32, T)>, id: i32) -> bool {
    place(s, id) < s.len() && s[place(s, id)].0 == id
}

/// What is kept under a number.
pub open spec fn lookup<T>(s: Seq<(i32, T)>, id: i32) -> Option<T> {
    if holds(s, id) {
        Some(s[place(s, id)].1)
    } else {
        None
    }
}

/// The list with `value` kept under `id`.
pub open spec fn put<T>(s: Seq<(i32, T)>, id: i32, value: T) -> Seq<(i32, T)> {
    if holds(s, id) {
        s.update(place(s, id), (id, value))
    } else {
        s.insert(place(s, id), (id, value))
    }
}

/// The list without `id`.
pub open spec fn without<T>(s: Seq<(i32, T)>, id: i32) -> Seq<(i32, T)> {
    if holds(s, id) {
        s.remove(place(s, id))
    } else {
        s
    }
}

/// The numbers before a place are smaller, and the one at the place is not.
pub proof fn lemma_place<T>(s: Seq<(i32, T)>, id: i32)
    ensures
        0 <= place(s, id) <= s.len(),
        forall|i: int| 0 <= i < place(s, id) ==> (#[trigger] s[i]).0 < id,
        place(s, id) < s.len() ==> s[place(s, id)].0 >= id,
    decreases s.len(),
{
    if s.len() > 0 && s[0].0 < id {
        let rest = s.skip(1);
        lemma_place(rest, id);
        assert forall|i: int| 0 <= i < place(s, id) implies (#[trigger] s[i]).0 < id by {
            if i > 0 {
                assert(rest[i - 1] == s[i]);
            }
        }
        if place(s, id) < s.len() {
            assert(rest[place(rest, id)] == s[place(s, id)]);
        }
    }
}

/// A place is known by what stands before and at it.
pub proof fn lemma_place_unique<T>(s: Seq<(i32, T)>, id: i32, p: int)
    requires
        0 <= p <= s.len(),
        forall|i: int| 0 <= i < p ==> (#[trigger] s[i]).0 < id,
        p < s.len() ==> s[p].0 >= id,
    ensures
        place(s, id) == p,
{
    lemma_place(s, id);
    let q = place(s, id);
    if q < p {
        assert(s[q].0 < id);
    }
    if p < q {
        assert(s[p].0 < id);
    }
}

/// In an ascending list an entry is found under its number.
pub proof fn lemma_lookup_at<T>(s: Seq<(i32, T)>, i: int)
    requires
        ascending(s),
        0 <= i < s.len(),
    ensures
        place(s, s[i].0) == i,
        lookup(s, s[i].0) == Some(s[i].1),
{
    lemma_place_unique(s, s[i].0, i);
}

/// A number that stands nowhere is not held.
pub proof fn lemma_lookup_none<T>(s: Seq<(i32, T)>, id: i32)
    requires
        forall|i: int| 0 <= i < s.len() ==> (#[trigger] s[i]).0 != id,
    ensures
        lookup(s, id) is None,
{
    lemma_place(s, id);
}

/// Putting an entry in keeps the order.
pub proof fn lemma_put_ascending<T>(s: Seq<(i32, T)>, id: i32, value: T)
    requires
        ascending(s),
    ensures
        ascending(put(s, id, value)),
        place(put(s, id, value), id) == place(s, id),
{
    lemma_place(s, id);
    let p = place(s, id);
    let t = put(s, id, value);
    assert forall|i: int, j: int| 0 <= i < j < t.len() implies (#[trigger] t[i]).0 < (
    #[trigger] t[j]).0 by {
        if holds(s, id) {
            assert(t[i].0 == s[i].0 && t[j].0 == s[j].0);
        } else if j < p {
            assert(t[i] == s[i] && t[j] == s[j]);
        } else if j == p {
            assert(t[i] == s[i]);
        } else if i < p {
            assert(t[i] == s[i] && t[j] == s[j - 1]);
        } else if i == p {
            assert(t[j] == s[j - 1]);
            assert(s[p].0 > id);
            if p < j - 1 {
                assert(s[p].0 < s[j - 1].0);
            }
        } else {
            assert(t[i] == s[i - 1] && t[j] == s[j - 1]);
        }
    }
    assert forall|i: int| 0 <= i < p implies (#[trigger] t[i]).0 < id by {
        assert(t[i] == s[i]);
    }
    lemma_place_unique(t, id, p);
}

/// Taking an entry out keeps the order.
pub proof fn lemma_without_ascending<T>(s: Seq<(i32, T)>, id: i32)
    requires
        ascending(s),
    ensures
        ascending(without(s, id)),
{
    lemma_place(s, id);
    let p = place(s, id);
    let t = without(s, id);
    if holds(s, id) {
        assert forall|i: int, j: int| 0 <= i < j < t.len() implies (#[trigger] t[i]).0 < (
        #[trigger] t[j]).0 by {
            let a = if i < p {
                i
            } else {
                i + 1
            };
            let b = if j < p {
                j
            } else {
                j + 1
            };
            assert(t[i] == s[a] && t[j] == s[b]);
        }
    }
}

/// What is put under a number is found under it, and the others are left alone.
pub proof fn lemma_put_lookup<T>(s: Seq<(i32, T)>, id: i32, value: T, other: i32)
    requires
        ascending(s),
    ensures
        lookup(put(s, id, value), id) == Some(value),
        other != id ==> lookup(put(s, id, value), other) == lookup(s, other),
{
    lemma_put_ascending(s, id, value);
    lemma_place(s, id);
    let t = put(s, id, value);
    let p = place(s, id);
    if other != id {
        if holds(s, other) {
            lemma_place(s, other);
            let q = place(s, other);
            let r = if holds(s, id) || q < p {
                q
            } else {
                q + 1
            };
            assert(t[r] == s[q]);
            lemma_lookup_at(t, r);
        } else {
            assert forall|i: int| 0 <= i < t.len() implies (#[trigger] t[i]).0 != other by {
                if t[i].0 == other {
                    let q = if holds(s, id) || i < p {
                        i
                    } else {
                        i - 1
                    };
                    assert(t[i].0 == s[q].0);
                    lemma_lookup_at(s, q);
                }
            }
            lemma_lookup_none(t, other);
        }
    }
}

/// A number that was taken out is gone, and the others are left alone.
pub proof fn lemma_without_lookup<T>(s: Seq<(i32, T)>, id: i32, other: i32)
    requires
        ascending(s),
    ensures
        lookup(without(s, id), id) is None,
        other != id ==> lookup(without(s, id), other) == lookup(s, other),
{
    lemma_without_ascending(s, id);
    lemma_place(s, id);
    let t = without(s, id);
    let p = place(s, id);
    if holds(s, id) {
        assert forall|i: int| 0 <= i < t.len() implies (#[trigger] t[i]).0 != id by {
            let a = if i < p {
                i
            } else {
                i + 1
            };
            assert(t[i] == s[a]);
            if s[a].0 == id {
                lemma_lookup_at(s, a);
            }
        }
        lemma_lookup_none(t, id);
        if other != id {
            if holds(s, other) {
                lemma_place(s, other);
                let q = place(s, other);
                let r = if q < p {
                    q
                } else {
                    q - 1
                };
                assert(t[r] == s[q]);
                lemma_lookup_at(t, r);
            } else {
                assert forall|i: int| 0 <= i < t.len() implies (#[trigger] t[i]).0 != other by {
                    if t[i].0 == other {
                        let a = if i < p {
                            i
                        } else {
                            i + 1
                        };
                        assert(t[i] == s[a]);
                        lemma_lookup_at(s, a);
                    }
                }
                lemma_lookup_none(t, other);
            }
        }
    }
}

/// A list of values by number.
pub struct Roster<T> {
    pub entries: Vec<(i32, T)>,
}

impl<T> View for Roster<T> {
    type V = Seq<(i32, T)>;

    open spec fn view(&self) -> Seq<(i32, T)> {
        self.entries@
    }
}

impl<T: Copy> Roster<T> {
    /// The entries stand in order.
    pub open spec fn wf(&self) -> bool {
        ascending(self@)
    }

    /// A list without entries.
    pub fn new() -> (r: Roster<T>)
        ensures
            r@ == Seq::<(i32, T)>::empty(),
            r.wf(),
    {
        Roster { entries: Vec::new() }
    }

    /// See [`place`].
    fn find(&self, id: i32) -> (p: usize)
        ensures
            p == place(self@, id),
            p <= self@.len(),
    {
        let mut p: usize = 0;
        while p < self.entries.len() && self.entries[p].0 < id
            invariant
                p <= self@.len(),
                forall|i: int| 0 <= i < p ==> (#[trigger] self@[i]).0 < id,
            decreases self@.len() - p,
        {
            p = p + 1;
        }
        proof {
            lemma_place_unique(self@, id, p as int);
        }
        p
    }

    /// What is kept under a number.
    pub fn get(&self, id: i32) -> (r: Option<T>)
        ensures
            r == lookup(self@, id),
    {
        let p: usize = self.find(id);
        if p < self.entries.len() && self.entries[p].0 == id {
            Some(self.entries[p].1)
        } else {
            None
        }
    }

    /// Keeps a value under a number.
    pub fn insert(&mut self, id: i32, value: T)
        requires
            old(self).wf(),
        ensures
            final(self).wf(),
            final(self)@ == put(old(self)@, id, value),
    {
        proof {
            lemma_put_ascending(self@, id, value);
        }
        let p: usize = self.find(id);
        if p < self.entries.len() && self.entries[p].0 == id {
            self.entries.set(p, (id, value));
        } else {
            self.entries.insert(p, (id, value));
        }
    }

    /// Takes a number out; says whether it was on the list.
    pub fn remove(&mut self, id: i32) -> (b: bool)
        requires
            old(self).wf(),
        ensures
            final(self).wf(),
            final(self)@ == without(old(self)@, id),
            b == holds(old(self)@, id),
    {
        proof {
            lemma_without_ascending(self@, id);
        }
        let p: usize = self.find(id);
        if p < self.entries.len() && self.entries[p].0 == id {
            self.entries.remove(p);
            true
        } else {
            false
        }
    }
}

} // verus!
