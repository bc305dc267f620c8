//! Tables keyed by symbol, kept in dictionary order.
use vstd::prelude::*;
use crate::text;

verus! {

/// The rows of a table: each key with what is kept under it.
pub open spec fn rows<T: View>(entries: Seq<(String, T)>) -> Seq<(Seq<char>, T::V)> {
    Seq::new(entries.len(), |i: int| (entries[i].0@, entries[i].1@))
}

/// Whether rows stand in strict dictionary order of their keys, so that no key
/// occurs twice.
pub open spec fn ordered<V>(s: Seq<(Seq<char>, V)>) -> bool {
    forall|i: int, j: int|
        0 <= i < j < s.len() ==> text::precedes(#[trigger] s[i].0, #[trigger] s[j].0)
}

/// Where a key stands, or where it would be put in.
pub open spec fn place<V>(s: Seq<(Seq<char>, V)>, key: Seq<char>) -> int
    decreases s.len(),
{
    if s.len() == 0 || !text::precedes(s[0].0, key) {
        0
    } else {
        1 + place(s.skip(1), key)
    }
}

/// Whether a key is in the table.
pub open spec fn holds<V>(s: Seq<(Seq<char>, V)>, key: Seq<char>) -> bool {
    place(s, key) < s.len() && s[place(s, key)].0 == key
}

/// What is kept under a key.
pub open spec fn lookup<V>(s: Seq<(Seq<char>, V)>, key: Seq<char>) -> Option<V> {
    if holds(s, key) {
        Some(s[place(s, key)].1)
    } else {
        None
    }
}

/// The rows with `value` kept under `key`.
pub open spec fn put<V>(s: Seq<(Seq<char>, V)>, key: Seq<char>, value: V) -> Seq<(Seq<char>, V)> {
    if holds(s, key) {
        s.update(place(s, key), (key, value))
    } else {
        s.insert(place(s, key), (key, value))
    }
}

/// The rows without `key`.
pub open spec fn without<V>(s: Seq<(Seq<char>, V)>, key: Seq<char>) -> Seq<(Seq<char>, V)> {
    if holds(s, key) {
        s.remove(place(s, key))
    } else {
        s
    }
}

/// The keys before a place come before the key, and the one at the place does not.
pub proof fn lemma_place<V>(s: Seq<(Seq<char>, V)>, key: Seq<char>)
    ensures
        0 <= place(s, key) <= s.len(),
        forall|i: int| 0 <= i < place(s, key) ==> text::precedes(#[trigger] s[i].0, key),
        place(s, key) < s.len() ==> !text::precedes(s[place(s, key)].0, key),
    decreases s.len(),
{
    if s.len() > 0 && text::precedes(s[0].0, key) {
        let rest = s.skip(1);
        lemma_place(rest, key);
        assert forall|i: int| 0 <= i < place(s, key) implies text::precedes(
            #[trigger] s[i].0,
            key,
        ) by {
            if i > 0 {
                assert(rest[i - 1] == s[i]);
            }
        }
        if place(s, key) < s.len() {
            assert(rest[place(rest, key)] == s[place(s, key)]);
        }
    }
}

/// A place is known by what stands before and at it.
pub proof fn lemma_place_unique<V>(s: Seq<(Seq<char>, V)>, key: Seq<char>, p: int)
    requires
        0 <= p <= s.len(),
        forall|i: int| 0 <= i < p ==> text::precedes(#[trigger] s[i].0, key),
        p < s.len() ==> !text::precedes(s[p].0, key),
    ensures
        place(s, key) == p,
{
    lemma_place(s, key);
    let q = place(s, key);
    if q < p {
        assert(text::precedes(s[q].0, key));
    }
    if p < q {
        assert(text::precedes(s[p].0, key));
    }
}

/// In ordered rows the keys from a place on, the key itself apart, come after it.
pub proof fn lemma_after_place<V>(s: Seq<(Seq<char>, V)>, key: Seq<char>)
    requires
        ordered(s),
    ensures
        forall|i: int|
            place(s, key) <= i < s.len() ==> #[trigger] s[i].0 == key || text::precedes(key, s[i].0),
        forall|i: int| place(s, key) < i < s.len() ==> text::precedes(key, #[trigger] s[i].0),
{
    lemma_place(s, key);
    let p = place(s, key);
    if p < s.len() {
        text::lemma_precedes_total(s[p].0, key);
        assert forall|i: int| p < i < s.len() implies text::precedes(key, #[trigger] s[i].0) by {
            if s[p].0 != key {
                text::lemma_precedes_transitive(key, s[p].0, s[i].0);
            }
        }
    }
}

/// Putting a row in keeps the order.
pub proof fn lemma_put_ordered<V>(s: Seq<(Seq<char>, V)>, key: Seq<char>, value: V)
    requires
        ordered(s),
    ensures
        ordered(put(s, key, value)),
        place(put(s, key, value), key) == place(s, key),
{
    lemma_place(s, key);
    lemma_after_place(s, key);
    let p = place(s, key);
    let t = put(s, key, value);
    if holds(s, key) {
        assert forall|i: int, j: int| 0 <= i < j < t.len() implies text::precedes(
            #[trigger] t[i].0,
            #[trigger] t[j].0,
        ) by {
            assert(t[i].0 == s[i].0 && t[j].0 == s[j].0);
        }
    } else {
        assert forall|i: int, j: int| 0 <= i < j < t.len() implies text::precedes(
            #[trigger] t[i].0,
            #[trigger] t[j].0,
        ) by {
            if j < p {
                assert(t[i] == s[i] && t[j] == s[j]);
            } else if j == p {
                assert(t[i] == s[i]);
            } else if i < p {
                assert(t[i] == s[i] && t[j] == s[j - 1]);
            } else if i == p {
                assert(t[j] == s[j - 1]);
            } else {
                assert(t[i] == s[i - 1] && t[j] == s[j - 1]);
            }
        }
    }
    text::lemma_precedes_total(key, key);
    assert forall|i: int| 0 <= i < p implies text::precedes(#[trigger] t[i].0, key) by {
        assert(t[i] == s[i]);
    }
    lemma_place_unique(t, key, p);
}

/// Taking a row out keeps the order.
pub proof fn lemma_without_ordered<V>(s: Seq<(Seq<char>, V)>, key: Seq<char>)
    requires
        ordered(s),
    ensures
        ordered(without(s, key)),
{
    lemma_place(s, key);
    let p = place(s, key);
    let t = without(s, key);
    if holds(s, key) {
        assert forall|i: int, j: int| 0 <= i < j < t.len() implies text::precedes(
            #[trigger] t[i].0,
            #[trigger] t[j].0,
        ) by {
            let a = if i < p {
                i
            } else {
                i + 1
            };
            let b = if j < p {
                j
            } else {
                j + 1
            };
            assert(t[i] == s[a] && t[j] == s[b]);
        }
    }
}

/// In ordered rows a key is held exactly where it stands.
pub proof fn lemma_lookup_at<V>(s: Seq<(Seq<char>, V)>, i: int)
    requires
        ordered(s),
        0 <= i < s.len(),
    ensures
        place(s, s[i].0) == i,
        lookup(s, s[i].0) == Some(s[i].1),
{
    text::lemma_precedes_total(s[i].0, s[i].0);
    lemma_place_unique(s, s[i].0, i);
}

/// In ordered rows a key that stands nowhere is not held.
pub proof fn lemma_lookup_none<V>(s: Seq<(Seq<char>, V)>, key: Seq<char>)
    requires
        forall|i: int| 0 <= i < s.len() ==> #[trigger] s[i].0 != key,
    ensures
        lookup(s, key) is None,
{
    lemma_place(s, key);
}

/// What is put under a key is found under it, and the other keys are left alone.
pub proof fn lemma_put_lookup<V>(s: Seq<(Seq<char>, V)>, key: Seq<char>, value: V, other: Seq<char>)
    requires
        ordered(s),
    ensures
        lookup(put(s, key, value), key) == Some(value),
        other != key ==> lookup(put(s, key, value), other) == lookup(s, other),
{
    lemma_put_ordered(s, key, value);
    lemma_place(s, key);
    let t = put(s, key, value);
    let p = place(s, key);
    if other != key {
        if holds(s, other) {
            lemma_place(s, other);
            let q = place(s, other);
            let r = if holds(s, key) || q < p {
                q
            } else {
                q + 1
            };
            assert(t[r] == s[q]);
            lemma_lookup_at(t, r);
        } else {
            assert forall|i: int| 0 <= i < t.len() implies #[trigger] t[i].0 != other by {
                if t[i].0 == other {
                    let q = if holds(s, key) || i < p {
                        i
                    } else {
                        i - 1
                    };
                    assert(t[i].0 == s[q].0);
                    lemma_lookup_at(s, q);
                }
            }
            lemma_lookup_none(t, other);
        }
    }
}

/// A key that was taken out is gone, and the other keys are left alone.
pub proof fn lemma_without_lookup<V>(s: Seq<(Seq<char>, V)>, key: Seq<char>, other: Seq<char>)
    requires
        ordered(s),
    ensures
        lookup(without(s, key), key) is None,
        other != key ==> lookup(without(s, key), other) == lookup(s, other),
{
    lemma_without_ordered(s, key);
    lemma_place(s, key);
    let t = without(s, key);
    let p = place(s, key);
    if holds(s, key) {
        assert forall|i: int| 0 <= i < t.len() implies #[trigger] t[i].0 != key by {
            let a = if i < p {
                i
            } else {
                i + 1
            };
            assert(t[i] == s[a]);
            if s[a].0 == key {
                lemma_lookup_at(s, a);
            }
        }
        lemma_lookup_none(t, key);
        if other != key {
            if holds(s, other) {
                lemma_place(s, other);
                let q = place(s, other);
                let r = if q < p {
                    q
                } else {
                    q - 1
                };
                assert(t[r] == s[q]);
                lemma_lookup_at(t, r);
            } else {
                assert forall|i: int| 0 <= i < t.len() implies #[trigger] t[i].0 != other by {
                    if t[i].0 == other {
                        let a = if i < p {
                            i
                        } else {
                            i + 1
                        };
                        assert(t[i] == s[a]);
                        lemma_lookup_at(s, a);
                    }
                }
                lemma_lookup_none(t, other);
            }
        }
    }
}

/// A table of values by symbol.
pub struct SymbolTable<T> {
    pub entries: Vec<(String, T)>,
}

impl<T: View> View for SymbolTable<T> {
    type V = Seq<(Seq<char>, T::V)>;

    open spec fn view(&self) -> Seq<(Seq<char>, T::V)> {
        rows(self.entries@)
    }
}

impl<T: View> SymbolTable<T> {
    /// The rows stand in order.
    pub open spec fn wf(&self) -> bool {
        ordered(self@)
    }

    /// A table without rows.
    pub fn new() -> (t: SymbolTable<T>)
        ensures
            t@ == Seq::<(Seq<char>, T::V)>::empty(),
            t.wf(),
    {
        let t: SymbolTable<T> = SymbolTable { entries: Vec::new() };
        assert(t@ =~= Seq::<(Seq<char>, T::V)>::empty());
        t
    }

    /// The number of rows.
    pub fn len(&self) -> (n: usize)
        ensures
            n == self@.len(),
            n == self.entries@.len(),
    {
        self.entries.len()
    }

    /// See [`place`].
    pub fn find(&self, key: &str) -> (p: usize)
        ensures
            p == place(self@, key@),
            p <= self@.len(),
            self.entries@.len() == self@.len(),
    {
        let mut p: usize = 0;
        while p < self.entries.len() && text::comes_before(self.entries[p].0.as_str(), key)
            invariant
                p <= self.entries@.len(),
                self@.len() == self.entries@.len(),
                forall|i: int| 0 <= i < p ==> text::precedes(#[trigger] self@[i].0, key@),
            decreases self.entries@.len() - p,
        {
            assert(self@[p as int].0 == self.entries@[p as int].0@);
            p = p + 1;
        }
        proof {
            if p < self@.len() {
                assert(self@[p as int].0 == self.entries@[p as int].0@);
            }
            lemma_place_unique(self@, key@, p as int);
        }
        p
    }

    /// Whether the row at this place has this key.
    pub fn is_at(&self, p: usize, key: &str) -> (b: bool)
        requires
            p == place(self@, key@),
        ensures
            b == holds(self@, key@),
    {
        if p >= self.entries.len() {
            return false;
        }
        assert(self@[p as int].0 == self.entries@[p as int].0@);
        let k: String = key.to_owned();
        self.entries[p].0 == k
    }

    /// What is kept under a key.
    pub fn get(&self, key: &str) -> (r: Option<&T>)
        ensures
            r is Some <==> lookup(self@, key@) is Some,
            r is Some ==> lookup(self@, key@) == Some(r->0@),
            r is Some ==> r->0 == self.entries@[place(self@, key@)].1,
            r is Some ==> place(self@, key@) < self.entries@.len(),
    {
        let p: usize = self.find(key);
        if self.is_at(p, key) {
            assert(self@[p as int].1 == self.entries@[p as int].1@);
            Some(&self.entries[p].1)
        } else {
            None
        }
    }

    /// Keeps a value under a key.
    pub fn insert(&mut self, key: String, value: T)
        requires
            old(self).wf(),
        ensures
            final(self).wf(),
            final(self)@ == put(old(self)@, key@, value@),
            final(self).entries@.len() >= old(self).entries@.len(),
            forall|i: int|
                0 <= i < final(self).entries@.len() ==> #[trigger] final(self).entries@[i].1 == value
                    || exists|j: int|
                    0 <= j < old(self).entries@.len() && final(self).entries@[i] == #[trigger] old(
                        self,
                    ).entries@[j],
    {
        let ghost before = self@;
        let ghost rows_before = self.entries@;
        let p: usize = self.find(key.as_str());
        proof {
            lemma_put_ordered(before, key@, value@);
        }
        if self.is_at(p, key.as_str()) {
            self.entries.set(p, (key, value));
            assert(self@ =~= before.update(p as int, (key@, value@)));
            assert forall|i: int| 0 <= i < self.entries@.len() implies #[trigger] self.entries@[i].1
                == value || exists|j: int|
                0 <= j < rows_before.len() && self.entries@[i] == #[trigger] rows_before[j] by {
                if i != p {
                    assert(self.entries@[i] == rows_before[i]);
                }
            }
        } else {
            self.entries.insert(p, (key, value));
            assert(self@ =~= before.insert(p as int, (key@, value@)));
            assert forall|i: int| 0 <= i < self.entries@.len() implies #[trigger] self.entries@[i].1
                == value || exists|j: int|
                0 <= j < rows_before.len() && self.entries@[i] == #[trigger] rows_before[j] by {
                if i < p {
                    assert(self.entries@[i] == rows_before[i]);
                } else if i > p {
                    assert(self.entries@[i] == rows_before[i - 1]);
                }
            }
        }
    }

    /// Takes a key out.
    pub fn remove(&mut self, key: &str)
        requires
            old(self).wf(),
        ensures
            final(self).wf(),
            final(self)@ == without(old(self)@, key@),
            forall|i: int|
                0 <= i < final(self).entries@.len() ==> exists|j: int|
                    0 <= j < old(self).entries@.len() && #[trigger] final(self).entries@[i]
                        == #[trigger] old(self).entries@[j],
    {
        let ghost before = self@;
        let ghost rows_before = self.entries@;
        let p: usize = self.find(key);
        proof {
            lemma_without_ordered(before, key@);
        }
        if self.is_at(p, key) {
            self.entries.remove(p);
            assert(self@ =~= before.remove(p as int));
            assert forall|i: int| 0 <= i < self.entries@.len() implies exists|j: int|
                0 <= j < rows_before.len() && #[trigger] self.entries@[i] == #[trigger] rows_before[j] by {
                if i < p {
                    assert(self.entries@[i] == rows_before[i]);
                } else {
                    assert(self.entries@[i] == rows_before[i + 1]);
                }
            }
        }
    }

    /// The keys in order.
    pub fn keys(&self) -> (r: Vec<String>)
        ensures
            r@.len() == self@.len(),
            forall|i: int| 0 <= i < r@.len() ==> (#[trigger] r@[i])@ == self@[i].0,
    {
        let mut r: Vec<String> = Vec::new();
        let mut i: usize = 0;
        while i < self.entries.len()
            invariant
                i <= self.entries@.len(),
                r@.len() == i,
                self@.len() == self.entries@.len(),
                forall|j: int| 0 <= j < i ==> (#[trigger] r@[j])@ == self@[j].0,
            decreases self.entries@.len() - i,
        {
            r.push(self.entries[i].0.clone());
            i = i + 1;
        }
        r
    }
}

} // verus!
