//! A table of values keyed by string identifiers, each key held at most once
//! (the keyed maps of sessions, terminals and headers).
use vstd::prelude::*;
use crate::text::str_eq;

verus! {

/// Values keyed by string identifiers; inserting under a present key
/// replaces its value. The entries are held in a vector whose keys are
/// pairwise distinct, so that every lookup compares keys by their text and
/// its result is stated over the table's map view.
pub struct Registry<T> {
    entries: Vec<(String, T)>,
}

impl<T> Registry<T> {
    /// No key occurs twice.
    #[verifier::type_invariant]
    closed spec fn keys_unique(&self) -> bool {
        forall|i: int, j: int|
            0 <= i < j < self.entries@.len() ==> #[trigger] self.entries@[i].0@
                != #[trigger] self.entries@[j].0@
    }

    /// The entries in the order they are held.
    pub closed spec fn entries_seq(&self) -> Seq<(Seq<char>, T)> {
        self.entries@.map_values(|e: (String, T)| (e.0@, e.1))
    }

    /// Whether `k` is a key at some position of `s`.
    pub open spec fn has_key(s: Seq<(Seq<char>, T)>, k: Seq<char>) -> bool {
        exists|i: int| 0 <= i < s.len() && (#[trigger] s[i]).0 == k
    }

    /// The map from keys to values.
    pub open spec fn as_map(s: Seq<(Seq<char>, T)>) -> Map<Seq<char>, T> {
        Map::new(
            |k: Seq<char>| Self::has_key(s, k),
            |k: Seq<char>| s[choose|i: int| 0 <= i < s.len() && (#[trigger] s[i]).0 == k].1,
        )
    }

    /// The values, in the order they are held.
    pub open spec fn values_seq(&self) -> Seq<T> {
        self.entries_seq().map_values(|e: (Seq<char>, T)| e.1)
    }

    /// The keys of `s` are pairwise distinct.
    pub open spec fn unique(s: Seq<(Seq<char>, T)>) -> bool {
        forall|i: int, j: int| 0 <= i < j < s.len() ==> #[trigger] s[i].0 != #[trigger] s[j].0
    }

    /// The entry sequence never holds a key twice.
    proof fn lemma_unique(&self)
        requires
            self.keys_unique(),
        ensures
            Self::unique(self.entries_seq()),
    {
        let s = self.entries_seq();
        assert forall|i: int, j: int| 0 <= i < j < s.len() implies #[trigger] s[i].0
            != #[trigger] s[j].0 by {
            assert(s[i].0 == self.entries@[i].0@);
            assert(s[j].0 == self.entries@[j].0@);
        }
    }

    /// In a sequence with distinct keys, the value under the key at position
    /// `i` is the value at position `i`.
    pub proof fn lemma_map_at(s: Seq<(Seq<char>, T)>, i: int)
        requires
            Self::unique(s),
            0 <= i < s.len(),
        ensures
            Self::as_map(s).contains_key(s[i].0),
            Self::as_map(s)[s[i].0] == s[i].1,
    {
        assert(Self::has_key(s, s[i].0));
        let j = choose|j: int| 0 <= j < s.len() && (#[trigger] s[j]).0 == s[i].0;
        assert(j == i);
    }

    /// Appending an entry under a new key inserts it into the map.
    proof fn lemma_map_push(t: Seq<(Seq<char>, T)>, k: Seq<char>, v: T)
        requires
            Self::unique(t),
            !Self::has_key(t, k),
        ensures
            Self::unique(t.push((k, v))),
            Self::as_map(t.push((k, v))) =~= Self::as_map(t).insert(k, v),
    {
        let u = t.push((k, v));
        assert forall|i: int, j: int| 0 <= i < j < u.len() implies #[trigger] u[i].0
            != #[trigger] u[j].0 by {
            if j == t.len() {
                assert(u[i] == t[i]);
                if u[i].0 == k {
                    assert(Self::has_key(t, k));
                }
            } else {
                assert(u[i] == t[i]);
                assert(u[j] == t[j]);
            }
        }
        assert forall|k2: Seq<char>| #[trigger] Self::has_key(u, k2) <==> (Self::has_key(t, k2) || k2 == k) by {
            if Self::has_key(t, k2) {
                let i = choose|i: int| 0 <= i < t.len() && (#[trigger] t[i]).0 == k2;
                assert(u[i] == t[i]);
            }
            if k2 == k {
                assert(u[t.len() as int].0 == k);
            }
            if Self::has_key(u, k2) && k2 != k {
                let i = choose|i: int| 0 <= i < u.len() && (#[trigger] u[i]).0 == k2;
                assert(i < t.len());
                assert(u[i] == t[i]);
            }
        }
        assert forall|k2: Seq<char>| #[trigger] Self::as_map(u).contains_key(k2) implies Self::as_map(
            u,
        )[k2] == Self::as_map(t).insert(k, v)[k2] by {
            if k2 == k {
                Self::lemma_map_at(u, t.len() as int);
            } else {
                let i = choose|i: int| 0 <= i < t.len() && (#[trigger] t[i]).0 == k2;
                assert(u[i] == t[i]);
                Self::lemma_map_at(u, i);
                Self::lemma_map_at(t, i);
            }
        }
    }

    /// Dropping the entry at `i` removes its key from the map.
    proof fn lemma_map_remove(s: Seq<(Seq<char>, T)>, i: int)
        requires
            Self::unique(s),
            0 <= i < s.len(),
        ensures
            Self::unique(s.remove(i)),
            !Self::has_key(s.remove(i), s[i].0),
            Self::as_map(s.remove(i)) =~= Self::as_map(s).remove(s[i].0),
    {
        let u = s.remove(i);
        let k = s[i].0;
        assert forall|a: int| 0 <= a < u.len() implies #[trigger] u[a] == s[if a < i {
            a
        } else {
            a + 1
        }] by {}
        assert forall|a: int, b: int| 0 <= a < b < u.len() implies #[trigger] u[a].0
            != #[trigger] u[b].0 by {
            let a2 = if a < i { a } else { a + 1 };
            let b2 = if b < i { b } else { b + 1 };
            assert(u[a] == s[a2]);
            assert(u[b] == s[b2]);
        }
        if Self::has_key(u, k) {
            let a = choose|a: int| 0 <= a < u.len() && (#[trigger] u[a]).0 == k;
            let a2 = if a < i { a } else { a + 1 };
            assert(u[a] == s[a2]);
            if a2 < i {
                assert(s[a2].0 != s[i].0);
            } else {
                assert(s[i].0 != s[a2].0);
            }
        }
        assert forall|k2: Seq<char>| #[trigger] Self::has_key(u, k2) <==> (Self::has_key(s, k2) && k2 != k) by {
            if Self::has_key(u, k2) {
                let a = choose|a: int| 0 <= a < u.len() && (#[trigger] u[a]).0 == k2;
                let a2 = if a < i { a } else { a + 1 };
                assert(u[a] == s[a2]);
            }
            if Self::has_key(s, k2) && k2 != k {
                let a = choose|a: int| 0 <= a < s.len() && (#[trigger] s[a]).0 == k2;
                assert(a != i);
                let a1 = if a < i { a } else { a - 1 };
                assert(u[a1] == s[a]);
            }
        }
        assert forall|k2: Seq<char>| #[trigger] Self::as_map(u).contains_key(k2) implies Self::as_map(
            u,
        )[k2] == Self::as_map(s)[k2] by {
            let a = choose|a: int| 0 <= a < u.len() && (#[trigger] u[a]).0 == k2;
            let a2 = if a < i { a } else { a + 1 };
            assert(u[a] == s[a2]);
            Self::lemma_map_at(u, a);
            Self::lemma_map_at(s, a2);
        }
    }

    /// An empty table.
    pub fn new() -> (r: Self)
        ensures
            r@ == Map::<Seq<char>, T>::empty(),
            r.entries_seq().len() == 0,
    {
        let r = Registry { entries: Vec::new() };
        assert(r.entries_seq() =~= Seq::<(Seq<char>, T)>::empty());
        assert(r@ =~= Map::<Seq<char>, T>::empty());
        r
    }

    /// The number of entries.
    pub fn len(&self) -> (n: usize)
        ensures
            n == self.entries_seq().len(),
            n == self@.len(),
            Self::unique(self.entries_seq()),
    {
        proof {
            use_type_invariant(self);
            self.lemma_unique();
            self.lemma_len();
        }
        self.entries.len()
    }

    /// The number of entries is the number of keys.
    proof fn lemma_len(&self)
        requires
            self.keys_unique(),
        ensures
            self@.len() == self.entries_seq().len(),
            self@.dom().finite(),
    {
        self.lemma_unique();
        let s = self.entries_seq();
        Self::lemma_dom_len(s);
    }

    /// With distinct keys, the map has one key per entry.
    proof fn lemma_dom_len(s: Seq<(Seq<char>, T)>)
        requires
            Self::unique(s),
        ensures
            Self::as_map(s).dom() == s.map_values(|e: (Seq<char>, T)| e.0).to_set(),
            Self::as_map(s).dom().finite(),
            Self::as_map(s).dom().len() == s.len(),
    {
        let ks = s.map_values(|e: (Seq<char>, T)| e.0);
        assert forall|k: Seq<char>| Self::as_map(s).dom().contains(k) <==> ks.to_set().contains(
            k,
        ) by {
            if Self::has_key(s, k) {
                let i = choose|i: int| 0 <= i < s.len() && (#[trigger] s[i]).0 == k;
                assert(ks[i] == k);
            }
            if ks.to_set().contains(k) {
                let i = choose|i: int| 0 <= i < ks.len() && ks[i] == k;
                assert(s[i].0 == k);
            }
        }
        assert(Self::as_map(s).dom() =~= ks.to_set());
        assert forall|i: int, j: int| 0 <= i < ks.len() && 0 <= j < ks.len() && i != j implies ks[i]
            != ks[j] by {
            if i < j {
                assert(s[i].0 != s[j].0);
            } else {
                assert(s[j].0 != s[i].0);
            }
        }
        ks.unique_seq_to_set();
    }

    /// The position of `key`, if present.
    fn position(&self, key: &str) -> (r: Option<usize>)
        ensures
            match r {
                Some(i) => i < self.entries@.len() && self.entries_seq()[i as int].0 == key@,
                None => !Self::has_key(self.entries_seq(), key@),
            },
    {
        let mut i: usize = 0;
        while i < self.entries.len()
            invariant
                i <= self.entries@.len(),
                forall|k: int| 0 <= k < i ==> (#[trigger] self.entries_seq()[k]).0 != key@,
            decreases self.entries@.len() - i,
        {
            if str_eq(self.entries[i].0.as_str(), key) {
                return Some(i);
            }
            i = i + 1;
        }
        None
    }

    /// Whether `key` is present.
    pub fn contains_key(&self, key: &str) -> (r: bool)
        ensures
            r == self@.contains_key(key@),
    {
        self.position(key).is_some()
    }

    /// Puts `value` under `key`, replacing and returning the value held there
    /// before.
    pub fn insert(&mut self, key: String, value: T) -> (r: Option<T>)
        ensures
            final(self)@ == old(self)@.insert(key@, value),
            match r {
                Some(v) => old(self)@.contains_key(key@) && v == old(self)@[key@],
                None => !old(self)@.contains_key(key@),
            },
    {
        proof {
            use_type_invariant(&*self);
            self.lemma_unique();
        }
        let ghost s0 = self.entries_seq();
        let ghost k = key@;
        let pos = self.position(key.as_str());
        let mut entries: Vec<(String, T)> = Vec::new();
        std::mem::swap(&mut entries, &mut self.entries);
        let previous = match pos {
            Some(i) => {
                proof {
                    Self::lemma_map_at(s0, i as int);
                    Self::lemma_map_remove(s0, i as int);
                }
                let e = entries.remove(i);
                Some(e.1)
            },
            None => None,
        };
        let ghost s1 = entries@.map_values(|e: (String, T)| (e.0@, e.1));
        proof {
            assert(s1 =~= if pos.is_some() { s0.remove(pos.unwrap() as int) } else { s0 });
            Self::lemma_map_push(s1, k, value);
        }
        entries.push((key, value));
        proof {
            let s2 = entries@.map_values(|e: (String, T)| (e.0@, e.1));
            assert(s2 =~= s1.push((k, value)));
            assert forall|i: int, j: int|
                0 <= i < j < entries@.len() implies #[trigger] entries@[i].0@
                    != #[trigger] entries@[j].0@ by {
                assert(s2[i].0 == entries@[i].0@);
                assert(s2[j].0 == entries@[j].0@);
            }
        }
        self.entries = entries;
        assert(self.entries_seq() =~= s1.push((k, value)));
        assert(self@ =~= old(self)@.insert(k, value));
        previous
    }

    /// Takes out the value under `key`, if present.
    pub fn remove(&mut self, key: &str) -> (r: Option<T>)
        ensures
            final(self)@ == old(self)@.remove(key@),
            match r {
                Some(v) => old(self)@.contains_key(key@) && v == old(self)@[key@],
                None => !old(self)@.contains_key(key@),
            },
    {
        proof {
            use_type_invariant(&*self);
            self.lemma_unique();
        }
        let ghost s0 = self.entries_seq();
        match self.position(key) {
            Some(i) => {
                proof {
                    Self::lemma_map_at(s0, i as int);
                    Self::lemma_map_remove(s0, i as int);
                }
                let mut entries: Vec<(String, T)> = Vec::new();
                std::mem::swap(&mut entries, &mut self.entries);
                let e = entries.remove(i);
                proof {
                    let s1 = entries@.map_values(|e: (String, T)| (e.0@, e.1));
                    assert(s1 =~= s0.remove(i as int));
                    assert forall|a: int, b: int|
                        0 <= a < b < entries@.len() implies #[trigger] entries@[a].0@
                            != #[trigger] entries@[b].0@ by {
                        assert(s1[a].0 == entries@[a].0@);
                        assert(s1[b].0 == entries@[b].0@);
                    }
                }
                self.entries = entries;
                assert(self.entries_seq() =~= s0.remove(i as int));
                Some(e.1)
            },
            None => {
                assert(old(self)@ =~= old(self)@.remove(key@));
                None
            },
        }
    }

    /// The entry held at position `i`.
    pub fn entry_at(&self, i: usize) -> (r: (&String, &T))
        requires
            i < self.entries_seq().len(),
        ensures
            (r.0@, *r.1) == self.entries_seq()[i as int],
            self@.contains_key(r.0@),
            self@[r.0@] == *r.1,
    {
        proof {
            use_type_invariant(self);
            self.lemma_unique();
            Self::lemma_map_at(self.entries_seq(), i as int);
        }
        let e = &self.entries[i];
        (&e.0, &e.1)
    }

    /// Takes out the values under each of `keys` that is present, returning
    /// them with their keys.
    pub fn remove_keys(&mut self, keys: &Vec<String>) -> (r: Vec<(String, T)>)
        ensures
            final(self)@ == old(self)@.remove_keys(keys@.map_values(|k: String| k@).to_set()),
            forall|i: int|
                0 <= i < r@.len() ==> old(self)@.contains_key(#[trigger] r@[i].0@) && old(
                    self,
                )@[r@[i].0@] == r@[i].1 && keys@.map_values(|k: String| k@).contains(r@[i].0@),
            r@.map_values(|p: (String, T)| p.0@).to_set() == keys@.map_values(|k: String| k@).to_set().intersect(
                old(self)@.dom(),
            ),
    {
        let ghost ks = keys@.map_values(|k: String| k@);
        let mut out: Vec<(String, T)> = Vec::new();
        assert(ks.take(0).to_set() =~= Set::<Seq<char>>::empty());
        assert(out@.map_values(|p: (String, T)| p.0@).to_set() =~= Set::<Seq<char>>::empty());
        let mut j: usize = 0;
        while j < keys.len()
            invariant
                j <= keys@.len(),
                ks == keys@.map_values(|k: String| k@),
                self@ == old(self)@.remove_keys(ks.take(j as int).to_set()),
                forall|i: int|
                    0 <= i < out@.len() ==> old(self)@.contains_key(#[trigger] out@[i].0@) && old(
                        self,
                    )@[out@[i].0@] == out@[i].1 && ks.contains(out@[i].0@),
                out@.map_values(|p: (String, T)| p.0@).to_set() == ks.take(j as int).to_set().intersect(
                    old(self)@.dom(),
                ),
            decreases keys@.len() - j,
        {
            let ghost before = self@;
            let ghost out_before = out@.map_values(|p: (String, T)| p.0@);
            let k = &keys[j];
            match self.remove(k.as_str()) {
                Some(v) => {
                    proof {
                        assert(ks[j as int] == k@);
                        assert(!ks.take(j as int).to_set().contains(k@));
                    }
                    out.push((k.clone(), v));
                    proof {
                        assert(out@.map_values(|p: (String, T)| p.0@) =~= out_before.push(k@));
                        out_before.lemma_push_to_set_commute(k@);
                    }
                },
                None => {},
            }
            proof {
                assert(ks.take(j + 1) =~= ks.take(j as int).push(k@));
                ks.take(j as int).lemma_push_to_set_commute(k@);
                assert(ks.take(j + 1).to_set() =~= ks.take(j as int).to_set().insert(k@));
                assert(self@ =~= old(self)@.remove_keys(ks.take(j + 1).to_set()));
                assert(out@.map_values(|p: (String, T)| p.0@).to_set() =~= ks.take(j + 1).to_set().intersect(
                    old(self)@.dom(),
                ));
            }
            j = j + 1;
        }
        assert(ks.take(keys@.len() as int) =~= ks);
        out
    }

    /// The value under `key`, if present.
    pub fn get(&self, key: &str) -> (r: Option<&T>)
        ensures
            match r {
                Some(v) => self@.contains_key(key@) && *v == self@[key@],
                None => !self@.contains_key(key@),
            },
    {
        match self.position(key) {
            Some(i) => {
                proof {
                    use_type_invariant(self);
                    self.lemma_unique();
                    Self::lemma_map_at(self.entries_seq(), i as int);
                }
                Some(&self.entries[i].1)
            },
            None => None,
        }
    }
}

impl<T> View for Registry<T> {
    type V = Map<Seq<char>, T>;

    open spec fn view(&self) -> Map<Seq<char>, T> {
        Self::as_map(self.entries_seq())
    }
}


/// What a table gives back: the value last put under a key, with every other
/// key untouched by the put; nothing under a key after it is removed, with
/// every other key untouched by the removal.
pub proof fn law_registry_read_after_write<T>(m: Map<Seq<char>, T>, k: Seq<char>, v: T, other: Seq<char>)
    requires
        other != k,
    ensures
        m.insert(k, v).contains_key(k),
        m.insert(k, v)[k] == v,
        m.insert(k, v).contains_key(other) == m.contains_key(other),
        m.contains_key(other) ==> m.insert(k, v)[other] == m[other],
        !m.remove(k).contains_key(k),
        m.remove(k).contains_key(other) == m.contains_key(other),
        m.contains_key(other) ==> m.remove(k)[other] == m[other],
{
}

} // verus!
