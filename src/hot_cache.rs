//! A bounded in-memory layer in front of the persistent cache. On insertion
//! of a new key at capacity, the entry accessed least recently goes.
use vstd::prelude::*;
use crate::cache::{CachedNeutralization, NeutralizationView};

verus! {

/// One held entry: its key, its value and the access number of its last use.
pub struct HotEntry {
    pub key: Seq<char>,
    pub value: NeutralizationView,
    pub last_access: int,
}

pub struct HotModel {
    pub entries: Seq<HotEntry>,
    pub max_size: int,
    pub counter: int,
}

pub open spec fn hot_has(s: Seq<HotEntry>, key: Seq<char>) -> bool {
    exists|i: int| 0 <= i < s.len() && s[i].key == key
}

pub open spec fn hot_pos(s: Seq<HotEntry>, key: Seq<char>) -> int {
    choose|i: int| 0 <= i < s.len() && s[i].key == key
}

/// Position `i` holds the entry used least recently.
pub open spec fn is_lru(s: Seq<HotEntry>, i: int) -> bool {
    &&& 0 <= i < s.len()
    &&& forall|j: int| 0 <= j < s.len() ==> s[i].last_access <= #[trigger] s[j].last_access
}

pub open spec fn lru_pos(s: Seq<HotEntry>) -> int {
    choose|i: int| is_lru(s, i)
}

/// Keys are unique, access numbers are distinct and none is past the counter.
pub open spec fn hot_wf(m: HotModel) -> bool {
    &&& forall|i: int, j: int|
        0 <= i < m.entries.len() && 0 <= j < m.entries.len() && i != j ==> m.entries[i].key != m.entries[j].key
            && m.entries[i].last_access != m.entries[j].last_access
    &&& forall|i: int| 0 <= i < m.entries.len() ==> 0 <= (#[trigger] m.entries[i]).last_access <= m.counter
    &&& 0 <= m.counter <= u64::MAX
    &&& 0 <= m.max_size <= usize::MAX
}

/// A lookup of `key`: the cache afterwards and the value found.
pub open spec fn hot_get(m: HotModel, key: Seq<char>) -> (HotModel, Option<NeutralizationView>) {
    if hot_has(m.entries, key) {
        let i = hot_pos(m.entries, key);
        (
            HotModel {
                entries: m.entries.update(i, HotEntry { last_access: m.counter + 1, ..m.entries[i] }),
                counter: m.counter + 1,
                ..m
            },
            Some(m.entries[i].value),
        )
    } else {
        (m, None)
    }
}

/// The entries left once room is made for `key`.
pub open spec fn hot_room(m: HotModel, key: Seq<char>) -> Seq<HotEntry> {
    if m.entries.len() >= m.max_size && !hot_has(m.entries, key) && m.entries.len() > 0 {
        m.entries.remove(lru_pos(m.entries))
    } else {
        m.entries
    }
}

/// An insertion of `key` with `value`.
pub open spec fn hot_insert(m: HotModel, key: Seq<char>, value: NeutralizationView) -> HotModel {
    let c = m.counter + 1;
    let s = hot_room(m, key);
    let e = HotEntry { key, value, last_access: c };
    HotModel {
        entries: if hot_has(s, key) {
            s.update(hot_pos(s, key), e)
        } else {
            s.push(e)
        },
        counter: c,
        ..m
    }
}

pub struct LruCache {
    keys: Vec<String>,
    values: Vec<CachedNeutralization>,
    stamps: Vec<u64>,
    max_size: usize,
    access_counter: u64,
}

impl View for LruCache {
    type V = HotModel;

    closed spec fn view(&self) -> HotModel {
        HotModel {
            entries: Seq::new(
                self.keys@.len(),
                |i: int| HotEntry { key: self.keys@[i]@, value: self.values@[i]@, last_access: self.stamps@[i] as int },
            ),
            max_size: self.max_size as int,
            counter: self.access_counter as int,
        }
    }
}

impl LruCache {
    pub closed spec fn wf(&self) -> bool {
        &&& self.keys@.len() == self.values@.len()
        &&& self.keys@.len() == self.stamps@.len()
        &&& hot_wf(self@)
    }

    /// Well-formedness in terms of the model, for use with the laws.
    pub proof fn lemma_wf(&self)
        requires
            self.wf(),
        ensures
            hot_wf(self@),
    {
    }

    pub fn new(max_size: usize) -> (r: Self)
        ensures
            r.wf(),
            r@ == (HotModel { entries: Seq::empty(), max_size: max_size as int, counter: 0 }),
    {
        let r = LruCache { keys: Vec::new(), values: Vec::new(), stamps: Vec::new(), max_size, access_counter: 0 };
        assert(r@.entries =~= Seq::<HotEntry>::empty());
        r
    }

    fn position(&self, key: &String) -> (r: Option<usize>)
        requires
            self.wf(),
        ensures
            match r {
                Some(i) => i < self@.entries.len() && self@.entries[i as int].key == key@ && hot_has(
                    self@.entries,
                    key@,
                ) && hot_pos(self@.entries, key@) == i,
                None => !hot_has(self@.entries, key@),
            },
    {
        let n = self.keys.len();
        let mut i: usize = 0;
        while i < n
            invariant
                self.wf(),
                n == self@.entries.len(),
                i <= n,
                forall|j: int| 0 <= j < i ==> (#[trigger] self@.entries[j]).key != key@,
            decreases n - i,
        {
            if self.keys[i] == *key {
                assert(self@.entries[i as int].key == key@);
                assert(hot_has(self@.entries, key@));
                return Some(i);
            }
            i += 1;
        }
        None
    }

    /// The value held for `key`, counted as a use of it.
    pub fn get(&mut self, key: &str) -> (r: Option<&CachedNeutralization>)
        requires
            old(self).wf(),
            old(self)@.counter < u64::MAX,
        ensures
            final(self).wf(),
            final(self)@ == hot_get(old(self)@, key@).0,
            match r {
                Some(v) => hot_get(old(self)@, key@).1 == Some(v@),
                None => hot_get(old(self)@, key@).1 is None,
            },
    {
        let ghost m = self@;
        let k = key.to_owned();
        match self.position(&k) {
            Some(i) => {
                self.access_counter = self.access_counter + 1;
                let c = self.access_counter;
                self.stamps.set(i, c);
                proof {
                    assert(self@.entries =~= m.entries.update(
                        i as int,
                        HotEntry { last_access: m.counter + 1, ..m.entries[i as int] },
                    ));
                }
                Some(&self.values[i])
            },
            None => None,
        }
    }

    /// Holds `value` under `key`. When `key` is new and the cache is full, the
    /// entry used least recently goes first.
    pub fn insert(&mut self, key: String, value: CachedNeutralization)
        requires
            old(self).wf(),
            old(self)@.counter < u64::MAX,
        ensures
            final(self).wf(),
            final(self)@ == hot_insert(old(self)@, key@, value@),
    {
        let ghost m = self@;
        let found = self.position(&key);
        self.access_counter = self.access_counter + 1;
        let c = self.access_counter;
        proof {
            assert(self@.entries =~= m.entries);
            assert(self.wf());
        }
        if self.keys.len() >= self.max_size && found.is_none() && self.keys.len() > 0 {
            let v = self.oldest();
            self.keys.remove(v);
            self.values.remove(v);
            self.stamps.remove(v);
            proof {
                assert(self@.entries =~= m.entries.remove(v as int));
            }
        }
        let ghost s = self@.entries;
        assert(s == hot_room(m, key@));
        match found {
            Some(i) => {
                self.values.set(i, value);
                self.stamps.set(i, c);
                proof {
                    assert(self@.entries =~= s.update(i as int, HotEntry { key: key@, value: value@, last_access: c as int }));
                }
            },
            None => {
                self.keys.push(key);
                self.values.push(value);
                self.stamps.push(c);
                proof {
                    assert(!hot_has(s, key@)) by {
                        if hot_has(s, key@) {
                            let p = hot_pos(s, key@);
                            if s.len() < m.entries.len() {
                                let q = lru_pos(m.entries);
                                m.entries.remove_ensures(q);
                                let p2 = if p < q { p } else { p + 1 };
                                assert(s[p] == m.entries[p2]);
                            }
                        }
                    }
                    assert(self@.entries =~= s.push(HotEntry { key: key@, value: value@, last_access: c as int }));
                }
            },
        }
    }

    /// Position of the entry with the smallest access number.
    fn oldest(&self) -> (r: usize)
        requires
            self.wf(),
            self@.entries.len() > 0,
        ensures
            r < self@.entries.len(),
            is_lru(self@.entries, r as int),
            lru_pos(self@.entries) == r,
    {
        let ghost s = self@.entries;
        let n = self.stamps.len();
        let mut best: usize = 0;
        let mut i: usize = 1;
        while i < n
            invariant
                self.wf(),
                s == self@.entries,
                n == s.len(),
                best < i <= n,
                forall|j: int| 0 <= j < i ==> s[best as int].last_access <= #[trigger] s[j].last_access,
            decreases n - i,
        {
            if self.stamps[i] < self.stamps[best] {
                best = i;
            }
            i += 1;
        }
        proof {
            assert(is_lru(s, best as int));
            let q = lru_pos(s);
            assert(is_lru(s, q));
            if q != best as int {
                assert(s[q].last_access != s[best as int].last_access);
            }
        }
        best
    }

    pub fn contains(&self, key: &str) -> (r: bool)
        requires
            self.wf(),
        ensures
            r == hot_has(self@.entries, key@),
    {
        let k = key.to_owned();
        self.position(&k).is_some()
    }

    pub fn len(&self) -> (r: usize)
        requires
            self.wf(),
        ensures
            r == self@.entries.len(),
    {
        self.keys.len()
    }

    pub fn is_empty(&self) -> (r: bool)
        requires
            self.wf(),
        ensures
            r == (self@.entries.len() == 0),
    {
        self.keys.len() == 0
    }
}

} // verus!
