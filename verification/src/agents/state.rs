//! Shared key-value state for a task: steps leave their results here for the
//! steps after them. Values are JSON texts.
use vstd::prelude::*;

verus! {

broadcast use vstd::seq_lib::group_seq_properties;

pub open spec fn entry_key_index(v: Seq<(Seq<char>, Seq<char>)>, key: Seq<char>) -> Option<int>
    decreases v.len(),
{
    if v.len() == 0 {
        None
    } else if v.last().0 == key {
        Some(v.len() - 1)
    } else {
        entry_key_index(v.drop_last(), key)
    }
}

pub open spec fn entry_keys_distinct(v: Seq<(Seq<char>, Seq<char>)>) -> bool {
    forall|i: int, j: int| 0 <= i < j < v.len() ==> v[i].0 != v[j].0
}

pub proof fn lemma_entry_key_index(v: Seq<(Seq<char>, Seq<char>)>, key: Seq<char>)
    requires
        entry_keys_distinct(v),
    ensures
        entry_key_index(v, key) matches Some(i) ==> 0 <= i < v.len() && v[i].0 == key,
        entry_key_index(v, key) is None ==> forall|j: int| 0 <= j < v.len() ==> v[j].0 != key,
        forall|j: int| 0 <= j < v.len() && v[j].0 == key ==> entry_key_index(v, key) == Some(j),
    decreases v.len(),
{
    if v.len() > 0 {
        let d = v.drop_last();
        assert(entry_keys_distinct(d)) by {
            assert forall|i: int, j: int| 0 <= i < j < d.len() implies d[i].0 != d[j].0 by {
                assert(d[i] == v[i] && d[j] == v[j]);
            }
        }
        lemma_entry_key_index(d, key);
        assert forall|j: int| 0 <= j < v.len() && v[j].0 == key implies entry_key_index(v, key) == Some(j) by {
            if j < v.len() - 1 {
                assert(d[j] == v[j]);
                assert(v[j].0 != v[v.len() - 1].0);
            }
        }
        if entry_key_index(v, key) is None {
            assert forall|j: int| 0 <= j < v.len() implies v[j].0 != key by {
                if j < v.len() - 1 {
                    assert(d[j] == v[j]);
                }
            }
        }
    }
}

/// The value stored under `key`, if any.
pub open spec fn state_get(v: Seq<(Seq<char>, Seq<char>)>, key: Seq<char>) -> Option<Seq<char>> {
    match entry_key_index(v, key) {
        Some(i) => Some(v[i].1),
        None => None,
    }
}

/// The entries with `key` set to `value` (replacing what was there).
pub open spec fn state_set(v: Seq<(Seq<char>, Seq<char>)>, key: Seq<char>, value: Seq<char>) -> Seq<(Seq<char>, Seq<char>)> {
    match entry_key_index(v, key) {
        Some(i) => v.update(i, (key, value)),
        None => v.push((key, value)),
    }
}

#[derive(Debug, Clone)]
pub struct TaskState {
    entries: Vec<(String, String)>,
}

impl View for TaskState {
    type V = Seq<(Seq<char>, Seq<char>)>;

    closed spec fn view(&self) -> Seq<(Seq<char>, Seq<char>)> {
        self.entries@.map_values(|e: (String, String)| (e.0@, e.1@))
    }
}

impl TaskState {
    /// No key appears twice.
    pub open spec fn wf(&self) -> bool {
        entry_keys_distinct(self@)
    }

    pub fn new() -> (r: Self)
        ensures
            r.wf(),
            r@ == Seq::<(Seq<char>, Seq<char>)>::empty(),
    {
        let r = TaskState { entries: Vec::new() };
        assert(r@ =~= Seq::<(Seq<char>, Seq<char>)>::empty());
        r
    }

    fn index_of(&self, key: &str) -> (r: Option<usize>)
        requires
            self.wf(),
        ensures
            r matches Some(i) ==> entry_key_index(self@, key@) == Some(i as int) && i < self@.len(),
            r is None ==> entry_key_index(self@, key@) is None,
    {
        proof {
            lemma_entry_key_index(self@, key@);
        }
        let k = String::from_str(key);
        let mut i: usize = 0;
        while i < self.entries.len()
            invariant
                i <= self.entries.len(),
                k@ == key@,
                entry_keys_distinct(self@),
                self@.len() == self.entries@.len(),
                forall|j: int| 0 <= j < i ==> self@[j].0 != key@,
            decreases self.entries.len() - i,
        {
            if self.entries[i].0 == k {
                assert(self@[i as int].0 == self.entries@[i as int].0@);
                proof {
                    lemma_entry_key_index(self@, key@);
                }
                return Some(i);
            }
            i = i + 1;
        }
        None
    }

    /// The value under `key`.
    pub fn get(&self, key: &str) -> (r: Option<&String>)
        requires
            self.wf(),
        ensures
            r matches Some(v) ==> state_get(self@, key@) == Some(v@),
            r is None ==> state_get(self@, key@) is None,
    {
        match self.index_of(key) {
            Some(i) => Some(&self.entries[i].1),
            None => None,
        }
    }

    /// Sets the value under `key`.
    pub fn set(&mut self, key: String, value: String)
        requires
            old(self).wf(),
        ensures
            final(self).wf(),
            final(self)@ == state_set(old(self)@, key@, value@),
    {
        proof {
            lemma_entry_key_index(self@, key@);
        }
        let ghost kv = (key@, value@);
        match self.index_of(key.as_str()) {
            Some(i) => {
                self.entries.set(i, (key, value));
                assert(self@ =~= old(self)@.update(i as int, kv));
                proof {
                    assert forall|a: int, b: int| 0 <= a < b < self@.len() implies self@[a].0 != self@[b].0 by {
                        assert(old(self)@[a].0 != old(self)@[b].0);
                    }
                }
            },
            None => {
                self.entries.push((key, value));
                assert(self@ =~= old(self)@.push(kv));
                proof {
                    assert forall|a: int, b: int| 0 <= a < b < self@.len() implies self@[a].0 != self@[b].0 by {
                        if b < old(self)@.len() {
                            assert(old(self)@[a].0 != old(self)@[b].0);
                        } else {
                            assert(self@[a] == old(self)@[a]);
                        }
                    }
                }
            },
        }
    }

    /// The keys, in the order they were first set.
    pub fn keys(&self) -> (r: Vec<&String>)
        ensures
            r@.len() == self@.len(),
            forall|i: int| 0 <= i < r@.len() ==> (#[trigger] r@[i])@ == self@[i].0,
    {
        let mut out: Vec<&String> = Vec::new();
        let mut i: usize = 0;
        while i < self.entries.len()
            invariant
                i <= self.entries.len(),
                out@.len() == i,
                self@.len() == self.entries@.len(),
                forall|k: int| 0 <= k < i ==> (#[trigger] out@[k])@ == self@[k].0,
            decreases self.entries.len() - i,
        {
            out.push(&self.entries[i].0);
            i = i + 1;
        }
        out
    }

    /// The entry at position `i`, in the order the keys were first set.
    pub fn entry_at(&self, i: usize) -> (r: (&String, &String))
        requires
            i < self@.len(),
        ensures
            (r.0@, r.1@) == self@[i as int],
    {
        (&self.entries[i].0, &self.entries[i].1)
    }

    pub fn len(&self) -> (r: usize)
        ensures
            r == self@.len(),
    {
        self.entries.len()
    }

    pub fn is_empty(&self) -> (r: bool)
        ensures
            r == (self@.len() == 0),
    {
        self.entries.len() == 0
    }
}

impl Default for TaskState {
    fn default() -> (r: Self)
        ensures
            r@ == Seq::<(Seq<char>, Seq<char>)>::empty(),
    {
        TaskState::new()
    }
}

/// What is set under a key is what a read of that key gives back, and other
/// keys keep their values.
pub proof fn law_set_then_get(v: Seq<(Seq<char>, Seq<char>)>, key: Seq<char>, value: Seq<char>, other: Seq<char>)
    requires
        entry_keys_distinct(v),
    ensures
        entry_keys_distinct(state_set(v, key, value)),
        state_get(state_set(v, key, value), key) == Some(value),
        other != key ==> state_get(state_set(v, key, value), other) == state_get(v, other),
{
    lemma_entry_key_index(v, key);
    let n = state_set(v, key, value);
    assert forall|a: int, b: int| 0 <= a < b < n.len() implies n[a].0 != n[b].0 by {
        match entry_key_index(v, key) {
            Some(i) => {
                if a != i { assert(n[a] == v[a]); }
                if b != i { assert(n[b] == v[b]); }
            },
            None => {
                assert(n[a] == v[a]);
                if b < v.len() { assert(n[b] == v[b]); }
            },
        }
    }
    lemma_entry_key_index(n, key);
    lemma_entry_key_index(v, other);
    lemma_entry_key_index(n, other);
    match entry_key_index(v, key) {
        Some(i) => {
            assert(n[i].0 == key);
            match entry_key_index(v, other) {
                Some(j) => { if other != key { assert(n[j] == v[j]); } },
                None => {
                    if other != key {
                        assert forall|j: int| 0 <= j < n.len() implies n[j].0 != other by {
                            if j != i { assert(n[j] == v[j]); }
                        }
                    }
                },
            }
        },
        None => {
            assert(n[v.len() as int].0 == key);
            match entry_key_index(v, other) {
                Some(j) => { assert(n[j] == v[j]); },
                None => {
                    if other != key {
                        assert forall|j: int| 0 <= j < n.len() implies n[j].0 != other by {
                            if j < v.len() { assert(n[j] == v[j]); }
                        }
                    }
                },
            }
        },
    }
}

} // verus!
