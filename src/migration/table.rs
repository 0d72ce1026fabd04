//! A string-keyed table that keeps its keys unique and its insertion order.
use vstd::prelude::*;
use crate::text::str_eq;

verus! {

/// Entries as character sequences, in insertion order.
pub type Entries = Seq<(Seq<char>, Seq<char>)>;

pub open spec fn keys_unique<V>(e: Seq<(Seq<char>, V)>) -> bool {
    forall|i: int, j: int| 0 <= i < j < e.len() ==> #[trigger] e[i].0 != #[trigger] e[j].0
}

/// Index of the entry holding `k`, or -1.
pub open spec fn key_index<V>(e: Seq<(Seq<char>, V)>, k: Seq<char>) -> int
    decreases e.len(),
{
    if e.len() == 0 {
        -1
    } else if e.last().0 == k {
        e.len() - 1
    } else {
        key_index(e.drop_last(), k)
    }
}

/// The value stored under `k`, if any.
pub open spec fn lookup<V>(e: Seq<(Seq<char>, V)>, k: Seq<char>) -> Option<V> {
    if key_index(e, k) >= 0 {
        Some(e[key_index(e, k)].1)
    } else {
        None
    }
}

/// `e` with `k` bound to `v`: the entry of `k` replaced in place, or appended.
pub open spec fn insert_entry<V>(e: Seq<(Seq<char>, V)>, k: Seq<char>, v: V) -> Seq<(Seq<char>, V)> {
    if key_index(e, k) >= 0 {
        e.update(key_index(e, k), (k, v))
    } else {
        e.push((k, v))
    }
}

pub proof fn lemma_key_index<V>(e: Seq<(Seq<char>, V)>, k: Seq<char>)
    ensures
        -1 <= key_index(e, k) < e.len(),
        key_index(e, k) >= 0 ==> e[key_index(e, k)].0 == k,
        key_index(e, k) < 0 ==> forall|i: int| 0 <= i < e.len() ==> #[trigger] e[i].0 != k,
    decreases e.len(),
{
    if e.len() > 0 && e.last().0 != k {
        lemma_key_index(e.drop_last(), k);
        if key_index(e, k) < 0 {
            assert forall|i: int| 0 <= i < e.len() implies #[trigger] e[i].0 != k by {
                if i < e.len() - 1 {
                    assert(e.drop_last()[i] == e[i]);
                }
            }
        }
    }
}

pub proof fn lemma_insert_keeps_unique<V>(e: Seq<(Seq<char>, V)>, k: Seq<char>, v: V)
    requires
        keys_unique(e),
    ensures
        keys_unique(insert_entry(e, k, v)),
        lookup(insert_entry(e, k, v), k) == Some(v),
{
    lemma_key_index(e, k);
    let r = insert_entry(e, k, v);
    assert forall|i: int, j: int| 0 <= i < j < r.len() implies #[trigger] r[i].0 != #[trigger] r[j].0 by {
        if key_index(e, k) < 0 && j == e.len() {
            assert(r[i] == e[i]);
        }
    }
    lemma_key_index(r, k);
    if key_index(r, k) >= 0 {
        if key_index(e, k) >= 0 {
            assert(r[key_index(e, k)].0 == k);
        } else {
            assert(r[e.len() as int].0 == k);
        }
    } else {
        if key_index(e, k) >= 0 {
            assert(r[key_index(e, k)].0 == k);
        } else {
            assert(r[e.len() as int].0 == k);
        }
    }
}

/// The index found is the only one that holds `k`, so lookups read that entry.
pub proof fn lemma_lookup_at<V>(e: Seq<(Seq<char>, V)>, i: int)
    requires
        keys_unique(e),
        0 <= i < e.len(),
    ensures
        key_index(e, e[i].0) == i,
        lookup(e, e[i].0) == Some(e[i].1),
{
    lemma_key_index(e, e[i].0);
}

/// Binding one key leaves the lookups of every other key as they were.
pub proof fn lemma_insert_other<V>(e: Seq<(Seq<char>, V)>, k: Seq<char>, v: V, k2: Seq<char>)
    requires
        keys_unique(e),
        k2 != k,
    ensures
        lookup(insert_entry(e, k, v), k2) == lookup(e, k2),
{
    lemma_key_index(e, k);
    lemma_key_index(e, k2);
    let r = insert_entry(e, k, v);
    lemma_insert_keeps_unique(e, k, v);
    lemma_key_index(r, k2);
    if key_index(e, k2) >= 0 {
        assert(r[key_index(e, k2)].0 == k2);
        lemma_lookup_at(r, key_index(e, k2));
    } else if key_index(r, k2) >= 0 {
        let j = key_index(r, k2);
        if key_index(e, k) >= 0 {
            assert(r[j] == e[j]);
        } else if j < e.len() {
            assert(r[j] == e[j]);
        }
    }
}

/// `e` with `x` appended to the list of `k`, or a new entry `(k, [x])`.
pub open spec fn append_entry<X>(e: Seq<(Seq<char>, Seq<X>)>, k: Seq<char>, x: X) -> Seq<
    (Seq<char>, Seq<X>),
> {
    if key_index(e, k) >= 0 {
        e.update(key_index(e, k), (k, e[key_index(e, k)].1.push(x)))
    } else {
        e.push((k, seq![x]))
    }
}

/// Unique-keyed string pairs in insertion order.
#[derive(Debug)]
pub struct StringTable {
    entries: Vec<(String, String)>,
}

impl View for StringTable {
    type V = Entries;

    closed spec fn view(&self) -> Entries {
        self.entries@.map_values(|p: (String, String)| (p.0@, p.1@))
    }
}

impl StringTable {
    /// The table's keys are unique.
    pub open spec fn wf(&self) -> bool {
        keys_unique(self@)
    }

    pub fn new() -> (r: StringTable)
        ensures
            r@ == Seq::<(Seq<char>, Seq<char>)>::empty(),
            r.wf(),
    {
        let r = StringTable { entries: Vec::new() };
        assert(r@ =~= Seq::<(Seq<char>, Seq<char>)>::empty());
        r
    }

    pub fn len(&self) -> (r: usize)
        ensures
            r == self@.len(),
    {
        self.entries.len()
    }

    /// The key of the `i`-th entry.
    pub fn key_at(&self, i: usize) -> (r: &String)
        requires
            i < self@.len(),
        ensures
            r@ == self@[i as int].0,
    {
        &self.entries[i].0
    }

    /// The value of the `i`-th entry.
    pub fn value_at(&self, i: usize) -> (r: &String)
        requires
            i < self@.len(),
        ensures
            r@ == self@[i as int].1,
    {
        &self.entries[i].1
    }

    fn find(&self, key: &str) -> (r: Option<usize>)
        ensures
            r matches Some(i) ==> i as int == key_index(self@, key@),
            r is None ==> key_index(self@, key@) == -1,
    {
        let n = self.entries.len();
        let mut i: usize = n;
        assert(self@.subrange(0, n as int) =~= self@);
        while i > 0
            invariant
                i <= n,
                n == self@.len(),
                key_index(self@, key@) == key_index(self@.subrange(0, i as int), key@),
            decreases i,
        {
            let ghost sub = self@.subrange(0, i as int);
            assert(sub.last() == self@[i - 1]);
            if str_eq(self.entries[i - 1].0.as_str(), key) {
                return Some(i - 1);
            }
            assert(sub.drop_last() =~= self@.subrange(0, i - 1));
            i = i - 1;
        }
        None
    }

    /// The value stored under `key`.
    pub fn get(&self, key: &str) -> (r: Option<&String>)
        ensures
            match r {
                Some(v) => lookup(self@, key@) == Some(v@),
                None => lookup(self@, key@) is None,
            },
    {
        proof {
            lemma_key_index(self@, key@);
        }
        match self.find(key) {
            Some(i) => Some(&self.entries[i].1),
            None => None,
        }
    }

    /// Binds `key` to `value`, replacing the value of an existing entry in place.
    pub fn insert(&mut self, key: String, value: String)
        requires
            old(self).wf(),
        ensures
            final(self)@ == insert_entry(old(self)@, key@, value@),
            final(self).wf(),
    {
        proof {
            lemma_key_index(self@, key@);
            lemma_insert_keeps_unique(self@, key@, value@);
        }
        match self.find(key.as_str()) {
            Some(i) => {
                self.entries.set(i, (key, value));
            },
            None => {
                self.entries.push((key, value));
            },
        }
        assert(self@ =~= insert_entry(old(self)@, key@, value@));
    }
}

/// Unique keys, each with a list of strings, in insertion order.
#[derive(Debug)]
pub struct ListTable {
    entries: Vec<(String, Vec<String>)>,
}

pub open spec fn list_view(p: (String, Vec<String>)) -> (Seq<char>, Seq<Seq<char>>) {
    (p.0@, p.1@.map_values(|s: String| s@))
}

impl View for ListTable {
    type V = Seq<(Seq<char>, Seq<Seq<char>>)>;

    closed spec fn view(&self) -> Seq<(Seq<char>, Seq<Seq<char>>)> {
        self.entries@.map_values(|p: (String, Vec<String>)| list_view(p))
    }
}

impl ListTable {
    pub open spec fn wf(&self) -> bool {
        keys_unique(self@)
    }

    pub fn new() -> (r: ListTable)
        ensures
            r@ == Seq::<(Seq<char>, Seq<Seq<char>>)>::empty(),
            r.wf(),
    {
        let r = ListTable { entries: Vec::new() };
        assert(r@ =~= Seq::<(Seq<char>, Seq<Seq<char>>)>::empty());
        r
    }

    pub fn len(&self) -> (r: usize)
        ensures
            r == self@.len(),
    {
        self.entries.len()
    }

    pub fn key_at(&self, i: usize) -> (r: &String)
        requires
            i < self@.len(),
        ensures
            r@ == self@[i as int].0,
    {
        &self.entries[i].0
    }

    /// How many strings the `i`-th entry lists.
    pub fn count_at(&self, i: usize) -> (r: usize)
        requires
            i < self@.len(),
        ensures
            r == self@[i as int].1.len(),
    {
        self.entries[i].1.len()
    }

    /// The `j`-th string of the `i`-th entry.
    pub fn item_at(&self, i: usize, j: usize) -> (r: &String)
        requires
            i < self@.len(),
            j < self@[i as int].1.len(),
        ensures
            r@ == self@[i as int].1[j as int],
    {
        &self.entries[i].1[j]
    }

    fn find(&self, key: &str) -> (r: Option<usize>)
        ensures
            r matches Some(i) ==> i as int == key_index(self@, key@),
            r is None ==> key_index(self@, key@) == -1,
    {
        let n = self.entries.len();
        let mut i: usize = n;
        assert(self@.subrange(0, n as int) =~= self@);
        while i > 0
            invariant
                i <= n,
                n == self@.len(),
                key_index(self@, key@) == key_index(self@.subrange(0, i as int), key@),
            decreases i,
        {
            let ghost sub = self@.subrange(0, i as int);
            assert(sub.last() == self@[i - 1]);
            if str_eq(self.entries[i - 1].0.as_str(), key) {
                return Some(i - 1);
            }
            assert(sub.drop_last() =~= self@.subrange(0, i - 1));
            i = i - 1;
        }
        None
    }

    /// Appends `item` to the list of `key`, creating the entry when absent.
    pub fn append(&mut self, key: String, item: String)
        requires
            old(self).wf(),
        ensures
            final(self)@ == append_entry(old(self)@, key@, item@),
            final(self).wf(),
    {
        proof {
            lemma_key_index(self@, key@);
        }
        match self.find(key.as_str()) {
            Some(i) => {
                let mut list = self.entries[i].1.clone();
                let ghost before = list@;
                list.push(item);
                assert(list@.map_values(|s: String| s@) =~= before.map_values(|s: String| s@).push(item@));
                self.entries.set(i, (key, list));
            },
            None => {
                let mut list: Vec<String> = Vec::new();
                list.push(item);
                assert(list@.map_values(|s: String| s@) =~= seq![item@]);
                self.entries.push((key, list));
            },
        }
        assert(self@ =~= append_entry(old(self)@, key@, item@));
        proof {
            let r = append_entry(old(self)@, key@, item@);
            assert forall|a: int, b: int| 0 <= a < b < r.len() implies #[trigger] r[a].0 != #[trigger] r[b].0 by {
                if key_index(old(self)@, key@) < 0 && b == old(self)@.len() {
                    assert(r[a] == old(self)@[a]);
                }
            }
        }
    }
}

} // verus!
