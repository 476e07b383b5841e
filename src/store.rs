//! An in-memory image of the storage root, keeping one file per key exactly
//! as the directory on disk does.
use vstd::prelude::*;

use crate::naming::{
    entry_file_name, file_name_of, key_of_file_name, keys_from_listing, lemma_file_name_decodes,
    lemma_key_of_file_name, listed_keys, opt_view, views,
};

verus! {

/// What a store holds for `key`, if anything.
pub open spec fn lookup(m: Map<Seq<char>, Seq<char>>, key: Seq<char>) -> Option<Seq<char>> {
    if m.contains_key(key) {
        Some(m[key])
    } else {
        None
    }
}

/// When every name of a listing decodes, the listing gives one key per name.
proof fn lemma_listed_all_decode(ns: Seq<Seq<char>>)
    requires
        forall|j: int| 0 <= j < ns.len() ==> key_of_file_name(#[trigger] ns[j]) is Some,
    ensures
        listed_keys(ns).len() == ns.len(),
        forall|j: int|
            0 <= j < ns.len() ==> #[trigger] listed_keys(ns)[j] == key_of_file_name(ns[j])->Some_0,
    decreases ns.len(),
{
    if ns.len() > 0 {
        let rest = ns.drop_last();
        assert forall|j: int| 0 <= j < rest.len() implies key_of_file_name(#[trigger] rest[j]) is Some by {
            assert(rest[j] == ns[j]);
        }
        lemma_listed_all_decode(rest);
        assert(key_of_file_name(ns[ns.len() - 1]) is Some);
        assert forall|j: int| 0 <= j < ns.len() implies
            #[trigger] listed_keys(ns)[j] == key_of_file_name(ns[j])->Some_0 by {
            if j < ns.len() - 1 {
                assert(rest[j] == ns[j]);
            }
        }
    }
}

/// The storage root as a list of (file name, contents) pairs.
pub struct MemoryStore {
    files: Vec<(String, String)>,
    entries: Ghost<Map<Seq<char>, Seq<char>>>,
}

impl View for MemoryStore {
    type V = Map<Seq<char>, Seq<char>>;

    /// The stored entries, from key to value.
    closed spec fn view(&self) -> Map<Seq<char>, Seq<char>> {
        self.entries@
    }
}

impl MemoryStore {
    /// Each file is the entry of a key of the map, under that key's file
    /// name; each key has its file; no file name occurs twice.
    pub closed spec fn wf(&self) -> bool {
        &&& forall|k: Seq<char>| #[trigger] self.entries@.contains_key(k) ==> k.len() > 0
        &&& forall|i: int|
            0 <= i < self.files@.len() ==> {
                let name = #[trigger] self.files@[i].0@;
                &&& key_of_file_name(name) is Some
                &&& self.entries@.contains_key(key_of_file_name(name)->Some_0)
                &&& self.entries@[key_of_file_name(name)->Some_0] == self.files@[i].1@
            }
        &&& forall|k: Seq<char>| #[trigger]
            self.entries@.contains_key(k) ==> exists|i: int|
                0 <= i < self.files@.len() && #[trigger] self.files@[i].0@ == file_name_of(k)
        &&& forall|i: int, j: int|
            0 <= i < self.files@.len() && 0 <= j < self.files@.len() && i != j
                ==> #[trigger] self.files@[i].0@ != #[trigger] self.files@[j].0@
    }

    /// An empty storage root.
    pub fn new() -> (r: MemoryStore)
        ensures
            r.wf(),
            r@ == Map::<Seq<char>, Seq<char>>::empty(),
    {
        MemoryStore { files: Vec::new(), entries: Ghost(Map::empty()) }
    }

    /// Index of the file called `name`, if there is one.
    fn position(&self, name: &String) -> (r: Option<usize>)
        ensures
            r matches Some(i) ==> i < self.files@.len() && self.files@[i as int].0@ == name@,
            r is None ==> forall|i: int|
                0 <= i < self.files@.len() ==> #[trigger] self.files@[i].0@ != name@,
    {
        let mut i: usize = 0;
        while i < self.files.len()
            invariant
                i <= self.files@.len(),
                forall|j: int| 0 <= j < i ==> #[trigger] self.files@[j].0@ != name@,
            decreases self.files@.len() - i,
        {
            if self.files[i].0 == *name {
                return Some(i);
            }
            i = i + 1;
        }
        None
    }

    proof fn lemma_file_of_key(&self, key: Seq<char>, i: int)
        requires
            self.wf(),
            key.len() > 0,
            0 <= i < self.files@.len(),
            self.files@[i].0@ == file_name_of(key),
        ensures
            self@.contains_key(key),
            self@[key] == self.files@[i].1@,
    {
        lemma_key_of_file_name(key);
    }

    /// The value stored under `key`, or `None` when there is none.
    pub fn get(&self, key: &str) -> (r: Option<String>)
        requires
            self.wf(),
        ensures
            opt_view(r) == lookup(self@, key@),
    {
        let name = entry_file_name(key);
        match self.position(&name) {
            Some(i) => {
                proof {
                    if key@.len() == 0 {
                        lemma_file_name_decodes(self.files@[i as int].0@, key@);
                    } else {
                        self.lemma_file_of_key(key@, i as int);
                    }
                }
                Some(self.files[i].1.clone())
            },
            None => {
                proof {
                    if self@.contains_key(key@) {
                        let j = choose|j: int|
                            0 <= j < self.files@.len() && #[trigger] self.files@[j].0@
                                == file_name_of(key@);
                        assert(self.files@[j].0@ != name@);
                    }
                }
                None
            },
        }
    }

    /// Stores `value` under `key`, replacing what was there.
    pub fn put(&mut self, key: &str, value: &str)
        requires
            old(self).wf(),
            key@.len() > 0,
        ensures
            final(self).wf(),
            final(self)@ == old(self)@.insert(key@, value@),
    {
        let name = entry_file_name(key);
        proof {
            lemma_key_of_file_name(key@);
        }
        let ghost entries = self.entries@.insert(key@, value@);
        match self.position(&name) {
            Some(i) => {
                self.files.set(i, (name, String::from_str(value)));
                self.entries = Ghost(entries);
                assert forall|j: int| 0 <= j < self.files@.len() && j != i implies
                    key_of_file_name(#[trigger] self.files@[j].0@) != Some(key@) by {
                    lemma_file_name_decodes(self.files@[j].0@, key@);
                }
                assert forall|k: Seq<char>| #[trigger] entries.contains_key(k) implies exists|j: int|
                    0 <= j < self.files@.len() && #[trigger] self.files@[j].0@ == file_name_of(k) by {
                    if k != key@ {
                        let j = choose|j: int|
                            0 <= j < old(self).files@.len() && #[trigger] old(self).files@[j].0@
                                == file_name_of(k);
                        assert(self.files@[j].0@ == file_name_of(k));
                    } else {
                        assert(self.files@[i as int].0@ == file_name_of(k));
                    }
                }
            },
            None => {
                self.files.push((name, String::from_str(value)));
                self.entries = Ghost(entries);
                let ghost n = self.files@.len() - 1;
                assert forall|j: int| 0 <= j < n implies
                    key_of_file_name(#[trigger] self.files@[j].0@) != Some(key@) by {
                    lemma_file_name_decodes(self.files@[j].0@, key@);
                }
                assert forall|k: Seq<char>| #[trigger] entries.contains_key(k) implies exists|j: int|
                    0 <= j < self.files@.len() && #[trigger] self.files@[j].0@ == file_name_of(k) by {
                    if k != key@ {
                        let j = choose|j: int|
                            0 <= j < old(self).files@.len() && #[trigger] old(self).files@[j].0@
                                == file_name_of(k);
                        assert(self.files@[j].0@ == file_name_of(k));
                    } else {
                        assert(self.files@[n].0@ == file_name_of(k));
                    }
                }
            },
        }
    }

    /// Removes the entry of `key`; nothing happens when there is none.
    pub fn delete(&mut self, key: &str)
        requires
            old(self).wf(),
        ensures
            final(self).wf(),
            final(self)@ == old(self)@.remove(key@),
    {
        let name = entry_file_name(key);
        let ghost entries = self.entries@.remove(key@);
        match self.position(&name) {
            Some(i) => {
                proof {
                    if key@.len() == 0 {
                        lemma_file_name_decodes(self.files@[i as int].0@, key@);
                    }
                    lemma_key_of_file_name(key@);
                }
                let ghost before = self.files@;
                self.files.remove(i);
                self.entries = Ghost(entries);
                assert forall|j: int| 0 <= j < self.files@.len() implies
                    key_of_file_name(#[trigger] self.files@[j].0@) != Some(key@) by {
                    let oj = if j < i { j } else { j + 1 };
                    assert(self.files@[j] == before[oj]);
                    lemma_file_name_decodes(self.files@[j].0@, key@);
                }
                assert forall|j: int| 0 <= j < self.files@.len() implies {
                    let nm = #[trigger] self.files@[j].0@;
                    &&& key_of_file_name(nm) is Some
                    &&& entries.contains_key(key_of_file_name(nm)->Some_0)
                    &&& entries[key_of_file_name(nm)->Some_0] == self.files@[j].1@
                } by {
                    let oj = if j < i { j } else { j + 1 };
                    assert(self.files@[j] == before[oj]);
                }
                assert forall|k: Seq<char>| #[trigger] entries.contains_key(k) implies exists|j: int|
                    0 <= j < self.files@.len() && #[trigger] self.files@[j].0@ == file_name_of(k) by {
                    let oj = choose|j: int|
                        0 <= j < before.len() && #[trigger] before[j].0@ == file_name_of(k);
                    lemma_key_of_file_name(k);
                    if oj < i {
                        assert(self.files@[oj].0@ == file_name_of(k));
                    } else {
                        assert(oj != i);
                        assert(self.files@[oj - 1].0@ == file_name_of(k));
                    }
                }
                assert forall|a: int, b: int|
                    0 <= a < self.files@.len() && 0 <= b < self.files@.len() && a != b implies
                    #[trigger] self.files@[a].0@ != #[trigger] self.files@[b].0@ by {
                    let oa = if a < i { a } else { a + 1 };
                    let ob = if b < i { b } else { b + 1 };
                    assert(self.files@[a] == before[oa]);
                    assert(self.files@[b] == before[ob]);
                }
            },
            None => {
                proof {
                    if self@.contains_key(key@) {
                        let j = choose|j: int|
                            0 <= j < self.files@.len() && #[trigger] self.files@[j].0@
                                == file_name_of(key@);
                        assert(self.files@[j].0@ != name@);
                    }
                    assert(entries =~= self.entries@);
                }
            },
        }
    }

    /// The stored keys, each once, in no particular order.
    pub fn list_keys(&self) -> (r: Vec<String>)
        requires
            self.wf(),
        ensures
            views(r@).to_set() == self@.dom(),
            views(r@).no_duplicates(),
    {
        let mut names: Vec<String> = Vec::new();
        let mut i: usize = 0;
        while i < self.files.len()
            invariant
                i <= self.files@.len(),
                names@.len() == i,
                forall|j: int| 0 <= j < i ==> #[trigger] names@[j]@ == self.files@[j].0@,
            decreases self.files@.len() - i,
        {
            names.push(self.files[i].0.clone());
            i = i + 1;
        }
        let keys = keys_from_listing(&names);
        proof {
            let ns = views(names@);
            assert forall|j: int| 0 <= j < ns.len() implies key_of_file_name(#[trigger] ns[j]) is Some by {
                assert(ns[j] == self.files@[j].0@);
            }
            lemma_listed_all_decode(ns);
            let ks = views(keys@);
            assert forall|k: Seq<char>| ks.contains(k) <==> self@.contains_key(k) by {
                if ks.contains(k) {
                    let j = choose|j: int| 0 <= j < ks.len() && ks[j] == k;
                    assert(ns[j] == self.files@[j].0@);
                }
                if self@.contains_key(k) {
                    let j = choose|j: int|
                        0 <= j < self.files@.len() && #[trigger] self.files@[j].0@ == file_name_of(k);
                    lemma_key_of_file_name(k);
                    assert(ns[j] == self.files@[j].0@);
                    assert(ks[j] == k);
                }
            }
            assert(ks.to_set() =~= self@.dom());
            assert forall|a: int, b: int| 0 <= a < ks.len() && 0 <= b < ks.len() && a != b implies
                ks[a] != ks[b] by {
                assert(ns[a] == self.files@[a].0@);
                assert(ns[b] == self.files@[b].0@);
                lemma_file_name_decodes(ns[a], ks[a]);
                lemma_file_name_decodes(ns[b], ks[b]);
            }
        }
        keys
    }

    /// Removes every entry, leaving an empty storage root ready for use.
    pub fn clear(&mut self)
        requires
            old(self).wf(),
        ensures
            final(self).wf(),
            final(self)@ == Map::<Seq<char>, Seq<char>>::empty(),
    {
        self.files = Vec::new();
        self.entries = Ghost(Map::empty());
    }
}

/// Reading a key right after writing a value under it gives that value back,
/// unchanged.
pub proof fn law_put_then_get(before: Map<Seq<char>, Seq<char>>, key: Seq<char>, value: Seq<char>)
    ensures
        lookup(before.insert(key, value), key) == Some(value),
{
}

/// Reading a key right after deleting it finds nothing, whether or not the
/// key was stored before.
pub proof fn law_delete_then_get(before: Map<Seq<char>, Seq<char>>, key: Seq<char>)
    ensures
        lookup(before.remove(key), key) is None,
{
}

/// After clearing, the key listing is empty, and the store takes new
/// entries again: a write then leaves exactly that one entry.
pub proof fn law_clear_then_list(
    listed: Seq<Seq<char>>,
    key: Seq<char>,
    value: Seq<char>,
)
    requires
        listed.to_set() == Map::<Seq<char>, Seq<char>>::empty().dom(),
    ensures
        listed.len() == 0,
        lookup(Map::<Seq<char>, Seq<char>>::empty().insert(key, value), key) == Some(value),
        Map::<Seq<char>, Seq<char>>::empty().insert(key, value) == map![key => value],
{
    assert(Map::<Seq<char>, Seq<char>>::empty().insert(key, value) =~= map![key => value]);
    if listed.len() > 0 {
        assert(listed.to_set().contains(listed[0]));
    }
}

/// Writing two keys into an empty store and listing the keys gives exactly
/// those two keys, each once.
pub proof fn law_two_puts_listed(
    listed: Seq<Seq<char>>,
    k1: Seq<char>,
    v1: Seq<char>,
    k2: Seq<char>,
    v2: Seq<char>,
)
    requires
        listed.to_set() == Map::<Seq<char>, Seq<char>>::empty().insert(k1, v1).insert(k2, v2).dom(),
        listed.no_duplicates(),
    ensures
        listed.to_set() == set![k1, k2],
        listed.len() == if k1 == k2 { 1int } else { 2int },
{
    assert(Map::<Seq<char>, Seq<char>>::empty().insert(k1, v1).insert(k2, v2).dom() =~= set![k1, k2]);
    listed.unique_seq_to_set();
    if k1 == k2 {
        assert(set![k1, k2] =~= Set::<Seq<char>>::empty().insert(k1));
    } else {
        assert(set![k1, k2] =~= Set::<Seq<char>>::empty().insert(k1).insert(k2));
    }
}

} // verus!
