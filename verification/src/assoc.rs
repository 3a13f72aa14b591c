//! Association lists keyed by text: the representation behind every keyed
//! table of the library (script objects, package tables, the user and device
//! registries). A list is well formed when no key occurs twice; it then
//! behaves as a finite map from key text to value.

use vstd::prelude::*;
use vstd::string::*;

verus! {

/// No key occurs twice in `s`.
pub open spec fn keys_unique<V>(s: Seq<(String, V)>) -> bool {
    forall|i: int, j: int|
        #![trigger s[i], s[j]]
        0 <= i < s.len() && 0 <= j < s.len() && i != j ==> s[i].0@ != s[j].0@
}

/// Some entry of `s` has key `k`.
pub open spec fn has_key<V>(s: Seq<(String, V)>, k: Seq<char>) -> bool {
    exists|i: int| #![trigger s[i]] 0 <= i < s.len() && s[i].0@ == k
}

/// The position of an entry with key `k` (meaningful when `has_key(s, k)`).
pub open spec fn key_index<V>(s: Seq<(String, V)>, k: Seq<char>) -> int {
    choose|i: int| #![trigger s[i]] 0 <= i < s.len() && s[i].0@ == k
}

/// The value stored under `k`, if any.
pub open spec fn lookup<V>(s: Seq<(String, V)>, k: Seq<char>) -> Option<V> {
    if has_key(s, k) {
        Some(s[key_index(s, k)].1)
    } else {
        None
    }
}

/// The keys of `s`, in order.
pub open spec fn key_texts<V>(s: Seq<(String, V)>) -> Seq<Seq<char>> {
    s.map_values(|e: (String, V)| e.0@)
}

/// In a list without repeated keys, the entry at `i` is the one `lookup` finds.
pub proof fn lemma_lookup_at<V>(s: Seq<(String, V)>, i: int)
    requires
        keys_unique(s),
        0 <= i < s.len(),
    ensures
        has_key(s, s[i].0@),
        key_index(s, s[i].0@) == i,
        lookup(s, s[i].0@) == Some(s[i].1),
{
    assert(s[i].0@ == s[i].0@);
    let j = key_index(s, s[i].0@);
    assert(0 <= j < s.len() && s[j].0@ == s[i].0@);
}

/// Appending an entry under a new key keeps keys unique and adds exactly that key.
pub proof fn lemma_lookup_push<V>(s: Seq<(String, V)>, k: String, v: V)
    requires
        keys_unique(s),
        !has_key(s, k@),
    ensures
        keys_unique(s.push((k, v))),
        forall|q: Seq<char>|
            #[trigger] lookup(s.push((k, v)), q) == if q == k@ {
                Some(v)
            } else {
                lookup(s, q)
            },
{
    let t = s.push((k, v));
    assert forall|i: int, j: int|
        #![trigger t[i], t[j]]
        0 <= i < t.len() && 0 <= j < t.len() && i != j implies t[i].0@ != t[j].0@ by {
        if i < s.len() && j < s.len() {
            assert(t[i] == s[i] && t[j] == s[j]);
        } else if i < s.len() {
            assert(t[i] == s[i]);
        } else {
            assert(t[j] == s[j]);
        }
    }
    assert forall|q: Seq<char>|
        #[trigger] lookup(t, q) == if q == k@ {
            Some(v)
        } else {
            lookup(s, q)
        } by {
        if q == k@ {
            lemma_lookup_at(t, s.len() as int);
        } else if has_key(s, q) {
            let i = key_index(s, q);
            lemma_lookup_at(s, i);
            assert(t[i] == s[i]);
            lemma_lookup_at(t, i);
        } else {
            if has_key(t, q) {
                let i = key_index(t, q);
                assert(t[i] == s[i]);
            }
        }
    }
}

/// Replacing the value at position `i` changes exactly the value of that key.
pub proof fn lemma_lookup_update<V>(s: Seq<(String, V)>, i: int, k: String, v: V)
    requires
        keys_unique(s),
        0 <= i < s.len(),
        k@ == s[i].0@,
    ensures
        keys_unique(s.update(i, (k, v))),
        forall|q: Seq<char>|
            #[trigger] lookup(s.update(i, (k, v)), q) == if q == k@ {
                Some(v)
            } else {
                lookup(s, q)
            },
{
    let t = s.update(i, (k, v));
    assert forall|a: int, b: int|
        #![trigger t[a], t[b]]
        0 <= a < t.len() && 0 <= b < t.len() && a != b implies t[a].0@ != t[b].0@ by {
        assert(s[a].0@ != s[b].0@);
    }
    assert forall|q: Seq<char>|
        #[trigger] lookup(t, q) == if q == k@ {
            Some(v)
        } else {
            lookup(s, q)
        } by {
        if q == k@ {
            lemma_lookup_at(t, i);
        } else if has_key(s, q) {
            let j = key_index(s, q);
            lemma_lookup_at(s, j);
            assert(t[j] == s[j]);
            lemma_lookup_at(t, j);
        } else {
            if has_key(t, q) {
                let j = key_index(t, q);
                assert(t[j] == s[j]);
            }
        }
    }
}

/// Whether two texts are equal.
pub fn same_text(a: &str, b: &str) -> (r: bool)
    ensures
        r == (a@ == b@),
{
    a.to_owned() == b.to_owned()
}

/// The position of the first entry with key `key`, if there is one.
pub fn find_key<V>(entries: &Vec<(String, V)>, key: &str) -> (r: Option<usize>)
    ensures
        match r {
            Some(i) => i < entries@.len() && entries@[i as int].0@ == key@ && forall|j: int|
                #![trigger entries@[j]]
                0 <= j < i ==> entries@[j].0@ != key@,
            None => !has_key(entries@, key@),
        },
{
    let mut i: usize = 0;
    while i < entries.len()
        invariant
            i <= entries@.len(),
            forall|j: int| #![trigger entries@[j]] 0 <= j < i ==> entries@[j].0@ != key@,
        decreases entries@.len() - i,
    {
        if same_text(entries[i].0.as_str(), key) {
            return Some(i);
        }
        i = i + 1;
    }
    None
}

/// Sets the value under `key`: an entry with that key keeps its place and
/// takes the new value; otherwise the entry goes last.
pub fn insert_entry<V>(entries: &mut Vec<(String, V)>, key: String, value: V)
    requires
        keys_unique(old(entries)@),
    ensures
        keys_unique(final(entries)@),
        final(entries)@ == if has_key(old(entries)@, key@) {
            old(entries)@.update(key_index(old(entries)@, key@), (key, value))
        } else {
            old(entries)@.push((key, value))
        },
        forall|q: Seq<char>|
            #[trigger] lookup(final(entries)@, q) == if q == key@ {
                Some(value)
            } else {
                lookup(old(entries)@, q)
            },
{
    let ghost before = entries@;
    match find_key(entries, key.as_str()) {
        Some(i) => {
            proof {
                lemma_lookup_at(before, i as int);
                lemma_lookup_update(before, i as int, key, value);
            }
            entries.set(i, (key, value));
        },
        None => {
            proof {
                lemma_lookup_push(before, key, value);
            }
            entries.push((key, value));
        },
    }
}

} // verus!
