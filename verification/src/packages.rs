//! Package lists per package manager, as scripts build them up.

use vstd::prelude::*;
use vstd::string::*;

use crate::assoc::{
    has_key, insert_entry, key_index, keys_unique, lemma_lookup_at, lemma_lookup_push, lookup,
};
use crate::registry::text_opt;

verus! {

/// The text a package table is shown as: for each package manager, in order,
/// its name, a colon, its packages and a space.
pub open spec fn listing(s: Seq<(String, String)>) -> Seq<char>
    decreases s.len(),
{
    if s.len() == 0 {
        Seq::empty()
    } else {
        listing(s.drop_last()) + s.last().0@ + ":"@ + s.last().1@ + " "@
    }
}

/// Packages to install, as a space-separated list per package manager; each
/// manager appears once.
pub struct Packages {
    pm: Vec<(String, String)>,
}

/// The packages handed to an installation: per package manager, its list.
pub struct Package {
    pub pm: Vec<(String, String)>,
}

/// The text view of a table of pairs of strings.
pub open spec fn pair_texts(s: Seq<(String, String)>) -> Seq<(Seq<char>, Seq<char>)> {
    s.map_values(|e: (String, String)| (e.0@, e.1@))
}

impl Packages {
    #[verifier::type_invariant]
    spec fn managers_unique(self) -> bool {
        keys_unique(self.pm@)
    }

    /// The managers with their package lists, in the order managers were
    /// first given.
    pub closed spec fn entries(&self) -> Seq<(String, String)> {
        self.pm@
    }

    /// The package list of manager `pm`, if it has one.
    pub open spec fn packages_of(&self, pm: Seq<char>) -> Option<Seq<char>> {
        text_opt(lookup(self.entries(), pm))
    }

    /// An empty table.
    pub fn new() -> (r: Packages)
        ensures
            r.entries().len() == 0,
            r.to_string_spec() == "empty"@,
    {
        Packages { pm: Vec::new() }
    }

    /// Sets the package list of manager `pm` to `value`, replacing any list
    /// it had; a manager new to the table goes last.
    pub fn index_set(&mut self, pm: &str, value: &str)
        ensures
            keys_unique(final(self).entries()),
            forall|q: Seq<char>|
                #[trigger] final(self).packages_of(q) == if q == pm@ {
                    Some(value@)
                } else {
                    old(self).packages_of(q)
                },
            pair_texts(final(self).entries()) == if has_key(old(self).entries(), pm@) {
                pair_texts(old(self).entries()).update(
                    key_index(old(self).entries(), pm@),
                    (pm@, value@),
                )
            } else {
                pair_texts(old(self).entries()).push((pm@, value@))
            },
    {
        proof {
            use_type_invariant(&*self);
        }
        let mut entries: Vec<(String, String)> = Vec::new();
        std::mem::swap(&mut entries, &mut self.pm);
        let ghost before = entries@;
        let key = pm.to_owned();
        let text = value.to_owned();
        insert_entry(&mut entries, key, text);
        proof {
            if has_key(before, pm@) {
                assert(pair_texts(entries@) =~= pair_texts(before).update(
                    key_index(before, pm@),
                    (pm@, value@),
                ));
            } else {
                assert(pair_texts(entries@) =~= pair_texts(before).push((pm@, value@)));
            }
        }
        self.pm = entries;
    }

    /// Adds the lists of `value` to this table: for each manager of `value`,
    /// its list is appended after a space to the list this table has for it,
    /// taken as empty when there is none. Other managers keep their lists.
    pub fn add_assign(&mut self, value: &Packages)
        ensures
            keys_unique(final(self).entries()),
            forall|q: Seq<char>|
                #[trigger] final(self).packages_of(q) == match value.packages_of(q) {
                    Some(v) => Some(
                        match old(self).packages_of(q) {
                            Some(cur) => cur,
                            None => Seq::empty(),
                        } + " "@ + v,
                    ),
                    None => old(self).packages_of(q),
                },
    {
        proof {
            use_type_invariant(&*self);
            use_type_invariant(value);
        }
        let ghost old_self = self.pm@;
        let ghost other = value.pm@;
        let mut entries: Vec<(String, String)> = Vec::new();
        std::mem::swap(&mut entries, &mut self.pm);
        let n = value.pm.len();
        let mut i: usize = 0;
        while i < n
            invariant
                n == other.len(),
                other == value.pm@,
                keys_unique(other),
                keys_unique(entries@),
                i <= n,
                forall|q: Seq<char>|
                    #[trigger] text_opt(lookup(entries@, q)) == match text_opt(
                        lookup(other.subrange(0, i as int), q),
                    ) {
                        Some(v) => Some(
                            match text_opt(lookup(old_self, q)) {
                                Some(cur) => cur,
                                None => Seq::empty(),
                            } + " "@ + v,
                        ),
                        None => text_opt(lookup(old_self, q)),
                    },
            decreases n - i,
        {
            let key: &String = &value.pm[i].0;
            let add: &String = &value.pm[i].1;
            let ghost prefix = other.subrange(0, i as int);
            proof {
                assert(other.subrange(0, i + 1) =~= prefix.push(other[i as int]));
                assert(keys_unique(prefix));
                if has_key(prefix, key@) {
                    let j = key_index(prefix, key@);
                    assert(other[j].0@ == other[i as int].0@);
                }
                lemma_lookup_push(prefix, other[i as int].0, other[i as int].1);
                reveal_strlit(" ");
            }
            let mut list = match crate::assoc::find_key(&entries, key.as_str()) {
                Some(j) => {
                    proof {
                        lemma_lookup_at(entries@, j as int);
                    }
                    entries[j].1.clone()
                },
                None => String::new(),
            };
            let ghost cur = text_opt(lookup(entries@, key@));
            assert(cur == text_opt(lookup(old_self, key@)));
            assert(list@ == match cur {
                Some(c) => c,
                None => Seq::empty(),
            });
            list.append(" ");
            list.append(add.as_str());
            let ghost before = entries@;
            let ghost new_list = list@;
            insert_entry(&mut entries, key.clone(), list);
            proof {
                let next = other.subrange(0, i + 1);
                assert forall|q: Seq<char>|
                    #[trigger] text_opt(lookup(entries@, q)) == match text_opt(lookup(next, q)) {
                        Some(v) => Some(
                            match text_opt(lookup(old_self, q)) {
                                Some(c) => c,
                                None => Seq::empty(),
                            } + " "@ + v,
                        ),
                        None => text_opt(lookup(old_self, q)),
                    } by {
                    assert(lookup(next, q) == if q == key@ {
                        Some(other[i as int].1)
                    } else {
                        lookup(prefix, q)
                    });
                    if q == key@ {
                        assert(text_opt(lookup(entries@, q)) == Some(new_list));
                    } else {
                        assert(lookup(entries@, q) == lookup(before, q));
                    }
                }
            }
            i = i + 1;
        }
        proof {
            assert(other.subrange(0, n as int) =~= other);
        }
        self.pm = entries;
    }

    /// The table as handed to an installation.
    pub fn as_package(&self) -> (r: Package)
        ensures
            pair_texts(r.pm@) == pair_texts(self.entries()),
            keys_unique(self.entries()),
            keys_unique(r.pm@),
    {
        proof {
            use_type_invariant(self);
        }
        let mut out: Vec<(String, String)> = Vec::new();
        let mut i: usize = 0;
        while i < self.pm.len()
            invariant
                i <= self.pm@.len(),
                out@.len() == i,
                pair_texts(out@) == pair_texts(self.pm@.subrange(0, i as int)),
            decreases self.pm@.len() - i,
        {
            let entry = (self.pm[i].0.clone(), self.pm[i].1.clone());
            let ghost before = out@;
            out.push(entry);
            proof {
                assert(entry.0@ == self.pm@[i as int].0@ && entry.1@ == self.pm@[i as int].1@);
                assert(pair_texts(before) == pair_texts(self.pm@.subrange(0, i as int)));
                let sub = self.pm@.subrange(0, i + 1);
                assert forall|k: int| 0 <= k < i + 1 implies #[trigger] pair_texts(out@)[k] == pair_texts(
                    sub,
                )[k] by {
                    if k < i {
                        assert(out@[k] == before[k]);
                        assert(pair_texts(before)[k] == pair_texts(self.pm@.subrange(0, i as int))[k]);
                    }
                }
                assert(pair_texts(out@) =~= pair_texts(sub));
            }
            i = i + 1;
        }
        proof {
            assert(self.pm@.subrange(0, i as int) =~= self.pm@);
            assert forall|a: int, b: int|
                #![trigger out@[a], out@[b]]
                0 <= a < out@.len() && 0 <= b < out@.len() && a != b implies out@[a].0@ != out@[b].0@ by {
                assert(pair_texts(out@)[a] == pair_texts(self.pm@)[a]);
                assert(pair_texts(out@)[b] == pair_texts(self.pm@)[b]);
            }
        }
        Package { pm: out }
    }

    /// The text a table is shown as: `empty` when it has no managers, else its
    /// listing.
    pub open spec fn to_string_spec(&self) -> Seq<char> {
        if self.entries().len() == 0 {
            "empty"@
        } else {
            listing(self.entries())
        }
    }

    /// The table as text (see `to_string_spec`).
    pub fn to_string(&self) -> (r: String)
        ensures
            r@ == self.to_string_spec(),
            keys_unique(self.entries()),
    {
        proof {
            use_type_invariant(self);
        }
        if self.pm.len() == 0 {
            return "empty".to_owned();
        }
        let mut out = String::new();
        let mut i: usize = 0;
        while i < self.pm.len()
            invariant
                i <= self.pm@.len(),
                out@ == listing(self.pm@.subrange(0, i as int)),
            decreases self.pm@.len() - i,
        {
            out.append(self.pm[i].0.as_str());
            out.append(":");
            out.append(self.pm[i].1.as_str());
            out.append(" ");
            proof {
                let next = self.pm@.subrange(0, i + 1);
                assert(next.drop_last() =~= self.pm@.subrange(0, i as int));
                assert(next.last() == self.pm@[i as int]);
            }
            i = i + 1;
        }
        proof {
            assert(self.pm@.subrange(0, i as int) =~= self.pm@);
        }
        out
    }
}

impl Default for Packages {
    /// An empty table.
    fn default() -> (r: Packages)
        ensures
            r.entries().len() == 0,
    {
        Packages::new()
    }
}

/// A table is shown entry by entry: an empty listing for no entries, and each
/// further entry adds its manager, a colon, its packages and one space.
pub proof fn lemma_listing_entries(s: Seq<(String, String)>, e: (String, String))
    ensures
        listing(Seq::<(String, String)>::empty()) == Seq::<char>::empty(),
        listing(s.push(e)) == listing(s) + e.0@ + ":"@ + e.1@ + " "@,
        listing(seq![e]) == e.0@ + ":"@ + e.1@ + " "@,
{
    assert(s.push(e).drop_last() =~= s);
    assert(seq![e].drop_last() =~= Seq::<(String, String)>::empty());
    let z = Seq::<(String, String)>::empty();
    assert(listing(z) == Seq::<char>::empty());
    assert(seq![e] =~= z.push(e));
    assert(listing(z.push(e)) == listing(z) + e.0@ + ":"@ + e.1@ + " "@);
    assert(Seq::<char>::empty() + e.0@ =~= e.0@);
}

} // verus!
