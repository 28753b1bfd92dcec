//! String-keyed tables kept as vectors of `(key, value)` pairs: the first
//! pair with a key holds its value.

use vstd::prelude::*;

use crate::text::{owned, str_eq};

verus! {

broadcast use vstd::string::group_string_axioms;

/// The value the first pair with `key` holds.
pub open spec fn entry<V>(t: Seq<(String, V)>, key: Seq<char>) -> Option<V>
    decreases t.len(),
{
    if t.len() == 0 {
        None
    } else if t[0].0@ == key {
        Some(t[0].1)
    } else {
        entry(t.drop_first(), key)
    }
}

/// A table as a map from key text to value.
pub open spec fn entries_map<V>(t: Seq<(String, V)>) -> Map<Seq<char>, V> {
    Map::new(|k: Seq<char>| entry(t, k) is Some, |k: Seq<char>| entry(t, k)->0)
}

/// The value of `key` in a map, or `default` when the key is absent.
pub open spec fn map_or<V>(m: Map<Seq<char>, V>, key: Seq<char>, default: V) -> V {
    if m.contains_key(key) {
        m[key]
    } else {
        default
    }
}

proof fn lemma_entry_set<V>(t: Seq<(String, V)>, i: int, s: String, v: V)
    requires
        0 <= i < t.len(),
        t[i].0@ == s@,
        forall|j: int| 0 <= j < i ==> t[j].0@ != s@,
    ensures
        forall|k: Seq<char>| #[trigger] entry(t.update(i, (s, v)), k) == (if k == s@ {
            Some(v)
        } else {
            entry(t, k)
        }),
    decreases i,
{
    let u = t.update(i, (s, v));
    if i > 0 {
        let w = t.drop_first().update(i - 1, (s, v));
        lemma_entry_set(t.drop_first(), i - 1, s, v);
        assert(u.drop_first() =~= w);
        assert forall|k: Seq<char>| #[trigger] entry(u, k) == (if k == s@ {
            Some(v)
        } else {
            entry(t, k)
        }) by {
            assert(u[0] == t[0]);
            assert(entry(w, k) == (if k == s@ {
                Some(v)
            } else {
                entry(t.drop_first(), k)
            }));
        }
    } else {
        assert(u.drop_first() =~= t.drop_first());
        assert forall|k: Seq<char>| #[trigger] entry(u, k) == (if k == s@ {
            Some(v)
        } else {
            entry(t, k)
        }) by {
            assert(u[0] == (s, v));
            assert(entry(u.drop_first(), k) == entry(t.drop_first(), k));
        }
    }
}

proof fn lemma_entry_push<V>(t: Seq<(String, V)>, s: String, v: V)
    requires
        forall|j: int| 0 <= j < t.len() ==> t[j].0@ != s@,
    ensures
        forall|k: Seq<char>| #[trigger] entry(t.push((s, v)), k) == (if k == s@ {
            Some(v)
        } else {
            entry(t, k)
        }),
    decreases t.len(),
{
    let u = t.push((s, v));
    if t.len() > 0 {
        let w = t.drop_first().push((s, v));
        lemma_entry_push(t.drop_first(), s, v);
        assert(u.drop_first() =~= w);
        assert forall|k: Seq<char>| #[trigger] entry(u, k) == (if k == s@ {
            Some(v)
        } else {
            entry(t, k)
        }) by {
            assert(u[0] == t[0]);
            assert(entry(w, k) == (if k == s@ {
                Some(v)
            } else {
                entry(t.drop_first(), k)
            }));
        }
    } else {
        assert forall|k: Seq<char>| #[trigger] entry(u, k) == (if k == s@ {
            Some(v)
        } else {
            entry(t, k)
        }) by {
            assert(u[0] == (s, v));
            assert(u.drop_first().len() == 0);
            assert(entry(u.drop_first(), k) is None);
        }
    }
}

/// The index of the first pair with `key`, if any.
pub fn find_entry<V>(t: &Vec<(String, V)>, key: &str) -> (r: Option<usize>)
    ensures
        match r {
            Some(i) => i < t@.len() && t@[i as int].0@ == key@ && entry(t@, key@) == Some(t@[i as int].1)
                && forall|j: int| 0 <= j < i ==> t@[j].0@ != key@,
            None => entry(t@, key@) is None && forall|j: int| 0 <= j < t@.len() ==> t@[j].0@ != key@,
        },
{
    let mut k: usize = 0;
    assert(t@.skip(0) =~= t@);
    while k < t.len()
        invariant
            k <= t@.len(),
            entry(t@, key@) == entry(t@.skip(k as int), key@),
            forall|j: int| 0 <= j < k ==> t@[j].0@ != key@,
        decreases t@.len() - k,
    {
        assert(t@.skip(k as int)[0] == t@[k as int]);
        assert(t@.skip(k as int).drop_first() =~= t@.skip(k + 1));
        if str_eq(t[k].0.as_str(), key) {
            return Some(k);
        }
        k = k + 1;
    }
    None
}

/// Sets the value of `key`: the first pair with it changes, or a new pair
/// goes at the end.
pub fn set_entry<V>(t: &mut Vec<(String, V)>, key: &str, v: V)
    ensures
        entries_map(final(t)@) == entries_map(old(t)@).insert(key@, v),
{
    let ghost start = t@;
    match find_entry(t, key) {
        Some(i) => {
            let s = owned(key);
            proof {
                lemma_entry_set(start, i as int, s, v);
            }
            t.set(i, (s, v));
            assert(t@ == start.update(i as int, (s, v)));
        },
        None => {
            let s = owned(key);
            proof {
                lemma_entry_push(start, s, v);
            }
            t.push((s, v));
            assert(t@ == start.push((s, v)));
        },
    }
    assert(entries_map(t@) =~= entries_map(start).insert(key@, v));
}

/// The text stored under `key`, or `fallback` when there is none.
pub open spec fn text_or(t: Seq<(String, String)>, key: Seq<char>, fallback: Seq<char>) -> Seq<char> {
    match entry(t, key) {
        Some(s) => s@,
        None => fallback,
    }
}

/// Looks up a text, falling back when the key is absent (see [`text_or`]).
pub fn text_or_else<'a>(t: &'a Vec<(String, String)>, key: &str, fallback: &'a str) -> (r: &'a str)
    ensures
        r@ == text_or(t@, key@, fallback@),
{
    match find_entry(t, key) {
        Some(i) => t[i].1.as_str(),
        None => fallback,
    }
}

} // verus!
