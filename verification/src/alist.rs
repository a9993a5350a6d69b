//! Association lists keyed by strings: the one lookup the registry, the
//! room table and the map table all rest on, with the lemmas that say how
//! lookup behaves under removal and insertion of entries.
use vstd::prelude::*;
use vstd::string::*;

verus! {

/// First-match lookup in an association list keyed by strings.
pub open spec fn spec_alist_get<V>(s: Seq<(String, V)>, k: Seq<char>) -> Option<V>
    decreases s.len(),
{
    if s.len() == 0 {
        None
    } else if s[0].0@ == k {
        Some(s[0].1)
    } else {
        spec_alist_get(s.drop_first(), k)
    }
}

/// Whether the keys of an association list are pairwise distinct.
pub open spec fn spec_keys_distinct<V>(s: Seq<(String, V)>) -> bool {
    forall|i: int, j: int| 0 <= i < j < s.len() ==> s[i].0@ != s[j].0@
}

/// A key absent from every entry is not found.
pub proof fn lemma_alist_get_absent<V>(s: Seq<(String, V)>, k: Seq<char>)
    requires
        forall|i: int| 0 <= i < s.len() ==> s[i].0@ != k,
    ensures
        spec_alist_get(s, k) is None,
    decreases s.len(),
{
    if s.len() > 0 {
        assert forall|i: int| 0 <= i < s.drop_first().len() implies s.drop_first()[i].0@ != k by {
            assert(s.drop_first()[i] == s[i + 1]);
        }
        lemma_alist_get_absent(s.drop_first(), k);
    }
}

/// With distinct keys, lookup of an entry's key finds that entry.
pub proof fn lemma_alist_get_at<V>(s: Seq<(String, V)>, i: int)
    requires
        spec_keys_distinct(s),
        0 <= i < s.len(),
    ensures
        spec_alist_get(s, s[i].0@) == Some(s[i].1),
    decreases i,
{
    if i > 0 {
        assert(s.drop_first()[i - 1] == s[i]);
        assert forall|a: int, b: int|
            0 <= a < b < s.drop_first().len() implies s.drop_first()[a].0@
            != s.drop_first()[b].0@ by {
            assert(s.drop_first()[a] == s[a + 1]);
            assert(s.drop_first()[b] == s[b + 1]);
        }
        lemma_alist_get_at(s.drop_first(), i - 1);
    }
}

/// What a found value says: it is the value of some entry with that key;
/// and a miss says no entry has the key.
pub proof fn lemma_alist_get_index<V>(s: Seq<(String, V)>, k: Seq<char>)
    ensures
        spec_alist_get(s, k) matches Some(v) ==> exists|i: int|
            0 <= i < s.len() && #[trigger] s[i].0@ == k && s[i].1 == v,
        spec_alist_get(s, k) is None ==> forall|i: int| 0 <= i < s.len() ==> s[i].0@ != k,
    decreases s.len(),
{
    if s.len() > 0 && s[0].0@ != k {
        lemma_alist_get_index(s.drop_first(), k);
        match spec_alist_get(s, k) {
            Option::Some(v) => {
                let i = choose|i: int|
                    0 <= i < s.drop_first().len() && #[trigger] s.drop_first()[i].0@ == k
                        && s.drop_first()[i].1 == v;
                assert(s[i + 1] == s.drop_first()[i]);
            },
            Option::None => {
                assert forall|i: int| 0 <= i < s.len() implies s[i].0@ != k by {
                    if i > 0 {
                        assert(s.drop_first()[i - 1] == s[i]);
                    }
                }
            },
        }
    }
}

/// Removing the entry at `i` removes its key and leaves every other key's
/// lookup unchanged.
pub proof fn lemma_alist_get_remove<V>(s: Seq<(String, V)>, i: int)
    requires
        spec_keys_distinct(s),
        0 <= i < s.len(),
    ensures
        spec_keys_distinct(s.remove(i)),
        spec_alist_get(s.remove(i), s[i].0@) is None,
        forall|k: Seq<char>| k != s[i].0@ ==> spec_alist_get(s.remove(i), k) == spec_alist_get(
            s,
            k,
        ),
    decreases i,
{
    let s2 = s.remove(i);
    assert forall|a: int, b: int| 0 <= a < b < s2.len() implies s2[a].0@ != s2[b].0@ by {
        assert(s2[a] == (if a < i {
            s[a]
        } else {
            s[a + 1]
        }));
        assert(s2[b] == (if b < i {
            s[b]
        } else {
            s[b + 1]
        }));
    }
    if i == 0 {
        assert(s2 =~= s.drop_first());
        assert forall|j: int| 0 <= j < s2.len() implies s2[j].0@ != s[0].0@ by {
            assert(s2[j] == s[j + 1]);
        }
        lemma_alist_get_absent(s2, s[0].0@);
        assert forall|k: Seq<char>| k != s[0].0@ implies spec_alist_get(s2, k) == spec_alist_get(
            s,
            k,
        ) by {
            assert(spec_alist_get(s, k) == spec_alist_get(s.drop_first(), k));
        }
    } else {
        assert(s2[0] == s[0]);
        assert(s2.drop_first() =~= s.drop_first().remove(i - 1));
        assert(s.drop_first()[i - 1] == s[i]);
        assert forall|a: int, b: int|
            0 <= a < b < s.drop_first().len() implies s.drop_first()[a].0@
            != s.drop_first()[b].0@ by {
            assert(s.drop_first()[a] == s[a + 1]);
            assert(s.drop_first()[b] == s[b + 1]);
        }
        lemma_alist_get_remove(s.drop_first(), i - 1);
        assert(s[0].0@ != s[i].0@);
        assert(spec_alist_get(s2, s[i].0@) == spec_alist_get(s2.drop_first(), s[i].0@));
        assert(spec_alist_get(s2, s[i].0@) is None);
        assert forall|k: Seq<char>| k != s[i].0@ implies spec_alist_get(s2, k) == spec_alist_get(
            s,
            k,
        ) by {
            if s[0].0@ == k {
            } else {
                assert(spec_alist_get(s2, k) == spec_alist_get(s2.drop_first(), k));
                assert(spec_alist_get(s2.drop_first(), k) == spec_alist_get(s.drop_first(), k));
                assert(spec_alist_get(s, k) == spec_alist_get(s.drop_first(), k));
            }
        }
    }
}

/// Appending an entry with a fresh key makes its key found and leaves
/// every other key's lookup unchanged.
pub proof fn lemma_alist_get_push<V>(s: Seq<(String, V)>, p: (String, V))
    requires
        forall|i: int| 0 <= i < s.len() ==> s[i].0@ != p.0@,
    ensures
        spec_keys_distinct(s) ==> spec_keys_distinct(s.push(p)),
        spec_alist_get(s.push(p), p.0@) == Some(p.1),
        forall|k: Seq<char>| k != p.0@ ==> spec_alist_get(s.push(p), k) == spec_alist_get(s, k),
    decreases s.len(),
{
    let s2 = s.push(p);
    if spec_keys_distinct(s) {
        assert forall|a: int, b: int| 0 <= a < b < s2.len() implies s2[a].0@ != s2[b].0@ by {
            if b < s.len() {
                assert(s2[a] == s[a] && s2[b] == s[b]);
            } else {
                assert(s2[a] == s[a] && s2[b] == p);
            }
        }
    }
    if s.len() == 0 {
        assert(s2[0] == p);
        assert(s2.drop_first() =~= Seq::<(String, V)>::empty());
        assert(spec_alist_get(s2, p.0@) == Some(p.1));
        assert forall|k: Seq<char>| k != p.0@ implies spec_alist_get(s2, k) == spec_alist_get(
            s,
            k,
        ) by {
            assert(spec_alist_get(s2, k) == spec_alist_get(s2.drop_first(), k));
        }
    } else {
        assert(s2[0] == s[0]);
        assert(s2.drop_first() =~= s.drop_first().push(p));
        assert forall|i: int| 0 <= i < s.drop_first().len() implies s.drop_first()[i].0@
            != p.0@ by {
            assert(s.drop_first()[i] == s[i + 1]);
        }
        lemma_alist_get_push(s.drop_first(), p);
        assert(s[0].0@ != p.0@);
        assert(spec_alist_get(s2, p.0@) == spec_alist_get(s2.drop_first(), p.0@));
        assert(spec_alist_get(s2, p.0@) == Some(p.1));
        assert forall|k: Seq<char>| k != p.0@ implies spec_alist_get(s2, k) == spec_alist_get(
            s,
            k,
        ) by {
            if s[0].0@ == k {
            } else {
                assert(spec_alist_get(s2, k) == spec_alist_get(s2.drop_first(), k));
                assert(spec_alist_get(s2.drop_first(), k) == spec_alist_get(s.drop_first(), k));
                assert(spec_alist_get(s, k) == spec_alist_get(s.drop_first(), k));
            }
        }
    }
}


/// The index of the first entry with the given key.
pub fn alist_find<V>(v: &Vec<(String, V)>, k: &str) -> (r: Option<usize>)
    ensures
        r is None ==> spec_alist_get(v@, k@) is None,
        r matches Some(i) ==> i < v@.len() && v@[i as int].0@ == k@ && spec_alist_get(v@, k@)
            == Some(v@[i as int].1),
{
    let n = v.len();
    proof {
        assert(v@.subrange(0, n as int) =~= v@);
    }
    let mut i: usize = 0;
    while i < n
        invariant
            i <= n,
            n == v@.len(),
            spec_alist_get(v@, k@) == spec_alist_get(v@.subrange(i as int, n as int), k@),
        decreases n - i,
    {
        if crate::text::str_equal(v[i].0.as_str(), k) {
            proof {
                let tail = v@.subrange(i as int, n as int);
                assert(tail[0] == v@[i as int]);
                assert(spec_alist_get(tail, k@) == Some(tail[0].1));
            }
            return Some(i);
        }
        proof {
            let tail = v@.subrange(i as int, n as int);
            assert(tail[0] == v@[i as int]);
            assert(tail.drop_first() =~= v@.subrange(i + 1, n as int));
        }
        i = i + 1;
    }
    proof {
        assert(v@.subrange(n as int, n as int) =~= Seq::<(String, V)>::empty());
    }
    None
}

} // verus!
