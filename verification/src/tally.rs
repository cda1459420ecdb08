//! Small verified containers used by the snapshot: a list of unique
//! names standing for a set, and an association list standing for a
//! mapping from label to occurrence count.

use vstd::prelude::*;
use vstd::pervasive::VecAdditionalExecFns;

verus! {

/// The set of names a list stands for.
pub open spec fn names_set(s: Seq<String>) -> Set<Seq<char>>
    decreases s.len(),
{
    if s.len() == 0 {
        Set::empty()
    } else {
        names_set(s.drop_last()).insert(s.last()@)
    }
}

/// No name occurs twice.
pub open spec fn names_unique(s: Seq<String>) -> bool {
    forall|i: int, j: int| 0 <= i < j < s.len() ==> s[i]@ != s[j]@
}

pub proof fn lemma_names_set_contains(s: Seq<String>, x: Seq<char>)
    ensures
        names_set(s).contains(x) <==> exists|i: int| 0 <= i < s.len() && s[i]@ == x,
    decreases s.len(),
{
    if s.len() > 0 {
        lemma_names_set_contains(s.drop_last(), x);
        assert forall|i: int| 0 <= i < s.drop_last().len() implies s.drop_last()[i] == s[i] by {}
        if names_set(s).contains(x) {
            if s.last()@ == x {
                assert(s[s.len() - 1]@ == x);
            }
        }
        if exists|i: int| 0 <= i < s.len() && s[i]@ == x {
            let i = choose|i: int| 0 <= i < s.len() && s[i]@ == x;
            if i < s.len() - 1 {
                assert(s.drop_last()[i]@ == x);
            }
        }
    }
}

/// Adds a name unless it is already present; the set grows by the name
/// either way, and uniqueness is kept.
pub fn insert_name(v: &mut Vec<String>, name: String)
    requires
        names_unique(old(v)@),
    ensures
        names_unique(final(v)@),
        names_set(final(v)@) == names_set(old(v)@).insert(name@),
{
    let n: usize = v.len();
    let mut i: usize = 0;
    while i < n
        invariant
            i <= n,
            n == v@.len(),
            v@ == old(v)@,
            names_unique(v@),
            forall|j: int| 0 <= j < i ==> v@[j]@ != name@,
        decreases n - i,
    {
        if v[i].eq(&name) {
            proof {
                lemma_names_set_contains(v@, name@);
                assert(names_set(v@).contains(name@));
                assert(names_set(v@).insert(name@) =~= names_set(v@));
            }
            return ;
        }
        i = i + 1;
    }
    let ghost prev: Seq<String> = v@;
    v.push(name);
    proof {
        assert(v@.drop_last() =~= prev);
        assert forall|a: int, b: int| 0 <= a < b < v@.len() implies v@[a]@ != v@[b]@ by {
            if b < prev.len() {
                assert(prev[a]@ != prev[b]@);
            } else {
                assert(v@[b]@ == name@);
                assert(prev[a]@ != name@);
            }
        }
    }
}

/// Saturating increment of a count held in an `i64`.
pub open spec fn sat_inc64(c: int) -> int {
    if c < i64::MAX as int {
        c + 1
    } else {
        c
    }
}

/// The mapping an association list stands for; a later entry for the
/// same key would win, so the lists are kept key-unique.
pub open spec fn assoc_map(s: Seq<(String, i64)>) -> Map<Seq<char>, int>
    decreases s.len(),
{
    if s.len() == 0 {
        Map::empty()
    } else {
        assoc_map(s.drop_last()).insert(s.last().0@, s.last().1 as int)
    }
}

/// No key occurs twice.
pub open spec fn keys_unique(s: Seq<(String, i64)>) -> bool {
    forall|i: int, j: int| 0 <= i < j < s.len() ==> s[i].0@ != s[j].0@
}

/// One occurrence counted for `k` on top of `m`: absent keys start at
/// zero, and a count at the integer's ceiling stays there.
pub open spec fn bump(m: Map<Seq<char>, int>, k: Seq<char>) -> Map<Seq<char>, int> {
    let c = if m.contains_key(k) {
        m[k]
    } else {
        0
    };
    m.insert(k, sat_inc64(c))
}

pub proof fn lemma_assoc_map_contains(s: Seq<(String, i64)>, x: Seq<char>)
    ensures
        assoc_map(s).contains_key(x) <==> exists|i: int| 0 <= i < s.len() && s[i].0@ == x,
    decreases s.len(),
{
    if s.len() > 0 {
        lemma_assoc_map_contains(s.drop_last(), x);
        assert forall|i: int| 0 <= i < s.drop_last().len() implies s.drop_last()[i] == s[i] by {}
        if assoc_map(s).contains_key(x) {
            if s.last().0@ == x {
                assert(s[s.len() - 1].0@ == x);
            }
        }
        if exists|i: int| 0 <= i < s.len() && s[i].0@ == x {
            let i = choose|i: int| 0 <= i < s.len() && s[i].0@ == x;
            if i < s.len() - 1 {
                assert(s.drop_last()[i].0@ == x);
            }
        }
    }
}

pub proof fn lemma_assoc_map_lookup(s: Seq<(String, i64)>, i: int)
    requires
        keys_unique(s),
        0 <= i < s.len(),
    ensures
        assoc_map(s).contains_key(s[i].0@),
        assoc_map(s)[s[i].0@] == s[i].1 as int,
    decreases s.len(),
{
    if i == s.len() - 1 {
    } else {
        assert forall|a: int, b: int| 0 <= a < b < s.drop_last().len() implies s.drop_last()[a].0@
            != s.drop_last()[b].0@ by {
            assert(s.drop_last()[a] == s[a]);
            assert(s.drop_last()[b] == s[b]);
        }
        assert(s.drop_last()[i] == s[i]);
        lemma_assoc_map_lookup(s.drop_last(), i);
        assert(s[i].0@ != s.last().0@);
    }
}

pub proof fn lemma_assoc_map_update(s: Seq<(String, i64)>, i: int, p: (String, i64))
    requires
        keys_unique(s),
        0 <= i < s.len(),
        p.0@ == s[i].0@,
    ensures
        assoc_map(s.update(i, p)) == assoc_map(s).insert(p.0@, p.1 as int),
        keys_unique(s.update(i, p)),
    decreases s.len(),
{
    assert forall|a: int, b: int| 0 <= a < b < s.update(i, p).len() implies s.update(i, p)[a].0@
        != s.update(i, p)[b].0@ by {
        assert(s[a].0@ != s[b].0@);
    }
    if i == s.len() - 1 {
        assert(s.update(i, p).drop_last() =~= s.drop_last());
        assert(s.update(i, p).last() == p);
        assert(assoc_map(s.drop_last()).insert(p.0@, p.1 as int) =~= assoc_map(
            s.drop_last()).insert(s.last().0@, s.last().1 as int).insert(p.0@, p.1 as int));
    } else {
        assert forall|a: int, b: int| 0 <= a < b < s.drop_last().len() implies s.drop_last()[a].0@
            != s.drop_last()[b].0@ by {
            assert(s.drop_last()[a] == s[a]);
            assert(s.drop_last()[b] == s[b]);
        }
        assert(s.drop_last()[i] == s[i]);
        lemma_assoc_map_update(s.drop_last(), i, p);
        assert(s.update(i, p).drop_last() =~= s.drop_last().update(i, p));
        assert(s.update(i, p).last() == s.last());
        assert(s[i].0@ != s.last().0@);
        assert(assoc_map(s.drop_last()).insert(p.0@, p.1 as int).insert(s.last().0@,
            s.last().1 as int) =~= assoc_map(s.drop_last()).insert(s.last().0@,
            s.last().1 as int).insert(p.0@, p.1 as int));
    }
}

/// Counts one more occurrence of `key`, starting absent keys at one.
pub fn bump_count(v: &mut Vec<(String, i64)>, key: String)
    requires
        keys_unique(old(v)@),
    ensures
        keys_unique(final(v)@),
        assoc_map(final(v)@) == bump(assoc_map(old(v)@), key@),
{
    let n: usize = v.len();
    let mut i: usize = 0;
    while i < n
        invariant
            i <= n,
            n == v@.len(),
            v@ == old(v)@,
            keys_unique(v@),
            forall|j: int| 0 <= j < i ==> v@[j].0@ != key@,
        decreases n - i,
    {
        if v[i].0.eq(&key) {
            let c: i64 = v[i].1;
            let c2: i64 = if c < i64::MAX {
                c + 1
            } else {
                c
            };
            proof {
                lemma_assoc_map_lookup(v@, i as int);
                lemma_assoc_map_update(v@, i as int, (key, c2));
            }
            v.set(i, (key, c2));
            return ;
        }
        i = i + 1;
    }
    let ghost prev: Seq<(String, i64)> = v@;
    proof {
        lemma_assoc_map_contains(prev, key@);
        assert(!assoc_map(prev).contains_key(key@));
    }
    v.push((key, 1));
    proof {
        assert(v@.drop_last() =~= prev);
        assert(v@.last().0@ == key@);
        assert forall|a: int, b: int| 0 <= a < b < v@.len() implies v@[a].0@ != v@[b].0@ by {
            if b < prev.len() {
                assert(prev[a].0@ != prev[b].0@);
            } else {
                assert(prev[a].0@ != key@);
            }
        }
    }
}

} // verus!
