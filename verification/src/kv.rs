//! Association sequences keyed by strings: the ghost model shared by
//! the job registry and the log store.  Lookup takes the first entry
//! with the given key; both stores only ever create one entry per key.

use vstd::prelude::*;

verus! {

/// The value bound to the first entry with key `k`, if any.
pub open spec fn kv_lookup<V>(m: Seq<(Seq<char>, V)>, k: Seq<char>) -> Option<V>
    decreases m.len(),
{
    if m.len() == 0 {
        Option::None
    } else if m[0].0 == k {
        Option::Some(m[0].1)
    } else {
        kv_lookup(m.drop_first(), k)
    }
}

/// Whether some entry binds the key `k`.
pub open spec fn kv_contains<V>(m: Seq<(Seq<char>, V)>, k: Seq<char>) -> bool {
    kv_lookup(m, k) is Some
}

/// Appending an entry binds its key if the key was free and leaves
/// every other key unchanged.
pub proof fn lemma_kv_push<V>(m: Seq<(Seq<char>, V)>, k: Seq<char>, v: V, k2: Seq<char>)
    ensures
        kv_lookup(m.push((k, v)), k2) == (if kv_lookup(m, k2) is Some {
            kv_lookup(m, k2)
        } else if k2 == k {
            Option::Some(v)
        } else {
            Option::<V>::None
        }),
    decreases m.len(),
{
    if m.len() == 0 {
        assert(m.push((k, v))[0] == (k, v));
        assert(m.push((k, v)).drop_first() =~= m);
    } else {
        assert(m.push((k, v))[0] == m[0]);
        assert(m.push((k, v)).drop_first() =~= m.drop_first().push((k, v)));
        lemma_kv_push(m.drop_first(), k, v, k2);
    }
}

/// If no entry before `i` shares the key of entry `i`, lookup of that
/// key lands on entry `i`.
pub proof fn lemma_kv_first_match<V>(m: Seq<(Seq<char>, V)>, i: int)
    requires
        0 <= i < m.len(),
        forall|j: int| 0 <= j < i ==> (#[trigger] m[j]).0 != m[i].0,
    ensures
        kv_lookup(m, m[i].0) == Option::Some(m[i].1),
    decreases i,
{
    if i == 0 {
    } else {
        assert(m.drop_first()[i - 1] == m[i]);
        assert forall|j: int| 0 <= j < i - 1 implies (#[trigger] m.drop_first()[j]).0 != m
            .drop_first()[i - 1].0 by {
            assert(m.drop_first()[j] == m[j + 1]);
        }
        lemma_kv_first_match(m.drop_first(), i - 1);
    }
}

/// If no entry at all binds `k`, lookup of `k` fails.
pub proof fn lemma_kv_absent<V>(m: Seq<(Seq<char>, V)>, k: Seq<char>)
    requires
        forall|j: int| 0 <= j < m.len() ==> (#[trigger] m[j]).0 != k,
    ensures
        kv_lookup(m, k) is None,
    decreases m.len(),
{
    if m.len() > 0 {
        assert forall|j: int| 0 <= j < m.drop_first().len() implies (#[trigger] m.drop_first(
        )[j]).0 != k by {
            assert(m.drop_first()[j] == m[j + 1]);
        }
        lemma_kv_absent(m.drop_first(), k);
    }
}

/// A successful lookup names the contents of some entry.
pub proof fn lemma_kv_lookup_is_entry<V>(m: Seq<(Seq<char>, V)>, k: Seq<char>)
    requires
        kv_lookup(m, k) is Some,
    ensures
        exists|j: int|
            0 <= j < m.len() && #[trigger] m[j] == (k, kv_lookup(m, k)->Some_0),
    decreases m.len(),
{
    if m[0].0 == k {
        assert(m[0] == (k, kv_lookup(m, k)->Some_0));
    } else {
        lemma_kv_lookup_is_entry(m.drop_first(), k);
        let j = choose|j: int|
            0 <= j < m.drop_first().len() && #[trigger] m.drop_first()[j] == (
            k,
            kv_lookup(m.drop_first(), k)->Some_0,
            );
        assert(m[j + 1] == m.drop_first()[j]);
    }
}

/// Replacing the value of entry `i` — the first entry with its key —
/// rebinds exactly that key.
pub proof fn lemma_kv_update<V>(m: Seq<(Seq<char>, V)>, i: int, v: V, k2: Seq<char>)
    requires
        0 <= i < m.len(),
        forall|j: int| 0 <= j < i ==> (#[trigger] m[j]).0 != m[i].0,
    ensures
        kv_lookup(m.update(i, (m[i].0, v)), m[i].0) == Option::Some(v),
        k2 != m[i].0 ==> kv_lookup(m.update(i, (m[i].0, v)), k2) == kv_lookup(m, k2),
    decreases i,
{
    let m2 = m.update(i, (m[i].0, v));
    if i == 0 {
        assert(m2[0] == (m[0].0, v));
        assert(m2.drop_first() =~= m.drop_first());
    } else {
        assert(m2[0] == m[0]);
        assert(m2.drop_first() =~= m.drop_first().update(i - 1, (m[i].0, v)));
        assert(m.drop_first()[i - 1] == m[i]);
        assert forall|j: int| 0 <= j < i - 1 implies (#[trigger] m.drop_first()[j]).0 != m
            .drop_first()[i - 1].0 by {
            assert(m.drop_first()[j] == m[j + 1]);
        }
        lemma_kv_update(m.drop_first(), i - 1, v, k2);
    }
}

} // verus!
