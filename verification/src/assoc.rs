//! Specification helpers for association sequences: sequences of key/value
//! pairs with pairwise-distinct keys. The registry, the lobby membership,
//! the ballot box and the mailbox store are all modelled this way.

use vstd::prelude::*;

verus! {

/// All keys of the sequence are pairwise distinct.
pub open spec fn distinct_keys<K, V>(s: Seq<(K, V)>) -> bool {
    forall|i: int, j: int| 0 <= i < j < s.len() ==> (#[trigger] s[i]).0 != (#[trigger] s[j]).0
}

/// Some entry of the sequence carries the key.
pub open spec fn has_key<K, V>(s: Seq<(K, V)>, k: K) -> bool {
    exists|i: int| 0 <= i < s.len() && (#[trigger] s[i]).0 == k
}

/// The index of the entry carrying the key; meaningful only when
/// [`has_key`] holds and the keys are distinct.
pub open spec fn key_index<K, V>(s: Seq<(K, V)>, k: K) -> int {
    choose|i: int| 0 <= i < s.len() && (#[trigger] s[i]).0 == k
}

/// The value stored under the key.
pub open spec fn value_of<K, V>(s: Seq<(K, V)>, k: K) -> V {
    s[key_index(s, k)].1
}

/// Under distinct keys, the entry carrying a key is unique, so any index
/// whose entry carries the key is the chosen one.
pub proof fn lemma_key_index_unique<K, V>(s: Seq<(K, V)>, k: K, i: int)
    requires
        distinct_keys(s),
        0 <= i < s.len(),
        s[i].0 == k,
    ensures
        has_key(s, k),
        key_index(s, k) == i,
        value_of(s, k) == s[i].1,
{
    assert(has_key(s, k));
    let j = key_index(s, k);
    assert(0 <= j < s.len() && s[j].0 == k);
    if i != j {
        if i < j {
            assert(s[i].0 != s[j].0);
        } else {
            assert(s[j].0 != s[i].0);
        }
    }
}

/// Appending an entry with a fresh key keeps the keys distinct, leaves every
/// old key bound to its old value, and binds the new key to the new value.
pub proof fn lemma_push_entry<K, V>(s: Seq<(K, V)>, k: K, v: V)
    requires
        distinct_keys(s),
        !has_key(s, k),
    ensures
        distinct_keys(s.push((k, v))),
        has_key(s.push((k, v)), k),
        value_of(s.push((k, v)), k) == v,
        forall|k2: K|
            #![trigger has_key(s, k2)]
            #![trigger has_key(s.push((k, v)), k2)]
            has_key(s, k2) ==> has_key(s.push((k, v)), k2),
        forall|k2: K|
            #![trigger has_key(s, k2)]
            #![trigger has_key(s.push((k, v)), k2)]
            k2 != k && has_key(s.push((k, v)), k2) ==> has_key(s, k2),
        forall|k2: K|
            #![trigger value_of(s, k2)]
            #![trigger value_of(s.push((k, v)), k2)]
            k2 != k && has_key(s, k2) ==> value_of(s.push((k, v)), k2) == value_of(s, k2),
{
    let t = s.push((k, v));
    assert forall|i: int, j: int| 0 <= i < j < t.len() implies (#[trigger] t[i]).0
        != (#[trigger] t[j]).0 by {
        if j < s.len() {
            assert(s[i].0 != s[j].0);
        } else {
            assert(t[j] == (k, v));
            if s[i].0 == k {
                assert(has_key(s, k));
            }
        }
    }
    assert(t[s.len() as int].0 == k);
    lemma_key_index_unique(t, k, s.len() as int);
    assert forall|k2: K| #[trigger] has_key(s, k2) implies has_key(t, k2) by {
        let i = choose|i: int| 0 <= i < s.len() && (#[trigger] s[i]).0 == k2;
        assert(t[i].0 == k2);
    }
    assert forall|k2: K| k2 != k && has_key(t, k2) implies #[trigger] has_key(s, k2) by {
        let i = choose|i: int| 0 <= i < t.len() && (#[trigger] t[i]).0 == k2;
        assert(i < s.len());
        assert(s[i].0 == k2);
    }
    assert forall|k2: K| k2 != k && has_key(s, k2) implies #[trigger] value_of(t, k2) == value_of(
        s,
        k2,
    ) by {
        let i = choose|i: int| 0 <= i < s.len() && (#[trigger] s[i]).0 == k2;
        lemma_key_index_unique(s, k2, i);
        assert(t[i].0 == k2);
        lemma_key_index_unique(t, k2, i);
    }
}

/// Replacing the value at the entry carrying a key keeps the keys distinct,
/// rebinds that key, and leaves every other key bound to its old value.
pub proof fn lemma_update_entry<K, V>(s: Seq<(K, V)>, i: int, v: V)
    requires
        distinct_keys(s),
        0 <= i < s.len(),
    ensures
        distinct_keys(s.update(i, (s[i].0, v))),
        has_key(s.update(i, (s[i].0, v)), s[i].0),
        value_of(s.update(i, (s[i].0, v)), s[i].0) == v,
        forall|k2: K|
            #![trigger has_key(s, k2)]
            #![trigger has_key(s.update(i, (s[i].0, v)), k2)]
            has_key(s.update(i, (s[i].0, v)), k2) <==> has_key(s, k2),
        forall|k2: K|
            #![trigger value_of(s, k2)]
            #![trigger value_of(s.update(i, (s[i].0, v)), k2)]
            k2 != s[i].0 && has_key(s, k2) ==> value_of(s.update(i, (s[i].0, v)), k2) == value_of(
                s,
                k2,
            ),
{
    let k = s[i].0;
    let t = s.update(i, (k, v));
    assert forall|a: int, b: int| 0 <= a < b < t.len() implies (#[trigger] t[a]).0
        != (#[trigger] t[b]).0 by {
        assert(t[a].0 == s[a].0);
        assert(t[b].0 == s[b].0);
        assert(s[a].0 != s[b].0);
    }
    assert(t[i].0 == k);
    lemma_key_index_unique(t, k, i);
    assert forall|k2: K| has_key(t, k2) implies #[trigger] has_key(s, k2) by {
        let a = choose|a: int| 0 <= a < t.len() && (#[trigger] t[a]).0 == k2;
        assert(s[a].0 == k2);
    }
    assert forall|k2: K| #[trigger] has_key(s, k2) implies has_key(t, k2) by {
        let a = choose|a: int| 0 <= a < s.len() && (#[trigger] s[a]).0 == k2;
        assert(t[a].0 == k2);
    }
    assert forall|k2: K| k2 != k && has_key(s, k2) implies #[trigger] value_of(t, k2) == value_of(
        s,
        k2,
    ) by {
        let a = choose|a: int| 0 <= a < s.len() && (#[trigger] s[a]).0 == k2;
        lemma_key_index_unique(s, k2, a);
        assert(a != i);
        assert(t[a].0 == k2);
        lemma_key_index_unique(t, k2, a);
    }
}

/// Removing the entry at an index keeps the keys distinct, drops its key,
/// and leaves every other key bound to its old value.
pub proof fn lemma_remove_entry<K, V>(s: Seq<(K, V)>, i: int)
    requires
        distinct_keys(s),
        0 <= i < s.len(),
    ensures
        distinct_keys(s.remove(i)),
        !has_key(s.remove(i), s[i].0),
        forall|k2: K|
            #![trigger has_key(s, k2)]
            #![trigger has_key(s.remove(i), k2)]
            k2 != s[i].0 ==> (has_key(s.remove(i), k2) <==> has_key(s, k2)),
        forall|k2: K|
            #![trigger value_of(s, k2)]
            #![trigger value_of(s.remove(i), k2)]
            k2 != s[i].0 && has_key(s, k2) ==> value_of(s.remove(i), k2) == value_of(s, k2),
{
    let k = s[i].0;
    let t = s.remove(i);
    assert forall|a: int, b: int| 0 <= a < b < t.len() implies (#[trigger] t[a]).0
        != (#[trigger] t[b]).0 by {
        let a0 = if a < i {
            a
        } else {
            a + 1
        };
        let b0 = if b < i {
            b
        } else {
            b + 1
        };
        assert(t[a] == s[a0]);
        assert(t[b] == s[b0]);
        assert(s[a0].0 != s[b0].0);
    }
    assert forall|a: int| 0 <= a < t.len() implies (#[trigger] t[a]).0 != k by {
        let a0 = if a < i {
            a
        } else {
            a + 1
        };
        assert(t[a] == s[a0]);
        if a0 != i {
            if a0 < i {
                assert(s[a0].0 != s[i].0);
            } else {
                assert(s[i].0 != s[a0].0);
            }
        }
    }
    assert forall|k2: K| k2 != k && has_key(t, k2) implies #[trigger] has_key(s, k2) by {
        let a = choose|a: int| 0 <= a < t.len() && (#[trigger] t[a]).0 == k2;
        let a0 = if a < i {
            a
        } else {
            a + 1
        };
        assert(t[a] == s[a0]);
        assert(s[a0].0 == k2);
    }
    assert forall|k2: K| k2 != k && #[trigger] has_key(s, k2) implies has_key(t, k2) by {
        let a = choose|a: int| 0 <= a < s.len() && (#[trigger] s[a]).0 == k2;
        lemma_key_index_unique(s, k2, a);
        assert(a != i);
        let a1 = if a < i {
            a
        } else {
            a - 1
        };
        assert(t[a1] == s[a]);
        assert(t[a1].0 == k2);
    }
    assert forall|k2: K| k2 != k && has_key(s, k2) implies #[trigger] value_of(t, k2) == value_of(
        s,
        k2,
    ) by {
        let a = choose|a: int| 0 <= a < s.len() && (#[trigger] s[a]).0 == k2;
        lemma_key_index_unique(s, k2, a);
        assert(a != i);
        let a1 = if a < i {
            a
        } else {
            a - 1
        };
        assert(t[a1] == s[a]);
        lemma_key_index_unique(t, k2, a1);
    }
}

} // verus!
