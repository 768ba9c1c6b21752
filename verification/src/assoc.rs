use vstd::prelude::*;

verus! {

/// Association sequences keyed by a name: the mathematical model behind one
/// scope's variable and function mappings. A scope holds its declarations in
/// insertion order; `key` projects the name a declaration is filed under.
///
/// Whether some entry of `s` is filed under `name`.
pub open spec fn has_key<V>(s: Seq<V>, key: spec_fn(V) -> Seq<char>, name: Seq<char>) -> bool {
    exists|i: int| 0 <= i < s.len() && key(s[i]) == name
}

/// The index of the entry filed under `name`; meaningful only when
/// [`has_key`] holds and the keys are unique.
pub open spec fn key_index<V>(s: Seq<V>, key: spec_fn(V) -> Seq<char>, name: Seq<char>) -> int {
    choose|i: int| 0 <= i < s.len() && key(s[i]) == name
}

/// The entry of `s` filed under `name`, if any.
pub open spec fn find_by<V>(s: Seq<V>, key: spec_fn(V) -> Seq<char>, name: Seq<char>) -> Option<
    V,
> {
    if has_key(s, key, name) {
        Some(s[key_index(s, key, name)])
    } else {
        None
    }
}

/// No two entries are filed under the same name: the invariant of one scope.
pub open spec fn unique_keys<V>(s: Seq<V>, key: spec_fn(V) -> Seq<char>) -> bool {
    forall|i: int, j: int| 0 <= i < j < s.len() ==> key(s[i]) != key(s[j])
}

/// The sequence after declaring `d`: the entry under `d`'s name is
/// overwritten when one exists, else `d` is appended.
pub open spec fn upsert<V>(s: Seq<V>, key: spec_fn(V) -> Seq<char>, d: V) -> Seq<V> {
    if has_key(s, key, key(d)) {
        s.update(key_index(s, key, key(d)), d)
    } else {
        s.push(d)
    }
}

/// Under unique keys, any index whose entry is filed under `name` is the one
/// [`find_by`] returns.
pub proof fn lemma_find_at<V>(s: Seq<V>, key: spec_fn(V) -> Seq<char>, name: Seq<char>, i: int)
    requires
        unique_keys(s, key),
        0 <= i < s.len(),
        key(s[i]) == name,
    ensures
        find_by(s, key, name) == Some(s[i]),
        key_index(s, key, name) == i,
{
    assert(has_key(s, key, name));
    let k = key_index(s, key, name);
    assert(0 <= k < s.len() && key(s[k]) == name);
    if k != i {
        if k < i {
            assert(key(s[k]) != key(s[i]));
        } else {
            assert(key(s[i]) != key(s[k]));
        }
        assert(false);
    }
}

/// What declaring does to a scope: the new entry is found under its name,
/// every other name resolves as before, and the keys stay unique. This is the
/// storage-layer shape behind both shadowing and redeclaration.
pub proof fn lemma_upsert<V>(s: Seq<V>, key: spec_fn(V) -> Seq<char>, d: V)
    requires
        unique_keys(s, key),
    ensures
        unique_keys(upsert(s, key, d), key),
        find_by(upsert(s, key, d), key, key(d)) == Some(d),
        forall|n: Seq<char>| n != key(d) ==> find_by(upsert(s, key, d), key, n) == find_by(
            s,
            key,
            n,
        ),
        has_key(s, key, key(d)) ==> upsert(s, key, d).len() == s.len(),
        !has_key(s, key, key(d)) ==> upsert(s, key, d).len() == s.len() + 1,
{
    let t = upsert(s, key, d);
    if has_key(s, key, key(d)) {
        let idx = key_index(s, key, key(d));
        assert(0 <= idx < s.len() && key(s[idx]) == key(d));
        // every entry keeps its name, so uniqueness and the other names'
        // resolutions carry over
        assert(forall|i: int| 0 <= i < s.len() ==> key(t[i]) == key(s[i]));
        assert(unique_keys(t, key));
        lemma_find_at(t, key, key(d), idx);
        assert(forall|n: Seq<char>| has_key(t, key, n) == has_key(s, key, n)) by {
            assert(forall|n: Seq<char>| has_key(s, key, n) ==> has_key(t, key, n)) by {
                assert(forall|i: int| 0 <= i < s.len() && key(s[i]) == key(t[i]) ==> key(t[i])
                    == key(s[i]));
            }
        }
        assert forall|n: Seq<char>| n != key(d) implies find_by(t, key, n) == find_by(
            s,
            key,
            n,
        ) by {
            if has_key(s, key, n) {
                let i = key_index(s, key, n);
                assert(0 <= i < s.len() && key(s[i]) == n);
                assert(i != idx);
                assert(key(t[i]) == n && t[i] == s[i]);
                lemma_find_at(t, key, n, i);
                lemma_find_at(s, key, n, i);
            } else {
                assert(!has_key(t, key, n));
            }
        }
    } else {
        assert(t == s.push(d));
        assert(forall|i: int| 0 <= i < s.len() ==> t[i] == s[i]);
        assert(key(t[s.len() as int]) == key(d));
        assert forall|i: int, j: int| 0 <= i < j < t.len() implies key(t[i]) != key(t[j]) by {
            if j < s.len() {
            } else {
                assert(j == s.len());
                assert(key(t[i]) == key(s[i]));
                if key(s[i]) == key(d) {
                    assert(has_key(s, key, key(d)));
                }
            }
        }
        lemma_find_at(t, key, key(d), s.len() as int);
        assert forall|n: Seq<char>| n != key(d) implies find_by(t, key, n) == find_by(
            s,
            key,
            n,
        ) by {
            if has_key(s, key, n) {
                let i = key_index(s, key, n);
                lemma_find_at(t, key, n, i);
                lemma_find_at(s, key, n, i);
            } else {
                if has_key(t, key, n) {
                    let i = key_index(t, key, n);
                    assert(0 <= i < t.len() && key(t[i]) == n);
                    assert(i != s.len());
                    assert(has_key(s, key, n));
                }
            }
        }
    }
}

} // verus!
