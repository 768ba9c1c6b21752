use vstd::prelude::*;
use vstd::string::StrSliceExecFns;

verus! {

/// Strict lexicographic order on names, by character codepoint: the order the
/// diagnostic listings of visible names are sorted in, so that tooling sees
/// the same sequence for the same scope state.
pub open spec fn lex_lt(a: Seq<char>, b: Seq<char>) -> bool
    decreases a.len(),
{
    if b.len() == 0 {
        false
    } else if a.len() == 0 {
        true
    } else if a[0] != b[0] {
        a[0] < b[0]
    } else {
        lex_lt(a.drop_first(), b.drop_first())
    }
}

/// No name orders below itself.
pub proof fn lemma_lex_irreflexive(a: Seq<char>)
    ensures
        !lex_lt(a, a),
    decreases a.len(),
{
    if a.len() > 0 {
        lemma_lex_irreflexive(a.drop_first());
    }
}

/// Two distinct names order one way or the other.
pub proof fn lemma_lex_connected(a: Seq<char>, b: Seq<char>)
    ensures
        a == b || lex_lt(a, b) || lex_lt(b, a),
    decreases a.len(),
{
    if a.len() == 0 && b.len() == 0 {
        assert(a =~= b);
    } else if a.len() == 0 {
        assert(lex_lt(a, b));
    } else if b.len() == 0 {
        assert(lex_lt(b, a));
    } else if a[0] != b[0] {
        assert(lex_lt(a, b) || lex_lt(b, a));
    } else if a.len() > 0 && b.len() > 0 && a[0] == b[0] {
        lemma_lex_connected(a.drop_first(), b.drop_first());
        if a.drop_first() == b.drop_first() {
            assert(a.len() == a.drop_first().len() + 1);
            assert(b.len() == b.drop_first().len() + 1);
            assert forall|i: int| 0 <= i < a.len() implies a[i] == b[i] by {
                if i > 0 {
                    assert(a.drop_first()[i - 1] == a[i]);
                    assert(b.drop_first()[i - 1] == b[i]);
                }
            }
            assert(a =~= b);
        }
    }
}

/// The order is transitive.
pub proof fn lemma_lex_transitive(a: Seq<char>, b: Seq<char>, c: Seq<char>)
    requires
        lex_lt(a, b),
        lex_lt(b, c),
    ensures
        lex_lt(a, c),
    decreases a.len(),
{
    if a.len() > 0 && b.len() > 0 && c.len() > 0 && a[0] == b[0] && b[0] == c[0] {
        lemma_lex_transitive(a.drop_first(), b.drop_first(), c.drop_first());
    }
}

/// Decides [`lex_lt`] on two names.
pub fn str_lt(a: &str, b: &str) -> (r: bool)
    ensures
        r == lex_lt(a@, b@),
{
    let an = a.unicode_len();
    let bn = b.unicode_len();
    let mut i: usize = 0;
    proof {
        assert(a@.skip(0) =~= a@);
        assert(b@.skip(0) =~= b@);
    }
    while i < an && i < bn
        invariant
            an == a@.len(),
            bn == b@.len(),
            i <= an,
            i <= bn,
            lex_lt(a@, b@) == lex_lt(a@.skip(i as int), b@.skip(i as int)),
        decreases an - i,
    {
        let ca = a.get_char(i);
        let cb = b.get_char(i);
        if ca != cb {
            proof {
                assert(a@.skip(i as int)[0] == ca && b@.skip(i as int)[0] == cb);
            }
            return ca < cb;
        }
        proof {
            assert(a@.skip(i as int).drop_first() =~= a@.skip(i as int + 1));
            assert(b@.skip(i as int).drop_first() =~= b@.skip(i as int + 1));
            assert(a@.skip(i as int)[0] == b@.skip(i as int)[0]);
        }
        i = i + 1;
    }
    proof {
        assert(a@.skip(i as int).len() == 0 || b@.skip(i as int).len() == 0);
    }
    i < bn
}

/// A name listing in strictly ascending lexicographic order: sorted, hence
/// duplicate-free.
pub open spec fn sorted_names(v: Seq<String>) -> bool {
    forall|k: int, l: int| 0 <= k < l < v.len() ==> lex_lt(v[k]@, v[l]@)
}

/// Whether the name `n` occurs in the listing `v`.
pub open spec fn name_listed(v: Seq<String>, n: Seq<char>) -> bool {
    exists|k: int| 0 <= k < v.len() && v[k]@ == n
}

/// The index the name `s` belongs at in the sorted listing `v`: everything
/// before it orders strictly below `s`, and the entry there (if any) does
/// not.
fn lower_bound(v: &Vec<String>, s: &String) -> (k: usize)
    requires
        sorted_names(v@),
    ensures
        k <= v@.len(),
        forall|j: int| 0 <= j < k ==> lex_lt(#[trigger] v@[j]@, s@),
        k < v@.len() ==> !lex_lt(v@[k as int]@, s@),
{
    let mut k: usize = 0;
    while k < v.len()
        invariant
            k <= v@.len(),
            forall|j: int| 0 <= j < k ==> lex_lt(#[trigger] v@[j]@, s@),
        decreases v@.len() - k,
    {
        if !str_lt(v[k].as_str(), s.as_str()) {
            return k;
        }
        k = k + 1;
    }
    k
}

/// Files the name `s` into the sorted listing `v`: inserted at its place when
/// absent, left alone when already listed, so the listing stays sorted and
/// lists exactly the old names and `s`.
pub fn insert_name_sorted(v: &mut Vec<String>, s: String)
    requires
        sorted_names(old(v)@),
    ensures
        sorted_names(final(v)@),
        forall|n: Seq<char>| name_listed(final(v)@, n) == (name_listed(old(v)@, n) || n == s@),
        forall|k: int| 0 <= k < final(v)@.len() ==> name_listed(old(v)@, #[trigger] final(v)@[k]@)
            || final(v)@[k]@ == s@,
{
    let k = lower_bound(v, &s);
    if k < v.len() && v[k] == s {
        proof {
            assert(name_listed(v@, s@));
            assert forall|k2: int| 0 <= k2 < v@.len() implies name_listed(
                v@,
                #[trigger] v@[k2]@,
            ) by {
                assert(0 <= k2 < v@.len() && v@[k2]@ == v@[k2]@);
            }
        }
        return ;
    }
    proof {
        if k < v@.len() {
            lemma_lex_connected(s@, v@[k as int]@);
        }
        old(v)@.insert_ensures(k as int, s);
    }
    let ghost v0 = v@;
    v.insert(k, s);
    proof {
        let w = v@;
        assert(w == v0.insert(k as int, s));
        assert(w[k as int] == s);
        assert forall|x: int, y: int| 0 <= x < y < w.len() implies lex_lt(w[x]@, w[y]@) by {
            if y < k {
                assert(w[x] == v0[x] && w[y] == v0[y]);
            } else if x > k {
                assert(w[x] == v0[x - 1] && w[y] == v0[y - 1]);
            } else if x < k && y == k {
                assert(w[x] == v0[x]);
            } else if x == k {
                assert(w[y] == v0[y - 1] && k <= y - 1 < v0.len());
                if k < v0.len() && y - 1 > k {
                    lemma_lex_transitive(s@, v0[k as int]@, v0[y - 1]@);
                }
            } else {
                assert(x < k && y > k);
                assert(w[x] == v0[x] && w[y] == v0[y - 1] && k <= y - 1 < v0.len());
                if y - 1 == k {
                    assert(lex_lt(v0[x]@, s@));
                    lemma_lex_transitive(v0[x]@, s@, v0[k as int]@);
                } else {
                    assert(lex_lt(v0[x]@, v0[y - 1]@));
                }
            }
        }
        assert forall|n: Seq<char>| name_listed(w, n) == (name_listed(v0, n) || n == s@) by {
            if name_listed(w, n) {
                let j = choose|j: int| 0 <= j < w.len() && w[j]@ == n;
                if j < k {
                    assert(v0[j]@ == n);
                } else if j > k {
                    assert(v0[j - 1]@ == n);
                }
            }
            if name_listed(v0, n) {
                let j = choose|j: int| 0 <= j < v0.len() && v0[j]@ == n;
                if j < k {
                    assert(w[j]@ == n);
                } else {
                    assert(w[j + 1]@ == n);
                }
            }
            if n == s@ {
                assert(w[k as int]@ == n);
            }
        }
        assert forall|k2: int| 0 <= k2 < w.len() implies name_listed(v0, #[trigger] w[k2]@) || w[
            k2]@ == s@ by {
            if k2 < k {
                assert(v0[k2]@ == w[k2]@);
            } else if k2 > k {
                assert(v0[k2 - 1]@ == w[k2]@);
            }
        }
    }
}

} // verus!
