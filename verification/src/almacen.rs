use vstd::prelude::*;

verus! {

// The persistent-store adapter. Each named collection is an ordered list of
// `(wallet, value)` entries with pairwise-distinct wallets; contracts read it
// through the partial map `alist_mapa`, while the entry order itself carries
// the iteration order that the search operation exposes.

/// Some entry of `s` is keyed by the wallet `k`.
pub open spec fn alist_tiene<T: DeepView>(s: Seq<(String, T)>, k: Seq<char>) -> bool {
    exists|i: int| 0 <= i < s.len() && s[i].0@ == k
}

/// The image of the value stored under wallet `k` (meaningful when
/// `alist_tiene(s, k)` holds and the keys of `s` are distinct).
pub open spec fn alist_valor<T: DeepView>(s: Seq<(String, T)>, k: Seq<char>) -> T::V {
    s[choose|i: int| 0 <= i < s.len() && s[i].0@ == k].1.deep_view()
}

/// The wallets of the entries are pairwise distinct.
pub open spec fn claves_unicas<T: DeepView>(s: Seq<(String, T)>) -> bool {
    forall|i: int, j: int| 0 <= i < j < s.len() ==> s[i].0@ != s[j].0@
}

/// The collection read as a partial map from wallet to stored image.
pub open spec fn alist_mapa<T: DeepView>(s: Seq<(String, T)>) -> Map<Seq<char>, T::V> {
    Map::new(|k: Seq<char>| alist_tiene(s, k), |k: Seq<char>| alist_valor(s, k))
}

/// The entry at a valid index is the one the map stores for its wallet.
pub proof fn lema_valor_en<T: DeepView>(s: Seq<(String, T)>, i: int)
    requires
        claves_unicas(s),
        0 <= i < s.len(),
    ensures
        alist_tiene(s, s[i].0@),
        alist_valor(s, s[i].0@) == s[i].1.deep_view(),
{
    let k = s[i].0@;
    assert(alist_tiene(s, k));
    let j = choose|j: int| 0 <= j < s.len() && s[j].0@ == k;
    assert(j == i);
}

/// Appending an entry under a fresh wallet inserts it into the map.
pub proof fn lema_inserta_nueva<T: DeepView>(s: Seq<(String, T)>, e: (String, T))
    requires
        claves_unicas(s),
        !alist_tiene(s, e.0@),
    ensures
        claves_unicas(s.push(e)),
        alist_mapa(s.push(e)) == alist_mapa(s).insert(e.0@, e.1.deep_view()),
{
    let s2 = s.push(e);
    assert forall|i: int, j: int| 0 <= i < j < s2.len() implies s2[i].0@ != s2[j].0@ by {
        if j < s.len() {
            assert(s2[i] == s[i] && s2[j] == s[j]);
        } else {
            assert(s2[i] == s[i]);
            assert(s[i].0@ != e.0@) by {
                if s[i].0@ == e.0@ {
                    assert(alist_tiene(s, e.0@));
                }
            }
        }
    }
    assert forall|k: Seq<char>| #[trigger] alist_tiene(s2, k) == (alist_tiene(s, k) || k
        == e.0@) by {
        if alist_tiene(s2, k) {
            let i = choose|i: int| 0 <= i < s2.len() && s2[i].0@ == k;
            if i < s.len() {
                assert(s2[i] == s[i]);
                assert(alist_tiene(s, k));
            }
        }
        if alist_tiene(s, k) {
            let i = choose|i: int| 0 <= i < s.len() && s[i].0@ == k;
            assert(s2[i] == s[i]);
            assert(alist_tiene(s2, k));
        }
        if k == e.0@ {
            assert(s2[s.len() as int].0@ == k);
            assert(alist_tiene(s2, k));
        }
    }
    assert forall|k: Seq<char>| alist_tiene(s, k) implies #[trigger] alist_valor(s2, k)
        == alist_valor(s, k) by {
        let i = choose|i: int| 0 <= i < s.len() && s[i].0@ == k;
        lema_valor_en(s, i);
        assert(s2[i] == s[i]);
        lema_valor_en(s2, i);
    }
    lema_valor_en(s2, s.len() as int);
    assert(alist_mapa(s2) =~= alist_mapa(s).insert(e.0@, e.1.deep_view()));
}

/// Replacing the entry at a valid index, keeping its wallet, overwrites the
/// wallet's image in the map.
pub proof fn lema_actualiza<T: DeepView>(s: Seq<(String, T)>, i: int, e: (String, T))
    requires
        claves_unicas(s),
        0 <= i < s.len(),
        e.0@ == s[i].0@,
    ensures
        claves_unicas(s.update(i, e)),
        alist_mapa(s.update(i, e)) == alist_mapa(s).insert(e.0@, e.1.deep_view()),
{
    let s2 = s.update(i, e);
    assert forall|a: int, b: int| 0 <= a < b < s2.len() implies s2[a].0@ != s2[b].0@ by {
        assert(s2[a].0@ == s[a].0@ && s2[b].0@ == s[b].0@);
    }
    assert forall|k: Seq<char>| #[trigger] alist_tiene(s2, k) == alist_tiene(s, k) by {
        if alist_tiene(s2, k) {
            let a = choose|a: int| 0 <= a < s2.len() && s2[a].0@ == k;
            assert(s[a].0@ == k);
            assert(alist_tiene(s, k));
        }
        if alist_tiene(s, k) {
            let a = choose|a: int| 0 <= a < s.len() && s[a].0@ == k;
            assert(s2[a].0@ == k);
            assert(alist_tiene(s2, k));
        }
    }
    assert forall|k: Seq<char>| alist_tiene(s, k) && k != e.0@ implies #[trigger] alist_valor(
        s2,
        k,
    ) == alist_valor(s, k) by {
        let a = choose|a: int| 0 <= a < s.len() && s[a].0@ == k;
        lema_valor_en(s, a);
        assert(a != i);
        assert(s2[a] == s[a]);
        lema_valor_en(s2, a);
    }
    lema_valor_en(s2, i);
    assert(alist_mapa(s2) =~= alist_mapa(s).insert(e.0@, e.1.deep_view()));
}

/// Removing the entry at a valid index removes its wallet from the map.
pub proof fn lema_quita<T: DeepView>(s: Seq<(String, T)>, i: int)
    requires
        claves_unicas(s),
        0 <= i < s.len(),
    ensures
        claves_unicas(s.remove(i)),
        alist_mapa(s.remove(i)) == alist_mapa(s).remove(s[i].0@),
{
    let k0 = s[i].0@;
    let s2 = s.remove(i);
    assert forall|a: int, b: int| 0 <= a < b < s2.len() implies s2[a].0@ != s2[b].0@ by {
        let a0: int = if a < i {
            a
        } else {
            a + 1
        };
        let b0: int = if b < i {
            b
        } else {
            b + 1
        };
        assert(s2[a] == s[a0] && s2[b] == s[b0]);
    }
    assert forall|k: Seq<char>| #[trigger] alist_tiene(s2, k) == (alist_tiene(s, k) && k
        != k0) by {
        if alist_tiene(s2, k) {
            let a = choose|a: int| 0 <= a < s2.len() && s2[a].0@ == k;
            let a0: int = if a < i {
                a
            } else {
                a + 1
            };
            assert(s2[a] == s[a0]);
            assert(alist_tiene(s, k));
            assert(k != k0);
        }
        if alist_tiene(s, k) && k != k0 {
            let a = choose|a: int| 0 <= a < s.len() && s[a].0@ == k;
            assert(a != i);
            let a2: int = if a < i {
                a
            } else {
                a - 1
            };
            assert(s2[a2] == s[a]);
            assert(alist_tiene(s2, k));
        }
    }
    assert forall|k: Seq<char>| alist_tiene(s2, k) implies #[trigger] alist_valor(s2, k)
        == alist_valor(s, k) by {
        let a = choose|a: int| 0 <= a < s2.len() && s2[a].0@ == k;
        let a0: int = if a < i {
            a
        } else {
            a + 1
        };
        assert(s2[a] == s[a0]);
        lema_valor_en(s2, a);
        lema_valor_en(s, a0);
    }
    assert(alist_mapa(s2) =~= alist_mapa(s).remove(k0));
}

/// Finds the position of the entry keyed by `k`, if there is one.
pub fn indice_clave<T: DeepView>(v: &Vec<(String, T)>, k: &String) -> (r: Option<usize>)
    ensures
        match r {
            Some(i) => i < v@.len() && v@[i as int].0@ == k@,
            None => !alist_tiene(v@, k@),
        },
{
    let mut i: usize = 0;
    while i < v.len()
        invariant
            i <= v@.len(),
            forall|j: int| 0 <= j < i ==> v@[j].0@ != k@,
        decreases v@.len() - i,
    {
        if v[i].0 == *k {
            return Some(i);
        }
        i += 1;
    }
    proof {
        assert(!alist_tiene(v@, k@));
    }
    None
}

/// Pushing onto a vector pushes the element's image onto its deep view.
pub proof fn lema_vista_push<T: DeepView>(a: Vec<T>, b: Vec<T>, x: T)
    requires
        b@ == a@.push(x),
    ensures
        b.deep_view() == a.deep_view().push(x.deep_view()),
{
    assert(b.deep_view() =~= a.deep_view().push(x.deep_view()));
}

/// Removing from a vector removes the element's image from its deep view.
pub proof fn lema_vista_quita<T: DeepView>(a: Vec<T>, b: Vec<T>, i: int)
    requires
        0 <= i < a@.len(),
        b@ == a@.remove(i),
    ensures
        b.deep_view() == a.deep_view().remove(i),
{
    assert(b.deep_view() =~= a.deep_view().remove(i));
}

/// Updating a vector element updates its image in the deep view.
pub proof fn lema_vista_actualiza<T: DeepView>(a: Vec<T>, b: Vec<T>, i: int, x: T)
    requires
        0 <= i < a@.len(),
        b@ == a@.update(i, x),
    ensures
        b.deep_view() == a.deep_view().update(i, x.deep_view()),
{
    assert(b.deep_view() =~= a.deep_view().update(i, x.deep_view()));
}

} // verus!
