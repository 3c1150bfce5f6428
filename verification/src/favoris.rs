//! The list of the favourites: what placing a folder among them makes of it, and that
//! no two of them ever have the same rank.

use vstd::prelude::*;

use crate::coherence::{cle_dossier, cles_distinctes};
use crate::protocole::DossierVue;
use crate::tables::{
    arborescence_posee, compte_retire, disparu, dossier_numero, dossiers_poses, du_compte, epingle,
    favori_place, favoris_affiches, ids_dossiers, lemme_premier, lemme_rang_borne, lemme_trie,
    ordre_faible, ordre_favoris, premier, rang_donne, rang_donne_si_absent, rang_final,
    rang_recule, rang_vise, DossierLocalVue, MagasinVue,
};

verus! {

/// Whether no two favourites have the same rank.
pub open spec fn rangs_distincts(t: Seq<DossierLocalVue>) -> bool {
    forall|i: int, j: int|
        0 <= i < j < t.len() && (#[trigger] t[i]).favori is Some && (#[trigger] t[j]).favori is Some
            ==> t[i].favori != t[j].favori
}

/// Whether each row comes before those that follow it.
pub open spec fn range<A>(s: Seq<A>, avant: spec_fn(A, A) -> bool) -> bool {
    forall|i: int, j: int| 0 <= i < j < s.len() ==> avant(#[trigger] s[i], #[trigger] s[j])
}

/// A list with an identifier put just before another if that is in it, else at its
/// end.
pub open spec fn insere_avant(f: Seq<i64>, dossier: i64, avant: Option<i64>) -> Seq<i64> {
    match avant {
        Some(a) => if f.contains(a) {
            f.insert(f.index_of(a), dossier)
        } else {
            f.push(dossier)
        },
        None => f.push(dossier),
    }
}

/// The favourites but a folder, in their order.
pub open spec fn autres_favoris(t: Seq<DossierLocalVue>, dossier: i64) -> Seq<DossierLocalVue> {
    favoris_affiches(t).filter(|d: DossierLocalVue| d.id != dossier)
}

// ------------------------------------------------------------------- lists in order

/// Two lists in order that hold the same rows are the same.
proof fn lemme_range_unique<A>(s: Seq<A>, t: Seq<A>, avant: spec_fn(A, A) -> bool)
    requires
        range(s, avant),
        range(t, avant),
        forall|a: A, b: A| #[trigger] avant(a, b) ==> !avant(b, a),
        forall|a: A| s.contains(a) <==> t.contains(a),
    ensures
        s == t,
    decreases s.len(),
{
    if s.len() == 0 {
        if t.len() > 0 {
            assert(t.contains(t[0]));
        }
        assert(s =~= t);
    } else {
        let x = s.last();
        assert(s[s.len() - 1] == x);
        assert(s.contains(x));
        let k = choose|k: int| 0 <= k < t.len() && t[k] == x;
        let y = t.last();
        assert(t[t.len() - 1] == y);
        assert(t.contains(y));
        let n = choose|n: int| 0 <= n < s.len() && s[n] == y;
        if k < t.len() - 1 {
            assert(avant(t[k], t[t.len() - 1]));
            if n < s.len() - 1 {
                assert(avant(s[n], s[s.len() - 1]));
            }
        }
        assert(x == y);
        let a = s.drop_last();
        let b = t.drop_last();
        assert forall|z: A| a.contains(z) <==> b.contains(z) by {
            lemme_reste_range(s, t, avant, z);
            lemme_reste_range(t, s, avant, z);
        }
        assert(range(a, avant)) by {
            assert forall|i: int, j: int| 0 <= i < j < a.len() implies avant(
                #[trigger] a[i],
                #[trigger] a[j],
            ) by {
                assert(a[i] == s[i] && a[j] == s[j]);
            }
        }
        assert(range(b, avant)) by {
            assert forall|i: int, j: int| 0 <= i < j < b.len() implies avant(
                #[trigger] b[i],
                #[trigger] b[j],
            ) by {
                assert(b[i] == t[i] && b[j] == t[j]);
            }
        }
        lemme_range_unique(a, b, avant);
        assert(s =~= a.push(x));
        assert(t =~= b.push(y));
    }
}

/// What is before the last row of a list in order is before that of another.
proof fn lemme_reste_range<A>(s: Seq<A>, t: Seq<A>, avant: spec_fn(A, A) -> bool, z: A)
    requires
        s.len() > 0,
        t.len() > 0,
        s.last() == t.last(),
        range(s, avant),
        forall|a: A, b: A| #[trigger] avant(a, b) ==> !avant(b, a),
        forall|a: A| s.contains(a) <==> t.contains(a),
    ensures
        s.drop_last().contains(z) ==> t.drop_last().contains(z),
{
    if s.drop_last().contains(z) {
        let i = choose|i: int| 0 <= i < s.drop_last().len() && s.drop_last()[i] == z;
        assert(s[i] == z);
        assert(s.contains(z));
        assert(avant(s[i], s[s.len() - 1]));
        assert(t.contains(z));
        let k = choose|k: int| 0 <= k < t.len() && t[k] == z;
        if k == t.len() - 1 {
            assert(z == s.last());
            assert(avant(z, z));
        }
        assert(t.drop_last()[k] == z);
    }
}

/// What the list of the favourites is: in order, and made of the folders that have a
/// rank.
proof fn lemme_favoris(t: Seq<DossierLocalVue>)
    requires
        cles_distinctes(t, cle_dossier()),
    ensures
        range(favoris_affiches(t), ordre_favoris()),
        forall|d: DossierLocalVue|
            #[trigger] favoris_affiches(t).contains(d) <==> t.contains(d) && d.favori is Some,
{
    broadcast use vstd::seq_lib::group_to_multiset_ensures;

    let p = |d: DossierLocalVue| d.favori is Some;
    let s = t.filter(p);
    let avant = ordre_favoris();
    let r = favoris_affiches(t);
    assert(ordre_faible(avant));
    lemme_trie(s, avant);
    assert forall|d: DossierLocalVue| #[trigger] r.contains(d) <==> t.contains(d) && d.favori is Some by {
        assert(r.contains(d) <==> r.to_multiset().count(d) > 0);
        assert(s.contains(d) <==> s.to_multiset().count(d) > 0);
        if s.contains(d) {
            t.lemma_filter_contains_rev(p, d);
            let k = choose|k: int| 0 <= k < s.len() && s[k] == d;
            t.lemma_filter_pred(p, k);
        }
        if t.contains(d) && d.favori is Some {
            let k = choose|k: int| 0 <= k < t.len() && t[k] == d;
            t.lemma_filter_contains(p, k);
        }
    }
    lemme_sans_double(t, p);
    s.lemma_multiset_has_no_duplicates();
    r.lemma_multiset_has_no_duplicates_conv();
    assert forall|i: int, j: int| 0 <= i < j < r.len() implies avant(#[trigger] r[i], #[trigger] r[j]) by {
        assert(r[i] != r[j]);
        assert(r.contains(r[i]) && r.contains(r[j]));
        let a = choose|a: int| 0 <= a < t.len() && t[a] == r[i];
        let b = choose|b: int| 0 <= b < t.len() && t[b] == r[j];
        if a < b {
            assert(cle_dossier()(t[a]) != cle_dossier()(t[b]));
        } else {
            assert(cle_dossier()(t[b]) != cle_dossier()(t[a]));
        }
        assert(!avant(r[j], r[i]));
    }
}

/// A selection of folders has none twice.
proof fn lemme_sans_double(t: Seq<DossierLocalVue>, p: spec_fn(DossierLocalVue) -> bool)
    requires
        cles_distinctes(t, cle_dossier()),
    ensures
        t.filter(p).no_duplicates(),
    decreases t.len(),
{
    reveal(Seq::filter);
    if t.len() > 0 {
        let u = t.drop_last();
        assert(cles_distinctes(u, cle_dossier())) by {
            assert forall|i: int, j: int| 0 <= i < j < u.len() implies cle_dossier()(#[trigger] u[i])
                != cle_dossier()(#[trigger] u[j]) by {
                assert(u[i] == t[i] && u[j] == t[j]);
            }
        }
        lemme_sans_double(u, p);
        let s = t.filter(p);
        let r = u.filter(p);
        assert forall|i: int, j: int| 0 <= i < s.len() && 0 <= j < s.len() && i != j implies s[i]
            != s[j] by {
            let a = if i < j {
                i
            } else {
                j
            };
            let b = if i < j {
                j
            } else {
                i
            };
            assert(s[a] == r[a]);
            if b < r.len() {
                assert(s[b] == r[b]);
            } else {
                assert(r.contains(r[a]));
                u.lemma_filter_contains_rev(p, r[a]);
                let k = choose|k: int| 0 <= k < u.len() && u[k] == r[a];
                assert(t[k] == s[a] && t[t.len() - 1] == s[b]);
                assert(cle_dossier()(t[k]) != cle_dossier()(t[t.len() - 1]));
            }
        }
    }
}

/// A selection of a list in order is in order.
proof fn lemme_filtre_range<A>(s: Seq<A>, p: spec_fn(A) -> bool, avant: spec_fn(A, A) -> bool)
    requires
        range(s, avant),
    ensures
        range(s.filter(p), avant),
    decreases s.len(),
{
    reveal(Seq::filter);
    if s.len() > 0 {
        let t = s.drop_last();
        assert(range(t, avant)) by {
            assert forall|i: int, j: int| 0 <= i < j < t.len() implies avant(
                #[trigger] t[i],
                #[trigger] t[j],
            ) by {
                assert(t[i] == s[i] && t[j] == s[j]);
            }
        }
        lemme_filtre_range(t, p, avant);
        let f = s.filter(p);
        let g = t.filter(p);
        assert forall|i: int, j: int| 0 <= i < j < f.len() implies avant(
            #[trigger] f[i],
            #[trigger] f[j],
        ) by {
            assert(f[i] == g[i]);
            if j < g.len() {
                assert(f[j] == g[j]);
            } else {
                assert(g.contains(g[i]));
                t.lemma_filter_contains_rev(p, g[i]);
                let k = choose|k: int| 0 <= k < t.len() && t[k] == g[i];
                assert(s[k] == f[i] && s[s.len() - 1] == f[j]);
            }
        }
    }
}

/// What the list of the favourites but a folder is.
proof fn lemme_autres(t: Seq<DossierLocalVue>, dossier: i64)
    requires
        cles_distinctes(t, cle_dossier()),
    ensures
        range(autres_favoris(t, dossier), ordre_favoris()),
        forall|d: DossierLocalVue|
            #[trigger] autres_favoris(t, dossier).contains(d) <==> t.contains(d) && d.favori is Some
                && d.id != dossier,
{
    lemme_favoris(t);
    let l = favoris_affiches(t);
    let p = |d: DossierLocalVue| d.id != dossier;
    let f = l.filter(p);
    lemme_filtre_range(l, p, ordre_favoris());
    assert forall|d: DossierLocalVue| #[trigger] f.contains(d) <==> t.contains(d) && d.favori is Some
        && d.id != dossier by {
        if f.contains(d) {
            l.lemma_filter_contains_rev(p, d);
            let k = choose|k: int| 0 <= k < f.len() && f[k] == d;
            l.lemma_filter_pred(p, k);
        }
        if t.contains(d) && d.favori is Some && d.id != dossier {
            assert(l.contains(d));
            let k = choose|k: int| 0 <= k < l.len() && l[k] == d;
            l.lemma_filter_contains(p, k);
        }
    }
}

/// The only folder of an identifier.
proof fn lemme_seul(t: Seq<DossierLocalVue>, d: DossierLocalVue)
    requires
        cles_distinctes(t, cle_dossier()),
        t.contains(d),
    ensures
        dossier_numero(t, d.id) == Some(d),
{
    let p = |x: DossierLocalVue| x.id == d.id;
    lemme_premier(t, p);
    let i = choose|i: int| 0 <= i < t.len() && t[i] == d;
    assert(p(t[i]));
    let e = dossier_numero(t, d.id)->0;
    let k = choose|k: int| 0 <= k < t.len() && t[k] == e;
    if i < k {
        assert(cle_dossier()(t[i]) != cle_dossier()(t[k]));
    } else if k < i {
        assert(cle_dossier()(t[k]) != cle_dossier()(t[i]));
    }
}

// ---------------------------------------------------------------------------- laws

/// Placing a folder among the favourites puts it just before the favourite that is
/// given, or at the end where none is: it is there once, and the others keep their
/// order.
pub proof fn loi_favoris_places(t: Seq<DossierLocalVue>, dossier: i64, avant: Option<i64>)
    requires
        cles_distinctes(t, cle_dossier()),
        rangs_distincts(t),
        dossier_numero(t, dossier) is Some,
        favori_place(t, dossier, avant) is Some,
    ensures
        ids_dossiers(favoris_affiches(favori_place(t, dossier, avant)->0)) == insere_avant(
            ids_dossiers(autres_favoris(t, dossier)),
            dossier,
            avant,
        ),
{
    lemme_premier(t, |d: DossierLocalVue| d.id == dossier);
    let i = choose|i: int| 0 <= i < t.len() && t[i] == dossier_numero(t, dossier)->0;
    let u = t.map_values(rang_donne(dossier, None));
    assert(u[i].id == dossier);
    lemme_premier(u, |d: DossierLocalVue| d.id == dossier);
    lemme_autres(t, dossier);
    let f = autres_favoris(t, dossier);
    let ids = ids_dossiers(f);
    // The rows but the folder are the same without its rank.
    assert forall|k: int| 0 <= k < t.len() && k != i implies #[trigger] u[k] == t[k] by {
        if k < i {
            assert(cle_dossier()(t[k]) != cle_dossier()(t[i]));
        } else {
            assert(cle_dossier()(t[i]) != cle_dossier()(t[k]));
        }
    }
    assert(cles_distinctes(u, cle_dossier())) by {
        assert forall|a: int, b: int| 0 <= a < b < u.len() implies cle_dossier()(#[trigger] u[a])
            != cle_dossier()(#[trigger] u[b]) by {
            assert(cle_dossier()(t[a]) != cle_dossier()(t[b]));
        }
    }
    match rang_vise(u, dossier, avant) {
        None => {
            lemme_place_fin(t, u, i, dossier);
            if let Some(a) = avant {
                if ids.contains(a) {
                    let k = choose|k: int| 0 <= k < ids.len() && ids[k] == a;
                    let d = f[k];
                    assert(f.contains(d));
                    let n = choose|n: int| 0 <= n < t.len() && t[n] == d;
                    assert(u[n] == d);
                    assert(u.contains(d));
                    lemme_seul(u, d);
                }
            }
        },
        Some(rang) => {
            let a = avant->0;
            let d = dossier_numero(u, a)->0;
            lemme_premier(u, |x: DossierLocalVue| x.id == a);
            let n = choose|n: int| 0 <= n < u.len() && u[n] == d;
            assert(n != i);
            assert(t[n] == d);
            assert(t.contains(d));
            assert(f.contains(d));
            let k = choose|k: int| 0 <= k < f.len() && f[k] == d;
            assert(ids[k] == a);
            assert(ids.contains(a));
            let q = ids.index_of(a);
            assert(q == k) by {
                assert(f.contains(f[q]));
                let z = choose|z: int| 0 <= z < t.len() && t[z] == f[q];
                if z < n {
                    assert(cle_dossier()(t[z]) != cle_dossier()(t[n]));
                } else if n < z {
                    assert(cle_dossier()(t[n]) != cle_dossier()(t[z]));
                }
                assert(f[q] == f[k]);
                if q < k {
                    assert(ordre_favoris()(f[q], f[k]));
                } else if k < q {
                    assert(ordre_favoris()(f[k], f[q]));
                }
            }
            lemme_place_avant(t, u, i, dossier, rang, k);
        },
    }
}

/// Pinning a folder puts it at the end of the favourites, unless it is one of them
/// already; unpinning it takes it away. The others keep their order.
pub proof fn loi_favori_epingle(t: Seq<DossierLocalVue>, dossier: i64, favori: bool)
    requires
        cles_distinctes(t, cle_dossier()),
        rangs_distincts(t),
        dossier_numero(t, dossier) is Some,
        epingle(t, dossier, favori) is Some,
    ensures
        ({
            let avant = ids_dossiers(favoris_affiches(t));
            let autres = ids_dossiers(autres_favoris(t, dossier));
            let apres = ids_dossiers(favoris_affiches(epingle(t, dossier, favori)->0));
            if !favori {
                apres == autres
            } else if dossier_numero(t, dossier)->0.favori is Some {
                apres == avant
            } else {
                apres == autres.push(dossier)
            }
        }),
{
    lemme_premier(t, |d: DossierLocalVue| d.id == dossier);
    let d = dossier_numero(t, dossier)->0;
    let i = choose|i: int| 0 <= i < t.len() && t[i] == d;
    let u = t.map_values(rang_donne(dossier, None));
    let p = |d: DossierLocalVue| d.id == dossier && d.favori is None;
    lemme_premier(t, p);
    assert forall|k: int| 0 <= k < t.len() && k != i implies (#[trigger] t[k]).id != dossier by {
        if k < i {
            assert(cle_dossier()(t[k]) != cle_dossier()(t[i]));
        } else {
            assert(cle_dossier()(t[i]) != cle_dossier()(t[k]));
        }
    }
    if !favori {
        lemme_sans_rang(t, u, i, dossier);
    } else if d.favori is None {
        assert(u =~= t);
        assert(p(t[i]));
        let g = rang_donne_si_absent(dossier, rang_final(t) as i64);
        let h = rang_donne(dossier, Some(rang_final(t) as i64));
        assert(t.map_values(g) =~= t.map_values(h));
        lemme_place_fin(t, u, i, dossier);
    } else if let Some(e) = premier(t, p) {
        let k = choose|k: int| 0 <= k < t.len() && t[k] == e;
        assert(k == i);
    }
}

/// A folder that loses its rank leaves the favourites, and the others stay.
proof fn lemme_sans_rang(t: Seq<DossierLocalVue>, u: Seq<DossierLocalVue>, i: int, dossier: i64)
    requires
        cles_distinctes(t, cle_dossier()),
        u == t.map_values(rang_donne(dossier, None)),
        0 <= i < t.len(),
        t[i].id == dossier,
        forall|k: int| 0 <= k < t.len() && k != i ==> (#[trigger] t[k]).id != dossier,
    ensures
        favoris_affiches(u) == autres_favoris(t, dossier),
{
    assert(cles_distinctes(u, cle_dossier())) by {
        assert forall|a: int, b: int| 0 <= a < b < u.len() implies cle_dossier()(#[trigger] u[a])
            != cle_dossier()(#[trigger] u[b]) by {
            assert(cle_dossier()(t[a]) != cle_dossier()(t[b]));
        }
    }
    lemme_favoris(u);
    lemme_autres(t, dossier);
    let l = favoris_affiches(u);
    let f = autres_favoris(t, dossier);
    assert forall|d: DossierLocalVue| l.contains(d) <==> f.contains(d) by {
        if l.contains(d) {
            let k = choose|k: int| 0 <= k < u.len() && u[k] == d;
            assert(k != i);
            assert(t[k] == d);
            assert(t.contains(d));
        }
        if f.contains(d) {
            let k = choose|k: int| 0 <= k < t.len() && t[k] == d;
            assert(u[k] == d);
            assert(u.contains(d));
        }
    }
    lemme_range_unique(l, f, ordre_favoris());
}

/// A folder that is given the rank after all the others comes last.
proof fn lemme_place_fin(t: Seq<DossierLocalVue>, u: Seq<DossierLocalVue>, i: int, dossier: i64)
    requires
        cles_distinctes(t, cle_dossier()),
        cles_distinctes(u, cle_dossier()),
        u == t.map_values(rang_donne(dossier, None)),
        0 <= i < t.len(),
        t[i].id == dossier,
        forall|k: int| 0 <= k < t.len() && k != i ==> #[trigger] u[k] == t[k],
        rang_final(u) <= i64::MAX,
    ensures
        ids_dossiers(
            favoris_affiches(u.map_values(rang_donne(dossier, Some(rang_final(u) as i64)))),
        ) == ids_dossiers(autres_favoris(t, dossier)).push(dossier),
{
    let g = rang_donne(dossier, Some(rang_final(u) as i64));
    let w = u.map_values(g);
    let n = w[i];
    let f = autres_favoris(t, dossier);
    let e = f.push(n);
    let ordre = ordre_favoris();
    lemme_autres(t, dossier);
    assert forall|k: int| 0 <= k < t.len() && k != i implies #[trigger] w[k] == t[k] && t[k].id
        != dossier by {
        assert(u[k] == t[k]);
        if k < i {
            assert(cle_dossier()(t[k]) != cle_dossier()(t[i]));
        } else {
            assert(cle_dossier()(t[i]) != cle_dossier()(t[k]));
        }
    }
    assert(cles_distinctes(w, cle_dossier())) by {
        assert forall|a: int, b: int| 0 <= a < b < w.len() implies cle_dossier()(#[trigger] w[a])
            != cle_dossier()(#[trigger] w[b]) by {
            assert(cle_dossier()(u[a]) != cle_dossier()(u[b]));
        }
    }
    lemme_favoris(w);
    assert(range(e, ordre)) by {
        assert forall|a: int, b: int| 0 <= a < b < e.len() implies ordre(
            #[trigger] e[a],
            #[trigger] e[b],
        ) by {
            assert(e[a] == f[a]);
            if b < f.len() {
                assert(e[b] == f[b]);
            } else {
                assert(f.contains(f[a]));
                let k = choose|k: int| 0 <= k < t.len() && t[k] == f[a];
                assert(k != i);
                assert(u[k] == f[a]);
                lemme_rang_borne(u, k);
            }
        }
    }
    let l = favoris_affiches(w);
    assert forall|d: DossierLocalVue| l.contains(d) <==> e.contains(d) by {
        if l.contains(d) {
            let k = choose|k: int| 0 <= k < w.len() && w[k] == d;
            if k == i {
                assert(e[f.len() as int] == d);
            } else {
                assert(t[k] == d);
                assert(t.contains(d));
                assert(f.contains(d));
                let z = choose|z: int| 0 <= z < f.len() && f[z] == d;
                assert(e[z] == d);
            }
        }
        if e.contains(d) {
            let z = choose|z: int| 0 <= z < e.len() && e[z] == d;
            if z < f.len() {
                assert(f[z] == d);
                assert(f.contains(d));
                let k = choose|k: int| 0 <= k < t.len() && t[k] == d;
                assert(k != i);
                assert(w[k] == d);
            } else {
                assert(w[i] == d);
            }
            assert(w.contains(d));
        }
    }
    lemme_range_unique(l, e, ordre);
    assert(ids_dossiers(e) =~= ids_dossiers(f).push(dossier));
}

/// A folder that is given the rank of another, which is pushed back with those that
/// follow it, comes just before it.
proof fn lemme_place_avant(
    t: Seq<DossierLocalVue>,
    u: Seq<DossierLocalVue>,
    i: int,
    dossier: i64,
    rang: i64,
    q: int,
)
    requires
        cles_distinctes(t, cle_dossier()),
        cles_distinctes(u, cle_dossier()),
        rangs_distincts(t),
        u == t.map_values(rang_donne(dossier, None)),
        0 <= i < t.len(),
        t[i].id == dossier,
        forall|k: int| 0 <= k < t.len() && k != i ==> #[trigger] u[k] == t[k],
        rang_final(u) <= i64::MAX,
        0 <= q < autres_favoris(t, dossier).len(),
        autres_favoris(t, dossier)[q].favori == Some(rang),
    ensures
        ids_dossiers(
            favoris_affiches(
                u.map_values(rang_recule(rang)).map_values(rang_donne(dossier, Some(rang))),
            ),
        ) == ids_dossiers(autres_favoris(t, dossier)).insert(q, dossier),
{
    let g = rang_recule(rang);
    let v = u.map_values(g);
    let w = v.map_values(rang_donne(dossier, Some(rang)));
    let n = w[i];
    let f = autres_favoris(t, dossier);
    let h = f.map_values(g);
    let e = h.insert(q, n);
    let ordre = ordre_favoris();
    lemme_autres(t, dossier);
    assert forall|k: int| 0 <= k < t.len() && k != i implies #[trigger] w[k] == g(t[k]) && t[k].id
        != dossier by {
        assert(u[k] == t[k]);
        assert(v[k] == g(u[k]));
        if k < i {
            assert(cle_dossier()(t[k]) != cle_dossier()(t[i]));
        } else {
            assert(cle_dossier()(t[i]) != cle_dossier()(t[k]));
        }
    }
    assert(v[i] == g(u[i]));
    assert(n.id == dossier && n.favori == Some(rang));
    assert(cles_distinctes(w, cle_dossier())) by {
        assert forall|a: int, b: int| 0 <= a < b < w.len() implies cle_dossier()(#[trigger] w[a])
            != cle_dossier()(#[trigger] w[b]) by {
            assert(v[a].id == u[a].id && v[b].id == u[b].id);
            assert(cle_dossier()(u[a]) != cle_dossier()(u[b]));
        }
    }
    lemme_favoris(w);
    // What the ranks become.
    assert forall|a: int| 0 <= a < f.len() implies (#[trigger] f[a]).favori is Some && f[a].favori->0
        < i64::MAX && f[a].id != dossier by {
        assert(f.contains(f[a]));
        let k = choose|k: int| 0 <= k < t.len() && t[k] == f[a];
        assert(k != i);
        assert(u[k] == f[a]);
        lemme_rang_borne(u, k);
    }
    assert forall|a: int| 0 <= a < f.len() && a != q implies (#[trigger] f[a]).favori != Some(rang) by {
        assert(f.contains(f[a]) && f.contains(f[q]));
        let x = choose|x: int| 0 <= x < t.len() && t[x] == f[a];
        let y = choose|y: int| 0 <= y < t.len() && t[y] == f[q];
        if a < q {
            assert(ordre(f[a], f[q]));
        } else {
            assert(ordre(f[q], f[a]));
        }
        if x < y {
            assert(t[x].favori != t[y].favori);
        } else if y < x {
            assert(t[y].favori != t[x].favori);
        }
    }
    assert forall|a: int| 0 <= a < q implies (#[trigger] f[a]).favori->0 < rang by {
        assert(ordre(f[a], f[q]));
    }
    assert forall|a: int| q <= a < f.len() implies (#[trigger] f[a]).favori->0 >= rang by {
        if q < a {
            assert(ordre(f[q], f[a]));
        }
    }
    assert(range(h, ordre)) by {
        assert forall|a: int, b: int| 0 <= a < b < h.len() implies ordre(
            #[trigger] h[a],
            #[trigger] h[b],
        ) by {
            assert(ordre(f[a], f[b]));
        }
    }
    assert(range(e, ordre)) by {
        assert forall|a: int, b: int| 0 <= a < b < e.len() implies ordre(
            #[trigger] e[a],
            #[trigger] e[b],
        ) by {
            let x = if a < q {
                a
            } else {
                a - 1
            };
            let y = if b < q {
                b
            } else {
                b - 1
            };
            if a == q {
                assert(e[b] == h[y]);
                assert(f[y].favori->0 >= rang);
            } else if b == q {
                assert(e[a] == h[x]);
                assert(f[x].favori->0 < rang);
            } else {
                assert(e[a] == h[x] && e[b] == h[y]);
                assert(ordre(h[x], h[y]));
            }
        }
    }
    let l = favoris_affiches(w);
    assert forall|d: DossierLocalVue| l.contains(d) <==> e.contains(d) by {
        if l.contains(d) {
            let k = choose|k: int| 0 <= k < w.len() && w[k] == d;
            if k == i {
                assert(e[q] == d);
            } else {
                assert(w[k] == g(t[k]));
                assert(t.contains(t[k]));
                assert(f.contains(t[k]));
                let z = choose|z: int| 0 <= z < f.len() && f[z] == t[k];
                assert(h[z] == d);
                if z < q {
                    assert(e[z] == d);
                } else {
                    assert(e[z + 1] == d);
                }
            }
        }
        if e.contains(d) {
            let z = choose|z: int| 0 <= z < e.len() && e[z] == d;
            if z == q {
                assert(w[i] == d);
            } else {
                let x = if z < q {
                    z
                } else {
                    z - 1
                };
                assert(h[x] == d);
                assert(d == g(f[x]));
                assert(f.contains(f[x]));
                let k = choose|k: int| 0 <= k < t.len() && t[k] == f[x];
                assert(k != i);
                assert(w[k] == d);
            }
            assert(w.contains(d));
        }
    }
    lemme_range_unique(l, e, ordre);
    assert(ids_dossiers(e) =~= ids_dossiers(f).insert(q, dossier));
}

/// No two favourites of an empty index have the same rank, nor once a folder is
/// pinned, placed or unpinned.
pub proof fn loi_rangs_distincts(
    t: Seq<DossierLocalVue>,
    dossier: i64,
    favori: bool,
    avant: Option<i64>,
)
    requires
        cles_distinctes(t, cle_dossier()),
        rangs_distincts(t),
    ensures
        rangs_distincts(Seq::empty()),
        epingle(t, dossier, favori) matches Some(u) ==> rangs_distincts(u),
        favori_place(t, dossier, avant) matches Some(u) ==> rangs_distincts(u),
{
    let u = t.map_values(rang_donne(dossier, None));
    assert forall|i: int| 0 <= i < t.len() implies (#[trigger] u[i]).id == t[i].id && (u[i].favori
        is Some ==> u[i] == t[i] && t[i].id != dossier) by {}
    assert(rangs_distincts(u)) by {
        assert forall|i: int, j: int|
            0 <= i < j < u.len() && (#[trigger] u[i]).favori is Some && (
            #[trigger] u[j]).favori is Some implies u[i].favori != u[j].favori by {
            assert(t[i].favori != t[j].favori);
        }
    }
    if favori && rang_final(t) <= i64::MAX {
        let v = t.map_values(rang_donne_si_absent(dossier, rang_final(t) as i64));
        lemme_un_seul_rang(t, v, dossier, rang_final(t) as i64);
    }
    if rang_final(u) <= i64::MAX {
        let v = u.map_values(rang_donne(dossier, Some(rang_final(u) as i64)));
        assert(cles_distinctes(u, cle_dossier())) by {
            assert forall|a: int, b: int| 0 <= a < b < u.len() implies cle_dossier()(
                #[trigger] u[a],
            ) != cle_dossier()(#[trigger] u[b]) by {
                assert(cle_dossier()(t[a]) != cle_dossier()(t[b]));
            }
        }
        lemme_un_seul_rang(u, v, dossier, rang_final(u) as i64);
        if let Some(rang) = rang_vise(u, dossier, avant) {
            let g = rang_recule(rang);
            let x = u.map_values(g);
            let w = x.map_values(rang_donne(dossier, Some(rang)));
            assert forall|i: int, j: int|
                0 <= i < j < w.len() && (#[trigger] w[i]).favori is Some && (
                #[trigger] w[j]).favori is Some implies w[i].favori != w[j].favori by {
                assert(cle_dossier()(u[i]) != cle_dossier()(u[j]));
                assert(x[i] == g(u[i]) && x[j] == g(u[j]));
                if u[i].favori is Some {
                    lemme_rang_borne(u, i);
                }
                if u[j].favori is Some {
                    lemme_rang_borne(u, j);
                }
            }
        }
    }
}

/// A rank above all the others, given to one folder, is no other's.
proof fn lemme_un_seul_rang(
    t: Seq<DossierLocalVue>,
    v: Seq<DossierLocalVue>,
    dossier: i64,
    rang: i64,
)
    requires
        cles_distinctes(t, cle_dossier()),
        rangs_distincts(t),
        rang == rang_final(t),
        v.len() == t.len(),
        forall|i: int|
            0 <= i < t.len() ==> (#[trigger] v[i]) == t[i] || t[i].id == dossier && v[i].favori
                == Some(rang),
    ensures
        rangs_distincts(v),
{
    assert forall|i: int, j: int|
        0 <= i < j < v.len() && (#[trigger] v[i]).favori is Some && (#[trigger] v[j]).favori is Some
            implies v[i].favori != v[j].favori by {
        assert(cle_dossier()(t[i]) != cle_dossier()(t[j]));
        if t[i].favori is Some {
            lemme_rang_borne(t, i);
        }
        if t[j].favori is Some {
            lemme_rang_borne(t, j);
        }
        if v[i] == t[i] && v[j] == t[j] {
            assert(t[i].favori != t[j].favori);
        }
    }
}

/// No two favourites have the same rank once the server has announced the folders of
/// an account, nor once an account is removed, nor after a change of folders that
/// leaves their ranks.
pub proof fn loi_rangs_gardes(
    m: MagasinVue,
    compte: i64,
    ds: Seq<DossierVue>,
    f: spec_fn(DossierLocalVue) -> DossierLocalVue,
)
    requires
        rangs_distincts(m.dossiers),
        forall|d: DossierLocalVue| (#[trigger] f(d)).favori == d.favori,
    ensures
        arborescence_posee(m, compte, ds) matches Some(n) ==> rangs_distincts(n.dossiers),
        rangs_distincts(compte_retire(m, compte).dossiers),
        rangs_distincts(m.dossiers.map_values(f)),
{
    lemme_rangs_changes(m.dossiers, f);
    lemme_rangs_filtre(m.dossiers, |d: DossierLocalVue| !du_compte(compte)(d));
    if let Some(t) = dossiers_poses(m.dossiers, compte, ds) {
        lemme_rangs_poses(m.dossiers, compte, ds);
        lemme_rangs_filtre(t, |d: DossierLocalVue| !disparu(compte, ds)(d));
    }
}

proof fn lemme_rangs_changes(
    t: Seq<DossierLocalVue>,
    f: spec_fn(DossierLocalVue) -> DossierLocalVue,
)
    requires
        rangs_distincts(t),
        forall|d: DossierLocalVue| (#[trigger] f(d)).favori == d.favori,
    ensures
        rangs_distincts(t.map_values(f)),
{
    let u = t.map_values(f);
    assert forall|i: int, j: int|
        0 <= i < j < u.len() && (#[trigger] u[i]).favori is Some && (#[trigger] u[j]).favori is Some
            implies u[i].favori != u[j].favori by {
        assert(u[i] == f(t[i]) && u[j] == f(t[j]));
    }
}

proof fn lemme_rangs_poses(t: Seq<DossierLocalVue>, compte: i64, ds: Seq<DossierVue>)
    requires
        rangs_distincts(t),
    ensures
        dossiers_poses(t, compte, ds) matches Some(u) ==> rangs_distincts(u),
    decreases ds.len(),
{
    if ds.len() > 0 {
        lemme_rangs_poses(t, compte, ds.drop_last());
        if let Some(u) = dossiers_poses(t, compte, ds.drop_last()) {
            let f = crate::tables::dossier_annonce(compte, ds.last());
            lemme_rangs_changes(u, f);
        }
    }
}

proof fn lemme_rangs_filtre(t: Seq<DossierLocalVue>, p: spec_fn(DossierLocalVue) -> bool)
    requires
        rangs_distincts(t),
    ensures
        rangs_distincts(t.filter(p)),
    decreases t.len(),
{
    reveal(Seq::filter);
    if t.len() > 0 {
        let u = t.drop_last();
        assert(rangs_distincts(u)) by {
            assert forall|i: int, j: int|
                0 <= i < j < u.len() && (#[trigger] u[i]).favori is Some && (
                #[trigger] u[j]).favori is Some implies u[i].favori != u[j].favori by {
                assert(u[i] == t[i] && u[j] == t[j]);
            }
        }
        lemme_rangs_filtre(u, p);
        let f = t.filter(p);
        let g = u.filter(p);
        assert forall|i: int, j: int|
            0 <= i < j < f.len() && (#[trigger] f[i]).favori is Some && (
            #[trigger] f[j]).favori is Some implies f[i].favori != f[j].favori by {
            assert(f[i] == g[i]);
            if j < g.len() {
                assert(f[j] == g[j]);
            } else {
                assert(g.contains(g[i]));
                u.lemma_filter_contains_rev(p, g[i]);
                let k = choose|k: int| 0 <= k < u.len() && u[k] == g[i];
                assert(t[k] == f[i] && t[t.len() - 1] == f[j]);
            }
        }
    }
}

} // verus!
