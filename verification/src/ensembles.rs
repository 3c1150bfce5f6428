//! Sets of UIDs, as IMAP writes them: `1:3,7,9:12`.

use vstd::prelude::*;
use vstd::slice::slice_to_vec;

use crate::nombre::{decimal, ecrire_u64, entier, lemme_decimal, lire_u32, loi_decimal_relu};
use crate::texte::{
    ajouter_car, apres_prefixe, caracteres, chaine, champs, coupe, couper, decouper,
    decouper_lignes, joindre, jointure, lignes, oter_prefixe, rogner, sans_blancs,
    sans_blancs_debut, sans_blancs_fin, textes, vues_car,
};

verus! {

// ------------------------------------------------------------------------- reading

/// The interval that a piece of a set writes, its ends in order.
pub open spec fn intervalle_de(morceau: Seq<char>) -> Option<(u32, u32)> {
    let t = sans_blancs(morceau);
    match coupe(t, ':') {
        Some((a, b)) => match (entier(a, u32::MAX as nat), entier(b, u32::MAX as nat)) {
            (Some(a), Some(b)) => if a <= b {
                Some((a as u32, b as u32))
            } else {
                Some((b as u32, a as u32))
            },
            _ => None,
        },
        None => match entier(t, u32::MAX as nat) {
            Some(n) => Some((n as u32, n as u32)),
            None => None,
        },
    }
}

/// The way a piece of a set is read.
pub open spec fn lecteur_intervalle() -> spec_fn(Seq<char>) -> Option<(u32, u32)> {
    |m: Seq<char>| intervalle_de(m)
}

/// The intervals that a set writes; a piece that is none is passed over.
pub open spec fn intervalles_ecrits(s: Seq<char>) -> Seq<(u32, u32)> {
    champs(s, ',').filter_map(lecteur_intervalle())
}

fn lire_intervalle(morceau: &[char]) -> (r: Option<(u32, u32)>)
    ensures
        r == intervalle_de(morceau@),
{
    let t = rogner(morceau);
    match couper(t, ':') {
        Some((a, b)) => match (lire_u32(a), lire_u32(b)) {
            (Some(a), Some(b)) => if a <= b {
                Some((a, b))
            } else {
                Some((b, a))
            },
            _ => None,
        },
        None => match lire_u32(t) {
            Some(n) => Some((n, n)),
            None => None,
        },
    }
}

fn lire_intervalles(s: &[char]) -> (r: Vec<(u32, u32)>)
    ensures
        r@ == intervalles_ecrits(s@),
{
    let ms = decouper(s, ',');
    let ghost tout = champs(s@, ',');
    let mut r: Vec<(u32, u32)> = Vec::new();
    for i in 0..ms.len()
        invariant
            tout == vues_car(ms@),
            r@ =~= tout.take(i as int).filter_map(lecteur_intervalle()),
    {
        proof {
            tout.lemma_filter_map_take_succ(lecteur_intervalle(), i as int);
            assert(tout[i as int] == ms@[i as int]@);
        }
        if let Some(p) = lire_intervalle(ms[i].as_slice()) {
            r.push(p);
        }
    }
    assert(tout.take(tout.len() as int) =~= tout);
    r
}

/// Reads a set of UIDs: `1:3,7,9:12`.
pub fn lire_ensemble(texte: &str) -> (r: Vec<(u32, u32)>)
    ensures
        r@ == intervalles_ecrits(texte@),
{
    let c = caracteres(texte);
    lire_intervalles(c.as_slice())
}

// ------------------------------------------------------------------------ VANISHED

/// A text without the copies of a prefix that start it.
pub open spec fn sans_prefixes(s: Seq<char>, p: Seq<char>) -> Seq<char>
    decreases s.len(),
{
    if p.len() == 0 {
        s
    } else {
        match apres_prefixe(s, p) {
            Some(t) => sans_prefixes(t, p),
            None => s,
        }
    }
}

/// The intervals that a `VANISHED` line announces.
pub open spec fn vanished_de_ligne(ligne: Seq<char>) -> Seq<(u32, u32)> {
    match apres_prefixe(sans_blancs(ligne), "* VANISHED "@) {
        None => Seq::empty(),
        Some(reste) => intervalles_ecrits(sans_blancs(sans_prefixes(reste, "(EARLIER)"@))),
    }
}

/// The way a line is read for what vanished.
pub open spec fn lecteur_vanished() -> spec_fn(Seq<char>) -> Seq<(u32, u32)> {
    |l: Seq<char>| vanished_de_ligne(l)
}

/// The intervals that the `VANISHED` lines of a response announce.
pub open spec fn vanished_de(reponse: Seq<char>) -> Seq<(u32, u32)> {
    lignes(reponse).flat_map(lecteur_vanished())
}

fn lire_vanished(ligne: &[char]) -> (r: Vec<(u32, u32)>)
    ensures
        r@ == vanished_de_ligne(ligne@),
{
    match oter_prefixe(rogner(ligne), "* VANISHED ") {
        None => Vec::new(),
        Some(reste) => {
            let mut t = reste;
            proof {
                reveal_strlit("(EARLIER)");
            }
            loop
                invariant
                    "(EARLIER)"@.len() > 0,
                    apres_prefixe(sans_blancs(ligne@), "* VANISHED "@) == Some(reste@),
                    sans_prefixes(reste@, "(EARLIER)"@) == sans_prefixes(t@, "(EARLIER)"@),
                decreases t@.len(),
            {
                match oter_prefixe(t, "(EARLIER)") {
                    Some(u) => {
                        t = u;
                    },
                    None => {
                        return lire_intervalles(rogner(t));
                    },
                }
            }
        },
    }
}

/// UIDs removed from a folder, as `VANISHED` announces them:
/// `* VANISHED (EARLIER) 1:3,7`. They are given as intervals: one may cover UIDs
/// that never existed.
pub fn analyser_vanished(reponse: &str) -> (r: Vec<(u32, u32)>)
    ensures
        r@ == vanished_de(reponse@),
{
    let c = caracteres(reponse);
    let ls = decouper_lignes(c.as_slice());
    let ghost tout = lignes(reponse@);
    let mut r: Vec<(u32, u32)> = Vec::new();
    proof {
        assert(tout.take(0).flat_map(lecteur_vanished()) =~= Seq::empty());
    }
    for i in 0..ls.len()
        invariant
            tout == vues_car(ls@),
            r@ =~= tout.take(i as int).flat_map(lecteur_vanished()),
    {
        proof {
            tout.lemma_flat_map_take_append(lecteur_vanished(), i as int);
            assert(tout[i as int] == ls@[i as int]@);
        }
        let mut v = lire_vanished(ls[i].as_slice());
        r.append(&mut v);
    }
    assert(tout.take(tout.len() as int) =~= tout);
    r
}

// ------------------------------------------------------------------------- writing

/// Whether some intervals cover a UID.
pub open spec fn couvre(p: Seq<(u32, u32)>, n: int) -> bool {
    exists|i: int| 0 <= i < p.len() && (#[trigger] p[i]).0 <= n <= p[i].1
}

/// Whether intervals are increasing and no two of them touch.
pub open spec fn canonique(p: Seq<(u32, u32)>) -> bool {
    &&& forall|i: int| 0 <= i < p.len() ==> (#[trigger] p[i]).0 <= p[i].1
    &&& forall|i: int, j: int|
        0 <= i < j < p.len() ==> (#[trigger] p[i]).1 + 1 < (#[trigger] p[j]).0
}

/// Whether intervals are the compact form of a set of UIDs.
pub open spec fn decrit(p: Seq<(u32, u32)>, uids: Seq<u32>) -> bool {
    &&& canonique(p)
    &&& forall|n: u32| couvre(p, n as int) <==> #[trigger] uids.contains(n)
}

/// The compact form of a set of UIDs.
pub open spec fn compact(uids: Seq<u32>) -> Seq<(u32, u32)> {
    choose|p: Seq<(u32, u32)>| decrit(p, uids)
}

/// How an interval is written.
pub open spec fn morceau(p: (u32, u32)) -> Seq<char> {
    if p.0 == p.1 {
        decimal(p.0 as nat)
    } else {
        decimal(p.0 as nat) + seq![':'] + decimal(p.1 as nat)
    }
}

/// How intervals are written.
pub open spec fn ecriture(p: Seq<(u32, u32)>) -> Seq<char> {
    jointure(p.map_values(|q: (u32, u32)| morceau(q)), ","@)
}

/// A set of UIDs has no more than one compact form.
pub proof fn loi_forme_unique(p: Seq<(u32, u32)>, q: Seq<(u32, u32)>)
    requires
        canonique(p),
        canonique(q),
        forall|n: int| #[trigger] couvre(p, n) <==> couvre(q, n),
    ensures
        p == q,
    decreases p.len(),
{
    if p.len() == 0 {
        if q.len() > 0 {
            assert(couvre(q, q[0].0 as int));
            assert(couvre(p, q[0].0 as int));
        }
        assert(p =~= q);
    } else {
        let a = p.last();
        assert(couvre(p, a.0 as int) && couvre(p, a.1 as int));
        assert(couvre(q, a.0 as int));
        let b = q.last();
        assert(couvre(q, b.0 as int) && couvre(q, b.1 as int));
        assert(couvre(p, b.0 as int) && couvre(p, b.1 as int));
        assert(couvre(q, a.1 as int));
        assert(a.1 == b.1);
        if a.0 < b.0 {
            assert(couvre(p, b.0 - 1)) by {
                assert(p[p.len() - 1].0 <= b.0 - 1 <= p[p.len() - 1].1);
            }
            assert(couvre(q, b.0 - 1));
        }
        if b.0 < a.0 {
            assert(couvre(q, a.0 - 1)) by {
                assert(q[q.len() - 1].0 <= a.0 - 1 <= q[q.len() - 1].1);
            }
            assert(couvre(p, a.0 - 1));
        }
        assert(a == b);
        let pp = p.drop_last();
        let qq = q.drop_last();
        assert forall|n: int| #[trigger] couvre(pp, n) <==> couvre(qq, n) by {
            if couvre(pp, n) {
                let i = choose|i: int| 0 <= i < pp.len() && (#[trigger] pp[i]).0 <= n <= pp[i].1;
                assert(p[i].0 <= n <= p[i].1);
                assert(couvre(p, n));
                let j = choose|j: int| 0 <= j < q.len() && (#[trigger] q[j]).0 <= n <= q[j].1;
                assert(qq[j].0 <= n <= qq[j].1);
            }
            if couvre(qq, n) {
                let i = choose|i: int| 0 <= i < qq.len() && (#[trigger] qq[i]).0 <= n <= qq[i].1;
                assert(q[i].0 <= n <= q[i].1);
                assert(couvre(q, n));
                assert(couvre(p, n));
                let j = choose|j: int| 0 <= j < p.len() && (#[trigger] p[j]).0 <= n <= p[j].1;
                assert(pp[j].0 <= n <= pp[j].1);
            }
        }
        loi_forme_unique(pp, qq);
        assert(p =~= pp.push(a));
        assert(q =~= qq.push(b));
    }
}

/// What the UIDs below `k` compact to.
proof fn lemme_forme_existe(uids: Seq<u32>, k: nat) -> (p: Seq<(u32, u32)>)
    requires
        k <= 0x1_0000_0000,
    ensures
        canonique(p),
        forall|i: int| 0 <= i < p.len() ==> (#[trigger] p[i]).1 < k,
        forall|n: u32| n < k ==> (couvre(p, n as int) <==> #[trigger] uids.contains(n)),
    decreases k,
{
    if k == 0 {
        Seq::empty()
    } else {
        let p = lemme_forme_existe(uids, (k - 1) as nat);
        let m = (k - 1) as u32;
        if !uids.contains(m) {
            p
        } else if p.len() > 0 && p.last().1 == m - 1 {
            let q = p.drop_last().push((p.last().0, m));
            assert forall|n: u32| n < k implies (couvre(q, n as int) <==> #[trigger] uids.contains(
                n,
            )) by {
                if couvre(p, n as int) {
                    let i = choose|i: int| 0 <= i < p.len() && (#[trigger] p[i]).0 <= n <= p[i].1;
                    assert(q[i].0 <= n <= q[i].1);
                }
                if n == m {
                    assert(q[q.len() - 1].0 <= n <= q[q.len() - 1].1);
                }
                if couvre(q, n as int) && n != m {
                    let i = choose|i: int| 0 <= i < q.len() && (#[trigger] q[i]).0 <= n <= q[i].1;
                    assert(p[i].0 <= n <= p[i].1);
                }
            }
            q
        } else {
            let q = p.push((m, m));
            assert forall|n: u32| n < k implies (couvre(q, n as int) <==> #[trigger] uids.contains(
                n,
            )) by {
                if couvre(p, n as int) {
                    let i = choose|i: int| 0 <= i < p.len() && (#[trigger] p[i]).0 <= n <= p[i].1;
                    assert(q[i].0 <= n <= q[i].1);
                }
                if n == m {
                    assert(q[q.len() - 1].0 <= n <= q[q.len() - 1].1);
                }
                if couvre(q, n as int) && n != m {
                    let i = choose|i: int| 0 <= i < q.len() && (#[trigger] q[i]).0 <= n <= q[i].1;
                    assert(p[i].0 <= n <= p[i].1);
                }
            }
            q
        }
    }
}

/// Every set of UIDs has a compact form.
pub proof fn loi_forme_existe(uids: Seq<u32>)
    ensures
        decrit(compact(uids), uids),
{
    let p = lemme_forme_existe(uids, 0x1_0000_0000);
    assert(decrit(p, uids));
}

/// A form that describes a set of UIDs is its compact form.
proof fn lemme_compact(p: Seq<(u32, u32)>, uids: Seq<u32>)
    requires
        decrit(p, uids),
    ensures
        p == compact(uids),
{
    loi_forme_existe(uids);
    let q = compact(uids);
    assert forall|n: int| #[trigger] couvre(p, n) <==> couvre(q, n) by {
        if 0 <= n <= u32::MAX {
            assert(couvre(p, (n as u32) as int) <==> uids.contains(n as u32));
            assert(couvre(q, (n as u32) as int) <==> uids.contains(n as u32));
        }
    }
    loi_forme_unique(p, q);
}

/// `<[u32]>::sort_unstable`: the same numbers, in increasing order.
#[verifier::external_body]
fn trier(v: &mut Vec<u32>)
    ensures
        final(v)@.to_multiset() == old(v)@.to_multiset(),
        forall|i: int, j: int| 0 <= i < j < final(v)@.len() ==> final(v)@[i] <= final(v)@[j],
{
    v.sort_unstable();
}

/// Writes an interval.
fn ecrire_morceau(a: u32, b: u32) -> (r: String)
    ensures
        r@ == morceau((a, b)),
{
    let mut c = ecrire_u64(a as u64);
    if a != b {
        c.push(':');
        let d = ecrire_u64(b as u64);
        ajouter_car(&mut c, d.as_slice());
        assert(c@ =~= morceau((a, b)));
    }
    chaine(c.as_slice())
}

/// Sorted numbers without their repetitions.
fn sans_repetitions(v: &Vec<u32>) -> (r: Vec<u32>)
    requires
        forall|i: int, j: int| 0 <= i < j < v@.len() ==> v@[i] <= v@[j],
    ensures
        forall|i: int, j: int| 0 <= i < j < r@.len() ==> r@[i] < r@[j],
        forall|n: u32| #[trigger] r@.contains(n) <==> v@.contains(n),
{
    let mut r: Vec<u32> = Vec::new();
    for i in 0..v.len()
        invariant
            forall|i: int, j: int| 0 <= i < j < v@.len() ==> v@[i] <= v@[j],
            forall|i: int, j: int| 0 <= i < j < r@.len() ==> r@[i] < r@[j],
            i == 0 <==> r@.len() == 0,
            i > 0 ==> r@.last() == v@[i - 1],
            forall|n: u32| #[trigger] r@.contains(n) <==> v@.take(i as int).contains(n),
    {
        let ghost avant = r@;
        let x: u32 = v[i];
        if r.len() == 0 || r[r.len() - 1] != x {
            r.push(x);
        }
        proof {
            assert forall|n: u32| #[trigger] r@.contains(n) <==> v@.take(i + 1).contains(n) by {
                assert(v@.take(i + 1) =~= v@.take(i as int).push(x));
                assert(v@.take(i + 1).contains(n) <==> v@.take(i as int).contains(n) || n == x) by {
                    assert(v@.take(i + 1)[i as int] == x);
                    if v@.take(i as int).contains(n) {
                        let k = choose|k: int|
                            0 <= k < v@.take(i as int).len() && v@.take(i as int)[k] == n;
                        assert(v@.take(i + 1)[k] == n);
                    }
                }
                if avant.contains(n) {
                    let k = choose|k: int| 0 <= k < avant.len() && avant[k] == n;
                    assert(r@[k] == n);
                }
                if n == x {
                    assert(r@[r@.len() - 1] == x);
                }
            }
        }
    }
    assert(v@.take(v@.len() as int) =~= v@);
    r
}

/// Groups increasing numbers into intervals.
fn grouper(tries: &Vec<u32>) -> (p: Vec<(u32, u32)>)
    requires
        forall|i: int, j: int| 0 <= i < j < tries@.len() ==> tries@[i] < tries@[j],
    ensures
        decrit(p@, tries@),
{
    let mut p: Vec<(u32, u32)> = Vec::new();
    let mut i: usize = 0;
    while i < tries.len()
        invariant
            i <= tries@.len(),
            forall|i: int, j: int| 0 <= i < j < tries@.len() ==> tries@[i] < tries@[j],
            canonique(p@),
            i == 0 ==> p@.len() == 0,
            i > 0 ==> p@.len() > 0 && p@.last().1 == tries@[i - 1],
            i > 0 && i < tries@.len() ==> tries@[i - 1] + 1 < tries@[i as int],
            forall|n: int|
                #[trigger] couvre(p@, n) <==> exists|k: int| 0 <= k < i && tries@[k] == n,
        decreases tries@.len() - i,
    {
        let debut: u32 = tries[i];
        let mut fin: u32 = debut;
        let ghost i0 = i;
        while i + 1 < tries.len() && tries[i + 1] == fin + 1
            invariant
                i0 <= i < tries@.len(),
                tries@.len() <= usize::MAX,
                forall|i: int, j: int| 0 <= i < j < tries@.len() ==> tries@[i] < tries@[j],
                debut == tries@[i0 as int],
                fin == tries@[i as int],
                fin - debut == i - i0,
                forall|k: int| i0 <= k <= i ==> #[trigger] tries@[k] == debut + (k - i0),
            decreases tries@.len() - i,
        {
            i += 1;
            fin = tries[i];
        }
        let ghost avant = p@;
        p.push((debut, fin));
        i += 1;
        proof {
            assert forall|n: int|
                #[trigger] couvre(p@, n) <==> exists|k: int| 0 <= k < i && tries@[k] == n by {
                if couvre(p@, n) {
                    let m = choose|m: int| 0 <= m < p@.len() && (#[trigger] p@[m]).0 <= n <= p@[m].1;
                    if m < avant.len() {
                        assert(avant[m].0 <= n <= avant[m].1);
                        assert(couvre(avant, n));
                    } else {
                        assert(tries@[i0 + (n - debut)] == n);
                    }
                }
                if exists|k: int| 0 <= k < i && tries@[k] == n {
                    let k = choose|k: int| 0 <= k < i && tries@[k] == n;
                    if k < i0 {
                        assert(couvre(avant, n));
                        let m = choose|m: int|
                            0 <= m < avant.len() && (#[trigger] avant[m]).0 <= n <= avant[m].1;
                        assert(p@[m].0 <= n <= p@[m].1);
                    } else {
                        assert(p@[p@.len() - 1].0 <= n <= p@[p@.len() - 1].1);
                    }
                }
            }
        }
    }
    assert forall|n: u32| couvre(p@, n as int) <==> #[trigger] tries@.contains(n) by {}
    p
}

/// Writes a set of UIDs in its compact form: [1, 2, 3, 7] gives `1:3,7`.
pub fn ensemble_uid(uids: &[u32]) -> (r: String)
    ensures
        decrit(compact(uids@), uids@),
        r@ == ecriture(compact(uids@)),
{
    let mut tries: Vec<u32> = slice_to_vec(uids);
    trier(&mut tries);
    proof {
        assert forall|n: u32| #[trigger] uids@.contains(n) <==> tries@.contains(n) by {
            broadcast use vstd::seq_lib::group_to_multiset_ensures;

            assert(uids@.to_multiset().count(n) == tries@.to_multiset().count(n));
        }
    }
    let t = sans_repetitions(&tries);
    let p = grouper(&t);
    proof {
        assert(decrit(p@, uids@)) by {
            assert forall|n: u32| couvre(p@, n as int) <==> #[trigger] uids@.contains(n) by {
                assert(t@.contains(n) <==> tries@.contains(n));
            }
        }
        lemme_compact(p@, uids@);
    }
    let mut m: Vec<String> = Vec::new();
    let ghost f = |q: (u32, u32)| morceau(q);
    for i in 0..p.len()
        invariant
            f == (|q: (u32, u32)| morceau(q)),
            textes(m@) =~= p@.map_values(f).take(i as int),
    {
        let (a, b) = p[i];
        let t = ecrire_morceau(a, b);
        let ghost avant = m@;
        m.push(t);
        assert(textes(m@) =~= textes(avant).push(t@));
        assert(p@.map_values(f).take(i + 1) =~= p@.map_values(f).take(i as int).push(
            morceau(p@[i as int]),
        ));
    }
    assert(p@.map_values(f).take(p@.len() as int) =~= p@.map_values(f));
    joindre(&m, ",")
}

// ---------------------------------------------------------------------------- laws

/// Splitting at a character undoes the joining of a last field that lacks it.
pub proof fn lemme_champs_ajout(a: Seq<char>, b: Seq<char>, c: char)
    requires
        !b.contains(c),
    ensures
        champs(a + seq![c] + b, c) == champs(a, c).push(b),
    decreases a.len(),
{
    let s = a + seq![c] + b;
    s.index_of_first_ensures(c);
    a.index_of_first_ensures(c);
    b.index_of_first_ensures(c);
    assert(s[a.len() as int] == c);
    match a.index_of_first(c) {
        Some(i) => {
            assert(s[i] == c);
            let j = s.index_of_first(c)->0;
            if j < i {
                assert(a[j] == c);
            }
            assert(j == i);
            let aa = a.subrange(i + 1, a.len() as int);
            assert(s.subrange(i + 1, s.len() as int) =~= aa + seq![c] + b);
            assert(s.subrange(0, i) =~= a.subrange(0, i));
            lemme_champs_ajout(aa, b, c);
            assert(champs(s, c) =~= champs(a, c).push(b));
        },
        None => {
            let j = s.index_of_first(c)->0;
            if j < a.len() {
                assert(a[j] == c);
            }
            assert(j == a.len());
            assert(s.subrange(0, j) =~= a);
            assert(s.subrange(j + 1, s.len() as int) =~= b);
            assert(champs(b, c) =~= seq![b]);
            assert(champs(s, c) =~= champs(a, c).push(b));
        },
    }
}

/// What a written interval looks like.
proof fn lemme_morceau(p: (u32, u32))
    ensures
        !morceau(p).contains(','),
        p.0 <= p.1 ==> intervalle_de(morceau(p)) == Some(p),
{
    let a = decimal(p.0 as nat);
    let b = decimal(p.1 as nat);
    lemme_decimal(p.0 as nat);
    lemme_decimal(p.1 as nat);
    loi_decimal_relu(p.0 as nat, u32::MAX as nat);
    loi_decimal_relu(p.1 as nat, u32::MAX as nat);
    let s = morceau(p);
    assert(sans_blancs_debut(s) == s);
    assert(s.last() == b.last());
    assert(sans_blancs_fin(s) == s);
    s.index_of_first_ensures(':');
    if p.0 != p.1 {
        assert(s[a.len() as int] == ':');
        let i = s.index_of_first(':')->0;
        if i < a.len() {
            assert(s[i] == a[i]);
        }
        assert(i == a.len());
        assert(s.subrange(0, i) =~= a);
        assert(s.subrange(i + 1, s.len() as int) =~= b);
    }
    assert forall|k: int| 0 <= k < s.len() implies s[k] != ',' by {
        if k < a.len() {
            assert(s[k] == a[k]);
        } else if k > a.len() {
            assert(s[k] == b[k - a.len() - 1]);
        }
    }
}

/// Written intervals hold digits, colons and commas, and nothing else.
pub proof fn lemme_ecriture(p: Seq<(u32, u32)>)
    ensures
        p.len() > 0 ==> ecriture(p).len() > 0,
        forall|i: int|
            0 <= i < ecriture(p).len() ==> '0' <= (#[trigger] ecriture(p)[i]) <= ':'
                || ecriture(p)[i] == ',',
    decreases p.len(),
{
    reveal_strlit(",");
    let f = |q: (u32, u32)| morceau(q);
    let v = p.map_values(f);
    let s = ecriture(p);
    if p.len() > 0 {
        let x = p.last();
        let a = decimal(x.0 as nat);
        let b = decimal(x.1 as nat);
        lemme_decimal(x.0 as nat);
        lemme_decimal(x.1 as nat);
        let m = morceau(x);
        assert(v.last() == m);
        assert forall|i: int| 0 <= i < m.len() implies '0' <= #[trigger] m[i] <= ':' by {
            if i < a.len() {
                assert(m[i] == a[i]);
            } else if i > a.len() {
                assert(m[i] == b[i - a.len() - 1]);
            }
        }
        if p.len() > 1 {
            let q = p.drop_last();
            lemme_ecriture(q);
            assert(v.drop_last() =~= q.map_values(f));
            let e = ecriture(q);
            assert(s =~= e + ","@ + m);
            assert forall|i: int| 0 <= i < s.len() implies '0' <= (#[trigger] s[i]) <= ':' || s[i]
                == ',' by {
                if i < e.len() {
                    assert(s[i] == e[i]);
                } else if i > e.len() {
                    assert(s[i] == m[i - e.len() - 1]);
                }
            }
        } else {
            assert(s == m);
        }
    }
}

/// Reading intervals that were written gives them back.
pub proof fn loi_intervalles_relus(p: Seq<(u32, u32)>)
    requires
        forall|i: int| 0 <= i < p.len() ==> (#[trigger] p[i]).0 <= p[i].1,
    ensures
        intervalles_ecrits(ecriture(p)) == p,
    decreases p.len(),
{
    let f = |q: (u32, u32)| morceau(q);
    let v = p.map_values(f);
    reveal_strlit(",");
    assert(","@ =~= seq![',']);
    if p.len() == 0 {
        let s = ecriture(p);
        assert(s =~= Seq::empty());
        s.index_of_first_ensures(',');
        assert(champs(s, ',') =~= seq![s]);
        s.index_of_first_ensures(':');
        assert(intervalle_de(s) is None);
        let t = champs(s, ',');
        t.lemma_filter_map_take_succ(lecteur_intervalle(), 0);
        assert(t.take(1) =~= t);
        assert(t.take(0) =~= Seq::empty());
        assert(intervalles_ecrits(s) =~= p);
    } else {
        let q = p.drop_last();
        let x = p.last();
        lemme_morceau(x);
        let s = ecriture(p);
        assert(v.last() == morceau(x));
        if p.len() == 1 {
            assert(s == morceau(x));
            s.index_of_first_ensures(',');
            assert(champs(s, ',') =~= seq![s]);
            let t = champs(s, ',');
            t.lemma_filter_map_take_succ(lecteur_intervalle(), 0);
            assert(t.take(1) =~= t);
            assert(t.take(0) =~= Seq::empty());
            assert(intervalles_ecrits(s) =~= p);
        } else {
            loi_intervalles_relus(q);
            assert(v.drop_last() =~= q.map_values(f));
            assert(s =~= ecriture(q) + seq![','] + morceau(x));
            lemme_champs_ajout(ecriture(q), morceau(x), ',');
            let t = champs(s, ',');
            let n = champs(ecriture(q), ',').len();
            t.lemma_filter_map_take_succ(lecteur_intervalle(), n as int);
            assert(t.take(n as int) =~= champs(ecriture(q), ','));
            assert(t.take(n as int + 1) =~= t);
            assert(intervalles_ecrits(s) =~= p);
        }
    }
}

/// Reading a set of UIDs that was written covers these UIDs and no other.
pub proof fn loi_ensemble_relu(uids: Seq<u32>, n: u32)
    ensures
        couvre(intervalles_ecrits(ecriture(compact(uids))), n as int) <==> uids.contains(n),
{
    loi_forme_existe(uids);
    loi_intervalles_relus(compact(uids));
}

} // verus!
