//! What the tree and the lists of the interface hold, and the place of favourites in
//! them.

use vstd::prelude::*;

use crate::affichage::{lemme_filtre_contient, lemme_trie_contient};
use crate::boite::{
    adresse_de, comptes_montres, dossier_change, epingle_en, etat_de, ligne_compte, lignes_arbre,
    lignes_cibles, lignes_compte, lignes_comptes, lignes_dossiers, lignes_favoris,
    messages_montres, montre, place_avant, visable, BoiteVue, CourantVue, Etat,
};
use crate::coherence::{cle_chemin, cle_compte, cle_dossier, valide};
use crate::favoris::{
    autres_favoris, insere_avant, loi_favori_epingle, loi_favoris_places, rangs_distincts,
};
use crate::json::dossier_json;
use crate::objets::{champs_message, liste_lue, loi_messages_relus};
use crate::tables::{
    dossier_en, dossier_numero, dossiers_affiches, epingle, favori_place, favoris_affiches,
    ids_dossiers, lemme_premier, messages_affiches, ordre_affichage, ordre_comptes, ordre_favoris,
    CompteVue, DossierLocalVue, MagasinVue, MessageVue,
};

verus! {

// ---------------------------------------------------------------------------- tree

proof fn lemme_adresse(comptes: Seq<CompteVue>, c: CompteVue)
    requires
        comptes.contains(c),
        forall|x: CompteVue| #[trigger] comptes.contains(x) && x.id == c.id ==> x == c,
    ensures
        adresse_de(comptes, c.id) == c.adresse,
    decreases comptes.len(),
{
    let t = comptes.drop_last();
    assert(comptes.contains(comptes[comptes.len() - 1]));
    if comptes.last().id != c.id {
        let i = choose|i: int| 0 <= i < comptes.len() && comptes[i] == c;
        assert(t[i] == c);
        assert forall|x: CompteVue| #[trigger] t.contains(x) && x.id == c.id implies x == c by {
            let k = choose|k: int| 0 <= k < t.len() && t[k] == x;
            assert(comptes[k] == x);
            assert(comptes.contains(x));
        }
        lemme_adresse(t, c);
    }
}

proof fn lemme_dossiers(
    genre: Seq<char>,
    ds: Seq<DossierLocalVue>,
    adresse: Seq<char>,
    garder: spec_fn(DossierLocalVue) -> bool,
    d: DossierLocalVue,
)
    requires
        ds.contains(d),
        garder(d),
    ensures
        lignes_dossiers(genre, ds, adresse, garder).contains(
            dossier_json(genre, d, adresse, d.profondeur),
        ),
{
    lemme_filtre_contient(ds, garder, d);
    let f = ds.filter(garder);
    let k = choose|k: int| 0 <= k < f.len() && f[k] == d;
    assert(lignes_dossiers(genre, ds, adresse, garder)[k] == dossier_json(
        genre,
        d,
        adresse,
        d.profondeur,
    ));
}

proof fn lemme_du_compte(
    b: BoiteVue,
    m: MagasinVue,
    comptes: Seq<CompteVue>,
    masques: bool,
    c: CompteVue,
    l: Seq<char>,
)
    requires
        comptes.contains(c),
        lignes_compte(b, m, c, masques).contains(l),
    ensures
        lignes_comptes(b, m, comptes, masques).contains(l),
    decreases comptes.len(),
{
    let t = comptes.drop_last();
    let avant = lignes_comptes(b, m, t, masques);
    let tout = lignes_comptes(b, m, comptes, masques);
    let i = choose|i: int| 0 <= i < comptes.len() && comptes[i] == c;
    if i == comptes.len() - 1 {
        let v = lignes_compte(b, m, c, masques);
        let k = choose|k: int| 0 <= k < v.len() && v[k] == l;
        assert(tout[avant.len() + k] == l);
    } else {
        assert(t[i] == c);
        lemme_du_compte(b, m, t, masques, c, l);
        let k = choose|k: int| 0 <= k < avant.len() && avant[k] == l;
        assert(tout[k] == l);
    }
}

proof fn lemme_unique(m: MagasinVue, c: CompteVue, x: CompteVue)
    requires
        valide(m),
        m.comptes.contains(c),
        m.comptes.contains(x),
        x.id == c.id,
    ensures
        x == c,
{
    let i = choose|i: int| 0 <= i < m.comptes.len() && m.comptes[i] == c;
    let j = choose|j: int| 0 <= j < m.comptes.len() && m.comptes[j] == x;
    if i < j {
        assert(cle_compte()(m.comptes[i]) != cle_compte()(m.comptes[j]));
    } else if j < i {
        assert(cle_compte()(m.comptes[j]) != cle_compte()(m.comptes[i]));
    }
}

/// Every account has its line in the tree, with its state, and every folder its own with
/// the address of its account, unless it is hidden or the account is folded; a favourite
/// has one more, among the favourites, folded account or not.
#[verifier::spinoff_prover]
#[verifier::rlimit(60)]
pub proof fn loi_arbre_complet(
    b: BoiteVue,
    m: MagasinVue,
    masques: bool,
    c: CompteVue,
    d: DossierLocalVue,
)
    requires
        valide(m),
        m.comptes.contains(c),
        m.dossiers.contains(d),
        d.compte_id == c.id,
    ensures
        ({
            let l = lignes_arbre(b, m, masques);
            &&& l.contains(ligne_compte(c, etat_de(b, c.id)))
            &&& !c.replie && (masques || !d.masque) ==> l.contains(
                dossier_json("dossier"@, d, c.adresse, d.profondeur),
            )
            &&& d.favori is Some && (masques || !d.masque) ==> l.contains(
                dossier_json("favori"@, d, c.adresse, 0),
            )
            &&& c.replie ==> lignes_compte(b, m, c, masques) == seq![
                ligne_compte(c, etat_de(b, c.id)),
            ]
        }),
{
    let comptes = comptes_montres(Some(m));
    let f = favoris_affiches(m.dossiers).filter(montre(masques));
    let tete = lignes_favoris(comptes, f);
    let corps = lignes_comptes(b, m, comptes, masques);
    let l = lignes_arbre(b, m, masques);
    lemme_trie_contient(m.comptes, ordre_comptes(), c);
    let v = lignes_compte(b, m, c, masques);
    let x = ligne_compte(c, etat_de(b, c.id));
    assert(v[0] == x);
    assert(v.contains(x));
    lemme_du_compte(b, m, comptes, masques, c, x);
    let k = choose|k: int| 0 <= k < corps.len() && corps[k] == x;
    assert(l[tete.len() + k] == x);
    if !c.replie && (masques || !d.masque) {
        let p = |e: DossierLocalVue| e.compte_id == c.id;
        let ds = dossiers_affiches(m.dossiers, c.id);
        lemme_filtre_contient(m.dossiers, p, d);
        lemme_trie_contient(m.dossiers.filter(p), ordre_affichage(), d);
        let y = dossier_json("dossier"@, d, c.adresse, d.profondeur);
        lemme_dossiers("dossier"@, ds, c.adresse, montre(masques), d);
        let w = lignes_dossiers("dossier"@, ds, c.adresse, montre(masques));
        let j = choose|j: int| 0 <= j < w.len() && w[j] == y;
        assert(v[1 + j] == y);
        assert(v.contains(y));
        lemme_du_compte(b, m, comptes, masques, c, y);
        let k = choose|k: int| 0 <= k < corps.len() && corps[k] == y;
        assert(l[tete.len() + k] == y);
    }
    if d.favori is Some && (masques || !d.masque) {
        let p = |e: DossierLocalVue| e.favori is Some;
        lemme_filtre_contient(m.dossiers, p, d);
        lemme_trie_contient(m.dossiers.filter(p), ordre_favoris(), d);
        lemme_filtre_contient(favoris_affiches(m.dossiers), montre(masques), d);
        let j = choose|j: int| 0 <= j < f.len() && f[j] == d;
        assert forall|z: CompteVue| #[trigger] comptes.contains(z) && z.id == c.id implies z
            == c by {
            lemme_trie_contient(m.comptes, ordre_comptes(), z);
            lemme_unique(m, c, z);
        }
        lemme_adresse(comptes, c);
        assert(tete[1 + j] == dossier_json("favori"@, d, c.adresse, 0));
        assert(l[1 + j] == tete[1 + j]);
    }
}

// -------------------------------------------------------------------------- targets

/// Whether a line is that of a folder that can receive a message: one that can be
/// opened, of an account that is connected, with the address of that account.
pub open spec fn ligne_de_cible(b: BoiteVue, m: MagasinVue, l: Seq<char>) -> bool {
    exists|c: CompteVue, d: DossierLocalVue|
        m.comptes.contains(c) && m.dossiers.contains(d) && d.compte_id == c.id && d.selectionnable
            && etat_de(b, c.id) == Etat::Pret && l == #[trigger] dossier_json(
            "cible"@,
            d,
            c.adresse,
            d.profondeur,
        )
}

proof fn lemme_cibles(b: BoiteVue, m: MagasinVue, comptes: Seq<CompteVue>, l: Seq<char>)
    requires
        forall|c: CompteVue| #[trigger] comptes.contains(c) ==> m.comptes.contains(c),
        lignes_cibles(b, m, comptes).contains(l),
    ensures
        ligne_de_cible(b, m, l),
    decreases comptes.len(),
{
    let c = comptes.last();
    let t = comptes.drop_last();
    let avant = lignes_cibles(b, m, t);
    let tout = lignes_cibles(b, m, comptes);
    assert(comptes.contains(comptes[comptes.len() - 1]));
    assert forall|x: CompteVue| #[trigger] t.contains(x) implies m.comptes.contains(x) by {
        let k = choose|k: int| 0 <= k < t.len() && t[k] == x;
        assert(comptes[k] == x);
        assert(comptes.contains(x));
    }
    let i = choose|i: int| 0 <= i < tout.len() && tout[i] == l;
    if i < avant.len() {
        assert(avant[i] == l);
        lemme_cibles(b, m, t, l);
    } else {
        let p = |e: DossierLocalVue| e.compte_id == c.id;
        let ds = dossiers_affiches(m.dossiers, c.id);
        let f = ds.filter(visable());
        let d = f[i - avant.len()];
        assert(f.contains(d));
        lemme_filtre_contient(ds, visable(), d);
        lemme_trie_contient(m.dossiers.filter(p), ordre_affichage(), d);
        lemme_filtre_contient(m.dossiers, p, d);
        assert(l == dossier_json("cible"@, d, c.adresse, d.profondeur));
    }
}

proof fn lemme_cible_presente(
    b: BoiteVue,
    m: MagasinVue,
    comptes: Seq<CompteVue>,
    c: CompteVue,
    d: DossierLocalVue,
)
    requires
        comptes.contains(c),
        m.dossiers.contains(d),
        d.compte_id == c.id,
        d.selectionnable,
        etat_de(b, c.id) == Etat::Pret,
    ensures
        lignes_cibles(b, m, comptes).contains(
            dossier_json("cible"@, d, c.adresse, d.profondeur),
        ),
    decreases comptes.len(),
{
    let l = dossier_json("cible"@, d, c.adresse, d.profondeur);
    let t = comptes.drop_last();
    let avant = lignes_cibles(b, m, t);
    let tout = lignes_cibles(b, m, comptes);
    let i = choose|i: int| 0 <= i < comptes.len() && comptes[i] == c;
    if i == comptes.len() - 1 {
        let p = |e: DossierLocalVue| e.compte_id == c.id;
        let ds = dossiers_affiches(m.dossiers, c.id);
        lemme_filtre_contient(m.dossiers, p, d);
        lemme_trie_contient(m.dossiers.filter(p), ordre_affichage(), d);
        lemme_dossiers("cible"@, ds, c.adresse, visable(), d);
        let w = lignes_dossiers("cible"@, ds, c.adresse, visable());
        let k = choose|k: int| 0 <= k < w.len() && w[k] == l;
        assert(tout[avant.len() + k] == l);
    } else {
        assert(t[i] == c);
        lemme_cible_presente(b, m, t, c, d);
        let k = choose|k: int| 0 <= k < avant.len() && avant[k] == l;
        assert(tout[k] == l);
    }
}

/// The folders that messages can be moved to are those that can be opened, of the
/// accounts that are connected: all of them, and no other.
pub proof fn loi_cibles(
    b: BoiteVue,
    m: MagasinVue,
    c: CompteVue,
    d: DossierLocalVue,
    l: Seq<char>,
)
    ensures
        ({
            let v = lignes_cibles(b, m, comptes_montres(Some(m)));
            &&& v.contains(l) ==> ligne_de_cible(b, m, l)
            &&& m.comptes.contains(c) && m.dossiers.contains(d) && d.compte_id == c.id
                && d.selectionnable && etat_de(b, c.id) == Etat::Pret ==> v.contains(
                dossier_json("cible"@, d, c.adresse, d.profondeur),
            )
        }),
{
    let comptes = comptes_montres(Some(m));
    assert forall|x: CompteVue| #[trigger] comptes.contains(x) implies m.comptes.contains(x) by {
        lemme_trie_contient(m.comptes, ordre_comptes(), x);
    }
    if lignes_cibles(b, m, comptes).contains(l) {
        lemme_cibles(b, m, comptes, l);
    }
    if m.comptes.contains(c) && m.dossiers.contains(d) && d.compte_id == c.id && d.selectionnable
        && etat_de(b, c.id) == Etat::Pret {
        lemme_trie_contient(m.comptes, ordre_comptes(), c);
        lemme_cible_presente(b, m, comptes, c, d);
    }
}

/// The messages that are shown are those of the open folder, with all their fields; none
/// where no folder is open.
pub proof fn loi_liste_du_courant(b: BoiteVue, m: MagasinVue, c: CourantVue)
    requires
        b.magasin == Some(m),
    ensures
        b.courant == Some(c) ==> liste_lue(messages_montres(b)) == Some(
            messages_affiches(m.messages, c.id).map_values(|x: MessageVue| champs_message(x)),
        ),
        b.courant is None ==> (liste_lue(messages_montres(b)) matches Some(l) && l.len() == 0),
{
    loi_messages_relus(messages_affiches(m.messages, c.id));
    reveal_strlit("[]");
    assert("[]"@ =~= seq!['[', ']']);
}

// ----------------------------------------------------------------------- favourites

/// The folder of a path is found by it.
proof fn lemme_par_chemin(m: MagasinVue, i: int)
    requires
        valide(m),
        0 <= i < m.dossiers.len(),
    ensures
        dossier_en(m.dossiers, m.dossiers[i].compte_id, m.dossiers[i].chemin) == Some(
            m.dossiers[i],
        ),
        dossier_numero(m.dossiers, m.dossiers[i].id) == Some(m.dossiers[i]),
{
    let d = m.dossiers[i];
    let p = |x: DossierLocalVue| x.compte_id == d.compte_id && x.chemin == d.chemin;
    let q = |x: DossierLocalVue| x.id == d.id;
    lemme_premier(m.dossiers, p);
    lemme_premier(m.dossiers, q);
    assert(p(m.dossiers[i]) && q(m.dossiers[i]));
    let a = dossier_en(m.dossiers, d.compte_id, d.chemin)->0;
    let j = choose|j: int| 0 <= j < m.dossiers.len() && m.dossiers[j] == a;
    if i < j {
        assert(cle_chemin()(m.dossiers[i]) != cle_chemin()(m.dossiers[j]));
    } else if j < i {
        assert(cle_chemin()(m.dossiers[j]) != cle_chemin()(m.dossiers[i]));
    }
    let e = dossier_numero(m.dossiers, d.id)->0;
    let k = choose|k: int| 0 <= k < m.dossiers.len() && m.dossiers[k] == e;
    if i < k {
        assert(cle_dossier()(m.dossiers[i]) != cle_dossier()(m.dossiers[k]));
    } else if k < i {
        assert(cle_dossier()(m.dossiers[k]) != cle_dossier()(m.dossiers[i]));
    }
}

/// The folder that is pinned or unpinned is the one of the path that was given: it joins
/// the favourites at their end, or leaves them; the others keep their order.
pub proof fn loi_epinglage(b: BoiteVue, m: MagasinVue, i: int, favori: bool)
    requires
        b.magasin == Some(m),
        valide(m),
        rangs_distincts(m.dossiers),
        0 <= i < m.dossiers.len(),
        epingle(m.dossiers, m.dossiers[i].id, favori) is Some,
    ensures
        ({
            let d = m.dossiers[i];
            let n = dossier_change(b, d.compte_id, d.chemin, epingle_en(favori));
            let autres = ids_dossiers(autres_favoris(m.dossiers, d.id));
            &&& n.effets == b.effets
            &&& n.magasin matches Some(o) && {
                &&& o.comptes == m.comptes && o.messages == m.messages && o.operations
                    == m.operations
                &&& ids_dossiers(favoris_affiches(o.dossiers)) == (if !favori {
                    autres
                } else if d.favori is Some {
                    ids_dossiers(favoris_affiches(m.dossiers))
                } else {
                    autres.push(d.id)
                })
            }
        }),
{
    lemme_par_chemin(m, i);
    loi_favori_epingle(m.dossiers, m.dossiers[i].id, favori);
}

/// The folder that is placed among the favourites is the one of the path that was given;
/// it stands just before the favourite of the other path, or at the end where there is
/// none.
pub proof fn loi_placement(b: BoiteVue, m: MagasinVue, i: int, j: int)
    requires
        b.magasin == Some(m),
        valide(m),
        rangs_distincts(m.dossiers),
        0 <= i < m.dossiers.len(),
        0 <= j < m.dossiers.len(),
        m.dossiers[j].chemin.len() > 0,
        favori_place(m.dossiers, m.dossiers[i].id, Some(m.dossiers[j].id)) is Some,
        favori_place(m.dossiers, m.dossiers[i].id, None) is Some,
    ensures
        ({
            let d = m.dossiers[i];
            let a = m.dossiers[j];
            let autres = ids_dossiers(autres_favoris(m.dossiers, d.id));
            &&& dossier_change(
                b,
                d.compte_id,
                d.chemin,
                place_avant(a.compte_id, a.chemin),
            ).magasin matches Some(o) && ids_dossiers(favoris_affiches(o.dossiers))
                == insere_avant(autres, d.id, Some(a.id))
            &&& dossier_change(
                b,
                d.compte_id,
                d.chemin,
                place_avant(a.compte_id, Seq::empty()),
            ).magasin matches Some(o) && ids_dossiers(favoris_affiches(o.dossiers))
                == autres.push(d.id)
        }),
{
    lemme_par_chemin(m, i);
    lemme_par_chemin(m, j);
    loi_favoris_places(m.dossiers, m.dossiers[i].id, Some(m.dossiers[j].id));
    loi_favoris_places(m.dossiers, m.dossiers[i].id, None);
}

} // verus!
