//! What the index gives back of what was noted in it, row by row.

use vstd::prelude::*;

use crate::coherence::{cle_chemin, cle_dossier, valide};
use crate::demandes::lemme_sans;
use crate::magasin::Etape;
use crate::protocole::EtatDossier;
use crate::synchro::{debut, marquage_note, ActionVue, EchecVue, SuiteVue};
use crate::tables::{
    compte_de, compte_mis_a_jour, compte_numero, compte_retire, dans_intervalles, dans_uids,
    dossier_en, dossier_numero, du_compte, etat_pose, ids_comptes, ids_dossiers, ids_operations,
    lemme_plus_grand, lemme_premier, lemme_trie, marquage, masquage, message_en, operation_avancee,
    operation_en_echec, operations_de, ordre_faible, ordre_operations, orphelin, sans, suivant,
    uids_connus, CompteVue, DossierLocalVue, LigneVue, MagasinVue, MessageVue, OperationVue,
};

verus! {

// -------------------------------------------------------------------------- lookups

/// An account is found by its address or by its number: what is found is a row that has
/// it, and something is found wherever there is one.
pub proof fn loi_compte_trouve(t: Seq<CompteVue>, adresse: Seq<char>, id: i64, i: int)
    ensures
        compte_de(t, adresse) matches Some(c) ==> t.contains(c) && c.adresse == adresse,
        compte_numero(t, id) matches Some(c) ==> t.contains(c) && c.id == id,
        0 <= i < t.len() && t[i].adresse == adresse ==> compte_de(t, adresse) is Some,
        0 <= i < t.len() && t[i].id == id ==> compte_numero(t, id) is Some,
{
    lemme_premier(t, |c: CompteVue| c.adresse == adresse);
    lemme_premier(t, |c: CompteVue| c.id == id);
}

/// A folder is found by its account and its path, or by its number.
pub proof fn loi_dossier_trouve(
    t: Seq<DossierLocalVue>,
    compte: i64,
    chemin: Seq<char>,
    id: i64,
    i: int,
)
    ensures
        dossier_en(t, compte, chemin) matches Some(d) ==> t.contains(d) && d.compte_id == compte
            && d.chemin == chemin,
        dossier_numero(t, id) matches Some(d) ==> t.contains(d) && d.id == id,
        0 <= i < t.len() && t[i].compte_id == compte && t[i].chemin == chemin ==> dossier_en(
            t,
            compte,
            chemin,
        ) is Some,
        0 <= i < t.len() && t[i].id == id ==> dossier_numero(t, id) is Some,
{
    lemme_premier(t, |d: DossierLocalVue| d.compte_id == compte && d.chemin == chemin);
    lemme_premier(t, |d: DossierLocalVue| d.id == id);
}

/// A message is found by its folder and its UID.
pub proof fn loi_message_trouve(t: Seq<LigneVue>, dossier: i64, uid: u32, i: int)
    ensures
        message_en(t, dossier, uid) matches Some(l) ==> t.contains(l) && l.dossier == dossier
            && l.message.uid == uid,
        0 <= i < t.len() && t[i].dossier == dossier && t[i].message.uid == uid ==> message_en(
            t,
            dossier,
            uid,
        ) is Some,
{
    lemme_premier(t, |l: LigneVue| l.dossier == dossier && l.message.uid == uid);
}

/// The number that a new row gets is that of no row.
pub proof fn loi_numero_neuf(m: MagasinVue, i: int)
    ensures
        0 <= i < m.comptes.len() ==> m.comptes[i].id < suivant(ids_comptes(m.comptes)),
        0 <= i < m.dossiers.len() ==> m.dossiers[i].id < suivant(ids_dossiers(m.dossiers)),
        0 <= i < m.operations.len() ==> m.operations[i].id < suivant(ids_operations(m.operations)),
{
    lemme_plus_grand(ids_comptes(m.comptes));
    lemme_plus_grand(ids_dossiers(m.dossiers));
    lemme_plus_grand(ids_operations(m.operations));
    if 0 <= i < m.comptes.len() {
        assert(ids_comptes(m.comptes)[i] == m.comptes[i].id);
    }
    if 0 <= i < m.dossiers.len() {
        assert(ids_dossiers(m.dossiers)[i] == m.dossiers[i].id);
    }
    if 0 <= i < m.operations.len() {
        assert(ids_operations(m.operations)[i] == m.operations[i].id);
    }
}

/// The UIDs known in a folder are those of its messages, and no others.
pub proof fn loi_uids_connus(t: Seq<LigneVue>, dossier: i64, uid: u32)
    ensures
        uids_connus(t, dossier).contains(uid) <==> exists|i: int|
            0 <= i < t.len() && (#[trigger] t[i]).dossier == dossier && t[i].message.uid == uid,
{
    broadcast use vstd::seq_lib::group_filter_ensures;

    let p = |l: LigneVue| l.dossier == dossier;
    let f = t.filter(p);
    let u = uids_connus(t, dossier);
    if u.contains(uid) {
        let k = choose|k: int| 0 <= k < u.len() && u[k] == uid;
        assert(f[k].message.uid == uid);
        assert(f.contains(f[k]));
        t.lemma_filter_contains_rev(p, f[k]);
        t.lemma_filter_pred(p, k);
        let i = choose|i: int| 0 <= i < t.len() && t[i] == f[k];
        assert(t[i].dossier == dossier);
    }
    if exists|i: int|
        0 <= i < t.len() && (#[trigger] t[i]).dossier == dossier && t[i].message.uid == uid {
        let i = choose|i: int|
            0 <= i < t.len() && (#[trigger] t[i]).dossier == dossier && t[i].message.uid == uid;
        assert(p(t[i]));
        assert(f.contains(t[i]));
        let k = choose|k: int| 0 <= k < f.len() && f[k] == t[i];
        assert(u[k] == uid);
    }
}

// ------------------------------------------------------------------------- accounts

/// An account that is known keeps its number and its place, and gets the server that it
/// is told of; the others stay as they are.
pub proof fn loi_compte_mis_a_jour(
    t: Seq<CompteVue>,
    adresse: Seq<char>,
    hote: Seq<char>,
    port: u16,
    utilisateur: Seq<char>,
    i: int,
)
    requires
        0 <= i < t.len(),
    ensures
        ({
            let c = t.map_values(compte_mis_a_jour(adresse, hote, port, utilisateur))[i];
            &&& c.id == t[i].id && c.adresse == t[i].adresse && c.replie == t[i].replie
            &&& t[i].adresse == adresse ==> c.hote == hote && c.port == port && c.utilisateur
                == utilisateur
            &&& t[i].adresse != adresse ==> c == t[i]
        }),
{
}

/// An account that leaves takes with it its folders, their messages and the moves from
/// or to it, and nothing else.
pub proof fn loi_compte_retire(
    m: MagasinVue,
    id: i64,
    c: CompteVue,
    d: DossierLocalVue,
    l: LigneVue,
    o: OperationVue,
)
    requires
        exists|i: int| 0 <= i < m.comptes.len() && (#[trigger] m.comptes[i]).id == id,
    ensures
        ({
            let n = compte_retire(m, id);
            &&& n.comptes.contains(c) <==> m.comptes.contains(c) && c.id != id
            &&& n.dossiers.contains(d) <==> m.dossiers.contains(d) && d.compte_id != id
            &&& n.operations.contains(o) <==> m.operations.contains(o) && o.compte_source != id
                && o.compte_cible != id
            &&& n.messages.contains(l) <==> m.messages.contains(l) && !exists|i: int|
                0 <= i < m.dossiers.len() && (#[trigger] m.dossiers[i]).compte_id == id
                    && m.dossiers[i].id == l.dossier
        }),
{
    lemme_premier(m.comptes, |x: CompteVue| x.id == id);
    lemme_sans(m.comptes, |x: CompteVue| x.id == id, c);
    lemme_sans(m.dossiers, du_compte(id), d);
    lemme_sans(m.messages, orphelin(m.dossiers, du_compte(id)), l);
    lemme_sans(
        m.operations,
        |x: OperationVue| x.compte_source == id || x.compte_cible == id,
        o,
    );
}

// -------------------------------------------------------------------------- folders

/// Hiding a folder, or showing it again, changes that alone, of that folder alone.
pub proof fn loi_masque_note(t: Seq<DossierLocalVue>, dossier: i64, masque: bool, i: int)
    requires
        0 <= i < t.len(),
    ensures
        ({
            let u = t.map_values(masquage(dossier, masque));
            &&& u.len() == t.len()
            &&& t[i].id == dossier ==> u[i].masque == masque
            &&& t[i].id != dossier ==> u[i].masque == t[i].masque
            &&& u[i] == (DossierLocalVue { masque: u[i].masque, ..t[i] })
        }),
{
}

/// A state that is noted is the one that is read back; a folder that the server made
/// anew has no message left from before, and the others keep theirs.
pub proof fn loi_etat_note(m: MagasinVue, dossier: i64, etat: EtatDossier, i: int, l: LigneVue)
    requires
        0 <= i < m.dossiers.len(),
        forall|a: int, b: int|
            0 <= a < b < m.dossiers.len() ==> (#[trigger] m.dossiers[a]).id != (
            #[trigger] m.dossiers[b]).id,
    ensures
        ({
            let n = etat_pose(m, dossier, etat);
            let d = n.dossiers[i];
            &&& n.dossiers.len() == m.dossiers.len()
            &&& m.dossiers[i].id != dossier ==> d == m.dossiers[i]
            &&& m.dossiers[i].id == dossier ==> {
                &&& d.uid_validity == etat.uid_validity
                &&& d.uid_next == etat.uid_next
                &&& d.highest_mod_seq == etat.highest_mod_seq
                &&& d == (DossierLocalVue {
                    uid_validity: d.uid_validity,
                    uid_next: d.uid_next,
                    highest_mod_seq: d.highest_mod_seq,
                    ..m.dossiers[i]
                })
                &&& n.messages.contains(l) <==> m.messages.contains(l) && !(l.dossier == dossier
                    && m.dossiers[i].uid_validity != 0 && m.dossiers[i].uid_validity
                    != etat.uid_validity)
            }
        }),
{
    if m.dossiers[i].id == dossier {
        lemme_premier(m.dossiers, |d: DossierLocalVue| d.id == dossier);
        let x = dossier_numero(m.dossiers, dossier)->0;
        let k = choose|k: int| 0 <= k < m.dossiers.len() && m.dossiers[k] == x;
        assert(k == i) by {
            if k < i {
                assert(m.dossiers[k].id != m.dossiers[i].id);
            }
            if i < k {
                assert(m.dossiers[i].id != m.dossiers[k].id);
            }
        }
        lemme_sans(m.messages, |l: LigneVue| l.dossier == dossier, l);
    }
}

// ------------------------------------------------------------------------- messages

/// Marking messages changes whether they are read, and nothing else; no other message
/// changes.
pub proof fn loi_marque_note(t: Seq<LigneVue>, dossier: i64, uids: Seq<u32>, lu: bool, i: int)
    requires
        0 <= i < t.len(),
    ensures
        ({
            let u = t.map_values(marquage(dossier, uids, lu));
            &&& u.len() == t.len()
            &&& u[i].dossier == t[i].dossier
            &&& u[i].message == (MessageVue { lu: u[i].message.lu, ..t[i].message })
            &&& u[i].message.lu == (if t[i].dossier == dossier && uids.contains(
                t[i].message.uid,
            ) {
                lu
            } else {
                t[i].message.lu
            })
        }),
{
}

/// Messages that vanished are no longer in the index; all others are.
pub proof fn loi_intervalles_retires(
    t: Seq<LigneVue>,
    dossier: i64,
    v: Seq<(u32, u32)>,
    uids: Seq<u32>,
    l: LigneVue,
)
    ensures
        sans(t, dans_intervalles(dossier, v)).contains(l) <==> t.contains(l) && !(l.dossier
            == dossier && exists|i: int|
            0 <= i < v.len() && (#[trigger] v[i]).0 <= l.message.uid <= v[i].1),
        sans(t, dans_uids(dossier, uids)).contains(l) <==> t.contains(l) && !(l.dossier == dossier
            && uids.contains(l.message.uid)),
{
    lemme_sans(t, dans_intervalles(dossier, v), l);
    lemme_sans(t, dans_uids(dossier, uids), l);
}

// ----------------------------------------------------------------------- operations

/// A step that is noted is the one that is read back, and wipes the error of the step
/// before; a failure that is noted leaves the step; no other move changes.
pub proof fn loi_operation_notee(
    t: Seq<OperationVue>,
    id: i64,
    etape: Etape,
    texte: Seq<char>,
    i: int,
)
    requires
        0 <= i < t.len(),
    ensures
        ({
            let a = t.map_values(operation_avancee(id, etape))[i];
            let e = t.map_values(operation_en_echec(id, texte))[i];
            &&& t[i].id != id ==> a == t[i] && e == t[i]
            &&& t[i].id == id ==> a.etape == etape && a.erreur.len() == 0 && e.etape == t[i].etape
                && e.erreur == texte
            &&& a == (OperationVue { etape: a.etape, erreur: a.erreur, ..t[i] })
            &&& e == (OperationVue { erreur: e.erreur, ..t[i] })
        }),
{
}

/// A move that is closed is no longer under way; the others are.
pub proof fn loi_operation_close(t: Seq<OperationVue>, id: i64, o: OperationVue)
    ensures
        sans(t, |x: OperationVue| x.id == id).contains(o) <==> t.contains(o) && o.id != id,
{
    lemme_sans(t, |x: OperationVue| x.id == id, o);
}

/// The moves to resume for an account are those that leave from it, each once, in the
/// order in which they were noted.
pub proof fn loi_operations_a_reprendre(
    t: Seq<OperationVue>,
    compte: i64,
    o: OperationVue,
    i: int,
    j: int,
)
    ensures
        ({
            let r = operations_de(t, compte);
            &&& r.contains(o) <==> t.contains(o) && o.compte_source == compte
            &&& 0 <= i < j < r.len() ==> r[i].id <= r[j].id
            &&& r.to_multiset() == t.filter(
                |x: OperationVue| x.compte_source == compte,
            ).to_multiset()
        }),
{
    broadcast use vstd::seq_lib::group_filter_ensures;
    broadcast use vstd::seq_lib::group_to_multiset_ensures;

    let p = |x: OperationVue| x.compte_source == compte;
    let f = t.filter(p);
    let r = operations_de(t, compte);
    lemme_trie(f, ordre_operations());
    assert(ordre_faible(ordre_operations()));
    assert(r.contains(o) <==> r.to_multiset().count(o) > 0);
    assert(f.contains(o) <==> f.to_multiset().count(o) > 0);
    if 0 <= i < j < r.len() {
        assert(!ordre_operations()(r[j], r[i]));
    }
    if t.contains(o) && p(o) {
        assert(f.contains(o));
    }
    if f.contains(o) {
        t.lemma_filter_contains_rev(p, o);
        let k = choose|k: int| 0 <= k < f.len() && f[k] == o;
        t.lemma_filter_pred(p, k);
    }
}

// ------------------------------------------------------------------ synchronisation

proof fn lemme_seul(m: MagasinVue, i: int)
    requires
        valide(m),
        0 <= i < m.dossiers.len(),
    ensures
        dossier_en(m.dossiers, m.dossiers[i].compte_id, m.dossiers[i].chemin) == Some(
            m.dossiers[i],
        ),
        dossier_numero(m.dossiers, m.dossiers[i].id) == Some(m.dossiers[i]),
{
    let d = m.dossiers[i];
    loi_dossier_trouve(m.dossiers, d.compte_id, d.chemin, d.id, i);
    let a = dossier_en(m.dossiers, d.compte_id, d.chemin)->0;
    let j = choose|j: int| 0 <= j < m.dossiers.len() && m.dossiers[j] == a;
    if i < j {
        assert(cle_chemin()(m.dossiers[i]) != cle_chemin()(m.dossiers[j]));
    } else if j < i {
        assert(cle_chemin()(m.dossiers[j]) != cle_chemin()(m.dossiers[i]));
    }
    let e = dossier_numero(m.dossiers, d.id)->0;
    let k = choose|k: int| 0 <= k < m.dossiers.len() && m.dossiers[k] == e;
    if i < k {
        assert(cle_dossier()(m.dossiers[i]) != cle_dossier()(m.dossiers[k]));
    } else if k < i {
        assert(cle_dossier()(m.dossiers[k]) != cle_dossier()(m.dossiers[i]));
    }
}

/// The synchronisation of a folder starts by opening it: from the state that the index
/// holds of the last visit, or without one where there was none. A folder that is not in
/// the index is an error.
pub proof fn loi_visite_entamee(m: MagasinVue, i: int, compte: i64, chemin: Seq<char>)
    requires
        valide(m),
        0 <= i < m.dossiers.len(),
    ensures
        ({
            let d = m.dossiers[i];
            debut(m, d.compte_id, d.chemin) matches SuiteVue::Demander(s, a) && {
                &&& s.id == d.id
                &&& a == ActionVue::Selectionner(
                    d.chemin,
                    if d.uid_validity == 0 {
                        None
                    } else {
                        Some((d.uid_validity, d.highest_mod_seq))
                    },
                )
            }
        }),
        (forall|k: int|
            0 <= k < m.dossiers.len() ==> !((#[trigger] m.dossiers[k]).compte_id == compte
                && m.dossiers[k].chemin == chemin)) ==> (debut(m, compte, chemin)
            matches SuiteVue::Fini(Err(EchecVue::Index(_)))),
{
    lemme_seul(m, i);
    lemme_premier(m.dossiers, |d: DossierLocalVue| d.compte_id == compte && d.chemin == chemin);
}

/// Once the server has marked messages, the index has them so, in the folder of that
/// path alone, and the unread messages of the folder are counted again.
pub proof fn loi_marquage_note(m: MagasinVue, i: int, uids: Seq<u32>, lu: bool, k: int)
    requires
        valide(m),
        0 <= i < m.dossiers.len(),
        0 <= k < m.messages.len(),
        m.messages.len() <= u32::MAX,
    ensures
        ({
            let d = m.dossiers[i];
            let (n, r) = marquage_note(m, d.compte_id, d.chemin, uids, lu);
            let l = m.messages[k];
            &&& r == Ok::<(), EchecVue>(())
            &&& n.messages.len() == m.messages.len()
            &&& n.messages[k].dossier == l.dossier
            &&& n.messages[k].message == (MessageVue {
                lu: if l.dossier == d.id && uids.contains(l.message.uid) {
                    lu
                } else {
                    l.message.lu
                },
                ..l.message
            })
            &&& n.dossiers[i].non_lus == n.messages.filter(
                |x: LigneVue| x.dossier == d.id && !x.message.lu,
            ).len()
            &&& n.comptes == m.comptes && n.operations == m.operations
        }),
{
    let d = m.dossiers[i];
    lemme_seul(m, i);
    let t = m.messages.map_values(marquage(d.id, uids, lu));
    t.lemma_filter_len(|x: LigneVue| x.dossier == d.id);
    t.lemma_filter_len(|x: LigneVue| x.dossier == d.id && !x.message.lu);
}

} // verus!
