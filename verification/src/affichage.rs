//! What the interface is given to show: rows of the index in their order, the lines that
//! headers make, folders with what the server says of them, bodies and attachments.

use vstd::prelude::*;

use crate::coherence::loi_dossiers_en_ordre;
use crate::courrier::{CorpsLuVue, EntetesLusVue, PieceLueVue};
use crate::dates::instant;
use crate::deplacement::lemme_chiffres_coupes;
use crate::html::html_en_texte;
use crate::index::{
    corps_montre, extension_de_type, interdit, ligne_lue, nom_assaini, nom_borne, nom_par_defaut,
    nom_propre, nom_reserve, piece_extraite, pieces_montrees, risque, sans_bord_debut,
    sans_bord_fin, type_mime_de,
};
use crate::nombre::{decimal, lemme_decimal};
use crate::protocole::{
    attribut_sans_messages, compte_de, ouvrable, profondeur_de, role_attribut, role_de, DossierVue,
    EnteteVue, StatutVue,
};
use crate::tables::{
    arborescence_posee, compteurs_poses, disparu, dossier_annonce, dossier_en, dossiers_affiches,
    dossiers_poses, favoris_affiches, lemme_premier, lemme_trie, message_pose, messages_affiches,
    messages_de, operations_de, ordre_comptes, ordre_faible, ordre_favoris, ordre_messages,
    ordre_operations, premier, trie, CompteVue, DossierLocalVue, LigneVue, MagasinVue, MessageVue,
    OperationVue,
};
use crate::texte::{dernier_champ, minuscules};

verus! {

// -------------------------------------------------------------------------- orders

/// A sorted list holds the rows that were sorted, and no other.
pub proof fn lemme_trie_contient<A>(s: Seq<A>, avant: spec_fn(A, A) -> bool, x: A)
    ensures
        trie(s, avant).contains(x) <==> s.contains(x),
        trie(s, avant).len() == s.len(),
{
    broadcast use vstd::seq_lib::group_to_multiset_ensures;

    lemme_trie(s, avant);
    let t = trie(s, avant);
    if s.contains(x) {
        assert(s.to_multiset().count(x) > 0);
        assert(t.contains(x));
    }
    if t.contains(x) {
        assert(t.to_multiset().count(x) > 0);
        assert(s.contains(x));
    }
}

pub proof fn lemme_filtre_contient<A>(s: Seq<A>, p: spec_fn(A) -> bool, x: A)
    ensures
        s.filter(p).contains(x) <==> s.contains(x) && p(x),
{
    if s.filter(p).contains(x) {
        s.lemma_filter_contains_rev(p, x);
        let i = choose|i: int| 0 <= i < s.filter(p).len() && s.filter(p)[i] == x;
        s.lemma_filter_pred(p, i);
    }
    if s.contains(x) && p(x) {
        let i = choose|i: int| 0 <= i < s.len() && s[i] == x;
        s.lemma_filter_contains(p, i);
    }
}

/// The messages that are shown of a folder are its own, all of them, the latest
/// received first; of two received at the same time, the one with the higher UID.
pub proof fn loi_messages_montres(t: Seq<LigneVue>, dossier: i64, m: MessageVue, i: int, j: int)
    ensures
        ({
            let v = messages_affiches(t, dossier);
            &&& v.contains(m) <==> t.contains(LigneVue { dossier, message: m })
            &&& 0 <= i < j < v.len() ==> v[i].horodatage >= v[j].horodatage && (v[i].horodatage
                == v[j].horodatage ==> v[i].uid >= v[j].uid)
        }),
{
    let o = ordre_messages();
    let v = messages_affiches(t, dossier);
    assert(ordre_faible(o));
    let d = messages_de(t, dossier);
    lemme_trie(d, o);
    lemme_trie_contient(d, o, m);
    let p = |l: LigneVue| l.dossier == dossier;
    let f = t.filter(p);
    let x = LigneVue { dossier, message: m };
    lemme_filtre_contient(t, p, x);
    if d.contains(m) {
        let k = choose|k: int| 0 <= k < d.len() && d[k] == m;
        assert(f[k].message == m);
        t.lemma_filter_pred(p, k);
        assert(f[k] == x);
        assert(f.contains(x));
    }
    if f.contains(x) {
        let k = choose|k: int| 0 <= k < f.len() && f[k] == x;
        assert(d[k] == m);
    }
    if 0 <= i < j < v.len() {
        assert(!o(v[j], v[i]));
    }
}

/// The favourites are shown in the order of their ranks, all of them, whatever their
/// account.
pub proof fn loi_favoris_montres(t: Seq<DossierLocalVue>, d: DossierLocalVue, i: int, j: int)
    ensures
        ({
            let v = favoris_affiches(t);
            &&& v.contains(d) <==> t.contains(d) && d.favori is Some
            &&& 0 <= i < j < v.len() ==> v[i].favori is Some && v[j].favori is Some && v[i].favori->0
                <= v[j].favori->0
        }),
{
    let o = ordre_favoris();
    let p = |d: DossierLocalVue| d.favori is Some;
    let f = t.filter(p);
    let v = favoris_affiches(t);
    assert(ordre_faible(o));
    lemme_trie(f, o);
    lemme_trie_contient(f, o, d);
    lemme_filtre_contient(t, p, d);
    if 0 <= i < j < v.len() {
        assert(!o(v[j], v[i]));
        assert(v.contains(v[i]) && v.contains(v[j]));
        lemme_trie_contient(f, o, v[i]);
        lemme_trie_contient(f, o, v[j]);
        lemme_filtre_contient(t, p, v[i]);
        lemme_filtre_contient(t, p, v[j]);
    }
}

/// The folders of an account are shown all, and no other: `INBOX` before all, then
/// those with a role, then the others.
pub proof fn loi_dossiers_montres(
    t: Seq<DossierLocalVue>,
    compte: i64,
    d: DossierLocalVue,
    i: int,
    j: int,
)
    ensures
        ({
            let v = dossiers_affiches(t, compte);
            let inbox = seq!['I', 'N', 'B', 'O', 'X'];
            &&& v.contains(d) <==> t.contains(d) && d.compte_id == compte
            &&& 0 <= i < j < v.len() && v[j].chemin == inbox ==> v[i].chemin == inbox
            &&& 0 <= i < j < v.len() && v[i].chemin != inbox && v[j].role.len() > 0
                ==> v[i].role.len() > 0
        }),
{
    reveal_strlit("INBOX");
    let inbox = seq!['I', 'N', 'B', 'O', 'X'];
    assert("INBOX"@ =~= inbox);
    let o = crate::tables::ordre_affichage();
    let p = |d: DossierLocalVue| d.compte_id == compte;
    lemme_trie_contient(t.filter(p), o, d);
    lemme_filtre_contient(t, p, d);
    loi_dossiers_en_ordre(t, compte);
    let v = dossiers_affiches(t, compte);
    if 0 <= i < j < v.len() {
        assert(!o(v[j], v[i]));
    }
}

/// The accounts are shown in the order in which they were added, and the moves of an
/// account are resumed in the order in which they were registered.
pub proof fn loi_ordre_d_arrivee(
    comptes: Seq<CompteVue>,
    c: CompteVue,
    operations: Seq<OperationVue>,
    compte: i64,
    o: OperationVue,
    i: int,
    j: int,
)
    ensures
        ({
            let v = crate::boite::comptes_montres(
                Some(
                    MagasinVue {
                        comptes,
                        dossiers: Seq::empty(),
                        messages: Seq::empty(),
                        operations,
                    },
                ),
            );
            &&& v.contains(c) <==> comptes.contains(c)
            &&& 0 <= i < j < v.len() ==> v[i].id <= v[j].id
        }),
        ({
            let v = operations_de(operations, compte);
            &&& v.contains(o) <==> operations.contains(o) && o.compte_source == compte
            &&& 0 <= i < j < v.len() ==> v[i].id <= v[j].id
        }),
{
    let a = ordre_comptes();
    let b = ordre_operations();
    assert(ordre_faible(a));
    assert(ordre_faible(b));
    lemme_trie(comptes, a);
    lemme_trie_contient(comptes, a, c);
    let p = |x: OperationVue| x.compte_source == compte;
    lemme_trie(operations.filter(p), b);
    lemme_trie_contient(operations.filter(p), b, o);
    lemme_filtre_contient(operations, p, o);
    let v = trie(comptes, a);
    let w = operations_de(operations, compte);
    if 0 <= i < j < v.len() {
        assert(!a(v[j], v[i]));
    }
    if 0 <= i < j < w.len() {
        assert(!b(w[j], w[i]));
    }
}

// --------------------------------------------------------------------------- lines

/// What headers make of a line of the index: its UID and its size are those of the
/// server, it is read or answered exactly if the server says so, it is sorted by the
/// date of reception where there is one, else by that of the header, and it shows the
/// subject, the sender and the date that the header gives.
pub proof fn loi_ligne_des_entetes(e: EnteteVue, lus: EntetesLusVue)
    ensures
        ({
            let m = ligne_lue(e, Some(lus));
            &&& m.uid == e.uid
            &&& m.taille == e.taille
            &&& m.lu <==> e.drapeaux.contains(seq!['\\', 'S', 'e', 'e', 'n'])
            &&& m.repondu <==> e.drapeaux.contains(
                seq!['\\', 'A', 'n', 's', 'w', 'e', 'r', 'e', 'd'],
            )
            &&& (instant(e.date_interne) is Some && i64::MIN <= instant(e.date_interne)->0 <= i64::MAX)
                ==> m.horodatage == instant(e.date_interne)->0
            &&& instant(e.date_interne) is None ==> m.horodatage == (match lus.date {
                Some((_, n)) => n,
                None => 0,
            })
            &&& lus.sujet matches Some(s) ==> m.sujet == s
            &&& m.sujet.len() == 0 ==> lus.sujet is Some
            &&& lus.message_id matches Some(s) ==> m.message_id == s
            &&& lus.message_id is None ==> m.message_id.len() == 0
            &&& lus.date matches Some((d, _)) ==> m.date == d
            &&& lus.date is None ==> m.date == e.date_interne
            &&& (lus.expediteurs is Some && lus.expediteurs->0.len() > 0) ==> {
                let c = (lus.expediteurs->0)[0];
                &&& c.adresse matches Some(a) ==> m.adresse == a
                &&& (c.nom is Some && c.nom->0.len() > 0) ==> m.expediteur == c.nom->0
                &&& (c.nom is None || c.nom->0.len() == 0) ==> m.expediteur == m.adresse
            }
        }),
        ({
            let m = ligne_lue(e, None);
            &&& m.uid == e.uid
            &&& m.taille == e.taille
            &&& m.lu == ligne_lue(e, Some(lus)).lu
            &&& m.repondu == ligne_lue(e, Some(lus)).repondu
            &&& m.sujet.len() > 0
            &&& (instant(e.date_interne) is Some && i64::MIN <= instant(e.date_interne)->0 <= i64::MAX)
                ==> m.horodatage == instant(e.date_interne)->0
        }),
{
    reveal_strlit("\\Seen");
    reveal_strlit("\\Answered");
    reveal_strlit("(sans objet)");
    reveal_strlit("(message illisible)");
    assert("\\Seen"@ =~= seq!['\\', 'S', 'e', 'e', 'n']);
    assert("\\Answered"@ =~= seq!['\\', 'A', 'n', 's', 'w', 'e', 'r', 'e', 'd']);
}

/// A message that is put in a folder is there once, as it was given where it is new;
/// where it was there, only whether it is read and answered follows the server. No
/// other row changes.
pub proof fn loi_message_pose(t: Seq<LigneVue>, dossier: i64, m: MessageVue, i: int)
    ensures
        ({
            let u = message_pose(t, dossier, m);
            &&& (forall|k: int|
                0 <= k < t.len() ==> !((#[trigger] t[k]).dossier == dossier && t[k].message.uid
                    == m.uid)) ==> u == t.push(LigneVue { dossier, message: m })
            &&& (exists|k: int|
                0 <= k < t.len() && (#[trigger] t[k]).dossier == dossier && t[k].message.uid
                    == m.uid) ==> u.len() == t.len()
            &&& 0 <= i < t.len() ==> u[i] == if t[i].dossier == dossier && t[i].message.uid
                == m.uid {
                LigneVue {
                    dossier,
                    message: MessageVue { lu: m.lu, repondu: m.repondu, ..t[i].message },
                }
            } else {
                t[i]
            }
        }),
{
    let p = |l: LigneVue| l.dossier == dossier && l.message.uid == m.uid;
    lemme_premier(t, p);
    if let Some(l) = premier(t, p) {
        let k = choose|k: int| 0 <= k < t.len() && t[k] == l;
        assert(t[k].dossier == dossier && t[k].message.uid == m.uid);
    } else {
        assert forall|k: int| 0 <= k < t.len() implies !((#[trigger] t[k]).dossier == dossier
            && t[k].message.uid == m.uid) by {
            assert(!p(t[k]));
        }
    }
}

// ------------------------------------------------------------------------- folders

/// The roles that a server may give to a folder.
pub open spec fn un_role(r: Seq<char>) -> bool {
    ||| r == "Sent"@
    ||| r == "Drafts"@
    ||| r == "Trash"@
    ||| r == "Junk"@
    ||| r == "Archive"@
    ||| r == "All"@
    ||| r == "Flagged"@
}

proof fn lemme_role(a: Seq<char>, r: Seq<char>)
    ensures
        role_attribut(a) == Some(r) <==> un_role(r) && a == seq!['\\'] + r,
{
    reveal_strlit("Sent");
    reveal_strlit("\\Sent");
    reveal_strlit("Drafts");
    reveal_strlit("\\Drafts");
    reveal_strlit("Trash");
    reveal_strlit("\\Trash");
    reveal_strlit("Junk");
    reveal_strlit("\\Junk");
    reveal_strlit("Archive");
    reveal_strlit("\\Archive");
    reveal_strlit("All");
    reveal_strlit("\\All");
    reveal_strlit("Flagged");
    reveal_strlit("\\Flagged");
    assert("\\Sent"@ =~= seq!['\\'] + "Sent"@);
    assert("\\Drafts"@ =~= seq!['\\'] + "Drafts"@);
    assert("\\Trash"@ =~= seq!['\\'] + "Trash"@);
    assert("\\Junk"@ =~= seq!['\\'] + "Junk"@);
    assert("\\Archive"@ =~= seq!['\\'] + "Archive"@);
    assert("\\All"@ =~= seq!['\\'] + "All"@);
    assert("\\Flagged"@ =~= seq!['\\'] + "Flagged"@);
    assert("\\Sent"@[1] == 'S' && "\\Drafts"@[1] == 'D' && "\\Trash"@[1] == 'T');
    assert("\\Junk"@[1] == 'J' && "\\Flagged"@[1] == 'F');
    assert("\\Archive"@[1] == 'A' && "\\All"@[1] == 'A');
    assert("\\Archive"@[2] == 'r' && "\\All"@[2] == 'l');
    if un_role(r) && a == seq!['\\'] + r {
        assert(a[1] == r[0]);
        assert(a.drop_first() =~= r);
    }
    if role_attribut(a) == Some(r) {
        assert(a =~= seq!['\\'] + r);
    }
}

/// The role of a folder is the first one that its attributes give it; an attribute
/// gives a role exactly if it is the name of one behind a backslash.
pub proof fn loi_role(attributs: Seq<Seq<char>>, k: int, r: Seq<char>)
    requires
        0 <= k < attributs.len(),
        forall|i: int, x: Seq<char>|
            0 <= i < k && un_role(x) ==> #[trigger] attributs[i] != #[trigger] (seq!['\\'] + x),
        un_role(r),
        attributs[k] == seq!['\\'] + r,
    ensures
        role_de(attributs) == Some(r),
    decreases k,
{
    lemme_role(attributs[0], r);
    if k == 0 {
    } else {
        if let Some(x) = role_attribut(attributs[0]) {
            lemme_role(attributs[0], x);
            assert(attributs[0] == seq!['\\'] + x);
        }
        let v = attributs.drop_first();
        assert forall|i: int, x: Seq<char>| 0 <= i < k - 1 && un_role(x) implies #[trigger] v[i]
            != #[trigger] (seq!['\\'] + x) by {
            assert(v[i] == attributs[i + 1]);
        }
        loi_role(v, k - 1, r);
    }
}

/// A folder none of whose attributes is a role has none.
pub proof fn loi_sans_role(attributs: Seq<Seq<char>>)
    requires
        forall|i: int, x: Seq<char>|
            0 <= i < attributs.len() && un_role(x) ==> #[trigger] attributs[i] != #[trigger] (seq![
                '\\',
            ] + x),
    ensures
        role_de(attributs) is None,
    decreases attributs.len(),
{
    if attributs.len() > 0 {
        if let Some(x) = role_attribut(attributs[0]) {
            lemme_role(attributs[0], x);
            assert(attributs[0] == seq!['\\'] + x);
        }
        let v = attributs.drop_first();
        assert forall|i: int, x: Seq<char>| 0 <= i < v.len() && un_role(x) implies #[trigger] v[i]
            != #[trigger] (seq!['\\'] + x) by {
            assert(v[i] == attributs[i + 1]);
        }
        loi_sans_role(v);
    }
}

/// A folder can be opened unless an attribute says that it holds no message, in
/// whatever case.
pub proof fn loi_ouvrable(attributs: Seq<Seq<char>>)
    ensures
        ouvrable(attributs) <==> forall|i: int|
            0 <= i < attributs.len() ==> minuscules(#[trigger] attributs[i]) != "\\noselect"@
                && minuscules(attributs[i]) != "\\nonexistent"@,
{
    reveal_strlit("\\Noselect");
    reveal_strlit("\\noselect");
    reveal_strlit("\\NonExistent");
    reveal_strlit("\\nonexistent");
    assert(minuscules("\\Noselect"@) =~= "\\noselect"@);
    assert(minuscules("\\NonExistent"@) =~= "\\nonexistent"@);
    if ouvrable(attributs) {
        assert forall|i: int| 0 <= i < attributs.len() implies minuscules(#[trigger] attributs[i])
            != "\\noselect"@ && minuscules(attributs[i]) != "\\nonexistent"@ by {
            assert(!attribut_sans_messages(attributs[i]));
        }
    } else {
        let i = choose|i: int|
            0 <= i < attributs.len() && attribut_sans_messages(#[trigger] attributs[i]);
        assert(minuscules(attributs[i]) == "\\noselect"@ || minuscules(attributs[i])
            == "\\nonexistent"@);
    }
}

/// A folder is as deep as its path has separators: one under another is one deeper
/// than its parent, and its name is what follows the last of them.
pub proof fn loi_sous_dossier(parent: Seq<char>, nom: Seq<char>, separateur: char)
    requires
        !nom.contains(separateur),
    ensures
        profondeur_de(parent + seq![separateur] + nom, seq![separateur]) == profondeur_de(
            parent,
            seq![separateur],
        ) + 1,
        profondeur_de(nom, seq![separateur]) == 0,
        crate::protocole::segment(parent + seq![separateur] + nom, seq![separateur]) == nom,
        crate::protocole::segment(nom, seq![separateur]) == nom,
{
    lemme_compte_suite(parent, nom, separateur);
    lemme_compte_nul(nom, separateur);
    let s = parent + seq![separateur] + nom;
    let n = parent.len() as int;
    s.index_of_last_ensures(separateur);
    nom.index_of_last_ensures(separateur);
    assert(s[n] == separateur);
    assert(s.contains(separateur));
    let i = s.index_of_last(separateur)->0;
    if i > n {
        assert(nom[i - n - 1] == separateur);
    }
    assert(s.subrange(n + 1, s.len() as int) =~= nom);
}

proof fn lemme_compte_nul(s: Seq<char>, c: char)
    requires
        !s.contains(c),
    ensures
        compte_de(s, c) == 0,
    decreases s.len(),
{
    if s.len() > 0 {
        let t = s.drop_last();
        assert(!t.contains(c)) by {
            if t.contains(c) {
                let i = t.index_of(c);
                assert(t[i] == c);
                assert(s[i] == c);
            }
        }
        lemme_compte_nul(t, c);
        assert(s.contains(s[s.len() - 1]));
    }
}

proof fn lemme_compte_suite(a: Seq<char>, b: Seq<char>, c: char)
    requires
        !b.contains(c),
    ensures
        compte_de(a + seq![c] + b, c) == compte_de(a, c) + 1,
    decreases b.len(),
{
    let s = a + seq![c] + b;
    if b.len() == 0 {
        assert(s.drop_last() =~= a);
        assert(s.last() == c);
    } else {
        let d = b.drop_last();
        assert(!d.contains(c)) by {
            if d.contains(c) {
                let i = d.index_of(c);
                assert(d[i] == c);
                assert(b[i] == c);
            }
        }
        lemme_compte_suite(a, d, c);
        assert(s.drop_last() =~= a + seq![c] + d);
        assert(s.last() == b.last());
        assert(b.contains(b[b.len() - 1]));
    }
}

/// What the server says of a folder is what the index shows of it.
pub open spec fn fidele(d: DossierLocalVue, compte: i64, v: DossierVue) -> bool {
    &&& d.compte_id == compte
    &&& d.chemin == v.chemin
    &&& d.separateur == v.separateur
    &&& d.role == (match role_de(v.attributs) {
        Some(r) => r,
        None => Seq::empty(),
    })
    &&& d.selectionnable <==> ouvrable(v.attributs)
    &&& d.nom == crate::utf7::nom_decode(crate::protocole::segment(v.chemin, v.separateur))
    &&& profondeur_de(v.chemin, v.separateur) <= u32::MAX ==> d.profondeur == profondeur_de(
        v.chemin,
        v.separateur,
    )
}

proof fn lemme_pose_fidele(t: Seq<DossierLocalVue>, compte: i64, ds: Seq<DossierVue>, k: int)
    requires
        dossiers_poses(t, compte, ds) is Some,
        0 <= k < ds.len(),
        forall|j: int| k < j < ds.len() ==> (#[trigger] ds[j]).chemin != ds[k].chemin,
    ensures
        exists|i: int|
            0 <= i < dossiers_poses(t, compte, ds)->0.len() && fidele(
                #[trigger] dossiers_poses(t, compte, ds)->0[i],
                compte,
                ds[k],
            ),
    decreases ds.len(),
{
    let w = ds.drop_last();
    let u = dossiers_poses(t, compte, w)->0;
    let v = dossiers_poses(t, compte, ds)->0;
    let d = ds.last();
    if k < ds.len() - 1 {
        assert forall|j: int| k < j < w.len() implies (#[trigger] w[j]).chemin != w[k].chemin by {
            assert(w[j] == ds[j]);
        }
        lemme_pose_fidele(t, compte, w, k);
        let i = choose|i: int| 0 <= i < u.len() && fidele(#[trigger] u[i], compte, w[k]);
        assert(ds[ds.len() - 1].chemin != ds[k].chemin);
        assert(v[i] == u[i]);
    } else {
        let p = |x: DossierLocalVue| x.compte_id == compte && x.chemin == d.chemin;
        lemme_premier(u, p);
        if let Some(x) = dossier_en(u, compte, d.chemin) {
            let i = choose|i: int| 0 <= i < u.len() && u[i] == x;
            assert(v[i] == dossier_annonce(compte, d)(u[i]));
            assert(fidele(v[i], compte, d));
        } else {
            assert(fidele(v[u.len() as int], compte, d));
        }
    }
}

/// Each folder that the server announces is in the index with what the server says of
/// it: its role, whether it can be opened, its name, its depth and its separator.
pub proof fn loi_dossier_fidele(m: MagasinVue, compte: i64, ds: Seq<DossierVue>, k: int)
    requires
        arborescence_posee(m, compte, ds) is Some,
        0 <= k < ds.len(),
        forall|j: int| k < j < ds.len() ==> (#[trigger] ds[j]).chemin != ds[k].chemin,
    ensures
        exists|d: DossierLocalVue| #[trigger]
            arborescence_posee(m, compte, ds)->0.dossiers.contains(d) && fidele(d, compte, ds[k]),
{
    let t = dossiers_poses(m.dossiers, compte, ds)->0;
    lemme_pose_fidele(m.dossiers, compte, ds, k);
    let i = choose|i: int| 0 <= i < t.len() && fidele(#[trigger] t[i], compte, ds[k]);
    let p = disparu(compte, ds);
    let q = |d: DossierLocalVue| !p(d);
    assert(crate::tables::annonce_chemin(ds, t[i].chemin)) by {
        assert(ds[k].chemin == t[i].chemin);
    }
    assert(q(t[i]));
    t.lemma_filter_contains(q, i);
    assert(arborescence_posee(m, compte, ds)->0.dossiers.contains(t[i]));
}

/// The counters that the server gives of a folder are those that the index shows of
/// it, and those of no other folder change.
pub proof fn loi_compteurs_fideles(
    t: Seq<DossierLocalVue>,
    compte: i64,
    v: Seq<StatutVue>,
    i: int,
    k: int,
)
    requires
        0 <= i < t.len(),
    ensures
        compteurs_poses(t, compte, v).len() == t.len(),
        t[i].compte_id == compte && 0 <= k < v.len() && v[k].chemin == t[i].chemin && (forall|j: int|
            k < j < v.len() ==> (#[trigger] v[j]).chemin != t[i].chemin) ==> compteurs_poses(
            t,
            compte,
            v,
        )[i] == (DossierLocalVue { messages: v[k].messages, non_lus: v[k].non_lus, ..t[i] }),
        t[i].compte_id != compte || (forall|j: int|
            0 <= j < v.len() ==> (#[trigger] v[j]).chemin != t[i].chemin) ==> compteurs_poses(
            t,
            compte,
            v,
        )[i] == t[i],
    decreases v.len(),
{
    lemme_compteurs_seuls(t, compte, v, i);
    if v.len() > 0 {
        let w = v.drop_last();
        lemme_compteurs_seuls(t, compte, w, i);
        loi_compteurs_fideles(t, compte, w, i, k);
        if forall|j: int| 0 <= j < v.len() ==> (#[trigger] v[j]).chemin != t[i].chemin {
            assert(v[v.len() - 1].chemin != t[i].chemin);
            assert forall|j: int| 0 <= j < w.len() implies (#[trigger] w[j]).chemin
                != t[i].chemin by {
                assert(w[j] == v[j]);
            }
        }
        if 0 <= k < v.len() - 1 && v[k].chemin == t[i].chemin && (forall|j: int|
            k < j < v.len() ==> (#[trigger] v[j]).chemin != t[i].chemin) {
            assert(v[v.len() - 1].chemin != t[i].chemin);
            assert forall|j: int| k < j < w.len() implies (#[trigger] w[j]).chemin
                != t[i].chemin by {
                assert(w[j] == v[j]);
            }
        }
    }
}

/// Counters change nothing else of a folder.
proof fn lemme_compteurs_seuls(t: Seq<DossierLocalVue>, compte: i64, v: Seq<StatutVue>, i: int)
    requires
        0 <= i < t.len(),
    ensures
        ({
            let u = compteurs_poses(t, compte, v);
            &&& u.len() == t.len()
            &&& u[i] == (DossierLocalVue { messages: u[i].messages, non_lus: u[i].non_lus, ..t[i] })
        }),
    decreases v.len(),
{
    if v.len() > 0 {
        lemme_compteurs_seuls(t, compte, v.drop_last(), i);
    }
}

// -------------------------------------------------------------- bodies, attachments

/// The body that is shown is the text of the message where it has one, else its HTML
/// reduced to text; a message whose first part is HTML is shown by it. One that has
/// neither, or that cannot be read, gets a line that says so.
pub proof fn loi_corps_montre(c: CorpsLuVue)
    ensures
        c.partie matches Some((true, Some(h))) ==> corps_montre(Some(c)) == html_en_texte(h),
        !(c.partie matches Some((true, Some(_)))) && c.texte is Some ==> corps_montre(Some(c))
            == c.texte->0,
        !(c.partie matches Some((true, Some(_)))) && c.texte is None && c.html is Some
            ==> corps_montre(Some(c)) == html_en_texte(c.html->0),
        !(c.partie matches Some((true, Some(_)))) && c.texte is None && c.html is None
            ==> corps_montre(Some(c)).len() > 0,
        corps_montre(None).len() > 0,
{
    reveal_strlit("(message illisible)");
    reveal_strlit("(ce message n'a pas de partie texte)");
}

/// The attachment of a rank is the one that is shown under this rank: it has the name
/// that is shown and all its bytes; there is one exactly for each that is shown.
pub proof fn loi_piece_extraite(v: Seq<PieceLueVue>, k: int)
    ensures
        pieces_montrees(v).len() == v.len(),
        0 <= k < v.len() ==> {
            let p = pieces_montrees(v)[k];
            &&& v.len() <= usize::MAX ==> p.indice == k
            &&& p.taille == v[k].contenu.len()
            &&& p.risquee == risque(p.nom)
            &&& piece_extraite(Some(v), k) == Some((p.nom, v[k].contenu))
        },
        !(0 <= k < v.len()) ==> piece_extraite(Some(v), k) is None,
        piece_extraite(None, k) is None,
{
}

/// A name that is safe already is kept as it is: one that has neither slashes nor
/// forbidden characters, neither starts nor ends with a dot or white space, is no
/// device and is not too long.
pub proof fn loi_nom_garde(nom: Seq<char>, indice: int, type_mime: Seq<char>)
    requires
        0 < nom.len() <= 150,
        forall|i: int| 0 <= i < nom.len() ==> !interdit(#[trigger] nom[i]),
        nom[0] != '.' && nom.last() != '.',
        !crate::texte::blanc(nom[0]) && !crate::texte::blanc(nom.last()),
        !nom_reserve(nom),
    ensures
        nom_assaini(nom, indice, type_mime) == nom,
{
    reveal_strlit("<>:\"/\\|?*");
    let s = "<>:\"/\\|?*"@;
    assert(s[4] == '/' && s[5] == '\\');
    nom.index_of_last_ensures('/');
    nom.index_of_last_ensures('\\');
    assert(!nom.contains('/')) by {
        if nom.contains('/') {
            let i = nom.index_of('/');
            assert(nom[i] == '/');
            assert(s.contains('/'));
            assert(interdit(nom[i]));
        }
    }
    assert(!nom.contains('\\')) by {
        if nom.contains('\\') {
            let i = nom.index_of('\\');
            assert(nom[i] == '\\');
            assert(s.contains('\\'));
            assert(interdit(nom[i]));
        }
    }
    assert(dernier_champ(nom, '/') == nom);
    assert(dernier_champ(nom, '\\') == nom);
    let t = nom.map_values(
        |c: char|
            if interdit(c) {
                '_'
            } else {
                c
            },
    );
    assert(t =~= nom);
    assert(sans_bord_debut(nom) == nom);
    assert(sans_bord_fin(nom) == nom);
    assert(nom_propre(nom) == nom);
}

/// The extensions of programs and scripts.
pub open spec fn programme(e: Seq<char>) -> bool {
    ||| e == "exe"@
    ||| e == "com"@
    ||| e == "bat"@
    ||| e == "cmd"@
    ||| e == "scr"@
    ||| e == "pif"@
    ||| e == "msi"@
    ||| e == "msp"@
    ||| e == "mst"@
    ||| e == "jar"@
    ||| e == "js"@
    ||| e == "jse"@
    ||| e == "vbs"@
    ||| e == "vbe"@
    ||| e == "wsf"@
    ||| e == "wsh"@
    ||| e == "wsc"@
    ||| e == "ps1"@
    ||| e == "psm1"@
    ||| e == "psd1"@
    ||| e == "hta"@
    ||| e == "cpl"@
    ||| e == "lnk"@
    ||| e == "url"@
    ||| e == "reg"@
    ||| e == "inf"@
    ||| e == "dll"@
    ||| e == "sys"@
    ||| e == "msc"@
    ||| e == "application"@
    ||| e == "appref-ms"@
    ||| e == "gadget"@
    ||| e == "appx"@
    ||| e == "appxbundle"@
    ||| e == "msix"@
    ||| e == "msixbundle"@
    ||| e == "iso"@
    ||| e == "img"@
    ||| e == "vhd"@
    ||| e == "vhdx"@
    ||| e == "scf"@
    ||| e == "sct"@
    ||| e == "settingcontent-ms"@
    ||| e == "sh"@
    ||| e == "run"@
    ||| e == "desktop"@
    ||| e == "appimage"@
    ||| e == "apk"@
    ||| e == "py"@
    ||| e == "pl"@
    ||| e == "command"@
    ||| e == "app"@
    ||| e == "pkg"@
    ||| e == "dmg"@
}

/// A file is risky to open exactly if the extension of its name is that of a program or
/// a script, in whatever case.
pub proof fn loi_programmes(a: Seq<char>, e: Seq<char>)
    requires
        !e.contains('.'),
    ensures
        risque(a + seq!['.'] + e) <==> programme(minuscules(e)),
{
    crate::index::lemme_extension(a, e);
}

/// The type of an attachment is the one that it declares, in lower case; a message that
/// is attached, and bytes of which nothing is said, have theirs. The file of one without
/// a name gets the extension of its type.
pub proof fn loi_type_de_piece(p: PieceLueVue, t: Seq<char>)
    ensures
        p.declare matches Some((a, Some(b))) ==> type_mime_de(p) == minuscules(
            a + seq!['/'] + b,
        ),
        p.declare matches Some((a, None)) ==> type_mime_de(p) == minuscules(a),
        p.declare is None && p.message ==> type_mime_de(p) == "message/rfc822"@,
        p.declare is None && !p.message ==> type_mime_de(p) == "application/octet-stream"@,
        t == "application/pdf"@ ==> extension_de_type(t) == ".pdf"@,
        t == "image/png"@ ==> extension_de_type(t) == ".png"@,
        t == "image/jpeg"@ ==> extension_de_type(t) == ".jpg"@,
        t == "image/gif"@ ==> extension_de_type(t) == ".gif"@,
        t == "text/plain"@ ==> extension_de_type(t) == ".txt"@,
        t == "text/html"@ ==> extension_de_type(t) == ".html"@,
        t == "text/calendar"@ ==> extension_de_type(t) == ".ics"@,
        t == "message/rfc822"@ ==> extension_de_type(t) == ".eml"@,
        t != "application/pdf"@ && t != "image/png"@ && t != "image/jpeg"@ && t != "image/gif"@
            && t != "text/plain"@ && t != "text/html"@ && t != "text/calendar"@ && t
            != "message/rfc822"@ ==> extension_de_type(t) == ".bin"@,
{
    reveal_strlit("/");
    assert("/"@ =~= seq!['/']);
    reveal_strlit("application/pdf");
    reveal_strlit("image/png");
    reveal_strlit("image/jpeg");
    reveal_strlit("image/gif");
    reveal_strlit("text/plain");
    reveal_strlit("text/html");
    reveal_strlit("text/calendar");
    reveal_strlit("message/rfc822");
    assert("application/pdf"@[0] == 'a' && "message/rfc822"@[0] == 'm');
    assert("image/png"@[6] == 'p' && "image/jpeg"@[6] == 'j' && "image/gif"@[6] == 'g');
    assert("image/png"@[0] == 'i' && "image/jpeg"@[0] == 'i' && "image/gif"@[0] == 'i');
    assert("text/plain"@[5] == 'p' && "text/html"@[5] == 'h' && "text/calendar"@[5] == 'c');
    assert("text/plain"@[0] == 't' && "text/html"@[0] == 't' && "text/calendar"@[0] == 't');
}

/// A name that is cut short keeps its start and its extension, so that it is still known
/// for the program that it may be.
pub proof fn loi_nom_coupe(a: Seq<char>, e: Seq<char>)
    requires
        !e.contains('.'),
        e.len() < 16,
    ensures
        ({
            let n = nom_borne(a + seq!['.'] + e);
            let k = if a.len() + 1 + e.len() <= 150 {
                a.len() as int
            } else {
                149 - e.len()
            };
            &&& n == a.take(k) + seq!['.'] + e
            &&& n.len() <= 150
            &&& risque(n) <==> programme(minuscules(e))
        }),
{
    let s = a + seq!['.'] + e;
    let i = a.len() as int;
    s.index_of_last_ensures('.');
    assert(s[i] == '.');
    assert(s.contains('.'));
    let j = s.index_of_last('.')->0;
    assert(j == i) by {
        if j > i {
            assert(s[j] == e[j - i - 1]);
            assert(e.contains(e[j - i - 1]));
        }
    }
    let ext = s.subrange(i, s.len() as int);
    assert(ext =~= seq!['.'] + e);
    assert(ext.take(ext.len() as int) =~= ext);
    assert(a.take(i) =~= a);
    if s.len() > 150 {
        let k = 149 - e.len();
        assert(ext.len() <= 16);
        assert(s.take(150 - ext.len()) =~= a.take(k));
        assert(nom_borne(s) =~= a.take(k) + seq!['.'] + e);
        loi_programmes(a.take(k), e);
    } else {
        loi_programmes(a, e);
    }
}

proof fn lemme_defaut(indice: int, t: Seq<char>)
    requires
        0 <= indice,
    ensures
        nom_par_defaut(indice, t) == "piece-jointe-"@ + (decimal((indice + 1) as nat) + (seq!['.']
            + extension_de_type(t).drop_first())),
{
    reveal_strlit(".pdf");
    reveal_strlit(".png");
    reveal_strlit(".jpg");
    reveal_strlit(".gif");
    reveal_strlit(".txt");
    reveal_strlit(".html");
    reveal_strlit(".ics");
    reveal_strlit(".eml");
    reveal_strlit(".bin");
    let x = extension_de_type(t);
    assert(x.len() > 0 && x[0] == '.');
    assert(x =~= seq!['.'] + x.drop_first());
    let d = decimal((indice + 1) as nat);
    assert("piece-jointe-"@ + d + x =~= "piece-jointe-"@ + (d + x));
}

/// Two attachments without a name of their own get different names.
pub proof fn loi_noms_distincts(i: int, t: Seq<char>, j: int, u: Seq<char>)
    requires
        0 <= i,
        0 <= j,
        nom_par_defaut(i, t) == nom_par_defaut(j, u),
    ensures
        i == j,
{
    let p = "piece-jointe-"@;
    let a = decimal((i + 1) as nat);
    let b = decimal((j + 1) as nat);
    let x = seq!['.'] + extension_de_type(t).drop_first();
    let y = seq!['.'] + extension_de_type(u).drop_first();
    lemme_defaut(i, t);
    lemme_defaut(j, u);
    lemme_decimal((i + 1) as nat);
    lemme_decimal((j + 1) as nat);
    assert(a + x =~= (p + (a + x)).skip(p.len() as int));
    assert(b + y =~= (p + (b + y)).skip(p.len() as int));
    lemme_chiffres_coupes(a, x, b, y);
}

} // verus!
