//! What every operation on the local index keeps: rows have distinct keys, and
//! what a row refers to exists. And what the operations promise of the index as a
//! whole.

use vstd::prelude::*;

use crate::protocole::{DossierVue, EtatDossier, StatutVue};
use crate::tables::{
    annonce_chemin, apres_rupture, arborescence_posee, compris, compte_de, compte_numero,
    compte_retire, compteurs_notes, compteurs_poses, dans_uids, disparu, dossier_annonce,
    dossier_en, dossier_nouveau, dossier_numero, dossier_pose, dossiers_affiches, dossiers_poses,
    drapeaux_poses, du_compte, en_ordre, epingle, etat_pose, favori_place, ids_comptes,
    ids_dossiers, ids_operations, lemme_plus_grand, lemme_premier, lemme_rang_borne, lemme_trie,
    marquage, masquage, message_en, message_pose, message_relu, messages_affiches, messages_de,
    messages_poses, operation_avancee, operation_en_echec, ordre_affichage, ordre_faible,
    ordre_messages, orphelin, precede, premier, rang_car, rang_donne, rang_donne_si_absent,
    rang_final, rang_recule, rang_vise, rangs_chemin, recompte, rupture, sans, suivant, CompteVue,
    DossierLocalVue, Etape, LigneVue, MagasinVue, MessageVue, OperationVue,
};

verus! {

// --------------------------------------------------------------------- coherence

/// Whether the rows of a table have distinct keys.
pub open spec fn cles_distinctes<A, K>(s: Seq<A>, k: spec_fn(A) -> K) -> bool {
    forall|i: int, j: int| 0 <= i < j < s.len() ==> k(#[trigger] s[i]) != k(#[trigger] s[j])
}

/// The key of a folder for its account: its path.
pub open spec fn cle_chemin() -> spec_fn(DossierLocalVue) -> (i64, Seq<char>) {
    |d: DossierLocalVue| (d.compte_id, d.chemin)
}

/// The key of a message: its folder and its UID.
pub open spec fn cle_message() -> spec_fn(LigneVue) -> (i64, u32) {
    |l: LigneVue| (l.dossier, l.message.uid)
}

/// The key of a folder.
pub open spec fn cle_dossier() -> spec_fn(DossierLocalVue) -> i64 {
    |d: DossierLocalVue| d.id
}

/// The key of an account.
pub open spec fn cle_compte() -> spec_fn(CompteVue) -> i64 {
    |c: CompteVue| c.id
}

/// The address of an account.
pub open spec fn cle_adresse() -> spec_fn(CompteVue) -> Seq<char> {
    |c: CompteVue| c.adresse
}

/// The key of a move.
pub open spec fn cle_operation() -> spec_fn(OperationVue) -> i64 {
    |o: OperationVue| o.id
}

/// Whether an account is in the table.
pub open spec fn compte_present(t: Seq<CompteVue>, id: i64) -> bool {
    exists|i: int| 0 <= i < t.len() && (#[trigger] t[i]).id == id
}

/// Whether a folder is in the table.
pub open spec fn dossier_present(t: Seq<DossierLocalVue>, id: i64) -> bool {
    exists|i: int| 0 <= i < t.len() && (#[trigger] t[i]).id == id
}

/// Whether the index is coherent: its keys are distinct, its folders belong to
/// accounts, its messages to folders, its moves to accounts.
pub open spec fn valide(m: MagasinVue) -> bool {
    &&& cles_distinctes(m.comptes, cle_compte())
    &&& cles_distinctes(m.comptes, cle_adresse())
    &&& cles_distinctes(m.dossiers, cle_dossier())
    &&& cles_distinctes(m.dossiers, cle_chemin())
    &&& cles_distinctes(m.messages, cle_message())
    &&& cles_distinctes(m.operations, cle_operation())
    &&& forall|i: int|
        0 <= i < m.dossiers.len() ==> compte_present(m.comptes, (#[trigger] m.dossiers[i]).compte_id)
    &&& forall|i: int|
        0 <= i < m.messages.len() ==> dossier_present(m.dossiers, (#[trigger] m.messages[i]).dossier)
    &&& forall|i: int|
        0 <= i < m.operations.len() ==> compte_present(
            m.comptes,
            (#[trigger] m.operations[i]).compte_source,
        ) && compte_present(m.comptes, m.operations[i].compte_cible)
}

/// An account is found exactly when it is in the table.
proof fn lemme_compte_present(t: Seq<CompteVue>, id: i64)
    ensures
        compte_present(t, id) <==> compte_numero(t, id) is Some,
{
    let p = |c: CompteVue| c.id == id;
    lemme_premier(t, p);
    if let Some(c) = premier(t, p) {
        let i = choose|i: int| 0 <= i < t.len() && t[i] == c;
        assert(t[i].id == id);
    } else {
        assert forall|i: int| 0 <= i < t.len() implies (#[trigger] t[i]).id != id by {
            assert(!p(t[i]));
        }
    }
}

/// A folder is found exactly when it is in the table.
proof fn lemme_dossier_present(t: Seq<DossierLocalVue>, id: i64)
    ensures
        dossier_present(t, id) <==> dossier_numero(t, id) is Some,
{
    let p = |d: DossierLocalVue| d.id == id;
    lemme_premier(t, p);
    if let Some(d) = premier(t, p) {
        let i = choose|i: int| 0 <= i < t.len() && t[i] == d;
        assert(t[i].id == id);
    } else {
        assert forall|i: int| 0 <= i < t.len() implies (#[trigger] t[i]).id != id by {
            assert(!p(t[i]));
        }
    }
}

/// A row that a selection keeps is one of the table that meets the condition.
proof fn lemme_filtre_source<A>(s: Seq<A>, p: spec_fn(A) -> bool, i: int)
    requires
        0 <= i < s.filter(p).len(),
    ensures
        p(s.filter(p)[i]),
        exists|k: int| 0 <= k < s.len() && #[trigger] s[k] == s.filter(p)[i],
    decreases s.len(),
{
    reveal(Seq::filter);
    if s.len() > 0 {
        let t = s.drop_last();
        if i < t.filter(p).len() {
            lemme_filtre_source(t, p, i);
            let k = choose|k: int| 0 <= k < t.len() && #[trigger] t[k] == t.filter(p)[i];
            assert(s[k] == s.filter(p)[i]);
        } else {
            assert(s[s.len() - 1] == s.filter(p)[i]);
        }
    }
}

/// A selection keeps every row that meets the condition.
proof fn lemme_filtre_garde<A>(s: Seq<A>, p: spec_fn(A) -> bool, k: int)
    requires
        0 <= k < s.len(),
        p(s[k]),
    ensures
        exists|i: int| 0 <= i < s.filter(p).len() && #[trigger] s.filter(p)[i] == s[k],
    decreases s.len(),
{
    reveal(Seq::filter);
    let t = s.drop_last();
    if k == t.len() {
        assert(s.filter(p)[s.filter(p).len() - 1] == s[k]);
    } else {
        lemme_filtre_garde(t, p, k);
        let i = choose|i: int| 0 <= i < t.filter(p).len() && #[trigger] t.filter(p)[i] == t[k];
        assert(s.filter(p)[i] == s[k]);
    }
}

/// A selection keeps keys distinct.
proof fn lemme_filtre_distinct<A, K>(s: Seq<A>, p: spec_fn(A) -> bool, k: spec_fn(A) -> K)
    requires
        cles_distinctes(s, k),
    ensures
        cles_distinctes(s.filter(p), k),
    decreases s.len(),
{
    reveal(Seq::filter);
    if s.len() > 0 {
        let t = s.drop_last();
        assert(cles_distinctes(t, k)) by {
            assert forall|i: int, j: int| 0 <= i < j < t.len() implies k(#[trigger] t[i]) != k(
                #[trigger] t[j],
            ) by {
                assert(s[i] == t[i] && s[j] == t[j]);
            }
        }
        lemme_filtre_distinct(t, p, k);
        let f = s.filter(p);
        assert forall|i: int, j: int| 0 <= i < j < f.len() implies k(#[trigger] f[i]) != k(
            #[trigger] f[j],
        ) by {
            let g = t.filter(p);
            if j < g.len() {
                assert(f[i] == g[i] && f[j] == g[j]);
            } else {
                lemme_filtre_source(t, p, i);
                let n = choose|n: int| 0 <= n < t.len() && #[trigger] t[n] == g[i];
                assert(s[n] == f[i]);
                assert(s[s.len() - 1] == f[j]);
            }
        }
    }
}

/// A change that keeps keys keeps them distinct.
proof fn lemme_change_distinct<A, K>(s: Seq<A>, f: spec_fn(A) -> A, k: spec_fn(A) -> K)
    requires
        cles_distinctes(s, k),
        forall|a: A| k(#[trigger] f(a)) == k(a),
    ensures
        cles_distinctes(s.map_values(f), k),
{
    let t = s.map_values(f);
    assert forall|i: int, j: int| 0 <= i < j < t.len() implies k(#[trigger] t[i]) != k(
        #[trigger] t[j],
    ) by {
        assert(t[i] == f(s[i]) && t[j] == f(s[j]));
    }
}

/// A new row with a key of its own keeps keys distinct.
proof fn lemme_ajout_distinct<A, K>(s: Seq<A>, x: A, k: spec_fn(A) -> K)
    requires
        cles_distinctes(s, k),
        forall|i: int| 0 <= i < s.len() ==> k(#[trigger] s[i]) != k(x),
    ensures
        cles_distinctes(s.push(x), k),
{
}

/// The next identifier is no other row's.
proof fn lemme_suivant_neuf(ids: Seq<i64>, i: int)
    requires
        0 <= i < ids.len(),
    ensures
        ids[i] < suivant(ids),
{
    lemme_plus_grand(ids);
}

/// A change of folders that keeps their identity keeps the index coherent.
proof fn lemme_dossiers_changes(m: MagasinVue, f: spec_fn(DossierLocalVue) -> DossierLocalVue)
    requires
        valide(m),
        forall|d: DossierLocalVue| #![trigger f(d)]
            f(d).id == d.id && f(d).compte_id == d.compte_id && f(d).chemin == d.chemin,
    ensures
        valide(MagasinVue { dossiers: m.dossiers.map_values(f), ..m }),
{
    let t = m.dossiers.map_values(f);
    assert forall|d: DossierLocalVue| cle_chemin()(#[trigger] f(d)) == cle_chemin()(d) by {}
    lemme_change_distinct(m.dossiers, f, cle_dossier());
    lemme_change_distinct(m.dossiers, f, cle_chemin());
    assert forall|i: int| 0 <= i < t.len() implies compte_present(
        m.comptes,
        (#[trigger] t[i]).compte_id,
    ) by {
        assert(t[i] == f(m.dossiers[i]));
    }
    assert forall|i: int| 0 <= i < m.messages.len() implies dossier_present(
        t,
        (#[trigger] m.messages[i]).dossier,
    ) by {
        let id = m.messages[i].dossier;
        let k = choose|k: int| 0 <= k < m.dossiers.len() && (#[trigger] m.dossiers[k]).id == id;
        assert(t[k].id == id);
    }
}

/// A change of messages that keeps their identity keeps the index coherent.
proof fn lemme_messages_changes(m: MagasinVue, f: spec_fn(LigneVue) -> LigneVue)
    requires
        valide(m),
        forall|l: LigneVue| #![trigger f(l)]
            f(l).dossier == l.dossier && f(l).message.uid == l.message.uid,
    ensures
        valide(MagasinVue { messages: m.messages.map_values(f), ..m }),
{
    let t = m.messages.map_values(f);
    lemme_change_distinct(m.messages, f, cle_message());
    assert forall|i: int| 0 <= i < t.len() implies dossier_present(
        m.dossiers,
        (#[trigger] t[i]).dossier,
    ) by {
        assert(t[i] == f(m.messages[i]));
    }
}

/// The departure of messages keeps the index coherent.
proof fn lemme_messages_partis(m: MagasinVue, p: spec_fn(LigneVue) -> bool)
    requires
        valide(m),
    ensures
        valide(MagasinVue { messages: sans(m.messages, p), ..m }),
{
    let q = |l: LigneVue| !p(l);
    lemme_filtre_distinct(m.messages, q, cle_message());
    let t = m.messages.filter(q);
    assert forall|i: int| 0 <= i < t.len() implies dossier_present(
        m.dossiers,
        (#[trigger] t[i]).dossier,
    ) by {
        lemme_filtre_source(m.messages, q, i);
        let k = choose|k: int| 0 <= k < m.messages.len() && #[trigger] m.messages[k] == t[i];
        assert(dossier_present(m.dossiers, m.messages[k].dossier));
    }
}

/// An empty index is coherent.
pub proof fn loi_vide_valide()
    ensures
        valide(
            MagasinVue {
                comptes: Seq::empty(),
                dossiers: Seq::empty(),
                messages: Seq::empty(),
                operations: Seq::empty(),
            },
        ),
{
}

/// Registering a new account keeps the index coherent.
pub proof fn loi_compte_ajoute_valide(m: MagasinVue, c: CompteVue)
    requires
        valide(m),
        compte_de(m.comptes, c.adresse) is None,
        c.id == suivant(ids_comptes(m.comptes)),
    ensures
        valide(MagasinVue { comptes: m.comptes.push(c), ..m }),
{
    let t = m.comptes.push(c);
    lemme_premier(m.comptes, |x: CompteVue| x.adresse == c.adresse);
    assert forall|i: int| 0 <= i < m.comptes.len() implies cle_compte()(#[trigger] m.comptes[i])
        != cle_compte()(c) by {
        lemme_suivant_neuf(ids_comptes(m.comptes), i);
        assert(ids_comptes(m.comptes)[i] == m.comptes[i].id);
    }
    lemme_ajout_distinct(m.comptes, c, cle_compte());
    lemme_ajout_distinct(m.comptes, c, cle_adresse());
    assert forall|id: i64| compte_present(m.comptes, id) implies compte_present(t, id) by {
        let k = choose|k: int| 0 <= k < m.comptes.len() && (#[trigger] m.comptes[k]).id == id;
        assert(t[k].id == id);
    }
}

/// A change of accounts that keeps their identity and their address keeps the index
/// coherent.
pub proof fn loi_comptes_changes_valide(m: MagasinVue, f: spec_fn(CompteVue) -> CompteVue)
    requires
        valide(m),
        forall|c: CompteVue| #![trigger f(c)] f(c).id == c.id && f(c).adresse == c.adresse,
    ensures
        valide(MagasinVue { comptes: m.comptes.map_values(f), ..m }),
{
    let t = m.comptes.map_values(f);
    lemme_change_distinct(m.comptes, f, cle_compte());
    lemme_change_distinct(m.comptes, f, cle_adresse());
    assert forall|id: i64| compte_present(m.comptes, id) implies compte_present(t, id) by {
        let k = choose|k: int| 0 <= k < m.comptes.len() && (#[trigger] m.comptes[k]).id == id;
        assert(t[k].id == id);
    }
}

/// Removing an account keeps the index coherent, and leaves nothing of it.
pub proof fn loi_compte_retire_valide(m: MagasinVue, id: i64)
    requires
        valide(m),
    ensures
        valide(compte_retire(m, id)),
        compte_numero(compte_retire(m, id).comptes, id) is None,
        forall|i: int|
            0 <= i < compte_retire(m, id).dossiers.len() ==> (#[trigger] compte_retire(
                m,
                id,
            ).dossiers[i]).compte_id != id,
{
    let r = compte_retire(m, id);
    lemme_compte_present(m.comptes, id);
    lemme_compte_present(r.comptes, id);
    if compte_numero(m.comptes, id) is Some {
        let pc = |c: CompteVue| !(|c: CompteVue| c.id == id)(c);
        let pd = |d: DossierLocalVue| !du_compte(id)(d);
        let pm = |l: LigneVue| !orphelin(m.dossiers, du_compte(id))(l);
        let po = |o: OperationVue|
            !(|o: OperationVue| o.compte_source == id || o.compte_cible == id)(o);
        lemme_filtre_distinct(m.comptes, pc, cle_compte());
        lemme_filtre_distinct(m.comptes, pc, cle_adresse());
        lemme_filtre_distinct(m.dossiers, pd, cle_dossier());
        lemme_filtre_distinct(m.dossiers, pd, cle_chemin());
        lemme_filtre_distinct(m.messages, pm, cle_message());
        lemme_filtre_distinct(m.operations, po, cle_operation());
        assert forall|x: i64| x != id && compte_present(m.comptes, x) implies compte_present(
            r.comptes,
            x,
        ) by {
            let k = choose|k: int| 0 <= k < m.comptes.len() && (#[trigger] m.comptes[k]).id == x;
            lemme_filtre_garde(m.comptes, pc, k);
            let i = choose|i: int|
                0 <= i < m.comptes.filter(pc).len() && #[trigger] m.comptes.filter(pc)[i]
                    == m.comptes[k];
            assert(r.comptes[i].id == x);
        }
        assert forall|i: int| 0 <= i < r.comptes.len() implies (#[trigger] r.comptes[i]).id != id by {
            lemme_filtre_source(m.comptes, pc, i);
        }
        assert forall|i: int| 0 <= i < r.dossiers.len() implies compte_present(
            r.comptes,
            (#[trigger] r.dossiers[i]).compte_id,
        ) && r.dossiers[i].compte_id != id by {
            lemme_filtre_source(m.dossiers, pd, i);
            let k = choose|k: int|
                0 <= k < m.dossiers.len() && #[trigger] m.dossiers[k] == r.dossiers[i];
            assert(compte_present(m.comptes, m.dossiers[k].compte_id));
        }
        assert forall|i: int| 0 <= i < r.messages.len() implies dossier_present(
            r.dossiers,
            (#[trigger] r.messages[i]).dossier,
        ) by {
            lemme_filtre_source(m.messages, pm, i);
            let k = choose|k: int|
                0 <= k < m.messages.len() && #[trigger] m.messages[k] == r.messages[i];
            let x = m.messages[k].dossier;
            assert(dossier_present(m.dossiers, x));
            let n = choose|n: int| 0 <= n < m.dossiers.len() && (#[trigger] m.dossiers[n]).id == x;
            assert(!compris(m.dossiers, du_compte(id), x));
            assert(pd(m.dossiers[n]));
            lemme_filtre_garde(m.dossiers, pd, n);
            let j = choose|j: int|
                0 <= j < m.dossiers.filter(pd).len() && #[trigger] m.dossiers.filter(pd)[j]
                    == m.dossiers[n];
            assert(r.dossiers[j].id == x);
        }
        assert forall|i: int| 0 <= i < r.operations.len() implies compte_present(
            r.comptes,
            (#[trigger] r.operations[i]).compte_source,
        ) && compte_present(r.comptes, r.operations[i].compte_cible) by {
            lemme_filtre_source(m.operations, po, i);
            let k = choose|k: int|
                0 <= k < m.operations.len() && #[trigger] m.operations[k] == r.operations[i];
            assert(compte_present(m.comptes, m.operations[k].compte_source));
        }
    } else {
        assert forall|i: int| 0 <= i < r.dossiers.len() implies (#[trigger] r.dossiers[i]).compte_id
            != id by {
            assert(compte_present(m.comptes, m.dossiers[i].compte_id));
        }
    }
}

/// Announcing a folder of an account keeps the index coherent.
proof fn lemme_dossier_pose_valide(m: MagasinVue, compte: i64, d: DossierVue)
    requires
        valide(m),
        compte_present(m.comptes, compte),
        dossier_pose(m.dossiers, compte, d) is Some,
    ensures
        valide(MagasinVue { dossiers: dossier_pose(m.dossiers, compte, d)->0, ..m }),
{
    if dossier_en(m.dossiers, compte, d.chemin) is Some {
        lemme_dossiers_changes(m, dossier_annonce(compte, d));
    } else {
        let t = m.dossiers;
        let x = dossier_nouveau(suivant(ids_dossiers(t)) as i64, compte, d);
        let u = t.push(x);
        lemme_premier(t, |l: DossierLocalVue| l.compte_id == compte && l.chemin == d.chemin);
        lemme_plus_grand(ids_dossiers(t));
        assert forall|i: int| 0 <= i < t.len() implies cle_dossier()(#[trigger] t[i])
            != cle_dossier()(x) by {
            lemme_suivant_neuf(ids_dossiers(t), i);
            assert(ids_dossiers(t)[i] == t[i].id);
        }
        lemme_ajout_distinct(t, x, cle_dossier());
        assert forall|i: int| 0 <= i < t.len() implies cle_chemin()(#[trigger] t[i])
            != cle_chemin()(x) by {}
        lemme_ajout_distinct(t, x, cle_chemin());
        assert forall|i: int| 0 <= i < m.messages.len() implies dossier_present(
            u,
            (#[trigger] m.messages[i]).dossier,
        ) by {
            let id = m.messages[i].dossier;
            let k = choose|k: int| 0 <= k < t.len() && (#[trigger] t[k]).id == id;
            assert(u[k].id == id);
        }
    }
}

/// Announcing folders of an account keeps the index coherent.
proof fn lemme_dossiers_poses_valide(m: MagasinVue, compte: i64, ds: Seq<DossierVue>)
    requires
        valide(m),
        ds.len() > 0 ==> compte_present(m.comptes, compte),
        dossiers_poses(m.dossiers, compte, ds) is Some,
    ensures
        valide(MagasinVue { dossiers: dossiers_poses(m.dossiers, compte, ds)->0, ..m }),
    decreases ds.len(),
{
    if ds.len() > 0 {
        lemme_dossiers_poses_valide(m, compte, ds.drop_last());
        let u = dossiers_poses(m.dossiers, compte, ds.drop_last())->0;
        lemme_dossier_pose_valide(MagasinVue { dossiers: u, ..m }, compte, ds.last());
    }
}

/// Replacing the tree of an account keeps the index coherent: no message is left
/// without its folder.
pub proof fn loi_arborescence_valide(m: MagasinVue, compte: i64, ds: Seq<DossierVue>)
    requires
        valide(m),
        arborescence_posee(m, compte, ds) is Some,
    ensures
        valide(arborescence_posee(m, compte, ds)->0),
{
    lemme_compte_present(m.comptes, compte);
    lemme_dossiers_poses_valide(m, compte, ds);
    let t = dossiers_poses(m.dossiers, compte, ds)->0;
    let n = MagasinVue { dossiers: t, ..m };
    let r = arborescence_posee(m, compte, ds)->0;
    let p = disparu(compte, ds);
    let pd = |d: DossierLocalVue| !p(d);
    let pm = |l: LigneVue| !orphelin(t, p)(l);
    lemme_filtre_distinct(t, pd, cle_dossier());
    lemme_filtre_distinct(t, pd, cle_chemin());
    lemme_filtre_distinct(n.messages, pm, cle_message());
    assert forall|i: int| 0 <= i < r.dossiers.len() implies compte_present(
        r.comptes,
        (#[trigger] r.dossiers[i]).compte_id,
    ) by {
        lemme_filtre_source(t, pd, i);
        let k = choose|k: int| 0 <= k < t.len() && #[trigger] t[k] == r.dossiers[i];
        assert(compte_present(n.comptes, n.dossiers[k].compte_id));
    }
    assert forall|i: int| 0 <= i < r.messages.len() implies dossier_present(
        r.dossiers,
        (#[trigger] r.messages[i]).dossier,
    ) by {
        lemme_filtre_source(n.messages, pm, i);
        let k = choose|k: int|
            0 <= k < n.messages.len() && #[trigger] n.messages[k] == r.messages[i];
        let x = n.messages[k].dossier;
        assert(dossier_present(t, x));
        let a = choose|a: int| 0 <= a < t.len() && (#[trigger] t[a]).id == x;
        assert(!compris(t, p, x));
        assert(pd(t[a]));
        lemme_filtre_garde(t, pd, a);
        let j = choose|j: int| 0 <= j < t.filter(pd).len() && #[trigger] t.filter(pd)[j] == t[a];
        assert(r.dossiers[j].id == x);
    }
}

/// Noting counters keeps the index coherent.
pub proof fn loi_compteurs_valide(m: MagasinVue, compte: i64, v: Seq<StatutVue>)
    requires
        valide(m),
    ensures
        valide(MagasinVue { dossiers: compteurs_poses(m.dossiers, compte, v), ..m }),
    decreases v.len(),
{
    if v.len() > 0 {
        loi_compteurs_valide(m, compte, v.drop_last());
        let n = MagasinVue { dossiers: compteurs_poses(m.dossiers, compte, v.drop_last()), ..m };
        lemme_dossiers_changes(n, compteurs_notes(compte, v.last()));
    }
}

/// Counting anew, hiding, pinning and placing keep the index coherent.
pub proof fn loi_dossier_valide(
    m: MagasinVue,
    dossier: i64,
    masque: bool,
    favori: bool,
    avant: Option<i64>,
)
    requires
        valide(m),
    ensures
        recompte(m, dossier) is Some ==> valide(recompte(m, dossier)->0),
        valide(MagasinVue { dossiers: m.dossiers.map_values(masquage(dossier, masque)), ..m }),
        epingle(m.dossiers, dossier, favori) is Some ==> valide(
            MagasinVue { dossiers: epingle(m.dossiers, dossier, favori)->0, ..m },
        ),
        favori_place(m.dossiers, dossier, avant) is Some ==> valide(
            MagasinVue { dossiers: favori_place(m.dossiers, dossier, avant)->0, ..m },
        ),
{
    let n = crate::tables::nombre_messages(m.messages, dossier);
    let u = crate::tables::nombre_non_lus(m.messages, dossier);
    lemme_dossiers_changes(
        m,
        |d: DossierLocalVue|
            if d.id == dossier {
                DossierLocalVue { messages: n as u32, non_lus: u as u32, ..d }
            } else {
                d
            },
    );
    lemme_dossiers_changes(m, masquage(dossier, masque));
    lemme_dossiers_changes(m, rang_donne(dossier, None));
    lemme_dossiers_changes(m, rang_donne_si_absent(dossier, rang_final(m.dossiers) as i64));
    let t = m.dossiers.map_values(rang_donne(dossier, None));
    let m1 = MagasinVue { dossiers: t, ..m };
    match rang_vise(t, dossier, avant) {
        Some(rang) => {
            lemme_dossiers_changes(m1, rang_recule(rang));
            let m2 = MagasinVue { dossiers: t.map_values(rang_recule(rang)), ..m };
            lemme_dossiers_changes(m2, rang_donne(dossier, Some(rang)));
        },
        None => {
            lemme_dossiers_changes(m1, rang_donne(dossier, Some(rang_final(t) as i64)));
        },
    }
}

/// Noting the state of a folder keeps the index coherent.
pub proof fn loi_etat_valide(m: MagasinVue, dossier: i64, etat: EtatDossier)
    requires
        valide(m),
    ensures
        valide(apres_rupture(m, dossier, etat)),
        valide(etat_pose(m, dossier, etat)),
{
    lemme_messages_partis(m, |l: LigneVue| l.dossier == dossier);
    lemme_dossiers_changes(
        apres_rupture(m, dossier, etat),
        |d: DossierLocalVue|
            if d.id == dossier {
                DossierLocalVue {
                    uid_validity: etat.uid_validity,
                    uid_next: etat.uid_next,
                    highest_mod_seq: etat.highest_mod_seq,
                    ..d
                }
            } else {
                d
            },
    );
}

/// Putting messages in a folder keeps the index coherent: a UID has one row.
pub proof fn loi_messages_poses_valide(m: MagasinVue, dossier: i64, v: Seq<MessageVue>)
    requires
        valide(m),
        v.len() > 0 ==> dossier_numero(m.dossiers, dossier) is Some,
    ensures
        valide(MagasinVue { messages: messages_poses(m.messages, dossier, v), ..m }),
    decreases v.len(),
{
    if v.len() > 0 {
        loi_messages_poses_valide(m, dossier, v.drop_last());
        lemme_dossier_present(m.dossiers, dossier);
        let t = messages_poses(m.messages, dossier, v.drop_last());
        let n = MagasinVue { messages: t, ..m };
        let x = v.last();
        if message_en(t, dossier, x.uid) is Some {
            lemme_messages_changes(n, message_relu(dossier, x.uid, x.lu, x.repondu));
        } else {
            let l = LigneVue { dossier, message: x };
            lemme_premier(t, |l: LigneVue| l.dossier == dossier && l.message.uid == x.uid);
            assert forall|i: int| 0 <= i < t.len() implies cle_message()(#[trigger] t[i])
                != cle_message()(l) by {}
            lemme_ajout_distinct(t, l, cle_message());
        }
    }
}

/// Applying flags keeps the index coherent.
pub proof fn loi_drapeaux_valide(m: MagasinVue, dossier: i64, v: Seq<(u32, Seq<Seq<char>>)>)
    requires
        valide(m),
    ensures
        valide(MagasinVue { messages: drapeaux_poses(m.messages, dossier, v), ..m }),
    decreases v.len(),
{
    if v.len() > 0 {
        loi_drapeaux_valide(m, dossier, v.drop_last());
        let n = MagasinVue { messages: drapeaux_poses(m.messages, dossier, v.drop_last()), ..m };
        let (uid, liste) = v.last();
        lemme_messages_changes(
            n,
            message_relu(
                dossier,
                uid,
                crate::tables::a_drapeau(liste, "\\Seen"@),
                crate::tables::a_drapeau(liste, "\\Answered"@),
            ),
        );
    }
}

/// Marking messages and removing some keep the index coherent.
pub proof fn loi_messages_valide(
    m: MagasinVue,
    dossier: i64,
    uids: Seq<u32>,
    lu: bool,
    p: spec_fn(LigneVue) -> bool,
)
    requires
        valide(m),
    ensures
        valide(MagasinVue { messages: m.messages.map_values(marquage(dossier, uids, lu)), ..m }),
        valide(MagasinVue { messages: sans(m.messages, p), ..m }),
{
    lemme_messages_changes(m, marquage(dossier, uids, lu));
    lemme_messages_partis(m, p);
}

/// Registering, advancing, failing and settling a move keep the index coherent.
pub proof fn loi_operations_valide(
    m: MagasinVue,
    o: OperationVue,
    id: i64,
    etape: Etape,
    erreur: Seq<char>,
)
    requires
        valide(m),
        compte_numero(m.comptes, o.compte_source) is Some,
        compte_numero(m.comptes, o.compte_cible) is Some,
        o.id == suivant(ids_operations(m.operations)),
    ensures
        valide(MagasinVue { operations: m.operations.push(o), ..m }),
        valide(
            MagasinVue {
                operations: m.operations.map_values(operation_avancee(id, etape)),
                ..m
            },
        ),
        valide(
            MagasinVue {
                operations: m.operations.map_values(operation_en_echec(id, erreur)),
                ..m
            },
        ),
        valide(MagasinVue { operations: sans(m.operations, |x: OperationVue| x.id == id), ..m }),
{
    let t = m.operations;
    lemme_compte_present(m.comptes, o.compte_source);
    lemme_compte_present(m.comptes, o.compte_cible);
    assert forall|i: int| 0 <= i < t.len() implies cle_operation()(#[trigger] t[i])
        != cle_operation()(o) by {
        lemme_suivant_neuf(ids_operations(t), i);
        assert(ids_operations(t)[i] == t[i].id);
    }
    lemme_ajout_distinct(t, o, cle_operation());
    let f = operation_avancee(id, etape);
    let g = operation_en_echec(id, erreur);
    lemme_change_distinct(t, f, cle_operation());
    lemme_change_distinct(t, g, cle_operation());
    assert forall|i: int| 0 <= i < t.len() implies compte_present(
        m.comptes,
        (#[trigger] t.map_values(f)[i]).compte_source,
    ) && compte_present(m.comptes, t.map_values(f)[i].compte_cible) by {
        assert(t.map_values(f)[i] == f(t[i]));
    }
    assert forall|i: int| 0 <= i < t.len() implies compte_present(
        m.comptes,
        (#[trigger] t.map_values(g)[i]).compte_source,
    ) && compte_present(m.comptes, t.map_values(g)[i].compte_cible) by {
        assert(t.map_values(g)[i] == g(t[i]));
    }
    let p = |x: OperationVue| x.id == id;
    let q = |x: OperationVue| !p(x);
    lemme_filtre_distinct(t, q, cle_operation());
    let u = t.filter(q);
    assert forall|i: int| 0 <= i < u.len() implies compte_present(
        m.comptes,
        (#[trigger] u[i]).compte_source,
    ) && compte_present(m.comptes, u[i].compte_cible) by {
        lemme_filtre_source(t, q, i);
        let k = choose|k: int| 0 <= k < t.len() && #[trigger] t[k] == u[i];
        assert(compte_present(m.comptes, t[k].compte_source));
    }
}

// ----------------------------------------------------------------------- promises

/// Whether a folder keeps its identity, its local state and its synchronisation
/// state.
pub open spec fn etat_garde(a: DossierLocalVue, b: DossierLocalVue) -> bool {
    &&& a.id == b.id
    &&& a.compte_id == b.compte_id
    &&& a.chemin == b.chemin
    &&& a.masque == b.masque
    &&& a.favori == b.favori
    &&& a.uid_validity == b.uid_validity
    &&& a.uid_next == b.uid_next
    &&& a.highest_mod_seq == b.highest_mod_seq
    &&& a.messages == b.messages
    &&& a.non_lus == b.non_lus
}

/// The rows that were there stay in place when folders are announced.
proof fn lemme_poses_garde(t: Seq<DossierLocalVue>, compte: i64, ds: Seq<DossierVue>, i: int)
    requires
        dossiers_poses(t, compte, ds) is Some,
        0 <= i < t.len(),
    ensures
        dossiers_poses(t, compte, ds)->0.len() >= t.len(),
        etat_garde(t[i], dossiers_poses(t, compte, ds)->0[i]),
        t[i].compte_id != compte ==> dossiers_poses(t, compte, ds)->0[i] == t[i],
    decreases ds.len(),
{
    if ds.len() > 0 {
        lemme_poses_garde(t, compte, ds.drop_last(), i);
    }
}

/// The local state of a folder that the server still announces, and that of the
/// folders of other accounts, survive a new reading of the tree.
pub proof fn loi_etat_local_survit(m: MagasinVue, compte: i64, ds: Seq<DossierVue>, i: int)
    requires
        arborescence_posee(m, compte, ds) is Some,
        0 <= i < m.dossiers.len(),
        m.dossiers[i].compte_id != compte || annonce_chemin(ds, m.dossiers[i].chemin),
    ensures
        exists|j: int|
            0 <= j < arborescence_posee(m, compte, ds)->0.dossiers.len() && etat_garde(
                m.dossiers[i],
                #[trigger] arborescence_posee(m, compte, ds)->0.dossiers[j],
            ),
{
    let t = dossiers_poses(m.dossiers, compte, ds)->0;
    lemme_poses_garde(m.dossiers, compte, ds, i);
    let p = disparu(compte, ds);
    let q = |d: DossierLocalVue| !p(d);
    lemme_filtre_garde(t, q, i);
    let j = choose|j: int| 0 <= j < t.filter(q).len() && #[trigger] t.filter(q)[j] == t[i];
    assert(arborescence_posee(m, compte, ds)->0.dossiers[j] == t[i]);
}

/// A folder that the server no longer announces leaves the index.
pub proof fn loi_dossier_disparu(m: MagasinVue, compte: i64, ds: Seq<DossierVue>, j: int)
    requires
        arborescence_posee(m, compte, ds) is Some,
        0 <= j < arborescence_posee(m, compte, ds)->0.dossiers.len(),
        arborescence_posee(m, compte, ds)->0.dossiers[j].compte_id == compte,
    ensures
        annonce_chemin(ds, arborescence_posee(m, compte, ds)->0.dossiers[j].chemin),
{
    let t = dossiers_poses(m.dossiers, compte, ds)->0;
    let p = disparu(compte, ds);
    lemme_filtre_source(t, |d: DossierLocalVue| !p(d), j);
}

/// Whether a folder belongs to another account.
pub open spec fn d_un_autre(compte: i64) -> spec_fn(DossierLocalVue) -> bool {
    |d: DossierLocalVue| d.compte_id != compte
}

/// Each folder that the server announces has a row.
proof fn lemme_poses_presents(t: Seq<DossierLocalVue>, compte: i64, ds: Seq<DossierVue>, k: int)
    requires
        dossiers_poses(t, compte, ds) is Some,
        0 <= k < ds.len(),
    ensures
        exists|j: int|
            0 <= j < dossiers_poses(t, compte, ds)->0.len() && (#[trigger] dossiers_poses(
                t,
                compte,
                ds,
            )->0[j]).compte_id == compte && dossiers_poses(t, compte, ds)->0[j].chemin
                == ds[k].chemin,
    decreases ds.len(),
{
    let u = dossiers_poses(t, compte, ds.drop_last())->0;
    let v = dossiers_poses(t, compte, ds)->0;
    let d = ds.last();
    if k < ds.len() - 1 {
        lemme_poses_presents(t, compte, ds.drop_last(), k);
        let j = choose|j: int|
            0 <= j < u.len() && (#[trigger] u[j]).compte_id == compte && u[j].chemin == ds[k].chemin;
        assert(v[j].compte_id == compte && v[j].chemin == ds[k].chemin);
    } else {
        lemme_premier(u, |x: DossierLocalVue| x.compte_id == compte && x.chemin == d.chemin);
        if let Some(x) = dossier_en(u, compte, d.chemin) {
            let j = choose|j: int| 0 <= j < u.len() && u[j] == x;
            assert(v[j].compte_id == compte && v[j].chemin == d.chemin);
        } else {
            assert(v[u.len() as int].chemin == d.chemin);
        }
    }
}

/// Announcing folders of an account leaves those of the others as they are.
proof fn lemme_poses_autres(t: Seq<DossierLocalVue>, compte: i64, ds: Seq<DossierVue>)
    requires
        dossiers_poses(t, compte, ds) is Some,
    ensures
        dossiers_poses(t, compte, ds)->0.filter(d_un_autre(compte)) == t.filter(d_un_autre(compte)),
    decreases ds.len(),
{
    if ds.len() > 0 {
        lemme_poses_autres(t, compte, ds.drop_last());
        let u = dossiers_poses(t, compte, ds.drop_last())->0;
        let p = d_un_autre(compte);
        if dossier_en(u, compte, ds.last().chemin) is Some {
            lemme_annonce_autres(u, compte, ds.last());
        } else {
            let x = dossier_nouveau(suivant(ids_dossiers(u)) as i64, compte, ds.last());
            u.lemma_filter_push(x, p);
        }
    }
}

proof fn lemme_annonce_autres(t: Seq<DossierLocalVue>, compte: i64, d: DossierVue)
    ensures
        t.map_values(dossier_annonce(compte, d)).filter(d_un_autre(compte)) == t.filter(
            d_un_autre(compte),
        ),
    decreases t.len(),
{
    reveal(Seq::filter);
    let u = t.map_values(dossier_annonce(compte, d));
    if t.len() > 0 {
        lemme_annonce_autres(t.drop_last(), compte, d);
        assert(u.drop_last() =~= t.drop_last().map_values(dossier_annonce(compte, d)));
    } else {
        assert(u =~= t);
    }
}

/// Once the server has announced the folders of an account, its paths are those that
/// were announced, and the folders of the other accounts are as they were, as are the
/// accounts and the moves in progress.
pub proof fn loi_arborescence_exacte(
    m: MagasinVue,
    compte: i64,
    ds: Seq<DossierVue>,
    chemin: Seq<char>,
)
    requires
        arborescence_posee(m, compte, ds) is Some,
    ensures
        dossier_en(arborescence_posee(m, compte, ds)->0.dossiers, compte, chemin) is Some
            <==> annonce_chemin(ds, chemin),
        arborescence_posee(m, compte, ds)->0.dossiers.filter(d_un_autre(compte))
            == m.dossiers.filter(d_un_autre(compte)),
        arborescence_posee(m, compte, ds)->0.comptes == m.comptes,
        arborescence_posee(m, compte, ds)->0.operations == m.operations,
{
    let n = arborescence_posee(m, compte, ds)->0;
    let t = dossiers_poses(m.dossiers, compte, ds)->0;
    let p = disparu(compte, ds);
    let q = |d: DossierLocalVue| !p(d);
    let c = |d: DossierLocalVue| d.compte_id == compte && d.chemin == chemin;
    lemme_premier(n.dossiers, c);
    if let Some(d) = dossier_en(n.dossiers, compte, chemin) {
        let j = choose|j: int| 0 <= j < n.dossiers.len() && n.dossiers[j] == d;
        loi_dossier_disparu(m, compte, ds, j);
    }
    if annonce_chemin(ds, chemin) {
        let k = choose|k: int| 0 <= k < ds.len() && (#[trigger] ds[k]).chemin == chemin;
        lemme_poses_presents(m.dossiers, compte, ds, k);
        let j = choose|j: int|
            0 <= j < t.len() && (#[trigger] t[j]).compte_id == compte && t[j].chemin
                == ds[k].chemin;
        lemme_filtre_garde(t, q, j);
        let i = choose|i: int| 0 <= i < t.filter(q).len() && #[trigger] t.filter(q)[i] == t[j];
        assert(c(n.dossiers[i]));
    }
    lemme_poses_autres(m.dossiers, compte, ds);
    lemme_filtre_compose(t, q, d_un_autre(compte));
}

/// Once the server has announced the folders of an account, a folder that was there
/// and stays, and any folder of another account, keeps its identifier, its local state
/// and its messages; one that is no longer announced is gone with its messages.
pub proof fn loi_messages_suivent(m: MagasinVue, compte: i64, ds: Seq<DossierVue>, i: int)
    requires
        valide(m),
        arborescence_posee(m, compte, ds) is Some,
        0 <= i < m.dossiers.len(),
    ensures
        ({
            let n = arborescence_posee(m, compte, ds)->0;
            let d = m.dossiers[i];
            if d.compte_id != compte || annonce_chemin(ds, d.chemin) {
                &&& dossier_numero(n.dossiers, d.id) matches Some(e) && etat_garde(d, e)
                &&& messages_de(n.messages, d.id) == messages_de(m.messages, d.id)
            } else {
                &&& dossier_numero(n.dossiers, d.id) is None
                &&& messages_de(n.messages, d.id).len() == 0
            }
        }),
{
    let n = arborescence_posee(m, compte, ds)->0;
    let d = m.dossiers[i];
    let t = dossiers_poses(m.dossiers, compte, ds)->0;
    let p = disparu(compte, ds);
    let q = |x: DossierLocalVue| !p(x);
    let o = |l: LigneVue| !orphelin(t, p)(l);
    let c = |l: LigneVue| l.dossier == d.id;
    lemme_compte_present(m.comptes, compte);
    lemme_dossiers_poses_valide(m, compte, ds);
    lemme_poses_garde(m.dossiers, compte, ds, i);
    let r = |x: DossierLocalVue| x.id == d.id;
    lemme_premier(n.dossiers, r);
    // The only row of this identifier.
    assert forall|k: int| 0 <= k < t.len() && (#[trigger] t[k]).id == d.id implies k == i by {
        assert(cle_dossier()(t[k]) == cle_dossier()(t[i]));
    }
    assert forall|k: int| 0 <= k < n.dossiers.len() && (#[trigger] n.dossiers[k]).id == d.id implies
        n.dossiers[k] == t[i] && q(t[i]) by {
        lemme_filtre_source(t, q, k);
        let z = choose|z: int| 0 <= z < t.len() && #[trigger] t[z] == t.filter(q)[k];
        assert(z == i);
    }
    if d.compte_id != compte || annonce_chemin(ds, d.chemin) {
        lemme_filtre_garde(t, q, i);
        let k = choose|k: int| 0 <= k < t.filter(q).len() && #[trigger] t.filter(q)[k] == t[i];
        assert(r(n.dossiers[k]));
        let e = dossier_numero(n.dossiers, d.id)->0;
        let z = choose|z: int| 0 <= z < n.dossiers.len() && n.dossiers[z] == e;
        assert(n.dossiers[z].id == d.id);
        assert(!compris(t, p, d.id)) by {
            assert forall|k: int| 0 <= k < t.len() && p(#[trigger] t[k]) implies t[k].id != d.id by {}
        }
        lemme_filtre_compose(m.messages, o, c);
    } else {
        assert(p(t[i]));
        if dossier_numero(n.dossiers, d.id) is Some {
            let e = dossier_numero(n.dossiers, d.id)->0;
            let z = choose|z: int| 0 <= z < n.dossiers.len() && n.dossiers[z] == e;
            assert(n.dossiers[z].id == d.id);
        }
        assert(compris(t, p, d.id));
        let f = n.messages.filter(c);
        if f.len() > 0 {
            lemme_filtre_source(n.messages, c, 0);
            let k = choose|k: int| 0 <= k < n.messages.len() && #[trigger] n.messages[k] == f[0];
            lemme_filtre_source(m.messages, o, k);
        }
    }
}

/// A change of `UIDVALIDITY` empties the folder; without one its messages stay.
/// The messages of the other folders stay in any case.
pub proof fn loi_rupture_vide(m: MagasinVue, dossier: i64, etat: EtatDossier, autre: i64)
    requires
        autre != dossier,
    ensures
        rupture(m, dossier, etat) ==> messages_de(
            etat_pose(m, dossier, etat).messages,
            dossier,
        ).len() == 0,
        !rupture(m, dossier, etat) ==> etat_pose(m, dossier, etat).messages == m.messages,
        messages_de(etat_pose(m, dossier, etat).messages, autre) == messages_de(m.messages, autre),
{
    if rupture(m, dossier, etat) {
        let p = |l: LigneVue| l.dossier == dossier;
        let q = |l: LigneVue| !p(l);
        let t = m.messages.filter(q);
        if t.filter(p).len() > 0 {
            lemme_filtre_source(t, p, 0);
            let k = choose|k: int| 0 <= k < t.len() && #[trigger] t[k] == t.filter(p)[0];
            lemme_filtre_source(m.messages, q, k);
        }
        lemme_filtre_compose(m.messages, q, |l: LigneVue| l.dossier == autre);
    }
}

/// A selection of rows that an earlier one keeps all of is not changed by it.
proof fn lemme_filtre_compose<A>(s: Seq<A>, q: spec_fn(A) -> bool, p: spec_fn(A) -> bool)
    requires
        forall|a: A| #[trigger] p(a) ==> q(a),
    ensures
        s.filter(q).filter(p) == s.filter(p),
    decreases s.len(),
{
    reveal(Seq::filter);
    if s.len() > 0 {
        lemme_filtre_compose(s.drop_last(), q, p);
        if q(s.last()) {
            assert(s.filter(q).drop_last() =~= s.drop_last().filter(q));
        }
    }
}

/// A message that is put in a folder again has one row still, which keeps all but
/// its flags.
pub proof fn loi_message_relu(t: Seq<LigneVue>, dossier: i64, m: MessageVue)
    requires
        message_en(t, dossier, m.uid) is Some,
    ensures
        message_pose(t, dossier, m).len() == t.len(),
        forall|i: int|
            0 <= i < t.len() ==> (#[trigger] message_pose(t, dossier, m)[i]) == (if t[i].dossier
                == dossier && t[i].message.uid == m.uid {
                LigneVue {
                    message: MessageVue { lu: m.lu, repondu: m.repondu, ..t[i].message },
                    ..t[i]
                }
            } else {
                t[i]
            }),
{
}

/// A message removed from a folder is no longer found there.
pub proof fn loi_message_retire(t: Seq<LigneVue>, dossier: i64, uids: Seq<u32>, uid: u32)
    requires
        uids.contains(uid),
    ensures
        message_en(sans(t, dans_uids(dossier, uids)), dossier, uid) is None,
{
    let p = |l: LigneVue| l.dossier == dossier && l.message.uid == uid;
    let q = dans_uids(dossier, uids);
    let r = sans(t, q);
    lemme_premier(r, p);
    if let Some(l) = message_en(r, dossier, uid) {
        let i = choose|i: int| 0 <= i < r.len() && r[i] == l;
        lemme_filtre_source(t, |l: LigneVue| !q(l), i);
    }
}

/// The messages of a folder are shown once each, the latest received first.
pub proof fn loi_messages_en_ordre(t: Seq<LigneVue>, dossier: i64)
    ensures
        en_ordre(messages_affiches(t, dossier), ordre_messages()),
        messages_affiches(t, dossier).to_multiset() == messages_de(t, dossier).to_multiset(),
{
    lemme_trie(messages_de(t, dossier), ordre_messages());
}

/// The order of ranks is a strict order.
proof fn lemme_precede(a: Seq<nat>, b: Seq<nat>, c: Seq<nat>)
    ensures
        precede(a, b) ==> !precede(b, a),
        !precede(b, a) && !precede(c, b) ==> !precede(c, a),
    decreases a.len(),
{
    if a.len() > 0 && b.len() > 0 && c.len() > 0 {
        lemme_precede(a.drop_first(), b.drop_first(), c.drop_first());
    }
    if a.len() > 0 && b.len() > 0 {
        lemme_precede(a.drop_first(), b.drop_first(), Seq::empty());
    }
}

/// The folders of an account are shown once each, in the order of the tree; `INBOX`
/// is the first if it is there.
pub proof fn loi_dossiers_en_ordre(t: Seq<DossierLocalVue>, compte: i64)
    ensures
        en_ordre(dossiers_affiches(t, compte), ordre_affichage()),
        dossiers_affiches(t, compte).to_multiset() == t.filter(
            |d: DossierLocalVue| d.compte_id == compte,
        ).to_multiset(),
        forall|i: int|
            0 <= i < dossiers_affiches(t, compte).len() && (#[trigger] dossiers_affiches(
                t,
                compte,
            )[i]).chemin == "INBOX"@ ==> dossiers_affiches(t, compte)[0].chemin == "INBOX"@,
{
    let avant = ordre_affichage();
    assert(ordre_faible(avant)) by {
        assert forall|a: DossierLocalVue, b: DossierLocalVue| #[trigger] avant(a, b) implies !avant(
            b,
            a,
        ) by {
            lemme_precede(
                rangs_chemin(a.chemin, a.separateur),
                rangs_chemin(b.chemin, b.separateur),
                Seq::empty(),
            );
        }
        assert forall|a: DossierLocalVue, b: DossierLocalVue, c: DossierLocalVue|
            !#[trigger] avant(b, a) && !#[trigger] avant(c, b) implies !avant(c, a) by {
            lemme_precede(
                rangs_chemin(a.chemin, a.separateur),
                rangs_chemin(b.chemin, b.separateur),
                rangs_chemin(c.chemin, c.separateur),
            );
        }
    }
    lemme_trie(t.filter(|d: DossierLocalVue| d.compte_id == compte), avant);
    let r = dossiers_affiches(t, compte);
    assert forall|i: int| 0 <= i < r.len() && (#[trigger] r[i]).chemin == "INBOX"@ implies r[0].chemin
        == "INBOX"@ by {
        if i > 0 {
            assert(!avant(r[i], r[0]));
        }
    }
}

/// Whether a folder is under another, at whatever depth.
pub open spec fn dessous(d: DossierLocalVue, parent: DossierLocalVue) -> bool {
    &&& parent.separateur.len() == 1
    &&& d.separateur == parent.separateur
    &&& (parent.chemin + parent.separateur).is_prefix_of(d.chemin)
}

/// Whether two folders are shown in the same part of the tree: `INBOX`, those with a
/// role, or the others.
pub open spec fn meme_partie(a: DossierLocalVue, b: DossierLocalVue) -> bool {
    &&& (a.chemin == "INBOX"@) == (b.chemin == "INBOX"@)
    &&& (a.role.len() > 0) == (b.role.len() > 0)
}

/// The ranks of a folder that is under another.
proof fn lemme_dessous(d: DossierLocalVue, parent: DossierLocalVue)
    requires
        dessous(d, parent),
    ensures
        rangs_chemin(parent.chemin, parent.separateur).push(0).is_prefix_of(
            rangs_chemin(d.chemin, d.separateur),
        ),
{
    let p = parent.chemin + parent.separateur;
    let n = p.len() as int;
    let r = rangs_chemin(d.chemin, d.separateur);
    let q = rangs_chemin(parent.chemin, parent.separateur).push(0);
    assert(parent.separateur =~= seq![parent.separateur[0]]);
    assert forall|i: int| 0 <= i < n implies q[i] == r.subrange(0, n)[i] by {
        assert(d.chemin.subrange(0, n)[i] == p[i]);
        assert(d.chemin[i] == p[i]);
    }
    assert(q =~= r.subrange(0, n));
}

/// What comes between ranks and longer ones, which go on with that of a separator,
/// goes on so too.
proof fn lemme_entre(p: Seq<nat>, k: Seq<nat>, j: Seq<nat>)
    requires
        p.push(0).is_prefix_of(j),
        !precede(k, p),
        !precede(j, k),
    ensures
        k == p || p.push(0).is_prefix_of(k),
    decreases p.len(),
{
    assert(forall|i: int| 0 <= i <= p.len() ==> j[i] == #[trigger] p.push(0)[i]) by {
        assert forall|i: int| 0 <= i <= p.len() implies j[i] == #[trigger] p.push(0)[i] by {
            assert(j.subrange(0, p.len() as int + 1)[i] == p.push(0)[i]);
        }
    }
    if p.len() == 0 {
        assert(j[0] == p.push(0)[0]);
        if k.len() > 0 {
            assert(k.subrange(0, 1) =~= p.push(0));
        } else {
            assert(k =~= p);
        }
    } else {
        assert(j[0] == p.push(0)[0]);
        let q = p.drop_first();
        assert(j.drop_first().subrange(0, q.len() as int + 1) =~= q.push(0)) by {
            assert forall|i: int| 0 <= i <= q.len() implies j.drop_first()[i] == q.push(0)[i] by {
                assert(j[i + 1] == p.push(0)[i + 1]);
            }
        }
        lemme_entre(q, k.drop_first(), j.drop_first());
        if k.drop_first() == q {
            assert(k =~= seq![k[0]] + k.drop_first());
            assert(p =~= seq![p[0]] + q);
        } else {
            let m = k.drop_first();
            assert(k.subrange(0, p.len() as int + 1) =~= p.push(0)) by {
                assert forall|i: int| 0 <= i <= p.len() implies k[i] == p.push(0)[i] by {
                    if i > 0 {
                        assert(m.subrange(0, q.len() as int + 1)[i - 1] == q.push(0)[i - 1]);
                    }
                }
            }
        }
    }
}

/// Ranks come before longer ones that begin with them.
proof fn lemme_prefixe_precede(p: Seq<nat>, j: Seq<nat>)
    requires
        p.push(0).is_prefix_of(j),
    ensures
        precede(p, j),
    decreases p.len(),
{
    assert(j.subrange(0, p.len() as int + 1)[0] == p.push(0)[0]);
    if p.len() > 0 {
        let q = p.drop_first();
        assert(j.drop_first().subrange(0, q.len() as int + 1) =~= q.push(0)) by {
            assert forall|i: int| 0 <= i <= q.len() implies j.drop_first()[i] == q.push(0)[i] by {
                assert(j.subrange(0, p.len() as int + 1)[i + 1] == p.push(0)[i + 1]);
            }
        }
        lemme_prefixe_precede(q, j.drop_first());
    }
}

/// A folder comes right after its parent and those that are under it: in its part of
/// the tree a parent is shown before what is under it, and only what is under it is
/// shown between the two.
pub proof fn loi_sous_son_parent(t: Seq<DossierLocalVue>, compte: i64, i: int, j: int, k: int)
    requires
        0 <= i < dossiers_affiches(t, compte).len(),
        0 <= j < dossiers_affiches(t, compte).len(),
        meme_partie(dossiers_affiches(t, compte)[i], dossiers_affiches(t, compte)[j]),
        dessous(dossiers_affiches(t, compte)[j], dossiers_affiches(t, compte)[i]),
    ensures
        i < j,
        i < k < j && dossiers_affiches(t, compte)[k].separateur == dossiers_affiches(
            t,
            compte,
        )[i].separateur ==> dossiers_affiches(t, compte)[k].chemin == dossiers_affiches(
            t,
            compte,
        )[i].chemin || dessous(dossiers_affiches(t, compte)[k], dossiers_affiches(t, compte)[i]),
{
    loi_dossiers_en_ordre(t, compte);
    let r = dossiers_affiches(t, compte);
    let avant = ordre_affichage();
    let p = rangs_chemin(r[i].chemin, r[i].separateur);
    let q = rangs_chemin(r[j].chemin, r[j].separateur);
    lemme_dessous(r[j], r[i]);
    lemme_prefixe_precede(p, q);
    assert(avant(r[i], r[j]));
    if i == j {
        lemme_precede(p, q, Seq::empty());
    }
    if i < k < j && r[k].separateur == r[i].separateur {
        let m = rangs_chemin(r[k].chemin, r[k].separateur);
        assert(!avant(r[k], r[i]));
        assert(!avant(r[j], r[k]));
        lemme_entre(p, m, q);
        let s = r[i].separateur;
        let a = r[i].chemin;
        let b = r[k].chemin;
        assert(s =~= seq![s[0]]);
        if m == p {
            assert forall|x: int| 0 <= x < a.len() implies a[x] == b[x] by {
                assert(p[x] == m[x]);
                lemme_rang_car(s, a[x], b[x]);
            }
            assert(a =~= b);
        } else {
            assert forall|x: int| 0 <= x < a.len() + 1 implies (a + s)[x] == b[x] by {
                assert(m.subrange(0, a.len() as int + 1)[x] == p.push(0)[x]);
                if x < a.len() {
                    lemme_rang_car(s, a[x], b[x]);
                } else {
                    lemme_rang_car(s, s[0], b[x]);
                }
            }
            assert(b.subrange(0, a.len() as int + 1) =~= a + s);
        }
    }
}

/// Characters of the same rank are the same.
proof fn lemme_rang_car(separateur: Seq<char>, a: char, b: char)
    requires
        rang_car(separateur, a) == rang_car(separateur, b),
    ensures
        a == b,
{
    if separateur == seq![a] {
        assert(seq![a][0] == seq![b][0]);
    }
}

/// A folder placed before a favourite comes right before it, and the other
/// favourites keep their order. The rows stay in place: `i` is that of the folder,
/// `j` that of the other, `a` and `b` those of two more.
pub proof fn loi_favori_place_avant(t: Seq<DossierLocalVue>, i: int, j: int, a: int, b: int)
    requires
        cles_distinctes(t, cle_dossier()),
        0 <= i < t.len(),
        0 <= j < t.len(),
        i != j,
        t[j].favori is Some,
        favori_place(t, t[i].id, Some(t[j].id)) is Some,
        0 <= a < t.len(),
        0 <= b < t.len(),
        a != i,
        b != i,
        t[a].favori is Some,
        t[b].favori is Some,
    ensures
        ({
            let u = favori_place(t, t[i].id, Some(t[j].id))->0;
            &&& u.len() == t.len()
            &&& u[i].favori is Some
            &&& u[j].favori is Some
            &&& u[i].favori->0 + 1 == u[j].favori->0
            &&& u[a].favori is Some
            &&& u[b].favori is Some
            &&& u[a].favori->0 != u[i].favori->0
            &&& (u[a].favori->0 < u[b].favori->0 <==> t[a].favori->0 < t[b].favori->0)
        }),
{
    let dossier = t[i].id;
    let u = t.map_values(rang_donne(dossier, None));
    lemme_premier(u, |d: DossierLocalVue| d.id == t[j].id);
    assert(u[j].id == t[j].id && u[j].favori == t[j].favori) by {
        assert(cle_dossier()(t[i]) != cle_dossier()(t[j]));
    }
    assert(dossier_numero(u, t[j].id) is Some) by {
        if dossier_numero(u, t[j].id) is None {
            assert(u[j].id != t[j].id);
        }
    }
    let d = dossier_numero(u, t[j].id)->0;
    let k = choose|k: int| 0 <= k < u.len() && u[k] == d;
    assert(u[k].id == t[k].id);
    assert(k == j) by {
        assert(cle_dossier()(t[k]) == t[k].id && cle_dossier()(t[j]) == t[j].id);
    }
    assert(cle_dossier()(t[a]) != cle_dossier()(t[i]));
    assert(cle_dossier()(t[b]) != cle_dossier()(t[i]));
    let rang = t[j].favori->0;
    let v = u.map_values(rang_recule(rang));
    let w = v.map_values(rang_donne(dossier, Some(rang)));
    assert(u[a] == t[a] && u[b] == t[b]);
    lemme_rang_borne(u, a);
    lemme_rang_borne(u, b);
    lemme_rang_borne(u, j);
    assert(w[i].favori == Some(rang));
    assert(w[j].favori == Some((rang + 1) as i64));
}

/// A folder placed after all favourites has a rank above theirs, which stay.
pub proof fn loi_favori_place_fin(t: Seq<DossierLocalVue>, i: int, a: int)
    requires
        cles_distinctes(t, cle_dossier()),
        0 <= i < t.len(),
        favori_place(t, t[i].id, None) is Some,
        0 <= a < t.len(),
        a != i,
        t[a].favori is Some,
    ensures
        ({
            let u = favori_place(t, t[i].id, None)->0;
            &&& u[i].favori is Some
            &&& u[a].favori == t[a].favori
            &&& u[a].favori->0 < u[i].favori->0
        }),
{
    let dossier = t[i].id;
    let u = t.map_values(rang_donne(dossier, None));
    assert(cle_dossier()(t[a]) != cle_dossier()(t[i]));
    assert(u[a] == t[a]);
    lemme_rang_borne(u, a);
    lemme_premier(u, |d: DossierLocalVue| d.id == dossier);
    assert(u[i].id == dossier);
    if dossier_numero(u, dossier) is None {
        assert(u[i].id != dossier);
    }
}

} // verus!
