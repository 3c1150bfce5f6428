//! What the requests of the interface come to, stated on the rows of the index and on
//! what is handed to the workers.

use vstd::prelude::*;

use crate::annuaire::{connu, loi_inscription, loi_radiation, valeur};
use crate::boite::{
    a_relire, avec_erreur, compte_actualise, compte_inscrit, connexion_demandee, corps_demande,
    courant_pose, deconnexion, deplacement_demande, dossier_change, dossier_ouvert, envoi, envoi_de,
    etat_de, index_marque, marquage_demande, masque_en, piece_demandee, repli, retrait, revisee,
    suppression_demandee, tenue, BoiteVue, CourantVue, EffetVue, Etat,
};
use crate::coherence::{compte_present, valide};
use crate::commande::{CibleVue, CommandeVue, IdentifiantsVue};
use crate::tables::{
    dossiers_affiches, du_compte, lemme_premier, lemme_trie, marquage, nombre_messages,
    nombre_non_lus, ordre_affichage, premier, recompte, sans, CompteVue, DossierLocalVue, LigneVue,
    MagasinVue, MessageVue,
};
use crate::texte::sans_blancs;
use crate::travail::PORT_IMAPS;

verus! {

/// Whether a request was handed to the worker of an account, and nothing else was done
/// outside: to the worker that runs, or to one that is started for it.
pub open spec fn parvient(avant: BoiteVue, apres: BoiteVue, compte: i64, c: CommandeVue) -> bool {
    exists|e: EffetVue|
        {
            &&& apres.effets == #[trigger] avant.effets.push(e)
            &&& e == (EffetVue::Envoyer { compte, commande: c }) || lance_pour(avant, e, compte, c)
        }
}

/// Whether a worker is started for a request, with what opens the account.
pub open spec fn lance_pour(avant: BoiteVue, e: EffetVue, compte: i64, c: CommandeVue) -> bool {
    &&& connu(avant.identites, compte)
    &&& e == (EffetVue::Lancer {
        compte,
        identifiants: valeur(avant.identites, compte)->0,
        commandes: seq![c],
    })
}

/// Whether an account has a worker, or can be opened again.
pub open spec fn joignable(b: BoiteVue, compte: i64) -> bool {
    connu(b.sessions, compte) || connu(b.identites, compte)
}

/// A request is handed to the worker of the account, where it has one or can have one.
proof fn lemme_envoi(b: BoiteVue, compte: i64, c: CommandeVue)
    ensures
        ({
            let (n, r) = envoi(b, compte, c);
            &&& r <==> joignable(b, compte)
            &&& r ==> parvient(b, n, compte, c)
            &&& !r ==> n.effets == b.effets && n.erreur.len() > 0
            &&& n.magasin == b.magasin
            &&& n.courant == b.courant
        }),
{
    let (n, r) = envoi(b, compte, c);
    if connu(b.sessions, compte) {
        let e = EffetVue::Envoyer { compte, commande: c };
        assert(n.effets == b.effets.push(e));
    } else if connu(b.identites, compte) {
        let i = valeur(b.identites, compte)->0;
        let e = EffetVue::Lancer { compte, identifiants: i, commandes: seq![c] };
        assert(n.effets == b.effets.push(e));
    } else {
        reveal_strlit("ce compte n'est pas connecté");
    }
}

// ------------------------------------------------------------------------ deletion

/// A row that is shown is one of the index.
proof fn lemme_affiche(t: Seq<DossierLocalVue>, compte: i64, d: DossierLocalVue)
    ensures
        dossiers_affiches(t, compte).contains(d) <==> t.contains(d) && d.compte_id == compte,
{
    broadcast use vstd::seq_lib::group_to_multiset_ensures;

    let p = |d: DossierLocalVue| d.compte_id == compte;
    let f = t.filter(p);
    lemme_trie(f, ordre_affichage());
    let s = dossiers_affiches(t, compte);
    if s.contains(d) {
        assert(s.to_multiset().count(d) > 0);
        assert(f.contains(d));
        t.lemma_filter_contains_rev(p, d);
        let i = choose|i: int| 0 <= i < f.len() && f[i] == d;
        t.lemma_filter_pred(p, i);
    }
    if t.contains(d) && d.compte_id == compte {
        let i = choose|i: int| 0 <= i < t.len() && t[i] == d;
        t.lemma_filter_contains(p, i);
        assert(f.to_multiset().count(d) > 0);
        assert(s.contains(d));
    }
}

/// Messages are deleted by moving them to a folder of their own account that the index
/// knows as its trash. Where the account has no such folder, or where they are in it
/// already, the deletion is refused, nothing is handed out and the index is as it was.
pub proof fn loi_suppression(b: BoiteVue, uids: Seq<u32>, c: CourantVue, m: MagasinVue)
    requires
        b.courant == Some(c),
        b.magasin == Some(m),
        i32::MIN <= c.compte <= i32::MAX,
    ensures
        ({
            let (n, r) = suppression_demandee(b, uids);
            &&& n.magasin == b.magasin
            &&& r ==> exists|d: DossierLocalVue| #[trigger]
                m.dossiers.contains(d) && {
                    &&& d.compte_id == c.compte
                    &&& d.role == seq!['T', 'r', 'a', 's', 'h']
                    &&& d.chemin != c.chemin
                    &&& parvient(
                        b,
                        n,
                        c.compte,
                        CommandeVue::Deplacer {
                            source: c.chemin,
                            uids,
                            cible: CibleVue {
                                compte: c.compte,
                                chemin: d.chemin,
                                identifiants: None,
                            },
                        },
                    )
                }
            &&& !r ==> n.effets == b.effets
            &&& (forall|i: int|
                0 <= i < m.dossiers.len() && (#[trigger] m.dossiers[i]).compte_id == c.compte
                    ==> m.dossiers[i].role != seq!['T', 'r', 'a', 's', 'h']) ==> !r
                && n.erreur.len() > 0
            &&& uids.len() > 0 && joignable(b, c.compte) && (exists|i: int|
                0 <= i < m.dossiers.len() && (#[trigger] m.dossiers[i]).compte_id == c.compte
                    && m.dossiers[i].role == seq!['T', 'r', 'a', 's', 'h']) && (forall|i: int|
                0 <= i < m.dossiers.len() && (#[trigger] m.dossiers[i]).compte_id == c.compte
                    && m.dossiers[i].role == seq!['T', 'r', 'a', 's', 'h'] ==> m.dossiers[i].chemin
                    != c.chemin) ==> r
        }),
{
    reveal_strlit("Trash");
    reveal_strlit("ce compte n'a pas de corbeille déclarée");
    let mot = seq!['T', 'r', 'a', 's', 'h'];
    assert("Trash"@ =~= mot);
    let s = dossiers_affiches(m.dossiers, c.compte);
    let p = |d: DossierLocalVue| d.role == "Trash"@;
    lemme_premier(s, p);
    match premier(s, p) {
        Some(d) => {
            lemme_affiche(m.dossiers, c.compte, d);
            assert(m.dossiers.contains(d));
            let i = choose|i: int| 0 <= i < m.dossiers.len() && m.dossiers[i] == d;
            assert(m.dossiers[i].role == mot && m.dossiers[i].compte_id == c.compte);
            lemme_envoi(
                b,
                c.compte,
                CommandeVue::Deplacer {
                    source: c.chemin,
                    uids,
                    cible: CibleVue { compte: c.compte, chemin: d.chemin, identifiants: None },
                },
            );
        },
        None => {
            assert forall|i: int|
                0 <= i < m.dossiers.len() && (#[trigger] m.dossiers[i]).compte_id
                    == c.compte implies m.dossiers[i].role != mot by {
                let d = m.dossiers[i];
                lemme_affiche(m.dossiers, c.compte, d);
                assert(m.dossiers.contains(d));
                let k = choose|k: int| 0 <= k < s.len() && s[k] == d;
                assert(!p(s[k]));
            }
        },
    }
}

// --------------------------------------------------------------------------- moves

/// A move that is accepted hands the worker of the open folder these messages, this
/// folder and this target; what opens the target goes with it exactly if it is another
/// account, which is connected then. A move to the folder itself, of no message, or to
/// an account that is not connected hands out nothing.
pub proof fn loi_deplacement(
    b: BoiteVue,
    uids: Seq<u32>,
    compte: i64,
    chemin: Seq<char>,
    c: CourantVue,
)
    requires
        b.courant == Some(c),
    ensures
        ({
            let (n, r) = deplacement_demande(b, uids, compte, chemin);
            let ailleurs = compte != c.compte;
            &&& n.magasin == b.magasin
            &&& r <==> uids.len() > 0 && (ailleurs || chemin != c.chemin) && (ailleurs ==> connu(
                b.identites,
                compte,
            ) && etat_de(b, compte) == Etat::Pret) && joignable(b, c.compte)
            &&& r ==> parvient(
                b,
                n,
                c.compte,
                CommandeVue::Deplacer {
                    source: c.chemin,
                    uids,
                    cible: CibleVue {
                        compte,
                        chemin,
                        identifiants: if ailleurs {
                            valeur(b.identites, compte)
                        } else {
                            None
                        },
                    },
                },
            )
            &&& !r ==> n.effets == b.effets
        }),
{
    let id = if compte == c.compte {
        None
    } else {
        valeur(b.identites, compte)
    };
    lemme_envoi(
        b,
        c.compte,
        CommandeVue::Deplacer {
            source: c.chemin,
            uids,
            cible: CibleVue { compte, chemin, identifiants: id },
        },
    );
}

// ------------------------------------------------------------------------- marking

/// How many rows of a folder are unread.
pub open spec fn non_lus_de(t: Seq<LigneVue>, dossier: i64) -> nat
    decreases t.len(),
{
    if t.len() == 0 {
        0
    } else {
        non_lus_de(t.drop_last(), dossier) + if t.last().dossier == dossier && !t.last().message.lu {
            1nat
        } else {
            0nat
        }
    }
}

/// How many rows a folder has.
pub open spec fn lignes_de(t: Seq<LigneVue>, dossier: i64) -> nat
    decreases t.len(),
{
    if t.len() == 0 {
        0
    } else {
        lignes_de(t.drop_last(), dossier) + if t.last().dossier == dossier {
            1nat
        } else {
            0nat
        }
    }
}

proof fn lemme_comptes(t: Seq<LigneVue>, dossier: i64)
    ensures
        nombre_messages(t, dossier) == lignes_de(t, dossier),
        nombre_non_lus(t, dossier) == non_lus_de(t, dossier),
        non_lus_de(t, dossier) <= lignes_de(t, dossier),
    decreases t.len(),
{
    reveal(Seq::filter);
    if t.len() > 0 {
        lemme_comptes(t.drop_last(), dossier);
    }
}

/// Counting a folder anew gives it the number of its rows and of the unread ones, and
/// changes nothing else.
pub proof fn loi_recompte(m: MagasinVue, dossier: i64, i: int)
    requires
        lignes_de(m.messages, dossier) <= u32::MAX,
        0 <= i < m.dossiers.len(),
    ensures
        recompte(m, dossier) matches Some(n) && {
            &&& n.comptes == m.comptes
            &&& n.messages == m.messages
            &&& n.operations == m.operations
            &&& n.dossiers.len() == m.dossiers.len()
            &&& n.dossiers[i] == if m.dossiers[i].id == dossier {
                DossierLocalVue {
                    messages: lignes_de(m.messages, dossier) as u32,
                    non_lus: non_lus_de(m.messages, dossier) as u32,
                    ..m.dossiers[i]
                }
            } else {
                m.dossiers[i]
            }
        },
{
    lemme_comptes(m.messages, dossier);
}

/// Messages of the open folder that are marked are read in the index exactly if this
/// was asked, at once, and no other row changes; the folder shows the new number of
/// unread messages; and the worker is handed the same mark for the server.
pub proof fn loi_marquage(
    b: BoiteVue,
    uids: Seq<u32>,
    lu: bool,
    c: CourantVue,
    m: MagasinVue,
    i: int,
    j: int,
)
    requires
        b.courant == Some(c),
        b.magasin == Some(m),
        uids.len() > 0,
        lignes_de(m.messages, c.id) <= u32::MAX,
        0 <= i < m.messages.len(),
        0 <= j < m.dossiers.len(),
    ensures
        ({
            let (n, r) = marquage_demande(b, uids, lu);
            &&& r <==> joignable(b, c.compte)
            &&& r ==> parvient(
                b,
                n,
                c.compte,
                CommandeVue::MarquerLu { chemin: c.chemin, uids, lu },
            )
            &&& n.magasin matches Some(o) && {
                let l = m.messages[i];
                &&& o.messages.len() == m.messages.len()
                &&& l.dossier == c.id && uids.contains(l.message.uid) ==> o.messages[i] == (
                LigneVue { message: MessageVue { lu, ..l.message }, ..l })
                &&& !(l.dossier == c.id && uids.contains(l.message.uid)) ==> o.messages[i] == l
                &&& o.dossiers.len() == m.dossiers.len()
                &&& m.dossiers[j].id == c.id ==> o.dossiers[j] == (DossierLocalVue {
                    messages: lignes_de(o.messages, c.id) as u32,
                    non_lus: non_lus_de(o.messages, c.id) as u32,
                    ..m.dossiers[j]
                })
                &&& m.dossiers[j].id != c.id ==> o.dossiers[j] == m.dossiers[j]
                &&& o.comptes == m.comptes
                &&& o.operations == m.operations
            }
        }),
{
    let t = m.messages.map_values(marquage(c.id, uids, lu));
    let n0 = MagasinVue { messages: t, ..m };
    lemme_lignes_marquees(m.messages, c.id, uids, lu);
    loi_recompte(n0, c.id, j);
    let p = revisee(
        BoiteVue { magasin: Some(index_marque(m, c.id, uids, lu)), ..b },
    );
    lemme_envoi(p, c.compte, CommandeVue::MarquerLu { chemin: c.chemin, uids, lu });
    lemme_parvient(
        b,
        p,
        marquage_demande(b, uids, lu).0,
        c.compte,
        CommandeVue::MarquerLu { chemin: c.chemin, uids, lu },
    );
}

proof fn lemme_lignes_marquees(t: Seq<LigneVue>, dossier: i64, uids: Seq<u32>, lu: bool)
    ensures
        lignes_de(t.map_values(marquage(dossier, uids, lu)), dossier) == lignes_de(t, dossier),
    decreases t.len(),
{
    let f = marquage(dossier, uids, lu);
    if t.len() > 0 {
        lemme_lignes_marquees(t.drop_last(), dossier, uids, lu);
        assert(t.map_values(f).drop_last() =~= t.drop_last().map_values(f));
        assert(t.map_values(f).last() == f(t.last()));
    }
}

// ------------------------------------------------------- folders, bodies, attachments

/// A folder that the index knows is opened: it becomes the open folder, and the worker
/// of its account is asked to bring it up to date. One that it does not know is
/// refused, and nothing changes but the error told.
pub proof fn loi_ouverture(b: BoiteVue, compte: i64, chemin: Seq<char>, m: MagasinVue)
    requires
        b.magasin == Some(m),
    ensures
        ({
            let (n, r) = dossier_ouvert(b, compte, chemin);
            let connue = exists|i: int|
                0 <= i < m.dossiers.len() && (#[trigger] m.dossiers[i]).compte_id == compte
                    && m.dossiers[i].chemin == chemin;
            &&& n.magasin == b.magasin
            &&& r <==> connue && joignable(b, compte)
            &&& connue ==> {
                &&& n.courant matches Some(c) && c.compte == compte && c.chemin == chemin
                    && exists|i: int|
                    0 <= i < m.dossiers.len() && (#[trigger] m.dossiers[i]).id == c.id
                        && m.dossiers[i].compte_id == compte && m.dossiers[i].chemin == chemin
                &&& n.dossier_courant == chemin
                &&& n.compte_courant == compte as i32
            }
            &&& r ==> parvient(b, n, compte, CommandeVue::OuvrirDossier(chemin))
            &&& !connue ==> n == avec_erreur(b, n.erreur) && n.erreur.len() > 0
        }),
{
    let p = |d: DossierLocalVue| d.compte_id == compte && d.chemin == chemin;
    lemme_premier(m.dossiers, p);
    reveal_strlit("dossier inconnu : ");
    match premier(m.dossiers, p) {
        Some(d) => {
            let i = choose|i: int| 0 <= i < m.dossiers.len() && m.dossiers[i] == d;
            assert(m.dossiers[i].compte_id == compte && m.dossiers[i].chemin == chemin
                && m.dossiers[i].id == d.id);
            let q = courant_pose(b, Some(CourantVue { compte, chemin, id: d.id }));
            lemme_envoi(q, compte, CommandeVue::OuvrirDossier(chemin));
            lemme_parvient(b, q, dossier_ouvert(b, compte, chemin).0, compte, CommandeVue::OuvrirDossier(chemin));
        },
        None => {
            assert forall|i: int| 0 <= i < m.dossiers.len() implies !((
            #[trigger] m.dossiers[i]).compte_id == compte && m.dossiers[i].chemin == chemin) by {
                assert(!p(m.dossiers[i]));
            }
        },
    }
}

/// What is handed out from a state that differs in neither effects nor identities.
proof fn lemme_parvient(b: BoiteVue, q: BoiteVue, n: BoiteVue, compte: i64, c: CommandeVue)
    requires
        q.effets == b.effets,
        q.identites == b.identites,
    ensures
        parvient(q, n, compte, c) ==> parvient(b, n, compte, c),
{
    if parvient(q, n, compte, c) {
        let e = choose|e: EffetVue|
            {
                &&& n.effets == #[trigger] q.effets.push(e)
                &&& e == (EffetVue::Envoyer { compte, commande: c }) || lance_pour(q, e, compte, c)
            };
        assert(n.effets == b.effets.push(e));
    }
}

/// The body of a message, its source, or an attachment of it, is asked of the worker of
/// the open folder: of this folder, this message and this attachment, for the place
/// that was chosen. Nothing is asked for where no folder is open or the number is none.
pub proof fn loi_lectures_demandees(
    b: BoiteVue,
    uid: i32,
    brut: bool,
    indice: i32,
    destination: Option<Seq<char>>,
    c: CourantVue,
)
    requires
        b.courant == Some(c),
    ensures
        ({
            let (n, r) = corps_demande(b, uid, brut);
            &&& r <==> uid > 0 && joignable(b, c.compte)
            &&& r ==> parvient(
                b,
                n,
                c.compte,
                CommandeVue::Corps { chemin: c.chemin, uid: uid as u32, brut },
            )
            &&& !r ==> n.effets == b.effets
        }),
        ({
            let (n, r) = piece_demandee(b, uid, indice, destination);
            &&& r <==> uid > 0 && indice >= 0 && joignable(b, c.compte)
            &&& r ==> parvient(
                b,
                n,
                c.compte,
                CommandeVue::Piece {
                    chemin: c.chemin,
                    uid: uid as u32,
                    indice: indice as usize,
                    destination,
                },
            )
            &&& !r ==> n.effets == b.effets
        }),
{
    lemme_envoi(b, c.compte, CommandeVue::Corps { chemin: c.chemin, uid: uid as u32, brut });
    lemme_envoi(
        b,
        c.compte,
        CommandeVue::Piece {
            chemin: c.chemin,
            uid: uid as u32,
            indice: indice as usize,
            destination,
        },
    );
}

/// A folder that is hidden or shown again is so in the index, and no other row changes.
pub proof fn loi_masquage(
    b: BoiteVue,
    compte: i64,
    chemin: Seq<char>,
    masque: bool,
    m: MagasinVue,
    i: int,
)
    requires
        b.magasin == Some(m),
        valide(m),
        0 <= i < m.dossiers.len(),
    ensures
        ({
            let n = dossier_change(b, compte, chemin, masque_en(masque));
            &&& n.effets == b.effets
            &&& n.magasin matches Some(o) && {
                &&& o.dossiers.len() == m.dossiers.len()
                &&& o.dossiers[i] == if m.dossiers[i].compte_id == compte && m.dossiers[i].chemin
                    == chemin {
                    DossierLocalVue { masque, ..m.dossiers[i] }
                } else {
                    m.dossiers[i]
                }
                &&& o.comptes == m.comptes && o.messages == m.messages && o.operations
                    == m.operations
            }
        }),
{
    let p = |d: DossierLocalVue| d.compte_id == compte && d.chemin == chemin;
    lemme_premier(m.dossiers, p);
    if let Some(d) = premier(m.dossiers, p) {
        let k = choose|k: int| 0 <= k < m.dossiers.len() && m.dossiers[k] == d;
        let par_id = crate::coherence::cle_dossier();
        let par_chemin = crate::coherence::cle_chemin();
        if k < i {
            assert(par_id(m.dossiers[k]) != par_id(m.dossiers[i]));
            assert(par_chemin(m.dossiers[k]) != par_chemin(m.dossiers[i]));
        } else if i < k {
            assert(par_id(m.dossiers[i]) != par_id(m.dossiers[k]));
            assert(par_chemin(m.dossiers[i]) != par_chemin(m.dossiers[k]));
        }
    } else {
        assert(!p(m.dossiers[i]));
    }
}

/// An account that is folded or unfolded is so in the index, and nothing else changes
/// there.
pub proof fn loi_repli(b: BoiteVue, compte: i64, replie: bool, m: MagasinVue, i: int)
    requires
        b.magasin == Some(m),
        0 <= i < m.comptes.len(),
    ensures
        ({
            let n = repli(b, compte, replie);
            &&& n.effets == b.effets
            &&& n.magasin matches Some(o) && {
                &&& o.comptes.len() == m.comptes.len()
                &&& o.comptes[i] == if m.comptes[i].id == compte {
                    CompteVue { replie, ..m.comptes[i] }
                } else {
                    m.comptes[i]
                }
                &&& o.dossiers == m.dossiers && o.messages == m.messages && o.operations
                    == m.operations
            }
        }),
{
}

// ------------------------------------------------------------------------ accounts

/// Whether a worker is started for an account with what opens it, and the index knows
/// the account by its address and its server.
pub open spec fn compte_lance(n: BoiteVue, id: i64, i: IdentifiantsVue) -> bool {
    &&& n.effets.len() > 0
    &&& n.effets.last() == (EffetVue::Lancer {
        compte: id,
        identifiants: i,
        commandes: Seq::empty(),
    })
    &&& valeur(n.identites, id) == Some(i)
    &&& n.magasin is Some
    &&& exists|k: int|
        0 <= k < n.magasin->0.comptes.len() && (#[trigger] n.magasin->0.comptes[k]).id == id
            && n.magasin->0.comptes[k].adresse == i.utilisateur && n.magasin->0.comptes[k].hote
            == i.hote && n.magasin->0.comptes[k].utilisateur == i.utilisateur
            && n.magasin->0.comptes[k].port == 993
}

/// A connection that is asked for with a server and an address starts a worker with
/// them and with the password, under the account of that address, which the index knows
/// from then on; the accounts that it knew keep their address. Without a server or an
/// address, or without an open profile, it is refused.
pub proof fn loi_connexion_demandee(
    b: BoiteVue,
    hote: Seq<char>,
    adresse: Seq<char>,
    mot_de_passe: Seq<char>,
)
    requires
        tenue(b),
    ensures
        ({
            let (n, r) = connexion_demandee(b, hote, adresse, mot_de_passe);
            let h = sans_blancs(hote);
            let a = sans_blancs(adresse);
            &&& r ==> h.len() > 0 && a.len() > 0 && b.magasin is Some
            &&& !r ==> n.effets == b.effets && n.erreur.len() > 0
            &&& r ==> exists|id: i64| #[trigger]
                compte_lance(
                    n,
                    id,
                    IdentifiantsVue { hote: h, utilisateur: a, mot_de_passe },
                )
        }),
{
    reveal_strlit("serveur et adresse sont obligatoires");
    reveal_strlit("le profil n'est pas ouvert");
    reveal_strlit("index local : ");
    let h = sans_blancs(hote);
    let a = sans_blancs(adresse);
    let (n, r) = connexion_demandee(b, hote, adresse, mot_de_passe);
    let m = b.magasin->0;
    let (o, x) = compte_inscrit(m, a, h, PORT_IMAPS, a);
    let id = x->Ok_0;
    let i = IdentifiantsVue { hote: h, utilisateur: a, mot_de_passe };
    loi_inscription(b.identites, id, i, id);
    if r {
        let p = |c: CompteVue| c.adresse == a;
        lemme_premier(m.comptes, p);
        match premier(m.comptes, p) {
            Some(c) => {
                let k = choose|k: int| 0 <= k < m.comptes.len() && m.comptes[k] == c;
                assert(n.magasin->0.comptes[k].id == id && n.magasin->0.comptes[k].hote == h);
            },
            None => {
                assert(n.magasin->0.comptes[m.comptes.len() as int].id == id);
            },
        }
        assert(compte_lance(n, id, i));
    }
}

/// An account that is disconnected has no session any more and is shown as off line;
/// its worker is let go of, and the index is as it was.
pub proof fn loi_deconnexion(b: BoiteVue, compte: i64)
    requires
        tenue(b),
    ensures
        ({
            let n = deconnexion(b, compte);
            &&& !connu(n.sessions, compte)
            &&& etat_de(n, compte) == Etat::HorsLigne
            &&& n.magasin == b.magasin
            &&& n.identites == b.identites
            &&& connu(b.sessions, compte) ==> n.effets == b.effets.push(EffetVue::Fermer(compte))
            &&& !connu(b.sessions, compte) ==> n.effets == b.effets
        }),
{
    loi_radiation(b.sessions, compte, compte);
    loi_inscription(b.etats, compte, Etat::HorsLigne, compte);
}

/// Nothing is left of an account that is removed: no session, nothing that opens it, no
/// row of the index; and the rows of the other accounts stay.
pub proof fn loi_retrait(b: BoiteVue, compte: i64, m: MagasinVue, c: CompteVue, d: DossierLocalVue)
    requires
        tenue(b),
        b.magasin == Some(m),
        valide(m),
    ensures
        ({
            let n = retrait(b, compte);
            &&& !connu(n.sessions, compte)
            &&& !connu(n.identites, compte)
            &&& !connu(n.nouveaux, compte)
            &&& etat_de(n, compte) == Etat::HorsLigne
            &&& !(n.courant matches Some(x) && x.compte == compte)
            &&& n.magasin matches Some(o) && {
                &&& o.comptes.contains(c) <==> m.comptes.contains(c) && c.id != compte
                &&& o.dossiers.contains(d) <==> m.dossiers.contains(d) && d.compte_id != compte
            }
        }),
{
    loi_radiation(b.sessions, compte, compte);
    loi_radiation(b.identites, compte, compte);
    loi_radiation(b.etats, compte, compte);
    loi_radiation(b.nouveaux, compte, compte);
    let p = |x: CompteVue| x.id == compte;
    lemme_premier(m.comptes, p);
    lemme_sans(m.comptes, p, c);
    lemme_sans(m.dossiers, du_compte(compte), d);
    if premier(m.comptes, p) is None {
        if m.comptes.contains(c) {
            let i = choose|i: int| 0 <= i < m.comptes.len() && m.comptes[i] == c;
            assert(!p(m.comptes[i]));
        }
        if m.dossiers.contains(d) {
            let i = choose|i: int| 0 <= i < m.dossiers.len() && m.dossiers[i] == d;
            assert(compte_present(m.comptes, m.dossiers[i].compte_id));
            let k = choose|k: int|
                0 <= k < m.comptes.len() && (#[trigger] m.comptes[k]).id == d.compte_id;
            assert(!p(m.comptes[k]));
        }
    }
}

pub proof fn lemme_sans<A>(s: Seq<A>, p: spec_fn(A) -> bool, x: A)
    ensures
        sans(s, p).contains(x) <==> s.contains(x) && !p(x),
{
    let q = |a: A| !p(a);
    if s.filter(q).contains(x) {
        s.lemma_filter_contains_rev(q, x);
        let i = choose|i: int| 0 <= i < s.filter(q).len() && s.filter(q)[i] == x;
        s.lemma_filter_pred(q, i);
    }
    if s.contains(x) && q(x) {
        let i = choose|i: int| 0 <= i < s.len() && s[i] == x;
        s.lemma_filter_contains(q, i);
    }
}

/// An account that is brought up to date is asked for its tree, and, if the open folder
/// is one of its own, for that folder too: by its worker, or by one that is started for
/// it. One that cannot be opened is asked nothing.
pub proof fn loi_actualisation(b: BoiteVue, compte: i64)
    ensures
        ({
            let n = compte_actualise(b, compte);
            let v = if b.courant is Some && b.courant->0.compte == compte {
                seq![CommandeVue::Arborescence, CommandeVue::OuvrirDossier(b.courant->0.chemin)]
            } else {
                seq![CommandeVue::Arborescence]
            };
            &&& n.magasin == b.magasin
            &&& !joignable(b, compte) ==> n.effets == b.effets
            &&& connu(b.sessions, compte) ==> n.effets == b.effets + v.map_values(
                |x: CommandeVue| EffetVue::Envoyer { compte, commande: x },
            )
            &&& !connu(b.sessions, compte) && connu(b.identites, compte) ==> n.effets
                == b.effets.push(
                EffetVue::Lancer {
                    compte,
                    identifiants: valeur(b.identites, compte)->0,
                    commandes: v,
                },
            )
        }),
{
    let v = a_relire(b, compte);
    let f = |x: CommandeVue| EffetVue::Envoyer { compte, commande: x };
    if connu(b.sessions, compte) {
        reveal_with_fuel(envoi_de, 3);
        let un = seq![CommandeVue::Arborescence];
        assert(un.drop_last() =~= Seq::empty());
        let x = envoi_de(b, compte, un);
        lemme_session_gardee(b, compte, CommandeVue::Arborescence);
        if v.len() == 2 {
            assert(v.drop_last() =~= un);
            lemme_session_gardee(x, compte, v.last());
            assert(compte_actualise(b, compte).effets =~= b.effets + v.map_values(f));
        } else {
            assert(compte_actualise(b, compte).effets =~= b.effets + v.map_values(f));
        }
    }
}

proof fn lemme_session_gardee(b: BoiteVue, compte: i64, c: CommandeVue)
    requires
        connu(b.sessions, compte),
    ensures
        connu(envoi(b, compte, c).0.sessions, compte),
        envoi(b, compte, c).0.effets == b.effets.push(EffetVue::Envoyer { compte, commande: c }),
        envoi(b, compte, c).0.magasin == b.magasin,
{
    let s = valeur(b.sessions, compte)->0;
    let n = envoi(b, compte, c).0;
    crate::annuaire::lemme_rang(b.sessions, compte);
    crate::annuaire::lemme_rang(n.sessions, compte);
    let i = crate::annuaire::rang(b.sessions, compte)->0;
    assert(n.sessions[i].0 == compte);
}

} // verus!
