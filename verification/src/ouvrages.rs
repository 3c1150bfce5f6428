//! What workers make of the requests that reach them, and what the interface is told
//! of it.

use vstd::prelude::*;

use crate::annuaire::{connu, loi_inscription, loi_radiation, raye, valeur};
use crate::boite::{
    envoi, issue_recue, profil_ouvert, requetes_terminees, tenue, BoiteVue, EffetVue, Session,
    SignalVue,
};
use crate::commande::{
    caduque, comptee, comptees, gardees, loi_rien_de_caduc, remplace, CibleVue, CommandeVue,
    IdentifiantsVue,
};
use crate::courrier::{corps_du_brut, pieces_du_brut};
use crate::deplacement::RapportVue;
use crate::flux::texte_des_octets;
use crate::index::{corps_montre, piece_extraite, risque};
use crate::synchro::{plafonne, texte_echec, Bilan, EchecVue};
use crate::tables::{dossier_en, MagasinVue};
use crate::tache::{
    pas_tache, pieces_du_corps, tache_entamee, ActionVue, EmplacementVue, EtabliVue, EvenementVue,
    SuiteVue, TacheVue,
};
use crate::texte::jointure;
use crate::travail::{demarrage, pas_ouverture, AvanceeVue, IssueVue, Ouvrage, SuiteOuvrageVue};

verus! {

// --------------------------------------------------------------------------- queue

/// A request that no later one makes void is kept.
proof fn lemme_gardee(f: Seq<CommandeVue>, k: int)
    requires
        0 <= k < f.len(),
        !caduque(f, k),
    ensures
        gardees(f).contains(f[k]),
    decreases f.len(),
{
    let t = f.drop_first();
    if k == 0 {
        assert(gardees(f)[0] == f[0]);
    } else {
        assert(!caduque(t, k - 1)) by {
            if caduque(t, k - 1) {
                let j = choose|j: int| k - 1 < j < t.len() && remplace(#[trigger] t[j], t[k - 1]);
                assert(remplace(f[j + 1], f[k]));
            }
        }
        lemme_gardee(t, k - 1);
        let i = choose|i: int| 0 <= i < gardees(t).len() && gardees(t)[i] == t[k - 1];
        if caduque(f, 0) {
            assert(gardees(f)[i] == f[k]);
        } else {
            assert(gardees(f)[i + 1] == f[k]);
        }
    }
}

/// Of the requests that wait, only the last folder to open is opened, only the last
/// body is read, and none from before another folder is opened; the tree is read once.
/// The last ones are always among those that are kept.
pub proof fn loi_file_regroupee(f: Seq<CommandeVue>, i: int, j: int, k: int)
    ensures
        ({
            let g = gardees(f);
            &&& 0 <= i < j < g.len() ==> {
                &&& !(g[i] is OuvrirDossier && g[j] is OuvrirDossier)
                &&& !(g[i] is Corps && g[j] is Corps)
                &&& !(g[i] is Corps && g[j] is OuvrirDossier)
                &&& !(g[i] is Arborescence && g[j] is Arborescence)
                &&& !(g[i] is Veille)
            }
            &&& 0 <= k < f.len() && f[k] is OuvrirDossier && (forall|h: int|
                k < h < f.len() ==> !((#[trigger] f[h]) is OuvrirDossier)) ==> g.contains(f[k])
            &&& 0 <= k < f.len() && f[k] is Corps && (forall|h: int|
                k < h < f.len() ==> !((#[trigger] f[h]) is OuvrirDossier) && !(f[h] is Corps))
                ==> g.contains(f[k])
            &&& 0 <= k < f.len() && f[k] is Arborescence && (forall|h: int|
                k < h < f.len() ==> !((#[trigger] f[h]) is Arborescence)) ==> g.contains(f[k])
            &&& 0 <= k < f.len() && (f[k] is MarquerLu || f[k] is Deplacer || f[k] is Piece
                || f[k] is Reprendre) ==> g.contains(f[k])
        }),
{
    if 0 <= i < j < gardees(f).len() {
        loi_rien_de_caduc(f, i, j);
    }
    if 0 <= k < f.len() {
        if !caduque(f, k) {
            lemme_gardee(f, k);
        } else {
            let h = choose|h: int| k < h < f.len() && remplace(#[trigger] f[h], f[k]);
            assert(remplace(f[h], f[k]));
        }
    }
}

// ------------------------------------------------------------------------ requests

/// The first thing that a worker does with a request is about the folder, the messages
/// and the target that were asked for.
pub proof fn loi_premiere_action(
    compte: i64,
    selection: Option<Seq<char>>,
    m: MagasinVue,
    e: EtabliVue,
    chemin: Seq<char>,
    uid: u32,
    uids: Seq<u32>,
    drapeau: bool,
    indice: usize,
    destination: Option<Seq<char>>,
)
    ensures
        tache_entamee(compte, selection, m, e, CommandeVue::Arborescence).1 matches SuiteVue::Faire(
            _,
            a,
        ) && a is Arborescence,
        tache_entamee(
            compte,
            selection,
            m,
            e,
            CommandeVue::OuvrirDossier(chemin),
        ).1 matches SuiteVue::Faire(_, a) && a == ActionVue::Synchroniser(chemin),
        tache_entamee(
            compte,
            selection,
            m,
            e,
            CommandeVue::Corps { chemin, uid, brut: drapeau },
        ).1 matches SuiteVue::Faire(_, a) && a == (ActionVue::Corps { chemin, uid }),
        tache_entamee(
            compte,
            selection,
            m,
            e,
            CommandeVue::Piece { chemin, uid, indice, destination },
        ).1 matches SuiteVue::Faire(_, a) && a == (ActionVue::Corps { chemin, uid }),
        tache_entamee(
            compte,
            selection,
            m,
            e,
            CommandeVue::MarquerLu { chemin, uids, lu: drapeau },
        ).1 matches SuiteVue::Faire(_, a) && a == (ActionVue::Marquer { chemin, uids, lu: drapeau }),
        tache_entamee(compte, selection, m, e, CommandeVue::Veille).1 matches SuiteVue::Faire(_, a)
            && a is Arborescence,
{
}

/// A body that was read is handed to the interface as it is shown, or as it is where
/// its source was asked for, with its attachments: at once, or once the message is
/// marked as read.
pub proof fn loi_corps_remis(
    compte: i64,
    selection: Option<Seq<char>>,
    m: MagasinVue,
    e: EtabliVue,
    chemin: Seq<char>,
    uid: u32,
    brut: bool,
    octets: Seq<u8>,
)
    requires
        dossier_en(m.dossiers, compte, chemin) is Some,
    ensures
        ({
            let texte = if brut {
                texte_des_octets(octets)
            } else {
                corps_montre(corps_du_brut(octets))
            };
            let pieces = pieces_du_corps(octets);
            match pas_tache(
                compte,
                selection,
                m,
                e,
                TacheVue::Corps { chemin, uid, brut },
                EvenementVue::Corps(Ok(octets)),
            ).2 {
                SuiteVue::Fini(Some(i)) => i == (IssueVue::Corps {
                    uid,
                    texte,
                    brut,
                    marque: false,
                    pieces,
                }),
                SuiteVue::Fini(None) => false,
                SuiteVue::Faire(t, a) => {
                    &&& !brut
                    &&& a == (ActionVue::Marquer { chemin, uids: seq![uid], lu: true })
                    &&& pas_tache(
                        compte,
                        selection,
                        m,
                        e,
                        t,
                        EvenementVue::Fait(Ok(())),
                    ).2 == SuiteVue::Fini(
                        Some(IssueVue::Corps { uid, texte, brut: false, marque: true, pieces }),
                    )
                },
            }
        }),
{
}

/// An attachment is written with the bytes that the message holds under its rank: to
/// the place that was chosen, whatever it is, else, in order to open it, to its working
/// folder under its safe name, unless it is a program.
pub proof fn loi_piece_ecrite(
    compte: i64,
    selection: Option<Seq<char>>,
    m: MagasinVue,
    e: EtabliVue,
    uid: u32,
    indice: usize,
    destination: Option<Seq<char>>,
    octets: Seq<u8>,
    fichier: Seq<char>,
)
    ensures
        ({
            let suite = pas_tache(
                compte,
                selection,
                m,
                e,
                TacheVue::Piece { uid, indice, destination },
                EvenementVue::Corps(Ok(octets)),
            ).2;
            match piece_extraite(pieces_du_brut(octets), indice as int) {
                None => suite matches SuiteVue::Fini(Some(IssueVue::Echec { .. })),
                Some((nom, contenu)) => match destination {
                    Some(d) => suite matches SuiteVue::Faire(t, a) && {
                        &&& a == (ActionVue::Ecrire { ou: EmplacementVue::Choisi(d), contenu })
                        &&& pas_tache(
                            compte,
                            selection,
                            m,
                            e,
                            t,
                            EvenementVue::Ecrit(Ok(fichier)),
                        ).2 == SuiteVue::Fini(Some(IssueVue::Piece { fichier, ouvrir: false }))
                    },
                    None => if risque(nom) {
                        suite matches SuiteVue::Fini(Some(IssueVue::Echec { session_perdue, .. }))
                            && !session_perdue
                    } else {
                        suite matches SuiteVue::Faire(t, a) && {
                            &&& a == (ActionVue::CreerDossier { uid, indice })
                            &&& pas_tache(
                                compte,
                                selection,
                                m,
                                e,
                                t,
                                EvenementVue::DossierCree(Ok(())),
                            ).2 matches SuiteVue::Faire(u, b) && {
                                &&& b == (ActionVue::Ecrire {
                                    ou: EmplacementVue::Travail { uid, indice, nom },
                                    contenu,
                                })
                                &&& pas_tache(
                                    compte,
                                    selection,
                                    m,
                                    e,
                                    u,
                                    EvenementVue::Ecrit(Ok(fichier)),
                                ).2 == SuiteVue::Fini(
                                    Some(IssueVue::Piece { fichier, ouvrir: true }),
                                )
                            }
                        }
                    },
                },
            }
        }),
{
}

/// A move is made with the messages, the folder and the target that were asked for:
/// within the account where the target is there, else between accounts, once a session
/// on the target is open, with what came with the request. What comes of it is told
/// once the folders are counted again.
pub proof fn loi_deplacement_mene(
    compte: i64,
    selection: Option<Seq<char>>,
    m: MagasinVue,
    e: EtabliVue,
    source: Seq<char>,
    uids: Seq<u32>,
    cible: CibleVue,
    rapport: RapportVue,
    compte_rendu: Result<(), EchecVue>,
)
    ensures
        ({
            let (f, suite) = tache_entamee(
                compte,
                selection,
                m,
                e,
                CommandeVue::Deplacer { source, uids, cible },
            );
            let but = TacheVue::Deplacement { cible: cible.compte, chemin: cible.chemin };
            &&& cible.compte == compte ==> suite == SuiteVue::Faire(
                but,
                ActionVue::DansLaBoite { source, uids, cible: cible.chemin },
            )
            &&& cible.compte != compte && connu(f.annexes, cible.compte) ==> suite
                == SuiteVue::Faire(
                but,
                ActionVue::EntreBoites {
                    source,
                    uids,
                    compte: cible.compte,
                    chemin: cible.chemin,
                },
            )
            &&& cible.compte != compte && !connu(f.annexes, cible.compte) && connu(
                f.identites,
                cible.compte,
            ) ==> (suite matches SuiteVue::Faire(t, a) && {
                &&& a == (ActionVue::OuvrirAnnexe {
                    compte: cible.compte,
                    identifiants: valeur(f.identites, cible.compte)->0,
                })
                &&& pas_tache(
                    compte,
                    selection,
                    m,
                    f,
                    t,
                    EvenementVue::Fait(Ok(())),
                ).2 == SuiteVue::Faire(
                    but,
                    ActionVue::EntreBoites {
                        source,
                        uids,
                        compte: cible.compte,
                        chemin: cible.chemin,
                    },
                )
            })
            &&& pas_tache(
                compte,
                selection,
                m,
                e,
                but,
                EvenementVue::Deplace(Ok(rapport)),
            ).2 matches SuiteVue::Faire(t, a) && {
                &&& a is Arborescence
                &&& pas_tache(
                    compte,
                    selection,
                    m,
                    e,
                    t,
                    EvenementVue::Fait(compte_rendu),
                ).2 == SuiteVue::Fini(
                    Some(
                        IssueVue::Deplace {
                            cible: cible.compte,
                            chemin_cible: cible.chemin,
                            rapport,
                        },
                    ),
                )
            }
        }),
{
}

/// A session is opened in order: the index, the connection, the credentials, the tree.
/// Refused credentials are told as such; any other failure is that of the connection.
pub proof fn loi_ouverture_dans_l_ordre(p: IdentifiantsVue, o: Ouvrage, a: AvanceeVue)
    ensures
        pas_ouverture(p, Ouvrage::Index, AvanceeVue::Index(Ok(()))) == SuiteOuvrageVue::Faire(
            Ouvrage::Connexion,
        ),
        pas_ouverture(p, Ouvrage::Connexion, AvanceeVue::Connexion(Ok(())))
            == SuiteOuvrageVue::Faire(Ouvrage::Session),
        pas_ouverture(p, Ouvrage::Session, AvanceeVue::Session(Ok(()))) == SuiteOuvrageVue::Faire(
            Ouvrage::Arborescence,
        ),
        pas_ouverture(p, o, a) is Pret <==> o == Ouvrage::Arborescence
            && (a matches AvanceeVue::Arborescence(Ok(_))),
        pas_ouverture(p, o, a) matches SuiteOuvrageVue::Rate(i) ==> (i matches IssueVue::Echec {
            etape,
            message,
            session_perdue,
        } && {
            &&& session_perdue
            &&& message.len() > 0
            &&& etape == "identifiants"@ || etape == "connexion"@
            &&& etape == "identifiants"@ <==> o == Ouvrage::Session && (
            a matches AvanceeVue::Session(Err(x)) && !(x is Reseau))
        }),
{
    reveal_strlit("identifiants");
    reveal_strlit("connexion");
    reveal_strlit("index local : ");
    reveal_strlit("connexion à ");
    reveal_strlit("lecture des dossiers : ");
    reveal_strlit("réponse inattendue");
    reveal_strlit(")");
    assert("identifiants"@.len() == 12 && "connexion"@.len() == 9);
}

// ------------------------------------------------------------------------ outcomes

/// The interface is told what came of its requests, as it came: a body with its text
/// and its attachments, a folder that is up to date, an attachment that is written,
/// messages that are marked or moved, a failure with its step and its message.
pub proof fn loi_issue_signalee(
    b: BoiteVue,
    compte: i64,
    uid: u32,
    texte: Seq<char>,
    brut: bool,
    marque: bool,
    pieces: Seq<char>,
    chemin: Seq<char>,
    rapport: RapportVue,
    cible: i64,
    message: Seq<char>,
)
    ensures
        issue_recue(
            b,
            compte,
            IssueVue::Corps { uid, texte, brut, marque, pieces },
        ).effets.last() == EffetVue::Signaler(
            SignalVue::CorpsRecu { uid: uid as i32, texte, brut, pieces },
        ),
        issue_recue(
            b,
            compte,
            IssueVue::Dossier { chemin, veille: brut },
        ).effets == b.effets.push(
            EffetVue::Signaler(
                SignalVue::DossierOuvert { compte: compte as i32, chemin, veille: brut },
            ),
        ),
        issue_recue(
            b,
            compte,
            IssueVue::Piece { fichier: chemin, ouvrir: brut },
        ).effets == b.effets.push(
            EffetVue::Signaler(SignalVue::PieceEcrite { fichier: chemin, ouvrir: brut }),
        ),
        issue_recue(b, compte, IssueVue::Marque).effets == b.effets.push(
            EffetVue::Signaler(SignalVue::DrapeauxModifies),
        ),
        issue_recue(
            b,
            compte,
            IssueVue::Deplace { cible, chemin_cible: chemin, rapport },
        ).effets.last() == EffetVue::Signaler(
            SignalVue::DeplacementTermine {
                nombre: rapport.deplaces as i32,
                erreurs: jointure(rapport.erreurs, "\n"@),
            },
        ),
        ({
            let r = issue_recue(
                b,
                compte,
                IssueVue::Echec { etape: texte, message, session_perdue: marque },
            );
            &&& r.effets.last() == EffetVue::Signaler(
                SignalVue::Echec { compte: compte as i32, etape: texte, message },
            )
            &&& r.erreur == message
            &&& !marque ==> r.sessions == b.sessions && r.etats == b.etats && r.identites
                == b.identites
        }),
{
}

/// The profile that is opened is the one whose index was read: the attachments left from
/// before are cleared, the moves under way are counted. One that cannot be read changes
/// nothing but the error that is told, and one that is open already changes nothing.
pub proof fn loi_profil(
    b: BoiteVue,
    chemin: Seq<char>,
    ouvert: Result<MagasinVue, Seq<char>>,
)
    ensures
        ({
            let (n, r) = profil_ouvert(b, chemin, ouvert);
            let deja = b.magasin is Some && b.profil == chemin;
            &&& deja ==> n == b && r
            &&& !deja && ouvert is Ok ==> {
                &&& r
                &&& n.magasin == Some(ouvert->Ok_0)
                &&& n.profil == chemin
                &&& n.erreur.len() == 0
                &&& n.effets == b.effets.push(EffetVue::ViderPieces(chemin))
                &&& ouvert->Ok_0.operations.len() <= i32::MAX ==> n.en_attente
                    == ouvert->Ok_0.operations.len()
                &&& n.sessions == b.sessions && n.identites == b.identites && n.etats == b.etats
            }
            &&& !deja && ouvert is Err ==> {
                &&& !r
                &&& n == BoiteVue { erreur: n.erreur, ..b }
                &&& n.erreur.len() >= ouvert->Err_0.len()
                &&& n.erreur.skip(n.erreur.len() - ouvert->Err_0.len()) == ouvert->Err_0
            }
        }),
{
    if let Err(e) = ouvert {
        let t = "index local : "@ + e;
        assert(t.skip(t.len() - e.len()) =~= e);
    }
}

/// An account whose session is open is told of under its address. A failure is told with
/// its words; the moves under way are counted again.
pub proof fn loi_connexion_signalee(b: BoiteVue, compte: i64, i: IdentifiantsVue, m: MagasinVue)
    requires
        valeur(b.identites, compte) == Some(i),
        b.magasin == Some(m),
        m.operations.len() <= i32::MAX,
    ensures
        issue_recue(b, compte, IssueVue::Connecte).effets.last() == EffetVue::Signaler(
            SignalVue::Connecte { compte: compte as i32, adresse: i.utilisateur },
        ),
        issue_recue(b, compte, IssueVue::Arborescence).en_attente == m.operations.len(),
        issue_recue(b, compte, IssueVue::Arborescence).effets == b.effets,
{
}

/// Once messages were moved to a folder, its account reads its tree again, where it is
/// another one that is connected, and the folder itself, where it is the open one. The
/// errors that came up are told; the moves under way are counted again.
pub proof fn loi_deplacement_rapporte(
    b: BoiteVue,
    compte: i64,
    cible: i64,
    chemin: Seq<char>,
    rapport: RapportVue,
    m: MagasinVue,
)
    requires
        tenue(b),
        b.magasin == Some(m),
        m.operations.len() <= i32::MAX,
        connu(b.sessions, cible),
    ensures
        ({
            let r = issue_recue(
                b,
                compte,
                IssueVue::Deplace { cible, chemin_cible: chemin, rapport },
            );
            let erreurs = jointure(rapport.erreurs, "\n"@);
            &&& cible != compte ==> r.effets.contains(
                EffetVue::Envoyer { compte: cible, commande: CommandeVue::Arborescence },
            )
            &&& (b.courant matches Some(c) && c.compte == cible && c.chemin == chemin)
                ==> r.effets.contains(
                EffetVue::Envoyer { compte: cible, commande: CommandeVue::OuvrirDossier(chemin) },
            )
            &&& r.en_attente == m.operations.len()
            &&& erreurs.len() > 0 ==> r.erreur == erreurs
            &&& r.courant == b.courant
        }),
{
    let r = issue_recue(b, compte, IssueVue::Deplace { cible, chemin_cible: chemin, rapport });
    let n = b.effets.len() as int;
    let p = if cible != compte {
        envoi(b, cible, CommandeVue::Arborescence).0
    } else {
        b
    };
    if cible != compte {
        let x = EffetVue::Envoyer { compte: cible, commande: CommandeVue::Arborescence };
        let s = valeur(b.sessions, cible)->0;
        let attente = if comptee(CommandeVue::Arborescence) {
            plafonne(s.attente + 1)
        } else {
            s.attente
        };
        loi_inscription(b.sessions, cible, Session { attente, ..s }, cible);
        assert(p.effets == b.effets.push(x));
        assert(p.effets[n] == x);
        assert(r.effets[n] == x);
    }
    if b.courant matches Some(c) && c.compte == cible && c.chemin == chemin {
        let y = EffetVue::Envoyer { compte: cible, commande: CommandeVue::OuvrirDossier(chemin) };
        let k = p.effets.len() as int;
        assert(connu(p.sessions, cible));
        assert(r.effets[k] == y);
    }
}

/// Requests that are over with no longer keep the interface busy: so many fewer wait, of
/// that session alone.
pub proof fn loi_requetes_finies(
    b: BoiteVue,
    compte: i64,
    generation: u64,
    nombre: usize,
    autre: i64,
    s: Session,
)
    requires
        tenue(b),
        valeur(b.sessions, compte) == Some(s),
        s.generation == generation,
    ensures
        ({
            let n = requetes_terminees(b, compte, generation, nombre);
            &&& valeur(n.sessions, compte) matches Some(t) && t.generation == generation
                && t.attente == (if s.attente >= nombre {
                s.attente - nombre
            } else {
                0
            })
            &&& autre != compte ==> valeur(n.sessions, autre) == valeur(b.sessions, autre)
            &&& n.effets == b.effets && n.magasin == b.magasin && n.etats == b.etats
        }),
{
    let t = valeur(requetes_terminees(b, compte, generation, nombre).sessions, compte);
    let attente = if nombre <= s.attente {
        (s.attente - nombre) as usize
    } else {
        0
    };
    loi_inscription(b.sessions, compte, Session { attente, ..s }, compte);
    loi_inscription(b.sessions, compte, Session { attente, ..s }, autre);
}

// ----------------------------------------------------------------------- completion

/// A request that is done is told as what it was: the tree, the folder that was opened,
/// the messages that were marked. One that fails is told with the reason; the session is
/// lost exactly if the connection is.
pub proof fn loi_requete_aboutie(
    compte: i64,
    selection: Option<Seq<char>>,
    m: MagasinVue,
    e: EtabliVue,
    c: CommandeVue,
    t: TacheVue,
    bilan: Bilan,
    x: EchecVue,
)
    requires
        c is Arborescence || c is OuvrirDossier || c is MarquerLu,
        tache_entamee(compte, selection, m, e, c).1 matches SuiteVue::Faire(u, _) && u == t,
    ensures
        c is Arborescence ==> pas_tache(
            compte,
            selection,
            m,
            e,
            t,
            EvenementVue::Fait(Ok(())),
        ).2 == SuiteVue::Fini(Some(IssueVue::Arborescence)),
        c matches CommandeVue::OuvrirDossier(chemin) ==> pas_tache(
            compte,
            selection,
            m,
            e,
            t,
            EvenementVue::Synchro(Ok(bilan)),
        ).2 == SuiteVue::Fini(Some(IssueVue::Dossier { chemin, veille: false })),
        c is MarquerLu ==> pas_tache(
            compte,
            selection,
            m,
            e,
            t,
            EvenementVue::Fait(Ok(())),
        ).2 == SuiteVue::Fini(Some(IssueVue::Marque)),
        ({
            let ev = if c is OuvrirDossier {
                EvenementVue::Synchro(Err(x))
            } else {
                EvenementVue::Fait(Err(x))
            };
            pas_tache(compte, selection, m, e, t, ev).2 matches SuiteVue::Fini(Some(i)) && (
            i matches IssueVue::Echec { etape, message, session_perdue } && {
                &&& session_perdue <==> (x matches EchecVue::Imap(y) && y is Reseau)
                &&& session_perdue <==> etape == "reseau"@
                &&& message.len() >= texte_echec(x).len()
                &&& message.skip(message.len() - texte_echec(x).len()) == texte_echec(x)
            })
        }),
{
    reveal_strlit("reseau");
    reveal_strlit("dossier");
    reveal_strlit("tri");
    assert("reseau"@[0] == 'r' && "dossier"@[0] == 'd' && "tri"@.len() == 3);
    let f = texte_echec(x);
    let a = "lecture des dossiers : "@ + f;
    assert(a.skip(a.len() - f.len()) =~= f);
    let b = "marquage : "@ + f;
    assert(b.skip(b.len() - f.len()) =~= f);
    if let CommandeVue::OuvrirDossier(chemin) = c {
        let d = "ouverture de "@ + chemin + " : "@ + f;
        assert(d.skip(d.len() - f.len()) =~= f);
    }
}

/// The periodic check ends with the open folder, where there is one: the folder is told
/// as changed exactly if messages came or went.
pub proof fn loi_veille_achevee(
    compte: i64,
    chemin: Seq<char>,
    m: MagasinVue,
    e: EtabliVue,
    bilan: Bilan,
)
    ensures
        pas_tache(
            compte,
            Some(chemin),
            m,
            e,
            TacheVue::VeilleRemise,
            EvenementVue::Remis,
        ).2 matches SuiteVue::Faire(t, a) && {
            &&& a == ActionVue::Synchroniser(chemin)
            &&& pas_tache(
                compte,
                Some(chemin),
                m,
                e,
                t,
                EvenementVue::Synchro(Ok(bilan)),
            ).2 == SuiteVue::Fini(
                Some(
                    if bilan.nouveaux == 0 && bilan.retires == 0 {
                        IssueVue::Arborescence
                    } else {
                        IssueVue::Dossier { chemin, veille: true }
                    },
                ),
            )
        },
        pas_tache(
            compte,
            None,
            m,
            e,
            TacheVue::VeilleRemise,
            EvenementVue::Remis,
        ).2 == SuiteVue::Fini(Some(IssueVue::Arborescence)),
{
}

/// The interface waits for each request that it sends, but not for the periodic check,
/// which it did not ask for.
pub proof fn loi_attente(b: BoiteVue, compte: i64, c: CommandeVue, s: Session)
    requires
        tenue(b),
        valeur(b.sessions, compte) == Some(s),
        s.attente < usize::MAX,
    ensures
        ({
            let (n, r) = envoi(b, compte, c);
            &&& r
            &&& n.effets == b.effets.push(EffetVue::Envoyer { compte, commande: c })
            &&& valeur(n.sessions, compte) matches Some(t) && t.generation == s.generation
                && t.attente == s.attente + (if c is Veille {
                0int
            } else {
                1int
            })
        }),
{
    let attente = if comptee(c) {
        plafonne(s.attente + 1)
    } else {
        s.attente
    };
    loi_inscription(b.sessions, compte, Session { attente, ..s }, compte);
}

/// What opens an account is forgotten once the server refused it; a mere loss of the
/// connection forgets nothing of an account that is known.
pub proof fn loi_identifiants_oublies(b: BoiteVue, compte: i64, message: Seq<char>, etape: Seq<char>)
    requires
        tenue(b),
    ensures
        !connu(
            issue_recue(
                b,
                compte,
                IssueVue::Echec { etape: "identifiants"@, message, session_perdue: true },
            ).identites,
            compte,
        ),
        !connu(
            issue_recue(
                b,
                compte,
                IssueVue::Echec { etape, message, session_perdue: true },
            ).sessions,
            compte,
        ),
{
    loi_radiation(b.sessions, compte, compte);
    loi_radiation(b.identites, compte, compte);
    loi_radiation(raye(b.identites, compte), compte, compte);
}

proof fn lemme_comptees(v: Seq<CommandeVue>)
    ensures
        comptees(v) == v.filter(|c: CommandeVue| !(c is Veille)).len(),
    decreases v.len(),
{
    let p = |c: CommandeVue| !(c is Veille);
    reveal(Seq::filter);
    if v.len() > 0 {
        let a = seq![v[0]];
        let t = v.drop_first();
        lemme_comptees(t);
        Seq::filter_distributes_over_add(a, t, p);
        assert(a + t =~= v);
        assert(a.drop_last() =~= Seq::empty());
        assert(Seq::<CommandeVue>::empty().filter(p) =~= Seq::empty());
        assert(a.filter(p) =~= if p(v[0]) {
            a
        } else {
            Seq::empty()
        });
    }
}

/// A worker whose session could not be opened gives up the requests that waited for it:
/// the interface waits for none of them any more.
pub proof fn loi_demarrage(i: IssueVue, recues: Seq<CommandeVue>)
    ensures
        demarrage(Ok(()), recues) == (1nat, IssueVue::Connecte),
        demarrage(Err(i), recues) == (
            1 + recues.filter(|c: CommandeVue| !(c is Veille)).len(),
            i,
        ),
{
    lemme_comptees(recues);
}

} // verus!
