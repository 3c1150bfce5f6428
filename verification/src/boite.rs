//! The object that the interface drives: the accounts of the profile, their common
//! tree, the open folder and its messages, sorting between folders and accounts.
//!
//! The network never goes through here. Each connected account has a worker; what is
//! asked of it, and what is told to the interface, is queued as effects, and what the
//! worker hands out comes back by `remettre`. Each session has a number: what a
//! closed or replaced session still hands out is ignored.
//!
//! Reading the index is immediate; the index is that of the profile as it stands.

use vstd::prelude::*;

use crate::annuaire::{
    clefs, connu, inscrit, lemme_rang, loi_inscription, loi_radiation, raye, sans_doublon, valeur,
    Annuaire,
};
use crate::commande::{
    comptee, copier_identites, vue_option, Cible, CibleVue, Commande, CommandeVue, Identifiants,
    IdentifiantsVue,
};
use crate::deplacement::{Rapport, RapportVue};
use crate::flux::accoler;
use crate::json::{
    ajouter_json, booleen, chaine_json, dossier_json, ecrire_booleen, json_dossier, json_messages,
    lire_uids, liste_json, lister, messages_json, uids_listes,
};
use crate::magasin::{retenir, vues, CompteLocal, DossierLocal, Magasin, Resultat};
use crate::nombre::{decimal_signe, ecrire_i64};
use crate::synchro::plafonne;
use crate::tables::{
    compte_de, compte_mis_a_jour, compte_retire, dossier_en, dossiers_affiches, epingle,
    favori_place, favoris_affiches, ids_comptes, lemme_trie, marquage, masquage, messages_affiches,
    ordre_affichage, ordre_comptes, ordre_favoris, premier, recompte, suivant, trie, CompteVue,
    DossierLocalVue, MagasinVue,
};
use crate::texte::{
    ajouter, ajouter_car, caracteres, chaine, copier, egal, joindre, jointure, rogner, sans_blancs,
    textes,
};
use crate::travail::{Issue, IssueVue, PORT_IMAPS};

verus! {

// ------------------------------------------------------------------------------ types

/// The session of an account, as the interface sees it.
#[derive(Debug, Clone, Copy, PartialEq, Eq, Structural)]
pub struct Session {
    /// Requests of the interface in progress or waiting, the connection among them.
    pub attente: usize,
    pub generation: u64,
}

impl View for Session {
    type V = Session;

    open spec fn view(&self) -> Session {
        *self
    }
}

/// State of the connection of an account, as the tree shows it.
#[derive(Debug, Clone, Copy, PartialEq, Eq, Structural)]
pub enum Etat {
    HorsLigne,
    Connexion,
    Pret,
    Erreur,
}

impl View for Etat {
    type V = Etat;

    open spec fn view(&self) -> Etat {
        *self
    }
}

/// The word for a state.
pub open spec fn code_etat(e: Etat) -> Seq<char> {
    match e {
        Etat::HorsLigne => "horsligne"@,
        Etat::Connexion => "connexion"@,
        Etat::Pret => "pret"@,
        Etat::Erreur => "erreur"@,
    }
}

impl Etat {
    /// The word for the state.
    pub fn code(self) -> (r: &'static str)
        ensures
            r@ == code_etat(self),
    {
        match self {
            Etat::HorsLigne => "horsligne",
            Etat::Connexion => "connexion",
            Etat::Pret => "pret",
            Etat::Erreur => "erreur",
        }
    }
}

/// What the interface is told.
pub enum Signal {
    /// The session of an account is open and its tree is in the index.
    Connecte { compte: i32, adresse: String },
    /// A folder is synchronised; `veille` is true if it was the periodic check.
    DossierOuvert { compte: i32, chemin: String, veille: bool },
    /// The body of a message, to be shown, or as it is if `brut` is true.
    CorpsRecu { uid: i32, texte: String, brut: bool, pieces: String },
    /// An attachment is written.
    PieceEcrite { fichier: String, ouvrir: bool },
    /// Flags changed in the open folder.
    DrapeauxModifies,
    /// A move is over: `erreurs` is empty if all went well.
    DeplacementTermine { nombre: i32, erreurs: String },
    /// Something failed, at the step "connexion", "identifiants", "dossier", "message",
    /// "tri" or "reseau"; with the last one the session of the account is lost.
    Echec { compte: i32, etape: String, message: String },
}

/// What the interface is told.
pub enum SignalVue {
    Connecte { compte: i32, adresse: Seq<char> },
    DossierOuvert { compte: i32, chemin: Seq<char>, veille: bool },
    CorpsRecu { uid: i32, texte: Seq<char>, brut: bool, pieces: Seq<char> },
    PieceEcrite { fichier: Seq<char>, ouvrir: bool },
    DrapeauxModifies,
    DeplacementTermine { nombre: i32, erreurs: Seq<char> },
    Echec { compte: i32, etape: Seq<char>, message: Seq<char> },
}

impl View for Signal {
    type V = SignalVue;

    open spec fn view(&self) -> SignalVue {
        match self {
            Signal::Connecte { compte, adresse } => SignalVue::Connecte {
                compte: *compte,
                adresse: adresse@,
            },
            Signal::DossierOuvert { compte, chemin, veille } => SignalVue::DossierOuvert {
                compte: *compte,
                chemin: chemin@,
                veille: *veille,
            },
            Signal::CorpsRecu { uid, texte, brut, pieces } => SignalVue::CorpsRecu {
                uid: *uid,
                texte: texte@,
                brut: *brut,
                pieces: pieces@,
            },
            Signal::PieceEcrite { fichier, ouvrir } => SignalVue::PieceEcrite {
                fichier: fichier@,
                ouvrir: *ouvrir,
            },
            Signal::DrapeauxModifies => SignalVue::DrapeauxModifies,
            Signal::DeplacementTermine { nombre, erreurs } => SignalVue::DeplacementTermine {
                nombre: *nombre,
                erreurs: erreurs@,
            },
            Signal::Echec { compte, etape, message } => SignalVue::Echec {
                compte: *compte,
                etape: etape@,
                message: message@,
            },
        }
    }
}

/// What is to be done outside, one after the other: what an effect brings about is
/// accomplished before the next one.
pub enum Effet {
    /// To start the worker of an account, under the number that `prochaine_generation`
    /// gives, with requests to deal with once its session is open. Its outcome is told
    /// by `lance` or `lancement_rate`.
    Lancer { compte: i64, identifiants: Identifiants, commandes: Vec<Commande> },
    /// To hand a request to the worker of an account. A refusal is told by
    /// `envoi_refuse`.
    Envoyer { compte: i64, commande: Commande },
    /// To let go of the worker of an account, without waiting for it.
    Fermer(i64),
    /// To empty the working folder of the attachments of a profile.
    ViderPieces(String),
    /// To write the error again, by `reposer_erreur`: it counts for more than the
    /// refusal of a request that was sent before it.
    Reposer(String),
    /// To tell the interface something.
    Signaler(Signal),
}

/// What is to be done outside.
pub enum EffetVue {
    Lancer {
        compte: i64,
        identifiants: IdentifiantsVue,
        commandes: Seq<CommandeVue>,
    },
    Envoyer { compte: i64, commande: CommandeVue },
    Fermer(i64),
    ViderPieces(Seq<char>),
    Reposer(Seq<char>),
    Signaler(SignalVue),
}

impl View for Effet {
    type V = EffetVue;

    open spec fn view(&self) -> EffetVue {
        match self {
            Effet::Lancer { compte, identifiants, commandes } => EffetVue::Lancer {
                compte: *compte,
                identifiants: identifiants@,
                commandes: vues(commandes@),
            },
            Effet::Envoyer { compte, commande } => EffetVue::Envoyer {
                compte: *compte,
                commande: commande@,
            },
            Effet::Fermer(k) => EffetVue::Fermer(*k),
            Effet::ViderPieces(p) => EffetVue::ViderPieces(p@),
            Effet::Reposer(t) => EffetVue::Reposer(t@),
            Effet::Signaler(s) => EffetVue::Signaler(s@),
        }
    }
}

/// The open folder: its account, its path, its identifier in the index.
pub struct Courant {
    pub compte: i64,
    pub chemin: String,
    pub id: i64,
}

/// The open folder.
pub struct CourantVue {
    pub compte: i64,
    pub chemin: Seq<char>,
    pub id: i64,
}

impl View for Courant {
    type V = CourantVue;

    open spec fn view(&self) -> CourantVue {
        CourantVue { compte: self.compte, chemin: self.chemin@, id: self.id }
    }
}

/// The accounts of a profile, what is open of them, and what is still to be done
/// outside.
pub struct Boite {
    occupe: bool,
    erreur: String,
    revision: i32,
    compte_courant: i32,
    dossier_courant: String,
    en_attente: i32,
    profil: String,
    magasin: Option<Magasin>,
    sessions: Annuaire<Session>,
    identites: Annuaire<Identifiants>,
    etats: Annuaire<Etat>,
    nouveaux: Annuaire<()>,
    generation: u64,
    courant: Option<Courant>,
    effets: Vec<Effet>,
}

/// The accounts of a profile, what is open of them, and what is still to be done
/// outside.
#[verifier::ext_equal]
pub struct BoiteVue {
    /// Whether something that was asked for is in progress.
    pub occupe: bool,
    /// The last error, empty if there was none.
    pub erreur: Seq<char>,
    /// Grows whenever the tree or its counters change.
    pub revision: i32,
    /// Account and path of the open folder, 0 and empty if there is none.
    pub compte_courant: i32,
    pub dossier_courant: Seq<char>,
    /// Moves between accounts that are registered and not settled.
    pub en_attente: i32,
    pub profil: Seq<char>,
    pub magasin: Option<MagasinVue>,
    pub sessions: Seq<(i64, Session)>,
    pub identites: Seq<(i64, IdentifiantsVue)>,
    pub etats: Seq<(i64, Etat)>,
    /// Accounts created by a connection that is not made yet.
    pub nouveaux: Seq<(i64, ())>,
    pub generation: u64,
    pub courant: Option<CourantVue>,
    pub effets: Seq<EffetVue>,
}

/// What an index holds, if it is open.
pub open spec fn vue_magasin(m: Option<Magasin>) -> Option<MagasinVue> {
    match m {
        Some(m) => Some(m@),
        None => None,
    }
}

/// The open folder, if there is one.
pub open spec fn vue_courant(c: Option<Courant>) -> Option<CourantVue> {
    match c {
        Some(c) => Some(c@),
        None => None,
    }
}

impl View for Boite {
    type V = BoiteVue;

    closed spec fn view(&self) -> BoiteVue {
        BoiteVue {
            occupe: self.occupe,
            erreur: self.erreur@,
            revision: self.revision,
            compte_courant: self.compte_courant,
            dossier_courant: self.dossier_courant@,
            en_attente: self.en_attente,
            profil: self.profil@,
            magasin: vue_magasin(self.magasin),
            sessions: self.sessions@,
            identites: self.identites@,
            etats: self.etats@,
            nouveaux: self.nouveaux@,
            generation: self.generation,
            courant: vue_courant(self.courant),
            effets: vues(self.effets@),
        }
    }
}

// ------------------------------------------------------------------- model: the parts

/// The state of an account.
pub open spec fn etat_de(b: BoiteVue, compte: i64) -> Etat {
    match valeur(b.etats, compte) {
        Some(e) => e,
        None => Etat::HorsLigne,
    }
}

/// With an error told.
pub open spec fn avec_erreur(b: BoiteVue, t: Seq<char>) -> BoiteVue {
    BoiteVue { erreur: t, ..b }
}

/// With something more to do outside.
pub open spec fn avec_effet(b: BoiteVue, e: EffetVue) -> BoiteVue {
    BoiteVue { effets: b.effets.push(e), ..b }
}

/// With something more to tell the interface.
pub open spec fn signale(b: BoiteVue, s: SignalVue) -> BoiteVue {
    avec_effet(b, EffetVue::Signaler(s))
}

/// With an error told, whatever becomes of the requests sent before it.
pub open spec fn erreur_maintenue(b: BoiteVue, t: Seq<char>) -> BoiteVue {
    avec_effet(avec_erreur(b, t), EffetVue::Reposer(t))
}

/// With the tree to be read again.
pub open spec fn revisee(b: BoiteVue) -> BoiteVue {
    BoiteVue {
        revision: if b.revision == i32::MAX {
            i32::MIN
        } else {
            (b.revision + 1) as i32
        },
        ..b
    }
}

/// Whether a session has something in progress.
pub open spec fn active(s: Seq<(i64, Session)>) -> bool {
    exists|i: int| 0 <= i < s.len() && (#[trigger] s[i]).1.attente > 0
}

/// With `occupe` brought up to date.
pub open spec fn occupation(b: BoiteVue) -> BoiteVue {
    BoiteVue { occupe: active(b.sessions), ..b }
}

/// With the number of moves in progress read again.
pub open spec fn attente_relue(b: BoiteVue) -> BoiteVue {
    BoiteVue { en_attente: operations_en_attente(b.magasin), ..b }
}

/// The number of moves in progress of an index.
pub open spec fn operations_en_attente(m: Option<MagasinVue>) -> i32 {
    match m {
        Some(m) => if m.operations.len() <= u32::MAX {
            (m.operations.len() as u32) as i32
        } else {
            0
        },
        None => 0,
    }
}

/// With a folder open, or none.
pub open spec fn courant_pose(b: BoiteVue, c: Option<CourantVue>) -> BoiteVue {
    BoiteVue {
        courant: c,
        compte_courant: match c {
            Some(c) => c.compte as i32,
            None => 0,
        },
        dossier_courant: match c {
            Some(c) => c.chemin,
            None => Seq::empty(),
        },
        ..b
    }
}

/// Without the session of an account.
pub open spec fn session_fermee(b: BoiteVue, compte: i64) -> BoiteVue {
    if connu(b.sessions, compte) {
        avec_effet(
            BoiteVue { sessions: raye(b.sessions, compte), ..b },
            EffetVue::Fermer(compte),
        )
    } else {
        b
    }
}

/// The number of the next session.
pub open spec fn generation_suivante(g: u64) -> u64 {
    if g == u64::MAX {
        0
    } else {
        (g + 1) as u64
    }
}

/// The worker of an account to be started, with requests that wait for its session.
/// False if nothing opens the account.
pub open spec fn lancement(b: BoiteVue, compte: i64, commandes: Seq<CommandeVue>) -> (
    BoiteVue,
    bool,
) {
    match valeur(b.identites, compte) {
        None => (b, false),
        Some(identifiants) => (
            avec_effet(
                session_fermee(b, compte),
                EffetVue::Lancer { compte, identifiants, commandes },
            ),
            true,
        ),
    }
}

/// With the worker of an account started, with so many requests.
pub open spec fn lancee(b: BoiteVue, compte: i64, commandes: int) -> BoiteVue {
    let generation = generation_suivante(b.generation);
    revisee(
        occupation(
            avec_erreur(
                BoiteVue {
                    sessions: inscrit(
                        b.sessions,
                        compte,
                        Session { attente: plafonne(1 + commandes), generation },
                    ),
                    etats: inscrit(b.etats, compte, Etat::Connexion),
                    generation,
                    ..b
                },
                Seq::empty(),
            ),
        ),
    )
}

/// With a request for the worker of an account. If the session is gone and the
/// account can be opened, it is opened again, and the request waits for it.
pub open spec fn envoi(b: BoiteVue, compte: i64, c: CommandeVue) -> (BoiteVue, bool) {
    match valeur(b.sessions, compte) {
        None => if connu(b.identites, compte) {
            lancement(b, compte, seq![c])
        } else {
            (avec_erreur(b, "ce compte n'est pas connecté"@), false)
        },
        Some(s) => {
            let attente = if comptee(c) {
                plafonne(s.attente + 1)
            } else {
                s.attente
            };
            (
                occupation(
                    avec_effet(
                        BoiteVue {
                            sessions: inscrit(b.sessions, compte, Session { attente, ..s }),
                            ..b
                        },
                        EffetVue::Envoyer { compte, commande: c },
                    ),
                ),
                true,
            )
        },
    }
}

/// With a request for the workers of accounts, one after the other.
pub open spec fn envois(b: BoiteVue, comptes: Seq<i64>, c: CommandeVue) -> BoiteVue
    decreases comptes.len(),
{
    if comptes.len() == 0 {
        b
    } else {
        envoi(envois(b, comptes.drop_last(), c), comptes.last(), c).0
    }
}

// -------------------------------------------------------------- model: the operations

/// The index with an account registered, and its identifier.
pub open spec fn compte_inscrit(
    m: MagasinVue,
    adresse: Seq<char>,
    hote: Seq<char>,
    port: u16,
    utilisateur: Seq<char>,
) -> (MagasinVue, Result<i64, Seq<char>>) {
    match compte_de(m.comptes, adresse) {
        Some(c) => (
            MagasinVue {
                comptes: m.comptes.map_values(
                    compte_mis_a_jour(adresse, hote, port, utilisateur),
                ),
                ..m
            },
            Ok(c.id),
        ),
        None => {
            let id = suivant(ids_comptes(m.comptes));
            if id <= i64::MAX {
                (
                    MagasinVue {
                        comptes: m.comptes.push(
                            CompteVue {
                                id: id as i64,
                                adresse,
                                hote,
                                port,
                                utilisateur,
                                replie: false,
                            },
                        ),
                        ..m
                    },
                    Ok(id as i64),
                )
            } else {
                (m, Err("plus d'identifiant de compte disponible"@))
            }
        },
    }
}

/// With the index of a profile opened, or not.
pub open spec fn profil_ouvert(
    b: BoiteVue,
    chemin: Seq<char>,
    ouvert: Result<MagasinVue, Seq<char>>,
) -> (BoiteVue, bool) {
    if b.magasin is Some && b.profil == chemin {
        (b, true)
    } else {
        match ouvert {
            Err(e) => (avec_erreur(b, "index local : "@ + e), false),
            Ok(m) => (
                revisee(
                    avec_erreur(
                        BoiteVue {
                            magasin: Some(m),
                            profil: chemin,
                            en_attente: operations_en_attente(Some(m)),
                            ..avec_effet(b, EffetVue::ViderPieces(chemin))
                        },
                        Seq::empty(),
                    ),
                ),
                true,
            ),
        }
    }
}

/// With the connection of an account asked for. A new account is kept only once its
/// connection is made.
pub open spec fn connexion_demandee(
    b: BoiteVue,
    hote: Seq<char>,
    adresse: Seq<char>,
    mot_de_passe: Seq<char>,
) -> (BoiteVue, bool) {
    let h = sans_blancs(hote);
    let a = sans_blancs(adresse);
    if h.len() == 0 || a.len() == 0 {
        (avec_erreur(b, "serveur et adresse sont obligatoires"@), false)
    } else {
        match b.magasin {
            None => (avec_erreur(b, "le profil n'est pas ouvert"@), false),
            Some(m) => match compte_inscrit(m, a, h, PORT_IMAPS, a) {
                (n, Err(e)) => (
                    avec_erreur(BoiteVue { magasin: Some(n), ..b }, "index local : "@ + e),
                    false,
                ),
                (n, Ok(id)) => lancement(
                    BoiteVue {
                        magasin: Some(n),
                        nouveaux: if compte_de(m.comptes, a) is None {
                            inscrit(b.nouveaux, id, ())
                        } else {
                            b.nouveaux
                        },
                        identites: inscrit(
                            b.identites,
                            id,
                            IdentifiantsVue { hote: h, utilisateur: a, mot_de_passe },
                        ),
                        ..b
                    },
                    id,
                    Seq::empty(),
                ),
            },
        }
    }
}

/// With the session of an account closed; its index can still be read.
pub open spec fn deconnexion(b: BoiteVue, compte: i64) -> BoiteVue {
    let f = session_fermee(b, compte);
    revisee(occupation(BoiteVue { etats: inscrit(f.etats, compte, Etat::HorsLigne), ..f }))
}

/// With an account removed from the profile, with its index and the moves that it took
/// part in.
pub open spec fn retrait(b: BoiteVue, compte: i64) -> BoiteVue {
    let f = session_fermee(b, compte);
    let g = BoiteVue {
        identites: raye(f.identites, compte),
        etats: raye(f.etats, compte),
        nouveaux: raye(f.nouveaux, compte),
        magasin: match f.magasin {
            Some(m) => Some(compte_retire(m, compte)),
            None => None,
        },
        ..f
    };
    let h = if g.courant matches Some(c) && c.compte == compte {
        courant_pose(g, None)
    } else {
        g
    };
    revisee(occupation(attente_relue(h)))
}

/// With a folder changed in the index, if it is known.
pub open spec fn dossier_change(
    b: BoiteVue,
    compte: i64,
    chemin: Seq<char>,
    f: spec_fn(MagasinVue, i64) -> MagasinVue,
) -> BoiteVue {
    revisee(
        match b.magasin {
            Some(m) => match dossier_en(m.dossiers, compte, chemin) {
                Some(d) => BoiteVue { magasin: Some(f(m, d.id)), ..b },
                None => b,
            },
            None => b,
        },
    )
}

/// A folder hidden, or shown again.
pub open spec fn masque_en(masque: bool) -> spec_fn(MagasinVue, i64) -> MagasinVue {
    |m: MagasinVue, id: i64|
        MagasinVue { dossiers: m.dossiers.map_values(masquage(id, masque)), ..m }
}

/// A folder pinned, or not.
pub open spec fn epingle_en(favori: bool) -> spec_fn(MagasinVue, i64) -> MagasinVue {
    |m: MagasinVue, id: i64|
        match epingle(m.dossiers, id, favori) {
            Some(t) => MagasinVue { dossiers: t, ..m },
            None => m,
        }
}

/// A folder placed among the favourites, before the one that an account and a path
/// designate, or at the end.
pub open spec fn place_avant(compte: i64, chemin: Seq<char>) -> spec_fn(
    MagasinVue,
    i64,
) -> MagasinVue {
    |m: MagasinVue, id: i64|
        {
            let avant = if chemin.len() == 0 {
                None
            } else {
                match dossier_en(m.dossiers, compte, chemin) {
                    Some(d) => Some(d.id),
                    None => None,
                }
            };
            match favori_place(m.dossiers, id, avant) {
                Some(t) => MagasinVue { dossiers: t, ..m },
                None => m,
            }
        }
}

/// With an account folded in the tree, or unfolded.
pub open spec fn repli(b: BoiteVue, compte: i64, replie: bool) -> BoiteVue {
    revisee(
        match b.magasin {
            Some(m) => BoiteVue {
                magasin: Some(
                    MagasinVue {
                        comptes: m.comptes.map_values(
                            |c: CompteVue|
                                if c.id == compte {
                                    CompteVue { replie, ..c }
                                } else {
                                    c
                                },
                        ),
                        ..m
                    },
                ),
                ..b
            },
            None => b,
        },
    )
}

/// With a folder opened: its index is shown at once, its synchronisation follows.
pub open spec fn dossier_ouvert(b: BoiteVue, compte: i64, chemin: Seq<char>) -> (BoiteVue, bool) {
    let d = match b.magasin {
        Some(m) => dossier_en(m.dossiers, compte, chemin),
        None => None,
    };
    match d {
        None => (avec_erreur(b, "dossier inconnu : "@ + chemin), false),
        Some(d) => envoi(
            courant_pose(b, Some(CourantVue { compte, chemin, id: d.id })),
            compte,
            CommandeVue::OuvrirDossier(chemin),
        ),
    }
}

/// With a message of the open folder asked for.
pub open spec fn corps_demande(b: BoiteVue, uid: i32, brut: bool) -> (BoiteVue, bool) {
    match b.courant {
        Some(c) => if uid <= 0 {
            (b, false)
        } else {
            envoi(b, c.compte, CommandeVue::Corps { chemin: c.chemin, uid: uid as u32, brut })
        },
        None => (b, false),
    }
}

/// With an attachment of a message of the open folder asked for.
pub open spec fn piece_demandee(
    b: BoiteVue,
    uid: i32,
    indice: i32,
    destination: Option<Seq<char>>,
) -> (BoiteVue, bool) {
    match b.courant {
        Some(c) => if uid <= 0 || indice < 0 {
            (b, false)
        } else {
            envoi(
                b,
                c.compte,
                CommandeVue::Piece {
                    chemin: c.chemin,
                    uid: uid as u32,
                    indice: indice as usize,
                    destination,
                },
            )
        },
        None => (b, false),
    }
}

/// The index with messages of a folder marked.
pub open spec fn index_marque(m: MagasinVue, id: i64, uids: Seq<u32>, lu: bool) -> MagasinVue {
    let n = MagasinVue { messages: m.messages.map_values(marquage(id, uids, lu)), ..m };
    match recompte(n, id) {
        Some(o) => o,
        None => n,
    }
}

/// With messages of the open folder marked: in the index at once, and then on the
/// server.
pub open spec fn marquage_demande(b: BoiteVue, uids: Seq<u32>, lu: bool) -> (BoiteVue, bool) {
    match b.courant {
        Some(c) => if uids.len() == 0 {
            (b, false)
        } else {
            envoi(
                revisee(
                    BoiteVue {
                        magasin: match b.magasin {
                            Some(m) => Some(index_marque(m, c.id, uids, lu)),
                            None => None,
                        },
                        ..b
                    },
                ),
                c.compte,
                CommandeVue::MarquerLu { chemin: c.chemin, uids, lu },
            )
        },
        None => (b, false),
    }
}

/// With messages of the open folder to be moved. The target account has to be
/// connected, and the target folder another one.
pub open spec fn deplacement_demande(
    b: BoiteVue,
    uids: Seq<u32>,
    compte_cible: i64,
    chemin_cible: Seq<char>,
) -> (BoiteVue, bool) {
    match b.courant {
        None => (b, false),
        Some(c) => if uids.len() == 0 || (compte_cible == c.compte && chemin_cible == c.chemin) {
            (b, false)
        } else if compte_cible != c.compte && !(connu(b.identites, compte_cible) && etat_de(
            b,
            compte_cible,
        ) == Etat::Pret) {
            (
                avec_erreur(b, "la boîte cible n'est pas connectée : le déplacement est refusé"@),
                false,
            )
        } else {
            envoi(
                b,
                c.compte,
                CommandeVue::Deplacer {
                    source: c.chemin,
                    uids,
                    cible: CibleVue {
                        compte: compte_cible,
                        chemin: chemin_cible,
                        identifiants: if compte_cible == c.compte {
                            None
                        } else {
                            valeur(b.identites, compte_cible)
                        },
                    },
                },
            )
        },
    }
}

/// The trash folder of an account.
pub open spec fn corbeille(m: Option<MagasinVue>, compte: i64) -> Option<Seq<char>> {
    match m {
        Some(m) => match premier(
            dossiers_affiches(m.dossiers, compte),
            |d: DossierLocalVue| d.role == "Trash"@,
        ) {
            Some(d) => Some(d.chemin),
            None => None,
        },
        None => None,
    }
}

/// With messages of the open folder to be moved to the trash of their account.
pub open spec fn suppression_demandee(b: BoiteVue, uids: Seq<u32>) -> (BoiteVue, bool) {
    match b.courant {
        None => (b, false),
        Some(c) => match corbeille(b.magasin, c.compte) {
            None => (avec_erreur(b, "ce compte n'a pas de corbeille déclarée"@), false),
            Some(t) => if t == c.chemin {
                (avec_erreur(b, "ces messages sont déjà dans la corbeille"@), false)
            } else {
                deplacement_demande(b, uids, (c.compte as i32) as i64, t)
            },
        },
    }
}

/// What is asked again of an account: its tree, and the open folder if it is one of
/// its own.
pub open spec fn a_relire(b: BoiteVue, compte: i64) -> Seq<CommandeVue> {
    match b.courant {
        Some(c) => if c.compte == compte {
            seq![CommandeVue::Arborescence, CommandeVue::OuvrirDossier(c.chemin)]
        } else {
            seq![CommandeVue::Arborescence]
        },
        None => seq![CommandeVue::Arborescence],
    }
}

/// With requests for the worker of an account, one after the other.
pub open spec fn envoi_de(b: BoiteVue, compte: i64, v: Seq<CommandeVue>) -> BoiteVue
    decreases v.len(),
{
    if v.len() == 0 {
        b
    } else {
        envoi(envoi_de(b, compte, v.drop_last()), compte, v.last()).0
    }
}

/// With an account brought up to date: its worker is asked to, or started again.
pub open spec fn compte_actualise(b: BoiteVue, compte: i64) -> BoiteVue {
    if connu(b.sessions, compte) {
        envoi_de(b, compte, a_relire(b, compte))
    } else if connu(b.identites, compte) {
        lancement(b, compte, a_relire(b, compte)).0
    } else {
        b
    }
}

/// With accounts brought up to date, one after the other.
pub open spec fn comptes_actualises(b: BoiteVue, comptes: Seq<CompteVue>) -> BoiteVue
    decreases comptes.len(),
{
    if comptes.len() == 0 {
        b
    } else {
        compte_actualise(comptes_actualises(b, comptes.drop_last()), comptes.last().id)
    }
}

/// The accounts of an index, in the order in which they are shown.
pub open spec fn comptes_montres(m: Option<MagasinVue>) -> Seq<CompteVue> {
    match m {
        Some(m) => trie(m.comptes, ordre_comptes()),
        None => Seq::empty(),
    }
}

/// With all the accounts brought up to date.
pub open spec fn actualisation(b: BoiteVue) -> BoiteVue {
    comptes_actualises(b, comptes_montres(b.magasin))
}

// --------------------------------------------------------- model: what workers hand out

/// Whether the session of an account is ready, or is that of `compte`.
pub open spec fn prete(b: BoiteVue, compte: i64) -> spec_fn(i64) -> bool {
    |k: i64| k == compte || etat_de(b, k) == Etat::Pret
}

/// The accounts that a session is open on and ready, `compte` among them.
pub open spec fn connectes(b: BoiteVue, compte: i64) -> Seq<i64> {
    clefs(b.sessions).filter(prete(b, compte))
}

/// Whether an account is another one than `compte`.
pub open spec fn autre_que(compte: i64) -> spec_fn(i64) -> bool {
    |k: i64| k != compte
}

/// With the session of an account open. The account may be the source or the target
/// of interrupted moves: each connected session resumes its own.
pub open spec fn connexion_faite(b: BoiteVue, compte: i64) -> BoiteVue {
    let adresse = match valeur(b.identites, compte) {
        Some(i) => i.utilisateur,
        None => Seq::empty(),
    };
    let p = BoiteVue {
        etats: inscrit(b.etats, compte, Etat::Pret),
        nouveaux: raye(b.nouveaux, compte),
        ..b
    };
    signale(
        revisee(
            erreur_maintenue(
                envois(p, connectes(p, compte), CommandeVue::Reprendre(p.identites)),
                Seq::empty(),
            ),
        ),
        SignalVue::Connecte { compte: compte as i32, adresse },
    )
}

/// With messages moved: the target has changed too, its counters, and its list if it
/// is the open folder.
pub open spec fn deplacement_fait(
    b: BoiteVue,
    compte: i64,
    cible: i64,
    chemin_cible: Seq<char>,
    rapport: RapportVue,
) -> BoiteVue {
    let p = if cible != compte && connu(b.sessions, cible) {
        envoi(b, cible, CommandeVue::Arborescence).0
    } else {
        b
    };
    let q = if p.courant matches Some(c) && c.compte == cible && c.chemin == chemin_cible {
        envoi(p, cible, CommandeVue::OuvrirDossier(chemin_cible)).0
    } else {
        p
    };
    let r = revisee(attente_relue(q));
    let erreurs = jointure(rapport.erreurs, "\n"@);
    signale(
        if erreurs.len() > 0 {
            erreur_maintenue(r, erreurs)
        } else {
            r
        },
        SignalVue::DeplacementTermine { nombre: rapport.deplaces as i32, erreurs },
    )
}

/// With interrupted moves resumed: the targets received messages, so that their
/// counters changed.
pub open spec fn reprise_faite(b: BoiteVue, compte: i64, rapport: RapportVue) -> BoiteVue {
    let autres = clefs(b.sessions).filter(autre_que(compte));
    let p = revisee(attente_relue(envois(b, autres, CommandeVue::Arborescence)));
    if rapport.erreurs.len() > 0 {
        erreur_maintenue(p, "reprise des déplacements : "@ + jointure(rapport.erreurs, "\n"@))
    } else {
        p
    }
}

/// With the session of an account lost. An account whose very first connection fails
/// is not kept; what opens an account is forgotten once it was refused.
pub open spec fn session_perdue(b: BoiteVue, compte: i64, etape: Seq<char>) -> BoiteVue {
    let f = session_fermee(b, compte);
    let p = BoiteVue { etats: inscrit(f.etats, compte, Etat::Erreur), ..f };
    let q = if connu(b.nouveaux, compte) && (etape == "connexion"@ || etape == "identifiants"@) {
        BoiteVue {
            nouveaux: raye(p.nouveaux, compte),
            identites: raye(p.identites, compte),
            etats: raye(p.etats, compte),
            magasin: match p.magasin {
                Some(m) => Some(compte_retire(m, compte)),
                None => None,
            },
            ..p
        }
    } else {
        p
    };
    if etape == "identifiants"@ {
        BoiteVue { identites: raye(q.identites, compte), ..q }
    } else {
        q
    }
}

/// With a failure told.
pub open spec fn echec_recu(
    b: BoiteVue,
    compte: i64,
    etape: Seq<char>,
    message: Seq<char>,
    perdue: bool,
) -> BoiteVue {
    let p = if perdue {
        session_perdue(b, compte, etape)
    } else {
        b
    };
    signale(
        avec_erreur(revisee(attente_relue(p)), message),
        SignalVue::Echec { compte: compte as i32, etape, message },
    )
}

/// With what the worker of an account handed out.
pub open spec fn issue_recue(b: BoiteVue, compte: i64, issue: IssueVue) -> BoiteVue {
    occupation(
        match issue {
            IssueVue::Connecte => connexion_faite(b, compte),
            IssueVue::Arborescence => revisee(attente_relue(b)),
            IssueVue::Dossier { chemin, veille } => signale(
                revisee(b),
                SignalVue::DossierOuvert { compte: compte as i32, chemin, veille },
            ),
            IssueVue::Corps { uid, texte, brut, marque, pieces } => signale(
                if marque {
                    signale(revisee(b), SignalVue::DrapeauxModifies)
                } else {
                    b
                },
                SignalVue::CorpsRecu { uid: uid as i32, texte, brut, pieces },
            ),
            IssueVue::Piece { fichier, ouvrir } => signale(
                b,
                SignalVue::PieceEcrite { fichier, ouvrir },
            ),
            IssueVue::Marque => signale(revisee(b), SignalVue::DrapeauxModifies),
            IssueVue::Deplace { cible, chemin_cible, rapport } => deplacement_fait(
                b,
                compte,
                cible,
                chemin_cible,
                rapport,
            ),
            IssueVue::Repris { rapport } => reprise_faite(b, compte, rapport),
            IssueVue::Echec { etape, message, session_perdue } => echec_recu(
                b,
                compte,
                etape,
                message,
                session_perdue,
            ),
        },
    )
}

/// Whether a session is the current one of an account.
pub open spec fn a_jour(b: BoiteVue, compte: i64, generation: u64) -> bool {
    valeur(b.sessions, compte) matches Some(s) && s.generation == generation
}

/// With what the worker of a session handed out, ignored unless the session is the
/// current one.
pub open spec fn remise(b: BoiteVue, compte: i64, generation: u64, issue: IssueVue) -> BoiteVue {
    if a_jour(b, compte, generation) {
        issue_recue(b, compte, issue)
    } else {
        b
    }
}

/// With so many requests of a session over with.
pub open spec fn requetes_terminees(b: BoiteVue, compte: i64, generation: u64, nombre: usize) -> BoiteVue {
    match valeur(b.sessions, compte) {
        Some(s) => if s.generation == generation {
            let attente = if nombre <= s.attente {
                (s.attente - nombre) as usize
            } else {
                0
            };
            BoiteVue { sessions: inscrit(b.sessions, compte, Session { attente, ..s }), ..b }
        } else {
            b
        },
        None => b,
    }
}

/// With a request that the worker of an account did not take.
pub open spec fn refus_envoi(b: BoiteVue, compte: i64, c: CommandeVue) -> (BoiteVue, bool) {
    if connu(b.sessions, compte) {
        (
            occupation(
                avec_erreur(session_fermee(b, compte), "la session du compte s'est fermée"@),
            ),
            false,
        )
    } else {
        envoi(b, compte, c)
    }
}

// --------------------------------------------------------------- model: what is shown

/// An account in JSON.
pub open spec fn compte_json(c: CompteVue, e: Etat) -> Seq<char> {
    "{\"id\":"@ + decimal_signe(c.id as int) + ",\"adresse\":"@ + chaine_json(c.adresse)
        + ",\"hote\":"@ + chaine_json(c.hote) + ",\"etat\":"@ + chaine_json(code_etat(e)) + "}"@
}

/// The accounts of the profile in JSON.
pub open spec fn comptes_json(b: BoiteVue) -> Seq<char> {
    liste_json(
        comptes_montres(b.magasin).map_values(|c: CompteVue| compte_json(c, etat_de(b, c.id))),
    )
}

/// The line of an account in the tree.
pub open spec fn ligne_compte(c: CompteVue, e: Etat) -> Seq<char> {
    "{\"genre\":\"compte\",\"compte\":"@ + decimal_signe(c.id as int) + ",\"adresse\":"@
        + chaine_json(c.adresse) + ",\"hote\":"@ + chaine_json(c.hote) + ",\"etat\":"@
        + chaine_json(code_etat(e)) + ",\"replie\":"@ + booleen(c.replie) + "}"@
}

/// The address of an account, the last of those of the same identifier.
pub open spec fn adresse_de(comptes: Seq<CompteVue>, id: i64) -> Seq<char>
    decreases comptes.len(),
{
    if comptes.len() == 0 {
        Seq::empty()
    } else if comptes.last().id == id {
        comptes.last().adresse
    } else {
        adresse_de(comptes.drop_last(), id)
    }
}

/// The lines of folders in the tree, those that a condition keeps.
pub open spec fn lignes_dossiers(
    genre: Seq<char>,
    ds: Seq<DossierLocalVue>,
    adresse: Seq<char>,
    garder: spec_fn(DossierLocalVue) -> bool,
) -> Seq<Seq<char>> {
    ds.filter(garder).map_values(
        |d: DossierLocalVue| dossier_json(genre, d, adresse, d.profondeur),
    )
}

/// The lines of the favourites in the tree: the section is always there, even empty,
/// as folders can be dropped on it.
pub open spec fn lignes_favoris(comptes: Seq<CompteVue>, favoris: Seq<DossierLocalVue>) -> Seq<
    Seq<char>,
> {
    let tete = seq!["{\"genre\":\"rubrique\",\"nom\":\"Favoris\"}"@];
    if favoris.len() == 0 {
        tete.push("{\"genre\":\"favori-vide\"}"@)
    } else {
        tete + favoris.map_values(
            |d: DossierLocalVue|
                dossier_json("favori"@, d, adresse_de(comptes, d.compte_id), 0),
        )
    }
}

/// Whether a folder is shown.
pub open spec fn montre(masques: bool) -> spec_fn(DossierLocalVue) -> bool {
    |d: DossierLocalVue| !d.masque || masques
}

/// The lines of an account in the tree: its own, then those of its folders, unless it
/// is folded.
pub open spec fn lignes_compte(b: BoiteVue, m: MagasinVue, c: CompteVue, masques: bool) -> Seq<
    Seq<char>,
> {
    let tete = seq![ligne_compte(c, etat_de(b, c.id))];
    if c.replie {
        tete
    } else {
        tete + lignes_dossiers(
            "dossier"@,
            dossiers_affiches(m.dossiers, c.id),
            c.adresse,
            montre(masques),
        )
    }
}

/// The lines of accounts in the tree.
pub open spec fn lignes_comptes(
    b: BoiteVue,
    m: MagasinVue,
    comptes: Seq<CompteVue>,
    masques: bool,
) -> Seq<Seq<char>>
    decreases comptes.len(),
{
    if comptes.len() == 0 {
        Seq::empty()
    } else {
        lignes_comptes(b, m, comptes.drop_last(), masques) + lignes_compte(
            b,
            m,
            comptes.last(),
            masques,
        )
    }
}

/// The lines of the common tree: the favourites, then each account with its folders.
pub open spec fn lignes_arbre(b: BoiteVue, m: MagasinVue, masques: bool) -> Seq<Seq<char>> {
    let comptes = comptes_montres(Some(m));
    lignes_favoris(comptes, favoris_affiches(m.dossiers).filter(montre(masques))) + lignes_comptes(
        b,
        m,
        comptes,
        masques,
    )
}

/// The common tree in JSON.
pub open spec fn arbre_json(b: BoiteVue, masques: bool) -> Seq<char> {
    match b.magasin {
        None => "[]"@,
        Some(m) => liste_json(lignes_arbre(b, m, masques)),
    }
}

/// Whether a folder can receive a message.
pub open spec fn visable() -> spec_fn(DossierLocalVue) -> bool {
    |d: DossierLocalVue| d.selectionnable
}

/// The lines of the folders that can receive a message, of connected accounts.
pub open spec fn lignes_cibles(b: BoiteVue, m: MagasinVue, comptes: Seq<CompteVue>) -> Seq<Seq<char>>
    decreases comptes.len(),
{
    if comptes.len() == 0 {
        Seq::empty()
    } else {
        let c = comptes.last();
        let avant = lignes_cibles(b, m, comptes.drop_last());
        if etat_de(b, c.id) != Etat::Pret {
            avant
        } else {
            avant + lignes_dossiers(
                "cible"@,
                dossiers_affiches(m.dossiers, c.id),
                c.adresse,
                visable(),
            )
        }
    }
}

/// The folders that can receive a message, in JSON.
pub open spec fn cibles_json(b: BoiteVue) -> Seq<char> {
    match b.magasin {
        None => "[]"@,
        Some(m) => liste_json(lignes_cibles(b, m, comptes_montres(b.magasin))),
    }
}

/// The messages of the open folder in JSON.
pub open spec fn messages_montres(b: BoiteVue) -> Seq<char> {
    match (b.magasin, b.courant) {
        (Some(m), Some(c)) => messages_json(messages_affiches(m.messages, c.id)),
        _ => "[]"@,
    }
}

// ------------------------------------------------------------------- code: the parts

/// What a profile holds before it is opened.
pub open spec fn boite_neuve() -> BoiteVue {
    BoiteVue {
        occupe: false,
        erreur: Seq::empty(),
        revision: 0,
        compte_courant: 0,
        dossier_courant: Seq::empty(),
        en_attente: 0,
        profil: Seq::empty(),
        magasin: None,
        sessions: Seq::empty(),
        identites: Seq::empty(),
        etats: Seq::empty(),
        nouveaux: Seq::empty(),
        generation: 0,
        courant: None,
        effets: Seq::empty(),
    }
}

fn vide() -> (r: String)
    ensures
        r@ == Seq::<char>::empty(),
{
    let v: Vec<char> = Vec::new();
    chaine(v.as_slice())
}

impl Default for Boite {
    fn default() -> (r: Self)
        ensures
            r@ == boite_neuve(),
    {
        let r = Boite {
            occupe: false,
            erreur: vide(),
            revision: 0,
            compte_courant: 0,
            dossier_courant: vide(),
            en_attente: 0,
            profil: vide(),
            magasin: None,
            sessions: Annuaire::nouveau(),
            identites: Annuaire::nouveau(),
            etats: Annuaire::nouveau(),
            nouveaux: Annuaire::nouveau(),
            generation: 0,
            courant: None,
            effets: Vec::new(),
        };
        assert(r@.effets =~= Seq::empty());
        r
    }
}

impl Boite {
    fn etat(&self, compte: i64) -> (r: Etat)
        ensures
            r == etat_de(self@, compte),
    {
        match self.etats.valeur(compte) {
            Some(e) => *e,
            None => Etat::HorsLigne,
        }
    }

    fn poser_erreur(&mut self, texte: String)
        ensures
            final(self)@ == avec_erreur(old(self)@, texte@),
    {
        self.erreur = texte;
    }

    fn maintenir_erreur(&mut self, texte: String)
        ensures
            final(self)@ == erreur_maintenue(old(self)@, texte@),
    {
        let encore = texte.clone();
        self.poser_erreur(texte);
        self.effet(Effet::Reposer(encore));
    }

    fn effet(&mut self, e: Effet)
        ensures
            final(self)@ == avec_effet(old(self)@, e@),
    {
        let ghost avant = vues(self.effets@);
        self.effets.push(e);
        assert(vues(self.effets@) =~= avant.push(e@));
    }

    fn signaler(&mut self, s: Signal)
        ensures
            final(self)@ == signale(old(self)@, s@),
    {
        self.effet(Effet::Signaler(s));
    }

    fn reviser(&mut self)
        ensures
            final(self)@ == revisee(old(self)@),
    {
        self.revision = if self.revision == i32::MAX {
            i32::MIN
        } else {
            self.revision + 1
        };
    }

    fn rafraichir_occupe(&mut self)
        ensures
            final(self)@ == occupation(old(self)@),
    {
        let n: usize = self.sessions.taille();
        let mut i: usize = 0;
        let mut occupe = false;
        while i < n
            invariant
                n == self.sessions@.len(),
                i <= n,
                self@ == old(self)@,
                occupe == exists|k: int|
                    0 <= k < i && (#[trigger] self.sessions@[k]).1.attente > 0,
            decreases n - i,
        {
            let (_, s) = self.sessions.entree(i);
            if s.attente > 0 {
                occupe = true;
                assert(self.sessions@[i as int].1.attente > 0);
            }
            i = i + 1;
        }
        self.occupe = occupe;
        assert(occupe == active(self@.sessions));
    }

    fn rafraichir_attente(&mut self)
        ensures
            final(self)@ == attente_relue(old(self)@),
    {
        let n: u32 = match &self.magasin {
            Some(m) => match m.nombre_operations() {
                Ok(n) => n,
                Err(_) => 0,
            },
            None => 0,
        };
        self.en_attente = n as i32;
    }

    fn poser_courant(&mut self, courant: Option<Courant>)
        ensures
            final(self)@ == courant_pose(old(self)@, vue_courant(courant)),
    {
        match &courant {
            Some(c) => {
                self.compte_courant = c.compte as i32;
                self.dossier_courant = c.chemin.clone();
            },
            None => {
                self.compte_courant = 0;
                self.dossier_courant = vide();
            },
        }
        self.courant = courant;
    }

    fn fermer_session(&mut self, compte: i64)
        ensures
            final(self)@ == session_fermee(old(self)@, compte),
    {
        match self.sessions.rayer(compte) {
            Some(_) => {
                self.effet(Effet::Fermer(compte));
            },
            None => {},
        }
    }

    /// Asks for the worker of an account, with requests to deal with once its session
    /// is open.
    fn lancer(&mut self, compte: i64, commandes: Vec<Commande>) -> (r: bool)
        ensures
            (final(self)@, r) == lancement(old(self)@, compte, vues(commandes@)),
    {
        let identifiants = match self.identites.valeur(compte) {
            Some(i) => i.clone(),
            None => {
                return false;
            },
        };
        self.fermer_session(compte);
        self.effet(Effet::Lancer { compte, identifiants, commandes });
        true
    }

    fn envoyer(&mut self, compte: i64, commande: Commande) -> (r: bool)
        ensures
            (final(self)@, r) == envoi(old(self)@, compte, commande@),
    {
        let session: Session = match self.sessions.valeur(compte) {
            Some(s) => *s,
            None => {
                if self.identites.connu(compte) {
                    let mut v: Vec<Commande> = Vec::new();
                    let ghost c = commande@;
                    v.push(commande);
                    assert(vues(v@) =~= seq![c]);
                    return self.lancer(compte, v);
                }
                self.poser_erreur(copier("ce compte n'est pas connecté"));
                return false;
            },
        };
        let attente: usize = if commande.comptee() && session.attente < usize::MAX {
            session.attente + 1
        } else {
            session.attente
        };
        self.sessions.inscrire(compte, Session { attente, generation: session.generation });
        self.effet(Effet::Envoyer { compte, commande });
        self.rafraichir_occupe();
        true
    }
}

// -------------------------------------------------------------- code: the operations

/// What the opening of an index gave.
pub open spec fn vue_ouverture(r: Resultat<Magasin>) -> Result<MagasinVue, Seq<char>> {
    match r {
        Ok(m) => Ok(m@),
        Err(e) => Err(e.0@),
    }
}

fn copier_courant(c: &Option<Courant>) -> (r: Option<Courant>)
    ensures
        vue_courant(r) == vue_courant(*c),
{
    match c {
        Some(c) => Some(Courant { compte: c.compte, chemin: c.chemin.clone(), id: c.id }),
        None => None,
    }
}

impl Boite {
    /// Whether something that was asked for is in progress.
    pub fn occupe(&self) -> (r: bool)
        ensures
            r == self@.occupe,
    {
        self.occupe
    }

    /// The last error, empty if there was none.
    pub fn erreur(&self) -> (r: &str)
        ensures
            r@ == self@.erreur,
    {
        self.erreur.as_str()
    }

    /// Grows whenever the tree or its counters change.
    pub fn revision(&self) -> (r: i32)
        ensures
            r == self@.revision,
    {
        self.revision
    }

    /// The account of the open folder, 0 if there is none.
    pub fn compte_courant(&self) -> (r: i32)
        ensures
            r == self@.compte_courant,
    {
        self.compte_courant
    }

    /// The path of the open folder, empty if there is none.
    pub fn dossier_courant(&self) -> (r: &str)
        ensures
            r@ == self@.dossier_courant,
    {
        self.dossier_courant.as_str()
    }

    /// Moves between accounts that are registered and not settled.
    pub fn en_attente(&self) -> (r: i32)
        ensures
            r == self@.en_attente,
    {
        self.en_attente
    }

    /// The index of the profile, as it stands.
    pub fn magasin(&self) -> (r: Option<&Magasin>)
        ensures
            match r {
                Some(m) => self@.magasin == Some(m@),
                None => self@.magasin is None,
            },
    {
        match &self.magasin {
            Some(m) => Some(m),
            None => None,
        }
    }

    /// Gives the index of the profile as the workers have left it.
    pub fn relire(&mut self, magasin: Magasin)
        ensures
            final(self)@ == (BoiteVue { magasin: Some(magasin@), ..old(self)@ }),
    {
        self.magasin = Some(magasin);
    }

    /// Takes what is still to be done outside, in its order.
    pub fn effets(&mut self) -> (r: Vec<Effet>)
        ensures
            vues(r@) == old(self)@.effets,
            final(self)@ == (BoiteVue { effets: Seq::empty(), ..old(self)@ }),
    {
        let mut v: Vec<Effet> = Vec::new();
        std::mem::swap(&mut v, &mut self.effets);
        assert(self@.effets =~= Seq::empty());
        v
    }

    /// True if this profile is open already.
    pub fn profil_ouvert(&self, chemin: &str) -> (r: bool)
        ensures
            r == (self@.magasin is Some && self@.profil == chemin@),
    {
        self.magasin.is_some() && egal(self.profil.as_str(), chemin)
    }

    /// Takes the index of a profile, as its opening gave it. To be called before
    /// anything else. The attachments that were opened before are of no more use.
    pub fn ouvrir_profil(&mut self, chemin: &str, ouvert: Resultat<Magasin>) -> (r: bool)
        ensures
            (final(self)@, r) == profil_ouvert(old(self)@, chemin@, vue_ouverture(ouvert)),
    {
        if self.profil_ouvert(chemin) {
            return true;
        }
        match ouvert {
            Ok(m) => {
                self.effet(Effet::ViderPieces(copier(chemin)));
                self.magasin = Some(m);
                self.profil = copier(chemin);
                self.rafraichir_attente();
                self.poser_erreur(vide());
                self.reviser();
                true
            },
            Err(e) => {
                self.poser_erreur(accoler("index local : ", e.0.as_str()));
                false
            },
        }
    }

    /// Connects an account, new or known. A new account whose first connection fails
    /// is not kept.
    pub fn connecter(&mut self, hote: &str, adresse: &str, mot_de_passe: &str) -> (r: bool)
        ensures
            (final(self)@, r) == connexion_demandee(
                old(self)@,
                hote@,
                adresse@,
                mot_de_passe@,
            ),
    {
        let h = caracteres(hote);
        let a = caracteres(adresse);
        let hote = chaine(rogner(h.as_slice()));
        let adresse = chaine(rogner(a.as_slice()));
        if hote.as_str().is_empty() || adresse.as_str().is_empty() {
            self.poser_erreur(copier("serveur et adresse sont obligatoires"));
            return false;
        }
        let ghost b = self@;
        let mut index: Option<Magasin> = None;
        std::mem::swap(&mut index, &mut self.magasin);
        match index {
            None => {
                self.poser_erreur(copier("le profil n'est pas ouvert"));
                false
            },
            Some(m) => {
                let mut m = m;
                let nouveau = match m.compte_connu(adresse.as_str()) {
                    Ok(None) => true,
                    _ => false,
                };
                let inscription = m.compte(
                    adresse.as_str(),
                    hote.as_str(),
                    PORT_IMAPS,
                    adresse.as_str(),
                );
                self.magasin = Some(m);
                match inscription {
                    Err(e) => {
                        self.poser_erreur(accoler("index local : ", e.0.as_str()));
                        false
                    },
                    Ok(id) => {
                        if nouveau {
                            self.nouveaux.inscrire(id, ());
                        }
                        self.identites.inscrire(
                            id,
                            Identifiants {
                                hote,
                                utilisateur: adresse,
                                mot_de_passe: copier(mot_de_passe),
                            },
                        );
                        let v: Vec<Commande> = Vec::new();
                        assert(vues(v@) =~= Seq::empty());
                        self.lancer(id, v)
                    },
                }
            },
        }
    }

    /// The number of the session of the next worker that is started.
    pub fn prochaine_generation(&self) -> (r: u64)
        ensures
            r == generation_suivante(self@.generation),
    {
        if self.generation == u64::MAX {
            0
        } else {
            self.generation + 1
        }
    }

    /// The worker of an account was started, with so many requests.
    pub fn lance(&mut self, compte: i64, commandes: usize)
        ensures
            final(self)@ == lancee(old(self)@, compte, commandes as int),
    {
        let generation: u64 = self.prochaine_generation();
        self.generation = generation;
        let attente: usize = if commandes < usize::MAX {
            1 + commandes
        } else {
            usize::MAX
        };
        self.sessions.inscrire(compte, Session { attente, generation });
        self.etats.inscrire(compte, Etat::Connexion);
        self.poser_erreur(vide());
        self.rafraichir_occupe();
        self.reviser();
    }

    /// The worker of an account could not be started.
    pub fn lancement_rate(&mut self, erreur: &str)
        ensures
            final(self)@ == avec_erreur(old(self)@, "fil de travail : "@ + erreur@),
    {
        self.poser_erreur(accoler("fil de travail : ", erreur));
    }

    /// Writes the error again, once the requests sent before it are handed over.
    pub fn reposer_erreur(&mut self, texte: &str)
        ensures
            final(self)@ == avec_erreur(old(self)@, texte@),
    {
        self.poser_erreur(copier(texte));
    }

    /// The worker of an account did not take a request: its session is closed. Where
    /// that was known already, the request is sent as one without a session is.
    pub fn envoi_refuse(&mut self, compte: i64, commande: Commande) -> (r: bool)
        ensures
            (final(self)@, r) == refus_envoi(old(self)@, compte, commande@),
    {
        if self.sessions.connu(compte) {
            self.fermer_session(compte);
            self.poser_erreur(copier("la session du compte s'est fermée"));
            self.rafraichir_occupe();
            false
        } else {
            self.envoyer(compte, commande)
        }
    }

    /// Closes the session of an account; its index can still be read.
    pub fn deconnecter(&mut self, compte: i32)
        ensures
            final(self)@ == deconnexion(old(self)@, compte as i64),
    {
        let compte: i64 = compte as i64;
        self.fermer_session(compte);
        self.etats.inscrire(compte, Etat::HorsLigne);
        self.rafraichir_occupe();
        self.reviser();
    }

    fn oublier(&mut self, id: i64)
        ensures
            final(self)@ == (BoiteVue {
                identites: raye(old(self)@.identites, id),
                etats: raye(old(self)@.etats, id),
                nouveaux: raye(old(self)@.nouveaux, id),
                magasin: match old(self)@.magasin {
                    Some(m) => Some(compte_retire(m, id)),
                    None => None,
                },
                ..old(self)@
            }),
    {
        let _ = self.identites.rayer(id);
        let _ = self.etats.rayer(id);
        let _ = self.nouveaux.rayer(id);
        match &mut self.magasin {
            Some(m) => {
                let _ = m.retirer_compte(id);
            },
            None => {},
        }
    }

    /// Removes an account from the profile, with its index. Nothing is changed on the
    /// server.
    pub fn retirer_compte(&mut self, compte: i32)
        ensures
            final(self)@ == retrait(old(self)@, compte as i64),
    {
        let id: i64 = compte as i64;
        self.fermer_session(id);
        self.oublier(id);
        let ouvert = match &self.courant {
            Some(c) => c.compte == id,
            None => false,
        };
        if ouvert {
            self.poser_courant(None);
        }
        self.rafraichir_attente();
        self.rafraichir_occupe();
        self.reviser();
    }

    /// Folds an account in the tree, or unfolds it.
    pub fn replier_compte(&mut self, compte: i32, replie: bool)
        ensures
            final(self)@ == repli(old(self)@, compte as i64, replie),
    {
        match &mut self.magasin {
            Some(m) => {
                let _ = m.replier_compte(compte as i64, replie);
            },
            None => {},
        }
        self.reviser();
    }

    /// Hides a folder in the tree, or shows it again.
    pub fn masquer_dossier(&mut self, compte: i32, chemin: &str, masque: bool)
        ensures
            final(self)@ == dossier_change(
                old(self)@,
                compte as i64,
                chemin@,
                masque_en(masque),
            ),
    {
        match &mut self.magasin {
            Some(m) => match m.dossier_id(compte as i64, chemin) {
                Ok(id) => {
                    let _ = m.masquer(id, masque);
                },
                Err(_) => {},
            },
            None => {},
        }
        self.reviser();
    }

    /// Pins a folder among the favourites, or unpins it.
    pub fn epingler_dossier(&mut self, compte: i32, chemin: &str, favori: bool)
        ensures
            final(self)@ == dossier_change(
                old(self)@,
                compte as i64,
                chemin@,
                epingle_en(favori),
            ),
    {
        match &mut self.magasin {
            Some(m) => match m.dossier_id(compte as i64, chemin) {
                Ok(id) => {
                    let _ = m.epingler(id, favori);
                },
                Err(_) => {},
            },
            None => {},
        }
        self.reviser();
    }

    /// Places a folder among the favourites, before the one that `compte_avant` and
    /// `chemin_avant` designate, or at the end if `chemin_avant` is empty.
    pub fn placer_favori(
        &mut self,
        compte: i32,
        chemin: &str,
        compte_avant: i32,
        chemin_avant: &str,
    )
        ensures
            final(self)@ == dossier_change(
                old(self)@,
                compte as i64,
                chemin@,
                place_avant(compte_avant as i64, chemin_avant@),
            ),
    {
        match &mut self.magasin {
            Some(m) => match m.dossier_id(compte as i64, chemin) {
                Ok(id) => {
                    let avant: Option<i64> = if chemin_avant.is_empty() {
                        None
                    } else {
                        match m.dossier_id(compte_avant as i64, chemin_avant) {
                            Ok(a) => Some(a),
                            Err(_) => None,
                        }
                    };
                    let _ = m.placer_favori(id, avant);
                },
                Err(_) => {},
            },
            None => {},
        }
        self.reviser();
    }

    /// Opens a folder: its index is shown at once, its synchronisation follows.
    pub fn ouvrir_dossier(&mut self, compte: i32, chemin: &str) -> (r: bool)
        ensures
            (final(self)@, r) == dossier_ouvert(old(self)@, compte as i64, chemin@),
    {
        let compte: i64 = compte as i64;
        let id: Option<i64> = match &self.magasin {
            Some(m) => match m.dossier_id(compte, chemin) {
                Ok(id) => Some(id),
                Err(_) => None,
            },
            None => None,
        };
        match id {
            None => {
                self.poser_erreur(accoler("dossier inconnu : ", chemin));
                false
            },
            Some(id) => {
                self.poser_courant(Some(Courant { compte, chemin: copier(chemin), id }));
                self.envoyer(compte, Commande::OuvrirDossier(copier(chemin)))
            },
        }
    }

    fn demander(&mut self, uid: i32, brut: bool) -> (r: bool)
        ensures
            (final(self)@, r) == corps_demande(old(self)@, uid, brut),
    {
        if uid <= 0 {
            return false;
        }
        match copier_courant(&self.courant) {
            Some(c) => self.envoyer(
                c.compte,
                Commande::Corps { chemin: c.chemin, uid: uid as u32, brut },
            ),
            None => false,
        }
    }

    /// Asks for the body of a message of the open folder, to be shown; it is marked as
    /// read.
    pub fn demander_corps(&mut self, uid: i32) -> (r: bool)
        ensures
            (final(self)@, r) == corps_demande(old(self)@, uid, false),
    {
        self.demander(uid, false)
    }

    /// Asks for a message of the open folder as the server has it.
    pub fn demander_source(&mut self, uid: i32) -> (r: bool)
        ensures
            (final(self)@, r) == corps_demande(old(self)@, uid, true),
    {
        self.demander(uid, true)
    }

    fn demander_piece(&mut self, uid: i32, indice: i32, destination: Option<String>) -> (r: bool)
        ensures
            (final(self)@, r) == piece_demandee(
                old(self)@,
                uid,
                indice,
                vue_option(destination),
            ),
    {
        if uid <= 0 || indice < 0 {
            return false;
        }
        match copier_courant(&self.courant) {
            Some(c) => self.envoyer(
                c.compte,
                Commande::Piece {
                    chemin: c.chemin,
                    uid: uid as u32,
                    indice: indice as usize,
                    destination,
                },
            ),
            None => false,
        }
    }

    /// Opens an attachment of a message of the open folder with the program of the
    /// system, which is refused for a program.
    pub fn ouvrir_piece(&mut self, uid: i32, indice: i32) -> (r: bool)
        ensures
            (final(self)@, r) == piece_demandee(old(self)@, uid, indice, None),
    {
        self.demander_piece(uid, indice, None)
    }

    /// Writes an attachment at the place that was chosen. `chemin` is the file that
    /// the chosen address stands for, empty if it stands for none.
    pub fn enregistrer_piece(&mut self, uid: i32, indice: i32, chemin: &str) -> (r: bool)
        ensures
            (final(self)@, r) == (if chemin@.len() == 0 {
                (avec_erreur(old(self)@, "emplacement d'enregistrement invalide"@), false)
            } else {
                piece_demandee(old(self)@, uid, indice, Some(chemin@))
            }),
    {
        if chemin.is_empty() {
            self.poser_erreur(copier("emplacement d'enregistrement invalide"));
            return false;
        }
        self.demander_piece(uid, indice, Some(copier(chemin)))
    }

    /// Marks messages of the open folder, whose UIDs commas separate, as read or
    /// unread.
    pub fn marquer_lu(&mut self, uids: &str, lu: bool) -> (r: bool)
        ensures
            (final(self)@, r) == marquage_demande(old(self)@, uids_listes(uids@), lu),
    {
        let uids = lire_uids(uids);
        let c = match copier_courant(&self.courant) {
            Some(c) => c,
            None => {
                return false;
            },
        };
        if uids.len() == 0 {
            return false;
        }
        match &mut self.magasin {
            Some(m) => {
                let _ = m.marquer_lu(c.id, uids.as_slice(), lu);
            },
            None => {},
        }
        self.reviser();
        self.envoyer(c.compte, Commande::MarquerLu { chemin: c.chemin, uids, lu })
    }

    /// Moves messages of the open folder to a folder of any connected account.
    pub fn deplacer(&mut self, uids: &str, compte_cible: i32, chemin_cible: &str) -> (r: bool)
        ensures
            (final(self)@, r) == deplacement_demande(
                old(self)@,
                uids_listes(uids@),
                compte_cible as i64,
                chemin_cible@,
            ),
    {
        let uids = lire_uids(uids);
        let c = match copier_courant(&self.courant) {
            Some(c) => c,
            None => {
                return false;
            },
        };
        let compte: i64 = compte_cible as i64;
        if uids.len() == 0 || (compte == c.compte && egal(chemin_cible, c.chemin.as_str())) {
            return false;
        }
        let mut identifiants: Option<Identifiants> = None;
        if compte != c.compte {
            let pret = self.etat(compte) == Etat::Pret;
            match self.identites.valeur(compte) {
                Some(i) => {
                    if pret {
                        identifiants = Some(i.clone());
                    }
                },
                None => {},
            }
            if identifiants.is_none() {
                self.poser_erreur(
                    copier("la boîte cible n'est pas connectée : le déplacement est refusé"),
                );
                return false;
            }
        }
        let cible = Cible { compte, chemin: copier(chemin_cible), identifiants };
        self.envoyer(c.compte, Commande::Deplacer { source: c.chemin, uids, cible })
    }

    /// Moves messages of the open folder to the trash of their account.
    pub fn supprimer(&mut self, uids: &str) -> (r: bool)
        ensures
            (final(self)@, r) == suppression_demandee(old(self)@, uids_listes(uids@)),
    {
        let c = match copier_courant(&self.courant) {
            Some(c) => c,
            None => {
                return false;
            },
        };
        match self.trouver_corbeille(c.compte) {
            None => {
                self.poser_erreur(copier("ce compte n'a pas de corbeille déclarée"));
                false
            },
            Some(t) => {
                if egal(t.as_str(), c.chemin.as_str()) {
                    self.poser_erreur(copier("ces messages sont déjà dans la corbeille"));
                    return false;
                }
                self.deplacer(uids, c.compte as i32, t.as_str())
            },
        }
    }

    fn trouver_corbeille(&self, compte: i64) -> (r: Option<String>)
        ensures
            vue_option(r) == corbeille(self@.magasin, compte),
    {
        let ds: Vec<DossierLocal> = match &self.magasin {
            None => {
                return None;
            },
            Some(m) => match m.dossiers(compte) {
                Ok(v) => v,
                Err(_) => Vec::new(),
            },
        };
        let ghost s = vues(ds@);
        let ghost p = |d: DossierLocalVue| d.role == "Trash"@;
        assert(s.take(0) =~= Seq::empty());
        for i in 0..ds.len()
            invariant
                s == vues(ds@),
                p == (|d: DossierLocalVue| d.role == "Trash"@),
                self@.magasin is Some,
                s == dossiers_affiches(self@.magasin->Some_0.dossiers, compte),
                premier(s.take(i as int), p) is None,
        {
            proof {
                lemme_premier_suite(s, i as int, p);
                assert(s[i as int] == ds@[i as int]@);
            }
            if egal(ds[i].role.as_str(), "Trash") {
                return Some(ds[i].chemin.clone());
            }
        }
        assert(s.take(s.len() as int) =~= s);
        None
    }
}

/// A search that found something finds the same in what follows.
proof fn lemme_premier_suite<A>(s: Seq<A>, i: int, p: spec_fn(A) -> bool)
    requires
        0 <= i < s.len(),
        premier(s.take(i), p) is None,
    ensures
        premier(s.take(i + 1), p) == (if p(s[i]) {
            Some(s[i])
        } else {
            None
        }),
        p(s[i]) ==> premier(s, p) == Some(s[i]),
    decreases s.len(),
{
    assert(s.take(i + 1).drop_last() =~= s.take(i));
    if p(s[i]) {
        if i + 1 == s.len() {
            assert(s.take(i + 1) =~= s);
        } else {
            let t = s.drop_last();
            assert(t.take(i) =~= s.take(i));
            lemme_premier_suite(t, i, p);
            assert(t[i] == s[i]);
        }
    }
}

/// One more row in a selection.
proof fn lemme_filtre_suite<A>(s: Seq<A>, i: int, p: spec_fn(A) -> bool)
    requires
        0 <= i < s.len(),
    ensures
        s.take(i + 1).filter(p) == (if p(s[i]) {
            s.take(i).filter(p).push(s[i])
        } else {
            s.take(i).filter(p)
        }),
{
    reveal(Seq::filter);
    assert(s.take(i + 1).drop_last() =~= s.take(i));
}

/// A selection of nothing is empty.
proof fn lemme_filtre_rien<A>(s: Seq<A>, p: spec_fn(A) -> bool)
    ensures
        s.take(0).filter(p) == Seq::<A>::empty(),
{
    reveal(Seq::filter);
    assert(s.take(0).filter(p) =~= Seq::empty());
}

impl Boite {
    /// Reads again the counters and the open folder of each account; connects those
    /// whose session is gone.
    pub fn actualiser(&mut self)
        ensures
            final(self)@ == actualisation(old(self)@),
    {
        let ghost b = self@;
        let comptes: Vec<CompteLocal> = match &self.magasin {
            Some(m) => match m.comptes() {
                Ok(v) => v,
                Err(_) => Vec::new(),
            },
            None => Vec::new(),
        };
        let ghost s = comptes_montres(b.magasin);
        assert(vues(comptes@) =~= s);
        assert(s.take(0) =~= Seq::empty());
        for i in 0..comptes.len()
            invariant
                s == vues(comptes@),
                self@ == comptes_actualises(b, s.take(i as int)),
        {
            proof {
                assert(s.take(i + 1).drop_last() =~= s.take(i as int));
                assert(s[i as int] == comptes@[i as int]@);
            }
            self.actualiser_compte(comptes[i].id);
        }
        assert(s.take(s.len() as int) =~= s);
    }

    fn actualiser_compte(&mut self, compte: i64)
        ensures
            final(self)@ == compte_actualise(old(self)@, compte),
    {
        let ghost b = self@;
        let ouvert: Option<String> = match &self.courant {
            Some(c) => if c.compte == compte {
                Some(c.chemin.clone())
            } else {
                None
            },
            None => None,
        };
        let ghost v = a_relire(b, compte);
        if self.sessions.connu(compte) {
            proof {
                reveal_with_fuel(envoi_de, 3);
            }
            self.envoyer(compte, Commande::Arborescence);
            match ouvert {
                Some(c) => {
                    assert(v.drop_last() =~= seq![CommandeVue::Arborescence]);
                    assert(v.drop_last().drop_last() =~= Seq::empty());
                    self.envoyer(compte, Commande::OuvrirDossier(c));
                },
                None => {
                    assert(v.drop_last() =~= Seq::empty());
                },
            }
        } else if self.identites.connu(compte) {
            let mut commandes: Vec<Commande> = Vec::new();
            commandes.push(Commande::Arborescence);
            match ouvert {
                Some(c) => {
                    commandes.push(Commande::OuvrirDossier(c));
                },
                None => {},
            }
            assert(vues(commandes@) =~= v);
            self.lancer(compte, commandes);
        }
    }

    fn sessions_pretes(&self, compte: i64) -> (r: Vec<i64>)
        ensures
            r@ == connectes(self@, compte),
    {
        let ghost s = clefs(self@.sessions);
        let ghost p = prete(self@, compte);
        let mut r: Vec<i64> = Vec::new();
        let n: usize = self.sessions.taille();
        proof {
            lemme_filtre_rien(s, p);
        }
        for i in 0..n
            invariant
                n == self@.sessions.len(),
                s == clefs(self@.sessions),
                p == prete(self@, compte),
                r@ =~= s.take(i as int).filter(p),
        {
            proof {
                lemme_filtre_suite(s, i as int, p);
            }
            let (k, _) = self.sessions.entree(i);
            assert(s[i as int] == k);
            if k == compte || self.etat(k) == Etat::Pret {
                r.push(k);
            }
        }
        assert(s.take(s.len() as int) =~= s);
        r
    }

    fn autres_sessions(&self, compte: i64) -> (r: Vec<i64>)
        ensures
            r@ == clefs(self@.sessions).filter(autre_que(compte)),
    {
        let ghost s = clefs(self@.sessions);
        let ghost p = autre_que(compte);
        let mut r: Vec<i64> = Vec::new();
        let n: usize = self.sessions.taille();
        proof {
            lemme_filtre_rien(s, p);
        }
        for i in 0..n
            invariant
                n == self@.sessions.len(),
                s == clefs(self@.sessions),
                p == autre_que(compte),
                r@ =~= s.take(i as int).filter(p),
        {
            proof {
                lemme_filtre_suite(s, i as int, p);
            }
            let (k, _) = self.sessions.entree(i);
            assert(s[i as int] == k);
            if k != compte {
                r.push(k);
            }
        }
        assert(s.take(s.len() as int) =~= s);
        r
    }

    fn recevoir_connexion(&mut self, compte: i64)
        ensures
            final(self)@ == connexion_faite(old(self)@, compte),
    {
        let adresse = match self.identites.valeur(compte) {
            Some(i) => i.utilisateur.clone(),
            None => vide(),
        };
        self.etats.inscrire(compte, Etat::Pret);
        let _ = self.nouveaux.rayer(compte);
        let ghost p = self@;
        let identites = copier_identites(&self.identites);
        let comptes = self.sessions_pretes(compte);
        let ghost c = CommandeVue::Reprendre(p.identites);
        assert(comptes@.take(0) =~= Seq::empty());
        for i in 0..comptes.len()
            invariant
                identites@ == p.identites,
                c == CommandeVue::Reprendre(p.identites),
                self@ == envois(p, comptes@.take(i as int), c),
        {
            assert(comptes@.take(i + 1).drop_last() =~= comptes@.take(i as int));
            self.envoyer(comptes[i], Commande::Reprendre(copier_identites(&identites)));
        }
        assert(comptes@.take(comptes@.len() as int) =~= comptes@);
        self.maintenir_erreur(vide());
        self.reviser();
        self.signaler(Signal::Connecte { compte: compte as i32, adresse });
    }

    fn recevoir_deplacement(
        &mut self,
        compte: i64,
        cible: i64,
        chemin_cible: String,
        rapport: Rapport,
    )
        ensures
            final(self)@ == deplacement_fait(
                old(self)@,
                compte,
                cible,
                chemin_cible@,
                rapport@,
            ),
    {
        if cible != compte && self.sessions.connu(cible) {
            self.envoyer(cible, Commande::Arborescence);
        }
        let ouvert = match &self.courant {
            Some(c) => c.compte == cible && egal(c.chemin.as_str(), chemin_cible.as_str()),
            None => false,
        };
        if ouvert {
            self.envoyer(cible, Commande::OuvrirDossier(chemin_cible));
        }
        self.rafraichir_attente();
        self.reviser();
        let erreurs = joindre(&rapport.erreurs, "\n");
        if !erreurs.as_str().is_empty() {
            self.maintenir_erreur(erreurs.clone());
        }
        self.signaler(
            Signal::DeplacementTermine { nombre: rapport.deplaces as i32, erreurs },
        );
    }

    fn recevoir_reprise(&mut self, compte: i64, rapport: Rapport)
        ensures
            final(self)@ == reprise_faite(old(self)@, compte, rapport@),
    {
        let ghost p = self@;
        let comptes = self.autres_sessions(compte);
        assert(comptes@.take(0) =~= Seq::empty());
        for i in 0..comptes.len()
            invariant
                self@ == envois(p, comptes@.take(i as int), CommandeVue::Arborescence),
        {
            assert(comptes@.take(i + 1).drop_last() =~= comptes@.take(i as int));
            self.envoyer(comptes[i], Commande::Arborescence);
        }
        assert(comptes@.take(comptes@.len() as int) =~= comptes@);
        self.rafraichir_attente();
        self.reviser();
        if rapport.erreurs.len() > 0 {
            let t = joindre(&rapport.erreurs, "\n");
            self.maintenir_erreur(accoler("reprise des déplacements : ", t.as_str()));
        }
    }

    fn perdre_session(&mut self, compte: i64, etape: &str)
        ensures
            final(self)@ == session_perdue(old(self)@, compte, etape@),
    {
        let nouveau = self.nouveaux.connu(compte);
        self.fermer_session(compte);
        self.etats.inscrire(compte, Etat::Erreur);
        let identifiants = egal(etape, "identifiants");
        if nouveau && (egal(etape, "connexion") || identifiants) {
            self.oublier(compte);
        }
        if identifiants {
            let _ = self.identites.rayer(compte);
        }
    }

    fn recevoir_echec(&mut self, compte: i64, etape: &str, message: String, perdue: bool)
        ensures
            final(self)@ == echec_recu(old(self)@, compte, etape@, message@, perdue),
    {
        if perdue {
            self.perdre_session(compte, etape);
        }
        self.rafraichir_attente();
        self.reviser();
        self.poser_erreur(message.clone());
        self.signaler(Signal::Echec { compte: compte as i32, etape: copier(etape), message });
    }

    /// Takes what the worker of an account handed out.
    pub fn recevoir(&mut self, compte: i64, issue: Issue)
        ensures
            final(self)@ == issue_recue(old(self)@, compte, issue@),
    {
        match issue {
            Issue::Connecte => {
                self.recevoir_connexion(compte);
            },
            Issue::Arborescence => {
                self.rafraichir_attente();
                self.reviser();
            },
            Issue::Dossier { chemin, veille } => {
                self.reviser();
                self.signaler(Signal::DossierOuvert { compte: compte as i32, chemin, veille });
            },
            Issue::Corps { uid, texte, brut, marque, pieces } => {
                if marque {
                    self.reviser();
                    self.signaler(Signal::DrapeauxModifies);
                }
                self.signaler(Signal::CorpsRecu { uid: uid as i32, texte, brut, pieces });
            },
            Issue::Piece { fichier, ouvrir } => {
                self.signaler(Signal::PieceEcrite { fichier, ouvrir });
            },
            Issue::Marque => {
                self.reviser();
                self.signaler(Signal::DrapeauxModifies);
            },
            Issue::Deplace { cible, chemin_cible, rapport } => {
                self.recevoir_deplacement(compte, cible, chemin_cible, rapport);
            },
            Issue::Repris { rapport } => {
                self.recevoir_reprise(compte, rapport);
            },
            Issue::Echec { etape, message, session_perdue } => {
                self.recevoir_echec(compte, etape, message, session_perdue);
            },
        }
        self.rafraichir_occupe();
    }

    /// Takes what the worker of a session handed out, unless the session is closed or
    /// was replaced: it is then ignored.
    pub fn remettre(&mut self, compte: i64, generation: u64, issue: Issue)
        ensures
            final(self)@ == remise(old(self)@, compte, generation, issue@),
    {
        let courante = match self.sessions.valeur(compte) {
            Some(s) => s.generation == generation,
            None => false,
        };
        if courante {
            self.recevoir(compte, issue);
        }
    }

    /// So many requests of a session are over with.
    pub fn terminer(&mut self, compte: i64, generation: u64, nombre: usize)
        ensures
            final(self)@ == requetes_terminees(old(self)@, compte, generation, nombre),
    {
        let session: Session = match self.sessions.valeur(compte) {
            Some(s) => *s,
            None => {
                return;
            },
        };
        if session.generation == generation {
            let attente: usize = if nombre <= session.attente {
                session.attente - nombre
            } else {
                0
            };
            self.sessions.inscrire(compte, Session { attente, generation });
        }
    }
}

// ----------------------------------------------------------------- code: what is shown

fn ecrire_compte(c: &CompteLocal, e: Etat) -> (r: String)
    ensures
        r@ == compte_json(c@, e),
{
    let mut v = caracteres("{\"id\":");
    let n = ecrire_i64(c.id);
    ajouter_car(&mut v, n.as_slice());
    ajouter(&mut v, ",\"adresse\":");
    ajouter_json(&mut v, c.adresse.as_str());
    ajouter(&mut v, ",\"hote\":");
    ajouter_json(&mut v, c.hote.as_str());
    ajouter(&mut v, ",\"etat\":");
    ajouter_json(&mut v, e.code());
    ajouter(&mut v, "}");
    chaine(v.as_slice())
}

fn ecrire_ligne_compte(c: &CompteLocal, e: Etat) -> (r: String)
    ensures
        r@ == ligne_compte(c@, e),
{
    let mut v = caracteres("{\"genre\":\"compte\",\"compte\":");
    let n = ecrire_i64(c.id);
    ajouter_car(&mut v, n.as_slice());
    ajouter(&mut v, ",\"adresse\":");
    ajouter_json(&mut v, c.adresse.as_str());
    ajouter(&mut v, ",\"hote\":");
    ajouter_json(&mut v, c.hote.as_str());
    ajouter(&mut v, ",\"etat\":");
    ajouter_json(&mut v, e.code());
    ajouter(&mut v, ",\"replie\":");
    ajouter(&mut v, ecrire_booleen(c.replie));
    ajouter(&mut v, "}");
    chaine(v.as_slice())
}

fn trouver_adresse(comptes: &Vec<CompteLocal>, id: i64) -> (r: String)
    ensures
        r@ == adresse_de(vues(comptes@), id),
{
    let ghost s = vues(comptes@);
    let mut i: usize = comptes.len();
    assert(s.take(s.len() as int) =~= s);
    while i > 0
        invariant
            i <= comptes@.len(),
            s == vues(comptes@),
            adresse_de(s.take(i as int), id) == adresse_de(s, id),
        decreases i,
    {
        i = i - 1;
        proof {
            assert(s.take(i + 1).drop_last() =~= s.take(i as int));
            assert(s.take(i + 1).last() == comptes@[i as int]@);
        }
        if comptes[i].id == id {
            return comptes[i].adresse.clone();
        }
    }
    vide()
}

/// Adds the lines of the folders that a condition keeps.
fn ajouter_dossiers<F: Fn(&DossierLocal) -> bool>(
    lignes: &mut Vec<String>,
    genre: &str,
    ds: &Vec<DossierLocal>,
    adresse: &str,
    garde: F,
    Ghost(p): Ghost<spec_fn(DossierLocalVue) -> bool>,
)
    requires
        forall|d: &DossierLocal| #[trigger] garde.requires((d,)),
        forall|d: &DossierLocal, o: bool| #[trigger] garde.ensures((d,), o) ==> o == p(d@),
    ensures
        textes(final(lignes)@) == textes(old(lignes)@) + lignes_dossiers(
            genre@,
            vues(ds@),
            adresse@,
            p,
        ),
{
    let ghost s = vues(ds@);
    let ghost l0 = textes(lignes@);
    let ghost f = |d: DossierLocalVue| dossier_json(genre@, d, adresse@, d.profondeur);
    proof {
        lemme_filtre_rien(s, p);
        assert(textes(lignes@) =~= l0 + s.take(0).filter(p).map_values(f));
    }
    for i in 0..ds.len()
        invariant
            s == vues(ds@),
            f == (|d: DossierLocalVue| dossier_json(genre@, d, adresse@, d.profondeur)),
            forall|d: &DossierLocal| #[trigger] garde.requires((d,)),
            forall|d: &DossierLocal, o: bool| #[trigger] garde.ensures((d,), o) ==> o == p(d@),
            textes(lignes@) =~= l0 + s.take(i as int).filter(p).map_values(f),
    {
        let ghost avant = textes(lignes@);
        proof {
            lemme_filtre_suite(s, i as int, p);
            assert(s[i as int] == ds@[i as int]@);
        }
        if garde(&ds[i]) {
            let t = json_dossier(genre, &ds[i], adresse, ds[i].profondeur);
            let ghost x = t@;
            lignes.push(t);
            assert(textes(lignes@) =~= avant.push(x));
            assert(s.take(i + 1).filter(p).map_values(f) =~= s.take(i as int).filter(p).map_values(
                f,
            ).push(x));
        }
    }
    assert(s.take(s.len() as int) =~= s);
    assert(textes(lignes@) =~= l0 + lignes_dossiers(genre@, s, adresse@, p));
}

impl Boite {
    fn lire_comptes(&self) -> (r: Vec<CompteLocal>)
        ensures
            vues(r@) == comptes_montres(self@.magasin),
    {
        match &self.magasin {
            Some(m) => match m.comptes() {
                Ok(v) => v,
                Err(_) => Vec::new(),
            },
            None => {
                let v: Vec<CompteLocal> = Vec::new();
                assert(vues(v@) =~= Seq::empty());
                v
            },
        }
    }

    /// The accounts of the profile, in JSON.
    pub fn comptes(&self) -> (r: String)
        ensures
            r@ == comptes_json(self@),
    {
        let comptes = self.lire_comptes();
        let ghost s = vues(comptes@);
        let ghost f = |c: CompteVue| compte_json(c, etat_de(self@, c.id));
        let mut v: Vec<String> = Vec::new();
        for i in 0..comptes.len()
            invariant
                s == vues(comptes@),
                f == (|c: CompteVue| compte_json(c, etat_de(self@, c.id))),
                textes(v@) =~= s.map_values(f).take(i as int),
        {
            let ghost avant = textes(v@);
            let t = ecrire_compte(&comptes[i], self.etat(comptes[i].id));
            let ghost x = t@;
            v.push(t);
            assert(textes(v@) =~= avant.push(x));
            assert(s.map_values(f)[i as int] == x);
        }
        assert(textes(v@) =~= s.map_values(f));
        lister(&v)
    }

    fn ajouter_favoris(
        &self,
        lignes: &mut Vec<String>,
        comptes: &Vec<CompteLocal>,
        favoris: &Vec<DossierLocal>,
    )
        ensures
            textes(final(lignes)@) == textes(old(lignes)@) + lignes_favoris(
                vues(comptes@),
                vues(favoris@),
            ),
    {
        let ghost l0 = textes(lignes@);
        let ghost s = vues(favoris@);
        let ghost f = |d: DossierLocalVue|
            dossier_json("favori"@, d, adresse_de(vues(comptes@), d.compte_id), 0);
        let ghost tete = "{\"genre\":\"rubrique\",\"nom\":\"Favoris\"}"@;
        lignes.push(copier("{\"genre\":\"rubrique\",\"nom\":\"Favoris\"}"));
        assert(textes(lignes@) =~= l0.push(tete));
        if favoris.len() == 0 {
            lignes.push(copier("{\"genre\":\"favori-vide\"}"));
            assert(textes(lignes@) =~= l0.push(tete).push("{\"genre\":\"favori-vide\"}"@));
            assert(textes(lignes@) =~= l0 + lignes_favoris(vues(comptes@), s));
            return;
        }
        for i in 0..favoris.len()
            invariant
                s == vues(favoris@),
                f == (|d: DossierLocalVue|
                    dossier_json("favori"@, d, adresse_de(vues(comptes@), d.compte_id), 0)),
                textes(lignes@) =~= l0.push(tete) + s.map_values(f).take(i as int),
        {
            let ghost avant = textes(lignes@);
            let adresse = trouver_adresse(comptes, favoris[i].compte_id);
            let t = json_dossier("favori", &favoris[i], adresse.as_str(), 0);
            let ghost x = t@;
            lignes.push(t);
            assert(textes(lignes@) =~= avant.push(x));
            assert(s.map_values(f)[i as int] == x);
        }
        assert(textes(lignes@) =~= l0 + lignes_favoris(vues(comptes@), s));
    }

    fn ajouter_compte(
        &self,
        lignes: &mut Vec<String>,
        m: &Magasin,
        c: &CompteLocal,
        masques: bool,
    )
        ensures
            textes(final(lignes)@) == textes(old(lignes)@) + lignes_compte(
                self@,
                m@,
                c@,
                masques,
            ),
    {
        let ghost l0 = textes(lignes@);
        let t = ecrire_ligne_compte(c, self.etat(c.id));
        let ghost x = t@;
        lignes.push(t);
        assert(textes(lignes@) =~= l0 + seq![x]);
        if !c.replie {
            let ds: Vec<DossierLocal> = match m.dossiers(c.id) {
                Ok(v) => v,
                Err(_) => Vec::new(),
            };
            ajouter_dossiers(
                lignes,
                "dossier",
                &ds,
                c.adresse.as_str(),
                |d: &DossierLocal| -> (b: bool)
                    ensures b == (!d@.masque || masques)
                {
                    !d.masque || masques
                },
                Ghost(montre(masques)),
            );
        }
        assert(textes(lignes@) =~= l0 + lignes_compte(self@, m@, c@, masques));
    }

    /// The common tree, in JSON: the favourites, then each account with its folders.
    /// Hidden folders are there only if `masques` is true.
    pub fn arborescence(&self, masques: bool) -> (r: String)
        ensures
            r@ == arbre_json(self@, masques),
    {
        let m = match &self.magasin {
            Some(m) => m,
            None => {
                return copier("[]");
            },
        };
        let comptes = self.lire_comptes();
        let favoris: Vec<DossierLocal> = match m.favoris() {
            Ok(v) => v,
            Err(_) => Vec::new(),
        };
        let favoris = retenir(
            favoris,
            |d: &DossierLocal| -> (b: bool)
                ensures b == (!d@.masque || masques)
            {
                !d.masque || masques
            },
            Ghost(montre(masques)),
        );
        let mut lignes: Vec<String> = Vec::new();
        assert(textes(lignes@) =~= Seq::empty());
        self.ajouter_favoris(&mut lignes, &comptes, &favoris);
        let ghost l0 = textes(lignes@);
        let ghost s = vues(comptes@);
        proof {
            assert(l0 =~= lignes_favoris(s, vues(favoris@)));
            assert(s.take(0) =~= Seq::empty());
            assert(l0 + lignes_comptes(self@, m@, s.take(0), masques) =~= l0);
        }
        for i in 0..comptes.len()
            invariant
                s == vues(comptes@),
                textes(lignes@) == l0 + lignes_comptes(self@, m@, s.take(i as int), masques),
        {
            let ghost avant = textes(lignes@);
            proof {
                assert(s.take(i + 1).drop_last() =~= s.take(i as int));
                assert(s.take(i + 1).last() == comptes@[i as int]@);
            }
            self.ajouter_compte(&mut lignes, m, &comptes[i], masques);
            assert(textes(lignes@) =~= l0 + lignes_comptes(self@, m@, s.take(i + 1), masques));
        }
        assert(s.take(s.len() as int) =~= s);
        lister(&lignes)
    }

    /// The folders that can receive a message, of all connected accounts, in JSON.
    pub fn dossiers_cibles(&self) -> (r: String)
        ensures
            r@ == cibles_json(self@),
    {
        let m = match &self.magasin {
            Some(m) => m,
            None => {
                return copier("[]");
            },
        };
        let comptes = self.lire_comptes();
        let ghost s = vues(comptes@);
        let mut lignes: Vec<String> = Vec::new();
        proof {
            assert(s.take(0) =~= Seq::empty());
            assert(textes(lignes@) =~= lignes_cibles(self@, m@, s.take(0)));
        }
        for i in 0..comptes.len()
            invariant
                s == vues(comptes@),
                textes(lignes@) == lignes_cibles(self@, m@, s.take(i as int)),
        {
            proof {
                assert(s.take(i + 1).drop_last() =~= s.take(i as int));
                assert(s.take(i + 1).last() == comptes@[i as int]@);
            }
            if self.etat(comptes[i].id) == Etat::Pret {
                let ds: Vec<DossierLocal> = match m.dossiers(comptes[i].id) {
                    Ok(v) => v,
                    Err(_) => Vec::new(),
                };
                ajouter_dossiers(
                    &mut lignes,
                    "cible",
                    &ds,
                    comptes[i].adresse.as_str(),
                    |d: &DossierLocal| -> (b: bool)
                        ensures b == d@.selectionnable
                    {
                        d.selectionnable
                    },
                    Ghost(visable()),
                );
            }
        }
        assert(s.take(s.len() as int) =~= s);
        lister(&lignes)
    }

    /// The messages of the open folder, in JSON, from the latest to the earliest.
    pub fn messages(&self) -> (r: String)
        ensures
            r@ == messages_montres(self@),
    {
        match (&self.magasin, &self.courant) {
            (Some(m), Some(c)) => match m.messages(c.id) {
                Ok(v) => json_messages(v.as_slice()),
                Err(_) => copier("[]"),
            },
            _ => copier("[]"),
        }
    }
}

// -------------------------------------------------------------------------------- laws

/// Whether a line of the tree is that of a folder of the index, hidden only if hidden
/// folders are shown.
pub open spec fn ligne_de_dossier(m: MagasinVue, masques: bool, l: Seq<char>) -> bool {
    exists|genre: Seq<char>, d: DossierLocalVue, adresse: Seq<char>, profondeur: u32|
        l == #[trigger] dossier_json(genre, d, adresse, profondeur) && m.dossiers.contains(d) && (
        !d.masque || masques)
}

/// Whether a line of the tree is that of an account.
pub open spec fn ligne_de_compte(l: Seq<char>) -> bool {
    exists|c: CompteVue, e: Etat| l == #[trigger] ligne_compte(c, e)
}

/// Whether a line of the tree is the head of the favourites.
pub open spec fn ligne_de_rubrique(l: Seq<char>) -> bool {
    l == "{\"genre\":\"rubrique\",\"nom\":\"Favoris\"}"@ || l == "{\"genre\":\"favori-vide\"}"@
}

/// Hidden folders are in the tree only if they are asked for, among the favourites
/// too: each line is the head of the favourites, an account, or a folder that is not
/// hidden.
pub proof fn loi_masques_absents(b: BoiteVue, m: MagasinVue, masques: bool, i: int)
    requires
        0 <= i < lignes_arbre(b, m, masques).len(),
    ensures
        ligne_de_rubrique(lignes_arbre(b, m, masques)[i]) || ligne_de_compte(
            lignes_arbre(b, m, masques)[i],
        ) || ligne_de_dossier(m, masques, lignes_arbre(b, m, masques)[i]),
{
    let comptes = comptes_montres(Some(m));
    let f = favoris_affiches(m.dossiers).filter(montre(masques));
    let l = lignes_favoris(comptes, f);
    if i < l.len() {
        if i > 0 && f.len() > 0 {
            let d = f[i - 1];
            favoris_affiches(m.dossiers).lemma_filter_pred(montre(masques), i - 1);
            assert(f.contains(d));
            favoris_affiches(m.dossiers).lemma_filter_contains_rev(montre(masques), d);
            let t = m.dossiers.filter(|d: DossierLocalVue| d.favori is Some);
            lemme_trie_contient(t, ordre_favoris(), d);
            m.dossiers.lemma_filter_contains_rev(|d: DossierLocalVue| d.favori is Some, d);
            assert(l[i] == dossier_json("favori"@, d, adresse_de(comptes, d.compte_id), 0));
        }
    } else {
        lemme_lignes_comptes(b, m, comptes, masques, i - l.len());
    }
}

/// What the lines of accounts are.
proof fn lemme_lignes_comptes(
    b: BoiteVue,
    m: MagasinVue,
    comptes: Seq<CompteVue>,
    masques: bool,
    i: int,
)
    requires
        0 <= i < lignes_comptes(b, m, comptes, masques).len(),
    ensures
        ligne_de_compte(lignes_comptes(b, m, comptes, masques)[i]) || ligne_de_dossier(
            m,
            masques,
            lignes_comptes(b, m, comptes, masques)[i],
        ),
    decreases comptes.len(),
{
    if comptes.len() > 0 {
        let avant = lignes_comptes(b, m, comptes.drop_last(), masques);
        if i < avant.len() {
            lemme_lignes_comptes(b, m, comptes.drop_last(), masques, i);
        } else {
            let c = comptes.last();
            let k = i - avant.len();
            let l = lignes_compte(b, m, c, masques);
            assert(lignes_comptes(b, m, comptes, masques)[i] == l[k]);
            if k == 0 {
                assert(l[0] == ligne_compte(c, etat_de(b, c.id)));
            } else {
                let a = dossiers_affiches(m.dossiers, c.id);
                let f = a.filter(montre(masques));
                let d = f[k - 1];
                a.lemma_filter_pred(montre(masques), k - 1);
                assert(f.contains(d));
                a.lemma_filter_contains_rev(montre(masques), d);
                let p = |d: DossierLocalVue| d.compte_id == c.id;
                lemme_trie_contient(m.dossiers.filter(p), ordre_affichage(), d);
                m.dossiers.lemma_filter_contains_rev(p, d);
                assert(l[k] == dossier_json("dossier"@, d, c.adresse, d.profondeur));
            }
        }
    }
}

/// Sorting adds no row.
proof fn lemme_trie_contient<A>(s: Seq<A>, avant: spec_fn(A, A) -> bool, a: A)
    requires
        trie(s, avant).contains(a),
    ensures
        s.contains(a),
{
    broadcast use vstd::seq_lib::group_to_multiset_ensures;

    lemme_trie(s, avant);
    assert(trie(s, avant).to_multiset().count(a) > 0);
    assert(s.to_multiset().count(a) > 0);
}

/// Whether nothing is held twice of an account, and the account and the path that are
/// shown are those of the open folder.
pub open spec fn tenue(b: BoiteVue) -> bool {
    &&& sans_doublon(b.sessions)
    &&& sans_doublon(b.identites)
    &&& sans_doublon(b.etats)
    &&& sans_doublon(b.nouveaux)
    &&& b.compte_courant == match b.courant {
        Some(c) => c.compte as i32,
        None => 0,
    }
    &&& b.dossier_courant == match b.courant {
        Some(c) => c.chemin,
        None => Seq::empty(),
    }
}

/// Whether `occupe` says if something is in progress.
pub open spec fn occupe_juste(b: BoiteVue) -> bool {
    b.occupe == active(b.sessions)
}

proof fn lemme_fermee_tenue(b: BoiteVue, compte: i64)
    requires
        tenue(b),
    ensures
        tenue(session_fermee(b, compte)),
        !connu(session_fermee(b, compte).sessions, compte),
{
    loi_radiation(b.sessions, compte, compte);
}

proof fn lemme_envoi_tenu(b: BoiteVue, compte: i64, c: CommandeVue)
    requires
        tenue(b),
    ensures
        tenue(envoi(b, compte, c).0),
        envoi(b, compte, c).0.etats == b.etats,
        envoi(b, compte, c).0.identites == b.identites,
        envoi(b, compte, c).0.nouveaux == b.nouveaux,
        envoi(b, compte, c).0.magasin == b.magasin,
        envoi(b, compte, c).0.courant == b.courant,
{
    lemme_fermee_tenue(b, compte);
    match valeur(b.sessions, compte) {
        Some(s) => {
            let attente = if comptee(c) {
                plafonne(s.attente + 1)
            } else {
                s.attente
            };
            loi_inscription(b.sessions, compte, Session { attente, ..s }, compte);
        },
        None => {},
    }
}

proof fn lemme_envois_tenus(b: BoiteVue, comptes: Seq<i64>, c: CommandeVue)
    requires
        tenue(b),
    ensures
        tenue(envois(b, comptes, c)),
        envois(b, comptes, c).etats == b.etats,
        envois(b, comptes, c).identites == b.identites,
        envois(b, comptes, c).nouveaux == b.nouveaux,
        envois(b, comptes, c).magasin == b.magasin,
        envois(b, comptes, c).courant == b.courant,
    decreases comptes.len(),
{
    if comptes.len() > 0 {
        lemme_envois_tenus(b, comptes.drop_last(), c);
        lemme_envoi_tenu(envois(b, comptes.drop_last(), c), comptes.last(), c);
    }
}

/// What the interface asks for leaves everything held as it should be: opening a
/// profile, connecting, closing or removing an account, starting its worker, opening
/// a folder, and sending a request.
pub proof fn loi_demandes_tenues(
    b: BoiteVue,
    compte: i64,
    commandes: int,
    chemin: Seq<char>,
    ouvert: Result<MagasinVue, Seq<char>>,
    hote: Seq<char>,
    adresse: Seq<char>,
    mot_de_passe: Seq<char>,
    c: CommandeVue,
)
    requires
        tenue(b),
    ensures
        tenue(boite_neuve()),
        tenue(profil_ouvert(b, chemin, ouvert).0),
        tenue(connexion_demandee(b, hote, adresse, mot_de_passe).0),
        tenue(deconnexion(b, compte)),
        tenue(retrait(b, compte)),
        tenue(lancee(b, compte, commandes)),
        tenue(dossier_ouvert(b, compte, chemin).0),
        tenue(envoi(b, compte, c).0),
        tenue(refus_envoi(b, compte, c).0),
{
    lemme_envoi_tenu(b, compte, c);
    lemme_fermee_tenue(b, compte);
    let f = session_fermee(b, compte);
    loi_inscription(f.etats, compte, Etat::HorsLigne, compte);
    loi_radiation(f.identites, compte, compte);
    loi_radiation(f.etats, compte, compte);
    loi_radiation(f.nouveaux, compte, compte);
    let s = Session {
        attente: plafonne(1 + commandes),
        generation: generation_suivante(b.generation),
    };
    loi_inscription(b.sessions, compte, s, compte);
    loi_inscription(b.etats, compte, Etat::Connexion, compte);
    match b.magasin {
        Some(m) => {
            let h = sans_blancs(hote);
            let a = sans_blancs(adresse);
            match compte_inscrit(m, a, h, PORT_IMAPS, a).1 {
                Ok(id) => {
                    let i = IdentifiantsVue { hote: h, utilisateur: a, mot_de_passe };
                    loi_inscription(b.nouveaux, id, (), id);
                    loi_inscription(b.identites, id, i, id);
                    let p = BoiteVue {
                        magasin: Some(compte_inscrit(m, a, h, PORT_IMAPS, a).0),
                        nouveaux: if compte_de(m.comptes, a) is None {
                            inscrit(b.nouveaux, id, ())
                        } else {
                            b.nouveaux
                        },
                        identites: inscrit(b.identites, id, i),
                        ..b
                    };
                    lemme_fermee_tenue(p, id);
                },
                Err(_) => {},
            }
            match dossier_en(m.dossiers, compte, chemin) {
                Some(d) => {
                    lemme_envoi_tenu(
                        courant_pose(b, Some(CourantVue { compte, chemin, id: d.id })),
                        compte,
                        CommandeVue::OuvrirDossier(chemin),
                    );
                },
                None => {},
            }
        },
        None => {},
    }
}

proof fn lemme_compte_actualise_tenu(b: BoiteVue, compte: i64)
    requires
        tenue(b),
    ensures
        tenue(compte_actualise(b, compte)),
{
    let v = a_relire(b, compte);
    lemme_fermee_tenue(b, compte);
    reveal_with_fuel(envoi_de, 3);
    let un = seq![CommandeVue::Arborescence];
    lemme_envoi_tenu(b, compte, CommandeVue::Arborescence);
    assert(un.drop_last() =~= Seq::empty());
    if v.len() == 2 {
        assert(v.drop_last() =~= un);
        lemme_envoi_tenu(envoi_de(b, compte, un), compte, v.last());
    }
}

/// Bringing accounts up to date leaves everything held as it should be.
pub proof fn loi_actualisation_tenue(b: BoiteVue, comptes: Seq<CompteVue>)
    requires
        tenue(b),
    ensures
        tenue(comptes_actualises(b, comptes)),
    decreases comptes.len(),
{
    if comptes.len() > 0 {
        loi_actualisation_tenue(b, comptes.drop_last());
        lemme_compte_actualise_tenu(
            comptes_actualises(b, comptes.drop_last()),
            comptes.last().id,
        );
    }
}

proof fn lemme_perdue_tenue(b: BoiteVue, compte: i64, etape: Seq<char>)
    requires
        tenue(b),
    ensures
        tenue(session_perdue(b, compte, etape)),
{
    lemme_fermee_tenue(b, compte);
    let f = session_fermee(b, compte);
    loi_inscription(f.etats, compte, Etat::Erreur, compte);
    let p = BoiteVue { etats: inscrit(f.etats, compte, Etat::Erreur), ..f };
    loi_radiation(p.nouveaux, compte, compte);
    loi_radiation(p.identites, compte, compte);
    loi_radiation(p.etats, compte, compte);
    loi_radiation(raye(p.identites, compte), compte, compte);
}

/// What the workers hand out leaves everything held as it should be.
pub proof fn loi_remise_tenue(b: BoiteVue, compte: i64, generation: u64, issue: IssueVue)
    requires
        tenue(b),
    ensures
        tenue(issue_recue(b, compte, issue)),
        tenue(remise(b, compte, generation, issue)),
        forall|n: usize| tenue(#[trigger] requetes_terminees(b, compte, generation, n)),
{
    match issue {
        IssueVue::Connecte => {
            loi_inscription(b.etats, compte, Etat::Pret, compte);
            loi_radiation(b.nouveaux, compte, compte);
            let p = BoiteVue {
                etats: inscrit(b.etats, compte, Etat::Pret),
                nouveaux: raye(b.nouveaux, compte),
                ..b
            };
            lemme_envois_tenus(p, connectes(p, compte), CommandeVue::Reprendre(p.identites));
        },
        IssueVue::Deplace { cible, chemin_cible, rapport } => {
            lemme_envoi_tenu(b, cible, CommandeVue::Arborescence);
            let p = if cible != compte && connu(b.sessions, cible) {
                envoi(b, cible, CommandeVue::Arborescence).0
            } else {
                b
            };
            lemme_envoi_tenu(p, cible, CommandeVue::OuvrirDossier(chemin_cible));
        },
        IssueVue::Repris { rapport } => {
            lemme_envois_tenus(
                b,
                clefs(b.sessions).filter(autre_que(compte)),
                CommandeVue::Arborescence,
            );
        },
        IssueVue::Echec { etape, message, session_perdue } => {
            lemme_perdue_tenue(b, compte, etape);
        },
        _ => {},
    }
    assert forall|n: usize| tenue(#[trigger] requetes_terminees(b, compte, generation, n)) by {
        match valeur(b.sessions, compte) {
            Some(s) => {
                let attente = if n <= s.attente {
                    (s.attente - n) as usize
                } else {
                    0
                };
                loi_inscription(b.sessions, compte, Session { attente, ..s }, compte);
            },
            None => {},
        }
    }
}

/// Once something came of a request, `occupe` says if something is in progress.
pub proof fn loi_occupe(
    b: BoiteVue,
    compte: i64,
    commandes: int,
    issue: IssueVue,
    c: CommandeVue,
)
    ensures
        occupe_juste(issue_recue(b, compte, issue)),
        occupe_juste(deconnexion(b, compte)),
        occupe_juste(retrait(b, compte)),
        occupe_juste(lancee(b, compte, commandes)),
        connu(b.sessions, compte) ==> occupe_juste(envoi(b, compte, c).0) && occupe_juste(
            refus_envoi(b, compte, c).0,
        ),
{
}

/// What a session that is closed, or that was replaced, still hands out changes
/// nothing.
pub proof fn loi_resultat_perime(
    b: BoiteVue,
    compte: i64,
    generation: u64,
    issue: IssueVue,
    nombre: usize,
)
    requires
        !a_jour(b, compte, generation),
    ensures
        remise(b, compte, generation, issue) == b,
        requetes_terminees(b, compte, generation, nombre) == b,
{
}

/// Once a worker is started, only what bears the number of its session counts, and
/// that number is new; once an account is closed or removed, nothing of its sessions
/// does. A worker that could not be started uses up no number.
pub proof fn loi_generation(
    b: BoiteVue,
    compte: i64,
    commandes: int,
    autre: u64,
    erreur: Seq<char>,
)
    requires
        tenue(b),
    ensures
        a_jour(lancee(b, compte, commandes), compte, autre) <==> autre == generation_suivante(
            b.generation,
        ),
        b.generation < u64::MAX && autre <= b.generation ==> !a_jour(
            lancee(b, compte, commandes),
            compte,
            autre,
        ),
        !a_jour(deconnexion(b, compte), compte, autre),
        !a_jour(retrait(b, compte), compte, autre),
        lancement(b, compte, Seq::empty()).0.generation == b.generation,
        avec_erreur(b, erreur).generation == b.generation,
{
    let s = Session {
        attente: plafonne(1 + commandes),
        generation: generation_suivante(b.generation),
    };
    loi_inscription(b.sessions, compte, s, compte);
    lemme_fermee_tenue(b, compte);
}

/// A new account whose very first connection fails is kept nowhere: not in the index,
/// and nothing is held of it.
pub proof fn loi_premiere_connexion_ratee(
    b: BoiteVue,
    compte: i64,
    etape: Seq<char>,
    message: Seq<char>,
)
    requires
        tenue(b),
        connu(b.nouveaux, compte),
        etape == "connexion"@ || etape == "identifiants"@,
    ensures
        ({
            let i = IssueVue::Echec { etape, message, session_perdue: true };
            let r = issue_recue(b, compte, i);
            &&& !connu(r.sessions, compte)
            &&& !connu(r.nouveaux, compte)
            &&& !connu(r.identites, compte)
            &&& etat_de(r, compte) == Etat::HorsLigne
            &&& r.magasin == match b.magasin {
                Some(m) => Some(compte_retire(m, compte)),
                None => None,
            }
            &&& r.erreur == message
        }),
{
    lemme_fermee_tenue(b, compte);
    let f = session_fermee(b, compte);
    loi_inscription(f.etats, compte, Etat::Erreur, compte);
    let p = BoiteVue { etats: inscrit(f.etats, compte, Etat::Erreur), ..f };
    loi_radiation(p.nouveaux, compte, compte);
    loi_radiation(p.identites, compte, compte);
    loi_radiation(p.etats, compte, compte);
    loi_radiation(raye(p.identites, compte), compte, compte);
}

/// An account that was connected once is kept in the index whatever happens to its
/// session; only what opens it is forgotten, and only once it was refused.
pub proof fn loi_compte_garde(
    b: BoiteVue,
    compte: i64,
    etape: Seq<char>,
    message: Seq<char>,
    perdue: bool,
)
    requires
        tenue(b),
        !connu(b.nouveaux, compte),
    ensures
        ({
            let i = IssueVue::Echec { etape, message, session_perdue: perdue };
            let r = issue_recue(b, compte, i);
            &&& r.magasin == b.magasin
            &&& etape != "identifiants"@ ==> r.identites == b.identites
            &&& perdue ==> etat_de(r, compte) == Etat::Erreur && !connu(r.sessions, compte)
        }),
{
    lemme_fermee_tenue(b, compte);
    let f = session_fermee(b, compte);
    loi_inscription(f.etats, compte, Etat::Erreur, compte);
}

/// The requests for accounts that a session is open on are all queued, in their order.
proof fn lemme_envois_queue(b: BoiteVue, comptes: Seq<i64>, c: CommandeVue)
    requires
        tenue(b),
        forall|i: int| 0 <= i < comptes.len() ==> connu(b.sessions, #[trigger] comptes[i]),
    ensures
        envois(b, comptes, c).effets == b.effets + comptes.map_values(
            |k: i64| EffetVue::Envoyer { compte: k, commande: c },
        ),
        forall|k: i64|
            connu(envois(b, comptes, c).sessions, k) == #[trigger] connu(b.sessions, k),
    decreases comptes.len(),
{
    let f = |k: i64| EffetVue::Envoyer { compte: k, commande: c };
    if comptes.len() == 0 {
        assert(b.effets + comptes.map_values(f) =~= b.effets);
    } else {
        let debut = comptes.drop_last();
        assert forall|i: int| 0 <= i < debut.len() implies connu(b.sessions, #[trigger] debut[i]) by {
            assert(debut[i] == comptes[i]);
        }
        lemme_envois_queue(b, debut, c);
        lemme_envois_tenus(b, debut, c);
        let p = envois(b, debut, c);
        let k = comptes.last();
        assert(connu(b.sessions, k)) by {
            assert(comptes[comptes.len() - 1] == k);
        }
        assert(connu(p.sessions, k));
        let s = valeur(p.sessions, k)->Some_0;
        let attente = if comptee(c) {
            plafonne(s.attente + 1)
        } else {
            s.attente
        };
        assert forall|j: i64|
            connu(envois(b, comptes, c).sessions, j) == #[trigger] connu(b.sessions, j) by {
            loi_inscription(p.sessions, k, Session { attente, ..s }, j);
            assert(connu(p.sessions, j) == connu(b.sessions, j));
        }
        assert(comptes.map_values(f) =~= debut.map_values(f).push(f(k)));
        assert(envois(b, comptes, c).effets =~= b.effets + comptes.map_values(f));
    }
}

/// Once a session is open, its account is ready and kept, and each session that is
/// ready is asked to resume its interrupted moves, with all that opens the accounts.
pub proof fn loi_connexion_faite(b: BoiteVue, compte: i64)
    requires
        tenue(b),
    ensures
        ({
            let r = issue_recue(b, compte, IssueVue::Connecte);
            let p = BoiteVue { etats: inscrit(b.etats, compte, Etat::Pret), ..b };
            &&& etat_de(r, compte) == Etat::Pret
            &&& !connu(r.nouveaux, compte)
            &&& r.magasin == b.magasin
            &&& r.erreur == Seq::<char>::empty()
            &&& r.effets.len() == b.effets.len() + connectes(p, compte).len() + 2
            &&& r.effets[r.effets.len() - 2] == EffetVue::Reposer(Seq::empty())
            &&& forall|i: int|
                0 <= i < connectes(p, compte).len() ==> #[trigger] r.effets[b.effets.len() + i]
                    == (EffetVue::Envoyer {
                    compte: connectes(p, compte)[i],
                    commande: CommandeVue::Reprendre(b.identites),
                })
        }),
{
    loi_inscription(b.etats, compte, Etat::Pret, compte);
    loi_radiation(b.nouveaux, compte, compte);
    let p = BoiteVue {
        etats: inscrit(b.etats, compte, Etat::Pret),
        nouveaux: raye(b.nouveaux, compte),
        ..b
    };
    let q = BoiteVue { etats: inscrit(b.etats, compte, Etat::Pret), ..b };
    let ks = connectes(p, compte);
    assert(prete(p, compte) =~= prete(q, compte));
    assert(ks == connectes(q, compte));
    lemme_envois_tenus(p, ks, CommandeVue::Reprendre(p.identites));
    assert forall|i: int| 0 <= i < ks.len() implies connu(p.sessions, #[trigger] ks[i]) by {
        let s = clefs(p.sessions);
        s.lemma_filter_contains_rev(prete(p, compte), ks[i]);
        let j = choose|j: int| 0 <= j < s.len() && s[j] == ks[i];
        lemme_rang(p.sessions, ks[i]);
        assert(p.sessions[j].0 == ks[i]);
    }
    lemme_envois_queue(p, ks, CommandeVue::Reprendre(p.identites));
}

/// A move to an account that is not connected is refused: nothing is sent, and the
/// interface is told why.
pub proof fn loi_deplacement_refuse(
    b: BoiteVue,
    uids: Seq<u32>,
    compte_cible: i64,
    chemin_cible: Seq<char>,
)
    requires
        b.courant matches Some(c) && c.compte != compte_cible,
        uids.len() > 0,
        etat_de(b, compte_cible) != Etat::Pret,
    ensures
        deplacement_demande(b, uids, compte_cible, chemin_cible) == (
            avec_erreur(b, "la boîte cible n'est pas connectée : le déplacement est refusé"@),
            false,
        ),
{
}

} // verus!
