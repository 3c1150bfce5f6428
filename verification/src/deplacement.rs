//! Moves of messages, within an account or from one account to another.
//!
//! Within an account, the server moves.
//!
//! From one account to another, no protocol does it: the message is read as a whole
//! at the source, put in the target with its original flags and date of reception,
//! and only then removed from the source. No interruption may lose anything, hence
//! the queue of moves in progress:
//!
//! 1. the message is read and copied to storage, then the move is registered at the
//!    step "to deposit";
//! 2. once the target has accepted the deposit, the move passes to "to purge";
//! 3. once the message is removed from the source, the move is settled and the copy
//!    erased.
//!
//! An interrupted move resumes at its step. At "to deposit" it is not known whether
//! the deposit took place: the target is first searched for the `Message-ID`, and
//! the message is put there again only if it is not found. At worst there is a
//! duplicate, never a loss: the source is purged only after a confirmed deposit.
//!
//! The moves go from step to step: they say what to do, and take the outcome.

use vstd::prelude::*;

use crate::courrier::identifiant_du_brut;
use crate::flux::{accoler, texte_erreur, ErreurVue, ReponseVue};
use crate::imap::{
    entier_de, message_lu, Erreur, MessageComplet, MessageCompletVue, Resultat, Selection,
    SelectionVue,
};
use crate::index::{identifiant, message_id_de};
use crate::magasin::{clef_etrangere, trop_de_messages, Etape, Magasin, MessageLocal, Operation};
use crate::nombre::{decimal, decimal_signe, ecrire_i64, ecrire_u64, lemme_decimal};
use crate::protocole::{
    drapeaux_de, entete_de_ligne, entetes_de, groupe, lecteur_fetch, EtatDossier,
};
use crate::synchro::{plafonne, sans_messages, Echec, EchecVue};
use crate::tables::{
    compte_numero, dans_uids, dossier_en, ids_operations, lemme_plus_grand, lemme_premier, message_en,
    operation_avancee, operation_en_echec, premier, recompte, sans, suivant, LigneVue, MagasinVue,
    OperationVue,
};
use crate::texte::{
    ajouter, ajouter_car, apres_premier, caracteres, chaine, chaines, copier, copier_textes,
    decouper_mots, egal, joindre, jointure, lemme_mots, lignes, loi_mots_joints, mots, sans_blancs,
    textes,
};

verus! {

// ---------------------------------------------------------------------------- report

/// What a move did.
#[derive(Debug, PartialEq, Eq)]
pub struct Rapport {
    pub deplaces: usize,
    /// Messages gone from the source before they were read: nothing to do.
    pub absents: usize,
    pub erreurs: Vec<String>,
}

/// What a report holds.
pub struct RapportVue {
    pub deplaces: usize,
    pub absents: usize,
    pub erreurs: Seq<Seq<char>>,
}

impl View for Rapport {
    type V = RapportVue;

    open spec fn view(&self) -> RapportVue {
        RapportVue {
            deplaces: self.deplaces,
            absents: self.absents,
            erreurs: textes(self.erreurs@),
        }
    }
}

/// The report of a move that did nothing.
pub open spec fn rapport_vide() -> RapportVue {
    RapportVue { deplaces: 0, absents: 0, erreurs: Seq::empty() }
}

impl Default for Rapport {
    fn default() -> (r: Self)
        ensures
            r@ == rapport_vide(),
    {
        let r = Rapport { deplaces: 0, absents: 0, erreurs: Vec::new() };
        assert(r@.erreurs =~= Seq::empty());
        r
    }
}

impl Clone for Rapport {
    fn clone(&self) -> (r: Self)
        ensures
            r@ == self@,
    {
        Rapport {
            deplaces: self.deplaces,
            absents: self.absents,
            erreurs: copier_textes(&self.erreurs),
        }
    }
}

/// What the outcome of a move holds.
pub open spec fn vue_rapport(r: Result<Rapport, Echec>) -> Result<RapportVue, EchecVue> {
    match r {
        Ok(v) => Ok(v@),
        Err(e) => Err(e@),
    }
}

// ---------------------------------------------------------------- within an account

/// Whether a move within an account has anything to do.
pub fn a_deplacer(source: &str, uids: &[u32], cible: &str) -> (r: bool)
    ensures
        r == (source@ != cible@ && uids@.len() > 0),
{
    uids.len() > 0 && !egal(source, cible)
}

/// The index once the server was asked to move messages within an account, and the
/// report. `deplace` is what the server said of the selection and of the move.
pub open spec fn deplacement_interne(
    m: MagasinVue,
    compte: i64,
    source: Seq<char>,
    uids: Seq<u32>,
    cible: Seq<char>,
    deplace: Result<(), ErreurVue>,
) -> (MagasinVue, Result<RapportVue, EchecVue>) {
    if source == cible || uids.len() == 0 {
        (m, Ok(rapport_vide()))
    } else {
        match deplace {
            Err(e) => (m, Err(EchecVue::Imap(e))),
            Ok(()) => match dossier_en(m.dossiers, compte, source) {
                None => (m, Err(EchecVue::Index("Query returned no rows"@))),
                Some(d) => {
                    let n = sans_messages(m, d.id, uids);
                    match recompte(n, d.id) {
                        None => (n, Err(EchecVue::Index(trop_de_messages()))),
                        Some(o) => (
                            o,
                            Ok(RapportVue { deplaces: uids.len() as usize, ..rapport_vide() }),
                        ),
                    }
                },
            },
        }
    }
}

/// Notes in the index that messages were moved from a folder to another of the same
/// account. `deplace` is what the server said of the selection and of the move.
pub fn dans_la_boite(
    magasin: &mut Magasin,
    compte: i64,
    source: &str,
    uids: &[u32],
    cible: &str,
    deplace: Resultat<()>,
) -> (r: Result<Rapport, Echec>)
    ensures
        (final(magasin)@, vue_rapport(r)) == deplacement_interne(
            old(magasin)@,
            compte,
            source@,
            uids@,
            cible@,
            match deplace {
                Ok(()) => Ok(()),
                Err(e) => Err(e@),
            },
        ),
{
    if !a_deplacer(source, uids, cible) {
        return Ok(Rapport::default());
    }
    match deplace {
        Err(e) => {
            return Err(Echec::Imap(e));
        },
        Ok(()) => {},
    }
    match magasin.dossier_id(compte, source) {
        Err(e) => Err(Echec::Index(e)),
        Ok(id) => {
            match magasin.retirer(id, uids) {
                Err(e) => {
                    return Err(Echec::Index(e));
                },
                Ok(()) => {},
            }
            match magasin.recompter(id) {
                Err(e) => Err(Echec::Index(e)),
                Ok(()) => {
                    let mut r = Rapport::default();
                    r.deplaces = uids.len();
                    Ok(r)
                },
            }
        },
    }
}

// ---------------------------------------------------------------- actions, outcomes

/// What a move between accounts asks for.
pub enum Action {
    /// To create the folder of the copies.
    CreerAtelier,
    /// To select a folder of the source account.
    Selectionner(String),
    /// To read a whole message of the selected folder of the source account.
    Lire(u32),
    /// To write the copy of a message under a name, down to the disk.
    Copier { nom: String, octets: Vec<u8> },
    /// To put a message in a folder of the target account.
    Deposer { chemin: String, message: MessageComplet },
    /// To remove a message from the selected folder of the source account for good.
    Supprimer(u32),
    /// To erase a copy, if it is there.
    Effacer(String),
    /// To open a folder of the target account for reading.
    Examiner(String),
    /// To search the folder opened for reading for a `Message-ID`.
    Chercher(String),
    /// To read a copy.
    LireCopie(String),
}

/// What a move between accounts asks for.
pub enum ActionVue {
    CreerAtelier,
    Selectionner(Seq<char>),
    Lire(u32),
    Copier(Seq<char>, Seq<u8>),
    Deposer(Seq<char>, MessageCompletVue),
    Supprimer(u32),
    Effacer(Seq<char>),
    Examiner(Seq<char>),
    Chercher(Seq<char>),
    LireCopie(Seq<char>),
}

impl View for Action {
    type V = ActionVue;

    open spec fn view(&self) -> ActionVue {
        match self {
            Action::CreerAtelier => ActionVue::CreerAtelier,
            Action::Selectionner(c) => ActionVue::Selectionner(c@),
            Action::Lire(u) => ActionVue::Lire(*u),
            Action::Copier { nom, octets } => ActionVue::Copier(nom@, octets@),
            Action::Deposer { chemin, message } => ActionVue::Deposer(chemin@, message@),
            Action::Supprimer(u) => ActionVue::Supprimer(*u),
            Action::Effacer(f) => ActionVue::Effacer(f@),
            Action::Examiner(c) => ActionVue::Examiner(c@),
            Action::Chercher(i) => ActionVue::Chercher(i@),
            Action::LireCopie(f) => ActionVue::LireCopie(f@),
        }
    }
}

/// What came of what a move asked for.
pub enum Evenement {
    Atelier(Result<(), String>),
    Selection(Resultat<Selection>),
    /// The message read, none if it vanished.
    Message(Resultat<Option<MessageComplet>>),
    /// The file that the copy was written to; else that file and what went wrong.
    Copie(Result<String, (String, String)>),
    Depot(Resultat<Option<u32>>),
    Suppression(Resultat<()>),
    Effacement,
    Examen(Resultat<EtatDossier>),
    Recherche(Resultat<Vec<u32>>),
    CopieLue(Result<Vec<u8>, String>),
}

/// What came of what a move asked for.
pub enum EvenementVue {
    Atelier(Result<(), Seq<char>>),
    Selection(Result<SelectionVue, ErreurVue>),
    Message(Result<Option<MessageCompletVue>, ErreurVue>),
    Copie(Result<Seq<char>, (Seq<char>, Seq<char>)>),
    Depot(Result<Option<u32>, ErreurVue>),
    Suppression(Result<(), ErreurVue>),
    Effacement,
    Examen(Result<EtatDossier, ErreurVue>),
    Recherche(Result<Seq<u32>, ErreurVue>),
    CopieLue(Result<Seq<u8>, Seq<char>>),
}

impl View for Evenement {
    type V = EvenementVue;

    open spec fn view(&self) -> EvenementVue {
        match self {
            Evenement::Atelier(Ok(())) => EvenementVue::Atelier(Ok(())),
            Evenement::Atelier(Err(e)) => EvenementVue::Atelier(Err(e@)),
            Evenement::Selection(Ok(s)) => EvenementVue::Selection(Ok(s@)),
            Evenement::Selection(Err(e)) => EvenementVue::Selection(Err(e@)),
            Evenement::Message(Ok(Some(m))) => EvenementVue::Message(Ok(Some(m@))),
            Evenement::Message(Ok(None)) => EvenementVue::Message(Ok(None)),
            Evenement::Message(Err(e)) => EvenementVue::Message(Err(e@)),
            Evenement::Copie(Ok(f)) => EvenementVue::Copie(Ok(f@)),
            Evenement::Copie(Err((f, e))) => EvenementVue::Copie(Err((f@, e@))),
            Evenement::Depot(Ok(u)) => EvenementVue::Depot(Ok(*u)),
            Evenement::Depot(Err(e)) => EvenementVue::Depot(Err(e@)),
            Evenement::Suppression(Ok(())) => EvenementVue::Suppression(Ok(())),
            Evenement::Suppression(Err(e)) => EvenementVue::Suppression(Err(e@)),
            Evenement::Effacement => EvenementVue::Effacement,
            Evenement::Examen(Ok(e)) => EvenementVue::Examen(Ok(*e)),
            Evenement::Examen(Err(e)) => EvenementVue::Examen(Err(e@)),
            Evenement::Recherche(Ok(v)) => EvenementVue::Recherche(Ok(v@)),
            Evenement::Recherche(Err(e)) => EvenementVue::Recherche(Err(e@)),
            Evenement::CopieLue(Ok(o)) => EvenementVue::CopieLue(Ok(o@)),
            Evenement::CopieLue(Err(e)) => EvenementVue::CopieLue(Err(e@)),
        }
    }
}

// ------------------------------------------------------------- model of a transfer

/// What a transfer awaits.
pub enum PhaseVue {
    Atelier,
    Selection,
    /// The message of the current UID.
    Lecture,
    /// The copy of the message read, whose `Message-ID` is known.
    Copie(MessageCompletVue, Seq<char>),
    /// The deposit of the message, under a registered move and with a copy.
    Depot(i64, Seq<char>),
    /// The removal of the message from the source.
    Suppression(i64, Seq<char>),
    /// The copy to be erased.
    Effacement,
}

/// A transfer of messages to a folder of another account.
pub struct TransfertVue {
    pub compte_source: i64,
    pub source: Seq<char>,
    pub uids: Seq<u32>,
    /// Rank of the current UID.
    pub rang: int,
    pub compte_cible: i64,
    pub cible: Seq<char>,
    pub atelier: Seq<char>,
    pub validite: u32,
    pub id_source: i64,
    pub rapport: RapportVue,
    pub phase: PhaseVue,
}

/// What a step of a transfer leads to.
pub enum SuiteVue {
    Demander(TransfertVue, ActionVue),
    Fini(Result<RapportVue, EchecVue>),
}

/// What an outcome that was not asked for leads to.
pub open spec fn inattendu() -> EchecVue {
    EchecVue::Imap(ErreurVue::Protocole("réponse inattendue"@))
}

/// The name of the copy of a message.
pub open spec fn nom_copie(compte: i64, validite: u32, uid: u32) -> Seq<char> {
    decimal_signe(compte as int) + "-"@ + decimal(validite as nat) + "-"@ + decimal(uid as nat)
        + ".eml"@
}

/// The `Message-ID` that a move keeps: that of the index, else that of the message
/// itself.
pub open spec fn identifiant_retenu(
    t: Seq<LigneVue>,
    dossier: i64,
    uid: u32,
    lu: Seq<char>,
) -> Seq<char> {
    match message_en(t, dossier, uid) {
        Some(l) => if l.message.message_id.len() > 0 {
            l.message.message_id
        } else {
            lu
        },
        None => lu,
    }
}

/// The move that is registered once a message is read and copied.
pub open spec fn operation_de(
    s: TransfertVue,
    message: MessageCompletVue,
    message_id: Seq<char>,
    fichier: Seq<char>,
) -> OperationVue {
    OperationVue {
        id: 0,
        compte_source: s.compte_source,
        chemin_source: s.source,
        validite_source: s.validite,
        uid_source: s.uids[s.rang],
        compte_cible: s.compte_cible,
        chemin_cible: s.cible,
        message_id,
        drapeaux: jointure(message.drapeaux, " "@),
        date_interne: message.date_interne,
        fichier,
        etape: Etape::Deposer,
        erreur: Seq::empty(),
    }
}

/// The next message of a transfer, or its end.
pub open spec fn message_suivant(m: MagasinVue, s: TransfertVue) -> (MagasinVue, SuiteVue) {
    if s.rang + 1 < s.uids.len() {
        (
            m,
            SuiteVue::Demander(
                TransfertVue { rang: s.rang + 1, phase: PhaseVue::Lecture, ..s },
                ActionVue::Lire(s.uids[s.rang + 1]),
            ),
        )
    } else {
        match recompte(m, s.id_source) {
            Some(n) => (n, SuiteVue::Fini(Ok(s.rapport))),
            None => (m, SuiteVue::Fini(Err(EchecVue::Index(trop_de_messages())))),
        }
    }
}

/// The index with a move registered under the next identifier; none where one of its
/// accounts does not exist or no identifier is left.
pub open spec fn operation_inscrite(m: MagasinVue, o: OperationVue) -> Result<
    (MagasinVue, i64),
    Seq<char>,
> {
    let id = suivant(ids_operations(m.operations));
    let connus = compte_numero(m.comptes, o.compte_source) is Some && compte_numero(
        m.comptes,
        o.compte_cible,
    ) is Some;
    if !connus {
        Err(clef_etrangere())
    } else if id > i64::MAX {
        Err("plus d'identifiant d'opération disponible"@)
    } else {
        Ok(
            (
                MagasinVue {
                    operations: m.operations.push(
                        OperationVue { id: id as i64, erreur: Seq::empty(), ..o },
                    ),
                    ..m
                },
                id as i64,
            ),
        )
    }
}

/// The index with a move that has passed to the purge.
pub open spec fn operation_a_purger(m: MagasinVue, id: i64) -> MagasinVue {
    MagasinVue {
        operations: m.operations.map_values(operation_avancee(id, Etape::Purger)),
        ..m
    }
}

/// The index with the failure of a move noted.
pub open spec fn echec_note(m: MagasinVue, id: i64, texte: Seq<char>) -> MagasinVue {
    MagasinVue { operations: m.operations.map_values(operation_en_echec(id, texte)), ..m }
}

/// The index with a move settled.
pub open spec fn operation_close(m: MagasinVue, id: i64) -> MagasinVue {
    MagasinVue { operations: sans(m.operations, |o: OperationVue| o.id == id), ..m }
}

/// The start of a transfer.
pub open spec fn transfert_entame(
    compte_source: i64,
    source: Seq<char>,
    uids: Seq<u32>,
    compte_cible: i64,
    cible: Seq<char>,
    atelier: Seq<char>,
) -> SuiteVue {
    if uids.len() == 0 {
        SuiteVue::Fini(Ok(rapport_vide()))
    } else {
        SuiteVue::Demander(
            TransfertVue {
                compte_source,
                source,
                uids,
                rang: 0,
                compte_cible,
                cible,
                atelier,
                validite: 0,
                id_source: 0,
                rapport: rapport_vide(),
                phase: PhaseVue::Atelier,
            },
            ActionVue::CreerAtelier,
        )
    }
}

/// One step of a transfer.
pub open spec fn pas_transfert(m: MagasinVue, s: TransfertVue, e: EvenementVue) -> (
    MagasinVue,
    SuiteVue,
) {
    let uid = s.uids[s.rang];
    match (s.phase, e) {
        (PhaseVue::Atelier, EvenementVue::Atelier(Err(x))) => (
            m,
            SuiteVue::Fini(Err(EchecVue::Index("atelier "@ + s.atelier + " : "@ + x))),
        ),
        (PhaseVue::Atelier, EvenementVue::Atelier(Ok(()))) => (
            m,
            SuiteVue::Demander(
                TransfertVue { phase: PhaseVue::Selection, ..s },
                ActionVue::Selectionner(s.source),
            ),
        ),
        (PhaseVue::Selection, EvenementVue::Selection(Err(x))) => (
            m,
            SuiteVue::Fini(Err(EchecVue::Imap(x))),
        ),
        (PhaseVue::Selection, EvenementVue::Selection(Ok(v))) => match dossier_en(
            m.dossiers,
            s.compte_source,
            s.source,
        ) {
            None => (m, SuiteVue::Fini(Err(EchecVue::Index("Query returned no rows"@)))),
            Some(d) => (
                m,
                SuiteVue::Demander(
                    TransfertVue {
                        validite: v.etat.uid_validity,
                        id_source: d.id,
                        phase: PhaseVue::Lecture,
                        ..s
                    },
                    ActionVue::Lire(uid),
                ),
            ),
        },
        (PhaseVue::Lecture, EvenementVue::Message(Err(x))) => (
            m,
            SuiteVue::Fini(Err(EchecVue::Imap(x))),
        ),
        (PhaseVue::Lecture, EvenementVue::Message(Ok(None))) => message_suivant(
            sans_messages(m, s.id_source, seq![uid]),
            TransfertVue {
                rapport: RapportVue { absents: plafonne(s.rapport.absents + 1), ..s.rapport },
                ..s
            },
        ),
        (PhaseVue::Lecture, EvenementVue::Message(Ok(Some(v)))) => (
            m,
            SuiteVue::Demander(
                TransfertVue {
                    phase: PhaseVue::Copie(
                        v,
                        identifiant_retenu(
                            m.messages,
                            s.id_source,
                            uid,
                            identifiant(identifiant_du_brut(v.octets)),
                        ),
                    ),
                    ..s
                },
                ActionVue::Copier(nom_copie(s.compte_source, s.validite, uid), v.octets),
            ),
        ),
        (PhaseVue::Copie(_, _), EvenementVue::Copie(Err((f, x)))) => (
            m,
            SuiteVue::Fini(Err(EchecVue::Index("copie "@ + f + " : "@ + x))),
        ),
        (PhaseVue::Copie(v, message_id), EvenementVue::Copie(Ok(f))) => match operation_inscrite(
            m,
            operation_de(s, v, message_id, f),
        ) {
            Err(x) => (m, SuiteVue::Fini(Err(EchecVue::Index(x)))),
            Ok((n, id)) => (
                n,
                SuiteVue::Demander(
                    TransfertVue { phase: PhaseVue::Depot(id, f), ..s },
                    ActionVue::Deposer(s.cible, v),
                ),
            ),
        },
        (PhaseVue::Depot(id, f), EvenementVue::Depot(Err(x))) => if x is Reseau {
            // Whether the deposit took place is not known: the move stays registered,
            // and its resumption will search the target.
            (echec_note(m, id, texte_erreur(x)), SuiteVue::Fini(Err(EchecVue::Imap(x))))
        } else {
            // A frank refusal: nothing was put in the target, the message stays where
            // it is.
            (
                operation_close(m, id),
                SuiteVue::Demander(
                    TransfertVue {
                        rapport: RapportVue {
                            erreurs: s.rapport.erreurs.push(
                                "message "@ + decimal(uid as nat) + " : "@ + texte_erreur(x),
                            ),
                            ..s.rapport
                        },
                        phase: PhaseVue::Effacement,
                        ..s
                    },
                    ActionVue::Effacer(f),
                ),
            )
        },
        (PhaseVue::Depot(id, f), EvenementVue::Depot(Ok(_))) => (
            operation_a_purger(m, id),
            SuiteVue::Demander(
                TransfertVue { phase: PhaseVue::Suppression(id, f), ..s },
                ActionVue::Supprimer(uid),
            ),
        ),
        (PhaseVue::Suppression(id, _), EvenementVue::Suppression(Err(x))) => (
            echec_note(m, id, texte_erreur(x)),
            SuiteVue::Fini(Err(EchecVue::Imap(x))),
        ),
        (PhaseVue::Suppression(id, f), EvenementVue::Suppression(Ok(()))) => (
            operation_close(sans_messages(m, s.id_source, seq![uid]), id),
            SuiteVue::Demander(
                TransfertVue {
                    rapport: RapportVue { deplaces: plafonne(s.rapport.deplaces + 1), ..s.rapport },
                    phase: PhaseVue::Effacement,
                    ..s
                },
                ActionVue::Effacer(f),
            ),
        ),
        (PhaseVue::Effacement, EvenementVue::Effacement) => message_suivant(m, s),
        _ => (m, SuiteVue::Fini(Err(inattendu()))),
    }
}

// -------------------------------------------------------------- code of a transfer

/// What a transfer awaits.
enum Phase {
    Atelier,
    Selection,
    Lecture,
    Copie(MessageComplet, String),
    Depot(i64, String),
    Suppression(i64, String),
    Effacement,
}

impl View for Phase {
    type V = PhaseVue;

    closed spec fn view(&self) -> PhaseVue {
        match self {
            Phase::Atelier => PhaseVue::Atelier,
            Phase::Selection => PhaseVue::Selection,
            Phase::Lecture => PhaseVue::Lecture,
            Phase::Copie(m, i) => PhaseVue::Copie(m@, i@),
            Phase::Depot(id, f) => PhaseVue::Depot(*id, f@),
            Phase::Suppression(id, f) => PhaseVue::Suppression(*id, f@),
            Phase::Effacement => PhaseVue::Effacement,
        }
    }
}

/// A transfer of messages to a folder of another account.
pub struct Transfert {
    compte_source: i64,
    source: String,
    uids: Vec<u32>,
    rang: usize,
    compte_cible: i64,
    cible: String,
    atelier: String,
    validite: u32,
    id_source: i64,
    rapport: Rapport,
    phase: Phase,
}

impl View for Transfert {
    type V = TransfertVue;

    closed spec fn view(&self) -> TransfertVue {
        TransfertVue {
            compte_source: self.compte_source,
            source: self.source@,
            uids: self.uids@,
            rang: self.rang as int,
            compte_cible: self.compte_cible,
            cible: self.cible@,
            atelier: self.atelier@,
            validite: self.validite,
            id_source: self.id_source,
            rapport: self.rapport@,
            phase: self.phase@,
        }
    }
}

/// What a step of a transfer leads to.
pub enum Suite {
    /// Something is to be done.
    Demander(Transfert, Action),
    Fini(Result<Rapport, Echec>),
}

impl View for Suite {
    type V = SuiteVue;

    open spec fn view(&self) -> SuiteVue {
        match self {
            Suite::Demander(t, a) => SuiteVue::Demander(t@, a@),
            Suite::Fini(r) => SuiteVue::Fini(vue_rapport(*r)),
        }
    }
}

fn erreur_inattendue() -> (r: Echec)
    ensures
        r@ == inattendu(),
{
    Echec::Imap(Erreur::Protocole(copier("réponse inattendue")))
}

fn echec_index(a: &str, b: &str, c: &str) -> (r: Echec)
    ensures
        r@ == EchecVue::Index(a@ + b@ + " : "@ + c@),
{
    let mut v = caracteres(a);
    ajouter(&mut v, b);
    ajouter(&mut v, " : ");
    ajouter(&mut v, c);
    Echec::Index(crate::magasin::Erreur(chaine(v.as_slice())))
}

fn nommer_copie(compte: i64, validite: u32, uid: u32) -> (r: String)
    ensures
        r@ == nom_copie(compte, validite, uid),
{
    let mut v = ecrire_i64(compte);
    ajouter(&mut v, "-");
    let a = ecrire_u64(validite as u64);
    ajouter_car(&mut v, a.as_slice());
    ajouter(&mut v, "-");
    let b = ecrire_u64(uid as u64);
    ajouter_car(&mut v, b.as_slice());
    ajouter(&mut v, ".eml");
    chaine(v.as_slice())
}

/// The `Message-ID` that a move keeps: that of the index, else that of the message
/// itself.
pub fn retenir_identifiant(connu: Option<MessageLocal>, lu: String) -> (r: String)
    ensures
        r@ == (match connu {
            Some(m) => if m@.message_id.len() > 0 {
                m@.message_id
            } else {
                lu@
            },
            None => lu@,
        }),
{
    match connu {
        Some(m) => if m.message_id.as_str().is_empty() {
            lu
        } else {
            m.message_id
        },
        None => lu,
    }
}

fn augmenter(n: usize) -> (r: usize)
    ensures
        r == plafonne(n + 1),
{
    if n == usize::MAX {
        n
    } else {
        n + 1
    }
}

/// Starts the move of messages of a folder to a folder of another account: the
/// folder of the copies is to be created. Without a message there is nothing to do.
pub fn entre_boites(
    compte_source: i64,
    source: &str,
    uids: Vec<u32>,
    compte_cible: i64,
    cible: &str,
    atelier: &str,
) -> (r: Suite)
    ensures
        r@ == transfert_entame(compte_source, source@, uids@, compte_cible, cible@, atelier@),
        r matches Suite::Demander(t, _) ==> t.bien_forme(),
{
    if uids.len() == 0 {
        return Suite::Fini(Ok(Rapport::default()));
    }
    let t = Transfert {
        compte_source,
        source: copier(source),
        uids,
        rang: 0,
        compte_cible,
        cible: copier(cible),
        atelier: copier(atelier),
        validite: 0,
        id_source: 0,
        rapport: Rapport::default(),
        phase: Phase::Atelier,
    };
    Suite::Demander(t, Action::CreerAtelier)
}

impl Transfert {
    /// Whether the current UID is one of those to move.
    pub closed spec fn bien_forme(&self) -> bool {
        self.rang < self.uids@.len()
    }

    fn continuer(self, magasin: &mut Magasin) -> (r: Suite)
        requires
            self.bien_forme(),
        ensures
            (final(magasin)@, r@) == message_suivant(old(magasin)@, self@),
            r matches Suite::Demander(t, _) ==> t.bien_forme(),
    {
        let mut s = self;
        let n: usize = s.uids.len();
        if s.rang + 1 < n {
            s.rang = s.rang + 1;
            s.phase = Phase::Lecture;
            let uid: u32 = s.uids[s.rang];
            return Suite::Demander(s, Action::Lire(uid));
        }
        match magasin.recompter(s.id_source) {
            Err(e) => Suite::Fini(Err(Echec::Index(e))),
            Ok(()) => Suite::Fini(Ok(s.rapport)),
        }
    }

    /// Takes the transfer a step further, given what came of what it asked for.
    #[verifier::rlimit(40)]
    pub fn suivre(self, magasin: &mut Magasin, evenement: Evenement) -> (r: Suite)
        requires
            self.bien_forme(),
        ensures
            (final(magasin)@, r@) == pas_transfert(old(magasin)@, self@, evenement@),
            r matches Suite::Demander(t, _) ==> t.bien_forme(),
    {
        let mut s = self;
        let uid: u32 = s.uids[s.rang];
        let mut phase = Phase::Effacement;
        std::mem::swap(&mut phase, &mut s.phase);
        match (phase, evenement) {
            (Phase::Atelier, Evenement::Atelier(Err(x))) => Suite::Fini(
                Err(echec_index("atelier ", s.atelier.as_str(), x.as_str())),
            ),
            (Phase::Atelier, Evenement::Atelier(Ok(()))) => {
                s.phase = Phase::Selection;
                let c = s.source.clone();
                Suite::Demander(s, Action::Selectionner(c))
            },
            (Phase::Selection, Evenement::Selection(Err(x))) => Suite::Fini(Err(Echec::Imap(x))),
            (Phase::Selection, Evenement::Selection(Ok(v))) => match magasin.dossier_id(
                s.compte_source,
                s.source.as_str(),
            ) {
                Err(e) => Suite::Fini(Err(Echec::Index(e))),
                Ok(id) => {
                    s.validite = v.etat.uid_validity;
                    s.id_source = id;
                    s.phase = Phase::Lecture;
                    Suite::Demander(s, Action::Lire(uid))
                },
            },
            (Phase::Lecture, Evenement::Message(Err(x))) => Suite::Fini(Err(Echec::Imap(x))),
            (Phase::Lecture, Evenement::Message(Ok(None))) => {
                retirer_un(magasin, s.id_source, uid);
                s.rapport.absents = augmenter(s.rapport.absents);
                s.phase = Phase::Lecture;
                s.continuer(magasin)
            },
            (Phase::Lecture, Evenement::Message(Ok(Some(v)))) => {
                let connu = match magasin.message(s.id_source, uid) {
                    Err(e) => {
                        return Suite::Fini(Err(Echec::Index(e)));
                    },
                    Ok(connu) => connu,
                };
                let lu = message_id_de(v.octets.as_slice());
                let message_id = retenir_identifiant(connu, lu);
                let nom = nommer_copie(s.compte_source, s.validite, uid);
                let octets = vstd::slice::slice_to_vec(v.octets.as_slice());
                s.phase = Phase::Copie(v, message_id);
                Suite::Demander(s, Action::Copier { nom, octets })
            },
            (Phase::Copie(_, _), Evenement::Copie(Err((f, x)))) => Suite::Fini(
                Err(echec_index("copie ", f.as_str(), x.as_str())),
            ),
            (Phase::Copie(v, message_id), Evenement::Copie(Ok(f))) => {
                let op = Operation {
                    id: 0,
                    compte_source: s.compte_source,
                    chemin_source: s.source.clone(),
                    validite_source: s.validite,
                    uid_source: uid,
                    compte_cible: s.compte_cible,
                    chemin_cible: s.cible.clone(),
                    message_id,
                    drapeaux: joindre(&v.drapeaux, " "),
                    date_interne: v.date_interne.clone(),
                    fichier: f.clone(),
                    etape: Etape::Deposer,
                    erreur: String::new(),
                };
                match magasin.inscrire_operation(&op) {
                    Err(e) => Suite::Fini(Err(Echec::Index(e))),
                    Ok(id) => {
                        s.phase = Phase::Depot(id, f);
                        let chemin = s.cible.clone();
                        Suite::Demander(s, Action::Deposer { chemin, message: v })
                    },
                }
            },
            (Phase::Depot(id, f), Evenement::Depot(Err(x))) => {
                let texte = x.texte();
                if x.reseau() {
                    noter_echec(magasin, id, texte.as_str());
                    return Suite::Fini(Err(Echec::Imap(x)));
                }
                clore(magasin, id);
                let mut m = caracteres("message ");
                let d = ecrire_u64(uid as u64);
                ajouter_car(&mut m, d.as_slice());
                ajouter(&mut m, " : ");
                ajouter(&mut m, texte.as_str());
                let ligne = chaine(m.as_slice());
                let ghost avant = s.rapport@.erreurs;
                s.rapport.erreurs.push(ligne);
                assert(s.rapport@.erreurs =~= avant.push(ligne@));
                s.phase = Phase::Effacement;
                Suite::Demander(s, Action::Effacer(f))
            },
            (Phase::Depot(id, f), Evenement::Depot(Ok(_))) => {
                passer_a_la_purge(magasin, id);
                s.phase = Phase::Suppression(id, f);
                Suite::Demander(s, Action::Supprimer(uid))
            },
            (Phase::Suppression(id, _), Evenement::Suppression(Err(x))) => {
                let texte = x.texte();
                noter_echec(magasin, id, texte.as_str());
                Suite::Fini(Err(Echec::Imap(x)))
            },
            (Phase::Suppression(id, f), Evenement::Suppression(Ok(()))) => {
                retirer_un(magasin, s.id_source, uid);
                clore(magasin, id);
                s.rapport.deplaces = augmenter(s.rapport.deplaces);
                s.phase = Phase::Effacement;
                Suite::Demander(s, Action::Effacer(f))
            },
            (Phase::Effacement, Evenement::Effacement) => {
                s.phase = Phase::Effacement;
                s.continuer(magasin)
            },
            _ => Suite::Fini(Err(erreur_inattendue())),
        }
    }
}

fn retirer_un(magasin: &mut Magasin, id: i64, uid: u32)
    ensures
        final(magasin)@ == sans_messages(old(magasin)@, id, seq![uid]),
{
    let mut v: Vec<u32> = Vec::new();
    v.push(uid);
    assert(v@ =~= seq![uid]);
    let _ = magasin.retirer(id, v.as_slice());
}

/// Notes the failure of a move, if it is still registered.
pub fn noter_echec(magasin: &mut Magasin, id: i64, texte: &str)
    ensures
        final(magasin)@ == echec_note(old(magasin)@, id, texte@),
{
    let _ = magasin.noter_echec_operation(id, texte);
}

fn clore(magasin: &mut Magasin, id: i64)
    ensures
        final(magasin)@ == operation_close(old(magasin)@, id),
{
    let _ = magasin.clore_operation(id);
}

fn passer_a_la_purge(magasin: &mut Magasin, id: i64)
    ensures
        final(magasin)@ == operation_a_purger(old(magasin)@, id),
{
    let _ = magasin.avancer_operation(id, Etape::Purger);
}

// ----------------------------------------------------------- model of a resumption

/// What the resumption of a move awaits.
#[derive(Debug, Clone, Copy, PartialEq, Eq, Structural)]
pub enum Reprise {
    /// The target folder to be open for reading.
    Examen,
    /// The result of the search of the target.
    Recherche,
    /// The copy of the message.
    Copie,
    /// The deposit of the message.
    Depot,
    /// The source folder to be selected.
    Selection,
    /// The removal of the message from the source folder of this identifier.
    Suppression(i64),
    /// The copy to be erased, then the source folder to be counted anew.
    Effacement(i64),
    /// The copy to be erased.
    Abandon,
}

/// What a step of a resumption leads to.
pub enum SuiteRepriseVue {
    Demander(Reprise, ActionVue),
    Fini(Result<(), EchecVue>),
}

/// The start of the resumption of a move, at its step.
pub open spec fn reprise_entamee(o: OperationVue) -> SuiteRepriseVue {
    if o.etape == Etape::Deposer {
        if o.message_id.len() == 0 {
            SuiteRepriseVue::Demander(Reprise::Copie, ActionVue::LireCopie(o.fichier))
        } else {
            SuiteRepriseVue::Demander(Reprise::Examen, ActionVue::Examiner(o.chemin_cible))
        }
    } else {
        SuiteRepriseVue::Demander(Reprise::Selection, ActionVue::Selectionner(o.chemin_source))
    }
}

/// The passage of a move to its purge: the source folder is to be selected.
pub open spec fn purge_entamee(m: MagasinVue, o: OperationVue) -> (MagasinVue, SuiteRepriseVue) {
    (
        operation_a_purger(m, o.id),
        SuiteRepriseVue::Demander(
            Reprise::Selection,
            ActionVue::Selectionner(o.chemin_source),
        ),
    )
}

/// One step of the resumption of a move.
pub open spec fn pas_reprise(m: MagasinVue, o: OperationVue, s: Reprise, e: EvenementVue) -> (
    MagasinVue,
    SuiteRepriseVue,
) {
    match (s, e) {
        (Reprise::Examen, EvenementVue::Examen(Err(x))) => (
            m,
            SuiteRepriseVue::Fini(Err(EchecVue::Imap(x))),
        ),
        (Reprise::Examen, EvenementVue::Examen(Ok(_))) => (
            m,
            SuiteRepriseVue::Demander(Reprise::Recherche, ActionVue::Chercher(o.message_id)),
        ),
        (Reprise::Recherche, EvenementVue::Recherche(Err(x))) => (
            m,
            SuiteRepriseVue::Fini(Err(EchecVue::Imap(x))),
        ),
        (Reprise::Recherche, EvenementVue::Recherche(Ok(v))) => if v.len() > 0 {
            purge_entamee(m, o)
        } else {
            (m, SuiteRepriseVue::Demander(Reprise::Copie, ActionVue::LireCopie(o.fichier)))
        },
        (Reprise::Copie, EvenementVue::CopieLue(Err(x))) => (
            // Without the copy there is nothing to put in the target: the message is
            // still at the source, which is only purged after a deposit.
            operation_close(echec_note(m, o.id, "copie illisible : "@ + x), o.id),
            SuiteRepriseVue::Fini(Ok(())),
        ),
        (Reprise::Copie, EvenementVue::CopieLue(Ok(octets))) => (
            m,
            SuiteRepriseVue::Demander(
                Reprise::Depot,
                ActionVue::Deposer(
                    o.chemin_cible,
                    MessageCompletVue {
                        drapeaux: mots(o.drapeaux),
                        date_interne: o.date_interne,
                        octets,
                    },
                ),
            ),
        ),
        (Reprise::Depot, EvenementVue::Depot(Err(x))) => (
            m,
            SuiteRepriseVue::Fini(Err(EchecVue::Imap(x))),
        ),
        (Reprise::Depot, EvenementVue::Depot(Ok(_))) => purge_entamee(m, o),
        (Reprise::Selection, EvenementVue::Selection(Err(x))) => (
            m,
            SuiteRepriseVue::Fini(Err(EchecVue::Imap(x))),
        ),
        (Reprise::Selection, EvenementVue::Selection(Ok(v))) => if v.etat.uid_validity
            != o.validite_source {
            // The UIDs of the source were numbered anew: the one that was noted no
            // longer designates this message, and purging it could remove another.
            // The message is in the target already; at worst there is a duplicate.
            (
                operation_close(
                    echec_note(m, o.id, "UIDVALIDITY de la source changée"@),
                    o.id,
                ),
                SuiteRepriseVue::Demander(Reprise::Abandon, ActionVue::Effacer(o.fichier)),
            )
        } else {
            match dossier_en(m.dossiers, o.compte_source, o.chemin_source) {
                None => (
                    m,
                    SuiteRepriseVue::Fini(Err(EchecVue::Index("Query returned no rows"@))),
                ),
                Some(d) => (
                    m,
                    SuiteRepriseVue::Demander(
                        Reprise::Suppression(d.id),
                        ActionVue::Supprimer(o.uid_source),
                    ),
                ),
            }
        },
        (Reprise::Suppression(_), EvenementVue::Suppression(Err(x))) => (
            echec_note(m, o.id, texte_erreur(x)),
            SuiteRepriseVue::Fini(Err(EchecVue::Imap(x))),
        ),
        (Reprise::Suppression(id), EvenementVue::Suppression(Ok(()))) => (
            operation_close(sans_messages(m, id, seq![o.uid_source]), o.id),
            SuiteRepriseVue::Demander(Reprise::Effacement(id), ActionVue::Effacer(o.fichier)),
        ),
        (Reprise::Effacement(id), EvenementVue::Effacement) => match recompte(m, id) {
            Some(n) => (n, SuiteRepriseVue::Fini(Ok(()))),
            None => (m, SuiteRepriseVue::Fini(Err(EchecVue::Index(trop_de_messages())))),
        },
        (Reprise::Abandon, EvenementVue::Effacement) => (m, SuiteRepriseVue::Fini(Ok(()))),
        _ => (m, SuiteRepriseVue::Fini(Err(inattendu()))),
    }
}

// ------------------------------------------------------------ code of a resumption

/// What a step of a resumption leads to.
pub enum SuiteReprise {
    /// Something is to be done.
    Demander(Reprise, Action),
    Fini(Result<(), Echec>),
}

impl View for SuiteReprise {
    type V = SuiteRepriseVue;

    open spec fn view(&self) -> SuiteRepriseVue {
        match self {
            SuiteReprise::Demander(s, a) => SuiteRepriseVue::Demander(*s, a@),
            SuiteReprise::Fini(r) => SuiteRepriseVue::Fini(crate::synchro::vue_issue(*r)),
        }
    }
}

/// Starts the resumption of an interrupted move, at its step.
pub fn reprendre(operation: &Operation) -> (r: SuiteReprise)
    ensures
        r@ == reprise_entamee(operation@),
{
    if operation.etape == Etape::Deposer {
        if operation.message_id.as_str().is_empty() {
            SuiteReprise::Demander(Reprise::Copie, Action::LireCopie(operation.fichier.clone()))
        } else {
            SuiteReprise::Demander(
                Reprise::Examen,
                Action::Examiner(operation.chemin_cible.clone()),
            )
        }
    } else {
        SuiteReprise::Demander(
            Reprise::Selection,
            Action::Selectionner(operation.chemin_source.clone()),
        )
    }
}

fn entamer_purge(magasin: &mut Magasin, operation: &Operation) -> (r: SuiteReprise)
    ensures
        (final(magasin)@, r@) == purge_entamee(old(magasin)@, operation@),
{
    passer_a_la_purge(magasin, operation.id);
    SuiteReprise::Demander(
        Reprise::Selection,
        Action::Selectionner(operation.chemin_source.clone()),
    )
}

impl Reprise {
    /// Takes the resumption of a move a step further, given what came of what it
    /// asked for.
    #[verifier::rlimit(40)]
    pub fn suivre(self, magasin: &mut Magasin, operation: &Operation, evenement: Evenement) -> (r:
        SuiteReprise)
        ensures
            (final(magasin)@, r@) == pas_reprise(
                old(magasin)@,
                operation@,
                self,
                evenement@,
            ),
    {
        match (self, evenement) {
            (Reprise::Examen, Evenement::Examen(Err(x))) => SuiteReprise::Fini(Err(Echec::Imap(x))),
            (Reprise::Examen, Evenement::Examen(Ok(_))) => SuiteReprise::Demander(
                Reprise::Recherche,
                Action::Chercher(operation.message_id.clone()),
            ),
            (Reprise::Recherche, Evenement::Recherche(Err(x))) => SuiteReprise::Fini(
                Err(Echec::Imap(x)),
            ),
            (Reprise::Recherche, Evenement::Recherche(Ok(v))) => if v.len() > 0 {
                entamer_purge(magasin, operation)
            } else {
                SuiteReprise::Demander(
                    Reprise::Copie,
                    Action::LireCopie(operation.fichier.clone()),
                )
            },
            (Reprise::Copie, Evenement::CopieLue(Err(x))) => {
                let texte = accoler("copie illisible : ", x.as_str());
                noter_echec(magasin, operation.id, texte.as_str());
                clore(magasin, operation.id);
                SuiteReprise::Fini(Ok(()))
            },
            (Reprise::Copie, Evenement::CopieLue(Ok(octets))) => {
                let c = caracteres(operation.drapeaux.as_str());
                let m = decouper_mots(c.as_slice());
                let message = MessageComplet {
                    drapeaux: chaines(&m),
                    date_interne: operation.date_interne.clone(),
                    octets,
                };
                SuiteReprise::Demander(
                    Reprise::Depot,
                    Action::Deposer { chemin: operation.chemin_cible.clone(), message },
                )
            },
            (Reprise::Depot, Evenement::Depot(Err(x))) => SuiteReprise::Fini(Err(Echec::Imap(x))),
            (Reprise::Depot, Evenement::Depot(Ok(_))) => entamer_purge(magasin, operation),
            (Reprise::Selection, Evenement::Selection(Err(x))) => SuiteReprise::Fini(
                Err(Echec::Imap(x)),
            ),
            (Reprise::Selection, Evenement::Selection(Ok(v))) => {
                if v.etat.uid_validity != operation.validite_source {
                    noter_echec(magasin, operation.id, "UIDVALIDITY de la source changée");
                    clore(magasin, operation.id);
                    return SuiteReprise::Demander(
                        Reprise::Abandon,
                        Action::Effacer(operation.fichier.clone()),
                    );
                }
                match magasin.dossier_id(
                    operation.compte_source,
                    operation.chemin_source.as_str(),
                ) {
                    Err(e) => SuiteReprise::Fini(Err(Echec::Index(e))),
                    Ok(id) => SuiteReprise::Demander(
                        Reprise::Suppression(id),
                        Action::Supprimer(operation.uid_source),
                    ),
                }
            },
            (Reprise::Suppression(_), Evenement::Suppression(Err(x))) => {
                let texte = x.texte();
                noter_echec(magasin, operation.id, texte.as_str());
                SuiteReprise::Fini(Err(Echec::Imap(x)))
            },
            (Reprise::Suppression(id), Evenement::Suppression(Ok(()))) => {
                retirer_un(magasin, id, operation.uid_source);
                clore(magasin, operation.id);
                SuiteReprise::Demander(
                    Reprise::Effacement(id),
                    Action::Effacer(operation.fichier.clone()),
                )
            },
            (Reprise::Effacement(id), Evenement::Effacement) => match magasin.recompter(id) {
                Err(e) => SuiteReprise::Fini(Err(Echec::Index(e))),
                Ok(()) => SuiteReprise::Fini(Ok(())),
            },
            (Reprise::Abandon, Evenement::Effacement) => SuiteReprise::Fini(Ok(())),
            _ => SuiteReprise::Fini(Err(erreur_inattendue())),
        }
    }
}

// ------------------------------------------------------------------------------ laws

/// Whether a move is registered at a step.
pub open spec fn inscrite(m: MagasinVue, id: i64, etape: Etape) -> bool {
    exists|i: int|
        0 <= i < m.operations.len() && (#[trigger] m.operations[i]).id == id && m.operations[i].etape
            == etape
}

/// A transfer puts a message in the target only once it was read, copied to a file,
/// and registered as a move of this message at the step "to deposit", with this
/// file.
pub proof fn loi_depot_apres_inscription(m: MagasinVue, s: TransfertVue, e: EvenementVue)
    ensures
        pas_transfert(m, s, e).1 matches SuiteVue::Demander(t, ActionVue::Deposer(c, v)) ==> ({
            let n = pas_transfert(m, s, e).0;
            let o = n.operations.last();
            &&& e matches EvenementVue::Copie(Ok(f)) && o.fichier == f
            &&& s.phase matches PhaseVue::Copie(w, _) && w == v
            &&& c == s.cible
            &&& n.operations.len() == m.operations.len() + 1
            &&& o.etape == Etape::Deposer
            &&& o.uid_source == s.uids[s.rang]
            &&& o.chemin_source == s.source
            &&& o.compte_cible == s.compte_cible
            &&& o.chemin_cible == s.cible
            &&& t.phase == PhaseVue::Depot(o.id, o.fichier)
        }),
{
}

/// A transfer removes a message from the source only right after the target accepted
/// its deposit; the move is then noted as to purge.
pub proof fn loi_purge_apres_depot(m: MagasinVue, s: TransfertVue, e: EvenementVue)
    requires
        s.phase matches PhaseVue::Depot(id, _) ==> inscrite(m, id, Etape::Deposer),
    ensures
        pas_transfert(m, s, e).1 matches SuiteVue::Demander(t, ActionVue::Supprimer(u)) ==> ({
            &&& e matches EvenementVue::Depot(Ok(_))
            &&& s.phase matches PhaseVue::Depot(id, f) && t.phase == PhaseVue::Suppression(id, f)
                && inscrite(pas_transfert(m, s, e).0, id, Etape::Purger)
            &&& u == s.uids[s.rang]
        }),
{
    if let PhaseVue::Depot(id, f) = s.phase {
        if let EvenementVue::Depot(Ok(x)) = e {
            let i = choose|i: int|
                0 <= i < m.operations.len() && (#[trigger] m.operations[i]).id == id
                    && m.operations[i].etape == Etape::Deposer;
            let n = pas_transfert(m, s, e).0;
            assert(n.operations[i] == operation_avancee(id, Etape::Purger)(m.operations[i]));
            assert(n.operations[i].id == id && n.operations[i].etape == Etape::Purger);
        }
    }
}

/// A registered move leaves the queue only when its message is removed from the
/// source, or when the target frankly refused it: no interruption forgets it.
pub proof fn loi_operation_gardee(m: MagasinVue, s: TransfertVue, e: EvenementVue, i: int)
    requires
        0 <= i < m.operations.len(),
        !(s.phase is Suppression && (e matches EvenementVue::Suppression(Ok(_)))),
        !(s.phase is Depot && (e matches EvenementVue::Depot(Err(x)) && !(x is Reseau))),
    ensures
        ({
            let n = pas_transfert(m, s, e).0;
            &&& n.operations.len() >= m.operations.len()
            &&& n.operations[i].id == m.operations[i].id
            &&& n.operations[i].uid_source == m.operations[i].uid_source
            &&& n.operations[i].fichier == m.operations[i].fichier
            &&& n.operations[i].message_id == m.operations[i].message_id
        }),
{
}

/// A deposit whose fate is not known leaves its move at the step "to deposit": the
/// resumption will find out.
pub proof fn loi_depot_incertain(
    m: MagasinVue,
    s: TransfertVue,
    x: ErreurVue,
    id: i64,
    f: Seq<char>,
)
    requires
        s.phase == PhaseVue::Depot(id, f),
        x is Reseau,
        inscrite(m, id, Etape::Deposer),
    ensures
        inscrite(
            pas_transfert(m, s, EvenementVue::Depot(Err(x))).0,
            id,
            Etape::Deposer,
        ),
        pas_transfert(m, s, EvenementVue::Depot(Err(x))).1 == SuiteVue::Fini(
            Err(EchecVue::Imap(x)),
        ),
{
    let i = choose|i: int|
        0 <= i < m.operations.len() && (#[trigger] m.operations[i]).id == id
            && m.operations[i].etape == Etape::Deposer;
    let n = pas_transfert(m, s, EvenementVue::Depot(Err(x))).0;
    assert(n.operations[i] == operation_en_echec(id, texte_erreur(x))(m.operations[i]));
    assert(n.operations[i].id == id && n.operations[i].etape == Etape::Deposer);
}

/// A resumption puts a message in the target only where it has no `Message-ID` to be
/// found by, or was searched for and not found, and its copy was read: there is no
/// duplicate of a message that can be told.
pub proof fn loi_reprise_sans_doublon(m: MagasinVue, o: OperationVue, s: Reprise, e: EvenementVue)
    ensures
        pas_reprise(m, o, s, e).1 matches SuiteRepriseVue::Demander(
            _,
            ActionVue::Deposer(c, v),
        ) ==> s == Reprise::Copie && (e matches EvenementVue::CopieLue(Ok(x)) && v.octets == x)
            && c == o.chemin_cible,
        pas_reprise(m, o, s, e).1 matches SuiteRepriseVue::Demander(Reprise::Copie, _) ==> s
            == Reprise::Recherche && (e matches EvenementVue::Recherche(Ok(v)) && v.len() == 0),
        reprise_entamee(o) matches SuiteRepriseVue::Demander(Reprise::Copie, _) ==> o.etape
            == Etape::Deposer && o.message_id.len() == 0,
        reprise_entamee(o) matches SuiteRepriseVue::Demander(_, a) ==> !(a is Deposer),
{
}

/// What a resumption puts in the target is what was read at the source: the same
/// bytes, under the same flags and the same date of reception.
pub proof fn loi_reprise_fidele(
    lue: ReponseVue,
    s: TransfertVue,
    v: MessageCompletVue,
    message_id: Seq<char>,
    fichier: Seq<char>,
    m: MagasinVue,
    o: OperationVue,
)
    requires
        message_lu(lue, s.uids[s.rang]) == Some(v),
        o == (OperationVue {
            id: o.id,
            etape: o.etape,
            erreur: o.erreur,
            ..operation_de(s, v, message_id, fichier)
        }),
    ensures
        pas_reprise(m, o, Reprise::Copie, EvenementVue::CopieLue(Ok(v.octets))).1
            == SuiteRepriseVue::Demander(Reprise::Depot, ActionVue::Deposer(s.cible, v)),
{
    let entetes = entetes_de(lue.texte, lue.litteraux);
    let p = entier_de(s.uids[s.rang]);
    lemme_premier(entetes, p);
    let e = premier(entetes, p)->0;
    let i = choose|i: int| 0 <= i < entetes.len() && entetes[i] == e;
    let f = lecteur_fetch(lue.litteraux);
    lignes(lue.texte).lemma_filter_map_contains(f, e);
    let l = choose|l: Seq<char>| lignes(lue.texte).contains(l) && f(l) == Some(e);
    assert(entete_de_ligne(l, lue.litteraux) == Some(e));
    let reste = apres_premier(sans_blancs(l), " FETCH "@)->0;
    let (corps, _) = groupe(reste)->0;
    assert(v.drapeaux == drapeaux_de(corps));
    if let Some(r) = apres_premier(corps, "FLAGS "@) {
        if let Some((g, _)) = groupe(r) {
            lemme_mots(g);
        }
    }
    loi_mots_joints(v.drapeaux);
}

/// Whether every row of a move is at the step "to purge".
pub open spec fn a_purger(m: MagasinVue, id: i64) -> bool {
    forall|i: int|
        0 <= i < m.operations.len() && (#[trigger] m.operations[i]).id == id
            ==> m.operations[i].etape == Etape::Purger
}

/// Whether the queue agrees with the step of a resumption: past the deposit, the
/// move is at the step "to purge".
pub open spec fn reprise_accordee(m: MagasinVue, o: OperationVue, s: Reprise) -> bool {
    (s == Reprise::Selection || s is Suppression) ==> a_purger(m, o.id)
}

/// A resumption starts in agreement with the queue that the move was read from.
pub proof fn loi_reprise_entamee(m: MagasinVue, o: OperationVue)
    requires
        forall|i: int|
            0 <= i < m.operations.len() && (#[trigger] m.operations[i]).id == o.id
                ==> m.operations[i].etape == o.etape,
    ensures
        reprise_entamee(o) matches SuiteRepriseVue::Demander(s, _) ==> reprise_accordee(m, o, s),
{
}

/// A resumption keeps the agreement with the queue, and removes a message from the
/// source only once its deposit is confirmed, if the UID still designates it.
pub proof fn loi_reprise_purge(m: MagasinVue, o: OperationVue, s: Reprise, e: EvenementVue)
    requires
        reprise_accordee(m, o, s),
    ensures
        pas_reprise(m, o, s, e).1 matches SuiteRepriseVue::Demander(t, _) ==> reprise_accordee(
            pas_reprise(m, o, s, e).0,
            o,
            t,
        ),
        pas_reprise(m, o, s, e).1 matches SuiteRepriseVue::Demander(
            _,
            ActionVue::Supprimer(u),
        ) ==> u == o.uid_source && a_purger(m, o.id) && (e matches EvenementVue::Selection(Ok(v))
            && v.etat.uid_validity == o.validite_source),
{
    let n = operation_a_purger(m, o.id);
    assert(a_purger(n, o.id)) by {
        assert forall|i: int|
            0 <= i < n.operations.len() && (#[trigger] n.operations[i]).id == o.id implies n.operations[i].etape
            == Etape::Purger by {
            assert(n.operations[i] == operation_avancee(o.id, Etape::Purger)(m.operations[i]));
        }
    }
}

/// A moment of a transfer: the index then, the transfer, what it had asked for, and
/// what came of it.
pub struct Moment {
    pub magasin: MagasinVue,
    pub transfert: TransfertVue,
    pub demande: ActionVue,
    pub evenement: EvenementVue,
}

/// Whether moments follow each other in a transfer from its start. Between two of
/// them the index may change.
pub open spec fn deroulement(v: Seq<Moment>) -> bool {
    &&& v.len() > 0 ==> v[0].transfert.phase is Atelier && v[0].demande is CreerAtelier
    &&& forall|k: int|
        0 <= k < v.len() - 1 ==> pas_transfert(
            (#[trigger] v[k]).magasin,
            v[k].transfert,
            v[k].evenement,
        ).1 == SuiteVue::Demander(v[k + 1].transfert, v[k + 1].demande)
}

/// No run of a transfer loses a message: whenever it asks for the removal of a
/// message from the source, this very message was read, its bytes were copied to a
/// file, and the target accepted them.
pub proof fn loi_jamais_de_perte(v: Seq<Moment>, k: int, uid: u32)
    requires
        deroulement(v),
        0 <= k < v.len(),
        v[k].demande == ActionVue::Supprimer(uid),
    ensures
        k >= 3,
        v[k - 3].demande == ActionVue::Lire(uid),
        v[k - 3].evenement matches EvenementVue::Message(Ok(Some(_))),
        v[k - 3].evenement matches EvenementVue::Message(Ok(Some(m))) ==> {
            &&& v[k - 2].demande == ActionVue::Copier(
                nom_copie(
                    v[k].transfert.compte_source,
                    v[k].transfert.validite,
                    uid,
                ),
                m.octets,
            )
            &&& v[k - 2].evenement is Copie
            &&& v[k - 2].evenement->Copie_0 is Ok
            &&& v[k - 1].demande == ActionVue::Deposer(v[k].transfert.cible, m)
            &&& v[k - 1].evenement is Depot
            &&& v[k - 1].evenement->Depot_0 is Ok
        },
{
    lemme_phases(v, k);
    let a = v[k - 1];
    assert(pas_transfert(a.magasin, a.transfert, a.evenement).1 == SuiteVue::Demander(
        v[k].transfert,
        v[k].demande,
    ));
    assert(a.transfert.phase is Depot);
    lemme_phases(v, k - 1);
    let b = v[k - 2];
    assert(pas_transfert(b.magasin, b.transfert, b.evenement).1 == SuiteVue::Demander(
        v[k - 1].transfert,
        v[k - 1].demande,
    ));
    assert(b.transfert.phase is Copie);
    lemme_phases(v, k - 2);
    let c = v[k - 3];
    assert(pas_transfert(c.magasin, c.transfert, c.evenement).1 == SuiteVue::Demander(
        v[k - 2].transfert,
        v[k - 2].demande,
    ));
    assert(c.transfert.phase is Lecture);
    lemme_phases(v, k - 3);
}

/// What a transfer asks for is what its phase awaits.
proof fn lemme_phases(v: Seq<Moment>, k: int)
    requires
        deroulement(v),
        0 <= k < v.len(),
    ensures
        v[k].demande is CreerAtelier <==> v[k].transfert.phase is Atelier,
        v[k].demande is Lire <==> v[k].transfert.phase is Lecture,
        v[k].demande is Copier <==> v[k].transfert.phase is Copie,
        v[k].demande is Deposer <==> v[k].transfert.phase is Depot,
        v[k].demande is Supprimer <==> v[k].transfert.phase is Suppression,
        v[k].transfert.phase is Lecture ==> v[k].demande == ActionVue::Lire(
            v[k].transfert.uids[v[k].transfert.rang],
        ),
        k == 0 ==> v[k].transfert.phase is Atelier,
    decreases k,
{
    if k > 0 {
        lemme_phases(v, k - 1);
        let a = v[k - 1];
        assert(pas_transfert(a.magasin, a.transfert, a.evenement).1 == SuiteVue::Demander(
            v[k].transfert,
            v[k].demande,
        ));
    }
}

/// How many messages a report accounts for.
pub open spec fn total(r: RapportVue) -> int {
    r.deplaces + r.absents + r.erreurs.len()
}

/// Whether the report of a transfer accounts for the messages that it is done with.
pub open spec fn compte_tenu(s: TransfertVue) -> bool {
    &&& 0 <= s.rang < s.uids.len()
    &&& total(s.rapport) == if s.phase is Effacement {
        s.rang + 1
    } else {
        s.rang
    }
}

/// Whether nothing but a transfer changes the queue of moves in progress.
pub open spec fn file_suivie(v: Seq<Moment>) -> bool {
    forall|k: int|
        0 <= k < v.len() - 1 ==> pas_transfert(
            (#[trigger] v[k]).magasin,
            v[k].transfert,
            v[k].evenement,
        ).0.operations == v[k + 1].magasin.operations
}

/// Whether the queue is as it was before a transfer, but for the move of the message
/// it is at.
pub open spec fn file_tenue(avant: Seq<OperationVue>, m: MagasinVue, s: TransfertVue) -> bool {
    match s.phase {
        PhaseVue::Depot(id, _) => une_de_plus(avant, m.operations, id),
        PhaseVue::Suppression(id, _) => une_de_plus(avant, m.operations, id),
        _ => m.operations == avant,
    }
}

/// Whether a queue has one move more, under a new identifier.
pub open spec fn une_de_plus(avant: Seq<OperationVue>, apres: Seq<OperationVue>, id: i64) -> bool {
    &&& apres.len() == avant.len() + 1
    &&& apres.drop_last() == avant
    &&& apres.last().id == id
    &&& forall|i: int| 0 <= i < avant.len() ==> (#[trigger] avant[i]).id != id
}

/// A whole transfer that succeeds accounts for each message that was asked for: moved,
/// gone before it was read, or refused by the target. And it leaves no move in the
/// queue, which is as it was.
pub proof fn loi_transfert_entier(
    compte_source: i64,
    source: Seq<char>,
    uids: Seq<u32>,
    compte_cible: i64,
    cible: Seq<char>,
    atelier: Seq<char>,
    v: Seq<Moment>,
    rapport: RapportVue,
)
    requires
        uids.len() <= usize::MAX,
        if v.len() == 0 {
            transfert_entame(compte_source, source, uids, compte_cible, cible, atelier)
                == SuiteVue::Fini(Ok(rapport))
        } else {
            &&& transfert_entame(compte_source, source, uids, compte_cible, cible, atelier)
                == SuiteVue::Demander(v[0].transfert, v[0].demande)
            &&& deroulement(v)
            &&& pas_transfert(
                v.last().magasin,
                v.last().transfert,
                v.last().evenement,
            ).1 == SuiteVue::Fini(Ok(rapport))
        },
    ensures
        total(rapport) == uids.len(),
        v.len() > 0 && file_suivie(v) ==> pas_transfert(
            v.last().magasin,
            v.last().transfert,
            v.last().evenement,
        ).0.operations == v[0].magasin.operations,
{
    if v.len() > 0 {
        let k = v.len() - 1;
        lemme_compte_tenu(v, uids, k);
        assert(v[k] == v.last());
        if file_suivie(v) {
            lemme_file_tenue(v, k);
        }
    }
}

/// A step of a transfer keeps the account of the messages.
proof fn lemme_pas_compte(m: MagasinVue, s: TransfertVue, e: EvenementVue)
    requires
        compte_tenu(s),
        s.uids.len() <= usize::MAX,
    ensures
        pas_transfert(m, s, e).1 matches SuiteVue::Demander(t, _) ==> compte_tenu(t) && t.uids
            == s.uids,
        pas_transfert(m, s, e).1 matches SuiteVue::Fini(Ok(r)) ==> total(r) == s.uids.len(),
{
}

proof fn lemme_compte_tenu(v: Seq<Moment>, uids: Seq<u32>, k: int)
    requires
        deroulement(v),
        0 <= k < v.len(),
        v[0].transfert.uids == uids,
        v[0].transfert.rang == 0,
        v[0].transfert.rapport == rapport_vide(),
        0 < uids.len() <= usize::MAX,
    ensures
        compte_tenu(v[k].transfert),
        v[k].transfert.uids == uids,
        pas_transfert(v[k].magasin, v[k].transfert, v[k].evenement).1 matches SuiteVue::Fini(Ok(r))
            ==> total(r) == uids.len(),
    decreases k,
{
    if k > 0 {
        lemme_compte_tenu(v, uids, k - 1);
        lemme_pas_compte(v[k - 1].magasin, v[k - 1].transfert, v[k - 1].evenement);
    }
    lemme_pas_compte(v[k].magasin, v[k].transfert, v[k].evenement);
}

/// A step of a transfer keeps the queue.
proof fn lemme_pas_file(avant: Seq<OperationVue>, m: MagasinVue, s: TransfertVue, e: EvenementVue)
    requires
        file_tenue(avant, m, s),
    ensures
        pas_transfert(m, s, e).1 matches SuiteVue::Demander(t, _) ==> file_tenue(
            avant,
            pas_transfert(m, s, e).0,
            t,
        ),
        pas_transfert(m, s, e).1 matches SuiteVue::Fini(Ok(_)) ==> pas_transfert(
            m,
            s,
            e,
        ).0.operations == avant,
{
    let n = pas_transfert(m, s, e).0;
    match (s.phase, e) {
        (PhaseVue::Copie(w, i), EvenementVue::Copie(Ok(f))) => {
            lemme_plus_grand(ids_operations(avant));
            assert forall|k: int| 0 <= k < avant.len() implies (#[trigger] avant[k]).id < suivant(
                ids_operations(avant),
            ) by {
                assert(ids_operations(avant)[k] == avant[k].id);
            }
            if let Ok((o, id)) = operation_inscrite(m, operation_de(s, w, i, f)) {
                assert(o.operations.drop_last() =~= avant);
            }
        },
        (PhaseVue::Depot(id, _), EvenementVue::Depot(Ok(_))) => {
            assert forall|k: int| 0 <= k < avant.len() implies n.operations[k] == avant[k] by {
                assert(m.operations.drop_last()[k] == m.operations[k]);
            }
            assert(n.operations.drop_last() =~= avant);
        },
        (PhaseVue::Depot(id, _), EvenementVue::Depot(Err(x))) => {
            if !(x is Reseau) {
                lemme_derniere_close(avant, m.operations, id);
            }
        },
        (PhaseVue::Suppression(id, _), EvenementVue::Suppression(Ok(_))) => {
            lemme_derniere_close(avant, m.operations, id);
        },
        _ => {},
    }
}

/// Settling the move that was added last gives the queue back.
proof fn lemme_derniere_close(avant: Seq<OperationVue>, apres: Seq<OperationVue>, id: i64)
    requires
        une_de_plus(avant, apres, id),
    ensures
        sans(apres, |o: OperationVue| o.id == id) == avant,
{
    let p = |o: OperationVue| !(|o: OperationVue| o.id == id)(o);
    reveal(Seq::filter);
    assert(apres.filter(p) == apres.drop_last().filter(p));
    lemme_tout_garde(avant, p);
}

/// A selection that keeps every row changes nothing.
proof fn lemme_tout_garde<A>(s: Seq<A>, p: spec_fn(A) -> bool)
    requires
        forall|i: int| 0 <= i < s.len() ==> p(#[trigger] s[i]),
    ensures
        s.filter(p) == s,
    decreases s.len(),
{
    reveal(Seq::filter);
    if s.len() > 0 {
        let t = s.drop_last();
        assert forall|i: int| 0 <= i < t.len() implies p(#[trigger] t[i]) by {
            assert(t[i] == s[i]);
        }
        lemme_tout_garde(t, p);
        assert(p(s[s.len() - 1]));
        assert(s =~= t.push(s.last()));
    }
}

proof fn lemme_file_tenue(v: Seq<Moment>, k: int)
    requires
        deroulement(v),
        file_suivie(v),
        0 <= k < v.len(),
    ensures
        file_tenue(v[0].magasin.operations, v[k].magasin, v[k].transfert),
        pas_transfert(v[k].magasin, v[k].transfert, v[k].evenement).1 matches SuiteVue::Fini(Ok(_))
            ==> pas_transfert(v[k].magasin, v[k].transfert, v[k].evenement).0.operations
            == v[0].magasin.operations,
    decreases k,
{
    let avant = v[0].magasin.operations;
    if k > 0 {
        lemme_file_tenue(v, k - 1);
        lemme_pas_file(avant, v[k - 1].magasin, v[k - 1].transfert, v[k - 1].evenement);
    }
    lemme_pas_file(avant, v[k].magasin, v[k].transfert, v[k].evenement);
}

// ------------------------------------------------------------------- copies and rows

/// A number in decimal ends where something else follows.
pub proof fn lemme_chiffres_coupes(a: Seq<char>, x: Seq<char>, b: Seq<char>, y: Seq<char>)
    requires
        forall|i: int| 0 <= i < a.len() ==> '0' <= #[trigger] a[i] <= '9',
        forall|i: int| 0 <= i < b.len() ==> '0' <= #[trigger] b[i] <= '9',
        x.len() > 0 && !('0' <= x[0] <= '9'),
        y.len() > 0 && !('0' <= y[0] <= '9'),
        a + x == b + y,
    ensures
        a == b,
        x == y,
{
    let s = a + x;
    let t = b + y;
    assert(s[a.len() as int] == x[0]);
    assert(t[b.len() as int] == y[0]);
    if a.len() < b.len() {
        assert(t[a.len() as int] == b[a.len() as int]);
        assert(false);
    }
    if b.len() < a.len() {
        assert(s[b.len() as int] == a[b.len() as int]);
        assert(false);
    }
    assert(a =~= s.subrange(0, a.len() as int));
    assert(b =~= t.subrange(0, b.len() as int));
    assert(x =~= s.subrange(a.len() as int, s.len() as int));
    assert(y =~= t.subrange(b.len() as int, t.len() as int));
}

/// The three numbers of the name of a copy, each set apart with what follows it.
proof fn lemme_nom_copie(p: Seq<char>, q: Seq<char>, r: Seq<char>)
    ensures
        p + "-"@ + q + "-"@ + r + ".eml"@ == p + ("-"@ + (q + ("-"@ + (r + ".eml"@)))),
        ("-"@ + (q + ("-"@ + (r + ".eml"@)))).drop_first() == q + ("-"@ + (r + ".eml"@)),
        ("-"@ + (q + ("-"@ + (r + ".eml"@))))[0] == '-',
        ("-"@ + (r + ".eml"@)).drop_first() == r + ".eml"@,
        ("-"@ + (r + ".eml"@))[0] == '-',
{
    reveal_strlit("-");
    reveal_strlit(".eml");
    assert(p + "-"@ + q + "-"@ + r + ".eml"@ =~= p + ("-"@ + (q + ("-"@ + (r + ".eml"@)))));
    assert(("-"@ + (q + ("-"@ + (r + ".eml"@)))).drop_first() =~= q + ("-"@ + (r + ".eml"@)));
    assert(("-"@ + (r + ".eml"@)).drop_first() =~= r + ".eml"@);
}

/// The copies of two messages never have the same name: no copy overwrites another
/// one. Accounts have positive identifiers.
#[verifier::spinoff_prover]
#[verifier::rlimit(60)]
pub proof fn loi_copies_distinctes(a: (i64, u32, u32), b: (i64, u32, u32))
    requires
        a.0 >= 0,
        b.0 >= 0,
        nom_copie(a.0, a.1, a.2) == nom_copie(b.0, b.1, b.2),
    ensures
        a == b,
{
    lemme_decimal(a.0 as nat);
    lemme_decimal(a.1 as nat);
    lemme_decimal(a.2 as nat);
    lemme_decimal(b.0 as nat);
    lemme_decimal(b.1 as nat);
    lemme_decimal(b.2 as nat);
    let a0 = decimal(a.0 as nat);
    let a1 = decimal(a.1 as nat);
    let a2 = decimal(a.2 as nat);
    let b0 = decimal(b.0 as nat);
    let b1 = decimal(b.1 as nat);
    let b2 = decimal(b.2 as nat);
    lemme_nom_copie(a0, a1, a2);
    lemme_nom_copie(b0, b1, b2);
    let ya = "-"@ + (a2 + ".eml"@);
    let yb = "-"@ + (b2 + ".eml"@);
    lemme_chiffres_coupes(a0, "-"@ + (a1 + ya), b0, "-"@ + (b1 + yb));
    lemme_chiffres_coupes(a1, ya, b1, yb);
    assert(".eml"@.len() > 0 && ".eml"@[0] == '.') by {
        reveal_strlit(".eml");
    }
    lemme_chiffres_coupes(a2, ".eml"@, b2, ".eml"@);
}

/// A move is registered with all that its resumption needs: where the message is and
/// where it goes, its `Message-ID` (the one that the index knows, else the one in its
/// bytes), its flags, its date of reception and its copy. No other move changes.
pub proof fn loi_operation_complete(
    m: MagasinVue,
    s: TransfertVue,
    v: MessageCompletVue,
    w: TransfertVue,
    f: Seq<char>,
)
    requires
        s.phase is Lecture,
        pas_transfert(m, s, EvenementVue::Message(Ok(Some(v)))).1 matches SuiteVue::Demander(t, _)
            && t == w,
        pas_transfert(m, w, EvenementVue::Copie(Ok(f))).1 is Demander,
    ensures
        ({
            let uid = s.uids[s.rang];
            let n = pas_transfert(m, w, EvenementVue::Copie(Ok(f))).0;
            let o = n.operations.last();
            &&& n.operations.drop_last() == m.operations
            &&& n.messages == m.messages && n.dossiers == m.dossiers && n.comptes == m.comptes
            &&& o.compte_source == s.compte_source && o.chemin_source == s.source
            &&& o.validite_source == s.validite && o.uid_source == uid
            &&& o.compte_cible == s.compte_cible && o.chemin_cible == s.cible
            &&& o.drapeaux == jointure(v.drapeaux, " "@) && o.date_interne == v.date_interne
            &&& o.fichier == f
            &&& forall|i: int|
                0 <= i < m.messages.len() && (#[trigger] m.messages[i]).dossier == s.id_source
                    && m.messages[i].message.uid == uid && m.messages[i].message.message_id.len() > 0
                    && (forall|j: int|
                    0 <= j < m.messages.len() && (#[trigger] m.messages[j]).dossier == s.id_source
                        && m.messages[j].message.uid == uid ==> j == i) ==> o.message_id
                    == m.messages[i].message.message_id
            &&& (forall|i: int|
                0 <= i < m.messages.len() && (#[trigger] m.messages[i]).dossier == s.id_source
                    ==> m.messages[i].message.uid != uid) ==> o.message_id == identifiant(
                identifiant_du_brut(v.octets),
            )
        }),
{
    let uid = s.uids[s.rang];
    let n = pas_transfert(m, w, EvenementVue::Copie(Ok(f))).0;
    assert(n.operations.drop_last() =~= m.operations);
    let p = |l: LigneVue| l.dossier == s.id_source && l.message.uid == uid;
    lemme_premier(m.messages, p);
    assert forall|i: int|
        0 <= i < m.messages.len() && (#[trigger] m.messages[i]).dossier == s.id_source
            && m.messages[i].message.uid == uid && m.messages[i].message.message_id.len() > 0 && (
        forall|j: int|
            0 <= j < m.messages.len() && (#[trigger] m.messages[j]).dossier == s.id_source
                && m.messages[j].message.uid == uid ==> j
                == i) implies n.operations.last().message_id == m.messages[i].message.message_id by {
        assert(p(m.messages[i]));
        let l = premier(m.messages, p)->0;
        let j = choose|j: int| 0 <= j < m.messages.len() && m.messages[j] == l;
        assert(m.messages[j].dossier == s.id_source && m.messages[j].message.uid == uid);
        assert(j == i);
    }
    if forall|i: int|
        0 <= i < m.messages.len() && (#[trigger] m.messages[i]).dossier == s.id_source
            ==> m.messages[i].message.uid != uid {
        if let Some(l) = premier(m.messages, p) {
            let j = choose|j: int| 0 <= j < m.messages.len() && m.messages[j] == l;
            assert(m.messages[j].dossier == s.id_source);
        }
    }
}

/// Rows that leave a folder are those of some messages, and no other.
proof fn lemme_lignes_retirees(m: MagasinVue, id: i64, uids: Seq<u32>, l: LigneVue)
    ensures
        sans_messages(m, id, uids).messages.contains(l) <==> m.messages.contains(l) && !(l.dossier
            == id && uids.contains(l.message.uid)),
        sans_messages(m, id, uids).comptes == m.comptes,
        sans_messages(m, id, uids).dossiers == m.dossiers,
        sans_messages(m, id, uids).operations == m.operations,
{
    let t = m.messages;
    let p = dans_uids(id, uids);
    let q = |x: LigneVue| !p(x);
    let r = sans_messages(m, id, uids).messages;
    if r.contains(l) {
        t.lemma_filter_contains_rev(q, l);
        let i = choose|i: int| 0 <= i < r.len() && r[i] == l;
        t.lemma_filter_pred(q, i);
    }
    if t.contains(l) && q(l) {
        let i = choose|i: int| 0 <= i < t.len() && t[i] == l;
        t.lemma_filter_contains(q, i);
    }
}

/// A message that was moved to another account, and one that was gone before it was
/// read, leaves the folder it was in, and no other row leaves the index.
pub proof fn loi_ligne_retiree(m: MagasinVue, s: TransfertVue, l: LigneVue)
    requires
        0 <= s.rang < s.uids.len(),
    ensures
        s.phase is Suppression ==> (pas_transfert(
            m,
            s,
            EvenementVue::Suppression(Ok(())),
        ).0.messages.contains(l) <==> m.messages.contains(l) && !(l.dossier == s.id_source
            && l.message.uid == s.uids[s.rang])),
        s.phase is Lecture ==> (pas_transfert(
            m,
            s,
            EvenementVue::Message(Ok(None)),
        ).0.messages.contains(l) <==> m.messages.contains(l) && !(l.dossier == s.id_source
            && l.message.uid == s.uids[s.rang])),
{
    let uid = s.uids[s.rang];
    lemme_lignes_retirees(m, s.id_source, seq![uid], l);
    assert(seq![uid][0] == uid);
    assert(seq![uid].contains(l.message.uid) <==> l.message.uid == uid);
}

/// Messages moved within an account leave the folder that they were in, these and no
/// other, and are reported; where the server failed, the index is as it was and the
/// failure is told; a move to the folder itself or of no message does nothing.
pub proof fn loi_deplacement_interne(
    m: MagasinVue,
    compte: i64,
    source: Seq<char>,
    uids: Seq<u32>,
    cible: Seq<char>,
    deplace: Result<(), ErreurVue>,
    l: LigneVue,
)
    ensures
        ({
            let (n, r) = deplacement_interne(m, compte, source, uids, cible, deplace);
            &&& source == cible || uids.len() == 0 ==> n == m && r == Ok::<RapportVue, EchecVue>(
                RapportVue { deplaces: 0, absents: 0, erreurs: Seq::empty() },
            )
            &&& source != cible && uids.len() > 0 && deplace is Err ==> n == m && r == Err::<
                RapportVue,
                EchecVue,
            >(EchecVue::Imap(deplace->Err_0))
            &&& r is Ok && source != cible && uids.len() > 0 ==> {
                &&& deplace is Ok
                &&& r->Ok_0.deplaces == uids.len() as usize && r->Ok_0.erreurs.len() == 0
                &&& dossier_en(m.dossiers, compte, source) matches Some(d) && (n.messages.contains(
                    l,
                ) <==> m.messages.contains(l) && !(l.dossier == d.id && uids.contains(
                    l.message.uid,
                )))
            }
        }),
{
    if let Some(d) = dossier_en(m.dossiers, compte, source) {
        lemme_lignes_retirees(m, d.id, uids, l);
    }
}

/// A transfer opens the folder that the messages leave, notes the validity of its UIDs as
/// the server announces it, and starts with the first message. A message that the target
/// refuses stays where it is, and counts as an error; it does not stop the others.
pub proof fn loi_conduite_du_transfert(
    m: MagasinVue,
    s: TransfertVue,
    v: SelectionVue,
    x: ErreurVue,
    id: i64,
    f: Seq<char>,
)
    requires
        !(x is Reseau),
    ensures
        pas_transfert(
            m,
            TransfertVue { phase: PhaseVue::Atelier, ..s },
            EvenementVue::Atelier(Ok(())),
        ).1 matches SuiteVue::Demander(_, a) && a == ActionVue::Selectionner(s.source),
        dossier_en(m.dossiers, s.compte_source, s.source) matches Some(d) ==> (pas_transfert(
            m,
            TransfertVue { phase: PhaseVue::Selection, ..s },
            EvenementVue::Selection(Ok(v)),
        ).1 matches SuiteVue::Demander(t, a) && {
            &&& a == ActionVue::Lire(s.uids[s.rang])
            &&& t.validite == v.etat.uid_validity
            &&& t.id_source == d.id
        }),
        ({
            let (n, r) = pas_transfert(
                m,
                TransfertVue { phase: PhaseVue::Depot(id, f), ..s },
                EvenementVue::Depot(Err(x)),
            );
            &&& n.messages == m.messages && n.dossiers == m.dossiers
            &&& r matches SuiteVue::Demander(t, a) && {
                &&& a == ActionVue::Effacer(f)
                &&& t.rapport.deplaces == s.rapport.deplaces
                &&& t.rapport.absents == s.rapport.absents
                &&& t.rapport.erreurs.len() == s.rapport.erreurs.len() + 1
                &&& t.uids == s.uids && t.rang == s.rang
            }
        }),
{
}

} // verus!
