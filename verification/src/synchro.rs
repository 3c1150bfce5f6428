//! Incremental synchronisation of a folder.
//!
//! The principle: read again from the server only what has changed since the last
//! visit. The local index holds, for each folder, the `UIDVALIDITY`, the `UIDNEXT`
//! and the `HIGHESTMODSEQ` of that visit; a server that resumes it gives the UIDs
//! removed and the flags changed since, and only the headers of the messages that
//! arrived after the old `UIDNEXT` are left to read.
//!
//! Three safeguards:
//!
//! - a change of `UIDVALIDITY` empties the local folder, which is read anew;
//! - the state of the folder is noted once its messages are in: an interruption
//!   leaves the old state, and the next visit starts from the same point;
//! - the number of messages of the index is held against that of the server: a gap
//!   leads to a full reconciliation by the list of UIDs.
//!
//! The synchronisation goes from step to step: it says what to ask the server, and
//! takes the answer.

use vstd::prelude::*;

use crate::ensembles::couvre;
use crate::flux::{accoler, texte_erreur, ErreurVue};
use crate::imap::{ensemble, Client, Erreur, Resultat, Selection, SelectionVue};
use crate::index::{ligne_index, ligne_lue};
use crate::magasin::{
    clef_etrangere, contient_uid, hors_limites, refus_arborescence, trop_de_messages, vues,
    vues_drapeaux, Magasin, MessageLocal,
};
use crate::nombre::{decimal, ecrire_u64};
use crate::protocole::{
    ensemble_uid, etat_vide, vues_dossiers, vues_entetes, vues_statuts, Dossier, DossierVue,
    Entete, EnteteVue, EtatDossier, Statut, StatutVue,
};
use crate::tables::{
    apres_rupture, arborescence_posee, compteurs_poses, dans_intervalles, dans_uids, dossier_en,
    dossier_numero, drapeaux_poses, etat_pose, lemme_premier, marquage, message_en, messages_de,
    messages_poses, nombre_messages, nombre_non_lus, recompte, rupture, sans, uids_connus,
    DossierLocalVue, LigneVue, MagasinVue, MessageVue,
};
use crate::texte::{ajouter, chaine, copier, egal};

verus! {

// -------------------------------------------------------------------------- failures

/// Failure of an operation that touches both the server and the index.
#[derive(Debug)]
pub enum Echec {
    Imap(Erreur),
    Index(crate::magasin::Erreur),
}

/// What a failure holds.
pub enum EchecVue {
    Imap(ErreurVue),
    Index(Seq<char>),
}

impl View for Echec {
    type V = EchecVue;

    open spec fn view(&self) -> EchecVue {
        match self {
            Echec::Imap(e) => EchecVue::Imap(e@),
            Echec::Index(e) => EchecVue::Index(e.0@),
        }
    }
}

/// The text of a failure.
pub open spec fn texte_echec(e: EchecVue) -> Seq<char> {
    match e {
        EchecVue::Imap(e) => texte_erreur(e),
        EchecVue::Index(m) => "index local : "@ + m,
    }
}

/// Whether a failure is that of the connection.
pub open spec fn echec_reseau(e: EchecVue) -> bool {
    e matches EchecVue::Imap(ErreurVue::Reseau(_))
}

impl Echec {
    /// The text of the failure.
    pub fn texte(&self) -> (r: String)
        ensures
            r@ == texte_echec(self@),
    {
        match self {
            Echec::Imap(e) => e.texte(),
            Echec::Index(e) => accoler("index local : ", e.0.as_str()),
        }
    }

    /// True if the connection is lost: the session is then to be opened anew.
    pub fn reseau(&self) -> (r: bool)
        ensures
            r == echec_reseau(self@),
    {
        match self {
            Echec::Imap(e) => e.reseau(),
            Echec::Index(_) => false,
        }
    }
}

/// What a synchronisation did.
#[derive(Debug, Clone, Copy, PartialEq, Eq, Structural)]
pub struct Bilan {
    pub dossier_id: i64,
    pub nouveaux: usize,
    pub retires: usize,
    /// True if the folder was read as a whole: first visit, change of `UIDVALIDITY`
    /// or reconciliation.
    pub complet: bool,
}

/// What a synchronisation has done at its start.
pub open spec fn bilan_vide(dossier_id: i64) -> Bilan {
    Bilan { dossier_id, nouveaux: 0, retires: 0, complet: false }
}

impl Default for Bilan {
    fn default() -> (r: Self)
        ensures
            r == bilan_vide(0),
    {
        Bilan { dossier_id: 0, nouveaux: 0, retires: 0, complet: false }
    }
}

// ------------------------------------------------------------------------------ tree

/// The index once the tree of an account was read, and how that went.
pub open spec fn arborescence_lue(
    m: MagasinVue,
    compte: i64,
    releve: Result<(Seq<DossierVue>, Seq<StatutVue>), ErreurVue>,
) -> (MagasinVue, Result<(), EchecVue>) {
    match releve {
        Err(e) => (m, Err(EchecVue::Imap(e))),
        Ok((ds, v)) => match arborescence_posee(m, compte, ds) {
            None => (m, Err(EchecVue::Index(refus_arborescence(m, compte, ds)))),
            Some(n) => (
                MagasinVue { dossiers: compteurs_poses(n.dossiers, compte, v), ..n },
                Ok(()),
            ),
        },
    }
}

/// What a failed or successful operation holds.
pub open spec fn vue_issue(r: Result<(), Echec>) -> Result<(), EchecVue> {
    match r {
        Ok(()) => Ok(()),
        Err(e) => Err(e@),
    }
}

/// Notes the tree of an account and the counters of all its folders, as the server
/// gave them.
pub fn arborescence(
    magasin: &mut Magasin,
    compte: i64,
    releve: Resultat<(Vec<Dossier>, Vec<Statut>)>,
) -> (r: Result<(), Echec>)
    ensures
        (final(magasin)@, vue_issue(r)) == arborescence_lue(
            old(magasin)@,
            compte,
            match releve {
                Ok((d, s)) => Ok((vues_dossiers(d@), vues_statuts(s@))),
                Err(e) => Err(e@),
            },
        ),
{
    match releve {
        Err(e) => Err(Echec::Imap(e)),
        Ok((dossiers, statuts)) => {
            match magasin.poser_dossiers(compte, dossiers.as_slice()) {
                Err(e) => {
                    return Err(Echec::Index(e));
                },
                Ok(()) => {},
            }
            match magasin.poser_compteurs(compte, statuts.as_slice()) {
                Err(e) => Err(Echec::Index(e)),
                Ok(()) => Ok(()),
            }
        },
    }
}

// ------------------------------------------------------------------------- selection

/// Whether a folder is still to be selected.
pub fn assurer_selection(client: &Client, chemin: &str) -> (r: bool)
    ensures
        r == (client@.selection != Some(chemin@)),
{
    match client.selection() {
        Some(s) => !egal(s, chemin),
        None => true,
    }
}

/// The index once messages were marked on the server, and how that went.
pub open spec fn marquage_note(
    m: MagasinVue,
    compte: i64,
    chemin: Seq<char>,
    uids: Seq<u32>,
    lu: bool,
) -> (MagasinVue, Result<(), EchecVue>) {
    match dossier_en(m.dossiers, compte, chemin) {
        None => (m, Err(EchecVue::Index("Query returned no rows"@))),
        Some(d) => {
            let n = MagasinVue { messages: m.messages.map_values(marquage(d.id, uids, lu)), ..m };
            match recompte(n, d.id) {
                Some(o) => (o, Ok(())),
                None => (n, Err(EchecVue::Index(trop_de_messages()))),
            }
        },
    }
}

/// Marks messages as read or unread in the index, once the server has done it.
pub fn marquer_lu(
    magasin: &mut Magasin,
    compte: i64,
    chemin: &str,
    uids: &[u32],
    lu: bool,
    marque: Resultat<()>,
) -> (r: Result<(), Echec>)
    ensures
        (final(magasin)@, vue_issue(r)) == (match marque {
            Err(e) => (old(magasin)@, Err(EchecVue::Imap(e@))),
            Ok(()) => marquage_note(old(magasin)@, compte, chemin@, uids@, lu),
        }),
{
    match marque {
        Err(e) => Err(Echec::Imap(e)),
        Ok(()) => match magasin.dossier_id(compte, chemin) {
            Err(e) => Err(Echec::Index(e)),
            Ok(id) => match magasin.marquer_lu(id, uids, lu) {
                Err(e) => Err(Echec::Index(e)),
                Ok(()) => Ok(()),
            },
        },
    }
}

// ---------------------------------------------------------------------------- model

/// What the synchronisation asks the server.
pub enum Action {
    /// To open a folder, resuming the last visit if there was one.
    Selectionner { chemin: String, reprise: Option<(u32, u64)> },
    /// The headers of the messages of an interval of UIDs.
    Entetes(String),
    /// UID and flags of all messages.
    TousLesDrapeaux,
}

/// What the synchronisation asks the server.
pub enum ActionVue {
    Selectionner(Seq<char>, Option<(u32, u64)>),
    Entetes(Seq<char>),
    TousLesDrapeaux,
}

impl View for Action {
    type V = ActionVue;

    open spec fn view(&self) -> ActionVue {
        match self {
            Action::Selectionner { chemin, reprise } => ActionVue::Selectionner(chemin@, *reprise),
            Action::Entetes(s) => ActionVue::Entetes(s@),
            Action::TousLesDrapeaux => ActionVue::TousLesDrapeaux,
        }
    }
}

/// What the server answered.
pub enum Evenement {
    Selection(Resultat<Selection>),
    /// The lines of the index made of the headers asked for.
    Lignes(Resultat<Vec<MessageLocal>>),
    Drapeaux(Resultat<Vec<(u32, Vec<String>)>>),
}

/// What the server answered.
pub enum EvenementVue {
    Selection(Result<SelectionVue, ErreurVue>),
    Lignes(Result<Seq<MessageVue>, ErreurVue>),
    Drapeaux(Result<Seq<(u32, Seq<Seq<char>>)>, ErreurVue>),
}

impl View for Evenement {
    type V = EvenementVue;

    open spec fn view(&self) -> EvenementVue {
        match self {
            Evenement::Selection(Ok(s)) => EvenementVue::Selection(Ok(s@)),
            Evenement::Selection(Err(e)) => EvenementVue::Selection(Err(e@)),
            Evenement::Lignes(Ok(v)) => EvenementVue::Lignes(Ok(vues(v@))),
            Evenement::Lignes(Err(e)) => EvenementVue::Lignes(Err(e@)),
            Evenement::Drapeaux(Ok(v)) => EvenementVue::Drapeaux(Ok(vues_drapeaux(v@))),
            Evenement::Drapeaux(Err(e)) => EvenementVue::Drapeaux(Err(e@)),
        }
    }
}

/// What the synchronisation awaits.
pub enum Phase {
    /// The folder to be open.
    Selection,
    /// The headers of the whole folder.
    Tout,
    /// The headers of the messages from a UID on.
    Depuis(u32),
    /// UID and flags of all messages.
    Drapeaux,
    /// The headers of a packet of messages that the index lacks; those of the other
    /// UIDs are still to be asked for.
    Manquants(Vec<u32>),
}

/// What the synchronisation awaits.
pub enum PhaseVue {
    Selection,
    Tout,
    Depuis(u32),
    Drapeaux,
    Manquants(Seq<u32>),
}

impl View for Phase {
    type V = PhaseVue;

    open spec fn view(&self) -> PhaseVue {
        match self {
            Phase::Selection => PhaseVue::Selection,
            Phase::Tout => PhaseVue::Tout,
            Phase::Depuis(n) => PhaseVue::Depuis(*n),
            Phase::Drapeaux => PhaseVue::Drapeaux,
            Phase::Manquants(v) => PhaseVue::Manquants(v@),
        }
    }
}

/// A synchronisation in progress.
pub struct Synchro {
    /// The folder, and what the index knew of it at the start.
    id: i64,
    uid_validity: u32,
    uid_next: u32,
    /// What the server announced.
    etat: EtatDossier,
    bilan: Bilan,
    phase: Phase,
}

/// What a synchronisation in progress holds.
pub struct SynchroVue {
    pub id: i64,
    pub uid_validity: u32,
    pub uid_next: u32,
    pub etat: EtatDossier,
    pub bilan: Bilan,
    pub phase: PhaseVue,
}

impl View for Synchro {
    type V = SynchroVue;

    closed spec fn view(&self) -> SynchroVue {
        SynchroVue {
            id: self.id,
            uid_validity: self.uid_validity,
            uid_next: self.uid_next,
            etat: self.etat,
            bilan: self.bilan,
            phase: self.phase@,
        }
    }
}

/// What a step of the synchronisation leads to.
pub enum Suite {
    /// Something is to be asked of the server.
    Demander(Synchro, Action),
    Fini(Result<Bilan, Echec>),
}

/// What a step of the synchronisation leads to.
pub enum SuiteVue {
    Demander(SynchroVue, ActionVue),
    Fini(Result<Bilan, EchecVue>),
}

impl View for Suite {
    type V = SuiteVue;

    open spec fn view(&self) -> SuiteVue {
        match self {
            Suite::Demander(s, a) => SuiteVue::Demander(s@, a@),
            Suite::Fini(Ok(b)) => SuiteVue::Fini(Ok(*b)),
            Suite::Fini(Err(e)) => SuiteVue::Fini(Err(e@)),
        }
    }
}

/// A sum that stops at what a counter can hold.
pub open spec fn plafonne(n: int) -> usize {
    if n > usize::MAX {
        usize::MAX
    } else {
        n as usize
    }
}

/// How many UIDs some intervals cover, each counted for itself.
pub open spec fn somme_intervalles(v: Seq<(u32, u32)>) -> int
    decreases v.len(),
{
    if v.len() == 0 {
        0
    } else {
        somme_intervalles(v.drop_last()) + (if v.last().1 >= v.last().0 {
            v.last().1 - v.last().0 + 1
        } else {
            0
        })
    }
}

/// The UIDs of a list, each once, in the order of the list.
pub open spec fn distincts(v: Seq<u32>) -> Seq<u32>
    decreases v.len(),
{
    if v.len() == 0 {
        Seq::empty()
    } else {
        let r = distincts(v.drop_last());
        if r.contains(v.last()) {
            r
        } else {
            r.push(v.last())
        }
    }
}

/// The UIDs of some lines.
pub open spec fn uids_lignes(v: Seq<MessageVue>) -> Seq<u32> {
    v.map_values(|m: MessageVue| m.uid)
}

/// The UIDs of some flags.
pub open spec fn uids_drapeaux(v: Seq<(u32, Seq<Seq<char>>)>) -> Seq<u32> {
    v.map_values(|p: (u32, Seq<Seq<char>>)| p.0)
}

/// The UIDs of one list that are not in another.
pub open spec fn absents(v: Seq<u32>, w: Seq<u32>) -> Seq<u32> {
    v.filter(|u: u32| !w.contains(u))
}

/// How many UIDs are asked for at once.
pub const PAQUET: usize = 1000;

/// The first UIDs of a list, as many as are asked for at once.
pub open spec fn paquet(v: Seq<u32>) -> Seq<u32> {
    v.take(
        if v.len() < PAQUET {
            v.len() as int
        } else {
            PAQUET as int
        },
    )
}

/// The UIDs of a list after those that are asked for at once.
pub open spec fn apres_paquet(v: Seq<u32>) -> Seq<u32> {
    v.skip(
        if v.len() < PAQUET {
            v.len() as int
        } else {
            PAQUET as int
        },
    )
}

/// The index without some messages of a folder.
pub open spec fn sans_messages(m: MagasinVue, id: i64, uids: Seq<u32>) -> MagasinVue {
    MagasinVue { messages: sans(m.messages, dans_uids(id, uids)), ..m }
}

/// The index with lines put in a folder; none where the folder does not exist.
pub open spec fn avec_lignes(m: MagasinVue, id: i64, v: Seq<MessageVue>) -> Option<MagasinVue> {
    if v.len() > 0 && dossier_numero(m.dossiers, id) is None {
        None
    } else {
        Some(MagasinVue { messages: messages_poses(m.messages, id, v), ..m })
    }
}

/// What is said where lines have no folder.
pub open spec fn sans_dossier() -> SuiteVue {
    SuiteVue::Fini(Err(EchecVue::Index(clef_etrangere())))
}

/// The end of a synchronisation: the state of the folder is noted, and its messages
/// are counted.
pub open spec fn fin(m: MagasinVue, s: SynchroVue) -> (MagasinVue, SuiteVue) {
    if s.etat.highest_mod_seq > i64::MAX {
        (apres_rupture(m, s.id, s.etat), SuiteVue::Fini(Err(EchecVue::Index(hors_limites()))))
    } else {
        let n = etat_pose(m, s.id, s.etat);
        match recompte(n, s.id) {
            Some(o) => (o, SuiteVue::Fini(Ok(s.bilan))),
            None => (n, SuiteVue::Fini(Err(EchecVue::Index(trop_de_messages())))),
        }
    }
}

/// The demand for the messages that the index lacks, packet by packet, or the end
/// where it lacks none.
pub open spec fn manquants_demandes(m: MagasinVue, s: SynchroVue, v: Seq<u32>) -> (
    MagasinVue,
    SuiteVue,
) {
    if v.len() == 0 {
        fin(m, s)
    } else {
        (
            m,
            SuiteVue::Demander(
                SynchroVue { phase: PhaseVue::Manquants(apres_paquet(v)), ..s },
                ActionVue::Entetes(ensemble(paquet(v))),
            ),
        )
    }
}

/// The start of a reconciliation: the list of UIDs is asked for, unless the server
/// has no message.
pub open spec fn reconciliation(m: MagasinVue, s: SynchroVue) -> (MagasinVue, SuiteVue) {
    let t = SynchroVue { bilan: Bilan { complet: true, ..s.bilan }, ..s };
    if s.etat.messages == 0 {
        let connus = uids_connus(m.messages, s.id);
        fin(
            sans_messages(m, s.id, connus),
            SynchroVue {
                bilan: Bilan { retires: plafonne(t.bilan.retires + connus.len()), ..t.bilan },
                ..t
            },
        )
    } else {
        (
            m,
            SuiteVue::Demander(
                SynchroVue { phase: PhaseVue::Drapeaux, ..t },
                ActionVue::TousLesDrapeaux,
            ),
        )
    }
}

/// The check of the index against the server: a gap in the number of messages leads
/// to a reconciliation.
pub open spec fn controle(m: MagasinVue, s: SynchroVue) -> (MagasinVue, SuiteVue) {
    if uids_connus(m.messages, s.id).len() % 0x1_0000_0000 != s.etat.messages {
        reconciliation(m, s)
    } else {
        fin(m, s)
    }
}

/// The start of the reading of a whole folder.
pub open spec fn lecture_entiere(m: MagasinVue, s: SynchroVue) -> (MagasinVue, SuiteVue) {
    let t = SynchroVue { bilan: Bilan { complet: true, ..s.bilan }, ..s };
    if s.etat.messages == 0 {
        fin(sans_messages(m, s.id, uids_connus(m.messages, s.id)), t)
    } else {
        (
            m,
            SuiteVue::Demander(
                SynchroVue { phase: PhaseVue::Tout, ..t },
                ActionVue::Entetes("1:*"@),
            ),
        )
    }
}

/// What follows the opening of the folder.
pub open spec fn selection_recue(m: MagasinVue, s: SynchroVue, v: SelectionVue) -> (
    MagasinVue,
    SuiteVue,
) {
    let t = SynchroVue { etat: v.etat, ..s };
    if s.uid_validity != 0 && s.uid_validity != v.etat.uid_validity {
        lecture_entiere(
            etat_pose(
                m,
                s.id,
                EtatDossier { uid_validity: v.etat.uid_validity, ..etat_vide() },
            ),
            t,
        )
    } else if s.uid_validity == 0 {
        lecture_entiere(m, t)
    } else if v.reprise {
        let n = MagasinVue {
            messages: drapeaux_poses(
                sans(m.messages, dans_intervalles(s.id, v.disparus)),
                s.id,
                v.drapeaux,
            ),
            ..m
        };
        let u = SynchroVue {
            bilan: Bilan { retires: plafonne(somme_intervalles(v.disparus)), ..t.bilan },
            ..t
        };
        if v.etat.uid_next > s.uid_next {
            let depuis: u32 = if s.uid_next == 0 {
                1
            } else {
                s.uid_next
            };
            (
                n,
                SuiteVue::Demander(
                    SynchroVue { phase: PhaseVue::Depuis(depuis), ..u },
                    ActionVue::Entetes(decimal(depuis as nat) + ":*"@),
                ),
            )
        } else {
            controle(n, u)
        }
    } else {
        reconciliation(m, t)
    }
}

/// What follows lines of the index.
pub open spec fn lignes_recues(m: MagasinVue, s: SynchroVue, v: Seq<MessageVue>) -> (
    MagasinVue,
    SuiteVue,
) {
    match s.phase {
        PhaseVue::Tout => {
            let n = sans_messages(
                m,
                s.id,
                absents(uids_connus(m.messages, s.id), uids_lignes(v)),
            );
            match avec_lignes(n, s.id, v) {
                None => (n, sans_dossier()),
                Some(o) => fin(
                    o,
                    SynchroVue {
                        bilan: Bilan { nouveaux: v.len() as usize, ..s.bilan },
                        ..s
                    },
                ),
            }
        },
        PhaseVue::Depuis(depuis) => {
            // An open interval gives at least the last message, even where its UID
            // is below the start.
            let w = v.filter(|x: MessageVue| x.uid >= depuis);
            match avec_lignes(m, s.id, w) {
                None => (m, sans_dossier()),
                Some(o) => controle(
                    o,
                    SynchroVue {
                        bilan: Bilan { nouveaux: w.len() as usize, ..s.bilan },
                        ..s
                    },
                ),
            }
        },
        PhaseVue::Manquants(reste) => match avec_lignes(m, s.id, v) {
            None => (m, sans_dossier()),
            Some(o) => manquants_demandes(
                o,
                SynchroVue {
                    bilan: Bilan {
                        nouveaux: plafonne(s.bilan.nouveaux + v.len()),
                        ..s.bilan
                    },
                    ..s
                },
                reste,
            ),
        },
        _ => (m, inattendu()),
    }
}

/// What follows the flags of all messages.
pub open spec fn drapeaux_recus(m: MagasinVue, s: SynchroVue, v: Seq<(u32, Seq<Seq<char>>)>) -> (
    MagasinVue,
    SuiteVue,
) {
    match s.phase {
        PhaseVue::Drapeaux => {
            let connus = uids_connus(m.messages, s.id);
            let presents = distincts(uids_drapeaux(v));
            let perimes = absents(connus, presents);
            let n = sans_messages(m, s.id, perimes);
            manquants_demandes(
                MagasinVue { messages: drapeaux_poses(n.messages, s.id, v), ..n },
                SynchroVue {
                    bilan: Bilan {
                        retires: plafonne(s.bilan.retires + perimes.len()),
                        ..s.bilan
                    },
                    ..s
                },
                absents(presents, connus),
            )
        },
        _ => (m, inattendu()),
    }
}

/// What an answer that was not asked for leads to.
pub open spec fn inattendu() -> SuiteVue {
    SuiteVue::Fini(Err(EchecVue::Imap(ErreurVue::Protocole("réponse inattendue"@))))
}

/// One step of the synchronisation.
pub open spec fn pas_synchro(m: MagasinVue, s: SynchroVue, e: EvenementVue) -> (
    MagasinVue,
    SuiteVue,
) {
    match e {
        EvenementVue::Selection(Ok(v)) => if s.phase is Selection {
            selection_recue(m, s, v)
        } else {
            (m, inattendu())
        },
        EvenementVue::Lignes(Ok(v)) => lignes_recues(m, s, v),
        EvenementVue::Drapeaux(Ok(v)) => drapeaux_recus(m, s, v),
        EvenementVue::Selection(Err(x)) => (m, SuiteVue::Fini(Err(EchecVue::Imap(x)))),
        EvenementVue::Lignes(Err(x)) => (m, SuiteVue::Fini(Err(EchecVue::Imap(x)))),
        EvenementVue::Drapeaux(Err(x)) => (m, SuiteVue::Fini(Err(EchecVue::Imap(x)))),
    }
}

/// The start of the synchronisation of a folder.
pub open spec fn debut(m: MagasinVue, compte: i64, chemin: Seq<char>) -> SuiteVue {
    match dossier_en(m.dossiers, compte, chemin) {
        None => SuiteVue::Fini(Err(EchecVue::Index("Query returned no rows"@))),
        Some(d) => match dossier_numero(m.dossiers, d.id) {
            None => SuiteVue::Fini(Err(EchecVue::Index("dossier inconnu : "@ + chemin))),
            Some(l) => SuiteVue::Demander(
                SynchroVue {
                    id: d.id,
                    uid_validity: l.uid_validity,
                    uid_next: l.uid_next,
                    etat: etat_vide(),
                    bilan: bilan_vide(d.id),
                    phase: PhaseVue::Selection,
                },
                ActionVue::Selectionner(
                    chemin,
                    if l.uid_validity != 0 {
                        Some((l.uid_validity, l.highest_mod_seq))
                    } else {
                        None
                    },
                ),
            ),
        },
    }
}

// ------------------------------------------------------------------------------ code

/// Adds to a counter, up to what it can hold.
fn cumuler(a: usize, b: usize) -> (r: usize)
    ensures
        r == plafonne(a + b),
{
    if a > usize::MAX - b {
        usize::MAX
    } else {
        a + b
    }
}

fn sommer_intervalles(v: &Vec<(u32, u32)>) -> (r: usize)
    ensures
        r == plafonne(somme_intervalles(v@)),
{
    let mut r: usize = 0;
    for i in 0..v.len()
        invariant
            somme_intervalles(v@.take(i as int)) >= 0,
            r == plafonne(somme_intervalles(v@.take(i as int))),
    {
        proof {
            assert(v@.take(i + 1).drop_last() =~= v@.take(i as int));
        }
        let (a, b) = v[i];
        if b >= a {
            // An interval may cover one UID more than 32 bits count.
            r = cumuler(cumuler(r, (b - a) as usize), 1);
        }
    }
    assert(v@.take(v@.len() as int) =~= v@);
    r
}

fn garder_distincts(v: &Vec<(u32, Vec<String>)>) -> (r: Vec<u32>)
    ensures
        r@ == distincts(uids_drapeaux(vues_drapeaux(v@))),
{
    let ghost s = uids_drapeaux(vues_drapeaux(v@));
    let mut r: Vec<u32> = Vec::new();
    for i in 0..v.len()
        invariant
            s == uids_drapeaux(vues_drapeaux(v@)),
            r@ == distincts(s.take(i as int)),
    {
        proof {
            assert(s.take(i + 1).drop_last() =~= s.take(i as int));
            assert(s.take(i + 1).last() == v@[i as int].0);
        }
        if !contient_uid(r.as_slice(), v[i].0) {
            r.push(v[i].0);
        }
    }
    assert(s.take(s.len() as int) =~= s);
    r
}

fn garder_absents(v: &Vec<u32>, w: &Vec<u32>) -> (r: Vec<u32>)
    ensures
        r@ == absents(v@, w@),
{
    let ghost p = |u: u32| !w@.contains(u);
    let mut r: Vec<u32> = Vec::new();
    proof {
        reveal(Seq::filter);
        assert(v@.take(0).filter(p) =~= Seq::empty());
    }
    for i in 0..v.len()
        invariant
            p == (|u: u32| !w@.contains(u)),
            r@ == v@.take(i as int).filter(p),
    {
        proof {
            reveal(Seq::filter);
            assert(v@.take(i + 1).drop_last() =~= v@.take(i as int));
        }
        if !contient_uid(w.as_slice(), v[i]) {
            r.push(v[i]);
        }
    }
    assert(v@.take(v@.len() as int) =~= v@);
    r
}

fn uids_des_lignes(v: &Vec<MessageLocal>) -> (r: Vec<u32>)
    ensures
        r@ == uids_lignes(vues(v@)),
{
    let mut r: Vec<u32> = Vec::new();
    for i in 0..v.len()
        invariant
            r@ =~= uids_lignes(vues(v@)).take(i as int),
    {
        r.push(v[i].uid);
    }
    assert(uids_lignes(vues(v@)).take(v@.len() as int) =~= uids_lignes(vues(v@)));
    r
}

fn lignes_depuis(v: Vec<MessageLocal>, depuis: u32) -> (r: Vec<MessageLocal>)
    ensures
        vues(r@) == vues(v@).filter(|x: MessageVue| x.uid >= depuis),
{
    let ghost s = vues(v@);
    let ghost p = |x: MessageVue| x.uid >= depuis;
    let mut r: Vec<MessageLocal> = Vec::new();
    proof {
        reveal(Seq::filter);
        assert(s.take(0).filter(p) =~= Seq::empty());
        assert(vues(r@) =~= Seq::empty());
    }
    for x in it: v
        invariant
            s == vues(it.seq()),
            p == (|x: MessageVue| x.uid >= depuis),
            vues(r@) == s.take(it.index() as int).filter(p),
    {
        proof {
            reveal(Seq::filter);
            let i = it.index() as int;
            assert(s.take(i + 1).drop_last() =~= s.take(i));
            assert(s.take(i + 1).last() == x@);
        }
        let ghost avant = vues(r@);
        let ghost y = x@;
        if x.uid >= depuis {
            r.push(x);
            assert(vues(r@) =~= avant.push(y));
        }
    }
    assert(s.take(s.len() as int) =~= s);
    r
}

/// The line of the index that headers make.
pub open spec fn ligne_de(e: EnteteVue) -> MessageVue {
    ligne_lue(e, crate::courrier::entetes_du_brut(e.brut))
}

/// The lines of the index that headers make, as the server gave them.
pub fn lignes_des_entetes(entetes: Resultat<Vec<Entete>>) -> (r: Resultat<Vec<MessageLocal>>)
    ensures
        match entetes {
            Err(e) => r is Err && r->Err_0@ == e@,
            Ok(v) => r is Ok && vues(r->Ok_0@) == vues_entetes(v@).map_values(
                |e: EnteteVue| ligne_de(e),
            ),
        },
{
    match entetes {
        Err(e) => Err(e),
        Ok(v) => {
            let ghost f = |e: EnteteVue| ligne_de(e);
            let mut r: Vec<MessageLocal> = Vec::new();
            for i in 0..v.len()
                invariant
                    f == (|e: EnteteVue| ligne_de(e)),
                    vues(r@) =~= vues_entetes(v@).map_values(f).take(i as int),
            {
                let ghost avant = vues(r@);
                let l = ligne_index(&v[i]);
                let ghost y = l@;
                r.push(l);
                assert(vues(r@) =~= avant.push(y));
            }
            assert(vues_entetes(v@).map_values(f).take(v@.len() as int) =~= vues_entetes(
                v@,
            ).map_values(f));
            Ok(r)
        },
    }
}

/// Starts the synchronisation of a folder of an account: it is to be selected. It
/// stays selected: readings and marks are then about it.
pub fn synchroniser(magasin: &Magasin, compte: i64, chemin: &str) -> (r: Suite)
    ensures
        r@ == debut(magasin@, compte, chemin@),
{
    match magasin.dossier_id(compte, chemin) {
        Err(e) => Suite::Fini(Err(Echec::Index(e))),
        Ok(id) => match magasin.dossier(id) {
            Err(e) => Suite::Fini(Err(Echec::Index(e))),
            Ok(None) => Suite::Fini(
                Err(Echec::Index(crate::magasin::Erreur(accoler("dossier inconnu : ", chemin)))),
            ),
            Ok(Some(local)) => {
                let reprise = if local.uid_validity != 0 {
                    Some((local.uid_validity, local.highest_mod_seq))
                } else {
                    None
                };
                let mut bilan = Bilan::default();
                bilan.dossier_id = id;
                Suite::Demander(
                    Synchro {
                        id,
                        uid_validity: local.uid_validity,
                        uid_next: local.uid_next,
                        etat: EtatDossier::default(),
                        bilan,
                        phase: Phase::Selection,
                    },
                    Action::Selectionner { chemin: copier(chemin), reprise },
                )
            },
        },
    }
}

impl Synchro {
    /// Takes the synchronisation a step further, given what the server answered.
    pub fn suivre(self, magasin: &mut Magasin, evenement: Evenement) -> (r: Suite)
        ensures
            (final(magasin)@, r@) == pas_synchro(old(magasin)@, self@, evenement@),
    {
        match evenement {
            Evenement::Selection(Err(e)) => Suite::Fini(Err(Echec::Imap(e))),
            Evenement::Lignes(Err(e)) => Suite::Fini(Err(Echec::Imap(e))),
            Evenement::Drapeaux(Err(e)) => Suite::Fini(Err(Echec::Imap(e))),
            Evenement::Selection(Ok(s)) => if matches!(self.phase, Phase::Selection) {
                self.apres_selection(magasin, s)
            } else {
                Synchro::inattendue()
            },
            Evenement::Lignes(Ok(v)) => self.apres_lignes(magasin, v),
            Evenement::Drapeaux(Ok(v)) => self.apres_drapeaux(magasin, v),
        }
    }

    fn inattendue() -> (r: Suite)
        ensures
            r@ == inattendu(),
    {
        Suite::Fini(Err(Echec::Imap(Erreur::Protocole(copier("réponse inattendue")))))
    }

    /// Notes the state of the folder, once its messages are in.
    fn finir(self, magasin: &mut Magasin) -> (r: Suite)
        ensures
            (final(magasin)@, r@) == fin(old(magasin)@, self@),
    {
        match magasin.poser_etat(self.id, &self.etat) {
            Err(e) => {
                return Suite::Fini(Err(Echec::Index(e)));
            },
            Ok(_) => {},
        }
        match magasin.recompter(self.id) {
            Err(e) => Suite::Fini(Err(Echec::Index(e))),
            Ok(()) => Suite::Fini(Ok(self.bilan)),
        }
    }

    fn demander_manquants(self, magasin: &mut Magasin, v: Vec<u32>) -> (r: Suite)
        ensures
            (final(magasin)@, r@) == manquants_demandes(old(magasin)@, self@, v@),
    {
        let mut s = self;
        let n: usize = v.len();
        if n == 0 {
            return s.finir(magasin);
        }
        let k: usize = if n < PAQUET {
            n
        } else {
            PAQUET
        };
        let demandes = vstd::slice::slice_subrange(v.as_slice(), 0, k);
        let reste = vstd::slice::slice_to_vec(vstd::slice::slice_subrange(v.as_slice(), k, n));
        assert(demandes@ =~= paquet(v@));
        assert(reste@ =~= apres_paquet(v@));
        let e = ensemble_uid(demandes);
        s.phase = Phase::Manquants(reste);
        Suite::Demander(s, Action::Entetes(e))
    }

    /// Starts a full reconciliation by the list of UIDs and of their flags.
    fn reconcilier(self, magasin: &mut Magasin) -> (r: Suite)
        ensures
            (final(magasin)@, r@) == reconciliation(old(magasin)@, self@),
    {
        let mut s = self;
        s.bilan.complet = true;
        if s.etat.messages == 0 {
            match magasin.uids(s.id) {
                Err(e) => {
                    return Suite::Fini(Err(Echec::Index(e)));
                },
                Ok(connus) => {
                    match magasin.retirer(s.id, connus.as_slice()) {
                        Err(e) => {
                            return Suite::Fini(Err(Echec::Index(e)));
                        },
                        Ok(()) => {},
                    }
                    s.bilan.retires = cumuler(s.bilan.retires, connus.len());
                },
            }
            return s.finir(magasin);
        }
        s.phase = Phase::Drapeaux;
        Suite::Demander(s, Action::TousLesDrapeaux)
    }

    /// Holds the number of messages of the index against that of the server.
    fn controler(self, magasin: &mut Magasin) -> (r: Suite)
        ensures
            (final(magasin)@, r@) == controle(old(magasin)@, self@),
    {
        match magasin.uids(self.id) {
            Err(e) => Suite::Fini(Err(Echec::Index(e))),
            Ok(connus) => {
                let n: u64 = connus.len() as u64 % 0x1_0000_0000;
                if n != self.etat.messages as u64 {
                    self.reconcilier(magasin)
                } else {
                    self.finir(magasin)
                }
            },
        }
    }

    /// Starts the reading of the whole folder.
    fn relire_tout(self, magasin: &mut Magasin) -> (r: Suite)
        ensures
            (final(magasin)@, r@) == lecture_entiere(old(magasin)@, self@),
    {
        let mut s = self;
        s.bilan.complet = true;
        if s.etat.messages == 0 {
            // An open interval on an empty folder makes some servers answer with an
            // error; and what was left in the index no longer exists.
            match magasin.uids(s.id) {
                Err(e) => {
                    return Suite::Fini(Err(Echec::Index(e)));
                },
                Ok(connus) => match magasin.retirer(s.id, connus.as_slice()) {
                    Err(e) => {
                        return Suite::Fini(Err(Echec::Index(e)));
                    },
                    Ok(()) => {},
                },
            }
            return s.finir(magasin);
        }
        s.phase = Phase::Tout;
        Suite::Demander(s, Action::Entetes(copier("1:*")))
    }

    fn apres_selection(self, magasin: &mut Magasin, v: Selection) -> (r: Suite)
        ensures
            (final(magasin)@, r@) == selection_recue(old(magasin)@, self@, v@),
    {
        let mut s = self;
        s.etat = v.etat;
        if s.uid_validity != 0 && s.uid_validity != v.etat.uid_validity {
            // The index of the folder is void: it is emptied at once, while the full
            // state is only noted at the end.
            let mut vide = EtatDossier::default();
            vide.uid_validity = v.etat.uid_validity;
            match magasin.poser_etat(s.id, &vide) {
                Err(e) => {
                    return Suite::Fini(Err(Echec::Index(e)));
                },
                Ok(_) => {},
            }
            return s.relire_tout(magasin);
        }
        if s.uid_validity == 0 {
            return s.relire_tout(magasin);
        }
        if !v.reprise {
            return s.reconcilier(magasin);
        }
        match magasin.retirer_intervalles(s.id, v.disparus.as_slice()) {
            Err(e) => {
                return Suite::Fini(Err(Echec::Index(e)));
            },
            Ok(()) => {},
        }
        s.bilan.retires = sommer_intervalles(&v.disparus);
        match magasin.poser_drapeaux(s.id, v.drapeaux.as_slice()) {
            Err(e) => {
                return Suite::Fini(Err(Echec::Index(e)));
            },
            Ok(()) => {},
        }
        if v.etat.uid_next > s.uid_next {
            let depuis: u32 = if s.uid_next == 0 {
                1
            } else {
                s.uid_next
            };
            let mut c = ecrire_u64(depuis as u64);
            ajouter(&mut c, ":*");
            s.phase = Phase::Depuis(depuis);
            return Suite::Demander(s, Action::Entetes(chaine(c.as_slice())));
        }
        s.controler(magasin)
    }

    fn apres_lignes(self, magasin: &mut Magasin, v: Vec<MessageLocal>) -> (r: Suite)
        ensures
            (final(magasin)@, r@) == lignes_recues(old(magasin)@, self@, vues(v@)),
    {
        let mut s = self;
        let mut phase = Phase::Selection;
        std::mem::swap(&mut phase, &mut s.phase);
        match phase {
            Phase::Tout => {
                let presents = uids_des_lignes(&v);
                match magasin.uids(s.id) {
                    Err(e) => {
                        return Suite::Fini(Err(Echec::Index(e)));
                    },
                    Ok(connus) => {
                        let perimes = garder_absents(&connus, &presents);
                        match magasin.retirer(s.id, perimes.as_slice()) {
                            Err(e) => {
                                return Suite::Fini(Err(Echec::Index(e)));
                            },
                            Ok(()) => {},
                        }
                    },
                }
                match magasin.poser_messages(s.id, v.as_slice()) {
                    Err(e) => {
                        return Suite::Fini(Err(Echec::Index(e)));
                    },
                    Ok(()) => {},
                }
                s.bilan.nouveaux = v.len();
                s.finir(magasin)
            },
            Phase::Depuis(depuis) => {
                let w = lignes_depuis(v, depuis);
                match magasin.poser_messages(s.id, w.as_slice()) {
                    Err(e) => {
                        return Suite::Fini(Err(Echec::Index(e)));
                    },
                    Ok(()) => {},
                }
                s.bilan.nouveaux = w.len();
                s.controler(magasin)
            },
            Phase::Manquants(reste) => {
                match magasin.poser_messages(s.id, v.as_slice()) {
                    Err(e) => {
                        return Suite::Fini(Err(Echec::Index(e)));
                    },
                    Ok(()) => {},
                }
                s.bilan.nouveaux = cumuler(s.bilan.nouveaux, v.len());
                s.demander_manquants(magasin, reste)
            },
            _ => Synchro::inattendue(),
        }
    }

    fn apres_drapeaux(self, magasin: &mut Magasin, v: Vec<(u32, Vec<String>)>) -> (r: Suite)
        ensures
            (final(magasin)@, r@) == drapeaux_recus(old(magasin)@, self@, vues_drapeaux(v@)),
    {
        let mut s = self;
        if !matches!(s.phase, Phase::Drapeaux) {
            return Synchro::inattendue();
        }
        let presents = garder_distincts(&v);
        let connus = match magasin.uids(s.id) {
            Err(e) => {
                return Suite::Fini(Err(Echec::Index(e)));
            },
            Ok(connus) => connus,
        };
        let perimes = garder_absents(&connus, &presents);
        match magasin.retirer(s.id, perimes.as_slice()) {
            Err(e) => {
                return Suite::Fini(Err(Echec::Index(e)));
            },
            Ok(()) => {},
        }
        match magasin.poser_drapeaux(s.id, v.as_slice()) {
            Err(e) => {
                return Suite::Fini(Err(Echec::Index(e)));
            },
            Ok(()) => {},
        }
        s.bilan.retires = cumuler(s.bilan.retires, perimes.len());
        let manquants = garder_absents(&presents, &connus);
        s.demander_manquants(magasin, manquants)
    }
}

// ------------------------------------------------------------------------------ laws

/// Whether a folder has a message with a UID.
pub open spec fn connu(t: Seq<LigneVue>, id: i64, uid: u32) -> bool {
    exists|i: int| 0 <= i < t.len() && (#[trigger] t[i]).dossier == id && t[i].message.uid == uid
}

/// A UID is known of a folder exactly when one of its messages has it.
proof fn lemme_connus(t: Seq<LigneVue>, id: i64, uid: u32)
    ensures
        uids_connus(t, id).contains(uid) <==> connu(t, id, uid),
    decreases t.len(),
{
    reveal(Seq::filter);
    let p = |l: LigneVue| l.dossier == id;
    if t.len() == 0 {
        assert(uids_connus(t, id) =~= Seq::empty());
    } else {
        let u = t.drop_last();
        lemme_connus(u, id, uid);
        let a = uids_connus(u, id);
        let b = uids_connus(t, id);
        if connu(u, id, uid) {
            let i = choose|i: int|
                0 <= i < u.len() && (#[trigger] u[i]).dossier == id && u[i].message.uid == uid;
            assert(t[i].dossier == id && t[i].message.uid == uid);
        }
        if connu(t, id, uid) && !connu(u, id, uid) {
            let i = choose|i: int|
                0 <= i < t.len() && (#[trigger] t[i]).dossier == id && t[i].message.uid == uid;
            if i < u.len() {
                assert(u[i].dossier == id && u[i].message.uid == uid);
            }
            assert(i == t.len() - 1);
        }
        if p(t.last()) {
            assert(b =~= a.push(t.last().message.uid));
            if a.contains(uid) {
                let k = choose|k: int| 0 <= k < a.len() && a[k] == uid;
                assert(b[k] == uid);
            }
            if b.contains(uid) && !a.contains(uid) {
                let k = choose|k: int| 0 <= k < b.len() && b[k] == uid;
                if k < a.len() {
                    assert(a[k] == uid);
                }
                assert(t[t.len() - 1].message.uid == uid);
            }
            if connu(t, id, uid) && !connu(u, id, uid) {
                assert(b[b.len() - 1] == uid);
            }
        } else {
            assert(b =~= a);
        }
    }
}

/// What the removal of messages leaves known.
proof fn lemme_connu_sans(t: Seq<LigneVue>, id: i64, w: Seq<u32>, dossier: i64, uid: u32)
    ensures
        connu(sans(t, dans_uids(id, w)), dossier, uid) <==> connu(t, dossier, uid) && !(dossier
            == id && w.contains(uid)),
    decreases t.len(),
{
    reveal(Seq::filter);
    let r = sans(t, dans_uids(id, w));
    if t.len() > 0 {
        let u = t.drop_last();
        let q = sans(u, dans_uids(id, w));
        lemme_connu_sans(u, id, w, dossier, uid);
        lemme_connu_dernier(t, dossier, uid);
        if !dans_uids(id, w)(t.last()) {
            assert(r =~= q.push(t.last()));
            assert(r.drop_last() =~= q);
            lemme_connu_dernier(r, dossier, uid);
        } else {
            assert(r =~= q);
        }
    }
}

/// What the last row adds to what is known.
proof fn lemme_connu_dernier(t: Seq<LigneVue>, id: i64, uid: u32)
    requires
        t.len() > 0,
    ensures
        connu(t, id, uid) <==> connu(t.drop_last(), id, uid) || (t.last().dossier == id
            && t.last().message.uid == uid),
{
    let u = t.drop_last();
    if connu(u, id, uid) {
        let i = choose|i: int|
            0 <= i < u.len() && (#[trigger] u[i]).dossier == id && u[i].message.uid == uid;
        assert(t[i].dossier == id && t[i].message.uid == uid);
    }
    if t.last().dossier == id && t.last().message.uid == uid {
        assert(t[t.len() - 1].dossier == id);
    }
    if connu(t, id, uid) {
        let i = choose|i: int|
            0 <= i < t.len() && (#[trigger] t[i]).dossier == id && t[i].message.uid == uid;
        if i < u.len() {
            assert(u[i].dossier == id && u[i].message.uid == uid);
        }
    }
}

/// A change that keeps folders and UIDs keeps what is known.
proof fn lemme_connu_change(t: Seq<LigneVue>, f: spec_fn(LigneVue) -> LigneVue, id: i64, uid: u32)
    requires
        forall|l: LigneVue| #![trigger f(l)]
            f(l).dossier == l.dossier && f(l).message.uid == l.message.uid,
    ensures
        connu(t.map_values(f), id, uid) <==> connu(t, id, uid),
{
    let r = t.map_values(f);
    if connu(t, id, uid) {
        let i = choose|i: int|
            0 <= i < t.len() && (#[trigger] t[i]).dossier == id && t[i].message.uid == uid;
        assert(r[i] == f(t[i]));
        assert(r[i].dossier == id && r[i].message.uid == uid);
    }
    if connu(r, id, uid) {
        let i = choose|i: int|
            0 <= i < r.len() && (#[trigger] r[i]).dossier == id && r[i].message.uid == uid;
        assert(r[i] == f(t[i]));
        assert(t[i].dossier == id && t[i].message.uid == uid);
    }
}

/// What lines put in a folder make known.
proof fn lemme_connu_poses(t: Seq<LigneVue>, id: i64, v: Seq<MessageVue>, dossier: i64, uid: u32)
    ensures
        connu(messages_poses(t, id, v), dossier, uid) <==> connu(t, dossier, uid) || (dossier == id
            && uids_lignes(v).contains(uid)),
    decreases v.len(),
{
    if v.len() > 0 {
        let w = v.drop_last();
        let x = v.last();
        lemme_connu_poses(t, id, w, dossier, uid);
        let u = messages_poses(t, id, w);
        let p = |l: LigneVue| l.dossier == id && l.message.uid == x.uid;
        lemme_premier(u, p);
        let a = uids_lignes(w);
        let b = uids_lignes(v);
        assert(b =~= a.push(x.uid));
        assert(b.contains(uid) <==> a.contains(uid) || uid == x.uid) by {
            if a.contains(uid) {
                let k = choose|k: int| 0 <= k < a.len() && a[k] == uid;
                assert(b[k] == uid);
            }
            assert(b[b.len() - 1] == x.uid);
            if b.contains(uid) && uid != x.uid {
                let k = choose|k: int| 0 <= k < b.len() && b[k] == uid;
                assert(a[k] == uid);
            }
        }
        if message_en(u, id, x.uid) is Some {
            let l = message_en(u, id, x.uid)->0;
            let i = choose|i: int| 0 <= i < u.len() && u[i] == l;
            assert(u[i].dossier == id && u[i].message.uid == x.uid);
            assert(connu(u, id, x.uid));
            lemme_connu_change(
                u,
                crate::tables::message_relu(id, x.uid, x.lu, x.repondu),
                dossier,
                uid,
            );
        } else {
            let r = u.push(LigneVue { dossier: id, message: x });
            assert(r.drop_last() =~= u);
            lemme_connu_dernier(r, dossier, uid);
        }
    }
}

/// Applying flags keeps what is known.
proof fn lemme_connu_drapeaux(
    t: Seq<LigneVue>,
    id: i64,
    v: Seq<(u32, Seq<Seq<char>>)>,
    dossier: i64,
    uid: u32,
)
    ensures
        connu(drapeaux_poses(t, id, v), dossier, uid) <==> connu(t, dossier, uid),
    decreases v.len(),
{
    if v.len() > 0 {
        lemme_connu_drapeaux(t, id, v.drop_last(), dossier, uid);
        let (n, liste) = v.last();
        lemme_connu_change(
            drapeaux_poses(t, id, v.drop_last()),
            crate::tables::message_relu(
                id,
                n,
                crate::tables::a_drapeau(liste, "\\Seen"@),
                crate::tables::a_drapeau(liste, "\\Answered"@),
            ),
            dossier,
            uid,
        );
    }
}

/// A change of folders that keeps their identifiers finds the same one, changed.
proof fn lemme_numero_change(
    t: Seq<DossierLocalVue>,
    f: spec_fn(DossierLocalVue) -> DossierLocalVue,
    id: i64,
)
    requires
        forall|d: DossierLocalVue| (#[trigger] f(d)).id == d.id,
    ensures
        dossier_numero(t.map_values(f), id) == (match dossier_numero(t, id) {
            Some(d) => Some(f(d)),
            None => None,
        }),
    decreases t.len(),
{
    if t.len() > 0 {
        lemme_numero_change(t.drop_last(), f, id);
        assert(t.map_values(f).drop_last() =~= t.drop_last().map_values(f));
        assert(t.map_values(f).last() == f(t.last()));
    }
}

/// How the state of a folder is noted.
pub open spec fn etat_note(id: i64, etat: EtatDossier) -> spec_fn(
    DossierLocalVue,
) -> DossierLocalVue {
    |d: DossierLocalVue|
        if d.id == id {
            DossierLocalVue {
                uid_validity: etat.uid_validity,
                uid_next: etat.uid_next,
                highest_mod_seq: etat.highest_mod_seq,
                ..d
            }
        } else {
            d
        }
}

/// Whether the index agrees with a synchronisation: the folder is still the one that
/// it started from, or, once the server has announced its state, has no other
/// validity.
pub open spec fn accorde(m: MagasinVue, s: SynchroVue) -> bool {
    match s.phase {
        PhaseVue::Selection => dossier_numero(m.dossiers, s.id) is Some && dossier_numero(
            m.dossiers,
            s.id,
        )->0.uid_validity == s.uid_validity,
        _ => !rupture(m, s.id, s.etat),
    }
}

/// A synchronisation starts in agreement with the index.
pub proof fn loi_debut_accorde(m: MagasinVue, compte: i64, chemin: Seq<char>)
    ensures
        debut(m, compte, chemin) matches SuiteVue::Demander(s, _) ==> accorde(m, s),
{
}

/// Every step of a synchronisation keeps the agreement with the index.
pub proof fn loi_pas_accorde(m: MagasinVue, s: SynchroVue, e: EvenementVue)
    requires
        accorde(m, s),
    ensures
        pas_synchro(m, s, e).1 matches SuiteVue::Demander(t, _) ==> accorde(
            pas_synchro(m, s, e).0,
            t,
        ),
{
    if let EvenementVue::Selection(Ok(v)) = e {
        let vide = EtatDossier { uid_validity: v.etat.uid_validity, ..etat_vide() };
        lemme_numero_change(m.dossiers, etat_note(s.id, vide), s.id);
        lemme_premier(m.dossiers, |d: DossierLocalVue| d.id == s.id);
        let n = etat_pose(m, s.id, vide);
        assert(n.dossiers =~= m.dossiers.map_values(etat_note(s.id, vide)));
    }
}

/// The state of a folder is only noted at the end: as long as the synchronisation
/// asks the server for something, no folder has a new `UIDNEXT` or
/// `HIGHESTMODSEQ`, but for the one whose validity broke, whose state is void and
/// which will be read as a whole.
pub proof fn loi_etat_note_a_la_fin(m: MagasinVue, s: SynchroVue, e: EvenementVue, i: int)
    requires
        0 <= i < m.dossiers.len(),
    ensures
        pas_synchro(m, s, e).1 is Demander ==> ({
            let n = pas_synchro(m, s, e).0;
            let a = m.dossiers[i];
            let b = n.dossiers[i];
            &&& n.dossiers.len() == m.dossiers.len()
            &&& a.id == b.id
            &&& (a.uid_validity == b.uid_validity && a.uid_next == b.uid_next && a.highest_mod_seq
                == b.highest_mod_seq) || (a.id == s.id && b.uid_next == 0 && b.highest_mod_seq
                == 0)
        }),
{
}

/// A failure of the server leaves the index as it was.
pub proof fn loi_echec_sans_effet(m: MagasinVue, s: SynchroVue, x: ErreurVue)
    ensures
        pas_synchro(m, s, EvenementVue::Selection(Err(x))) == (m, SuiteVue::Fini(
            Err(EchecVue::Imap(x)),
        )),
        pas_synchro(m, s, EvenementVue::Lignes(Err(x))) == (m, SuiteVue::Fini(
            Err(EchecVue::Imap(x)),
        )),
        pas_synchro(m, s, EvenementVue::Drapeaux(Err(x))) == (m, SuiteVue::Fini(
            Err(EchecVue::Imap(x)),
        )),
{
}

/// A synchronisation that ends well leaves the folder with the state that the server
/// announced, and with as many messages counted as it has.
pub proof fn loi_etat_final(m: MagasinVue, s: SynchroVue)
    requires
        fin(m, s).1 is Fini,
        fin(m, s).1->Fini_0 is Ok,
        dossier_numero(m.dossiers, s.id) is Some,
    ensures
        ({
            let n = fin(m, s).0;
            let d = dossier_numero(n.dossiers, s.id);
            &&& d is Some
            &&& d->0.uid_validity == s.etat.uid_validity
            &&& d->0.uid_next == s.etat.uid_next
            &&& d->0.highest_mod_seq == s.etat.highest_mod_seq
            &&& d->0.messages == messages_de(n.messages, s.id).len()
        }),
{
    lemme_numero_change(m.dossiers, etat_note(s.id, s.etat), s.id);
    lemme_premier(m.dossiers, |d: DossierLocalVue| d.id == s.id);
    let o = etat_pose(m, s.id, s.etat);
    assert(o.dossiers =~= m.dossiers.map_values(etat_note(s.id, s.etat)));
    let n = nombre_messages(o.messages, s.id);
    let u = nombre_non_lus(o.messages, s.id);
    let f = |d: DossierLocalVue|
        if d.id == s.id {
            DossierLocalVue { messages: n as u32, non_lus: u as u32, ..d }
        } else {
            d
        };
    lemme_numero_change(o.dossiers, f, s.id);
}

/// Once the whole folder was read, the index knows exactly the messages that the
/// server gave; those of the other folders are as they were.
pub proof fn loi_lecture_entiere(
    m: MagasinVue,
    s: SynchroVue,
    v: Seq<MessageVue>,
    dossier: i64,
    uid: u32,
)
    requires
        s.phase is Tout,
        accorde(m, s),
        pas_synchro(m, s, EvenementVue::Lignes(Ok(v))).1 matches SuiteVue::Fini(Ok(_)),
    ensures
        ({
            let n = pas_synchro(m, s, EvenementVue::Lignes(Ok(v))).0;
            &&& uids_connus(n.messages, s.id).contains(uid) <==> uids_lignes(v).contains(uid)
            &&& dossier != s.id ==> (connu(n.messages, dossier, uid) <==> connu(
                m.messages,
                dossier,
                uid,
            ))
        }),
{
    let connus = uids_connus(m.messages, s.id);
    let perimes = absents(connus, uids_lignes(v));
    let a = sans_messages(m, s.id, perimes);
    let b = avec_lignes(a, s.id, v)->0;
    let n = pas_synchro(m, s, EvenementVue::Lignes(Ok(v))).0;
    assert(!rupture(b, s.id, s.etat));
    assert(n.messages == b.messages);
    lemme_connus(n.messages, s.id, uid);
    lemme_connus(m.messages, s.id, uid);
    lemme_connu_sans(m.messages, s.id, perimes, s.id, uid);
    lemme_connu_poses(a.messages, s.id, v, s.id, uid);
    lemme_absents(connus, uids_lignes(v), uid);
    lemme_connu_sans(m.messages, s.id, perimes, dossier, uid);
    lemme_connu_poses(a.messages, s.id, v, dossier, uid);
}

/// What is left of a list without another.
proof fn lemme_absents(v: Seq<u32>, w: Seq<u32>, uid: u32)
    ensures
        absents(v, w).contains(uid) <==> v.contains(uid) && !w.contains(uid),
    decreases v.len(),
{
    reveal(Seq::filter);
    let r = absents(v, w);
    if v.len() == 0 {
        assert(r =~= Seq::empty());
    } else {
        let u = v.drop_last();
        let q = absents(u, w);
        lemme_absents(u, w, uid);
        assert(v =~= u.push(v.last()));
        lemme_contient_dernier(v, uid);
        if !w.contains(v.last()) {
            assert(r =~= q.push(v.last()));
            assert(r.drop_last() =~= q);
            lemme_contient_dernier(r, uid);
        } else {
            assert(r =~= q);
        }
    }
}

proof fn lemme_contient_dernier(v: Seq<u32>, uid: u32)
    requires
        v.len() > 0,
    ensures
        v.contains(uid) <==> v.drop_last().contains(uid) || v.last() == uid,
{
    let u = v.drop_last();
    if u.contains(uid) {
        let k = choose|k: int| 0 <= k < u.len() && u[k] == uid;
        assert(v[k] == uid);
    }
    assert(v[v.len() - 1] == v.last());
    if v.contains(uid) && v.last() != uid {
        let k = choose|k: int| 0 <= k < v.len() && v[k] == uid;
        assert(u[k] == uid);
    }
}

/// Taking repetitions out of a list keeps what it contains.
proof fn lemme_distincts(v: Seq<u32>, uid: u32)
    ensures
        distincts(v).contains(uid) <==> v.contains(uid),
    decreases v.len(),
{
    if v.len() > 0 {
        lemme_distincts(v.drop_last(), uid);
        lemme_distincts(v.drop_last(), v.last());
        lemme_contient_dernier(v, uid);
        let r = distincts(v.drop_last());
        if !r.contains(v.last()) {
            assert(r.push(v.last()).drop_last() =~= r);
            lemme_contient_dernier(r.push(v.last()), uid);
        }
    }
}

/// In a reconciliation, the messages that the server no longer has leave the index,
/// the others stay, and those that the index lacks are asked for: all of them, and
/// no other.
pub proof fn loi_reconciliation(
    m: MagasinVue,
    s: SynchroVue,
    v: Seq<(u32, Seq<Seq<char>>)>,
    uid: u32,
)
    requires
        s.phase is Drapeaux,
        accorde(m, s),
    ensures
        ({
            let (n, suite) = pas_synchro(m, s, EvenementVue::Drapeaux(Ok(v)));
            let connus = uids_connus(m.messages, s.id);
            let manquants = absents(distincts(uids_drapeaux(v)), connus);
            &&& uids_connus(n.messages, s.id).contains(uid) <==> connus.contains(uid)
                && uids_drapeaux(v).contains(uid)
            &&& manquants.contains(uid) <==> uids_drapeaux(v).contains(uid) && !connus.contains(uid)
            &&& paquet(manquants) + apres_paquet(manquants) == manquants
            &&& suite matches SuiteVue::Demander(t, a) ==> t.phase == PhaseVue::Manquants(
                apres_paquet(manquants),
            ) && a == ActionVue::Entetes(ensemble(paquet(manquants)))
            &&& suite is Fini ==> manquants.len() == 0
        }),
{
    let (n, suite) = pas_synchro(m, s, EvenementVue::Drapeaux(Ok(v)));
    let connus = uids_connus(m.messages, s.id);
    let presents = distincts(uids_drapeaux(v));
    let perimes = absents(connus, presents);
    let manquants = absents(presents, connus);
    let a = sans_messages(m, s.id, perimes);
    let b = MagasinVue { messages: drapeaux_poses(a.messages, s.id, v), ..a };
    assert(!rupture(b, s.id, s.etat));
    assert(n.messages == b.messages);
    lemme_connus(n.messages, s.id, uid);
    lemme_connus(m.messages, s.id, uid);
    lemme_connu_sans(m.messages, s.id, perimes, s.id, uid);
    lemme_connu_drapeaux(a.messages, s.id, v, s.id, uid);
    lemme_absents(connus, presents, uid);
    lemme_absents(presents, connus, uid);
    lemme_distincts(uids_drapeaux(v), uid);
    assert(paquet(manquants) + apres_paquet(manquants) =~= manquants);
}

/// Each packet of missing messages adds to the index what the server gives of it,
/// and takes nothing out.
pub proof fn loi_manquants_ajoutes(m: MagasinVue, s: SynchroVue, v: Seq<MessageVue>, uid: u32)
    requires
        s.phase is Manquants,
        accorde(m, s),
        avec_lignes(m, s.id, v) is Some,
    ensures
        uids_connus(pas_synchro(m, s, EvenementVue::Lignes(Ok(v))).0.messages, s.id).contains(uid)
            <==> uids_connus(m.messages, s.id).contains(uid) || uids_lignes(v).contains(uid),
{
    let n = pas_synchro(m, s, EvenementVue::Lignes(Ok(v))).0;
    let b = avec_lignes(m, s.id, v)->0;
    assert(!rupture(b, s.id, s.etat));
    assert(n.messages == b.messages);
    lemme_connus(n.messages, s.id, uid);
    lemme_connus(m.messages, s.id, uid);
    lemme_connu_poses(m.messages, s.id, v, s.id, uid);
}

/// What the removal of intervals of UIDs leaves known.
proof fn lemme_connu_hors(t: Seq<LigneVue>, id: i64, w: Seq<(u32, u32)>, dossier: i64, uid: u32)
    ensures
        connu(sans(t, dans_intervalles(id, w)), dossier, uid) <==> connu(t, dossier, uid) && !(
        dossier == id && couvre(w, uid as int)),
    decreases t.len(),
{
    reveal(Seq::filter);
    let r = sans(t, dans_intervalles(id, w));
    if t.len() > 0 {
        let u = t.drop_last();
        let q = sans(u, dans_intervalles(id, w));
        lemme_connu_hors(u, id, w, dossier, uid);
        lemme_connu_dernier(t, dossier, uid);
        if !dans_intervalles(id, w)(t.last()) {
            assert(r =~= q.push(t.last()));
            assert(r.drop_last() =~= q);
            lemme_connu_dernier(r, dossier, uid);
        } else {
            assert(r =~= q);
        }
    }
}

/// A folder that the server resumes is not read again: the messages that vanished
/// leave the index, and only the headers of those that came since are asked for. If
/// none came and the number of messages is right, nothing more is asked for.
pub proof fn loi_reprise_incrementale(m: MagasinVue, s: SynchroVue, v: SelectionVue, uid: u32)
    requires
        s.phase is Selection,
        accorde(m, s),
        s.uid_validity != 0,
        s.uid_validity == v.etat.uid_validity,
        v.reprise,
    ensures
        ({
            let (n, suite) = pas_synchro(m, s, EvenementVue::Selection(Ok(v)));
            let restants = MagasinVue {
                messages: sans(m.messages, dans_intervalles(s.id, v.disparus)),
                ..m
            };
            let depuis: u32 = if s.uid_next == 0 {
                1
            } else {
                s.uid_next
            };
            &&& v.etat.uid_next > s.uid_next ==> {
                &&& suite matches SuiteVue::Demander(t, a) && t.phase == PhaseVue::Depuis(depuis)
                    && a == ActionVue::Entetes(decimal(depuis as nat) + ":*"@)
                &&& connu(n.messages, s.id, uid) <==> connu(m.messages, s.id, uid) && !couvre(
                    v.disparus,
                    uid as int,
                )
            }
            &&& v.etat.uid_next <= s.uid_next && uids_connus(
                drapeaux_poses(restants.messages, s.id, v.drapeaux),
                s.id,
            ).len() == v.etat.messages ==> {
                &&& suite is Fini
                &&& connu(n.messages, s.id, uid) <==> connu(m.messages, s.id, uid) && !couvre(
                    v.disparus,
                    uid as int,
                )
            }
        }),
{
    let r = sans(m.messages, dans_intervalles(s.id, v.disparus));
    lemme_connu_hors(m.messages, s.id, v.disparus, s.id, uid);
    lemme_connu_drapeaux(r, s.id, v.drapeaux, s.id, uid);
    let b = MagasinVue { messages: drapeaux_poses(r, s.id, v.drapeaux), ..m };
    assert(!rupture(b, s.id, v.etat));
}

/// The messages that came since the last visit are added to the index, and nothing is
/// taken out of it.
pub proof fn loi_arrivees_ajoutees(
    m: MagasinVue,
    s: SynchroVue,
    depuis: u32,
    v: Seq<MessageVue>,
    uid: u32,
)
    requires
        s.phase == PhaseVue::Depuis(depuis),
        accorde(m, s),
        s.etat.messages > 0,
        dossier_numero(m.dossiers, s.id) is Some,
    ensures
        ({
            let n = pas_synchro(m, s, EvenementVue::Lignes(Ok(v))).0;
            connu(n.messages, s.id, uid) <==> connu(m.messages, s.id, uid) || (uid >= depuis
                && uids_lignes(v).contains(uid))
        }),
{
    let p = |x: MessageVue| x.uid >= depuis;
    let w = v.filter(p);
    lemme_connu_poses(m.messages, s.id, w, s.id, uid);
    lemme_uids_filtres(v, p, depuis, uid);
    let b = MagasinVue { messages: messages_poses(m.messages, s.id, w), ..m };
    assert(!rupture(b, s.id, s.etat));
}

/// The UIDs of the lines from one UID on.
proof fn lemme_uids_filtres(
    v: Seq<MessageVue>,
    p: spec_fn(MessageVue) -> bool,
    depuis: u32,
    uid: u32,
)
    requires
        p == (|x: MessageVue| x.uid >= depuis),
    ensures
        uids_lignes(v.filter(p)).contains(uid) <==> uid >= depuis && uids_lignes(v).contains(uid),
    decreases v.len(),
{
    reveal(Seq::filter);
    if v.len() == 0 {
        assert(uids_lignes(v) =~= Seq::empty());
        assert(uids_lignes(v.filter(p)) =~= Seq::empty());
    } else {
        let u = v.drop_last();
        lemme_uids_filtres(u, p, depuis, uid);
        let a = uids_lignes(v);
        assert(a.drop_last() =~= uids_lignes(u));
        lemme_contient_dernier(a, uid);
        if p(v.last()) {
            let b = uids_lignes(v.filter(p));
            assert(b.drop_last() =~= uids_lignes(u.filter(p)));
            assert(b.last() == v.last().uid);
            lemme_contient_dernier(b, uid);
        }
    }
}

/// A folder whose `UIDVALIDITY` changed is emptied and read as a whole.
pub proof fn loi_validite_rompue(m: MagasinVue, s: SynchroVue, v: SelectionVue, uid: u32)
    requires
        s.phase is Selection,
        accorde(m, s),
        s.uid_validity != 0,
        s.uid_validity != v.etat.uid_validity,
        v.etat.messages > 0,
    ensures
        ({
            let (n, suite) = pas_synchro(m, s, EvenementVue::Selection(Ok(v)));
            &&& !connu(n.messages, s.id, uid)
            &&& suite matches SuiteVue::Demander(t, a) && t.phase is Tout && a
                == ActionVue::Entetes("1:*"@)
        }),
{
    let vide = EtatDossier { uid_validity: v.etat.uid_validity, ..etat_vide() };
    assert(rupture(m, s.id, vide));
    let p = |l: LigneVue| l.dossier == s.id;
    let q = |l: LigneVue| !p(l);
    let n = sans(m.messages, p);
    assert(n == m.messages.filter(q));
    if connu(n, s.id, uid) {
        let i = choose|i: int|
            0 <= i < n.len() && (#[trigger] n[i]).dossier == s.id && n[i].message.uid == uid;
        m.messages.lemma_filter_pred(q, i);
    }
}

/// A moment of a synchronisation: the index then, the synchronisation, what it had
/// asked for, and what came of it.
pub struct Moment {
    pub magasin: MagasinVue,
    pub synchro: SynchroVue,
    pub demande: ActionVue,
    pub evenement: EvenementVue,
}

/// Whether moments follow each other in the synchronisation of a folder from its
/// start, and nothing else changes the index meanwhile.
pub open spec fn deroulement(m: MagasinVue, compte: i64, chemin: Seq<char>, v: Seq<Moment>) -> bool {
    &&& v.len() > 0
    &&& v[0].magasin == m
    &&& debut(m, compte, chemin) == SuiteVue::Demander(v[0].synchro, v[0].demande)
    &&& forall|k: int|
        0 <= k < v.len() - 1 ==> pas_synchro(
            (#[trigger] v[k]).magasin,
            v[k].synchro,
            v[k].evenement,
        ) == (v[k + 1].magasin, SuiteVue::Demander(v[k + 1].synchro, v[k + 1].demande))
}

/// Whether a synchronisation is past the opening of the folder `id`, that the server
/// announced in the state `etat`, and is to be complete where `entier`.
pub open spec fn engagee(
    m: MagasinVue,
    s: SynchroVue,
    id: i64,
    etat: EtatDossier,
    entier: bool,
) -> bool {
    &&& accorde(m, s)
    &&& dossier_numero(m.dossiers, id) is Some
    &&& s.id == id
    &&& s.etat == etat
    &&& s.bilan.dossier_id == id
    &&& !(s.phase is Selection)
    &&& entier || !(s.phase is Depuis) ==> s.bilan.complet
}

/// Whether the index of a folder is up to date with the state that the server
/// announced.
pub open spec fn a_jour(m: MagasinVue, etat: EtatDossier, b: Bilan) -> bool {
    &&& dossier_numero(m.dossiers, b.dossier_id) matches Some(d) && {
        &&& d.uid_validity == etat.uid_validity
        &&& d.uid_next == etat.uid_next
        &&& d.highest_mod_seq == etat.highest_mod_seq
        &&& d.messages == nombre_messages(m.messages, b.dossier_id)
        &&& d.non_lus == nombre_non_lus(m.messages, b.dossier_id)
    }
    &&& !b.complet ==> uids_connus(m.messages, b.dossier_id).len() == etat.messages
}

/// A whole synchronisation that succeeds leaves the folder in the state that the
/// server announced and with its messages counted. The folder is read or reconciled as
/// a whole where its validity was not known or has changed; where it is not, the index
/// has as many messages of it as the server. And the folder is the one that is open.
pub proof fn loi_synchro_entiere(
    m: MagasinVue,
    compte: i64,
    chemin: Seq<char>,
    v: Seq<Moment>,
    b: Bilan,
)
    requires
        deroulement(m, compte, chemin, v),
        pas_synchro(v.last().magasin, v.last().synchro, v.last().evenement).1 == SuiteVue::Fini(
            Ok(b),
        ),
    ensures
        v[0].evenement matches EvenementVue::Selection(Ok(_)),
        v[0].evenement matches EvenementVue::Selection(Ok(e)) ==> {
            &&& dossier_en(m.dossiers, compte, chemin) matches Some(d) && d.id == b.dossier_id
            &&& a_jour(
                pas_synchro(v.last().magasin, v.last().synchro, v.last().evenement).0,
                e.etat,
                b,
            )
            &&& dossier_numero(m.dossiers, b.dossier_id) matches Some(d) && (d.uid_validity == 0
                || d.uid_validity != e.etat.uid_validity ==> b.complet)
        },
        v[0].demande matches ActionVue::Selectionner(c, _) && c == chemin,
        forall|k: int| 0 < k < v.len() ==> !((#[trigger] v[k]).demande is Selectionner),
{
    let n = v.len() - 1;
    assert(v[n] == v.last());
    let a = v[0];
    let id = a.synchro.id;
    let entier = a.synchro.uid_validity == 0 || (a.evenement matches EvenementVue::Selection(Ok(e))
        && a.synchro.uid_validity != e.etat.uid_validity);
    loi_debut_accorde(m, compte, chemin);
    assert(a.evenement matches EvenementVue::Selection(Ok(_))) by {
        assert(a.synchro.phase is Selection);
    }
    if let EvenementVue::Selection(Ok(e)) = a.evenement {
        if n == 0 {
            lemme_selection(m, a.synchro, e, entier);
        } else {
            lemme_engagee(m, compte, chemin, v, e, entier, n);
            lemme_pas_engage(v[n].magasin, v[n].synchro, v[n].evenement, id, e.etat, entier);
        }
    }
    assert forall|k: int| 0 < k < v.len() implies !((#[trigger] v[k]).demande is Selectionner) by {
        assert(pas_synchro(v[k - 1].magasin, v[k - 1].synchro, v[k - 1].evenement).1
            == SuiteVue::Demander(v[k].synchro, v[k].demande));
    }
}

/// The end of a synchronisation brings the folder up to date.
proof fn lemme_fin_a_jour(m: MagasinVue, s: SynchroVue)
    requires
        dossier_numero(m.dossiers, s.id) is Some,
        !rupture(m, s.id, s.etat),
        s.bilan.dossier_id == s.id,
        s.bilan.complet || uids_connus(m.messages, s.id).len() % 0x1_0000_0000 == s.etat.messages,
    ensures
        fin(m, s).1 is Fini,
        fin(m, s).1 matches SuiteVue::Fini(Ok(b)) ==> b == s.bilan && a_jour(
            fin(m, s).0,
            s.etat,
            b,
        ),
{
    if let SuiteVue::Fini(Ok(b)) = fin(m, s).1 {
        loi_etat_final(m, s);
        lemme_numero_change(m.dossiers, etat_note(s.id, s.etat), s.id);
        let o = etat_pose(m, s.id, s.etat);
        assert(o.dossiers =~= m.dossiers.map_values(etat_note(s.id, s.etat)));
        let n = nombre_messages(o.messages, s.id);
        let u = nombre_non_lus(o.messages, s.id);
        let f = |d: DossierLocalVue|
            if d.id == s.id {
                DossierLocalVue { messages: n as u32, non_lus: u as u32, ..d }
            } else {
                d
            };
        lemme_numero_change(o.dossiers, f, s.id);
        lemme_moins_de_non_lus(o.messages, s.id);
        lemme_premier(m.dossiers, |d: DossierLocalVue| d.id == s.id);
    }
}

/// A folder has no more unread messages than messages.
proof fn lemme_moins_de_non_lus(t: Seq<LigneVue>, id: i64)
    ensures
        nombre_non_lus(t, id) <= nombre_messages(t, id),
    decreases t.len(),
{
    reveal(Seq::filter);
    if t.len() > 0 {
        lemme_moins_de_non_lus(t.drop_last(), id);
    }
}

/// What follows the opening of the folder.
proof fn lemme_selection(m: MagasinVue, s: SynchroVue, v: SelectionVue, entier: bool)
    requires
        s.phase is Selection,
        accorde(m, s),
        s.bilan.dossier_id == s.id,
        entier == (s.uid_validity == 0 || s.uid_validity != v.etat.uid_validity),
    ensures
        selection_recue(m, s, v).1 matches SuiteVue::Demander(t, _) ==> engagee(
            selection_recue(m, s, v).0,
            t,
            s.id,
            v.etat,
            entier,
        ),
        selection_recue(m, s, v).1 matches SuiteVue::Fini(Ok(b)) ==> b.dossier_id == s.id && a_jour(
            selection_recue(m, s, v).0,
            v.etat,
            b,
        ) && (entier ==> b.complet),
{
    loi_pas_accorde(m, s, EvenementVue::Selection(Ok(v)));
    let t = SynchroVue { etat: v.etat, ..s };
    let c = SynchroVue { bilan: Bilan { complet: true, ..t.bilan }, ..t };
    let vide = EtatDossier { uid_validity: v.etat.uid_validity, ..etat_vide() };
    lemme_numero_change(m.dossiers, etat_note(s.id, vide), s.id);
    lemme_premier(m.dossiers, |d: DossierLocalVue| d.id == s.id);
    let p = etat_pose(m, s.id, vide);
    assert(p.dossiers =~= m.dossiers.map_values(etat_note(s.id, vide)));
    if s.uid_validity != 0 && s.uid_validity != v.etat.uid_validity {
        lemme_fin_a_jour(sans_messages(p, s.id, uids_connus(p.messages, s.id)), c);
    } else if s.uid_validity == 0 {
        lemme_fin_a_jour(sans_messages(m, s.id, uids_connus(m.messages, s.id)), c);
    } else if v.reprise {
        let n = MagasinVue {
            messages: drapeaux_poses(
                sans(m.messages, dans_intervalles(s.id, v.disparus)),
                s.id,
                v.drapeaux,
            ),
            ..m
        };
        let u = SynchroVue {
            bilan: Bilan { retires: plafonne(somme_intervalles(v.disparus)), ..t.bilan },
            ..t
        };
        lemme_controle(n, u);
    } else {
        lemme_reconciliation_engagee(m, t);
    }
}

/// What follows the check of the index against the server.
proof fn lemme_controle(m: MagasinVue, s: SynchroVue)
    requires
        dossier_numero(m.dossiers, s.id) is Some,
        !rupture(m, s.id, s.etat),
        s.bilan.dossier_id == s.id,
    ensures
        controle(m, s).1 matches SuiteVue::Demander(t, _) ==> engagee(
            controle(m, s).0,
            t,
            s.id,
            s.etat,
            true,
        ),
        controle(m, s).1 matches SuiteVue::Fini(Ok(b)) ==> b.dossier_id == s.id && a_jour(
            controle(m, s).0,
            s.etat,
            b,
        ) && (s.bilan.complet ==> b.complet),
{
    if uids_connus(m.messages, s.id).len() % 0x1_0000_0000 != s.etat.messages {
        lemme_reconciliation_engagee(m, s);
    } else {
        lemme_fin_a_jour(m, s);
    }
}

/// What follows the start of a reconciliation.
proof fn lemme_reconciliation_engagee(m: MagasinVue, s: SynchroVue)
    requires
        dossier_numero(m.dossiers, s.id) is Some,
        !rupture(m, s.id, s.etat),
        s.bilan.dossier_id == s.id,
    ensures
        reconciliation(m, s).1 matches SuiteVue::Demander(t, _) ==> engagee(
            reconciliation(m, s).0,
            t,
            s.id,
            s.etat,
            true,
        ),
        reconciliation(m, s).1 matches SuiteVue::Fini(Ok(b)) ==> b.dossier_id == s.id && b.complet
            && a_jour(reconciliation(m, s).0, s.etat, b),
{
    let connus = uids_connus(m.messages, s.id);
    lemme_fin_a_jour(
        sans_messages(m, s.id, connus),
        SynchroVue {
            bilan: Bilan {
                retires: plafonne(s.bilan.retires + connus.len()),
                complet: true,
                ..s.bilan
            },
            ..s
        },
    );
}

/// What follows a step past the opening of the folder.
proof fn lemme_pas_engage(
    m: MagasinVue,
    s: SynchroVue,
    ev: EvenementVue,
    id: i64,
    etat: EtatDossier,
    entier: bool,
)
    requires
        engagee(m, s, id, etat, entier),
    ensures
        pas_synchro(m, s, ev).1 matches SuiteVue::Demander(t, _) ==> engagee(
            pas_synchro(m, s, ev).0,
            t,
            id,
            etat,
            entier,
        ),
        pas_synchro(m, s, ev).1 matches SuiteVue::Fini(Ok(b)) ==> b.dossier_id == id && a_jour(
            pas_synchro(m, s, ev).0,
            etat,
            b,
        ) && (entier ==> b.complet),
{
    match ev {
        EvenementVue::Lignes(Ok(v)) => {
            match s.phase {
                PhaseVue::Tout => {
                    let n = sans_messages(
                        m,
                        s.id,
                        absents(uids_connus(m.messages, s.id), uids_lignes(v)),
                    );
                    if let Some(o) = avec_lignes(n, s.id, v) {
                        lemme_fin_a_jour(
                            o,
                            SynchroVue {
                                bilan: Bilan { nouveaux: v.len() as usize, ..s.bilan },
                                ..s
                            },
                        );
                    }
                },
                PhaseVue::Depuis(depuis) => {
                    let w = v.filter(|x: MessageVue| x.uid >= depuis);
                    if let Some(o) = avec_lignes(m, s.id, w) {
                        lemme_controle(
                            o,
                            SynchroVue {
                                bilan: Bilan { nouveaux: w.len() as usize, ..s.bilan },
                                ..s
                            },
                        );
                    }
                },
                PhaseVue::Manquants(reste) => {
                    if let Some(o) = avec_lignes(m, s.id, v) {
                        lemme_fin_a_jour(
                            o,
                            SynchroVue {
                                bilan: Bilan {
                                    nouveaux: plafonne(s.bilan.nouveaux + v.len()),
                                    ..s.bilan
                                },
                                ..s
                            },
                        );
                    }
                },
                _ => {},
            }
        },
        EvenementVue::Drapeaux(Ok(v)) => {
            let connus = uids_connus(m.messages, s.id);
            let perimes = absents(connus, distincts(uids_drapeaux(v)));
            let n = sans_messages(m, s.id, perimes);
            lemme_fin_a_jour_si(
                MagasinVue { messages: drapeaux_poses(n.messages, s.id, v), ..n },
                SynchroVue {
                    bilan: Bilan {
                        retires: plafonne(s.bilan.retires + perimes.len()),
                        ..s.bilan
                    },
                    ..s
                },
            );
        },
        _ => {},
    }
}

/// The end of a complete synchronisation brings the folder up to date.
proof fn lemme_fin_a_jour_si(m: MagasinVue, s: SynchroVue)
    requires
        dossier_numero(m.dossiers, s.id) is Some,
        !rupture(m, s.id, s.etat),
        s.bilan.dossier_id == s.id,
    ensures
        s.bilan.complet ==> (fin(m, s).1 matches SuiteVue::Fini(Ok(b)) ==> b == s.bilan && a_jour(
            fin(m, s).0,
            s.etat,
            b,
        )),
{
    if s.bilan.complet {
        lemme_fin_a_jour(m, s);
    }
}

proof fn lemme_engagee(
    m: MagasinVue,
    compte: i64,
    chemin: Seq<char>,
    v: Seq<Moment>,
    e: SelectionVue,
    entier: bool,
    k: int,
)
    requires
        deroulement(m, compte, chemin, v),
        0 < k < v.len(),
        v[0].evenement == EvenementVue::Selection(Ok(e)),
        entier == (v[0].synchro.uid_validity == 0 || v[0].synchro.uid_validity
            != e.etat.uid_validity),
    ensures
        engagee(v[k].magasin, v[k].synchro, v[0].synchro.id, e.etat, entier),
    decreases k,
{
    let a = v[k - 1];
    assert(pas_synchro(a.magasin, a.synchro, a.evenement) == (v[k].magasin, SuiteVue::Demander(
        v[k].synchro,
        v[k].demande,
    )));
    if k == 1 {
        loi_debut_accorde(m, compte, chemin);
        lemme_selection(m, a.synchro, e, entier);
    } else {
        lemme_engagee(m, compte, chemin, v, e, entier, k - 1);
        lemme_pas_engage(a.magasin, a.synchro, a.evenement, v[0].synchro.id, e.etat, entier);
    }
}

} // verus!
