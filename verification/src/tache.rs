//! How the worker of an account deals with a request, step by step.

use vstd::prelude::*;

use crate::annuaire::{
    connu, inscrit, loi_inscription, loi_radiation, raye, sans_doublon, valeur, Annuaire,
};
use crate::chemins::{
    dossier_de_piece, est_dossier_de_piece, est_joint, fichier_dans, loi_piece_dans_son_dossier,
    nom_simple,
};
use crate::commande::{vue_option, Commande, CommandeVue, Identifiants, IdentifiantsVue};
use crate::courrier::{corps_du_brut, pieces_du_brut};
use crate::deplacement::{echec_note, noter_echec, vue_rapport, Rapport, RapportVue};
use crate::flux::{accoler, decoder_octets, texte_des_octets, ErreurVue};
use crate::imap::{Client, Erreur};
use crate::index::{
    corps_affichable, corps_montre, extraire_piece, ouverture_risquee, piece_extraite,
    pieces_jointes, pieces_montrees, risque, type_mime_de, PieceJointeVue,
};
use crate::json::{json_pieces, pieces_json};
use crate::magasin::{vues, Magasin, Operation};
use crate::nombre::{decimal, ecrire_u64};
use crate::synchro::{echec_reseau, texte_echec, vue_issue, Bilan, Echec, EchecVue};
use crate::tables::{dossier_en, message_en, operations_de, MagasinVue, OperationVue};
use crate::texte::{ajouter, ajouter_car, caracteres, chaine, copier, textes};
use crate::travail::{echec, issue_echec, perdue, vue_remise, Issue, IssueVue, Travail};

verus! {

// ------------------------------------------------------------------- what is at hand

/// What a worker has besides its own session.
pub struct Etabli {
    /// The other accounts that a session is open on, to put messages there.
    pub annexes: Annuaire<()>,
    /// What opens the other accounts, as it came with the requests.
    pub identites: Annuaire<Identifiants>,
}

/// What a worker has besides its own session.
pub struct EtabliVue {
    pub annexes: Seq<(i64, ())>,
    pub identites: Seq<(i64, IdentifiantsVue)>,
}

impl View for Etabli {
    type V = EtabliVue;

    open spec fn view(&self) -> EtabliVue {
        EtabliVue { annexes: self.annexes@, identites: self.identites@ }
    }
}

impl Etabli {
    /// What a worker has at its start.
    pub fn nouveau() -> (r: Etabli)
        ensures
            r@ == (EtabliVue { annexes: Seq::empty(), identites: Seq::empty() }),
    {
        Etabli { annexes: Annuaire::nouveau(), identites: Annuaire::nouveau() }
    }
}

/// What is known of accounts, with what is told of some of them.
pub open spec fn etendu<V>(s: Seq<(i64, V)>, t: Seq<(i64, V)>) -> Seq<(i64, V)>
    decreases t.len(),
{
    if t.len() == 0 {
        s
    } else {
        inscrit(etendu(s, t.drop_last()), t.last().0, t.last().1)
    }
}

fn etendre(s: &mut Annuaire<Identifiants>, t: &Annuaire<Identifiants>)
    ensures
        final(s)@ == etendu(old(s)@, t@),
{
    let ghost s0 = s@;
    let n: usize = t.taille();
    assert(t@.take(0) =~= Seq::empty());
    for i in 0..n
        invariant
            n == t@.len(),
            s@ == etendu(s0, t@.take(i as int)),
    {
        let (k, v) = t.entree(i);
        proof {
            assert(t@.take(i + 1).drop_last() =~= t@.take(i as int));
            assert(t@.take(i + 1).last() == t@[i as int]);
        }
        s.inscrire(k, v.clone());
    }
    assert(t@.take(n as int) =~= t@);
}

/// Whether a session on another account is at hand.
pub enum AnnexeVue {
    Prete,
    AOuvrir(IdentifiantsVue),
    Refusee,
}

/// What becomes of the need of a session on another account: one that is open is
/// used, else it is opened if that is possible.
pub open spec fn annexe_de(e: EtabliVue, compte: i64) -> AnnexeVue {
    if connu(e.annexes, compte) {
        AnnexeVue::Prete
    } else {
        match valeur(e.identites, compte) {
            Some(i) => AnnexeVue::AOuvrir(i),
            None => AnnexeVue::Refusee,
        }
    }
}

/// The failure for want of a session on the target account.
pub open spec fn annexe_refusee() -> EchecVue {
    EchecVue::Imap(ErreurVue::Refuse("boîte cible non connectée"@))
}

/// Whether a session on another account is at hand.
pub enum Annexe {
    Prete,
    AOuvrir(Identifiants),
    Refusee(Echec),
}

/// Finds the session on another account that an operation needs.
pub fn annexe(e: &Etabli, compte: i64) -> (r: Annexe)
    ensures
        match r {
            Annexe::Prete => annexe_de(e@, compte) is Prete,
            Annexe::AOuvrir(i) => annexe_de(e@, compte) == AnnexeVue::AOuvrir(i@),
            Annexe::Refusee(x) => annexe_de(e@, compte) is Refusee && x@ == annexe_refusee(),
        },
{
    if e.annexes.connu(compte) {
        return Annexe::Prete;
    }
    match e.identites.valeur(compte) {
        Some(i) => Annexe::AOuvrir(i.clone()),
        None => Annexe::Refusee(Echec::Imap(Erreur::Refuse(copier("boîte cible non connectée")))),
    }
}

// ----------------------------------------------------------------- actions, outcomes

/// Where an attachment is written.
pub enum Emplacement {
    /// At the place that was chosen.
    Choisi(String),
    /// In the working folder of the attachment, under a name.
    Travail { uid: u32, indice: usize, nom: String },
}

/// Where an attachment is written.
pub enum EmplacementVue {
    Choisi(Seq<char>),
    Travail { uid: u32, indice: usize, nom: Seq<char> },
}

impl View for Emplacement {
    type V = EmplacementVue;

    open spec fn view(&self) -> EmplacementVue {
        match self {
            Emplacement::Choisi(f) => EmplacementVue::Choisi(f@),
            Emplacement::Travail { uid, indice, nom } => EmplacementVue::Travail {
                uid: *uid,
                indice: *indice,
                nom: nom@,
            },
        }
    }
}

/// Whether `r` can be a file of the working folder of an attachment.
pub open spec fn est_piece_de_travail(
    profil: Seq<char>,
    compte: i64,
    uid: u32,
    indice: usize,
    nom: Seq<char>,
    r: Seq<char>,
) -> bool {
    exists|d: Seq<char>|
        {
            &&& #[trigger] est_dossier_de_piece(profil, compte, uid, indice, d)
            &&& est_joint(d, nom, r)
        }
}

/// Whether `r` can be the file that an attachment is written to.
pub open spec fn est_fichier(profil: Seq<char>, compte: i64, ou: EmplacementVue, r: Seq<char>) -> bool {
    match ou {
        EmplacementVue::Choisi(f) => r == f,
        EmplacementVue::Travail { uid, indice, nom } => est_piece_de_travail(
            profil,
            compte,
            uid,
            indice,
            nom,
            r,
        ),
    }
}

/// What dealing with a request asks for.
pub enum Action {
    /// To read the tree and the counters of the account and to note them.
    Arborescence,
    /// To synchronise a folder.
    Synchroniser(String),
    /// To read the bytes of a message of a folder, selected first if need be.
    Corps { chemin: String, uid: u32 },
    /// To mark messages of a folder, on the server and in the index.
    Marquer { chemin: String, uids: Vec<u32>, lu: bool },
    /// To create the working folder of an attachment.
    CreerDossier { uid: u32, indice: usize },
    /// To write an attachment.
    Ecrire { ou: Emplacement, contenu: Vec<u8> },
    /// To move messages within the account.
    DansLaBoite { source: String, uids: Vec<u32>, cible: String },
    /// To open a session on another account and to keep it.
    OuvrirAnnexe { compte: i64, identifiants: Identifiants },
    /// To move messages to another account.
    EntreBoites { source: String, uids: Vec<u32>, compte: i64, chemin: String },
    /// To resume an interrupted move.
    Reprendre(Operation),
    /// To see whether the session of the account still answers.
    Noop,
    /// To hand something to the interface.
    Remettre(Issue),
}

/// What dealing with a request asks for.
pub enum ActionVue {
    Arborescence,
    Synchroniser(Seq<char>),
    Corps { chemin: Seq<char>, uid: u32 },
    Marquer { chemin: Seq<char>, uids: Seq<u32>, lu: bool },
    CreerDossier { uid: u32, indice: usize },
    Ecrire { ou: EmplacementVue, contenu: Seq<u8> },
    DansLaBoite { source: Seq<char>, uids: Seq<u32>, cible: Seq<char> },
    OuvrirAnnexe { compte: i64, identifiants: IdentifiantsVue },
    EntreBoites { source: Seq<char>, uids: Seq<u32>, compte: i64, chemin: Seq<char> },
    Reprendre(OperationVue),
    Noop,
    Remettre(IssueVue),
}

impl View for Action {
    type V = ActionVue;

    open spec fn view(&self) -> ActionVue {
        match self {
            Action::Arborescence => ActionVue::Arborescence,
            Action::Synchroniser(c) => ActionVue::Synchroniser(c@),
            Action::Corps { chemin, uid } => ActionVue::Corps { chemin: chemin@, uid: *uid },
            Action::Marquer { chemin, uids, lu } => ActionVue::Marquer {
                chemin: chemin@,
                uids: uids@,
                lu: *lu,
            },
            Action::CreerDossier { uid, indice } => ActionVue::CreerDossier {
                uid: *uid,
                indice: *indice,
            },
            Action::Ecrire { ou, contenu } => ActionVue::Ecrire { ou: ou@, contenu: contenu@ },
            Action::DansLaBoite { source, uids, cible } => ActionVue::DansLaBoite {
                source: source@,
                uids: uids@,
                cible: cible@,
            },
            Action::OuvrirAnnexe { compte, identifiants } => ActionVue::OuvrirAnnexe {
                compte: *compte,
                identifiants: identifiants@,
            },
            Action::EntreBoites { source, uids, compte, chemin } => ActionVue::EntreBoites {
                source: source@,
                uids: uids@,
                compte: *compte,
                chemin: chemin@,
            },
            Action::Reprendre(o) => ActionVue::Reprendre(o@),
            Action::Noop => ActionVue::Noop,
            Action::Remettre(i) => ActionVue::Remettre(i@),
        }
    }
}

/// What came of what was asked for.
pub enum Evenement {
    /// Of the tree, a marking, a session on another account, or a resumed move.
    Fait(Result<(), Echec>),
    Synchro(Result<Bilan, Echec>),
    Corps(Result<Vec<u8>, Echec>),
    /// Else the folder and what went wrong.
    DossierCree(Result<(), (String, String)>),
    /// The file written; else that file and what went wrong.
    Ecrit(Result<String, (String, String)>),
    Deplace(Result<Rapport, Echec>),
    /// Whether the session answered.
    Noop(bool),
    Remis,
}

/// What came of what was asked for.
pub enum EvenementVue {
    Fait(Result<(), EchecVue>),
    Synchro(Result<Bilan, EchecVue>),
    Corps(Result<Seq<u8>, EchecVue>),
    DossierCree(Result<(), (Seq<char>, Seq<char>)>),
    Ecrit(Result<Seq<char>, (Seq<char>, Seq<char>)>),
    Deplace(Result<RapportVue, EchecVue>),
    Noop(bool),
    Remis,
}

impl View for Evenement {
    type V = EvenementVue;

    open spec fn view(&self) -> EvenementVue {
        match self {
            Evenement::Fait(r) => EvenementVue::Fait(vue_issue(*r)),
            Evenement::Synchro(Ok(b)) => EvenementVue::Synchro(Ok(*b)),
            Evenement::Synchro(Err(e)) => EvenementVue::Synchro(Err(e@)),
            Evenement::Corps(Ok(o)) => EvenementVue::Corps(Ok(o@)),
            Evenement::Corps(Err(e)) => EvenementVue::Corps(Err(e@)),
            Evenement::DossierCree(Ok(())) => EvenementVue::DossierCree(Ok(())),
            Evenement::DossierCree(Err((d, e))) => EvenementVue::DossierCree(Err((d@, e@))),
            Evenement::Ecrit(Ok(f)) => EvenementVue::Ecrit(Ok(f@)),
            Evenement::Ecrit(Err((f, e))) => EvenementVue::Ecrit(Err((f@, e@))),
            Evenement::Deplace(r) => EvenementVue::Deplace(vue_rapport(*r)),
            Evenement::Noop(b) => EvenementVue::Noop(*b),
            Evenement::Remis => EvenementVue::Remis,
        }
    }
}

// ------------------------------------------------------------------------------ model

/// What the resumption of the interrupted moves of an account awaits.
pub enum AttenteVue {
    /// The session on the target account of the current move.
    Annexe,
    /// The current move to be resumed.
    Operation,
    /// Whether the session of the account still answers, after a failure.
    Epreuve(EchecVue),
    /// The tree of the account.
    Recompte,
}

/// The resumption of the interrupted moves of an account.
pub struct SuiviVue {
    /// Whether it is part of the periodic check.
    pub veille: bool,
    pub operations: Seq<OperationVue>,
    /// Rank of the current move.
    pub rang: int,
    pub soldees: int,
    pub erreurs: Seq<Seq<char>>,
    pub attente: AttenteVue,
}

/// What dealing with a request awaits.
pub enum TacheVue {
    Arborescence,
    Dossier(Seq<char>),
    Corps { chemin: Seq<char>, uid: u32, brut: bool },
    /// The message that was read to be marked.
    Marquage { uid: u32, texte: Seq<char>, pieces: Seq<char> },
    /// The message that an attachment is part of.
    Piece { uid: u32, indice: usize, destination: Option<Seq<char>> },
    DossierPiece { uid: u32, indice: usize, nom: Seq<char>, contenu: Seq<u8> },
    Ecriture { ouvrir: bool },
    MarquerLu,
    /// The session on the target account of a move.
    Annexe { source: Seq<char>, uids: Seq<u32>, cible: i64, chemin: Seq<char> },
    Deplacement { cible: i64, chemin: Seq<char> },
    /// The tree, once messages were moved.
    Recompte { cible: i64, chemin: Seq<char>, resultat: Result<RapportVue, EchecVue> },
    /// Whether the session of the account still answers, after a failed move.
    Epreuve(EchecVue),
    Reprise(SuiviVue),
    VeilleArborescence,
    VeilleRemise,
    VeilleSynchro(Seq<char>),
}

/// What a step leads to.
pub enum SuiteVue {
    Faire(TacheVue, ActionVue),
    Fini(Option<IssueVue>),
}

/// The failure to read a message.
pub open spec fn echec_corps(uid: u32, x: EchecVue) -> SuiteVue {
    SuiteVue::Fini(
        Some(
            issue_echec(
                "message"@,
                "lecture du message "@ + decimal(uid as nat) + " : "@ + texte_echec(x),
                x,
            ),
        ),
    )
}

/// A failure whose text follows a prefix.
pub open spec fn echec_de(etape: Seq<char>, prefixe: Seq<char>, x: EchecVue) -> SuiteVue {
    SuiteVue::Fini(Some(issue_echec(etape, prefixe + texte_echec(x), x)))
}

/// The failure to write an attachment.
pub open spec fn echec_piece(x: EchecVue) -> SuiteVue {
    echec_de("message"@, "pièce jointe : "@, x)
}

/// The refusal to open what is a program or a script.
pub open spec fn refus_ouverture(nom: Seq<char>) -> EchecVue {
    EchecVue::Index(
        nom + " est un programme ou un script : enregistrez-le plutôt que de l'ouvrir"@,
    )
}

/// The attachments of a message, as the interface shows them.
pub open spec fn pieces_du_corps(octets: Seq<u8>) -> Seq<char> {
    pieces_json(
        match pieces_du_brut(octets) {
            Some(v) => pieces_montrees(v),
            None => Seq::<PieceJointeVue>::empty(),
        },
    )
}

/// What becomes of a message that was read. One that is shown, and not its source, is
/// marked as read.
pub open spec fn corps_lu(
    compte: i64,
    m: MagasinVue,
    chemin: Seq<char>,
    uid: u32,
    brut: bool,
    octets: Seq<u8>,
) -> SuiteVue {
    let pieces = pieces_du_corps(octets);
    if brut {
        SuiteVue::Fini(
            Some(
                IssueVue::Corps {
                    uid,
                    texte: texte_des_octets(octets),
                    brut: true,
                    marque: false,
                    pieces,
                },
            ),
        )
    } else {
        let texte = corps_montre(corps_du_brut(octets));
        match dossier_en(m.dossiers, compte, chemin) {
            None => echec_corps(uid, EchecVue::Index("Query returned no rows"@)),
            Some(d) => {
                let non_lu = match message_en(m.messages, d.id, uid) {
                    Some(l) => !l.message.lu,
                    None => false,
                };
                if non_lu {
                    SuiteVue::Faire(
                        TacheVue::Marquage { uid, texte, pieces },
                        ActionVue::Marquer { chemin, uids: seq![uid], lu: true },
                    )
                } else {
                    SuiteVue::Fini(
                        Some(IssueVue::Corps { uid, texte, brut: false, marque: false, pieces }),
                    )
                }
            },
        }
    }
}

/// What becomes of an attachment that was read. A program is never written in order
/// to be opened.
pub open spec fn piece_lue(
    uid: u32,
    indice: usize,
    destination: Option<Seq<char>>,
    piece: Option<(Seq<char>, Seq<u8>)>,
) -> SuiteVue {
    match piece {
        None => echec_piece(
            EchecVue::Index("pièce jointe "@ + decimal(indice as nat) + " introuvable"@),
        ),
        Some((nom, contenu)) => match destination {
            Some(d) => SuiteVue::Faire(
                TacheVue::Ecriture { ouvrir: false },
                ActionVue::Ecrire { ou: EmplacementVue::Choisi(d), contenu },
            ),
            None => if risque(nom) {
                echec_piece(refus_ouverture(nom))
            } else {
                SuiteVue::Faire(
                    TacheVue::DossierPiece { uid, indice, nom, contenu },
                    ActionVue::CreerDossier { uid, indice },
                )
            },
        },
    }
}

/// Moved messages change the counters of both folders: the tree is read again.
pub open spec fn a_recompter(
    cible: i64,
    chemin: Seq<char>,
    resultat: Result<RapportVue, EchecVue>,
) -> SuiteVue {
    SuiteVue::Faire(TacheVue::Recompte { cible, chemin, resultat }, ActionVue::Arborescence)
}

/// The end of the periodic check: the open folder is synchronised.
pub open spec fn suite_veille(selection: Option<Seq<char>>) -> SuiteVue {
    match selection {
        Some(c) => SuiteVue::Faire(TacheVue::VeilleSynchro(c), ActionVue::Synchroniser(c)),
        None => SuiteVue::Fini(Some(IssueVue::Arborescence)),
    }
}

/// The end of a resumption. What a resumption of the periodic check gives is handed
/// out on its own, and the check goes on, unless the session is lost.
pub open spec fn reprise_finie(
    veille: bool,
    selection: Option<Seq<char>>,
    issue: Option<IssueVue>,
) -> SuiteVue {
    if !veille {
        SuiteVue::Fini(issue)
    } else {
        match issue {
            None => suite_veille(selection),
            Some(i) => if perdue(i) {
                SuiteVue::Fini(Some(i))
            } else {
                SuiteVue::Faire(TacheVue::VeilleRemise, ActionVue::Remettre(i))
            },
        }
    }
}

/// The next move to be resumed, from the rank of the resumption on. One whose target
/// account is not connected yet waits.
pub open spec fn reprise_suivante(
    selection: Option<Seq<char>>,
    e: EtabliVue,
    s: SuiviVue,
) -> SuiteVue
    decreases s.operations.len() - s.rang,
{
    if s.rang >= s.operations.len() {
        if s.soldees == 0 && s.erreurs.len() == 0 {
            reprise_finie(s.veille, selection, None)
        } else {
            SuiteVue::Faire(
                TacheVue::Reprise(SuiviVue { attente: AttenteVue::Recompte, ..s }),
                ActionVue::Arborescence,
            )
        }
    } else {
        let o = s.operations[s.rang];
        match valeur(e.identites, o.compte_cible) {
            None => reprise_suivante(selection, e, SuiviVue { rang: s.rang + 1, ..s }),
            Some(i) => if connu(e.annexes, o.compte_cible) {
                SuiteVue::Faire(
                    TacheVue::Reprise(SuiviVue { attente: AttenteVue::Operation, ..s }),
                    ActionVue::Reprendre(o),
                )
            } else {
                SuiteVue::Faire(
                    TacheVue::Reprise(SuiviVue { attente: AttenteVue::Annexe, ..s }),
                    ActionVue::OuvrirAnnexe { compte: o.compte_cible, identifiants: i },
                )
            },
        }
    }
}

/// The start of a resumption of the interrupted moves whose source is an account.
pub open spec fn reprise_entamee(
    compte: i64,
    selection: Option<Seq<char>>,
    m: MagasinVue,
    e: EtabliVue,
    veille: bool,
) -> SuiteVue {
    reprise_suivante(
        selection,
        e,
        SuiviVue {
            veille,
            operations: operations_de(m.operations, compte),
            rang: 0,
            soldees: 0,
            erreurs: Seq::empty(),
            attente: AttenteVue::Recompte,
        },
    )
}

/// The next move to be resumed, once the current one failed.
pub open spec fn reprise_ratee(
    selection: Option<Seq<char>>,
    e: EtabliVue,
    s: SuiviVue,
    texte: Seq<char>,
) -> SuiteVue {
    reprise_suivante(
        selection,
        e,
        SuiviVue { rang: s.rang + 1, erreurs: s.erreurs.push(texte), ..s },
    )
}

/// Without the session on an account.
pub open spec fn sans_annexe(e: EtabliVue, compte: i64) -> EtabliVue {
    EtabliVue { annexes: raye(e.annexes, compte), ..e }
}

/// With a session on an account.
pub open spec fn avec_annexe(e: EtabliVue, compte: i64) -> EtabliVue {
    EtabliVue { annexes: inscrit(e.annexes, compte, ()), ..e }
}

/// What is handed out when an outcome is not one of what was asked for.
pub open spec fn imprevu() -> SuiteVue {
    SuiteVue::Fini(
        Some(
            IssueVue::Echec {
                etape: "reseau"@,
                message: "réponse inattendue"@,
                session_perdue: true,
            },
        ),
    )
}

/// One step of the resumption of the interrupted moves of an account.
pub open spec fn pas_suivi(
    selection: Option<Seq<char>>,
    m: MagasinVue,
    e: EtabliVue,
    s: SuiviVue,
    ev: EvenementVue,
) -> (MagasinVue, EtabliVue, SuiteVue) {
    let o = s.operations[s.rang];
    match (s.attente, ev) {
        (AttenteVue::Annexe, EvenementVue::Fait(Ok(()))) => (
            m,
            avec_annexe(e, o.compte_cible),
            SuiteVue::Faire(
                TacheVue::Reprise(SuiviVue { attente: AttenteVue::Operation, ..s }),
                ActionVue::Reprendre(o),
            ),
        ),
        (AttenteVue::Annexe, EvenementVue::Fait(Err(x))) => (
            m,
            e,
            reprise_ratee(selection, e, s, texte_echec(x)),
        ),
        (AttenteVue::Operation, EvenementVue::Fait(Ok(()))) => (
            m,
            e,
            reprise_suivante(
                selection,
                e,
                SuiviVue { rang: s.rang + 1, soldees: s.soldees + 1, ..s },
            ),
        ),
        (AttenteVue::Operation, EvenementVue::Fait(Err(x))) => if echec_reseau(x) {
            (
                echec_note(m, o.id, texte_echec(x)),
                e,
                SuiteVue::Faire(
                    TacheVue::Reprise(SuiviVue { attente: AttenteVue::Epreuve(x), ..s }),
                    ActionVue::Noop,
                ),
            )
        } else {
            let f = sans_annexe(e, o.compte_cible);
            (echec_note(m, o.id, texte_echec(x)), f, reprise_ratee(selection, f, s, texte_echec(x)))
        },
        (AttenteVue::Epreuve(x), EvenementVue::Noop(repond)) => if repond {
            let f = sans_annexe(e, o.compte_cible);
            (m, f, reprise_ratee(selection, f, s, texte_echec(x)))
        } else {
            (
                m,
                e,
                reprise_finie(
                    s.veille,
                    selection,
                    Some(issue_echec("tri"@, "reprise : "@ + texte_echec(x), x)),
                ),
            )
        },
        (AttenteVue::Recompte, EvenementVue::Fait(_)) => (
            m,
            e,
            reprise_finie(
                s.veille,
                selection,
                Some(
                    IssueVue::Repris {
                        rapport: RapportVue {
                            deplaces: s.soldees as usize,
                            absents: 0,
                            erreurs: s.erreurs,
                        },
                    },
                ),
            ),
        ),
        _ => (m, e, imprevu()),
    }
}

/// One step of dealing with a request, for the worker of the account `compte` whose
/// session has the folder `selection` open.
pub open spec fn pas_tache(
    compte: i64,
    selection: Option<Seq<char>>,
    m: MagasinVue,
    e: EtabliVue,
    t: TacheVue,
    ev: EvenementVue,
) -> (MagasinVue, EtabliVue, SuiteVue) {
    match (t, ev) {
        (TacheVue::Arborescence, EvenementVue::Fait(Ok(()))) => (
            m,
            e,
            SuiteVue::Fini(Some(IssueVue::Arborescence)),
        ),
        (TacheVue::Arborescence, EvenementVue::Fait(Err(x))) => (
            m,
            e,
            echec_de("dossier"@, "lecture des dossiers : "@, x),
        ),
        (TacheVue::Dossier(c), EvenementVue::Synchro(Ok(_))) => (
            m,
            e,
            SuiteVue::Fini(Some(IssueVue::Dossier { chemin: c, veille: false })),
        ),
        (TacheVue::Dossier(c), EvenementVue::Synchro(Err(x))) => (
            m,
            e,
            echec_de("dossier"@, "ouverture de "@ + c + " : "@, x),
        ),
        (TacheVue::Corps { chemin, uid, brut }, EvenementVue::Corps(Ok(octets))) => (
            m,
            e,
            corps_lu(compte, m, chemin, uid, brut, octets),
        ),
        (TacheVue::Corps { chemin, uid, brut }, EvenementVue::Corps(Err(x))) => (
            m,
            e,
            echec_corps(uid, x),
        ),
        (TacheVue::Marquage { uid, texte, pieces }, EvenementVue::Fait(Ok(()))) => (
            m,
            e,
            SuiteVue::Fini(
                Some(IssueVue::Corps { uid, texte, brut: false, marque: true, pieces }),
            ),
        ),
        (TacheVue::Marquage { uid, texte, pieces }, EvenementVue::Fait(Err(x))) => (
            m,
            e,
            echec_corps(uid, x),
        ),
        (TacheVue::Piece { uid, indice, destination }, EvenementVue::Corps(Ok(octets))) => (
            m,
            e,
            piece_lue(
                uid,
                indice,
                destination,
                piece_extraite(pieces_du_brut(octets), indice as int),
            ),
        ),
        (TacheVue::Piece { uid, indice, destination }, EvenementVue::Corps(Err(x))) => (
            m,
            e,
            echec_piece(x),
        ),
        (
            TacheVue::DossierPiece { uid, indice, nom, contenu },
            EvenementVue::DossierCree(Ok(())),
        ) => (
            m,
            e,
            SuiteVue::Faire(
                TacheVue::Ecriture { ouvrir: true },
                ActionVue::Ecrire { ou: EmplacementVue::Travail { uid, indice, nom }, contenu },
            ),
        ),
        (TacheVue::DossierPiece { .. }, EvenementVue::DossierCree(Err((d, x)))) => (
            m,
            e,
            echec_piece(EchecVue::Index(d + " : "@ + x)),
        ),
        (TacheVue::Ecriture { ouvrir }, EvenementVue::Ecrit(Ok(f))) => (
            m,
            e,
            SuiteVue::Fini(Some(IssueVue::Piece { fichier: f, ouvrir })),
        ),
        (TacheVue::Ecriture { ouvrir }, EvenementVue::Ecrit(Err((f, x)))) => (
            m,
            e,
            echec_piece(EchecVue::Index(f + " : "@ + x)),
        ),
        (TacheVue::MarquerLu, EvenementVue::Fait(Ok(()))) => (
            m,
            e,
            SuiteVue::Fini(Some(IssueVue::Marque)),
        ),
        (TacheVue::MarquerLu, EvenementVue::Fait(Err(x))) => (
            m,
            e,
            echec_de("tri"@, "marquage : "@, x),
        ),
        (TacheVue::Annexe { source, uids, cible, chemin }, EvenementVue::Fait(Ok(()))) => (
            m,
            avec_annexe(e, cible),
            SuiteVue::Faire(
                TacheVue::Deplacement { cible, chemin },
                ActionVue::EntreBoites { source, uids, compte: cible, chemin },
            ),
        ),
        (TacheVue::Annexe { source, uids, cible, chemin }, EvenementVue::Fait(Err(x))) => (
            m,
            e,
            a_recompter(cible, chemin, Err(x)),
        ),
        (TacheVue::Deplacement { cible, chemin }, EvenementVue::Deplace(r)) => (
            m,
            e,
            a_recompter(cible, chemin, r),
        ),
        (
            TacheVue::Recompte { cible, chemin, resultat: Ok(rapport) },
            EvenementVue::Fait(_),
        ) => (
            m,
            e,
            SuiteVue::Fini(Some(IssueVue::Deplace { cible, chemin_cible: chemin, rapport })),
        ),
        (TacheVue::Recompte { cible, chemin, resultat: Err(x) }, EvenementVue::Fait(_)) => if
        echec_reseau(x) {
            // If it is the target account that failed, the session of the source is
            // still good.
            (
                m,
                sans_annexe(e, cible),
                SuiteVue::Faire(TacheVue::Epreuve(x), ActionVue::Noop),
            )
        } else {
            (m, e, echec_de("tri"@, "déplacement : "@, x))
        },
        (TacheVue::Epreuve(x), EvenementVue::Noop(repond)) => (
            m,
            e,
            if repond {
                SuiteVue::Fini(
                    Some(
                        IssueVue::Echec {
                            etape: "tri"@,
                            message: "déplacement interrompu, il reprendra : "@ + texte_echec(x),
                            session_perdue: false,
                        },
                    ),
                )
            } else {
                echec_de("tri"@, "déplacement : "@, x)
            },
        ),
        (TacheVue::Reprise(s), _) => pas_suivi(selection, m, e, s, ev),
        (TacheVue::VeilleArborescence, EvenementVue::Fait(Ok(()))) => (
            m,
            e,
            reprise_entamee(compte, selection, m, e, true),
        ),
        (TacheVue::VeilleArborescence, EvenementVue::Fait(Err(x))) => (
            m,
            e,
            echec_de("dossier"@, "veille : "@, x),
        ),
        (TacheVue::VeilleRemise, EvenementVue::Remis) => (m, e, suite_veille(selection)),
        (TacheVue::VeilleSynchro(c), EvenementVue::Synchro(Ok(b))) => (
            m,
            e,
            SuiteVue::Fini(
                Some(
                    if b.nouveaux > 0 || b.retires > 0 {
                        IssueVue::Dossier { chemin: c, veille: true }
                    } else {
                        IssueVue::Arborescence
                    },
                ),
            ),
        ),
        (TacheVue::VeilleSynchro(c), EvenementVue::Synchro(Err(x))) => (
            m,
            e,
            echec_de("dossier"@, "veille : "@, x),
        ),
        _ => (m, e, imprevu()),
    }
}

/// The start of dealing with a request.
pub open spec fn tache_entamee(
    compte: i64,
    selection: Option<Seq<char>>,
    m: MagasinVue,
    e: EtabliVue,
    commande: CommandeVue,
) -> (EtabliVue, SuiteVue) {
    match commande {
        CommandeVue::Arborescence => (
            e,
            SuiteVue::Faire(TacheVue::Arborescence, ActionVue::Arborescence),
        ),
        CommandeVue::OuvrirDossier(c) => (
            e,
            SuiteVue::Faire(TacheVue::Dossier(c), ActionVue::Synchroniser(c)),
        ),
        CommandeVue::Corps { chemin, uid, brut } => (
            e,
            SuiteVue::Faire(
                TacheVue::Corps { chemin, uid, brut },
                ActionVue::Corps { chemin, uid },
            ),
        ),
        CommandeVue::Piece { chemin, uid, indice, destination } => (
            e,
            SuiteVue::Faire(
                TacheVue::Piece { uid, indice, destination },
                ActionVue::Corps { chemin, uid },
            ),
        ),
        CommandeVue::MarquerLu { chemin, uids, lu } => (
            e,
            SuiteVue::Faire(TacheVue::MarquerLu, ActionVue::Marquer { chemin, uids, lu }),
        ),
        CommandeVue::Deplacer { source, uids, cible } => {
            let f = match cible.identifiants {
                Some(i) => EtabliVue { identites: inscrit(e.identites, cible.compte, i), ..e },
                None => e,
            };
            if cible.compte == compte {
                (
                    f,
                    SuiteVue::Faire(
                        TacheVue::Deplacement { cible: cible.compte, chemin: cible.chemin },
                        ActionVue::DansLaBoite { source, uids, cible: cible.chemin },
                    ),
                )
            } else {
                (
                    f,
                    match annexe_de(f, cible.compte) {
                        AnnexeVue::Prete => SuiteVue::Faire(
                            TacheVue::Deplacement { cible: cible.compte, chemin: cible.chemin },
                            ActionVue::EntreBoites {
                                source,
                                uids,
                                compte: cible.compte,
                                chemin: cible.chemin,
                            },
                        ),
                        AnnexeVue::AOuvrir(i) => SuiteVue::Faire(
                            TacheVue::Annexe {
                                source,
                                uids,
                                cible: cible.compte,
                                chemin: cible.chemin,
                            },
                            ActionVue::OuvrirAnnexe { compte: cible.compte, identifiants: i },
                        ),
                        AnnexeVue::Refusee => a_recompter(
                            cible.compte,
                            cible.chemin,
                            Err(annexe_refusee()),
                        ),
                    },
                )
            }
        },
        CommandeVue::Reprendre(i) => {
            let f = EtabliVue { identites: etendu(e.identites, i), ..e };
            (f, reprise_entamee(compte, selection, m, f, false))
        },
        CommandeVue::Veille => (
            e,
            SuiteVue::Faire(TacheVue::VeilleArborescence, ActionVue::Arborescence),
        ),
    }
}

// ------------------------------------------------------------------------------- code

/// What the resumption of the interrupted moves of an account awaits.
pub enum Attente {
    Annexe,
    Operation,
    Epreuve(Echec),
    Recompte,
}

impl View for Attente {
    type V = AttenteVue;

    open spec fn view(&self) -> AttenteVue {
        match self {
            Attente::Annexe => AttenteVue::Annexe,
            Attente::Operation => AttenteVue::Operation,
            Attente::Epreuve(e) => AttenteVue::Epreuve(e@),
            Attente::Recompte => AttenteVue::Recompte,
        }
    }
}

/// The resumption of the interrupted moves of an account.
pub struct Suivi {
    veille: bool,
    operations: Vec<Operation>,
    rang: usize,
    soldees: usize,
    erreurs: Vec<String>,
    attente: Attente,
}

impl View for Suivi {
    type V = SuiviVue;

    closed spec fn view(&self) -> SuiviVue {
        SuiviVue {
            veille: self.veille,
            operations: vues(self.operations@),
            rang: self.rang as int,
            soldees: self.soldees as int,
            erreurs: textes(self.erreurs@),
            attente: self.attente@,
        }
    }
}

/// What dealing with a request awaits.
pub enum Tache {
    Arborescence,
    Dossier(String),
    Corps { chemin: String, uid: u32, brut: bool },
    Marquage { uid: u32, texte: String, pieces: String },
    Piece { uid: u32, indice: usize, destination: Option<String> },
    DossierPiece { uid: u32, indice: usize, nom: String, contenu: Vec<u8> },
    Ecriture { ouvrir: bool },
    MarquerLu,
    Annexe { source: String, uids: Vec<u32>, cible: i64, chemin: String },
    Deplacement { cible: i64, chemin: String },
    Recompte { cible: i64, chemin: String, resultat: Result<Rapport, Echec> },
    Epreuve(Echec),
    Reprise(Suivi),
    VeilleArborescence,
    VeilleRemise,
    VeilleSynchro(String),
}

impl View for Tache {
    type V = TacheVue;

    open spec fn view(&self) -> TacheVue {
        match self {
            Tache::Arborescence => TacheVue::Arborescence,
            Tache::Dossier(c) => TacheVue::Dossier(c@),
            Tache::Corps { chemin, uid, brut } => TacheVue::Corps {
                chemin: chemin@,
                uid: *uid,
                brut: *brut,
            },
            Tache::Marquage { uid, texte, pieces } => TacheVue::Marquage {
                uid: *uid,
                texte: texte@,
                pieces: pieces@,
            },
            Tache::Piece { uid, indice, destination } => TacheVue::Piece {
                uid: *uid,
                indice: *indice,
                destination: vue_option(*destination),
            },
            Tache::DossierPiece { uid, indice, nom, contenu } => TacheVue::DossierPiece {
                uid: *uid,
                indice: *indice,
                nom: nom@,
                contenu: contenu@,
            },
            Tache::Ecriture { ouvrir } => TacheVue::Ecriture { ouvrir: *ouvrir },
            Tache::MarquerLu => TacheVue::MarquerLu,
            Tache::Annexe { source, uids, cible, chemin } => TacheVue::Annexe {
                source: source@,
                uids: uids@,
                cible: *cible,
                chemin: chemin@,
            },
            Tache::Deplacement { cible, chemin } => TacheVue::Deplacement {
                cible: *cible,
                chemin: chemin@,
            },
            Tache::Recompte { cible, chemin, resultat } => TacheVue::Recompte {
                cible: *cible,
                chemin: chemin@,
                resultat: vue_rapport(*resultat),
            },
            Tache::Epreuve(e) => TacheVue::Epreuve(e@),
            Tache::Reprise(s) => TacheVue::Reprise(s@),
            Tache::VeilleArborescence => TacheVue::VeilleArborescence,
            Tache::VeilleRemise => TacheVue::VeilleRemise,
            Tache::VeilleSynchro(c) => TacheVue::VeilleSynchro(c@),
        }
    }
}

/// What a step leads to.
pub enum Suite {
    /// Something is to be done.
    Faire(Tache, Action),
    /// The request is dealt with.
    Fini(Option<Issue>),
}

impl View for Suite {
    type V = SuiteVue;

    open spec fn view(&self) -> SuiteVue {
        match self {
            Suite::Faire(t, a) => SuiteVue::Faire(t@, a@),
            Suite::Fini(i) => SuiteVue::Fini(vue_remise(*i)),
        }
    }
}

impl Suivi {
    /// Whether the current move is one of those to resume, or all are past.
    pub closed spec fn bien_forme(&self) -> bool {
        &&& self.soldees <= self.rang <= self.operations@.len()
        &&& !(self.attente is Recompte) ==> self.rang < self.operations@.len()
    }
}

impl Tache {
    /// Whether what is awaited can come.
    pub open spec fn bien_formee(&self) -> bool {
        self matches Tache::Reprise(s) ==> s.bien_forme()
    }
}

/// Whether what a step leads to can be followed.
pub open spec fn suite_bien_formee(s: Suite) -> bool {
    s matches Suite::Faire(t, _) ==> t.bien_formee()
}

/// What a selected folder holds.
pub open spec fn vue_selection(s: Option<&str>) -> Option<Seq<char>> {
    match s {
        Some(c) => Some(c@),
        None => None,
    }
}

fn finir(i: Issue) -> (r: Suite)
    ensures
        r@ == SuiteVue::Fini(Some(i@)),
        suite_bien_formee(r),
{
    Suite::Fini(Some(i))
}

fn rater(etape: &'static str, prefixe: &str, x: &Echec) -> (r: Suite)
    ensures
        r@ == echec_de(etape@, prefixe@, x@),
        suite_bien_formee(r),
{
    let t = x.texte();
    finir(echec(etape, accoler(prefixe, t.as_str()), x))
}

fn rater_corps(uid: u32, x: &Echec) -> (r: Suite)
    ensures
        r@ == echec_corps(uid, x@),
        suite_bien_formee(r),
{
    let mut v = caracteres("lecture du message ");
    let n = ecrire_u64(uid as u64);
    ajouter_car(&mut v, n.as_slice());
    ajouter(&mut v, " : ");
    let t = x.texte();
    ajouter(&mut v, t.as_str());
    finir(echec("message", chaine(v.as_slice()), x))
}

fn rater_piece(message: String) -> (r: Suite)
    ensures
        r@ == echec_piece(EchecVue::Index(message@)),
        suite_bien_formee(r),
{
    rater("message", "pièce jointe : ", &Echec::Index(crate::magasin::Erreur(message)))
}

fn rater_fichier(fichier: &str, x: &str) -> (r: Suite)
    ensures
        r@ == echec_piece(EchecVue::Index(fichier@ + " : "@ + x@)),
        suite_bien_formee(r),
{
    let mut v = caracteres(fichier);
    ajouter(&mut v, " : ");
    ajouter(&mut v, x);
    rater_piece(chaine(v.as_slice()))
}

fn surprise() -> (r: Suite)
    ensures
        r@ == imprevu(),
        suite_bien_formee(r),
{
    finir(
        Issue::Echec {
            etape: "reseau",
            message: copier("réponse inattendue"),
            session_perdue: true,
        },
    )
}

/// What becomes of the bytes of a message that was asked for. One that is shown, and
/// not its source, is marked as read.
pub fn lire_corps(
    compte: i64,
    magasin: &Magasin,
    chemin: String,
    uid: u32,
    brut: bool,
    octets: &[u8],
) -> (r: Suite)
    ensures
        r@ == corps_lu(compte, magasin@, chemin@, uid, brut, octets@),
        suite_bien_formee(r),
{
    let jointes = pieces_jointes(octets);
    let pieces = json_pieces(jointes.as_slice());
    if brut {
        let texte = decoder_octets(octets);
        return finir(Issue::Corps { uid, texte, brut: true, marque: false, pieces });
    }
    let texte = corps_affichable(octets);
    let id: i64 = match magasin.dossier_id(compte, chemin.as_str()) {
        Ok(id) => id,
        Err(e) => {
            return rater_corps(uid, &Echec::Index(e));
        },
    };
    let non_lu = match magasin.message(id, uid) {
        Ok(Some(m)) => !m.lu,
        _ => false,
    };
    if non_lu {
        let mut uids: Vec<u32> = Vec::new();
        uids.push(uid);
        assert(uids@ =~= seq![uid]);
        Suite::Faire(
            Tache::Marquage { uid, texte, pieces },
            Action::Marquer { chemin, uids, lu: true },
        )
    } else {
        finir(Issue::Corps { uid, texte, brut: false, marque: false, pieces })
    }
}

/// What becomes of an attachment that was read: it is written at the place chosen, or
/// in its working folder in order to be opened. A program is never written in order
/// to be opened.
pub fn ecrire_piece(
    uid: u32,
    indice: usize,
    destination: Option<String>,
    piece: Option<(String, Vec<u8>)>,
) -> (r: Suite)
    ensures
        r@ == piece_lue(
            uid,
            indice,
            vue_option(destination),
            match piece {
                Some((n, c)) => Some((n@, c@)),
                None => None,
            },
        ),
        suite_bien_formee(r),
{
    match piece {
        None => {
            let mut v = caracteres("pièce jointe ");
            let n = ecrire_u64(indice as u64);
            ajouter_car(&mut v, n.as_slice());
            ajouter(&mut v, " introuvable");
            rater_piece(chaine(v.as_slice()))
        },
        Some((nom, contenu)) => match destination {
            Some(d) => Suite::Faire(
                Tache::Ecriture { ouvrir: false },
                Action::Ecrire { ou: Emplacement::Choisi(d), contenu },
            ),
            None => if ouverture_risquee(nom.as_str()) {
                rater_piece(
                    accoler(
                        nom.as_str(),
                        " est un programme ou un script : enregistrez-le plutôt que de l'ouvrir",
                    ),
                )
            } else {
                Suite::Faire(
                    Tache::DossierPiece { uid, indice, nom, contenu },
                    Action::CreerDossier { uid, indice },
                )
            },
        },
    }
}

fn recompter(cible: i64, chemin: String, resultat: Result<Rapport, Echec>) -> (r: Suite)
    ensures
        r@ == a_recompter(cible, chemin@, vue_rapport(resultat)),
        suite_bien_formee(r),
{
    Suite::Faire(Tache::Recompte { cible, chemin, resultat }, Action::Arborescence)
}

fn veiller(selection: Option<&str>) -> (r: Suite)
    ensures
        r@ == suite_veille(vue_selection(selection)),
        suite_bien_formee(r),
{
    match selection {
        Some(c) => Suite::Faire(Tache::VeilleSynchro(copier(c)), Action::Synchroniser(copier(c))),
        None => finir(Issue::Arborescence),
    }
}

fn finir_reprise(veille: bool, selection: Option<&str>, issue: Option<Issue>) -> (r: Suite)
    ensures
        r@ == reprise_finie(veille, vue_selection(selection), vue_remise(issue)),
        suite_bien_formee(r),
{
    if !veille {
        return Suite::Fini(issue);
    }
    match issue {
        None => veiller(selection),
        Some(Issue::Echec { etape, message, session_perdue: true }) => Suite::Fini(
            Some(Issue::Echec { etape, message, session_perdue: true }),
        ),
        Some(i) => Suite::Faire(Tache::VeilleRemise, Action::Remettre(i)),
    }
}

impl Suivi {
    /// Goes on to the next move to be resumed.
    fn continuer(self, selection: Option<&str>, etabli: &Etabli) -> (r: Suite)
        requires
            self.soldees <= self.rang <= self.operations@.len(),
        ensures
            r@ == reprise_suivante(vue_selection(selection), etabli@, self@),
            suite_bien_formee(r),
    {
        let mut s = self;
        let n: usize = s.operations.len();
        while s.rang < n
            invariant
                n == s.operations@.len(),
                s.soldees <= s.rang <= n,
                reprise_suivante(vue_selection(selection), etabli@, s@) == reprise_suivante(
                    vue_selection(selection),
                    etabli@,
                    self@,
                ),
            decreases n - s.rang,
        {
            assert(s@.operations[s.rang as int] == s.operations@[s.rang as int]@);
            let cible: i64 = s.operations[s.rang].compte_cible;
            match etabli.identites.valeur(cible) {
                None => {
                    s.rang = s.rang + 1;
                },
                Some(i) => {
                    if etabli.annexes.connu(cible) {
                        let o = s.operations[s.rang].clone();
                        s.attente = Attente::Operation;
                        return Suite::Faire(Tache::Reprise(s), Action::Reprendre(o));
                    }
                    let identifiants = i.clone();
                    s.attente = Attente::Annexe;
                    return Suite::Faire(
                        Tache::Reprise(s),
                        Action::OuvrirAnnexe { compte: cible, identifiants },
                    );
                },
            }
        }
        if s.soldees == 0 && s.erreurs.len() == 0 {
            finir_reprise(s.veille, selection, None)
        } else {
            s.attente = Attente::Recompte;
            Suite::Faire(Tache::Reprise(s), Action::Arborescence)
        }
    }

    /// Goes on to the next move to be resumed, once the current one failed.
    fn passer(self, selection: Option<&str>, etabli: &Etabli, texte: String) -> (r: Suite)
        requires
            self.soldees <= self.rang < self.operations@.len(),
        ensures
            r@ == reprise_ratee(vue_selection(selection), etabli@, self@, texte@),
            suite_bien_formee(r),
    {
        let ghost avant = self@;
        let mut s = self;
        let n: usize = s.operations.len();
        s.erreurs.push(texte);
        assert(s.rang < n);
        s.rang = s.rang + 1;
        assert(textes(s.erreurs@) =~= avant.erreurs.push(texte@));
        s.continuer(selection, etabli)
    }

    /// Takes the resumption of the interrupted moves a step further.
    fn suivre(
        self,
        selection: Option<&str>,
        magasin: &mut Magasin,
        etabli: &mut Etabli,
        evenement: Evenement,
    ) -> (r: Suite)
        requires
            self.bien_forme(),
        ensures
            (final(magasin)@, final(etabli)@, r@) == pas_suivi(
                vue_selection(selection),
                old(magasin)@,
                old(etabli)@,
                self@,
                evenement@,
            ),
            suite_bien_formee(r),
    {
        let mut s = self;
        let n: usize = s.operations.len();
        assert(self.rang < n ==> self@.operations[self.rang as int]
            == self.operations@[self.rang as int]@);
        let mut attente = Attente::Recompte;
        std::mem::swap(&mut attente, &mut s.attente);
        match (attente, evenement) {
            (Attente::Annexe, Evenement::Fait(Ok(()))) => {
                let o = s.operations[s.rang].clone();
                etabli.annexes.inscrire(o.compte_cible, ());
                s.attente = Attente::Operation;
                Suite::Faire(Tache::Reprise(s), Action::Reprendre(o))
            },
            (Attente::Annexe, Evenement::Fait(Err(x))) => {
                s.attente = Attente::Annexe;
                s.passer(selection, etabli, x.texte())
            },
            (Attente::Operation, Evenement::Fait(Ok(()))) => {
                assert(s.soldees <= s.rang < n);
                s.attente = Attente::Operation;
                s.soldees = s.soldees + 1;
                s.rang = s.rang + 1;
                s.continuer(selection, etabli)
            },
            (Attente::Operation, Evenement::Fait(Err(x))) => {
                let id: i64 = s.operations[s.rang].id;
                let cible: i64 = s.operations[s.rang].compte_cible;
                let t = x.texte();
                noter_echec(magasin, id, t.as_str());
                if x.reseau() {
                    s.attente = Attente::Epreuve(x);
                    return Suite::Faire(Tache::Reprise(s), Action::Noop);
                }
                let _ = etabli.annexes.rayer(cible);
                s.attente = Attente::Operation;
                s.passer(selection, etabli, t)
            },
            (Attente::Epreuve(x), Evenement::Noop(repond)) => {
                if !repond {
                    let t = x.texte();
                    let i = echec("tri", accoler("reprise : ", t.as_str()), &x);
                    return finir_reprise(s.veille, selection, Some(i));
                }
                let cible: i64 = s.operations[s.rang].compte_cible;
                let _ = etabli.annexes.rayer(cible);
                let t = x.texte();
                s.attente = Attente::Epreuve(x);
                s.passer(selection, etabli, t)
            },
            (Attente::Recompte, Evenement::Fait(_)) => finir_reprise(
                s.veille,
                selection,
                Some(
                    Issue::Repris {
                        rapport: Rapport { deplaces: s.soldees, absents: 0, erreurs: s.erreurs },
                    },
                ),
            ),
            _ => surprise(),
        }
    }
}

impl Travail {
    /// Starts the resumption of the interrupted moves whose source is this account.
    fn reprendre(
        &self,
        selection: Option<&str>,
        magasin: &Magasin,
        etabli: &Etabli,
        veille: bool,
    ) -> (r: Suite)
        ensures
            r@ == reprise_entamee(
                self.compte,
                vue_selection(selection),
                magasin@,
                etabli@,
                veille,
            ),
            suite_bien_formee(r),
    {
        let operations: Vec<Operation> = match magasin.operations(self.compte) {
            Ok(v) => v,
            Err(_) => Vec::new(),
        };
        let s = Suivi {
            veille,
            operations,
            rang: 0,
            soldees: 0,
            erreurs: Vec::new(),
            attente: Attente::Recompte,
        };
        assert(s@.erreurs =~= Seq::empty());
        s.continuer(selection, etabli)
    }

    /// Starts to move messages to another account.
    fn entre_boites(
        &self,
        etabli: &Etabli,
        source: String,
        uids: Vec<u32>,
        cible: i64,
        chemin: String,
    ) -> (r: Suite)
        ensures
            r@ == (match annexe_de(etabli@, cible) {
                AnnexeVue::Prete => SuiteVue::Faire(
                    TacheVue::Deplacement { cible, chemin: chemin@ },
                    ActionVue::EntreBoites {
                        source: source@,
                        uids: uids@,
                        compte: cible,
                        chemin: chemin@,
                    },
                ),
                AnnexeVue::AOuvrir(i) => SuiteVue::Faire(
                    TacheVue::Annexe { source: source@, uids: uids@, cible, chemin: chemin@ },
                    ActionVue::OuvrirAnnexe { compte: cible, identifiants: i },
                ),
                AnnexeVue::Refusee => a_recompter(cible, chemin@, Err(annexe_refusee())),
            }),
            suite_bien_formee(r),
    {
        match annexe(etabli, cible) {
            Annexe::Prete => Suite::Faire(
                Tache::Deplacement { cible, chemin: chemin.clone() },
                Action::EntreBoites { source, uids, compte: cible, chemin },
            ),
            Annexe::AOuvrir(identifiants) => Suite::Faire(
                Tache::Annexe { source, uids, cible, chemin },
                Action::OuvrirAnnexe { compte: cible, identifiants },
            ),
            Annexe::Refusee(x) => recompter(cible, chemin, Err(x)),
        }
    }

    /// Starts to deal with a request.
    pub fn traiter(
        &self,
        commande: Commande,
        client: &Client,
        magasin: &Magasin,
        etabli: &mut Etabli,
    ) -> (r: Suite)
        ensures
            (final(etabli)@, r@) == tache_entamee(
                self.compte,
                client@.selection,
                magasin@,
                old(etabli)@,
                commande@,
            ),
            suite_bien_formee(r),
    {
        match commande {
            Commande::Arborescence => Suite::Faire(Tache::Arborescence, Action::Arborescence),
            Commande::OuvrirDossier(c) => Suite::Faire(
                Tache::Dossier(c.clone()),
                Action::Synchroniser(c),
            ),
            Commande::Corps { chemin, uid, brut } => Suite::Faire(
                Tache::Corps { chemin: chemin.clone(), uid, brut },
                Action::Corps { chemin, uid },
            ),
            Commande::Piece { chemin, uid, indice, destination } => Suite::Faire(
                Tache::Piece { uid, indice, destination },
                Action::Corps { chemin, uid },
            ),
            Commande::MarquerLu { chemin, uids, lu } => Suite::Faire(
                Tache::MarquerLu,
                Action::Marquer { chemin, uids, lu },
            ),
            Commande::Deplacer { source, uids, cible } => {
                let compte: i64 = cible.compte;
                match cible.identifiants {
                    Some(i) => {
                        etabli.identites.inscrire(compte, i);
                    },
                    None => {},
                }
                if compte == self.compte {
                    Suite::Faire(
                        Tache::Deplacement { cible: compte, chemin: cible.chemin.clone() },
                        Action::DansLaBoite { source, uids, cible: cible.chemin },
                    )
                } else {
                    self.entre_boites(etabli, source, uids, compte, cible.chemin)
                }
            },
            Commande::Reprendre(i) => {
                etendre(&mut etabli.identites, &i);
                self.reprendre(client.selection(), magasin, etabli, false)
            },
            Commande::Veille => Suite::Faire(Tache::VeilleArborescence, Action::Arborescence),
        }
    }

    /// Takes what was started a step further, given what came of what it asked for.
    #[verifier::rlimit(40)]
    pub fn suivre(
        &self,
        tache: Tache,
        client: &Client,
        magasin: &mut Magasin,
        etabli: &mut Etabli,
        evenement: Evenement,
    ) -> (r: Suite)
        requires
            tache.bien_formee(),
        ensures
            (final(magasin)@, final(etabli)@, r@) == pas_tache(
                self.compte,
                client@.selection,
                old(magasin)@,
                old(etabli)@,
                tache@,
                evenement@,
            ),
            suite_bien_formee(r),
    {
        match (tache, evenement) {
            (Tache::Arborescence, Evenement::Fait(Ok(()))) => finir(Issue::Arborescence),
            (Tache::Arborescence, Evenement::Fait(Err(x))) => rater(
                "dossier",
                "lecture des dossiers : ",
                &x,
            ),
            (Tache::Dossier(chemin), Evenement::Synchro(Ok(_))) => finir(
                Issue::Dossier { chemin, veille: false },
            ),
            (Tache::Dossier(chemin), Evenement::Synchro(Err(x))) => {
                let mut v = caracteres("ouverture de ");
                ajouter(&mut v, chemin.as_str());
                ajouter(&mut v, " : ");
                let p = chaine(v.as_slice());
                rater("dossier", p.as_str(), &x)
            },
            (Tache::Corps { chemin, uid, brut }, Evenement::Corps(Ok(octets))) => lire_corps(
                self.compte,
                magasin,
                chemin,
                uid,
                brut,
                octets.as_slice(),
            ),
            (Tache::Corps { uid, .. }, Evenement::Corps(Err(x))) => rater_corps(uid, &x),
            (Tache::Marquage { uid, texte, pieces }, Evenement::Fait(Ok(()))) => finir(
                Issue::Corps { uid, texte, brut: false, marque: true, pieces },
            ),
            (Tache::Marquage { uid, .. }, Evenement::Fait(Err(x))) => rater_corps(uid, &x),
            (Tache::Piece { uid, indice, destination }, Evenement::Corps(Ok(octets))) => {
                let piece = extraire_piece(octets.as_slice(), indice);
                ecrire_piece(uid, indice, destination, piece)
            },
            (Tache::Piece { .. }, Evenement::Corps(Err(x))) => rater(
                "message",
                "pièce jointe : ",
                &x,
            ),
            (Tache::DossierPiece { uid, indice, nom, contenu }, Evenement::DossierCree(Ok(()))) =>
            Suite::Faire(
                Tache::Ecriture { ouvrir: true },
                Action::Ecrire { ou: Emplacement::Travail { uid, indice, nom }, contenu },
            ),
            (Tache::DossierPiece { .. }, Evenement::DossierCree(Err((d, x)))) => rater_fichier(
                d.as_str(),
                x.as_str(),
            ),
            (Tache::Ecriture { ouvrir }, Evenement::Ecrit(Ok(fichier))) => finir(
                Issue::Piece { fichier, ouvrir },
            ),
            (Tache::Ecriture { .. }, Evenement::Ecrit(Err((f, x)))) => rater_fichier(
                f.as_str(),
                x.as_str(),
            ),
            (Tache::MarquerLu, Evenement::Fait(Ok(()))) => finir(Issue::Marque),
            (Tache::MarquerLu, Evenement::Fait(Err(x))) => rater("tri", "marquage : ", &x),
            (Tache::Annexe { source, uids, cible, chemin }, Evenement::Fait(Ok(()))) => {
                etabli.annexes.inscrire(cible, ());
                Suite::Faire(
                    Tache::Deplacement { cible, chemin: chemin.clone() },
                    Action::EntreBoites { source, uids, compte: cible, chemin },
                )
            },
            (Tache::Annexe { cible, chemin, .. }, Evenement::Fait(Err(x))) => recompter(
                cible,
                chemin,
                Err(x),
            ),
            (Tache::Deplacement { cible, chemin }, Evenement::Deplace(r)) => recompter(
                cible,
                chemin,
                r,
            ),
            (Tache::Recompte { cible, chemin, resultat }, Evenement::Fait(_)) => match resultat {
                Ok(rapport) => finir(Issue::Deplace { cible, chemin_cible: chemin, rapport }),
                Err(x) => echec_de_tri(etabli, cible, x),
            },
            (Tache::Epreuve(x), Evenement::Noop(repond)) => if repond {
                let t = x.texte();
                finir(
                    Issue::Echec {
                        etape: "tri",
                        message: accoler("déplacement interrompu, il reprendra : ", t.as_str()),
                        session_perdue: false,
                    },
                )
            } else {
                rater("tri", "déplacement : ", &x)
            },
            (Tache::Reprise(s), e) => s.suivre(client.selection(), magasin, etabli, e),
            (Tache::VeilleArborescence, Evenement::Fait(Ok(()))) => self.reprendre(
                client.selection(),
                magasin,
                etabli,
                true,
            ),
            (Tache::VeilleArborescence, Evenement::Fait(Err(x))) => rater(
                "dossier",
                "veille : ",
                &x,
            ),
            (Tache::VeilleRemise, Evenement::Remis) => veiller(client.selection()),
            (Tache::VeilleSynchro(chemin), Evenement::Synchro(Ok(b))) => if b.nouveaux > 0
                || b.retires > 0 {
                finir(Issue::Dossier { chemin, veille: true })
            } else {
                finir(Issue::Arborescence)
            },
            (Tache::VeilleSynchro(_), Evenement::Synchro(Err(x))) => rater(
                "dossier",
                "veille : ",
                &x,
            ),
            _ => surprise(),
        }
    }

    /// The working folder of an attachment.
    pub fn dossier_de_travail(&self, uid: u32, indice: usize) -> (r: String)
        ensures
            est_dossier_de_piece(self.profil@, self.compte, uid, indice, r@),
    {
        dossier_de_piece(self.profil.as_str(), self.compte, uid, indice)
    }

    /// The file that an attachment is written to.
    pub fn fichier(&self, ou: &Emplacement) -> (r: String)
        ensures
            est_fichier(self.profil@, self.compte, ou@, r@),
    {
        match ou {
            Emplacement::Choisi(f) => copier(f.as_str()),
            Emplacement::Travail { uid, indice, nom } => {
                let d = self.dossier_de_travail(*uid, *indice);
                fichier_dans(d.as_str(), nom.as_str())
            },
        }
    }
}

/// A move failed: if it is the target account that failed, the session of the source
/// is still good, which is to be seen.
fn echec_de_tri(etabli: &mut Etabli, cible: i64, x: Echec) -> (r: Suite)
    ensures
        (final(etabli)@, r@) == (if echec_reseau(x@) {
            (
                sans_annexe(old(etabli)@, cible),
                SuiteVue::Faire(TacheVue::Epreuve(x@), ActionVue::Noop),
            )
        } else {
            (old(etabli)@, echec_de("tri"@, "déplacement : "@, x@))
        }),
        suite_bien_formee(r),
{
    if x.reseau() {
        let _ = etabli.annexes.rayer(cible);
        Suite::Faire(Tache::Epreuve(x), Action::Noop)
    } else {
        rater("tri", "déplacement : ", &x)
    }
}

// ------------------------------------------------------------------------------- laws

/// The accounts that what is asked for needs a session on.
pub open spec fn annexe_utilisee(a: ActionVue) -> Option<i64> {
    match a {
        ActionVue::EntreBoites { compte, .. } => Some(compte),
        ActionVue::Reprendre(o) => Some(o.compte_cible),
        _ => None,
    }
}

/// Whether what a step asks for finds the session on the other account open.
pub open spec fn annexe_ouverte(e: EtabliVue, s: SuiteVue) -> bool {
    s matches SuiteVue::Faire(_, a) ==> (annexe_utilisee(a) matches Some(k) ==> connu(
        e.annexes,
        k,
    ))
}

/// The search for the next move to resume only stops at one that can be resumed: its
/// target account is known, those passed over have a target that is not, and the
/// session on the target is open if the move is resumed at once.
pub proof fn loi_reprise_suivante(selection: Option<Seq<char>>, e: EtabliVue, s: SuiviVue)
    requires
        0 <= s.rang <= s.operations.len(),
    ensures
        annexe_ouverte(e, reprise_suivante(selection, e, s)),
        reprise_suivante(selection, e, s) matches SuiteVue::Faire(TacheVue::Reprise(t), a) ==> {
            &&& s.rang <= t.rang <= s.operations.len()
            &&& t.operations == s.operations
            &&& forall|k: int|
                s.rang <= k < t.rang ==> !connu(
                    e.identites,
                    (#[trigger] s.operations[k]).compte_cible,
                )
            &&& (a is Reprendre || a is OuvrirAnnexe) ==> t.rang < s.operations.len() && connu(
                e.identites,
                s.operations[t.rang].compte_cible,
            )
            &&& a is Reprendre ==> a == ActionVue::Reprendre(s.operations[t.rang])
        },
    decreases s.operations.len() - s.rang,
{
    if s.rang < s.operations.len() {
        let o = s.operations[s.rang];
        if valeur(e.identites, o.compte_cible) is None {
            loi_reprise_suivante(selection, e, SuiviVue { rang: s.rang + 1, ..s });
        }
    }
}

/// A move to another account, or the resumption of one, is only asked for with a
/// session open on the target account.
pub proof fn loi_annexe_ouverte(
    compte: i64,
    selection: Option<Seq<char>>,
    m: MagasinVue,
    e: EtabliVue,
    t: TacheVue,
    ev: EvenementVue,
    commande: CommandeVue,
)
    requires
        t matches TacheVue::Reprise(s) ==> 0 <= s.rang && (s.rang < s.operations.len()
            || s.attente is Recompte),
    ensures
        ({
            let (_, f, r) = pas_tache(compte, selection, m, e, t, ev);
            annexe_ouverte(f, r)
        }),
        ({
            let (f, r) = tache_entamee(compte, selection, m, e, commande);
            annexe_ouverte(f, r)
        }),
{
    let depart = |e: EtabliVue, veille: bool|
        SuiviVue {
            veille,
            operations: operations_de(m.operations, compte),
            rang: 0,
            soldees: 0,
            erreurs: Seq::empty(),
            attente: AttenteVue::Recompte,
        };
    loi_reprise_suivante(selection, e, depart(e, true));
    match commande {
        CommandeVue::Reprendre(i) => {
            let f = EtabliVue { identites: etendu(e.identites, i), ..e };
            loi_reprise_suivante(selection, f, depart(f, false));
        },
        _ => {},
    }
    match t {
        TacheVue::Annexe { cible, .. } => {
            lemme_avec_annexe(e, cible);
        },
        TacheVue::Reprise(s) => {
            if s.rang < s.operations.len() {
                let o = s.operations[s.rang];
                lemme_avec_annexe(e, o.compte_cible);
                let suivant = SuiviVue { rang: s.rang + 1, soldees: s.soldees + 1, ..s };
                loi_reprise_suivante(selection, e, suivant);
                let f = sans_annexe(e, o.compte_cible);
                match (s.attente, ev) {
                    (AttenteVue::Annexe, EvenementVue::Fait(Err(x))) => {
                        lemme_reprise_ratee(selection, e, s, texte_echec(x));
                    },
                    (AttenteVue::Operation, EvenementVue::Fait(Err(x))) => {
                        lemme_reprise_ratee(selection, f, s, texte_echec(x));
                    },
                    (AttenteVue::Epreuve(x), _) => {
                        lemme_reprise_ratee(selection, f, s, texte_echec(x));
                    },
                    _ => {},
                }
            }
        },
        _ => {},
    }
}

proof fn lemme_avec_annexe(e: EtabliVue, compte: i64)
    ensures
        connu(avec_annexe(e, compte).annexes, compte),
{
    let s = e.annexes;
    let t = inscrit(s, compte, ());
    crate::annuaire::lemme_rang(s, compte);
    crate::annuaire::lemme_rang(t, compte);
    match crate::annuaire::rang(s, compte) {
        Some(i) => {
            assert(t[i].0 == compte);
        },
        None => {
            assert(t[s.len() as int].0 == compte);
        },
    }
}

proof fn lemme_reprise_ratee(
    selection: Option<Seq<char>>,
    e: EtabliVue,
    s: SuiviVue,
    texte: Seq<char>,
)
    requires
        0 <= s.rang < s.operations.len(),
    ensures
        annexe_ouverte(e, reprise_ratee(selection, e, s, texte)),
{
    loi_reprise_suivante(
        selection,
        e,
        SuiviVue { rang: s.rang + 1, erreurs: s.erreurs.push(texte), ..s },
    );
}

/// Whether an attachment that is about to be written in its working folder may be
/// opened there: it is no program, and its name is no path.
pub open spec fn tache_sure(t: TacheVue) -> bool {
    t matches TacheVue::DossierPiece { nom, .. } ==> !risque(nom) && nom_simple(nom)
}

/// Whether what a step leads to writes nothing unsafe in a working folder.
pub open spec fn suite_sure(s: SuiteVue) -> bool {
    s matches SuiteVue::Faire(t, a) ==> tache_sure(t) && (a matches ActionVue::Ecrire {
        ou: EmplacementVue::Travail { nom, .. },
        ..
    } ==> !risque(nom) && nom_simple(nom))
}

/// A program or a script is never written in order to be opened, and what is written
/// in order to be opened stays in its working folder.
pub proof fn loi_piece_sure(
    compte: i64,
    selection: Option<Seq<char>>,
    m: MagasinVue,
    e: EtabliVue,
    t: TacheVue,
    ev: EvenementVue,
    commande: CommandeVue,
)
    requires
        tache_sure(t),
    ensures
        suite_sure(pas_tache(compte, selection, m, e, t, ev).2),
        suite_sure(tache_entamee(compte, selection, m, e, commande).1),
{
    lemme_reprise_sure(selection, e, m, compte, true);
    match commande {
        CommandeVue::Reprendre(i) => {
            lemme_reprise_sure(
                selection,
                EtabliVue { identites: etendu(e.identites, i), ..e },
                m,
                compte,
                false,
            );
        },
        _ => {},
    }
    match (t, ev) {
        (TacheVue::Piece { uid, indice, destination }, EvenementVue::Corps(Ok(octets))) => {
            match pieces_du_brut(octets) {
                Some(v) => {
                    if indice < v.len() {
                        let p = v[indice as int];
                        loi_piece_dans_son_dossier(
                            p.nom.unwrap_or(Seq::empty()),
                            indice as nat,
                            type_mime_de(p),
                        );
                    }
                },
                None => {},
            }
        },
        (TacheVue::Reprise(s), _) => {
            lemme_suivi_fidele(
                selection,
                e,
                SuiviVue { rang: s.rang + 1, soldees: s.soldees + 1, ..s },
            );
            let o = s.operations[s.rang];
            let f = sans_annexe(e, o.compte_cible);
            match (s.attente, ev) {
                (AttenteVue::Annexe, EvenementVue::Fait(Err(x))) => {
                    lemme_suivi_fidele(
                        selection,
                        e,
                        SuiviVue {
                            rang: s.rang + 1,
                            erreurs: s.erreurs.push(texte_echec(x)),
                            ..s
                        },
                    );
                },
                (AttenteVue::Operation, EvenementVue::Fait(Err(x))) => {
                    lemme_suivi_fidele(
                        selection,
                        f,
                        SuiviVue {
                            rang: s.rang + 1,
                            erreurs: s.erreurs.push(texte_echec(x)),
                            ..s
                        },
                    );
                },
                (AttenteVue::Epreuve(x), _) => {
                    lemme_suivi_fidele(
                        selection,
                        f,
                        SuiviVue {
                            rang: s.rang + 1,
                            erreurs: s.erreurs.push(texte_echec(x)),
                            ..s
                        },
                    );
                },
                _ => {},
            }
        },
        _ => {},
    }
}

/// The source of a message is shown without anything being marked.
pub proof fn loi_source_intacte(
    compte: i64,
    m: MagasinVue,
    chemin: Seq<char>,
    uid: u32,
    octets: Seq<u8>,
)
    ensures
        corps_lu(compte, m, chemin, uid, true, octets) == SuiteVue::Fini(
            Some(
                IssueVue::Corps {
                    uid,
                    texte: texte_des_octets(octets),
                    brut: true,
                    marque: false,
                    pieces: pieces_du_corps(octets),
                },
            ),
        ),
{
}

/// A message that is shown for the first time is marked as read, and nothing else is.
pub proof fn loi_affiche_marque(
    compte: i64,
    m: MagasinVue,
    chemin: Seq<char>,
    uid: u32,
    octets: Seq<u8>,
)
    ensures
        corps_lu(compte, m, chemin, uid, false, octets) is Faire <==> (dossier_en(
            m.dossiers,
            compte,
            chemin,
        ) matches Some(d) && message_en(m.messages, d.id, uid) matches Some(l) && !l.message.lu),
        corps_lu(compte, m, chemin, uid, false, octets) matches SuiteVue::Faire(_, a) ==> a == (
        ActionVue::Marquer { chemin, uids: seq![uid], lu: true }),
{
}

/// A worker holds nothing twice of an account.
pub open spec fn etabli_tenu(e: EtabliVue) -> bool {
    sans_doublon(e.annexes) && sans_doublon(e.identites)
}

/// Dealing with requests never makes a worker hold something twice of an account.
pub proof fn loi_etabli_tenu(
    compte: i64,
    selection: Option<Seq<char>>,
    m: MagasinVue,
    e: EtabliVue,
    t: TacheVue,
    ev: EvenementVue,
    commande: CommandeVue,
)
    requires
        etabli_tenu(e),
    ensures
        etabli_tenu(pas_tache(compte, selection, m, e, t, ev).1),
        etabli_tenu(tache_entamee(compte, selection, m, e, commande).0),
{
    match commande {
        CommandeVue::Deplacer { cible, .. } => {
            if let Some(i) = cible.identifiants {
                loi_inscription(e.identites, cible.compte, i, cible.compte);
            }
        },
        CommandeVue::Reprendre(i) => {
            lemme_etendu_tenu(e.identites, i);
        },
        _ => {},
    }
    match t {
        TacheVue::Annexe { cible, .. } => {
            loi_inscription(e.annexes, cible, (), cible);
        },
        TacheVue::Recompte { cible, .. } => {
            loi_radiation(e.annexes, cible, cible);
        },
        TacheVue::Reprise(s) => {
            let cible = s.operations[s.rang].compte_cible;
            loi_inscription(e.annexes, cible, (), cible);
            loi_radiation(e.annexes, cible, cible);
        },
        _ => {},
    }
}

proof fn lemme_etendu_tenu(s: Seq<(i64, IdentifiantsVue)>, t: Seq<(i64, IdentifiantsVue)>)
    requires
        sans_doublon(s),
    ensures
        sans_doublon(etendu(s, t)),
    decreases t.len(),
{
    if t.len() > 0 {
        lemme_etendu_tenu(s, t.drop_last());
        loi_inscription(etendu(s, t.drop_last()), t.last().0, t.last().1, t.last().0);
    }
}

/// Where the connection to the target account fails during a move, the session of the
/// source account is kept if it answers, and what was moved there is tried again with
/// a new session.
pub proof fn loi_cible_qui_lache(
    compte: i64,
    selection: Option<Seq<char>>,
    m: MagasinVue,
    e: EtabliVue,
    cible: i64,
    chemin: Seq<char>,
    x: EchecVue,
    relu: Result<(), EchecVue>,
)
    requires
        echec_reseau(x),
        etabli_tenu(e),
    ensures
        ({
            let t = TacheVue::Recompte { cible, chemin, resultat: Err(x) };
            let (n, f, s) = pas_tache(compte, selection, m, e, t, EvenementVue::Fait(relu));
            &&& n == m
            &&& !connu(f.annexes, cible)
            &&& s == SuiteVue::Faire(TacheVue::Epreuve(x), ActionVue::Noop)
            &&& forall|repond: bool|
                {
                    let r = #[trigger] pas_tache(
                        compte,
                        selection,
                        n,
                        f,
                        TacheVue::Epreuve(x),
                        EvenementVue::Noop(repond),
                    );
                    r.2 matches SuiteVue::Fini(Some(i)) && perdue(i) == !repond
                }
        }),
{
    loi_radiation(e.annexes, cible, cible);
}

/// Whether an outcome tells of a lost connection.
pub open spec fn coupure(ev: EvenementVue) -> bool {
    match ev {
        EvenementVue::Fait(Err(x)) => echec_reseau(x),
        EvenementVue::Synchro(Err(x)) => echec_reseau(x),
        EvenementVue::Corps(Err(x)) => echec_reseau(x),
        EvenementVue::Noop(repond) => !repond,
        _ => false,
    }
}

/// Only a lost connection costs the session: a request that is refused leaves it open.
pub proof fn loi_session_gardee(
    compte: i64,
    selection: Option<Seq<char>>,
    m: MagasinVue,
    e: EtabliVue,
    t: TacheVue,
    ev: EvenementVue,
)
    requires
        t matches TacheVue::Reprise(s) ==> 0 <= s.rang,
    ensures
        pas_tache(compte, selection, m, e, t, ev).2 matches SuiteVue::Fini(Some(i)) && perdue(i)
            ==> coupure(ev) || pas_tache(compte, selection, m, e, t, ev).2 == imprevu(),
{
    lemme_reprise_sure(selection, e, m, compte, true);
    match t {
        TacheVue::Reprise(s) => {
            let o = s.operations[s.rang];
            let f = sans_annexe(e, o.compte_cible);
            lemme_suivi_fidele(
                selection,
                e,
                SuiviVue { rang: s.rang + 1, soldees: s.soldees + 1, ..s },
            );
            match (s.attente, ev) {
                (AttenteVue::Annexe, EvenementVue::Fait(Err(x))) => {
                    lemme_suivi_fidele(
                        selection,
                        e,
                        SuiviVue {
                            rang: s.rang + 1,
                            erreurs: s.erreurs.push(texte_echec(x)),
                            ..s
                        },
                    );
                },
                (AttenteVue::Operation, EvenementVue::Fait(Err(x))) => {
                    lemme_suivi_fidele(
                        selection,
                        f,
                        SuiviVue {
                            rang: s.rang + 1,
                            erreurs: s.erreurs.push(texte_echec(x)),
                            ..s
                        },
                    );
                },
                (AttenteVue::Epreuve(x), _) => {
                    lemme_suivi_fidele(
                        selection,
                        f,
                        SuiviVue {
                            rang: s.rang + 1,
                            erreurs: s.erreurs.push(texte_echec(x)),
                            ..s
                        },
                    );
                },
                _ => {},
            }
        },
        _ => {},
    }
}

/// Whether a failure of a request is told under one of the steps that the interface
/// knows, and under the step "reseau" only if the session is lost.
pub open spec fn etape_juste(i: IssueVue) -> bool {
    i matches IssueVue::Echec { etape, session_perdue, .. } ==> {
        &&& etape == "dossier"@ || etape == "message"@ || etape == "tri"@ || etape == "reseau"@
        &&& etape == "reseau"@ ==> session_perdue
    }
}

/// Whether what a step hands out names its failures rightly.
pub open spec fn suite_juste(s: SuiteVue) -> bool {
    match s {
        SuiteVue::Fini(Some(i)) => etape_juste(i),
        SuiteVue::Faire(_, ActionVue::Remettre(i)) => etape_juste(i),
        _ => true,
    }
}

/// A failure is told under one of the steps that the interface knows, and one told
/// under the step "reseau" is that of a lost session, whatever was asked for and
/// whatever came of it.
pub proof fn loi_etape_reseau(
    compte: i64,
    selection: Option<Seq<char>>,
    m: MagasinVue,
    e: EtabliVue,
    t: TacheVue,
    ev: EvenementVue,
    commande: CommandeVue,
)
    ensures
        suite_juste(pas_tache(compte, selection, m, e, t, ev).2),
        suite_juste(tache_entamee(compte, selection, m, e, commande).1),
{
    reveal_strlit("reseau");
    reveal_strlit("dossier");
    reveal_strlit("message");
    reveal_strlit("tri");
    let r = "reseau"@;
    assert("dossier"@.len() != r.len() && "message"@.len() != r.len());
    assert("tri"@.len() != r.len());
    lemme_reprise_sure(selection, e, m, compte, true);
    if let CommandeVue::Reprendre(i) = commande {
        lemme_reprise_sure(
            selection,
            EtabliVue { identites: etendu(e.identites, i), ..e },
            m,
            compte,
            false,
        );
    }
    if let TacheVue::Reprise(s) = t {
        let o = s.operations[s.rang];
        let f = sans_annexe(e, o.compte_cible);
        lemme_suivi_fidele(
            selection,
            e,
            SuiviVue { rang: s.rang + 1, soldees: s.soldees + 1, ..s },
        );
        match (s.attente, ev) {
            (AttenteVue::Annexe, EvenementVue::Fait(Err(x))) => {
                lemme_suivi_fidele(
                    selection,
                    e,
                    SuiviVue { rang: s.rang + 1, erreurs: s.erreurs.push(texte_echec(x)), ..s },
                );
            },
            (AttenteVue::Operation, EvenementVue::Fait(Err(x))) => {
                lemme_suivi_fidele(
                    selection,
                    f,
                    SuiviVue { rang: s.rang + 1, erreurs: s.erreurs.push(texte_echec(x)), ..s },
                );
            },
            (AttenteVue::Epreuve(x), EvenementVue::Noop(_)) => {
                lemme_suivi_fidele(
                    selection,
                    f,
                    SuiviVue { rang: s.rang + 1, erreurs: s.erreurs.push(texte_echec(x)), ..s },
                );
            },
            _ => {},
        }
    }
}

/// The search for the next move to resume fails in nothing, and writes nothing.
proof fn lemme_suivi_fidele(selection: Option<Seq<char>>, e: EtabliVue, s: SuiviVue)
    ensures
        reprise_suivante(selection, e, s) matches SuiteVue::Fini(Some(i)) ==> !perdue(i),
        suite_sure(reprise_suivante(selection, e, s)),
        suite_juste(reprise_suivante(selection, e, s)),
    decreases s.operations.len() - s.rang,
{
    if s.rang < s.operations.len() {
        lemme_suivi_fidele(selection, e, SuiviVue { rang: s.rang + 1, ..s });
    }
}

proof fn lemme_reprise_sure(
    selection: Option<Seq<char>>,
    e: EtabliVue,
    m: MagasinVue,
    compte: i64,
    veille: bool,
)
    ensures
        suite_sure(reprise_entamee(compte, selection, m, e, veille)),
        suite_juste(reprise_entamee(compte, selection, m, e, veille)),
        reprise_entamee(compte, selection, m, e, veille) matches SuiteVue::Fini(Some(i))
            ==> !perdue(i),
{
    lemme_suivi_fidele(
        selection,
        e,
        SuiviVue {
            veille,
            operations: operations_de(m.operations, compte),
            rang: 0,
            soldees: 0,
            erreurs: Seq::empty(),
            attente: AttenteVue::Recompte,
        },
    );
}

} // verus!
