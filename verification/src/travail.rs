//! The worker of an account: what it makes of each request of the interface.
//!
//! Each connected account has a worker of its own, which owns its IMAP session and
//! its access to the index. A worker with nothing to do checks: every two minutes it
//! reads the counters of its folders again, resumes its interrupted moves and
//! synchronises the open folder.
//!
//! The worker goes from step to step: it says what to do, and takes the outcome.

use vstd::prelude::*;

use crate::chemins::{atelier, est_a_cote};
use crate::commande::{
    abandonnees, comptee, comptees, gardees, lemme_abandons, regrouper, Commande, CommandeVue,
    Identifiants, IdentifiantsVue,
};
use crate::deplacement::{Rapport, RapportVue};
use crate::flux::{accoler, texte_erreur, ErreurVue};
use crate::imap::{Erreur, Resultat};
use crate::magasin::vues;
use crate::synchro::{echec_reseau, texte_echec, vue_issue, Echec, EchecVue};
use crate::texte::{ajouter, caracteres, chaine, copier};

verus! {

/// Seconds without a request after which a worker checks.
pub const VEILLE: u64 = 120;

/// The IMAPS port, the only one that sessions are opened on (implicit TLS).
pub const PORT_IMAPS: u16 = 993;

/// The worker of an account.
pub struct Travail {
    pub compte: i64,
    /// The number of its session: what it hands out counts only as long as the
    /// session is the current one of the account.
    pub generation: u64,
    /// The index of the profile.
    pub profil: String,
    /// The folder of the working copies of the moves.
    pub atelier: String,
}

impl Travail {
    /// A worker for an account of a profile.
    pub fn nouveau(compte: i64, generation: u64, profil: &str) -> (r: Travail)
        ensures
            r.compte == compte,
            r.generation == generation,
            r.profil@ == profil@,
            est_a_cote(profil@, "operations"@, r.atelier@),
    {
        Travail { compte, generation, profil: copier(profil), atelier: atelier(profil) }
    }
}

// -------------------------------------------------------------------------- outcomes

/// What the worker hands to the interface.
pub enum Issue {
    Connecte,
    Arborescence,
    Dossier { chemin: String, veille: bool },
    Corps { uid: u32, texte: String, brut: bool, marque: bool, pieces: String },
    Piece { fichier: String, ouvrir: bool },
    Marque,
    Deplace { cible: i64, chemin_cible: String, rapport: Rapport },
    /// Interrupted moves were resumed: nobody asked for it just now or waits for it.
    Repris { rapport: Rapport },
    Echec { etape: &'static str, message: String, session_perdue: bool },
}

/// What the worker hands to the interface.
pub enum IssueVue {
    Connecte,
    Arborescence,
    Dossier { chemin: Seq<char>, veille: bool },
    Corps { uid: u32, texte: Seq<char>, brut: bool, marque: bool, pieces: Seq<char> },
    Piece { fichier: Seq<char>, ouvrir: bool },
    Marque,
    Deplace { cible: i64, chemin_cible: Seq<char>, rapport: RapportVue },
    Repris { rapport: RapportVue },
    Echec { etape: Seq<char>, message: Seq<char>, session_perdue: bool },
}

impl View for Issue {
    type V = IssueVue;

    open spec fn view(&self) -> IssueVue {
        match self {
            Issue::Connecte => IssueVue::Connecte,
            Issue::Arborescence => IssueVue::Arborescence,
            Issue::Dossier { chemin, veille } => IssueVue::Dossier {
                chemin: chemin@,
                veille: *veille,
            },
            Issue::Corps { uid, texte, brut, marque, pieces } => IssueVue::Corps {
                uid: *uid,
                texte: texte@,
                brut: *brut,
                marque: *marque,
                pieces: pieces@,
            },
            Issue::Piece { fichier, ouvrir } => IssueVue::Piece {
                fichier: fichier@,
                ouvrir: *ouvrir,
            },
            Issue::Marque => IssueVue::Marque,
            Issue::Deplace { cible, chemin_cible, rapport } => IssueVue::Deplace {
                cible: *cible,
                chemin_cible: chemin_cible@,
                rapport: rapport@,
            },
            Issue::Repris { rapport } => IssueVue::Repris { rapport: rapport@ },
            Issue::Echec { etape, message, session_perdue } => IssueVue::Echec {
                etape: etape@,
                message: message@,
                session_perdue: *session_perdue,
            },
        }
    }
}

/// What is handed out, if anything.
pub open spec fn vue_remise(i: Option<Issue>) -> Option<IssueVue> {
    match i {
        Some(i) => Some(i@),
        None => None,
    }
}

/// Whether the session of the account is lost.
pub open spec fn perdue(i: IssueVue) -> bool {
    i matches IssueVue::Echec { session_perdue: true, .. }
}

/// A failure, as it is handed to the interface: with the session if the connection is
/// lost.
pub open spec fn issue_echec(etape: Seq<char>, message: Seq<char>, e: EchecVue) -> IssueVue {
    IssueVue::Echec {
        etape: if echec_reseau(e) {
            "reseau"@
        } else {
            etape
        },
        message,
        session_perdue: echec_reseau(e),
    }
}

/// Hands a failure to the interface.
pub fn echec(etape: &'static str, message: String, erreur: &Echec) -> (r: Issue)
    ensures
        r@ == issue_echec(etape@, message@, erreur@),
{
    let session_perdue = erreur.reseau();
    Issue::Echec {
        etape: if session_perdue {
            "reseau"
        } else {
            etape
        },
        message,
        session_perdue,
    }
}

// ---------------------------------------------------------------------- opening

/// What the opening of a session awaits.
#[derive(Debug, Clone, Copy, PartialEq, Eq, Structural)]
pub enum Ouvrage {
    /// The index of the profile to be opened.
    Index,
    /// The connection to the server.
    Connexion,
    /// The authentication.
    Session,
    /// The tree of the account.
    Arborescence,
}

/// What came of a step of the opening of a session.
pub enum Avancee {
    Index(Result<(), crate::magasin::Erreur>),
    Connexion(Resultat<()>),
    Session(Resultat<()>),
    Arborescence(Result<(), Echec>),
}

/// What came of a step of the opening of a session.
pub enum AvanceeVue {
    Index(Result<(), Seq<char>>),
    Connexion(Result<(), ErreurVue>),
    Session(Result<(), ErreurVue>),
    Arborescence(Result<(), EchecVue>),
}

impl View for Avancee {
    type V = AvanceeVue;

    open spec fn view(&self) -> AvanceeVue {
        match self {
            Avancee::Index(Ok(())) => AvanceeVue::Index(Ok(())),
            Avancee::Index(Err(e)) => AvanceeVue::Index(Err(e.0@)),
            Avancee::Connexion(Ok(())) => AvanceeVue::Connexion(Ok(())),
            Avancee::Connexion(Err(e)) => AvanceeVue::Connexion(Err(e@)),
            Avancee::Session(Ok(())) => AvanceeVue::Session(Ok(())),
            Avancee::Session(Err(e)) => AvanceeVue::Session(Err(e@)),
            Avancee::Arborescence(r) => AvanceeVue::Arborescence(vue_issue(*r)),
        }
    }
}

/// What a step of the opening of a session leads to.
pub enum SuiteOuvrage {
    /// The next step is to be taken.
    Faire(Ouvrage),
    /// The worker is ready.
    Pret,
    Rate(Issue),
}

/// What a step of the opening of a session leads to.
pub enum SuiteOuvrageVue {
    Faire(Ouvrage),
    Pret,
    Rate(IssueVue),
}

impl View for SuiteOuvrage {
    type V = SuiteOuvrageVue;

    open spec fn view(&self) -> SuiteOuvrageVue {
        match self {
            SuiteOuvrage::Faire(o) => SuiteOuvrageVue::Faire(*o),
            SuiteOuvrage::Pret => SuiteOuvrageVue::Pret,
            SuiteOuvrage::Rate(i) => SuiteOuvrageVue::Rate(i@),
        }
    }
}

/// A failed opening: the session is lost.
pub open spec fn ouverture_ratee(etape: Seq<char>, message: Seq<char>) -> SuiteOuvrageVue {
    SuiteOuvrageVue::Rate(IssueVue::Echec { etape, message, session_perdue: true })
}

/// One step of the opening of a session: the index, the connection, the
/// authentication, then the tree.
pub open spec fn pas_ouverture(p: IdentifiantsVue, o: Ouvrage, a: AvanceeVue) -> SuiteOuvrageVue {
    match (o, a) {
        (Ouvrage::Index, AvanceeVue::Index(Ok(()))) => SuiteOuvrageVue::Faire(Ouvrage::Connexion),
        (Ouvrage::Index, AvanceeVue::Index(Err(e))) => ouverture_ratee(
            "connexion"@,
            "index local : "@ + e,
        ),
        (Ouvrage::Connexion, AvanceeVue::Connexion(Ok(()))) => SuiteOuvrageVue::Faire(
            Ouvrage::Session,
        ),
        (Ouvrage::Connexion, AvanceeVue::Connexion(Err(e))) => ouverture_ratee(
            "connexion"@,
            "connexion à "@ + p.hote + " : "@ + texte_erreur(e),
        ),
        (Ouvrage::Session, AvanceeVue::Session(Ok(()))) => SuiteOuvrageVue::Faire(
            Ouvrage::Arborescence,
        ),
        (Ouvrage::Session, AvanceeVue::Session(Err(e))) => if e is Reseau {
            ouverture_ratee(
                "connexion"@,
                "connexion à "@ + p.hote + " : "@ + texte_erreur(e),
            )
        } else {
            ouverture_ratee(
                "identifiants"@,
                p.utilisateur + " : identifiants refusés ("@ + texte_erreur(e) + ")"@,
            )
        },
        (Ouvrage::Arborescence, AvanceeVue::Arborescence(Ok(()))) => SuiteOuvrageVue::Pret,
        (Ouvrage::Arborescence, AvanceeVue::Arborescence(Err(e))) => ouverture_ratee(
            "connexion"@,
            "lecture des dossiers : "@ + texte_echec(e),
        ),
        _ => ouverture_ratee("connexion"@, "réponse inattendue"@),
    }
}

fn rater(etape: &'static str, message: String) -> (r: SuiteOuvrage)
    ensures
        r@ == ouverture_ratee(etape@, message@),
{
    SuiteOuvrage::Rate(Issue::Echec { etape, message, session_perdue: true })
}

fn echec_connexion(hote: &str, e: &Erreur) -> (r: String)
    ensures
        r@ == "connexion à "@ + hote@ + " : "@ + texte_erreur(e@),
{
    let mut v = caracteres("connexion à ");
    ajouter(&mut v, hote);
    ajouter(&mut v, " : ");
    let t = e.texte();
    ajouter(&mut v, t.as_str());
    chaine(v.as_slice())
}

fn refus_identifiants(utilisateur: &str, e: &Erreur) -> (r: String)
    ensures
        r@ == utilisateur@ + " : identifiants refusés ("@ + texte_erreur(e@) + ")"@,
{
    let mut v = caracteres(utilisateur);
    ajouter(&mut v, " : identifiants refusés (");
    let t = e.texte();
    ajouter(&mut v, t.as_str());
    ajouter(&mut v, ")");
    chaine(v.as_slice())
}

/// Takes the opening of a session a step further.
pub fn etablir(p: &Identifiants, ouvrage: Ouvrage, avancee: Avancee) -> (r: SuiteOuvrage)
    ensures
        r@ == pas_ouverture(p@, ouvrage, avancee@),
{
    match (ouvrage, avancee) {
        (Ouvrage::Index, Avancee::Index(Ok(()))) => SuiteOuvrage::Faire(Ouvrage::Connexion),
        (Ouvrage::Index, Avancee::Index(Err(e))) => rater(
            "connexion",
            accoler("index local : ", e.0.as_str()),
        ),
        (Ouvrage::Connexion, Avancee::Connexion(Ok(()))) => SuiteOuvrage::Faire(Ouvrage::Session),
        (Ouvrage::Connexion, Avancee::Connexion(Err(e))) => rater(
            "connexion",
            echec_connexion(p.hote.as_str(), &e),
        ),
        (Ouvrage::Session, Avancee::Session(Ok(()))) => SuiteOuvrage::Faire(Ouvrage::Arborescence),
        (Ouvrage::Session, Avancee::Session(Err(e))) => if e.reseau() {
            rater("connexion", echec_connexion(p.hote.as_str(), &e))
        } else {
            rater("identifiants", refus_identifiants(p.utilisateur.as_str(), &e))
        },
        (Ouvrage::Arborescence, Avancee::Arborescence(Ok(()))) => SuiteOuvrage::Pret,
        (Ouvrage::Arborescence, Avancee::Arborescence(Err(e))) => {
            let t = e.texte();
            rater("connexion", accoler("lecture des dossiers : ", t.as_str()))
        },
        _ => rater("connexion", copier("réponse inattendue")),
    }
}

// ------------------------------------------------------------------------ the queue

/// What the wait of a worker for a request brought.
pub enum Reception {
    Commande(Commande),
    /// Nothing came in time.
    Delai,
    /// Nothing will come any more.
    Fermee,
}

/// The requests that a worker is to deal with.
pub struct Fil {
    file: Vec<Commande>,
}

impl View for Fil {
    type V = Seq<CommandeVue>;

    closed spec fn view(&self) -> Seq<CommandeVue> {
        vues(self.file@)
    }
}

/// What a worker tells the interface at its start: how many requests are over with,
/// and the outcome.
pub open spec fn demarrage(etabli: Result<(), IssueVue>, recues: Seq<CommandeVue>) -> (nat, IssueVue) {
    match etabli {
        Ok(()) => (1, IssueVue::Connecte),
        // The connection and the requests that waited for it are lost.
        Err(i) => (1 + comptees(recues), i),
    }
}

/// Counts the requests that the interface waits for.
pub fn compter(v: &[Commande]) -> (r: usize)
    ensures
        r == comptees(vues(v@)),
{
    let ghost s = vues(v@);
    let mut n: usize = 0;
    assert(s.skip(0) =~= s);
    for i in 0..v.len()
        invariant
            s == vues(v@),
            n + comptees(s.skip(i as int)) == comptees(s),
            n <= i,
    {
        assert(s.skip(i as int).drop_first() =~= s.skip(i + 1));
        assert(s.skip(i as int)[0] == v@[i as int]@);
        if v[i].comptee() {
            n = n + 1;
        }
    }
    assert(s.skip(s.len() as int) =~= Seq::empty());
    n
}

/// The start of a worker: its session is open, or it failed with the requests that
/// waited for it, `recues`.
pub fn demarrer(etabli: Result<(), Issue>, recues: &[Commande]) -> (r: (usize, Issue))
    requires
        recues@.len() < usize::MAX,
    ensures
        (r.0 as nat, r.1@) == demarrage(
            match etabli {
                Ok(()) => Ok(()),
                Err(i) => Err(i@),
            },
            vues(recues@),
        ),
{
    match etabli {
        Ok(()) => (1, Issue::Connecte),
        Err(i) => {
            proof {
                lemme_abandons(vues(recues@));
            }
            (1 + compter(recues), i)
        },
    }
}

impl Fil {
    /// A worker with nothing to do.
    pub fn nouveau() -> (r: Fil)
        ensures
            r@ == Seq::<CommandeVue>::empty(),
    {
        let r = Fil { file: Vec::new() };
        assert(r@ =~= Seq::empty());
        r
    }

    /// Whether the worker is to wait for a request.
    pub fn oisif(&self) -> (r: bool)
        ensures
            r == (self@.len() == 0),
    {
        self.file.len() == 0
    }

    /// Adds a request.
    pub fn ajouter(&mut self, commande: Commande)
        ensures
            final(self)@ == old(self)@.push(commande@),
    {
        let ghost s = self@;
        self.file.push(commande);
        assert(self@ =~= s.push(commande@));
    }

    /// Takes what the wait brought: a request, or the check when nothing came. False
    /// if the worker is to end.
    pub fn recevoir(&mut self, reception: Reception) -> (r: bool)
        ensures
            r == !(reception is Fermee),
            final(self)@ == (match reception {
                Reception::Commande(c) => old(self)@.push(c@),
                Reception::Delai => old(self)@.push(CommandeVue::Veille),
                Reception::Fermee => old(self)@,
            }),
    {
        match reception {
            Reception::Commande(c) => {
                self.ajouter(c);
                true
            },
            Reception::Delai => {
                self.ajouter(Commande::Veille);
                true
            },
            Reception::Fermee => false,
        }
    }

    /// Drops the requests made void and takes the first of those that are left. Also
    /// gives how many requests that the interface waits for were dropped.
    pub fn prochaine(&mut self) -> (r: (usize, Option<Commande>))
        ensures
            r.0 == abandonnees(old(self)@),
            match r.1 {
                Some(c) => old(self)@.len() > 0 && c@ == gardees(old(self)@)[0] && final(self)@
                    == gardees(old(self)@).drop_first(),
                None => old(self)@.len() == 0 && final(self)@ == old(self)@,
            },
    {
        let ghost f = self@;
        let mut file: Vec<Commande> = Vec::new();
        std::mem::swap(&mut file, &mut self.file);
        assert(vues(file@) == f);
        let (gardes, n) = regrouper(file);
        let mut gardes = gardes;
        let ghost g = vues(gardes@);
        if gardes.len() == 0 {
            proof {
                if f.len() > 0 {
                    crate::commande::loi_derniere_gardee(f);
                }
                assert(f =~= Seq::empty());
            }
            self.file = gardes;
            assert(self@ =~= f);
            return (n, None);
        }
        let c = gardes.remove(0);
        assert(c@ == g[0]);
        self.file = gardes;
        assert(self@ =~= g.drop_first());
        assert(f.len() > 0) by {
            if f.len() == 0 {
                assert(gardees(f) =~= Seq::empty());
            }
        }
        (n, Some(c))
    }

    /// What a worker tells the interface once a request was dealt with: how many
    /// requests are over with, and whether the worker is to end. Where the session is
    /// lost, so are the requests left in the queue, and those that came meanwhile,
    /// `recues`.
    pub fn conclure(&mut self, comptee: bool, issue: &Option<Issue>, recues: &[Commande]) -> (r: (
        usize,
        bool,
    ))
        requires
            old(self)@.len() + recues@.len() < usize::MAX,
        ensures
            r.1 == (issue matches Some(i) && perdue(i@)),
            r.0 as nat == (if comptee {
                1nat
            } else {
                0nat
            }) + (if r.1 {
                comptees(old(self)@) + comptees(vues(recues@))
            } else {
                0
            }),
            final(self)@ == (if r.1 {
                Seq::<CommandeVue>::empty()
            } else {
                old(self)@
            }),
    {
        let n: usize = if comptee {
            1
        } else {
            0
        };
        let fin = match issue {
            Some(Issue::Echec { session_perdue, .. }) => *session_perdue,
            _ => false,
        };
        if !fin {
            return (n, false);
        }
        proof {
            lemme_abandons(self@);
            lemme_abandons(vues(recues@));
        }
        let a = compter(self.file.as_slice());
        let b = compter(recues);
        self.file = Vec::new();
        assert(self@ =~= Seq::empty());
        (n + a + b, true)
    }
}

/// No request that the interface waits for is lost from the count: of those of the
/// queue, each is dropped, taken, or left in it.
pub proof fn loi_compte_juste(f: Seq<CommandeVue>)
    requires
        f.len() > 0,
    ensures
        gardees(f).len() > 0,
        comptees(f) == abandonnees(f) + comptees(gardees(f).drop_first()) + if comptee(
            gardees(f)[0],
        ) {
            1nat
        } else {
            0nat
        },
{
    crate::commande::loi_derniere_gardee(f);
    crate::commande::loi_compte_des_abandons(f);
}

} // verus!
