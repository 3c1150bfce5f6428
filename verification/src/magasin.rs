//! Local index of a profile: its accounts, their folders with their
//! synchronisation state and their purely local state, the messages, and the moves
//! between accounts in progress.
//!
//! The index is held as tables in memory; the caller reads them from storage and
//! writes them back. Message bodies are not kept: they are read from the server
//! when needed.

use vstd::prelude::*;

use crate::ensembles::couvre;
use crate::protocole::{vues_dossiers, vues_statuts, Dossier, DossierVue, EtatDossier, Statut};
use crate::tables::{
    a_drapeau, annonce_chemin, apres_rupture, arborescence_posee, compte_de, compte_mis_a_jour,
    compte_numero, compte_retire, compteurs_notes, compteurs_poses, compris, dans_intervalles,
    dans_uids, disparu, dossier_annonce, dossier_en, dossier_nouveau, dossier_numero, dossier_pose,
    dossiers_affiches, dossiers_poses, drapeaux_poses, du_compte, epingle, etat_pose, favori_place,
    favoris_affiches, ids_comptes, ids_dossiers, ids_operations, insere, lemme_plus_grand,
    lemme_premier, lemme_rang_borne, marquage, masquage, message_en, message_pose, message_relu,
    messages_affiches, messages_de, messages_poses, nombre_messages, nombre_non_lus,
    operation_avancee, operation_en_echec, operations_de, ordre_affichage, ordre_comptes,
    ordre_favoris, ordre_messages, ordre_operations, orphelin, plus_grand, precede, premier,
    profondeur32, rang_car, rang_donne, rang_donne_si_absent, rang_final, rang_recule, rang_vise,
    rangs, rangs_chemin, recompte, role_note, rupture, sans, suivant, trie, uids_connus, CompteVue,
    DossierLocalVue, LigneVue, MagasinVue, MessageVue, OperationVue,
};
use crate::texte::{caracteres, copier, egal, egal_sans_casse, textes};

pub use crate::tables::Etape;

verus! {

// -------------------------------------------------------------------------- errors

/// Failure of an operation on the index.
#[derive(Debug)]
pub struct Erreur(pub String);

/// Result of an operation on the index.
pub type Resultat<T> = Result<T, Erreur>;

impl Erreur {
    /// The text of the failure.
    pub fn texte(&self) -> (r: String)
        ensures
            r@ == self.0@,
    {
        self.0.clone()
    }
}

/// What is said of a row that refers to one that does not exist.
pub open spec fn clef_etrangere() -> Seq<char> {
    "FOREIGN KEY constraint failed"@
}

/// What is said of a number that storage cannot hold.
pub open spec fn hors_limites() -> Seq<char> {
    "out of range integral type conversion attempted"@
}

/// What is said of a folder that holds more messages than 32 bits count.
pub open spec fn trop_de_messages() -> Seq<char> {
    "trop de messages dans le dossier"@
}

/// Why the folders of an account are refused.
pub open spec fn refus_arborescence(m: MagasinVue, compte: i64, ds: Seq<DossierVue>) -> Seq<char> {
    if ds.len() > 0 && compte_numero(m.comptes, compte) is None {
        clef_etrangere()
    } else {
        "plus d'identifiant de dossier disponible"@
    }
}

fn erreur(t: &str) -> (r: Erreur)
    ensures
        r.0@ == t@,
{
    Erreur(copier(t))
}

// ---------------------------------------------------------------------------- rows

/// The word that stands for a step in storage.
pub open spec fn code_etape(e: Etape) -> Seq<char> {
    match e {
        Etape::Deposer => "deposer"@,
        Etape::Purger => "purger"@,
    }
}

/// The step that a word stands for; an unknown word is the first step.
pub open spec fn etape_de(code: Seq<char>) -> Etape {
    if code == "purger"@ {
        Etape::Purger
    } else {
        Etape::Deposer
    }
}

/// A step that was stored is read back: an interrupted move resumes where it was.
pub proof fn loi_etape_relue(e: Etape)
    ensures
        etape_de(code_etape(e)) == e,
{
    reveal_strlit("deposer");
    reveal_strlit("purger");
    assert("deposer"@.len() != "purger"@.len());
}

impl Etape {
    /// The word that stands for the step in storage.
    pub fn code(self) -> (r: &'static str)
        ensures
            r@ == code_etape(self),
    {
        match self {
            Etape::Deposer => "deposer",
            Etape::Purger => "purger",
        }
    }

    /// The step that a word stands for; an unknown word is the first step.
    pub fn lire(code: &str) -> (r: Etape)
        ensures
            r == etape_de(code@),
    {
        if egal(code, "purger") {
            Etape::Purger
        } else {
            Etape::Deposer
        }
    }
}

/// An account as it is registered in the profile.
#[derive(Debug, PartialEq, Eq)]
pub struct CompteLocal {
    pub id: i64,
    pub adresse: String,
    pub hote: String,
    pub port: u16,
    pub utilisateur: String,
    /// Folded in the tree: its folders are not shown.
    pub replie: bool,
}

impl View for CompteLocal {
    type V = CompteVue;

    open spec fn view(&self) -> CompteVue {
        CompteVue {
            id: self.id,
            adresse: self.adresse@,
            hote: self.hote@,
            port: self.port,
            utilisateur: self.utilisateur@,
            replie: self.replie,
        }
    }
}

impl Clone for CompteLocal {
    fn clone(&self) -> (r: Self)
        ensures
            r@ == self@,
    {
        CompteLocal {
            id: self.id,
            adresse: self.adresse.clone(),
            hote: self.hote.clone(),
            port: self.port,
            utilisateur: self.utilisateur.clone(),
            replie: self.replie,
        }
    }
}

/// A folder as it is kept in the index.
#[derive(Debug, PartialEq, Eq)]
pub struct DossierLocal {
    pub id: i64,
    pub compte_id: i64,
    pub chemin: String,
    pub nom: String,
    pub separateur: String,
    pub profondeur: u32,
    pub role: String,
    pub selectionnable: bool,
    /// Counters: those of the server, then those of the index once the folder is
    /// synchronised.
    pub messages: u32,
    pub non_lus: u32,
    pub uid_validity: u32,
    pub uid_next: u32,
    pub highest_mod_seq: u64,
    /// Hidden locally: it still exists on the server.
    pub masque: bool,
    /// Rank among favourites, if it is one.
    pub favori: Option<i64>,
}

impl View for DossierLocal {
    type V = DossierLocalVue;

    open spec fn view(&self) -> DossierLocalVue {
        DossierLocalVue {
            id: self.id,
            compte_id: self.compte_id,
            chemin: self.chemin@,
            nom: self.nom@,
            separateur: self.separateur@,
            profondeur: self.profondeur,
            role: self.role@,
            selectionnable: self.selectionnable,
            messages: self.messages,
            non_lus: self.non_lus,
            uid_validity: self.uid_validity,
            uid_next: self.uid_next,
            highest_mod_seq: self.highest_mod_seq,
            masque: self.masque,
            favori: self.favori,
        }
    }
}

impl Clone for DossierLocal {
    fn clone(&self) -> (r: Self)
        ensures
            r@ == self@,
    {
        DossierLocal {
            id: self.id,
            compte_id: self.compte_id,
            chemin: self.chemin.clone(),
            nom: self.nom.clone(),
            separateur: self.separateur.clone(),
            profondeur: self.profondeur,
            role: self.role.clone(),
            selectionnable: self.selectionnable,
            messages: self.messages,
            non_lus: self.non_lus,
            uid_validity: self.uid_validity,
            uid_next: self.uid_next,
            highest_mod_seq: self.highest_mod_seq,
            masque: self.masque,
            favori: self.favori,
        }
    }
}

impl Default for DossierLocal {
    fn default() -> (r: Self)
        ensures
            r@ == (DossierLocalVue {
                id: 0,
                compte_id: 0,
                chemin: Seq::empty(),
                nom: Seq::empty(),
                separateur: Seq::empty(),
                profondeur: 0,
                role: Seq::empty(),
                selectionnable: false,
                messages: 0,
                non_lus: 0,
                uid_validity: 0,
                uid_next: 0,
                highest_mod_seq: 0,
                masque: false,
                favori: None,
            }),
    {
        DossierLocal {
            id: 0,
            compte_id: 0,
            chemin: String::new(),
            nom: String::new(),
            separateur: String::new(),
            profondeur: 0,
            role: String::new(),
            selectionnable: false,
            messages: 0,
            non_lus: 0,
            uid_validity: 0,
            uid_next: 0,
            highest_mod_seq: 0,
            masque: false,
            favori: None,
        }
    }
}

/// A message as it is kept in the index: what it takes to fill a list.
#[derive(Debug, PartialEq, Eq)]
pub struct MessageLocal {
    pub uid: u32,
    pub message_id: String,
    pub expediteur: String,
    pub adresse: String,
    pub sujet: String,
    pub date: String,
    /// Internal date of the server in Unix seconds: the sort key.
    pub horodatage: i64,
    pub taille: u32,
    pub lu: bool,
    pub repondu: bool,
}

impl View for MessageLocal {
    type V = MessageVue;

    open spec fn view(&self) -> MessageVue {
        MessageVue {
            uid: self.uid,
            message_id: self.message_id@,
            expediteur: self.expediteur@,
            adresse: self.adresse@,
            sujet: self.sujet@,
            date: self.date@,
            horodatage: self.horodatage,
            taille: self.taille,
            lu: self.lu,
            repondu: self.repondu,
        }
    }
}

impl Clone for MessageLocal {
    fn clone(&self) -> (r: Self)
        ensures
            r@ == self@,
    {
        MessageLocal {
            uid: self.uid,
            message_id: self.message_id.clone(),
            expediteur: self.expediteur.clone(),
            adresse: self.adresse.clone(),
            sujet: self.sujet.clone(),
            date: self.date.clone(),
            horodatage: self.horodatage,
            taille: self.taille,
            lu: self.lu,
            repondu: self.repondu,
        }
    }
}

/// A message of which nothing is known.
pub open spec fn message_vide() -> MessageVue {
    MessageVue {
        uid: 0,
        message_id: Seq::empty(),
        expediteur: Seq::empty(),
        adresse: Seq::empty(),
        sujet: Seq::empty(),
        date: Seq::empty(),
        horodatage: 0,
        taille: 0,
        lu: false,
        repondu: false,
    }
}

impl Default for MessageLocal {
    fn default() -> (r: Self)
        ensures
            r@ == message_vide(),
    {
        MessageLocal {
            uid: 0,
            message_id: String::new(),
            expediteur: String::new(),
            adresse: String::new(),
            sujet: String::new(),
            date: String::new(),
            horodatage: 0,
            taille: 0,
            lu: false,
            repondu: false,
        }
    }
}

/// A message with the folder it is in.
#[derive(Debug, PartialEq, Eq)]
pub struct Ligne {
    pub dossier: i64,
    pub message: MessageLocal,
}

impl View for Ligne {
    type V = LigneVue;

    open spec fn view(&self) -> LigneVue {
        LigneVue { dossier: self.dossier, message: self.message@ }
    }
}

/// A move between accounts in progress.
#[derive(Debug, PartialEq, Eq)]
pub struct Operation {
    pub id: i64,
    pub compte_source: i64,
    pub chemin_source: String,
    pub validite_source: u32,
    pub uid_source: u32,
    pub compte_cible: i64,
    pub chemin_cible: String,
    pub message_id: String,
    /// Original flags and internal date, to be put back in the target.
    pub drapeaux: String,
    pub date_interne: String,
    /// Copy of the message for the time of the move: no interruption loses it.
    pub fichier: String,
    pub etape: Etape,
    pub erreur: String,
}

impl View for Operation {
    type V = OperationVue;

    open spec fn view(&self) -> OperationVue {
        OperationVue {
            id: self.id,
            compte_source: self.compte_source,
            chemin_source: self.chemin_source@,
            validite_source: self.validite_source,
            uid_source: self.uid_source,
            compte_cible: self.compte_cible,
            chemin_cible: self.chemin_cible@,
            message_id: self.message_id@,
            drapeaux: self.drapeaux@,
            date_interne: self.date_interne@,
            fichier: self.fichier@,
            etape: self.etape,
            erreur: self.erreur@,
        }
    }
}

impl Clone for Operation {
    fn clone(&self) -> (r: Self)
        ensures
            r@ == self@,
    {
        Operation {
            id: self.id,
            compte_source: self.compte_source,
            chemin_source: self.chemin_source.clone(),
            validite_source: self.validite_source,
            uid_source: self.uid_source,
            compte_cible: self.compte_cible,
            chemin_cible: self.chemin_cible.clone(),
            message_id: self.message_id.clone(),
            drapeaux: self.drapeaux.clone(),
            date_interne: self.date_interne.clone(),
            fichier: self.fichier.clone(),
            etape: self.etape,
            erreur: self.erreur.clone(),
        }
    }
}

/// The views of some rows.
pub open spec fn vues<T: View>(s: Seq<T>) -> Seq<T::V> {
    s.map_values(|x: T| x@)
}

/// The local index of a profile.
pub struct Magasin {
    comptes: Vec<CompteLocal>,
    dossiers: Vec<DossierLocal>,
    messages: Vec<Ligne>,
    operations: Vec<Operation>,
}

impl View for Magasin {
    type V = MagasinVue;

    closed spec fn view(&self) -> MagasinVue {
        MagasinVue {
            comptes: vues(self.comptes@),
            dossiers: vues(self.dossiers@),
            messages: vues(self.messages@),
            operations: vues(self.operations@),
        }
    }
}

// --------------------------------------------------------------------------- tools

/// Puts a row in its place in an ordered list.
fn inserer<T: View, F: Fn(&T, &T) -> bool>(
    v: &mut Vec<T>,
    x: T,
    f: &F,
    Ghost(avant): Ghost<spec_fn(T::V, T::V) -> bool>,
)
    requires
        forall|a: &T, b: &T| #[trigger] f.requires((a, b)),
        forall|a: &T, b: &T, o: bool| #[trigger] f.ensures((a, b), o) ==> o == avant(a@, b@),
    ensures
        vues(final(v)@) == insere(vues(old(v)@), x@, avant),
{
    let mut i: usize = v.len();
    let ghost s = vues(v@);
    proof {
        assert(s.take(s.len() as int) =~= s);
        assert(s.skip(s.len() as int) =~= Seq::empty());
        assert(insere(s, x@, avant) =~= insere(s.take(s.len() as int), x@, avant) + s.skip(
            s.len() as int,
        ));
    }
    while i > 0 && f(&x, &v[i - 1])
        invariant
            i <= v@.len(),
            s == vues(v@),
            forall|a: &T, b: &T| #[trigger] f.requires((a, b)),
            forall|a: &T, b: &T, o: bool| #[trigger] f.ensures((a, b), o) ==> o == avant(a@, b@),
            insere(s, x@, avant) == insere(s.take(i as int), x@, avant) + s.skip(i as int),
        ensures
            i <= v@.len(),
            i > 0 ==> !avant(x@, s[i - 1]),
            s == vues(v@),
            insere(s, x@, avant) == insere(s.take(i as int), x@, avant) + s.skip(i as int),
        decreases i,
    {
        proof {
            let t = s.take(i as int);
            assert(t.last() == v@[i - 1]@);
            assert(t.drop_last() =~= s.take(i - 1));
            assert(insere(t, x@, avant) + s.skip(i as int) =~= insere(s.take(i - 1), x@, avant)
                + s.skip(i - 1));
        }
        i -= 1;
    }
    proof {
        let t = s.take(i as int);
        if i > 0 {
            assert(t.last() == s[i - 1]);
        }
        assert(insere(t, x@, avant) == t.push(x@));
        assert(insere(s, x@, avant) =~= s.insert(i as int, x@));
    }
    let ghost xv = x@;
    v.insert(i, x);
    assert(vues(v@) =~= s.insert(i as int, xv));
}

/// Sorts rows.
fn trier<T: View, F: Fn(&T, &T) -> bool>(
    v: Vec<T>,
    f: F,
    Ghost(avant): Ghost<spec_fn(T::V, T::V) -> bool>,
) -> (r: Vec<T>)
    requires
        forall|a: &T, b: &T| #[trigger] f.requires((a, b)),
        forall|a: &T, b: &T, o: bool| #[trigger] f.ensures((a, b), o) ==> o == avant(a@, b@),
    ensures
        vues(r@) == trie(vues(v@), avant),
{
    let ghost s = vues(v@);
    let mut r: Vec<T> = Vec::new();
    assert(vues(r@) =~= s.take(0));
    for x in it: v
        invariant
            s == vues(it.seq()),
            forall|a: &T, b: &T| #[trigger] f.requires((a, b)),
            forall|a: &T, b: &T, o: bool| #[trigger] f.ensures((a, b), o) ==> o == avant(a@, b@),
            vues(r@) == trie(s.take(it.index() as int), avant),
    {
        proof {
            let i = it.index() as int;
            assert(s.take(i + 1).drop_last() =~= s.take(i));
            assert(s.take(i + 1).last() == s[i]);
        }
        inserer(&mut r, x, &f, Ghost(avant));
    }
    assert(s.take(s.len() as int) =~= s);
    r
}

/// One more row in a search.
proof fn lemme_premier_pas<A>(s: Seq<A>, i: int, p: spec_fn(A) -> bool)
    requires
        0 <= i < s.len(),
    ensures
        premier(s.take(i + 1), p) == (match premier(s.take(i), p) {
            Some(a) => Some(a),
            None => if p(s[i]) {
                Some(s[i])
            } else {
                None
            },
        }),
{
    assert(s.take(i + 1).drop_last() =~= s.take(i));
    assert(s.take(i + 1).last() == s[i]);
}

/// One more row in a selection.
proof fn lemme_filtre_pas<A>(s: Seq<A>, i: int, p: spec_fn(A) -> bool)
    requires
        0 <= i < s.len(),
    ensures
        s.take(i + 1).filter(p) == (if p(s[i]) {
            s.take(i).filter(p).push(s[i])
        } else {
            s.take(i).filter(p)
        }),
{
    reveal(Seq::filter);
    assert(s.take(i + 1).drop_last() =~= s.take(i));
    assert(s.take(i + 1).last() == s[i]);
}

/// A selection of nothing is empty.
proof fn lemme_filtre_vide<A>(s: Seq<A>, p: spec_fn(A) -> bool)
    ensures
        s.take(0).filter(p) == Seq::<A>::empty(),
{
    reveal(Seq::filter);
    assert(s.take(0).filter(p) =~= Seq::empty());
}

fn indice_adresse(v: &Vec<CompteLocal>, adresse: &str) -> (r: Option<usize>)
    ensures
        match r {
            Some(k) => k < v@.len() && compte_de(vues(v@), adresse@) == Some(v@[k as int]@),
            None => compte_de(vues(v@), adresse@) is None,
        },
{
    let ghost s = vues(v@);
    let mut r: Option<usize> = None;
    for i in 0..v.len()
        invariant
            s == vues(v@),
            match r {
                Some(k) => k < i && compte_de(s.take(i as int), adresse@) == Some(v@[k as int]@),
                None => compte_de(s.take(i as int), adresse@) is None,
            },
    {
        proof {
            lemme_premier_pas(s, i as int, |c: CompteVue| c.adresse == adresse@);
        }
        if r.is_none() && egal(v[i].adresse.as_str(), adresse) {
            r = Some(i);
        }
    }
    assert(s.take(s.len() as int) =~= s);
    r
}

fn indice_compte(v: &Vec<CompteLocal>, id: i64) -> (r: Option<usize>)
    ensures
        match r {
            Some(k) => k < v@.len() && compte_numero(vues(v@), id) == Some(v@[k as int]@),
            None => compte_numero(vues(v@), id) is None,
        },
{
    let ghost s = vues(v@);
    let mut r: Option<usize> = None;
    for i in 0..v.len()
        invariant
            s == vues(v@),
            match r {
                Some(k) => k < i && compte_numero(s.take(i as int), id) == Some(v@[k as int]@),
                None => compte_numero(s.take(i as int), id) is None,
            },
    {
        proof {
            lemme_premier_pas(s, i as int, |c: CompteVue| c.id == id);
        }
        if r.is_none() && v[i].id == id {
            r = Some(i);
        }
    }
    assert(s.take(s.len() as int) =~= s);
    r
}

fn indice_chemin(v: &Vec<DossierLocal>, compte: i64, chemin: &str) -> (r: Option<usize>)
    ensures
        match r {
            Some(k) => k < v@.len() && dossier_en(vues(v@), compte, chemin@) == Some(
                v@[k as int]@,
            ),
            None => dossier_en(vues(v@), compte, chemin@) is None,
        },
{
    let ghost s = vues(v@);
    let mut r: Option<usize> = None;
    for i in 0..v.len()
        invariant
            s == vues(v@),
            match r {
                Some(k) => k < i && dossier_en(s.take(i as int), compte, chemin@) == Some(
                    v@[k as int]@,
                ),
                None => dossier_en(s.take(i as int), compte, chemin@) is None,
            },
    {
        proof {
            lemme_premier_pas(
                s,
                i as int,
                |d: DossierLocalVue| d.compte_id == compte && d.chemin == chemin@,
            );
        }
        if r.is_none() && v[i].compte_id == compte && egal(v[i].chemin.as_str(), chemin) {
            r = Some(i);
        }
    }
    assert(s.take(s.len() as int) =~= s);
    r
}

fn indice_dossier(v: &Vec<DossierLocal>, id: i64) -> (r: Option<usize>)
    ensures
        match r {
            Some(k) => k < v@.len() && dossier_numero(vues(v@), id) == Some(v@[k as int]@),
            None => dossier_numero(vues(v@), id) is None,
        },
{
    let ghost s = vues(v@);
    let mut r: Option<usize> = None;
    for i in 0..v.len()
        invariant
            s == vues(v@),
            match r {
                Some(k) => k < i && dossier_numero(s.take(i as int), id) == Some(v@[k as int]@),
                None => dossier_numero(s.take(i as int), id) is None,
            },
    {
        proof {
            lemme_premier_pas(s, i as int, |d: DossierLocalVue| d.id == id);
        }
        if r.is_none() && v[i].id == id {
            r = Some(i);
        }
    }
    assert(s.take(s.len() as int) =~= s);
    r
}

fn indice_message(v: &Vec<Ligne>, dossier: i64, uid: u32) -> (r: Option<usize>)
    ensures
        match r {
            Some(k) => k < v@.len() && message_en(vues(v@), dossier, uid) == Some(v@[k as int]@),
            None => message_en(vues(v@), dossier, uid) is None,
        },
{
    let ghost s = vues(v@);
    let mut r: Option<usize> = None;
    for i in 0..v.len()
        invariant
            s == vues(v@),
            match r {
                Some(k) => k < i && message_en(s.take(i as int), dossier, uid) == Some(
                    v@[k as int]@,
                ),
                None => message_en(s.take(i as int), dossier, uid) is None,
            },
    {
        proof {
            lemme_premier_pas(
                s,
                i as int,
                |l: LigneVue| l.dossier == dossier && l.message.uid == uid,
            );
        }
        if r.is_none() && v[i].dossier == dossier && v[i].message.uid == uid {
            r = Some(i);
        }
    }
    assert(s.take(s.len() as int) =~= s);
    r
}

/// The larger of a number and the largest so far.
fn cumul_max(m: Option<i64>, x: i64) -> (r: Option<i64>)
    ensures
        r == (match m {
            Some(y) => if x > y {
                Some(x)
            } else {
                Some(y)
            },
            None => Some(x),
        }),
{
    match m {
        Some(y) => if x > y {
            Some(x)
        } else {
            Some(y)
        },
        None => Some(x),
    }
}

/// The identifier after the largest; none where 64 bits cannot hold it.
fn apres(m: Option<i64>) -> (r: Option<i64>)
    ensures
        match r {
            Some(n) => n == (match m {
                Some(x) => x + 1,
                None => 1,
            }),
            None => m == Some(i64::MAX),
        },
{
    match m {
        Some(x) => if x == i64::MAX {
            None
        } else {
            Some(x + 1)
        },
        None => Some(1),
    }
}

fn prochain_compte(v: &Vec<CompteLocal>) -> (r: Option<i64>)
    ensures
        match r {
            Some(n) => n == suivant(ids_comptes(vues(v@))),
            None => suivant(ids_comptes(vues(v@))) > i64::MAX,
        },
{
    let ghost s = ids_comptes(vues(v@));
    let mut m: Option<i64> = None;
    for i in 0..v.len()
        invariant
            s == ids_comptes(vues(v@)),
            m == plus_grand(s.take(i as int)),
    {
        proof {
            assert(s.take(i + 1).drop_last() =~= s.take(i as int));
        }
        m = cumul_max(m, v[i].id);
    }
    assert(s.take(s.len() as int) =~= s);
    apres(m)
}

fn prochain_dossier(v: &Vec<DossierLocal>) -> (r: Option<i64>)
    ensures
        match r {
            Some(n) => n == suivant(ids_dossiers(vues(v@))),
            None => suivant(ids_dossiers(vues(v@))) > i64::MAX,
        },
{
    let ghost s = ids_dossiers(vues(v@));
    let mut m: Option<i64> = None;
    for i in 0..v.len()
        invariant
            s == ids_dossiers(vues(v@)),
            m == plus_grand(s.take(i as int)),
    {
        proof {
            assert(s.take(i + 1).drop_last() =~= s.take(i as int));
        }
        m = cumul_max(m, v[i].id);
    }
    assert(s.take(s.len() as int) =~= s);
    apres(m)
}

fn prochaine_operation(v: &Vec<Operation>) -> (r: Option<i64>)
    ensures
        match r {
            Some(n) => n == suivant(ids_operations(vues(v@))),
            None => suivant(ids_operations(vues(v@))) > i64::MAX,
        },
{
    let ghost s = ids_operations(vues(v@));
    let mut m: Option<i64> = None;
    for i in 0..v.len()
        invariant
            s == ids_operations(vues(v@)),
            m == plus_grand(s.take(i as int)),
    {
        proof {
            assert(s.take(i + 1).drop_last() =~= s.take(i as int));
        }
        m = cumul_max(m, v[i].id);
    }
    assert(s.take(s.len() as int) =~= s);
    apres(m)
}

fn prochain_rang(v: &Vec<DossierLocal>) -> (r: Option<i64>)
    ensures
        match r {
            Some(n) => n == rang_final(vues(v@)),
            None => rang_final(vues(v@)) > i64::MAX,
        },
{
    let ghost s = vues(v@);
    let ghost f = |d: DossierLocalVue| d.favori;
    let mut m: Option<i64> = None;
    assert(rangs(s.take(0)) =~= Seq::empty());
    for i in 0..v.len()
        invariant
            s == vues(v@),
            f == (|d: DossierLocalVue| d.favori),
            m == plus_grand(rangs(s.take(i as int))),
    {
        proof {
            s.lemma_filter_map_take_succ(f, i as int);
            if let Some(x) = v@[i as int].favori {
                assert(rangs(s.take(i + 1)) =~= rangs(s.take(i as int)).push(x));
                assert(rangs(s.take(i as int)).push(x).drop_last() =~= rangs(s.take(i as int)));
            } else {
                assert(rangs(s.take(i + 1)) =~= rangs(s.take(i as int)));
            }
        }
        if let Some(x) = v[i].favori {
            m = cumul_max(m, x);
        }
    }
    assert(s.take(s.len() as int) =~= s);
    apres(m)
}

/// Whether a text is made of one character.
fn seul(s: &[char], c: char) -> (r: bool)
    ensures
        r == (s@ == seq![c]),
{
    let r = s.len() == 1 && s[0] == c;
    assert(r ==> s@ =~= seq![c]);
    r
}

/// The rank of a character of a path.
fn lire_rang_car(separateur: &[char], c: char) -> (r: u32)
    ensures
        r == rang_car(separateur@, c),
{
    if seul(separateur, c) {
        0
    } else {
        c as u32 + 1
    }
}

/// Whether a path comes before another in the order of the tree.
fn devant_chemin(a: &DossierLocal, b: &DossierLocal) -> (r: bool)
    ensures
        r == precede(
            rangs_chemin(a@.chemin, a@.separateur),
            rangs_chemin(b@.chemin, b@.separateur),
        ),
{
    let x = caracteres(a.chemin.as_str());
    let y = caracteres(b.chemin.as_str());
    let sx = caracteres(a.separateur.as_str());
    let sy = caracteres(b.separateur.as_str());
    let ghost p = rangs_chemin(a@.chemin, a@.separateur);
    let ghost q = rangs_chemin(b@.chemin, b@.separateur);
    let mut i: usize = 0;
    proof {
        assert(p.skip(0) =~= p);
        assert(q.skip(0) =~= q);
    }
    loop
        invariant
            x@ == a@.chemin,
            y@ == b@.chemin,
            sx@ == a@.separateur,
            sy@ == b@.separateur,
            p == rangs_chemin(a@.chemin, a@.separateur),
            q == rangs_chemin(b@.chemin, b@.separateur),
            i <= x@.len(),
            i <= y@.len(),
            precede(p, q) == precede(p.skip(i as int), q.skip(i as int)),
        decreases x@.len() - i,
    {
        if i >= y.len() {
            return false;
        }
        if i >= x.len() {
            return true;
        }
        let m: u32 = lire_rang_car(sx.as_slice(), x[i]);
        let n: u32 = lire_rang_car(sy.as_slice(), y[i]);
        assert(p.skip(i as int)[0] == m && q.skip(i as int)[0] == n);
        if m != n {
            return m < n;
        }
        proof {
            assert(p.skip(i as int).drop_first() =~= p.skip(i + 1));
            assert(q.skip(i as int).drop_first() =~= q.skip(i + 1));
        }
        i += 1;
    }
}

fn copier_compte(c: &CompteLocal) -> (r: CompteLocal)
    ensures
        r@ == c@,
{
    c.clone()
}

fn copier_dossier(d: &DossierLocal) -> (r: DossierLocal)
    ensures
        r@ == d@,
{
    d.clone()
}

fn copier_operation(o: &Operation) -> (r: Operation)
    ensures
        r@ == o@,
{
    o.clone()
}

fn compte_devant(a: &CompteLocal, b: &CompteLocal) -> (r: bool)
    ensures
        r == ordre_comptes()(a@, b@),
{
    a.id < b.id
}

fn operation_devant(a: &Operation, b: &Operation) -> (r: bool)
    ensures
        r == ordre_operations()(a@, b@),
{
    a.id < b.id
}

fn dossier_devant(a: &DossierLocal, b: &DossierLocal) -> (r: bool)
    ensures
        r == ordre_affichage()(a@, b@),
{
    let ia = egal(a.chemin.as_str(), "INBOX");
    let ib = egal(b.chemin.as_str(), "INBOX");
    let ra = !a.role.as_str().is_empty();
    let rb = !b.role.as_str().is_empty();
    if ia != ib {
        ia
    } else if ra != rb {
        ra
    } else {
        devant_chemin(a, b)
    }
}

fn favori_devant(a: &DossierLocal, b: &DossierLocal) -> (r: bool)
    ensures
        r == ordre_favoris()(a@, b@),
{
    let ra: i64 = a.favori.unwrap_or(0);
    let rb: i64 = b.favori.unwrap_or(0);
    ra < rb || (ra == rb && a.id < b.id)
}

fn message_devant(a: &MessageLocal, b: &MessageLocal) -> (r: bool)
    ensures
        r == ordre_messages()(a@, b@),
{
    a.horodatage > b.horodatage || (a.horodatage == b.horodatage && a.uid > b.uid)
}

// ------------------------------------------------------------------------- changes

/// Marks a message row as read again.
fn relire_ligne(v: &mut Vec<Ligne>, dossier: i64, uid: u32, lu: bool, repondu: bool)
    ensures
        vues(final(v)@) == vues(old(v)@).map_values(message_relu(dossier, uid, lu, repondu)),
{
    let ghost s = vues(v@);
    let ghost f = message_relu(dossier, uid, lu, repondu);
    let n: usize = v.len();
    for i in 0..n
        invariant
            n == s.len(),
            f == message_relu(dossier, uid, lu, repondu),
            v@.len() == s.len(),
            forall|j: int| 0 <= j < i ==> (#[trigger] v@[j])@ == f(s[j]),
            forall|j: int| i <= j < s.len() ==> (#[trigger] v@[j])@ == s[j],
    {
        if v[i].dossier == dossier && v[i].message.uid == uid {
            v[i].message.lu = lu;
            v[i].message.repondu = repondu;
        }
    }
    assert(vues(v@) =~= s.map_values(f));
}

/// Whether a list of flags holds one, whatever the case of its letters.
fn porte_drapeau(v: &Vec<String>, drapeau: &str) -> (r: bool)
    ensures
        r == a_drapeau(textes(v@), drapeau@),
{
    for i in 0..v.len()
        invariant
            forall|j: int|
                0 <= j < i ==> crate::texte::minuscules((#[trigger] v@[j])@)
                    != crate::texte::minuscules(drapeau@),
    {
        if egal_sans_casse(v[i].as_str(), drapeau) {
            assert(textes(v@)[i as int] == v@[i as int]@);
            return true;
        }
    }
    assert forall|j: int| 0 <= j < textes(v@).len() implies crate::texte::minuscules(
        #[trigger] textes(v@)[j],
    ) != crate::texte::minuscules(drapeau@) by {
        assert(textes(v@)[j] == v@[j]@);
    }
    false
}

/// Whether some intervals cover a UID.
fn est_couvert(v: &[(u32, u32)], n: u32) -> (r: bool)
    ensures
        r == couvre(v@, n as int),
{
    for i in 0..v.len()
        invariant
            forall|j: int| 0 <= j < i ==> !((#[trigger] v@[j]).0 <= n <= v@[j].1),
    {
        if v[i].0 <= n && n <= v[i].1 {
            assert(v@[i as int].0 <= n <= v@[i as int].1);
            return true;
        }
    }
    false
}

/// Whether a list holds a UID.
pub fn contient_uid(v: &[u32], n: u32) -> (r: bool)
    ensures
        r == v@.contains(n),
{
    for i in 0..v.len()
        invariant
            forall|j: int| 0 <= j < i ==> v@[j] != n,
    {
        if v[i] == n {
            assert(v@[i as int] == n);
            return true;
        }
    }
    false
}

/// Whether a list of folders names a path.
fn nomme_chemin(v: &[Dossier], chemin: &str) -> (r: bool)
    ensures
        r == annonce_chemin(vues_dossiers(v@), chemin@),
{
    for i in 0..v.len()
        invariant
            forall|j: int| 0 <= j < i ==> (#[trigger] v@[j]).chemin@ != chemin@,
    {
        if egal(v[i].chemin.as_str(), chemin) {
            assert(vues_dossiers(v@)[i as int].chemin == chemin@);
            return true;
        }
    }
    assert forall|j: int| 0 <= j < vues_dossiers(v@).len() implies (#[trigger] vues_dossiers(
        v@,
    )[j]).chemin != chemin@ by {
        assert(vues_dossiers(v@)[j].chemin == v@[j].chemin@);
    }
    false
}

/// The depth of a folder in 32 bits.
fn profondeur_notee(d: &Dossier) -> (r: u32)
    ensures
        r == profondeur32(d@),
{
    let p: usize = d.profondeur();
    let q: u64 = p as u64 % 0x1_0000_0000;
    q as u32
}

/// The role of a folder, empty where it has none.
fn role_ecrit(d: &Dossier) -> (r: String)
    ensures
        r@ == role_note(d@),
{
    match d.role() {
        Some(t) => copier(t),
        None => String::new(),
    }
}

/// Puts a folder that the server announces in the table.
fn poser_dossier(v: &mut Vec<DossierLocal>, compte: i64, d: &Dossier) -> (r: bool)
    ensures
        r ==> dossier_pose(vues(old(v)@), compte, d@) == Some(vues(final(v)@)),
        !r ==> dossier_pose(vues(old(v)@), compte, d@) is None,
{
    let ghost s = vues(v@);
    if indice_chemin(v, compte, d.chemin.as_str()).is_some() {
        let ghost f = dossier_annonce(compte, d@);
        let n: usize = v.len();
        for i in 0..n
            invariant
                n == s.len(),
                f == dossier_annonce(compte, d@),
                v@.len() == s.len(),
                forall|j: int| 0 <= j < i ==> (#[trigger] v@[j])@ == f(s[j]),
                forall|j: int| i <= j < s.len() ==> (#[trigger] v@[j])@ == s[j],
        {
            if v[i].compte_id == compte && egal(v[i].chemin.as_str(), d.chemin.as_str()) {
                v[i].nom = d.nom();
                v[i].profondeur = profondeur_notee(d);
                v[i].role = role_ecrit(d);
                v[i].separateur = d.separateur.clone();
                v[i].selectionnable = d.selectionnable();
            }
        }
        assert(vues(v@) =~= s.map_values(f));
        return true;
    }
    match prochain_dossier(v) {
        None => false,
        Some(id) => {
            let ligne = DossierLocal {
                id,
                compte_id: compte,
                chemin: d.chemin.clone(),
                nom: d.nom(),
                separateur: d.separateur.clone(),
                profondeur: profondeur_notee(d),
                role: role_ecrit(d),
                selectionnable: d.selectionnable(),
                messages: 0,
                non_lus: 0,
                uid_validity: 0,
                uid_next: 0,
                highest_mod_seq: 0,
                masque: false,
                favori: None,
            };
            let ghost n = ligne@;
            v.push(ligne);
            assert(n == dossier_nouveau(id, compte, d@));
            assert(vues(v@) =~= s.push(n));
            true
        },
    }
}

/// Puts a message in the table.
fn poser_message(v: &mut Vec<Ligne>, dossier: i64, m: &MessageLocal)
    ensures
        vues(final(v)@) == message_pose(vues(old(v)@), dossier, m@),
{
    if indice_message(v, dossier, m.uid).is_some() {
        relire_ligne(v, dossier, m.uid, m.lu, m.repondu);
    } else {
        let ghost s = vues(v@);
        v.push(Ligne { dossier, message: m.clone() });
        assert(vues(v@) =~= s.push(LigneVue { dossier, message: m@ }));
    }
}

/// Keeps the rows that meet a condition.
pub(crate) fn retenir<T: View, F: Fn(&T) -> bool>(
    v: Vec<T>,
    f: F,
    Ghost(p): Ghost<spec_fn(T::V) -> bool>,
) -> (r: Vec<T>)
    requires
        forall|a: &T| #[trigger] f.requires((a,)),
        forall|a: &T, o: bool| #[trigger] f.ensures((a,), o) ==> o == p(a@),
    ensures
        vues(r@) == vues(v@).filter(p),
{
    let ghost s = vues(v@);
    let mut r: Vec<T> = Vec::new();
    proof {
        lemme_filtre_vide(s, p);
        assert(vues(r@) =~= Seq::empty());
    }
    for x in it: v
        invariant
            s == vues(it.seq()),
            forall|a: &T| #[trigger] f.requires((a,)),
            forall|a: &T, o: bool| #[trigger] f.ensures((a,), o) ==> o == p(a@),
            vues(r@) == s.take(it.index() as int).filter(p),
    {
        proof {
            lemme_filtre_pas(s, it.index() as int, p);
        }
        let ghost avant = vues(r@);
        let ghost xv = x@;
        if f(&x) {
            r.push(x);
            assert(vues(r@) =~= avant.push(xv));
        }
    }
    assert(s.take(s.len() as int) =~= s);
    r
}

/// Copies the rows that meet a condition.
fn choisir<T: View, F: Fn(&T) -> bool, G: Fn(&T) -> T>(
    v: &Vec<T>,
    f: F,
    g: G,
    Ghost(p): Ghost<spec_fn(T::V) -> bool>,
) -> (r: Vec<T>)
    requires
        forall|a: &T| #[trigger] f.requires((a,)),
        forall|a: &T, o: bool| #[trigger] f.ensures((a,), o) ==> o == p(a@),
        forall|a: &T| #[trigger] g.requires((a,)),
        forall|a: &T, b: T| #[trigger] g.ensures((a,), b) ==> b@ == a@,
    ensures
        vues(r@) == vues(v@).filter(p),
{
    let ghost s = vues(v@);
    let mut r: Vec<T> = Vec::new();
    proof {
        lemme_filtre_vide(s, p);
        assert(vues(r@) =~= Seq::empty());
    }
    for i in 0..v.len()
        invariant
            s == vues(v@),
            forall|a: &T| #[trigger] f.requires((a,)),
            forall|a: &T, o: bool| #[trigger] f.ensures((a,), o) ==> o == p(a@),
            forall|a: &T| #[trigger] g.requires((a,)),
            forall|a: &T, b: T| #[trigger] g.ensures((a,), b) ==> b@ == a@,
            vues(r@) == s.take(i as int).filter(p),
    {
        proof {
            lemme_filtre_pas(s, i as int, p);
        }
        if f(&v[i]) {
            let ghost avant = vues(r@);
            r.push(g(&v[i]));
            assert(vues(r@) =~= avant.push(v@[i as int]@));
        }
    }
    assert(s.take(s.len() as int) =~= s);
    r
}

/// Copies the folders of a table.
fn copier_dossiers(v: &Vec<DossierLocal>) -> (r: Vec<DossierLocal>)
    ensures
        vues(r@) == vues(v@),
{
    let mut r: Vec<DossierLocal> = Vec::new();
    for i in 0..v.len()
        invariant
            r@.len() == i,
            forall|j: int| 0 <= j < i ==> (#[trigger] r@[j])@ == v@[j]@,
    {
        r.push(v[i].clone());
    }
    assert(vues(r@) =~= vues(v@));
    r
}

// ------------------------------------------------------------------- construction

impl Magasin {
    /// An index without rows.
    pub fn en_memoire() -> (r: Resultat<Magasin>)
        ensures
            r is Ok,
            r->Ok_0@ == (MagasinVue {
                comptes: Seq::empty(),
                dossiers: Seq::empty(),
                messages: Seq::empty(),
                operations: Seq::empty(),
            }),
    {
        Ok(Magasin::charger(Vec::new(), Vec::new(), Vec::new(), Vec::new()))
    }

    /// An index with the rows read from storage.
    pub fn charger(
        comptes: Vec<CompteLocal>,
        dossiers: Vec<DossierLocal>,
        messages: Vec<Ligne>,
        operations: Vec<Operation>,
    ) -> (r: Magasin)
        ensures
            r@ == (MagasinVue {
                comptes: vues(comptes@),
                dossiers: vues(dossiers@),
                messages: vues(messages@),
                operations: vues(operations@),
            }),
    {
        Magasin { comptes, dossiers, messages, operations }
    }

    /// The rows of the accounts, to be written to storage.
    pub fn lignes_comptes(&self) -> (r: &Vec<CompteLocal>)
        ensures
            vues(r@) == self@.comptes,
    {
        &self.comptes
    }

    /// The rows of the folders, to be written to storage.
    pub fn lignes_dossiers(&self) -> (r: &Vec<DossierLocal>)
        ensures
            vues(r@) == self@.dossiers,
    {
        &self.dossiers
    }

    /// The rows of the messages, to be written to storage.
    pub fn lignes_messages(&self) -> (r: &Vec<Ligne>)
        ensures
            vues(r@) == self@.messages,
    {
        &self.messages
    }

    /// The rows of the moves, to be written to storage.
    pub fn lignes_operations(&self) -> (r: &Vec<Operation>)
        ensures
            vues(r@) == self@.operations,
    {
        &self.operations
    }
}

// ------------------------------------------------------------------------ accounts

impl Magasin {
    /// Identifier of an account already registered, without creating any.
    pub fn compte_connu(&self, adresse: &str) -> (r: Resultat<Option<i64>>)
        ensures
            r is Ok,
            r->Ok_0 == (match compte_de(self@.comptes, adresse@) {
                Some(c) => Some(c.id),
                None => None,
            }),
    {
        match indice_adresse(&self.comptes, adresse) {
            Some(k) => Ok(Some(self.comptes[k].id)),
            None => Ok(None),
        }
    }

    /// Registers an account, or finds it again if it is known: its server and its
    /// user name are then updated.
    pub fn compte(&mut self, adresse: &str, hote: &str, port: u16, utilisateur: &str) -> (r: Resultat<
        i64,
    >)
        ensures
            final(self)@.dossiers == old(self)@.dossiers,
            final(self)@.messages == old(self)@.messages,
            final(self)@.operations == old(self)@.operations,
            match compte_de(old(self)@.comptes, adresse@) {
                Some(c) => {
                    &&& r is Ok
                    &&& r->Ok_0 == c.id
                    &&& final(self)@.comptes == old(self)@.comptes.map_values(
                        compte_mis_a_jour(adresse@, hote@, port, utilisateur@),
                    )
                },
                None => {
                    let id = suivant(ids_comptes(old(self)@.comptes));
                    &&& r is Ok <==> id <= i64::MAX
                    &&& r is Ok ==> r->Ok_0 == id && final(self)@.comptes
                        == old(self)@.comptes.push(
                        CompteVue {
                            id: id as i64,
                            adresse: adresse@,
                            hote: hote@,
                            port,
                            utilisateur: utilisateur@,
                            replie: false,
                        },
                    )
                    &&& r is Err ==> final(self)@ == old(self)@ && r->Err_0.0@
                        == "plus d'identifiant de compte disponible"@
                },
            },
    {
        let ghost s = self@.comptes;
        match indice_adresse(&self.comptes, adresse) {
            Some(k) => {
                let id: i64 = self.comptes[k].id;
                let ghost f = compte_mis_a_jour(adresse@, hote@, port, utilisateur@);
                let n: usize = self.comptes.len();
                for i in 0..n
                    invariant
                        n == s.len(),
                        f == compte_mis_a_jour(adresse@, hote@, port, utilisateur@),
                        self.comptes@.len() == s.len(),
                        self.dossiers@ == old(self).dossiers@,
                        self.messages@ == old(self).messages@,
                        self.operations@ == old(self).operations@,
                        forall|j: int| 0 <= j < i ==> (#[trigger] self.comptes@[j])@ == f(s[j]),
                        forall|j: int| i <= j < s.len() ==> (#[trigger] self.comptes@[j])@ == s[j],
                {
                    if egal(self.comptes[i].adresse.as_str(), adresse) {
                        self.comptes[i].hote = copier(hote);
                        self.comptes[i].port = port;
                        self.comptes[i].utilisateur = copier(utilisateur);
                    }
                }
                assert(vues(self.comptes@) =~= s.map_values(f));
                Ok(id)
            },
            None => match prochain_compte(&self.comptes) {
                None => Err(erreur("plus d'identifiant de compte disponible")),
                Some(id) => {
                    let c = CompteLocal {
                        id,
                        adresse: copier(adresse),
                        hote: copier(hote),
                        port,
                        utilisateur: copier(utilisateur),
                        replie: false,
                    };
                    let ghost n = c@;
                    self.comptes.push(c);
                    assert(vues(self.comptes@) =~= s.push(n));
                    Ok(id)
                },
            },
        }
    }

    /// Accounts of the profile, in the order in which they were added.
    pub fn comptes(&self) -> (r: Resultat<Vec<CompteLocal>>)
        ensures
            r is Ok,
            vues(r->Ok_0@) == trie(self@.comptes, ordre_comptes()),
    {
        let v = choisir(
            &self.comptes,
            |c: &CompteLocal| -> (b: bool)
                ensures b
            {
                true
            },
            copier_compte,
            Ghost(|c: CompteVue| true),
        );
        proof {
            lemme_filtre_tout(self@.comptes, |c: CompteVue| true);
        }
        Ok(trier(v, compte_devant, Ghost(ordre_comptes())))
    }

    /// An account by its identifier.
    pub fn compte_par_id(&self, id: i64) -> (r: Resultat<Option<CompteLocal>>)
        ensures
            r is Ok,
            match r->Ok_0 {
                Some(c) => compte_numero(self@.comptes, id) == Some(c@),
                None => compte_numero(self@.comptes, id) is None,
            },
    {
        match indice_compte(&self.comptes, id) {
            Some(k) => Ok(Some(self.comptes[k].clone())),
            None => Ok(None),
        }
    }

    /// Folds or unfolds an account in the tree.
    pub fn replier_compte(&mut self, id: i64, replie: bool) -> (r: Resultat<()>)
        ensures
            r is Ok,
            final(self)@ == (MagasinVue {
                comptes: old(self)@.comptes.map_values(
                    |c: CompteVue|
                        if c.id == id {
                            CompteVue { replie, ..c }
                        } else {
                            c
                        },
                ),
                ..old(self)@
            }),
    {
        let ghost s = self@.comptes;
        let ghost f = |c: CompteVue|
            if c.id == id {
                CompteVue { replie, ..c }
            } else {
                c
            };
        let n: usize = self.comptes.len();
        for i in 0..n
            invariant
                n == s.len(),
                f == (|c: CompteVue|
                    if c.id == id {
                        CompteVue { replie, ..c }
                    } else {
                        c
                    }),
                self.comptes@.len() == s.len(),
                self.dossiers@ == old(self).dossiers@,
                self.messages@ == old(self).messages@,
                self.operations@ == old(self).operations@,
                forall|j: int| 0 <= j < i ==> (#[trigger] self.comptes@[j])@ == f(s[j]),
                forall|j: int| i <= j < s.len() ==> (#[trigger] self.comptes@[j])@ == s[j],
        {
            if self.comptes[i].id == id {
                self.comptes[i].replie = replie;
            }
        }
        assert(vues(self.comptes@) =~= s.map_values(f));
        Ok(())
    }

    /// Removes an account from the profile, with its index. Nothing is touched on
    /// the server.
    pub fn retirer_compte(&mut self, id: i64) -> (r: Resultat<()>)
        ensures
            r is Ok,
            final(self)@ == compte_retire(old(self)@, id),
    {
        if indice_compte(&self.comptes, id).is_none() {
            return Ok(());
        }
        let ghost m = self@;
        let mut comptes: Vec<CompteLocal> = Vec::new();
        let mut dossiers: Vec<DossierLocal> = Vec::new();
        let mut messages: Vec<Ligne> = Vec::new();
        let mut operations: Vec<Operation> = Vec::new();
        std::mem::swap(&mut comptes, &mut self.comptes);
        std::mem::swap(&mut dossiers, &mut self.dossiers);
        std::mem::swap(&mut messages, &mut self.messages);
        std::mem::swap(&mut operations, &mut self.operations);
        let restants = retenir(
            messages,
            |l: &Ligne| -> (b: bool)
                ensures b == !orphelin(m.dossiers, du_compte(id))(l@)
            {
                !dossier_du_compte(&dossiers, id, l.dossier)
            },
            Ghost(|l: LigneVue| !orphelin(m.dossiers, du_compte(id))(l)),
        );
        self.messages = restants;
        self.comptes =
        retenir(
            comptes,
            |c: &CompteLocal| -> (b: bool)
                ensures b == !(c@.id == id)
            {
                c.id != id
            },
            Ghost(|c: CompteVue| !(|c: CompteVue| c.id == id)(c)),
        );
        self.dossiers =
        retenir(
            dossiers,
            |d: &DossierLocal| -> (b: bool)
                ensures b == !(d@.compte_id == id)
            {
                d.compte_id != id
            },
            Ghost(|d: DossierLocalVue| !du_compte(id)(d)),
        );
        self.operations =
        retenir(
            operations,
            |o: &Operation| -> (b: bool)
                ensures b == !(o@.compte_source == id || o@.compte_cible == id)
            {
                o.compte_source != id && o.compte_cible != id
            },
            Ghost(
                |o: OperationVue|
                    !(|o: OperationVue| o.compte_source == id || o.compte_cible == id)(o),
            ),
        );
        Ok(())
    }
}

/// Whether a folder is one of an account.
fn dossier_du_compte(v: &Vec<DossierLocal>, compte: i64, id: i64) -> (r: bool)
    ensures
        r == compris(vues(v@), du_compte(compte), id),
{
    for i in 0..v.len()
        invariant
            forall|j: int| 0 <= j < i ==> !((#[trigger] v@[j]).compte_id == compte && v@[j].id == id),
    {
        if v[i].compte_id == compte && v[i].id == id {
            assert(du_compte(compte)(vues(v@)[i as int]));
            return true;
        }
    }
    assert forall|i: int| 0 <= i < vues(v@).len() implies !(du_compte(compte)(
        #[trigger] vues(v@)[i],
    ) && vues(v@)[i].id == id) by {
        assert(vues(v@)[i] == v@[i]@);
    }
    false
}

/// A selection that leaves nothing out is the whole.
proof fn lemme_filtre_tout<A>(s: Seq<A>, p: spec_fn(A) -> bool)
    requires
        forall|a: A| #[trigger] p(a),
    ensures
        s.filter(p) == s,
    decreases s.len(),
{
    reveal(Seq::filter);
    if s.len() > 0 {
        lemme_filtre_tout(s.drop_last(), p);
        assert(s =~= s.drop_last().push(s.last()));
    }
}

// ------------------------------------------------------------------------- folders

impl Magasin {
    /// Replaces the tree of an account by the one that the server announces.
    ///
    /// Folders gone from the server leave with their messages; those that stay
    /// keep their local state.
    pub fn poser_dossiers(&mut self, compte: i64, dossiers: &[Dossier]) -> (r: Resultat<()>)
        ensures
            match arborescence_posee(old(self)@, compte, vues_dossiers(dossiers@)) {
                Some(m) => r is Ok && final(self)@ == m,
                None => r is Err && final(self)@ == old(self)@ && r->Err_0.0@ == refus_arborescence(
                    old(self)@,
                    compte,
                    vues_dossiers(dossiers@),
                ),
            },
    {
        let ghost ds = vues_dossiers(dossiers@);
        if dossiers.len() > 0 && indice_compte(&self.comptes, compte).is_none() {
            return Err(erreur("FOREIGN KEY constraint failed"));
        }
        let ghost t0 = self@.dossiers;
        let mut table = copier_dossiers(&self.dossiers);
        for i in 0..dossiers.len()
            invariant
                ds == vues_dossiers(dossiers@),
                self@ == old(self)@,
                t0 == self@.dossiers,
                ds.len() > 0 ==> compte_numero(self@.comptes, compte) is Some,
                dossiers_poses(t0, compte, ds.take(i as int)) == Some(vues(table@)),
        {
            proof {
                assert(ds.take(i + 1).drop_last() =~= ds.take(i as int));
                assert(ds.take(i + 1).last() == dossiers@[i as int]@);
            }
            if !poser_dossier(&mut table, compte, &dossiers[i]) {
                proof {
                    lemme_poses_echec(t0, compte, ds, i + 1);
                }
                return Err(erreur("plus d'identifiant de dossier disponible"));
            }
        }
        assert(ds.take(ds.len() as int) =~= ds);
        let ghost t = vues(table@);
        let ghost p = disparu(compte, ds);
        let mut messages: Vec<Ligne> = Vec::new();
        std::mem::swap(&mut messages, &mut self.messages);
        let restants = retenir(
            messages,
            |l: &Ligne| -> (b: bool)
                ensures b == !orphelin(t, p)(l@)
            {
                !dossier_disparu(&table, compte, dossiers, l.dossier)
            },
            Ghost(|l: LigneVue| !orphelin(t, p)(l)),
        );
        self.messages = restants;
        self.dossiers =
        retenir(
            table,
            |d: &DossierLocal| -> (b: bool)
                ensures b == !p(d@)
            {
                d.compte_id != compte || nomme_chemin(dossiers, d.chemin.as_str())
            },
            Ghost(|d: DossierLocalVue| !p(d)),
        );
        Ok(())
    }

    /// Notes the counters that the server announces for the folders of an account.
    pub fn poser_compteurs(&mut self, compte: i64, statuts: &[Statut]) -> (r: Resultat<()>)
        ensures
            r is Ok,
            final(self)@ == (MagasinVue {
                dossiers: compteurs_poses(old(self)@.dossiers, compte, vues_statuts(statuts@)),
                ..old(self)@
            }),
    {
        let ghost v = vues_statuts(statuts@);
        let ghost t0 = self@.dossiers;
        for k in 0..statuts.len()
            invariant
                v == vues_statuts(statuts@),
                self.comptes@ == old(self).comptes@,
                self.messages@ == old(self).messages@,
                self.operations@ == old(self).operations@,
                vues(self.dossiers@) == compteurs_poses(t0, compte, v.take(k as int)),
        {
            proof {
                assert(v.take(k + 1).drop_last() =~= v.take(k as int));
            }
            let ghost s = vues(self.dossiers@);
            let ghost f = compteurs_notes(compte, v[k as int]);
            let n: usize = self.dossiers.len();
            for i in 0..n
                invariant
                    n == s.len(),
                    k < statuts@.len(),
                    f == compteurs_notes(compte, statuts@[k as int]@),
                    self.comptes@ == old(self).comptes@,
                    self.messages@ == old(self).messages@,
                    self.operations@ == old(self).operations@,
                    self.dossiers@.len() == s.len(),
                    forall|j: int| 0 <= j < i ==> (#[trigger] self.dossiers@[j])@ == f(s[j]),
                    forall|j: int| i <= j < s.len() ==> (#[trigger] self.dossiers@[j])@ == s[j],
            {
                if self.dossiers[i].compte_id == compte && egal(
                    self.dossiers[i].chemin.as_str(),
                    statuts[k].chemin.as_str(),
                ) {
                    self.dossiers[i].messages = statuts[k].messages;
                    self.dossiers[i].non_lus = statuts[k].non_lus;
                }
            }
            assert(vues(self.dossiers@) =~= s.map_values(f));
        }
        assert(v.take(v.len() as int) =~= v);
        Ok(())
    }

    /// Counts a folder anew after its index, once this one is up to date.
    pub fn recompter(&mut self, dossier: i64) -> (r: Resultat<()>)
        ensures
            match recompte(old(self)@, dossier) {
                Some(m) => r is Ok && final(self)@ == m,
                None => r is Err && final(self)@ == old(self)@ && r->Err_0.0@ == trop_de_messages(),
            },
    {
        let ghost t = self@.messages;
        let ghost p = |l: LigneVue| l.dossier == dossier;
        let ghost q = |l: LigneVue| l.dossier == dossier && !l.message.lu;
        let mut n: usize = 0;
        let mut u: usize = 0;
        proof {
            lemme_filtre_vide(t, p);
            lemme_filtre_vide(t, q);
        }
        for i in 0..self.messages.len()
            invariant
                self@ == old(self)@,
                t == vues(self.messages@),
                p == (|l: LigneVue| l.dossier == dossier),
                q == (|l: LigneVue| l.dossier == dossier && !l.message.lu),
                u <= n <= i,
                n == t.take(i as int).filter(p).len(),
                u == t.take(i as int).filter(q).len(),
        {
            proof {
                lemme_filtre_pas(t, i as int, p);
                lemme_filtre_pas(t, i as int, q);
            }
            if self.messages[i].dossier == dossier {
                n += 1;
                if !self.messages[i].message.lu {
                    u += 1;
                }
            }
        }
        assert(t.take(t.len() as int) =~= t);
        if n as u64 > u32::MAX as u64 {
            return Err(erreur("trop de messages dans le dossier"));
        }
        let ghost s = self@.dossiers;
        let ghost f = |d: DossierLocalVue|
            if d.id == dossier {
                DossierLocalVue { messages: n as u32, non_lus: u as u32, ..d }
            } else {
                d
            };
        let k: usize = self.dossiers.len();
        for i in 0..k
            invariant
                k == s.len(),
                f == (|d: DossierLocalVue|
                    if d.id == dossier {
                        DossierLocalVue { messages: n as u32, non_lus: u as u32, ..d }
                    } else {
                        d
                    }),
                self.comptes@ == old(self).comptes@,
                self.messages@ == old(self).messages@,
                self.operations@ == old(self).operations@,
                self.dossiers@.len() == s.len(),
                forall|j: int| 0 <= j < i ==> (#[trigger] self.dossiers@[j])@ == f(s[j]),
                forall|j: int| i <= j < s.len() ==> (#[trigger] self.dossiers@[j])@ == s[j],
        {
            if self.dossiers[i].id == dossier {
                self.dossiers[i].messages = n as u32;
                self.dossiers[i].non_lus = u as u32;
            }
        }
        proof {
            assert(vues(self.dossiers@) =~= s.map_values(f));
            assert(nombre_messages(t, dossier) == n as nat);
            assert(nombre_non_lus(t, dossier) == u as nat);
            let g = |d: DossierLocalVue|
                if d.id == dossier {
                    DossierLocalVue {
                        messages: (n as nat) as u32,
                        non_lus: (u as nat) as u32,
                        ..d
                    }
                } else {
                    d
                };
            assert(s.map_values(f) =~= s.map_values(g));
        }
        Ok(())
    }

    /// Internal identifier of a folder.
    pub fn dossier_id(&self, compte: i64, chemin: &str) -> (r: Resultat<i64>)
        ensures
            match dossier_en(self@.dossiers, compte, chemin@) {
                Some(d) => r is Ok && r->Ok_0 == d.id,
                None => r is Err && r->Err_0.0@ == "Query returned no rows"@,
            },
    {
        match indice_chemin(&self.dossiers, compte, chemin) {
            Some(k) => Ok(self.dossiers[k].id),
            None => Err(erreur("Query returned no rows")),
        }
    }

    /// A folder by its internal identifier.
    pub fn dossier(&self, id: i64) -> (r: Resultat<Option<DossierLocal>>)
        ensures
            r is Ok,
            match r->Ok_0 {
                Some(d) => dossier_numero(self@.dossiers, id) == Some(d@),
                None => dossier_numero(self@.dossiers, id) is None,
            },
    {
        match indice_dossier(&self.dossiers, id) {
            Some(k) => Ok(Some(self.dossiers[k].clone())),
            None => Ok(None),
        }
    }

    /// Notes the synchronisation state of a folder after `SELECT` or `EXAMINE`.
    ///
    /// Gives true if the `UIDVALIDITY` has changed: the local content of the folder
    /// is then void, and leaves. A `HIGHESTMODSEQ` beyond the signed 64-bit numbers
    /// of storage is refused once the void content is gone.
    pub fn poser_etat(&mut self, dossier: i64, etat: &EtatDossier) -> (r: Resultat<bool>)
        ensures
            if etat.highest_mod_seq <= i64::MAX {
                &&& r is Ok
                &&& r->Ok_0 == rupture(old(self)@, dossier, *etat)
                &&& final(self)@ == etat_pose(old(self)@, dossier, *etat)
            } else {
                &&& r is Err
                &&& r->Err_0.0@ == hors_limites()
                &&& final(self)@ == apres_rupture(old(self)@, dossier, *etat)
            },
    {
        let romp = match indice_dossier(&self.dossiers, dossier) {
            Some(k) => self.dossiers[k].uid_validity != 0 && self.dossiers[k].uid_validity
                != etat.uid_validity,
            None => false,
        };
        if romp {
            let mut messages: Vec<Ligne> = Vec::new();
            std::mem::swap(&mut messages, &mut self.messages);
            self.messages =
            retenir(
                messages,
                |l: &Ligne| -> (b: bool)
                    ensures b == !(l@.dossier == dossier)
                {
                    l.dossier != dossier
                },
                Ghost(|l: LigneVue| !(|l: LigneVue| l.dossier == dossier)(l)),
            );
        }
        let ghost m = self@;
        assert(m == apres_rupture(old(self)@, dossier, *etat));
        if etat.highest_mod_seq > i64::MAX as u64 {
            return Err(erreur("out of range integral type conversion attempted"));
        }
        let ghost s = self@.dossiers;
        let ghost f = |d: DossierLocalVue|
            if d.id == dossier {
                DossierLocalVue {
                    uid_validity: etat.uid_validity,
                    uid_next: etat.uid_next,
                    highest_mod_seq: etat.highest_mod_seq,
                    ..d
                }
            } else {
                d
            };
        let n: usize = self.dossiers.len();
        for i in 0..n
            invariant
                n == s.len(),
                f == (|d: DossierLocalVue|
                    if d.id == dossier {
                        DossierLocalVue {
                            uid_validity: etat.uid_validity,
                            uid_next: etat.uid_next,
                            highest_mod_seq: etat.highest_mod_seq,
                            ..d
                        }
                    } else {
                        d
                    }),
                vues(self.comptes@) == m.comptes,
                vues(self.messages@) == m.messages,
                vues(self.operations@) == m.operations,
                self.dossiers@.len() == s.len(),
                forall|j: int| 0 <= j < i ==> (#[trigger] self.dossiers@[j])@ == f(s[j]),
                forall|j: int| i <= j < s.len() ==> (#[trigger] self.dossiers@[j])@ == s[j],
        {
            if self.dossiers[i].id == dossier {
                self.dossiers[i].uid_validity = etat.uid_validity;
                self.dossiers[i].uid_next = etat.uid_next;
                self.dossiers[i].highest_mod_seq = etat.highest_mod_seq;
            }
        }
        assert(vues(self.dossiers@) =~= s.map_values(f));
        Ok(romp)
    }

    /// Folders of an account, in the order in which they are shown, hidden ones
    /// among them: `INBOX` first, then the folders with a role, then the others by
    /// path.
    pub fn dossiers(&self, compte: i64) -> (r: Resultat<Vec<DossierLocal>>)
        ensures
            r is Ok,
            vues(r->Ok_0@) == dossiers_affiches(self@.dossiers, compte),
    {
        let v = choisir(
            &self.dossiers,
            |d: &DossierLocal| -> (b: bool)
                ensures b == (d@.compte_id == compte)
            {
                d.compte_id == compte
            },
            copier_dossier,
            Ghost(|d: DossierLocalVue| d.compte_id == compte),
        );
        Ok(trier(v, dossier_devant, Ghost(ordre_affichage())))
    }

    /// Favourite folders, all accounts together, in their order.
    pub fn favoris(&self) -> (r: Resultat<Vec<DossierLocal>>)
        ensures
            r is Ok,
            vues(r->Ok_0@) == favoris_affiches(self@.dossiers),
    {
        let v = choisir(
            &self.dossiers,
            |d: &DossierLocal| -> (b: bool)
                ensures b == (d@.favori is Some)
            {
                d.favori.is_some()
            },
            copier_dossier,
            Ghost(|d: DossierLocalVue| d.favori is Some),
        );
        Ok(trier(v, favori_devant, Ghost(ordre_favoris())))
    }

    /// Hides a folder in the tree, or shows it again.
    pub fn masquer(&mut self, dossier: i64, masque: bool) -> (r: Resultat<()>)
        ensures
            r is Ok,
            final(self)@ == (MagasinVue {
                dossiers: old(self)@.dossiers.map_values(masquage(dossier, masque)),
                ..old(self)@
            }),
    {
        let ghost s = self@.dossiers;
        let ghost f = masquage(dossier, masque);
        let n: usize = self.dossiers.len();
        for i in 0..n
            invariant
                n == s.len(),
                f == masquage(dossier, masque),
                self.comptes@ == old(self).comptes@,
                self.messages@ == old(self).messages@,
                self.operations@ == old(self).operations@,
                self.dossiers@.len() == s.len(),
                forall|j: int| 0 <= j < i ==> (#[trigger] self.dossiers@[j])@ == f(s[j]),
                forall|j: int| i <= j < s.len() ==> (#[trigger] self.dossiers@[j])@ == s[j],
        {
            if self.dossiers[i].id == dossier {
                self.dossiers[i].masque = masque;
            }
        }
        assert(vues(self.dossiers@) =~= s.map_values(f));
        Ok(())
    }

    /// Pins a folder after the other favourites, or unpins it.
    pub fn epingler(&mut self, dossier: i64, favori: bool) -> (r: Resultat<()>)
        ensures
            match epingle(old(self)@.dossiers, dossier, favori) {
                Some(t) => r is Ok && final(self)@ == (MagasinVue { dossiers: t, ..old(self)@ }),
                None => r is Err && final(self)@ == old(self)@ && r->Err_0.0@
                    == "plus de rang de favori disponible"@,
            },
    {
        if !favori {
            donner_rang(&mut self.dossiers, dossier, None);
            return Ok(());
        }
        let ghost s = self@.dossiers;
        if !a_epingler(&self.dossiers, dossier) {
            return Ok(());
        }
        match prochain_rang(&self.dossiers) {
            None => Err(erreur("plus de rang de favori disponible")),
            Some(rang) => {
                let ghost f = rang_donne_si_absent(dossier, rang);
                let n: usize = self.dossiers.len();
                for i in 0..n
                    invariant
                        n == s.len(),
                        f == rang_donne_si_absent(dossier, rang),
                        self.comptes@ == old(self).comptes@,
                        self.messages@ == old(self).messages@,
                        self.operations@ == old(self).operations@,
                        self.dossiers@.len() == s.len(),
                        forall|j: int| 0 <= j < i ==> (#[trigger] self.dossiers@[j])@ == f(s[j]),
                        forall|j: int| i <= j < s.len() ==> (#[trigger] self.dossiers@[j])@ == s[j],
                {
                    if self.dossiers[i].id == dossier && self.dossiers[i].favori.is_none() {
                        self.dossiers[i].favori = Some(rang);
                    }
                }
                assert(vues(self.dossiers@) =~= s.map_values(f));
                Ok(())
            },
        }
    }

    /// Places a folder among favourites, right before another one, or after all of
    /// them if `avant` is absent. A folder that is one already changes place; the
    /// ranks of the others shift to make room for it.
    pub fn placer_favori(&mut self, dossier: i64, avant: Option<i64>) -> (r: Resultat<()>)
        ensures
            match favori_place(old(self)@.dossiers, dossier, avant) {
                Some(t) => r is Ok && final(self)@ == (MagasinVue { dossiers: t, ..old(self)@ }),
                None => r is Err && final(self)@ == old(self)@ && r->Err_0.0@
                    == "plus de rang de favori disponible"@,
            },
    {
        let mut table = copier_dossiers(&self.dossiers);
        donner_rang(&mut table, dossier, None);
        let ghost u = vues(table@);
        let vise: Option<i64> = match avant {
            Some(autre) => if autre == dossier {
                None
            } else {
                match indice_dossier(&table, autre) {
                    Some(k) => table[k].favori,
                    None => None,
                }
            },
            None => None,
        };
        assert(vise == rang_vise(u, dossier, avant));
        match vise {
            Some(rang) => {
                if prochain_rang(&table).is_none() {
                    return Err(erreur("plus de rang de favori disponible"));
                }
                proof {
                    lemme_plus_grand(rangs(u));
                }
                let ghost f = rang_recule(rang);
                let n: usize = table.len();
                for i in 0..n
                    invariant
                        n == u.len(),
                        f == rang_recule(rang),
                        rang_final(u) <= i64::MAX,
                        table@.len() == u.len(),
                        forall|j: int| 0 <= j < i ==> (#[trigger] table@[j])@ == f(u[j]),
                        forall|j: int| i <= j < u.len() ==> (#[trigger] table@[j])@ == u[j],
                {
                    if let Some(x) = table[i].favori {
                        if x >= rang {
                            proof {
                                lemme_rang_borne(u, i as int);
                            }
                            table[i].favori = Some(x + 1);
                        }
                    }
                }
                assert(vues(table@) =~= u.map_values(f));
                donner_rang(&mut table, dossier, Some(rang));
            },
            None => {
                if indice_dossier(&table, dossier).is_some() {
                    match prochain_rang(&table) {
                        None => {
                            return Err(erreur("plus de rang de favori disponible"));
                        },
                        Some(rang) => {
                            donner_rang(&mut table, dossier, Some(rang));
                        },
                    }
                }
            },
        }
        self.dossiers = table;
        Ok(())
    }
}

/// The failure of one folder is the failure of the whole.
proof fn lemme_poses_echec(t: Seq<DossierLocalVue>, compte: i64, ds: Seq<DossierVue>, n: int)
    requires
        0 <= n <= ds.len(),
        dossiers_poses(t, compte, ds.take(n)) is None,
    ensures
        dossiers_poses(t, compte, ds) is None,
    decreases ds.len() - n,
{
    if n == ds.len() {
        assert(ds.take(n) =~= ds);
    } else {
        assert(ds.take(n + 1).drop_last() =~= ds.take(n));
        lemme_poses_echec(t, compte, ds, n + 1);
    }
}

/// Gives a folder a rank among favourites, or none.
fn donner_rang(v: &mut Vec<DossierLocal>, dossier: i64, rang: Option<i64>)
    ensures
        vues(final(v)@) == vues(old(v)@).map_values(rang_donne(dossier, rang)),
{
    let ghost s = vues(v@);
    let ghost f = rang_donne(dossier, rang);
    let n: usize = v.len();
    for i in 0..n
        invariant
            n == s.len(),
            f == rang_donne(dossier, rang),
            v@.len() == s.len(),
            forall|j: int| 0 <= j < i ==> (#[trigger] v@[j])@ == f(s[j]),
            forall|j: int| i <= j < s.len() ==> (#[trigger] v@[j])@ == s[j],
    {
        if v[i].id == dossier {
            v[i].favori = rang;
        }
    }
    assert(vues(v@) =~= s.map_values(f));
}

/// Whether a folder is there and is no favourite yet.
fn a_epingler(v: &Vec<DossierLocal>, dossier: i64) -> (r: bool)
    ensures
        r == (premier(vues(v@), |d: DossierLocalVue| d.id == dossier && d.favori is None) is Some),
{
    let ghost s = vues(v@);
    let ghost p = |d: DossierLocalVue| d.id == dossier && d.favori is None;
    let mut r = false;
    for i in 0..v.len()
        invariant
            s == vues(v@),
            p == (|d: DossierLocalVue| d.id == dossier && d.favori is None),
            r == (premier(s.take(i as int), p) is Some),
    {
        proof {
            lemme_premier_pas(s, i as int, p);
        }
        if v[i].id == dossier && v[i].favori.is_none() {
            r = true;
        }
    }
    assert(s.take(s.len() as int) =~= s);
    r
}

/// Whether a folder is one of an account that is no longer announced.
fn dossier_disparu(v: &Vec<DossierLocal>, compte: i64, dossiers: &[Dossier], id: i64) -> (r: bool)
    ensures
        r == compris(vues(v@), disparu(compte, vues_dossiers(dossiers@)), id),
{
    let ghost p = disparu(compte, vues_dossiers(dossiers@));
    for i in 0..v.len()
        invariant
            p == disparu(compte, vues_dossiers(dossiers@)),
            forall|j: int| 0 <= j < i ==> !(p((#[trigger] v@[j])@) && v@[j].id == id),
    {
        if v[i].id == id && v[i].compte_id == compte && !nomme_chemin(
            dossiers,
            v[i].chemin.as_str(),
        ) {
            assert(p(vues(v@)[i as int]));
            return true;
        }
    }
    assert forall|i: int| 0 <= i < vues(v@).len() implies !(p(#[trigger] vues(v@)[i]) && vues(
        v@,
    )[i].id == id) by {
        assert(vues(v@)[i] == v@[i]@);
    }
    false
}

// ------------------------------------------------------------------------ messages

/// What the flags that the server gives for messages hold.
pub open spec fn vues_drapeaux(v: Seq<(u32, Vec<String>)>) -> Seq<(u32, Seq<Seq<char>>)> {
    v.map_values(|p: (u32, Vec<String>)| (p.0, textes(p.1@)))
}

impl Magasin {
    /// Puts the messages of a folder in the index. A message already known only
    /// has its flags changed.
    pub fn poser_messages(&mut self, dossier: i64, messages: &[MessageLocal]) -> (r: Resultat<()>)
        ensures
            if messages@.len() > 0 && dossier_numero(old(self)@.dossiers, dossier) is None {
                r is Err && final(self)@ == old(self)@ && r->Err_0.0@ == clef_etrangere()
            } else {
                r is Ok && final(self)@ == (MagasinVue {
                    messages: messages_poses(old(self)@.messages, dossier, vues(messages@)),
                    ..old(self)@
                })
            },
    {
        if messages.len() > 0 && indice_dossier(&self.dossiers, dossier).is_none() {
            return Err(erreur("FOREIGN KEY constraint failed"));
        }
        let ghost v = vues(messages@);
        let ghost t0 = self@.messages;
        for i in 0..messages.len()
            invariant
                v == vues(messages@),
                self.comptes@ == old(self).comptes@,
                self.dossiers@ == old(self).dossiers@,
                self.operations@ == old(self).operations@,
                vues(self.messages@) == messages_poses(t0, dossier, v.take(i as int)),
        {
            proof {
                assert(v.take(i + 1).drop_last() =~= v.take(i as int));
            }
            poser_message(&mut self.messages, dossier, &messages[i]);
        }
        assert(v.take(v.len() as int) =~= v);
        Ok(())
    }

    /// Applies flags that the server gives to known messages.
    pub fn poser_drapeaux(&mut self, dossier: i64, drapeaux: &[(u32, Vec<String>)]) -> (r: Resultat<
        (),
    >)
        ensures
            r is Ok,
            final(self)@ == (MagasinVue {
                messages: drapeaux_poses(
                    old(self)@.messages,
                    dossier,
                    vues_drapeaux(drapeaux@),
                ),
                ..old(self)@
            }),
    {
        let ghost v = vues_drapeaux(drapeaux@);
        let ghost t0 = self@.messages;
        for i in 0..drapeaux.len()
            invariant
                v == vues_drapeaux(drapeaux@),
                self.comptes@ == old(self).comptes@,
                self.dossiers@ == old(self).dossiers@,
                self.operations@ == old(self).operations@,
                vues(self.messages@) == drapeaux_poses(t0, dossier, v.take(i as int)),
        {
            proof {
                assert(v.take(i + 1).drop_last() =~= v.take(i as int));
                assert(v.take(i + 1).last() == (drapeaux@[i as int].0, textes(
                    drapeaux@[i as int].1@,
                )));
            }
            let lu = porte_drapeau(&drapeaux[i].1, "\\Seen");
            let repondu = porte_drapeau(&drapeaux[i].1, "\\Answered");
            relire_ligne(&mut self.messages, dossier, drapeaux[i].0, lu, repondu);
        }
        assert(v.take(v.len() as int) =~= v);
        Ok(())
    }

    /// Marks messages as read or unread locally, then counts their folder anew.
    pub fn marquer_lu(&mut self, dossier: i64, uids: &[u32], lu: bool) -> (r: Resultat<()>)
        ensures
            ({
                let m = MagasinVue {
                    messages: old(self)@.messages.map_values(marquage(dossier, uids@, lu)),
                    ..old(self)@
                };
                match recompte(m, dossier) {
                    Some(n) => r is Ok && final(self)@ == n,
                    None => r is Err && final(self)@ == m && r->Err_0.0@ == trop_de_messages(),
                }
            }),
    {
        let ghost s = self@.messages;
        let ghost f = marquage(dossier, uids@, lu);
        let n: usize = self.messages.len();
        for i in 0..n
            invariant
                n == s.len(),
                f == marquage(dossier, uids@, lu),
                self.comptes@ == old(self).comptes@,
                self.dossiers@ == old(self).dossiers@,
                self.operations@ == old(self).operations@,
                self.messages@.len() == s.len(),
                forall|j: int| 0 <= j < i ==> (#[trigger] self.messages@[j])@ == f(s[j]),
                forall|j: int| i <= j < s.len() ==> (#[trigger] self.messages@[j])@ == s[j],
        {
            if self.messages[i].dossier == dossier && contient_uid(
                uids,
                self.messages[i].message.uid,
            ) {
                self.messages[i].message.lu = lu;
            }
        }
        assert(vues(self.messages@) =~= s.map_values(f));
        self.recompter(dossier)
    }

    /// Removes intervals of UIDs from the index (`VANISHED`).
    pub fn retirer_intervalles(&mut self, dossier: i64, intervalles: &[(u32, u32)]) -> (r: Resultat<
        (),
    >)
        ensures
            r is Ok,
            final(self)@ == (MagasinVue {
                messages: sans(old(self)@.messages, dans_intervalles(dossier, intervalles@)),
                ..old(self)@
            }),
    {
        let ghost p = dans_intervalles(dossier, intervalles@);
        let mut messages: Vec<Ligne> = Vec::new();
        std::mem::swap(&mut messages, &mut self.messages);
        self.messages =
        retenir(
            messages,
            |l: &Ligne| -> (b: bool)
                ensures b == !p(l@)
            {
                l.dossier != dossier || !est_couvert(intervalles, l.message.uid)
            },
            Ghost(|l: LigneVue| !p(l)),
        );
        Ok(())
    }

    /// Removes designated messages from the index.
    pub fn retirer(&mut self, dossier: i64, uids: &[u32]) -> (r: Resultat<()>)
        ensures
            r is Ok,
            final(self)@ == (MagasinVue {
                messages: sans(old(self)@.messages, dans_uids(dossier, uids@)),
                ..old(self)@
            }),
    {
        let ghost p = dans_uids(dossier, uids@);
        let mut messages: Vec<Ligne> = Vec::new();
        std::mem::swap(&mut messages, &mut self.messages);
        self.messages =
        retenir(
            messages,
            |l: &Ligne| -> (b: bool)
                ensures b == !p(l@)
            {
                l.dossier != dossier || !contient_uid(uids, l.message.uid)
            },
            Ghost(|l: LigneVue| !p(l)),
        );
        Ok(())
    }

    /// UIDs known of a folder.
    pub fn uids(&self, dossier: i64) -> (r: Resultat<Vec<u32>>)
        ensures
            r is Ok,
            r->Ok_0@ == uids_connus(self@.messages, dossier),
    {
        let ghost t = self@.messages;
        let ghost p = |l: LigneVue| l.dossier == dossier;
        let mut r: Vec<u32> = Vec::new();
        proof {
            lemme_filtre_vide(t, p);
            assert(uids_connus(t.take(0), dossier) =~= Seq::empty());
        }
        for i in 0..self.messages.len()
            invariant
                t == vues(self.messages@),
                p == (|l: LigneVue| l.dossier == dossier),
                r@ == uids_connus(t.take(i as int), dossier),
        {
            proof {
                lemme_filtre_pas(t, i as int, p);
            }
            if self.messages[i].dossier == dossier {
                let ghost avant = r@;
                r.push(self.messages[i].message.uid);
                assert(uids_connus(t.take(i + 1), dossier) =~= avant.push(t[i as int].message.uid));
            }
        }
        assert(t.take(t.len() as int) =~= t);
        Ok(r)
    }

    /// Messages of a folder, from the latest to the earliest: by date of reception,
    /// which a move between accounts keeps, and not by UID, which it renews.
    pub fn messages(&self, dossier: i64) -> (r: Resultat<Vec<MessageLocal>>)
        ensures
            r is Ok,
            vues(r->Ok_0@) == messages_affiches(self@.messages, dossier),
    {
        let ghost t = self@.messages;
        let ghost p = |l: LigneVue| l.dossier == dossier;
        let mut v: Vec<MessageLocal> = Vec::new();
        proof {
            lemme_filtre_vide(t, p);
            assert(messages_de(t.take(0), dossier) =~= Seq::empty());
            assert(vues(v@) =~= Seq::empty());
        }
        for i in 0..self.messages.len()
            invariant
                t == vues(self.messages@),
                p == (|l: LigneVue| l.dossier == dossier),
                vues(v@) == messages_de(t.take(i as int), dossier),
        {
            proof {
                lemme_filtre_pas(t, i as int, p);
            }
            if self.messages[i].dossier == dossier {
                let ghost avant = vues(v@);
                v.push(self.messages[i].message.clone());
                assert(vues(v@) =~= avant.push(t[i as int].message));
                assert(messages_de(t.take(i + 1), dossier) =~= avant.push(t[i as int].message));
            }
        }
        assert(t.take(t.len() as int) =~= t);
        Ok(trier(v, message_devant, Ghost(ordre_messages())))
    }

    /// A message of the index.
    pub fn message(&self, dossier: i64, uid: u32) -> (r: Resultat<Option<MessageLocal>>)
        ensures
            r is Ok,
            match r->Ok_0 {
                Some(m) => message_en(self@.messages, dossier, uid) == Some(
                    (LigneVue { dossier, message: m@ }),
                ),
                None => message_en(self@.messages, dossier, uid) is None,
            },
    {
        match indice_message(&self.messages, dossier, uid) {
            Some(k) => {
                proof {
                    lemme_premier(
                        self@.messages,
                        |l: LigneVue| l.dossier == dossier && l.message.uid == uid,
                    );
                }
                Ok(Some(self.messages[k].message.clone()))
            },
            None => Ok(None),
        }
    }
}

// --------------------------------------------------------------------------- moves

impl Magasin {
    /// Registers a move between accounts, once the message is read and copied.
    pub fn inscrire_operation(&mut self, op: &Operation) -> (r: Resultat<i64>)
        ensures
            ({
                let id = suivant(ids_operations(old(self)@.operations));
                let connus = compte_numero(old(self)@.comptes, op.compte_source) is Some
                    && compte_numero(old(self)@.comptes, op.compte_cible) is Some;
                &&& r is Ok <==> connus && id <= i64::MAX
                &&& r is Ok ==> r->Ok_0 == id && final(self)@ == (MagasinVue {
                    operations: old(self)@.operations.push(
                        OperationVue { id: id as i64, erreur: Seq::empty(), ..op@ },
                    ),
                    ..old(self)@
                })
                &&& r is Err ==> final(self)@ == old(self)@ && r->Err_0.0@ == (if connus {
                    "plus d'identifiant d'opération disponible"@
                } else {
                    clef_etrangere()
                })
            }),
    {
        if indice_compte(&self.comptes, op.compte_source).is_none() || indice_compte(
            &self.comptes,
            op.compte_cible,
        ).is_none() {
            return Err(erreur("FOREIGN KEY constraint failed"));
        }
        match prochaine_operation(&self.operations) {
            None => Err(erreur("plus d'identifiant d'opération disponible")),
            Some(id) => {
                let mut o = op.clone();
                o.id = id;
                o.erreur = String::new();
                let ghost s = self@.operations;
                let ghost n = o@;
                self.operations.push(o);
                assert(vues(self.operations@) =~= s.push(n));
                Ok(id)
            },
        }
    }

    /// Notes that a move has passed a step.
    pub fn avancer_operation(&mut self, id: i64, etape: Etape) -> (r: Resultat<()>)
        ensures
            r is Ok,
            final(self)@ == (MagasinVue {
                operations: old(self)@.operations.map_values(operation_avancee(id, etape)),
                ..old(self)@
            }),
    {
        let ghost s = self@.operations;
        let ghost f = operation_avancee(id, etape);
        let n: usize = self.operations.len();
        for i in 0..n
            invariant
                n == s.len(),
                f == operation_avancee(id, etape),
                self.comptes@ == old(self).comptes@,
                self.dossiers@ == old(self).dossiers@,
                self.messages@ == old(self).messages@,
                self.operations@.len() == s.len(),
                forall|j: int| 0 <= j < i ==> (#[trigger] self.operations@[j])@ == f(s[j]),
                forall|j: int| i <= j < s.len() ==> (#[trigger] self.operations@[j])@ == s[j],
        {
            if self.operations[i].id == id {
                self.operations[i].etape = etape;
                self.operations[i].erreur = String::new();
            }
        }
        assert(vues(self.operations@) =~= s.map_values(f));
        Ok(())
    }

    /// Notes the failure of a move.
    pub fn noter_echec_operation(&mut self, id: i64, texte: &str) -> (r: Resultat<()>)
        ensures
            r is Ok,
            final(self)@ == (MagasinVue {
                operations: old(self)@.operations.map_values(operation_en_echec(id, texte@)),
                ..old(self)@
            }),
    {
        let ghost s = self@.operations;
        let ghost f = operation_en_echec(id, texte@);
        let n: usize = self.operations.len();
        for i in 0..n
            invariant
                n == s.len(),
                f == operation_en_echec(id, texte@),
                self.comptes@ == old(self).comptes@,
                self.dossiers@ == old(self).dossiers@,
                self.messages@ == old(self).messages@,
                self.operations@.len() == s.len(),
                forall|j: int| 0 <= j < i ==> (#[trigger] self.operations@[j])@ == f(s[j]),
                forall|j: int| i <= j < s.len() ==> (#[trigger] self.operations@[j])@ == s[j],
        {
            if self.operations[i].id == id {
                self.operations[i].erreur = copier(texte);
            }
        }
        assert(vues(self.operations@) =~= s.map_values(f));
        Ok(())
    }

    /// Settles a finished move.
    pub fn clore_operation(&mut self, id: i64) -> (r: Resultat<()>)
        ensures
            r is Ok,
            final(self)@ == (MagasinVue {
                operations: sans(old(self)@.operations, |o: OperationVue| o.id == id),
                ..old(self)@
            }),
    {
        let ghost p = |o: OperationVue| o.id == id;
        let mut operations: Vec<Operation> = Vec::new();
        std::mem::swap(&mut operations, &mut self.operations);
        self.operations =
        retenir(
            operations,
            |o: &Operation| -> (b: bool)
                ensures b == !p(o@)
            {
                o.id != id
            },
            Ghost(|o: OperationVue| !p(o)),
        );
        Ok(())
    }

    /// Moves in progress whose source is an account.
    pub fn operations(&self, compte_source: i64) -> (r: Resultat<Vec<Operation>>)
        ensures
            r is Ok,
            vues(r->Ok_0@) == operations_de(self@.operations, compte_source),
    {
        let v = choisir(
            &self.operations,
            |o: &Operation| -> (b: bool)
                ensures b == (o@.compte_source == compte_source)
            {
                o.compte_source == compte_source
            },
            copier_operation,
            Ghost(|o: OperationVue| o.compte_source == compte_source),
        );
        Ok(trier(v, operation_devant, Ghost(ordre_operations())))
    }

    /// Number of moves in progress, all accounts together.
    pub fn nombre_operations(&self) -> (r: Resultat<u32>)
        ensures
            r is Ok <==> self@.operations.len() <= u32::MAX,
            r is Ok ==> r->Ok_0 == self@.operations.len(),
            r is Err ==> r->Err_0.0@ == "trop d'opérations en cours"@,
    {
        let n: usize = self.operations.len();
        if n as u64 > u32::MAX as u64 {
            Err(erreur("trop d'opérations en cours"))
        } else {
            Ok(n as u32)
        }
    }
}

} // verus!
