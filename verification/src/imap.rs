//! IMAP client: the commands that it sends, and what it makes of the responses.
//!
//! The client performs no input or output. For each operation it gives the text of
//! the command to send; the caller sends it, hands over the bytes that arrive, and
//! gives the client the response once it is complete. An operation of several
//! commands goes from step to step in the same way.

use vstd::prelude::*;
use vstd::slice::slice_to_vec;
use vstd::utf8::encode_utf8;

use crate::ensembles::{compact, ecriture, vanished_de};
use crate::flux::{
    accoler, avec_octets, bout_de_ligne, invitation, lecture, lecture_neuve, texte_des_octets,
    vue_reponse, ErreurVue, Lecture, LectureVue, ReponseVue,
};
use crate::magasin::vues_drapeaux;
use crate::nombre::{decimal, ecrire_u64, lemme_decimal, valeur};
use crate::protocole::{
    analyser_appenduid, analyser_fetch, analyser_listes, analyser_search, analyser_select,
    analyser_status, analyser_vanished, appenduid_de, cite, dossier_de_ligne, ensemble_uid,
    entetes_de, etat_de_lignes, etat_vide, fermeture, jeton_de, lecteur_list, ouvrable, statuts_de,
    uids_de, vues_dossiers, vues_entetes, vues_statuts, Dossier, DossierVue, Entete, EnteteVue,
    EtatDossier, Statut, StatutVue,
};
use crate::tables::premier;
use crate::texte::{
    ajouter, ajouter_car, apres_prefixe, caracteres, chaine, chaines, contient_texte, copier,
    copier_textes, debute, decouper_lignes, decouper_mots, egal_sans_casse, joindre, jointure,
    lignes, minuscules, mots, oter_prefixe, rogner, sans_blancs, sans_blancs_debut, textes,
    vues_car,
};

pub use crate::flux::{taille_litteral, trouver, Erreur, Reponse, Resultat};

verus! {

// --------------------------------------------------------------------------- types

/// What opening a folder gives: its state, and, when the visit resumes an earlier
/// one, what has changed since.
#[derive(Debug)]
pub struct Selection {
    pub etat: EtatDossier,
    /// Intervals of UIDs removed since the last visit (`VANISHED`).
    pub disparus: Vec<(u32, u32)>,
    /// Flags changed since the last visit: UID and flags.
    pub drapeaux: Vec<(u32, Vec<String>)>,
    /// True if the server resumed the last visit: `disparus` and `drapeaux` are then
    /// complete.
    pub reprise: bool,
}

/// What opening a folder gives.
pub struct SelectionVue {
    pub etat: EtatDossier,
    pub disparus: Seq<(u32, u32)>,
    pub drapeaux: Seq<(u32, Seq<Seq<char>>)>,
    pub reprise: bool,
}

impl View for Selection {
    type V = SelectionVue;

    open spec fn view(&self) -> SelectionVue {
        SelectionVue {
            etat: self.etat,
            disparus: self.disparus@,
            drapeaux: vues_drapeaux(self.drapeaux@),
            reprise: self.reprise,
        }
    }
}

impl Default for Selection {
    fn default() -> (r: Self)
        ensures
            r@ == (SelectionVue {
                etat: etat_vide(),
                disparus: Seq::empty(),
                drapeaux: Seq::empty(),
                reprise: false,
            }),
    {
        let r = Selection {
            etat: EtatDossier::default(),
            disparus: Vec::new(),
            drapeaux: Vec::new(),
            reprise: false,
        };
        assert(r@.drapeaux =~= Seq::empty());
        r
    }
}

/// A whole message, with what it takes to put it elsewhere just as it is.
#[derive(Debug)]
pub struct MessageComplet {
    pub drapeaux: Vec<String>,
    pub date_interne: String,
    pub octets: Vec<u8>,
}

/// What a whole message holds.
pub struct MessageCompletVue {
    pub drapeaux: Seq<Seq<char>>,
    pub date_interne: Seq<char>,
    pub octets: Seq<u8>,
}

impl View for MessageComplet {
    type V = MessageCompletVue;

    open spec fn view(&self) -> MessageCompletVue {
        MessageCompletVue {
            drapeaux: textes(self.drapeaux@),
            date_interne: self.date_interne@,
            octets: self.octets@,
        }
    }
}

impl Clone for MessageComplet {
    fn clone(&self) -> (r: Self)
        ensures
            r@ == self@,
    {
        MessageComplet {
            drapeaux: copier_textes(&self.drapeaux),
            date_interne: self.date_interne.clone(),
            octets: slice_to_vec(self.octets.as_slice()),
        }
    }
}

/// IMAP session on a server.
pub struct Client {
    lecture: Lecture,
    compteur: u32,
    capacites: Vec<String>,
    /// QRESYNC was enabled: the server then gives `VANISHED`.
    qresync: bool,
    /// Selected folder, if there is one.
    selection: Option<String>,
}

/// What a session holds.
pub struct ClientVue {
    pub lecture: LectureVue,
    pub compteur: u32,
    pub capacites: Seq<Seq<char>>,
    pub qresync: bool,
    pub selection: Option<Seq<char>>,
}

impl View for Client {
    type V = ClientVue;

    closed spec fn view(&self) -> ClientVue {
        ClientVue {
            lecture: self.lecture@,
            compteur: self.compteur,
            capacites: textes(self.capacites@),
            qresync: self.qresync,
            selection: match self.selection {
                Some(s) => Some(s@),
                None => None,
            },
        }
    }
}

// ------------------------------------------------------------------------- quoting

/// A text whose reserved characters are protected by a backslash.
pub open spec fn protege(s: Seq<char>) -> Seq<char>
    decreases s.len(),
{
    if s.len() == 0 {
        Seq::empty()
    } else if s.last() == '\\' || s.last() == '"' {
        protege(s.drop_last()).push('\\').push(s.last())
    } else {
        protege(s.drop_last()).push(s.last())
    }
}

/// A text in IMAP quotes.
pub open spec fn citee(s: Seq<char>) -> Seq<char> {
    seq!['"'] + protege(s) + seq!['"']
}

/// Adds a text in IMAP quotes.
fn ajouter_cite(v: &mut Vec<char>, valeur: &str)
    ensures
        final(v)@ == old(v)@ + citee(valeur@),
{
    let ghost v0 = v@;
    let c = caracteres(valeur);
    v.push('"');
    for i in 0..c.len()
        invariant
            v@ =~= v0 + seq!['"'] + protege(c@.take(i as int)),
    {
        proof {
            assert(c@.take(i + 1).drop_last() =~= c@.take(i as int));
        }
        if c[i] == '\\' || c[i] == '"' {
            v.push('\\');
        }
        v.push(c[i]);
    }
    assert(c@.take(c@.len() as int) =~= c@);
    v.push('"');
    assert(v@ =~= v0 + citee(valeur@));
}

/// Puts a text in IMAP quotes, protecting the reserved characters.
pub fn citer(valeur: &str) -> (r: String)
    ensures
        r@ == citee(valeur@),
{
    let mut v: Vec<char> = Vec::new();
    ajouter_cite(&mut v, valeur);
    assert(v@ =~= citee(valeur@));
    chaine(v.as_slice())
}

/// The protection of a text that a character starts.
pub proof fn lemme_protege_premier(s: Seq<char>)
    requires
        s.len() > 0,
    ensures
        protege(s) == (if s[0] == '\\' || s[0] == '"' {
            seq!['\\', s[0]]
        } else {
            seq![s[0]]
        }) + protege(s.drop_first()),
    decreases s.len(),
{
    if s.len() == 1 {
        assert(s.drop_last() =~= Seq::empty());
        assert(s.drop_first() =~= Seq::empty());
        assert(protege(s) =~= (if s[0] == '\\' || s[0] == '"' {
            seq!['\\', s[0]]
        } else {
            seq![s[0]]
        }) + protege(s.drop_first()));
    } else {
        lemme_protege_premier(s.drop_last());
        assert(s.drop_last().drop_first() =~= s.drop_first().drop_last());
        assert(protege(s) =~= (if s[0] == '\\' || s[0] == '"' {
            seq!['\\', s[0]]
        } else {
            seq![s[0]]
        }) + protege(s.drop_first()));
    }
}

/// Reading on in a quoted text.
proof fn lemme_cite_relu(t: Seq<char>, i: int, valeur: Seq<char>, s: Seq<char>, suite: Seq<char>)
    requires
        0 <= i <= t.len(),
        t.subrange(i, t.len() as int) == protege(s) + seq!['"'] + suite,
    ensures
        cite(t, i, false, valeur) == Some((valeur + s, suite)),
    decreases s.len(),
{
    let r = t.subrange(i, t.len() as int);
    assert(r.len() == protege(s).len() + 1 + suite.len());
    assert(forall|k: int| 0 <= k < r.len() ==> #[trigger] r[k] == t[i + k]);
    if s.len() == 0 {
        assert((protege(s) + seq!['"'] + suite)[0] == '"');
        assert(r[0] == '"');
        assert(t[i + 0] == '"');
        assert(t.subrange(i + 1, t.len() as int) =~= suite) by {
            assert(r.subrange(1, r.len() as int) =~= suite);
            assert(t.subrange(i + 1, t.len() as int) =~= r.subrange(1, r.len() as int));
        }
        assert(valeur + s =~= valeur);
    } else {
        lemme_protege_premier(s);
        let u = s.drop_first();
        if s[0] == '\\' || s[0] == '"' {
            assert(r[0] == '\\' && r[1] == s[0]);
            assert(t[i + 0] == r[0] && t[i + 1] == r[1]);
            assert(t.subrange(i + 2, t.len() as int) =~= r.subrange(2, r.len() as int));
            assert(r.subrange(2, r.len() as int) =~= protege(u) + seq!['"'] + suite);
            lemme_cite_relu(t, i + 2, valeur.push(s[0]), u, suite);
            reveal_with_fuel(cite, 3);
        } else {
            assert(r[0] == s[0]);
            assert(t[i + 0] == r[0]);
            assert(t.subrange(i + 1, t.len() as int) =~= r.subrange(1, r.len() as int));
            assert(r.subrange(1, r.len() as int) =~= protege(u) + seq!['"'] + suite);
            lemme_cite_relu(t, i + 1, valeur.push(s[0]), u, suite);
        }
        assert(valeur.push(s[0]) + u =~= valeur + s);
    }
}

/// A quoted text is read back as it was, whatever follows it.
pub proof fn loi_citation_relue(s: Seq<char>, suite: Seq<char>)
    ensures
        jeton_de(citee(s) + suite) == Some((s, suite)),
{
    let t = citee(s) + suite;
    assert(t[0] == '"');
    assert(sans_blancs_debut(t) == t);
    assert(t.subrange(1, t.len() as int) =~= protege(s) + seq!['"'] + suite);
    lemme_cite_relu(t, 1, Seq::empty(), s, suite);
    assert(Seq::<char>::empty() + s =~= s);
}

/// The group that starts a text closes at its first closing parenthesis where nothing
/// opens inside it.
proof fn lemme_fermeture(s: Seq<char>, i: int, fin: int)
    requires
        0 <= i <= fin < s.len(),
        s[fin] == ')',
        forall|k: int| i <= k < fin ==> #[trigger] s[k] != '(' && s[k] != ')',
    ensures
        fermeture(s, i, 1) == Some(fin),
    decreases fin - i,
{
    if i < fin {
        lemme_fermeture(s, i + 1, fin);
    }
}

/// A `LIST` line whose separator and path are quoted is read back: the path, the
/// separator and the attributes are those that were written.
pub proof fn loi_liste_relue(attributs: Seq<char>, separateur: Seq<char>, chemin: Seq<char>)
    requires
        !attributs.contains('('),
        !attributs.contains(')'),
    ensures
        dossier_de_ligne(
            "* LIST ("@ + attributs + ") "@ + citee(separateur) + " "@ + citee(chemin),
        ) == Some(DossierVue { chemin, separateur, attributs: mots(attributs) }),
        mots(Seq::empty()) == Seq::<Seq<char>>::empty(),
{
    reveal_strlit("* LIST (");
    reveal_strlit("* LIST ");
    reveal_strlit(") ");
    reveal_strlit(" ");
    let ligne = "* LIST ("@ + attributs + ") "@ + citee(separateur) + " "@ + citee(chemin);
    let apres_sep = seq![' '] + citee(chemin);
    let apres_groupe = seq![' '] + (citee(separateur) + apres_sep);
    let reste = seq!['('] + attributs + seq![')'] + apres_groupe;
    let n = attributs.len() as int;
    assert(ligne =~= "* LIST "@ + reste);
    assert(ligne.subrange(0, 7) =~= "* LIST "@);
    assert(ligne.subrange(7, ligne.len() as int) =~= reste);
    reste.index_of_first_ensures('(');
    assert(reste[0] == '(');
    assert(reste.index_of_first('(') == Some(0int));
    assert(reste[n + 1] == ')');
    assert forall|k: int| 1 <= k < n + 1 implies #[trigger] reste[k] != '(' && reste[k] != ')' by {
        assert(reste[k] == attributs[k - 1]);
        assert(attributs.contains(attributs[k - 1]));
    }
    lemme_fermeture(reste, 1, n + 1);
    assert(reste.subrange(1, n + 1) =~= attributs);
    assert(reste.subrange(n + 2, reste.len() as int) =~= apres_groupe);
    lemme_cite_espace(separateur, apres_sep);
    assert(citee(chemin) + Seq::empty() =~= citee(chemin));
    lemme_cite_espace(chemin, Seq::empty());
}

/// A quoted text is read back where a space stands before it.
proof fn lemme_cite_espace(s: Seq<char>, suite: Seq<char>)
    ensures
        jeton_de(seq![' '] + (citee(s) + suite)) == Some((s, suite)),
{
    let t = citee(s) + suite;
    let u = seq![' '] + t;
    assert(u.drop_first() =~= t);
    assert(t[0] == '"');
    assert(sans_blancs_debut(t) == t);
    assert(sans_blancs_debut(u) == t);
    loi_citation_relue(s, suite);
}

// ------------------------------------------------------------------------ commands

/// The tag of the `n`-th command: `m` and at least four digits.
pub open spec fn etiquette_de(n: nat) -> Seq<char> {
    let d = decimal(n);
    if d.len() >= 4 {
        seq!['m'] + d
    } else {
        seq!['m'] + Seq::new((4 - d.len()) as nat, |i: int| '0') + d
    }
}

/// Zeros before a number leave it as it is.
proof fn lemme_zeros(k: nat, d: Seq<char>)
    ensures
        valeur(Seq::new(k, |i: int| '0') + d, 10) == valeur(d, 10),
    decreases k + d.len(),
{
    let z = Seq::new(k, |i: int| '0');
    let t = z + d;
    if d.len() > 0 {
        assert(t.drop_last() =~= z + d.drop_last());
        lemme_zeros(k, d.drop_last());
    } else if k > 0 {
        let vide = Seq::<char>::empty();
        assert(t.drop_last() =~= Seq::new((k - 1) as nat, |i: int| '0') + vide);
        lemme_zeros((k - 1) as nat, vide);
    }
}

proof fn lemme_etiquette(n: nat)
    ensures
        valeur(etiquette_de(n).drop_first(), 10) == n,
{
    let d = decimal(n);
    lemme_decimal(n);
    if d.len() >= 4 {
        assert(etiquette_de(n).drop_first() =~= d);
    } else {
        let k = (4 - d.len()) as nat;
        assert(etiquette_de(n).drop_first() =~= Seq::new(k, |i: int| '0') + d);
        lemme_zeros(k, d);
    }
}

/// No two commands of a session bear the same tag.
pub proof fn loi_etiquettes_distinctes(a: nat, b: nat)
    requires
        etiquette_de(a) == etiquette_de(b),
    ensures
        a == b,
{
    lemme_etiquette(a);
    lemme_etiquette(b);
}

fn etiqueter(n: u32) -> (r: String)
    ensures
        r@ == etiquette_de(n as nat),
{
    let d = ecrire_u64(n as u64);
    let mut v: Vec<char> = Vec::new();
    v.push('m');
    let mut k: usize = d.len();
    while k < 4
        invariant
            d@.len() <= k || k == d@.len(),
            k <= 4 || k == d@.len(),
            d@.len() <= k,
            v@ =~= seq!['m'] + Seq::new((k - d@.len()) as nat, |i: int| '0'),
        decreases 4 - k,
    {
        v.push('0');
        k += 1;
    }
    ajouter_car(&mut v, d.as_slice());
    assert(v@ =~= etiquette_de(n as nat));
    chaine(v.as_slice())
}

/// The line that carries a command.
pub open spec fn ligne_commande(etiquette: Seq<char>, texte: Seq<char>) -> Seq<char> {
    etiquette + seq![' '] + texte + seq!['\r', '\n']
}

/// The command that opens a session.
pub open spec fn cmd_login(utilisateur: Seq<char>, mot_de_passe: Seq<char>) -> Seq<char> {
    "LOGIN "@ + citee(utilisateur) + " "@ + citee(mot_de_passe)
}

/// The command that gives the counters of a folder.
pub open spec fn cmd_status(chemin: Seq<char>) -> Seq<char> {
    "STATUS "@ + citee(chemin) + " (MESSAGES UNSEEN)"@
}

/// The command that opens a folder for reading only.
pub open spec fn cmd_examine(chemin: Seq<char>) -> Seq<char> {
    "EXAMINE "@ + citee(chemin)
}

/// The command that opens a folder, resuming an earlier visit or not.
pub open spec fn cmd_select(chemin: Seq<char>, reprise: Option<(u32, u64)>) -> Seq<char> {
    match reprise {
        Some((validite, modseq)) => "SELECT "@ + citee(chemin) + " (QRESYNC ("@ + decimal(
            validite as nat,
        ) + " "@ + decimal(modseq as nat) + "))"@,
        None => "SELECT "@ + citee(chemin),
    }
}

/// The earlier visit that a `SELECT` asks to resume: one that is known, where the
/// server can.
pub open spec fn reprise_demandee(qresync: bool, reprise: Option<(u32, u64)>) -> Option<(u32, u64)> {
    match reprise {
        Some((validite, modseq)) => if qresync && validite != 0 && modseq != 0 {
            Some((validite, modseq))
        } else {
            None
        },
        None => None,
    }
}

/// The command that gives the headers of the messages of an interval of UIDs.
pub open spec fn cmd_entetes(intervalle: Seq<char>) -> Seq<char> {
    "UID FETCH "@ + intervalle
        + " (UID FLAGS INTERNALDATE RFC822.SIZE BODY.PEEK[HEADER.FIELDS (FROM TO CC SUBJECT DATE MESSAGE-ID IN-REPLY-TO REFERENCES)])"@
}

/// The command that gives UID and flags of all messages of the selected folder.
pub open spec fn cmd_drapeaux() -> Seq<char> {
    "UID FETCH 1:* (UID FLAGS)"@
}

/// The command that lists all folders.
pub open spec fn cmd_list() -> Seq<char> {
    "LIST \"\" \"*\""@
}

/// The command that lists all folders with their counters, and with their special uses
/// where the server knows them.
pub open spec fn cmd_releve(usages: bool) -> Seq<char> {
    if usages {
        "LIST \"\" \"*\" RETURN (SPECIAL-USE STATUS (MESSAGES UNSEEN))"@
    } else {
        "LIST \"\" \"*\" RETURN (STATUS (MESSAGES UNSEEN))"@
    }
}

/// The command that has the server tell of what vanished.
pub open spec fn cmd_activation() -> Seq<char> {
    "ENABLE QRESYNC"@
}

/// The command that gives a whole message.
pub open spec fn cmd_corps(uid: u32) -> Seq<char> {
    "UID FETCH "@ + decimal(uid as nat) + " (BODY.PEEK[])"@
}

/// The command that gives a whole message with its flags and its internal date.
pub open spec fn cmd_message(uid: u32) -> Seq<char> {
    "UID FETCH "@ + decimal(uid as nat) + " (UID FLAGS INTERNALDATE BODY.PEEK[])"@
}

/// How a set of UIDs is written in a command.
pub open spec fn ensemble(uids: Seq<u32>) -> Seq<char> {
    ecriture(compact(uids))
}

/// The command that adds or removes a flag.
pub open spec fn cmd_store(uids: Seq<u32>, drapeau: Seq<char>, present: bool) -> Seq<char> {
    "UID STORE "@ + ensemble(uids) + (if present {
        " +FLAGS.SILENT ("@
    } else {
        " -FLAGS.SILENT ("@
    }) + drapeau + ")"@
}

/// The command that moves messages to another folder.
pub open spec fn cmd_move(uids: Seq<u32>, cible: Seq<char>) -> Seq<char> {
    "UID MOVE "@ + ensemble(uids) + " "@ + citee(cible)
}

/// The command that copies messages to another folder.
pub open spec fn cmd_copy(uids: Seq<u32>, cible: Seq<char>) -> Seq<char> {
    "UID COPY "@ + ensemble(uids) + " "@ + citee(cible)
}

/// The command that purges designated messages, and no other.
pub open spec fn cmd_expunge(uids: Seq<u32>) -> Seq<char> {
    "UID EXPUNGE "@ + ensemble(uids)
}

/// The flags that a client may set: `\Recent` is the server's own.
pub open spec fn drapeaux_deposables(v: Seq<Seq<char>>) -> Seq<Seq<char>> {
    v.filter(|d: Seq<char>| minuscules(d) != minuscules("\\Recent"@))
}

/// The command that puts a message in a folder, up to the announcement of its
/// bytes.
pub open spec fn cmd_append(
    chemin: Seq<char>,
    drapeaux: Seq<Seq<char>>,
    date: Seq<char>,
    taille: nat,
) -> Seq<char> {
    "APPEND "@ + citee(chemin) + " ("@ + jointure(drapeaux_deposables(drapeaux), " "@) + ")"@ + (
    if date.len() == 0 {
        Seq::empty()
    } else {
        " "@ + citee(date)
    }) + " {"@ + decimal(taille) + "}"@
}

/// The command that finds the messages with a `Message-ID`.
pub open spec fn cmd_search(message_id: Seq<char>) -> Seq<char> {
    "UID SEARCH HEADER Message-ID "@ + citee(message_id)
}

/// Text of the command that opens a folder for reading only.
pub fn demande_examen(chemin: &str) -> (r: String)
    ensures
        r@ == cmd_examine(chemin@),
{
    let mut v = caracteres("EXAMINE ");
    ajouter_cite(&mut v, chemin);
    chaine(v.as_slice())
}

/// Text of the command that gives the headers of the messages of an interval of
/// UIDs (`1:*` for the whole folder).
pub fn demande_entetes(intervalle: &str) -> (r: String)
    ensures
        r@ == cmd_entetes(intervalle@),
{
    let mut v = caracteres("UID FETCH ");
    ajouter(&mut v, intervalle);
    ajouter(
        &mut v,
        " (UID FLAGS INTERNALDATE RFC822.SIZE BODY.PEEK[HEADER.FIELDS (FROM TO CC SUBJECT DATE MESSAGE-ID IN-REPLY-TO REFERENCES)])",
    );
    chaine(v.as_slice())
}

/// Text of the command that gives UID and flags of all messages of the selected
/// folder.
pub fn demande_drapeaux() -> (r: String)
    ensures
        r@ == "UID FETCH 1:* (UID FLAGS)"@,
        r@ == cmd_drapeaux(),
{
    copier("UID FETCH 1:* (UID FLAGS)")
}

/// Text of the command that gives a whole message. Reading it must not mark it as
/// read behind the user's back.
pub fn demande_corps(uid: u32) -> (r: String)
    ensures
        r@ == cmd_corps(uid),
{
    let mut v = caracteres("UID FETCH ");
    let d = ecrire_u64(uid as u64);
    ajouter_car(&mut v, d.as_slice());
    ajouter(&mut v, " (BODY.PEEK[])");
    chaine(v.as_slice())
}

/// Text of the command that gives a whole message with its flags and its internal
/// date.
pub fn demande_message(uid: u32) -> (r: String)
    ensures
        r@ == cmd_message(uid),
{
    let mut v = caracteres("UID FETCH ");
    let d = ecrire_u64(uid as u64);
    ajouter_car(&mut v, d.as_slice());
    ajouter(&mut v, " (UID FLAGS INTERNALDATE BODY.PEEK[])");
    chaine(v.as_slice())
}

/// Text of the command that finds the messages with a `Message-ID`.
pub fn demande_recherche(message_id: &str) -> (r: String)
    ensures
        r@ == cmd_search(message_id@),
{
    let mut v = caracteres("UID SEARCH HEADER Message-ID ");
    ajouter_cite(&mut v, message_id);
    chaine(v.as_slice())
}

fn texte_deplacement(verbe: &str, uids: &[u32], cible: &str) -> (r: String)
    ensures
        r@ == verbe@ + ensemble(uids@) + " "@ + citee(cible@),
{
    let mut v = caracteres(verbe);
    let e = ensemble_uid(uids);
    ajouter(&mut v, e.as_str());
    ajouter(&mut v, " ");
    ajouter_cite(&mut v, cible);
    chaine(v.as_slice())
}

// ---------------------------------------------------------------------- exchanges

impl Client {
    /// A session on a connection just opened, whose greeting is still to come.
    pub fn connecter() -> (r: Client)
        ensures
            r@ == (ClientVue {
                lecture: lecture_neuve(Seq::empty()),
                compteur: 0,
                capacites: Seq::empty(),
                qresync: false,
                selection: None,
            }),
    {
        let c = Client {
            lecture: Lecture::nouvelle(Vec::new()),
            compteur: 0,
            capacites: Vec::new(),
            qresync: false,
            selection: None,
        };
        assert(c@.capacites =~= Seq::empty());
        c
    }

    /// Takes note of bytes that the server sent.
    pub fn recevoir(&mut self, octets: &[u8])
        ensures
            final(self)@ == (ClientVue {
                lecture: avec_octets(old(self)@.lecture, octets@),
                ..old(self)@
            }),
    {
        self.lecture.recevoir(octets);
    }

    /// Reads the greeting of the server, once it has arrived: one untagged line that
    /// starts with `* OK`.
    pub fn salutation(&mut self) -> (r: Option<Resultat<()>>)
        ensures
            match bout_de_ligne(old(self)@.lecture.reste) {
                None => r is None && final(self)@ == old(self)@,
                Some(i) => {
                    let l = old(self)@.lecture;
                    let ligne = texte_des_octets(l.reste.subrange(0, i));
                    &&& r is Some
                    &&& r->0 is Ok <==> debute(ligne, "* OK"@)
                    &&& r->0 is Err ==> r->0->Err_0@ == ErreurVue::Protocole(
                        "salutation inattendue : "@ + ligne,
                    )
                    &&& final(self)@ == (ClientVue {
                        lecture: LectureVue {
                            reste: l.reste.subrange(i + 2, l.reste.len() as int),
                            ..l
                        },
                        ..old(self)@
                    })
                },
            },
    {
        match self.lecture.ligne() {
            None => None,
            Some(ligne) => {
                let c = caracteres(ligne.as_str());
                if oter_prefixe(c.as_slice(), "* OK").is_some() {
                    Some(Ok(()))
                } else {
                    Some(
                        Err(
                            Erreur::Protocole(accoler("salutation inattendue : ", ligne.as_str())),
                        ),
                    )
                }
            },
        }
    }

    /// How many commands were sent.
    pub fn compteur(&self) -> (r: u32)
        ensures
            r == self@.compteur,
    {
        self.compteur
    }

    /// Bytes that carry a command under the next tag.
    pub fn commande(&mut self, texte: &str) -> (r: Vec<u8>)
        requires
            old(self)@.compteur < u32::MAX,
        ensures
            r@ == encode_utf8(
                ligne_commande(etiquette_de((old(self)@.compteur + 1) as nat), texte@),
            ),
            final(self)@ == (ClientVue {
                lecture: lecture_neuve(old(self)@.lecture.reste),
                compteur: (old(self)@.compteur + 1) as u32,
                ..old(self)@
            }),
    {
        self.compteur += 1;
        let mut reste: Vec<u8> = Vec::new();
        std::mem::swap(&mut reste, &mut self.lecture.reste);
        self.lecture = Lecture::nouvelle(reste);
        let e = etiqueter(self.compteur);
        let mut v = caracteres(e.as_str());
        v.push(' ');
        ajouter(&mut v, texte);
        v.push('\r');
        v.push('\n');
        assert(v@ =~= ligne_commande(e@, texte@));
        let s = chaine(v.as_slice());
        slice_to_vec(s.as_str().as_bytes())
    }

    /// The response to the last command, once it is complete.
    pub fn reponse(&mut self) -> (r: Option<Resultat<Reponse>>)
        ensures
            ({
                let (v, l) = lecture(
                    old(self)@.lecture,
                    etiquette_de(old(self)@.compteur as nat),
                );
                &&& v == (match r {
                    Some(x) => Some(vue_reponse(x)),
                    None => None,
                })
                &&& final(self)@ == (ClientVue { lecture: l, ..old(self)@ })
            }),
    {
        let e = etiqueter(self.compteur);
        self.lecture.avancer(e.as_str())
    }

    /// The invitation of the server to send the bytes of the message that the last
    /// command announced, or its refusal, once it has arrived.
    pub fn invite(&mut self) -> (r: Option<Resultat<()>>)
        ensures
            ({
                let (v, reste) = invitation(
                    old(self)@.lecture.reste,
                    etiquette_de(old(self)@.compteur as nat),
                );
                &&& v == (match r {
                    Some(Ok(())) => Some(Ok(())),
                    Some(Err(e)) => Some(Err(e@)),
                    None => None,
                })
                &&& final(self)@ == (ClientVue {
                    lecture: LectureVue { reste, ..old(self)@.lecture },
                    ..old(self)@
                })
            }),
    {
        let e = etiqueter(self.compteur);
        self.lecture.inviter(e.as_str())
    }

    /// Whether QRESYNC was enabled.
    pub fn qresync(&self) -> (r: bool)
        ensures
            r == self@.qresync,
    {
        self.qresync
    }

    /// Capabilities that the server announced once the session was open.
    pub fn capacites(&self) -> (r: &[String])
        ensures
            textes(r@) == self@.capacites,
    {
        self.capacites.as_slice()
    }

    /// Whether the server announced a capability.
    pub fn sait(&self, capacite: &str) -> (r: bool)
        ensures
            r == self@.capacites.contains(capacite@),
    {
        contient_texte(&self.capacites, capacite)
    }

    /// Selected folder, if there is one.
    pub fn selection(&self) -> (r: Option<&str>)
        ensures
            match r {
                Some(t) => self@.selection == Some(t@),
                None => self@.selection is None,
            },
    {
        match &self.selection {
            Some(s) => Some(s.as_str()),
            None => None,
        }
    }
}

// ------------------------------------------------------------------------- opening

/// The step that the opening of a session has reached.
#[derive(Debug, Clone, Copy, PartialEq, Eq, Structural)]
pub enum Ouverture {
    /// The credentials were sent.
    Identification,
    /// The capabilities were asked for.
    Capacites,
    /// QRESYNC was asked for.
    Activation,
}

/// What the opening of a session leads to.
pub enum SuiteOuverture {
    /// A command is to be sent; its response is that of the step.
    Demander(Ouverture, String),
    Fini(Resultat<()>),
}

/// The words of the capability lines of a response.
pub open spec fn capacites_de_ligne(ligne: Seq<char>) -> Seq<Seq<char>> {
    match apres_prefixe(sans_blancs(ligne), "* CAPABILITY "@) {
        Some(reste) => mots(reste),
        None => Seq::empty(),
    }
}

/// The way a line is read for capabilities.
pub open spec fn lecteur_capacites() -> spec_fn(Seq<char>) -> Seq<Seq<char>> {
    |l: Seq<char>| capacites_de_ligne(l)
}

/// The capabilities that a response announces.
pub open spec fn capacites_de(reponse: Seq<char>) -> Seq<Seq<char>> {
    lignes(reponse).flat_map(lecteur_capacites())
}

fn lire_capacites(texte: &str) -> (r: Vec<String>)
    ensures
        textes(r@) == capacites_de(texte@),
{
    let c = caracteres(texte);
    let ls = decouper_lignes(c.as_slice());
    let ghost tout = lignes(texte@);
    let mut r: Vec<String> = Vec::new();
    proof {
        assert(tout.take(0).flat_map(lecteur_capacites()) =~= Seq::empty());
        assert(textes(r@) =~= Seq::empty());
    }
    for i in 0..ls.len()
        invariant
            tout == vues_car(ls@),
            textes(r@) == tout.take(i as int).flat_map(lecteur_capacites()),
    {
        proof {
            tout.lemma_flat_map_take_append(lecteur_capacites(), i as int);
            assert(tout[i as int] == ls@[i as int]@);
        }
        let ghost avant = textes(r@);
        match oter_prefixe(rogner(ls[i].as_slice()), "* CAPABILITY ") {
            Some(reste) => {
                let m = decouper_mots(reste);
                let mut v = chaines(&m);
                let ghost w = textes(v@);
                r.append(&mut v);
                assert(textes(r@) =~= avant + w);
            },
            None => {
                assert(avant + Seq::<Seq<char>>::empty() =~= avant);
            },
        }
    }
    assert(tout.take(tout.len() as int) =~= tout);
    r
}

/// Text of the command that opens a session.
pub fn demande_session(utilisateur: &str, mot_de_passe: &str) -> (r: String)
    ensures
        r@ == cmd_login(utilisateur@, mot_de_passe@),
{
    let mut v = caracteres("LOGIN ");
    ajouter_cite(&mut v, utilisateur);
    ajouter(&mut v, " ");
    ajouter_cite(&mut v, mot_de_passe);
    chaine(v.as_slice())
}

impl Client {
    /// Takes the opening of a session a step further, given the response to the
    /// command of the step reached: the credentials are accepted, then the
    /// capabilities are read, which differ from those of before, then QRESYNC is
    /// enabled where the server can.
    pub fn ouvrir_session(&mut self, etape: Ouverture, reponse: Resultat<Reponse>) -> (r:
        SuiteOuverture)
        ensures
            match vue_reponse(reponse) {
                Err(e) => {
                    &&& r matches SuiteOuverture::Fini(Err(f)) && f@ == e
                    &&& final(self)@ == old(self)@
                },
                Ok(v) => match etape {
                    Ouverture::Identification => {
                        &&& r matches SuiteOuverture::Demander(Ouverture::Capacites, c) && c@
                            == "CAPABILITY"@
                        &&& final(self)@ == old(self)@
                    },
                    Ouverture::Capacites => {
                        let capacites = capacites_de(v.texte);
                        &&& final(self)@ == (ClientVue { capacites, ..old(self)@ })
                        &&& if capacites.contains("QRESYNC"@) {
                            r matches SuiteOuverture::Demander(Ouverture::Activation, c) && c@
                                == "ENABLE QRESYNC"@ && c@ == cmd_activation()
                        } else {
                            r matches SuiteOuverture::Fini(Ok(()))
                        }
                    },
                    Ouverture::Activation => {
                        &&& r matches SuiteOuverture::Fini(Ok(()))
                        &&& final(self)@ == (ClientVue { qresync: true, ..old(self)@ })
                    },
                },
            },
    {
        match reponse {
            Err(e) => SuiteOuverture::Fini(Err(e)),
            Ok(v) => match etape {
                Ouverture::Identification => SuiteOuverture::Demander(
                    Ouverture::Capacites,
                    copier("CAPABILITY"),
                ),
                Ouverture::Capacites => {
                    self.capacites = lire_capacites(v.texte.as_str());
                    if self.sait("QRESYNC") {
                        SuiteOuverture::Demander(Ouverture::Activation, copier("ENABLE QRESYNC"))
                    } else {
                        SuiteOuverture::Fini(Ok(()))
                    }
                },
                Ouverture::Activation => {
                    self.qresync = true;
                    SuiteOuverture::Fini(Ok(()))
                },
            },
        }
    }
}

// ----------------------------------------------------------------------------- tree

/// The folders that a response lists.
pub open spec fn dossiers_de(reponse: Seq<char>) -> Seq<DossierVue> {
    lignes(reponse).filter_map(lecteur_list())
}

/// The reading of the tree of folders and of their counters.
pub enum Releve {
    /// Folders and counters were asked for at once.
    Etendu,
    /// The folders were asked for.
    Liste,
    /// The counters of the folder of a rank were asked for.
    Compteurs { dossiers: Vec<Dossier>, statuts: Vec<Statut>, rang: usize },
}

/// What the reading of the tree leads to.
pub enum SuiteReleve {
    /// A command is to be sent.
    Demander(Releve, String),
    Fini(Resultat<(Vec<Dossier>, Vec<Statut>)>),
}

/// The first folder from a rank on that can be opened.
pub open spec fn prochain_ouvrable(ds: Seq<DossierVue>, rang: int) -> Option<int>
    decreases ds.len() - rang,
{
    if rang < 0 || rang >= ds.len() {
        None
    } else if ouvrable(ds[rang].attributs) {
        Some(rang)
    } else {
        prochain_ouvrable(ds, rang + 1)
    }
}

/// Whether a step asks for the counters of the next folder that can be opened, or
/// ends the reading where there is none.
pub open spec fn compteurs_suivants(
    s: SuiteReleve,
    ds: Seq<DossierVue>,
    statuts: Seq<StatutVue>,
    rang: int,
) -> bool {
    match prochain_ouvrable(ds, rang) {
        Some(k) => s matches SuiteReleve::Demander(
            Releve::Compteurs { dossiers: d, statuts: t, rang: n },
            c,
        ) && vues_dossiers(d@) == ds && vues_statuts(t@) == statuts && n == k && c@ == cmd_status(
            ds[k].chemin,
        ),
        None => s matches SuiteReleve::Fini(Ok((d, t))) && vues_dossiers(d@) == ds && vues_statuts(
            t@,
        ) == statuts,
    }
}

fn demander_compteurs(dossiers: Vec<Dossier>, statuts: Vec<Statut>, rang: usize) -> (r: SuiteReleve)
    ensures
        compteurs_suivants(r, vues_dossiers(dossiers@), vues_statuts(statuts@), rang as int),
{
    let ghost ds = vues_dossiers(dossiers@);
    let mut k: usize = rang;
    while k < dossiers.len()
        invariant
            ds == vues_dossiers(dossiers@),
            rang <= k,
            rang <= dossiers@.len() ==> k <= dossiers@.len(),
            prochain_ouvrable(ds, rang as int) == prochain_ouvrable(ds, k as int),
        decreases dossiers@.len() - k,
    {
        assert(ds[k as int] == dossiers@[k as int]@);
        if dossiers[k].selectionnable() {
            let mut v = caracteres("STATUS ");
            ajouter_cite(&mut v, dossiers[k].chemin.as_str());
            ajouter(&mut v, " (MESSAGES UNSEEN)");
            let c = chaine(v.as_slice());
            return SuiteReleve::Demander(Releve::Compteurs { dossiers, statuts, rang: k }, c);
        }
        k += 1;
    }
    SuiteReleve::Fini(Ok((dossiers, statuts)))
}

impl Client {
    /// Text of the command that lists all folders.
    pub fn demande_dossiers() -> (r: String)
        ensures
            r@ == "LIST \"\" \"*\""@,
            r@ == cmd_list(),
    {
        copier("LIST \"\" \"*\"")
    }

    /// Full tree of folders, given the response to the listing.
    pub fn dossiers(reponse: Resultat<Reponse>) -> (r: Resultat<Vec<Dossier>>)
        ensures
            match vue_reponse(reponse) {
                Ok(v) => r is Ok && vues_dossiers(r->Ok_0@) == dossiers_de(v.texte),
                Err(e) => r is Err && r->Err_0@ == e,
            },
    {
        match reponse {
            Ok(v) => Ok(analyser_listes(v.texte.as_str())),
            Err(e) => Err(e),
        }
    }

    /// The first command of the reading of the tree and of the counters: one for
    /// all where the server can. An extended listing only gives the special uses
    /// that it is asked for.
    pub fn demande_releve(&self) -> (r: (Releve, String))
        ensures
            if self@.capacites.contains("LIST-STATUS"@) {
                &&& r.0 is Etendu
                &&& r.1@ == (if self@.capacites.contains("SPECIAL-USE"@) {
                    "LIST \"\" \"*\" RETURN (SPECIAL-USE STATUS (MESSAGES UNSEEN))"@
                } else {
                    "LIST \"\" \"*\" RETURN (STATUS (MESSAGES UNSEEN))"@
                })
            } else {
                &&& r.0 is Liste
                &&& r.1@ == "LIST \"\" \"*\""@
            },
            self@.capacites.contains("LIST-STATUS"@) ==> r.1@ == cmd_releve(
                self@.capacites.contains("SPECIAL-USE"@),
            ),
            !self@.capacites.contains("LIST-STATUS"@) ==> r.1@ == cmd_list(),
    {
        if self.sait("LIST-STATUS") {
            let c = if self.sait("SPECIAL-USE") {
                copier("LIST \"\" \"*\" RETURN (SPECIAL-USE STATUS (MESSAGES UNSEEN))")
            } else {
                copier("LIST \"\" \"*\" RETURN (STATUS (MESSAGES UNSEEN))")
            };
            (Releve::Etendu, c)
        } else {
            (Releve::Liste, Client::demande_dossiers())
        }
    }

    /// Takes the reading of the tree and of the counters a step further: folder by
    /// folder where the server cannot give them all at once.
    pub fn dossiers_et_compteurs(releve: Releve, reponse: Resultat<Reponse>) -> (r: SuiteReleve)
        ensures
            match vue_reponse(reponse) {
                Err(e) => r matches SuiteReleve::Fini(Err(f)) && f@ == e,
                Ok(v) => match releve {
                    Releve::Etendu => r matches SuiteReleve::Fini(Ok((d, s))) && vues_dossiers(d@)
                        == dossiers_de(v.texte) && vues_statuts(s@) == statuts_de(v.texte),
                    Releve::Liste => compteurs_suivants(
                        r,
                        dossiers_de(v.texte),
                        Seq::empty(),
                        0,
                    ),
                    Releve::Compteurs { dossiers, statuts, rang } => if rang < usize::MAX {
                        compteurs_suivants(
                            r,
                            vues_dossiers(dossiers@),
                            vues_statuts(statuts@) + statuts_de(v.texte),
                            rang + 1,
                        )
                    } else {
                        r matches SuiteReleve::Fini(Ok((d, s))) && vues_dossiers(d@)
                            == vues_dossiers(dossiers@) && vues_statuts(s@) == vues_statuts(
                            statuts@,
                        ) + statuts_de(v.texte)
                    },
                },
            },
    {
        match reponse {
            Err(e) => SuiteReleve::Fini(Err(e)),
            Ok(v) => match releve {
                Releve::Etendu => SuiteReleve::Fini(
                    Ok((analyser_listes(v.texte.as_str()), analyser_status(v.texte.as_str()))),
                ),
                Releve::Liste => {
                    let statuts: Vec<Statut> = Vec::new();
                    assert(vues_statuts(statuts@) =~= Seq::empty());
                    demander_compteurs(analyser_listes(v.texte.as_str()), statuts, 0)
                },
                Releve::Compteurs { dossiers, statuts, rang } => {
                    let mut tous = statuts;
                    let mut lus = analyser_status(v.texte.as_str());
                    let ghost a = vues_statuts(tous@);
                    let ghost b = vues_statuts(lus@);
                    tous.append(&mut lus);
                    assert(vues_statuts(tous@) =~= a + b);
                    if rang < usize::MAX {
                        demander_compteurs(dossiers, tous, rang + 1)
                    } else {
                        SuiteReleve::Fini(Ok((dossiers, tous)))
                    }
                },
            },
        }
    }
}

// ---------------------------------------------------------------------- one folder

/// UID and flags of the headers of a response.
pub open spec fn drapeaux_lus(v: Seq<EnteteVue>) -> Seq<(u32, Seq<Seq<char>>)> {
    v.map_values(|e: EnteteVue| (e.uid, e.drapeaux))
}

fn garder_drapeaux(v: Vec<Entete>) -> (r: Vec<(u32, Vec<String>)>)
    ensures
        vues_drapeaux(r@) == drapeaux_lus(vues_entetes(v@)),
{
    let ghost s = vues_entetes(v@);
    let mut r: Vec<(u32, Vec<String>)> = Vec::new();
    for e in it: v
        invariant
            s == vues_entetes(it.seq()),
            vues_drapeaux(r@) =~= drapeaux_lus(s).take(it.index() as int),
    {
        let ghost avant = vues_drapeaux(r@);
        let ghost x = e@;
        r.push((e.uid, e.drapeaux));
        assert(vues_drapeaux(r@) =~= avant.push((x.uid, x.drapeaux)));
    }
    assert(drapeaux_lus(s).take(s.len() as int) =~= drapeaux_lus(s));
    r
}

/// What the response to a `SELECT` gives.
pub open spec fn selection_lue(
    v: ReponseVue,
    qresync: bool,
    reprise: Option<(u32, u64)>,
) -> SelectionVue {
    let etat = etat_de_lignes(lignes(v.texte));
    SelectionVue {
        etat,
        disparus: vanished_de(v.texte),
        drapeaux: drapeaux_lus(entetes_de(v.texte, v.litteraux)),
        reprise: match reprise_demandee(qresync, reprise) {
            Some((validite, _)) => validite == etat.uid_validity,
            None => false,
        },
    }
}

/// Whether a header line is that of a message with its bytes.
pub open spec fn entier_de(uid: u32) -> spec_fn(EnteteVue) -> bool {
    |e: EnteteVue| e.uid == uid && e.brut.len() > 0
}

/// The whole message that a response gives; none where it vanished meanwhile.
pub open spec fn message_lu(v: ReponseVue, uid: u32) -> Option<MessageCompletVue> {
    match premier(entetes_de(v.texte, v.litteraux), entier_de(uid)) {
        Some(e) => Some(
            MessageCompletVue {
                drapeaux: e.drapeaux,
                date_interne: e.date_interne,
                octets: e.brut,
            },
        ),
        None => None,
    }
}

impl Client {
    /// State of a folder opened for reading only, given the response to the
    /// command. A mark or a move will ask for a true selection: there is none after
    /// this.
    pub fn examiner(&mut self, reponse: Resultat<Reponse>) -> (r: Resultat<EtatDossier>)
        ensures
            match vue_reponse(reponse) {
                Ok(v) => {
                    &&& r is Ok
                    &&& r->Ok_0 == etat_de_lignes(lignes(v.texte))
                    &&& final(self)@ == (ClientVue { selection: None, ..old(self)@ })
                },
                Err(e) => r is Err && r->Err_0@ == e && final(self)@ == old(self)@,
            },
    {
        match reponse {
            Ok(v) => {
                self.selection = None;
                Ok(analyser_select(v.texte.as_str()))
            },
            Err(e) => Err(e),
        }
    }

    /// Text of the command that opens a folder. `reprise` carries the `UIDVALIDITY`
    /// and the `HIGHESTMODSEQ` of the last visit: the server then gives, besides the
    /// state, the UIDs removed and the flags changed since.
    pub fn demande_selection(&self, chemin: &str, reprise: Option<(u32, u64)>) -> (r: String)
        ensures
            r@ == cmd_select(chemin@, reprise_demandee(self@.qresync, reprise)),
    {
        let mut v = caracteres("SELECT ");
        ajouter_cite(&mut v, chemin);
        if let Some((validite, modseq)) = reprise {
            if self.qresync && validite != 0 && modseq != 0 {
                ajouter(&mut v, " (QRESYNC (");
                let a = ecrire_u64(validite as u64);
                ajouter_car(&mut v, a.as_slice());
                ajouter(&mut v, " ");
                let b = ecrire_u64(modseq);
                ajouter_car(&mut v, b.as_slice());
                ajouter(&mut v, "))");
            }
        }
        chaine(v.as_slice())
    }

    /// What opening a folder gives, given the response to the command.
    pub fn selectionner(
        &mut self,
        chemin: &str,
        reprise: Option<(u32, u64)>,
        reponse: Resultat<Reponse>,
    ) -> (r: Resultat<Selection>)
        ensures
            match vue_reponse(reponse) {
                Ok(v) => {
                    &&& r is Ok
                    &&& r->Ok_0@ == selection_lue(v, old(self)@.qresync, reprise)
                    &&& final(self)@ == (ClientVue { selection: Some(chemin@), ..old(self)@ })
                },
                Err(e) => r is Err && r->Err_0@ == e && final(self)@ == old(self)@,
            },
    {
        match reponse {
            Err(e) => Err(e),
            Ok(v) => {
                self.selection = Some(copier(chemin));
                let etat = analyser_select(v.texte.as_str());
                let disparus = analyser_vanished(v.texte.as_str());
                let lus = analyser_fetch(v.texte.as_str(), v.litteraux.as_slice());
                let drapeaux = garder_drapeaux(lus);
                let reprise = match reprise {
                    Some((validite, modseq)) => self.qresync && validite != 0 && modseq != 0
                        && validite == etat.uid_validity,
                    None => false,
                };
                Ok(Selection { etat, disparus, drapeaux, reprise })
            },
        }
    }

    /// UID and flags of all messages of the selected folder, given the response to
    /// the command.
    pub fn tous_les_drapeaux(reponse: Resultat<Reponse>) -> (r: Resultat<Vec<(u32, Vec<String>)>>)
        ensures
            match vue_reponse(reponse) {
                Ok(v) => r is Ok && vues_drapeaux(r->Ok_0@) == drapeaux_lus(
                    entetes_de(v.texte, v.litteraux),
                ),
                Err(e) => r is Err && r->Err_0@ == e,
            },
    {
        match reponse {
            Ok(v) => {
                let lus = analyser_fetch(v.texte.as_str(), v.litteraux.as_slice());
                Ok(garder_drapeaux(lus))
            },
            Err(e) => Err(e),
        }
    }

    /// Headers of messages, given the response to the command.
    pub fn entetes(reponse: Resultat<Reponse>) -> (r: Resultat<Vec<Entete>>)
        ensures
            match vue_reponse(reponse) {
                Ok(v) => r is Ok && vues_entetes(r->Ok_0@) == entetes_de(v.texte, v.litteraux),
                Err(e) => r is Err && r->Err_0@ == e,
            },
    {
        match reponse {
            Ok(v) => Ok(analyser_fetch(v.texte.as_str(), v.litteraux.as_slice())),
            Err(e) => Err(e),
        }
    }

    /// Whole message, as the server keeps it, given the response to the command.
    pub fn corps(uid: u32, reponse: Resultat<Reponse>) -> (r: Resultat<Vec<u8>>)
        ensures
            match vue_reponse(reponse) {
                Ok(v) => if v.litteraux.len() > 0 {
                    r is Ok && r->Ok_0@ == v.litteraux[0]
                } else {
                    r is Err && r->Err_0@ == ErreurVue::Protocole(
                        "aucun corps rendu pour l'UID "@ + decimal(uid as nat),
                    )
                },
                Err(e) => r is Err && r->Err_0@ == e,
            },
    {
        match reponse {
            Ok(v) => if v.litteraux.len() > 0 {
                assert(v@.litteraux[0] == v.litteraux@[0]@);
                Ok(slice_to_vec(v.litteraux[0].as_slice()))
            } else {
                let mut m = caracteres("aucun corps rendu pour l'UID ");
                let d = ecrire_u64(uid as u64);
                ajouter_car(&mut m, d.as_slice());
                Err(Erreur::Protocole(chaine(m.as_slice())))
            },
            Err(e) => Err(e),
        }
    }

    /// Whole message with its flags and its internal date, given the response to the
    /// command; none if the message vanished meanwhile.
    pub fn message_complet(uid: u32, reponse: Resultat<Reponse>) -> (r: Resultat<
        Option<MessageComplet>,
    >)
        ensures
            match vue_reponse(reponse) {
                Ok(v) => r is Ok && (match r->Ok_0 {
                    Some(m) => Some(m@),
                    None => None,
                }) == message_lu(v, uid),
                Err(e) => r is Err && r->Err_0@ == e,
            },
    {
        match reponse {
            Err(e) => Err(e),
            Ok(v) => {
                let lus = analyser_fetch(v.texte.as_str(), v.litteraux.as_slice());
                let ghost s = vues_entetes(lus@);
                let mut trouve: Option<usize> = None;
                for i in 0..lus.len()
                    invariant
                        s == vues_entetes(lus@),
                        match trouve {
                            Some(k) => k < i && premier(s.take(i as int), entier_de(uid)) == Some(
                                lus@[k as int]@,
                            ),
                            None => premier(s.take(i as int), entier_de(uid)) is None,
                        },
                {
                    proof {
                        assert(s.take(i + 1).drop_last() =~= s.take(i as int));
                        assert(s.take(i + 1).last() == lus@[i as int]@);
                    }
                    if trouve.is_none() && lus[i].uid == uid && lus[i].brut.len() > 0 {
                        trouve = Some(i);
                    }
                }
                assert(s.take(s.len() as int) =~= s);
                match trouve {
                    None => Ok(None),
                    Some(k) => {
                        let e = lus[k].clone();
                        Ok(
                            Some(
                                MessageComplet {
                                    drapeaux: e.drapeaux,
                                    date_interne: e.date_interne,
                                    octets: e.brut,
                                },
                            ),
                        )
                    },
                }
            },
        }
    }

    /// UIDs found, given the response to the search.
    pub fn chercher_message_id(reponse: Resultat<Reponse>) -> (r: Resultat<Vec<u32>>)
        ensures
            match vue_reponse(reponse) {
                Ok(v) => r is Ok && r->Ok_0@ == uids_de(v.texte),
                Err(e) => r is Err && r->Err_0@ == e,
            },
    {
        match reponse {
            Ok(v) => Ok(analyser_search(v.texte.as_str())),
            Err(e) => Err(e),
        }
    }

    /// What a command whose response holds nothing to read leads to: a mark, or the
    /// `NOOP` that keeps the session alive.
    pub fn accuser(reponse: Resultat<Reponse>) -> (r: Resultat<()>)
        ensures
            match vue_reponse(reponse) {
                Ok(_) => r is Ok,
                Err(e) => r is Err && r->Err_0@ == e,
            },
    {
        match reponse {
            Ok(_) => Ok(()),
            Err(e) => Err(e),
        }
    }

    /// Text of the command that keeps the session alive and lets the server tell
    /// what changed.
    pub fn noop() -> (r: String)
        ensures
            r@ == "NOOP"@,
    {
        copier("NOOP")
    }

    /// Text of the command that ends the session.
    pub fn fermer() -> (r: String)
        ensures
            r@ == "LOGOUT"@,
    {
        copier("LOGOUT")
    }
}

impl Client {
    /// Text of the command that adds or removes a flag on messages of the selected
    /// folder; none where there is no message.
    pub fn marquer(uids: &[u32], drapeau: &str, present: bool) -> (r: Option<String>)
        ensures
            r is None <==> uids@.len() == 0,
            r is Some ==> r->0@ == cmd_store(uids@, drapeau@, present),
    {
        if uids.len() == 0 {
            return None;
        }
        let mut v = caracteres("UID STORE ");
        let e = ensemble_uid(uids);
        ajouter(&mut v, e.as_str());
        ajouter(
            &mut v,
            if present {
                " +FLAGS.SILENT ("
            } else {
                " -FLAGS.SILENT ("
            },
        );
        ajouter(&mut v, drapeau);
        ajouter(&mut v, ")");
        Some(chaine(v.as_slice()))
    }
}

// --------------------------------------------------------------- moves and removals

/// The step that the removal of messages from a folder has reached.
#[derive(Debug, Clone, Copy, PartialEq, Eq, Structural)]
pub enum Retrait {
    /// The server was asked to move them.
    Deplacement,
    /// The server was asked to copy them.
    Copie,
    /// The server was asked to mark them as deleted.
    Marquage,
    /// The server was asked to purge them.
    Purge,
}

/// What the removal of messages leads to.
pub enum SuiteRetrait {
    /// A command is to be sent.
    Demander(Retrait, String),
    Fini(Resultat<()>),
}

/// What the removal of messages leads to.
pub enum SuiteRetraitVue {
    Demander(Retrait, Seq<char>),
    Fini(Result<(), ErreurVue>),
}

impl View for SuiteRetrait {
    type V = SuiteRetraitVue;

    open spec fn view(&self) -> SuiteRetraitVue {
        match self {
            SuiteRetrait::Demander(e, c) => SuiteRetraitVue::Demander(*e, c@),
            SuiteRetrait::Fini(Ok(())) => SuiteRetraitVue::Fini(Ok(())),
            SuiteRetrait::Fini(Err(e)) => SuiteRetraitVue::Fini(Err(e@)),
        }
    }
}

/// How the removal of messages starts.
pub open spec fn debut_suppression(capacites: Seq<Seq<char>>, uids: Seq<u32>) -> SuiteRetraitVue {
    if uids.len() == 0 {
        SuiteRetraitVue::Fini(Ok(()))
    } else if !capacites.contains("UIDPLUS"@) {
        SuiteRetraitVue::Fini(Err(ErreurVue::Refuse(refus_purge())))
    } else {
        SuiteRetraitVue::Demander(Retrait::Marquage, cmd_store(uids, "\\Deleted"@, true))
    }
}

/// How the move of messages to another folder starts.
pub open spec fn debut_deplacement(
    capacites: Seq<Seq<char>>,
    uids: Seq<u32>,
    cible: Seq<char>,
) -> SuiteRetraitVue {
    if uids.len() == 0 {
        SuiteRetraitVue::Fini(Ok(()))
    } else if capacites.contains("MOVE"@) {
        SuiteRetraitVue::Demander(Retrait::Deplacement, cmd_move(uids, cible))
    } else {
        SuiteRetraitVue::Demander(Retrait::Copie, cmd_copy(uids, cible))
    }
}

/// How a move or a removal goes on once a command of it is answered.
pub open spec fn pas_retrait(
    capacites: Seq<Seq<char>>,
    etape: Retrait,
    uids: Seq<u32>,
    reponse: Result<ReponseVue, ErreurVue>,
) -> SuiteRetraitVue {
    match reponse {
        Err(e) => SuiteRetraitVue::Fini(Err(e)),
        Ok(_) => match etape {
            Retrait::Deplacement => SuiteRetraitVue::Fini(Ok(())),
            Retrait::Copie => debut_suppression(capacites, uids),
            Retrait::Marquage => SuiteRetraitVue::Demander(Retrait::Purge, cmd_expunge(uids)),
            Retrait::Purge => SuiteRetraitVue::Fini(Ok(())),
        },
    }
}

/// What is said where the server cannot purge designated messages.
pub open spec fn refus_purge() -> Seq<char> {
    "le serveur ne sait pas purger des messages désignés (UIDPLUS absent)"@
}

/// Whether a step starts the removal of messages: marking them as deleted where the
/// server can purge designated messages, a refusal where it cannot.
pub open spec fn suppression_entamee(s: SuiteRetrait, capacites: Seq<Seq<char>>, uids: Seq<u32>) -> bool {
    if uids.len() == 0 {
        s matches SuiteRetrait::Fini(Ok(()))
    } else if !capacites.contains("UIDPLUS"@) {
        s matches SuiteRetrait::Fini(Err(e)) && e@ == ErreurVue::Refuse(refus_purge())
    } else {
        s matches SuiteRetrait::Demander(Retrait::Marquage, c) && c@ == cmd_store(
            uids,
            "\\Deleted"@,
            true,
        )
    }
}

impl Client {
    /// Starts the move of messages of the selected folder to another folder of the
    /// same account: at once where the server can, else by copy, mark and purge.
    pub fn deplacer(&self, uids: &[u32], cible: &str) -> (r: SuiteRetrait)
        ensures
            if uids@.len() == 0 {
                r matches SuiteRetrait::Fini(Ok(()))
            } else if self@.capacites.contains("MOVE"@) {
                r matches SuiteRetrait::Demander(Retrait::Deplacement, c) && c@ == cmd_move(
                    uids@,
                    cible@,
                )
            } else {
                r matches SuiteRetrait::Demander(Retrait::Copie, c) && c@ == cmd_copy(uids@, cible@)
            },
            r@ == debut_deplacement(self@.capacites, uids@, cible@),
    {
        if uids.len() == 0 {
            return SuiteRetrait::Fini(Ok(()));
        }
        if self.sait("MOVE") {
            SuiteRetrait::Demander(
                Retrait::Deplacement,
                texte_deplacement("UID MOVE ", uids, cible),
            )
        } else {
            SuiteRetrait::Demander(Retrait::Copie, texte_deplacement("UID COPY ", uids, cible))
        }
    }

    /// Starts the removal of messages of the selected folder for good: a mark, then
    /// the purge of these UIDs alone. A server that can only purge all that is
    /// marked would also purge what another client marked: the operation is refused
    /// rather than risk that.
    pub fn supprimer(&self, uids: &[u32]) -> (r: SuiteRetrait)
        ensures
            suppression_entamee(r, self@.capacites, uids@),
            r@ == debut_suppression(self@.capacites, uids@),
    {
        if uids.len() == 0 {
            return SuiteRetrait::Fini(Ok(()));
        }
        if !self.sait("UIDPLUS") {
            return SuiteRetrait::Fini(
                Err(
                    Erreur::Refuse(
                        copier(
                            "le serveur ne sait pas purger des messages désignés (UIDPLUS absent)",
                        ),
                    ),
                ),
            );
        }
        match Client::marquer(uids, "\\Deleted", true) {
            Some(c) => SuiteRetrait::Demander(Retrait::Marquage, c),
            None => SuiteRetrait::Fini(Ok(())),
        }
    }

    /// Takes a move or a removal a step further, given the response to the command
    /// of the step reached.
    pub fn retirer(&self, etape: Retrait, uids: &[u32], reponse: Resultat<Reponse>) -> (r:
        SuiteRetrait)
        ensures
            match vue_reponse(reponse) {
                Err(e) => r matches SuiteRetrait::Fini(Err(f)) && f@ == e,
                Ok(_) => match etape {
                    Retrait::Deplacement => r matches SuiteRetrait::Fini(Ok(())),
                    Retrait::Copie => suppression_entamee(r, self@.capacites, uids@),
                    Retrait::Marquage => r matches SuiteRetrait::Demander(Retrait::Purge, c) && c@
                        == cmd_expunge(uids@),
                    Retrait::Purge => r matches SuiteRetrait::Fini(Ok(())),
                },
            },
            r@ == pas_retrait(self@.capacites, etape, uids@, vue_reponse(reponse)),
    {
        match reponse {
            Err(e) => SuiteRetrait::Fini(Err(e)),
            Ok(_) => match etape {
                Retrait::Deplacement => SuiteRetrait::Fini(Ok(())),
                Retrait::Copie => self.supprimer(uids),
                Retrait::Marquage => {
                    let mut v = caracteres("UID EXPUNGE ");
                    let e = ensemble_uid(uids);
                    ajouter(&mut v, e.as_str());
                    SuiteRetrait::Demander(Retrait::Purge, chaine(v.as_slice()))
                },
                Retrait::Purge => SuiteRetrait::Fini(Ok(())),
            },
        }
    }
}

// -------------------------------------------------------------------------- deposit

/// Text of the command that puts a message in a folder, with its original flags and
/// internal date, up to the announcement of its bytes.
pub fn demande_depot(chemin: &str, drapeaux: &[String], date_interne: &str, taille: usize) -> (r:
    String)
    ensures
        r@ == cmd_append(chemin@, textes(drapeaux@), date_interne@, taille as nat),
{
    let ghost t = textes(drapeaux@);
    let ghost p = |d: Seq<char>| minuscules(d) != minuscules("\\Recent"@);
    let mut garde: Vec<String> = Vec::new();
    proof {
        reveal(Seq::filter);
        assert(t.take(0).filter(p) =~= Seq::empty());
        assert(textes(garde@) =~= Seq::empty());
    }
    for i in 0..drapeaux.len()
        invariant
            t == textes(drapeaux@),
            p == (|d: Seq<char>| minuscules(d) != minuscules("\\Recent"@)),
            textes(garde@) == t.take(i as int).filter(p),
    {
        proof {
            reveal(Seq::filter);
            assert(t.take(i + 1).drop_last() =~= t.take(i as int));
            assert(t.take(i + 1).last() == drapeaux@[i as int]@);
        }
        if !egal_sans_casse(drapeaux[i].as_str(), "\\Recent") {
            let ghost avant = textes(garde@);
            garde.push(drapeaux[i].clone());
            assert(textes(garde@) =~= avant.push(drapeaux@[i as int]@));
        }
    }
    assert(t.take(t.len() as int) =~= t);
    let mut v = caracteres("APPEND ");
    ajouter_cite(&mut v, chemin);
    ajouter(&mut v, " (");
    let j = joindre(&garde, " ");
    ajouter(&mut v, j.as_str());
    ajouter(&mut v, ")");
    let ghost avant = v@;
    if !date_interne.is_empty() {
        ajouter(&mut v, " ");
        ajouter_cite(&mut v, date_interne);
        assert(v@ =~= avant + (" "@ + citee(date_interne@)));
    } else {
        assert(v@ =~= avant + Seq::<char>::empty());
    }
    ajouter(&mut v, " {");
    let d = ecrire_u64(taille as u64);
    ajouter_car(&mut v, d.as_slice());
    ajouter(&mut v, "}");
    chaine(v.as_slice())
}

/// The UID that the target gave to a message, if it says so.
pub open spec fn uid_depose(reponse: Seq<char>) -> Option<u32> {
    match appenduid_de(reponse) {
        Some((_, uid)) => Some(uid),
        None => None,
    }
}

/// What a deposit awaits.
#[derive(Debug, PartialEq, Eq)]
pub enum Depot {
    /// The invitation to send the bytes of the message.
    Invite(Vec<u8>),
    /// The response, once they are sent.
    Reponse,
}

/// What a deposit awaits.
pub enum DepotVue {
    Invite(Seq<u8>),
    Reponse,
}

impl View for Depot {
    type V = DepotVue;

    open spec fn view(&self) -> DepotVue {
        match self {
            Depot::Invite(o) => DepotVue::Invite(o@),
            Depot::Reponse => DepotVue::Reponse,
        }
    }
}

/// What a step of a deposit leads to.
pub enum SuiteDepot {
    /// Bytes are to be sent.
    Envoyer(Depot, Vec<u8>),
    /// The server is to send more.
    Attendre(Depot),
    /// The UID that the target gave to the message, if it says so.
    Fini(Resultat<Option<u32>>),
}

/// What a step of a deposit leads to.
pub enum SuiteDepotVue {
    Envoyer(DepotVue, Seq<u8>),
    Attendre(DepotVue),
    Fini(Result<Option<u32>, ErreurVue>),
}

impl View for SuiteDepot {
    type V = SuiteDepotVue;

    open spec fn view(&self) -> SuiteDepotVue {
        match self {
            SuiteDepot::Envoyer(d, o) => SuiteDepotVue::Envoyer(d@, o@),
            SuiteDepot::Attendre(d) => SuiteDepotVue::Attendre(d@),
            SuiteDepot::Fini(Ok(u)) => SuiteDepotVue::Fini(Ok(*u)),
            SuiteDepot::Fini(Err(e)) => SuiteDepotVue::Fini(Err(e@)),
        }
    }
}

/// The bytes of a message, and the end of the line that they stand in.
pub open spec fn avec_fin_de_ligne(octets: Seq<u8>) -> Seq<u8> {
    octets + seq![13u8, 10u8]
}

/// The session once a command was sent.
pub open spec fn commande_partie(c: ClientVue) -> ClientVue {
    ClientVue {
        lecture: lecture_neuve(c.lecture.reste),
        compteur: (c.compteur + 1) as u32,
        ..c
    }
}

/// One step of a deposit: the bytes of the message go out once the server invites
/// them; a refusal leaves them unsent.
pub open spec fn pas_depot(c: ClientVue, d: DepotVue) -> (ClientVue, SuiteDepotVue) {
    let etiquette = etiquette_de(c.compteur as nat);
    match d {
        DepotVue::Invite(octets) => {
            let (v, reste) = invitation(c.lecture.reste, etiquette);
            (
                ClientVue { lecture: LectureVue { reste, ..c.lecture }, ..c },
                match v {
                    None => SuiteDepotVue::Attendre(d),
                    Some(Ok(())) => SuiteDepotVue::Envoyer(
                        DepotVue::Reponse,
                        avec_fin_de_ligne(octets),
                    ),
                    Some(Err(e)) => SuiteDepotVue::Fini(Err(e)),
                },
            )
        },
        DepotVue::Reponse => {
            let (v, l) = lecture(c.lecture, etiquette);
            (
                ClientVue { lecture: l, ..c },
                match v {
                    None => SuiteDepotVue::Attendre(d),
                    Some(Ok(r)) => SuiteDepotVue::Fini(Ok(uid_depose(r.texte))),
                    Some(Err(e)) => SuiteDepotVue::Fini(Err(e)),
                },
            )
        },
    }
}

impl Client {
    /// Starts the deposit of a message in a folder, with its original flags and
    /// internal date: the command that announces it is to be sent.
    pub fn deposer(
        &mut self,
        chemin: &str,
        drapeaux: &[String],
        date_interne: &str,
        octets: Vec<u8>,
    ) -> (r: SuiteDepot)
        requires
            old(self)@.compteur < u32::MAX,
        ensures
            r@ == SuiteDepotVue::Envoyer(
                DepotVue::Invite(octets@),
                encode_utf8(
                    ligne_commande(
                        etiquette_de((old(self)@.compteur + 1) as nat),
                        cmd_append(
                            chemin@,
                            textes(drapeaux@),
                            date_interne@,
                            octets@.len() as nat,
                        ),
                    ),
                ),
            ),
            final(self)@ == commande_partie(old(self)@),
    {
        let texte = demande_depot(chemin, drapeaux, date_interne, octets.len());
        let ligne = self.commande(texte.as_str());
        SuiteDepot::Envoyer(Depot::Invite(octets), ligne)
    }

    /// Takes a deposit a step further, once what it had to send is sent, or once the
    /// server has sent more.
    pub fn suivre_depot(&mut self, depot: Depot) -> (r: SuiteDepot)
        ensures
            (final(self)@, r@) == pas_depot(old(self)@, depot@),
    {
        match depot {
            Depot::Invite(octets) => match self.invite() {
                None => SuiteDepot::Attendre(Depot::Invite(octets)),
                Some(Ok(())) => {
                    let mut octets = octets;
                    let ghost avant = octets@;
                    octets.push(13);
                    octets.push(10);
                    assert(octets@ =~= avec_fin_de_ligne(avant));
                    SuiteDepot::Envoyer(Depot::Reponse, octets)
                },
                Some(Err(e)) => SuiteDepot::Fini(Err(e)),
            },
            Depot::Reponse => match self.reponse() {
                None => SuiteDepot::Attendre(Depot::Reponse),
                Some(Ok(v)) => match analyser_appenduid(v.texte.as_str()) {
                    Some((_, uid)) => SuiteDepot::Fini(Ok(Some(uid))),
                    None => SuiteDepot::Fini(Ok(None)),
                },
                Some(Err(e)) => SuiteDepot::Fini(Err(e)),
            },
        }
    }
}

/// What a step of a deposit leads to.
#[verifier::opaque]
pub open spec fn issue_depot(c: ClientVue, d: DepotVue) -> SuiteDepotVue {
    pas_depot(c, d).1
}

/// What the steps of a deposit sent, one after the other.
pub open spec fn envoye(v: Seq<(ClientVue, DepotVue)>) -> Seq<u8>
    decreases v.len(),
{
    if v.len() == 0 {
        Seq::empty()
    } else {
        envoye(v.drop_last()) + match issue_depot(v.last().0, v.last().1) {
            SuiteDepotVue::Envoyer(_, octets) => octets,
            _ => Seq::empty(),
        }
    }
}

/// Whether steps follow each other in the deposit of a message, once the command that
/// announces it is sent. Between two of them the server may send more.
pub open spec fn depot_suivi(v: Seq<(ClientVue, DepotVue)>, octets: Seq<u8>) -> bool {
    &&& v.len() > 0 ==> v[0].1 == DepotVue::Invite(octets)
    &&& forall|k: int|
        0 <= k < v.len() - 1 ==> match issue_depot((#[trigger] v[k]).0, v[k].1) {
            SuiteDepotVue::Envoyer(d, _) => v[k + 1].1 == d,
            SuiteDepotVue::Attendre(d) => v[k + 1].1 == d,
            SuiteDepotVue::Fini(_) => false,
        }
}

/// Whether the server has invited the bytes of a message at a step of its deposit.
#[verifier::opaque]
pub open spec fn invitee(c: ClientVue, d: DepotVue) -> bool {
    d is Invite && match invitation(c.lecture.reste, etiquette_de(c.compteur as nat)).0 {
        Some(Ok(_)) => true,
        _ => false,
    }
}

/// What a step of a deposit leads to.
proof fn lemme_issue_depot(c: ClientVue, d: DepotVue)
    ensures
        match issue_depot(c, d) {
            SuiteDepotVue::Envoyer(s, o) => {
                &&& s == DepotVue::Reponse
                &&& d matches DepotVue::Invite(x) && o == avec_fin_de_ligne(x)
                &&& invitee(c, d)
            },
            SuiteDepotVue::Attendre(s) => s == d,
            SuiteDepotVue::Fini(r) => r is Ok ==> d is Reponse,
        },
{
    reveal(issue_depot);
    reveal(invitee);
}

/// The bytes of a message, unchanged and followed by the end of a line, are sent once
/// the server has invited them, and never before: where it refuses the announcement,
/// nothing of them is. A deposit that succeeds has sent them.
pub proof fn loi_depot_sur_invitation(v: Seq<(ClientVue, DepotVue)>, octets: Seq<u8>)
    requires
        v.len() > 0,
        depot_suivi(v, octets),
    ensures
        ({
            let sorti = envoye(v.drop_last());
            match v.last().1 {
                DepotVue::Invite(o) => o == octets && sorti == Seq::<u8>::empty(),
                DepotVue::Reponse => {
                    &&& sorti == avec_fin_de_ligne(octets)
                    &&& exists|k: int|
                        0 <= k < v.len() - 1 && invitee((#[trigger] v[k]).0, v[k].1)
                },
            }
        }),
        issue_depot(v.last().0, v.last().1) matches SuiteDepotVue::Fini(Ok(_)) ==> v.last().1
            is Reponse,
        issue_depot(v.last().0, v.last().1) matches SuiteDepotVue::Envoyer(_, o) ==> invitee(
            v.last().0,
            v.last().1,
        ) && o == avec_fin_de_ligne(octets),
    decreases v.len(),
{
    lemme_issue_depot(v.last().0, v.last().1);
    if v.len() > 1 {
        let w = v.drop_last();
        assert(w.last() == v[v.len() - 2]);
        assert(depot_suivi(w, octets)) by {
            assert forall|k: int| 0 <= k < w.len() - 1 implies match issue_depot(
                (#[trigger] w[k]).0,
                w[k].1,
            ) {
                SuiteDepotVue::Envoyer(d, _) => w[k + 1].1 == d,
                SuiteDepotVue::Attendre(d) => w[k + 1].1 == d,
                SuiteDepotVue::Fini(_) => false,
            } by {
                assert(v[k] == w[k] && v[k + 1] == w[k + 1]);
            }
        }
        loi_depot_sur_invitation(w, octets);
        let a = w.last();
        lemme_issue_depot(a.0, a.1);
        match issue_depot(a.0, a.1) {
            SuiteDepotVue::Envoyer(_, o) => {
                assert(invitee(v[v.len() - 2].0, v[v.len() - 2].1));
                assert(envoye(w) =~= o);
            },
            _ => {
                assert(envoye(w) =~= envoye(w.drop_last()));
                if a.1 is Reponse {
                    let k = choose|k: int|
                        0 <= k < w.len() - 1 && invitee((#[trigger] w[k]).0, w[k].1);
                    assert(invitee(v[k].0, v[k].1));
                }
            },
        }
    } else {
        assert(v.drop_last() =~= Seq::empty());
    }
}

} // verus!
