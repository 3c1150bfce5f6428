//! Reading of IMAP responses, without network or state.
//!
//! The transport reads a whole response and puts a mark in the place of each
//! literal, whose bytes it keeps aside: what is left is text, one logical line
//! per response, which the functions of this module read.

use vstd::prelude::*;
use vstd::slice::{slice_subrange, slice_to_vec};
use vstd::string::StrSliceExecFns;

use crate::nombre::{entier, lire_u32, lire_u64, lire_usize};
use crate::texte::{
    apres_prefixe, apres_premier, avant_suffixe, caracteres, chaine, chaines, chercher,
    contient_texte, copier_textes, coupe, couper, debute, decouper_lignes, decouper_mots,
    dernier_champ, egal, egal_sans_casse, indice, lemme_lignes_jointes, lemme_position,
    lemme_sans_retour, lignes, lire_dernier_champ, minuscules, mots, oter_prefixe, oter_suffixe,
    rogner, rogner_debut, sans_blancs, sans_blancs_debut, sans_retour, suite_de, textes, vues_car,
};
use crate::utf7::nom_decode;

pub use crate::dates::secondes_date_interne;
pub use crate::ensembles::{analyser_vanished, ensemble_uid, lire_ensemble};
pub use crate::utf7::decoder_utf7;

verus! {

/// Mark put in the place of a literal: a character that the protocol never uses,
/// then the index of the literal, then the same character.
pub const MARQUEUR: char = '\u{1}';

// ------------------------------------------------------------------------- types

/// A folder as `LIST` announces it.
#[derive(Debug, PartialEq, Eq)]
pub struct Dossier {
    /// Full path, as given to `SELECT`.
    pub chemin: String,
    /// Separator of the hierarchy.
    pub separateur: String,
    /// Attributes: `\HasChildren`, `\Sent`, `\Trash`...
    pub attributs: Vec<String>,
}

/// What a folder holds.
pub struct DossierVue {
    pub chemin: Seq<char>,
    pub separateur: Seq<char>,
    pub attributs: Seq<Seq<char>>,
}

impl View for Dossier {
    type V = DossierVue;

    open spec fn view(&self) -> DossierVue {
        DossierVue {
            chemin: self.chemin@,
            separateur: self.separateur@,
            attributs: textes(self.attributs@),
        }
    }
}

impl Clone for Dossier {
    fn clone(&self) -> (r: Self)
        ensures
            r@ == self@,
    {
        Dossier {
            chemin: self.chemin.clone(),
            separateur: self.separateur.clone(),
            attributs: copier_textes(&self.attributs),
        }
    }
}

/// State of a folder after `SELECT`: what it takes to follow its synchronisation.
#[derive(Debug, Clone, Copy, PartialEq, Eq, Structural)]
pub struct EtatDossier {
    pub messages: u32,
    pub uid_validity: u32,
    pub uid_next: u32,
    pub highest_mod_seq: u64,
}

/// The state of a folder of which nothing is known.
pub open spec fn etat_vide() -> EtatDossier {
    EtatDossier { messages: 0, uid_validity: 0, uid_next: 0, highest_mod_seq: 0 }
}

impl Default for EtatDossier {
    fn default() -> (r: Self)
        ensures
            r == etat_vide(),
    {
        EtatDossier { messages: 0, uid_validity: 0, uid_next: 0, highest_mod_seq: 0 }
    }
}

/// Headers of a message, as an index `FETCH` gives them.
#[derive(Debug, PartialEq, Eq)]
pub struct Entete {
    pub uid: u32,
    pub taille: u32,
    pub drapeaux: Vec<String>,
    pub date_interne: String,
    /// Raw header block.
    pub brut: Vec<u8>,
}

/// What the headers of a message hold.
pub struct EnteteVue {
    pub uid: u32,
    pub taille: u32,
    pub drapeaux: Seq<Seq<char>>,
    pub date_interne: Seq<char>,
    pub brut: Seq<u8>,
}

impl View for Entete {
    type V = EnteteVue;

    open spec fn view(&self) -> EnteteVue {
        EnteteVue {
            uid: self.uid,
            taille: self.taille,
            drapeaux: textes(self.drapeaux@),
            date_interne: self.date_interne@,
            brut: self.brut@,
        }
    }
}

impl Clone for Entete {
    fn clone(&self) -> (r: Self)
        ensures
            r@ == self@,
    {
        Entete {
            uid: self.uid,
            taille: self.taille,
            drapeaux: copier_textes(&self.drapeaux),
            date_interne: self.date_interne.clone(),
            brut: slice_to_vec(self.brut.as_slice()),
        }
    }
}

impl Default for Entete {
    fn default() -> (r: Self)
        ensures
            r@ == (EnteteVue {
                uid: 0,
                taille: 0,
                drapeaux: Seq::empty(),
                date_interne: Seq::empty(),
                brut: Seq::empty(),
            }),
    {
        let r = Entete {
            uid: 0,
            taille: 0,
            drapeaux: Vec::new(),
            date_interne: String::new(),
            brut: Vec::new(),
        };
        assert(r@.drapeaux =~= Seq::empty());
        r
    }
}

/// Counters of a folder, as `STATUS` gives them.
#[derive(Debug, PartialEq, Eq)]
pub struct Statut {
    pub chemin: String,
    pub messages: u32,
    pub non_lus: u32,
}

/// What the counters of a folder hold.
pub struct StatutVue {
    pub chemin: Seq<char>,
    pub messages: u32,
    pub non_lus: u32,
}

impl View for Statut {
    type V = StatutVue;

    open spec fn view(&self) -> StatutVue {
        StatutVue { chemin: self.chemin@, messages: self.messages, non_lus: self.non_lus }
    }
}

impl Clone for Statut {
    fn clone(&self) -> (r: Self)
        ensures
            r@ == self@,
    {
        Statut { chemin: self.chemin.clone(), messages: self.messages, non_lus: self.non_lus }
    }
}

impl Default for Statut {
    fn default() -> (r: Self)
        ensures
            r@ == (StatutVue { chemin: Seq::empty(), messages: 0, non_lus: 0 }),
    {
        Statut { chemin: String::new(), messages: 0, non_lus: 0 }
    }
}

/// What some folders hold.
pub open spec fn vues_dossiers(v: Seq<Dossier>) -> Seq<DossierVue> {
    v.map_values(|d: Dossier| d@)
}

/// What some header lines hold.
pub open spec fn vues_entetes(v: Seq<Entete>) -> Seq<EnteteVue> {
    v.map_values(|e: Entete| e@)
}

/// What some counters hold.
pub open spec fn vues_statuts(v: Seq<Statut>) -> Seq<StatutVue> {
    v.map_values(|s: Statut| s@)
}

/// What some literals hold.
pub open spec fn vues_octets(v: Seq<Vec<u8>>) -> Seq<Seq<u8>> {
    v.map_values(|o: Vec<u8>| o@)
}

// ---------------------------------------------------------------- folder properties

/// The last segment of a path.
pub open spec fn segment(chemin: Seq<char>, separateur: Seq<char>) -> Seq<char> {
    if separateur.len() > 0 {
        dernier_champ(chemin, separateur[0])
    } else {
        chemin
    }
}

/// How many times a character occurs in a text.
pub open spec fn compte_de(s: Seq<char>, c: char) -> nat
    decreases s.len(),
{
    if s.len() == 0 {
        0
    } else {
        compte_de(s.drop_last(), c) + if s.last() == c {
            1nat
        } else {
            0nat
        }
    }
}

/// The depth of a path in the tree.
pub open spec fn profondeur_de(chemin: Seq<char>, separateur: Seq<char>) -> nat {
    if separateur.len() > 0 {
        compte_de(chemin, separateur[0])
    } else {
        0
    }
}

/// Whether an attribute says that a folder holds no message.
pub open spec fn attribut_sans_messages(a: Seq<char>) -> bool {
    minuscules(a) == minuscules("\\Noselect"@) || minuscules(a) == minuscules("\\NonExistent"@)
}

/// Whether the attributes of a folder let it be opened.
pub open spec fn ouvrable(attributs: Seq<Seq<char>>) -> bool {
    forall|i: int| 0 <= i < attributs.len() ==> !attribut_sans_messages(#[trigger] attributs[i])
}

/// The special use that an attribute declares.
pub open spec fn role_attribut(a: Seq<char>) -> Option<Seq<char>> {
    if a == "\\Sent"@ {
        Some("Sent"@)
    } else if a == "\\Drafts"@ {
        Some("Drafts"@)
    } else if a == "\\Trash"@ {
        Some("Trash"@)
    } else if a == "\\Junk"@ {
        Some("Junk"@)
    } else if a == "\\Archive"@ {
        Some("Archive"@)
    } else if a == "\\All"@ {
        Some("All"@)
    } else if a == "\\Flagged"@ {
        Some("Flagged"@)
    } else {
        None
    }
}

/// The special use of a folder: the first that its attributes declare.
pub open spec fn role_de(attributs: Seq<Seq<char>>) -> Option<Seq<char>>
    decreases attributs.len(),
{
    if attributs.len() == 0 {
        None
    } else {
        match role_attribut(attributs[0]) {
            Some(r) => Some(r),
            None => role_de(attributs.drop_first()),
        }
    }
}

fn lire_role(a: &str) -> (r: Option<&'static str>)
    ensures
        match r {
            Some(t) => role_attribut(a@) == Some(t@),
            None => role_attribut(a@) is None,
        },
{
    if egal(a, "\\Sent") {
        Some("Sent")
    } else if egal(a, "\\Drafts") {
        Some("Drafts")
    } else if egal(a, "\\Trash") {
        Some("Trash")
    } else if egal(a, "\\Junk") {
        Some("Junk")
    } else if egal(a, "\\Archive") {
        Some("Archive")
    } else if egal(a, "\\All") {
        Some("All")
    } else if egal(a, "\\Flagged") {
        Some("Flagged")
    } else {
        None
    }
}

impl Dossier {
    /// Displayed name: the last segment of the path, decoded from the modified
    /// UTF-7 in which the server carries accented names.
    pub fn nom(&self) -> (r: String)
        ensures
            r@ == nom_decode(segment(self@.chemin, self@.separateur)),
    {
        let sep = caracteres(self.separateur.as_str());
        let chemin = caracteres(self.chemin.as_str());
        let s: &[char] = if sep.len() > 0 {
            lire_dernier_champ(chemin.as_slice(), sep[0])
        } else {
            chemin.as_slice()
        };
        let t = chaine(s);
        decoder_utf7(t.as_str())
    }

    /// False for a node of the hierarchy that holds no message: it is shown, but
    /// it is not opened and receives nothing.
    pub fn selectionnable(&self) -> (r: bool)
        ensures
            r == ouvrable(self@.attributs),
    {
        for i in 0..self.attributs.len()
            invariant
                forall|j: int| 0 <= j < i ==> !attribut_sans_messages(#[trigger] self.attributs@[j]@),
        {
            let a = self.attributs[i].as_str();
            if egal_sans_casse(a, "\\Noselect") || egal_sans_casse(a, "\\NonExistent") {
                assert(attribut_sans_messages(self@.attributs[i as int]));
                return false;
            }
        }
        assert forall|j: int| 0 <= j < self@.attributs.len() implies !attribut_sans_messages(
            #[trigger] self@.attributs[j],
        ) by {
            assert(self@.attributs[j] == self.attributs@[j]@);
        }
        true
    }

    /// Depth in the tree, 0 for a folder of the first level.
    pub fn profondeur(&self) -> (r: usize)
        ensures
            r == profondeur_de(self@.chemin, self@.separateur),
    {
        let sep = caracteres(self.separateur.as_str());
        if sep.len() == 0 {
            return 0;
        }
        let chemin = caracteres(self.chemin.as_str());
        let mut n: usize = 0;
        for i in 0..chemin.len()
            invariant
                chemin@ == self.chemin@,
                sep@ == self.separateur@,
                sep@.len() > 0,
                n <= i,
                n == compte_de(chemin@.take(i as int), sep@[0]),
        {
            proof {
                assert(chemin@.take(i + 1).drop_last() =~= chemin@.take(i as int));
            }
            if chemin[i] == sep[0] {
                n += 1;
            }
        }
        assert(chemin@.take(chemin@.len() as int) =~= chemin@);
        n
    }

    /// Special use of the folder, after `SPECIAL-USE`.
    pub fn role(&self) -> (r: Option<&str>)
        ensures
            match r {
                Some(t) => role_de(self@.attributs) == Some(t@),
                None => role_de(self@.attributs) is None,
            },
    {
        let ghost att = self@.attributs;
        proof {
            assert(att.subrange(0, att.len() as int) =~= att);
        }
        for i in 0..self.attributs.len()
            invariant
                att == self@.attributs,
                role_de(att) == role_de(att.subrange(i as int, att.len() as int)),
        {
            proof {
                assert(att.subrange(i as int, att.len() as int).drop_first() =~= att.subrange(
                    i + 1,
                    att.len() as int,
                ));
                assert(att.subrange(i as int, att.len() as int)[0] == self.attributs@[i as int]@);
            }
            if let Some(t) = lire_role(self.attributs[i].as_str()) {
                return Some(t);
            }
        }
        None
    }
}

impl Entete {
    /// Whether the message was read.
    pub fn lu(&self) -> (r: bool)
        ensures
            r == self@.drapeaux.contains("\\Seen"@),
    {
        contient_texte(&self.drapeaux, "\\Seen")
    }

    /// Whether the message was answered.
    pub fn repondu(&self) -> (r: bool)
        ensures
            r == self@.drapeaux.contains("\\Answered"@),
    {
        contient_texte(&self.drapeaux, "\\Answered")
    }
}

// ---------------------------------------------------------------------- fragments

/// The index at which a group closes, reading from `i` with `p` groups open.
pub open spec fn fermeture(s: Seq<char>, i: int, p: int) -> Option<int>
    decreases s.len() - i,
{
    if i < 0 || i >= s.len() {
        None
    } else if s[i] == '(' {
        fermeture(s, i + 1, p + 1)
    } else if s[i] == ')' {
        if p == 1 {
            Some(i)
        } else {
            fermeture(s, i + 1, p - 1)
        }
    } else {
        fermeture(s, i + 1, p)
    }
}

/// The first group in parentheses, and what follows it.
pub open spec fn groupe(s: Seq<char>) -> Option<(Seq<char>, Seq<char>)> {
    match s.index_of_first('(') {
        None => None,
        Some(d) => match fermeture(s, d, 0) {
            None => None,
            Some(f) => Some((s.subrange(d + 1, f), s.subrange(f + 1, s.len() as int))),
        },
    }
}

/// Finds the first group in parentheses: the indices of its two ends.
fn bornes_groupe(s: &[char]) -> (r: Option<(usize, usize)>)
    ensures
        match r {
            Some((d, f)) => {
                &&& d < f < s@.len()
                &&& groupe(s@) == Some(
                    (s@.subrange(d + 1, f as int), s@.subrange(f + 1, s@.len() as int)),
                )
            },
            None => groupe(s@) is None,
        },
{
    let n: usize = s.len();
    match indice(s, '(') {
        None => None,
        Some(d) => {
            proof {
                s@.index_of_first_ensures('(');
            }
            let mut p: usize = 0;
            let mut i: usize = d;
            while i < n
                invariant
                    n == s@.len(),
                    d <= i <= n,
                    p <= i - d,
                    i > d ==> p >= 1,
                    d < n,
                    s@[d as int] == '(',
                    s@.index_of_first('(') == Some(d as int),
                    fermeture(s@, d as int, 0) == fermeture(s@, i as int, p as int),
                decreases n - i,
            {
                if s[i] == '(' {
                    p += 1;
                } else if s[i] == ')' {
                    if p == 1 {
                        return Some((d, i));
                    }
                    p -= 1;
                }
                i += 1;
            }
            None
        },
    }
}

/// The first group in parentheses, and what follows it.
pub fn groupe_car<'a>(s: &'a [char]) -> (r: Option<(&'a [char], &'a [char])>)
    ensures
        match r {
            Some((a, b)) => groupe(s@) == Some((a@, b@)),
            None => groupe(s@) is None,
        },
{
    let n: usize = s.len();
    match bornes_groupe(s) {
        Some((d, f)) => Some((slice_subrange(s, d + 1, f), slice_subrange(s, f + 1, n))),
        None => None,
    }
}

/// Content of the first group in parentheses, and what follows it.
pub fn entre_parentheses(texte: &str) -> (r: Option<(String, &str)>)
    ensures
        match r {
            Some((a, b)) => groupe(texte@) == Some((a@, b@)),
            None => groupe(texte@) is None,
        },
{
    let c = caracteres(texte);
    let n: usize = c.len();
    match bornes_groupe(c.as_slice()) {
        Some((d, f)) => Some(
            (chaine(slice_subrange(c.as_slice(), d + 1, f)), texte.substring_char(f + 1, n)),
        ),
        None => None,
    }
}

/// The value of a quoted string from `i` on, and what follows its closing quote.
pub open spec fn cite(s: Seq<char>, i: int, echappe: bool, valeur: Seq<char>) -> Option<
    (Seq<char>, Seq<char>),
>
    decreases s.len() - i,
{
    if i < 0 || i >= s.len() {
        None
    } else if echappe {
        cite(s, i + 1, false, valeur.push(s[i]))
    } else if s[i] == '\\' {
        cite(s, i + 1, true, valeur)
    } else if s[i] == '"' {
        Some((valeur, s.subrange(i + 1, s.len() as int)))
    } else {
        cite(s, i + 1, false, valeur.push(s[i]))
    }
}

/// The first token of a text, and what follows it: a quoted string, or a run
/// without spaces.
pub open spec fn jeton_de(s: Seq<char>) -> Option<(Seq<char>, Seq<char>)> {
    let t = sans_blancs_debut(s);
    if t.len() > 0 && t[0] == '"' {
        cite(t, 1, false, Seq::empty())
    } else {
        let fin = match t.index_of_first(' ') {
            Some(i) => i,
            None => t.len() as int,
        };
        if fin == 0 {
            None
        } else {
            Some((t.subrange(0, fin), t.subrange(fin, t.len() as int)))
        }
    }
}

/// First token: a quoted string, in which a backslash protects the character
/// that follows, or a run without spaces.
pub fn jeton<'a>(texte: &'a [char]) -> (r: Option<(Vec<char>, &'a [char])>)
    ensures
        match r {
            Some((a, b)) => jeton_de(texte@) == Some((a@, b@)),
            None => jeton_de(texte@) is None,
        },
{
    let t = rogner_debut(texte);
    let n: usize = t.len();
    if n > 0 && t[0] == '"' {
        let mut valeur: Vec<char> = Vec::new();
        let mut echappe = false;
        let mut i: usize = 1;
        while i < n
            invariant
                n == t@.len(),
                t@ == sans_blancs_debut(texte@),
                t@[0] == '"',
                1 <= i <= n,
                cite(t@, 1, false, Seq::empty()) == cite(t@, i as int, echappe, valeur@),
            decreases n - i,
        {
            let c = t[i];
            if echappe {
                valeur.push(c);
                echappe = false;
            } else if c == '\\' {
                echappe = true;
            } else if c == '"' {
                return Some((valeur, slice_subrange(t, i + 1, n)));
            } else {
                valeur.push(c);
            }
            i += 1;
        }
        return None;
    }
    let fin: usize = match indice(t, ' ') {
        Some(i) => i,
        None => n,
    };
    if fin == 0 {
        return None;
    }
    Some((slice_to_vec(slice_subrange(t, 0, fin)), slice_subrange(t, fin, n)))
}

/// The length of the run of digits that starts a text.
pub open spec fn longueur_chiffres(s: Seq<char>) -> int
    decreases s.len(),
{
    if s.len() == 0 || !('0' <= s[0] <= '9') {
        0
    } else {
        1 + longueur_chiffres(s.drop_first())
    }
}

/// The number that follows a key, within 64 bits.
pub open spec fn nombre_suivant(s: Seq<char>, clef: Seq<char>) -> Option<nat> {
    match apres_premier(s, clef) {
        Some(reste) => entier(reste.subrange(0, longueur_chiffres(reste)), u64::MAX as nat),
        None => None,
    }
}

/// Reads the number that follows a key.
pub fn nombre_apres(texte: &[char], clef: &str) -> (r: Option<u64>)
    ensures
        match r {
            Some(v) => nombre_suivant(texte@, clef@) == Some(v as nat),
            None => nombre_suivant(texte@, clef@) is None,
        },
{
    match suite_de(texte, clef) {
        None => None,
        Some(reste) => {
            let mut i: usize = 0;
            assert(reste@.subrange(0, reste@.len() as int) =~= reste@);
            while i < reste.len() && '0' <= reste[i] && reste[i] <= '9'
                invariant
                    i <= reste@.len(),
                    longueur_chiffres(reste@) == i + longueur_chiffres(
                        reste@.subrange(i as int, reste@.len() as int),
                    ),
                decreases reste@.len() - i,
            {
                assert(reste@.subrange(i as int, reste@.len() as int).drop_first()
                    =~= reste@.subrange(i + 1, reste@.len() as int));
                i += 1;
            }
            lire_u64(slice_subrange(reste, 0, i))
        },
    }
}

/// The low 32 bits of the number that follows a key, zero where there is none.
pub open spec fn nombre32_suivant(s: Seq<char>, clef: Seq<char>) -> u32 {
    (nombre_suivant(s, clef).unwrap_or(0) % 0x1_0000_0000) as u32
}

fn nombre32_apres(texte: &[char], clef: &str) -> (r: u32)
    ensures
        r == nombre32_suivant(texte@, clef@),
{
    match nombre_apres(texte, clef) {
        Some(v) => (v % 0x1_0000_0000) as u32,
        None => 0,
    }
}

/// The value of a response code in brackets: `[UIDNEXT 11]` gives `11`.
pub open spec fn code_valeur(ligne: Seq<char>, clef: Seq<char>) -> Option<Seq<char>> {
    match apres_premier(ligne, seq!['['] + clef) {
        None => None,
        Some(reste) => match reste.index_of_first(']') {
            Some(f) => Some(sans_blancs(reste.subrange(0, f))),
            None => None,
        },
    }
}

/// Reads the value of a response code in brackets.
pub fn valeur_de_code<'a>(ligne: &'a [char], clef: &str) -> (r: Option<&'a [char]>)
    ensures
        match r {
            Some(v) => code_valeur(ligne@, clef@) == Some(v@),
            None => code_valeur(ligne@, clef@) is None,
        },
{
    let mut m: Vec<char> = Vec::new();
    m.push('[');
    crate::texte::ajouter(&mut m, clef);
    assert(m@ =~= seq!['['] + clef@);
    proof {
        lemme_position(ligne@, m@, 0);
    }
    let n: usize = ligne.len();
    match chercher(ligne, m.as_slice()) {
        None => None,
        Some(i) => {
            let reste = slice_subrange(ligne, i + m.len(), n);
            match indice(reste, ']') {
                Some(f) => Some(rogner(slice_subrange(reste, 0, f))),
                None => None,
            }
        },
    }
}

// --------------------------------------------------------------------------- LIST

/// The folder that a `LIST` line announces.
pub open spec fn dossier_de_ligne(ligne: Seq<char>) -> Option<DossierVue> {
    match apres_prefixe(ligne, "* LIST "@) {
        None => None,
        Some(reste) => match groupe(reste) {
            None => None,
            Some((attributs, reste)) => match jeton_de(reste) {
                None => None,
                Some((separateur, reste)) => match jeton_de(reste) {
                    None => None,
                    Some((chemin, _)) => Some(
                        DossierVue { chemin, separateur, attributs: mots(attributs) },
                    ),
                },
            },
        },
    }
}

/// Reads a `LIST` line: `* LIST (attributes) "separator" "path"`.
pub fn analyser_list(ligne: &str) -> (r: Option<Dossier>)
    ensures
        match r {
            Some(d) => dossier_de_ligne(ligne@) == Some(d@),
            None => dossier_de_ligne(ligne@) is None,
        },
{
    let c = caracteres(ligne);
    match oter_prefixe(c.as_slice(), "* LIST ") {
        None => None,
        Some(reste) => match groupe_car(reste) {
            None => None,
            Some((attributs, reste)) => match jeton(reste) {
                None => None,
                Some((separateur, reste)) => match jeton(reste) {
                    None => None,
                    Some((chemin, _)) => {
                        let m = decouper_mots(attributs);
                        let d = Dossier {
                            chemin: chaine(chemin.as_slice()),
                            separateur: chaine(separateur.as_slice()),
                            attributs: chaines(&m),
                        };
                        Some(d)
                    },
                },
            },
        },
    }
}

/// The way a `LIST` line is read.
pub open spec fn lecteur_list() -> spec_fn(Seq<char>) -> Option<DossierVue> {
    |l: Seq<char>| dossier_de_ligne(l)
}

/// Reads every `LIST` line of a response, in order.
pub fn analyser_listes(reponse: &str) -> (r: Vec<Dossier>)
    ensures
        vues_dossiers(r@) == lignes(reponse@).filter_map(lecteur_list()),
{
    let c = caracteres(reponse);
    let ls = decouper_lignes(c.as_slice());
    let ghost tout = lignes(reponse@);
    let mut r: Vec<Dossier> = Vec::new();
    for i in 0..ls.len()
        invariant
            tout == vues_car(ls@),
            vues_dossiers(r@) =~= tout.take(i as int).filter_map(lecteur_list()),
    {
        let l = chaine(ls[i].as_slice());
        proof {
            tout.lemma_filter_map_take_succ(lecteur_list(), i as int);
            assert(tout[i as int] == l@);
        }
        if let Some(d) = analyser_list(l.as_str()) {
            let ghost avant = r@;
            r.push(d);
            assert(vues_dossiers(r@) =~= vues_dossiers(avant).push(d@));
        }
    }
    assert(tout.take(tout.len() as int) =~= tout);
    r
}

// ------------------------------------------------------------------------- SELECT

/// The 32-bit number that a text writes, zero where it writes none.
pub open spec fn nombre32(s: Seq<char>) -> u32 {
    entier(s, u32::MAX as nat).unwrap_or(0) as u32
}

/// The 64-bit number that a text writes, zero where it writes none.
pub open spec fn nombre64(s: Seq<char>) -> u64 {
    entier(s, u64::MAX as nat).unwrap_or(0) as u64
}

/// What a line of a `SELECT` response adds to the state of the folder.
pub open spec fn note_ligne(e: EtatDossier, ligne: Seq<char>) -> EtatDossier {
    let l = sans_blancs(ligne);
    EtatDossier {
        messages: match apres_prefixe(l, "* "@) {
            Some(reste) => match avant_suffixe(reste, " EXISTS"@) {
                Some(n) => nombre32(sans_blancs(n)),
                None => e.messages,
            },
            None => e.messages,
        },
        uid_validity: match code_valeur(l, "UIDVALIDITY "@) {
            Some(v) => nombre32(v),
            None => e.uid_validity,
        },
        uid_next: match code_valeur(l, "UIDNEXT "@) {
            Some(v) => nombre32(v),
            None => e.uid_next,
        },
        highest_mod_seq: match code_valeur(l, "HIGHESTMODSEQ "@) {
            Some(v) => nombre64(v),
            None => e.highest_mod_seq,
        },
    }
}

/// The state that the lines of a `SELECT` response announce: for each value, the
/// last line that gives it has the word.
pub open spec fn etat_de_lignes(v: Seq<Seq<char>>) -> EtatDossier
    decreases v.len(),
{
    if v.len() == 0 {
        etat_vide()
    } else {
        note_ligne(etat_de_lignes(v.drop_last()), v.last())
    }
}

fn ou_zero32(v: Option<u32>) -> (r: u32)
    ensures
        r == v.unwrap_or(0),
{
    match v {
        Some(n) => n,
        None => 0,
    }
}

fn ou_zero64(v: Option<u64>) -> (r: u64)
    ensures
        r == v.unwrap_or(0),
{
    match v {
        Some(n) => n,
        None => 0,
    }
}

/// Reads the state of a folder in the untagged responses of a `SELECT`.
pub fn analyser_select(reponse: &str) -> (r: EtatDossier)
    ensures
        r == etat_de_lignes(lignes(reponse@)),
{
    let c = caracteres(reponse);
    let ls = decouper_lignes(c.as_slice());
    let ghost tout = lignes(reponse@);
    let mut etat = EtatDossier::default();
    for i in 0..ls.len()
        invariant
            tout == vues_car(ls@),
            etat == etat_de_lignes(tout.take(i as int)),
    {
        let l = rogner(ls[i].as_slice());
        let ghost avant = etat;
        proof {
            assert(tout.take(i + 1).drop_last() =~= tout.take(i as int));
            assert(tout.take(i + 1).last() == ls@[i as int]@);
        }
        if let Some(reste) = oter_prefixe(l, "* ") {
            if let Some(n) = oter_suffixe(reste, " EXISTS") {
                etat.messages = ou_zero32(lire_u32(rogner(n)));
            }
        }
        // The other values come in response codes: `* OK [UIDNEXT 11] ...`.
        if let Some(v) = valeur_de_code(l, "UIDVALIDITY ") {
            etat.uid_validity = ou_zero32(lire_u32(v));
        }
        if let Some(v) = valeur_de_code(l, "UIDNEXT ") {
            etat.uid_next = ou_zero32(lire_u32(v));
        }
        if let Some(v) = valeur_de_code(l, "HIGHESTMODSEQ ") {
            etat.highest_mod_seq = ou_zero64(lire_u64(v));
        }
        assert(etat == note_ligne(avant, ls@[i as int]@));
    }
    assert(tout.take(tout.len() as int) =~= tout);
    etat
}

// -------------------------------------------------------------------------- FETCH

/// The index of the first literal quoted in a fragment of a response.
pub open spec fn litteral_cite(s: Seq<char>) -> Option<nat> {
    match coupe(s, MARQUEUR) {
        None => None,
        Some((_, reste)) => match coupe(reste, MARQUEUR) {
            None => None,
            Some((n, _)) => entier(n, usize::MAX as nat),
        },
    }
}

fn lire_litteral(s: &[char]) -> (r: Option<usize>)
    ensures
        match r {
            Some(i) => litteral_cite(s@) == Some(i as nat),
            None => litteral_cite(s@) is None,
        },
{
    match couper(s, MARQUEUR) {
        None => None,
        Some((_, reste)) => match couper(reste, MARQUEUR) {
            None => None,
            Some((n, _)) => lire_usize(n),
        },
    }
}

/// Index of the first literal quoted in a fragment of a response.
pub fn indice_litteral(texte: &str) -> (r: Option<usize>)
    ensures
        match r {
            Some(i) => litteral_cite(texte@) == Some(i as nat),
            None => litteral_cite(texte@) is None,
        },
{
    let c = caracteres(texte);
    lire_litteral(c.as_slice())
}

/// The flags in a fragment of a response.
pub open spec fn drapeaux_de(corps: Seq<char>) -> Seq<Seq<char>> {
    match apres_premier(corps, "FLAGS "@) {
        Some(reste) => match groupe(reste) {
            Some((g, _)) => mots(g),
            None => Seq::empty(),
        },
        None => Seq::empty(),
    }
}

/// The internal date in a fragment of a response.
pub open spec fn date_de(corps: Seq<char>) -> Seq<char> {
    match apres_premier(corps, "INTERNALDATE "@) {
        Some(reste) => match jeton_de(reste) {
            Some((d, _)) => d,
            None => Seq::empty(),
        },
        None => Seq::empty(),
    }
}

/// The bytes of the first literal that a fragment quotes.
pub open spec fn brut_de(corps: Seq<char>, litteraux: Seq<Seq<u8>>) -> Seq<u8> {
    match litteral_cite(corps) {
        Some(i) => if i < litteraux.len() {
            litteraux[i as int]
        } else {
            Seq::empty()
        },
        None => Seq::empty(),
    }
}

/// The headers that a `FETCH` line gives; none where it gives no UID.
pub open spec fn entete_de_ligne(ligne: Seq<char>, litteraux: Seq<Seq<u8>>) -> Option<EnteteVue> {
    let l = sans_blancs(ligne);
    if !debute(l, "* "@) {
        None
    } else {
        match apres_premier(l, " FETCH "@) {
            None => None,
            Some(reste) => match groupe(reste) {
                None => None,
                Some((corps, _)) => {
                    let uid = nombre32_suivant(corps, "UID "@);
                    if uid == 0 {
                        None
                    } else {
                        Some(
                            EnteteVue {
                                uid,
                                taille: nombre32_suivant(corps, "RFC822.SIZE "@),
                                drapeaux: drapeaux_de(corps),
                                date_interne: date_de(corps),
                                brut: brut_de(corps, litteraux),
                            },
                        )
                    }
                },
            },
        }
    }
}

/// The way a `FETCH` line is read, given the literals of its response.
pub open spec fn lecteur_fetch(litteraux: Seq<Seq<u8>>) -> spec_fn(Seq<char>) -> Option<
    EnteteVue,
> {
    |l: Seq<char>| entete_de_ligne(l, litteraux)
}

/// The headers that a `FETCH` response gives.
pub open spec fn entetes_de(reponse: Seq<char>, litteraux: Seq<Seq<u8>>) -> Seq<EnteteVue> {
    lignes(reponse).filter_map(lecteur_fetch(litteraux))
}

fn lire_drapeaux(corps: &[char]) -> (r: Vec<String>)
    ensures
        textes(r@) == drapeaux_de(corps@),
{
    if let Some(reste) = suite_de(corps, "FLAGS ") {
        if let Some((g, _)) = groupe_car(reste) {
            let m = decouper_mots(g);
            return chaines(&m);
        }
    }
    let r: Vec<String> = Vec::new();
    assert(textes(r@) =~= Seq::empty());
    r
}

fn lire_date(corps: &[char]) -> (r: String)
    ensures
        r@ == date_de(corps@),
{
    if let Some(reste) = suite_de(corps, "INTERNALDATE ") {
        if let Some((d, _)) = jeton(reste) {
            return chaine(d.as_slice());
        }
    }
    String::new()
}

fn lire_brut(corps: &[char], litteraux: &[Vec<u8>]) -> (r: Vec<u8>)
    ensures
        r@ == brut_de(corps@, vues_octets(litteraux@)),
{
    if let Some(i) = lire_litteral(corps) {
        if i < litteraux.len() {
            return slice_to_vec(litteraux[i].as_slice());
        }
    }
    Vec::new()
}

fn lire_entete(ligne: &[char], litteraux: &[Vec<u8>]) -> (r: Option<Entete>)
    ensures
        match r {
            Some(e) => entete_de_ligne(ligne@, vues_octets(litteraux@)) == Some(e@),
            None => entete_de_ligne(ligne@, vues_octets(litteraux@)) is None,
        },
{
    let l = rogner(ligne);
    if oter_prefixe(l, "* ").is_none() {
        return None;
    }
    match suite_de(l, " FETCH ") {
        None => None,
        Some(reste) => match groupe_car(reste) {
            None => None,
            Some((corps, _)) => {
                let uid: u32 = nombre32_apres(corps, "UID ");
                if uid == 0 {
                    return None;
                }
                Some(
                    Entete {
                        uid,
                        taille: nombre32_apres(corps, "RFC822.SIZE "),
                        drapeaux: lire_drapeaux(corps),
                        date_interne: lire_date(corps),
                        brut: lire_brut(corps, litteraux),
                    },
                )
            },
        },
    }
}

/// Reads the `FETCH` lines of a response, in order. `litteraux` holds the blocks
/// that the transport set aside.
pub fn analyser_fetch(reponse: &str, litteraux: &[Vec<u8>]) -> (r: Vec<Entete>)
    ensures
        vues_entetes(r@) == entetes_de(reponse@, vues_octets(litteraux@)),
{
    let c = caracteres(reponse);
    let ls = decouper_lignes(c.as_slice());
    let ghost tout = lignes(reponse@);
    let ghost f = lecteur_fetch(vues_octets(litteraux@));
    let mut r: Vec<Entete> = Vec::new();
    for i in 0..ls.len()
        invariant
            tout == vues_car(ls@),
            f == lecteur_fetch(vues_octets(litteraux@)),
            vues_entetes(r@) =~= tout.take(i as int).filter_map(f),
    {
        proof {
            tout.lemma_filter_map_take_succ(f, i as int);
            assert(tout[i as int] == ls@[i as int]@);
        }
        if let Some(e) = lire_entete(ls[i].as_slice(), litteraux) {
            let ghost avant = r@;
            r.push(e);
            assert(vues_entetes(r@) =~= vues_entetes(avant).push(e@));
        }
    }
    assert(tout.take(tout.len() as int) =~= tout);
    r
}

// ------------------------------------------------------- STATUS, APPENDUID, SEARCH

/// The counters that a `STATUS` line gives.
pub open spec fn statut_de_ligne(ligne: Seq<char>) -> Option<StatutVue> {
    match apres_prefixe(sans_blancs(ligne), "* STATUS "@) {
        None => None,
        Some(reste) => match jeton_de(reste) {
            None => None,
            Some((chemin, reste)) => match groupe(reste) {
                None => None,
                Some((valeurs, _)) => Some(
                    StatutVue {
                        chemin,
                        messages: nombre32_suivant(valeurs, "MESSAGES "@),
                        non_lus: nombre32_suivant(valeurs, "UNSEEN "@),
                    },
                ),
            },
        },
    }
}

/// The way a `STATUS` line is read.
pub open spec fn lecteur_status() -> spec_fn(Seq<char>) -> Option<StatutVue> {
    |l: Seq<char>| statut_de_ligne(l)
}

/// The counters that a response gives.
pub open spec fn statuts_de(reponse: Seq<char>) -> Seq<StatutVue> {
    lignes(reponse).filter_map(lecteur_status())
}

fn lire_statut(ligne: &[char]) -> (r: Option<Statut>)
    ensures
        match r {
            Some(s) => statut_de_ligne(ligne@) == Some(s@),
            None => statut_de_ligne(ligne@) is None,
        },
{
    match oter_prefixe(rogner(ligne), "* STATUS ") {
        None => None,
        Some(reste) => match jeton(reste) {
            None => None,
            Some((chemin, reste)) => match groupe_car(reste) {
                None => None,
                Some((valeurs, _)) => Some(
                    Statut {
                        chemin: chaine(chemin.as_slice()),
                        messages: nombre32_apres(valeurs, "MESSAGES "),
                        non_lus: nombre32_apres(valeurs, "UNSEEN "),
                    },
                ),
            },
        },
    }
}

/// Counters of the `STATUS` lines of a response, in order.
pub fn analyser_status(reponse: &str) -> (r: Vec<Statut>)
    ensures
        vues_statuts(r@) == statuts_de(reponse@),
{
    let c = caracteres(reponse);
    let ls = decouper_lignes(c.as_slice());
    let ghost tout = lignes(reponse@);
    let mut r: Vec<Statut> = Vec::new();
    for i in 0..ls.len()
        invariant
            tout == vues_car(ls@),
            vues_statuts(r@) =~= tout.take(i as int).filter_map(lecteur_status()),
    {
        proof {
            tout.lemma_filter_map_take_succ(lecteur_status(), i as int);
            assert(tout[i as int] == ls@[i as int]@);
        }
        if let Some(s) = lire_statut(ls[i].as_slice()) {
            let ghost avant = r@;
            r.push(s);
            assert(vues_statuts(r@) =~= vues_statuts(avant).push(s@));
        }
    }
    assert(tout.take(tout.len() as int) =~= tout);
    r
}

/// The value of a code in the first line that carries it.
pub open spec fn premier_code(v: Seq<Seq<char>>, clef: Seq<char>) -> Option<Seq<char>>
    decreases v.len(),
{
    if v.len() == 0 {
        None
    } else {
        match code_valeur(v[0], clef) {
            Some(t) => Some(t),
            None => premier_code(v.drop_first(), clef),
        }
    }
}

/// The validity and the UID that an `APPENDUID` code gives.
pub open spec fn appenduid_de(reponse: Seq<char>) -> Option<(u32, u32)> {
    match premier_code(lignes(reponse), "APPENDUID "@) {
        None => None,
        Some(v) => {
            let m = mots(v);
            if m.len() < 2 {
                None
            } else {
                match (entier(m[0], u32::MAX as nat), entier(m[1], u32::MAX as nat)) {
                    (Some(a), Some(b)) => Some((a as u32, b as u32)),
                    _ => None,
                }
            }
        },
    }
}

fn lire_appenduid(v: &[char]) -> (r: Option<(u32, u32)>)
    ensures
        r == ({
            let m = mots(v@);
            if m.len() < 2 {
                None
            } else {
                match (entier(m[0], u32::MAX as nat), entier(m[1], u32::MAX as nat)) {
                    (Some(a), Some(b)) => Some((a as u32, b as u32)),
                    _ => None,
                }
            }
        }),
{
    let m = decouper_mots(v);
    assert(m@.len() == mots(v@).len());
    if m.len() < 2 {
        return None;
    }
    assert(mots(v@)[0] == m@[0]@ && mots(v@)[1] == m@[1]@);
    match (lire_u32(m[0].as_slice()), lire_u32(m[1].as_slice())) {
        (Some(a), Some(b)) => Some((a, b)),
        _ => None,
    }
}

/// UID given by the target of an `APPEND`:
/// `OK [APPENDUID 1789577698 12]` gives `(1789577698, 12)`.
pub fn analyser_appenduid(reponse: &str) -> (r: Option<(u32, u32)>)
    ensures
        r == appenduid_de(reponse@),
{
    let c = caracteres(reponse);
    let ls = decouper_lignes(c.as_slice());
    let ghost tout = lignes(reponse@);
    proof {
        assert(tout.subrange(0, tout.len() as int) =~= tout);
    }
    for i in 0..ls.len()
        invariant
            tout == vues_car(ls@),
            tout == lignes(reponse@),
            premier_code(tout, "APPENDUID "@) == premier_code(
                tout.subrange(i as int, tout.len() as int),
                "APPENDUID "@,
            ),
    {
        proof {
            assert(tout.subrange(i as int, tout.len() as int).drop_first() =~= tout.subrange(
                i + 1,
                tout.len() as int,
            ));
            assert(tout.subrange(i as int, tout.len() as int)[0] == ls@[i as int]@);
        }
        if let Some(v) = valeur_de_code(ls[i].as_slice(), "APPENDUID ") {
            return lire_appenduid(v);
        }
    }
    None
}

/// The way a word of a `SEARCH` line is read.
pub open spec fn lecteur_uid() -> spec_fn(Seq<char>) -> Option<u32> {
    |m: Seq<char>|
        match entier(m, u32::MAX as nat) {
            Some(n) => Some(n as u32),
            None => None,
        }
}

/// The UIDs that a `SEARCH` line gives.
pub open spec fn search_de_ligne(ligne: Seq<char>) -> Seq<u32> {
    match apres_prefixe(sans_blancs(ligne), "* SEARCH"@) {
        None => Seq::empty(),
        Some(reste) => mots(reste).filter_map(lecteur_uid()),
    }
}

/// The way a line is read for its `SEARCH` results.
pub open spec fn lecteur_search() -> spec_fn(Seq<char>) -> Seq<u32> {
    |l: Seq<char>| search_de_ligne(l)
}

/// The UIDs that a response to `UID SEARCH` gives.
pub open spec fn uids_de(reponse: Seq<char>) -> Seq<u32> {
    lignes(reponse).flat_map(lecteur_search())
}

fn lire_search(ligne: &[char]) -> (r: Vec<u32>)
    ensures
        r@ == search_de_ligne(ligne@),
{
    let mut r: Vec<u32> = Vec::new();
    match oter_prefixe(rogner(ligne), "* SEARCH") {
        None => {},
        Some(reste) => {
            let ms = decouper_mots(reste);
            let ghost tout = mots(reste@);
            for i in 0..ms.len()
                invariant
                    tout == vues_car(ms@),
                    r@ =~= tout.take(i as int).filter_map(lecteur_uid()),
            {
                proof {
                    tout.lemma_filter_map_take_succ(lecteur_uid(), i as int);
                    assert(tout[i as int] == ms@[i as int]@);
                }
                if let Some(n) = lire_u32(ms[i].as_slice()) {
                    r.push(n);
                }
            }
            assert(tout.take(tout.len() as int) =~= tout);
        },
    }
    r
}

/// UIDs given by `UID SEARCH`: `* SEARCH 3 5 7`.
pub fn analyser_search(reponse: &str) -> (r: Vec<u32>)
    ensures
        r@ == uids_de(reponse@),
{
    let c = caracteres(reponse);
    let ls = decouper_lignes(c.as_slice());
    let ghost tout = lignes(reponse@);
    let mut r: Vec<u32> = Vec::new();
    proof {
        assert(tout.take(0).flat_map(lecteur_search()) =~= Seq::empty());
    }
    for i in 0..ls.len()
        invariant
            tout == vues_car(ls@),
            r@ =~= tout.take(i as int).flat_map(lecteur_search()),
    {
        proof {
            tout.lemma_flat_map_take_append(lecteur_search(), i as int);
            assert(tout[i as int] == ls@[i as int]@);
        }
        let mut v = lire_search(ls[i].as_slice());
        r.append(&mut v);
    }
    assert(tout.take(tout.len() as int) =~= tout);
    r
}

/// A `FETCH` response in two parts gives the headers of the one, then those of the
/// other; a line that gives no UID gives no headers.
pub proof fn loi_fetch_par_parties(a: Seq<char>, b: Seq<char>, litteraux: Seq<Seq<u8>>)
    ensures
        entetes_de(a + seq!['\n'] + b, litteraux) == entetes_de(a, litteraux) + entetes_de(
            b,
            litteraux,
        ),
        forall|i: int|
            0 <= i < entetes_de(a, litteraux).len() ==> (#[trigger] entetes_de(a, litteraux)[i]).uid
                != 0,
{
    let f = lecteur_fetch(litteraux);
    let vide = Seq::<char>::empty();
    assert(f(vide) is None) by {
        reveal_strlit("* ");
        assert(sans_blancs(vide) == vide);
    }
    assert forall|l: Seq<char>| #[trigger] f(sans_retour(l)) == f(l) by {
        lemme_sans_retour(l);
    }
    lemme_lignes_jointes(a, b, f);
    let v = entetes_de(a, litteraux);
    assert forall|i: int| 0 <= i < v.len() implies (#[trigger] v[i]).uid != 0 by {
        assert(v.contains(v[i]));
        lignes(a).lemma_filter_map_contains(f, v[i]);
    }
}

} // verus!
