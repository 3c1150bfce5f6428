//! Reading of server responses from the bytes that arrive, in whatever pieces they
//! arrive.
//!
//! A response is a run of lines that the tagged line of its command ends. A literal
//! suspends a line: `... {123}`, then 123 raw bytes, then the rest of the same
//! logical line. Its bytes are kept aside, and a mark stands in its place.

use vstd::prelude::*;
use vstd::slice::{slice_subrange, slice_to_vec};
use vstd::utf8::{decode_utf8, valid_utf8};

use crate::nombre::{decimal, ecrire_u64, entier, lire_usize};
use crate::protocole::{vues_octets, MARQUEUR};
use crate::texte::{
    ajouter_car, avant_suffixe, caracteres, chaine, debute, dernier_indice, est_occurrence,
    oter_fin, oter_prefixe, oter_suffixe, rogner, rogner_debut, rogner_fin, sans_blancs,
    sans_blancs_debut, sans_blancs_fin, sans_fin,
};

verus! {

// -------------------------------------------------------------------------- errors

/// Failure of an exchange with a server.
#[derive(Debug)]
pub enum Erreur {
    /// The connection failed.
    Reseau(String),
    /// The server answered what the protocol does not allow.
    Protocole(String),
    /// The server refused the command.
    Refuse(String),
}

/// What a failure holds.
pub enum ErreurVue {
    Reseau(Seq<char>),
    Protocole(Seq<char>),
    Refuse(Seq<char>),
}

impl View for Erreur {
    type V = ErreurVue;

    open spec fn view(&self) -> ErreurVue {
        match self {
            Erreur::Reseau(m) => ErreurVue::Reseau(m@),
            Erreur::Protocole(m) => ErreurVue::Protocole(m@),
            Erreur::Refuse(m) => ErreurVue::Refuse(m@),
        }
    }
}

/// Result of an exchange with a server.
pub type Resultat<T> = Result<T, Erreur>;

/// The text of a failure.
pub open spec fn texte_erreur(e: ErreurVue) -> Seq<char> {
    match e {
        ErreurVue::Reseau(m) => "réseau : "@ + m,
        ErreurVue::Protocole(m) => "protocole : "@ + m,
        ErreurVue::Refuse(m) => "refusé par le serveur : "@ + m,
    }
}

impl Erreur {
    /// The text of the failure.
    pub fn texte(&self) -> (r: String)
        ensures
            r@ == texte_erreur(self@),
    {
        match self {
            Erreur::Reseau(m) => accoler("réseau : ", m.as_str()),
            Erreur::Protocole(m) => accoler("protocole : ", m.as_str()),
            Erreur::Refuse(m) => accoler("refusé par le serveur : ", m.as_str()),
        }
    }

    /// True if the connection itself failed.
    pub fn reseau(&self) -> (r: bool)
        ensures
            r == (self@ is Reseau),
    {
        matches!(self, Erreur::Reseau(_))
    }
}

impl Clone for Erreur {
    fn clone(&self) -> (r: Self)
        ensures
            r@ == self@,
    {
        match self {
            Erreur::Reseau(m) => Erreur::Reseau(m.clone()),
            Erreur::Protocole(m) => Erreur::Protocole(m.clone()),
            Erreur::Refuse(m) => Erreur::Refuse(m.clone()),
        }
    }
}

/// Two texts end to end.
pub fn accoler(a: &str, b: &str) -> (r: String)
    ensures
        r@ == a@ + b@,
{
    let mut c = caracteres(a);
    crate::texte::ajouter(&mut c, b);
    chaine(c.as_slice())
}

// ----------------------------------------------------------------------- responses

/// A response: its text, with a mark in the place of each literal, and the
/// literals in the order in which they came.
#[derive(Debug)]
pub struct Reponse {
    pub texte: String,
    pub litteraux: Vec<Vec<u8>>,
}

/// What a response holds.
pub struct ReponseVue {
    pub texte: Seq<char>,
    pub litteraux: Seq<Seq<u8>>,
}

impl View for Reponse {
    type V = ReponseVue;

    open spec fn view(&self) -> ReponseVue {
        ReponseVue { texte: self.texte@, litteraux: vues_octets(self.litteraux@) }
    }
}

/// What the result of a command holds.
pub open spec fn vue_reponse(r: Resultat<Reponse>) -> Result<ReponseVue, ErreurVue> {
    match r {
        Ok(v) => Ok(v@),
        Err(e) => Err(e@),
    }
}

// ------------------------------------------------------------------------ literals

/// The size that a literal at the end of a line announces: `... {123}`, or
/// `... {123+}` for one that the server does not wait to send.
pub open spec fn litteral_annonce(ligne: Seq<char>) -> Option<nat> {
    let l = sans_blancs_fin(ligne);
    match l.index_of_last('{') {
        None => None,
        Some(d) => match avant_suffixe(l.subrange(d + 1, l.len() as int), "}"@) {
            None => None,
            Some(contenu) => entier(sans_fin(contenu, '+'), usize::MAX as nat),
        },
    }
}

fn mesurer_litteral(ligne: &[char]) -> (r: Option<usize>)
    ensures
        match r {
            Some(n) => litteral_annonce(ligne@) == Some(n as nat),
            None => litteral_annonce(ligne@) is None,
        },
{
    let l = rogner_fin(ligne);
    let n: usize = l.len();
    match dernier_indice(l, '{') {
        None => None,
        Some(d) => match oter_suffixe(slice_subrange(l, d + 1, n), "}") {
            None => None,
            Some(contenu) => lire_usize(oter_fin(contenu, '+')),
        },
    }
}

/// Size announced by a literal at the end of a line: `... {123}`.
pub fn taille_litteral(ligne: &str) -> (r: Option<usize>)
    ensures
        match r {
            Some(n) => litteral_annonce(ligne@) == Some(n as nat),
            None => litteral_annonce(ligne@) is None,
        },
{
    let c = caracteres(ligne);
    mesurer_litteral(c.as_slice())
}

/// A line without the announcement of its literal, in whose place a mark stands.
pub open spec fn ligne_marquee(ligne: Seq<char>, rang: nat) -> Seq<char> {
    let debut = match ligne.index_of_last('{') {
        Some(d) => ligne.subrange(0, d),
        None => ligne,
    };
    debut + seq![MARQUEUR] + decimal(rang) + seq![MARQUEUR]
}

fn marquer_ligne(ligne: &[char], rang: usize) -> (r: Vec<char>)
    ensures
        r@ == ligne_marquee(ligne@, rang as nat),
{
    let debut = match dernier_indice(ligne, '{') {
        Some(d) => slice_subrange(ligne, 0, d),
        None => ligne,
    };
    let mut r = slice_to_vec(debut);
    r.push(MARQUEUR);
    let d = ecrire_u64(rang as u64);
    ajouter_car(&mut r, d.as_slice());
    r.push(MARQUEUR);
    assert(r@ =~= ligne_marquee(ligne@, rang as nat));
    r
}

// --------------------------------------------------------------------------- lines

/// Whether a sequence of bytes occurs at an index.
pub open spec fn suite_en(foin: Seq<u8>, aiguille: Seq<u8>, i: int) -> bool {
    0 <= i && i + aiguille.len() <= foin.len() && foin.subrange(i, i + aiguille.len()) == aiguille
}

/// The first index from `i` on at which a sequence of bytes occurs.
pub open spec fn suite_des(foin: Seq<u8>, aiguille: Seq<u8>, i: int) -> Option<int>
    decreases foin.len() + 1 - i,
{
    if i < 0 || i > foin.len() {
        None
    } else if suite_en(foin, aiguille, i) {
        Some(i)
    } else {
        suite_des(foin, aiguille, i + 1)
    }
}

/// Index at which a sequence of bytes first occurs in another.
pub fn trouver(foin: &[u8], aiguille: &[u8]) -> (r: Option<usize>)
    requires
        aiguille@.len() > 0,
    ensures
        match r {
            Some(i) => i + aiguille@.len() <= foin@.len() && suite_des(foin@, aiguille@, 0) == Some(
                i as int,
            ),
            None => suite_des(foin@, aiguille@, 0) is None,
        },
{
    let n: usize = foin.len();
    let m: usize = aiguille.len();
    let mut i: usize = 0;
    while i < n && m <= n - i
        invariant
            n == foin@.len(),
            m == aiguille@.len(),
            m > 0,
            i <= n,
            suite_des(foin@, aiguille@, 0) == suite_des(foin@, aiguille@, i as int),
        decreases n - i,
    {
        let f = slice_subrange(foin, i, i + m);
        let mut k: usize = 0;
        while k < m && f[k] == aiguille[k]
            invariant
                k <= m,
                m == aiguille@.len(),
                m == f@.len(),
                forall|j: int| 0 <= j < k ==> f@[j] == aiguille@[j],
            decreases m - k,
        {
            k += 1;
        }
        if k == m {
            assert(f@ =~= aiguille@);
            return Some(i);
        }
        assert(f@[k as int] != aiguille@[k as int]);
        i += 1;
    }
    proof {
        lemme_suite_absente(foin@, aiguille@, i as int);
    }
    None
}

proof fn lemme_suite_absente(foin: Seq<u8>, aiguille: Seq<u8>, i: int)
    requires
        0 <= i,
        aiguille.len() > 0,
        i + aiguille.len() > foin.len(),
    ensures
        suite_des(foin, aiguille, i) is None,
    decreases foin.len() + 1 - i,
{
    if i <= foin.len() {
        lemme_suite_absente(foin, aiguille, i + 1);
    }
}

/// What more bytes change to the search for a sequence: nothing, once it is found.
proof fn lemme_suite_ajout(foin: Seq<u8>, aiguille: Seq<u8>, i: int, ajout: Seq<u8>)
    requires
        suite_des(foin, aiguille, i) is Some,
        0 <= i,
    ensures
        suite_des(foin + ajout, aiguille, i) == suite_des(foin, aiguille, i),
        i <= suite_des(foin, aiguille, i)->0,
        suite_des(foin, aiguille, i)->0 + aiguille.len() <= foin.len(),
    decreases foin.len() + 1 - i,
{
    if suite_en(foin, aiguille, i) {
        assert((foin + ajout).subrange(i, i + aiguille.len()) =~= foin.subrange(
            i,
            i + aiguille.len(),
        ));
    } else {
        lemme_suite_ajout(foin, aiguille, i + 1, ajout);
        if suite_en(foin + ajout, aiguille, i) {
            let k = suite_des(foin, aiguille, i + 1)->0;
            assert((foin + ajout).subrange(i, i + aiguille.len()) =~= foin.subrange(
                i,
                i + aiguille.len(),
            ));
        }
    }
}

/// The bytes that end a line.
pub open spec fn fin_ligne() -> Seq<u8> {
    seq![13u8, 10u8]
}

/// Where the first line of some bytes ends.
pub open spec fn bout_de_ligne(reste: Seq<u8>) -> Option<int> {
    suite_des(reste, fin_ligne(), 0)
}

fn chercher_bout(reste: &[u8]) -> (r: Option<usize>)
    ensures
        match r {
            Some(i) => i + 2 <= reste@.len() && bout_de_ligne(reste@) == Some(i as int),
            None => bout_de_ligne(reste@) is None,
        },
{
    let mut a: Vec<u8> = Vec::new();
    a.push(13);
    a.push(10);
    assert(a@ =~= fin_ligne());
    trouver(reste, a.as_slice())
}

/// What `String::from_utf8_lossy` makes of bytes.
pub uninterp spec fn texte_des_octets(octets: Seq<u8>) -> Seq<char>;

/// `String::from_utf8_lossy`: the text that bytes encode in UTF-8; each part of them
/// that is no UTF-8 becomes a replacement character. How many of these stand for an
/// ill-formed run is left to the standard library.
#[verifier::external_body]
pub(crate) fn decoder_octets(octets: &[u8]) -> (r: String)
    ensures
        r@ == texte_des_octets(octets@),
        valid_utf8(octets@) ==> r@ == decode_utf8(octets@),
{
    String::from_utf8_lossy(octets).into_owned()
}

// ------------------------------------------------------------------------- reading

/// A response being read.
pub struct Lecture {
    /// Lines read so far, each followed by a line feed.
    pub texte: Vec<char>,
    pub litteraux: Vec<Vec<u8>>,
    /// Start of the line in progress, its literals marked.
    pub ligne: Vec<char>,
    /// Size of the literal that is awaited, if one is.
    pub attendu: Option<usize>,
    /// Bytes received and not read yet.
    pub reste: Vec<u8>,
}

/// What a response being read holds.
#[verifier::ext_equal]
pub struct LectureVue {
    pub texte: Seq<char>,
    pub litteraux: Seq<Seq<u8>>,
    pub ligne: Seq<char>,
    pub attendu: Option<usize>,
    pub reste: Seq<u8>,
}

impl View for Lecture {
    type V = LectureVue;

    open spec fn view(&self) -> LectureVue {
        LectureVue {
            texte: self.texte@,
            litteraux: vues_octets(self.litteraux@),
            ligne: self.ligne@,
            attendu: self.attendu,
            reste: self.reste@,
        }
    }
}

/// A reading at its start, with bytes already received.
pub open spec fn lecture_neuve(reste: Seq<u8>) -> LectureVue {
    LectureVue {
        texte: Seq::empty(),
        litteraux: Seq::empty(),
        ligne: Seq::empty(),
        attendu: None,
        reste,
    }
}

/// What one step of the reading leads to.
pub enum Pas {
    /// More bytes are needed.
    Attendre,
    /// The reading goes on.
    Suivre(LectureVue),
    /// The response is complete; some bytes after it may have been received.
    Finir(Result<ReponseVue, ErreurVue>, Seq<u8>),
}

/// What the tagged line says of the response that it ends.
pub open spec fn conclusion(
    ligne: Seq<char>,
    etiquette: Seq<char>,
    texte: Seq<char>,
    litteraux: Seq<Seq<u8>>,
) -> Result<ReponseVue, ErreurVue> {
    let suite = sans_blancs_debut(ligne.subrange(etiquette.len() as int, ligne.len() as int));
    if debute(suite, "OK"@) {
        Ok(ReponseVue { texte, litteraux })
    } else {
        Err(ErreurVue::Refuse(suite))
    }
}

/// One step of the reading: a line, or the bytes of a literal.
pub open spec fn pas_lecture(l: LectureVue, etiquette: Seq<char>) -> Pas {
    match l.attendu {
        Some(n) => if l.reste.len() < n {
            Pas::Attendre
        } else {
            Pas::Suivre(
                LectureVue {
                    litteraux: l.litteraux.push(l.reste.subrange(0, n as int)),
                    ligne: ligne_marquee(l.ligne, l.litteraux.len()),
                    attendu: None,
                    reste: l.reste.subrange(n as int, l.reste.len() as int),
                    ..l
                },
            )
        },
        None => match bout_de_ligne(l.reste) {
            None => Pas::Attendre,
            Some(i) => {
                let ligne = l.ligne + texte_des_octets(l.reste.subrange(0, i));
                let reste = l.reste.subrange(i + 2, l.reste.len() as int);
                match litteral_annonce(ligne) {
                    Some(n) => Pas::Suivre(
                        LectureVue { ligne, attendu: Some(n as usize), reste, ..l },
                    ),
                    None => {
                        let texte = l.texte + ligne + seq!['\n'];
                        if debute(ligne, etiquette) {
                            Pas::Finir(conclusion(ligne, etiquette, texte, l.litteraux), reste)
                        } else {
                            Pas::Suivre(LectureVue { texte, ligne: Seq::empty(), reste, ..l })
                        }
                    },
                }
            },
        },
    }
}

/// What decreases at each step of a reading.
pub open spec fn mesure(l: LectureVue) -> nat {
    2 * l.reste.len() + if l.attendu is Some {
        1nat
    } else {
        0nat
    }
}

proof fn lemme_pas_decroit(l: LectureVue, etiquette: Seq<char>)
    ensures
        pas_lecture(l, etiquette) matches Pas::Suivre(m) ==> mesure(m) < mesure(l),
{
    if bout_de_ligne(l.reste) is Some {
        lemme_suite_ajout(l.reste, fin_ligne(), 0, Seq::empty());
    }
}

/// The reading carried on as far as the bytes received allow: the response, once it
/// is complete, and what the reading has become.
pub open spec fn lecture(l: LectureVue, etiquette: Seq<char>) -> (
    Option<Result<ReponseVue, ErreurVue>>,
    LectureVue,
)
    decreases mesure(l),
    via lecture_decroit
{
    match pas_lecture(l, etiquette) {
        Pas::Attendre => (None, l),
        Pas::Suivre(m) => lecture(m, etiquette),
        Pas::Finir(r, reste) => (Some(r), lecture_neuve(reste)),
    }
}

#[via_fn]
proof fn lecture_decroit(l: LectureVue, etiquette: Seq<char>) {
    lemme_pas_decroit(l, etiquette);
}

/// A reading with more bytes received.
pub open spec fn avec_octets(l: LectureVue, ajout: Seq<u8>) -> LectureVue {
    LectureVue { reste: l.reste + ajout, ..l }
}

/// A response is read the same whether its bytes arrive at once or in pieces: bytes
/// that come after a first reading are as good as if they had been there.
pub proof fn loi_lecture_par_morceaux(l: LectureVue, etiquette: Seq<char>, ajout: Seq<u8>)
    ensures
        match lecture(l, etiquette) {
            (Some(r), m) => lecture(avec_octets(l, ajout), etiquette) == (
                Some(r),
                avec_octets(m, ajout),
            ),
            (None, m) => lecture(avec_octets(l, ajout), etiquette) == lecture(
                avec_octets(m, ajout),
                etiquette,
            ),
        },
    decreases mesure(l),
{
    let g = avec_octets(l, ajout);
    lemme_pas_decroit(l, etiquette);
    match l.attendu {
        Some(n) => {
            if l.reste.len() >= n {
                let m = pas_lecture(l, etiquette)->Suivre_0;
                let h = pas_lecture(g, etiquette)->Suivre_0;
                assert(g.reste.subrange(0, n as int) =~= l.reste.subrange(0, n as int));
                assert(g.reste.subrange(n as int, g.reste.len() as int) =~= l.reste.subrange(
                    n as int,
                    l.reste.len() as int,
                ) + ajout);
                assert(h =~= avec_octets(m, ajout));
                loi_lecture_par_morceaux(m, etiquette, ajout);
            }
        },
        None => {
            if let Some(i) = bout_de_ligne(l.reste) {
                lemme_suite_ajout(l.reste, fin_ligne(), 0, ajout);
                assert(g.reste.subrange(0, i) =~= l.reste.subrange(0, i));
                assert(g.reste.subrange(i + 2, g.reste.len() as int) =~= l.reste.subrange(
                    i + 2,
                    l.reste.len() as int,
                ) + ajout);
                match pas_lecture(l, etiquette) {
                    Pas::Suivre(m) => {
                        assert(pas_lecture(g, etiquette)->Suivre_0 =~= avec_octets(m, ajout));
                        loi_lecture_par_morceaux(m, etiquette, ajout);
                    },
                    Pas::Finir(r, reste) => {
                        assert(lecture_neuve(reste + ajout) =~= avec_octets(
                            lecture_neuve(reste),
                            ajout,
                        ));
                    },
                    Pas::Attendre => {},
                }
            }
        },
    }
}

// ---------------------------------------------------------------------- invitation

/// The reading of lines up to the invitation to send a literal, or the refusal of
/// the command.
pub open spec fn invitation(reste: Seq<u8>, etiquette: Seq<char>) -> (
    Option<Result<(), ErreurVue>>,
    Seq<u8>,
)
    decreases reste.len(),
    via invitation_decroit
{
    match bout_de_ligne(reste) {
        None => (None, reste),
        Some(i) => {
            let ligne = texte_des_octets(reste.subrange(0, i));
            let suite = reste.subrange(i + 2, reste.len() as int);
            if ligne.len() > 0 && ligne[0] == '+' {
                (Some(Ok(())), suite)
            } else if debute(ligne, etiquette) {
                (
                    Some(
                        Err(
                            ErreurVue::Refuse(
                                sans_blancs(
                                    ligne.subrange(etiquette.len() as int, ligne.len() as int),
                                ),
                            ),
                        ),
                    ),
                    suite,
                )
            } else {
                invitation(suite, etiquette)
            }
        },
    }
}

#[via_fn]
proof fn invitation_decroit(reste: Seq<u8>, etiquette: Seq<char>) {
    if bout_de_ligne(reste) is Some {
        lemme_suite_ajout(reste, fin_ligne(), 0, Seq::empty());
    }
}

/// The invitation to send a literal is read the same whether its bytes arrive at once
/// or in pieces.
pub proof fn loi_invitation_par_morceaux(reste: Seq<u8>, etiquette: Seq<char>, ajout: Seq<u8>)
    ensures
        match invitation(reste, etiquette) {
            (Some(r), suite) => invitation(reste + ajout, etiquette) == (Some(r), suite + ajout),
            (None, suite) => invitation(reste + ajout, etiquette) == invitation(
                suite + ajout,
                etiquette,
            ),
        },
    decreases reste.len(),
{
    if let Some(i) = bout_de_ligne(reste) {
        let tout = reste + ajout;
        lemme_suite_ajout(reste, fin_ligne(), 0, ajout);
        let suite = reste.subrange(i + 2, reste.len() as int);
        assert(tout.subrange(0, i) =~= reste.subrange(0, i));
        assert(tout.subrange(i + 2, tout.len() as int) =~= suite + ajout);
        loi_invitation_par_morceaux(suite, etiquette, ajout);
    }
}

impl Lecture {
    /// A reading at its start, with bytes already received.
    pub fn nouvelle(reste: Vec<u8>) -> (r: Lecture)
        ensures
            r@ == lecture_neuve(reste@),
    {
        let r = Lecture {
            texte: Vec::new(),
            litteraux: Vec::new(),
            ligne: Vec::new(),
            attendu: None,
            reste,
        };
        assert(r@ =~= lecture_neuve(reste@));
        r
    }

    /// Adds bytes that the server sent.
    pub fn recevoir(&mut self, octets: &[u8])
        ensures
            final(self)@ == avec_octets(old(self)@, octets@),
    {
        let mut v = slice_to_vec(octets);
        self.reste.append(&mut v);
    }

    /// Carries the reading of a response on as far as the bytes received allow.
    pub fn avancer(&mut self, etiquette: &str) -> (r: Option<Resultat<Reponse>>)
        ensures
            (match r {
                Some(v) => Some(vue_reponse(v)),
                None => None,
            }, final(self)@) == lecture(old(self)@, etiquette@),
    {
        let e = caracteres(etiquette);
        loop
            invariant
                e@ == etiquette@,
                lecture(self@, etiquette@) == lecture(old(self)@, etiquette@),
            decreases mesure(self@),
        {
            let ghost l = self@;
            proof {
                lemme_pas_decroit(l, etiquette@);
            }
            match self.attendu {
                Some(n) => {
                    let total: usize = self.reste.len();
                    if total < n {
                        return None;
                    }
                    let donnees = slice_to_vec(slice_subrange(self.reste.as_slice(), 0, n));
                    let suite = slice_to_vec(slice_subrange(self.reste.as_slice(), n, total));
                    let rang: usize = self.litteraux.len();
                    let marquee = marquer_ligne(self.ligne.as_slice(), rang);
                    self.litteraux.push(donnees);
                    self.ligne = marquee;
                    self.attendu = None;
                    self.reste = suite;
                    assert(self@.litteraux =~= l.litteraux.push(l.reste.subrange(0, n as int)));
                    assert(self@ =~= pas_lecture(l, etiquette@)->Suivre_0);
                },
                None => {
                    let total: usize = self.reste.len();
                    match chercher_bout(self.reste.as_slice()) {
                        None => {
                            return None;
                        },
                        Some(i) => {
                            let morceau = decoder_octets(
                                slice_subrange(self.reste.as_slice(), 0, i),
                            );
                            let suite = slice_to_vec(
                                slice_subrange(self.reste.as_slice(), i + 2, total),
                            );
                            crate::texte::ajouter(&mut self.ligne, morceau.as_str());
                            self.reste = suite;
                            let annonce = mesurer_litteral(self.ligne.as_slice());
                            match annonce {
                                Some(n) => {
                                    self.attendu = Some(n);
                                    assert(self@ =~= pas_lecture(l, etiquette@)->Suivre_0);
                                },
                                None => {
                                    let mut ligne: Vec<char> = Vec::new();
                                    std::mem::swap(&mut ligne, &mut self.ligne);
                                    ajouter_car(&mut self.texte, ligne.as_slice());
                                    self.texte.push('\n');
                                    assert(self@.texte =~= l.texte + ligne@ + seq!['\n']);
                                    if est_occurrence(ligne.as_slice(), e.as_slice(), 0) {
                                        return Some(self.conclure(ligne, e.len()));
                                    }
                                    assert(self@ =~= pas_lecture(l, etiquette@)->Suivre_0);
                                },
                            }
                        },
                    }
                },
            }
        }
    }

    /// Ends the reading of a response at its tagged line.
    fn conclure(&mut self, ligne: Vec<char>, n: usize) -> (r: Resultat<Reponse>)
        requires
            n <= ligne@.len(),
        ensures
            vue_reponse(r) == ({
                let suite = sans_blancs_debut(ligne@.subrange(n as int, ligne@.len() as int));
                if debute(suite, "OK"@) {
                    Ok(
                        ReponseVue {
                            texte: old(self)@.texte,
                            litteraux: old(self)@.litteraux,
                        },
                    )
                } else {
                    Err(ErreurVue::Refuse(suite))
                }
            }),
            final(self)@ == lecture_neuve(old(self)@.reste),
    {
        let total: usize = ligne.len();
        let suite = rogner_debut(slice_subrange(ligne.as_slice(), n, total));
        let mut texte: Vec<char> = Vec::new();
        let mut litteraux: Vec<Vec<u8>> = Vec::new();
        let mut reste: Vec<u8> = Vec::new();
        std::mem::swap(&mut texte, &mut self.texte);
        std::mem::swap(&mut litteraux, &mut self.litteraux);
        std::mem::swap(&mut reste, &mut self.reste);
        let ghost r0 = reste@;
        *self = Lecture::nouvelle(reste);
        if oter_prefixe(suite, "OK").is_some() {
            Ok(Reponse { texte: chaine(texte.as_slice()), litteraux })
        } else {
            Err(Erreur::Refuse(chaine(suite)))
        }
    }

    /// Reads a line, once one has arrived whole.
    pub fn ligne(&mut self) -> (r: Option<String>)
        ensures
            match bout_de_ligne(old(self)@.reste) {
                Some(i) => {
                    &&& r is Some
                    &&& r->0@ == texte_des_octets(old(self)@.reste.subrange(0, i))
                    &&& final(self)@ == (LectureVue {
                        reste: old(self)@.reste.subrange(i + 2, old(self)@.reste.len() as int),
                        ..old(self)@
                    })
                },
                None => r is None && final(self)@ == old(self)@,
            },
    {
        let total: usize = self.reste.len();
        match chercher_bout(self.reste.as_slice()) {
            None => None,
            Some(i) => {
                let ligne = decoder_octets(slice_subrange(self.reste.as_slice(), 0, i));
                let suite = slice_to_vec(slice_subrange(self.reste.as_slice(), i + 2, total));
                self.reste = suite;
                Some(ligne)
            },
        }
    }

    /// Reads lines up to the invitation to send a literal, or the refusal of the
    /// command.
    pub fn inviter(&mut self, etiquette: &str) -> (r: Option<Resultat<()>>)
        ensures
            (match r {
                Some(Ok(())) => Some(Ok(())),
                Some(Err(e)) => Some(Err(e@)),
                None => None,
            }, final(self)@.reste) == invitation(old(self)@.reste, etiquette@),
            final(self)@ == (LectureVue { reste: final(self)@.reste, ..old(self)@ }),
    {
        let e = caracteres(etiquette);
        loop
            invariant
                e@ == etiquette@,
                self@ == (LectureVue { reste: self@.reste, ..old(self)@ }),
                invitation(self@.reste, etiquette@) == invitation(old(self)@.reste, etiquette@),
            decreases self@.reste.len(),
        {
            proof {
                if bout_de_ligne(self@.reste) is Some {
                    lemme_suite_ajout(self@.reste, fin_ligne(), 0, Seq::empty());
                }
            }
            match self.ligne() {
                None => {
                    return None;
                },
                Some(ligne) => {
                    let c = caracteres(ligne.as_str());
                    let n: usize = c.len();
                    if n > 0 && c[0] == '+' {
                        return Some(Ok(()));
                    }
                    if est_occurrence(c.as_slice(), e.as_slice(), 0) {
                        let refus = rogner(slice_subrange(c.as_slice(), e.len(), n));
                        return Some(Err(Erreur::Refuse(chaine(refus))));
                    }
                },
            }
        }
    }
}

} // verus!
