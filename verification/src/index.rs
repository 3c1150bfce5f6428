//! From the raw headers of the server to a line of the index that can be shown, and
//! from a raw message to its text and its attachments.

use vstd::prelude::*;
use vstd::slice::{slice_subrange, slice_to_vec};

use crate::courrier::{
    corps_du_brut, entetes_du_brut, identifiant_du_brut, lire_corps, lire_entetes, lire_message_id,
    lire_pieces, pieces_du_brut, vue_texte, vues_pieces, ContactVue, CorpsLu, CorpsLuVue,
    EntetesLus, EntetesLusVue, PieceLue, PieceLueVue,
};
use crate::dates::instant;
use crate::html::{html_en_texte, html_vers_texte};
use crate::magasin::{message_vide, MessageLocal};
use crate::nombre::{decimal, ecrire_u64, lemme_decimal};
use crate::protocole::{secondes_date_interne, Entete, EnteteVue};
use crate::tables::MessageVue;
use crate::texte::{
    ajouter, ajouter_car, blanc, caracteres, chaine, controle, copier, dernier_champ,
    dernier_indice, egal, en_majuscules, en_minuscules, epelle, est_blanc, est_controle, indice,
    lire_dernier_champ, majuscule, majuscules, minuscules,
};

verus! {

// ------------------------------------------------------------------------ index line

/// The sort key of a message: its date of reception, else that of its header.
pub open spec fn cle_de_tri(date_interne: Seq<char>, date_entete: Option<i64>) -> i64 {
    match instant(date_interne) {
        Some(t) => if i64::MIN <= t <= i64::MAX {
            t as i64
        } else {
            date_entete.unwrap_or(0)
        },
        None => date_entete.unwrap_or(0),
    }
}

/// The name and the address of the first contact of a field, empty where they
/// lack.
pub open spec fn contact_en_tete(v: Seq<ContactVue>) -> (Seq<char>, Seq<char>) {
    if v.len() == 0 {
        (Seq::empty(), Seq::empty())
    } else {
        (v[0].nom.unwrap_or(Seq::empty()), v[0].adresse.unwrap_or(Seq::empty()))
    }
}

/// The line of the index for the headers of a message, given what the mail parser
/// reads in them.
pub open spec fn ligne_lue(e: EnteteVue, lus: Option<EntetesLusVue>) -> MessageVue {
    let base = MessageVue {
        uid: e.uid,
        taille: e.taille,
        lu: e.drapeaux.contains("\\Seen"@),
        repondu: e.drapeaux.contains("\\Answered"@),
        ..message_vide()
    };
    match lus {
        None => MessageVue {
            sujet: "(message illisible)"@,
            horodatage: cle_de_tri(e.date_interne, None),
            ..base
        },
        Some(m) => {
            let (nom, adresse) = match m.expediteurs {
                Some(v) => contact_en_tete(v),
                None => (Seq::empty(), Seq::empty()),
            };
            MessageVue {
                sujet: m.sujet.unwrap_or("(sans objet)"@),
                message_id: m.message_id.unwrap_or(Seq::empty()),
                adresse,
                expediteur: if nom.len() == 0 {
                    adresse
                } else {
                    nom
                },
                date: match m.date {
                    Some((t, _)) => t,
                    None => e.date_interne,
                },
                horodatage: cle_de_tri(
                    e.date_interne,
                    match m.date {
                        Some((_, n)) => Some(n),
                        None => None,
                    },
                ),
                ..base
            }
        },
    }
}

/// Sort key: the date of reception of the server, else that of the header.
fn horodatage(date_interne: &str, date_entete: Option<i64>) -> (r: i64)
    ensures
        r == cle_de_tri(date_interne@, date_entete),
{
    match secondes_date_interne(date_interne) {
        Some(t) => t,
        None => date_entete.unwrap_or(0),
    }
}

/// An optional text, or another where it lacks.
fn ou_texte(t: Option<String>, defaut: &str) -> (r: String)
    ensures
        r@ == vue_texte(t).unwrap_or(defaut@),
{
    match t {
        Some(s) => s,
        None => copier(defaut),
    }
}

/// Takes the first contact of a field out of it: its name and its address.
fn premier_contact(v: Option<Vec<crate::courrier::Contact>>) -> (r: (String, String))
    ensures
        (r.0@, r.1@) == (match v {
            Some(w) => contact_en_tete(crate::courrier::vues_contacts(w@)),
            None => (Seq::empty(), Seq::empty()),
        }),
{
    match v {
        Some(w) => if w.len() == 0 {
            (String::new(), String::new())
        } else {
            proof {
                reveal_strlit("");
                assert(""@ =~= Seq::empty());
                assert(crate::courrier::vues_contacts(w@)[0] == w@[0]@);
            }
            (ou_texte(w[0].nom.clone(), ""), ou_texte(w[0].adresse.clone(), ""))
        },
        None => (String::new(), String::new()),
    }
}

/// The line of the index for the headers of a message, given what the mail parser
/// read in them. Headers that it could not read keep a line: a message must not
/// vanish from the list.
pub fn ligne_des_entetes(entete: &Entete, lus: Option<EntetesLus>) -> (r: MessageLocal)
    ensures
        r@ == ligne_lue(
            entete@,
            match lus {
                Some(m) => Some(m@),
                None => None,
            },
        ),
{
    let mut ligne = MessageLocal::default();
    ligne.uid = entete.uid;
    ligne.taille = entete.taille;
    ligne.lu = entete.lu();
    ligne.repondu = entete.repondu();
    proof {
        reveal_strlit("");
        assert(""@ =~= Seq::empty());
    }
    match lus {
        None => {
            ligne.sujet = copier("(message illisible)");
            ligne.horodatage = horodatage(entete.date_interne.as_str(), None);
        },
        Some(m) => {
            ligne.sujet = ou_texte(m.sujet, "(sans objet)");
            ligne.message_id = ou_texte(m.message_id, "");
            let (nom, adresse) = premier_contact(m.expediteurs);
            // Without a display name, the address will do.
            ligne.expediteur =
            if nom.as_str().is_empty() {
                adresse.clone()
            } else {
                nom
            };
            ligne.adresse = adresse;
            match m.date {
                Some((t, n)) => {
                    ligne.date = t;
                    ligne.horodatage = horodatage(entete.date_interne.as_str(), Some(n));
                },
                None => {
                    ligne.date = entete.date_interne.clone();
                    ligne.horodatage = horodatage(entete.date_interne.as_str(), None);
                },
            }
        },
    }
    ligne
}

/// Makes a line of the index of the raw headers of a message.
pub fn ligne_index(entete: &Entete) -> (r: MessageLocal)
    ensures
        r@ == ligne_lue(entete@, entetes_du_brut(entete@.brut)),
{
    let lus = lire_entetes(entete.brut.as_slice());
    ligne_des_entetes(entete, lus)
}

/// The `Message-ID` that a raw message declares, empty where it has none.
pub open spec fn identifiant(lu: Option<Seq<char>>) -> Seq<char> {
    lu.unwrap_or(Seq::empty())
}

/// `Message-ID` of a raw message, for want of the one of the index.
pub fn message_id_de(octets: &[u8]) -> (r: String)
    ensures
        r@ == identifiant(identifiant_du_brut(octets@)),
{
    proof {
        reveal_strlit("");
        assert(""@ =~= Seq::empty());
    }
    ou_texte(lire_message_id(octets), "")
}

// ------------------------------------------------------------------------------ body

/// The text shown for a message, given what the mail parser finds of its body.
pub open spec fn corps_montre(lu: Option<CorpsLuVue>) -> Seq<char> {
    match lu {
        None => "(message illisible)"@,
        Some(c) => match c.partie {
            Some((true, Some(html))) => html_en_texte(html),
            _ => match c.texte {
                Some(t) => t,
                None => match c.html {
                    Some(html) => html_en_texte(html),
                    None => "(ce message n'a pas de partie texte)"@,
                },
            },
        },
    }
}

/// The text shown for a message, given what the mail parser found of its body: a
/// message without text gets a line that says so.
pub fn corps_du_message(lu: Option<CorpsLu>) -> (r: String)
    ensures
        r@ == corps_montre(
            match lu {
                Some(c) => Some(c@),
                None => None,
            },
        ),
{
    match lu {
        None => copier("(message illisible)"),
        Some(c) => {
            if let Some((html, texte)) = c.partie {
                if html {
                    if let Some(t) = texte {
                        return html_vers_texte(t.as_str());
                    }
                }
            }
            match c.texte {
                Some(t) => t,
                None => match c.html {
                    Some(h) => html_vers_texte(h.as_str()),
                    None => copier("(ce message n'a pas de partie texte)"),
                },
            }
        },
    }
}

/// Readable body of a whole message: its text, or its HTML reduced to text.
pub fn corps_affichable(brut: &[u8]) -> (r: String)
    ensures
        r@ == corps_montre(corps_du_brut(brut@)),
{
    let lu = lire_corps(brut);
    corps_du_message(lu)
}

// ------------------------------------------------------------------------ attachments

/// An attachment, as the interface shows it.
#[derive(Debug, PartialEq, Eq)]
pub struct PieceJointe {
    /// Rank among the attachments of the message: what designates it afterwards.
    pub indice: usize,
    /// Safe file name: without a path nor a forbidden character.
    pub nom: String,
    pub type_mime: String,
    pub taille: usize,
    /// True if opening it directly would start a program: the interface then only
    /// offers to save it.
    pub risquee: bool,
}

/// What an attachment holds, as the interface shows it.
pub struct PieceJointeVue {
    pub indice: usize,
    pub nom: Seq<char>,
    pub type_mime: Seq<char>,
    pub taille: nat,
    pub risquee: bool,
}

impl View for PieceJointe {
    type V = PieceJointeVue;

    open spec fn view(&self) -> PieceJointeVue {
        PieceJointeVue {
            indice: self.indice,
            nom: self.nom@,
            type_mime: self.type_mime@,
            taille: self.taille as nat,
            risquee: self.risquee,
        }
    }
}

impl Clone for PieceJointe {
    fn clone(&self) -> (r: Self)
        ensures
            r@ == self@,
    {
        PieceJointe {
            indice: self.indice,
            nom: self.nom.clone(),
            type_mime: self.type_mime.clone(),
            taille: self.taille,
            risquee: self.risquee,
        }
    }
}

/// What some attachments hold, as the interface shows them.
pub open spec fn vues_jointes(v: Seq<PieceJointe>) -> Seq<PieceJointeVue> {
    v.map_values(|p: PieceJointe| p@)
}

/// The MIME type of an attachment, in lower case.
pub open spec fn type_mime_de(p: PieceLueVue) -> Seq<char> {
    match p.declare {
        Some((t, Some(s))) => minuscules(t + "/"@ + s),
        Some((t, None)) => minuscules(t),
        None => if p.message {
            "message/rfc822"@
        } else {
            "application/octet-stream"@
        },
    }
}

/// The extension of a file without a name, after its type.
pub open spec fn extension_de_type(type_mime: Seq<char>) -> Seq<char> {
    if type_mime == "application/pdf"@ {
        ".pdf"@
    } else if type_mime == "image/png"@ {
        ".png"@
    } else if type_mime == "image/jpeg"@ {
        ".jpg"@
    } else if type_mime == "image/gif"@ {
        ".gif"@
    } else if type_mime == "text/plain"@ {
        ".txt"@
    } else if type_mime == "text/html"@ {
        ".html"@
    } else if type_mime == "text/calendar"@ {
        ".ics"@
    } else if type_mime == "message/rfc822"@ {
        ".eml"@
    } else {
        ".bin"@
    }
}

/// Whether a character is forbidden in a file name.
pub open spec fn interdit(c: char) -> bool {
    controle(c) || "<>:\"/\\|?*"@.contains(c)
}

/// The last segment of a path, whichever slash it is written with.
pub open spec fn dernier_segment(nom: Seq<char>) -> Seq<char> {
    dernier_champ(dernier_champ(nom, '/'), '\\')
}

/// Whether a character is removed at the ends of a name: a dot, or white space.
pub open spec fn bord(c: char) -> bool {
    c == '.' || blanc(c)
}

/// A name without the dots and the white space that start it.
pub open spec fn sans_bord_debut(s: Seq<char>) -> Seq<char>
    decreases s.len(),
{
    if s.len() > 0 && bord(s[0]) {
        sans_bord_debut(s.drop_first())
    } else {
        s
    }
}

/// A name without the dots and the white space that end it.
pub open spec fn sans_bord_fin(s: Seq<char>) -> Seq<char>
    decreases s.len(),
{
    if s.len() > 0 && bord(s.last()) {
        sans_bord_fin(s.drop_last())
    } else {
        s
    }
}

/// A name without forbidden characters, nor white space or dots at its ends.
pub open spec fn nom_propre(nom: Seq<char>) -> Seq<char> {
    let t = dernier_segment(nom).map_values(
        |c: char|
            if interdit(c) {
                '_'
            } else {
                c
            },
    );
    sans_bord_fin(sans_bord_debut(t))
}

/// Whether a name designates a device rather than a file under Windows.
pub open spec fn nom_reserve(nom: Seq<char>) -> bool {
    let racine = majuscules(
        match nom.index_of_first('.') {
            Some(i) => nom.subrange(0, i),
            None => nom,
        },
    );
    ||| racine == "CON"@
    ||| racine == "PRN"@
    ||| racine == "AUX"@
    ||| racine == "NUL"@
    ||| racine.len() == 4 && (racine.subrange(0, 3) == "COM"@ || racine.subrange(0, 3) == "LPT"@)
        && '0' <= racine[3] <= '9'
}

/// The name of the `n`-th attachment, for want of a better one.
pub open spec fn nom_par_defaut(indice: int, type_mime: Seq<char>) -> Seq<char> {
    "piece-jointe-"@ + decimal((indice + 1) as nat) + extension_de_type(type_mime)
}

/// A name of at most 150 characters, with its extension, of which at most 16 stay.
pub open spec fn nom_borne(nom: Seq<char>) -> Seq<char> {
    if nom.len() <= 150 {
        nom
    } else {
        let ext = match nom.index_of_last('.') {
            Some(i) => nom.subrange(i, nom.len() as int),
            None => Seq::empty(),
        };
        let ext = ext.take(
            if ext.len() < 16 {
                ext.len() as int
            } else {
                16
            },
        );
        nom.take(150 - ext.len()) + ext
    }
}

/// The safe file name of an attachment.
pub open spec fn nom_assaini(nom: Seq<char>, indice: int, type_mime: Seq<char>) -> Seq<char> {
    let p = nom_propre(nom);
    nom_borne(
        if p.len() == 0 || nom_reserve(p) {
            nom_par_defaut(indice, type_mime)
        } else {
            p
        },
    )
}

/// Whether a file name has the extension of a program or of a script.
pub open spec fn extension_executable(e: Seq<char>) -> bool {
    ||| e == "exe"@
    ||| e == "com"@
    ||| e == "bat"@
    ||| e == "cmd"@
    ||| e == "scr"@
    ||| e == "pif"@
    ||| e == "msi"@
    ||| e == "msp"@
    ||| e == "mst"@
    ||| e == "jar"@
    ||| e == "js"@
    ||| e == "jse"@
    ||| e == "vbs"@
    ||| e == "vbe"@
    ||| e == "wsf"@
    ||| e == "wsh"@
    ||| e == "wsc"@
    ||| e == "ps1"@
    ||| e == "psm1"@
    ||| e == "psd1"@
    ||| e == "hta"@
    ||| e == "cpl"@
    ||| e == "lnk"@
    ||| e == "url"@
    ||| e == "reg"@
    ||| e == "inf"@
    ||| e == "dll"@
    ||| e == "sys"@
    ||| e == "msc"@
    ||| e == "application"@
    ||| e == "appref-ms"@
    ||| e == "gadget"@
    ||| e == "appx"@
    ||| e == "appxbundle"@
    ||| e == "msix"@
    ||| e == "msixbundle"@
    ||| e == "iso"@
    ||| e == "img"@
    ||| e == "vhd"@
    ||| e == "vhdx"@
    ||| e == "scf"@
    ||| e == "sct"@
    ||| e == "settingcontent-ms"@
    ||| e == "sh"@
    ||| e == "run"@
    ||| e == "desktop"@
    ||| e == "appimage"@
    ||| e == "apk"@
    ||| e == "py"@
    ||| e == "pl"@
    ||| e == "command"@
    ||| e == "app"@
    ||| e == "pkg"@
    ||| e == "dmg"@
}

/// Whether opening a file would start a program or a script.
pub open spec fn risque(nom: Seq<char>) -> bool {
    match nom.index_of_last('.') {
        Some(i) => extension_executable(minuscules(nom.subrange(i + 1, nom.len() as int))),
        None => false,
    }
}

/// An attachment as the interface shows it, from what the mail parser finds.
pub open spec fn piece_montree(indice: int, p: PieceLueVue) -> PieceJointeVue {
    let nom = nom_assaini(p.nom.unwrap_or(Seq::empty()), indice, type_mime_de(p));
    PieceJointeVue {
        indice: indice as usize,
        nom,
        type_mime: type_mime_de(p),
        taille: p.contenu.len(),
        risquee: risque(nom),
    }
}

/// Attachments as the interface shows them.
pub open spec fn pieces_montrees(v: Seq<PieceLueVue>) -> Seq<PieceJointeVue> {
    Seq::new(v.len(), |i: int| piece_montree(i, v[i]))
}

fn type_de(p: &PieceLue) -> (r: String)
    ensures
        r@ == type_mime_de(p@),
{
    match &p.declare {
        Some((t, s)) => {
            let mut c = caracteres(t.as_str());
            match s {
                Some(sous) => {
                    ajouter(&mut c, "/");
                    ajouter(&mut c, sous.as_str());
                },
                None => {},
            }
            let m = en_minuscules(c.as_slice());
            chaine(m.as_slice())
        },
        None => if p.message {
            copier("message/rfc822")
        } else {
            copier("application/octet-stream")
        },
    }
}

fn extension_de(type_mime: &str) -> (r: &'static str)
    ensures
        r@ == extension_de_type(type_mime@),
{
    if egal(type_mime, "application/pdf") {
        ".pdf"
    } else if egal(type_mime, "image/png") {
        ".png"
    } else if egal(type_mime, "image/jpeg") {
        ".jpg"
    } else if egal(type_mime, "image/gif") {
        ".gif"
    } else if egal(type_mime, "text/plain") {
        ".txt"
    } else if egal(type_mime, "text/html") {
        ".html"
    } else if egal(type_mime, "text/calendar") {
        ".ics"
    } else if egal(type_mime, "message/rfc822") {
        ".eml"
    } else {
        ".bin"
    }
}

fn est_interdit(c: char) -> (r: bool)
    ensures
        r == interdit(c),
{
    proof {
        reveal_strlit("<>:\"/\\|?*");
        let s = "<>:\"/\\|?*"@;
        assert(s[0] == '<' && s[1] == '>' && s[2] == ':' && s[3] == '"' && s[4] == '/' && s[5]
            == '\\' && s[6] == '|' && s[7] == '?' && s[8] == '*' && s.len() == 9);
    }
    est_controle(c) || c == '<' || c == '>' || c == ':' || c == '"' || c == '/' || c == '\\' || c
        == '|' || c == '?' || c == '*'
}

fn epurer(nom: &[char]) -> (r: Vec<char>)
    ensures
        r@ == nom_propre(nom@),
{
    let d = lire_dernier_champ(lire_dernier_champ(nom, '/'), '\\');
    let ghost f = |c: char|
        if interdit(c) {
            '_'
        } else {
            c
        };
    let mut t: Vec<char> = Vec::new();
    for i in 0..d.len()
        invariant
            f == (|c: char|
                if interdit(c) {
                    '_'
                } else {
                    c
                }),
            t@ =~= d@.map_values(f).take(i as int),
    {
        t.push(
            if est_interdit(d[i]) {
                '_'
            } else {
                d[i]
            },
        );
    }
    assert(d@.map_values(f).take(d@.len() as int) =~= d@.map_values(f));
    slice_to_vec(oter_bords(t.as_slice()))
}

/// Removes the dots and the white space at the ends of a name.
fn oter_bords(s: &[char]) -> (r: &[char])
    ensures
        r@ == sans_bord_fin(sans_bord_debut(s@)),
{
    let n: usize = s.len();
    let mut i: usize = 0;
    assert(s@.subrange(0, n as int) =~= s@);
    while i < n && (s[i] == '.' || est_blanc(s[i]))
        invariant
            n == s@.len(),
            i <= n,
            sans_bord_debut(s@) == sans_bord_debut(s@.subrange(i as int, n as int)),
        decreases n - i,
    {
        assert(s@.subrange(i as int, n as int).drop_first() =~= s@.subrange(i + 1, n as int));
        i += 1;
    }
    let ghost d = s@.subrange(i as int, n as int);
    assert(sans_bord_debut(s@) == d);
    let mut j: usize = n;
    while j > i && (s[j - 1] == '.' || est_blanc(s[j - 1]))
        invariant
            n == s@.len(),
            i <= j <= n,
            sans_bord_fin(d) == sans_bord_fin(s@.subrange(i as int, j as int)),
        decreases j,
    {
        assert(s@.subrange(i as int, j as int).drop_last() =~= s@.subrange(i as int, j - 1));
        j -= 1;
    }
    slice_subrange(s, i, j)
}

fn est_reserve(nom: &[char]) -> (r: bool)
    ensures
        r == nom_reserve(nom@),
{
    let base = match indice(nom, '.') {
        Some(i) => slice_subrange(nom, 0, i),
        None => nom,
    };
    let racine = en_majuscules(base);
    let s = racine.as_slice();
    if epelle(s, "CON") || epelle(s, "PRN") || epelle(s, "AUX") || epelle(s, "NUL") {
        return true;
    }
    if s.len() != 4 {
        return false;
    }
    let p = slice_subrange(s, 0, 3);
    (epelle(p, "COM") || epelle(p, "LPT")) && '0' <= s[3] && s[3] <= '9'
}

fn borner(nom: &[char]) -> (r: Vec<char>)
    ensures
        r@ == nom_borne(nom@),
{
    let n: usize = nom.len();
    if n <= 150 {
        return slice_to_vec(nom);
    }
    let debut: usize = match dernier_indice(nom, '.') {
        Some(i) => i,
        None => n,
    };
    proof {
        nom@.index_of_last_ensures('.');
    }
    let ext = slice_subrange(nom, debut, n);
    let m: usize = if ext.len() < 16 {
        ext.len()
    } else {
        16
    };
    let courte = slice_subrange(ext, 0, m);
    let mut r = slice_to_vec(slice_subrange(nom, 0, 150 - m));
    ajouter_car(&mut r, courte);
    proof {
        let e = match nom@.index_of_last('.') {
            Some(i) => nom@.subrange(i, nom@.len() as int),
            None => Seq::empty(),
        };
        assert(ext@ =~= e);
        assert(courte@ =~= e.take(m as int));
        assert(r@ =~= nom@.take(150 - m) + courte@);
    }
    r
}

/// Safe file name for an attachment: the name that the sender gave is not to be
/// trusted. Only its last segment is kept, never a path, without a control
/// character nor a character forbidden under Windows, without dots and white space at
/// its ends, and of bounded length. A name of which nothing is left, or that designates
/// a device, becomes `piece-jointe-N` with the extension of the type.
pub fn nom_sur(nom: &str, indice: usize, type_mime: &str) -> (r: String)
    requires
        indice < usize::MAX,
    ensures
        r@ == nom_assaini(nom@, indice as int, type_mime@),
{
    let c = caracteres(nom);
    let p = epurer(c.as_slice());
    if p.len() == 0 || est_reserve(p.as_slice()) {
        let mut d = caracteres("piece-jointe-");
        let n = ecrire_u64((indice + 1) as u64);
        ajouter_car(&mut d, n.as_slice());
        ajouter(&mut d, extension_de(type_mime));
        let b = borner(d.as_slice());
        chaine(b.as_slice())
    } else {
        let b = borner(p.as_slice());
        chaine(b.as_slice())
    }
}

fn est_executable(e: &[char]) -> (r: bool)
    ensures
        r == extension_executable(e@),
{
    epelle(e, "exe")
        || epelle(e, "com")
        || epelle(e, "bat")
        || epelle(e, "cmd")
        || epelle(e, "scr")
        || epelle(e, "pif")
        || epelle(e, "msi")
        || epelle(e, "msp")
        || epelle(e, "mst")
        || epelle(e, "jar")
        || epelle(e, "js")
        || epelle(e, "jse")
        || epelle(e, "vbs")
        || epelle(e, "vbe")
        || epelle(e, "wsf")
        || epelle(e, "wsh")
        || epelle(e, "wsc")
        || epelle(e, "ps1")
        || epelle(e, "psm1")
        || epelle(e, "psd1")
        || epelle(e, "hta")
        || epelle(e, "cpl")
        || epelle(e, "lnk")
        || epelle(e, "url")
        || epelle(e, "reg")
        || epelle(e, "inf")
        || epelle(e, "dll")
        || epelle(e, "sys")
        || epelle(e, "msc")
        || epelle(e, "application")
        || epelle(e, "appref-ms")
        || epelle(e, "gadget")
        || epelle(e, "appx")
        || epelle(e, "appxbundle")
        || epelle(e, "msix")
        || epelle(e, "msixbundle")
        || epelle(e, "iso")
        || epelle(e, "img")
        || epelle(e, "vhd")
        || epelle(e, "vhdx")
        || epelle(e, "scf")
        || epelle(e, "sct")
        || epelle(e, "settingcontent-ms")
        || epelle(e, "sh")
        || epelle(e, "run")
        || epelle(e, "desktop")
        || epelle(e, "appimage")
        || epelle(e, "apk")
        || epelle(e, "py")
        || epelle(e, "pl")
        || epelle(e, "command")
        || epelle(e, "app")
        || epelle(e, "pkg")
        || epelle(e, "dmg")
}

/// True if opening this file with a double click would start a program or a script.
/// Such attachments are not opened: they are saved.
pub fn ouverture_risquee(nom: &str) -> (r: bool)
    ensures
        r == risque(nom@),
{
    let c = caracteres(nom);
    let n: usize = c.len();
    match dernier_indice(c.as_slice(), '.') {
        Some(i) => {
            let e = en_minuscules(slice_subrange(c.as_slice(), i + 1, n));
            est_executable(e.as_slice())
        },
        None => false,
    }
}

/// An optional name, empty where it lacks.
fn nom_donne(p: &PieceLue) -> (r: String)
    ensures
        r@ == p@.nom.unwrap_or(Seq::empty()),
{
    match &p.nom {
        Some(t) => t.clone(),
        None => String::new(),
    }
}

/// Attachments of a message, given what the mail parser found of them.
pub fn pieces_du_message(lues: Option<Vec<PieceLue>>) -> (r: Vec<PieceJointe>)
    ensures
        vues_jointes(r@) == (match lues {
            Some(v) => pieces_montrees(vues_pieces(v@)),
            None => Seq::empty(),
        }),
{
    let mut r: Vec<PieceJointe> = Vec::new();
    assert(vues_jointes(r@) =~= Seq::empty());
    match lues {
        None => {},
        Some(v) => {
            let ghost t = vues_pieces(v@);
            for i in 0..v.len()
                invariant
                    t == vues_pieces(v@),
                    vues_jointes(r@) =~= pieces_montrees(t).take(i as int),
            {
                let type_mime = type_de(&v[i]);
                let donne = nom_donne(&v[i]);
                let nom = nom_sur(donne.as_str(), i, type_mime.as_str());
                let risquee = ouverture_risquee(nom.as_str());
                let p = PieceJointe { indice: i, nom, type_mime, taille: v[i].contenu.len(), risquee };
                let ghost avant = vues_jointes(r@);
                let ghost q = p@;
                r.push(p);
                assert(vues_jointes(r@) =~= avant.push(q));
                assert(q == piece_montree(i as int, t[i as int]));
            }
            assert(pieces_montrees(t).take(t.len() as int) =~= pieces_montrees(t));
        },
    }
    r
}

/// Attachments of a whole message, in the order of the message.
pub fn pieces_jointes(brut: &[u8]) -> (r: Vec<PieceJointe>)
    ensures
        vues_jointes(r@) == (match pieces_du_brut(brut@) {
            Some(v) => pieces_montrees(v),
            None => Seq::empty(),
        }),
{
    let lues = lire_pieces(brut);
    pieces_du_message(lues)
}

/// The safe name and the content of an attachment designated by its rank.
pub open spec fn piece_extraite(lues: Option<Seq<PieceLueVue>>, indice: int) -> Option<
    (Seq<char>, Seq<u8>),
> {
    match lues {
        Some(v) => if 0 <= indice < v.len() {
            Some((piece_montree(indice, v[indice]).nom, v[indice].contenu))
        } else {
            None
        },
        None => None,
    }
}

/// Safe name and content of an attachment designated by its rank, given what the
/// mail parser found.
pub fn piece_du_message(lues: Option<Vec<PieceLue>>, indice: usize) -> (r: Option<
    (String, Vec<u8>),
>)
    ensures
        (match r {
            Some((n, c)) => Some((n@, c@)),
            None => None,
        }) == piece_extraite(
            match lues {
                Some(v) => Some(vues_pieces(v@)),
                None => None,
            },
            indice as int,
        ),
{
    match lues {
        None => None,
        Some(v) => {
            let n: usize = v.len();
            if indice < n {
                let type_mime = type_de(&v[indice]);
                let donne = nom_donne(&v[indice]);
                let nom = nom_sur(donne.as_str(), indice, type_mime.as_str());
                proof {
                    assert(vues_pieces(v@)[indice as int] == v@[indice as int]@);
                }
                Some((nom, slice_to_vec(v[indice].contenu.as_slice())))
            } else {
                None
            }
        },
    }
}

/// Safe name and content of an attachment designated by its rank.
pub fn extraire_piece(brut: &[u8], indice: usize) -> (r: Option<(String, Vec<u8>)>)
    ensures
        (match r {
            Some((n, c)) => Some((n@, c@)),
            None => None,
        }) == piece_extraite(pieces_du_brut(brut@), indice as int),
{
    let lues = lire_pieces(brut);
    piece_du_message(lues, indice)
}

// ------------------------------------------------------------------------------ laws

/// Whether a file name holds no forbidden character: no path, no control character.
pub open spec fn nom_sain(nom: Seq<char>) -> bool {
    forall|i: int| 0 <= i < nom.len() ==> !interdit(#[trigger] nom[i])
}

proof fn lemme_bord_debut(s: Seq<char>)
    requires
        nom_sain(s),
    ensures
        nom_sain(sans_bord_debut(s)),
        sans_bord_debut(s).len() > 0 ==> !bord(sans_bord_debut(s)[0]),
    decreases s.len(),
{
    if s.len() > 0 && bord(s[0]) {
        lemme_bord_debut(s.drop_first());
    }
}

proof fn lemme_bord_fin(s: Seq<char>)
    requires
        nom_sain(s),
    ensures
        nom_sain(sans_bord_fin(s)),
        sans_bord_fin(s).len() > 0 ==> sans_bord_fin(s)[0] == s[0] && !bord(
            sans_bord_fin(s).last(),
        ),
    decreases s.len(),
{
    if s.len() > 0 && bord(s.last()) {
        lemme_bord_fin(s.drop_last());
    }
}

pub proof fn lemme_interdits(c: char)
    ensures
        interdit(c) <==> controle(c) || c == '<' || c == '>' || c == ':' || c == '"' || c == '/'
            || c == '\\' || c == '|' || c == '?' || c == '*',
{
    reveal_strlit("<>:\"/\\|?*");
    let s = "<>:\"/\\|?*"@;
    assert(s[0] == '<' && s[1] == '>' && s[2] == ':' && s[3] == '"' && s[4] == '/' && s[5] == '\\'
        && s[6] == '|' && s[7] == '?' && s[8] == '*' && s.len() == 9);
}

proof fn lemme_propre_sain(nom: Seq<char>)
    ensures
        nom_sain(nom_propre(nom)),
        nom_propre(nom).len() > 0 ==> !bord(nom_propre(nom)[0]) && !bord(nom_propre(nom).last()),
{
    let f = |c: char|
        if interdit(c) {
            '_'
        } else {
            c
        };
    let t = dernier_segment(nom).map_values(f);
    lemme_interdits('_');
    assert(nom_sain(t));
    lemme_bord_debut(t);
    lemme_bord_fin(sans_bord_debut(t));
}

proof fn lemme_defaut_sain(indice: nat, type_mime: Seq<char>)
    ensures
        nom_sain(nom_par_defaut(indice as int, type_mime)),
        nom_par_defaut(indice as int, type_mime).len() > 0,
        !bord(nom_par_defaut(indice as int, type_mime)[0]),
        !bord(nom_par_defaut(indice as int, type_mime).last()),
{
    reveal_strlit("piece-jointe-");
    reveal_strlit(".pdf");
    reveal_strlit(".png");
    reveal_strlit(".jpg");
    reveal_strlit(".gif");
    reveal_strlit(".txt");
    reveal_strlit(".html");
    reveal_strlit(".ics");
    reveal_strlit(".eml");
    reveal_strlit(".bin");
    let n = nom_par_defaut(indice as int, type_mime);
    let d = decimal((indice + 1) as nat);
    let e = extension_de_type(type_mime);
    let p = "piece-jointe-"@;
    lemme_decimal((indice + 1) as nat);
    assert forall|i: int| 0 <= i < n.len() implies !interdit(#[trigger] n[i]) by {
        lemme_interdits(n[i]);
        if i < p.len() {
            assert(n[i] == p[i]);
        } else if i < p.len() + d.len() {
            assert(n[i] == d[i - p.len()]);
        } else {
            assert(n[i] == e[i - p.len() - d.len()]);
        }
    }
}

/// The name under which an attachment is written is never empty, has at most 150
/// characters, and none that could lead out of the folder or that a file system
/// refuses. It starts with neither a dot nor white space, and ends with neither unless
/// it was cut: so it is neither the folder itself nor the one above it.
pub proof fn loi_nom_sain(nom: Seq<char>, indice: nat, type_mime: Seq<char>)
    ensures
        nom_sain(nom_assaini(nom, indice as int, type_mime)),
        !nom_assaini(nom, indice as int, type_mime).contains('/'),
        !nom_assaini(nom, indice as int, type_mime).contains('\\'),
        0 < nom_assaini(nom, indice as int, type_mime).len() <= 150,
        !bord(nom_assaini(nom, indice as int, type_mime)[0]),
        nom_assaini(nom, indice as int, type_mime).len() < 150 ==> !bord(
            nom_assaini(nom, indice as int, type_mime).last(),
        ),
        nom_assaini(nom, indice as int, type_mime) != "."@,
        nom_assaini(nom, indice as int, type_mime) != ".."@,
{
    lemme_propre_sain(nom);
    lemme_defaut_sain(indice, type_mime);
    reveal_strlit(".");
    reveal_strlit("..");
    let p = nom_propre(nom);
    let b = if p.len() == 0 || nom_reserve(p) {
        nom_par_defaut(indice as int, type_mime)
    } else {
        p
    };
    assert(nom_sain(b) && b.len() > 0);
    b.index_of_last_ensures('.');
    let r = nom_borne(b);
    assert(nom_sain(r));
    lemme_interdits('/');
    lemme_interdits('\\');
    assert forall|i: int| 0 <= i < r.len() implies r[i] != '/' && r[i] != '\\' by {
        assert(!interdit(r[i]));
    }
}

/// Whether a file is risky to open depends on what follows the last dot of its name
/// alone, whatever the case it is written in; a name without a dot is not.
pub proof fn loi_risque_par_extension(a: Seq<char>, b: Seq<char>, extension: Seq<char>)
    requires
        !extension.contains('.'),
    ensures
        risque(a + seq!['.'] + extension) == risque(b + seq!['.'] + extension),
        risque(a + seq!['.'] + extension) == risque(majuscules(a + seq!['.'] + extension)),
        !risque(extension),
{
    lemme_extension(a, extension);
    lemme_extension(b, extension);
    let s = a + seq!['.'] + extension;
    let e = majuscules(extension);
    assert(!e.contains('.')) by {
        if e.contains('.') {
            let i = e.index_of('.');
            assert(e[i] == majuscule(extension[i]));
            assert(extension[i] == '.');
        }
    }
    lemme_extension(majuscules(a), e);
    assert(majuscules(s) =~= majuscules(a) + seq!['.'] + e);
    assert(minuscules(e) =~= minuscules(extension)) by {
        assert forall|i: int| 0 <= i < e.len() implies minuscules(e)[i] == minuscules(extension)[i] by {
            assert(e[i] == majuscule(extension[i]));
        }
    }
    extension.index_of_last_ensures('.');
}

/// What follows the last dot of a name is its extension.
pub proof fn lemme_extension(a: Seq<char>, extension: Seq<char>)
    requires
        !extension.contains('.'),
    ensures
        risque(a + seq!['.'] + extension) == extension_executable(minuscules(extension)),
{
    let s = a + seq!['.'] + extension;
    let n = a.len() as int;
    s.index_of_last_ensures('.');
    assert(s[n] == '.');
    assert(s.contains('.'));
    let i = s.index_of_last('.')->0;
    if i > n {
        assert(extension[i - n - 1] == '.');
        assert(extension.contains('.'));
    }
    assert(i == n);
    assert(s.subrange(n + 1, s.len() as int) =~= extension);
}

} // verus!
