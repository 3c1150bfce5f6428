//! Reduction of an HTML text to plain text that keeps its lines.
//!
//! This is no rendering: it gives what it takes to read a message that was laid
//! out. Invisible content (head, styles, scripts, comments) is left out, blocks and
//! table rows start a line, list items are marked, entities are decoded.

use vstd::prelude::*;
use vstd::slice::{slice_subrange, slice_to_vec};

use crate::nombre::{
    decimal, entier, entier_base, hexadecimal, lemme_decimal, lemme_hexadecimal, lire_entier_base,
    lire_u32,
};
use crate::texte::{
    ajouter, ajouter_car, alphanumerique, blanc, caracteres, chaine, chaines, chercher_texte,
    debute, decouper_lignes, decouper_mots, dernier_champ, egal_car, en_minuscules, epelle,
    est_alphanumerique, indice, joindre, jointure, lemme_mots, lemme_mots_blancs,
    lemme_mots_dernier, lemme_mots_joints_lignes, lemme_mots_separes, lignes, lire_dernier_champ,
    loi_mots_des_lignes, loi_mots_joints, minuscule, minuscules, mot, mots, mots_des_lignes,
    occurrence, oter_debut, oter_prefixe, position, rogner, sans_blancs, sans_blancs_fin,
    sans_debut, textes, vues_car,
};

verus! {

// ------------------------------------------------------------------------ entities

/// Whether a character is invisible: a soft hyphen or a joiner.
pub open spec fn invisible(c: char) -> bool {
    c == '\u{ad}' || c == '\u{200b}' || c == '\u{200c}' || c == '\u{200d}' || c == '\u{feff}'
}

/// The code that a numeric entity writes, after its hash.
pub open spec fn code_entite(s: Seq<char>) -> Option<nat> {
    if s.len() > 0 && (s[0] == 'x' || s[0] == 'X') {
        entier_base(s.drop_first(), 16, u32::MAX as nat)
    } else {
        entier(s, u32::MAX as nat)
    }
}

/// What a code stands for: its character, or nothing where this one is invisible.
pub open spec fn texte_de_code(n: nat) -> Option<Seq<char>> {
    if n < 0xD800 || 0xDFFF < n <= 0x10FFFF {
        if invisible(n as char) {
            Some(Seq::empty())
        } else {
            Some(seq![n as char])
        }
    } else {
        None
    }
}

/// What a named entity stands for.
pub open spec fn entite_nommee(nom: Seq<char>) -> Option<Seq<char>> {
    if nom == "nbsp"@ || nom == "ensp"@ || nom == "emsp"@ || nom == "thinsp"@ {
        Some(" "@)
    } else if nom == "shy"@ || nom == "zwnj"@ || nom == "zwj"@ {
        Some(""@)
    } else if nom == "amp"@ {
        Some("&"@)
    } else if nom == "lt"@ {
        Some("<"@)
    } else if nom == "gt"@ {
        Some(">"@)
    } else if nom == "quot"@ {
        Some("\""@)
    } else if nom == "apos"@ {
        Some("'"@)
    } else if nom == "eacute"@ {
        Some("é"@)
    } else if nom == "egrave"@ {
        Some("è"@)
    } else if nom == "ecirc"@ {
        Some("ê"@)
    } else if nom == "euml"@ {
        Some("ë"@)
    } else if nom == "agrave"@ {
        Some("à"@)
    } else if nom == "aacute"@ {
        Some("á"@)
    } else if nom == "acirc"@ {
        Some("â"@)
    } else if nom == "auml"@ {
        Some("ä"@)
    } else if nom == "ccedil"@ {
        Some("ç"@)
    } else if nom == "icirc"@ {
        Some("î"@)
    } else if nom == "iuml"@ {
        Some("ï"@)
    } else if nom == "ocirc"@ {
        Some("ô"@)
    } else if nom == "ouml"@ {
        Some("ö"@)
    } else if nom == "ugrave"@ {
        Some("ù"@)
    } else if nom == "ucirc"@ {
        Some("û"@)
    } else if nom == "uuml"@ {
        Some("ü"@)
    } else if nom == "Eacute"@ {
        Some("É"@)
    } else if nom == "Egrave"@ {
        Some("È"@)
    } else if nom == "Ecirc"@ {
        Some("Ê"@)
    } else if nom == "Agrave"@ {
        Some("À"@)
    } else if nom == "Ccedil"@ {
        Some("Ç"@)
    } else if nom == "oelig"@ {
        Some("œ"@)
    } else if nom == "OElig"@ {
        Some("Œ"@)
    } else if nom == "aelig"@ {
        Some("æ"@)
    } else if nom == "rsquo"@ {
        Some("’"@)
    } else if nom == "lsquo"@ {
        Some("‘"@)
    } else if nom == "rdquo"@ {
        Some("”"@)
    } else if nom == "ldquo"@ {
        Some("“"@)
    } else if nom == "laquo"@ {
        Some("«"@)
    } else if nom == "raquo"@ {
        Some("»"@)
    } else if nom == "hellip"@ {
        Some("…"@)
    } else if nom == "ndash"@ {
        Some("–"@)
    } else if nom == "mdash"@ {
        Some("—"@)
    } else if nom == "euro"@ {
        Some("€"@)
    } else if nom == "copy"@ {
        Some("©"@)
    } else if nom == "reg"@ {
        Some("®"@)
    } else if nom == "trade"@ {
        Some("™"@)
    } else if nom == "deg"@ {
        Some("°"@)
    } else if nom == "middot"@ {
        Some("·"@)
    } else if nom == "bull"@ {
        Some("•"@)
    } else if nom == "times"@ {
        Some("×"@)
    } else {
        None
    }
}

/// What an entity stands for, given what is between `&` and `;`.
pub open spec fn valeur_entite(nom: Seq<char>) -> Option<Seq<char>> {
    if nom.len() > 0 && nom[0] == '#' {
        match code_entite(nom.drop_first()) {
            Some(n) => texte_de_code(n),
            None => None,
        }
    } else {
        entite_nommee(nom)
    }
}

/// The entity that starts a text after its `&`: where its `;` is, and what it
/// stands for. The `;` is one of the first twelve characters.
pub open spec fn entite_en_tete(s: Seq<char>) -> Option<(int, Seq<char>)> {
    match s.index_of_first(';') {
        Some(f) => if f < 12 {
            match valeur_entite(s.subrange(0, f)) {
                Some(v) => Some((f, v)),
                None => None,
            }
        } else {
            None
        },
        None => None,
    }
}

/// A text with its entities decoded; an unknown one is left as it is.
pub open spec fn entites_decodees(s: Seq<char>) -> Seq<char>
    decreases s.len(),
    via entites_decroit
{
    match s.index_of_first('&') {
        None => s,
        Some(i) => {
            let apres = s.subrange(i + 1, s.len() as int);
            s.subrange(0, i) + match entite_en_tete(apres) {
                Some((f, v)) => v + entites_decodees(apres.subrange(f + 1, apres.len() as int)),
                None => seq!['&'] + entites_decodees(apres),
            }
        },
    }
}

#[via_fn]
proof fn entites_decroit(s: Seq<char>) {
    s.index_of_first_ensures('&');
    if let Some(i) = s.index_of_first('&') {
        let apres = s.subrange(i + 1, s.len() as int);
        apres.index_of_first_ensures(';');
    }
}

fn lire_code(s: &[char]) -> (r: Option<u32>)
    ensures
        match r {
            Some(n) => code_entite(s@) == Some(n as nat),
            None => code_entite(s@) is None,
        },
{
    let n: usize = s.len();
    if n > 0 && (s[0] == 'x' || s[0] == 'X') {
        let t = slice_subrange(s, 1, n);
        assert(t@ =~= s@.drop_first());
        match lire_entier_base(t, 16, u32::MAX as u64) {
            Some(v) => Some(v as u32),
            None => None,
        }
    } else {
        lire_u32(s)
    }
}

fn lire_entite_nommee(nom: &[char]) -> (r: Option<&'static str>)
    ensures
        match r {
            Some(t) => entite_nommee(nom@) == Some(t@),
            None => entite_nommee(nom@) is None,
        },
{
    if epelle(nom, "nbsp") || epelle(nom, "ensp") || epelle(nom, "emsp") || epelle(nom, "thinsp") {
        Some(" ")
    } else if epelle(nom, "shy") || epelle(nom, "zwnj") || epelle(nom, "zwj") {
        Some("")
    } else if epelle(nom, "amp") {
        Some("&")
    } else if epelle(nom, "lt") {
        Some("<")
    } else if epelle(nom, "gt") {
        Some(">")
    } else if epelle(nom, "quot") {
        Some("\"")
    } else if epelle(nom, "apos") {
        Some("'")
    } else if epelle(nom, "eacute") {
        Some("é")
    } else if epelle(nom, "egrave") {
        Some("è")
    } else if epelle(nom, "ecirc") {
        Some("ê")
    } else if epelle(nom, "euml") {
        Some("ë")
    } else if epelle(nom, "agrave") {
        Some("à")
    } else if epelle(nom, "aacute") {
        Some("á")
    } else if epelle(nom, "acirc") {
        Some("â")
    } else if epelle(nom, "auml") {
        Some("ä")
    } else if epelle(nom, "ccedil") {
        Some("ç")
    } else if epelle(nom, "icirc") {
        Some("î")
    } else if epelle(nom, "iuml") {
        Some("ï")
    } else if epelle(nom, "ocirc") {
        Some("ô")
    } else if epelle(nom, "ouml") {
        Some("ö")
    } else if epelle(nom, "ugrave") {
        Some("ù")
    } else if epelle(nom, "ucirc") {
        Some("û")
    } else if epelle(nom, "uuml") {
        Some("ü")
    } else if epelle(nom, "Eacute") {
        Some("É")
    } else if epelle(nom, "Egrave") {
        Some("È")
    } else if epelle(nom, "Ecirc") {
        Some("Ê")
    } else if epelle(nom, "Agrave") {
        Some("À")
    } else if epelle(nom, "Ccedil") {
        Some("Ç")
    } else if epelle(nom, "oelig") {
        Some("œ")
    } else if epelle(nom, "OElig") {
        Some("Œ")
    } else if epelle(nom, "aelig") {
        Some("æ")
    } else if epelle(nom, "rsquo") {
        Some("’")
    } else if epelle(nom, "lsquo") {
        Some("‘")
    } else if epelle(nom, "rdquo") {
        Some("”")
    } else if epelle(nom, "ldquo") {
        Some("“")
    } else if epelle(nom, "laquo") {
        Some("«")
    } else if epelle(nom, "raquo") {
        Some("»")
    } else if epelle(nom, "hellip") {
        Some("…")
    } else if epelle(nom, "ndash") {
        Some("–")
    } else if epelle(nom, "mdash") {
        Some("—")
    } else if epelle(nom, "euro") {
        Some("€")
    } else if epelle(nom, "copy") {
        Some("©")
    } else if epelle(nom, "reg") {
        Some("®")
    } else if epelle(nom, "trade") {
        Some("™")
    } else if epelle(nom, "deg") {
        Some("°")
    } else if epelle(nom, "middot") {
        Some("·")
    } else if epelle(nom, "bull") {
        Some("•")
    } else if epelle(nom, "times") {
        Some("×")
    } else {
        None
    }
}

/// Reads an entity, given what is between `&` and `;`: numeric (`#233`, `#xE9`) or
/// one of the most common names.
pub fn entite(nom: &[char]) -> (r: Option<Vec<char>>)
    ensures
        match r {
            Some(v) => valeur_entite(nom@) == Some(v@),
            None => valeur_entite(nom@) is None,
        },
{
    let n: usize = nom.len();
    if n > 0 && nom[0] == '#' {
        let t = slice_subrange(nom, 1, n);
        assert(t@ =~= nom@.drop_first());
        return match lire_code(t) {
            None => None,
            Some(code) => match char::from_u32(code) {
                None => None,
                Some(c) => {
                    let mut v: Vec<char> = Vec::new();
                    if !(c == '\u{ad}' || c == '\u{200b}' || c == '\u{200c}' || c == '\u{200d}' || c
                        == '\u{feff}') {
                        v.push(c);
                    }
                    assert(texte_de_code(code as nat) == Some(v@)) by {
                        assert(v@ =~= if invisible(c) {
                            Seq::empty()
                        } else {
                            seq![c]
                        });
                    }
                    Some(v)
                },
            },
        };
    }
    match lire_entite_nommee(nom) {
        Some(t) => Some(caracteres(t)),
        None => None,
    }
}

/// Reads the entity that starts a text after its `&`.
fn lire_entite_en_tete(s: &[char]) -> (r: Option<(usize, Vec<char>)>)
    ensures
        match r {
            Some((f, v)) => f < s@.len() && entite_en_tete(s@) == Some((f as int, v@)),
            None => entite_en_tete(s@) is None,
        },
{
    match indice(s, ';') {
        Some(f) => if f < 12 {
            match entite(slice_subrange(s, 0, f)) {
                Some(v) => Some((f, v)),
                None => None,
            }
        } else {
            None
        },
        None => None,
    }
}

fn decoder(s: &[char]) -> (r: Vec<char>)
    ensures
        r@ == entites_decodees(s@),
{
    let mut sortie: Vec<char> = Vec::new();
    let mut reste = s;
    assert(sortie@ + entites_decodees(reste@) =~= entites_decodees(s@));
    loop
        invariant
            sortie@ + entites_decodees(reste@) == entites_decodees(s@),
        decreases reste@.len(),
    {
        let n: usize = reste.len();
        match indice(reste, '&') {
            None => {
                ajouter_car(&mut sortie, reste);
                return sortie;
            },
            Some(i) => {
                let ghost s0 = sortie@;
                let ghost r0 = reste@;
                ajouter_car(&mut sortie, slice_subrange(reste, 0, i));
                let apres = slice_subrange(reste, i + 1, n);
                let m: usize = apres.len();
                match lire_entite_en_tete(apres) {
                    Some((f, v)) => {
                        ajouter_car(&mut sortie, v.as_slice());
                        reste = slice_subrange(apres, f + 1, m);
                        assert(s0 + entites_decodees(r0) =~= sortie@ + entites_decodees(reste@));
                    },
                    None => {
                        sortie.push('&');
                        reste = apres;
                        assert(s0 + entites_decodees(r0) =~= sortie@ + entites_decodees(reste@));
                    },
                }
            },
        }
    }
}

/// Decodes the HTML entities of a text: numeric ones (`&#233;`, `&#xE9;`) and the
/// most common names. An unknown entity is left as it is.
pub fn decoder_entites(texte: &str) -> (r: String)
    ensures
        r@ == entites_decodees(texte@),
{
    let c = caracteres(texte);
    let d = decoder(c.as_slice());
    chaine(d.as_slice())
}

// ---------------------------------------------------------------------------- tags

/// A text in which what breaks lines in the source is a space.
pub open spec fn en_espaces(s: Seq<char>) -> Seq<char> {
    s.map_values(
        |c: char|
            if c == '\n' || c == '\r' || c == '\t' {
                ' '
            } else {
                c
            },
    )
}

/// Whether the content of an element is never shown.
pub open spec fn element_cache(nom: Seq<char>) -> bool {
    ||| nom == "head"@
    ||| nom == "style"@
    ||| nom == "script"@
    ||| nom == "title"@
    ||| nom == "template"@
}

/// Whether an element is a block: it starts a line.
pub open spec fn element_bloc(nom: Seq<char>) -> bool {
    ||| nom == "p"@
    ||| nom == "div"@
    ||| nom == "tr"@
    ||| nom == "table"@
    ||| nom == "blockquote"@
    ||| nom == "ul"@
    ||| nom == "ol"@
    ||| nom == "hr"@
    ||| nom == "section"@
    ||| nom == "article"@
    ||| nom == "header"@
    ||| nom == "footer"@
    ||| nom == "center"@
    ||| nom == "pre"@
    ||| nom == "address"@
    ||| nom == "h1"@
    ||| nom == "h2"@
    ||| nom == "h3"@
    ||| nom == "h4"@
    ||| nom == "h5"@
    ||| nom == "h6"@
}

/// A text moved on to a new line, unless its last line is still blank: two blocks
/// in a row make no empty line between them.
pub open spec fn ligne_entamee(texte: Seq<char>) -> Seq<char> {
    if sans_blancs(dernier_champ(texte, '\n')).len() > 0 {
        texte.push('\n')
    } else {
        texte
    }
}

/// What a tag adds to the text.
pub open spec fn effet_balise(texte: Seq<char>, nom: Seq<char>, fermante: bool) -> Seq<char> {
    if nom == "br"@ {
        texte.push('\n')
    } else if element_bloc(nom) {
        ligne_entamee(texte)
    } else if nom == "li"@ && !fermante {
        ligne_entamee(texte) + "• "@
    } else if (nom == "td"@ || nom == "th"@) && fermante {
        texte + "   "@
    } else {
        texte
    }
}

/// The length of the run of ASCII letters and digits that starts a text.
pub open spec fn longueur_nom(s: Seq<char>) -> int
    decreases s.len(),
{
    if s.len() == 0 || !alphanumerique(s[0]) {
        0
    } else {
        1 + longueur_nom(s.drop_first())
    }
}

/// The name of a tag, in lower case.
pub open spec fn nom_balise(balise: Seq<char>) -> Seq<char> {
    let t = sans_debut(balise, '/');
    minuscules(t.subrange(0, longueur_nom(t)))
}

/// What is shown of a text, added to what was shown before it.
pub open spec fn montre(texte: Seq<char>, s: Seq<char>, ignorer: Option<Seq<char>>) -> Seq<char> {
    if ignorer is None {
        texte + en_espaces(s)
    } else {
        texte
    }
}

/// The text that HTML shows, added to `texte`. `ignorer` names the element whose
/// content is passed over up to its closing tag.
pub open spec fn texte_montre(reste: Seq<char>, texte: Seq<char>, ignorer: Option<Seq<char>>) -> Seq<
    char,
>
    decreases reste.len(),
    via texte_montre_decroit
{
    match reste.index_of_first('<') {
        None => montre(texte, reste, ignorer),
        Some(debut) => {
            let avant = montre(texte, reste.subrange(0, debut), ignorer);
            let apres = reste.subrange(debut, reste.len() as int);
            if debute(apres, "<!--"@) {
                match position(apres, "-->"@, 0) {
                    Some(f) => texte_montre(
                        apres.subrange(f + 3, apres.len() as int),
                        avant,
                        ignorer,
                    ),
                    None => avant,
                }
            } else {
                match apres.index_of_first('>') {
                    None => montre(avant, apres, ignorer),
                    Some(fin) => {
                        let balise = apres.subrange(1, fin);
                        let suite = apres.subrange(fin + 1, apres.len() as int);
                        let fermante = balise.len() > 0 && balise[0] == '/';
                        let nom = nom_balise(balise);
                        match ignorer {
                            Some(n) => if fermante && nom == n {
                                texte_montre(suite, avant, None)
                            } else {
                                texte_montre(suite, avant, ignorer)
                            },
                            None => if element_cache(nom) && !fermante {
                                texte_montre(suite, avant, Some(nom))
                            } else {
                                texte_montre(suite, effet_balise(avant, nom, fermante), None)
                            },
                        }
                    },
                }
            }
        },
    }
}

#[via_fn]
proof fn texte_montre_decroit(reste: Seq<char>, texte: Seq<char>, ignorer: Option<Seq<char>>) {
    reste.index_of_first_ensures('<');
    if let Some(debut) = reste.index_of_first('<') {
        let apres = reste.subrange(debut, reste.len() as int);
        apres.index_of_first_ensures('>');
        crate::texte::lemme_position(apres, "-->"@, 0);
        reveal_strlit("-->");
    }
}

/// Adds what is shown of a text.
fn montrer(texte: &mut Vec<char>, s: &[char], cache: bool)
    ensures
        final(texte)@ == (if cache {
            old(texte)@
        } else {
            old(texte)@ + en_espaces(s@)
        }),
{
    if cache {
        return ;
    }
    let ghost t0 = texte@;
    for i in 0..s.len()
        invariant
            texte@ =~= t0 + en_espaces(s@).take(i as int),
    {
        let c = s[i];
        texte.push(
            if c == '\n' || c == '\r' || c == '\t' {
                ' '
            } else {
                c
            },
        );
    }
    assert(en_espaces(s@).take(s@.len() as int) =~= en_espaces(s@));
}

/// Moves on to a new line, unless the last one is still blank.
pub fn a_la_ligne(texte: &mut Vec<char>)
    ensures
        final(texte)@ == ligne_entamee(old(texte)@),
{
    let vide = rogner(lire_dernier_champ(texte.as_slice(), '\n')).len() == 0;
    if !vide {
        texte.push('\n');
    }
}

fn est_cache(nom: &[char]) -> (r: bool)
    ensures
        r == element_cache(nom@),
{
    epelle(nom, "head")
        || epelle(nom, "style")
        || epelle(nom, "script")
        || epelle(nom, "title")
        || epelle(nom, "template")
}

fn est_bloc(nom: &[char]) -> (r: bool)
    ensures
        r == element_bloc(nom@),
{
    epelle(nom, "p")
        || epelle(nom, "div")
        || epelle(nom, "tr")
        || epelle(nom, "table")
        || epelle(nom, "blockquote")
        || epelle(nom, "ul")
        || epelle(nom, "ol")
        || epelle(nom, "hr")
        || epelle(nom, "section")
        || epelle(nom, "article")
        || epelle(nom, "header")
        || epelle(nom, "footer")
        || epelle(nom, "center")
        || epelle(nom, "pre")
        || epelle(nom, "address")
        || epelle(nom, "h1")
        || epelle(nom, "h2")
        || epelle(nom, "h3")
        || epelle(nom, "h4")
        || epelle(nom, "h5")
        || epelle(nom, "h6")
}

/// Applies what a tag adds to the text.
fn appliquer_balise(texte: &mut Vec<char>, nom: &[char], fermante: bool)
    ensures
        final(texte)@ == effet_balise(old(texte)@, nom@, fermante),
{
    if epelle(nom, "br") {
        texte.push('\n');
    } else if est_bloc(nom) {
        a_la_ligne(texte);
    } else if epelle(nom, "li") && !fermante {
        a_la_ligne(texte);
        ajouter(texte, "• ");
    } else if (epelle(nom, "td") || epelle(nom, "th")) && fermante {
        ajouter(texte, "   ");
    }
}

/// Reads the name of a tag.
fn lire_nom_balise(balise: &[char]) -> (r: Vec<char>)
    ensures
        r@ == nom_balise(balise@),
{
    let t = oter_debut(balise, '/');
    let mut i: usize = 0;
    assert(t@.subrange(0, t@.len() as int) =~= t@);
    while i < t.len() && est_alphanumerique(t[i])
        invariant
            i <= t@.len(),
            longueur_nom(t@) == i + longueur_nom(t@.subrange(i as int, t@.len() as int)),
        decreases t@.len() - i,
    {
        assert(t@.subrange(i as int, t@.len() as int).drop_first() =~= t@.subrange(
            i + 1,
            t@.len() as int,
        ));
        i += 1;
    }
    en_minuscules(slice_subrange(t, 0, i))
}

/// The text that HTML shows, before its lines are cleaned.
fn montrer_html(html: &[char]) -> (r: Vec<char>)
    ensures
        r@ == texte_montre(html@, Seq::empty(), None),
{
    let mut texte: Vec<char> = Vec::new();
    let mut reste = html;
    let mut ignorer: Option<Vec<char>> = None;
    loop
        invariant
            texte_montre(html@, Seq::empty(), None) == texte_montre(
                reste@,
                texte@,
                match ignorer {
                    Some(v) => Some(v@),
                    None => None,
                },
            ),
        decreases reste@.len(),
    {
        let n: usize = reste.len();
        let cache = ignorer.is_some();
        match indice(reste, '<') {
            None => {
                montrer(&mut texte, reste, cache);
                return texte;
            },
            Some(debut) => {
                proof {
                    reste@.index_of_first_ensures('<');
                    reveal_strlit("-->");
                }
                montrer(&mut texte, slice_subrange(reste, 0, debut), cache);
                let apres = slice_subrange(reste, debut, n);
                let m: usize = apres.len();
                if oter_prefixe(apres, "<!--").is_some() {
                    match chercher_texte(apres, "-->") {
                        Some(f) => {
                            reste = slice_subrange(apres, f + 3, m);
                        },
                        None => {
                            return texte;
                        },
                    }
                } else {
                    match indice(apres, '>') {
                        None => {
                            montrer(&mut texte, apres, cache);
                            return texte;
                        },
                        Some(fin) => {
                            proof {
                                apres@.index_of_first_ensures('>');
                            }
                            let balise = slice_subrange(apres, 1, fin);
                            let fermante = balise.len() > 0 && balise[0] == '/';
                            let nom = lire_nom_balise(balise);
                            reste = slice_subrange(apres, fin + 1, m);
                            ignorer =
                            match ignorer {
                                Some(attendu) => if fermante && egal_car(
                                    nom.as_slice(),
                                    attendu.as_slice(),
                                ) {
                                    None
                                } else {
                                    Some(attendu)
                                },
                                None => if est_cache(nom.as_slice()) && !fermante {
                                    Some(nom)
                                } else {
                                    appliquer_balise(&mut texte, nom.as_slice(), fermante);
                                    None
                                },
                            };
                        },
                    }
                }
            },
        }
    }
}

// --------------------------------------------------------------------------- lines

/// A line whose spaces are reduced to one between two words.
pub open spec fn ligne_propre(ligne: Seq<char>) -> Seq<char> {
    jointure(mots(ligne), " "@)
}

/// Lines with their spaces reduced, without an empty line at the start nor two of
/// them in a row.
pub open spec fn lignes_serrees(v: Seq<Seq<char>>) -> Seq<Seq<char>>
    decreases v.len(),
{
    if v.len() == 0 {
        Seq::empty()
    } else {
        let r = lignes_serrees(v.drop_last());
        let p = ligne_propre(v.last());
        if p.len() == 0 && (r.len() == 0 || r.last().len() == 0) {
            r
        } else {
            r.push(p)
        }
    }
}

/// Lines without the empty ones that end them.
pub open spec fn sans_vides_finales(v: Seq<Seq<char>>) -> Seq<Seq<char>>
    decreases v.len(),
{
    if v.len() > 0 && v.last().len() == 0 {
        sans_vides_finales(v.drop_last())
    } else {
        v
    }
}

/// The lines of the plain text that an HTML text is reduced to.
pub open spec fn lignes_de_html(html: Seq<char>) -> Seq<Seq<char>> {
    sans_vides_finales(
        lignes_serrees(lignes(entites_decodees(texte_montre(html, Seq::empty(), None)))),
    )
}

/// The plain text that an HTML text is reduced to.
pub open spec fn html_en_texte(html: Seq<char>) -> Seq<char> {
    jointure(lignes_de_html(html), "\n"@)
}

/// Reduces an HTML text to plain text that keeps its lines.
///
/// A block (`<div>`, `<p>`...) only asks to be at the start of a line, without an
/// empty line before it: mail programs put each line of a message in a block of its
/// own, and an empty line there is a block that holds a `<br>`. Only `<br>` always
/// adds a break.
pub fn html_vers_texte(html: &str) -> (r: String)
    ensures
        r@ == html_en_texte(html@),
{
    let c = caracteres(html);
    let brut = montrer_html(c.as_slice());
    let decode = decoder(brut.as_slice());
    let ls = decouper_lignes(decode.as_slice());
    let ghost tout = lignes(decode@);
    let mut r: Vec<String> = Vec::new();
    assert(textes(r@) =~= Seq::empty());
    for i in 0..ls.len()
        invariant
            tout == vues_car(ls@),
            textes(r@) == lignes_serrees(tout.take(i as int)),
    {
        proof {
            assert(tout.take(i + 1).drop_last() =~= tout.take(i as int));
            assert(tout.take(i + 1).last() == ls@[i as int]@);
        }
        let m = decouper_mots(ls[i].as_slice());
        let propre = joindre(&chaines(&m), " ");
        let ghost avant = textes(r@);
        let n: usize = r.len();
        proof {
            if n > 0 {
                assert(avant.last() == r@[n - 1]@);
            }
        }
        let superflue = propre.as_str().is_empty() && (n == 0 || r[n - 1].as_str().is_empty());
        if !superflue {
            let ghost p = propre@;
            r.push(propre);
            assert(textes(r@) =~= avant.push(p));
        }
    }
    assert(tout.take(tout.len() as int) =~= tout);
    let ghost serrees = textes(r@);
    while r.len() > 0 && r[r.len() - 1].as_str().is_empty()
        invariant
            sans_vides_finales(serrees) == sans_vides_finales(textes(r@)),
        decreases r@.len(),
    {
        let ghost avant = textes(r@);
        assert(avant.last() == r@[r@.len() - 1]@);
        r.pop();
        assert(textes(r@) =~= avant.drop_last());
    }
    proof {
        if r@.len() > 0 {
            assert(textes(r@).last() == r@[r@.len() - 1]@);
        }
    }
    joindre(&r, "\n")
}

// ---------------------------------------------------------------------------- laws

/// Whether lines have no empty one at their ends, nor two in a row.
pub open spec fn bien_serrees(v: Seq<Seq<char>>) -> bool {
    &&& v.len() > 0 ==> v[0].len() > 0 && v.last().len() > 0
    &&& forall|i: int| 0 <= i < v.len() - 1 ==> (#[trigger] v[i]).len() > 0 || v[i + 1].len() > 0
}

proof fn lemme_serrees(v: Seq<Seq<char>>)
    ensures
        lignes_serrees(v).len() > 0 ==> lignes_serrees(v)[0].len() > 0,
        forall|i: int|
            0 <= i < lignes_serrees(v).len() - 1 ==> (#[trigger] lignes_serrees(v)[i]).len() > 0
                || lignes_serrees(v)[i + 1].len() > 0,
    decreases v.len(),
{
    if v.len() > 0 {
        lemme_serrees(v.drop_last());
    }
}

proof fn lemme_sans_vides(v: Seq<Seq<char>>)
    ensures
        sans_vides_finales(v).len() <= v.len(),
        sans_vides_finales(v) == v.take(sans_vides_finales(v).len() as int),
        sans_vides_finales(v).len() > 0 ==> sans_vides_finales(v).last().len() > 0,
    decreases v.len(),
{
    if v.len() > 0 && v.last().len() == 0 {
        lemme_sans_vides(v.drop_last());
        assert(v.take(sans_vides_finales(v).len() as int) =~= v.drop_last().take(
            sans_vides_finales(v).len() as int,
        ));
    } else {
        assert(v.take(v.len() as int) =~= v);
    }
}

/// A text that was moved on to a new line is left as it is by another block: two
/// blocks in a row make no empty line between them.
pub proof fn loi_ligne_entamee(texte: Seq<char>)
    ensures
        ligne_entamee(ligne_entamee(texte)) == ligne_entamee(texte),
{
    let t = ligne_entamee(texte);
    if sans_blancs(dernier_champ(texte, '\n')).len() > 0 {
        t.index_of_last_ensures('\n');
        assert(t[t.len() - 1] == '\n');
        assert(t.contains('\n'));
        assert(dernier_champ(t, '\n') =~= Seq::empty());
    }
}

/// The plain text has no empty line at its start or at its end, and never two in a
/// row.
pub proof fn loi_lignes_vides(html: Seq<char>)
    ensures
        bien_serrees(lignes_de_html(html)),
{
    let v = lignes_serrees(lignes(entites_decodees(texte_montre(html, Seq::empty(), None))));
    lemme_serrees(lignes(entites_decodees(texte_montre(html, Seq::empty(), None))));
    lemme_sans_vides(v);
}

/// A text without `&` has no entity to decode.
pub proof fn loi_sans_entite(s: Seq<char>)
    requires
        !s.contains('&'),
    ensures
        entites_decodees(s) == s,
{
    s.index_of_first_ensures('&');
}

/// The content of an element that is never shown leaves no trace: reading on from
/// inside it adds nothing before a tag comes.
pub proof fn loi_contenu_cache(s: Seq<char>, texte: Seq<char>, nom: Seq<char>)
    requires
        !s.contains('<'),
    ensures
        texte_montre(s, texte, Some(nom)) == texte,
{
    s.index_of_first_ensures('<');
}

/// A comment leaves no trace, wherever it stands.
pub proof fn loi_commentaire(c: Seq<char>, suite: Seq<char>, texte: Seq<char>, ignorer: Option<Seq<char>>)
    requires
        position("<!--"@ + c + "-->"@ + suite, "-->"@, 0) == Some(4 + c.len() as int),
    ensures
        texte_montre("<!--"@ + c + "-->"@ + suite, texte, ignorer) == texte_montre(
            suite,
            texte,
            ignorer,
        ),
{
    reveal_strlit("<!--");
    reveal_strlit("-->");
    let s = "<!--"@ + c + "-->"@ + suite;
    s.index_of_first_ensures('<');
    assert(s[0] == '<');
    assert(s.index_of_first('<') == Some(0int));
    let apres = s.subrange(0, s.len() as int);
    assert(apres =~= s);
    assert(s.subrange(0, 4) =~= "<!--"@);
    assert(debute(s, "<!--"@));
    assert(s.subrange(c.len() as int + 7, s.len() as int) =~= suite);
    assert(montre(texte, s.subrange(0, 0), ignorer) =~= texte);
}

/// The name of an element that is never shown is made of letters.
proof fn lemme_nom_cache(nom: Seq<char>)
    requires
        element_cache(minuscules(nom)),
    ensures
        nom.len() > 0,
        forall|i: int| 0 <= i < nom.len() ==> alphanumerique(#[trigger] nom[i]),
{
    reveal_strlit("head");
    reveal_strlit("style");
    reveal_strlit("script");
    reveal_strlit("title");
    reveal_strlit("template");
    let m = minuscules(nom);
    assert(m.len() == nom.len());
    assert forall|i: int| 0 <= i < m.len() implies 'a' <= #[trigger] m[i] <= 'z' by {}
    assert forall|i: int| 0 <= i < nom.len() implies alphanumerique(#[trigger] nom[i]) by {
        assert(m[i] == minuscule(nom[i]));
    }
}

/// A run of letters and digits is a name as a whole.
proof fn lemme_nom_entier(nom: Seq<char>)
    requires
        forall|i: int| 0 <= i < nom.len() ==> alphanumerique(#[trigger] nom[i]),
    ensures
        longueur_nom(nom) == nom.len(),
    decreases nom.len(),
{
    if nom.len() > 0 {
        let t = nom.drop_first();
        assert forall|i: int| 0 <= i < t.len() implies alphanumerique(#[trigger] t[i]) by {
            assert(t[i] == nom[i + 1]);
        }
        lemme_nom_entier(t);
    }
}

/// A character is found where it first stands.
proof fn lemme_premier_car(avant: Seq<char>, c: char, apres: Seq<char>)
    requires
        !avant.contains(c),
    ensures
        (avant + seq![c] + apres).index_of_first(c) == Some(avant.len() as int),
{
    let s = avant + seq![c] + apres;
    s.index_of_first_ensures(c);
    assert(s[avant.len() as int] == c);
    assert(s.contains(c));
    let i = s.index_of_first(c)->0;
    if i < avant.len() {
        assert(avant[i] == c);
    }
}

/// Reading a text up to the end of its first tag.
proof fn lemme_balise(
    avant: Seq<char>,
    balise: Seq<char>,
    suite: Seq<char>,
    texte: Seq<char>,
    ignorer: Option<Seq<char>>,
)
    requires
        !avant.contains('<'),
        !balise.contains('>'),
        balise.len() > 0,
        balise[0] != '!',
    ensures
        ({
            let t = montre(texte, avant, ignorer);
            let fermante = balise[0] == '/';
            let nom = nom_balise(balise);
            texte_montre(avant + (seq!['<'] + balise + seq!['>'] + suite), texte, ignorer)
                == match ignorer {
                Some(n) => if fermante && nom == n {
                    texte_montre(suite, t, None)
                } else {
                    texte_montre(suite, t, ignorer)
                },
                None => if element_cache(nom) && !fermante {
                    texte_montre(suite, t, Some(nom))
                } else {
                    texte_montre(suite, effet_balise(t, nom, fermante), None)
                },
            }
        }),
{
    let apres = seq!['<'] + balise + seq!['>'] + suite;
    let tout = avant + apres;
    assert(tout =~= avant + seq!['<'] + (balise + seq!['>'] + suite));
    lemme_premier_car(avant, '<', balise + seq!['>'] + suite);
    assert(tout.subrange(0, avant.len() as int) =~= avant);
    assert(tout.subrange(avant.len() as int, tout.len() as int) =~= apres);
    assert(!debute(apres, "<!--"@)) by {
        reveal_strlit("<!--");
        if debute(apres, "<!--"@) {
            assert(apres.subrange(0, 4)[1] == apres[1]);
            assert(apres[1] == balise[0]);
        }
    }
    assert(!(seq!['<'] + balise).contains('>')) by {
        if (seq!['<'] + balise).contains('>') {
            let i = (seq!['<'] + balise).index_of('>');
            assert((seq!['<'] + balise)[i] == '>');
            assert(balise[i - 1] == '>');
        }
    }
    lemme_premier_car(seq!['<'] + balise, '>', suite);
    assert(apres.subrange(1, balise.len() as int + 1) =~= balise);
    assert(apres.subrange(balise.len() as int + 2, apres.len() as int) =~= suite);
}

/// An element that is never shown leaves no trace, whatever the case its name is
/// written in.
pub proof fn loi_element_cache(
    ouvre: Seq<char>,
    contenu: Seq<char>,
    ferme: Seq<char>,
    suite: Seq<char>,
    texte: Seq<char>,
)
    requires
        element_cache(minuscules(ouvre)),
        minuscules(ferme) == minuscules(ouvre),
        !contenu.contains('<'),
    ensures
        texte_montre(
            "<"@ + ouvre + ">"@ + contenu + "</"@ + ferme + ">"@ + suite,
            texte,
            None,
        ) == texte_montre(suite, texte, None),
{
    reveal_strlit("<");
    reveal_strlit(">");
    reveal_strlit("</");
    lemme_nom_cache(ouvre);
    lemme_nom_cache(ferme);
    lemme_nom_entier(ouvre);
    lemme_nom_entier(ferme);
    let vide = Seq::<char>::empty();
    let fin = seq!['/'] + ferme;
    assert(fin.drop_first() =~= ferme);
    assert(sans_debut(ferme, '/') == ferme);
    assert(sans_debut(fin, '/') == ferme);
    assert(ferme.subrange(0, ferme.len() as int) =~= ferme);
    assert(ouvre.subrange(0, ouvre.len() as int) =~= ouvre);
    let dedans = contenu + (seq!['<'] + fin + seq!['>'] + suite);
    assert("<"@ + ouvre + ">"@ + contenu + "</"@ + ferme + ">"@ + suite =~= vide + (seq!['<'] + ouvre
        + seq!['>'] + dedans)) by {
        assert("<"@ =~= seq!['<']);
        assert(">"@ =~= seq!['>']);
        assert("</"@ =~= seq!['<', '/']);
    }
    assert(!fin.contains('>')) by {
        if fin.contains('>') {
            let i = fin.index_of('>');
            assert(fin[i] == '>' && fin[i] == ferme[i - 1]);
        }
    }
    assert(en_espaces(vide) =~= vide);
    assert(montre(texte, vide, None) =~= texte);
    lemme_balise(vide, ouvre, dedans, texte, None);
    lemme_balise(contenu, fin, suite, texte, Some(minuscules(ouvre)));
}

/// A comment that holds no `>` and an element that is never shown leave no trace
/// before what follows them.
pub proof fn loi_cache_en_tete(c: Seq<char>, nom: Seq<char>, contenu: Seq<char>, suite: Seq<char>)
    requires
        !c.contains('>'),
        element_cache(minuscules(nom)),
        !contenu.contains('<'),
    ensures
        html_en_texte(
            "<!--"@ + c + "-->"@ + ("<"@ + nom + ">"@ + contenu + "</"@ + nom + ">"@ + suite),
        ) == html_en_texte(suite),
{
    let apres = "<"@ + nom + ">"@ + contenu + "</"@ + nom + ">"@ + suite;
    lemme_fin_commentaire(c, apres);
    loi_commentaire(c, apres, Seq::empty(), None);
    loi_element_cache(nom, contenu, nom, suite, Seq::empty());
}

/// A comment that holds no `>` ends where it is closed.
proof fn lemme_fin_commentaire(c: Seq<char>, suite: Seq<char>)
    requires
        !c.contains('>'),
    ensures
        position("<!--"@ + c + "-->"@ + suite, "-->"@, 0) == Some(4 + c.len() as int),
{
    reveal_strlit("<!--");
    reveal_strlit("-->");
    let s = "<!--"@ + c + "-->"@ + suite;
    let k = c.len() as int;
    crate::texte::lemme_position(s, "-->"@, 0);
    assert(s.subrange(4 + k, 4 + k + 3) =~= "-->"@);
    assert(occurrence(s, "-->"@, 4 + k));
    assert forall|j: int| 0 <= j < 4 + k implies !#[trigger] occurrence(s, "-->"@, j) by {
        if occurrence(s, "-->"@, j) {
            assert(s.subrange(j, j + 3)[2] == s[j + 2]);
            assert(s[j + 2] == '>');
            if j + 2 >= 4 && j + 2 < 4 + k {
                assert(s[j + 2] == c[j - 2]);
                assert(c.contains(c[j - 2]));
            }
        }
    }
}

/// A numeric entity stands for the character whose code it writes, in decimal or in
/// hexadecimal; one that would be invisible is left out.
pub proof fn loi_entite_numerique(c: char)
    ensures
        ({
            let v = Some(
                if invisible(c) {
                    Seq::empty()
                } else {
                    seq![c]
                },
            );
            &&& valeur_entite(seq!['#'] + decimal(c as nat)) == v
            &&& valeur_entite(seq!['#', 'x'] + hexadecimal(c as nat)) == v
            &&& valeur_entite(seq!['#', 'X'] + hexadecimal(c as nat)) == v
        }),
{
    lemme_entite_numerique(c as nat);
    assert((c as nat) as char == c);
}

/// A numeric entity whose number is the code of no character stands for nothing.
pub proof fn loi_entite_sans_caractere(n: nat)
    requires
        0xD800 <= n <= 0xDFFF || n > 0x10FFFF,
    ensures
        valeur_entite(seq!['#'] + decimal(n)) is None,
        valeur_entite(seq!['#', 'x'] + hexadecimal(n)) is None,
        valeur_entite(seq!['#', 'X'] + hexadecimal(n)) is None,
{
    lemme_entite_numerique(n);
}

proof fn lemme_entite_numerique(n: nat)
    ensures
        valeur_entite(seq!['#'] + decimal(n)) == texte_de_code(n),
        valeur_entite(seq!['#', 'x'] + hexadecimal(n)) == texte_de_code(n),
        valeur_entite(seq!['#', 'X'] + hexadecimal(n)) == texte_de_code(n),
{
    lemme_decimal(n);
    lemme_hexadecimal(n);
    let d = seq!['#'] + decimal(n);
    assert(d.drop_first() =~= decimal(n));
    assert('0' <= decimal(n)[0] <= '9');
    let x = seq!['#', 'x'] + hexadecimal(n);
    assert(x.drop_first().drop_first() =~= hexadecimal(n));
    let y = seq!['#', 'X'] + hexadecimal(n);
    assert(y.drop_first().drop_first() =~= hexadecimal(n));
}

/// A text in which each ampersand is written as an entity.
pub open spec fn esperluettes_en_entites(s: Seq<char>) -> Seq<char>
    decreases s.len(),
{
    if s.len() == 0 {
        Seq::empty()
    } else if s[0] == '&' {
        "&amp;"@ + esperluettes_en_entites(s.drop_first())
    } else {
        seq![s[0]] + esperluettes_en_entites(s.drop_first())
    }
}

proof fn lemme_amp(suite: Seq<char>)
    ensures
        entite_en_tete("amp;"@ + suite) == Some((3int, seq!['&'])),
{
    reveal_strlit("amp;");
    reveal_strlit("amp");
    reveal_strlit("nbsp");
    reveal_strlit("ensp");
    reveal_strlit("emsp");
    reveal_strlit("thinsp");
    reveal_strlit("shy");
    reveal_strlit("zwnj");
    reveal_strlit("zwj");
    reveal_strlit("&");
    let s = "amp;"@ + suite;
    assert(s =~= "amp"@ + seq![';'] + suite);
    assert(!"amp"@.contains(';'));
    lemme_premier_car("amp"@, ';', suite);
    assert(s.subrange(0, 3) =~= "amp"@);
    assert("amp"@[0] == 'a' && "shy"@[0] == 's' && "zwj"@[0] == 'z');
    assert("&"@ =~= seq!['&']);
}

proof fn lemme_esperluettes(lu: Seq<char>, s: Seq<char>)
    requires
        !lu.contains('&'),
    ensures
        entites_decodees(lu + esperluettes_en_entites(s)) == lu + s,
    decreases s.len(),
{
    let e = esperluettes_en_entites(s);
    if s.len() == 0 {
        assert(lu + e =~= lu + s);
        assert(lu + s =~= lu);
        loi_sans_entite(lu);
    } else {
        let u = s.drop_first();
        let f = esperluettes_en_entites(u);
        let vide = Seq::<char>::empty();
        if s[0] == '&' {
            reveal_strlit("&amp;");
            reveal_strlit("amp;");
            let t = lu + e;
            let apres = "amp;"@ + f;
            assert(t =~= lu + seq!['&'] + apres);
            lemme_premier_car(lu, '&', apres);
            lemme_amp(f);
            assert(t.subrange(0, lu.len() as int) =~= lu);
            assert(t.subrange(lu.len() as int + 1, t.len() as int) =~= apres);
            assert(apres.subrange(4, apres.len() as int) =~= f);
            lemme_esperluettes(vide, u);
            assert(vide + f =~= f);
            assert(vide + u =~= u);
            assert(lu + (seq!['&'] + u) =~= lu + s);
        } else {
            let plus = lu.push(s[0]);
            assert(lu + e =~= plus + f);
            assert(!plus.contains('&')) by {
                if plus.contains('&') {
                    let i = plus.index_of('&');
                    assert(plus[i] == '&');
                    assert(lu[i] == '&');
                }
            }
            lemme_esperluettes(plus, u);
            assert(plus + u =~= lu + s);
        }
    }
}

/// A text whose ampersands were written as entities is read back as it was.
pub proof fn loi_entites_relues(s: Seq<char>)
    ensures
        entites_decodees(esperluettes_en_entites(s)) == s,
{
    let vide = Seq::<char>::empty();
    lemme_esperluettes(vide, s);
    assert(vide + esperluettes_en_entites(s) =~= esperluettes_en_entites(s));
    assert(vide + s =~= s);
}

/// The name of the entity that stands for a character, where there is one.
pub open spec fn nom_entite(c: char) -> Option<Seq<char>> {
    if c == '&' {
        Some("amp"@)
    } else if c == '<' {
        Some("lt"@)
    } else if c == '>' {
        Some("gt"@)
    } else if c == '"' {
        Some("quot"@)
    } else if c == '\'' {
        Some("apos"@)
    } else if c == '\u{e9}' {
        Some("eacute"@)
    } else if c == '\u{e8}' {
        Some("egrave"@)
    } else if c == '\u{ea}' {
        Some("ecirc"@)
    } else if c == '\u{eb}' {
        Some("euml"@)
    } else if c == '\u{e0}' {
        Some("agrave"@)
    } else if c == '\u{e1}' {
        Some("aacute"@)
    } else if c == '\u{e2}' {
        Some("acirc"@)
    } else if c == '\u{e4}' {
        Some("auml"@)
    } else if c == '\u{e7}' {
        Some("ccedil"@)
    } else if c == '\u{ee}' {
        Some("icirc"@)
    } else if c == '\u{ef}' {
        Some("iuml"@)
    } else if c == '\u{f4}' {
        Some("ocirc"@)
    } else if c == '\u{f6}' {
        Some("ouml"@)
    } else if c == '\u{f9}' {
        Some("ugrave"@)
    } else if c == '\u{fb}' {
        Some("ucirc"@)
    } else if c == '\u{fc}' {
        Some("uuml"@)
    } else if c == '\u{c9}' {
        Some("Eacute"@)
    } else if c == '\u{c8}' {
        Some("Egrave"@)
    } else if c == '\u{ca}' {
        Some("Ecirc"@)
    } else if c == '\u{c0}' {
        Some("Agrave"@)
    } else if c == '\u{c7}' {
        Some("Ccedil"@)
    } else if c == '\u{153}' {
        Some("oelig"@)
    } else if c == '\u{152}' {
        Some("OElig"@)
    } else if c == '\u{e6}' {
        Some("aelig"@)
    } else if c == '\u{2019}' {
        Some("rsquo"@)
    } else if c == '\u{2018}' {
        Some("lsquo"@)
    } else if c == '\u{201d}' {
        Some("rdquo"@)
    } else if c == '\u{201c}' {
        Some("ldquo"@)
    } else if c == '\u{ab}' {
        Some("laquo"@)
    } else if c == '\u{bb}' {
        Some("raquo"@)
    } else if c == '\u{2026}' {
        Some("hellip"@)
    } else if c == '\u{2013}' {
        Some("ndash"@)
    } else if c == '\u{2014}' {
        Some("mdash"@)
    } else if c == '\u{20ac}' {
        Some("euro"@)
    } else if c == '\u{a9}' {
        Some("copy"@)
    } else if c == '\u{ae}' {
        Some("reg"@)
    } else if c == '\u{2122}' {
        Some("trade"@)
    } else if c == '\u{b0}' {
        Some("deg"@)
    } else if c == '\u{b7}' {
        Some("middot"@)
    } else if c == '\u{2022}' {
        Some("bull"@)
    } else if c == '\u{d7}' {
        Some("times"@)
    } else {
        None
    }
}

/// Each character that has a name is what the entity of that name stands for; the
/// spaces that have one stand for a space, and the invisible characters for nothing.
#[verifier::spinoff_prover]
#[verifier::rlimit(80)]
pub proof fn loi_entite_nommee(c: char)
    ensures
        nom_entite(c) matches Some(n) ==> valeur_entite(n) == Some(seq![c]),
        valeur_entite("nbsp"@) == Some(seq![' ']),
        valeur_entite("ensp"@) == Some(seq![' ']),
        valeur_entite("emsp"@) == Some(seq![' ']),
        valeur_entite("thinsp"@) == Some(seq![' ']),
        valeur_entite("shy"@) == Some(Seq::<char>::empty()),
        valeur_entite("zwnj"@) == Some(Seq::<char>::empty()),
        valeur_entite("zwj"@) == Some(Seq::<char>::empty()),
{
    lemme_noms_entites();
    reveal_strlit(" ");
    reveal_strlit("");
    assert(" "@ =~= seq![' ']);
    assert(""@ =~= Seq::<char>::empty());
    reveal_strlit("&");
    reveal_strlit("<");
    reveal_strlit(">");
    reveal_strlit("\"");
    reveal_strlit("'");
    reveal_strlit("é");
    reveal_strlit("è");
    reveal_strlit("ê");
    reveal_strlit("ë");
    reveal_strlit("à");
    reveal_strlit("á");
    reveal_strlit("â");
    reveal_strlit("ä");
    reveal_strlit("ç");
    reveal_strlit("î");
    reveal_strlit("ï");
    reveal_strlit("ô");
    reveal_strlit("ö");
    reveal_strlit("ù");
    reveal_strlit("û");
    reveal_strlit("ü");
    reveal_strlit("É");
    reveal_strlit("È");
    reveal_strlit("Ê");
    reveal_strlit("À");
    reveal_strlit("Ç");
    reveal_strlit("œ");
    reveal_strlit("Œ");
    reveal_strlit("æ");
    reveal_strlit("’");
    reveal_strlit("‘");
    reveal_strlit("”");
    reveal_strlit("“");
    reveal_strlit("«");
    reveal_strlit("»");
    reveal_strlit("…");
    reveal_strlit("–");
    reveal_strlit("—");
    reveal_strlit("€");
    reveal_strlit("©");
    reveal_strlit("®");
    reveal_strlit("™");
    reveal_strlit("°");
    reveal_strlit("·");
    reveal_strlit("•");
    reveal_strlit("×");
    assert("&"@ =~= seq!['&']);
    assert("<"@ =~= seq!['<']);
    assert(">"@ =~= seq!['>']);
    assert("\""@ =~= seq!['"']);
    assert("'"@ =~= seq!['\'']);
    assert("é"@ =~= seq!['\u{e9}']);
    assert("è"@ =~= seq!['\u{e8}']);
    assert("ê"@ =~= seq!['\u{ea}']);
    assert("ë"@ =~= seq!['\u{eb}']);
    assert("à"@ =~= seq!['\u{e0}']);
    assert("á"@ =~= seq!['\u{e1}']);
    assert("â"@ =~= seq!['\u{e2}']);
    assert("ä"@ =~= seq!['\u{e4}']);
    assert("ç"@ =~= seq!['\u{e7}']);
    assert("î"@ =~= seq!['\u{ee}']);
    assert("ï"@ =~= seq!['\u{ef}']);
    assert("ô"@ =~= seq!['\u{f4}']);
    assert("ö"@ =~= seq!['\u{f6}']);
    assert("ù"@ =~= seq!['\u{f9}']);
    assert("û"@ =~= seq!['\u{fb}']);
    assert("ü"@ =~= seq!['\u{fc}']);
    assert("É"@ =~= seq!['\u{c9}']);
    assert("È"@ =~= seq!['\u{c8}']);
    assert("Ê"@ =~= seq!['\u{ca}']);
    assert("À"@ =~= seq!['\u{c0}']);
    assert("Ç"@ =~= seq!['\u{c7}']);
    assert("œ"@ =~= seq!['\u{153}']);
    assert("Œ"@ =~= seq!['\u{152}']);
    assert("æ"@ =~= seq!['\u{e6}']);
    assert("’"@ =~= seq!['\u{2019}']);
    assert("‘"@ =~= seq!['\u{2018}']);
    assert("”"@ =~= seq!['\u{201d}']);
    assert("“"@ =~= seq!['\u{201c}']);
    assert("«"@ =~= seq!['\u{ab}']);
    assert("»"@ =~= seq!['\u{bb}']);
    assert("…"@ =~= seq!['\u{2026}']);
    assert("–"@ =~= seq!['\u{2013}']);
    assert("—"@ =~= seq!['\u{2014}']);
    assert("€"@ =~= seq!['\u{20ac}']);
    assert("©"@ =~= seq!['\u{a9}']);
    assert("®"@ =~= seq!['\u{ae}']);
    assert("™"@ =~= seq!['\u{2122}']);
    assert("°"@ =~= seq!['\u{b0}']);
    assert("·"@ =~= seq!['\u{b7}']);
    assert("•"@ =~= seq!['\u{2022}']);
    assert("×"@ =~= seq!['\u{d7}']);
}

/// The letters of the names of entities.
proof fn lemme_noms_entites()
    ensures
        "nbsp"@ == seq!['n', 'b', 's', 'p'],
        "ensp"@ == seq!['e', 'n', 's', 'p'],
        "emsp"@ == seq!['e', 'm', 's', 'p'],
        "thinsp"@ == seq!['t', 'h', 'i', 'n', 's', 'p'],
        "shy"@ == seq!['s', 'h', 'y'],
        "zwnj"@ == seq!['z', 'w', 'n', 'j'],
        "zwj"@ == seq!['z', 'w', 'j'],
        "amp"@ == seq!['a', 'm', 'p'],
        "lt"@ == seq!['l', 't'],
        "gt"@ == seq!['g', 't'],
        "quot"@ == seq!['q', 'u', 'o', 't'],
        "apos"@ == seq!['a', 'p', 'o', 's'],
        "eacute"@ == seq!['e', 'a', 'c', 'u', 't', 'e'],
        "egrave"@ == seq!['e', 'g', 'r', 'a', 'v', 'e'],
        "ecirc"@ == seq!['e', 'c', 'i', 'r', 'c'],
        "euml"@ == seq!['e', 'u', 'm', 'l'],
        "agrave"@ == seq!['a', 'g', 'r', 'a', 'v', 'e'],
        "aacute"@ == seq!['a', 'a', 'c', 'u', 't', 'e'],
        "acirc"@ == seq!['a', 'c', 'i', 'r', 'c'],
        "auml"@ == seq!['a', 'u', 'm', 'l'],
        "ccedil"@ == seq!['c', 'c', 'e', 'd', 'i', 'l'],
        "icirc"@ == seq!['i', 'c', 'i', 'r', 'c'],
        "iuml"@ == seq!['i', 'u', 'm', 'l'],
        "ocirc"@ == seq!['o', 'c', 'i', 'r', 'c'],
        "ouml"@ == seq!['o', 'u', 'm', 'l'],
        "ugrave"@ == seq!['u', 'g', 'r', 'a', 'v', 'e'],
        "ucirc"@ == seq!['u', 'c', 'i', 'r', 'c'],
        "uuml"@ == seq!['u', 'u', 'm', 'l'],
        "Eacute"@ == seq!['E', 'a', 'c', 'u', 't', 'e'],
        "Egrave"@ == seq!['E', 'g', 'r', 'a', 'v', 'e'],
        "Ecirc"@ == seq!['E', 'c', 'i', 'r', 'c'],
        "Agrave"@ == seq!['A', 'g', 'r', 'a', 'v', 'e'],
        "Ccedil"@ == seq!['C', 'c', 'e', 'd', 'i', 'l'],
        "oelig"@ == seq!['o', 'e', 'l', 'i', 'g'],
        "OElig"@ == seq!['O', 'E', 'l', 'i', 'g'],
        "aelig"@ == seq!['a', 'e', 'l', 'i', 'g'],
        "rsquo"@ == seq!['r', 's', 'q', 'u', 'o'],
        "lsquo"@ == seq!['l', 's', 'q', 'u', 'o'],
        "rdquo"@ == seq!['r', 'd', 'q', 'u', 'o'],
        "ldquo"@ == seq!['l', 'd', 'q', 'u', 'o'],
        "laquo"@ == seq!['l', 'a', 'q', 'u', 'o'],
        "raquo"@ == seq!['r', 'a', 'q', 'u', 'o'],
        "hellip"@ == seq!['h', 'e', 'l', 'l', 'i', 'p'],
        "ndash"@ == seq!['n', 'd', 'a', 's', 'h'],
        "mdash"@ == seq!['m', 'd', 'a', 's', 'h'],
        "euro"@ == seq!['e', 'u', 'r', 'o'],
        "copy"@ == seq!['c', 'o', 'p', 'y'],
        "reg"@ == seq!['r', 'e', 'g'],
        "trade"@ == seq!['t', 'r', 'a', 'd', 'e'],
        "deg"@ == seq!['d', 'e', 'g'],
        "middot"@ == seq!['m', 'i', 'd', 'd', 'o', 't'],
        "bull"@ == seq!['b', 'u', 'l', 'l'],
        "times"@ == seq!['t', 'i', 'm', 'e', 's'],
{
    reveal_strlit("nbsp");
    reveal_strlit("ensp");
    reveal_strlit("emsp");
    reveal_strlit("thinsp");
    reveal_strlit("shy");
    reveal_strlit("zwnj");
    reveal_strlit("zwj");
    reveal_strlit("amp");
    reveal_strlit("lt");
    reveal_strlit("gt");
    reveal_strlit("quot");
    reveal_strlit("apos");
    reveal_strlit("eacute");
    reveal_strlit("egrave");
    reveal_strlit("ecirc");
    reveal_strlit("euml");
    reveal_strlit("agrave");
    reveal_strlit("aacute");
    reveal_strlit("acirc");
    reveal_strlit("auml");
    reveal_strlit("ccedil");
    reveal_strlit("icirc");
    reveal_strlit("iuml");
    reveal_strlit("ocirc");
    reveal_strlit("ouml");
    reveal_strlit("ugrave");
    reveal_strlit("ucirc");
    reveal_strlit("uuml");
    reveal_strlit("Eacute");
    reveal_strlit("Egrave");
    reveal_strlit("Ecirc");
    reveal_strlit("Agrave");
    reveal_strlit("Ccedil");
    reveal_strlit("oelig");
    reveal_strlit("OElig");
    reveal_strlit("aelig");
    reveal_strlit("rsquo");
    reveal_strlit("lsquo");
    reveal_strlit("rdquo");
    reveal_strlit("ldquo");
    reveal_strlit("laquo");
    reveal_strlit("raquo");
    reveal_strlit("hellip");
    reveal_strlit("ndash");
    reveal_strlit("mdash");
    reveal_strlit("euro");
    reveal_strlit("copy");
    reveal_strlit("reg");
    reveal_strlit("trade");
    reveal_strlit("deg");
    reveal_strlit("middot");
    reveal_strlit("bull");
    reveal_strlit("times");
    assert("nbsp"@ =~= seq!['n', 'b', 's', 'p']);
    assert("ensp"@ =~= seq!['e', 'n', 's', 'p']);
    assert("emsp"@ =~= seq!['e', 'm', 's', 'p']);
    assert("thinsp"@ =~= seq!['t', 'h', 'i', 'n', 's', 'p']);
    assert("shy"@ =~= seq!['s', 'h', 'y']);
    assert("zwnj"@ =~= seq!['z', 'w', 'n', 'j']);
    assert("zwj"@ =~= seq!['z', 'w', 'j']);
    assert("amp"@ =~= seq!['a', 'm', 'p']);
    assert("lt"@ =~= seq!['l', 't']);
    assert("gt"@ =~= seq!['g', 't']);
    assert("quot"@ =~= seq!['q', 'u', 'o', 't']);
    assert("apos"@ =~= seq!['a', 'p', 'o', 's']);
    assert("eacute"@ =~= seq!['e', 'a', 'c', 'u', 't', 'e']);
    assert("egrave"@ =~= seq!['e', 'g', 'r', 'a', 'v', 'e']);
    assert("ecirc"@ =~= seq!['e', 'c', 'i', 'r', 'c']);
    assert("euml"@ =~= seq!['e', 'u', 'm', 'l']);
    assert("agrave"@ =~= seq!['a', 'g', 'r', 'a', 'v', 'e']);
    assert("aacute"@ =~= seq!['a', 'a', 'c', 'u', 't', 'e']);
    assert("acirc"@ =~= seq!['a', 'c', 'i', 'r', 'c']);
    assert("auml"@ =~= seq!['a', 'u', 'm', 'l']);
    assert("ccedil"@ =~= seq!['c', 'c', 'e', 'd', 'i', 'l']);
    assert("icirc"@ =~= seq!['i', 'c', 'i', 'r', 'c']);
    assert("iuml"@ =~= seq!['i', 'u', 'm', 'l']);
    assert("ocirc"@ =~= seq!['o', 'c', 'i', 'r', 'c']);
    assert("ouml"@ =~= seq!['o', 'u', 'm', 'l']);
    assert("ugrave"@ =~= seq!['u', 'g', 'r', 'a', 'v', 'e']);
    assert("ucirc"@ =~= seq!['u', 'c', 'i', 'r', 'c']);
    assert("uuml"@ =~= seq!['u', 'u', 'm', 'l']);
    assert("Eacute"@ =~= seq!['E', 'a', 'c', 'u', 't', 'e']);
    assert("Egrave"@ =~= seq!['E', 'g', 'r', 'a', 'v', 'e']);
    assert("Ecirc"@ =~= seq!['E', 'c', 'i', 'r', 'c']);
    assert("Agrave"@ =~= seq!['A', 'g', 'r', 'a', 'v', 'e']);
    assert("Ccedil"@ =~= seq!['C', 'c', 'e', 'd', 'i', 'l']);
    assert("oelig"@ =~= seq!['o', 'e', 'l', 'i', 'g']);
    assert("OElig"@ =~= seq!['O', 'E', 'l', 'i', 'g']);
    assert("aelig"@ =~= seq!['a', 'e', 'l', 'i', 'g']);
    assert("rsquo"@ =~= seq!['r', 's', 'q', 'u', 'o']);
    assert("lsquo"@ =~= seq!['l', 's', 'q', 'u', 'o']);
    assert("rdquo"@ =~= seq!['r', 'd', 'q', 'u', 'o']);
    assert("ldquo"@ =~= seq!['l', 'd', 'q', 'u', 'o']);
    assert("laquo"@ =~= seq!['l', 'a', 'q', 'u', 'o']);
    assert("raquo"@ =~= seq!['r', 'a', 'q', 'u', 'o']);
    assert("hellip"@ =~= seq!['h', 'e', 'l', 'l', 'i', 'p']);
    assert("ndash"@ =~= seq!['n', 'd', 'a', 's', 'h']);
    assert("mdash"@ =~= seq!['m', 'd', 'a', 's', 'h']);
    assert("euro"@ =~= seq!['e', 'u', 'r', 'o']);
    assert("copy"@ =~= seq!['c', 'o', 'p', 'y']);
    assert("reg"@ =~= seq!['r', 'e', 'g']);
    assert("trade"@ =~= seq!['t', 'r', 'a', 'd', 'e']);
    assert("deg"@ =~= seq!['d', 'e', 'g']);
    assert("middot"@ =~= seq!['m', 'i', 'd', 'd', 'o', 't']);
    assert("bull"@ =~= seq!['b', 'u', 'l', 'l']);
    assert("times"@ =~= seq!['t', 'i', 'm', 'e', 's']);
}

/// An entity that is known is decoded where it stands, and what follows it after it.
pub proof fn loi_entite_decodee(avant: Seq<char>, nom: Seq<char>, suite: Seq<char>)
    requires
        !avant.contains('&'),
        !nom.contains(';'),
        nom.len() < 12,
        valeur_entite(nom) is Some,
    ensures
        entites_decodees(avant + seq!['&'] + nom + seq![';'] + suite) == avant + (
        valeur_entite(nom)->0 + entites_decodees(suite)),
{
    let apres = nom + seq![';'] + suite;
    let t = avant + seq!['&'] + nom + seq![';'] + suite;
    assert(t =~= avant + seq!['&'] + apres);
    lemme_premier_car(avant, '&', apres);
    lemme_premier_car(nom, ';', suite);
    assert(t.subrange(0, avant.len() as int) =~= avant);
    assert(t.subrange(avant.len() as int + 1, t.len() as int) =~= apres);
    assert(apres.subrange(0, nom.len() as int) =~= nom);
    assert(apres.subrange(nom.len() as int + 1, apres.len() as int) =~= suite);
}

// -------------------------------------------------------------------- what is shown

/// Whether the last line of a text holds something but white space.
pub open spec fn ligne_pleine(texte: Seq<char>) -> bool {
    exists|i: int|
        {
            &&& 0 <= i < texte.len()
            &&& !blanc(#[trigger] texte[i])
            &&& forall|j: int| i < j < texte.len() ==> texte[j] != '\n'
        }
}

proof fn lemme_tout_blanc(s: Seq<char>)
    ensures
        sans_blancs(s).len() == 0 <==> forall|i: int| 0 <= i < s.len() ==> blanc(#[trigger] s[i]),
    decreases s.len(),
{
    if s.len() > 0 {
        if blanc(s[0]) {
            let t = s.drop_first();
            lemme_tout_blanc(t);
            assert(forall|i: int| 0 <= i < t.len() ==> #[trigger] t[i] == s[i + 1]);
            if forall|i: int| 0 <= i < t.len() ==> blanc(#[trigger] t[i]) {
                assert forall|i: int| 0 <= i < s.len() implies blanc(#[trigger] s[i]) by {
                    if i > 0 {
                        assert(s[i] == t[i - 1]);
                    }
                }
            } else {
                let i = choose|i: int| 0 <= i < t.len() && !blanc(#[trigger] t[i]);
                assert(!blanc(s[i + 1]));
            }
        } else {
            lemme_fin_garde(s);
        }
    }
}

proof fn lemme_fin_garde(s: Seq<char>)
    requires
        s.len() > 0,
        !blanc(s[0]),
    ensures
        sans_blancs_fin(s).len() > 0,
    decreases s.len(),
{
    if blanc(s.last()) {
        lemme_fin_garde(s.drop_last());
    }
}

/// A new line is started exactly where the last one holds something.
proof fn lemme_ligne_pleine(texte: Seq<char>)
    ensures
        ligne_entamee(texte) == (if ligne_pleine(texte) {
            texte.push('\n')
        } else {
            texte
        }),
{
    let d = dernier_champ(texte, '\n');
    lemme_tout_blanc(d);
    texte.index_of_last_ensures('\n');
    let n = texte.len() - d.len();
    assert(forall|i: int| 0 <= i < d.len() ==> #[trigger] d[i] == texte[n + i]);
    if sans_blancs(d).len() > 0 {
        let k = choose|k: int| 0 <= k < d.len() && !blanc(#[trigger] d[k]);
        assert(!blanc(texte[n + k]));
        assert(ligne_pleine(texte)) by {
            assert forall|j: int| n + k < j < texte.len() implies texte[j] != '\n' by {}
        }
    } else if ligne_pleine(texte) {
        let i = choose|i: int|
            {
                &&& 0 <= i < texte.len()
                &&& !blanc(#[trigger] texte[i])
                &&& forall|j: int| i < j < texte.len() ==> texte[j] != '\n'
            };
        assert(blanc('\n'));
        if i < n {
            assert(texte[n - 1] == '\n');
            assert(false);
        }
        assert(d[i - n] == texte[i]);
    }
}

/// Whether what an element holds stands on lines of its own.
pub open spec fn sur_ses_lignes(nom: Seq<char>) -> bool {
    nom == "p"@ || nom == "div"@ || nom == "tr"@ || nom == "table"@ || nom == "blockquote"@
        || nom == "ul"@ || nom == "ol"@ || nom == "hr"@ || nom == "section"@ || nom == "article"@
        || nom == "header"@ || nom == "footer"@ || nom == "center"@ || nom == "pre"@
        || nom == "address"@ || nom == "h1"@ || nom == "h2"@ || nom == "h3"@ || nom == "h4"@
        || nom == "h5"@ || nom == "h6"@
}

/// What an opening tag puts before what follows it.
pub open spec fn ouverture_montree(texte: Seq<char>, nom: Seq<char>) -> Seq<char> {
    let bloc = sur_ses_lignes(nom);
    let ligne = if ligne_pleine(texte) {
        texte.push('\n')
    } else {
        texte
    };
    if nom == "br"@ {
        texte.push('\n')
    } else if bloc {
        ligne
    } else if nom == "li"@ {
        ligne + seq!['\u{2022}', ' ']
    } else {
        texte
    }
}

/// What a closing tag puts behind what precedes it.
pub open spec fn fermeture_montree(texte: Seq<char>, nom: Seq<char>) -> Seq<char> {
    let bloc = sur_ses_lignes(nom);
    if nom == "br"@ {
        texte.push('\n')
    } else if bloc && ligne_pleine(texte) {
        texte.push('\n')
    } else if nom == "td"@ || nom == "th"@ {
        texte + seq![' ', ' ', ' ']
    } else {
        texte
    }
}

proof fn lemme_nom_attributs(nom: Seq<char>, attributs: Seq<char>)
    requires
        forall|i: int| 0 <= i < nom.len() ==> alphanumerique(#[trigger] nom[i]),
        attributs.len() > 0 ==> !alphanumerique(attributs[0]),
    ensures
        longueur_nom(nom + attributs) == nom.len(),
    decreases nom.len(),
{
    if nom.len() == 0 {
        assert(nom + attributs =~= attributs);
    } else {
        let t = nom.drop_first();
        assert((nom + attributs).drop_first() =~= t + attributs);
        assert forall|i: int| 0 <= i < t.len() implies alphanumerique(#[trigger] t[i]) by {
            assert(t[i] == nom[i + 1]);
        }
        assert((nom + attributs)[0] == nom[0]);
        lemme_nom_attributs(t, attributs);
    }
}

proof fn lemme_literaux_blocs(nom: Seq<char>)
    ensures
        element_bloc(nom) <==> sur_ses_lignes(nom),
        element_cache(nom) <==> (nom == "head"@ || nom == "style"@ || nom == "script"@ || nom
            == "title"@ || nom == "template"@),
        nom == "br"@ ==> !element_bloc(nom),
        nom == "li"@ ==> !element_bloc(nom) && nom != "td"@ && nom != "th"@,
        nom == "td"@ || nom == "th"@ ==> !element_bloc(nom),
{
    reveal_strlit("p");
    reveal_strlit("div");
    reveal_strlit("tr");
    reveal_strlit("table");
    reveal_strlit("blockquote");
    reveal_strlit("ul");
    reveal_strlit("ol");
    reveal_strlit("hr");
    reveal_strlit("section");
    reveal_strlit("article");
    reveal_strlit("header");
    reveal_strlit("footer");
    reveal_strlit("center");
    reveal_strlit("pre");
    reveal_strlit("address");
    reveal_strlit("h1");
    reveal_strlit("h2");
    reveal_strlit("h3");
    reveal_strlit("h4");
    reveal_strlit("h5");
    reveal_strlit("h6");
    reveal_strlit("head");
    reveal_strlit("style");
    reveal_strlit("script");
    reveal_strlit("title");
    reveal_strlit("template");
    reveal_strlit("br");
    reveal_strlit("li");
    reveal_strlit("td");
    reveal_strlit("th");
    assert("br"@[0] == 'b' && "li"@[0] == 'l' && "td"@[1] == 'd' && "th"@[1] == 'h');
    assert("tr"@[1] == 'r' && "ul"@[0] == 'u' && "ol"@[0] == 'o' && "hr"@[0] == 'h' && "h1"@[0] == 'h');
    assert("td"@[0] == 't' && "th"@[0] == 't' && "li"@[1] == 'i' && "br"@[1] == 'r');
    assert("h2"@[0] == 'h' && "h3"@[0] == 'h' && "h4"@[0] == 'h' && "h5"@[0] == 'h' && "h6"@[0] == 'h');
}

/// The text of an element is kept, with its line breaks as spaces, whatever the
/// attributes of the element: all but that of `head`, `style`, `script`, `title` and
/// `template`. A block stands on lines of its own, `br` breaks a line, an item of a
/// list is marked, and a cell is set apart from the next.
pub proof fn loi_texte_garde(
    nom: Seq<char>,
    attributs: Seq<char>,
    t: Seq<char>,
    suite: Seq<char>,
    texte: Seq<char>,
)
    requires
        nom.len() > 0,
        forall|i: int| 0 <= i < nom.len() ==> alphanumerique(#[trigger] nom[i]),
        attributs.len() > 0 ==> !alphanumerique(attributs[0]),
        !attributs.contains('>'),
        !t.contains('<'),
        ({
            let n = minuscules(nom);
            n != "head"@ && n != "style"@ && n != "script"@ && n != "title"@ && n != "template"@
        }),
    ensures
        ({
            let n = minuscules(nom);
            let vu = Seq::new(
                t.len(),
                |i: int|
                    if t[i] == '\n' || t[i] == '\r' || t[i] == '\t' {
                        ' '
                    } else {
                        t[i]
                    },
            );
            texte_montre(
                "<"@ + nom + attributs + ">"@ + t + "</"@ + nom + ">"@ + suite,
                texte,
                None,
            ) == texte_montre(
                suite,
                fermeture_montree(ouverture_montree(texte, n) + vu, n),
                None,
            )
        }),
{
    reveal_strlit("<");
    reveal_strlit(">");
    reveal_strlit("</");
    let n = minuscules(nom);
    lemme_literaux_blocs(n);
    let vide = Seq::<char>::empty();
    let ouvre = nom + attributs;
    let ferme = seq!['/'] + nom;
    lemme_nom_attributs(nom, attributs);
    lemme_nom_entier(nom);
    assert(ouvre[0] == nom[0] && alphanumerique(nom[0]));
    assert(sans_debut(ouvre, '/') == ouvre);
    assert(ouvre.subrange(0, nom.len() as int) =~= nom);
    assert(nom_balise(ouvre) == n);
    assert(ferme.drop_first() =~= nom);
    assert(sans_debut(nom, '/') == nom);
    assert(sans_debut(ferme, '/') == nom);
    assert(nom.subrange(0, nom.len() as int) =~= nom);
    assert(nom_balise(ferme) == n);
    assert(!ouvre.contains('>')) by {
        if ouvre.contains('>') {
            let i = ouvre.index_of('>');
            assert(ouvre[i] == '>');
            if i >= nom.len() {
                assert(attributs[i - nom.len()] == '>');
            } else {
                assert(alphanumerique(nom[i]));
            }
        }
    }
    assert(!ferme.contains('>')) by {
        if ferme.contains('>') {
            let i = ferme.index_of('>');
            assert(ferme[i] == '>' && ferme[i] == nom[i - 1]);
            assert(alphanumerique(nom[i - 1]));
        }
    }
    let dedans = t + (seq!['<'] + ferme + seq!['>'] + suite);
    assert("<"@ + nom + attributs + ">"@ + t + "</"@ + nom + ">"@ + suite =~= vide + (seq!['<']
        + ouvre + seq!['>'] + dedans));
    assert(en_espaces(vide) =~= vide);
    assert(montre(texte, vide, None) =~= texte);
    lemme_balise(vide, ouvre, dedans, texte, None);
    let apres = effet_balise(texte, n, false);
    lemme_balise(t, ferme, suite, apres, None);
    let vu = Seq::new(
        t.len(),
        |i: int|
            if t[i] == '\n' || t[i] == '\r' || t[i] == '\t' {
                ' '
            } else {
                t[i]
            },
    );
    assert(en_espaces(t) =~= vu);
    lemme_ligne_pleine(texte);
    lemme_ligne_pleine(apres + vu);
    assert(apres =~= ouverture_montree(texte, n)) by {
        reveal_strlit("• ");
        assert("• "@ =~= seq!['\u{2022}', ' ']);
    }
    assert(effet_balise(apres + vu, n, true) =~= fermeture_montree(apres + vu, n)) by {
        reveal_strlit("   ");
        assert("   "@ =~= seq![' ', ' ', ' ']);
    }
}

// --------------------------------------------------------------------------- words

proof fn lemme_propre(l: Seq<char>)
    ensures
        mots(ligne_propre(l)) == mots(l),
        ligne_propre(l).len() == 0 ==> mots(l).len() == 0,
{
    lemme_mots(l);
    loi_mots_joints(mots(l));
    if ligne_propre(l).len() == 0 {
        assert(ligne_propre(l) =~= Seq::empty());
        assert(mots(ligne_propre(l)) =~= Seq::empty());
    }
}

proof fn lemme_mots_serres(v: Seq<Seq<char>>)
    ensures
        mots_des_lignes(lignes_serrees(v)) == mots_des_lignes(v),
    decreases v.len(),
{
    if v.len() > 0 {
        let r = lignes_serrees(v.drop_last());
        let p = ligne_propre(v.last());
        lemme_mots_serres(v.drop_last());
        lemme_mots_dernier(v);
        lemme_propre(v.last());
        if p.len() == 0 && (r.len() == 0 || r.last().len() == 0) {
            assert(mots(v.last()) =~= Seq::empty());
            assert(mots_des_lignes(v.drop_last()) + mots(v.last()) =~= mots_des_lignes(
                v.drop_last(),
            ));
        } else {
            lemme_mots_dernier(r.push(p));
            assert(r.push(p).drop_last() =~= r);
        }
    }
}

proof fn lemme_mots_sans_vides(v: Seq<Seq<char>>)
    ensures
        mots_des_lignes(sans_vides_finales(v)) == mots_des_lignes(v),
    decreases v.len(),
{
    if v.len() > 0 && v.last().len() == 0 {
        lemme_mots_sans_vides(v.drop_last());
        lemme_mots_dernier(v);
        assert(v.last() =~= Seq::empty());
        assert(mots(v.last()) =~= Seq::empty());
        assert(mots_des_lignes(v.drop_last()) + mots(v.last()) =~= mots_des_lignes(v.drop_last()));
    }
}

/// No word is lost, added or moved when the lines of what is shown are cleaned: the
/// plain text has the words of the text shown, entities decoded.
pub proof fn loi_mots_gardes(html: Seq<char>)
    ensures
        mots(html_en_texte(html)) == mots(
            entites_decodees(texte_montre(html, Seq::empty(), None)),
        ),
{
    let t = entites_decodees(texte_montre(html, Seq::empty(), None));
    loi_mots_des_lignes(t);
    lemme_mots_serres(lignes(t));
    lemme_mots_sans_vides(lignes_serrees(lignes(t)));
    lemme_mots_joints_lignes(lignes_de_html(html));
}

/// Line breaks as spaces keep the words.
proof fn lemme_mots_espaces(t: Seq<char>)
    ensures
        mots(en_espaces(t)) == mots(t),
    decreases t.len(),
{
    let e = en_espaces(t);
    let k = choose|k: int|
        0 <= k < t.len() && (#[trigger] t[k] == '\n' || t[k] == '\r' || t[k] == '\t');
    if 0 <= k < t.len() && (t[k] == '\n' || t[k] == '\r' || t[k] == '\t') {
        let a = t.subrange(0, k);
        let b = t.subrange(k + 1, t.len() as int);
        assert(t =~= a + seq![t[k]] + b);
        assert(e =~= en_espaces(a) + seq![' '] + en_espaces(b));
        lemme_mots_espaces(a);
        lemme_mots_espaces(b);
        lemme_mots_separes(a, t[k], b);
        lemme_mots_separes(en_espaces(a), ' ', en_espaces(b));
    } else {
        assert forall|i: int| 0 <= i < t.len() implies e[i] == t[i] by {
            assert(!(t[i] == '\n' || t[i] == '\r' || t[i] == '\t'));
        }
        assert(e =~= t);
    }
}

/// A message without tags nor entities is read with all its words.
pub proof fn loi_texte_simple(t: Seq<char>)
    requires
        !t.contains('<'),
        !t.contains('&'),
    ensures
        mots(html_en_texte(t)) == mots(t),
{
    t.index_of_first_ensures('<');
    let vide = Seq::<char>::empty();
    let e = en_espaces(t);
    assert(texte_montre(t, vide, None) =~= e);
    assert(!e.contains('&')) by {
        if e.contains('&') {
            let i = e.index_of('&');
            assert(e[i] == '&');
            assert(t[i] == '&');
        }
    }
    loi_sans_entite(e);
    loi_mots_gardes(t);
    lemme_mots_espaces(t);
}

/// The words of an element are read, those of any element but the five that are never
/// shown; the mark of an item of a list comes before them.
pub proof fn loi_mots_d_un_element(nom: Seq<char>, attributs: Seq<char>, t: Seq<char>)
    requires
        nom.len() > 0,
        forall|i: int| 0 <= i < nom.len() ==> alphanumerique(#[trigger] nom[i]),
        attributs.len() > 0 ==> !alphanumerique(attributs[0]),
        !attributs.contains('>'),
        !t.contains('<'),
        !t.contains('&'),
        ({
            let n = minuscules(nom);
            n != "head"@ && n != "style"@ && n != "script"@ && n != "title"@ && n != "template"@
        }),
    ensures
        mots(html_en_texte("<"@ + nom + attributs + ">"@ + t + "</"@ + nom + ">"@)) == (
        if minuscules(nom) == "li"@ {
            seq![seq!['\u{2022}']] + mots(t)
        } else {
            mots(t)
        }),
{
    reveal_strlit(">");
    reveal_strlit("li");
    reveal_strlit("br");
    let vide = Seq::<char>::empty();
    let n = minuscules(nom);
    let h = "<"@ + nom + attributs + ">"@ + t + "</"@ + nom + ">"@;
    assert(h =~= "<"@ + nom + attributs + ">"@ + t + "</"@ + nom + ">"@ + vide);
    loi_texte_garde(nom, attributs, t, vide, vide);
    let e = en_espaces(t);
    let vu = Seq::new(
        t.len(),
        |i: int|
            if t[i] == '\n' || t[i] == '\r' || t[i] == '\t' {
                ' '
            } else {
                t[i]
            },
    );
    assert(vu =~= e);
    let a = ouverture_montree(vide, n);
    let x = a + e;
    let y = fermeture_montree(x, n);
    vide.index_of_first_ensures('<');
    assert(en_espaces(vide) =~= vide);
    assert(texte_montre(h, vide, None) =~= y);
    lemme_literaux_blocs(n);
    assert(!ligne_pleine(vide));
    assert(a == vide || a == seq!['\n'] || (n == "li"@ && a == seq!['\u{2022}', ' ']));
    assert(!y.contains('&')) by {
        if y.contains('&') {
            let i = y.index_of('&');
            assert(y[i] == '&');
            assert(i < x.len());
            assert(x[i] == '&');
            assert(t[i - a.len()] == '&');
        }
    }
    loi_sans_entite(y);
    loi_mots_gardes(h);
    lemme_mots_espaces(t);
    // What the closing tag puts is white space.
    assert(mots(y) == mots(x)) by {
        if y != x {
            let blancs = y.subrange(x.len() as int + 1, y.len() as int);
            assert(y =~= x + seq![y[x.len() as int]] + blancs);
            lemme_mots_separes(x, y[x.len() as int], blancs);
            lemme_mots_blancs(blancs);
            assert(mots(x) + mots(blancs) =~= mots(x));
        }
    }
    // So is what the opening tag puts, but for the mark of an item.
    assert("li"@[0] == 'l' && "br"@[0] == 'b');
    if n == "br"@ {
        assert(a =~= seq!['\n']);
        assert(x =~= vide + seq!['\n'] + e);
        lemme_mots_separes(vide, '\n', e);
        lemme_mots_blancs(vide);
        assert(mots(vide) + mots(e) =~= mots(e));
    } else if n == "li"@ {
        let puce = seq!['\u{2022}'];
        assert(a =~= seq!['\u{2022}', ' ']);
        assert(x =~= puce + seq![' '] + e);
        lemme_mots_separes(puce, ' ', e);
        let un = seq![puce];
        assert(mot(un[0]));
        loi_mots_joints(un);
        assert(jointure(un, " "@) == puce);
    } else {
        assert(a =~= vide);
        assert(x =~= e);
    }
}

} // verus!
