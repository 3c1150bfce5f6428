//! What the interface is given, in JSON.

use vstd::prelude::*;

use crate::index::{vues_jointes, PieceJointe, PieceJointeVue};
use crate::magasin::{vues, DossierLocal, MessageLocal};
use crate::nombre::{decimal, decimal_signe, ecrire_i64, ecrire_u64, entier, lire_u32};
use crate::tables::{DossierLocalVue, MessageVue};
use crate::texte::{
    ajouter, ajouter_car, caracteres, chaine, champs, decouper, joindre, jointure, rogner,
    sans_blancs, textes, vues_car,
};

verus! {

// --------------------------------------------------------------------------- strings

/// A digit in base sixteen, in lower case.
pub open spec fn chiffre_hexa(n: int) -> char {
    if n < 10 {
        (48 + n) as char
    } else {
        (87 + n) as char
    }
}

/// How a character is written in a JSON string.
pub open spec fn echappe(c: char) -> Seq<char> {
    if c == '"' {
        seq!['\\', '"']
    } else if c == '\\' {
        seq!['\\', '\\']
    } else if c == '\n' {
        seq!['\\', 'n']
    } else if c == '\r' {
        seq!['\\', 'r']
    } else if c == '\t' {
        seq!['\\', 't']
    } else if (c as u32) < 0x20 {
        seq!['\\', 'u', '0', '0', chiffre_hexa(c as int / 16), chiffre_hexa(c as int % 16)]
    } else if c == '\u{2028}' {
        seq!['\\', 'u', '2', '0', '2', '8']
    } else if c == '\u{2029}' {
        seq!['\\', 'u', '2', '0', '2', '9']
    } else {
        seq![c]
    }
}

/// How a text is written in a JSON string, between its quotes.
pub open spec fn echappes(s: Seq<char>) -> Seq<char>
    decreases s.len(),
{
    if s.len() == 0 {
        Seq::empty()
    } else {
        echappes(s.drop_last()) + echappe(s.last())
    }
}

/// A text as a JSON string.
pub open spec fn chaine_json(s: Seq<char>) -> Seq<char> {
    seq!['"'] + echappes(s) + seq!['"']
}

fn ecrire_hexa(n: u32) -> (r: char)
    requires
        n < 16,
    ensures
        r == chiffre_hexa(n as int),
{
    if n < 10 {
        (48 + n as u8) as char
    } else {
        (87 + n as u8) as char
    }
}

fn ajouter_echappe(v: &mut Vec<char>, c: char)
    ensures
        final(v)@ == old(v)@ + echappe(c),
{
    let ghost v0 = v@;
    let n: u32 = c as u32;
    if c == '"' {
        v.push('\\');
        v.push('"');
    } else if c == '\\' {
        v.push('\\');
        v.push('\\');
    } else if c == '\n' {
        v.push('\\');
        v.push('n');
    } else if c == '\r' {
        v.push('\\');
        v.push('r');
    } else if c == '\t' {
        v.push('\\');
        v.push('t');
    } else if n < 0x20 {
        v.push('\\');
        v.push('u');
        v.push('0');
        v.push('0');
        v.push(ecrire_hexa(n / 16));
        v.push(ecrire_hexa(n % 16));
    } else if c == '\u{2028}' {
        v.push('\\');
        v.push('u');
        v.push('2');
        v.push('0');
        v.push('2');
        v.push('8');
    } else if c == '\u{2029}' {
        v.push('\\');
        v.push('u');
        v.push('2');
        v.push('0');
        v.push('2');
        v.push('9');
    } else {
        v.push(c);
    }
    assert(v@ =~= v0 + echappe(c));
}

/// Adds a text as a JSON string.
pub fn ajouter_json(v: &mut Vec<char>, valeur: &str)
    ensures
        final(v)@ == old(v)@ + chaine_json(valeur@),
{
    let ghost v0 = v@;
    let c = caracteres(valeur);
    v.push('"');
    for i in 0..c.len()
        invariant
            v@ =~= v0 + seq!['"'] + echappes(c@.take(i as int)),
    {
        proof {
            assert(c@.take(i + 1).drop_last() =~= c@.take(i as int));
        }
        ajouter_echappe(v, c[i]);
    }
    assert(c@.take(c@.len() as int) =~= c@);
    v.push('"');
    assert(v@ =~= v0 + chaine_json(valeur@));
}

/// Escaped JSON string. The line separators of Unicode are escaped too: they are
/// valid in JSON, but not in the literals of old JavaScript.
pub fn texte_json(valeur: &str) -> (r: String)
    ensures
        r@ == chaine_json(valeur@),
{
    let mut v: Vec<char> = Vec::new();
    ajouter_json(&mut v, valeur);
    assert(v@ =~= chaine_json(valeur@));
    chaine(v.as_slice())
}

/// A truth value in JSON.
pub open spec fn booleen(b: bool) -> Seq<char> {
    if b {
        "true"@
    } else {
        "false"@
    }
}

/// A truth value in JSON.
pub fn ecrire_booleen(b: bool) -> (r: &'static str)
    ensures
        r@ == booleen(b),
{
    if b {
        "true"
    } else {
        "false"
    }
}

// --------------------------------------------------------------------------- objects

/// A folder in JSON.
pub open spec fn dossier_json(
    genre: Seq<char>,
    d: DossierLocalVue,
    adresse: Seq<char>,
    profondeur: u32,
) -> Seq<char> {
    "{\"genre\":"@ + chaine_json(genre) + ",\"compte\":"@ + decimal_signe(d.compte_id as int)
        + ",\"adresse\":"@ + chaine_json(adresse) + ",\"chemin\":"@ + chaine_json(d.chemin)
        + ",\"nom\":"@ + chaine_json(d.nom) + ",\"separateur\":"@ + chaine_json(d.separateur)
        + ",\"profondeur\":"@ + decimal(profondeur as nat) + ",\"role\":"@ + chaine_json(d.role)
        + ",\"selectionnable\":"@ + booleen(d.selectionnable) + ",\"messages\":"@ + decimal(
        d.messages as nat,
    ) + ",\"nonLus\":"@ + decimal(d.non_lus as nat) + ",\"masque\":"@ + booleen(d.masque)
        + ",\"favori\":"@ + booleen(d.favori is Some) + "}"@
}

/// Writes a folder for the interface.
pub fn json_dossier(genre: &str, d: &DossierLocal, adresse: &str, profondeur: u32) -> (r: String)
    ensures
        r@ == dossier_json(genre@, d@, adresse@, profondeur),
{
    let mut v = caracteres("{\"genre\":");
    ajouter_json(&mut v, genre);
    ajouter(&mut v, ",\"compte\":");
    let n = ecrire_i64(d.compte_id);
    ajouter_car(&mut v, n.as_slice());
    ajouter(&mut v, ",\"adresse\":");
    ajouter_json(&mut v, adresse);
    ajouter(&mut v, ",\"chemin\":");
    ajouter_json(&mut v, d.chemin.as_str());
    ajouter(&mut v, ",\"nom\":");
    ajouter_json(&mut v, d.nom.as_str());
    ajouter(&mut v, ",\"separateur\":");
    ajouter_json(&mut v, d.separateur.as_str());
    ajouter(&mut v, ",\"profondeur\":");
    let n = ecrire_u64(profondeur as u64);
    ajouter_car(&mut v, n.as_slice());
    ajouter(&mut v, ",\"role\":");
    ajouter_json(&mut v, d.role.as_str());
    ajouter(&mut v, ",\"selectionnable\":");
    ajouter(&mut v, ecrire_booleen(d.selectionnable));
    ajouter(&mut v, ",\"messages\":");
    let n = ecrire_u64(d.messages as u64);
    ajouter_car(&mut v, n.as_slice());
    ajouter(&mut v, ",\"nonLus\":");
    let n = ecrire_u64(d.non_lus as u64);
    ajouter_car(&mut v, n.as_slice());
    ajouter(&mut v, ",\"masque\":");
    ajouter(&mut v, ecrire_booleen(d.masque));
    ajouter(&mut v, ",\"favori\":");
    ajouter(&mut v, ecrire_booleen(d.favori.is_some()));
    ajouter(&mut v, "}");
    chaine(v.as_slice())
}

/// Texts in a JSON list.
pub open spec fn liste_json(v: Seq<Seq<char>>) -> Seq<char> {
    "["@ + jointure(v, ","@) + "]"@
}

/// Puts texts in a JSON list.
pub fn lister(v: &Vec<String>) -> (r: String)
    ensures
        r@ == liste_json(textes(v@)),
{
    let mut c = caracteres("[");
    let j = joindre(v, ",");
    ajouter(&mut c, j.as_str());
    ajouter(&mut c, "]");
    chaine(c.as_slice())
}

/// An attachment in JSON.
pub open spec fn piece_json(p: PieceJointeVue) -> Seq<char> {
    "{\"indice\":"@ + decimal(p.indice as nat) + ",\"nom\":"@ + chaine_json(p.nom) + ",\"type\":"@
        + chaine_json(p.type_mime) + ",\"taille\":"@ + decimal(p.taille) + ",\"risquee\":"@
        + booleen(p.risquee) + "}"@
}

/// Attachments in JSON.
pub open spec fn pieces_json(v: Seq<PieceJointeVue>) -> Seq<char> {
    liste_json(v.map_values(|p: PieceJointeVue| piece_json(p)))
}

fn ecrire_piece(p: &PieceJointe) -> (r: String)
    ensures
        r@ == piece_json(p@),
{
    let mut v = caracteres("{\"indice\":");
    let n = ecrire_u64(p.indice as u64);
    ajouter_car(&mut v, n.as_slice());
    ajouter(&mut v, ",\"nom\":");
    ajouter_json(&mut v, p.nom.as_str());
    ajouter(&mut v, ",\"type\":");
    ajouter_json(&mut v, p.type_mime.as_str());
    ajouter(&mut v, ",\"taille\":");
    let n = ecrire_u64(p.taille as u64);
    ajouter_car(&mut v, n.as_slice());
    ajouter(&mut v, ",\"risquee\":");
    ajouter(&mut v, ecrire_booleen(p.risquee));
    ajouter(&mut v, "}");
    chaine(v.as_slice())
}

/// Writes the attachments of a message for the interface.
pub fn json_pieces(pieces: &[PieceJointe]) -> (r: String)
    ensures
        r@ == pieces_json(vues_jointes(pieces@)),
{
    let ghost f = |p: PieceJointeVue| piece_json(p);
    let ghost t = vues_jointes(pieces@).map_values(f);
    let mut v: Vec<String> = Vec::new();
    for i in 0..pieces.len()
        invariant
            f == (|p: PieceJointeVue| piece_json(p)),
            t == vues_jointes(pieces@).map_values(f),
            textes(v@) =~= t.take(i as int),
    {
        let ghost avant = textes(v@);
        let s = ecrire_piece(&pieces[i]);
        let ghost x = s@;
        v.push(s);
        assert(textes(v@) =~= avant.push(x));
        assert(t[i as int] == x);
    }
    assert(t.take(t.len() as int) =~= t);
    lister(&v)
}

/// A message in JSON.
pub open spec fn message_json(m: MessageVue) -> Seq<char> {
    "{\"uid\":"@ + decimal(m.uid as nat) + ",\"expediteur\":"@ + chaine_json(m.expediteur)
        + ",\"adresse\":"@ + chaine_json(m.adresse) + ",\"sujet\":"@ + chaine_json(m.sujet)
        + ",\"date\":"@ + chaine_json(m.date) + ",\"taille\":"@ + decimal(m.taille as nat)
        + ",\"lu\":"@ + booleen(m.lu) + ",\"repondu\":"@ + booleen(m.repondu) + "}"@
}

/// Messages in JSON.
pub open spec fn messages_json(v: Seq<MessageVue>) -> Seq<char> {
    liste_json(v.map_values(|m: MessageVue| message_json(m)))
}

fn ecrire_message(m: &MessageLocal) -> (r: String)
    ensures
        r@ == message_json(m@),
{
    let mut v = caracteres("{\"uid\":");
    let n = ecrire_u64(m.uid as u64);
    ajouter_car(&mut v, n.as_slice());
    ajouter(&mut v, ",\"expediteur\":");
    ajouter_json(&mut v, m.expediteur.as_str());
    ajouter(&mut v, ",\"adresse\":");
    ajouter_json(&mut v, m.adresse.as_str());
    ajouter(&mut v, ",\"sujet\":");
    ajouter_json(&mut v, m.sujet.as_str());
    ajouter(&mut v, ",\"date\":");
    ajouter_json(&mut v, m.date.as_str());
    ajouter(&mut v, ",\"taille\":");
    let n = ecrire_u64(m.taille as u64);
    ajouter_car(&mut v, n.as_slice());
    ajouter(&mut v, ",\"lu\":");
    ajouter(&mut v, ecrire_booleen(m.lu));
    ajouter(&mut v, ",\"repondu\":");
    ajouter(&mut v, ecrire_booleen(m.repondu));
    ajouter(&mut v, "}");
    chaine(v.as_slice())
}

/// Writes a list of messages for the interface.
pub fn json_messages(messages: &[MessageLocal]) -> (r: String)
    ensures
        r@ == messages_json(vues(messages@)),
{
    let ghost f = |m: MessageVue| message_json(m);
    let ghost t = vues(messages@).map_values(f);
    let mut v: Vec<String> = Vec::new();
    for i in 0..messages.len()
        invariant
            f == (|m: MessageVue| message_json(m)),
            t == vues(messages@).map_values(f),
            textes(v@) =~= t.take(i as int),
    {
        let ghost avant = textes(v@);
        let s = ecrire_message(&messages[i]);
        let ghost x = s@;
        v.push(s);
        assert(textes(v@) =~= avant.push(x));
        assert(t[i as int] == x);
    }
    assert(t.take(t.len() as int) =~= t);
    lister(&v)
}

// ------------------------------------------------------------------------------ UIDs

/// The way a UID of a list is read: a positive number.
pub open spec fn lecteur_uid_liste() -> spec_fn(Seq<char>) -> Option<u32> {
    |m: Seq<char>|
        match entier(sans_blancs(m), u32::MAX as nat) {
            Some(n) => if n > 0 {
                Some(n as u32)
            } else {
                None
            },
            None => None,
        }
}

/// The UIDs that a list separated by commas gives.
pub open spec fn uids_listes(s: Seq<char>) -> Seq<u32> {
    champs(s, ',').filter_map(lecteur_uid_liste())
}

/// Reads UIDs separated by commas: `3,5,7`. What is no positive number is passed
/// over.
pub fn lire_uids(texte: &str) -> (r: Vec<u32>)
    ensures
        r@ == uids_listes(texte@),
{
    let c = caracteres(texte);
    let ms = decouper(c.as_slice(), ',');
    let ghost tout = champs(texte@, ',');
    let mut r: Vec<u32> = Vec::new();
    for i in 0..ms.len()
        invariant
            tout == vues_car(ms@),
            r@ =~= tout.take(i as int).filter_map(lecteur_uid_liste()),
    {
        proof {
            tout.lemma_filter_map_take_succ(lecteur_uid_liste(), i as int);
            assert(tout[i as int] == ms@[i as int]@);
        }
        if let Some(n) = lire_u32(rogner(ms[i].as_slice())) {
            if n > 0 {
                r.push(n);
            }
        }
    }
    assert(tout.take(tout.len() as int) =~= tout);
    r
}

// ------------------------------------------------------------------------------ laws

/// The value of a digit in base sixteen, in lower case.
pub open spec fn valeur_hexa(c: char) -> Option<int> {
    if '0' <= c <= '9' {
        Some(c as int - 48)
    } else if 'a' <= c <= 'f' {
        Some(c as int - 87)
    } else {
        None
    }
}

/// The text of a JSON string from `i` on, after its opening quote, and what follows
/// its closing quote. A bare control character is not allowed in it.
pub open spec fn json_lu(t: Seq<char>, i: int, texte: Seq<char>) -> Option<(Seq<char>, Seq<char>)>
    decreases t.len() - i,
{
    if i < 0 || i >= t.len() {
        None
    } else if t[i] == '"' {
        Some((texte, t.subrange(i + 1, t.len() as int)))
    } else if t[i] == '\\' {
        if i + 1 >= t.len() {
            None
        } else if t[i + 1] == '"' || t[i + 1] == '\\' {
            json_lu(t, i + 2, texte.push(t[i + 1]))
        } else if t[i + 1] == 'n' {
            json_lu(t, i + 2, texte.push('\n'))
        } else if t[i + 1] == 'r' {
            json_lu(t, i + 2, texte.push('\r'))
        } else if t[i + 1] == 't' {
            json_lu(t, i + 2, texte.push('\t'))
        } else if t[i + 1] == 'u' && i + 5 < t.len() {
            match (
                valeur_hexa(t[i + 2]),
                valeur_hexa(t[i + 3]),
                valeur_hexa(t[i + 4]),
                valeur_hexa(t[i + 5]),
            ) {
                (Some(a), Some(b), Some(c), Some(d)) => json_lu(
                    t,
                    i + 6,
                    texte.push((a * 4096 + b * 256 + c * 16 + d) as char),
                ),
                _ => None,
            }
        } else {
            None
        }
    } else if (t[i] as u32) < 0x20 {
        None
    } else {
        json_lu(t, i + 1, texte.push(t[i]))
    }
}

/// The escaping of a text that a character starts.
proof fn lemme_echappes_premier(s: Seq<char>)
    requires
        s.len() > 0,
    ensures
        echappes(s) == echappe(s[0]) + echappes(s.drop_first()),
    decreases s.len(),
{
    if s.len() == 1 {
        assert(s.drop_last() =~= Seq::empty());
        assert(s.drop_first() =~= Seq::empty());
        assert(echappes(s) =~= echappe(s[0]) + echappes(s.drop_first()));
    } else {
        lemme_echappes_premier(s.drop_last());
        assert(s.drop_last().drop_first() =~= s.drop_first().drop_last());
        assert(echappes(s) =~= echappe(s[0]) + echappes(s.drop_first()));
    }
}

/// Reading an escaped character gives it back.
proof fn lemme_echappe_lu(t: Seq<char>, i: int, texte: Seq<char>, c: char)
    requires
        0 <= i,
        i + echappe(c).len() <= t.len(),
        t.subrange(i, i + echappe(c).len()) == echappe(c),
    ensures
        json_lu(t, i, texte) == json_lu(t, i + echappe(c).len(), texte.push(c)),
{
    let e = echappe(c);
    assert(forall|k: int| 0 <= k < e.len() ==> #[trigger] t[i + k] == e[k]) by {
        assert forall|k: int| 0 <= k < e.len() implies #[trigger] t[i + k] == e[k] by {
            assert(t.subrange(i, i + e.len())[k] == t[i + k]);
        }
    }
    assert(t[i + 0] == e[0]);
    if e.len() == 2 {
        assert(t[i + 1] == e[1]);
    }
    if e.len() == 6 {
        assert(t[i + 1] == e[1] && t[i + 2] == e[2] && t[i + 3] == e[3] && t[i + 4] == e[4] && t[i
            + 5] == e[5]);
    }
}

proof fn lemme_json_relu(t: Seq<char>, i: int, texte: Seq<char>, s: Seq<char>, suite: Seq<char>)
    requires
        0 <= i <= t.len(),
        t.subrange(i, t.len() as int) == echappes(s) + seq!['"'] + suite,
    ensures
        json_lu(t, i, texte) == Some((texte + s, suite)),
    decreases s.len(),
{
    let r = t.subrange(i, t.len() as int);
    assert(r.len() == echappes(s).len() + 1 + suite.len());
    if s.len() == 0 {
        assert((echappes(s) + seq!['"'] + suite)[0] == '"');
        assert(r[0] == t[i + 0]);
        assert(t.subrange(i + 1, t.len() as int) =~= suite) by {
            assert(r.subrange(1, r.len() as int) =~= suite);
            assert(t.subrange(i + 1, t.len() as int) =~= r.subrange(1, r.len() as int));
        }
        assert(texte + s =~= texte);
    } else {
        lemme_echappes_premier(s);
        let u = s.drop_first();
        let e = echappe(s[0]);
        assert(r =~= e + (echappes(u) + seq!['"'] + suite));
        assert(t.subrange(i, i + e.len()) =~= e) by {
            assert(r.subrange(0, e.len() as int) =~= e);
            assert(t.subrange(i, i + e.len()) =~= r.subrange(0, e.len() as int));
        }
        lemme_echappe_lu(t, i, texte, s[0]);
        assert(t.subrange(i + e.len(), t.len() as int) =~= echappes(u) + seq!['"'] + suite) by {
            assert(r.subrange(e.len() as int, r.len() as int) =~= echappes(u) + seq!['"'] + suite);
            assert(t.subrange(i + e.len(), t.len() as int) =~= r.subrange(
                e.len() as int,
                r.len() as int,
            ));
        }
        lemme_json_relu(t, i + e.len(), texte.push(s[0]), u, suite);
        assert(texte.push(s[0]) + u =~= texte + s);
    }
}

/// A text written as a JSON string is read back as it was, whatever follows it.
pub proof fn loi_json_relu(s: Seq<char>, suite: Seq<char>)
    ensures
        (chaine_json(s) + suite)[0] == '"',
        json_lu(chaine_json(s) + suite, 1, Seq::empty()) == Some((s, suite)),
{
    let t = chaine_json(s) + suite;
    assert(t.subrange(1, t.len() as int) =~= echappes(s) + seq!['"'] + suite);
    lemme_json_relu(t, 1, Seq::empty(), s, suite);
    assert(Seq::<char>::empty() + s =~= s);
}

/// Whether a character stands in a JSON string as it is.
pub open spec fn ordinaire(c: char) -> bool {
    c != '"' && c != '\\' && imprimable(c)
}

/// Whether a character may stand in a JSON string: no control character, and neither
/// of the two separators that end a line of script.
pub open spec fn imprimable(c: char) -> bool {
    (c as u32) >= 0x20 && c != '\u{2028}' && c != '\u{2029}'
}

/// The index of the first quote, from `i` on, that no backslash protects.
pub open spec fn guillemet_nu(t: Seq<char>, i: int) -> Option<int>
    decreases t.len() + 1 - i,
{
    if i < 0 || i >= t.len() {
        None
    } else if t[i] == '"' {
        Some(i)
    } else if t[i] == '\\' {
        guillemet_nu(t, i + 2)
    } else {
        guillemet_nu(t, i + 1)
    }
}

proof fn lemme_echappe_imprimable(c: char)
    ensures
        forall|k: int| 0 <= k < echappe(c).len() ==> imprimable(#[trigger] echappe(c)[k]),
{
    let e = echappe(c);
    assert forall|k: int| 0 <= k < e.len() implies imprimable(#[trigger] e[k]) by {
        if e.len() == 6 {
            assert(k == 0 || k == 1 || k == 2 || k == 3 || k == 4 || k == 5);
        } else if e.len() == 2 {
            assert(k == 0 || k == 1);
        } else {
            assert(e == seq![c]);
        }
    }
}

/// A JSON string holds no control character and neither of the two separators that
/// end a line of script; a character that needs no escape stands in it as it is.
pub proof fn loi_json_imprimable(s: Seq<char>)
    ensures
        forall|i: int|
            0 <= i < chaine_json(s).len() ==> imprimable(#[trigger] chaine_json(s)[i]),
        (forall|i: int| 0 <= i < s.len() ==> ordinaire(#[trigger] s[i])) ==> chaine_json(s)
            == seq!['"'] + s + seq!['"'],
    decreases s.len(),
{
    if s.len() == 0 {
        assert(seq!['"'] + s + seq!['"'] =~= chaine_json(s));
    } else {
        let u = s.drop_last();
        let e = echappe(s.last());
        loi_json_imprimable(u);
        lemme_echappe_imprimable(s.last());
        assert(echappes(s) == echappes(u) + e);
        assert forall|i: int| 0 <= i < chaine_json(s).len() implies imprimable(
            #[trigger] chaine_json(s)[i],
        ) by {
            let n = echappes(u).len() as int;
            if i <= n {
                assert(chaine_json(s)[i] == chaine_json(u)[i]);
            } else if i <= n + e.len() {
                assert(chaine_json(s)[i] == e[i - n - 1]);
            }
        }
        if forall|i: int| 0 <= i < s.len() ==> ordinaire(#[trigger] s[i]) {
            assert forall|i: int| 0 <= i < u.len() implies ordinaire(#[trigger] u[i]) by {
                assert(u[i] == s[i]);
            }
            assert(ordinaire(s[s.len() - 1]));
            assert(echappes(u) =~= u) by {
                assert(chaine_json(u).subrange(1, chaine_json(u).len() - 1) =~= echappes(u));
                assert((seq!['"'] + u + seq!['"']).subrange(1, u.len() as int + 1) =~= u);
            }
            assert(chaine_json(s) =~= seq!['"'] + s + seq!['"']);
        }
    }
}

/// The escaping of a text is that of its parts, one after the other.
pub proof fn loi_json_par_parties(a: Seq<char>, b: Seq<char>)
    ensures
        echappes(a + b) == echappes(a) + echappes(b),
    decreases b.len(),
{
    if b.len() == 0 {
        assert(a + b =~= a);
        assert(echappes(a) + echappes(b) =~= echappes(a));
    } else {
        loi_json_par_parties(a, b.drop_last());
        assert((a + b).drop_last() =~= a + b.drop_last());
        assert(echappes(a + b) =~= echappes(a) + echappes(b));
    }
}

proof fn lemme_guillemet_echappe(t: Seq<char>, i: int, c: char)
    requires
        0 <= i,
        i + echappe(c).len() <= t.len(),
        t.subrange(i, i + echappe(c).len()) == echappe(c),
    ensures
        guillemet_nu(t, i) == guillemet_nu(t, i + echappe(c).len()),
{
    let e = echappe(c);
    assert forall|k: int| 0 <= k < e.len() implies #[trigger] t[i + k] == e[k] by {
        assert(t.subrange(i, i + e.len())[k] == t[i + k]);
    }
    assert(t[i + 0] == e[0]);
    if e.len() == 6 {
        assert(t[i + 2] == e[2] && t[i + 3] == e[3] && t[i + 4] == e[4] && t[i + 5] == e[5]);
        reveal_with_fuel(guillemet_nu, 6);
    }
}

proof fn lemme_guillemet_final(t: Seq<char>, i: int, s: Seq<char>)
    requires
        0 <= i <= t.len(),
        t.subrange(i, t.len() as int) == echappes(s) + seq!['"'],
    ensures
        guillemet_nu(t, i) == Some(t.len() - 1),
    decreases s.len(),
{
    let r = t.subrange(i, t.len() as int);
    assert(r.len() == echappes(s).len() + 1);
    if s.len() == 0 {
        assert(r[0] == '"');
        assert(r[0] == t[i + 0]);
    } else {
        lemme_echappes_premier(s);
        let u = s.drop_first();
        let e = echappe(s[0]);
        assert(r =~= e + (echappes(u) + seq!['"']));
        assert(t.subrange(i, i + e.len()) =~= e) by {
            assert(r.subrange(0, e.len() as int) =~= e);
            assert(t.subrange(i, i + e.len()) =~= r.subrange(0, e.len() as int));
        }
        lemme_guillemet_echappe(t, i, s[0]);
        assert(t.subrange(i + e.len(), t.len() as int) =~= echappes(u) + seq!['"']) by {
            assert(r.subrange(e.len() as int, r.len() as int) =~= echappes(u) + seq!['"']);
            assert(t.subrange(i + e.len(), t.len() as int) =~= r.subrange(
                e.len() as int,
                r.len() as int,
            ));
        }
        lemme_guillemet_final(t, i + e.len(), u);
    }
}

/// A JSON string starts with a quote, and the next one that no backslash protects
/// ends it.
pub proof fn loi_json_borne(s: Seq<char>)
    ensures
        chaine_json(s)[0] == '"',
        guillemet_nu(chaine_json(s), 1) == Some(chaine_json(s).len() - 1),
{
    let t = chaine_json(s);
    assert(t.subrange(1, t.len() as int) =~= echappes(s) + seq!['"']);
    lemme_guillemet_final(t, 1, s);
}

/// Two texts are never written as the same JSON string.
pub proof fn loi_json_injectif(a: Seq<char>, b: Seq<char>)
    requires
        chaine_json(a) == chaine_json(b),
    ensures
        a == b,
{
    loi_json_relu(a, Seq::empty());
    loi_json_relu(b, Seq::empty());
}

} // verus!
