//! What the interface reads of what it is given: the fields of JSON objects.

use vstd::prelude::*;

use crate::boite::{
    compte_json, comptes_json, comptes_montres, etat_de, ligne_compte, BoiteVue, Etat,
};
use crate::index::PieceJointeVue;
use crate::json::{
    booleen, chaine_json, dossier_json, json_lu, lecteur_uid_liste, liste_json, loi_json_imprimable,
    loi_json_relu, message_json, messages_json, piece_json, pieces_json, uids_listes,
};
use crate::nombre::{decimal, decimal_signe, lemme_decimal, valeur};
use crate::tables::{CompteVue, DossierLocalVue, MessageVue};
use crate::texte::{
    champs, coupe, debute, jointure, lemme_champs, lemme_coupe, lemme_filtre_joint,
    lemme_rien_a_rogner,
};

verus! {

// -------------------------------------------------------------------------- reading

/// A value of JSON, among those that the interface is given.
pub enum Valeur {
    Texte(Seq<char>),
    Nombre(int),
    Verite(bool),
}

/// Where the digits that start at `i` end.
pub open spec fn fin_chiffres(s: Seq<char>, i: int) -> int
    decreases s.len() - i,
{
    if 0 <= i < s.len() && '0' <= s[i] <= '9' {
        fin_chiffres(s, i + 1)
    } else {
        i
    }
}

/// The value that starts a text, and what follows it.
pub open spec fn valeur_lue(s: Seq<char>) -> Option<(Valeur, Seq<char>)> {
    if s.len() == 0 {
        None
    } else if s[0] == '"' {
        match json_lu(s, 1, Seq::empty()) {
            Some((t, r)) => Some((Valeur::Texte(t), r)),
            None => None,
        }
    } else if debute(s, "true"@) {
        Some((Valeur::Verite(true), s.skip(4)))
    } else if debute(s, "false"@) {
        Some((Valeur::Verite(false), s.skip(5)))
    } else {
        let d: int = if s[0] == '-' {
            1
        } else {
            0
        };
        let f = fin_chiffres(s, d);
        let n = valeur(s.subrange(d, f), 10) as int;
        if f == d {
            None
        } else {
            Some((
                Valeur::Nombre(
                    if d == 1 {
                        -n
                    } else {
                        n
                    },
                ),
                s.skip(f),
            ))
        }
    }
}

/// The fields of an object, each with its name, and what follows the object. The first
/// comes after the character that is given, the others after commas.
#[verifier::opaque]
pub open spec fn champs_lus(s: Seq<char>, avant: char) -> Option<
    (Seq<(Seq<char>, Valeur)>, Seq<char>),
>
    decreases s.len(),
{
    if s.len() < 2 || s[0] != avant || s[1] != '"' {
        None
    } else {
        match coupe(s.skip(2), '"') {
            None => None,
            Some((nom, r)) => if r.len() == 0 || r[0] != ':' {
                None
            } else {
                match valeur_lue(r.drop_first()) {
                    None => None,
                    Some((v, q)) => if q.len() == 0 || q.len() >= s.len() {
                        None
                    } else if q[0] == '}' {
                        Some((seq![(nom, v)], q.drop_first()))
                    } else {
                        match champs_lus(q, ',') {
                            Some((l, f)) => Some((seq![(nom, v)] + l, f)),
                            None => None,
                        }
                    },
                }
            },
        }
    }
}

/// The fields of the object that starts a text, and what follows it.
pub open spec fn objet_lu(s: Seq<char>) -> Option<(Seq<(Seq<char>, Valeur)>, Seq<char>)> {
    champs_lus(s, '{')
}

/// The objects of a list, from the one that starts the text on.
pub open spec fn objets_lus(s: Seq<char>) -> Option<Seq<Seq<(Seq<char>, Valeur)>>>
    decreases s.len(),
{
    match objet_lu(s) {
        None => None,
        Some((o, r)) => if r.len() == 0 || r.len() >= s.len() {
            None
        } else if r == seq![']'] {
            Some(seq![o])
        } else if r[0] != ',' {
            None
        } else {
            match objets_lus(r.drop_first()) {
                Some(l) => Some(seq![o] + l),
                None => None,
            }
        },
    }
}

/// The objects of a list.
pub open spec fn liste_lue(s: Seq<char>) -> Option<Seq<Seq<(Seq<char>, Valeur)>>> {
    if s == seq!['[', ']'] {
        Some(Seq::empty())
    } else if s.len() == 0 || s[0] != '[' {
        None
    } else {
        objets_lus(s.drop_first())
    }
}

// -------------------------------------------------------------------------- writing

/// How a value is written.
spec fn ecriture(v: Valeur) -> Seq<char> {
    match v {
        Valeur::Texte(t) => chaine_json(t),
        Valeur::Nombre(n) => decimal_signe(n),
        Valeur::Verite(b) => booleen(b),
    }
}

/// Whether what follows a value is the fields that are given, up to the end of the
/// object.
#[verifier::opaque]
spec fn champs_restants(s: Seq<char>, l: Seq<(Seq<char>, Valeur)>, fin: Seq<char>) -> bool {
    s.len() > 0 && if s[0] == '}' {
        l.len() == 0 && fin == s.drop_first()
    } else {
        s[0] == ',' && champs_lus(s, ',') == Some((l, fin))
    }
}

proof fn lemme_fin_chiffres(s: Seq<char>, i: int, n: int)
    requires
        0 <= i <= n < s.len(),
        forall|k: int| i <= k < n ==> '0' <= #[trigger] s[k] <= '9',
        !('0' <= s[n] <= '9'),
    ensures
        fin_chiffres(s, i) == n,
    decreases n - i,
{
    if i < n {
        assert('0' <= s[i] <= '9');
        lemme_fin_chiffres(s, i + 1, n);
    }
}

/// A value that is written is read back.
proof fn lemme_valeur(v: Valeur, suite: Seq<char>)
    requires
        suite.len() > 0,
        suite[0] == ',' || suite[0] == '}',
    ensures
        valeur_lue(ecriture(v) + suite) == Some((v, suite)),
        ecriture(v).len() > 0,
{
    reveal_strlit("true");
    reveal_strlit("false");
    let s = ecriture(v) + suite;
    match v {
        Valeur::Texte(t) => {
            loi_json_relu(t, suite);
        },
        Valeur::Verite(b) => {
            if b {
                assert(s.subrange(0, 4) =~= "true"@);
                assert(s.skip(4) =~= suite);
            } else {
                assert(s[0] == 'f');
                assert(s.subrange(0, 4)[0] == 'f');
                assert(s.subrange(0, 5) =~= "false"@);
                assert(s.skip(5) =~= suite);
            }
        },
        Valeur::Nombre(n) => {
            let a: nat = if n < 0 {
                (-n) as nat
            } else {
                n as nat
            };
            let d: int = if n < 0 {
                1
            } else {
                0
            };
            let e = ecriture(v);
            lemme_decimal(a);
            assert(e.len() == d + decimal(a).len());
            assert forall|k: int| d <= k < e.len() implies '0' <= #[trigger] s[k] <= '9' by {
                assert(s[k] == decimal(a)[k - d]);
            }
            if n >= 0 {
                assert(s[0] == decimal(a)[0]);
            } else {
                assert(s[0] == '-');
            }
            if debute(s, "true"@) {
                assert(s.subrange(0, 4)[0] == 't');
                assert(s.subrange(0, 4)[0] == s[0]);
            }
            if debute(s, "false"@) {
                assert(s.subrange(0, 5)[0] == 'f');
                assert(s.subrange(0, 5)[0] == s[0]);
            }
            assert(s[e.len() as int] == suite[0]);
            lemme_fin_chiffres(s, d, e.len() as int);
            assert(s.subrange(d, e.len() as int) =~= decimal(a));
            assert(s.skip(e.len() as int) =~= suite);
        },
    }
}

/// A field that is written is read back, and those that follow it after it.
proof fn lemme_champ(
    avant: char,
    titre: Seq<char>,
    nom: Seq<char>,
    v: Valeur,
    suite: Seq<char>,
    l: Seq<(Seq<char>, Valeur)>,
    fin: Seq<char>,
)
    requires
        titre =~= seq![avant, '"'] + nom + seq!['"', ':'],
        !nom.contains('"'),
        champs_restants(suite, l, fin),
        avant == ',' || avant == '{',
    ensures
        champs_lus(titre + (ecriture(v) + suite), avant) == Some((seq![(nom, v)] + l, fin)),
        avant == ',' ==> champs_restants(titre + (ecriture(v) + suite), seq![(nom, v)] + l, fin),
{
    reveal(champs_lus);
    reveal(champs_restants);
    let e = ecriture(v) + suite;
    let s = titre + e;
    let r = seq![':'] + e;
    lemme_coupe(nom, '"', r);
    assert(s.skip(2) =~= nom + seq!['"'] + r);
    assert(r.drop_first() =~= e);
    lemme_valeur(v, suite);
    if suite[0] == '}' {
        assert(seq![(nom, v)] + l =~= seq![(nom, v)]);
    }
}

/// The end of an object.
proof fn lemme_fermeture(suite: Seq<char>)
    ensures
        champs_restants("}"@ + suite, Seq::empty(), suite),
{
    reveal_strlit("}");
    reveal(champs_restants);
    assert(("}"@ + suite).drop_first() =~= suite);
}

/// A field among others: it may be set apart with those that follow it.
proof fn lemme_associe(x: Seq<char>, titre: Seq<char>, e: Seq<char>, suite: Seq<char>)
    ensures
        x + titre + e + suite == x + (titre + (e + suite)),
        titre + e + suite == titre + (e + suite),
{
    assert(x + titre + e + suite =~= x + (titre + (e + suite)));
    assert(titre + e + suite =~= titre + (e + suite));
}

// ------------------------------------------------------------------------------ laws

/// The word that the interface knows a state by.
pub open spec fn mot_etat(e: Etat) -> Seq<char> {
    match e {
        Etat::HorsLigne => "horsligne"@,
        Etat::Connexion => "connexion"@,
        Etat::Pret => "pret"@,
        Etat::Erreur => "erreur"@,
    }
}

/// The fields of a message for the interface.
pub open spec fn champs_message(m: MessageVue) -> Seq<(Seq<char>, Valeur)> {
    seq![
        ("uid"@, Valeur::Nombre(m.uid as int)),
        ("expediteur"@, Valeur::Texte(m.expediteur)),
        ("adresse"@, Valeur::Texte(m.adresse)),
        ("sujet"@, Valeur::Texte(m.sujet)),
        ("date"@, Valeur::Texte(m.date)),
        ("taille"@, Valeur::Nombre(m.taille as int)),
        ("lu"@, Valeur::Verite(m.lu)),
        ("repondu"@, Valeur::Verite(m.repondu)),
    ]
}

/// A message is read back with each of its fields under its name, whatever follows it.
#[verifier::spinoff_prover]
#[verifier::rlimit(60)]
pub proof fn loi_message_relu(m: MessageVue, suite: Seq<char>)
    ensures
        objet_lu(message_json(m) + suite) == Some((champs_message(m), suite)),
{
    let e0 = Valeur::Nombre(m.uid as int);
    let x0 = "{\"uid\":"@ + ecriture(e0);
    let e1 = Valeur::Texte(m.expediteur);
    let x1 = x0 + ",\"expediteur\":"@ + ecriture(e1);
    let e2 = Valeur::Texte(m.adresse);
    let x2 = x1 + ",\"adresse\":"@ + ecriture(e2);
    let e3 = Valeur::Texte(m.sujet);
    let x3 = x2 + ",\"sujet\":"@ + ecriture(e3);
    let e4 = Valeur::Texte(m.date);
    let x4 = x3 + ",\"date\":"@ + ecriture(e4);
    let e5 = Valeur::Nombre(m.taille as int);
    let x5 = x4 + ",\"taille\":"@ + ecriture(e5);
    let e6 = Valeur::Verite(m.lu);
    let x6 = x5 + ",\"lu\":"@ + ecriture(e6);
    let e7 = Valeur::Verite(m.repondu);
    let x7 = x6 + ",\"repondu\":"@ + ecriture(e7);
    let r8 = "}"@ + suite;
    let l8 = Seq::<(Seq<char>, Valeur)>::empty();
    lemme_fermeture(suite);
    let r7 = ",\"repondu\":"@ + (ecriture(e7) + r8);
    let l7 = seq![("repondu"@, e7)] + l8;
    assert(champs_restants(r7, l7, suite)) by {
        reveal_strlit("repondu");
        reveal_strlit(",\"repondu\":");
        lemme_champ(',', ",\"repondu\":"@, "repondu"@, e7, r8, l8, suite);
    }
    lemme_associe(x6, ",\"repondu\":"@, ecriture(e7), r8);
    let r6 = ",\"lu\":"@ + (ecriture(e6) + r7);
    let l6 = seq![("lu"@, e6)] + l7;
    assert(champs_restants(r6, l6, suite)) by {
        reveal_strlit("lu");
        reveal_strlit(",\"lu\":");
        lemme_champ(',', ",\"lu\":"@, "lu"@, e6, r7, l7, suite);
    }
    lemme_associe(x5, ",\"lu\":"@, ecriture(e6), r7);
    let r5 = ",\"taille\":"@ + (ecriture(e5) + r6);
    let l5 = seq![("taille"@, e5)] + l6;
    assert(champs_restants(r5, l5, suite)) by {
        reveal_strlit("taille");
        reveal_strlit(",\"taille\":");
        lemme_champ(',', ",\"taille\":"@, "taille"@, e5, r6, l6, suite);
    }
    lemme_associe(x4, ",\"taille\":"@, ecriture(e5), r6);
    let r4 = ",\"date\":"@ + (ecriture(e4) + r5);
    let l4 = seq![("date"@, e4)] + l5;
    assert(champs_restants(r4, l4, suite)) by {
        reveal_strlit("date");
        reveal_strlit(",\"date\":");
        lemme_champ(',', ",\"date\":"@, "date"@, e4, r5, l5, suite);
    }
    lemme_associe(x3, ",\"date\":"@, ecriture(e4), r5);
    let r3 = ",\"sujet\":"@ + (ecriture(e3) + r4);
    let l3 = seq![("sujet"@, e3)] + l4;
    assert(champs_restants(r3, l3, suite)) by {
        reveal_strlit("sujet");
        reveal_strlit(",\"sujet\":");
        lemme_champ(',', ",\"sujet\":"@, "sujet"@, e3, r4, l4, suite);
    }
    lemme_associe(x2, ",\"sujet\":"@, ecriture(e3), r4);
    let r2 = ",\"adresse\":"@ + (ecriture(e2) + r3);
    let l2 = seq![("adresse"@, e2)] + l3;
    assert(champs_restants(r2, l2, suite)) by {
        reveal_strlit("adresse");
        reveal_strlit(",\"adresse\":");
        lemme_champ(',', ",\"adresse\":"@, "adresse"@, e2, r3, l3, suite);
    }
    lemme_associe(x1, ",\"adresse\":"@, ecriture(e2), r3);
    let r1 = ",\"expediteur\":"@ + (ecriture(e1) + r2);
    let l1 = seq![("expediteur"@, e1)] + l2;
    assert(champs_restants(r1, l1, suite)) by {
        reveal_strlit("expediteur");
        reveal_strlit(",\"expediteur\":");
        lemme_champ(',', ",\"expediteur\":"@, "expediteur"@, e1, r2, l2, suite);
    }
    lemme_associe(x0, ",\"expediteur\":"@, ecriture(e1), r2);
    let r0 = "{\"uid\":"@ + (ecriture(e0) + r1);
    let l0 = seq![("uid"@, e0)] + l1;
    assert(objet_lu(r0) == Some((l0, suite))) by {
        reveal_strlit("uid");
        reveal_strlit("{\"uid\":");
        lemme_champ('{', "{\"uid\":"@, "uid"@, e0, r1, l1, suite);
    }
    lemme_associe(Seq::empty(), "{\"uid\":"@, ecriture(e0), r1);
    lemme_associe(Seq::empty(), x7, "}"@, suite);
    assert(l0 =~= champs_message(m));
}

/// The fields of an attachment for the interface.
pub open spec fn champs_piece(p: PieceJointeVue) -> Seq<(Seq<char>, Valeur)> {
    seq![
        ("indice"@, Valeur::Nombre(p.indice as int)),
        ("nom"@, Valeur::Texte(p.nom)),
        ("type"@, Valeur::Texte(p.type_mime)),
        ("taille"@, Valeur::Nombre(p.taille as int)),
        ("risquee"@, Valeur::Verite(p.risquee)),
    ]
}

/// An attachment is read back with each of its fields under its name.
#[verifier::spinoff_prover]
#[verifier::rlimit(60)]
pub proof fn loi_piece_relue(p: PieceJointeVue, suite: Seq<char>)
    ensures
        objet_lu(piece_json(p) + suite) == Some((champs_piece(p), suite)),
{
    let e0 = Valeur::Nombre(p.indice as int);
    let x0 = "{\"indice\":"@ + ecriture(e0);
    let e1 = Valeur::Texte(p.nom);
    let x1 = x0 + ",\"nom\":"@ + ecriture(e1);
    let e2 = Valeur::Texte(p.type_mime);
    let x2 = x1 + ",\"type\":"@ + ecriture(e2);
    let e3 = Valeur::Nombre(p.taille as int);
    let x3 = x2 + ",\"taille\":"@ + ecriture(e3);
    let e4 = Valeur::Verite(p.risquee);
    let x4 = x3 + ",\"risquee\":"@ + ecriture(e4);
    let r5 = "}"@ + suite;
    let l5 = Seq::<(Seq<char>, Valeur)>::empty();
    lemme_fermeture(suite);
    let r4 = ",\"risquee\":"@ + (ecriture(e4) + r5);
    let l4 = seq![("risquee"@, e4)] + l5;
    assert(champs_restants(r4, l4, suite)) by {
        reveal_strlit("risquee");
        reveal_strlit(",\"risquee\":");
        lemme_champ(',', ",\"risquee\":"@, "risquee"@, e4, r5, l5, suite);
    }
    lemme_associe(x3, ",\"risquee\":"@, ecriture(e4), r5);
    let r3 = ",\"taille\":"@ + (ecriture(e3) + r4);
    let l3 = seq![("taille"@, e3)] + l4;
    assert(champs_restants(r3, l3, suite)) by {
        reveal_strlit("taille");
        reveal_strlit(",\"taille\":");
        lemme_champ(',', ",\"taille\":"@, "taille"@, e3, r4, l4, suite);
    }
    lemme_associe(x2, ",\"taille\":"@, ecriture(e3), r4);
    let r2 = ",\"type\":"@ + (ecriture(e2) + r3);
    let l2 = seq![("type"@, e2)] + l3;
    assert(champs_restants(r2, l2, suite)) by {
        reveal_strlit("type");
        reveal_strlit(",\"type\":");
        lemme_champ(',', ",\"type\":"@, "type"@, e2, r3, l3, suite);
    }
    lemme_associe(x1, ",\"type\":"@, ecriture(e2), r3);
    let r1 = ",\"nom\":"@ + (ecriture(e1) + r2);
    let l1 = seq![("nom"@, e1)] + l2;
    assert(champs_restants(r1, l1, suite)) by {
        reveal_strlit("nom");
        reveal_strlit(",\"nom\":");
        lemme_champ(',', ",\"nom\":"@, "nom"@, e1, r2, l2, suite);
    }
    lemme_associe(x0, ",\"nom\":"@, ecriture(e1), r2);
    let r0 = "{\"indice\":"@ + (ecriture(e0) + r1);
    let l0 = seq![("indice"@, e0)] + l1;
    assert(objet_lu(r0) == Some((l0, suite))) by {
        reveal_strlit("indice");
        reveal_strlit("{\"indice\":");
        lemme_champ('{', "{\"indice\":"@, "indice"@, e0, r1, l1, suite);
    }
    lemme_associe(Seq::empty(), "{\"indice\":"@, ecriture(e0), r1);
    lemme_associe(Seq::empty(), x4, "}"@, suite);
    assert(l0 =~= champs_piece(p));
}

/// The fields of a folder for the interface.
pub open spec fn champs_dossier(
    genre: Seq<char>,
    d: DossierLocalVue,
    adresse: Seq<char>,
    profondeur: u32,
) -> Seq<(Seq<char>, Valeur)> {
    seq![
        ("genre"@, Valeur::Texte(genre)),
        ("compte"@, Valeur::Nombre(d.compte_id as int)),
        ("adresse"@, Valeur::Texte(adresse)),
        ("chemin"@, Valeur::Texte(d.chemin)),
        ("nom"@, Valeur::Texte(d.nom)),
        ("separateur"@, Valeur::Texte(d.separateur)),
        ("profondeur"@, Valeur::Nombre(profondeur as int)),
        ("role"@, Valeur::Texte(d.role)),
        ("selectionnable"@, Valeur::Verite(d.selectionnable)),
        ("messages"@, Valeur::Nombre(d.messages as int)),
        ("nonLus"@, Valeur::Nombre(d.non_lus as int)),
        ("masque"@, Valeur::Verite(d.masque)),
        ("favori"@, Valeur::Verite(d.favori is Some)),
    ]
}

/// A folder is read back with each of its fields under its name.
#[verifier::spinoff_prover]
#[verifier::rlimit(60)]
pub proof fn loi_dossier_relu(
    genre: Seq<char>,
    d: DossierLocalVue,
    adresse: Seq<char>,
    profondeur: u32,
    suite: Seq<char>,
)
    ensures
        objet_lu(dossier_json(genre, d, adresse, profondeur) + suite) == Some(
            (champs_dossier(genre, d, adresse, profondeur), suite),
        ),
{
    let e0 = Valeur::Texte(genre);
    let x0 = "{\"genre\":"@ + ecriture(e0);
    let e1 = Valeur::Nombre(d.compte_id as int);
    let x1 = x0 + ",\"compte\":"@ + ecriture(e1);
    let e2 = Valeur::Texte(adresse);
    let x2 = x1 + ",\"adresse\":"@ + ecriture(e2);
    let e3 = Valeur::Texte(d.chemin);
    let x3 = x2 + ",\"chemin\":"@ + ecriture(e3);
    let e4 = Valeur::Texte(d.nom);
    let x4 = x3 + ",\"nom\":"@ + ecriture(e4);
    let e5 = Valeur::Texte(d.separateur);
    let x5 = x4 + ",\"separateur\":"@ + ecriture(e5);
    let e6 = Valeur::Nombre(profondeur as int);
    let x6 = x5 + ",\"profondeur\":"@ + ecriture(e6);
    let e7 = Valeur::Texte(d.role);
    let x7 = x6 + ",\"role\":"@ + ecriture(e7);
    let e8 = Valeur::Verite(d.selectionnable);
    let x8 = x7 + ",\"selectionnable\":"@ + ecriture(e8);
    let e9 = Valeur::Nombre(d.messages as int);
    let x9 = x8 + ",\"messages\":"@ + ecriture(e9);
    let e10 = Valeur::Nombre(d.non_lus as int);
    let x10 = x9 + ",\"nonLus\":"@ + ecriture(e10);
    let e11 = Valeur::Verite(d.masque);
    let x11 = x10 + ",\"masque\":"@ + ecriture(e11);
    let e12 = Valeur::Verite(d.favori is Some);
    let x12 = x11 + ",\"favori\":"@ + ecriture(e12);
    let r13 = "}"@ + suite;
    let l13 = Seq::<(Seq<char>, Valeur)>::empty();
    lemme_fermeture(suite);
    let r12 = ",\"favori\":"@ + (ecriture(e12) + r13);
    let l12 = seq![("favori"@, e12)] + l13;
    assert(champs_restants(r12, l12, suite)) by {
        reveal_strlit("favori");
        reveal_strlit(",\"favori\":");
        lemme_champ(',', ",\"favori\":"@, "favori"@, e12, r13, l13, suite);
    }
    lemme_associe(x11, ",\"favori\":"@, ecriture(e12), r13);
    let r11 = ",\"masque\":"@ + (ecriture(e11) + r12);
    let l11 = seq![("masque"@, e11)] + l12;
    assert(champs_restants(r11, l11, suite)) by {
        reveal_strlit("masque");
        reveal_strlit(",\"masque\":");
        lemme_champ(',', ",\"masque\":"@, "masque"@, e11, r12, l12, suite);
    }
    lemme_associe(x10, ",\"masque\":"@, ecriture(e11), r12);
    let r10 = ",\"nonLus\":"@ + (ecriture(e10) + r11);
    let l10 = seq![("nonLus"@, e10)] + l11;
    assert(champs_restants(r10, l10, suite)) by {
        reveal_strlit("nonLus");
        reveal_strlit(",\"nonLus\":");
        lemme_champ(',', ",\"nonLus\":"@, "nonLus"@, e10, r11, l11, suite);
    }
    lemme_associe(x9, ",\"nonLus\":"@, ecriture(e10), r11);
    let r9 = ",\"messages\":"@ + (ecriture(e9) + r10);
    let l9 = seq![("messages"@, e9)] + l10;
    assert(champs_restants(r9, l9, suite)) by {
        reveal_strlit("messages");
        reveal_strlit(",\"messages\":");
        lemme_champ(',', ",\"messages\":"@, "messages"@, e9, r10, l10, suite);
    }
    lemme_associe(x8, ",\"messages\":"@, ecriture(e9), r10);
    let r8 = ",\"selectionnable\":"@ + (ecriture(e8) + r9);
    let l8 = seq![("selectionnable"@, e8)] + l9;
    assert(champs_restants(r8, l8, suite)) by {
        reveal_strlit("selectionnable");
        reveal_strlit(",\"selectionnable\":");
        lemme_champ(',', ",\"selectionnable\":"@, "selectionnable"@, e8, r9, l9, suite);
    }
    lemme_associe(x7, ",\"selectionnable\":"@, ecriture(e8), r9);
    let r7 = ",\"role\":"@ + (ecriture(e7) + r8);
    let l7 = seq![("role"@, e7)] + l8;
    assert(champs_restants(r7, l7, suite)) by {
        reveal_strlit("role");
        reveal_strlit(",\"role\":");
        lemme_champ(',', ",\"role\":"@, "role"@, e7, r8, l8, suite);
    }
    lemme_associe(x6, ",\"role\":"@, ecriture(e7), r8);
    let r6 = ",\"profondeur\":"@ + (ecriture(e6) + r7);
    let l6 = seq![("profondeur"@, e6)] + l7;
    assert(champs_restants(r6, l6, suite)) by {
        reveal_strlit("profondeur");
        reveal_strlit(",\"profondeur\":");
        lemme_champ(',', ",\"profondeur\":"@, "profondeur"@, e6, r7, l7, suite);
    }
    lemme_associe(x5, ",\"profondeur\":"@, ecriture(e6), r7);
    let r5 = ",\"separateur\":"@ + (ecriture(e5) + r6);
    let l5 = seq![("separateur"@, e5)] + l6;
    assert(champs_restants(r5, l5, suite)) by {
        reveal_strlit("separateur");
        reveal_strlit(",\"separateur\":");
        lemme_champ(',', ",\"separateur\":"@, "separateur"@, e5, r6, l6, suite);
    }
    lemme_associe(x4, ",\"separateur\":"@, ecriture(e5), r6);
    let r4 = ",\"nom\":"@ + (ecriture(e4) + r5);
    let l4 = seq![("nom"@, e4)] + l5;
    assert(champs_restants(r4, l4, suite)) by {
        reveal_strlit("nom");
        reveal_strlit(",\"nom\":");
        lemme_champ(',', ",\"nom\":"@, "nom"@, e4, r5, l5, suite);
    }
    lemme_associe(x3, ",\"nom\":"@, ecriture(e4), r5);
    let r3 = ",\"chemin\":"@ + (ecriture(e3) + r4);
    let l3 = seq![("chemin"@, e3)] + l4;
    assert(champs_restants(r3, l3, suite)) by {
        reveal_strlit("chemin");
        reveal_strlit(",\"chemin\":");
        lemme_champ(',', ",\"chemin\":"@, "chemin"@, e3, r4, l4, suite);
    }
    lemme_associe(x2, ",\"chemin\":"@, ecriture(e3), r4);
    let r2 = ",\"adresse\":"@ + (ecriture(e2) + r3);
    let l2 = seq![("adresse"@, e2)] + l3;
    assert(champs_restants(r2, l2, suite)) by {
        reveal_strlit("adresse");
        reveal_strlit(",\"adresse\":");
        lemme_champ(',', ",\"adresse\":"@, "adresse"@, e2, r3, l3, suite);
    }
    lemme_associe(x1, ",\"adresse\":"@, ecriture(e2), r3);
    let r1 = ",\"compte\":"@ + (ecriture(e1) + r2);
    let l1 = seq![("compte"@, e1)] + l2;
    assert(champs_restants(r1, l1, suite)) by {
        reveal_strlit("compte");
        reveal_strlit(",\"compte\":");
        lemme_champ(',', ",\"compte\":"@, "compte"@, e1, r2, l2, suite);
    }
    lemme_associe(x0, ",\"compte\":"@, ecriture(e1), r2);
    let r0 = "{\"genre\":"@ + (ecriture(e0) + r1);
    let l0 = seq![("genre"@, e0)] + l1;
    assert(objet_lu(r0) == Some((l0, suite))) by {
        reveal_strlit("genre");
        reveal_strlit("{\"genre\":");
        lemme_champ('{', "{\"genre\":"@, "genre"@, e0, r1, l1, suite);
    }
    lemme_associe(Seq::empty(), "{\"genre\":"@, ecriture(e0), r1);
    lemme_associe(Seq::empty(), x12, "}"@, suite);
    assert(l0 =~= champs_dossier(genre, d, adresse, profondeur));
}

/// The fields of an account for the interface.
pub open spec fn champs_compte(c: CompteVue, e: Etat) -> Seq<(Seq<char>, Valeur)> {
    seq![
        ("id"@, Valeur::Nombre(c.id as int)),
        ("adresse"@, Valeur::Texte(c.adresse)),
        ("hote"@, Valeur::Texte(c.hote)),
        ("etat"@, Valeur::Texte(mot_etat(e))),
    ]
}

/// An account is read back with each of its fields under its name.
#[verifier::spinoff_prover]
#[verifier::rlimit(60)]
pub proof fn loi_compte_relu(c: CompteVue, e: Etat, suite: Seq<char>)
    ensures
        objet_lu(compte_json(c, e) + suite) == Some((champs_compte(c, e), suite)),
{
    let e0 = Valeur::Nombre(c.id as int);
    let x0 = "{\"id\":"@ + ecriture(e0);
    let e1 = Valeur::Texte(c.adresse);
    let x1 = x0 + ",\"adresse\":"@ + ecriture(e1);
    let e2 = Valeur::Texte(c.hote);
    let x2 = x1 + ",\"hote\":"@ + ecriture(e2);
    let e3 = Valeur::Texte(mot_etat(e));
    let x3 = x2 + ",\"etat\":"@ + ecriture(e3);
    let r4 = "}"@ + suite;
    let l4 = Seq::<(Seq<char>, Valeur)>::empty();
    lemme_fermeture(suite);
    let r3 = ",\"etat\":"@ + (ecriture(e3) + r4);
    let l3 = seq![("etat"@, e3)] + l4;
    assert(champs_restants(r3, l3, suite)) by {
        reveal_strlit("etat");
        reveal_strlit(",\"etat\":");
        lemme_champ(',', ",\"etat\":"@, "etat"@, e3, r4, l4, suite);
    }
    lemme_associe(x2, ",\"etat\":"@, ecriture(e3), r4);
    let r2 = ",\"hote\":"@ + (ecriture(e2) + r3);
    let l2 = seq![("hote"@, e2)] + l3;
    assert(champs_restants(r2, l2, suite)) by {
        reveal_strlit("hote");
        reveal_strlit(",\"hote\":");
        lemme_champ(',', ",\"hote\":"@, "hote"@, e2, r3, l3, suite);
    }
    lemme_associe(x1, ",\"hote\":"@, ecriture(e2), r3);
    let r1 = ",\"adresse\":"@ + (ecriture(e1) + r2);
    let l1 = seq![("adresse"@, e1)] + l2;
    assert(champs_restants(r1, l1, suite)) by {
        reveal_strlit("adresse");
        reveal_strlit(",\"adresse\":");
        lemme_champ(',', ",\"adresse\":"@, "adresse"@, e1, r2, l2, suite);
    }
    lemme_associe(x0, ",\"adresse\":"@, ecriture(e1), r2);
    let r0 = "{\"id\":"@ + (ecriture(e0) + r1);
    let l0 = seq![("id"@, e0)] + l1;
    assert(objet_lu(r0) == Some((l0, suite))) by {
        reveal_strlit("id");
        reveal_strlit("{\"id\":");
        lemme_champ('{', "{\"id\":"@, "id"@, e0, r1, l1, suite);
    }
    lemme_associe(Seq::empty(), "{\"id\":"@, ecriture(e0), r1);
    lemme_associe(Seq::empty(), x3, "}"@, suite);
    assert(l0 =~= champs_compte(c, e));
}

/// The fields of the line of an account in the tree.
pub open spec fn champs_ligne(c: CompteVue, e: Etat) -> Seq<(Seq<char>, Valeur)> {
    seq![
        ("genre"@, Valeur::Texte("compte"@)),
        ("compte"@, Valeur::Nombre(c.id as int)),
        ("adresse"@, Valeur::Texte(c.adresse)),
        ("hote"@, Valeur::Texte(c.hote)),
        ("etat"@, Valeur::Texte(mot_etat(e))),
        ("replie"@, Valeur::Verite(c.replie)),
    ]
}

/// The line of an account is read back with each of its fields under its name.
#[verifier::spinoff_prover]
#[verifier::rlimit(60)]
pub proof fn loi_ligne_relue(c: CompteVue, e: Etat, suite: Seq<char>)
    ensures
        objet_lu(ligne_compte(c, e) + suite) == Some((champs_ligne(c, e), suite)),
{
    let e0 = Valeur::Texte("compte"@);
    let x0 = "{\"genre\":"@ + ecriture(e0);
    let e1 = Valeur::Nombre(c.id as int);
    let x1 = x0 + ",\"compte\":"@ + ecriture(e1);
    let e2 = Valeur::Texte(c.adresse);
    let x2 = x1 + ",\"adresse\":"@ + ecriture(e2);
    let e3 = Valeur::Texte(c.hote);
    let x3 = x2 + ",\"hote\":"@ + ecriture(e3);
    let e4 = Valeur::Texte(mot_etat(e));
    let x4 = x3 + ",\"etat\":"@ + ecriture(e4);
    let e5 = Valeur::Verite(c.replie);
    let x5 = x4 + ",\"replie\":"@ + ecriture(e5);
    let r6 = "}"@ + suite;
    let l6 = Seq::<(Seq<char>, Valeur)>::empty();
    lemme_fermeture(suite);
    let r5 = ",\"replie\":"@ + (ecriture(e5) + r6);
    let l5 = seq![("replie"@, e5)] + l6;
    assert(champs_restants(r5, l5, suite)) by {
        reveal_strlit("replie");
        reveal_strlit(",\"replie\":");
        lemme_champ(',', ",\"replie\":"@, "replie"@, e5, r6, l6, suite);
    }
    lemme_associe(x4, ",\"replie\":"@, ecriture(e5), r6);
    let r4 = ",\"etat\":"@ + (ecriture(e4) + r5);
    let l4 = seq![("etat"@, e4)] + l5;
    assert(champs_restants(r4, l4, suite)) by {
        reveal_strlit("etat");
        reveal_strlit(",\"etat\":");
        lemme_champ(',', ",\"etat\":"@, "etat"@, e4, r5, l5, suite);
    }
    lemme_associe(x3, ",\"etat\":"@, ecriture(e4), r5);
    let r3 = ",\"hote\":"@ + (ecriture(e3) + r4);
    let l3 = seq![("hote"@, e3)] + l4;
    assert(champs_restants(r3, l3, suite)) by {
        reveal_strlit("hote");
        reveal_strlit(",\"hote\":");
        lemme_champ(',', ",\"hote\":"@, "hote"@, e3, r4, l4, suite);
    }
    lemme_associe(x2, ",\"hote\":"@, ecriture(e3), r4);
    let r2 = ",\"adresse\":"@ + (ecriture(e2) + r3);
    let l2 = seq![("adresse"@, e2)] + l3;
    assert(champs_restants(r2, l2, suite)) by {
        reveal_strlit("adresse");
        reveal_strlit(",\"adresse\":");
        lemme_champ(',', ",\"adresse\":"@, "adresse"@, e2, r3, l3, suite);
    }
    lemme_associe(x1, ",\"adresse\":"@, ecriture(e2), r3);
    let r1 = ",\"compte\":"@ + (ecriture(e1) + r2);
    let l1 = seq![("compte"@, e1)] + l2;
    assert(champs_restants(r1, l1, suite)) by {
        reveal_strlit("compte");
        reveal_strlit(",\"compte\":");
        lemme_champ(',', ",\"compte\":"@, "compte"@, e1, r2, l2, suite);
    }
    lemme_associe(x0, ",\"compte\":"@, ecriture(e1), r2);
    let r0 = "{\"genre\":"@ + (ecriture(e0) + r1);
    let l0 = seq![("genre"@, e0)] + l1;
    assert(objet_lu(r0) == Some((l0, suite))) by {
        reveal_strlit("genre");
        reveal_strlit("{\"genre\":");
        lemme_champ('{', "{\"genre\":"@, "genre"@, e0, r1, l1, suite);
    }
    lemme_associe(Seq::empty(), "{\"genre\":"@, ecriture(e0), r1);
    assert("{\"genre\":\"compte\",\"compte\":"@ =~= x0 + ",\"compte\":"@) by {
        reveal_strlit("{\"genre\":\"compte\",\"compte\":");
        reveal_strlit("{\"genre\":");
        reveal_strlit(",\"compte\":");
        reveal_strlit("compte");
        loi_json_imprimable("compte"@);
    }
    lemme_associe(Seq::empty(), x5, "}"@, suite);
    assert(l0 =~= champs_ligne(c, e));
}

proof fn lemme_jointure(v: Seq<Seq<char>>, sep: Seq<char>)
    requires
        v.len() >= 2,
    ensures
        jointure(v, sep) == v[0] + (sep + jointure(v.drop_first(), sep)),
    decreases v.len(),
{
    if v.len() == 2 {
        assert(v.drop_last() =~= seq![v[0]]);
        assert(v.drop_first() =~= seq![v[1]]);
        assert(jointure(v.drop_last(), sep) == v[0]);
        assert(jointure(v.drop_first(), sep) == v[1]);
        assert(jointure(v, sep) =~= v[0] + (sep + v[1]));
    } else {
        lemme_jointure(v.drop_last(), sep);
        let u = v.drop_first();
        assert(v.drop_last().drop_first() =~= u.drop_last());
        assert(jointure(u, sep) == jointure(u.drop_last(), sep) + sep + v.last());
        assert(jointure(v, sep) =~= v[0] + (sep + jointure(u, sep)));
    }
}

proof fn lemme_objets(v: Seq<Seq<char>>, o: Seq<Seq<(Seq<char>, Valeur)>>)
    requires
        v.len() == o.len() > 0,
        forall|i: int, suite: Seq<char>|
            0 <= i < v.len() ==> v[i].len() > 0 && #[trigger] objet_lu(v[i] + suite) == Some(
                (o[i], suite),
            ),
    ensures
        objets_lus(jointure(v, ","@) + seq![']']) == Some(o),
    decreases v.len(),
{
    reveal_strlit(",");
    if v.len() == 1 {
        assert(objet_lu(v[0] + seq![']']) == Some((o[0], seq![']'])));
        assert(seq![o[0]] =~= o);
    } else {
        let t = v.drop_first();
        let r = jointure(t, ","@) + seq![']'];
        let s = jointure(v, ","@) + seq![']'];
        lemme_jointure(v, ","@);
        assert(s =~= v[0] + (","@ + r));
        assert(objet_lu(v[0] + (","@ + r)) == Some((o[0], ","@ + r)));
        assert forall|i: int, suite: Seq<char>| 0 <= i < t.len() implies t[i].len() > 0
            && #[trigger] objet_lu(t[i] + suite) == Some((o.drop_first()[i], suite)) by {
            assert(objet_lu(v[i + 1] + suite) == Some((o[i + 1], suite)));
        }
        lemme_objets(t, o.drop_first());
        assert((","@ + r).drop_first() =~= r);
        assert((","@ + r)[0] == ',');
        assert(seq![o[0]] + o.drop_first() =~= o);
    }
}

/// A list of objects is read back when each object is.
proof fn lemme_liste(v: Seq<Seq<char>>, o: Seq<Seq<(Seq<char>, Valeur)>>)
    requires
        v.len() == o.len(),
        forall|i: int, suite: Seq<char>|
            0 <= i < v.len() ==> v[i].len() > 0 && #[trigger] objet_lu(v[i] + suite) == Some(
                (o[i], suite),
            ),
    ensures
        liste_lue(liste_json(v)) == Some(o),
{
    reveal_strlit("[");
    reveal_strlit("]");
    assert("]"@ =~= seq![']']);
    let s = liste_json(v);
    if v.len() == 0 {
        assert(s =~= seq!['[', ']']);
        assert(o =~= Seq::empty());
    } else {
        lemme_objets(v, o);
        assert(s.drop_first() =~= jointure(v, ","@) + seq![']']);
        if s == seq!['[', ']'] {
            assert(s.drop_first() =~= seq![']']);
            reveal(champs_lus);
            assert(objet_lu(seq![']']) is None);
        }
    }
}

/// The messages that the interface is given are those of the list, in their order, each
/// with its fields.
pub proof fn loi_messages_relus(v: Seq<MessageVue>)
    ensures
        liste_lue(messages_json(v)) == Some(v.map_values(|m: MessageVue| champs_message(m))),
{
    let t = v.map_values(|m: MessageVue| message_json(m));
    let o = v.map_values(|m: MessageVue| champs_message(m));
    assert forall|i: int, suite: Seq<char>| 0 <= i < t.len() implies t[i].len() > 0
        && #[trigger] objet_lu(t[i] + suite) == Some((o[i], suite)) by {
        reveal_strlit("}");
        loi_message_relu(v[i], suite);
    }
    lemme_liste(t, o);
}

/// The attachments that the interface is given are those of the list, in their order,
/// each with its fields.
pub proof fn loi_pieces_relues(v: Seq<PieceJointeVue>)
    ensures
        liste_lue(pieces_json(v)) == Some(v.map_values(|p: PieceJointeVue| champs_piece(p))),
{
    let t = v.map_values(|p: PieceJointeVue| piece_json(p));
    let o = v.map_values(|p: PieceJointeVue| champs_piece(p));
    assert forall|i: int, suite: Seq<char>| 0 <= i < t.len() implies t[i].len() > 0
        && #[trigger] objet_lu(t[i] + suite) == Some((o[i], suite)) by {
        reveal_strlit("}");
        loi_piece_relue(v[i], suite);
    }
    lemme_liste(t, o);
}

/// The accounts that the interface is given are those of the index, in their order,
/// each with its state.
pub proof fn loi_comptes_relus(b: BoiteVue)
    ensures
        liste_lue(comptes_json(b)) == Some(
            comptes_montres(b.magasin).map_values(
                |c: CompteVue| champs_compte(c, etat_de(b, c.id)),
            ),
        ),
{
    let v = comptes_montres(b.magasin);
    let t = v.map_values(|c: CompteVue| compte_json(c, etat_de(b, c.id)));
    let o = v.map_values(|c: CompteVue| champs_compte(c, etat_de(b, c.id)));
    assert forall|i: int, suite: Seq<char>| 0 <= i < t.len() implies t[i].len() > 0
        && #[trigger] objet_lu(t[i] + suite) == Some((o[i], suite)) by {
        reveal_strlit("}");
        loi_compte_relu(v[i], etat_de(b, v[i].id), suite);
    }
    lemme_liste(t, o);
}

// ------------------------------------------------------------------------------ UIDs

proof fn lemme_uid(u: u32)
    requires
        u > 0,
    ensures
        lecteur_uid_liste()(decimal(u as nat)) == Some(u),
        !decimal(u as nat).contains(','),
{
    let d = decimal(u as nat);
    lemme_decimal(u as nat);
    assert('0' <= d[0] <= '9' && '0' <= d[d.len() - 1] <= '9');
    lemme_rien_a_rogner(d);
    if d.contains(',') {
        let i = choose|i: int| 0 <= i < d.len() && d[i] == ',';
        assert('0' <= d[i] <= '9');
    }
}

/// The UIDs that the interface lists, separated by commas, are the ones that are acted
/// upon, in their order.
pub proof fn loi_uids_relus(v: Seq<u32>)
    requires
        v.len() > 0,
        forall|i: int| 0 <= i < v.len() ==> #[trigger] v[i] > 0,
    ensures
        uids_listes(jointure(v.map_values(|u: u32| decimal(u as nat)), ","@)) == v,
    decreases v.len(),
{
    let w = v.map_values(|u: u32| decimal(u as nat));
    let f = lecteur_uid_liste();
    reveal_strlit(",");
    assert(","@ =~= seq![',']);
    lemme_uid(v[0]);
    let d = decimal(v[0] as nat);
    assert(w[0] == d);
    if v.len() == 1 {
        lemme_champs(d, ',', d);
        assert(champs(d, ',') == seq![d]);
        lemme_filtre_premier(seq![d], f);
        assert(seq![d].drop_first() =~= Seq::empty());
        reveal(Seq::filter_map);
        assert(seq![v[0]] =~= v);
    } else {
        let t = v.drop_first();
        lemme_jointure(w, ","@);
        assert(w.drop_first() =~= t.map_values(|u: u32| decimal(u as nat)));
        let r = jointure(w.drop_first(), ","@);
        assert(d + (","@ + r) =~= d + seq![','] + r);
        lemme_champs(d, ',', r);
        let l = seq![d] + champs(r, ',');
        assert forall|i: int| 0 <= i < t.len() implies #[trigger] t[i] > 0 by {
            assert(t[i] == v[i + 1]);
        }
        loi_uids_relus(t);
        lemme_filtre_premier(l, f);
        assert(l.drop_first() =~= champs(r, ','));
        assert(seq![v[0]] + t =~= v);
    }
}

proof fn lemme_filtre_premier(s: Seq<Seq<char>>, f: spec_fn(Seq<char>) -> Option<u32>)
    requires
        s.len() > 0,
    ensures
        s.filter_map(f) == (match f(s[0]) {
            Some(x) => seq![x],
            None => Seq::empty(),
        }) + s.drop_first().filter_map(f),
{
    lemme_filtre_joint(seq![s[0]], s.drop_first(), f);
    assert(seq![s[0]] + s.drop_first() =~= s);
    reveal(Seq::filter_map);
    assert(seq![s[0]].drop_last() =~= Seq::empty());
    assert(Seq::<Seq<char>>::empty().filter_map(f) =~= Seq::empty());
    assert(seq![s[0]].filter_map(f) =~= (match f(s[0]) {
        Some(x) => seq![x],
        None => Seq::empty(),
    }));
}

} // verus!
