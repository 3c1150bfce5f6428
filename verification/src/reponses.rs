//! Responses as a server writes them, and what is read in them.
//!
//! The laws of this module take the values that a server announces, write the lines
//! that announce them, and state that these values are what the client notes.

use vstd::prelude::*;

use crate::ensembles::{
    compact, couvre, lemme_ecriture, loi_ensemble_relu, lecteur_vanished, loi_forme_existe,
    sans_prefixes, vanished_de, vanished_de_ligne,
};
use crate::imap::{
    capacites_de_ligne, citee, drapeaux_lus, ensemble, entier_de, loi_citation_relue, message_lu,
    protege, selection_lue, uid_depose,
    MessageCompletVue, SelectionVue,
};
use crate::flux::ReponseVue;
use crate::nombre::{decimal, lemme_decimal, loi_decimal_relu};
use crate::protocole::{
    brut_de, code_valeur, date_de, drapeaux_de, entete_de_ligne, entetes_de, fermeture, groupe,
    lecteur_fetch, lecteur_uid, longueur_chiffres, nombre32_suivant, note_ligne, search_de_ligne,
    statut_de_ligne, EnteteVue, EtatDossier, StatutVue, MARQUEUR,
};
use crate::synchro::{accorde, pas_synchro, EvenementVue, SynchroVue};
use crate::tables::{
    a_drapeau, dans_intervalles, dans_uids, drapeaux_poses, premier, rupture, sans, uids_connus,
    LigneVue,
    MagasinVue, MessageVue,
};
use crate::texte::{
    apres_prefixe, apres_premier, avant_suffixe, blanc, debute, finit, jointure, lemme_coupe,
    lemme_filtre_joint, lemme_mots_separes, lemme_position, lemme_rien_a_rogner, lignes,
    loi_mots_joints, minuscules, mot, mots, occurrence, position, sans_blancs, sans_blancs_debut,
    sans_blancs_fin, sans_retour,
};

verus! {

// --------------------------------------------------------------------------- lines

/// Whether a text can be one line.
pub open spec fn une_ligne(l: Seq<char>) -> bool {
    !l.contains('\n') && (l.len() > 0 ==> l.last() != '\r')
}

/// Lines as a response carries them, each with its end.
pub open spec fn texte_de(v: Seq<Seq<char>>) -> Seq<char>
    decreases v.len(),
{
    if v.len() == 0 {
        Seq::empty()
    } else {
        v[0] + seq!['\n'] + texte_de(v.drop_first())
    }
}

/// The lines of a response are those that it was made of.
pub proof fn loi_lignes_relues(v: Seq<Seq<char>>)
    requires
        forall|i: int| 0 <= i < v.len() ==> une_ligne(#[trigger] v[i]),
    ensures
        lignes(texte_de(v)) == v,
    decreases v.len(),
{
    let t = texte_de(v);
    if v.len() == 0 {
        assert(lignes(t) =~= v);
    } else {
        let w = v.drop_first();
        assert forall|i: int| 0 <= i < w.len() implies une_ligne(#[trigger] w[i]) by {
            assert(w[i] == v[i + 1]);
        }
        loi_lignes_relues(w);
        assert(une_ligne(v[0]));
        lemme_coupe(v[0], '\n', texte_de(w));
        assert(sans_retour(v[0]) == v[0]);
        assert(lignes(t) =~= seq![v[0]] + lignes(texte_de(w)));
        assert(seq![v[0]] + w =~= v);
    }
}

// ------------------------------------------------------------------- first occurrences

/// Whether nothing of a text is the start of an occurrence of another.
spec fn libre(t: Seq<char>, m: Seq<char>, fin: int) -> bool {
    forall|j: int| 0 <= j < fin ==> !#[trigger] occurrence(t, m, j)
}

proof fn lemme_apres_premier(a: Seq<char>, m: Seq<char>, b: Seq<char>)
    requires
        libre(a + m + b, m, a.len() as int),
    ensures
        apres_premier(a + m + b, m) == Some(b),
{
    let t = a + m + b;
    lemme_position(t, m, 0);
    assert(t.subrange(a.len() as int, a.len() as int + m.len()) =~= m);
    assert(occurrence(t, m, a.len() as int));
    let i = position(t, m, 0)->0;
    assert(i == a.len());
    assert(t.subrange(i + m.len(), t.len() as int) =~= b);
}

/// A character of an occurrence.
proof fn lemme_lettre(t: Seq<char>, m: Seq<char>, j: int, k: int)
    requires
        occurrence(t, m, j),
        0 <= k < m.len(),
    ensures
        t[j + k] == m[k],
{
    assert(t.subrange(j, j + m.len())[k] == t[j + k]);
}

// ------------------------------------------------------------------------- groups

/// How many groups are open at the end of a text, given how many are at its start;
/// none where more are closed than are open.
pub open spec fn ouverts(s: Seq<char>, p: nat) -> Option<nat>
    decreases s.len(),
{
    if s.len() == 0 {
        Some(p)
    } else if s[0] == '(' {
        ouverts(s.drop_first(), p + 1)
    } else if s[0] == ')' {
        if p == 0 {
            None
        } else {
            ouverts(s.drop_first(), (p - 1) as nat)
        }
    } else {
        ouverts(s.drop_first(), p)
    }
}

/// Whether each group that a text opens is closed in it.
pub open spec fn equilibre(s: Seq<char>) -> bool {
    ouverts(s, 0) == Some(0nat)
}

proof fn lemme_ouverts_suite(a: Seq<char>, b: Seq<char>, p: nat)
    ensures
        ouverts(a + b, p) == (match ouverts(a, p) {
            Some(q) => ouverts(b, q),
            None => None,
        }),
    decreases a.len(),
{
    if a.len() == 0 {
        assert(a + b =~= b);
    } else {
        assert((a + b).drop_first() =~= a.drop_first() + b);
        if a[0] == '(' {
            lemme_ouverts_suite(a.drop_first(), b, p + 1);
        } else if a[0] == ')' {
            if p > 0 {
                lemme_ouverts_suite(a.drop_first(), b, (p - 1) as nat);
            }
        } else {
            lemme_ouverts_suite(a.drop_first(), b, p);
        }
    }
}

/// A text without parentheses opens no group.
proof fn lemme_sans_parentheses(s: Seq<char>, p: nat)
    requires
        !s.contains('('),
        !s.contains(')'),
    ensures
        ouverts(s, p) == Some(p),
    decreases s.len(),
{
    if s.len() > 0 {
        assert(s.contains(s[0]));
        let t = s.drop_first();
        assert forall|c: char| t.contains(c) implies s.contains(c) by {
            let i = t.index_of(c);
            assert(t[i] == s[i + 1]);
        }
        lemme_sans_parentheses(t, p);
    }
}

/// Reading on in a group while it stays open.
proof fn lemme_fermeture_suite(t: Seq<char>, i: int, s: Seq<char>, p: nat)
    requires
        0 <= i,
        i + s.len() <= t.len(),
        t.subrange(i, i + s.len()) == s,
        ouverts(s, p) is Some,
    ensures
        fermeture(t, i, p as int + 1) == fermeture(
            t,
            i + s.len(),
            ouverts(s, p)->0 as int + 1,
        ),
    decreases s.len(),
{
    if s.len() > 0 {
        assert(t[i] == s[0]) by {
            assert(t.subrange(i, i + s.len())[0] == t[i]);
        }
        let u = s.drop_first();
        assert(t.subrange(i + 1, i + 1 + u.len()) =~= u) by {
            assert(s.subrange(1, s.len() as int) =~= u);
            assert(t.subrange(i + 1, i + 1 + u.len()) =~= t.subrange(i, i + s.len()).subrange(
                1,
                s.len() as int,
            ));
        }
        if s[0] == '(' {
            lemme_fermeture_suite(t, i + 1, u, p + 1);
        } else if s[0] == ')' {
            lemme_fermeture_suite(t, i + 1, u, (p - 1) as nat);
        } else {
            lemme_fermeture_suite(t, i + 1, u, p);
        }
    }
}

/// A group is read as what stands between its parentheses.
proof fn lemme_groupe(avant: Seq<char>, corps: Seq<char>, suite: Seq<char>)
    requires
        !avant.contains('('),
        equilibre(corps),
    ensures
        groupe(avant + seq!['('] + corps + seq![')'] + suite) == Some((corps, suite)),
{
    let s = avant + seq!['('] + corps + seq![')'] + suite;
    let n = avant.len() as int;
    let k = corps.len() as int;
    assert(s =~= avant + seq!['('] + (corps + seq![')'] + suite));
    lemme_coupe(avant, '(', corps + seq![')'] + suite);
    s.index_of_first_ensures('(');
    assert(s.contains('(')) by {
        assert(s[n] == '(');
    }
    let d = s.index_of_first('(')->0;
    assert(d == n) by {
        if d < n {
            assert(avant[d] == '(');
        }
        assert(s[n] == '(');
    }
    assert(s[n] == '(');
    assert(s.subrange(n + 1, n + 1 + k) =~= corps);
    lemme_fermeture_suite(s, n + 1, corps, 0);
    assert(s[n + 1 + k] == ')');
    assert(fermeture(s, n, 0) == fermeture(s, n + 1, 1));
    assert(fermeture(s, n + 1, 1) == Some(n + 1 + k));
    assert(s.subrange(n + 2 + k, s.len() as int) =~= suite);
}

// ------------------------------------------------------------------------- numbers

proof fn lemme_longueur_chiffres(d: Seq<char>, suite: Seq<char>)
    requires
        forall|i: int| 0 <= i < d.len() ==> '0' <= #[trigger] d[i] <= '9',
        suite.len() > 0 ==> !('0' <= suite[0] <= '9'),
    ensures
        longueur_chiffres(d + suite) == d.len(),
    decreases d.len(),
{
    if d.len() == 0 {
        assert(d + suite =~= suite);
    } else {
        let e = d.drop_first();
        assert((d + suite).drop_first() =~= e + suite);
        assert forall|i: int| 0 <= i < e.len() implies '0' <= #[trigger] e[i] <= '9' by {
            assert(e[i] == d[i + 1]);
        }
        assert((d + suite)[0] == d[0]);
        lemme_longueur_chiffres(e, suite);
    }
}

/// The number behind a key is read.
proof fn lemme_nombre(a: Seq<char>, clef: Seq<char>, n: u32, suite: Seq<char>)
    requires
        libre(a + clef + (decimal(n as nat) + suite), clef, a.len() as int),
        suite.len() > 0 ==> !('0' <= suite[0] <= '9'),
    ensures
        nombre32_suivant(a + clef + (decimal(n as nat) + suite), clef) == n,
{
    let d = decimal(n as nat);
    lemme_decimal(n as nat);
    lemme_apres_premier(a, clef, d + suite);
    lemme_longueur_chiffres(d, suite);
    assert((d + suite).subrange(0, d.len() as int) =~= d);
    loi_decimal_relu(n as nat, u64::MAX as nat);
}

// --------------------------------------------------------------------------- FETCH

/// Whether a text can be a flag.
pub open spec fn drapeau(d: Seq<char>) -> bool {
    mot(d) && !d.contains('(') && !d.contains(')')
}

/// The line by which a server gives the UID and the flags of a message, and more.
pub open spec fn ligne_fetch(rang: nat, corps: Seq<char>) -> Seq<char> {
    "* "@ + decimal(rang) + " FETCH ("@ + corps + ")"@
}

/// The UID and the flags of a message in a `FETCH` line, and what follows them there.
pub open spec fn corps_fetch(uid: u32, drapeaux: Seq<Seq<char>>, suite: Seq<char>) -> Seq<char> {
    "UID "@ + decimal(uid as nat) + " FLAGS ("@ + jointure(drapeaux, " "@) + ")"@ + suite
}

proof fn lemme_drapeaux_joints(v: Seq<Seq<char>>)
    requires
        forall|i: int| 0 <= i < v.len() ==> drapeau(#[trigger] v[i]),
    ensures
        !jointure(v, " "@).contains(')'),
        !jointure(v, " "@).contains('('),
    decreases v.len(),
{
    reveal_strlit(" ");
    let j = jointure(v, " "@);
    if v.len() == 1 {
        assert(drapeau(v[0]));
    } else if v.len() > 1 {
        let w = v.drop_last();
        lemme_drapeaux_joints(w);
        assert(drapeau(v[v.len() - 1]));
        let a = jointure(w, " "@);
        assert forall|i: int| 0 <= i < j.len() implies j[i] != ')' && j[i] != '(' by {
            if i < a.len() {
                assert(j[i] == a[i]);
                assert(a.contains(a[i]));
            } else if i > a.len() {
                assert(j[i] == v.last()[i - a.len() - 1]);
                assert(v.last().contains(v.last()[i - a.len() - 1]));
            }
        }
    }
}

/// A `FETCH` line is read by its group.
#[verifier::spinoff_prover]
proof fn lemme_ligne_fetch(rang: nat, corps: Seq<char>, litteraux: Seq<Seq<u8>>)
    requires
        equilibre(corps),
    ensures
        ({
            let l = ligne_fetch(rang, corps);
            &&& sans_blancs(l) == l
            &&& debute(l, "* "@)
            &&& apres_premier(l, " FETCH "@) matches Some(r) && groupe(r) == Some(
                (corps, Seq::<char>::empty()),
            )
        }),
{
    reveal_strlit("* ");
    reveal_strlit(" FETCH (");
    reveal_strlit(" FETCH ");
    reveal_strlit(")");
    let n = decimal(rang);
    lemme_decimal(rang);
    let l = ligne_fetch(rang, corps);
    let vide = Seq::<char>::empty();
    let r = vide + seq!['('] + corps + seq![')'] + vide;
    let a = "* "@ + n;
    let m = " FETCH "@;
    assert(l =~= a + m + r);
    assert(l[0] == '*' && l.last() == ')');
    lemme_rien_a_rogner(l);
    assert(l.subrange(0, 2) =~= "* "@);
    assert forall|j: int| 0 <= j < a.len() implies !#[trigger] occurrence(a + m + r, m, j) by {
        if occurrence(l, m, j) {
            lemme_lettre(l, m, j, 0);
            lemme_lettre(l, m, j, 1);
            if j >= 2 {
                assert(l[j] == n[j - 2]);
            } else if j == 1 {
                assert(l[2] == n[0]);
            }
        }
    }
    lemme_apres_premier(a, m, r);
    lemme_groupe(vide, corps, vide);
}

/// The UID and the flags are read.
#[verifier::spinoff_prover]
proof fn lemme_uid_drapeaux(uid: u32, drapeaux: Seq<Seq<char>>, suite: Seq<char>)
    requires
        forall|i: int| 0 <= i < drapeaux.len() ==> drapeau(#[trigger] drapeaux[i]),
        equilibre(suite),
    ensures
        equilibre(corps_fetch(uid, drapeaux, suite)),
        nombre32_suivant(corps_fetch(uid, drapeaux, suite), "UID "@) == uid,
        drapeaux_de(corps_fetch(uid, drapeaux, suite)) == drapeaux,
{
    reveal_strlit("UID ");
    reveal_strlit(" FLAGS (");
    reveal_strlit("FLAGS ");
    reveal_strlit(")");
    let vide = Seq::<char>::empty();
    let n = decimal(uid as nat);
    lemme_decimal(uid as nat);
    let f = jointure(drapeaux, " "@);
    lemme_drapeaux_joints(drapeaux);
    loi_mots_joints(drapeaux);
    lemme_sans_parentheses(f, 0);
    lemme_sans_parentheses(f, 1);
    let c = corps_fetch(uid, drapeaux, suite);
    // The UID.
    let fin = " FLAGS ("@ + f + ")"@ + suite;
    assert(c =~= vide + "UID "@ + (n + fin));
    lemme_nombre(vide, "UID "@, uid, fin);
    // The flags.
    let a = "UID "@ + n + " "@;
    reveal_strlit(" ");
    let m = "FLAGS "@;
    let r = vide + seq!['('] + f + seq![')'] + suite;
    assert(c =~= a + m + r);
    assert forall|j: int| 0 <= j < a.len() implies !#[trigger] occurrence(a + m + r, m, j) by {
        if occurrence(c, m, j) {
            lemme_lettre(c, m, j, 0);
            if 4 <= j < 4 + n.len() {
                assert(c[j] == n[j - 4]);
            }
        }
    }
    lemme_apres_premier(a, m, r);
    lemme_groupe(vide, f, suite);
    // The parentheses.
    let tete = a + m;
    assert(!tete.contains('(') && !tete.contains(')')) by {
        assert forall|j: int| 0 <= j < tete.len() implies tete[j] != '(' && tete[j] != ')' by {
            if 4 <= j < 4 + n.len() {
                assert(tete[j] == n[j - 4]);
            }
        }
    }
    lemme_sans_parentheses(tete, 0);
    let o = seq!['('];
    let x = seq![')'];
    assert(c =~= tete + (o + (f + (x + suite))));
    lemme_ouverts_suite(tete, o + (f + (x + suite)), 0);
    assert((o + (f + (x + suite))).drop_first() =~= f + (x + suite));
    lemme_ouverts_suite(f, x + suite, 1);
    assert((x + suite).drop_first() =~= suite);
}

/// The UID and the flags that a server gives in a `FETCH` line are those that are
/// noted, whatever else the line holds.
pub proof fn loi_fetch_lu(
    rang: nat,
    uid: u32,
    drapeaux: Seq<Seq<char>>,
    suite: Seq<char>,
    litteraux: Seq<Seq<u8>>,
)
    requires
        uid != 0,
        forall|i: int| 0 <= i < drapeaux.len() ==> drapeau(#[trigger] drapeaux[i]),
        equilibre(suite),
    ensures
        entete_de_ligne(ligne_fetch(rang, corps_fetch(uid, drapeaux, suite)), litteraux) matches Some(
            e,
        ) && e.uid == uid && e.drapeaux == drapeaux,
{
    let c = corps_fetch(uid, drapeaux, suite);
    lemme_uid_drapeaux(uid, drapeaux, suite);
    lemme_ligne_fetch(rang, c, litteraux);
}

/// Whether each text of a list can be one line.
pub open spec fn des_lignes(v: Seq<Seq<char>>) -> bool {
    forall|i: int| 0 <= i < v.len() ==> une_ligne(#[trigger] v[i])
}

/// A response made of lines.
pub open spec fn reponse_de(v: Seq<Seq<char>>, litteraux: Seq<Seq<u8>>) -> ReponseVue {
    ReponseVue { texte: texte_de(v), litteraux }
}

proof fn lemme_des_lignes(a: Seq<Seq<char>>, l: Seq<char>, b: Seq<Seq<char>>)
    requires
        des_lignes(a),
        une_ligne(l),
        des_lignes(b),
    ensures
        des_lignes(a + seq![l] + b),
{
    let v = a + seq![l] + b;
    assert forall|i: int| 0 <= i < v.len() implies une_ligne(#[trigger] v[i]) by {
        if i < a.len() {
            assert(v[i] == a[i]);
        } else if i > a.len() {
            assert(v[i] == b[i - a.len() - 1]);
        }
    }
}

/// The headers that a response gives, where one of its lines is known.
proof fn lemme_entetes_autour(
    a: Seq<Seq<char>>,
    l: Seq<char>,
    b: Seq<Seq<char>>,
    litteraux: Seq<Seq<u8>>,
)
    requires
        des_lignes(a),
        une_ligne(l),
        des_lignes(b),
    ensures
        entetes_de(texte_de(a + seq![l] + b), litteraux) == entetes_de(texte_de(a), litteraux) + (
        match entete_de_ligne(l, litteraux) {
            Some(e) => seq![e],
            None => Seq::empty(),
        }) + entetes_de(texte_de(b), litteraux),
{
    let f = lecteur_fetch(litteraux);
    lemme_des_lignes(a, l, b);
    loi_lignes_relues(a);
    loi_lignes_relues(b);
    loi_lignes_relues(a + seq![l] + b);
    lemme_filtre_joint(a + seq![l], b, f);
    lemme_filtre_joint(a, seq![l], f);
    Seq::lemma_filter_map_singleton(l, f);
}

/// The flags that a server announces when a folder is opened again are those of the
/// selection: for each line that gives the UID and the flags of a message this pair,
/// in the order of the lines.
pub proof fn loi_drapeaux_annonces(
    a: Seq<Seq<char>>,
    rang: nat,
    uid: u32,
    drapeaux: Seq<Seq<char>>,
    suite: Seq<char>,
    b: Seq<Seq<char>>,
    litteraux: Seq<Seq<u8>>,
    qresync: bool,
    reprise: Option<(u32, u64)>,
)
    requires
        des_lignes(a),
        des_lignes(b),
        une_ligne(ligne_fetch(rang, corps_fetch(uid, drapeaux, suite))),
        uid != 0,
        forall|i: int| 0 <= i < drapeaux.len() ==> drapeau(#[trigger] drapeaux[i]),
        equilibre(suite),
    ensures
        ({
            let l = ligne_fetch(rang, corps_fetch(uid, drapeaux, suite));
            let tout = selection_lue(reponse_de(a + seq![l] + b, litteraux), qresync, reprise);
            let avant = selection_lue(reponse_de(a, litteraux), qresync, reprise);
            let apres = selection_lue(reponse_de(b, litteraux), qresync, reprise);
            &&& tout.drapeaux == avant.drapeaux + seq![(uid, drapeaux)] + apres.drapeaux
            &&& tout.drapeaux.contains((uid, drapeaux))
        }),
{
    let l = ligne_fetch(rang, corps_fetch(uid, drapeaux, suite));
    loi_fetch_lu(rang, uid, drapeaux, suite, litteraux);
    lemme_entetes_autour(a, l, b, litteraux);
    let e = entete_de_ligne(l, litteraux)->0;
    let x = entetes_de(texte_de(a), litteraux);
    let y = entetes_de(texte_de(b), litteraux);
    assert(drapeaux_lus(x + seq![e] + y) =~= drapeaux_lus(x) + seq![(uid, drapeaux)]
        + drapeaux_lus(y));
    let r = drapeaux_lus(x) + seq![(uid, drapeaux)] + drapeaux_lus(y);
    assert(r[x.len() as int] == (uid, drapeaux));
}

/// Whether a list of flags holds one, whatever the case of its letters.
pub open spec fn porte(drapeaux: Seq<Seq<char>>, minuscule: Seq<char>) -> bool {
    exists|i: int| 0 <= i < drapeaux.len() && minuscules(#[trigger] drapeaux[i]) == minuscule
}

proof fn lemme_porte(v: Seq<Seq<char>>)
    ensures
        a_drapeau(v, "\\Seen"@) <==> porte(v, "\\seen"@),
        a_drapeau(v, "\\Answered"@) <==> porte(v, "\\answered"@),
{
    reveal_strlit("\\Seen");
    reveal_strlit("\\seen");
    reveal_strlit("\\Answered");
    reveal_strlit("\\answered");
    assert(minuscules("\\Seen"@) =~= "\\seen"@);
    assert(minuscules("\\Answered"@) =~= "\\answered"@);
    if a_drapeau(v, "\\Seen"@) {
        let i = choose|i: int| 0 <= i < v.len() && minuscules(#[trigger] v[i]) == minuscules(
            "\\Seen"@,
        );
        assert(minuscules(v[i]) == "\\seen"@);
    }
    if porte(v, "\\seen"@) {
        let i = choose|i: int| 0 <= i < v.len() && minuscules(#[trigger] v[i]) == "\\seen"@;
        assert(minuscules(v[i]) == minuscules("\\Seen"@));
    }
    if a_drapeau(v, "\\Answered"@) {
        let i = choose|i: int| 0 <= i < v.len() && minuscules(#[trigger] v[i]) == minuscules(
            "\\Answered"@,
        );
        assert(minuscules(v[i]) == "\\answered"@);
    }
    if porte(v, "\\answered"@) {
        let i = choose|i: int| 0 <= i < v.len() && minuscules(#[trigger] v[i]) == "\\answered"@;
        assert(minuscules(v[i]) == minuscules("\\Answered"@));
    }
}

/// What a known message becomes once the server has given flags: its last ones count,
/// and nothing else of it changes.
pub proof fn loi_drapeaux_poses(
    t: Seq<LigneVue>,
    dossier: i64,
    v: Seq<(u32, Seq<Seq<char>>)>,
    i: int,
    k: int,
)
    requires
        0 <= i < t.len(),
        t[i].dossier == dossier,
        0 <= k < v.len(),
        v[k].0 == t[i].message.uid,
        forall|j: int| k < j < v.len() ==> (#[trigger] v[j]).0 != t[i].message.uid,
    ensures
        drapeaux_poses(t, dossier, v).len() == t.len(),
        drapeaux_poses(t, dossier, v)[i] == (LigneVue {
            dossier,
            message: MessageVue {
                lu: porte(v[k].1, "\\seen"@),
                repondu: porte(v[k].1, "\\answered"@),
                ..t[i].message
            },
        }),
    decreases v.len(),
{
    let w = v.drop_last();
    lemme_drapeaux_suivis(t, dossier, w, i);
    lemme_porte(v[k].1);
    if k < v.len() - 1 {
        assert(v[v.len() - 1].0 != t[i].message.uid);
        assert forall|j: int| k < j < w.len() implies (#[trigger] w[j]).0 != t[i].message.uid by {
            assert(w[j] == v[j]);
        }
        loi_drapeaux_poses(t, dossier, w, i, k);
    }
}

/// Flags change nothing of a message but its flags, and nothing at all of a message
/// that they do not name or that is in another folder.
pub proof fn lemme_drapeaux_suivis(
    t: Seq<LigneVue>,
    dossier: i64,
    v: Seq<(u32, Seq<Seq<char>>)>,
    i: int,
)
    requires
        0 <= i < t.len(),
    ensures
        drapeaux_poses(t, dossier, v).len() == t.len(),
        drapeaux_poses(t, dossier, v)[i].dossier == t[i].dossier,
        drapeaux_poses(t, dossier, v)[i].message == (MessageVue {
            lu: drapeaux_poses(t, dossier, v)[i].message.lu,
            repondu: drapeaux_poses(t, dossier, v)[i].message.repondu,
            ..t[i].message
        }),
        t[i].dossier != dossier || (forall|k: int|
            0 <= k < v.len() ==> (#[trigger] v[k]).0 != t[i].message.uid) ==> drapeaux_poses(
            t,
            dossier,
            v,
        )[i] == t[i],
    decreases v.len(),
{
    if v.len() > 0 {
        let w = v.drop_last();
        lemme_drapeaux_suivis(t, dossier, w, i);
        if forall|k: int| 0 <= k < v.len() ==> (#[trigger] v[k]).0 != t[i].message.uid {
            assert(v[v.len() - 1].0 != t[i].message.uid);
            assert forall|k: int| 0 <= k < w.len() implies (#[trigger] w[k]).0 != t[i].message.uid by {
                assert(w[k] == v[k]);
            }
        }
    }
}

/// The index after a visit that the server resumes: it holds no message of the folder
/// but those that stayed, with the flags that were given.
proof fn lemme_visite(m: MagasinVue, s: SynchroVue, v: SelectionVue)
    requires
        s.phase is Selection,
        accorde(m, s),
        s.uid_validity != 0,
        s.uid_validity == v.etat.uid_validity,
        v.reprise,
    ensures
        ({
            let n = pas_synchro(m, s, EvenementVue::Selection(Ok(v))).0;
            let r = drapeaux_poses(
                sans(m.messages, dans_intervalles(s.id, v.disparus)),
                s.id,
                v.drapeaux,
            );
            &&& v.etat.messages > 0 || v.etat.uid_next > s.uid_next ==> n.messages == r
            &&& v.etat.messages == 0 && v.etat.uid_next <= s.uid_next ==> n.messages == r
                || n.messages == sans(r, dans_uids(s.id, uids_connus(r, s.id)))
        }),
{
    let r = drapeaux_poses(
        sans(m.messages, dans_intervalles(s.id, v.disparus)),
        s.id,
        v.drapeaux,
    );
    let b = MagasinVue { messages: r, ..m };
    assert(!rupture(b, s.id, v.etat));
    let vides = MagasinVue { messages: sans(r, dans_uids(s.id, uids_connus(r, s.id))), ..m };
    assert(!rupture(vides, s.id, v.etat));
}

/// After a visit that the server resumes, each message that stayed and whose flags it
/// announced is read in the index exactly if `\Seen` is among these, and answered
/// exactly if `\Answered` is; nothing else of it has changed. `b` holds the lines that
/// follow, none of which names the message again.
pub proof fn loi_visite_incrementale(
    m: MagasinVue,
    s: SynchroVue,
    a: Seq<Seq<char>>,
    rang: nat,
    uid: u32,
    drapeaux: Seq<Seq<char>>,
    suite: Seq<char>,
    b: Seq<Seq<char>>,
    litteraux: Seq<Seq<u8>>,
    reprise: Option<(u32, u64)>,
    i: int,
)
    requires
        des_lignes(a),
        des_lignes(b),
        une_ligne(ligne_fetch(rang, corps_fetch(uid, drapeaux, suite))),
        uid != 0,
        forall|k: int| 0 <= k < drapeaux.len() ==> drapeau(#[trigger] drapeaux[k]),
        equilibre(suite),
        s.phase is Selection,
        accorde(m, s),
        s.uid_validity != 0,
        ({
            let l = ligne_fetch(rang, corps_fetch(uid, drapeaux, suite));
            let v = selection_lue(reponse_de(a + seq![l] + b, litteraux), true, reprise);
            let w = selection_lue(reponse_de(b, litteraux), true, reprise);
            &&& s.uid_validity == v.etat.uid_validity
            &&& v.reprise
            &&& v.etat.messages > 0
            &&& !couvre(v.disparus, uid as int)
            &&& forall|k: int| 0 <= k < w.drapeaux.len() ==> (#[trigger] w.drapeaux[k]).0 != uid
        }),
        0 <= i < m.messages.len(),
        m.messages[i].dossier == s.id,
        m.messages[i].message.uid == uid,
    ensures
        ({
            let l = ligne_fetch(rang, corps_fetch(uid, drapeaux, suite));
            let v = selection_lue(reponse_de(a + seq![l] + b, litteraux), true, reprise);
            let n = pas_synchro(m, s, EvenementVue::Selection(Ok(v))).0;
            n.messages.contains(
                LigneVue {
                    dossier: s.id,
                    message: MessageVue {
                        lu: porte(drapeaux, "\\seen"@),
                        repondu: porte(drapeaux, "\\answered"@),
                        ..m.messages[i].message
                    },
                },
            )
        }),
{
    let l = ligne_fetch(rang, corps_fetch(uid, drapeaux, suite));
    let v = selection_lue(reponse_de(a + seq![l] + b, litteraux), true, reprise);
    let w = selection_lue(reponse_de(b, litteraux), true, reprise).drapeaux;
    loi_drapeaux_annonces(a, rang, uid, drapeaux, suite, b, litteraux, true, reprise);
    lemme_visite(m, s, v);
    let p = dans_intervalles(s.id, v.disparus);
    let q = |x: LigneVue| !p(x);
    let t = sans(m.messages, p);
    assert(q(m.messages[i]));
    m.messages.lemma_filter_contains(q, i);
    let j = choose|j: int| 0 <= j < t.len() && t[j] == m.messages[i];
    let k = selection_lue(reponse_de(a, litteraux), true, reprise).drapeaux.len() as int;
    assert(v.drapeaux[k] == (uid, drapeaux));
    assert forall|h: int| k < h < v.drapeaux.len() implies (#[trigger] v.drapeaux[h]).0 != uid by {
        assert(v.drapeaux[h] == w[h - k - 1]);
    }
    loi_drapeaux_poses(t, s.id, v.drapeaux, j, k);
}

// ------------------------------------------------------------------------ VANISHED

/// A set of UIDs neither starts nor ends with white space.
proof fn lemme_ensemble_net(uids: Seq<u32>)
    requires
        uids.len() > 0,
    ensures
        ensemble(uids).len() > 0,
        sans_blancs(ensemble(uids)) == ensemble(uids),
        !blanc(ensemble(uids)[0]),
        !blanc(ensemble(uids).last()),
        ensemble(uids)[0] != '(',
{
    loi_forme_existe(uids);
    lemme_ecriture(compact(uids));
    assert(uids.contains(uids[0]));
    assert(couvre(compact(uids), uids[0] as int));
    let e = ensemble(uids);
    assert('0' <= e[0] <= ':' || e[0] == ',');
    let k = e.len() - 1;
    assert('0' <= e[k] <= ':' || e[k] == ',');
    lemme_rien_a_rogner(e);
}

/// The messages that a server says to be gone are those that are noted, these and no
/// other: whether it tells what went before the folder was opened, or since.
pub proof fn loi_disparus_lus(uids: Seq<u32>, avant: bool, u: u32)
    requires
        uids.len() > 0,
    ensures
        couvre(
            vanished_de_ligne(
                (if avant {
                    "* VANISHED (EARLIER) "@
                } else {
                    "* VANISHED "@
                }) + ensemble(uids),
            ),
            u as int,
        ) <==> uids.contains(u),
{
    reveal_strlit("* VANISHED (EARLIER) ");
    reveal_strlit("* VANISHED ");
    reveal_strlit("(EARLIER)");
    let e = ensemble(uids);
    lemme_ensemble_net(uids);
    loi_ensemble_relu(uids, u);
    let p = "(EARLIER)"@;
    if avant {
        let l = "* VANISHED (EARLIER) "@ + e;
        assert(l[0] == '*' && l.last() == e.last());
        lemme_rien_a_rogner(l);
        assert(l.subrange(0, 11) =~= "* VANISHED "@);
        let r = l.subrange(11, l.len() as int);
        assert(r =~= p + (seq![' '] + e));
        assert(r.subrange(0, 9) =~= p);
        let t = r.subrange(9, r.len() as int);
        assert(t =~= seq![' '] + e);
        assert(!debute(t, p)) by {
            if debute(t, p) {
                lemme_lettre(t, p, 0, 0);
            }
        }
        assert(sans_prefixes(t, p) == t);
        assert(sans_prefixes(r, p) == t);
        assert(t.drop_first() =~= e);
        assert(sans_blancs_debut(e) == e);
        assert(sans_blancs_debut(t) == e);
    } else {
        let l = "* VANISHED "@ + e;
        assert(l[0] == '*' && l.last() == e.last());
        lemme_rien_a_rogner(l);
        assert(l.subrange(0, 11) =~= "* VANISHED "@);
        let r = l.subrange(11, l.len() as int);
        assert(r =~= e);
        assert(!debute(r, p)) by {
            if debute(r, p) {
                lemme_lettre(r, p, 0, 0);
            }
        }
        assert(sans_prefixes(r, p) == r);
    }
}

/// The messages that the lines of a response say to be gone: those of each line.
pub proof fn loi_disparus_de_la_reponse(v: Seq<Seq<char>>, l: Seq<char>)
    requires
        des_lignes(v),
        une_ligne(l),
    ensures
        vanished_de(texte_de(v.push(l))) == vanished_de(texte_de(v)) + vanished_de_ligne(l),
{
    let vide = Seq::<Seq<char>>::empty();
    assert(v.push(l) =~= v + seq![l] + vide);
    lemme_des_lignes(v, l, vide);
    loi_lignes_relues(v);
    loi_lignes_relues(v.push(l));
    v.lemma_flat_map_push(lecteur_vanished(), l);
}

// --------------------------------------------------------------------------- state

/// The line by which a server gives a value of a folder, in brackets.
pub open spec fn ligne_code(clef: Seq<char>, n: nat, suite: Seq<char>) -> Seq<char> {
    "* OK ["@ + clef + decimal(n) + "] "@ + suite
}

/// A code in brackets is read; another one is not found in its line.
#[verifier::spinoff_prover]
proof fn lemme_code(clef: Seq<char>, n: nat, suite: Seq<char>, autre: Seq<char>)
    requires
        clef.len() > 0,
        'A' <= clef[0] <= 'Z',
        !clef.contains('['),
        autre.len() > 0,
        !suite.contains('['),
        suite.len() > 0 ==> !blanc(suite.last()) && suite.last() != 'S',
    ensures
        ({
            let l = sans_blancs(ligne_code(clef, n, suite));
            &&& code_valeur(l, clef) == Some(decimal(n))
            &&& !debute(autre, clef) && !debute(clef, autre) ==> code_valeur(l, autre) is None
            &&& apres_prefixe(l, "* "@) is Some
            &&& avant_suffixe(apres_prefixe(l, "* "@)->0, " EXISTS"@) is None
        }),
{
    reveal_strlit("* OK [");
    reveal_strlit("] ");
    reveal_strlit("* ");
    reveal_strlit(" EXISTS");
    let d = decimal(n);
    lemme_decimal(n);
    let l0 = ligne_code(clef, n, suite);
    let fin = if suite.len() > 0 {
        seq![' '] + suite
    } else {
        suite
    };
    let l = "* OK ["@ + clef + d + seq![']'] + fin;
    assert(l[0] == '*');
    assert(!blanc(l.last())) by {
        if suite.len() > 0 {
            assert(l.last() == suite.last());
        } else {
            assert(l.last() == ']');
        }
    }
    assert(sans_blancs(l0) == l) by {
        assert(l0[0] == '*');
        assert(sans_blancs_debut(l0) == l0);
        if suite.len() > 0 {
            assert(l0 =~= l);
        } else {
            assert(l0.last() == ' ');
            assert(l0.drop_last() =~= l);
        }
        assert(sans_blancs_fin(l) == l);
    }
    // The code.
    let a = "* OK "@;
    reveal_strlit("* OK ");
    let m = seq!['['] + clef;
    let b = d + seq![']'] + fin;
    assert(l =~= a + m + b);
    assert forall|j: int| 0 <= j < a.len() implies !#[trigger] occurrence(a + m + b, m, j) by {
        if occurrence(l, m, j) {
            lemme_lettre(l, m, j, 0);
        }
    }
    lemme_apres_premier(a, m, b);
    assert(!d.contains(']')) by {
        assert forall|i: int| 0 <= i < d.len() implies d[i] != ']' by {}
    }
    lemme_coupe(d, ']', fin);
    b.index_of_first_ensures(']');
    assert(b[d.len() as int] == ']');
    let f = b.index_of_first(']')->0;
    assert(f == d.len()) by {
        if f < d.len() {
            assert(b[f] == d[f]);
        }
    }
    assert(b.subrange(0, f) =~= d);
    let k = d.len() - 1;
    assert('0' <= d[0] <= '9' && '0' <= d[k] <= '9');
    lemme_rien_a_rogner(d);
    // Another code.
    if !debute(autre, clef) && !debute(clef, autre) {
        let x = seq!['['] + autre;
        lemme_position(l, x, 0);
        assert forall|j: int| 0 <= j implies !#[trigger] occurrence(l, x, j) by {
            if occurrence(l, x, j) {
                lemme_lettre(l, x, j, 0);
                assert(l[j] == '[');
                if j > 5 {
                    let c = j - 6;
                    if c < clef.len() {
                        assert(l[j] == clef[c]);
                        assert(clef.contains('['));
                    } else if c < clef.len() + d.len() {
                        assert(l[j] == d[c - clef.len()]);
                    } else if c > clef.len() + d.len() {
                        assert(l[j] == fin[c - clef.len() - d.len() - 1]);
                        if c - clef.len() - d.len() - 1 > 0 {
                            assert(suite[c - clef.len() - d.len() - 2] == '[');
                            assert(suite.contains('['));
                        }
                    }
                }
                assert(j == 5);
                // The two keys agree up to the end of the shorter one.
                assert forall|i: int| 0 <= i < autre.len() && i < clef.len() implies autre[i]
                    == clef[i] by {
                    lemme_lettre(l, x, j, i + 1);
                    assert(x[i + 1] == autre[i]);
                    assert(l[6 + i] == clef[i]);
                }
                if autre.len() <= clef.len() {
                    assert(clef.subrange(0, autre.len() as int) =~= autre);
                } else {
                    assert(autre.subrange(0, clef.len() as int) =~= clef);
                }
            }
        }
    }
    // It is no count of messages.
    assert(l.subrange(0, 2) =~= "* "@);
    let r = l.subrange(2, l.len() as int);
    if finit(r, " EXISTS"@) {
        lemme_lettre(r, " EXISTS"@, r.len() - 7, 6);
        assert(l.last() == 'S');
        if suite.len() > 0 {
            assert(l.last() == suite.last());
        }
    }
}

/// The values of a folder that a server announces are those that are noted, each by
/// its own line, and no line changes another value.
#[verifier::spinoff_prover]
pub proof fn loi_etat_lu(e: EtatDossier, n: u32, m: u64, suite: Seq<char>)
    requires
        !suite.contains('['),
        suite.len() > 0 ==> !blanc(suite.last()) && suite.last() != 'S',
    ensures
        note_ligne(e, "* "@ + decimal(n as nat) + " EXISTS"@) == (EtatDossier { messages: n, ..e }),
        note_ligne(e, ligne_code("UIDVALIDITY "@, n as nat, suite)) == (EtatDossier {
            uid_validity: n,
            ..e
        }),
        note_ligne(e, ligne_code("UIDNEXT "@, n as nat, suite)) == (EtatDossier {
            uid_next: n,
            ..e
        }),
        note_ligne(e, ligne_code("HIGHESTMODSEQ "@, m as nat, suite)) == (EtatDossier {
            highest_mod_seq: m,
            ..e
        }),
{
    reveal_strlit("UIDVALIDITY ");
    reveal_strlit("UIDNEXT ");
    reveal_strlit("HIGHESTMODSEQ ");
    let v = "UIDVALIDITY "@;
    let x = "UIDNEXT "@;
    let h = "HIGHESTMODSEQ "@;
    assert(v[3] == 'V' && x[3] == 'N' && h[0] == 'H' && v[0] == 'U' && x[0] == 'U');
    lemme_debuts(v, x, 3);
    lemme_debuts(v, h, 0);
    lemme_debuts(x, h, 0);
    loi_decimal_relu(n as nat, u32::MAX as nat);
    loi_decimal_relu(m as nat, u64::MAX as nat);
    lemme_code(v, n as nat, suite, x);
    lemme_code(v, n as nat, suite, h);
    lemme_code(x, n as nat, suite, v);
    lemme_code(x, n as nat, suite, h);
    lemme_code(h, m as nat, suite, v);
    lemme_code(h, m as nat, suite, x);
    lemme_existants(n, v);
    lemme_existants(n, x);
    lemme_existants(n, h);
}

/// Two keys that differ at a place start each other neither way.
proof fn lemme_debuts(a: Seq<char>, b: Seq<char>, k: int)
    requires
        0 <= k < a.len(),
        k < b.len(),
        a[k] != b[k],
    ensures
        !debute(a, b),
        !debute(b, a),
{
    if debute(a, b) {
        lemme_lettre(a, b, 0, k);
    }
    if debute(b, a) {
        lemme_lettre(b, a, 0, k);
    }
}

proof fn lemme_existants(n: u32, clef: Seq<char>)
    ensures
        ({
            let l = sans_blancs("* "@ + decimal(n as nat) + " EXISTS"@);
            &&& code_valeur(l, clef) is None
            &&& apres_prefixe(l, "* "@) matches Some(r) && avant_suffixe(r, " EXISTS"@) == Some(
                decimal(n as nat),
            )
            &&& sans_blancs(decimal(n as nat)) == decimal(n as nat)
        }),
{
    reveal_strlit("* ");
    reveal_strlit(" EXISTS");
    let d = decimal(n as nat);
    lemme_decimal(n as nat);
    let l = "* "@ + d + " EXISTS"@;
    assert(l[0] == '*' && l.last() == 'S');
    lemme_rien_a_rogner(l);
    let m = seq!['['] + clef;
    lemme_position(l, m, 0);
    assert forall|j: int| 0 <= j implies !#[trigger] occurrence(l, m, j) by {
        if occurrence(l, m, j) {
            lemme_lettre(l, m, j, 0);
            if 2 <= j < 2 + d.len() {
                assert(l[j] == d[j - 2]);
            }
        }
    }
    assert(l.subrange(0, 2) =~= "* "@);
    let r = l.subrange(2, l.len() as int);
    assert(r =~= d + " EXISTS"@);
    assert(r.subrange(r.len() - 7, r.len() as int) =~= " EXISTS"@);
    assert(r.subrange(0, r.len() - 7) =~= d);
    let k = d.len() - 1;
    assert('0' <= d[0] <= '9' && '0' <= d[k] <= '9');
    lemme_rien_a_rogner(d);
}

/// The state that a selection notes is that of the lines of the response, one after
/// the other: where two lines give the same value, the last one counts.
pub proof fn loi_etat_de_la_selection(
    v: Seq<Seq<char>>,
    l: Seq<char>,
    litteraux: Seq<Seq<u8>>,
    qresync: bool,
    reprise: Option<(u32, u64)>,
)
    requires
        des_lignes(v),
        une_ligne(l),
    ensures
        ({
            let avant = selection_lue(reponse_de(v, litteraux), qresync, reprise);
            let apres = selection_lue(reponse_de(v.push(l), litteraux), qresync, reprise);
            &&& apres.etat == note_ligne(avant.etat, l)
            &&& apres.disparus == avant.disparus + vanished_de_ligne(l)
            &&& apres.reprise <==> (reprise matches Some((validite, change)) && qresync && validite
                > 0 && change > 0 && apres.etat.uid_validity == validite)
        }),
        selection_lue(reponse_de(Seq::empty(), litteraux), qresync, reprise).etat == (EtatDossier {
            messages: 0,
            uid_validity: 0,
            uid_next: 0,
            highest_mod_seq: 0,
        }),
{
    let vide = Seq::<Seq<char>>::empty();
    assert(v.push(l) =~= v + seq![l] + vide);
    lemme_des_lignes(v, l, vide);
    loi_lignes_relues(v);
    loi_lignes_relues(v.push(l));
    loi_lignes_relues(vide);
    assert(v.push(l).drop_last() =~= v);
    loi_disparus_de_la_reponse(v, l);
}

// ------------------------------------------------------- counters, searches, deposits

/// The counters of a folder that a server gives are those that are noted for it.
#[verifier::spinoff_prover]
pub proof fn loi_statut_lu(chemin: Seq<char>, messages: u32, non_lus: u32)
    ensures
        statut_de_ligne(
            "* STATUS "@ + citee(chemin) + " (MESSAGES "@ + decimal(messages as nat) + " UNSEEN "@
                + decimal(non_lus as nat) + ")"@,
        ) == Some(StatutVue { chemin, messages, non_lus }),
{
    reveal_strlit("* STATUS ");
    reveal_strlit(" (MESSAGES ");
    reveal_strlit(" UNSEEN ");
    reveal_strlit("MESSAGES ");
    reveal_strlit("UNSEEN ");
    reveal_strlit(")");
    let vide = Seq::<char>::empty();
    let a = decimal(messages as nat);
    let b = decimal(non_lus as nat);
    lemme_decimal(messages as nat);
    lemme_decimal(non_lus as nat);
    let l = "* STATUS "@ + citee(chemin) + " (MESSAGES "@ + a + " UNSEEN "@ + b + ")"@;
    let corps = "MESSAGES "@ + a + " UNSEEN "@ + b;
    let suite = seq![' '] + seq!['('] + corps + seq![')'] + vide;
    assert(l =~= "* STATUS "@ + (citee(chemin) + suite));
    assert(l[0] == '*' && l.last() == ')');
    lemme_rien_a_rogner(l);
    assert(l.subrange(0, 9) =~= "* STATUS "@);
    assert(l.subrange(9, l.len() as int) =~= citee(chemin) + suite);
    loi_citation_relue(chemin, suite);
    assert(!corps.contains('(') && !corps.contains(')')) by {
        assert forall|i: int| 0 <= i < corps.len() implies corps[i] != '(' && corps[i] != ')' by {
            if 9 <= i < 9 + a.len() {
                assert(corps[i] == a[i - 9]);
            } else if i >= 17 + a.len() {
                assert(corps[i] == b[i - 17 - a.len()]);
            }
        }
    }
    lemme_sans_parentheses(corps, 0);
    assert(!seq![' '].contains('('));
    lemme_groupe(seq![' '], corps, vide);
    // The two numbers.
    let s1 = " UNSEEN "@ + b;
    assert(corps =~= vide + "MESSAGES "@ + (a + s1));
    lemme_nombre(vide, "MESSAGES "@, messages, s1);
    let t = "MESSAGES "@ + a + seq![' '];
    let m = "UNSEEN "@;
    assert(corps =~= t + m + (b + vide));
    assert forall|j: int| 0 <= j < t.len() implies !#[trigger] occurrence(
        t + m + (b + vide),
        m,
        j,
    ) by {
        if occurrence(corps, m, j) {
            lemme_lettre(corps, m, j, 0);
            if 9 <= j < 9 + a.len() {
                assert(corps[j] == a[j - 9]);
            }
        }
    }
    lemme_nombre(t, m, non_lus, vide);
}

/// The UIDs written one after the other.
pub open spec fn uids_ecrits(uids: Seq<u32>) -> Seq<Seq<char>> {
    uids.map_values(|u: u32| decimal(u as nat))
}

/// The messages that a search finds are those that are noted, in their order.
pub proof fn loi_recherche_lue(uids: Seq<u32>)
    requires
        uids.len() > 0,
    ensures
        search_de_ligne("* SEARCH "@ + jointure(uids_ecrits(uids), " "@)) == uids,
{
    reveal_strlit("* SEARCH ");
    reveal_strlit("* SEARCH");
    let w = uids_ecrits(uids);
    assert forall|i: int| 0 <= i < w.len() implies mot(#[trigger] w[i]) by {
        lemme_decimal(uids[i] as nat);
        assert(w[i] == decimal(uids[i] as nat));
    }
    loi_mots_joints(w);
    let j = jointure(w, " "@);
    assert(j.len() > 0) by {
        if j.len() == 0 {
            assert(j =~= Seq::empty());
            assert(mots(j) =~= Seq::empty());
        }
    }
    let l = "* SEARCH "@ + j;
    lemme_fin_jointe(uids);
    assert(l[0] == '*' && l.last() == j.last());
    lemme_rien_a_rogner(l);
    assert(l.subrange(0, 8) =~= "* SEARCH"@);
    let r = l.subrange(8, l.len() as int);
    let vide = Seq::<char>::empty();
    assert(r =~= vide + seq![' '] + j);
    lemme_mots_separes(vide, ' ', j);
    assert(mots(vide) =~= Seq::empty());
    assert(mots(r) =~= w);
    lemme_uids_relus(uids);
}

proof fn lemme_fin_jointe(uids: Seq<u32>)
    requires
        uids.len() > 0,
    ensures
        jointure(uids_ecrits(uids), " "@).len() > 0,
        !blanc(jointure(uids_ecrits(uids), " "@).last()),
{
    let w = uids_ecrits(uids);
    let d = decimal(uids.last() as nat);
    lemme_decimal(uids.last() as nat);
    assert(w.last() == d);
    let k = d.len() - 1;
    assert('0' <= d[k] <= '9');
    let j = jointure(w, " "@);
    if uids.len() == 1 {
        assert(j == d);
    } else {
        assert(j.last() == d.last());
    }
}

proof fn lemme_uids_relus(uids: Seq<u32>)
    ensures
        uids_ecrits(uids).filter_map(lecteur_uid()) == uids,
    decreases uids.len(),
{
    let w = uids_ecrits(uids);
    let f = lecteur_uid();
    if uids.len() == 0 {
        reveal(Seq::filter_map);
        assert(w.filter_map(f) =~= uids);
    } else {
        let u = uids.drop_last();
        lemme_uids_relus(u);
        let n = w.len() - 1;
        w.lemma_filter_map_take_succ(f, n);
        assert(w.take(n + 1) =~= w);
        assert(w.take(n) =~= uids_ecrits(u));
        loi_decimal_relu(uids.last() as nat, u32::MAX as nat);
        assert(w[n] == decimal(uids.last() as nat));
        assert(w.filter_map(f) =~= uids);
    }
}

/// The UID that a server gives to a message that was deposited is the one that is
/// noted.
#[verifier::spinoff_prover]
pub proof fn loi_uid_depose(etiquette: Seq<char>, validite: u32, uid: u32, suite: Seq<char>)
    requires
        !etiquette.contains('['),
        !etiquette.contains('\n'),
        !suite.contains('\n'),
        suite.len() > 0 ==> suite.last() != '\r',
    ensures
        uid_depose(
            etiquette + " OK [APPENDUID "@ + decimal(validite as nat) + " "@ + decimal(uid as nat)
                + "] "@ + suite,
        ) == Some(uid),
{
    reveal_strlit(" OK [APPENDUID ");
    reveal_strlit("APPENDUID ");
    reveal_strlit(" ");
    reveal_strlit("] ");
    let a = decimal(validite as nat);
    let b = decimal(uid as nat);
    lemme_decimal(validite as nat);
    lemme_decimal(uid as nat);
    let g = a + " "@ + b;
    let l = etiquette + " OK [APPENDUID "@ + a + " "@ + b + "] "@ + suite;
    let x = etiquette + seq![' ', 'O', 'K', ' '];
    let m = seq!['['] + "APPENDUID "@;
    let fin = seq![']', ' '] + suite;
    let r = g + fin;
    assert(l =~= x + m + r);
    assert forall|j: int| 0 <= j < x.len() implies !#[trigger] occurrence(x + m + r, m, j) by {
        if occurrence(l, m, j) {
            lemme_lettre(l, m, j, 0);
            if j < etiquette.len() {
                assert(etiquette[j] == '[');
            }
        }
    }
    lemme_apres_premier(x, m, r);
    assert forall|i: int| 0 <= i < g.len() implies '0' <= g[i] <= '9' || g[i] == ' ' by {
        if i < a.len() {
            assert(g[i] == a[i]);
        } else if i > a.len() {
            assert(g[i] == b[i - a.len() - 1]);
        }
    }
    r.index_of_first_ensures(']');
    assert(r[g.len() as int] == ']');
    let f = r.index_of_first(']')->0;
    assert(f == g.len()) by {
        if f < g.len() {
            assert(r[f] == g[f]);
        }
    }
    assert(r.subrange(0, f) =~= g);
    assert(g[0] == a[0] && g.last() == b[b.len() - 1]);
    lemme_rien_a_rogner(g);
    let w = seq![a, b];
    assert(jointure(w, " "@) =~= g) by {
        assert(w.drop_last() =~= seq![a]);
        assert(jointure(w.drop_last(), " "@) == a);
    }
    assert(mot(w[0]) && mot(w[1]));
    loi_mots_joints(w);
    loi_decimal_relu(validite as nat, u32::MAX as nat);
    loi_decimal_relu(uid as nat, u32::MAX as nat);
    // The response is this one line.
    assert(!l.contains('\n')) by {
        assert forall|i: int| 0 <= i < l.len() implies l[i] != '\n' by {
            let k = i - etiquette.len();
            if k < 0 {
                assert(l[i] == etiquette[i]);
                assert(etiquette.contains(etiquette[i]));
            } else if k >= 15 && k < 15 + g.len() {
                assert(l[i] == g[k - 15]);
            } else if k >= 17 + g.len() {
                assert(l[i] == suite[k - 17 - g.len()]);
                assert(suite.contains(suite[k - 17 - g.len()]));
            }
        }
    }
    l.index_of_first_ensures('\n');
    assert(lignes(l) =~= seq![l]);
    assert(lignes(l)[0] == l);
}

/// The capabilities that a server announces are those that are noted.
pub proof fn loi_capacites_lues(v: Seq<Seq<char>>)
    requires
        v.len() > 0,
        forall|i: int| 0 <= i < v.len() ==> mot(#[trigger] v[i]),
    ensures
        capacites_de_ligne("* CAPABILITY "@ + jointure(v, " "@)) == v,
{
    reveal_strlit("* CAPABILITY ");
    loi_mots_joints(v);
    let j = jointure(v, " "@);
    lemme_fin_mots(v);
    let l = "* CAPABILITY "@ + j;
    assert(l[0] == '*' && l.last() == j.last());
    lemme_rien_a_rogner(l);
    assert(l.subrange(0, 13) =~= "* CAPABILITY "@);
    assert(l.subrange(13, l.len() as int) =~= j);
}

proof fn lemme_fin_mots(v: Seq<Seq<char>>)
    requires
        v.len() > 0,
        forall|i: int| 0 <= i < v.len() ==> mot(#[trigger] v[i]),
    ensures
        jointure(v, " "@).len() > 0,
        !blanc(jointure(v, " "@).last()),
{
    let x = v[v.len() - 1];
    assert(mot(x));
    assert(!blanc(x[x.len() - 1]));
    if v.len() > 1 {
        assert(jointure(v, " "@).last() == x.last());
    }
}

// ----------------------------------------------------------------- whole FETCH lines

/// The mark of a literal in a response.
pub open spec fn marque(i: nat) -> Seq<char> {
    seq![MARQUEUR] + decimal(i) + seq![MARQUEUR]
}

/// Whether a text can be an internal date: digits, letters of a month, and what stands
/// between them.
pub open spec fn date_possible(date: Seq<char>) -> bool {
    forall|i: int|
        0 <= i < date.len() ==> {
            let c = #[trigger] date[i];
            '0' <= c <= '9' || 'a' <= c <= 'z' || c == ' ' || c == ':' || c == '-' || c == '+' || c
                == 'J' || c == 'F' || c == 'M' || c == 'A' || c == 'S' || c == 'O' || c == 'N' || c
                == 'D'
        }
}

/// What follows the flags of a message in a `FETCH` line: the date of reception, then
/// other items, then the bytes.
pub open spec fn suite_datee(date: Seq<char>, milieu: Seq<char>, i: nat) -> Seq<char> {
    " INTERNALDATE \""@ + date + "\" "@ + milieu + marque(i)
}

/// Whether flags can be told from the other items of a `FETCH` line.
pub open spec fn drapeaux_nets(drapeaux: Seq<Seq<char>>) -> bool {
    let f = jointure(drapeaux, " "@);
    &&& forall|i: int| 0 <= i < drapeaux.len() ==> drapeau(#[trigger] drapeaux[i])
    &&& forall|j: int| !#[trigger] occurrence(f, "INTERNALDATE"@, j)
    &&& forall|j: int| !#[trigger] occurrence(f, "RFC822.SIZE"@, j)
    &&& !f.contains(MARQUEUR)
}

proof fn lemme_date_protegee(date: Seq<char>)
    requires
        date_possible(date),
    ensures
        protege(date) == date,
    decreases date.len(),
{
    if date.len() > 0 {
        let d = date.drop_last();
        assert forall|i: int| 0 <= i < d.len() implies {
            let c = #[trigger] d[i];
            '0' <= c <= '9' || 'a' <= c <= 'z' || c == ' ' || c == ':' || c == '-' || c == '+' || c
                == 'J' || c == 'F' || c == 'M' || c == 'A' || c == 'S' || c == 'O' || c == 'N' || c
                == 'D'
        } by {
            assert(d[i] == date[i]);
        }
        lemme_date_protegee(d);
        let k = date.len() - 1;
        assert(date[k] == date.last());
        assert(protege(date) =~= date);
    } else {
        assert(protege(date) =~= date);
    }
}

/// No occurrence of a key starts in the flags, nor before them.
proof fn lemme_tete_libre(
    uid: u32,
    drapeaux: Seq<Seq<char>>,
    suite: Seq<char>,
    mot_clef: Seq<char>,
    j: int,
)
    requires
        drapeaux_nets(drapeaux),
        mot_clef == "INTERNALDATE"@ || mot_clef == "RFC822.SIZE"@,
        0 <= j < corps_fetch(uid, drapeaux, Seq::empty()).len(),
    ensures
        !occurrence(corps_fetch(uid, drapeaux, suite), mot_clef + seq![' '], j),
{
    reveal_strlit("UID ");
    reveal_strlit(" FLAGS (");
    reveal_strlit(")");
    reveal_strlit("INTERNALDATE");
    reveal_strlit("RFC822.SIZE");
    let n = decimal(uid as nat);
    lemme_decimal(uid as nat);
    let f = jointure(drapeaux, " "@);
    let c = corps_fetch(uid, drapeaux, suite);
    let m = mot_clef + seq![' '];
    let d = 4 + n.len() as int + 8;
    let fin = d + f.len();
    assert(c[fin] == ')');
    if occurrence(c, m, j) {
        lemme_lettre(c, m, j, 0);
        lemme_lettre(c, m, j, 1);
        if j < d {
            if 4 <= j < 4 + n.len() {
                assert(c[j] == n[j - 4]);
            }
        } else if j < fin {
            if j + mot_clef.len() <= fin {
                assert(f.subrange(j - d, j - d + mot_clef.len()) =~= mot_clef) by {
                    assert forall|k: int| 0 <= k < mot_clef.len() implies f[j - d + k]
                        == mot_clef[k] by {
                        lemme_lettre(c, m, j, k);
                        assert(c[j + k] == f[j - d + k]);
                    }
                }
                assert(occurrence(f, mot_clef, j - d));
            } else {
                lemme_lettre(c, m, j, fin - j);
                assert(m[fin - j] == ')');
            }
        }
    }
}

/// The date of reception and the bytes are read.
#[verifier::spinoff_prover]
#[verifier::rlimit(40)]
proof fn lemme_date_brut(
    uid: u32,
    drapeaux: Seq<Seq<char>>,
    date: Seq<char>,
    milieu: Seq<char>,
    i: nat,
    litteraux: Seq<Seq<u8>>,
)
    requires
        drapeaux_nets(drapeaux),
        date_possible(date),
        equilibre(milieu),
        !milieu.contains(MARQUEUR),
        i < litteraux.len(),
        i <= usize::MAX,
    ensures
        equilibre(suite_datee(date, milieu, i)),
        date_de(corps_fetch(uid, drapeaux, suite_datee(date, milieu, i))) == date,
        brut_de(corps_fetch(uid, drapeaux, suite_datee(date, milieu, i)), litteraux)
            == litteraux[i as int],
{
    reveal_strlit(" INTERNALDATE \"");
    reveal_strlit("INTERNALDATE ");
    reveal_strlit("INTERNALDATE");
    reveal_strlit("\" ");
    let s = suite_datee(date, milieu, i);
    let c = corps_fetch(uid, drapeaux, s);
    let k = decimal(i);
    lemme_decimal(i);
    // The parentheses.
    let debut = " INTERNALDATE \""@ + date + "\" "@;
    assert(!debut.contains('(') && !debut.contains(')') && !debut.contains(MARQUEUR)) by {
        assert forall|x: int| 0 <= x < debut.len() implies debut[x] != '(' && debut[x] != ')'
            && debut[x] != MARQUEUR by {
            if 15 <= x < 15 + date.len() {
                assert(debut[x] == date[x - 15]);
            }
        }
    }
    let q = marque(i);
    assert(!q.contains('(') && !q.contains(')')) by {
        assert forall|x: int| 0 <= x < q.len() implies q[x] != '(' && q[x] != ')' by {
            if 1 <= x < 1 + k.len() {
                assert(q[x] == k[x - 1]);
            }
        }
    }
    lemme_sans_parentheses(debut, 0);
    lemme_sans_parentheses(q, 0);
    assert(s =~= debut + (milieu + q));
    lemme_ouverts_suite(debut, milieu + q, 0);
    lemme_ouverts_suite(milieu, q, 0);
    // The date.
    let vide = Seq::<char>::empty();
    let tete = corps_fetch(uid, drapeaux, vide);
    let a = tete + seq![' '];
    let m = "INTERNALDATE "@;
    assert(m =~= "INTERNALDATE"@ + seq![' ']);
    let apres = seq![' '] + milieu + q;
    let r = citee(date) + apres;
    lemme_date_protegee(date);
    assert(citee(date) =~= seq!['"'] + date + seq!['"']);
    assert(c =~= tete + s);
    assert(s =~= seq![' '] + m + r);
    assert(c =~= a + m + r);
    assert forall|j: int| 0 <= j < a.len() implies !#[trigger] occurrence(a + m + r, m, j) by {
        if j < tete.len() {
            lemme_tete_libre(uid, drapeaux, s, "INTERNALDATE"@, j);
        } else if occurrence(c, m, j) {
            lemme_lettre(c, m, j, 0);
        }
    }
    lemme_apres_premier(a, m, r);
    loi_citation_relue(date, apres);
    // The bytes.
    let avant = tete + debut + milieu;
    assert(!avant.contains(MARQUEUR)) by {
        reveal_strlit("UID ");
        reveal_strlit(" FLAGS (");
        reveal_strlit(")");
        let n = decimal(uid as nat);
        lemme_decimal(uid as nat);
        let f = jointure(drapeaux, " "@);
        assert(tete =~= "UID "@ + n + " FLAGS ("@ + f + ")"@);
        assert forall|x: int| 0 <= x < avant.len() implies avant[x] != MARQUEUR by {
            if x < tete.len() {
                assert(avant[x] == tete[x]);
                if 4 <= x < 4 + n.len() {
                    assert(tete[x] == n[x - 4]);
                } else if 12 + n.len() <= x < 12 + n.len() + f.len() {
                    assert(tete[x] == f[x - 12 - n.len()]);
                    assert(f.contains(f[x - 12 - n.len()]));
                }
            } else if x < tete.len() + debut.len() {
                assert(avant[x] == debut[x - tete.len()]);
                assert(debut.contains(debut[x - tete.len()]));
            } else {
                assert(avant[x] == milieu[x - tete.len() - debut.len()]);
                assert(milieu.contains(milieu[x - tete.len() - debut.len()]));
            }
        }
    }
    let reste = k + seq![MARQUEUR] + vide;
    assert(c =~= avant + seq![MARQUEUR] + reste);
    lemme_coupe(avant, MARQUEUR, reste);
    assert(!k.contains(MARQUEUR)) by {
        assert forall|x: int| 0 <= x < k.len() implies k[x] != MARQUEUR by {}
    }
    lemme_coupe(k, MARQUEUR, vide);
    loi_decimal_relu(i, usize::MAX as nat);
}

/// The size is read.
#[verifier::spinoff_prover]
proof fn lemme_taille_lue(
    uid: u32,
    drapeaux: Seq<Seq<char>>,
    date: Seq<char>,
    taille: u32,
    suite: Seq<char>,
    i: nat,
)
    requires
        drapeaux_nets(drapeaux),
        date_possible(date),
    ensures
        nombre32_suivant(
            corps_fetch(
                uid,
                drapeaux,
                suite_datee(date, "RFC822.SIZE "@ + decimal(taille as nat) + " "@ + suite, i),
            ),
            "RFC822.SIZE "@,
        ) == taille,
{
    reveal_strlit(" INTERNALDATE \"");
    reveal_strlit("RFC822.SIZE ");
    reveal_strlit("RFC822.SIZE");
    reveal_strlit("\" ");
    reveal_strlit(" ");
    let milieu = "RFC822.SIZE "@ + decimal(taille as nat) + " "@ + suite;
    let s = suite_datee(date, milieu, i);
    let c = corps_fetch(uid, drapeaux, s);
    let vide = Seq::<char>::empty();
    let tete = corps_fetch(uid, drapeaux, vide);
    let debut = " INTERNALDATE \""@ + date + "\" "@;
    let a = tete + debut;
    let m = "RFC822.SIZE "@;
    assert(m =~= "RFC822.SIZE"@ + seq![' ']);
    let fin = " "@ + suite + marque(i);
    let r = decimal(taille as nat) + fin;
    assert(c =~= tete + s);
    assert(c =~= a + m + r);
    assert forall|j: int| 0 <= j < a.len() implies !#[trigger] occurrence(a + m + r, m, j) by {
        if j < tete.len() {
            lemme_tete_libre(uid, drapeaux, s, "RFC822.SIZE"@, j);
        } else if occurrence(c, m, j) {
            lemme_lettre(c, m, j, 0);
            lemme_lettre(c, m, j, 1);
            let x = j - tete.len();
            assert(c[j] == debut[x]);
            if 15 <= x < 15 + date.len() {
                assert(debut[x] == date[x - 15]);
            } else if x < 14 {
                assert(c[j + 1] == debut[x + 1]);
            }
        }
    }
    lemme_nombre(a, m, taille, fin);
}

/// What a server gives of a message in answer to a reading of headers is what is
/// noted: its UID, its flags, its date of reception, its size and its header.
pub proof fn loi_entete_lu(
    rang: nat,
    uid: u32,
    drapeaux: Seq<Seq<char>>,
    date: Seq<char>,
    taille: u32,
    suite: Seq<char>,
    i: nat,
    litteraux: Seq<Seq<u8>>,
)
    requires
        uid != 0,
        drapeaux_nets(drapeaux),
        date_possible(date),
        equilibre(suite),
        !suite.contains(MARQUEUR),
        i < litteraux.len(),
        i <= usize::MAX,
    ensures
        entete_de_ligne(
            ligne_fetch(
                rang,
                corps_fetch(
                    uid,
                    drapeaux,
                    suite_datee(date, "RFC822.SIZE "@ + decimal(taille as nat) + " "@ + suite, i),
                ),
            ),
            litteraux,
        ) == Some(
            EnteteVue {
                uid,
                taille,
                drapeaux,
                date_interne: date,
                brut: litteraux[i as int],
            },
        ),
{
    reveal_strlit("RFC822.SIZE ");
    reveal_strlit(" ");
    let tete = "RFC822.SIZE "@ + decimal(taille as nat) + " "@;
    let milieu = tete + suite;
    lemme_decimal(taille as nat);
    let d = decimal(taille as nat);
    assert(!tete.contains('(') && !tete.contains(')') && !tete.contains(MARQUEUR)) by {
        assert forall|x: int| 0 <= x < tete.len() implies tete[x] != '(' && tete[x] != ')'
            && tete[x] != MARQUEUR by {
            if 12 <= x < 12 + d.len() {
                assert(tete[x] == d[x - 12]);
            }
        }
    }
    lemme_sans_parentheses(tete, 0);
    lemme_ouverts_suite(tete, suite, 0);
    assert(!milieu.contains(MARQUEUR)) by {
        assert forall|x: int| 0 <= x < milieu.len() implies milieu[x] != MARQUEUR by {
            if x < tete.len() {
                assert(milieu[x] == tete[x]);
                assert(tete.contains(tete[x]));
            } else {
                assert(milieu[x] == suite[x - tete.len()]);
                assert(suite.contains(suite[x - tete.len()]));
            }
        }
    }
    let s = suite_datee(date, milieu, i);
    lemme_date_brut(uid, drapeaux, date, milieu, i, litteraux);
    lemme_taille_lue(uid, drapeaux, date, taille, suite, i);
    lemme_uid_drapeaux(uid, drapeaux, s);
    lemme_ligne_fetch(rang, corps_fetch(uid, drapeaux, s), litteraux);
}

/// A whole message is read with its flags, its date of reception and its bytes, all as
/// the server gives them; where no line gives the bytes of this message, there is none.
pub proof fn loi_message_lu(
    a: Seq<Seq<char>>,
    rang: nat,
    uid: u32,
    drapeaux: Seq<Seq<char>>,
    date: Seq<char>,
    milieu: Seq<char>,
    i: nat,
    b: Seq<Seq<char>>,
    litteraux: Seq<Seq<u8>>,
)
    requires
        uid != 0,
        drapeaux_nets(drapeaux),
        date_possible(date),
        equilibre(milieu),
        !milieu.contains(MARQUEUR),
        i < litteraux.len(),
        i <= usize::MAX,
        litteraux[i as int].len() > 0,
        des_lignes(a),
        des_lignes(b),
        une_ligne(ligne_fetch(rang, corps_fetch(uid, drapeaux, suite_datee(date, milieu, i)))),
        message_lu(reponse_de(a, litteraux), uid) is None,
    ensures
        message_lu(
            reponse_de(
                a + seq![
                    ligne_fetch(rang, corps_fetch(uid, drapeaux, suite_datee(date, milieu, i))),
                ] + b,
                litteraux,
            ),
            uid,
        ) == Some(
            MessageCompletVue { drapeaux, date_interne: date, octets: litteraux[i as int] },
        ),
{
    let s = suite_datee(date, milieu, i);
    let l = ligne_fetch(rang, corps_fetch(uid, drapeaux, s));
    lemme_date_brut(uid, drapeaux, date, milieu, i, litteraux);
    lemme_uid_drapeaux(uid, drapeaux, s);
    lemme_ligne_fetch(rang, corps_fetch(uid, drapeaux, s), litteraux);
    let e = entete_de_ligne(l, litteraux)->0;
    lemme_entetes_autour(a, l, b, litteraux);
    let x = entetes_de(texte_de(a), litteraux);
    let y = entetes_de(texte_de(b), litteraux);
    lemme_premier_autour(x, e, y, entier_de(uid));
}

proof fn lemme_premier_autour<A>(x: Seq<A>, e: A, y: Seq<A>, p: spec_fn(A) -> bool)
    requires
        premier(x, p) is None,
        p(e),
    ensures
        premier(x + seq![e] + y, p) == Some(e),
    decreases y.len(),
{
    let s = x + seq![e] + y;
    if y.len() == 0 {
        assert(s.drop_last() =~= x);
        assert(s.last() == e);
    } else {
        lemme_premier_autour(x, e, y.drop_last(), p);
        assert(s.drop_last() =~= x + seq![e] + y.drop_last());
    }
}

} // verus!
