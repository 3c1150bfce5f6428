//! The other side of the dialogue: how a server reads a command by the grammar of
//! IMAP, and what it does with it.
//!
//! Nothing of this is run. The laws of this module hold the commands of the client
//! against that reading: what the server understands is what was asked of it.

use vstd::prelude::*;

use crate::flux::{ErreurVue, ReponseVue};
use crate::ensembles::{
    compact, couvre, intervalles_ecrits, lemme_ecriture, loi_ensemble_relu, loi_forme_existe,
};
use crate::imap::{
    citee, cmd_activation, cmd_append, cmd_copy, cmd_corps, cmd_drapeaux, cmd_entetes, cmd_examine,
    cmd_expunge, cmd_list, cmd_login, cmd_message, cmd_move, cmd_releve, cmd_search, cmd_select,
    cmd_status, cmd_store, debut_deplacement, debut_suppression, drapeaux_deposables, ensemble,
    lemme_protege_premier, pas_retrait, prochain_ouvrable, protege, reprise_demandee,
    SuiteRetraitVue,
};
use crate::nombre::{chiffres, decimal, lemme_decimal, valeur};
use crate::protocole::{ouvrable, DossierVue};
use crate::texte::{jointure, lemme_coupe, loi_mots_joints, minuscules, mot, mots};

verus! {

// ------------------------------------------------------------------------- grammar

/// Whether a character may stand in an atom.
pub open spec fn d_atome(c: char) -> bool {
    c != ' ' && c != '(' && c != ')' && c != '"' && c != '{'
}

/// Whether a text is an atom.
pub open spec fn atome(s: Seq<char>) -> bool {
    s.len() > 0 && forall|i: int| 0 <= i < s.len() ==> d_atome(#[trigger] s[i])
}

/// The length of the atom that starts a text.
pub open spec fn longueur_atome(s: Seq<char>) -> int
    decreases s.len(),
{
    if s.len() == 0 || !d_atome(s[0]) {
        0
    } else {
        1 + longueur_atome(s.drop_first())
    }
}

/// What a quoted string holds, from after its opening quote on, and what follows it. A
/// backslash stands before a quote or a backslash, and nowhere else.
pub open spec fn citation(s: Seq<char>, lu: Seq<char>) -> Option<(Seq<char>, Seq<char>)>
    decreases s.len(),
{
    if s.len() == 0 {
        None
    } else if s[0] == '"' {
        Some((lu, s.drop_first()))
    } else if s[0] == '\\' {
        if s.len() >= 2 && (s[1] == '"' || s[1] == '\\') {
            citation(s.drop_first().drop_first(), lu.push(s[1]))
        } else {
            None
        }
    } else {
        citation(s.drop_first(), lu.push(s[0]))
    }
}

/// The next argument of a command, behind one space, and what follows it: a quoted
/// string, or an atom.
pub open spec fn argument(s: Seq<char>) -> Option<(Seq<char>, Seq<char>)> {
    if s.len() == 0 || s[0] != ' ' {
        None
    } else {
        let t = s.drop_first();
        if t.len() > 0 && t[0] == '"' {
            citation(t.drop_first(), Seq::empty())
        } else {
            let n = longueur_atome(t);
            if n == 0 {
                None
            } else {
                Some((t.subrange(0, n), t.subrange(n, t.len() as int)))
            }
        }
    }
}

/// The next argument of a command where it is a list in parentheses: what stands
/// between them, and what follows.
pub open spec fn parentheses(s: Seq<char>) -> Option<(Seq<char>, Seq<char>)> {
    if s.len() < 2 || s[0] != ' ' || s[1] != '(' {
        None
    } else {
        let t = s.drop_first().drop_first();
        match t.index_of_first(')') {
            Some(i) => Some((t.subrange(0, i), t.subrange(i + 1, t.len() as int))),
            None => None,
        }
    }
}

/// What follows a word of a command.
pub open spec fn apres_verbe(s: Seq<char>, verbe: Seq<char>) -> Option<Seq<char>> {
    match argument(s) {
        Some((v, r)) => if v == verbe {
            Some(r)
        } else {
            None
        },
        None => None,
    }
}

/// What follows the two words of a command on UIDs.
pub open spec fn apres_uid(texte: Seq<char>, verbe: Seq<char>) -> Option<Seq<char>> {
    match apres_verbe(seq![' '] + texte, "UID"@) {
        Some(r) => apres_verbe(r, verbe),
        None => None,
    }
}

/// The size that the announcement of a literal gives, where it ends a command.
pub open spec fn taille_annoncee(s: Seq<char>) -> Option<nat> {
    let n = s.len() as int;
    if n >= 4 && s[0] == ' ' && s[1] == '{' && s[n - 1] == '}' && chiffres(
        s.subrange(2, n - 1),
        10,
    ) {
        Some(valeur(s.subrange(2, n - 1), 10))
    } else {
        None
    }
}

// -------------------------------------------------------------------------- lemmas

proof fn lemme_longueur_atome(a: Seq<char>, suite: Seq<char>)
    requires
        forall|i: int| 0 <= i < a.len() ==> d_atome(#[trigger] a[i]),
        suite.len() > 0 ==> !d_atome(suite[0]),
    ensures
        longueur_atome(a + suite) == a.len(),
    decreases a.len(),
{
    if a.len() == 0 {
        assert(a + suite =~= suite);
    } else {
        let b = a.drop_first();
        assert((a + suite).drop_first() =~= b + suite);
        assert forall|i: int| 0 <= i < b.len() implies d_atome(#[trigger] b[i]) by {
            assert(b[i] == a[i + 1]);
        }
        assert((a + suite)[0] == a[0]);
        lemme_longueur_atome(b, suite);
    }
}

/// An atom is read as it is.
proof fn lemme_atome(a: Seq<char>, suite: Seq<char>)
    requires
        atome(a),
        suite.len() > 0 ==> !d_atome(suite[0]),
    ensures
        argument(seq![' '] + a + suite) == Some((a, suite)),
{
    let s = seq![' '] + a + suite;
    let t = s.drop_first();
    assert(t =~= a + suite);
    assert(t[0] == a[0] && d_atome(a[0]));
    lemme_longueur_atome(a, suite);
    assert(t.subrange(0, a.len() as int) =~= a);
    assert(t.subrange(a.len() as int, t.len() as int) =~= suite);
}

proof fn lemme_citation(s: Seq<char>, suite: Seq<char>, lu: Seq<char>)
    ensures
        citation(protege(s) + seq!['"'] + suite, lu) == Some((lu + s, suite)),
    decreases s.len(),
{
    let t = protege(s) + seq!['"'] + suite;
    if s.len() == 0 {
        assert(t[0] == '"');
        assert(t.drop_first() =~= suite);
        assert(lu + s =~= lu);
    } else {
        lemme_protege_premier(s);
        let u = s.drop_first();
        let reste = protege(u) + seq!['"'] + suite;
        lemme_citation(u, suite, lu.push(s[0]));
        assert(lu.push(s[0]) + u =~= lu + s);
        if s[0] == '\\' || s[0] == '"' {
            assert(t[0] == '\\' && t[1] == s[0]);
            assert(t.drop_first().drop_first() =~= reste);
        } else {
            assert(t[0] == s[0]);
            assert(t.drop_first() =~= reste);
        }
    }
}

/// A quoted text is read as the text.
proof fn lemme_cite(s: Seq<char>, suite: Seq<char>)
    ensures
        argument(seq![' '] + citee(s) + suite) == Some((s, suite)),
{
    let tout = seq![' '] + citee(s) + suite;
    let t = tout.drop_first();
    assert(t[0] == '"');
    assert(t.drop_first() =~= protege(s) + seq!['"'] + suite);
    lemme_citation(s, suite, Seq::empty());
    assert(Seq::<char>::empty() + s =~= s);
}

/// A list in parentheses is read as what stands between them.
proof fn lemme_parentheses(g: Seq<char>, suite: Seq<char>)
    requires
        !g.contains(')'),
    ensures
        parentheses(seq![' ', '('] + g + seq![')'] + suite) == Some((g, suite)),
{
    let s = seq![' ', '('] + g + seq![')'] + suite;
    let t = s.drop_first().drop_first();
    assert(t =~= g + seq![')'] + suite);
    lemme_coupe(g, ')', suite);
}

/// A set of UIDs is an atom.
proof fn lemme_ensemble_atome(uids: Seq<u32>)
    requires
        uids.len() > 0,
    ensures
        atome(ensemble(uids)),
{
    loi_forme_existe(uids);
    let p = compact(uids);
    lemme_ecriture(p);
    assert(uids.contains(uids[0]));
    assert(couvre(p, uids[0] as int));
}

/// Words of a command, read one after the other.
proof fn lemme_verbe_uid(verbe: Seq<char>, suite: Seq<char>)
    requires
        atome(verbe),
        suite.len() > 0 ==> !d_atome(suite[0]),
    ensures
        apres_uid("UID "@ + verbe + suite, verbe) == Some(suite),
{
    reveal_strlit("UID ");
    reveal_strlit("UID");
    let texte = "UID "@ + verbe + suite;
    let reste = seq![' '] + verbe + suite;
    assert(seq![' '] + texte =~= seq![' '] + "UID"@ + reste);
    lemme_atome("UID"@, reste);
    lemme_atome(verbe, suite);
}

// ------------------------------------------------------------------------- marking

/// What a `UID STORE` asks for: the set of UIDs, whether the flags are added or
/// removed, and the flags. The silent form only spares the answer.
pub open spec fn store_lu(texte: Seq<char>) -> Option<(Seq<char>, bool, Seq<Seq<char>>)> {
    match apres_uid(texte, "STORE"@) {
        None => None,
        Some(r) => match argument(r) {
            None => None,
            Some((uids, r)) => match argument(r) {
                None => None,
                Some((action, r)) => match parentheses(r) {
                    None => None,
                    Some((drapeaux, fin)) => if fin.len() > 0 {
                        None
                    } else if action == "+FLAGS"@ || action == "+FLAGS.SILENT"@ {
                        Some((uids, true, mots(drapeaux)))
                    } else if action == "-FLAGS"@ || action == "-FLAGS.SILENT"@ {
                        Some((uids, false, mots(drapeaux)))
                    } else {
                        None
                    },
                },
            },
        },
    }
}

/// Whether a text can be a flag.
pub open spec fn drapeau_valide(d: Seq<char>) -> bool {
    mot(d) && !d.contains('(') && !d.contains(')')
}

/// The flags of the messages of a folder, by UID.
pub type Contenu = Map<u32, Set<Seq<char>>>;

/// The folder once the server has done what a `UID STORE` asks for.
pub open spec fn apres_store(c: Contenu, texte: Seq<char>) -> Contenu {
    match store_lu(texte) {
        None => c,
        Some((uids, pose, drapeaux)) => Map::new(
            |u: u32| c.dom().contains(u),
            |u: u32|
                if !couvre(intervalles_ecrits(uids), u as int) {
                    c[u]
                } else if pose {
                    c[u].union(drapeaux.to_set())
                } else {
                    c[u].difference(drapeaux.to_set())
                },
        ),
    }
}

#[verifier::spinoff_prover]
#[verifier::rlimit(60)]
proof fn lemme_store(uids: Seq<u32>, drapeau: Seq<char>, present: bool)
    requires
        uids.len() > 0,
        drapeau_valide(drapeau),
    ensures
        store_lu(cmd_store(uids, drapeau, present)) == Some(
            (ensemble(uids), present, seq![drapeau]),
        ),
{
    reveal_strlit("UID STORE ");
    reveal_strlit("UID ");
    reveal_strlit("STORE");
    reveal_strlit(" +FLAGS.SILENT (");
    reveal_strlit(" -FLAGS.SILENT (");
    reveal_strlit("+FLAGS.SILENT");
    reveal_strlit("-FLAGS.SILENT");
    reveal_strlit("+FLAGS");
    reveal_strlit("-FLAGS");
    reveal_strlit(")");
    let texte = cmd_store(uids, drapeau, present);
    let action = if present {
        "+FLAGS.SILENT"@
    } else {
        "-FLAGS.SILENT"@
    };
    let vide = Seq::<char>::empty();
    let r3 = seq![' ', '('] + drapeau + seq![')'] + vide;
    let r2 = seq![' '] + action + r3;
    let r1 = seq![' '] + ensemble(uids) + r2;
    assert(texte =~= "UID "@ + "STORE"@ + r1);
    lemme_verbe_uid("STORE"@, r1);
    lemme_ensemble_atome(uids);
    lemme_atome(ensemble(uids), r2);
    assert(action[0] == if present {
        '+'
    } else {
        '-'
    });
    assert("+FLAGS"@[0] == '+');
    lemme_atome(action, r3);
    lemme_parentheses(drapeau, vide);
    assert(jointure(seq![drapeau], " "@) == drapeau);
    loi_mots_joints(seq![drapeau]);
}

/// The server does with a mark what was asked: each of the messages has the flag
/// afterwards exactly if it was to be present, its other flags are as they were, and
/// so are those of the other messages.
pub proof fn loi_marquage_servi(
    c: Contenu,
    uids: Seq<u32>,
    drapeau: Seq<char>,
    present: bool,
    u: u32,
    autre: Seq<char>,
)
    requires
        uids.len() > 0,
        drapeau_valide(drapeau),
        c.dom().contains(u),
    ensures
        ({
            let d = apres_store(c, cmd_store(uids, drapeau, present));
            &&& d.dom() == c.dom()
            &&& uids.contains(u) ==> (d[u].contains(drapeau) <==> present)
            &&& uids.contains(u) && autre != drapeau ==> (d[u].contains(autre) <==> c[u].contains(
                autre,
            ))
            &&& !uids.contains(u) ==> d[u] == c[u]
        }),
{
    lemme_store(uids, drapeau, present);
    loi_ensemble_relu(uids, u);
    let d = apres_store(c, cmd_store(uids, drapeau, present));
    assert(d.dom() =~= c.dom());
    assert(seq![drapeau][0] == drapeau);
    assert(seq![drapeau].to_set().contains(drapeau));
    assert(seq![drapeau].to_set().contains(autre) ==> autre == drapeau);
}

// --------------------------------------------------------------- moves and removals

/// What a `UID MOVE` or a `UID COPY` asks for: the set of UIDs and the target folder.
pub open spec fn transport_lu(
    texte: Seq<char>,
    verbe: Seq<char>,
) -> Option<(Seq<char>, Seq<char>)> {
    match apres_uid(texte, verbe) {
        None => None,
        Some(r) => match argument(r) {
            None => None,
            Some((uids, r)) => match argument(r) {
                None => None,
                Some((cible, fin)) => if fin.len() > 0 {
                    None
                } else {
                    Some((uids, cible))
                },
            },
        },
    }
}

/// What a `UID EXPUNGE` asks for: the set of UIDs.
pub open spec fn expunge_lu(texte: Seq<char>) -> Option<Seq<char>> {
    match apres_uid(texte, "EXPUNGE"@) {
        None => None,
        Some(r) => match argument(r) {
            None => None,
            Some((uids, fin)) => if fin.len() > 0 {
                None
            } else {
                Some(uids)
            },
        },
    }
}

/// What a server holds: the open folder, and what was put in others, in order.
pub struct Serveur {
    pub ouvert: Contenu,
    pub copies: Seq<(Seq<char>, Contenu)>,
}

/// The messages of a folder that a set of UIDs designates.
pub open spec fn designes(c: Contenu, uids: Seq<char>) -> Contenu {
    c.restrict(Set::new(|u: u32| couvre(intervalles_ecrits(uids), u as int)))
}

/// The messages of a folder that a set of UIDs does not designate.
pub open spec fn autres(c: Contenu, uids: Seq<char>) -> Contenu {
    c.restrict(Set::new(|u: u32| !couvre(intervalles_ecrits(uids), u as int)))
}

/// The server once it has done what a command of a move or a removal asks for.
pub open spec fn servi(s: Serveur, texte: Seq<char>) -> Serveur {
    if let Some((uids, cible)) = transport_lu(texte, "MOVE"@) {
        Serveur {
            ouvert: autres(s.ouvert, uids),
            copies: s.copies.push((cible, designes(s.ouvert, uids))),
        }
    } else if let Some((uids, cible)) = transport_lu(texte, "COPY"@) {
        Serveur { copies: s.copies.push((cible, designes(s.ouvert, uids))), ..s }
    } else if let Some(uids) = expunge_lu(texte) {
        Serveur {
            ouvert: s.ouvert.restrict(
                Set::new(
                    |u: u32|
                        !(couvre(intervalles_ecrits(uids), u as int) && s.ouvert[u].contains(
                            "\\Deleted"@,
                        )),
                ),
            ),
            ..s
        }
    } else {
        Serveur { ouvert: apres_store(s.ouvert, texte), ..s }
    }
}

/// The run of a move or a removal on a server that accepts each command: what the
/// server holds at the end, and what came of it.
pub open spec fn conduite(
    s: Serveur,
    capacites: Seq<Seq<char>>,
    uids: Seq<u32>,
    suite: SuiteRetraitVue,
    fuel: nat,
) -> (Serveur, Option<Result<(), ErreurVue>>)
    decreases fuel,
{
    match suite {
        SuiteRetraitVue::Fini(r) => (s, Some(r)),
        SuiteRetraitVue::Demander(etape, texte) => if fuel == 0 {
            (s, None)
        } else {
            let accepte = Ok(ReponseVue { texte: Seq::empty(), litteraux: Seq::empty() });
            conduite(
                servi(s, texte),
                capacites,
                uids,
                pas_retrait(capacites, etape, uids, accepte),
                (fuel - 1) as nat,
            )
        },
    }
}

/// The verb of a command tells it from the others.
proof fn lemme_autre_verbe(texte: Seq<char>, verbe: Seq<char>, suite: Seq<char>, autre: Seq<char>)
    requires
        texte == "UID "@ + verbe + suite,
        atome(verbe),
        suite.len() > 0 ==> !d_atome(suite[0]),
        autre != verbe,
    ensures
        apres_uid(texte, autre) is None,
{
    reveal_strlit("UID ");
    reveal_strlit("UID");
    let reste = seq![' '] + verbe + suite;
    assert(seq![' '] + texte =~= seq![' '] + "UID"@ + reste);
    lemme_atome("UID"@, reste);
    lemme_atome(verbe, suite);
}

proof fn lemme_verbes()
    ensures
        atome("MOVE"@),
        atome("COPY"@),
        atome("STORE"@),
        atome("EXPUNGE"@),
        "MOVE"@ != "COPY"@,
        "MOVE"@ != "STORE"@,
        "MOVE"@ != "EXPUNGE"@,
        "COPY"@ != "STORE"@,
        "COPY"@ != "EXPUNGE"@,
        "STORE"@ != "EXPUNGE"@,
{
    reveal_strlit("MOVE");
    reveal_strlit("COPY");
    reveal_strlit("STORE");
    reveal_strlit("EXPUNGE");
    assert("MOVE"@[0] == 'M' && "COPY"@[0] == 'C');
    assert("MOVE"@.len() == 4 && "COPY"@.len() == 4 && "STORE"@.len() == 5 && "EXPUNGE"@.len()
        == 7);
}

proof fn lemme_transport(verbe: Seq<char>, uids: Seq<u32>, cible: Seq<char>)
    requires
        uids.len() > 0,
        atome(verbe),
    ensures
        transport_lu("UID "@ + verbe + " "@ + ensemble(uids) + " "@ + citee(cible), verbe) == Some(
            (ensemble(uids), cible),
        ),
{
    reveal_strlit(" ");
    let vide = Seq::<char>::empty();
    let r2 = seq![' '] + citee(cible) + vide;
    let r1 = seq![' '] + ensemble(uids) + r2;
    assert("UID "@ + verbe + " "@ + ensemble(uids) + " "@ + citee(cible) =~= "UID "@ + verbe + r1);
    lemme_verbe_uid(verbe, r1);
    lemme_ensemble_atome(uids);
    lemme_atome(ensemble(uids), r2);
    lemme_cite(cible, vide);
}

proof fn lemme_servi_transport(s: Serveur, uids: Seq<u32>, cible: Seq<char>)
    requires
        uids.len() > 0,
    ensures
        servi(s, cmd_move(uids, cible)) == (Serveur {
            ouvert: autres(s.ouvert, ensemble(uids)),
            copies: s.copies.push((cible, designes(s.ouvert, ensemble(uids)))),
        }),
        servi(s, cmd_copy(uids, cible)) == (Serveur {
            copies: s.copies.push((cible, designes(s.ouvert, ensemble(uids)))),
            ..s
        }),
{
    reveal_strlit("UID ");
    reveal_strlit("UID MOVE ");
    reveal_strlit("UID COPY ");
    reveal_strlit("MOVE");
    reveal_strlit("COPY");
    reveal_strlit(" ");
    lemme_verbes();
    assert(cmd_move(uids, cible) =~= "UID "@ + "MOVE"@ + " "@ + ensemble(uids) + " "@ + citee(
        cible,
    ));
    assert(cmd_copy(uids, cible) =~= "UID "@ + "COPY"@ + " "@ + ensemble(uids) + " "@ + citee(
        cible,
    ));
    lemme_transport("MOVE"@, uids, cible);
    lemme_transport("COPY"@, uids, cible);
    let suite = " "@ + ensemble(uids) + " "@ + citee(cible);
    assert(cmd_copy(uids, cible) =~= "UID "@ + "COPY"@ + suite);
    lemme_autre_verbe(cmd_copy(uids, cible), "COPY"@, suite, "MOVE"@);
}

proof fn lemme_servi_retrait(s: Serveur, uids: Seq<u32>)
    requires
        uids.len() > 0,
    ensures
        servi(s, cmd_store(uids, "\\Deleted"@, true)) == (Serveur {
            ouvert: apres_store(s.ouvert, cmd_store(uids, "\\Deleted"@, true)),
            ..s
        }),
        expunge_lu(cmd_expunge(uids)) == Some(ensemble(uids)),
        transport_lu(cmd_expunge(uids), "MOVE"@) is None,
        transport_lu(cmd_expunge(uids), "COPY"@) is None,
{
    reveal_strlit("UID ");
    reveal_strlit("UID STORE ");
    reveal_strlit("UID EXPUNGE ");
    reveal_strlit("STORE");
    reveal_strlit("EXPUNGE");
    lemme_verbes();
    let vide = Seq::<char>::empty();
    let r1 = seq![' '] + ensemble(uids) + vide;
    let purge = cmd_expunge(uids);
    assert(purge =~= "UID "@ + "EXPUNGE"@ + r1);
    lemme_verbe_uid("EXPUNGE"@, r1);
    lemme_ensemble_atome(uids);
    lemme_atome(ensemble(uids), vide);
    lemme_autre_verbe(purge, "EXPUNGE"@, r1, "MOVE"@);
    lemme_autre_verbe(purge, "EXPUNGE"@, r1, "COPY"@);
    let marque = cmd_store(uids, "\\Deleted"@, true);
    let suite = marque.subrange(9, marque.len() as int);
    assert(marque =~= "UID "@ + "STORE"@ + suite);
    lemme_autre_verbe(marque, "STORE"@, suite, "MOVE"@);
    lemme_autre_verbe(marque, "STORE"@, suite, "COPY"@);
    lemme_autre_verbe(marque, "STORE"@, suite, "EXPUNGE"@);
}

/// A removal that the server accepts takes the messages away, these and no other;
/// where the server cannot purge designated messages, nothing is touched.
pub proof fn loi_suppression_servie(s: Serveur, capacites: Seq<Seq<char>>, uids: Seq<u32>)
    ensures
        ({
            let (t, r) = conduite(s, capacites, uids, debut_suppression(capacites, uids), 4);
            &&& t.copies == s.copies
            &&& uids.len() > 0 && !capacites.contains("UIDPLUS"@) ==> (r matches Some(
                Err(ErreurVue::Refuse(_)),
            ) && t == s)
            &&& uids.len() == 0 || capacites.contains("UIDPLUS"@) ==> {
                &&& r == Some(Ok::<(), ErreurVue>(()))
                &&& t.ouvert == s.ouvert.restrict(Set::new(|u: u32| !uids.contains(u)))
            }
        }),
{
    let debut = debut_suppression(capacites, uids);
    reveal_with_fuel(conduite, 5);
    if uids.len() == 0 {
        assert(s.ouvert.restrict(Set::new(|u: u32| !uids.contains(u))) =~= s.ouvert);
    } else if capacites.contains("UIDPLUS"@) {
        lemme_purge(s, uids);
    }
}

/// Messages marked as deleted and then purged are gone, and no other message is.
proof fn lemme_purge(s: Serveur, uids: Seq<u32>)
    requires
        uids.len() > 0,
    ensures
        servi(servi(s, cmd_store(uids, "\\Deleted"@, true)), cmd_expunge(uids)) == (Serveur {
            ouvert: s.ouvert.restrict(Set::new(|u: u32| !uids.contains(u))),
            ..s
        }),
{
    reveal_strlit("\\Deleted");
    let d = "\\Deleted"@;
    assert(drapeau_valide(d));
    lemme_servi_retrait(s, uids);
    let m = servi(s, cmd_store(uids, d, true));
    lemme_servi_retrait(m, uids);
    let p = servi(m, cmd_expunge(uids));
    let attendu = s.ouvert.restrict(Set::new(|u: u32| !uids.contains(u)));
    assert forall|u: u32| #[trigger] p.ouvert.dom().contains(u) <==> attendu.dom().contains(u) by {
        loi_ensemble_relu(uids, u);
        if s.ouvert.dom().contains(u) {
            loi_marquage_servi(s.ouvert, uids, d, true, u, d);
        } else {
            assert(!m.ouvert.dom().contains(u)) by {
                lemme_store(uids, d, true);
            }
        }
    }
    assert forall|u: u32| #[trigger] attendu.dom().contains(u) implies p.ouvert[u] == attendu[u] by {
        loi_ensemble_relu(uids, u);
        loi_marquage_servi(s.ouvert, uids, d, true, u, d);
        assert(p.ouvert.dom().contains(u));
    }
    assert(p.ouvert =~= attendu);
}

/// A move that the server accepts puts the messages in the target folder, once, and
/// takes them away from the open one, these and no other: whether the server moves
/// messages itself or copies and purges them. One that can do neither keeps them.
pub proof fn loi_deplacement_servi(
    s: Serveur,
    capacites: Seq<Seq<char>>,
    uids: Seq<u32>,
    cible: Seq<char>,
)
    requires
        uids.len() > 0,
    ensures
        ({
            let (t, r) = conduite(s, capacites, uids, debut_deplacement(capacites, uids, cible), 4);
            &&& t.copies == s.copies.push(
                (cible, s.ouvert.restrict(Set::new(|u: u32| uids.contains(u)))),
            )
            &&& if capacites.contains("MOVE"@) || capacites.contains("UIDPLUS"@) {
                &&& r == Some(Ok::<(), ErreurVue>(()))
                &&& t.ouvert == s.ouvert.restrict(Set::new(|u: u32| !uids.contains(u)))
            } else {
                r matches Some(Err(ErreurVue::Refuse(_))) && t.ouvert == s.ouvert
            }
        }),
{
    reveal_with_fuel(conduite, 5);
    lemme_servi_transport(s, uids, cible);
    let e = ensemble(uids);
    assert forall|u: u32| #[trigger] uids.contains(u) <==> couvre(
        intervalles_ecrits(e),
        u as int,
    ) by {
        loi_ensemble_relu(uids, u);
    }
    assert(designes(s.ouvert, e) =~= s.ouvert.restrict(Set::new(|u: u32| uids.contains(u))));
    assert(autres(s.ouvert, e) =~= s.ouvert.restrict(Set::new(|u: u32| !uids.contains(u))));
    if !capacites.contains("MOVE"@) && capacites.contains("UIDPLUS"@) {
        lemme_purge(servi(s, cmd_copy(uids, cible)), uids);
    }
}

// ------------------------------------------------------------------------- deposit

/// What an `APPEND` asks for: the folder, the flags, the internal date if one is
/// given, and the number of bytes to come.
pub open spec fn append_lu(texte: Seq<char>) -> Option<
    (Seq<char>, Seq<Seq<char>>, Option<Seq<char>>, nat),
> {
    match apres_verbe(seq![' '] + texte, "APPEND"@) {
        None => None,
        Some(r) => match argument(r) {
            None => None,
            Some((chemin, r)) => match parentheses(r) {
                None => None,
                Some((drapeaux, r)) => if r.len() >= 2 && r[1] == '"' {
                    match argument(r) {
                        None => None,
                        Some((date, r)) => match taille_annoncee(r) {
                            None => None,
                            Some(n) => Some((chemin, mots(drapeaux), Some(date), n)),
                        },
                    }
                } else {
                    match taille_annoncee(r) {
                        None => None,
                        Some(n) => Some((chemin, mots(drapeaux), None, n)),
                    }
                },
            },
        },
    }
}

proof fn lemme_drapeaux_joints(v: Seq<Seq<char>>)
    requires
        forall|i: int| 0 <= i < v.len() ==> drapeau_valide(#[trigger] v[i]),
    ensures
        !jointure(v, " "@).contains(')'),
        !jointure(v, " "@).contains('('),
    decreases v.len(),
{
    reveal_strlit(" ");
    let j = jointure(v, " "@);
    if v.len() == 1 {
        assert(drapeau_valide(v[0]));
    } else if v.len() > 1 {
        let w = v.drop_last();
        lemme_drapeaux_joints(w);
        assert(drapeau_valide(v[v.len() - 1]));
        let a = jointure(w, " "@);
        assert forall|i: int| 0 <= i < j.len() implies j[i] != ')' && j[i] != '(' by {
            if i < a.len() {
                assert(j[i] == a[i]);
                assert(a.contains(a[i]));
            } else if i > a.len() {
                assert(j[i] == v.last()[i - a.len() - 1]);
                assert(v.last().contains(v.last()[i - a.len() - 1]));
            }
        }
    }
}

proof fn lemme_taille(n: nat)
    ensures
        taille_annoncee(seq![' ', '{'] + decimal(n) + seq!['}']) == Some(n),
{
    lemme_decimal(n);
    let s = seq![' ', '{'] + decimal(n) + seq!['}'];
    assert(s.subrange(2, s.len() - 1) =~= decimal(n));
}

/// The server reads in a deposit the folder, the flags but for its own `\Recent`, the
/// date of reception where there is one, and the size: all as they were handed over.
#[verifier::spinoff_prover]
#[verifier::rlimit(60)]
pub proof fn loi_depot_servi(
    chemin: Seq<char>,
    drapeaux: Seq<Seq<char>>,
    date: Seq<char>,
    taille: nat,
)
    requires
        forall|i: int| 0 <= i < drapeaux.len() ==> drapeau_valide(#[trigger] drapeaux[i]),
    ensures
        append_lu(cmd_append(chemin, drapeaux, date, taille)) == Some(
            (
                chemin,
                drapeaux.filter(|d: Seq<char>| minuscules(d) != "\\recent"@),
                if date.len() > 0 {
                    Some(date)
                } else {
                    None
                },
                taille,
            ),
        ),
{
    reveal_strlit("APPEND ");
    reveal_strlit("APPEND");
    reveal_strlit(" (");
    reveal_strlit(")");
    reveal_strlit(" ");
    reveal_strlit(" {");
    reveal_strlit("}");
    reveal_strlit("\\Recent");
    reveal_strlit("\\recent");
    let p = |d: Seq<char>| minuscules(d) != "\\recent"@;
    assert(minuscules("\\Recent"@) =~= "\\recent"@);
    let v = drapeaux.filter(p);
    assert(drapeaux_deposables(drapeaux) == v) by {
        let q = |d: Seq<char>| minuscules(d) != minuscules("\\Recent"@);
        assert(p =~= q);
    }
    assert forall|i: int| 0 <= i < v.len() implies drapeau_valide(#[trigger] v[i]) by {
        assert(v.contains(v[i]));
        drapeaux.lemma_filter_contains_rev(p, v[i]);
    }
    lemme_drapeaux_joints(v);
    loi_mots_joints(v);
    let g = jointure(v, " "@);
    let fin = seq![' ', '{'] + decimal(taille) + seq!['}'];
    lemme_taille(taille);
    let r3 = if date.len() == 0 {
        fin
    } else {
        seq![' '] + citee(date) + fin
    };
    let r2 = seq![' ', '('] + g + seq![')'] + r3;
    let r1 = seq![' '] + citee(chemin) + r2;
    assert(seq![' '] + cmd_append(chemin, drapeaux, date, taille) =~= seq![' '] + "APPEND"@ + r1);
    lemme_atome("APPEND"@, r1);
    lemme_cite(chemin, r2);
    lemme_parentheses(g, r3);
    if date.len() > 0 {
        assert(r3[1] == '"');
        lemme_cite(date, fin);
    } else {
        assert(r3[1] == '{');
    }
}

/// Two deposits that differ by their date of reception, their folder or their size are
/// never announced by the same command.
pub proof fn loi_depots_distincts(
    a: (Seq<char>, Seq<char>, nat),
    b: (Seq<char>, Seq<char>, nat),
    drapeaux: Seq<Seq<char>>,
)
    requires
        forall|i: int| 0 <= i < drapeaux.len() ==> drapeau_valide(#[trigger] drapeaux[i]),
        cmd_append(a.0, drapeaux, a.1, a.2) == cmd_append(b.0, drapeaux, b.1, b.2),
    ensures
        a == b,
{
    loi_depot_servi(a.0, drapeaux, a.1, a.2);
    loi_depot_servi(b.0, drapeaux, b.1, b.2);
    assert(a.1 =~= b.1);
}

// ------------------------------------------------------------------------- opening

/// What a `SELECT` asks for: the folder, and the earlier visit to resume, by the
/// validity of its UIDs and the number of its last change.
pub open spec fn select_lu(texte: Seq<char>) -> Option<(Seq<char>, Option<(nat, nat)>)> {
    match apres_verbe(seq![' '] + texte, "SELECT"@) {
        None => None,
        Some(r) => match argument(r) {
            None => None,
            Some((chemin, r)) => if r.len() == 0 {
                Some((chemin, None))
            } else if r.len() > 2 && r[1] == '(' {
                match apres_verbe(seq![' '] + r.subrange(2, r.len() as int), "QRESYNC"@) {
                    None => None,
                    Some(q) => match parentheses(q) {
                        None => None,
                        Some((g, fin)) => {
                            let m = mots(g);
                            if fin == seq![')'] && m.len() == 2 && chiffres(m[0], 10) && chiffres(
                                m[1],
                                10,
                            ) {
                                Some((chemin, Some((valeur(m[0], 10), valeur(m[1], 10)))))
                            } else {
                                None
                            }
                        },
                    },
                }
            } else {
                None
            },
        },
    }
}

/// The server opens the folder that was asked for, and resumes the visit whose
/// validity and last change were noted: where it can, and where both are known.
#[verifier::spinoff_prover]
#[verifier::rlimit(60)]
pub proof fn loi_selection_servie(qresync: bool, chemin: Seq<char>, reprise: Option<(u32, u64)>)
    ensures
        select_lu(cmd_select(chemin, reprise_demandee(qresync, reprise))) == Some(
            (
                chemin,
                match reprise {
                    Some((validite, change)) => if qresync && validite > 0 && change > 0 {
                        Some((validite as nat, change as nat))
                    } else {
                        None
                    },
                    None => None,
                },
            ),
        ),
{
    reveal_strlit("SELECT ");
    reveal_strlit("SELECT");
    let vide = Seq::<char>::empty();
    match reprise_demandee(qresync, reprise) {
        None => {
            let r1 = seq![' '] + citee(chemin) + vide;
            assert(seq![' '] + cmd_select(chemin, None) =~= seq![' '] + "SELECT"@ + r1);
            lemme_atome("SELECT"@, r1);
            lemme_cite(chemin, vide);
        },
        Some((v, m)) => {
            reveal_strlit(" (QRESYNC (");
            reveal_strlit("QRESYNC");
            reveal_strlit(" ");
            reveal_strlit("))");
            let a = decimal(v as nat);
            let b = decimal(m as nat);
            lemme_decimal(v as nat);
            lemme_decimal(m as nat);
            let g = a + " "@ + b;
            let q = seq![' ', '('] + g + seq![')'] + seq![')'];
            let r2 = seq![' ', '('] + "QRESYNC"@ + q;
            let r1 = seq![' '] + citee(chemin) + r2;
            assert(seq![' '] + cmd_select(chemin, Some((v, m))) =~= seq![' '] + "SELECT"@ + r1);
            lemme_atome("SELECT"@, r1);
            lemme_cite(chemin, r2);
            assert(r2[1] == '(');
            assert(seq![' '] + r2.subrange(2, r2.len() as int) =~= seq![' '] + "QRESYNC"@ + q);
            lemme_atome("QRESYNC"@, q);
            assert(!g.contains(')')) by {
                assert forall|i: int| 0 <= i < g.len() implies g[i] != ')' by {
                    if i < a.len() {
                        assert(g[i] == a[i]);
                    } else if i > a.len() {
                        assert(g[i] == b[i - a.len() - 1]);
                    }
                }
            }
            lemme_parentheses(g, seq![')']);
            let w = seq![a, b];
            assert(jointure(w, " "@) =~= g) by {
                assert(w.drop_last() =~= seq![a]);
                assert(jointure(w.drop_last(), " "@) == a);
            }
            assert(mot(w[0]) && mot(w[1]));
            loi_mots_joints(w);
        },
    }
}

/// What a command with one argument asks for.
pub open spec fn seul_argument(texte: Seq<char>, verbe: Seq<char>) -> Option<Seq<char>> {
    match apres_verbe(seq![' '] + texte, verbe) {
        None => None,
        Some(r) => match argument(r) {
            Some((a, fin)) => if fin.len() == 0 {
                Some(a)
            } else {
                None
            },
            None => None,
        },
    }
}

/// What a command with two arguments asks for.
pub open spec fn deux_arguments(texte: Seq<char>, verbe: Seq<char>) -> Option<
    (Seq<char>, Seq<char>),
> {
    match apres_verbe(seq![' '] + texte, verbe) {
        None => None,
        Some(r) => match argument(r) {
            Some((a, r)) => match argument(r) {
                Some((b, fin)) => if fin.len() == 0 {
                    Some((a, b))
                } else {
                    None
                },
                None => None,
            },
            None => None,
        },
    }
}

/// The server reads the user and the password that were handed over, whatever they
/// hold.
pub proof fn loi_identification_servie(utilisateur: Seq<char>, mot_de_passe: Seq<char>)
    ensures
        deux_arguments(cmd_login(utilisateur, mot_de_passe), "LOGIN"@) == Some(
            (utilisateur, mot_de_passe),
        ),
{
    reveal_strlit("LOGIN ");
    reveal_strlit("LOGIN");
    reveal_strlit(" ");
    let vide = Seq::<char>::empty();
    let r2 = seq![' '] + citee(mot_de_passe) + vide;
    let r1 = seq![' '] + citee(utilisateur) + r2;
    assert(seq![' '] + cmd_login(utilisateur, mot_de_passe) =~= seq![' '] + "LOGIN"@ + r1);
    lemme_atome("LOGIN"@, r1);
    lemme_cite(utilisateur, r2);
    lemme_cite(mot_de_passe, vide);
}

/// The server opens for reading only the folder that was asked for.
pub proof fn loi_examen_servi(chemin: Seq<char>)
    ensures
        seul_argument(cmd_examine(chemin), "EXAMINE"@) == Some(chemin),
{
    reveal_strlit("EXAMINE ");
    reveal_strlit("EXAMINE");
    let vide = Seq::<char>::empty();
    let r1 = seq![' '] + citee(chemin) + vide;
    assert(seq![' '] + cmd_examine(chemin) =~= seq![' '] + "EXAMINE"@ + r1);
    lemme_atome("EXAMINE"@, r1);
    lemme_cite(chemin, vide);
}

/// What a `STATUS` asks for: the folder, and the counters.
pub open spec fn status_lu(texte: Seq<char>) -> Option<(Seq<char>, Seq<Seq<char>>)> {
    match apres_verbe(seq![' '] + texte, "STATUS"@) {
        None => None,
        Some(r) => match argument(r) {
            Some((chemin, r)) => match parentheses(r) {
                Some((g, fin)) => if fin.len() == 0 {
                    Some((chemin, mots(g)))
                } else {
                    None
                },
                None => None,
            },
            None => None,
        },
    }
}

/// The server counts the messages and the unread ones of the folder that was asked
/// for.
#[verifier::spinoff_prover]
#[verifier::rlimit(60)]
pub proof fn loi_compteurs_servis(chemin: Seq<char>)
    ensures
        status_lu(cmd_status(chemin)) == Some((chemin, seq!["MESSAGES"@, "UNSEEN"@])),
{
    reveal_strlit("STATUS ");
    reveal_strlit("STATUS");
    reveal_strlit(" (MESSAGES UNSEEN)");
    reveal_strlit("MESSAGES");
    reveal_strlit("UNSEEN");
    reveal_strlit(" ");
    let vide = Seq::<char>::empty();
    let w = seq!["MESSAGES"@, "UNSEEN"@];
    let g = "MESSAGES"@ + " "@ + "UNSEEN"@;
    let r2 = seq![' ', '('] + g + seq![')'] + vide;
    let r1 = seq![' '] + citee(chemin) + r2;
    assert(seq![' '] + cmd_status(chemin) =~= seq![' '] + "STATUS"@ + r1);
    lemme_atome("STATUS"@, r1);
    lemme_cite(chemin, r2);
    lemme_parentheses(g, vide);
    assert(jointure(w, " "@) =~= g) by {
        assert(w.drop_last() =~= seq!["MESSAGES"@]);
        assert(jointure(w.drop_last(), " "@) == "MESSAGES"@);
    }
    assert(mot(w[0]) && mot(w[1]));
    loi_mots_joints(w);
}

/// What a `UID SEARCH HEADER` asks for: the field and the value.
pub open spec fn search_lu(texte: Seq<char>) -> Option<(Seq<char>, Seq<char>)> {
    match apres_uid(texte, "SEARCH"@) {
        None => None,
        Some(r) => match apres_verbe(r, "HEADER"@) {
            None => None,
            Some(r) => match argument(r) {
                Some((champ, r)) => match argument(r) {
                    Some((v, fin)) => if fin.len() == 0 {
                        Some((champ, v))
                    } else {
                        None
                    },
                    None => None,
                },
                None => None,
            },
        },
    }
}

/// The server looks for the `Message-ID` that was asked for.
#[verifier::spinoff_prover]
#[verifier::rlimit(60)]
pub proof fn loi_recherche_servie(message_id: Seq<char>)
    ensures
        search_lu(cmd_search(message_id)) == Some(("Message-ID"@, message_id)),
{
    reveal_strlit("UID ");
    reveal_strlit("UID SEARCH HEADER Message-ID ");
    reveal_strlit("SEARCH");
    reveal_strlit("HEADER");
    reveal_strlit("Message-ID");
    let vide = Seq::<char>::empty();
    let r3 = seq![' '] + citee(message_id) + vide;
    let r2 = seq![' '] + "Message-ID"@ + r3;
    let r1 = seq![' '] + "HEADER"@ + r2;
    assert(cmd_search(message_id) =~= "UID "@ + "SEARCH"@ + r1);
    lemme_verbe_uid("SEARCH"@, r1);
    lemme_atome("HEADER"@, r2);
    lemme_atome("Message-ID"@, r3);
    lemme_cite(message_id, vide);
}

// ------------------------------------------------------------------------- reading

/// What a `UID FETCH` asks for: the set of UIDs, and the words of the list of items.
pub open spec fn fetch_lu(texte: Seq<char>) -> Option<(Seq<char>, Seq<Seq<char>>)> {
    match apres_uid(texte, "FETCH"@) {
        None => None,
        Some(r) => match argument(r) {
            None => None,
            Some((uids, r)) => if r.len() >= 3 && r[0] == ' ' && r[1] == '(' && r.last() == ')' {
                Some((uids, mots(r.subrange(2, r.len() - 1))))
            } else {
                None
            },
        },
    }
}

/// Whether an item makes the server take the message for read.
pub open spec fn fait_lire(item: Seq<char>) -> bool {
    ||| item.len() >= 5 && item.subrange(0, 5) == "BODY["@
    ||| item == "RFC822"@
    ||| item == "RFC822.TEXT"@
}

/// The folder once the server has done what a `UID FETCH` asks for.
pub open spec fn apres_fetch(c: Contenu, texte: Seq<char>) -> Contenu {
    match fetch_lu(texte) {
        Some((uids, items)) => if exists|i: int| 0 <= i < items.len() && fait_lire(#[trigger] items[i]) {
            Map::new(
                |u: u32| c.dom().contains(u),
                |u: u32|
                    if couvre(intervalles_ecrits(uids), u as int) {
                        c[u].insert("\\Seen"@)
                    } else {
                        c[u]
                    },
            )
        } else {
            c
        },
        None => c,
    }
}

proof fn lemme_joint(v: Seq<Seq<char>>, x: Seq<char>)
    requires
        v.len() > 0,
    ensures
        jointure(v.push(x), " "@) == jointure(v, " "@) + " "@ + x,
{
    assert(v.push(x).drop_last() =~= v);
}

proof fn lemme_fetch(uids: Seq<char>, items: Seq<Seq<char>>)
    requires
        atome(uids),
        items.len() > 0,
        forall|i: int| 0 <= i < items.len() ==> mot(#[trigger] items[i]),
    ensures
        fetch_lu("UID FETCH "@ + uids + " ("@ + jointure(items, " "@) + ")"@) == Some((uids, items)),
{
    reveal_strlit("UID ");
    reveal_strlit("UID FETCH ");
    reveal_strlit("FETCH");
    reveal_strlit(" (");
    reveal_strlit(")");
    let j = jointure(items, " "@);
    loi_mots_joints(items);
    assert(j.len() > 0) by {
        if j.len() == 0 {
            assert(j =~= Seq::empty());
            assert(mots(j) =~= Seq::empty());
        }
    }
    let r2 = seq![' ', '('] + j + seq![')'];
    let r1 = seq![' '] + uids + r2;
    assert("UID FETCH "@ + uids + " ("@ + j + ")"@ =~= "UID "@ + "FETCH"@ + r1);
    lemme_verbe_uid("FETCH"@, r1);
    lemme_atome(uids, r2);
    assert(r2.subrange(2, r2.len() - 1) =~= j);
}

proof fn lemme_items()
    ensures
        fait_lire("BODY.PEEK[]"@) == false,
        mot("BODY.PEEK[]"@),
        " (BODY.PEEK[])"@ == " ("@ + jointure(seq!["BODY.PEEK[]"@], " "@) + ")"@,
        mot("UID"@) && !fait_lire("UID"@),
        mot("FLAGS"@) && !fait_lire("FLAGS"@),
        mot("INTERNALDATE"@) && !fait_lire("INTERNALDATE"@),
        mot("RFC822.SIZE"@) && !fait_lire("RFC822.SIZE"@),
        mot("BODY.PEEK[HEADER.FIELDS"@) && !fait_lire("BODY.PEEK[HEADER.FIELDS"@),
        mot("(FROM"@) && !fait_lire("(FROM"@),
        mot("TO"@) && !fait_lire("TO"@),
        mot("CC"@) && !fait_lire("CC"@),
        mot("SUBJECT"@) && !fait_lire("SUBJECT"@),
        mot("DATE"@) && !fait_lire("DATE"@),
        mot("MESSAGE-ID"@) && !fait_lire("MESSAGE-ID"@),
        mot("IN-REPLY-TO"@) && !fait_lire("IN-REPLY-TO"@),
        mot("REFERENCES)]"@) && !fait_lire("REFERENCES)]"@),
{
    reveal_strlit("BODY[");
    reveal_strlit("RFC822");
    reveal_strlit("RFC822.TEXT");
    reveal_strlit("BODY.PEEK[]");
    reveal_strlit(" (BODY.PEEK[])");
    reveal_strlit(" (");
    reveal_strlit(")");
    assert(" (BODY.PEEK[])"@ =~= " ("@ + "BODY.PEEK[]"@ + ")"@);
    assert("BODY["@[4] == '[');
    assert("BODY.PEEK[]"@.subrange(0, 5)[4] == '.');
    reveal_strlit("UID");
    reveal_strlit("FLAGS");
    reveal_strlit("INTERNALDATE");
    reveal_strlit("RFC822.SIZE");
    reveal_strlit("BODY.PEEK[HEADER.FIELDS");
    reveal_strlit("(FROM");
    reveal_strlit("TO");
    reveal_strlit("CC");
    reveal_strlit("SUBJECT");
    reveal_strlit("DATE");
    reveal_strlit("MESSAGE-ID");
    reveal_strlit("IN-REPLY-TO");
    reveal_strlit("REFERENCES)]");
    assert("BODY.PEEK[HEADER.FIELDS"@.subrange(0, 5)[4] == '.');
    assert("BODY["@[0] == 'B');
    assert("RFC822.SIZE"@[7] == 'S' && "RFC822.TEXT"@[7] == 'T');
    assert("FLAGS"@.subrange(0, 5)[0] == 'F');
    assert("INTERNALDATE"@.subrange(0, 5)[0] == 'I');
    assert("RFC822.SIZE"@.subrange(0, 5)[0] == 'R');
    assert("(FROM"@.subrange(0, 5)[0] == '(');
    assert("SUBJECT"@.subrange(0, 5)[0] == 'S');
    assert("MESSAGE-ID"@.subrange(0, 5)[0] == 'M');
    assert("IN-REPLY-TO"@.subrange(0, 5)[0] == 'I');
    assert("REFERENCES)]"@.subrange(0, 5)[0] == 'R');
}

/// The server gives the message that was asked for, whole, and its flags and date of
/// reception where they are; and no reading marks it as read.
pub proof fn loi_lecture_servie(uid: u32, c: Contenu)
    ensures
        fetch_lu(cmd_corps(uid)) == Some((decimal(uid as nat), seq!["BODY.PEEK[]"@])),
        fetch_lu(cmd_message(uid)) == Some(
            (decimal(uid as nat), seq!["UID"@, "FLAGS"@, "INTERNALDATE"@, "BODY.PEEK[]"@]),
        ),
        apres_fetch(c, cmd_corps(uid)) == c,
        apres_fetch(c, cmd_message(uid)) == c,
{
    lemme_decimal(uid as nat);
    let d = decimal(uid as nat);
    assert(atome(d));
    lemme_items();
    let un = seq!["BODY.PEEK[]"@];
    assert(mot(un[0]));
    lemme_fetch(d, un);
    assert(cmd_corps(uid) =~= "UID FETCH "@ + d + " ("@ + jointure(un, " "@) + ")"@);
    let a = seq!["UID"@];
    let b = a.push("FLAGS"@);
    let e = b.push("INTERNALDATE"@);
    let tous = e.push("BODY.PEEK[]"@);
    assert(tous =~= seq!["UID"@, "FLAGS"@, "INTERNALDATE"@, "BODY.PEEK[]"@]);
    lemme_joint(a, "FLAGS"@);
    lemme_joint(b, "INTERNALDATE"@);
    lemme_joint(e, "BODY.PEEK[]"@);
    reveal_strlit(" (UID FLAGS INTERNALDATE BODY.PEEK[])");
    reveal_strlit(" ");
    reveal_strlit(" (");
    reveal_strlit(")");
    reveal_strlit("UID");
    reveal_strlit("FLAGS");
    reveal_strlit("INTERNALDATE");
    reveal_strlit("BODY.PEEK[]");
    assert(" (UID FLAGS INTERNALDATE BODY.PEEK[])"@ =~= " ("@ + jointure(tous, " "@) + ")"@);
    assert forall|i: int| 0 <= i < tous.len() implies mot(#[trigger] tous[i]) && !fait_lire(
        tous[i],
    ) by {
        assert(i == 0 || i == 1 || i == 2 || i == 3);
    }
    lemme_fetch(d, tous);
    assert(cmd_message(uid) =~= "UID FETCH "@ + d + " ("@ + jointure(tous, " "@) + ")"@);
}

/// The items that the headers of messages are asked for with.
pub open spec fn items_entetes() -> Seq<Seq<char>> {
    seq![
        "UID"@,
        "FLAGS"@,
        "INTERNALDATE"@,
        "RFC822.SIZE"@,
        "BODY.PEEK[HEADER.FIELDS"@,
        "(FROM"@,
        "TO"@,
        "CC"@,
        "SUBJECT"@,
        "DATE"@,
        "MESSAGE-ID"@,
        "IN-REPLY-TO"@,
        "REFERENCES)]"@,
    ]
}

/// The server gives of each message of the set its UID, its flags, its date of
/// reception, its size and the fields of its header that the index shows; and this
/// marks none as read.
pub proof fn loi_entetes_servis(uids: Seq<char>, c: Contenu)
    requires
        atome(uids),
    ensures
        fetch_lu(cmd_entetes(uids)) == Some((uids, items_entetes())),
        apres_fetch(c, cmd_entetes(uids)) == c,
{
    lemme_items();
    let v0 = seq!["UID"@];
    let v1 = v0.push("FLAGS"@);
    lemme_joint(v0, "FLAGS"@);
    let v2 = v1.push("INTERNALDATE"@);
    lemme_joint(v1, "INTERNALDATE"@);
    let v3 = v2.push("RFC822.SIZE"@);
    lemme_joint(v2, "RFC822.SIZE"@);
    let v4 = v3.push("BODY.PEEK[HEADER.FIELDS"@);
    lemme_joint(v3, "BODY.PEEK[HEADER.FIELDS"@);
    let v5 = v4.push("(FROM"@);
    lemme_joint(v4, "(FROM"@);
    let v6 = v5.push("TO"@);
    lemme_joint(v5, "TO"@);
    let v7 = v6.push("CC"@);
    lemme_joint(v6, "CC"@);
    let v8 = v7.push("SUBJECT"@);
    lemme_joint(v7, "SUBJECT"@);
    let v9 = v8.push("DATE"@);
    lemme_joint(v8, "DATE"@);
    let v10 = v9.push("MESSAGE-ID"@);
    lemme_joint(v9, "MESSAGE-ID"@);
    let v11 = v10.push("IN-REPLY-TO"@);
    lemme_joint(v10, "IN-REPLY-TO"@);
    let v12 = v11.push("REFERENCES)]"@);
    lemme_joint(v11, "REFERENCES)]"@);
    let tous = items_entetes();
    assert(tous =~= v12);
    reveal_strlit(" (UID FLAGS INTERNALDATE RFC822.SIZE BODY.PEEK[HEADER.FIELDS (FROM TO CC SUBJECT DATE MESSAGE-ID IN-REPLY-TO REFERENCES)])");
    reveal_strlit(" ");
    reveal_strlit(" (");
    reveal_strlit(")");
    reveal_strlit("UID");
    reveal_strlit("FLAGS");
    reveal_strlit("INTERNALDATE");
    reveal_strlit("RFC822.SIZE");
    reveal_strlit("BODY.PEEK[HEADER.FIELDS");
    reveal_strlit("(FROM");
    reveal_strlit("TO");
    reveal_strlit("CC");
    reveal_strlit("SUBJECT");
    reveal_strlit("DATE");
    reveal_strlit("MESSAGE-ID");
    reveal_strlit("IN-REPLY-TO");
    reveal_strlit("REFERENCES)]");
    assert(" (UID FLAGS INTERNALDATE RFC822.SIZE BODY.PEEK[HEADER.FIELDS (FROM TO CC SUBJECT DATE MESSAGE-ID IN-REPLY-TO REFERENCES)])"@
        =~= " ("@ + jointure(tous, " "@) + ")"@);
    assert forall|i: int| 0 <= i < tous.len() implies mot(#[trigger] tous[i]) && !fait_lire(
        tous[i],
    ) by {
        assert(i == 0 || i == 1 || i == 2 || i == 3 || i == 4 || i == 5 || i == 6 || i == 7 || i
            == 8 || i == 9 || i == 10 || i == 11 || i == 12);
    }
    lemme_fetch(uids, tous);
    assert(cmd_entetes(uids) =~= "UID FETCH "@ + uids + " ("@ + jointure(tous, " "@) + ")"@);
}

/// The flags that are compared with the index are those of all messages, each with its
/// UID, and asking for them marks none as read.
pub proof fn loi_drapeaux_demandes(c: Contenu)
    ensures
        fetch_lu(cmd_drapeaux()) == Some(("1:*"@, seq!["UID"@, "FLAGS"@])),
        apres_fetch(c, cmd_drapeaux()) == c,
{
    lemme_items();
    let a = seq!["UID"@];
    let tous = a.push("FLAGS"@);
    assert(tous =~= seq!["UID"@, "FLAGS"@]);
    lemme_joint(a, "FLAGS"@);
    reveal_strlit("UID FETCH 1:* (UID FLAGS)");
    reveal_strlit("UID FETCH ");
    reveal_strlit("1:*");
    reveal_strlit(" ");
    reveal_strlit(" (");
    reveal_strlit(")");
    reveal_strlit("UID");
    reveal_strlit("FLAGS");
    assert(atome("1:*"@));
    assert forall|i: int| 0 <= i < tous.len() implies mot(#[trigger] tous[i]) && !fait_lire(
        tous[i],
    ) by {
        assert(i == 0 || i == 1);
    }
    lemme_fetch("1:*"@, tous);
    assert(cmd_drapeaux() =~= "UID FETCH "@ + "1:*"@ + " ("@ + jointure(tous, " "@) + ")"@);
}

// ---------------------------------------------------------------------------- tree

/// What a `LIST` asks for: from where, which folders, and what to return with them.
pub open spec fn list_lu(texte: Seq<char>) -> Option<(Seq<char>, Seq<char>, Seq<Seq<char>>)> {
    match apres_verbe(seq![' '] + texte, "LIST"@) {
        None => None,
        Some(r) => match argument(r) {
            None => None,
            Some((de, r)) => match argument(r) {
                None => None,
                Some((motif, r)) => if r.len() == 0 {
                    Some((de, motif, Seq::empty()))
                } else {
                    match apres_verbe(r, "RETURN"@) {
                        None => None,
                        Some(q) => if q.len() >= 3 && q[0] == ' ' && q[1] == '(' && q.last()
                            == ')' {
                            Some((de, motif, mots(q.subrange(2, q.len() - 1))))
                        } else {
                            None
                        },
                    }
                },
            },
        },
    }
}

proof fn lemme_list(suite: Seq<char>)
    requires
        suite.len() > 0 ==> suite[0] == ' ',
    ensures
        ({
            let r = seq![' '] + citee(Seq::empty()) + (seq![' '] + citee(seq!['*']) + suite);
            &&& apres_verbe(seq![' '] + (cmd_list() + suite), "LIST"@) == Some(r)
            &&& argument(r) == Some((Seq::<char>::empty(), seq![' '] + citee(seq!['*']) + suite))
            &&& argument(seq![' '] + citee(seq!['*']) + suite) == Some((seq!['*'], suite))
        }),
{
    reveal_strlit("LIST");
    reveal_strlit("LIST \"\" \"*\"");
    let vide = Seq::<char>::empty();
    let q = seq![' '] + citee(seq!['*']) + suite;
    let r = seq![' '] + citee(vide) + q;
    assert(protege(vide) =~= vide);
    assert(citee(vide) =~= seq!['"', '"']);
    lemme_protege_premier(seq!['*']);
    assert(seq!['*'].drop_first() =~= vide);
    assert(protege(seq!['*']) =~= seq!['*']);
    assert(citee(seq!['*']) =~= seq!['"', '*', '"']);
    assert(seq![' '] + (cmd_list() + suite) =~= seq![' '] + "LIST"@ + r);
    assert(r[0] == ' ');
    lemme_atome("LIST"@, r);
    lemme_cite(vide, q);
    lemme_cite(seq!['*'], suite);
}

proof fn lemme_retour(items: Seq<Seq<char>>, suite: Seq<char>)
    requires
        items.len() > 0,
        forall|i: int| 0 <= i < items.len() ==> mot(#[trigger] items[i]),
        suite == " RETURN ("@ + jointure(items, " "@) + ")"@,
    ensures
        list_lu(cmd_list() + suite) == Some((Seq::<char>::empty(), seq!['*'], items)),
{
    reveal_strlit(" RETURN (");
    reveal_strlit("RETURN");
    reveal_strlit(")");
    let j = jointure(items, " "@);
    loi_mots_joints(items);
    let q = seq![' ', '('] + j + seq![')'];
    assert(suite =~= seq![' '] + "RETURN"@ + q);
    lemme_list(suite);
    lemme_atome("RETURN"@, q);
    assert(q.subrange(2, q.len() - 1) =~= j);
}

/// The server is asked for all folders, from the top; where it can, with the messages and
/// the unread ones of each, and with their special uses where it knows them.
pub proof fn loi_liste_servie()
    ensures
        list_lu(cmd_list()) == Some((Seq::<char>::empty(), seq!['*'], Seq::<Seq<char>>::empty())),
        list_lu(cmd_releve(false)) == Some(
            (Seq::<char>::empty(), seq!['*'], seq!["STATUS"@, "(MESSAGES"@, "UNSEEN)"@]),
        ),
        list_lu(cmd_releve(true)) == Some(
            (
                Seq::<char>::empty(),
                seq!['*'],
                seq!["SPECIAL-USE"@, "STATUS"@, "(MESSAGES"@, "UNSEEN)"@],
            ),
        ),
{
    let vide = Seq::<char>::empty();
    lemme_list(vide);
    assert(cmd_list() + vide =~= cmd_list());
    reveal_strlit("STATUS");
    reveal_strlit("(MESSAGES");
    reveal_strlit("UNSEEN)");
    reveal_strlit("SPECIAL-USE");
    let a = seq!["STATUS"@];
    let b = a.push("(MESSAGES"@);
    let c = b.push("UNSEEN)"@);
    assert(c =~= seq!["STATUS"@, "(MESSAGES"@, "UNSEEN)"@]);
    lemme_joint(a, "(MESSAGES"@);
    lemme_joint(b, "UNSEEN)"@);
    let d = seq!["SPECIAL-USE"@];
    let e = d.push("STATUS"@);
    let f = e.push("(MESSAGES"@);
    let g = f.push("UNSEEN)"@);
    assert(g =~= seq!["SPECIAL-USE"@, "STATUS"@, "(MESSAGES"@, "UNSEEN)"@]);
    lemme_joint(d, "STATUS"@);
    lemme_joint(e, "(MESSAGES"@);
    lemme_joint(f, "UNSEEN)"@);
    assert(mot("STATUS"@) && mot("(MESSAGES"@) && mot("UNSEEN)"@) && mot("SPECIAL-USE"@));
    assert forall|i: int| 0 <= i < c.len() implies mot(#[trigger] c[i]) by {
        assert(i == 0 || i == 1 || i == 2);
    }
    assert forall|i: int| 0 <= i < g.len() implies mot(#[trigger] g[i]) by {
        assert(i == 0 || i == 1 || i == 2 || i == 3);
    }
    let x = " RETURN ("@ + jointure(c, " "@) + ")"@;
    let y = " RETURN ("@ + jointure(g, " "@) + ")"@;
    lemme_retour(c, x);
    lemme_retour(g, y);
    reveal_strlit(" RETURN (");
    reveal_strlit(")");
    reveal_strlit(" ");
    reveal_strlit("LIST \"\" \"*\"");
    reveal_strlit("LIST \"\" \"*\" RETURN (SPECIAL-USE STATUS (MESSAGES UNSEEN))");
    reveal_strlit("LIST \"\" \"*\" RETURN (STATUS (MESSAGES UNSEEN))");
    assert(cmd_releve(false) =~= cmd_list() + x);
    assert(cmd_releve(true) =~= cmd_list() + y);
}

/// What vanished is told once the server was asked to: by the name of the extension.
pub proof fn loi_activation_servie()
    ensures
        seul_argument(cmd_activation(), "ENABLE"@) == Some("QRESYNC"@),
{
    reveal_strlit("ENABLE QRESYNC");
    reveal_strlit("ENABLE");
    reveal_strlit("QRESYNC");
    let vide = Seq::<char>::empty();
    let r = seq![' '] + "QRESYNC"@ + vide;
    assert(seq![' '] + cmd_activation() =~= seq![' '] + "ENABLE"@ + r);
    lemme_atome("ENABLE"@, r);
    lemme_atome("QRESYNC"@, vide);
}

/// Where the counters are asked for folder by folder, each folder that can be opened has
/// its turn, in order, and no other.
pub proof fn loi_chacun_son_tour(ds: Seq<DossierVue>, rang: int, k: int)
    requires
        0 <= rang,
    ensures
        match prochain_ouvrable(ds, rang) {
            Some(n) => {
                &&& rang <= n < ds.len()
                &&& ouvrable(ds[n].attributs)
                &&& rang <= k < n ==> !ouvrable(ds[k].attributs)
            },
            None => rang <= k < ds.len() ==> !ouvrable(ds[k].attributs),
        },
    decreases ds.len() - rang,
{
    if rang < ds.len() && !ouvrable(ds[rang].attributs) {
        loi_chacun_son_tour(ds, rang + 1, k);
    }
}

} // verus!
