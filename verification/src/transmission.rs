//! What a server sends, byte by byte, and what is read of it.

use vstd::prelude::*;

use crate::flux::{
    bout_de_ligne, conclusion, fin_ligne, invitation, lecture, lecture_neuve, ligne_marquee,
    litteral_annonce, pas_lecture, suite_des, suite_en, texte_des_octets, ErreurVue, LectureVue,
    Pas, ReponseVue,
};
use crate::nombre::{decimal, lemme_decimal};
use crate::protocole::MARQUEUR;
use crate::texte::{blanc, debute, sans_blancs, sans_blancs_debut, sans_blancs_fin, sans_fin};

verus! {

// ---------------------------------------------------------------------------- lines

/// Bytes that no end of line breaks.
pub open spec fn d_un_trait(o: Seq<u8>) -> bool {
    forall|i: int| 0 <= i < o.len() ==> #[trigger] o[i] != 13 && o[i] != 10
}

/// What a server sends of a line: its bytes and the end of the line.
pub open spec fn envoi(o: Seq<u8>, suite: Seq<u8>) -> Seq<u8> {
    o + seq![13u8, 10u8] + suite
}

proof fn lemme_bout_des(o: Seq<u8>, suite: Seq<u8>, i: int)
    requires
        d_un_trait(o),
        0 <= i <= o.len(),
    ensures
        suite_des(envoi(o, suite), fin_ligne(), i) == Some(o.len() as int),
    decreases o.len() - i,
{
    let r = envoi(o, suite);
    let n = o.len() as int;
    if i == n {
        assert(r.subrange(n, n + 2) =~= fin_ligne());
        assert(suite_en(r, fin_ligne(), n));
    } else {
        if suite_en(r, fin_ligne(), i) {
            assert(r.subrange(i, i + 2)[0] == o[i]);
        }
        lemme_bout_des(o, suite, i + 1);
    }
}

proof fn lemme_bout(o: Seq<u8>, suite: Seq<u8>)
    requires
        d_un_trait(o),
    ensures
        bout_de_ligne(envoi(o, suite)) == Some(o.len() as int),
        envoi(o, suite).subrange(0, o.len() as int) == o,
        envoi(o, suite).subrange(o.len() as int + 2, envoi(o, suite).len() as int) == suite,
{
    lemme_bout_des(o, suite, 0);
    assert(envoi(o, suite).subrange(0, o.len() as int) =~= o);
    assert(envoi(o, suite).subrange(o.len() as int + 2, envoi(o, suite).len() as int) =~= suite);
}

// ------------------------------------------------------------------------- literals

/// A line that announces a literal of `n` bytes.
pub open spec fn annonce(avant: Seq<char>, n: nat) -> Seq<char> {
    avant + seq!['{'] + decimal(n) + seq!['}']
}

/// The size of a literal is the one that the line announces, whatever comes before the
/// announcement; the announcement then gives way to a mark.
pub proof fn loi_litteral_annonce(avant: Seq<char>, n: nat, rang: nat)
    requires
        n <= usize::MAX,
    ensures
        litteral_annonce(annonce(avant, n)) == Some(n),
        ligne_marquee(annonce(avant, n), rang) == avant + seq![MARQUEUR] + decimal(rang) + seq![
            MARQUEUR,
        ],
{
    let l = annonce(avant, n);
    let d = decimal(n);
    let k = avant.len() as int;
    lemme_decimal(n);
    reveal_strlit("}");
    assert(l.last() == '}');
    assert(sans_blancs_fin(l) == l);
    assert(l[k] == '{');
    l.index_of_last_ensures('{');
    let j = l.index_of_last('{')->0;
    assert(j == k) by {
        assert(l.contains('{'));
        if j > k {
            if j < l.len() - 1 {
                assert(l[j] == d[j - k - 1]);
            }
        }
    }
    let r = l.subrange(k + 1, l.len() as int);
    assert(r =~= d + seq!['}']);
    assert(r.subrange(r.len() - 1, r.len() as int) =~= "}"@);
    assert(r.subrange(0, r.len() - 1) =~= d);
    assert('0' <= d[d.len() - 1] <= '9');
    assert(sans_fin(d, '+') == d);
    assert(l.subrange(0, k) =~= avant);
}

/// The bytes of a literal are kept as they were sent, whatever they are, and the reading
/// of the line goes on after them.
pub proof fn loi_litteral_lu(
    l: LectureVue,
    etiquette: Seq<char>,
    o: Seq<u8>,
    avant: Seq<char>,
    contenu: Seq<u8>,
    suite: Seq<u8>,
)
    requires
        l.attendu is None,
        l.reste == envoi(o, contenu + suite),
        d_un_trait(o),
        l.ligne + texte_des_octets(o) == annonce(avant, contenu.len()),
        contenu.len() <= usize::MAX,
    ensures
        lecture(l, etiquette) == lecture(
            LectureVue {
                litteraux: l.litteraux.push(contenu),
                ligne: avant + seq![MARQUEUR] + decimal(l.litteraux.len()) + seq![MARQUEUR],
                reste: suite,
                ..l
            },
            etiquette,
        ),
{
    lemme_bout(o, contenu + suite);
    loi_litteral_annonce(avant, contenu.len(), l.litteraux.len());
    let m = LectureVue {
        ligne: annonce(avant, contenu.len()),
        attendu: Some(contenu.len() as usize),
        reste: contenu + suite,
        ..l
    };
    assert(pas_lecture(l, etiquette) == Pas::Suivre(m));
    assert((contenu + suite).subrange(0, contenu.len() as int) =~= contenu);
    assert((contenu + suite).subrange(contenu.len() as int, (contenu + suite).len() as int)
        =~= suite);
    let n = LectureVue {
        litteraux: l.litteraux.push(contenu),
        ligne: avant + seq![MARQUEUR] + decimal(l.litteraux.len()) + seq![MARQUEUR],
        reste: suite,
        ..l
    };
    assert(pas_lecture(m, etiquette) == Pas::Suivre(n));
    assert(lecture(l, etiquette) == lecture(m, etiquette));
}

// ------------------------------------------------------------------------ responses

/// A line that announces no literal.
pub open spec fn sans_annonce(ligne: Seq<char>) -> bool {
    ligne.len() == 0 || !blanc(ligne.last()) && ligne.last() != '}'
}

proof fn lemme_sans_annonce(ligne: Seq<char>)
    requires
        sans_annonce(ligne),
    ensures
        litteral_annonce(ligne) is None,
{
    reveal_strlit("}");
    assert(sans_blancs_fin(ligne) == ligne);
    ligne.index_of_last_ensures('{');
    if let Some(d) = ligne.index_of_last('{') {
        let r = ligne.subrange(d + 1, ligne.len() as int);
        if r.len() >= 1 {
            assert(r.subrange(r.len() - 1, r.len() as int)[0] == ligne.last());
        }
    }
}

proof fn lemme_conclusion(
    etiquette: Seq<char>,
    verdict: Seq<char>,
    texte: Seq<char>,
    x: Seq<Seq<u8>>,
)
    requires
        verdict.len() >= 2,
        !blanc(verdict[0]),
    ensures
        debute(etiquette + seq![' '] + verdict, etiquette),
        conclusion(etiquette + seq![' '] + verdict, etiquette, texte, x) == (if verdict[0] == 'O'
            && verdict[1] == 'K' {
            Ok(ReponseVue { texte, litteraux: x })
        } else {
            Err(ErreurVue::Refuse(verdict))
        }),
{
    reveal_strlit("OK");
    let l = etiquette + seq![' '] + verdict;
    assert(l.subrange(0, etiquette.len() as int) =~= etiquette);
    let s = l.subrange(etiquette.len() as int, l.len() as int);
    assert(s.drop_first() =~= verdict);
    assert(blanc(s[0]));
    assert(sans_blancs_debut(verdict) == verdict);
    assert(sans_blancs_debut(s) == verdict);
    if verdict[0] == 'O' && verdict[1] == 'K' {
        assert(verdict.subrange(0, 2) =~= "OK"@);
    } else if debute(verdict, "OK"@) {
        assert(verdict.subrange(0, 2)[0] == verdict[0]);
        assert(verdict.subrange(0, 2)[1] == verdict[1]);
    }
}

/// The lines of a response are put one under the other until the tagged line: the
/// response is then complete, and accepted when the verdict is `OK`, else refused with
/// the words of the server. What comes after it is left for the next one.
pub proof fn loi_reponse_conclue(
    l: LectureVue,
    etiquette: Seq<char>,
    o: Seq<u8>,
    verdict: Seq<char>,
    suite: Seq<u8>,
)
    requires
        l.attendu is None,
        l.reste == envoi(o, suite),
        d_un_trait(o),
        sans_annonce(l.ligne + texte_des_octets(o)),
    ensures
        ({
            let ligne = l.ligne + texte_des_octets(o);
            let texte = l.texte + ligne + seq!['\n'];
            &&& !debute(ligne, etiquette) ==> lecture(l, etiquette) == lecture(
                LectureVue { texte, ligne: Seq::empty(), reste: suite, ..l },
                etiquette,
            )
            &&& verdict.len() >= 2 && !blanc(verdict[0]) && ligne == etiquette + seq![' ']
                + verdict ==> lecture(l, etiquette) == (
                if verdict[0] == 'O' && verdict[1] == 'K' {
                    Some(
                        Ok::<ReponseVue, ErreurVue>(
                            ReponseVue { texte, litteraux: l.litteraux },
                        ),
                    )
                } else {
                    Some(Err::<ReponseVue, ErreurVue>(ErreurVue::Refuse(verdict)))
                },
                lecture_neuve(suite),
            )
        }),
{
    let ligne = l.ligne + texte_des_octets(o);
    lemme_bout(o, suite);
    lemme_sans_annonce(ligne);
    if verdict.len() >= 2 && !blanc(verdict[0]) && ligne == etiquette + seq![' '] + verdict {
        lemme_conclusion(etiquette, verdict, l.texte + ligne + seq!['\n'], l.litteraux);
    }
}

/// A literal is sent only once the server invites to: a line that starts with a plus
/// sign. A tagged line is a refusal, in the words of the server; other lines are passed
/// over.
pub proof fn loi_invitation_lue(
    etiquette: Seq<char>,
    o: Seq<u8>,
    verdict: Seq<char>,
    suite: Seq<u8>,
)
    requires
        d_un_trait(o),
        etiquette.len() > 0,
        etiquette[0] != '+',
    ensures
        ({
            let ligne = texte_des_octets(o);
            let r = invitation(envoi(o, suite), etiquette);
            &&& ligne.len() > 0 && ligne[0] == '+' ==> r == (
                Some(Ok::<(), ErreurVue>(())),
                suite,
            )
            &&& verdict.len() > 0 && !blanc(verdict[0]) && !blanc(verdict.last()) && ligne
                == etiquette + seq![' '] + verdict ==> r == (
                Some(Err::<(), ErreurVue>(ErreurVue::Refuse(verdict))),
                suite,
            )
            &&& !(ligne.len() > 0 && ligne[0] == '+') && !debute(ligne, etiquette) ==> r
                == invitation(suite, etiquette)
        }),
{
    let ligne = texte_des_octets(o);
    lemme_bout(o, suite);
    if verdict.len() > 0 && !blanc(verdict[0]) && !blanc(verdict.last()) && ligne == etiquette
        + seq![' '] + verdict {
        let s = ligne.subrange(etiquette.len() as int, ligne.len() as int);
        assert(ligne[0] == etiquette[0]);
        assert(ligne.subrange(0, etiquette.len() as int) =~= etiquette);
        assert(s.drop_first() =~= verdict);
        assert(blanc(s[0]));
        assert(sans_blancs_debut(verdict) == verdict);
        assert(sans_blancs_debut(s) == verdict);
        assert(sans_blancs_fin(verdict) == verdict);
        assert(sans_blancs(s) == verdict) by {
            assert(s.last() == verdict.last());
            assert(sans_blancs_fin(s) == s);
        }
    }
}

} // verus!
