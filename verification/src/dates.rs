//! Internal dates of IMAP, as seconds since the Unix epoch.

use vstd::prelude::*;
use vstd::slice::slice_subrange;

use crate::nombre::{chiffre, chiffres, entier_signe, lire_i64, valeur};
use crate::texte::{
    blanc, caracteres, champs, coupe, couper, decouper, epelle, lemme_champs, lemme_coupe,
    lemme_rien_a_rogner, rogner, sans_blancs,
};

verus! {

// ----------------------------------------------------------------------- calendar

/// Whether a year of the Gregorian calendar has a 29th of February.
pub open spec fn bissextile(an: int) -> bool {
    an % 4 == 0 && (an % 100 != 0 || an % 400 == 0)
}

/// The number of days of a month.
pub open spec fn longueur_mois(an: int, mois: int) -> int {
    if mois == 2 {
        if bissextile(an) {
            29
        } else {
            28
        }
    } else if mois == 4 || mois == 6 || mois == 9 || mois == 11 {
        30
    } else {
        31
    }
}

/// The days of a year before the first of a month.
pub open spec fn jours_avant_mois(an: int, mois: int) -> int
    decreases mois,
{
    if mois <= 1 {
        0
    } else {
        jours_avant_mois(an, mois - 1) + longueur_mois(an, mois - 1)
    }
}

/// The days between the first of January of year 1 and that of another year.
pub open spec fn jours_avant_annee(an: int) -> int {
    365 * (an - 1) + (an - 1) / 4 - (an - 1) / 100 + (an - 1) / 400
}

/// The days elapsed since the first of January 1970, in the proleptic Gregorian
/// calendar. A day number past the end of its month counts on into the next.
pub open spec fn jours(an: int, mois: int, jour: int) -> int {
    jours_avant_annee(an) + jours_avant_mois(an, mois) + (jour - 1) - jours_avant_annee(1970)
}

/// The epoch is day zero.
pub proof fn loi_epoque()
    ensures
        jours(1970, 1, 1) == 0,
{
}

/// The day after a date has the next number, whether it falls in the same month,
/// starts the next month or starts the next year.
pub proof fn loi_lendemain(an: int, mois: int, jour: int)
    requires
        1 <= mois <= 12,
        1 <= jour <= longueur_mois(an, mois),
    ensures
        jour < longueur_mois(an, mois) ==> jours(an, mois, jour + 1) == jours(an, mois, jour) + 1,
        jour == longueur_mois(an, mois) && mois < 12 ==> jours(an, mois + 1, 1) == jours(
            an,
            mois,
            jour,
        ) + 1,
        jour == longueur_mois(an, mois) && mois == 12 ==> jours(an + 1, 1, 1) == jours(
            an,
            mois,
            jour,
        ) + 1,
{
    reveal_with_fuel(jours_avant_mois, 13);
}

/// The shift that makes the years of the eras non-negative.
const ERES: i128 = 0x1000_0000_0000_0000;

/// The days before a March year, by eras of four centuries.
proof fn lemme_ere(a: int)
    ensures
        (a / 400) * 146097 + (a - (a / 400) * 400) * 365 + (a - (a / 400) * 400) / 4 - (a - (a
            / 400) * 400) / 100 == 365 * a + a / 4 - a / 100 + a / 400,
{
    let q = a / 400;
    let r = a - q * 400;
    assert(a == 400 * q + r && 0 <= r < 400);
    assert(a / 4 == 100 * q + r / 4);
    assert(a / 100 == 4 * q + r / 100);
}

/// The days before a month, counted from March.
proof fn lemme_mois(an: int, mois: int)
    requires
        1 <= mois <= 12,
    ensures
        jours_avant_mois(an, mois) == if mois > 2 {
            59 + (153 * (mois - 3) + 2) / 5 + if bissextile(an) {
                1int
            } else {
                0int
            }
        } else {
            (153 * (mois + 9) + 2) / 5 - 306
        },
{
    reveal_with_fuel(jours_avant_mois, 13);
}

/// A year has one day more than 365 when it is a leap year.
proof fn lemme_annee(an: int)
    ensures
        an / 4 - an / 100 + an / 400 == (an - 1) / 4 - (an - 1) / 100 + (an - 1) / 400
            + if bissextile(an) {
            1int
        } else {
            0int
        },
{
}

/// Counts the days elapsed since the first of January 1970: the years start in
/// March, so that the 29th of February is the last day of one.
pub fn jours_depuis_epoque(an: i64, mois: i64, jour: i64) -> (r: i128)
    requires
        1 <= mois <= 12,
    ensures
        r == jours(an as int, mois as int, jour as int),
        -0x1_0000_0000_0000_0000_0000 < r < 0x1_0000_0000_0000_0000_0000,
{
    let a: i128 = if mois <= 2 {
        an as i128 - 1
    } else {
        an as i128
    };
    let ere: i128 = (a + ERES * 400) / 400 - ERES;
    assert(ere == a as int / 400);
    let annee_ere: i128 = a - ere * 400;
    let m: i128 = if mois > 2 {
        mois as i128 - 3
    } else {
        mois as i128 + 9
    };
    let jour_annee: i128 = (153 * m + 2) / 5 + jour as i128 - 1;
    let jour_ere: i128 = annee_ere * 365 + annee_ere / 4 - annee_ere / 100 + jour_annee;
    proof {
        lemme_ere(a as int);
        lemme_mois(an as int, mois as int);
        lemme_annee(an as int);
    }
    ere * 146097 + jour_ere - 719468
}

// -------------------------------------------------------------------------- months

/// The number of a month, from its English abbreviation.
pub open spec fn mois_de(s: Seq<char>) -> Option<int> {
    if s == "Jan"@ {
        Some(1)
    } else if s == "Feb"@ {
        Some(2)
    } else if s == "Mar"@ {
        Some(3)
    } else if s == "Apr"@ {
        Some(4)
    } else if s == "May"@ {
        Some(5)
    } else if s == "Jun"@ {
        Some(6)
    } else if s == "Jul"@ {
        Some(7)
    } else if s == "Aug"@ {
        Some(8)
    } else if s == "Sep"@ {
        Some(9)
    } else if s == "Oct"@ {
        Some(10)
    } else if s == "Nov"@ {
        Some(11)
    } else if s == "Dec"@ {
        Some(12)
    } else {
        None
    }
}

fn lire_mois(s: &[char]) -> (r: Option<i64>)
    ensures
        match r {
            Some(m) => mois_de(s@) == Some(m as int) && 1 <= m <= 12,
            None => mois_de(s@) is None,
        },
{
    if epelle(s, "Jan") {
        Some(1)
    } else if epelle(s, "Feb") {
        Some(2)
    } else if epelle(s, "Mar") {
        Some(3)
    } else if epelle(s, "Apr") {
        Some(4)
    } else if epelle(s, "May") {
        Some(5)
    } else if epelle(s, "Jun") {
        Some(6)
    } else if epelle(s, "Jul") {
        Some(7)
    } else if epelle(s, "Aug") {
        Some(8)
    } else if epelle(s, "Sep") {
        Some(9)
    } else if epelle(s, "Oct") {
        Some(10)
    } else if epelle(s, "Nov") {
        Some(11)
    } else if epelle(s, "Dec") {
        Some(12)
    } else {
        None
    }
}

// --------------------------------------------------------------------------- parts

/// The days that a date such as `16-Sep-2026` stands for.
pub open spec fn jours_ecrits(s: Seq<char>) -> Option<int> {
    let parties = champs(sans_blancs(s), '-');
    if parties.len() < 3 {
        None
    } else {
        match (entier_signe(sans_blancs(parties[0])), mois_de(parties[1]), entier_signe(parties[2])) {
            (Some(jour), Some(mois), Some(an)) => Some(jours(an, mois, jour)),
            _ => None,
        }
    }
}

/// The seconds that a time such as `18:00:00` stands for.
pub open spec fn secondes_ecrites(s: Seq<char>) -> Option<int> {
    let parties = champs(s, ':');
    if parties.len() < 3 {
        None
    } else {
        match (entier_signe(parties[0]), entier_signe(parties[1]), entier_signe(parties[2])) {
            (Some(h), Some(m), Some(s)) => Some(h * 3600 + m * 60 + s),
            _ => None,
        }
    }
}

/// The seconds by which a zone such as `+0200` is ahead of universal time.
pub open spec fn decalage_ecrit(s: Seq<char>) -> Option<int> {
    if s.len() < 5 {
        None
    } else {
        match (entier_signe(s.subrange(1, 3)), entier_signe(s.subrange(3, 5))) {
            (Some(h), Some(m)) => if s[0] == '+' {
                Some(h * 3600 + m * 60)
            } else if s[0] == '-' {
                Some(-(h * 3600 + m * 60))
            } else {
                None
            },
            _ => None,
        }
    }
}

/// The instant that an internal date such as `16-Sep-2026 18:00:00 +0200` stands
/// for, in seconds since the epoch.
pub open spec fn instant(date: Seq<char>) -> Option<int> {
    match coupe(sans_blancs(date), ' ') {
        None => None,
        Some((jma, reste)) => match coupe(sans_blancs(reste), ' ') {
            None => None,
            Some((heure, zone)) => match (
                jours_ecrits(jma),
                secondes_ecrites(heure),
                decalage_ecrit(zone),
            ) {
                (Some(j), Some(s), Some(d)) => Some(j * 86400 + s - d),
                _ => None,
            },
        },
    }
}

fn lire_jours(s: &[char]) -> (r: Option<i128>)
    ensures
        match r {
            Some(j) => jours_ecrits(s@) == Some(j as int) && -0x1_0000_0000_0000_0000_0000 < j
                < 0x1_0000_0000_0000_0000_0000,
            None => jours_ecrits(s@) is None,
        },
{
    let p = decouper(rogner(s), '-');
    proof {
        let c = champs(sans_blancs(s@), '-');
        assert(c.len() == p@.len());
        assert(forall|i: int| 0 <= i < p@.len() ==> #[trigger] c[i] == p@[i]@);
    }
    if p.len() < 3 {
        return None;
    }
    match (
        lire_i64(rogner(p[0].as_slice())),
        lire_mois(p[1].as_slice()),
        lire_i64(p[2].as_slice()),
    ) {
        (Some(jour), Some(mois), Some(an)) => Some(jours_depuis_epoque(an, mois, jour)),
        _ => None,
    }
}

fn lire_secondes(s: &[char]) -> (r: Option<i128>)
    ensures
        match r {
            Some(t) => secondes_ecrites(s@) == Some(t as int) && -0x1_0000_0000_0000_0000_0000 < t
                < 0x1_0000_0000_0000_0000_0000,
            None => secondes_ecrites(s@) is None,
        },
{
    let p = decouper(s, ':');
    proof {
        let c = champs(s@, ':');
        assert(c.len() == p@.len());
        assert(forall|i: int| 0 <= i < p@.len() ==> #[trigger] c[i] == p@[i]@);
    }
    if p.len() < 3 {
        return None;
    }
    match (lire_i64(p[0].as_slice()), lire_i64(p[1].as_slice()), lire_i64(p[2].as_slice())) {
        (Some(h), Some(m), Some(s)) => Some(h as i128 * 3600 + m as i128 * 60 + s as i128),
        _ => None,
    }
}

fn lire_decalage(s: &[char]) -> (r: Option<i128>)
    ensures
        match r {
            Some(d) => decalage_ecrit(s@) == Some(d as int) && -0x1_0000_0000_0000_0000_0000 < d
                < 0x1_0000_0000_0000_0000_0000,
            None => decalage_ecrit(s@) is None,
        },
{
    if s.len() < 5 {
        return None;
    }
    match (lire_i64(slice_subrange(s, 1, 3)), lire_i64(slice_subrange(s, 3, 5))) {
        (Some(h), Some(m)) => {
            let d: i128 = h as i128 * 3600 + m as i128 * 60;
            if s[0] == '+' {
                Some(d)
            } else if s[0] == '-' {
                Some(-d)
            } else {
                None
            }
        },
        _ => None,
    }
}

/// Internal IMAP date (`16-Sep-2026 18:00:00 +0200`) in seconds since the Unix
/// epoch. It serves as sort key: the server sets it on reception, and `APPEND`
/// keeps it when a message moves between accounts. An instant that 64 bits cannot
/// hold gives nothing, as a malformed date does.
pub fn secondes_date_interne(date: &str) -> (r: Option<i64>)
    ensures
        r == (match instant(date@) {
            Some(t) => if i64::MIN <= t <= i64::MAX {
                Some(t as i64)
            } else {
                None
            },
            None => None,
        }),
{
    let c = caracteres(date);
    match couper(rogner(c.as_slice()), ' ') {
        None => None,
        Some((jma, reste)) => match couper(rogner(reste), ' ') {
            None => None,
            Some((heure, zone)) => match (
                lire_jours(jma),
                lire_secondes(heure),
                lire_decalage(zone),
            ) {
                (Some(j), Some(s), Some(d)) => {
                    let t: i128 = j * 86400 + s - d;
                    if i64::MIN as i128 <= t && t <= i64::MAX as i128 {
                        Some(t as i64)
                    } else {
                        None
                    }
                },
                _ => None,
            },
        },
    }
}

/// A run of two digits is read as the number it writes.
proof fn lemme_deux_chiffres(s: Seq<char>)
    requires
        chiffres(s, 10),
        s.len() == 2,
    ensures
        entier_signe(s) == Some(valeur(s, 10) as int),
{
    assert(chiffre(s[0], 10) is Some && chiffre(s[1], 10) is Some);
    reveal_with_fuel(valeur, 3);
    assert(s.drop_last().last() == s[0]);
    assert(valeur(s, 10) <= 99);
}

/// What a date with a zone stands for.
proof fn lemme_instant(jma: Seq<char>, heure: Seq<char>, signe: char, zone: Seq<char>)
    requires
        forall|i: int| 0 <= i < jma.len() ==> !blanc(#[trigger] jma[i]),
        forall|i: int| 0 <= i < heure.len() ==> !blanc(#[trigger] heure[i]),
        jours_ecrits(jma) is Some,
        secondes_ecrites(heure) is Some,
        signe == '+' || signe == '-',
        chiffres(zone, 10),
        zone.len() == 4,
    ensures
        ({
            let d = valeur(zone.subrange(0, 2), 10) * 3600 + valeur(zone.subrange(2, 4), 10) * 60;
            instant(jma + seq![' '] + heure + seq![' ', signe] + zone) == Some(
                jours_ecrits(jma)->0 * 86400 + secondes_ecrites(heure)->0 - (if signe == '+' {
                    d as int
                } else {
                    -(d as int)
                }),
            )
        }),
{
    let z = seq![signe] + zone;
    let reste = heure + seq![' '] + z;
    let date = jma + seq![' '] + reste;
    assert(date =~= jma + seq![' '] + heure + seq![' ', signe] + zone);
    assert(jma.len() > 0) by {
        if jma.len() == 0 {
            jma.index_of_first_ensures('-');
            assert(champs(sans_blancs(jma), '-').len() == 1);
        }
    }
    assert(heure.len() > 0) by {
        if heure.len() == 0 {
            heure.index_of_first_ensures(':');
            assert(champs(heure, ':').len() == 1);
        }
    }
    assert(!blanc(date[0])) by {
        assert(date[0] == jma[0]);
    }
    assert(!blanc(reste[0])) by {
        assert(reste[0] == heure[0]);
    }
    assert(chiffre(zone[3], 10) is Some);
    assert(date.last() == zone[3] && reste.last() == zone[3]);
    lemme_rien_a_rogner(date);
    lemme_rien_a_rogner(reste);
    assert(!jma.contains(' '));
    assert(!heure.contains(' '));
    lemme_coupe(jma, ' ', reste);
    lemme_coupe(heure, ' ', z);
    assert(z.subrange(1, 3) =~= zone.subrange(0, 2));
    assert(z.subrange(3, 5) =~= zone.subrange(2, 4));
    assert(forall|i: int| 0 <= i < 4 ==> chiffre(#[trigger] zone[i], 10) is Some);
    lemme_deux_chiffres(zone.subrange(0, 2));
    lemme_deux_chiffres(zone.subrange(2, 4));
}

/// The same date and time stands for an instant that the zone moves: earlier by what
/// the zone is ahead of universal time, later by what it is behind.
#[verifier::spinoff_prover]
#[verifier::rlimit(60)]
pub proof fn loi_fuseau(jma: Seq<char>, heure: Seq<char>, zone: Seq<char>)
    requires
        forall|i: int| 0 <= i < jma.len() ==> !blanc(#[trigger] jma[i]),
        forall|i: int| 0 <= i < heure.len() ==> !blanc(#[trigger] heure[i]),
        jours_ecrits(jma) is Some,
        secondes_ecrites(heure) is Some,
        chiffres(zone, 10),
        zone.len() == 4,
    ensures
        ({
            let universel = instant(jma + seq![' '] + heure + " +0000"@);
            let ecart = valeur(zone.subrange(0, 2), 10) * 3600 + valeur(zone.subrange(2, 4), 10)
                * 60;
            &&& universel == Some(jours_ecrits(jma)->0 * 86400 + secondes_ecrites(heure)->0)
            &&& instant(jma + seq![' '] + heure + seq![' ', '+'] + zone) == Some(
                universel->0 - ecart,
            )
            &&& instant(jma + seq![' '] + heure + seq![' ', '-'] + zone) == Some(
                universel->0 + ecart,
            )
        }),
{
    reveal_strlit(" +0000");
    let nulle = seq!['0', '0', '0', '0'];
    assert(jma + seq![' '] + heure + " +0000"@ =~= jma + seq![' '] + heure + seq![' ', '+']
        + nulle);
    assert(valeur(nulle.subrange(0, 2), 10) == 0 && valeur(nulle.subrange(2, 4), 10) == 0) by {
        reveal_with_fuel(valeur, 3);
    }
    lemme_instant(jma, heure, '+', nulle);
    lemme_instant(jma, heure, '+', zone);
    lemme_instant(jma, heure, '-', zone);
}

/// The name of a month in a date.
pub open spec fn nom_du_mois(mois: int) -> Seq<char> {
    if mois == 1 {
        "Jan"@
    } else if mois == 2 {
        "Feb"@
    } else if mois == 3 {
        "Mar"@
    } else if mois == 4 {
        "Apr"@
    } else if mois == 5 {
        "May"@
    } else if mois == 6 {
        "Jun"@
    } else if mois == 7 {
        "Jul"@
    } else if mois == 8 {
        "Aug"@
    } else if mois == 9 {
        "Sep"@
    } else if mois == 10 {
        "Oct"@
    } else if mois == 11 {
        "Nov"@
    } else {
        "Dec"@
    }
}

/// A number on two digits.
pub open spec fn sur_deux(n: int) -> Seq<char> {
    seq![(48 + n / 10) as char, (48 + n % 10) as char]
}

/// A number on four digits.
pub open spec fn sur_quatre(n: int) -> Seq<char> {
    sur_deux(n / 100) + sur_deux(n % 100)
}

/// A date and a time as a server writes them: `17-Jul-1996 02:44:25 -0700`.
pub open spec fn date_ecrite(
    an: int,
    mois: int,
    jour: int,
    h: int,
    m: int,
    s: int,
    signe: char,
    zone: int,
) -> Seq<char> {
    sur_deux(jour) + seq!['-'] + nom_du_mois(mois) + seq!['-'] + sur_quatre(an) + seq![' ']
        + (sur_deux(h) + seq![':'] + sur_deux(m) + seq![':'] + sur_deux(s)) + seq![' ', signe]
        + sur_quatre(zone)
}

proof fn lemme_noms_des_mois(mois: int)
    requires
        1 <= mois <= 12,
    ensures
        mois_de(nom_du_mois(mois)) == Some(mois),
        nom_du_mois(mois).len() == 3,
        forall|i: int|
            0 <= i < 3 ==> 'A' <= #[trigger] nom_du_mois(mois)[i] <= 'z',
{
    reveal_strlit("Jan");
    reveal_strlit("Feb");
    reveal_strlit("Mar");
    reveal_strlit("Apr");
    reveal_strlit("May");
    reveal_strlit("Jun");
    reveal_strlit("Jul");
    reveal_strlit("Aug");
    reveal_strlit("Sep");
    reveal_strlit("Oct");
    reveal_strlit("Nov");
    reveal_strlit("Dec");
    assert("Jan"@ =~= seq!['J', 'a', 'n']);
    assert("Feb"@ =~= seq!['F', 'e', 'b']);
    assert("Mar"@ =~= seq!['M', 'a', 'r']);
    assert("Apr"@ =~= seq!['A', 'p', 'r']);
    assert("May"@ =~= seq!['M', 'a', 'y']);
    assert("Jun"@ =~= seq!['J', 'u', 'n']);
    assert("Jul"@ =~= seq!['J', 'u', 'l']);
    assert("Aug"@ =~= seq!['A', 'u', 'g']);
    assert("Sep"@ =~= seq!['S', 'e', 'p']);
    assert("Oct"@ =~= seq!['O', 'c', 't']);
    assert("Nov"@ =~= seq!['N', 'o', 'v']);
    assert("Dec"@ =~= seq!['D', 'e', 'c']);
}

proof fn lemme_sur_deux(n: int)
    requires
        0 <= n < 100,
    ensures
        chiffres(sur_deux(n), 10),
        valeur(sur_deux(n), 10) == n,
        entier_signe(sur_deux(n)) == Some(n),
        forall|i: int| 0 <= i < 2 ==> '0' <= #[trigger] sur_deux(n)[i] <= '9',
{
    let s = sur_deux(n);
    reveal_with_fuel(valeur, 3);
    assert(s.drop_last() =~= seq![s[0]]);
    assert(s.drop_last().drop_last() =~= Seq::empty());
    assert(chiffre(s[0], 10) is Some && chiffre(s[1], 10) is Some);
}

proof fn lemme_sur_quatre(n: int)
    requires
        0 <= n < 10000,
    ensures
        chiffres(sur_quatre(n), 10),
        valeur(sur_quatre(n), 10) == n,
        entier_signe(sur_quatre(n)) == Some(n),
        sur_quatre(n).len() == 4,
        sur_quatre(n).subrange(0, 2) == sur_deux(n / 100),
        sur_quatre(n).subrange(2, 4) == sur_deux(n % 100),
        forall|i: int| 0 <= i < 4 ==> '0' <= #[trigger] sur_quatre(n)[i] <= '9',
{
    let s = sur_quatre(n);
    let a = sur_deux(n / 100);
    let b = sur_deux(n % 100);
    lemme_sur_deux(n / 100);
    lemme_sur_deux(n % 100);
    assert(s.subrange(0, 2) =~= a);
    assert(s.subrange(2, 4) =~= b);
    assert(s[0] == a[0] && s[1] == a[1] && s[2] == b[0] && s[3] == b[1]);
    assert(s.drop_last().drop_last() =~= a);
    assert(s.drop_last().last() == b[0]);
    assert(b.drop_last() =~= seq![b[0]]);
    assert(b.drop_last().drop_last() =~= Seq::empty());
    reveal_with_fuel(valeur, 3);
    assert(valeur(s, 10) == (valeur(a, 10) * 10 + chiffre(b[0], 10)->0) * 10 + chiffre(b[1], 10)->0);
    assert(valeur(b, 10) == chiffre(b[0], 10)->0 * 10 + chiffre(b[1], 10)->0);
    assert forall|i: int| 0 <= i < 4 implies chiffre(#[trigger] s[i], 10) is Some by {
        assert('0' <= s[i] <= '9');
    }
}

/// A date that a server writes is read as the instant that it names: the seconds from
/// the epoch to its day, then to its time, less what its zone is ahead of universal
/// time.
#[verifier::spinoff_prover]
#[verifier::rlimit(60)]
pub proof fn loi_date_lue(
    an: int,
    mois: int,
    jour: int,
    h: int,
    m: int,
    s: int,
    signe: char,
    zone: int,
)
    requires
        0 <= an < 10000,
        1 <= mois <= 12,
        0 <= jour < 100,
        0 <= h < 100,
        0 <= m < 100,
        0 <= s < 100,
        signe == '+' || signe == '-',
        0 <= zone < 10000,
    ensures
        instant(date_ecrite(an, mois, jour, h, m, s, signe, zone)) == Some(
            jours(an, mois, jour) * 86400 + h * 3600 + m * 60 + s - (if signe == '+' {
                1int
            } else {
                -1int
            }) * ((zone / 100) * 3600 + (zone % 100) * 60),
        ),
{
    let j = sur_deux(jour);
    let n = nom_du_mois(mois);
    let a = sur_quatre(an);
    let jma = j + seq!['-'] + n + seq!['-'] + a;
    lemme_sur_deux(jour);
    lemme_noms_des_mois(mois);
    lemme_sur_quatre(an);
    lemme_sur_deux(h);
    lemme_sur_deux(m);
    lemme_sur_deux(s);
    lemme_sur_quatre(zone);
    lemme_sur_deux(zone / 100);
    lemme_sur_deux(zone % 100);
    let hms = sur_deux(h) + seq![':'] + sur_deux(m) + seq![':'] + sur_deux(s);
    assert forall|i: int| 0 <= i < jma.len() implies !blanc(#[trigger] jma[i]) by {
        if i < 2 {
            assert(jma[i] == j[i]);
        } else if 3 <= i < 6 {
            assert(jma[i] == n[i - 3]);
        } else if i >= 7 {
            assert(jma[i] == a[i - 7]);
        }
    }
    assert forall|i: int| 0 <= i < hms.len() implies !blanc(#[trigger] hms[i]) by {
        if i < 2 {
            assert(hms[i] == sur_deux(h)[i]);
        } else if 3 <= i < 5 {
            assert(hms[i] == sur_deux(m)[i - 3]);
        } else if i >= 6 {
            assert(hms[i] == sur_deux(s)[i - 6]);
        }
    }
    assert(!j.contains('-') && !n.contains('-') && !a.contains('-')) by {
        assert(j[0] != '-' && j[1] != '-');
        assert(n[0] != '-' && n[1] != '-' && n[2] != '-');
        assert(a[0] != '-' && a[1] != '-' && a[2] != '-' && a[3] != '-');
    }
    assert(jma =~= j + seq!['-'] + (n + seq!['-'] + a));
    lemme_champs(j, '-', n + seq!['-'] + a);
    lemme_champs(n, '-', a);
    lemme_champs(a, '-', a);
    assert(champs(jma, '-') =~= seq![j, n, a]);
    assert(!blanc(jma[0]) && !blanc(jma[jma.len() - 1]));
    lemme_rien_a_rogner(jma);
    assert(!blanc(j[0]) && !blanc(j[j.len() - 1]));
    lemme_rien_a_rogner(j);
    assert(jours_ecrits(jma) == Some(jours(an, mois, jour)));
    let x = sur_deux(h);
    let y = sur_deux(m);
    let z = sur_deux(s);
    assert(!x.contains(':') && !y.contains(':') && !z.contains(':')) by {
        assert(x[0] != ':' && x[1] != ':' && y[0] != ':' && y[1] != ':' && z[0] != ':' && z[1]
            != ':');
    }
    assert(hms =~= x + seq![':'] + (y + seq![':'] + z));
    lemme_champs(x, ':', y + seq![':'] + z);
    lemme_champs(y, ':', z);
    lemme_champs(z, ':', z);
    assert(champs(hms, ':') =~= seq![x, y, z]);
    assert(secondes_ecrites(hms) == Some(h * 3600 + m * 60 + s));
    lemme_instant(jma, hms, signe, sur_quatre(zone));
}

} // verus!
