//! Folder names as the server carries them: modified UTF-7 (RFC 3501, 5.1.3).

use vstd::prelude::*;
use vstd::slice::slice_subrange;

use crate::texte::{ajouter_car, caracteres, chaine, copier, couper, coupe, lemme_coupe};

verus! {

// ------------------------------------------------------------- modified base 64

/// The six bits that a character of modified base 64 stands for.
pub open spec fn sextet(c: char) -> Option<nat> {
    if 'A' <= c <= 'Z' {
        Some((c as u32 - 65) as nat)
    } else if 'a' <= c <= 'z' {
        Some((c as u32 - 71) as nat)
    } else if '0' <= c <= '9' {
        Some((c as u32 + 4) as nat)
    } else if c == '+' {
        Some(62)
    } else if c == ',' {
        Some(63)
    } else {
        None
    }
}

fn lire_sextet(c: char) -> (r: Option<u32>)
    ensures
        match r {
            Some(v) => sextet(c) == Some(v as nat) && v < 64,
            None => sextet(c) is None,
        },
{
    let n: u32 = c as u32;
    if 'A' <= c && c <= 'Z' {
        Some(n - 65)
    } else if 'a' <= c && c <= 'z' {
        Some(n - 71)
    } else if '0' <= c && c <= '9' {
        Some(n + 4)
    } else if c == '+' {
        Some(62)
    } else if c == ',' {
        Some(63)
    } else {
        None
    }
}

/// Two to the number of bits held over between two characters.
pub open spec fn poids(nb: nat) -> nat {
    if nb == 0 {
        1
    } else if nb == 2 {
        4
    } else if nb == 4 {
        16
    } else {
        64
    }
}

/// The bytes that a run of modified base 64 stands for. `bits` holds the `nb`
/// bits read and not yet given out; those left at the end are padding, unless they
/// make up a whole character: nothing if they do.
pub open spec fn octets_base64(code: Seq<char>, bits: nat, nb: nat) -> Option<Seq<u8>>
    decreases code.len(),
{
    if code.len() == 0 {
        if nb == 6 {
            None
        } else {
            Some(Seq::empty())
        }
    } else {
        match sextet(code[0]) {
            None => None,
            Some(v) => {
                let total = bits * 64 + v;
                if nb == 0 {
                    octets_base64(code.drop_first(), total, 6)
                } else {
                    let garde = (nb - 2) as nat;
                    match octets_base64(code.drop_first(), total % poids(garde), garde) {
                        None => None,
                        Some(suite) => Some(seq![(total / poids(garde)) as u8] + suite),
                    }
                }
            },
        }
    }
}

fn lire_base64(code: &[char]) -> (r: Option<Vec<u8>>)
    ensures
        match r {
            Some(v) => octets_base64(code@, 0, 0) == Some(v@),
            None => octets_base64(code@, 0, 0) is None,
        },
{
    let mut bits: u32 = 0;
    let mut nb: u32 = 0;
    let mut octets: Vec<u8> = Vec::new();
    assert(code@.subrange(0, code@.len() as int) =~= code@);
    for i in 0..code.len()
        invariant
            nb == 0 || nb == 2 || nb == 4 || nb == 6,
            bits < poids(nb as nat),
            match octets_base64(
                code@.subrange(i as int, code@.len() as int),
                bits as nat,
                nb as nat,
            ) {
                Some(suite) => octets_base64(code@, 0, 0) == Some(octets@ + suite),
                None => octets_base64(code@, 0, 0) is None,
            },
    {
        let ghost reste = code@.subrange(i as int, code@.len() as int);
        proof {
            assert(reste.drop_first() =~= code@.subrange(i + 1, code@.len() as int));
        }
        match lire_sextet(code[i]) {
            None => {
                return None;
            },
            Some(v) => {
                let total: u32 = bits * 64 + v;
                if nb == 0 {
                    bits = total;
                    nb = 6;
                } else {
                    let garde: u32 = nb - 2;
                    let p: u32 = if garde == 0 {
                        1
                    } else if garde == 2 {
                        4
                    } else {
                        16
                    };
                    let ghost avant = octets@;
                    octets.push((total / p) as u8);
                    bits = total % p;
                    nb = garde;
                    proof {
                        match octets_base64(reste.drop_first(), bits as nat, nb as nat) {
                            Some(suite) => {
                                assert(octets@ + suite =~= avant + (seq![(total / p) as u8]
                                    + suite));
                            },
                            None => {},
                        }
                    }
                }
            },
        }
    }
    if nb == 6 {
        return None;
    }
    proof {
        assert(octets@ + Seq::<u8>::empty() =~= octets@);
    }
    Some(octets)
}

// ------------------------------------------------------------------------ UTF-16

/// The 16-bit units that bytes make, two by two.
pub open spec fn unites(octets: Seq<u8>) -> Seq<nat>
    decreases octets.len(),
{
    if octets.len() < 2 {
        Seq::empty()
    } else {
        seq![octets[0] as nat * 256 + octets[1] as nat] + unites(
            octets.subrange(2, octets.len() as int),
        )
    }
}

/// The text that UTF-16 units write, if every surrogate is paired.
pub open spec fn utf16(u: Seq<nat>) -> Option<Seq<char>>
    decreases u.len(),
{
    if u.len() == 0 {
        Some(Seq::empty())
    } else if u[0] < 0xD800 || u[0] > 0xDFFF {
        match utf16(u.drop_first()) {
            Some(suite) => Some(seq![u[0] as char] + suite),
            None => None,
        }
    } else if u[0] <= 0xDBFF && u.len() >= 2 && 0xDC00 <= u[1] <= 0xDFFF {
        match utf16(u.subrange(2, u.len() as int)) {
            Some(suite) => Some(
                seq![(0x10000 + (u[0] - 0xD800) * 0x400 + (u[1] - 0xDC00)) as char] + suite,
            ),
            None => None,
        }
    } else {
        None
    }
}

fn lire_unites(octets: &[u8]) -> (r: Vec<u32>)
    ensures
        r@.map_values(|x: u32| x as nat) == unites(octets@),
        forall|i: int| 0 <= i < r@.len() ==> r@[i] <= 0xFFFF,
{
    let mut r: Vec<u32> = Vec::new();
    let n: usize = octets.len();
    let mut i: usize = 0;
    assert(octets@.subrange(0, octets@.len() as int) =~= octets@);
    while n - i >= 2
        invariant
            n == octets@.len(),
            i <= n,
            r@.map_values(|x: u32| x as nat) + unites(octets@.subrange(i as int, n as int))
                =~= unites(octets@),
            forall|j: int| 0 <= j < r@.len() ==> r@[j] <= 0xFFFF,
        decreases n - i,
    {
        let ghost reste = octets@.subrange(i as int, n as int);
        let ghost avant = r@;
        let u: u32 = octets[i] as u32 * 256 + octets[i + 1] as u32;
        r.push(u);
        proof {
            assert(r@.map_values(|x: u32| x as nat) =~= avant.map_values(|x: u32| x as nat).push(
                u as nat,
            ));
            assert(reste.subrange(2, reste.len() as int) =~= octets@.subrange(i + 2, n as int));
        }
        i += 2;
    }
    r
}

fn lire_utf16(u: &[u32]) -> (r: Option<Vec<char>>)
    requires
        forall|i: int| 0 <= i < u@.len() ==> u@[i] <= 0xFFFF,
    ensures
        match r {
            Some(v) => utf16(u@.map_values(|x: u32| x as nat)) == Some(v@),
            None => utf16(u@.map_values(|x: u32| x as nat)) is None,
        },
{
    let ghost m = u@.map_values(|x: u32| x as nat);
    let mut r: Vec<char> = Vec::new();
    let n: usize = u.len();
    let mut i: usize = 0;
    assert(m.subrange(0, m.len() as int) =~= m);
    while i < n
        invariant
            n == u@.len(),
            i <= n,
            m == u@.map_values(|x: u32| x as nat),
            forall|j: int| 0 <= j < u@.len() ==> u@[j] <= 0xFFFF,
            match utf16(m.subrange(i as int, n as int)) {
                Some(suite) => utf16(m) == Some(r@ + suite),
                None => utf16(m) is None,
            },
        decreases n - i,
    {
        let ghost reste = m.subrange(i as int, n as int);
        let ghost avant = r@;
        let x: u32 = u[i];
        if x < 0xD800 || x > 0xDFFF {
            match char::from_u32(x) {
                Some(c) => {
                    r.push(c);
                    proof {
                        assert(reste.drop_first() =~= m.subrange(i + 1, n as int));
                        match utf16(reste.drop_first()) {
                            Some(suite) => {
                                assert(r@ + suite =~= avant + (seq![c] + suite));
                            },
                            None => {},
                        }
                    }
                    i += 1;
                },
                None => {
                    assert(false);
                    return None;
                },
            }
        } else if x <= 0xDBFF && n - i >= 2 && 0xDC00 <= u[i + 1] && u[i + 1] <= 0xDFFF {
            let y: u32 = u[i + 1];
            match char::from_u32(0x10000 + (x - 0xD800) * 0x400 + (y - 0xDC00)) {
                Some(c) => {
                    r.push(c);
                    proof {
                        assert(reste[0] == x && reste[1] == y);
                        assert(reste.subrange(2, reste.len() as int) =~= m.subrange(
                            i + 2,
                            n as int,
                        ));
                        match utf16(reste.subrange(2, reste.len() as int)) {
                            Some(suite) => {
                                assert(r@ + suite =~= avant + (seq![c] + suite));
                            },
                            None => {},
                        }
                    }
                    i += 2;
                },
                None => {
                    assert(false);
                    return None;
                },
            }
        } else {
            return None;
        }
    }
    proof {
        assert(m.subrange(n as int, n as int) =~= Seq::empty());
        assert(r@ + Seq::<char>::empty() =~= r@);
    }
    Some(r)
}

/// The text that a run of modified base 64 stands for; nothing if it has a character
/// or a byte too many.
pub open spec fn texte_base64(code: Seq<char>) -> Option<Seq<char>> {
    match octets_base64(code, 0, 0) {
        Some(octets) => if octets.len() % 2 == 0 {
            utf16(unites(octets))
        } else {
            None
        },
        None => None,
    }
}

/// Decodes a run of modified base 64 (a comma where base 64 has a slash, and no
/// padding), which carries UTF-16 with the high byte first.
pub fn base64_utf7(code: &[char]) -> (r: Option<Vec<char>>)
    ensures
        match r {
            Some(v) => texte_base64(code@) == Some(v@),
            None => texte_base64(code@) is None,
        },
{
    match lire_base64(code) {
        Some(octets) => {
            if octets.len() % 2 != 0 {
                return None;
            }
            let u = lire_unites(octets.as_slice());
            lire_utf16(u.as_slice())
        },
        None => None,
    }
}

// ------------------------------------------------------------------- whole names

/// The text of a name, given what was decoded before `reste`; nothing if a run
/// is not closed or is not valid.
pub open spec fn suite_utf7(reste: Seq<char>, sortie: Seq<char>) -> Option<Seq<char>>
    decreases reste.len(),
    via suite_utf7_decroit
{
    match coupe(reste, '&') {
        None => Some(sortie + reste),
        Some((avant, apres)) => match coupe(apres, '-') {
            None => None,
            Some((code, suite)) => if code.len() == 0 {
                suite_utf7(suite, (sortie + avant).push('&'))
            } else {
                match texte_base64(code) {
                    Some(t) => suite_utf7(suite, sortie + avant + t),
                    None => None,
                }
            },
        },
    }
}

#[via_fn]
proof fn suite_utf7_decroit(reste: Seq<char>, sortie: Seq<char>) {
    reste.index_of_first_ensures('&');
    match coupe(reste, '&') {
        None => {},
        Some((avant, apres)) => {
            apres.index_of_first_ensures('-');
        },
    }
}

/// The text of a folder name; a malformed name stands for itself.
pub open spec fn nom_decode(nom: Seq<char>) -> Seq<char> {
    match suite_utf7(nom, Seq::empty()) {
        Some(t) => t,
        None => nom,
    }
}

/// Decodes a folder name carried in modified UTF-7. A malformed name is given
/// back as it is rather than lost.
pub fn decoder_utf7(nom: &str) -> (r: String)
    ensures
        r@ == nom_decode(nom@),
{
    let tout = caracteres(nom);
    let mut sortie: Vec<char> = Vec::new();
    let mut reste: &[char] = tout.as_slice();
    loop
        invariant
            suite_utf7(reste@, sortie@) == suite_utf7(nom@, Seq::empty()),
        decreases reste@.len(),
    {
        proof {
            reste@.index_of_first_ensures('&');
        }
        match couper(reste, '&') {
            None => {
                ajouter_car(&mut sortie, reste);
                return chaine(sortie.as_slice());
            },
            Some((avant, apres)) => {
                ajouter_car(&mut sortie, avant);
                proof {
                    apres@.index_of_first_ensures('-');
                }
                match couper(apres, '-') {
                    None => {
                        return copier(nom);
                    },
                    Some((code, suite)) => {
                        if code.len() == 0 {
                            sortie.push('&');
                        } else {
                            match base64_utf7(code) {
                                Some(t) => {
                                    ajouter_car(&mut sortie, t.as_slice());
                                },
                                None => {
                                    return copier(nom);
                                },
                            }
                        }
                        reste = suite;
                    },
                }
            },
        }
    }
}

/// What a run of modified base 64 gives out, and what it holds over.
proof fn lemme_bits(code: Seq<char>, bits: nat, nb: nat)
    requires
        nb == 0 || nb == 2 || nb == 4 || nb == 6,
    ensures
        octets_base64(code, bits, nb) matches Some(o) ==> 8 * o.len() <= nb + 6 * code.len() < 8
            * o.len() + 6,
    decreases code.len(),
{
    if code.len() > 0 {
        if let Some(v) = sextet(code[0]) {
            let total = bits * 64 + v;
            if nb == 0 {
                lemme_bits(code.drop_first(), total, 6);
            } else {
                let garde = (nb - 2) as nat;
                lemme_bits(code.drop_first(), total % poids(garde), garde);
            }
        }
    }
}

/// A run of modified base 64 is decoded only if it makes whole UTF-16 units: fewer
/// bits are left over than a character carries.
pub proof fn loi_unites_entieres(code: Seq<char>)
    ensures
        texte_base64(code) is Some ==> (6 * code.len()) % 16 < 6,
{
    lemme_bits(code, 0, 0);
    if let Some(o) = octets_base64(code, 0, 0) {
        if o.len() % 2 == 0 {
            let k = o.len() / 2;
            assert(16 * k <= 6 * code.len() < 16 * k + 6);
        }
    }
}

/// A name of which a run is not closed, or is not valid, is given back as it is.
pub proof fn loi_nom_mal_forme(avant: Seq<char>, code: Seq<char>, suite: Seq<char>)
    requires
        !avant.contains('&'),
        !code.contains('-'),
    ensures
        code.len() > 0 && texte_base64(code) is None ==> nom_decode(
            avant + seq!['&'] + code + seq!['-'] + suite,
        ) == avant + seq!['&'] + code + seq!['-'] + suite,
        nom_decode(avant + seq!['&'] + code) == avant + seq!['&'] + code,
{
    let ferme = avant + seq!['&'] + code + seq!['-'] + suite;
    let ouvert = avant + seq!['&'] + code;
    lemme_coupe(avant, '&', code + seq!['-'] + suite);
    lemme_coupe(avant, '&', code);
    lemme_coupe(code, '-', suite);
    assert(ferme =~= avant + seq!['&'] + (code + seq!['-'] + suite));
    code.index_of_first_ensures('-');
}

/// A name without an ampersand is carried as it is.
pub proof fn loi_nom_sans_esperluette(nom: Seq<char>)
    requires
        !nom.contains('&'),
    ensures
        nom_decode(nom) == nom,
{
    nom.index_of_first_ensures('&');
    assert(Seq::<char>::empty() + nom =~= nom);
}

/// A text in which each ampersand is written as a name carries it: followed by a
/// hyphen.
pub open spec fn esperluettes_closes(s: Seq<char>) -> Seq<char>
    decreases s.len(),
{
    if s.len() == 0 {
        Seq::empty()
    } else if s[0] == '&' {
        seq!['&', '-'] + esperluettes_closes(s.drop_first())
    } else {
        seq![s[0]] + esperluettes_closes(s.drop_first())
    }
}

proof fn lemme_esperluettes(lu: Seq<char>, s: Seq<char>, sortie: Seq<char>)
    requires
        !lu.contains('&'),
    ensures
        suite_utf7(lu + esperluettes_closes(s), sortie) == Some(sortie + lu + s),
    decreases s.len(),
{
    let e = esperluettes_closes(s);
    if s.len() == 0 {
        assert(lu + e =~= lu);
        lu.index_of_first_ensures('&');
        assert(sortie + lu + s =~= sortie + lu);
    } else {
        let u = s.drop_first();
        let f = esperluettes_closes(u);
        let vide = Seq::<char>::empty();
        if s[0] == '&' {
            assert(lu + e =~= lu + seq!['&'] + (vide + seq!['-'] + f));
            lemme_coupe(lu, '&', vide + seq!['-'] + f);
            lemme_coupe(vide, '-', f);
            lemme_esperluettes(vide, u, (sortie + lu).push('&'));
            assert(vide + f =~= f);
            assert((sortie + lu).push('&') + vide + u =~= sortie + lu + s);
        } else {
            let plus = lu.push(s[0]);
            assert(lu + e =~= plus + f);
            assert(!plus.contains('&')) by {
                if plus.contains('&') {
                    let i = plus.index_of('&');
                    assert(plus[i] == '&');
                    assert(lu[i] == '&');
                }
            }
            lemme_esperluettes(plus, u, sortie);
            assert(sortie + plus + u =~= sortie + lu + s);
        }
    }
}

/// A name whose ampersands are each followed by a hyphen, and which holds no coded
/// run, stands for its text.
pub proof fn loi_esperluettes_relues(s: Seq<char>)
    ensures
        nom_decode(esperluettes_closes(s)) == s,
{
    let vide = Seq::<char>::empty();
    lemme_esperluettes(vide, s, vide);
    assert(vide + esperluettes_closes(s) =~= esperluettes_closes(s));
    assert(vide + vide + s =~= s);
}

// --------------------------------------------------------------------- coded names

/// The character of modified base 64 that stands for six bits.
pub open spec fn signe64(n: nat) -> char {
    if n < 26 {
        (65 + n) as char
    } else if n < 52 {
        (71 + n) as char
    } else if n < 62 {
        (n - 4) as char
    } else if n == 62 {
        '+'
    } else {
        ','
    }
}

/// The run that carries one UTF-16 unit: its sixteen bits, six by six.
pub open spec fn code_unite(u: nat) -> Seq<char> {
    seq![signe64(u / 1024), signe64((u / 16) % 64), signe64((u % 16) * 4)]
}

/// The run that carries two UTF-16 units: their thirty-two bits, six by six.
pub open spec fn code_paire(h: nat, b: nat) -> Seq<char> {
    seq![
        signe64(h / 1024),
        signe64((h / 16) % 64),
        signe64((h % 16) * 4 + b / 16384),
        signe64((b / 256) % 64),
        signe64((b / 4) % 64),
        signe64((b % 4) * 16),
    ]
}

/// The run that carries a character.
pub open spec fn code_car(c: char) -> Seq<char> {
    let n = c as nat;
    if n < 0x10000 {
        code_unite(n)
    } else {
        code_paire((0xD800 + (n - 0x10000) / 0x400) as nat, (0xDC00 + (n - 0x10000) % 0x400) as nat)
    }
}

/// A name as a server carries it: printable ASCII as it is, an ampersand followed by a
/// hyphen, and each other character in a run of its own.
pub open spec fn nom_code(s: Seq<char>) -> Seq<char>
    decreases s.len(),
{
    if s.len() == 0 {
        Seq::empty()
    } else if s[0] == '&' {
        seq!['&', '-'] + nom_code(s.drop_first())
    } else if ' ' <= s[0] <= '~' {
        seq![s[0]] + nom_code(s.drop_first())
    } else {
        seq!['&'] + code_car(s[0]) + seq!['-'] + nom_code(s.drop_first())
    }
}

proof fn lemme_signe64(n: nat)
    requires
        n < 64,
    ensures
        sextet(signe64(n)) == Some(n),
        signe64(n) != '-',
{
}

/// One step of the reading of a run.
proof fn lemme_sextet_lu(n: nat, reste: Seq<char>, bits: nat, nb: nat)
    requires
        n < 64,
        nb == 0 || nb == 2 || nb == 4 || nb == 6,
    ensures
        octets_base64(seq![signe64(n)] + reste, bits, nb) == (if nb == 0 {
            octets_base64(reste, bits * 64 + n, 6)
        } else {
            let garde = (nb - 2) as nat;
            match octets_base64(reste, (bits * 64 + n) % poids(garde), garde) {
                None => None,
                Some(o) => Some(seq![((bits * 64 + n) / poids(garde)) as u8] + o),
            }
        }),
{
    lemme_signe64(n);
    let c = seq![signe64(n)] + reste;
    assert(c.drop_first() =~= reste);
}

proof fn lemme_unite(u: nat)
    requires
        u < 0x10000,
    ensures
        octets_base64(code_unite(u), 0, 0) == Some(seq![(u / 256) as u8, (u % 256) as u8]),
{
    let vide = Seq::<char>::empty();
    let a = u / 1024;
    let b = (u / 16) % 64;
    let c = (u % 16) * 4;
    let r2 = seq![signe64(c)];
    let r1 = seq![signe64(b)] + r2;
    assert(code_unite(u) =~= seq![signe64(a)] + r1);
    assert(r2 =~= r2 + vide);
    let g = (a * 64 + b) % 16;
    lemme_sextet_lu(a, r1, 0, 0);
    lemme_sextet_lu(b, r2, a, 6);
    lemme_sextet_lu(c, vide, g, 4);
    assert(a * 64 + b == u / 16);
    assert((a * 64 + b) / 16 == u / 256);
    assert((g * 64 + c) / 4 == u % 256);
    assert(octets_base64(vide, (g * 64 + c) % 4, 2) == Some(Seq::<u8>::empty()));
    assert(seq![(u % 256) as u8] + Seq::<u8>::empty() =~= seq![(u % 256) as u8]);
    assert(seq![(u / 256) as u8] + seq![(u % 256) as u8] =~= seq![
        (u / 256) as u8,
        (u % 256) as u8,
    ]);
}

#[verifier::spinoff_prover]
#[verifier::rlimit(60)]
proof fn lemme_paire(h: nat, b: nat)
    requires
        h < 0x10000,
        b < 0x10000,
    ensures
        octets_base64(code_paire(h, b), 0, 0) == Some(
            seq![(h / 256) as u8, (h % 256) as u8, (b / 256) as u8, (b % 256) as u8],
        ),
{
    let vide = Seq::<char>::empty();
    let n0 = h / 1024;
    let n1 = (h / 16) % 64;
    let n2 = (h % 16) * 4 + b / 16384;
    let n3 = (b / 256) % 64;
    let n4 = (b / 4) % 64;
    let n5 = (b % 4) * 16;
    let r5 = seq![signe64(n5)];
    let r4 = seq![signe64(n4)] + r5;
    let r3 = seq![signe64(n3)] + r4;
    let r2 = seq![signe64(n2)] + r3;
    let r1 = seq![signe64(n1)] + r2;
    assert(code_paire(h, b) =~= seq![signe64(n0)] + r1);
    assert(r5 =~= r5 + vide);
    let g1 = (n0 * 64 + n1) % 16;
    let g2 = (g1 * 64 + n2) % 4;
    let t3 = g2 * 64 + n3;
    let g3 = t3 % 1;
    let t4 = g3 * 64 + n4;
    lemme_sextet_lu(n0, r1, 0, 0);
    lemme_sextet_lu(n1, r2, n0, 6);
    lemme_sextet_lu(n2, r3, g1, 4);
    lemme_sextet_lu(n3, r4, g2, 2);
    lemme_sextet_lu(n4, r5, g3, 0);
    lemme_sextet_lu(n5, vide, t4, 6);
    assert(n0 * 64 + n1 == h / 16);
    assert((n0 * 64 + n1) / 16 == h / 256);
    assert((g1 * 64 + n2) / 4 == h % 256);
    assert(g2 == b / 16384);
    assert(t3 == b / 256);
    assert(g3 == 0);
    assert((t4 * 64 + n5) / 16 == b % 256);
    let o0 = seq![(h / 256) as u8];
    let o1 = seq![(h % 256) as u8];
    let o2 = seq![(b / 256) as u8];
    let o3 = seq![(b % 256) as u8];
    assert(octets_base64(vide, (t4 * 64 + n5) % 16, 4) == Some(Seq::<u8>::empty()));
    assert(o3 + Seq::<u8>::empty() =~= o3);
    assert(o0 + (o1 + (o2 + o3)) =~= seq![
        (h / 256) as u8,
        (h % 256) as u8,
        (b / 256) as u8,
        (b % 256) as u8,
    ]);
}

/// A character that a run carries is read back.
#[verifier::spinoff_prover]
#[verifier::rlimit(60)]
proof fn lemme_car_code(c: char)
    ensures
        texte_base64(code_car(c)) == Some(seq![c]),
        code_car(c).len() > 0,
        !code_car(c).contains('-'),
{
    let n = c as nat;
    let vide = Seq::<u8>::empty();
    if n < 0x10000 {
        lemme_unite(n);
        lemme_signe64(n / 1024);
        lemme_signe64((n / 16) % 64);
        lemme_signe64((n % 16) * 4);
        let o = seq![(n / 256) as u8, (n % 256) as u8];
        assert(o.subrange(2, 2) =~= vide);
        assert(unites(vide) =~= Seq::empty());
        assert(unites(o) =~= seq![n]);
        assert(seq![n].drop_first() =~= Seq::empty());
        assert(utf16(Seq::empty()) == Some(Seq::<char>::empty()));
        assert(utf16(seq![n]) == Some(seq![c] + Seq::<char>::empty()));
        assert(seq![c] + Seq::<char>::empty() =~= seq![c]);
    } else {
        let h = (0xD800 + (n - 0x10000) / 0x400) as nat;
        let b = (0xDC00 + (n - 0x10000) % 0x400) as nat;
        lemme_paire(h, b);
        lemme_signe64(h / 1024);
        lemme_signe64((h / 16) % 64);
        lemme_signe64((h % 16) * 4 + b / 16384);
        lemme_signe64((b / 256) % 64);
        lemme_signe64((b / 4) % 64);
        lemme_signe64((b % 4) * 16);
        let o = seq![(h / 256) as u8, (h % 256) as u8, (b / 256) as u8, (b % 256) as u8];
        let p = seq![(b / 256) as u8, (b % 256) as u8];
        assert(o.subrange(2, 4) =~= p);
        assert(p.subrange(2, 2) =~= vide);
        assert(unites(vide) =~= Seq::empty());
        assert(unites(p) =~= seq![b]);
        assert(unites(o) =~= seq![h, b]);
        assert(seq![h, b].subrange(2, 2) =~= Seq::empty());
        assert(utf16(Seq::empty()) == Some(Seq::<char>::empty()));
        assert(0x10000 + (h - 0xD800) * 0x400 + (b - 0xDC00) == n);
        assert(utf16(seq![h, b]) == Some(seq![c] + Seq::<char>::empty()));
        assert(seq![c] + Seq::<char>::empty() =~= seq![c]);
    }
}

proof fn lemme_nom_code(lu: Seq<char>, s: Seq<char>, sortie: Seq<char>)
    requires
        !lu.contains('&'),
    ensures
        suite_utf7(lu + nom_code(s), sortie) == Some(sortie + lu + s),
    decreases s.len(),
{
    let e = nom_code(s);
    let vide = Seq::<char>::empty();
    if s.len() == 0 {
        assert(lu + e =~= lu);
        lu.index_of_first_ensures('&');
        assert(sortie + lu + s =~= sortie + lu);
    } else {
        let u = s.drop_first();
        let f = nom_code(u);
        assert(vide + f =~= f);
        if s[0] == '&' {
            assert(lu + e =~= lu + seq!['&'] + (vide + seq!['-'] + f));
            lemme_coupe(lu, '&', vide + seq!['-'] + f);
            lemme_coupe(vide, '-', f);
            lemme_nom_code(vide, u, (sortie + lu).push('&'));
            assert((sortie + lu).push('&') + vide + u =~= sortie + lu + s);
        } else if ' ' <= s[0] <= '~' {
            let plus = lu.push(s[0]);
            assert(lu + e =~= plus + f);
            assert(!plus.contains('&')) by {
                if plus.contains('&') {
                    let i = plus.index_of('&');
                    assert(plus[i] == '&');
                    assert(lu[i] == '&');
                }
            }
            lemme_nom_code(plus, u, sortie);
            assert(sortie + plus + u =~= sortie + lu + s);
        } else {
            let k = code_car(s[0]);
            lemme_car_code(s[0]);
            assert(lu + e =~= lu + seq!['&'] + (k + seq!['-'] + f));
            lemme_coupe(lu, '&', k + seq!['-'] + f);
            lemme_coupe(k, '-', f);
            lemme_nom_code(vide, u, sortie + lu + seq![s[0]]);
            assert(sortie + lu + seq![s[0]] + vide + u =~= sortie + lu + s);
        }
    }
}

/// Whatever the name of a folder is, it is shown as it was before a server coded it.
pub proof fn loi_nom_relu(s: Seq<char>)
    ensures
        nom_decode(nom_code(s)) == s,
{
    let vide = Seq::<char>::empty();
    lemme_nom_code(vide, s, vide);
    assert(vide + nom_code(s) =~= nom_code(s));
    assert(vide + vide + s =~= s);
}

} // verus!
