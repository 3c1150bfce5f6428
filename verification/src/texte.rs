//! Text as sequences of characters: searching, trimming, splitting, joining.
//!
//! The contracts of the crate speak of `Seq<char>`; the code works on slices of
//! characters, which can be indexed, and turns them into strings at the end.

use vstd::prelude::*;
use vstd::slice::{slice_subrange, slice_to_vec};
use vstd::utf8::{encode_utf8, encode_utf8_decode_utf8};

verus! {

// ------------------------------------------------------------------ characters

/// `String::push` appends one character.
pub assume_specification[ String::push ](s: &mut String, c: char)
    ensures
        final(s)@ == old(s)@.push(c),
;

/// Unicode white space (the `White_Space` property).
pub open spec fn blanc(c: char) -> bool {
    let n = c as u32;
    ||| 0x09 <= n <= 0x0D
    ||| n == 0x20
    ||| n == 0x85
    ||| n == 0xA0
    ||| n == 0x1680
    ||| 0x2000 <= n <= 0x200A
    ||| n == 0x2028
    ||| n == 0x2029
    ||| n == 0x202F
    ||| n == 0x205F
    ||| n == 0x3000
}

/// Whether a character is white space.
pub fn est_blanc(c: char) -> (b: bool)
    ensures
        b == blanc(c),
{
    let n: u32 = c as u32;
    (0x09 <= n && n <= 0x0D) || n == 0x20 || n == 0x85 || n == 0xA0 || n == 0x1680
        || (0x2000 <= n && n <= 0x200A) || n == 0x2028 || n == 0x2029 || n == 0x202F
        || n == 0x205F || n == 0x3000
}

/// Control characters (general category `Cc`).
pub open spec fn controle(c: char) -> bool {
    let n = c as u32;
    n <= 0x1F || 0x7F <= n <= 0x9F
}

/// Whether a character is a control character.
pub fn est_controle(c: char) -> (b: bool)
    ensures
        b == controle(c),
{
    let n: u32 = c as u32;
    n <= 0x1F || (0x7F <= n && n <= 0x9F)
}

/// A character with its ASCII capitals lowered; every other one as it is.
pub open spec fn minuscule(c: char) -> char {
    if 'A' <= c <= 'Z' {
        (c as u32 + 32) as char
    } else {
        c
    }
}

/// Lowers one ASCII capital.
pub fn en_minuscule(c: char) -> (r: char)
    ensures
        r == minuscule(c),
{
    if 'A' <= c && c <= 'Z' {
        let n: u8 = c as u8;
        (n + 32) as char
    } else {
        c
    }
}

/// A character with its ASCII small letters raised; every other one as it is.
pub open spec fn majuscule(c: char) -> char {
    if 'a' <= c <= 'z' {
        (c as u32 - 32) as char
    } else {
        c
    }
}

/// Raises one ASCII small letter.
pub fn en_majuscule(c: char) -> (r: char)
    ensures
        r == majuscule(c),
{
    if 'a' <= c && c <= 'z' {
        let n: u8 = c as u8;
        (n - 32) as char
    } else {
        c
    }
}

/// ASCII letters and digits.
pub open spec fn alphanumerique(c: char) -> bool {
    'a' <= c <= 'z' || 'A' <= c <= 'Z' || '0' <= c <= '9'
}

/// Whether a character is an ASCII letter or digit.
pub fn est_alphanumerique(c: char) -> (b: bool)
    ensures
        b == alphanumerique(c),
{
    ('a' <= c && c <= 'z') || ('A' <= c && c <= 'Z') || ('0' <= c && c <= '9')
}

/// A text with its ASCII capitals lowered.
pub open spec fn minuscules(s: Seq<char>) -> Seq<char> {
    s.map_values(|c: char| minuscule(c))
}

/// A text with its ASCII small letters raised.
pub open spec fn majuscules(s: Seq<char>) -> Seq<char> {
    s.map_values(|c: char| majuscule(c))
}

/// Lowers the ASCII capitals of a text.
pub fn en_minuscules(s: &[char]) -> (r: Vec<char>)
    ensures
        r@ == minuscules(s@),
{
    let mut r: Vec<char> = Vec::new();
    for i in 0..s.len()
        invariant
            r@ =~= minuscules(s@.take(i as int)),
    {
        r.push(en_minuscule(s[i]));
    }
    assert(s@.take(s@.len() as int) =~= s@);
    r
}

/// Raises the ASCII small letters of a text.
pub fn en_majuscules(s: &[char]) -> (r: Vec<char>)
    ensures
        r@ == majuscules(s@),
{
    let mut r: Vec<char> = Vec::new();
    for i in 0..s.len()
        invariant
            r@ =~= majuscules(s@.take(i as int)),
    {
        r.push(en_majuscule(s[i]));
    }
    assert(s@.take(s@.len() as int) =~= s@);
    r
}

// ----------------------------------------------------------------- conversions

/// The characters of a string.
pub fn caracteres(s: &str) -> (v: Vec<char>)
    ensures
        v@ == s@,
{
    let mut v: Vec<char> = Vec::new();
    for c in it: s.chars()
        invariant
            v@ == it.seq().take(it.index() as int),
    {
        v.push(c);
    }
    v
}

/// The string made of some characters.
pub fn chaine(v: &[char]) -> (s: String)
    ensures
        s@ == v@,
{
    let mut s = String::new();
    for c in it: v.iter()
        invariant
            s@ == v@.take(it.index() as int),
    {
        s.push(*c);
    }
    s
}

/// A copy of a string slice.
pub fn copier(s: &str) -> (r: String)
    ensures
        r@ == s@,
{
    s.to_owned()
}

/// Appends a string to characters.
pub fn ajouter(v: &mut Vec<char>, s: &str)
    ensures
        final(v)@ == old(v)@ + s@,
{
    let mut t: Vec<char> = caracteres(s);
    v.append(&mut t);
}

/// Appends characters to characters.
pub fn ajouter_car(v: &mut Vec<char>, s: &[char])
    ensures
        final(v)@ == old(v)@ + s@,
{
    let mut t: Vec<char> = slice_to_vec(s);
    v.append(&mut t);
}

/// The texts that some strings hold.
pub open spec fn textes(v: Seq<String>) -> Seq<Seq<char>> {
    v.map_values(|s: String| s@)
}

/// Copies a list of strings.
pub fn copier_textes(v: &Vec<String>) -> (r: Vec<String>)
    ensures
        r@ == v@,
{
    let r = v.clone();
    assert(r@ =~= v@);
    r
}

/// Whether two strings hold the same text.
pub fn egal(a: &str, b: &str) -> (r: bool)
    ensures
        r == (a@ == b@),
{
    let x = a.as_bytes();
    let y = b.as_bytes();
    if x.len() != y.len() {
        return false;
    }
    for i in 0..x.len()
        invariant
            x@.len() == y@.len(),
            x@ == encode_utf8(a@),
            y@ == encode_utf8(b@),
            forall|j: int| 0 <= j < i ==> x@[j] == y@[j],
    {
        if x[i] != y[i] {
            return false;
        }
    }
    proof {
        assert(x@ =~= y@);
        encode_utf8_decode_utf8(a@);
        encode_utf8_decode_utf8(b@);
    }
    true
}

/// Whether two slices hold the same characters.
pub fn egal_car(a: &[char], b: &[char]) -> (r: bool)
    ensures
        r == (a@ == b@),
{
    if a.len() != b.len() {
        return false;
    }
    for i in 0..a.len()
        invariant
            a@.len() == b@.len(),
            forall|j: int| 0 <= j < i ==> a@[j] == b@[j],
    {
        if a[i] != b[i] {
            return false;
        }
    }
    assert(a@ =~= b@);
    true
}

/// Whether characters spell a given string.
pub fn epelle(a: &[char], b: &str) -> (r: bool)
    ensures
        r == (a@ == b@),
{
    let c = caracteres(b);
    egal_car(a, c.as_slice())
}

/// Whether two strings are equal once their ASCII capitals are lowered.
pub fn egal_sans_casse(a: &str, b: &str) -> (r: bool)
    ensures
        r == (minuscules(a@) == minuscules(b@)),
{
    let x = caracteres(a);
    let y = caracteres(b);
    let u = en_minuscules(x.as_slice());
    let v = en_minuscules(y.as_slice());
    egal_car(u.as_slice(), v.as_slice())
}

/// Whether a list of strings holds a given text.
pub fn contient_texte(liste: &Vec<String>, t: &str) -> (r: bool)
    ensures
        r == textes(liste@).contains(t@),
{
    for i in 0..liste.len()
        invariant
            forall|j: int| 0 <= j < i ==> liste@[j]@ != t@,
    {
        if egal(liste[i].as_str(), t) {
            assert(textes(liste@)[i as int] == t@);
            return true;
        }
    }
    assert forall|j: int| 0 <= j < textes(liste@).len() implies textes(liste@)[j] != t@ by {
        assert(textes(liste@)[j] == liste@[j]@);
    }
    false
}

// ------------------------------------------------------------------- searching

/// Looks for a character, from the start.
pub fn indice(s: &[char], c: char) -> (r: Option<usize>)
    ensures
        match r {
            Some(i) => i < s@.len() && s@.index_of_first(c) == Some(i as int),
            None => s@.index_of_first(c) is None,
        },
{
    proof {
        s@.index_of_first_ensures(c);
    }
    for i in 0..s.len()
        invariant
            forall|j: int| 0 <= j < i ==> s@[j] != c,
            match s@.index_of_first(c) {
                Some(k) => {
                    &&& s@.contains(c)
                    &&& 0 <= k < s@.len()
                    &&& s@[k] == c
                    &&& forall|j: int| 0 <= j < k < s@.len() ==> s@[j] != c
                },
                None => !s@.contains(c),
            },
    {
        if s[i] == c {
            assert(s@.contains(c));
            return Some(i);
        }
    }
    None
}

/// Looks for a character, from the end.
pub fn dernier_indice(s: &[char], c: char) -> (r: Option<usize>)
    ensures
        match r {
            Some(i) => i < s@.len() && s@.index_of_last(c) == Some(i as int),
            None => s@.index_of_last(c) is None,
        },
{
    proof {
        s@.index_of_last_ensures(c);
    }
    let mut i: usize = s.len();
    while i > 0
        invariant
            i <= s@.len(),
            forall|j: int| i <= j < s@.len() ==> s@[j] != c,
            match s@.index_of_last(c) {
                Some(k) => {
                    &&& s@.contains(c)
                    &&& 0 <= k < s@.len()
                    &&& s@[k] == c
                    &&& forall|j: int| 0 <= k < j < s@.len() ==> s@[j] != c
                },
                None => !s@.contains(c),
            },
        decreases i,
    {
        i -= 1;
        if s[i] == c {
            assert(s@.contains(c));
            return Some(i);
        }
    }
    None
}

/// Whether `m` stands in `s` at index `i`.
pub open spec fn occurrence(s: Seq<char>, m: Seq<char>, i: int) -> bool {
    0 <= i && i + m.len() <= s.len() && s.subrange(i, i + m.len()) == m
}

/// The first index, from `depart` on, at which `m` stands in `s`.
pub open spec fn position(s: Seq<char>, m: Seq<char>, depart: int) -> Option<int>
    decreases s.len() + 1 - depart,
{
    if depart < 0 || depart + m.len() > s.len() {
        None
    } else if occurrence(s, m, depart) {
        Some(depart)
    } else {
        position(s, m, depart + 1)
    }
}

/// Whether `s` starts with `p`.
pub open spec fn debute(s: Seq<char>, p: Seq<char>) -> bool {
    occurrence(s, p, 0)
}

/// Whether `s` ends with `p`.
pub open spec fn finit(s: Seq<char>, p: Seq<char>) -> bool {
    occurrence(s, p, s.len() - p.len())
}

/// The first occurrence is one, and none comes before it.
pub proof fn lemme_position(s: Seq<char>, m: Seq<char>, depart: int)
    requires
        0 <= depart,
    ensures
        match position(s, m, depart) {
            Some(i) => {
                &&& depart <= i
                &&& occurrence(s, m, i)
                &&& forall|j: int| depart <= j < i ==> !#[trigger] occurrence(s, m, j)
            },
            None => forall|j: int| depart <= j ==> !#[trigger] occurrence(s, m, j),
        },
    decreases s.len() + 1 - depart,
{
    if depart + m.len() > s.len() {
    } else if occurrence(s, m, depart) {
    } else {
        lemme_position(s, m, depart + 1);
    }
}

/// Whether `m` stands in `s` at index `i`.
pub fn est_occurrence(s: &[char], m: &[char], i: usize) -> (r: bool)
    ensures
        r == occurrence(s@, m@, i as int),
{
    if i > s.len() || m.len() > s.len() - i {
        return false;
    }
    egal_car(slice_subrange(s, i, i + m.len()), m)
}

/// Looks for a text, from the start.
pub fn chercher(s: &[char], m: &[char]) -> (r: Option<usize>)
    ensures
        match r {
            Some(i) => i + m@.len() <= s@.len() && position(s@, m@, 0) == Some(i as int),
            None => position(s@, m@, 0) is None,
        },
{
    if m.len() > s.len() {
        return None;
    }
    let fin: usize = s.len() - m.len();
    let mut i: usize = 0;
    while i <= fin
        invariant
            fin + m@.len() == s@.len(),
            i <= fin + 1,
            fin < usize::MAX || i <= fin,
            position(s@, m@, 0) == position(s@, m@, i as int),
        decreases fin + 1 - i,
    {
        if est_occurrence(s, m, i) {
            return Some(i);
        }
        if i == fin {
            assert(position(s@, m@, fin + 1) is None);
            return None;
        }
        i += 1;
    }
    None
}

/// Looks for a string in characters.
pub fn chercher_texte(s: &[char], m: &str) -> (r: Option<usize>)
    ensures
        match r {
            Some(i) => i + m@.len() <= s@.len() && position(s@, m@, 0) == Some(i as int),
            None => position(s@, m@, 0) is None,
        },
{
    let c = caracteres(m);
    chercher(s, c.as_slice())
}

/// What follows a prefix, where the text starts with it.
pub open spec fn apres_prefixe(s: Seq<char>, p: Seq<char>) -> Option<Seq<char>> {
    if debute(s, p) {
        Some(s.subrange(p.len() as int, s.len() as int))
    } else {
        None
    }
}

/// Removes a prefix.
pub fn oter_prefixe<'a>(s: &'a [char], p: &str) -> (r: Option<&'a [char]>)
    ensures
        match r {
            Some(t) => apres_prefixe(s@, p@) == Some(t@),
            None => apres_prefixe(s@, p@) is None,
        },
{
    let m = caracteres(p);
    if est_occurrence(s, m.as_slice(), 0) {
        Some(slice_subrange(s, m.len(), s.len()))
    } else {
        None
    }
}

/// What precedes a suffix, where the text ends with it.
pub open spec fn avant_suffixe(s: Seq<char>, p: Seq<char>) -> Option<Seq<char>> {
    if finit(s, p) {
        Some(s.subrange(0, s.len() - p.len()))
    } else {
        None
    }
}

/// Removes a suffix.
pub fn oter_suffixe<'a>(s: &'a [char], p: &str) -> (r: Option<&'a [char]>)
    ensures
        match r {
            Some(t) => avant_suffixe(s@, p@) == Some(t@),
            None => avant_suffixe(s@, p@) is None,
        },
{
    let m = caracteres(p);
    if m.len() <= s.len() && est_occurrence(s, m.as_slice(), s.len() - m.len()) {
        Some(slice_subrange(s, 0, s.len() - m.len()))
    } else {
        None
    }
}

/// What follows the first occurrence of a text.
pub open spec fn apres_premier(s: Seq<char>, m: Seq<char>) -> Option<Seq<char>> {
    match position(s, m, 0) {
        Some(i) => Some(s.subrange(i + m.len(), s.len() as int)),
        None => None,
    }
}

/// What follows the first occurrence of a string.
pub fn suite_de<'a>(s: &'a [char], m: &str) -> (r: Option<&'a [char]>)
    ensures
        match r {
            Some(t) => apres_premier(s@, m@) == Some(t@),
            None => apres_premier(s@, m@) is None,
        },
{
    let c = caracteres(m);
    proof {
        lemme_position(s@, m@, 0);
    }
    let n: usize = s.len();
    match chercher(s, c.as_slice()) {
        Some(i) => Some(slice_subrange(s, i + c.len(), n)),
        None => None,
    }
}

/// The two sides of the first occurrence of a character.
pub open spec fn coupe(s: Seq<char>, c: char) -> Option<(Seq<char>, Seq<char>)> {
    match s.index_of_first(c) {
        Some(i) => Some((s.subrange(0, i), s.subrange(i + 1, s.len() as int))),
        None => None,
    }
}

/// Cuts a text at the first occurrence of a character.
pub fn couper<'a>(s: &'a [char], c: char) -> (r: Option<(&'a [char], &'a [char])>)
    ensures
        match r {
            Some((a, b)) => coupe(s@, c) == Some((a@, b@)),
            None => coupe(s@, c) is None,
        },
{
    let n: usize = s.len();
    match indice(s, c) {
        Some(i) => Some((slice_subrange(s, 0, i), slice_subrange(s, i + 1, n))),
        None => None,
    }
}

/// What follows the last occurrence of a character, or the whole text.
pub open spec fn dernier_champ(s: Seq<char>, c: char) -> Seq<char> {
    match s.index_of_last(c) {
        Some(i) => s.subrange(i + 1, s.len() as int),
        None => s,
    }
}

/// What follows the last occurrence of a character, or the whole text.
pub fn lire_dernier_champ<'a>(s: &'a [char], c: char) -> (r: &'a [char])
    ensures
        r@ == dernier_champ(s@, c),
{
    let n: usize = s.len();
    match dernier_indice(s, c) {
        Some(i) => slice_subrange(s, i + 1, n),
        None => s,
    }
}

// -------------------------------------------------------------------- trimming

/// A text without its leading white space.
pub open spec fn sans_blancs_debut(s: Seq<char>) -> Seq<char>
    decreases s.len(),
{
    if s.len() > 0 && blanc(s[0]) {
        sans_blancs_debut(s.drop_first())
    } else {
        s
    }
}

/// A text without its trailing white space.
pub open spec fn sans_blancs_fin(s: Seq<char>) -> Seq<char>
    decreases s.len(),
{
    if s.len() > 0 && blanc(s.last()) {
        sans_blancs_fin(s.drop_last())
    } else {
        s
    }
}

/// A text without white space at either end.
pub open spec fn sans_blancs(s: Seq<char>) -> Seq<char> {
    sans_blancs_fin(sans_blancs_debut(s))
}

/// Removes leading white space.
pub fn rogner_debut<'a>(s: &'a [char]) -> (r: &'a [char])
    ensures
        r@ == sans_blancs_debut(s@),
        r@.len() <= s@.len(),
{
    let mut i: usize = 0;
    assert(s@.subrange(0, s@.len() as int) =~= s@);
    while i < s.len() && est_blanc(s[i])
        invariant
            i <= s@.len(),
            sans_blancs_debut(s@) == sans_blancs_debut(s@.subrange(i as int, s@.len() as int)),
        decreases s@.len() - i,
    {
        assert(s@.subrange(i as int, s@.len() as int).drop_first() =~= s@.subrange(
            i + 1,
            s@.len() as int,
        ));
        i += 1;
    }
    slice_subrange(s, i, s.len())
}

/// Removes trailing white space.
pub fn rogner_fin<'a>(s: &'a [char]) -> (r: &'a [char])
    ensures
        r@ == sans_blancs_fin(s@),
        r@.len() <= s@.len(),
{
    let mut n: usize = s.len();
    assert(s@.subrange(0, s@.len() as int) =~= s@);
    while n > 0 && est_blanc(s[n - 1])
        invariant
            n <= s@.len(),
            sans_blancs_fin(s@) == sans_blancs_fin(s@.subrange(0, n as int)),
        decreases n,
    {
        assert(s@.subrange(0, n as int).drop_last() =~= s@.subrange(0, n - 1));
        n -= 1;
    }
    slice_subrange(s, 0, n)
}

/// Removes white space at both ends.
pub fn rogner<'a>(s: &'a [char]) -> (r: &'a [char])
    ensures
        r@ == sans_blancs(s@),
        r@.len() <= s@.len(),
{
    rogner_fin(rogner_debut(s))
}

/// A text without the occurrences of `c` that end it.
pub open spec fn sans_fin(s: Seq<char>, c: char) -> Seq<char>
    decreases s.len(),
{
    if s.len() > 0 && s.last() == c {
        sans_fin(s.drop_last(), c)
    } else {
        s
    }
}

/// Removes the occurrences of `c` that end a text.
pub fn oter_fin<'a>(s: &'a [char], c: char) -> (r: &'a [char])
    ensures
        r@ == sans_fin(s@, c),
{
    let mut n: usize = s.len();
    assert(s@.subrange(0, s@.len() as int) =~= s@);
    while n > 0 && s[n - 1] == c
        invariant
            n <= s@.len(),
            sans_fin(s@, c) == sans_fin(s@.subrange(0, n as int), c),
        decreases n,
    {
        assert(s@.subrange(0, n as int).drop_last() =~= s@.subrange(0, n - 1));
        n -= 1;
    }
    slice_subrange(s, 0, n)
}

/// A text without the occurrences of `c` that start it.
pub open spec fn sans_debut(s: Seq<char>, c: char) -> Seq<char>
    decreases s.len(),
{
    if s.len() > 0 && s[0] == c {
        sans_debut(s.drop_first(), c)
    } else {
        s
    }
}

/// Removes the occurrences of `c` that start a text.
pub fn oter_debut<'a>(s: &'a [char], c: char) -> (r: &'a [char])
    ensures
        r@ == sans_debut(s@, c),
{
    let mut i: usize = 0;
    assert(s@.subrange(0, s@.len() as int) =~= s@);
    while i < s.len() && s[i] == c
        invariant
            i <= s@.len(),
            sans_debut(s@, c) == sans_debut(s@.subrange(i as int, s@.len() as int), c),
        decreases s@.len() - i,
    {
        assert(s@.subrange(i as int, s@.len() as int).drop_first() =~= s@.subrange(
            i + 1,
            s@.len() as int,
        ));
        i += 1;
    }
    slice_subrange(s, i, s.len())
}

// ------------------------------------------------------------------- splitting

/// The fields of a text between the occurrences of a character.
pub open spec fn champs(s: Seq<char>, c: char) -> Seq<Seq<char>>
    decreases s.len(),
    via champs_decroit
{
    match s.index_of_first(c) {
        Some(i) => seq![s.subrange(0, i)] + champs(s.subrange(i + 1, s.len() as int), c),
        None => seq![s],
    }
}

#[via_fn]
proof fn champs_decroit(s: Seq<char>, c: char) {
    s.index_of_first_ensures(c);
}

/// The views of a list of slices.
pub open spec fn vues_car(v: Seq<Vec<char>>) -> Seq<Seq<char>> {
    v.map_values(|s: Vec<char>| s@)
}

/// Splits a text at every occurrence of a character.
pub fn decouper(s: &[char], c: char) -> (r: Vec<Vec<char>>)
    ensures
        vues_car(r@) == champs(s@, c),
{
    let mut r: Vec<Vec<char>> = Vec::new();
    let mut reste: &[char] = s;
    loop
        invariant
            vues_car(r@) + champs(reste@, c) =~= champs(s@, c),
        decreases reste@.len(),
    {
        let ghost avant = r@;
        match couper(reste, c) {
            Some((a, b)) => {
                proof {
                    reste@.index_of_first_ensures(c);
                }
                r.push(slice_to_vec(a));
                proof {
                    assert(vues_car(r@) =~= vues_car(avant).push(a@));
                }
                reste = b;
            },
            None => {
                r.push(slice_to_vec(reste));
                proof {
                    assert(vues_car(r@) =~= vues_car(avant).push(reste@));
                }
                return r;
            },
        }
    }
}

/// A line without the carriage return that ends it.
pub open spec fn sans_retour(s: Seq<char>) -> Seq<char> {
    if s.len() > 0 && s.last() == '\r' {
        s.drop_last()
    } else {
        s
    }
}

/// The lines of a text: each ends with a line feed, which a carriage return may
/// precede; a last line may do without.
pub open spec fn lignes(s: Seq<char>) -> Seq<Seq<char>>
    decreases s.len(),
    via lignes_decroit
{
    if s.len() == 0 {
        Seq::empty()
    } else {
        match s.index_of_first('\n') {
            Some(i) => seq![sans_retour(s.subrange(0, i))] + lignes(
                s.subrange(i + 1, s.len() as int),
            ),
            None => seq![s],
        }
    }
}

#[via_fn]
proof fn lignes_decroit(s: Seq<char>) {
    s.index_of_first_ensures('\n');
}

/// Splits a text into lines.
pub fn decouper_lignes(s: &[char]) -> (r: Vec<Vec<char>>)
    ensures
        vues_car(r@) == lignes(s@),
{
    let mut r: Vec<Vec<char>> = Vec::new();
    let mut reste: &[char] = s;
    while reste.len() > 0
        invariant
            vues_car(r@) + lignes(reste@) =~= lignes(s@),
        decreases reste@.len(),
    {
        let ghost avant = r@;
        match couper(reste, '\n') {
            Some((a, b)) => {
                proof {
                    reste@.index_of_first_ensures('\n');
                }
                let a = if a.len() > 0 && a[a.len() - 1] == '\r' {
                    slice_subrange(a, 0, a.len() - 1)
                } else {
                    a
                };
                r.push(slice_to_vec(a));
                proof {
                    assert(vues_car(r@) =~= vues_car(avant).push(a@));
                }
                reste = b;
            },
            None => {
                r.push(slice_to_vec(reste));
                proof {
                    assert(vues_car(r@) =~= vues_car(avant).push(reste@));
                    assert(vues_car(r@) =~= lignes(s@));
                }
                return r;
            },
        }
    }
    assert(lignes(reste@) =~= Seq::empty());
    r
}

/// The length of the word that starts a text: up to the first white space.
pub open spec fn longueur_mot(s: Seq<char>) -> int
    decreases s.len(),
{
    if s.len() == 0 || blanc(s[0]) {
        0
    } else {
        1 + longueur_mot(s.drop_first())
    }
}

/// A word is no longer than the text it starts.
pub proof fn lemme_longueur_mot(s: Seq<char>)
    ensures
        0 <= longueur_mot(s) <= s.len(),
        s.len() > 0 && !blanc(s[0]) ==> longueur_mot(s) > 0,
    decreases s.len(),
{
    if s.len() == 0 || blanc(s[0]) {
    } else {
        lemme_longueur_mot(s.drop_first());
    }
}

proof fn lemme_rogne_court(s: Seq<char>)
    ensures
        sans_blancs_debut(s).len() <= s.len(),
        sans_blancs_debut(s).len() > 0 ==> !blanc(sans_blancs_debut(s)[0]),
    decreases s.len(),
{
    if s.len() > 0 && blanc(s[0]) {
        lemme_rogne_court(s.drop_first());
    }
}

/// The words of a text: its longest runs without white space.
pub open spec fn mots(s: Seq<char>) -> Seq<Seq<char>>
    decreases s.len(),
    via mots_decroit
{
    let t = sans_blancs_debut(s);
    if t.len() == 0 {
        Seq::empty()
    } else {
        let n = longueur_mot(t);
        seq![t.subrange(0, n)] + mots(t.subrange(n, t.len() as int))
    }
}

#[via_fn]
proof fn mots_decroit(s: Seq<char>) {
    lemme_rogne_court(s);
    lemme_longueur_mot(sans_blancs_debut(s));
}

/// Measures the word that starts a text.
pub fn mesurer_mot(s: &[char]) -> (n: usize)
    ensures
        n == longueur_mot(s@),
        n <= s@.len(),
{
    let mut i: usize = 0;
    assert(s@.subrange(0, s@.len() as int) =~= s@);
    while i < s.len() && !est_blanc(s[i])
        invariant
            i <= s@.len(),
            longueur_mot(s@) == i + longueur_mot(s@.subrange(i as int, s@.len() as int)),
        decreases s@.len() - i,
    {
        assert(s@.subrange(i as int, s@.len() as int).drop_first() =~= s@.subrange(
            i + 1,
            s@.len() as int,
        ));
        i += 1;
    }
    i
}

/// Whether a text is one word: it is not empty, and holds no white space.
pub open spec fn mot(s: Seq<char>) -> bool {
    s.len() > 0 && forall|i: int| 0 <= i < s.len() ==> !blanc(#[trigger] s[i])
}

/// A word is as long as the text that it makes, and ends where white space follows.
proof fn lemme_mot_entier(s: Seq<char>, suite: Seq<char>)
    requires
        forall|i: int| 0 <= i < s.len() ==> !blanc(#[trigger] s[i]),
        suite.len() > 0 ==> blanc(suite[0]),
    ensures
        longueur_mot(s + suite) == s.len(),
    decreases s.len(),
{
    if s.len() == 0 {
        assert(s + suite =~= suite);
    } else {
        assert((s + suite).drop_first() =~= s.drop_first() + suite);
        lemme_mot_entier(s.drop_first(), suite);
    }
}

/// The characters of the word that starts a text are not white space.
proof fn lemme_mot_en_tete(s: Seq<char>)
    ensures
        0 <= longueur_mot(s) <= s.len(),
        forall|i: int| 0 <= i < longueur_mot(s) ==> !blanc(#[trigger] s[i]),
        longueur_mot(s) < s.len() ==> blanc(s[longueur_mot(s)]),
    decreases s.len(),
{
    if s.len() > 0 && !blanc(s[0]) {
        let t = s.drop_first();
        lemme_mot_en_tete(t);
        assert forall|i: int| 0 <= i < longueur_mot(s) implies !blanc(#[trigger] s[i]) by {
            if i > 0 {
                assert(s[i] == t[i - 1]);
            }
        }
    }
}

/// The words of a text are words.
pub proof fn lemme_mots(s: Seq<char>)
    ensures
        forall|i: int| 0 <= i < mots(s).len() ==> mot(#[trigger] mots(s)[i]),
    decreases s.len(),
{
    let t = sans_blancs_debut(s);
    lemme_rogne_court(s);
    if t.len() > 0 {
        let n = longueur_mot(t);
        lemme_longueur_mot(t);
        lemme_mot_en_tete(t);
        let fin = t.subrange(n, t.len() as int);
        lemme_mots(fin);
        assert(mot(t.subrange(0, n)));
        assert forall|i: int| 0 <= i < mots(s).len() implies mot(#[trigger] mots(s)[i]) by {
            if i > 0 {
                assert(mots(s)[i] == mots(fin)[i - 1]);
            }
        }
    }
}

/// Text that follows does not change where the leading white space ends, if some is
/// left.
proof fn lemme_rogne_ajout(s: Seq<char>, suite: Seq<char>)
    ensures
        sans_blancs_debut(s).len() > 0 ==> sans_blancs_debut(s + suite) == sans_blancs_debut(s)
            + suite,
        sans_blancs_debut(s).len() == 0 ==> sans_blancs_debut(s + suite) == sans_blancs_debut(
            suite,
        ),
    decreases s.len(),
{
    if s.len() == 0 {
        assert(s + suite =~= suite);
    } else if blanc(s[0]) {
        assert((s + suite).drop_first() =~= s.drop_first() + suite);
        lemme_rogne_ajout(s.drop_first(), suite);
    }
}

/// A word put behind a text and a space is the last word of the whole.
proof fn lemme_mots_ajout(s: Seq<char>, m: Seq<char>)
    requires
        mot(m),
    ensures
        mots(s + seq![' '] + m) == mots(s).push(m),
    decreases s.len(),
{
    let suite = seq![' '] + m;
    let tout = s + seq![' '] + m;
    assert(tout =~= s + suite);
    let t = sans_blancs_debut(s);
    lemme_rogne_ajout(s, suite);
    lemme_rogne_court(s);
    if t.len() == 0 {
        assert(suite.drop_first() =~= m);
        assert(sans_blancs_debut(m) == m);
        assert(sans_blancs_debut(suite) == m);
        lemme_mot_entier(m, Seq::empty());
        assert(m + Seq::<char>::empty() =~= m);
        assert(m.subrange(0, m.len() as int) =~= m);
        let vide = m.subrange(m.len() as int, m.len() as int);
        assert(sans_blancs_debut(vide).len() == 0);
        assert(mots(vide) =~= Seq::empty());
        assert(mots(tout) =~= seq![m]);
        assert(mots(s).push(m) =~= seq![m]);
    } else {
        let n = longueur_mot(t);
        lemme_longueur_mot(t);
        lemme_mot_en_tete(t);
        let u = t + suite;
        let tete = t.subrange(0, n);
        let fin = t.subrange(n, t.len() as int);
        assert(u =~= tete + (fin + suite));
        lemme_mot_entier(tete, fin + suite);
        assert(u.subrange(0, n) =~= tete);
        assert(u.subrange(n, u.len() as int) =~= fin + seq![' '] + m);
        lemme_mots_ajout(fin, m);
        assert(mots(tout) =~= seq![tete] + mots(fin).push(m));
        assert(mots(tout) =~= mots(s).push(m));
    }
}

/// Words joined by spaces are split into the same words.
pub proof fn loi_mots_joints(v: Seq<Seq<char>>)
    requires
        forall|i: int| 0 <= i < v.len() ==> mot(#[trigger] v[i]),
    ensures
        mots(jointure(v, " "@)) == v,
    decreases v.len(),
{
    reveal_strlit(" ");
    assert(" "@ =~= seq![' ']);
    if v.len() == 0 {
        assert(sans_blancs_debut(jointure(v, " "@)).len() == 0);
        assert(mots(jointure(v, " "@)) =~= v);
    } else if v.len() == 1 {
        let vide = Seq::<char>::empty();
        let a = jointure(v, " "@);
        assert(sans_blancs_debut(a) == a);
        lemme_mot_entier(a, vide);
        assert(a + vide =~= a);
        assert(a.subrange(0, a.len() as int) =~= a);
        let fin = a.subrange(a.len() as int, a.len() as int);
        assert(sans_blancs_debut(fin).len() == 0);
        assert(mots(fin) =~= Seq::empty());
        assert(mots(a) =~= v);
    } else {
        loi_mots_joints(v.drop_last());
        lemme_mots_ajout(jointure(v.drop_last(), " "@), v.last());
        assert(v.drop_last().push(v.last()) =~= v);
    }
}

/// Splits a text into words.
pub fn decouper_mots(s: &[char]) -> (r: Vec<Vec<char>>)
    ensures
        vues_car(r@) == mots(s@),
{
    let mut r: Vec<Vec<char>> = Vec::new();
    let mut reste: &[char] = s;
    loop
        invariant
            vues_car(r@) + mots(reste@) =~= mots(s@),
        decreases reste@.len(),
    {
        let ghost avant = r@;
        let t = rogner_debut(reste);
        if t.len() == 0 {
            return r;
        }
        let n: usize = mesurer_mot(t);
        proof {
            lemme_rogne_court(reste@);
            lemme_longueur_mot(t@);
        }
        r.push(slice_to_vec(slice_subrange(t, 0, n)));
        proof {
            assert(vues_car(r@) =~= vues_car(avant).push(t@.subrange(0, n as int)));
        }
        reste = slice_subrange(t, n, t.len());
    }
}

/// The strings made of some lists of characters.
pub fn chaines(v: &Vec<Vec<char>>) -> (r: Vec<String>)
    ensures
        textes(r@) == vues_car(v@),
{
    let mut r: Vec<String> = Vec::new();
    for i in 0..v.len()
        invariant
            textes(r@) =~= vues_car(v@).take(i as int),
    {
        let ghost avant = r@;
        r.push(chaine(v[i].as_slice()));
        assert(textes(r@) =~= textes(avant).push(v@[i as int]@));
    }
    assert(vues_car(v@).take(v@.len() as int) =~= vues_car(v@));
    r
}

// --------------------------------------------------------------------- joining

/// Texts put end to end, with a separator between two.
pub open spec fn jointure(v: Seq<Seq<char>>, sep: Seq<char>) -> Seq<char>
    decreases v.len(),
{
    if v.len() == 0 {
        Seq::empty()
    } else if v.len() == 1 {
        v[0]
    } else {
        jointure(v.drop_last(), sep) + sep + v.last()
    }
}

/// Joins strings with a separator.
pub fn joindre(v: &Vec<String>, sep: &str) -> (r: String)
    ensures
        r@ == jointure(textes(v@), sep@),
{
    let mut r: Vec<char> = Vec::new();
    for i in 0..v.len()
        invariant
            r@ =~= jointure(textes(v@).take(i as int), sep@),
    {
        proof {
            assert(textes(v@).take(i + 1).drop_last() =~= textes(v@).take(i as int));
        }
        if i > 0 {
            ajouter(&mut r, sep);
        }
        ajouter(&mut r, v[i].as_str());
    }
    assert(textes(v@).take(v@.len() as int) =~= textes(v@));
    chaine(r.as_slice())
}

/// White space that ends a text is trimmed with the rest.
proof fn lemme_blanc_final(s: Seq<char>, c: char)
    requires
        blanc(c),
    ensures
        sans_blancs(s.push(c)) == sans_blancs(s),
    decreases s.len(),
{
    let t = s.push(c);
    if s.len() == 0 {
        assert(t.drop_first() =~= s);
    } else if blanc(s[0]) {
        assert(t.drop_first() =~= s.drop_first().push(c));
        lemme_blanc_final(s.drop_first(), c);
    } else {
        assert(t.drop_last() =~= s);
    }
}

/// The carriage return that ends a line is trimmed with its white space.
pub proof fn lemme_sans_retour(ligne: Seq<char>)
    ensures
        sans_blancs(sans_retour(ligne)) == sans_blancs(ligne),
{
    if ligne.len() > 0 && ligne.last() == '\r' {
        lemme_blanc_final(ligne.drop_last(), '\r');
        assert(ligne.drop_last().push('\r') =~= ligne);
    }
}

/// A text that neither starts nor ends with white space is left as it is.
pub proof fn lemme_rien_a_rogner(s: Seq<char>)
    requires
        s.len() > 0,
        !blanc(s[0]),
        !blanc(s.last()),
    ensures
        sans_blancs(s) == s,
{
}

/// A text is cut at the first separator.
pub proof fn lemme_coupe(avant: Seq<char>, c: char, apres: Seq<char>)
    requires
        !avant.contains(c),
    ensures
        coupe(avant + seq![c] + apres, c) == Some((avant, apres)),
{
    let s = avant + seq![c] + apres;
    s.index_of_first_ensures(c);
    assert(s[avant.len() as int] == c);
    assert(s.contains(c));
    let i = s.index_of_first(c)->0;
    if i < avant.len() {
        assert(avant[i] == c);
    }
    assert(s.subrange(0, avant.len() as int) =~= avant);
    assert(s.subrange(avant.len() as int + 1, s.len() as int) =~= apres);
}

/// The first of the fields that a separator delimits, and the others.
pub proof fn lemme_champs(avant: Seq<char>, c: char, apres: Seq<char>)
    requires
        !avant.contains(c),
    ensures
        champs(avant + seq![c] + apres, c) == seq![avant] + champs(apres, c),
        champs(avant, c) == seq![avant],
{
    lemme_coupe(avant, c, apres);
    avant.index_of_first_ensures(c);
}

/// What is kept of two lists, one after the other.
pub proof fn lemme_filtre_joint<A, B>(a: Seq<A>, b: Seq<A>, f: spec_fn(A) -> Option<B>)
    ensures
        (a + b).filter_map(f) == a.filter_map(f) + b.filter_map(f),
    decreases b.len(),
{
    reveal(Seq::filter_map);
    if b.len() == 0 {
        assert(a + b =~= a);
        assert(a.filter_map(f) + b.filter_map(f) =~= a.filter_map(f));
    } else {
        lemme_filtre_joint(a, b.drop_last(), f);
        assert((a + b).drop_last() =~= a + b.drop_last());
        assert((a + b).filter_map(f) =~= a.filter_map(f) + b.filter_map(f));
    }
}

/// What is read of two texts, line by line, where a line is read without regard to
/// the carriage return that ends it and an empty one gives nothing.
pub proof fn lemme_lignes_jointes<B>(
    a: Seq<char>,
    b: Seq<char>,
    f: spec_fn(Seq<char>) -> Option<B>,
)
    requires
        f(Seq::empty()) is None,
        forall|l: Seq<char>| #[trigger] f(sans_retour(l)) == f(l),
    ensures
        lignes(a + seq!['\n'] + b).filter_map(f) == lignes(a).filter_map(f) + lignes(b).filter_map(
            f,
        ),
    decreases a.len(),
{
    let s = a + seq!['\n'] + b;
    let n = a.len() as int;
    s.index_of_first_ensures('\n');
    a.index_of_first_ensures('\n');
    assert(s[n] == '\n');
    assert(s.contains('\n'));
    let i = s.index_of_first('\n')->0;
    match a.index_of_first('\n') {
        Some(k) => {
            assert(s[k] == '\n');
            assert(i == k) by {
                assert(a[i] == s[i]);
            }
            let u = a.subrange(k + 1, n);
            let tete = seq![sans_retour(a.subrange(0, k))];
            assert(s.subrange(0, k) =~= a.subrange(0, k));
            assert(s.subrange(k + 1, s.len() as int) =~= u + seq!['\n'] + b);
            lemme_lignes_jointes(u, b, f);
            lemme_filtre_joint(tete, lignes(u + seq!['\n'] + b), f);
            lemme_filtre_joint(tete, lignes(u), f);
            assert(lignes(s).filter_map(f) =~= lignes(a).filter_map(f) + lignes(b).filter_map(f));
        },
        None => {
            if i < n {
                assert(a[i] == '\n');
            }
            assert(s.subrange(0, n) =~= a);
            assert(s.subrange(n + 1, s.len() as int) =~= b);
            lemme_filtre_joint(seq![sans_retour(a)], lignes(b), f);
            Seq::lemma_filter_map_singleton(sans_retour(a), f);
            Seq::lemma_filter_map_singleton(a, f);
            assert(f(sans_retour(a)) == f(a));
            if n == 0 {
                assert(a =~= Seq::empty());
                reveal(Seq::filter_map);
                assert(lignes(a).filter_map(f) =~= Seq::empty());
            }
            assert(lignes(s).filter_map(f) =~= lignes(a).filter_map(f) + lignes(b).filter_map(f));
        },
    }
}

/// The words of two texts with white space between them are those of the one, then
/// those of the other.
pub proof fn lemme_mots_separes(a: Seq<char>, w: char, b: Seq<char>)
    requires
        blanc(w),
    ensures
        mots(a + seq![w] + b) == mots(a) + mots(b),
    decreases a.len(),
{
    let suite = seq![w] + b;
    let tout = a + seq![w] + b;
    assert(tout =~= a + suite);
    let t = sans_blancs_debut(a);
    lemme_rogne_ajout(a, suite);
    lemme_rogne_court(a);
    if t.len() == 0 {
        assert(suite.drop_first() =~= b);
        assert(sans_blancs_debut(suite) == sans_blancs_debut(b));
        assert(mots(a) =~= Seq::empty());
        assert(mots(tout) == mots(b));
        assert(mots(a) + mots(b) =~= mots(b));
    } else {
        let n = longueur_mot(t);
        lemme_longueur_mot(t);
        lemme_mot_en_tete(t);
        let u = t + suite;
        let tete = t.subrange(0, n);
        let fin = t.subrange(n, t.len() as int);
        assert(u =~= tete + (fin + suite));
        lemme_mot_entier(tete, fin + suite);
        assert(u.subrange(0, n) =~= tete);
        assert(u.subrange(n, u.len() as int) =~= fin + seq![w] + b);
        lemme_mots_separes(fin, w, b);
        assert(mots(tout) =~= seq![tete] + (mots(fin) + mots(b)));
        assert(mots(tout) =~= mots(a) + mots(b));
    }
}

/// White space holds no word.
pub proof fn lemme_mots_blancs(s: Seq<char>)
    requires
        forall|i: int| 0 <= i < s.len() ==> blanc(#[trigger] s[i]),
    ensures
        mots(s) == Seq::<Seq<char>>::empty(),
    decreases s.len(),
{
    if s.len() > 0 {
        let t = s.drop_first();
        assert forall|i: int| 0 <= i < t.len() implies blanc(#[trigger] t[i]) by {
            assert(t[i] == s[i + 1]);
        }
        lemme_mots_blancs(t);
        assert(blanc(s[0]));
    }
}

/// The words of a text are those of its lines, one line after the other.
pub open spec fn mots_des_lignes(v: Seq<Seq<char>>) -> Seq<Seq<char>>
    decreases v.len(),
{
    if v.len() == 0 {
        Seq::empty()
    } else {
        mots(v[0]) + mots_des_lignes(v.drop_first())
    }
}

/// The carriage return that ends a line is no part of its words.
proof fn lemme_mots_retour(l: Seq<char>)
    ensures
        mots(sans_retour(l)) == mots(l),
{
    if l.len() > 0 && l.last() == '\r' {
        let a = l.drop_last();
        let vide = Seq::<char>::empty();
        assert(l =~= a + seq!['\r'] + vide);
        lemme_mots_separes(a, '\r', vide);
        assert(mots(vide) =~= Seq::empty());
        assert(mots(a) + mots(vide) =~= mots(a));
    }
}

/// Splitting a text into lines keeps its words.
pub proof fn loi_mots_des_lignes(s: Seq<char>)
    ensures
        mots_des_lignes(lignes(s)) == mots(s),
    decreases s.len(),
{
    if s.len() == 0 {
        assert(mots(s) =~= Seq::empty());
    } else {
        s.index_of_first_ensures('\n');
        match s.index_of_first('\n') {
            Some(i) => {
                let a = s.subrange(0, i);
                let b = s.subrange(i + 1, s.len() as int);
                assert(s =~= a + seq!['\n'] + b);
                lemme_mots_separes(a, '\n', b);
                lemme_mots_retour(a);
                loi_mots_des_lignes(b);
                let v = seq![sans_retour(a)] + lignes(b);
                assert(v.drop_first() =~= lignes(b));
            },
            None => {
                let v = seq![s];
                assert(v.drop_first() =~= Seq::empty());
                assert(mots_des_lignes(v.drop_first()) =~= Seq::empty());
                assert(mots_des_lignes(v) =~= mots(s));
            },
        }
    }
}

/// The words of lines, the last one put apart.
pub proof fn lemme_mots_dernier(v: Seq<Seq<char>>)
    requires
        v.len() > 0,
    ensures
        mots_des_lignes(v) == mots_des_lignes(v.drop_last()) + mots(v.last()),
    decreases v.len(),
{
    if v.len() == 1 {
        assert(v.drop_first() =~= Seq::empty());
        assert(v.drop_last() =~= Seq::empty());
        assert(mots_des_lignes(v) =~= mots_des_lignes(v.drop_last()) + mots(v.last()));
    } else {
        lemme_mots_dernier(v.drop_first());
        assert(v.drop_first().drop_last() =~= v.drop_last().drop_first());
        assert(mots_des_lignes(v) =~= mots_des_lignes(v.drop_last()) + mots(v.last()));
    }
}

/// Joining lines keeps their words.
pub proof fn lemme_mots_joints_lignes(v: Seq<Seq<char>>)
    ensures
        mots(jointure(v, "\n"@)) == mots_des_lignes(v),
    decreases v.len(),
{
    reveal_strlit("\n");
    assert("\n"@ =~= seq!['\n']);
    if v.len() == 0 {
        assert(mots(jointure(v, "\n"@)) =~= Seq::empty());
    } else if v.len() == 1 {
        assert(v.drop_first() =~= Seq::empty());
        assert(mots_des_lignes(v.drop_first()) =~= Seq::empty());
        assert(mots_des_lignes(v) =~= mots(v[0]));
    } else {
        lemme_mots_joints_lignes(v.drop_last());
        lemme_mots_dernier(v);
        lemme_mots_separes(jointure(v.drop_last(), "\n"@), '\n', v.last());
    }
}

} // verus!
