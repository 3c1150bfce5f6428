//! Numbers as text: reading them as the standard library does, writing them in
//! decimal.

use vstd::prelude::*;
use vstd::slice::slice_subrange;

verus! {

/// `char::from_u32` gives the character of a code point, and nothing for a
/// surrogate or a number beyond the last code point.
pub assume_specification[ char::from_u32 ](i: u32) -> (res: Option<char>)
    ensures
        res == (if i < 0xD800 || 0xDFFF < i <= 0x10FFFF {
            Some(i as char)
        } else {
            None
        }),
;

/// The value of a digit in base ten or sixteen.
pub open spec fn chiffre(c: char, base: nat) -> Option<nat> {
    if '0' <= c <= '9' {
        Some((c as u32 - 48) as nat)
    } else if base == 16 && 'a' <= c <= 'f' {
        Some((c as u32 - 87) as nat)
    } else if base == 16 && 'A' <= c <= 'F' {
        Some((c as u32 - 55) as nat)
    } else {
        None
    }
}

/// The value of a digit in base ten or sixteen.
pub fn lire_chiffre(c: char, base: u64) -> (r: Option<u64>)
    requires
        base == 10 || base == 16,
    ensures
        match r {
            Some(v) => chiffre(c, base as nat) == Some(v as nat) && v < base,
            None => chiffre(c, base as nat) is None,
        },
{
    let n: u32 = c as u32;
    if '0' <= c && c <= '9' {
        Some((n - 48) as u64)
    } else if base == 16 && 'a' <= c && c <= 'f' {
        Some((n - 87) as u64)
    } else if base == 16 && 'A' <= c && c <= 'F' {
        Some((n - 55) as u64)
    } else {
        None
    }
}

/// Whether a text is a run of digits, at least one.
pub open spec fn chiffres(s: Seq<char>, base: nat) -> bool {
    s.len() > 0 && forall|i: int| 0 <= i < s.len() ==> chiffre(#[trigger] s[i], base) is Some
}

/// The number that a run of digits writes.
pub open spec fn valeur(s: Seq<char>, base: nat) -> nat
    decreases s.len(),
{
    if s.len() == 0 {
        0
    } else {
        valeur(s.drop_last(), base) * base + chiffre(s.last(), base).unwrap_or(0)
    }
}

/// A text without the plus sign that may start it.
pub open spec fn sans_plus(s: Seq<char>) -> Seq<char> {
    if s.len() > 0 && s[0] == '+' {
        s.drop_first()
    } else {
        s
    }
}

/// The unsigned number that a text writes: an optional plus sign and digits, no
/// larger than `max`.
pub open spec fn entier_base(s: Seq<char>, base: nat, max: nat) -> Option<nat> {
    let t = sans_plus(s);
    if chiffres(t, base) && valeur(t, base) <= max {
        Some(valeur(t, base))
    } else {
        None
    }
}

/// The unsigned decimal number that a text writes.
pub open spec fn entier(s: Seq<char>, max: nat) -> Option<nat> {
    entier_base(s, 10, max)
}

/// The signed decimal number that a text writes, within 64 bits.
pub open spec fn entier_signe(s: Seq<char>) -> Option<int> {
    if s.len() > 0 && s[0] == '-' {
        let t = s.drop_first();
        if chiffres(t, 10) && valeur(t, 10) <= 0x8000_0000_0000_0000 {
            Some(-(valeur(t, 10) as int))
        } else {
            None
        }
    } else {
        match entier(s, 0x7FFF_FFFF_FFFF_FFFF) {
            Some(n) => Some(n as int),
            None => None,
        }
    }
}

/// A longer run of digits writes no smaller a number.
proof fn lemme_valeur_croit(s: Seq<char>, base: nat, n: int)
    requires
        0 <= n <= s.len(),
        base >= 1,
    ensures
        valeur(s.subrange(0, n), base) <= valeur(s, base),
    decreases s.len(),
{
    if n == s.len() {
        assert(s.subrange(0, n) =~= s);
    } else {
        lemme_valeur_croit(s.drop_last(), base, n);
        assert(s.drop_last().subrange(0, n) =~= s.subrange(0, n));
        let v = valeur(s.drop_last(), base);
        assert(v <= v * base) by (nonlinear_arith)
            requires
                base >= 1,
        ;
    }
}

/// Reads a run of digits.
fn lire_chiffres(s: &[char], base: u64, max: u64) -> (r: Option<u64>)
    requires
        base == 10 || base == 16,
    ensures
        match r {
            Some(v) => chiffres(s@, base as nat) && valeur(s@, base as nat) == v && v <= max,
            None => !(chiffres(s@, base as nat) && valeur(s@, base as nat) <= max),
        },
{
    if s.len() == 0 {
        return None;
    }
    let mut v: u64 = 0;
    for i in 0..s.len()
        invariant
            s@.len() > 0,
            base == 10 || base == 16,
            v <= max,
            v == valeur(s@.subrange(0, i as int), base as nat),
            forall|j: int| 0 <= j < i ==> chiffre(#[trigger] s@[j], base as nat) is Some,
    {
        match lire_chiffre(s[i], base) {
            None => {
                return None;
            },
            Some(d) => {
                let w: u128 = v as u128 * base as u128 + d as u128;
                proof {
                    let p = s@.subrange(0, i + 1);
                    assert(p.drop_last() =~= s@.subrange(0, i as int));
                    assert(p.last() == s@[i as int]);
                    assert(valeur(p, base as nat) == w as nat);
                    lemme_valeur_croit(s@, base as nat, i + 1);
                }
                if w > max as u128 {
                    return None;
                }
                v = w as u64;
            },
        }
    }
    assert(s@.subrange(0, s@.len() as int) =~= s@);
    Some(v)
}

/// Reads an unsigned number: an optional plus sign and digits, no larger than
/// `max`.
pub fn lire_entier_base(s: &[char], base: u64, max: u64) -> (r: Option<u64>)
    requires
        base == 10 || base == 16,
    ensures
        match r {
            Some(v) => entier_base(s@, base as nat, max as nat) == Some(v as nat) && v <= max,
            None => entier_base(s@, base as nat, max as nat) is None,
        },
{
    if s.len() > 0 && s[0] == '+' {
        lire_chiffres(slice_subrange(s, 1, s.len()), base, max)
    } else {
        lire_chiffres(s, base, max)
    }
}

/// Reads an unsigned decimal number of 32 bits.
pub fn lire_u32(s: &[char]) -> (r: Option<u32>)
    ensures
        match r {
            Some(v) => entier(s@, u32::MAX as nat) == Some(v as nat),
            None => entier(s@, u32::MAX as nat) is None,
        },
{
    match lire_entier_base(s, 10, u32::MAX as u64) {
        Some(v) => Some(v as u32),
        None => None,
    }
}

/// Reads an unsigned decimal number of 64 bits.
pub fn lire_u64(s: &[char]) -> (r: Option<u64>)
    ensures
        match r {
            Some(v) => entier(s@, u64::MAX as nat) == Some(v as nat),
            None => entier(s@, u64::MAX as nat) is None,
        },
{
    lire_entier_base(s, 10, u64::MAX)
}

/// Reads an unsigned decimal number of the size of an index.
pub fn lire_usize(s: &[char]) -> (r: Option<usize>)
    ensures
        match r {
            Some(v) => entier(s@, usize::MAX as nat) == Some(v as nat),
            None => entier(s@, usize::MAX as nat) is None,
        },
{
    match lire_entier_base(s, 10, usize::MAX as u64) {
        Some(v) => Some(v as usize),
        None => None,
    }
}

/// Reads a signed decimal number of 64 bits.
pub fn lire_i64(s: &[char]) -> (r: Option<i64>)
    ensures
        match r {
            Some(v) => entier_signe(s@) == Some(v as int),
            None => entier_signe(s@) is None,
        },
{
    if s.len() > 0 && s[0] == '-' {
        match lire_chiffres(slice_subrange(s, 1, s.len()), 10, 0x8000_0000_0000_0000) {
            Some(v) => {
                if v == 0x8000_0000_0000_0000 {
                    Some(i64::MIN)
                } else {
                    Some(-(v as i64))
                }
            },
            None => None,
        }
    } else {
        match lire_entier_base(s, 10, 0x7FFF_FFFF_FFFF_FFFF) {
            Some(v) => Some(v as i64),
            None => None,
        }
    }
}

/// The digit that writes a number below ten.
pub open spec fn signe_chiffre(n: nat) -> char {
    (48 + n as u32) as char
}

/// A number in decimal, without leading zeros.
pub open spec fn decimal(n: nat) -> Seq<char>
    decreases n,
{
    if n < 10 {
        seq![signe_chiffre(n)]
    } else {
        decimal(n / 10).push(signe_chiffre(n % 10))
    }
}

/// A signed number in decimal.
pub open spec fn decimal_signe(n: int) -> Seq<char> {
    if n < 0 {
        seq!['-'] + decimal((-n) as nat)
    } else {
        decimal(n as nat)
    }
}

/// Writes a number in decimal.
pub fn ecrire_u64(n: u64) -> (r: Vec<char>)
    ensures
        r@ == decimal(n as nat),
    decreases n,
{
    if n < 10 {
        let c: char = (48 + n as u8) as char;
        let mut r: Vec<char> = Vec::new();
        r.push(c);
        assert(r@ =~= decimal(n as nat));
        r
    } else {
        let mut r: Vec<char> = ecrire_u64(n / 10);
        let c: char = (48 + (n % 10) as u8) as char;
        r.push(c);
        r
    }
}

/// Writes a signed number in decimal.
pub fn ecrire_i64(n: i64) -> (r: Vec<char>)
    ensures
        r@ == decimal_signe(n as int),
{
    if n < 0 {
        let mut r: Vec<char> = Vec::new();
        r.push('-');
        let m: u64 = (-(n as i128)) as u64;
        let mut d: Vec<char> = ecrire_u64(m);
        r.append(&mut d);
        assert(r@ =~= decimal_signe(n as int));
        r
    } else {
        ecrire_u64(n as u64)
    }
}

/// A decimal number starts with a digit, never with a sign.
pub proof fn lemme_decimal(n: nat)
    ensures
        chiffres(decimal(n), 10),
        valeur(decimal(n), 10) == n,
        sans_plus(decimal(n)) == decimal(n),
        forall|i: int| 0 <= i < decimal(n).len() ==> '0' <= #[trigger] decimal(n)[i] <= '9',
    decreases n,
{
    if n < 10 {
        assert(decimal(n).drop_last() =~= Seq::empty());
        assert(valeur(decimal(n).drop_last(), 10) == 0);
    } else {
        lemme_decimal(n / 10);
        assert(decimal(n).drop_last() =~= decimal(n / 10));
        assert(decimal(n)[0] == decimal(n / 10)[0]);
        assert forall|i: int| 0 <= i < decimal(n).len() implies '0' <= #[trigger] decimal(n)[i]
            <= '9' by {
            if i < decimal(n / 10).len() {
                assert(decimal(n)[i] == decimal(n / 10)[i]);
            }
        }
    }
}

/// Reading a number that was written gives it back.
pub proof fn loi_decimal_relu(n: nat, max: nat)
    requires
        n <= max,
    ensures
        entier(decimal(n), max) == Some(n),
{
    lemme_decimal(n);
}

/// The digit that writes a number below sixteen.
pub open spec fn signe_hexa(n: nat) -> char {
    if n < 10 {
        (48 + n as u32) as char
    } else {
        (55 + n as u32) as char
    }
}

/// A number in hexadecimal, with capitals and without leading zeros.
pub open spec fn hexadecimal(n: nat) -> Seq<char>
    decreases n,
{
    if n < 16 {
        seq![signe_hexa(n)]
    } else {
        hexadecimal(n / 16).push(signe_hexa(n % 16))
    }
}

/// A hexadecimal number starts with a digit, never with a sign.
pub proof fn lemme_hexadecimal(n: nat)
    ensures
        chiffres(hexadecimal(n), 16),
        valeur(hexadecimal(n), 16) == n,
        sans_plus(hexadecimal(n)) == hexadecimal(n),
    decreases n,
{
    let h = hexadecimal(n);
    if n < 16 {
        assert(h.drop_last() =~= Seq::empty());
        assert(valeur(h.drop_last(), 16) == 0);
        assert(chiffre(signe_hexa(n), 16) == Some(n));
    } else {
        lemme_hexadecimal(n / 16);
        assert(h.drop_last() =~= hexadecimal(n / 16));
        assert(h[0] == hexadecimal(n / 16)[0]);
        assert(chiffre(signe_hexa(n % 16), 16) == Some(n % 16));
        assert forall|i: int| 0 <= i < h.len() implies chiffre(#[trigger] h[i], 16) is Some by {
            if i < hexadecimal(n / 16).len() {
                assert(h[i] == hexadecimal(n / 16)[i]);
            }
        }
    }
}

} // verus!
