//! What is held by account: values under the identifiers of the accounts, each
//! identifier at most once, in the order in which they came.

use vstd::prelude::*;

verus! {

/// The rank of an account.
pub open spec fn rang<V>(s: Seq<(i64, V)>, k: i64) -> Option<int>
    decreases s.len(),
{
    if s.len() == 0 {
        None
    } else {
        match rang(s.drop_last(), k) {
            Some(i) => Some(i),
            None => if s.last().0 == k {
                Some(s.len() - 1)
            } else {
                None
            },
        }
    }
}

/// What is held of an account.
pub open spec fn valeur<V>(s: Seq<(i64, V)>, k: i64) -> Option<V> {
    match rang(s, k) {
        Some(i) => Some(s[i].1),
        None => None,
    }
}

/// Whether something is held of an account.
pub open spec fn connu<V>(s: Seq<(i64, V)>, k: i64) -> bool {
    rang(s, k) is Some
}

/// A value put under an account, in the place of the one it had, else at the end.
pub open spec fn inscrit<V>(s: Seq<(i64, V)>, k: i64, v: V) -> Seq<(i64, V)> {
    match rang(s, k) {
        Some(i) => s.update(i, (k, v)),
        None => s.push((k, v)),
    }
}

/// What is left without an account.
pub open spec fn raye<V>(s: Seq<(i64, V)>, k: i64) -> Seq<(i64, V)> {
    match rang(s, k) {
        Some(i) => s.remove(i),
        None => s,
    }
}

/// The accounts of which something is held.
pub open spec fn clefs<V>(s: Seq<(i64, V)>) -> Seq<i64> {
    s.map_values(|e: (i64, V)| e.0)
}

/// Whether no account comes twice.
pub open spec fn sans_doublon<V>(s: Seq<(i64, V)>) -> bool {
    forall|i: int, j: int|
        0 <= i < s.len() && 0 <= j < s.len() && i != j ==> (#[trigger] s[i]).0 != (
        #[trigger] s[j]).0
}

/// What the search for an account finds.
pub proof fn lemme_rang<V>(s: Seq<(i64, V)>, k: i64)
    ensures
        match rang(s, k) {
            Some(i) => 0 <= i < s.len() && s[i].0 == k && forall|j: int|
                0 <= j < i ==> (#[trigger] s[j]).0 != k,
            None => forall|j: int| 0 <= j < s.len() ==> (#[trigger] s[j]).0 != k,
        },
    decreases s.len(),
{
    if s.len() > 0 {
        lemme_rang(s.drop_last(), k);
        assert forall|j: int| 0 <= j < s.len() - 1 implies #[trigger] s[j] == s.drop_last()[j] by {}
    }
}

/// A rank is the only one where an account comes first.
pub proof fn lemme_rang_unique<V>(s: Seq<(i64, V)>, k: i64, i: int)
    requires
        0 <= i < s.len(),
        s[i].0 == k,
        forall|j: int| 0 <= j < i ==> (#[trigger] s[j]).0 != k,
    ensures
        rang(s, k) == Some(i),
{
    lemme_rang(s, k);
}

/// A value put under an account is found there, and nothing changes of the other
/// accounts.
pub proof fn loi_inscription<V>(s: Seq<(i64, V)>, k: i64, v: V, autre: i64)
    requires
        sans_doublon(s),
    ensures
        sans_doublon(inscrit(s, k, v)),
        valeur(inscrit(s, k, v), k) == Some(v),
        autre != k ==> valeur(inscrit(s, k, v), autre) == valeur(s, autre),
{
    let t = inscrit(s, k, v);
    lemme_rang(s, k);
    lemme_rang(s, autre);
    lemme_rang(t, k);
    lemme_rang(t, autre);
    assert forall|i: int| 0 <= i < s.len() implies (#[trigger] t[i]).0 == s[i].0 by {}
    match rang(s, k) {
        Some(i) => {
            lemme_rang_unique(t, k, i);
        },
        None => {
            lemme_rang_unique(t, k, s.len() as int);
        },
    }
    if autre != k {
        match rang(s, autre) {
            Some(i) => {
                lemme_rang_unique(t, autre, i);
            },
            None => {
                if rang(t, autre) is Some {
                    let i = rang(t, autre)->Some_0;
                    if i < s.len() {
                        assert(s[i].0 == t[i].0);
                    }
                }
            },
        }
    }
}

/// Nothing is held any more of an account that was removed, and nothing changes of
/// the other accounts.
pub proof fn loi_radiation<V>(s: Seq<(i64, V)>, k: i64, autre: i64)
    requires
        sans_doublon(s),
    ensures
        sans_doublon(raye(s, k)),
        !connu(raye(s, k), k),
        autre != k ==> valeur(raye(s, k), autre) == valeur(s, autre),
{
    let t = raye(s, k);
    lemme_rang(s, k);
    lemme_rang(s, autre);
    lemme_rang(t, k);
    lemme_rang(t, autre);
    if let Some(i) = rang(s, k) {
        assert forall|j: int| 0 <= j < t.len() implies #[trigger] t[j] == s[if j < i {
            j
        } else {
            j + 1
        }] by {}
        if autre != k {
            match rang(s, autre) {
                Some(a) => {
                    let b = if a < i {
                        a
                    } else {
                        a - 1
                    };
                    assert(t[b] == s[a]);
                    lemme_rang_unique(t, autre, b);
                },
                None => {},
            }
        }
    }
}

/// Values by account.
#[derive(Debug)]
pub struct Annuaire<T> {
    entrees: Vec<(i64, T)>,
}

/// What is held by account.
pub open spec fn vues_entrees<T: View>(s: Seq<(i64, T)>) -> Seq<(i64, T::V)> {
    s.map_values(|e: (i64, T)| (e.0, e.1@))
}

impl<T: View> View for Annuaire<T> {
    type V = Seq<(i64, T::V)>;

    closed spec fn view(&self) -> Seq<(i64, T::V)> {
        vues_entrees(self.entrees@)
    }
}

impl<T: View> Annuaire<T> {
    /// Nothing of any account.
    pub fn nouveau() -> (r: Self)
        ensures
            r@ == Seq::<(i64, T::V)>::empty(),
    {
        let r = Annuaire { entrees: Vec::new() };
        assert(r@ =~= Seq::empty());
        r
    }

    fn indice(&self, compte: i64) -> (r: Option<usize>)
        ensures
            match r {
                Some(i) => i < self.entrees@.len() && rang(self@, compte) == Some(i as int),
                None => rang(self@, compte) is None,
            },
    {
        for i in 0..self.entrees.len()
            invariant
                forall|j: int| 0 <= j < i ==> (#[trigger] self@[j]).0 != compte,
        {
            assert(self@[i as int].0 == self.entrees@[i as int].0);
            if self.entrees[i].0 == compte {
                proof {
                    lemme_rang_unique(self@, compte, i as int);
                }
                return Some(i);
            }
        }
        proof {
            lemme_rang(self@, compte);
        }
        None
    }

    /// What is held of an account.
    pub fn valeur(&self, compte: i64) -> (r: Option<&T>)
        ensures
            match r {
                Some(v) => valeur(self@, compte) == Some(v@),
                None => valeur(self@, compte) is None,
            },
    {
        match self.indice(compte) {
            Some(i) => Some(&self.entrees[i].1),
            None => None,
        }
    }

    /// Whether something is held of an account.
    pub fn connu(&self, compte: i64) -> (r: bool)
        ensures
            r == connu(self@, compte),
    {
        self.indice(compte).is_some()
    }

    /// Puts a value under an account.
    pub fn inscrire(&mut self, compte: i64, valeur: T)
        ensures
            final(self)@ == inscrit(old(self)@, compte, valeur@),
    {
        let ghost s = self@;
        match self.indice(compte) {
            Some(i) => {
                self.entrees.set(i, (compte, valeur));
                assert(self@ =~= s.update(i as int, (compte, valeur@)));
            },
            None => {
                self.entrees.push((compte, valeur));
                assert(self@ =~= s.push((compte, valeur@)));
            },
        }
    }

    /// Removes an account, and hands out what was held of it.
    pub fn rayer(&mut self, compte: i64) -> (r: Option<T>)
        ensures
            final(self)@ == raye(old(self)@, compte),
            match r {
                Some(v) => valeur(old(self)@, compte) == Some(v@),
                None => valeur(old(self)@, compte) is None,
            },
    {
        let ghost s = self@;
        match self.indice(compte) {
            Some(i) => {
                let e = self.entrees.remove(i);
                assert(self@ =~= s.remove(i as int));
                Some(e.1)
            },
            None => None,
        }
    }

    /// Copies what is held, value by value.
    pub fn copier<F: Fn(&T) -> T>(&self, f: F) -> (r: Self)
        requires
            forall|a: &T| #[trigger] f.requires((a,)),
            forall|a: &T, b: T| #[trigger] f.ensures((a,), b) ==> b@ == a@,
        ensures
            r@ == self@,
    {
        let mut v: Vec<(i64, T)> = Vec::new();
        for i in 0..self.entrees.len()
            invariant
                forall|a: &T| #[trigger] f.requires((a,)),
                forall|a: &T, b: T| #[trigger] f.ensures((a,), b) ==> b@ == a@,
                vues_entrees(v@) =~= self@.take(i as int),
        {
            let ghost avant = vues_entrees(v@);
            let x = f(&self.entrees[i].1);
            let k: i64 = self.entrees[i].0;
            let ghost e = (k, x@);
            v.push((k, x));
            assert(vues_entrees(v@) =~= avant.push(e));
            assert(self@[i as int] == e);
        }
        assert(self@.take(self@.len() as int) =~= self@);
        Annuaire { entrees: v }
    }

    /// How many accounts something is held of.
    pub fn taille(&self) -> (r: usize)
        ensures
            r == self@.len(),
    {
        self.entrees.len()
    }

    /// The account of a rank, and what is held of it.
    pub fn entree(&self, i: usize) -> (r: (i64, &T))
        requires
            i < self@.len(),
        ensures
            (r.0, r.1@) == self@[i as int],
    {
        let e = &self.entrees[i];
        (e.0, &e.1)
    }
}

} // verus!
