//! What the interface asks of the worker of an account, and the queue of it.
//!
//! A request that a later one makes void before it is dealt with is dropped: of
//! three folders opened while a first one loads, only the last is read, and a
//! message asked for and then left is not downloaded. A move or a marking is never
//! dropped.

use vstd::prelude::*;

use crate::annuaire::Annuaire;
use crate::magasin::vues;

verus! {

// ---------------------------------------------------------------------------- types

/// What it takes to open a session on an account. Lives in memory only: the password
/// is in the keyring of the system, never in the index.
pub struct Identifiants {
    pub hote: String,
    pub utilisateur: String,
    pub mot_de_passe: String,
}

/// What it takes to open a session on an account.
pub struct IdentifiantsVue {
    pub hote: Seq<char>,
    pub utilisateur: Seq<char>,
    pub mot_de_passe: Seq<char>,
}

impl View for Identifiants {
    type V = IdentifiantsVue;

    open spec fn view(&self) -> IdentifiantsVue {
        IdentifiantsVue {
            hote: self.hote@,
            utilisateur: self.utilisateur@,
            mot_de_passe: self.mot_de_passe@,
        }
    }
}

impl Clone for Identifiants {
    fn clone(&self) -> (r: Self)
        ensures
            r@ == self@,
    {
        Identifiants {
            hote: self.hote.clone(),
            utilisateur: self.utilisateur.clone(),
            mot_de_passe: self.mot_de_passe.clone(),
        }
    }
}

/// Copies what it takes to open a session.
pub fn copier_identifiants(i: &Identifiants) -> (r: Identifiants)
    ensures
        r@ == i@,
{
    i.clone()
}

/// Copies what is known of the accounts.
pub fn copier_identites(a: &Annuaire<Identifiants>) -> (r: Annuaire<Identifiants>)
    ensures
        r@ == a@,
{
    a.copier(copier_identifiants)
}

/// The folder that messages are moved to.
pub struct Cible {
    pub compte: i64,
    pub chemin: String,
    /// What opens the target account, when it is not the source account.
    pub identifiants: Option<Identifiants>,
}

/// The folder that messages are moved to.
pub struct CibleVue {
    pub compte: i64,
    pub chemin: Seq<char>,
    pub identifiants: Option<IdentifiantsVue>,
}

/// What opens an account, if it is there.
pub open spec fn vue_identifiants(i: Option<Identifiants>) -> Option<IdentifiantsVue> {
    match i {
        Some(i) => Some(i@),
        None => None,
    }
}

impl View for Cible {
    type V = CibleVue;

    open spec fn view(&self) -> CibleVue {
        CibleVue {
            compte: self.compte,
            chemin: self.chemin@,
            identifiants: vue_identifiants(self.identifiants),
        }
    }
}

/// What the interface asks of the worker of an account.
pub enum Commande {
    /// To read the tree and the counters again.
    Arborescence,
    OuvrirDossier(String),
    Corps { chemin: String, uid: u32, brut: bool },
    /// To write an attachment: to `destination` if it is given, else to the working
    /// folder, in order to open it.
    Piece { chemin: String, uid: u32, indice: usize, destination: Option<String> },
    MarquerLu { chemin: String, uids: Vec<u32>, lu: bool },
    Deplacer { source: String, uids: Vec<u32>, cible: Cible },
    /// To resume the interrupted moves whose source is this account.
    Reprendre(Annuaire<Identifiants>),
    /// The periodic check, which the worker asks of itself.
    Veille,
}

/// What the interface asks of the worker of an account.
pub enum CommandeVue {
    Arborescence,
    OuvrirDossier(Seq<char>),
    Corps { chemin: Seq<char>, uid: u32, brut: bool },
    Piece { chemin: Seq<char>, uid: u32, indice: usize, destination: Option<Seq<char>> },
    MarquerLu { chemin: Seq<char>, uids: Seq<u32>, lu: bool },
    Deplacer { source: Seq<char>, uids: Seq<u32>, cible: CibleVue },
    Reprendre(Seq<(i64, IdentifiantsVue)>),
    Veille,
}

/// A text, if it is there.
pub open spec fn vue_option(t: Option<String>) -> Option<Seq<char>> {
    match t {
        Some(t) => Some(t@),
        None => None,
    }
}

impl View for Commande {
    type V = CommandeVue;

    open spec fn view(&self) -> CommandeVue {
        match self {
            Commande::Arborescence => CommandeVue::Arborescence,
            Commande::OuvrirDossier(c) => CommandeVue::OuvrirDossier(c@),
            Commande::Corps { chemin, uid, brut } => CommandeVue::Corps {
                chemin: chemin@,
                uid: *uid,
                brut: *brut,
            },
            Commande::Piece { chemin, uid, indice, destination } => CommandeVue::Piece {
                chemin: chemin@,
                uid: *uid,
                indice: *indice,
                destination: vue_option(*destination),
            },
            Commande::MarquerLu { chemin, uids, lu } => CommandeVue::MarquerLu {
                chemin: chemin@,
                uids: uids@,
                lu: *lu,
            },
            Commande::Deplacer { source, uids, cible } => CommandeVue::Deplacer {
                source: source@,
                uids: uids@,
                cible: cible@,
            },
            Commande::Reprendre(i) => CommandeVue::Reprendre(i@),
            Commande::Veille => CommandeVue::Veille,
        }
    }
}

// ---------------------------------------------------------------------------- queue

/// Whether a request makes an earlier one void.
pub open spec fn remplace(suivante: CommandeVue, anterieure: CommandeVue) -> bool {
    ||| suivante is OuvrirDossier && anterieure is OuvrirDossier
    ||| suivante is OuvrirDossier && anterieure is Corps
    ||| suivante is Corps && anterieure is Corps
    ||| suivante is Arborescence && anterieure is Arborescence
    ||| anterieure is Veille
}

/// Whether a request comes from the interface, which waits for it.
pub open spec fn comptee(c: CommandeVue) -> bool {
    !(c is Veille)
}

impl Commande {
    /// True if this request, which came after `anterieure`, makes it void.
    pub fn remplace(&self, anterieure: &Commande) -> (r: bool)
        ensures
            r == remplace(self@, anterieure@),
    {
        match (self, anterieure) {
            (_, Commande::Veille) => true,
            (Commande::OuvrirDossier(_), Commande::OuvrirDossier(_)) => true,
            (Commande::OuvrirDossier(_), Commande::Corps { .. }) => true,
            (Commande::Corps { .. }, Commande::Corps { .. }) => true,
            (Commande::Arborescence, Commande::Arborescence) => true,
            _ => false,
        }
    }

    /// True if the request comes from the interface, which waits for it.
    pub fn comptee(&self) -> (r: bool)
        ensures
            r == comptee(self@),
    {
        match self {
            Commande::Veille => false,
            _ => true,
        }
    }
}

/// Whether a later request of the queue makes one void.
pub open spec fn caduque(f: Seq<CommandeVue>, i: int) -> bool {
    exists|j: int| i < j < f.len() && remplace(#[trigger] f[j], f[i])
}

/// The requests of a queue that no later one makes void.
pub open spec fn gardees(f: Seq<CommandeVue>) -> Seq<CommandeVue>
    decreases f.len(),
{
    if f.len() == 0 {
        Seq::empty()
    } else if caduque(f, 0) {
        gardees(f.drop_first())
    } else {
        seq![f[0]] + gardees(f.drop_first())
    }
}

/// How many requests of a queue the interface waits for.
pub open spec fn comptees(f: Seq<CommandeVue>) -> nat
    decreases f.len(),
{
    if f.len() == 0 {
        0
    } else {
        comptees(f.drop_first()) + if comptee(f[0]) {
            1nat
        } else {
            0nat
        }
    }
}

/// How many requests that the interface waits for a later one makes void.
pub open spec fn abandonnees(f: Seq<CommandeVue>) -> nat
    decreases f.len(),
{
    if f.len() == 0 {
        0
    } else {
        abandonnees(f.drop_first()) + if caduque(f, 0) && comptee(f[0]) {
            1nat
        } else {
            0nat
        }
    }
}

fn est_caduque(file: &Vec<Commande>, i: usize) -> (r: bool)
    requires
        i < file@.len(),
    ensures
        r == caduque(vues(file@), i as int),
{
    let ghost f = vues(file@);
    for j in (i + 1)..file.len()
        invariant
            i < file@.len(),
            f == vues(file@),
            forall|k: int| i < k < j ==> !remplace(#[trigger] f[k], f[i as int]),
    {
        assert(f[j as int] == file@[j as int]@ && f[i as int] == file@[i as int]@);
        if file[j].remplace(&file[i]) {
            return true;
        }
    }
    false
}

/// The requests made void are those of what follows.
proof fn lemme_caduque_suite(f: Seq<CommandeVue>, i: int)
    requires
        0 <= i < f.len(),
    ensures
        caduque(f, i) == caduque(f.skip(i), 0),
{
    let g = f.skip(i);
    if caduque(f, i) {
        let j = choose|j: int| i < j < f.len() && remplace(#[trigger] f[j], f[i]);
        assert(g[j - i] == f[j] && g[0] == f[i]);
    }
    if caduque(g, 0) {
        let j = choose|j: int| 0 < j < g.len() && remplace(#[trigger] g[j], g[0]);
        assert(g[j] == f[i + j] && g[0] == f[i]);
    }
}

/// No more requests are dropped than there are.
pub proof fn lemme_abandons(f: Seq<CommandeVue>)
    ensures
        abandonnees(f) <= f.len(),
        comptees(f) <= f.len(),
    decreases f.len(),
{
    if f.len() > 0 {
        lemme_abandons(f.drop_first());
    }
}

/// Takes from the queue the requests that a later one makes void, and keeps the
/// order of the others. Also gives how many of them the interface waited for.
pub fn regrouper(file: Vec<Commande>) -> (r: (Vec<Commande>, usize))
    ensures
        vues(r.0@) == gardees(vues(file@)),
        r.1 == abandonnees(vues(file@)),
{
    let ghost f = vues(file@);
    let mut garder: Vec<bool> = Vec::new();
    for i in 0..file.len()
        invariant
            f == vues(file@),
            garder@.len() == i,
            forall|k: int| 0 <= k < i ==> #[trigger] garder@[k] == !caduque(f, k),
    {
        garder.push(!est_caduque(&file, i));
    }
    let mut r: Vec<Commande> = Vec::new();
    let mut n: usize = 0;
    let mut i: usize = 0;
    assert(f.skip(0) =~= f);
    for c in it: file
        invariant
            f == vues(it.seq()),
            i == it.index(),
            garder@.len() == f.len(),
            f.len() <= usize::MAX,
            forall|k: int| 0 <= k < f.len() ==> #[trigger] garder@[k] == !caduque(f, k),
            vues(r@) + gardees(f.skip(i as int)) =~= gardees(f),
            n + abandonnees(f.skip(i as int)) == abandonnees(f),
            n <= i,
    {
        let ghost s = f.skip(i as int);
        let ghost avant = vues(r@);
        proof {
            lemme_caduque_suite(f, i as int);
            assert(s.drop_first() =~= f.skip(i + 1));
            assert(s[0] == f[i as int]);
            assert(f[i as int] == c@);
        }
        if garder[i] {
            let ghost x = c@;
            r.push(c);
            assert(vues(r@) =~= avant.push(x));
            assert(gardees(s) == seq![x] + gardees(s.drop_first()));
        } else if c.comptee() {
            n = n + 1;
        }
        i = i + 1;
    }
    assert(f.skip(f.len() as int) =~= Seq::empty());
    assert(vues(r@) =~= gardees(f));
    (r, n)
}

// ----------------------------------------------------------------------------- laws

/// Whether no request makes such a one void: a marking, a move, an attachment to be
/// written, the resumption of moves.
pub open spec fn durable() -> spec_fn(CommandeVue) -> bool {
    |c: CommandeVue| c is MarquerLu || c is Deplacer || c is Piece || c is Reprendre
}

/// The regrouping never drops a move, a marking, the writing of an attachment or a
/// resumption: they all stay, in their order.
pub proof fn loi_jamais_abandonnees(f: Seq<CommandeVue>)
    ensures
        gardees(f).filter(durable()) == f.filter(durable()),
    decreases f.len(),
{
    reveal(Seq::filter);
    if f.len() > 0 {
        let t = f.drop_first();
        let a = seq![f[0]];
        loi_jamais_abandonnees(t);
        assert(f =~= a + t);
        Seq::filter_distributes_over_add(a, t, durable());
        Seq::filter_distributes_over_add(a, gardees(t), durable());
        if caduque(f, 0) {
            assert(!durable()(f[0]));
            assert(a.drop_last() =~= Seq::empty());
            assert(a.drop_last().filter(durable()) =~= Seq::empty());
            assert(a.filter(durable()) =~= Seq::empty());
            assert(f.filter(durable()) =~= t.filter(durable()));
        }
    }
}

/// Every request kept was in the queue.
proof fn lemme_gardee_presente(f: Seq<CommandeVue>, i: int)
    requires
        0 <= i < gardees(f).len(),
    ensures
        exists|j: int| 0 <= j < f.len() && #[trigger] f[j] == gardees(f)[i],
    decreases f.len(),
{
    let t = f.drop_first();
    if caduque(f, 0) {
        lemme_gardee_presente(t, i);
        let j = choose|j: int| 0 <= j < t.len() && #[trigger] t[j] == gardees(t)[i];
        assert(f[j + 1] == t[j]);
    } else if i == 0 {
        assert(f[0] == gardees(f)[0]);
    } else {
        lemme_gardee_presente(t, i - 1);
        let j = choose|j: int| 0 <= j < t.len() && #[trigger] t[j] == gardees(t)[i - 1];
        assert(f[j + 1] == t[j]);
    }
}

/// No request kept makes another one kept before it void: of the folders to open
/// only one is left, and of the messages to read, too.
pub proof fn loi_rien_de_caduc(f: Seq<CommandeVue>, i: int, j: int)
    requires
        0 <= i < j < gardees(f).len(),
    ensures
        !remplace(gardees(f)[j], gardees(f)[i]),
    decreases f.len(),
{
    let t = f.drop_first();
    if caduque(f, 0) {
        loi_rien_de_caduc(t, i, j);
    } else if i > 0 {
        loi_rien_de_caduc(t, i - 1, j - 1);
    } else {
        lemme_gardee_presente(t, j - 1);
        let k = choose|k: int| 0 <= k < t.len() && #[trigger] t[k] == gardees(t)[j - 1];
        assert(f[k + 1] == t[k]);
        assert(gardees(f)[j] == gardees(t)[j - 1]);
    }
}

/// The last request of a queue is always kept, and stays the last.
pub proof fn loi_derniere_gardee(f: Seq<CommandeVue>)
    requires
        f.len() > 0,
    ensures
        gardees(f).len() > 0,
        gardees(f).last() == f.last(),
    decreases f.len(),
{
    let t = f.drop_first();
    if t.len() == 0 {
        assert(gardees(t) =~= Seq::empty());
        assert(gardees(f) =~= seq![f[0]]);
    } else {
        loi_derniere_gardee(t);
        assert(t.last() == f.last());
    }
}

/// Every request that the interface waits for is either kept or counted as dropped.
pub proof fn loi_compte_des_abandons(f: Seq<CommandeVue>)
    ensures
        comptees(f) == comptees(gardees(f)) + abandonnees(f),
    decreases f.len(),
{
    if f.len() > 0 {
        let t = f.drop_first();
        loi_compte_des_abandons(t);
        if !caduque(f, 0) {
            assert(gardees(f).drop_first() =~= gardees(t));
            assert(gardees(f)[0] == f[0]);
        }
    }
}

/// What was regrouped is not changed by regrouping it again.
pub proof fn loi_regroupement_stable(f: Seq<CommandeVue>)
    ensures
        gardees(gardees(f)) == gardees(f),
    decreases f.len(),
{
    if f.len() > 0 {
        let t = f.drop_first();
        let g = gardees(f);
        loi_regroupement_stable(t);
        if !caduque(f, 0) {
            assert(g.drop_first() =~= gardees(t));
            assert(!caduque(g, 0)) by {
                if caduque(g, 0) {
                    let j = choose|j: int| 0 < j < g.len() && remplace(#[trigger] g[j], g[0]);
                    loi_rien_de_caduc(f, 0, j);
                }
            }
            assert(gardees(g) =~= g);
        }
    }
}

} // verus!
