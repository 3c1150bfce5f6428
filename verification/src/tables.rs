//! The model of the local index: its tables as sequences of rows, and what each
//! operation makes of them.

use vstd::prelude::*;

use crate::ensembles::couvre;
use crate::protocole::{
    ouvrable, profondeur_de, role_de, segment, DossierVue, EtatDossier, StatutVue,
};
use crate::texte::minuscules;
use crate::utf7::nom_decode;

verus! {

// --------------------------------------------------------------------------- rows

/// The step that a move between accounts has reached.
#[derive(Debug, Clone, Copy, PartialEq, Eq, Structural)]
pub enum Etape {
    /// The message was read and copied; it is still to be put in the target.
    Deposer,
    /// The message is in the target; it is still to be removed from the source.
    Purger,
}

/// An account of the profile.
pub struct CompteVue {
    pub id: i64,
    pub adresse: Seq<char>,
    pub hote: Seq<char>,
    pub port: u16,
    pub utilisateur: Seq<char>,
    pub replie: bool,
}

/// A folder of the index.
pub struct DossierLocalVue {
    pub id: i64,
    pub compte_id: i64,
    pub chemin: Seq<char>,
    pub nom: Seq<char>,
    pub separateur: Seq<char>,
    pub profondeur: u32,
    pub role: Seq<char>,
    pub selectionnable: bool,
    pub messages: u32,
    pub non_lus: u32,
    pub uid_validity: u32,
    pub uid_next: u32,
    pub highest_mod_seq: u64,
    pub masque: bool,
    pub favori: Option<i64>,
}

/// A message of the index.
pub struct MessageVue {
    pub uid: u32,
    pub message_id: Seq<char>,
    pub expediteur: Seq<char>,
    pub adresse: Seq<char>,
    pub sujet: Seq<char>,
    pub date: Seq<char>,
    pub horodatage: i64,
    pub taille: u32,
    pub lu: bool,
    pub repondu: bool,
}

/// A message with the folder it is in.
pub struct LigneVue {
    pub dossier: i64,
    pub message: MessageVue,
}

/// A move between accounts in progress.
pub struct OperationVue {
    pub id: i64,
    pub compte_source: i64,
    pub chemin_source: Seq<char>,
    pub validite_source: u32,
    pub uid_source: u32,
    pub compte_cible: i64,
    pub chemin_cible: Seq<char>,
    pub message_id: Seq<char>,
    pub drapeaux: Seq<char>,
    pub date_interne: Seq<char>,
    pub fichier: Seq<char>,
    pub etape: Etape,
    pub erreur: Seq<char>,
}

/// The tables of the index.
#[verifier::ext_equal]
pub struct MagasinVue {
    pub comptes: Seq<CompteVue>,
    pub dossiers: Seq<DossierLocalVue>,
    pub messages: Seq<LigneVue>,
    pub operations: Seq<OperationVue>,
}

// ------------------------------------------------------------------- common tools

/// The first row that meets a condition.
pub open spec fn premier<A>(s: Seq<A>, p: spec_fn(A) -> bool) -> Option<A>
    decreases s.len(),
{
    if s.len() == 0 {
        None
    } else {
        match premier(s.drop_last(), p) {
            Some(a) => Some(a),
            None => if p(s.last()) {
                Some(s.last())
            } else {
                None
            },
        }
    }
}

/// What the search for a row finds.
pub proof fn lemme_premier<A>(s: Seq<A>, p: spec_fn(A) -> bool)
    ensures
        match premier(s, p) {
            Some(a) => s.contains(a) && p(a),
            None => forall|i: int| 0 <= i < s.len() ==> !p(#[trigger] s[i]),
        },
    decreases s.len(),
{
    if s.len() > 0 {
        lemme_premier(s.drop_last(), p);
        match premier(s.drop_last(), p) {
            Some(a) => {
                let i = choose|i: int| 0 <= i < s.drop_last().len() && s.drop_last()[i] == a;
                assert(s[i] == a);
            },
            None => {
                assert forall|i: int| 0 <= i < s.len() - 1 implies !p(#[trigger] s[i]) by {
                    assert(s.drop_last()[i] == s[i]);
                }
                assert(s[s.len() - 1] == s.last());
            },
        }
    }
}

/// A row put in its place in an ordered list, after those it does not precede.
pub open spec fn insere<A>(s: Seq<A>, x: A, avant: spec_fn(A, A) -> bool) -> Seq<A>
    decreases s.len(),
{
    if s.len() > 0 && avant(x, s.last()) {
        insere(s.drop_last(), x, avant).push(s.last())
    } else {
        s.push(x)
    }
}

/// Rows in order.
pub open spec fn trie<A>(s: Seq<A>, avant: spec_fn(A, A) -> bool) -> Seq<A>
    decreases s.len(),
{
    if s.len() == 0 {
        s
    } else {
        insere(trie(s.drop_last(), avant), s.last(), avant)
    }
}

/// Whether no row comes before an earlier one.
pub open spec fn en_ordre<A>(s: Seq<A>, avant: spec_fn(A, A) -> bool) -> bool {
    forall|i: int, j: int| 0 <= i < j < s.len() ==> !avant(#[trigger] s[j], #[trigger] s[i])
}

/// Whether a relation is a strict order in which incomparability is transitive.
pub open spec fn ordre_faible<A>(avant: spec_fn(A, A) -> bool) -> bool {
    &&& forall|a: A, b: A| #[trigger] avant(a, b) ==> !avant(b, a)
    &&& forall|a: A, b: A, c: A| !#[trigger] avant(b, a) && !#[trigger] avant(c, b) ==> !avant(c, a)
}

/// Putting a row in place adds it and nothing else, and keeps the order.
pub proof fn lemme_insere<A>(s: Seq<A>, x: A, avant: spec_fn(A, A) -> bool)
    ensures
        insere(s, x, avant).to_multiset() == s.to_multiset().insert(x),
        insere(s, x, avant).len() == s.len() + 1,
        ordre_faible(avant) && en_ordre(s, avant) ==> en_ordre(insere(s, x, avant), avant),
    decreases s.len(),
{
    broadcast use vstd::seq_lib::group_to_multiset_ensures;

    if s.len() > 0 && avant(x, s.last()) {
        let t = s.drop_last();
        lemme_insere(t, x, avant);
        assert(s =~= t.push(s.last()));
        assert(insere(s, x, avant).to_multiset() =~= s.to_multiset().insert(x));
        if ordre_faible(avant) && en_ordre(s, avant) {
            let r = insere(t, x, avant);
            assert(en_ordre(t, avant));
            assert forall|i: int| 0 <= i < r.len() implies !avant(s.last(), #[trigger] r[i]) by {
                assert(r.to_multiset().count(r[i]) > 0) by {
                    assert(r.contains(r[i]));
                }
                if r[i] != x {
                    assert(t.to_multiset().count(r[i]) > 0);
                    assert(t.contains(r[i]));
                    let k = choose|k: int| 0 <= k < t.len() && t[k] == r[i];
                    assert(s[k] == r[i] && s[s.len() - 1] == s.last());
                }
            }
            let e = insere(s, x, avant);
            assert forall|i: int, j: int| 0 <= i < j < e.len() implies !avant(
                #[trigger] e[j],
                #[trigger] e[i],
            ) by {
                if j < r.len() {
                    assert(e[j] == r[j] && e[i] == r[i]);
                } else {
                    assert(e[j] == s.last() && e[i] == r[i]);
                }
            }
        }
    } else {
        assert(s.push(x).to_multiset() =~= s.to_multiset().insert(x));
        if ordre_faible(avant) && en_ordre(s, avant) && s.len() > 0 {
            let e = s.push(x);
            assert forall|i: int, j: int| 0 <= i < j < e.len() implies !avant(
                #[trigger] e[j],
                #[trigger] e[i],
            ) by {
                if j == s.len() {
                    let d = s[s.len() - 1];
                    assert(!avant(x, d));
                    if i < s.len() - 1 {
                        assert(!avant(d, s[i]));
                    }
                }
            }
        }
    }
}

/// Sorting keeps the rows, and puts them in order.
pub proof fn lemme_trie<A>(s: Seq<A>, avant: spec_fn(A, A) -> bool)
    ensures
        trie(s, avant).to_multiset() == s.to_multiset(),
        trie(s, avant).len() == s.len(),
        ordre_faible(avant) ==> en_ordre(trie(s, avant), avant),
    decreases s.len(),
{
    broadcast use vstd::seq_lib::group_to_multiset_ensures;

    if s.len() > 0 {
        lemme_trie(s.drop_last(), avant);
        lemme_insere(trie(s.drop_last(), avant), s.last(), avant);
        assert(s =~= s.drop_last().push(s.last()));
    }
}

/// A sequence of ranks that comes before another: at the first place where they
/// differ, or because it ends there.
pub open spec fn precede(a: Seq<nat>, b: Seq<nat>) -> bool
    decreases a.len(),
{
    if b.len() == 0 {
        false
    } else if a.len() == 0 {
        true
    } else if a[0] != b[0] {
        a[0] < b[0]
    } else {
        precede(a.drop_first(), b.drop_first())
    }
}

/// The rank of a character of a path: the separator comes before all the others.
pub open spec fn rang_car(separateur: Seq<char>, c: char) -> nat {
    if separateur == seq![c] {
        0
    } else {
        (c as u32 + 1) as nat
    }
}

/// The ranks of the characters of a path. In their order a folder is followed by those
/// that are under it.
pub open spec fn rangs_chemin(chemin: Seq<char>, separateur: Seq<char>) -> Seq<nat> {
    chemin.map_values(|c: char| rang_car(separateur, c))
}

/// The largest of some identifiers.
pub open spec fn plus_grand(ids: Seq<i64>) -> Option<i64>
    decreases ids.len(),
{
    if ids.len() == 0 {
        None
    } else {
        match plus_grand(ids.drop_last()) {
            Some(m) => if ids.last() > m {
                Some(ids.last())
            } else {
                Some(m)
            },
            None => Some(ids.last()),
        }
    }
}

/// The largest identifier is one of them, and none exceeds it.
pub proof fn lemme_plus_grand(ids: Seq<i64>)
    ensures
        match plus_grand(ids) {
            Some(m) => ids.contains(m) && forall|i: int| 0 <= i < ids.len() ==> #[trigger] ids[i] <= m,
            None => ids.len() == 0,
        },
    decreases ids.len(),
{
    if ids.len() > 0 {
        let t = ids.drop_last();
        lemme_plus_grand(t);
        assert(ids[ids.len() - 1] == ids.last());
        if let Some(m) = plus_grand(t) {
            let k = choose|k: int| 0 <= k < t.len() && t[k] == m;
            assert(ids[k] == m);
            assert forall|i: int| 0 <= i < ids.len() - 1 implies #[trigger] ids[i] <= m by {
                assert(t[i] == ids[i]);
            }
        }
    }
}

/// The identifier of the next row: one more than the largest, from 1 on.
pub open spec fn suivant(ids: Seq<i64>) -> int {
    match plus_grand(ids) {
        Some(m) => m + 1,
        None => 1,
    }
}

/// The identifiers of some accounts.
pub open spec fn ids_comptes(t: Seq<CompteVue>) -> Seq<i64> {
    t.map_values(|c: CompteVue| c.id)
}

/// The identifiers of some folders.
pub open spec fn ids_dossiers(t: Seq<DossierLocalVue>) -> Seq<i64> {
    t.map_values(|d: DossierLocalVue| d.id)
}

/// The identifiers of some moves.
pub open spec fn ids_operations(t: Seq<OperationVue>) -> Seq<i64> {
    t.map_values(|o: OperationVue| o.id)
}

// ------------------------------------------------------------------------ accounts

/// The account of an address.
pub open spec fn compte_de(t: Seq<CompteVue>, adresse: Seq<char>) -> Option<CompteVue> {
    premier(t, |c: CompteVue| c.adresse == adresse)
}

/// The account of an identifier.
pub open spec fn compte_numero(t: Seq<CompteVue>, id: i64) -> Option<CompteVue> {
    premier(t, |c: CompteVue| c.id == id)
}

/// What a known account becomes when it is registered again.
pub open spec fn compte_mis_a_jour(
    adresse: Seq<char>,
    hote: Seq<char>,
    port: u16,
    utilisateur: Seq<char>,
) -> spec_fn(CompteVue) -> CompteVue {
    |c: CompteVue|
        if c.adresse == adresse {
            CompteVue { hote, port, utilisateur, ..c }
        } else {
            c
        }
}

/// The order of accounts: that in which they were added.
pub open spec fn ordre_comptes() -> spec_fn(CompteVue, CompteVue) -> bool {
    |a: CompteVue, b: CompteVue| a.id < b.id
}

/// The order of moves: that in which they were registered.
pub open spec fn ordre_operations() -> spec_fn(OperationVue, OperationVue) -> bool {
    |a: OperationVue, b: OperationVue| a.id < b.id
}

// ------------------------------------------------------------------------- folders

/// The folder of an account at a path.
pub open spec fn dossier_en(t: Seq<DossierLocalVue>, compte: i64, chemin: Seq<char>) -> Option<
    DossierLocalVue,
> {
    premier(t, |d: DossierLocalVue| d.compte_id == compte && d.chemin == chemin)
}

/// The folder of an identifier.
pub open spec fn dossier_numero(t: Seq<DossierLocalVue>, id: i64) -> Option<DossierLocalVue> {
    premier(t, |d: DossierLocalVue| d.id == id)
}

/// The depth of a folder as the index keeps it, in 32 bits.
pub open spec fn profondeur32(d: DossierVue) -> u32 {
    (profondeur_de(d.chemin, d.separateur) % 0x1_0000_0000) as u32
}

/// The role of a folder as the index keeps it, empty where it has none.
pub open spec fn role_note(d: DossierVue) -> Seq<char> {
    match role_de(d.attributs) {
        Some(r) => r,
        None => Seq::empty(),
    }
}

/// What a known folder becomes when the server announces it: its local state and
/// its synchronisation state stay.
pub open spec fn dossier_annonce(compte: i64, d: DossierVue) -> spec_fn(
    DossierLocalVue,
) -> DossierLocalVue {
    |l: DossierLocalVue|
        if l.compte_id == compte && l.chemin == d.chemin {
            DossierLocalVue {
                nom: nom_decode(segment(d.chemin, d.separateur)),
                profondeur: profondeur32(d),
                role: role_note(d),
                separateur: d.separateur,
                selectionnable: ouvrable(d.attributs),
                ..l
            }
        } else {
            l
        }
}

/// The row of a folder that the server announces for the first time.
pub open spec fn dossier_nouveau(id: i64, compte: i64, d: DossierVue) -> DossierLocalVue {
    DossierLocalVue {
        id,
        compte_id: compte,
        chemin: d.chemin,
        nom: nom_decode(segment(d.chemin, d.separateur)),
        separateur: d.separateur,
        profondeur: profondeur32(d),
        role: role_note(d),
        selectionnable: ouvrable(d.attributs),
        messages: 0,
        non_lus: 0,
        uid_validity: 0,
        uid_next: 0,
        highest_mod_seq: 0,
        masque: false,
        favori: None,
    }
}

/// The folders once the server has announced one; none where its row would need
/// an identifier that 64 bits cannot hold.
pub open spec fn dossier_pose(t: Seq<DossierLocalVue>, compte: i64, d: DossierVue) -> Option<
    Seq<DossierLocalVue>,
> {
    if dossier_en(t, compte, d.chemin) is Some {
        Some(t.map_values(dossier_annonce(compte, d)))
    } else if suivant(ids_dossiers(t)) > i64::MAX {
        None
    } else {
        Some(t.push(dossier_nouveau(suivant(ids_dossiers(t)) as i64, compte, d)))
    }
}

/// The folders once the server has announced several, one after the other.
pub open spec fn dossiers_poses(t: Seq<DossierLocalVue>, compte: i64, ds: Seq<DossierVue>) -> Option<
    Seq<DossierLocalVue>,
>
    decreases ds.len(),
{
    if ds.len() == 0 {
        Some(t)
    } else {
        match dossiers_poses(t, compte, ds.drop_last()) {
            Some(u) => dossier_pose(u, compte, ds.last()),
            None => None,
        }
    }
}

/// Whether a list of folders names a path.
pub open spec fn annonce_chemin(ds: Seq<DossierVue>, chemin: Seq<char>) -> bool {
    exists|i: int| 0 <= i < ds.len() && (#[trigger] ds[i]).chemin == chemin
}

/// Whether a folder of an account is no longer announced.
pub open spec fn disparu(compte: i64, ds: Seq<DossierVue>) -> spec_fn(DossierLocalVue) -> bool {
    |l: DossierLocalVue| l.compte_id == compte && !annonce_chemin(ds, l.chemin)
}

/// The rows that stay when those of a condition leave.
pub open spec fn sans<A>(s: Seq<A>, p: spec_fn(A) -> bool) -> Seq<A> {
    s.filter(|a: A| !p(a))
}

/// Whether a folder is one of those of a condition.
pub open spec fn compris(t: Seq<DossierLocalVue>, p: spec_fn(DossierLocalVue) -> bool, id: i64) -> bool {
    exists|i: int| 0 <= i < t.len() && p(#[trigger] t[i]) && t[i].id == id
}

/// Whether a message is in a folder that leaves.
pub open spec fn orphelin(t: Seq<DossierLocalVue>, p: spec_fn(DossierLocalVue) -> bool) -> spec_fn(
    LigneVue,
) -> bool {
    |l: LigneVue| compris(t, p, l.dossier)
}

/// Whether a folder is one of an account.
pub open spec fn du_compte(compte: i64) -> spec_fn(DossierLocalVue) -> bool {
    |d: DossierLocalVue| d.compte_id == compte
}

/// The index once the server has announced the folders of an account: those it no
/// longer names leave with their messages. None where a folder belongs to no
/// account, or a row would need an identifier that 64 bits cannot hold.
pub open spec fn arborescence_posee(m: MagasinVue, compte: i64, ds: Seq<DossierVue>) -> Option<
    MagasinVue,
> {
    if ds.len() > 0 && compte_numero(m.comptes, compte) is None {
        None
    } else {
        match dossiers_poses(m.dossiers, compte, ds) {
            None => None,
            Some(t) => Some(
                MagasinVue {
                    dossiers: sans(t, disparu(compte, ds)),
                    messages: sans(m.messages, orphelin(t, disparu(compte, ds))),
                    ..m
                },
            ),
        }
    }
}

/// What a folder becomes when the server gives its counters.
pub open spec fn compteurs_notes(compte: i64, s: StatutVue) -> spec_fn(
    DossierLocalVue,
) -> DossierLocalVue {
    |d: DossierLocalVue|
        if d.compte_id == compte && d.chemin == s.chemin {
            DossierLocalVue { messages: s.messages, non_lus: s.non_lus, ..d }
        } else {
            d
        }
}

/// The folders once the server has given counters, one after the other.
pub open spec fn compteurs_poses(t: Seq<DossierLocalVue>, compte: i64, v: Seq<StatutVue>) -> Seq<
    DossierLocalVue,
>
    decreases v.len(),
{
    if v.len() == 0 {
        t
    } else {
        compteurs_poses(t, compte, v.drop_last()).map_values(compteurs_notes(compte, v.last()))
    }
}

/// How many messages a folder has.
pub open spec fn nombre_messages(t: Seq<LigneVue>, dossier: i64) -> nat {
    t.filter(|l: LigneVue| l.dossier == dossier).len()
}

/// How many unread messages a folder has.
pub open spec fn nombre_non_lus(t: Seq<LigneVue>, dossier: i64) -> nat {
    t.filter(|l: LigneVue| l.dossier == dossier && !l.message.lu).len()
}

/// The index once a folder is counted anew; none where a count exceeds 32 bits.
pub open spec fn recompte(m: MagasinVue, dossier: i64) -> Option<MagasinVue> {
    let n = nombre_messages(m.messages, dossier);
    let u = nombre_non_lus(m.messages, dossier);
    if n > u32::MAX {
        None
    } else {
        Some(
            MagasinVue {
                dossiers: m.dossiers.map_values(
                    |d: DossierLocalVue|
                        if d.id == dossier {
                            DossierLocalVue { messages: n as u32, non_lus: u as u32, ..d }
                        } else {
                            d
                        },
                ),
                ..m
            },
        )
    }
}

/// Whether noting a state breaks with the one known: the UIDs have changed
/// meaning.
pub open spec fn rupture(m: MagasinVue, dossier: i64, etat: EtatDossier) -> bool {
    match dossier_numero(m.dossiers, dossier) {
        Some(d) => d.uid_validity != 0 && d.uid_validity != etat.uid_validity,
        None => false,
    }
}

/// The index without the messages that a break of validity makes void.
pub open spec fn apres_rupture(m: MagasinVue, dossier: i64, etat: EtatDossier) -> MagasinVue {
    if rupture(m, dossier, etat) {
        MagasinVue { messages: sans(m.messages, |l: LigneVue| l.dossier == dossier), ..m }
    } else {
        m
    }
}

/// The index once the state of a folder is noted.
pub open spec fn etat_pose(m: MagasinVue, dossier: i64, etat: EtatDossier) -> MagasinVue {
    let n = apres_rupture(m, dossier, etat);
    MagasinVue {
        dossiers: n.dossiers.map_values(
            |d: DossierLocalVue|
                if d.id == dossier {
                    DossierLocalVue {
                        uid_validity: etat.uid_validity,
                        uid_next: etat.uid_next,
                        highest_mod_seq: etat.highest_mod_seq,
                        ..d
                    }
                } else {
                    d
                },
        ),
        ..n
    }
}

/// The order in which folders are shown: `INBOX`, then those with a role, then the
/// others, by path, each under its parent.
pub open spec fn ordre_affichage() -> spec_fn(DossierLocalVue, DossierLocalVue) -> bool {
    |a: DossierLocalVue, b: DossierLocalVue|
        {
            let ia = a.chemin == "INBOX"@;
            let ib = b.chemin == "INBOX"@;
            let ra = a.role.len() > 0;
            let rb = b.role.len() > 0;
            if ia != ib {
                ia
            } else if ra != rb {
                ra
            } else {
                precede(
                    rangs_chemin(a.chemin, a.separateur),
                    rangs_chemin(b.chemin, b.separateur),
                )
            }
        }
}

/// The folders of an account, in the order in which they are shown.
pub open spec fn dossiers_affiches(t: Seq<DossierLocalVue>, compte: i64) -> Seq<DossierLocalVue> {
    trie(t.filter(|d: DossierLocalVue| d.compte_id == compte), ordre_affichage())
}

/// The order of favourites: their ranks.
pub open spec fn ordre_favoris() -> spec_fn(DossierLocalVue, DossierLocalVue) -> bool {
    |a: DossierLocalVue, b: DossierLocalVue|
        {
            let ra = a.favori.unwrap_or(0);
            let rb = b.favori.unwrap_or(0);
            ra < rb || (ra == rb && a.id < b.id)
        }
}

/// The favourites, in their order.
pub open spec fn favoris_affiches(t: Seq<DossierLocalVue>) -> Seq<DossierLocalVue> {
    trie(t.filter(|d: DossierLocalVue| d.favori is Some), ordre_favoris())
}

/// The ranks of the favourites.
pub open spec fn rangs(t: Seq<DossierLocalVue>) -> Seq<i64> {
    t.filter_map(|d: DossierLocalVue| d.favori)
}

/// The rank after all the others.
pub open spec fn rang_final(t: Seq<DossierLocalVue>) -> int {
    match plus_grand(rangs(t)) {
        Some(m) => m + 1,
        None => 1,
    }
}

/// A rank is below the one after all the others.
pub proof fn lemme_rang_borne(t: Seq<DossierLocalVue>, i: int)
    requires
        0 <= i < t.len(),
        t[i].favori is Some,
    ensures
        t[i].favori->0 < rang_final(t),
{
    lemme_rang_present(t, i);
    lemme_plus_grand(rangs(t));
    let k = choose|k: int| 0 <= k < rangs(t).len() && rangs(t)[k] == t[i].favori->0;
    assert(rangs(t)[k] <= plus_grand(rangs(t))->0);
}

/// The rank of a favourite is among the ranks.
proof fn lemme_rang_present(t: Seq<DossierLocalVue>, i: int)
    requires
        0 <= i < t.len(),
        t[i].favori is Some,
    ensures
        rangs(t).contains(t[i].favori->0),
    decreases t.len(),
{
    let f = |d: DossierLocalVue| d.favori;
    let n = t.len() - 1;
    t.lemma_filter_map_take_succ(f, n);
    assert(t.take(n + 1) =~= t);
    assert(t.take(n) =~= t.drop_last());
    if i == n {
        assert(rangs(t) =~= rangs(t.drop_last()).push(t[i].favori->0));
        assert(rangs(t)[rangs(t).len() - 1] == t[i].favori->0);
    } else {
        lemme_rang_present(t.drop_last(), i);
        let r = rangs(t.drop_last());
        let k = choose|k: int| 0 <= k < r.len() && r[k] == t[i].favori->0;
        assert(rangs(t)[k] == r[k]);
    }
}

/// A folder hidden or shown.
pub open spec fn masquage(dossier: i64, masque: bool) -> spec_fn(DossierLocalVue) -> DossierLocalVue {
    |d: DossierLocalVue|
        if d.id == dossier {
            DossierLocalVue { masque, ..d }
        } else {
            d
        }
}

/// A folder given a rank among favourites, or none.
pub open spec fn rang_donne(dossier: i64, rang: Option<i64>) -> spec_fn(
    DossierLocalVue,
) -> DossierLocalVue {
    |d: DossierLocalVue|
        if d.id == dossier {
            DossierLocalVue { favori: rang, ..d }
        } else {
            d
        }
}

/// A folder given a rank among favourites where it has none.
pub open spec fn rang_donne_si_absent(dossier: i64, rang: i64) -> spec_fn(
    DossierLocalVue,
) -> DossierLocalVue {
    |d: DossierLocalVue|
        if d.id == dossier && d.favori is None {
            DossierLocalVue { favori: Some(rang), ..d }
        } else {
            d
        }
}

/// A favourite pushed back by one rank if it is at a rank or after it.
pub open spec fn rang_recule(rang: i64) -> spec_fn(DossierLocalVue) -> DossierLocalVue {
    |d: DossierLocalVue|
        match d.favori {
            Some(r) => if r >= rang {
                DossierLocalVue { favori: Some((r + 1) as i64), ..d }
            } else {
                d
            },
            None => d,
        }
}

/// The folders once one is pinned after the other favourites, or unpinned. None
/// where its rank would exceed 64 bits.
pub open spec fn epingle(t: Seq<DossierLocalVue>, dossier: i64, favori: bool) -> Option<
    Seq<DossierLocalVue>,
> {
    if !favori {
        Some(t.map_values(rang_donne(dossier, None)))
    } else if premier(t, |d: DossierLocalVue| d.id == dossier && d.favori is None) is None {
        Some(t)
    } else if rang_final(t) > i64::MAX {
        None
    } else {
        Some(t.map_values(rang_donne_si_absent(dossier, rang_final(t) as i64)))
    }
}

/// The rank before which a folder is to be placed: that of another favourite.
pub open spec fn rang_vise(t: Seq<DossierLocalVue>, dossier: i64, avant: Option<i64>) -> Option<
    i64,
> {
    match avant {
        Some(autre) => if autre == dossier {
            None
        } else {
            match dossier_numero(t, autre) {
                Some(d) => d.favori,
                None => None,
            }
        },
        None => None,
    }
}

/// The folders once one is placed among favourites: at the rank of another, which
/// is pushed back with those that follow it, or after all of them. None where a
/// rank would exceed 64 bits.
pub open spec fn favori_place(t: Seq<DossierLocalVue>, dossier: i64, avant: Option<i64>) -> Option<
    Seq<DossierLocalVue>,
> {
    let u = t.map_values(rang_donne(dossier, None));
    match rang_vise(u, dossier, avant) {
        Some(rang) => if rang_final(u) > i64::MAX {
            None
        } else {
            Some(
                u.map_values(rang_recule(rang)).map_values(rang_donne(dossier, Some(rang))),
            )
        },
        None => if dossier_numero(u, dossier) is None {
            Some(u)
        } else if rang_final(u) > i64::MAX {
            None
        } else {
            Some(u.map_values(rang_donne(dossier, Some(rang_final(u) as i64))))
        },
    }
}

// ------------------------------------------------------------------------ messages

/// The message of a folder with a UID.
pub open spec fn message_en(t: Seq<LigneVue>, dossier: i64, uid: u32) -> Option<LigneVue> {
    premier(t, |l: LigneVue| l.dossier == dossier && l.message.uid == uid)
}

/// What a known message becomes when it is read again: only its flags change.
pub open spec fn message_relu(dossier: i64, uid: u32, lu: bool, repondu: bool) -> spec_fn(
    LigneVue,
) -> LigneVue {
    |l: LigneVue|
        if l.dossier == dossier && l.message.uid == uid {
            LigneVue { message: MessageVue { lu, repondu, ..l.message }, ..l }
        } else {
            l
        }
}

/// The messages once one is put in a folder.
pub open spec fn message_pose(t: Seq<LigneVue>, dossier: i64, m: MessageVue) -> Seq<LigneVue> {
    if message_en(t, dossier, m.uid) is Some {
        t.map_values(message_relu(dossier, m.uid, m.lu, m.repondu))
    } else {
        t.push(LigneVue { dossier, message: m })
    }
}

/// The messages once several are put in a folder, one after the other.
pub open spec fn messages_poses(t: Seq<LigneVue>, dossier: i64, v: Seq<MessageVue>) -> Seq<LigneVue>
    decreases v.len(),
{
    if v.len() == 0 {
        t
    } else {
        message_pose(messages_poses(t, dossier, v.drop_last()), dossier, v.last())
    }
}

/// Whether a list of flags holds one, whatever the case of its letters.
pub open spec fn a_drapeau(v: Seq<Seq<char>>, drapeau: Seq<char>) -> bool {
    exists|i: int| 0 <= i < v.len() && minuscules(#[trigger] v[i]) == minuscules(drapeau)
}

/// The messages once the server has given flags, one message after the other.
pub open spec fn drapeaux_poses(t: Seq<LigneVue>, dossier: i64, v: Seq<(u32, Seq<Seq<char>>)>) -> Seq<
    LigneVue,
>
    decreases v.len(),
{
    if v.len() == 0 {
        t
    } else {
        let (uid, liste) = v.last();
        drapeaux_poses(t, dossier, v.drop_last()).map_values(
            message_relu(
                dossier,
                uid,
                a_drapeau(liste, "\\Seen"@),
                a_drapeau(liste, "\\Answered"@),
            ),
        )
    }
}

/// Messages of a folder marked read or unread.
pub open spec fn marquage(dossier: i64, uids: Seq<u32>, lu: bool) -> spec_fn(LigneVue) -> LigneVue {
    |l: LigneVue|
        if l.dossier == dossier && uids.contains(l.message.uid) {
            LigneVue { message: MessageVue { lu, ..l.message }, ..l }
        } else {
            l
        }
}

/// Whether a message of a folder is in some intervals of UIDs.
pub open spec fn dans_intervalles(dossier: i64, v: Seq<(u32, u32)>) -> spec_fn(LigneVue) -> bool {
    |l: LigneVue| l.dossier == dossier && couvre(v, l.message.uid as int)
}

/// Whether a message of a folder is one of some UIDs.
pub open spec fn dans_uids(dossier: i64, v: Seq<u32>) -> spec_fn(LigneVue) -> bool {
    |l: LigneVue| l.dossier == dossier && v.contains(l.message.uid)
}

/// The messages of a folder.
pub open spec fn messages_de(t: Seq<LigneVue>, dossier: i64) -> Seq<MessageVue> {
    t.filter(|l: LigneVue| l.dossier == dossier).map_values(|l: LigneVue| l.message)
}

/// The UIDs of a folder.
pub open spec fn uids_connus(t: Seq<LigneVue>, dossier: i64) -> Seq<u32> {
    messages_de(t, dossier).map_values(|m: MessageVue| m.uid)
}

/// The order of messages: from the latest received to the earliest.
pub open spec fn ordre_messages() -> spec_fn(MessageVue, MessageVue) -> bool {
    |a: MessageVue, b: MessageVue|
        a.horodatage > b.horodatage || (a.horodatage == b.horodatage && a.uid > b.uid)
}

/// The messages of a folder, in their order.
pub open spec fn messages_affiches(t: Seq<LigneVue>, dossier: i64) -> Seq<MessageVue> {
    trie(messages_de(t, dossier), ordre_messages())
}

// --------------------------------------------------------------------------- moves

/// A move that passes a step: the failure noted before it is forgotten.
pub open spec fn operation_avancee(id: i64, etape: Etape) -> spec_fn(OperationVue) -> OperationVue {
    |o: OperationVue|
        if o.id == id {
            OperationVue { etape, erreur: Seq::empty(), ..o }
        } else {
            o
        }
}

/// A move whose failure is noted.
pub open spec fn operation_en_echec(id: i64, erreur: Seq<char>) -> spec_fn(
    OperationVue,
) -> OperationVue {
    |o: OperationVue|
        if o.id == id {
            OperationVue { erreur, ..o }
        } else {
            o
        }
}

/// The moves in progress whose source is an account.
pub open spec fn operations_de(t: Seq<OperationVue>, compte: i64) -> Seq<OperationVue> {
    trie(t.filter(|o: OperationVue| o.compte_source == compte), ordre_operations())
}

/// The index once an account is removed, with its folders, their messages and the
/// moves that it takes part in.
pub open spec fn compte_retire(m: MagasinVue, id: i64) -> MagasinVue {
    if compte_numero(m.comptes, id) is None {
        m
    } else {
        MagasinVue {
            comptes: sans(m.comptes, |c: CompteVue| c.id == id),
            dossiers: sans(m.dossiers, du_compte(id)),
            messages: sans(m.messages, orphelin(m.dossiers, du_compte(id))),
            operations: sans(
                m.operations,
                |o: OperationVue| o.compte_source == id || o.compte_cible == id,
            ),
        }
    }
}

} // verus!
