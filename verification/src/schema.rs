//! The schema of the stored index, and how an index of an earlier version is brought
//! up to it: columns are added, nothing is lost.

use vstd::prelude::*;

use crate::nombre::{decimal_signe, ecrire_i64};
use crate::texte::{ajouter, ajouter_car, caracteres, chaine, copier, egal, textes};

verus! {

/// The current version of the schema.
pub const VERSION_SCHEMA: i32 = 2;

/// The tables of the first version of the schema, created where they are missing.
pub const TABLES_INITIALES: &'static str = "
            CREATE TABLE IF NOT EXISTS accounts (
                id         INTEGER PRIMARY KEY,
                adresse    TEXT NOT NULL UNIQUE,
                hote       TEXT NOT NULL,
                port       INTEGER NOT NULL DEFAULT 993,
                utilisateur TEXT NOT NULL
            );
            CREATE TABLE IF NOT EXISTS folders (
                id              INTEGER PRIMARY KEY,
                account_id      INTEGER NOT NULL REFERENCES accounts(id) ON DELETE CASCADE,
                chemin          TEXT NOT NULL,
                nom             TEXT NOT NULL,
                profondeur      INTEGER NOT NULL DEFAULT 0,
                role            TEXT NOT NULL DEFAULT '',
                uidvalidity     INTEGER NOT NULL DEFAULT 0,
                uidnext         INTEGER NOT NULL DEFAULT 0,
                highestmodseq   INTEGER NOT NULL DEFAULT 0,
                hidden_local    INTEGER NOT NULL DEFAULT 0,
                favorite_rank   INTEGER,
                UNIQUE (account_id, chemin)
            );
            CREATE TABLE IF NOT EXISTS messages (
                id          INTEGER PRIMARY KEY,
                folder_id   INTEGER NOT NULL REFERENCES folders(id) ON DELETE CASCADE,
                uid         INTEGER NOT NULL,
                message_id  TEXT NOT NULL DEFAULT '',
                expediteur  TEXT NOT NULL DEFAULT '',
                adresse     TEXT NOT NULL DEFAULT '',
                sujet       TEXT NOT NULL DEFAULT '',
                date        TEXT NOT NULL DEFAULT '',
                taille      INTEGER NOT NULL DEFAULT 0,
                lu          INTEGER NOT NULL DEFAULT 0,
                repondu     INTEGER NOT NULL DEFAULT 0,
                body_state  TEXT NOT NULL DEFAULT 'headers',
                UNIQUE (folder_id, uid)
            );
            CREATE TABLE IF NOT EXISTS pending_ops (
                id              INTEGER PRIMARY KEY,
                nature          TEXT NOT NULL DEFAULT 'deplacer',
                compte_source   INTEGER NOT NULL REFERENCES accounts(id) ON DELETE CASCADE,
                chemin_source   TEXT NOT NULL,
                validite_source INTEGER NOT NULL,
                uid_source      INTEGER NOT NULL,
                compte_cible    INTEGER NOT NULL REFERENCES accounts(id) ON DELETE CASCADE,
                chemin_cible    TEXT NOT NULL,
                message_id      TEXT NOT NULL DEFAULT '',
                drapeaux        TEXT NOT NULL DEFAULT '',
                date_interne    TEXT NOT NULL DEFAULT '',
                fichier         TEXT NOT NULL DEFAULT '',
                etape           TEXT NOT NULL DEFAULT 'deposer',
                erreur          TEXT NOT NULL DEFAULT '',
                cree            INTEGER NOT NULL DEFAULT (strftime('%s','now'))
            );
            ";

/// A column that the first version of the schema lacks.
pub struct Colonne {
    pub table: &'static str,
    pub nom: &'static str,
    pub definition: &'static str,
}

/// A column that the first version of the schema lacks.
pub struct ColonneVue {
    pub table: Seq<char>,
    pub nom: Seq<char>,
    pub definition: Seq<char>,
}

impl View for Colonne {
    type V = ColonneVue;

    open spec fn view(&self) -> ColonneVue {
        ColonneVue { table: self.table@, nom: self.nom@, definition: self.definition@ }
    }
}

/// The columns that the first version of the schema lacks.
pub open spec fn colonnes() -> Seq<ColonneVue> {
    seq![
        ColonneVue {
            table: "accounts"@,
            nom: "replie"@,
            definition: "INTEGER NOT NULL DEFAULT 0"@,
        },
        ColonneVue {
            table: "folders"@,
            nom: "separateur"@,
            definition: "TEXT NOT NULL DEFAULT '/'"@,
        },
        ColonneVue {
            table: "folders"@,
            nom: "selectionnable"@,
            definition: "INTEGER NOT NULL DEFAULT 1"@,
        },
        ColonneVue {
            table: "folders"@,
            nom: "nb_messages"@,
            definition: "INTEGER NOT NULL DEFAULT 0"@,
        },
        ColonneVue {
            table: "folders"@,
            nom: "nb_non_lus"@,
            definition: "INTEGER NOT NULL DEFAULT 0"@,
        },
        ColonneVue {
            table: "messages"@,
            nom: "horodatage"@,
            definition: "INTEGER NOT NULL DEFAULT 0"@,
        },
    ]
}

/// The columns of tables that an index has.
pub open spec fn vues_paires(v: Seq<(String, String)>) -> Seq<(Seq<char>, Seq<char>)> {
    v.map_values(|p: (String, String)| (p.0@, p.1@))
}

/// The statement that adds a column.
pub open spec fn ajout_colonne(c: ColonneVue) -> Seq<char> {
    "ALTER TABLE "@ + c.table + " ADD COLUMN "@ + c.nom + " "@ + c.definition
}

/// The way the missing columns are added.
pub open spec fn ajout_si_absente(presentes: Seq<(Seq<char>, Seq<char>)>) -> spec_fn(
    ColonneVue,
) -> Option<Seq<char>> {
    |c: ColonneVue|
        if presentes.contains((c.table, c.nom)) {
            None
        } else {
            Some(ajout_colonne(c))
        }
}

/// The statement that replaces the index by date with that by date of reception.
pub open spec fn ordre_par_horodatage() -> Seq<char> {
    "DROP INDEX IF EXISTS messages_par_date;
             CREATE INDEX IF NOT EXISTS messages_par_horodatage
                 ON messages(folder_id, horodatage DESC, uid DESC);"@
}

/// The statement that notes the version of the schema.
pub open spec fn note_version() -> Seq<char> {
    "PRAGMA user_version = "@ + decimal_signe(VERSION_SCHEMA as int)
}

/// The statements that bring an index of a version, with its columns, to the current
/// schema, in their order.
pub open spec fn migration(version: i32, presentes: Seq<(Seq<char>, Seq<char>)>) -> Seq<Seq<char>> {
    if version >= VERSION_SCHEMA {
        Seq::empty()
    } else {
        colonnes().filter_map(ajout_si_absente(presentes)) + seq![
            ordre_par_horodatage(),
            note_version(),
        ]
    }
}

fn lister_colonnes() -> (r: Vec<Colonne>)
    ensures
        r@.len() == colonnes().len(),
        forall|i: int| 0 <= i < r@.len() ==> (#[trigger] r@[i])@ == colonnes()[i],
{
    let mut v: Vec<Colonne> = Vec::new();
    v.push(
        Colonne { table: "accounts", nom: "replie", definition: "INTEGER NOT NULL DEFAULT 0" },
    );
    v.push(
        Colonne { table: "folders", nom: "separateur", definition: "TEXT NOT NULL DEFAULT '/'" },
    );
    v.push(
        Colonne {
            table: "folders",
            nom: "selectionnable",
            definition: "INTEGER NOT NULL DEFAULT 1",
        },
    );
    v.push(
        Colonne { table: "folders", nom: "nb_messages", definition: "INTEGER NOT NULL DEFAULT 0" },
    );
    v.push(
        Colonne { table: "folders", nom: "nb_non_lus", definition: "INTEGER NOT NULL DEFAULT 0" },
    );
    v.push(
        Colonne { table: "messages", nom: "horodatage", definition: "INTEGER NOT NULL DEFAULT 0" },
    );
    v
}

fn presente(presentes: &Vec<(String, String)>, c: &Colonne) -> (r: bool)
    ensures
        r == vues_paires(presentes@).contains((c@.table, c@.nom)),
{
    let ghost s = vues_paires(presentes@);
    for i in 0..presentes.len()
        invariant
            s == vues_paires(presentes@),
            forall|k: int| 0 <= k < i ==> #[trigger] s[k] != (c@.table, c@.nom),
    {
        assert(s[i as int] == (presentes@[i as int].0@, presentes@[i as int].1@));
        if egal(presentes[i].0.as_str(), c.table) && egal(presentes[i].1.as_str(), c.nom) {
            return true;
        }
    }
    false
}

fn ajouter_colonne(c: &Colonne) -> (r: String)
    ensures
        r@ == ajout_colonne(c@),
{
    let mut v = caracteres("ALTER TABLE ");
    ajouter(&mut v, c.table);
    ajouter(&mut v, " ADD COLUMN ");
    ajouter(&mut v, c.nom);
    ajouter(&mut v, " ");
    ajouter(&mut v, c.definition);
    chaine(v.as_slice())
}

/// Gives the statements that bring an index of a version to the current schema, in
/// their order. `presentes` are the columns that it has, each with its table.
pub fn migrer(version: i32, presentes: &Vec<(String, String)>) -> (r: Vec<String>)
    ensures
        textes(r@) == migration(version, vues_paires(presentes@)),
{
    let mut r: Vec<String> = Vec::new();
    if version >= VERSION_SCHEMA {
        assert(textes(r@) =~= Seq::empty());
        return r;
    }
    let ghost f = ajout_si_absente(vues_paires(presentes@));
    let cs = lister_colonnes();
    let ghost s = colonnes();
    proof {
        reveal(Seq::filter_map);
        assert(s.take(0).filter_map(f) =~= Seq::empty());
        assert(textes(r@) =~= Seq::empty());
    }
    for i in 0..cs.len()
        invariant
            s == colonnes(),
            f == ajout_si_absente(vues_paires(presentes@)),
            cs@.len() == s.len(),
            forall|k: int| 0 <= k < cs@.len() ==> (#[trigger] cs@[k])@ == s[k],
            textes(r@) == s.take(i as int).filter_map(f),
    {
        let ghost avant = textes(r@);
        proof {
            s.lemma_filter_map_take_succ(f, i as int);
        }
        if !presente(presentes, &cs[i]) {
            let t = ajouter_colonne(&cs[i]);
            let ghost x = t@;
            r.push(t);
            assert(textes(r@) =~= avant.push(x));
        }
    }
    assert(s.take(s.len() as int) =~= s);
    let ghost avant = textes(r@);
    r.push(
        copier(
            "DROP INDEX IF EXISTS messages_par_date;
             CREATE INDEX IF NOT EXISTS messages_par_horodatage
                 ON messages(folder_id, horodatage DESC, uid DESC);",
        ),
    );
    let mut v = caracteres("PRAGMA user_version = ");
    let n = ecrire_i64(VERSION_SCHEMA as i64);
    ajouter_car(&mut v, n.as_slice());
    r.push(chaine(v.as_slice()));
    assert(textes(r@) =~= avant + seq![ordre_par_horodatage(), note_version()]);
    r
}

/// An index of the current version, or of a later one, is left as it is.
pub proof fn loi_version_courante(version: i32, presentes: Seq<(Seq<char>, Seq<char>)>)
    requires
        version >= VERSION_SCHEMA,
    ensures
        migration(version, presentes) == Seq::<Seq<char>>::empty(),
{
}

/// The migration of an older index adds each column that is missing, and notes the
/// version last.
pub proof fn loi_colonnes_ajoutees(
    version: i32,
    presentes: Seq<(Seq<char>, Seq<char>)>,
    i: int,
)
    requires
        version < VERSION_SCHEMA,
        0 <= i < colonnes().len(),
        !presentes.contains((colonnes()[i].table, colonnes()[i].nom)),
    ensures
        migration(version, presentes).contains(ajout_colonne(colonnes()[i])),
        migration(version, presentes).last() == note_version(),
{
    let f = ajout_si_absente(presentes);
    let s = colonnes();
    let a = s.filter_map(f);
    let m = migration(version, presentes);
    lemme_ajoutee(s, f, i);
    let j = choose|j: int| 0 <= j < a.len() && a[j] == ajout_colonne(s[i]);
    assert(m[j] == ajout_colonne(s[i]));
}

/// The migration of an older index adds no column that is there already: but for the
/// last two, each of its statements adds one that is missing.
pub proof fn loi_colonnes_absentes(
    version: i32,
    presentes: Seq<(Seq<char>, Seq<char>)>,
    k: int,
)
    requires
        version < VERSION_SCHEMA,
        0 <= k < migration(version, presentes).len() - 2,
    ensures
        exists|c: ColonneVue|
            #[trigger] colonnes().contains(c) && !presentes.contains((c.table, c.nom))
                && migration(version, presentes)[k] == ajout_colonne(c),
{
    let f = ajout_si_absente(presentes);
    let s = colonnes();
    let a = s.filter_map(f);
    let m = migration(version, presentes);
    assert(m[k] == a[k]);
    assert(a.contains(a[k]));
    s.lemma_filter_map_contains(f, a[k]);
    let c = choose|t: ColonneVue| #[trigger] s.contains(t) && f(t) == Some(a[k]);
    assert(s.contains(c) && !presentes.contains((c.table, c.nom)) && m[k] == ajout_colonne(c));
}

/// What a selection keeps of a row is in what it gives.
proof fn lemme_ajoutee(
    s: Seq<ColonneVue>,
    f: spec_fn(ColonneVue) -> Option<Seq<char>>,
    i: int,
)
    requires
        0 <= i < s.len(),
        f(s[i]) is Some,
    ensures
        s.filter_map(f).contains(f(s[i])->Some_0),
    decreases s.len(),
{
    reveal(Seq::filter_map);
    let x = f(s[i])->Some_0;
    let t = s.drop_last();
    if i == s.len() - 1 {
        assert(s.filter_map(f) == t.filter_map(f) + seq![x]);
        assert(s.filter_map(f)[t.filter_map(f).len() as int] == x);
    } else {
        lemme_ajoutee(t, f, i);
        let j = choose|j: int| 0 <= j < t.filter_map(f).len() && t.filter_map(f)[j] == x;
        assert(s.filter_map(f)[j] == x);
    }
}

} // verus!
