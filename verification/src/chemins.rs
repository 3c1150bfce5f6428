//! Where the working files of a profile stand: next to its index.

use vstd::prelude::*;

use crate::index::{interdit, loi_nom_sain, nom_assaini};
use crate::nombre::{decimal, decimal_signe, ecrire_i64, ecrire_u64};
use crate::texte::{ajouter, ajouter_car, chaine, copier};

verus! {

/// Whether a name is that of a file or a folder, and no path: it holds no separator
/// and no drive, and is neither the folder itself nor the one above it.
pub open spec fn nom_simple(nom: Seq<char>) -> bool {
    &&& nom.len() > 0
    &&& nom != seq!['.'] && nom != seq!['.', '.']
    &&& forall|i: int|
        0 <= i < nom.len() ==> (#[trigger] nom[i]) != '/' && nom[i] != '\\' && nom[i] != ':'
}

/// Whether a folder is written plainly: with no backslash and no drive, with no two
/// slashes at its start, and with no slash or dot at its end.
pub open spec fn dossier_simple(d: Seq<char>) -> bool {
    &&& d.len() > 0
    &&& d.last() != '/' && d.last() != '.'
    &&& !(d.len() >= 2 && d[0] == '/' && d[1] == '/')
    &&& forall|i: int| 0 <= i < d.len() ==> (#[trigger] d[i]) != '\\' && d[i] != ':'
}

/// Whether a folder is written plainly with backslashes: with no slash, with no two
/// backslashes at its start, with no backslash, colon or dot at its end.
pub open spec fn dossier_inverse(d: Seq<char>) -> bool {
    &&& d.len() > 0
    &&& d.last() != '\\' && d.last() != ':' && d.last() != '.'
    &&& !(d.len() >= 2 && d[0] == '\\' && d[1] == '\\')
    &&& !d.contains('/')
}

/// Whether `p` can be the folder of the path `chemin`: none of an empty path, else a
/// start of the path that is shorter. It is empty where the path is a name alone, and
/// the root where it is a name behind a slash; else it is what stands before the last
/// slash, where this is a folder written plainly and a name follows. A backslash
/// separates on some machines only.
pub open spec fn est_parent(chemin: Seq<char>, p: Option<Seq<char>>) -> bool {
    &&& chemin.len() == 0 ==> p is None
    &&& p matches Some(d) ==> d.len() < chemin.len() && d == chemin.take(d.len() as int)
    &&& nom_simple(chemin) ==> p == Some(Seq::<char>::empty())
    &&& chemin.len() > 1 && chemin[0] == '/' && nom_simple(chemin.drop_first()) ==> p == Some(
        seq!['/'],
    )
    &&& forall|d: Seq<char>, f: Seq<char>|
        #![trigger d + seq!['/'] + f]
        chemin == d + seq!['/'] + f && dossier_simple(d) && nom_simple(f) ==> p == Some(d)
    &&& forall|d: Seq<char>, f: Seq<char>|
        #![trigger d + seq!['\\'] + f]
        chemin == d + seq!['\\'] + f && dossier_inverse(d) && nom_simple(f) ==> p == Some(d) || p
            == Some(Seq::<char>::empty())
}

/// Whether a character separates the parts of a path, on one machine at least.
pub open spec fn separe(c: char) -> bool {
    c == '/' || c == '\\'
}

/// Whether `r` can be the path of the name `nom` in the folder `base`: the folder,
/// one separator, and the name. There is no separator behind an empty folder nor
/// behind one that ends with a slash; there may be none behind one that ends with a
/// backslash, or with the colon of a drive. A folder that starts with two backslashes
/// may be written anew.
pub open spec fn est_joint(base: Seq<char>, nom: Seq<char>, r: Seq<char>) -> bool {
    nom_simple(nom) && !(base.len() >= 2 && base[0] == '\\' && base[1] == '\\') ==> {
        if base.len() == 0 || base.last() == '/' {
            r == base + nom
        } else {
            ||| r == base + seq!['/'] + nom
            ||| r == base + seq!['\\'] + nom
            ||| r == base + nom && (base.last() == '\\' || base.last() == ':')
        }
    }
}

/// `Path::parent`: the path without its last component, none if there is nothing
/// before it. The separators of a path are those of the machine, so that only what
/// holds on all of them is stated.
#[verifier::external_body]
fn parent(chemin: &str) -> (r: Option<String>)
    ensures
        est_parent(
            chemin@,
            match r {
                Some(d) => Some(d@),
                None => None,
            },
        ),
{
    std::path::Path::new(chemin).parent().map(|p| p.to_string_lossy().into_owned())
}

/// `Path::join`: a path put behind a folder, with the separator of the machine.
/// Nothing is stated of what is more than a name: an absolute path takes the place of
/// the folder.
#[verifier::external_body]
fn accoler_chemin(base: &str, nom: &str) -> (r: String)
    ensures
        est_joint(base@, nom@, r@),
{
    std::path::Path::new(base).join(nom).to_string_lossy().into_owned()
}

/// Whether `r` can be the folder `nom` next to the index `profil`.
pub open spec fn est_a_cote(profil: Seq<char>, nom: Seq<char>, r: Seq<char>) -> bool {
    exists|p: Option<Seq<char>>|
        {
            &&& #[trigger] est_parent(profil, p)
            &&& match p {
                Some(d) => est_joint(d, nom, r),
                None => r == nom,
            }
        }
}

/// The folder `nom` of the folder of the index, or alone where the index has none.
fn a_cote(profil: &str, nom: &str) -> (r: String)
    ensures
        est_a_cote(profil@, nom@, r@),
{
    match parent(profil) {
        Some(d) => {
            let r = accoler_chemin(d.as_str(), nom);
            assert(est_parent(profil@, Some(d@)));
            r
        },
        None => {
            assert(est_parent(profil@, None));
            copier(nom)
        },
    }
}

/// The folder of the working copies of the moves, next to the index.
pub fn atelier(profil: &str) -> (r: String)
    ensures
        est_a_cote(profil@, "operations"@, r@),
{
    a_cote(profil, "operations")
}

/// The working folder of the attachments that were opened, next to the index. It is
/// emptied whenever the profile is opened.
pub fn dossier_pieces(profil: &str) -> (r: String)
    ensures
        est_a_cote(profil@, "pieces-jointes"@, r@),
{
    a_cote(profil, "pieces-jointes")
}

/// The name of the working folder of an attachment.
pub open spec fn nom_de_piece(compte: i64, uid: u32, indice: usize) -> Seq<char> {
    decimal_signe(compte as int) + "-"@ + decimal(uid as nat) + "-"@ + decimal(indice as nat)
}

/// Whether `r` can be the working folder of an attachment, in that of all of them.
pub open spec fn est_dossier_de_piece(
    profil: Seq<char>,
    compte: i64,
    uid: u32,
    indice: usize,
    r: Seq<char>,
) -> bool {
    exists|d: Seq<char>|
        {
            &&& #[trigger] est_a_cote(profil, "pieces-jointes"@, d)
            &&& est_joint(d, nom_de_piece(compte, uid, indice), r)
        }
}

/// The working folder of an attachment of a message, in that of all of them.
pub fn dossier_de_piece(profil: &str, compte: i64, uid: u32, indice: usize) -> (r: String)
    ensures
        est_dossier_de_piece(profil@, compte, uid, indice, r@),
{
    let mut v = ecrire_i64(compte);
    ajouter(&mut v, "-");
    let n = ecrire_u64(uid as u64);
    ajouter_car(&mut v, n.as_slice());
    ajouter(&mut v, "-");
    let n = ecrire_u64(indice as u64);
    ajouter_car(&mut v, n.as_slice());
    let nom = chaine(v.as_slice());
    let d = dossier_pieces(profil);
    let r = accoler_chemin(d.as_str(), nom.as_str());
    assert(est_a_cote(profil@, "pieces-jointes"@, d@));
    r
}

/// The file of a name in a folder.
pub fn fichier_dans(dossier: &str, nom: &str) -> (r: String)
    ensures
        est_joint(dossier@, nom@, r@),
{
    accoler_chemin(dossier, nom)
}

// ----------------------------------------------------------------------------- laws

/// The working folders of a profile stand in the folder of its index: behind this
/// folder and a separator.
pub proof fn loi_a_cote_de_l_index(d: Seq<char>, f: Seq<char>, nom: Seq<char>, r: Seq<char>)
    requires
        dossier_simple(d),
        nom_simple(f),
        nom_simple(nom),
        est_a_cote(d + seq!['/'] + f, nom, r),
    ensures
        r == d + seq!['/'] + nom || r == d + seq!['\\'] + nom,
{
}

/// The working folder of an attachment stands in that of all of them, which stands in
/// the folder of the index.
pub proof fn loi_piece_a_cote_de_l_index(
    d: Seq<char>,
    f: Seq<char>,
    compte: i64,
    uid: u32,
    indice: usize,
    r: Seq<char>,
)
    requires
        dossier_simple(d),
        nom_simple(f),
        est_dossier_de_piece(d + seq!['/'] + f, compte, uid, indice, r),
    ensures
        exists|a: char, b: char|
            #[trigger] separe(a) && #[trigger] separe(b) && r == d + seq![a] + "pieces-jointes"@
                + seq![b] + nom_de_piece(compte, uid, indice),
{
    reveal_strlit("pieces-jointes");
    let nom = "pieces-jointes"@;
    let p = choose|p: Seq<char>|
        #[trigger] est_a_cote(d + seq!['/'] + f, nom, p) && est_joint(
            p,
            nom_de_piece(compte, uid, indice),
            r,
        );
    loi_dossier_de_piece(compte, uid, indice);
    loi_a_cote_de_l_index(d, f, nom, p);
    let a = if p == d + seq!['/'] + nom {
        '/'
    } else {
        '\\'
    };
    assert(p == d + seq![a] + nom);
    assert(p.last() == 's');
    let b = if r == p + seq!['/'] + nom_de_piece(compte, uid, indice) {
        '/'
    } else {
        '\\'
    };
    assert(separe(a) && separe(b));
    assert(p[0] == d[0]);
    assert(r == p + seq![b] + nom_de_piece(compte, uid, indice));
}

/// The name of the working folder of an attachment is no path.
pub proof fn loi_dossier_de_piece(compte: i64, uid: u32, indice: usize)
    ensures
        nom_simple(nom_de_piece(compte, uid, indice)),
{
    let a = decimal_signe(compte as int);
    let b = decimal(uid as nat);
    let c = decimal(indice as nat);
    crate::nombre::lemme_decimal(uid as nat);
    crate::nombre::lemme_decimal(indice as nat);
    reveal_strlit("-");
    let n = if compte < 0 {
        (-(compte as int)) as nat
    } else {
        compte as nat
    };
    crate::nombre::lemme_decimal(n);
    assert forall|i: int| 0 <= i < a.len() implies '0' <= #[trigger] a[i] <= '9' || a[i] == '-' by {
        if compte < 0 && i > 0 {
            assert(a[i] == decimal(n)[i - 1]);
        }
    }
    let t = nom_de_piece(compte, uid, indice);
    assert forall|i: int| 0 <= i < t.len() implies (#[trigger] t[i]) != '/' && t[i] != '\\' && t[i]
        != ':' by {
        if i < a.len() {
            assert(t[i] == a[i]);
        } else if i == a.len() {
        } else if i < a.len() + 1 + b.len() {
            assert(t[i] == b[i - a.len() - 1]);
        } else if i == a.len() + 1 + b.len() {
        } else {
            assert(t[i] == c[i - a.len() - b.len() - 2]);
        }
    }
}

/// A name made safe for an attachment is no path: the file stays in its folder.
pub proof fn loi_piece_dans_son_dossier(nom: Seq<char>, indice: nat, type_mime: Seq<char>)
    ensures
        nom_simple(nom_assaini(nom, indice as int, type_mime)),
{
    loi_nom_sain(nom, indice, type_mime);
    crate::index::lemme_interdits('/');
    crate::index::lemme_interdits('\\');
    crate::index::lemme_interdits(':');
    reveal_strlit(".");
    reveal_strlit("..");
    let r = nom_assaini(nom, indice as int, type_mime);
    assert(seq!['.'] =~= "."@);
    assert(seq!['.', '.'] =~= ".."@);
    assert forall|i: int| 0 <= i < r.len() implies (#[trigger] r[i]) != '/' && r[i] != '\\'
        && r[i] != ':' by {
        assert(!interdit(r[i]));
    }
}

} // verus!
