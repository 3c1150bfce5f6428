use mmail_core::magasin::{
    CompteLocal, DossierLocal, Etape, Ligne, Magasin, MessageLocal, Operation,
};
use mmail_core::protocole::{Dossier, EtatDossier, Statut};
use mmail_core::schema::{migrer, TABLES_INITIALES, VERSION_SCHEMA};
use rusqlite::Connection;

fn dossier(chemin: &str, attributs: &[&str]) -> Dossier {
    Dossier {
        chemin: chemin.to_string(),
        separateur: "/".to_string(),
        attributs: attributs.iter().map(|a| a.to_string()).collect(),
    }
}

fn message(uid: u32, horodatage: i64, lu: bool) -> MessageLocal {
    MessageLocal { uid, horodatage, lu, sujet: format!("m{uid}"), ..Default::default() }
}

fn boite() -> (Magasin, i64, i64) {
    let mut m = Magasin::en_memoire().unwrap();
    let compte = m.compte("a@b.fr", "h", 993, "a@b.fr").unwrap();
    m.poser_dossiers(compte, &[dossier("INBOX", &[])]).unwrap();
    let id = m.dossier_id(compte, "INBOX").unwrap();
    (m, compte, id)
}

fn operation(source: i64, cible: i64) -> Operation {
    Operation {
        id: 0,
        compte_source: source,
        chemin_source: "INBOX".into(),
        validite_source: 7,
        uid_source: 3,
        compte_cible: cible,
        chemin_cible: "Archives".into(),
        message_id: "<x@y>".into(),
        drapeaux: "\\Seen".into(),
        date_interne: "16-Sep-2026 18:00:00 +0200".into(),
        fichier: "/tmp/x.eml".into(),
        etape: Etape::Deposer,
        erreur: String::new(),
    }
}

#[test]
fn comptes_et_arborescence() {
    let mut m = Magasin::en_memoire().unwrap();
    let compte = m.compte("essai@exemple.fr", "imap.exemple.fr", 993, "essai@exemple.fr").unwrap();
    assert!(compte > 0);
    // The same account twice makes no second row.
    let encore = m.compte("essai@exemple.fr", "imap.exemple.fr", 993, "essai@exemple.fr").unwrap();
    assert_eq!(compte, encore);
    assert_eq!(m.comptes().unwrap().len(), 1);

    m.poser_dossiers(
        compte,
        &[
            dossier("INBOX", &[]),
            dossier("Sent", &["\\Sent"]),
            dossier("Essais/Factures", &[]),
            dossier("Parent", &["\\Noselect"]),
        ],
    )
    .unwrap();
    let dossiers = m.dossiers(compte).unwrap();
    assert_eq!(dossiers.len(), 4);
    // INBOX first, then the folder with a role.
    assert_eq!(dossiers[0].chemin, "INBOX");
    assert_eq!(dossiers[1].role, "Sent");
    assert_eq!(dossiers[2].nom, "Factures");
    assert_eq!(dossiers[2].profondeur, 1);
    assert!(!dossiers[3].selectionnable);
}

#[test]
fn dossier_disparu_du_serveur_est_retire() {
    let mut m = Magasin::en_memoire().unwrap();
    let compte = m.compte("a@b.fr", "h", 993, "a@b.fr").unwrap();
    m.poser_dossiers(compte, &[dossier("INBOX", &[]), dossier("Vieux", &[])]).unwrap();
    m.poser_dossiers(compte, &[dossier("INBOX", &[])]).unwrap();
    let dossiers = m.dossiers(compte).unwrap();
    assert_eq!(dossiers.len(), 1);
    assert_eq!(dossiers[0].chemin, "INBOX");
}

#[test]
fn etat_local_survit_a_la_relecture_de_l_arborescence() {
    let (mut m, compte, id) = boite();
    m.masquer(id, true).unwrap();
    m.epingler(id, true).unwrap();
    m.poser_dossiers(compte, &[dossier("INBOX", &[]), dossier("Autre", &[])]).unwrap();
    let inbox = m.dossier(id).unwrap().unwrap();
    assert!(inbox.masque);
    assert_eq!(inbox.favori, Some(1));
    assert_eq!(m.favoris().unwrap().len(), 1);
    m.epingler(id, false).unwrap();
    assert!(m.favoris().unwrap().is_empty());
}

fn ordre(m: &Magasin) -> Vec<String> {
    m.favoris().unwrap().iter().map(|d| d.chemin.clone()).collect()
}

#[test]
fn favoris_places_et_deplaces() {
    let mut m = Magasin::en_memoire().unwrap();
    let compte = m.compte("a@b.fr", "h", 993, "a@b.fr").unwrap();
    m.poser_dossiers(compte, &[dossier("A", &[]), dossier("B", &[]), dossier("C", &[])]).unwrap();
    let a = m.dossier_id(compte, "A").unwrap();
    let b = m.dossier_id(compte, "B").unwrap();
    let c = m.dossier_id(compte, "C").unwrap();

    m.placer_favori(a, None).unwrap();
    m.placer_favori(b, None).unwrap();
    assert_eq!(ordre(&m), vec!["A", "B"]);
    // Dropped on "A": slips in before it.
    m.placer_favori(c, Some(a)).unwrap();
    assert_eq!(ordre(&m), vec!["C", "A", "B"]);
    // A favourite that is moved does not come twice.
    m.placer_favori(b, Some(c)).unwrap();
    assert_eq!(ordre(&m), vec!["B", "C", "A"]);
    // Dropped on itself or on the section: at the end.
    m.placer_favori(b, Some(b)).unwrap();
    assert_eq!(ordre(&m), vec!["C", "A", "B"]);
    // Before what is no favourite: at the end, too.
    m.epingler(a, false).unwrap();
    m.placer_favori(c, Some(a)).unwrap();
    assert_eq!(ordre(&m), vec!["B", "C"]);
}

#[test]
fn messages_tries_par_date_de_reception() {
    let (mut m, _, id) = boite();
    // A message moved from another account gets a great UID but keeps its date: it
    // has to stay in its place.
    m.poser_messages(id, &[message(1, 100, true), message(2, 300, false), message(50, 200, false)])
        .unwrap();
    let uids: Vec<u32> = m.messages(id).unwrap().iter().map(|m| m.uid).collect();
    assert_eq!(uids, vec![2, 50, 1]);
}

#[test]
fn compteurs_du_serveur_puis_de_l_index() {
    let (mut m, compte, id) = boite();
    m.poser_compteurs(compte, &[Statut { chemin: "INBOX".into(), messages: 10, non_lus: 4 }])
        .unwrap();
    let d = m.dossier(id).unwrap().unwrap();
    assert_eq!((d.messages, d.non_lus), (10, 4));

    m.poser_messages(id, &[message(1, 1, true), message(2, 2, false)]).unwrap();
    m.recompter(id).unwrap();
    let d = m.dossier(id).unwrap().unwrap();
    assert_eq!((d.messages, d.non_lus), (2, 1));

    m.marquer_lu(id, &[2], true).unwrap();
    assert_eq!(m.dossier(id).unwrap().unwrap().non_lus, 0);
}

#[test]
fn changement_d_uidvalidity_vide_le_dossier() {
    let (mut m, _, id) = boite();
    let etat = EtatDossier { messages: 1, uid_validity: 100, uid_next: 2, highest_mod_seq: 5 };
    assert!(!m.poser_etat(id, &etat).unwrap(), "premier état : pas de rupture");
    m.poser_messages(id, &[MessageLocal { uid: 1, ..Default::default() }]).unwrap();

    // The same UIDVALIDITY: the index stays.
    assert!(!m.poser_etat(id, &etat).unwrap());
    assert_eq!(m.messages(id).unwrap().len(), 1);

    // Another UIDVALIDITY: the old UIDs designate nothing any more.
    let apres = EtatDossier { uid_validity: 101, ..etat.clone() };
    assert!(m.poser_etat(id, &apres).unwrap(), "rupture attendue");
    assert!(m.messages(id).unwrap().is_empty());
}

#[test]
fn relire_un_message_met_a_jour_ses_drapeaux() {
    let (mut m, _, id) = boite();
    m.poser_messages(
        id,
        &[MessageLocal { uid: 1, sujet: "Objet".into(), lu: false, ..Default::default() }],
    )
    .unwrap();
    m.poser_messages(
        id,
        &[MessageLocal { uid: 1, sujet: "Objet".into(), lu: true, ..Default::default() }],
    )
    .unwrap();
    let messages = m.messages(id).unwrap();
    assert_eq!(messages.len(), 1, "le même UID ne doit pas se dédoubler");
    assert!(messages[0].lu);
}

#[test]
fn vanished_et_drapeaux_appliques() {
    let (mut m, _, id) = boite();
    m.poser_messages(id, &(1..=6).map(|u| message(u, u as i64, false)).collect::<Vec<_>>())
        .unwrap();
    m.retirer_intervalles(id, &[(2, 3), (6, 100)]).unwrap();
    let mut uids = m.uids(id).unwrap();
    uids.sort();
    assert_eq!(uids, vec![1, 4, 5]);
    m.poser_drapeaux(id, &[(4, vec!["\\Seen".into(), "\\Answered".into()])]).unwrap();
    let m4 = m.message(id, 4).unwrap().unwrap();
    assert!(m4.lu && m4.repondu);
    m.retirer(id, &[1]).unwrap();
    assert!(m.message(id, 1).unwrap().is_none());
}

#[test]
fn file_des_deplacements() {
    let mut m = Magasin::en_memoire().unwrap();
    let a = m.compte("a@b.fr", "h", 993, "a@b.fr").unwrap();
    let b = m.compte("c@d.fr", "h", 993, "c@d.fr").unwrap();
    let op = operation(a, b);
    let id = m.inscrire_operation(&op).unwrap();
    assert_eq!(m.nombre_operations().unwrap(), 1);
    m.noter_echec_operation(id, "coupure").unwrap();
    m.avancer_operation(id, Etape::Purger).unwrap();
    let ops = m.operations(a).unwrap();
    assert_eq!(ops.len(), 1);
    assert_eq!(ops[0].etape, Etape::Purger);
    assert!(ops[0].erreur.is_empty(), "une étape franchie efface l'échec précédent");
    assert!(m.operations(b).unwrap().is_empty());
    m.clore_operation(id).unwrap();
    assert_eq!(m.nombre_operations().unwrap(), 0);
}

#[test]
fn retirer_un_compte_emporte_son_index() {
    let (mut m, compte, id) = boite();
    m.poser_messages(id, &[message(1, 1, true)]).unwrap();
    m.retirer_compte(compte).unwrap();
    assert!(m.comptes().unwrap().is_empty());
    assert!(m.dossier(id).unwrap().is_none());
}

fn colonnes(base: &Connection) -> Vec<(String, String)> {
    let mut v = Vec::new();
    for table in ["accounts", "folders", "messages", "pending_ops"] {
        let mut requete =
            base.prepare(&format!("SELECT name FROM pragma_table_info('{table}')")).unwrap();
        let noms: Vec<String> =
            requete.query_map([], |l| l.get(0)).unwrap().map(|n| n.unwrap()).collect();
        for nom in noms {
            v.push((table.to_string(), nom));
        }
    }
    v
}

/// The stored index brought to the current schema.
fn preparer(base: &Connection) {
    base.execute_batch(TABLES_INITIALES).unwrap();
    let version: i32 = base.pragma_query_value(None, "user_version", |l| l.get(0)).unwrap();
    for ordre in migrer(version, &colonnes(base)) {
        base.execute_batch(&ordre).unwrap();
    }
}

/// The stored index of one folder.
fn charger(base: &Connection) -> Magasin {
    let dossiers: Vec<DossierLocal> = base
        .prepare("SELECT id, account_id, chemin, nom, separateur, selectionnable FROM folders")
        .unwrap()
        .query_map([], |l| {
            Ok(DossierLocal {
                id: l.get(0)?,
                compte_id: l.get(1)?,
                chemin: l.get(2)?,
                nom: l.get(3)?,
                separateur: l.get(4)?,
                selectionnable: l.get::<_, i32>(5)? != 0,
                ..Default::default()
            })
        })
        .unwrap()
        .map(|d| d.unwrap())
        .collect();
    let messages: Vec<Ligne> = base
        .prepare("SELECT folder_id, uid, sujet, horodatage FROM messages")
        .unwrap()
        .query_map([], |l| {
            Ok(Ligne {
                dossier: l.get(0)?,
                message: MessageLocal {
                    uid: l.get(1)?,
                    sujet: l.get(2)?,
                    horodatage: l.get(3)?,
                    ..Default::default()
                },
            })
        })
        .unwrap()
        .map(|m| m.unwrap())
        .collect();
    Magasin::charger(Vec::new(), dossiers, messages, Vec::new())
}

#[test]
fn migration_d_un_index_de_version_1() {
    // An index of the first generation: without the columns of version 2.
    let base = Connection::open_in_memory().unwrap();
    base.execute_batch(
        "CREATE TABLE accounts (id INTEGER PRIMARY KEY, adresse TEXT NOT NULL UNIQUE,
            hote TEXT NOT NULL, port INTEGER NOT NULL DEFAULT 993, utilisateur TEXT NOT NULL);
         CREATE TABLE folders (id INTEGER PRIMARY KEY, account_id INTEGER NOT NULL,
            chemin TEXT NOT NULL, nom TEXT NOT NULL, profondeur INTEGER NOT NULL DEFAULT 0,
            role TEXT NOT NULL DEFAULT '', uidvalidity INTEGER NOT NULL DEFAULT 0,
            uidnext INTEGER NOT NULL DEFAULT 0, highestmodseq INTEGER NOT NULL DEFAULT 0,
            hidden_local INTEGER NOT NULL DEFAULT 0, favorite_rank INTEGER,
            UNIQUE (account_id, chemin));
         CREATE TABLE messages (id INTEGER PRIMARY KEY, folder_id INTEGER NOT NULL,
            uid INTEGER NOT NULL, message_id TEXT NOT NULL DEFAULT '',
            expediteur TEXT NOT NULL DEFAULT '', adresse TEXT NOT NULL DEFAULT '',
            sujet TEXT NOT NULL DEFAULT '', date TEXT NOT NULL DEFAULT '',
            taille INTEGER NOT NULL DEFAULT 0, lu INTEGER NOT NULL DEFAULT 0,
            repondu INTEGER NOT NULL DEFAULT 0, body_state TEXT NOT NULL DEFAULT 'headers',
            UNIQUE (folder_id, uid));
         INSERT INTO accounts (adresse, hote, utilisateur) VALUES ('a@b.fr', 'h', 'a@b.fr');
         INSERT INTO folders (account_id, chemin, nom) VALUES (1, 'INBOX', 'INBOX');
         INSERT INTO messages (folder_id, uid, sujet) VALUES (1, 1, 'ancien');",
    )
    .unwrap();
    preparer(&base);
    let m = charger(&base);
    let messages = m.messages(1).unwrap();
    assert_eq!(messages.len(), 1, "l'index existant est conservé");
    assert_eq!(messages[0].sujet, "ancien");
    assert!(m.dossier(1).unwrap().unwrap().selectionnable);
}

#[test]
fn migration_faite_une_seule_fois() {
    let base = Connection::open_in_memory().unwrap();
    preparer(&base);
    let version: i32 = base.pragma_query_value(None, "user_version", |l| l.get(0)).unwrap();
    assert_eq!(version, VERSION_SCHEMA);
    let presentes = colonnes(&base);
    for (table, nom) in [
        ("accounts", "replie"),
        ("folders", "separateur"),
        ("folders", "selectionnable"),
        ("folders", "nb_messages"),
        ("folders", "nb_non_lus"),
        ("messages", "horodatage"),
    ] {
        assert!(presentes.contains(&(table.to_string(), nom.to_string())), "{table}.{nom}");
    }
    assert!(migrer(version, &presentes).is_empty());
    // Columns that are there already are not added again.
    assert_eq!(migrer(1, &presentes).len(), 2);
    assert_eq!(
        migrer(0, &Vec::new())[0],
        "ALTER TABLE accounts ADD COLUMN replie INTEGER NOT NULL DEFAULT 0"
    );
    assert_eq!(migrer(0, &Vec::new()).last().unwrap(), "PRAGMA user_version = 2");
}

#[test]
fn comptes_mis_a_jour_et_replies() {
    let mut m = Magasin::en_memoire().unwrap();
    assert_eq!(m.compte_connu("a@b.fr").unwrap(), None);
    let a = m.compte("a@b.fr", "h", 993, "a@b.fr").unwrap();
    let b = m.compte("c@d.fr", "h", 993, "c@d.fr").unwrap();
    assert_eq!((a, b), (1, 2));
    m.compte("a@b.fr", "nouveau", 993, "a").unwrap();
    assert_eq!(m.compte_connu("a@b.fr").unwrap(), Some(a));
    let c = m.compte_par_id(a).unwrap().unwrap();
    assert_eq!((c.hote.as_str(), c.utilisateur.as_str(), c.replie), ("nouveau", "a", false));
    m.replier_compte(a, true).unwrap();
    assert!(m.compte_par_id(a).unwrap().unwrap().replie);
    assert!(!m.compte_par_id(b).unwrap().unwrap().replie);
    assert!(m.compte_par_id(9).unwrap().is_none());
    // The identifier after the greatest one.
    m.retirer_compte(a).unwrap();
    assert_eq!(m.compte("e@f.fr", "h", 993, "e").unwrap(), 3);
}

#[test]
fn refus_de_l_index() {
    let (mut m, compte, _) = boite();
    assert_eq!(m.dossier_id(compte, "Rien").unwrap_err().texte(), "Query returned no rows");
    assert_eq!(
        m.poser_messages(99, &[message(1, 1, true)]).unwrap_err().texte(),
        "FOREIGN KEY constraint failed"
    );
    assert_eq!(
        m.inscrire_operation(&operation(compte, 99)).unwrap_err().texte(),
        "FOREIGN KEY constraint failed"
    );
    assert!(m.poser_messages(99, &[]).is_ok());
    let etat = EtatDossier {
        messages: 0,
        uid_validity: 1,
        uid_next: 1,
        highest_mod_seq: 9223372036854775808,
    };
    let id = m.dossier_id(compte, "INBOX").unwrap();
    assert!(m.poser_etat(id, &etat).is_err());
    assert_eq!(m.nombre_operations().unwrap(), 0);
}

#[test]
fn epuisement_des_rangs() {
    let comptes = vec![CompteLocal {
        id: i64::MAX,
        adresse: "a@b.fr".into(),
        hote: "h".into(),
        port: 993,
        utilisateur: "a".into(),
        replie: false,
    }];
    let dossiers = vec![
        DossierLocal {
            id: 1,
            compte_id: i64::MAX,
            chemin: "A".into(),
            favori: Some(i64::MAX),
            ..Default::default()
        },
        DossierLocal { id: 2, compte_id: i64::MAX, chemin: "B".into(), ..Default::default() },
    ];
    let mut m = Magasin::charger(comptes, dossiers, Vec::new(), Vec::new());
    assert_eq!(
        m.compte("c@d.fr", "h", 993, "c").unwrap_err().texte(),
        "plus d'identifiant de compte disponible"
    );
    assert_eq!(m.epingler(2, true).unwrap_err().texte(), "plus de rang de favori disponible");
    assert!(m.placer_favori(2, None).is_err());
    assert_eq!(m.lignes_comptes().len(), 1);
    assert_eq!(m.lignes_dossiers().len(), 2);
    assert!(m.lignes_messages().is_empty());
    assert!(m.lignes_operations().is_empty());
}

#[test]
fn etapes_relues() {
    for e in [Etape::Deposer, Etape::Purger] {
        assert_eq!(Etape::lire(e.code()), e);
    }
    assert_eq!(Etape::Purger.code(), "purger");
    assert_eq!(Etape::lire("autre"), Etape::Deposer);
}

#[test]
fn rupture_de_l_un_laisse_l_autre() {
    let (mut m, compte, id) = boite();
    m.poser_dossiers(compte, &[dossier("INBOX", &[]), dossier("Autre", &[])]).unwrap();
    let autre = m.dossier_id(compte, "Autre").unwrap();
    let etat = EtatDossier { messages: 1, uid_validity: 5, uid_next: 2, highest_mod_seq: 1 };
    m.poser_etat(id, &etat).unwrap();
    m.poser_messages(id, &[message(1, 1, true)]).unwrap();
    m.poser_messages(autre, &[message(1, 1, true), message(2, 2, true)]).unwrap();
    m.poser_etat(id, &EtatDossier { uid_validity: 6, ..etat }).unwrap();
    assert!(m.uids(id).unwrap().is_empty());
    assert_eq!(m.uids(autre).unwrap().len(), 2);
    let d = m.dossier(id).unwrap().unwrap();
    assert_eq!((d.uid_validity, d.uid_next, d.highest_mod_seq), (6, 2, 1));
}

#[test]
fn dossiers_sous_leur_parent() {
    let mut m = Magasin::en_memoire().unwrap();
    let c = m.compte("a@b.fr", "h", 993, "a@b.fr").unwrap();
    let dossiers: Vec<Dossier> = ["B", "A B", "A/C", "A", "A/C/D", "A-", "A/C D"]
        .iter()
        .map(|p| Dossier { chemin: p.to_string(), separateur: "/".into(), attributs: vec![] })
        .collect();
    m.poser_dossiers(c, &dossiers).unwrap();
    let chemins: Vec<String> = m.dossiers(c).unwrap().into_iter().map(|d| d.chemin).collect();
    assert_eq!(chemins, vec!["A", "A/C", "A/C/D", "A/C D", "A B", "A-", "B"]);
}
