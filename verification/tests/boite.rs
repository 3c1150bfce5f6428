use std::path::PathBuf;

use mmail_core::boite::{Boite, Effet, Etat, Signal};
use mmail_core::chemins::{atelier, dossier_de_piece, dossier_pieces, fichier_dans};
use mmail_core::commande::{regrouper, Cible, Commande};
use mmail_core::deplacement::Rapport;
use mmail_core::index::PieceJointe;
use mmail_core::json::{json_dossier, json_messages, json_pieces, lire_uids, texte_json};
use mmail_core::magasin::{DossierLocal, Etape, Magasin, MessageLocal, Operation};
use mmail_core::protocole::Dossier;
use mmail_core::travail::Issue;

fn dossier(chemin: &str) -> Commande {
    Commande::OuvrirDossier(chemin.into())
}

fn corps(uid: u32) -> Commande {
    Commande::Corps { chemin: "INBOX".into(), uid, brut: false }
}

fn noms(file: &[Commande]) -> Vec<String> {
    file.iter()
        .map(|c| match c {
            Commande::OuvrirDossier(d) => format!("ouvrir {d}"),
            Commande::Corps { uid, .. } => format!("corps {uid}"),
            Commande::Piece { uid, .. } => format!("piece {uid}"),
            Commande::MarquerLu { .. } => "marquer".into(),
            Commande::Deplacer { .. } => "deplacer".into(),
            Commande::Arborescence => "arborescence".into(),
            Commande::Reprendre(_) => "reprendre".into(),
            Commande::Veille => "veille".into(),
        })
        .collect()
}

#[test]
fn seul_le_dernier_dossier_demande_est_lu() {
    let (file, abandonnees) = regrouper(vec![dossier("INBOX"), dossier("Sent"), dossier("Archives")]);
    assert_eq!(noms(&file), vec!["ouvrir Archives"]);
    assert_eq!(abandonnees, 2);
}

#[test]
fn un_message_delaisse_n_est_pas_telecharge() {
    let (file, _) = regrouper(vec![corps(1), corps(2), corps(3)]);
    assert_eq!(noms(&file), vec!["corps 3"]);
    // Opening another folder makes the reading of a message of the old one void.
    let (file, _) = regrouper(vec![corps(4), dossier("Sent")]);
    assert_eq!(noms(&file), vec!["ouvrir Sent"]);
}

#[test]
fn un_deplacement_n_est_jamais_abandonne() {
    let deplacer = Commande::Deplacer {
        source: "INBOX".into(),
        uids: vec![1],
        cible: Cible { compte: 1, chemin: "Archives".into(), identifiants: None },
    };
    let marquer = Commande::MarquerLu { chemin: "INBOX".into(), uids: vec![2], lu: true };
    let (file, abandonnees) =
        regrouper(vec![dossier("INBOX"), deplacer, marquer, dossier("Sent"), corps(9)]);
    assert_eq!(noms(&file), vec!["deplacer", "marquer", "ouvrir Sent", "corps 9"]);
    assert_eq!(abandonnees, 1);
}

#[test]
fn la_veille_cede_la_place_et_ne_compte_pas() {
    let (file, abandonnees) = regrouper(vec![Commande::Veille, dossier("INBOX")]);
    assert_eq!(noms(&file), vec!["ouvrir INBOX"]);
    assert_eq!(abandonnees, 0, "la veille n'a pas été comptée à l'envoi");
}

#[test]
fn file_vide() {
    assert!(regrouper(Vec::new()).0.is_empty());
}

#[test]
fn uids_lus_depuis_l_interface() {
    assert_eq!(lire_uids("3, 5,x,0,7"), vec![3, 5, 7]);
    assert!(lire_uids("").is_empty());
}

#[test]
fn atelier_a_cote_de_l_index() {
    assert_eq!(PathBuf::from(atelier("/profil/index.sqlite")), PathBuf::from("/profil/operations"));
}

#[test]
fn echappement_json() {
    assert_eq!(texte_json("simple"), "\"simple\"");
    assert_eq!(texte_json(r#"gui"llemet"#), r#""gui\"llemet""#);
    assert_eq!(texte_json("deux\nlignes"), r#""deux\nlignes""#);
    assert_eq!(texte_json("tab\t"), r#""tab\t""#);
    // A bare control character would break the reading of the JSON: it has to come out
    // escaped.
    assert_eq!(texte_json("a\u{1}b"), "\"a\\u0001b\"");
    // Accents stay as they are: JSON is UTF-8.
    assert_eq!(texte_json("été"), "\"été\"");
}

#[test]
fn dossier_serialise() {
    let json = json_dossier(
        "dossier",
        &DossierLocal {
            id: 4,
            compte_id: 2,
            chemin: "Essais/Factures".into(),
            nom: "Factures".into(),
            separateur: "/".into(),
            profondeur: 1,
            selectionnable: true,
            messages: 5,
            non_lus: 2,
            favori: Some(1),
            ..Default::default()
        },
        "a@b.fr",
        1,
    );
    assert!(json.starts_with('{') && json.ends_with('}'));
    assert!(json.contains(r#""nom":"Factures""#));
    assert!(json.contains(r#""nonLus":2"#));
    assert!(json.contains(r#""compte":2"#));
    assert!(json.contains(r#""favori":true"#));
}

#[test]
fn pieces_serialisees() {
    let json = json_pieces(&[PieceJointe {
        indice: 1,
        nom: "outil \"x\".exe".into(),
        type_mime: "application/octet-stream".into(),
        taille: 42,
        risquee: true,
    }]);
    assert!(json.contains(r#""indice":1"#));
    assert!(json.contains(r#""risquee":true"#));
    assert!(json.contains(r#"outil \"x\".exe"#));
}

#[test]
fn dossier_des_pieces_a_cote_de_l_index() {
    assert_eq!(
        PathBuf::from(dossier_pieces("/profil/index.sqlite")),
        PathBuf::from("/profil/pieces-jointes")
    );
}

#[test]
fn messages_serialises() {
    let json = json_messages(&[MessageLocal {
        uid: 3,
        expediteur: "Service \"compta\"".into(),
        sujet: "Réunion d'équipe".into(),
        lu: true,
        ..Default::default()
    }]);
    assert!(json.contains(r#""uid":3"#));
    assert!(json.contains(r#""lu":true"#));
    assert!(json.contains("Réunion"));
    assert!(json.contains(r#"Service \"compta\""#));
}

#[test]
fn json_exact() {
    assert_eq!(texte_json("\u{1f}\u{2028}\\\r"), "\"\\u001f\\u2028\\\\\\r\"");
    assert_eq!(json_messages(&[]), "[]");
    assert_eq!(
        json_messages(&[MessageLocal { uid: 3, taille: 10, ..Default::default() }]),
        "[{\"uid\":3,\"expediteur\":\"\",\"adresse\":\"\",\"sujet\":\"\",\"date\":\"\",\"taille\":10,\"lu\":false,\"repondu\":false}]"
    );
    let piece = |i: usize| PieceJointe {
        indice: i,
        nom: "a".into(),
        type_mime: "b/c".into(),
        taille: 1,
        risquee: false,
    };
    assert_eq!(
        json_pieces(&[piece(0), piece(1)]),
        "[{\"indice\":0,\"nom\":\"a\",\"type\":\"b/c\",\"taille\":1,\"risquee\":false},{\"indice\":1,\"nom\":\"a\",\"type\":\"b/c\",\"taille\":1,\"risquee\":false}]"
    );
    assert_eq!(
        json_dossier("dossier", &DossierLocal::default(), "x", 0),
        "{\"genre\":\"dossier\",\"compte\":0,\"adresse\":\"x\",\"chemin\":\"\",\"nom\":\"\",\"separateur\":\"\",\"profondeur\":0,\"role\":\"\",\"selectionnable\":false,\"messages\":0,\"nonLus\":0,\"masque\":false,\"favori\":false}"
    );
}

#[test]
fn chemins_de_travail() {
    assert_eq!(atelier("index.sqlite"), "operations");
    assert_eq!(atelier(""), "operations");
    let d = dossier_de_piece("/profil/index.sqlite", 2, 7, 0);
    assert_eq!(PathBuf::from(&d), PathBuf::from("/profil/pieces-jointes/2-7-0"));
    assert_eq!(
        PathBuf::from(fichier_dans(&d, "facture.pdf")),
        PathBuf::from("/profil/pieces-jointes/2-7-0/facture.pdf")
    );
}

// --------------------------------------------------------------------------- mailbox

fn serveur(chemin: &str, attributs: &[&str]) -> Dossier {
    Dossier {
        chemin: chemin.to_string(),
        separateur: "/".to_string(),
        attributs: attributs.iter().map(|a| a.to_string()).collect(),
    }
}

/// A profile with two accounts: one with a trash, one with an inbox only.
fn profil() -> Boite {
    let mut m = Magasin::en_memoire().unwrap();
    let a = m.compte("a@b.fr", "h", 993, "a@b.fr").unwrap();
    let b = m.compte("c@d.fr", "h", 993, "c@d.fr").unwrap();
    m.poser_dossiers(a, &[serveur("INBOX", &[]), serveur("Trash", &["\\Trash"])]).unwrap();
    m.poser_dossiers(b, &[serveur("INBOX", &[])]).unwrap();
    let id = m.dossier_id(a, "INBOX").unwrap();
    m.poser_messages(
        id,
        &[
            MessageLocal { uid: 1, horodatage: 1, ..Default::default() },
            MessageLocal { uid: 2, horodatage: 2, ..Default::default() },
        ],
    )
    .unwrap();
    m.recompter(id).unwrap();
    let mut boite = Boite::default();
    assert!(boite.ouvrir_profil("/profil/index.sqlite", Ok(m)));
    boite.effets();
    boite
}

/// Starts the workers that are asked for, and gives their accounts, sessions and
/// requests.
fn lancer(boite: &mut Boite) -> Vec<(i64, u64, Vec<String>)> {
    let mut v = Vec::new();
    for e in boite.effets() {
        if let Effet::Lancer { compte, commandes, .. } = e {
            let generation = boite.prochaine_generation();
            boite.lance(compte, commandes.len());
            v.push((compte, generation, noms(&commandes)));
        }
    }
    v
}

/// Connects an account, and gives the number of its session.
fn connecter(boite: &mut Boite, adresse: &str) -> (i64, u64) {
    assert!(boite.connecter(" h ", adresse, "secret"));
    let (compte, generation, commandes) = lancer(boite).pop().unwrap();
    assert!(commandes.is_empty());
    assert!(boite.occupe());
    boite.terminer(compte, generation, 1);
    boite.remettre(compte, generation, Issue::Connecte);
    (compte, generation)
}

fn envois(boite: &mut Boite) -> Vec<(i64, String)> {
    boite
        .effets()
        .into_iter()
        .filter_map(|e| match e {
            Effet::Envoyer { compte, commande } => Some((compte, noms(&[commande]).pop().unwrap())),
            _ => None,
        })
        .collect()
}

fn echec(etape: &'static str, session_perdue: bool) -> Issue {
    Issue::Echec { etape, message: "raison".into(), session_perdue }
}

#[test]
fn profil_ouvert_une_fois() {
    let mut boite = Boite::default();
    assert_eq!(boite.comptes(), "[]");
    assert_eq!(boite.arborescence(true), "[]");
    assert_eq!(boite.dossiers_cibles(), "[]");
    assert_eq!(boite.messages(), "[]");
    let erreur = Err(mmail_core::magasin::Erreur("illisible".into()));
    assert!(!boite.ouvrir_profil("/p/i", erreur));
    assert_eq!(boite.erreur(), "index local : illisible");
    assert!(!boite.profil_ouvert("/p/i"));
    assert!(boite.ouvrir_profil("/p/i", Magasin::en_memoire()));
    assert_eq!(boite.erreur(), "");
    assert_eq!(boite.revision(), 1);
    assert!(matches!(&boite.effets()[..], [Effet::ViderPieces(p)] if p == "/p/i"));
    // The same profile again: nothing to do.
    assert!(boite.profil_ouvert("/p/i"));
    assert!(boite.ouvrir_profil("/p/i", Magasin::en_memoire()));
    assert_eq!(boite.revision(), 1);
}

#[test]
fn connexion_et_signaux() {
    let mut boite = profil();
    assert!(!boite.connecter("", "x@y.fr", "s"));
    assert_eq!(boite.erreur(), "serveur et adresse sont obligatoires");
    assert!(!Boite::default().connecter("h", "x@y.fr", "s"));
    let (compte, _) = connecter(&mut boite, "a@b.fr");
    assert_eq!(compte, 1);
    let effets = boite.effets();
    assert_eq!(effets.len(), 3);
    assert!(matches!(&effets[0], Effet::Envoyer { compte: 1, commande: Commande::Reprendre(_) }));
    assert!(matches!(&effets[1], Effet::Reposer(t) if t.is_empty()));
    assert!(matches!(
        &effets[2],
        Effet::Signaler(Signal::Connecte { compte: 1, adresse }) if adresse == "a@b.fr"
    ));
    assert!(boite.comptes().contains(r#""etat":"pret""#));
    // The second account: each ready session is asked to resume.
    let (autre, _) = connecter(&mut boite, "c@d.fr");
    assert_eq!(autre, 2);
    assert_eq!(
        envois(&mut boite),
        vec![(1, "reprendre".to_string()), (2, "reprendre".to_string())]
    );
}

#[test]
fn premiere_connexion_ratee() {
    let mut boite = profil();
    assert!(boite.connecter("h", "n@x.fr", "s"));
    let (compte, generation, _) = lancer(&mut boite).pop().unwrap();
    assert_eq!(compte, 3);
    assert!(boite.comptes().contains("n@x.fr"));
    boite.terminer(compte, generation, 1);
    boite.remettre(compte, generation, echec("identifiants", true));
    assert!(!boite.comptes().contains("n@x.fr"));
    assert!(!boite.occupe());
    assert_eq!(boite.erreur(), "raison");
    // A known account is kept; what opens it is forgotten once it was refused.
    assert!(boite.connecter("h", "a@b.fr", "faux"));
    let (compte, generation, _) = lancer(&mut boite).pop().unwrap();
    boite.remettre(compte, generation, echec("identifiants", true));
    assert!(boite.comptes().contains("a@b.fr"));
    boite.actualiser();
    assert!(lancer(&mut boite).is_empty());
}

#[test]
fn resultats_perimes_ignores() {
    let mut boite = profil();
    let (compte, generation) = connecter(&mut boite, "a@b.fr");
    boite.effets();
    boite.deconnecter(compte as i32);
    assert!(boite.comptes().contains(r#""etat":"horsligne""#));
    assert!(matches!(&boite.effets()[..], [Effet::Fermer(1)]));
    let revision = boite.revision();
    boite.remettre(compte, generation, Issue::Arborescence);
    assert_eq!(boite.revision(), revision);
    let (_, nouvelle) = connecter(&mut boite, "a@b.fr");
    assert!(nouvelle != generation);
    boite.effets();
    boite.remettre(compte, generation, Issue::Marque);
    assert!(boite.effets().is_empty());
    boite.remettre(compte, nouvelle, Issue::Marque);
    assert_eq!(boite.effets().len(), 1);
}

#[test]
fn dossier_ouvert_et_messages_demandes() {
    let mut boite = profil();
    connecter(&mut boite, "a@b.fr");
    boite.effets();
    assert!(!boite.demander_corps(1));
    assert!(!boite.ouvrir_dossier(1, "Rien"));
    assert_eq!(boite.erreur(), "dossier inconnu : Rien");
    assert!(boite.ouvrir_dossier(1, "INBOX"));
    assert_eq!((boite.compte_courant(), boite.dossier_courant()), (1, "INBOX"));
    assert!(boite.messages().starts_with("[{\"uid\":2"));
    assert!(!boite.demander_corps(0));
    assert!(boite.demander_corps(2));
    assert!(boite.demander_source(2));
    assert!(!boite.ouvrir_piece(2, -1));
    assert!(boite.ouvrir_piece(2, 0));
    assert!(!boite.enregistrer_piece(2, 0, ""));
    assert_eq!(boite.erreur(), "emplacement d'enregistrement invalide");
    assert!(boite.enregistrer_piece(2, 0, "/tmp/x"));
    assert!(boite.marquer_lu("1,2", true));
    assert!(!boite.marquer_lu("", true));
    assert!(boite.messages().contains("\"lu\":true"));
    let v: Vec<String> = envois(&mut boite).into_iter().map(|e| e.1).collect();
    assert_eq!(v, vec!["ouvrir INBOX", "corps 2", "corps 2", "piece 2", "piece 2", "marquer"]);
    assert!(boite.occupe());
}

#[test]
fn deplacements_acceptes_ou_refuses() {
    let mut boite = profil();
    connecter(&mut boite, "a@b.fr");
    assert!(!boite.deplacer("1", 1, "Trash"));
    boite.ouvrir_dossier(1, "INBOX");
    boite.effets();
    assert!(!boite.deplacer("1", 1, "INBOX"));
    assert!(!boite.deplacer("x", 1, "Trash"));
    assert!(!boite.deplacer("1", 2, "INBOX"));
    assert_eq!(
        boite.erreur(),
        "la boîte cible n'est pas connectée : le déplacement est refusé"
    );
    assert!(boite.effets().is_empty());
    assert!(boite.supprimer("1"));
    connecter(&mut boite, "c@d.fr");
    boite.effets();
    assert!(boite.deplacer("1,2", 2, "INBOX"));
    let effets = boite.effets();
    match &effets[0] {
        Effet::Envoyer { compte: 1, commande: Commande::Deplacer { source, uids, cible } } => {
            assert_eq!(source, "INBOX");
            assert_eq!(uids, &vec![1, 2]);
            assert_eq!((cible.compte, cible.chemin.as_str()), (2, "INBOX"));
            assert_eq!(cible.identifiants.as_ref().unwrap().utilisateur, "c@d.fr");
        }
        _ => panic!("déplacement attendu"),
    }
    boite.ouvrir_dossier(1, "Trash");
    assert!(!boite.supprimer("1"));
    assert_eq!(boite.erreur(), "ces messages sont déjà dans la corbeille");
    boite.ouvrir_dossier(2, "INBOX");
    assert!(!boite.supprimer("1"));
    assert_eq!(boite.erreur(), "ce compte n'a pas de corbeille déclarée");
}

#[test]
fn deplacement_termine_et_cible_relue() {
    let mut boite = profil();
    let (a, ga) = connecter(&mut boite, "a@b.fr");
    connecter(&mut boite, "c@d.fr");
    boite.ouvrir_dossier(2, "INBOX");
    boite.effets();
    let rapport = Rapport { deplaces: 2, absents: 0, erreurs: vec!["un".into(), "deux".into()] };
    boite.remettre(a, ga, Issue::Deplace { cible: 2, chemin_cible: "INBOX".into(), rapport });
    let effets = boite.effets();
    assert_eq!(effets.len(), 4);
    assert!(matches!(&effets[0], Effet::Envoyer { compte: 2, commande: Commande::Arborescence }));
    assert!(matches!(&effets[1], Effet::Envoyer { compte: 2, commande: Commande::OuvrirDossier(_) }));
    assert!(matches!(&effets[2], Effet::Reposer(t) if t == "un\ndeux"));
    assert!(matches!(
        &effets[3],
        Effet::Signaler(Signal::DeplacementTermine { nombre: 2, erreurs }) if erreurs == "un\ndeux"
    ));
    assert_eq!(boite.erreur(), "un\ndeux");
    // A refusal of what was sent before does not hide what the move told.
    boite.envoi_refuse(9, Commande::Arborescence);
    boite.reposer_erreur("un\ndeux");
    assert_eq!(boite.erreur(), "un\ndeux");
    let rapport = Rapport { deplaces: 1, absents: 0, erreurs: vec!["x".into()] };
    boite.remettre(a, ga, Issue::Repris { rapport });
    assert_eq!(envois(&mut boite), vec![(2, "arborescence".to_string())]);
    assert_eq!(boite.erreur(), "reprise des déplacements : x");
}

#[test]
fn session_tombee_puis_rouverte() {
    let mut boite = profil();
    let (a, g) = connecter(&mut boite, "a@b.fr");
    boite.ouvrir_dossier(1, "INBOX");
    boite.effets();
    // The worker did not take the request: its session is closed.
    assert!(!boite.envoi_refuse(a, Commande::Arborescence));
    assert_eq!(boite.erreur(), "la session du compte s'est fermée");
    assert!(!boite.occupe());
    boite.effets();
    // The next request opens the session again.
    assert!(boite.demander_corps(1));
    let v = lancer(&mut boite);
    assert_eq!(v.len(), 1);
    assert!(v[0].1 != g);
    assert_eq!(v[0].2, vec!["corps 1"]);
    assert!(boite.occupe());
    boite.terminer(a, v[0].1, 2);
    boite.remettre(a, v[0].1, Issue::Arborescence);
    assert!(!boite.occupe());
    let prochaine = boite.prochaine_generation();
    boite.lancement_rate("plus de fils");
    assert_eq!(boite.erreur(), "fil de travail : plus de fils");
    assert_eq!(boite.prochaine_generation(), prochaine);
    boite.lance(a, 0);
    assert_eq!(boite.prochaine_generation(), prochaine + 1);
}

#[test]
fn actualisation_des_comptes() {
    let mut boite = profil();
    let (a, g) = connecter(&mut boite, "a@b.fr");
    boite.ouvrir_dossier(1, "INBOX");
    boite.effets();
    boite.actualiser();
    assert_eq!(
        envois(&mut boite),
        vec![(1, "arborescence".to_string()), (1, "ouvrir INBOX".to_string())]
    );
    boite.remettre(a, g, echec("reseau", true));
    assert!(boite.comptes().contains(r#""etat":"erreur""#));
    boite.effets();
    boite.actualiser();
    assert_eq!(lancer(&mut boite)[0].2, vec!["arborescence", "ouvrir INBOX"]);
    // An account that nothing opens cannot be asked for anything.
    assert!(!boite.ouvrir_dossier(2, "INBOX"));
    assert_eq!(boite.erreur(), "ce compte n'est pas connecté");
}

#[test]
fn corps_et_pieces_recus() {
    let mut boite = profil();
    let (a, g) = connecter(&mut boite, "a@b.fr");
    boite.effets();
    boite.remettre(
        a,
        g,
        Issue::Corps {
            uid: 2,
            texte: "bonjour".into(),
            brut: false,
            marque: true,
            pieces: "[]".into(),
        },
    );
    boite.remettre(a, g, Issue::Piece { fichier: "/p/x".into(), ouvrir: true });
    boite.remettre(a, g, Issue::Dossier { chemin: "INBOX".into(), veille: true });
    let effets = boite.effets();
    assert_eq!(effets.len(), 4);
    assert!(matches!(&effets[0], Effet::Signaler(Signal::DrapeauxModifies)));
    assert!(matches!(
        &effets[1],
        Effet::Signaler(Signal::CorpsRecu { uid: 2, brut: false, texte, .. }) if texte == "bonjour"
    ));
    assert!(matches!(
        &effets[2],
        Effet::Signaler(Signal::PieceEcrite { fichier, ouvrir: true }) if fichier == "/p/x"
    ));
    assert!(matches!(
        &effets[3],
        Effet::Signaler(Signal::DossierOuvert { compte: 1, veille: true, .. })
    ));
    boite.remettre(a, g, echec("dossier", false));
    assert!(matches!(
        &boite.effets()[..],
        [Effet::Signaler(Signal::Echec { compte: 1, etape, .. })] if etape == "dossier"
    ));
    assert!(boite.comptes().contains(r#""etat":"pret""#));
}

#[test]
fn arborescence_commune() {
    let mut boite = profil();
    connecter(&mut boite, "c@d.fr");
    let arbre = boite.arborescence(false);
    assert!(arbre.starts_with(
        "[{\"genre\":\"rubrique\",\"nom\":\"Favoris\"},{\"genre\":\"favori-vide\"},{\"genre\":\"compte\",\"compte\":1,"
    ));
    boite.epingler_dossier(1, "Trash", true);
    boite.masquer_dossier(1, "INBOX", true);
    let arbre = boite.arborescence(false);
    assert!(!arbre.contains("favori-vide"));
    assert!(arbre.contains(r#"{"genre":"favori","compte":1,"adresse":"a@b.fr","chemin":"Trash""#));
    assert!(!arbre.contains(r#"{"genre":"dossier","compte":1,"adresse":"a@b.fr","chemin":"INBOX""#));
    assert!(boite
        .arborescence(true)
        .contains(r#"{"genre":"dossier","compte":1,"adresse":"a@b.fr","chemin":"INBOX""#));
    // A hidden favourite is hidden among the favourites too.
    boite.masquer_dossier(1, "Trash", true);
    assert!(boite.arborescence(false).contains("favori-vide"));
    assert!(!boite.arborescence(false).contains(r#""compte":1,"adresse":"a@b.fr","chemin":"Trash""#));
    assert!(boite.arborescence(true).contains(r#"{"genre":"favori","compte":1"#));
    boite.masquer_dossier(1, "Trash", false);
    boite.placer_favori(2, "INBOX", 1, "Trash");
    let arbre = boite.arborescence(false);
    let inbox = arbre.find(r#""genre":"favori","compte":2"#).unwrap();
    let trash = arbre.find(r#""genre":"favori","compte":1"#).unwrap();
    assert!(inbox < trash);
    boite.replier_compte(1, true);
    let arbre = boite.arborescence(true);
    assert!(arbre.contains(r#""replie":true"#));
    assert!(!arbre.contains(r#"{"genre":"dossier","compte":1"#));
    // Only the folders of connected accounts can be aimed at.
    let cibles = boite.dossiers_cibles();
    assert!(cibles.contains(r#"{"genre":"cible","compte":2"#));
    assert!(!cibles.contains(r#""compte":1"#));
    assert!(boite.comptes().starts_with(
        "[{\"id\":1,\"adresse\":\"a@b.fr\",\"hote\":\"h\",\"etat\":\"horsligne\"},{\"id\":2,"
    ));
}

#[test]
fn compte_retire_du_profil() {
    let mut boite = profil();
    connecter(&mut boite, "a@b.fr");
    boite.ouvrir_dossier(1, "INBOX");
    boite.retirer_compte(1);
    assert_eq!((boite.compte_courant(), boite.dossier_courant()), (0, ""));
    assert!(!boite.comptes().contains("a@b.fr"));
    assert!(!boite.occupe());
    assert_eq!(boite.messages(), "[]");
}

#[test]
fn deplacements_en_attente() {
    let mut boite = profil();
    let (a, g) = connecter(&mut boite, "a@b.fr");
    assert_eq!(boite.en_attente(), 0);
    let mut m = Magasin::charger(
        boite.magasin().unwrap().lignes_comptes().clone(),
        boite.magasin().unwrap().lignes_dossiers().clone(),
        Vec::new(),
        Vec::new(),
    );
    m.inscrire_operation(&Operation {
        id: 0,
        compte_source: 1,
        chemin_source: "INBOX".into(),
        validite_source: 1,
        uid_source: 1,
        compte_cible: 2,
        chemin_cible: "INBOX".into(),
        message_id: String::new(),
        drapeaux: String::new(),
        date_interne: String::new(),
        fichier: "x".into(),
        etape: Etape::Deposer,
        erreur: String::new(),
    })
    .unwrap();
    boite.relire(m);
    boite.remettre(a, g, Issue::Arborescence);
    assert_eq!(boite.en_attente(), 1);
    // The moves of an account leave with it.
    boite.retirer_compte(2);
    assert_eq!(boite.en_attente(), 0);
}

#[test]
fn codes_des_etats() {
    let codes: Vec<&str> = [Etat::HorsLigne, Etat::Connexion, Etat::Pret, Etat::Erreur]
        .into_iter()
        .map(|e| e.code())
        .collect();
    assert_eq!(codes, vec!["horsligne", "connexion", "pret", "erreur"]);
}

#[test]
fn dossiers_de_travail_sans_dossier() {
    assert_eq!(atelier("index.sqlite"), "operations");
    assert_eq!(PathBuf::from(atelier("/index.sqlite")), PathBuf::from("/operations"));
    assert_eq!(atelier(""), "operations");
}

#[test]
fn json_borne_et_imprimable() {
    let textes = ["", "\"", "\\", "\\\"", "a\u{0}\u{1f}b", "\u{2028}x\u{2029}", "été \n\t\r", "fin\\"];
    for a in textes {
        let t: Vec<char> = texte_json(a).chars().collect();
        assert!(t.iter().all(|c| *c >= ' ' && *c != '\u{2028}' && *c != '\u{2029}'));
        // The first quote that no backslash protects is the last character.
        let mut i = 1;
        while t[i] != '"' {
            i += if t[i] == '\\' { 2 } else { 1 };
        }
        assert_eq!(i, t.len() - 1, "{a:?}");
        for b in textes {
            assert_eq!(texte_json(a) == texte_json(b), a == b);
        }
    }
}
