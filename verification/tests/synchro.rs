use mmail_core::imap::{Client, Erreur, Selection};
use mmail_core::magasin::{Magasin, MessageLocal};
use mmail_core::protocole::{Dossier, Entete, EtatDossier, Statut};
use mmail_core::synchro::{
    arborescence, assurer_selection, lignes_des_entetes, marquer_lu, synchroniser, Action, Bilan,
    Echec, Evenement, Suite, Synchro,
};

fn dossier(chemin: &str) -> Dossier {
    Dossier { chemin: chemin.into(), separateur: "/".into(), attributs: Vec::new() }
}

fn message(uid: u32) -> MessageLocal {
    MessageLocal { uid, horodatage: uid as i64, ..Default::default() }
}

fn index() -> (Magasin, i64) {
    let mut m = Magasin::en_memoire().unwrap();
    let compte = m.compte("a@b.fr", "h", 993, "a@b.fr").unwrap();
    arborescence(
        &mut m,
        compte,
        Ok((
            vec![dossier("INBOX")],
            vec![Statut { chemin: "INBOX".into(), messages: 3, non_lus: 2 }],
        )),
    )
    .unwrap();
    (m, compte)
}

fn etat(messages: u32, uid_validity: u32, uid_next: u32) -> EtatDossier {
    EtatDossier { messages, uid_validity, uid_next, highest_mod_seq: 5 }
}

fn selection(etat: EtatDossier, reprise: bool, disparus: Vec<(u32, u32)>) -> Selection {
    Selection { etat, disparus, drapeaux: Vec::new(), reprise }
}

fn demande(suite: Suite) -> (Synchro, Action) {
    match suite {
        Suite::Demander(s, a) => (s, a),
        Suite::Fini(_) => panic!("demande attendue"),
    }
}

fn bilan(suite: Suite) -> Bilan {
    match suite {
        Suite::Fini(Ok(b)) => b,
        Suite::Fini(Err(e)) => panic!("{}", e.texte()),
        Suite::Demander(_, _) => panic!("fin attendue"),
    }
}

fn uids(m: &Magasin) -> Vec<u32> {
    let mut v = m.uids(1).unwrap();
    v.sort();
    v
}

/// A first visit that reads everything.
fn premiere_visite(m: &mut Magasin, compte: i64) {
    let (s, a) = demande(synchroniser(m, compte, "INBOX"));
    assert!(matches!(&a, Action::Selectionner { reprise: None, .. }));
    let (s, a) =
        demande(s.suivre(m, Evenement::Selection(Ok(selection(etat(3, 7, 4), false, Vec::new())))));
    assert!(matches!(&a, Action::Entetes(i) if i == "1:*"));
    let b = bilan(s.suivre(m, Evenement::Lignes(Ok(vec![message(1), message(2), message(3)]))));
    assert_eq!(b, Bilan { dossier_id: 1, nouveaux: 3, retires: 0, complet: true });
}

#[test]
fn premiere_lecture_puis_reprise() {
    let (mut m, compte) = index();
    premiere_visite(&mut m, compte);
    let d = m.dossier(1).unwrap().unwrap();
    assert_eq!((d.uid_validity, d.uid_next, d.highest_mod_seq, d.messages), (7, 4, 5, 3));
    // The next visit only reads what came since.
    let (s, a) = demande(synchroniser(&m, compte, "INBOX"));
    assert!(matches!(&a, Action::Selectionner { reprise: Some((7, 5)), .. }));
    let (s, a) = demande(
        s.suivre(&mut m, Evenement::Selection(Ok(selection(etat(3, 7, 5), true, vec![(2, 2)])))),
    );
    assert!(matches!(&a, Action::Entetes(i) if i == "4:*"));
    assert_eq!(uids(&m), vec![1, 3]);
    // The open interval also gives the last message known.
    let b = bilan(s.suivre(&mut m, Evenement::Lignes(Ok(vec![message(3), message(4)]))));
    assert_eq!(b, Bilan { dossier_id: 1, nouveaux: 1, retires: 1, complet: false });
    assert_eq!(uids(&m), vec![1, 3, 4]);
}

#[test]
fn visite_sans_changement() {
    let (mut m, compte) = index();
    premiere_visite(&mut m, compte);
    let (s, _) = demande(synchroniser(&m, compte, "INBOX"));
    let b = bilan(
        s.suivre(&mut m, Evenement::Selection(Ok(selection(etat(3, 7, 4), true, Vec::new())))),
    );
    assert_eq!(b, Bilan { dossier_id: 1, nouveaux: 0, retires: 0, complet: false });
}

#[test]
fn ecart_repare_par_la_liste() {
    let (mut m, compte) = index();
    premiere_visite(&mut m, compte);
    let (s, _) = demande(synchroniser(&m, compte, "INBOX"));
    let (s, a) = demande(
        s.suivre(&mut m, Evenement::Selection(Ok(selection(etat(2, 7, 4), true, Vec::new())))),
    );
    assert!(matches!(a, Action::TousLesDrapeaux));
    let drapeaux = vec![(1, vec!["\\Seen".to_string()]), (9, Vec::new())];
    let (s, a) = demande(s.suivre(&mut m, Evenement::Drapeaux(Ok(drapeaux))));
    assert!(matches!(&a, Action::Entetes(i) if i == "9"));
    assert_eq!(uids(&m), vec![1]);
    assert!(m.message(1, 1).unwrap().unwrap().lu);
    let b = bilan(s.suivre(&mut m, Evenement::Lignes(Ok(vec![message(9)]))));
    assert_eq!(b, Bilan { dossier_id: 1, nouveaux: 1, retires: 2, complet: true });
    assert_eq!(uids(&m), vec![1, 9]);
}

#[test]
fn validite_rompue() {
    let (mut m, compte) = index();
    premiere_visite(&mut m, compte);
    let (s, _) = demande(synchroniser(&m, compte, "INBOX"));
    let (s, a) = demande(
        s.suivre(&mut m, Evenement::Selection(Ok(selection(etat(1, 8, 2), false, Vec::new())))),
    );
    assert!(matches!(&a, Action::Entetes(i) if i == "1:*"));
    assert!(uids(&m).is_empty());
    // The server fails: the new state is not noted.
    match s.suivre(&mut m, Evenement::Lignes(Err(Erreur::Reseau("coupure".into())))) {
        Suite::Fini(Err(e)) => assert!(e.reseau()),
        _ => panic!("échec attendu"),
    }
    assert_eq!(m.dossier(1).unwrap().unwrap().uid_next, 0);
}

#[test]
fn dossier_vide_au_serveur() {
    let (mut m, compte) = index();
    premiere_visite(&mut m, compte);
    let (s, _) = demande(synchroniser(&m, compte, "INBOX"));
    let b = bilan(
        s.suivre(&mut m, Evenement::Selection(Ok(selection(etat(0, 7, 4), false, Vec::new())))),
    );
    assert_eq!(b, Bilan { dossier_id: 1, nouveaux: 0, retires: 3, complet: true });
    assert!(uids(&m).is_empty());
}

#[test]
fn echecs_de_la_synchronisation() {
    let (mut m, compte) = index();
    match synchroniser(&m, compte, "Rien") {
        Suite::Fini(Err(e)) => assert_eq!(e.texte(), "index local : Query returned no rows"),
        _ => panic!("échec attendu"),
    }
    let (s, _) = demande(synchroniser(&m, compte, "INBOX"));
    match s.suivre(&mut m, Evenement::Drapeaux(Ok(Vec::new()))) {
        Suite::Fini(Err(e)) => assert!(e.texte().contains("inattendue")),
        _ => panic!("échec attendu"),
    }
    let refus = arborescence(&mut m, compte, Err(Erreur::Refuse("non".into())));
    assert_eq!(refus.unwrap_err().texte(), "refusé par le serveur : non");
    assert_eq!(Echec::Imap(Erreur::Protocole("x".into())).texte(), "protocole : x");
    assert!(!Echec::Index(mmail_core::magasin::Erreur("x".into())).reseau());
}

#[test]
fn marquage_apres_le_serveur() {
    let (mut m, compte) = index();
    premiere_visite(&mut m, compte);
    assert_eq!(m.dossier(1).unwrap().unwrap().non_lus, 3);
    let echec = marquer_lu(&mut m, compte, "INBOX", &[1], true, Err(Erreur::Reseau("x".into())));
    assert!(echec.is_err());
    assert_eq!(m.dossier(1).unwrap().unwrap().non_lus, 3);
    marquer_lu(&mut m, compte, "INBOX", &[1], true, Ok(())).unwrap();
    assert_eq!(m.dossier(1).unwrap().unwrap().non_lus, 2);
    assert!(marquer_lu(&mut m, compte, "Rien", &[1], true, Ok(())).is_err());
}

#[test]
fn selection_a_assurer() {
    let c = Client::connecter();
    assert!(assurer_selection(&c, "INBOX"));
}

#[test]
fn lignes_des_entetes_du_serveur() {
    let e = Entete {
        uid: 3,
        taille: 10,
        drapeaux: Vec::new(),
        date_interne: "16-Sep-2026 18:00:00 +0200".into(),
        brut: b"From: x@y.fr\r\nSubject: Objet\r\n\r\n".to_vec(),
    };
    let v = lignes_des_entetes(Ok(vec![e])).unwrap();
    assert_eq!((v[0].uid, v[0].sujet.as_str()), (3, "Objet"));
    assert!(lignes_des_entetes(Err(Erreur::Reseau("x".into()))).is_err());
}
