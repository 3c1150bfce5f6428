use mmail_core::deplacement::{
    a_deplacer, dans_la_boite, entre_boites, reprendre, retenir_identifiant, Action, Evenement,
    Rapport, Reprise, Suite, SuiteReprise, Transfert,
};
use mmail_core::imap::{Erreur, MessageComplet, Selection};
use mmail_core::magasin::{Etape, Magasin, MessageLocal, Operation};
use mmail_core::protocole::{Dossier, EtatDossier};

fn dossier(chemin: &str) -> Dossier {
    Dossier { chemin: chemin.into(), separateur: "/".into(), attributs: Vec::new() }
}

fn index() -> Magasin {
    let mut m = Magasin::en_memoire().unwrap();
    for adresse in ["a@b.fr", "c@d.fr"] {
        let compte = m.compte(adresse, "h", 993, adresse).unwrap();
        m.poser_dossiers(compte, &[dossier("INBOX"), dossier("Archive")]).unwrap();
    }
    let id = m.dossier_id(1, "INBOX").unwrap();
    m.poser_messages(id, &[MessageLocal { uid: 3, ..Default::default() }]).unwrap();
    m
}

fn ouverte(uid_validity: u32) -> Selection {
    Selection {
        etat: EtatDossier { messages: 1, uid_validity, uid_next: 9, highest_mod_seq: 1 },
        disparus: Vec::new(),
        drapeaux: Vec::new(),
        reprise: false,
    }
}

fn lu() -> MessageComplet {
    MessageComplet {
        drapeaux: vec!["\\Seen".into(), "\\Flagged".into()],
        date_interne: "16-Sep-2026 18:00:00 +0200".into(),
        octets: b"Message-ID: <x@y>\r\n\r\ncorps".to_vec(),
    }
}

fn demande(s: Suite) -> (Transfert, Action) {
    match s {
        Suite::Demander(t, a) => (t, a),
        Suite::Fini(_) => panic!("demande attendue"),
    }
}

/// A transfer of the message 3 up to the demand for its deposit.
fn jusqu_au_depot(m: &mut Magasin) -> Transfert {
    let (t, a) = demande(entre_boites(1, "INBOX", vec![3], 2, "Archive", "/p/operations"));
    assert!(matches!(a, Action::CreerAtelier));
    let (t, a) = demande(t.suivre(m, Evenement::Atelier(Ok(()))));
    assert!(matches!(&a, Action::Selectionner(c) if c == "INBOX"));
    let (t, a) = demande(t.suivre(m, Evenement::Selection(Ok(ouverte(7)))));
    assert!(matches!(a, Action::Lire(3)));
    let (t, a) = demande(t.suivre(m, Evenement::Message(Ok(Some(lu())))));
    assert!(matches!(&a, Action::Copier { nom, octets } if nom == "1-7-3.eml" && *octets == lu().octets));
    assert_eq!(m.nombre_operations().unwrap(), 0);
    let (t, a) = demande(t.suivre(m, Evenement::Copie(Ok("/p/operations/1-7-3.eml".into()))));
    match a {
        Action::Deposer { chemin, message } => {
            assert_eq!(chemin, "Archive");
            assert_eq!(message.drapeaux, lu().drapeaux);
            assert_eq!(message.date_interne, lu().date_interne);
            assert_eq!(message.octets, lu().octets);
        }
        _ => panic!("dépôt attendu"),
    }
    // The move is registered before the deposit.
    let ops = m.operations(1).unwrap();
    assert_eq!(ops.len(), 1);
    assert_eq!((ops[0].etape, ops[0].message_id.as_str()), (Etape::Deposer, "x@y"));
    t
}

#[test]
fn transfert_mene_a_bien() {
    let mut m = index();
    let t = jusqu_au_depot(&mut m);
    let (t, a) = demande(t.suivre(&mut m, Evenement::Depot(Ok(Some(12)))));
    assert!(matches!(a, Action::Supprimer(3)));
    assert_eq!(m.operations(1).unwrap()[0].etape, Etape::Purger);
    let (t, a) = demande(t.suivre(&mut m, Evenement::Suppression(Ok(()))));
    assert!(matches!(&a, Action::Effacer(f) if f == "/p/operations/1-7-3.eml"));
    match t.suivre(&mut m, Evenement::Effacement) {
        Suite::Fini(Ok(r)) => {
            assert_eq!(r, Rapport { deplaces: 1, absents: 0, erreurs: Vec::new() })
        }
        _ => panic!("fin attendue"),
    }
    assert_eq!(m.nombre_operations().unwrap(), 0);
    let id = m.dossier_id(1, "INBOX").unwrap();
    assert!(m.uids(id).unwrap().is_empty());
}

#[test]
fn depot_coupe_garde_la_source() {
    let mut m = index();
    let t = jusqu_au_depot(&mut m);
    match t.suivre(&mut m, Evenement::Depot(Err(Erreur::Reseau("coupure".into())))) {
        Suite::Fini(Err(e)) => assert!(e.reseau()),
        _ => panic!("échec attendu"),
    }
    // The move stays in the queue, at the step of its deposit.
    assert_eq!(m.operations(1).unwrap()[0].etape, Etape::Deposer);
    let id = m.dossier_id(1, "INBOX").unwrap();
    assert_eq!(m.uids(id).unwrap(), vec![3]);
}

#[test]
fn message_disparu_avant_d_etre_lu() {
    let mut m = index();
    let (t, _) = demande(entre_boites(1, "INBOX", vec![3], 2, "Archive", "/p/operations"));
    let (t, _) = demande(t.suivre(&mut m, Evenement::Atelier(Ok(()))));
    let (t, _) = demande(t.suivre(&mut m, Evenement::Selection(Ok(ouverte(7)))));
    match t.suivre(&mut m, Evenement::Message(Ok(None))) {
        Suite::Fini(Ok(r)) => assert_eq!((r.deplaces, r.absents), (0, 1)),
        _ => panic!("fin attendue"),
    }
    assert!(matches!(
        entre_boites(1, "INBOX", Vec::new(), 2, "Archive", "/p"),
        Suite::Fini(Ok(_))
    ));
}

#[test]
fn atelier_impossible() {
    let mut m = index();
    let (t, _) = demande(entre_boites(1, "INBOX", vec![3], 2, "Archive", "/p/operations"));
    match t.suivre(&mut m, Evenement::Atelier(Err("plein".into()))) {
        Suite::Fini(Err(e)) => {
            assert_eq!(e.texte(), "index local : atelier /p/operations : plein")
        }
        _ => panic!("échec attendu"),
    }
}

fn operation(m: &mut Magasin, etape: Etape, message_id: &str) -> Operation {
    let op = Operation {
        id: 0,
        compte_source: 1,
        chemin_source: "INBOX".into(),
        validite_source: 7,
        uid_source: 3,
        compte_cible: 2,
        chemin_cible: "Archive".into(),
        message_id: message_id.into(),
        drapeaux: "\\Seen \\Flagged".into(),
        date_interne: "16-Sep-2026 18:00:00 +0200".into(),
        fichier: "/p/x.eml".into(),
        etape,
        erreur: String::new(),
    };
    let id = m.inscrire_operation(&op).unwrap();
    m.avancer_operation(id, etape).unwrap();
    m.operations(1).unwrap().pop().unwrap()
}

fn etape(s: SuiteReprise) -> (Reprise, Action) {
    match s {
        SuiteReprise::Demander(r, a) => (r, a),
        SuiteReprise::Fini(_) => panic!("demande attendue"),
    }
}

#[test]
fn reprise_sans_doublon() {
    let mut m = index();
    let o = operation(&mut m, Etape::Deposer, "x@y");
    let (r, a) = etape(reprendre(&o));
    assert!(matches!(&a, Action::Examiner(c) if c == "Archive"));
    let etat = EtatDossier { messages: 1, uid_validity: 2, uid_next: 3, highest_mod_seq: 4 };
    let (r, a) = etape(r.suivre(&mut m, &o, Evenement::Examen(Ok(etat))));
    assert!(matches!(&a, Action::Chercher(i) if i == "x@y"));
    // The deposit had taken place: the source is purged, nothing is put there again.
    let (r, a) = etape(r.suivre(&mut m, &o, Evenement::Recherche(Ok(vec![12]))));
    assert!(matches!(&a, Action::Selectionner(c) if c == "INBOX"));
    assert_eq!(m.operations(1).unwrap()[0].etape, Etape::Purger);
    let (r, a) = etape(r.suivre(&mut m, &o, Evenement::Selection(Ok(ouverte(7)))));
    assert!(matches!(a, Action::Supprimer(3)));
    let (r, a) = etape(r.suivre(&mut m, &o, Evenement::Suppression(Ok(()))));
    assert!(matches!(&a, Action::Effacer(f) if f == "/p/x.eml"));
    assert!(matches!(r.suivre(&mut m, &o, Evenement::Effacement), SuiteReprise::Fini(Ok(()))));
    assert_eq!(m.nombre_operations().unwrap(), 0);
}

#[test]
fn reprise_avec_depot() {
    let mut m = index();
    let o = operation(&mut m, Etape::Deposer, "");
    let (r, a) = etape(reprendre(&o));
    assert!(matches!(&a, Action::LireCopie(f) if f == "/p/x.eml"));
    let (r, a) = etape(r.suivre(&mut m, &o, Evenement::CopieLue(Ok(b"corps".to_vec()))));
    match a {
        Action::Deposer { message, .. } => {
            assert_eq!(message.drapeaux, vec!["\\Seen", "\\Flagged"]);
            assert_eq!(message.octets, b"corps".to_vec());
        }
        _ => panic!("dépôt attendu"),
    }
    let (_, a) = etape(r.suivre(&mut m, &o, Evenement::Depot(Ok(None))));
    assert!(matches!(&a, Action::Selectionner(c) if c == "INBOX"));
}

#[test]
fn reprise_fidele_au_message_lu() {
    let mut m = index();
    jusqu_au_depot(&mut m);
    let o = m.operations(1).unwrap().pop().unwrap();
    let (r, _) = etape(reprendre(&o));
    let etat = EtatDossier { messages: 0, uid_validity: 2, uid_next: 3, highest_mod_seq: 4 };
    let (r, _) = etape(r.suivre(&mut m, &o, Evenement::Examen(Ok(etat))));
    let (r, a) = etape(r.suivre(&mut m, &o, Evenement::Recherche(Ok(Vec::new()))));
    assert!(matches!(&a, Action::LireCopie(f) if f == "/p/operations/1-7-3.eml"));
    let (_, a) = etape(r.suivre(&mut m, &o, Evenement::CopieLue(Ok(lu().octets))));
    match a {
        Action::Deposer { chemin, message } => {
            assert_eq!(chemin, "Archive");
            assert_eq!(message.drapeaux, lu().drapeaux);
            assert_eq!(message.date_interne, lu().date_interne);
            assert_eq!(message.octets, lu().octets);
        }
        _ => panic!("dépôt attendu"),
    }
}

#[test]
fn reprise_d_une_source_renumerotee() {
    let mut m = index();
    let o = operation(&mut m, Etape::Purger, "x@y");
    let (r, _) = etape(reprendre(&o));
    assert_eq!(r, Reprise::Selection);
    // The UID no longer designates this message: nothing is removed.
    let (r, a) = etape(r.suivre(&mut m, &o, Evenement::Selection(Ok(ouverte(8)))));
    assert!(matches!(&a, Action::Effacer(_)));
    assert_eq!(r, Reprise::Abandon);
    assert_eq!(m.nombre_operations().unwrap(), 0);
    let id = m.dossier_id(1, "INBOX").unwrap();
    assert_eq!(m.uids(id).unwrap(), vec![3]);
}

#[test]
fn deplacement_dans_l_index() {
    let mut m = index();
    assert!(!a_deplacer("INBOX", &[3], "INBOX"));
    assert!(!a_deplacer("INBOX", &[], "Archive"));
    let r = dans_la_boite(&mut m, 1, "INBOX", &[3], "Archive", Ok(())).unwrap();
    assert_eq!(r.deplaces, 1);
    let id = m.dossier_id(1, "INBOX").unwrap();
    assert!(m.uids(id).unwrap().is_empty());
    let e = dans_la_boite(&mut m, 1, "INBOX", &[3], "Archive", Err(Erreur::Refuse("non".into())));
    assert!(e.is_err());
    assert!(dans_la_boite(&mut m, 1, "Rien", &[3], "Archive", Ok(())).is_err());
}

#[test]
fn identifiant_de_l_index_prefere() {
    let connu = MessageLocal { uid: 3, message_id: "index".into(), ..Default::default() };
    assert_eq!(retenir_identifiant(Some(connu), "lu".into()), "index");
    assert_eq!(retenir_identifiant(Some(MessageLocal::default()), "lu".into()), "lu");
    assert_eq!(retenir_identifiant(None, "lu".into()), "lu");
}

#[test]
fn transfert_entier_compte_chaque_message() {
    let mut m = index();
    let (t, _) = demande(entre_boites(1, "INBOX", vec![3, 4, 5], 2, "Archive", "/p/operations"));
    let (t, _) = demande(t.suivre(&mut m, Evenement::Atelier(Ok(()))));
    let (t, _) = demande(t.suivre(&mut m, Evenement::Selection(Ok(ouverte(7)))));
    // The first is moved.
    let (t, _) = demande(t.suivre(&mut m, Evenement::Message(Ok(Some(lu())))));
    let (t, _) = demande(t.suivre(&mut m, Evenement::Copie(Ok("/p/a".into()))));
    let (t, _) = demande(t.suivre(&mut m, Evenement::Depot(Ok(Some(8)))));
    let (t, _) = demande(t.suivre(&mut m, Evenement::Suppression(Ok(()))));
    let (t, a) = demande(t.suivre(&mut m, Evenement::Effacement));
    assert!(matches!(a, Action::Lire(4)));
    // The second is gone.
    let (t, a) = demande(t.suivre(&mut m, Evenement::Message(Ok(None))));
    assert!(matches!(a, Action::Lire(5)));
    // The third is refused by the target.
    let (t, _) = demande(t.suivre(&mut m, Evenement::Message(Ok(Some(lu())))));
    let (t, _) = demande(t.suivre(&mut m, Evenement::Copie(Ok("/p/b".into()))));
    assert_eq!(m.nombre_operations().unwrap(), 1);
    let refus = Erreur::Refuse("quota".into());
    let (t, _) = demande(t.suivre(&mut m, Evenement::Depot(Err(refus))));
    match t.suivre(&mut m, Evenement::Effacement) {
        Suite::Fini(Ok(r)) => {
            assert_eq!((r.deplaces, r.absents, r.erreurs.len()), (1, 1, 1));
            assert_eq!(r.erreurs[0], "message 5 : refusé par le serveur : quota");
        }
        _ => panic!("fin attendue"),
    }
    assert_eq!(m.nombre_operations().unwrap(), 0);
}
