use mmail_core::annuaire::Annuaire;
use mmail_core::commande::{Cible, Commande, Identifiants};
use mmail_core::deplacement::Rapport;
use mmail_core::flux::Erreur;
use mmail_core::imap::Client;
use mmail_core::magasin::{Etape, Magasin, MessageLocal, Operation};
use mmail_core::protocole::Dossier;
use mmail_core::synchro::{Bilan, Echec};
use mmail_core::tache::{Action, Emplacement, Etabli, Evenement, Suite, Tache};
use mmail_core::travail::{
    demarrer, etablir, Avancee, Fil, Issue, Ouvrage, Reception, SuiteOuvrage, Travail, PORT_IMAPS,
    VEILLE,
};

fn coupure() -> Echec {
    Echec::Imap(Erreur::Reseau("coupure".into()))
}

fn refus() -> Echec {
    Echec::Imap(Erreur::Refuse("non".into()))
}

fn identifiants() -> Identifiants {
    Identifiants { hote: "h".into(), utilisateur: "c@d.fr".into(), mot_de_passe: "s".into() }
}

struct Poste {
    travail: Travail,
    client: Client,
    magasin: Magasin,
    etabli: Etabli,
}

fn poste() -> Poste {
    let mut magasin = Magasin::en_memoire().unwrap();
    for adresse in ["a@b.fr", "c@d.fr"] {
        let compte = magasin.compte(adresse, "h", 993, adresse).unwrap();
        let d = Dossier { chemin: "INBOX".into(), separateur: "/".into(), attributs: Vec::new() };
        magasin.poser_dossiers(compte, &[d]).unwrap();
    }
    magasin.poser_messages(1, &[MessageLocal { uid: 3, ..Default::default() }]).unwrap();
    Poste {
        travail: Travail::nouveau(1, 1, "/profil/index.sqlite"),
        client: Client::connecter(),
        magasin,
        etabli: Etabli::nouveau(),
    }
}

impl Poste {
    fn traiter(&mut self, c: Commande) -> Suite {
        self.travail.traiter(c, &self.client, &self.magasin, &mut self.etabli)
    }

    fn suivre(&mut self, t: Tache, e: Evenement) -> Suite {
        self.travail.suivre(t, &self.client, &mut self.magasin, &mut self.etabli, e)
    }
}

fn faire(s: Suite) -> (Tache, Action) {
    match s {
        Suite::Faire(t, a) => (t, a),
        Suite::Fini(_) => panic!("action attendue"),
    }
}

fn fini(s: Suite) -> Issue {
    match s {
        Suite::Fini(Some(i)) => i,
        _ => panic!("issue attendue"),
    }
}

fn echec(s: Suite) -> (String, String, bool) {
    match fini(s) {
        Issue::Echec { etape, message, session_perdue } => {
            (etape.to_string(), message, session_perdue)
        }
        _ => panic!("échec attendu"),
    }
}

fn operation(m: &mut Magasin) {
    m.inscrire_operation(&Operation {
        id: 0,
        compte_source: 1,
        chemin_source: "INBOX".into(),
        validite_source: 7,
        uid_source: 3,
        compte_cible: 2,
        chemin_cible: "INBOX".into(),
        message_id: String::new(),
        drapeaux: String::new(),
        date_interne: String::new(),
        fichier: "x".into(),
        etape: Etape::Deposer,
        erreur: String::new(),
    })
    .unwrap();
}

fn identites() -> Annuaire<Identifiants> {
    let mut a = Annuaire::nouveau();
    a.inscrire(2, identifiants());
    a
}

#[test]
fn reglages() {
    assert_eq!((VEILLE, PORT_IMAPS), (120, 993));
    assert_eq!(poste().travail.atelier, "/profil/operations");
}

#[test]
fn ouverture_pas_a_pas() {
    let p = identifiants();
    let mut o = Ouvrage::Index;
    for avancee in [
        Avancee::Index(Ok(())),
        Avancee::Connexion(Ok(())),
        Avancee::Session(Ok(())),
    ] {
        match etablir(&p, o, avancee) {
            SuiteOuvrage::Faire(suivant) => o = suivant,
            _ => panic!("étape attendue"),
        }
    }
    assert_eq!(o, Ouvrage::Arborescence);
    assert!(matches!(
        etablir(&p, o, Avancee::Arborescence(Ok(()))),
        SuiteOuvrage::Pret
    ));
}

fn rate(s: SuiteOuvrage) -> (String, String) {
    match s {
        SuiteOuvrage::Rate(Issue::Echec { etape, message, session_perdue: true }) => {
            (etape.to_string(), message)
        }
        _ => panic!("échec attendu"),
    }
}

#[test]
fn ouvertures_ratees() {
    let p = identifiants();
    let index = Avancee::Index(Err(mmail_core::magasin::Erreur("plein".into())));
    assert_eq!(
        rate(etablir(&p, Ouvrage::Index, index)),
        ("connexion".into(), "index local : plein".into())
    );
    let connexion = Avancee::Connexion(Err(Erreur::Reseau("muet".into())));
    assert_eq!(
        rate(etablir(&p, Ouvrage::Connexion, connexion)),
        ("connexion".into(), "connexion à h : réseau : muet".into())
    );
    let session = Avancee::Session(Err(Erreur::Refuse("faux".into())));
    assert_eq!(
        rate(etablir(&p, Ouvrage::Session, session)),
        (
            "identifiants".into(),
            "c@d.fr : identifiants refusés (refusé par le serveur : faux)".into()
        )
    );
    let session = Avancee::Session(Err(Erreur::Reseau("muet".into())));
    assert_eq!(rate(etablir(&p, Ouvrage::Session, session)).0, "connexion");
    assert_eq!(
        rate(etablir(&p, Ouvrage::Arborescence, Avancee::Arborescence(Err(refus())))),
        ("connexion".into(), "lecture des dossiers : refusé par le serveur : non".into())
    );
    assert_eq!(rate(etablir(&p, Ouvrage::Index, Avancee::Session(Ok(())))).0, "connexion");
}

#[test]
fn file_du_fil_et_compte_des_requetes() {
    let mut fil = Fil::nouveau();
    assert!(fil.oisif());
    assert!(fil.prochaine().1.is_none());
    assert!(fil.recevoir(Reception::Delai));
    assert!(fil.recevoir(Reception::Commande(Commande::OuvrirDossier("A".into()))));
    fil.ajouter(Commande::OuvrirDossier("B".into()));
    fil.ajouter(Commande::Arborescence);
    assert!(!fil.recevoir(Reception::Fermee));
    let (abandonnees, c) = fil.prochaine();
    assert_eq!(abandonnees, 1);
    assert!(matches!(c, Some(Commande::OuvrirDossier(d)) if d == "B"));
    assert_eq!(fil.conclure(true, &None, &[]), (1, false));
    let perdue =
        Some(Issue::Echec { etape: "reseau", message: String::new(), session_perdue: true });
    // The session is lost: so are the requests left, and those that came meanwhile.
    let recues = [Commande::Arborescence, Commande::Veille];
    assert_eq!(fil.conclure(false, &perdue, &recues), (2, true));
    assert!(fil.oisif());
}

#[test]
fn demarrage_du_fil() {
    let (n, i) = demarrer(Ok(()), &[]);
    assert_eq!(n, 1);
    assert!(matches!(i, Issue::Connecte));
    let raison = Issue::Echec { etape: "connexion", message: String::new(), session_perdue: true };
    let (n, _) = demarrer(Err(raison), &[Commande::Arborescence, Commande::Veille]);
    assert_eq!(n, 2);
}

#[test]
fn arborescence_et_dossiers() {
    let mut p = poste();
    let (t, a) = faire(p.traiter(Commande::Arborescence));
    assert!(matches!(a, Action::Arborescence));
    assert!(matches!(fini(p.suivre(t, Evenement::Fait(Ok(())))), Issue::Arborescence));
    let (t, a) = faire(p.traiter(Commande::OuvrirDossier("INBOX".into())));
    assert!(matches!(&a, Action::Synchroniser(c) if c == "INBOX"));
    assert_eq!(
        echec(p.suivre(t, Evenement::Synchro(Err(refus())))),
        ("dossier".into(), "ouverture de INBOX : refusé par le serveur : non".into(), false)
    );
    let (t, _) = faire(p.traiter(Commande::OuvrirDossier("INBOX".into())));
    assert_eq!(
        echec(p.suivre(t, Evenement::Synchro(Err(coupure())))),
        ("reseau".into(), "ouverture de INBOX : réseau : coupure".into(), true)
    );
}

#[test]
fn message_affiche_marque_lu() {
    let brut = b"From: a@b.fr\r\nContent-Type: text/plain\r\n\r\nBonjour".to_vec();
    let mut p = poste();
    let c = || Commande::Corps { chemin: "INBOX".into(), uid: 3, brut: false };
    let (t, a) = faire(p.traiter(c()));
    assert!(matches!(a, Action::Corps { uid: 3, .. }));
    let (t, a) = faire(p.suivre(t, Evenement::Corps(Ok(brut.clone()))));
    assert!(matches!(&a, Action::Marquer { uids, lu: true, .. } if *uids == vec![3]));
    match fini(p.suivre(t, Evenement::Fait(Ok(())))) {
        Issue::Corps { texte, marque, pieces, .. } => {
            assert_eq!(texte, "Bonjour");
            assert!(marque);
            assert_eq!(pieces, "[]");
        }
        _ => panic!("corps attendu"),
    }
    // Known as read: nothing to mark.
    p.magasin.marquer_lu(1, &[3], true).unwrap();
    let (t, _) = faire(p.traiter(c()));
    assert!(matches!(
        fini(p.suivre(t, Evenement::Corps(Ok(brut.clone())))),
        Issue::Corps { marque: false, .. }
    ));
    // The source: never marked.
    p.magasin.marquer_lu(1, &[3], false).unwrap();
    let (t, _) =
        faire(p.traiter(Commande::Corps { chemin: "INBOX".into(), uid: 3, brut: true }));
    match fini(p.suivre(t, Evenement::Corps(Ok(brut.clone())))) {
        Issue::Corps { texte, brut: true, marque: false, .. } => {
            assert_eq!(texte.as_bytes(), &brut[..])
        }
        _ => panic!("source attendue"),
    }
    let (t, _) = faire(p.traiter(c()));
    assert_eq!(
        echec(p.suivre(t, Evenement::Corps(Err(refus())))),
        ("message".into(), "lecture du message 3 : refusé par le serveur : non".into(), false)
    );
}

const AVEC_PIECES: &[u8] = b"From: a@b.fr\r\n\
MIME-Version: 1.0\r\n\
Content-Type: multipart/mixed; boundary=\"XX\"\r\n\
\r\n\
--XX\r\n\
Content-Type: text/plain\r\n\
\r\n\
Voir.\r\n\
--XX\r\n\
Content-Type: application/pdf\r\n\
Content-Disposition: attachment; filename=\"facture.pdf\"\r\n\
\r\n\
contenu\r\n\
--XX\r\n\
Content-Type: application/octet-stream\r\n\
Content-Disposition: attachment; filename=\"outil.exe\"\r\n\
\r\n\
MZ\r\n\
--XX--\r\n";

fn piece(indice: usize, destination: Option<&str>) -> Commande {
    Commande::Piece {
        chemin: "INBOX".into(),
        uid: 3,
        indice,
        destination: destination.map(|d| d.to_string()),
    }
}

#[test]
fn pieces_ecrites_ou_refusees() {
    let mut p = poste();
    let (t, _) = faire(p.traiter(piece(0, None)));
    let (t, a) = faire(p.suivre(t, Evenement::Corps(Ok(AVEC_PIECES.to_vec()))));
    assert!(matches!(a, Action::CreerDossier { uid: 3, indice: 0 }));
    assert_eq!(p.travail.dossier_de_travail(3, 0), "/profil/pieces-jointes/1-3-0");
    let (t, a) = faire(p.suivre(t, Evenement::DossierCree(Ok(()))));
    match &a {
        Action::Ecrire { ou, contenu } => {
            assert_eq!(contenu, b"contenu");
            assert_eq!(p.travail.fichier(ou), "/profil/pieces-jointes/1-3-0/facture.pdf");
        }
        _ => panic!("écriture attendue"),
    }
    assert!(matches!(
        fini(p.suivre(t, Evenement::Ecrit(Ok("f".into())))),
        Issue::Piece { ouvrir: true, .. }
    ));
    // A program is not opened, but it can be saved.
    let (t, _) = faire(p.traiter(piece(1, None)));
    let (etape, message, perdue) = echec(p.suivre(t, Evenement::Corps(Ok(AVEC_PIECES.to_vec()))));
    assert_eq!((etape.as_str(), perdue), ("message", false));
    assert!(message.contains("outil.exe est un programme ou un script"));
    let (t, _) = faire(p.traiter(piece(1, Some("/tmp/o"))));
    let (t, a) = faire(p.suivre(t, Evenement::Corps(Ok(AVEC_PIECES.to_vec()))));
    assert!(matches!(&a, Action::Ecrire { ou: Emplacement::Choisi(f), .. } if f == "/tmp/o"));
    assert_eq!(
        echec(p.suivre(t, Evenement::Ecrit(Err(("/tmp/o".into(), "plein".into()))))).1,
        "pièce jointe : index local : /tmp/o : plein"
    );
    let (t, _) = faire(p.traiter(piece(9, None)));
    assert_eq!(
        echec(p.suivre(t, Evenement::Corps(Ok(AVEC_PIECES.to_vec())))).1,
        "pièce jointe : index local : pièce jointe 9 introuvable"
    );
    assert_eq!(p.travail.fichier(&Emplacement::Choisi("/x/y".into())), "/x/y");
}

fn deplacer(compte: i64, identifiants: Option<Identifiants>) -> Commande {
    Commande::Deplacer {
        source: "INBOX".into(),
        uids: vec![3],
        cible: Cible { compte, chemin: "INBOX".into(), identifiants },
    }
}

#[test]
fn deplacement_entre_deux_comptes() {
    let mut p = poste();
    let (t, a) = faire(p.traiter(deplacer(2, Some(identifiants()))));
    assert!(matches!(&a, Action::OuvrirAnnexe { compte: 2, .. }));
    let (t, a) = faire(p.suivre(t, Evenement::Fait(Ok(()))));
    assert!(matches!(&a, Action::EntreBoites { compte: 2, .. }));
    assert!(p.etabli.annexes.connu(2));
    let (t, a) = faire(p.suivre(t, Evenement::Deplace(Ok(Rapport::default()))));
    assert!(matches!(a, Action::Arborescence));
    assert!(matches!(
        fini(p.suivre(t, Evenement::Fait(Err(refus())))),
        Issue::Deplace { cible: 2, .. }
    ));
    // The session on the target serves again; if it fails, the source stays open.
    let (t, a) = faire(p.traiter(deplacer(2, None)));
    assert!(matches!(&a, Action::EntreBoites { .. }));
    let (t, _) = faire(p.suivre(t, Evenement::Deplace(Err(coupure()))));
    let (t, a) = faire(p.suivre(t, Evenement::Fait(Ok(()))));
    assert!(matches!(a, Action::Noop));
    assert!(!p.etabli.annexes.connu(2));
    assert_eq!(
        echec(p.suivre(t, Evenement::Noop(true))),
        ("tri".into(), "déplacement interrompu, il reprendra : réseau : coupure".into(), false)
    );
    let (t, _) = faire(p.traiter(deplacer(1, None)));
    let (t, _) = faire(p.suivre(t, Evenement::Deplace(Err(coupure()))));
    let (t, _) = faire(p.suivre(t, Evenement::Fait(Ok(()))));
    assert!(echec(p.suivre(t, Evenement::Noop(false))).2);
}

#[test]
fn deplacement_vers_un_compte_inconnu() {
    let mut p = poste();
    let (t, a) = faire(p.traiter(deplacer(2, None)));
    assert!(matches!(a, Action::Arborescence));
    assert_eq!(
        echec(p.suivre(t, Evenement::Fait(Ok(())))),
        (
            "tri".into(),
            "déplacement : refusé par le serveur : boîte cible non connectée".into(),
            false
        )
    );
}

#[test]
fn reprise_des_deplacements() {
    let mut p = poste();
    assert!(matches!(p.traiter(Commande::Reprendre(identites())), Suite::Fini(None)));
    operation(&mut p.magasin);
    let (t, a) = faire(p.traiter(Commande::Reprendre(identites())));
    assert!(matches!(&a, Action::OuvrirAnnexe { compte: 2, .. }));
    let (t, a) = faire(p.suivre(t, Evenement::Fait(Ok(()))));
    assert!(matches!(&a, Action::Reprendre(o) if o.uid_source == 3));
    let (t, a) = faire(p.suivre(t, Evenement::Fait(Err(coupure()))));
    assert!(matches!(a, Action::Noop));
    assert_eq!(p.magasin.operations(1).unwrap()[0].erreur, "réseau : coupure");
    let (t, a) = faire(p.suivre(t, Evenement::Noop(true)));
    assert!(matches!(a, Action::Arborescence));
    match fini(p.suivre(t, Evenement::Fait(Ok(())))) {
        Issue::Repris { rapport } => {
            assert_eq!(rapport.deplaces, 0);
            assert_eq!(rapport.erreurs, vec!["réseau : coupure"]);
        }
        _ => panic!("reprise attendue"),
    }
}

#[test]
fn reprise_qui_attend_la_cible() {
    let mut p = poste();
    operation(&mut p.magasin);
    // The target account is not connected yet: the move waits.
    assert!(matches!(p.traiter(Commande::Reprendre(Annuaire::nouveau())), Suite::Fini(None)));
}

#[test]
fn veille_periodique() {
    let mut p = poste();
    let (t, a) = faire(p.traiter(Commande::Veille));
    assert!(matches!(a, Action::Arborescence));
    // No folder is open: there is nothing to synchronise.
    assert!(matches!(fini(p.suivre(t, Evenement::Fait(Ok(())))), Issue::Arborescence));
    let (t, _) = faire(p.traiter(Commande::Veille));
    assert!(echec(p.suivre(t, Evenement::Fait(Err(coupure())))).2);
    // A refusal keeps the session, and is not told as a lost connection.
    let (t, _) = faire(p.traiter(Commande::Veille));
    assert_eq!(
        echec(p.suivre(t, Evenement::Fait(Err(refus())))),
        ("dossier".into(), "veille : refusé par le serveur : non".into(), false)
    );
    let t = Tache::VeilleSynchro("INBOX".into());
    assert_eq!(
        echec(p.suivre(t, Evenement::Synchro(Err(refus())))),
        ("dossier".into(), "veille : refusé par le serveur : non".into(), false)
    );
    let bilan = |nouveaux: usize| Bilan { dossier_id: 1, nouveaux, retires: 0, complet: false };
    let t = || Tache::VeilleSynchro("INBOX".into());
    assert!(matches!(
        fini(p.suivre(t(), Evenement::Synchro(Ok(bilan(1))))),
        Issue::Dossier { veille: true, .. }
    ));
    assert!(matches!(
        fini(p.suivre(t(), Evenement::Synchro(Ok(bilan(0))))),
        Issue::Arborescence
    ));
    // A resumption of the check is handed out on its own, and the check goes on.
    operation(&mut p.magasin);
    p.etabli.identites.inscrire(2, identifiants());
    p.etabli.annexes.inscrire(2, ());
    let (t, _) = faire(p.traiter(Commande::Veille));
    let (t, a) = faire(p.suivre(t, Evenement::Fait(Ok(()))));
    assert!(matches!(a, Action::Reprendre(_)));
    let (t, _) = faire(p.suivre(t, Evenement::Fait(Ok(()))));
    let (t, a) = faire(p.suivre(t, Evenement::Fait(Ok(()))));
    assert!(matches!(&a, Action::Remettre(Issue::Repris { .. })));
    assert!(matches!(fini(p.suivre(t, Evenement::Remis)), Issue::Arborescence));
}

#[test]
fn marquage_et_surprise() {
    let mut p = poste();
    let c = Commande::MarquerLu { chemin: "INBOX".into(), uids: vec![3], lu: false };
    let (t, a) = faire(p.traiter(c));
    assert!(matches!(&a, Action::Marquer { lu: false, .. }));
    assert!(matches!(fini(p.suivre(t, Evenement::Fait(Ok(())))), Issue::Marque));
    assert_eq!(
        echec(p.suivre(Tache::MarquerLu, Evenement::Fait(Err(refus())))).1,
        "marquage : refusé par le serveur : non"
    );
    assert!(echec(p.suivre(Tache::MarquerLu, Evenement::Remis)).2);
}

#[test]
fn annuaire_par_compte() {
    let mut a: Annuaire<Identifiants> = Annuaire::nouveau();
    assert_eq!(a.taille(), 0);
    a.inscrire(2, identifiants());
    a.inscrire(1, identifiants());
    a.inscrire(2, Identifiants { hote: "autre".into(), ..identifiants() });
    assert_eq!(a.taille(), 2);
    assert_eq!(a.entree(0).0, 2);
    assert_eq!(a.valeur(2).unwrap().hote, "autre");
    assert!(a.rayer(2).is_some());
    assert!(a.rayer(2).is_none());
    assert!(!a.connu(2));
    assert_eq!(a.valeur(1).unwrap().hote, "h");
}
