use mmail_core::flux::{taille_litteral, trouver, Erreur, Lecture, Reponse};
use mmail_core::imap::{
    citer, demande_corps, demande_depot, demande_entetes, demande_examen, demande_message,
    demande_recherche, demande_session, Client, Depot, Ouverture, SuiteDepot, SuiteOuverture,
    SuiteReleve, SuiteRetrait,
};

#[test]
fn litteraux_reconnus() {
    assert_eq!(taille_litteral("* 1 FETCH (BODY[] {412}"), Some(412));
    assert_eq!(taille_litteral("* 1 FETCH (BODY[] {412+}"), Some(412));
    assert_eq!(taille_litteral("m0001 OK done"), None);
    // A brace at the end of a subject is no literal.
    assert_eq!(taille_litteral("* 1 FETCH (SUBJECT \"a}\""), None);
}

#[test]
fn citation_des_identifiants() {
    assert_eq!(citer("simple"), "\"simple\"");
    // A password may hold reserved characters of the protocol.
    assert_eq!(citer(r#"a"b\c"#), r#""a\"b\\c""#);
}

#[test]
fn recherche_dans_le_tampon() {
    assert_eq!(trouver(b"abc\r\ndef", b"\r\n"), Some(3));
    assert_eq!(trouver(b"abc", b"\r\n"), None);
}

fn reponse(texte: &str) -> Reponse {
    Reponse { texte: texte.to_string(), litteraux: Vec::new() }
}

fn refus(e: &Erreur) -> String {
    e.texte()
}

/// A client that was greeted.
fn accueilli() -> Client {
    let mut c = Client::connecter();
    c.recevoir(b"* OK bienvenue\r\n");
    assert!(c.salutation().unwrap().is_ok());
    c
}

#[test]
fn salutation_par_morceaux() {
    let mut c = Client::connecter();
    c.recevoir(b"* OK bien");
    assert!(c.salutation().is_none());
    c.recevoir(b"venue\r\n");
    assert!(c.salutation().unwrap().is_ok());
    let mut c = Client::connecter();
    c.recevoir(b"* BYE plus tard\r\n");
    assert!(c.salutation().unwrap().is_err());
}

#[test]
fn reponse_avec_litteral_par_morceaux() {
    let mut c = accueilli();
    let ligne = c.commande("NOOP");
    assert_eq!(ligne, b"m0001 NOOP\r\n".to_vec());
    let flux = b"* 1 FETCH (UID 3 BODY[] {5}\r\nab\r\nc)\r\nm0001 OK fini\r\n";
    for i in 0..flux.len() - 1 {
        c.recevoir(&flux[i..i + 1]);
        assert!(c.reponse().is_none(), "{i}");
    }
    c.recevoir(&flux[flux.len() - 1..]);
    let r = c.reponse().unwrap().unwrap();
    assert_eq!(r.litteraux, vec![b"ab\r\nc".to_vec()]);
    assert!(r.texte.contains("UID 3"));
    assert_eq!(Client::corps(3, Ok(r)).unwrap(), b"ab\r\nc".to_vec());
}

#[test]
fn refus_et_rupture_de_protocole() {
    let mut c = accueilli();
    c.commande("NOOP");
    c.recevoir(b"m0001 NO pas maintenant\r\n");
    let e = c.reponse().unwrap().unwrap_err();
    assert!(refus(&e).contains("pas maintenant"));
    assert!(!e.reseau());
    assert!(Erreur::Reseau("coupure".into()).reseau());
    c.commande("NOOP");
    c.recevoir(b"m0002 BAD syntaxe\r\n");
    assert!(c.reponse().unwrap().is_err());
}

#[test]
fn lecture_octet_par_octet_ou_d_un_bloc() {
    let flux: &[u8] = b"* 2 EXISTS\r\n* 1 FETCH (BODY[] {3}\r\na\r\n)\r\nm0007 OK \xff ok\r\nreste";
    let mut bloc = Lecture::nouvelle(flux.to_vec());
    let attendu = bloc.avancer("m0007").unwrap().unwrap();
    let mut pas = Lecture::nouvelle(Vec::new());
    let mut obtenu = None;
    for o in flux {
        pas.recevoir(&[*o]);
        if obtenu.is_none() {
            if let Some(r) = pas.avancer("m0007") {
                obtenu = Some(r.unwrap());
            }
        }
    }
    let obtenu = obtenu.unwrap();
    assert_eq!(attendu.texte, obtenu.texte);
    assert_eq!(attendu.litteraux, obtenu.litteraux);
    // Bytes that are no text are replaced.
    assert!(attendu.texte.contains('\u{fffd}'));
}

/// A client whose session is open, with capabilities.
fn ouvert(capacites: &str) -> Client {
    let mut c = accueilli();
    let mut etape = Ouverture::Identification;
    let mut r = reponse(&format!("m0001 OK [CAPABILITY {capacites}] connecte\n"));
    loop {
        match c.ouvrir_session(etape, Ok(r)) {
            SuiteOuverture::Demander(suivante, commande) => {
                r = if commande.starts_with("CAPABILITY") {
                    reponse(&format!("* CAPABILITY {capacites}\nm0002 OK\n"))
                } else {
                    reponse("m0003 OK\n")
                };
                etape = suivante;
            }
            SuiteOuverture::Fini(r) => {
                assert!(r.is_ok());
                return c;
            }
        }
    }
}

#[test]
fn session_ouverte_et_capacites() {
    assert_eq!(demande_session("a@b.fr", "m\"p"), "LOGIN \"a@b.fr\" \"m\\\"p\"");
    let c = ouvert("IMAP4rev1 MOVE UIDPLUS QRESYNC CONDSTORE ENABLE");
    assert!(c.sait("MOVE"));
    assert!(!c.sait("IDLE"));
    assert!(c.qresync());
    assert!(!ouvert("IMAP4rev1").qresync());
}

#[test]
fn session_refusee() {
    let mut c = accueilli();
    match c.ouvrir_session(Ouverture::Identification, Err(Erreur::Refuse("non".into()))) {
        SuiteOuverture::Fini(Err(e)) => assert!(!e.reseau()),
        _ => panic!("refus attendu"),
    }
}

#[test]
fn commandes_ecrites() {
    assert_eq!(demande_examen("INBOX"), "EXAMINE \"INBOX\"");
    assert!(demande_entetes("1:*").starts_with("UID FETCH 1:* ("));
    assert!(demande_corps(7).contains("UID FETCH 7 "));
    assert!(demande_message(7).contains("INTERNALDATE"));
    assert!(demande_recherche("<x@y>").contains("\"<x@y>\""));
    let depot = demande_depot("INBOX", &["\\Seen".to_string(), "\\Recent".to_string()], "", 12);
    assert!(depot.contains("\\Seen"));
    assert!(!depot.contains("\\Recent"));
    assert!(depot.ends_with("{12}"));
    assert_eq!(Client::marquer(&[], "\\Seen", true), None);
    let marque = Client::marquer(&[3, 1, 2], "\\Seen", false).unwrap();
    assert!(marque.contains("1:3"));
    assert!(marque.contains("-FLAGS"));
}

#[test]
fn selection_avec_reprise() {
    let c = ouvert("QRESYNC ENABLE");
    assert_eq!(
        c.demande_selection("INBOX", Some((7, 9))),
        "SELECT \"INBOX\" (QRESYNC (7 9))"
    );
    let mut c = ouvert("IMAP4rev1");
    assert!(!c.demande_selection("INBOX", Some((7, 9))).contains("QRESYNC"));
    let r = reponse("* 3 EXISTS\n* OK [UIDVALIDITY 7] ok\nm0004 OK\n");
    let s = c.selectionner("INBOX", Some((7, 9)), Ok(r)).unwrap();
    assert_eq!(s.etat.messages, 3);
    assert!(!s.reprise);
    assert_eq!(c.selection(), Some("INBOX"));
}

#[test]
fn retrait_selon_les_capacites() {
    match ouvert("MOVE").deplacer(&[1, 2], "Archive") {
        SuiteRetrait::Demander(_, t) => assert_eq!(t, "UID MOVE 1:2 \"Archive\""),
        _ => panic!("demande attendue"),
    }
    let sans = ouvert("UIDPLUS");
    let (etape, t) = match sans.deplacer(&[1], "Archive") {
        SuiteRetrait::Demander(e, t) => (e, t),
        _ => panic!("demande attendue"),
    };
    assert_eq!(t, "UID COPY 1 \"Archive\"");
    match sans.retirer(etape, &[1], Ok(reponse("m0005 OK\n"))) {
        SuiteRetrait::Demander(_, t) => assert!(t.contains("\\Deleted")),
        _ => panic!("marquage attendu"),
    }
    // Without UIDPLUS a purge could take other messages along: it is refused.
    match ouvert("IMAP4rev1").supprimer(&[1]) {
        SuiteRetrait::Fini(Err(e)) => assert!(!e.reseau()),
        _ => panic!("refus attendu"),
    }
}

#[test]
fn releve_des_dossiers() {
    let c = ouvert("IMAP4rev1 LIST-STATUS");
    let (releve, _) = c.demande_releve();
    let r = reponse("* LIST () \"/\" INBOX\n* STATUS INBOX (MESSAGES 2 UNSEEN 1)\nm0006 OK\n");
    match Client::dossiers_et_compteurs(releve, Ok(r)) {
        SuiteReleve::Fini(Ok((d, s))) => {
            assert_eq!(d.len(), 1);
            assert_eq!(s[0].non_lus, 1);
        }
        _ => panic!("fin attendue"),
    }
    let c = ouvert("IMAP4rev1");
    let (releve, _) = c.demande_releve();
    let r = reponse("* LIST () \"/\" INBOX\nm0006 OK\n");
    let (releve, texte) = match Client::dossiers_et_compteurs(releve, Ok(r)) {
        SuiteReleve::Demander(s, t) => (s, t),
        _ => panic!("demande attendue"),
    };
    assert!(texte.contains("STATUS \"INBOX\""));
    let fin = reponse("* STATUS INBOX (MESSAGES 2 UNSEEN 1)\nm0007 OK\n");
    match Client::dossiers_et_compteurs(releve, Ok(fin)) {
        SuiteReleve::Fini(Ok((d, s))) => assert_eq!((d.len(), s.len()), (1, 1)),
        _ => panic!("fin attendue"),
    }
    // A refusal ends the reading.
    let (releve, _) = c.demande_releve();
    match Client::dossiers_et_compteurs(releve, Err(Erreur::Refuse("non".into()))) {
        SuiteReleve::Fini(Err(e)) => assert!(!e.reseau()),
        _ => panic!("refus attendu"),
    }
}

#[test]
fn messages_recherches_et_deposes() {
    let r = reponse("* SEARCH 3 9\nm0008 OK\n");
    assert_eq!(Client::chercher_message_id(Ok(r)).unwrap(), vec![3, 9]);
    assert!(Client::accuser(Err(Erreur::Reseau("x".into()))).is_err());
    assert!(Client::accuser(Ok(reponse("m0010 OK\n"))).is_ok());
    assert!(Client::corps(3, Ok(reponse("m0011 OK\n"))).is_err());
    assert!(Client::message_complet(3, Ok(reponse("m0012 OK\n"))).unwrap().is_none());
}

fn annonce(c: &mut Client) -> Depot {
    let drapeaux = ["\\Seen".to_string(), "\\Recent".to_string()];
    match c.deposer("INBOX", &drapeaux, "", b"corps".to_vec()) {
        SuiteDepot::Envoyer(d, o) => {
            assert_eq!(o, b"m0001 APPEND \"INBOX\" (\\Seen) {5}\r\n".to_vec());
            d
        }
        _ => panic!("annonce attendue"),
    }
}

#[test]
fn depot_sur_invitation() {
    let mut c = Client::connecter();
    let d = annonce(&mut c);
    let d = match c.suivre_depot(d) {
        SuiteDepot::Attendre(d) => d,
        _ => panic!("attente attendue"),
    };
    // What is not the invitation lets the bytes wait.
    c.recevoir(b"* 3 EXISTS\r\n");
    let d = match c.suivre_depot(d) {
        SuiteDepot::Attendre(d) => d,
        _ => panic!("attente attendue"),
    };
    c.recevoir(b"+ OK\r\n");
    let d = match c.suivre_depot(d) {
        SuiteDepot::Envoyer(d, o) => {
            assert_eq!(o, b"corps\r\n".to_vec());
            d
        }
        _ => panic!("envoi attendu"),
    };
    assert!(matches!(d, Depot::Reponse));
    c.recevoir(b"m0001 OK [APPENDUID 7 12] fait\r\n");
    assert!(matches!(c.suivre_depot(d), SuiteDepot::Fini(Ok(Some(12)))));
}

#[test]
fn depot_refuse_sans_envoi() {
    let mut c = Client::connecter();
    let d = annonce(&mut c);
    c.recevoir(b"m0001 NO quota\r\n");
    match c.suivre_depot(d) {
        SuiteDepot::Fini(Err(Erreur::Refuse(t))) => assert_eq!(t, "NO quota"),
        _ => panic!("refus attendu"),
    }
}

#[test]
fn invitation_en_morceaux() {
    let flux = b"* 3 EXISTS\r\n+ OK\r\n";
    for coupe in 0..=flux.len() {
        let mut c = Client::connecter();
        let mut d = annonce(&mut c);
        c.recevoir(&flux[..coupe]);
        if coupe < flux.len() {
            d = match c.suivre_depot(d) {
                SuiteDepot::Attendre(d) => d,
                _ => panic!("attente attendue"),
            };
            c.recevoir(&flux[coupe..]);
        }
        assert!(matches!(c.suivre_depot(d), SuiteDepot::Envoyer(Depot::Reponse, _)));
    }
}

#[test]
fn etiquettes_toutes_distinctes() {
    let mut c = Client::connecter();
    let mut vues: Vec<Vec<u8>> = Vec::new();
    for n in 1..=12u32 {
        let ligne = c.commande("NOOP");
        assert_eq!(ligne, format!("m{n:04} NOOP\r\n").into_bytes());
        assert!(!vues.contains(&ligne));
        vues.push(ligne);
    }
}
