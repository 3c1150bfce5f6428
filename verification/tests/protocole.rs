use mmail_core::dates::secondes_date_interne;
use mmail_core::ensembles::{analyser_vanished, ensemble_uid, lire_ensemble};
use mmail_core::imap::citer;
use mmail_core::protocole::{
    analyser_appenduid, analyser_fetch, analyser_list, analyser_search, analyser_select,
    analyser_status, entre_parentheses, indice_litteral, Statut, MARQUEUR,
};
use mmail_core::utf7::decoder_utf7;

#[test]
fn dossiers_et_roles() {
    let d = analyser_list(r#"* LIST (\HasNoChildren \Sent) "/" "Sent""#).unwrap();
    assert_eq!(d.chemin, "Sent");
    assert_eq!(d.role(), Some("Sent"));
    assert_eq!(d.profondeur(), 0);

    let d = analyser_list(r#"* LIST (\HasNoChildren) "/" "Essais/Factures""#).unwrap();
    assert_eq!(d.nom(), "Factures");
    assert_eq!(d.profondeur(), 1);
    assert_eq!(d.role(), None);

    // A path that needs no quotes may come without them.
    let d = analyser_list(r#"* LIST (\HasChildren \Marked) "/" Essais"#).unwrap();
    assert_eq!(d.chemin, "Essais");
    assert!(d.attributs.contains(&"\\HasChildren".to_string()));
}

#[test]
fn etat_apres_select() {
    let reponse = [
        "* FLAGS (\\Answered \\Flagged \\Deleted \\Seen \\Draft)\r\n",
        "* 10 EXISTS\r\n",
        "* 0 RECENT\r\n",
        "* OK [UIDVALIDITY 1789577698] UIDs valid\r\n",
        "* OK [UIDNEXT 11] Predicted next UID\r\n",
        "* OK [HIGHESTMODSEQ 11] Highest\r\n",
    ]
    .concat();
    let etat = analyser_select(&reponse);
    assert_eq!(etat.messages, 10);
    assert_eq!(etat.uid_validity, 1789577698);
    assert_eq!(etat.uid_next, 11);
    assert_eq!(etat.highest_mod_seq, 11);
}

#[test]
fn entetes_de_fetch() {
    let reponse = format!(
        "* 1 FETCH (UID 3 RFC822.SIZE 412 FLAGS (\\Seen) \
         INTERNALDATE \"16-Sep-2026 18:00:00 +0200\" \
         BODY[HEADER.FIELDS (FROM SUBJECT)] {m}0{m})\r\n",
        m = MARQUEUR
    );
    let litteraux = vec![b"From: a@b.fr\r\nSubject: Objet\r\n\r\n".to_vec()];
    let entetes = analyser_fetch(&reponse, &litteraux);
    assert_eq!(entetes.len(), 1);
    let e = &entetes[0];
    assert_eq!(e.uid, 3);
    assert_eq!(e.taille, 412);
    assert!(e.lu());
    assert!(!e.repondu());
    assert_eq!(e.date_interne, "16-Sep-2026 18:00:00 +0200");
    assert!(String::from_utf8_lossy(&e.brut).contains("Objet"));
}

#[test]
fn fetch_sans_uid_est_ignore() {
    // A FETCH may only tell of a change of flags.
    let reponse = "* 2 FETCH (FLAGS (\\Seen))\r\n";
    assert!(analyser_fetch(reponse, &[]).is_empty());
}

#[test]
fn parentheses_imbriquees() {
    let (contenu, reste) = entre_parentheses("(a (b c) d) suite").unwrap();
    assert_eq!(contenu, "a (b c) d");
    assert_eq!(reste.trim(), "suite");
}

#[test]
fn noms_accentues_en_utf7() {
    assert_eq!(decoder_utf7("&AMk-l&AOk-ments supprim&AOk-s"), "Éléments supprimés");
    assert_eq!(decoder_utf7("Factures"), "Factures");
    assert_eq!(decoder_utf7("R&AOk-sum&AOk- &- notes"), "Résumé & notes");
    // Badly formed: left as it is.
    assert_eq!(decoder_utf7("&AMk"), "&AMk");
    let d =
        analyser_list(r#"* LIST (\HasNoChildren) "." "INBOX.&AMk-l&AOk-ments envoy&AOk-s""#).unwrap();
    assert_eq!(d.nom(), "Éléments envoyés");
    assert_eq!(d.profondeur(), 1);
}

#[test]
fn dossier_non_selectionnable() {
    let d = analyser_list(r#"* LIST (\Noselect \HasChildren) "." "INBOX""#).unwrap();
    assert!(!d.selectionnable());
    let d = analyser_list(r#"* LIST (\HasNoChildren) "/" "Sent""#).unwrap();
    assert!(d.selectionnable());
}

#[test]
fn chemin_cite_avec_echappements() {
    let d = analyser_list(r#"* LIST () "/" "Dossier \"cité\"""#).unwrap();
    assert_eq!(d.chemin, "Dossier \"cité\"");
}

#[test]
fn ensembles_d_uid() {
    assert_eq!(ensemble_uid(&[7, 1, 2, 3, 9, 10]), "1:3,7,9:10");
    assert_eq!(ensemble_uid(&[5]), "5");
    assert_eq!(ensemble_uid(&[4, 4]), "4");
    assert_eq!(lire_ensemble("1:3,7,12:10"), vec![(1, 3), (7, 7), (10, 12)]);
}

#[test]
fn vanished_en_intervalles() {
    let reponse =
        "* VANISHED (EARLIER) 1:3,7\r\n* 2 FETCH (UID 9 FLAGS (\\Seen))\r\n* VANISHED 12\r\n";
    assert_eq!(analyser_vanished(reponse), vec![(1, 3), (7, 7), (12, 12)]);
}

#[test]
fn statuts_de_list_status() {
    let reponse = [
        "* LIST (\\HasNoChildren) \"/\" INBOX\r\n",
        "* STATUS INBOX (MESSAGES 10 UNSEEN 4)\r\n",
        "* STATUS \"Archives 2026\" (MESSAGES 0 UNSEEN 0)\r\n",
    ]
    .concat();
    let statuts = analyser_status(&reponse);
    assert_eq!(statuts.len(), 2);
    assert_eq!(statuts[0], Statut { chemin: "INBOX".into(), messages: 10, non_lus: 4 });
    assert_eq!(statuts[1].chemin, "Archives 2026");
}

#[test]
fn appenduid_et_search() {
    assert_eq!(
        analyser_appenduid("m0007 OK [APPENDUID 1789577698 12] Append completed.\n"),
        Some((1789577698, 12))
    );
    assert_eq!(analyser_appenduid("m0007 OK Append completed.\n"), None);
    assert_eq!(analyser_search("* SEARCH 3 5 7\r\nm0008 OK\r\n"), vec![3, 5, 7]);
    assert!(analyser_search("* SEARCH\r\nm0008 OK\r\n").is_empty());
}

#[test]
fn dates_internes() {
    // 2026-09-16 16:00:00 UTC = 1789574400.
    assert_eq!(secondes_date_interne("16-Sep-2026 18:00:00 +0200"), Some(1789574400));
    assert_eq!(
        secondes_date_interne(" 6-Sep-2026 18:00:00 +0200"),
        Some(1789574400 - 10 * 86400)
    );
    assert_eq!(secondes_date_interne("01-Jan-1970 00:00:00 +0000"), Some(0));
    assert_eq!(secondes_date_interne("n'importe quoi"), None);
}

#[test]
fn lendemains() {
    assert_eq!(
        secondes_date_interne("29-Feb-2024 00:00:00 +0000"),
        Some(secondes_date_interne("28-Feb-2024 00:00:00 +0000").unwrap() + 86400)
    );
    assert_eq!(
        secondes_date_interne("01-Mar-2100 00:00:00 +0000"),
        Some(secondes_date_interne("28-Feb-2100 00:00:00 +0000").unwrap() + 86400)
    );
    assert_eq!(secondes_date_interne("31-Dec-1969 23:59:59 +0000"), Some(-1));
}

#[test]
fn ensembles_relus() {
    let uids = vec![9, 3, 4294967295, 4, 3, 1];
    let texte = ensemble_uid(&uids);
    assert_eq!(texte, "1,3:4,9,4294967295");
    let intervalles = lire_ensemble(&texte);
    for n in [1u32, 2, 3, 4, 5, 9, 10, 4294967294, 4294967295] {
        let couvert = intervalles.iter().any(|(a, b)| *a <= n && n <= *b);
        assert_eq!(couvert, uids.contains(&n), "{n}");
    }
    assert_eq!(ensemble_uid(&[]), "");
    assert!(lire_ensemble("").is_empty());
}

#[test]
fn litteral_designe_par_son_rang() {
    assert_eq!(indice_litteral(&format!("a {m}12{m} b", m = MARQUEUR)), Some(12));
    assert_eq!(indice_litteral("rien"), None);
    // A mark that leads to no literal leaves the headers empty.
    let reponse = format!("* 1 FETCH (UID 3 BODY[] {m}4{m})\r\n", m = MARQUEUR);
    let entetes = analyser_fetch(&reponse, &[]);
    assert_eq!(entetes.len(), 1);
    assert!(entetes[0].brut.is_empty());
}

#[test]
fn lignes_etrangeres_laissees() {
    assert_eq!(analyser_list("* LSUB () \"/\" INBOX"), None);
    assert_eq!(analyser_list("* LIST (\\Sent"), None);
    assert!(entre_parentheses("sans parenthese").is_none());
    assert!(entre_parentheses("(jamais close").is_none());
    assert!(analyser_vanished("* 3 EXISTS\r\n").is_empty());
    assert!(analyser_status("* STATUS INBOX MESSAGES 3\r\n").is_empty());
    let etat = analyser_select("* OK [UIDNEXT 99999999999] trop\r\n");
    assert_eq!(etat.uid_next, 0);
}

#[test]
fn noms_sans_esperluette_inchanges() {
    for nom in ["", "INBOX", "Été 2026", "a-b-c"] {
        assert_eq!(decoder_utf7(nom), nom);
    }
    assert_eq!(decoder_utf7("&2D3eAA-"), "\u{1F600}");
}

#[test]
fn noms_mal_formes_rendus_tels_quels() {
    for nom in ["&A-", "&AA-", "&AAA-&A-", "x&AMkA-y", "&2AA-", "&AM k-", "&"] {
        assert_eq!(decoder_utf7(nom), nom);
    }
    assert_eq!(decoder_utf7("&AMkA6Q-"), "Éé");
}

#[test]
fn fetch_en_deux_parties() {
    let a = "* 1 FETCH (UID 4 FLAGS (\\Seen))\r\n* 2 FETCH (FLAGS ())\r";
    let b = "* 3 FETCH (UID 9 RFC822.SIZE 12)\nm0001 OK";
    let tout = analyser_fetch(&format!("{a}\n{b}"), &[]);
    let mut parts = analyser_fetch(a, &[]);
    parts.extend(analyser_fetch(b, &[]));
    assert_eq!(tout, parts);
    assert_eq!(tout.iter().map(|e| e.uid).collect::<Vec<u32>>(), vec![4, 9]);
}

#[test]
fn ligne_list_relue() {
    for (sep, chemin) in [("/", "Sent"), (".", "a \"b\" (c) \\d"), ("", "")] {
        let ligne = format!("* LIST () {} {}", citer(sep), citer(chemin));
        let d = analyser_list(&ligne).unwrap();
        assert_eq!(d.chemin, chemin);
        assert_eq!(d.separateur, sep);
        assert!(d.attributs.is_empty());
    }
}

#[test]
fn fuseaux_opposes() {
    let d = "16-Sep-2026 18:00:00";
    let u = secondes_date_interne(&format!("{d} +0000")).unwrap();
    for (h, m) in [(2i64, 0i64), (5, 30), (99, 99)] {
        let ecart = h * 3600 + m * 60;
        assert_eq!(secondes_date_interne(&format!("{d} +{h:02}{m:02}")), Some(u - ecart));
        assert_eq!(secondes_date_interne(&format!("{d} -{h:02}{m:02}")), Some(u + ecart));
    }
}

#[test]
fn esperluettes_relues() {
    for nom in ["", "&", "a & b", "&&-", "R&D-"] {
        assert_eq!(decoder_utf7(&nom.replace('&', "&-")), nom);
    }
}
