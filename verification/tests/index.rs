use mmail_core::courrier::{Contact, CorpsLu, EntetesLus, PieceLue};
use mmail_core::html::{a_la_ligne, decoder_entites, entite, html_vers_texte};
use mmail_core::index::{
    corps_affichable, corps_du_message, extraire_piece, ligne_des_entetes, ligne_index,
    message_id_de, nom_sur, ouverture_risquee, piece_du_message, pieces_du_message, pieces_jointes,
};
use mmail_core::protocole::Entete;

fn entete(brut: &str) -> Entete {
    Entete {
        uid: 7,
        taille: 512,
        drapeaux: vec!["\\Seen".to_string()],
        date_interne: "16-Sep-2026 18:00:00 +0200".to_string(),
        brut: brut.as_bytes().to_vec(),
    }
}

#[test]
fn sujet_et_expediteur_decodes() {
    let ligne = ligne_index(&entete(
        "From: \"Service compta\" <compta@exemple.fr>\r\n\
         Message-ID: <abc.123@exemple.fr>\r\n\
         Subject: =?UTF-8?Q?R=C3=A9union_d'=C3=A9quipe?=\r\n\
         Date: Tue, 16 Sep 2026 09:30:00 +0200\r\n\r\n",
    ));
    assert_eq!(ligne.uid, 7);
    assert_eq!(ligne.sujet, "Réunion d'équipe");
    assert_eq!(ligne.expediteur, "Service compta");
    assert_eq!(ligne.adresse, "compta@exemple.fr");
    assert_eq!(ligne.message_id, "abc.123@exemple.fr");
    assert!(ligne.date.starts_with("2026-09-16"));
    assert!(ligne.lu);
    // Sorted by the internal date of the server, 2026-09-16 16:00 UTC.
    assert_eq!(ligne.horodatage, 1789574400);
}

#[test]
fn sans_nom_d_affichage_l_adresse_suffit() {
    let ligne = ligne_index(&entete("From: brut@exemple.fr\r\nSubject: Objet\r\n\r\n"));
    assert_eq!(ligne.expediteur, "brut@exemple.fr");
    assert_eq!(ligne.adresse, "brut@exemple.fr");
}

#[test]
fn message_sans_sujet_ni_date() {
    let ligne = ligne_index(&entete("From: a@b.fr\r\n\r\n"));
    assert_eq!(ligne.sujet, "(sans objet)");
    // The internal date of the server takes its place.
    assert_eq!(ligne.date, "16-Sep-2026 18:00:00 +0200");
}

#[test]
fn corps_texte_et_corps_html() {
    let texte = corps_affichable(
        b"From: a@b.fr\r\nSubject: O\r\nContent-Type: text/plain; charset=utf-8\r\n\r\nBonjour \xc3\xa0 tous.\r\n",
    );
    assert!(texte.contains("Bonjour à tous."));

    let html = corps_affichable(
        b"From: a@b.fr\r\nContent-Type: text/html; charset=utf-8\r\n\r\n<p>Co\xc3\xbbt : 12&nbsp;\xe2\x82\xac</p>\r\n",
    );
    assert!(html.contains("Coût"), "html rendu : {html}");
    assert!(!html.contains('<'));
}

#[test]
fn message_sans_partie_texte() {
    let corps = corps_affichable(b"From: a@b.fr\r\nContent-Type: image/png\r\n\r\n\x89PNG");
    assert!(corps.contains("pas de partie texte"));
}

#[test]
fn en_tetes_illisibles_gardent_une_ligne() {
    let mut e = entete("");
    e.brut = vec![0xff, 0xfe, 0x00];
    let ligne = ligne_index(&e);
    assert_eq!(ligne.uid, 7);
    assert!(!ligne.sujet.is_empty());
}

const AVEC_PIECES: &[u8] = b"From: a@b.fr\r\n\
Subject: Pieces\r\n\
MIME-Version: 1.0\r\n\
Content-Type: multipart/mixed; boundary=\"XX\"\r\n\
\r\n\
--XX\r\n\
Content-Type: text/plain; charset=utf-8\r\n\
\r\n\
Voir pi\xc3\xa8ces jointes.\r\n\
--XX\r\n\
Content-Type: application/pdf; name=\"facture.pdf\"\r\n\
Content-Disposition: attachment; filename=\"facture.pdf\"\r\n\
Content-Transfer-Encoding: base64\r\n\
\r\n\
JVBERi0xLjQKJcOkw7w=\r\n\
--XX\r\n\
Content-Type: application/octet-stream\r\n\
Content-Disposition: attachment; filename=\"../../Windows/outil.exe\"\r\n\
Content-Transfer-Encoding: base64\r\n\
\r\n\
TVqQAA==\r\n\
--XX--\r\n";

#[test]
fn pieces_jointes_listees_et_extraites() {
    let pieces = pieces_jointes(AVEC_PIECES);
    assert_eq!(pieces.len(), 2, "{pieces:?}");
    assert_eq!(pieces[0].nom, "facture.pdf");
    assert_eq!(pieces[0].type_mime, "application/pdf");
    assert!(!pieces[0].risquee);
    // The path that the sender gave is dropped, the program is pointed out.
    assert_eq!(pieces[1].nom, "outil.exe");
    assert!(pieces[1].risquee);

    let (nom, octets) = extraire_piece(AVEC_PIECES, 0).unwrap();
    assert_eq!(nom, "facture.pdf");
    assert!(octets.starts_with(b"%PDF-1.4"));
    assert_eq!(pieces[0].taille, octets.len());
    assert!(extraire_piece(AVEC_PIECES, 5).is_none());
    // The body that is shown is no attachment.
    assert!(corps_affichable(AVEC_PIECES).contains("Voir pièces jointes."));
}

#[test]
fn noms_de_fichiers_assainis() {
    assert_eq!(nom_sur("rapport.pdf", 0, "application/pdf"), "rapport.pdf");
    assert_eq!(nom_sur("..\\..\\x.txt", 0, "text/plain"), "x.txt");
    assert_eq!(nom_sur("a<b>c:d|e?.txt", 0, "text/plain"), "a_b_c_d_e_.txt");
    assert_eq!(nom_sur("", 2, "image/png"), "piece-jointe-3.png");
    assert_eq!(nom_sur("...", 0, "application/zip"), "piece-jointe-1.bin");
    assert_eq!(nom_sur("CON.txt", 0, "text/plain"), "piece-jointe-1.txt");
    assert_eq!(nom_sur("com1", 0, "text/plain"), "piece-jointe-1.txt");
    assert_eq!(nom_sur("console.txt", 0, "text/plain"), "console.txt");
    let long = format!("{}.pdf", "é".repeat(300));
    let court = nom_sur(&long, 0, "application/pdf");
    assert_eq!(court.chars().count(), 150);
    assert!(court.ends_with(".pdf"));
}

#[test]
fn executables_reconnus() {
    for nom in ["x.exe", "X.JS", "a.b.vbs", "lien.lnk", "s.ps1", "outil.AppImage"] {
        assert!(ouverture_risquee(nom), "{nom}");
    }
    for nom in ["facture.pdf", "photo.jpeg", "exe", "tableau.xlsx", "notes.txt"] {
        assert!(!ouverture_risquee(nom), "{nom}");
    }
}

#[test]
fn html_d_outlook_remis_en_lignes() {
    let html = [
        "<html><head><title>Titre</title><style>p { color: red; }</style></head>",
        "<body><!-- commentaire --><div>Bonjour,</div><div><br></div>",
        "<div>Veuillez trouver ci-joint la facture n&deg;&nbsp;12 d&#233;taill&eacute;e :</div>",
        "<ul><li>ligne A</li><li>ligne B</li></ul>",
        "<table><tr><td>Total</td><td>12,50&nbsp;&euro;</td></tr></table>",
        "<p>Cordialement,<br>L&rsquo;&eacute;quipe</p><script>alert(1)</script></body></html>",
    ]
    .concat();
    let texte = html_vers_texte(&html);
    assert!(!texte.contains("color"), "le CSS doit disparaître : {texte}");
    assert!(!texte.contains("alert"), "le script doit disparaître : {texte}");
    assert!(!texte.contains("Titre"));
    assert!(!texte.contains("commentaire"));
    let lignes: Vec<&str> = texte.lines().collect();
    assert_eq!(lignes[0], "Bonjour,");
    assert!(
        texte.contains("\nVeuillez trouver ci-joint la facture n° 12 détaillée :\n"),
        "{texte}"
    );
    assert!(texte.contains("• ligne A\n• ligne B"), "{texte}");
    assert!(texte.contains("Total 12,50 €"), "{texte}");
    assert!(texte.contains("Cordialement,\nL’équipe"), "{texte}");
    assert!(!texte.contains("\n\n\n"), "pas plus d'une ligne vide : {texte:?}");
}

#[test]
fn blocs_successifs_sans_ligne_vide() {
    // One writer puts each line in a paragraph, and an empty line in one with a
    // non-breaking space; another puts each in a <div>, and an empty line in
    // <div><br></div>. The indentation of the source adds nothing.
    let outlook = "<p class=MsoNormal>Bonjour,<o:p></o:p></p>\n  <p class=MsoNormal><o:p>&nbsp;</o:p></p>\n  <p class=MsoNormal>Suite.<o:p></o:p></p>";
    assert_eq!(html_vers_texte(outlook), "Bonjour,\n\nSuite.");
    let gmail = "<div dir=\"ltr\">\n  <div>Un</div>\n  <div>Deux</div>\n  <div><br></div>\n  <div>Trois</div>\n</div>";
    assert_eq!(html_vers_texte(gmail), "Un\nDeux\n\nTrois");
}

#[test]
fn entites_inconnues_ou_tronquees_laissees() {
    assert_eq!(decoder_entites("A &amp; B"), "A & B");
    assert_eq!(decoder_entites("R&D, 5 &lt; 6"), "R&D, 5 < 6");
    assert_eq!(
        decoder_entites("&inconnue; &#x1F600; &#9999999999;"),
        "&inconnue; 😀 &#9999999999;"
    );
    assert_eq!(decoder_entites("fin &"), "fin &");
    assert_eq!(decoder_entites("é&eacute"), "é&eacute");
}

#[test]
fn message_tout_en_html_passe_par_la_conversion() {
    let brut = b"From: a@b.fr\r\nContent-Type: text/html; charset=utf-8\r\n\r\n<div>Un</div><div>Deux</div>\r\n";
    assert_eq!(corps_affichable(brut), "Un\nDeux");
}

#[test]
fn message_id_lu_dans_le_brut() {
    let brut = b"From: a@b.fr\r\nMessage-ID: <x.1@b.fr>\r\nSubject: s\r\n\r\ncorps\r\n";
    assert_eq!(message_id_de(brut), "x.1@b.fr");
    assert_eq!(message_id_de(b"From: a@b.fr\r\n\r\ncorps"), "");
}

#[test]
fn ligne_de_ce_qui_a_ete_lu() {
    let lus = EntetesLus {
        sujet: Some("Objet".into()),
        expediteurs: Some(vec![Contact { nom: None, adresse: Some("x@y.fr".into()) }]),
        message_id: Some("1@y.fr".into()),
        date: Some(("2026-09-16T09:30:00+02:00".into(), 1789543800)),
    };
    let mut e = entete("");
    e.date_interne = "pas une date".into();
    let ligne = ligne_des_entetes(&e, Some(lus));
    assert_eq!(ligne.expediteur, "x@y.fr");
    assert_eq!(ligne.sujet, "Objet");
    assert_eq!(ligne.message_id, "1@y.fr");
    // Without an internal date the one of the headers sorts the message.
    assert_eq!(ligne.horodatage, 1789543800);
    let vide = ligne_des_entetes(&e, None);
    assert_eq!(vide.taille, 512);
    assert!(vide.lu && !vide.repondu);
}

#[test]
fn corps_de_ce_qui_a_ete_lu() {
    assert_eq!(corps_du_message(None), "(message illisible)");
    let html = CorpsLu {
        partie: Some((true, Some("<p>Un</p><p>Deux</p>".into()))),
        texte: Some("autre".into()),
        html: None,
    };
    assert_eq!(corps_du_message(Some(html)), "Un\nDeux");
    let texte = CorpsLu {
        partie: Some((false, Some("brut".into()))),
        texte: Some("brut".into()),
        html: Some("<p>x</p>".into()),
    };
    assert_eq!(corps_du_message(Some(texte)), "brut");
    let rien = CorpsLu { partie: None, texte: None, html: None };
    assert_eq!(corps_du_message(Some(rien)), "(ce message n'a pas de partie texte)");
}

fn piece(nom: Option<&str>, declare: Option<(&str, Option<&str>)>, message: bool) -> PieceLue {
    PieceLue {
        declare: declare.map(|(t, s)| (t.to_string(), s.map(|s| s.to_string()))),
        message,
        nom: nom.map(|n| n.to_string()),
        contenu: vec![1, 2, 3],
    }
}

#[test]
fn pieces_de_ce_qui_a_ete_lu() {
    assert!(pieces_du_message(None).is_empty());
    assert!(piece_du_message(None, 0).is_none());
    let pieces = pieces_du_message(Some(vec![
        piece(Some("a/b.pdf"), Some(("application", Some("pdf"))), false),
        piece(None, Some(("image", Some("png"))), false),
        piece(Some("x.exe"), None, false),
    ]));
    assert_eq!(pieces.len(), 3);
    assert_eq!((pieces[0].indice, pieces[0].nom.as_str()), (0, "b.pdf"));
    assert_eq!(pieces[1].nom, "piece-jointe-2.png");
    assert_eq!(pieces[1].type_mime, "image/png");
    assert!(pieces[2].risquee);
    assert_eq!(pieces[2].taille, 3);
    let lues = vec![piece(None, Some(("image", Some("png"))), false)];
    assert_eq!(
        piece_du_message(Some(lues), 0),
        Some(("piece-jointe-1.png".to_string(), vec![1, 2, 3]))
    );
    assert!(piece_du_message(Some(Vec::new()), 0).is_none());
}

#[test]
fn html_hostile_ou_incomplet() {
    assert_eq!(html_vers_texte(""), "");
    assert_eq!(html_vers_texte("a < b"), "a < b");
    assert_eq!(html_vers_texte("avant<!-- jamais clos"), "avant");
    assert_eq!(html_vers_texte("<style>p{}"), "");
    assert_eq!(decoder_entites("sans entite"), "sans entite");
}

#[test]
fn nom_qui_designe_un_dossier() {
    for nom in [". .. .", ". . ..", "x/. .. .", ". .. .. .", " . "] {
        assert_eq!(nom_sur(nom, 0, "application/pdf"), "piece-jointe-1.pdf", "{nom}");
    }
    assert_eq!(nom_sur(". .a.txt. .", 0, "text/plain"), "a.txt");
}

#[test]
fn elements_caches_sans_trace() {
    for nom in ["head", "style", "script", "title", "template"] {
        let grand = nom.to_uppercase();
        for suite in ["", "Bonjour", "<p>Un</p><p>Deux", "</b> & < fin"] {
            let html = format!("<!-- note - --><{nom}>a > b & c</{nom}>{suite}");
            assert_eq!(html_vers_texte(&html), html_vers_texte(suite), "{html}");
            let html = format!("<{grand}>a</{nom}>{suite}");
            assert_eq!(html_vers_texte(&html), html_vers_texte(suite), "{html}");
        }
    }
}

fn valeur_entite(nom: &str) -> Option<String> {
    let c: Vec<char> = nom.chars().collect();
    entite(&c).map(|v| v.into_iter().collect())
}

#[test]
fn entites_numeriques_de_tous_les_caracteres() {
    let invisibles = ['\u{ad}', '\u{200b}', '\u{200c}', '\u{200d}', '\u{feff}'];
    for n in 0..=0x110010u32 {
        let attendu = char::from_u32(n).map(|c| {
            if invisibles.contains(&c) {
                String::new()
            } else {
                c.to_string()
            }
        });
        assert_eq!(valeur_entite(&format!("#{n}")), attendu, "{n}");
        assert_eq!(valeur_entite(&format!("#x{n:X}")), attendu, "{n:X}");
    }
    assert_eq!(valeur_entite("#xD800"), None);
    assert_eq!(valeur_entite("#9999999999"), None);
}

#[test]
fn ligne_entamee_une_fois() {
    let mut v: Vec<char> = "texte".chars().collect();
    a_la_ligne(&mut v);
    a_la_ligne(&mut v);
    assert_eq!(v.iter().collect::<String>(), "texte\n");
}

#[test]
fn risque_selon_la_seule_extension() {
    for nom in ["photo.jpg.EXE", "a.exe", ".exe", "a.b.pdf", "notes.TXT", "x.Sh"] {
        assert_eq!(ouverture_risquee(nom), ouverture_risquee(&nom.to_ascii_uppercase()));
        let fin = nom.rsplit('.').next().unwrap();
        assert_eq!(ouverture_risquee(nom), ouverture_risquee(&format!("x.{fin}")));
    }
    assert!(ouverture_risquee("photo.jpg.EXE"));
    assert!(!ouverture_risquee("exe"));
}

#[test]
fn esperluettes_en_entites_relues() {
    for texte in ["", "&", "a & b", "&amp;", "&eacute; & R&D;"] {
        assert_eq!(decoder_entites(&texte.replace('&', "&amp;")), texte);
    }
}
