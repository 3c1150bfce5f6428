use mmail_core::flux::Lecture;
use mmail_core::nombre::{ecrire_i64, ecrire_u64, lire_i64, lire_u32, lire_u64, lire_usize};
use mmail_core::texte::{
    caracteres, chaine, decouper, decouper_lignes, decouper_mots, est_blanc, est_controle, joindre,
    rogner,
};

#[test]
fn blancs_et_controles_de_tous_les_caracteres() {
    for n in 0..=0x10ffffu32 {
        if let Some(c) = char::from_u32(n) {
            assert_eq!(est_blanc(c), c.is_whitespace(), "{n:x}");
            assert_eq!(est_controle(c), c.is_control(), "{n:x}");
        }
    }
}

fn ecrit(v: Vec<char>) -> String {
    v.into_iter().collect()
}

#[test]
fn nombres_ecrits_et_relus() {
    for n in [0u64, 7, 10, 4294967295, 18446744073709551615] {
        assert_eq!(ecrit(ecrire_u64(n)), n.to_string());
        assert_eq!(lire_u64(&ecrire_u64(n)), Some(n));
    }
    for n in [i64::MIN, -1, 0, 42, i64::MAX] {
        assert_eq!(ecrit(ecrire_i64(n)), n.to_string());
        assert_eq!(lire_i64(&ecrire_i64(n)), Some(n));
    }
    for t in ["", "+", "-1", "+7", "007", "4294967296", " 3", "3x", "٣"] {
        assert_eq!(lire_u32(&caracteres(t)), t.parse().ok(), "{t}");
        assert_eq!(lire_usize(&caracteres(t)), t.parse().ok(), "{t}");
        assert_eq!(lire_i64(&caracteres(t)), t.parse().ok(), "{t}");
    }
}

#[test]
fn textes_decoupes() {
    let c = |t: &str| caracteres(t);
    for t in ["", ",", "a,b", ",a,,b,"] {
        let v: Vec<String> = decouper(&c(t), ',').into_iter().map(ecrit).collect();
        assert_eq!(v, t.split(',').collect::<Vec<_>>());
    }
    for t in ["", "a", "a\r\nb\n", "\n\n", "a\rb\r\n"] {
        let v: Vec<String> = decouper_lignes(&c(t)).into_iter().map(ecrit).collect();
        assert_eq!(v, t.lines().collect::<Vec<_>>());
    }
    for t in ["", "  a  b\u{a0}c\t", "mot"] {
        let v: Vec<String> = decouper_mots(&c(t)).into_iter().map(ecrit).collect();
        assert_eq!(v, t.split_whitespace().collect::<Vec<_>>());
        assert_eq!(chaine(rogner(&c(t))), t.trim());
    }
    assert_eq!(joindre(&vec!["a".to_string(), "b".to_string()], ", "), "a, b");
}

#[test]
fn mots_joints_et_relus() {
    let mots = vec!["\\Seen".to_string(), "$Forwarded".to_string(), "été".to_string()];
    let lus: Vec<String> =
        decouper_mots(&caracteres(&joindre(&mots, " "))).into_iter().map(ecrit).collect();
    assert_eq!(lus, mots);
}

#[test]
fn lignes_du_flux() {
    let mut l = Lecture::nouvelle(b"une\r\nsuite".to_vec());
    assert_eq!(l.ligne(), Some("une".to_string()));
    assert_eq!(l.ligne(), None);
    let mut l = Lecture::nouvelle(b"+ allez\r\n".to_vec());
    assert!(l.inviter("m0001").unwrap().is_ok());
    let mut l = Lecture::nouvelle(b"m0001 NO non\r\n".to_vec());
    assert!(l.inviter("m0001").unwrap().is_err());
}
