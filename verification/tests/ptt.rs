//! Keys: held to talk, combined into a shortcut, watched at every tick.

use ki_client_gui::ptt::{
    index_de, Bascule, Demande, Keycode, PttKey, Raccourci, Touche, Veilleur, AUCUNE, PERIODE_MS,
};
use ki_client_gui::raccourci::{au_sondage, lire, poser, Etat, Regle};

#[test]
fn un_raccourci_fait_l_aller_retour_par_son_identifiant() {
    let r = Raccourci::par_defaut();
    assert_eq!(r.id(), "alt+f10");
    assert_eq!(r.label(), "Alt+F10");
    assert_eq!(Raccourci::depuis("alt+f10"), Some(r));
    let c = Raccourci { ctrl: true, alt: false, shift: true, touche: Touche::Lettre(b'K') };
    assert_eq!(Raccourci::depuis(&c.id()), Some(c));
    assert_eq!(c.label(), "Ctrl+Maj+K");
    assert_eq!(Raccourci::depuis("alt+"), None);
    assert_eq!(Raccourci::depuis("f13"), None);
}

#[test]
fn la_combinaison_exige_ses_modificateurs() {
    let r = Raccourci::par_defaut();
    assert!(r.enfonce(&[Keycode::LAlt, Keycode::F10]));
    assert!(r.enfonce(&[Keycode::RAlt, Keycode::F10, Keycode::A]));
    assert!(!r.enfonce(&[Keycode::F10]));
    assert!(!r.enfonce(&[Keycode::LAlt, Keycode::F9]));
    // Alt on top of it, never.
    let f5 = Raccourci { ctrl: true, alt: false, shift: false, touche: Touche::F(5) };
    assert!(!f5.enfonce(&[Keycode::LControl, Keycode::LAlt, Keycode::F5]));
    assert_eq!(
        Raccourci::depuis_touches(&[Keycode::LShift, Keycode::Key5]),
        Some(Raccourci { ctrl: false, alt: false, shift: true, touche: Touche::Chiffre(5) })
    );
    assert_eq!(Raccourci::depuis_touches(&[Keycode::LShift]), None);
}

#[test]
fn en_jeu_ctrl_ou_maj_tenus_en_plus_ne_genent_pas_une_touche_de_fonction() {
    // Crouching (Ctrl) or walking (Shift), Alt+F10 stays Alt+F10.
    let r = Raccourci::par_defaut();
    assert!(r.enfonce(&[Keycode::LAlt, Keycode::LControl, Keycode::F10]));
    assert!(r.enfonce(&[Keycode::LAlt, Keycode::LShift, Keycode::F10]));
    assert!(r.enfonce(&[Keycode::LAlt, Keycode::LShift, Keycode::RControl, Keycode::F10]));
    let ids: Vec<String> = r.variantes().iter().map(|v| v.id()).collect();
    assert_eq!(ids, ["alt+f10", "ctrl+alt+f10", "alt+shift+f10", "ctrl+alt+shift+f10"]);
    // A combination with every modifier has no variant.
    let tout = Raccourci { ctrl: true, alt: true, shift: true, touche: Touche::F(1) };
    assert_eq!(tout.variantes(), vec![tout]);
    let ctrl_f5 = Raccourci { ctrl: true, alt: false, shift: false, touche: Touche::F(5) };
    let ids: Vec<String> = ctrl_f5.variantes().iter().map(|v| v.id()).collect();
    assert_eq!(ids, ["ctrl+f5", "ctrl+shift+f5"]);
}

#[test]
fn une_touche_qui_ecrit_ne_tolere_rien_de_plus() {
    // Ctrl+Alt+E is AltGr+E, which writes a euro sign.
    let alt_e = Raccourci { ctrl: false, alt: true, shift: false, touche: Touche::Lettre(b'E') };
    assert!(alt_e.enfonce(&[Keycode::LAlt, Keycode::E]));
    assert!(!alt_e.enfonce(&[Keycode::LAlt, Keycode::LControl, Keycode::E]));
    assert!(!alt_e.enfonce(&[Keycode::LAlt, Keycode::LShift, Keycode::E]));
    assert_eq!(alt_e.variantes(), vec![alt_e]);
    let espace = Raccourci { ctrl: true, alt: false, shift: false, touche: Touche::Space };
    assert_eq!(espace.variantes(), vec![espace]);
}

#[test]
fn les_codes_de_touche_virtuelle_sont_ceux_de_windows() {
    assert_eq!(Touche::F(1).vk(), 0x70);
    assert_eq!(Touche::F(10).vk(), 0x79);
    assert_eq!(Touche::F(12).vk(), 0x7B);
    assert_eq!(Touche::Lettre(b'K').vk(), 0x4B);
    assert_eq!(Touche::Chiffre(0).vk(), 0x30);
    assert_eq!(Touche::Chiffre(9).vk(), 0x39);
    assert_eq!(Touche::PageUp.vk(), 0x21);
    assert_eq!(Touche::PageDown.vk(), 0x22);
    assert_eq!(Touche::Space.vk(), 0x20);
}

#[test]
fn les_touches_de_parole_font_l_aller_retour() {
    for k in PttKey::ALL {
        assert_eq!(PttKey::from_id(k.id()), Some(k));
        assert!(!k.label().is_empty());
    }
    assert_eq!(PttKey::from_id("f99"), None);
    assert_eq!(PttKey::F5.keycode(), Keycode::F5);
}

#[test]
fn les_touches_font_l_aller_retour_par_leur_code() {
    for t in [
        Touche::F(1),
        Touche::F(12),
        Touche::Lettre(b'A'),
        Touche::Lettre(b'Z'),
        Touche::Chiffre(7),
        Touche::Insert,
        Touche::Home,
        Touche::Space,
    ] {
        assert_eq!(Touche::depuis_keycode(t.keycode()), Some(t));
        assert_eq!(Touche::depuis_id(&t.id()), Some(t));
    }
    assert_eq!(Touche::depuis_keycode(Keycode::LAlt), None);
    assert!(Touche::Lettre(b'A').de_frappe() && !Touche::F(3).de_frappe());
    assert_eq!(Touche::PageUp.label(), "Page haut");
}

fn demande(index: u8, maintenant: u64) -> Demande {
    Demande {
        index,
        bascules: [AUCUNE, AUCUNE],
        raccourci: None,
        en_capture: false,
        release_ms: 200,
        maintenant,
    }
}

#[test]
fn la_parole_tient_un_peu_apres_le_relachement() {
    let i = index_de(Some(PttKey::LAlt));
    let mut v = Veilleur::new();
    v.sonder(&demande(i, 1_000), &[Keycode::LAlt]);
    assert!(v.active);
    v.sonder(&demande(i, 1_150), &[]);
    assert!(v.active, "le maintien court encore");
    v.sonder(&demande(i, 1_400), &[]);
    assert!(!v.active);
    assert!(!v.repos(), "déjà silencieux");
    assert!(demande(AUCUNE, 0).rien_a_surveiller());
    assert!(!demande(i, 0).rien_a_surveiller());
    assert_eq!(index_de(None), AUCUNE);
    assert!(PERIODE_MS > 0);
}

#[test]
fn une_touche_tenue_ne_bascule_qu_une_fois() {
    let mut d = demande(AUCUNE, 0);
    d.bascules[Bascule::Micro.place()] = index_de(Some(PttKey::F8));
    let mut v = Veilleur::new();
    let place = Bascule::Micro.place();
    assert!(v.sonder(&d, &[Keycode::F8]).presses[place]);
    assert!(!v.sonder(&d, &[Keycode::F8]).presses[place]);
    assert!(!v.sonder(&d, &[]).presses[place]);
    assert!(v.sonder(&d, &[Keycode::F8]).presses[place]);
    assert_ne!(Bascule::Micro.place(), Bascule::Sourd.place());
}

#[test]
fn un_raccourci_se_capture_et_se_declenche() {
    let mut v = Veilleur::new();
    let mut d = demande(AUCUNE, 0);
    d.en_capture = true;
    let s = v.sonder(&d, &[Keycode::LControl, Keycode::K]);
    let r = Raccourci { ctrl: true, alt: false, shift: false, touche: Touche::Lettre(b'K') };
    assert_eq!(s.capturee, Some(r));
    assert!(!s.declencher);
    let mut d = demande(AUCUNE, 0);
    d.raccourci = Some(r);
    let mut v = Veilleur::new();
    assert!(v.sonder(&d, &[Keycode::LControl, Keycode::K]).declencher);
    assert!(!v.sonder(&d, &[Keycode::LControl, Keycode::K]).declencher);
}

#[test]
fn un_etat_fait_l_aller_retour_par_son_octet() {
    for e in [Etat::Aucun, Etat::Enregistre, Etat::Refuse] {
        assert_eq!(Etat::depuis(e.en_octet()), e);
        assert_eq!(lire(e.en_octet()), e);
    }
    assert_eq!(lire(200), Etat::Aucun);
}

#[test]
fn une_pose_refusee_lache_ce_qui_etait_pris() {
    let p = poser(&vec![true, true]);
    assert_eq!(p.etat, Etat::Enregistre);
    assert_eq!(p.gardees.len(), 2);
    assert!(p.lachees.is_empty());
    let p = poser(&vec![false, true]);
    assert_eq!(p.etat, Etat::Refuse);
    assert!(p.gardees.is_empty());
    assert_eq!(p.lachees.len(), 1);
}

#[test]
fn une_regle_ne_se_repete_pas() {
    let r = Raccourci::par_defaut();
    let mut regle = Regle::new();
    assert_eq!(regle.watch_raccourci(Some(r), false), Some(Some(r)));
    assert_eq!(regle.watch_raccourci(Some(r), false), None);
    // While a combination is being captured, none is held.
    assert_eq!(regle.watch_raccourci(Some(r), true), Some(None));
    assert_eq!(regle.watch_raccourci(Some(r), false), Some(Some(r)));
    // What the system holds is not polled.
    assert_eq!(au_sondage(Some(r), Etat::Enregistre), None);
    assert_eq!(au_sondage(Some(r), Etat::Refuse), Some(r));
}
