//! What is drawn over a game, and what drawing costs.

use ki_client_gui::overlay::{Coin, Ligne, Overlay, OUBLI_MS, TENUE_MS};
use ki_client_gui::perf::{copier_releve, Perf, Serie, FENETRE};
use std::collections::HashMap;

#[test]
fn les_coins_font_l_aller_retour_par_leur_identifiant() {
    for c in Coin::TOUS {
        assert_eq!(Coin::depuis(c.id()), c);
    }
    for (c, id) in [
        (Coin::HautGauche, "haut-gauche"),
        (Coin::HautDroite, "haut-droite"),
        (Coin::BasGauche, "bas-gauche"),
        (Coin::BasDroite, "bas-droite"),
    ] {
        assert_eq!(Coin::depuis(id), c);
        assert_eq!(c.id(), id);
    }
    assert_eq!(Coin::depuis("n'importe quoi"), Coin::HautGauche);
}

#[test]
fn les_reglages_se_relisent() {
    let mut memoire: HashMap<String, String> = HashMap::new();
    let mut o = Overlay::load(|_: &str, d: &str| d.to_string());
    assert!(o.actif && o.toujours);
    o.actif = false;
    o.coin = Coin::BasDroite;
    o.toujours = false;
    let (actif, coin, toujours) = o.save();
    memoire.insert("overlay".to_string(), actif.to_string());
    memoire.insert("overlay_coin".to_string(), coin.to_string());
    memoire.insert("overlay_toujours".to_string(), toujours.to_string());
    let relu = Overlay::load(|k: &str, d: &str| {
        memoire.get(k).cloned().unwrap_or_else(|| d.to_string())
    });
    assert!(!relu.actif && !relu.toujours);
    assert_eq!(relu.coin, Coin::BasDroite);
}

fn ligne(nom: &str, parle: bool) -> Ligne {
    Ligne { nom: nom.to_string(), parle }
}

#[test]
fn une_voix_reste_allumee_un_instant() {
    let mut o = Overlay::load(|_: &str, d: &str| d.to_string());
    let r = o.montrer(&vec![ligne("Léa", true), ligne("Kevin", false)], false, 1_000);
    assert_eq!(r.len(), 2);
    assert!(r[0].parle && !r[1].parle);
    let r = o.montrer(&vec![ligne("Léa", false)], false, 1_000 + TENUE_MS - 1);
    assert!(r[0].parle);
    let r = o.montrer(&vec![ligne("Léa", false)], false, 1_000 + TENUE_MS + 1);
    assert!(!r[0].parle);
    // After a minute nothing is remembered of her.
    o.montrer(&vec![ligne("Kevin", false)], false, 1_000 + OUBLI_MS + 1);
    assert!(o.recemment.is_empty());
}

#[test]
fn rien_ne_se_montre_quand_rien_ne_se_verrait() {
    let mut o = Overlay::load(|_: &str, d: &str| d.to_string());
    assert!(o.montrer(&vec![ligne("Léa", true)], true, 0).is_empty());
    assert!(o.montrer(&vec![], false, 0).is_empty());
    o.actif = false;
    assert!(o.montrer(&vec![ligne("Léa", true)], false, 0).is_empty());
    // Without "always", only those who talk.
    o.actif = true;
    o.toujours = false;
    let r = o.montrer(&vec![ligne("Léa", true), ligne("Kevin", false)], false, 0);
    assert_eq!(r.len(), 1);
    assert_eq!(r[0].place, 0);
}

#[test]
fn le_pic_survit_aux_quantiles() {
    let mut s = Serie::new();
    for _ in 0..99 {
        s.push(3_000);
    }
    s.push(40_000);
    let (p50, _, max) = s.quantiles().expect("série non vide");
    assert_eq!(p50, 3_000, "le régime ordinaire reste le régime ordinaire");
    assert_eq!(max, 40_000, "l'image lente est celle qu'on vient chercher");
}

#[test]
fn la_fenetre_ne_grandit_pas() {
    let mut s = Serie::new();
    for i in 0..FENETRE * 3 {
        s.push(i as u64);
    }
    assert_eq!(s.us.len(), FENETRE);
    // And those that stay are the last ones.
    assert_eq!(*s.us.last().unwrap(), (FENETRE * 3 - 1) as u64);
}

fn lignes(p: &Perf) -> Vec<(String, String)> {
    p.lignes(
        |us: u64| format!("{:.2}", us as f32 / 1000.0),
        |n: u32, us: u64| format!("{:.1}", n as f32 * 1e6 / us as f32),
    )
}

#[test]
fn rien_a_dire_avant_la_premiere_image() {
    assert!(Serie::new().quantiles().is_none());
    let lignes = lignes(&Perf::new());
    assert!(lignes.iter().any(|(k, v)| k == "Image complète" && v == "—"));
}

#[test]
fn un_releve_se_lit_ligne_par_ligne() {
    let mut p = Perf::new();
    for i in 0..21u64 {
        let t = i * 50_000;
        p.debut_image(t);
        p.debut_fil(t + 100);
        p.fin_fil(12, 500, t + 600);
        p.fin_image(t + 2_000);
    }
    let l = lignes(&p);
    assert_eq!(l.len(), 5);
    assert_eq!(l[0].1, "p50 2.00 ms · p95 2.00 ms · max 2.00 ms");
    assert_eq!(l[1].1, "p50 0.50 ms · p95 0.50 ms · max 0.50 ms");
    assert_eq!(l[2], ("Messages parcourus".to_string(), "12 sur 500 chargés".to_string()));
    assert_eq!(l[3].1, "21.0 réellement peintes");
    // An end without a beginning measures nothing.
    p.fin_image(9_000_000);
    assert_eq!(p.image.us.len(), 21);
}

#[test]
fn les_quantiles_se_prennent_dans_l_ordre() {
    let mut s = Serie::new();
    for us in [5u64, 1, 4, 2, 3] {
        s.push(us);
    }
    assert_eq!(s.quantiles(), Some((3, 5, 5)));
    let mut s = Serie::new();
    for us in 1..=100u64 {
        s.push(us);
    }
    assert_eq!(s.quantiles(), Some((51, 95, 100)));
}

#[test]
fn un_releve_se_copie_avec_ses_trous() {
    let lignes = vec![("Fil".to_string(), "—".to_string())];
    assert_eq!(
        copier_releve("1.2", &lignes, 3, None),
        "ki-chat 1.2 — relevé de performance\nFil : —\nTrames incomplètes (audio) : 3\n"
    );
    assert!(copier_releve("1.2", &lignes, 0, Some("tout va bien")).ends_with(": 0\n\ntout va bien"));
}
