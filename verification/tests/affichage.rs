//! What is written for the eye: addresses, labels, links, hours and days.

use ki_client_gui::affichage::{
    address_tag, adresse_etiquetee, day_key, day_label, ecrire_heure, ecrire_heure_secondes,
    ellipsize, fin_de, format_time, format_time_secs, http_base, jeton_hexa, nommer_jour, shorten,
    split_links,
};
use ki_client_gui::horloge::{alea, alea_de, en_ms, maintenant_ms};
use ki_client_gui::menus::quality;
use ki_client_gui::reprise::Reprise;
use std::time::Duration;

#[test]
fn local_addresses_are_tagged() {
    assert_eq!(address_tag("127.0.0.1"), Some("local"));
    assert_eq!(address_tag("127.0.0.1:9987"), Some("local"));
    assert_eq!(address_tag("localhost"), Some("local"));
    assert_eq!(address_tag("::1"), Some("local"));
    assert_eq!(address_tag("[::1]"), Some("local"));
    assert_eq!(address_tag("[::1]:9987"), Some("local"));
    assert_eq!(address_tag("::2"), None);
    assert_eq!(address_tag("[localhost]:9987"), None);
    assert_eq!(address_tag("192.168.1.30"), Some("réseau local"));
    assert_eq!(address_tag("10.0.0.7:9987"), Some("réseau local"));
    assert_eq!(address_tag("172.20.5.1"), Some("réseau local"));
    // Outside the private ranges, and public names: no tag.
    assert_eq!(address_tag("172.32.5.1"), None);
    assert_eq!(address_tag("8.8.8.8"), None);
    assert_eq!(address_tag("ts.baws.fun"), None);
    assert_eq!(address_tag("kora.chat:7000"), None);
}

#[test]
fn quality_degrades_with_latency() {
    assert_eq!(quality(1), 4);
    assert_eq!(quality(29), 4);
    assert_eq!(quality(41), 3);
    assert_eq!(quality(88), 2);
    assert_eq!(quality(210), 1);
}

#[test]
fn long_labels_are_cut_on_character_boundaries() {
    assert_eq!(ellipsize("BAWS", 26), "BAWS");
    // Accents included: characters are counted, not bytes.
    let long = "Sérveur très très long de Kévin";
    let cut = ellipsize(long, 12);
    assert_eq!(cut.chars().count(), 12);
    assert!(cut.ends_with('…'));
}

#[test]
fn urls_are_shortened_without_breaking_utf8() {
    let url = format!("http://exemple.fr/{}", "é".repeat(80));
    let short = shorten(&url);
    assert!(short.chars().count() < url.chars().count());
    assert!(short.contains('…'));
}

#[test]
fn links_are_separated_from_the_surrounding_text() {
    let parts = split_links("regarde http://a.fr/x puis dis-moi");
    assert_eq!(parts.len(), 3);
    assert_eq!(parts[0], (false, "regarde "));
    assert_eq!(parts[1], (true, "http://a.fr/x"));
    assert_eq!(parts[2], (false, " puis dis-moi"));
    // A message without a link stays in one piece.
    assert_eq!(split_links("salut"), vec![(false, "salut")]);
}

#[test]
fn la_reprise_double_plafonne_et_se_disperse() {
    let attente = |essais: u32, alea: u64| Duration::from_millis(Reprise::attente(essais, alea));

    // Each try waits between half and the whole of its step.
    for (essai, plein) in [(1u32, 1u64), (2, 2), (3, 4), (4, 8), (5, 16), (6, 30)] {
        let plein = Duration::from_secs(plein);
        for alea in [0u64, 1, 12_345, 999_999_999] {
            let d = attente(essai, alea);
            assert!(d <= plein, "essai {essai} : {d:?} dépasse {plein:?}");
            assert!(d >= plein / 2, "essai {essai} : {d:?} sous la moitié de {plein:?}");
        }
    }

    // Past the ceiling, nothing waits any longer.
    for essai in [7u32, 20, Reprise::MAX] {
        assert!(attente(essai, 0) <= Duration::from_millis(Reprise::PLAFOND));
    }

    // And two draws give two waits.
    let a = attente(4, 0);
    let b = attente(4, 3_999);
    assert_ne!(a, b, "deux tirages doivent donner deux attentes");
}

#[test]
fn les_liens_recolles_redonnent_le_texte() {
    for texte in ["", "a", "http://a.fr", "x https://b.fr/é y http://c.fr", "http:// et rien"] {
        let recolle: String = split_links(texte).iter().map(|(_, t)| *t).collect();
        assert_eq!(recolle, texte);
    }
}

#[test]
fn une_adresse_garde_ses_deux_bouts() {
    let url = format!("https://exemple.fr/{}/fin.png", "a".repeat(100));
    let court = shorten(&url);
    assert!(court.starts_with("https://exemple.fr/"));
    assert!(court.ends_with("fin.png"));
    assert_eq!(shorten("https://exemple.fr"), "https://exemple.fr");
}

#[test]
fn la_fin_d_un_texte_se_compte_en_caracteres() {
    assert_eq!(fin_de("abcdé", 2), "dé");
    assert_eq!(fin_de("ab", 5), "ab");
}

#[test]
fn la_base_web_se_deduit_de_l_adresse() {
    assert_eq!(http_base("ts.baws.fun:9987"), "https://ts.baws.fun:8080");
    assert_eq!(http_base("ts.baws.fun"), "https://ts.baws.fun:8080");
    assert_eq!(http_base("[::1]:9987"), "https://[::1]:8080");
    assert_eq!(http_base("::1"), "https://[::1]:8080");
    assert_eq!(http_base("[fe80::2]"), "https://[fe80::2]:8080");
    assert_eq!(http_base("1:2:3:4:5:6:7:8"), "https://[1:2:3:4:5:6:7:8]:8080");
    assert_eq!(http_base("[abc]:80"), "https://[abc]:8080");
    assert_eq!(http_base("a:b:c"), "https://a:b:8080");
    assert_eq!(http_base(" h:1 "), "https://h:8080");
}

#[test]
fn une_adresse_etiquetee_porte_son_etiquette() {
    assert_eq!(adresse_etiquetee(" 127.0.0.1 "), "127.0.0.1 · local");
    assert_eq!(adresse_etiquetee("ts.baws.fun"), "ts.baws.fun");
}

#[test]
fn un_jeton_s_ecrit_en_hexadecimal() {
    assert_eq!(jeton_hexa(0), "0");
    assert_eq!(jeton_hexa(0xdead_beef), "deadbeef");
    assert_eq!(jeton_hexa(u64::MAX), "ffffffffffffffff");
}

#[test]
fn les_heures_ont_deux_chiffres() {
    assert_eq!(ecrire_heure(7, 5), "07:05");
    assert_eq!(ecrire_heure_secondes(23, 0, 9), "23:00:09");
}

#[test]
fn un_instant_s_ecrit_a_l_heure_de_la_machine() {
    // 2024-01-15 12:34:56 UTC; zones are whole quarters of an hour from UTC.
    let ts = 1_705_322_096_000u64;
    let court = format_time(ts);
    let long = format_time_secs(ts);
    assert_eq!(court.len(), 5);
    assert_eq!(long.len(), 8);
    assert_eq!(&long[..5], court);
    assert_eq!(&long[5..], ":56");
    let minutes: u32 = court[3..].parse().unwrap();
    assert_eq!(minutes % 15, 34 % 15);
    // An instant that the calendar does not reach is not written.
    let loin = i64::MAX as u64;
    assert_eq!(format_time(loin), "");
    assert_eq!(format_time_secs(loin), "");
    assert_eq!(day_key(loin), i32::MIN);
    assert_eq!(day_label(loin), "");
}

#[test]
fn les_jours_se_nomment_depuis_aujourd_hui() {
    assert_eq!(nommer_jour(100, 100).as_deref(), Some("Aujourd'hui"));
    assert_eq!(nommer_jour(99, 100).as_deref(), Some("Hier"));
    assert_eq!(nommer_jour(98, 100).as_deref(), Some("08/04/0001"));
    assert_eq!(nommer_jour(101, 100).as_deref(), Some("11/04/0001"));
    assert_eq!(nommer_jour(i32::MAX, 100), None);
    let jour = day_key(1_705_322_096_000);
    assert_eq!(day_key(1_705_322_096_000 + 86_400_000), jour + 1);
    assert_eq!(day_key(1_705_322_096_000 + 10 * 86_400_000), jour + 10);
    // The middle of a day: the same date in every zone but the outermost.
    let dit = day_label(1_705_322_096_000);
    assert!(dit == "15/01/2024" || dit == "16/01/2024", "{dit}");
}

#[test]
fn l_horloge_compte_depuis_1970() {
    assert_eq!(en_ms(None), 0);
    assert_eq!(en_ms(Some((3, 500_000_000))), 3_500);
    // The year 2020 is behind.
    assert!(maintenant_ms() > 1_577_836_800_000);
    assert!(alea() < 1_000_000_000);
    assert_eq!(alea_de(Some((7, 123))), 123);
    assert_eq!(alea_de(None), 0);
}

#[test]
fn les_attentes_suivent_les_essais() {
    assert_eq!(Reprise::attente(1, 0), 500);
    assert_eq!(Reprise::attente(4, 0), 4_000);
    assert_eq!(Reprise::attente(6, 0), 15_000);
    assert_eq!(Reprise::attente(40, 0), 15_000);
    for essai in 1u32..40 {
        assert!(Reprise::attente(essai, 0) <= Reprise::attente(essai + 1, 0));
    }
}

#[test]
fn la_qualite_ne_remonte_jamais_avec_le_delai() {
    for ping in 0u32..400 {
        assert!(quality(ping) >= quality(ping + 1));
    }
}
