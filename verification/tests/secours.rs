//! Crashes, restarts, what is told of them, and the files that leave.

use ki_client_gui::diagnostic::{
    adresse_journal, assembler, copier_journal, fichier_accepte, fichier_liste, lignes,
    partie_montree, nom_envoye, partager_fichier, Partage, CADENCE_MS, FICHIER_MAX,
};
use ki_client_gui::protocole::ClientMsg;
use ki_client_gui::rangs::{
    catalogue, manquants, preparer, trouver, Image, Preparation, DERNIER, PREMIER,
};
use ki_client_gui::secours::{
    a_archiver, borner_rapport, decision_relance, entree_crash, essais_dans, garder_fin,
    rapport_a_envoyer, RAPPORT_ENVOI_MAX, RAPPORT_MAX, RELANCES_MAX,
};

fn args(liste: &[&str]) -> Vec<String> {
    liste.iter().map(|s| s.to_string()).collect()
}

#[test]
fn le_compteur_se_lit_des_arguments() {
    assert_eq!(essais_dans(&args(&["ki-chat.exe"])), 0);
    assert_eq!(essais_dans(&args(&["ki-chat.exe", "--relance", "2"])), 2);
    // Damaged or cut short: zero, never a budget made up.
    assert_eq!(essais_dans(&args(&["ki-chat.exe", "--relance", "beaucoup"])), 0);
    assert_eq!(essais_dans(&args(&["ki-chat.exe", "--relance"])), 0);
}

#[test]
fn une_session_saine_remet_le_budget_a_neuf() {
    // Half an hour: whatever came before, the error is a new one.
    let longue = 30 * 60 * 1000;
    assert_eq!(decision_relance(0, longue), Some(1));
    assert_eq!(decision_relance(RELANCES_MAX, longue), Some(1));
}

#[test]
fn les_echecs_immediats_epuisent_le_budget() {
    let aussitot = 3_000;
    assert_eq!(decision_relance(0, aussitot), Some(1));
    assert_eq!(decision_relance(1, aussitot), Some(2));
    // The third death in a row hands over.
    assert_eq!(decision_relance(2, aussitot), None);
}

#[test]
fn le_rapport_de_plantage_ne_part_qu_une_fois_et_seulement_sa_fin() {
    // No file: nothing to send.
    assert!(rapport_a_envoyer(None, "").is_none());

    // A huge crash: only its end leaves.
    let long = format!("{}la vraie fin", "x".repeat(2 * RAPPORT_ENVOI_MAX));
    let (tampon, texte) =
        rapport_a_envoyer(Some(("1700", long.as_bytes())), "").expect("un rapport à envoyer");
    assert!(texte.len() <= RAPPORT_ENVOI_MAX);
    assert!(texte.ends_with("la vraie fin"));

    // Sent already: the same stamp does not leave again.
    assert!(rapport_a_envoyer(Some(("1700", long.as_bytes())), &tampon).is_none());

    // A new crash makes the file younger: it leaves.
    assert!(rapport_a_envoyer(Some(("1720", b"nouveau plantage")), &tampon).is_some());
}

/// Adds an entry to a crash report, as it is done on disk.
fn consigner(rapport: &mut Vec<u8>, quoi: &str) {
    *rapport = borner_rapport(rapport);
    rapport.extend_from_slice(entree_crash("1700", quoi).as_bytes());
}

#[test]
fn les_plantages_s_empilent_dans_le_rapport_sans_l_enfler() {
    let mut rapport = Vec::new();
    consigner(&mut rapport, "premier");
    consigner(&mut rapport, "second");
    let texte = String::from_utf8(rapport.clone()).expect("lecture");
    assert!(texte.contains("premier") && texte.contains("second"));
    assert_eq!(texte.matches("==== CRASH ").count(), 2);

    // A report past its bound is brought back to its end before it grows.
    let mut rapport = vec![b'x'; RAPPORT_MAX + 1];
    consigner(&mut rapport, "après la borne");
    assert!(rapport.len() < RAPPORT_MAX);
    assert!(String::from_utf8(rapport).expect("lecture").contains("après la borne"));
}

#[test]
fn le_journal_s_archive_au_dela_du_seuil() {
    assert!(!a_archiver("court".len() as u64, 100));
    assert!(a_archiver(200, 100));
    assert!(!a_archiver(100, 100));
}

#[test]
fn une_fin_ne_coupe_pas_un_caractere() {
    assert_eq!(garder_fin("abcé", 2), "é");
    assert_eq!(garder_fin("abcé", 1), "");
    assert_eq!(garder_fin("abc", 10), "abc");
}

#[test]
fn un_rapport_abime_se_lit_quand_meme() {
    let (_, texte) = rapport_a_envoyer(Some(("1", b"a\xffb")), "").expect("un rapport");
    assert_eq!(texte, "a\u{fffd}b");
}

#[test]
fn un_envoi_attend_son_tour() {
    let mut p = Partage::new();
    assert!(p.maybe_flush_diag(true, true, 1_000));
    assert!(!p.maybe_flush_diag(true, true, 1_000 + CADENCE_MS));
    assert!(p.maybe_flush_diag(true, true, 1_001 + CADENCE_MS));
    assert!(!p.maybe_flush_diag(false, true, 10 * CADENCE_MS));
    assert!(!p.maybe_flush_diag(true, false, 10 * CADENCE_MS));
}

#[test]
fn une_ligne_du_journal_ne_part_pas_deux_fois() {
    let mut p = Partage::new();
    let journal = vec![(10, "ligne \"un\"\n".to_string()), (20, "deux".to_string())];
    let lot = p.flush_diag(&journal, false, 30, ("1.0", "linux", "x64"), None).expect("un lot");
    // Quotes and line ends are escaped.
    assert!(lot.contains("\"ligne \\\"un\\\"\\n\""), "{lot}");
    assert!(lot.contains("\"deux\""));
    let journal = vec![(20, "deux".to_string()), (40, "trois".to_string())];
    let lot = p.flush_diag(&journal, false, 50, ("1.0", "linux", "x64"), None).expect("un lot");
    assert!(!lot.contains("deux") && lot.contains("trois"));
    assert_eq!(p.flush_diag(&journal, false, 60, ("1.0", "linux", "x64"), None), None);
}

#[test]
fn un_lot_rate_repart_avec_le_cumul() {
    let mut p = Partage::new();
    let machine = ("1.0", "linux", "x64");
    let un = vec![(10, "un".to_string())];
    p.flush_diag(&un, false, 15, machine, None).expect("un lot");
    let depuis = p.last_sent_ts;
    let mut journal = vec![(10, "un".to_string()), (20, "deux".to_string())];
    p.flush_diag(&journal, false, 30, machine, None).expect("un lot");
    assert_eq!(p.last_sent_ts, 20);
    p.remettre(depuis);
    assert_eq!(p.last_sent_ts, 10);
    journal.push((40, "trois".to_string()));
    let lot = p.flush_diag(&journal, false, 50, machine, None).expect("un lot");
    assert!(!lot.contains("\"un\"") && lot.contains("deux") && lot.contains("trois"), "{lot}");
    p.remettre(99);
    assert_eq!(p.last_sent_ts, 40, "rien n'est sauté");
}

#[test]
fn un_fichier_trop_gros_ne_part_pas() {
    assert!(fichier_accepte(FICHIER_MAX).is_ok());
    assert_eq!(fichier_accepte(FICHIER_MAX + 1), Err("fichier trop gros (25 Mo max)"));
    assert_eq!(nom_envoye("été 2024/a.png"), "été_2024_a.png");
}

#[test]
fn un_fichier_envoye_se_partage_par_son_adresse() {
    let base = "https://s:8080";
    let r = partager_fichier(base, "{\"url\":\"/files/ab/x.png\"}");
    assert!(matches!(r, Ok(ClientMsg::Chat { text }) if text == "https://s:8080/files/ab/x.png"));
    assert_eq!(partager_fichier(base, "{\"url\":3}").unwrap_err(), "réponse invalide");
    assert_eq!(partager_fichier(base, "[]").unwrap_err(), "réponse invalide");
    assert!(!partager_fichier(base, "pas du json").unwrap_err().is_empty());
}

#[test]
fn le_catalogue_donne_les_icones_du_dernier_jeu() {
    let corps = "{\"data\":[{\"tiers\":[{\"tier\":3,\"smallIcon\":\"https://x/vieux.png\"}]},\
                 {\"tiers\":[\
                 {\"tier\":3,\"smallIcon\":\"https://media.valorant-api.com/3.png\"},\
                 {\"tier\":4,\"smallIcon\":null},\
                 {\"smallIcon\":\"https://media.valorant-api.com/sans.png\"},\
                 {\"tier\":5,\"smallIcon\":\"https://ailleurs/5.png\"}]}]}";
    let c = catalogue(corps).expect("un catalogue");
    assert_eq!(
        c,
        vec![
            (3, "https://media.valorant-api.com/3.png".to_string()),
            (5, "https://ailleurs/5.png".to_string()),
        ]
    );
    assert_eq!(trouver(&c, 3), Some("https://media.valorant-api.com/3.png"));
    // An address elsewhere is not trusted.
    assert_eq!(trouver(&c, 5), None);
    assert_eq!(trouver(&c, 4), None);
    assert_eq!(catalogue("{\"data\":[]}").unwrap_err(), "catalogue vide");
    assert_eq!(catalogue("{}").unwrap_err(), "catalogue vide");
    assert_eq!(catalogue("{\"data\":[{}]}").unwrap(), vec![]);
    assert!(catalogue("<html>").is_err());
}

#[test]
fn les_icones_se_cherchent_une_seule_fois() {
    let mut lance = false;
    assert_eq!(preparer(5, false, Image::Inconnue, &mut lance), Preparation::Lancer);
    assert!(lance);
    assert_eq!(preparer(6, false, Image::Inconnue, &mut lance), Preparation::Rien);
    assert_eq!(preparer(5, false, Image::Prete, &mut lance), Preparation::Monter);
    assert_eq!(preparer(5, true, Image::Prete, &mut lance), Preparation::Rien);
    assert_eq!(preparer(5, false, Image::Ratee, &mut lance), Preparation::Rien);
    let mut lance = false;
    assert_eq!(preparer(DERNIER + 1, false, Image::Inconnue, &mut lance), Preparation::Rien);
    assert!(!lance);
    let mut disque = vec![true; 25];
    disque[0] = false;
    disque[24] = false;
    assert_eq!(manquants(&disque), vec![PREMIER, DERNIER]);
}

#[test]
fn un_journal_se_copie_ligne_par_ligne() {
    let heures = vec!["08:00:01".to_string(), "08:00:02".to_string()];
    let journal = vec![(1, "ouvert".to_string()), (2, "perdu".to_string())];
    assert_eq!(copier_journal(&heures, &journal), "08:00:01 ouvert\n08:00:02 perdu\n");
    assert_eq!(copier_journal(&vec![], &vec![]), "");
}

#[test]
fn les_diagnostics_se_rassemblent_sous_leur_ligne() {
    assert_eq!(lignes("a\tx\r\nb\n"), vec!["a\tx", "b"]);
    assert_eq!(lignes("a\n\nb\r"), vec!["a", "", "b\r"]);
    assert_eq!(lignes(""), Vec::<&str>::new());
    assert_eq!(fichier_liste("kevin.log\t12 ko"), "kevin.log");
    assert_eq!(fichier_liste("kevin.log"), "kevin.log");
    assert_eq!(
        adresse_journal("https://s:8080", "kevin.log"),
        "https://s:8080/diag/kevin.log?tail=65536"
    );
    let liste = "kevin.log\t1\nlea.log\t2\n";
    let contenus = vec![Ok("tout va\n".to_string()), Err("404".to_string())];
    assert_eq!(
        assembler(liste, &lignes(liste), &contenus),
        "\n===== kevin.log\t1 =====\ntout va\n\n===== lea.log\t2 =====\n(illisible : 404)\n"
    );
    assert!(assembler(" \n", &vec![], &vec![]).starts_with("aucun diagnostic"));
    let long = "é".repeat(30_000);
    assert_eq!(partie_montree(&long).chars().count(), 20_001);
    assert_eq!(partie_montree("court"), "court");
}
