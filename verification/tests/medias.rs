//! Shared files: their addresses, their cache, their sheets.

use ki_client_gui::medias::{
    chez_nous, est_video, extension_gardee, looks_like_video, nom_cache, nom_du_fichier, nue,
    taille_annoncee, url_meta, Meta, Purge, Telechargement, PAS_REPEINT,
};
use ki_client_gui::photos::{load, path_of, prune, MAX_FILES};

#[test]
fn video_extensions_are_recognised() {
    assert!(looks_like_video("https://s:8080/files/ab/clip.mp4"));
    assert!(looks_like_video("https://s:8080/files/ab/IMG_0001.MOV?v=1"));
    assert!(!looks_like_video("https://s:8080/files/ab/photo.png"));
    assert!(!looks_like_video("https://s:8080/files/ab/notes.txt#a.mp4"));
}

#[test]
fn the_meta_sits_next_to_the_file() {
    assert_eq!(
        url_meta("https://s:8080/files/0123456789abcdef/clip.mp4").as_deref(),
        Some("https://s:8080/files/0123456789abcdef/meta.json")
    );
    assert_eq!(url_meta("https://s:8080/musique/vignette/x.jpg"), None);
    assert_eq!(
        nom_du_fichier("https://s:8080/files/ab/clip.mp4"),
        "clip.mp4"
    );
}

#[test]
fn a_cache_path_keeps_a_sane_extension_only() {
    let p = nom_cache("https://s:8080/files/ab/clip.mp4");
    assert!(p.ends_with(".mp4"));
    let p = nom_cache("https://s:8080/files/ab/bizarre.tar.gz%20x");
    assert!(p.ends_with(".bin"), "{p}");
    // Two addresses, two files.
    let a = nom_cache("https://s:8080/files/aa/clip.mp4");
    let b = nom_cache("https://s:8080/files/ab/clip.mp4");
    assert_ne!(a, b);
}

/// Purges a directory of files, each with its date and its size, and says which
/// ones are taken away.
fn purger(fichiers: &[(u128, u64)], max: u64) -> Vec<usize> {
    let dates: Vec<u128> = fichiers.iter().map(|f| f.0).collect();
    let tailles: Vec<u64> = fichiers.iter().map(|f| f.1).collect();
    let mut p = Purge::new(&dates, tailles, max);
    let mut retires = Vec::new();
    while let Some(i) = p.suivant() {
        retires.push(i);
        p.noter(true);
    }
    retires
}

#[test]
fn purging_removes_the_oldest_first() {
    // Three files of a hundred bytes, dated 300, 200 and 100 seconds ago.
    let t = 1_000_000u128;
    let retires = purger(&[(t - 300, 100), (t - 200, 100), (t - 100, 100)], 250);
    assert_eq!(retires, vec![0]);
}

#[test]
fn la_purge_suit_les_dates_et_non_l_ordre_du_dossier() {
    assert_eq!(purger(&[(30, 10), (10, 10), (20, 10)], 5), vec![1, 2, 0]);
    assert_eq!(purger(&[(30, 10), (10, 10)], 20), Vec::<usize>::new());
    assert_eq!(purger(&[], 0), Vec::<usize>::new());
}

#[test]
fn un_fichier_qui_resiste_compte_toujours() {
    let mut p = Purge::new(&vec![1, 2], vec![10, 10], 15);
    assert_eq!(p.suivant(), Some(0));
    p.noter(false);
    assert_eq!(p.suivant(), Some(1));
    p.noter(true);
    assert_eq!(p.suivant(), None);
}

#[test]
fn une_adresse_nue_n_a_ni_requete_ni_ancre() {
    assert_eq!(nue("https://s/f.mp4?v=1#t"), "https://s/f.mp4");
    assert_eq!(nue("https://s/f.mp4#a?b"), "https://s/f.mp4");
    assert!(est_video("/x/film.webm"));
    assert!(looks_like_video("/x/Film.WEBM"));
    assert!(!est_video("/x/film"));
}

#[test]
fn une_extension_inconnue_devient_bin() {
    assert_eq!(extension_gardee(Some("mp4".to_string())), "mp4");
    assert_eq!(extension_gardee(None), "bin");
    assert_eq!(extension_gardee(Some("a/b".to_string())), "bin");
}

#[test]
fn un_nom_de_cache_ne_sort_pas_du_dossier() {
    for url in ["https://s/files/ab/..", "https://s/files/ab/a.b/../../x", "é/è.é", ""] {
        let nom = nom_cache(url);
        assert!(!nom.contains('/') && !nom.contains('\\') && !nom.contains(".."), "{nom}");
    }
}

#[test]
fn une_fiche_dit_son_etat() {
    let fiche = |etat: &str| Meta {
        etat: etat.to_string(),
        largeur: 0,
        hauteur: 0,
        poster: None,
        message: None,
    };
    assert!(fiche("pret").prete() && !fiche("pret").en_erreur());
    assert!(fiche("erreur").en_erreur() && !fiche("erreur").prete());
    assert!(!fiche("en_preparation").prete() && !fiche("en_preparation").en_erreur());
}

#[test]
fn un_telechargement_se_redessine_par_pas() {
    assert_eq!(taille_annoncee(Some("1048576")), 1_048_576);
    assert_eq!(taille_annoncee(Some("beaucoup")), 0);
    assert_eq!(taille_annoncee(None), 0);
    let mut t = Telechargement::new(10);
    assert!(!t.recevoir(PAS_REPEINT));
    assert!(t.recevoir(1));
    assert!(!t.recevoir(1));
    assert_eq!(t.recu, PAS_REPEINT + 2);
    t.finir(Some("coupé".to_string()));
    assert!(t.fini);
    assert_eq!(t.erreur.as_deref(), Some("coupé"));
}

#[test]
fn a_malformed_hash_never_designates_a_file() {
    // The fingerprint comes from the network.
    assert!(path_of("../../windows/system32/evil").is_none());
    assert!(path_of("..").is_none());
    assert!(path_of("court").is_none());
    assert!(path_of("zzzzzzzzzzzzzzzz").is_none()); // not hexadecimal
    assert!(path_of("0123456789abcdef0").is_none()); // 17 characters
}

#[test]
fn a_well_formed_hash_stays_inside_the_cache_directory() {
    let nom = path_of("0123456789abcdef").expect("une empreinte bien formée");
    assert_eq!(nom, "0123456789abcdef.png");
    let chemin = std::path::Path::new("cache").join(&nom);
    assert!(chemin.ends_with("0123456789abcdef.png"));
    assert_eq!(chemin.parent(), Some(std::path::Path::new("cache")));
}

#[test]
fn a_missing_photo_reads_as_absent() {
    assert!(load("ffffffffffffffff", |_| None).is_none());
    assert!(load("pas une empreinte", |_| None).is_none());
}

#[test]
fn une_photo_presente_se_lit_sous_son_nom() {
    let lire = |nom: &str| {
        assert_eq!(nom, "00000000000000aa.png");
        Some(vec![1u8, 2, 3])
    };
    assert_eq!(load("00000000000000aa", lire), Some(vec![1, 2, 3]));
    // A malformed fingerprint reads nothing, whatever the disk holds.
    assert_eq!(load("aa", |_| Some(vec![1])), None);
}

#[test]
fn le_cache_des_photos_garde_les_plus_recentes() {
    let dates: Vec<u128> = (0..MAX_FILES as u128 + 3).rev().collect();
    assert_eq!(
        prune(&dates),
        vec![MAX_FILES + 2, MAX_FILES + 1, MAX_FILES]
    );
    assert_eq!(prune(&vec![5; MAX_FILES]), Vec::<usize>::new());
}

#[test]
fn seul_notre_serveur_est_lu() {
    assert!(chez_nous("https://s:8080", "https://s:8080/files/ab/clip.mp4"));
    assert!(!chez_nous("https://s:8080", "https://s:80801/files/ab/clip.mp4"));
    assert!(!chez_nous("https://s:8080", "https://ailleurs.fr/clip.mp4"));
    assert!(!chez_nous("https://s:8080", "https://s:8080"));
}
