//! Sharing a screen: settings, regulator, frames sent and frames watched.

use ki_client_gui::net::{priorite, Emetteur, FILE_ENVOI};
use ki_client_gui::partage::{
    choix_sources, empreinte_machine, libelle, libelle_hauteur, paliers_encodeur,
    plafonner_hauteur, reglages_ui, Cadence, CaptureSource, Choix, Cran, EncoderChoice,
    MonitorInfo, Reglages, Regulateur, Sources, WindowInfo,
};
use ki_client_gui::scellement::{ouvrir_trame, sceller_trame};
use ki_client_gui::visionnage::{
    cle_de_bascule, delai_attente, images_dues, lire_horloge, son_en_lecture, Attente, Lecteur,
    ATTENTE_MAX, SILENCE_MAX_US,
};
use std::collections::{BTreeMap, HashMap};

#[test]
fn les_crans_de_l_encodeur_descendent_la_cadence_puis_la_hauteur() {
    assert_eq!(paliers_encodeur(1080, 60), vec![(1080, 60), (1080, 30), (720, 30)]);
    assert_eq!(
        paliers_encodeur(1440, 60),
        vec![(1440, 60), (1440, 30), (1080, 30), (720, 30)]
    );
    assert_eq!(paliers_encodeur(1080, 30), vec![(1080, 30), (720, 30)]);
    assert_eq!(paliers_encodeur(720, 60), vec![(720, 60), (720, 30)]);
    // Nothing to go down to: 720p30 and less stay as they are.
    assert_eq!(paliers_encodeur(720, 30), vec![(720, 30)]);
    assert_eq!(paliers_encodeur(480, 30), vec![(480, 30)]);
}

#[test]
fn le_regulateur_descend_apres_cinq_secondes_et_verrouille_une_remontee_ratee() {
    let mut r = Regulateur::new();
    r.crans = Some(paliers_encodeur(1080, 60));
    assert_eq!(r.cran_actuel(), None);
    // Four seconds are not enough, the fifth goes down.
    for _ in 0..4 {
        assert_eq!(r.decider(true), None);
    }
    assert_eq!(r.decider(true), Some(Cran::Descente));
    assert_eq!(r.cran_actuel(), Some((1080, 30)));
    // Fifteen seconds of rest: nothing moves.
    for _ in 0..15 {
        assert_eq!(r.decider(true), None);
    }
    for _ in 0..4 {
        assert_eq!(r.decider(true), None);
    }
    assert_eq!(r.decider(true), Some(Cran::Descente));
    assert_eq!(r.cran_actuel(), Some((720, 30)));
    // At the bottom, saturation goes down no further.
    for _ in 0..40 {
        assert_eq!(r.decider(true), None);
    }
    // Two minutes of calm, and a rise.
    let mut remontee = None;
    for i in 0..200 {
        if let Some(c) = r.decider(false) {
            remontee = Some((i, c));
            break;
        }
    }
    assert_eq!(remontee.map(|(_, c)| c), Some(Cran::Remontee));
    // The rest was spent at the bottom: the 120th second of calm is the one.
    assert_eq!(remontee.map(|(i, _)| i), Some(119));
    assert_eq!(r.cran_actuel(), Some((1080, 30)));
    // The rise saturates at once: down again, and never up any more.
    let redescente: Vec<Cran> = (0..30).filter_map(|_| r.decider(true)).collect();
    assert_eq!(redescente, vec![Cran::Descente]);
    assert_eq!(r.cran_actuel(), Some((720, 30)));
    assert!(r.verrou);
    assert!((0..400).filter_map(|_| r.decider(false)).next().is_none());
}

#[test]
fn une_remontee_qui_tient_une_minute_ne_verrouille_pas_la_suivante() {
    let mut r = Regulateur::new();
    r.crans = Some(paliers_encodeur(1080, 60));
    // Two steps down.
    let descentes: Vec<Cran> = (0..60).filter_map(|_| r.decider(true)).collect();
    assert_eq!(descentes, vec![Cran::Descente, Cran::Descente]);
    // A rise that holds: a minute of calm confirms it, and the saturation after
    // that is an ordinary descent, without a lock.
    let remontee: Vec<Cran> = (0..200).filter_map(|_| r.decider(false)).collect();
    assert_eq!(remontee, vec![Cran::Remontee]);
    assert!(!r.remontee_en_cours);
    let descente: Vec<Cran> = (0..30).filter_map(|_| r.decider(true)).collect();
    assert_eq!(descente, vec![Cran::Descente]);
    assert!(!r.verrou);
    // A second rise is still allowed, a third is not.
    let remontee: Vec<Cran> = (0..200).filter_map(|_| r.decider(false)).collect();
    assert_eq!(remontee, vec![Cran::Remontee]);
    let _ = (0..30).filter_map(|_| r.decider(true)).count();
    assert!((0..400).filter_map(|_| r.decider(false)).next().is_none());
}

#[test]
fn une_remontee_se_confirme_a_la_premiere_seconde_calme_apres_une_minute() {
    let mut r = Regulateur::new();
    r.crans = Some(paliers_encodeur(1080, 60));
    assert_eq!((0..60).filter_map(|_| r.decider(true)).count(), 2);
    while r.decider(false).is_none() {}
    assert!(r.remontee_en_cours);
    // One second in two saturates: never five in a row.
    for i in 0..59 {
        assert_eq!(r.decider(i % 2 == 0), None);
        assert!(r.remontee_en_cours);
    }
    assert_eq!(r.decider(true), None);
    assert!(r.remontee_en_cours, "la soixantième seconde sature");
    assert_eq!(r.decider(false), None);
    assert!(!r.remontee_en_cours);
    assert_eq!((0..30).filter_map(|_| r.decider(true)).count(), 1);
    assert!(!r.verrou);
}

#[test]
fn la_resolution_suit_le_debit() {
    assert_eq!(plafonner_hauteur(0, 720), 720, "« native » prend le plafond");
    assert_eq!(plafonner_hauteur(480, 720), 480, "un réglage plus bas reste");
    assert_eq!(plafonner_hauteur(1080, 720), 720);
}

#[test]
fn la_bascule_de_qualite_attend_une_trame_cle_recente() {
    let mut autre: Attente = BTreeMap::new();
    autre.insert(5, (false, 90, vec![]));
    assert_eq!(cle_de_bascule(&autre, Some(80)), None, "pas sans trame clé");
    autre.insert(6, (true, 100, vec![]));
    assert_eq!(cle_de_bascule(&autre, Some(80)), Some(6));
    assert_eq!(cle_de_bascule(&autre, None), Some(6), "au départ, n'importe laquelle");
    assert_eq!(cle_de_bascule(&autre, Some(150)), None, "périmée : on ne revient pas en arrière");
}

#[test]
fn une_trame_chiffree_fait_l_aller_retour() {
    let key = [9u8; 32];
    // A header of the stream 3 at the frame 41, 1280 by 720.
    let head: [u8; 20] = [1, 0, 0, 3, 0, 0, 0, 0, 0, 41, 0, 15, 66, 64, 0, 2, 5, 0, 2, 208];
    let mut nonce = [0u8; 24];
    nonce[0] = 1;
    nonce[7] = 3;
    nonce[15] = 41;
    let sealed = sceller_trame(&key, &nonce, &head, b"nal factice").unwrap();
    assert_eq!(&sealed[..20], &head);
    assert_eq!(sealed.len(), 20 + 11 + 16);
    assert_ne!(&sealed[20..31], b"nal factice");

    let clair = ouvrir_trame(&key, &nonce, &sealed, 20).unwrap();
    assert_eq!(clair, b"nal factice");

    // A header that was tampered with on the way: refused.
    let mut faux = sealed.clone();
    faux[8] ^= 1;
    assert!(ouvrir_trame(&key, &nonce, &faux, 20).is_none());
    // So is a picture that was, another nonce, another key, or a frame cut short.
    let mut faux = sealed.clone();
    faux[25] ^= 1;
    assert!(ouvrir_trame(&key, &nonce, &faux, 20).is_none());
    assert!(ouvrir_trame(&key, &[0u8; 24], &sealed, 20).is_none());
    assert!(ouvrir_trame(&[8u8; 32], &nonce, &sealed, 20).is_none());
    assert!(ouvrir_trame(&key, &nonce, &sealed[..30], 20).is_none());
    assert!(ouvrir_trame(&key, &nonce, &sealed[..10], 20).is_none());
}

#[test]
fn les_reglages_font_l_aller_retour_par_le_stockage() {
    let r = Reglages {
        source: CaptureSource::Window("Valorant : partie classée".into()),
        max_height: 720,
        fps: 60,
        kbps: 8000,
        cursor: false,
        preview: false,
        encodeur: EncoderChoice::Nvenc,
        son: false,
    };

    let mut cle_valeur: HashMap<String, String> = HashMap::new();
    for (cle, valeur) in r.save() {
        cle_valeur.insert(cle.to_string(), valeur);
    }
    let relu = Reglages::load(|k: &str, d: &str| {
        cle_valeur.get(k).cloned().unwrap_or_else(|| d.to_string())
    });
    assert_eq!(relu, r);

    // An empty store gives the defaults.
    let defaut = Reglages::load(|_: &str, d: &str| d.to_string());
    assert_eq!(defaut, Reglages::default());
    assert_eq!(defaut.meta(7).fps, 30);
    assert_eq!(defaut.config().bitrate_bps, 6_000_000);
}

fn fps(c: &Cadence) -> f32 {
    c.mesure.map_or(0.0, |(trames, _, ms)| trames as f32 * 1000.0 / ms as f32)
}

fn kbps(c: &Cadence) -> f32 {
    c.mesure.map_or(0.0, |(_, octets, ms)| octets as f32 * 8.0 / ms as f32)
}

#[test]
fn la_cadence_se_deduit_des_compteurs() {
    let mut c = Cadence::new(10_000);
    c.relever(10_000, 30, 100_000);
    assert_eq!(fps(&c), 0.0, "pas avant une seconde");
    // The counts start at zero: 60 frames and 300 kB two seconds later make 30
    // frames a second at 1200 kbit/s.
    c.relever(12_000, 60, 300_000);
    assert!((fps(&c) - 30.0).abs() < 1.0, "{}", fps(&c));
    assert!((kbps(&c) - 1200.0).abs() < 50.0, "{}", kbps(&c));
    c.relever(13_000, 5, 1000);
    assert!((fps(&c) - 30.0).abs() < 1.0, "un compteur qui recule garde la dernière mesure");
    c.relever(14_000, 65, 151_000);
    assert!((fps(&c) - 60.0).abs() < 2.0, "et la mesure suivante repart de la nouvelle base");
}

#[test]
fn le_regulateur_dit_ce_qu_il_change() {
    let mut r = Regulateur::new();
    let juger = |delta: u64| (delta > 5, "20.0 ms par trame pour 16.7".to_string());
    // Nothing before a second, nothing before the height is known.
    assert_eq!(r.tick(500, 1080, 60, 0, juger), None);
    assert_eq!(r.tick(1_000, 0, 60, 0, juger), None);
    assert!(r.crans.is_none());
    let mut dits = Vec::new();
    for s in 2..8u64 {
        dits.extend(r.tick(s * 1_000, 1080, 60, s * 10, juger));
    }
    assert_eq!(
        dits,
        vec![
            "l'encodeur ne suivait pas (20.0 ms par trame pour 16.7, 10 trames sautées/s) : \
             la diffusion passe en 1080p30"
                .to_string()
        ]
    );
    for s in 8..200u64 {
        dits.extend(r.tick(s * 1_000, 1080, 60, 70, juger));
    }
    assert_eq!(dits.len(), 2);
    assert_eq!(dits[1], "l'encodeur a de la marge : la diffusion remonte en 1080p60");
    // A broadcast with nothing to go down to is left alone.
    let mut r = Regulateur::new();
    for s in 1..20u64 {
        assert_eq!(r.tick(s * 1_000, 480, 30, s * 100, juger), None);
    }
}

#[test]
fn une_meme_machine_a_toujours_la_meme_empreinte() {
    let a = empreinte_machine("POSTE", "kevin");
    assert_eq!(a, empreinte_machine("POSTE", "kevin"));
    assert_ne!(a, empreinte_machine("POSTE", "lea"));
    assert_ne!(a, empreinte_machine("AUTRE", "kevin"));
}

#[test]
fn les_sources_se_nomment_et_se_perimeront() {
    let mut s = Sources::default();
    assert!(s.perimees(0));
    s.rafraichir(
        vec![MonitorInfo {
            index: 1,
            name: "Dell".into(),
            width: 1920,
            height: 1080,
            primary: true,
        }],
        vec![WindowInfo { title: "Partie".into(), process: "valo.exe".into() }],
        1_000,
    );
    assert!(!s.perimees(1_000));
    let choix = choix_sources(&s);
    assert_eq!(choix.len(), 3);
    assert_eq!(choix[0].0, CaptureSource::Monitor(0));
    assert_eq!(choix[1].0, CaptureSource::Monitor(1));
    assert_eq!(choix[choix.len() - 1].0, CaptureSource::Window("Partie".into()));
    for (source, nom) in &choix {
        assert!(!nom.is_empty());
        assert!(!libelle(source, &s).is_empty());
    }
    assert_eq!(libelle_hauteur(720), "720p");
}

#[test]
fn un_choix_ne_change_que_son_reglage() {
    let mut r = Reglages::default();
    reglages_ui(&mut r, Choix::Hauteur(480));
    reglages_ui(&mut r, Choix::Curseur(!Reglages::default().cursor));
    let attendu = Reglages {
        max_height: 480,
        cursor: !Reglages::default().cursor,
        ..Reglages::default()
    };
    assert_eq!(r, attendu);
}

#[test]
fn l_emetteur_numerote_ses_trames() {
    let mut e = Emetteur::new(3, 77);
    let a = e.en_tete(true, 10, 1280, 720);
    let b = e.en_tete(false, 20, 1280, 720);
    let c = e.en_tete(true, 30, 1280, 720);
    assert_eq!(b.seq, a.seq + 1);
    assert_eq!(c.seq, a.seq + 2);
    assert_eq!(a.group_id, b.group_id);
    assert_eq!(c.group_id, b.group_id + 1);
    assert!(a.idr && !b.idr && a.stream_id == 3);
    // The size is announced once, then when it changes.
    assert_eq!(e.annoncer(1280, 720).map(|m| (m.width, m.height, m.machine)), Some((1280, 720, 77)));
    assert!(e.annoncer(1280, 720).is_none());
    assert!(e.annoncer(1920, 1080).is_some());
}

#[test]
fn une_trame_plus_recente_passe_apres() {
    assert!(priorite(1) > priorite(2));
    assert!(priorite(100) > priorite(101));
}

#[test]
fn le_lecteur_avance_dans_l_ordre() {
    let mut l = Lecteur::new();
    l.recevoir(false, 1, false, 10, vec![1]);
    assert!(l.avancer().is_empty(), "pas avant une trame clé");
    l.recevoir(false, 3, false, 30, vec![3]);
    l.recevoir(false, 2, true, 20, vec![2]);
    let lues: Vec<Vec<u8>> = l.avancer().into_iter().map(|t| t.2).collect();
    assert_eq!(lues, vec![vec![2], vec![3]]);
    // A hole holds the rest back, and what fills it lets it go.
    l.recevoir(false, 5, false, 50, vec![5]);
    assert!(l.avancer().is_empty());
    l.recevoir(false, 4, false, 40, vec![4]);
    let lues: Vec<Vec<u8>> = l.avancer().into_iter().map(|t| t.2).collect();
    assert_eq!(lues, vec![vec![4], vec![5]]);
}

#[test]
fn le_lecteur_bascule_a_une_trame_cle_de_l_autre_qualite() {
    let mut l = Lecteur::new();
    l.recevoir(false, 1, true, 10, vec![1]);
    assert_eq!(l.avancer().len(), 1);
    assert!(!l.sur_basse);
    l.recevoir(true, 8, false, 20, vec![8]);
    assert!(l.avancer().is_empty());
    l.recevoir(true, 9, true, 30, vec![9]);
    let lues: Vec<Vec<u8>> = l.avancer().into_iter().map(|t| t.2).collect();
    assert_eq!(lues, vec![vec![9]]);
    assert!(l.sur_basse);
}

#[test]
fn le_lecteur_n_attend_pas_sans_fin() {
    let mut l = Lecteur::new();
    l.recevoir(false, 1, true, 10, vec![1]);
    assert_eq!(l.avancer().len(), 1);
    // The frame 2 never comes: once too many wait, reading starts again at a key.
    for k in 0..=ATTENTE_MAX as u64 {
        l.recevoir(false, 3 + k, k == 4, 30 + k, vec![k as u8]);
    }
    let lues = l.avancer();
    assert!(!lues.is_empty());
    assert_eq!(lues[0].2, vec![4]);
}

#[test]
fn l_horloge_du_son_s_arrete_au_silence() {
    assert_eq!(lire_horloge(None, 0), None);
    assert_eq!(lire_horloge(Some((1_000, 500)), 700), Some(1_200));
    assert_eq!(lire_horloge(Some((1_000, 0)), SILENCE_MAX_US + 1), None);
    // 20 ms of sound, less 480 samples that wait at 48 kHz: 10 ms further.
    assert_eq!(son_en_lecture(100_000, 480), 110_000);
    assert_eq!(son_en_lecture(0, 48_000), 0);
}

#[test]
fn les_images_attendent_leur_son() {
    assert_eq!(images_dues(&[10_000, 20_000, 90_000], Some(20_000)), 2);
    assert_eq!(images_dues(&[90_000], Some(20_000)), 0);
    // Without sound, nothing is held back.
    assert_eq!(images_dues(&[90_000, 95_000], None), 2);
    assert_eq!(images_dues(&[], Some(0)), 0);
    assert!(delai_attente(0) >= delai_attente(1));
}

#[test]
fn une_file_pleine_exige_une_trame_cle() {
    assert_eq!(FILE_ENVOI, 2);
    let mut e = Emetteur::new(3, 77);
    e.mise_en_file(true);
    assert!(!e.prendre_demande());
    e.mise_en_file(false);
    e.mise_en_file(true);
    assert!(e.cle_exigee, "la demande tient");
    assert!(e.prendre_demande());
    assert!(!e.prendre_demande(), "une fois prise, elle est levée");
}
