//! A session: connecting, losing the connection, reading, talking.

use ki_client_gui::fil::{
    apercu, envoyer_saisie, grouper, hauteur_saisie, EtatRecherche, Sommet, GROUP_WINDOW_MS,
    MESSAGES_MAX,
};
use ki_client_gui::net::{
    empreinte_connue, suite, Accueil, Credentials, Redemarrage, Reveil, Suite, VoiceLink,
    VoiceParams,
};
use ki_client_gui::protocole::{
    Bienvenue, ChannelInfo, ChannelKind, ChatRecord, ClientMsg, Member, RoleInfo, SearchHit,
    ServerInfo, ServerMsg, Vignette,
};
use ki_client_gui::reception::{demander_photos, perms_accordees};
use ki_client_gui::reprise::Reprise;
use ki_client_gui::roster::{fusionner, photos_a_charger, top_role};
use ki_client_gui::session::{
    identite_changee, Effet, Mouvements, Pouvoirs, Session, Son, DELAI_CONNEXION,
};
use ki_client_gui::vocal::{Debit, MicMode, Pertes, BITRATES, DELAI_INTENTION};
use std::collections::BTreeMap;

fn salon(id: u64, kind: ChannelKind) -> ChannelInfo {
    ChannelInfo {
        id,
        name: format!("salon {id}"),
        kind,
        position: 0,
        locked: false,
        allowed_roles: None,
    }
}

fn membre(user_id: u64, username: &str, voice: Option<u64>) -> Member {
    Member {
        user_id,
        username: username.to_string(),
        online: true,
        admin: false,
        rank: 1,
        color: None,
        roles: Vec::new(),
        avatar: None,
        voice,
        speaking: false,
        muted: false,
        force_muted: false,
        force_deafened: false,
    }
}

fn message(user_id: u64, text: &str, ts: u64) -> ChatRecord {
    ChatRecord { user_id, username: format!("u{user_id}"), text: text.to_string(), ts }
}

fn pouvoirs() -> Pouvoirs {
    Pouvoirs { connect_voice: true, send_message: true, ..Pouvoirs::aucun() }
}

fn bienvenue() -> Bienvenue {
    Bienvenue {
        user_id: 1,
        voice_token: 77,
        perms: 3,
        pouvoirs: pouvoirs(),
        rank: 5,
        roles: Vec::new(),
        channels: vec![salon(10, ChannelKind::Voice), salon(20, ChannelKind::Text)],
        server: ServerInfo { name: "BAWS".to_string(), icon: None },
    }
}

fn debit() -> Debit {
    Debit {
        bitrate: 0,
        auto_bitrate: 64_000,
        good_reports: 0,
        dred_mode: 0,
        dred_active: false,
    }
}

/// A session that was let in, as the user 1.
fn connectee() -> Session {
    let mut s = Session::new();
    s.connect(0);
    s.handle_server_msg(&mut debit(), ServerMsg::Welcome(bienvenue()), 100);
    s.handle_server_msg(
        &mut debit(),
        ServerMsg::Members { members: vec![membre(1, "moi", None), membre(2, "Léa", Some(10))] },
        100,
    );
    s
}

fn sons(effets: &[Effet]) -> Vec<Son> {
    effets.iter().filter_map(|e| if let Effet::Son(s) = e { Some(*s) } else { None }).collect()
}

fn envoyes(effets: Vec<Effet>) -> Vec<ClientMsg> {
    effets.into_iter().filter_map(|e| if let Effet::Envoyer(m) = e { Some(m) } else { None }).collect()
}

#[test]
fn une_entree_ouvre_le_premier_salon_textuel() {
    let s = connectee();
    assert!(s.lien.welcomed && !s.lien.connecting);
    assert_eq!(s.moi.id, Some(1));
    assert_eq!(s.fil.current, Some(20));
    assert_eq!(s.vocal.salon, None);
    assert_eq!(s.server_info.name, "BAWS");
    assert_eq!(s.my_pseudo(), Some("moi"));
}

#[test]
fn une_connexion_perdue_se_reprend_a_sa_place() {
    let mut s = connectee();
    s.join_voice(10, 200);
    s.connexion_perdue(Some("coupé".to_string()), 1_000, 0);
    let r = s.reprise.expect("une reprise");
    assert_eq!((r.essais, r.salon, r.vocal), (1, Some(20), Some(10)));
    assert_eq!(r.quand, 1_000 + Reprise::attente(1, 0));
    assert!(s.members.is_empty() && !s.lien.welcomed);
    assert!(!s.tick_reprise(1_000));
    assert!(s.tick_reprise(r.quand));
    s.connect(r.quand);
    s.handle_server_msg(&mut debit(), ServerMsg::Welcome(bienvenue()), r.quand + 10);
    assert_eq!(s.fil.current, Some(20));
    assert_eq!(s.vocal.salon, Some(10));
    assert!(s.reprise.is_none() && s.error.is_none());
}

#[test]
fn une_premiere_connexion_ratee_ne_se_reprend_pas() {
    let mut s = Session::new();
    s.connect(0);
    s.connexion_perdue(Some("injoignable".to_string()), 10, 0);
    assert!(s.reprise.is_none());
    assert_eq!(s.error.as_deref(), Some("injoignable"));
}

#[test]
fn les_reprises_ont_une_fin() {
    let mut s = connectee();
    let mut essais = 0;
    for _ in 0..100 {
        s.connexion_perdue(None, 0, 0);
        match s.reprise {
            Some(r) => essais = r.essais,
            None => break,
        }
    }
    assert_eq!(essais, Reprise::MAX);
    assert!(s.reprise.is_none());
    assert_eq!(s.reprise_dans(0), None);
}

#[test]
fn reessayer_n_attend_plus_et_renoncer_ferme() {
    let mut s = connectee();
    s.connexion_perdue(None, 0, 0);
    s.reessayer(5);
    assert!(s.tick_reprise(5));
    s.renoncer();
    assert!(s.reprise.is_none());
}

#[test]
fn fermer_ne_laisse_rien_du_serveur() {
    let mut s = connectee();
    s.handle_server_msg(&mut debit(), ServerMsg::Chat(message(2, "salut", 10)), 0);
    s.disconnect(None);
    assert!(s.members.is_empty() && s.channels.is_empty() && s.roles.is_empty());
    assert!(s.fil.messages.is_empty() && s.photos.is_empty());
    assert_eq!(s.moi.id, None);
    assert!(!s.lien.connecte && !s.lien.welcomed);
}

#[test]
fn une_connexion_trop_longue_est_abandonnee() {
    let mut s = Session::new();
    s.connect(1_000);
    assert!(s.lien.connecting);
    assert_eq!(s.secondes_de_connexion(1_000), DELAI_CONNEXION / 1000 + 1);
    assert!(s.check_connect_timeout(1_000 + DELAI_CONNEXION - 1, 0).is_empty());
    assert!(s.lien.connecting);
    s.check_connect_timeout(1_001 + DELAI_CONNEXION, 0);
    assert!(!s.lien.connecting && s.error.is_some());
}

#[test]
fn une_identite_changee_donne_l_alarme() {
    assert!(identite_changee("x ApplicationVerificationFailure y"));
    assert!(identite_changee("invalid peer certificate: Expired"));
    assert!(!identite_changee("timeout"));
    let mut s = connectee();
    s.connexion_refusee("invalid peer certificate".to_string(), "ts.fr".to_string(), 0, 0);
    assert_eq!(s.identity_alarm.as_deref(), Some("ts.fr"));
    assert!(s.reprise.is_none());
    let mut s = connectee();
    s.connexion_refusee("timeout".to_string(), "ts.fr".to_string(), 0, 0);
    assert_eq!(s.identity_alarm, None);
    assert!(s.reprise.is_some());
}

#[test]
fn une_deconnexion_garde_l_erreur_deja_dite() {
    let mut s = Session::new();
    s.connect(0);
    s.error = Some("pseudo pris".to_string());
    s.deconnecte(0, 0);
    assert_eq!(s.error.as_deref(), Some("pseudo pris"));
    let mut s = Session::new();
    s.connect(0);
    s.deconnecte(0, 0);
    assert_eq!(s.error.as_deref(), Some("déconnecté du serveur"));
}

#[test]
fn une_expulsion_ferme_la_session() {
    let mut s = connectee();
    s.handle_server_msg(
        &mut debit(),
        ServerMsg::Kicked { reason: "bruit".to_string() },
        0,
    );
    assert!(!s.lien.welcomed && s.reprise.is_none());
    assert!(s.error.as_deref().unwrap().contains("bruit"));
}

#[test]
fn on_ne_redessine_que_ce_qui_bouge() {
    let rien = Mouvements {
        sonde: false,
        voix: false,
        envoi: false,
        telechargement: false,
        peripherique_perdu: false,
    };
    // On the way in, once a second, and faster where something turns.
    let s = Session::new();
    assert_eq!(s.repaint_delay(rien), Some(1_000));
    assert_eq!(s.repaint_delay(Mouvements { sonde: true, ..rien }), Some(50));
    let s = connectee();
    assert_eq!(s.repaint_delay(rien), None);
    assert_eq!(s.repaint_delay(Mouvements { voix: true, ..rien }), Some(50));
    assert_eq!(s.repaint_delay(Mouvements { peripherique_perdu: true, ..rien }), Some(500));
}

#[test]
fn mes_messages_ne_sonnent_pas() {
    let mut s = connectee();
    let e = s.handle_server_msg(&mut debit(), ServerMsg::Chat(message(1, "moi", 10)), 0);
    assert!(sons(&e).is_empty());
    let e = s.handle_server_msg(&mut debit(), ServerMsg::Chat(message(2, "hé @moi", 20)), 0);
    assert_eq!(sons(&e), vec![Son::Message]);
    assert!(s.wants_attention);
    assert_eq!(s.fil.messages.len(), 2);
}

#[test]
fn les_voisins_s_entendent_arriver_et_partir() {
    let mut s = connectee();
    s.join_voice(10, 0);
    let e = s.handle_server_msg(
        &mut debit(),
        ServerMsg::Members {
            members: vec![membre(1, "moi", Some(10)), membre(2, "Léa", Some(10))],
        },
        10,
    );
    assert!(sons(&e).is_empty(), "ceux qui sont déjà là ne sonnent pas");
    let e = s.handle_server_msg(
        &mut debit(),
        ServerMsg::MemberUpdate { member: membre(3, "Kevin", Some(10)) },
        20,
    );
    assert_eq!(sons(&e), vec![Son::PeerJoin]);
    let e = s.handle_server_msg(
        &mut debit(),
        ServerMsg::MemberUpdate { member: membre(3, "Kevin", None) },
        30,
    );
    assert_eq!(sons(&e), vec![Son::PeerLeave]);
    // Looking again plays nothing.
    assert!(sons(&s.update_voice_peers()).is_empty());
    assert_eq!(s.voice_channel_name(), Some("salon 10"));
}

#[test]
fn une_vieille_liste_ne_defait_pas_un_clic() {
    let mut s = connectee();
    s.join_voice(10, 1_000);
    // A list drawn up before the click.
    s.recevoir_liste(vec![membre(1, "moi", None)], 1_000 + DELAI_INTENTION - 1);
    assert_eq!(s.vocal.salon, Some(10));
    // Past the delay the list makes law.
    s.recevoir_liste(vec![membre(1, "moi", None)], 1_000 + DELAI_INTENTION);
    assert_eq!(s.vocal.salon, None);
}

#[test]
fn un_micro_coupe_ou_hors_salon_n_emet_pas() {
    let mut s = connectee();
    assert!(!s.armer(MicMode::Open, true));
    s.join_voice(10, 0);
    assert!(s.armer(MicMode::Open, false));
    assert!(!s.armer(MicMode::Ptt, false));
    assert!(s.armer(MicMode::Ptt, true));
    let e = s.emettre(true);
    assert!(matches!(
        envoyes(e)[..],
        [ClientMsg::VoiceState { speaking: true, muted: false }]
    ));
    assert!(s.emettre(true).is_empty(), "rien de neuf, rien à dire");
    s.basculer_micro();
    assert!(s.vocal.muted);
    assert!(!s.armer(MicMode::Open, true));
}

#[test]
fn les_modes_de_micro_se_relisent() {
    for m in [MicMode::Open, MicMode::Ptt, MicMode::Vad] {
        assert_eq!(MicMode::depuis(m.id()), m);
        assert!(!m.label().is_empty());
    }
}

#[test]
fn quitter_le_vocal_le_dit_au_serveur() {
    let mut s = connectee();
    s.join_voice(10, 0);
    let e = s.leave_voice(10);
    assert!(envoyes(e).iter().any(|m| matches!(m, ClientMsg::LeaveVoice)));
    assert_eq!(s.vocal.salon, None);
}

#[test]
fn un_salon_verrouille_demande_son_mot_de_passe() {
    let mut s = connectee();
    s.join_voice(10, 0);
    s.handle_server_msg(&mut debit(), ServerMsg::VoiceLocked { channel: 10, wrong: false }, 10);
    let p = s.voice_prompt.as_mut().expect("une invite");
    assert!(!p.wrong);
    p.password = "sésame".to_string();
    let e = s.envoyer_mot_de_passe(20);
    assert!(envoyes(e).iter().any(|m| matches!(
        m,
        ClientMsg::JoinVoice { channel: 10, password: Some(p) } if p == "sésame"
    )));
    s.handle_server_msg(&mut debit(), ServerMsg::VoiceLocked { channel: 10, wrong: true }, 30);
    assert!(s.voice_prompt.as_ref().unwrap().wrong);
}

fn pertes(pour_mille: u32) -> Pertes {
    Pertes {
        plus_de_cinq: pour_mille > 50,
        plus_de_deux: pour_mille > 20,
        moins_de_un: pour_mille < 10,
        moins_de_demi: pour_mille < 5,
    }
}

#[test]
fn le_debit_baisse_aux_pertes_et_remonte_a_trois_rapports_propres() {
    let mut d = debit();
    assert!(d.on_net_quality(pertes(80)));
    assert_eq!(d.auto_bitrate, 48_000);
    assert_eq!(d.effective_bitrate(), 48_000);
    assert!(!d.on_net_quality(pertes(0)) || d.auto_bitrate == 48_000);
    d.on_net_quality(pertes(0));
    assert_eq!(d.auto_bitrate, 48_000);
    d.on_net_quality(pertes(0));
    assert_eq!(d.auto_bitrate, 64_000);
    for _ in 0..20 {
        d.on_net_quality(pertes(80));
        assert!(BITRATES.contains(&d.auto_bitrate));
    }
    assert_eq!(d.auto_bitrate, 24_000);
    // A lossy report starts the count over, at the lowest notch too.
    let mut d = Debit { bitrate: 0, auto_bitrate: 24_000, good_reports: 0, ..debit() };
    for p in [0, 0, 100, 0] {
        d.on_net_quality(pertes(p));
        assert_eq!(d.auto_bitrate, 24_000);
    }
    assert_eq!(d.good_reports, 1);
    d.on_net_quality(pertes(0));
    assert_eq!(d.auto_bitrate, 24_000);
    assert!(d.on_net_quality(pertes(0)));
    assert_eq!(d.auto_bitrate, 32_000);
    // The protection: never, when losses ask for it, always.
    assert_eq!(Debit { dred_mode: 0, dred_active: true, ..debit() }.dred(100), 0);
    assert_eq!(Debit { dred_mode: 1, dred_active: true, ..debit() }.dred(100), 100);
    assert_eq!(Debit { dred_mode: 1, dred_active: false, ..debit() }.dred(100), 0);
    assert_eq!(Debit { dred_mode: 2, dred_active: false, ..debit() }.dred(100), 100);
    // A rate that was chosen stays.
    let mut d = Debit { bitrate: 96_000, dred_mode: 1, dred_active: false, ..debit() };
    d.on_net_quality(pertes(80));
    assert_eq!(d.effective_bitrate(), 96_000);
    // And its protection goes after three clean reports.
    assert!(d.dred_active);
    for _ in 0..2 {
        d.on_net_quality(pertes(0));
        assert!(d.dred_active);
    }
    assert!(d.on_net_quality(pertes(0)));
    assert!(!d.dred_active);
    assert_eq!(d.effective_bitrate(), 96_000);
}

#[test]
fn un_salon_disparu_se_quitte() {
    let mut s = connectee();
    s.join_voice(10, 0);
    s.handle_server_msg(
        &mut debit(),
        ServerMsg::ChannelsUpdated { channels: vec![salon(30, ChannelKind::Text)] },
        10,
    );
    assert_eq!(s.vocal.salon, None);
    assert_eq!(s.fil.current, Some(30));
}

#[test]
fn le_fil_est_borne() {
    let mut s = connectee();
    for ts in 0..MESSAGES_MAX as u64 + 5 {
        s.handle_server_msg(&mut debit(), ServerMsg::Chat(message(2, "x", ts)), 0);
    }
    assert_eq!(s.fil.messages.len(), MESSAGES_MAX);
    assert_eq!(s.fil.messages[MESSAGES_MAX - 1].ts, MESSAGES_MAX as u64 + 4);
}

#[test]
fn une_page_ne_montre_rien_deux_fois() {
    let mut s = connectee();
    s.handle_server_msg(
        &mut debit(),
        ServerMsg::History { messages: vec![message(2, "b", 20), message(2, "c", 30)] },
        0,
    );
    s.fil.history_more = true;
    let e = s.load_older_history();
    assert!(matches!(
        envoyes(e)[..],
        [ClientMsg::HistoryBefore { before_ts: 20, channel: 20, .. }]
    ));
    assert!(s.load_older_history().is_empty(), "une demande à la fois");
    s.handle_server_msg(
        &mut debit(),
        ServerMsg::HistoryPage {
            messages: vec![message(2, "a", 10), message(2, "b", 20)],
            more: false,
            channel: 20,
        },
        0,
    );
    let ts: Vec<u64> = s.fil.messages.iter().map(|m| m.ts).collect();
    assert_eq!(ts, vec![10, 20, 30]);
    assert_eq!(s.fil.sommet(), Sommet::Debut);
    // A page for a channel that was left is ignored.
    s.handle_server_msg(
        &mut debit(),
        ServerMsg::HistoryPage { messages: vec![message(2, "z", 1)], more: false, channel: 99 },
        0,
    );
    assert_eq!(s.fil.messages.len(), 3);
}

#[test]
fn les_messages_proches_se_groupent() {
    let m = vec![
        message(1, "a", 0),
        message(1, "b", GROUP_WINDOW_MS - 1),
        message(2, "c", GROUP_WINDOW_MS),
        message(2, "d", 3 * GROUP_WINDOW_MS),
        message(2, "e", 3 * GROUP_WINDOW_MS + 1),
    ];
    let l = grouper(&m, &vec![1, 1, 1, 1, 2]);
    assert_eq!(l.iter().map(|x| x.en_tete).collect::<Vec<_>>(), [true, false, true, true, true]);
    assert_eq!(
        l.iter().map(|x| x.jour_change).collect::<Vec<_>>(),
        [true, false, false, false, true]
    );
}

#[test]
fn ce_qui_se_tape_part_rogne() {
    let mut saisie = "  salut \n".to_string();
    assert!(matches!(
        envoyer_saisie(&mut saisie),
        Some(ClientMsg::Chat { text }) if text == "salut"
    ));
    assert_eq!(saisie, "");
    let mut vide = "  ".to_string();
    assert!(envoyer_saisie(&mut vide).is_none());
    assert_eq!(hauteur_saisie("a"), 1);
    assert!(hauteur_saisie("a\nb\nc") == 3);
    assert!(!apercu("un message").is_empty());
}

#[test]
fn une_recherche_ignore_les_vieilles_reponses() {
    let mut s = connectee();
    s.ouvrir_recherche();
    s.recherche.query = "chat".to_string();
    let e = s.lancer_recherche(50);
    assert!(matches!(envoyes(e)[..], [ClientMsg::Search { .. }]));
    assert_eq!(s.recherche.etat(), EtatRecherche::EnCours);
    s.resultats("chien", vec![SearchHit { channel: 20, record: message(2, "chien", 5) }], false);
    assert!(s.recherche.hits.is_empty());
    s.resultats("chat", vec![SearchHit { channel: 20, record: message(2, "chat", 5) }], false);
    assert_eq!(s.recherche.hits.len(), 1);
    assert_eq!(s.recherche.etat(), EtatRecherche::Liste);
    let e = s.sauter_a(20, 5);
    assert!(!e.is_empty());
    assert!(s.fil.hors_du_present());
    s.revenir_au_present();
    assert!(!s.fil.hors_du_present());
}

#[test]
fn les_resultats_se_montrent_du_plus_recent_au_plus_ancien() {
    let mut s = connectee();
    assert!(s.recherche.ordre_affiche().is_empty());
    s.recherche.query = "chat".to_string();
    s.lancer_recherche(50);
    let hits =
        (1..=3).map(|t| SearchHit { channel: 20, record: message(2, "chat", t) }).collect();
    s.resultats("chat", hits, false);
    assert_eq!(s.recherche.ordre_affiche(), vec![2, 1, 0]);
}

#[test]
fn sans_droit_d_ecrire_pas_de_saisie() {
    let mut s = connectee();
    s.moi.pouvoirs.send_message = true;
    s.moi.pouvoirs.upload_file = false;
    assert_eq!(s.saisie_permise(), Ok(()));
    assert!(!s.envoi_permis());
    s.moi.pouvoirs.upload_file = true;
    assert!(s.envoi_permis());
    s.moi.pouvoirs.send_message = false;
    assert_eq!(s.saisie_permise(), Err("Tu n'as pas le droit d'écrire dans ce serveur."));
    assert!(!s.envoi_permis());
}

#[test]
fn une_fiche_prend_sa_place_dans_l_alphabet() {
    let mut v = vec![membre(1, "ana", None), membre(2, "zoe", None)];
    fusionner(&mut v, membre(3, "Marc", None));
    assert_eq!(v.iter().map(|m| m.user_id).collect::<Vec<_>>(), [1, 3, 2]);
    fusionner(&mut v, membre(2, "zoe", Some(10)));
    assert_eq!(v.len(), 3);
    assert_eq!(v[2].voice, Some(10));
}

#[test]
fn une_photo_a_jour_ne_se_recharge_pas() {
    let mut photos = BTreeMap::new();
    let mut m = membre(2, "Léa", None);
    m.avatar = Some("aa".to_string());
    let v = vec![m];
    assert_eq!(photos_a_charger(&mut photos, &v), vec![(2, "aa".to_string())]);
    photos.insert(2, "aa".to_string());
    assert!(photos_a_charger(&mut photos, &v).is_empty());
    assert!(demander_photos(vec![]).is_none());
    assert!(matches!(
        demander_photos(vec![2]),
        Some(ClientMsg::RequestAvatars { user_ids }) if user_ids == [2]
    ));
}

#[test]
fn une_photo_recue_se_garde_ou_s_oublie() {
    let mut s = connectee();
    let e = s.recevoir_photo(2, "bb".to_string(), Vignette::Valide(vec![1]));
    assert!(e.iter().any(|e| matches!(e, Effet::GarderPhoto { user_id: 2, .. })));
    s.montrer_photo(2, "bb".to_string());
    assert_eq!(s.photos.get(&2).map(String::as_str), Some("bb"));
    let e = s.recevoir_photo(2, String::new(), Vignette::Aucune);
    assert!(e.iter().any(|e| matches!(e, Effet::OublierPhoto(2))));
    assert!(s.photos.is_empty());
    assert!(s.recevoir_photo(2, "cc".to_string(), Vignette::Invalide).is_empty());
}

#[test]
fn le_meilleur_role_fait_l_insigne() {
    let role = |id: u64, rank: u16| RoleInfo {
        id,
        name: format!("r{id}"),
        color: None,
        rank,
        perms: 0,
        system: false,
    };
    let roles = vec![role(1, 1), role(2, 9), role(3, 5)];
    assert_eq!(top_role(&roles, &vec![1, 3]).map(|r| r.id), Some(3));
    assert_eq!(top_role(&roles, &vec![3, 2, 1]).map(|r| r.id), Some(2));
    assert!(top_role(&roles, &vec![7]).is_none());
    assert!(connectee().outranks(4) && !connectee().outranks(5));
}

#[test]
fn un_administrateur_a_toutes_les_permissions() {
    assert_eq!(perms_accordees(0, true, 128, 3), 128);
    assert_eq!(perms_accordees(0, false, 128, 3), 3);
    assert_eq!(perms_accordees(5, false, 128, 3), 5);
}

#[test]
fn seul_le_dernier_redemarrage_s_installe() {
    let mut l = VoiceLink::new();
    let p = VoiceParams { user_id: 1, key: [7; 32] };
    l.connecter();
    assert_eq!(
        l.accueillir(1, Some([7; 32])),
        Accueil::Refaire { ancien: false, params: p }
    );
    l.installer_accueil();
    assert!(l.moteur);
    assert_eq!(l.accueillir(1, Some([7; 32])), Accueil::Conserver);
    assert_eq!(l.accueillir(1, None), Accueil::CleInvalide);
    let a = l.restart_voice();
    let b = l.restart_voice();
    assert_eq!(l.retirer(a), Redemarrage::Renoncer);
    let r = l.retirer(b);
    assert!(r != Redemarrage::Renoncer, "{r:?}");
    assert!(!l.installer(a));
    assert!(l.installer(b));
    // A cut keeps the engine, and the welcome that follows keeps it too.
    l.couper();
    assert!(l.moteur && !l.connexion);
    l.connecter();
    assert_eq!(l.accueillir(1, Some([7; 32])), Accueil::Conserver);
    // A stop for good lets no start through that was on its way.
    let c = l.restart_voice();
    assert!(l.arreter());
    assert!(!l.installer(c));
    assert!(!l.moteur && !l.aiguillage);
}

#[test]
fn une_connexion_qui_finit_le_dit() {
    assert_eq!(suite(Reveil::Message), Suite::Transmettre);
    assert_eq!(suite(Reveil::Fin), Suite::Perdue);
    assert_eq!(suite(Reveil::Quitter), Suite::Fermer);
    assert_eq!(suite(Reveil::Envoi { parti: true }), Suite::Continuer);
    assert_eq!(suite(Reveil::Envoi { parti: false }), Suite::Perdue);
}

#[test]
fn une_empreinte_vide_n_est_pas_connue() {
    let mut c = Credentials {
        username: "moi".to_string(),
        password: String::new(),
        invite: None,
        fingerprint: String::new(),
    };
    assert_eq!(empreinte_connue(&c), None);
    c.fingerprint = "ab".to_string();
    assert_eq!(empreinte_connue(&c), Some("ab"));
}
