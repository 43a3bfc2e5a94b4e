//! Menus, the administration panel, the book of servers, the settings.

use ki_client_gui::accueil::{
    action_ligne, bouton_connexion, etat_serveur, server_label, Reach, RowAction,
};
use ki_client_gui::admin::{
    acteur, audit_label, audit_tone, ban_summary, couleur_rgb, deplacer_salon, detail_ban,
    etat_invite, libelle_ban, libelle_verrou, mot_de_passe_valable, onglets, permission_offerte,
    regler_permission, restreint_a, revoquer, texte_invitation, EtatInvite, TonAction, BAN_SECS,
    VERROU_SECS,
};
use ki_client_gui::brouillons::{AdminTab, ChannelDraft};
use ki_client_gui::carnet::{dernier_utilise, Carnet, Formulaire, Server, ServerDraft};
use ki_client_gui::menus::{
    cocher, destinations, partition, peripheriques_de_repli, peripheriques_perdus,
    roles_par_rang, salons_de_nature, sanction_dans_la_barre, sanction_sur_autre,
    sanction_sur_moi, voice_occupants, ClicMembre, EtatMicro,
};
use ki_client_gui::protocole::{
    AccountInfo, ChannelInfo, ChannelKind, ClientMsg, IconChange, InviteInfo, Member, RoleInfo,
};
use ki_client_gui::ptt::PttKey;
use ki_client_gui::reglages::{
    ecrire_noms, etat_des_sons, libelle_bruit, libelle_debit, libelle_gigue, libelle_protection,
    libelle_son, lire_noms, Preferences, Reglage,
};
use ki_client_gui::session::{Effet, Pouvoirs, Session, Son};
use ki_client_gui::texte::{
    chercher, couper_a, couper_fin, egal, lire_i32, lire_nombre, prendre, rogner, separer,
    vient_avant,
};
use ki_client_gui::vocal::MicMode;
use std::collections::HashMap;

fn salon(id: u64, kind: ChannelKind) -> ChannelInfo {
    ChannelInfo {
        id,
        name: format!("salon {id}"),
        kind,
        position: id as u32,
        locked: false,
        allowed_roles: None,
    }
}

fn membre(user_id: u64, rank: u16, online: bool) -> Member {
    Member {
        user_id,
        username: format!("u{user_id}"),
        online,
        admin: false,
        rank,
        color: None,
        roles: vec![1],
        avatar: None,
        voice: Some(10),
        speaking: false,
        muted: false,
        force_muted: false,
        force_deafened: false,
    }
}

fn compte(username: &str, rank: u16) -> AccountInfo {
    AccountInfo {
        user_id: 4,
        username: username.to_string(),
        online: false,
        admin: false,
        rank,
        roles: vec![1, 2],
        banned: false,
        ban_until: None,
        ban_reason: String::new(),
        ban_by: String::new(),
    }
}

fn tous() -> Pouvoirs {
    Pouvoirs {
        administrator: true,
        manage_server: true,
        manage_channels: true,
        manage_roles: true,
        kick: true,
        ban: true,
        create_invite: true,
        view_audit_log: true,
        reset_password: true,
        mute_members: true,
        move_members: true,
        connect_voice: true,
        send_message: true,
        upload_file: true,
    }
}

/// A session of the user 1, with every power, at the rank 10.
fn session() -> Session {
    let mut s = Session::new();
    s.moi.id = Some(1);
    s.moi.rank = 10;
    s.moi.pouvoirs = tous();
    s.members = vec![membre(1, 10, true), membre(2, 3, true), membre(3, 10, false)];
    s.channels = vec![salon(10, ChannelKind::Voice), salon(20, ChannelKind::Text)];
    s.roles = vec![RoleInfo {
        id: 1,
        name: "membre".to_string(),
        color: None,
        rank: 1,
        perms: 0,
        system: false,
    }];
    s
}

fn envoyes(effets: Vec<Effet>) -> Vec<ClientMsg> {
    effets.into_iter().filter_map(|e| if let Effet::Envoyer(m) = e { Some(m) } else { None }).collect()
}

#[test]
fn on_n_agit_pas_sur_son_rang_ni_au_dessus() {
    let s = session();
    let menu = s.member_menu(&s.members[1]);
    assert!(menu.expulser && menu.bannir && menu.sanctionner && menu.roles && menu.deplacer);
    let menu = s.member_menu(&s.members[2]);
    assert!(!menu.expulser && !menu.bannir && !menu.sanctionner && !menu.roles);
}

#[test]
fn un_clic_de_menu_part_au_serveur() {
    let mut s = session();
    let m = membre(2, 3, true);
    assert!(matches!(
        envoyes(s.cliquer_membre(&m, ClicMembre::CouperMicro))[..],
        [ClientMsg::AdminVoiceMute { muted: true, .. }]
    ));
    let mut coupe = membre(2, 3, true);
    coupe.force_muted = true;
    assert!(matches!(
        envoyes(s.cliquer_membre(&coupe, ClicMembre::CouperMicro))[..],
        [ClientMsg::AdminVoiceMute { muted: false, .. }]
    ));
    assert!(matches!(
        envoyes(s.cliquer_membre(&m, ClicMembre::Role { id: 2, coche: true }))[..],
        [ClientMsg::AdminSetUserRoles { ref roles, .. }] if roles[..] == [1, 2]
    ));
    assert!(s.cliquer_membre(&m, ClicMembre::Bannir).is_empty());
    assert_eq!(s.ban_draft.as_ref().map(|b| b.username.as_str()), Some("u2"));
    s.ban_draft.as_mut().unwrap().duration_secs = 3600;
    assert!(matches!(
        envoyes(s.confirmer_ban())[..],
        [ClientMsg::AdminBan { duration_secs: 3600, .. }]
    ));
    assert!(s.ban_draft.is_none());
}

#[test]
fn cocher_ne_touche_que_son_role() {
    assert_eq!(cocher(&vec![1, 2], 3, true), vec![1, 2, 3]);
    assert_eq!(cocher(&vec![1, 2], 1, false), vec![2]);
    assert_eq!(cocher(&vec![1, 2], 9, false), vec![1, 2]);
}

#[test]
fn les_listes_se_partagent() {
    let s = session();
    assert_eq!(salons_de_nature(&s.channels, ChannelKind::Text), vec![1]);
    assert_eq!(partition(&s.members, true), vec![0, 1]);
    assert_eq!(partition(&s.members, false), vec![2]);
    let mut la = voice_occupants(&s.members, 10);
    la.sort();
    assert!(la.contains(&0) && la.contains(&1));
    assert!(voice_occupants(&s.members, 99).is_empty());
    assert_eq!(destinations(&s.channels, Some(10)), Vec::<u64>::new());
    assert_eq!(destinations(&s.channels, None), vec![10]);
}

#[test]
fn les_roles_se_rangent_du_plus_haut_au_plus_bas() {
    let role = |id: u64, rank: u16| RoleInfo {
        id,
        name: String::new(),
        color: None,
        rank,
        perms: 0,
        system: false,
    };
    assert_eq!(roles_par_rang(&vec![role(1, 2), role(2, 9), role(3, 5)]), vec![1, 2, 0]);
}

#[test]
fn l_etat_du_micro_se_dit() {
    let mut s = session();
    assert_eq!(s.etat_micro(), EtatMicro::HorsVocal);
    assert_eq!(s.etat_micro().texte(), "Hors vocal");
    s.vocal.salon = Some(10);
    assert_eq!(s.etat_micro(), EtatMicro::Pret);
    s.vocal.transmitting = true;
    assert_eq!(s.etat_micro(), EtatMicro::Emission);
    s.vocal.muted = true;
    assert_eq!(s.etat_micro(), EtatMicro::Coupe);
    assert_eq!(s.etat_micro().aide(), "Réactiver le micro");
    assert_eq!(s.pied(), "micro coupé");
    assert_eq!(s.detail_vocal(MicMode::Ptt, "F5"), "salon 10 · touche F5");
    assert_eq!(s.detail_vocal(MicMode::Open, "F5"), "salon 10");
    assert!(s.ligne_vocale(&s.members[0], true).is_me);
    assert!(!s.ligne_roster(&s.members[1], false).is_me);
}

#[test]
fn les_sanctions_se_disent() {
    assert_eq!(sanction_sur_moi(true, false), "un modérateur t'a coupé le micro");
    assert_eq!(sanction_sur_moi(false, false), "gérer mon compte");
    assert_eq!(sanction_sur_autre(false, false), None);
    assert_eq!(
        sanction_sur_autre(true, true),
        Some("micro coupé et rendu sourd par un modérateur")
    );
    assert_eq!(sanction_dans_la_barre(false, true), Some("rendu sourd par un modérateur"));
    assert_eq!(peripheriques_perdus(true, true), Some("Micro et sortie audio perdus"));
    assert_eq!(peripheriques_perdus(false, false), None);
    assert_eq!(peripheriques_de_repli(true, false, false), Some("Le micro réglé"));
    assert_eq!(peripheriques_de_repli(true, false, true), None);
}

#[test]
fn un_clic_sur_un_salon_le_rejoint() {
    let mut s = session();
    let e = envoyes(s.cliquer_salon(20, ChannelKind::Text, 0));
    assert!(e.iter().any(|m| matches!(m, ClientMsg::Join { channel: 20 })));
    let e = envoyes(s.cliquer_salon(10, ChannelKind::Voice, 0));
    assert!(e.iter().any(|m| matches!(m, ClientMsg::JoinVoice { channel: 10, .. })));
    assert_eq!(s.vocal.salon, Some(10));
    s.vocal.armed = true;
    s.vocal.transmitting = true;
    s.vocal.voisins.push(2);
    let avant = s.vocal.loopback;
    let e = envoyes(s.cliquer_salon(10, ChannelKind::Voice, 5_000));
    assert!(matches!(e.as_slice(), [ClientMsg::LeaveVoice]));
    assert_eq!(s.vocal.salon, None);
    assert!(!s.vocal.armed && !s.vocal.transmitting && s.vocal.voisins.is_empty());
    assert_eq!(s.vocal.intention, Some(None));
    assert_eq!(s.vocal.loopback, avant);
}

#[test]
fn un_onglet_demande_son_pouvoir() {
    assert_eq!(onglets(&tous()).len(), AdminTab::ALL.len());
    assert!(onglets(&Pouvoirs::aucun()).is_empty());
    assert!(!Pouvoirs::aucun().any_admin_power() && tous().any_admin_power());
    let kick = Pouvoirs { kick: true, ..Pouvoirs::aucun() };
    assert!(AdminTab::Members.needs(&kick) && !AdminTab::Server.needs(&kick));
    let mut s = session();
    s.admin.tab = AdminTab::Server;
    s.admin.rester_permis(&kick);
    assert_eq!(s.admin.tab, AdminTab::Members);
    assert!(matches!(
        s.admin.ouvrir_onglet(AdminTab::Audit),
        Some(ClientMsg::AdminAuditLog { .. })
    ));
    assert_eq!(AdminTab::Audit.label(), "Journal");
}

#[test]
fn un_salon_se_cree_et_se_modifie() {
    let mut s = session();
    let mut d = ChannelDraft::new();
    assert!(!d.pret());
    d.name = " Jeux ".to_string();
    assert!(d.pret());
    d.restricted = true;
    d.cocher(5, true);
    s.admin.channel_draft = Some(d);
    assert!(matches!(
        s.admin.creer_salon(),
        Some(ClientMsg::AdminCreateChannel { ref name, allowed_roles: Some(ref r), .. })
            if name == "Jeux" && r[..] == [5]
    ));
    s.admin.modifier_salon(&salon(20, ChannelKind::Text));
    let e = s.admin.channel_edit.as_mut().unwrap();
    e.draft.name = "Blabla".to_string();
    assert!(matches!(
        s.admin.enregistrer_salon(),
        Some(ClientMsg::AdminEditChannel { channel }) if channel.id == 20 && channel.name == "Blabla"
    ));
}

#[test]
fn un_verrou_se_pose_et_se_retire() {
    let mut s = session();
    s.admin.modifier_verrou(&salon(10, ChannelKind::Voice));
    let v = s.admin.verrou_draft.as_mut().unwrap();
    v.mot_de_passe = "sésame".to_string();
    v.ttl_secs = VERROU_SECS[1];
    assert!(matches!(
        s.admin.poser_verrou(),
        Some(ClientMsg::AdminSetVoicePassword { channel: 10, password: Some(_), ttl_secs: 3600 })
    ));
    s.admin.modifier_verrou(&salon(10, ChannelKind::Voice));
    assert!(matches!(
        s.admin.retirer_verrou(true),
        Some(ClientMsg::AdminSetVoicePassword { password: None, .. })
    ));
    assert_eq!(libelle_verrou(3600), Some("1 heure"));
    assert_eq!(libelle_verrou(1), None);
}

#[test]
fn un_salon_se_deplace_sans_en_perdre() {
    let v = vec![
        salon(1, ChannelKind::Text),
        salon(2, ChannelKind::Text),
        salon(3, ChannelKind::Text),
    ];
    assert!(matches!(
        deplacer_salon(&v, 1, true),
        Some(ClientMsg::AdminReorderChannels { order }) if order == [2, 1, 3]
    ));
    assert!(matches!(
        deplacer_salon(&v, 1, false),
        Some(ClientMsg::AdminReorderChannels { order }) if order == [1, 3, 2]
    ));
    assert!(deplacer_salon(&v, 0, true).is_none());
    assert!(deplacer_salon(&v, 2, false).is_none());
}

#[test]
fn une_permission_ne_s_accorde_que_si_on_l_a() {
    assert!(permission_offerte(true, false, 4, 8));
    assert!(!permission_offerte(false, false, 4, 8));
    assert!(!permission_offerte(true, true, 8, 8));
    assert_eq!(regler_permission(0b0101, 0b0010, true), 0b0111);
    assert_eq!(regler_permission(0b0111, 0b0010, false), 0b0101);
    assert_eq!(couleur_rgb(0x12, 0x34, 0x56), 0x0012_3456);
}

#[test]
fn un_role_se_cree_sous_mon_rang() {
    let mut s = session();
    assert_eq!(s.plafond_rang(), 9);
    s.nouveau_role(0x00ff_0000, 3);
    let d = s.admin.role_draft.as_mut().unwrap();
    d.name = "Modo".to_string();
    assert!(matches!(
        s.admin.enregistrer_role(),
        Some(ClientMsg::AdminCreateRole { ref name, perms: 3, .. }) if name == "Modo"
    ));
    let role = |rank: u16, system: bool| RoleInfo {
        id: 7,
        name: "r".to_string(),
        color: None,
        rank,
        perms: 0,
        system,
    };
    assert!(s.peut_supprimer_role(&role(9, false)));
    assert!(!s.peut_supprimer_role(&role(10, false)));
    assert!(!s.peut_supprimer_role(&role(1, true)));
    assert!(s.attribuable(&role(9, false), 0) && !s.attribuable(&role(10, false), 0));
    assert!(restreint_a(&role(1, false), 0));
    s.admin.modifier_role(&role(5, false), 0);
    assert!(matches!(s.admin.enregistrer_role(), Some(ClientMsg::AdminEditRole { .. })));
}

#[test]
fn un_compte_se_gere() {
    let mut s = session();
    let a = compte("u4", 3);
    let b = s.boutons_compte(&a);
    assert!(b.roles && b.bannir && !b.debannir && b.mot_de_passe);
    let b = s.boutons_compte(&compte("u9", 10));
    assert!(!b.roles && !b.bannir && !b.mot_de_passe);
    s.bannir_compte(&a);
    assert_eq!(s.ban_draft.as_ref().map(|d| d.username.as_str()), Some("u4"));
    s.admin.viser_roles(&a);
    s.admin.cocher_role(2, false);
    assert!(matches!(
        s.admin.fermer_roles(true),
        Some(ClientMsg::AdminSetUserRoles { roles, .. }) if roles == [1]
    ));
    s.admin.viser_roles(&a);
    assert!(s.admin.fermer_roles(false).is_none());
    s.admin.viser_mot_de_passe(&a);
    s.admin.reset_password = "secret1".to_string();
    assert!(matches!(
        s.admin.fermer_mot_de_passe(true),
        Some(ClientMsg::AdminResetPassword { .. })
    ));
    assert!(mot_de_passe_valable("123456") && !mot_de_passe_valable("12345"));
    assert!(mot_de_passe_valable("ééé"), "on compte des octets");
    assert!(!mot_de_passe_valable("éé"));
}

#[test]
fn un_ban_se_resume() {
    let mut a = compte("u4", 3);
    a.banned = true;
    assert_eq!(ban_summary(&a, 0), "banni");
    a.ban_until = Some(60_000 * 45);
    assert_eq!(ban_summary(&a, 0), "banni — 45 min");
    assert_eq!(ban_summary(&a, 60_000 * 45), "banni — expire");
    a.ban_until = Some(3_600_000 * 5);
    assert_eq!(ban_summary(&a, 0), "banni — 5 h");
    a.ban_until = Some(86_400_000 * 3);
    assert_eq!(ban_summary(&a, 0), "banni — 3 j");
    assert_eq!(libelle_ban(BAN_SECS[4]), Some("Définitif"));
    assert_eq!(libelle_ban(5), None);
    assert_eq!(detail_ban(&a, "", ""), None);
    a.ban_reason = "spam".to_string();
    assert_eq!(detail_ban(&a, "spam", "").as_deref(), Some("spam"));
    a.ban_by = "zoe".to_string();
    assert_eq!(detail_ban(&a, "spam", "zoe").as_deref(), Some("spam — par zoe"));
}

#[test]
fn une_invitation_dit_son_etat() {
    let i = |uses_left: Option<u32>, revoked: bool| InviteInfo {
        code: "abc".to_string(),
        label: String::new(),
        uses_left,
        uses: 0,
        revoked,
    };
    assert_eq!(etat_invite(&i(None, false)), EtatInvite::Permanente);
    assert_eq!(etat_invite(&i(Some(3), false)), EtatInvite::Restant(3));
    assert_eq!(etat_invite(&i(Some(3), true)), EtatInvite::Revoquee);
    assert!(revoquer(&i(None, true)).is_none());
    assert!(matches!(
        revoquer(&i(None, false)),
        Some(ClientMsg::AdminRevokeInvite { code }) if code == "abc"
    ));
    assert_eq!(texte_invitation("ts.fr", "abc"), "serveur : ts.fr  |  code d'invitation : abc");
    let mut s = session();
    s.admin.invite_uses = Some(2);
    assert!(matches!(
        s.admin.creer_invitation(),
        ClientMsg::AdminCreateInvite { uses: Some(2), .. }
    ));
}

#[test]
fn le_journal_se_lit() {
    assert_eq!(audit_label("member.kick"), "expulsion");
    assert_eq!(audit_label("autre.chose"), "autre.chose");
    assert_eq!(audit_tone("member.ban"), TonAction::Danger);
    assert_eq!(audit_tone("invite.use"), TonAction::Accent);
    assert_eq!(audit_tone("server.info"), TonAction::Ordinaire);
    assert_eq!(acteur(""), "le serveur");
    assert_eq!(acteur("zoe"), "zoe");
}

#[test]
fn l_identite_du_serveur_se_change() {
    let mut s = session();
    s.server_info.name = "BAWS".to_string();
    s.admin.name = "BAWS".to_string();
    assert!(!s.identite_prete(32), "rien de changé");
    s.admin.name = "Kora".to_string();
    assert!(s.identite_prete(32));
    assert!(matches!(
        s.appliquer_identite(32),
        Some(ClientMsg::AdminSetServerInfo { name: Some(n), .. }) if n == "Kora"
    ));
    s.icone_choisie(Err("illisible".to_string()));
    assert_eq!(s.error.as_deref(), Some("image illisible : illisible"));
    s.icone_choisie(Ok("data".to_string()));
    assert_eq!(s.icone_prevue(), Some("data"));
}

#[test]
fn un_compte_change_son_mot_de_passe() {
    let mut s = session();
    s.compte.old_password = "ancien".to_string();
    s.compte.new_password = "court".to_string();
    assert!(!s.compte.pret());
    assert!(s.compte.changer_mot_de_passe().is_none());
    s.compte.new_password = "nouveau".to_string();
    assert!(s.compte.pret());
    assert!(matches!(
        s.compte.changer_mot_de_passe(),
        Some(ClientMsg::ChangePassword { new_password, .. }) if new_password == "nouveau"
    ));
    assert!(s.compte.enregistrer_photo().is_none());
    s.photo_choisie(Ok("png".to_string()));
    assert!(matches!(
        s.compte.enregistrer_photo(),
        Some(ClientMsg::SetAvatar { avatar: IconChange::Replace { data } }) if data == "png"
    ));
}

#[test]
fn echap_ferme_ce_qui_est_ouvert() {
    let mut s = session();
    s.basculer_reglages();
    assert!(s.show_settings);
    s.echap(false);
    assert!(!s.show_settings);
    s.basculer_admin();
    assert!(s.admin.ouvert);
    s.echap(false);
    assert!(!s.admin.ouvert);
}

fn serveur(id: u64, address: &str, last_used: u64) -> Server {
    Server {
        id,
        name: format!("serveur {id}"),
        address: address.to_string(),
        username: "moi".to_string(),
        secret: None,
        last_used,
        server_name: String::new(),
        cert_fingerprint: String::new(),
        icon: None,
    }
}

fn formulaire(url: &str) -> Formulaire {
    Formulaire {
        url: url.to_string(),
        username: "moi".to_string(),
        password: "secret".to_string(),
        remember_password: false,
        invite: String::new(),
    }
}

#[test]
fn le_carnet_s_ouvre_sur_le_dernier_utilise() {
    let v = vec![serveur(1, "a.fr", 5), serveur(2, "b.fr", 9), serveur(3, "c.fr", 7)];
    assert_eq!(dernier_utilise(&v), Some(2));
    assert_eq!(dernier_utilise(&vec![]), None);
}

#[test]
fn la_premiere_empreinte_fait_foi() {
    let mut c = Carnet { book: vec![serveur(1, "a.fr", 5)], selected: Some(1) };
    c.retenir_empreinte("a.fr", "aa");
    c.retenir_empreinte("a.fr", "bb");
    assert_eq!(c.book[0].cert_fingerprint, "aa");
    assert_eq!(c.identifiants(&formulaire("a.fr")).fingerprint, "aa");
    c.oublier_empreinte("a.fr");
    assert_eq!(c.book[0].cert_fingerprint, "");
}

#[test]
fn un_serveur_s_ajoute_se_choisit_et_se_retire() {
    let mut c = Carnet { book: vec![serveur(1, "a.fr", 5)], selected: None };
    let mut f = formulaire("");
    let mut d = ServerDraft::new();
    assert!(!d.valide());
    d.address = " b.fr ".to_string();
    assert!(d.valide());
    let id = c.commit_draft(&d, 42);
    assert_eq!(id, 42);
    assert_eq!(c.book.len(), 2);
    assert_eq!(c.book[1].address, "b.fr");
    let mut erreur = Some("injoignable".to_string());
    assert!(!c.select_server(&mut f, &mut erreur, 7, None));
    assert_eq!(erreur.as_deref(), Some("injoignable"));
    assert!(c.select_server(&mut f, &mut erreur, 42, None));
    assert_eq!(erreur, None, "changer de serveur efface l'erreur");
    assert_eq!(f.url, "b.fr");
    assert_eq!(c.active_server().map(|s| s.id), Some(42));
    assert!(c.pret(&f, false) || f.username.is_empty());
    assert!(!c.pret(&f, true));
    assert_eq!(c.delete_server(&mut f, 42), Some(1), "le premier qui reste est à choisir");
    assert_eq!(c.book.len(), 1);
    assert!(c.book.iter().all(|s| s.id != 42));
    let mut d = ServerDraft::edit(&c.book[0]);
    d.name = "Chez moi".to_string();
    assert_eq!(c.commit_draft(&d, 99), 1);
    assert_eq!(c.book[0].name, "Chez moi");
}

#[test]
fn une_connexion_reussie_se_retient() {
    let mut c = Carnet { book: vec![serveur(1, "a.fr", 5)], selected: Some(1) };
    c.remember_connection("lea", Some("coffre".to_string()), 77);
    assert_eq!(c.book[0].username, "lea");
    assert_eq!(c.book[0].last_used, 77);
    assert_eq!(c.book[0].secret.as_deref(), Some("coffre"));
    assert!(c.cache_server_identity("BAWS", Some("icone")));
    assert!(!c.cache_server_identity("BAWS", Some("icone")), "rien de neuf");
    assert_eq!(c.book[0].server_name, "BAWS");
}

#[test]
fn les_preferences_se_relisent() {
    let mut p = Preferences::load(|_: &str, d: &str| d.to_string(), 1);
    p.regler(Reglage::Mode(MicMode::Ptt));
    p.regler(Reglage::Touche(PttKey::F5));
    p.regler(Reglage::Debit(48_000));
    p.regler(Reglage::Gigue(usize::MAX));
    p.regler(Reglage::Son { son: Son::Message, actif: false });
    p.regler(Reglage::Micro(Some("Casque".to_string())));
    assert!(!p.play_sfx(Son::Message) && p.play_sfx(Son::Mute));
    let magasin: HashMap<String, String> =
        p.save().into_iter().map(|(k, v)| (k.to_string(), v)).collect();
    let q = Preferences::load(
        |k: &str, d: &str| magasin.get(k).cloned().unwrap_or_else(|| d.to_string()),
        1,
    );
    assert_eq!(q.mode, MicMode::Ptt);
    assert_eq!(q.ptt_key, PttKey::F5);
    assert_eq!(q.debit.bitrate, 48_000);
    assert_eq!(q.jitter_frames, usize::MAX);
    assert_eq!(q.pref_input.as_deref(), Some("Casque"));
    assert_eq!(q.sfx_muted, p.sfx_muted);
    assert!(!q.play_sfx(Son::Message));
    let mut q = q;
    q.regler(Reglage::Son { son: Son::Message, actif: true });
    assert!(q.play_sfx(Son::Message));
    q.regler(Reglage::Sons(false));
    assert!(!q.play_sfx(Son::Mute));
}

#[test]
fn des_noms_se_rangent_dans_un_texte() {
    let v = vec!["join".to_string(), "mute".to_string()];
    assert_eq!(lire_noms(&ecrire_noms(&v)), v);
    assert_eq!(lire_noms(""), Vec::<String>::new());
}

#[test]
fn les_reglages_se_nomment() {
    assert_eq!(libelle_debit(48_000), "48 kbps");
    assert_eq!(libelle_debit(-1_500), "-1 kbps");
    assert_eq!(libelle_debit(-500), "0 kbps");
    assert_eq!(libelle_debit(i32::MIN), "-2147483 kbps");
    assert!(!libelle_protection(0).is_empty());
    assert_ne!(libelle_bruit(0, 0, 2), libelle_bruit(2, 0, 2));
    assert_eq!(libelle_gigue(0), "Auto (adaptatif)");
    assert_eq!(libelle_gigue(3), "60 ms");
    assert!(!etat_des_sons(7, 0, true).is_empty());
    assert!(!libelle_son(Son::Mute).is_empty());
    assert!(Son::Mute.fichier() != Son::Unmute.fichier());
}

#[test]
fn l_accueil_dit_ou_l_on_en_est() {
    let e = etat_serveur(Reach::Online { ping_ms: 41 });
    assert_eq!((e.texte.as_str(), e.barres, e.chiffre), ("41 ms", Some(3), true));
    assert_eq!(etat_serveur(Reach::Offline).barres, Some(0));
    assert_eq!(etat_serveur(Reach::Probing).texte, "test…");
    assert_eq!(etat_serveur(Reach::Unknown).texte, "non testé");
    assert_eq!(action_ligne(true, true), RowAction::Edit);
    assert_eq!(action_ligne(false, true), RowAction::Select);
    assert_eq!(action_ligne(false, false), RowAction::Rien);
    assert_eq!(server_label(None, " ts.fr "), "ts.fr");
    assert_eq!(bouton_connexion(Some("BAWS")), "Se connecter à BAWS");
    assert_eq!(bouton_connexion(None), "Se connecter");
    let mut s = Session::new();
    s.connect(0);
    assert_eq!(s.bouton_annuler(0), "Connexion…  ✕  (21 s)");
    assert_eq!(s.banniere_reprise(0), None);
    s.repondre_comms(true);
    assert!(s.info.as_deref().unwrap().contains("communications"));
    s.identity_alarm = Some("ts.fr".to_string());
    assert_eq!(s.accepter_identite().as_deref(), Some("ts.fr"));
    assert!(s.identity_alarm.is_none());
}

#[test]
fn les_textes_se_coupent_et_se_lisent() {
    assert!(egal("é", "é") && !egal("e", "é"));
    assert_eq!(rogner("\u{a0} a b \n"), "a b");
    assert_eq!(prendre("éàü", 2), "éà");
    assert_eq!(lire_nombre("0042", 100), Some(42));
    assert_eq!(lire_nombre("101", 100), None);
    assert_eq!(lire_nombre("-1", 100), None);
    assert_eq!(lire_i32("-2147483648"), Some(i32::MIN));
    assert_eq!(lire_i32("2147483648"), None);
    assert_eq!(couper_a("a:b:c", ':'), Some(("a", "b:c")));
    assert_eq!(couper_fin("a:b:c", ':'), Some(("a:b", "c")));
    assert_eq!(separer("a,,b", ','), vec!["a", "", "b"]);
    assert_eq!(chercher(&"abcabc".chars().collect(), "ca", 0), Some(2));
    assert!(vient_avant("ana", "bob") && !vient_avant("bob", "ana"));
}
