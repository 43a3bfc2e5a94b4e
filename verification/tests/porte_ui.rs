//! Doors opened on the web: who knocks, who is in, what can be done.

use ki_client_gui::porte_ui::{
    action_du_bouton, actions_carte, boutons_invite, carte_porte, libelle_duree, lien_complet,
    maintenant_ms, reste_court, reste_texte, slug_normalise, Action, BornesPortes, Bouton, Clic,
    Contexte, Droits, Portes, DUREES, DUREE_DEMANDE, PORTE_TTL_MAX_SECS,
};
use ki_client_gui::protocole::{ChannelInfo, ChannelKind, ClientMsg, DemandeWeb, InviteWeb};

/// Where the numbers of guests start.
const INVITE_ID_BASE: u64 = 1 << 48;

const BORNES: BornesPortes = BornesPortes { slug_min: 3, slug_max: 32, portes_max: 4 };

#[test]
fn le_temps_qui_reste_se_dit_en_unites_humaines() {
    let t = 1_000_000_000;
    assert_eq!(reste_texte(t, t + 5_000), "expirée");
    assert_eq!(reste_texte(t + 40_000, t), "expire dans 40 s");
    assert_eq!(reste_texte(t + 12 * 60_000, t), "expire dans 12 min");
    assert_eq!(reste_texte(t + 65 * 60_000, t), "expire dans 1 h 05");
    assert_eq!(reste_court(250_000), "4 min");
    assert_eq!(reste_court(50_000), "50 s");
}

#[test]
fn un_slug_se_normalise_sans_se_valider() {
    assert_eq!(slug_normalise("  Salon1 ", BORNES.slug_max), "salon1");
    assert_eq!(
        slug_normalise("a".repeat(40).as_str(), BORNES.slug_max).len(),
        BORNES.slug_max
    );
    assert_eq!(slug_normalise("Soiree-Du-Samedi", BORNES.slug_max), "soiree-du-samedi");
    assert_eq!(slug_normalise("salon 1", BORNES.slug_max), "salon 1");
}

#[test]
fn les_demandes_suivent_l_etat_de_la_porte() {
    let mut portes = Portes::new();
    assert!(!portes.disponible);
    assert!(portes.demande("salon1", 7, "Kevin", "82.65.x.x", 0));
    assert!(!portes.demande("salon1", 7, "Kevin", "82.65.x.x", 0), "répétée : pas deux bannières");
    assert!(portes.demande("salon1", 8, "Léa", "", 0));
    assert!(portes.disponible, "un message de porte prouve que le serveur les sert");
    assert!(portes.a_des_demandes(0));

    // The state does not list the 7 any more: someone else answered.
    portes.etat(
        "salon1",
        9,
        vec![InviteWeb {
            invite_id: INVITE_ID_BASE + 1,
            nom: "Kevin (web)".into(),
            depuis: 0,
            vocal: None,
        }],
        vec![DemandeWeb { demande_id: 8, nom: "Léa".into(), depuis: 0 }],
        123,
        None,
    );
    assert_eq!(portes.demandes.len(), 1);
    assert_eq!(portes.demandes[0].demande_id, 8);
    assert_eq!(portes.salon_de("salon1"), Some(9));
    assert_eq!(portes.slug_du_salon(9), Some("salon1"));
    assert!(portes.porte_de_l_invite(INVITE_ID_BASE + 1).is_some());
    assert!(portes.porte_de_l_invite(INVITE_ID_BASE + 2).is_none());

    // Another door leaves it alone.
    portes.etat("autre", 10, Vec::new(), Vec::new(), 0, None);
    assert_eq!(portes.demandes.len(), 1);

    portes.fermee("salon1", "expirée");
    assert!(portes.demandes.is_empty());
    assert_eq!(portes.salon_de("salon1"), None);
    assert_eq!(portes.salon_de("autre"), Some(10));
    assert!(portes.message.as_deref().unwrap().contains("expirée"));
}

#[test]
fn une_vieille_demande_s_efface() {
    let mut portes = Portes::new();
    portes.demande("salon1", 1, "Kevin", "", 0);
    let maintenant = DUREE_DEMANDE + 1_000;
    assert!(!portes.a_des_demandes(maintenant));
    portes.purger(maintenant);
    assert!(portes.est_vide());
}

#[test]
fn un_lien_relatif_se_complete() {
    assert_eq!(lien_complet("https://ts.baws.fun:8080", "/valo"), "https://ts.baws.fun:8080/valo");
    assert_eq!(lien_complet("https://ts.baws.fun:8080/", "valo"), "https://ts.baws.fun:8080/valo");
    assert_eq!(
        lien_complet("https://autre:8080", "https://ts.baws.fun/valo"),
        "https://ts.baws.fun/valo"
    );
    assert_eq!(DUREES[DUREES.len() - 1] * 60, PORTE_TTL_MAX_SECS);
}

#[test]
fn ma_porte_garde_son_lien() {
    let mut portes = Portes::new();
    portes.ouverte("salon1", "https://ts.baws.fun/s/salon1".into(), 9, 5_000);
    assert!(portes.ouvert, "le panneau s'ouvre pour montrer le lien");
    portes.etat("salon1", 9, Vec::new(), Vec::new(), 6_000, None);
    let p = &portes.portes[0];
    assert!(p.mienne);
    assert_eq!(p.url.as_deref(), Some("https://ts.baws.fun/s/salon1"));
    assert_eq!(p.expire_le, 6_000);
    // A state with a new link puts it in its place.
    portes.etat(
        "salon1",
        9,
        Vec::new(),
        Vec::new(),
        6_000,
        Some("https://ts.baws.fun:8080/salon1".into()),
    );
    assert_eq!(portes.portes[0].url.as_deref(), Some("https://ts.baws.fun:8080/salon1"));
    let salons: Vec<ChannelInfo> = Vec::new();
    let sans_droits = Contexte {
        peut_ouvrir: false,
        peut_expulser: false,
        mon_vocal: None,
        salons: &salons,
        base_web: "https://ts.baws.fun:8080".into(),
    };
    assert!(portes.peut_fermer("salon1", &sans_droits), "la mienne, sans permission");
    assert!(!portes.peut_fermer("autre", &sans_droits));
    portes.reinitialiser();
    assert!(portes.est_vide());
    assert!(!portes.disponible);
}

fn salon(id: u64, name: &str) -> ChannelInfo {
    ChannelInfo {
        id,
        name: name.to_string(),
        kind: ChannelKind::Voice,
        position: 0,
        locked: false,
        allowed_roles: None,
    }
}

fn contexte(salons: &[ChannelInfo], mon_vocal: Option<u64>, droits: bool) -> Contexte<'_> {
    Contexte {
        peut_ouvrir: droits,
        peut_expulser: droits,
        mon_vocal,
        salons,
        base_web: "https://ts.baws.fun:8080".to_string(),
    }
}

#[test]
fn repondre_retire_la_banniere_et_part_au_serveur() {
    let mut portes = Portes::new();
    portes.demande("salon1", 7, "Kevin", "82.65.x.x", 0);
    portes.demande("salon1", 8, "Léa", "", 0);
    let bannieres = portes.bannieres(1_000);
    assert_eq!(bannieres.len(), 2);
    assert!(bannieres[0].texte.contains("Kevin"));
    let actions = portes.repondre(0, true);
    assert!(actions.iter().any(|a| matches!(
        a,
        Action::Envoyer(ClientMsg::PorteRepondre { demande_id: 7, accepter: true, .. })
    )));
    assert_eq!(portes.demandes.len(), 1);
    assert_eq!(portes.demandes[0].demande_id, 8);
    // Old ones are not shown any more.
    assert!(portes.bannieres(DUREE_DEMANDE + 1).is_empty());
}

#[test]
fn les_boutons_d_un_invite_suivent_les_droits() {
    let salons = vec![salon(4, "Général")];
    let sans = contexte(&salons, Some(4), false);
    let droits = Droits::de(false, &sans);
    assert!(!droits.agir);
    assert!(!boutons_invite(None, droits, &sans).contains(&Bouton::Expulser));
    // The one who opened the door can show a guest out, whatever the rights.
    let mienne = Droits::de(true, &sans);
    assert!(mienne.agir);
    assert!(boutons_invite(None, mienne, &sans).contains(&Bouton::Expulser));
    let avec = contexte(&salons, Some(4), true);
    let droits = Droits::de(false, &avec);
    assert!(boutons_invite(None, droits, &avec)
        .contains(&Bouton::InviterDansMonVocal { salon: 4 }));
    let ailleurs = contexte(&salons, None, true);
    assert!(boutons_invite(None, droits, &ailleurs).contains(&Bouton::VocalRequis));
    assert!(boutons_invite(Some(4), droits, &avec).contains(&Bouton::SortirDuVocal));
    assert!(matches!(
        action_du_bouton(Bouton::Expulser, 9),
        Some(Action::Envoyer(ClientMsg::PorteExpulser { invite_id: 9 }))
    ));
    assert!(action_du_bouton(Bouton::VocalRequis, 9).is_none());
}

#[test]
fn une_carte_dit_qui_est_la() {
    let mut portes = Portes::new();
    portes.ouverte("valo", "/valo".into(), 4, 600_000);
    portes.etat(
        "valo",
        4,
        vec![InviteWeb { invite_id: 9, nom: "Kevin".into(), depuis: 0, vocal: Some(4) }],
        vec![DemandeWeb { demande_id: 3, nom: "Léa".into(), depuis: 0 }],
        600_000,
        None,
    );
    let salons = vec![salon(4, "Général")];
    let c = contexte(&salons, None, false);
    let carte = carte_porte(&portes.portes[0], &c, 0);
    assert!(carte.titre.contains("valo"));
    assert!(carte.salon.contains("Général"));
    assert_eq!(carte.reste, "expire dans 10 min");
    assert_eq!(carte.lien.as_deref(), Some("/valo"));
    assert_eq!(carte.lignes.len(), 1);
    assert_eq!(carte.lignes[0].nom, "Kevin");
    assert!(carte.agir, "la mienne");
    let droits = Droits::de(true, &c);
    assert!(actions_carte(&portes.portes[0], droits, Clic::Fermer).iter().any(|a| matches!(
        a,
        Action::Envoyer(ClientMsg::PorteFermer { slug }) if slug == "valo"
    )));
    assert!(actions_carte(&portes.portes[0], droits, Clic::Accepter { demande_id: 3 })
        .iter()
        .any(|a| matches!(
            a,
            Action::Envoyer(ClientMsg::PorteRepondre { demande_id: 3, accepter: true, .. })
        )));
}

#[test]
fn le_formulaire_ouvre_ce_qui_est_saisi() {
    let mut portes = Portes::new();
    portes.saisir("  Soiree ", BORNES);
    assert_eq!(portes.slug, "soiree");
    assert!(!portes.peut_ouvrir(false, BORNES));
    assert!(portes.peut_ouvrir(true, BORNES));
    let salons = Vec::new();
    let c = contexte(&salons, None, true);
    assert!(portes.avis_slug(true, BORNES, &c).contains("soiree"));
    assert!(matches!(
        portes.ouvrir(),
        Action::Envoyer(ClientMsg::PorteOuvrir { slug, .. }) if slug == "soiree"
    ));
    assert!(!libelle_duree(DUREES[0]).is_empty());
}

#[test]
fn un_menu_d_invite_connait_sa_porte() {
    let mut portes = Portes::new();
    portes.ouverte("valo", "/valo".into(), 4, 600_000);
    portes.etat(
        "valo",
        4,
        vec![InviteWeb { invite_id: 9, nom: "Kevin".into(), depuis: 0, vocal: None }],
        Vec::new(),
        600_000,
        None,
    );
    let salons = vec![salon(4, "Général")];
    let c = contexte(&salons, Some(4), false);
    assert!(portes.menu_invite(9, None, &c).contains(&Bouton::Expulser));
    assert!(!portes.menu_invite(10, None, &c).contains(&Bouton::Expulser));
    assert_eq!(c.nom_salon(4), "Général");
    assert!(maintenant_ms() > 1_577_836_800_000);
}
