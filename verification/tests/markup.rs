//! Reading a message: blocks, styles, links and mentions.

use ki_client_gui::markup::{decouper, me_mentionne, Bloc, Fragment};

fn lignes<'a>(texte: &'a str, membres: &[&str]) -> Vec<Vec<Fragment<'a>>> {
    decouper(texte, membres, Some("moi"))
        .into_iter()
        .filter_map(|b| match b {
            Bloc::Ligne(f) => Some(f),
            Bloc::Code(_) => None,
        })
        .collect()
}

#[test]
fn le_texte_ordinaire_reste_entier() {
    let l = lignes("bonjour tout le monde", &[]);
    assert_eq!(l, vec![vec![Fragment::Texte("bonjour tout le monde")]]);
}

#[test]
fn gras_italique_et_code() {
    let l = lignes("un **gras** et *penché* et `du code`", &[]);
    assert_eq!(
        l[0],
        vec![
            Fragment::Texte("un "),
            Fragment::Gras("gras"),
            Fragment::Texte(" et "),
            Fragment::Italique("penché"),
            Fragment::Texte(" et "),
            Fragment::Code("du code"),
        ]
    );
}

#[test]
fn une_etoile_isolee_reste_une_etoile() {
    for brut in ["3 * 4 = 12", "un * seul", "**", "* ", "a ** b"] {
        let l = lignes(brut, &[]);
        let plat: String = l[0]
            .iter()
            .map(|f| match f {
                Fragment::Texte(t) => *t,
                _ => "<BALISE>",
            })
            .collect();
        assert_eq!(plat, brut, "« {brut} » ne doit pas être interprété");
    }
}

#[test]
fn le_code_litteral_protege_son_contenu() {
    let l = lignes("écris `**ceci**` pour du gras", &[]);
    assert_eq!(l[0][1], Fragment::Code("**ceci**"));
}

#[test]
fn les_liens_sortent_de_la_ponctuation() {
    let l = lignes("va sur https://exemple.fr/page. Merci", &[]);
    assert_eq!(l[0][1], Fragment::Lien("https://exemple.fr/page"));
    assert_eq!(l[0][2], Fragment::Texte(". Merci"));
}

#[test]
fn une_mention_ne_vaut_que_pour_un_pseudo_connu() {
    let membres = ["marie", "moi"];
    let l = lignes("salut @marie et @inconnu", &membres);
    assert_eq!(l[0][1], Fragment::Mention { pseudo: "marie", moi: false });
    assert_eq!(l[0][2], Fragment::Texte(" et @inconnu"));
}

#[test]
fn la_mention_la_plus_longue_gagne() {
    let membres = ["marie", "marie-claire"];
    let l = lignes("coucou @marie-claire", &membres);
    assert_eq!(l[0][1], Fragment::Mention { pseudo: "marie-claire", moi: false });
}

#[test]
fn une_mention_ne_deborde_pas_sur_le_mot_suivant() {
    let l = lignes("bonjour @mariette", &["marie"]);
    assert_eq!(l[0], vec![Fragment::Texte("bonjour @mariette")]);
}

#[test]
fn ma_propre_mention_se_distingue() {
    let membres = ["marie", "moi"];
    assert!(me_mentionne("hé @moi regarde", &membres, "moi"));
    assert!(me_mentionne("hé @MOI regarde", &membres, "moi"));
    assert!(!me_mentionne("hé @marie regarde", &membres, "moi"));
    assert!(!me_mentionne("```\n@moi\n```", &membres, "moi"));
}

#[test]
fn les_blocs_de_code_gardent_leurs_lignes() {
    let blocs = decouper("avant\n```\nligne 1\nligne 2\n```\naprès", &[], None);
    assert_eq!(blocs.len(), 3);
    assert_eq!(blocs[0], Bloc::Ligne(vec![Fragment::Texte("avant")]));
    assert_eq!(blocs[1], Bloc::Code("ligne 1\nligne 2"));
    assert_eq!(blocs[2], Bloc::Ligne(vec![Fragment::Texte("après")]));
}

#[test]
fn un_bloc_jamais_referme_prend_ce_qui_suit() {
    let blocs = decouper("regarde ```du code", &[], None);
    assert_eq!(blocs.last(), Some(&Bloc::Code("du code")));
}

#[test]
fn le_multiligne_donne_une_ligne_par_ligne() {
    let blocs = decouper("un\ndeux\r\ntrois", &[], None);
    assert_eq!(blocs.len(), 3);
    assert_eq!(blocs[1], Bloc::Ligne(vec![Fragment::Texte("deux")]));
}

#[test]
fn les_caracteres_multioctets_ne_sont_jamais_coupes() {
    for brut in [
        "élève à l'école",
        "🎧 casque 🎤 micro",
        "**émoji 🚀 gras**",
        "`café` et `thé`",
        "@élodie salut",
    ] {
        let blocs = decouper(brut, &["élodie"], None);
        let plat: String = blocs
            .iter()
            .map(|b| match b {
                Bloc::Code(c) => (*c).to_string(),
                Bloc::Ligne(f) => f
                    .iter()
                    .map(|f| match f {
                        Fragment::Texte(t) | Fragment::Lien(t) => (*t).to_string(),
                        Fragment::Code(t) => format!("`{t}`"),
                        Fragment::Gras(t) => format!("**{t}**"),
                        Fragment::Italique(t) => format!("*{t}*"),
                        Fragment::Mention { pseudo, .. } => format!("@{pseudo}"),
                    })
                    .collect(),
            })
            .collect();
        assert_eq!(plat, brut, "« {brut} » n'est pas rendu à l'identique");
    }
}

#[test]
fn un_lien_colle_a_une_parenthese_s_arrete_avant() {
    let l = lignes("(voir http://a.fr/x)", &[]);
    assert_eq!(
        l[0],
        vec![
            Fragment::Texte("(voir "),
            Fragment::Lien("http://a.fr/x"),
            Fragment::Texte(")"),
        ]
    );
}

#[test]
fn un_texte_vide_ne_donne_rien_a_interpreter() {
    let blocs = decouper("", &["marie"], Some("marie"));
    assert!(blocs.iter().all(|b| match b {
        Bloc::Ligne(f) => f.is_empty(),
        Bloc::Code(_) => false,
    }));
    assert!(!me_mentionne("", &["marie"], "marie"));
}

#[test]
fn une_mention_garde_la_casse_du_message() {
    let l = lignes("hé @MARIE !", &["marie"]);
    assert_eq!(l[0][1], Fragment::Mention { pseudo: "MARIE", moi: false });
    let l = lignes("hé @Moi !", &["moi"]);
    assert_eq!(l[0][1], Fragment::Mention { pseudo: "Moi", moi: true });
}

#[test]
fn une_mention_qui_ne_tombe_pas_entre_deux_caracteres_n_en_est_pas_une() {
    // Six bytes of name against a text whose sixth byte is inside a character.
    let l = lignes("@abcde\u{e9}f", &["abcdef"]);
    assert_eq!(l[0], vec![Fragment::Texte("@abcde\u{e9}f")]);
}
