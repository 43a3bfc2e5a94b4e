//! The launcher: the rows of the servers, and the words of its buttons.

use crate::affichage;
use crate::menus;
use crate::session::Session;
use crate::texte;
use vstd::prelude::*;

verus! {

/// What a probe says of a server.
#[derive(Debug, Clone, Copy, PartialEq, Eq, Structural)]
pub enum Reach {
    Online { ping_ms: u32 },
    Offline,
    Probing,
    Unknown,
}

/// What the right side of a row shows.
#[derive(Debug)]
pub struct EtatServeur {
    pub texte: String,
    /// The bars that are lit, or a spinner.
    pub barres: Option<u8>,
    /// It is a value, to be aligned with the others.
    pub chiffre: bool,
}

/// What a probe is shown as.
pub fn etat_serveur(reach: Reach) -> (r: EtatServeur)
    ensures
        match reach {
            Reach::Online { ping_ms } => r.texte@ == texte::decimal(ping_ms as nat) + " ms"@
                && r.barres == Some(menus::barres(ping_ms)) && r.chiffre,
            Reach::Offline => r.texte@ == "injoignable"@ && r.barres == Some(0u8) && !r.chiffre,
            Reach::Probing => r.texte@ == "test…"@ && r.barres is None && !r.chiffre,
            Reach::Unknown => r.texte@ == "non testé"@ && r.barres is None && !r.chiffre,
        },
{
    match reach {
        Reach::Online { ping_ms } => {
            let mut s: String = String::new();
            texte::pousser_decimal(&mut s, ping_ms as u64);
            assert(s@ =~= texte::decimal(ping_ms as nat));
            s.append(" ms");
            EtatServeur { texte: s, barres: Some(menus::quality(ping_ms)), chiffre: true }
        },
        Reach::Offline => EtatServeur {
            texte: "injoignable".to_owned(),
            barres: Some(0),
            chiffre: false,
        },
        Reach::Probing => EtatServeur {
            texte: "test…".to_owned(),
            barres: None,
            chiffre: false,
        },
        Reach::Unknown => EtatServeur {
            texte: "non testé".to_owned(),
            barres: None,
            chiffre: false,
        },
    }
}

/// What a click on a row does.
#[derive(Debug, Clone, Copy, PartialEq, Eq, Structural)]
pub enum RowAction {
    Rien,
    Select,
    Edit,
}

/// What a click on a row does: the pencil stands over the row, and takes the
/// click.
pub fn action_ligne(crayon: bool, ligne: bool) -> (r: RowAction)
    ensures
        r == if crayon {
            RowAction::Edit
        } else if ligne {
            RowAction::Select
        } else {
            RowAction::Rien
        },
{
    if crayon {
        RowAction::Edit
    } else if ligne {
        RowAction::Select
    } else {
        RowAction::Rien
    }
}

/// What a server is called: by its label, or by the address that was typed.
pub fn server_label(label: Option<&str>, url: &str) -> (r: String)
    ensures
        r@ == match label {
            Some(l) => l@,
            None => texte::rogne(url@),
        },
{
    match label {
        Some(l) => l.to_owned(),
        None => texte::rogner(url).to_owned(),
    }
}

/// The button that connects names where it goes to.
pub fn bouton_connexion(label: Option<&str>) -> (r: String)
    ensures
        r@ == match label {
            Some(l) => "Se connecter à "@ + affichage::abrege(l@, 26),
            None => "Se connecter"@,
        },
{
    match label {
        Some(l) => {
            let mut s: String = "Se connecter à ".to_owned();
            let court: String = affichage::ellipsize(l, 26);
            s.append(court.as_str());
            s
        },
        None => "Se connecter".to_owned(),
    }
}

impl Session {
    /// The button that cancels a connection being made, with what it has left.
    pub fn bouton_annuler(&self, maintenant: u64) -> (r: String)
        ensures
            r@ == annulation(self.reste_connexion(maintenant)),
    {
        let n: u64 = self.secondes_de_connexion(maintenant);
        let mut s: String = "Connexion…  ✕  (".to_owned();
        texte::pousser_decimal(&mut s, n);
        s.append(" s)");
        s
    }

    /// What the banner of a lost connection says; none where none is lost.
    pub fn banniere_reprise(&self, maintenant: u64) -> (r: Option<String>)
        ensures
            match self.reprise {
                Some(p) => texte::vue(r) == Some(
                    reprise_dite(
                        p.essais,
                        if p.quand > maintenant {
                            (p.quand - maintenant) as u64
                        } else {
                            0
                        },
                        self.lien.connecting,
                    ),
                ),
                None => r is None,
            },
    {
        let essais: u32 = match &self.reprise {
            Some(p) => p.essais,
            None => return None,
        };
        let dans: u64 = match self.reprise_dans(maintenant) {
            Some(d) => d,
            None => return None,
        };
        let mut s: String = "Connexion perdue — ".to_owned();
        if self.lien.connecting {
            s.append("tentative ");
            texte::pousser_decimal(&mut s, essais as u64);
            s.append("…");
        } else {
            s.append("nouvelle tentative dans ");
            texte::pousser_decimal(&mut s, dans / 1000 + 1);
            s.append(" s (essai ");
            texte::pousser_decimal(&mut s, essais as u64);
            s.append(")");
        }
        Some(s)
    }

    /// The answer to the offer of sharing the microphone with a game.
    pub fn repondre_comms(&mut self, accept: bool)
        ensures
            *final(self) == (Session { info: final(self).info, ..*old(self) }),
            texte::vue(final(self).info) == Some(
                if accept {
                    "micro basculé en catégorie communications pour cette session"@
                } else {
                    "compris — le micro reste en catégorie standard"@
                },
            ),
    {
        self.info = Some(
            if accept {
                "micro basculé en catégorie communications pour cette session".to_owned()
            } else {
                "compris — le micro reste en catégorie standard".to_owned()
            },
        );
    }

    /// The user vouches for the new certificate of the server: the alarm and
    /// the error that came with it go.
    pub fn accepter_identite(&mut self) -> (r: Option<String>)
        ensures
            r == old(self).identity_alarm,
            *final(self) == if old(self).identity_alarm is Some {
                Session { identity_alarm: None, error: None, ..*old(self) }
            } else {
                *old(self)
            },
    {
        if self.identity_alarm.is_some() {
            self.error = None;
        }
        self.identity_alarm.take()
    }
}

pub open spec fn annulation(n: nat) -> Seq<char> {
    "Connexion…  ✕  ("@ + texte::decimal(n) + " s)"@
}

/// What is said of a lost connection: the attempt being made, or the seconds
/// before the next one.
pub open spec fn reprise_dite(essais: u32, dans_ms: u64, connecting: bool) -> Seq<char> {
    if connecting {
        "Connexion perdue — "@ + "tentative "@ + texte::decimal(essais as nat) + "…"@
    } else {
        "Connexion perdue — "@ + "nouvelle tentative dans "@ + texte::decimal(
            (dans_ms / 1000 + 1) as nat,
        ) + " s (essai "@ + texte::decimal(essais as nat) + ")"@
    }
}

/// What a lost connection says: which attempt is on its way, or in how many
/// seconds the next one comes, counted from one.
pub proof fn loi_reprise_dite(essais: u32, secondes: u64, reste: u64)
    requires
        reste < 1000,
        secondes * 1000 + reste <= u64::MAX,
    ensures
        reprise_dite(essais, (secondes * 1000 + reste) as u64, false) == "Connexion perdue — "@
            + "nouvelle tentative dans "@ + texte::decimal((secondes + 1) as nat) + " s (essai "@
            + texte::decimal(essais as nat) + ")"@,
        reprise_dite(essais, reste, true) == "Connexion perdue — "@ + "tentative "@
            + texte::decimal(essais as nat) + "…"@,
{
    assert((secondes * 1000 + reste) / 1000 == secondes) by (nonlinear_arith)
        requires
            reste < 1000,
    ;
}

} // verus!
