//! A session: what the client knows of the server that it is connected to.

use crate::brouillons::{BanDraft, Compte, Panneau, VoicePrompt};
use crate::protocole::{
    ChannelId, ChannelInfo, ChatRecord, ClientMsg, Member, Perms, RoleInfo, SearchHit, ServerInfo,
    UserId,
};
use crate::reprise;
use crate::reprise::Reprise;
use crate::texte;
use std::collections::BTreeMap;
use vstd::prelude::*;

verus! {

/// A sound effect. Its name is that of the file that replaces it.
#[derive(Debug, Clone, Copy, PartialEq, Eq, Structural)]
pub enum Son {
    SelfJoin,
    SelfLeave,
    PeerJoin,
    PeerLeave,
    Message,
    Mute,
    Unmute,
}

impl Son {
    pub open spec fn nom(self) -> Seq<char> {
        match self {
            Son::SelfJoin => "rejoint-vocal"@,
            Son::SelfLeave => "quitte-vocal"@,
            Son::PeerJoin => "arrivee"@,
            Son::PeerLeave => "depart"@,
            Son::Message => "message"@,
            Son::Mute => "micro-coupe"@,
            Son::Unmute => "micro-actif"@,
        }
    }

    /// The name of the file, without its extension.
    pub fn fichier(self) -> (r: &'static str)
        ensures
            r@ == self.nom(),
    {
        match self {
            Son::SelfJoin => "rejoint-vocal",
            Son::SelfLeave => "quitte-vocal",
            Son::PeerJoin => "arrivee",
            Son::PeerLeave => "depart",
            Son::Message => "message",
            Son::Mute => "micro-coupe",
            Son::Unmute => "micro-actif",
        }
    }
}

/// What a change of the session asks of the application.
#[derive(Debug)]
pub enum Effet {
    /// Send this to the server, if there is a connection.
    Envoyer(ClientMsg),
    /// Play this sound.
    Son(Son),
    /// Close the connection.
    Quitter,
    /// Drop what was made out of the server's data: textures, previews, the
    /// progress of an upload.
    Nettoyer,
    /// Stop the voice engine and give the audio devices back.
    ArreterVocal,
    /// Push the audio settings to the engine.
    ReglerAudio,
    /// Write the credentials and the date of this connection in the book.
    RetenirConnexion,
    /// Write the name and the icon of the server in the book.
    RetenirIdentite,
    /// Look on disk for these pictures, and ask the server for the rest.
    ChercherPhotos(Vec<(UserId, String)>),
    /// Forget the picture of this member.
    OublierPhoto(UserId),
    /// Keep this picture on disk and show it.
    GarderPhoto { user_id: UserId, hash: String, png: Vec<u8> },
}

/// What the roles allow, as the permission bits say it.
#[derive(Debug, Clone, Copy, PartialEq, Eq, Structural)]
pub struct Pouvoirs {
    pub administrator: bool,
    pub manage_server: bool,
    pub manage_channels: bool,
    pub manage_roles: bool,
    pub kick: bool,
    pub ban: bool,
    pub create_invite: bool,
    pub view_audit_log: bool,
    pub reset_password: bool,
    pub mute_members: bool,
    pub move_members: bool,
    pub connect_voice: bool,
    pub send_message: bool,
    pub upload_file: bool,
}

impl Pouvoirs {
    pub open spec fn aucun_de(self) -> bool {
        self == (Pouvoirs {
            administrator: false,
            manage_server: false,
            manage_channels: false,
            manage_roles: false,
            kick: false,
            ban: false,
            create_invite: false,
            view_audit_log: false,
            reset_password: false,
            mute_members: false,
            move_members: false,
            connect_voice: false,
            send_message: false,
            upload_file: false,
        })
    }

    pub fn aucun() -> (r: Self)
        ensures
            r.aucun_de(),
    {
        Pouvoirs {
            administrator: false,
            manage_server: false,
            manage_channels: false,
            manage_roles: false,
            kick: false,
            ban: false,
            create_invite: false,
            view_audit_log: false,
            reset_password: false,
            mute_members: false,
            move_members: false,
            connect_voice: false,
            send_message: false,
            upload_file: false,
        }
    }

    /// One of the powers that open the administration window.
    pub open spec fn administre(self) -> bool {
        self.manage_server || self.manage_channels || self.manage_roles || self.kick || self.ban
            || self.create_invite || self.view_audit_log
    }

    /// Is there enough to open the administration window? One power will do.
    pub fn any_admin_power(&self) -> (r: bool)
        ensures
            r == self.administre(),
    {
        self.manage_server || self.manage_channels || self.manage_roles || self.kick || self.ban
            || self.create_invite || self.view_audit_log
    }
}

/// Where the connection stands.
#[derive(Debug, Clone, Copy, PartialEq, Eq)]
pub struct Lien {
    /// There is a connection, finished or not.
    pub connecte: bool,
    pub connecting: bool,
    /// Since when the connection is being made, in milliseconds.
    pub connect_started: Option<u64>,
    /// The server has let us in.
    pub welcomed: bool,
}

/// Who we are on this server.
#[derive(Debug, Clone, Copy, PartialEq, Eq)]
pub struct Moi {
    pub id: Option<UserId>,
    pub perms: Perms,
    pub pouvoirs: Pouvoirs,
    pub rank: u16,
    pub voice_token: u64,
}

/// The text channel being read.
#[derive(Debug)]
pub struct Fil {
    pub current: Option<ChannelId>,
    pub messages: Vec<ChatRecord>,
    /// There is some past left to load.
    pub history_more: bool,
    /// A page of it was asked for.
    pub history_pending: bool,
    /// Messages came in above: the next frame keeps the line being read in
    /// place.
    pub ancre: bool,
    /// The channel is shown around a message that was searched for.
    pub retour_present: Option<ChannelId>,
    pub focus_input: bool,
}

/// The voice channel, and the microphone.
#[derive(Debug)]
pub struct Vocal {
    pub salon: Option<ChannelId>,
    /// What was asked of the server and not yet seen in its list of members.
    pub intention: Option<Option<ChannelId>>,
    /// Until when to wait for it, in milliseconds.
    pub intention_jusqu_a: u64,
    /// Who was in the voice channel at the last look.
    pub voisins: Vec<UserId>,
    /// In which voice channel that was.
    pub salon_des_voisins: Option<ChannelId>,
    pub muted: bool,
    pub armed: bool,
    pub transmitting: bool,
    pub loopback: bool,
}

/// The search window.
#[derive(Debug)]
pub struct Recherche {
    pub ouverte: bool,
    pub query: String,
    /// Only in the channel being read.
    pub ici: bool,
    pub hits: Vec<SearchHit>,
    pub more: bool,
    /// The query whose answer is awaited.
    pub envoyee: Option<String>,
    pub focus: bool,
}

/// What the client knows of a server, and what it is doing there.
#[derive(Debug)]
pub struct Session {
    pub lien: Lien,
    pub reprise: Option<Reprise>,
    pub moi: Moi,
    pub fingerprint: String,
    pub roles: Vec<RoleInfo>,
    pub channels: Vec<ChannelInfo>,
    pub members: Vec<Member>,
    pub fil: Fil,
    pub vocal: Vocal,
    pub server_info: ServerInfo,
    /// The fingerprint of each picture that is shown.
    pub photos: BTreeMap<UserId, String>,
    pub admin: Panneau,
    pub compte: Compte,
    pub recherche: Recherche,
    pub ban_draft: Option<BanDraft>,
    pub voice_prompt: Option<VoicePrompt>,
    pub show_settings: bool,
    pub error: Option<String>,
    pub info: Option<String>,
    /// The address whose certificate changed.
    pub identity_alarm: Option<String>,
    pub window_focused: bool,
    pub wants_attention: bool,
}

impl Lien {
    pub open spec fn coupe(self) -> bool {
        !self.connecte && !self.connecting && self.connect_started is None && !self.welcomed
    }
}

impl Moi {
    pub open spec fn personne(self) -> bool {
        &&& self.id is None
        &&& self.perms == 0
        &&& self.pouvoirs.aucun_de()
        &&& self.rank == 0
        &&& self.voice_token == 0
    }
}

impl Fil {
    pub open spec fn vide(self) -> bool {
        &&& self.current is None
        &&& self.messages@.len() == 0
        &&& !self.history_more
        &&& !self.history_pending
        &&& !self.ancre
        &&& self.retour_present is None
    }
}

impl Vocal {
    pub open spec fn dehors(self) -> bool {
        &&& self.salon is None
        &&& self.intention is None
        &&& self.voisins@.len() == 0
        &&& self.salon_des_voisins is None
        &&& !self.armed
        &&& !self.transmitting
        &&& !self.loopback
    }
}

impl Recherche {
    pub open spec fn vierge(self) -> bool {
        &&& !self.ouverte
        &&& self.query@.len() == 0
        &&& self.hits@.len() == 0
        &&& !self.more
        &&& self.envoyee is None
    }
}

impl Session {
    /// Nothing of a server is left: no account, no channel, no member, no
    /// message, no picture, no window open on any of them.
    pub open spec fn vierge(self) -> bool {
        &&& self.lien.coupe()
        &&& self.reprise is None
        &&& self.moi.personne()
        &&& self.fingerprint@.len() == 0
        &&& self.roles@.len() == 0
        &&& self.channels@.len() == 0
        &&& self.members@.len() == 0
        &&& self.fil.vide()
        &&& self.vocal.dehors()
        &&& self.server_info.name@.len() == 0
        &&& self.server_info.icon is None
        &&& self.photos@ == Map::<UserId, String>::empty()
        &&& self.admin.vierge()
        &&& self.compte.vierge()
        &&& self.recherche.vierge()
        &&& self.ban_draft is None
        &&& self.voice_prompt is None
        &&& !self.show_settings
        &&& self.info is None
        &&& !self.wants_attention
    }

    /// What belongs to the machine and not to a server.
    pub open spec fn machine_gardee(self, avant: Session) -> bool {
        &&& self.identity_alarm == avant.identity_alarm
        &&& self.window_focused == avant.window_focused
        &&& self.vocal.muted == avant.vocal.muted
        &&& self.vocal.intention_jusqu_a == avant.vocal.intention_jusqu_a
        &&& self.fil.focus_input == avant.fil.focus_input
        &&& self.recherche.ici == avant.recherche.ici
        &&& self.recherche.focus == avant.recherche.focus
        &&& self.admin.tab == avant.admin.tab
        &&& self.admin.invite_uses == avant.admin.invite_uses
        &&& self.admin.invite_label == avant.admin.invite_label
    }

    /// The session was closed, and this is said of it.
    pub open spec fn fermee(self, avant: Session, error: Option<Seq<char>>) -> bool {
        self.vierge() && self.machine_gardee(avant) && texte::vue(self.error) == error
    }

    pub fn new() -> (r: Self)
        ensures
            r.vierge(),
            r.error is None,
            r.identity_alarm is None,
            r.window_focused,
            !r.vocal.muted,
            r.recherche.ici,
            !r.fil.focus_input && !r.recherche.focus,
            r.admin.tab == crate::brouillons::AdminTab::Server,
            r.admin.invite_uses == Some(1u32),
            r.admin.invite_label@.len() == 0,
    {
        broadcast use vstd::std_specs::btree::group_btree_axioms;

        Session {
            lien: Lien {
                connecte: false,
                connecting: false,
                connect_started: None,
                welcomed: false,
            },
            reprise: None,
            moi: Moi {
                id: None,
                perms: 0,
                pouvoirs: Pouvoirs::aucun(),
                rank: 0,
                voice_token: 0,
            },
            fingerprint: String::new(),
            roles: Vec::new(),
            channels: Vec::new(),
            members: Vec::new(),
            fil: Fil {
                current: None,
                messages: Vec::new(),
                history_more: false,
                history_pending: false,
                ancre: false,
                retour_present: None,
                focus_input: false,
            },
            vocal: Vocal {
                salon: None,
                intention: None,
                intention_jusqu_a: 0,
                voisins: Vec::new(),
                salon_des_voisins: None,
                muted: false,
                armed: false,
                transmitting: false,
                loopback: false,
            },
            server_info: ServerInfo { name: String::new(), icon: None },
            photos: BTreeMap::new(),
            admin: Panneau::new(),
            compte: Compte::new(),
            recherche: Recherche {
                ouverte: false,
                query: String::new(),
                ici: true,
                hits: Vec::new(),
                more: false,
                envoyee: None,
                focus: false,
            },
            ban_draft: None,
            voice_prompt: None,
            show_settings: false,
            error: None,
            info: None,
            identity_alarm: None,
            window_focused: true,
            wants_attention: false,
        }
    }
}

// ---------------------------------------------------------------------
// Leaving, and coming back
// ---------------------------------------------------------------------

/// How long a connection may take to be made, in milliseconds.
pub const DELAI_CONNEXION: u64 = 20_000;

/// What closing a session asks for.
pub open spec fn effets_fermeture(avant: Session) -> Seq<Effet> {
    if avant.lien.connecte {
        seq![Effet::Quitter, Effet::Nettoyer]
    } else {
        seq![Effet::Nettoyer]
    }
}

/// Which attempt comes after a loss.
pub open spec fn essai_suivant(r: Option<Reprise>) -> u32 {
    match r {
        Some(r) => if r.essais < u32::MAX {
            (r.essais + 1) as u32
        } else {
            u32::MAX
        },
        None => 1,
    }
}

/// A loss that is not made good again: nothing has worked yet.
pub open spec fn sans_retour(avant: Session) -> bool {
    !avant.lien.welcomed && avant.reprise is None
}

/// `a + b`, or the greatest value where that does not fit.
pub open spec fn somme(a: u64, b: u64) -> u64 {
    if a + b <= u64::MAX {
        (a + b) as u64
    } else {
        u64::MAX
    }
}

/// The attempt that a loss arms. The places to go back to are those of before
/// the first loss.
pub open spec fn reprise_armee(avant: Session, maintenant: u64, alea: u64) -> Reprise {
    let essais = essai_suivant(avant.reprise);
    Reprise {
        essais,
        quand: somme(maintenant, reprise::attente_de(essais, alea) as u64),
        salon: match avant.reprise {
            Some(r) => r.salon,
            None => avant.fil.current,
        },
        vocal: match avant.reprise {
            Some(r) => r.vocal,
            None => avant.vocal.salon,
        },
    }
}

/// What a lost connection leaves behind.
pub open spec fn apres_perte(
    avant: Session,
    apres: Session,
    effets: Seq<Effet>,
    error: Option<Seq<char>>,
    maintenant: u64,
    alea: u64,
) -> bool {
    if sans_retour(avant) {
        apres.fermee(avant, error) && effets == effets_fermeture(avant).push(Effet::ArreterVocal)
    } else if essai_suivant(avant.reprise) > Reprise::MAX {
        &&& apres.fermee(
            avant,
            Some(
                "connexion perdue — le serveur n'a pas répondu, reconnecte-toi quand il sera revenu"@,
            ),
        )
        &&& effets == effets_fermeture(avant).push(Effet::ArreterVocal)
    } else {
        &&& apres.reprise == Some(reprise_armee(avant, maintenant, alea))
        &&& (Session { reprise: None, ..apres }).fermee(avant, error)
        &&& effets == effets_fermeture(avant)
    }
}

/// The text that a failed connection holds when the server's certificate is
/// not the one that was expected.
pub open spec fn identite_autre(e: Seq<char>) -> bool {
    texte::indice(e, "ApplicationVerificationFailure"@, 0) is Some || texte::indice(
        e,
        "invalid peer certificate"@,
        0,
    ) is Some
}

/// Did the connection fail because the server is not the one that it was?
pub fn identite_changee(e: &str) -> (r: bool)
    ensures
        r == identite_autre(e@),
{
    let c: Vec<char> = texte::caracteres(e);
    texte::chercher(&c, "ApplicationVerificationFailure", 0).is_some() || texte::chercher(
        &c,
        "invalid peer certificate",
        0,
    ).is_some()
}

impl Session {
    /// Undoes the session and leaves the sound alone. All that came from the
    /// server goes: account numbers are given out by each server, and whatever
    /// stayed would show someone else's picture or name on the next one.
    pub fn fermer_session(&mut self, error: Option<String>) -> (effets: Vec<Effet>)
        ensures
            final(self).fermee(*old(self), texte::vue(error)),
            effets@ == effets_fermeture(*old(self)),
    {
        broadcast use vstd::std_specs::btree::group_btree_axioms;

        let mut effets: Vec<Effet> = Vec::new();
        self.reprise = None;
        if self.lien.connecte {
            effets.push(Effet::Quitter);
        }
        self.lien = Lien {
            connecte: false,
            connecting: false,
            connect_started: None,
            welcomed: false,
        };
        self.moi = Moi {
            id: None,
            perms: 0,
            pouvoirs: Pouvoirs::aucun(),
            rank: 0,
            voice_token: 0,
        };
        self.roles = Vec::new();
        self.fingerprint = String::new();
        self.channels = Vec::new();
        self.members = Vec::new();
        self.fil.current = None;
        self.fil.messages = Vec::new();
        self.fil.history_more = false;
        self.fil.history_pending = false;
        self.fil.ancre = false;
        self.fil.retour_present = None;
        self.vocal.salon = None;
        self.vocal.intention = None;
        self.vocal.voisins = Vec::new();
        self.vocal.salon_des_voisins = None;
        self.vocal.armed = false;
        self.vocal.transmitting = false;
        self.vocal.loopback = false;
        self.photos = BTreeMap::new();
        self.server_info = ServerInfo { name: String::new(), icon: None };
        self.admin.vider();
        self.compte = Compte::new();
        self.ban_draft = None;
        self.voice_prompt = None;
        self.recherche.ouverte = false;
        self.recherche.query = String::new();
        self.recherche.hits = Vec::new();
        self.recherche.envoyee = None;
        self.recherche.more = false;
        self.show_settings = false;
        self.info = None;
        self.wants_attention = false;
        self.error = error;
        effets.push(Effet::Nettoyer);
        effets
    }

    /// Leaves for good: the session is closed and the audio devices are given
    /// back.
    pub fn disconnect(&mut self, error: Option<String>) -> (effets: Vec<Effet>)
        ensures
            final(self).fermee(*old(self), texte::vue(error)),
            effets@ == effets_fermeture(*old(self)).push(Effet::ArreterVocal),
    {
        let mut effets: Vec<Effet> = self.fermer_session(error);
        effets.push(Effet::ArreterVocal);
        effets
    }

    /// The connection broke on its own. One that had worked is taken up again,
    /// a bounded number of times, with the sound kept open meanwhile.
    pub fn connexion_perdue(&mut self, error: Option<String>, maintenant: u64, alea: u64) -> (effets:
        Vec<Effet>)
        ensures
            apres_perte(
                *old(self),
                *final(self),
                effets@,
                texte::vue(error),
                maintenant,
                alea,
            ),
    {
        if !self.lien.welcomed && self.reprise.is_none() {
            return self.disconnect(error);
        }
        let essais: u32 = match &self.reprise {
            Some(r) => if r.essais < u32::MAX {
                r.essais + 1
            } else {
                u32::MAX
            },
            None => 1,
        };
        let (salon, vocal): (Option<ChannelId>, Option<ChannelId>) = match &self.reprise {
            Some(r) => (r.salon, r.vocal),
            None => (self.fil.current, self.vocal.salon),
        };
        let mut effets: Vec<Effet> = self.fermer_session(error);
        if essais > Reprise::MAX {
            self.error = Some(
                "connexion perdue — le serveur n'a pas répondu, reconnecte-toi quand il sera revenu".to_owned(),
            );
            effets.push(Effet::ArreterVocal);
            return effets;
        }
        let attente: u64 = Reprise::attente(essais, alea);
        let quand: u64 = if maintenant <= u64::MAX - attente {
            maintenant + attente
        } else {
            u64::MAX
        };
        self.reprise = Some(Reprise { essais, quand, salon, vocal });
        effets
    }

    /// Is it time for the next attempt?
    pub fn tick_reprise(&self, maintenant: u64) -> (r: bool)
        ensures
            r == (!self.lien.connecting && (self.reprise matches Some(p) && maintenant >= p.quand)),
    {
        match &self.reprise {
            Some(p) => !self.lien.connecting && maintenant >= p.quand,
            None => false,
        }
    }

    /// What is left before the next attempt, in milliseconds.
    pub fn reprise_dans(&self, maintenant: u64) -> (r: Option<u64>)
        ensures
            r == match self.reprise {
                Some(p) => if p.quand > maintenant {
                    Some((p.quand - maintenant) as u64)
                } else {
                    Some(0u64)
                },
                None => None,
            },
    {
        match &self.reprise {
            Some(p) => if p.quand > maintenant {
                Some(p.quand - maintenant)
            } else {
                Some(0)
            },
            None => None,
        }
    }

    /// Brings the next attempt forward to now.
    pub fn reessayer(&mut self, maintenant: u64)
        ensures
            *final(self) == (Session {
                reprise: match old(self).reprise {
                    Some(r) => Some(Reprise { quand: maintenant, ..r }),
                    None => None,
                },
                ..*old(self)
            }),
    {
        if let Some(r) = self.reprise {
            self.reprise = Some(Reprise { quand: maintenant, ..r });
        }
    }

    /// Gives up coming back, and the audio devices with it.
    pub fn renoncer(&mut self) -> (effets: Vec<Effet>)
        ensures
            *final(self) == (Session { reprise: None, ..*old(self) }),
            effets@ == seq![Effet::ArreterVocal],
    {
        self.reprise = None;
        let mut effets: Vec<Effet> = Vec::new();
        effets.push(Effet::ArreterVocal);
        effets
    }

    /// A connection is being made.
    pub fn connect(&mut self, maintenant: u64)
        ensures
            *final(self) == (Session {
                error: None,
                lien: Lien {
                    connecte: true,
                    connecting: true,
                    connect_started: Some(maintenant),
                    welcomed: old(self).lien.welcomed,
                },
                ..*old(self)
            }),
    {
        self.error = None;
        self.lien.connecting = true;
        self.lien.connect_started = Some(maintenant);
        self.lien.connecte = true;
    }

    /// A connection that takes too long is a lost one.
    pub open spec fn trop_long(self, maintenant: u64) -> bool {
        self.lien.connecting && (self.lien.connect_started matches Some(d) && d <= maintenant
            && maintenant - d >= DELAI_CONNEXION)
    }

    /// Gives up a connection that does not come about.
    pub fn check_connect_timeout(&mut self, maintenant: u64, alea: u64) -> (effets: Vec<Effet>)
        ensures
            if old(self).trop_long(maintenant) {
                apres_perte(
                    *old(self),
                    *final(self),
                    effets@,
                    Some("le serveur n'a pas répondu — vérifie l'adresse, ou réessaie"@),
                    maintenant,
                    alea,
                )
            } else {
                *final(self) == *old(self) && effets@.len() == 0
            },
    {
        if let Some(d) = self.lien.connect_started {
            if self.lien.connecting && d <= maintenant && maintenant - d >= DELAI_CONNEXION {
                return self.connexion_perdue(
                    Some("le serveur n'a pas répondu — vérifie l'adresse, ou réessaie".to_owned()),
                    maintenant,
                    alea,
                );
            }
        }
        Vec::new()
    }

    /// The seconds that the connection being made has left, counted from one.
    pub open spec fn reste_connexion(self, maintenant: u64) -> nat {
        match self.lien.connect_started {
            Some(d) => {
                let passe = if maintenant > d {
                    maintenant - d
                } else {
                    0
                };
                if passe < DELAI_CONNEXION {
                    ((DELAI_CONNEXION - passe) / 1000 + 1) as nat
                } else {
                    1
                }
            },
            None => 0,
        }
    }

    /// The seconds that the connection being made has left, counted from one.
    pub fn secondes_de_connexion(&self, maintenant: u64) -> (r: u64)
        ensures
            r == self.reste_connexion(maintenant),
    {
        match self.lien.connect_started {
            Some(d) => {
                let passe: u64 = if maintenant > d {
                    maintenant - d
                } else {
                    0
                };
                if passe < DELAI_CONNEXION {
                    (DELAI_CONNEXION - passe) / 1000 + 1
                } else {
                    1
                }
            },
            None => 0,
        }
    }

    /// The connection could not be made. A server whose certificate changed is
    /// not tried again: only the user can tell whether that is right.
    pub fn connexion_refusee(
        &mut self,
        e: String,
        adresse: String,
        maintenant: u64,
        alea: u64,
    ) -> (effets: Vec<Effet>)
        ensures
            if identite_autre(e@) {
                &&& final(self).fermee(
                    (Session { identity_alarm: Some(adresse), ..*old(self) }),
                    Some("l'identité du serveur a changé depuis la dernière connexion"@),
                )
                &&& effets@ == effets_fermeture(*old(self)).push(Effet::ArreterVocal)
            } else {
                apres_perte(*old(self), *final(self), effets@, Some(e@), maintenant, alea)
            },
    {
        if identite_changee(e.as_str()) {
            self.identity_alarm = Some(adresse);
            self.disconnect(
                Some("l'identité du serveur a changé depuis la dernière connexion".to_owned()),
            )
        } else {
            self.connexion_perdue(Some(e), maintenant, alea)
        }
    }

    /// The server closed the connection. What was last said of it stays.
    pub fn deconnecte(&mut self, maintenant: u64, alea: u64) -> (effets: Vec<Effet>)
        ensures
            apres_perte(
                *old(self),
                *final(self),
                effets@,
                match old(self).error {
                    Some(m) => Some(m@),
                    None => Some("déconnecté du serveur"@),
                },
                maintenant,
                alea,
            ),
    {
        let dit: Option<String> = self.error.take();
        let e: Option<String> = match dit {
            Some(m) => Some(m),
            None => Some("déconnecté du serveur".to_owned()),
        };
        self.connexion_perdue(e, maintenant, alea)
    }
}

/// Closing a session lets nothing of the server through to the next one,
/// whatever was known of it.
pub proof fn loi_rien_ne_reste(avant: Session, apres: Session, error: Option<Seq<char>>)
    requires
        apres.fermee(avant, error),
    ensures
        apres.members@.len() == 0 && apres.fil.messages@.len() == 0 && apres.photos@.dom()
            =~= Set::<UserId>::empty() && apres.moi.id is None && apres.reprise is None,
{
}

/// A connection that never worked is not taken up again, and the attempts to
/// take one up are counted: past the last one the session is closed for good.
pub proof fn loi_reprises_bornees(
    avant: Session,
    apres: Session,
    effets: Seq<Effet>,
    error: Option<Seq<char>>,
    maintenant: u64,
    alea: u64,
)
    requires
        apres_perte(avant, apres, effets, error, maintenant, alea),
    ensures
        sans_retour(avant) ==> apres.reprise is None,
        apres.reprise matches Some(r) ==> 1 <= r.essais <= Reprise::MAX,
        (avant.reprise matches Some(r) && r.essais >= Reprise::MAX) ==> apres.reprise is None,
        apres.reprise is None <==> effets.last() == Effet::ArreterVocal,
{
    if !sans_retour(avant) && essai_suivant(avant.reprise) <= Reprise::MAX {
        assert(effets_fermeture(avant).last() == Effet::Nettoyer);
    }
}

/// However many times in a row the connection is lost before coming back, the
/// channels to go back to stay those of before the first loss.
pub proof fn loi_reprise_garde_la_place(
    avant: Session,
    apres: Session,
    effets: Seq<Effet>,
    error: Option<Seq<char>>,
    maintenant: u64,
    alea: u64,
)
    requires
        apres_perte(avant, apres, effets, error, maintenant, alea),
        avant.reprise matches Some(r) && r.essais < Reprise::MAX,
    ensures
        apres.reprise matches Some(r) && r.salon == avant.reprise->0.salon && r.vocal
            == avant.reprise->0.vocal && r.essais == avant.reprise->0.essais + 1,
{
}

// ---------------------------------------------------------------------
// When to draw again
// ---------------------------------------------------------------------

/// What moves by itself on the screen.
#[derive(Debug, Clone, Copy, PartialEq, Eq, Structural)]
pub struct Mouvements {
    /// A server of the book is being probed.
    pub sonde: bool,
    /// Someone speaks.
    pub voix: bool,
    /// A file is on its way.
    pub envoi: bool,
    /// An update is being downloaded.
    pub telechargement: bool,
    /// An audio device was lost.
    pub peripherique_perdu: bool,
}

impl Session {
    /// In how many milliseconds to draw the next frame; nothing where nothing
    /// moves and the window can sleep until something happens.
    pub fn repaint_delay(&self, m: Mouvements) -> (r: Option<u64>)
        ensures
            r == if !self.lien.welcomed {
                if self.lien.connecting {
                    Some(250u64)
                } else if m.sonde {
                    Some(50u64)
                } else {
                    Some(1000u64)
                }
            } else if self.vocal.salon is Some || m.voix || self.show_settings || m.envoi
                || m.telechargement {
                Some(50u64)
            } else if m.peripherique_perdu {
                Some(500u64)
            } else {
                None
            },
    {
        if !self.lien.welcomed {
            if self.lien.connecting {
                return Some(250);
            }
            if m.sonde {
                return Some(50);
            }
            return Some(1000);
        }
        if self.vocal.salon.is_some() || m.voix || self.show_settings || m.envoi
            || m.telechargement {
            return Some(50);
        }
        if m.peripherique_perdu {
            return Some(500);
        }
        None
    }
}

/// A session that was closed holds nothing of the server any more, and what
/// belongs to the machine is as it was.
pub proof fn loi_fermeture_complete(avant: Session, apres: Session, error: Option<Seq<char>>)
    requires
        apres.fermee(avant, error),
    ensures
        texte::vue(apres.error) == error && apres.info is None && !apres.wants_attention,
        !apres.lien.connecte && !apres.lien.connecting && !apres.lien.welcomed,
        apres.lien.connect_started is None && apres.reprise is None,
        apres.moi.id is None && apres.moi.perms == 0 && apres.moi.rank == 0,
        apres.moi.voice_token == 0 && !apres.moi.pouvoirs.connect_voice,
        !apres.moi.pouvoirs.administrator && !apres.moi.pouvoirs.ban && !apres.moi.pouvoirs.kick,
        !apres.moi.pouvoirs.manage_server && !apres.moi.pouvoirs.manage_channels,
        !apres.moi.pouvoirs.manage_roles && !apres.moi.pouvoirs.create_invite,
        !apres.moi.pouvoirs.view_audit_log && !apres.moi.pouvoirs.reset_password,
        !apres.moi.pouvoirs.mute_members && !apres.moi.pouvoirs.move_members,
        !apres.moi.pouvoirs.send_message && !apres.moi.pouvoirs.upload_file,
        apres.fingerprint@.len() == 0 && apres.server_info.name@.len() == 0,
        apres.server_info.icon is None,
        apres.roles@.len() == 0 && apres.channels@.len() == 0 && apres.members@.len() == 0,
        apres.fil.current is None && apres.fil.messages@.len() == 0,
        !apres.fil.history_more && !apres.fil.history_pending && apres.fil.retour_present is None,
        apres.vocal.salon is None && apres.vocal.intention is None,
        apres.vocal.voisins@.len() == 0 && apres.vocal.salon_des_voisins is None,
        !apres.vocal.armed && !apres.vocal.transmitting && !apres.vocal.loopback,
        forall|id: UserId| !#[trigger] apres.photos@.contains_key(id),
        !apres.admin.ouvert && apres.admin.users@.len() == 0 && apres.admin.invites@.len() == 0,
        apres.admin.audit@.len() == 0 && apres.admin.last_invite is None,
        apres.admin.role_draft is None && apres.admin.channel_draft is None,
        apres.admin.channel_edit is None && apres.admin.verrou_draft is None,
        apres.admin.reset_target is None && apres.admin.roles_target is None,
        apres.ban_draft is None && apres.voice_prompt is None && !apres.show_settings,
        !apres.compte.ouvert && apres.compte.new_password@.len() == 0,
        !apres.recherche.ouverte && apres.recherche.query@.len() == 0,
        apres.recherche.hits@.len() == 0 && apres.recherche.envoyee is None,
        apres.vocal.muted == avant.vocal.muted,
        apres.window_focused == avant.window_focused,
        apres.identity_alarm == avant.identity_alarm,
        apres.recherche.ici == avant.recherche.ici && apres.admin.tab == avant.admin.tab,
        apres.admin.invite_uses == avant.admin.invite_uses,
        apres.vocal.intention_jusqu_a == avant.vocal.intention_jusqu_a,
{
}

/// Any one of seven permissions opens the administration, and no other does.
pub proof fn loi_administration_ouverte(p: Pouvoirs)
    ensures
        p.administre() <==> p.manage_server || p.manage_channels || p.manage_roles || p.kick || p.ban
            || p.create_invite || p.view_audit_log,
{
}

/// Closing asks to quit a connection that is up, and only then, and always to
/// clear what was drawn of the server.
pub proof fn loi_effets_de_fermeture(avant: Session)
    ensures
        effets_fermeture(avant).contains(Effet::Quitter) == avant.lien.connecte,
        effets_fermeture(avant).last() == Effet::Nettoyer,
        effets_fermeture(avant).len() <= 2,
        !effets_fermeture(avant).contains(Effet::ArreterVocal),
{
    let e = effets_fermeture(avant);
    if avant.lien.connecte {
        assert(e[0] == Effet::Quitter);
    }
}

/// A connection that had worked and breaks is taken up again: the first time at
/// the channels that were being read and spoken in, after one to forty losses in
/// a row at those of before the first one, each time after a wait between half of
/// its longest and all of it, and with the sound left alone.
pub proof fn loi_perte_rearme(
    avant: Session,
    apres: Session,
    effets: Seq<Effet>,
    error: Option<Seq<char>>,
    maintenant: u64,
    alea: u64,
)
    requires
        apres_perte(avant, apres, effets, error, maintenant, alea),
        maintenant <= u64::MAX - 30_000,
        avant.lien.welcomed || avant.reprise is Some,
        avant.reprise matches Some(r) ==> r.essais < 40,
    ensures
        apres.reprise is Some,
        avant.reprise is None ==> apres.reprise->0.essais == 1 && apres.reprise->0.salon
            == avant.fil.current && apres.reprise->0.vocal == avant.vocal.salon,
        avant.reprise matches Some(r) ==> apres.reprise->0.essais == r.essais + 1
            && apres.reprise->0.salon == r.salon && apres.reprise->0.vocal == r.vocal,
        maintenant + reprise::plein(apres.reprise->0.essais) / 2 <= apres.reprise->0.quand
            <= maintenant + reprise::plein(apres.reprise->0.essais),
        !effets.contains(Effet::ArreterVocal),
        effets.contains(Effet::Quitter) == avant.lien.connecte,
        texte::vue(apres.error) == error,
        apres.members@.len() == 0 && apres.fil.messages@.len() == 0 && !apres.lien.welcomed,
{
    let essais = essai_suivant(avant.reprise);
    reprise::loi_attente_bornee(essais, alea);
    loi_effets_de_fermeture(avant);
}

/// A connection that never worked, and one that was lost forty times in a row,
/// are given up: nothing is tried again, the audio devices are given back, and
/// the reason is told.
pub proof fn loi_perte_sans_retour(
    avant: Session,
    apres: Session,
    effets: Seq<Effet>,
    error: Option<Seq<char>>,
    maintenant: u64,
    alea: u64,
)
    requires
        apres_perte(avant, apres, effets, error, maintenant, alea),
    ensures
        !avant.lien.welcomed && avant.reprise is None ==> apres.reprise is None && texte::vue(
            apres.error,
        ) == error && effets.last() == Effet::ArreterVocal,
        (avant.reprise matches Some(r) && r.essais >= 40) ==> apres.reprise is None
            && apres.error is Some && effets.last() == Effet::ArreterVocal,
{
}

/// A connection being made has twenty seconds, and not one millisecond less.
pub proof fn loi_delai_de_connexion(s: Session, debut: u64, maintenant: u64)
    requires
        s.lien.connect_started == Some(debut),
    ensures
        s.trop_long(maintenant) == (s.lien.connecting && maintenant >= debut + 20_000),
        maintenant >= debut + 20_000 ==> s.reste_connexion(maintenant) == 1,
        debut <= maintenant < debut + 20_000 ==> s.reste_connexion(maintenant) * 1000 > debut
            + 20_000 - maintenant >= (s.reste_connexion(maintenant) - 1) * 1000,
{
}

/// A certificate that is not the one that was expected is told by the words that
/// a failed connection says of it, wherever they stand.
pub proof fn loi_identite_reconnue(avant: Seq<char>, apres: Seq<char>)
    ensures
        identite_autre(avant + "invalid peer certificate"@ + apres),
        identite_autre(avant + "ApplicationVerificationFailure"@ + apres),
        identite_autre(avant) ==> (exists|i: int| #[trigger]
            texte::present_en(avant, "invalid peer certificate"@, i)) || (exists|i: int| #[trigger]
            texte::present_en(avant, "ApplicationVerificationFailure"@, i)),
{
    let a = "invalid peer certificate"@;
    let b = "ApplicationVerificationFailure"@;
    let s = avant + a + apres;
    texte::lemme_indice(s, a, 0);
    assert(s.subrange(avant.len() as int, (avant.len() + a.len()) as int) =~= a);
    assert(texte::present_en(s, a, avant.len() as int));
    let t = avant + b + apres;
    texte::lemme_indice(t, b, 0);
    assert(t.subrange(avant.len() as int, (avant.len() + b.len()) as int) =~= b);
    assert(texte::present_en(t, b, avant.len() as int));
    texte::lemme_indice(avant, a, 0);
    texte::lemme_indice(avant, b, 0);
    if identite_autre(avant) {
        if let Some(i) = texte::indice(avant, a, 0) {
            assert(texte::present_en(avant, a, i));
        } else {
            let i = texte::indice(avant, b, 0)->0;
            assert(texte::present_en(avant, b, i));
        }
    }
}

} // verus!
