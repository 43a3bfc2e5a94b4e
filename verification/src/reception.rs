//! What each message of the server does to the session.

use crate::brouillons::{Panneau, VoicePrompt};
use crate::fil;
use crate::listes;
use crate::markup;
use crate::protocole::{
    Bienvenue, ChannelId, ChannelInfo, ChannelKind, ChatRecord, ClientMsg, IconChange, Member, Perms, ServerInfo,
    ServerMsg, UserId, Vignette,
};
use crate::roster;
use crate::session::{Effet, Fil, Lien, Moi, Pouvoirs, Session, Son, Vocal};
use crate::session;
use crate::texte;
use crate::vocal;
use crate::vocal::Debit;
use vstd::prelude::*;

verus! {

/// The permissions that a welcome grants. A server from before the roles
/// announces none: its administrator gets all of them, and anyone else the
/// ordinary ones.
pub fn perms_accordees(perms: Perms, is_admin: bool, administrator: Perms, defaut: Perms) -> (r:
    Perms)
    ensures
        r == if perms != 0 {
            perms
        } else if is_admin {
            administrator
        } else {
            defaut
        },
{
    if perms == 0 && is_admin {
        administrator
    } else if perms == 0 {
        defaut
    } else {
        perms
    }
}

// ---------------------------------------------------------------------
// Being let in
// ---------------------------------------------------------------------

/// A channel to go back to, if it is still there.
pub open spec fn encore(salon: Option<ChannelId>, channels: Seq<ChannelInfo>) -> Option<ChannelId> {
    match salon {
        Some(c) => if roster::a_salon(channels, c) {
            Some(c)
        } else {
            None
        },
        None => None,
    }
}

/// The text channel that was being read when the connection was lost.
pub open spec fn salon_rendu(avant: Session, channels: Seq<ChannelInfo>) -> Option<ChannelId> {
    match avant.reprise {
        Some(r) => encore(r.salon, channels),
        None => None,
    }
}

/// The voice channel that we were in when the connection was lost.
pub open spec fn vocal_rendu(avant: Session, channels: Seq<ChannelInfo>) -> Option<ChannelId> {
    match avant.reprise {
        Some(r) => encore(r.vocal, channels),
        None => None,
    }
}

/// The text channel that a welcome opens: the one that was being read, or else
/// the first one.
pub open spec fn salon_ouvert(avant: Session, channels: Seq<ChannelInfo>) -> Option<ChannelId> {
    match salon_rendu(avant, channels) {
        Some(c) => Some(c),
        None => roster::premier_textuel(channels, 0),
    }
}

/// The requests that opening a channel makes, if one is opened.
pub open spec fn demandes_de(salon: Option<ChannelId>) -> Seq<Effet> {
    match salon {
        Some(c) => fil::demandes(c),
        None => Seq::empty(),
    }
}

/// The voice channel is really gone into: we are not there yet, and may.
pub open spec fn entre(v: Vocal, droit: bool, c: ChannelId) -> bool {
    v.salon != Some(c) && droit
}

pub open spec fn effets_entree(v: Vocal, droit: bool, salon: Option<ChannelId>) -> Seq<Effet> {
    match salon {
        Some(c) => if entre(v, droit, c) {
            seq![
                Effet::Son(Son::SelfJoin),
                Effet::Envoyer(ClientMsg::JoinVoice { channel: c, password: None }),
            ]
        } else {
            Seq::empty()
        },
        None => Seq::empty(),
    }
}

/// What being let in leaves: our place on the server, and, after a loss, the
/// channels that we were in.
pub open spec fn apres_accueil(
    avant: Session,
    apres: Session,
    effets: Seq<Effet>,
    w: Bienvenue,
    maintenant: u64,
) -> bool {
    let droit = w.pouvoirs.connect_voice;
    let rendu = salon_rendu(avant, w.channels@);
    let vocal = vocal_rendu(avant, w.channels@);
    &&& apres == (Session {
        lien: Lien {
            connecting: false,
            connect_started: None,
            welcomed: true,
            connecte: avant.lien.connecte,
        },
        reprise: None,
        moi: Moi {
            id: Some(w.user_id),
            perms: w.perms,
            pouvoirs: w.pouvoirs,
            rank: w.rank,
            voice_token: w.voice_token,
        },
        roles: w.roles,
        channels: w.channels,
        server_info: w.server,
        admin: Panneau { name: apres.admin.name, ..avant.admin },
        fil: apres.fil,
        vocal: apres.vocal,
        error: apres.error,
        info: apres.info,
        ..avant
    })
    &&& apres.admin.name@ == if avant.admin.ouvert {
        avant.admin.name@
    } else {
        w.server.name@
    }
    &&& match salon_ouvert(avant, w.channels@) {
        Some(c) => fil::ouvert(avant.fil, apres.fil, c),
        None => apres.fil == avant.fil,
    }
    &&& match vocal {
        Some(c) => if entre(avant.vocal, droit, c) {
            &&& apres.vocal == (Vocal {
                salon: Some(c),
                voisins: apres.vocal.voisins,
                salon_des_voisins: None,
                ..vocal::voulue(avant.vocal, Some(c), maintenant)
            })
            &&& apres.vocal.voisins@.len() == 0
        } else {
            apres.vocal == avant.vocal
        },
        None => apres.vocal == avant.vocal,
    }
    &&& texte::vue(apres.error) == match vocal {
        Some(c) => if avant.vocal.salon != Some(c) && !droit {
            Some("tu n'as pas le droit de rejoindre le vocal"@)
        } else {
            None
        },
        None => None,
    }
    &&& texte::vue(apres.info) == if avant.reprise is Some {
        Some("connexion rétablie"@)
    } else {
        texte::vue(avant.info)
    }
    &&& effets == seq![Effet::RetenirConnexion, Effet::RetenirIdentite] + demandes_de(rendu)
        + effets_entree(avant.vocal, droit, vocal) + if rendu is Some {
        Seq::empty()
    } else {
        demandes_de(roster::premier_textuel(w.channels@, 0))
    }
}

fn encore_la(salon: Option<ChannelId>, channels: &Vec<ChannelInfo>) -> (r: Option<ChannelId>)
    ensures
        r == encore(salon, channels@),
{
    match salon {
        Some(c) => if roster::chercher_salon(channels, c) < channels.len() {
            Some(c)
        } else {
            None
        },
        None => None,
    }
}

impl Session {
    fn installer(&mut self, w: Bienvenue)
        ensures
            *final(self) == (Session {
                lien: Lien {
                    connecting: false,
                    connect_started: None,
                    welcomed: true,
                    connecte: old(self).lien.connecte,
                },
                moi: Moi {
                    id: Some(w.user_id),
                    perms: w.perms,
                    pouvoirs: w.pouvoirs,
                    rank: w.rank,
                    voice_token: w.voice_token,
                },
                roles: w.roles,
                channels: w.channels,
                server_info: w.server,
                admin: Panneau { name: final(self).admin.name, ..old(self).admin },
                error: None,
                ..*old(self)
            }),
            final(self).admin.name@ == if old(self).admin.ouvert {
                old(self).admin.name@
            } else {
                w.server.name@
            },
    {
        self.lien.welcomed = true;
        self.lien.connecting = false;
        self.lien.connect_started = None;
        self.error = None;
        self.moi = Moi {
            id: Some(w.user_id),
            perms: w.perms,
            pouvoirs: w.pouvoirs,
            rank: w.rank,
            voice_token: w.voice_token,
        };
        self.roles = w.roles;
        self.channels = w.channels;
        self.server_info = w.server;
        if !self.admin.ouvert {
            self.admin.name = self.server_info.name.clone();
        }
    }

    fn rendre_la_place(&mut self, maintenant: u64) -> (r: (Vec<Effet>, bool))
        requires
            old(self).error is None,
        ensures
            ({
                let avant = *old(self);
                let apres = *final(self);
                let droit = avant.moi.pouvoirs.connect_voice;
                let rendu = salon_rendu(avant, avant.channels@);
                let vocal = vocal_rendu(avant, avant.channels@);
                &&& apres == (Session {
                    reprise: None,
                    fil: apres.fil,
                    vocal: apres.vocal,
                    error: apres.error,
                    info: apres.info,
                    ..avant
                })
                &&& r.1 == rendu is Some
                &&& match rendu {
                    Some(c) => fil::ouvert(avant.fil, apres.fil, c),
                    None => apres.fil == avant.fil,
                }
                &&& match vocal {
                    Some(c) => if entre(avant.vocal, droit, c) {
                        &&& apres.vocal == (Vocal {
                            salon: Some(c),
                            voisins: apres.vocal.voisins,
                            salon_des_voisins: None,
                            ..vocal::voulue(avant.vocal, Some(c), maintenant)
                        })
                        &&& apres.vocal.voisins@.len() == 0
                    } else {
                        apres.vocal == avant.vocal
                    },
                    None => apres.vocal == avant.vocal,
                }
                &&& texte::vue(apres.error) == match vocal {
                    Some(c) => if avant.vocal.salon != Some(c) && !droit {
                        Some("tu n'as pas le droit de rejoindre le vocal"@)
                    } else {
                        None
                    },
                    None => None,
                }
                &&& texte::vue(apres.info) == if avant.reprise is Some {
                    Some("connexion rétablie"@)
                } else {
                    texte::vue(avant.info)
                }
                &&& r.0@ == demandes_de(rendu) + effets_entree(avant.vocal, droit, vocal)
            }),
    {
        let reprise: Option<crate::reprise::Reprise> = self.reprise.take();
        let r: crate::reprise::Reprise = match reprise {
            Some(r) => r,
            None => {
                let effets: Vec<Effet> = Vec::new();
                assert(effets@ =~= Seq::<Effet>::empty() + Seq::<Effet>::empty());
                return (effets, false);
            },
        };
        let salon: Option<ChannelId> = encore_la(r.salon, &self.channels);
        let vocal: Option<ChannelId> = encore_la(r.vocal, &self.channels);
        let mut effets: Vec<Effet> = Vec::new();
        if let Some(c) = salon {
            effets = self.join(c);
        }
        assert(effets@ =~= demandes_de(salon));
        if let Some(c) = vocal {
            let mut e: Vec<Effet> = self.join_voice(c, maintenant);
            assert(e@ =~= effets_entree(
                old(self).vocal,
                old(self).moi.pouvoirs.connect_voice,
                vocal,
            ));
            effets.append(&mut e);
        }
        assert(effets@ =~= demandes_de(salon) + effets_entree(
            old(self).vocal,
            old(self).moi.pouvoirs.connect_voice,
            vocal,
        ));
        self.info = Some("connexion rétablie".to_owned());
        (effets, salon.is_some())
    }

    /// The server has let us in.
    pub fn accueillir(&mut self, w: Bienvenue, maintenant: u64) -> (effets: Vec<Effet>)
        ensures
            apres_accueil(*old(self), *final(self), effets@, w, maintenant),
    {
        let mut effets: Vec<Effet> = Vec::new();
        effets.push(Effet::RetenirConnexion);
        effets.push(Effet::RetenirIdentite);
        assert(effets@ =~= seq![Effet::RetenirConnexion, Effet::RetenirIdentite]);
        self.installer(w);
        let (mut retour, rendu): (Vec<Effet>, bool) = self.rendre_la_place(maintenant);
        let ghost milieu = effets@ + retour@;
        effets.append(&mut retour);
        assert(milieu =~= seq![Effet::RetenirConnexion, Effet::RetenirIdentite] + demandes_de(
            salon_rendu(*old(self), w.channels@),
        ) + effets_entree(
            old(self).vocal,
            w.pouvoirs.connect_voice,
            vocal_rendu(*old(self), w.channels@),
        ));
        if rendu {
            assert(effets@ =~= milieu + Seq::<Effet>::empty());
            return effets;
        }
        let premier: Option<ChannelId> = roster::ouvrir_textuel(&self.channels);
        if let Some(c) = premier {
            let mut e: Vec<Effet> = self.join(c);
            effets.append(&mut e);
        }
        assert(effets@ =~= milieu + demandes_de(premier));
        effets
    }
}

/// A connection that comes back gives back the place that was lost: the text
/// channel being read and the voice channel, wherever they still exist.
pub proof fn loi_place_rendue(
    avant: Session,
    apres: Session,
    effets: Seq<Effet>,
    w: Bienvenue,
    maintenant: u64,
    salon: ChannelId,
    parle: ChannelId,
)
    requires
        apres_accueil(avant, apres, effets, w, maintenant),
        avant.reprise matches Some(r) && r.salon == Some(salon) && r.vocal == Some(parle),
        avant.vocal.salon is None,
        roster::a_salon(w.channels@, salon),
        roster::a_salon(w.channels@, parle),
        w.pouvoirs.connect_voice,
    ensures
        apres.fil.current == Some(salon),
        apres.vocal.salon == Some(parle),
        apres.reprise is None,
        apres.error is None,
{
}

/// A first connection opens a channel to read, and no voice channel: that is
/// for the user to decide.
pub proof fn loi_premiere_entree(
    avant: Session,
    apres: Session,
    effets: Seq<Effet>,
    w: Bienvenue,
    maintenant: u64,
)
    requires
        apres_accueil(avant, apres, effets, w, maintenant),
        avant.reprise is None,
    ensures
        apres.vocal == avant.vocal,
        roster::premier_textuel(w.channels@, 0) matches Some(c) ==> apres.fil.current == Some(c),
{
}

// ---------------------------------------------------------------------
// Messages
// ---------------------------------------------------------------------

/// The names on the list.
pub open spec fn noms(s: Seq<Member>) -> Seq<Seq<char>> {
    Seq::new(s.len(), |i: int| s[i].username@)
}

/// This message names us.
pub open spec fn pour_moi(s: Session, m: ChatRecord) -> bool {
    match s.pseudo() {
        Some(moi) => markup::me_nomme(m.text@, noms(s.members@), moi),
        None => false,
    }
}

/// This message makes itself heard: it is someone else's, and it names us or
/// the window is not being looked at.
pub open spec fn previent(s: Session, m: ChatRecord) -> bool {
    s.moi.id != Some(m.user_id) && (pour_moi(s, m) || !s.window_focused)
}

/// What a message leaves.
pub open spec fn apres_message(
    avant: Session,
    apres: Session,
    effets: Seq<Effet>,
    m: ChatRecord,
) -> bool {
    &&& apres.fil.messages@ == fil::ajoute(avant.fil.messages@, m)
    &&& apres == (Session {
        fil: Fil { messages: apres.fil.messages, ..avant.fil },
        wants_attention: avant.wants_attention || previent(avant, m),
        ..avant
    })
    &&& effets == if previent(avant, m) {
        seq![Effet::Son(Son::Message)]
    } else {
        Seq::empty()
    }
}

impl Session {
    fn nomme_moi(&self, m: &ChatRecord) -> (r: bool)
        ensures
            r == pour_moi(*self, *m),
    {
        match self.my_pseudo() {
            Some(moi) => {
                let mut membres: Vec<&str> = Vec::new();
                let mut i: usize = 0;
                while i < self.members.len()
                    invariant
                        i <= self.members@.len(),
                        membres@.len() == i,
                        forall|k: int|
                            0 <= k < i ==> (#[trigger] membres@[k])@ == self.members@[k].username@,
                    decreases self.members@.len() - i,
                {
                    membres.push(self.members[i].username.as_str());
                    i += 1;
                }
                assert(markup::noms(membres@) =~= noms(self.members@));
                markup::me_mentionne(m.text.as_str(), membres.as_slice(), moi)
            },
            None => false,
        }
    }

    /// A message came.
    pub fn recevoir_message(&mut self, m: ChatRecord) -> (effets: Vec<Effet>)
        ensures
            apres_message(*old(self), *final(self), effets@, m),
    {
        let mut effets: Vec<Effet> = Vec::new();
        let d_un_autre: bool = match self.moi.id {
            Some(id) => id != m.user_id,
            None => true,
        };
        if d_un_autre && (self.nomme_moi(&m) || !self.window_focused) {
            effets.push(Effet::Son(Son::Message));
            self.wants_attention = true;
        }
        assert(effets@ =~= if previent(*old(self), m) {
            seq![Effet::Son(Son::Message)]
        } else {
            Seq::empty()
        });
        self.fil.ajouter(m);
        effets
    }
}

/// Our own messages never make a sound nor ask for attention, and being named
/// always does, even in a window that is being looked at.
pub proof fn loi_avertissement(
    avant: Session,
    apres: Session,
    effets: Seq<Effet>,
    m: ChatRecord,
)
    requires
        apres_message(avant, apres, effets, m),
    ensures
        avant.moi.id == Some(m.user_id) ==> effets.len() == 0 && apres.wants_attention
            == avant.wants_attention,
        avant.moi.id != Some(m.user_id) && pour_moi(avant, m) ==> apres.wants_attention && effets
            == seq![Effet::Son(Son::Message)],
{
}

// ---------------------------------------------------------------------
// Members
// ---------------------------------------------------------------------

/// What follows a change of the list: the pictures to look for, then what
/// [`roster::apres_liste`] says.
pub open spec fn apres_fiches(
    avant: Session,
    apres: Session,
    effets: Seq<Effet>,
    fiches: Seq<Member>,
    liste: Seq<Member>,
    maintenant: u64,
) -> bool {
    let manquantes = roster::a_charger(avant.photos@, fiches);
    let n: int = if manquantes.len() > 0 {
        1
    } else {
        0
    };
    let milieu = Session { members: apres.members, photos: apres.photos, ..avant };
    &&& apres.members@ == liste
    &&& apres.photos@ == roster::photos_apres(avant.photos@, fiches)
    &&& effets.len() >= n
    &&& manquantes.len() > 0 ==> (effets[0] matches Effet::ChercherPhotos(v) && roster::vues(v@)
        == manquantes)
    &&& roster::apres_liste(milieu, apres, effets.skip(n), maintenant)
}

impl Session {
    /// The whole list of members came.
    pub fn recevoir_liste(&mut self, members: Vec<Member>, maintenant: u64) -> (effets: Vec<Effet>)
        ensures
            apres_fiches(*old(self), *final(self), effets@, members@, members@, maintenant),
    {
        let mut effets: Vec<Effet> = Vec::new();
        let manquantes: Vec<(UserId, String)> = roster::photos_a_charger(
            &mut self.photos,
            &members,
        );
        if manquantes.len() > 0 {
            effets.push(Effet::ChercherPhotos(manquantes));
        }
        let ghost n = effets@.len() as int;
        self.members = members;
        let mut suite: Vec<Effet> = self.after_roster_change(maintenant);
        let ghost s = suite@;
        effets.append(&mut suite);
        assert(effets@.skip(n) =~= s);
        effets
    }

    /// One member's card came.
    pub fn recevoir_fiche(&mut self, member: Member, maintenant: u64) -> (effets: Vec<Effet>)
        ensures
            apres_fiches(
                *old(self),
                *final(self),
                effets@,
                seq![member],
                roster::fusion(old(self).members@, member),
                maintenant,
            ),
    {
        let mut effets: Vec<Effet> = Vec::new();
        let mut une: Vec<Member> = Vec::new();
        une.push(member);
        assert(une@ =~= seq![member]);
        let manquantes: Vec<(UserId, String)> = roster::photos_a_charger(&mut self.photos, &une);
        if manquantes.len() > 0 {
            effets.push(Effet::ChercherPhotos(manquantes));
        }
        let ghost n = effets@.len() as int;
        let fiche: Member = une.remove(0);
        assert(fiche == member);
        roster::fusionner(&mut self.members, fiche);
        let mut suite: Vec<Effet> = self.after_roster_change(maintenant);
        let ghost s = suite@;
        effets.append(&mut suite);
        assert(effets@.skip(n) =~= s);
        effets
    }
}

// ---------------------------------------------------------------------
// Channels
// ---------------------------------------------------------------------

/// What a new list of channels leaves: a channel that is gone is not read any
/// more, nor spoken in.
pub open spec fn apres_salons(
    avant: Session,
    apres: Session,
    effets: Seq<Effet>,
    channels: Vec<ChannelInfo>,
) -> bool {
    let premier = roster::premier_textuel(channels@, 0);
    let perdu = avant.vocal.salon matches Some(c) && !roster::a_salon(channels@, c);
    &&& apres == (Session {
        channels,
        fil: apres.fil,
        vocal: if perdu {
            Vocal { salon: None, armed: false, transmitting: false, ..avant.vocal }
        } else {
            avant.vocal
        },
        info: apres.info,
        ..avant
    })
    &&& texte::vue(apres.info) == if perdu {
        Some("le salon vocal a été fermé"@)
    } else {
        texte::vue(avant.info)
    }
    &&& if encore(avant.fil.current, channels@) is Some {
        apres.fil == avant.fil && effets.len() == 0
    } else {
        match premier {
            Some(c) => fil::ouvert(avant.fil, apres.fil, c) && effets == fil::demandes(c),
            None => {
                &&& apres.fil.messages@.len() == 0
                &&& apres.fil == (Fil {
                    current: None,
                    messages: apres.fil.messages,
                    ..avant.fil
                })
                &&& effets.len() == 0
            },
        }
    }
}

impl Session {
    /// The list of channels changed.
    pub fn recevoir_salons(&mut self, channels: Vec<ChannelInfo>) -> (effets: Vec<Effet>)
        ensures
            apres_salons(*old(self), *final(self), effets@, channels),
    {
        let mut effets: Vec<Effet> = Vec::new();
        self.channels = channels;
        if encore_la(self.fil.current, &self.channels).is_none() {
            match roster::ouvrir_textuel(&self.channels) {
                Some(c) => {
                    effets = self.join(c);
                },
                None => {
                    self.fil.current = None;
                    self.fil.messages = Vec::new();
                },
            }
        }
        let perdu: bool = match self.vocal.salon {
            Some(c) => roster::chercher_salon(&self.channels, c) >= self.channels.len(),
            None => false,
        };
        if perdu {
            self.vocal.salon = None;
            self.vocal.armed = false;
            self.vocal.transmitting = false;
            self.info = Some("le salon vocal a été fermé".to_owned());
        }
        effets
    }
}

/// Whatever channels are taken away, the one being read and the one being
/// spoken in are among those that are left.
pub proof fn loi_salons_vivants(
    avant: Session,
    apres: Session,
    effets: Seq<Effet>,
    channels: Vec<ChannelInfo>,
)
    requires
        apres_salons(avant, apres, effets, channels),
    ensures
        apres.fil.current matches Some(c) ==> roster::a_salon(apres.channels@, c),
        apres.vocal.salon matches Some(c) ==> roster::a_salon(apres.channels@, c),
{
    lemme_premier_textuel(channels@, 0);
}

proof fn lemme_premier_textuel(s: Seq<ChannelInfo>, de: int)
    requires
        0 <= de <= s.len(),
    ensures
        roster::premier_textuel(s, de) matches Some(c) ==> roster::a_salon(s, c),
    decreases s.len() - de,
{
    if de < s.len() {
        lemme_premier_textuel(s, de + 1);
        assert(s[de].id == s[de].id);
    }
}

// ---------------------------------------------------------------------
// The windows
// ---------------------------------------------------------------------

/// The administration window was closed.
pub open spec fn admin_ferme(avant: Session) -> Session {
    Session {
        admin: Panneau {
            ouvert: false,
            last_invite: None,
            icon: IconChange::Keep,
            ..avant.admin
        },
        info: None,
        ..avant
    }
}

impl Session {
    pub fn close_admin(&mut self)
        ensures
            *final(self) == admin_ferme(*old(self)),
    {
        self.admin.ouvert = false;
        self.info = None;
        self.admin.last_invite = None;
        self.admin.icon = IconChange::Keep;
    }

    /// Our permissions changed. A window opened on what we may not do any more
    /// is closed.
    pub fn recevoir_droits(&mut self, perms: Perms, pouvoirs: Pouvoirs, rank: u16)
        ensures
            *final(self) == ({
                let s = Session {
                    moi: Moi { perms, pouvoirs, rank, ..old(self).moi },
                    ..*old(self)
                };
                if pouvoirs.administre() {
                    s
                } else {
                    admin_ferme(s)
                }
            }),
    {
        self.moi.perms = perms;
        self.moi.pouvoirs = pouvoirs;
        self.moi.rank = rank;
        if !self.moi.pouvoirs.any_admin_power() {
            self.close_admin();
        }
    }

    /// The name or the icon of the server changed.
    pub fn recevoir_identite(&mut self, server: ServerInfo) -> (effets: Vec<Effet>)
        ensures
            *final(self) == (Session {
                server_info: server,
                admin: Panneau { name: final(self).admin.name, ..old(self).admin },
                ..*old(self)
            }),
            final(self).admin.name@ == if old(self).admin.ouvert {
                old(self).admin.name@
            } else {
                server.name@
            },
            effets@ == seq![Effet::RetenirIdentite],
    {
        let mut effets: Vec<Effet> = Vec::new();
        self.server_info = server;
        effets.push(Effet::RetenirIdentite);
        if !self.admin.ouvert {
            self.admin.name = self.server_info.name.clone();
        }
        effets
    }

    /// A member is on the line: a picture that is not shown yet is asked for.
    pub fn recevoir_arrivee(&mut self, user_id: UserId) -> (effets: Vec<Effet>)
        ensures
            *final(self) == *old(self),
            if old(self).photos@.contains_key(user_id) {
                effets@.len() == 0
            } else {
                effets@.len() == 1 && (effets@[0] matches Effet::Envoyer(
                    ClientMsg::RequestAvatars { user_ids },
                ) && user_ids@ == seq![user_id])
            },
    {
        broadcast use vstd::std_specs::btree::group_btree_axioms;

        let mut effets: Vec<Effet> = Vec::new();
        if !self.photos.contains_key(&user_id) {
            let mut user_ids: Vec<UserId> = Vec::new();
            user_ids.push(user_id);
            assert(user_ids@ =~= seq![user_id]);
            effets.push(Effet::Envoyer(ClientMsg::RequestAvatars { user_ids }));
        }
        effets
    }

    /// An account is gone.
    pub fn recevoir_depart(&mut self, user_id: UserId)
        ensures
            final(self).members@ == old(self).members@.filter(|m: Member| m.user_id != user_id),
            *final(self) == (Session { members: final(self).members, ..*old(self) }),
    {
        let ghost p = |m: Member| m.user_id != user_id;
        let mut garde: Vec<bool> = Vec::new();
        let mut i: usize = 0;
        while i < self.members.len()
            invariant
                *self == *old(self),
                p == |m: Member| m.user_id != user_id,
                i <= self.members@.len(),
                garde@.len() == i,
                forall|k: int| 0 <= k < i ==> #[trigger] garde@[k] == p(self.members@[k]),
            decreases self.members@.len() - i,
        {
            garde.push(self.members[i].user_id != user_id);
            i += 1;
        }
        listes::retenir(&mut self.members, &garde, Ghost(p));
    }

    /// A member speaks, or was muted.
    pub fn recevoir_voix(&mut self, user_id: UserId, speaking: bool, muted: bool)
        ensures
            *final(self) == (Session { members: final(self).members, ..*old(self) }),
            final(self).members@ == ({
                let s = old(self).members@;
                let i = roster::place(s, user_id, 0);
                if i < s.len() {
                    s.update(i, (Member { speaking, muted, ..s[i] }))
                } else {
                    s
                }
            }),
    {
        let i: usize = roster::chercher_membre(&self.members, user_id);
        if i < self.members.len() {
            self.members[i].speaking = speaking;
            self.members[i].muted = muted;
        }
    }

    /// The server complains. Before it has let us in, that is a refusal.
    pub fn recevoir_erreur(&mut self, message: String) -> (effets: Vec<Effet>)
        ensures
            if old(self).lien.welcomed {
                &&& *final(self) == (Session { error: Some(message), ..*old(self) })
                &&& effets@.len() == 0
            } else {
                &&& final(self).fermee(*old(self), Some(message@))
                &&& effets@ == session::effets_fermeture(*old(self)).push(Effet::ArreterVocal)
            },
    {
        if !self.lien.welcomed {
            return self.disconnect(Some(message));
        }
        self.error = Some(message);
        Vec::new()
    }

    /// An administrator has thrown us out.
    pub fn recevoir_expulsion(&mut self, reason: String) -> (effets: Vec<Effet>)
        ensures
            final(self).fermee(
                *old(self),
                Some(
                    if reason@.len() == 0 {
                        "tu as été expulsé par un admin"@
                    } else {
                        "expulsé par un admin : "@ + reason@
                    },
                ),
            ),
            effets@ == session::effets_fermeture(*old(self)).push(Effet::ArreterVocal),
    {
        let m: String = if reason.as_str().is_empty() {
            "tu as été expulsé par un admin".to_owned()
        } else {
            let mut m: String = "expulsé par un admin : ".to_owned();
            m.append(reason.as_str());
            m
        };
        self.disconnect(Some(m))
    }

    /// A voice channel asks for a password.
    pub fn recevoir_verrou(&mut self, channel: ChannelId, wrong: bool)
        ensures
            *final(self) == (Session {
                vocal: Vocal { salon: None, intention: None, ..old(self).vocal },
                voice_prompt: final(self).voice_prompt,
                ..*old(self)
            }),
            final(self).voice_prompt matches Some(p) && p.channel == channel && p.wrong == wrong
                && p.password@.len() == 0,
    {
        self.vocal.salon = None;
        self.vocal.intention = None;
        self.voice_prompt = Some(VoicePrompt { channel, password: String::new(), wrong });
    }

    /// A picture came, or there is none any more. One that is not what it
    /// should be changes nothing.
    pub fn recevoir_photo(&mut self, user_id: UserId, hash: String, vignette: Vignette) -> (effets:
        Vec<Effet>)
        ensures
            *final(self) == (Session { photos: final(self).photos, ..*old(self) }),
            match vignette {
                Vignette::Aucune => final(self).photos@ == old(self).photos@.remove(user_id)
                    && effets@ == seq![Effet::OublierPhoto(user_id)],
                Vignette::Invalide => final(self).photos == old(self).photos && effets@.len() == 0,
                Vignette::Valide(png) => final(self).photos == old(self).photos && effets@ == seq![
                    Effet::GarderPhoto { user_id, hash, png },
                ],
            },
    {
        broadcast use vstd::std_specs::btree::group_btree_axioms;

        let mut effets: Vec<Effet> = Vec::new();
        match vignette {
            Vignette::Aucune => {
                let _ = self.photos.remove(&user_id);
                effets.push(Effet::OublierPhoto(user_id));
            },
            Vignette::Invalide => {},
            Vignette::Valide(png) => {
                effets.push(Effet::GarderPhoto { user_id, hash, png });
            },
        }
        effets
    }

    /// A picture is shown now.
    pub fn montrer_photo(&mut self, user_id: UserId, hash: String)
        ensures
            final(self).photos@ == old(self).photos@.insert(user_id, hash),
            *final(self) == (Session { photos: final(self).photos, ..*old(self) }),
    {
        broadcast use vstd::std_specs::btree::group_btree_axioms;

        let _ = self.photos.insert(user_id, hash);
    }
}

/// The request for the pictures that are not on disk; none where all are.
pub fn demander_photos(absentes: Vec<UserId>) -> (r: Option<ClientMsg>)
    ensures
        r == if absentes@.len() == 0 {
            None
        } else {
            Some(ClientMsg::RequestAvatars { user_ids: absentes })
        },
{
    if absentes.len() == 0 {
        None
    } else {
        Some(ClientMsg::RequestAvatars { user_ids: absentes })
    }
}

// ---------------------------------------------------------------------
// All of them
// ---------------------------------------------------------------------

/// What a message of the server leaves.
pub open spec fn traite(
    avant: Session,
    apres: Session,
    debit_avant: Debit,
    debit: Debit,
    effets: Seq<Effet>,
    msg: ServerMsg,
    maintenant: u64,
) -> bool {
    &&& msg !is NetQuality ==> debit == debit_avant
    &&& match msg {
        ServerMsg::Welcome(w) => apres_accueil(avant, apres, effets, w, maintenant),
        ServerMsg::Chat(m) => apres_message(avant, apres, effets, m),
        ServerMsg::History { messages } => {
            &&& apres == (Session { fil: Fil { messages, ..avant.fil }, ..avant })
            &&& effets.len() == 0
        },
        ServerMsg::SearchResults { query, hits, more } => {
            &&& effets.len() == 0
            &&& apres == if texte::vue(avant.recherche.envoyee) == Some(query@) {
                Session {
                    recherche: crate::session::Recherche {
                        envoyee: None,
                        hits,
                        more,
                        ..avant.recherche
                    },
                    ..avant
                }
            } else {
                avant
            }
        },
        ServerMsg::HistoryPage { messages, more, channel } => {
            &&& apres == (Session { fil: apres.fil, ..avant })
            &&& fil::apres_page(avant.fil, apres.fil, messages@, more, channel)
            &&& effets.len() == 0
        },
        ServerMsg::Members { members } => apres_fiches(
            avant,
            apres,
            effets,
            members@,
            members@,
            maintenant,
        ),
        ServerMsg::MemberUpdate { member } => apres_fiches(
            avant,
            apres,
            effets,
            seq![member],
            roster::fusion(avant.members@, member),
            maintenant,
        ),
        ServerMsg::UserJoined { user_id } => {
            &&& apres == avant
            &&& if avant.photos@.contains_key(user_id) {
                effets.len() == 0
            } else {
                effets.len() == 1 && (effets[0] matches Effet::Envoyer(
                    ClientMsg::RequestAvatars { user_ids },
                ) && user_ids@ == seq![user_id])
            }
        },
        ServerMsg::UserLeft { user_id } => {
            &&& apres.members@ == avant.members@.filter(|m: Member| m.user_id != user_id)
            &&& apres == (Session { members: apres.members, ..avant })
            &&& effets.len() == 0
        },
        ServerMsg::VoiceState { user_id, speaking, muted } => {
            let s = avant.members@;
            let i = roster::place(s, user_id, 0);
            &&& apres == (Session { members: apres.members, ..avant })
            &&& apres.members@ == if i < s.len() {
                s.update(i, (Member { speaking, muted, ..s[i] }))
            } else {
                s
            }
            &&& effets.len() == 0
        },
        ServerMsg::Error { message } => if avant.lien.welcomed {
            apres == (Session { error: Some(message), ..avant }) && effets.len() == 0
        } else {
            &&& apres.fermee(avant, Some(message@))
            &&& effets == session::effets_fermeture(avant).push(Effet::ArreterVocal)
        },
        ServerMsg::Kicked { reason } => {
            &&& apres.fermee(
                avant,
                Some(
                    if reason@.len() == 0 {
                        "tu as été expulsé par un admin"@
                    } else {
                        "expulsé par un admin : "@ + reason@
                    },
                ),
            )
            &&& effets == session::effets_fermeture(avant).push(Effet::ArreterVocal)
        },
        ServerMsg::AdminInfo { users, invites } => {
            &&& apres == (Session { admin: Panneau { users, invites, ..avant.admin }, ..avant })
            &&& effets.len() == 0
        },
        ServerMsg::AuditLog { records } => {
            &&& apres == (Session { admin: Panneau { audit: records, ..avant.admin }, ..avant })
            &&& effets.len() == 0
        },
        ServerMsg::Perms { perms, pouvoirs, rank } => {
            let s = Session { moi: Moi { perms, pouvoirs, rank, ..avant.moi }, ..avant };
            &&& apres == if pouvoirs.administre() {
                s
            } else {
                admin_ferme(s)
            }
            &&& effets.len() == 0
        },
        ServerMsg::Roles { roles } => apres == (Session { roles, ..avant }) && effets.len() == 0,
        ServerMsg::ChannelsUpdated { channels } => apres_salons(avant, apres, effets, channels),
        ServerMsg::VoiceLocked { channel, wrong } => {
            &&& apres == (Session {
                vocal: Vocal { salon: None, intention: None, ..avant.vocal },
                voice_prompt: apres.voice_prompt,
                ..avant
            })
            &&& apres.voice_prompt matches Some(p) && p.channel == channel && p.wrong == wrong
                && p.password@.len() == 0
            &&& effets.len() == 0
        },
        ServerMsg::InviteCreated { code } => {
            &&& apres == (Session {
                admin: Panneau { last_invite: Some(code), ..avant.admin },
                ..avant
            })
            &&& effets.len() == 0
        },
        ServerMsg::Info { message } => {
            apres == (Session { info: Some(message), ..avant }) && effets.len() == 0
        },
        ServerMsg::ServerInfo { server } => {
            &&& apres == (Session {
                server_info: server,
                admin: Panneau { name: apres.admin.name, ..avant.admin },
                ..avant
            })
            &&& apres.admin.name@ == if avant.admin.ouvert {
                avant.admin.name@
            } else {
                server.name@
            }
            &&& effets == seq![Effet::RetenirIdentite]
        },
        ServerMsg::Avatar { user_id, hash, vignette } => {
            &&& apres == (Session { photos: apres.photos, ..avant })
            &&& match vignette {
                Vignette::Aucune => apres.photos@ == avant.photos@.remove(user_id) && effets == seq![
                    Effet::OublierPhoto(user_id),
                ],
                Vignette::Invalide => apres.photos == avant.photos && effets.len() == 0,
                Vignette::Valide(png) => apres.photos == avant.photos && effets == seq![
                    Effet::GarderPhoto { user_id, hash, png },
                ],
            }
        },
        ServerMsg::NetQuality { pertes } => {
            &&& apres == avant
            &&& debit == (Debit {
                auto_bitrate: vocal::pilote(debit_avant, pertes).0,
                good_reports: vocal::pilote(debit_avant, pertes).1,
                dred_active: vocal::protege(debit_avant, pertes),
                ..debit_avant
            })
            &&& effets == if debit.dred_active != debit_avant.dred_active || debit.auto_bitrate
                != debit_avant.auto_bitrate {
                seq![Effet::ReglerAudio]
            } else {
                Seq::empty()
            }
        },
        ServerMsg::Pong => apres == avant && effets.len() == 0,
    }
}

impl Session {
    /// Takes in a message of the server, and says what the application has to
    /// do about it.
    #[verifier::rlimit(60)]
    pub fn handle_server_msg(&mut self, debit: &mut Debit, msg: ServerMsg, maintenant: u64) -> (effets:
        Vec<Effet>)
        ensures
            traite(
                *old(self),
                *final(self),
                *old(debit),
                *final(debit),
                effets@,
                msg,
                maintenant,
            ),
    {
        match msg {
            ServerMsg::Welcome(w) => self.accueillir(w, maintenant),
            ServerMsg::Chat(m) => self.recevoir_message(m),
            ServerMsg::History { messages } => {
                self.fil.messages = messages;
                Vec::new()
            },
            ServerMsg::SearchResults { query, hits, more } => {
                self.resultats(query.as_str(), hits, more);
                Vec::new()
            },
            ServerMsg::HistoryPage { messages, more, channel } => {
                self.fil.page(messages, more, channel);
                Vec::new()
            },
            ServerMsg::Members { members } => self.recevoir_liste(members, maintenant),
            ServerMsg::MemberUpdate { member } => self.recevoir_fiche(member, maintenant),
            ServerMsg::UserJoined { user_id } => self.recevoir_arrivee(user_id),
            ServerMsg::UserLeft { user_id } => {
                self.recevoir_depart(user_id);
                Vec::new()
            },
            ServerMsg::VoiceState { user_id, speaking, muted } => {
                self.recevoir_voix(user_id, speaking, muted);
                Vec::new()
            },
            ServerMsg::Error { message } => self.recevoir_erreur(message),
            ServerMsg::Kicked { reason } => self.recevoir_expulsion(reason),
            ServerMsg::AdminInfo { users, invites } => {
                self.admin.users = users;
                self.admin.invites = invites;
                Vec::new()
            },
            ServerMsg::AuditLog { records } => {
                self.admin.audit = records;
                Vec::new()
            },
            ServerMsg::Perms { perms, pouvoirs, rank } => {
                self.recevoir_droits(perms, pouvoirs, rank);
                Vec::new()
            },
            ServerMsg::Roles { roles } => {
                self.roles = roles;
                Vec::new()
            },
            ServerMsg::ChannelsUpdated { channels } => self.recevoir_salons(channels),
            ServerMsg::VoiceLocked { channel, wrong } => {
                self.recevoir_verrou(channel, wrong);
                Vec::new()
            },
            ServerMsg::InviteCreated { code } => {
                self.admin.last_invite = Some(code);
                Vec::new()
            },
            ServerMsg::Info { message } => {
                self.info = Some(message);
                Vec::new()
            },
            ServerMsg::ServerInfo { server } => self.recevoir_identite(server),
            ServerMsg::Avatar { user_id, hash, vignette } => self.recevoir_photo(
                user_id,
                hash,
                vignette,
            ),
            ServerMsg::NetQuality { pertes } => {
                let mut effets: Vec<Effet> = Vec::new();
                if debit.on_net_quality(pertes) {
                    effets.push(Effet::ReglerAudio);
                    assert(effets@ =~= seq![Effet::ReglerAudio]);
                }
                effets
            },
            ServerMsg::Pong => Vec::new(),
        }
    }
}

/// Nothing but a refusal, a loss or being thrown out ends a session: after any
/// other message we are where we were with the server.
pub proof fn loi_session_tient(
    avant: Session,
    apres: Session,
    debit_avant: Debit,
    debit: Debit,
    effets: Seq<Effet>,
    msg: ServerMsg,
    maintenant: u64,
)
    requires
        traite(avant, apres, debit_avant, debit, effets, msg, maintenant),
        avant.lien.welcomed,
        msg !is Kicked,
    ensures
        apres.lien.welcomed,
        apres.lien.connecte == avant.lien.connecte,
{
}

// ---------------------------------------------------------------------
// What the messages promise
// ---------------------------------------------------------------------

/// The list of members that the server sends makes law, and one card replaces
/// one card: our place in the voice is what our own card says, unless an order
/// of ours that it does not show is less than its delay old.
pub proof fn loi_la_liste_fait_foi(
    avant: Session,
    apres: Session,
    debit_avant: Debit,
    debit: Debit,
    effets: Seq<Effet>,
    msg: ServerMsg,
    maintenant: u64,
    moi: UserId,
    i: int,
)
    requires
        traite(avant, apres, debit_avant, debit, effets, msg, maintenant),
        avant.moi.id == Some(moi),
        msg is Members || msg is MemberUpdate,
    ensures
        msg matches ServerMsg::Members { members } ==> apres.members@ == members@,
        msg matches ServerMsg::MemberUpdate { member } ==> (exists|k: int|
            0 <= k < apres.members@.len() && #[trigger] apres.members@[k] == member),
        (0 <= i < apres.members@.len() && apres.members@[i].user_id == moi && (forall|k: int|
            0 <= k < i ==> (#[trigger] apres.members@[k]).user_id != moi)) ==> {
            let carte = apres.members@[i].voice;
            match avant.vocal.intention {
                None => apres.vocal.salon == carte,
                Some(voulu) => if voulu == carte || maintenant >= avant.vocal.intention_jusqu_a {
                    apres.vocal.salon == carte
                } else {
                    apres.vocal.salon == avant.vocal.salon
                },
            }
        },
        apres.fil == avant.fil && apres.moi == avant.moi && apres.lien == avant.lien,
        apres.channels == avant.channels && apres.error == avant.error,
{
    match msg {
        ServerMsg::Members { members } => {
            lemme_apres_fiches(avant, apres, effets, members@, members@, maintenant, moi, i);
        },
        ServerMsg::MemberUpdate { member } => {
            let liste = roster::fusion(avant.members@, member);
            lemme_apres_fiches(avant, apres, effets, seq![member], liste, maintenant, moi, i);
            roster::lemme_fusion_contient(avant.members@, member);
        },
        _ => {},
    }
}

proof fn lemme_apres_fiches(
    avant: Session,
    apres: Session,
    effets: Seq<Effet>,
    fiches: Seq<Member>,
    liste: Seq<Member>,
    maintenant: u64,
    moi: UserId,
    i: int,
)
    requires
        apres_fiches(avant, apres, effets, fiches, liste, maintenant),
        avant.moi.id == Some(moi),
    ensures
        apres.members@ == liste,
        (0 <= i < apres.members@.len() && apres.members@[i].user_id == moi && (forall|k: int|
            0 <= k < i ==> (#[trigger] apres.members@[k]).user_id != moi)) ==> {
            let carte = apres.members@[i].voice;
            match avant.vocal.intention {
                None => apres.vocal.salon == carte,
                Some(voulu) => if voulu == carte || maintenant >= avant.vocal.intention_jusqu_a {
                    apres.vocal.salon == carte
                } else {
                    apres.vocal.salon == avant.vocal.salon
                },
            }
        },
        apres.fil == avant.fil && apres.moi == avant.moi && apres.lien == avant.lien,
        apres.channels == avant.channels && apres.error == avant.error,
{
    let milieu = Session { members: apres.members, photos: apres.photos, ..avant };
    let n: int = if roster::a_charger(avant.photos@, fiches).len() > 0 {
        1
    } else {
        0
    };
    roster::loi_salon_de_notre_carte(milieu, apres, effets.skip(n), maintenant, moi, i);
}

/// A message is shown below those that were there, as it came; it is heard, and
/// attention asked for, when it is somebody else's and either names us or comes
/// while the window is not being looked at.
pub proof fn loi_message_recu(
    avant: Session,
    apres: Session,
    debit_avant: Debit,
    debit: Debit,
    effets: Seq<Effet>,
    m: ChatRecord,
    maintenant: u64,
)
    requires
        traite(avant, apres, debit_avant, debit, effets, ServerMsg::Chat(m), maintenant),
    ensures
        apres.fil.messages@.len() > 0 && apres.fil.messages@.last() == m,
        avant.fil.messages@.len() < 500 ==> apres.fil.messages@ == avant.fil.messages@ + seq![m],
        avant.moi.id == Some(m.user_id) ==> effets.len() == 0 && apres.wants_attention
            == avant.wants_attention,
        avant.moi.id != Some(m.user_id) && !avant.window_focused ==> effets == seq![
            Effet::Son(Son::Message),
        ] && apres.wants_attention,
        avant.moi.id != Some(m.user_id) && avant.window_focused && !pour_moi(avant, m)
            ==> effets.len() == 0 && apres.wants_attention == avant.wants_attention,
        avant.moi.id != Some(m.user_id) && pour_moi(avant, m) ==> effets == seq![
            Effet::Son(Son::Message),
        ] && apres.wants_attention,
        apres.fil.current == avant.fil.current && apres.members == avant.members && apres.vocal
            == avant.vocal,
{
    fil::loi_message_au_bout(avant.fil.messages@, m);
}

/// A message is for us when it mentions the name that the list of members gives
/// for our number, read with the names on that list.
pub proof fn loi_pour_moi(s: Session, m: ChatRecord, moi: UserId, i: int)
    requires
        s.moi.id == Some(moi),
        0 <= i < s.members@.len(),
        s.members@[i].user_id == moi,
        forall|k: int| 0 <= k < i ==> (#[trigger] s.members@[k]).user_id != moi,
    ensures
        pour_moi(s, m) == markup::me_nomme(
            m.text@,
            s.members@.map_values(|x: Member| x.username@),
            s.members@[i].username@,
        ),
{
    roster::lemme_membre(s.members@, moi, i);
    assert(noms(s.members@) =~= s.members@.map_values(|x: Member| x.username@));
}

/// What the server sends of a conversation: its end replaces what was shown, a
/// page of the past goes on top of it, and a page of a channel that is not being
/// read is thrown away. Search results are taken only for the query that is
/// awaited.
pub proof fn loi_conversation_recue(
    avant: Session,
    apres: Session,
    debit_avant: Debit,
    debit: Debit,
    effets: Seq<Effet>,
    msg: ServerMsg,
    maintenant: u64,
)
    requires
        traite(avant, apres, debit_avant, debit, effets, msg, maintenant),
    ensures
        msg matches ServerMsg::History { messages } ==> apres.fil.messages@ == messages@
            && apres.fil.current == avant.fil.current && apres.fil.history_more
            == avant.fil.history_more && effets.len() == 0,
        msg matches ServerMsg::HistoryPage { messages, more, channel } ==> {
            let a = avant.fil.messages@;
            let b = apres.fil.messages@;
            &&& effets.len() == 0 && apres.members == avant.members
            &&& channel != 0 && avant.fil.current != Some(channel) ==> apres == avant
            &&& channel == 0 || avant.fil.current == Some(channel) ==> apres.fil.history_more
                == more && !apres.fil.history_pending && b.len() >= a.len() && b.subrange(
                b.len() - a.len(),
                b.len() as int,
            ) == a
            &&& (channel == 0 || avant.fil.current == Some(channel)) && a.len() == 0 ==> b
                == messages@
        },
        msg matches ServerMsg::SearchResults { query, hits, more } ==> {
            &&& effets.len() == 0 && apres.fil == avant.fil
            &&& (avant.recherche.envoyee is Some && avant.recherche.envoyee->0@ == query@)
                ==> apres.recherche.hits == hits && apres.recherche.more == more
                && apres.recherche.envoyee is None
            &&& !(avant.recherche.envoyee is Some && avant.recherche.envoyee->0@ == query@)
                ==> apres == avant
        },
{
    if let ServerMsg::HistoryPage { messages, more, channel } = msg {
        if channel == 0 || avant.fil.current == Some(channel) {
            let places = fil::loi_page_garde_son_ordre(
                avant.fil,
                apres.fil,
                messages@,
                more,
                channel,
            );
            let a = avant.fil.messages@;
            let b = apres.fil.messages@;
            let n = places.len() as int;
            assert(b.subrange(b.len() - a.len(), b.len() as int) =~= a) by {
                assert forall|k: int| 0 <= k < a.len() implies b[n + k] == #[trigger] a[k] by {}
            }
            if a.len() == 0 {
                assert forall|i: int| 0 <= i < messages@.len() implies places.contains(i) by {}
                fil::lemme_tout_pris(places, messages@.len() as int);
                assert forall|k: int| 0 <= k < b.len() implies b[k] == messages@[k] by {
                    assert(places[k] == k);
                }
                assert(b =~= messages@);
            }
        }
    }
}

/// Of those who leave nothing stays on the list, and nobody else is touched; a
/// member who speaks or is muted is shown so, and nobody else is.
pub proof fn loi_membres_suivis(
    avant: Session,
    apres: Session,
    debit_avant: Debit,
    debit: Debit,
    effets: Seq<Effet>,
    msg: ServerMsg,
    maintenant: u64,
    k: int,
)
    requires
        traite(avant, apres, debit_avant, debit, effets, msg, maintenant),
        0 <= k < avant.members@.len(),
        forall|i: int, j: int|
            0 <= i < j < avant.members@.len() ==> (#[trigger] avant.members@[i]).user_id != (
            #[trigger] avant.members@[j]).user_id,
    ensures
        msg matches ServerMsg::UserLeft { user_id } ==> {
            &&& forall|i: int|
                0 <= i < apres.members@.len() ==> (#[trigger] apres.members@[i]).user_id != user_id
            &&& avant.members@[k].user_id != user_id ==> apres.members@.contains(avant.members@[k])
            &&& forall|i: int|
                0 <= i < apres.members@.len() ==> avant.members@.contains(
                    #[trigger] apres.members@[i],
                )
            &&& effets.len() == 0 && apres.vocal == avant.vocal && apres.fil == avant.fil
        },
        msg matches ServerMsg::VoiceState { user_id, speaking, muted } ==> {
            &&& apres.members@.len() == avant.members@.len()
            &&& avant.members@[k].user_id != user_id ==> apres.members@[k] == avant.members@[k]
            &&& avant.members@[k].user_id == user_id ==> apres.members@[k] == (Member {
                speaking,
                muted,
                ..avant.members@[k]
            })
            &&& effets.len() == 0 && apres.vocal == avant.vocal && apres.fil == avant.fil
        },
{
    match msg {
        ServerMsg::UserLeft { user_id } => {
            let p = |m: Member| m.user_id != user_id;
            listes::lemme_filtre(avant.members@, p);
            let f = avant.members@.filter(p);
            assert forall|i: int| 0 <= i < f.len() implies avant.members@.contains(
                #[trigger] f[i],
            ) by {
                assert(f.contains(f[i]));
            }
            assert(avant.members@.contains(avant.members@[k]));
        },
        ServerMsg::VoiceState { user_id, speaking, muted } => {
            if avant.members@[k].user_id == user_id {
                roster::lemme_membre(avant.members@, user_id, k);
            } else {
                roster::lemme_place_de(avant.members@, user_id);
            }
        },
        _ => {},
    }
}

/// A complaint before we were let in is a refusal, after which nothing is left
/// of the session; later on it is only told. Whoever is thrown out is told why,
/// is out for good, and the audio devices are given back.
pub proof fn loi_refus_et_expulsion(
    avant: Session,
    apres: Session,
    debit_avant: Debit,
    debit: Debit,
    effets: Seq<Effet>,
    msg: ServerMsg,
    maintenant: u64,
)
    requires
        traite(avant, apres, debit_avant, debit, effets, msg, maintenant),
    ensures
        msg matches ServerMsg::Error { message } ==> {
            &&& apres.error is Some && apres.error->0@ == message@
            &&& avant.lien.welcomed ==> effets.len() == 0 && apres.vocal == avant.vocal
                && apres.members == avant.members && apres.fil == avant.fil && apres.lien
                == avant.lien
            &&& !avant.lien.welcomed ==> effets.last() == Effet::ArreterVocal
                && !apres.lien.connecte && !apres.lien.connecting && apres.reprise is None
        },
        msg matches ServerMsg::Kicked { reason } ==> {
            &&& effets.last() == Effet::ArreterVocal
            &&& !apres.lien.welcomed && !apres.lien.connecte && apres.reprise is None
            &&& apres.members@.len() == 0 && apres.vocal.salon is None && apres.moi.id is None
            &&& apres.error is Some
            &&& reason@.len() > 0 ==> reason@.is_suffix_of(apres.error->0@)
        },
{
    if let ServerMsg::Kicked { reason } = msg {
        if reason@.len() > 0 {
            let t = "expulsé par un admin : "@ + reason@;
            assert(t.subrange(t.len() - reason@.len(), t.len() as int) =~= reason@);
        }
    }
}

/// Our permissions and our rank become those that the server says, and a window
/// of administration that none of them opens any more is closed, with what was
/// being done in it.
pub proof fn loi_droits_recus(
    avant: Session,
    apres: Session,
    debit_avant: Debit,
    debit: Debit,
    effets: Seq<Effet>,
    perms: Perms,
    pouvoirs: Pouvoirs,
    rank: u16,
    maintenant: u64,
)
    requires
        traite(
            avant,
            apres,
            debit_avant,
            debit,
            effets,
            ServerMsg::Perms { perms, pouvoirs, rank },
            maintenant,
        ),
    ensures
        apres.moi.perms == perms && apres.moi.pouvoirs == pouvoirs && apres.moi.rank == rank,
        apres.moi.id == avant.moi.id && apres.moi.voice_token == avant.moi.voice_token,
        pouvoirs.manage_server || pouvoirs.manage_channels || pouvoirs.manage_roles
            || pouvoirs.kick || pouvoirs.ban || pouvoirs.create_invite || pouvoirs.view_audit_log
            ==> apres.admin == avant.admin && apres.info == avant.info,
        !(pouvoirs.manage_server || pouvoirs.manage_channels || pouvoirs.manage_roles
            || pouvoirs.kick || pouvoirs.ban || pouvoirs.create_invite || pouvoirs.view_audit_log)
            ==> !apres.admin.ouvert && apres.admin.last_invite is None && apres.admin.icon is Keep,
        effets.len() == 0 && apres.vocal == avant.vocal && apres.fil == avant.fil,
{
}

/// After the list of channels changed: the channel being read stays open if it is
/// still there, and else the first text channel is opened, if there is one; the
/// voice is left if its channel is gone, and then only, and that is told.
pub proof fn loi_salons_changes(
    avant: Session,
    apres: Session,
    debit_avant: Debit,
    debit: Debit,
    effets: Seq<Effet>,
    channels: Vec<ChannelInfo>,
    maintenant: u64,
    k: int,
)
    requires
        traite(
            avant,
            apres,
            debit_avant,
            debit,
            effets,
            ServerMsg::ChannelsUpdated { channels },
            maintenant,
        ),
    ensures
        apres.channels == channels,
        (0 <= k < channels@.len() && avant.fil.current == Some(channels@[k].id)) ==> apres.fil
            == avant.fil && effets.len() == 0,
        ((avant.fil.current is None || forall|j: int|
            0 <= j < channels@.len() ==> avant.fil.current != Some((#[trigger] channels@[j]).id))
            && 0 <= k < channels@.len() && channels@[k].kind == ChannelKind::Text && forall|j: int|
            0 <= j < k ==> (#[trigger] channels@[j]).kind != ChannelKind::Text) ==> {
            &&& apres.fil.current == Some(channels@[k].id)
            &&& apres.fil.messages@.len() == 0 && apres.fil.history_more
            &&& effets.len() == 2
            &&& effets[0] == Effet::Envoyer(ClientMsg::Join { channel: channels@[k].id })
            &&& effets[1] == Effet::Envoyer(ClientMsg::History { limit: 100 })
        },
        (0 <= k < channels@.len() && avant.vocal.salon == Some(channels@[k].id)) ==> apres.vocal
            == avant.vocal,
        (avant.vocal.salon is Some && forall|j: int|
            0 <= j < channels@.len() ==> avant.vocal.salon != Some((#[trigger] channels@[j]).id))
            ==> apres.vocal.salon is None && !apres.vocal.armed && !apres.vocal.transmitting
            && apres.info is Some,
{
    lemme_premier_de_la_liste(channels@, 0, k);
}

proof fn lemme_premier_de_la_liste(s: Seq<ChannelInfo>, de: int, k: int)
    requires
        0 <= de,
    ensures
        (de <= k < s.len() && s[k].kind == ChannelKind::Text && forall|j: int|
            de <= j < k ==> (#[trigger] s[j]).kind != ChannelKind::Text) ==> roster::premier_textuel(
            s,
            de,
        ) == Some(s[k].id),
    decreases s.len() - de,
{
    if de < s.len() && s[de].kind != ChannelKind::Text {
        lemme_premier_de_la_liste(s, de + 1, k);
    }
}

/// A locked voice channel lets nobody in before its password: we are out of it,
/// the order is dropped, and the password is asked for, for that channel, with an
/// empty field. What the server tells in other messages is kept as it came.
pub proof fn loi_reste_des_messages(
    avant: Session,
    apres: Session,
    debit_avant: Debit,
    debit: Debit,
    effets: Seq<Effet>,
    msg: ServerMsg,
    maintenant: u64,
)
    requires
        traite(avant, apres, debit_avant, debit, effets, msg, maintenant),
    ensures
        msg matches ServerMsg::VoiceLocked { channel, wrong } ==> apres.vocal.salon is None
            && apres.vocal.intention is None && apres.voice_prompt is Some
            && apres.voice_prompt->0.channel == channel && apres.voice_prompt->0.wrong == wrong
            && apres.voice_prompt->0.password@.len() == 0 && effets.len() == 0,
        msg matches ServerMsg::Roles { roles } ==> apres.roles == roles && apres.members
            == avant.members && apres.moi == avant.moi,
        msg matches ServerMsg::AdminInfo { users, invites } ==> apres.admin.users == users
            && apres.admin.invites == invites && apres.admin.ouvert == avant.admin.ouvert,
        msg matches ServerMsg::AuditLog { records } ==> apres.admin.audit == records,
        msg matches ServerMsg::InviteCreated { code } ==> apres.admin.last_invite == Some(code),
        msg matches ServerMsg::Info { message } ==> apres.info == Some(message) && apres.error
            == avant.error,
        msg matches ServerMsg::ServerInfo { server } ==> apres.server_info == server && effets
            == seq![Effet::RetenirIdentite] && (!avant.admin.ouvert ==> apres.admin.name@
            == server.name@) && (avant.admin.ouvert ==> apres.admin.name@ == avant.admin.name@),
        msg matches ServerMsg::Avatar { user_id, hash, vignette } ==> match vignette {
            Vignette::Aucune => !apres.photos@.contains_key(user_id) && effets == seq![
                Effet::OublierPhoto(user_id),
            ] && (forall|q: UserId|
                q != user_id ==> #[trigger] apres.photos@.contains_key(q)
                    == avant.photos@.contains_key(q)),
            Vignette::Invalide => apres == avant && effets.len() == 0,
            Vignette::Valide(png) => apres == avant && effets == seq![
                Effet::GarderPhoto { user_id, hash, png },
            ],
        },
        msg matches ServerMsg::UserJoined { user_id } ==> apres == avant && (effets.len() == 0)
            == avant.photos@.contains_key(user_id) && (effets.len() > 0 ==> effets.len() == 1
            && effets[0] is Envoyer && effets[0]->Envoyer_0 is RequestAvatars
            && effets[0]->Envoyer_0->user_ids@ == seq![user_id]),
        msg matches ServerMsg::NetQuality { pertes } ==> apres == avant && debit
            == vocal::apres_rapport(debit_avant, pertes) && (effets.len() == 0) == (
        debit.auto_bitrate == debit_avant.auto_bitrate && debit.dred_active
            == debit_avant.dred_active),
        !(msg is NetQuality) ==> debit == debit_avant,
        msg is Pong ==> apres == avant && effets.len() == 0,
{
}

/// Being let in: our number, rank, permissions, channels and roles are those of
/// the welcome, what stood as an error goes, and the connection and the identity
/// are remembered. After a loss we are back where we read and where we spoke,
/// wherever that still exists and we may; else the first text channel is opened
/// and no voice channel is.
pub proof fn loi_bienvenue(
    avant: Session,
    apres: Session,
    debit_avant: Debit,
    debit: Debit,
    effets: Seq<Effet>,
    w: Bienvenue,
    maintenant: u64,
    k: int,
)
    requires
        traite(avant, apres, debit_avant, debit, effets, ServerMsg::Welcome(w), maintenant),
    ensures
        apres.lien.welcomed && !apres.lien.connecting && apres.lien.connect_started is None,
        apres.reprise is None,
        apres.moi.id == Some(w.user_id) && apres.moi.rank == w.rank && apres.moi.perms == w.perms,
        apres.moi.pouvoirs == w.pouvoirs && apres.moi.voice_token == w.voice_token,
        apres.roles == w.roles && apres.channels == w.channels && apres.server_info == w.server,
        effets.len() >= 2 && effets[0] == Effet::RetenirConnexion && effets[1]
            == Effet::RetenirIdentite,
        avant.reprise is None ==> apres.error is None && apres.vocal == avant.vocal,
        (avant.reprise is Some && 0 <= k < w.channels@.len() && avant.reprise->0.salon == Some(
            w.channels@[k].id,
        )) ==> apres.fil.current == Some(w.channels@[k].id),
        (avant.reprise is Some && 0 <= k < w.channels@.len() && avant.reprise->0.vocal == Some(
            w.channels@[k].id,
        ) && w.pouvoirs.connect_voice) ==> apres.vocal.salon == Some(w.channels@[k].id)
            && apres.error is None,
        ((avant.reprise is None || avant.reprise->0.salon is None || forall|j: int|
            0 <= j < w.channels@.len() ==> avant.reprise->0.salon != Some(
                (#[trigger] w.channels@[j]).id,
            )) && 0 <= k < w.channels@.len() && w.channels@[k].kind == ChannelKind::Text && forall|
            j: int,
        |
            0 <= j < k ==> (#[trigger] w.channels@[j]).kind != ChannelKind::Text)
            ==> apres.fil.current == Some(w.channels@[k].id) && apres.fil.messages@.len() == 0,
        (avant.reprise is Some && (avant.reprise->0.vocal is None || forall|j: int|
            0 <= j < w.channels@.len() ==> avant.reprise->0.vocal != Some(
                (#[trigger] w.channels@[j]).id,
            ))) ==> apres.vocal == avant.vocal && apres.error is None,
        avant.reprise is Some ==> apres.info is Some,
{
    lemme_premier_de_la_liste(w.channels@, 0, k);
}

/// Whoever has lost the right to speak comes back without the voice, and is told;
/// the channel that one is in already is not gone into again.
pub proof fn loi_retour_sans_voix(
    avant: Session,
    apres: Session,
    debit_avant: Debit,
    debit: Debit,
    effets: Seq<Effet>,
    w: Bienvenue,
    maintenant: u64,
    k: int,
)
    requires
        traite(avant, apres, debit_avant, debit, effets, ServerMsg::Welcome(w), maintenant),
        avant.reprise is Some,
        0 <= k < w.channels@.len(),
        avant.reprise->0.vocal == Some(w.channels@[k].id),
    ensures
        !w.pouvoirs.connect_voice && avant.vocal.salon != Some(w.channels@[k].id) ==> apres.vocal
            == avant.vocal && apres.error is Some,
        avant.vocal.salon == Some(w.channels@[k].id) ==> apres.vocal == avant.vocal && apres.error
            is None,
        w.pouvoirs.connect_voice && avant.vocal.salon != Some(w.channels@[k].id)
            ==> effets.contains(
            Effet::Envoyer(
                ClientMsg::JoinVoice { channel: w.channels@[k].id, password: None },
            ),
        ),
{
    let c = w.channels@[k].id;
    let rendu = salon_rendu(avant, w.channels@);
    if w.pouvoirs.connect_voice && avant.vocal.salon != Some(c) {
        let n = 2 + demandes_de(rendu).len() as int;
        assert(effets_entree(avant.vocal, true, Some(c)).len() == 2);
        assert(effets[n + 1] == Effet::Envoyer(
            ClientMsg::JoinVoice { channel: c, password: None },
        ));
    }
}

/// As long as the list does not name us, no message is for us.
pub proof fn loi_inconnu_de_la_liste(s: Session, m: ChatRecord)
    requires
        s.moi.id is None || forall|k: int|
            0 <= k < s.members@.len() ==> (#[trigger] s.members@[k]).user_id != s.moi.id->0,
    ensures
        !pour_moi(s, m),
{
    if let Some(id) = s.moi.id {
        roster::lemme_place_de(s.members@, id);
    }
}

/// With the list of members come their pictures: those that are not shown yet,
/// or not any more, are looked for before anything else, and those that were
/// taken off are forgotten.
pub proof fn loi_photos_de_la_liste(
    avant: Session,
    apres: Session,
    debit_avant: Debit,
    debit: Debit,
    effets: Seq<Effet>,
    members: Vec<Member>,
    maintenant: u64,
    k: int,
    id: UserId,
)
    requires
        traite(
            avant,
            apres,
            debit_avant,
            debit,
            effets,
            ServerMsg::Members { members },
            maintenant,
        ),
        0 <= k < members@.len(),
        forall|i: int, j: int|
            0 <= i < j < members@.len() ==> (#[trigger] members@[i]).user_id != (
            #[trigger] members@[j]).user_id,
    ensures
        members@[k].avatar is None ==> !apres.photos@.contains_key(members@[k].user_id),
        (forall|j: int| 0 <= j < members@.len() ==> (#[trigger] members@[j]).user_id != id)
            ==> apres.photos@.contains_key(id) == avant.photos@.contains_key(id),
        members@[k].avatar is Some && !(avant.photos@.contains_key(members@[k].user_id)
            && avant.photos@[members@[k].user_id]@ == members@[k].avatar->0@) ==> effets.len() > 0
            && effets[0] is ChercherPhotos && roster::vues(effets[0]->ChercherPhotos_0@).contains(
            (members@[k].user_id, members@[k].avatar->0@),
        ),
{
    let m = members@[k];
    let h = match m.avatar {
        Some(h) => h@,
        None => Seq::empty(),
    };
    roster::loi_photos_a_chercher(avant.photos@, members@, m.user_id, h);
    roster::loi_photos_a_chercher(avant.photos@, members@, id, h);
}

} // verus!
