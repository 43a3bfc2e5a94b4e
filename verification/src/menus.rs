//! The main screen: what its lists show, and what a click on them does.

use crate::brouillons::BanDraft;
use crate::fil;
use crate::protocole::{ChannelId, ChannelInfo, ChannelKind, ClientMsg, Member, RoleId, RoleInfo};
use crate::roster::meme_salon;
use crate::session::{Effet, Session};
use crate::vocal;
use crate::vocal::MicMode;
use vstd::prelude::*;

verus! {

// ---------------------------------------------------------------------
// Channels
// ---------------------------------------------------------------------

/// What a click on a channel leaves: a text channel is opened, a voice channel
/// is gone into, or left where we are in it.
pub open spec fn apres_clic_salon(
    avant: Session,
    apres: Session,
    effets: Seq<Effet>,
    id: ChannelId,
    kind: ChannelKind,
    maintenant: u64,
) -> bool {
    match kind {
        ChannelKind::Text => if avant.fil.current == Some(id) {
            apres == avant && effets.len() == 0
        } else {
            &&& apres == (Session { fil: apres.fil, ..avant })
            &&& fil::ouvert(avant.fil, apres.fil, id)
            &&& effets == fil::demandes(id)
        },
        ChannelKind::Voice => if avant.vocal.salon == Some(id) {
            vocal::sortie(avant, apres, effets, maintenant)
        } else {
            vocal::entree(avant, apres, effets, id, maintenant)
        },
    }
}

impl Session {
    /// A click on a channel of the left column.
    pub fn cliquer_salon(&mut self, id: ChannelId, kind: ChannelKind, maintenant: u64) -> (effets:
        Vec<Effet>)
        ensures
            apres_clic_salon(*old(self), *final(self), effets@, id, kind, maintenant),
    {
        match kind {
            ChannelKind::Text => if meme_salon(self.fil.current, Some(id)) {
                Vec::new()
            } else {
                self.join(id)
            },
            ChannelKind::Voice => if meme_salon(self.vocal.salon, Some(id)) {
                self.leave_voice(maintenant)
            } else {
                self.join_voice(id, maintenant)
            },
        }
    }
}

/// The channels of one kind, in their order.
pub open spec fn de_nature(s: Seq<ChannelInfo>, kind: ChannelKind) -> Seq<int>
    decreases s.len(),
{
    if s.len() == 0 {
        Seq::empty()
    } else {
        let avant = de_nature(s.drop_last(), kind);
        if s.last().kind == kind {
            avant.push(s.len() - 1)
        } else {
            avant
        }
    }
}

pub open spec fn places(v: Seq<usize>) -> Seq<int> {
    Seq::new(v.len(), |i: int| v[i] as int)
}

/// The places of the channels of one kind.
pub fn salons_de_nature(s: &Vec<ChannelInfo>, kind: ChannelKind) -> (r: Vec<usize>)
    ensures
        places(r@) == de_nature(s@, kind),
{
    let mut r: Vec<usize> = Vec::new();
    let mut i: usize = 0;
    assert(places(r@) =~= de_nature(s@.take(0), kind));
    while i < s.len()
        invariant
            i <= s@.len(),
            places(r@) == de_nature(s@.take(i as int), kind),
        decreases s@.len() - i,
    {
        assert(s@.take(i + 1).drop_last() =~= s@.take(i as int));
        let ghost avant = r@;
        if s[i].kind == kind {
            r.push(i);
            assert(places(r@) =~= places(avant).push(i as int));
        }
        i += 1;
    }
    assert(s@.take(i as int) =~= s@);
    r
}

// ---------------------------------------------------------------------
// The lists of members
// ---------------------------------------------------------------------

/// The members who are online, or those who are not, in their order.
pub open spec fn en_ligne(s: Seq<Member>, online: bool) -> Seq<int>
    decreases s.len(),
{
    if s.len() == 0 {
        Seq::empty()
    } else {
        let avant = en_ligne(s.drop_last(), online);
        if s.last().online == online {
            avant.push(s.len() - 1)
        } else {
            avant
        }
    }
}

/// The places of the members who are online, or of those who are not.
pub fn partition(s: &Vec<Member>, online: bool) -> (r: Vec<usize>)
    ensures
        places(r@) == en_ligne(s@, online),
{
    let mut r: Vec<usize> = Vec::new();
    let mut i: usize = 0;
    assert(places(r@) =~= en_ligne(s@.take(0), online));
    while i < s.len()
        invariant
            i <= s@.len(),
            places(r@) == en_ligne(s@.take(i as int), online),
        decreases s@.len() - i,
    {
        assert(s@.take(i + 1).drop_last() =~= s@.take(i as int));
        let ghost avant = r@;
        if s[i].online == online {
            r.push(i);
            assert(places(r@) =~= places(avant).push(i as int));
        }
        i += 1;
    }
    assert(s@.take(i as int) =~= s@);
    r
}

/// Who is in a voice channel, in the order of the list.
pub open spec fn dans_le_vocal(s: Seq<Member>, salon: ChannelId) -> Seq<int>
    decreases s.len(),
{
    if s.len() == 0 {
        Seq::empty()
    } else {
        let avant = dans_le_vocal(s.drop_last(), salon);
        if s.last().voice == Some(salon) {
            avant.push(s.len() - 1)
        } else {
            avant
        }
    }
}

/// The places of the members who are in a voice channel.
pub fn voice_occupants(s: &Vec<Member>, salon: ChannelId) -> (r: Vec<usize>)
    ensures
        places(r@) == dans_le_vocal(s@, salon),
{
    let mut r: Vec<usize> = Vec::new();
    let mut i: usize = 0;
    assert(places(r@) =~= dans_le_vocal(s@.take(0), salon));
    while i < s.len()
        invariant
            i <= s@.len(),
            places(r@) == dans_le_vocal(s@.take(i as int), salon),
        decreases s@.len() - i,
    {
        assert(s@.take(i + 1).drop_last() =~= s@.take(i as int));
        let ghost avant = r@;
        if meme_salon(s[i].voice, Some(salon)) {
            r.push(i);
            assert(places(r@) =~= places(avant).push(i as int));
        }
        i += 1;
    }
    assert(s@.take(i as int) =~= s@);
    r
}

/// How a member is shown.
#[derive(Debug, Clone, Copy, PartialEq, Eq, Structural)]
pub struct LigneMembre {
    pub is_me: bool,
    /// A level can be shown: we hear that person.
    pub audible: bool,
    pub speaking: bool,
    pub muted: bool,
}

impl Session {
    /// This is our own card.
    pub open spec fn est_moi(self, m: Member) -> bool {
        self.moi.id == Some(m.user_id)
    }

    /// How a member is shown under a voice channel. Of ourselves the local
    /// state makes law; of the others, what the server says or what is heard.
    pub fn ligne_vocale(&self, m: &Member, entendu: bool) -> (r: LigneMembre)
        ensures
            r == (LigneMembre {
                is_me: self.est_moi(*m),
                audible: true,
                speaking: if self.est_moi(*m) {
                    self.vocal.transmitting
                } else {
                    m.speaking || entendu
                },
                muted: if self.est_moi(*m) {
                    self.vocal.muted
                } else {
                    m.muted
                },
            }),
    {
        let is_me: bool = self.c_est_moi(m);
        LigneMembre {
            is_me,
            audible: true,
            speaking: if is_me {
                self.vocal.transmitting
            } else {
                m.speaking || entendu
            },
            muted: if is_me {
                self.vocal.muted
            } else {
                m.muted
            },
        }
    }

    /// How a member is shown in the right column: heard only where we share a
    /// voice channel, and muted only in one.
    pub fn ligne_roster(&self, m: &Member, entendu: bool) -> (r: LigneMembre)
        ensures
            ({
                let audible = m.voice is Some && m.voice == self.vocal.salon;
                r == (LigneMembre {
                    is_me: self.est_moi(*m),
                    audible,
                    speaking: audible && if self.est_moi(*m) {
                        self.vocal.transmitting
                    } else {
                        m.speaking || entendu
                    },
                    muted: m.voice is Some && if self.est_moi(*m) {
                        self.vocal.muted
                    } else {
                        m.muted
                    },
                })
            }),
    {
        let is_me: bool = self.c_est_moi(m);
        let audible: bool = m.voice.is_some() && meme_salon(m.voice, self.vocal.salon);
        let parle: bool = if is_me {
            self.vocal.transmitting
        } else {
            m.speaking || entendu
        };
        let coupe: bool = if is_me {
            self.vocal.muted
        } else {
            m.muted
        };
        LigneMembre {
            is_me,
            audible,
            speaking: audible && parle,
            muted: m.voice.is_some() && coupe,
        }
    }

    fn c_est_moi(&self, m: &Member) -> (r: bool)
        ensures
            r == self.est_moi(*m),
    {
        match self.moi.id {
            Some(id) => id == m.user_id,
            None => false,
        }
    }
}

// ---------------------------------------------------------------------
// What a moderator did
// ---------------------------------------------------------------------

/// What hovering over our own card says.
pub fn sanction_sur_moi(force_muted: bool, force_deafened: bool) -> (r: &'static str)
    ensures
        r@ == if force_muted && force_deafened {
            "un modérateur t'a coupé le micro et rendu sourd"@
        } else if force_muted {
            "un modérateur t'a coupé le micro"@
        } else if force_deafened {
            "un modérateur t'a rendu sourd"@
        } else {
            "gérer mon compte"@
        },
{
    match (force_muted, force_deafened) {
        (true, true) => "un modérateur t'a coupé le micro et rendu sourd",
        (true, false) => "un modérateur t'a coupé le micro",
        (false, true) => "un modérateur t'a rendu sourd",
        (false, false) => "gérer mon compte",
    }
}

/// What hovering over someone else's card says.
pub fn sanction_sur_autre(force_muted: bool, force_deafened: bool) -> (r: Option<&'static str>)
    ensures
        match r {
            Some(t) => t@ == if force_muted && force_deafened {
                "micro coupé et rendu sourd par un modérateur"@
            } else if force_muted {
                "micro coupé par un modérateur"@
            } else {
                "rendu sourd par un modérateur"@
            } && (force_muted || force_deafened),
            None => !force_muted && !force_deafened,
        },
{
    match (force_muted, force_deafened) {
        (true, true) => Some("micro coupé et rendu sourd par un modérateur"),
        (true, false) => Some("micro coupé par un modérateur"),
        (false, true) => Some("rendu sourd par un modérateur"),
        (false, false) => None,
    }
}

/// What the bar of the microphone says of it.
pub fn sanction_dans_la_barre(force_muted: bool, force_deafened: bool) -> (r: Option<&'static str>)
    ensures
        match r {
            Some(t) => t@ == if force_muted && force_deafened {
                "micro coupé et sourd (modérateur)"@
            } else if force_muted {
                "micro coupé par un modérateur"@
            } else {
                "rendu sourd par un modérateur"@
            } && (force_muted || force_deafened),
            None => !force_muted && !force_deafened,
        },
{
    match (force_muted, force_deafened) {
        (true, true) => Some("micro coupé et sourd (modérateur)"),
        (true, false) => Some("micro coupé par un modérateur"),
        (false, true) => Some("rendu sourd par un modérateur"),
        (false, false) => None,
    }
}

// ---------------------------------------------------------------------
// The menu of a member
// ---------------------------------------------------------------------

/// What the menu of a member offers. An action is there only if it would come
/// about: the permission and the rank.
#[derive(Debug, Clone, Copy, PartialEq, Eq, Structural)]
pub struct MenuMembre {
    pub volume: bool,
    pub roles: bool,
    pub sanctionner: bool,
    pub deplacer: bool,
    pub sortir: bool,
    pub expulser: bool,
    pub bannir: bool,
}

/// A click in the menu of a member.
#[derive(Debug, Clone, Copy, PartialEq, Eq)]
pub enum ClicMembre {
    /// A role was ticked or unticked.
    Role { id: RoleId, coche: bool },
    CouperMicro,
    RendreSourd,
    /// To another voice channel, or out of the voice.
    Deplacer { salon: Option<ChannelId> },
    Expulser,
    Bannir,
}

pub open spec fn autre_que(id: RoleId) -> spec_fn(RoleId) -> bool {
    |r: RoleId| r != id
}

/// A list with this number ticked, or unticked.
pub open spec fn coche_de(s: Seq<RoleId>, id: RoleId, coche: bool) -> Seq<RoleId> {
    if coche {
        s.push(id)
    } else {
        s.filter(autre_que(id))
    }
}

/// The list with a role ticked or unticked.
pub fn cocher(s: &Vec<RoleId>, id: RoleId, coche: bool) -> (r: Vec<RoleId>)
    ensures
        r@ == coche_de(s@, id, coche),
{
    let ghost p = autre_que(id);
    let mut r: Vec<RoleId> = Vec::new();
    let mut i: usize = 0;
    proof {
        reveal(Seq::filter);
        assert(s@.take(0).filter(p) =~= r@);
        assert(s@.take(0) =~= r@);
    }
    while i < s.len()
        invariant
            i <= s@.len(),
            p == autre_que(id),
            r@ == if coche {
                s@.take(i as int)
            } else {
                s@.take(i as int).filter(p)
            },
        decreases s@.len() - i,
    {
        proof {
            reveal(Seq::filter);
            assert(s@.take(i + 1).drop_last() =~= s@.take(i as int));
            assert(s@.take(i + 1) =~= s@.take(i as int).push(s@[i as int]));
        }
        if coche || s[i] != id {
            r.push(s[i]);
        }
        i += 1;
    }
    assert(s@.take(i as int) =~= s@);
    if coche {
        r.push(id);
        assert(r@ =~= s@.push(id));
    } else {
        assert(r@ == s@.filter(p));
    }
    r
}

/// A role that was unticked is gone, one that was ticked is there, and no other
/// role moves.
pub proof fn loi_cocher(s: Seq<RoleId>, id: RoleId, coche: bool, autre: RoleId)
    requires
        autre != id,
    ensures
        coche_de(s, id, coche).contains(id) == coche,
        coche_de(s, id, coche).contains(autre) == s.contains(autre),
{
    crate::listes::lemme_filtre(s, autre_que(id));
    if coche {
        let t = s.push(id);
        assert(t[s.len() as int] == id);
        if s.contains(autre) {
            let k = choose|k: int| 0 <= k < s.len() && s[k] == autre;
            assert(t[k] == autre);
        }
        if t.contains(autre) {
            let k = choose|k: int| 0 <= k < t.len() && t[k] == autre;
            assert(k < s.len());
            assert(s[k] == autre);
        }
    } else {
        assert(s.filter(autre_que(id)).contains(autre) <==> s.contains(autre) && autre_que(id)(
            autre,
        ));
    }
}

/// What a click in the menu of a member leaves.
pub open spec fn apres_clic_membre(
    avant: Session,
    apres: Session,
    effets: Seq<Effet>,
    m: Member,
    c: ClicMembre,
) -> bool {
    match c {
        ClicMembre::Bannir => {
            &&& apres == (Session { ban_draft: apres.ban_draft, ..avant })
            &&& apres.ban_draft matches Some(b) && b.username@ == m.username@ && b.reason@.len()
                == 0 && b.duration_secs == 86_400
            &&& effets.len() == 0
        },
        ClicMembre::Role { id, coche } => {
            &&& apres == avant
            &&& effets.len() == 1
            &&& effets[0] matches Effet::Envoyer(ClientMsg::AdminSetUserRoles { username, roles })
                && username@ == m.username@ && roles@ == coche_de(m.roles@, id, coche)
        },
        ClicMembre::CouperMicro => {
            &&& apres == avant
            &&& effets.len() == 1
            &&& effets[0] matches Effet::Envoyer(ClientMsg::AdminVoiceMute { username, muted })
                && username@ == m.username@ && muted == !m.force_muted
        },
        ClicMembre::RendreSourd => {
            &&& apres == avant
            &&& effets.len() == 1
            &&& effets[0] matches Effet::Envoyer(ClientMsg::AdminVoiceDeafen { username, deafened })
                && username@ == m.username@ && deafened == !m.force_deafened
        },
        ClicMembre::Deplacer { salon } => {
            &&& apres == avant
            &&& effets.len() == 1
            &&& effets[0] matches Effet::Envoyer(ClientMsg::AdminVoiceMove { username, channel })
                && username@ == m.username@ && channel == salon
        },
        ClicMembre::Expulser => {
            &&& apres == avant
            &&& effets.len() == 1
            &&& effets[0] matches Effet::Envoyer(ClientMsg::Kick { user_id, reason }) && user_id
                == m.user_id && reason@.len() == 0
        },
    }
}

impl Session {
    pub open spec fn menu_de(self, m: Member) -> MenuMembre {
        let dessus = m.rank < self.moi.rank;
        let p = self.moi.pouvoirs;
        MenuMembre {
            volume: m.online,
            roles: p.manage_roles && dessus && self.roles@.len() > 0,
            sanctionner: dessus && p.mute_members,
            deplacer: dessus && p.move_members && m.online,
            sortir: dessus && p.move_members && m.online && m.voice is Some,
            expulser: dessus && p.kick && m.online,
            bannir: dessus && p.ban,
        }
    }

    /// What the menu of a member offers.
    pub fn member_menu(&self, m: &Member) -> (r: MenuMembre)
        ensures
            r == self.menu_de(*m),
    {
        let dessus: bool = self.outranks(m.rank);
        let p: crate::session::Pouvoirs = self.moi.pouvoirs;
        MenuMembre {
            volume: m.online,
            roles: p.manage_roles && dessus && self.roles.len() > 0,
            sanctionner: dessus && p.mute_members,
            deplacer: dessus && p.move_members && m.online,
            sortir: dessus && p.move_members && m.online && m.voice.is_some(),
            expulser: dessus && p.kick && m.online,
            bannir: dessus && p.ban,
        }
    }

    /// A click in the menu of a member.
    pub fn cliquer_membre(&mut self, m: &Member, c: ClicMembre) -> (effets: Vec<Effet>)
        ensures
            apres_clic_membre(*old(self), *final(self), effets@, *m, c),
    {
        let mut effets: Vec<Effet> = Vec::new();
        let username: String = m.username.clone();
        match c {
            ClicMembre::Bannir => {
                self.ban_draft = Some(
                    BanDraft { username, reason: String::new(), duration_secs: 86_400 },
                );
            },
            ClicMembre::Role { id, coche } => {
                let roles: Vec<RoleId> = cocher(&m.roles, id, coche);
                effets.push(Effet::Envoyer(ClientMsg::AdminSetUserRoles { username, roles }));
            },
            ClicMembre::CouperMicro => {
                effets.push(
                    Effet::Envoyer(
                        ClientMsg::AdminVoiceMute { username, muted: !m.force_muted },
                    ),
                );
            },
            ClicMembre::RendreSourd => {
                effets.push(
                    Effet::Envoyer(
                        ClientMsg::AdminVoiceDeafen { username, deafened: !m.force_deafened },
                    ),
                );
            },
            ClicMembre::Deplacer { salon } => {
                effets.push(
                    Effet::Envoyer(ClientMsg::AdminVoiceMove { username, channel: salon }),
                );
            },
            ClicMembre::Expulser => {
                effets.push(
                    Effet::Envoyer(ClientMsg::Kick { user_id: m.user_id, reason: String::new() }),
                );
            },
        }
        effets
    }
}

/// Nobody acts on someone of their own rank or above, whatever the
/// permissions: the owner cannot be banned by a second administrator.
pub proof fn loi_rang_protege(s: Session, m: Member)
    requires
        m.rank >= s.moi.rank,
    ensures
        s.menu_de(m) == (MenuMembre {
            volume: m.online,
            roles: false,
            sanctionner: false,
            deplacer: false,
            sortir: false,
            expulser: false,
            bannir: false,
        }),
{
}

/// Muting someone twice gives the microphone back: the button says what the
/// click will do, and undoes what it did.
pub proof fn loi_sanction_aller_retour(
    avant: Session,
    apres: Session,
    effets: Seq<Effet>,
    m: Member,
)
    requires
        apres_clic_membre(avant, apres, effets, m, ClicMembre::CouperMicro),
    ensures
        effets[0] matches Effet::Envoyer(ClientMsg::AdminVoiceMute { muted, .. }) && muted
            != m.force_muted,
{
}

// ---------------------------------------------------------------------
// The roles of the menu
// ---------------------------------------------------------------------

/// The role at place `a` is listed before the one at place `b`: a higher rank
/// comes first, and of two equals the one that stood first.
pub open spec fn mieux_classe(roles: Seq<RoleInfo>, a: int, b: int) -> bool {
    roles[a].rank > roles[b].rank || (roles[a].rank == roles[b].rank && a < b)
}

/// The places of the roles, from the highest rank down.
pub fn roles_par_rang(roles: &Vec<RoleInfo>) -> (r: Vec<usize>)
    ensures
        r@.len() == roles@.len(),
        forall|i: int| 0 <= i < r@.len() ==> (#[trigger] r@[i]) < roles@.len(),
        forall|i: int, j: int|
            0 <= i < j < r@.len() ==> mieux_classe(
                roles@,
                (#[trigger] r@[i]) as int,
                (#[trigger] r@[j]) as int,
            ),
{
    let mut r: Vec<usize> = Vec::new();
    let mut n: usize = 0;
    while n < roles.len()
        invariant
            n <= roles@.len(),
            r@.len() == n,
            forall|i: int| 0 <= i < n ==> (#[trigger] r@[i]) < n,
            forall|i: int, j: int|
                0 <= i < j < n ==> mieux_classe(
                    roles@,
                    (#[trigger] r@[i]) as int,
                    (#[trigger] r@[j]) as int,
                ),
        decreases roles@.len() - n,
    {
        let mut p: usize = 0;
        while p < r.len() && roles[r[p]].rank >= roles[n].rank
            invariant
                n < roles@.len(),
                r@.len() == n,
                p <= n,
                forall|i: int| 0 <= i < n ==> (#[trigger] r@[i]) < n,
                forall|i: int|
                    0 <= i < p ==> roles@[(#[trigger] r@[i]) as int].rank >= roles@[n as int].rank,
            decreases r@.len() - p,
        {
            p += 1;
        }
        let ghost avant = r@;
        r.insert(p, n);
        assert(r@ == avant.insert(p as int, n));
        assert forall|i: int| 0 <= i < n + 1 implies (#[trigger] r@[i]) < n + 1 by {
            if i < p {
                assert(r@[i] == avant[i]);
            } else if i > p {
                assert(r@[i] == avant[i - 1]);
            }
        }
        assert forall|i: int, j: int| 0 <= i < j < n + 1 implies mieux_classe(
            roles@,
            (#[trigger] r@[i]) as int,
            (#[trigger] r@[j]) as int,
        ) by {
            if j < p {
                assert(r@[i] == avant[i] && r@[j] == avant[j]);
            } else if j == p {
                assert(r@[i] == avant[i] && r@[j] == n);
            } else if i == p {
                assert(r@[i] == n && r@[j] == avant[j - 1]);
                assert(roles@[avant[p as int] as int].rank < roles@[n as int].rank);
                if j - 1 > p {
                    assert(mieux_classe(roles@, avant[p as int] as int, avant[j - 1] as int));
                }
            } else if i < p {
                assert(r@[i] == avant[i] && r@[j] == avant[j - 1]);
            } else {
                assert(r@[i] == avant[i - 1] && r@[j] == avant[j - 1]);
            }
        }
        n += 1;
    }
    r
}

/// The voice channels where a member can be moved: all but the one they are
/// in.
pub open spec fn destinations_de(s: Seq<ChannelInfo>, ici: Option<ChannelId>) -> Seq<ChannelId>
    decreases s.len(),
{
    if s.len() == 0 {
        Seq::empty()
    } else {
        let avant = destinations_de(s.drop_last(), ici);
        if s.last().kind == ChannelKind::Voice && ici != Some(s.last().id) {
            avant.push(s.last().id)
        } else {
            avant
        }
    }
}

/// The voice channels where a member can be moved.
pub fn destinations(s: &Vec<ChannelInfo>, ici: Option<ChannelId>) -> (r: Vec<ChannelId>)
    ensures
        r@ == destinations_de(s@, ici),
{
    let mut r: Vec<ChannelId> = Vec::new();
    let mut i: usize = 0;
    while i < s.len()
        invariant
            i <= s@.len(),
            r@ == destinations_de(s@.take(i as int), ici),
        decreases s@.len() - i,
    {
        assert(s@.take(i + 1).drop_last() =~= s@.take(i as int));
        if s[i].kind == ChannelKind::Voice && !meme_salon(ici, Some(s[i].id)) {
            r.push(s[i].id);
        }
        i += 1;
    }
    assert(s@.take(i as int) =~= s@);
    r
}

// ---------------------------------------------------------------------
// The bar of the microphone
// ---------------------------------------------------------------------

/// What the microphone button shows.
#[derive(Debug, Clone, Copy, PartialEq, Eq, Structural)]
pub enum EtatMicro {
    HorsVocal,
    Coupe,
    Emission,
    Pret,
}

impl EtatMicro {
    pub fn texte(self) -> (r: &'static str)
        ensures
            r@ == match self {
                EtatMicro::HorsVocal => "Hors vocal"@,
                EtatMicro::Coupe => "Micro coupé"@,
                EtatMicro::Emission => "En émission"@,
                EtatMicro::Pret => "Micro prêt"@,
            },
    {
        match self {
            EtatMicro::HorsVocal => "Hors vocal",
            EtatMicro::Coupe => "Micro coupé",
            EtatMicro::Emission => "En émission",
            EtatMicro::Pret => "Micro prêt",
        }
    }

    /// What hovering over the button says.
    pub fn aide(self) -> (r: &'static str)
        ensures
            r@ == match self {
                EtatMicro::HorsVocal => "Rejoins un salon vocal pour parler"@,
                EtatMicro::Coupe => "Réactiver le micro"@,
                _ => "Couper le micro"@,
            },
    {
        match self {
            EtatMicro::HorsVocal => "Rejoins un salon vocal pour parler",
            EtatMicro::Coupe => "Réactiver le micro",
            EtatMicro::Emission | EtatMicro::Pret => "Couper le micro",
        }
    }
}

/// The line under the state of the microphone: the voice channel, and the key
/// that has to be held.
pub open spec fn detail(nom: Option<Seq<char>>, mode: MicMode, touche: Seq<char>) -> Seq<char> {
    match nom {
        None => "aucun salon vocal"@,
        Some(n) => if mode == MicMode::Ptt {
            n + " · touche "@ + touche
        } else {
            n
        },
    }
}

impl Session {
    pub open spec fn micro_de(self) -> EtatMicro {
        if self.vocal.salon is None {
            EtatMicro::HorsVocal
        } else if self.vocal.muted {
            EtatMicro::Coupe
        } else if self.vocal.transmitting {
            EtatMicro::Emission
        } else {
            EtatMicro::Pret
        }
    }

    pub fn etat_micro(&self) -> (r: EtatMicro)
        ensures
            r == self.micro_de(),
    {
        if self.vocal.salon.is_none() {
            EtatMicro::HorsVocal
        } else if self.vocal.muted {
            EtatMicro::Coupe
        } else if self.vocal.transmitting {
            EtatMicro::Emission
        } else {
            EtatMicro::Pret
        }
    }

    pub fn detail_vocal(&self, mode: MicMode, touche: &str) -> (r: String)
        ensures
            r@ == detail(self.nom_du_vocal(), mode, touche@),
    {
        match self.voice_channel_name() {
            None => "aucun salon vocal".to_owned(),
            Some(n) => {
                let mut s: String = n.to_owned();
                if matches!(mode, MicMode::Ptt) {
                    s.append(" · touche ");
                    s.append(touche);
                }
                s
            },
        }
    }

    /// What our card in the left column says.
    pub fn pied(&self) -> (r: &'static str)
        ensures
            r@ == if self.vocal.muted {
                "micro coupé"@
            } else if self.vocal.transmitting {
                "en émission"@
            } else {
                "connecté"@
            },
    {
        if self.vocal.muted {
            "micro coupé"
        } else if self.vocal.transmitting {
            "en émission"
        } else {
            "connecté"
        }
    }

    /// The audio button: opens the settings, or closes them. Returns whether
    /// the devices have to be listed.
    pub fn basculer_reglages(&mut self) -> (r: bool)
        ensures
            *final(self) == (Session { show_settings: r, ..*old(self) }),
            r == !old(self).show_settings,
    {
        self.show_settings = !self.show_settings;
        self.show_settings
    }

    /// The administration button: opens its window on the server as it is, and
    /// asks for the accounts; or closes it.
    pub fn basculer_admin(&mut self) -> (effets: Vec<Effet>)
        ensures
            if !old(self).moi.pouvoirs.administre() {
                *final(self) == *old(self) && effets@.len() == 0
            } else if old(self).admin.ouvert {
                &&& *final(self) == (Session {
                    admin: crate::brouillons::Panneau { ouvert: false, ..old(self).admin },
                    ..*old(self)
                })
                &&& effets@.len() == 0
            } else {
                &&& *final(self) == (Session {
                    admin: crate::brouillons::Panneau {
                        ouvert: true,
                        name: final(self).admin.name,
                        icon: crate::protocole::IconChange::Keep,
                        ..old(self).admin
                    },
                    ..*old(self)
                })
                &&& final(self).admin.name@ == old(self).server_info.name@
                &&& effets@ == seq![Effet::Envoyer(ClientMsg::AdminListUsers)]
            },
    {
        let mut effets: Vec<Effet> = Vec::new();
        if !self.moi.pouvoirs.any_admin_power() {
            return effets;
        }
        self.admin.ouvert = !self.admin.ouvert;
        if self.admin.ouvert {
            self.admin.name = self.server_info.name.clone();
            self.admin.icon = crate::protocole::IconChange::Keep;
            effets.push(Effet::Envoyer(ClientMsg::AdminListUsers));
        }
        effets
    }
}

/// Which audio devices were lost, in words.
pub fn peripheriques_perdus(micro: bool, sortie: bool) -> (r: Option<&'static str>)
    ensures
        match r {
            Some(t) => t@ == if micro && sortie {
                "Micro et sortie audio perdus"@
            } else if micro {
                "Micro perdu"@
            } else {
                "Sortie audio perdue"@
            } && (micro || sortie),
            None => !micro && !sortie,
        },
{
    match (micro, sortie) {
        (true, true) => Some("Micro et sortie audio perdus"),
        (true, false) => Some("Micro perdu"),
        (false, true) => Some("Sortie audio perdue"),
        (false, false) => None,
    }
}

/// Which of the chosen devices were not found, in words. Nothing is said of it
/// while one is lost: that is the news.
pub fn peripheriques_de_repli(micro: bool, sortie: bool, perdu: bool) -> (r: Option<&'static str>)
    ensures
        match r {
            Some(t) => !perdu && (micro || sortie) && t@ == if micro && sortie {
                "Le micro et la sortie audio réglés"@
            } else if micro {
                "Le micro réglé"@
            } else {
                "La sortie audio réglée"@
            },
            None => perdu || (!micro && !sortie),
        },
{
    if perdu {
        return None;
    }
    match (micro, sortie) {
        (true, true) => Some("Le micro et la sortie audio réglés"),
        (true, false) => Some("Le micro réglé"),
        (false, true) => Some("La sortie audio réglée"),
        (false, false) => None,
    }
}

/// The bars that a round trip lights, of four.
pub open spec fn barres(ping_ms: u32) -> u8 {
    if ping_ms < 30 {
        4
    } else if ping_ms < 80 {
        3
    } else if ping_ms < 150 {
        2
    } else {
        1
    }
}

/// How many bars a round trip lights: four under 30 ms, one past 150.
pub fn quality(ping_ms: u32) -> (r: u8)
    ensures
        r == barres(ping_ms),
{
    if ping_ms < 30 {
        4
    } else if ping_ms < 80 {
        3
    } else if ping_ms < 150 {
        2
    } else {
        1
    }
}

/// A longer round trip never lights more bars.
pub proof fn loi_qualite_decroit(a: u32, b: u32)
    requires
        a <= b,
    ensures
        1 <= barres(b) <= barres(a) <= 4,
{
}

/// The channels of one kind are all listed, in the order of the server, and no
/// other is.
pub proof fn loi_de_nature(s: Seq<ChannelInfo>, kind: ChannelKind)
    ensures
        forall|k: int| #[trigger] de_nature(s, kind).contains(k) <==> 0 <= k < s.len() && s[k].kind == kind,
        forall|i: int, j: int|
            0 <= i < j < de_nature(s, kind).len() ==> #[trigger] de_nature(s, kind)[i] < #[trigger] de_nature(
                s,
                kind,
            )[j],
    decreases s.len(),
{
    if s.len() > 0 {
        let d = s.drop_last();
        let n = d.len() as int;
        loi_de_nature(d, kind);
        let a = de_nature(d, kind);
        let r = de_nature(s, kind);
        assert forall|k: int| #[trigger] r.contains(k) <==> 0 <= k < s.len() && s[k].kind == kind by {
            if r.contains(k) {
                let i = choose|i: int| 0 <= i < r.len() && r[i] == k;
                if i < a.len() {
                    assert(a[i] == k);
                    assert(a.contains(k));
                    assert(d[k] == s[k]);
                }
            }
            if 0 <= k < s.len() && s[k].kind == kind {
                if k < n {
                    assert(d[k] == s[k]);
                    assert(a.contains(k));
                    let i = choose|i: int| 0 <= i < a.len() && a[i] == k;
                    assert(r[i] == k);
                } else {
                    assert(r[r.len() - 1] == k);
                }
            }
        }
        assert forall|i: int, j: int| 0 <= i < j < r.len() implies #[trigger] r[i] < #[trigger] r[j] by {
            if j < a.len() {
                assert(r[i] == a[i] && r[j] == a[j]);
            } else {
                assert(r[i] == a[i]);
                assert(a.contains(a[i]));
            }
        }
    }
}

/// Those who are on line, or those who are not, are all listed in order, and
/// nobody else is.
pub proof fn loi_en_ligne(s: Seq<Member>, online: bool)
    ensures
        forall|k: int| #[trigger] en_ligne(s, online).contains(k) <==> 0 <= k < s.len() && s[k].online == online,
        forall|i: int, j: int|
            0 <= i < j < en_ligne(s, online).len() ==> #[trigger] en_ligne(s, online)[i] < #[trigger] en_ligne(
                s,
                online,
            )[j],
    decreases s.len(),
{
    if s.len() > 0 {
        let d = s.drop_last();
        let n = d.len() as int;
        loi_en_ligne(d, online);
        let a = en_ligne(d, online);
        let r = en_ligne(s, online);
        assert forall|k: int| #[trigger] r.contains(k) <==> 0 <= k < s.len() && s[k].online == online by {
            if r.contains(k) {
                let i = choose|i: int| 0 <= i < r.len() && r[i] == k;
                if i < a.len() {
                    assert(a[i] == k);
                    assert(a.contains(k));
                    assert(d[k] == s[k]);
                }
            }
            if 0 <= k < s.len() && s[k].online == online {
                if k < n {
                    assert(d[k] == s[k]);
                    assert(a.contains(k));
                    let i = choose|i: int| 0 <= i < a.len() && a[i] == k;
                    assert(r[i] == k);
                } else {
                    assert(r[r.len() - 1] == k);
                }
            }
        }
        assert forall|i: int, j: int| 0 <= i < j < r.len() implies #[trigger] r[i] < #[trigger] r[j] by {
            if j < a.len() {
                assert(r[i] == a[i] && r[j] == a[j]);
            } else {
                assert(r[i] == a[i]);
                assert(a.contains(a[i]));
            }
        }
    }
}

/// Those who are in a voice channel are all listed in order, and nobody else is.
pub proof fn loi_dans_le_vocal(s: Seq<Member>, salon: ChannelId)
    ensures
        forall|k: int| #[trigger] dans_le_vocal(s, salon).contains(k) <==> 0 <= k < s.len() && s[k].voice == Some(salon),
        forall|i: int, j: int|
            0 <= i < j < dans_le_vocal(s, salon).len() ==> #[trigger] dans_le_vocal(s, salon)[i] < #[trigger] dans_le_vocal(
                s,
                salon,
            )[j],
    decreases s.len(),
{
    if s.len() > 0 {
        let d = s.drop_last();
        let n = d.len() as int;
        loi_dans_le_vocal(d, salon);
        let a = dans_le_vocal(d, salon);
        let r = dans_le_vocal(s, salon);
        assert forall|k: int| #[trigger] r.contains(k) <==> 0 <= k < s.len() && s[k].voice == Some(salon) by {
            if r.contains(k) {
                let i = choose|i: int| 0 <= i < r.len() && r[i] == k;
                if i < a.len() {
                    assert(a[i] == k);
                    assert(a.contains(k));
                    assert(d[k] == s[k]);
                }
            }
            if 0 <= k < s.len() && s[k].voice == Some(salon) {
                if k < n {
                    assert(d[k] == s[k]);
                    assert(a.contains(k));
                    let i = choose|i: int| 0 <= i < a.len() && a[i] == k;
                    assert(r[i] == k);
                } else {
                    assert(r[r.len() - 1] == k);
                }
            }
        }
        assert forall|i: int, j: int| 0 <= i < j < r.len() implies #[trigger] r[i] < #[trigger] r[j] by {
            if j < a.len() {
                assert(r[i] == a[i] && r[j] == a[j]);
            } else {
                assert(r[i] == a[i]);
                assert(a.contains(a[i]));
            }
        }
    }
}

/// Someone can be moved to every voice channel but the one that they are in.
pub proof fn loi_destinations(s: Seq<ChannelInfo>, ici: Option<ChannelId>, id: ChannelId)
    ensures
        destinations_de(s, ici).contains(id) <==> ici != Some(id) && exists|k: int|
            0 <= k < s.len() && (#[trigger] s[k]).id == id && s[k].kind == ChannelKind::Voice,
    decreases s.len(),
{
    if s.len() > 0 {
        let d = s.drop_last();
        loi_destinations(d, ici, id);
        let a = destinations_de(d, ici);
        let r = destinations_de(s, ici);
        if r.contains(id) {
            let i = choose|i: int| 0 <= i < r.len() && r[i] == id;
            if i < a.len() {
                assert(a[i] == id);
                let k = choose|k: int|
                    0 <= k < d.len() && (#[trigger] d[k]).id == id && d[k].kind
                        == ChannelKind::Voice;
                assert(s[k] == d[k]);
            } else {
                assert(s[s.len() - 1].id == id);
            }
        }
        if ici != Some(id) && exists|k: int|
            0 <= k < s.len() && (#[trigger] s[k]).id == id && s[k].kind == ChannelKind::Voice {
            let k = choose|k: int|
                0 <= k < s.len() && (#[trigger] s[k]).id == id && s[k].kind == ChannelKind::Voice;
            if k < d.len() {
                assert(d[k] == s[k]);
                let i = choose|i: int| 0 <= i < a.len() && a[i] == id;
                assert(r[i] == id);
            } else {
                assert(r[r.len() - 1] == id);
            }
        }
    }
}

/// Over someone of a strictly lower rank each permission opens its own entries of
/// the menu, those that move or throw out only while they are on line, and no
/// permission opens another's.
pub proof fn loi_menu_ouvert(s: Session, m: Member)
    requires
        m.rank < s.moi.rank,
    ensures
        s.menu_de(m).volume == m.online,
        s.menu_de(m).roles == (s.moi.pouvoirs.manage_roles && s.roles@.len() > 0),
        s.menu_de(m).sanctionner == s.moi.pouvoirs.mute_members,
        s.menu_de(m).deplacer == (s.moi.pouvoirs.move_members && m.online),
        s.menu_de(m).sortir == (s.moi.pouvoirs.move_members && m.online && m.voice is Some),
        s.menu_de(m).expulser == (s.moi.pouvoirs.kick && m.online),
        s.menu_de(m).bannir == s.moi.pouvoirs.ban,
{
}

/// A click on a member asks the server for what it says, of that member and of
/// no one else, and changes nothing here; a ban is only drafted, for a day.
pub proof fn loi_clic_membre(
    avant: Session,
    apres: Session,
    effets: Seq<Effet>,
    m: Member,
    c: ClicMembre,
)
    requires
        apres_clic_membre(avant, apres, effets, m, c),
    ensures
        c is Bannir ==> effets.len() == 0 && apres.ban_draft is Some
            && apres.ban_draft->0.username@ == m.username@ && apres.ban_draft->0.duration_secs
            == 86_400 && apres.ban_draft->0.reason@.len() == 0,
        !(c is Bannir) ==> apres == avant && effets.len() == 1 && effets[0] is Envoyer,
        c is CouperMicro ==> effets[0]->Envoyer_0 is AdminVoiceMute && (effets[0]->Envoyer_0
            matches ClientMsg::AdminVoiceMute { username, muted } && username@ == m.username@
            && muted == !m.force_muted),
        c is RendreSourd ==> (effets[0]->Envoyer_0 matches ClientMsg::AdminVoiceDeafen {
            username,
            deafened,
        } && username@ == m.username@ && deafened == !m.force_deafened),
        c matches ClicMembre::Deplacer { salon } ==> (effets[0]->Envoyer_0
            matches ClientMsg::AdminVoiceMove { username, channel } && username@ == m.username@
            && channel == salon),
        c is Expulser ==> (effets[0]->Envoyer_0 matches ClientMsg::Kick { user_id, reason }
            && user_id == m.user_id && reason@.len() == 0),
        c matches ClicMembre::Role { id, coche } ==> (effets[0]->Envoyer_0
            matches ClientMsg::AdminSetUserRoles { username, roles } && username@ == m.username@
            && roles@.contains(id) == coche && forall|r: RoleId|
            r != id ==> #[trigger] roles@.contains(r) == m.roles@.contains(r)),
{
    if let ClicMembre::Role { id, coche } = c {
        assert forall|r: RoleId| r != id implies #[trigger] coche_de(m.roles@, id, coche).contains(
            r,
        ) == m.roles@.contains(r) by {
            loi_cocher(m.roles@, id, coche, r);
        }
        let autre: RoleId = if id == 0 {
            1
        } else {
            0
        };
        loi_cocher(m.roles@, id, coche, autre);
    }
}

/// A click on a text channel opens it, unless it is open; one on a voice channel
/// goes in, and one on that where we are leaves it.
pub proof fn loi_clic_salon(
    avant: Session,
    apres: Session,
    effets: Seq<Effet>,
    id: ChannelId,
    kind: ChannelKind,
    maintenant: u64,
)
    requires
        apres_clic_salon(avant, apres, effets, id, kind, maintenant),
    ensures
        kind == ChannelKind::Text ==> apres.fil.current == Some(id) && apres.vocal == avant.vocal,
        kind == ChannelKind::Text && avant.fil.current != Some(id) ==> apres.fil.messages@.len()
            == 0 && effets.len() == 2 && effets[0] == Effet::Envoyer(
            ClientMsg::Join { channel: id },
        ) && effets[1] == Effet::Envoyer(ClientMsg::History { limit: 100 }),
        kind == ChannelKind::Text && avant.fil.current == Some(id) ==> apres == avant
            && effets.len() == 0,
        kind == ChannelKind::Voice && avant.vocal.salon == Some(id) ==> apres.vocal.salon is None,
        kind == ChannelKind::Voice && avant.vocal.salon != Some(id)
            && avant.moi.pouvoirs.connect_voice ==> apres.vocal.salon == Some(id),
        kind == ChannelKind::Voice && avant.vocal.salon != Some(id)
            && !avant.moi.pouvoirs.connect_voice ==> apres.vocal == avant.vocal && apres.error
            is Some,
        kind == ChannelKind::Voice ==> apres.fil == avant.fil,
{
}

/// The bars of a connection: four under 30 ms, three under 80, two under 150, and
/// one from there on.
pub proof fn loi_barres(ping_ms: u32)
    ensures
        barres(ping_ms) == 4 <==> ping_ms < 30,
        barres(ping_ms) == 3 <==> 30 <= ping_ms < 80,
        barres(ping_ms) == 2 <==> 80 <= ping_ms < 150,
        barres(ping_ms) == 1 <==> 150 <= ping_ms,
{
}

/// The microphone is shown as it is: outside of the voice, muted, speaking, or
/// ready, in this order.
pub proof fn loi_etat_du_micro(s: Session)
    ensures
        s.micro_de() is HorsVocal <==> s.vocal.salon is None,
        s.micro_de() is Coupe <==> s.vocal.salon is Some && s.vocal.muted,
        s.micro_de() is Emission <==> s.vocal.salon is Some && !s.vocal.muted
            && s.vocal.transmitting,
        s.micro_de() is Pret <==> s.vocal.salon is Some && !s.vocal.muted && !s.vocal.transmitting,
{
}

/// Roles are listed from the highest rank down, and in the server's order where
/// they share one: of two roles exactly one comes first.
pub proof fn loi_ordre_des_roles(roles: Seq<RoleInfo>, a: int, b: int)
    ensures
        roles[a].rank > roles[b].rank ==> mieux_classe(roles, a, b) && !mieux_classe(roles, b, a),
        roles[a].rank == roles[b].rank && a < b ==> mieux_classe(roles, a, b) && !mieux_classe(
            roles,
            b,
            a,
        ),
        !mieux_classe(roles, a, a),
{
}

/// We are whoever has our number.
pub proof fn loi_soi(s: Session, m: Member)
    ensures
        s.est_moi(m) <==> s.moi.id is Some && s.moi.id->0 == m.user_id,
{
}

/// The voice bar names the channel, and the key where one has to be held.
pub proof fn loi_detail_vocal(nom: Seq<char>, mode: MicMode, touche: Seq<char>)
    ensures
        detail(None, mode, touche) == "aucun salon vocal"@,
        mode == MicMode::Ptt ==> detail(Some(nom), mode, touche) == nom + " · touche "@ + touche,
        mode != MicMode::Ptt ==> detail(Some(nom), mode, touche) == nom,
{
}

} // verus!
