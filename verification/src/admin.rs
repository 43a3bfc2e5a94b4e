//! The administration window and the account window: what they offer, and
//! what they send.

use crate::brouillons::{
    AdminTab, BanDraft, ChannelDraft, ChannelEdit, Compte, Panneau, RoleDraft, VerrouDraft,
};
use crate::menus;
use crate::protocole::{
    AccountInfo, ChannelId, ChannelInfo, ChannelKind, ClientMsg, IconChange, InviteInfo, Perms,
    RoleId, RoleInfo, UserId,
};
use crate::reception;
use crate::session::{Effet, Pouvoirs, Session};
use crate::texte;
use vstd::prelude::*;

verus! {

// ---------------------------------------------------------------------
// Tabs
// ---------------------------------------------------------------------

impl AdminTab {
    pub const ALL: [AdminTab; 7] = [
        AdminTab::Server,
        AdminTab::Channels,
        AdminTab::Roles,
        AdminTab::Members,
        AdminTab::Invites,
        AdminTab::Audit,
        AdminTab::Diagnostics,
    ];

    pub fn label(self) -> (r: &'static str)
        ensures
            r@ == match self {
                AdminTab::Server => "Serveur"@,
                AdminTab::Channels => "Salons"@,
                AdminTab::Roles => "Rôles"@,
                AdminTab::Members => "Membres"@,
                AdminTab::Invites => "Invitations"@,
                AdminTab::Audit => "Journal"@,
                AdminTab::Diagnostics => "Diagnostics"@,
            },
    {
        match self {
            AdminTab::Server => "Serveur",
            AdminTab::Channels => "Salons",
            AdminTab::Roles => "Rôles",
            AdminTab::Members => "Membres",
            AdminTab::Invites => "Invitations",
            AdminTab::Audit => "Journal",
            AdminTab::Diagnostics => "Diagnostics",
        }
    }

    /// The power that a tab needs.
    pub open spec fn permis(self, p: Pouvoirs) -> bool {
        match self {
            AdminTab::Server => p.manage_server,
            AdminTab::Channels => p.manage_channels,
            AdminTab::Roles => p.manage_roles,
            AdminTab::Members => p.kick,
            AdminTab::Invites => p.create_invite,
            AdminTab::Audit => p.view_audit_log,
            AdminTab::Diagnostics => p.administrator,
        }
    }

    /// Is the tab open to these powers?
    pub fn needs(self, p: &Pouvoirs) -> (r: bool)
        ensures
            r == self.permis(*p),
    {
        match self {
            AdminTab::Server => p.manage_server,
            AdminTab::Channels => p.manage_channels,
            AdminTab::Roles => p.manage_roles,
            AdminTab::Members => p.kick,
            AdminTab::Invites => p.create_invite,
            AdminTab::Audit => p.view_audit_log,
            AdminTab::Diagnostics => p.administrator,
        }
    }
}

/// The tabs that these powers open, among the first `n`.
pub open spec fn ouverts(p: Pouvoirs, n: int) -> Seq<AdminTab>
    decreases n,
{
    if n <= 0 {
        Seq::empty()
    } else {
        let avant = ouverts(p, n - 1);
        if AdminTab::ALL[n - 1].permis(p) {
            avant.push(AdminTab::ALL[n - 1])
        } else {
            avant
        }
    }
}

/// The tabs that these powers open.
pub fn onglets(p: &Pouvoirs) -> (r: Vec<AdminTab>)
    ensures
        r@ == ouverts(*p, 7),
{
    let mut r: Vec<AdminTab> = Vec::new();
    let mut i: usize = 0;
    while i < 7
        invariant
            i <= 7,
            r@ == ouverts(*p, i as int),
        decreases 7 - i,
    {
        if AdminTab::ALL[i].needs(p) {
            r.push(AdminTab::ALL[i]);
        }
        i += 1;
    }
    r
}

/// The tab that is shown: the one asked for where it is open, else the first
/// one that is.
pub open spec fn montre(tab: AdminTab, p: Pouvoirs) -> AdminTab {
    if tab.permis(p) || ouverts(p, 7).len() == 0 {
        if tab.permis(p) {
            tab
        } else {
            AdminTab::Server
        }
    } else {
        ouverts(p, 7)[0]
    }
}

impl Panneau {
    /// Roles may have changed while a tab was open: shows one that is still
    /// open to us.
    pub fn rester_permis(&mut self, p: &Pouvoirs)
        ensures
            *final(self) == (Panneau { tab: montre(old(self).tab, *p), ..*old(self) }),
    {
        if !self.tab.needs(p) {
            let tabs: Vec<AdminTab> = onglets(p);
            self.tab = if tabs.len() > 0 {
                tabs[0]
            } else {
                AdminTab::Server
            };
        }
    }

    /// A click on a tab. The log is asked for when it is opened.
    pub fn ouvrir_onglet(&mut self, tab: AdminTab) -> (r: Option<ClientMsg>)
        ensures
            *final(self) == (Panneau { tab, ..*old(self) }),
            r == if tab == AdminTab::Audit {
                Some(ClientMsg::AdminAuditLog { limit: 200 })
            } else {
                None
            },
    {
        self.tab = tab;
        if matches!(tab, AdminTab::Audit) {
            Some(ClientMsg::AdminAuditLog { limit: 200 })
        } else {
            None
        }
    }
}

// ---------------------------------------------------------------------
// Channels
// ---------------------------------------------------------------------

/// What a restriction to roles comes to.
pub open spec fn restriction(d: ChannelDraft) -> Option<Seq<RoleId>> {
    if d.restricted {
        Some(d.allowed_roles@)
    } else {
        None
    }
}

pub open spec fn vue_roles(o: Option<Vec<RoleId>>) -> Option<Seq<RoleId>> {
    match o {
        Some(v) => Some(v@),
        None => None,
    }
}

impl ChannelDraft {
    /// It can be sent: it has a name, and someone would see the channel.
    pub open spec fn pret_de(self) -> bool {
        texte::rogne(self.name@).len() > 0 && (!self.restricted || self.allowed_roles@.len() > 0)
    }

    pub fn pret(&self) -> (r: bool)
        ensures
            r == self.pret_de(),
    {
        !texte::rogner(self.name.as_str()).is_empty() && (!self.restricted
            || self.allowed_roles.len() > 0)
    }

    /// An empty draft of a text channel that everyone sees.
    pub fn new() -> (r: Self)
        ensures
            r.name@.len() == 0,
            r.kind == ChannelKind::Text,
            r.allowed_roles@.len() == 0,
            !r.restricted,
    {
        ChannelDraft {
            name: String::new(),
            kind: ChannelKind::Text,
            allowed_roles: Vec::new(),
            restricted: false,
        }
    }

    /// Ticks or unticks a role of the restriction.
    pub fn cocher(&mut self, id: RoleId, coche: bool)
        ensures
            final(self).allowed_roles@ == menus::coche_de(old(self).allowed_roles@, id, coche),
            *final(self) == (ChannelDraft {
                allowed_roles: final(self).allowed_roles,
                ..*old(self)
            }),
    {
        self.allowed_roles = menus::cocher(&self.allowed_roles, id, coche);
    }
}

/// A role can be ticked in a restriction: any but the one that everyone has.
pub fn restreint_a(role: &RoleInfo, everyone: RoleId) -> (r: bool)
    ensures
        r == (role.id != everyone),
{
    role.id != everyone
}

fn copier(v: &Vec<u64>) -> (r: Vec<u64>)
    ensures
        r@ == v@,
{
    let mut r: Vec<u64> = Vec::new();
    r.extend_from_slice(v.as_slice());
    assert(r@ =~= v@);
    r
}

impl Panneau {
    /// Creates the channel being written, if it can be sent, and empties the
    /// form.
    pub fn creer_salon(&mut self) -> (r: Option<ClientMsg>)
        ensures
            match old(self).channel_draft {
                Some(d) if d.pret_de() => {
                    &&& *final(self) == (Panneau { channel_draft: None, ..*old(self) })
                    &&& r matches Some(ClientMsg::AdminCreateChannel { name, kind, allowed_roles })
                        && name@ == texte::rogne(d.name@) && kind == d.kind && vue_roles(
                        allowed_roles,
                    ) == restriction(d)
                },
                _ => *final(self) == *old(self) && r is None,
            },
    {
        let pret: bool = match &self.channel_draft {
            Some(d) => d.pret(),
            None => false,
        };
        if !pret {
            return None;
        }
        match self.channel_draft.take() {
            Some(d) => {
                let name: String = texte::rogner(d.name.as_str()).to_owned();
                let allowed_roles: Option<Vec<RoleId>> = if d.restricted {
                    Some(d.allowed_roles)
                } else {
                    None
                };
                Some(ClientMsg::AdminCreateChannel { name, kind: d.kind, allowed_roles })
            },
            None => None,
        }
    }

    /// The pencil of a channel: opens its form, or closes it where it is open.
    pub fn modifier_salon(&mut self, ch: &ChannelInfo)
        ensures
            *final(self) == (Panneau { channel_edit: final(self).channel_edit, ..*old(self) }),
            match old(self).channel_edit {
                Some(e) if e.id == ch.id => final(self).channel_edit is None,
                _ => final(self).channel_edit matches Some(e) && e.id == ch.id && e.position
                    == ch.position && e.draft.name@ == ch.name@ && e.draft.kind == ch.kind
                    && e.draft.restricted == (ch.allowed_roles is Some) && e.draft.allowed_roles@
                    == match ch.allowed_roles {
                    Some(v) => v@,
                    None => Seq::empty(),
                },
            },
    {
        let ici: bool = match &self.channel_edit {
            Some(e) => e.id == ch.id,
            None => false,
        };
        if ici {
            self.channel_edit = None;
            return;
        }
        let allowed_roles: Vec<RoleId> = match &ch.allowed_roles {
            Some(v) => copier(v),
            None => Vec::new(),
        };
        self.channel_edit = Some(
            ChannelEdit {
                id: ch.id,
                position: ch.position,
                draft: ChannelDraft {
                    name: ch.name.clone(),
                    kind: ch.kind,
                    restricted: ch.allowed_roles.is_some(),
                    allowed_roles,
                },
            },
        );
    }

    /// Sends the change of a channel, if it can be sent. The kind and the
    /// position are said again as they were: a change replaces the channel.
    pub fn enregistrer_salon(&mut self) -> (r: Option<ClientMsg>)
        ensures
            match old(self).channel_edit {
                Some(e) if e.draft.pret_de() => {
                    &&& *final(self) == (Panneau { channel_edit: None, ..*old(self) })
                    &&& r matches Some(ClientMsg::AdminEditChannel { channel }) && channel.id == e.id
                        && channel.name@ == texte::rogne(e.draft.name@) && channel.kind
                        == e.draft.kind && channel.position == e.position && !channel.locked
                        && vue_roles(channel.allowed_roles) == restriction(e.draft)
                },
                _ => *final(self) == *old(self) && r is None,
            },
    {
        let pret: bool = match &self.channel_edit {
            Some(e) => e.draft.pret(),
            None => false,
        };
        if !pret {
            return None;
        }
        match self.channel_edit.take() {
            Some(e) => {
                let name: String = texte::rogner(e.draft.name.as_str()).to_owned();
                let allowed_roles: Option<Vec<RoleId>> = if e.draft.restricted {
                    Some(e.draft.allowed_roles)
                } else {
                    None
                };
                Some(
                    ClientMsg::AdminEditChannel {
                        channel: ChannelInfo {
                            id: e.id,
                            name,
                            kind: e.draft.kind,
                            position: e.position,
                            locked: false,
                            allowed_roles,
                        },
                    },
                )
            },
            None => None,
        }
    }

    /// The key of a voice channel: opens the form of its lock, or closes it
    /// where it is open. A text channel has no lock.
    pub fn modifier_verrou(&mut self, ch: &ChannelInfo)
        ensures
            *final(self) == (Panneau { verrou_draft: final(self).verrou_draft, ..*old(self) }),
            if ch.kind == ChannelKind::Text {
                final(self).verrou_draft == old(self).verrou_draft
            } else {
                match old(self).verrou_draft {
                    Some(v) if v.channel == ch.id => final(self).verrou_draft is None,
                    _ => final(self).verrou_draft matches Some(v) && v.channel == ch.id
                        && v.mot_de_passe@.len() == 0 && v.ttl_secs == 3600,
                }
            },
    {
        if matches!(ch.kind, ChannelKind::Text) {
            return;
        }
        let ici: bool = match &self.verrou_draft {
            Some(v) => v.channel == ch.id,
            None => false,
        };
        if ici {
            self.verrou_draft = None;
        } else {
            self.verrou_draft = Some(
                VerrouDraft { channel: ch.id, mot_de_passe: String::new(), ttl_secs: 3600 },
            );
        }
    }

    /// Locks the voice channel, where a password was typed.
    pub fn poser_verrou(&mut self) -> (r: Option<ClientMsg>)
        ensures
            match old(self).verrou_draft {
                Some(v) if v.mot_de_passe@.len() > 0 => {
                    &&& *final(self) == (Panneau { verrou_draft: None, ..*old(self) })
                    &&& r == Some(
                        ClientMsg::AdminSetVoicePassword {
                            channel: v.channel,
                            password: Some(v.mot_de_passe),
                            ttl_secs: v.ttl_secs,
                        },
                    )
                },
                _ => *final(self) == *old(self) && r is None,
            },
    {
        let pret: bool = match &self.verrou_draft {
            Some(v) => !v.mot_de_passe.as_str().is_empty(),
            None => false,
        };
        if !pret {
            return None;
        }
        match self.verrou_draft.take() {
            Some(v) => Some(
                ClientMsg::AdminSetVoicePassword {
                    channel: v.channel,
                    password: Some(v.mot_de_passe),
                    ttl_secs: v.ttl_secs,
                },
            ),
            None => None,
        }
    }

    /// Unlocks the voice channel, where it is locked.
    pub fn retirer_verrou(&mut self, locked: bool) -> (r: Option<ClientMsg>)
        ensures
            match old(self).verrou_draft {
                Some(v) if locked => {
                    &&& *final(self) == (Panneau { verrou_draft: None, ..*old(self) })
                    &&& r == Some(
                        ClientMsg::AdminSetVoicePassword {
                            channel: v.channel,
                            password: None,
                            ttl_secs: v.ttl_secs,
                        },
                    )
                },
                _ => *final(self) == *old(self) && r is None,
            },
    {
        if !locked {
            return None;
        }
        match self.verrou_draft.take() {
            Some(v) => Some(
                ClientMsg::AdminSetVoicePassword {
                    channel: v.channel,
                    password: None,
                    ttl_secs: v.ttl_secs,
                },
            ),
            None => None,
        }
    }
}

/// The numbers of the channels, in their order.
pub open spec fn numeros(s: Seq<ChannelInfo>) -> Seq<ChannelId> {
    Seq::new(s.len(), |i: int| s[i].id)
}

/// Two places exchanged.
pub open spec fn echange(s: Seq<ChannelId>, i: int, j: int) -> Seq<ChannelId> {
    s.update(i, s[j]).update(j, s[i])
}

/// Moves a channel up or down by one. The whole order is sent, which the
/// server wants complete. There is nothing above the first nor under the last.
pub fn deplacer_salon(channels: &Vec<ChannelInfo>, i: usize, haut: bool) -> (r: Option<ClientMsg>)
    ensures
        if i >= channels@.len() || (haut && i == 0) || (!haut && i + 1 >= channels@.len()) {
            r is None
        } else {
            r matches Some(ClientMsg::AdminReorderChannels { order }) && order@ == echange(
                numeros(channels@),
                i as int,
                if haut {
                    i - 1
                } else {
                    i + 1
                },
            )
        },
{
    let n: usize = channels.len();
    if i >= n || (haut && i == 0) || (!haut && i == n - 1) {
        return None;
    }
    let j: usize = if haut {
        i - 1
    } else {
        i + 1
    };
    let mut order: Vec<ChannelId> = Vec::new();
    let mut k: usize = 0;
    while k < n
        invariant
            n == channels@.len(),
            i < n,
            j < n,
            k <= n,
            order@.len() == k,
            forall|q: int|
                0 <= q < k ==> #[trigger] order@[q] == echange(
                    numeros(channels@),
                    i as int,
                    j as int,
                )[q],
        decreases n - k,
    {
        if k == j {
            order.push(channels[i].id);
        } else if k == i {
            order.push(channels[j].id);
        } else {
            order.push(channels[k].id);
        }
        k += 1;
    }
    assert(order@ =~= echange(numeros(channels@), i as int, j as int));
    Some(ClientMsg::AdminReorderChannels { order })
}

/// Moving a channel keeps every channel, once: what is sent is a permutation
/// of what is there. Moving it back gives the first order again.
pub proof fn loi_permutation(s: Seq<ChannelId>, i: int, j: int)
    requires
        0 <= i < s.len(),
        0 <= j < s.len(),
    ensures
        echange(s, i, j).to_multiset() == s.to_multiset(),
        echange(echange(s, i, j), j, i) == s,
{
    broadcast use vstd::seq_lib::group_to_multiset_ensures;

    let e = echange(s, i, j);
    assert(echange(e, j, i) =~= s);
    vstd::seq_lib::to_multiset_update(s, i, s[j]);
    vstd::seq_lib::to_multiset_update(s.update(i, s[j]), j, s[i]);
    assert(s.update(i, s[j])[j] == s[j]);
    assert(s.contains(s[i]));
    assert(e.to_multiset() =~= s.to_multiset());
}

// ---------------------------------------------------------------------
// Roles
// ---------------------------------------------------------------------

impl Session {
    /// A role can be deleted: it is under our own rank, and not the system's.
    pub fn peut_supprimer_role(&self, role: &RoleInfo) -> (r: bool)
        ensures
            r == (role.rank < self.moi.rank && !role.system),
    {
        role.rank < self.moi.rank && !role.system
    }

    /// A role can be changed: it is under our own rank and not the system's, or
    /// it is the one that everyone has and we are an administrator.
    pub fn peut_modifier_role(&self, role: &RoleInfo, everyone: RoleId) -> (r: bool)
        ensures
            r == ((role.rank < self.moi.rank && !role.system) || (role.id == everyone
                && self.moi.pouvoirs.administrator)),
    {
        (role.rank < self.moi.rank && !role.system) || (role.id == everyone
            && self.moi.pouvoirs.administrator)
    }

    /// Starts a role right under our own rank, where none is being written.
    pub fn nouveau_role(&mut self, couleur: u32, defaut: Perms)
        ensures
            *final(self) == (Session {
                admin: Panneau { role_draft: final(self).admin.role_draft, ..old(self).admin },
                ..*old(self)
            }),
            if old(self).admin.role_draft is Some {
                final(self).admin.role_draft == old(self).admin.role_draft
            } else {
                final(self).admin.role_draft matches Some(d) && d.id is None && d.name@.len() == 0
                    && d.color == couleur && d.colored && d.perms == defaut && d.rank == if old(
                    self,
                ).moi.rank > 0 {
                    old(self).moi.rank - 1
                } else {
                    0
                }
            },
    {
        if self.admin.role_draft.is_some() {
            return;
        }
        let rank: u16 = if self.moi.rank > 0 {
            self.moi.rank - 1
        } else {
            0
        };
        self.admin.role_draft = Some(
            RoleDraft {
                id: None,
                name: String::new(),
                color: couleur,
                colored: true,
                rank,
                perms: defaut,
            },
        );
    }

    /// The highest rank that can be given to a role: right under our own, and
    /// one at least.
    pub fn plafond_rang(&self) -> (r: u16)
        ensures
            r == if self.moi.rank > 2 {
                self.moi.rank - 1
            } else {
                1
            },
    {
        if self.moi.rank > 2 {
            self.moi.rank - 1
        } else {
            1
        }
    }
}

/// Three components as one colour, `0xRRGGBB`.
pub fn couleur_rgb(r: u8, g: u8, b: u8) -> (c: u32)
    ensures
        c == r * 65536 + g * 256 + b,
{
    (r as u32) * 65536 + (g as u32) * 256 + (b as u32)
}

/// A permission is offered: we have it ourselves, and, for the role that
/// everyone has, it makes sense given to all.
pub fn permission_offerte(possede: bool, everyone: bool, bit: Perms, reserves: Perms) -> (r: bool)
    ensures
        r == (possede && !(everyone && reserves & bit != 0)),
{
    possede && !(everyone && reserves & bit != 0)
}

/// A set of permissions with one of them put on or taken off.
pub open spec fn regle(perms: Perms, bit: Perms, on: bool) -> Perms {
    if on {
        perms | bit
    } else {
        perms & !bit
    }
}

pub fn regler_permission(perms: Perms, bit: Perms, on: bool) -> (r: Perms)
    ensures
        r == regle(perms, bit, on),
{
    if on {
        perms | bit
    } else {
        perms & !bit
    }
}

/// Putting a permission on or off changes that one and no other.
pub proof fn loi_permission(perms: Perms, bit: Perms, on: bool, autre: Perms)
    requires
        bit != 0,
        autre & bit == 0,
    ensures
        (regle(perms, bit, true) & bit) == bit,
        (regle(perms, bit, false) & bit) == 0,
        (regle(perms, bit, on) & autre) == (perms & autre),
{
    assert((perms | bit) & bit == bit) by (bit_vector);
    assert((perms & !bit) & bit == 0) by (bit_vector);
    assert((perms | bit) & autre == perms & autre) by (bit_vector)
        requires
            autre & bit == 0,
    ;
    assert((perms & !bit) & autre == perms & autre) by (bit_vector)
        requires
            autre & bit == 0,
    ;
}

impl Panneau {
    /// The pencil of a role: opens its form. `couleur` is the one that its name
    /// is shown in.
    pub fn modifier_role(&mut self, role: &RoleInfo, couleur: u32)
        ensures
            *final(self) == (Panneau { role_draft: final(self).role_draft, ..*old(self) }),
            final(self).role_draft matches Some(d) && d.id == Some(role.id) && d.name@ == role.name@
                && d.color == couleur && d.colored == (role.color is Some) && d.rank == role.rank
                && d.perms == role.perms,
    {
        self.role_draft = Some(
            RoleDraft {
                id: Some(role.id),
                name: role.name.clone(),
                color: couleur,
                colored: role.color.is_some(),
                rank: role.rank,
                perms: role.perms,
            },
        );
    }

    /// Sends the role being written, where it has a name, and closes its form.
    pub fn enregistrer_role(&mut self) -> (r: Option<ClientMsg>)
        ensures
            match old(self).role_draft {
                Some(d) if texte::rogne(d.name@).len() > 0 => {
                    let couleur = if d.colored {
                        Some(d.color)
                    } else {
                        None
                    };
                    &&& *final(self) == (Panneau { role_draft: None, ..*old(self) })
                    &&& match d.id {
                        Some(id) => r matches Some(ClientMsg::AdminEditRole { role }) && role.id
                            == id && role.name@ == texte::rogne(d.name@) && role.color == couleur
                            && role.rank == d.rank && role.perms == d.perms && !role.system,
                        None => r matches Some(
                            ClientMsg::AdminCreateRole { name, color, rank, perms },
                        ) && name@ == texte::rogne(d.name@) && color == couleur && rank == d.rank
                            && perms == d.perms,
                    }
                },
                _ => *final(self) == *old(self) && r is None,
            },
    {
        let pret: bool = match &self.role_draft {
            Some(d) => !texte::rogner(d.name.as_str()).is_empty(),
            None => false,
        };
        if !pret {
            return None;
        }
        match self.role_draft.take() {
            Some(d) => {
                let name: String = texte::rogner(d.name.as_str()).to_owned();
                let color: Option<u32> = if d.colored {
                    Some(d.color)
                } else {
                    None
                };
                match d.id {
                    Some(id) => Some(
                        ClientMsg::AdminEditRole {
                            role: RoleInfo {
                                id,
                                name,
                                color,
                                rank: d.rank,
                                perms: d.perms,
                                system: false,
                            },
                        },
                    ),
                    None => Some(
                        ClientMsg::AdminCreateRole { name, color, rank: d.rank, perms: d.perms },
                    ),
                }
            },
            None => None,
        }
    }
}

// ---------------------------------------------------------------------
// Accounts
// ---------------------------------------------------------------------

/// The name of the first account with this number.
pub open spec fn nom_du_compte(s: Seq<AccountInfo>, id: UserId, de: int) -> Option<Seq<char>>
    decreases s.len() - de,
{
    if de >= s.len() {
        None
    } else if s[de].user_id == id {
        Some(s[de].username@)
    } else {
        nom_du_compte(s, id, de + 1)
    }
}

/// What can be done with an account. The bounds are those of the server: the
/// permission, the rank, and never banning oneself.
#[derive(Debug, Clone, Copy, PartialEq, Eq, Structural)]
pub struct BoutonsCompte {
    pub roles: bool,
    pub bannir: bool,
    pub debannir: bool,
    pub mot_de_passe: bool,
}

impl Session {
    /// This account is our own.
    pub open spec fn compte_mien(self, a: AccountInfo) -> bool {
        match self.moi.id {
            Some(id) => nom_du_compte(self.admin.users@, id, 0) == Some(a.username@),
            None => false,
        }
    }

    pub open spec fn boutons_de(self, a: AccountInfo) -> BoutonsCompte {
        let dessus = a.rank < self.moi.rank;
        let p = self.moi.pouvoirs;
        let peut_bannir = p.ban && dessus && !self.compte_mien(a);
        BoutonsCompte {
            roles: p.manage_roles && dessus,
            bannir: peut_bannir && !a.banned,
            debannir: peut_bannir && a.banned,
            mot_de_passe: p.reset_password && (self.compte_mien(a) || dessus),
        }
    }

    fn est_mien(&self, a: &AccountInfo) -> (r: bool)
        ensures
            r == self.compte_mien(*a),
    {
        let id: UserId = match self.moi.id {
            Some(id) => id,
            None => return false,
        };
        let mut i: usize = 0;
        while i < self.admin.users.len()
            invariant
                self.moi.id == Some(id),
                i <= self.admin.users@.len(),
                nom_du_compte(self.admin.users@, id, 0) == nom_du_compte(
                    self.admin.users@,
                    id,
                    i as int,
                ),
            decreases self.admin.users@.len() - i,
        {
            if self.admin.users[i].user_id == id {
                return texte::egal(self.admin.users[i].username.as_str(), a.username.as_str());
            }
            i += 1;
        }
        false
    }

    /// What can be done with an account.
    pub fn boutons_compte(&self, a: &AccountInfo) -> (r: BoutonsCompte)
        ensures
            r == self.boutons_de(*a),
    {
        let dessus: bool = self.outranks(a.rank);
        let mien: bool = self.est_mien(a);
        let p: Pouvoirs = self.moi.pouvoirs;
        let peut_bannir: bool = p.ban && dessus && !mien;
        BoutonsCompte {
            roles: p.manage_roles && dessus,
            bannir: peut_bannir && !a.banned,
            debannir: peut_bannir && a.banned,
            mot_de_passe: p.reset_password && (mien || dessus),
        }
    }

    /// Starts banning an account: a day, until something else is chosen.
    pub fn bannir_compte(&mut self, a: &AccountInfo)
        ensures
            *final(self) == (Session { ban_draft: final(self).ban_draft, ..*old(self) }),
            final(self).ban_draft matches Some(b) && b.username@ == a.username@ && b.reason@.len()
                == 0 && b.duration_secs == 86_400,
    {
        self.ban_draft = Some(
            BanDraft {
                username: a.username.clone(),
                reason: String::new(),
                duration_secs: 86_400,
            },
        );
    }

    /// Sends the ban being written.
    pub fn confirmer_ban(&mut self) -> (effets: Vec<Effet>)
        ensures
            *final(self) == (Session { ban_draft: None, ..*old(self) }),
            effets@ == match old(self).ban_draft {
                Some(b) => seq![
                    Effet::Envoyer(
                        ClientMsg::AdminBan {
                            username: b.username,
                            reason: b.reason,
                            duration_secs: b.duration_secs,
                        },
                    ),
                ],
                None => Seq::empty(),
            },
    {
        let mut effets: Vec<Effet> = Vec::new();
        if let Some(b) = self.ban_draft.take() {
            effets.push(
                Effet::Envoyer(
                    ClientMsg::AdminBan {
                        username: b.username,
                        reason: b.reason,
                        duration_secs: b.duration_secs,
                    },
                ),
            );
        }
        effets
    }

    /// A role can be given to an account: not the one that everyone has, and
    /// strictly under our own rank.
    pub fn attribuable(&self, role: &RoleInfo, everyone: RoleId) -> (r: bool)
        ensures
            r == (role.id != everyone && role.rank < self.moi.rank),
    {
        role.id != everyone && role.rank < self.moi.rank
    }
}

/// Nobody bans themselves, and nobody touches an account of their own rank or
/// above, but for their own password.
pub proof fn loi_compte_protege(s: Session, a: AccountInfo)
    ensures
        s.compte_mien(a) ==> !s.boutons_de(a).bannir && !s.boutons_de(a).debannir,
        a.rank >= s.moi.rank && !s.compte_mien(a) ==> s.boutons_de(a) == (BoutonsCompte {
            roles: false,
            bannir: false,
            debannir: false,
            mot_de_passe: false,
        }),
{
}

impl Panneau {
    /// Starts giving roles to an account.
    pub fn viser_roles(&mut self, a: &AccountInfo)
        ensures
            *final(self) == (Panneau {
                roles_target: final(self).roles_target,
                roles_draft: final(self).roles_draft,
                ..*old(self)
            }),
            texte::vue(final(self).roles_target) == Some(a.username@),
            final(self).roles_draft@ == a.roles@,
    {
        self.roles_target = Some(a.username.clone());
        self.roles_draft = copier(&a.roles);
    }

    /// Ticks or unticks a role of the account.
    pub fn cocher_role(&mut self, id: RoleId, coche: bool)
        ensures
            final(self).roles_draft@ == menus::coche_de(old(self).roles_draft@, id, coche),
            *final(self) == (Panneau { roles_draft: final(self).roles_draft, ..*old(self) }),
    {
        self.roles_draft = menus::cocher(&self.roles_draft, id, coche);
    }

    /// Sends the roles of the account, or gives up on them.
    pub fn fermer_roles(&mut self, appliquer: bool) -> (r: Option<ClientMsg>)
        ensures
            *final(self) == (Panneau {
                roles_target: None,
                roles_draft: final(self).roles_draft,
                ..*old(self)
            }),
            final(self).roles_draft@.len() == 0,
            match old(self).roles_target {
                Some(cible) if appliquer => r matches Some(
                    ClientMsg::AdminSetUserRoles { username, roles },
                ) && username == cible && roles@ == old(self).roles_draft@,
                _ => r is None,
            },
    {
        let mut roles: Vec<RoleId> = Vec::new();
        std::mem::swap(&mut roles, &mut self.roles_draft);
        match self.roles_target.take() {
            Some(username) => if appliquer {
                Some(ClientMsg::AdminSetUserRoles { username, roles })
            } else {
                None
            },
            None => None,
        }
    }

    /// Starts resetting the password of an account.
    pub fn viser_mot_de_passe(&mut self, a: &AccountInfo)
        ensures
            *final(self) == (Panneau {
                reset_target: final(self).reset_target,
                reset_password: final(self).reset_password,
                ..*old(self)
            }),
            texte::vue(final(self).reset_target) == Some(a.username@),
            final(self).reset_password@.len() == 0,
    {
        self.reset_target = Some(a.username.clone());
        self.reset_password = String::new();
    }

    /// Sends the new password, where it is long enough; or gives up on it.
    pub fn fermer_mot_de_passe(&mut self, appliquer: bool) -> (r: Option<ClientMsg>)
        ensures
            if appliquer && (!assez_long(old(self).reset_password@) || old(
                self,
            ).reset_target is None) {
                *final(self) == *old(self) && r is None
            } else {
                &&& *final(self) == (Panneau {
                    reset_target: None,
                    reset_password: final(self).reset_password,
                    ..*old(self)
                })
                &&& final(self).reset_password@.len() == 0
                &&& r == if appliquer {
                    Some(
                        ClientMsg::AdminResetPassword {
                            username: old(self).reset_target->0,
                            new_password: old(self).reset_password,
                        },
                    )
                } else {
                    None
                }
            },
    {
        if appliquer && (!mot_de_passe_valable(self.reset_password.as_str())
            || self.reset_target.is_none()) {
            return None;
        }
        let mut new_password: String = String::new();
        std::mem::swap(&mut new_password, &mut self.reset_password);
        match self.reset_target.take() {
            Some(username) => if appliquer {
                Some(ClientMsg::AdminResetPassword { username, new_password })
            } else {
                None
            },
            None => None,
        }
    }
}

/// A password is long enough: six bytes. An accented letter takes two.
pub open spec fn assez_long(s: Seq<char>) -> bool {
    vstd::utf8::encode_utf8(s).len() >= 6
}

pub fn mot_de_passe_valable(s: &str) -> (r: bool)
    ensures
        r == assez_long(s@),
{
    s.as_bytes().len() >= 6
}

/// How long a ban can last, in seconds; zero for ever.
pub const BAN_SECS: [u64; 5] = [3600, 86_400, 604_800, 2_592_000, 0];

pub fn libelle_ban(secs: u64) -> (r: Option<&'static str>)
    ensures
        match r {
            Some(t) => BAN_SECS@.contains(secs) && t@ == if secs == 3600 {
                "1 heure"@
            } else if secs == 86_400 {
                "1 jour"@
            } else if secs == 604_800 {
                "7 jours"@
            } else if secs == 2_592_000 {
                "30 jours"@
            } else {
                "Définitif"@
            },
            None => !BAN_SECS@.contains(secs),
        },
{
    assert(BAN_SECS@ =~= seq![3600u64, 86_400, 604_800, 2_592_000, 0]);
    assert(BAN_SECS@[0] == 3600 && BAN_SECS@[1] == 86_400 && BAN_SECS@[2] == 604_800 && BAN_SECS@[3]
        == 2_592_000 && BAN_SECS@[4] == 0);
    if secs == 3600 {
        Some("1 heure")
    } else if secs == 86_400 {
        Some("1 jour")
    } else if secs == 604_800 {
        Some("7 jours")
    } else if secs == 2_592_000 {
        Some("30 jours")
    } else if secs == 0 {
        Some("Définitif")
    } else {
        None
    }
}

/// How long a lock can last, in seconds.
pub const VERROU_SECS: [u32; 4] = [900, 3600, 14_400, 86_400];

pub fn libelle_verrou(secs: u32) -> (r: Option<&'static str>)
    ensures
        match r {
            Some(t) => VERROU_SECS@.contains(secs) && t@ == if secs == 900 {
                "15 minutes"@
            } else if secs == 3600 {
                "1 heure"@
            } else if secs == 14_400 {
                "4 heures"@
            } else {
                "1 jour"@
            },
            None => !VERROU_SECS@.contains(secs),
        },
{
    assert(VERROU_SECS@ =~= seq![900u32, 3600, 14_400, 86_400]);
    assert(VERROU_SECS@[0] == 900 && VERROU_SECS@[1] == 3600 && VERROU_SECS@[2] == 14_400
        && VERROU_SECS@[3] == 86_400);
    if secs == 900 {
        Some("15 minutes")
    } else if secs == 3600 {
        Some("1 heure")
    } else if secs == 14_400 {
        Some("4 heures")
    } else if secs == 86_400 {
        Some("1 jour")
    } else {
        None
    }
}

/// What is left of a ban, in words.
pub open spec fn ban_dit(until: Option<u64>, maintenant: u64) -> Seq<char> {
    match until {
        None => "banni"@,
        Some(u) => {
            let minutes: nat = if u > maintenant {
                ((u - maintenant) / 60_000) as nat
            } else {
                0
            };
            if minutes == 0 {
                "banni — expire"@
            } else if minutes <= 90 {
                "banni — "@ + texte::decimal(minutes) + " min"@
            } else if minutes < 2880 {
                "banni — "@ + texte::decimal(minutes / 60) + " h"@
            } else {
                "banni — "@ + texte::decimal(minutes / 1440) + " j"@
            }
        },
    }
}

/// The short label of a ban: for ever, or what is left of it.
pub fn ban_summary(account: &AccountInfo, maintenant: u64) -> (r: String)
    ensures
        r@ == ban_dit(account.ban_until, maintenant),
{
    let until: u64 = match account.ban_until {
        Some(u) => u,
        None => return "banni".to_owned(),
    };
    let minutes: u64 = if until > maintenant {
        (until - maintenant) / 60_000
    } else {
        0
    };
    if minutes == 0 {
        return "banni — expire".to_owned();
    }
    let mut s: String = "banni — ".to_owned();
    if minutes <= 90 {
        texte::pousser_decimal(&mut s, minutes);
        s.append(" min");
    } else if minutes < 2880 {
        texte::pousser_decimal(&mut s, minutes / 60);
        s.append(" h");
    } else {
        texte::pousser_decimal(&mut s, minutes / 1440);
        s.append(" j");
    }
    s
}

/// What stands under a banned account: the reason and the author, where they
/// are known. `motif` and `auteur` are what can be shown of them.
pub open spec fn detail_dit(a: AccountInfo, motif: Seq<char>, auteur: Seq<char>) -> Option<
    Seq<char>,
> {
    if !a.banned || (a.ban_reason@.len() == 0 && a.ban_by@.len() == 0) {
        None
    } else {
        let debut = if a.ban_reason@.len() > 0 {
            motif
        } else {
            Seq::empty()
        };
        Some(
            if a.ban_by@.len() == 0 {
                debut
            } else if debut.len() > 0 {
                debut + " — "@ + "par "@ + auteur
            } else {
                "par "@ + auteur
            },
        )
    }
}

pub fn detail_ban(a: &AccountInfo, motif: &str, auteur: &str) -> (r: Option<String>)
    ensures
        texte::vue(r) == detail_dit(*a, motif@, auteur@),
{
    if !a.banned || (a.ban_reason.as_str().is_empty() && a.ban_by.as_str().is_empty()) {
        return None;
    }
    let mut s: String = String::new();
    if !a.ban_reason.as_str().is_empty() {
        s.append(motif);
        assert(s@ =~= motif@);
    }
    if !a.ban_by.as_str().is_empty() {
        if !s.as_str().is_empty() {
            s.append(" — ");
            s.append("par ");
            s.append(auteur);
        } else {
            s = "par ".to_owned();
            s.append(auteur);
        }
    }
    Some(s)
}

// ---------------------------------------------------------------------
// Invitations and the log
// ---------------------------------------------------------------------

/// What is left of an invitation.
#[derive(Debug, Clone, Copy, PartialEq, Eq, Structural)]
pub enum EtatInvite {
    Permanente,
    Restant(u32),
    Revoquee,
}

pub fn etat_invite(i: &InviteInfo) -> (r: EtatInvite)
    ensures
        r == if i.revoked {
            EtatInvite::Revoquee
        } else {
            match i.uses_left {
                None => EtatInvite::Permanente,
                Some(n) => EtatInvite::Restant(n),
            }
        },
{
    if i.revoked {
        return EtatInvite::Revoquee;
    }
    match i.uses_left {
        None => EtatInvite::Permanente,
        Some(n) => EtatInvite::Restant(n),
    }
}

/// The request to revoke an invitation, where it is not revoked yet.
pub fn revoquer(i: &InviteInfo) -> (r: Option<ClientMsg>)
    ensures
        match r {
            Some(ClientMsg::AdminRevokeInvite { code }) => !i.revoked && code@ == i.code@,
            Some(_) => false,
            None => i.revoked,
        },
{
    if i.revoked {
        None
    } else {
        Some(ClientMsg::AdminRevokeInvite { code: i.code.clone() })
    }
}

/// What is copied for someone to come in with: the server and the code.
pub fn texte_invitation(url: &str, code: &str) -> (r: String)
    ensures
        r@ == "serveur : "@ + url@ + "  |  code d'invitation : "@ + code@,
{
    let mut s: String = "serveur : ".to_owned();
    s.append(url);
    s.append("  |  code d'invitation : ");
    s.append(code);
    s
}

impl Panneau {
    /// Asks for a code, and empties its label.
    pub fn creer_invitation(&mut self) -> (r: ClientMsg)
        ensures
            r matches ClientMsg::AdminCreateInvite { uses, label, ttl_secs } && uses == old(
                self,
            ).invite_uses && label@ == texte::rogne(old(self).invite_label@) && ttl_secs == 0,
            final(self).invite_label@.len() == 0,
            *final(self) == (Panneau { invite_label: final(self).invite_label, ..*old(self) }),
    {
        let label: String = texte::rogner(self.invite_label.as_str()).to_owned();
        self.invite_label = String::new();
        ClientMsg::AdminCreateInvite { uses: self.invite_uses, label, ttl_secs: 0 }
    }
}

/// What an action of the log is called.
pub open spec fn action_dite(action: Seq<char>) -> Seq<char> {
    if action == "invite.create"@ {
        "invitation créée"@
    } else if action == "invite.use"@ {
        "compte créé"@
    } else if action == "invite.revoke"@ {
        "invitation révoquée"@
    } else if action == "member.kick"@ {
        "expulsion"@
    } else if action == "member.ban"@ {
        "bannissement"@
    } else if action == "member.unban"@ {
        "ban annulé"@
    } else if action == "member.password_reset"@ {
        "mot de passe réinitialisé"@
    } else if action == "server.info"@ {
        "identité du serveur"@
    } else {
        action
    }
}

/// What an action of the log is called. One that is not known is shown as it
/// is, rather than not at all.
pub fn audit_label(action: &str) -> (r: String)
    ensures
        r@ == action_dite(action@),
{
    if texte::egal(action, "invite.create") {
        "invitation créée".to_owned()
    } else if texte::egal(action, "invite.use") {
        "compte créé".to_owned()
    } else if texte::egal(action, "invite.revoke") {
        "invitation révoquée".to_owned()
    } else if texte::egal(action, "member.kick") {
        "expulsion".to_owned()
    } else if texte::egal(action, "member.ban") {
        "bannissement".to_owned()
    } else if texte::egal(action, "member.unban") {
        "ban annulé".to_owned()
    } else if texte::egal(action, "member.password_reset") {
        "mot de passe réinitialisé".to_owned()
    } else if texte::egal(action, "server.info") {
        "identité du serveur".to_owned()
    } else {
        action.to_owned()
    }
}

/// How an action of the log is coloured.
#[derive(Debug, Clone, Copy, PartialEq, Eq, Structural)]
pub enum TonAction {
    /// It punishes.
    Danger,
    /// It opens a way in.
    Accent,
    Ordinaire,
}

pub fn audit_tone(action: &str) -> (r: TonAction)
    ensures
        r == if action@ == "member.kick"@ || action@ == "member.ban"@ {
            TonAction::Danger
        } else if action@ == "invite.create"@ || action@ == "invite.use"@ {
            TonAction::Accent
        } else {
            TonAction::Ordinaire
        },
{
    if texte::egal(action, "member.kick") || texte::egal(action, "member.ban") {
        TonAction::Danger
    } else if texte::egal(action, "invite.create") || texte::egal(action, "invite.use") {
        TonAction::Accent
    } else {
        TonAction::Ordinaire
    }
}

/// Who did it: the server, where nobody is named.
pub fn acteur(nom: &str) -> (r: &str)
    ensures
        r@ == if nom@.len() == 0 {
            "le serveur"@
        } else {
            nom@
        },
{
    if nom.is_empty() {
        "le serveur"
    } else {
        nom
    }
}

// ---------------------------------------------------------------------
// The server's identity
// ---------------------------------------------------------------------

impl Session {
    /// Something of the identity was changed.
    pub open spec fn identite_changee_de(self) -> bool {
        !(self.admin.icon is Keep) || texte::rogne(self.admin.name@) != self.server_info.name@
    }

    /// The identity can be sent: it was changed, and the name is not too long.
    pub fn identite_prete(&self, max: usize) -> (r: bool)
        ensures
            r == (self.identite_changee_de() && texte::rogne(self.admin.name@).len() <= max),
    {
        let nom: &str = texte::rogner(self.admin.name.as_str());
        let garde: bool = matches!(self.admin.icon, IconChange::Keep);
        (!garde || !texte::egal(nom, self.server_info.name.as_str())) && nom.unicode_len() <= max
    }

    /// The icon that everyone would see.
    pub fn icone_prevue(&self) -> (r: Option<&str>)
        ensures
            match (r, self.icone_de()) {
                (Some(a), Some(b)) => a@ == b,
                (None, None) => true,
                _ => false,
            },
    {
        match &self.admin.icon {
            IconChange::Replace { data } => Some(data.as_str()),
            IconChange::Clear => None,
            IconChange::Keep => match &self.server_info.icon {
                Some(i) => Some(i.as_str()),
                None => None,
            },
        }
    }

    pub open spec fn icone_de(self) -> Option<Seq<char>> {
        match self.admin.icon {
            IconChange::Replace { data } => Some(data@),
            IconChange::Clear => None,
            IconChange::Keep => texte::vue(self.server_info.icon),
        }
    }

    /// Sends the identity, where it can be.
    pub fn appliquer_identite(&mut self, max: usize) -> (r: Option<ClientMsg>)
        ensures
            if old(self).identite_changee_de() && texte::rogne(old(self).admin.name@).len() <= max {
                &&& *final(self) == (Session {
                    admin: Panneau { icon: IconChange::Keep, ..old(self).admin },
                    ..*old(self)
                })
                &&& r matches Some(ClientMsg::AdminSetServerInfo { name, icon }) && texte::vue(name)
                    == Some(texte::rogne(old(self).admin.name@)) && icon == old(self).admin.icon
            } else {
                *final(self) == *old(self) && r is None
            },
    {
        if !self.identite_prete(max) {
            return None;
        }
        let name: String = texte::rogner(self.admin.name.as_str()).to_owned();
        let mut icon: IconChange = IconChange::Keep;
        std::mem::swap(&mut icon, &mut self.admin.icon);
        Some(ClientMsg::AdminSetServerInfo { name: Some(name), icon })
    }

    /// The image that was picked for the icon of the server came.
    pub fn icone_choisie(&mut self, choix: Result<String, String>)
        ensures
            match choix {
                Ok(data) => *final(self) == (Session {
                    admin: Panneau { icon: IconChange::Replace { data }, ..old(self).admin },
                    ..*old(self)
                }),
                Err(e) => {
                    &&& *final(self) == (Session { error: final(self).error, ..*old(self) })
                    &&& texte::vue(final(self).error) == Some("image illisible : "@ + e@)
                },
            },
    {
        match choix {
            Ok(data) => {
                self.admin.icon = IconChange::Replace { data };
            },
            Err(e) => {
                self.error = Some(image_illisible(e.as_str()));
            },
        }
    }

    /// The image that was picked for our own picture came.
    pub fn photo_choisie(&mut self, choix: Result<String, String>)
        ensures
            match choix {
                Ok(data) => *final(self) == (Session {
                    compte: Compte { avatar: IconChange::Replace { data }, ..old(self).compte },
                    ..*old(self)
                }),
                Err(e) => {
                    &&& *final(self) == (Session { error: final(self).error, ..*old(self) })
                    &&& texte::vue(final(self).error) == Some("image illisible : "@ + e@)
                },
            },
    {
        match choix {
            Ok(data) => {
                self.compte.avatar = IconChange::Replace { data };
            },
            Err(e) => {
                self.error = Some(image_illisible(e.as_str()));
            },
        }
    }
}

fn image_illisible(e: &str) -> (r: String)
    ensures
        r@ == "image illisible : "@ + e@,
{
    let mut s: String = "image illisible : ".to_owned();
    s.append(e);
    s
}

// ---------------------------------------------------------------------
// Our account
// ---------------------------------------------------------------------

impl Compte {
    /// The change of password can be sent.
    pub open spec fn pret_de(self) -> bool {
        self.old_password@.len() > 0 && assez_long(self.new_password@)
    }

    pub fn pret(&self) -> (r: bool)
        ensures
            r == self.pret_de(),
    {
        !self.old_password.as_str().is_empty() && mot_de_passe_valable(self.new_password.as_str())
    }

    /// Sends the change of password, where it can be, and empties the fields.
    pub fn changer_mot_de_passe(&mut self) -> (r: Option<ClientMsg>)
        ensures
            if old(self).pret_de() {
                &&& r == Some(
                    ClientMsg::ChangePassword {
                        old_password: old(self).old_password,
                        new_password: old(self).new_password,
                    },
                )
                &&& final(self).old_password@.len() == 0 && final(self).new_password@.len() == 0
                &&& *final(self) == (Compte {
                    old_password: final(self).old_password,
                    new_password: final(self).new_password,
                    ..*old(self)
                })
            } else {
                r is None && *final(self) == *old(self)
            },
    {
        if !self.pret() {
            return None;
        }
        let mut old_password: String = String::new();
        let mut new_password: String = String::new();
        std::mem::swap(&mut old_password, &mut self.old_password);
        std::mem::swap(&mut new_password, &mut self.new_password);
        Some(ClientMsg::ChangePassword { old_password, new_password })
    }

    /// Sends the change of picture, where there is one.
    pub fn enregistrer_photo(&mut self) -> (r: Option<ClientMsg>)
        ensures
            if old(self).avatar is Keep {
                r is None && *final(self) == *old(self)
            } else {
                &&& r == Some(ClientMsg::SetAvatar { avatar: old(self).avatar })
                &&& *final(self) == (Compte { avatar: IconChange::Keep, ..*old(self) })
            },
    {
        if matches!(self.avatar, IconChange::Keep) {
            return None;
        }
        let mut avatar: IconChange = IconChange::Keep;
        std::mem::swap(&mut avatar, &mut self.avatar);
        Some(ClientMsg::SetAvatar { avatar })
    }
}

// ---------------------------------------------------------------------
// Closing windows
// ---------------------------------------------------------------------

impl Session {
    /// Closes the settings. Listening to oneself and a calibration end with
    /// them: the engine is then told.
    pub fn close_settings(&mut self, calibrage: bool) -> (effets: Vec<Effet>)
        ensures
            *final(self) == (Session {
                show_settings: false,
                info: None,
                vocal: crate::session::Vocal { loopback: false, ..old(self).vocal },
                ..*old(self)
            }),
            effets@ == if calibrage || old(self).vocal.loopback {
                seq![Effet::ReglerAudio]
            } else {
                Seq::empty()
            },
    {
        let mut effets: Vec<Effet> = Vec::new();
        self.show_settings = false;
        self.info = None;
        if calibrage || self.vocal.loopback {
            self.vocal.loopback = false;
            effets.push(Effet::ReglerAudio);
        }
        effets
    }

    /// Closes the account window, and forgets what was typed in it.
    pub fn close_account(&mut self)
        ensures
            final(self).compte.vierge(),
            *final(self) == (Session { compte: final(self).compte, info: None, ..*old(self) }),
    {
        self.compte = Compte::new();
        self.info = None;
    }

    /// The escape key: closes the window in front, one at a time.
    pub fn echap(&mut self, calibrage: bool) -> (effets: Vec<Effet>)
        ensures
            if old(self).show_settings {
                &&& *final(self) == (Session {
                    show_settings: false,
                    info: None,
                    vocal: crate::session::Vocal { loopback: false, ..old(self).vocal },
                    ..*old(self)
                })
                &&& effets@ == if calibrage || old(self).vocal.loopback {
                    seq![Effet::ReglerAudio]
                } else {
                    Seq::empty()
                }
            } else if old(self).admin.ouvert {
                *final(self) == reception::admin_ferme(*old(self)) && effets@.len() == 0
            } else if old(self).compte.ouvert {
                &&& final(self).compte.vierge()
                &&& *final(self) == (Session {
                    compte: final(self).compte,
                    info: None,
                    ..*old(self)
                })
                &&& effets@.len() == 0
            } else {
                *final(self) == *old(self) && effets@.len() == 0
            },
    {
        if self.show_settings {
            return self.close_settings(calibrage);
        }
        if self.admin.ouvert {
            self.close_admin();
        } else if self.compte.ouvert {
            self.close_account();
        }
        Vec::new()
    }
}

/// Each tab is opened by its own permission, the tabs that are open are listed,
/// and the one that is shown is the chosen one where it is open, the first open
/// one where it is not.
pub proof fn loi_onglets(p: Pouvoirs, tab: AdminTab)
    ensures
        AdminTab::Server.permis(p) == p.manage_server,
        AdminTab::Channels.permis(p) == p.manage_channels,
        AdminTab::Roles.permis(p) == p.manage_roles,
        AdminTab::Members.permis(p) == p.kick,
        AdminTab::Invites.permis(p) == p.create_invite,
        AdminTab::Audit.permis(p) == p.view_audit_log,
        AdminTab::Diagnostics.permis(p) == p.administrator,
        ouverts(p, 7).contains(tab) == tab.permis(p),
        tab.permis(p) ==> montre(tab, p) == tab,
        !tab.permis(p) && ouverts(p, 7).len() > 0 ==> montre(tab, p) == ouverts(p, 7)[0],
{
    lemme_ouverts(p, 7, tab);
    let k: int = match tab {
        AdminTab::Server => 0,
        AdminTab::Channels => 1,
        AdminTab::Roles => 2,
        AdminTab::Members => 3,
        AdminTab::Invites => 4,
        AdminTab::Audit => 5,
        AdminTab::Diagnostics => 6,
    };
    assert(AdminTab::ALL[k] == tab);
}

proof fn lemme_ouverts(p: Pouvoirs, n: int, tab: AdminTab)
    requires
        0 <= n <= 7,
    ensures
        ouverts(p, n).contains(tab) <==> tab.permis(p) && exists|k: int|
            0 <= k < n && #[trigger] AdminTab::ALL[k] == tab,
    decreases n,
{
    if n > 0 {
        lemme_ouverts(p, n - 1, tab);
        let a = ouverts(p, n - 1);
        let r = ouverts(p, n);
        if r.contains(tab) {
            let i = choose|i: int| 0 <= i < r.len() && r[i] == tab;
            if i < a.len() {
                assert(a[i] == tab);
            } else {
                assert(AdminTab::ALL[n - 1] == tab);
            }
        }
        if a.contains(tab) {
            let i = choose|i: int| 0 <= i < a.len() && a[i] == tab;
            assert(r[i] == tab);
        }
        if tab.permis(p) && AdminTab::ALL[n - 1] == tab {
            assert(r[r.len() - 1] == tab);
        }
    }
}

/// Over an account of a strictly lower rank that is not ours each permission
/// opens its own buttons; of our own account only the password can be set anew.
pub proof fn loi_boutons_d_un_compte(s: Session, a: AccountInfo)
    ensures
        a.rank < s.moi.rank && !s.compte_mien(a) ==> {
            &&& s.boutons_de(a).roles == s.moi.pouvoirs.manage_roles
            &&& s.boutons_de(a).bannir == (s.moi.pouvoirs.ban && !a.banned)
            &&& s.boutons_de(a).debannir == (s.moi.pouvoirs.ban && a.banned)
            &&& s.boutons_de(a).mot_de_passe == s.moi.pouvoirs.reset_password
        },
        s.compte_mien(a) ==> s.boutons_de(a).mot_de_passe == s.moi.pouvoirs.reset_password
            && !s.boutons_de(a).bannir && !s.boutons_de(a).debannir,
        a.rank >= s.moi.rank ==> !s.boutons_de(a).roles && !s.boutons_de(a).bannir,
{
}

/// An account is ours when it bears the name of the first account that has our
/// number.
pub proof fn loi_compte_mien(s: Session, a: AccountInfo, moi: UserId, i: int)
    requires
        s.moi.id == Some(moi),
        0 <= i < s.admin.users@.len(),
        s.admin.users@[i].user_id == moi,
        forall|k: int| 0 <= k < i ==> (#[trigger] s.admin.users@[k]).user_id != moi,
    ensures
        s.compte_mien(a) == (s.admin.users@[i].username@ == a.username@),
{
    lemme_nom_du_compte(s.admin.users@, moi, 0, i);
}

proof fn lemme_nom_du_compte(u: Seq<AccountInfo>, id: UserId, de: int, i: int)
    requires
        0 <= de <= i < u.len(),
        u[i].user_id == id,
        forall|k: int| de <= k < i ==> (#[trigger] u[k]).user_id != id,
    ensures
        nom_du_compte(u, id, de) == Some(u[i].username@),
    decreases i - de,
{
    if de < i {
        assert(u[de].user_id != id);
        lemme_nom_du_compte(u, id, de + 1, i);
    }
}

/// What is left of a ban is told in minutes up to an hour and a half, then in
/// hours up to two days, then in days; a ban without an end is only told.
pub proof fn loi_ban_dit(u: u64, maintenant: u64, minutes: nat)
    requires
        u >= maintenant,
        minutes * 60_000 <= u - maintenant < (minutes + 1) * 60_000,
    ensures
        ban_dit(None, maintenant) == "banni"@,
        minutes == 0 ==> ban_dit(Some(u), maintenant) == "banni — expire"@,
        1 <= minutes <= 90 ==> ban_dit(Some(u), maintenant) == "banni — "@ + texte::decimal(minutes)
            + " min"@,
        91 <= minutes < 2880 ==> ban_dit(Some(u), maintenant) == "banni — "@ + texte::decimal(
            minutes / 60,
        ) + " h"@,
        2880 <= minutes ==> ban_dit(Some(u), maintenant) == "banni — "@ + texte::decimal(
            minutes / 1440,
        ) + " j"@,
{
    let d = u - maintenant;
    assert(d / 60_000 == minutes) by (nonlinear_arith)
        requires
            minutes * 60_000 <= d < (minutes + 1) * 60_000,
    ;
}

/// A channel can be made or changed once it has a name, and, where it is for some
/// roles only, at least one of them.
pub proof fn loi_salon_pret(d: ChannelDraft)
    ensures
        d.pret_de() <==> !texte::que_du_blanc(d.name@) && !(d.restricted && d.allowed_roles@.len()
            == 0),
        restriction(d) is Some == d.restricted,
        d.restricted ==> restriction(d) == Some(d.allowed_roles@),
{
    let _ = texte::loi_rogne(d.name@);
}

/// Two channels that change places: each gets the place of the other, and no
/// other moves.
pub proof fn loi_echange(s: Seq<ChannelId>, i: int, j: int, k: int)
    requires
        0 <= i < s.len(),
        0 <= j < s.len(),
        0 <= k < s.len(),
    ensures
        echange(s, i, j).len() == s.len(),
        echange(s, i, j)[i] == s[j],
        echange(s, i, j)[j] == s[i],
        k != i && k != j ==> echange(s, i, j)[k] == s[k],
{
}

/// The name and the icon of the server are there to be saved when they differ
/// from what they are; the icon shown is the one that saving would leave.
pub proof fn loi_identite_a_enregistrer(s: Session)
    ensures
        s.admin.icon is Keep ==> s.identite_changee_de() == (texte::rogne(s.admin.name@)
            != s.server_info.name@),
        !(s.admin.icon is Keep) ==> s.identite_changee_de(),
        s.admin.icon is Keep ==> s.icone_de() == texte::vue(s.server_info.icon),
        s.admin.icon is Clear ==> s.icone_de() is None,
        s.admin.icon matches IconChange::Replace { data } ==> s.icone_de() == Some(data@),
{
}

/// Our password can be changed with the old one, and a new one of six bytes at
/// least.
pub proof fn loi_mot_de_passe_pret(c: Compte)
    ensures
        c.pret_de() <==> c.old_password@.len() > 0 && vstd::utf8::encode_utf8(
            c.new_password@,
        ).len() >= 6,
{
}

} // verus!
