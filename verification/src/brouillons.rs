//! What the windows hold while they are being filled in.

use crate::protocole::{
    AccountInfo, AuditRecord, ChannelId, ChannelKind, IconChange, InviteInfo, Perms, RoleId,
};
use vstd::prelude::*;

verus! {

/// The tabs of the administration window.
#[derive(Debug, Clone, Copy, PartialEq, Eq, Structural)]
pub enum AdminTab {
    Server,
    Channels,
    Roles,
    Members,
    Invites,
    Audit,
    Diagnostics,
}

/// A role being written. The colour is `0xRRGGBB`.
#[derive(Debug)]
pub struct RoleDraft {
    pub id: Option<RoleId>,
    pub name: String,
    pub color: u32,
    pub colored: bool,
    pub rank: u16,
    pub perms: Perms,
}

/// A channel being written.
#[derive(Debug)]
pub struct ChannelDraft {
    pub name: String,
    pub kind: ChannelKind,
    pub allowed_roles: Vec<RoleId>,
    pub restricted: bool,
}

/// A channel being changed.
#[derive(Debug)]
pub struct ChannelEdit {
    pub id: ChannelId,
    pub draft: ChannelDraft,
    pub position: u32,
}

/// A lock being put on a voice channel.
#[derive(Debug)]
pub struct VerrouDraft {
    pub channel: ChannelId,
    pub mot_de_passe: String,
    pub ttl_secs: u32,
}

/// The password of a locked voice channel being asked for.
#[derive(Debug)]
pub struct VoicePrompt {
    pub channel: ChannelId,
    pub password: String,
    pub wrong: bool,
}

/// A ban being written.
#[derive(Debug)]
pub struct BanDraft {
    pub username: String,
    pub reason: String,
    pub duration_secs: u64,
}

/// The administration window.
#[derive(Debug)]
pub struct Panneau {
    pub ouvert: bool,
    pub name: String,
    pub icon: IconChange,
    pub users: Vec<AccountInfo>,
    pub invites: Vec<InviteInfo>,
    pub last_invite: Option<String>,
    pub reset_target: Option<String>,
    pub reset_password: String,
    pub audit: Vec<AuditRecord>,
    pub tab: AdminTab,
    pub invite_uses: Option<u32>,
    pub invite_label: String,
    pub role_draft: Option<RoleDraft>,
    pub channel_draft: Option<ChannelDraft>,
    pub channel_edit: Option<ChannelEdit>,
    pub verrou_draft: Option<VerrouDraft>,
    pub roles_target: Option<String>,
    pub roles_draft: Vec<RoleId>,
}

/// The account window.
#[derive(Debug)]
pub struct Compte {
    pub ouvert: bool,
    pub old_password: String,
    pub new_password: String,
    pub avatar: IconChange,
}

impl Panneau {
    /// Nothing of a server is left in it.
    pub open spec fn vierge(self) -> bool {
        &&& !self.ouvert
        &&& self.name@.len() == 0
        &&& self.icon is Keep
        &&& self.users@.len() == 0
        &&& self.invites@.len() == 0
        &&& self.last_invite is None
        &&& self.reset_target is None
        &&& self.reset_password@.len() == 0
        &&& self.audit@.len() == 0
        &&& self.role_draft is None
        &&& self.channel_draft is None
        &&& self.channel_edit is None
        &&& self.verrou_draft is None
        &&& self.roles_target is None
        &&& self.roles_draft@.len() == 0
    }

    pub fn new() -> (r: Self)
        ensures
            r.vierge(),
            r.tab == AdminTab::Server,
            r.invite_uses == Some(1u32),
            r.invite_label@.len() == 0,
    {
        Panneau {
            ouvert: false,
            name: String::new(),
            icon: IconChange::Keep,
            users: Vec::new(),
            invites: Vec::new(),
            last_invite: None,
            reset_target: None,
            reset_password: String::new(),
            audit: Vec::new(),
            tab: AdminTab::Server,
            invite_uses: Some(1),
            invite_label: String::new(),
            role_draft: None,
            channel_draft: None,
            channel_edit: None,
            verrou_draft: None,
            roles_target: None,
            roles_draft: Vec::new(),
        }
    }

    /// Forgets all that came from a server, or was being written for it. The
    /// tab and the invitation being prepared stay.
    pub fn vider(&mut self)
        ensures
            final(self).vierge(),
            final(self).tab == old(self).tab,
            final(self).invite_uses == old(self).invite_uses,
            final(self).invite_label == old(self).invite_label,
    {
        self.ouvert = false;
        self.name = String::new();
        self.icon = IconChange::Keep;
        self.users = Vec::new();
        self.invites = Vec::new();
        self.last_invite = None;
        self.reset_target = None;
        self.reset_password = String::new();
        self.audit = Vec::new();
        self.role_draft = None;
        self.channel_draft = None;
        self.channel_edit = None;
        self.verrou_draft = None;
        self.roles_target = None;
        self.roles_draft = Vec::new();
    }
}

impl Compte {
    /// Nothing is being written in it.
    pub open spec fn vierge(self) -> bool {
        &&& !self.ouvert
        &&& self.old_password@.len() == 0
        &&& self.new_password@.len() == 0
        &&& self.avatar is Keep
    }

    pub fn new() -> (r: Self)
        ensures
            r.vierge(),
    {
        Compte {
            ouvert: false,
            old_password: String::new(),
            new_password: String::new(),
            avatar: IconChange::Keep,
        }
    }
}

} // verus!
