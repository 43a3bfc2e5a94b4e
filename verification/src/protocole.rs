//! The messages that the client and the server exchange, as the client's
//! logic reads and writes them.

use crate::session::Pouvoirs;
use crate::vocal::Pertes;
use vstd::prelude::*;

verus! {

pub type UserId = u64;

pub type ChannelId = u64;

pub type RoleId = u64;

/// A set of permission bits.
pub type Perms = u64;

#[derive(Debug, Clone, Copy, PartialEq, Eq, Structural)]
pub enum ChannelKind {
    Text,
    Voice,
}

/// A channel. `allowed_roles` is `None` where everyone sees it.
#[derive(Debug)]
pub struct ChannelInfo {
    pub id: ChannelId,
    pub name: String,
    pub kind: ChannelKind,
    pub position: u32,
    pub locked: bool,
    pub allowed_roles: Option<Vec<RoleId>>,
}

/// A role, with its place in the hierarchy.
#[derive(Debug)]
pub struct RoleInfo {
    pub id: RoleId,
    pub name: String,
    pub color: Option<u32>,
    pub rank: u16,
    pub perms: Perms,
    pub system: bool,
}

/// A member of the server, online or not.
#[derive(Debug)]
pub struct Member {
    pub user_id: UserId,
    pub username: String,
    pub online: bool,
    pub admin: bool,
    pub rank: u16,
    pub color: Option<u32>,
    pub roles: Vec<RoleId>,
    /// The fingerprint of the member's picture.
    pub avatar: Option<String>,
    /// The voice channel where the member is.
    pub voice: Option<ChannelId>,
    pub speaking: bool,
    pub muted: bool,
    pub force_muted: bool,
    pub force_deafened: bool,
}

/// A chat message.
#[derive(Debug)]
pub struct ChatRecord {
    pub user_id: UserId,
    pub username: String,
    pub text: String,
    pub ts: u64,
}

/// A message found by a search.
#[derive(Debug)]
pub struct SearchHit {
    pub channel: ChannelId,
    pub record: ChatRecord,
}

/// What the server calls itself.
#[derive(Debug)]
pub struct ServerInfo {
    pub name: String,
    pub icon: Option<String>,
}

/// An account, as an administrator sees it.
#[derive(Debug)]
pub struct AccountInfo {
    pub user_id: UserId,
    pub username: String,
    pub online: bool,
    pub admin: bool,
    pub rank: u16,
    pub roles: Vec<RoleId>,
    pub banned: bool,
    pub ban_until: Option<u64>,
    pub ban_reason: String,
    pub ban_by: String,
}

/// An invitation code. `uses_left` is `None` for a permanent one.
#[derive(Debug)]
pub struct InviteInfo {
    pub code: String,
    pub label: String,
    pub uses_left: Option<u32>,
    pub uses: u32,
    pub revoked: bool,
}

/// A line of the audit log.
#[derive(Debug)]
pub struct AuditRecord {
    pub ts: u64,
    pub action: String,
    pub actor: String,
    pub target: String,
    pub detail: String,
}

/// A change of picture: keep it, take it off, or put another in its place.
#[derive(Debug)]
pub enum IconChange {
    Keep,
    Clear,
    Replace { data: String },
}

/// What a screen share announces of itself.
#[derive(Debug, Clone, Copy, PartialEq, Eq, Structural)]
pub struct StreamMeta {
    pub width: u16,
    pub height: u16,
    pub fps: u8,
    pub kbps: u32,
    /// The fingerprint of the machine that shares.
    pub machine: u64,
}

/// A guest who came in through a web door.
#[derive(Debug, Clone, PartialEq, Eq)]
pub struct InviteWeb {
    pub invite_id: UserId,
    pub nom: String,
    pub depuis: u64,
    pub vocal: Option<ChannelId>,
}

/// Someone who knocks at a web door.
#[derive(Debug, Clone, PartialEq, Eq)]
pub struct DemandeWeb {
    pub demande_id: u64,
    pub nom: String,
    pub depuis: u64,
}

/// What the client sends.
#[derive(Debug)]
pub enum ClientMsg {
    Join { channel: ChannelId },
    History { limit: u32 },
    HistoryBefore { before_ts: u64, limit: u32, channel: ChannelId },
    JoinVoice { channel: ChannelId, password: Option<String> },
    LeaveVoice,
    RequestAvatars { user_ids: Vec<UserId> },
    Chat { text: String },
    Search { query: String, channel: Option<ChannelId>, limit: u32 },
    VoiceState { speaking: bool, muted: bool },
    Kick { user_id: UserId, reason: String },
    SetAvatar { avatar: IconChange },
    ChangePassword { old_password: String, new_password: String },
    AdminListUsers,
    AdminAuditLog { limit: u32 },
    AdminBan { username: String, reason: String, duration_secs: u64 },
    AdminUnban { username: String },
    AdminSetUserRoles { username: String, roles: Vec<RoleId> },
    AdminResetPassword { username: String, new_password: String },
    AdminVoiceMute { username: String, muted: bool },
    AdminVoiceDeafen { username: String, deafened: bool },
    AdminVoiceMove { username: String, channel: Option<ChannelId> },
    AdminSetServerInfo { name: Option<String>, icon: IconChange },
    AdminCreateChannel { name: String, kind: ChannelKind, allowed_roles: Option<Vec<RoleId>> },
    AdminEditChannel { channel: ChannelInfo },
    AdminDeleteChannel { channel: ChannelId },
    AdminReorderChannels { order: Vec<ChannelId> },
    AdminSetVoicePassword { channel: ChannelId, password: Option<String>, ttl_secs: u32 },
    AdminCreateRole { name: String, color: Option<u32>, rank: u16, perms: Perms },
    AdminEditRole { role: RoleInfo },
    AdminDeleteRole { id: RoleId },
    AdminCreateInvite { uses: Option<u32>, label: String, ttl_secs: u64 },
    AdminRevokeInvite { code: String },
    StreamMetaUpdate { meta: StreamMeta },
    PorteOuvrir { slug: String, nom_salon: String, ttl_secs: u64 },
    PorteRepondre { demande_id: u64, accepter: bool, motif: String },
    PorteVocal { invite_id: UserId, channel: Option<ChannelId> },
    PorteExpulser { invite_id: UserId },
    PorteFermer { slug: String },
}

/// What the server answers to a connection that it lets in. The permissions are
/// those in force, and `pouvoirs` says what they allow.
#[derive(Debug)]
pub struct Bienvenue {
    pub user_id: UserId,
    pub voice_token: u64,
    pub perms: Perms,
    pub pouvoirs: Pouvoirs,
    pub rank: u16,
    pub roles: Vec<RoleInfo>,
    pub channels: Vec<ChannelInfo>,
    pub server: ServerInfo,
}

/// A member's picture, as it came.
#[derive(Debug)]
pub enum Vignette {
    /// There is none any more.
    Aucune,
    /// It is not a picture that can be shown.
    Invalide,
    Valide(Vec<u8>),
}

/// What the server sends. The texts are ready to be shown: whatever came from
/// someone else was cleaned and cut to length on its way in.
#[derive(Debug)]
pub enum ServerMsg {
    Welcome(Bienvenue),
    Chat(ChatRecord),
    History { messages: Vec<ChatRecord> },
    SearchResults { query: String, hits: Vec<SearchHit>, more: bool },
    HistoryPage { messages: Vec<ChatRecord>, more: bool, channel: ChannelId },
    Members { members: Vec<Member> },
    MemberUpdate { member: Member },
    UserJoined { user_id: UserId },
    UserLeft { user_id: UserId },
    VoiceState { user_id: UserId, speaking: bool, muted: bool },
    Error { message: String },
    Kicked { reason: String },
    AdminInfo { users: Vec<AccountInfo>, invites: Vec<InviteInfo> },
    AuditLog { records: Vec<AuditRecord> },
    Perms { perms: Perms, pouvoirs: Pouvoirs, rank: u16 },
    Roles { roles: Vec<RoleInfo> },
    ChannelsUpdated { channels: Vec<ChannelInfo> },
    VoiceLocked { channel: ChannelId, wrong: bool },
    InviteCreated { code: String },
    Info { message: String },
    ServerInfo { server: ServerInfo },
    Avatar { user_id: UserId, hash: String, vignette: Vignette },
    NetQuality { pertes: Pertes },
    Pong,
}

} // verus!
