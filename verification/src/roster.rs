//! Who is on the server, and who is with us in the voice channel.

use crate::protocole::{ChannelId, ChannelInfo, ChannelKind, Member, RoleInfo, UserId};
use crate::session::{Effet, Session, Son, Vocal};
use crate::texte;
use std::collections::BTreeMap;
use vstd::prelude::*;

verus! {

// ---------------------------------------------------------------------
// Finding things
// ---------------------------------------------------------------------

/// The place of the first member with this number from `de` on, or the length
/// of the list.
pub open spec fn place(s: Seq<Member>, id: UserId, de: int) -> int
    decreases s.len() - de,
{
    if de >= s.len() {
        s.len() as int
    } else if s[de].user_id == id {
        de
    } else {
        place(s, id, de + 1)
    }
}

/// The first member with this number.
pub open spec fn membre(s: Seq<Member>, id: UserId) -> Option<Member> {
    let i = place(s, id, 0);
    if i < s.len() {
        Some(s[i])
    } else {
        None
    }
}

/// The place of the first member with this number, or the length of the list.
pub fn chercher_membre(s: &Vec<Member>, id: UserId) -> (r: usize)
    ensures
        r == place(s@, id, 0),
        r <= s@.len(),
        r < s@.len() ==> s@[r as int].user_id == id,
        forall|k: int| 0 <= k < r ==> (#[trigger] s@[k]).user_id != id,
{
    let mut i: usize = 0;
    while i < s.len()
        invariant
            i <= s@.len(),
            place(s@, id, 0) == place(s@, id, i as int),
            forall|k: int| 0 <= k < i ==> (#[trigger] s@[k]).user_id != id,
        decreases s@.len() - i,
    {
        if s[i].user_id == id {
            return i;
        }
        i += 1;
    }
    i
}

/// There is a channel with this number.
pub open spec fn a_salon(s: Seq<ChannelInfo>, id: ChannelId) -> bool {
    exists|k: int| 0 <= k < s.len() && (#[trigger] s[k]).id == id
}

/// The place of the first channel with this number from `de` on, or the length
/// of the list.
pub open spec fn place_salon(s: Seq<ChannelInfo>, id: ChannelId, de: int) -> int
    decreases s.len() - de,
{
    if de >= s.len() {
        s.len() as int
    } else if s[de].id == id {
        de
    } else {
        place_salon(s, id, de + 1)
    }
}

/// The place of the first channel with this number, or the length of the list.
pub fn chercher_salon(s: &Vec<ChannelInfo>, id: ChannelId) -> (r: usize)
    ensures
        r == place_salon(s@, id, 0),
        r <= s@.len(),
        (r < s@.len()) == a_salon(s@, id),
        r < s@.len() ==> s@[r as int].id == id,
{
    let mut i: usize = 0;
    while i < s.len()
        invariant
            i <= s@.len(),
            place_salon(s@, id, 0) == place_salon(s@, id, i as int),
            forall|k: int| 0 <= k < i ==> (#[trigger] s@[k]).id != id,
        decreases s@.len() - i,
    {
        if s[i].id == id {
            return i;
        }
        i += 1;
    }
    i
}

/// The first text channel from `de` on.
pub open spec fn premier_textuel(s: Seq<ChannelInfo>, de: int) -> Option<ChannelId>
    decreases s.len() - de,
{
    if de >= s.len() {
        None
    } else if s[de].kind == ChannelKind::Text {
        Some(s[de].id)
    } else {
        premier_textuel(s, de + 1)
    }
}

/// The first text channel, for want of a better one to open.
pub fn ouvrir_textuel(s: &Vec<ChannelInfo>) -> (r: Option<ChannelId>)
    ensures
        r == premier_textuel(s@, 0),
{
    let mut i: usize = 0;
    while i < s.len()
        invariant
            i <= s@.len(),
            premier_textuel(s@, 0) == premier_textuel(s@, i as int),
        decreases s@.len() - i,
    {
        if matches!(s[i].kind, ChannelKind::Text) {
            return Some(s[i].id);
        }
        i += 1;
    }
    None
}

/// The name of a channel, where there is one.
pub open spec fn nom_salon(s: Seq<ChannelInfo>, id: ChannelId) -> Option<Seq<char>> {
    let i = place_salon(s, id, 0);
    if i < s.len() {
        Some(s[i].name@)
    } else {
        None
    }
}

// ---------------------------------------------------------------------
// Roles
// ---------------------------------------------------------------------

/// The place of the first role with this number from `de` on, or the length of
/// the list.
pub open spec fn place_role(s: Seq<RoleInfo>, id: u64, de: int) -> int
    decreases s.len() - de,
{
    if de >= s.len() {
        s.len() as int
    } else if s[de].id == id {
        de
    } else {
        place_role(s, id, de + 1)
    }
}

fn chercher_role(s: &Vec<RoleInfo>, id: u64) -> (r: usize)
    ensures
        r == place_role(s@, id, 0),
        r <= s@.len(),
{
    let mut i: usize = 0;
    while i < s.len()
        invariant
            i <= s@.len(),
            place_role(s@, id, 0) == place_role(s@, id, i as int),
        decreases s@.len() - i,
    {
        if s[i].id == id {
            return i;
        }
        i += 1;
    }
    i
}

/// Among the roles of a member that exist, the place of the highest; of two
/// equals, the later one of the member's list.
pub open spec fn meilleur(roles: Seq<RoleInfo>, siens: Seq<u64>) -> Option<int>
    decreases siens.len(),
{
    if siens.len() == 0 {
        None
    } else {
        let avant = meilleur(roles, siens.drop_last());
        let i = place_role(roles, siens.last(), 0);
        if i >= roles.len() {
            avant
        } else {
            match avant {
                Some(m) => if roles[i].rank >= roles[m].rank {
                    Some(i)
                } else {
                    Some(m)
                },
                None => Some(i),
            }
        }
    }
}

proof fn lemme_meilleur(roles: Seq<RoleInfo>, siens: Seq<u64>)
    ensures
        meilleur(roles, siens) matches Some(m) ==> 0 <= m < roles.len(),
    decreases siens.len(),
{
    if siens.len() > 0 {
        lemme_meilleur(roles, siens.drop_last());
        lemme_place_role(roles, siens.last(), 0);
    }
}

proof fn lemme_place_role(roles: Seq<RoleInfo>, id: u64, de: int)
    requires
        0 <= de <= roles.len(),
    ensures
        de <= place_role(roles, id, de) <= roles.len(),
        place_role(roles, id, de) < roles.len() ==> roles[place_role(roles, id, de)].id == id,
    decreases roles.len() - de,
{
    if de < roles.len() && roles[de].id != id {
        lemme_place_role(roles, id, de + 1);
    }
}

/// The highest role of a member, for the badge next to the name.
pub fn top_role<'a>(roles: &'a Vec<RoleInfo>, siens: &Vec<u64>) -> (r: Option<&'a RoleInfo>)
    ensures
        match (r, meilleur(roles@, siens@)) {
            (Some(role), Some(m)) => 0 <= m < roles@.len() && *role == roles@[m],
            (None, None) => true,
            _ => false,
        },
{
    let mut haut: Option<usize> = None;
    let mut k: usize = 0;
    while k < siens.len()
        invariant
            k <= siens@.len(),
            match (haut, meilleur(roles@, siens@.take(k as int))) {
                (Some(h), Some(m)) => h == m && h < roles@.len(),
                (None, None) => true,
                _ => false,
            },
        decreases siens@.len() - k,
    {
        assert(siens@.take(k + 1).drop_last() =~= siens@.take(k as int));
        let i: usize = chercher_role(roles, siens[k]);
        if i < roles.len() {
            haut = match haut {
                Some(h) => if roles[i].rank >= roles[h].rank {
                    Some(i)
                } else {
                    Some(h)
                },
                None => Some(i),
            };
        }
        k += 1;
    }
    assert(siens@.take(k as int) =~= siens@);
    match haut {
        Some(h) => Some(&roles[h]),
        None => None,
    }
}

/// The badge is the highest role: none of the member's other roles outranks
/// it.
pub proof fn loi_meilleur_role(roles: Seq<RoleInfo>, siens: Seq<u64>, k: int)
    requires
        0 <= k < siens.len(),
        place_role(roles, siens[k], 0) < roles.len(),
    ensures
        meilleur(roles, siens) matches Some(m) && 0 <= m < roles.len()
            && roles[place_role(roles, siens[k], 0)].rank <= roles[m].rank,
    decreases siens.len(),
{
    lemme_meilleur(roles, siens);
    lemme_meilleur(roles, siens.drop_last());
    lemme_place_role(roles, siens[k], 0);
    lemme_place_role(roles, siens.last(), 0);
    if k < siens.len() - 1 {
        assert(siens.drop_last()[k] == siens[k]);
        loi_meilleur_role(roles, siens.drop_last(), k);
    }
}

// ---------------------------------------------------------------------
// Neighbours in the voice channel
// ---------------------------------------------------------------------

/// The others who are in this voice channel.
pub open spec fn voisins(s: Seq<Member>, salon: ChannelId, moi: Option<UserId>) -> Seq<UserId>
    decreases s.len(),
{
    if s.len() == 0 {
        Seq::empty()
    } else {
        let avant = voisins(s.drop_last(), salon, moi);
        let m = s.last();
        if m.voice == Some(salon) && moi != Some(m.user_id) {
            avant.push(m.user_id)
        } else {
            avant
        }
    }
}

fn relever_voisins(s: &Vec<Member>, salon: ChannelId, moi: Option<UserId>) -> (r: Vec<UserId>)
    ensures
        r@ == voisins(s@, salon, moi),
{
    let mut r: Vec<UserId> = Vec::new();
    let mut i: usize = 0;
    while i < s.len()
        invariant
            i <= s@.len(),
            r@ == voisins(s@.take(i as int), salon, moi),
        decreases s@.len() - i,
    {
        assert(s@.take(i + 1).drop_last() =~= s@.take(i as int));
        let ici: bool = match s[i].voice {
            Some(c) => c == salon,
            None => false,
        };
        let autre: bool = match moi {
            Some(id) => id != s[i].user_id,
            None => true,
        };
        if ici && autre {
            r.push(s[i].user_id);
        }
        i += 1;
    }
    assert(s@.take(i as int) =~= s@);
    r
}

/// Someone of `a` is not in `b`.
pub open spec fn manque(a: Seq<UserId>, b: Seq<UserId>) -> bool {
    exists|i: int| 0 <= i < a.len() && !b.contains(#[trigger] a[i])
}

fn contient(v: &Vec<UserId>, id: UserId) -> (r: bool)
    ensures
        r == v@.contains(id),
{
    let mut i: usize = 0;
    while i < v.len()
        invariant
            i <= v@.len(),
            forall|k: int| 0 <= k < i ==> v@[k] != id,
        decreases v@.len() - i,
    {
        if v[i] == id {
            return true;
        }
        i += 1;
    }
    false
}

fn en_manque(a: &Vec<UserId>, b: &Vec<UserId>) -> (r: bool)
    ensures
        r == manque(a@, b@),
{
    let mut i: usize = 0;
    while i < a.len()
        invariant
            i <= a@.len(),
            forall|k: int| 0 <= k < i ==> b@.contains(#[trigger] a@[k]),
        decreases a@.len() - i,
    {
        if !contient(b, a[i]) {
            assert(!b@.contains(a@[i as int]));
            return true;
        }
        i += 1;
    }
    false
}

/// The sounds of who came and who left since the last look. Whoever was there
/// before us makes none.
pub open spec fn mouvements(avant: Vocal, ici: Seq<UserId>) -> Seq<Effet> {
    if avant.salon_des_voisins != avant.salon {
        Seq::empty()
    } else {
        (if manque(ici, avant.voisins@) {
            seq![Effet::Son(Son::PeerJoin)]
        } else {
            Seq::empty()
        }) + (if manque(avant.voisins@, ici) {
            seq![Effet::Son(Son::PeerLeave)]
        } else {
            Seq::empty()
        })
    }
}

/// What a look at the voice channel leaves.
pub open spec fn regarde(
    avant: Vocal,
    apres: Vocal,
    members: Seq<Member>,
    moi: Option<UserId>,
    effets: Seq<Effet>,
) -> bool {
    &&& apres == (Vocal {
        voisins: apres.voisins,
        salon_des_voisins: avant.salon,
        ..avant
    })
    &&& match avant.salon {
        None => apres.voisins@.len() == 0 && effets.len() == 0,
        Some(c) => apres.voisins@ == voisins(members, c, moi) && effets == mouvements(
            avant,
            voisins(members, c, moi),
        ),
    }
}

/// What the server's list says of us, weighed against what we asked for: the
/// list makes law but for the short while that an order takes to come back.
pub open spec fn presence(v: Vocal, mine: Option<ChannelId>, maintenant: u64) -> Vocal {
    let attend = v.intention is Some && maintenant < v.intention_jusqu_a;
    if v.intention == Some(mine) || !attend {
        Vocal { intention: None, salon: mine, ..v }
    } else {
        v
    }
}

/// What the session is after its list of members changed.
pub open spec fn apres_liste(
    avant: Session,
    apres: Session,
    effets: Seq<Effet>,
    maintenant: u64,
) -> bool {
    let milieu = match avant.moi.id {
        Some(id) => match membre(avant.members@, id) {
            Some(m) => presence(avant.vocal, m.voice, maintenant),
            None => avant.vocal,
        },
        None => avant.vocal,
    };
    &&& apres == (Session { vocal: apres.vocal, ..avant })
    &&& regarde(milieu, apres.vocal, avant.members@, avant.moi.id, effets)
}

impl Session {
    /// Our name as the server knows it, which is what a mention is held
    /// against.
    pub fn my_pseudo(&self) -> (r: Option<&str>)
        ensures
            match (r, self.pseudo()) {
                (Some(p), Some(q)) => p@ == q,
                (None, None) => true,
                _ => false,
            },
    {
        match self.moi.id {
            Some(id) => {
                let i: usize = chercher_membre(&self.members, id);
                if i < self.members.len() {
                    Some(self.members[i].username.as_str())
                } else {
                    None
                }
            },
            None => None,
        }
    }

    pub open spec fn pseudo(self) -> Option<Seq<char>> {
        match self.moi.id {
            Some(id) => match membre(self.members@, id) {
                Some(m) => Some(m.username@),
                None => None,
            },
            None => None,
        }
    }

    /// May we act on this person? The rank decides, and it has to be strictly
    /// lower than ours.
    pub fn outranks(&self, member_rank: u16) -> (r: bool)
        ensures
            r == (member_rank < self.moi.rank),
    {
        member_rank < self.moi.rank
    }

    /// The name of the highest role of a member.
    pub fn top_role_name(&self, member: &Member) -> (r: Option<&str>)
        ensures
            match (r, meilleur(self.roles@, member.roles@)) {
                (Some(n), Some(m)) => 0 <= m < self.roles@.len() && n@ == self.roles@[m].name@,
                (None, None) => true,
                _ => false,
            },
    {
        match top_role(&self.roles, &member.roles) {
            Some(role) => Some(role.name.as_str()),
            None => None,
        }
    }

    /// The name of the voice channel that we are in.
    pub fn voice_channel_name(&self) -> (r: Option<&str>)
        ensures
            match (r, self.nom_du_vocal()) {
                (Some(p), Some(q)) => p@ == q,
                (None, None) => true,
                _ => false,
            },
    {
        match self.vocal.salon {
            Some(id) => {
                let i: usize = chercher_salon(&self.channels, id);
                if i < self.channels.len() {
                    Some(self.channels[i].name.as_str())
                } else {
                    None
                }
            },
            None => None,
        }
    }

    pub open spec fn nom_du_vocal(self) -> Option<Seq<char>> {
        match self.vocal.salon {
            Some(id) => nom_salon(self.channels@, id),
            None => None,
        }
    }

    /// Compares who is in our voice channel with who was, for the sounds of
    /// arrival and departure.
    pub fn update_voice_peers(&mut self) -> (effets: Vec<Effet>)
        ensures
            *final(self) == (Session { vocal: final(self).vocal, ..*old(self) }),
            regarde(
                old(self).vocal,
                final(self).vocal,
                old(self).members@,
                old(self).moi.id,
                effets@,
            ),
    {
        let mut effets: Vec<Effet> = Vec::new();
        let mine: ChannelId = match self.vocal.salon {
            Some(c) => c,
            None => {
                self.vocal.voisins = Vec::new();
                self.vocal.salon_des_voisins = None;
                return effets;
            },
        };
        let ici: Vec<UserId> = relever_voisins(&self.members, mine, self.moi.id);
        let meme: bool = match self.vocal.salon_des_voisins {
            Some(c) => c == mine,
            None => false,
        };
        if meme {
            if en_manque(&ici, &self.vocal.voisins) {
                effets.push(Effet::Son(Son::PeerJoin));
            }
            if en_manque(&self.vocal.voisins, &ici) {
                effets.push(Effet::Son(Son::PeerLeave));
            }
        }
        assert(effets@ =~= mouvements(old(self).vocal, ici@));
        self.vocal.salon_des_voisins = Some(mine);
        self.vocal.voisins = ici;
        effets
    }

    /// What follows any change of the list of members.
    pub fn after_roster_change(&mut self, maintenant: u64) -> (effets: Vec<Effet>)
        ensures
            apres_liste(*old(self), *final(self), effets@, maintenant),
    {
        if let Some(id) = self.moi.id {
            let i: usize = chercher_membre(&self.members, id);
            if i < self.members.len() {
                let mine: Option<ChannelId> = self.members[i].voice;
                let (voulu, attend): (bool, bool) = match self.vocal.intention {
                    Some(want) => (
                        meme_salon(want, mine),
                        maintenant < self.vocal.intention_jusqu_a,
                    ),
                    None => (false, false),
                };
                if voulu || !attend {
                    self.vocal.intention = None;
                    self.vocal.salon = mine;
                }
            }
        }
        self.update_voice_peers()
    }
}

pub(crate) fn meme_salon(a: Option<ChannelId>, b: Option<ChannelId>) -> (r: bool)
    ensures
        r == (a == b),
{
    match (a, b) {
        (Some(x), Some(y)) => x == y,
        (None, None) => true,
        _ => false,
    }
}

/// Coming into a voice channel is silent about who is there already: whoever
/// the list names, no sound of arrival or departure is played.
pub proof fn loi_arrivee_silencieuse(
    avant: Vocal,
    apres: Vocal,
    members: Seq<Member>,
    moi: Option<UserId>,
    effets: Seq<Effet>,
)
    requires
        regarde(avant, apres, members, moi, effets),
        avant.salon_des_voisins != avant.salon,
    ensures
        effets.len() == 0,
{
}

/// Looking twice in a row at the same list plays nothing the second time.
pub proof fn loi_regard_repete(
    avant: Vocal,
    milieu: Vocal,
    apres: Vocal,
    members: Seq<Member>,
    moi: Option<UserId>,
    premiers: Seq<Effet>,
    seconds: Seq<Effet>,
)
    requires
        regarde(avant, milieu, members, moi, premiers),
        regarde(milieu, apres, members, moi, seconds),
    ensures
        seconds.len() == 0,
{
    if let Some(c) = milieu.salon {
        let v = voisins(members, c, moi);
        assert forall|i: int| 0 <= i < v.len() implies v.contains(#[trigger] v[i]) by {}
    }
}

/// Nobody hears their own arrival: we are never among our own neighbours.
pub proof fn loi_jamais_son_propre_voisin(s: Seq<Member>, salon: ChannelId, moi: UserId)
    ensures
        !voisins(s, salon, Some(moi)).contains(moi),
    decreases s.len(),
{
    if s.len() > 0 {
        loi_jamais_son_propre_voisin(s.drop_last(), salon, moi);
        let avant = voisins(s.drop_last(), salon, Some(moi));
        let v = voisins(s, salon, Some(moi));
        if v.contains(moi) {
            let i = choose|i: int| 0 <= i < v.len() && v[i] == moi;
            if i < avant.len() {
                assert(avant[i] == moi);
            }
        }
    }
}

/// An order that the list has not seen yet holds for as long as it may, and no
/// longer: past that the list makes law again.
pub proof fn loi_intention(v: Vocal, mine: Option<ChannelId>, voulu: Option<ChannelId>, maintenant: u64)
    requires
        v.intention == Some(voulu),
        voulu != mine,
    ensures
        maintenant < v.intention_jusqu_a ==> presence(v, mine, maintenant) == v,
        maintenant >= v.intention_jusqu_a ==> presence(v, mine, maintenant).salon == mine
            && presence(v, mine, maintenant).intention is None,
        presence(v, voulu, maintenant).salon == voulu,
        presence(v, voulu, maintenant).intention is None,
{
}

/// With no order pending the server's list makes law at any time: it moves us,
/// takes us in and takes us out.
pub proof fn loi_sans_ordre_la_liste_fait_foi(v: Vocal, mine: Option<ChannelId>, maintenant: u64)
    requires
        v.intention is None,
    ensures
        presence(v, mine, maintenant).salon == mine,
        presence(v, mine, maintenant).intention is None,
        presence(v, mine, maintenant) == (Vocal { salon: mine, ..v }),
{
}

/// After any change of the list, the voice channel that we are in is the one
/// that our own card names, unless an order of ours that it does not show yet is
/// still young enough; without a card of ours on the list nothing moves us.
pub proof fn loi_salon_de_notre_carte(
    avant: Session,
    apres: Session,
    effets: Seq<Effet>,
    maintenant: u64,
    moi: UserId,
    i: int,
)
    requires
        apres_liste(avant, apres, effets, maintenant),
        avant.moi.id == Some(moi),
    ensures
        (0 <= i < avant.members@.len() && avant.members@[i].user_id == moi && (forall|k: int|
            0 <= k < i ==> (#[trigger] avant.members@[k]).user_id != moi)) ==> {
            let carte = avant.members@[i].voice;
            match avant.vocal.intention {
                None => apres.vocal.salon == carte && apres.vocal.intention is None,
                Some(voulu) => if voulu == carte || maintenant >= avant.vocal.intention_jusqu_a {
                    apres.vocal.salon == carte && apres.vocal.intention is None
                } else {
                    apres.vocal.salon == avant.vocal.salon && apres.vocal.intention == Some(voulu)
                },
            }
        },
        (forall|k: int| 0 <= k < avant.members@.len() ==> (#[trigger] avant.members@[k]).user_id
            != moi) ==> apres.vocal.salon == avant.vocal.salon && apres.vocal.intention
            == avant.vocal.intention,
        apres.vocal.muted == avant.vocal.muted,
        apres.vocal.armed == avant.vocal.armed,
        apres.members == avant.members && apres.moi == avant.moi && apres.fil == avant.fil,
{
    lemme_place(avant.members@, moi, 0);
}

proof fn lemme_voisins(s: Seq<Member>, salon: ChannelId, moi: Option<UserId>, qui: UserId)
    ensures
        voisins(s, salon, moi).contains(qui) <==> moi != Some(qui) && exists|k: int|
            0 <= k < s.len() && (#[trigger] s[k]).user_id == qui && s[k].voice == Some(salon),
    decreases s.len(),
{
    if s.len() > 0 {
        let court = s.drop_last();
        let avant = voisins(court, salon, moi);
        let v = voisins(s, salon, moi);
        lemme_voisins(court, salon, moi, qui);
        if v.contains(qui) {
            let i = choose|i: int| 0 <= i < v.len() && v[i] == qui;
            if i < avant.len() {
                assert(avant[i] == qui);
                let k = choose|k: int|
                    0 <= k < court.len() && (#[trigger] court[k]).user_id == qui && court[k].voice
                        == Some(salon);
                assert(s[k] == court[k]);
            } else {
                assert(s[s.len() - 1].user_id == qui);
            }
        }
        if moi != Some(qui) && exists|k: int|
            0 <= k < s.len() && (#[trigger] s[k]).user_id == qui && s[k].voice == Some(salon) {
            let k = choose|k: int|
                0 <= k < s.len() && (#[trigger] s[k]).user_id == qui && s[k].voice == Some(salon);
            if k < s.len() - 1 {
                assert(court[k] == s[k]);
                assert(avant.contains(qui));
                let i = choose|i: int| 0 <= i < avant.len() && avant[i] == qui;
                assert(v[i] == qui);
            } else {
                assert(v[v.len() - 1] == qui);
            }
        }
    }
}

/// Someone else than us is in this voice channel, by the list.
pub open spec fn present_a_cote(
    s: Seq<Member>,
    salon: ChannelId,
    moi: Option<UserId>,
    qui: UserId,
) -> bool {
    moi != Some(qui) && exists|k: int|
        0 <= k < s.len() && (#[trigger] s[k]).user_id == qui && s[k].voice == Some(salon)
}

/// Whoever the list puts in our voice channel is a neighbour, and nobody else;
/// outside of the voice there is none. An arrival is heard when somebody is there
/// who was not at the last look into this very channel, a departure when somebody
/// is not there any more, each once and in this order, and nothing else is.
pub proof fn loi_sons_des_voisins(
    avant: Vocal,
    apres: Vocal,
    members: Seq<Member>,
    moi: Option<UserId>,
    effets: Seq<Effet>,
)
    requires
        regarde(avant, apres, members, moi, effets),
    ensures
        apres.salon == avant.salon && apres.salon_des_voisins == avant.salon,
        avant.salon is None ==> apres.voisins@.len() == 0 && effets.len() == 0,
        avant.salon matches Some(c) ==> {
            let arrive = avant.salon_des_voisins == Some(c) && exists|q: UserId|
                #[trigger] present_a_cote(members, c, moi, q) && !avant.voisins@.contains(q);
            let part = avant.salon_des_voisins == Some(c) && exists|q: UserId|
                avant.voisins@.contains(q) && !#[trigger] present_a_cote(members, c, moi, q);
            &&& forall|q: UserId|
                apres.voisins@.contains(q) <==> #[trigger] present_a_cote(members, c, moi, q)
            &&& arrive && part ==> effets == seq![
                Effet::Son(Son::PeerJoin),
                Effet::Son(Son::PeerLeave),
            ]
            &&& arrive && !part ==> effets == seq![Effet::Son(Son::PeerJoin)]
            &&& !arrive && part ==> effets == seq![Effet::Son(Son::PeerLeave)]
            &&& !arrive && !part ==> effets.len() == 0
        },
{
    if let Some(c) = avant.salon {
        let ici = voisins(members, c, moi);
        let la = avant.voisins@;
        assert forall|q: UserId|
            apres.voisins@.contains(q) <==> #[trigger] present_a_cote(members, c, moi, q) by {
            lemme_voisins(members, c, moi, q);
        }
        if manque(ici, la) {
            let i = choose|i: int| 0 <= i < ici.len() && !la.contains(#[trigger] ici[i]);
            assert(ici.contains(ici[i]));
            assert(present_a_cote(members, c, moi, ici[i]));
        }
        if exists|q: UserId| #[trigger] present_a_cote(members, c, moi, q) && !la.contains(q) {
            let q = choose|q: UserId|
                #[trigger] present_a_cote(members, c, moi, q) && !la.contains(q);
            assert(ici.contains(q));
            let i = choose|i: int| 0 <= i < ici.len() && ici[i] == q;
            assert(!la.contains(ici[i]));
        }
        if manque(la, ici) {
            let i = choose|i: int| 0 <= i < la.len() && !ici.contains(#[trigger] la[i]);
            assert(la.contains(la[i]));
            assert(!present_a_cote(members, c, moi, la[i]));
        }
        if exists|q: UserId| la.contains(q) && !#[trigger] present_a_cote(members, c, moi, q) {
            let q = choose|q: UserId|
                la.contains(q) && !#[trigger] present_a_cote(members, c, moi, q);
            assert(!ici.contains(q));
            let i = choose|i: int| 0 <= i < la.len() && la[i] == q;
            assert(!ici.contains(la[i]));
        }
        assert(effets =~= mouvements(avant, ici));
        assert(seq![Effet::Son(Son::PeerJoin)] + seq![Effet::Son(Son::PeerLeave)] =~= seq![
            Effet::Son(Son::PeerJoin),
            Effet::Son(Son::PeerLeave),
        ]);
        assert(seq![Effet::Son(Son::PeerJoin)] + Seq::<Effet>::empty() =~= seq![
            Effet::Son(Son::PeerJoin),
        ]);
        assert(Seq::<Effet>::empty() + seq![Effet::Son(Son::PeerLeave)] =~= seq![
            Effet::Son(Son::PeerLeave),
        ]);
    }
}

// ---------------------------------------------------------------------
// One member's card
// ---------------------------------------------------------------------

/// What members are sorted by.
pub open spec fn cle(m: Member) -> Seq<char> {
    texte::minuscules(m.username@)
}

/// The list is in alphabetical order.
pub open spec fn trie(s: Seq<Member>) -> bool {
    forall|i: int, j: int|
        0 <= i < j < s.len() ==> !texte::precede(#[trigger] cle(s[j]), #[trigger] cle(s[i]))
}

/// The first place from `de` on whose member does not come before this name.
pub open spec fn place_triee(s: Seq<Member>, nom: Seq<char>, de: int) -> int
    decreases s.len() - de,
{
    if de >= s.len() {
        s.len() as int
    } else if texte::precede(cle(s[de]), nom) {
        place_triee(s, nom, de + 1)
    } else {
        de
    }
}

/// The list once this card came in: in place of the one it replaces, or in
/// alphabetical order.
pub open spec fn fusion(s: Seq<Member>, m: Member) -> Seq<Member> {
    let i = place(s, m.user_id, 0);
    if i < s.len() {
        s.update(i, m)
    } else {
        s.insert(place_triee(s, cle(m), 0), m)
    }
}

/// Takes one card in.
pub fn fusionner(s: &mut Vec<Member>, m: Member)
    ensures
        final(s)@ == fusion(old(s)@, m),
{
    let i: usize = chercher_membre(s, m.user_id);
    if i < s.len() {
        s[i] = m;
        return;
    }
    let nom: String = m.username.as_str().to_lowercase();
    let mut k: usize = 0;
    while k < s.len() && texte::vient_avant(
        s[k].username.as_str().to_lowercase().as_str(),
        nom.as_str(),
    )
        invariant
            s@ == old(s)@,
            nom@ == cle(m),
            k <= s@.len(),
            place_triee(s@, nom@, 0) == place_triee(s@, nom@, k as int),
        decreases s@.len() - k,
    {
        k += 1;
    }
    s.insert(k, m);
}

proof fn lemme_place(s: Seq<Member>, id: UserId, de: int)
    requires
        0 <= de <= s.len(),
    ensures
        de <= place(s, id, de) <= s.len(),
        place(s, id, de) < s.len() ==> s[place(s, id, de)].user_id == id,
        forall|k: int| de <= k < place(s, id, de) ==> (#[trigger] s[k]).user_id != id,
    decreases s.len() - de,
{
    if de < s.len() && s[de].user_id != id {
        lemme_place(s, id, de + 1);
    }
}

proof fn lemme_place_triee(s: Seq<Member>, nom: Seq<char>, de: int)
    requires
        0 <= de <= s.len(),
    ensures
        de <= place_triee(s, nom, de) <= s.len(),
        forall|k: int| de <= k < place_triee(s, nom, de) ==> texte::precede(#[trigger] cle(s[k]), nom),
        place_triee(s, nom, de) < s.len() ==> !texte::precede(
            cle(s[place_triee(s, nom, de)]),
            nom,
        ),
    decreases s.len() - de,
{
    if de < s.len() && texte::precede(cle(s[de]), nom) {
        lemme_place_triee(s, nom, de + 1);
    }
}

/// A newcomer's card goes where the alphabet wants it: a list that was sorted
/// stays so.
pub proof fn loi_liste_reste_triee(s: Seq<Member>, m: Member)
    requires
        trie(s),
        place(s, m.user_id, 0) == s.len(),
    ensures
        trie(fusion(s, m)),
{
    let nom = cle(m);
    let p = place_triee(s, nom, 0);
    lemme_place_triee(s, nom, 0);
    let r = fusion(s, m);
    assert forall|i: int, j: int| 0 <= i < j < r.len() implies !texte::precede(
        #[trigger] cle(r[j]),
        #[trigger] cle(r[i]),
    ) by {
        if j < p {
            assert(r[i] == s[i] && r[j] == s[j]);
        } else if j == p {
            assert(r[i] == s[i]);
            texte::lemme_precede_total(cle(s[i]), nom);
        } else if i == p {
            assert(r[j] == s[j - 1]);
            if texte::precede(cle(s[j - 1]), nom) {
                if j - 1 > p {
                    assert(!texte::precede(cle(s[j - 1]), cle(s[p])));
                    texte::lemme_precede_total(cle(s[j - 1]), cle(s[p]));
                    if cle(s[j - 1]) != cle(s[p]) {
                        texte::lemme_precede_transitif(cle(s[p]), cle(s[j - 1]), nom);
                    }
                }
            }
        } else if i < p {
            assert(r[i] == s[i] && r[j] == s[j - 1]);
        } else {
            assert(r[i] == s[i - 1] && r[j] == s[j - 1]);
        }
    }
}

/// After a card came in it is the one on the list for its member, nobody is
/// there twice who was there once, and everyone else is untouched.
pub proof fn loi_fusion(s: Seq<Member>, m: Member, autre: UserId)
    requires
        autre != m.user_id,
        forall|i: int, j: int|
            0 <= i < j < s.len() ==> (#[trigger] s[i]).user_id != (#[trigger] s[j]).user_id,
    ensures
        membre(fusion(s, m), m.user_id) == Some(m),
        membre(fusion(s, m), autre) == membre(s, autre),
        forall|i: int, j: int|
            0 <= i < j < fusion(s, m).len() ==> (#[trigger] fusion(s, m)[i]).user_id != (
            #[trigger] fusion(s, m)[j]).user_id,
{
    let r = fusion(s, m);
    let i = place(s, m.user_id, 0);
    let p = place_triee(s, cle(m), 0);
    lemme_place(s, m.user_id, 0);
    lemme_place(r, m.user_id, 0);
    lemme_place(s, autre, 0);
    lemme_place(r, autre, 0);
    lemme_place_triee(s, cle(m), 0);
    let a = place(s, autre, 0);
    if i < s.len() {
        assert(r[i] == m);
        if a < s.len() {
            assert(r[a] == s[a]);
        }
        let b = place(r, autre, 0);
        if b < r.len() {
            assert(r[b] == s[b]);
        }
    } else {
        assert(r[p] == m);
        assert forall|x: int, y: int| 0 <= x < y < r.len() implies (#[trigger] r[x]).user_id != (
        #[trigger] r[y]).user_id by {
            if x < p {
                assert(r[x] == s[x]);
            } else if x > p {
                assert(r[x] == s[x - 1]);
            }
            if y < p {
                assert(r[y] == s[y]);
            } else if y > p {
                assert(r[y] == s[y - 1]);
            }
        }
        if a < s.len() {
            if a < p {
                assert(r[a] == s[a]);
            } else {
                assert(r[a + 1] == s[a]);
            }
        }
        let b = place(r, autre, 0);
        if b < r.len() {
            if b < p {
                assert(r[b] == s[b]);
            } else {
                assert(b != p);
                assert(r[b] == s[b - 1]);
            }
        }
    }
}

// ---------------------------------------------------------------------
// Pictures
// ---------------------------------------------------------------------

/// The pictures that are left once these cards were read: those that were
/// taken off are forgotten.
pub open spec fn photos_apres(photos: Map<UserId, String>, s: Seq<Member>) -> Map<UserId, String>
    decreases s.len(),
{
    if s.len() == 0 {
        photos
    } else {
        let avant = photos_apres(photos, s.drop_last());
        if s.last().avatar is None {
            avant.remove(s.last().user_id)
        } else {
            avant
        }
    }
}

/// The picture with this fingerprint is the one that is shown.
pub open spec fn a_jour(photos: Map<UserId, String>, id: UserId, hash: Seq<char>) -> bool {
    photos.contains_key(id) && photos[id]@ == hash
}

/// The pictures to fetch: those that are missing, or that changed.
pub open spec fn a_charger(photos: Map<UserId, String>, s: Seq<Member>) -> Seq<(UserId, Seq<char>)>
    decreases s.len(),
{
    if s.len() == 0 {
        Seq::empty()
    } else {
        let avant = a_charger(photos, s.drop_last());
        match s.last().avatar {
            Some(h) => if a_jour(photos_apres(photos, s.drop_last()), s.last().user_id, h@) {
                avant
            } else {
                avant.push((s.last().user_id, h@))
            },
            None => avant,
        }
    }
}

pub open spec fn vues(v: Seq<(UserId, String)>) -> Seq<(UserId, Seq<char>)> {
    Seq::new(v.len(), |i: int| (v[i].0, v[i].1@))
}

/// Forgets the pictures that were taken off, and lists those to fetch.
pub fn photos_a_charger(photos: &mut BTreeMap<UserId, String>, s: &Vec<Member>) -> (r: Vec<
    (UserId, String),
>)
    ensures
        final(photos)@ == photos_apres(old(photos)@, s@),
        vues(r@) == a_charger(old(photos)@, s@),
{
    broadcast use vstd::std_specs::btree::group_btree_axioms;

    let ghost depart = photos@;
    let mut r: Vec<(UserId, String)> = Vec::new();
    let mut i: usize = 0;
    assert(vues(r@) =~= a_charger(depart, s@.take(0)));
    while i < s.len()
        invariant
            depart == old(photos)@,
            i <= s@.len(),
            photos@ == photos_apres(depart, s@.take(i as int)),
            vues(r@) == a_charger(depart, s@.take(i as int)),
        decreases s@.len() - i,
    {
        assert(s@.take(i + 1).drop_last() =~= s@.take(i as int));
        let id: UserId = s[i].user_id;
        match &s[i].avatar {
            None => {
                let _ = photos.remove(&id);
            },
            Some(h) => {
                let montree: bool = match photos.get(&id) {
                    Some(k) => texte::egal(k.as_str(), h.as_str()),
                    None => false,
                };
                if !montree {
                    let ghost avant = r@;
                    r.push((id, h.clone()));
                    assert(vues(r@) =~= vues(avant).push((id, h@)));
                }
            },
        }
        i += 1;
    }
    assert(s@.take(i as int) =~= s@);
    r
}

/// A picture whose fingerprint is the one shown is never fetched again.
pub proof fn loi_photo_a_jour(photos: Map<UserId, String>, m: Member)
    requires
        m.avatar matches Some(h) && a_jour(photos, m.user_id, h@),
    ensures
        a_charger(photos, seq![m]).len() == 0,
        photos_apres(photos, seq![m]) == photos,
{
    assert(seq![m].drop_last() =~= Seq::<Member>::empty());
    reveal_with_fuel(a_charger, 2);
    reveal_with_fuel(photos_apres, 2);
}

/// The first member with a number, wherever they stand.
pub proof fn lemme_membre(s: Seq<Member>, id: UserId, i: int)
    requires
        0 <= i < s.len(),
        s[i].user_id == id,
        forall|k: int| 0 <= k < i ==> (#[trigger] s[k]).user_id != id,
    ensures
        place(s, id, 0) == i,
        membre(s, id) == Some(s[i]),
{
    lemme_place(s, id, 0);
}

/// The place that is found for a number: that of a member who has it, or the end
/// of the list.
pub proof fn lemme_place_de(s: Seq<Member>, id: UserId)
    ensures
        0 <= place(s, id, 0) <= s.len(),
        place(s, id, 0) < s.len() ==> s[place(s, id, 0)].user_id == id,
{
    lemme_place(s, id, 0);
}

/// A card that came in is on the list.
pub proof fn lemme_fusion_contient(s: Seq<Member>, m: Member)
    ensures
        exists|k: int| 0 <= k < fusion(s, m).len() && #[trigger] fusion(s, m)[k] == m,
{
    lemme_place(s, m.user_id, 0);
    lemme_place_triee(s, cle(m), 0);
    let i = place(s, m.user_id, 0);
    if i < s.len() {
        assert(fusion(s, m)[i] == m);
    } else {
        assert(fusion(s, m)[place_triee(s, cle(m), 0)] == m);
    }
}

/// The pictures to fetch are those of the members whose fingerprint is not the one
/// shown, with that fingerprint, and no other; those that a member has taken off
/// are forgotten, and no other is.
pub proof fn loi_photos_a_chercher(
    photos: Map<UserId, String>,
    s: Seq<Member>,
    id: UserId,
    hash: Seq<char>,
)
    requires
        forall|i: int, j: int|
            0 <= i < j < s.len() ==> (#[trigger] s[i]).user_id != (#[trigger] s[j]).user_id,
    ensures
        a_charger(photos, s).contains((id, hash)) <==> (exists|k: int|
            0 <= k < s.len() && (#[trigger] s[k]).user_id == id && s[k].avatar is Some
                && s[k].avatar->0@ == hash) && !(photos.contains_key(id) && photos[id]@ == hash),
        photos_apres(photos, s).contains_key(id) <==> photos.contains_key(id) && !(exists|k: int|
            0 <= k < s.len() && (#[trigger] s[k]).user_id == id && s[k].avatar is None),
        photos_apres(photos, s).contains_key(id) ==> photos_apres(photos, s)[id] == photos[id],
    decreases s.len(),
{
    if s.len() > 0 {
        let d = s.drop_last();
        let m = s.last();
        assert forall|i: int, j: int| 0 <= i < j < d.len() implies (#[trigger] d[i]).user_id != (
        #[trigger] d[j]).user_id by {
            assert(s[i].user_id != s[j].user_id);
        }
        loi_photos_a_chercher(photos, d, id, hash);
        let h = match m.avatar {
            Some(h) => h@,
            None => Seq::empty(),
        };
        loi_photos_a_chercher(photos, d, m.user_id, h);
        assert forall|k: int| 0 <= k < d.len() implies (#[trigger] d[k]).user_id != m.user_id by {
            assert(s[k].user_id != s[s.len() - 1].user_id);
        }
        let a = a_charger(photos, d);
        let r = a_charger(photos, s);
        let x = (id, hash);
        if r.contains(x) {
            let i = choose|i: int| 0 <= i < r.len() && r[i] == x;
            if i < a.len() {
                assert(a[i] == x);
                assert(a.contains(x));
                let k = choose|k: int|
                    0 <= k < d.len() && (#[trigger] d[k]).user_id == id && d[k].avatar is Some
                        && d[k].avatar->0@ == hash;
                assert(s[k] == d[k]);
            } else {
                assert(s[s.len() - 1] == m);
            }
        }
        if exists|k: int|
            0 <= k < s.len() && (#[trigger] s[k]).user_id == id && s[k].avatar is Some
                && s[k].avatar->0@ == hash {
            let k = choose|k: int|
                0 <= k < s.len() && (#[trigger] s[k]).user_id == id && s[k].avatar is Some
                    && s[k].avatar->0@ == hash;
            if k < d.len() {
                assert(d[k] == s[k]);
                if a.contains(x) {
                    let i = choose|i: int| 0 <= i < a.len() && a[i] == x;
                    assert(r[i] == x);
                }
            } else if !(photos.contains_key(id) && photos[id]@ == hash) {
                assert(r[r.len() - 1] == x);
            }
        }
        if exists|k: int| 0 <= k < d.len() && (#[trigger] d[k]).user_id == id && d[k].avatar is None {
            let k = choose|k: int|
                0 <= k < d.len() && (#[trigger] d[k]).user_id == id && d[k].avatar is None;
            assert(s[k] == d[k]);
        }
        if exists|k: int| 0 <= k < s.len() && (#[trigger] s[k]).user_id == id && s[k].avatar is None {
            let k = choose|k: int|
                0 <= k < s.len() && (#[trigger] s[k]).user_id == id && s[k].avatar is None;
            if k < d.len() {
                assert(d[k] == s[k]);
            }
        }
        assert(s[s.len() - 1] == m);
    }
}

/// A member's badge is one of their own roles, and there is one as soon as one of
/// these exists.
pub proof fn loi_badge_a_soi(roles: Seq<RoleInfo>, siens: Seq<u64>)
    ensures
        meilleur(roles, siens) matches Some(m) ==> 0 <= m < roles.len() && siens.contains(
            roles[m].id,
        ),
        meilleur(roles, siens) is None ==> forall|k: int, i: int|
            0 <= k < siens.len() && 0 <= i < roles.len() ==> (#[trigger] roles[i]).id
                != #[trigger] siens[k],
    decreases siens.len(),
{
    if siens.len() > 0 {
        let d = siens.drop_last();
        loi_badge_a_soi(roles, d);
        lemme_meilleur(roles, siens);
        lemme_place_role(roles, siens.last(), 0);
        lemme_place_role_premiere(roles, siens.last(), 0);
        if let Some(m) = meilleur(roles, d) {
            let k = choose|k: int| 0 <= k < d.len() && d[k] == roles[m].id;
            assert(siens[k] == roles[m].id);
        }
        assert(siens[siens.len() - 1] == siens.last());
        if meilleur(roles, siens) is None {
            assert forall|k: int, i: int| 0 <= k < siens.len() && 0 <= i < roles.len() implies (
            #[trigger] roles[i]).id != #[trigger] siens[k] by {
                if k < d.len() {
                    assert(d[k] == siens[k]);
                }
            }
        }
    }
}

proof fn lemme_place_role_premiere(roles: Seq<RoleInfo>, id: u64, de: int)
    requires
        0 <= de <= roles.len(),
    ensures
        forall|k: int| de <= k < place_role(roles, id, de) ==> (#[trigger] roles[k]).id != id,
    decreases roles.len() - de,
{
    if de < roles.len() && roles[de].id != id {
        lemme_place_role_premiere(roles, id, de + 1);
    }
}

/// A channel is called by the name of the first one that has its number.
pub proof fn loi_nom_de_salon(s: Seq<ChannelInfo>, id: ChannelId, i: int)
    requires
        0 <= i < s.len(),
        s[i].id == id,
        forall|k: int| 0 <= k < i ==> (#[trigger] s[k]).id != id,
    ensures
        nom_salon(s, id) == Some(s[i].name@),
{
    lemme_place_salon(s, id, 0, i);
}

proof fn lemme_place_salon(s: Seq<ChannelInfo>, id: ChannelId, de: int, i: int)
    requires
        0 <= de <= i < s.len(),
        s[i].id == id,
        forall|k: int| de <= k < i ==> (#[trigger] s[k]).id != id,
    ensures
        place_salon(s, id, de) == i,
    decreases i - de,
{
    if de < i {
        assert(s[de].id != id);
        lemme_place_salon(s, id, de + 1, i);
    }
}

/// Of two roles of the same rank, the one that the member's list names later is
/// the badge.
pub proof fn loi_badge_des_egaux(roles: Seq<RoleInfo>, siens: Seq<u64>, i: int)
    requires
        0 <= i < roles.len(),
        forall|k: int| 0 <= k < i ==> (#[trigger] roles[k]).id != roles[i].id,
        forall|k: int, j: int|
            0 <= k < siens.len() && 0 <= j < roles.len() && (#[trigger] roles[j]).id
                == #[trigger] siens[k] ==> roles[j].rank <= roles[i].rank,
    ensures
        meilleur(roles, siens.push(roles[i].id)) == Some(i),
{
    let s = siens.push(roles[i].id);
    assert(s.drop_last() =~= siens);
    lemme_place_role(roles, roles[i].id, 0);
    lemme_place_role_premiere(roles, roles[i].id, 0);
    loi_badge_a_soi(roles, siens);
    if let Some(m) = meilleur(roles, siens) {
        let k = choose|k: int| 0 <= k < siens.len() && siens[k] == roles[m].id;
        assert(roles[m].id == siens[k]);
    }
}

/// There is a channel of a number where one of the list has it, and a channel
/// that is not there has no name; the first text channel is the first of its
/// kind, if there is any.
pub proof fn loi_salon_trouve(s: Seq<ChannelInfo>, id: ChannelId, i: int)
    ensures
        0 <= i < s.len() && s[i].id == id ==> a_salon(s, id),
        a_salon(s, id) ==> s.map_values(|c: ChannelInfo| c.id).contains(id),
        !a_salon(s, id) ==> nom_salon(s, id) is None,
        (0 <= i < s.len() && s[i].kind == ChannelKind::Text && forall|k: int|
            0 <= k < i ==> (#[trigger] s[k]).kind != ChannelKind::Text) ==> premier_textuel(s, 0)
            == Some(s[i].id),
        (forall|k: int| 0 <= k < s.len() ==> (#[trigger] s[k]).kind != ChannelKind::Text)
            ==> premier_textuel(s, 0) is None,
{
    if a_salon(s, id) {
        let k = choose|k: int| 0 <= k < s.len() && (#[trigger] s[k]).id == id;
        assert(s.map_values(|c: ChannelInfo| c.id)[k] == id);
    }
    lemme_place_salon_juste(s, id, 0);
    lemme_premier_textuel(s, 0, i);
}

proof fn lemme_place_salon_juste(s: Seq<ChannelInfo>, id: ChannelId, de: int)
    requires
        0 <= de <= s.len(),
    ensures
        de <= place_salon(s, id, de) <= s.len(),
        place_salon(s, id, de) < s.len() ==> s[place_salon(s, id, de)].id == id,
    decreases s.len() - de,
{
    if de < s.len() && s[de].id != id {
        lemme_place_salon_juste(s, id, de + 1);
    }
}

proof fn lemme_premier_textuel(s: Seq<ChannelInfo>, de: int, i: int)
    requires
        0 <= de,
    ensures
        (de <= i < s.len() && s[i].kind == ChannelKind::Text && forall|k: int|
            de <= k < i ==> (#[trigger] s[k]).kind != ChannelKind::Text) ==> premier_textuel(s, de)
            == Some(s[i].id),
        (forall|k: int| de <= k < s.len() ==> (#[trigger] s[k]).kind != ChannelKind::Text)
            ==> premier_textuel(s, de) is None,
    decreases s.len() - de,
{
    if de < s.len() && s[de].kind != ChannelKind::Text {
        lemme_premier_textuel(s, de + 1, i);
    }
}

} // verus!
