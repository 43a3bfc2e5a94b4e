//! Web doors: a door is a link to a temporary text channel. Someone knocks
//! from a browser and gives a name, a member lets them in, and they write
//! there without an account.
//!
//! What the client knows of doors comes from the server. This module keeps
//! it, says what the panel, the banners and the guests' menus show, and turns
//! a click into [`Action`]s.

use crate::horloge;
use crate::listes;
use crate::protocole::{ChannelId, ChannelInfo, ClientMsg, DemandeWeb, InviteWeb, UserId};
use crate::texte;
use vstd::prelude::*;

verus! {

/// How long a request stays on screen without news, in milliseconds: after
/// five minutes nobody waits behind the door any more.
pub const DUREE_DEMANDE: u64 = 300_000;

/// The longest time that the server keeps a door open, in seconds.
pub const PORTE_TTL_MAX_SECS: u64 = 21_600;

/// Someone who knocks, as the banner shows them.
#[derive(Debug)]
pub struct Demande {
    pub slug: String,
    pub demande_id: u64,
    pub nom: String,
    pub ip_masquee: String,
    /// When it came in, in milliseconds of a clock that never goes back.
    pub recue: u64,
}

impl Demande {
    /// The time since the request came in.
    pub open spec fn age(self, maintenant: u64) -> int {
        if maintenant > self.recue {
            maintenant - self.recue
        } else {
            0
        }
    }

    /// Whether an answer would still find someone.
    pub open spec fn vivante(self, maintenant: u64) -> bool {
        self.age(maintenant) < DUREE_DEMANDE
    }

    /// The time that is left to answer, in milliseconds.
    pub fn reste(&self, maintenant: u64) -> (r: u64)
        ensures
            r == if self.vivante(maintenant) {
                DUREE_DEMANDE - self.age(maintenant)
            } else {
                0
            },
    {
        DUREE_DEMANDE.saturating_sub(maintenant.saturating_sub(self.recue))
    }
}

/// A door that the server describes: one's own, or that of someone else.
#[derive(Debug)]
pub struct Porte {
    pub slug: String,
    pub salon: ChannelId,
    pub invites: Vec<InviteWeb>,
    pub demandes: Vec<DemandeWeb>,
    /// When it closes at the latest (Unix milliseconds).
    pub expire_le: u64,
    /// The full link, as it is shown and copied.
    pub url: Option<String>,
    /// Whether the QR code that was drawn is that of the link.
    pub qr: bool,
    /// Opened by me: I may do everything there.
    pub mienne: bool,
}

/// What the panel, the banners and the menus ask of the application.
#[derive(Debug)]
pub enum Action {
    Envoyer(ClientMsg),
    Copier(String),
    /// Read this channel: that of the door, or of the accepted request.
    Lire(ChannelId),
    /// Offer an account to this guest.
    Offrir { invite_id: UserId },
}

/// What the application knows and the doors must know.
pub struct Contexte<'a> {
    pub peut_ouvrir: bool,
    pub peut_expulser: bool,
    pub mon_vocal: Option<ChannelId>,
    pub salons: &'a [ChannelInfo],
    /// What the links start with.
    pub base_web: String,
}

/// The name of the first channel with this number.
pub open spec fn nom_du_salon(salons: Seq<ChannelInfo>, id: ChannelId) -> Option<Seq<char>>
    decreases salons.len(),
{
    if salons.len() == 0 {
        None
    } else if salons[0].id == id {
        Some(salons[0].name@)
    } else {
        nom_du_salon(salons.drop_first(), id)
    }
}

/// How a channel is called: by its name, or by its number.
pub open spec fn appellation(salons: Seq<ChannelInfo>, id: ChannelId) -> Seq<char> {
    match nom_du_salon(salons, id) {
        Some(n) => n,
        None => "salon "@ + texte::decimal(id as nat),
    }
}

impl<'a> Contexte<'a> {
    pub fn nom_salon(&self, id: ChannelId) -> (r: String)
        ensures
            r@ == appellation(self.salons@, id),
    {
        let n: usize = self.salons.len();
        let mut i: usize = 0;
        assert(self.salons@.skip(0) =~= self.salons@);
        while i < n
            invariant
                n == self.salons@.len(),
                i <= n,
                nom_du_salon(self.salons@.skip(i as int), id) == nom_du_salon(self.salons@, id),
            decreases n - i,
        {
            if self.salons[i].id == id {
                return self.salons[i].name.clone();
            }
            assert(self.salons@.skip(i as int).drop_first() =~= self.salons@.skip(i + 1));
            i += 1;
        }
        let mut r: String = String::from_str("salon ");
        texte::pousser_decimal(&mut r, id);
        r
    }
}

/// What the client knows of the doors of the server.
#[derive(Debug)]
pub struct Portes {
    /// The panel is open.
    pub ouvert: bool,
    /// The server serves doors: it said so, or a message of a door came.
    pub disponible: bool,
    pub demandes: Vec<Demande>,
    pub portes: Vec<Porte>,
    /// The opening form.
    pub slug: String,
    pub nom_salon: String,
    pub duree_min: u64,
    /// A word for the panel.
    pub message: Option<String>,
}

/// The first door with this name.
pub open spec fn place(portes: Seq<Porte>, slug: Seq<char>) -> Option<int>
    decreases portes.len(),
{
    if portes.len() == 0 {
        None
    } else {
        match place(portes.drop_last(), slug) {
            Some(i) => Some(i),
            None => if portes.last().slug@ == slug {
                Some(portes.len() - 1)
            } else {
                None
            },
        }
    }
}

proof fn lemme_place(portes: Seq<Porte>, slug: Seq<char>)
    ensures
        match place(portes, slug) {
            Some(i) => 0 <= i < portes.len() && portes[i].slug@ == slug && forall|j: int|
                0 <= j < i ==> (#[trigger] portes[j]).slug@ != slug,
            None => forall|j: int| 0 <= j < portes.len() ==> (#[trigger] portes[j]).slug@ != slug,
        },
    decreases portes.len(),
{
    if portes.len() > 0 {
        let d = portes.drop_last();
        lemme_place(d, slug);
        assert forall|j: int| 0 <= j < d.len() implies portes[j] == d[j] by {}
    }
}

/// What the list of doors becomes when the server speaks of the one named
/// `slug`: it is changed in place, or added at the end.
pub open spec fn porte_changee(avant: Seq<Porte>, apres: Seq<Porte>, slug: Seq<char>) -> bool {
    match place(avant, slug) {
        Some(i) => apres == avant.update(i, apres[i]),
        None => apres.len() == avant.len() + 1 && apres.drop_last() == avant,
    }
}

/// Where the door named `slug` stands after such a change.
pub open spec fn rang(avant: Seq<Porte>, slug: Seq<char>) -> int {
    match place(avant, slug) {
        Some(i) => i,
        None => avant.len() as int,
    }
}

/// A door as it was before the server spoke of it; one that was not known has
/// no guest, no request and no link, and is not mine.
pub open spec fn connue(avant: Seq<Porte>, slug: Seq<char>) -> Option<Porte> {
    match place(avant, slug) {
        Some(i) => Some(avant[i]),
        None => None,
    }
}

/// The door that I opened, after the server confirmed it.
pub open spec fn porte_ouverte(
    avant: Option<Porte>,
    apres: Porte,
    slug: Seq<char>,
    url: String,
    salon: ChannelId,
    expire_le: u64,
) -> bool {
    &&& apres.slug@ == slug
    &&& apres.salon == salon
    &&& apres.expire_le == expire_le
    &&& apres.url == Some(url)
    &&& !apres.qr
    &&& apres.mienne
    &&& match avant {
        Some(p) => apres.invites == p.invites && apres.demandes == p.demandes,
        None => apres.invites@.len() == 0 && apres.demandes@.len() == 0,
    }
}

/// A door after the server described its state.
pub open spec fn porte_decrite(
    avant: Option<Porte>,
    apres: Porte,
    slug: Seq<char>,
    salon: ChannelId,
    invites: Vec<InviteWeb>,
    demandes: Vec<DemandeWeb>,
    expire_le: u64,
    url: Option<String>,
) -> bool {
    &&& apres.slug@ == slug
    &&& apres.salon == salon
    &&& apres.invites == invites
    &&& apres.demandes == demandes
    &&& apres.mienne == (avant is Some && avant->0.mienne)
    &&& apres.expire_le == if expire_le != 0 {
        expire_le
    } else {
        match avant {
            Some(p) => p.expire_le,
            None => 0,
        }
    }
    &&& {
        let lien = match avant {
            Some(p) => p.url,
            None => None,
        };
        let dessine = avant is Some && avant->0.qr;
        match url {
            Some(u) => if lien is Some && lien->0@ == u@ {
                apres.url == lien && apres.qr == dessine
            } else {
                apres.url == url && !apres.qr
            },
            None => apres.url == lien && apres.qr == dessine,
        }
    }
}

/// Whether the list of a door still holds this request.
pub open spec fn listee(demandes: Seq<DemandeWeb>, id: u64) -> bool {
    exists|i: int| 0 <= i < demandes.len() && (#[trigger] demandes[i]).demande_id == id
}

pub open spec fn message_ouverte(slug: Seq<char>) -> Seq<char> {
    "porte « "@ + slug + " » ouverte : le lien est prêt à partager"@
}

pub open spec fn message_fermee(slug: Seq<char>, motif: Seq<char>) -> Seq<char> {
    if motif.len() == 0 {
        "porte « "@ + slug + " » fermée"@
    } else {
        "porte « "@ + slug + " » fermée : "@ + motif
    }
}

/// A banner: what it says, and what hovering over it says.
#[derive(Debug)]
pub struct Banniere {
    pub texte: String,
    pub survol: String,
}

pub open spec fn texte_banniere(d: Demande, maintenant: u64) -> Seq<char> {
    d.nom@ + " veut rejoindre par le web (porte "@ + d.slug@ + ") · "@ + compte_a_rebours(
        if d.vivante(maintenant) {
            DUREE_DEMANDE - d.age(maintenant)
        } else {
            0
        },
    )
}

pub open spec fn survol_banniere(d: Demande) -> Seq<char> {
    if d.ip_masquee@.len() == 0 {
        "quelqu'un frappe à une porte web : il n'a pas de compte, il ne verra que le salon temporaire"@
    } else {
        "depuis l'adresse "@ + d.ip_masquee@
            + " — il n'a pas de compte, il ne verra que le salon temporaire"@
    }
}

impl Default for Portes {
    fn default() -> (r: Self)
        ensures
            r.vierge(),
    {
        Self::new()
    }
}

impl Portes {
    /// Nothing known, and the form as it is first shown.
    pub open spec fn vierge(self) -> bool {
        &&& !self.ouvert
        &&& !self.disponible
        &&& self.demandes@.len() == 0
        &&& self.portes@.len() == 0
        &&& self.slug@.len() == 0
        &&& self.nom_salon@.len() == 0
        &&& self.duree_min == 60
        &&& self.message is None
    }

    /// No two doors share a name.
    pub open spec fn distinctes(self) -> bool {
        forall|i: int, j: int|
            0 <= i < j < self.portes@.len() ==> (#[trigger] self.portes@[i]).slug@ != (
            #[trigger] self.portes@[j]).slug@
    }

    /// No two banners stand for the same request.
    pub open spec fn numeros_distincts(self) -> bool {
        forall|i: int, j: int|
            0 <= i < j < self.demandes@.len() ==> (#[trigger] self.demandes@[i]).demande_id != (
            #[trigger] self.demandes@[j]).demande_id
    }

    /// What every message of the server keeps.
    pub open spec fn bien_tenues(self) -> bool {
        self.distinctes() && self.numeros_distincts()
    }

    pub fn new() -> (r: Self)
        ensures
            r.vierge(),
            r.bien_tenues(),
    {
        Portes {
            ouvert: false,
            disponible: false,
            demandes: Vec::new(),
            portes: Vec::new(),
            slug: String::new(),
            nom_salon: String::new(),
            duree_min: 60,
            message: None,
        }
    }

    /// Doors are those of one server: once disconnected, nothing is left.
    pub fn reinitialiser(&mut self)
        ensures
            final(self).vierge(),
            final(self).bien_tenues(),
    {
        *self = Self::new();
    }

    /// Nothing to show: no known door, no request that waits.
    pub fn est_vide(&self) -> (r: bool)
        ensures
            r == (self.portes@.len() == 0 && self.demandes@.len() == 0),
    {
        self.portes.len() == 0 && self.demandes.len() == 0
    }

    fn chercher(&self, slug: &str) -> (r: Option<usize>)
        ensures
            match r {
                Some(i) => place(self.portes@, slug@) == Some(i as int),
                None => place(self.portes@, slug@) is None,
            },
    {
        let n: usize = self.portes.len();
        let mut i: usize = 0;
        while i < n
            invariant
                n == self.portes@.len(),
                i <= n,
                place(self.portes@.take(i as int), slug@) is None,
            decreases n - i,
        {
            let ghost t = self.portes@.take(i + 1);
            assert(t.drop_last() =~= self.portes@.take(i as int));
            assert(t.last() == self.portes@[i as int]);
            if texte::egal(self.portes[i].slug.as_str(), slug) {
                proof {
                    lemme_place_prolongee(self.portes@, slug@, i + 1);
                }
                return Some(i);
            }
            i += 1;
        }
        assert(self.portes@.take(n as int) =~= self.portes@);
        None
    }

    /// The place of the door with this name, which is added where it is not
    /// known yet.
    fn porte_mut_ou_cree(&mut self, slug: &str, salon: ChannelId) -> (i: usize)
        ensures
            i == rang(old(self).portes@, slug@),
            i < final(self).portes@.len(),
            match place(old(self).portes@, slug@) {
                Some(k) => final(self).portes@ == old(self).portes@,
                None => {
                    let p = final(self).portes@.last();
                    &&& final(self).portes@ == old(self).portes@.push(p)
                    &&& p.slug@ == slug@ && p.salon == salon && p.expire_le == 0
                    &&& p.invites@.len() == 0 && p.demandes@.len() == 0
                    &&& p.url is None && !p.qr && !p.mienne
                },
            },
            final(self).portes@[i as int].slug@ == slug@,
            old(self).distinctes() ==> final(self).distinctes(),
            *final(self) == (Portes { portes: final(self).portes, ..*old(self) }),
    {
        proof {
            lemme_place(self.portes@, slug@);
        }
        match self.chercher(slug) {
            Some(i) => i,
            None => {
                let n: usize = self.portes.len();
                self.portes.push(
                    Porte {
                        slug: slug.to_owned(),
                        salon,
                        invites: Vec::new(),
                        demandes: Vec::new(),
                        expire_le: 0,
                        url: None,
                        qr: false,
                        mienne: false,
                    },
                );
                n
            },
        }
    }

    /// The door that I just opened, with its link. The panel opens to show it.
    pub fn ouverte(&mut self, slug: &str, url: String, salon: ChannelId, expire_le: u64)
        ensures
            old(self).bien_tenues() ==> final(self).bien_tenues(),
            final(self).disponible,
            final(self).ouvert,
            final(self).demandes == old(self).demandes,
            final(self).slug@.len() == 0,
            final(self).nom_salon@.len() == 0,
            final(self).duree_min == old(self).duree_min,
            final(self).message is Some,
            final(self).message->0@ == message_ouverte(slug@),
            porte_changee(old(self).portes@, final(self).portes@, slug@),
            porte_ouverte(
                connue(old(self).portes@, slug@),
                final(self).portes@[rang(old(self).portes@, slug@)],
                slug@,
                url,
                salon,
                expire_le,
            ),
    {
        proof {
            lemme_place(self.portes@, slug@);
        }
        self.disponible = true;
        let i: usize = self.porte_mut_ou_cree(slug, salon);
        let ghost mi = self.portes@;
        self.portes[i].salon = salon;
        self.portes[i].expire_le = expire_le;
        self.portes[i].url = Some(url);
        self.portes[i].qr = false;
        self.portes[i].mienne = true;
        self.slug = String::new();
        self.nom_salon = String::new();
        let mut m: String = String::from_str("porte « ");
        m.append(slug);
        m.append(" » ouverte : le lien est prêt à partager");
        self.message = Some(m);
        self.ouvert = true;
        proof {
            assert(self.portes@ =~= mi.update(i as int, self.portes@[i as int]));
            if place(old(self).portes@, slug@) is None {
                assert(self.portes@.drop_last() =~= old(self).portes@);
            }
        }
    }

    /// Someone knocks. True where the request is new: a server that repeats
    /// it makes no second banner.
    pub fn demande(
        &mut self,
        slug: &str,
        demande_id: u64,
        nom: &str,
        ip_masquee: &str,
        maintenant: u64,
    ) -> (r: bool)
        ensures
            r == forall|i: int|
                0 <= i < old(self).demandes@.len() ==> (
                #[trigger] old(self).demandes@[i]).demande_id != demande_id,
            !r ==> final(self).demandes@ == old(self).demandes@,
            r ==> {
                let d = final(self).demandes@.last();
                &&& final(self).demandes@ == old(self).demandes@.push(d)
                &&& d.slug@ == slug@ && d.demande_id == demande_id && d.nom@ == nom@
                &&& d.ip_masquee@ == ip_masquee@ && d.recue == maintenant
            },
            old(self).bien_tenues() ==> final(self).bien_tenues(),
            *final(self) == (Portes {
                demandes: final(self).demandes,
                disponible: true,
                ..*old(self)
            }),
    {
        self.disponible = true;
        let n: usize = self.demandes.len();
        let mut i: usize = 0;
        while i < n
            invariant
                n == self.demandes@.len(),
                i <= n,
                self.demandes == old(self).demandes,
                *self == (Portes { disponible: true, ..*old(self) }),
                forall|j: int|
                    0 <= j < i ==> (#[trigger] self.demandes@[j]).demande_id != demande_id,
            decreases n - i,
        {
            if self.demandes[i].demande_id == demande_id {
                assert(old(self).demandes@[i as int].demande_id == demande_id);
                return false;
            }
            i += 1;
        }
        self.demandes.push(
            Demande {
                slug: slug.to_owned(),
                demande_id,
                nom: nom.to_owned(),
                ip_masquee: ip_masquee.to_owned(),
                recue: maintenant,
            },
        );
        true
    }

    /// The state of a door, as the server lists it. A request that is not
    /// listed any more had its answer: its banner falls.
    pub fn etat(
        &mut self,
        slug: &str,
        salon: ChannelId,
        invites: Vec<InviteWeb>,
        demandes: Vec<DemandeWeb>,
        expire_le: u64,
        url: Option<String>,
    )
        ensures
            old(self).bien_tenues() ==> final(self).bien_tenues(),
            final(self).demandes@ == old(self).demandes@.filter(
                |d: Demande| d.slug@ != slug@ || listee(demandes@, d.demande_id),
            ),
            porte_changee(old(self).portes@, final(self).portes@, slug@),
            porte_decrite(
                connue(old(self).portes@, slug@),
                final(self).portes@[rang(old(self).portes@, slug@)],
                slug@,
                salon,
                invites,
                demandes,
                expire_le,
                url,
            ),
            *final(self) == (Portes {
                demandes: final(self).demandes,
                portes: final(self).portes,
                disponible: true,
                ..*old(self)
            }),
    {
        proof {
            lemme_place(self.portes@, slug@);
        }
        self.disponible = true;
        let ghost p = |d: Demande| d.slug@ != slug@ || listee(demandes@, d.demande_id);
        let mut garde: Vec<bool> = Vec::new();
        while garde.len() < self.demandes.len()
            invariant
                *self == (Portes { disponible: true, ..*old(self) }),
                p == (|d: Demande| d.slug@ != slug@ || listee(demandes@, d.demande_id)),
                garde@.len() <= self.demandes@.len(),
                forall|i: int|
                    0 <= i < garde@.len() ==> #[trigger] garde@[i] == p(self.demandes@[i]),
            decreases self.demandes@.len() - garde@.len(),
        {
            let d: &Demande = &self.demandes[garde.len()];
            garde.push(
                !texte::egal(d.slug.as_str(), slug) || est_listee(&demandes, d.demande_id),
            );
        }
        listes::retenir(&mut self.demandes, &garde, Ghost(p));
        proof {
            lemme_numeros_filtres(old(self).demandes@, p);
        }
        let i: usize = self.porte_mut_ou_cree(slug, salon);
        let ghost mi = self.portes@;
        self.portes[i].salon = salon;
        self.portes[i].invites = invites;
        self.portes[i].demandes = demandes;
        if expire_le != 0 {
            self.portes[i].expire_le = expire_le;
        }
        if let Some(u) = url {
            let meme: bool = match &self.portes[i].url {
                Some(v) => texte::egal(v.as_str(), u.as_str()),
                None => false,
            };
            if !meme {
                self.portes[i].url = Some(u);
                self.portes[i].qr = false;
            }
        }
        proof {
            assert(self.portes@ =~= mi.update(i as int, self.portes@[i as int]));
            if place(old(self).portes@, slug@) is None {
                assert(self.portes@.drop_last() =~= old(self).portes@);
            }
        }
    }

    /// The door is closed: it goes, and its requests with it.
    pub fn fermee(&mut self, slug: &str, motif: &str)
        ensures
            final(self).portes@ == old(self).portes@.filter(|p: Porte| p.slug@ != slug@),
            final(self).demandes@ == old(self).demandes@.filter(|d: Demande| d.slug@ != slug@),
            final(self).message is Some,
            final(self).message->0@ == message_fermee(slug@, motif@),
            old(self).bien_tenues() ==> final(self).bien_tenues(),
            *final(self) == (Portes {
                demandes: final(self).demandes,
                portes: final(self).portes,
                message: final(self).message,
                disponible: true,
                ..*old(self)
            }),
    {
        self.disponible = true;
        let ghost f = |p: Porte| p.slug@ != slug@;
        let mut garde: Vec<bool> = Vec::new();
        while garde.len() < self.portes.len()
            invariant
                *self == (Portes { disponible: true, ..*old(self) }),
                f == (|p: Porte| p.slug@ != slug@),
                garde@.len() <= self.portes@.len(),
                forall|i: int| 0 <= i < garde@.len() ==> #[trigger] garde@[i] == f(self.portes@[i]),
            decreases self.portes@.len() - garde@.len(),
        {
            garde.push(!texte::egal(self.portes[garde.len()].slug.as_str(), slug));
        }
        listes::retenir(&mut self.portes, &garde, Ghost(f));
        proof {
            lemme_noms_filtres(old(self).portes@, f);
        }
        let ghost g = |d: Demande| d.slug@ != slug@;
        let mut garde: Vec<bool> = Vec::new();
        while garde.len() < self.demandes.len()
            invariant
                *self == (Portes { disponible: true, portes: self.portes, ..*old(self) }),
                self.portes@ == old(self).portes@.filter(f),
                g == (|d: Demande| d.slug@ != slug@),
                garde@.len() <= self.demandes@.len(),
                forall|i: int|
                    0 <= i < garde@.len() ==> #[trigger] garde@[i] == g(self.demandes@[i]),
            decreases self.demandes@.len() - garde@.len(),
        {
            garde.push(!texte::egal(self.demandes[garde.len()].slug.as_str(), slug));
        }
        listes::retenir(&mut self.demandes, &garde, Ghost(g));
        proof {
            lemme_numeros_filtres(old(self).demandes@, g);
        }
        let mut m: String = String::from_str("porte « ");
        m.append(slug);
        if motif.is_empty() {
            m.append(" » fermée");
        } else {
            m.append(" » fermée : ");
            m.append(motif);
        }
        self.message = Some(m);
    }

    /// Drops the requests that are too old for an answer to arrive.
    pub fn purger(&mut self, maintenant: u64)
        ensures
            final(self).demandes@ == old(self).demandes@.filter(
                |d: Demande| d.vivante(maintenant),
            ),
            old(self).bien_tenues() ==> final(self).bien_tenues(),
            *final(self) == (Portes { demandes: final(self).demandes, ..*old(self) }),
    {
        let ghost f = |d: Demande| d.vivante(maintenant);
        let mut garde: Vec<bool> = Vec::new();
        while garde.len() < self.demandes.len()
            invariant
                *self == *old(self),
                f == (|d: Demande| d.vivante(maintenant)),
                garde@.len() <= self.demandes@.len(),
                forall|i: int|
                    0 <= i < garde@.len() ==> #[trigger] garde@[i] == f(self.demandes@[i]),
            decreases self.demandes@.len() - garde@.len(),
        {
            let d: &Demande = &self.demandes[garde.len()];
            garde.push(maintenant.saturating_sub(d.recue) < DUREE_DEMANDE);
        }
        listes::retenir(&mut self.demandes, &garde, Ghost(f));
        proof {
            lemme_numeros_filtres(old(self).demandes@, f);
        }
    }

    /// Is there a banner left to keep alive?
    pub fn a_des_demandes(&self, maintenant: u64) -> (r: bool)
        ensures
            r == exists|i: int|
                0 <= i < self.demandes@.len() && (#[trigger] self.demandes@[i]).vivante(maintenant),
    {
        let n: usize = self.demandes.len();
        let mut i: usize = 0;
        while i < n
            invariant
                n == self.demandes@.len(),
                i <= n,
                forall|j: int|
                    0 <= j < i ==> !(#[trigger] self.demandes@[j]).vivante(maintenant),
            decreases n - i,
        {
            if maintenant.saturating_sub(self.demandes[i].recue) < DUREE_DEMANDE {
                assert(self.demandes@[i as int].vivante(maintenant));
                return true;
            }
            i += 1;
        }
        false
    }

    pub fn salon_de(&self, slug: &str) -> (r: Option<ChannelId>)
        ensures
            r == match place(self.portes@, slug@) {
                Some(i) => Some(self.portes@[i].salon),
                None => None,
            },
    {
        proof {
            lemme_place(self.portes@, slug@);
        }
        match self.chercher(slug) {
            Some(i) => Some(self.portes[i].salon),
            None => None,
        }
    }

    /// The name of the first door that leads to this channel.
    pub fn slug_du_salon(&self, salon: ChannelId) -> (r: Option<&str>)
        ensures
            match r {
                Some(s) => exists|i: int|
                    0 <= i < self.portes@.len() && (#[trigger] self.portes@[i]).salon == salon
                        && self.portes@[i].slug@ == s@ && forall|j: int|
                        0 <= j < i ==> (#[trigger] self.portes@[j]).salon != salon,
                None => forall|j: int|
                    0 <= j < self.portes@.len() ==> (#[trigger] self.portes@[j]).salon != salon,
            },
    {
        let n: usize = self.portes.len();
        let mut i: usize = 0;
        while i < n
            invariant
                n == self.portes@.len(),
                i <= n,
                forall|j: int| 0 <= j < i ==> (#[trigger] self.portes@[j]).salon != salon,
            decreases n - i,
        {
            if self.portes[i].salon == salon {
                assert(self.portes@[i as int].salon == salon);
                return Some(self.portes[i].slug.as_str());
            }
            i += 1;
        }
        None
    }

    /// The first door where this guest is.
    pub fn porte_de_l_invite(&self, invite_id: UserId) -> (r: Option<&Porte>)
        ensures
            match r {
                Some(p) => exists|i: int|
                    0 <= i < self.portes@.len() && #[trigger] self.portes@[i] == *p && p.accueille(
                        invite_id,
                    ) && forall|j: int|
                        0 <= j < i ==> !(#[trigger] self.portes@[j]).accueille(invite_id),
                None => forall|j: int|
                    0 <= j < self.portes@.len() ==> !(#[trigger] self.portes@[j]).accueille(
                        invite_id,
                    ),
            },
    {
        let n: usize = self.portes.len();
        let mut i: usize = 0;
        while i < n
            invariant
                n == self.portes@.len(),
                i <= n,
                forall|j: int|
                    0 <= j < i ==> !(#[trigger] self.portes@[j]).accueille(invite_id),
            decreases n - i,
        {
            if self.portes[i].a_l_invite(invite_id) {
                assert(self.portes@[i as int].accueille(invite_id));
                return Some(&self.portes[i]);
            }
            i += 1;
        }
        None
    }

    /// May I close this door, expel its guests, answer its requests? Mine
    /// always; that of someone else with the right to expel.
    pub fn peut_fermer(&self, slug: &str, contexte: &Contexte) -> (r: bool)
        ensures
            r == (contexte.peut_expulser || exists|i: int|
                0 <= i < self.portes@.len() && (#[trigger] self.portes@[i]).slug@ == slug@
                    && self.portes@[i].mienne),
    {
        if contexte.peut_expulser {
            return true;
        }
        let n: usize = self.portes.len();
        let mut i: usize = 0;
        while i < n
            invariant
                n == self.portes@.len(),
                i <= n,
                !contexte.peut_expulser,
                forall|j: int|
                    0 <= j < i ==> !((#[trigger] self.portes@[j]).slug@ == slug@
                        && self.portes@[j].mienne),
            decreases n - i,
        {
            if self.portes[i].mienne && texte::egal(self.portes[i].slug.as_str(), slug) {
                assert(self.portes@[i as int].mienne);
                return true;
            }
            i += 1;
        }
        false
    }
}

/// Whether a list of requests holds this one.
fn est_listee(demandes: &Vec<DemandeWeb>, id: u64) -> (r: bool)
    ensures
        r == listee(demandes@, id),
{
    let mut i: usize = 0;
    while i < demandes.len()
        invariant
            i <= demandes@.len(),
            forall|j: int| 0 <= j < i ==> (#[trigger] demandes@[j]).demande_id != id,
        decreases demandes@.len() - i,
    {
        if demandes[i].demande_id == id {
            assert(demandes@[i as int].demande_id == id);
            return true;
        }
        i += 1;
    }
    false
}

impl Porte {
    /// Whether this guest came in through the door.
    pub open spec fn accueille(self, invite_id: UserId) -> bool {
        exists|i: int|
            0 <= i < self.invites@.len() && (#[trigger] self.invites@[i]).invite_id == invite_id
    }

    fn a_l_invite(&self, invite_id: UserId) -> (r: bool)
        ensures
            r == self.accueille(invite_id),
    {
        let mut i: usize = 0;
        while i < self.invites.len()
            invariant
                i <= self.invites@.len(),
                forall|j: int|
                    0 <= j < i ==> (#[trigger] self.invites@[j]).invite_id != invite_id,
            decreases self.invites@.len() - i,
        {
            if self.invites[i].invite_id == invite_id {
                assert(self.invites@[i as int].invite_id == invite_id);
                return true;
            }
            i += 1;
        }
        false
    }
}

proof fn lemme_numeros_filtres(s: Seq<Demande>, p: spec_fn(Demande) -> bool)
    ensures
        (forall|i: int, j: int|
            0 <= i < j < s.len() ==> (#[trigger] s[i]).demande_id != (
            #[trigger] s[j]).demande_id) ==> (forall|i: int, j: int|
            0 <= i < j < s.filter(p).len() ==> (#[trigger] s.filter(p)[i]).demande_id != (
            #[trigger] s.filter(p)[j]).demande_id),
    decreases s.len(),
{
    reveal(Seq::filter);
    if s.len() > 0 {
        let d = s.drop_last();
        lemme_numeros_filtres(d, p);
        listes::lemme_filtre(d, p);
        assert forall|i: int| 0 <= i < d.len() implies d[i] == s[i] by {}
        assert forall|i: int| 0 <= i < d.filter(p).len() implies d.contains(
            #[trigger] d.filter(p)[i],
        ) by {
            assert(d.filter(p).contains(d.filter(p)[i]));
        }
    }
}

proof fn lemme_noms_filtres(s: Seq<Porte>, p: spec_fn(Porte) -> bool)
    ensures
        (forall|i: int, j: int|
            0 <= i < j < s.len() ==> (#[trigger] s[i]).slug@ != (#[trigger] s[j]).slug@) ==> (
        forall|i: int, j: int|
            0 <= i < j < s.filter(p).len() ==> (#[trigger] s.filter(p)[i]).slug@ != (
            #[trigger] s.filter(p)[j]).slug@),
    decreases s.len(),
{
    reveal(Seq::filter);
    if s.len() > 0 {
        let d = s.drop_last();
        lemme_noms_filtres(d, p);
        listes::lemme_filtre(d, p);
        assert forall|i: int| 0 <= i < d.len() implies d[i] == s[i] by {}
        assert forall|i: int| 0 <= i < d.filter(p).len() implies d.contains(
            #[trigger] d.filter(p)[i],
        ) by {
            assert(d.filter(p).contains(d.filter(p)[i]));
        }
    }
}

/// A closed door is not found any more, and no other door is touched by the
/// closing.
pub proof fn loi_fermeture(portes: Seq<Porte>, slug: Seq<char>, autre: Seq<char>)
    ensures
        place(portes.filter(|p: Porte| p.slug@ != slug), slug) is None,
        autre != slug ==> connue(portes.filter(|p: Porte| p.slug@ != slug), autre) == connue(
            portes,
            autre,
        ),
    decreases portes.len(),
{
    reveal(Seq::filter);
    let f = |p: Porte| p.slug@ != slug;
    if portes.len() > 0 {
        let d = portes.drop_last();
        loi_fermeture(d, slug, autre);
        let reste = portes.filter(f);
        lemme_place(d, autre);
        lemme_place(d.filter(f), autre);
        if f(portes.last()) {
            assert(reste.drop_last() =~= d.filter(f));
        }
        if let Some(i) = place(d, autre) {
            assert(portes[i] == d[i]);
            if autre != slug {
                let k = place(d.filter(f), autre)->0;
                assert(reste[k] == d.filter(f)[k]);
            }
        }
    }
}

/// What is first in a part of a list is first in the list.
proof fn lemme_place_prolongee(portes: Seq<Porte>, slug: Seq<char>, n: int)
    requires
        0 <= n <= portes.len(),
        place(portes.take(n), slug) is Some,
    ensures
        place(portes, slug) == place(portes.take(n), slug),
    decreases portes.len() - n,
{
    if n < portes.len() {
        assert(portes.take(n + 1).drop_last() =~= portes.take(n));
        lemme_place_prolongee(portes, slug, n + 1);
    } else {
        assert(portes.take(n) =~= portes);
    }
}

/// The countdown of a request, from milliseconds.
pub open spec fn compte_a_rebours(ms: int) -> Seq<char> {
    let s = ms / 1000;
    if s >= 60 {
        texte::decimal((s / 60) as nat) + " min"@
    } else {
        texte::decimal(s as nat) + " s"@
    }
}

/// The countdown of a request: "4 min", "50 s".
pub fn reste_court(ms: u64) -> (r: String)
    ensures
        r@ == compte_a_rebours(ms as int),
{
    let s: u64 = ms / 1000;
    let mut r: String = String::new();
    if s >= 60 {
        texte::pousser_decimal(&mut r, s / 60);
        r.append(" min");
    } else {
        texte::pousser_decimal(&mut r, s);
        r.append(" s");
    }
    assert(r@ =~= compte_a_rebours(ms as int));
    r
}

// ---------------------------------------------------------------------
// Banners
// ---------------------------------------------------------------------

impl Portes {
    /// One banner per request that is still alive, after the others were
    /// dropped.
    pub fn bannieres(&mut self, maintenant: u64) -> (r: Vec<Banniere>)
        ensures
            final(self).demandes@ == old(self).demandes@.filter(
                |d: Demande| d.vivante(maintenant),
            ),
            old(self).bien_tenues() ==> final(self).bien_tenues(),
            *final(self) == (Portes { demandes: final(self).demandes, ..*old(self) }),
            r@.len() == final(self).demandes@.len(),
            forall|i: int|
                0 <= i < r@.len() ==> (#[trigger] r@[i]).texte@ == texte_banniere(
                    final(self).demandes@[i],
                    maintenant,
                ) && r@[i].survol@ == survol_banniere(final(self).demandes@[i]),
    {
        self.purger(maintenant);
        let ghost apres = *self;
        let mut r: Vec<Banniere> = Vec::new();
        while r.len() < self.demandes.len()
            invariant
                *self == apres,
                r@.len() <= self.demandes@.len(),
                forall|i: int|
                    0 <= i < r@.len() ==> (#[trigger] r@[i]).texte@ == texte_banniere(
                        self.demandes@[i],
                        maintenant,
                    ) && r@[i].survol@ == survol_banniere(self.demandes@[i]),
            decreases self.demandes@.len() - r@.len(),
        {
            let d: &Demande = &self.demandes[r.len()];
            let mut texte: String = d.nom.clone();
            texte.append(" veut rejoindre par le web (porte ");
            texte.append(d.slug.as_str());
            texte.append(") · ");
            let reste: String = reste_court(d.reste(maintenant));
            texte.append(reste.as_str());
            let mut survol: String = String::new();
            if d.ip_masquee.as_str().is_empty() {
                survol.append(
                    "quelqu'un frappe à une porte web : il n'a pas de compte, il ne verra que le salon temporaire",
                );
                assert(survol@ =~= survol_banniere(*d));
            } else {
                survol.append("depuis l'adresse ");
                survol.append(d.ip_masquee.as_str());
                survol.append(" — il n'a pas de compte, il ne verra que le salon temporaire");
                assert(survol@ =~= survol_banniere(*d));
            }
            assert(texte@ =~= texte_banniere(*d, maintenant));
            r.push(Banniere { texte, survol });
        }
        r
    }

    /// Answers the `i`-th request. To accept is to want to speak: the channel
    /// of the door is opened, where it is known.
    pub fn repondre(&mut self, i: usize, accepter: bool) -> (r: Vec<Action>)
        requires
            i < old(self).demandes@.len(),
        ensures
            final(self).demandes@ == old(self).demandes@.remove(i as int),
            old(self).bien_tenues() ==> final(self).bien_tenues(),
            *final(self) == (Portes { demandes: final(self).demandes, ..*old(self) }),
            r@.len() > 0,
            est_reponse(r@[0], old(self).demandes@[i as int].demande_id, accepter),
            match place(old(self).portes@, old(self).demandes@[i as int].slug@) {
                Some(k) => if accepter {
                    r@.len() == 2 && r@[1] == Action::Lire(old(self).portes@[k].salon)
                } else {
                    r@.len() == 1
                },
                None => r@.len() == 1,
            },
    {
        let d: Demande = self.demandes.remove(i);
        let mut r: Vec<Action> = Vec::new();
        r.push(reponse(d.demande_id, accepter));
        if accepter {
            if let Some(salon) = self.salon_de(d.slug.as_str()) {
                r.push(Action::Lire(salon));
            }
        }
        r
    }
}

/// The message that answers a request.
pub open spec fn est_reponse(a: Action, demande_id: u64, accepter: bool) -> bool {
    a matches Action::Envoyer(ClientMsg::PorteRepondre { demande_id: d, accepter: b, motif })
        && d == demande_id && b == accepter && motif@.len() == 0
}

fn reponse(demande_id: u64, accepter: bool) -> (a: Action)
    ensures
        est_reponse(a, demande_id, accepter),
{
    Action::Envoyer(ClientMsg::PorteRepondre { demande_id, accepter, motif: String::new() })
}

// ---------------------------------------------------------------------
// What can be done to a guest
// ---------------------------------------------------------------------

/// What I may do to a guest.
#[derive(Debug, Clone, Copy, PartialEq, Eq, Structural)]
pub struct Droits {
    /// Expel, answer, close.
    pub agir: bool,
    /// Bring into a voice channel, take out of it.
    pub deplacer: bool,
    /// Offer an account.
    pub offrir: bool,
}

impl Droits {
    /// The rights that a door and the context give: the host of a door has
    /// those of someone who may expel.
    pub open spec fn sur(mienne: bool, contexte: &Contexte) -> Droits {
        Droits {
            agir: mienne || contexte.peut_expulser,
            deplacer: mienne || contexte.peut_expulser,
            offrir: contexte.peut_ouvrir,
        }
    }

    pub fn de(mienne: bool, contexte: &Contexte) -> (r: Droits)
        ensures
            r == Droits::sur(mienne, contexte),
    {
        Droits {
            agir: mienne || contexte.peut_expulser,
            deplacer: mienne || contexte.peut_expulser,
            offrir: contexte.peut_ouvrir,
        }
    }
}

/// A button of a guest's menu.
#[derive(Debug, Clone, Copy, PartialEq, Eq, Structural)]
pub enum Bouton {
    /// Bring the guest into my voice channel.
    InviterDansMonVocal { salon: ChannelId },
    /// The same, greyed out: I am in no voice channel.
    VocalRequis,
    SortirDuVocal,
    Offrir,
    Expulser,
}

/// The buttons of a guest who is in `vocal`: what cannot be done is not shown.
pub open spec fn boutons(
    vocal: Option<ChannelId>,
    droits: Droits,
    mon_vocal: Option<ChannelId>,
) -> Seq<Bouton> {
    let entrer = match mon_vocal {
        Some(mien) => if droits.deplacer && vocal != Some(mien) {
            seq![Bouton::InviterDansMonVocal { salon: mien }]
        } else {
            Seq::empty()
        },
        None => if droits.deplacer && vocal is None {
            seq![Bouton::VocalRequis]
        } else {
            Seq::empty()
        },
    };
    let sortir = if droits.deplacer && vocal is Some {
        seq![Bouton::SortirDuVocal]
    } else {
        Seq::empty()
    };
    let offrir = if droits.offrir {
        seq![Bouton::Offrir]
    } else {
        Seq::empty()
    };
    let expulser = if droits.agir {
        seq![Bouton::Expulser]
    } else {
        Seq::empty()
    };
    entrer + sortir + offrir + expulser
}

/// The buttons of a guest, shared by the card of the door and the list of
/// members.
pub fn boutons_invite(vocal: Option<ChannelId>, droits: Droits, contexte: &Contexte) -> (r: Vec<
    Bouton,
>)
    ensures
        r@ == boutons(vocal, droits, contexte.mon_vocal),
{
    let mut r: Vec<Bouton> = Vec::new();
    if droits.deplacer {
        match contexte.mon_vocal {
            Some(mien) => {
                let ailleurs: bool = match vocal {
                    Some(v) => v != mien,
                    None => true,
                };
                if ailleurs {
                    r.push(Bouton::InviterDansMonVocal { salon: mien });
                }
            },
            None => {
                if vocal.is_none() {
                    r.push(Bouton::VocalRequis);
                }
            },
        }
        if vocal.is_some() {
            r.push(Bouton::SortirDuVocal);
        }
    }
    if droits.offrir {
        r.push(Bouton::Offrir);
    }
    if droits.agir {
        r.push(Bouton::Expulser);
    }
    assert(r@ =~= boutons(vocal, droits, contexte.mon_vocal));
    r
}

/// What a click on a guest's button asks for.
pub fn action_du_bouton(b: Bouton, invite_id: UserId) -> (r: Option<Action>)
    ensures
        r == match b {
            Bouton::InviterDansMonVocal { salon } => Some(
                Action::Envoyer(ClientMsg::PorteVocal { invite_id, channel: Some(salon) }),
            ),
            Bouton::VocalRequis => None,
            Bouton::SortirDuVocal => Some(
                Action::Envoyer(ClientMsg::PorteVocal { invite_id, channel: None }),
            ),
            Bouton::Offrir => Some(Action::Offrir { invite_id }),
            Bouton::Expulser => Some(Action::Envoyer(ClientMsg::PorteExpulser { invite_id })),
        },
{
    match b {
        Bouton::InviterDansMonVocal { salon } => Some(
            Action::Envoyer(ClientMsg::PorteVocal { invite_id, channel: Some(salon) }),
        ),
        Bouton::VocalRequis => None,
        Bouton::SortirDuVocal => Some(
            Action::Envoyer(ClientMsg::PorteVocal { invite_id, channel: None }),
        ),
        Bouton::Offrir => Some(Action::Offrir { invite_id }),
        Bouton::Expulser => Some(Action::Envoyer(ClientMsg::PorteExpulser { invite_id })),
    }
}

impl Portes {
    /// The buttons of a guest in the list of members.
    pub fn menu_invite(
        &self,
        invite_id: UserId,
        vocal: Option<ChannelId>,
        contexte: &Contexte,
    ) -> (r: Vec<Bouton>)
        ensures
            exists|mienne: bool|
                {
                    &&& r@ == boutons(
                        vocal,
                        #[trigger] Droits::sur(mienne, contexte),
                        contexte.mon_vocal,
                    )
                    &&& mienne == exists|i: int|
                        {
                            &&& 0 <= i < self.portes@.len()
                            &&& (#[trigger] self.portes@[i]).accueille(invite_id)
                            &&& self.portes@[i].mienne
                            &&& forall|j: int|
                                0 <= j < i ==> !(#[trigger] self.portes@[j]).accueille(invite_id)
                        }
                },
    {
        let porte: Option<&Porte> = self.porte_de_l_invite(invite_id);
        let mienne: bool = match porte {
            Some(p) => p.mienne,
            None => false,
        };
        let droits: Droits = Droits::de(mienne, contexte);
        assert(droits == Droits::sur(mienne, contexte));
        proof {
            if mienne {
                let i = choose|i: int|
                    0 <= i < self.portes@.len() && #[trigger] self.portes@[i] == *porte->0
                        && self.portes@[i].accueille(invite_id) && forall|j: int|
                        0 <= j < i ==> !(#[trigger] self.portes@[j]).accueille(invite_id);
                assert(self.portes@[i].mienne);
            }
        }
        boutons_invite(vocal, droits, contexte)
    }
}

// ---------------------------------------------------------------------
// The card of a door
// ---------------------------------------------------------------------

/// What the card of a door shows besides the times since people came.
#[derive(Debug)]
pub struct Carte {
    pub titre: String,
    pub salon: String,
    pub reste: String,
    pub lien: Option<String>,
    pub invites: String,
    /// For each guest, where they are in voice and what can be done.
    pub lignes: Vec<LigneInvite>,
    /// How many wait behind the door, where someone does.
    pub demandes: Option<String>,
    /// Whether the requests can be answered and the door closed.
    pub agir: bool,
}

/// The line of a guest.
#[derive(Debug)]
pub struct LigneInvite {
    pub nom: String,
    pub vocal: Option<String>,
    pub boutons: Vec<Bouton>,
}

pub open spec fn texte_invites(n: int) -> Seq<char> {
    if n == 0 {
        "aucun invité pour l'instant"@
    } else if n == 1 {
        "1 invité"@
    } else {
        texte::decimal(n as nat) + " invités"@
    }
}

pub open spec fn texte_demandes(n: int) -> Seq<char> {
    if n == 1 {
        "1 demande en attente"@
    } else {
        texte::decimal(n as nat) + " demandes en attente"@
    }
}

/// What the card says of one guest.
pub open spec fn ligne_de(l: LigneInvite, i: InviteWeb, droits: Droits, contexte: &Contexte) -> bool {
    &&& l.nom@ == i.nom@
    &&& match i.vocal {
        Some(v) => l.vocal is Some && l.vocal->0@ == "· en vocal dans "@ + appellation(
            contexte.salons@,
            v,
        ),
        None => l.vocal is None,
    }
    &&& l.boutons@ == boutons(i.vocal, droits, contexte.mon_vocal)
}

/// The card of a door.
pub fn carte_porte(porte: &Porte, contexte: &Contexte, maintenant: u64) -> (c: Carte)
    ensures
        c.titre@ == "porte « "@ + porte.slug@ + " »"@,
        c.salon@ == "· #"@ + appellation(contexte.salons@, porte.salon),
        c.reste@ == echeance(porte.expire_le, maintenant),
        c.lien == porte.url,
        c.invites@ == texte_invites(porte.invites@.len() as int),
        c.lignes@.len() == porte.invites@.len(),
        forall|i: int|
            0 <= i < c.lignes@.len() ==> ligne_de(
                #[trigger] c.lignes@[i],
                porte.invites@[i],
                Droits::sur(porte.mienne, contexte),
                contexte,
            ),
        if porte.demandes@.len() == 0 {
            c.demandes is None
        } else {
            c.demandes is Some && c.demandes->0@ == texte_demandes(porte.demandes@.len() as int)
        },
        c.agir == (porte.mienne || contexte.peut_expulser),
{
    let droits: Droits = Droits::de(porte.mienne, contexte);
    let mut titre: String = String::from_str("porte « ");
    titre.append(porte.slug.as_str());
    titre.append(" »");
    let mut salon: String = String::from_str("· #");
    let nom: String = contexte.nom_salon(porte.salon);
    salon.append(nom.as_str());
    let n: usize = porte.invites.len();
    let mut invites: String = String::new();
    if n == 0 {
        invites.append("aucun invité pour l'instant");
    } else if n == 1 {
        invites.append("1 invité");
    } else {
        texte::pousser_decimal(&mut invites, n as u64);
        invites.append(" invités");
    }
    assert(invites@ =~= texte_invites(n as int));
    let mut lignes: Vec<LigneInvite> = Vec::new();
    while lignes.len() < porte.invites.len()
        invariant
            droits == Droits::sur(porte.mienne, contexte),
            lignes@.len() <= porte.invites@.len(),
            forall|i: int|
                0 <= i < lignes@.len() ==> ligne_de(
                    #[trigger] lignes@[i],
                    porte.invites@[i],
                    droits,
                    contexte,
                ),
        decreases porte.invites@.len() - lignes@.len(),
    {
        let invite: &InviteWeb = &porte.invites[lignes.len()];
        let vocal: Option<String> = match invite.vocal {
            Some(v) => {
                let mut t: String = String::from_str("· en vocal dans ");
                let nom: String = contexte.nom_salon(v);
                t.append(nom.as_str());
                Some(t)
            },
            None => None,
        };
        let b: Vec<Bouton> = boutons_invite(invite.vocal, droits, contexte);
        lignes.push(LigneInvite { nom: invite.nom.clone(), vocal, boutons: b });
    }
    let m: usize = porte.demandes.len();
    let demandes: Option<String> = if m == 0 {
        None
    } else {
        let mut t: String = String::new();
        if m == 1 {
            t.append("1 demande en attente");
        } else {
            texte::pousser_decimal(&mut t, m as u64);
            t.append(" demandes en attente");
        }
        assert(t@ =~= texte_demandes(m as int));
        Some(t)
    };
    Carte {
        titre,
        salon,
        reste: reste_texte(porte.expire_le, maintenant),
        lien: porte.url.clone(),
        invites,
        lignes,
        demandes,
        agir: droits.agir,
    }
}

/// A click on the card of a door.
#[derive(Debug, Clone, Copy, PartialEq, Eq, Structural)]
pub enum Clic {
    CopierLien,
    Refuser { demande_id: u64 },
    Accepter { demande_id: u64 },
    OuvrirSalon,
    Fermer,
}

/// What a click on the card asks for, by the rights that one has there.
pub fn actions_carte(porte: &Porte, droits: Droits, clic: Clic) -> (r: Vec<Action>)
    ensures
        match clic {
            Clic::CopierLien => match porte.url {
                Some(u) => r@ == seq![Action::Copier(u)],
                None => r@.len() == 0,
            },
            Clic::Refuser { demande_id } => if droits.agir {
                r@.len() == 1 && est_reponse(r@[0], demande_id, false)
            } else {
                r@.len() == 0
            },
            Clic::Accepter { demande_id } => if droits.agir {
                r@.len() == 2 && est_reponse(r@[0], demande_id, true) && r@[1] == Action::Lire(
                    porte.salon,
                )
            } else {
                r@.len() == 0
            },
            Clic::OuvrirSalon => r@ == seq![Action::Lire(porte.salon)],
            Clic::Fermer => if droits.agir {
                r@ == seq![Action::Envoyer(ClientMsg::PorteFermer { slug: porte.slug })]
            } else {
                r@.len() == 0
            },
        },
{
    let mut r: Vec<Action> = Vec::new();
    match clic {
        Clic::CopierLien => {
            if let Some(u) = &porte.url {
                r.push(Action::Copier(u.clone()));
            }
        },
        Clic::Refuser { demande_id } => {
            if droits.agir {
                r.push(reponse(demande_id, false));
            }
        },
        Clic::Accepter { demande_id } => {
            if droits.agir {
                r.push(reponse(demande_id, true));
                r.push(Action::Lire(porte.salon));
            }
        },
        Clic::OuvrirSalon => {
            r.push(Action::Lire(porte.salon));
        },
        Clic::Fermer => {
            if droits.agir {
                r.push(Action::Envoyer(ClientMsg::PorteFermer { slug: porte.slug.clone() }));
            }
        },
    }
    r
}

// ---------------------------------------------------------------------
// The opening form
// ---------------------------------------------------------------------

/// The bounds that the server puts on doors.
#[derive(Debug, Clone, Copy, PartialEq, Eq, Structural)]
pub struct BornesPortes {
    pub slug_min: usize,
    pub slug_max: usize,
    pub portes_max: usize,
}

/// The durations on offer, in minutes. The last one is the server's ceiling.
pub const DUREES: [u64; 4] = [30, 60, 120, 360];

/// How a duration on offer is called.
pub fn libelle_duree(minutes: u64) -> (r: String)
    ensures
        r@ == if minutes < 60 {
            texte::decimal(minutes as nat) + " min"@
        } else {
            texte::decimal((minutes / 60) as nat) + " h"@
        },
{
    let mut r: String = String::new();
    if minutes < 60 {
        texte::pousser_decimal(&mut r, minutes);
        r.append(" min");
    } else {
        texte::pousser_decimal(&mut r, minutes / 60);
        r.append(" h");
    }
    assert(Seq::<char>::empty() + texte::decimal((minutes / 60) as nat) =~= texte::decimal(
        (minutes / 60) as nat,
    ));
    assert(Seq::<char>::empty() + texte::decimal(minutes as nat) =~= texte::decimal(
        minutes as nat,
    ));
    r
}

/// What the form says of the name that is being typed. `valide` is the
/// protocol's word on it.
pub open spec fn avis_du_slug(
    portes: Portes,
    valide: bool,
    bornes: BornesPortes,
    base_web: Seq<char>,
) -> Seq<char> {
    if portes.slug@.len() > 0 && !valide {
        "de "@ + texte::decimal(bornes.slug_min as nat) + " à "@ + texte::decimal(
            bornes.slug_max as nat,
        ) + " caractères : minuscules, chiffres et tirets — un mot qu'on dicte en vocal"@
    } else if place(portes.portes@, portes.slug@) is Some {
        "cette porte est déjà ouverte"@
    } else {
        "le lien : "@ + base_web + "/"@ + (if portes.slug@.len() == 0 {
            "salon1"@
        } else {
            portes.slug@
        }) + " — un mot qu'on dicte en vocal"@
    }
}

impl Portes {
    /// What is typed in the form becomes a name.
    pub fn saisir(&mut self, brut: &str, bornes: BornesPortes)
        ensures
            final(self).slug@ == slug_de(brut@, bornes.slug_max as int),
            *final(self) == (Portes { slug: final(self).slug, ..*old(self) }),
    {
        self.slug = slug_normalise(brut, bornes.slug_max);
    }

    /// The word under the name in the form.
    pub fn avis_slug(&self, valide: bool, bornes: BornesPortes, contexte: &Contexte) -> (r: String)
        ensures
            r@ == avis_du_slug(*self, valide, bornes, contexte.base_web@),
    {
        let mut r: String = String::new();
        if !self.slug.as_str().is_empty() && !valide {
            r.append("de ");
            texte::pousser_decimal(&mut r, bornes.slug_min as u64);
            r.append(" à ");
            texte::pousser_decimal(&mut r, bornes.slug_max as u64);
            r.append(" caractères : minuscules, chiffres et tirets — un mot qu'on dicte en vocal");
        } else if self.chercher(self.slug.as_str()).is_some() {
            r.append("cette porte est déjà ouverte");
        } else {
            r.append("le lien : ");
            r.append(contexte.base_web.as_str());
            r.append("/");
            if self.slug.as_str().is_empty() {
                r.append("salon1");
            } else {
                r.append(self.slug.as_str());
            }
            r.append(" — un mot qu'on dicte en vocal");
        }
        assert(r@ =~= avis_du_slug(*self, valide, bornes, contexte.base_web@));
        r
    }

    /// Whether the form can be sent: a valid name, of a door that is not open
    /// yet, below the server's ceiling.
    pub fn peut_ouvrir(&self, valide: bool, bornes: BornesPortes) -> (r: bool)
        ensures
            r == (valide && place(self.portes@, self.slug@) is None && self.portes@.len()
                < bornes.portes_max),
    {
        valide && self.chercher(self.slug.as_str()).is_none() && self.portes.len()
            < bornes.portes_max
    }

    /// The message that the form sends.
    pub fn ouvrir(&self) -> (a: Action)
        requires
            self.duree_min * 60 <= u64::MAX,
        ensures
            a matches Action::Envoyer(ClientMsg::PorteOuvrir { slug, nom_salon, ttl_secs }) && slug
                == self.slug && nom_salon@ == texte::rogne(self.nom_salon@) && ttl_secs == if
                self.duree_min * 60 <= PORTE_TTL_MAX_SECS {
                (self.duree_min * 60) as u64
            } else {
                PORTE_TTL_MAX_SECS
            },
    {
        let demande: u64 = self.duree_min * 60;
        let ttl_secs: u64 = if demande <= PORTE_TTL_MAX_SECS {
            demande
        } else {
            PORTE_TTL_MAX_SECS
        };
        Action::Envoyer(
            ClientMsg::PorteOuvrir {
                slug: self.slug.clone(),
                nom_salon: texte::rogner(self.nom_salon.as_str()).to_owned(),
                ttl_secs,
            },
        )
    }
}

// ---------------------------------------------------------------------
// Texts
// ---------------------------------------------------------------------

/// A name as it is typed: lower case, without white around it, and no longer
/// than the bound.
pub open spec fn slug_de(brut: Seq<char>, max: int) -> Seq<char> {
    texte::au_plus(texte::minuscules(texte::rogne(brut)), max)
}

/// A name as it is typed: lower case, without white around it, and no longer
/// than the bound. Whether it is valid is for the protocol to say.
pub fn slug_normalise(brut: &str, max: usize) -> (r: String)
    ensures
        r@ == slug_de(brut@, max as int),
        r@.len() <= max,
{
    let bas: String = texte::rogner(brut).to_lowercase();
    texte::prendre(bas.as_str(), max).to_owned()
}

/// How long a door stays open, in words.
pub open spec fn echeance(expire_le_ms: u64, maintenant_ms: u64) -> Seq<char> {
    let s = if expire_le_ms > maintenant_ms {
        (expire_le_ms - maintenant_ms) / 1000
    } else {
        0
    };
    if s == 0 {
        "expirée"@
    } else if s < 60 {
        "expire dans "@ + texte::decimal(s as nat) + " s"@
    } else if s < 3600 {
        "expire dans "@ + texte::decimal((s / 60) as nat) + " min"@
    } else {
        "expire dans "@ + texte::decimal((s / 3600) as nat) + " h "@ + texte::deux_chiffres(
            (s % 3600) / 60,
        )
    }
}

/// "expire dans 12 min", "expire dans 1 h 05", "expire dans 40 s", "expirée".
pub fn reste_texte(expire_le_ms: u64, maintenant_ms: u64) -> (r: String)
    ensures
        r@ == echeance(expire_le_ms, maintenant_ms),
{
    let s: u64 = expire_le_ms.saturating_sub(maintenant_ms) / 1000;
    let mut r: String = String::new();
    if s == 0 {
        r.append("expirée");
    } else {
        r.append("expire dans ");
        if s < 60 {
            texte::pousser_decimal(&mut r, s);
            r.append(" s");
        } else if s < 3600 {
            texte::pousser_decimal(&mut r, s / 60);
            r.append(" min");
        } else {
            texte::pousser_decimal(&mut r, s / 3600);
            r.append(" h ");
            texte::pousser_deux_chiffres(&mut r, (s % 3600) / 60);
        }
    }
    assert(r@ =~= echeance(expire_le_ms, maintenant_ms));
    r
}

/// The link of a door, with what it starts with where the server gave its
/// path alone.
pub open spec fn lien_entier(base: Seq<char>, url: Seq<char>) -> Seq<char> {
    let u = texte::rogne(url);
    if texte::present_en(u, "https://"@, 0) || texte::present_en(u, "http://"@, 0) {
        u
    } else {
        texte::sans_fin(base, '/') + "/"@ + texte::sans_debut(u, '/')
    }
}

/// The link of a door as it is shown and copied: whole, scheme and all.
pub fn lien_complet(base: &str, url: &str) -> (r: String)
    ensures
        r@ == lien_entier(base@, url@),
{
    let u: &str = texte::rogner(url);
    if texte::commence(u, "https://") || texte::commence(u, "http://") {
        return u.to_owned();
    }
    let mut r: String = texte::ronger_fin(base, '/').to_owned();
    r.append("/");
    r.append(texte::ronger_debut(u, '/'));
    r
}

/// The time of day in Unix milliseconds, the unit of the server's dates.
pub fn maintenant_ms() -> u64 {
    horloge::maintenant_ms()
}

/// The door that is found by a name is the first one of that name, and one is
/// found wherever there is one.
pub proof fn loi_porte_trouvee(portes: Seq<Porte>, slug: Seq<char>)
    ensures
        match place(portes, slug) {
            Some(i) => 0 <= i < portes.len() && portes[i].slug@ == slug && forall|k: int|
                0 <= k < i ==> (#[trigger] portes[k]).slug@ != slug,
            None => forall|k: int| 0 <= k < portes.len() ==> (#[trigger] portes[k]).slug@ != slug,
        },
    decreases portes.len(),
{
    if portes.len() > 0 {
        let d = portes.drop_last();
        loi_porte_trouvee(d, slug);
        match place(d, slug) {
            Some(i) => {
                assert(d[i] == portes[i]);
                assert forall|k: int| 0 <= k < i implies (#[trigger] portes[k]).slug@ != slug by {
                    assert(d[k] == portes[k]);
                }
            },
            None => {
                assert forall|k: int| 0 <= k < d.len() implies (#[trigger] portes[k]).slug@ != slug by {
                    assert(d[k] == portes[k]);
                }
            },
        }
    }
}

/// A request can be answered for five minutes after it came, and not after.
pub proof fn loi_demande_vivante(d: Demande, maintenant: u64)
    ensures
        d.vivante(maintenant) <==> maintenant < d.recue + 300_000,
{
}

/// The state of a door is the one that the server lists: its channel, its guests
/// and its requests. A link or an end that it does not tell stay as they were
/// known, a link that changes is drawn anew, and whose door it is stays.
pub proof fn loi_etat_fait_foi(
    avant: Option<Porte>,
    apres: Porte,
    slug: Seq<char>,
    salon: ChannelId,
    invites: Vec<InviteWeb>,
    demandes: Vec<DemandeWeb>,
    expire_le: u64,
    url: Option<String>,
)
    requires
        porte_decrite(avant, apres, slug, salon, invites, demandes, expire_le, url),
    ensures
        apres.slug@ == slug && apres.salon == salon,
        apres.invites@ == invites@ && apres.demandes@ == demandes@,
        expire_le != 0 ==> apres.expire_le == expire_le,
        expire_le == 0 && avant is Some ==> apres.expire_le == avant->0.expire_le,
        url is Some ==> apres.url is Some && apres.url->0@ == url->0@,
        url is None && avant is Some ==> apres.url == avant->0.url && apres.qr == avant->0.qr,
        url is None && avant is None ==> apres.url is None,
        avant is Some ==> apres.mienne == avant->0.mienne,
        avant is None ==> !apres.mienne && !apres.qr,
        (url is Some && (avant is None || avant->0.url is None || avant->0.url->0@ != url->0@))
            ==> !apres.qr,
{
}

/// The door that I opened is mine, leads where the server says and keeps who is
/// there already.
pub proof fn loi_porte_a_moi(
    avant: Option<Porte>,
    apres: Porte,
    slug: Seq<char>,
    url: String,
    salon: ChannelId,
    expire_le: u64,
)
    requires
        porte_ouverte(avant, apres, slug, url, salon, expire_le),
    ensures
        apres.mienne && apres.salon == salon && apres.expire_le == expire_le,
        apres.url is Some && apres.url->0@ == url@ && apres.slug@ == slug,
        avant is Some ==> apres.invites@ == avant->0.invites@ && apres.demandes@
            == avant->0.demandes@,
        avant is None ==> apres.invites@.len() == 0,
{
}

/// Only the door of that name changes, and one that was not known is added at
/// the end.
pub proof fn loi_une_porte_change(avant: Seq<Porte>, apres: Seq<Porte>, slug: Seq<char>, k: int)
    requires
        porte_changee(avant, apres, slug),
        0 <= k < avant.len(),
    ensures
        avant[k].slug@ != slug ==> apres.len() >= avant.len() && apres[k] == avant[k],
        apres.len() == avant.len() || (apres.len() == avant.len() + 1 && forall|j: int|
            0 <= j < avant.len() ==> (#[trigger] avant[j]).slug@ != slug),
{
    loi_porte_trouvee(avant, slug);
    match place(avant, slug) {
        Some(i) => {
            assert(apres.len() == avant.len());
            if avant[k].slug@ != slug {
                assert(k != i);
                assert(avant.update(i, apres[i])[k] == avant[k]);
            }
        },
        None => {
            assert(apres.drop_last()[k] == apres[k]);
        },
    }
}

/// A guest can be brought into my voice channel from any other place, taken out
/// of the one where they are, offered the program and expelled, each by whoever
/// may and by nobody else; where I am in no voice I am told that I have to be.
pub proof fn loi_boutons_d_un_invite(
    vocal: Option<ChannelId>,
    droits: Droits,
    mon_vocal: Option<ChannelId>,
    salon: ChannelId,
)
    ensures
        ({
            let b = boutons(vocal, droits, mon_vocal);
            &&& b.contains(Bouton::InviterDansMonVocal { salon }) <==> droits.deplacer && mon_vocal
                == Some(salon) && vocal != Some(salon)
            &&& b.contains(Bouton::VocalRequis) <==> droits.deplacer && mon_vocal is None && vocal
                is None
            &&& b.contains(Bouton::SortirDuVocal) <==> droits.deplacer && vocal is Some
            &&& b.contains(Bouton::Offrir) <==> droits.offrir
            &&& b.contains(Bouton::Expulser) <==> droits.agir
        }),
{
    let b = boutons(vocal, droits, mon_vocal);
    let entrer = match mon_vocal {
        Some(mien) => if droits.deplacer && vocal != Some(mien) {
            seq![Bouton::InviterDansMonVocal { salon: mien }]
        } else {
            Seq::empty()
        },
        None => if droits.deplacer && vocal is None {
            seq![Bouton::VocalRequis]
        } else {
            Seq::empty()
        },
    };
    let n = entrer.len() as int;
    if n > 0 {
        assert(b[0] == entrer[0]);
    }
    let s: int = if droits.deplacer && vocal is Some {
        1
    } else {
        0
    };
    if s == 1 {
        assert(b[n] == Bouton::SortirDuVocal);
    }
    let o: int = if droits.offrir {
        1
    } else {
        0
    };
    if o == 1 {
        assert(b[n + s] == Bouton::Offrir);
    }
    if droits.agir {
        assert(b[n + s + o] == Bouton::Expulser);
    }
}

/// Whoever opened a door, or may expel, acts on its guests; whoever may invite
/// offers the program.
pub proof fn loi_droits_sur_une_porte(mienne: bool, contexte: &Contexte)
    ensures
        Droits::sur(mienne, contexte).agir == (mienne || contexte.peut_expulser),
        Droits::sur(mienne, contexte).deplacer == (mienne || contexte.peut_expulser),
        Droits::sur(mienne, contexte).offrir == contexte.peut_ouvrir,
{
}

/// A link that the server gives in full is left alone; one that it gives from
/// its root is joined to our base with one slash between the two, however many
/// each of them has there.
pub proof fn loi_lien_entier(base: Seq<char>, url: Seq<char>)
    ensures
        ({
            let u = texte::rogne(url);
            let plein = texte::present_en(u, "https://"@, 0) || texte::present_en(
                u,
                "http://"@,
                0,
            );
            &&& plein ==> lien_entier(base, url) == u
            &&& !plein ==> exists|a: Seq<char>, b: Seq<char>|
                #![trigger a + seq!['/'] + b]
                lien_entier(base, url) == a + seq!['/'] + b && a.is_prefix_of(base) && (a.len() == 0
                    || a.last() != '/') && (forall|k: int|
                    a.len() <= k < base.len() ==> #[trigger] base[k] == '/') && b.is_suffix_of(u)
                    && (b.len() == 0 || b[0] != '/') && (forall|k: int|
                    0 <= k < u.len() - b.len() ==> #[trigger] u[k] == '/')
        }),
{
    let u = texte::rogne(url);
    let a = texte::sans_fin(base, '/');
    let b = texte::sans_debut(u, '/');
    lemme_fin_rongee(base, '/');
    lemme_debut_ronge(u, '/');
    reveal_strlit("/");
    assert("/"@ =~= seq!['/']);
    assert(a + "/"@ + b =~= a + seq!['/'] + b);
}

proof fn lemme_fin_rongee(s: Seq<char>, c: char)
    ensures
        texte::sans_fin(s, c).is_prefix_of(s),
        texte::sans_fin(s, c).len() == 0 || texte::sans_fin(s, c).last() != c,
        forall|k: int| texte::sans_fin(s, c).len() <= k < s.len() ==> #[trigger] s[k] == c,
    decreases s.len(),
{
    if s.len() > 0 && s.last() == c {
        let d = s.drop_last();
        lemme_fin_rongee(d, c);
        let r = texte::sans_fin(s, c);
        assert(d.take(r.len() as int) =~= s.take(r.len() as int));
        assert(r =~= s.subrange(0, r.len() as int));
        assert forall|k: int| r.len() <= k < s.len() implies #[trigger] s[k] == c by {
            if k < d.len() {
                assert(d[k] == s[k]);
            }
        }
    } else {
        assert(s =~= s.subrange(0, s.len() as int));
    }
}

proof fn lemme_debut_ronge(s: Seq<char>, c: char)
    ensures
        texte::sans_debut(s, c).is_suffix_of(s),
        texte::sans_debut(s, c).len() == 0 || texte::sans_debut(s, c)[0] != c,
        forall|k: int| 0 <= k < s.len() - texte::sans_debut(s, c).len() ==> #[trigger] s[k] == c,
    decreases s.len(),
{
    let r = texte::sans_debut(s, c);
    if s.len() > 0 && s[0] == c {
        let d = s.drop_first();
        lemme_debut_ronge(d, c);
        assert(r =~= s.subrange(s.len() - r.len(), s.len() as int)) by {
            assert(r =~= d.subrange(d.len() - r.len(), d.len() as int));
        }
        assert forall|k: int| 0 <= k < s.len() - r.len() implies #[trigger] s[k] == c by {
            if k > 0 {
                assert(d[k - 1] == s[k]);
            }
        }
    } else {
        assert(s =~= s.subrange(0, s.len() as int));
    }
}

/// The end of a door is told in the largest unit that fits: over in less than a
/// second, then seconds, minutes, and hours with their minutes.
pub proof fn loi_echeance(expire_le_ms: u64, maintenant_ms: u64, h: nat, m: nat, s: nat)
    requires
        expire_le_ms >= maintenant_ms,
        m < 60 && s < 60,
        (expire_le_ms - maintenant_ms) / 1000 == h * 3600 + m * 60 + s,
    ensures
        h == 0 && m == 0 && s == 0 ==> echeance(expire_le_ms, maintenant_ms) == "expirée"@,
        h == 0 && m == 0 && s > 0 ==> echeance(expire_le_ms, maintenant_ms) == "expire dans "@
            + texte::decimal(s) + " s"@,
        h == 0 && m > 0 ==> echeance(expire_le_ms, maintenant_ms) == "expire dans "@
            + texte::decimal(m) + " min"@,
        h > 0 ==> echeance(expire_le_ms, maintenant_ms) == "expire dans "@ + texte::decimal(h)
            + " h "@ + texte::deux_chiffres(m as int),
{
    let t: int = ((expire_le_ms - maintenant_ms) / 1000) as int;
    if h > 0 {
        assert(t / 3600 == h && t % 3600 == m * 60 + s) by (nonlinear_arith)
            requires
                t == h * 3600 + m * 60 + s,
                m < 60,
                s < 60,
        ;
    }
}

/// A channel is called by the name of the first that has its number, and by its
/// number where there is none.
pub proof fn loi_appellation(salons: Seq<ChannelInfo>, id: ChannelId, k: int)
    ensures
        0 <= k < salons.len() && salons[k].id == id && (forall|j: int|
            0 <= j < k ==> (#[trigger] salons[j]).id != id) ==> appellation(salons, id)
            == salons[k].name@,
        (forall|j: int| 0 <= j < salons.len() ==> (#[trigger] salons[j]).id != id) ==> appellation(
            salons,
            id,
        ) == "salon "@ + texte::decimal(id as nat),
{
    lemme_nom_du_salon(salons, id, k);
}

proof fn lemme_nom_du_salon(salons: Seq<ChannelInfo>, id: ChannelId, k: int)
    ensures
        0 <= k < salons.len() && salons[k].id == id && (forall|j: int|
            0 <= j < k ==> (#[trigger] salons[j]).id != id) ==> nom_du_salon(salons, id) == Some(
            salons[k].name@,
        ),
        (forall|j: int| 0 <= j < salons.len() ==> (#[trigger] salons[j]).id != id) ==> nom_du_salon(
            salons,
            id,
        ) is None,
    decreases salons.len(),
{
    if salons.len() > 0 {
        let u = salons.drop_first();
        lemme_nom_du_salon(u, id, k - 1);
        assert forall|j: int| 0 <= j < u.len() implies u[j] == salons[j + 1] by {}
        if k > 0 && k < salons.len() {
            assert(u[k - 1] == salons[k]);
        }
    }
}

/// A request is listed where one of the list has its number, and a guest is
/// behind a door where one of its guests has theirs.
pub proof fn loi_listes(demandes: Seq<DemandeWeb>, p: Porte, id: u64, k: int)
    ensures
        0 <= k < demandes.len() && demandes[k].demande_id == id ==> listee(demandes, id),
        (forall|j: int| 0 <= j < demandes.len() ==> (#[trigger] demandes[j]).demande_id != id)
            ==> !listee(demandes, id),
        0 <= k < p.invites@.len() && p.invites@[k].invite_id == id ==> p.accueille(id),
        (forall|j: int| 0 <= j < p.invites@.len() ==> (#[trigger] p.invites@[j]).invite_id != id)
            ==> !p.accueille(id),
{
}

/// Doors belong to a server: nothing is left of them after it, and the next has
/// to show that it serves any.
pub proof fn loi_portes_oubliees(p: Portes)
    requires
        p.vierge(),
    ensures
        !p.ouvert && !p.disponible && p.portes@.len() == 0 && p.demandes@.len() == 0,
        p.slug@.len() == 0 && p.nom_salon@.len() == 0 && p.message is None && p.duree_min == 60,
        p.bien_tenues(),
{
}

/// Doors are well kept when no two have one name and no two requests one number.
pub proof fn loi_bien_tenues(p: Portes, i: int, j: int)
    requires
        p.bien_tenues(),
    ensures
        0 <= i < p.portes@.len() && 0 <= j < p.portes@.len() && p.portes@[i].slug@
            == p.portes@[j].slug@ ==> i == j,
        0 <= i < p.demandes@.len() && 0 <= j < p.demandes@.len() && p.demandes@[i].demande_id
            == p.demandes@[j].demande_id ==> i == j,
{
}

/// Why a door was closed is told where it is known, and from where somebody
/// knocks likewise.
pub proof fn loi_textes_des_portes(slug: Seq<char>, motif: Seq<char>, d: Demande)
    ensures
        motif.len() == 0 ==> message_fermee(slug, motif) == "porte « "@ + slug + " » fermée"@,
        motif.len() > 0 ==> message_fermee(slug, motif) == "porte « "@ + slug + " » fermée : "@
            + motif,
        d.ip_masquee@.len() > 0 ==> survol_banniere(d) == "depuis l'adresse "@ + d.ip_masquee@
            + " — il n'a pas de compte, il ne verra que le salon temporaire"@,
        d.ip_masquee@.len() == 0 ==> survol_banniere(d)
            == "quelqu'un frappe à une porte web : il n'a pas de compte, il ne verra que le salon temporaire"@,
{
}

} // verus!
