//! The conversation: which channel is read, how its past comes in, how its
//! messages are grouped, and how one is found again.

use crate::listes;
use crate::protocole::{ChannelId, ChatRecord, ClientMsg, SearchHit};
use crate::roster;
use crate::session::{Effet, Fil, Recherche, Session};
use crate::texte;
use vstd::prelude::*;

verus! {

// ---------------------------------------------------------------------
// Opening a channel
// ---------------------------------------------------------------------

/// A channel was opened at its end.
pub open spec fn ouvert(avant: Fil, apres: Fil, channel: ChannelId) -> bool {
    &&& apres.current == Some(channel)
    &&& apres.messages@.len() == 0
    &&& apres.history_more
    &&& !apres.history_pending
    &&& !apres.ancre
    &&& apres.retour_present is None
    &&& apres.focus_input
}

/// What opening a channel asks of the server.
pub open spec fn demandes(channel: ChannelId) -> Seq<Effet> {
    seq![
        Effet::Envoyer(ClientMsg::Join { channel }),
        Effet::Envoyer(ClientMsg::History { limit: 100 }),
    ]
}

/// How many messages are kept while they come in one by one.
pub const MESSAGES_MAX: usize = 500;

/// A message was added at the end; past the limit the oldest one goes.
pub open spec fn ajoute(s: Seq<ChatRecord>, m: ChatRecord) -> Seq<ChatRecord> {
    if s.len() >= MESSAGES_MAX {
        s.push(m).skip(1)
    } else {
        s.push(m)
    }
}

/// A message by this author at this instant is among those.
pub open spec fn connu(s: Seq<ChatRecord>, m: ChatRecord) -> bool {
    exists|k: int|
        0 <= k < s.len() && (#[trigger] s[k]).user_id == m.user_id && s[k].ts == m.ts
}

/// What a page brings that is not shown yet.
pub open spec fn neuf(s: Seq<ChatRecord>, page: Seq<ChatRecord>) -> Seq<ChatRecord> {
    page.filter(|m: ChatRecord| !connu(s, m))
}

/// What the channel is after a page of its past came in. A page of another
/// channel is thrown away; a server that does not say which one answers zero.
pub open spec fn apres_page(
    avant: Fil,
    apres: Fil,
    page: Seq<ChatRecord>,
    more: bool,
    channel: ChannelId,
) -> bool {
    if channel != 0 && avant.current != Some(channel) {
        apres == avant
    } else {
        let n = neuf(avant.messages@, page);
        &&& apres.messages@ == n + avant.messages@
        &&& apres == (Fil {
            messages: apres.messages,
            history_pending: false,
            history_more: more,
            ancre: avant.ancre || n.len() > 0,
            ..avant
        })
    }
}

fn deja_la(s: &Vec<ChatRecord>, m: &ChatRecord) -> (r: bool)
    ensures
        r == connu(s@, *m),
{
    let mut k: usize = 0;
    while k < s.len()
        invariant
            k <= s@.len(),
            forall|i: int| 0 <= i < k ==> !((#[trigger] s@[i]).user_id == m.user_id && s@[i].ts == m.ts),
        decreases s@.len() - k,
    {
        if s[k].user_id == m.user_id && s[k].ts == m.ts {
            return true;
        }
        k += 1;
    }
    false
}

impl Fil {
    /// A message came in.
    pub fn ajouter(&mut self, m: ChatRecord)
        ensures
            final(self).messages@ == ajoute(old(self).messages@, m),
            *final(self) == (Fil { messages: final(self).messages, ..*old(self) }),
    {
        self.messages.push(m);
        if self.messages.len() > MESSAGES_MAX {
            let _ = self.messages.remove(0);
            assert(self.messages@ =~= old(self).messages@.push(m).skip(1));
        }
    }

    /// A page of the past came in: it goes on top, without what is there
    /// already.
    pub fn page(&mut self, page: Vec<ChatRecord>, more: bool, channel: ChannelId)
        ensures
            apres_page(*old(self), *final(self), page@, more, channel),
    {
        if channel != 0 && !roster::meme_salon(self.current, Some(channel)) {
            return;
        }
        self.history_pending = false;
        self.history_more = more;
        let ghost montres = self.messages@;
        let ghost p = |m: ChatRecord| !connu(montres, m);
        let mut garde: Vec<bool> = Vec::new();
        let mut k: usize = 0;
        while k < page.len()
            invariant
                k <= page@.len(),
                garde@.len() == k,
                montres == self.messages@,
                p == |m: ChatRecord| !connu(montres, m),
                forall|i: int| 0 <= i < k ==> #[trigger] garde@[i] == p(page@[i]),
            decreases page@.len() - k,
        {
            garde.push(!deja_la(&self.messages, &page[k]));
            k += 1;
        }
        let mut older: Vec<ChatRecord> = page;
        listes::retenir(&mut older, &garde, Ghost(p));
        assert(older@ == neuf(montres, page@));
        if older.len() == 0 {
            assert(neuf(montres, page@) + montres =~= montres);
            return;
        }
        self.ancre = true;
        older.append(&mut self.messages);
        self.messages = older;
        assert(self.messages@ =~= neuf(montres, page@) + montres);
    }
}

impl Session {
    /// Opens a text channel: what is read changes, and nothing else.
    pub fn join(&mut self, channel: ChannelId) -> (effets: Vec<Effet>)
        ensures
            *final(self) == (Session { fil: final(self).fil, ..*old(self) }),
            ouvert(old(self).fil, final(self).fil, channel),
            effets@ == demandes(channel),
    {
        self.fil.current = Some(channel);
        self.fil.messages = Vec::new();
        self.fil.history_more = true;
        self.fil.history_pending = false;
        self.fil.retour_present = None;
        self.fil.ancre = false;
        self.fil.focus_input = true;
        let mut effets: Vec<Effet> = Vec::new();
        effets.push(Effet::Envoyer(ClientMsg::Join { channel }));
        effets.push(Effet::Envoyer(ClientMsg::History { limit: 100 }));
        effets
    }

    /// There is some past to ask for, and from when.
    pub open spec fn a_remonter(self) -> bool {
        &&& !self.fil.history_pending
        &&& self.fil.history_more
        &&& self.fil.messages@.len() > 0
        &&& self.fil.current is Some
    }

    /// Asks for the page before the oldest message shown.
    pub fn load_older_history(&mut self) -> (effets: Vec<Effet>)
        ensures
            if old(self).a_remonter() {
                &&& *final(self) == (Session {
                    fil: Fil { history_pending: true, ..old(self).fil },
                    ..*old(self)
                })
                &&& effets@ == seq![
                    Effet::Envoyer(
                        ClientMsg::HistoryBefore {
                            before_ts: old(self).fil.messages@[0].ts,
                            limit: 100,
                            channel: old(self).fil.current->0,
                        },
                    ),
                ]
            } else {
                *final(self) == *old(self) && effets@.len() == 0
            },
    {
        let mut effets: Vec<Effet> = Vec::new();
        if self.fil.history_pending || !self.fil.history_more || self.fil.messages.len() == 0 {
            return effets;
        }
        if let Some(channel) = self.fil.current {
            let before_ts: u64 = self.fil.messages[0].ts;
            self.fil.history_pending = true;
            effets.push(Effet::Envoyer(ClientMsg::HistoryBefore { before_ts, limit: 100, channel }));
        }
        effets
    }

    /// Opens a channel at one message rather than at its end: the page that
    /// ends with it is asked for, so that it stands at the bottom.
    pub fn sauter_a(&mut self, channel: ChannelId, ts: u64) -> (effets: Vec<Effet>)
        requires
            ts < u64::MAX,
        ensures
            *final(self) == (Session { fil: final(self).fil, ..*old(self) }),
            final(self).fil.messages@.len() == 0,
            final(self).fil == (Fil {
                current: Some(channel),
                messages: final(self).fil.messages,
                history_more: true,
                history_pending: true,
                ancre: false,
                retour_present: Some(channel),
                ..old(self).fil
            }),
            effets@ == seq![
                Effet::Envoyer(ClientMsg::Join { channel }),
                Effet::Envoyer(
                    ClientMsg::HistoryBefore { before_ts: (ts + 1) as u64, limit: 100, channel },
                ),
            ],
    {
        self.fil.current = Some(channel);
        self.fil.messages = Vec::new();
        self.fil.history_more = true;
        self.fil.history_pending = true;
        self.fil.ancre = false;
        self.fil.retour_present = Some(channel);
        let mut effets: Vec<Effet> = Vec::new();
        effets.push(Effet::Envoyer(ClientMsg::Join { channel }));
        effets.push(
            Effet::Envoyer(ClientMsg::HistoryBefore { before_ts: ts + 1, limit: 100, channel }),
        );
        effets
    }

    /// Opens the channel being read at its end again, after a jump.
    pub fn revenir_au_present(&mut self) -> (effets: Vec<Effet>)
        ensures
            match old(self).fil.current {
                Some(channel) => {
                    &&& *final(self) == (Session { fil: final(self).fil, ..*old(self) })
                    &&& ouvert(old(self).fil, final(self).fil, channel)
                    &&& effets@ == demandes(channel)
                },
                None => *final(self) == *old(self) && effets@.len() == 0,
            },
    {
        match self.fil.current {
            Some(channel) => self.join(channel),
            None => Vec::new(),
        }
    }
}

impl Fil {
    /// What stands on top of the conversation.
    pub fn sommet(&self) -> (r: Sommet)
        ensures
            r == if self.messages@.len() == 0 {
                Sommet::Vide
            } else if self.history_pending {
                Sommet::Chargement
            } else if self.history_more {
                Sommet::Charger
            } else {
                Sommet::Debut
            },
    {
        if self.messages.len() == 0 {
            Sommet::Vide
        } else if self.history_pending {
            Sommet::Chargement
        } else if self.history_more {
            Sommet::Charger
        } else {
            Sommet::Debut
        }
    }

    /// Is the way back to the end of the channel offered?
    pub fn hors_du_present(&self) -> (r: bool)
        ensures
            r == (self.retour_present == self.current),
    {
        roster::meme_salon(self.retour_present, self.current)
    }
}

/// What stands on top of a conversation.
#[derive(Debug, Clone, Copy, PartialEq, Eq, Structural)]
pub enum Sommet {
    /// Nobody has spoken yet.
    Vide,
    /// The past is on its way.
    Chargement,
    /// A button to load some.
    Charger,
    /// The first message of the channel.
    Debut,
}

/// Messages that come one by one never pile up past the limit, and the one
/// that came last is always shown last.
pub proof fn loi_fil_borne(s: Seq<ChatRecord>, m: ChatRecord)
    requires
        s.len() <= MESSAGES_MAX,
    ensures
        ajoute(s, m).len() <= MESSAGES_MAX,
        ajoute(s, m).last() == m,
{
}

/// A message that comes in goes below the others, which keep their order: at
/// most the oldest goes, and only where there are five hundred already.
pub proof fn loi_message_au_bout(s: Seq<ChatRecord>, m: ChatRecord)
    ensures
        s.len() < 500 ==> ajoute(s, m) =~= s + seq![m],
        s.len() >= 500 ==> ajoute(s, m) =~= s.subrange(1, s.len() as int) + seq![m],
{
}

/// A page never shows a message twice: whatever it brings that is shown
/// already is left out, and nothing that was shown goes.
pub proof fn loi_page_sans_doublon(
    avant: Fil,
    apres: Fil,
    page: Seq<ChatRecord>,
    more: bool,
    channel: ChannelId,
)
    requires
        apres_page(avant, apres, page, more, channel),
    ensures
        apres.messages@.len() >= avant.messages@.len(),
        forall|k: int|
            0 <= k < apres.messages@.len() - avant.messages@.len() ==> !connu(
                avant.messages@,
                #[trigger] apres.messages@[k],
            ),
        forall|k: int|
            0 <= k < avant.messages@.len() ==> #[trigger] avant.messages@[k]
                == apres.messages@[apres.messages@.len() - avant.messages@.len() + k],
{
    if !(channel != 0 && avant.current != Some(channel)) {
        let p = |m: ChatRecord| !connu(avant.messages@, m);
        let n = neuf(avant.messages@, page);
        listes::lemme_filtre(page, p);
        assert forall|k: int| 0 <= k < n.len() implies !connu(
            avant.messages@,
            #[trigger] apres.messages@[k],
        ) by {
            assert(apres.messages@[k] == n[k]);
            assert(p(page.filter(p)[k]));
        }
    }
}

/// A page keeps its order and nothing new in it is lost: what it puts on top are
/// messages of the page, each at a later place of the page than the one before,
/// and every message of the page that was not shown is among them. Below them
/// stands what was shown, as it was.
pub proof fn loi_page_garde_son_ordre(
    avant: Fil,
    apres: Fil,
    page: Seq<ChatRecord>,
    more: bool,
    channel: ChannelId,
) -> (places: Seq<int>)
    requires
        apres_page(avant, apres, page, more, channel),
        channel == 0 || avant.current == Some(channel),
    ensures
        apres.messages@.len() == places.len() + avant.messages@.len(),
        forall|k: int|
            0 <= k < places.len() ==> 0 <= #[trigger] places[k] < page.len() && apres.messages@[k]
                == page[places[k]],
        forall|k: int, l: int|
            0 <= k < l < places.len() ==> #[trigger] places[k] < #[trigger] places[l],
        forall|i: int|
            0 <= i < page.len() && (forall|j: int|
                0 <= j < avant.messages@.len() ==> (#[trigger] avant.messages@[j]).user_id
                    != page[i].user_id || avant.messages@[j].ts != page[i].ts)
                ==> #[trigger] places.contains(i),
        forall|k: int|
            0 <= k < avant.messages@.len() ==> apres.messages@[places.len() + k]
                == #[trigger] avant.messages@[k],
        apres.history_more == more && !apres.history_pending,
        apres.current == avant.current && apres.retour_present == avant.retour_present,
        apres.ancre == (avant.ancre || places.len() > 0),
{
    let p = |m: ChatRecord| !connu(avant.messages@, m);
    let places = listes::lemme_filtre_places(page, p);
    assert forall|i: int|
        0 <= i < page.len() && (forall|j: int|
            0 <= j < avant.messages@.len() ==> (#[trigger] avant.messages@[j]).user_id
                != page[i].user_id || avant.messages@[j].ts != page[i].ts) implies #[trigger]
        places.contains(i) by {
        assert(!connu(avant.messages@, page[i]));
        assert(p(page[i]));
    }
    places
}

/// Oldest first: where the page and what is shown go from the oldest message to
/// the newest, and the page holds none newer than those shown, so does what is
/// shown after it.
pub proof fn loi_page_chronologique(
    avant: Fil,
    apres: Fil,
    page: Seq<ChatRecord>,
    more: bool,
    channel: ChannelId,
)
    requires
        apres_page(avant, apres, page, more, channel),
        forall|i: int, j: int|
            0 <= i <= j < page.len() ==> (#[trigger] page[i]).ts <= (#[trigger] page[j]).ts,
        forall|i: int, j: int|
            0 <= i <= j < avant.messages@.len() ==> (#[trigger] avant.messages@[i]).ts <= (
            #[trigger] avant.messages@[j]).ts,
        forall|i: int, j: int|
            0 <= i < page.len() && 0 <= j < avant.messages@.len() ==> (#[trigger] page[i]).ts <= (
            #[trigger] avant.messages@[j]).ts,
    ensures
        forall|i: int, j: int|
            0 <= i <= j < apres.messages@.len() ==> (#[trigger] apres.messages@[i]).ts <= (
            #[trigger] apres.messages@[j]).ts,
{
    if channel == 0 || avant.current == Some(channel) {
        let places = loi_page_garde_son_ordre(avant, apres, page, more, channel);
        let n = places.len() as int;
        assert forall|i: int, j: int| 0 <= i <= j < apres.messages@.len() implies (
        #[trigger] apres.messages@[i]).ts <= (#[trigger] apres.messages@[j]).ts by {
            if j < n {
                assert(places[i] <= places[j]);
                assert(page[places[i]].ts <= page[places[j]].ts);
            } else if i < n {
                assert(0 <= places[i] < page.len());
                assert(apres.messages@[n + (j - n)] == avant.messages@[j - n]);
            } else {
                assert(apres.messages@[n + (i - n)] == avant.messages@[i - n]);
                assert(apres.messages@[n + (j - n)] == avant.messages@[j - n]);
            }
        }
    }
}

/// A page that comes after the channel was left changes nothing.
pub proof fn loi_page_d_ailleurs(
    avant: Fil,
    apres: Fil,
    page: Seq<ChatRecord>,
    more: bool,
    channel: ChannelId,
)
    requires
        apres_page(avant, apres, page, more, channel),
        channel != 0,
        avant.current != Some(channel),
    ensures
        apres == avant,
{
}

// ---------------------------------------------------------------------
// Grouping
// ---------------------------------------------------------------------

/// Two messages of one author less than this apart stand together, in
/// milliseconds.
pub const GROUP_WINDOW_MS: u64 = 300_000;

/// How a message is shown.
#[derive(Debug, Clone, Copy, PartialEq, Eq, Structural)]
pub struct Ligne {
    /// A day starts here.
    pub jour_change: bool,
    /// The author's name and picture stand above it.
    pub en_tete: bool,
}

/// How the `k`th message is shown, where `jours` holds the day of each.
pub open spec fn ligne(s: Seq<ChatRecord>, jours: Seq<i32>, k: int) -> Ligne {
    let veille = if k == 0 {
        i32::MIN
    } else {
        jours[k - 1]
    };
    let jour_change = jours[k] != veille;
    let groupe = !jour_change && k > 0 && s[k - 1].user_id == s[k].user_id && s[k].ts - s[k - 1].ts
        < GROUP_WINDOW_MS;
    Ligne { jour_change, en_tete: !groupe }
}

/// How each message is shown.
pub fn grouper(s: &Vec<ChatRecord>, jours: &Vec<i32>) -> (r: Vec<Ligne>)
    requires
        jours@.len() == s@.len(),
    ensures
        r@ == Seq::new(s@.len(), |k: int| ligne(s@, jours@, k)),
{
    let mut r: Vec<Ligne> = Vec::new();
    let mut veille: i32 = i32::MIN;
    let mut k: usize = 0;
    while k < s.len()
        invariant
            jours@.len() == s@.len(),
            k <= s@.len(),
            r@.len() == k,
            veille == if k == 0 {
                i32::MIN
            } else {
                jours@[k - 1]
            },
            forall|i: int| 0 <= i < k ==> #[trigger] r@[i] == ligne(s@, jours@, i),
        decreases s@.len() - k,
    {
        let jour_change: bool = jours[k] != veille;
        let groupe: bool = if jour_change || k == 0 {
            false
        } else {
            let avant: &ChatRecord = &s[k - 1];
            let ecart: u64 = if s[k].ts > avant.ts {
                s[k].ts - avant.ts
            } else {
                0
            };
            avant.user_id == s[k].user_id && ecart < GROUP_WINDOW_MS
        };
        r.push(Ligne { jour_change, en_tete: !groupe });
        veille = jours[k];
        k += 1;
    }
    assert(r@ =~= Seq::new(s@.len(), |k: int| ligne(s@, jours@, k)));
    r
}

/// A message without a header has the author of the one above it, on the same
/// day.
pub proof fn loi_groupe(s: Seq<ChatRecord>, jours: Seq<i32>, k: int)
    requires
        0 <= k < s.len(),
        !ligne(s, jours, k).en_tete,
    ensures
        k > 0,
        s[k].user_id == s[k - 1].user_id,
        jours[k] == jours[k - 1],
        !ligne(s, jours, k).jour_change,
{
}

// ---------------------------------------------------------------------
// Writing
// ---------------------------------------------------------------------

/// How many lines a text takes: its first character opens one, and so does each
/// one that follows a line feed.
pub open spec fn nb_lignes(s: Seq<char>) -> nat
    decreases s.len(),
{
    if s.len() == 0 {
        0
    } else {
        nb_lignes(s.drop_last()) + if s.len() == 1 || s[s.len() - 2] == '\n' {
            1nat
        } else {
            0nat
        }
    }
}

/// The height of the field where a message is written, in lines: as many as it
/// has, between one and six.
pub fn hauteur_saisie(input: &str) -> (r: usize)
    ensures
        r == if nb_lignes(input@) < 1 {
            1
        } else if nb_lignes(input@) > 6 {
            6
        } else {
            nb_lignes(input@) as int
        },
{
    let c: Vec<char> = texte::caracteres(input);
    let mut n: usize = 0;
    let mut i: usize = 0;
    while i < c.len()
        invariant
            c@ == input@,
            i <= c@.len(),
            n <= i,
            n == nb_lignes(c@.take(i as int)),
        decreases c@.len() - i,
    {
        assert(c@.take(i + 1).drop_last() =~= c@.take(i as int));
        if i == 0 || c[i - 1] == '\n' {
            n += 1;
        }
        i += 1;
    }
    assert(c@.take(i as int) =~= c@);
    if n < 1 {
        1
    } else if n > 6 {
        6
    } else {
        n
    }
}

impl Session {
    /// Whether there is a field to write in, or else what stands in its place:
    /// one where nothing that is written leaves would only puzzle.
    pub fn saisie_permise(&self) -> (r: Result<(), &'static str>)
        ensures
            (r is Ok) == self.moi.pouvoirs.send_message,
            r matches Err(e) ==> e@ == "Tu n'as pas le droit d'écrire dans ce serveur."@,
    {
        if self.moi.pouvoirs.send_message {
            Ok(())
        } else {
            Err("Tu n'as pas le droit d'écrire dans ce serveur.")
        }
    }

    /// Whether a file can be shared from that field.
    pub fn envoi_permis(&self) -> (r: bool)
        ensures
            r == (self.moi.pouvoirs.send_message && self.moi.pouvoirs.upload_file),
    {
        self.moi.pouvoirs.send_message && self.moi.pouvoirs.upload_file
    }
}

/// Sends what was written, without the blanks around it, and empties the
/// field. Nothing goes where nothing is left.
pub fn envoyer_saisie(input: &mut String) -> (r: Option<ClientMsg>)
    ensures
        match r {
            Some(ClientMsg::Chat { text }) => text@ == texte::rogne(old(input)@) && text@.len() > 0
                && final(input)@.len() == 0,
            Some(_) => false,
            None => texte::rogne(old(input)@).len() == 0 && final(input)@ == old(input)@,
        },
{
    let text: String = texte::rogner(input.as_str()).to_owned();
    if text.as_str().is_empty() {
        return None;
    }
    *input = String::new();
    Some(ClientMsg::Chat { text })
}

// ---------------------------------------------------------------------
// Searching
// ---------------------------------------------------------------------

/// What launching a search leaves.
pub open spec fn lancee(
    avant: Session,
    apres: Session,
    effets: Seq<Effet>,
    limite: u32,
) -> bool {
    let q = texte::rogne(avant.recherche.query@);
    &&& apres == (Session { recherche: apres.recherche, ..avant })
    &&& if q.len() == 0 {
        &&& apres.recherche.hits@.len() == 0
        &&& apres.recherche == (Recherche {
            hits: apres.recherche.hits,
            envoyee: None,
            ..avant.recherche
        })
        &&& effets.len() == 0
    } else {
        &&& texte::vue(apres.recherche.envoyee) == Some(q)
        &&& apres.recherche == (Recherche {
            envoyee: apres.recherche.envoyee,
            ..avant.recherche
        })
        &&& effets.len() == 1
        &&& effets[0] matches Effet::Envoyer(ClientMsg::Search { query, channel, limit })
            && query@ == q && limit == limite && channel == if avant.recherche.ici {
            avant.fil.current
        } else {
            None
        }
    }
}

impl Session {
    /// The search button: opens the window with the cursor in its field, or
    /// closes it.
    pub fn ouvrir_recherche(&mut self)
        ensures
            *final(self) == (Session {
                recherche: Recherche {
                    ouverte: !old(self).recherche.ouverte,
                    focus: old(self).recherche.focus || !old(self).recherche.ouverte,
                    ..old(self).recherche
                },
                ..*old(self)
            }),
    {
        self.recherche.ouverte = !self.recherche.ouverte;
        if self.recherche.ouverte {
            self.recherche.focus = true;
        }
    }

    /// Sends the query, if there is one, in the channel being read or in all
    /// of them.
    pub fn lancer_recherche(&mut self, limite: u32) -> (effets: Vec<Effet>)
        ensures
            lancee(*old(self), *final(self), effets@, limite),
    {
        let query: String = texte::rogner(self.recherche.query.as_str()).to_owned();
        let mut effets: Vec<Effet> = Vec::new();
        if query.as_str().is_empty() {
            self.recherche.hits = Vec::new();
            self.recherche.envoyee = None;
            return effets;
        }
        let channel: Option<ChannelId> = if self.recherche.ici {
            self.fil.current
        } else {
            None
        };
        self.recherche.envoyee = Some(query.clone());
        effets.push(Effet::Envoyer(ClientMsg::Search { query, channel, limit: limite }));
        effets
    }

    /// Changes where to search, and searches again where that is a change: the
    /// list shown always goes with the button that is lit.
    pub fn changer_portee(&mut self, ici: bool, limite: u32) -> (effets: Vec<Effet>)
        ensures
            if old(self).recherche.ici == ici {
                *final(self) == *old(self) && effets@.len() == 0
            } else {
                lancee(
                    (Session {
                        recherche: Recherche { ici, ..old(self).recherche },
                        ..*old(self)
                    }),
                    *final(self),
                    effets@,
                    limite,
                )
            },
    {
        if self.recherche.ici == ici {
            return Vec::new();
        }
        self.recherche.ici = ici;
        self.lancer_recherche(limite)
    }

    /// The answer to a query came. One to a query that is not asked any more
    /// is thrown away: a slow answer may come after a later one.
    pub fn resultats(&mut self, query: &str, hits: Vec<SearchHit>, more: bool)
        ensures
            *final(self) == if texte::vue(old(self).recherche.envoyee) == Some(query@) {
                Session {
                    recherche: Recherche { envoyee: None, hits, more, ..old(self).recherche },
                    ..*old(self)
                }
            } else {
                *old(self)
            },
    {
        let attendue: bool = match &self.recherche.envoyee {
            Some(q) => texte::egal(q.as_str(), query),
            None => false,
        };
        if !attendue {
            return;
        }
        self.recherche.envoyee = None;
        self.recherche.hits = hits;
        self.recherche.more = more;
    }
}

impl Recherche {
    /// The places of the results in the order they are shown in: the newest
    /// first, though the server gives them in the order of the thread.
    pub fn ordre_affiche(&self) -> (r: Vec<usize>)
        ensures
            r@ == Seq::new(self.hits@.len(), |i: int| (self.hits@.len() - 1 - i) as usize),
    {
        let n: usize = self.hits.len();
        let mut r: Vec<usize> = Vec::new();
        let mut k: usize = 0;
        while k < n
            invariant
                n == self.hits@.len(),
                k <= n,
                r@ =~= Seq::new(k as nat, |i: int| (n - 1 - i) as usize),
            decreases n - k,
        {
            r.push(n - 1 - k);
            k += 1;
        }
        assert(r@ =~= Seq::new(self.hits@.len(), |i: int| (self.hits@.len() - 1 - i) as usize));
        r
    }
}

/// What the search window says when it has nothing to list.
#[derive(Debug, Clone, Copy, PartialEq, Eq, Structural)]
pub enum EtatRecherche {
    EnCours,
    RienDemande,
    RienTrouve,
    Liste,
}

impl Recherche {
    pub open spec fn etat_de(self) -> EtatRecherche {
        if self.hits@.len() > 0 {
            EtatRecherche::Liste
        } else if self.envoyee is Some {
            EtatRecherche::EnCours
        } else if texte::rogne(self.query@).len() == 0 {
            EtatRecherche::RienDemande
        } else {
            EtatRecherche::RienTrouve
        }
    }

    pub fn etat(&self) -> (r: EtatRecherche)
        ensures
            r == self.etat_de(),
    {
        if self.hits.len() > 0 {
            EtatRecherche::Liste
        } else if self.envoyee.is_some() {
            EtatRecherche::EnCours
        } else if texte::rogner(self.query.as_str()).is_empty() {
            EtatRecherche::RienDemande
        } else {
            EtatRecherche::RienTrouve
        }
    }
}

/// The first line of a text: what comes before its first line feed, without
/// the carriage return that may come with it.
pub open spec fn premiere_ligne(s: Seq<char>) -> Seq<char> {
    match texte::coupe_a(s, '\n') {
        Some((l, _)) => if l.len() > 0 && l.last() == '\r' {
            l.drop_last()
        } else {
            l
        },
        None => s,
    }
}

/// What a search result shows of a message: enough to recognise it.
pub fn apercu(text: &str) -> (r: &str)
    ensures
        r@ == texte::au_plus(premiere_ligne(text@), 160),
{
    let l: &str = match texte::couper_a(text, '\n') {
        Some((l, _)) => {
            let n: usize = l.unicode_len();
            if n > 0 && l.get_char(n - 1) == '\r' {
                let s: &str = l.substring_char(0, n - 1);
                assert(s@ =~= l@.drop_last());
                s
            } else {
                l
            }
        },
        None => text,
    };
    texte::prendre(l, 160)
}

/// Places that go up and leave none out are all of them in order.
pub proof fn lemme_tout_pris(places: Seq<int>, n: int)
    requires
        0 <= n,
        forall|k: int| 0 <= k < places.len() ==> 0 <= #[trigger] places[k] < n,
        forall|k: int, l: int|
            0 <= k < l < places.len() ==> #[trigger] places[k] < #[trigger] places[l],
        forall|i: int| 0 <= i < n ==> #[trigger] places.contains(i),
    ensures
        places.len() == n,
        forall|k: int| 0 <= k < n ==> #[trigger] places[k] == k,
    decreases n,
{
    if n > 0 {
        assert(places.contains(n - 1));
        let j = choose|j: int| 0 <= j < places.len() && places[j] == n - 1;
        if j < places.len() - 1 {
            assert(places[j] < places[places.len() - 1]);
        }
        let debut = places.drop_last();
        assert forall|k: int| 0 <= k < debut.len() implies 0 <= #[trigger] debut[k] < n - 1 by {
            assert(places[k] < places[places.len() - 1]);
        }
        assert forall|i: int| 0 <= i < n - 1 implies #[trigger] debut.contains(i) by {
            assert(places.contains(i));
            let k = choose|k: int| 0 <= k < places.len() && places[k] == i;
            assert(debut[k] == i);
        }
        lemme_tout_pris(debut, n - 1);
        assert forall|k: int| 0 <= k < n implies #[trigger] places[k] == k by {
            if k < n - 1 {
                assert(debut[k] == places[k]);
            }
        }
    } else if places.len() > 0 {
        assert(places[0] < 0);
    }
}

/// A message stands right below the one before it, without a header, when both
/// are of one author, of one day, and less than five minutes apart; a day is told
/// where it starts.
pub proof fn loi_regroupement(s: Seq<ChatRecord>, jours: Seq<i32>, k: int)
    requires
        0 <= k < s.len(),
        s.len() == jours.len(),
    ensures
        k > 0 ==> ligne(s, jours, k).jour_change == (jours[k] != jours[k - 1]),
        k > 0 ==> ligne(s, jours, k).en_tete == !(jours[k] == jours[k - 1] && s[k].user_id == s[k
            - 1].user_id && s[k].ts < s[k - 1].ts + 300_000),
        k == 0 ==> ligne(s, jours, k).en_tete,
        k == 0 && jours[0] != i32::MIN ==> ligne(s, jours, k).jour_change,
{
}

/// A search is sent without the blanks around it, in the channel being read or in
/// all of them as was chosen, and its answer is awaited; with nothing to look for
/// nothing is sent and the list is emptied.
pub proof fn loi_recherche_lancee(avant: Session, apres: Session, effets: Seq<Effet>, limite: u32)
    requires
        lancee(avant, apres, effets, limite),
    ensures
        texte::que_du_blanc(avant.recherche.query@) ==> effets.len() == 0
            && apres.recherche.hits@.len() == 0 && apres.recherche.envoyee is None,
        !texte::que_du_blanc(avant.recherche.query@) ==> {
            &&& effets.len() == 1
            &&& effets[0] is Envoyer && (effets[0]->Envoyer_0 matches ClientMsg::Search {
                query,
                channel,
                limit,
            } && query@ == texte::rogne(avant.recherche.query@) && limit == limite && (
            avant.recherche.ici ==> channel == avant.fil.current) && (!avant.recherche.ici
                ==> channel is None))
            &&& apres.recherche.envoyee is Some && apres.recherche.envoyee->0@ == texte::rogne(
                avant.recherche.query@,
            )
            &&& apres.recherche.hits == avant.recherche.hits
        },
        apres.fil == avant.fil && apres.members == avant.members,
        apres.recherche.query == avant.recherche.query,
{
    let _ = texte::loi_rogne(avant.recherche.query@);
}

/// The search window lists what was found, and else says that it looks, that
/// nothing was asked for, or that nothing was found.
pub proof fn loi_etat_de_recherche(r: Recherche)
    ensures
        r.etat_de() is Liste <==> r.hits@.len() > 0,
        r.etat_de() is EnCours <==> r.hits@.len() == 0 && r.envoyee is Some,
        r.etat_de() is RienDemande <==> r.hits@.len() == 0 && r.envoyee is None
            && texte::que_du_blanc(r.query@),
        r.etat_de() is RienTrouve <==> r.hits@.len() == 0 && r.envoyee is None
            && !texte::que_du_blanc(r.query@),
{
    let _ = texte::loi_rogne(r.query@);
}

/// The first line of a text ends before its first line feed, and before the
/// carriage return that may come with it; a text without any is its first line.
pub proof fn loi_premiere_ligne(l: Seq<char>, reste: Seq<char>)
    requires
        !l.contains('\n'),
    ensures
        premiere_ligne(l) == l,
        l.len() > 0 && l.last() == '\r' ==> premiere_ligne(l + seq!['\n'] + reste)
            == l.drop_last(),
        !(l.len() > 0 && l.last() == '\r') ==> premiere_ligne(l + seq!['\n'] + reste) == l,
{
    texte::loi_coupe_se_relit(l, '\n', reste);
    texte::loi_coupe_au_premier(l, '\n');
}

/// A text has a line for each line feed that something follows, and one more
/// unless it is empty.
pub proof fn loi_nombre_de_lignes(s: Seq<char>, c: char)
    ensures
        nb_lignes(Seq::empty()) == 0,
        nb_lignes(seq![c]) == 1,
        s.len() > 0 ==> nb_lignes(s.push(c)) == nb_lignes(s) + if s.last() == '\n' {
            1int
        } else {
            0int
        },
{
    assert(s.push(c).drop_last() =~= s);
    assert(seq![c].drop_last() =~= Seq::<char>::empty());
    assert(nb_lignes(Seq::<char>::empty()) == 0);
}

/// What opening a channel asks for: to be in it, and its last hundred messages.
pub proof fn loi_ouverture(avant: Fil, apres: Fil, channel: ChannelId)
    requires
        ouvert(avant, apres, channel),
    ensures
        demandes(channel).len() == 2,
        demandes(channel)[0] == Effet::Envoyer(ClientMsg::Join { channel }),
        demandes(channel)[1] == Effet::Envoyer(ClientMsg::History { limit: 100 }),
        apres.current == Some(channel) && apres.messages@.len() == 0 && apres.history_more,
        !apres.history_pending && apres.retour_present is None && apres.focus_input,
{
}

/// The past is asked for while there is some, once at a time, and never before
/// something is shown.
pub proof fn loi_passe_a_demander(s: Session)
    ensures
        s.a_remonter() <==> s.fil.history_more && !s.fil.history_pending && s.fil.messages@.len() > 0
            && s.fil.current is Some,
{
}

} // verus!
