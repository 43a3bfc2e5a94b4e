//! The voice: going in and out, when the microphone speaks, and how the bit
//! rate follows the network.

use crate::brouillons::VoicePrompt;
use crate::protocole::{ChannelId, ClientMsg};
use crate::roster::meme_salon;
use crate::session::{somme, Effet, Session, Son, Vocal};
use crate::texte;
use vstd::prelude::*;

verus! {

// ---------------------------------------------------------------------
// How the microphone opens
// ---------------------------------------------------------------------

#[derive(Debug, Clone, Copy, PartialEq, Eq, Structural)]
pub enum MicMode {
    Open,
    Ptt,
    Vad,
}

impl MicMode {
    pub open spec fn libelle(self) -> Seq<char> {
        match self {
            MicMode::Open => "Micro ouvert"@,
            MicMode::Ptt => "Push-to-talk"@,
            MicMode::Vad => "Activation vocale"@,
        }
    }

    pub open spec fn nom(self) -> Seq<char> {
        match self {
            MicMode::Open => "open"@,
            MicMode::Ptt => "ptt"@,
            MicMode::Vad => "vad"@,
        }
    }

    pub fn label(self) -> (r: &'static str)
        ensures
            r@ == self.libelle(),
    {
        match self {
            MicMode::Open => "Micro ouvert",
            MicMode::Ptt => "Push-to-talk",
            MicMode::Vad => "Activation vocale",
        }
    }

    /// The name under which the mode is stored.
    pub fn id(self) -> (r: &'static str)
        ensures
            r@ == self.nom(),
    {
        match self {
            MicMode::Open => "open",
            MicMode::Ptt => "ptt",
            MicMode::Vad => "vad",
        }
    }

    /// The mode stored under a name; push-to-talk where there is none.
    pub open spec fn nomme(s: Seq<char>) -> MicMode {
        if s == "open"@ {
            MicMode::Open
        } else if s == "vad"@ {
            MicMode::Vad
        } else {
            MicMode::Ptt
        }
    }

    pub fn depuis(s: &str) -> (r: MicMode)
        ensures
            r == MicMode::nomme(s@),
    {
        if texte::egal(s, "open") {
            MicMode::Open
        } else if texte::egal(s, "vad") {
            MicMode::Vad
        } else {
            MicMode::Ptt
        }
    }
}

/// A mode is read back from the name under which it was stored.
pub proof fn loi_mode_se_relit(m: MicMode)
    ensures
        MicMode::nomme(m.nom()) == m,
{
    reveal_strlit("open");
    reveal_strlit("ptt");
    reveal_strlit("vad");
    assert("open"@[0] == 'o');
    assert("ptt"@[0] == 'p');
    assert("vad"@[0] == 'v');
}

impl Session {
    /// The microphone may speak: it is not muted, there is a voice channel,
    /// and the mode lets it.
    pub open spec fn arme(self, mode: MicMode, touche: bool) -> bool {
        !self.vocal.muted && self.vocal.salon is Some && (mode != MicMode::Ptt || touche)
    }

    /// Decides whether the microphone may speak. The answer is pushed to the
    /// engine every time, and not on a change alone.
    pub fn armer(&mut self, mode: MicMode, touche: bool) -> (r: bool)
        ensures
            r == old(self).arme(mode, touche),
            *final(self) == (Session {
                vocal: Vocal { armed: r, ..old(self).vocal },
                ..*old(self)
            }),
    {
        let r: bool = !self.vocal.muted && self.vocal.salon.is_some() && match mode {
            MicMode::Open | MicMode::Vad => true,
            MicMode::Ptt => touche,
        };
        self.vocal.armed = r;
        r
    }

    /// Follows what the engine really sends, and tells the others when that
    /// changes.
    pub fn emettre(&mut self, sending: bool) -> (effets: Vec<Effet>)
        ensures
            *final(self) == (Session {
                vocal: Vocal { transmitting: sending, ..old(self).vocal },
                ..*old(self)
            }),
            effets@ == if sending != old(self).vocal.transmitting {
                seq![
                    Effet::Envoyer(
                        ClientMsg::VoiceState { speaking: sending, muted: old(self).vocal.muted },
                    ),
                ]
            } else {
                Seq::empty()
            },
    {
        let mut effets: Vec<Effet> = Vec::new();
        if sending != self.vocal.transmitting {
            self.vocal.transmitting = sending;
            effets.push(
                Effet::Envoyer(
                    ClientMsg::VoiceState { speaking: sending, muted: self.vocal.muted },
                ),
            );
        }
        effets
    }

    /// The microphone button: mutes or unmutes, in a voice channel only, and
    /// tells the others at once.
    pub fn basculer_micro(&mut self) -> (effets: Vec<Effet>)
        ensures
            if old(self).vocal.salon is None {
                *final(self) == *old(self) && effets@.len() == 0
            } else {
                let muted = !old(self).vocal.muted;
                &&& *final(self) == (Session {
                    vocal: Vocal { muted, ..old(self).vocal },
                    ..*old(self)
                })
                &&& effets@ == seq![
                    Effet::Son(
                        if muted {
                            Son::Mute
                        } else {
                            Son::Unmute
                        },
                    ),
                    Effet::Envoyer(
                        ClientMsg::VoiceState { speaking: old(self).vocal.transmitting, muted },
                    ),
                ]
            },
    {
        let mut effets: Vec<Effet> = Vec::new();
        if self.vocal.salon.is_none() {
            return effets;
        }
        let muted: bool = !self.vocal.muted;
        self.vocal.muted = muted;
        effets.push(
            Effet::Son(
                if muted {
                    Son::Mute
                } else {
                    Son::Unmute
                },
            ),
        );
        effets.push(
            Effet::Envoyer(ClientMsg::VoiceState { speaking: self.vocal.transmitting, muted }),
        );
        effets
    }
}

/// Outside of a voice channel, and while muted, the microphone never speaks,
/// whatever the mode and the key.
pub proof fn loi_micro_ferme(s: Session, mode: MicMode, touche: bool)
    ensures
        s.vocal.salon is None ==> !s.arme(mode, touche),
        s.vocal.muted ==> !s.arme(mode, touche),
        mode == MicMode::Ptt && !touche ==> !s.arme(mode, touche),
{
}

// ---------------------------------------------------------------------
// Going in and out
// ---------------------------------------------------------------------

/// How long the server has to confirm what was asked of it, in milliseconds.
pub const DELAI_INTENTION: u64 = 3000;

/// Something was asked of the server.
pub open spec fn voulue(v: Vocal, salon: Option<ChannelId>, maintenant: u64) -> Vocal {
    Vocal {
        intention: Some(salon),
        intention_jusqu_a: somme(maintenant, DELAI_INTENTION),
        ..v
    }
}

/// What leaving the voice leaves.
pub open spec fn sortie(
    avant: Session,
    apres: Session,
    effets: Seq<Effet>,
    maintenant: u64,
) -> bool {
    &&& apres == (Session { vocal: apres.vocal, ..avant })
    &&& if avant.vocal.salon is None {
        &&& apres.vocal == voulue(avant.vocal, None, maintenant)
        &&& effets.len() == 0
    } else {
        &&& apres.vocal == (Vocal {
            salon: None,
            armed: false,
            transmitting: false,
            voisins: apres.vocal.voisins,
            ..voulue(avant.vocal, None, maintenant)
        })
        &&& apres.vocal.voisins@.len() == 0
        &&& effets == seq![
            Effet::Son(Son::SelfLeave),
            Effet::Envoyer(ClientMsg::LeaveVoice),
        ]
    }
}

/// What going into a voice channel leaves.
pub open spec fn entree(
    avant: Session,
    apres: Session,
    effets: Seq<Effet>,
    channel: ChannelId,
    maintenant: u64,
) -> bool {
    if avant.vocal.salon == Some(channel) {
        apres == avant && effets.len() == 0
    } else if !avant.moi.pouvoirs.connect_voice {
        &&& apres == (Session { error: apres.error, ..avant })
        &&& texte::vue(apres.error) == Some("tu n'as pas le droit de rejoindre le vocal"@)
        &&& effets.len() == 0
    } else {
        &&& apres == (Session { vocal: apres.vocal, ..avant })
        &&& apres.vocal == (Vocal {
            salon: Some(channel),
            voisins: apres.vocal.voisins,
            salon_des_voisins: None,
            ..voulue(avant.vocal, Some(channel), maintenant)
        })
        &&& apres.vocal.voisins@.len() == 0
        &&& effets == seq![
            Effet::Son(Son::SelfJoin),
            Effet::Envoyer(ClientMsg::JoinVoice { channel, password: None }),
        ]
    }
}

impl Session {
    /// Says what is wanted of the voice, and leaves the server the time to
    /// confirm it.
    pub fn set_voice_intent(&mut self, want: Option<ChannelId>, maintenant: u64)
        ensures
            *final(self) == (Session {
                vocal: voulue(old(self).vocal, want, maintenant),
                ..*old(self)
            }),
    {
        self.vocal.intention = Some(want);
        self.vocal.intention_jusqu_a = if maintenant <= u64::MAX - DELAI_INTENTION {
            maintenant + DELAI_INTENTION
        } else {
            u64::MAX
        };
    }

    /// Goes into a voice channel, or into another one. It shows at once, and
    /// awaits the server's word.
    pub fn join_voice(&mut self, channel: ChannelId, maintenant: u64) -> (effets: Vec<Effet>)
        ensures
            entree(*old(self), *final(self), effets@, channel, maintenant),
    {
        let mut effets: Vec<Effet> = Vec::new();
        if meme_salon(self.vocal.salon, Some(channel)) {
            return effets;
        }
        if !self.moi.pouvoirs.connect_voice {
            self.error = Some("tu n'as pas le droit de rejoindre le vocal".to_owned());
            return effets;
        }
        self.vocal.salon = Some(channel);
        self.set_voice_intent(Some(channel), maintenant);
        effets.push(Effet::Son(Son::SelfJoin));
        self.vocal.salon_des_voisins = None;
        self.vocal.voisins = Vec::new();
        effets.push(Effet::Envoyer(ClientMsg::JoinVoice { channel, password: None }));
        assert(effets@ =~= seq![
            Effet::Son(Son::SelfJoin),
            Effet::Envoyer(ClientMsg::JoinVoice { channel, password: None }),
        ]);
        effets
    }

    /// Leaves the voice, and not the server.
    pub fn leave_voice(&mut self, maintenant: u64) -> (effets: Vec<Effet>)
        ensures
            sortie(*old(self), *final(self), effets@, maintenant),
    {
        let mut effets: Vec<Effet> = Vec::new();
        self.set_voice_intent(None, maintenant);
        if self.vocal.salon.is_none() {
            return effets;
        }
        self.vocal.salon = None;
        self.vocal.armed = false;
        self.vocal.transmitting = false;
        effets.push(Effet::Son(Son::SelfLeave));
        self.vocal.voisins = Vec::new();
        effets.push(Effet::Envoyer(ClientMsg::LeaveVoice));
        assert(effets@ =~= seq![
            Effet::Son(Son::SelfLeave),
            Effet::Envoyer(ClientMsg::LeaveVoice),
        ]);
        effets
    }

    /// Sends the password that was typed for a locked voice channel. It is an
    /// entry like any other: it shows at once.
    pub fn envoyer_mot_de_passe(&mut self, maintenant: u64) -> (effets: Vec<Effet>)
        ensures
            match old(self).voice_prompt {
                None => *final(self) == *old(self) && effets@.len() == 0,
                Some(p) => {
                    &&& *final(self) == (Session {
                        voice_prompt: None,
                        vocal: Vocal {
                            salon: Some(p.channel),
                            ..voulue(old(self).vocal, Some(p.channel), maintenant)
                        },
                        ..*old(self)
                    })
                    &&& effets@ == seq![
                        Effet::Envoyer(
                            ClientMsg::JoinVoice { channel: p.channel, password: Some(p.password) },
                        ),
                    ]
                },
            },
    {
        let mut effets: Vec<Effet> = Vec::new();
        let prompt: Option<VoicePrompt> = self.voice_prompt.take();
        if let Some(p) = prompt {
            self.vocal.salon = Some(p.channel);
            self.set_voice_intent(Some(p.channel), maintenant);
            effets.push(
                Effet::Envoyer(
                    ClientMsg::JoinVoice { channel: p.channel, password: Some(p.password) },
                ),
            );
        }
        effets
    }
}

/// What was just asked for is not undone by a list that was drawn up before it
/// was: until the delay is over, going in shows, and so does leaving.
pub proof fn loi_clic_respecte(
    v: Vocal,
    salon: Option<ChannelId>,
    vieux: Option<ChannelId>,
    clic: u64,
    maintenant: u64,
)
    requires
        v.salon == salon,
        clic <= maintenant,
        maintenant < clic + DELAI_INTENTION,
        clic + DELAI_INTENTION <= u64::MAX,
    ensures
        crate::roster::presence(voulue(v, salon, clic), vieux, maintenant).salon == salon,
{
}

// ---------------------------------------------------------------------
// The bit rate
// ---------------------------------------------------------------------

/// The bit rates on offer.
pub const BITRATES: [i32; 6] = [24_000, 32_000, 48_000, 64_000, 96_000, 128_000];

/// What the server said of our losses: which of the thresholds they pass.
#[derive(Debug, Clone, Copy, PartialEq, Eq, Structural)]
pub struct Pertes {
    /// Over five per cent.
    pub plus_de_cinq: bool,
    /// Over two per cent.
    pub plus_de_deux: bool,
    /// Under one per cent.
    pub moins_de_un: bool,
    /// Under half a per cent.
    pub moins_de_demi: bool,
}

/// The bit rate and the protection against losses, as they are driven.
#[derive(Debug, Clone, Copy, PartialEq, Eq, Structural)]
pub struct Debit {
    /// The bit rate that was chosen; zero to have it driven.
    pub bitrate: i32,
    pub auto_bitrate: i32,
    /// How many clean reports came in a row.
    pub good_reports: u8,
    /// The protection: off, automatic, or always on.
    pub dred_mode: u8,
    pub dred_active: bool,
}

/// The place of a bit rate in [`BITRATES`]; that of 64 kbit/s for any other.
pub open spec fn cran(b: i32) -> int {
    if b == 24_000 {
        0
    } else if b == 32_000 {
        1
    } else if b == 48_000 {
        2
    } else if b == 96_000 {
        4
    } else if b == 128_000 {
        5
    } else {
        3
    }
}

/// What a report makes of the protection.
pub open spec fn protege(d: Debit, p: Pertes) -> bool {
    if d.dred_mode != 1 {
        d.dred_active
    } else if p.plus_de_deux {
        true
    } else if p.moins_de_demi && d.good_reports >= 2 {
        false
    } else {
        d.dred_active
    }
}

/// What a report makes of the bit rate and of the count of clean reports.
pub open spec fn pilote(d: Debit, p: Pertes) -> (i32, u8) {
    let propres: u8 = if d.good_reports < 255 {
        (d.good_reports + 1) as u8
    } else {
        255
    };
    if p.plus_de_cinq {
        if d.bitrate == 0 && cran(d.auto_bitrate) > 0 {
            (BITRATES[cran(d.auto_bitrate) - 1], 0)
        } else {
            (d.auto_bitrate, 0)
        }
    } else if p.moins_de_un {
        if d.bitrate == 0 && propres >= 3 && d.auto_bitrate < 64_000 {
            (
                if BITRATES[cran(d.auto_bitrate) + 1] < 64_000 {
                    BITRATES[cran(d.auto_bitrate) + 1]
                } else {
                    64_000
                },
                0,
            )
        } else {
            (d.auto_bitrate, propres)
        }
    } else {
        (d.auto_bitrate, 0)
    }
}

/// What a report leaves.
pub open spec fn apres_rapport(d: Debit, p: Pertes) -> Debit {
    Debit {
        auto_bitrate: pilote(d, p).0,
        good_reports: pilote(d, p).1,
        dred_active: protege(d, p),
        ..d
    }
}

/// What reports leave, one after the other.
pub open spec fn apres_rapports(d: Debit, s: Seq<Pertes>) -> Debit
    decreases s.len(),
{
    if s.len() == 0 {
        d
    } else {
        apres_rapport(apres_rapports(d, s.drop_last()), s.last())
    }
}

fn trouver_cran(b: i32) -> (r: usize)
    ensures
        r == cran(b),
{
    if b == 24_000 {
        0
    } else if b == 32_000 {
        1
    } else if b == 48_000 {
        2
    } else if b == 96_000 {
        4
    } else if b == 128_000 {
        5
    } else {
        3
    }
}

impl Debit {
    /// A driven bit rate is one of those on offer, and 64 kbit/s at most.
    pub open spec fn valide(self) -> bool {
        exists|k: int| 0 <= k <= 3 && self.auto_bitrate == #[trigger] BITRATES[k]
    }

    /// The bit rate in force: the chosen one, or the driven one.
    pub fn effective_bitrate(&self) -> (r: i32)
        ensures
            r == if self.bitrate == 0 {
                self.auto_bitrate
            } else {
                self.bitrate
            },
    {
        if self.bitrate == 0 {
            self.auto_bitrate
        } else {
            self.bitrate
        }
    }

    /// The protection in force, where `plein` is its strength when it is on.
    pub fn dred(&self, plein: i32) -> (r: i32)
        ensures
            r == if self.dred_mode == 2 || (self.dred_mode != 0 && self.dred_active) {
                plein
            } else {
                0
            },
    {
        match self.dred_mode {
            0 => 0,
            2 => plein,
            _ => if self.dred_active {
                plein
            } else {
                0
            },
        }
    }

    /// A report on our losses came. A bit rate that is driven falls by a notch
    /// over five per cent, and climbs back by one after three clean reports in a
    /// row, to 64 kbit/s at most. Automatic protection comes on over two per
    /// cent, and goes after three clean reports. Returns whether the engine has to be told.
    pub fn on_net_quality(&mut self, p: Pertes) -> (r: bool)
        ensures
            *final(self) == apres_rapport(*old(self), p),
            r == (protege(*old(self), p) != old(self).dred_active || pilote(*old(self), p).0
                != old(self).auto_bitrate),
    {
        let mut dire: bool = false;
        if self.dred_mode == 1 {
            let avant: bool = self.dred_active;
            if p.plus_de_deux {
                self.dred_active = true;
            } else if p.moins_de_demi && self.good_reports >= 2 {
                self.dred_active = false;
            }
            if avant != self.dred_active {
                dire = true;
            }
        }
        let idx: usize = trouver_cran(self.auto_bitrate);
        if p.plus_de_cinq {
            self.good_reports = 0;
            if self.bitrate == 0 && idx > 0 {
                let avant: i32 = self.auto_bitrate;
                self.auto_bitrate = BITRATES[idx - 1];
                if self.auto_bitrate != avant {
                    dire = true;
                }
            }
        } else if p.moins_de_un {
            if self.good_reports < 255 {
                self.good_reports = self.good_reports + 1;
            }
            if self.bitrate == 0 && self.good_reports >= 3 && self.auto_bitrate < 64_000 {
                let avant: i32 = self.auto_bitrate;
                let suivant: i32 = BITRATES[idx + 1];
                self.auto_bitrate = if suivant < 64_000 {
                    suivant
                } else {
                    64_000
                };
                self.good_reports = 0;
                if self.auto_bitrate != avant {
                    dire = true;
                }
            }
        } else {
            self.good_reports = 0;
        }
        dire
    }
}

/// A driven bit rate always stays one of those on offer, and at most 64 kbit/s.
pub proof fn loi_debit_reste_valide(d: Debit, p: Pertes)
    requires
        d.valide(),
    ensures
        (Debit { auto_bitrate: pilote(d, p).0, ..d }).valide(),
{
    let k = choose|k: int| 0 <= k <= 3 && d.auto_bitrate == #[trigger] BITRATES[k];
    assert(cran(d.auto_bitrate) == k);
    assert(BITRATES[0] == 24_000);
    assert(BITRATES[3] == 64_000);
    if k > 0 {
        assert(BITRATES[k - 1] <= 64_000);
    }
    if k < 3 {
        assert(BITRATES[k + 1] <= 64_000);
    }
}

/// A bit rate that was chosen by hand is never driven.
pub proof fn loi_debit_choisi(d: Debit, p: Pertes)
    requires
        d.bitrate != 0,
    ensures
        apres_rapport(d, p).auto_bitrate == d.auto_bitrate,
        apres_rapport(d, p).bitrate == d.bitrate,
{
}

/// Whatever the count of clean reports was, a report over five per cent leaves
/// it at zero, and so does any other that is not clean.
pub proof fn loi_perte_recommence(d: Debit, p: Pertes)
    ensures
        p.plus_de_cinq ==> apres_rapport(d, p).good_reports == 0,
        !p.moins_de_un ==> apres_rapport(d, p).good_reports == 0,
{
}

/// A clean report.
pub open spec fn propre(p: Pertes) -> bool {
    p.moins_de_un && !p.plus_de_cinq
}

/// Three clean reports in a row lift a lowered bit rate by one notch, where the
/// count starts from zero.
pub proof fn loi_trois_rapports_propres(d: Debit, p: Pertes, q: Pertes, r: Pertes)
    requires
        d.valide(),
        d.bitrate == 0,
        d.auto_bitrate < 64_000,
        d.good_reports == 0,
        propre(p),
        propre(q),
        propre(r),
    ensures
        ({
            let d1 = apres_rapport(d, p);
            let d2 = apres_rapport(d1, q);
            &&& d1.auto_bitrate == d.auto_bitrate
            &&& d2.auto_bitrate == d.auto_bitrate
            &&& apres_rapport(d2, r).auto_bitrate == BITRATES[cran(d.auto_bitrate) + 1]
        }),
{
    let k = choose|k: int| 0 <= k <= 3 && d.auto_bitrate == #[trigger] BITRATES[k];
    assert(cran(d.auto_bitrate) == k);
    assert(k < 3);
    assert(BITRATES[k + 1] <= 64_000);
}

/// The count starts over somewhere: it is zero, or the first report makes it so.
pub open spec fn recommence(d: Debit, s: Seq<Pertes>) -> bool {
    d.good_reports == 0 || (s.len() > 0 && s[0].plus_de_cinq)
}

proof fn lemme_compte(d: Debit, s: Seq<Pertes>)
    requires
        recommence(d, s),
        d.valide(),
    ensures
        apres_rapports(d, s).valide(),
        apres_rapports(d, s).bitrate == d.bitrate,
        s.len() > 0 || d.good_reports == 0 ==> apres_rapports(d, s).good_reports <= s.len(),
        s.len() > 0 || d.good_reports == 0 ==> forall|i: int|
            s.len() - apres_rapports(d, s).good_reports <= i < s.len() ==> propre(#[trigger] s[i]),
    decreases s.len(),
{
    if s.len() > 0 {
        let t = s.drop_last();
        let a = apres_rapports(d, t);
        if t.len() > 0 || d.good_reports == 0 {
            lemme_compte(d, t);
            assert forall|i: int|
                s.len() - apres_rapports(d, s).good_reports <= i < s.len() implies propre(
                #[trigger] s[i],
            ) by {
                if i < t.len() {
                    assert(t[i] == s[i]);
                }
            }
        } else {
            assert(a == d);
            assert(s.last() == s[0]);
        }
        loi_debit_reste_valide(a, s.last());
        let b = Debit { auto_bitrate: pilote(a, s.last()).0, ..a };
        let k = choose|k: int| 0 <= k <= 3 && b.auto_bitrate == #[trigger] BITRATES[k];
        assert(apres_rapports(d, s).auto_bitrate == BITRATES[k]);
    }
}

/// The bit rate never climbs before three clean reports in a row: whatever the
/// count was before a report over five per cent, and whatever came since, a
/// report that lifts the bit rate is clean and so are the two before it.
pub proof fn loi_remontee_meritee(d: Debit, s: Seq<Pertes>)
    requires
        d.valide(),
        s.len() > 0,
        recommence(d, s),
        apres_rapports(d, s).auto_bitrate > apres_rapports(d, s.drop_last()).auto_bitrate,
    ensures
        s.len() >= 3,
        propre(s[s.len() - 1]),
        propre(s[s.len() - 2]),
        propre(s[s.len() - 3]),
{
    let t = s.drop_last();
    let a = apres_rapports(d, t);
    if t.len() > 0 || d.good_reports == 0 {
        lemme_compte(d, t);
    } else {
        assert(a == d);
        assert(s.last() == s[0]);
    }
    let k = choose|k: int| 0 <= k <= 3 && a.auto_bitrate == #[trigger] BITRATES[k];
    assert(cran(a.auto_bitrate) == k);
    assert(a.good_reports >= 2 && propre(s.last()));
    assert(propre(t[t.len() - 1]) && propre(t[t.len() - 2]));
    assert(t[t.len() - 1] == s[s.len() - 2]);
    assert(t[t.len() - 2] == s[s.len() - 3]);
}

/// Whatever the bit rate and whoever chose it, three reports in a row under half
/// a per cent turn automatic protection off, if they did not before.
pub proof fn loi_protection_relachee(d: Debit, p: Pertes, q: Pertes, r: Pertes)
    requires
        d.dred_mode == 1,
        propre(p) && p.moins_de_demi && !p.plus_de_deux,
        propre(q) && q.moins_de_demi && !q.plus_de_deux,
        propre(r) && r.moins_de_demi && !r.plus_de_deux,
    ensures
        !apres_rapport(apres_rapport(apres_rapport(d, p), q), r).dred_active,
{
}

/// The microphone speaks in a voice channel, unmuted, in any mode but
/// push-to-talk, and there as long as the key is held; never otherwise.
pub proof fn loi_micro_ouvert(s: Session, mode: MicMode, touche: bool, salon: ChannelId)
    ensures
        s.vocal.salon == Some(salon) && !s.vocal.muted && mode == MicMode::Open ==> s.arme(
            mode,
            touche,
        ),
        s.vocal.salon == Some(salon) && !s.vocal.muted && mode == MicMode::Vad ==> s.arme(
            mode,
            touche,
        ),
        s.vocal.salon == Some(salon) && !s.vocal.muted && mode == MicMode::Ptt ==> s.arme(
            mode,
            touche,
        ) == touche,
        s.vocal.salon is None || s.vocal.muted ==> !s.arme(mode, touche),
{
}

/// An order stands for three seconds, and changes nothing else.
pub proof fn loi_ordre_donne(v: Vocal, salon: Option<ChannelId>, maintenant: u64)
    requires
        maintenant <= u64::MAX - 3000,
    ensures
        voulue(v, salon, maintenant).intention == Some(salon),
        voulue(v, salon, maintenant).intention_jusqu_a == maintenant + 3000,
        voulue(v, salon, maintenant).salon == v.salon,
        voulue(v, salon, maintenant).muted == v.muted,
        voulue(v, salon, maintenant).voisins == v.voisins,
{
}

/// Going into another voice channel shows at once, is asked of the server and is
/// heard; one who may not stays out and is told; nothing is asked again of the
/// channel that we are in.
pub proof fn loi_entree(
    avant: Session,
    apres: Session,
    effets: Seq<Effet>,
    channel: ChannelId,
    maintenant: u64,
)
    requires
        entree(avant, apres, effets, channel, maintenant),
    ensures
        avant.vocal.salon != Some(channel) && avant.moi.pouvoirs.connect_voice ==> {
            &&& apres.vocal.salon == Some(channel)
            &&& apres.vocal.intention == Some(Some(channel))
            &&& apres.vocal.voisins@.len() == 0 && apres.vocal.salon_des_voisins is None
            &&& effets.len() == 2
            &&& effets[0] == Effet::Son(Son::SelfJoin)
            &&& effets[1] == Effet::Envoyer(ClientMsg::JoinVoice { channel, password: None })
            &&& texte::vue(apres.error) == texte::vue(avant.error)
        },
        avant.vocal.salon != Some(channel) && !avant.moi.pouvoirs.connect_voice ==> apres.vocal
            == avant.vocal && effets.len() == 0 && apres.error is Some,
        avant.vocal.salon == Some(channel) ==> apres == avant && effets.len() == 0,
        apres.vocal.muted == avant.vocal.muted && apres.fil == avant.fil,
{
}

/// Leaving the voice shows at once, closes the microphone, is told to the server
/// and is heard; outside of the voice there is nothing to tell. Either way the
/// order to be out stands.
pub proof fn loi_sortie(avant: Session, apres: Session, effets: Seq<Effet>, maintenant: u64)
    requires
        sortie(avant, apres, effets, maintenant),
    ensures
        apres.vocal.salon is None,
        apres.vocal.intention == Some(None::<ChannelId>),
        avant.vocal.salon is Some ==> {
            &&& !apres.vocal.armed && !apres.vocal.transmitting
            &&& apres.vocal.voisins@.len() == 0
            &&& effets.len() == 2
            &&& effets[0] == Effet::Son(Son::SelfLeave)
            &&& effets[1] == Effet::Envoyer(ClientMsg::LeaveVoice)
        },
        avant.vocal.salon is None ==> effets.len() == 0,
        apres.vocal.muted == avant.vocal.muted && apres.fil == avant.fil && apres.moi == avant.moi,
{
}

/// A driven bit rate falls by exactly one notch at a report over five per cent,
/// down to the lowest, at no other report, and it climbs by one at most.
pub proof fn loi_debit_un_cran_a_la_fois(d: Debit, p: Pertes, k: int)
    requires
        d.bitrate == 0,
        0 <= k <= 3,
        d.auto_bitrate == BITRATES[k],
    ensures
        p.plus_de_cinq && k > 0 ==> apres_rapport(d, p).auto_bitrate == BITRATES[k - 1],
        p.plus_de_cinq && k == 0 ==> apres_rapport(d, p).auto_bitrate == 24_000,
        !p.plus_de_cinq ==> apres_rapport(d, p).auto_bitrate == BITRATES[k] || (p.moins_de_un && k
            < 3 && d.good_reports >= 2 && apres_rapport(d, p).auto_bitrate == BITRATES[k + 1]),
        !p.plus_de_cinq && p.moins_de_un && k < 3 && d.good_reports >= 2 ==> apres_rapport(
            d,
            p,
        ).auto_bitrate == BITRATES[k + 1],
{
    assert(cran(d.auto_bitrate) == k);
}

/// A clean report adds one to the count, up to 255, unless it lifts the bit rate,
/// which starts it over.
pub proof fn loi_rapport_propre_compte(d: Debit, p: Pertes)
    requires
        p.moins_de_un && !p.plus_de_cinq,
    ensures
        apres_rapport(d, p).auto_bitrate == d.auto_bitrate && d.good_reports < 255 && (d.bitrate
            != 0 || d.auto_bitrate >= 64_000 || d.good_reports < 2) ==> apres_rapport(
            d,
            p,
        ).good_reports == d.good_reports + 1,
        d.bitrate == 0 && d.auto_bitrate < 64_000 && d.good_reports >= 2 ==> apres_rapport(
            d,
            p,
        ).good_reports == 0,
{
}

/// Automatic protection comes on over two per cent, whatever the bit rate, and
/// goes only under half a per cent after two clean reports; one that was chosen,
/// on or off, is left alone.
pub proof fn loi_protection(d: Debit, p: Pertes)
    ensures
        d.dred_mode == 1 && p.plus_de_deux ==> apres_rapport(d, p).dred_active,
        d.dred_mode == 1 && d.dred_active && !apres_rapport(d, p).dred_active ==> p.moins_de_demi
            && !p.plus_de_deux && d.good_reports >= 2,
        d.dred_mode == 1 && p.moins_de_demi && !p.plus_de_deux && d.good_reports >= 2
            ==> !apres_rapport(d, p).dred_active,
        !d.dred_active && !p.plus_de_deux ==> !apres_rapport(d, p).dred_active,
        d.dred_mode != 1 ==> apres_rapport(d, p).dred_active == d.dred_active,
        apres_rapport(d, p).dred_mode == d.dred_mode,
{
}

} // verus!
