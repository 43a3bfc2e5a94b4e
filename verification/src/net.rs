//! The connection and what hangs on it: the voice engine, which outlives a
//! cut, and the frames of a screen share on their way out.

use crate::protocole::StreamMeta;
use vstd::prelude::*;

verus! {

/// The voice identity that the server gave: the account, and the key that its
/// process drew when it started.
#[derive(Debug, Clone, Copy, PartialEq, Eq)]
pub struct VoiceParams {
    pub user_id: u64,
    pub key: [u8; 32],
}

/// What is shown to the server when connecting.
#[derive(Debug)]
pub struct Credentials {
    pub username: String,
    pub password: String,
    pub invite: Option<String>,
    /// The fingerprint of the certificate that earlier connections saw. Empty
    /// where this server is not known yet.
    pub fingerprint: String,
}

/// The fingerprint to hold the server to, where one is known.
pub fn empreinte_connue(c: &Credentials) -> (r: Option<&str>)
    ensures
        match r {
            Some(e) => e@ == c.fingerprint@ && e@.len() > 0,
            None => c.fingerprint@.len() == 0,
        },
{
    if c.fingerprint.as_str().is_empty() {
        None
    } else {
        Some(c.fingerprint.as_str())
    }
}

// ---------------------------------------------------------------------
// The voice engine
// ---------------------------------------------------------------------

/// What survives a cut: the voice engine and what it hangs on. A connection
/// that dies does not take the sound with it.
#[derive(Debug)]
pub struct VoiceLink {
    /// An engine runs, and holds the devices open.
    pub moteur: bool,
    /// The voice identity of the last welcome.
    pub params: Option<VoiceParams>,
    /// A connection is up.
    pub connexion: bool,
    /// Incoming packets have somewhere to go.
    pub aiguillage: bool,
    /// The token of the latest start of the engine. Only its bearer may
    /// install the engine that it started.
    pub generation: u64,
}

/// What a restart does next.
#[derive(Debug, Clone, Copy, PartialEq, Eq)]
pub enum Redemarrage {
    /// Give up: there is no voice identity, or a newer start has passed.
    Renoncer,
    /// Stop the engine that was taken out, if any, and ask again.
    Arreter { ancien: bool },
    /// Start an engine with this identity.
    Demarrer(VoiceParams),
}

/// What a welcome asks of the engine.
#[derive(Debug, Clone, Copy, PartialEq, Eq)]
pub enum Accueil {
    /// The key was not one.
    CleInvalide,
    /// The engine in place will do.
    Conserver,
    /// Stop the engine that was taken out, if any, and start another.
    Refaire { ancien: bool, params: VoiceParams },
}

fn memes_params(a: &VoiceParams, b: &VoiceParams) -> (r: bool)
    ensures
        r == (a.user_id == b.user_id && a.key@ == b.key@),
{
    if a.user_id != b.user_id {
        return false;
    }
    let mut i: usize = 0;
    while i < 32
        invariant
            i <= 32,
            forall|j: int| 0 <= j < i ==> a.key@[j] == b.key@[j],
        decreases 32 - i,
    {
        if a.key[i] != b.key[i] {
            assert(a.key@[i as int] != b.key@[i as int]);
            return false;
        }
        i += 1;
    }
    assert(a.key@ =~= b.key@);
    true
}

impl VoiceLink {
    /// Packets always have somewhere to go while an engine runs: the two are
    /// installed together.
    pub open spec fn coherent(self) -> bool {
        self.moteur ==> self.aiguillage
    }

    /// The bearer of this token may install the engine that it started.
    pub open spec fn accepte(self, jeton: u64) -> bool {
        self.generation == jeton
    }

    pub fn new() -> (r: Self)
        ensures
            !r.moteur && r.params is None && !r.connexion && !r.aiguillage && r.generation == 0,
            r.coherent(),
    {
        VoiceLink {
            moteur: false,
            params: None,
            connexion: false,
            aiguillage: false,
            generation: 0,
        }
    }

    /// Stops for good. Starts on their way are invalidated first. Returns
    /// whether there is an engine to shut down.
    pub fn arreter(&mut self) -> (r: bool)
        ensures
            r == old(self).moteur,
            *final(self) == (VoiceLink {
                moteur: false,
                params: None,
                connexion: false,
                aiguillage: false,
                generation: old(self).generation.wrapping_add(1),
            }),
            final(self).coherent(),
    {
        self.generation = self.generation.wrapping_add(1);
        self.params = None;
        self.aiguillage = false;
        self.connexion = false;
        let ancien: bool = self.moteur;
        self.moteur = false;
        ancien
    }

    /// Asks for a restart of the engine: hands out a token.
    pub fn restart_voice(&mut self) -> (jeton: u64)
        ensures
            jeton == old(self).generation.wrapping_add(1),
            *final(self) == (VoiceLink { generation: jeton, ..*old(self) }),
            old(self).coherent() ==> final(self).coherent(),
    {
        self.generation = self.generation.wrapping_add(1);
        self.generation
    }

    /// The first step of a restart: takes the engine out, unless a newer start
    /// has passed.
    pub fn retirer(&mut self, jeton: u64) -> (r: Redemarrage)
        ensures
            r == if old(self).params is None || !old(self).accepte(jeton) {
                Redemarrage::Renoncer
            } else {
                Redemarrage::Arreter { ancien: old(self).moteur }
            },
            *final(self) == (VoiceLink {
                moteur: old(self).moteur && r is Renoncer,
                ..*old(self)
            }),
            old(self).coherent() ==> final(self).coherent(),
    {
        if self.params.is_none() || self.generation != jeton {
            return Redemarrage::Renoncer;
        }
        let ancien: bool = self.moteur;
        self.moteur = false;
        Redemarrage::Arreter { ancien }
    }

    /// The second step, once the old engine has stopped: that took long enough
    /// for a newer start to have come.
    pub fn reprendre(&self, jeton: u64, params: VoiceParams) -> (r: Redemarrage)
        ensures
            r == if !self.accepte(jeton) {
                Redemarrage::Renoncer
            } else {
                Redemarrage::Demarrer(params)
            },
    {
        if self.generation != jeton {
            Redemarrage::Renoncer
        } else {
            Redemarrage::Demarrer(params)
        }
    }

    /// The last step: installs the engine and the way to it together, if the
    /// token is still the latest one. Returns whether it was.
    pub fn installer(&mut self, jeton: u64) -> (r: bool)
        ensures
            r == old(self).accepte(jeton),
            *final(self) == if r {
                VoiceLink { moteur: true, aiguillage: true, ..*old(self) }
            } else {
                *old(self)
            },
            old(self).coherent() ==> final(self).coherent(),
    {
        if self.generation != jeton {
            return false;
        }
        self.aiguillage = true;
        self.moteur = true;
        true
    }

    /// What a welcome with this voice identity leaves, and asks of the engine.
    pub open spec fn accueilli(
        self,
        apres: VoiceLink,
        user_id: u64,
        cle: Option<[u8; 32]>,
        r: Accueil,
    ) -> bool {
        let memes = match (self.params, cle) {
            (Some(p), Some(c)) => p.user_id == user_id && p.key@ == c@,
            _ => false,
        };
        match cle {
            None => r == Accueil::CleInvalide && apres == self,
            Some(c) => if memes && self.moteur {
                r == Accueil::Conserver && apres == self
            } else {
                let params = VoiceParams { user_id, key: c };
                r == (Accueil::Refaire { ancien: self.moteur, params }) && apres == (VoiceLink {
                    moteur: false,
                    params: Some(params),
                    generation: self.generation.wrapping_add(1),
                    ..self
                })
            },
        }
    }

    /// A welcome came with this voice identity. An engine that runs under the
    /// same one is kept: neither the microphone nor the output is reopened.
    pub fn accueillir(&mut self, user_id: u64, cle: Option<[u8; 32]>) -> (r: Accueil)
        ensures
            old(self).accueilli(*final(self), user_id, cle, r),
            old(self).coherent() ==> final(self).coherent(),
    {
        let key: [u8; 32] = match cle {
            Some(c) => c,
            None => return Accueil::CleInvalide,
        };
        let params: VoiceParams = VoiceParams { user_id, key };
        let memes: bool = match &self.params {
            Some(p) => memes_params(p, &params),
            None => false,
        };
        if memes && self.moteur {
            return Accueil::Conserver;
        }
        self.params = Some(params);
        self.generation = self.generation.wrapping_add(1);
        let ancien: bool = self.moteur;
        self.moteur = false;
        Accueil::Refaire { ancien, params }
    }

    /// The engine that a welcome asked for has started: it makes law.
    pub fn installer_accueil(&mut self)
        ensures
            *final(self) == (VoiceLink { moteur: true, aiguillage: true, ..*old(self) }),
            final(self).coherent(),
    {
        self.aiguillage = true;
        self.moteur = true;
    }

    /// The connection is up.
    pub fn connecter(&mut self)
        ensures
            *final(self) == (VoiceLink { connexion: true, ..*old(self) }),
    {
        self.connexion = true;
    }

    /// The connection ended, and nothing else did: the engine stays up with
    /// its devices.
    pub fn couper(&mut self)
        ensures
            *final(self) == (VoiceLink { connexion: false, ..*old(self) }),
    {
        self.connexion = false;
    }
}

impl Default for VoiceLink {
    fn default() -> (r: Self)
        ensures
            !r.moteur && r.params is None && !r.connexion && !r.aiguillage && r.generation == 0,
            r.coherent(),
    {
        Self::new()
    }
}

/// Of two starts one after the other only the second may install its engine:
/// the token of the first is refused from then on.
pub proof fn loi_dernier_jeton_seul(
    avant: VoiceLink,
    premier: u64,
    milieu: VoiceLink,
    second: u64,
    apres: VoiceLink,
)
    requires
        premier == avant.generation.wrapping_add(1),
        milieu == (VoiceLink { generation: premier, ..avant }),
        second == milieu.generation.wrapping_add(1),
        apres == (VoiceLink { generation: second, ..milieu }),
    ensures
        milieu.accepte(premier),
        !apres.accepte(premier),
        apres.accepte(second),
{
}

/// A cut does not cost the sound: after the connection broke and another let us
/// in under the same voice identity, the engine that ran still runs, and
/// nothing was reopened.
pub proof fn loi_coupure_garde_le_son(
    avant: VoiceLink,
    coupe: VoiceLink,
    revenu: VoiceLink,
    apres: VoiceLink,
    p: VoiceParams,
    r: Accueil,
)
    requires
        avant.moteur,
        avant.params == Some(p),
        coupe == (VoiceLink { connexion: false, ..avant }),
        revenu == (VoiceLink { connexion: true, ..coupe }),
        revenu.accueilli(apres, p.user_id, Some(p.key), r),
    ensures
        coupe.moteur && coupe.aiguillage == avant.aiguillage,
        r == Accueil::Conserver,
        apres == (VoiceLink { connexion: true, ..avant }),
{
}

/// After a stop for good no start that was on its way comes through.
pub proof fn loi_arret_definitif(avant: VoiceLink, apres: VoiceLink, jeton: u64)
    requires
        avant.accepte(jeton),
        apres.generation == avant.generation.wrapping_add(1),
    ensures
        !apres.accepte(jeton),
{
}

// ---------------------------------------------------------------------
// The network loop
// ---------------------------------------------------------------------

/// What the network loop wakes up for.
#[derive(Debug, Clone, Copy, PartialEq, Eq, Structural)]
pub enum Reveil {
    /// A message was to be sent; whether it was.
    Envoi { parti: bool },
    /// The application quits the connection, or is gone.
    Quitter,
    /// A message of the server came.
    Message,
    /// The server closed the stream.
    Fin,
}

/// What the network loop does next.
#[derive(Debug, Clone, Copy, PartialEq, Eq, Structural)]
pub enum Suite {
    Continuer,
    /// Hand the message on to the application.
    Transmettre,
    /// Put the connection down, say that it is lost, and end.
    Perdue,
    /// Put the connection down, close it gracefully, and end.
    Fermer,
}

/// What follows a wake-up of the network loop.
pub fn suite(r: Reveil) -> (s: Suite)
    ensures
        s == match r {
            Reveil::Envoi { parti } => if parti {
                Suite::Continuer
            } else {
                Suite::Perdue
            },
            Reveil::Quitter => Suite::Fermer,
            Reveil::Message => Suite::Transmettre,
            Reveil::Fin => Suite::Perdue,
        },
{
    match r {
        Reveil::Envoi { parti } => if parti {
            Suite::Continuer
        } else {
            Suite::Perdue
        },
        Reveil::Quitter => Suite::Fermer,
        Reveil::Message => Suite::Transmettre,
        Reveil::Fin => Suite::Perdue,
    }
}

// ---------------------------------------------------------------------
// Frames on their way out
// ---------------------------------------------------------------------

/// The header of a frame.
#[derive(Debug, Clone, Copy, PartialEq, Eq, Structural)]
pub struct MediaHeader {
    pub idr: bool,
    pub stream_id: u32,
    pub seq: u64,
    pub pts_us: u64,
    /// The group of pictures, which a key frame opens.
    pub group_id: u32,
    pub width: u16,
    pub height: u16,
}

/// Where the sending of a stream stands.
#[derive(Debug, Clone, Copy, PartialEq, Eq)]
pub struct Emetteur {
    pub stream_id: u32,
    /// The number of the next frame.
    pub seq: u64,
    pub gop: u32,
    /// The dimensions that were last announced.
    pub dims: (u16, u16),
    pub machine: u64,
    /// The next picture must be a key frame.
    pub cle_exigee: bool,
}

/// How many frames wait to leave, at most.
pub const FILE_ENVOI: usize = 2;

impl Emetteur {
    pub fn new(stream_id: u32, machine: u64) -> (r: Self)
        ensures
            r == (Emetteur {
                stream_id,
                seq: 0,
                gop: 0,
                dims: (0, 0),
                machine,
                cle_exigee: false,
            }),
    {
        Emetteur { stream_id, seq: 0, gop: 0, dims: (0, 0), machine, cle_exigee: false }
    }

    /// A frame was handed to the queue, which took it or was full. One that it
    /// did not take is lost to everyone: nothing can be decoded before the next
    /// key frame, which is asked for.
    pub fn mise_en_file(&mut self, acceptee: bool)
        ensures
            *final(self) == mise(*old(self), acceptee),
    {
        if !acceptee {
            self.cle_exigee = true;
        }
    }

    /// Whether the next picture must be a key frame. The one that asks makes it,
    /// and the demand is met.
    pub fn prendre_demande(&mut self) -> (r: bool)
        ensures
            r == old(self).cle_exigee,
            *final(self) == (Emetteur { cle_exigee: false, ..*old(self) }),
    {
        let r: bool = self.cle_exigee;
        self.cle_exigee = false;
        r
    }

    /// The header of the next frame. Numbers follow each other, and a key
    /// frame opens a group.
    pub fn en_tete(&mut self, idr: bool, pts_us: u64, width: u16, height: u16) -> (h: MediaHeader)
        ensures
            h == (MediaHeader {
                idr,
                stream_id: old(self).stream_id,
                seq: old(self).seq,
                pts_us,
                group_id: if idr {
                    old(self).gop.wrapping_add(1)
                } else {
                    old(self).gop
                },
                width,
                height,
            }),
            *final(self) == apres_trames(*old(self), seq![idr]),
    {
        proof {
            reveal_with_fuel(apres_trames, 2);
            assert(seq![idr].drop_last() =~= Seq::empty());
        }
        let seq: u64 = self.seq;
        self.seq = self.seq.wrapping_add(1);
        if idr {
            self.gop = self.gop.wrapping_add(1);
        }
        MediaHeader {
            idr,
            stream_id: self.stream_id,
            seq,
            pts_us,
            group_id: self.gop,
            width,
            height,
        }
    }

    /// What the channel must be told once a frame was sealed: its dimensions,
    /// where they changed.
    pub fn annoncer(&mut self, width: u16, height: u16) -> (r: Option<StreamMeta>)
        ensures
            r == if old(self).dims == (width, height) {
                None
            } else {
                Some(
                    StreamMeta {
                        width,
                        height,
                        fps: 30,
                        kbps: 6000,
                        machine: old(self).machine,
                    },
                )
            },
            *final(self) == (Emetteur { dims: (width, height), ..*old(self) }),
    {
        let change: bool = self.dims.0 != width || self.dims.1 != height;
        self.dims = (width, height);
        if change {
            Some(StreamMeta { width, height, fps: 30, kbps: 6000, machine: self.machine })
        } else {
            None
        }
    }
}

/// Where the sending stands once the queue took a frame or did not.
pub open spec fn mise(e: Emetteur, acceptee: bool) -> Emetteur {
    Emetteur { cle_exigee: e.cle_exigee || !acceptee, ..e }
}

/// Where the sending stands after frames that the queue took or did not.
pub open spec fn mises(e: Emetteur, acceptees: Seq<bool>) -> Emetteur
    decreases acceptees.len(),
{
    if acceptees.len() == 0 {
        e
    } else {
        mise(mises(e, acceptees.drop_last()), acceptees.last())
    }
}

/// A full queue asks for a key frame, and the demand stands until it is met;
/// while the queue takes every frame nothing is asked for. The numbers of the
/// frames go on either way.
pub proof fn loi_file_pleine_exige_une_cle(e: Emetteur, acceptees: Seq<bool>)
    ensures
        mises(e, acceptees).cle_exigee == (e.cle_exigee || acceptees.contains(false)),
        mises(e, acceptees).seq == e.seq,
        mises(e, acceptees).gop == e.gop,
    decreases acceptees.len(),
{
    if acceptees.len() > 0 {
        let avant = acceptees.drop_last();
        loi_file_pleine_exige_une_cle(e, avant);
        if avant.contains(false) {
            let i = choose|i: int| 0 <= i < avant.len() && avant[i] == false;
            assert(acceptees[i] == false);
        }
        if acceptees.contains(false) && acceptees.last() {
            let i = choose|i: int| 0 <= i < acceptees.len() && acceptees[i] == false;
            assert(avant[i] == false);
        }
    }
}

/// Where the sending stands after frames of which each is a key frame or not.
pub open spec fn apres_trames(e: Emetteur, cles: Seq<bool>) -> Emetteur
    decreases cles.len(),
{
    if cles.len() == 0 {
        e
    } else {
        let a = apres_trames(e, cles.drop_last());
        Emetteur {
            seq: a.seq.wrapping_add(1),
            gop: if cles.last() {
                a.gop.wrapping_add(1)
            } else {
                a.gop
            },
            ..a
        }
    }
}

proof fn lemme_numero(e: Emetteur, cles: Seq<bool>)
    requires
        e.seq + cles.len() <= u64::MAX,
    ensures
        apres_trames(e, cles).seq == e.seq + cles.len(),
        apres_trames(e, cles).stream_id == e.stream_id,
    decreases cles.len(),
{
    if cles.len() > 0 {
        lemme_numero(e, cles.drop_last());
    }
}

/// No two frames of a stream have the same number, whatever is sent and however
/// often the capture is started over: what seals them is never used twice.
pub proof fn loi_numeros_uniques(e: Emetteur, cles: Seq<bool>, i: int, j: int)
    requires
        0 <= i < j <= cles.len(),
        e.seq + cles.len() <= u64::MAX,
    ensures
        apres_trames(e, cles.take(i)).seq != apres_trames(e, cles.take(j)).seq,
        apres_trames(e, cles.take(i)).stream_id == apres_trames(e, cles.take(j)).stream_id,
{
    lemme_numero(e, cles.take(i));
    lemme_numero(e, cles.take(j));
}

/// The priority of the stream that carries a frame.
pub open spec fn priorite_de(seq: u64) -> int {
    if seq < 0x7fff_ffff {
        -(seq as int)
    } else {
        -0x7fff_ffff
    }
}

/// The priority of the stream that carries a frame: the older, the higher,
/// down to the least of an `i32` but one.
pub fn priorite(seq: u64) -> (r: i32)
    ensures
        r == priorite_de(seq),
{
    if seq < 0x7fff_ffff {
        let n: i32 = seq as i32;
        -n
    } else {
        -0x7fff_ffff
    }
}

/// An older frame never has a lower priority than a newer one.
pub proof fn loi_priorite_decroit(a: u64, b: u64)
    requires
        a <= b,
    ensures
        priorite_de(a) >= priorite_de(b),
{
}

/// The engine in place is kept when the voice identity is the same, number and
/// key, and else another is started under the new one, after the one in place, if
/// any, has been taken out; a key that is none changes nothing.
pub proof fn loi_accueil_de_la_voix(
    avant: VoiceLink,
    apres: VoiceLink,
    user_id: u64,
    cle: Option<[u8; 32]>,
    r: Accueil,
)
    requires
        avant.accueilli(apres, user_id, cle, r),
    ensures
        cle is None ==> r is CleInvalide && apres == avant,
        cle is Some && avant.moteur && avant.params is Some && avant.params->0.user_id == user_id
            && avant.params->0.key@ == cle->0@ ==> r is Conserver && apres == avant,
        cle is Some && !(avant.moteur && avant.params is Some && avant.params->0.user_id == user_id
            && avant.params->0.key@ == cle->0@) ==> {
            &&& r is Refaire && r->ancien == avant.moteur
            &&& r->params.user_id == user_id && r->params.key@ == cle->0@
            &&& !apres.moteur && apres.params == Some(r->params)
            &&& apres.connexion == avant.connexion
            &&& forall|jeton: u64|
                #[trigger] apres.accepte(jeton) ==> jeton == avant.generation.wrapping_add(1)
        },
{
}

/// A token is accepted when it is the latest one.
pub proof fn loi_jeton(l: VoiceLink, a: u64, b: u64)
    ensures
        l.accepte(l.generation),
        l.accepte(a) && l.accepte(b) ==> a == b,
{
}

/// A frame takes the next number, and a key frame opens the next group.
pub proof fn loi_trame_suivante(e: Emetteur, cles: Seq<bool>, cle: bool)
    ensures
        apres_trames(e, Seq::empty()) == e,
        apres_trames(e, cles.push(cle)).seq == apres_trames(e, cles).seq.wrapping_add(1),
        cle ==> apres_trames(e, cles.push(cle)).gop == apres_trames(e, cles).gop.wrapping_add(1),
        !cle ==> apres_trames(e, cles.push(cle)).gop == apres_trames(e, cles).gop,
        apres_trames(e, cles.push(cle)).dims == apres_trames(e, cles).dims,
        apres_trames(e, cles.push(cle)).cle_exigee == apres_trames(e, cles).cle_exigee,
{
    assert(cles.push(cle).drop_last() =~= cles);
}

/// The priority of a frame is its number, below zero, as far as it goes.
pub proof fn loi_priorite(seq: u64)
    ensures
        seq <= i32::MAX ==> priorite_de(seq) == -(seq as int),
        seq > i32::MAX ==> priorite_de(seq) == -(i32::MAX as int),
{
}

} // verus!
