//! Screen sharing: the settings of a broadcast, and the encoder that steps
//! down by itself when it cannot keep up.

use crate::empreinte;
use crate::protocole::StreamMeta;
use crate::texte;
use vstd::prelude::*;

verus! {

// ---------------------------------------------------------------------
// Settings
// ---------------------------------------------------------------------

/// What is captured.
#[derive(Debug, Clone, PartialEq, Eq)]
pub enum CaptureSource {
    /// A monitor by its number; 0 is the main one.
    Monitor(u32),
    /// A window by its title.
    Window(String),
}

/// Which encoder is asked for.
#[derive(Debug, Clone, Copy, PartialEq, Eq, Structural)]
pub enum EncoderChoice {
    Auto,
    Nvenc,
    Logiciel,
}

impl EncoderChoice {
    /// The word that stands for the choice in the settings file.
    pub open spec fn cle(self) -> Seq<char> {
        match self {
            EncoderChoice::Auto => "auto"@,
            EncoderChoice::Nvenc => "nvenc"@,
            EncoderChoice::Logiciel => "logiciel"@,
        }
    }

    pub fn id(self) -> (r: &'static str)
        ensures
            r@ == self.cle(),
    {
        match self {
            EncoderChoice::Auto => "auto",
            EncoderChoice::Nvenc => "nvenc",
            EncoderChoice::Logiciel => "logiciel",
        }
    }

    pub fn libelle(self) -> (r: &'static str)
        ensures
            r@ == match self {
                EncoderChoice::Auto => "Auto — NVENC si la carte le permet"@,
                EncoderChoice::Nvenc => "NVENC (carte NVIDIA)"@,
                EncoderChoice::Logiciel => "Logiciel (processeur)"@,
            },
    {
        match self {
            EncoderChoice::Auto => "Auto — NVENC si la carte le permet",
            EncoderChoice::Nvenc => "NVENC (carte NVIDIA)",
            EncoderChoice::Logiciel => "Logiciel (processeur)",
        }
    }

    /// The choice that a word stands for; an unknown word is the automatic
    /// one.
    pub open spec fn lu(mot: Seq<char>) -> EncoderChoice {
        if mot == "nvenc"@ {
            EncoderChoice::Nvenc
        } else if mot == "logiciel"@ {
            EncoderChoice::Logiciel
        } else {
            EncoderChoice::Auto
        }
    }

    pub fn lire(mot: &str) -> (r: EncoderChoice)
        ensures
            r == EncoderChoice::lu(mot@),
    {
        if texte::egal(mot, "nvenc") {
            EncoderChoice::Nvenc
        } else if texte::egal(mot, "logiciel") {
            EncoderChoice::Logiciel
        } else {
            EncoderChoice::Auto
        }
    }
}

/// The heights on offer (0 is that of the source).
pub const HAUTEURS: [u32; 4] = [0, 1080, 720, 480];

/// The frame rates on offer.
pub const CADENCES: [u32; 3] = [15, 30, 60];

pub open spec fn texte_hauteur(h: u32) -> Seq<char> {
    if h == 0 {
        "Native"@
    } else {
        texte::decimal(h as nat) + "p"@
    }
}

/// How a height is called.
pub fn libelle_hauteur(h: u32) -> (r: String)
    ensures
        r@ == texte_hauteur(h),
{
    let mut r: String = String::new();
    if h == 0 {
        r.append("Native");
    } else {
        texte::pousser_decimal(&mut r, h as u64);
        r.append("p");
    }
    assert(r@ =~= texte_hauteur(h));
    r
}

/// The settings of a broadcast.
#[derive(Debug, Clone, PartialEq, Eq)]
pub struct Reglages {
    pub source: CaptureSource,
    /// The greatest height of the picture sent; 0 is that of the source.
    pub max_height: u32,
    pub fps: u32,
    pub kbps: u32,
    pub cursor: bool,
    pub preview: bool,
    pub encodeur: EncoderChoice,
    /// The sound of the game goes into the stream.
    pub son: bool,
}

/// What the streamer loop is started with.
#[derive(Debug, Clone, PartialEq, Eq)]
pub struct StreamConfig {
    pub source: CaptureSource,
    pub max_height: u32,
    pub fps: u32,
    pub bitrate_bps: u32,
    pub cursor: bool,
    pub preview: bool,
    pub encoder: EncoderChoice,
    /// Seconds between two key frames.
    pub gop_s: u32,
}

/// The settings as they are kept: one text per key.
#[derive(Debug)]
pub struct Stockes {
    pub source: String,
    pub max_height: String,
    pub fps: String,
    pub kbps: String,
    pub cursor: String,
    pub preview: String,
    pub son: String,
    pub encodeur: String,
}

pub open spec fn marche(b: bool) -> Seq<char> {
    if b {
        "on"@
    } else {
        "off"@
    }
}

fn en_marche(b: bool) -> (r: String)
    ensures
        r@ == marche(b),
{
    if b {
        String::from_str("on")
    } else {
        String::from_str("off")
    }
}

pub open spec fn source_ecrite(s: CaptureSource) -> Seq<char> {
    match s {
        CaptureSource::Monitor(n) => "ecran:"@ + texte::decimal(n as nat),
        CaptureSource::Window(t) => "fenetre:"@ + t@,
    }
}

/// Whether a text stands for this source.
pub open spec fn source_lue(s: CaptureSource, t: Seq<char>) -> bool {
    match texte::coupe_a(t, ':') {
        Some((genre, suite)) => if genre == "fenetre"@ && suite.len() > 0 {
            s matches CaptureSource::Window(w) && w@ == suite
        } else if genre == "ecran"@ {
            s == CaptureSource::Monitor(
                match texte::nombre_borne(suite, u32::MAX as nat) {
                    Some(n) => n as u32,
                    None => 0,
                },
            )
        } else {
            s == CaptureSource::Monitor(0)
        },
        None => s == CaptureSource::Monitor(0),
    }
}

/// The number that a text stands for, or a default.
pub open spec fn entier_lu(t: Seq<char>, defaut: u32) -> u32 {
    match texte::nombre_borne(t, u32::MAX as nat) {
        Some(n) => n as u32,
        None => defaut,
    }
}

fn lire_entier(t: &str, defaut: u32) -> (r: u32)
    ensures
        r == entier_lu(t@, defaut),
{
    match texte::lire_nombre(t, u32::MAX as u64) {
        Some(n) => n as u32,
        None => defaut,
    }
}

pub open spec fn borne(v: u32, min: u32, max: u32) -> u32 {
    if v < min {
        min
    } else if v > max {
        max
    } else {
        v
    }
}

fn borner(v: u32, min: u32, max: u32) -> (r: u32)
    ensures
        r == borne(v, min, max),
{
    if v < min {
        min
    } else if v > max {
        max
    } else {
        v
    }
}

impl Reglages {
    /// The settings of someone who never set any.
    pub open spec fn par_defaut(self) -> bool {
        &&& self.source == CaptureSource::Monitor(0)
        &&& self.max_height == 0
        &&& self.fps == 30
        &&& self.kbps == 6000
        &&& self.cursor
        &&& self.preview
        &&& self.encodeur == EncoderChoice::Auto
        &&& self.son
    }

    /// Whether these are the settings that the kept texts stand for.
    pub open spec fn relus(self, t: Stockes) -> bool {
        &&& source_lue(self.source, t.source@)
        &&& self.max_height == entier_lu(t.max_height@, 0)
        &&& self.fps == borne(entier_lu(t.fps@, 30), 1, 120)
        &&& self.kbps == borne(entier_lu(t.kbps@, 6000), 500, 50_000)
        &&& self.cursor == (t.cursor@ != "off"@)
        &&& self.preview == (t.preview@ != "off"@)
        &&& self.son == (t.son@ != "off"@)
        &&& self.encodeur == EncoderChoice::lu(t.encodeur@)
    }

    /// Whether the texts are those that keep these settings.
    pub open spec fn ecrits(self, t: Stockes) -> bool {
        &&& t.source@ == source_ecrite(self.source)
        &&& t.max_height@ == texte::decimal(self.max_height as nat)
        &&& t.fps@ == texte::decimal(self.fps as nat)
        &&& t.kbps@ == texte::decimal(self.kbps as nat)
        &&& t.cursor@ == marche(self.cursor)
        &&& t.preview@ == marche(self.preview)
        &&& t.son@ == marche(self.son)
        &&& t.encodeur@ == self.encodeur.cle()
    }

    /// Reads the settings from the texts that were kept.
    pub fn lire(t: &Stockes) -> (r: Reglages)
        ensures
            r.relus(*t),
    {
        let source: CaptureSource = match texte::couper_a(t.source.as_str(), ':') {
            Some((genre, suite)) => if texte::egal(genre, "fenetre") && !suite.is_empty() {
                CaptureSource::Window(suite.to_owned())
            } else if texte::egal(genre, "ecran") {
                CaptureSource::Monitor(lire_entier(suite, 0))
            } else {
                CaptureSource::Monitor(0)
            },
            None => CaptureSource::Monitor(0),
        };
        Reglages {
            source,
            max_height: lire_entier(t.max_height.as_str(), 0),
            fps: borner(lire_entier(t.fps.as_str(), 30), 1, 120),
            kbps: borner(lire_entier(t.kbps.as_str(), 6000), 500, 50_000),
            cursor: !texte::egal(t.cursor.as_str(), "off"),
            preview: !texte::egal(t.preview.as_str(), "off"),
            encodeur: EncoderChoice::lire(t.encodeur.as_str()),
            son: !texte::egal(t.son.as_str(), "off"),
        }
    }

    /// Reads the settings from a store, which answers a key and a default
    /// with a text.
    pub fn load<G: Fn(&str, &str) -> String>(get: G) -> (r: Reglages)
        requires
            forall|cle: &str, defaut: &str| #[trigger] get.requires((cle, defaut)),
        ensures
            exists|t: Stockes| #[trigger] r.relus(t) && Reglages::tires_de(get, t),
    {
        let t: Stockes = Stockes {
            source: get("stream_source", ""),
            max_height: get("stream_max_height", ""),
            fps: get("stream_fps", ""),
            kbps: get("stream_kbps", ""),
            cursor: get("stream_cursor", "on"),
            preview: get("stream_preview", "on"),
            son: get("stream_audio", "on"),
            encodeur: get("stream_encoder", "auto"),
        };
        let r: Reglages = Reglages::lire(&t);
        assert(r.relus(t) && Reglages::tires_de(get, t));
        r
    }

    /// Whether the texts are what a store answers to the keys.
    pub open spec fn tires_de<G: Fn(&str, &str) -> String>(get: G, t: Stockes) -> bool {
        &&& get.ensures(("stream_source", ""), t.source)
        &&& get.ensures(("stream_max_height", ""), t.max_height)
        &&& get.ensures(("stream_fps", ""), t.fps)
        &&& get.ensures(("stream_kbps", ""), t.kbps)
        &&& get.ensures(("stream_cursor", "on"), t.cursor)
        &&& get.ensures(("stream_preview", "on"), t.preview)
        &&& get.ensures(("stream_audio", "on"), t.son)
        &&& get.ensures(("stream_encoder", "auto"), t.encodeur)
    }

    /// The texts that keep the settings.
    pub fn ecrire(&self) -> (t: Stockes)
        ensures
            self.ecrits(t),
    {
        let mut source: String = String::new();
        match &self.source {
            CaptureSource::Monitor(n) => {
                source.append("ecran:");
                texte::pousser_decimal(&mut source, *n as u64);
            },
            CaptureSource::Window(t) => {
                source.append("fenetre:");
                source.append(t.as_str());
            },
        }
        assert(source@ =~= source_ecrite(self.source));
        let mut max_height: String = String::new();
        texte::pousser_decimal(&mut max_height, self.max_height as u64);
        let mut fps: String = String::new();
        texte::pousser_decimal(&mut fps, self.fps as u64);
        let mut kbps: String = String::new();
        texte::pousser_decimal(&mut kbps, self.kbps as u64);
        assert(max_height@ =~= texte::decimal(self.max_height as nat));
        assert(fps@ =~= texte::decimal(self.fps as nat));
        assert(kbps@ =~= texte::decimal(self.kbps as nat));
        Stockes {
            source,
            max_height,
            fps,
            kbps,
            cursor: en_marche(self.cursor),
            preview: en_marche(self.preview),
            son: en_marche(self.son),
            encodeur: self.encodeur.id().to_owned(),
        }
    }

    /// The keys and texts that a store keeps.
    pub fn save(&self) -> (r: Vec<(&'static str, String)>)
        ensures
            exists|t: Stockes|
                #[trigger] self.ecrits(t) && r@ == seq![
                    ("stream_source", t.source),
                    ("stream_max_height", t.max_height),
                    ("stream_fps", t.fps),
                    ("stream_kbps", t.kbps),
                    ("stream_cursor", t.cursor),
                    ("stream_preview", t.preview),
                    ("stream_audio", t.son),
                    ("stream_encoder", t.encodeur),
                ],
    {
        let t: Stockes = self.ecrire();
        let ghost g = t;
        let mut r: Vec<(&'static str, String)> = Vec::new();
        r.push(("stream_source", t.source));
        r.push(("stream_max_height", t.max_height));
        r.push(("stream_fps", t.fps));
        r.push(("stream_kbps", t.kbps));
        r.push(("stream_cursor", t.cursor));
        r.push(("stream_preview", t.preview));
        r.push(("stream_audio", t.son));
        r.push(("stream_encoder", t.encodeur));
        assert(self.ecrits(g));
        r
    }

    /// What the streamer loop is started with.
    pub fn config(&self) -> (c: StreamConfig)
        ensures
            match self.source {
                CaptureSource::Monitor(n) => c.source == CaptureSource::Monitor(n),
                CaptureSource::Window(t) => c.source == CaptureSource::Window(t),
            },
            c.max_height == self.max_height,
            c.fps == self.fps,
            c.bitrate_bps == if self.kbps * 1000 <= u32::MAX {
                self.kbps * 1000
            } else {
                u32::MAX as int
            },
            c.cursor == self.cursor,
            c.preview == self.preview,
            c.encoder == self.encodeur,
            c.gop_s == 2,
    {
        let source: CaptureSource = match &self.source {
            CaptureSource::Monitor(n) => CaptureSource::Monitor(*n),
            CaptureSource::Window(t) => CaptureSource::Window(t.clone()),
        };
        let bitrate_bps: u32 = match self.kbps.checked_mul(1000) {
            Some(b) => b,
            None => u32::MAX,
        };
        StreamConfig {
            source,
            max_height: self.max_height,
            fps: self.fps,
            bitrate_bps,
            cursor: self.cursor,
            preview: self.preview,
            encoder: self.encodeur,
            gop_s: 2,
        }
    }

    /// What is announced to the channel; the dimensions come with the frames.
    pub fn meta(&self, machine: u64) -> (m: StreamMeta)
        ensures
            m == (StreamMeta {
                width: 0,
                height: 0,
                fps: if self.fps < 255 {
                    self.fps as u8
                } else {
                    255
                },
                kbps: self.kbps,
                machine,
            }),
    {
        let fps: u8 = if self.fps < 255 {
            self.fps as u8
        } else {
            255
        };
        StreamMeta { width: 0, height: 0, fps, kbps: self.kbps, machine }
    }
}

impl Default for Reglages {
    fn default() -> (r: Self)
        ensures
            r.par_defaut(),
    {
        Reglages {
            source: CaptureSource::Monitor(0),
            max_height: 0,
            fps: 30,
            kbps: 6000,
            cursor: true,
            preview: true,
            encodeur: EncoderChoice::Auto,
            son: true,
        }
    }
}

/// Settings within their bounds survive being kept and read back, whatever
/// the title of the window holds, colons included.
pub proof fn loi_reglages_se_relisent(r: Reglages, t: Stockes, lu: Reglages)
    requires
        1 <= r.fps <= 120,
        500 <= r.kbps <= 50_000,
        r.source matches CaptureSource::Window(w) ==> w@.len() > 0,
        r.ecrits(t),
        lu.relus(t),
    ensures
        match r.source {
            CaptureSource::Monitor(n) => lu.source == CaptureSource::Monitor(n),
            CaptureSource::Window(w) => lu.source matches CaptureSource::Window(x) && x@ == w@,
        },
        lu.max_height == r.max_height,
        lu.fps == r.fps,
        lu.kbps == r.kbps,
        lu.cursor == r.cursor,
        lu.preview == r.preview,
        lu.son == r.son,
        lu.encodeur == r.encodeur,
{
    reveal_strlit("on");
    reveal_strlit("off");
    reveal_strlit("auto");
    reveal_strlit("nvenc");
    reveal_strlit("logiciel");
    reveal_strlit("ecran:");
    reveal_strlit("fenetre:");
    reveal_strlit("ecran");
    reveal_strlit("fenetre");
    texte::loi_decimal_se_relit(r.max_height as nat);
    texte::loi_decimal_se_relit(r.fps as nat);
    texte::loi_decimal_se_relit(r.kbps as nat);
    assert("nvenc"@[0] != "auto"@[0]);
    assert("logiciel"@[0] != "auto"@[0]);
    assert("logiciel"@[0] != "nvenc"@[0]);
    assert("on"@.len() != "off"@.len());
    match r.source {
        CaptureSource::Monitor(n) => {
            texte::loi_decimal_se_relit(n as nat);
            assert("ecran:"@ =~= "ecran"@ + seq![':']);
            texte::loi_coupe_se_relit("ecran"@, ':', texte::decimal(n as nat));
            assert("ecran"@.len() != "fenetre"@.len());
        },
        CaptureSource::Window(w) => {
            assert("fenetre:"@ =~= "fenetre"@ + seq![':']);
            texte::loi_coupe_se_relit("fenetre"@, ':', w@);
        },
    }
}

/// An empty store gives the default settings.
pub proof fn loi_stockage_vide(t: Stockes, lu: Reglages)
    requires
        t.source@.len() == 0,
        t.max_height@.len() == 0,
        t.fps@.len() == 0,
        t.kbps@.len() == 0,
        t.cursor@ == "on"@,
        t.preview@ == "on"@,
        t.son@ == "on"@,
        t.encodeur@ == "auto"@,
        lu.relus(t),
    ensures
        lu.par_defaut(),
{
    reveal_strlit("on");
    reveal_strlit("off");
    reveal_strlit("auto");
    reveal_strlit("nvenc");
    reveal_strlit("logiciel");
    assert("on"@.len() != "off"@.len());
    assert("nvenc"@[0] != "auto"@[0]);
    assert("logiciel"@[0] != "auto"@[0]);
}

// ---------------------------------------------------------------------
// The machine
// ---------------------------------------------------------------------

/// The fingerprint of a machine and an account: FNV-1a of the one, a zero
/// byte and the other, never 0.
pub open spec fn empreinte_de(nom: Seq<u8>, compte: Seq<u8>) -> u64 {
    let h = empreinte::fnv(empreinte::melange(empreinte::fnv(empreinte::BASE, nom), 0), compte);
    if h == 0 {
        1
    } else {
        h
    }
}

/// The fingerprint of a machine and an account, as it travels with a stream:
/// two clients started here recognise each other by it.
pub fn empreinte_machine(nom: &str, compte: &str) -> (r: u64)
    ensures
        r == empreinte_de(vstd::utf8::encode_utf8(nom@), vstd::utf8::encode_utf8(compte@)),
        r >= 1,
{
    let h: u64 = empreinte::melanger(empreinte::BASE, nom.as_bytes());
    let g: u64 = (h ^ 0u8 as u64).wrapping_mul(empreinte::PREMIER);
    let f: u64 = empreinte::melanger(g, compte.as_bytes());
    if f == 0 {
        1
    } else {
        f
    }
}

// ---------------------------------------------------------------------
// The sources on offer
// ---------------------------------------------------------------------

/// A monitor that can be captured.
#[derive(Debug, Clone, PartialEq, Eq)]
pub struct MonitorInfo {
    pub index: u32,
    pub name: String,
    pub width: u32,
    pub height: u32,
    pub primary: bool,
}

/// A window that can be captured.
#[derive(Debug, Clone, PartialEq, Eq)]
pub struct WindowInfo {
    pub title: String,
    pub process: String,
}

/// The monitors and windows that were last listed, and when (milliseconds of
/// a clock that never goes back).
#[derive(Debug)]
pub struct Sources {
    pub ecrans: Vec<MonitorInfo>,
    pub fenetres: Vec<WindowInfo>,
    pub releve: Option<u64>,
}

impl Default for Sources {
    fn default() -> (r: Self)
        ensures
            r.ecrans@.len() == 0,
            r.fenetres@.len() == 0,
            r.releve is None,
    {
        Sources { ecrans: Vec::new(), fenetres: Vec::new(), releve: None }
    }
}

impl Sources {
    /// Takes a new list.
    pub fn rafraichir(&mut self, ecrans: Vec<MonitorInfo>, fenetres: Vec<WindowInfo>, maintenant: u64)
        ensures
            final(self).ecrans == ecrans,
            final(self).fenetres == fenetres,
            final(self).releve == Some(maintenant),
    {
        self.ecrans = ecrans;
        self.fenetres = fenetres;
        self.releve = Some(maintenant);
    }

    /// Never listed, or too long ago for a panel that just opened.
    pub fn perimees(&self, maintenant: u64) -> (r: bool)
        ensures
            r == match self.releve {
                None => true,
                Some(t) => maintenant > t && maintenant - t > 20_000,
            },
    {
        match self.releve {
            None => true,
            Some(t) => maintenant.saturating_sub(t) > 20_000,
        }
    }
}

/// The name of the first monitor with this number.
pub open spec fn nom_ecran(ecrans: Seq<MonitorInfo>, n: u32) -> Option<Seq<char>>
    decreases ecrans.len(),
{
    if ecrans.len() == 0 {
        None
    } else if ecrans[0].index == n {
        Some(ecrans[0].name@)
    } else {
        nom_ecran(ecrans.drop_first(), n)
    }
}

pub open spec fn texte_source(s: CaptureSource, ecrans: Seq<MonitorInfo>) -> Seq<char> {
    match s {
        CaptureSource::Monitor(n) => if n == 0 {
            "Écran principal"@
        } else {
            match nom_ecran(ecrans, n) {
                Some(nom) => "Écran "@ + texte::decimal(n as nat) + " — "@ + nom,
                None => "Écran "@ + texte::decimal(n as nat),
            }
        },
        CaptureSource::Window(t) => "Fenêtre : "@ + t@,
    }
}

/// How a source is called in the selector.
pub fn libelle(source: &CaptureSource, sources: &Sources) -> (r: String)
    ensures
        r@ == texte_source(*source, sources.ecrans@),
{
    match source {
        CaptureSource::Monitor(n) => {
            if *n == 0 {
                return String::from_str("Écran principal");
            }
            let mut r: String = String::from_str("Écran ");
            texte::pousser_decimal(&mut r, *n as u64);
            let mut i: usize = 0;
            assert(sources.ecrans@.skip(0) =~= sources.ecrans@);
            while i < sources.ecrans.len()
                invariant
                    i <= sources.ecrans@.len(),
                    *n != 0,
                    *source == CaptureSource::Monitor(*n),
                    r@ == "Écran "@ + texte::decimal(*n as nat),
                    nom_ecran(sources.ecrans@.skip(i as int), *n) == nom_ecran(
                        sources.ecrans@,
                        *n,
                    ),
                decreases sources.ecrans@.len() - i,
            {
                if sources.ecrans[i].index == *n {
                    r.append(" — ");
                    r.append(sources.ecrans[i].name.as_str());
                    return r;
                }
                assert(sources.ecrans@.skip(i as int).drop_first() =~= sources.ecrans@.skip(i + 1));
                i += 1;
            }
            r
        },
        CaptureSource::Window(t) => {
            let mut r: String = String::from_str("Fenêtre : ");
            r.append(t.as_str());
            r
        },
    }
}

pub open spec fn texte_choix_ecran(e: MonitorInfo) -> Seq<char> {
    "Écran "@ + texte::decimal(e.index as nat) + " — "@ + e.name@ + " "@ + texte::decimal(
        e.width as nat,
    ) + "x"@ + texte::decimal(e.height as nat) + if e.primary {
        " (principal)"@
    } else {
        ""@
    }
}

pub open spec fn texte_choix_fenetre(f: WindowInfo) -> Seq<char> {
    if f.process@.len() == 0 {
        f.title@
    } else {
        f.title@ + " — "@ + f.process@
    }
}

/// What the selector offers: the main monitor, then each monitor, then each
/// window, with what it says of them.
pub fn choix_sources(sources: &Sources) -> (r: Vec<(CaptureSource, String)>)
    ensures
        r@.len() == 1 + sources.ecrans@.len() + sources.fenetres@.len(),
        r@[0].0 == CaptureSource::Monitor(0),
        r@[0].1@ == "Écran principal"@,
        forall|i: int|
            0 <= i < sources.ecrans@.len() ==> (#[trigger] r@[1 + i]).0 == CaptureSource::Monitor(
                sources.ecrans@[i].index,
            ) && r@[1 + i].1@ == texte_choix_ecran(sources.ecrans@[i]),
        forall|i: int|
            0 <= i < sources.fenetres@.len() ==> (#[trigger] r@[1 + sources.ecrans@.len() + i]).0
                == CaptureSource::Window(sources.fenetres@[i].title) && r@[1 + sources.ecrans@.len()
                + i].1@ == texte_choix_fenetre(sources.fenetres@[i]),
{
    let mut r: Vec<(CaptureSource, String)> = Vec::new();
    r.push((CaptureSource::Monitor(0), String::from_str("Écran principal")));
    let mut i: usize = 0;
    while i < sources.ecrans.len()
        invariant
            i <= sources.ecrans@.len(),
            r@.len() == 1 + i,
            r@[0].0 == CaptureSource::Monitor(0),
            r@[0].1@ == "Écran principal"@,
            forall|k: int|
                1 <= k < 1 + i ==> (#[trigger] r@[k]).0 == CaptureSource::Monitor(
                    sources.ecrans@[k - 1].index,
                ) && r@[k].1@ == texte_choix_ecran(sources.ecrans@[k - 1]),
        decreases sources.ecrans@.len() - i,
    {
        let e: &MonitorInfo = &sources.ecrans[i];
        let mut t: String = String::from_str("Écran ");
        texte::pousser_decimal(&mut t, e.index as u64);
        t.append(" — ");
        t.append(e.name.as_str());
        t.append(" ");
        texte::pousser_decimal(&mut t, e.width as u64);
        t.append("x");
        texte::pousser_decimal(&mut t, e.height as u64);
        t.append(if e.primary { " (principal)" } else { "" });
        assert(t@ =~= texte_choix_ecran(*e));
        r.push((CaptureSource::Monitor(e.index), t));
        i += 1;
    }
    let n: usize = sources.ecrans.len();
    let mut j: usize = 0;
    while j < sources.fenetres.len()
        invariant
            j <= sources.fenetres@.len(),
            n == sources.ecrans@.len(),
            r@.len() == 1 + n + j,
            r@[0].0 == CaptureSource::Monitor(0),
            r@[0].1@ == "Écran principal"@,
            forall|k: int|
                1 <= k < 1 + n ==> (#[trigger] r@[k]).0 == CaptureSource::Monitor(
                    sources.ecrans@[k - 1].index,
                ) && r@[k].1@ == texte_choix_ecran(sources.ecrans@[k - 1]),
            forall|k: int|
                1 + n <= k < 1 + n + j ==> (#[trigger] r@[k]).0 == CaptureSource::Window(
                    sources.fenetres@[k - 1 - n].title,
                ) && r@[k].1@ == texte_choix_fenetre(sources.fenetres@[k - 1 - n]),
        decreases sources.fenetres@.len() - j,
    {
        let f: &WindowInfo = &sources.fenetres[j];
        let mut t: String = f.title.clone();
        if !f.process.as_str().is_empty() {
            t.append(" — ");
            t.append(f.process.as_str());
        }
        r.push((CaptureSource::Window(f.title.clone()), t));
        j += 1;
    }
    r
}

/// One change in the settings panel.
#[derive(Debug)]
pub enum Choix {
    Source(CaptureSource),
    Hauteur(u32),
    Cadence(u32),
    Encodeur(EncoderChoice),
    Debit(u32),
    Curseur(bool),
    Apercu(bool),
    Son(bool),
}

/// Applies one change of the settings panel, and only that one.
pub fn reglages_ui(r: &mut Reglages, choix: Choix)
    ensures
        *final(r) == match choix {
            Choix::Source(source) => Reglages { source, ..*old(r) },
            Choix::Hauteur(max_height) => Reglages { max_height, ..*old(r) },
            Choix::Cadence(fps) => Reglages { fps, ..*old(r) },
            Choix::Encodeur(encodeur) => Reglages { encodeur, ..*old(r) },
            Choix::Debit(kbps) => Reglages { kbps, ..*old(r) },
            Choix::Curseur(cursor) => Reglages { cursor, ..*old(r) },
            Choix::Apercu(preview) => Reglages { preview, ..*old(r) },
            Choix::Son(son) => Reglages { son, ..*old(r) },
        },
{
    match choix {
        Choix::Source(s) => {
            r.source = s;
        },
        Choix::Hauteur(h) => {
            r.max_height = h;
        },
        Choix::Cadence(f) => {
            r.fps = f;
        },
        Choix::Encodeur(e) => {
            r.encodeur = e;
        },
        Choix::Debit(k) => {
            r.kbps = k;
        },
        Choix::Curseur(c) => {
            r.cursor = c;
        },
        Choix::Apercu(p) => {
            r.preview = p;
        },
        Choix::Son(s) => {
            r.son = s;
        },
    }
}

// ---------------------------------------------------------------------
// The encoder that regulates itself
// ---------------------------------------------------------------------

/// A rate over the last second, out of counts that only grow: not the mean
/// since the beginning.
#[derive(Debug, Clone, Copy, PartialEq, Eq)]
pub struct Cadence {
    /// When the counts were last looked at, in milliseconds since the start.
    pub depuis: u64,
    pub trames: u64,
    pub octets: u64,
    /// The last measure: frames, bytes, and the milliseconds that they took.
    pub mesure: Option<(u64, u64, u64)>,
}

impl Cadence {
    pub fn new(maintenant: u64) -> (r: Self)
        ensures
            r == (Cadence { depuis: maintenant, trames: 0, octets: 0, mesure: None }),
    {
        Cadence { depuis: maintenant, trames: 0, octets: 0, mesure: None }
    }

    /// Looks at the counts, once a second at most. One that goes back is that of
    /// a stream that was started anew: the last measure stays, and the next one
    /// counts from there.
    pub fn relever(&mut self, maintenant: u64, trames: u64, octets: u64)
        ensures
            *final(self) == if maintenant < old(self).depuis + 1000 {
                *old(self)
            } else {
                Cadence {
                    depuis: maintenant,
                    trames,
                    octets,
                    mesure: if trames >= old(self).trames && octets >= old(self).octets {
                        Some(
                            (
                                (trames - old(self).trames) as u64,
                                (octets - old(self).octets) as u64,
                                (maintenant - old(self).depuis) as u64,
                            ),
                        )
                    } else {
                        old(self).mesure
                    },
                }
            },
    {
        let dt: u64 = maintenant.saturating_sub(self.depuis);
        if dt < 1000 {
            return ;
        }
        if trames >= self.trames && octets >= self.octets {
            self.mesure = Some((trames - self.trames, octets - self.octets, dt));
        }
        self.trames = trames;
        self.octets = octets;
        self.depuis = maintenant;
    }
}

/// A height under a ceiling: 0 stands for "that of the source", which the
/// ceiling then replaces.
pub fn plafonner_hauteur(reglee: u32, plafond: u32) -> (r: u32)
    ensures
        r == if reglee == 0 || plafond < reglee {
            plafond
        } else {
            reglee
        },
{
    if reglee == 0 || plafond < reglee {
        plafond
    } else {
        reglee
    }
}

/// The steps that a broadcast goes down when the encoder does not keep up:
/// the setting itself, then 30 frames a second, then the heights below the
/// setting.
pub open spec fn paliers(hauteur: u32, fps: u32) -> Seq<(u32, u32)> {
    let f: u32 = if fps > 30 {
        30
    } else {
        fps
    };
    let debut = seq![(hauteur, fps)];
    let cadence = if fps > 30 {
        seq![(hauteur, f)]
    } else {
        Seq::empty()
    };
    let haut = if 1080 < hauteur {
        seq![(1080u32, f)]
    } else {
        Seq::empty()
    };
    let bas = if 720 < hauteur {
        seq![(720u32, f)]
    } else {
        Seq::empty()
    };
    debut + cadence + haut + bas
}

/// The steps that a broadcast goes down: first the frame rate, to 30 a
/// second, then the height, 1080 and 720, never lower.
pub fn paliers_encodeur(hauteur: u32, fps: u32) -> (r: Vec<(u32, u32)>)
    ensures
        r@ == paliers(hauteur, fps),
{
    let mut crans: Vec<(u32, u32)> = Vec::new();
    crans.push((hauteur, fps));
    let mut f: u32 = fps;
    if f > 30 {
        f = 30;
        crans.push((hauteur, f));
    }
    if 1080 < hauteur {
        crans.push((1080, f));
    }
    if 720 < hauteur {
        crans.push((720, f));
    }
    assert(crans@ =~= paliers(hauteur, fps));
    crans
}

/// The first step is the setting; from one step to the next neither the
/// height nor the frame rate rises and one of them falls; no step goes below
/// 720 lines or 30 frames a second unless the setting did.
pub proof fn loi_paliers_descendent(hauteur: u32, fps: u32)
    ensures
        paliers(hauteur, fps).len() >= 1,
        paliers(hauteur, fps)[0] == (hauteur, fps),
        forall|i: int, j: int|
            0 <= i < j < paliers(hauteur, fps).len() ==> {
                let a = #[trigger] paliers(hauteur, fps)[i];
                let b = #[trigger] paliers(hauteur, fps)[j];
                b.0 <= a.0 && b.1 <= a.1 && (b.0 < a.0 || b.1 < a.1)
            },
        forall|i: int|
            0 <= i < paliers(hauteur, fps).len() ==> {
                let a = #[trigger] paliers(hauteur, fps)[i];
                (a.0 >= 720 || a.0 == hauteur) && (a.1 >= 30 || a.1 == fps)
            },
{
}

/// What the regulator decides at a given second.
#[derive(Debug, Clone, Copy, PartialEq, Eq, Structural)]
pub enum Cran {
    Descente,
    Remontee,
}

/// The regulator of the encoder. Five seconds of saturation, and the
/// broadcast goes down a step; fifteen seconds of rest follow. Two minutes of
/// calm, and it tries to go up again, twice per broadcast at most; a rise that
/// has to come down again while it is on trial, for a minute, locks the step.
#[derive(Debug)]
pub struct Regulateur {
    /// The steps, from the setting to the lowest, once they are known.
    pub crans: Option<Vec<(u32, u32)>>,
    pub cran: usize,
    pub saturees: u32,
    pub calmes: u32,
    pub repos: u32,
    pub remontees: u32,
    pub remontee_en_cours: bool,
    /// The seconds since the last rise, for as long as it is on trial.
    pub remontee_depuis: u32,
    pub verrou: bool,
    /// When the last look was, in milliseconds since this regulator was made.
    pub derniere: u64,
    /// The count of skipped frames at the last look.
    pub sautees: u64,
}

/// One more, up to the greatest number.
pub open spec fn un_de_plus(n: u32) -> u32 {
    if n < u32::MAX {
        (n + 1) as u32
    } else {
        n
    }
}

impl Regulateur {
    /// The number of steps.
    pub open spec fn hauteur(self) -> nat {
        match self.crans {
            Some(c) => c.len() as nat,
            None => 0,
        }
    }

    /// What always holds: the step in force exists, and at most two rises
    /// were tried.
    pub open spec fn valide(self) -> bool {
        &&& self.cran == 0 || self.cran < self.hauteur()
        &&& self.crans matches Some(c) ==> c@.len() > 0
        &&& self.remontees <= 2
        &&& self.repos <= 15
    }

    /// A regulator that saw nothing yet.
    pub open spec fn neuf(self) -> bool {
        &&& self.crans is None
        &&& self.cran == 0
        &&& self.saturees == 0
        &&& self.calmes == 0
        &&& self.repos == 0
        &&& self.remontees == 0
        &&& !self.remontee_en_cours
        &&& self.remontee_depuis == 0
        &&& !self.verrou
        &&& self.derniere == 0
        &&& self.sautees == 0
    }

    pub fn new() -> (r: Self)
        ensures
            r.neuf(),
            r.valide(),
    {
        Regulateur {
            crans: None,
            cran: 0,
            saturees: 0,
            calmes: 0,
            repos: 0,
            remontees: 0,
            remontee_en_cours: false,
            remontee_depuis: 0,
            verrou: false,
            derniere: 0,
            sautees: 0,
        }
    }

    /// The step in force where it is not the setting: height and frame rate.
    pub fn cran_actuel(&self) -> (r: Option<(u32, u32)>)
        requires
            self.valide(),
        ensures
            r == match self.crans {
                Some(c) => if self.cran > 0 {
                    Some(c@[self.cran as int])
                } else {
                    None
                },
                None => None,
            },
    {
        match &self.crans {
            Some(c) => if self.cran > 0 {
                Some(c[self.cran])
            } else {
                None
            },
            None => None,
        }
    }

    /// The seconds of saturation in a row, this one counted.
    pub open spec fn saturees_apres(self, sature: bool) -> u32 {
        if sature {
            un_de_plus(self.saturees)
        } else {
            0
        }
    }

    /// The seconds of calm in a row, this one counted.
    pub open spec fn calmes_apres(self, sature: bool) -> u32 {
        if sature {
            0
        } else {
            un_de_plus(self.calmes)
        }
    }

    /// The seconds since the rise on trial, this one counted.
    pub open spec fn tenue_apres(self) -> u32 {
        if self.remontee_en_cours {
            un_de_plus(self.remontee_depuis)
        } else {
            self.remontee_depuis
        }
    }

    /// A rise that is still on trial, this second counted: it holds at the first
    /// second without saturation once a minute has passed, whatever the seconds
    /// of that minute were.
    pub open spec fn en_cours_apres(self, sature: bool) -> bool {
        self.remontee_en_cours && (sature || self.tenue_apres() < 60)
    }

    /// The regulator after this second was counted.
    pub open spec fn compte(self, sature: bool) -> Regulateur {
        Regulateur {
            saturees: self.saturees_apres(sature),
            calmes: self.calmes_apres(sature),
            remontee_en_cours: self.en_cours_apres(sature),
            remontee_depuis: self.tenue_apres(),
            ..self
        }
    }

    /// What the regulator decides on one observation.
    pub open spec fn decision(self, sature: bool) -> Option<Cran> {
        if self.crans is None || self.repos > 0 {
            None
        } else if self.saturees_apres(sature) >= 5 && self.cran + 1 < self.hauteur() {
            Some(Cran::Descente)
        } else if self.calmes_apres(sature) >= 120 && self.cran > 0 && !self.verrou
            && self.remontees < 2 {
            Some(Cran::Remontee)
        } else {
            None
        }
    }

    /// The regulator after one observation.
    pub open spec fn suivant(self, sature: bool) -> Regulateur {
        let c = self.compte(sature);
        if self.crans is None {
            self
        } else if self.repos > 0 {
            Regulateur { repos: (self.repos - 1) as u32, saturees: 0, calmes: 0, ..c }
        } else {
            match self.decision(sature) {
                Some(Cran::Descente) => Regulateur {
                    cran: (self.cran + 1) as usize,
                    repos: 15,
                    saturees: 0,
                    calmes: 0,
                    remontee_en_cours: false,
                    verrou: self.verrou || c.remontee_en_cours,
                    ..c
                },
                Some(Cran::Remontee) => Regulateur {
                    cran: (self.cran - 1) as usize,
                    repos: 15,
                    calmes: 0,
                    remontees: (self.remontees + 1) as u32,
                    remontee_en_cours: true,
                    remontee_depuis: 0,
                    ..c
                },
                None => c,
            }
        }
    }

    /// One observation a second, without a clock.
    pub fn decider(&mut self, sature: bool) -> (r: Option<Cran>)
        requires
            old(self).valide(),
        ensures
            r == old(self).decision(sature),
            *final(self) == old(self).suivant(sature),
            final(self).valide(),
    {
        let n: usize = match &self.crans {
            Some(c) => c.len(),
            None => return None,
        };
        if sature {
            self.saturees = self.saturees.saturating_add(1);
            self.calmes = 0;
        } else {
            self.calmes = self.calmes.saturating_add(1);
            self.saturees = 0;
        }
        if self.remontee_en_cours {
            self.remontee_depuis = self.remontee_depuis.saturating_add(1);
            if self.remontee_depuis >= 60 && !sature {
                self.remontee_en_cours = false;
            }
        }
        if self.repos > 0 {
            self.repos -= 1;
            self.saturees = 0;
            self.calmes = 0;
            return None;
        }
        if self.saturees >= 5 && self.cran + 1 < n {
            self.cran += 1;
            self.repos = 15;
            self.saturees = 0;
            self.calmes = 0;
            if self.remontee_en_cours {
                self.remontee_en_cours = false;
                self.verrou = true;
            }
            return Some(Cran::Descente);
        }
        if self.calmes >= 120 && self.cran > 0 && !self.verrou && self.remontees < 2 {
            self.cran -= 1;
            self.repos = 15;
            self.calmes = 0;
            self.remontees += 1;
            self.remontee_en_cours = true;
            self.remontee_depuis = 0;
            return Some(Cran::Remontee);
        }
        None
    }

    /// What a look at the measures leaves behind, and the frames skipped since
    /// the last one where they have to be judged.
    pub open spec fn releve(
        self,
        apres: Regulateur,
        maintenant: u64,
        hauteur: u32,
        fps: u32,
        sautees: u64,
        r: Option<u64>,
    ) -> bool {
        let a_l_heure = maintenant >= self.derniere + 1000;
        let connue = a_l_heure && hauteur != 0;
        &&& apres.derniere == if a_l_heure {
            maintenant
        } else {
            self.derniere
        }
        &&& apres.sautees == if connue {
            sautees
        } else {
            self.sautees
        }
        &&& match self.crans {
            Some(c) => apres.crans == self.crans,
            None => if connue {
                apres.crans is Some && apres.crans->0@ == paliers(hauteur, fps)
            } else {
                apres.crans is None
            },
        }
        &&& apres == (Regulateur {
            crans: apres.crans,
            derniere: apres.derniere,
            sautees: apres.sautees,
            ..self
        })
        &&& r == if connue && apres.hauteur() >= 2 {
            Some(
                if sautees >= self.sautees {
                    (sautees - self.sautees) as u64
                } else {
                    0
                },
            )
        } else {
            None
        }
    }

    /// Takes the measures of a second: nothing before a second has passed or
    /// before the height is known, else the frames skipped since the last
    /// look, where there is a step to go down to.
    pub fn relever(&mut self, maintenant: u64, hauteur: u32, fps: u32, sautees: u64) -> (r: Option<
        u64,
    >)
        requires
            old(self).valide(),
        ensures
            final(self).valide(),
            old(self).releve(*final(self), maintenant, hauteur, fps, sautees, r),
    {
        if maintenant.saturating_sub(self.derniere) < 1000 {
            return None;
        }
        self.derniere = maintenant;
        if hauteur == 0 {
            return None;
        }
        if self.crans.is_none() {
            self.crans = Some(paliers_encodeur(hauteur, fps));
        }
        let n: usize = match &self.crans {
            Some(c) => c.len(),
            None => 0,
        };
        let delta: u64 = sautees.saturating_sub(self.sautees);
        self.sautees = sautees;
        if n < 2 {
            return None;
        }
        Some(delta)
    }

    /// What the streamer is told when the step changes.
    pub open spec fn mot(self, decision: Cran, mesure: Seq<char>, delta: u64) -> Option<Seq<char>> {
        match self.crans {
            Some(c) => {
                let en = texte::decimal(c@[self.cran as int].0 as nat) + "p"@ + texte::decimal(
                    c@[self.cran as int].1 as nat,
                );
                Some(
                    match decision {
                        Cran::Descente => "l'encodeur ne suivait pas ("@ + mesure + ", "@
                            + texte::decimal(delta as nat)
                            + " trames sautées/s) : la diffusion passe en "@ + en,
                        Cran::Remontee => "l'encodeur a de la marge : la diffusion remonte en "@
                            + en,
                    },
                )
            },
            None => None,
        }
    }

    /// What the streamer is told when the step changes. `mesure` is the load
    /// and the budget of a frame, in words.
    pub fn annonce(&self, decision: Cran, mesure: &str, delta: u64) -> (r: Option<String>)
        requires
            self.valide(),
        ensures
            texte::vue(r) == self.mot(decision, mesure@, delta),
    {
        let (h, f): (u32, u32) = match &self.crans {
            Some(c) => c[self.cran],
            None => return None,
        };
        let ghost en = texte::decimal(h as nat) + "p"@ + texte::decimal(f as nat);
        let mut r: String = String::new();
        match decision {
            Cran::Descente => {
                r.append("l'encodeur ne suivait pas (");
                r.append(mesure);
                r.append(", ");
                texte::pousser_decimal(&mut r, delta);
                r.append(" trames sautées/s) : la diffusion passe en ");
            },
            Cran::Remontee => {
                r.append("l'encodeur a de la marge : la diffusion remonte en ");
            },
        }
        let ghost debut = r@;
        texte::pousser_decimal(&mut r, h as u64);
        r.append("p");
        texte::pousser_decimal(&mut r, f as u64);
        assert(r@ =~= debut + en);
        assert(decision == Cran::Remontee ==> debut
            =~= "l'encodeur a de la marge : la diffusion remonte en "@);
        assert(decision == Cran::Descente ==> debut =~= "l'encodeur ne suivait pas ("@ + mesure@
            + ", "@ + texte::decimal(delta as nat)
            + " trames sautées/s) : la diffusion passe en "@);
        Some(r)
    }

    /// To be called at each frame of a broadcast: looks at the measures once a
    /// second, and returns a word for the streamer when the step changes.
    /// `juger` says, given the frames skipped since the last look, whether the
    /// encoder is saturated, and its load and its budget in words.
    pub fn tick<J: Fn(u64) -> (bool, String)>(
        &mut self,
        maintenant: u64,
        hauteur: u32,
        fps: u32,
        sautees: u64,
        juger: J,
    ) -> (r: Option<String>)
        requires
            old(self).valide(),
            forall|delta: u64| #[trigger] juger.requires((delta,)),
        ensures
            final(self).valide(),
            exists|m: Regulateur, d: Option<u64>|
                {
                    &&& #[trigger] old(self).releve(m, maintenant, hauteur, fps, sautees, d)
                    &&& match d {
                        None => r is None && *final(self) == m,
                        Some(delta) => exists|j: (bool, String)|
                            {
                                &&& #[trigger] juger.ensures((delta,), j)
                                &&& *final(self) == m.suivant(j.0)
                                &&& texte::vue(r) == match m.decision(j.0) {
                                    Some(c) => final(self).mot(c, j.1@, delta),
                                    None => None,
                                }
                            },
                    }
                },
    {
        let releve: Option<u64> = self.relever(maintenant, hauteur, fps, sautees);
        let ghost m = *self;
        assert(old(self).releve(m, maintenant, hauteur, fps, sautees, releve));
        let delta: u64 = match releve {
            Some(d) => d,
            None => return None,
        };
        let j: (bool, String) = juger(delta);
        assert(juger.ensures((delta,), j));
        match self.decider(j.0) {
            Some(c) => self.annonce(c, j.1.as_str(), delta),
            None => None,
        }
    }
}

impl Default for Regulateur {
    fn default() -> (r: Self)
        ensures
            r.neuf(),
            r.valide(),
    {
        Self::new()
    }
}

/// The regulator after a row of observations.
pub open spec fn apres(r: Regulateur, obs: Seq<bool>) -> Regulateur
    decreases obs.len(),
{
    if obs.len() == 0 {
        r
    } else {
        apres(r, obs.drop_last()).suivant(obs.last())
    }
}

/// Whatever is observed, the step in force exists and no third rise is ever
/// tried.
pub proof fn loi_regulateur_reste_valide(r: Regulateur, obs: Seq<bool>)
    requires
        r.valide(),
    ensures
        apres(r, obs).valide(),
        apres(r, obs).crans == r.crans,
        apres(r, obs).remontees >= r.remontees,
    decreases obs.len(),
{
    if obs.len() > 0 {
        loi_regulateur_reste_valide(r, obs.drop_last());
    }
}

/// Once locked, a regulator never goes up again: viewers are not made to
/// swing.
pub proof fn loi_verrou(r: Regulateur, obs: Seq<bool>)
    requires
        r.valide(),
        r.verrou,
    ensures
        apres(r, obs).verrou,
        apres(r, obs).cran >= r.cran,
        apres(r, obs).decision(true) != Some(Cran::Remontee),
        apres(r, obs).decision(false) != Some(Cran::Remontee),
    decreases obs.len(),
{
    if obs.len() > 0 {
        loi_verrou(r, obs.drop_last());
        loi_regulateur_reste_valide(r, obs.drop_last());
    }
}

/// A rise that is on trial when the broadcast goes down again locks the step;
/// one that held for a minute does not.
pub proof fn loi_remontee_ratee_verrouille(r: Regulateur, sature: bool)
    requires
        r.valide(),
        r.decision(sature) == Some(Cran::Descente),
    ensures
        r.suivant(sature).verrou == (r.verrou || r.en_cours_apres(sature)),
        r.suivant(sature).cran == r.cran + 1,
        r.suivant(sature).repos == 15,
{
}

/// A rise is on trial for a minute, whatever is observed meanwhile, unless the
/// broadcast goes down again; past it, it holds at the first second without
/// saturation and not before.
pub proof fn loi_une_minute(r: Regulateur, sature: bool)
    requires
        r.valide(),
        r.crans is Some,
        r.remontee_en_cours,
        r.decision(sature) is None,
    ensures
        r.suivant(sature).remontee_en_cours == (sature || r.remontee_depuis < 59),
        r.suivant(sature).remontee_en_cours ==> r.suivant(sature).remontee_depuis == un_de_plus(
            r.remontee_depuis,
        ),
        r.suivant(sature).verrou == r.verrou,
        r.suivant(sature).cran == r.cran,
{
}

/// During the rest nothing is decided, whatever is observed.
pub proof fn loi_repos(r: Regulateur, obs: Seq<bool>)
    requires
        r.valide(),
        r.crans is Some,
        obs.len() <= r.repos,
    ensures
        apres(r, obs).cran == r.cran,
        apres(r, obs).repos == r.repos - obs.len(),
        obs.len() > 0 ==> apres(r, obs).saturees == 0 && apres(r, obs).calmes == 0,
    decreases obs.len(),
{
    if obs.len() > 0 {
        loi_repos(r, obs.drop_last());
        loi_regulateur_reste_valide(r, obs.drop_last());
    }
}

/// The fifth second of saturation in a row brings the broadcast down a step,
/// and none before it.
pub proof fn loi_cinq_secondes(r: Regulateur, k: nat)
    requires
        r.valide(),
        r.crans is Some,
        r.repos == 0,
        r.saturees == 0,
        r.cran + 1 < r.hauteur(),
        k <= 4,
    ensures
        apres(r, Seq::new(k, |i: int| true)).saturees == k,
        apres(r, Seq::new(k, |i: int| true)).cran == r.cran,
        apres(r, Seq::new(k, |i: int| true)).repos == 0,
        apres(r, Seq::new(k, |i: int| true)).decision(true) == if k == 4 {
            Some(Cran::Descente)
        } else {
            None
        },
    decreases k,
{
    loi_regulateur_reste_valide(r, Seq::new(k, |i: int| true));
    if k > 0 {
        loi_cinq_secondes(r, (k - 1) as nat);
        let obs = Seq::new(k, |i: int| true);
        assert(obs.drop_last() =~= Seq::new((k - 1) as nat, |i: int| true));
    }
}

/// The hundred and twentieth second of calm in a row brings it up again where
/// that is still allowed, and none before it.
pub proof fn loi_deux_minutes(r: Regulateur, k: nat)
    requires
        r.valide(),
        r.crans is Some,
        r.repos == 0,
        r.calmes == 0,
        r.cran > 0,
        !r.verrou,
        r.remontees < 2,
        k <= 119,
    ensures
        apres(r, Seq::new(k, |i: int| false)).calmes == k,
        apres(r, Seq::new(k, |i: int| false)).cran == r.cran,
        apres(r, Seq::new(k, |i: int| false)).repos == 0,
        !apres(r, Seq::new(k, |i: int| false)).verrou,
        apres(r, Seq::new(k, |i: int| false)).remontees == r.remontees,
        apres(r, Seq::new(k, |i: int| false)).decision(false) == if k == 119 {
            Some(Cran::Remontee)
        } else {
            None
        },
    decreases k,
{
    loi_regulateur_reste_valide(r, Seq::new(k, |i: int| false));
    if k > 0 {
        loi_deux_minutes(r, (k - 1) as nat);
        let obs = Seq::new(k, |i: int| false);
        assert(obs.drop_last() =~= Seq::new((k - 1) as nat, |i: int| false));
    }
}

/// The observations at the end of a row that are all alike, and how many of
/// them there are at least.
pub open spec fn finit_par(obs: Seq<bool>, n: int, sature: bool) -> bool {
    &&& 0 <= n <= obs.len()
    &&& forall|k: int| obs.len() - n <= k < obs.len() ==> #[trigger] obs[k] == sature
}

proof fn lemme_comptes(r: Regulateur, obs: Seq<bool>)
    requires
        r.valide(),
        r.crans is Some,
        r.calmes == 0,
        r.saturees == 0,
    ensures
        finit_par(obs, apres(r, obs).calmes as int, false),
        finit_par(obs, apres(r, obs).saturees as int, true),
    decreases obs.len(),
{
    if obs.len() > 0 {
        let o = obs.drop_last();
        lemme_comptes(r, o);
        loi_regulateur_reste_valide(r, o);
        assert forall|k: int|
            obs.len() - apres(r, obs).calmes <= k < obs.len() implies #[trigger] obs[k] == false by {
            if k < o.len() {
                assert(o[k] == obs[k]);
            }
        }
        assert forall|k: int|
            obs.len() - apres(r, obs).saturees <= k < obs.len() implies #[trigger] obs[k] == true by {
            if k < o.len() {
                assert(o[k] == obs[k]);
            }
        }
    }
}

/// Whatever was observed, a saturated second leaves no calm to build on, and a
/// calm one no saturation.
pub proof fn loi_un_contraire_efface(r: Regulateur, sature: bool)
    requires
        r.valide(),
        r.crans is Some,
    ensures
        sature ==> r.suivant(sature).calmes == 0,
        !sature ==> r.suivant(sature).saturees == 0,
{
}

/// A step up is decided at the end of two minutes without a single saturated
/// second, and a step down at the end of five saturated seconds in a row: on
/// every row of observations, however calm and saturation mix in it, the last 120
/// or the last 5 of them, the deciding one counted, are all alike.
pub proof fn loi_decision_meritee(r: Regulateur, obs: Seq<bool>, o: bool)
    requires
        r.valide(),
        r.calmes == 0,
        r.saturees == 0,
    ensures
        apres(r, obs).decision(o) == Some(Cran::Remontee) ==> finit_par(obs.push(o), 120, false),
        apres(r, obs).decision(o) == Some(Cran::Descente) ==> finit_par(obs.push(o), 5, true),
{
    loi_regulateur_reste_valide(r, obs);
    if r.crans is Some {
        lemme_comptes(r, obs);
    }
    let t = obs.push(o);
    let a = apres(r, obs);
    if a.decision(o) == Some(Cran::Remontee) {
        assert(a.calmes >= 119 && !o);
        assert forall|k: int| t.len() - 120 <= k < t.len() implies #[trigger] t[k] == false by {
            if k < obs.len() {
                assert(obs[k] == t[k]);
            }
        }
    }
    if a.decision(o) == Some(Cran::Descente) {
        assert(a.saturees >= 4 && o);
        assert forall|k: int| t.len() - 5 <= k < t.len() implies #[trigger] t[k] == true by {
            if k < obs.len() {
                assert(obs[k] == t[k]);
            }
        }
    }
}

/// What is owed after a row that ends in enough of one kind: outside of a rest,
/// the fifth saturated second in a row brings the broadcast down wherever there
/// is a lower step, and the hundred and twentieth calm one brings it up wherever
/// that is still allowed, whatever came before them.
pub proof fn loi_decision_due(r: Regulateur, obs: Seq<bool>, n: int)
    requires
        r.valide(),
        r.crans is Some,
        0 <= n <= obs.len(),
        n < u32::MAX,
        forall|i: int| obs.len() - n <= i <= obs.len() ==> (#[trigger] apres(
            r,
            obs.take(i),
        )).repos == 0,
    ensures
        finit_par(obs, n, true) && n >= 4 && apres(r, obs).cran + 1 < r.hauteur() ==> apres(
            r,
            obs,
        ).decision(true) == Some(Cran::Descente),
        finit_par(obs, n, false) && n >= 119 && apres(r, obs).cran > 0 && !apres(r, obs).verrou
            && apres(r, obs).remontees < 2 ==> apres(r, obs).decision(false) == Some(
            Cran::Remontee,
        ),
{
    loi_regulateur_reste_valide(r, obs);
    if finit_par(obs, n, true) {
        lemme_compte_au_moins(r, obs, n, true);
    }
    if finit_par(obs, n, false) {
        lemme_compte_au_moins(r, obs, n, false);
    }
}

proof fn lemme_compte_au_moins(r: Regulateur, obs: Seq<bool>, n: int, sature: bool)
    requires
        r.valide(),
        r.crans is Some,
        0 <= n < u32::MAX,
        finit_par(obs, n, sature),
        forall|i: int| obs.len() - n <= i <= obs.len() ==> (#[trigger] apres(
            r,
            obs.take(i),
        )).repos == 0,
    ensures
        sature ==> apres(r, obs).saturees >= n,
        !sature ==> apres(r, obs).calmes >= n,
    decreases n,
{
    if n > 0 {
        let o = obs.drop_last();
        assert forall|i: int| o.len() - (n - 1) <= i <= o.len() implies (#[trigger] apres(
            r,
            o.take(i),
        )).repos == 0 by {
            assert(o.take(i) =~= obs.take(i));
        }
        assert forall|k: int| o.len() - (n - 1) <= k < o.len() implies #[trigger] o[k] == sature by {
            assert(o[k] == obs[k]);
        }
        lemme_compte_au_moins(r, o, n - 1, sature);
        loi_regulateur_reste_valide(r, o);
        assert(obs.take(obs.len() as int) =~= obs);
        assert(apres(r, obs).repos == 0);
        assert(o =~= obs.take(obs.len() - 1));
        assert(apres(r, o).repos == 0);
        assert(obs.last() == sature);
        assert(apres(r, o).decision(sature) is None);
    }
}

/// How many of the decisions taken along a row are of one kind.
pub open spec fn nombre_de(r: Regulateur, obs: Seq<bool>, c: Cran) -> nat
    decreases obs.len(),
{
    if obs.len() == 0 {
        0
    } else {
        nombre_de(r, obs.drop_last(), c) + if apres(r, obs.drop_last()).decision(obs.last())
            == Some(c) {
            1nat
        } else {
            0nat
        }
    }
}

/// Along any row of observations the step in force goes down by one at each
/// step down and up by one at each step up, and a broadcast that starts goes up
/// twice at most.
pub proof fn loi_deux_remontees_au_plus(r: Regulateur, obs: Seq<bool>)
    requires
        r.valide(),
    ensures
        apres(r, obs).cran == r.cran + nombre_de(r, obs, Cran::Descente) - nombre_de(
            r,
            obs,
            Cran::Remontee,
        ),
        apres(r, obs).remontees == r.remontees + nombre_de(r, obs, Cran::Remontee),
        nombre_de(r, obs, Cran::Remontee) <= 2,
    decreases obs.len(),
{
    loi_regulateur_reste_valide(r, obs);
    if obs.len() > 0 {
        loi_deux_remontees_au_plus(r, obs.drop_last());
        loi_regulateur_reste_valide(r, obs.drop_last());
    }
}

/// A decision is followed by fifteen seconds in which none is taken, whatever is
/// observed.
pub proof fn loi_quinze_secondes_de_repos(r: Regulateur, o: bool, obs: Seq<bool>, suivante: bool)
    requires
        r.valide(),
        r.decision(o) is Some,
        obs.len() < 15,
    ensures
        apres(r.suivant(o), obs).decision(suivante) is None,
{
    loi_regulateur_reste_valide(r, seq![o]);
    reveal_with_fuel(apres, 2);
    assert(seq![o].drop_last() =~= Seq::empty());
    loi_repos(r.suivant(o), obs);
}

/// A rise on trial is confirmed by the first calm second that comes once 59
/// others have passed, and by nothing before: on any row along which nothing is
/// decided.
pub proof fn loi_essai_d_une_remontee(r: Regulateur, obs: Seq<bool>)
    requires
        r.valide(),
        r.crans is Some,
        r.remontee_en_cours,
        r.remontee_depuis == 0,
        obs.len() < u32::MAX,
        forall|i: int| 0 <= i < obs.len() ==> (#[trigger] apres(r, obs.take(i))).decision(obs[i])
            is None,
    ensures
        apres(r, obs).remontee_en_cours == !(exists|k: int|
            59 <= k < obs.len() && #[trigger] obs[k] == false),
        apres(r, obs).verrou == r.verrou,
        apres(r, obs).remontee_en_cours ==> apres(r, obs).remontee_depuis == obs.len(),
    decreases obs.len(),
{
    if obs.len() > 0 {
        let o = obs.drop_last();
        assert forall|i: int| 0 <= i < o.len() implies (#[trigger] apres(r, o.take(i))).decision(
            o[i],
        ) is None by {
            assert(o.take(i) =~= obs.take(i));
        }
        loi_essai_d_une_remontee(r, o);
        loi_regulateur_reste_valide(r, o);
        assert(o =~= obs.take(obs.len() - 1));
        let a = apres(r, o);
        assert(a.decision(obs[obs.len() - 1]) is None);
        if exists|k: int| 59 <= k < o.len() && #[trigger] o[k] == false {
            let k = choose|k: int| 59 <= k < o.len() && #[trigger] o[k] == false;
            assert(obs[k] == false);
        }
        if exists|k: int| 59 <= k < obs.len() && #[trigger] obs[k] == false {
            let k = choose|k: int| 59 <= k < obs.len() && #[trigger] obs[k] == false;
            if k < o.len() {
                assert(o[k] == false);
            }
        }
    }
}

/// A rise that has to come down again while it is on trial locks the broadcast
/// where it lands, for good; a step down at any other time locks nothing.
pub proof fn loi_yo_yo_interdit(r: Regulateur, obs: Seq<bool>)
    requires
        r.valide(),
        r.decision(true) == Some(Cran::Descente),
    ensures
        r.remontee_en_cours ==> r.suivant(true).verrou && nombre_de(
            r.suivant(true),
            obs,
            Cran::Remontee,
        ) == 0,
        !r.remontee_en_cours && !r.verrou ==> !r.suivant(true).verrou,
    decreases obs.len(),
{
    reveal_with_fuel(apres, 2);
    assert(seq![true].drop_last() =~= Seq::empty());
    loi_regulateur_reste_valide(r, seq![true]);
    if r.remontee_en_cours && obs.len() > 0 {
        loi_yo_yo_interdit(r, obs.drop_last());
        loi_verrou(r.suivant(true), obs.drop_last());
    }
}

/// The steps that a broadcast can go down: its frame rate to thirty first, where
/// it is higher, then its height to 1080 and to 720, each where it is higher, at
/// that frame rate.
pub proof fn loi_paliers_complets(hauteur: u32, fps: u32)
    ensures
        ({
            let p = paliers(hauteur, fps);
            let f: u32 = if fps > 30 {
                30
            } else {
                fps
            };
            let n: int = if fps > 30 {
                2
            } else {
                1
            };
            &&& p[0] == (hauteur, fps)
            &&& fps > 30 ==> p[1] == (hauteur, 30u32)
            &&& hauteur > 1080 ==> p.len() == n + 2 && p[n] == (1080u32, f) && p[n + 1] == (
                720u32,
                f,
            )
            &&& 720 < hauteur <= 1080 ==> p.len() == n + 1 && p[n] == (720u32, f)
            &&& hauteur <= 720 ==> p.len() == n
        }),
{
}

/// The measures are looked at once a second at most, once there is a picture:
/// what is judged are the frames skipped since the last look. The steps are those
/// of the first picture, for good.
pub proof fn loi_un_regard_par_seconde(
    avant: Regulateur,
    apres: Regulateur,
    maintenant: u64,
    hauteur: u32,
    fps: u32,
    sautees: u64,
    r: Option<u64>,
)
    requires
        avant.releve(apres, maintenant, hauteur, fps, sautees, r),
    ensures
        maintenant < avant.derniere + 1000 ==> apres == avant && r is None,
        maintenant >= avant.derniere + 1000 ==> apres.derniere == maintenant,
        r is Some ==> maintenant >= avant.derniere + 1000 && hauteur != 0,
        r is Some && sautees >= avant.sautees ==> r->0 == sautees - avant.sautees,
        r is Some ==> apres.sautees == sautees,
        avant.crans is Some ==> apres.crans == avant.crans,
        avant.crans is None && apres.crans is Some ==> apres.crans->0@ == paliers(hauteur, fps),
        apres.cran == avant.cran && apres.verrou == avant.verrou && apres.calmes == avant.calmes,
        apres.saturees == avant.saturees && apres.repos == avant.repos,
        maintenant >= avant.derniere + 1000 && hauteur != 0 && avant.crans is Some
            && avant.crans->0@.len() >= 2 ==> r is Some,
        maintenant >= avant.derniere + 1000 && hauteur > 720 && avant.crans is None ==> r is Some,
{
    loi_paliers_complets(hauteur, fps);
}

/// What is read of a broadcast's settings always lies within their bounds.
pub proof fn loi_reglages_bornes(lu: Reglages, t: Stockes)
    requires
        lu.relus(t),
    ensures
        1 <= lu.fps <= 120,
        500 <= lu.kbps <= 50_000,
{
}

/// A source that was not stored, or not as one, is the main screen; a screen is
/// read by its number and a window by its title, colons and all.
pub proof fn loi_source_lue(s: CaptureSource, titre: Seq<char>, n: nat)
    requires
        n <= u32::MAX,
    ensures
        source_lue(s, Seq::empty()) ==> s == CaptureSource::Monitor(0),
        !titre.contains(':') && source_lue(s, titre) ==> s == CaptureSource::Monitor(0),
        source_lue(s, "ecran:"@ + texte::decimal(n)) ==> s == CaptureSource::Monitor(n as u32),
        titre.len() > 0 && source_lue(s, "fenetre:"@ + titre) ==> (s matches CaptureSource::Window(
            w,
        ) && w@ == titre),
{
    reveal_strlit("ecran:");
    reveal_strlit("fenetre:");
    reveal_strlit("ecran");
    reveal_strlit("fenetre");
    let vide = Seq::<char>::empty();
    texte::loi_coupe_au_premier(vide, ':');
    assert(!vide.contains(':'));
    texte::loi_coupe_au_premier(titre, ':');
    assert("ecran:"@ + texte::decimal(n) =~= "ecran"@ + seq![':'] + texte::decimal(n));
    assert("fenetre:"@ + titre =~= "fenetre"@ + seq![':'] + titre);
    assert(!"ecran"@.contains(':')) by {
        assert("ecran"@ =~= seq!['e', 'c', 'r', 'a', 'n']);
    }
    assert(!"fenetre"@.contains(':')) by {
        assert("fenetre"@ =~= seq!['f', 'e', 'n', 'e', 't', 'r', 'e']);
    }
    texte::loi_coupe_se_relit("ecran"@, ':', texte::decimal(n));
    texte::loi_coupe_se_relit("fenetre"@, ':', titre);
    texte::loi_decimal_se_relit(n);
    assert("ecran"@.len() != "fenetre"@.len());
}

/// A machine has a print of its own, that is never zero: the name of the machine,
/// a zero, and the account that runs the program, one after the other.
pub proof fn loi_empreinte_de_machine(nom: Seq<u8>, compte: Seq<u8>)
    ensures
        empreinte_de(nom, compte) != 0,
        empreinte::fnv(empreinte::BASE, nom + seq![0u8] + compte) != 0 ==> empreinte_de(nom, compte)
            == empreinte::fnv(empreinte::BASE, nom + seq![0u8] + compte),
{
    empreinte::loi_empreinte_bout_a_bout(empreinte::BASE, nom + seq![0u8], compte);
    empreinte::loi_empreinte_bout_a_bout(empreinte::BASE, nom, seq![0u8]);
    assert(seq![0u8].drop_last() =~= Seq::<u8>::empty());
    reveal_with_fuel(empreinte::fnv, 2);
    assert(empreinte::fnv(empreinte::fnv(empreinte::BASE, nom), seq![0u8]) == empreinte::melange(
        empreinte::fnv(empreinte::BASE, nom),
        0,
    ));
}

/// What sources and heights are called: the main screen by that, another by its
/// number and, where it is known, its name, a window by its title; a height by
/// its lines, that of the source by that.
pub proof fn loi_noms_des_sources(ecrans: Seq<MonitorInfo>, n: u32, k: int, t: String, h: u32)
    ensures
        texte_source(CaptureSource::Monitor(0), ecrans) == "Écran principal"@,
        texte_source(CaptureSource::Window(t), ecrans) == "Fenêtre : "@ + t@,
        n != 0 && 0 <= k < ecrans.len() && ecrans[k].index == n && (forall|j: int|
            0 <= j < k ==> (#[trigger] ecrans[j]).index != n) ==> texte_source(
            CaptureSource::Monitor(n),
            ecrans,
        ) == "Écran "@ + texte::decimal(n as nat) + " — "@ + ecrans[k].name@,
        n != 0 && (forall|j: int| 0 <= j < ecrans.len() ==> (#[trigger] ecrans[j]).index != n)
            ==> texte_source(CaptureSource::Monitor(n), ecrans) == "Écran "@ + texte::decimal(
            n as nat,
        ),
        texte_hauteur(0) == "Native"@,
        h != 0 ==> texte_hauteur(h) == texte::decimal(h as nat) + "p"@,
{
    lemme_nom_ecran(ecrans, n, k);
}

proof fn lemme_nom_ecran(ecrans: Seq<MonitorInfo>, n: u32, k: int)
    ensures
        0 <= k < ecrans.len() && ecrans[k].index == n && (forall|j: int|
            0 <= j < k ==> (#[trigger] ecrans[j]).index != n) ==> nom_ecran(ecrans, n) == Some(
            ecrans[k].name@,
        ),
        (forall|j: int| 0 <= j < ecrans.len() ==> (#[trigger] ecrans[j]).index != n) ==> nom_ecran(
            ecrans,
            n,
        ) is None,
    decreases ecrans.len(),
{
    if ecrans.len() > 0 {
        let u = ecrans.drop_first();
        lemme_nom_ecran(u, n, k - 1);
        assert forall|j: int| 0 <= j < u.len() implies u[j] == ecrans[j + 1] by {}
        if k > 0 && k < ecrans.len() {
            assert(u[k - 1] == ecrans[k]);
        }
    }
}

/// A window is offered by its title, and by the program it belongs to where that
/// is known.
pub proof fn loi_fenetre_offerte(f: WindowInfo)
    ensures
        f.process@.len() == 0 ==> texte_choix_fenetre(f) == f.title@,
        f.process@.len() > 0 ==> texte_choix_fenetre(f) == f.title@ + " — "@ + f.process@,
{
}

/// A regulator that is new has decided nothing: it is at the setting, may go up
/// twice, and nothing is counted.
pub proof fn loi_regulateur_neuf(r: Regulateur)
    requires
        r.neuf(),
    ensures
        r.crans is None && r.cran == 0 && r.remontees == 0 && !r.verrou && r.repos == 0,
        r.saturees == 0 && r.calmes == 0 && !r.remontee_en_cours,
        r.decision(true) is None && r.decision(false) is None,
{
}

} // verus!
