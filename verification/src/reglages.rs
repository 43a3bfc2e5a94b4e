//! The audio settings: what is kept of them from one session to the next, and
//! what changing one asks of the engine.

use crate::ptt::PttKey;
use crate::session::{Effet, Session, Son, Vocal};
use crate::texte;
use crate::vocal;
use crate::vocal::{Debit, MicMode};
use vstd::prelude::*;

verus! {

/// What is kept of the settings.
#[derive(Debug)]
pub struct Preferences {
    pub maximized: bool,
    pub sfx_on: bool,
    /// The sounds that are muted, each once.
    pub sfx_muted: Vec<String>,
    /// The version that was refused.
    pub refused: Option<String>,
    pub mode: MicMode,
    pub ptt_key: PttKey,
    /// The devices; none for those of the system.
    pub pref_input: Option<String>,
    pub pref_output: Option<String>,
    pub native_audio: bool,
    pub raw_mic: bool,
    pub comms_mic: bool,
    pub noise_mode: u8,
    pub vad_hangover_ms: u32,
    pub debit: Debit,
    pub agc: bool,
    pub jitter_frames: usize,
    pub ptt_release_ms: u32,
    pub diag_share: bool,
}

/// The settings as they are stored: one text per key.
#[derive(Debug)]
pub struct Textes {
    pub window_maximized: String,
    pub sfx_on: String,
    pub sfx_muted: String,
    pub update_skipped: String,
    pub mic_mode: String,
    pub ptt_key: String,
    pub input_device: String,
    pub output_device: String,
    pub native_audio: String,
    pub raw_mic: String,
    pub comms_mic: String,
    pub noise_mode: String,
    pub vad_hangover_ms: String,
    pub bitrate: String,
    pub dred_mode: String,
    pub agc: String,
    pub jitter_frames: String,
    pub ptt_release_ms: String,
    pub diag_share: String,
}

// ---------------------------------------------------------------------
// Lists of names
// ---------------------------------------------------------------------

/// Names without the empty ones, each once.
pub open spec fn sans_doublons(p: Seq<Seq<char>>) -> Seq<Seq<char>>
    decreases p.len(),
{
    if p.len() == 0 {
        Seq::empty()
    } else {
        let avant = sans_doublons(p.drop_last());
        if p.last().len() == 0 || avant.contains(p.last()) {
            avant
        } else {
            avant.push(p.last())
        }
    }
}

/// The names that stand between commas, each once.
pub open spec fn noms_lus(s: Seq<char>) -> Seq<Seq<char>> {
    sans_doublons(texte::separe(s, ','))
}

pub open spec fn vues(v: Seq<String>) -> Seq<Seq<char>> {
    Seq::new(v.len(), |i: int| v[i]@)
}

/// Names that can be stored: none is empty, holds a comma or is there twice.
pub open spec fn noms_valides(v: Seq<Seq<char>>) -> bool {
    &&& forall|i: int| 0 <= i < v.len() ==> (#[trigger] v[i]).len() > 0 && !v[i].contains(',')
    &&& forall|i: int, j: int| 0 <= i < j < v.len() ==> #[trigger] v[i] != #[trigger] v[j]
}

fn contient(v: &Vec<String>, nom: &str) -> (r: bool)
    ensures
        r == vues(v@).contains(nom@),
{
    let mut i: usize = 0;
    while i < v.len()
        invariant
            i <= v@.len(),
            forall|k: int| 0 <= k < i ==> (#[trigger] v@[k])@ != nom@,
        decreases v@.len() - i,
    {
        if texte::egal(v[i].as_str(), nom) {
            assert(vues(v@)[i as int] == nom@);
            return true;
        }
        i += 1;
    }
    proof {
        if vues(v@).contains(nom@) {
            let k = choose|k: int| 0 <= k < vues(v@).len() && vues(v@)[k] == nom@;
            assert(v@[k]@ == nom@);
        }
    }
    false
}

/// Reads names that stand between commas.
pub fn lire_noms(s: &str) -> (r: Vec<String>)
    ensures
        vues(r@) == noms_lus(s@),
{
    let p: Vec<&str> = texte::separer(s, ',');
    let ghost v = texte::vues_str(p@);
    let mut r: Vec<String> = Vec::new();
    let mut i: usize = 0;
    assert(vues(r@) =~= sans_doublons(v.take(0)));
    while i < p.len()
        invariant
            v == texte::vues_str(p@),
            i <= p@.len(),
            vues(r@) == sans_doublons(v.take(i as int)),
        decreases p@.len() - i,
    {
        proof {
            assert(v.take(i + 1).drop_last() =~= v.take(i as int));
            assert(v.take(i + 1).last() == p@[i as int]@);
        }
        let ghost avant = vues(r@);
        if !p[i].is_empty() && !contient(&r, p[i]) {
            r.push(p[i].to_owned());
            assert(vues(r@) =~= avant.push(p@[i as int]@));
        }
        i += 1;
    }
    assert(v.take(i as int) =~= v);
    r
}

/// Writes names with commas between them.
pub fn ecrire_noms(v: &Vec<String>) -> (s: String)
    ensures
        s@ == texte::jointes(vues(v@), ','),
{
    let ghost tous = vues(v@);
    let mut s: String = String::new();
    let mut i: usize = 0;
    assert(tous.skip(0) =~= tous);
    assert(s@ + texte::jointes(tous.skip(0), ',') =~= texte::jointes(tous, ','));
    while i < v.len()
        invariant
            tous == vues(v@),
            i <= v@.len(),
            s@ + texte::jointes(tous.skip(i as int), ',') == texte::jointes(tous, ','),
        decreases v@.len() - i,
    {
        let ghost reste = tous.skip(i as int);
        let ghost avant = s@;
        assert(reste[0] == v@[i as int]@);
        assert(reste.skip(1) =~= tous.skip(i + 1));
        s.append(v[i].as_str());
        if i + 1 < v.len() {
            s.push(',');
            assert(s@ + texte::jointes(tous.skip(i + 1), ',') =~= avant + texte::jointes(
                reste,
                ',',
            ));
        } else {
            assert(tous.skip(i + 1).len() == 0);
            assert(s@ + texte::jointes(tous.skip(i + 1), ',') =~= avant + texte::jointes(
                reste,
                ',',
            ));
        }
        i += 1;
    }
    assert(tous.skip(i as int).len() == 0);
    assert(s@ + texte::jointes(tous.skip(i as int), ',') =~= s@);
    s
}

proof fn lemme_deja_uniques(v: Seq<Seq<char>>)
    requires
        noms_valides(v),
    ensures
        sans_doublons(v) == v,
    decreases v.len(),
{
    if v.len() > 0 {
        let d = v.drop_last();
        assert forall|i: int| 0 <= i < d.len() implies (#[trigger] d[i]).len() > 0 && !d[i].contains(
            ',',
        ) by {
            assert(d[i] == v[i]);
        }
        assert forall|i: int, j: int| 0 <= i < j < d.len() implies #[trigger] d[i]
            != #[trigger] d[j] by {
            assert(d[i] == v[i] && d[j] == v[j]);
        }
        lemme_deja_uniques(d);
        assert(v[v.len() - 1].len() > 0);
        if d.contains(v.last()) {
            let i = choose|i: int| 0 <= i < d.len() && d[i] == v.last();
            assert(v[i] == v[v.len() - 1]);
        }
        assert(d.push(v.last()) =~= v);
    }
}

/// Names are read back as they were stored.
pub proof fn loi_noms_se_relisent(v: Seq<Seq<char>>)
    requires
        noms_valides(v),
    ensures
        noms_lus(texte::jointes(v, ',')) == v,
{
    if v.len() == 0 {
        let vide = Seq::<char>::empty();
        assert(texte::jointes(v, ',') =~= vide);
        assert(texte::separe(vide, ',') =~= seq![vide]);
        assert(seq![vide].drop_last() =~= Seq::<Seq<char>>::empty());
        reveal_with_fuel(sans_doublons, 2);
        assert(noms_lus(vide) =~= v);
    } else {
        texte::loi_separe_se_relit(v, ',');
        lemme_deja_uniques(v);
    }
}

// ---------------------------------------------------------------------
// Reading and writing
// ---------------------------------------------------------------------

/// The number that a text stands for, or another one.
pub open spec fn nombre_ou(s: Seq<char>, max: nat, defaut: int) -> int {
    match texte::nombre_borne(s, max) {
        Some(n) => n as int,
        None => defaut,
    }
}

fn lire_ou(s: &str, max: u64, defaut: u64) -> (r: u64)
    requires
        defaut <= max,
    ensures
        r == nombre_ou(s@, max as nat, defaut as int),
        r <= max,
{
    match texte::lire_nombre(s, max) {
        Some(n) => n,
        None => defaut,
    }
}

/// A text, or nothing where it is empty.
pub open spec fn plein(s: Seq<char>) -> Option<Seq<char>> {
    if s.len() > 0 {
        Some(s)
    } else {
        None
    }
}

fn si_plein(s: &str) -> (r: Option<String>)
    ensures
        texte::vue(r) == plein(s@),
{
    if s.is_empty() {
        None
    } else {
        Some(s.to_owned())
    }
}

pub open spec fn marche(oui: bool) -> Seq<char> {
    if oui {
        "on"@
    } else {
        "off"@
    }
}

fn en_marche(oui: bool) -> (r: String)
    ensures
        r@ == marche(oui),
{
    if oui {
        "on".to_owned()
    } else {
        "off".to_owned()
    }
}

/// The key stored under a name; Alt where there is none.
pub open spec fn touche_lue(s: Seq<char>, k: PttKey) -> bool {
    k.nom() == s || (k == PttKey::LAlt && forall|q: PttKey| #[trigger] q.nom() != s)
}

impl Preferences {
    /// These are the settings that the texts stand for, where `rnnoise` is the
    /// ordinary way of removing noise.
    pub open spec fn relus(self, t: Textes, rnnoise: u8) -> bool {
        &&& self.maximized == (t.window_maximized@ == "on"@)
        &&& self.sfx_on == (t.sfx_on@ == "on"@)
        &&& vues(self.sfx_muted@) == noms_lus(t.sfx_muted@)
        &&& texte::vue(self.refused) == plein(t.update_skipped@)
        &&& self.mode == MicMode::nomme(t.mic_mode@)
        &&& touche_lue(t.ptt_key@, self.ptt_key)
        &&& texte::vue(self.pref_input) == plein(t.input_device@)
        &&& texte::vue(self.pref_output) == plein(t.output_device@)
        &&& self.native_audio == (t.native_audio@ != "off"@)
        &&& self.raw_mic == (t.raw_mic@ == "on"@)
        &&& self.comms_mic == (t.comms_mic@ == "on"@)
        &&& self.noise_mode == nombre_ou(t.noise_mode@, 255, rnnoise as int)
        &&& self.vad_hangover_ms == nombre_ou(t.vad_hangover_ms@, u32::MAX as nat, 400)
        &&& self.debit == (Debit {
            bitrate: match texte::entier_i32(t.bitrate@) {
                Some(b) => b as i32,
                None => 0,
            },
            auto_bitrate: 64_000,
            good_reports: 0,
            dred_mode: nombre_ou(t.dred_mode@, 255, 1) as u8,
            dred_active: false,
        })
        &&& self.agc == (t.agc@ != "off"@)
        &&& self.jitter_frames == nombre_ou(t.jitter_frames@, usize::MAX as nat, 0)
        &&& self.ptt_release_ms == nombre_ou(t.ptt_release_ms@, u32::MAX as nat, 100)
        &&& self.diag_share == (t.diag_share@ == "on"@)
    }

    /// These are the texts that keep the settings.
    pub open spec fn ecrits(self, t: Textes) -> bool {
        &&& t.window_maximized@ == marche(self.maximized)
        &&& t.sfx_on@ == marche(self.sfx_on)
        &&& t.sfx_muted@ == texte::jointes(vues(self.sfx_muted@), ',')
        &&& t.update_skipped@ == ou_vide(self.refused)
        &&& t.mic_mode@ == self.mode.nom()
        &&& t.ptt_key@ == self.ptt_key.nom()
        &&& t.input_device@ == ou_vide(self.pref_input)
        &&& t.output_device@ == ou_vide(self.pref_output)
        &&& t.native_audio@ == marche(self.native_audio)
        &&& t.raw_mic@ == marche(self.raw_mic)
        &&& t.comms_mic@ == marche(self.comms_mic)
        &&& t.noise_mode@ == texte::decimal(self.noise_mode as nat)
        &&& t.vad_hangover_ms@ == texte::decimal(self.vad_hangover_ms as nat)
        &&& t.bitrate@ == texte::signe(self.debit.bitrate as int)
        &&& t.dred_mode@ == texte::decimal(self.debit.dred_mode as nat)
        &&& t.agc@ == marche(self.agc)
        &&& t.jitter_frames@ == texte::decimal(self.jitter_frames as nat)
        &&& t.ptt_release_ms@ == texte::decimal(self.ptt_release_ms as nat)
        &&& t.diag_share@ == marche(self.diag_share)
    }

    /// The settings that texts stand for. What cannot be read has its default.
    pub fn lire(t: &Textes, rnnoise: u8) -> (r: Preferences)
        ensures
            r.relus(*t, rnnoise),
    {
        let bitrate: i32 = match texte::lire_i32(t.bitrate.as_str()) {
            Some(b) => b,
            None => 0,
        };
        let dred_mode: u8 = lire_ou(t.dred_mode.as_str(), 255, 1) as u8;
        let ptt_key: PttKey = match PttKey::from_id(t.ptt_key.as_str()) {
            Some(k) => k,
            None => PttKey::LAlt,
        };
        Preferences {
            maximized: texte::egal(t.window_maximized.as_str(), "on"),
            sfx_on: texte::egal(t.sfx_on.as_str(), "on"),
            sfx_muted: lire_noms(t.sfx_muted.as_str()),
            refused: si_plein(t.update_skipped.as_str()),
            mode: MicMode::depuis(t.mic_mode.as_str()),
            ptt_key,
            pref_input: si_plein(t.input_device.as_str()),
            pref_output: si_plein(t.output_device.as_str()),
            native_audio: !texte::egal(t.native_audio.as_str(), "off"),
            raw_mic: texte::egal(t.raw_mic.as_str(), "on"),
            comms_mic: texte::egal(t.comms_mic.as_str(), "on"),
            noise_mode: lire_ou(t.noise_mode.as_str(), 255, rnnoise as u64) as u8,
            vad_hangover_ms: lire_ou(t.vad_hangover_ms.as_str(), 0xffff_ffff, 400) as u32,
            debit: Debit {
                bitrate,
                auto_bitrate: 64_000,
                good_reports: 0,
                dred_mode,
                dred_active: false,
            },
            agc: !texte::egal(t.agc.as_str(), "off"),
            jitter_frames: lire_ou(t.jitter_frames.as_str(), usize::MAX as u64, 0) as usize,
            ptt_release_ms: lire_ou(t.ptt_release_ms.as_str(), 0xffff_ffff, 100) as u32,
            diag_share: texte::egal(t.diag_share.as_str(), "on"),
        }
    }

    /// The texts are what a store answers to the keys.
    pub open spec fn tires_de<G: Fn(&str, &str) -> String>(get: G, t: Textes) -> bool {
        &&& get.ensures(("window_maximized", ""), t.window_maximized)
        &&& get.ensures(("sfx_on", "on"), t.sfx_on)
        &&& get.ensures(("sfx_muted", ""), t.sfx_muted)
        &&& get.ensures(("update_skipped", ""), t.update_skipped)
        &&& get.ensures(("mic_mode", "ptt"), t.mic_mode)
        &&& get.ensures(("ptt_key", "lalt"), t.ptt_key)
        &&& get.ensures(("input_device", ""), t.input_device)
        &&& get.ensures(("output_device", ""), t.output_device)
        &&& get.ensures(("native_audio", "on"), t.native_audio)
        &&& get.ensures(("raw_mic", "off"), t.raw_mic)
        &&& get.ensures(("comms_mic", "off"), t.comms_mic)
        &&& get.ensures(("noise_mode", "1"), t.noise_mode)
        &&& get.ensures(("vad_hangover_ms", "400"), t.vad_hangover_ms)
        &&& get.ensures(("bitrate", "0"), t.bitrate)
        &&& get.ensures(("dred_mode", "1"), t.dred_mode)
        &&& get.ensures(("agc", "on"), t.agc)
        &&& get.ensures(("jitter_frames", "0"), t.jitter_frames)
        &&& get.ensures(("ptt_release_ms", "100"), t.ptt_release_ms)
        &&& get.ensures(("diag_share", "off"), t.diag_share)
    }

    /// Reads the settings from a store, which answers a key and a default with
    /// a text.
    pub fn load<G: Fn(&str, &str) -> String>(get: G, rnnoise: u8) -> (r: Preferences)
        requires
            forall|cle: &str, defaut: &str| #[trigger] get.requires((cle, defaut)),
        ensures
            exists|t: Textes| #[trigger] r.relus(t, rnnoise) && Preferences::tires_de(get, t),
    {
        let t: Textes = Textes {
            window_maximized: get("window_maximized", ""),
            sfx_on: get("sfx_on", "on"),
            sfx_muted: get("sfx_muted", ""),
            update_skipped: get("update_skipped", ""),
            mic_mode: get("mic_mode", "ptt"),
            ptt_key: get("ptt_key", "lalt"),
            input_device: get("input_device", ""),
            output_device: get("output_device", ""),
            native_audio: get("native_audio", "on"),
            raw_mic: get("raw_mic", "off"),
            comms_mic: get("comms_mic", "off"),
            noise_mode: get("noise_mode", "1"),
            vad_hangover_ms: get("vad_hangover_ms", "400"),
            bitrate: get("bitrate", "0"),
            dred_mode: get("dred_mode", "1"),
            agc: get("agc", "on"),
            jitter_frames: get("jitter_frames", "0"),
            ptt_release_ms: get("ptt_release_ms", "100"),
            diag_share: get("diag_share", "off"),
        };
        let r: Preferences = Preferences::lire(&t, rnnoise);
        assert(r.relus(t, rnnoise) && Preferences::tires_de(get, t));
        r
    }

    /// The texts that keep the settings.
    pub fn ecrire(&self) -> (t: Textes)
        ensures
            self.ecrits(t),
    {
        Textes {
            window_maximized: en_marche(self.maximized),
            sfx_on: en_marche(self.sfx_on),
            sfx_muted: ecrire_noms(&self.sfx_muted),
            update_skipped: texte_ou_vide(&self.refused),
            mic_mode: self.mode.id().to_owned(),
            ptt_key: self.ptt_key.id().to_owned(),
            input_device: texte_ou_vide(&self.pref_input),
            output_device: texte_ou_vide(&self.pref_output),
            native_audio: en_marche(self.native_audio),
            raw_mic: en_marche(self.raw_mic),
            comms_mic: en_marche(self.comms_mic),
            noise_mode: en_decimal(self.noise_mode as u64),
            vad_hangover_ms: en_decimal(self.vad_hangover_ms as u64),
            bitrate: en_signe(self.debit.bitrate),
            dred_mode: en_decimal(self.debit.dred_mode as u64),
            agc: en_marche(self.agc),
            jitter_frames: en_decimal(self.jitter_frames as u64),
            ptt_release_ms: en_decimal(self.ptt_release_ms as u64),
            diag_share: en_marche(self.diag_share),
        }
    }

    /// The keys and texts that a store keeps. The geometry of the window is kept
    /// empty: placing it is for the system.
    pub fn save(&self) -> (r: Vec<(&'static str, String)>)
        ensures
            exists|t: Textes, vide: String|
                {
                    &&& #[trigger] self.ecrits(t)
                    &&& vide@.len() == 0
                    &&& r@ == #[trigger] cles(t, vide)
                },
    {
        let t: Textes = self.ecrire();
        let vide: String = String::new();
        let ghost g = t;
        let ghost v = vide;
        let mut r: Vec<(&'static str, String)> = Vec::new();
        r.push(("window_maximized", t.window_maximized));
        r.push(("window", vide));
        r.push(("sfx_on", t.sfx_on));
        r.push(("sfx_muted", t.sfx_muted));
        r.push(("update_skipped", t.update_skipped));
        r.push(("mic_mode", t.mic_mode));
        r.push(("vad_hangover_ms", t.vad_hangover_ms));
        r.push(("bitrate", t.bitrate));
        r.push(("agc", t.agc));
        r.push(("jitter_frames", t.jitter_frames));
        r.push(("ptt_release_ms", t.ptt_release_ms));
        r.push(("noise_mode", t.noise_mode));
        r.push(("dred_mode", t.dred_mode));
        r.push(("ptt_key", t.ptt_key));
        r.push(("input_device", t.input_device));
        r.push(("output_device", t.output_device));
        r.push(("native_audio", t.native_audio));
        r.push(("raw_mic", t.raw_mic));
        r.push(("comms_mic", t.comms_mic));
        r.push(("diag_share", t.diag_share));
        assert(self.ecrits(g));
        assert(r@ =~= cles(g, v));
        r
    }
}

/// The texts under their keys.
pub open spec fn cles(t: Textes, vide: String) -> Seq<(&'static str, String)> {
    seq![
        ("window_maximized", t.window_maximized),
        ("window", vide),
        ("sfx_on", t.sfx_on),
        ("sfx_muted", t.sfx_muted),
        ("update_skipped", t.update_skipped),
        ("mic_mode", t.mic_mode),
        ("vad_hangover_ms", t.vad_hangover_ms),
        ("bitrate", t.bitrate),
        ("agc", t.agc),
        ("jitter_frames", t.jitter_frames),
        ("ptt_release_ms", t.ptt_release_ms),
        ("noise_mode", t.noise_mode),
        ("dred_mode", t.dred_mode),
        ("ptt_key", t.ptt_key),
        ("input_device", t.input_device),
        ("output_device", t.output_device),
        ("native_audio", t.native_audio),
        ("raw_mic", t.raw_mic),
        ("comms_mic", t.comms_mic),
        ("diag_share", t.diag_share),
    ]
}

pub open spec fn ou_vide(o: Option<String>) -> Seq<char> {
    match o {
        Some(t) => t@,
        None => Seq::empty(),
    }
}

fn texte_ou_vide(o: &Option<String>) -> (r: String)
    ensures
        r@ == ou_vide(*o),
{
    match o {
        Some(t) => t.clone(),
        None => String::new(),
    }
}

fn en_decimal(n: u64) -> (r: String)
    ensures
        r@ == texte::decimal(n as nat),
{
    let mut s: String = String::new();
    texte::pousser_decimal(&mut s, n);
    assert(s@ =~= texte::decimal(n as nat));
    s
}

fn en_signe(n: i32) -> (r: String)
    ensures
        r@ == texte::signe(n as int),
{
    let mut s: String = String::new();
    texte::pousser_signe(&mut s, n);
    assert(s@ =~= texte::signe(n as int));
    s
}

/// Settings are read back as they were stored: each of them, whatever it is.
/// What the network makes of the bit rate starts over with each session.
pub proof fn loi_preferences_se_relisent(a: Preferences, t: Textes, rnnoise: u8, b: Preferences)
    requires
        a.ecrits(t),
        b.relus(t, rnnoise),
        noms_valides(vues(a.sfx_muted@)),
        a.refused matches Some(r) ==> r@.len() > 0,
        a.pref_input matches Some(d) ==> d@.len() > 0,
        a.pref_output matches Some(d) ==> d@.len() > 0,
    ensures
        b.maximized == a.maximized && b.sfx_on == a.sfx_on,
        vues(b.sfx_muted@) == vues(a.sfx_muted@),
        texte::vue(b.refused) == texte::vue(a.refused),
        b.mode == a.mode && b.ptt_key == a.ptt_key,
        texte::vue(b.pref_input) == texte::vue(a.pref_input),
        texte::vue(b.pref_output) == texte::vue(a.pref_output),
        b.native_audio == a.native_audio && b.raw_mic == a.raw_mic && b.comms_mic == a.comms_mic,
        b.noise_mode == a.noise_mode && b.vad_hangover_ms == a.vad_hangover_ms,
        b.debit.bitrate == a.debit.bitrate && b.debit.dred_mode == a.debit.dred_mode,
        b.agc == a.agc && b.jitter_frames == a.jitter_frames,
        b.ptt_release_ms == a.ptt_release_ms && b.diag_share == a.diag_share,
{
    reveal_strlit("on");
    reveal_strlit("off");
    assert("on"@.len() == 2 && "off"@.len() == 3);
    loi_noms_se_relisent(vues(a.sfx_muted@));
    vocal::loi_mode_se_relit(a.mode);
    if b.ptt_key.nom() == a.ptt_key.nom() {
        crate::ptt::loi_ptt_se_relit(a.ptt_key, b.ptt_key);
    }
    texte::loi_decimal_se_relit(a.noise_mode as nat);
    texte::loi_decimal_se_relit(a.vad_hangover_ms as nat);
    texte::loi_decimal_se_relit(a.debit.dred_mode as nat);
    texte::loi_decimal_se_relit(a.jitter_frames as nat);
    texte::loi_decimal_se_relit(a.ptt_release_ms as nat);
    texte::loi_signe_se_relit(a.debit.bitrate as int);
}

// ---------------------------------------------------------------------
// Changing a setting
// ---------------------------------------------------------------------

/// A setting that is changed.
#[derive(Debug)]
pub enum Reglage {
    Micro(Option<String>),
    Sortie(Option<String>),
    MoteurNatif(bool),
    MicroBrut(bool),
    MicroPartage(bool),
    Mode(MicMode),
    Touche(PttKey),
    GainAuto(bool),
    /// How long the voice is held after the last word.
    Maintien(u32),
    Relachement(u32),
    Bruit(u8),
    Sons(bool),
    /// A sound of its own: on or off.
    Son { son: Son, actif: bool },
    Debit(i32),
    Protection(u8),
    Gigue(usize),
    Diagnostics(bool),
}

/// What a change asks of the engine.
#[derive(Debug, Clone, Copy, PartialEq, Eq, Structural)]
pub struct Suite {
    /// Push the settings to it.
    pub appliquer: bool,
    /// Start it again.
    pub redemarrer: bool,
}

pub open spec fn autre_nom(nom: Seq<char>) -> spec_fn(Seq<char>) -> bool {
    |n: Seq<char>| n != nom
}

/// A list of names with one of them taken off or put on.
pub open spec fn coupee(v: Seq<Seq<char>>, nom: Seq<char>, actif: bool) -> Seq<Seq<char>> {
    if actif {
        v.filter(autre_nom(nom))
    } else if v.contains(nom) {
        v
    } else {
        v.push(nom)
    }
}

/// What a change leaves.
pub open spec fn change(avant: Preferences, apres: Preferences, r: Reglage, s: Suite) -> bool {
    match r {
        Reglage::Micro(d) => {
            let autre = texte::vue(avant.pref_input) != texte::vue(d);
            &&& texte::vue(apres.pref_input) == texte::vue(d)
            &&& apres == (Preferences { pref_input: apres.pref_input, ..avant })
            &&& s == (Suite { appliquer: false, redemarrer: autre })
        },
        Reglage::Sortie(d) => {
            let autre = texte::vue(avant.pref_output) != texte::vue(d);
            &&& texte::vue(apres.pref_output) == texte::vue(d)
            &&& apres == (Preferences { pref_output: apres.pref_output, ..avant })
            &&& s == (Suite { appliquer: false, redemarrer: autre })
        },
        Reglage::MoteurNatif(b) => apres == (Preferences { native_audio: b, ..avant }) && s == (
        Suite { appliquer: false, redemarrer: true }),
        Reglage::MicroBrut(b) => if avant.native_audio {
            apres == (Preferences { raw_mic: b, ..avant }) && s == (Suite {
                appliquer: false,
                redemarrer: true,
            })
        } else {
            apres == avant && s == (Suite { appliquer: false, redemarrer: false })
        },
        Reglage::MicroPartage(b) => if avant.native_audio {
            apres == (Preferences { comms_mic: b, ..avant }) && s == (Suite {
                appliquer: false,
                redemarrer: true,
            })
        } else {
            apres == avant && s == (Suite { appliquer: false, redemarrer: false })
        },
        Reglage::Mode(m) => apres == (Preferences { mode: m, ..avant }) && s == (Suite {
            appliquer: avant.mode != m,
            redemarrer: false,
        }),
        Reglage::Touche(k) => apres == (Preferences { ptt_key: k, ..avant }) && s == (Suite {
            appliquer: false,
            redemarrer: false,
        }),
        Reglage::GainAuto(b) => apres == (Preferences { agc: b, ..avant }) && s == (Suite {
            appliquer: true,
            redemarrer: false,
        }),
        Reglage::Maintien(ms) => apres == (Preferences { vad_hangover_ms: ms, ..avant }) && s == (
        Suite { appliquer: true, redemarrer: false }),
        Reglage::Relachement(ms) => apres == (Preferences { ptt_release_ms: ms, ..avant }) && s == (
        Suite { appliquer: false, redemarrer: false }),
        Reglage::Bruit(m) => apres == (Preferences { noise_mode: m, ..avant }) && s == (Suite {
            appliquer: true,
            redemarrer: false,
        }),
        Reglage::Sons(b) => apres == (Preferences { sfx_on: b, ..avant }) && s == (Suite {
            appliquer: false,
            redemarrer: false,
        }),
        Reglage::Son { son, actif } => {
            &&& vues(apres.sfx_muted@) == coupee(vues(avant.sfx_muted@), son.nom(), actif)
            &&& apres == (Preferences { sfx_muted: apres.sfx_muted, ..avant })
            &&& s == (Suite { appliquer: false, redemarrer: false })
        },
        Reglage::Debit(b) => apres == (Preferences {
            debit: Debit { bitrate: b, ..avant.debit },
            ..avant
        }) && s == (Suite { appliquer: true, redemarrer: false }),
        Reglage::Protection(m) => apres == (Preferences {
            debit: Debit { dred_mode: m, ..avant.debit },
            ..avant
        }) && s == (Suite { appliquer: true, redemarrer: false }),
        Reglage::Gigue(f) => apres == (Preferences { jitter_frames: f, ..avant }) && s == (Suite {
            appliquer: true,
            redemarrer: false,
        }),
        Reglage::Diagnostics(b) => apres == (Preferences { diag_share: b, ..avant }) && s == (Suite {
            appliquer: false,
            redemarrer: false,
        }),
    }
}

fn meme_texte(a: &Option<String>, b: &Option<String>) -> (r: bool)
    ensures
        r == (texte::vue(*a) == texte::vue(*b)),
{
    match (a, b) {
        (Some(x), Some(y)) => texte::egal(x.as_str(), y.as_str()),
        (None, None) => true,
        _ => false,
    }
}

fn couper(v: &mut Vec<String>, nom: &str, actif: bool)
    ensures
        vues(final(v)@) == coupee(vues(old(v)@), nom@, actif),
{
    if !actif {
        if !contient(v, nom) {
            v.push(nom.to_owned());
            assert(vues(v@) =~= vues(old(v)@).push(nom@));
        }
        return;
    }
    let ghost p = autre_nom(nom@);
    let ghost depart = vues(v@);
    let mut r: Vec<String> = Vec::new();
    let mut i: usize = 0;
    proof {
        reveal(Seq::filter);
        assert(vues(r@) =~= depart.take(0).filter(p));
    }
    while i < v.len()
        invariant
            v@ == old(v)@,
            depart == vues(v@),
            p == autre_nom(nom@),
            i <= v@.len(),
            vues(r@) == depart.take(i as int).filter(p),
        decreases v@.len() - i,
    {
        proof {
            reveal(Seq::filter);
            assert(depart.take(i + 1).drop_last() =~= depart.take(i as int));
            assert(depart.take(i + 1).last() == v@[i as int]@);
        }
        let ghost avant = vues(r@);
        if !texte::egal(v[i].as_str(), nom) {
            r.push(v[i].clone());
            assert(vues(r@) =~= avant.push(v@[i as int]@));
        }
        i += 1;
    }
    assert(depart.take(i as int) =~= depart);
    *v = r;
}

impl Preferences {
    /// Changes one setting, and says what that asks of the engine. Choosing the
    /// device that is chosen already does not start it again.
    #[verifier::rlimit(60)]
    #[verifier::spinoff_prover]
    pub fn regler(&mut self, r: Reglage) -> (s: Suite)
        ensures
            change(*old(self), *final(self), r, s),
    {
        let rien: Suite = Suite { appliquer: false, redemarrer: false };
        let appliquer: Suite = Suite { appliquer: true, redemarrer: false };
        let redemarrer: Suite = Suite { appliquer: false, redemarrer: true };
        match r {
            Reglage::Micro(d) => {
                let autre: bool = !meme_texte(&self.pref_input, &d);
                self.pref_input = d;
                Suite { appliquer: false, redemarrer: autre }
            },
            Reglage::Sortie(d) => {
                let autre: bool = !meme_texte(&self.pref_output, &d);
                self.pref_output = d;
                Suite { appliquer: false, redemarrer: autre }
            },
            Reglage::MoteurNatif(b) => {
                self.native_audio = b;
                redemarrer
            },
            Reglage::MicroBrut(b) => {
                if self.native_audio {
                    self.raw_mic = b;
                    redemarrer
                } else {
                    rien
                }
            },
            Reglage::MicroPartage(b) => {
                if self.native_audio {
                    self.comms_mic = b;
                    redemarrer
                } else {
                    rien
                }
            },
            Reglage::Mode(m) => {
                let autre: bool = self.mode != m;
                self.mode = m;
                Suite { appliquer: autre, redemarrer: false }
            },
            Reglage::Touche(k) => {
                self.ptt_key = k;
                rien
            },
            Reglage::GainAuto(b) => {
                self.agc = b;
                appliquer
            },
            Reglage::Maintien(ms) => {
                self.vad_hangover_ms = ms;
                appliquer
            },
            Reglage::Relachement(ms) => {
                self.ptt_release_ms = ms;
                rien
            },
            Reglage::Bruit(m) => {
                self.noise_mode = m;
                appliquer
            },
            Reglage::Sons(b) => {
                self.sfx_on = b;
                rien
            },
            Reglage::Son { son, actif } => {
                couper(&mut self.sfx_muted, son.fichier(), actif);
                rien
            },
            Reglage::Debit(b) => {
                self.debit.bitrate = b;
                appliquer
            },
            Reglage::Protection(m) => {
                self.debit.dred_mode = m;
                appliquer
            },
            Reglage::Gigue(f) => {
                self.jitter_frames = f;
                appliquer
            },
            Reglage::Diagnostics(b) => {
                self.diag_share = b;
                rien
            },
        }
    }

    /// Is this sound played? Not while sounds are off, nor while it is muted.
    pub fn play_sfx(&self, son: Son) -> (r: bool)
        ensures
            r == (self.sfx_on && !vues(self.sfx_muted@).contains(son.nom())),
    {
        self.sfx_on && !contient(&self.sfx_muted, son.fichier())
    }
}

/// A sound that was turned off is not played, and turning it on again gives it
/// back; no other sound is touched.
pub proof fn loi_son_coupe(v: Seq<Seq<char>>, nom: Seq<char>, autre: Seq<char>)
    requires
        autre != nom,
    ensures
        coupee(v, nom, false).contains(nom),
        !coupee(v, nom, true).contains(nom),
        coupee(v, nom, false).contains(autre) == v.contains(autre),
        coupee(v, nom, true).contains(autre) == v.contains(autre),
{
    let p = autre_nom(nom);
    crate::listes::lemme_filtre(v, p);
    assert(coupee(v, nom, true) == v.filter(p));
    assert(v.filter(p).contains(nom) <==> v.contains(nom) && p(nom));
    assert(v.filter(p).contains(autre) <==> v.contains(autre) && p(autre));
    let w = v.push(nom);
    assert(w[v.len() as int] == nom);
    if v.contains(autre) {
        let k = choose|k: int| 0 <= k < v.len() && v[k] == autre;
        assert(w[k] == autre);
    }
    if w.contains(autre) {
        let k = choose|k: int| 0 <= k < w.len() && w[k] == autre;
        assert(k < v.len());
        assert(v[k] == autre);
    }
}

impl Session {
    /// Listens to oneself, or stops.
    pub fn ecouter(&mut self, on: bool) -> (effets: Vec<Effet>)
        ensures
            *final(self) == (Session {
                vocal: Vocal { loopback: on, ..old(self).vocal },
                ..*old(self)
            }),
            effets@ == seq![Effet::ReglerAudio],
    {
        self.vocal.loopback = on;
        let mut effets: Vec<Effet> = Vec::new();
        effets.push(Effet::ReglerAudio);
        effets
    }
}

// ---------------------------------------------------------------------
// Labels
// ---------------------------------------------------------------------

/// The thousands of a number, cut towards zero.
pub open spec fn milliers(n: int) -> int {
    if n >= 0 {
        n / 1000
    } else {
        -((-n) / 1000)
    }
}

/// A bit rate in words.
pub open spec fn debit_dit(bitrate: i32) -> Seq<char> {
    texte::signe(milliers(bitrate as int)) + " kbps"@
}

/// A bit rate in words.
pub fn libelle_debit(bitrate: i32) -> (r: String)
    ensures
        r@ == debit_dit(bitrate),
{
    let mut s: String = String::new();
    let k: i32 = if bitrate >= 0 {
        bitrate / 1000
    } else {
        let n: i64 = -(bitrate as i64);
        -((n / 1000) as i32)
    };
    texte::pousser_signe(&mut s, k);
    assert(s@ =~= texte::signe(milliers(bitrate as int)));
    s.append(" kbps");
    s
}

impl Debit {
    /// The bit rate that is chosen, in words.
    pub fn libelle(&self) -> (r: String)
        ensures
            r@ == if self.bitrate == 0 {
                "Auto ("@ + debit_dit(self.auto_bitrate) + ")"@
            } else {
                debit_dit(self.bitrate)
            },
    {
        if self.bitrate == 0 {
            let mut s: String = "Auto (".to_owned();
            let d: String = libelle_debit(self.auto_bitrate);
            s.append(d.as_str());
            s.append(")");
            s
        } else {
            libelle_debit(self.bitrate)
        }
    }

    /// What is said of the protection.
    pub fn aide_protection(&self) -> (r: &'static str)
        ensures
            r@ == if self.dred_mode == 0 {
                "redondance neuronale coupée"@
            } else if self.dred_mode == 2 {
                "≈1 s de voix re-transmise en continu dans chaque paquet"@
            } else if self.dred_active {
                "ENGAGÉE — pertes détectées, la voix est protégée"@
            } else {
                "en veille : s'engage automatiquement dès 2 % de pertes"@
            },
    {
        match self.dred_mode {
            0 => "redondance neuronale coupée",
            2 => "≈1 s de voix re-transmise en continu dans chaque paquet",
            _ => if self.dred_active {
                "ENGAGÉE — pertes détectées, la voix est protégée"
            } else {
                "en veille : s'engage automatiquement dès 2 % de pertes"
            },
        }
    }
}

/// A way of protecting the voice, in words.
pub fn libelle_protection(mode: u8) -> (r: &'static str)
    ensures
        r@ == if mode == 0 {
            "Désactivée"@
        } else if mode == 2 {
            "Toujours"@
        } else {
            "Auto (recommandé)"@
        },
{
    match mode {
        0 => "Désactivée",
        2 => "Toujours",
        _ => "Auto (recommandé)",
    }
}

/// A way of removing noise, in words; `off` and `deep` are two of them.
pub fn libelle_bruit(mode: u8, off: u8, deep: u8) -> (r: &'static str)
    ensures
        r@ == if mode == off {
            "Désactivée"@
        } else if mode == deep {
            "DeepFilterNet3 (studio, +30 ms)"@
        } else {
            "RNNoise (léger)"@
        },
{
    if mode == off {
        "Désactivée"
    } else if mode == deep {
        "DeepFilterNet3 (studio, +30 ms)"
    } else {
        "RNNoise (léger)"
    }
}

/// A size of the jitter buffer, in words: 20 ms per frame.
pub fn libelle_gigue(frames: usize) -> (r: String)
    requires
        frames * 20 <= usize::MAX,
    ensures
        r@ == if frames == 0 {
            "Auto (adaptatif)"@
        } else {
            texte::decimal((frames * 20) as nat) + " ms"@
        },
{
    if frames == 0 {
        return "Auto (adaptatif)".to_owned();
    }
    let mut s: String = en_decimal(frames as u64 * 20);
    s.append(" ms");
    s
}

/// The line that says where a silence comes from.
pub fn etat_des_sons(charges: u64, perso: u64, moteur: bool) -> (r: String)
    ensures
        r@ == texte::decimal(charges as nat) + " sons chargés ("@ + texte::decimal(perso as nat)
            + " perso) · sortie audio "@ + if moteur {
            "active"@
        } else {
            "INACTIVE — connecte-toi"@
        },
{
    let mut s: String = en_decimal(charges);
    s.append(" sons chargés (");
    texte::pousser_decimal(&mut s, perso);
    s.append(" perso) · sortie audio ");
    if moteur {
        s.append("active");
    } else {
        s.append("INACTIVE — connecte-toi");
    }
    s
}

/// What a sound goes with, in words.
pub fn libelle_son(son: Son) -> (r: &'static str)
    ensures
        r@ == match son {
            Son::Message => "Message reçu (fenêtre à l'arrière-plan)"@,
            Son::PeerJoin => "Quelqu'un arrive dans mon vocal"@,
            Son::PeerLeave => "Quelqu'un quitte mon vocal"@,
            Son::SelfJoin => "Je rejoins un vocal"@,
            Son::SelfLeave => "Je quitte le vocal"@,
            Son::Mute => "Micro coupé"@,
            Son::Unmute => "Micro réactivé"@,
        },
{
    match son {
        Son::Message => "Message reçu (fenêtre à l'arrière-plan)",
        Son::PeerJoin => "Quelqu'un arrive dans mon vocal",
        Son::PeerLeave => "Quelqu'un quitte mon vocal",
        Son::SelfJoin => "Je rejoins un vocal",
        Son::SelfLeave => "Je quitte le vocal",
        Son::Mute => "Micro coupé",
        Son::Unmute => "Micro réactivé",
    }
}

/// A change of a setting shows in that setting and in no other; the engine is
/// started again for what is settled when it starts, and is told of the rest that
/// concerns it.
pub proof fn loi_reglage_applique(avant: Preferences, apres: Preferences, r: Reglage, s: Suite)
    requires
        change(avant, apres, r, s),
    ensures
        r matches Reglage::Micro(d) ==> texte::vue(apres.pref_input) == texte::vue(d)
            && s.redemarrer == (texte::vue(avant.pref_input) != texte::vue(d)),
        r matches Reglage::Sortie(d) ==> texte::vue(apres.pref_output) == texte::vue(d)
            && s.redemarrer == (texte::vue(avant.pref_output) != texte::vue(d)),
        r matches Reglage::MoteurNatif(b) ==> apres.native_audio == b && s.redemarrer,
        r matches Reglage::MicroBrut(b) ==> (avant.native_audio ==> apres.raw_mic == b
            && s.redemarrer) && (!avant.native_audio ==> apres == avant),
        r matches Reglage::MicroPartage(b) ==> (avant.native_audio ==> apres.comms_mic == b
            && s.redemarrer) && (!avant.native_audio ==> apres == avant),
        r matches Reglage::Mode(m) ==> apres.mode == m && s.appliquer == (avant.mode != m),
        r matches Reglage::Touche(k) ==> apres.ptt_key == k && !s.appliquer,
        r matches Reglage::GainAuto(b) ==> apres.agc == b && s.appliquer,
        r matches Reglage::Maintien(ms) ==> apres.vad_hangover_ms == ms && s.appliquer,
        r matches Reglage::Relachement(ms) ==> apres.ptt_release_ms == ms && !s.appliquer,
        r matches Reglage::Bruit(m) ==> apres.noise_mode == m && s.appliquer,
        r matches Reglage::Sons(b) ==> apres.sfx_on == b && !s.appliquer,
        r matches Reglage::Debit(b) ==> apres.debit.bitrate == b && s.appliquer
            && apres.debit.auto_bitrate == avant.debit.auto_bitrate,
        r matches Reglage::Protection(m) ==> apres.debit.dred_mode == m && s.appliquer
            && apres.debit.bitrate == avant.debit.bitrate,
        r matches Reglage::Gigue(f) ==> apres.jitter_frames == f && s.appliquer,
        r matches Reglage::Diagnostics(b) ==> apres.diag_share == b && !s.appliquer,
        s.redemarrer ==> r is Micro || r is Sortie || r is MoteurNatif || r is MicroBrut || r
            is MicroPartage,
        !(r is Mode) ==> apres.mode == avant.mode,
        !(r is Micro) ==> apres.pref_input == avant.pref_input,
        !(r is Sortie) ==> apres.pref_output == avant.pref_output,
        !(r is Debit) && !(r is Protection) ==> apres.debit == avant.debit,
        !(r is Sons) ==> apres.sfx_on == avant.sfx_on,
        !(r is Son) ==> apres.sfx_muted == avant.sfx_muted,
        !(r is Diagnostics) ==> apres.diag_share == avant.diag_share,
        apres.refused == avant.refused && apres.maximized == avant.maximized,
{
}

/// A list of names that is read holds each name that was written once, at the
/// place of its first mention, and no empty one.
pub proof fn loi_sans_doublons(p: Seq<Seq<char>>, x: Seq<char>)
    ensures
        sans_doublons(p).contains(x) <==> p.contains(x) && x.len() > 0,
        forall|i: int, j: int|
            0 <= i < j < sans_doublons(p).len() ==> #[trigger] sans_doublons(p)[i]
                != #[trigger] sans_doublons(p)[j],
        sans_doublons(p).len() <= p.len(),
    decreases p.len(),
{
    if p.len() > 0 {
        let d = p.drop_last();
        let l = p.last();
        loi_sans_doublons(d, x);
        loi_sans_doublons(d, l);
        let a = sans_doublons(d);
        let r = sans_doublons(p);
        if d.contains(x) {
            let i = choose|i: int| 0 <= i < d.len() && d[i] == x;
            assert(p[i] == x);
        }
        if p.contains(x) {
            let i = choose|i: int| 0 <= i < p.len() && p[i] == x;
            if i < d.len() {
                assert(d[i] == x);
            } else {
                assert(x == l);
            }
        }
        assert(p[p.len() - 1] == l);
        if r.contains(x) {
            let i = choose|i: int| 0 <= i < r.len() && r[i] == x;
            if i < a.len() {
                assert(a[i] == x);
            }
        }
        if a.contains(x) {
            let i = choose|i: int| 0 <= i < a.len() && a[i] == x;
            assert(r[i] == x);
        }
        if l.len() > 0 && !a.contains(l) {
            assert(r[r.len() - 1] == l);
            assert forall|i: int, j: int| 0 <= i < j < r.len() implies #[trigger] r[i]
                != #[trigger] r[j] by {
                if j < a.len() {
                    assert(a[i] != a[j]);
                } else {
                    assert(a[i] == r[i]);
                    assert(a.contains(a[i]));
                }
            }
        }
    }
}

/// With nothing stored the settings are these.
pub proof fn loi_preferences_par_defaut(t: Textes, rnnoise: u8, b: Preferences)
    requires
        b.relus(t, rnnoise),
        t.window_maximized@ == ""@ && t.sfx_on@ == "on"@ && t.sfx_muted@ == ""@,
        t.update_skipped@ == ""@ && t.mic_mode@ == "ptt"@ && t.ptt_key@ == "lalt"@,
        t.input_device@ == ""@ && t.output_device@ == ""@ && t.native_audio@ == "on"@,
        t.raw_mic@ == "off"@ && t.comms_mic@ == "off"@ && t.agc@ == "on"@,
        t.diag_share@ == "off"@,
    ensures
        !b.maximized && b.sfx_on && b.refused is None,
        b.mode == MicMode::Ptt && b.ptt_key == PttKey::LAlt,
        b.pref_input is None && b.pref_output is None,
        b.native_audio && !b.raw_mic && !b.comms_mic && b.agc && !b.diag_share,
        b.debit.auto_bitrate == 64_000 && b.debit.good_reports == 0 && !b.debit.dred_active,
{
    reveal_strlit("");
    reveal_strlit("on");
    reveal_strlit("off");
    reveal_strlit("ptt");
    assert("on"@.len() == 2 && "off"@.len() == 3 && ""@.len() == 0);
    crate::ptt::loi_ptt_se_relit(b.ptt_key, b.ptt_key);
    assert(PttKey::LAlt.nom() == "lalt"@);
    if b.ptt_key.nom() == "lalt"@ {
        crate::ptt::loi_ptt_se_relit(b.ptt_key, PttKey::LAlt);
    }
    crate::vocal::loi_mode_se_relit(MicMode::Ptt);
}

/// A bit rate is told in thousands, cut towards zero: what is left of it is less
/// than a thousand and never of the other sign.
pub proof fn loi_milliers(n: int)
    ensures
        n >= 0 ==> 1000 * milliers(n) <= n < 1000 * (milliers(n) + 1),
        n <= 0 ==> 1000 * (milliers(n) - 1) < n <= 1000 * milliers(n),
{
}

} // verus!
