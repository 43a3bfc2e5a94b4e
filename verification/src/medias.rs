//! The videos that are shared: telling them apart, finding their cards, and
//! keeping them on disk for as long as they are watched.

use crate::empreinte;
use crate::listes;
use crate::texte;
use vstd::prelude::*;

verus! {

/// The size of the cache past which the oldest files go, in bytes.
pub const CACHE_MAX: u64 = 1_073_741_824;

// ---------------------------------------------------------------------
// Addresses
// ---------------------------------------------------------------------

/// An address without its query nor its fragment.
pub open spec fn sans_requete(url: Seq<char>) -> Seq<char>
    decreases url.len(),
{
    if url.len() == 0 || url[0] == '?' || url[0] == '#' {
        Seq::empty()
    } else {
        seq![url[0]] + sans_requete(url.skip(1))
    }
}

proof fn lemme_sans_requete(s: Seq<char>, k: int)
    requires
        0 <= k <= s.len(),
        forall|j: int| 0 <= j < k ==> s[j] != '?' && s[j] != '#',
        k < s.len() ==> s[k] == '?' || s[k] == '#',
    ensures
        sans_requete(s) == s.take(k),
    decreases s.len(),
{
    if k == 0 {
        assert(s.take(0) =~= Seq::<char>::empty());
    } else {
        let t = s.skip(1);
        assert forall|j: int| 0 <= j < k - 1 implies t[j] != '?' && t[j] != '#' by {
            assert(t[j] == s[j + 1]);
        }
        lemme_sans_requete(t, k - 1);
        assert(seq![s[0]] + t.take(k - 1) =~= s.take(k));
    }
}

/// An address is on our own server: nothing is fetched from any other.
pub fn chez_nous(base: &str, url: &str) -> (r: bool)
    ensures
        r == (base@ + "/"@).is_prefix_of(url@),
{
    let mut racine: String = base.to_owned();
    racine.append("/");
    texte::commence(url, racine.as_str())
}

/// An address without its query nor its fragment.
pub fn nue(url: &str) -> (r: &str)
    ensures
        r@ == sans_requete(url@),
{
    let c: Vec<char> = texte::caracteres(url);
    let mut k: usize = 0;
    while k < c.len() && c[k] != '?' && c[k] != '#'
        invariant
            c@ == url@,
            k <= c@.len(),
            forall|j: int| 0 <= j < k ==> url@[j] != '?' && url@[j] != '#',
        decreases c@.len() - k,
    {
        k += 1;
    }
    proof {
        lemme_sans_requete(url@, k as int);
        assert(url@.subrange(0, k as int) =~= url@.take(k as int));
    }
    url.substring_char(0, k)
}

/// `s` ends with `fin`.
pub open spec fn finit(s: Seq<char>, fin: Seq<char>) -> bool {
    s.len() >= fin.len() && s.skip(s.len() - fin.len()) == fin
}

fn finit_par(s: &str, fin: &str) -> (r: bool)
    ensures
        r == finit(s@, fin@),
{
    let n: usize = s.unicode_len();
    let m: usize = fin.unicode_len();
    if n < m {
        return false;
    }
    let t: &str = s.substring_char(n - m, n);
    assert(t@ =~= s@.skip(n - m));
    texte::egal(t, fin)
}

/// One of the endings of a video.
pub open spec fn extension_de_video(chemin: Seq<char>) -> bool {
    finit(chemin, ".mp4"@) || finit(chemin, ".mov"@) || finit(chemin, ".webm"@) || finit(
        chemin,
        ".mkv"@,
    ) || finit(chemin, ".m4v"@) || finit(chemin, ".avi"@)
}

/// Does a path, in lower case, end as a video does?
pub fn est_video(chemin: &str) -> (r: bool)
    ensures
        r == extension_de_video(chemin@),
{
    finit_par(chemin, ".mp4") || finit_par(chemin, ".mov") || finit_par(chemin, ".webm")
        || finit_par(chemin, ".mkv") || finit_par(chemin, ".m4v") || finit_par(chemin, ".avi")
}

/// Does the address stand for a video, by its extension?
pub fn looks_like_video(url: &str) -> (r: bool)
    ensures
        r == extension_de_video(texte::minuscules(sans_requete(url@))),
{
    let chemin: String = nue(url).to_lowercase();
    est_video(chemin.as_str())
}

/// The card of a video, next to it on the server.
pub open spec fn fiche(url: Seq<char>) -> Option<Seq<char>> {
    match texte::coupe_fin(sans_requete(url), '/') {
        Some((base, nom)) => if nom.len() > 0 && texte::indice(base, "/files/"@, 0) is Some {
            Some(base + "/meta.json"@)
        } else {
            None
        },
        None => None,
    }
}

/// The address of the card of a video: `/files/<id>/<name>` has it at
/// `/files/<id>/meta.json`.
pub fn url_meta(url: &str) -> (r: Option<String>)
    ensures
        texte::vue(r) == fiche(url@),
{
    match texte::couper_fin(nue(url), '/') {
        Some((base, nom)) => {
            let c: Vec<char> = texte::caracteres(base);
            if !nom.is_empty() && texte::chercher(&c, "/files/", 0).is_some() {
                let mut s: String = base.to_owned();
                s.append("/meta.json");
                Some(s)
            } else {
                None
            }
        },
        None => None,
    }
}

/// The name of a file, for the title of its viewer.
pub fn nom_du_fichier(url: &str) -> (r: String)
    ensures
        r@ == match texte::coupe_fin(sans_requete(url@), '/') {
            Some((_, nom)) => nom,
            None => sans_requete(url@),
        },
{
    let sans: &str = nue(url);
    match texte::couper_fin(sans, '/') {
        Some((_, nom)) => nom.to_owned(),
        None => sans.to_owned(),
    }
}

/// The card of a video, as the server writes it.
#[derive(Debug)]
pub struct Meta {
    pub etat: String,
    pub largeur: u32,
    pub hauteur: u32,
    /// The path of its poster on the server.
    pub poster: Option<String>,
    pub message: Option<String>,
}

impl Meta {
    /// The video can be watched.
    pub fn prete(&self) -> (r: bool)
        ensures
            r == (self.etat@ == "pret"@),
    {
        texte::egal(self.etat.as_str(), "pret")
    }

    /// The video could not be made.
    pub fn en_erreur(&self) -> (r: bool)
        ensures
            r == (self.etat@ == "erreur"@),
    {
        texte::egal(self.etat.as_str(), "erreur")
    }
}

// ---------------------------------------------------------------------
// The cache
// ---------------------------------------------------------------------

/// An ASCII letter or digit.
pub open spec fn alphanumerique_ascii(c: char) -> bool {
    ('0' <= c <= '9') || ('a' <= c <= 'z') || ('A' <= c <= 'Z')
}

/// An extension without surprises: short, letters and digits only.
pub open spec fn saine(e: Seq<char>) -> bool {
    e.len() <= 5 && forall|i: int| 0 <= i < e.len() ==> alphanumerique_ascii(#[trigger] e[i])
}

/// The extension under which a file is kept, from the one it has in lower case.
pub open spec fn extension(e: Option<Seq<char>>) -> Seq<char> {
    match e {
        Some(e) => if saine(e) {
            e
        } else {
            "bin"@
        },
        None => "bin"@,
    }
}

/// The extension under which a file is kept, from the one it has in lower case.
pub fn extension_gardee(e: Option<String>) -> (r: String)
    ensures
        r@ == extension(texte::vue(e)),
{
    let ext: String = match e {
        Some(x) => x,
        None => return "bin".to_owned(),
    };
    let c: Vec<char> = texte::caracteres(ext.as_str());
    if c.len() > 5 {
        return "bin".to_owned();
    }
    let mut i: usize = 0;
    while i < c.len()
        invariant
            texte::vue(e) == Some(ext@),
            c@ == ext@,
            i <= c@.len(),
            forall|j: int| 0 <= j < i ==> alphanumerique_ascii(#[trigger] ext@[j]),
        decreases c@.len() - i,
    {
        let x: char = c[i];
        if !(('0' <= x && x <= '9') || ('a' <= x && x <= 'z') || ('A' <= x && x <= 'Z')) {
            assert(!alphanumerique_ascii(ext@[i as int]));
            return "bin".to_owned();
        }
        i += 1;
    }
    ext
}

/// The extension that an address has, in lower case.
pub open spec fn extension_de(url: Seq<char>) -> Option<Seq<char>> {
    match texte::coupe_fin(sans_requete(url), '.') {
        Some((_, e)) => Some(texte::minuscules(e)),
        None => None,
    }
}

/// The name of a file of the cache: a fingerprint, and an extension.
pub open spec fn nom_garde(h: u64, e: Option<Seq<char>>) -> Seq<char> {
    texte::hexa_fixe(h as nat, 16) + seq!['.'] + extension(e)
}

/// The name under which an address is kept in the cache: its fingerprint, and
/// an extension by which it can be read.
pub fn nom_cache(url: &str) -> (r: String)
    ensures
        r@ == nom_garde(
            empreinte::fnv(empreinte::BASE, vstd::utf8::encode_utf8(url@)),
            extension_de(url@),
        ),
{
    let e: Option<String> = match texte::couper_fin(nue(url), '.') {
        Some((_, e)) => Some(e.to_lowercase()),
        None => None,
    };
    let ext: String = extension_gardee(e);
    let h: u64 = empreinte::melanger(empreinte::BASE, url.as_bytes());
    let mut s: String = String::new();
    texte::pousser_hexa_fixe(&mut s, h, 16);
    s.push('.');
    s.append(ext.as_str());
    assert(s@ =~= texte::hexa_fixe(h as nat, 16) + seq!['.'] + ext@);
    s
}

/// Whatever the address, what is kept stays in the cache: its name holds
/// letters, digits and a dot, and no separator of paths.
pub proof fn loi_nom_sans_chemin(h: u64, e: Option<Seq<char>>, i: int)
    requires
        0 <= i < nom_garde(h, e).len(),
    ensures
        alphanumerique_ascii(nom_garde(h, e)[i]) || nom_garde(h, e)[i] == '.',
{
    reveal_strlit("bin");
    lemme_hexa_fixe(h as nat, 16);
    let a = texte::hexa_fixe(h as nat, 16);
    let b = extension(e);
    if i < a.len() {
        assert(nom_garde(h, e)[i] == a[i]);
    } else if i > a.len() {
        assert(nom_garde(h, e)[i] == b[i - a.len() - 1]);
    }
}

proof fn lemme_hexa_fixe(n: nat, k: nat)
    ensures
        texte::hexa_fixe(n, k).len() == k,
        forall|i: int|
            0 <= i < k ==> alphanumerique_ascii(#[trigger] texte::hexa_fixe(n, k)[i]),
    decreases k,
{
    if k > 0 {
        lemme_hexa_fixe(n / 16, (k - 1) as nat);
        let avant = texte::hexa_fixe(n / 16, (k - 1) as nat);
        assert forall|i: int| 0 <= i < k implies alphanumerique_ascii(
            #[trigger] texte::hexa_fixe(n, k)[i],
        ) by {
            if i < k - 1 {
                assert(texte::hexa_fixe(n, k)[i] == avant[i]);
            }
        }
    }
}

/// A clearing of the cache: which file goes next, until few enough bytes are
/// left.
#[derive(Debug)]
pub struct Purge {
    /// The places of the files, the oldest first.
    pub ordre: Vec<usize>,
    pub tailles: Vec<u64>,
    /// How many were looked at.
    pub vus: usize,
    /// The bytes that are left.
    pub total: u128,
    pub max: u64,
}

/// The bytes of the first `n` files.
pub open spec fn somme(tailles: Seq<u64>, n: int) -> nat
    decreases n,
{
    if n <= 0 {
        0
    } else {
        somme(tailles, n - 1) + tailles[n - 1] as nat
    }
}

proof fn lemme_somme(tailles: Seq<u64>, n: int)
    requires
        0 <= n <= tailles.len(),
    ensures
        somme(tailles, n) <= n * 0xffff_ffff_ffff_ffff,
    decreases n,
{
    if n > 0 {
        lemme_somme(tailles, n - 1);
        assert(n * 0xffff_ffff_ffff_ffff == (n - 1) * 0xffff_ffff_ffff_ffff + 0xffff_ffff_ffff_ffff)
            by (nonlinear_arith);
    }
}

impl Purge {
    pub open spec fn valide(self) -> bool {
        &&& self.ordre@.len() == self.tailles@.len()
        &&& self.vus <= self.ordre@.len()
        &&& forall|i: int|
            0 <= i < self.ordre@.len() ==> (#[trigger] self.ordre@[i]) < self.tailles@.len()
    }

    /// The file to remove next, if one has to go.
    pub open spec fn prochain(self) -> Option<usize> {
        if self.vus < self.ordre@.len() && self.total > self.max {
            Some(self.ordre@[self.vus as int])
        } else {
            None
        }
    }

    /// Starts a clearing: files by their date and their size.
    pub fn new(dates: &Vec<u128>, tailles: Vec<u64>, max: u64) -> (r: Self)
        requires
            dates@.len() == tailles@.len(),
        ensures
            r.valide(),
            listes::par_age_de(dates@, r.ordre@),
            r.tailles == tailles,
            r.vus == 0,
            r.total == somme(tailles@, tailles@.len() as int),
            r.max == max,
    {
        let ordre: Vec<usize> = listes::par_age(dates);
        let mut total: u128 = 0;
        let mut i: usize = 0;
        while i < tailles.len()
            invariant
                i <= tailles@.len(),
                total == somme(tailles@, i as int),
            decreases tailles@.len() - i,
        {
            proof {
                let n: int = tailles.len() as int;
                lemme_somme(tailles@, i + 1);
                assert((i + 1) * 0xffff_ffff_ffff_ffff <= 0xffff_ffff_ffff_ffff
                    * 0xffff_ffff_ffff_ffff) by (nonlinear_arith)
                    requires
                        i + 1 <= 0xffff_ffff_ffff_ffff,
                ;
            }
            total = total + tailles[i] as u128;
            i += 1;
        }
        Purge { ordre, tailles, vus: 0, total, max }
    }

    pub fn suivant(&self) -> (r: Option<usize>)
        requires
            self.valide(),
        ensures
            r == self.prochain(),
            r matches Some(i) ==> i < self.tailles@.len(),
    {
        if self.vus < self.ordre.len() && self.total > self.max as u128 {
            Some(self.ordre[self.vus])
        } else {
            None
        }
    }

    /// Says whether the file could be removed; what could not be is passed
    /// over.
    pub fn noter(&mut self, retire: bool)
        requires
            old(self).valide(),
            old(self).prochain() is Some,
        ensures
            final(self).valide(),
            *final(self) == (Purge {
                vus: (old(self).vus + 1) as usize,
                total: if !retire {
                    old(self).total
                } else {
                    let t = old(self).tailles@[old(self).prochain()->0 as int];
                    if old(self).total > t {
                        (old(self).total - t) as u128
                    } else {
                        0
                    }
                },
                ..*old(self)
            }),
    {
        let n: usize = self.ordre.len();
        let i: usize = self.ordre[self.vus];
        if retire {
            let t: u128 = self.tailles[i] as u128;
            self.total = if self.total > t {
                self.total - t
            } else {
                0
            };
        }
        assert(self.vus < n);
        self.vus += 1;
    }
}

/// A clearing ends with few enough bytes, or with every file looked at; and no
/// file goes before an older one was looked at.
pub proof fn loi_purge(p: Purge, dates: Seq<u128>, i: int, j: int)
    requires
        p.valide(),
        listes::par_age_de(dates, p.ordre@),
        0 <= i < j < p.ordre@.len(),
    ensures
        p.prochain() is None ==> p.total <= p.max || p.vus == p.ordre@.len(),
        dates[p.ordre@[i] as int] <= dates[p.ordre@[j] as int],
{
    assert(listes::plus_vieux(dates, p.ordre@[i] as int, p.ordre@[j] as int));
}

// ---------------------------------------------------------------------
// Downloads
// ---------------------------------------------------------------------

/// A download on its way.
#[derive(Debug)]
pub struct Telechargement {
    pub recu: u64,
    /// Zero until the server has said it.
    pub total: u64,
    pub fini: bool,
    pub erreur: Option<String>,
    /// The bytes that came since the window was last drawn again.
    pub depuis_repeint: u64,
}

/// The bytes after which the window is drawn again.
pub const PAS_REPEINT: u64 = 2_097_152;

/// The size that a server announces; zero where it does not.
pub fn taille_annoncee(entete: Option<&str>) -> (r: u64)
    ensures
        r == match entete {
            Some(v) => match texte::nombre_borne(texte::rogne(v@), u64::MAX as nat) {
                Some(n) => n,
                None => 0,
            },
            None => 0,
        },
{
    match entete {
        Some(v) => match texte::lire_nombre(texte::rogner(v), u64::MAX) {
            Some(n) => n,
            None => 0,
        },
        None => 0,
    }
}

impl Telechargement {
    pub fn new(total: u64) -> (r: Self)
        ensures
            r.recu == 0 && r.total == total && !r.fini && r.erreur is None && r.depuis_repeint == 0,
    {
        Telechargement { recu: 0, total, fini: false, erreur: None, depuis_repeint: 0 }
    }

    /// Bytes came in. Returns whether to draw the window again.
    pub fn recevoir(&mut self, n: u64) -> (r: bool)
        requires
            old(self).recu + n <= u64::MAX,
            old(self).depuis_repeint <= PAS_REPEINT,
        ensures
            r == (old(self).depuis_repeint + n > PAS_REPEINT),
            *final(self) == (Telechargement {
                recu: (old(self).recu + n) as u64,
                depuis_repeint: if r {
                    0
                } else {
                    (old(self).depuis_repeint + n) as u64
                },
                ..*old(self)
            }),
            final(self).depuis_repeint <= PAS_REPEINT,
    {
        self.recu = self.recu + n;
        if n > PAS_REPEINT - self.depuis_repeint {
            self.depuis_repeint = 0;
            return true;
        }
        self.depuis_repeint = self.depuis_repeint + n;
        false
    }

    /// The download ended, well or not.
    pub fn finir(&mut self, erreur: Option<String>)
        ensures
            *final(self) == (Telechargement { fini: true, erreur, ..*old(self) }),
    {
        self.erreur = erreur;
        self.fini = true;
    }
}

/// An address loses what follows its first question mark or hash, and nothing
/// before it.
pub proof fn loi_sans_requete(url: Seq<char>)
    ensures
        sans_requete(url).is_prefix_of(url),
        forall|i: int|
            0 <= i < sans_requete(url).len() ==> #[trigger] url[i] != '?' && url[i] != '#',
        sans_requete(url).len() < url.len() ==> url[sans_requete(url).len() as int] == '?'
            || url[sans_requete(url).len() as int] == '#',
    decreases url.len(),
{
    let r = sans_requete(url);
    if url.len() > 0 && url[0] != '?' && url[0] != '#' {
        let u = url.skip(1);
        loi_sans_requete(u);
        let q = sans_requete(u);
        assert(r =~= url.subrange(0, r.len() as int)) by {
            assert(q =~= u.subrange(0, q.len() as int));
        }
        assert forall|i: int| 0 <= i < r.len() implies #[trigger] url[i] != '?' && url[i] != '#' by {
            if i > 0 {
                assert(u[i - 1] == url[i]);
            }
        }
        if r.len() < url.len() {
            assert(u[q.len() as int] == url[r.len() as int]);
        }
    } else {
        assert(r =~= url.subrange(0, 0));
    }
}

/// A video is told by the end of its name: one of six.
pub proof fn loi_extension_de_video(nom: Seq<char>)
    ensures
        extension_de_video(nom + ".mp4"@) && extension_de_video(nom + ".mov"@),
        extension_de_video(nom + ".webm"@) && extension_de_video(nom + ".mkv"@),
        extension_de_video(nom + ".m4v"@) && extension_de_video(nom + ".avi"@),
        extension_de_video(nom) ==> ".mp4"@.is_suffix_of(nom) || ".mov"@.is_suffix_of(nom)
            || ".webm"@.is_suffix_of(nom) || ".mkv"@.is_suffix_of(nom) || ".m4v"@.is_suffix_of(nom)
            || ".avi"@.is_suffix_of(nom),
{
    lemme_finit(nom, ".mp4"@);
    lemme_finit(nom, ".mov"@);
    lemme_finit(nom, ".webm"@);
    lemme_finit(nom, ".mkv"@);
    lemme_finit(nom, ".m4v"@);
    lemme_finit(nom, ".avi"@);
}

proof fn lemme_finit(nom: Seq<char>, fin: Seq<char>)
    ensures
        finit(nom + fin, fin),
        finit(nom, fin) ==> fin.is_suffix_of(nom),
{
    let s = nom + fin;
    assert(s.skip(s.len() - fin.len()) =~= fin);
    if finit(nom, fin) {
        assert(nom.skip(nom.len() - fin.len()) =~= nom.subrange(
            nom.len() - fin.len(),
            nom.len() as int,
        ));
    }
}

/// The card of a file that is shared stands next to it: of an address under
/// `/files/` the last part is replaced by the name of the card. Anything else has
/// none.
pub proof fn loi_fiche_a_cote(base: Seq<char>, nom: Seq<char>, k: int)
    requires
        !nom.contains('/'),
        forall|i: int| 0 <= i < base.len() ==> #[trigger] base[i] != '?' && base[i] != '#',
        forall|i: int| 0 <= i < nom.len() ==> #[trigger] nom[i] != '?' && nom[i] != '#',
    ensures
        nom.len() > 0 && texte::present_en(base, "/files/"@, k) ==> fiche(base + seq!['/'] + nom)
            == Some(base + "/meta.json"@),
        nom.len() == 0 || (forall|i: int| !#[trigger] texte::present_en(base, "/files/"@, i))
            ==> fiche(base + seq!['/'] + nom) is None,
{
    let s = base + seq!['/'] + nom;
    loi_sans_requete(s);
    let r = sans_requete(s);
    if r.len() < s.len() {
        let i = r.len() as int;
        if i < base.len() {
            assert(s[i] == base[i]);
        } else if i > base.len() {
            assert(s[i] == nom[i - base.len() - 1]);
        }
    }
    assert(r =~= s);
    texte::loi_coupe_au_dernier(s, '/');
    assert(s[base.len() as int] == '/');
    let (x, y) = texte::coupe_fin(s, '/')->0;
    assert(x == base && y == nom) by {
        let n = base.len() as int;
        if x.len() < n {
            assert(y[n - x.len() - 1] == s[n]);
        } else if x.len() > n {
            assert(s[x.len() as int] == '/');
            assert(nom[x.len() - n - 1] == '/');
        }
        assert(x =~= s.take(n));
        assert(base =~= s.take(n));
        assert(y =~= s.skip(n + 1));
        assert(nom =~= s.skip(n + 1));
    }
    texte::lemme_indice(base, "/files/"@, 0);
}

/// A file goes only while more bytes are left than allowed, and it is the oldest
/// that was not looked at yet; one more has to go as long as that is so.
pub proof fn loi_purge_par_age(p: Purge, dates: Seq<u128>, k: int)
    requires
        p.valide(),
        listes::par_age_de(dates, p.ordre@),
        p.vus <= k < p.ordre@.len(),
    ensures
        p.total > p.max ==> p.prochain() is Some && dates[p.prochain()->0 as int]
            <= dates[p.ordre@[k] as int],
        p.total <= p.max ==> p.prochain() is None,
{
    if p.vus < k {
        loi_purge(p, dates, p.vus as int, k);
    }
}

/// What is kept of an extension: five letters or digits at most; of anything
/// else nothing is.
pub proof fn loi_extension(e: Seq<char>)
    ensures
        e.len() <= 5 && (forall|i: int|
            0 <= i < e.len() ==> ('0' <= #[trigger] e[i] <= '9') || ('a' <= e[i] <= 'z') || ('A'
                <= e[i] <= 'Z')) ==> extension(Some(e)) == e,
        extension(Some(e)) != e ==> extension(Some(e)) == "bin"@,
        e.len() > 5 ==> extension(Some(e)) == "bin"@,
        extension(None) == "bin"@,
{
}

} // verus!
