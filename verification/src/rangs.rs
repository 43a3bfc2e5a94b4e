//! The icons of the ranks of a game: which there are, and which to fetch.

use crate::json;
use crate::texte;
use vstd::prelude::*;

verus! {

/// The first rank that has an icon.
pub const PREMIER: u8 = 3;

/// The last one.
pub const DERNIER: u8 = 27;

/// A rank that has an icon.
pub open spec fn palier(tier: u8) -> bool {
    PREMIER <= tier <= DERNIER
}

/// What is known of the image of a rank.
#[derive(Debug, Clone, Copy, PartialEq, Eq, Structural)]
pub enum Image {
    /// Nothing was heard of it yet.
    Inconnue,
    /// It could not be had: it is not asked for again before the next session.
    Ratee,
    /// It is there.
    Prete,
}

/// What to do for an icon to be there soon.
#[derive(Debug, Clone, Copy, PartialEq, Eq, Structural)]
pub enum Preparation {
    Rien,
    /// Make a texture out of its image.
    Monter,
    /// Start fetching the icons.
    Lancer,
}

/// Decides what to do for the icon of a rank. The icons are fetched once, all
/// together. `lance` says whether that was started, and is set where it has to
/// be.
pub fn preparer(tier: u8, montee: bool, image: Image, lance: &mut bool) -> (r: Preparation)
    ensures
        r == if !palier(tier) || montee {
            Preparation::Rien
        } else {
            match image {
                Image::Prete => Preparation::Monter,
                Image::Ratee => Preparation::Rien,
                Image::Inconnue => if *old(lance) {
                    Preparation::Rien
                } else {
                    Preparation::Lancer
                },
            }
        },
        *final(lance) == (*old(lance) || r == Preparation::Lancer),
{
    if tier < PREMIER || tier > DERNIER || montee {
        return Preparation::Rien;
    }
    match image {
        Image::Prete => Preparation::Monter,
        Image::Ratee => Preparation::Rien,
        Image::Inconnue => {
            if *lance {
                Preparation::Rien
            } else {
                *lance = true;
                Preparation::Lancer
            }
        },
    }
}

/// The ranks that were not on disk, among the first `n`.
pub open spec fn manquants_de(sur_disque: Seq<bool>, n: int) -> Seq<u8>
    decreases n,
{
    if n <= 0 {
        Seq::empty()
    } else if sur_disque[n - 1] {
        manquants_de(sur_disque, n - 1)
    } else {
        manquants_de(sur_disque, n - 1).push((PREMIER + n - 1) as u8)
    }
}

/// The ranks to fetch: those whose icons were not on disk, where `sur_disque`
/// says it of each rank from the first on.
pub fn manquants(sur_disque: &Vec<bool>) -> (r: Vec<u8>)
    requires
        sur_disque@.len() == 25,
    ensures
        r@ == manquants_de(sur_disque@, 25),
{
    let mut r: Vec<u8> = Vec::new();
    let mut i: usize = 0;
    while i < 25
        invariant
            sur_disque@.len() == 25,
            i <= 25,
            r@ == manquants_de(sur_disque@, i as int),
        decreases 25 - i,
    {
        if !sur_disque[i] {
            r.push(PREMIER + i as u8);
        }
        i += 1;
    }
    r
}

/// Where a field of a rank stands in a catalogue: in the set of icons `jeu`, at
/// the place `i` of its ranks.
pub open spec fn chemin(jeu: nat, i: nat, champ: Seq<char>) -> Seq<char> {
    chemin_paliers(jeu) + "/"@ + texte::decimal(i) + champ
}

/// Where the ranks of a set of icons stand in a catalogue.
pub open spec fn chemin_paliers(jeu: nat) -> Seq<char> {
    "/data/"@ + texte::decimal(jeu) + "/tiers"@
}

/// The ranks among the first `n` of a set that have both a number and an
/// address.
pub open spec fn entrees(corps: Seq<char>, jeu: nat, n: int) -> Seq<(u64, Seq<char>)>
    decreases n,
{
    if n <= 0 {
        Seq::empty()
    } else {
        let avant = entrees(corps, jeu, n - 1);
        let tier = json::entier_lu(corps, chemin(jeu, (n - 1) as nat, "/tier"@));
        let url = json::texte_lu(corps, chemin(jeu, (n - 1) as nat, "/smallIcon"@));
        match (tier, url) {
            (Some(t), Ok(Some(u))) => avant.push((t, u)),
            _ => avant,
        }
    }
}

/// What a catalogue holds: the ranks of the last set of icons that it lists.
pub open spec fn catalogue_lu(corps: Seq<char>) -> Result<Seq<(u64, Seq<char>)>, Seq<char>> {
    match json::longueur_lue(corps, "/data"@) {
        Err(e) => Err(e),
        Ok(None) => Err("catalogue vide"@),
        Ok(Some(n)) => if n == 0 {
            Err("catalogue vide"@)
        } else {
            let jeu = (n - 1) as nat;
            match json::longueur_lue(corps, chemin_paliers(jeu)) {
                Ok(Some(k)) => Ok(entrees(corps, jeu, k as int)),
                _ => Ok(Seq::empty()),
            }
        },
    }
}

/// The entries of a catalogue, as they read.
pub open spec fn vue_entrees(s: Seq<(u64, String)>) -> Seq<(u64, Seq<char>)> {
    Seq::new(s.len(), |i: int| (s[i].0, s[i].1@))
}

fn ecrire_chemin_paliers(jeu: usize) -> (r: String)
    ensures
        r@ == chemin_paliers(jeu as nat),
{
    let mut s: String = "/data/".to_owned();
    texte::pousser_decimal(&mut s, jeu as u64);
    s.append("/tiers");
    s
}

fn ecrire_chemin(jeu: usize, i: usize, champ: &str) -> (r: String)
    ensures
        r@ == chemin(jeu as nat, i as nat, champ@),
{
    let mut s: String = ecrire_chemin_paliers(jeu);
    s.append("/");
    texte::pousser_decimal(&mut s, i as u64);
    s.append(champ);
    s
}

/// Reads a catalogue: the ranks of the last set of icons that was published,
/// each with the address of its small icon.
pub fn catalogue(corps: &str) -> (r: Result<Vec<(u64, String)>, String>)
    ensures
        match (r, catalogue_lu(corps@)) {
            (Ok(v), Ok(s)) => vue_entrees(v@) == s,
            (Err(e), Err(f)) => e@ == f,
            _ => false,
        },
{
    let n: usize = match json::lire_longueur(corps, "/data") {
        Err(e) => return Err(e),
        Ok(None) => return Err("catalogue vide".to_owned()),
        Ok(Some(n)) => n,
    };
    if n == 0 {
        return Err("catalogue vide".to_owned());
    }
    let jeu: usize = n - 1;
    let mut v: Vec<(u64, String)> = Vec::new();
    assert(vue_entrees(v@) =~= Seq::empty());
    let c: String = ecrire_chemin_paliers(jeu);
    let k: usize = match json::lire_longueur(corps, c.as_str()) {
        Ok(Some(k)) => k,
        _ => return Ok(v),
    };
    let mut i: usize = 0;
    while i < k
        invariant
            i <= k,
            vue_entrees(v@) == entrees(corps@, jeu as nat, i as int),
        decreases k - i,
    {
        let a: String = ecrire_chemin(jeu, i, "/tier");
        let b: String = ecrire_chemin(jeu, i, "/smallIcon");
        let ghost avant = v@;
        match (json::lire_entier(corps, a.as_str()), json::lire_texte(corps, b.as_str())) {
            (Some(t), Ok(Some(u))) => {
                v.push((t, u));
                assert(vue_entrees(v@) =~= vue_entrees(avant).push((t, u@)));
            },
            _ => {},
        }
        i += 1;
    }
    Ok(v)
}

/// An address that icons are taken from.
pub open spec fn de_confiance(url: Seq<char>) -> bool {
    url.len() >= "https://media.valorant-api.com/"@.len() && url.take(
        "https://media.valorant-api.com/"@.len() as int,
    ) == "https://media.valorant-api.com/"@
}

/// The address of the icon of a rank, in a catalogue where each rank has one;
/// of two for one rank the later holds.
pub open spec fn adresse(catalogue: Seq<(u64, String)>, tier: u8) -> Option<Seq<char>>
    decreases catalogue.len(),
{
    if catalogue.len() == 0 {
        None
    } else {
        let (t, url) = catalogue.last();
        if (t % 256) == tier && de_confiance(url@) {
            Some(url@)
        } else {
            adresse(catalogue.drop_last(), tier)
        }
    }
}

/// The address of the icon of a rank. One that lies elsewhere than it should is
/// passed over.
pub fn trouver(catalogue: &Vec<(u64, String)>, tier: u8) -> (r: Option<&str>)
    ensures
        match (r, adresse(catalogue@, tier)) {
            (Some(a), Some(b)) => a@ == b,
            (None, None) => true,
            _ => false,
        },
{
    let mut i: usize = catalogue.len();
    assert(catalogue@.take(i as int) =~= catalogue@);
    while i > 0
        invariant
            i <= catalogue@.len(),
            adresse(catalogue@, tier) == adresse(catalogue@.take(i as int), tier),
        decreases i,
    {
        let ghost t = catalogue@.take(i as int);
        assert(t.drop_last() =~= catalogue@.take(i - 1));
        assert(t.last() == catalogue@[i - 1]);
        let n: u64 = catalogue[i - 1].0;
        let url: &str = catalogue[i - 1].1.as_str();
        if n % 256 == tier as u64 && texte::commence(url, "https://media.valorant-api.com/") {
            return Some(url);
        }
        i -= 1;
    }
    None
}

/// Whatever a catalogue says, no icon is taken from elsewhere.
pub proof fn loi_icones_de_confiance(catalogue: Seq<(u64, String)>, tier: u8)
    ensures
        adresse(catalogue, tier) matches Some(url) ==> de_confiance(url),
    decreases catalogue.len(),
{
    if catalogue.len() > 0 {
        loi_icones_de_confiance(catalogue.drop_last(), tier);
    }
}

/// The icon of a rank is the last of the catalogue that is of this rank and from
/// where icons may come; there is none only where no entry is both.
pub proof fn loi_icone_trouvee(catalogue: Seq<(u64, String)>, tier: u8, k: int)
    requires
        0 <= k < catalogue.len(),
        catalogue[k].0 % 256 == tier,
        "https://media.valorant-api.com/"@.is_prefix_of(catalogue[k].1@),
        forall|j: int|
            k < j < catalogue.len() ==> (#[trigger] catalogue[j]).0 % 256 != tier
                || !"https://media.valorant-api.com/"@.is_prefix_of(catalogue[j].1@),
    ensures
        adresse(catalogue, tier) == Some(catalogue[k].1@),
    decreases catalogue.len(),
{
    let h = "https://media.valorant-api.com/"@;
    let d = catalogue.drop_last();
    let u = catalogue.last().1@;
    assert(de_confiance(u) == h.is_prefix_of(u)) by {
        if u.len() >= h.len() {
            assert(u.take(h.len() as int) =~= u.subrange(0, h.len() as int));
        }
    }
    if k < catalogue.len() - 1 {
        assert(d[k] == catalogue[k]);
        assert forall|j: int| k < j < d.len() implies (#[trigger] d[j]).0 % 256 != tier
            || !h.is_prefix_of(d[j].1@) by {
            assert(d[j] == catalogue[j]);
        }
        assert(catalogue[catalogue.len() - 1] == catalogue.last());
        loi_icone_trouvee(d, tier, k);
    }
}

/// The icons to fetch are those of the ranks that are not on disk, all of them.
pub proof fn loi_icones_manquantes(sur_disque: Seq<bool>, n: int, tier: u8)
    requires
        0 <= n <= sur_disque.len(),
        n <= 25,
    ensures
        manquants_de(sur_disque, n).contains(tier) <==> 3 <= tier < 3 + n && !sur_disque[tier - 3],
    decreases n,
{
    if n > 0 {
        loi_icones_manquantes(sur_disque, n - 1, tier);
        let a = manquants_de(sur_disque, n - 1);
        let r = manquants_de(sur_disque, n);
        if r.contains(tier) {
            let i = choose|i: int| 0 <= i < r.len() && r[i] == tier;
            if i < a.len() {
                assert(a[i] == tier);
            }
        }
        if a.contains(tier) {
            let i = choose|i: int| 0 <= i < a.len() && a[i] == tier;
            assert(r[i] == tier);
        }
        if !sur_disque[n - 1] {
            assert(r[r.len() - 1] == (3 + n - 1) as u8);
        }
    }
}

} // verus!
