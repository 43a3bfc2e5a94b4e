//! What drawing costs, measured where it is drawn.

use crate::texte;
use vstd::prelude::*;

verus! {

/// How many frames are remembered.
pub const FENETRE: usize = 600;

/// Durations, in microseconds, the oldest first.
#[derive(Debug)]
pub struct Serie {
    pub us: Vec<u64>,
}

/// The list is in order.
pub open spec fn trie(s: Seq<u64>) -> bool {
    forall|i: int, j: int| 0 <= i <= j < s.len() ==> s[i] <= s[j]
}

/// The place of the median among `n` sorted durations.
pub open spec fn place_p50(n: int) -> int {
    n / 2
}

/// The place of the 95th percentile among `n` sorted durations.
pub open spec fn place_p95(n: int) -> int {
    (19 * (n - 1) + 10) / 20
}

fn trier(s: &Vec<u64>) -> (t: Vec<u64>)
    ensures
        trie(t@),
        t@.to_multiset() == s@.to_multiset(),
        t@.len() == s@.len(),
{
    broadcast use vstd::seq_lib::group_to_multiset_ensures;

    let mut t: Vec<u64> = Vec::new();
    let mut i: usize = 0;
    assert(s@.take(0) =~= t@);
    while i < s.len()
        invariant
            i <= s@.len(),
            trie(t@),
            t@.len() == i,
            t@.to_multiset() == s@.take(i as int).to_multiset(),
        decreases s@.len() - i,
    {
        let x: u64 = s[i];
        let mut p: usize = 0;
        while p < t.len() && t[p] <= x
            invariant
                p <= t@.len(),
                t@.to_multiset() == s@.take(i as int).to_multiset(),
                forall|k: int| 0 <= k < p ==> t@[k] <= x,
            decreases t@.len() - p,
        {
            p += 1;
        }
        let ghost avant = t@;
        t.insert(p, x);
        proof {
            assert(t@ == avant.insert(p as int, x));
            vstd::seq_lib::to_multiset_insert(avant, p as int, x);
            assert(s@.take(i + 1) =~= s@.take(i as int).push(x));
            vstd::seq_lib::to_multiset_build(s@.take(i as int), x);
            assert(t@.to_multiset() == s@.take(i + 1).to_multiset());
            assert forall|a: int, b: int| 0 <= a <= b < t@.len() implies t@[a] <= t@[b] by {
                if b < p {
                    assert(t@[a] == avant[a] && t@[b] == avant[b]);
                } else if b == p {
                    if a < p {
                        assert(t@[a] == avant[a]);
                    }
                } else if a < p {
                    assert(t@[a] == avant[a] && t@[b] == avant[b - 1]);
                } else if a == p {
                    assert(t@[b] == avant[b - 1]);
                    assert(avant[p as int] <= avant[b - 1]);
                } else {
                    assert(t@[a] == avant[a - 1] && t@[b] == avant[b - 1]);
                }
            }
        }
        i += 1;
    }
    assert(s@.take(i as int) =~= s@);
    t
}

impl Serie {
    pub fn new() -> (r: Self)
        ensures
            r.us@.len() == 0,
    {
        Serie { us: Vec::new() }
    }

    /// One more duration; past the window the oldest goes.
    pub fn push(&mut self, us: u64)
        ensures
            final(self).us@ == if old(self).us@.len() == FENETRE {
                old(self).us@.skip(1).push(us)
            } else {
                old(self).us@.push(us)
            },
    {
        if self.us.len() == FENETRE {
            let _ = self.us.remove(0);
            assert(self.us@ =~= old(self).us@.skip(1));
        }
        self.us.push(us);
    }

    /// The median, the 95th percentile and the maximum; nothing until something
    /// was seen.
    pub open spec fn quantifie(self, q: Option<(u64, u64, u64)>) -> bool {
        if self.us@.len() == 0 {
            q is None
        } else {
            exists|t: Seq<u64>| #[trigger]
                trie(t) && t.to_multiset() == self.us@.to_multiset() && t.len() == self.us@.len()
                    && q == Some(
                    (
                        t[place_p50(t.len() as int)],
                        t[place_p95(t.len() as int)],
                        t[t.len() - 1],
                    ),
                )
        }
    }

    /// The median, the 95th percentile and the maximum; nothing until something
    /// was seen.
    pub fn quantiles(&self) -> (r: Option<(u64, u64, u64)>)
        ensures
            self.quantifie(r),
    {
        let n: usize = self.us.len();
        if n == 0 {
            return None;
        }
        let t: Vec<u64> = trier(&self.us);
        let i50: usize = n / 2;
        let i95: usize = ((19 * (n as u128 - 1) + 10) / 20) as usize;
        assert(i95 == place_p95(n as int));
        let r: Option<(u64, u64, u64)> = Some((t[i50], t[i95], t[n - 1]));
        assert(trie(t@));
        r
    }
}

/// The window never grows past its size, and what came last is always in it.
pub proof fn loi_fenetre_bornee(avant: Seq<u64>, apres: Seq<u64>, us: u64)
    requires
        avant.len() <= FENETRE,
        apres == if avant.len() == FENETRE {
            avant.skip(1).push(us)
        } else {
            avant.push(us)
        },
    ensures
        apres.len() <= FENETRE,
        apres.last() == us,
{
}

/// A single slow frame shows: the maximum is the greatest duration of the
/// window.
pub proof fn loi_le_pic_se_voit(s: Seq<u64>, t: Seq<u64>, k: int)
    requires
        trie(t),
        t.to_multiset() == s.to_multiset(),
        0 <= k < s.len(),
    ensures
        t.len() > 0,
        s[k] <= t[t.len() - 1],
{
    broadcast use vstd::seq_lib::group_to_multiset_ensures;

    assert(s.contains(s[k]));
    assert(s.to_multiset().count(s[k]) > 0);
    assert(t.to_multiset().count(s[k]) > 0);
    assert(t.contains(s[k]));
    let i = choose|i: int| 0 <= i < t.len() && t[i] == s[k];
    assert(t[i] <= t[t.len() - 1]);
}

/// The messages that the conversation went through, of those in memory.
pub open spec fn parcourus(rendus: u64, charges: u64) -> Seq<char> {
    texte::decimal(rendus as nat) + " sur "@ + texte::decimal(charges as nat) + " chargés"@
}

fn messages_parcourus(rendus: u64, charges: u64) -> (r: String)
    ensures
        r@ == parcourus(rendus, charges),
{
    let mut s: String = String::new();
    texte::pousser_decimal(&mut s, rendus);
    assert(s@ =~= texte::decimal(rendus as nat));
    s.append(" sur ");
    texte::pousser_decimal(&mut s, charges);
    s.append(" chargés");
    s
}

/// The measures of drawing. Times are in microseconds.
#[derive(Debug)]
pub struct Perf {
    /// What each whole frame took.
    pub image: Serie,
    /// What the conversation took in each.
    pub fil: Serie,
    /// When the frame under way began.
    pub debut_image: Option<u64>,
    /// When the conversation began in it.
    pub debut_fil: Option<u64>,
    pub messages_rendus: u64,
    pub messages_charges: u64,
    /// The frames of the second under way.
    pub images: u32,
    /// When that second began.
    pub depuis: Option<u64>,
    /// The frames of the last second, and what they took.
    pub cadence: Option<(u32, u64)>,
}

/// A series once a duration ends that began at `debut`.
pub open spec fn mesuree(serie: Seq<u64>, debut: Option<u64>, maintenant: u64) -> Seq<u64> {
    match debut {
        Some(d) => {
            let us = if maintenant > d {
                (maintenant - d) as u64
            } else {
                0
            };
            if serie.len() == FENETRE {
                serie.skip(1).push(us)
            } else {
                serie.push(us)
            }
        },
        None => serie,
    }
}

/// What a series reads, where `duree` writes a duration.
pub open spec fn serie_ecrite<D: Fn(u64) -> String>(
    q: Option<(u64, u64, u64)>,
    duree: D,
    t: Seq<char>,
) -> bool {
    match q {
        Some((p50, p95, max)) => exists|a: String, b: String, c: String|
            {
                &&& #[trigger] duree.ensures((p50,), a)
                &&& #[trigger] duree.ensures((p95,), b)
                &&& #[trigger] duree.ensures((max,), c)
                &&& t == "p50 "@ + a@ + " ms · p95 "@ + b@ + " ms · max "@ + c@ + " ms"@
            },
        None => t == "—"@,
    }
}

fn ecrire_serie<D: Fn(u64) -> String>(s: &Serie, duree: &D) -> (r: String)
    requires
        forall|us: u64| #[trigger] duree.requires((us,)),
    ensures
        exists|q: Option<(u64, u64, u64)>| #[trigger]
            s.quantifie(q) && serie_ecrite(q, *duree, r@),
{
    let q: Option<(u64, u64, u64)> = s.quantiles();
    assert(s.quantifie(q));
    match q {
        Some((p50, p95, max)) => {
            let a: String = duree(p50);
            let b: String = duree(p95);
            let c: String = duree(max);
            assert(duree.ensures((p50,), a) && duree.ensures((p95,), b) && duree.ensures(
                (max,),
                c,
            ));
            let mut r: String = "p50 ".to_owned();
            r.append(a.as_str());
            r.append(" ms · p95 ");
            r.append(b.as_str());
            r.append(" ms · max ");
            r.append(c.as_str());
            r.append(" ms");
            r
        },
        None => "—".to_owned(),
    }
}

/// What the rate of frames reads, where `frequence` writes one.
pub open spec fn cadence_ecrite<C: Fn(u32, u64) -> String>(
    cadence: Option<(u32, u64)>,
    frequence: C,
    t: Seq<char>,
) -> bool {
    match cadence {
        Some((n, us)) => exists|f: String| #[trigger]
            frequence.ensures((n, us), f) && t == f@ + " réellement peintes"@,
        None => t == "—"@,
    }
}

impl Perf {
    pub fn new() -> (r: Self)
        ensures
            r.image.us@.len() == 0 && r.fil.us@.len() == 0,
            r.debut_image is None && r.debut_fil is None,
            r.messages_rendus == 0 && r.messages_charges == 0,
            r.images == 0 && r.depuis is None && r.cadence is None,
    {
        Perf {
            image: Serie::new(),
            fil: Serie::new(),
            debut_image: None,
            debut_fil: None,
            messages_rendus: 0,
            messages_charges: 0,
            images: 0,
            depuis: None,
            cadence: None,
        }
    }

    /// A frame begins. Frames are counted as they come, second after second,
    /// whatever pace was asked for.
    pub fn debut_image(&mut self, maintenant: u64)
        requires
            old(self).images < u32::MAX,
        ensures
            ({
                let depuis = match old(self).depuis {
                    Some(d) => d,
                    None => maintenant,
                };
                let images = (old(self).images + 1) as u32;
                *final(self) == if maintenant >= depuis + 1_000_000 {
                    Perf {
                        debut_image: Some(maintenant),
                        images: 0,
                        depuis: Some(maintenant),
                        cadence: Some((images, (maintenant - depuis) as u64)),
                        ..*old(self)
                    }
                } else {
                    Perf {
                        debut_image: Some(maintenant),
                        images,
                        depuis: Some(depuis),
                        ..*old(self)
                    }
                }
            }),
    {
        self.debut_image = Some(maintenant);
        let depuis: u64 = match self.depuis {
            Some(d) => d,
            None => maintenant,
        };
        self.depuis = Some(depuis);
        self.images = self.images + 1;
        let ecoule: u64 = maintenant.saturating_sub(depuis);
        if ecoule >= 1_000_000 {
            self.cadence = Some((self.images, ecoule));
            self.images = 0;
            self.depuis = Some(maintenant);
        }
    }

    /// The frame under way ends.
    pub fn fin_image(&mut self, maintenant: u64)
        ensures
            final(self).image.us@ == mesuree(
                old(self).image.us@,
                old(self).debut_image,
                maintenant,
            ),
            *final(self) == (Perf {
                image: final(self).image,
                debut_image: None,
                ..*old(self)
            }),
    {
        match self.debut_image {
            Some(d) => {
                self.debut_image = None;
                self.image.push(maintenant.saturating_sub(d));
            },
            None => {},
        }
    }

    /// The conversation begins in the frame under way.
    pub fn debut_fil(&mut self, maintenant: u64)
        ensures
            *final(self) == (Perf { debut_fil: Some(maintenant), ..*old(self) }),
    {
        self.debut_fil = Some(maintenant);
    }

    /// The conversation ends in the frame under way: it went through `rendus`
    /// messages, of `charges` in memory.
    pub fn fin_fil(&mut self, rendus: u64, charges: u64, maintenant: u64)
        ensures
            final(self).fil.us@ == mesuree(old(self).fil.us@, old(self).debut_fil, maintenant),
            *final(self) == (Perf {
                fil: final(self).fil,
                debut_fil: None,
                messages_rendus: rendus,
                messages_charges: charges,
                ..*old(self)
            }),
    {
        match self.debut_fil {
            Some(d) => {
                self.debut_fil = None;
                self.fil.push(maintenant.saturating_sub(d));
            },
            None => {},
        }
        self.messages_rendus = rendus;
        self.messages_charges = charges;
    }

    /// The measures, as they are shown and copied: one line for each. `duree`
    /// writes a duration in milliseconds, and `frequence` a number of frames
    /// over a time as frames per second.
    pub fn lignes<D: Fn(u64) -> String, C: Fn(u32, u64) -> String>(
        &self,
        duree: D,
        frequence: C,
    ) -> (r: Vec<(String, String)>)
        requires
            forall|us: u64| #[trigger] duree.requires((us,)),
            forall|n: u32, us: u64| #[trigger] frequence.requires((n, us)),
        ensures
            r@.len() == 5,
            r@[0].0@ == "Image complète"@,
            exists|q: Option<(u64, u64, u64)>| #[trigger]
                self.image.quantifie(q) && serie_ecrite(q, duree, r@[0].1@),
            r@[1].0@ == "Fil de discussion"@,
            exists|q: Option<(u64, u64, u64)>| #[trigger]
                self.fil.quantifie(q) && serie_ecrite(q, duree, r@[1].1@),
            r@[2].0@ == "Messages parcourus"@,
            r@[2].1@ == parcourus(self.messages_rendus, self.messages_charges),
            r@[3].0@ == "Images par seconde"@,
            cadence_ecrite(self.cadence, frequence, r@[3].1@),
            r@[4].0@ == "Allocations par image"@,
            r@[4].1@ == "non compilé (--features mesures)"@,
    {
        let image: String = ecrire_serie(&self.image, &duree);
        let fil: String = ecrire_serie(&self.fil, &duree);
        let messages: String = messages_parcourus(self.messages_rendus, self.messages_charges);
        let cadence: String = match self.cadence {
            Some((n, us)) => {
                let f: String = frequence(n, us);
                assert(frequence.ensures((n, us), f));
                let mut t: String = f.as_str().to_owned();
                t.append(" réellement peintes");
                t
            },
            None => "—".to_owned(),
        };
        let mut r: Vec<(String, String)> = Vec::new();
        r.push(("Image complète".to_owned(), image));
        r.push(("Fil de discussion".to_owned(), fil));
        r.push(("Messages parcourus".to_owned(), messages));
        r.push(("Images par seconde".to_owned(), cadence));
        r.push(
            ("Allocations par image".to_owned(), "non compilé (--features mesures)".to_owned()),
        );
        r
    }
}

/// The lines of a measure, put end to end.
pub open spec fn lignes_copiees(lignes: Seq<(String, String)>) -> Seq<char>
    decreases lignes.len(),
{
    if lignes.len() == 0 {
        Seq::empty()
    } else {
        let (quoi, valeur) = lignes.last();
        lignes_copiees(lignes.drop_last()) + (quoi@ + " : "@ + valeur@ + "\n"@)
    }
}

/// The measures as they are copied, with the frames that the sound went
/// without, and what the audio doctor said where it was asked.
pub fn copier_releve(
    version: &str,
    lignes: &Vec<(String, String)>,
    trous: u64,
    docteur: Option<&str>,
) -> (r: String)
    ensures
        r@ == "ki-chat "@ + version@ + " — relevé de performance\n"@ + lignes_copiees(lignes@)
            + "Trames incomplètes (audio) : "@ + texte::decimal(trous as nat) + "\n"@
            + match docteur {
            Some(d) => "\n"@ + d@,
            None => Seq::empty(),
        },
{
    let mut r: String = "ki-chat ".to_owned();
    r.append(version);
    r.append(" — relevé de performance\n");
    let ghost debut = r@;
    assert(lignes@.take(0) =~= Seq::empty());
    assert(r@ =~= debut + lignes_copiees(lignes@.take(0)));
    let mut i: usize = 0;
    while i < lignes.len()
        invariant
            i <= lignes@.len(),
            r@ == debut + lignes_copiees(lignes@.take(i as int)),
        decreases lignes@.len() - i,
    {
        let ghost avant = r@;
        r.append(lignes[i].0.as_str());
        r.append(" : ");
        r.append(lignes[i].1.as_str());
        r.append("\n");
        proof {
            let t = lignes@.take(i + 1);
            assert(t.drop_last() =~= lignes@.take(i as int));
            assert(t.last() == lignes@[i as int]);
            let (quoi, valeur) = lignes@[i as int];
            assert(r@ =~= avant + (quoi@ + " : "@ + valeur@ + "\n"@));
            assert(r@ =~= debut + lignes_copiees(t));
        }
        i += 1;
    }
    assert(lignes@.take(i as int) =~= lignes@);
    r.append("Trames incomplètes (audio) : ");
    texte::pousser_decimal(&mut r, trous);
    r.append("\n");
    let ghost milieu = r@;
    match docteur {
        Some(d) => {
            r.append("\n");
            r.append(d);
            assert(r@ =~= milieu + ("\n"@ + d@));
        },
        None => {
            assert(r@ =~= milieu + Seq::<char>::empty());
        },
    }
    r
}

/// The median and the ninety-fifth hundredth are taken at the rank nearest to one
/// half and to nineteen twentieths of the last, the higher one where two are as
/// near.
pub proof fn loi_rangs_des_quantiles(n: int)
    requires
        n > 0,
    ensures
        0 <= place_p50(n) < n && 0 <= place_p95(n) < n,
        n - 1 <= 2 * place_p50(n) <= n,
        19 * (n - 1) - 10 < 20 * place_p95(n) <= 19 * (n - 1) + 10,
        place_p50(n) <= place_p95(n) || n <= 2,
{
}

/// A measure that was begun is added at the end, and the oldest of six hundred
/// makes room for it; one that was not adds nothing.
pub proof fn loi_mesure_ajoutee(serie: Seq<u64>, debut: u64, maintenant: u64)
    ensures
        mesuree(serie, None, maintenant) == serie,
        maintenant >= debut ==> mesuree(serie, Some(debut), maintenant).last() == maintenant - debut,
        maintenant < debut ==> mesuree(serie, Some(debut), maintenant).last() == 0,
        serie.len() != 600 ==> mesuree(serie, Some(debut), maintenant).drop_last() =~= serie,
        serie.len() == 600 ==> mesuree(serie, Some(debut), maintenant).drop_last()
            =~= serie.subrange(1, 600),
{
}

} // verus!
