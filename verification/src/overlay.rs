//! The overlay that shows who speaks over a game.

use crate::texte;
use vstd::prelude::*;

verus! {

/// The corner of the screen where the overlay stands.
#[derive(Debug, Clone, Copy, PartialEq, Eq, Structural)]
pub enum Coin {
    HautGauche,
    HautDroite,
    BasGauche,
    BasDroite,
}

impl Coin {
    pub const TOUS: [Coin; 4] = [
        Coin::HautGauche,
        Coin::HautDroite,
        Coin::BasGauche,
        Coin::BasDroite,
    ];

    pub open spec fn nom(self) -> Seq<char> {
        match self {
            Coin::HautGauche => "haut-gauche"@,
            Coin::HautDroite => "haut-droite"@,
            Coin::BasGauche => "bas-gauche"@,
            Coin::BasDroite => "bas-droite"@,
        }
    }

    /// The name under which the corner is stored.
    pub fn id(self) -> (r: &'static str)
        ensures
            r@ == self.nom(),
    {
        match self {
            Coin::HautGauche => "haut-gauche",
            Coin::HautDroite => "haut-droite",
            Coin::BasGauche => "bas-gauche",
            Coin::BasDroite => "bas-droite",
        }
    }

    /// The corner stored under a name; the first one where there is none.
    pub open spec fn nomme(s: Seq<char>) -> Coin {
        if s == "haut-droite"@ {
            Coin::HautDroite
        } else if s == "bas-gauche"@ {
            Coin::BasGauche
        } else if s == "bas-droite"@ {
            Coin::BasDroite
        } else {
            Coin::HautGauche
        }
    }

    pub fn depuis(id: &str) -> (r: Coin)
        ensures
            r == Coin::nomme(id@),
    {
        if texte::egal(id, "haut-droite") {
            Coin::HautDroite
        } else if texte::egal(id, "bas-gauche") {
            Coin::BasGauche
        } else if texte::egal(id, "bas-droite") {
            Coin::BasDroite
        } else {
            Coin::HautGauche
        }
    }

    pub fn libelle(self) -> (r: &'static str)
        ensures
            r@ == match self {
                Coin::HautGauche => "En haut à gauche"@,
                Coin::HautDroite => "En haut à droite"@,
                Coin::BasGauche => "En bas à gauche"@,
                Coin::BasDroite => "En bas à droite"@,
            },
    {
        match self {
            Coin::HautGauche => "En haut à gauche",
            Coin::HautDroite => "En haut à droite",
            Coin::BasGauche => "En bas à gauche",
            Coin::BasDroite => "En bas à droite",
        }
    }
}

/// A corner is read back from the name under which it was stored.
pub proof fn loi_coin_se_relit(c: Coin)
    ensures
        Coin::nomme(c.nom()) == c,
{
    reveal_strlit("haut-gauche");
    reveal_strlit("haut-droite");
    reveal_strlit("bas-gauche");
    reveal_strlit("bas-droite");
    assert("haut-gauche"@[0] == 'h' && "haut-gauche"@[5] == 'g');
    assert("haut-droite"@[0] == 'h' && "haut-droite"@[5] == 'd');
    assert("bas-gauche"@[0] == 'b' && "bas-gauche"@[4] == 'g');
    assert("bas-droite"@[0] == 'b' && "bas-droite"@[4] == 'd');
}

/// Someone of the voice channel.
#[derive(Debug)]
pub struct Ligne {
    pub nom: String,
    pub parle: bool,
}

/// The overlay: its settings, and who spoke a moment ago.
#[derive(Debug)]
pub struct Overlay {
    pub actif: bool,
    pub coin: Coin,
    /// Those who are silent are shown as well.
    pub toujours: bool,
    /// When each was last heard, in milliseconds.
    pub recemment: Vec<(String, u64)>,
}

/// A line that is shown: whose, and whether the ring is lit.
#[derive(Debug, Clone, Copy, PartialEq, Eq, Structural)]
pub struct Montree {
    /// The place of the line among those of the channel.
    pub place: usize,
    pub parle: bool,
}

/// How long the ring stays lit after the last word, in milliseconds.
pub const TENUE_MS: u64 = 400;

/// How long someone is remembered, in milliseconds.
pub const OUBLI_MS: u64 = 60_000;

/// When this person was last heard.
pub open spec fn entendu(s: Seq<(String, u64)>, nom: Seq<char>) -> Option<u64>
    decreases s.len(),
{
    if s.len() == 0 {
        None
    } else if s.last().0@ == nom {
        Some(s.last().1)
    } else {
        entendu(s.drop_last(), nom)
    }
}

/// Less than this long ago; an instant to come counts as now.
pub open spec fn depuis_moins(t: u64, maintenant: u64, duree: u64) -> bool {
    maintenant - t < duree
}

/// This person speaks.
pub open spec fn parle(lignes: Seq<Ligne>, nom: Seq<char>) -> bool {
    exists|j: int| 0 <= j < lignes.len() && (#[trigger] lignes[j]).parle && lignes[j].nom@ == nom
}

/// The ring of this person is lit: they speak, or did a moment ago.
pub open spec fn allume(
    recemment: Seq<(String, u64)>,
    lignes: Seq<Ligne>,
    nom: Seq<char>,
    maintenant: u64,
) -> bool {
    parle(lignes, nom) || (entendu(recemment, nom) matches Some(t) && depuis_moins(
        t,
        maintenant,
        TENUE_MS,
    ))
}

/// The lines that are shown among the first `n`.
pub open spec fn montrees(
    o: Overlay,
    lignes: Seq<Ligne>,
    maintenant: u64,
    n: int,
) -> Seq<Montree>
    decreases n,
{
    if n <= 0 {
        Seq::empty()
    } else {
        let avant = montrees(o, lignes, maintenant, n - 1);
        let p = allume(o.recemment@, lignes, lignes[n - 1].nom@, maintenant);
        if o.toujours || p {
            avant.push(Montree { place: (n - 1) as usize, parle: p })
        } else {
            avant
        }
    }
}

/// What is remembered of someone after this frame.
pub open spec fn retenu(
    recemment: Seq<(String, u64)>,
    lignes: Seq<Ligne>,
    nom: Seq<char>,
    maintenant: u64,
) -> Option<u64> {
    if parle(lignes, nom) {
        Some(maintenant)
    } else {
        match entendu(recemment, nom) {
            Some(t) => if depuis_moins(t, maintenant, OUBLI_MS) {
                Some(t)
            } else {
                None
            },
            None => None,
        }
    }
}

/// Nobody is remembered twice.
pub open spec fn uniques(s: Seq<(String, u64)>) -> bool {
    forall|i: int, j: int| 0 <= i < j < s.len() ==> (#[trigger] s[i]).0@ != (#[trigger] s[j]).0@
}

proof fn lemme_entendu(s: Seq<(String, u64)>, nom: Seq<char>, k: int)
    requires
        0 <= k < s.len(),
        s[k].0@ == nom,
        uniques(s),
    ensures
        entendu(s, nom) == Some(s[k].1),
    decreases s.len(),
{
    if k < s.len() - 1 {
        assert(s[k].0@ != s[s.len() - 1].0@);
        let d = s.drop_last();
        assert(d[k] == s[k]);
        assert forall|i: int, j: int| 0 <= i < j < d.len() implies (#[trigger] d[i]).0@ != (
        #[trigger] d[j]).0@ by {
            assert(d[i] == s[i] && d[j] == s[j]);
        }
        lemme_entendu(d, nom, k);
    }
}

proof fn lemme_pas_entendu(s: Seq<(String, u64)>, nom: Seq<char>)
    requires
        forall|k: int| 0 <= k < s.len() ==> (#[trigger] s[k]).0@ != nom,
    ensures
        entendu(s, nom) is None,
    decreases s.len(),
{
    if s.len() > 0 {
        let d = s.drop_last();
        assert forall|k: int| 0 <= k < d.len() implies (#[trigger] d[k]).0@ != nom by {
            assert(d[k] == s[k]);
        }
        assert(s[s.len() - 1].0@ != nom);
        lemme_pas_entendu(d, nom);
    }
}

proof fn lemme_entendu_existe(s: Seq<(String, u64)>, nom: Seq<char>)
    requires
        entendu(s, nom) is Some,
    ensures
        exists|k: int| 0 <= k < s.len() && (#[trigger] s[k]).0@ == nom,
    decreases s.len(),
{
    if s.last().0@ == nom {
        assert(s[s.len() - 1].0@ == nom);
    } else {
        lemme_entendu_existe(s.drop_last(), nom);
        let k = choose|k: int| 0 <= k < s.drop_last().len() && (#[trigger] s.drop_last()[k]).0@
            == nom;
        assert(s[k].0@ == nom);
    }
}

fn dernier_signal(s: &Vec<(String, u64)>, nom: &str) -> (r: Option<u64>)
    requires
        uniques(s@),
    ensures
        r == entendu(s@, nom@),
{
    let mut k: usize = 0;
    while k < s.len()
        invariant
            uniques(s@),
            k <= s@.len(),
            forall|i: int| 0 <= i < k ==> (#[trigger] s@[i]).0@ != nom@,
        decreases s@.len() - k,
    {
        if texte::egal(s[k].0.as_str(), nom) {
            proof {
                lemme_entendu(s@, nom@, k as int);
            }
            return Some(s[k].1);
        }
        k += 1;
    }
    proof {
        lemme_pas_entendu(s@, nom@);
    }
    None
}

fn qui_parle(lignes: &Vec<Ligne>, nom: &str) -> (r: bool)
    ensures
        r == parle(lignes@, nom@),
{
    let mut j: usize = 0;
    while j < lignes.len()
        invariant
            j <= lignes@.len(),
            forall|i: int| 0 <= i < j ==> !((#[trigger] lignes@[i]).parle && lignes@[i].nom@ == nom@),
        decreases lignes@.len() - j,
    {
        if lignes[j].parle && texte::egal(lignes[j].nom.as_str(), nom) {
            return true;
        }
        j += 1;
    }
    false
}

impl Overlay {
    /// Is the overlay worth showing at all? Not while the main window is being
    /// looked at, nor outside of the voice.
    pub open spec fn utile(self, lignes: Seq<Ligne>, focus_principal: bool) -> bool {
        self.actif && !focus_principal && lignes.len() > 0
    }

    fn relever(&self, lignes: &Vec<Ligne>, maintenant: u64) -> (r: Vec<(String, u64)>)
        requires
            uniques(self.recemment@),
        ensures
            uniques(r@),
            forall|nom: Seq<char>| #[trigger]
                entendu(r@, nom) == retenu(self.recemment@, lignes@, nom, maintenant),
    {
        let ghost vieux = self.recemment@;
        let mut r: Vec<(String, u64)> = Vec::new();
        // Those who were remembered and do not speak now.
        let mut k: usize = 0;
        while k < self.recemment.len()
            invariant
                vieux == self.recemment@,
                uniques(vieux),
                k <= vieux.len(),
                uniques(r@),
                forall|i: int|
                    0 <= i < r@.len() ==> {
                        &&& !parle(lignes@, (#[trigger] r@[i]).0@)
                        &&& entendu(vieux, r@[i].0@) == Some(r@[i].1)
                        &&& depuis_moins(r@[i].1, maintenant, OUBLI_MS)
                    },
                forall|i: int|
                    0 <= i < r@.len() ==> exists|q: int|
                        0 <= q < k && (#[trigger] vieux[q]).0@ == (#[trigger] r@[i]).0@,
                forall|q: int|
                    0 <= q < k && !parle(lignes@, (#[trigger] vieux[q]).0@) && depuis_moins(
                        vieux[q].1,
                        maintenant,
                        OUBLI_MS,
                    ) ==> exists|i: int| 0 <= i < r@.len() && (#[trigger] r@[i]).0@ == vieux[q].0@,
            decreases vieux.len() - k,
        {
            let t: u64 = self.recemment[k].1;
            let ghost avant = r@;
            let frais: bool = t > maintenant || maintenant - t < OUBLI_MS;
            if frais && !qui_parle(lignes, self.recemment[k].0.as_str()) {
                proof {
                    lemme_entendu(vieux, vieux[k as int].0@, k as int);
                }
                r.push((self.recemment[k].0.clone(), t));
                let ghost n = avant.len() as int;
                assert(r@[n].0@ == vieux[k as int].0@);
                assert forall|i: int| 0 <= i < n implies (#[trigger] r@[i]) == avant[i] by {}
                assert forall|i: int, j: int| 0 <= i < j < r@.len() implies (#[trigger] r@[i]).0@
                    != (#[trigger] r@[j]).0@ by {
                    if j == n {
                        let q = choose|q: int|
                            0 <= q < k && (#[trigger] vieux[q]).0@ == avant[i].0@;
                        assert(vieux[q].0@ != vieux[k as int].0@);
                    } else {
                        assert(avant[i].0@ != avant[j].0@);
                    }
                }
                assert forall|i: int| 0 <= i < r@.len() implies exists|q: int|
                    0 <= q < k + 1 && (#[trigger] vieux[q]).0@ == (#[trigger] r@[i]).0@ by {
                    if i < n {
                        let q = choose|q: int|
                            0 <= q < k && (#[trigger] vieux[q]).0@ == avant[i].0@;
                        assert(vieux[q].0@ == r@[i].0@);
                    } else {
                        assert(vieux[k as int].0@ == r@[i].0@);
                    }
                }
                assert forall|q: int|
                    0 <= q < k + 1 && !parle(lignes@, (#[trigger] vieux[q]).0@) && depuis_moins(
                        vieux[q].1,
                        maintenant,
                        OUBLI_MS,
                    ) implies exists|i: int|
                    0 <= i < r@.len() && (#[trigger] r@[i]).0@ == vieux[q].0@ by {
                    if q < k {
                        let i = choose|i: int|
                            0 <= i < avant.len() && (#[trigger] avant[i]).0@ == vieux[q].0@;
                        assert(r@[i].0@ == vieux[q].0@);
                    } else {
                        assert(r@[n].0@ == vieux[q].0@);
                    }
                }
            }
            k += 1;
        }
        let ghost calmes = r@;
        let ghost nc = calmes.len() as int;
        // Those who speak now.
        let mut j: usize = 0;
        while j < lignes.len()
            invariant
                vieux == self.recemment@,
                uniques(r@),
                nc == calmes.len(),
                nc <= r@.len(),
                j <= lignes@.len(),
                forall|i: int| 0 <= i < nc ==> (#[trigger] r@[i]) == calmes[i],
                forall|i: int| 0 <= i < nc ==> !parle(lignes@, (#[trigger] calmes[i]).0@),
                forall|i: int|
                    nc <= i < r@.len() ==> parle(lignes@, (#[trigger] r@[i]).0@) && r@[i].1
                        == maintenant,
                forall|q: int|
                    0 <= q < j && (#[trigger] lignes@[q]).parle ==> exists|i: int|
                        nc <= i < r@.len() && (#[trigger] r@[i]).0@ == lignes@[q].nom@,
            decreases lignes@.len() - j,
        {
            if lignes[j].parle {
                let ghost avant = r@;
                assert(parle(lignes@, lignes@[j as int].nom@));
                let connu: bool = dernier_signal(&r, lignes[j].nom.as_str()).is_some();
                if !connu {
                    assert forall|i: int| 0 <= i < avant.len() implies (#[trigger] avant[i]).0@
                        != lignes@[j as int].nom@ by {
                        if avant[i].0@ == lignes@[j as int].nom@ {
                            lemme_entendu(avant, lignes@[j as int].nom@, i);
                        }
                    }
                    r.push((lignes[j].nom.clone(), maintenant));
                    let ghost n = avant.len() as int;
                    assert(r@[n].0@ == lignes@[j as int].nom@);
                    assert forall|i: int| 0 <= i < n implies (#[trigger] r@[i]) == avant[i] by {}
                    assert forall|q: int|
                        0 <= q < j + 1 && (#[trigger] lignes@[q]).parle implies exists|i: int|
                        nc <= i < r@.len() && (#[trigger] r@[i]).0@ == lignes@[q].nom@ by {
                        if q < j {
                            let i = choose|i: int|
                                nc <= i < avant.len() && (#[trigger] avant[i]).0@ == lignes@[q].nom@;
                            assert(r@[i].0@ == lignes@[q].nom@);
                        } else {
                            assert(r@[n].0@ == lignes@[q].nom@);
                        }
                    }
                } else {
                    proof {
                        lemme_entendu_existe(r@, lignes@[j as int].nom@);
                        let i = choose|i: int|
                            0 <= i < r@.len() && (#[trigger] r@[i]).0@ == lignes@[j as int].nom@;
                        assert(i >= nc) by {
                            if i < nc {
                                assert(calmes[i] == r@[i]);
                            }
                        }
                        assert(r@[i].0@ == lignes@[j as int].nom@);
                    }
                }
            }
            j += 1;
        }
        proof {
            assert forall|nom: Seq<char>| #[trigger]
                entendu(r@, nom) == retenu(vieux, lignes@, nom, maintenant) by {
                if parle(lignes@, nom) {
                    let q = choose|q: int|
                        0 <= q < lignes@.len() && (#[trigger] lignes@[q]).parle && lignes@[q].nom@
                            == nom;
                    let i = choose|i: int|
                        nc <= i < r@.len() && (#[trigger] r@[i]).0@ == lignes@[q].nom@;
                    lemme_entendu(r@, nom, i);
                } else if retenu(vieux, lignes@, nom, maintenant) is Some {
                    lemme_entendu_existe(vieux, nom);
                    let q = choose|q: int| 0 <= q < vieux.len() && (#[trigger] vieux[q]).0@ == nom;
                    lemme_entendu(vieux, nom, q);
                    let i = choose|i: int|
                        0 <= i < calmes.len() && (#[trigger] calmes[i]).0@ == vieux[q].0@;
                    assert(r@[i] == calmes[i]);
                    lemme_entendu(r@, nom, i);
                } else {
                    assert forall|i: int| 0 <= i < r@.len() implies (#[trigger] r@[i]).0@ != nom by {
                        if i < nc {
                            assert(r@[i] == calmes[i]);
                        }
                    }
                    lemme_pas_entendu(r@, nom);
                }
            }
        }
        r
    }

    /// The lines to show on this frame, and who is remembered as having spoken.
    /// Nothing is shown where nothing would be seen.
    pub fn montrer(&mut self, lignes: &Vec<Ligne>, focus_principal: bool, maintenant: u64) -> (r: Vec<
        Montree,
    >)
        requires
            uniques(old(self).recemment@),
        ensures
            uniques(final(self).recemment@),
            *final(self) == (Overlay { recemment: final(self).recemment, ..*old(self) }),
            if old(self).utile(lignes@, focus_principal) {
                &&& r@ == montrees(*old(self), lignes@, maintenant, lignes@.len() as int)
                &&& forall|nom: Seq<char>| #[trigger]
                    entendu(final(self).recemment@, nom) == retenu(
                        old(self).recemment@,
                        lignes@,
                        nom,
                        maintenant,
                    )
            } else {
                r@.len() == 0 && *final(self) == *old(self)
            },
    {
        let mut r: Vec<Montree> = Vec::new();
        if !self.actif || focus_principal || lignes.len() == 0 {
            return r;
        }
        let nouveau: Vec<(String, u64)> = self.relever(lignes, maintenant);
        let mut i: usize = 0;
        while i < lignes.len()
            invariant
                *self == *old(self),
                uniques(nouveau@),
                forall|nom: Seq<char>| #[trigger]
                    entendu(nouveau@, nom) == retenu(
                        old(self).recemment@,
                        lignes@,
                        nom,
                        maintenant,
                    ),
                i <= lignes@.len(),
                r@ == montrees(*old(self), lignes@, maintenant, i as int),
            decreases lignes@.len() - i,
        {
            let nom: &str = lignes[i].nom.as_str();
            let tenu: bool = match dernier_signal(&nouveau, nom) {
                Some(t) => t > maintenant || maintenant - t < TENUE_MS,
                None => false,
            };
            proof {
                let n = lignes@[i as int].nom@;
                assert(entendu(nouveau@, n) == retenu(old(self).recemment@, lignes@, n, maintenant));
                if lignes@[i as int].parle {
                    assert(parle(lignes@, n));
                }
            }
            let p: bool = lignes[i].parle || tenu;
            if self.toujours || p {
                r.push(Montree { place: i, parle: p });
            }
            i += 1;
        }
        self.recemment = nouveau;
        r
    }

    /// The overlay as it is stored: on or off, its corner, and whether the
    /// silent are shown.
    pub fn load<G: Fn(&str, &str) -> String>(get: G) -> (r: Self)
        requires
            forall|cle: &str, defaut: &str| #[trigger] get.requires((cle, defaut)),
        ensures
            r.recemment@.len() == 0,
            exists|a: String, b: String, c: String|
                {
                    &&& #[trigger] get.ensures(("overlay", "on"), a)
                    &&& #[trigger] get.ensures(("overlay_coin", "haut-gauche"), b)
                    &&& #[trigger] get.ensures(("overlay_toujours", "on"), c)
                    &&& r.actif == (a@ != "off"@)
                    &&& r.coin == Coin::nomme(b@)
                    &&& r.toujours == (c@ != "off"@)
                },
    {
        let a: String = get("overlay", "on");
        let b: String = get("overlay_coin", "haut-gauche");
        let c: String = get("overlay_toujours", "on");
        let r: Overlay = Overlay {
            actif: !texte::egal(a.as_str(), "off"),
            coin: Coin::depuis(b.as_str()),
            toujours: !texte::egal(c.as_str(), "off"),
            recemment: Vec::new(),
        };
        assert(get.ensures(("overlay", "on"), a) && get.ensures(
            ("overlay_coin", "haut-gauche"),
            b,
        ) && get.ensures(("overlay_toujours", "on"), c));
        r
    }

    /// What is stored: a value for each of `overlay`, `overlay_coin` and
    /// `overlay_toujours`.
    pub fn save(&self) -> (r: (&'static str, &'static str, &'static str))
        ensures
            r.0@ == marche(self.actif),
            r.1@ == self.coin.nom(),
            r.2@ == marche(self.toujours),
    {
        (
            if self.actif {
                "on"
            } else {
                "off"
            },
            self.coin.id(),
            if self.toujours {
                "on"
            } else {
                "off"
            },
        )
    }
}

pub open spec fn marche(oui: bool) -> Seq<char> {
    if oui {
        "on"@
    } else {
        "off"@
    }
}

/// What was stored is read back.
pub proof fn loi_overlay_se_relit(o: Overlay)
    ensures
        (marche(o.actif) != "off"@) == o.actif,
        Coin::nomme(o.coin.nom()) == o.coin,
        (marche(o.toujours) != "off"@) == o.toujours,
{
    loi_coin_se_relit(o.coin);
    reveal_strlit("on");
    reveal_strlit("off");
    assert("on"@.len() == 2 && "off"@.len() == 3);
}

/// What is shown over a game: each line of the channel once at most, in order,
/// and with its ring lit when its name speaks, or did less than 400 ms ago. The
/// silent are left out where only those who speak are wanted.
pub proof fn loi_lignes_montrees(o: Overlay, lignes: Seq<Ligne>, maintenant: u64, n: int)
    requires
        0 <= n <= lignes.len() <= usize::MAX,
        uniques(o.recemment@),
    ensures
        ({
            let r = montrees(o, lignes, maintenant, n);
            &&& forall|i: int, j: int|
                0 <= i < j < r.len() ==> (#[trigger] r[i]).place < (#[trigger] r[j]).place
            &&& forall|i: int|
                0 <= i < r.len() ==> (#[trigger] r[i]).place < n && r[i].parle == anneau(
                    o.recemment@,
                    lignes,
                    lignes[r[i].place as int].nom@,
                    maintenant,
                )
            &&& forall|k: int|
                0 <= k < n ==> (#[trigger] montree(r, k) <==> (o.toujours || anneau(
                    o.recemment@,
                    lignes,
                    lignes[k].nom@,
                    maintenant,
                )))
        }),
    decreases n,
{
    if n > 0 {
        loi_lignes_montrees(o, lignes, maintenant, n - 1);
        let avant = montrees(o, lignes, maintenant, n - 1);
        let r = montrees(o, lignes, maintenant, n);
        let nom = lignes[n - 1].nom@;
        lemme_anneau(o.recemment@, lignes, nom, maintenant);
        assert forall|i: int, j: int| 0 <= i < j < r.len() implies (#[trigger] r[i]).place < (
        #[trigger] r[j]).place by {
            assert(r[i] == avant[i]);
            if j < avant.len() {
                assert(r[j] == avant[j]);
            }
        }
        assert forall|i: int| 0 <= i < r.len() implies (#[trigger] r[i]).place < n && r[i].parle
            == anneau(o.recemment@, lignes, lignes[r[i].place as int].nom@, maintenant) by {
            if i < avant.len() {
                assert(r[i] == avant[i]);
            }
        }
        assert forall|k: int| 0 <= k < n implies (#[trigger] montree(r, k) <==> (o.toujours
            || anneau(o.recemment@, lignes, lignes[k].nom@, maintenant))) by {
            assert(k < n - 1 ==> (montree(avant, k) <==> (o.toujours || anneau(
                o.recemment@,
                lignes,
                lignes[k].nom@,
                maintenant,
            ))));
            if montree(r, k) {
                let i = choose|i: int| 0 <= i < r.len() && (#[trigger] r[i]).place == k;
                if i < avant.len() {
                    assert(avant[i].place == k);
                    assert(montree(avant, k));
                }
            }
            if k < n - 1 && montree(avant, k) {
                let i = choose|i: int| 0 <= i < avant.len() && (#[trigger] avant[i]).place == k;
                assert(r[i].place == k);
            }
            if k == n - 1 && r.len() > avant.len() {
                assert(r[r.len() - 1].place == k);
            }
        }
    }
}

/// The line at this place is among those that are shown.
pub open spec fn montree(r: Seq<Montree>, k: int) -> bool {
    exists|i: int| 0 <= i < r.len() && (#[trigger] r[i]).place == k
}

/// The ring of a name: lit while a line of that name speaks, and for less than
/// 400 ms after it was last heard.
pub open spec fn anneau(
    recemment: Seq<(String, u64)>,
    lignes: Seq<Ligne>,
    nom: Seq<char>,
    maintenant: u64,
) -> bool {
    ||| exists|j: int| 0 <= j < lignes.len() && (#[trigger] lignes[j]).nom@ == nom && lignes[j].parle
    ||| exists|k: int|
        0 <= k < recemment.len() && (#[trigger] recemment[k]).0@ == nom && maintenant
            < recemment[k].1 + 400
}

proof fn lemme_anneau(
    recemment: Seq<(String, u64)>,
    lignes: Seq<Ligne>,
    nom: Seq<char>,
    maintenant: u64,
)
    requires
        uniques(recemment),
    ensures
        allume(recemment, lignes, nom, maintenant) == anneau(recemment, lignes, nom, maintenant),
{
    if let Some(t) = entendu(recemment, nom) {
        lemme_entendu_existe(recemment, nom);
        let k = choose|k: int| 0 <= k < recemment.len() && (#[trigger] recemment[k]).0@ == nom;
        lemme_entendu(recemment, nom, k);
        assert forall|q: int| 0 <= q < recemment.len() && (#[trigger] recemment[q]).0@ == nom implies q
            == k by {
            lemme_entendu(recemment, nom, q);
            if q < k {
                assert(recemment[q].0@ != recemment[k].0@);
            }
            if k < q {
                assert(recemment[k].0@ != recemment[q].0@);
            }
        }
    } else {
        assert forall|q: int| 0 <= q < recemment.len() implies (#[trigger] recemment[q]).0@ != nom by {
            if recemment[q].0@ == nom {
                lemme_entendu(recemment, nom, q);
            }
        }
    }
}

/// Whoever speaks is remembered as of now; whoever does not is remembered as
/// before for less than a minute, and not any more after that.
pub proof fn loi_souvenir(
    recemment: Seq<(String, u64)>,
    lignes: Seq<Ligne>,
    nom: Seq<char>,
    maintenant: u64,
    k: int,
    j: int,
)
    requires
        uniques(recemment),
    ensures
        (0 <= j < lignes.len() && lignes[j].parle && lignes[j].nom@ == nom) ==> retenu(
            recemment,
            lignes,
            nom,
            maintenant,
        ) == Some(maintenant),
        (0 <= k < recemment.len() && recemment[k].0@ == nom && (forall|i: int|
            0 <= i < lignes.len() && (#[trigger] lignes[i]).nom@ == nom ==> !lignes[i].parle))
            ==> retenu(recemment, lignes, nom, maintenant) == if maintenant < recemment[k].1
            + 60_000 {
            Some(recemment[k].1)
        } else {
            None
        },
{
    if 0 <= k < recemment.len() && recemment[k].0@ == nom {
        lemme_entendu(recemment, nom, k);
    }
}

/// The overlay is worth showing where it is wanted, while the window is not being
/// looked at, and in the voice.
pub proof fn loi_overlay_utile(o: Overlay, lignes: Seq<Ligne>, focus: bool)
    ensures
        focus ==> !o.utile(lignes, focus),
        !o.actif ==> !o.utile(lignes, focus),
        lignes.len() == 0 ==> !o.utile(lignes, focus),
        o.actif && !focus && lignes.len() > 0 ==> o.utile(lignes, focus),
{
}

} // verus!
