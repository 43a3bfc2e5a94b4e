//! The combination of the clip recorder, as the system holds it.

use crate::ptt::Raccourci;
use vstd::prelude::*;

verus! {

/// What the system said of the combination that was asked for.
#[derive(Debug, Clone, Copy, PartialEq, Eq, Structural)]
pub enum Etat {
    /// Nothing was asked for, or there is no such system.
    Aucun,
    /// Registered: it goes over everything.
    Enregistre,
    /// Refused: another program holds it. Reading the keyboard takes over.
    Refuse,
}

impl Etat {
    /// The number under which the state is shared between threads.
    pub open spec fn numero(self) -> u8 {
        match self {
            Etat::Aucun => 0,
            Etat::Enregistre => 1,
            Etat::Refuse => 2,
        }
    }

    pub fn en_octet(self) -> (r: u8)
        ensures
            r == self.numero(),
    {
        match self {
            Etat::Aucun => 0,
            Etat::Enregistre => 1,
            Etat::Refuse => 2,
        }
    }

    /// The state that a number stands for; none of them where it is not one.
    pub open spec fn de(v: u8) -> Etat {
        if v == 1 {
            Etat::Enregistre
        } else if v == 2 {
            Etat::Refuse
        } else {
            Etat::Aucun
        }
    }

    pub fn depuis(v: u8) -> (r: Etat)
        ensures
            r == Etat::de(v),
    {
        match v {
            1 => Etat::Enregistre,
            2 => Etat::Refuse,
            _ => Etat::Aucun,
        }
    }
}

/// Reads the shared state.
pub fn lire(etat: u8) -> (r: Etat)
    ensures
        r == Etat::de(etat),
{
    Etat::depuis(etat)
}

/// A state is read back from the number under which it was shared.
pub proof fn loi_etat_se_relit(e: Etat)
    ensures
        Etat::de(e.numero()) == e,
{
}

/// The numbers of those that the system took, counted from one, among the
/// first `n`.
pub open spec fn pris(ok: Seq<bool>, n: int) -> Seq<i32>
    decreases n,
{
    if n <= 0 {
        Seq::empty()
    } else if ok[n - 1] {
        pris(ok, n - 1).push(n as i32)
    } else {
        pris(ok, n - 1)
    }
}

/// What registering a combination came to.
#[derive(Debug)]
pub struct Pose {
    /// The variants to keep.
    pub gardees: Vec<i32>,
    /// The variants to let go of again.
    pub lachees: Vec<i32>,
    pub etat: Etat,
}

/// What to do of what the system answered for each variant, the exact
/// combination first. Variants are a comfort: where the exact one is refused,
/// all are let go of, and reading the keyboard takes over alone.
pub fn poser(ok: &Vec<bool>) -> (r: Pose)
    requires
        ok@.len() < i32::MAX,
    ensures
        ({
            let exacte = ok@.len() > 0 && ok@[0];
            let tous = pris(ok@, ok@.len() as int);
            &&& r.etat == if exacte {
                Etat::Enregistre
            } else {
                Etat::Refuse
            }
            &&& r.gardees@ == if exacte {
                tous
            } else {
                Seq::empty()
            }
            &&& r.lachees@ == if exacte {
                Seq::empty()
            } else {
                tous
            }
        }),
{
    let mut tous: Vec<i32> = Vec::new();
    let mut i: usize = 0;
    while i < ok.len()
        invariant
            ok@.len() < i32::MAX,
            i <= ok@.len(),
            tous@ == pris(ok@, i as int),
        decreases ok@.len() - i,
    {
        if ok[i] {
            tous.push((i + 1) as i32);
        }
        i += 1;
    }
    if ok.len() > 0 && ok[0] {
        Pose { gardees: tous, lachees: Vec::new(), etat: Etat::Enregistre }
    } else {
        Pose { gardees: Vec::new(), lachees: tous, etat: Etat::Refuse }
    }
}

/// What the system was last asked to hold.
#[derive(Debug, Clone, Copy, PartialEq, Eq)]
pub struct Regle {
    pub tenu: Option<Raccourci>,
}

/// What the system should hold: the combination, but for while another one is
/// being typed.
pub open spec fn a_tenir(r: Option<Raccourci>, en_capture: bool) -> Option<Raccourci> {
    if en_capture {
        None
    } else {
        r
    }
}

impl Regle {
    pub fn new() -> (r: Self)
        ensures
            r.tenu is None,
    {
        Regle { tenu: None }
    }

    /// The combination to hold, at every frame. Returns what to ask of the
    /// system, which is asked on a change only.
    pub fn watch_raccourci(&mut self, r: Option<Raccourci>, en_capture: bool) -> (demande: Option<
        Option<Raccourci>,
    >)
        ensures
            final(self).tenu == a_tenir(r, en_capture),
            demande == if old(self).tenu == a_tenir(r, en_capture) {
                None
            } else {
                Some(a_tenir(r, en_capture))
            },
    {
        let voulu: Option<Raccourci> = if en_capture {
            None
        } else {
            r
        };
        let meme: bool = match (&self.tenu, &voulu) {
            (Some(a), Some(b)) => *a == *b,
            (None, None) => true,
            _ => false,
        };
        if meme {
            return None;
        }
        self.tenu = voulu;
        Some(voulu)
    }
}

/// What reading the keyboard has to look for: the combination, where the system
/// does not hold it already.
pub fn au_sondage(r: Option<Raccourci>, etat: Etat) -> (s: Option<Raccourci>)
    ensures
        s == if etat == Etat::Enregistre {
            None
        } else {
            r
        },
{
    if matches!(etat, Etat::Enregistre) {
        None
    } else {
        r
    }
}

/// The variants that the system took are counted from one, and none that it
/// refused is among them.
pub proof fn loi_variantes_prises(ok: Seq<bool>, n: int, k: i32)
    requires
        0 <= n <= ok.len(),
        n < i32::MAX,
    ensures
        pris(ok, n).contains(k) <==> 1 <= k <= n && ok[k - 1],
    decreases n,
{
    if n > 0 {
        loi_variantes_prises(ok, n - 1, k);
        let a = pris(ok, n - 1);
        let r = pris(ok, n);
        if r.contains(k) {
            let i = choose|i: int| 0 <= i < r.len() && r[i] == k;
            if i < a.len() {
                assert(a[i] == k);
            }
        }
        if a.contains(k) {
            let i = choose|i: int| 0 <= i < a.len() && a[i] == k;
            assert(r[i] == k);
        }
        if ok[n - 1] {
            assert(r[r.len() - 1] == n as i32);
        }
    }
}

/// While another combination is being typed the system holds none, and else the
/// one that is wanted.
pub proof fn loi_raccourci_tenu(r: Option<Raccourci>)
    ensures
        a_tenir(r, true) is None,
        a_tenir(r, false) == r,
{
}

} // verus!
