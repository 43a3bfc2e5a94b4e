//! Taking a lost connection up again, on its own.

use crate::protocole::ChannelId;
use vstd::prelude::*;

verus! {

/// A reconnection on its way.
#[derive(Debug, Clone, Copy, PartialEq, Eq)]
pub struct Reprise {
    /// Which attempt comes next, from one on.
    pub essais: u32,
    /// When it starts, in milliseconds.
    pub quand: u64,
    /// The text channel to go back to.
    pub salon: Option<ChannelId>,
    /// The voice channel to go back to.
    pub vocal: Option<ChannelId>,
}

/// A second, doubled `n` times, in milliseconds.
pub open spec fn doublee(n: nat) -> nat
    decreases n,
{
    if n == 0 {
        1000
    } else {
        2 * doublee((n - 1) as nat)
    }
}

/// The doublings that an attempt has behind it: five at most.
pub open spec fn doublements(essais: u32) -> nat {
    if essais == 0 {
        0
    } else if essais <= 6 {
        (essais - 1) as nat
    } else {
        5
    }
}

/// The longest that this attempt may wait.
pub open spec fn plein(essais: u32) -> nat {
    let base = doublee(doublements(essais));
    if base <= Reprise::PLAFOND {
        base
    } else {
        Reprise::PLAFOND as nat
    }
}

/// What this attempt waits, on this draw: between half of the longest wait and
/// all of it.
pub open spec fn attente_de(essais: u32, alea: u64) -> nat {
    let moitie = plein(essais) / 2;
    moitie + (alea as nat) % ((plein(essais) - moitie + 1) as nat)
}

proof fn lemme_doublee()
    ensures
        doublee(0) == 1000,
        doublee(1) == 2000,
        doublee(2) == 4000,
        doublee(3) == 8000,
        doublee(4) == 16_000,
        doublee(5) == 32_000,
{
    reveal_with_fuel(doublee, 6);
}

impl Reprise {
    /// How many attempts are made before giving up.
    pub const MAX: u32 = 40;

    /// The longest that an attempt waits for its turn, in milliseconds.
    pub const PLAFOND: u64 = 30_000;

    /// How long to wait before this attempt, in milliseconds. The wait doubles
    /// from one attempt to the next, up to half a minute, and a part of it is
    /// drawn: what a server lost at once does not all come back at once.
    pub fn attente(essais: u32, alea: u64) -> (r: u64)
        ensures
            r == attente_de(essais, alea),
    {
        proof {
            lemme_doublee();
        }
        let base: u64 = if essais <= 1 {
            1000
        } else if essais == 2 {
            2000
        } else if essais == 3 {
            4000
        } else if essais == 4 {
            8000
        } else if essais == 5 {
            16_000
        } else {
            Reprise::PLAFOND
        };
        assert(base == plein(essais));
        let moitie: u64 = base / 2;
        moitie + alea % (base - moitie + 1)
    }
}

/// A wait always lies between half of the longest one and all of it, and the
/// longest is never over half a minute.
pub proof fn loi_attente_bornee(essais: u32, alea: u64)
    ensures
        plein(essais) / 2 <= attente_de(essais, alea) <= plein(essais),
        1000 <= plein(essais) <= Reprise::PLAFOND,
{
    lemme_doublee();
    let moitie = plein(essais) / 2;
    let n = (plein(essais) - moitie + 1) as nat;
    assert((alea as nat) % n < n) by (nonlinear_arith)
        requires
            n > 0,
    ;
}

/// The longest wait never shrinks from one attempt to a later one.
pub proof fn loi_attente_croit(a: u32, b: u32)
    requires
        a <= b,
    ensures
        plein(a) <= plein(b),
{
    lemme_doublee();
}

/// Waits scatter over the whole upper half: each of them comes on some draw.
pub proof fn loi_attente_se_disperse(essais: u32, ms: u64)
    requires
        plein(essais) / 2 <= ms <= plein(essais),
    ensures
        exists|alea: u64| #[trigger] attente_de(essais, alea) == ms,
{
    lemme_doublee();
    let moitie = plein(essais) / 2;
    let alea: u64 = (ms - moitie) as u64;
    vstd::arithmetic::div_mod::lemma_small_mod(
        alea as nat,
        (plein(essais) - moitie + 1) as nat,
    );
    assert(attente_de(essais, alea) == ms);
}

/// The longest wait is a second before the first attempt and doubles from each
/// attempt to the next, until it reaches half a minute and stays there.
pub proof fn loi_attente_double(essais: u32)
    requires
        1 <= essais < u32::MAX,
    ensures
        plein(1) == 1000,
        2 * plein(essais) <= 30_000 ==> plein((essais + 1) as u32) == 2 * plein(essais),
        2 * plein(essais) > 30_000 ==> plein((essais + 1) as u32) == 30_000,
{
    lemme_doublee();
}

/// The draw moves the wait one millisecond at a time over the upper half of the
/// longest one, and from its end back to its start.
pub proof fn loi_tirage_regulier(essais: u32, alea: u64)
    requires
        alea < u64::MAX,
    ensures
        attente_de(essais, 0) == plein(essais) / 2,
        attente_de(essais, (alea + 1) as u64) == attente_de(essais, alea) + 1 || (attente_de(
            essais,
            alea,
        ) == plein(essais) && attente_de(essais, (alea + 1) as u64) == plein(essais) / 2),
{
    lemme_doublee();
    let moitie = plein(essais) / 2;
    let n = (plein(essais) - moitie + 1) as int;
    let a = alea as int;
    vstd::arithmetic::div_mod::lemma_fundamental_div_mod(a, n);
    vstd::arithmetic::div_mod::lemma_mod_bound(a, n);
    let q = a / n;
    let r = a % n;
    if r + 1 < n {
        assert(a + 1 == n * q + (r + 1));
        vstd::arithmetic::div_mod::lemma_fundamental_div_mod_converse(a + 1, n, q, r + 1);
    } else {
        assert(a + 1 == n * (q + 1)) by (nonlinear_arith)
            requires
                a == n * q + r,
                r + 1 == n,
        ;
        vstd::arithmetic::div_mod::lemma_fundamental_div_mod_converse(a + 1, n, q + 1, 0);
    }
    assert(0int % n == 0) by {
        vstd::arithmetic::div_mod::lemma_small_mod(0, n as nat);
    }
}

} // verus!
