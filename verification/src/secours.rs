//! What is done when things go wrong: the log, the crash report, and starting
//! again.

use crate::texte;
use vstd::prelude::*;

verus! {

/// The size past which the log is put aside at the start, in bytes.
pub const JOURNAL_MAX: u64 = 2_097_152;

/// How often the application is started again when it dies at once.
pub const RELANCES_MAX: u32 = 2;

/// How long a session has to live to count as a sound one, in milliseconds.
pub const SESSION_SAINE_MS: u64 = 60_000;

/// The size past which only the end of the crash report is kept, in bytes.
pub const RAPPORT_MAX: usize = 196_608;

/// The most that is sent of it, in bytes.
pub const RAPPORT_ENVOI_MAX: usize = 32_768;

// ---------------------------------------------------------------------
// Starting again
// ---------------------------------------------------------------------

/// What the attempts become after an error: a sound session starts the count
/// over, and the attempts that die at once are few.
pub open spec fn relance(essais: u32, vecu_ms: u64) -> Option<u32> {
    if vecu_ms >= SESSION_SAINE_MS {
        Some(1)
    } else if essais < RELANCES_MAX {
        Some((essais + 1) as u32)
    } else {
        None
    }
}

/// Decides whether to start again after an error of the graphics. Returns the
/// count for the next instance; none where starting again would not help.
pub fn decision_relance(essais: u32, vecu_ms: u64) -> (r: Option<u32>)
    ensures
        r == relance(essais, vecu_ms),
{
    if vecu_ms >= SESSION_SAINE_MS {
        return Some(1);
    }
    if essais < RELANCES_MAX {
        Some(essais + 1)
    } else {
        None
    }
}

/// The count after `n` instances that each died at once.
pub open spec fn apres_morts(essais: u32, n: nat) -> Option<u32>
    decreases n,
{
    if n == 0 {
        Some(essais)
    } else {
        match apres_morts(essais, (n - 1) as nat) {
            Some(e) => relance(e, 0),
            None => None,
        }
    }
}

/// An error that comes back at once is given up on: whatever the count, no
/// instance is left after the third.
pub proof fn loi_relances_bornees(essais: u32)
    ensures
        apres_morts(essais, 3) is None,
{
    reveal_with_fuel(apres_morts, 4);
}

/// The argument that carries the count, and what follows it.
pub open spec fn essais_lus(args: Seq<Seq<char>>) -> u32
    decreases args.len(),
{
    if args.len() == 0 {
        0
    } else if args[0] == "--relance"@ {
        if args.len() > 1 {
            match texte::nombre_borne(args[1], u32::MAX as nat) {
                Some(n) => n as u32,
                None => 0,
            }
        } else {
            0
        }
    } else {
        essais_lus(args.skip(1))
    }
}

pub open spec fn vues(args: Seq<String>) -> Seq<Seq<char>> {
    Seq::new(args.len(), |i: int| args[i]@)
}

/// Reads the count in the arguments. Whatever cannot be read counts for
/// nothing.
pub fn essais_dans(args: &Vec<String>) -> (r: u32)
    ensures
        r == essais_lus(vues(args@)),
{
    let ghost v = vues(args@);
    let mut i: usize = 0;
    assert(v.skip(0) =~= v);
    while i < args.len()
        invariant
            v == vues(args@),
            i <= args@.len(),
            essais_lus(v) == essais_lus(v.skip(i as int)),
        decreases args@.len() - i,
    {
        assert(v.skip(i as int)[0] == args@[i as int]@);
        if texte::egal(args[i].as_str(), "--relance") {
            if i + 1 < args.len() {
                assert(v.skip(i as int)[1] == args@[i + 1]@);
                return match texte::lire_nombre(args[i + 1].as_str(), 0xffff_ffff) {
                    Some(n) => n as u32,
                    None => 0,
                };
            }
            return 0;
        }
        assert(v.skip(i as int).skip(1) =~= v.skip(i + 1));
        i += 1;
    }
    0
}

// ---------------------------------------------------------------------
// The log and the crash report
// ---------------------------------------------------------------------

/// Does a log of this size have to be put aside?
pub fn a_archiver(octets: u64, max: u64) -> (r: bool)
    ensures
        r == (octets > max),
{
    octets > max
}

/// What is kept of a crash report before it grows again: all of it, or its end
/// where it is too long.
pub open spec fn borne(octets: Seq<u8>) -> Seq<u8> {
    if octets.len() <= RAPPORT_MAX {
        octets
    } else {
        octets.skip(octets.len() - RAPPORT_MAX / 2)
    }
}

/// What is kept of a crash report before it grows again.
pub fn borner_rapport(octets: &Vec<u8>) -> (r: Vec<u8>)
    ensures
        r@ == borne(octets@),
{
    let n: usize = octets.len();
    let debut: usize = if n <= RAPPORT_MAX {
        0
    } else {
        n - RAPPORT_MAX / 2
    };
    let mut r: Vec<u8> = Vec::new();
    let mut i: usize = debut;
    while i < n
        invariant
            n == octets@.len(),
            debut <= i <= n,
            r@ == octets@.subrange(debut as int, i as int),
        decreases n - i,
    {
        assert(octets@.subrange(debut as int, i + 1) =~= octets@.subrange(
            debut as int,
            i as int,
        ).push(octets@[i as int]));
        r.push(octets[i]);
        i += 1;
    }
    assert(octets@.subrange(debut as int, n as int) =~= octets@.skip(debut as int));
    assert(octets@.skip(0) =~= octets@);
    r
}

/// The report never outgrows its limit before something is added to it.
pub proof fn loi_rapport_borne(octets: Seq<u8>)
    ensures
        borne(octets).len() <= RAPPORT_MAX,
        octets.len() > RAPPORT_MAX ==> borne(octets).len() == RAPPORT_MAX / 2 && borne(
            octets,
        ).last() == octets.last(),
{
}

/// The entry of a crash.
pub fn entree_crash(quand: &str, quoi: &str) -> (r: String)
    ensures
        r@ == "==== CRASH "@ + quand@ + " ====\n"@ + quoi@ + "\n"@,
{
    let mut s: String = "==== CRASH ".to_owned();
    s.append(quand);
    s.append(" ====\n");
    s.append(quoi);
    s.append("\n");
    s
}

/// The text that bytes stand for, with a replacement character for whatever is
/// not UTF-8.
pub uninterp spec fn texte_tolerant(octets: Seq<u8>) -> Seq<char>;

/// `String::from_utf8_lossy`: the text of the bytes as it is where they are
/// UTF-8. Elsewhere it has replacement characters; it depends on the bytes
/// alone, and is only named.
#[verifier::external_body]
fn lire_tolerant(octets: &[u8]) -> (r: String)
    ensures
        r@ == texte_tolerant(octets@),
        vstd::utf8::valid_utf8(octets@) ==> r@ == vstd::utf8::decode_utf8(octets@),
{
    String::from_utf8_lossy(octets).into_owned()
}

/// The longest end of a text that takes at most `max` bytes.
pub open spec fn fin_bornee(s: Seq<char>, max: nat) -> Seq<char>
    decreases s.len(),
{
    if s.len() == 0 || vstd::utf8::encode_utf8(s).len() <= max {
        s
    } else {
        fin_bornee(s.skip(1), max)
    }
}

/// The bytes that a character takes.
pub open spec fn largeur(c: char) -> nat {
    vstd::utf8::encode_scalar(c as u32).len()
}

fn octets_de(c: char) -> (r: usize)
    ensures
        r == largeur(c),
        1 <= r <= 4,
{
    let u: u32 = c as u32;
    proof {
        vstd::utf8::char_is_scalar(c);
    }
    if u < 0x80 {
        1
    } else if u < 0x800 {
        2
    } else if u < 0x10000 {
        3
    } else {
        4
    }
}

/// The longest end of a text that takes at most `max` bytes, cut between two
/// characters.
pub fn garder_fin(s: &str, max: usize) -> (r: &str)
    ensures
        r@ == fin_bornee(s@, max as nat),
{
    let c: Vec<char> = texte::caracteres(s);
    let n: usize = c.len();
    let mut reste: usize = s.as_bytes().len();
    let mut i: usize = 0;
    assert(s@.skip(0) =~= s@);
    while i < n && reste > max
        invariant
            c@ == s@,
            n == s@.len(),
            i <= n,
            reste == vstd::utf8::encode_utf8(s@.skip(i as int)).len(),
            fin_bornee(s@, max as nat) == fin_bornee(s@.skip(i as int), max as nat),
        decreases n - i,
    {
        let ghost t = s@.skip(i as int);
        assert(t[0] == s@[i as int]);
        assert(t.drop_first() =~= s@.skip(i + 1));
        assert(t.skip(1) =~= s@.skip(i + 1));
        let k: usize = octets_de(c[i]);
        assert(vstd::utf8::encode_utf8(t).len() == largeur(t[0]) + vstd::utf8::encode_utf8(
            t.drop_first(),
        ).len());
        reste = reste - k;
        i += 1;
    }
    let r: &str = s.substring_char(i, n);
    assert(r@ =~= s@.skip(i as int));
    r
}

/// What is sent of a crash report takes no more bytes than it may.
pub proof fn loi_fin_bornee(s: Seq<char>, max: nat)
    ensures
        vstd::utf8::encode_utf8(fin_bornee(s, max)).len() <= max,
        fin_bornee(s, max).len() <= s.len(),
        fin_bornee(s, max) == s.skip(s.len() - fin_bornee(s, max).len()),
    decreases s.len(),
{
    if s.len() == 0 {
        assert(vstd::utf8::encode_utf8(s).len() == 0);
        assert(s.skip(0) =~= s);
    } else if vstd::utf8::encode_utf8(s).len() <= max {
        assert(s.skip(0) =~= s);
    } else {
        loi_fin_bornee(s.skip(1), max);
        let f = fin_bornee(s.skip(1), max);
        assert(s.skip(1).skip(s.len() - 1 - f.len()) =~= s.skip(s.len() - f.len()));
    }
}

/// The crash report to send, if there is one that was not sent yet: its stamp,
/// and its end. `fichier` is the stamp and the bytes of the report, where there
/// is one.
pub fn rapport_a_envoyer(fichier: Option<(&str, &[u8])>, deja_envoye: &str) -> (r: Option<
    (String, String),
>)
    ensures
        match fichier {
            Some((tampon, octets)) if tampon@ != deja_envoye@ => r matches Some((t, fin)) && t@
                == tampon@ && fin@ == fin_bornee(
                texte_tolerant(octets@),
                RAPPORT_ENVOI_MAX as nat,
            ),
            _ => r is None,
        },
        match (fichier, r) {
            (Some((_, octets)), Some((_, fin))) => vstd::utf8::valid_utf8(octets@) ==> fin@
                == fin_bornee(vstd::utf8::decode_utf8(octets@), RAPPORT_ENVOI_MAX as nat),
            _ => true,
        },
{
    match fichier {
        Some((tampon, octets)) => {
            if texte::egal(tampon, deja_envoye) {
                return None;
            }
            let tout: String = lire_tolerant(octets);
            let fin: String = garder_fin(tout.as_str(), RAPPORT_ENVOI_MAX).to_owned();
            Some((tampon.to_owned(), fin))
        },
        None => None,
    }
}

/// A session that lived a minute starts the count of restarts over; one that died
/// sooner is started again twice at most.
pub proof fn loi_decision_de_relance(essais: u32, vecu_ms: u64)
    ensures
        vecu_ms >= 60_000 ==> relance(essais, vecu_ms) == Some(1u32),
        vecu_ms < 60_000 && essais == 0 ==> relance(essais, vecu_ms) == Some(1u32),
        vecu_ms < 60_000 && essais == 1 ==> relance(essais, vecu_ms) == Some(2u32),
        vecu_ms < 60_000 && essais >= 2 ==> relance(essais, vecu_ms) is None,
{
}

/// The count of restarts is the number behind the first argument that announces
/// it, and zero without one.
pub proof fn loi_essais_lus(args: Seq<Seq<char>>, k: int, n: nat)
    requires
        0 <= k <= args.len(),
        forall|i: int| 0 <= i < k ==> #[trigger] args[i] != "--relance"@,
    ensures
        k == args.len() ==> essais_lus(args) == 0,
        k + 1 < args.len() && args[k] == "--relance"@ && n <= u32::MAX && args[k + 1]
            == texte::decimal(n) ==> essais_lus(args) == n,
        k + 1 == args.len() && args[k] == "--relance"@ ==> essais_lus(args) == 0,
    decreases k,
{
    texte::loi_decimal_se_relit(n);
    if k > 0 {
        assert(args[0] != "--relance"@);
        let u = args.skip(1);
        assert forall|i: int| 0 <= i < k - 1 implies #[trigger] u[i] != "--relance"@ by {
            assert(u[i] == args[i + 1]);
        }
        loi_essais_lus(u, k - 1, n);
    }
}

/// A report that is too long keeps its end, and one that is not is left alone.
pub proof fn loi_fin_du_rapport(octets: Seq<u8>)
    ensures
        octets.len() <= 196_608 ==> borne(octets) == octets,
        octets.len() > 196_608 ==> borne(octets).len() == 98_304 && borne(octets).is_suffix_of(
            octets,
        ),
{
    if octets.len() > 196_608 {
        assert(borne(octets) =~= octets.subrange(octets.len() - 98_304, octets.len() as int));
    }
}

/// As much of the end is kept as fits: one character more would be too much.
pub proof fn loi_fin_la_plus_longue(s: Seq<char>, max: nat)
    ensures
        vstd::utf8::encode_utf8(s).len() <= max ==> fin_bornee(s, max) == s,
        fin_bornee(s, max).len() < s.len() ==> vstd::utf8::encode_utf8(
            s.skip(s.len() - fin_bornee(s, max).len() - 1),
        ).len() > max,
    decreases s.len(),
{
    if s.len() > 0 && vstd::utf8::encode_utf8(s).len() > max {
        let u = s.skip(1);
        loi_fin_la_plus_longue(u, max);
        loi_fin_bornee(u, max);
        let r = fin_bornee(s, max);
        if r.len() == u.len() {
            assert(s.skip(s.len() - r.len() - 1) =~= s);
        } else {
            assert(s.skip(s.len() - r.len() - 1) =~= u.skip(u.len() - r.len() - 1));
        }
    }
}

} // verus!
