//! The pictures of the members, kept on disk under their own fingerprints.

use crate::listes;
use crate::texte;
use vstd::prelude::*;

verus! {

/// How many pictures are kept.
pub const MAX_FILES: usize = 200;

/// A digit in base sixteen, in lower or upper case.
pub open spec fn chiffre_hexa(c: char) -> bool {
    ('0' <= c <= '9') || ('a' <= c <= 'f') || ('A' <= c <= 'F')
}

/// A fingerprint: sixteen digits in base sixteen.
pub open spec fn empreinte(hash: Seq<char>) -> bool {
    hash.len() == 16 && forall|i: int| 0 <= i < 16 ==> chiffre_hexa(#[trigger] hash[i])
}

/// The file of a picture. A fingerprint comes from the network: one that does
/// not have the form of one stands for no file at all.
pub fn path_of(hash: &str) -> (r: Option<String>)
    ensures
        texte::vue(r) == if empreinte(hash@) {
            Some(hash@ + ".png"@)
        } else {
            None
        },
{
    let c: Vec<char> = texte::caracteres(hash);
    if c.len() != 16 {
        return None;
    }
    let mut i: usize = 0;
    while i < 16
        invariant
            c@ == hash@,
            c@.len() == 16,
            i <= 16,
            forall|j: int| 0 <= j < i ==> chiffre_hexa(#[trigger] hash@[j]),
        decreases 16 - i,
    {
        let x: char = c[i];
        if !(('0' <= x && x <= '9') || ('a' <= x && x <= 'f') || ('A' <= x && x <= 'F')) {
            assert(!chiffre_hexa(hash@[i as int]));
            return None;
        }
        i += 1;
    }
    let mut s: String = hash.to_owned();
    s.append(".png");
    Some(s)
}

/// Reads a picture of the cache, where `lire` reads one of its files.
pub fn load<L: Fn(&str) -> Option<Vec<u8>>>(hash: &str, lire: L) -> (r: Option<Vec<u8>>)
    requires
        forall|nom: &str| #[trigger] lire.requires((nom,)),
    ensures
        !empreinte(hash@) ==> r is None,
        empreinte(hash@) ==> exists|nom: &str|
            nom@ == hash@ + ".png"@ && #[trigger] lire.ensures((nom,), r),
{
    match path_of(hash) {
        Some(nom) => {
            let n: &str = nom.as_str();
            let r: Option<Vec<u8>> = lire(n);
            assert(lire.ensures((n,), r));
            r
        },
        None => None,
    }
}

/// The places of the files to remove, the oldest first: all but those that are
/// kept.
pub fn prune(dates: &Vec<u128>) -> (r: Vec<usize>)
    ensures
        dates@.len() <= MAX_FILES ==> r@.len() == 0,
        dates@.len() > MAX_FILES ==> exists|ordre: Seq<usize>| #[trigger]
            listes::par_age_de(dates@, ordre) && r@ == ordre.take(dates@.len() - MAX_FILES),
{
    let n: usize = dates.len();
    let mut r: Vec<usize> = Vec::new();
    if n <= MAX_FILES {
        return r;
    }
    let ordre: Vec<usize> = listes::par_age(dates);
    let mut i: usize = 0;
    while i < n - MAX_FILES
        invariant
            n == dates@.len(),
            n > MAX_FILES,
            ordre@.len() == n,
            i <= n - MAX_FILES,
            r@ == ordre@.take(i as int),
        decreases n - MAX_FILES - i,
    {
        assert(ordre@.take(i + 1) =~= ordre@.take(i as int).push(ordre@[i as int]));
        r.push(ordre[i]);
        i += 1;
    }
    assert(listes::par_age_de(dates@, ordre@));
    r
}

/// The file of a picture never lies outside of the cache: its name holds no
/// separator, and two of them are the same only for the same fingerprint.
pub proof fn loi_nom_de_photo(a: Seq<char>, b: Seq<char>)
    requires
        empreinte(a),
        empreinte(b),
    ensures
        !(a + ".png"@).contains('/') && !(a + ".png"@).contains('\\'),
        a + ".png"@ == b + ".png"@ ==> a == b,
{
    reveal_strlit(".png");
    let s = a + ".png"@;
    assert forall|i: int| 0 <= i < s.len() implies s[i] != '/' && s[i] != '\\' by {
        if i < 16 {
            assert(chiffre_hexa(a[i]));
        }
    }
    assert(s.take(16) =~= a);
    assert((b + ".png"@).take(16) =~= b);
}

/// A picture has a file where its fingerprint is sixteen hexadecimal digits, and
/// only there.
pub proof fn loi_empreinte_de_photo(hash: Seq<char>)
    ensures
        empreinte(hash) <==> hash.len() == 16 && forall|k: int|
            0 <= k < 16 ==> ('0' <= #[trigger] hash[k] && hash[k] <= '9') || ('a' <= hash[k]
                && hash[k] <= 'f') || ('A' <= hash[k] && hash[k] <= 'F'),
{
    if hash.len() == 16 && forall|k: int|
        0 <= k < 16 ==> ('0' <= #[trigger] hash[k] && hash[k] <= '9') || ('a' <= hash[k] && hash[k]
            <= 'f') || ('A' <= hash[k] && hash[k] <= 'F') {
        assert forall|k: int| 0 <= k < 16 implies chiffre_hexa(#[trigger] hash[k]) by {}
    }
    if empreinte(hash) {
        assert forall|k: int| 0 <= k < 16 implies ('0' <= #[trigger] hash[k] && hash[k] <= '9') || (
        'a' <= hash[k] && hash[k] <= 'f') || ('A' <= hash[k] && hash[k] <= 'F') by {
            assert(chiffre_hexa(hash[k]));
        }
    }
}

} // verus!
