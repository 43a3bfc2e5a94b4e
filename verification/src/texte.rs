//! Characters and strings: the few operations on text that the rest of the
//! library is built from, all stated over sequences of characters.

use vstd::prelude::*;

verus! {

/// `String::push` appends one character at the end.
pub assume_specification[ String::push ](s: &mut String, c: char)
    ensures
        final(s)@ == old(s)@.push(c),
;

/// Whether two strings hold the same characters.
pub fn egal(a: &str, b: &str) -> (r: bool)
    ensures
        r == (a@ == b@),
{
    proof {
        vstd::utf8::encode_utf8_decode_utf8(a@);
        vstd::utf8::encode_utf8_decode_utf8(b@);
    }
    let x: &[u8] = a.as_bytes();
    let y: &[u8] = b.as_bytes();
    if x.len() != y.len() {
        return false;
    }
    let mut i: usize = 0;
    while i < x.len()
        invariant
            x@ == vstd::utf8::encode_utf8(a@),
            y@ == vstd::utf8::encode_utf8(b@),
            x@.len() == y@.len(),
            i <= x@.len(),
            x@.take(i as int) == y@.take(i as int),
        decreases x@.len() - i,
    {
        if x[i] != y[i] {
            assert(x@[i as int] != y@[i as int]);
            return false;
        }
        assert(x@.take(i + 1) =~= x@.take(i as int).push(x@[i as int]));
        assert(y@.take(i + 1) =~= y@.take(i as int).push(y@[i as int]));
        i += 1;
    }
    assert(x@.take(i as int) =~= x@);
    assert(y@.take(i as int) =~= y@);
    true
}

/// The characters of a string.
pub fn caracteres(s: &str) -> (v: Vec<char>)
    ensures
        v@ == s@,
{
    let mut v: Vec<char> = Vec::new();
    for c in it: s.chars()
        invariant
            it.seq() == s@,
            v@ == s@.take(it.index() as int),
    {
        assert(s@.take(it.index() + 1) =~= s@.take(it.index() as int).push(c));
        v.push(c);
    }
    assert(v@ =~= s@);
    v
}

/// The characters of Unicode's `White_Space` property.
pub open spec fn est_blanc(c: char) -> bool {
    ||| '\u{9}' <= c <= '\u{d}'
    ||| c == ' '
    ||| c == '\u{85}'
    ||| c == '\u{a0}'
    ||| c == '\u{1680}'
    ||| '\u{2000}' <= c <= '\u{200a}'
    ||| c == '\u{2028}'
    ||| c == '\u{2029}'
    ||| c == '\u{202f}'
    ||| c == '\u{205f}'
    ||| c == '\u{3000}'
}

/// `char::is_whitespace` tells whether a character has Unicode's
/// `White_Space` property; the property's characters are listed in
/// [`est_blanc`].
pub assume_specification[ char::is_whitespace ](c: char) -> (r: bool)
    ensures
        r == est_blanc(c),
;

/// A letter or a digit of ASCII.
pub open spec fn alphanumerique_ascii(c: char) -> bool {
    '0' <= c <= '9' || 'a' <= c <= 'z' || 'A' <= c <= 'Z'
}

/// Whether Unicode counts a character that is not ASCII as a letter or a number.
pub uninterp spec fn alphanumerique_unicode(c: char) -> bool;

/// Whether a character counts as a letter or a number.
pub open spec fn est_alphanumerique(c: char) -> bool {
    if (c as u32) < 128 {
        alphanumerique_ascii(c)
    } else {
        alphanumerique_unicode(c)
    }
}

/// `char::is_alphanumeric`: of ASCII, the letters and the digits; of the rest,
/// what Unicode's tables give from the character alone, which is only named
/// here.
pub assume_specification[ char::is_alphanumeric ](c: char) -> (r: bool)
    ensures
        r == if (c as u32) < 128 {
            alphanumerique_ascii(c)
        } else {
            alphanumerique_unicode(c)
        },
;

/// A character with the ASCII capitals turned into small letters.
pub open spec fn minuscule_ascii(c: char) -> char {
    if 'A' <= c <= 'Z' {
        (c as u32 + 32) as char
    } else {
        c
    }
}

/// Whether two texts differ at most by the case of ASCII letters.
pub open spec fn egal_sans_casse(a: Seq<char>, b: Seq<char>) -> bool {
    &&& a.len() == b.len()
    &&& forall|i: int|
        0 <= i < a.len() ==> minuscule_ascii(#[trigger] a[i]) == minuscule_ascii(b[i])
}

/// Puts an ASCII capital in lower case and leaves any other character alone.
pub fn en_minuscule_ascii(c: char) -> (r: char)
    ensures
        r == minuscule_ascii(c),
{
    if 'A' <= c && c <= 'Z' {
        let code: u8 = c as u8;
        let petite: u8 = code + 32;
        petite as char
    } else {
        c
    }
}

/// Whether the motif stands in the text at a given place.
pub open spec fn present_en(s: Seq<char>, motif: Seq<char>, i: int) -> bool {
    0 <= i && i + motif.len() <= s.len() && s.subrange(i, i + motif.len()) == motif
}

/// The first place at or after `de` where the motif stands.
pub open spec fn indice(s: Seq<char>, motif: Seq<char>, de: int) -> Option<int>
    decreases s.len() + 1 - de,
{
    if de < 0 || de + motif.len() > s.len() {
        None
    } else if present_en(s, motif, de) {
        Some(de)
    } else {
        indice(s, motif, de + 1)
    }
}

/// The first white character at or after `de`, or the end of the text.
pub open spec fn prochain_blanc(s: Seq<char>, de: int) -> int
    decreases s.len() - de,
{
    if de < 0 || de >= s.len() {
        s.len() as int
    } else if est_blanc(s[de]) {
        de
    } else {
        prochain_blanc(s, de + 1)
    }
}

/// What [`indice`] finds is an occurrence, no earlier one exists, and it
/// finds one whenever there is one.
pub proof fn lemme_indice(s: Seq<char>, motif: Seq<char>, de: int)
    requires
        0 <= de,
    ensures
        match indice(s, motif, de) {
            Some(k) => de <= k && present_en(s, motif, k) && forall|j: int|
                de <= j < k ==> !present_en(s, motif, j),
            None => forall|j: int| de <= j ==> !present_en(s, motif, j),
        },
    decreases s.len() + 1 - de,
{
    if de + motif.len() <= s.len() && !present_en(s, motif, de) {
        lemme_indice(s, motif, de + 1);
    }
}

/// Where [`prochain_blanc`] stops: past `de`, with nothing white before it.
pub proof fn lemme_prochain_blanc(s: Seq<char>, de: int)
    requires
        0 <= de <= s.len(),
    ensures
        de <= prochain_blanc(s, de) <= s.len(),
        forall|j: int| de <= j < prochain_blanc(s, de) ==> !est_blanc(#[trigger] s[j]),
        prochain_blanc(s, de) < s.len() ==> est_blanc(s[prochain_blanc(s, de)]),
    decreases s.len() - de,
{
    if de < s.len() && !est_blanc(s[de]) {
        lemme_prochain_blanc(s, de + 1);
    }
}

/// Whether the motif stands in `s` at `i`.
pub fn present(s: &Vec<char>, motif: &str, i: usize) -> (r: bool)
    ensures
        r == present_en(s@, motif@, i as int),
{
    let m: Vec<char> = caracteres(motif);
    if i > s.len() || s.len() - i < m.len() {
        return false;
    }
    let mut k: usize = 0;
    while k < m.len()
        invariant
            m@ == motif@,
            i + m@.len() <= s@.len() <= usize::MAX,
            k <= m@.len(),
            forall|j: int| i <= j < i + k ==> #[trigger] s@[j] == m@[j - i],
        decreases m@.len() - k,
    {
        if s[i + k] != m[k] {
            assert(s@.subrange(i as int, i + m@.len())[k as int] != m@[k as int]);
            return false;
        }
        k += 1;
    }
    assert(s@.subrange(i as int, i + m@.len()) =~= m@);
    true
}

/// The first place at or after `de` where the motif stands.
pub fn chercher(s: &Vec<char>, motif: &str, de: usize) -> (r: Option<usize>)
    ensures
        match r {
            Some(k) => indice(s@, motif@, de as int) == Some(k as int),
            None => indice(s@, motif@, de as int) is None,
        },
{
    let m: usize = motif.unicode_len();
    let n: usize = s.len();
    let mut i: usize = de;
    while i <= n && n - i >= m
        invariant
            m == motif@.len(),
            n == s@.len(),
            indice(s@, motif@, i as int) == indice(s@, motif@, de as int),
        decreases s@.len() + 1 - i,
    {
        if present(s, motif, i) {
            return Some(i);
        }
        assert(m == 0 ==> s@.subrange(i as int, i as int) =~= motif@);
        i += 1;
    }
    None
}

/// The first white character at or after `de`, or the end of the text.
pub fn chercher_blanc(s: &Vec<char>, de: usize) -> (r: usize)
    requires
        de <= s@.len(),
    ensures
        r == prochain_blanc(s@, de as int),
        de <= r <= s@.len(),
{
    let mut i: usize = de;
    while i < s.len()
        invariant
            de <= i <= s@.len(),
            prochain_blanc(s@, i as int) == prochain_blanc(s@, de as int),
        decreases s@.len() - i,
    {
        if s[i].is_whitespace() {
            return i;
        }
        i += 1;
    }
    i
}

/// A text without the white characters at its start.
pub open spec fn sans_blancs_debut(s: Seq<char>) -> Seq<char>
    decreases s.len(),
{
    if s.len() > 0 && est_blanc(s[0]) {
        sans_blancs_debut(s.drop_first())
    } else {
        s
    }
}

/// A text without the white characters at its end.
pub open spec fn sans_blancs_fin(s: Seq<char>) -> Seq<char>
    decreases s.len(),
{
    if s.len() > 0 && est_blanc(s.last()) {
        sans_blancs_fin(s.drop_last())
    } else {
        s
    }
}

/// A text without the white characters at either end.
pub open spec fn rogne(s: Seq<char>) -> Seq<char> {
    sans_blancs_fin(sans_blancs_debut(s))
}

/// The part of `s` without the white characters at its end.
pub fn rogner_fin(s: &str) -> (r: &str)
    ensures
        r@ == sans_blancs_fin(s@),
{
    let v: Vec<char> = caracteres(s);
    let mut fin: usize = v.len();
    assert(s@.take(fin as int) =~= s@);
    while fin > 0 && v[fin - 1].is_whitespace()
        invariant
            v@ == s@,
            fin <= s@.len(),
            sans_blancs_fin(s@.take(fin as int)) == sans_blancs_fin(s@),
        decreases fin,
    {
        assert(s@.take(fin as int).drop_last() =~= s@.take(fin - 1));
        assert(s@.take(fin as int).last() == s@[fin - 1]);
        fin -= 1;
    }
    assert(fin > 0 ==> s@.take(fin as int).last() == s@[fin - 1]);
    assert(s@.subrange(0, fin as int) =~= s@.take(fin as int));
    s.substring_char(0, fin)
}

/// The part of `s` without the white characters at either end.
pub fn rogner(s: &str) -> (r: &str)
    ensures
        r@ == rogne(s@),
{
    let v: Vec<char> = caracteres(s);
    let n: usize = v.len();
    let mut debut: usize = 0;
    assert(s@.skip(0) =~= s@);
    while debut < n && v[debut].is_whitespace()
        invariant
            v@ == s@,
            n == s@.len(),
            debut <= n,
            sans_blancs_debut(s@.skip(debut as int)) == sans_blancs_debut(s@),
        decreases n - debut,
    {
        assert(s@.skip(debut as int).drop_first() =~= s@.skip(debut + 1));
        debut += 1;
    }
    assert(debut < n ==> s@.skip(debut as int)[0] == s@[debut as int]);
    assert(s@.subrange(debut as int, n as int) =~= s@.skip(debut as int));
    rogner_fin(s.substring_char(debut, n))
}

/// The digit that writes `d` in base ten.
pub open spec fn chiffre(d: int) -> char {
    (48 + d) as char
}

/// A number written in base ten.
pub open spec fn decimal(n: nat) -> Seq<char>
    decreases n,
{
    if n < 10 {
        seq![chiffre(n as int)]
    } else {
        decimal(n / 10).push(chiffre((n % 10) as int))
    }
}

/// Appends a number in base ten.
pub fn pousser_decimal(s: &mut String, n: u64)
    ensures
        final(s)@ == old(s)@ + decimal(n as nat),
    decreases n,
{
    if n >= 10 {
        pousser_decimal(s, n / 10);
    }
    let c: u8 = 48 + (n % 10) as u8;
    s.push(c as char);
    assert(s@ =~= old(s)@ + decimal(n as nat));
}

/// A number below one hundred on two digits.
pub open spec fn deux_chiffres(n: int) -> Seq<char> {
    seq![chiffre(n / 10), chiffre(n % 10)]
}

/// Appends a number below one hundred on two digits.
pub fn pousser_deux_chiffres(s: &mut String, n: u64)
    requires
        n < 100,
    ensures
        final(s)@ == old(s)@ + deux_chiffres(n as int),
{
    let d: u8 = 48 + (n / 10) as u8;
    let u: u8 = 48 + (n % 10) as u8;
    s.push(d as char);
    s.push(u as char);
    assert(s@ =~= old(s)@ + deux_chiffres(n as int));
}

/// A text with no character but of ASCII.
pub open spec fn que_de_l_ascii(s: Seq<char>) -> bool {
    forall|i: int| 0 <= i < s.len() ==> (#[trigger] s[i] as u32) < 128
}

/// A text with its ASCII capitals turned into small letters.
pub open spec fn minuscules_ascii(s: Seq<char>) -> Seq<char> {
    Seq::new(s.len(), |i: int| minuscule_ascii(s[i]))
}

/// What lower case makes of a text that is not all ASCII, by Unicode's rules.
pub uninterp spec fn minuscules_unicode(s: Seq<char>) -> Seq<char>;

/// What lower case makes of a text.
pub open spec fn minuscules(s: Seq<char>) -> Seq<char> {
    if que_de_l_ascii(s) {
        minuscules_ascii(s)
    } else {
        minuscules_unicode(s)
    }
}

/// `str::to_lowercase`: of a text all in ASCII, its capitals turned into small
/// letters; of any other, what Unicode's tables give from the text alone, which
/// is only named here.
pub assume_specification[ str::to_lowercase ](s: &str) -> (r: String)
    ensures
        r@ == if que_de_l_ascii(s@) {
            minuscules_ascii(s@)
        } else {
            minuscules_unicode(s@)
        },
;

/// The first `n` characters of a text, or all of them.
pub open spec fn au_plus(s: Seq<char>, n: int) -> Seq<char> {
    if s.len() <= n {
        s
    } else {
        s.take(n)
    }
}

/// The first `n` characters of a string, or all of them.
pub fn prendre(s: &str, n: usize) -> (r: &str)
    ensures
        r@ == au_plus(s@, n as int),
{
    let l: usize = s.unicode_len();
    if l <= n {
        s
    } else {
        assert(s@.subrange(0, n as int) =~= s@.take(n as int));
        s.substring_char(0, n)
    }
}

/// Whether a text starts with another.
pub fn commence(s: &str, motif: &str) -> (r: bool)
    ensures
        r == present_en(s@, motif@, 0),
{
    let v: Vec<char> = caracteres(s);
    present(&v, motif, 0)
}

/// A text without the given character at its start.
pub open spec fn sans_debut(s: Seq<char>, c: char) -> Seq<char>
    decreases s.len(),
{
    if s.len() > 0 && s[0] == c {
        sans_debut(s.drop_first(), c)
    } else {
        s
    }
}

/// A text without the given character at its end.
pub open spec fn sans_fin(s: Seq<char>, c: char) -> Seq<char>
    decreases s.len(),
{
    if s.len() > 0 && s.last() == c {
        sans_fin(s.drop_last(), c)
    } else {
        s
    }
}

/// The part of `s` that follows the `c`s at its start.
pub fn ronger_debut(s: &str, c: char) -> (r: &str)
    ensures
        r@ == sans_debut(s@, c),
{
    let v: Vec<char> = caracteres(s);
    let n: usize = v.len();
    let mut debut: usize = 0;
    assert(s@.skip(0) =~= s@);
    while debut < n && v[debut] == c
        invariant
            v@ == s@,
            n == s@.len(),
            debut <= n,
            sans_debut(s@.skip(debut as int), c) == sans_debut(s@, c),
        decreases n - debut,
    {
        assert(s@.skip(debut as int).drop_first() =~= s@.skip(debut + 1));
        debut += 1;
    }
    assert(s@.subrange(debut as int, n as int) =~= s@.skip(debut as int));
    s.substring_char(debut, n)
}

/// The part of `s` that precedes the `c`s at its end.
pub fn ronger_fin(s: &str, c: char) -> (r: &str)
    ensures
        r@ == sans_fin(s@, c),
{
    let v: Vec<char> = caracteres(s);
    let mut fin: usize = v.len();
    assert(s@.take(fin as int) =~= s@);
    while fin > 0 && v[fin - 1] == c
        invariant
            v@ == s@,
            fin <= s@.len(),
            sans_fin(s@.take(fin as int), c) == sans_fin(s@, c),
        decreases fin,
    {
        assert(s@.take(fin as int).drop_last() =~= s@.take(fin - 1));
        assert(s@.take(fin as int).last() == s@[fin - 1]);
        fin -= 1;
    }
    assert(fin > 0 ==> s@.take(fin as int).last() == s@[fin - 1]);
    assert(s@.subrange(0, fin as int) =~= s@.take(fin as int));
    s.substring_char(0, fin)
}

pub open spec fn est_chiffre(c: char) -> bool {
    '0' <= c <= '9'
}

pub open spec fn que_des_chiffres(s: Seq<char>) -> bool {
    forall|i: int| 0 <= i < s.len() ==> est_chiffre(#[trigger] s[i])
}

/// The number that digits write in base ten.
pub open spec fn valeur(s: Seq<char>) -> nat
    decreases s.len(),
{
    if s.len() == 0 {
        0
    } else {
        valeur(s.drop_last()) * 10 + (s.last() as int - 48) as nat
    }
}

/// The number that a text stands for: digits, which a `+` may precede.
pub open spec fn nombre(s: Seq<char>) -> Option<nat> {
    let d = if s.len() > 0 && s[0] == '+' {
        s.skip(1)
    } else {
        s
    };
    if d.len() > 0 && que_des_chiffres(d) {
        Some(valeur(d))
    } else {
        None
    }
}

/// The number that a text stands for, where it is at most `max`.
pub open spec fn nombre_borne(s: Seq<char>, max: nat) -> Option<nat> {
    match nombre(s) {
        Some(v) => if v <= max {
            Some(v)
        } else {
            None
        },
        None => None,
    }
}

proof fn lemme_valeur_croit(s: Seq<char>, k: int)
    requires
        0 <= k <= s.len(),
    ensures
        valeur(s.take(k)) <= valeur(s),
    decreases s.len() - k,
{
    if k < s.len() {
        assert(s.take(k + 1).drop_last() =~= s.take(k));
        lemme_valeur_croit(s, k + 1);
    } else {
        assert(s.take(k) =~= s);
    }
}

/// Reads a number of at most `max`.
pub fn lire_nombre(s: &str, max: u64) -> (r: Option<u64>)
    ensures
        match r {
            Some(v) => nombre_borne(s@, max as nat) == Some(v as nat),
            None => nombre_borne(s@, max as nat) is None,
        },
{
    let v: Vec<char> = caracteres(s);
    let n: usize = v.len();
    let debut: usize = if n > 0 && v[0] == '+' {
        1
    } else {
        0
    };
    let ghost d = s@.skip(debut as int);
    assert(debut == 0 ==> d =~= s@);
    if debut == n {
        return None;
    }
    let mut acc: u128 = 0;
    let mut i: usize = debut;
    assert(d.take(0) =~= Seq::<char>::empty());
    while i < n
        invariant
            v@ == s@,
            n == s@.len(),
            debut <= i <= n,
            debut < n,
            d == s@.skip(debut as int),
            d == if s@.len() > 0 && s@[0] == '+' {
                s@.skip(1)
            } else {
                s@
            },
            acc == valeur(d.take(i - debut)),
            acc <= max,
            forall|j: int| 0 <= j < i - debut ==> est_chiffre(#[trigger] d[j]),
        decreases n - i,
    {
        let c: char = v[i];
        let ghost k = i - debut;
        assert(d[k] == c);
        if !('0' <= c && c <= '9') {
            assert(!que_des_chiffres(d));
            return None;
        }
        assert(d.take(k + 1).drop_last() =~= d.take(k));
        acc = acc * 10 + (c as u32 - 48) as u128;
        if acc > max as u128 {
            proof {
                lemme_valeur_croit(d, k + 1);
            }
            return None;
        }
        i += 1;
    }
    assert(d.take(n - debut) =~= d);
    Some(acc as u64)
}

/// What is written in base ten reads back as the same number.
pub proof fn loi_decimal_se_relit(n: nat)
    ensures
        decimal(n).len() > 0,
        que_des_chiffres(decimal(n)),
        valeur(decimal(n)) == n,
        nombre(decimal(n)) == Some(n),
        decimal(n)[0] != '+',
    decreases n,
{
    if n < 10 {
        let s = seq![chiffre(n as int)];
        assert(s.drop_last() =~= Seq::<char>::empty());
        assert(valeur(s.drop_last()) == 0);
        assert(decimal(n) == s);
        assert(s.last() as int == 48 + n);
        assert(valeur(s) == n);
    } else {
        loi_decimal_se_relit(n / 10);
        let s = decimal(n);
        assert(s.drop_last() =~= decimal(n / 10));
        assert(s.last() as int == 48 + n % 10);
        assert(valeur(s) == valeur(s.drop_last()) * 10 + n % 10);
    }
    assert(est_chiffre(decimal(n)[0]));
}

/// The number that a text stands for: digits, which a sign may precede.
pub open spec fn entier(s: Seq<char>) -> Option<int> {
    if s.len() > 0 && s[0] == '-' {
        let d = s.skip(1);
        if d.len() > 0 && que_des_chiffres(d) {
            Some(-(valeur(d) as int))
        } else {
            None
        }
    } else {
        match nombre(s) {
            Some(v) => Some(v as int),
            None => None,
        }
    }
}

/// The number that a text stands for, where it fits.
pub open spec fn entier_i32(s: Seq<char>) -> Option<int> {
    match entier(s) {
        Some(v) => if i32::MIN <= v <= i32::MAX {
            Some(v)
        } else {
            None
        },
        None => None,
    }
}

/// Reads a signed number.
pub fn lire_i32(s: &str) -> (r: Option<i32>)
    ensures
        match r {
            Some(v) => entier_i32(s@) == Some(v as int),
            None => entier_i32(s@) is None,
        },
{
    let n: usize = s.unicode_len();
    if n > 0 && s.get_char(0) == '-' {
        let d: &str = s.substring_char(1, n);
        assert(d@ =~= s@.skip(1));
        if n > 1 && d.get_char(0) == '+' {
            assert(!est_chiffre(d@[0]));
            return None;
        }
        match lire_nombre(d, 0x8000_0000) {
            Some(v) => {
                if v == 0x8000_0000 {
                    Some(i32::MIN)
                } else {
                    let w: i32 = v as i32;
                    Some(-w)
                }
            },
            None => None,
        }
    } else {
        match lire_nombre(s, 0x7fff_ffff) {
            Some(v) => Some(v as i32),
            None => None,
        }
    }
}

/// A signed number in base ten.
pub open spec fn signe(n: int) -> Seq<char> {
    if n < 0 {
        seq!['-'] + decimal((-n) as nat)
    } else {
        decimal(n as nat)
    }
}

/// Appends a signed number in base ten.
pub fn pousser_signe(s: &mut String, n: i32)
    ensures
        final(s)@ == old(s)@ + signe(n as int),
{
    let ghost avant = s@;
    if n < 0 {
        s.push('-');
        let v: u64 = if n == i32::MIN {
            0x8000_0000
        } else {
            (-n) as u64
        };
        pousser_decimal(s, v);
        assert(s@ =~= avant + signe(n as int));
    } else {
        pousser_decimal(s, n as u64);
    }
}

/// What is written with its sign reads back as the same number.
pub proof fn loi_signe_se_relit(n: int)
    requires
        i32::MIN <= n <= i32::MAX,
    ensures
        entier_i32(signe(n)) == Some(n),
{
    if n < 0 {
        loi_decimal_se_relit((-n) as nat);
        assert(signe(n).skip(1) =~= decimal((-n) as nat));
    } else {
        loi_decimal_se_relit(n as nat);
        assert(est_chiffre(decimal(n as nat)[0]));
    }
}

/// The text before and after the first occurrence of a character.
pub open spec fn coupe_a(s: Seq<char>, c: char) -> Option<(Seq<char>, Seq<char>)>
    decreases s.len(),
{
    if s.len() == 0 {
        None
    } else if s[0] == c {
        Some((Seq::empty(), s.skip(1)))
    } else {
        match coupe_a(s.skip(1), c) {
            Some((a, b)) => Some((seq![s[0]] + a, b)),
            None => None,
        }
    }
}

proof fn lemme_coupe_a(s: Seq<char>, c: char, k: int)
    requires
        0 <= k < s.len(),
        s[k] == c,
        forall|j: int| 0 <= j < k ==> s[j] != c,
    ensures
        coupe_a(s, c) == Some((s.take(k), s.skip(k + 1))),
    decreases s.len(),
{
    if k == 0 {
        assert(s.take(0) =~= Seq::<char>::empty());
    } else {
        let t = s.skip(1);
        assert forall|j: int| 0 <= j < k - 1 implies t[j] != c by {
            assert(t[j] == s[j + 1]);
        }
        lemme_coupe_a(t, c, k - 1);
        assert(seq![s[0]] + t.take(k - 1) =~= s.take(k));
        assert(t.skip(k) =~= s.skip(k + 1));
    }
}

proof fn lemme_sans_coupe(s: Seq<char>, c: char)
    requires
        forall|j: int| 0 <= j < s.len() ==> s[j] != c,
    ensures
        coupe_a(s, c) is None,
    decreases s.len(),
{
    if s.len() > 0 {
        let t = s.skip(1);
        assert forall|j: int| 0 <= j < t.len() implies t[j] != c by {
            assert(t[j] == s[j + 1]);
        }
        lemme_sans_coupe(t, c);
    }
}

/// Cuts a string in two at the first occurrence of a character.
pub fn couper_a(s: &str, c: char) -> (r: Option<(&str, &str)>)
    ensures
        match r {
            Some((a, b)) => coupe_a(s@, c) == Some((a@, b@)),
            None => coupe_a(s@, c) is None,
        },
{
    let v: Vec<char> = caracteres(s);
    let n: usize = v.len();
    let mut i: usize = 0;
    while i < n
        invariant
            v@ == s@,
            n == s@.len(),
            i <= n,
            forall|j: int| 0 <= j < i ==> s@[j] != c,
        decreases n - i,
    {
        if v[i] == c {
            proof {
                lemme_coupe_a(s@, c, i as int);
                assert(s@.subrange(0, i as int) =~= s@.take(i as int));
                assert(s@.subrange(i + 1, n as int) =~= s@.skip(i + 1));
            }
            return Some((s.substring_char(0, i), s.substring_char(i + 1, n)));
        }
        i += 1;
    }
    proof {
        lemme_sans_coupe(s@, c);
    }
    None
}

/// A prefix without the character, the character, and any text: cutting gives
/// the two back.
pub proof fn loi_coupe_se_relit(a: Seq<char>, c: char, b: Seq<char>)
    requires
        !a.contains(c),
    ensures
        coupe_a(a + seq![c] + b, c) == Some((a, b)),
{
    let s = a + seq![c] + b;
    let k = a.len() as int;
    assert(s[k] == c);
    assert forall|j: int| 0 <= j < k implies s[j] != c by {
        assert(s[j] == a[j]);
    }
    lemme_coupe_a(s, c, k);
    assert(s.take(k) =~= a);
    assert(s.skip(k + 1) =~= b);
}

pub proof fn lemme_coupe_avance(s: Seq<char>, c: char)
    ensures
        coupe_a(s, c) matches Some((a, b)) ==> s == a + seq![c] + b && !a.contains(c) && b.len()
            < s.len(),
        coupe_a(s, c) is None ==> !s.contains(c),
    decreases s.len(),
{
    if s.len() > 0 && s[0] != c {
        lemme_coupe_avance(s.skip(1), c);
        assert(s =~= seq![s[0]] + s.skip(1));
        match coupe_a(s.skip(1), c) {
            Some((a, b)) => {
                assert(s =~= seq![s[0]] + a + seq![c] + b);
                assert(!(seq![s[0]] + a).contains(c)) by {
                    if (seq![s[0]] + a).contains(c) {
                        let i = choose|i: int|
                            0 <= i < (seq![s[0]] + a).len() && (seq![s[0]] + a)[i] == c;
                        assert(a[i - 1] == c);
                    }
                }
            },
            None => {
                if s.contains(c) {
                    let i = choose|i: int| 0 <= i < s.len() && s[i] == c;
                    assert(s.skip(1)[i - 1] == c);
                }
            },
        }
    } else if s.len() > 0 {
        assert(s =~= Seq::<char>::empty() + seq![c] + s.skip(1));
    }
}

/// The pieces of a text between the occurrences of a character.
pub open spec fn separe(s: Seq<char>, c: char) -> Seq<Seq<char>>
    decreases s.len(),
{
    match coupe_a(s, c) {
        Some((a, b)) => {
            proof {
                lemme_coupe_avance(s, c);
            }
            seq![a] + separe(b, c)
        },
        None => seq![s],
    }
}

pub open spec fn vues_str(v: Seq<&str>) -> Seq<Seq<char>> {
    Seq::new(v.len(), |i: int| v[i]@)
}

/// Cuts a string at each occurrence of a character.
pub fn separer(s: &str, c: char) -> (r: Vec<&str>)
    ensures
        vues_str(r@) == separe(s@, c),
        r@.len() > 0,
{
    let mut r: Vec<&str> = Vec::new();
    let mut reste: &str = s;
    assert(vues_str(r@) + separe(s@, c) =~= separe(s@, c));
    loop
        invariant
            vues_str(r@) + separe(reste@, c) == separe(s@, c),
        decreases reste@.len(),
    {
        match couper_a(reste, c) {
            Some((a, b)) => {
                proof {
                    lemme_coupe_avance(reste@, c);
                }
                let ghost avant = vues_str(r@);
                r.push(a);
                assert(vues_str(r@) =~= avant.push(a@));
                assert(vues_str(r@) + separe(b@, c) =~= avant + (seq![a@] + separe(b@, c)));
                reste = b;
            },
            None => {
                let ghost avant = vues_str(r@);
                r.push(reste);
                assert(vues_str(r@) =~= avant.push(reste@));
                assert(vues_str(r@) =~= avant + seq![reste@]);
                return r;
            },
        }
    }
}

/// Pieces put end to end, with a character between them.
pub open spec fn jointes(p: Seq<Seq<char>>, c: char) -> Seq<char>
    decreases p.len(),
{
    if p.len() == 0 {
        Seq::empty()
    } else if p.len() == 1 {
        p[0]
    } else {
        p[0] + seq![c] + jointes(p.skip(1), c)
    }
}

/// Pieces that do not hold the character come back as they were joined.
pub proof fn loi_separe_se_relit(p: Seq<Seq<char>>, c: char)
    requires
        p.len() > 0,
        forall|i: int| 0 <= i < p.len() ==> !(#[trigger] p[i]).contains(c),
    ensures
        separe(jointes(p, c), c) == p,
    decreases p.len(),
{
    if p.len() == 1 {
        lemme_coupe_avance(p[0], c);
        if let Some((a, b)) = coupe_a(p[0], c) {
            assert((a + seq![c] + b)[a.len() as int] == c);
            assert(p[0].contains(c));
        }
        assert(separe(p[0], c) =~= p);
    } else {
        let q = p.skip(1);
        assert forall|i: int| 0 <= i < q.len() implies !(#[trigger] q[i]).contains(c) by {
            assert(q[i] == p[i + 1]);
        }
        loi_separe_se_relit(q, c);
        loi_coupe_se_relit(p[0], c, jointes(q, c));
        assert(seq![p[0]] + q =~= p);
    }
}

/// The text before and after the last occurrence of a character.
pub open spec fn coupe_fin(s: Seq<char>, c: char) -> Option<(Seq<char>, Seq<char>)>
    decreases s.len(),
{
    if s.len() == 0 {
        None
    } else if s.last() == c {
        Some((s.drop_last(), Seq::empty()))
    } else {
        match coupe_fin(s.drop_last(), c) {
            Some((a, b)) => Some((a, b.push(s.last()))),
            None => None,
        }
    }
}

/// Cuts a string in two at the last occurrence of a character.
pub fn couper_fin(s: &str, c: char) -> (r: Option<(&str, &str)>)
    ensures
        match r {
            Some((a, b)) => coupe_fin(s@, c) == Some((a@, b@)),
            None => coupe_fin(s@, c) is None,
        },
{
    let v: Vec<char> = caracteres(s);
    let n: usize = v.len();
    let mut i: usize = n;
    assert(s@.take(n as int) =~= s@);
    while i > 0
        invariant
            v@ == s@,
            n == s@.len(),
            i <= n,
            coupe_fin(s@, c) == match coupe_fin(s@.take(i as int), c) {
                Some((a, b)) => Some((a, b + s@.skip(i as int))),
                None => None,
            },
        decreases i,
    {
        let ghost t = s@.take(i as int);
        assert(t.drop_last() =~= s@.take(i - 1));
        assert(t.last() == s@[i - 1]);
        if v[i - 1] == c {
            proof {
                assert(s@.subrange(0, i - 1) =~= s@.take(i - 1));
                assert(s@.subrange(i as int, n as int) =~= Seq::<char>::empty() + s@.skip(i as int));
            }
            return Some((s.substring_char(0, i - 1), s.substring_char(i, n)));
        }
        proof {
            if let Some((a, b)) = coupe_fin(s@.take(i - 1), c) {
                assert(b.push(s@[i - 1]) + s@.skip(i as int) =~= b + s@.skip(i - 1));
            }
        }
        i -= 1;
    }
    None
}

// ---------------------------------------------------------------------
// Base sixteen
// ---------------------------------------------------------------------

pub open spec fn chiffre_hexa(d: int) -> char {
    if d < 10 {
        (48 + d) as char
    } else {
        (87 + d) as char
    }
}

/// A number in base sixteen, in lower case and without leading zeros.
pub open spec fn hexa(n: nat) -> Seq<char>
    decreases n,
{
    if n < 16 {
        seq![chiffre_hexa(n as int)]
    } else {
        hexa(n / 16).push(chiffre_hexa((n % 16) as int))
    }
}

/// The last `k` digits of a number in base sixteen, with leading zeros.
pub open spec fn hexa_fixe(n: nat, k: nat) -> Seq<char>
    decreases k,
{
    if k == 0 {
        Seq::empty()
    } else {
        hexa_fixe(n / 16, (k - 1) as nat).push(chiffre_hexa((n % 16) as int))
    }
}

fn un_hexa(d: u64) -> (r: char)
    requires
        d < 16,
    ensures
        r == chiffre_hexa(d as int),
{
    let o: u8 = d as u8;
    if o < 10 {
        (48 + o) as char
    } else {
        (87 + o) as char
    }
}

/// Appends a number in base sixteen.
pub fn pousser_hexa(s: &mut String, n: u64)
    ensures
        final(s)@ == old(s)@ + hexa(n as nat),
    decreases n,
{
    let ghost avant = s@;
    if n >= 16 {
        pousser_hexa(s, n / 16);
    }
    s.push(un_hexa(n % 16));
    assert(s@ =~= avant + hexa(n as nat));
}

/// Appends the last `k` digits of a number in base sixteen, with leading zeros.
pub fn pousser_hexa_fixe(s: &mut String, n: u64, k: usize)
    ensures
        final(s)@ == old(s)@ + hexa_fixe(n as nat, k as nat),
    decreases k,
{
    let ghost avant = s@;
    if k > 0 {
        pousser_hexa_fixe(s, n / 16, k - 1);
        s.push(un_hexa(n % 16));
    }
    assert(s@ =~= avant + hexa_fixe(n as nat, k as nat));
}

// ---------------------------------------------------------------------
// Alphabetical order
// ---------------------------------------------------------------------

/// `a` comes strictly before `b`, character by character.
pub open spec fn precede(a: Seq<char>, b: Seq<char>) -> bool
    decreases a.len(),
{
    if b.len() == 0 {
        false
    } else if a.len() == 0 {
        true
    } else if a[0] != b[0] {
        (a[0] as int) < (b[0] as int)
    } else {
        precede(a.skip(1), b.skip(1))
    }
}

/// Does `a` come strictly before `b`? This is the order of `String`, whose
/// bytes compare as its characters do.
pub fn vient_avant(a: &str, b: &str) -> (r: bool)
    ensures
        r == precede(a@, b@),
{
    let x: Vec<char> = caracteres(a);
    let y: Vec<char> = caracteres(b);
    let mut i: usize = 0;
    assert(a@.skip(0) =~= a@);
    assert(b@.skip(0) =~= b@);
    while i < x.len() && i < y.len()
        invariant
            x@ == a@,
            y@ == b@,
            i <= x@.len(),
            i <= y@.len(),
            precede(a@, b@) == precede(a@.skip(i as int), b@.skip(i as int)),
        decreases x@.len() - i,
    {
        assert(a@.skip(i as int)[0] == a@[i as int]);
        assert(b@.skip(i as int)[0] == b@[i as int]);
        assert(a@.skip(i as int).skip(1) =~= a@.skip(i + 1));
        assert(b@.skip(i as int).skip(1) =~= b@.skip(i + 1));
        if x[i] != y[i] {
            let c: char = x[i];
            let d: char = y[i];
            return c < d;
        }
        i += 1;
    }
    i < y.len()
}

/// Nothing comes before itself, and of two different texts one comes first.
pub proof fn lemme_precede_total(a: Seq<char>, b: Seq<char>)
    ensures
        !precede(a, a),
        a != b ==> precede(a, b) || precede(b, a),
        !(precede(a, b) && precede(b, a)),
    decreases a.len(),
{
    if a.len() > 0 {
        assert(!precede(a.skip(1), a.skip(1))) by {
            lemme_precede_total(a.skip(1), a.skip(1));
        }
        if b.len() > 0 && a[0] == b[0] {
            lemme_precede_total(a.skip(1), b.skip(1));
            if a.skip(1) == b.skip(1) {
                assert(a =~= seq![a[0]] + a.skip(1));
                assert(b =~= seq![b[0]] + b.skip(1));
                assert(a == b);
            } else {
                assert(precede(a, b) || precede(b, a));
            }
        }
    } else if b.len() == 0 {
        assert(a =~= b);
    }
}

/// The order is transitive.
pub proof fn lemme_precede_transitif(a: Seq<char>, b: Seq<char>, c: Seq<char>)
    requires
        precede(a, b),
        precede(b, c),
    ensures
        precede(a, c),
    decreases a.len(),
{
    if a.len() > 0 && a[0] == b[0] && b[0] == c[0] {
        lemme_precede_transitif(a.skip(1), b.skip(1), c.skip(1));
    }
}

// ---------------------------------------------------------------------
// Optional texts
// ---------------------------------------------------------------------

/// What an optional text reads.
pub open spec fn vue(o: Option<String>) -> Option<Seq<char>> {
    match o {
        Some(t) => Some(t@),
        None => None,
    }
}

// ---------------------------------------------------------------------
// What cutting and trimming promise
// ---------------------------------------------------------------------

/// Nothing but white characters.
pub open spec fn que_du_blanc(s: Seq<char>) -> bool {
    forall|i: int| 0 <= i < s.len() ==> est_blanc(#[trigger] s[i])
}

proof fn lemme_debut_ote(s: Seq<char>) -> (pre: Seq<char>)
    ensures
        s == pre + sans_blancs_debut(s),
        que_du_blanc(pre),
        sans_blancs_debut(s).len() > 0 ==> !est_blanc(sans_blancs_debut(s)[0]),
    decreases s.len(),
{
    if s.len() > 0 && est_blanc(s[0]) {
        let p = lemme_debut_ote(s.drop_first());
        let pre = seq![s[0]] + p;
        assert(s =~= seq![s[0]] + s.drop_first());
        assert(s =~= pre + sans_blancs_debut(s));
        pre
    } else {
        let pre = Seq::<char>::empty();
        assert(s =~= pre + s);
        pre
    }
}

proof fn lemme_fin_otee(s: Seq<char>) -> (post: Seq<char>)
    ensures
        s == sans_blancs_fin(s) + post,
        que_du_blanc(post),
        sans_blancs_fin(s).len() > 0 ==> !est_blanc(sans_blancs_fin(s).last()),
    decreases s.len(),
{
    if s.len() > 0 && est_blanc(s.last()) {
        let p = lemme_fin_otee(s.drop_last());
        let post = p.push(s.last());
        assert(s =~= s.drop_last().push(s.last()));
        assert(s =~= sans_blancs_fin(s) + post);
        post
    } else {
        let post = Seq::<char>::empty();
        assert(s =~= s + post);
        post
    }
}

/// Trimming takes white characters off both ends, all of them and nothing else.
pub proof fn loi_rogne(s: Seq<char>) -> (bords: (Seq<char>, Seq<char>))
    ensures
        s == bords.0 + rogne(s) + bords.1,
        que_du_blanc(bords.0) && que_du_blanc(bords.1),
        rogne(s).len() > 0 ==> !est_blanc(rogne(s)[0]) && !est_blanc(rogne(s).last()),
        que_du_blanc(s) == (rogne(s).len() == 0),
{
    let pre = lemme_debut_ote(s);
    let milieu = sans_blancs_debut(s);
    let post = lemme_fin_otee(milieu);
    assert(s =~= pre + rogne(s) + post);
    if rogne(s).len() > 0 {
        assert(rogne(s)[0] == milieu[0]);
        assert(s[pre.len() as int] == rogne(s)[0]);
    } else {
        assert(rogne(s) =~= Seq::<char>::empty());
        assert(s =~= pre + post);
        assert forall|i: int| 0 <= i < s.len() implies est_blanc(#[trigger] s[i]) by {
            if i < pre.len() {
                assert(s[i] == pre[i]);
            } else {
                assert(s[i] == post[i - pre.len()]);
            }
        }
    }
    (pre, post)
}

/// A cut is made at the first such character, and wherever there is one.
pub proof fn loi_coupe_au_premier(s: Seq<char>, c: char)
    ensures
        coupe_a(s, c) is Some == s.contains(c),
        coupe_a(s, c) matches Some((a, b)) ==> s == a + seq![c] + b && !a.contains(c),
    decreases s.len(),
{
    if s.len() > 0 {
        if s[0] == c {
            assert(s =~= Seq::<char>::empty() + seq![c] + s.skip(1));
        } else {
            let t = s.skip(1);
            loi_coupe_au_premier(t, c);
            if s.contains(c) {
                let i = choose|i: int| 0 <= i < s.len() && s[i] == c;
                assert(t[i - 1] == c);
            }
            if t.contains(c) {
                let i = choose|i: int| 0 <= i < t.len() && t[i] == c;
                assert(s[i + 1] == c);
            }
            if let Some((a, b)) = coupe_a(t, c) {
                let d = seq![s[0]] + a;
                assert(s =~= seq![s[0]] + t);
                assert(s =~= d + seq![c] + b);
                if d.contains(c) {
                    let i = choose|i: int| 0 <= i < d.len() && d[i] == c;
                    assert(a[i - 1] == c);
                }
            }
        }
    }
}

/// A cut from the end is made at the last such character, and wherever there is
/// one.
pub proof fn loi_coupe_au_dernier(s: Seq<char>, c: char)
    ensures
        coupe_fin(s, c) is Some == s.contains(c),
        coupe_fin(s, c) matches Some((a, b)) ==> s == a + seq![c] + b && !b.contains(c),
    decreases s.len(),
{
    if s.len() > 0 {
        let t = s.drop_last();
        if s.last() == c {
            assert(s =~= t + seq![c] + Seq::<char>::empty());
            assert(s[s.len() - 1] == c);
        } else {
            loi_coupe_au_dernier(t, c);
            if s.contains(c) {
                let i = choose|i: int| 0 <= i < s.len() && s[i] == c;
                assert(t[i] == c);
            }
            if t.contains(c) {
                let i = choose|i: int| 0 <= i < t.len() && t[i] == c;
                assert(s[i] == c);
            }
            if let Some((a, b)) = coupe_fin(t, c) {
                let d = b.push(s.last());
                assert(s =~= t.push(s.last()));
                assert(s =~= a + seq![c] + d);
                if d.contains(c) {
                    let i = choose|i: int| 0 <= i < d.len() && d[i] == c;
                    assert(b[i] == c);
                }
            }
        }
    }
}

/// A text that is cut apart at a character is made of the parts, with that
/// character between two of them, and no part holds it.
pub proof fn loi_separe(s: Seq<char>, c: char)
    ensures
        separe(s, c).len() > 0,
        jointes(separe(s, c), c) == s,
        forall|i: int| 0 <= i < separe(s, c).len() ==> !(#[trigger] separe(s, c)[i]).contains(c),
    decreases s.len(),
{
    loi_coupe_au_premier(s, c);
    if let Some((a, b)) = coupe_a(s, c) {
        lemme_coupe_avance(s, c);
        loi_separe(b, c);
        let p = separe(s, c);
        assert(p.skip(1) =~= separe(b, c));
        assert(jointes(p, c) =~= s);
        assert forall|i: int| 0 <= i < p.len() implies !(#[trigger] p[i]).contains(c) by {
            if i > 0 {
                assert(p[i] == separe(b, c)[i - 1]);
            }
        }
    }
}

/// A number is written without a zero in front.
pub proof fn loi_decimal_sans_zero(n: nat)
    ensures
        n > 0 ==> decimal(n)[0] != '0',
        n < 10 ==> decimal(n).len() == 1,
        decimal(10 * n).len() == if n == 0 {
            1
        } else {
            decimal(n).len() + 1
        },
    decreases n,
{
    if n >= 10 {
        loi_decimal_sans_zero(n / 10);
        assert(decimal(n)[0] == decimal(n / 10)[0]) by {
            loi_decimal_se_relit(n / 10);
        }
    }
    if n > 0 {
        assert((10 * n) / 10 == n);
    }
}

/// In alphabetical order a text comes before another when it is the start of it,
/// or when the first characters in which they differ do.
pub proof fn loi_ordre_alphabetique(a: Seq<char>, b: Seq<char>, k: int)
    requires
        0 <= k <= a.len(),
        k <= b.len(),
        forall|i: int| 0 <= i < k ==> #[trigger] a[i] == b[i],
    ensures
        k == a.len() && k < b.len() ==> precede(a, b),
        k == b.len() ==> !precede(a, b),
        k < a.len() && k < b.len() && a[k] != b[k] ==> precede(a, b) == ((a[k] as int) < (
        b[k] as int)),
    decreases k,
{
    if k > 0 {
        assert(a[0] == b[0]);
        let x = a.skip(1);
        let y = b.skip(1);
        assert forall|i: int| 0 <= i < k - 1 implies #[trigger] x[i] == y[i] by {
            assert(a[i + 1] == b[i + 1]);
        }
        loi_ordre_alphabetique(x, y, k - 1);
    }
}

/// Lower case changes the capitals from A to Z into the letters 32 codes after
/// them, and leaves every other character of ASCII alone.
pub proof fn loi_minuscules_ascii(s: Seq<char>, i: int)
    requires
        que_de_l_ascii(s),
        0 <= i < s.len(),
    ensures
        minuscules(s).len() == s.len(),
        65 <= s[i] as u32 <= 90 ==> minuscules(s)[i] as u32 == s[i] as u32 + 32,
        !(65 <= s[i] as u32 <= 90) ==> minuscules(s)[i] == s[i],
{
    if 65 <= s[i] as u32 <= 90 {
        let x = s[i] as u32;
        assert((x + 32) as char as u32 == x + 32);
    }
}

/// The first `n` characters are kept, and all of them where there are no more.
pub proof fn loi_au_plus(s: Seq<char>, n: int)
    requires
        n >= 0,
    ensures
        au_plus(s, n).len() <= n,
        au_plus(s, n).is_prefix_of(s),
        s.len() <= n ==> au_plus(s, n) == s,
        s.len() > n ==> au_plus(s, n).len() == n,
{
}

} // verus!
