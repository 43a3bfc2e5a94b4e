//! What the cutting of a message recognises, character by character: which
//! stretch of a line is code, a link, bold, italics or a mention, that each of
//! them is found, and that nothing else is.

use crate::markup;
use crate::markup::{Morceau, Section};
use crate::texte;
use vstd::prelude::*;

verus! {

// ---------------------------------------------------------------------
// What stands at one place of a line
// ---------------------------------------------------------------------

/// There is this character at `p`.
pub open spec fn la(s: Seq<char>, p: int, c: char) -> bool {
    0 <= p < s.len() && s[p] == c
}

/// Literal code from the backquote at `p` to the one at `q`: something between
/// them, and no other backquote.
pub open spec fn code_a(s: Seq<char>, p: int, q: int) -> bool {
    &&& la(s, p, '`') && la(s, q, '`')
    &&& p + 1 < q
    &&& forall|k: int| p < k < q ==> #[trigger] s[k] != '`'
}

/// Two stars at `p`.
pub open spec fn deux_etoiles(s: Seq<char>, p: int) -> bool {
    la(s, p, '*') && la(s, p + 1, '*')
}

/// Bold between the two stars at `p` and those at `q`, the next ones: something
/// that neither starts nor ends with a space.
pub open spec fn gras_a(s: Seq<char>, p: int, q: int) -> bool {
    &&& deux_etoiles(s, p) && deux_etoiles(s, q)
    &&& p + 2 < q
    &&& s[p + 2] != ' ' && s[q - 1] != ' '
    &&& forall|k: int| p + 2 <= k < q ==> !#[trigger] deux_etoiles(s, k)
}

/// Italics between the star at `p` and the one at `q`, the next one: something
/// that neither starts nor ends with a space.
pub open spec fn italique_a(s: Seq<char>, p: int, q: int) -> bool {
    &&& la(s, p, '*') && la(s, q, '*')
    &&& p + 1 < q
    &&& s[p + 1] != ' ' && s[q - 1] != ' '
    &&& forall|k: int| p < k < q ==> #[trigger] s[k] != '*'
}

/// An address starts at `p`.
pub open spec fn lien_a(s: Seq<char>, p: int) -> bool {
    ||| la(s, p, 'h') && la(s, p + 1, 't') && la(s, p + 2, 't') && la(s, p + 3, 'p') && la(
        s,
        p + 4,
        ':',
    ) && la(s, p + 5, '/') && la(s, p + 6, '/')
    ||| la(s, p, 'h') && la(s, p + 1, 't') && la(s, p + 2, 't') && la(s, p + 3, 'p') && la(
        s,
        p + 4,
        's',
    ) && la(s, p + 5, ':') && la(s, p + 6, '/') && la(s, p + 7, '/')
}

/// How often a character stands in a text.
pub open spec fn nombre(s: Seq<char>, c: char) -> nat {
    s.filter(|x: char| x == c).len()
}

/// Of an address that starts at `o` and would end before `k`, the last character
/// belongs to the sentence: it is punctuation, or a closing bracket too many.
pub open spec fn colle(s: Seq<char>, o: int, k: int) -> bool {
    let c = s[k - 1];
    ||| c == '.' || c == ',' || c == ';' || c == ':' || c == '!' || c == '?'
    ||| c == '»' || c == '"' || c == '\''
    ||| c == ')' && nombre(s.subrange(o, k), '(') < nombre(s.subrange(o, k), ')')
}

/// The word that starts at `o` ends at `w`: nothing white in it, and the end of
/// the line or something white after it.
pub open spec fn mot_a(s: Seq<char>, o: int, w: int) -> bool {
    &&& o <= w <= s.len()
    &&& forall|k: int| o <= k < w ==> !texte::est_blanc(#[trigger] s[k])
    &&& w == s.len() || texte::est_blanc(s[w])
}

/// An address from `o` to `e`: the word that starts there, less all that the
/// sentence glued to its end, and no more than that.
pub open spec fn adresse_a(s: Seq<char>, o: int, e: int) -> bool {
    &&& lien_a(s, o)
    &&& o < e
    &&& !colle(s, o, e)
    &&& exists|w: int| #[trigger]
        mot_a(s, o, w) && e <= w && forall|k: int| e < k <= w ==> #[trigger] colle(s, o, k)
}

/// The same letter, but for the case where it is one of ASCII.
pub open spec fn meme_lettre(a: char, b: char) -> bool {
    ||| a == b
    ||| 'A' <= a <= 'Z' && b as u32 == a as u32 + 32
    ||| 'A' <= b <= 'Z' && a as u32 == b as u32 + 32
}

/// The same name, but for the case of its letters.
pub open spec fn meme_nom(a: Seq<char>, b: Seq<char>) -> bool {
    a.len() == b.len() && forall|i: int| 0 <= i < a.len() ==> meme_lettre(#[trigger] a[i], b[i])
}

/// An `@` at `p`, then this name, then the end of the line or a character that
/// does not make a longer name of it.
pub open spec fn nomme_a(s: Seq<char>, p: int, nom: Seq<char>) -> bool {
    let e = p + 1 + nom.len();
    &&& la(s, p, '@')
    &&& 0 < nom.len() && e <= s.len()
    &&& meme_nom(s.subrange(p + 1, e), nom)
    &&& e == s.len() || !(texte::est_alphanumerique(s[e]) || s[e] == '_' || s[e] == '-')
}

/// Nothing is recognised at `p`.
pub open spec fn rien_a(s: Seq<char>, p: int, membres: Seq<Seq<char>>) -> bool {
    &&& forall|q: int| !#[trigger] code_a(s, p, q)
    &&& !lien_a(s, p)
    &&& forall|q: int| !#[trigger] gras_a(s, p, q)
    &&& forall|q: int| !#[trigger] italique_a(s, p, q)
    &&& forall|k: int| 0 <= k < membres.len() ==> !nomme_a(s, p, #[trigger] membres[k])
}

/// A piece is right at `o`: the line reads so there, and it is what its kind
/// promises, all of it and no more. Ordinary text is what holds nothing to
/// recognise; of the names that a mention could mean, it takes the longest.
pub open spec fn juste(
    s: Seq<char>,
    o: int,
    m: Morceau,
    membres: Seq<Seq<char>>,
    moi: Option<Seq<char>>,
) -> bool {
    match m {
        Morceau::Texte(t) => {
            &&& 0 <= o && o + t.len() <= s.len()
            &&& t == s.subrange(o, o + t.len())
            &&& forall|p: int| o <= p < o + t.len() ==> #[trigger] rien_a(s, p, membres)
        },
        Morceau::Code(c) => code_a(s, o, o + 1 + c.len()) && c == s.subrange(
            o + 1,
            o + 1 + c.len(),
        ),
        Morceau::Lien(l) => adresse_a(s, o, o + l.len()) && l == s.subrange(o, o + l.len()),
        Morceau::Gras(c) => gras_a(s, o, o + 2 + c.len()) && c == s.subrange(
            o + 2,
            o + 2 + c.len(),
        ),
        Morceau::Italique(c) => italique_a(s, o, o + 1 + c.len()) && c == s.subrange(
            o + 1,
            o + 1 + c.len(),
        ),
        Morceau::Mention { pseudo, moi: a_moi } => {
            &&& 0 <= o && o + 1 + pseudo.len() <= s.len()
            &&& pseudo == s.subrange(o + 1, o + 1 + pseudo.len())
            &&& exists|k: int|
                0 <= k < membres.len() && nomme_a(s, o, #[trigger] membres[k]) && membres[k].len()
                    == pseudo.len()
            &&& forall|k: int|
                0 <= k < membres.len() && nomme_a(s, o, #[trigger] membres[k]) ==> membres[k].len()
                    <= pseudo.len()
            &&& a_moi == (moi is Some && meme_nom(moi->0, pseudo))
        },
    }
}

/// How long a piece is in the line, its marks counted.
pub open spec fn etendue(m: Morceau) -> nat {
    match m {
        Morceau::Texte(t) => t.len(),
        Morceau::Lien(t) => t.len(),
        Morceau::Mention { pseudo, .. } => 1 + pseudo.len(),
        Morceau::Gras(t) => 4 + t.len(),
        Morceau::Italique(t) => 2 + t.len(),
        Morceau::Code(t) => 2 + t.len(),
    }
}

/// Where pieces end that start at `o` and follow each other.
pub open spec fn bout(o: int, f: Seq<Morceau>) -> int
    decreases f.len(),
{
    if f.len() == 0 {
        o
    } else {
        bout(o, f.drop_last()) + etendue(f.last())
    }
}

/// Each piece is right where the one before it ends.
pub open spec fn tous_justes(
    s: Seq<char>,
    o: int,
    f: Seq<Morceau>,
    membres: Seq<Seq<char>>,
    moi: Option<Seq<char>>,
) -> bool {
    forall|j: int| 0 <= j < f.len() ==> juste(s, bout(o, f.take(j)), #[trigger] f[j], membres, moi)
}

// ---------------------------------------------------------------------
// Each kind in turn
// ---------------------------------------------------------------------

proof fn lemme_un(s: Seq<char>, p: int, motif: Seq<char>, c: char)
    requires
        motif.len() == 1,
        motif[0] == c,
    ensures
        texte::present_en(s, motif, p) == la(s, p, c),
{
    if la(s, p, c) {
        assert(s.subrange(p, p + 1) =~= motif);
    }
    if texte::present_en(s, motif, p) {
        assert(s[p] == s.subrange(p, p + 1)[0]);
    }
}

proof fn lemme_deux(s: Seq<char>, p: int, motif: Seq<char>)
    requires
        motif.len() == 2,
        motif[0] == '*' && motif[1] == '*',
    ensures
        texte::present_en(s, motif, p) == deux_etoiles(s, p),
{
    if deux_etoiles(s, p) {
        assert(s.subrange(p, p + 2) =~= motif);
    }
    if texte::present_en(s, motif, p) {
        assert(s[p] == s.subrange(p, p + 2)[0]);
        assert(s[p + 1] == s.subrange(p, p + 2)[1]);
    }
}

proof fn lemme_code(s: Seq<char>, p: int)
    requires
        0 <= p < s.len(),
    ensures
        markup::code_en(s, p) matches Some(q) ==> code_a(s, p, q),
        markup::code_en(s, p) is None ==> forall|q: int| !#[trigger] code_a(s, p, q),
{
    reveal_strlit("`");
    texte::lemme_indice(s, "`"@, p + 1);
    assert forall|k: int| texte::present_en(s, "`"@, k) == #[trigger] la(s, k, '`') by {
        lemme_un(s, k, "`"@, '`');
    }
    if let Some(q) = markup::code_en(s, p) {
        assert(la(s, q, '`'));
        assert forall|k: int| p < k < q implies #[trigger] s[k] != '`' by {
            assert(!texte::present_en(s, "`"@, k));
            assert(!la(s, k, '`'));
        }
    } else {
        assert forall|q: int| !#[trigger] code_a(s, p, q) by {
            if code_a(s, p, q) {
                assert(la(s, q, '`'));
                assert(texte::present_en(s, "`"@, q));
                let fin = texte::indice(s, "`"@, p + 1)->0;
                assert(la(s, fin, '`'));
                assert(fin <= q);
                if p < fin < q {
                    assert(s[fin] != '`');
                }
            }
        }
    }
}

/// An address starts where the cutting says that one does.
pub proof fn lemme_lit(s: Seq<char>, p: int)
    requires
        0 <= p,
    ensures
        markup::debut_de_lien(s, p) == lien_a(s, p),
{
    reveal_strlit("http://");
    reveal_strlit("https://");
    let h = "http://"@;
    let hs = "https://"@;
    if texte::present_en(s, h, p) {
        assert forall|i: int| 0 <= i < 7 implies s[p + i] == h[i] by {
            assert(s[p + i] == s.subrange(p, p + 7)[i]);
        }
        assert(s[p] == h[0] && s[p + 1] == h[1] && s[p + 2] == h[2] && s[p + 3] == h[3] && s[p + 4]
            == h[4] && s[p + 5] == h[5] && s[p + 6] == h[6]);
    }
    if texte::present_en(s, hs, p) {
        assert forall|i: int| 0 <= i < 8 implies s[p + i] == hs[i] by {
            assert(s[p + i] == s.subrange(p, p + 8)[i]);
        }
        assert(s[p] == hs[0] && s[p + 1] == hs[1] && s[p + 2] == hs[2] && s[p + 3] == hs[3] && s[p
            + 4] == hs[4] && s[p + 5] == hs[5] && s[p + 6] == hs[6] && s[p + 7] == hs[7]);
    }
    if lien_a(s, p) {
        if s[p + 4] == ':' {
            assert(s.subrange(p, p + 7) =~= h);
        } else {
            assert(s.subrange(p, p + 8) =~= hs);
        }
    }
}

proof fn lemme_nombre(s: Seq<char>, c: char)
    ensures
        markup::compte(s, c) == nombre(s, c),
    decreases s.len(),
{
    reveal(Seq::filter);
    if s.len() > 0 {
        lemme_nombre(s.drop_last(), c);
    }
}

proof fn lemme_colle(s: Seq<char>, o: int, k: int)
    requires
        0 <= o < k <= s.len(),
    ensures
        markup::a_rogner(s.subrange(o, k)) == colle(s, o, k),
{
    let l = s.subrange(o, k);
    assert(l.last() == s[k - 1]);
    lemme_nombre(l, '(');
    lemme_nombre(l, ')');
}

proof fn lemme_rognage(l: Seq<char>)
    ensures
        markup::sans_ponctuation(l).len() <= l.len(),
        markup::sans_ponctuation(l) == l.take(markup::sans_ponctuation(l).len() as int),
        !markup::a_rogner(markup::sans_ponctuation(l)),
        forall|k: int|
            markup::sans_ponctuation(l).len() < k <= l.len() ==> markup::a_rogner(
                #[trigger] l.take(k),
            ),
    decreases l.len(),
{
    assert(l.take(l.len() as int) =~= l);
    if markup::a_rogner(l) {
        let court = l.drop_last();
        lemme_rognage(court);
        assert forall|k: int|
            markup::sans_ponctuation(l).len() < k <= l.len() implies markup::a_rogner(
            #[trigger] l.take(k),
        ) by {
            if k < l.len() {
                assert(court.take(k) =~= l.take(k));
            }
        }
        let n = markup::sans_ponctuation(court).len() as int;
        assert(court.take(n) =~= l.take(n));
    }
}

proof fn lemme_adresse(s: Seq<char>, p: int)
    requires
        0 <= p < s.len(),
        lien_a(s, p),
    ensures
        markup::lien_en(s, p) matches Some(l) && adresse_a(s, p, p + l.len()) && p + l.len()
            <= s.len() && l == s.subrange(p, p + l.len()),
{
    lemme_lit(s, p);
    texte::lemme_prochain_blanc(s, p);
    let w = texte::prochain_blanc(s, p);
    let brut = s.subrange(p, w);
    let l = markup::sans_ponctuation(brut);
    let e = p + l.len();
    lemme_rognage(brut);
    assert(l =~= s.subrange(p, e));
    markup::lemme_marque_avance(s, p, Seq::empty(), None);
    assert(mot_a(s, p, w));
    // An address never goes down to nothing: its slashes are its own.
    assert(w >= p + 7) by {
        if w < p + 7 {
            assert(w < s.len());
            assert(texte::est_blanc(s[w]));
            assert(s[w] == 'h' || s[w] == 't' || s[w] == 'p' || s[w] == 's' || s[w] == ':' || s[w]
                == '/');
        }
    }
    let g = if s[p + 4] == ':' {
        7int
    } else {
        8int
    };
    assert(w >= p + g) by {
        if w < p + g {
            assert(s[w] == '/');
        }
    }
    assert(brut.take(g) =~= s.subrange(p, p + g));
    lemme_colle(s, p, p + g);
    assert(s[p + g - 1] == '/');
    assert(!markup::a_rogner(brut.take(g)));
    assert(l.len() >= g);
    lemme_colle(s, p, e);
    assert(!colle(s, p, e));
    assert forall|k: int| e < k <= w implies #[trigger] colle(s, p, k) by {
        assert(brut.take(k - p) =~= s.subrange(p, k));
        lemme_colle(s, p, k);
    }
}

proof fn lemme_gras(s: Seq<char>, p: int)
    requires
        0 <= p < s.len(),
    ensures
        markup::contenu_entoure(s.skip(p), "**"@) matches Some(c) ==> gras_a(s, p, p + 2 + c.len())
            && c == s.subrange(p + 2, p + 2 + c.len()),
        markup::contenu_entoure(s.skip(p), "**"@) is None ==> forall|q: int| !#[trigger] gras_a(
            s,
            p,
            q,
        ),
{
    reveal_strlit("**");
    let m = "**"@;
    let r = s.skip(p);
    lemme_deux(r, 0, m);
    assert(deux_etoiles(r, 0) == deux_etoiles(s, p));
    if deux_etoiles(s, p) {
        let a = r.skip(2);
        assert(a =~= s.skip(p + 2));
        texte::lemme_indice(a, m, 0);
        assert forall|k: int| texte::present_en(a, m, k) == #[trigger] deux_etoiles(a, k) by {
            lemme_deux(a, k, m);
        }
        assert forall|k: int| 0 <= k implies #[trigger] deux_etoiles(a, k) == deux_etoiles(
            s,
            p + 2 + k,
        ) by {}
        assert(texte::present_en(a, m, 0) == deux_etoiles(a, 0));
        if let Some(c) = markup::contenu_entoure(r, m) {
            let fin = texte::indice(a, m, 0)->0;
            let q = p + 2 + fin;
            assert(c == a.take(fin));
            assert(c =~= s.subrange(p + 2, q));
            assert(deux_etoiles(a, fin));
            assert(a[0] == s[p + 2]);
            assert(c.last() == s[q - 1]);
            assert forall|k: int| p + 2 <= k < q implies !#[trigger] deux_etoiles(s, k) by {
                assert(!texte::present_en(a, m, k - p - 2));
                assert(!deux_etoiles(a, k - p - 2));
            }
        } else {
            assert forall|q: int| !#[trigger] gras_a(s, p, q) by {
                if gras_a(s, p, q) {
                    assert(a[0] == s[p + 2]);
                    assert(!deux_etoiles(s, p + 2));
                    assert(!deux_etoiles(a, 0));
                    assert(deux_etoiles(a, q - p - 2));
                    assert(texte::present_en(a, m, q - p - 2));
                    let fin = texte::indice(a, m, 0)->0;
                    assert(deux_etoiles(a, fin));
                    assert(deux_etoiles(s, p + 2 + fin));
                    assert(fin == q - p - 2);
                    assert(a.take(fin).last() == s[q - 1]);
                }
            }
        }
    }
}

proof fn lemme_italique(s: Seq<char>, p: int)
    requires
        0 <= p < s.len(),
    ensures
        markup::contenu_entoure(s.skip(p), "*"@) matches Some(c) ==> italique_a(
            s,
            p,
            p + 1 + c.len(),
        ) && c == s.subrange(p + 1, p + 1 + c.len()),
        markup::contenu_entoure(s.skip(p), "*"@) is None ==> forall|q: int| !#[trigger] italique_a(
            s,
            p,
            q,
        ),
{
    reveal_strlit("*");
    let m = "*"@;
    let r = s.skip(p);
    lemme_un(r, 0, m, '*');
    assert(la(r, 0, '*') == la(s, p, '*'));
    if la(s, p, '*') {
        let a = r.skip(1);
        assert(a =~= s.skip(p + 1));
        texte::lemme_indice(a, m, 0);
        assert forall|k: int| texte::present_en(a, m, k) == #[trigger] la(a, k, '*') by {
            lemme_un(a, k, m, '*');
        }
        assert forall|k: int| 0 <= k implies #[trigger] la(a, k, '*') == la(s, p + 1 + k, '*') by {}
        assert(texte::present_en(a, m, 0) == la(a, 0, '*'));
        if let Some(c) = markup::contenu_entoure(r, m) {
            let fin = texte::indice(a, m, 0)->0;
            let q = p + 1 + fin;
            assert(c == a.take(fin));
            assert(c =~= s.subrange(p + 1, q));
            assert(la(a, fin, '*'));
            assert(a[0] == s[p + 1]);
            assert(c.last() == s[q - 1]);
            assert forall|k: int| p < k < q implies #[trigger] s[k] != '*' by {
                assert(!texte::present_en(a, m, k - p - 1));
                assert(!la(a, k - p - 1, '*'));
            }
        } else {
            assert forall|q: int| !#[trigger] italique_a(s, p, q) by {
                if italique_a(s, p, q) {
                    assert(a[0] == s[p + 1]);
                    assert(s[p + 1] != '*');
                    assert(!la(a, 0, '*'));
                    assert(la(a, q - p - 1, '*'));
                    assert(texte::present_en(a, m, q - p - 1));
                    let fin = texte::indice(a, m, 0)->0;
                    assert(la(a, fin, '*'));
                    assert(la(s, p + 1 + fin, '*'));
                    assert(fin == q - p - 1);
                    assert(a.take(fin).last() == s[q - 1]);
                }
            }
        }
    }
}

proof fn lemme_lettre(a: char, b: char)
    ensures
        (texte::minuscule_ascii(a) == texte::minuscule_ascii(b)) == meme_lettre(a, b),
{
    let x = a as u32;
    let y = b as u32;
    assert(a == b <==> x == y);
    if 'A' <= a <= 'Z' {
        assert((x + 32) as char as u32 == x + 32);
    }
    if 'A' <= b <= 'Z' {
        assert((y + 32) as char as u32 == y + 32);
    }
}

proof fn lemme_nom(a: Seq<char>, b: Seq<char>)
    ensures
        texte::egal_sans_casse(a, b) == meme_nom(a, b),
{
    assert forall|i: int| 0 <= i < a.len() && a.len() == b.len() implies (texte::minuscule_ascii(
        #[trigger] a[i],
    ) == texte::minuscule_ascii(b[i])) == meme_lettre(a[i], b[i]) by {
        lemme_lettre(a[i], b[i]);
    }
}

proof fn lemme_nomme(s: Seq<char>, p: int, nom: Seq<char>)
    requires
        la(s, p, '@'),
    ensures
        markup::nomme(s.skip(p + 1), nom) == nomme_a(s, p, nom),
{
    let a = s.skip(p + 1);
    let n = nom.len() as int;
    if 0 < n <= a.len() {
        assert(a.take(n) =~= s.subrange(p + 1, p + 1 + n));
        lemme_nom(a.take(n), nom);
        if n < a.len() {
            assert(a[n] == s[p + 1 + n]);
        }
    }
}

proof fn lemme_plus_long(a: Seq<char>, membres: Seq<Seq<char>>)
    ensures
        markup::longueur_mention(a, membres) <= a.len(),
        markup::longueur_mention(a, membres) > 0 ==> exists|k: int|
            0 <= k < membres.len() && markup::nomme(a, #[trigger] membres[k]) && membres[k].len()
                == markup::longueur_mention(a, membres),
        forall|k: int|
            0 <= k < membres.len() && markup::nomme(a, #[trigger] membres[k]) ==> membres[k].len()
                <= markup::longueur_mention(a, membres),
    decreases membres.len(),
{
    if membres.len() > 0 {
        let avant = membres.drop_last();
        lemme_plus_long(a, avant);
        if markup::longueur_mention(a, avant) > 0 {
            let k = choose|k: int|
                0 <= k < avant.len() && markup::nomme(a, #[trigger] avant[k]) && avant[k].len()
                    == markup::longueur_mention(a, avant);
            assert(membres[k] == avant[k]);
        }
        assert(membres[membres.len() - 1] == membres.last());
        assert forall|k: int| 0 <= k < membres.len() && markup::nomme(
            a,
            #[trigger] membres[k],
        ) implies membres[k].len() <= markup::longueur_mention(a, membres) by {
            if k < membres.len() - 1 {
                assert(avant[k] == membres[k]);
            }
        }
    }
}

proof fn lemme_mention(s: Seq<char>, p: int, membres: Seq<Seq<char>>, moi: Option<Seq<char>>)
    requires
        0 <= p < s.len(),
    ensures
        markup::mention_en(s, p, membres) matches Some(pseudo) ==> juste(
            s,
            p,
            Morceau::Mention { pseudo, moi: markup::est_moi(pseudo, moi) },
            membres,
            moi,
        ),
        markup::mention_en(s, p, membres) is None ==> forall|k: int|
            0 <= k < membres.len() ==> !nomme_a(s, p, #[trigger] membres[k]),
{
    if s[p] == '@' {
        let a = s.skip(p + 1);
        lemme_plus_long(a, membres);
        assert forall|k: int| 0 <= k < membres.len() implies markup::nomme(
            a,
            #[trigger] membres[k],
        ) == nomme_a(s, p, membres[k]) by {
            lemme_nomme(s, p, membres[k]);
        }
        let n = markup::longueur_mention(a, membres);
        if n > 0 {
            let pseudo = a.take(n as int);
            assert(pseudo =~= s.subrange(p + 1, p + 1 + n));
            let k = choose|k: int|
                0 <= k < membres.len() && markup::nomme(a, #[trigger] membres[k]) && membres[k].len()
                    == n;
            assert(nomme_a(s, p, membres[k]));
            if let Some(m) = moi {
                lemme_nom(m, pseudo);
            }
        }
    }
}

// ---------------------------------------------------------------------
// A line
// ---------------------------------------------------------------------

proof fn lemme_marque(s: Seq<char>, p: int, membres: Seq<Seq<char>>, moi: Option<Seq<char>>)
    requires
        0 <= p < s.len(),
    ensures
        match markup::marque_en(s, p, membres, moi) {
            Some((m, n)) => juste(s, p, m, membres, moi) && n == p + etendue(m) && p < n
                <= s.len(),
            None => rien_a(s, p, membres),
        },
{
    lemme_code(s, p);
    lemme_lit(s, p);
    if lien_a(s, p) {
        lemme_adresse(s, p);
    }
    lemme_gras(s, p);
    lemme_italique(s, p);
    lemme_mention(s, p, membres, moi);
    markup::lemme_marque_avance(s, p, membres, moi);
    if let Some(fin) = markup::code_en(s, p) {
        assert(s.subrange(p + 1, fin).len() == fin - p - 1);
    }
}

proof fn lemme_bout_a_bout(o: int, a: Seq<Morceau>, b: Seq<Morceau>)
    ensures
        bout(o, a + b) == bout(bout(o, a), b),
    decreases b.len(),
{
    if b.len() == 0 {
        assert(a + b =~= a);
    } else {
        lemme_bout_a_bout(o, a, b.drop_last());
        assert((a + b).drop_last() =~= a + b.drop_last());
    }
}

proof fn lemme_justes_bout_a_bout(
    s: Seq<char>,
    o: int,
    a: Seq<Morceau>,
    b: Seq<Morceau>,
    membres: Seq<Seq<char>>,
    moi: Option<Seq<char>>,
)
    requires
        tous_justes(s, o, a, membres, moi),
        tous_justes(s, bout(o, a), b, membres, moi),
    ensures
        tous_justes(s, o, a + b, membres, moi),
        bout(o, a + b) == bout(bout(o, a), b),
{
    lemme_bout_a_bout(o, a, b);
    let f = a + b;
    assert forall|j: int| 0 <= j < f.len() implies juste(
        s,
        bout(o, f.take(j)),
        #[trigger] f[j],
        membres,
        moi,
    ) by {
        if j < a.len() {
            assert(f.take(j) =~= a.take(j));
            assert(f[j] == a[j]);
        } else {
            let i = j - a.len();
            assert(f.take(j) =~= a + b.take(i));
            lemme_bout_a_bout(o, a, b.take(i));
            assert(f[j] == b[i]);
        }
    }
}

proof fn lemme_texte_brut(
    s: Seq<char>,
    o: int,
    e: int,
    membres: Seq<Seq<char>>,
    moi: Option<Seq<char>>,
)
    requires
        0 <= o <= e <= s.len(),
        forall|p: int| o <= p < e ==> #[trigger] rien_a(s, p, membres),
    ensures
        tous_justes(s, o, markup::texte_brut(s.subrange(o, e)), membres, moi),
        bout(o, markup::texte_brut(s.subrange(o, e))) == e,
{
    let f = markup::texte_brut(s.subrange(o, e));
    reveal_with_fuel(bout, 2);
    if o < e {
        assert(f.take(0) =~= Seq::<Morceau>::empty());
        assert(f.drop_last() =~= Seq::<Morceau>::empty());
    }
}

proof fn lemme_suite(
    s: Seq<char>,
    debut: int,
    i: int,
    membres: Seq<Seq<char>>,
    moi: Option<Seq<char>>,
)
    requires
        0 <= debut <= i <= s.len(),
        forall|p: int| debut <= p < i ==> #[trigger] rien_a(s, p, membres),
    ensures
        tous_justes(s, debut, markup::suite(s, debut, i, membres, moi), membres, moi),
        bout(debut, markup::suite(s, debut, i, membres, moi)) == s.len(),
    decreases s.len() - i,
{
    if i >= s.len() {
        lemme_texte_brut(s, debut, s.len() as int, membres, moi);
    } else {
        lemme_marque(s, i, membres, moi);
        match markup::marque_en(s, i, membres, moi) {
            Some((m, n)) => {
                let brut = markup::texte_brut(s.subrange(debut, i));
                lemme_texte_brut(s, debut, i, membres, moi);
                reveal_with_fuel(bout, 2);
                assert(seq![m].take(0) =~= Seq::<Morceau>::empty());
                assert(seq![m].drop_last() =~= Seq::<Morceau>::empty());
                assert(tous_justes(s, i, seq![m], membres, moi));
                lemme_justes_bout_a_bout(s, debut, brut, seq![m], membres, moi);
                assert(brut + seq![m] =~= brut.push(m));
                lemme_suite(s, n, n, membres, moi);
                lemme_justes_bout_a_bout(
                    s,
                    debut,
                    brut.push(m),
                    markup::suite(s, n, n, membres, moi),
                    membres,
                    moi,
                );
            },
            None => {
                lemme_suite(s, debut, i + 1, membres, moi);
            },
        }
    }
}

/// The pieces of a line cover it from its start to its end, and each is right
/// where it stands: code, links, bold, italics and mentions are found wherever
/// the cutting reaches one, in full and no further, and ordinary text holds none
/// that was passed over.
pub proof fn loi_tout_est_reconnu(s: Seq<char>, membres: Seq<Seq<char>>, moi: Option<Seq<char>>)
    ensures
        tous_justes(s, 0, markup::morceaux(s, membres, moi), membres, moi),
        bout(0, markup::morceaux(s, membres, moi)) == s.len(),
{
    lemme_suite(s, 0, 0, membres, moi);
    reveal_with_fuel(bout, 2);
    let f = markup::suite(s, 0, 0, membres, moi);
    if f.len() == 0 {
        assert(f =~= Seq::<Morceau>::empty());
        let g = seq![Morceau::Texte(Seq::<char>::empty())];
        assert(s.len() == 0);
        assert(g.take(0) =~= Seq::<Morceau>::empty());
        assert(g.drop_last() =~= Seq::<Morceau>::empty());
        assert(s.subrange(0, 0) =~= Seq::<char>::empty());
    }
}

/// A mention that opens a line is recognised, as any other: its first piece is
/// the mention of the longest known name that stands there, and it says whether
/// that name is the reader's.
pub proof fn loi_mention_en_tete(
    s: Seq<char>,
    membres: Seq<Seq<char>>,
    moi: Option<Seq<char>>,
    k: int,
)
    requires
        0 <= k < membres.len(),
        nomme_a(s, 0, membres[k]),
        forall|l: int|
            0 <= l < membres.len() && nomme_a(s, 0, #[trigger] membres[l]) ==> membres[l].len()
                <= membres[k].len(),
    ensures
        markup::morceaux(s, membres, moi).len() > 0,
        markup::morceaux(s, membres, moi)[0] == (Morceau::Mention {
            pseudo: s.subrange(1, 1 + membres[k].len() as int),
            moi: moi is Some && meme_nom(moi->0, s.subrange(1, 1 + membres[k].len() as int)),
        }),
{
    loi_tout_est_reconnu(s, membres, moi);
    markup::loi_morceaux_bien_formes(s, membres, moi);
    let f = markup::morceaux(s, membres, moi);
    assert(f.take(0) =~= Seq::<Morceau>::empty());
    assert(juste(s, 0, f[0], membres, moi));
    assert(s[0] == '@');
    match f[0] {
        Morceau::Texte(t) => {
            assert(t.len() > 0);
            assert(rien_a(s, 0, membres));
            assert(!nomme_a(s, 0, membres[k]));
        },
        Morceau::Mention { pseudo, moi: b } => {
            let l = choose|l: int|
                0 <= l < membres.len() && nomme_a(s, 0, #[trigger] membres[l]) && membres[l].len()
                    == pseudo.len();
            assert(membres[l].len() <= membres[k].len());
            assert(pseudo.len() == membres[k].len());
        },
        Morceau::Code(c) => {},
        Morceau::Lien(l) => {},
        Morceau::Gras(c) => {},
        Morceau::Italique(c) => {},
    }
}

// ---------------------------------------------------------------------
// A message
// ---------------------------------------------------------------------

/// Three backquotes at `p`.
pub open spec fn cloture_a(s: Seq<char>, p: int) -> bool {
    la(s, p, '`') && la(s, p + 1, '`') && la(s, p + 2, '`')
}

/// No three backquotes anywhere.
pub open spec fn sans_cloture(s: Seq<char>) -> bool {
    forall|p: int| !#[trigger] cloture_a(s, p)
}

/// `reste` is `t` without the one line break that it starts with, if it does.
pub open spec fn tete_otee(t: Seq<char>, reste: Seq<char>) -> bool {
    if la(t, 0, '\r') && la(t, 1, '\n') {
        t == seq!['\r', '\n'] + reste
    } else if la(t, 0, '\n') {
        t == seq!['\n'] + reste
    } else {
        t == reste
    }
}

/// `reste` is `t` without the one line break that it ends with, if it does.
pub open spec fn fin_otee(t: Seq<char>, reste: Seq<char>) -> bool {
    if la(t, t.len() - 1, '\n') && la(t, t.len() - 2, '\r') {
        t == reste + seq!['\r', '\n']
    } else if la(t, t.len() - 1, '\n') {
        t == reste + seq!['\n']
    } else {
        t == reste
    }
}

/// The code of a block whose backquotes surround `t`: without the line break
/// that opens it, nor any of those that close it, and otherwise as it stands.
pub open spec fn code_de_bloc(t: Seq<char>, code: Seq<char>) -> bool {
    exists|corps: Seq<char>| #[trigger]
        tete_otee(t, corps) && corps.len() >= code.len() && code == corps.take(code.len() as int)
            && (forall|k: int|
            code.len() <= k < corps.len() ==> #[trigger] corps[k] == '\n' || corps[k] == '\r')
            && (code.len() > 0 ==> code.last() != '\n' && code.last() != '\r')
}

proof fn lemme_cloture(s: Seq<char>, p: int)
    ensures
        texte::present_en(s, "```"@, p) == cloture_a(s, p),
        "```"@.len() == 3,
{
    reveal_strlit("```");
    let m = "```"@;
    if cloture_a(s, p) {
        assert(s.subrange(p, p + 3) =~= m);
    }
    if texte::present_en(s, m, p) {
        assert(s[p] == s.subrange(p, p + 3)[0]);
        assert(s[p + 1] == s.subrange(p, p + 3)[1]);
        assert(s[p + 2] == s.subrange(p, p + 3)[2]);
    }
}

proof fn lemme_premiere_cloture(s: Seq<char>, d: int)
    requires
        cloture_a(s, d),
        forall|p: int| p < d ==> !#[trigger] cloture_a(s, p),
    ensures
        texte::indice(s, "```"@, 0) == Some(d),
{
    texte::lemme_indice(s, "```"@, 0);
    lemme_cloture(s, d);
    if let Some(k) = texte::indice(s, "```"@, 0) {
        lemme_cloture(s, k);
    }
}

proof fn lemme_aucune_cloture(s: Seq<char>)
    ensures
        sans_cloture(s) == (texte::indice(s, "```"@, 0) is None),
{
    texte::lemme_indice(s, "```"@, 0);
    if let Some(k) = texte::indice(s, "```"@, 0) {
        lemme_cloture(s, k);
    } else {
        assert forall|p: int| !#[trigger] cloture_a(s, p) by {
            lemme_cloture(s, p);
        }
    }
}

proof fn lemme_tete(t: Seq<char>)
    ensures
        tete_otee(t, markup::sans_debut(t)),
{
    reveal_strlit("\r\n");
    let m = "\r\n"@;
    let r = markup::sans_debut(t);
    if la(t, 0, '\r') && la(t, 1, '\n') {
        assert(t.subrange(0, 2) =~= m);
        assert(t =~= seq!['\r', '\n'] + r);
    } else {
        if texte::present_en(t, m, 0) {
            assert(t[0] == t.subrange(0, 2)[0]);
            assert(t[1] == t.subrange(0, 2)[1]);
        }
        if la(t, 0, '\n') {
            assert(t =~= seq!['\n'] + r);
        }
    }
}

proof fn lemme_fin(t: Seq<char>)
    ensures
        fin_otee(t, markup::sans_fin(t)),
{
    let r = markup::sans_fin(t);
    if la(t, t.len() - 1, '\n') {
        let d = t.drop_last();
        if la(t, t.len() - 2, '\r') {
            assert(d.last() == '\r');
            assert(t =~= r + seq!['\r', '\n']);
        } else {
            if d.len() > 0 {
                assert(d.last() == t[t.len() - 2]);
            }
            assert(t =~= r + seq!['\n']);
        }
    }
}

proof fn lemme_fins(t: Seq<char>)
    ensures
        ({
            let c = markup::sans_fins(t);
            &&& c.len() <= t.len()
            &&& c == t.take(c.len() as int)
            &&& forall|k: int| c.len() <= k < t.len() ==> #[trigger] t[k] == '\n' || t[k] == '\r'
            &&& c.len() > 0 ==> c.last() != '\n' && c.last() != '\r'
        }),
    decreases t.len(),
{
    assert(t.take(t.len() as int) =~= t);
    if t.len() > 0 && (t.last() == '\n' || t.last() == '\r') {
        let d = t.drop_last();
        lemme_fins(d);
        let c = markup::sans_fins(t);
        assert(d.take(c.len() as int) =~= t.take(c.len() as int));
        assert forall|k: int| c.len() <= k < t.len() implies #[trigger] t[k] == '\n' || t[k]
            == '\r' by {
            if k < d.len() {
                assert(d[k] == t[k]);
            }
        }
    }
}

proof fn lemme_bloc(t: Seq<char>)
    ensures
        code_de_bloc(t, markup::nettoye(t)),
{
    lemme_tete(t);
    lemme_fins(markup::sans_debut(t));
}

/// What stands before the first three backquotes of a message, less the line
/// break before them, is cut as a message of its own; what stands between them
/// and the next three is one block of code; and what follows, less one line
/// break, is cut as a message of its own. A block that nothing closes takes all
/// that follows it.
pub proof fn loi_bloc_de_code(
    s: Seq<char>,
    d: int,
    f: int,
    membres: Seq<Seq<char>>,
    moi: Option<Seq<char>>,
) -> (r: (Seq<char>, Seq<char>, Seq<char>))
    requires
        cloture_a(s, d),
        forall|p: int| p < d ==> !#[trigger] cloture_a(s, p),
        d + 3 <= f,
        f == s.len() || cloture_a(s, f),
        forall|p: int| d + 3 <= p < f ==> !#[trigger] cloture_a(s, p),
    ensures
        fin_otee(s.subrange(0, d), r.0),
        code_de_bloc(s.subrange(d + 3, f), r.1),
        f < s.len() ==> tete_otee(s.subrange(f + 3, s.len() as int), r.2),
        f == s.len() ==> r.2.len() == 0,
        markup::sections(s, membres, moi) == markup::sections(r.0, membres, moi) + seq![
            Section::Code(r.1),
        ] + markup::sections(r.2, membres, moi),
{
    lemme_premiere_cloture(s, d);
    lemme_cloture(s, d);
    let avant = markup::sans_fin(s.take(d));
    assert(s.take(d) =~= s.subrange(0, d));
    lemme_fin(s.take(d));
    assert forall|p: int| !#[trigger] cloture_a(avant, p) by {
        if cloture_a(avant, p) {
            assert(avant[p] == s[p] && avant[p + 1] == s[p + 1] && avant[p + 2] == s[p + 2]);
            assert(cloture_a(s, p));
        }
    }
    lemme_aucune_cloture(avant);
    assert(markup::sections(avant, membres, moi) == markup::sections_lignes(avant, membres, moi));
    let apres = s.skip(d + 3);
    let vide = Seq::<char>::empty();
    lemme_aucune_cloture(vide);
    assert(markup::sections(vide, membres, moi) =~= Seq::<Section>::empty());
    if f == s.len() {
        assert forall|p: int| !#[trigger] cloture_a(apres, p) by {
            if cloture_a(apres, p) {
                assert(cloture_a(s, d + 3 + p));
            }
        }
        lemme_aucune_cloture(apres);
        assert(apres =~= s.subrange(d + 3, f));
        lemme_bloc(apres);
        let code = markup::nettoye(apres);
        assert(markup::sections(s, membres, moi) =~= markup::sections(avant, membres, moi) + seq![
            Section::Code(code),
        ] + markup::sections(vide, membres, moi));
        (avant, code, vide)
    } else {
        let e = f - d - 3;
        assert(cloture_a(apres, e));
        assert forall|p: int| p < e implies !#[trigger] cloture_a(apres, p) by {
            if cloture_a(apres, p) {
                assert(cloture_a(s, d + 3 + p));
            }
        }
        lemme_premiere_cloture(apres, e);
        assert(apres.take(e) =~= s.subrange(d + 3, f));
        assert(apres.skip(e + 3) =~= s.subrange(f + 3, s.len() as int));
        lemme_bloc(apres.take(e));
        lemme_tete(apres.skip(e + 3));
        let code = markup::nettoye(apres.take(e));
        let suite = markup::sans_debut(apres.skip(e + 3));
        reveal_strlit("\r\n");
        assert(markup::sections(s, membres, moi) =~= markup::sections(avant, membres, moi) + seq![
            Section::Code(code),
        ] + markup::sections(suite, membres, moi));
        (avant, code, suite)
    }
}

proof fn lemme_lignes(s: Seq<char>)
    ensures
        markup::coupe(s).len() > 0,
        markup::jointes(markup::coupe(s)) == s,
        forall|k: int|
            0 <= k < markup::coupe(s).len() ==> !(#[trigger] markup::coupe(s)[k]).contains('\n'),
    decreases s.len(),
{
    reveal_strlit("\n");
    texte::lemme_indice(s, "\n"@, 0);
    match texte::indice(s, "\n"@, 0) {
        Some(k) => {
            lemme_un(s, k, "\n"@, '\n');
            let apres = s.skip(k + 1);
            lemme_lignes(apres);
            let l = markup::coupe(s);
            assert(l.drop_first() =~= markup::coupe(apres));
            assert(markup::jointes(l) =~= s);
            assert forall|q: int| 0 <= q < l.len() implies !(#[trigger] l[q]).contains('\n') by {
                if q == 0 {
                    if l[0].contains('\n') {
                        let j = choose|j: int| 0 <= j < l[0].len() && l[0][j] == '\n';
                        lemme_un(s, j, "\n"@, '\n');
                        assert(texte::present_en(s, "\n"@, j));
                    }
                } else {
                    assert(l[q] == markup::coupe(apres)[q - 1]);
                }
            }
        },
        None => {
            if s.contains('\n') {
                let j = choose|j: int| 0 <= j < s.len() && s[j] == '\n';
                lemme_un(s, j, "\n"@, '\n');
                assert(texte::present_en(s, "\n"@, j));
            }
        },
    }
}

/// A message without blocks of code gives one section per line, in order: its
/// lines, put back together with a line feed between two of them, are the
/// message, and each is cut without the carriage return that may end it. An empty
/// message gives none.
pub proof fn loi_une_section_par_ligne(
    s: Seq<char>,
    membres: Seq<Seq<char>>,
    moi: Option<Seq<char>>,
) -> (lignes: Seq<Seq<char>>)
    requires
        sans_cloture(s),
    ensures
        s.len() == 0 ==> markup::sections(s, membres, moi).len() == 0,
        s.len() > 0 ==> {
            &&& markup::jointes(lignes) == s
            &&& markup::sections(s, membres, moi).len() == lignes.len() > 0
            &&& forall|k: int|
                0 <= k < lignes.len() ==> {
                    let l = #[trigger] lignes[k];
                    &&& !l.contains('\n')
                    &&& la(l, l.len() - 1, '\r') ==> markup::sections(s, membres, moi)[k]
                        == Section::Ligne(
                        markup::morceaux(l.subrange(0, l.len() - 1), membres, moi),
                    )
                    &&& !la(l, l.len() - 1, '\r') ==> markup::sections(s, membres, moi)[k]
                        == Section::Ligne(markup::morceaux(l, membres, moi))
                }
        },
{
    lemme_aucune_cloture(s);
    lemme_lignes(s);
    let lignes = markup::coupe(s);
    assert forall|k: int| 0 <= k < lignes.len() && s.len() > 0 implies {
        let l = #[trigger] lignes[k];
        &&& !l.contains('\n')
        &&& la(l, l.len() - 1, '\r') ==> markup::sections(s, membres, moi)[k] == Section::Ligne(
            markup::morceaux(l.subrange(0, l.len() - 1), membres, moi),
        )
        &&& !la(l, l.len() - 1, '\r') ==> markup::sections(s, membres, moi)[k] == Section::Ligne(
            markup::morceaux(l, membres, moi),
        )
    } by {
        let l = lignes[k];
        if la(l, l.len() - 1, '\r') {
            assert(l.drop_last() =~= l.subrange(0, l.len() - 1));
        }
    }
    lignes
}

/// A message mentions the reader where a piece of one of its lines does, and only
/// there: what stands in a block of code does not count.
pub proof fn loi_mention_du_lecteur(s: Seq<char>, membres: Seq<Seq<char>>, moi: Seq<char>)
    ensures
        markup::me_nomme(s, membres, moi) <==> exists|k: int, j: int, f: Seq<Morceau>|
            {
                &&& 0 <= k < markup::sections(s, membres, Some(moi)).len()
                &&& #[trigger] markup::sections(s, membres, Some(moi))[k] == Section::Ligne(f)
                &&& 0 <= j < f.len()
                &&& #[trigger] f[j] is Mention && f[j]->moi
            },
{
    let v = markup::sections(s, membres, Some(moi));
    if markup::me_nomme(s, membres, moi) {
        let k = choose|k: int|
            0 <= k < v.len() && markup::section_me_mentionne(#[trigger] v[k]);
        let f = v[k]->Ligne_0;
        let j = choose|j: int|
            0 <= j < f.len() && (#[trigger] f[j] matches Morceau::Mention { moi: true, .. });
        assert(v[k] == Section::Ligne(f) && f[j] is Mention && f[j]->moi);
    }
    if exists|k: int, j: int, f: Seq<Morceau>|
        {
            &&& 0 <= k < v.len()
            &&& #[trigger] v[k] == Section::Ligne(f)
            &&& 0 <= j < f.len()
            &&& #[trigger] f[j] is Mention && f[j]->moi
        } {
        let (k, j, f) = choose|k: int, j: int, f: Seq<Morceau>|
            {
                &&& 0 <= k < v.len()
                &&& #[trigger] v[k] == Section::Ligne(f)
                &&& 0 <= j < f.len()
                &&& #[trigger] f[j] is Mention && f[j]->moi
            };
        assert(f[j] matches Morceau::Mention { moi: true, .. });
        assert(markup::section_me_mentionne(v[k]));
    }
}

/// Who is named at the start of a message is told: where the longest known name
/// that stands there after an `@` is the reader's, the message mentions them.
pub proof fn loi_nomme_en_tete(s: Seq<char>, membres: Seq<Seq<char>>, moi: Seq<char>, k: int)
    requires
        sans_cloture(s),
        !s.contains('\n') && !s.contains('\r'),
        0 <= k < membres.len(),
        nomme_a(s, 0, membres[k]),
        forall|l: int|
            0 <= l < membres.len() && nomme_a(s, 0, #[trigger] membres[l]) ==> membres[l].len()
                <= membres[k].len(),
        meme_nom(moi, s.subrange(1, 1 + membres[k].len() as int)),
    ensures
        markup::me_nomme(s, membres, moi),
{
    let lignes = loi_une_section_par_ligne(s, membres, Some(moi));
    loi_mention_en_tete(s, membres, Some(moi), k);
    let f = markup::morceaux(s, membres, Some(moi));
    let v = markup::sections(s, membres, Some(moi));
    if lignes.len() > 1 {
        let t = lignes[0] + seq!['\n'] + markup::jointes(lignes.drop_first());
        assert(s == t);
        assert(t[lignes[0].len() as int] == '\n');
        assert(s.contains('\n'));
    }
    assert(lignes[0] == s);
    if la(s, s.len() - 1, '\r') {
        assert(s.contains('\r'));
    }
    assert(v[0] == Section::Ligne(f));
    assert(f[0] is Mention && f[0]->moi);
    loi_mention_du_lecteur(s, membres, moi);
}

} // verus!
