//! Cutting a chat message into the pieces that are painted: links, mentions,
//! bold, italics, code.
//!
//! Four marks and no more: `**bold**`, `*italics*`, `` `code` `` and the
//! triple-backquote blocks, plus links and mentions. A message is cut, never
//! rewritten: every piece is a slice of the text that came in.

use crate::texte;
use vstd::prelude::*;

verus! {

/// A piece of a line, as it is painted.
#[derive(Debug, Clone, PartialEq, Eq)]
pub enum Fragment<'a> {
    Texte(&'a str),
    Lien(&'a str),
    /// A mention. `moi` tells "someone speaks of me" from "someone speaks of
    /// somebody".
    Mention { pseudo: &'a str, moi: bool },
    Gras(&'a str),
    Italique(&'a str),
    Code(&'a str),
}

/// A block of a message. Code blocks stand apart from the sentence.
#[derive(Debug, Clone, PartialEq, Eq)]
pub enum Bloc<'a> {
    Ligne(Vec<Fragment<'a>>),
    Code(&'a str),
}

/// What a [`Fragment`] holds, as sequences of characters.
pub enum Morceau {
    Texte(Seq<char>),
    Lien(Seq<char>),
    Mention { pseudo: Seq<char>, moi: bool },
    Gras(Seq<char>),
    Italique(Seq<char>),
    Code(Seq<char>),
}

/// What a [`Bloc`] holds.
pub enum Section {
    Ligne(Seq<Morceau>),
    Code(Seq<char>),
}

impl<'a> Fragment<'a> {
    pub open spec fn vue(self) -> Morceau {
        match self {
            Fragment::Texte(t) => Morceau::Texte(t@),
            Fragment::Lien(t) => Morceau::Lien(t@),
            Fragment::Mention { pseudo, moi } => Morceau::Mention { pseudo: pseudo@, moi },
            Fragment::Gras(t) => Morceau::Gras(t@),
            Fragment::Italique(t) => Morceau::Italique(t@),
            Fragment::Code(t) => Morceau::Code(t@),
        }
    }
}

/// The pieces that a list of fragments stands for.
pub open spec fn vues(f: Seq<Fragment>) -> Seq<Morceau> {
    f.map_values(|x: Fragment| x.vue())
}

impl<'a> Bloc<'a> {
    pub open spec fn vue(self) -> Section {
        match self {
            Bloc::Ligne(f) => Section::Ligne(vues(f@)),
            Bloc::Code(c) => Section::Code(c@),
        }
    }
}

/// The sections that a list of blocks stands for.
pub open spec fn vues_blocs(b: Seq<Bloc>) -> Seq<Section> {
    b.map_values(|x: Bloc| x.vue())
}

/// The names of a list of members.
pub open spec fn noms(membres: Seq<&str>) -> Seq<Seq<char>> {
    membres.map_values(|m: &str| m@)
}

/// The name of the reader, where it is known.
pub open spec fn nom(moi: Option<&str>) -> Option<Seq<char>> {
    match moi {
        Some(m) => Some(m@),
        None => None,
    }
}

// ---------------------------------------------------------------------
// What is recognised at one place of a line
// ---------------------------------------------------------------------

/// The place of the backquote that closes the literal code opened at `i`.
/// Empty code is no code.
pub open spec fn code_en(s: Seq<char>, i: int) -> Option<int> {
    if s[i] == '`' {
        match texte::indice(s, "`"@, i + 1) {
            Some(fin) => if fin > i + 1 { Some(fin) } else { None },
            None => None,
        }
    } else {
        None
    }
}

/// How often a character occurs in a text.
pub open spec fn compte(s: Seq<char>, c: char) -> nat
    decreases s.len(),
{
    if s.len() == 0 {
        0
    } else {
        compte(s.drop_last(), c) + if s.last() == c { 1nat } else { 0nat }
    }
}

/// Whether the last character of an address belongs to the sentence around
/// it: punctuation, or a closing bracket that the address did not open.
pub open spec fn a_rogner(lien: Seq<char>) -> bool {
    lien.len() > 0 && {
        let c = lien.last();
        ||| c == '.' || c == ',' || c == ';' || c == ':' || c == '!' || c == '?'
        ||| c == '»' || c == '"' || c == '\''
        ||| (c == ')' && compte(lien, '(') < compte(lien, ')'))
    }
}

/// An address without the punctuation that a sentence glues to its end.
pub open spec fn sans_ponctuation(lien: Seq<char>) -> Seq<char>
    decreases lien.len(),
{
    if a_rogner(lien) {
        sans_ponctuation(lien.drop_last())
    } else {
        lien
    }
}

/// Whether an address starts at `i`.
pub open spec fn debut_de_lien(s: Seq<char>, i: int) -> bool {
    texte::present_en(s, "http://"@, i) || texte::present_en(s, "https://"@, i)
}

/// The address that starts at `i`, up to the next white character and less
/// the punctuation of the sentence.
pub open spec fn lien_en(s: Seq<char>, i: int) -> Option<Seq<char>> {
    if debut_de_lien(s, i) {
        Some(sans_ponctuation(s.subrange(i, texte::prochain_blanc(s, i))))
    } else {
        None
    }
}

/// What stands between a mark at the start of `r` and the next such mark.
/// Nothing where that is empty, or starts or ends with a space.
pub open spec fn contenu_entoure(r: Seq<char>, marque: Seq<char>) -> Option<Seq<char>> {
    if texte::present_en(r, marque, 0) {
        let apres = r.skip(marque.len() as int);
        if (apres.len() > 0 && apres[0] == ' ') || texte::present_en(apres, marque, 0) {
            None
        } else {
            match texte::indice(apres, marque, 0) {
                Some(fin) => {
                    let contenu = apres.take(fin);
                    if contenu.len() == 0 || contenu.last() == ' ' {
                        None
                    } else {
                        Some(contenu)
                    }
                },
                None => None,
            }
        }
    } else {
        None
    }
}

/// Whether a name of `n` characters ends there: `@marie` does not catch on
/// the middle of `@mariette`.
pub open spec fn fin_nette(a: Seq<char>, n: int) -> bool {
    n >= a.len() || !(texte::est_alphanumerique(a[n]) || a[n] == '_' || a[n] == '-')
}

/// Whether the text after the `@` names this member.
pub open spec fn nomme(a: Seq<char>, membre: Seq<char>) -> bool {
    &&& 0 < membre.len() <= a.len()
    &&& texte::egal_sans_casse(a.take(membre.len() as int), membre)
    &&& fin_nette(a, membre.len() as int)
}

/// The length of the longest known name that the text after the `@` starts
/// with, 0 where there is none.
pub open spec fn longueur_mention(a: Seq<char>, membres: Seq<Seq<char>>) -> nat
    decreases membres.len(),
{
    if membres.len() == 0 {
        0
    } else {
        let avant = longueur_mention(a, membres.drop_last());
        let dernier = membres.last();
        if nomme(a, dernier) && dernier.len() > avant {
            dernier.len()
        } else {
            avant
        }
    }
}

/// Whether a name is the reader's own.
pub open spec fn est_moi(pseudo: Seq<char>, moi: Option<Seq<char>>) -> bool {
    match moi {
        Some(m) => texte::egal_sans_casse(m, pseudo),
        None => false,
    }
}

/// The mention that starts at `i`.
pub open spec fn mention_en(s: Seq<char>, i: int, membres: Seq<Seq<char>>) -> Option<Seq<char>> {
    if s[i] == '@' {
        let a = s.skip(i + 1);
        let n = longueur_mention(a, membres);
        if n > 0 {
            Some(a.take(n as int))
        } else {
            None
        }
    } else {
        None
    }
}

/// What is recognised at `i`, and where the text goes on after it. Literal
/// code first, then links, bold before italics, and mentions.
pub open spec fn marque_en(
    s: Seq<char>,
    i: int,
    membres: Seq<Seq<char>>,
    moi: Option<Seq<char>>,
) -> Option<(Morceau, int)> {
    if let Some(fin) = code_en(s, i) {
        Some((Morceau::Code(s.subrange(i + 1, fin)), fin + 1))
    } else if let Some(lien) = lien_en(s, i) {
        Some((Morceau::Lien(lien), i + lien.len()))
    } else if let Some(c) = contenu_entoure(s.skip(i), "**"@) {
        Some((Morceau::Gras(c), i + 4 + c.len()))
    } else if let Some(c) = contenu_entoure(s.skip(i), "*"@) {
        Some((Morceau::Italique(c), i + 2 + c.len()))
    } else if let Some(pseudo) = mention_en(s, i, membres) {
        Some((Morceau::Mention { pseudo, moi: est_moi(pseudo, moi) }, i + 1 + pseudo.len()))
    } else {
        None
    }
}

/// A stretch of ordinary text; an empty one leaves no piece.
pub open spec fn texte_brut(t: Seq<char>) -> Seq<Morceau> {
    if t.len() == 0 {
        Seq::empty()
    } else {
        seq![Morceau::Texte(t)]
    }
}

/// The pieces of the rest of a line, read from `i`, where the ordinary text
/// since `debut` is still to be put down.
pub open spec fn suite(
    s: Seq<char>,
    debut: int,
    i: int,
    membres: Seq<Seq<char>>,
    moi: Option<Seq<char>>,
) -> Seq<Morceau>
    decreases s.len() - i,
{
    if !(0 <= debut <= i < s.len()) {
        texte_brut(s.subrange(debut, s.len() as int))
    } else {
        match marque_en(s, i, membres, moi) {
            Some((m, n)) => {
                proof {
                    lemme_marque_avance(s, i, membres, moi);
                }
                texte_brut(s.subrange(debut, i)).push(m) + suite(s, n, n, membres, moi)
            },
            None => suite(s, debut, i + 1, membres, moi),
        }
    }
}

/// The pieces of a line. An empty line is one empty text.
pub open spec fn morceaux(
    s: Seq<char>,
    membres: Seq<Seq<char>>,
    moi: Option<Seq<char>>,
) -> Seq<Morceau> {
    let f = suite(s, 0, 0, membres, moi);
    if f.len() == 0 {
        seq![Morceau::Texte(Seq::empty())]
    } else {
        f
    }
}

/// How a piece was written in the message.
pub open spec fn rendu(m: Morceau) -> Seq<char> {
    match m {
        Morceau::Texte(t) => t,
        Morceau::Lien(t) => t,
        Morceau::Mention { pseudo, .. } => seq!['@'] + pseudo,
        Morceau::Gras(t) => "**"@ + t + "**"@,
        Morceau::Italique(t) => "*"@ + t + "*"@,
        Morceau::Code(t) => "`"@ + t + "`"@,
    }
}

/// How a list of pieces was written.
pub open spec fn rendus(f: Seq<Morceau>) -> Seq<char>
    decreases f.len(),
{
    if f.len() == 0 {
        Seq::empty()
    } else {
        rendus(f.drop_last()) + rendu(f.last())
    }
}

// ---------------------------------------------------------------------
// What holds of every recognised piece
// ---------------------------------------------------------------------

proof fn lemme_sans_ponctuation(lien: Seq<char>)
    ensures
        sans_ponctuation(lien).len() <= lien.len(),
        sans_ponctuation(lien) == lien.take(sans_ponctuation(lien).len() as int),
        forall|k: int|
            0 < k <= lien.len() && !(#[trigger] a_rogner(lien.take(k)))
                ==> sans_ponctuation(lien).len() >= k,
    decreases lien.len(),
{
    assert(lien.take(lien.len() as int) =~= lien);
    if a_rogner(lien) {
        let court = lien.drop_last();
        lemme_sans_ponctuation(court);
        assert forall|k: int| 0 < k <= lien.len() && !(#[trigger] a_rogner(
            lien.take(k),
        )) implies sans_ponctuation(lien).len() >= k by {
            assert(k < lien.len());
            assert(court.take(k) =~= lien.take(k));
        }
        let n = sans_ponctuation(court).len() as int;
        assert(court.take(n) =~= lien.take(n));
    }
}

proof fn lemme_lien(s: Seq<char>, i: int)
    requires
        0 <= i < s.len(),
        debut_de_lien(s, i),
    ensures
        i + lien_en(s, i)->0.len() <= s.len(),
        lien_en(s, i)->0.len() >= 7,
        lien_en(s, i)->0 == s.subrange(i, i + lien_en(s, i)->0.len()),
        forall|j: int|
            0 <= j < lien_en(s, i)->0.len() ==> !texte::est_blanc(#[trigger] lien_en(s, i)->0[j]),
{
    reveal_strlit("http://");
    reveal_strlit("https://");
    let h = if texte::present_en(s, "http://"@, i) {
        "http://"@
    } else {
        "https://"@
    };
    let n = h.len() as int;
    assert(s.subrange(i, i + n) == h);
    assert forall|j: int| i <= j < i + n implies !texte::est_blanc(#[trigger] s[j]) by {
        assert(s[j] == s.subrange(i, i + n)[j - i]);
        assert(h[j - i] == s[j]);
    }
    texte::lemme_prochain_blanc(s, i);
    let fin = texte::prochain_blanc(s, i);
    assert(fin >= i + n);
    let brut = s.subrange(i, fin);
    lemme_sans_ponctuation(brut);
    assert(brut.take(n) =~= h);
    assert(h.last() == '/');
    assert(!a_rogner(brut.take(n)));
    let l = sans_ponctuation(brut);
    assert(l =~= s.subrange(i, i + l.len()));
    assert forall|j: int| 0 <= j < l.len() implies !texte::est_blanc(#[trigger] l[j]) by {
        assert(l[j] == s[i + j]);
    }
}

proof fn lemme_entoure(s: Seq<char>, i: int, marque: Seq<char>)
    requires
        0 <= i < s.len(),
        contenu_entoure(s.skip(i), marque) is Some,
        marque.len() > 0,
    ensures
        ({
            let c = contenu_entoure(s.skip(i), marque)->0;
            let m = marque.len();
            &&& c.len() > 0
            &&& i + 2 * m + c.len() <= s.len()
            &&& s.subrange(i, i + 2 * m + c.len()) == marque + c + marque
        }),
{
    let r = s.skip(i);
    let m = marque.len() as int;
    let apres = r.skip(m);
    texte::lemme_indice(apres, marque, 0);
    let fin = texte::indice(apres, marque, 0)->0;
    let c = apres.take(fin);
    assert(r.subrange(0, m) == marque);
    assert(apres.subrange(fin, fin + m) == marque);
    let t = s.subrange(i, i + 2 * m + c.len());
    assert(t.len() == 2 * m + c.len());
    assert forall|j: int| 0 <= j < t.len() implies t[j] == (marque + c + marque)[j] by {
        if j < m {
            assert(t[j] == r.subrange(0, m)[j]);
        } else if j < m + fin {
            assert(t[j] == apres.take(fin)[j - m]);
        } else {
            assert(t[j] == apres.subrange(fin, fin + m)[j - m - fin]);
        }
    }
    assert(t =~= marque + c + marque);
}

proof fn lemme_longueur_mention(a: Seq<char>, membres: Seq<Seq<char>>)
    ensures
        longueur_mention(a, membres) <= a.len(),
        longueur_mention(a, membres) > 0 ==> exists|k: int|
            0 <= k < membres.len() && nomme(a, #[trigger] membres[k]) && membres[k].len()
                == longueur_mention(a, membres),
        forall|k: int|
            0 <= k < membres.len() && nomme(a, #[trigger] membres[k]) ==> membres[k].len()
                <= longueur_mention(a, membres),
    decreases membres.len(),
{
    if membres.len() > 0 {
        let avant = membres.drop_last();
        lemme_longueur_mention(a, avant);
        if longueur_mention(a, avant) > 0 {
            let k = choose|k: int|
                0 <= k < avant.len() && nomme(a, #[trigger] avant[k]) && avant[k].len()
                    == longueur_mention(a, avant);
            assert(membres[k] == avant[k]);
        }
        assert(membres[membres.len() - 1] == membres.last());
        assert forall|k: int| 0 <= k < membres.len() && nomme(
            a,
            #[trigger] membres[k],
        ) implies membres[k].len() <= longueur_mention(a, membres) by {
            if k < membres.len() - 1 {
                assert(avant[k] == membres[k]);
            }
        }
    }
}

/// Whatever is recognised at `i` takes at least one character, stays inside
/// the line, and reads in the line as it is rendered.
pub proof fn lemme_marque_avance(
    s: Seq<char>,
    i: int,
    membres: Seq<Seq<char>>,
    moi: Option<Seq<char>>,
)
    requires
        0 <= i < s.len(),
    ensures
        marque_en(s, i, membres, moi) matches Some((m, n)) ==> i < n <= s.len() && s.subrange(i, n)
            == rendu(m),
{
    reveal_strlit("`");
    reveal_strlit("*");
    reveal_strlit("**");
    if let Some(fin) = code_en(s, i) {
        texte::lemme_indice(s, "`"@, i + 1);
        assert(s.subrange(fin, fin + 1) == "`"@);
        assert(s[fin] == s.subrange(fin, fin + 1)[0]);
        assert(s.subrange(i, fin + 1) =~= "`"@ + s.subrange(i + 1, fin) + "`"@);
    } else if debut_de_lien(s, i) {
        lemme_lien(s, i);
    } else if let Some(c) = contenu_entoure(s.skip(i), "**"@) {
        lemme_entoure(s, i, "**"@);
    } else if let Some(c) = contenu_entoure(s.skip(i), "*"@) {
        lemme_entoure(s, i, "*"@);
    } else if let Some(p) = mention_en(s, i, membres) {
        lemme_longueur_mention(s.skip(i + 1), membres);
        assert(s.subrange(i, i + 1 + p.len()) =~= seq!['@'] + p);
    }
}

// ---------------------------------------------------------------------
// Lines and blocks
// ---------------------------------------------------------------------

/// A text without one line break at its start.
pub open spec fn sans_debut(s: Seq<char>) -> Seq<char> {
    if texte::present_en(s, "\r\n"@, 0) {
        s.skip(2)
    } else if s.len() > 0 && s[0] == '\n' {
        s.skip(1)
    } else {
        s
    }
}

/// A text without one carriage return at its end.
pub open spec fn sans_retour(s: Seq<char>) -> Seq<char> {
    if s.len() > 0 && s.last() == '\r' {
        s.drop_last()
    } else {
        s
    }
}

/// A text without one line break at its end.
pub open spec fn sans_fin(s: Seq<char>) -> Seq<char> {
    if s.len() > 0 && s.last() == '\n' {
        sans_retour(s.drop_last())
    } else {
        s
    }
}

/// A text without any line break at its end.
pub open spec fn sans_fins(s: Seq<char>) -> Seq<char>
    decreases s.len(),
{
    if s.len() > 0 && (s.last() == '\n' || s.last() == '\r') {
        sans_fins(s.drop_last())
    } else {
        s
    }
}

/// The content of a code block: without the line break that opens it and
/// those that close it.
pub open spec fn nettoye(s: Seq<char>) -> Seq<char> {
    sans_fins(sans_debut(s))
}

/// A text cut at its line feeds.
pub open spec fn coupe(s: Seq<char>) -> Seq<Seq<char>>
    decreases s.len(),
{
    match texte::indice(s, "\n"@, 0) {
        Some(k) => {
            proof {
                reveal_strlit("\n");
                texte::lemme_indice(s, "\n"@, 0);
            }
            seq![s.take(k)] + coupe(s.skip(k + 1))
        },
        None => seq![s],
    }
}

/// One section per line of a stretch of ordinary text, none for an empty one.
pub open spec fn sections_lignes(
    s: Seq<char>,
    membres: Seq<Seq<char>>,
    moi: Option<Seq<char>>,
) -> Seq<Section> {
    if s.len() == 0 {
        Seq::empty()
    } else {
        coupe(s).map_values(|l: Seq<char>| Section::Ligne(morceaux(sans_retour(l), membres, moi)))
    }
}

/// The sections of a message. A block of code that is never closed takes all
/// that follows.
pub open spec fn sections(
    s: Seq<char>,
    membres: Seq<Seq<char>>,
    moi: Option<Seq<char>>,
) -> Seq<Section>
    decreases s.len(),
{
    match texte::indice(s, "```"@, 0) {
        None => sections_lignes(s, membres, moi),
        Some(d) => {
            let avant = sections_lignes(sans_fin(s.take(d)), membres, moi);
            let apres = s.skip(d + 3);
            match texte::indice(apres, "```"@, 0) {
                None => avant.push(Section::Code(nettoye(apres))),
                Some(f) => {
                    proof {
                        reveal_strlit("```");
                        reveal_strlit("\r\n");
                        texte::lemme_indice(s, "```"@, 0);
                        texte::lemme_indice(apres, "```"@, 0);
                    }
                    avant.push(Section::Code(nettoye(apres.take(f)))) + sections(
                        sans_debut(apres.skip(f + 3)),
                        membres,
                        moi,
                    )
                },
            }
        },
    }
}

// ---------------------------------------------------------------------
// The cutting itself
// ---------------------------------------------------------------------

/// Cuts a message into blocks.
///
/// `membres` are the known names: an `@` before anything else is no mention.
/// `moi` is the name of the reader, whose own mention is told apart.
pub fn decouper<'a>(texte: &'a str, membres: &[&str], moi: Option<&str>) -> (blocs: Vec<Bloc<'a>>)
    ensures
        vues_blocs(blocs@) == sections(texte@, noms(membres@), nom(moi)),
{
    proof {
        reveal_strlit("```");
        reveal_strlit("\r\n");
    }
    let ghost ms = noms(membres@);
    let ghost nm = nom(moi);
    let mut blocs: Vec<Bloc<'a>> = Vec::new();
    let mut reste: &'a str = texte;
    assert(vues_blocs(blocs@) =~= Seq::empty());
    loop
        invariant
            "```"@.len() == 3,
            "\r\n"@.len() == 2,
            ms == noms(membres@),
            nm == nom(moi),
            vues_blocs(blocs@) + sections(reste@, ms, nm) == sections(texte@, ms, nm),
        decreases reste@.len(),
    {
        let v: Vec<char> = texte::caracteres(reste);
        proof {
            texte::lemme_indice(reste@, "```"@, 0);
        }
        let debut: usize = match texte::chercher(&v, "```", 0) {
            Some(d) => d,
            None => {
                pousser_lignes(&mut blocs, reste, membres, moi);
                return blocs;
            },
        };
        let n: usize = v.len();
        let ghost avant = vues_blocs(blocs@);
        assert(reste@.subrange(0, debut as int) =~= reste@.take(debut as int));
        assert(reste@.subrange(debut + 3, n as int) =~= reste@.skip(debut + 3));
        pousser_lignes(&mut blocs, sans_fin_de_ligne(reste.substring_char(0, debut)), membres, moi);
        let apres: &'a str = reste.substring_char(debut + 3, n);
        let w: Vec<char> = texte::caracteres(apres);
        proof {
            texte::lemme_indice(apres@, "```"@, 0);
        }
        match texte::chercher(&w, "```", 0) {
            Some(fin) => {
                let m: usize = w.len();
                assert(apres@.subrange(0, fin as int) =~= apres@.take(fin as int));
                assert(apres@.subrange(fin + 3, m as int) =~= apres@.skip(fin + 3));
                blocs.push(Bloc::Code(nettoyer_bloc(apres.substring_char(0, fin))));
                let suivant: &'a str = sans_debut_de_ligne(apres.substring_char(fin + 3, m));
                proof {
                    let code = Section::Code(nettoye(apres@.take(fin as int)));
                    let lignes = sections_lignes(sans_fin(reste@.take(debut as int)), ms, nm);
                    assert(vues_blocs(blocs@) =~= (avant + lignes).push(code));
                    assert(vues_blocs(blocs@) + sections(suivant@, ms, nm) =~= avant + (
                    lignes.push(code) + sections(suivant@, ms, nm)));
                    assert(suivant@.len() < reste@.len());
                    assert(sections(reste@, ms, nm) == lignes.push(code) + sections(
                        suivant@,
                        ms,
                        nm,
                    ));
                }
                reste = suivant;
            },
            None => {
                blocs.push(Bloc::Code(nettoyer_bloc(apres)));
                proof {
                    let code = Section::Code(nettoye(apres@));
                    let lignes = sections_lignes(sans_fin(reste@.take(debut as int)), ms, nm);
                    assert(vues_blocs(blocs@) =~= (avant + lignes).push(code));
                    assert((avant + lignes).push(code) =~= avant + lignes.push(code));
                }
                return blocs;
            },
        }
    }
}

/// Takes off the line break that opens a code block and those that close it,
/// and leaves its indentation alone.
pub fn nettoyer_bloc(bloc: &str) -> (r: &str)
    ensures
        r@ == nettoye(bloc@),
{
    let corps: &str = sans_debut_de_ligne(bloc);
    let v: Vec<char> = texte::caracteres(corps);
    let mut fin: usize = v.len();
    assert(corps@.take(fin as int) =~= corps@);
    while fin > 0 && (v[fin - 1] == '\n' || v[fin - 1] == '\r')
        invariant
            v@ == corps@,
            fin <= v@.len(),
            sans_fins(corps@.take(fin as int)) == sans_fins(corps@),
        decreases fin,
    {
        assert(corps@.take(fin as int).drop_last() =~= corps@.take(fin - 1));
        assert(corps@.take(fin as int).last() == v@[fin - 1]);
        fin -= 1;
    }
    assert(fin > 0 ==> corps@.take(fin as int).last() == v@[fin - 1]);
    assert(corps@.subrange(0, fin as int) =~= corps@.take(fin as int));
    corps.substring_char(0, fin)
}

/// Takes off one line break at the start, and only one: a line that its
/// author left empty stays an empty line.
pub fn sans_debut_de_ligne(texte: &str) -> (r: &str)
    ensures
        r@ == sans_debut(texte@),
{
    proof {
        reveal_strlit("\r\n");
    }
    let v: Vec<char> = texte::caracteres(texte);
    let n: usize = v.len();
    if texte::present(&v, "\r\n", 0) {
        assert(texte@.subrange(2, n as int) =~= texte@.skip(2));
        texte.substring_char(2, n)
    } else if n > 0 && v[0] == '\n' {
        assert(texte@.subrange(1, n as int) =~= texte@.skip(1));
        texte.substring_char(1, n)
    } else {
        texte
    }
}

/// Takes off one line break at the end, for the same reason.
pub fn sans_fin_de_ligne(texte: &str) -> (r: &str)
    ensures
        r@ == sans_fin(texte@),
{
    let v: Vec<char> = texte::caracteres(texte);
    let n: usize = v.len();
    if n > 0 && v[n - 1] == '\n' {
        assert(texte@.drop_last() =~= texte@.subrange(0, n - 1));
        if n > 1 && v[n - 2] == '\r' {
            assert(texte@.drop_last().drop_last() =~= texte@.subrange(0, n - 2));
            texte.substring_char(0, n - 2)
        } else {
            texte.substring_char(0, n - 1)
        }
    } else {
        texte
    }
}

/// Adds one block per line of a stretch of ordinary text.
pub fn pousser_lignes<'a>(
    blocs: &mut Vec<Bloc<'a>>,
    texte: &'a str,
    membres: &[&str],
    moi: Option<&str>,
)
    ensures
        vues_blocs(final(blocs)@) == vues_blocs(old(blocs)@) + sections_lignes(
            texte@,
            noms(membres@),
            nom(moi),
        ),
{
    proof {
        reveal_strlit("\n");
    }
    let ghost ms = noms(membres@);
    let ghost nm = nom(moi);
    let ghost f = |l: Seq<char>| Section::Ligne(morceaux(sans_retour(l), ms, nm));
    if texte.is_empty() {
        assert(vues_blocs(old(blocs)@) + Seq::<Section>::empty() =~= vues_blocs(old(blocs)@));
        return;
    }
    let ghost avant = vues_blocs(old(blocs)@);
    let mut reste: &'a str = texte;
    loop
        invariant
            "\n"@.len() == 1,
            ms == noms(membres@),
            nm == nom(moi),
            f == (|l: Seq<char>| Section::Ligne(morceaux(sans_retour(l), ms, nm))),
            avant == vues_blocs(old(blocs)@),
            texte@.len() > 0,
            vues_blocs(blocs@) + coupe(reste@).map_values(f) == avant + coupe(texte@).map_values(f),
        decreases reste@.len(),
    {
        let v: Vec<char> = texte::caracteres(reste);
        proof {
            texte::lemme_indice(reste@, "\n"@, 0);
        }
        let ghost deja = vues_blocs(blocs@);
        match texte::chercher(&v, "\n", 0) {
            Some(k) => {
                let n: usize = v.len();
                assert(reste@.subrange(0, k as int) =~= reste@.take(k as int));
                assert(reste@.subrange(k + 1, n as int) =~= reste@.skip(k + 1));
                let ligne: &'a str = sans_retour_de_ligne(reste.substring_char(0, k));
                blocs.push(Bloc::Ligne(fragments(ligne, membres, moi)));
                let suivant: &'a str = reste.substring_char(k + 1, n);
                proof {
                    let a = f(reste@.take(k as int));
                    assert(vues_blocs(blocs@) =~= deja.push(a));
                    assert((seq![reste@.take(k as int)] + coupe(suivant@)).map_values(f) =~= seq![a]
                        + coupe(suivant@).map_values(f));
                    assert(deja.push(a) + coupe(suivant@).map_values(f) =~= deja + (seq![a] + coupe(
                        suivant@,
                    ).map_values(f)));
                }
                reste = suivant;
            },
            None => {
                let ligne: &'a str = sans_retour_de_ligne(reste);
                blocs.push(Bloc::Ligne(fragments(ligne, membres, moi)));
                proof {
                    let a = f(reste@);
                    assert(vues_blocs(blocs@) =~= deja.push(a));
                    assert(seq![reste@].map_values(f) =~= seq![a]);
                    assert(deja.push(a) =~= deja + seq![a]);
                    assert(coupe(texte@).map_values(f) =~= sections_lignes(texte@, ms, nm));
                }
                return;
            },
        }
    }
}

/// A line without the carriage return that may end it.
pub(crate) fn sans_retour_de_ligne(ligne: &str) -> (r: &str)
    ensures
        r@ == sans_retour(ligne@),
{
    let v: Vec<char> = texte::caracteres(ligne);
    let n: usize = v.len();
    if n > 0 && v[n - 1] == '\r' {
        assert(ligne@.drop_last() =~= ligne@.subrange(0, n - 1));
        ligne.substring_char(0, n - 1)
    } else {
        ligne
    }
}

/// Cuts a line into fragments.
pub fn fragments<'a>(ligne: &'a str, membres: &[&str], moi: Option<&str>) -> (out: Vec<
    Fragment<'a>,
>)
    ensures
        vues(out@) == morceaux(ligne@, noms(membres@), nom(moi)),
{
    let ghost ms = noms(membres@);
    let ghost nm = nom(moi);
    let mut out: Vec<Fragment<'a>> = Vec::new();
    let s: Vec<char> = texte::caracteres(ligne);
    let n: usize = s.len();
    let mut debut: usize = 0;
    let mut i: usize = 0;
    assert(vues(out@) + suite(s@, 0, 0, ms, nm) =~= suite(s@, 0, 0, ms, nm));
    while i < n
        invariant
            ms == noms(membres@),
            nm == nom(moi),
            s@ == ligne@,
            n == s@.len(),
            debut <= i <= n,
            vues(out@) + suite(s@, debut as int, i as int, ms, nm) == suite(s@, 0, 0, ms, nm),
        decreases n - i,
    {
        let ghost deja = vues(out@);
        let ghost j = i as int;
        proof {
            lemme_marque_avance(s@, j, ms, nm);
        }
        let trouve: Option<(Fragment<'a>, usize)> = reconnaitre(ligne, &s, i, membres, moi);
        match trouve {
            Some((f, suivant)) => {
                pousser_texte(&mut out, ligne.substring_char(debut, i));
                out.push(f);
                proof {
                    let brut = texte_brut(s@.subrange(debut as int, j));
                    let k = suivant as int;
                    assert(vues(out@) =~= (deja + brut).push(f.vue()));
                    assert(vues(out@) + suite(s@, k, k, ms, nm) =~= deja + (brut.push(f.vue())
                        + suite(s@, k, k, ms, nm)));
                }
                i = suivant;
                debut = suivant;
            },
            None => {
                i += 1;
            },
        }
    }
    pousser_texte(&mut out, ligne.substring_char(debut, n));
    assert(vues(out@) == suite(s@, 0, 0, ms, nm));
    if out.len() == 0 {
        let vide: &'a str = ligne.substring_char(0, 0);
        assert(vide@ =~= Seq::<char>::empty());
        out.push(Fragment::Texte(vide));
        assert(vues(out@) =~= seq![Morceau::Texte(Seq::empty())]);
    }
    out
}

proof fn lemme_autre_debut(s: Seq<char>, i: int, motif: Seq<char>)
    requires
        0 <= i < s.len(),
        motif.len() > 0,
        s[i] != motif[0],
    ensures
        !texte::present_en(s, motif, i),
{
    if texte::present_en(s, motif, i) {
        assert(s[i] == s.subrange(i, i + motif.len())[0]);
    }
}

proof fn lemme_pas_entoure(s: Seq<char>, i: int, marque: Seq<char>)
    requires
        0 <= i < s.len(),
        marque.len() > 0,
        s[i] != marque[0],
    ensures
        contenu_entoure(s.skip(i), marque) is None,
{
    assert(s.skip(i)[0] == s[i]);
    lemme_autre_debut(s.skip(i), 0, marque);
}

/// What is recognised at `i`, and where the line goes on after it.
fn reconnaitre<'a>(
    ligne: &'a str,
    s: &Vec<char>,
    i: usize,
    membres: &[&str],
    moi: Option<&str>,
) -> (r: Option<(Fragment<'a>, usize)>)
    requires
        s@ == ligne@,
        i < s@.len(),
    ensures
        match r {
            Some((f, n)) => marque_en(s@, i as int, noms(membres@), nom(moi)) == Some(
                (f.vue(), n as int),
            ),
            None => marque_en(s@, i as int, noms(membres@), nom(moi)) is None,
        },
{
    let n: usize = s.len();
    let ghost j = i as int;
    proof {
        reveal_strlit("`");
        reveal_strlit("*");
        reveal_strlit("**");
        reveal_strlit("http://");
        reveal_strlit("https://");
        lemme_marque_avance(s@, j, noms(membres@), nom(moi));
        if s@[j] != 'h' {
            lemme_autre_debut(s@, j, "http://"@);
            lemme_autre_debut(s@, j, "https://"@);
        }
        if s@[j] != '*' {
            lemme_pas_entoure(s@, j, "*"@);
            lemme_pas_entoure(s@, j, "**"@);
        }
        texte::lemme_indice(s@, "`"@, j + 1);
    }
    if s[i] == '`' {
        if let Some(fin) = texte::chercher(s, "`", i + 1) {
            if fin > i + 1 {
                return Some((Fragment::Code(ligne.substring_char(i + 1, fin)), fin + 1));
            }
        }
    }
    if s[i] == 'h' {
        if texte::present(s, "http://", i) || texte::present(s, "https://", i) {
            let fin: usize = texte::chercher_blanc(s, i);
            let lien: &'a str = rogner_ponctuation(ligne.substring_char(i, fin));
            proof {
                lemme_lien(s@, j);
            }
            let l: usize = lien.unicode_len();
            return Some((Fragment::Lien(lien), i + l));
        }
    }
    if s[i] == '*' {
        assert(s@.skip(j) =~= ligne@.subrange(j, n as int));
        let reste: &'a str = ligne.substring_char(i, n);
        if let Some(c) = entoure(reste, "**") {
            proof {
                lemme_entoure(s@, j, "**"@);
            }
            let l: usize = c.unicode_len();
            return Some((Fragment::Gras(c), i + 4 + l));
        }
        if let Some(c) = entoure(reste, "*") {
            proof {
                lemme_entoure(s@, j, "*"@);
            }
            let l: usize = c.unicode_len();
            return Some((Fragment::Italique(c), i + 2 + l));
        }
    }
    if s[i] == '@' {
        assert(s@.skip(j + 1) =~= ligne@.subrange(j + 1, n as int));
        if let Some(pseudo) = mention(ligne.substring_char(i + 1, n), membres) {
            let a_moi: bool = match moi {
                Some(m) => egal_casse(m, pseudo),
                None => false,
            };
            let l: usize = pseudo.unicode_len();
            return Some((Fragment::Mention { pseudo, moi: a_moi }, i + 1 + l));
        }
    }
    None
}

/// Whether two strings differ at most by the case of ASCII letters.
fn egal_casse(a: &str, b: &str) -> (r: bool)
    ensures
        r == texte::egal_sans_casse(a@, b@),
{
    let x: Vec<char> = texte::caracteres(a);
    let y: Vec<char> = texte::caracteres(b);
    assert(x@.take(x@.len() as int) =~= x@);
    x.len() == y.len() && debut_egal(&x, &y)
}

/// Whether `x` starts with `y`, up to the case of ASCII letters.
fn debut_egal(x: &Vec<char>, y: &Vec<char>) -> (r: bool)
    requires
        y@.len() <= x@.len(),
    ensures
        r == texte::egal_sans_casse(x@.take(y@.len() as int), y@),
{
    let mut k: usize = 0;
    while k < y.len()
        invariant
            k <= y@.len() <= x@.len(),
            forall|j: int|
                0 <= j < k ==> texte::minuscule_ascii(#[trigger] x@[j]) == texte::minuscule_ascii(
                    y@[j],
                ),
        decreases y@.len() - k,
    {
        if texte::en_minuscule_ascii(x[k]) != texte::en_minuscule_ascii(y[k]) {
            assert(x@.take(y@.len() as int)[k as int] == x@[k as int]);
            return false;
        }
        k += 1;
    }
    true
}

/// Adds a stretch of ordinary text, unless it is empty.
pub fn pousser_texte<'a>(out: &mut Vec<Fragment<'a>>, texte: &'a str)
    ensures
        vues(final(out)@) == vues(old(out)@) + texte_brut(texte@),
{
    if !texte.is_empty() {
        out.push(Fragment::Texte(texte));
    }
    assert(vues(out@) =~= vues(old(out)@) + texte_brut(texte@));
}

/// What the mark surrounds at the start of `reste`, if anything.
///
/// `a * b * c` is arithmetic: a content that is empty, or that a space
/// separates from its marks, is none.
pub fn entoure<'a>(reste: &'a str, marque: &str) -> (r: Option<&'a str>)
    ensures
        match r {
            Some(c) => contenu_entoure(reste@, marque@) == Some(c@),
            None => contenu_entoure(reste@, marque@) is None,
        },
{
    let v: Vec<char> = texte::caracteres(reste);
    if !texte::present(&v, marque, 0) {
        return None;
    }
    let m: usize = marque.unicode_len();
    let n: usize = v.len();
    assert(reste@.subrange(m as int, n as int) =~= reste@.skip(m as int));
    let apres: &'a str = reste.substring_char(m, n);
    let w: Vec<char> = texte::caracteres(apres);
    if (w.len() > 0 && w[0] == ' ') || texte::present(&w, marque, 0) {
        return None;
    }
    proof {
        texte::lemme_indice(apres@, marque@, 0);
    }
    match texte::chercher(&w, marque, 0) {
        Some(fin) => {
            assert(apres@.subrange(0, fin as int) =~= apres@.take(fin as int));
            if fin == 0 || w[fin - 1] == ' ' {
                None
            } else {
                Some(apres.substring_char(0, fin))
            }
        },
        None => None,
    }
}

/// The known name that stands right after an `@`, the longest one: without
/// that, `@marie-claire` would point at `marie`.
pub fn mention<'a>(apres_arobase: &'a str, membres: &[&str]) -> (r: Option<&'a str>)
    ensures
        match r {
            Some(p) => p@.len() > 0 && p@ == apres_arobase@.take(
                longueur_mention(apres_arobase@, noms(membres@)) as int,
            ),
            None => longueur_mention(apres_arobase@, noms(membres@)) == 0,
        },
{
    let a: Vec<char> = texte::caracteres(apres_arobase);
    let n: usize = a.len();
    let ghost ms = noms(membres@);
    let mut meilleur: usize = 0;
    let mut k: usize = 0;
    while k < membres.len()
        invariant
            a@ == apres_arobase@,
            n == a@.len(),
            ms == noms(membres@),
            k <= membres@.len(),
            meilleur <= n,
            meilleur == longueur_mention(a@, ms.take(k as int)),
        decreases membres@.len() - k,
    {
        let membre: Vec<char> = texte::caracteres(membres[k]);
        let l: usize = membre.len();
        assert(ms.take(k + 1).drop_last() =~= ms.take(k as int));
        assert(ms.take(k + 1).last() == membre@);
        if 0 < l && l <= n && debut_egal(&a, &membre) && (l == n || !(a[l].is_alphanumeric()
            || a[l] == '_' || a[l] == '-')) {
            if l > meilleur {
                meilleur = l;
            }
        }
        k += 1;
    }
    assert(ms.take(k as int) =~= ms);
    if meilleur == 0 {
        None
    } else {
        assert(a@.subrange(0, meilleur as int) =~= a@.take(meilleur as int));
        Some(apres_arobase.substring_char(0, meilleur))
    }
}

/// How often a character occurs among the first `fin` ones.
fn compter(v: &Vec<char>, fin: usize, c: char) -> (r: usize)
    requires
        fin <= v@.len(),
    ensures
        r == compte(v@.take(fin as int), c),
        r <= fin,
{
    let mut r: usize = 0;
    let mut k: usize = 0;
    while k < fin
        invariant
            k <= fin <= v@.len(),
            r == compte(v@.take(k as int), c),
            r <= k,
        decreases fin - k,
    {
        assert(v@.take(k + 1).drop_last() =~= v@.take(k as int));
        if v[k] == c {
            r += 1;
        }
        k += 1;
    }
    r
}

/// Takes off the punctuation that a sentence glues to the end of an address.
/// Brackets are counted: some addresses hold them by right.
pub fn rogner_ponctuation(lien: &str) -> (r: &str)
    ensures
        r@ == sans_ponctuation(lien@),
{
    let v: Vec<char> = texte::caracteres(lien);
    let mut fin: usize = v.len();
    assert(lien@.take(fin as int) =~= lien@);
    while fin > 0
        invariant
            v@ == lien@,
            fin <= v@.len(),
            sans_ponctuation(lien@.take(fin as int)) == sans_ponctuation(lien@),
        decreases fin,
    {
        let c: char = v[fin - 1];
        assert(lien@.take(fin as int).last() == c);
        let a_retirer: bool = c == '.' || c == ',' || c == ';' || c == ':' || c == '!' || c == '?'
            || c == '»' || c == '"' || c == '\'' || (c == ')' && compter(&v, fin, '(') < compter(
            &v,
            fin,
            ')',
        ));
        if !a_retirer {
            assert(lien@.subrange(0, fin as int) =~= lien@.take(fin as int));
            return lien.substring_char(0, fin);
        }
        assert(lien@.take(fin as int).drop_last() =~= lien@.take(fin - 1));
        fin -= 1;
    }
    assert(lien@.subrange(0, 0) =~= lien@.take(0));
    lien.substring_char(0, 0)
}

/// Whether a section mentions the reader.
pub open spec fn section_me_mentionne(b: Section) -> bool {
    match b {
        Section::Code(_) => false,
        Section::Ligne(f) => exists|j: int|
            0 <= j < f.len() && (#[trigger] f[j] matches Morceau::Mention { moi: true, .. }),
    }
}

/// A section of this message mentions the reader.
pub open spec fn me_nomme(texte: Seq<char>, membres: Seq<Seq<char>>, moi: Seq<char>) -> bool {
    exists|k: int|
        0 <= k < sections(texte, membres, Some(moi)).len() && section_me_mentionne(
            #[trigger] sections(texte, membres, Some(moi))[k],
        )
}

/// Does this message mention me? Only a mention of the reader counts, and
/// what stands in a code block is quoted, not addressed.
pub fn me_mentionne(texte: &str, membres: &[&str], moi: &str) -> (r: bool)
    ensures
        r == me_nomme(texte@, noms(membres@), moi@),
{
    let blocs: Vec<Bloc> = decouper(texte, membres, Some(moi));
    let ghost secs = sections(texte@, noms(membres@), Some(moi@));
    let mut k: usize = 0;
    while k < blocs.len()
        invariant
            secs == sections(texte@, noms(membres@), Some(moi@)),
            vues_blocs(blocs@) == secs,
            k <= blocs@.len(),
            forall|q: int| 0 <= q < k ==> !section_me_mentionne(#[trigger] secs[q]),
        decreases blocs@.len() - k,
    {
        assert(secs[k as int] == blocs@[k as int].vue());
        if let Bloc::Ligne(f) = &blocs[k] {
            let mut j: usize = 0;
            while j < f.len()
                invariant
                    secs == sections(texte@, noms(membres@), Some(moi@)),
                    k < secs.len(),
                    secs[k as int] == Section::Ligne(vues(f@)),
                    j <= f@.len(),
                    forall|q: int|
                        0 <= q < j ==> !(#[trigger] vues(f@)[q] matches Morceau::Mention {
                            moi: true,
                            ..
                        }),
                decreases f@.len() - j,
            {
                assert(vues(f@)[j as int] == f@[j as int].vue());
                if let Fragment::Mention { moi: a_moi, .. } = &f[j] {
                    if *a_moi {
                        assert(vues(f@)[j as int] matches Morceau::Mention { moi: true, .. });
                        assert(section_me_mentionne(secs[k as int]));
                        return true;
                    }
                }
                j += 1;
            }
        }
        k += 1;
    }
    false
}

// ---------------------------------------------------------------------
// What the cutting promises
// ---------------------------------------------------------------------

proof fn lemme_rendus_bout_a_bout(a: Seq<Morceau>, b: Seq<Morceau>)
    ensures
        rendus(a + b) == rendus(a) + rendus(b),
    decreases b.len(),
{
    if b.len() == 0 {
        assert(a + b =~= a);
        assert(rendus(a) + rendus(b) =~= rendus(a));
    } else {
        lemme_rendus_bout_a_bout(a, b.drop_last());
        assert((a + b).drop_last() =~= a + b.drop_last());
        assert(rendus(a + b) =~= rendus(a) + rendus(b));
    }
}

proof fn lemme_suite_se_relit(
    s: Seq<char>,
    debut: int,
    i: int,
    membres: Seq<Seq<char>>,
    moi: Option<Seq<char>>,
)
    requires
        0 <= debut <= i <= s.len(),
    ensures
        rendus(suite(s, debut, i, membres, moi)) == s.subrange(debut, s.len() as int),
    decreases s.len() - i,
{
    reveal_with_fuel(rendus, 2);
    let fin = s.len() as int;
    if i >= s.len() {
        assert(rendus(texte_brut(s.subrange(debut, fin))) =~= s.subrange(debut, fin));
    } else {
        lemme_marque_avance(s, i, membres, moi);
        match marque_en(s, i, membres, moi) {
            Some((m, n)) => {
                lemme_suite_se_relit(s, n, n, membres, moi);
                let brut = texte_brut(s.subrange(debut, i));
                let apres = suite(s, n, n, membres, moi);
                lemme_rendus_bout_a_bout(brut.push(m), apres);
                assert(brut.push(m).drop_last() =~= brut);
                assert(rendus(brut) =~= s.subrange(debut, i));
                assert(rendus(brut.push(m)) =~= s.subrange(debut, n));
                assert(s.subrange(debut, n) + s.subrange(n, fin) =~= s.subrange(debut, fin));
            },
            None => {
                lemme_suite_se_relit(s, debut, i + 1, membres, moi);
            },
        }
    }
}

/// The pieces of a line, written one after the other with their marks, give
/// the line back: nothing is lost, doubled or cut in the middle.
pub proof fn loi_ligne_se_relit(s: Seq<char>, membres: Seq<Seq<char>>, moi: Option<Seq<char>>)
    ensures
        rendus(morceaux(s, membres, moi)) == s,
{
    reveal_with_fuel(rendus, 2);
    lemme_suite_se_relit(s, 0, 0, membres, moi);
    assert(s.subrange(0, s.len() as int) =~= s);
    let f = suite(s, 0, 0, membres, moi);
    if f.len() == 0 {
        assert(f =~= Seq::empty());
        assert(rendus(morceaux(s, membres, moi)) =~= s);
    }
}

/// Lines put back together, one line feed between two of them.
pub open spec fn jointes(lignes: Seq<Seq<char>>) -> Seq<char>
    decreases lignes.len(),
{
    if lignes.len() == 0 {
        Seq::empty()
    } else if lignes.len() == 1 {
        lignes[0]
    } else {
        lignes[0] + seq!['\n'] + jointes(lignes.drop_first())
    }
}

/// How a section was written.
pub open spec fn rendu_section(b: Section) -> Seq<char> {
    match b {
        Section::Ligne(f) => rendus(f),
        Section::Code(c) => c,
    }
}

proof fn lemme_coupe(s: Seq<char>)
    ensures
        coupe(s).len() > 0,
        jointes(coupe(s)) == s,
        forall|k: int, c: char|
            0 <= k < coupe(s).len() && #[trigger] coupe(s)[k].contains(c) ==> s.contains(c),
    decreases s.len(),
{
    reveal_strlit("\n");
    texte::lemme_indice(s, "\n"@, 0);
    match texte::indice(s, "\n"@, 0) {
        Some(k) => {
            let apres = s.skip(k + 1);
            lemme_coupe(apres);
            assert(coupe(s).drop_first() =~= coupe(apres));
            assert(s.subrange(k, k + 1) == "\n"@);
            assert(s[k] == s.subrange(k, k + 1)[0]);
            assert(jointes(coupe(s)) =~= s);
            assert forall|q: int, c: char|
                0 <= q < coupe(s).len() && #[trigger] coupe(s)[q].contains(c) implies s.contains(
                c,
            ) by {
                if q == 0 {
                    let j = choose|j: int| 0 <= j < s.take(k).len() && s.take(k)[j] == c;
                    assert(s[j] == c);
                } else {
                    assert(coupe(s)[q] == coupe(apres)[q - 1]);
                    assert(apres.contains(c));
                    let j = choose|j: int| 0 <= j < apres.len() && apres[j] == c;
                    assert(s[k + 1 + j] == c);
                }
            }
        },
        None => {},
    }
}

/// A message without code blocks and without carriage returns gives one line
/// per line, and these, put back together, give the message.
pub proof fn loi_message_se_relit(s: Seq<char>, membres: Seq<Seq<char>>, moi: Option<Seq<char>>)
    requires
        s.len() > 0,
        texte::indice(s, "```"@, 0) is None,
        !s.contains('\r'),
    ensures
        jointes(sections(s, membres, moi).map_values(|b: Section| rendu_section(b))) == s,
{
    lemme_coupe(s);
    let f = |b: Section| rendu_section(b);
    let lus = sections(s, membres, moi).map_values(f);
    assert forall|k: int| 0 <= k < lus.len() implies lus[k] == coupe(s)[k] by {
        let l = coupe(s)[k];
        if l.len() > 0 && l.last() == '\r' {
            assert(l.contains('\r'));
        }
        loi_ligne_se_relit(l, membres, moi);
    }
    assert(lus =~= coupe(s));
}

/// What a piece always is: a link starts as one, holds nothing white and ends
/// without the sentence's punctuation; a mention names a known member; marked
/// text is not empty; code holds no backquote.
pub open spec fn bien_forme(
    m: Morceau,
    membres: Seq<Seq<char>>,
    moi: Option<Seq<char>>,
) -> bool {
    match m {
        Morceau::Texte(t) => true,
        Morceau::Lien(l) => {
            &&& debut_de_lien(l, 0)
            &&& forall|j: int| 0 <= j < l.len() ==> !texte::est_blanc(#[trigger] l[j])
            &&& !a_rogner(l)
        },
        Morceau::Mention { pseudo, moi: b } => {
            &&& exists|k: int|
                0 <= k < membres.len() && texte::egal_sans_casse(pseudo, #[trigger] membres[k])
            &&& pseudo.len() > 0
            &&& b == est_moi(pseudo, moi)
        },
        Morceau::Gras(c) | Morceau::Italique(c) => c.len() > 0 && c[0] != ' ' && c.last() != ' ',
        Morceau::Code(c) => c.len() > 0 && !c.contains('`'),
    }
}

proof fn lemme_fin_de_rognage(l: Seq<char>)
    ensures
        !a_rogner(sans_ponctuation(l)),
    decreases l.len(),
{
    if a_rogner(l) {
        lemme_fin_de_rognage(l.drop_last());
    }
}

proof fn lemme_marque_bien_formee(
    s: Seq<char>,
    i: int,
    membres: Seq<Seq<char>>,
    moi: Option<Seq<char>>,
)
    requires
        0 <= i < s.len(),
    ensures
        marque_en(s, i, membres, moi) matches Some((m, n)) ==> bien_forme(m, membres, moi),
{
    reveal_strlit("`");
    reveal_strlit("*");
    reveal_strlit("**");
    if let Some(fin) = code_en(s, i) {
        texte::lemme_indice(s, "`"@, i + 1);
        let c = s.subrange(i + 1, fin);
        if c.contains('`') {
            let j = choose|j: int| 0 <= j < c.len() && c[j] == '`';
            assert(s.subrange(i + 1 + j, i + 2 + j) =~= "`"@);
            assert(texte::present_en(s, "`"@, i + 1 + j));
        }
    } else if debut_de_lien(s, i) {
        lemme_lien(s, i);
        let l = lien_en(s, i)->0;
        lemme_fin_de_rognage(s.subrange(i, texte::prochain_blanc(s, i)));
        reveal_strlit("http://");
        reveal_strlit("https://");
        let h = if texte::present_en(s, "http://"@, i) {
            "http://"@
        } else {
            "https://"@
        };
        let brut = s.subrange(i, texte::prochain_blanc(s, i));
        lemme_lien_entier(s, i, h);
        assert(l.subrange(0, h.len() as int) =~= s.subrange(i, i + h.len()));
    } else if let Some(c) = contenu_entoure(s.skip(i), "**"@) {
        lemme_bords(s, i, "**"@);
    } else if let Some(c) = contenu_entoure(s.skip(i), "*"@) {
        lemme_bords(s, i, "*"@);
    } else if let Some(p) = mention_en(s, i, membres) {
        let a = s.skip(i + 1);
        lemme_longueur_mention(a, membres);
        let k = choose|k: int|
            0 <= k < membres.len() && nomme(a, #[trigger] membres[k]) && membres[k].len()
                == longueur_mention(a, membres);
        assert(texte::egal_sans_casse(p, membres[k]));
    }
}

/// Trimming never reaches into the scheme of an address.
proof fn lemme_lien_entier(s: Seq<char>, i: int, h: Seq<char>)
    requires
        0 <= i < s.len(),
        h == "http://"@ || h == "https://"@,
        texte::present_en(s, h, i),
    ensures
        lien_en(s, i) is Some,
        lien_en(s, i)->0.len() >= h.len(),
{
    reveal_strlit("http://");
    reveal_strlit("https://");
    let n = h.len() as int;
    assert forall|j: int| i <= j < i + n implies !texte::est_blanc(#[trigger] s[j]) by {
        assert(s[j] == s.subrange(i, i + n)[j - i]);
        assert(h[j - i] == s[j]);
    }
    texte::lemme_prochain_blanc(s, i);
    let brut = s.subrange(i, texte::prochain_blanc(s, i));
    assert(texte::prochain_blanc(s, i) >= i + n);
    lemme_sans_ponctuation(brut);
    assert(brut.take(n) =~= h);
    assert(!a_rogner(brut.take(n)));
}

proof fn lemme_bords(s: Seq<char>, i: int, marque: Seq<char>)
    requires
        0 <= i < s.len(),
        marque.len() > 0,
        contenu_entoure(s.skip(i), marque) is Some,
    ensures
        ({
            let c = contenu_entoure(s.skip(i), marque)->0;
            c.len() > 0 && c[0] != ' ' && c.last() != ' '
        }),
{
    let apres = s.skip(i).skip(marque.len() as int);
    texte::lemme_indice(apres, marque, 0);
    let fin = texte::indice(apres, marque, 0)->0;
    assert(apres.take(fin)[0] == apres[0]);
}

proof fn lemme_suite_bien_formee(
    s: Seq<char>,
    debut: int,
    i: int,
    membres: Seq<Seq<char>>,
    moi: Option<Seq<char>>,
)
    requires
        0 <= debut <= i <= s.len(),
    ensures
        ({
            let f = suite(s, debut, i, membres, moi);
            &&& forall|j: int| 0 <= j < f.len() ==> bien_forme(#[trigger] f[j], membres, moi)
            &&& forall|j: int|
                0 <= j < f.len() ==> (#[trigger] f[j] matches Morceau::Texte(t) ==> t.len() > 0)
            &&& forall|j: int, k: int|
                0 <= j && k == j + 1 && k < f.len() ==> !(#[trigger] f[j] is Texte
                    && #[trigger] f[k] is Texte)
        }),
    decreases s.len() - i,
{
    if i < s.len() {
        lemme_marque_avance(s, i, membres, moi);
        lemme_marque_bien_formee(s, i, membres, moi);
        match marque_en(s, i, membres, moi) {
            Some((m, n)) => {
                lemme_suite_bien_formee(s, n, n, membres, moi);
                let brut = texte_brut(s.subrange(debut, i));
                let apres = suite(s, n, n, membres, moi);
                let f = brut.push(m) + apres;
                let b = brut.len() as int;
                assert(m !is Texte);
                assert forall|j: int| 0 <= j < f.len() implies bien_forme(
                    #[trigger] f[j],
                    membres,
                    moi,
                ) && (f[j] matches Morceau::Texte(t) ==> t.len() > 0) by {
                    if j > b {
                        assert(f[j] == apres[j - b - 1]);
                    } else if j == b {
                        assert(f[j] == m);
                    } else {
                        assert(f[j] == brut[j]);
                    }
                }
                assert forall|j: int, k: int| 0 <= j && k == j + 1 && k < f.len() implies !(
                #[trigger] f[j] is Texte && #[trigger] f[k] is Texte) by {
                    if j > b {
                        assert(f[j] == apres[j - b - 1]);
                        assert(f[k] == apres[k - b - 1]);
                    } else if j == b {
                        assert(f[j] == m);
                    } else {
                        assert(f[k] == m);
                    }
                }
            },
            None => {
                lemme_suite_bien_formee(s, debut, i + 1, membres, moi);
            },
        }
    }
}

/// Every piece of a line is well formed, ordinary text is never empty (but
/// for an empty line) and never stands in two pieces side by side.
pub proof fn loi_morceaux_bien_formes(
    s: Seq<char>,
    membres: Seq<Seq<char>>,
    moi: Option<Seq<char>>,
)
    ensures
        ({
            let f = morceaux(s, membres, moi);
            &&& f.len() > 0
            &&& forall|j: int| 0 <= j < f.len() ==> bien_forme(#[trigger] f[j], membres, moi)
            &&& s.len() > 0 ==> forall|j: int|
                0 <= j < f.len() ==> (#[trigger] f[j] matches Morceau::Texte(t) ==> t.len() > 0)
            &&& forall|j: int, k: int|
                0 <= j && k == j + 1 && k < f.len() ==> !(#[trigger] f[j] is Texte
                    && #[trigger] f[k] is Texte)
        }),
{
    lemme_suite_bien_formee(s, 0, 0, membres, moi);
    lemme_suite_se_relit(s, 0, 0, membres, moi);
    assert(s.subrange(0, s.len() as int) =~= s);
}

/// The mention that is recognised is that of the longest known name: no other
/// member that the text names has a longer one.
pub proof fn loi_mention_la_plus_longue(a: Seq<char>, membres: Seq<Seq<char>>, k: int)
    requires
        0 <= k < membres.len(),
        nomme(a, membres[k]),
    ensures
        membres[k].len() <= longueur_mention(a, membres) <= a.len(),
{
    lemme_longueur_mention(a, membres);
}

} // verus!
