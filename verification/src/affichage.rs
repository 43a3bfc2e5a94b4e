//! How things are written on the screen: links, labels, addresses, hours and
//! days.

use crate::markup;
use crate::texte;
use chrono::{Datelike, NaiveDate, TimeZone, Timelike};
use vstd::prelude::*;

verus! {

// ---------------------------------------------------------------------
// Links
// ---------------------------------------------------------------------

/// A piece of a message: whether it is a link, and what it reads.
pub open spec fn vues(v: Seq<(bool, &str)>) -> Seq<(bool, Seq<char>)> {
    Seq::new(v.len(), |i: int| (v[i].0, v[i].1@))
}

/// The pieces of a message from `cursor` on, where plain text has been read
/// since `start`.
pub open spec fn pieces(s: Seq<char>, start: int, cursor: int) -> Seq<(bool, Seq<char>)>
    decreases s.len() - cursor,
{
    if cursor >= s.len() {
        if start < s.len() {
            seq![(false, s.subrange(start, s.len() as int))]
        } else {
            Seq::empty()
        }
    } else if markup::debut_de_lien(s, cursor) && cursor < texte::prochain_blanc(
        s,
        cursor,
    ) <= s.len() {
        let fin = texte::prochain_blanc(s, cursor);
        (if cursor > start {
            seq![(false, s.subrange(start, cursor))]
        } else {
            Seq::empty()
        }) + seq![(true, s.subrange(cursor, fin))] + pieces(s, fin, fin)
    } else {
        pieces(s, start, cursor + 1)
    }
}

/// A message cut into plain text and links. A message without a link is one
/// piece.
pub open spec fn decoupe(s: Seq<char>) -> Seq<(bool, Seq<char>)> {
    let p = pieces(s, 0, 0);
    if p.len() == 0 {
        seq![(false, s)]
    } else {
        p
    }
}

proof fn lemme_lien_avance(s: Seq<char>, i: int)
    requires
        0 <= i < s.len(),
        markup::debut_de_lien(s, i),
    ensures
        i < texte::prochain_blanc(s, i) <= s.len(),
{
    reveal_strlit("http://");
    reveal_strlit("https://");
    texte::lemme_prochain_blanc(s, i);
    if texte::present_en(s, "http://"@, i) {
        assert(s.subrange(i, i + 7)[0] == s[i]);
        assert(s[i] == 'h');
    } else {
        assert(s.subrange(i, i + 8)[0] == s[i]);
        assert(s[i] == 'h');
    }
    assert(!texte::est_blanc('h'));
}

/// Cuts a message into plain text and links. Blanks stay with the text.
pub fn split_links(text: &str) -> (parts: Vec<(bool, &str)>)
    ensures
        vues(parts@) == decoupe(text@),
{
    let c: Vec<char> = texte::caracteres(text);
    let n: usize = c.len();
    let mut parts: Vec<(bool, &str)> = Vec::new();
    let mut cursor: usize = 0;
    let mut start: usize = 0;
    assert(vues(parts@) + pieces(text@, 0, 0) =~= pieces(text@, 0, 0));
    while cursor < n
        invariant
            c@ == text@,
            n == text@.len(),
            start <= cursor <= n,
            vues(parts@) + pieces(text@, start as int, cursor as int) == pieces(text@, 0, 0),
        decreases n - cursor,
    {
        let lien: bool = texte::present(&c, "http://", cursor) || texte::present(
            &c,
            "https://",
            cursor,
        );
        if lien {
            proof {
                lemme_lien_avance(text@, cursor as int);
            }
            let ghost avant = vues(parts@);
            let ghost reste = pieces(text@, start as int, cursor as int);
            if cursor > start {
                parts.push((false, text.substring_char(start, cursor)));
            }
            let ghost milieu = vues(parts@);
            assert(milieu =~= avant + if cursor > start {
                seq![(false, text@.subrange(start as int, cursor as int))]
            } else {
                Seq::empty()
            });
            let fin: usize = texte::chercher_blanc(&c, cursor);
            parts.push((true, text.substring_char(cursor, fin)));
            assert(vues(parts@) =~= milieu.push(
                (true, text@.subrange(cursor as int, fin as int)),
            ));
            assert(vues(parts@) + pieces(text@, fin as int, fin as int) =~= avant + reste);
            cursor = fin;
            start = fin;
        } else {
            cursor += 1;
        }
    }
    let ghost avant = vues(parts@);
    if start < n || parts.len() == 0 {
        parts.push((false, text.substring_char(start, n)));
        assert(vues(parts@) =~= avant.push((false, text@.subrange(start as int, n as int))));
        if start < n {
            assert(vues(parts@) =~= pieces(text@, 0, 0));
        } else {
            assert(avant =~= Seq::<(bool, Seq<char>)>::empty());
            assert(pieces(text@, 0, 0).len() == 0);
            assert(start == n);
            assert(n == 0) by {
                lemme_pieces_se_relisent(text@, 0, 0);
                assert(bout_a_bout(pieces(text@, 0, 0)).len() == 0);
                assert(text@.skip(0).len() == text@.len());
            }
            assert(text@.subrange(0, 0) =~= text@);
            assert(vues(parts@) =~= seq![(false, text@)]);
        }
    } else {
        assert(vues(parts@) =~= pieces(text@, 0, 0));
    }
    parts
}

/// What pieces read, put end to end.
pub open spec fn bout_a_bout(p: Seq<(bool, Seq<char>)>) -> Seq<char>
    decreases p.len(),
{
    if p.len() == 0 {
        Seq::empty()
    } else {
        p[0].1 + bout_a_bout(p.skip(1))
    }
}

proof fn lemme_bout_a_bout(a: Seq<(bool, Seq<char>)>, b: Seq<(bool, Seq<char>)>)
    ensures
        bout_a_bout(a + b) == bout_a_bout(a) + bout_a_bout(b),
    decreases a.len(),
{
    if a.len() == 0 {
        assert(a + b =~= b);
        assert(bout_a_bout(a) + bout_a_bout(b) =~= bout_a_bout(b));
    } else {
        assert((a + b).skip(1) =~= a.skip(1) + b);
        lemme_bout_a_bout(a.skip(1), b);
        assert(bout_a_bout(a + b) =~= bout_a_bout(a) + bout_a_bout(b));
    }
}

proof fn lemme_un_bout(x: (bool, Seq<char>))
    ensures
        bout_a_bout(seq![x]) == x.1,
{
    assert(seq![x].skip(1) =~= Seq::<(bool, Seq<char>)>::empty());
    assert(bout_a_bout(Seq::<(bool, Seq<char>)>::empty()) =~= Seq::<char>::empty());
    assert(bout_a_bout(seq![x]) =~= x.1);
}

proof fn lemme_pieces_se_relisent(s: Seq<char>, start: int, cursor: int)
    requires
        0 <= start <= cursor <= s.len(),
    ensures
        bout_a_bout(pieces(s, start, cursor)) == s.skip(start),
    decreases s.len() - cursor,
{
    if cursor >= s.len() {
        if start < s.len() {
            lemme_un_bout((false, s.subrange(start, s.len() as int)));
            assert(s.subrange(start, s.len() as int) =~= s.skip(start));
        } else {
            assert(s.skip(start) =~= Seq::<char>::empty());
        }
    } else if markup::debut_de_lien(s, cursor) && cursor < texte::prochain_blanc(
        s,
        cursor,
    ) <= s.len() {
        let fin = texte::prochain_blanc(s, cursor);
        texte::lemme_prochain_blanc(s, cursor);
        lemme_pieces_se_relisent(s, fin, fin);
        let a = if cursor > start {
            seq![(false, s.subrange(start, cursor))]
        } else {
            Seq::empty()
        };
        let b = seq![(true, s.subrange(cursor, fin))];
        lemme_bout_a_bout(a, b);
        lemme_bout_a_bout(a + b, pieces(s, fin, fin));
        lemme_un_bout((true, s.subrange(cursor, fin)));
        if cursor > start {
            lemme_un_bout((false, s.subrange(start, cursor)));
        }
        assert(bout_a_bout(pieces(s, start, cursor)) =~= s.skip(start));
    } else {
        lemme_pieces_se_relisent(s, start, cursor + 1);
    }
}

/// Nothing of a message is lost nor moved by the cutting: its pieces put end to
/// end read as it did.
pub proof fn loi_liens_se_relisent(s: Seq<char>)
    ensures
        bout_a_bout(decoupe(s)) == s,
        decoupe(s).len() > 0,
{
    lemme_pieces_se_relisent(s, 0, 0);
    assert(s.skip(0) =~= s);
    lemme_un_bout((false, s));
}

// ---------------------------------------------------------------------
// Labels
// ---------------------------------------------------------------------

/// A label of at most `max` characters, with an ellipsis where it was cut.
pub open spec fn abrege(s: Seq<char>, max: nat) -> Seq<char> {
    if s.len() <= max {
        s
    } else {
        let garde = if max > 0 {
            s.take(max - 1)
        } else {
            s.take(0)
        };
        texte::sans_blancs_fin(garde).push('…')
    }
}

/// Cuts a label that is too long, by characters and not by bytes.
pub fn ellipsize(text: &str, max_chars: usize) -> (r: String)
    ensures
        r@ == abrege(text@, max_chars as nat),
{
    if text.unicode_len() <= max_chars {
        return text.to_owned();
    }
    let n: usize = if max_chars > 0 {
        max_chars - 1
    } else {
        0
    };
    let garde: &str = text.substring_char(0, n);
    assert(garde@ =~= text@.take(n as int));
    let mut s: String = texte::rogner_fin(garde).to_owned();
    s.push('…');
    s
}

proof fn lemme_sans_blancs_fin(s: Seq<char>)
    ensures
        texte::sans_blancs_fin(s).len() <= s.len(),
    decreases s.len(),
{
    if s.len() > 0 {
        lemme_sans_blancs_fin(s.drop_last());
    }
}

/// A label is never longer than asked for.
pub proof fn loi_libelle_borne(s: Seq<char>, max: nat)
    requires
        max > 0,
    ensures
        abrege(s, max).len() <= max,
{
    if s.len() > max {
        lemme_sans_blancs_fin(s.take(max - 1));
    }
}

/// An address of at most 70 characters, or its head and its tail.
pub open spec fn raccourci(s: Seq<char>) -> Seq<char> {
    if s.len() <= 70 {
        s
    } else {
        s.take(46).push('…') + s.skip(s.len() - 16)
    }
}

/// Shortens an address that would drown its message.
pub fn shorten(url: &str) -> (r: String)
    ensures
        r@ == raccourci(url@),
{
    let n: usize = url.unicode_len();
    if n <= 70 {
        return url.to_owned();
    }
    let tete: &str = url.substring_char(0, 46);
    assert(tete@ =~= url@.take(46));
    let fin: &str = url.substring_char(n - 16, n);
    assert(fin@ =~= url@.skip(n - 16));
    let mut s: String = tete.to_owned();
    s.push('…');
    s.append(fin);
    s
}

/// A shortened address is shorter, and keeps its ends.
pub proof fn loi_adresse_raccourcie(s: Seq<char>)
    ensures
        raccourci(s).len() <= 70,
        s.len() > 70 ==> raccourci(s).len() < s.len() && raccourci(s).take(46) == s.take(46)
            && raccourci(s).skip(47) == s.skip(s.len() - 16),
{
    if s.len() > 70 {
        assert(raccourci(s).take(46) =~= s.take(46));
        assert(raccourci(s).skip(47) =~= s.skip(s.len() - 16));
    }
}

/// The last `n` characters of a text, or all of them.
pub fn fin_de(text: &str, n: usize) -> (r: &str)
    ensures
        r@ == if text@.len() <= n {
            text@
        } else {
            text@.skip(text@.len() - n)
        },
{
    let long: usize = text.unicode_len();
    if long <= n {
        return text;
    }
    let r: &str = text.substring_char(long - n, long);
    assert(r@ =~= text@.skip(long - n));
    r
}

// ---------------------------------------------------------------------
// Addresses
// ---------------------------------------------------------------------

/// What stands before the last colon of an address, which a port follows; all
/// of it where it has none.
pub open spec fn sans_port(a: Seq<char>) -> Seq<char> {
    match texte::coupe_fin(a, ':') {
        Some((h, _)) => h,
        None => a,
    }
}

/// A character of an IPv6 address.
pub open spec fn de_ipv6(c: char) -> bool {
    c == ':' || '0' <= c <= '9' || 'a' <= c <= 'f' || 'A' <= c <= 'F'
}

/// A text that only an IPv6 address reads like: hexadecimal digits and colons,
/// with two colons in a row or eight groups. None of its colons stands before a
/// port.
pub open spec fn ipv6(a: Seq<char>) -> bool {
    &&& forall|i: int| 0 <= i < a.len() ==> de_ipv6(#[trigger] a[i])
    &&& texte::indice(a, "::"@, 0) is Some || texte::separe(a, ':').len() == 8
}

/// What an IPv6 address between square brackets holds; any other text as it is.
pub open spec fn sans_crochets(s: Seq<char>) -> Seq<char> {
    if s.len() >= 2 && s[0] == '[' && s.last() == ']' && ipv6(s.subrange(1, s.len() - 1)) {
        s.subrange(1, s.len() - 1)
    } else {
        s
    }
}

/// The host of an address, without the brackets of an IPv6 one: the address
/// itself where it is an IPv6 one, bare or between brackets, or else what stands
/// before its port.
pub open spec fn hote(adresse: Seq<char>) -> Seq<char> {
    let a = texte::rogne(adresse);
    if ipv6(sans_crochets(a)) {
        sans_crochets(a)
    } else {
        sans_crochets(sans_port(a))
    }
}

/// The host of an address as it stands in a URL: an IPv6 one keeps or gets its
/// brackets.
pub open spec fn hote_web(adresse: Seq<char>) -> Seq<char> {
    let a = texte::rogne(adresse);
    if ipv6(a) {
        "["@ + a + "]"@
    } else if ipv6(sans_crochets(a)) {
        a
    } else {
        sans_port(a)
    }
}

fn est_ipv6(s: &str) -> (r: bool)
    ensures
        r == ipv6(s@),
{
    let v: Vec<char> = texte::caracteres(s);
    let mut i: usize = 0;
    while i < v.len()
        invariant
            v@ == s@,
            i <= v@.len(),
            forall|k: int| 0 <= k < i ==> de_ipv6(#[trigger] s@[k]),
        decreases v@.len() - i,
    {
        let c: char = v[i];
        if !(c == ':' || ('0' <= c && c <= '9') || ('a' <= c && c <= 'f') || ('A' <= c && c
            <= 'F')) {
            assert(!de_ipv6(s@[i as int]));
            return false;
        }
        i += 1;
    }
    texte::chercher(&v, "::", 0).is_some() || texte::separer(s, ':').len() == 8
}

fn retirer_port(a: &str) -> (r: &str)
    ensures
        r@ == sans_port(a@),
{
    match texte::couper_fin(a, ':') {
        Some((h, _)) => h,
        None => a,
    }
}

fn retirer_crochets(s: &str) -> (r: &str)
    ensures
        r@ == sans_crochets(s@),
{
    let n: usize = s.unicode_len();
    if n >= 2 && s.get_char(0) == '[' && s.get_char(n - 1) == ']' {
        let dedans: &str = s.substring_char(1, n - 1);
        if est_ipv6(dedans) {
            return dedans;
        }
    }
    s
}

fn extraire_hote(adresse: &str) -> (r: &str)
    ensures
        r@ == hote(adresse@),
{
    let a: &str = texte::rogner(adresse);
    let h: &str = retirer_crochets(a);
    if est_ipv6(h) {
        h
    } else {
        retirer_crochets(retirer_port(a))
    }
}

/// Any address but an IPv6 one without its port has for host in a URL what
/// stands before its last colon, as it stands there.
pub proof fn loi_hote_ordinaire(adresse: Seq<char>)
    requires
        !ipv6(sans_crochets(texte::rogne(adresse))),
    ensures
        hote_web(adresse) == sans_port(texte::rogne(adresse)),
{
}

/// The first two numbers of four that stand between dots, each of them a byte.
pub open spec fn quatre_octets(s: Seq<char>) -> Option<(nat, nat)> {
    match texte::coupe_a(s, '.') {
        Some((a, r1)) => match texte::coupe_a(r1, '.') {
            Some((b, r2)) => match texte::coupe_a(r2, '.') {
                Some((c, d)) => match (
                    texte::nombre_borne(a, 255),
                    texte::nombre_borne(b, 255),
                    texte::nombre_borne(c, 255),
                    texte::nombre_borne(d, 255),
                ) {
                    (Some(x), Some(y), Some(_), Some(_)) => Some((x, y)),
                    _ => None,
                },
                None => None,
            },
            None => None,
        },
        None => None,
    }
}

fn lire_octets(s: &str) -> (r: Option<(u64, u64)>)
    ensures
        match r {
            Some((x, y)) => quatre_octets(s@) == Some((x as nat, y as nat)),
            None => quatre_octets(s@) is None,
        },
{
    let (a, r1): (&str, &str) = match texte::couper_a(s, '.') {
        Some(p) => p,
        None => return None,
    };
    let (b, r2): (&str, &str) = match texte::couper_a(r1, '.') {
        Some(p) => p,
        None => return None,
    };
    let (c, d): (&str, &str) = match texte::couper_a(r2, '.') {
        Some(p) => p,
        None => return None,
    };
    let x: Option<u64> = texte::lire_nombre(a, 255);
    let y: Option<u64> = texte::lire_nombre(b, 255);
    let z: Option<u64> = texte::lire_nombre(c, 255);
    let t: Option<u64> = texte::lire_nombre(d, 255);
    match (x, y, z, t) {
        (Some(p), Some(q), Some(_), Some(_)) => Some((p, q)),
        _ => None,
    }
}

/// The address of a private network.
pub open spec fn privee(a: nat, b: nat) -> bool {
    a == 10 || (a == 192 && b == 168) || (a == 172 && 16 <= b <= 31)
}

/// What an address is called; nothing where it is public.
pub open spec fn etiquette(adresse: Seq<char>) -> Option<Seq<char>> {
    let h = hote(adresse);
    if h == "localhost"@ || h == "127.0.0.1"@ || h == "::1"@ {
        Some("local"@)
    } else {
        match quatre_octets(h) {
            Some((a, b)) => if privee(a, b) {
                Some("réseau local"@)
            } else {
                None
            },
            None => None,
        }
    }
}

/// A short word that places an address; none where it is public.
pub fn address_tag(address: &str) -> (r: Option<&'static str>)
    ensures
        match (r, etiquette(address@)) {
            (Some(a), Some(b)) => a@ == b,
            (None, None) => true,
            _ => false,
        },
{
    let h: &str = extraire_hote(address);
    if texte::egal(h, "localhost") || texte::egal(h, "127.0.0.1") || texte::egal(h, "::1") {
        return Some("local");
    }
    match lire_octets(h) {
        Some((a, b)) => if a == 10 || (a == 192 && b == 168) || (a == 172 && 16 <= b && b <= 31) {
            Some("réseau local")
        } else {
            None
        },
        None => None,
    }
}

/// Where the files of a server are shared: on its own host, at the usual port.
pub fn http_base(url: &str) -> (r: String)
    ensures
        r@ == "https://"@ + hote_web(url@) + ":8080"@,
{
    let a: &str = texte::rogner(url);
    let mut s: String = "https://".to_owned();
    if est_ipv6(a) {
        s.append("[");
        s.append(a);
        s.append("]");
        assert(s@ =~= "https://"@ + hote_web(url@));
    } else if est_ipv6(retirer_crochets(a)) {
        s.append(a);
    } else {
        s.append(retirer_port(a));
    }
    s.append(":8080");
    s
}

/// The address of a server as its row shows it, with what places it.
pub fn adresse_etiquetee(address: &str) -> (r: String)
    ensures
        r@ == texte::rogne(address@) + match etiquette(texte::rogne(address@)) {
            Some(t) => " · "@ + t,
            None => Seq::empty(),
        },
{
    let a: &str = texte::rogner(address);
    let mut s: String = a.to_owned();
    match address_tag(a) {
        Some(t) => {
            s.append(" · ");
            s.append(t);
            assert(s@ =~= a@ + (" · "@ + t@));
        },
        None => {
            assert(s@ =~= a@ + Seq::<char>::empty());
        },
    }
    s
}

/// A token as it stands in a header.
pub fn jeton_hexa(jeton: u64) -> (r: String)
    ensures
        r@ == texte::hexa(jeton as nat),
{
    let mut s: String = String::new();
    texte::pousser_hexa(&mut s, jeton);
    assert(s@ =~= texte::hexa(jeton as nat));
    s
}

// ---------------------------------------------------------------------
// Hours and days
// ---------------------------------------------------------------------

/// The first day that has a date, counted from the first of the common era.
pub const JOUR_MIN: i64 = -95_746_129;

/// The last one.
pub const JOUR_MAX: i64 = 95_745_399;

/// The first of January 1970.
pub const JOUR_1970: i64 = 719_163;

/// A day, an hour, a minute and a second.
pub type Moment = (i32, u32, u32, u32);

/// A day that has a date.
pub open spec fn date_existe(jour: int) -> bool {
    JOUR_MIN <= jour <= JOUR_MAX
}

/// An instant, in milliseconds since 1970, that has a date.
pub open spec fn datable(ms: int) -> bool {
    date_existe(ms / 86_400_000 + JOUR_1970)
}

/// What an instant reads on clocks that are `decalage` seconds ahead of UTC.
pub open spec fn lu_a(ms: int, decalage: int, t: Moment) -> bool {
    &&& -86_400 < decalage < 86_400
    &&& t.1 < 24 && t.2 < 60 && t.3 < 60
    &&& t.0 * 86_400 + t.1 * 3600 + t.2 * 60 + t.3 == ms / 1000 + decalage + JOUR_1970 * 86_400
}

/// `TimeZone::timestamp_millis_opt` of `chrono::Local`: the day, counted from
/// the first day of the common era, the hour, the minute and the second of an
/// instant that has a date, and nothing for any other. How far this machine is
/// from UTC is the machine's affair: that it is less than a day is all that is
/// claimed of it.
#[verifier::external_body]
fn instant_local(ms: i64) -> (r: Option<Moment>)
    ensures
        (r is Some) == datable(ms as int),
        r matches Some(t) ==> exists|decalage: int| #[trigger] lu_a(ms as int, decalage, t),
{
    let t = chrono::Local.timestamp_millis_opt(ms).single();
    t.map(|t| (t.num_days_from_ce(), t.hour(), t.minute(), t.second()))
}

/// The date of a day counted from the first of the common era, as `%d/%m/%Y`
/// writes it; nothing where there is no such date.
pub uninterp spec fn date_ecrite(jour: i32) -> Option<Seq<char>>;

/// `NaiveDate::format` with `%d/%m/%Y`, of the date that
/// `NaiveDate::from_num_days_from_ce_opt` gives, nothing where it gives none.
/// What it writes depends on the day alone, and is only named.
#[verifier::external_body]
fn ecrire_date(jour: i32) -> (r: Option<String>)
    ensures
        texte::vue(r) == date_ecrite(jour),
        (r is Some) == date_existe(jour as int),
{
    NaiveDate::from_num_days_from_ce_opt(jour).map(|d| d.format("%d/%m/%Y").to_string())
}

/// An instant as the server writes it, in milliseconds since 1970.
pub open spec fn signe(ts_millis: u64) -> int {
    (ts_millis as i64) as int
}

fn instant(ts_millis: u64) -> (r: Option<Moment>)
    ensures
        (r is Some) == datable(signe(ts_millis)),
        r matches Some(t) ==> exists|decalage: int| #[trigger]
            lu_a(signe(ts_millis), decalage, t),
{
    #[verifier::truncate]
    let ms: i64 = ts_millis as i64;
    assert(ms as int == signe(ts_millis));
    let r: Option<Moment> = instant_local(ms);
    assert(r matches Some(t) ==> exists|decalage: int| #[trigger]
        lu_a(signe(ts_millis), decalage, t));
    r
}

/// What an hour reads.
pub open spec fn heure_ecrite(h: int, m: int) -> Seq<char> {
    texte::deux_chiffres(h) + seq![':'] + texte::deux_chiffres(m)
}

/// Writes an hour, as `20:05`.
pub fn ecrire_heure(h: u32, m: u32) -> (r: String)
    requires
        h < 24,
        m < 60,
    ensures
        r@ == heure_ecrite(h as int, m as int),
{
    let mut t: String = String::new();
    texte::pousser_deux_chiffres(&mut t, h as u64);
    assert(t@ =~= texte::deux_chiffres(h as int));
    t.push(':');
    texte::pousser_deux_chiffres(&mut t, m as u64);
    assert(t@ =~= heure_ecrite(h as int, m as int));
    t
}

/// Writes an hour with its seconds, as `20:05:09`.
pub fn ecrire_heure_secondes(h: u32, m: u32, s: u32) -> (r: String)
    requires
        h < 24,
        m < 60,
        s < 60,
    ensures
        r@ == heure_ecrite(h as int, m as int) + seq![':'] + texte::deux_chiffres(s as int),
{
    let mut t: String = ecrire_heure(h, m);
    t.push(':');
    texte::pousser_deux_chiffres(&mut t, s as u64);
    assert(t@ =~= heure_ecrite(h as int, m as int) + seq![':'] + texte::deux_chiffres(s as int));
    t
}

/// The hour of a moment; empty where there is none.
pub fn heure_de(t: Option<Moment>) -> (r: String)
    requires
        t matches Some((_, h, m, _)) ==> h < 24 && m < 60,
    ensures
        r@ == match t {
            Some((_, h, m, _)) => heure_ecrite(h as int, m as int),
            None => Seq::empty(),
        },
{
    match t {
        Some((_, h, m, _)) => ecrire_heure(h, m),
        None => String::new(),
    }
}

/// The hour of a moment, with its seconds; empty where there is none.
pub fn heure_secondes_de(t: Option<Moment>) -> (r: String)
    requires
        t matches Some((_, h, m, s)) ==> h < 24 && m < 60 && s < 60,
    ensures
        r@ == match t {
            Some((_, h, m, s)) => heure_ecrite(h as int, m as int) + seq![':']
                + texte::deux_chiffres(s as int),
            None => Seq::empty(),
        },
{
    match t {
        Some((_, h, m, s)) => ecrire_heure_secondes(h, m, s),
        None => String::new(),
    }
}

/// The day of a moment; the least of all where there is none.
pub fn jour_de(t: Option<Moment>) -> (r: i32)
    ensures
        r == match t {
            Some((jour, _, _, _)) => jour,
            None => i32::MIN,
        },
{
    match t {
        Some((jour, _, _, _)) => jour,
        None => i32::MIN,
    }
}

/// The hour of an instant on this machine; empty where it has none.
pub fn format_time(ts_millis: u64) -> (r: String)
    ensures
        datable(signe(ts_millis)) ==> exists|decalage: int, t: Moment| #[trigger]
            lu_a(signe(ts_millis), decalage, t) && r@ == heure_ecrite(t.1 as int, t.2 as int),
        !datable(signe(ts_millis)) ==> r@.len() == 0,
{
    heure_de(instant(ts_millis))
}

/// The hour of an instant on this machine, with its seconds; empty where it
/// has none.
pub fn format_time_secs(ts_millis: u64) -> (r: String)
    ensures
        datable(signe(ts_millis)) ==> exists|decalage: int, t: Moment| #[trigger]
            lu_a(signe(ts_millis), decalage, t) && r@ == heure_ecrite(t.1 as int, t.2 as int)
                + seq![':'] + texte::deux_chiffres(t.3 as int),
        !datable(signe(ts_millis)) ==> r@.len() == 0,
{
    heure_secondes_de(instant(ts_millis))
}

/// The day of an instant on this machine, to tell when it changes; the least
/// of all where it has none.
pub fn day_key(ts_millis: u64) -> (r: i32)
    ensures
        datable(signe(ts_millis)) ==> exists|decalage: int, t: Moment| #[trigger]
            lu_a(signe(ts_millis), decalage, t) && r == t.0,
        !datable(signe(ts_millis)) ==> r == i32::MIN,
{
    jour_de(instant(ts_millis))
}

/// What a day is called, seen from today.
pub open spec fn jour_dit(jour: i32, aujourd_hui: i32) -> Option<Seq<char>> {
    if jour == aujourd_hui {
        Some("Aujourd'hui"@)
    } else if jour == aujourd_hui - 1 {
        Some("Hier"@)
    } else {
        date_ecrite(jour)
    }
}

/// What a day is called, seen from today: its date, but for the last two.
pub fn nommer_jour(jour: i32, aujourd_hui: i32) -> (r: Option<String>)
    ensures
        texte::vue(r) == jour_dit(jour, aujourd_hui),
{
    if jour == aujourd_hui {
        Some("Aujourd'hui".to_owned())
    } else if aujourd_hui > i32::MIN && jour == aujourd_hui - 1 {
        Some("Hier".to_owned())
    } else {
        ecrire_date(jour)
    }
}

/// What the day of a moment is called, seen from today; empty where there is
/// none.
pub fn libelle_de(t: Option<Moment>, aujourd_hui: i32) -> (r: String)
    ensures
        r@ == match t {
            Some((jour, _, _, _)) => match jour_dit(jour, aujourd_hui) {
                Some(dit) => dit,
                None => Seq::empty(),
            },
            None => Seq::empty(),
        },
{
    match t {
        Some((jour, _, _, _)) => match nommer_jour(jour, aujourd_hui) {
            Some(dit) => dit,
            None => String::new(),
        },
        None => String::new(),
    }
}

/// What the day of an instant is called; empty where it has none.
pub fn day_label(ts_millis: u64) -> (r: String)
    ensures
        datable(signe(ts_millis)) ==> exists|decalage: int, t: Moment, a: i32|
            {
                &&& #[trigger] lu_a(signe(ts_millis), decalage, t)
                &&& r@ == match #[trigger] jour_dit(t.0, a) {
                    Some(dit) => dit,
                    None => Seq::empty(),
                }
            },
        !datable(signe(ts_millis)) ==> r@.len() == 0,
{
    libelle_de(instant(ts_millis), jour_de(instant(crate::horloge::maintenant_ms())))
}

// ---------------------------------------------------------------------
// What labels promise
// ---------------------------------------------------------------------

/// How many characters pieces hold.
pub open spec fn etendue(p: Seq<(bool, Seq<char>)>) -> nat
    decreases p.len(),
{
    if p.len() == 0 {
        0
    } else {
        etendue(p.drop_last()) + p.last().1.len()
    }
}

/// A piece of a message that is right at `o`: a link is a whole word that starts
/// as one, and in anything else no link starts.
pub open spec fn piece_juste(s: Seq<char>, o: int, p: (bool, Seq<char>)) -> bool {
    let e = o + p.1.len();
    &&& 0 <= o && e <= s.len() && p.1 == s.subrange(o, e)
    &&& p.0 ==> crate::grammaire::lien_a(s, o) && crate::grammaire::mot_a(s, o, e)
    &&& !p.0 ==> forall|k: int| o <= k < e ==> !#[trigger] crate::grammaire::lien_a(s, k)
}

proof fn lemme_etendue(a: Seq<(bool, Seq<char>)>, b: Seq<(bool, Seq<char>)>)
    ensures
        etendue(a + b) == etendue(a) + etendue(b),
    decreases b.len(),
{
    if b.len() == 0 {
        assert(a + b =~= a);
    } else {
        lemme_etendue(a, b.drop_last());
        assert((a + b).drop_last() =~= a + b.drop_last());
    }
}

proof fn lemme_une_piece(p: (bool, Seq<char>))
    ensures
        etendue(seq![p]) == p.1.len(),
        etendue(Seq::empty()) == 0,
{
    reveal_with_fuel(etendue, 2);
    assert(seq![p].drop_last() =~= Seq::<(bool, Seq<char>)>::empty());
}

proof fn lemme_pieces_justes(s: Seq<char>, start: int, cursor: int)
    requires
        0 <= start <= cursor <= s.len(),
        forall|k: int| start <= k < cursor ==> !#[trigger] crate::grammaire::lien_a(s, k),
    ensures
        forall|j: int|
            0 <= j < pieces(s, start, cursor).len() ==> piece_juste(
                s,
                start + etendue(pieces(s, start, cursor).take(j)),
                #[trigger] pieces(s, start, cursor)[j],
            ),
    decreases s.len() - cursor,
{
    let p = pieces(s, start, cursor);
    if cursor >= s.len() {
        if start < s.len() {
            assert(p.take(0) =~= Seq::<(bool, Seq<char>)>::empty());
            lemme_une_piece(p[0]);
            assert(piece_juste(s, start, p[0]));
            assert(p.len() == 1);
            assert forall|j: int| 0 <= j < p.len() implies piece_juste(
                s,
                start + etendue(p.take(j)),
                #[trigger] p[j],
            ) by {
                assert(j == 0);
            }
        }
    } else {
        crate::grammaire::lemme_lit(s, cursor);
        if markup::debut_de_lien(s, cursor) && cursor < texte::prochain_blanc(s, cursor)
            <= s.len() {
            let fin = texte::prochain_blanc(s, cursor);
            texte::lemme_prochain_blanc(s, cursor);
            lemme_pieces_justes(s, fin, fin);
            let a = if cursor > start {
                seq![(false, s.subrange(start, cursor))]
            } else {
                Seq::empty()
            };
            let l = (true, s.subrange(cursor, fin));
            let q = pieces(s, fin, fin);
            assert(p == a + seq![l] + q);
            if cursor > start {
                lemme_une_piece(a[0]);
            }
            lemme_une_piece(l);
            lemme_etendue(a, seq![l]);
            let n = (a + seq![l]).len() as int;
            assert(etendue(a + seq![l]) == fin - start);
            assert forall|j: int| 0 <= j < p.len() implies piece_juste(
                s,
                start + etendue(p.take(j)),
                #[trigger] p[j],
            ) by {
                if j >= n {
                    assert(p.take(j) =~= (a + seq![l]) + q.take(j - n));
                    lemme_etendue(a + seq![l], q.take(j - n));
                    assert(p[j] == q[j - n]);
                } else if j == n - 1 {
                    assert(p.take(j) =~= a);
                    assert(p[j] == l);
                } else {
                    assert(p.take(j) =~= Seq::<(bool, Seq<char>)>::empty());
                    assert(p[j] == a[j]);
                }
            }
        } else {
            assert(!crate::grammaire::lien_a(s, cursor)) by {
                if markup::debut_de_lien(s, cursor) {
                    texte::lemme_prochain_blanc(s, cursor);
                    assert(s[cursor] == 'h');
                }
            }
            lemme_pieces_justes(s, start, cursor + 1);
            assert(p == pieces(s, start, cursor + 1));
        }
    }
}

/// Every link of a message is found, from its first character to the end of its
/// word, and nothing else is taken for one.
pub proof fn loi_liens_trouves(s: Seq<char>, j: int)
    requires
        0 <= j < decoupe(s).len(),
    ensures
        piece_juste(s, etendue(decoupe(s).take(j)) as int, decoupe(s)[j]),
{
    lemme_pieces_justes(s, 0, 0);
    let p = pieces(s, 0, 0);
    if p.len() == 0 {
        lemme_pieces_se_relisent(s, 0, 0);
        assert(bout_a_bout(p).len() == 0);
        assert(s.skip(0).len() == s.len());
        assert(decoupe(s).take(0) =~= Seq::<(bool, Seq<char>)>::empty());
        assert(s.subrange(0, 0) =~= s);
    }
}

/// A label that is short enough is left alone; a longer one keeps its start and
/// ends with an ellipsis, with nothing white before it.
pub proof fn loi_libelle_abrege(s: Seq<char>, max: nat)
    requires
        max > 0,
    ensures
        s.len() <= max ==> abrege(s, max) == s,
        s.len() > max ==> {
            let a = abrege(s, max);
            &&& a.len() > 0 && a.last() == '…'
            &&& a.drop_last().is_prefix_of(s)
            &&& a.len() > 1 ==> !texte::est_blanc(a[a.len() - 2])
            &&& forall|k: int| a.len() - 1 <= k < max - 1 ==> texte::est_blanc(#[trigger] s[k])
        },
{
    if s.len() > max {
        let garde = s.take(max - 1);
        lemme_blancs_de_fin(garde);
        let a = abrege(s, max);
        assert(a.drop_last() =~= texte::sans_blancs_fin(garde));
        assert forall|k: int| a.len() - 1 <= k < max - 1 implies texte::est_blanc(
            #[trigger] s[k],
        ) by {
            assert(garde[k] == s[k]);
        }
    }
}

proof fn lemme_blancs_de_fin(s: Seq<char>)
    ensures
        texte::sans_blancs_fin(s).len() <= s.len(),
        texte::sans_blancs_fin(s) == s.take(texte::sans_blancs_fin(s).len() as int),
        texte::sans_blancs_fin(s).len() > 0 ==> !texte::est_blanc(texte::sans_blancs_fin(s).last()),
        forall|k: int|
            texte::sans_blancs_fin(s).len() <= k < s.len() ==> texte::est_blanc(#[trigger] s[k]),
    decreases s.len(),
{
    assert(s.take(s.len() as int) =~= s);
    if s.len() > 0 && texte::est_blanc(s.last()) {
        let d = s.drop_last();
        lemme_blancs_de_fin(d);
        let n = texte::sans_blancs_fin(s).len() as int;
        assert(d.take(n) =~= s.take(n));
        assert forall|k: int| n <= k < s.len() implies texte::est_blanc(#[trigger] s[k]) by {
            if k < d.len() {
                assert(d[k] == s[k]);
            }
        }
    }
}

/// Four numbers between dots, each written in full and no greater than 255, are
/// read as they are.
pub proof fn loi_quatre_octets(a: nat, b: nat, c: nat, d: nat)
    ensures
        ({
            let s = texte::decimal(a) + seq!['.'] + (texte::decimal(b) + seq!['.'] + (
            texte::decimal(c) + seq!['.'] + texte::decimal(d)));
            quatre_octets(s) == if a <= 255 && b <= 255 && c <= 255 && d <= 255 {
                Some((a, b))
            } else {
                None
            }
        }),
{
    texte::loi_decimal_se_relit(a);
    texte::loi_decimal_se_relit(b);
    texte::loi_decimal_se_relit(c);
    texte::loi_decimal_se_relit(d);
    lemme_sans_point(a);
    lemme_sans_point(b);
    lemme_sans_point(c);
    texte::loi_coupe_se_relit(
        texte::decimal(a),
        '.',
        texte::decimal(b) + seq!['.'] + (texte::decimal(c) + seq!['.'] + texte::decimal(d)),
    );
    texte::loi_coupe_se_relit(
        texte::decimal(b),
        '.',
        texte::decimal(c) + seq!['.'] + texte::decimal(d),
    );
    texte::loi_coupe_se_relit(texte::decimal(c), '.', texte::decimal(d));
}

proof fn lemme_sans_point(n: nat)
    ensures
        !texte::decimal(n).contains('.'),
{
    texte::loi_decimal_se_relit(n);
    if texte::decimal(n).contains('.') {
        let i = choose|i: int| 0 <= i < texte::decimal(n).len() && texte::decimal(n)[i] == '.';
        assert(texte::est_chiffre(texte::decimal(n)[i]));
    }
}

/// An address whose host is an IPv4 one is on a local network where its first
/// numbers say so, from 10, from 172.16 to 172.31 and from 192.168, and on no
/// other account; this machine is named by its three names.
pub proof fn loi_etiquette(adresse: Seq<char>, a: nat, b: nat)
    ensures
        hote(adresse) == "localhost"@ || hote(adresse) == "127.0.0.1"@ || hote(adresse) == "::1"@
            <==> etiquette(adresse) == Some("local"@),
        etiquette(adresse) is Some ==> etiquette(adresse) == Some("local"@) || etiquette(adresse)
            == Some("réseau local"@),
        (quatre_octets(hote(adresse)) == Some((a, b)) && etiquette(adresse) != Some("local"@)) ==> (
        etiquette(adresse) == Some("réseau local"@)) == (a == 10 || (a == 172 && 16 <= b && b
            <= 31) || (a == 192 && b == 168)),
        quatre_octets(hote(adresse)) is None && etiquette(adresse) != Some("local"@)
            ==> etiquette(adresse) is None,
{
    reveal_strlit("local");
    reveal_strlit("réseau local");
    assert("local"@.len() != "réseau local"@.len());
}

/// The port of an address does not count: a host without a colon, with or
/// without a port behind it, is the host.
pub proof fn loi_port_sans_effet(h: Seq<char>, port: Seq<char>)
    requires
        h.len() > 0,
        !h.contains(':') && !port.contains(':'),
        !h.contains('['),
        port.len() > 0,
        !texte::est_blanc(h[0]) && !texte::est_blanc(h.last()) && !texte::est_blanc(port.last()),
    ensures
        hote(h) == h,
        hote(h + seq![':'] + port) == h,
        hote_web(h) == h,
        hote_web(h + seq![':'] + port) == h,
{
    let s = h + seq![':'] + port;
    lemme_deja_rogne(h);
    lemme_deja_rogne(s);
    texte::loi_coupe_au_dernier(h, ':');
    texte::loi_coupe_au_dernier(s, ':');
    assert(s[h.len() as int] == ':');
    assert(s.contains(':'));
    let (x, y) = texte::coupe_fin(s, ':')->0;
    assert(x == h && y == port) by {
        let n = h.len() as int;
        assert(s[n] == ':');
        if x.len() < n {
            assert(s[x.len() as int] == ':');
            assert(h[x.len() as int] == ':');
        } else if x.len() > n {
            assert(s[x.len() as int] == ':');
            assert(port[x.len() - n - 1] == ':');
        }
        assert(x =~= s.take(n));
        assert(h =~= s.take(n));
        assert(y =~= s.skip(n + 1));
        assert(port =~= s.skip(n + 1));
    }
    assert(h[0] != '[') by {
        if h[0] == '[' {
            assert(h.contains('['));
        }
    }
    assert(s[0] == h[0]);
    lemme_pas_ipv6(h);
    assert(!ipv6(s)) by {
        lemme_un_deux_points(h, port);
    }
}

proof fn lemme_deja_rogne(s: Seq<char>)
    requires
        s.len() > 0,
        !texte::est_blanc(s[0]),
        !texte::est_blanc(s.last()),
    ensures
        texte::rogne(s) == s,
{
}

proof fn lemme_pas_ipv6(h: Seq<char>)
    requires
        !h.contains(':'),
    ensures
        !ipv6(h),
{
    reveal_strlit("::");
    texte::lemme_indice(h, "::"@, 0);
    if let Some(k) = texte::indice(h, "::"@, 0) {
        assert(h.subrange(k, k + 2)[0] == ':');
        assert(h[k] == ':');
    }
    texte::loi_coupe_au_premier(h, ':');
    assert(texte::separe(h, ':').len() == 1);
}

proof fn lemme_un_deux_points(h: Seq<char>, port: Seq<char>)
    requires
        !h.contains(':'),
        !port.contains(':'),
    ensures
        !ipv6(h + seq![':'] + port),
{
    reveal_strlit("::");
    let s = h + seq![':'] + port;
    texte::lemme_indice(s, "::"@, 0);
    if let Some(k) = texte::indice(s, "::"@, 0) {
        assert(s.subrange(k, k + 2)[0] == ':' && s.subrange(k, k + 2)[1] == ':');
        assert(s[k] == ':' && s[k + 1] == ':');
        if k < h.len() {
            assert(h[k] == ':');
        } else {
            assert(port[k + 1 - h.len() - 1] == ':');
        }
    }
    texte::loi_coupe_se_relit(h, ':', port);
    texte::loi_coupe_au_premier(port, ':');
    assert(texte::separe(port, ':').len() == 1);
    assert(texte::separe(s, ':').len() == 2);
}

/// Seen from today, today and the day before it have a name of their own, and
/// any other day is named by its date.
pub proof fn loi_nom_du_jour(jour: i32, aujourd_hui: i32)
    ensures
        jour == aujourd_hui ==> jour_dit(jour, aujourd_hui) == Some("Aujourd'hui"@),
        jour + 1 == aujourd_hui ==> jour_dit(jour, aujourd_hui) == Some("Hier"@),
        jour != aujourd_hui && jour + 1 != aujourd_hui ==> jour_dit(jour, aujourd_hui)
            == date_ecrite(jour),
{
}

} // verus!
