//! Watching a shared screen: frames arrive sealed, one by one and out of
//! order; they are put back in order by number, and the pictures wait for the
//! sound.

use std::collections::BTreeMap;
use vstd::prelude::*;

verus! {

broadcast use vstd::std_specs::btree::group_btree_axioms;

/// A frame that waits for its turn: whether it is a key frame, its time stamp
/// and its bytes.
pub type Trame = (bool, u64, Vec<u8>);

/// The frames of one quality that wait for their turn, by number.
pub type Attente = BTreeMap<u64, Trame>;

/// A key frame, past a given number where there is one and newer than a given
/// time stamp where there is one.
pub open spec fn convient(k: u64, t: Trame, apres: Option<u64>, lu: Option<u64>) -> bool {
    &&& t.0
    &&& apres matches Some(n) ==> k > n
    &&& lu matches Some(l) ==> t.1 > l
}

/// The smallest number of a frame that is suitable.
pub open spec fn est_premiere(
    m: Map<u64, Trame>,
    apres: Option<u64>,
    lu: Option<u64>,
    s: u64,
) -> bool {
    &&& m.contains_key(s)
    &&& convient(s, m[s], apres, lu)
    &&& forall|k: u64| #[trigger] m.contains_key(k) && k < s ==> !convient(k, m[k], apres, lu)
}

/// The first suitable frame, where there is one.
pub open spec fn premiere(m: Map<u64, Trame>, apres: Option<u64>, lu: Option<u64>) -> Option<u64> {
    if exists|s: u64| est_premiere(m, apres, lu, s) {
        Some(choose|s: u64| est_premiere(m, apres, lu, s))
    } else {
        None
    }
}

proof fn lemme_premiere(m: Map<u64, Trame>, apres: Option<u64>, lu: Option<u64>, s: u64)
    requires
        est_premiere(m, apres, lu, s),
    ensures
        premiere(m, apres, lu) == Some(s),
{
    let t = choose|t: u64| est_premiere(m, apres, lu, t);
    assert(est_premiere(m, apres, lu, t));
    assert(m.contains_key(s) && m.contains_key(t));
}

proof fn lemme_croissante(s: Seq<u64>)
    requires
        vstd::std_specs::btree::increasing_seq(s),
    ensures
        forall|i: int, j: int| 0 <= i < j < s.len() ==> #[trigger] s[i] < #[trigger] s[j],
{
    assert forall|i: int, j: int| 0 <= i < j < s.len() implies #[trigger] s[i] < #[trigger] s[j] by {
        assert(vstd::std_specs::cmp::OrdSpec::cmp_spec(&s[i], &s[j]) is Less);
    }
}

fn chercher_cle(m: &Attente, apres: Option<u64>, lu: Option<u64>) -> (r: Option<u64>)
    ensures
        r == premiere(m@, apres, lu),
        r is None ==> forall|k: u64| #[trigger]
            m@.contains_key(k) ==> !convient(k, m@[k], apres, lu),
{
    for kv in it: m.iter()
        invariant
            it.seq() == vstd::std_specs::iter::IteratorSpec::remaining(
                &vstd::std_specs::btree::spec_btree_map_iter(m),
            ),
            vstd::std_specs::btree::increasing_seq(
                it.seq().map_values(|kv: (&u64, &Trame)| *kv.0),
            ),
            forall|j: int|
                0 <= j < it.index() ==> !convient(
                    *(#[trigger] it.seq()[j]).0,
                    *it.seq()[j].1,
                    apres,
                    lu,
                ),
    {
        let (k, t): (&u64, &Trame) = kv;
        let passe: bool = match apres {
            Some(n) => *k > n,
            None => true,
        };
        let neuve: bool = match lu {
            Some(l) => t.1 > l,
            None => true,
        };
        if t.0 && passe && neuve {
            assert(m@.contains_key(*k) && m@[*k] == *t);
            assert forall|q: u64| #[trigger] m@.contains_key(q) && q < *k implies !convient(
                q,
                m@[q],
                apres,
                lu,
            ) by {
                let e = (&q, &m@[q]);
                assert(it.seq().contains(e));
                let j = choose|j: int| 0 <= j < it.seq().len() && it.seq()[j] == e;
                let cles = it.seq().map_values(|kv: (&u64, &Trame)| *kv.0);
                lemme_croissante(cles);
                if j >= it.index() {
                    assert(cles[it.index() as int] == *k);
                    assert(cles[j] == q);
                }
            }
            proof {
                lemme_premiere(m@, apres, lu, *k);
            }
            return Some(*k);
        }
    }
    None
}

/// The key frame of the other quality to go to, where there is one: the first
/// that waits there and is newer than what was read. An older one, met on the
/// way, does not lead back.
pub fn cle_de_bascule(autre: &Attente, lu_pts: Option<u64>) -> (r: Option<u64>)
    ensures
        r == premiere(autre@, None, lu_pts),
        r is None ==> forall|k: u64| #[trigger]
            autre@.contains_key(k) ==> !convient(k, autre@[k], None, lu_pts),
{
    chercher_cle(autre, None, lu_pts)
}

/// The frames from a number on.
pub open spec fn depuis(m: Map<u64, Trame>, s: u64) -> Map<u64, Trame> {
    m.restrict(m.dom().filter(|k: u64| k >= s))
}

/// Drops the frames before a number.
fn jeter_avant(m: &mut Attente, s: u64)
    ensures
        final(m)@ == depuis(old(m)@, s),
{
    let mut vieilles: Vec<u64> = Vec::new();
    for kv in it: m.iter()
        invariant
            *m == *old(m),
            it.seq() == vstd::std_specs::iter::IteratorSpec::remaining(
                &vstd::std_specs::btree::spec_btree_map_iter(m),
            ),
            forall|j: int| 0 <= j < vieilles@.len() ==> #[trigger] vieilles@[j] < s,
            forall|j: int|
                0 <= j < it.index() && *(#[trigger] it.seq()[j]).0 < s ==> vieilles@.contains(
                    *it.seq()[j].0,
                ),
    {
        let (k, _): (&u64, &Trame) = kv;
        let ghost avant = vieilles@;
        if *k < s {
            vieilles.push(*k);
            assert(vieilles@[avant.len() as int] == *k);
            assert forall|x: u64| avant.contains(x) implies vieilles@.contains(x) by {
                let i = choose|i: int| 0 <= i < avant.len() && avant[i] == x;
                assert(vieilles@[i] == x);
            }
        }
    }
    assert forall|k: u64| #[trigger] m@.contains_key(k) && k < s implies vieilles@.contains(k) by {
        let e = (&k, &m@[k]);
        assert(vstd::std_specs::iter::IteratorSpec::remaining(
            &vstd::std_specs::btree::spec_btree_map_iter(m),
        ).contains(e));
    }
    let mut i: usize = 0;
    while i < vieilles.len()
        invariant
            i <= vieilles@.len(),
            forall|j: int| 0 <= j < vieilles@.len() ==> #[trigger] vieilles@[j] < s,
            forall|k: u64| #[trigger] m@.contains_key(k) ==> old(m)@.contains_key(k) && m@[k] == old(
                m,
            )@[k],
            forall|k: u64| #[trigger] old(m)@.contains_key(k) && k >= s ==> m@.contains_key(k),
            forall|j: int| 0 <= j < i ==> !m@.contains_key(#[trigger] vieilles@[j]),
        decreases vieilles@.len() - i,
    {
        let k: u64 = vieilles[i];
        m.remove(&k);
        i += 1;
    }
    assert forall|k: u64| m@.contains_key(k) implies k >= s by {
        if k < s {
            assert(old(m)@.contains_key(k));
            let j = choose|j: int| 0 <= j < vieilles@.len() && vieilles@[j] == k;
            assert(!m@.contains_key(vieilles@[j]));
        }
    }
    assert(m@ =~= depuis(old(m)@, s));
}

/// A frame handed to the decoder: its number, its time stamp and its bytes.
pub type Lue = (u64, u64, Vec<u8>);

/// What is read in a row from a number on: what is left, the next number, and
/// the frames.
pub open spec fn contigu(m: Map<u64, Trame>, next: u64) -> (Map<u64, Trame>, u64, Seq<Lue>)
    decreases m.dom().len(),
{
    if m.dom().finite() && m.contains_key(next) {
        let (reste, fin, lues) = contigu(m.remove(next), next.wrapping_add(1));
        (reste, fin, seq![(next, m[next].1, m[next].2)] + lues)
    } else {
        (m, next, Seq::empty())
    }
}

pub proof fn lemme_contigu(m: Map<u64, Trame>, next: u64)
    requires
        m.dom().finite(),
    ensures
        contigu(m, next).0.dom().finite(),
        contigu(m, next).0.dom().len() <= m.dom().len(),
        m.contains_key(next) ==> contigu(m, next).0.dom().len() < m.dom().len(),
        forall|k: u64| #[trigger]
            contigu(m, next).0.contains_key(k) ==> m.contains_key(k) && contigu(m, next).0[k]
                == m[k],
        !contigu(m, next).0.contains_key(contigu(m, next).1),
    decreases m.dom().len(),
{
    if m.contains_key(next) {
        lemme_contigu(m.remove(next), next.wrapping_add(1));
    }
}

pub proof fn lemme_depuis(m: Map<u64, Trame>, s: u64)
    requires
        m.dom().finite(),
    ensures
        depuis(m, s).dom().finite(),
        depuis(m, s).dom().len() <= m.dom().len(),
        forall|k: u64| #[trigger]
            depuis(m, s).contains_key(k) <==> m.contains_key(k) && k >= s,
        forall|k: u64| #[trigger] depuis(m, s).contains_key(k) ==> depuis(m, s)[k] == m[k],
{
    assert(depuis(m, s).dom() =~= m.dom().filter(|k: u64| k >= s));
    assert(depuis(m, s).dom().subset_of(m.dom()));
    vstd::set_lib::lemma_len_subset(depuis(m, s).dom(), m.dom());
}

/// What is read from a number on: all that follows in a row, then a jump to
/// the next key frame beyond a gap, and so on.
pub open spec fn lecture(m: Map<u64, Trame>, next: u64) -> (Map<u64, Trame>, u64, Seq<Lue>)
    decreases
            m.dom().len(),
            if m.contains_key(next) {
                0int
            } else {
                1int
            },
    when m.dom().finite()
{
    let (reste, fin, lues) = contigu(m, next);
    match premiere(reste, Some(fin), None) {
        Some(s) => {
            proof {
                lemme_contigu(m, next);
                lemme_depuis(reste, s);
                assert(est_premiere(
                    reste,
                    Some(fin),
                    None,
                    choose|t: u64| est_premiere(reste, Some(fin), None, t),
                ));
            }
            let (reste2, fin2, lues2) = lecture(depuis(reste, s), s);
            (reste2, fin2, lues + lues2)
        },
        None => (reste, fin, lues),
    }
}

/// With more frames than that behind a gap, hope is given up.
pub const ATTENTE_MAX: usize = 30;

/// Where the reading of a stream stands.
#[derive(Debug)]
pub struct Lecteur {
    /// The frames of the quality that is read.
    pub courante: Attente,
    /// Those of the other quality. The two never mix.
    pub autre: Attente,
    /// The low quality is the one that is read.
    pub sur_basse: bool,
    /// The number of the next frame, once reading has started.
    pub prochaine: Option<u64>,
    /// The time stamp of the last frame read.
    pub lu_pts: Option<u64>,
}

/// Where the reading of a stream stands, in mathematical terms.
pub struct Point {
    pub courante: Map<u64, Trame>,
    pub autre: Map<u64, Trame>,
    pub sur_basse: bool,
    pub prochaine: Option<u64>,
    pub lu_pts: Option<u64>,
}

impl Point {
    /// After a look at the other quality: a key frame there that is newer
    /// than what was read takes over, and a list that only grows is dropped.
    pub open spec fn bascule(self) -> Point {
        match premiere(self.autre, None, self.lu_pts) {
            Some(s) => Point {
                courante: depuis(self.autre, s),
                autre: Map::empty(),
                sur_basse: !self.sur_basse,
                prochaine: Some(s),
                lu_pts: self.lu_pts,
            },
            None => if self.autre.dom().len() > 2 * ATTENTE_MAX {
                Point { autre: Map::empty(), ..self }
            } else {
                self
            },
        }
    }

    /// After a look for a place to start: the first key frame, with nothing
    /// before it.
    pub open spec fn depart(self) -> Point {
        if self.prochaine is Some {
            self
        } else {
            match premiere(self.courante, None, None) {
                Some(s) => Point {
                    courante: depuis(self.courante, s),
                    prochaine: Some(s),
                    ..self
                },
                None => if self.courante.dom().len() > 2 * ATTENTE_MAX {
                    Point { courante: Map::empty(), ..self }
                } else {
                    self
                },
            }
        }
    }

    /// The frames that are read, once there is a place to start.
    pub open spec fn lues(self) -> Seq<Lue> {
        match self.prochaine {
            Some(n) => lecture(self.courante, n).2,
            None => Seq::empty(),
        }
    }

    /// After these frames were read. A gap that lasts, with no key frame in
    /// store, clears everything: the next key frame starts the reading anew.
    pub open spec fn avance(self) -> Point {
        match self.prochaine {
            Some(n) => {
                let (reste, fin, lues) = lecture(self.courante, n);
                let lu_pts = if lues.len() > 0 {
                    Some(lues.last().1)
                } else {
                    self.lu_pts
                };
                if reste.dom().len() > ATTENTE_MAX {
                    Point { courante: Map::empty(), prochaine: None, lu_pts, ..self }
                } else {
                    Point { courante: reste, prochaine: Some(fin), lu_pts, ..self }
                }
            },
            None => self,
        }
    }
}

impl Lecteur {
    pub open spec fn point(self) -> Point {
        Point {
            courante: self.courante@,
            autre: self.autre@,
            sur_basse: self.sur_basse,
            prochaine: self.prochaine,
            lu_pts: self.lu_pts,
        }
    }

    /// Nothing received, nothing read, on the high quality.
    pub fn new() -> (r: Self)
        ensures
            r.point() == (Point {
                courante: Map::empty(),
                autre: Map::empty(),
                sur_basse: false,
                prochaine: None,
                lu_pts: None,
            }),
    {
        Lecteur {
            courante: BTreeMap::new(),
            autre: BTreeMap::new(),
            sur_basse: false,
            prochaine: None,
            lu_pts: None,
        }
    }

    /// Puts a frame that was opened in its place.
    pub fn recevoir(&mut self, basse: bool, seq: u64, idr: bool, pts: u64, clair: Vec<u8>)
        ensures
            final(self).point() == if basse == old(self).sur_basse {
                Point {
                    courante: old(self).courante@.insert(seq, (idr, pts, clair)),
                    ..old(self).point()
                }
            } else {
                Point {
                    autre: old(self).autre@.insert(seq, (idr, pts, clair)),
                    ..old(self).point()
                }
            },
    {
        if basse == self.sur_basse {
            self.courante.insert(seq, (idr, pts, clair));
        } else {
            self.autre.insert(seq, (idr, pts, clair));
        }
    }

    /// Goes to the other quality where a newer key frame waits there.
    fn basculer(&mut self)
        ensures
            final(self).point() == old(self).point().bascule(),
    {
        match cle_de_bascule(&self.autre, self.lu_pts) {
            Some(s) => {
                jeter_avant(&mut self.autre, s);
                std::mem::swap(&mut self.autre, &mut self.courante);
                self.autre.clear();
                self.sur_basse = !self.sur_basse;
                self.prochaine = Some(s);
            },
            None => {
                if self.autre.len() > 2 * ATTENTE_MAX {
                    self.autre.clear();
                }
            },
        }
    }

    /// Looks for a place to start.
    fn demarrer(&mut self)
        ensures
            final(self).point() == old(self).point().depart(),
    {
        if self.prochaine.is_none() {
            match chercher_cle(&self.courante, None, None) {
                Some(s) => {
                    jeter_avant(&mut self.courante, s);
                    self.prochaine = Some(s);
                },
                None => {
                    if self.courante.len() > 2 * ATTENTE_MAX {
                        self.courante.clear();
                    }
                },
            }
        }
    }

    /// Reads what follows in a row.
    fn lire_contigu(&mut self, next: u64) -> (r: (u64, Vec<Lue>))
        ensures
            ({
                let (reste, fin, lues) = contigu(old(self).courante@, next);
                &&& r.0 == fin
                &&& r.1@ == lues
                &&& final(self).point() == (Point {
                    courante: reste,
                    lu_pts: if lues.len() > 0 {
                        Some(lues.last().1)
                    } else {
                        old(self).lu_pts
                    },
                    ..old(self).point()
                })
            }),
    {
        let mut n: u64 = next;
        let mut lues: Vec<Lue> = Vec::new();
        let ghost m0 = self.courante@;
        assert(lues@ + contigu(m0, next).2 =~= contigu(m0, next).2);
        loop
            invariant
                m0 == old(self).courante@,
                self.courante@.dom().finite(),
                contigu(self.courante@, n).0 == contigu(m0, next).0,
                contigu(self.courante@, n).1 == contigu(m0, next).1,
                lues@ + contigu(self.courante@, n).2 == contigu(m0, next).2,
                self.point() == (Point {
                    courante: self.courante@,
                    lu_pts: if lues@.len() > 0 {
                        Some(lues@.last().1)
                    } else {
                        old(self).lu_pts
                    },
                    ..old(self).point()
                }),
            decreases self.courante@.dom().len(),
        {
            let ghost m = self.courante@;
            let ghost avant = lues@;
            match self.courante.remove(&n) {
                Some((_, pts, clair)) => {
                    self.lu_pts = Some(pts);
                    lues.push((n, pts, clair));
                    proof {
                        let suite = contigu(m.remove(n), n.wrapping_add(1)).2;
                        assert(lues@ + suite =~= avant + (seq![(n, pts, clair)] + suite));
                    }
                    n = n.wrapping_add(1);
                },
                None => {
                    assert(m.remove(n) =~= m);
                    assert(avant + Seq::<Lue>::empty() =~= avant);
                    return (n, lues);
                },
            }
        }
    }

    /// Everything that can be read now, in order: the other quality is looked
    /// at, a place to start is sought, what follows in a row is read, and a
    /// key frame beyond a gap is jumped to at once.
    pub fn avancer(&mut self) -> (r: Vec<Lue>)
        ensures
            r@ == old(self).point().bascule().depart().lues(),
            final(self).point() == old(self).point().bascule().depart().avance(),
    {
        self.basculer();
        self.demarrer();
        let ghost p = self.point();
        let mut lues: Vec<Lue> = Vec::new();
        let mut next: u64 = match self.prochaine {
            Some(n) => n,
            None => return lues,
        };
        let ghost m0 = self.courante@;
        let ghost n0 = next;
        assert(lues@ + lecture(m0, n0).2 =~= lecture(m0, n0).2);
        loop
            invariant
                self.courante@.dom().finite(),
                lecture(self.courante@, next).0 == lecture(m0, n0).0,
                lecture(self.courante@, next).1 == lecture(m0, n0).1,
                lues@ + lecture(self.courante@, next).2 == lecture(m0, n0).2,
                self.point() == (Point {
                    courante: self.courante@,
                    lu_pts: if lues@.len() > 0 {
                        Some(lues@.last().1)
                    } else {
                        p.lu_pts
                    },
                    ..p
                }),
                p.courante == m0,
                p.prochaine == Some(n0),
                p == old(self).point().bascule().depart(),
            decreases
                    self.courante@.dom().len(),
                    if self.courante@.contains_key(next) {
                        0int
                    } else {
                        1int
                    },
        {
            let ghost m = self.courante@;
            let ghost n = next;
            let ghost avant = lues@;
            proof {
                lemme_contigu(m, n);
            }
            let (fin, mut ensuite): (u64, Vec<Lue>) = self.lire_contigu(next);
            let ghost o1 = ensuite@;
            lues.append(&mut ensuite);
            next = fin;
            match chercher_cle(&self.courante, Some(next), None) {
                Some(s) => {
                    proof {
                        lemme_depuis(self.courante@, s);
                        let reste = self.courante@;
                        assert(est_premiere(
                            reste,
                            Some(fin),
                            None,
                            choose|t: u64| est_premiere(reste, Some(fin), None, t),
                        ));
                        let suite = lecture(depuis(reste, s), s).2;
                        assert((avant + o1) + suite =~= avant + (o1 + suite));
                    }
                    jeter_avant(&mut self.courante, s);
                    next = s;
                },
                None => {
                    if self.courante.len() > ATTENTE_MAX {
                        self.courante.clear();
                        self.prochaine = None;
                    } else {
                        self.prochaine = Some(next);
                    }
                    return lues;
                },
            }
        }
    }
}

impl Default for Lecteur {
    fn default() -> (r: Self)
        ensures
            r.point().courante == Map::<u64, Trame>::empty(),
            r.point().autre == Map::<u64, Trame>::empty(),
            !r.sur_basse,
            r.prochaine is None,
            r.lu_pts is None,
    {
        Self::new()
    }
}

// ---------------------------------------------------------------------
// What the reading promises
// ---------------------------------------------------------------------

/// Whether no number is the greatest one, after which numbers start again.
pub open spec fn sans_tour(m: Map<u64, Trame>) -> bool {
    forall|k: u64| #[trigger] m.contains_key(k) ==> k < u64::MAX
}

/// Whether the frames are those of the list, in strictly increasing order and
/// from `next` on.
pub open spec fn en_ordre(m: Map<u64, Trame>, next: u64, lues: Seq<Lue>) -> bool {
    &&& forall|i: int|
        0 <= i < lues.len() ==> {
            let l = #[trigger] lues[i];
            l.0 >= next && m.contains_key(l.0) && l.1 == m[l.0].1 && l.2 == m[l.0].2
        }
    &&& forall|i: int, j: int|
        0 <= i < j < lues.len() ==> (#[trigger] lues[i]).0 < (#[trigger] lues[j]).0
}

proof fn lemme_contigu_en_ordre(m: Map<u64, Trame>, next: u64)
    requires
        m.dom().finite(),
        sans_tour(m),
    ensures
        en_ordre(m, next, contigu(m, next).2),
        contigu(m, next).1 == next + contigu(m, next).2.len(),
        forall|i: int|
            0 <= i < contigu(m, next).2.len() ==> (#[trigger] contigu(m, next).2[i]).0 == next + i,
    decreases m.dom().len(),
{
    if m.contains_key(next) {
        let m2 = m.remove(next);
        assert forall|k: u64| #[trigger] m2.contains_key(k) implies k < u64::MAX by {
            assert(m.contains_key(k));
        }
        lemme_contigu_en_ordre(m2, next.wrapping_add(1));
        let o = contigu(m2, next.wrapping_add(1)).2;
        let lues = contigu(m, next).2;
        assert forall|i: int| 0 <= i < lues.len() implies (#[trigger] lues[i]).0 == next + i
            && m.contains_key(lues[i].0) && lues[i].1 == m[lues[i].0].1 && lues[i].2
            == m[lues[i].0].2 by {
            if i > 0 {
                assert(lues[i] == o[i - 1]);
                assert(m2.contains_key(o[i - 1].0));
            }
        }
    }
}

/// Frames are read in strictly increasing order of their numbers, each as it
/// was received, and what is left holds no key frame beyond the next number.
pub proof fn loi_lecture_en_ordre(m: Map<u64, Trame>, next: u64)
    requires
        m.dom().finite(),
        sans_tour(m),
    ensures
        en_ordre(m, next, lecture(m, next).2),
        forall|i: int|
            0 <= i < lecture(m, next).2.len() ==> (#[trigger] lecture(m, next).2[i]).0 < lecture(
                m,
                next,
            ).1,
        lecture(m, next).1 >= next,
        premiere(lecture(m, next).0, Some(lecture(m, next).1), None) is None,
        !lecture(m, next).0.contains_key(lecture(m, next).1),
    decreases
            m.dom().len(),
            if m.contains_key(next) {
                0int
            } else {
                1int
            },
{
    lemme_contigu(m, next);
    lemme_contigu_en_ordre(m, next);
    let (reste, fin, o1) = contigu(m, next);
    if let Some(s) = premiere(reste, Some(fin), None) {
        assert(est_premiere(
            reste,
            Some(fin),
            None,
            choose|t: u64| est_premiere(reste, Some(fin), None, t),
        ));
        lemme_depuis(reste, s);
        let m2 = depuis(reste, s);
        assert forall|k: u64| #[trigger] m2.contains_key(k) implies k < u64::MAX by {
            assert(reste.contains_key(k));
            assert(m.contains_key(k));
        }
        loi_lecture_en_ordre(m2, s);
        let o2 = lecture(m2, s).2;
        let lues = o1 + o2;
        assert forall|i: int| 0 <= i < lues.len() implies {
            let l = #[trigger] lues[i];
            l.0 >= next && m.contains_key(l.0) && l.1 == m[l.0].1 && l.2 == m[l.0].2
        } by {
            if i >= o1.len() {
                assert(lues[i] == o2[i - o1.len()]);
                assert(m2.contains_key(lues[i].0));
                assert(reste.contains_key(lues[i].0));
            } else {
                assert(lues[i] == o1[i]);
            }
        }
        assert forall|i: int, j: int| 0 <= i < j < lues.len() implies (#[trigger] lues[i]).0 < (
        #[trigger] lues[j]).0 by {
            if i < o1.len() {
                assert(lues[i] == o1[i]);
                if j < o1.len() {
                    assert(lues[j] == o1[j]);
                } else {
                    assert(lues[j] == o2[j - o1.len()]);
                }
            } else {
                assert(lues[i] == o2[i - o1.len()]);
                assert(lues[j] == o2[j - o1.len()]);
            }
        }
        assert forall|i: int| 0 <= i < lues.len() implies (#[trigger] lues[i]).0 < lecture(
            m,
            next,
        ).1 by {
            if i >= o1.len() {
                assert(lues[i] == o2[i - o1.len()]);
            } else {
                assert(lues[i] == o1[i]);
            }
        }
    } else {
        assert forall|i: int| 0 <= i < o1.len() implies (#[trigger] o1[i]).0 < fin by {}
    }
}

/// The first frame read at a place where it stands is that one.
proof fn lemme_premiere_lue(m: Map<u64, Trame>, s: u64)
    requires
        m.dom().finite(),
        m.contains_key(s),
    ensures
        lecture(m, s).2.len() > 0,
        lecture(m, s).2[0] == (s, m[s].1, m[s].2),
{
    lemme_contigu(m, s);
    let (reste, fin, o1) = contigu(m, s);
    assert(o1[0] == (s, m[s].1, m[s].2));
    if let Some(t) = premiere(reste, Some(fin), None) {
        let o2 = lecture(depuis(reste, t), t).2;
        assert((o1 + o2)[0] == o1[0]);
    }
}

/// Reading that has not started yet starts at a key frame, the first one that
/// waits.
pub proof fn loi_depart_sur_une_cle(p: Point)
    requires
        p.courante.dom().finite(),
        p.prochaine is None,
    ensures
        p.depart().lues().len() > 0 ==> {
            let premier = p.depart().lues()[0];
            est_premiere(p.courante, None, None, premier.0) && p.courante[premier.0].0
        },
{
    if let Some(s) = premiere(p.courante, None, None) {
        assert(est_premiere(
            p.courante,
            None,
            None,
            choose|t: u64| est_premiere(p.courante, None, None, t),
        ));
        lemme_depuis(p.courante, s);
        lemme_premiere_lue(depuis(p.courante, s), s);
    }
}

/// A change of quality starts at a key frame of the other one that is newer
/// than all that was read: the picture never goes back.
pub proof fn loi_bascule_en_avant(p: Point)
    requires
        p.autre.dom().finite(),
        p.bascule().sur_basse != p.sur_basse,
    ensures
        p.bascule().depart().lues().len() > 0,
        ({
            let premier = p.bascule().depart().lues()[0];
            &&& p.autre.contains_key(premier.0)
            &&& p.autre[premier.0].0
            &&& p.lu_pts matches Some(l) ==> premier.1 > l
        }),
{
    let s = premiere(p.autre, None, p.lu_pts)->0;
    assert(est_premiere(
        p.autre,
        None,
        p.lu_pts,
        choose|t: u64| est_premiere(p.autre, None, p.lu_pts, t),
    ));
    lemme_depuis(p.autre, s);
    lemme_premiere_lue(depuis(p.autre, s), s);
}

/// A key frame of a list that the picture can go on with: newer than the last
/// one read, or any at all where none was read yet.
pub open spec fn reprise_possible(m: Map<u64, Trame>, lu: Option<u64>, k: u64) -> bool {
    m.contains_key(k) && m[k].0 && match lu {
        None => true,
        Some(pts) => m[k].1 > pts,
    }
}

proof fn lemme_plus_petite(m: Map<u64, Trame>, lu: Option<u64>, s: u64)
    requires
        reprise_possible(m, lu, s),
    ensures
        premiere(m, None, lu) is Some,
        est_premiere(m, None, lu, premiere(m, None, lu)->0),
    decreases s,
{
    if exists|k: u64| k < s && #[trigger] reprise_possible(m, lu, k) {
        let k = choose|k: u64| k < s && #[trigger] reprise_possible(m, lu, k);
        lemme_plus_petite(m, lu, k);
    } else {
        assert forall|k: u64| #[trigger] m.contains_key(k) && k < s implies !convient(
            k,
            m[k],
            None,
            lu,
        ) by {
            assert(!reprise_possible(m, lu, k));
        }
        assert(est_premiere(m, None, lu, s));
        lemme_premiere(m, None, lu, s);
    }
}

/// A change of quality is made, both ways and whichever is read: where the other
/// quality holds a key frame newer than what was read, or any where nothing was,
/// the reader goes there and the first frame it returns is the one of them with
/// the smallest number. The frames that it leaves are dropped.
pub proof fn loi_bascule_faite(p: Point, s: u64)
    requires
        p.autre.dom().finite(),
        reprise_possible(p.autre, p.lu_pts, s),
        forall|k: u64| #[trigger] reprise_possible(p.autre, p.lu_pts, k) ==> s <= k,
    ensures
        p.bascule().depart().avance().sur_basse == !p.sur_basse,
        p.bascule().depart().avance().autre == Map::<u64, Trame>::empty(),
        p.bascule().depart().lues().len() > 0,
        p.bascule().depart().lues()[0] == (s, p.autre[s].1, p.autre[s].2),
        forall|i: int|
            sans_tour(p.autre) && 0 <= i < p.bascule().depart().lues().len() ==> {
                let l = #[trigger] p.bascule().depart().lues()[i];
                p.autre.contains_key(l.0) && l.1 == p.autre[l.0].1 && l.2 == p.autre[l.0].2
            },
{
    lemme_plus_petite(p.autre, p.lu_pts, s);
    let t = premiere(p.autre, None, p.lu_pts)->0;
    assert(reprise_possible(p.autre, p.lu_pts, t));
    assert(p.autre.contains_key(s));
    assert(t == s);
    lemme_depuis(p.autre, s);
    lemme_premiere_lue(depuis(p.autre, s), s);
    if sans_tour(p.autre) {
        let m = depuis(p.autre, s);
        assert forall|k: u64| #[trigger] m.contains_key(k) implies k < u64::MAX by {
            assert(p.autre.contains_key(k));
        }
        loi_lecture_en_ordre(m, s);
        let lues = p.bascule().depart().lues();
        assert forall|i: int| 0 <= i < lues.len() implies {
            let l = #[trigger] lues[i];
            p.autre.contains_key(l.0) && l.1 == p.autre[l.0].1 && l.2 == p.autre[l.0].2
        } by {
            assert(m.contains_key(lues[i].0));
        }
    }
}

/// Without such a key frame in the other quality the reader stays where it is,
/// and what waits there goes on waiting, up to sixty frames.
pub proof fn loi_pas_de_bascule(p: Point)
    requires
        p.autre.dom().finite(),
        forall|k: u64| !#[trigger] reprise_possible(p.autre, p.lu_pts, k),
    ensures
        p.bascule().depart().avance().sur_basse == p.sur_basse,
        p.autre.dom().len() <= 60 ==> p.bascule().depart().avance().autre == p.autre,
        p.autre.dom().len() > 60 ==> p.bascule().depart().avance().autre == Map::<
            u64,
            Trame,
        >::empty(),
        p.prochaine matches Some(n) ==> p.bascule().depart().lues() == lecture(p.courante, n).2,
{
    if exists|s: u64| est_premiere(p.autre, None, p.lu_pts, s) {
        let s = choose|s: u64| est_premiere(p.autre, None, p.lu_pts, s);
        assert(reprise_possible(p.autre, p.lu_pts, s));
    }
}

/// Reading that has not started yet does start as soon as a key frame waits, at
/// the one with the smallest number; before that nothing is read and the frames
/// go on waiting, up to sixty of them.
pub proof fn loi_depart_fait(p: Point, s: u64)
    requires
        p.courante.dom().finite(),
        p.prochaine is None,
    ensures
        reprise_possible(p.courante, None, s) && (forall|k: u64|
            #[trigger] reprise_possible(p.courante, None, k) ==> s <= k) ==> {
            &&& p.depart().lues().len() > 0
            &&& p.depart().lues()[0] == (s, p.courante[s].1, p.courante[s].2)
        },
        (forall|k: u64| !#[trigger] reprise_possible(p.courante, None, k)) ==> {
            &&& p.depart().lues().len() == 0
            &&& p.depart().avance().prochaine is None
            &&& p.depart().avance().lu_pts == p.lu_pts
            &&& p.courante.dom().len() <= 60 ==> p.depart().avance().courante == p.courante
            &&& p.courante.dom().len() > 60 ==> p.depart().avance().courante == Map::<
                u64,
                Trame,
            >::empty()
        },
{
    if reprise_possible(p.courante, None, s) && (forall|k: u64|
        #[trigger] reprise_possible(p.courante, None, k) ==> s <= k) {
        lemme_plus_petite(p.courante, None, s);
        let t = premiere(p.courante, None, None)->0;
        assert(reprise_possible(p.courante, None, t));
        assert(p.courante.contains_key(s));
        assert(t == s);
        lemme_depuis(p.courante, s);
        lemme_premiere_lue(depuis(p.courante, s), s);
    }
    if forall|k: u64| !#[trigger] reprise_possible(p.courante, None, k) {
        if exists|t: u64| est_premiere(p.courante, None, None, t) {
            let t = choose|t: u64| est_premiere(p.courante, None, None, t);
            assert(reprise_possible(p.courante, None, t));
        }
    }
}

/// What was read last is remembered: its time stamp is that of the last frame
/// returned, and where none is returned it does not change.
pub proof fn loi_dernier_lu(p: Point)
    ensures
        p.lues().len() == 0 ==> p.avance().lu_pts == p.lu_pts,
        p.lues().len() > 0 ==> p.avance().lu_pts == Some(p.lues()[p.lues().len() - 1].1),
{
}

/// The frame that follows another in what is read: the very next number, or,
/// where that one is missing, the first key frame beyond the gap.
pub open spec fn bien_enchaine(m: Map<u64, Trame>, attendu: int, n: u64) -> bool {
    ||| n == attendu
    ||| {
        &&& n > attendu
        &&& m[n].0
        &&& forall|k: u64| #[trigger] m.contains_key(k) ==> k != attendu
        &&& forall|k: u64| #[trigger] m.contains_key(k) && attendu < k < n ==> !m[k].0
    }
}

/// What is read of a list from a number on, when nothing that can be shown is
/// left out: it starts with the frame that is due, or else at the first key frame
/// beyond it, goes on one number at a time, and jumps only over a number that is
/// missing, to the first key frame past it. It stops only where the next number
/// is missing and no key frame is left beyond it; all that came in beyond the
/// last frame read goes on waiting.
pub open spec fn lecture_complete(
    m: Map<u64, Trame>,
    next: u64,
    reste: Map<u64, Trame>,
    fin: u64,
    lues: Seq<Lue>,
) -> bool {
    &&& forall|i: int|
        0 < i < lues.len() ==> bien_enchaine(m, lues[i - 1].0 + 1, (#[trigger] lues[i]).0)
    &&& lues.len() > 0 ==> bien_enchaine(m, next as int, lues[0].0)
    &&& fin == if lues.len() == 0 {
        next as int
    } else {
        lues[lues.len() - 1].0 + 1
    }
    &&& !m.contains_key(fin)
    &&& forall|k: u64| #[trigger] m.contains_key(k) && k > fin ==> !m[k].0 && reste.contains_key(k)
    &&& forall|k: u64| #[trigger] reste.contains_key(k) ==> m.contains_key(k) && reste[k] == m[k]
}

/// Nothing that can be shown is left out by the reading.
pub proof fn loi_lecture_complete(m: Map<u64, Trame>, next: u64)
    requires
        m.dom().finite(),
        sans_tour(m),
    ensures
        lecture_complete(m, next, lecture(m, next).0, lecture(m, next).1, lecture(m, next).2),
    decreases
            m.dom().len(),
            if m.contains_key(next) {
                0int
            } else {
                1int
            },
{
    lemme_contigu(m, next);
    lemme_contigu_en_ordre(m, next);
    lemme_contigu_laisse(m, next);
    let (reste, fin, o1) = contigu(m, next);
    if let Some(s) = premiere(reste, Some(fin), None) {
        assert(est_premiere(
            reste,
            Some(fin),
            None,
            choose|t: u64| est_premiere(reste, Some(fin), None, t),
        ));
        lemme_depuis(reste, s);
        let m2 = depuis(reste, s);
        assert forall|k: u64| #[trigger] m2.contains_key(k) implies k < u64::MAX by {
            assert(reste.contains_key(k));
            assert(m.contains_key(k));
        }
        loi_lecture_complete(m2, s);
        lemme_premiere_lue(m2, s);
        loi_lecture_en_ordre(m2, s);
        let (reste2, fin2, o2) = lecture(m2, s);
        assert forall|k: u64| #[trigger] m2.contains_key(k) <==> m.contains_key(k) && k >= s by {
            if m.contains_key(k) && k >= s {
                assert(reste.contains_key(k));
            }
        }
        assert forall|k: u64| #[trigger] m2.contains_key(k) implies m2[k] == m[k] by {
            assert(reste.contains_key(k));
        }
        assert forall|k: u64| #[trigger] m.contains_key(k) && fin < k < s implies !m[k].0 by {
            assert(reste.contains_key(k));
        }
        assert(m2.contains_key(s));
        lemme_saut(m, next, fin, o1, m2, s, reste2, fin2, o2);
    } else {
        assert forall|k: u64| #[trigger] m.contains_key(k) && k > fin implies !m[k].0
            && reste.contains_key(k) by {
            assert(reste.contains_key(k));
            if m[k].0 {
                lemme_une_premiere(reste, fin, k);
            }
        }
        assert(lecture(m, next) == (reste, fin, o1));
    }
}

/// A stretch read in a row, then what is read from the first key frame past the
/// gap behind it.
proof fn lemme_saut(
    m: Map<u64, Trame>,
    next: u64,
    fin: u64,
    o1: Seq<Lue>,
    m2: Map<u64, Trame>,
    s: u64,
    reste2: Map<u64, Trame>,
    fin2: u64,
    o2: Seq<Lue>,
)
    requires
        fin == next + o1.len(),
        forall|i: int| 0 <= i < o1.len() ==> (#[trigger] o1[i]).0 == next + i,
        !m.contains_key(fin),
        s > fin,
        m.contains_key(s) && m[s].0,
        forall|k: u64| #[trigger] m2.contains_key(k) <==> m.contains_key(k) && k >= s,
        forall|k: u64| #[trigger] m2.contains_key(k) ==> m2[k] == m[k],
        forall|k: u64| #[trigger] m.contains_key(k) && fin < k < s ==> !m[k].0,
        lecture_complete(m2, s, reste2, fin2, o2),
        o2.len() > 0 && o2[0].0 == s,
        forall|i: int| 0 <= i < o2.len() ==> (#[trigger] o2[i]).0 >= s && m2.contains_key(o2[i].0),
        fin2 >= s,
    ensures
        lecture_complete(m, next, reste2, fin2, o1 + o2),
{
    let lues = o1 + o2;
    let n1 = o1.len() as int;
    assert forall|i: int| 0 < i < lues.len() implies bien_enchaine(
        m,
        lues[i - 1].0 + 1,
        (#[trigger] lues[i]).0,
    ) by {
        if i < n1 {
            assert(lues[i] == o1[i]);
            assert(lues[i - 1] == o1[i - 1]);
        } else if i == n1 {
            assert(lues[i] == o2[0]);
            assert(lues[i - 1] == o1[i - 1]);
        } else {
            assert(lues[i] == o2[i - n1]);
            assert(lues[i - 1] == o2[i - n1 - 1]);
            let a = o2[i - n1 - 1].0 + 1;
            let n = o2[i - n1].0;
            assert(bien_enchaine(m2, a, n));
            if n != a {
                assert(m2.contains_key(n));
                assert forall|k: u64| #[trigger] m.contains_key(k) implies k != a by {
                    if k == a {
                        assert(m2.contains_key(k));
                    }
                }
                assert forall|k: u64| #[trigger] m.contains_key(k) && a < k < n implies !m[k].0 by {
                    assert(m2.contains_key(k));
                }
            }
        }
    }
    if n1 == 0 {
        assert(lues[0] == o2[0]);
    } else {
        assert(lues[0] == o1[0]);
    }
    assert(lues[lues.len() - 1] == o2[o2.len() - 1]);
    if m.contains_key(fin2) {
        assert(m2.contains_key(fin2));
    }
    assert forall|k: u64| #[trigger] m.contains_key(k) && k > fin2 implies !m[k].0
        && reste2.contains_key(k) by {
        assert(m2.contains_key(k));
    }
    assert forall|k: u64| #[trigger] reste2.contains_key(k) implies m.contains_key(k) && reste2[k]
        == m[k] by {
        assert(m2.contains_key(k));
    }
}

proof fn lemme_une_premiere(m: Map<u64, Trame>, fin: u64, k: u64)
    requires
        m.contains_key(k),
        m[k].0,
        k > fin,
    ensures
        premiere(m, Some(fin), None) is Some,
    decreases k,
{
    if exists|j: u64| #[trigger] m.contains_key(j) && j < k && m[j].0 && j > fin {
        let j = choose|j: u64| #[trigger] m.contains_key(j) && j < k && m[j].0 && j > fin;
        lemme_une_premiere(m, fin, j);
    } else {
        assert(est_premiere(m, Some(fin), None, k));
    }
}

proof fn lemme_contigu_laisse(m: Map<u64, Trame>, next: u64)
    requires
        m.dom().finite(),
        sans_tour(m),
    ensures
        forall|k: u64| #[trigger]
            m.contains_key(k) && !(next <= k < contigu(m, next).1) ==> contigu(
                m,
                next,
            ).0.contains_key(k),
        !m.contains_key(contigu(m, next).1),
    decreases m.dom().len(),
{
    lemme_contigu_en_ordre(m, next);
    if m.contains_key(next) {
        let m2 = m.remove(next);
        assert forall|k: u64| #[trigger] m2.contains_key(k) implies k < u64::MAX by {
            assert(m.contains_key(k));
        }
        lemme_contigu_laisse(m2, next.wrapping_add(1));
        lemme_contigu_en_ordre(m2, next.wrapping_add(1));
        assert forall|k: u64| #[trigger]
            m.contains_key(k) && !(next <= k < contigu(m, next).1) implies contigu(
            m,
            next,
        ).0.contains_key(k) by {
            assert(m2.contains_key(k));
        }
        if m.contains_key(contigu(m, next).1) {
            assert(m2.contains_key(contigu(m, next).1));
        }
    }
}

/// Where the reading has a place to go on from, all that it leaves waiting is
/// kept, up to thirty frames; past that nothing is, and it starts over at a key
/// frame. Without one it leaves everything as it is.
pub proof fn loi_avance_garde(p: Point)
    requires
        p.courante.dom().finite(),
    ensures
        p.avance().autre == p.autre && p.avance().sur_basse == p.sur_basse,
        p.prochaine is None ==> p.avance() == p && p.lues().len() == 0,
        p.prochaine matches Some(n) ==> {
            let (reste, fin, lues) = lecture(p.courante, n);
            &&& p.lues() == lues
            &&& reste.dom().len() <= 30 ==> p.avance().courante == reste && p.avance().prochaine
                == Some(fin)
            &&& reste.dom().len() > 30 ==> p.avance().courante == Map::<u64, Trame>::empty()
                && p.avance().prochaine is None
        },
{
}

proof fn lemme_lecture_reduit(m: Map<u64, Trame>, next: u64)
    requires
        m.dom().finite(),
    ensures
        lecture(m, next).0.dom().finite(),
    decreases
            m.dom().len(),
            if m.contains_key(next) {
                0int
            } else {
                1int
            },
{
    lemme_contigu(m, next);
    let (reste, fin, o1) = contigu(m, next);
    if let Some(s) = premiere(reste, Some(fin), None) {
        assert(est_premiere(
            reste,
            Some(fin),
            None,
            choose|t: u64| est_premiere(reste, Some(fin), None, t),
        ));
        lemme_depuis(reste, s);
        lemme_lecture_reduit(depuis(reste, s), s);
    }
}

/// However long a stream lasts, no more than a fixed number of frames waits
/// after each look.
pub proof fn loi_attentes_bornees(p: Point)
    requires
        p.courante.dom().finite(),
        p.autre.dom().finite(),
    ensures
        ({
            let q = p.bascule().depart().avance();
            &&& q.courante.dom().finite() && q.autre.dom().finite()
            &&& q.courante.dom().len() <= 2 * ATTENTE_MAX
            &&& q.autre.dom().len() <= 2 * ATTENTE_MAX
            &&& q.prochaine is Some ==> q.courante.dom().len() <= ATTENTE_MAX
        }),
{
    let b = p.bascule();
    if let Some(s) = premiere(p.autre, None, p.lu_pts) {
        lemme_depuis(p.autre, s);
    }
    assert(b.courante.dom().finite() && b.autre.dom().finite());
    let d = b.depart();
    if let Some(s) = premiere(b.courante, None, None) {
        lemme_depuis(b.courante, s);
    }
    assert(d.courante.dom().finite());
    if let Some(n) = d.prochaine {
        lemme_lecture_reduit(d.courante, n);
    }
}

// ---------------------------------------------------------------------
// Showing the pictures
// ---------------------------------------------------------------------

/// How far ahead of the sound a picture may be shown, in microseconds.
pub const TOLERANCE_US: u64 = 15_000;

/// The most pictures that wait to be shown.
pub const FILE_AFFICHAGE_MAX: usize = 12;

/// How long the sound may have been silent before pictures stop waiting for
/// it, in microseconds.
pub const SILENCE_MAX_US: u64 = 1_500_000;

/// Where the sound is now: where it was at the last look, plus the time since
/// then; nothing once it has been silent for too long.
pub fn lire_horloge(releve: Option<(u64, u64)>, maintenant_us: u64) -> (r: Option<u64>)
    requires
        releve matches Some((pts, quand)) ==> pts + SILENCE_MAX_US <= u64::MAX,
    ensures
        r == match releve {
            Some((pts, quand)) => {
                let age = if maintenant_us > quand {
                    maintenant_us - quand
                } else {
                    0
                };
                if age < SILENCE_MAX_US {
                    Some((pts + age) as u64)
                } else {
                    None
                }
            },
            None => None,
        },
{
    match releve {
        Some((pts, quand)) => {
            let age: u64 = maintenant_us.saturating_sub(quand);
            if age < SILENCE_MAX_US {
                Some(pts + age)
            } else {
                None
            }
        },
        None => None,
    }
}

/// What comes out of the sound card now: this packet ends 20 ms after its
/// time stamp, less the samples that wait before it.
pub fn son_en_lecture(pts_us: u64, en_attente: u64) -> (r: u64)
    requires
        pts_us + 20_000 <= u64::MAX,
        en_attente * 1_000_000 <= u64::MAX,
    ensures
        ({
            let avance = en_attente * 1_000_000 / 48_000;
            r == if pts_us + 20_000 >= avance {
                pts_us + 20_000 - avance
            } else {
                0
            }
        }),
{
    let avance_us: u64 = en_attente * 1_000_000 / 48_000;
    (pts_us + 20_000).saturating_sub(avance_us)
}

/// Whether the first picture in line is to be shown: the sound has got there,
/// or there is none, or the line is too long.
pub open spec fn due(pts: u64, son: Option<u64>, en_file: nat) -> bool {
    (match son {
        Some(h) => pts <= h + TOLERANCE_US,
        None => true,
    }) || en_file > FILE_AFFICHAGE_MAX
}

/// How many pictures of the line are shown now.
pub open spec fn dues(file: Seq<u64>, son: Option<u64>) -> nat
    decreases file.len(),
{
    if file.len() > 0 && due(file[0], son, file.len()) {
        1 + dues(file.drop_first(), son)
    } else {
        0
    }
}

/// How many pictures of the line, given by their time stamps, are shown now.
pub fn images_dues(file: &[u64], son: Option<u64>) -> (r: usize)
    ensures
        r == dues(file@, son),
        r <= file@.len(),
{
    let n: usize = file.len();
    let mut r: usize = 0;
    assert(file@.skip(0) =~= file@);
    while r < n
        invariant
            n == file@.len(),
            r <= n,
            dues(file@, son) == r + dues(file@.skip(r as int), son),
        decreases n - r,
    {
        let a_temps: bool = match son {
            Some(h) => file[r].saturating_sub(TOLERANCE_US) <= h,
            None => true,
        };
        if !(a_temps || n - r > FILE_AFFICHAGE_MAX) {
            return r;
        }
        assert(file@.skip(r as int).drop_first() =~= file@.skip(r + 1));
        r += 1;
    }
    r
}

/// No more than a fixed number of pictures is left in line, and none where
/// there is no sound to wait for.
pub proof fn loi_file_bornee(file: Seq<u64>, son: Option<u64>)
    ensures
        dues(file, son) <= file.len(),
        file.len() - dues(file, son) <= FILE_AFFICHAGE_MAX,
        son is None ==> dues(file, son) == file.len(),
    decreases file.len(),
{
    if file.len() > 0 && due(file[0], son, file.len()) {
        loi_file_bornee(file.drop_first(), son);
    }
}

/// A picture is shown once the sound is at most 15 ms behind it, or at once
/// where there is no sound, or where more than twelve wait; pictures are shown
/// from the front of the line, and the first that is held back is early, with
/// twelve in line at most.
pub proof fn loi_image_attend_le_son(file: Seq<u64>, son: Option<u64>)
    ensures
        ({
            let d = dues(file, son) as int;
            &&& 0 <= d <= file.len()
            &&& forall|i: int|
                0 <= i < d ==> son is None || #[trigger] file[i] <= son->0 + 15_000 || file.len()
                    - i > 12
            &&& d < file.len() ==> son is Some && file[d] > son->0 + 15_000 && file.len() - d <= 12
        }),
    decreases file.len(),
{
    if file.len() > 0 && due(file[0], son, file.len()) {
        let suite = file.drop_first();
        loi_image_attend_le_son(suite, son);
        let d = dues(file, son) as int;
        assert forall|i: int| 0 <= i < d implies son is None || #[trigger] file[i] <= son->0
            + 15_000 || file.len() - i > 12 by {
            if i > 0 {
                assert(file[i] == suite[i - 1]);
            }
        }
        if d < file.len() {
            assert(file[d] == suite[d - 1]);
        }
    }
}

/// How long to wait for the next frame, in milliseconds: not long where a
/// picture waits for its time.
pub fn delai_attente(en_file: usize) -> (r: u64)
    ensures
        r == if en_file == 0 {
            200u64
        } else {
            5u64
        },
{
    if en_file == 0 {
        200
    } else {
        5
    }
}

/// The key frame to go to is the one with the smallest number of those that the
/// picture can go on with, and there is one as soon as one of these waits.
pub proof fn loi_cle_de_bascule(m: Map<u64, Trame>, lu: Option<u64>, s: u64)
    ensures
        reprise_possible(m, lu, s) ==> premiere(m, None, lu) is Some && premiere(m, None, lu)->0
            <= s,
        premiere(m, None, lu) matches Some(k) ==> reprise_possible(m, lu, k),
{
    if reprise_possible(m, lu, s) {
        lemme_plus_petite(m, lu, s);
        let k = premiere(m, None, lu)->0;
        assert(m.contains_key(s));
        assert(est_premiere(m, None, lu, k));
    }
    if exists|t: u64| est_premiere(m, None, lu, t) {
        let t = choose|t: u64| est_premiere(m, None, lu, t);
        assert(est_premiere(m, None, lu, t));
    }
}

} // verus!
