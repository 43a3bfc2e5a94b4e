//! What leaves for the server on its own account: technical diagnostics, and
//! the files that are shared.

use crate::affichage;
use crate::json;
use crate::markup;
use crate::protocole::ClientMsg;
use crate::texte;
use vstd::prelude::*;

verus! {

// ---------------------------------------------------------------------
// A batch
// ---------------------------------------------------------------------

/// What was sent, and when.
#[derive(Debug, Clone, Copy, PartialEq, Eq)]
pub struct Partage {
    /// The date of the last line of the log that was sent.
    pub last_sent_ts: u64,
    /// When a batch last left, in milliseconds.
    pub last_flush: Option<u64>,
}

/// How long to wait between two batches, in milliseconds.
pub const CADENCE_MS: u64 = 600_000;

/// The line that says which machine speaks.
pub open spec fn ligne_meta(
    maintenant: u64,
    version: Seq<char>,
    os: Seq<char>,
    arch: Seq<char>,
) -> Seq<char> {
    "{\"type\":\"meta\",\"t\":"@ + texte::decimal(maintenant as nat) + ",\"version\":\""@ + version
        + "\",\"os\":\""@ + os + " "@ + arch + "\"}\n"@
}

/// A line of the log.
pub open spec fn ligne_journal(t: u64, msg: Seq<char>) -> Seq<char> {
    "{\"type\":\"journal\",\"t\":"@ + texte::decimal(t as nat) + ",\"msg\":"@ + json::chaine_json(msg)
        + "}\n"@
}

/// The line of the report on the audio.
pub open spec fn ligne_docteur(maintenant: u64, rapport: Seq<char>) -> Seq<char> {
    "{\"type\":\"docteur\",\"t\":"@ + texte::decimal(maintenant as nat) + ",\"rapport\":"@
        + json::chaine_json(rapport) + "}\n"@
}

/// The lines of the log that came after this date.
pub open spec fn lignes_fraiches(journal: Seq<(u64, String)>, depuis: u64) -> Seq<char>
    decreases journal.len(),
{
    if journal.len() == 0 {
        Seq::empty()
    } else {
        let avant = lignes_fraiches(journal.drop_last(), depuis);
        let (t, msg) = journal.last();
        if t > depuis {
            avant + ligne_journal(t, msg@)
        } else {
            avant
        }
    }
}

/// Some line of the log came after this date.
pub open spec fn du_neuf(journal: Seq<(u64, String)>, depuis: u64) -> bool {
    exists|i: int| 0 <= i < journal.len() && (#[trigger] journal[i]).0 > depuis
}

/// What is remembered once a batch is made out of a log.
pub open spec fn expedie(p: Partage, journal: Seq<(u64, String)>) -> Partage {
    Partage {
        last_sent_ts: if journal.len() > 0 {
            journal.last().0
        } else {
            p.last_sent_ts
        },
        ..p
    }
}

/// What is remembered once a batch made after `depuis` did not leave.
pub open spec fn remis(p: Partage, depuis: u64) -> Partage {
    Partage {
        last_sent_ts: if depuis < p.last_sent_ts {
            depuis
        } else {
            p.last_sent_ts
        },
        ..p
    }
}

impl Partage {
    pub fn new() -> (r: Self)
        ensures
            r.last_sent_ts == 0 && r.last_flush is None,
    {
        Partage { last_sent_ts: 0, last_flush: None }
    }

    /// It is time for a batch: diagnostics are shared, there is a connection,
    /// and the last one is long enough ago. If so, the clock starts again.
    pub fn maybe_flush_diag(&mut self, partage: bool, connecte: bool, maintenant: u64) -> (r: bool)
        ensures
            r == (partage && connecte && match old(self).last_flush {
                Some(t) => maintenant - t > CADENCE_MS,
                None => true,
            }),
            *final(self) == if r {
                Partage { last_flush: Some(maintenant), ..*old(self) }
            } else {
                *old(self)
            },
    {
        if !partage || !connecte {
            return false;
        }
        let due: bool = match self.last_flush {
            Some(t) => maintenant > t && maintenant - t > CADENCE_MS,
            None => true,
        };
        if !due {
            return false;
        }
        self.last_flush = Some(maintenant);
        true
    }

    /// The report on the audio goes with the first batch, and with one that was
    /// asked for.
    pub fn veut_docteur(&self, manual: bool) -> (r: bool)
        ensures
            r == (manual || self.last_sent_ts == 0),
    {
        manual || self.last_sent_ts == 0
    }

    /// A batch that was made when all before `depuis` had left did not leave: the
    /// next one carries it too.
    pub fn remettre(&mut self, depuis: u64)
        ensures
            *final(self) == remis(*old(self), depuis),
    {
        if depuis < self.last_sent_ts {
            self.last_sent_ts = depuis;
        }
    }

    /// Makes a batch out of what the log has that is new, and remembers where
    /// it ends. There is none without anything new, unless it was asked for.
    /// `rapport` is the report on the audio, where there is one.
    pub fn flush_diag(
        &mut self,
        journal: &Vec<(u64, String)>,
        manual: bool,
        maintenant: u64,
        machine: (&str, &str, &str),
        rapport: Option<&str>,
    ) -> (r: Option<String>)
        ensures
            if !manual && !du_neuf(journal@, old(self).last_sent_ts) {
                r is None && *final(self) == *old(self)
            } else {
                &&& *final(self) == expedie(*old(self), journal@)
                &&& texte::vue(r) == Some(
                    ligne_meta(maintenant, machine.0@, machine.1@, machine.2@) + lignes_fraiches(
                        journal@,
                        old(self).last_sent_ts,
                    ) + match rapport {
                        Some(d) => if manual || old(self).last_sent_ts == 0 {
                            ligne_docteur(maintenant, d@)
                        } else {
                            Seq::empty()
                        },
                        None => Seq::empty(),
                    },
                )
            },
    {
        let depuis: u64 = self.last_sent_ts;
        let (version, os, arch): (&str, &str, &str) = machine;
        let mut lot: String = "{\"type\":\"meta\",\"t\":".to_owned();
        texte::pousser_decimal(&mut lot, maintenant);
        lot.append(",\"version\":\"");
        lot.append(version);
        lot.append("\",\"os\":\"");
        lot.append(os);
        lot.append(" ");
        lot.append(arch);
        lot.append("\"}\n");
        let ghost meta = ligne_meta(maintenant, version@, os@, arch@);
        assert(lot@ == meta);
        let mut frais: bool = false;
        let mut i: usize = 0;
        assert(lot@ =~= meta + lignes_fraiches(journal@.take(0), depuis));
        while i < journal.len()
            invariant
                i <= journal@.len(),
                lot@ == meta + lignes_fraiches(journal@.take(i as int), depuis),
                frais == (exists|k: int| 0 <= k < i && (#[trigger] journal@[k]).0 > depuis),
            decreases journal@.len() - i,
        {
            assert(journal@.take(i + 1).drop_last() =~= journal@.take(i as int));
            let ghost avant = lot@;
            let t: u64 = journal[i].0;
            if t > depuis {
                frais = true;
                let msg: String = json::en_json(journal[i].1.as_str());
                lot.append("{\"type\":\"journal\",\"t\":");
                texte::pousser_decimal(&mut lot, t);
                lot.append(",\"msg\":");
                lot.append(msg.as_str());
                lot.append("}\n");
                assert(journal@[i as int].0 > depuis);
                assert(lot@ =~= avant + ligne_journal(t, journal@[i as int].1@));
                assert(lot@ =~= meta + lignes_fraiches(journal@.take(i + 1), depuis));
            }
            i += 1;
        }
        assert(journal@.take(i as int) =~= journal@);
        if !frais && !manual {
            return None;
        }
        let ghost avant = lot@;
        if let Some(d) = rapport {
            if manual || depuis == 0 {
                let texte_json: String = json::en_json(d);
                lot.append("{\"type\":\"docteur\",\"t\":");
                texte::pousser_decimal(&mut lot, maintenant);
                lot.append(",\"rapport\":");
                lot.append(texte_json.as_str());
                lot.append("}\n");
                assert(lot@ =~= avant + ligne_docteur(maintenant, d@));
            } else {
                assert(lot@ =~= avant + Seq::<char>::empty());
            }
        } else {
            assert(lot@ =~= avant + Seq::<char>::empty());
        }
        let n: usize = journal.len();
        if n > 0 {
            self.last_sent_ts = journal[n - 1].0;
        }
        Some(lot)
    }
}

/// A batch of a log in order carries nothing twice: once it has left, nothing
/// of that log is new any more.
pub proof fn loi_rien_deux_fois(journal: Seq<(u64, String)>)
    requires
        journal.len() > 0,
        forall|i: int, j: int|
            0 <= i <= j < journal.len() ==> (#[trigger] journal[i]).0 <= (#[trigger] journal[j]).0,
    ensures
        !du_neuf(journal, journal.last().0),
        lignes_fraiches(journal, journal.last().0).len() == 0,
{
    lemme_rien_de_neuf(journal, journal.last().0);
}

/// A batch that did not leave is carried by the next, ahead of what the log has
/// gathered since.
pub proof fn loi_envoi_rate_retente(
    p: Partage,
    journal: Seq<(u64, String)>,
    suite: Seq<(u64, String)>,
)
    requires
        du_neuf(journal, p.last_sent_ts),
        forall|i: int, j: int|
            0 <= i <= j < journal.len() ==> (#[trigger] journal[i]).0 <= (#[trigger] journal[j]).0,
    ensures
        remis(expedie(p, journal), p.last_sent_ts) == p,
        du_neuf(journal + suite, p.last_sent_ts),
        lignes_fraiches(journal + suite, p.last_sent_ts) == lignes_fraiches(journal, p.last_sent_ts)
            + lignes_fraiches(suite, p.last_sent_ts),
{
    let i: int = choose|i: int| 0 <= i < journal.len() && (#[trigger] journal[i]).0 > p.last_sent_ts;
    assert(journal[i].0 <= journal[journal.len() - 1].0);
    assert((journal + suite)[i].0 > p.last_sent_ts);
    lemme_fraiches_bout_a_bout(journal, suite, p.last_sent_ts);
}

proof fn lemme_fraiches_bout_a_bout(a: Seq<(u64, String)>, b: Seq<(u64, String)>, depuis: u64)
    ensures
        lignes_fraiches(a + b, depuis) == lignes_fraiches(a, depuis) + lignes_fraiches(b, depuis),
    decreases b.len(),
{
    if b.len() == 0 {
        assert(a + b =~= a);
        assert(lignes_fraiches(a, depuis) + lignes_fraiches(b, depuis) =~= lignes_fraiches(a, depuis));
    } else {
        assert((a + b).drop_last() =~= a + b.drop_last());
        assert((a + b).last() == b.last());
        lemme_fraiches_bout_a_bout(a, b.drop_last(), depuis);
        assert(lignes_fraiches(a + b, depuis) =~= lignes_fraiches(a, depuis) + lignes_fraiches(
            b,
            depuis,
        ));
    }
}

proof fn lemme_rien_de_neuf(journal: Seq<(u64, String)>, depuis: u64)
    requires
        forall|i: int| 0 <= i < journal.len() ==> (#[trigger] journal[i]).0 <= depuis,
    ensures
        lignes_fraiches(journal, depuis).len() == 0,
    decreases journal.len(),
{
    if journal.len() > 0 {
        assert forall|i: int| 0 <= i < journal.len() - 1 implies (#[trigger] journal.drop_last()[i]).0
            <= depuis by {
            assert(journal[i].0 <= depuis);
        }
        lemme_rien_de_neuf(journal.drop_last(), depuis);
    }
}

/// A log as it is copied: a line for each event, after the hour it came at.
pub open spec fn journal_copie(heures: Seq<String>, journal: Seq<(u64, String)>) -> Seq<char>
    decreases journal.len(),
{
    if journal.len() == 0 {
        Seq::empty()
    } else {
        journal_copie(heures.drop_last(), journal.drop_last()) + (heures.last()@ + " "@
            + journal.last().1@ + "\n"@)
    }
}

/// Copies a log. `heures` holds the hour of each event, in words.
pub fn copier_journal(heures: &Vec<String>, journal: &Vec<(u64, String)>) -> (r: String)
    requires
        heures@.len() == journal@.len(),
    ensures
        r@ == journal_copie(heures@, journal@),
{
    let mut r: String = String::new();
    assert(journal@.take(0) =~= Seq::empty());
    assert(r@ =~= journal_copie(heures@.take(0), journal@.take(0)));
    let mut i: usize = 0;
    while i < journal.len()
        invariant
            heures@.len() == journal@.len(),
            i <= journal@.len(),
            r@ == journal_copie(heures@.take(i as int), journal@.take(i as int)),
        decreases journal@.len() - i,
    {
        let ghost avant = r@;
        r.append(heures[i].as_str());
        r.append(" ");
        r.append(journal[i].1.as_str());
        r.append("\n");
        proof {
            let h = heures@.take(i + 1);
            let j = journal@.take(i + 1);
            assert(h.drop_last() =~= heures@.take(i as int));
            assert(j.drop_last() =~= journal@.take(i as int));
            assert(r@ =~= avant + (h.last()@ + " "@ + j.last().1@ + "\n"@));
        }
        i += 1;
    }
    assert(heures@.take(i as int) =~= heures@);
    assert(journal@.take(i as int) =~= journal@);
    r
}

// ---------------------------------------------------------------------
// What the members share, as an administrator gathers it
// ---------------------------------------------------------------------

/// The lines of a text: what ends with a line feed, without the carriage return
/// that may stand before it, and then what is left, if anything is.
pub open spec fn lignes_de(s: Seq<char>) -> Seq<Seq<char>> {
    let p = texte::separe(s, '\n');
    let n = (p.len() - 1) as nat;
    Seq::new(n, |i: int| markup::sans_retour(p[i])) + if p.last().len() > 0 {
        seq![p.last()]
    } else {
        Seq::empty()
    }
}

/// The lines of a text.
pub fn lignes(s: &str) -> (r: Vec<&str>)
    ensures
        texte::vues_str(r@) == lignes_de(s@),
{
    let p: Vec<&str> = texte::separer(s, '\n');
    let n: usize = p.len() - 1;
    let ghost vues = texte::vues_str(p@);
    let mut r: Vec<&str> = Vec::new();
    let mut i: usize = 0;
    while i < n
        invariant
            i <= n,
            n + 1 == p@.len(),
            vues == texte::vues_str(p@),
            r@.len() == i,
            forall|k: int| 0 <= k < i ==> (#[trigger] r@[k])@ == markup::sans_retour(vues[k]),
        decreases n - i,
    {
        r.push(markup::sans_retour_de_ligne(p[i]));
        i += 1;
    }
    let derniere: &str = p[n];
    assert(vues.last() == derniere@);
    let ghost debut = Seq::new(n as nat, |i: int| markup::sans_retour(vues[i]));
    assert(texte::vues_str(r@) =~= debut);
    if !derniere.is_empty() {
        r.push(derniere);
        assert(texte::vues_str(r@) =~= debut + seq![derniere@]);
    } else {
        assert(texte::vues_str(r@) =~= debut + Seq::empty());
    }
    r
}

/// The file that a line of the list names: what stands before its first tab.
pub open spec fn fichier_de(ligne: Seq<char>) -> Seq<char> {
    match texte::coupe_a(ligne, '\t') {
        Some((f, _)) => f,
        None => ligne,
    }
}

/// The file that a line of the list names.
pub fn fichier_liste(ligne: &str) -> (r: &str)
    ensures
        r@ == fichier_de(ligne@),
{
    match texte::couper_a(ligne, '\t') {
        Some((f, _)) => f,
        None => ligne,
    }
}

/// Where the end of a member's log is fetched.
pub fn adresse_journal(base: &str, fichier: &str) -> (r: String)
    ensures
        r@ == base@ + "/diag/"@ + fichier@ + "?tail=65536"@,
{
    let mut r: String = base.to_owned();
    r.append("/diag/");
    r.append(fichier);
    r.append("?tail=65536");
    r
}

/// What came of one line of the list, under its name.
pub open spec fn releve_de(ligne: Seq<char>, contenu: Result<String, String>) -> Seq<char> {
    "\n===== "@ + ligne + " =====\n"@ + match contenu {
        Ok(t) => t@,
        Err(e) => "(illisible : "@ + e@ + ")\n"@,
    }
}

/// What came of all of them, put end to end.
pub open spec fn releves(lignes: Seq<&str>, contenus: Seq<Result<String, String>>) -> Seq<char>
    decreases lignes.len(),
{
    if lignes.len() == 0 {
        Seq::empty()
    } else {
        releves(lignes.drop_last(), contenus.drop_last()) + releve_de(
            lignes.last()@,
            contenus.last(),
        )
    }
}

/// What an administrator reads of the logs that were gathered, each under the
/// line that lists it.
pub fn assembler(liste: &str, lignes: &Vec<&str>, contenus: &Vec<Result<String, String>>) -> (r:
    String)
    requires
        lignes@.len() == contenus@.len(),
    ensures
        r@ == if texte::rogne(liste@).len() == 0 {
            "aucun diagnostic reçu pour l'instant — personne n'a coché l'option, ou le serveur vient d'être redéployé"@
        } else {
            releves(lignes@, contenus@)
        },
{
    if texte::rogner(liste).is_empty() {
        return "aucun diagnostic reçu pour l'instant — personne n'a coché l'option, ou le serveur vient d'être redéployé".to_owned();
    }
    let mut r: String = String::new();
    assert(lignes@.take(0) =~= Seq::empty());
    assert(r@ =~= releves(lignes@.take(0), contenus@.take(0)));
    let mut i: usize = 0;
    while i < lignes.len()
        invariant
            lignes@.len() == contenus@.len(),
            i <= lignes@.len(),
            r@ == releves(lignes@.take(i as int), contenus@.take(i as int)),
        decreases lignes@.len() - i,
    {
        let ghost avant = r@;
        r.append("\n===== ");
        r.append(lignes[i]);
        r.append(" =====\n");
        let ghost titre = "\n===== "@ + lignes@[i as int]@ + " =====\n"@;
        assert(r@ =~= avant + titre);
        match &contenus[i] {
            Ok(t) => {
                r.append(t.as_str());
                assert(r@ =~= avant + (titre + t@));
            },
            Err(e) => {
                r.append("(illisible : ");
                r.append(e.as_str());
                r.append(")\n");
                assert(r@ =~= avant + (titre + ("(illisible : "@ + e@ + ")\n"@)));
            },
        }
        proof {
            let l = lignes@.take(i + 1);
            let c = contenus@.take(i + 1);
            assert(l.drop_last() =~= lignes@.take(i as int));
            assert(c.drop_last() =~= contenus@.take(i as int));
            assert(l.last() == lignes@[i as int]);
            assert(c.last() == contenus@[i as int]);
        }
        i += 1;
    }
    assert(lignes@.take(i as int) =~= lignes@);
    assert(contenus@.take(i as int) =~= contenus@);
    r
}

/// How much of it is shown, in characters. All of it can be copied.
pub const MONTRES: usize = 20_001;

/// The part of what was gathered that is shown: its end.
pub fn partie_montree(tout: &str) -> (r: &str)
    ensures
        r@ == if tout@.len() <= MONTRES {
            tout@
        } else {
            tout@.skip(tout@.len() - MONTRES)
        },
{
    affichage::fin_de(tout, MONTRES)
}

// ---------------------------------------------------------------------
// Files
// ---------------------------------------------------------------------

/// The greatest file that can be sent, in bytes.
pub const FICHIER_MAX: usize = 26_214_400;

/// Can a file of this size be sent?
pub fn fichier_accepte(octets: usize) -> (r: Result<(), &'static str>)
    ensures
        match r {
            Ok(_) => octets <= FICHIER_MAX,
            Err(e) => octets > FICHIER_MAX && e@ == "fichier trop gros (25 Mo max)"@,
        },
{
    if octets > FICHIER_MAX {
        Err("fichier trop gros (25 Mo max)")
    } else {
        Ok(())
    }
}

/// A character that can stand in the name of a file, in an address.
pub open spec fn net(c: char) -> char {
    if texte::est_alphanumerique(c) || c == '.' || c == '-' || c == '_' {
        c
    } else {
        '_'
    }
}

/// The name under which a file is sent.
pub fn nom_envoye(nom: &str) -> (r: String)
    ensures
        r@ == Seq::new(nom@.len(), |i: int| net(nom@[i])),
{
    let c: Vec<char> = texte::caracteres(nom);
    let mut s: String = String::new();
    let mut i: usize = 0;
    while i < c.len()
        invariant
            c@ == nom@,
            i <= c@.len(),
            s@.len() == i,
            forall|k: int| 0 <= k < i ==> #[trigger] s@[k] == net(nom@[k]),
        decreases c@.len() - i,
    {
        let x: char = c[i];
        if x.is_alphanumeric() || x == '.' || x == '-' || x == '_' {
            s.push(x);
        } else {
            s.push('_');
        }
        i += 1;
    }
    assert(s@ =~= Seq::new(nom@.len(), |i: int| net(nom@[i])));
    s
}

/// The message that shares a file which was sent: the address of the file, as
/// the reply of the server gives it.
pub open spec fn partage_de(base: Seq<char>, reponse: Seq<char>) -> Result<Seq<char>, Seq<char>> {
    match json::texte_lu(reponse, "/url"@) {
        Ok(Some(url)) => Ok(base + url),
        Ok(None) => Err("réponse invalide"@),
        Err(e) => Err(e),
    }
}

/// The message that shares a file which was sent. An answer that is no JSON, or
/// that gives no address, is an error.
pub fn partager_fichier(base: &str, reponse: &str) -> (r: Result<ClientMsg, String>)
    ensures
        match (r, partage_de(base@, reponse@)) {
            (Ok(m), Ok(url)) => m matches ClientMsg::Chat { text } && text@ == url,
            (Err(e), Err(f)) => e@ == f,
            _ => false,
        },
{
    match json::lire_texte(reponse, "/url") {
        Ok(Some(url)) => {
            let mut text: String = base.to_owned();
            text.append(url.as_str());
            Ok(ClientMsg::Chat { text })
        },
        Ok(None) => Err("réponse invalide".to_owned()),
        Err(e) => Err(e),
    }
}

/// A line of the log goes into a batch if it came after what was sent, and only
/// then; lines go in the order of the log.
pub proof fn loi_lignes_fraiches(journal: Seq<(u64, String)>, depuis: u64, t: u64, msg: String)
    ensures
        t > depuis ==> lignes_fraiches(journal.push((t, msg)), depuis) == lignes_fraiches(
            journal,
            depuis,
        ) + ligne_journal(t, msg@),
        t <= depuis ==> lignes_fraiches(journal.push((t, msg)), depuis) == lignes_fraiches(
            journal,
            depuis,
        ),
        lignes_fraiches(Seq::empty(), depuis).len() == 0,
        du_neuf(journal.push((t, msg)), depuis) == (du_neuf(journal, depuis) || t > depuis),
{
    let j = journal.push((t, msg));
    assert(j.drop_last() =~= journal);
    if du_neuf(journal, depuis) {
        let i = choose|i: int| 0 <= i < journal.len() && (#[trigger] journal[i]).0 > depuis;
        assert(j[i].0 > depuis);
    }
    if t > depuis {
        assert(j[journal.len() as int].0 > depuis);
    }
    if du_neuf(j, depuis) {
        let i = choose|i: int| 0 <= i < j.len() && (#[trigger] j[i]).0 > depuis;
        if i < journal.len() {
            assert(journal[i].0 > depuis);
        }
    }
}

/// What is remembered of a batch is the date of the last line of the log.
pub proof fn loi_lot_expedie(p: Partage, journal: Seq<(u64, String)>)
    ensures
        journal.len() > 0 ==> expedie(p, journal).last_sent_ts == journal[journal.len() - 1].0,
        journal.len() == 0 ==> expedie(p, journal) == p,
        expedie(p, journal).last_flush == p.last_flush,
{
}

/// The name under which a file is sent keeps letters, digits, dots, dashes and
/// underscores, and has an underscore for anything else.
pub proof fn loi_nom_envoye(c: char)
    ensures
        texte::est_alphanumerique(c) ==> net(c) == c,
        c == '.' || c == '-' || c == '_' ==> net(c) == c,
        !(texte::est_alphanumerique(c) || c == '.' || c == '-') ==> net(c) == '_',
        net('/') == '_' && net('\\') == '_' && net(' ') == '_' && net('&') == '_',
{
}

/// The file of a line of the list is what stands before its first tab, or all of
/// it.
pub proof fn loi_fichier_liste(f: Seq<char>, reste: Seq<char>)
    requires
        !f.contains('\t'),
    ensures
        fichier_de(f) == f,
        fichier_de(f + seq!['\t'] + reste) == f,
{
    texte::loi_coupe_se_relit(f, '\t', reste);
    texte::loi_coupe_au_premier(f, '\t');
}

} // verus!
