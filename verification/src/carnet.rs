//! The book of servers, and the form that connects to one.

use crate::net::Credentials;
use crate::texte;
use vstd::prelude::*;

verus! {

/// A server of the book.
#[derive(Debug)]
pub struct Server {
    pub id: u64,
    /// A name of our own for it; may be empty.
    pub name: String,
    pub address: String,
    pub username: String,
    /// The password, as the vault of the machine sealed it.
    pub secret: Option<String>,
    /// When it was last connected to, in milliseconds.
    pub last_used: u64,
    /// What the server calls itself.
    pub server_name: String,
    /// The fingerprint of its certificate; empty until it is known.
    pub cert_fingerprint: String,
    pub icon: Option<String>,
}

/// The servers that are known, and the one that is chosen.
#[derive(Debug)]
pub struct Carnet {
    pub book: Vec<Server>,
    pub selected: Option<u64>,
}

/// What is typed to connect.
#[derive(Debug)]
pub struct Formulaire {
    pub url: String,
    pub username: String,
    pub password: String,
    pub remember_password: bool,
    pub invite: String,
}

/// A server being written.
#[derive(Debug)]
pub struct ServerDraft {
    pub id: Option<u64>,
    pub name: String,
    pub address: String,
}

impl ServerDraft {
    /// A new server.
    pub fn new() -> (r: Self)
        ensures
            r.id is None && r.name@.len() == 0 && r.address@.len() == 0,
    {
        ServerDraft { id: None, name: String::new(), address: String::new() }
    }

    /// A server of the book, to be changed.
    pub fn edit(server: &Server) -> (r: Self)
        ensures
            r.id == Some(server.id) && r.name@ == server.name@ && r.address@ == server.address@,
    {
        ServerDraft {
            id: Some(server.id),
            name: server.name.clone(),
            address: server.address.clone(),
        }
    }

    /// It can be kept: it has an address.
    pub fn valide(&self) -> (r: bool)
        ensures
            r == (texte::rogne(self.address@).len() > 0),
    {
        !texte::rogner(self.address.as_str()).is_empty()
    }
}

/// No two servers have the same number.
pub open spec fn distincts(s: Seq<Server>) -> bool {
    forall|i: int, j: int| 0 <= i < j < s.len() ==> (#[trigger] s[i]).id != (#[trigger] s[j]).id
}

/// The place of the first server with this number from `de` on, or the length
/// of the book.
pub open spec fn place(s: Seq<Server>, id: u64, de: int) -> int
    decreases s.len() - de,
{
    if de >= s.len() {
        s.len() as int
    } else if s[de].id == id {
        de
    } else {
        place(s, id, de + 1)
    }
}

fn chercher(s: &Vec<Server>, id: u64) -> (r: usize)
    ensures
        r == place(s@, id, 0),
        r <= s@.len(),
        r < s@.len() ==> s@[r as int].id == id,
{
    let mut i: usize = 0;
    while i < s.len()
        invariant
            i <= s@.len(),
            place(s@, id, 0) == place(s@, id, i as int),
        decreases s@.len() - i,
    {
        if s[i].id == id {
            return i;
        }
        i += 1;
    }
    i
}

/// The place of the first server at this address from `de` on, or the length
/// of the book.
pub open spec fn place_adresse(s: Seq<Server>, adresse: Seq<char>, de: int) -> int
    decreases s.len() - de,
{
    if de >= s.len() {
        s.len() as int
    } else if s[de].address@ == adresse {
        de
    } else {
        place_adresse(s, adresse, de + 1)
    }
}

fn chercher_adresse(s: &Vec<Server>, adresse: &str) -> (r: usize)
    ensures
        r == place_adresse(s@, adresse@, 0),
        r <= s@.len(),
        r < s@.len() ==> s@[r as int].address@ == adresse@,
{
    let mut i: usize = 0;
    while i < s.len()
        invariant
            i <= s@.len(),
            place_adresse(s@, adresse@, 0) == place_adresse(s@, adresse@, i as int),
        decreases s@.len() - i,
    {
        if texte::egal(s[i].address.as_str(), adresse) {
            return i;
        }
        i += 1;
    }
    i
}

/// Among the first `n` servers, the place of the one that was used last; of two
/// equals the later one.
pub open spec fn dernier(s: Seq<Server>, n: int) -> Option<int>
    decreases n,
{
    if n <= 0 {
        None
    } else {
        match dernier(s, n - 1) {
            Some(m) => if s[n - 1].last_used >= s[m].last_used {
                Some(n - 1)
            } else {
                Some(m)
            },
            None => Some(n - 1),
        }
    }
}

/// The server to open on: the one that was used last.
pub fn dernier_utilise(book: &Vec<Server>) -> (r: Option<u64>)
    ensures
        r == match dernier(book@, book@.len() as int) {
            Some(m) => Some(book@[m].id),
            None => None,
        },
{
    let mut haut: Option<usize> = None;
    let mut i: usize = 0;
    while i < book.len()
        invariant
            i <= book@.len(),
            match (haut, dernier(book@, i as int)) {
                (Some(h), Some(m)) => h == m && h < book@.len(),
                (None, None) => true,
                _ => false,
            },
        decreases book@.len() - i,
    {
        haut = match haut {
            Some(h) => if book[i].last_used >= book[h].last_used {
                Some(i)
            } else {
                Some(h)
            },
            None => Some(i),
        };
        i += 1;
    }
    match haut {
        Some(h) => Some(book[h].id),
        None => None,
    }
}

/// Whatever server there is, the book never opens on one that was used before
/// it.
pub proof fn loi_dernier_utilise(s: Seq<Server>, n: int, k: int)
    requires
        0 <= k < n <= s.len(),
    ensures
        dernier(s, n) matches Some(m) && 0 <= m < n && s[k].last_used <= s[m].last_used,
    decreases n,
{
    if k < n - 1 {
        loi_dernier_utilise(s, n - 1, k);
    } else if n > 1 {
        loi_dernier_utilise(s, n - 1, n - 2);
    }
}

impl Carnet {
    /// The chosen server.
    pub open spec fn choisi(self) -> Option<int> {
        match self.selected {
            Some(id) => if place(self.book@, id, 0) < self.book@.len() {
                Some(place(self.book@, id, 0))
            } else {
                None
            },
            None => None,
        }
    }

    pub fn active_server(&self) -> (r: Option<&Server>)
        ensures
            match (r, self.choisi()) {
                (Some(s), Some(i)) => *s == self.book@[i],
                (None, None) => true,
                _ => false,
            },
    {
        match self.selected {
            Some(id) => {
                let i: usize = chercher(&self.book, id);
                if i < self.book.len() {
                    Some(&self.book[i])
                } else {
                    None
                }
            },
            None => None,
        }
    }

    /// Turns to a server: its credentials fill the form in. `mot_de_passe` is
    /// what the vault gave of it, and the error that stood on the screen goes.
    /// Returns whether there is such a server.
    pub fn select_server(
        &mut self,
        form: &mut Formulaire,
        erreur: &mut Option<String>,
        id: u64,
        mot_de_passe: Option<String>,
    ) -> (r: bool)
        ensures
            final(self).book == old(self).book,
            ({
                let i = place(old(self).book@, id, 0);
                if i < old(self).book@.len() {
                    let s = old(self).book@[i];
                    &&& r
                    &&& final(self).selected == Some(id)
                    &&& final(form).url@ == s.address@
                    &&& final(form).username@ == s.username@
                    &&& final(form).password@ == match mot_de_passe {
                        Some(m) => m@,
                        None => Seq::empty(),
                    }
                    &&& final(form).remember_password == (s.secret is Some)
                    &&& final(form).invite == old(form).invite
                    &&& *final(erreur) is None
                } else {
                    &&& !r
                    &&& final(self).selected == old(self).selected
                    &&& *final(form) == *old(form)
                    &&& *final(erreur) == *old(erreur)
                }
            }),
    {
        let i: usize = chercher(&self.book, id);
        if i >= self.book.len() {
            return false;
        }
        self.selected = Some(id);
        form.url = self.book[i].address.clone();
        form.username = self.book[i].username.clone();
        form.password = match mot_de_passe {
            Some(m) => m,
            None => String::new(),
        };
        form.remember_password = self.book[i].secret.is_some();
        *erreur = None;
        true
    }

    /// Strikes a server off the book. Where it was the chosen one, the first of
    /// those left is to be chosen, and is returned; where none is left the form
    /// is emptied.
    pub fn delete_server(&mut self, form: &mut Formulaire, id: u64) -> (r: Option<u64>)
        ensures
            final(self).book@ == old(self).book@.filter(autre_serveur(id)),
            if old(self).selected != Some(id) {
                &&& final(self).selected == old(self).selected
                &&& *final(form) == *old(form)
                &&& r is None
            } else {
                &&& final(self).selected is None
                &&& if final(self).book@.len() > 0 {
                    r == Some(final(self).book@[0].id) && *final(form) == *old(form)
                } else {
                    &&& r is None
                    &&& final(form).url@.len() == 0
                    &&& final(form).username@.len() == 0
                    &&& final(form).password@.len() == 0
                    &&& final(form).remember_password == old(form).remember_password
                    &&& final(form).invite == old(form).invite
                }
            },
    {
        let ghost p = autre_serveur(id);
        let mut garde: Vec<bool> = Vec::new();
        let mut i: usize = 0;
        while i < self.book.len()
            invariant
                self.book == old(self).book,
                self.selected == old(self).selected,
                p == autre_serveur(id),
                i <= self.book@.len(),
                garde@.len() == i,
                forall|k: int| 0 <= k < i ==> #[trigger] garde@[k] == p(self.book@[k]),
            decreases self.book@.len() - i,
        {
            garde.push(self.book[i].id != id);
            i += 1;
        }
        crate::listes::retenir(&mut self.book, &garde, Ghost(p));
        let choisi: bool = match self.selected {
            Some(s) => s == id,
            None => false,
        };
        if !choisi {
            return None;
        }
        self.selected = None;
        if self.book.len() > 0 {
            Some(self.book[0].id)
        } else {
            form.url = String::new();
            form.username = String::new();
            form.password = String::new();
            None
        }
    }

    /// Keeps the server being written: in its place, or as a new one with the
    /// number `nouveau`. Returns its number.
    pub fn commit_draft(&mut self, draft: &ServerDraft, nouveau: u64) -> (r: u64)
        ensures
            final(self).selected == old(self).selected,
            match draft.id {
                Some(id) => {
                    let i = place(old(self).book@, id, 0);
                    &&& r == id
                    &&& if i < old(self).book@.len() {
                        &&& final(self).book@.len() == old(self).book@.len()
                        &&& final(self).book@ == old(self).book@.update(i, final(self).book@[i])
                        &&& final(self).book@[i] == (Server {
                            name: final(self).book@[i].name,
                            address: final(self).book@[i].address,
                            ..old(self).book@[i]
                        })
                        &&& final(self).book@[i].name@ == texte::rogne(draft.name@)
                        &&& final(self).book@[i].address@ == texte::rogne(draft.address@)
                    } else {
                        final(self).book@ == old(self).book@
                    }
                },
                None => {
                    let n = old(self).book@.len();
                    &&& r == nouveau
                    &&& final(self).book@.len() == n + 1
                    &&& final(self).book@ == old(self).book@.push(final(self).book@[n as int])
                    &&& ({
                        let s = final(self).book@[n as int];
                        &&& s.id == nouveau
                        &&& s.name@ == texte::rogne(draft.name@)
                        &&& s.address@ == texte::rogne(draft.address@)
                        &&& s.username@.len() == 0
                        &&& s.secret is None
                        &&& s.last_used == 0
                        &&& s.server_name@.len() == 0
                        &&& s.cert_fingerprint@.len() == 0
                        &&& s.icon is None
                    })
                },
            },
    {
        let name: String = texte::rogner(draft.name.as_str()).to_owned();
        let address: String = texte::rogner(draft.address.as_str()).to_owned();
        match draft.id {
            Some(id) => {
                let i: usize = chercher(&self.book, id);
                if i < self.book.len() {
                    self.book[i].name = name;
                    self.book[i].address = address;
                    assert(self.book@ =~= old(self).book@.update(i as int, self.book@[i as int]));
                }
                id
            },
            None => {
                self.book.push(
                    Server {
                        id: nouveau,
                        name,
                        address,
                        username: String::new(),
                        secret: None,
                        last_used: 0,
                        server_name: String::new(),
                        cert_fingerprint: String::new(),
                        icon: None,
                    },
                );
                nouveau
            },
        }
    }

    /// Writes what the server calls itself in the book, so that it shows even
    /// off line. Returns whether the icon changed.
    pub fn cache_server_identity(&mut self, name: &str, icon: Option<&str>) -> (r: bool)
        ensures
            final(self).selected == old(self).selected,
            match old(self).choisi() {
                Some(i) => {
                    &&& r == (texte::vue(old(self).book@[i].icon) != vue_str(icon))
                    &&& final(self).book@ == old(self).book@.update(i, final(self).book@[i])
                    &&& final(self).book@[i] == (Server {
                        server_name: final(self).book@[i].server_name,
                        icon: final(self).book@[i].icon,
                        ..old(self).book@[i]
                    })
                    &&& final(self).book@[i].server_name@ == name@
                    &&& texte::vue(final(self).book@[i].icon) == vue_str(icon)
                },
                None => !r && final(self).book@ == old(self).book@,
            },
    {
        let id: u64 = match self.selected {
            Some(id) => id,
            None => return false,
        };
        let i: usize = chercher(&self.book, id);
        if i >= self.book.len() {
            return false;
        }
        let change: bool = match (&self.book[i].icon, icon) {
            (Some(a), Some(b)) => !texte::egal(a.as_str(), b),
            (None, None) => false,
            _ => true,
        };
        self.book[i].server_name = name.to_owned();
        self.book[i].icon = match icon {
            Some(d) => Some(d.to_owned()),
            None => None,
        };
        assert(self.book@ =~= old(self).book@.update(i as int, self.book@[i as int]));
        change
    }

    /// A connection came about: keeps the name, the sealed password where it
    /// was asked for, and the date.
    pub fn remember_connection(&mut self, username: &str, secret: Option<String>, maintenant: u64)
        ensures
            final(self).selected == old(self).selected,
            match old(self).choisi() {
                Some(i) => {
                    &&& final(self).book@ == old(self).book@.update(i, final(self).book@[i])
                    &&& final(self).book@[i] == (Server {
                        username: final(self).book@[i].username,
                        secret,
                        last_used: maintenant,
                        ..old(self).book@[i]
                    })
                    &&& final(self).book@[i].username@ == texte::rogne(username@)
                },
                None => final(self).book@ == old(self).book@,
            },
    {
        let id: u64 = match self.selected {
            Some(id) => id,
            None => return,
        };
        let i: usize = chercher(&self.book, id);
        if i >= self.book.len() {
            return;
        }
        self.book[i].username = texte::rogner(username).to_owned();
        self.book[i].secret = secret;
        self.book[i].last_used = maintenant;
        assert(self.book@ =~= old(self).book@.update(i as int, self.book@[i as int]));
    }

    /// The certificate of the server at this address was seen. It is kept the
    /// first time, and never replaced here.
    pub fn retenir_empreinte(&mut self, adresse: &str, empreinte: &str)
        ensures
            final(self).selected == old(self).selected,
            empreinte_vue(old(self).book@, final(self).book@, adresse@, empreinte@),
    {
        let i: usize = chercher_adresse(&self.book, adresse);
        if i < self.book.len() && self.book[i].cert_fingerprint.as_str().is_empty() {
            self.book[i].cert_fingerprint = empreinte.to_owned();
            assert(self.book@ =~= old(self).book@.update(i as int, self.book@[i as int]));
        }
    }

    /// The user vouches for the server at this address: its certificate will be
    /// taken as it comes the next time.
    pub fn oublier_empreinte(&mut self, adresse: &str)
        ensures
            final(self).selected == old(self).selected,
            ({
                let i = place_adresse(old(self).book@, adresse@, 0);
                if i < old(self).book@.len() {
                    &&& final(self).book@ == old(self).book@.update(i, final(self).book@[i])
                    &&& final(self).book@[i] == (Server {
                        cert_fingerprint: final(self).book@[i].cert_fingerprint,
                        ..old(self).book@[i]
                    })
                    &&& final(self).book@[i].cert_fingerprint@.len() == 0
                } else {
                    final(self).book@ == old(self).book@
                }
            }),
    {
        let i: usize = chercher_adresse(&self.book, adresse);
        if i < self.book.len() {
            self.book[i].cert_fingerprint = String::new();
            assert(self.book@ =~= old(self).book@.update(i as int, self.book@[i as int]));
        }
    }

    /// What is shown to the server when connecting: what was typed, and the
    /// certificate that this address is held to.
    pub fn identifiants(&self, form: &Formulaire) -> (r: Credentials)
        ensures
            r.username@ == texte::rogne(form.username@),
            r.password@ == form.password@,
            texte::vue(r.invite) == if texte::rogne(form.invite@).len() > 0 {
                Some(texte::rogne(form.invite@))
            } else {
                None
            },
            r.fingerprint@ == attendue(self.book@, texte::rogne(form.url@)),
    {
        let invite: &str = texte::rogner(form.invite.as_str());
        let i: usize = chercher_adresse(&self.book, texte::rogner(form.url.as_str()));
        Credentials {
            username: texte::rogner(form.username.as_str()).to_owned(),
            password: form.password.clone(),
            invite: if invite.is_empty() {
                None
            } else {
                Some(invite.to_owned())
            },
            fingerprint: if i < self.book.len() {
                self.book[i].cert_fingerprint.clone()
            } else {
                String::new()
            },
        }
    }

    /// The connection can be asked for: a server is chosen, a name and a
    /// password are typed, and none is being made.
    pub fn pret(&self, form: &Formulaire, connecting: bool) -> (r: bool)
        ensures
            r == (self.selected is Some && texte::rogne(form.username@).len() > 0
                && form.password@.len() > 0 && !connecting),
    {
        self.selected.is_some() && !texte::rogner(form.username.as_str()).is_empty()
            && !form.password.as_str().is_empty() && !connecting
    }
}

pub open spec fn vue_str(o: Option<&str>) -> Option<Seq<char>> {
    match o {
        Some(t) => Some(t@),
        None => None,
    }
}

pub open spec fn autre_serveur(id: u64) -> spec_fn(Server) -> bool {
    |s: Server| s.id != id
}

/// The certificate that a server is held to; empty where it is not known.
pub open spec fn attendue(s: Seq<Server>, adresse: Seq<char>) -> Seq<char> {
    let i = place_adresse(s, adresse, 0);
    if i < s.len() {
        s[i].cert_fingerprint@
    } else {
        Seq::empty()
    }
}

/// What seeing a certificate at this address leaves in the book.
pub open spec fn empreinte_vue(
    avant: Seq<Server>,
    apres: Seq<Server>,
    adresse: Seq<char>,
    empreinte: Seq<char>,
) -> bool {
    let i = place_adresse(avant, adresse, 0);
    if i < avant.len() && avant[i].cert_fingerprint@.len() == 0 {
        &&& apres == avant.update(i, apres[i])
        &&& apres[i] == (Server { cert_fingerprint: apres[i].cert_fingerprint, ..avant[i] })
        &&& apres[i].cert_fingerprint@ == empreinte
    } else {
        apres == avant
    }
}

proof fn lemme_place_adresse(avant: Seq<Server>, apres: Seq<Server>, adresse: Seq<char>, de: int)
    requires
        0 <= de <= avant.len(),
        avant.len() == apres.len(),
        forall|k: int| 0 <= k < avant.len() ==> (#[trigger] avant[k]).address@ == apres[k].address@,
    ensures
        place_adresse(avant, adresse, de) == place_adresse(apres, adresse, de),
        de <= place_adresse(avant, adresse, de) <= avant.len(),
    decreases avant.len() - de,
{
    if de < avant.len() {
        assert(avant[de].address@ == apres[de].address@);
        lemme_place_adresse(avant, apres, adresse, de + 1);
    }
}

/// A server of the book is held to the certificate that was seen first: seeing
/// another changes nothing of what the next connection expects.
pub proof fn loi_premiere_empreinte(
    avant: Seq<Server>,
    apres: Seq<Server>,
    adresse: Seq<char>,
    empreinte: Seq<char>,
)
    requires
        empreinte_vue(avant, apres, adresse, empreinte),
    ensures
        attendue(avant, adresse).len() > 0 ==> attendue(apres, adresse) == attendue(avant, adresse),
        attendue(avant, adresse).len() == 0 && place_adresse(avant, adresse, 0) < avant.len()
            ==> attendue(apres, adresse) == empreinte,
{
    lemme_place_adresse(avant, avant, adresse, 0);
    let i = place_adresse(avant, adresse, 0);
    if i < avant.len() && avant[i].cert_fingerprint@.len() == 0 {
        assert forall|k: int| 0 <= k < avant.len() implies (#[trigger] avant[k]).address@
            == apres[k].address@ by {
            if k != i {
                assert(apres[k] == avant[k]);
            }
        }
        lemme_place_adresse(avant, apres, adresse, 0);
    }
}

/// A server that was struck off is in the book no more, and every other stays.
pub proof fn loi_serveur_retire(s: Seq<Server>, id: u64, k: int)
    requires
        0 <= k < s.len(),
    ensures
        place(s.filter(autre_serveur(id)), id, 0) == s.filter(autre_serveur(id)).len(),
        s[k].id != id ==> s.filter(autre_serveur(id)).contains(s[k]),
{
    crate::listes::lemme_filtre(s, autre_serveur(id));
    let f = s.filter(autre_serveur(id));
    lemme_absent(f, id, 0);
    assert(s.contains(s[k]));
}

proof fn lemme_absent(s: Seq<Server>, id: u64, de: int)
    requires
        0 <= de <= s.len(),
        forall|i: int| 0 <= i < s.len() ==> autre_serveur(id)(#[trigger] s[i]),
    ensures
        place(s, id, de) == s.len(),
    decreases s.len() - de,
{
    if de < s.len() {
        assert(autre_serveur(id)(s[de]));
        lemme_absent(s, id, de + 1);
    }
}

proof fn lemme_present(s: Seq<Server>, id: u64, de: int, k: int)
    requires
        0 <= de <= k < s.len(),
        place(s, id, de) == s.len(),
    ensures
        s[k].id != id,
    decreases s.len() - de,
{
    if de < k {
        lemme_present(s, id, de + 1, k);
    }
}

/// A number stands for one server: a new one that takes a number which nobody
/// has, and striking one off, leave a book where that holds.
pub proof fn loi_numeros_distincts(s: Seq<Server>, nouveau: Server, id: u64)
    requires
        distincts(s),
        place(s, nouveau.id, 0) == s.len(),
    ensures
        distincts(s.push(nouveau)),
        distincts(s.filter(autre_serveur(id))),
    decreases s.len(),
{
    assert forall|k: int| 0 <= k < s.len() implies (#[trigger] s[k]).id != nouveau.id by {
        lemme_present(s, nouveau.id, 0, k);
    }
    let p = autre_serveur(id);
    reveal(Seq::filter);
    if s.len() > 0 {
        let d = s.drop_last();
        assert forall|k: int| 0 <= k < d.len() implies autre_serveur(nouveau.id)(
            #[trigger] d[k],
        ) by {
            assert(d[k] == s[k]);
        }
        lemme_absent(d, nouveau.id, 0);
        loi_numeros_distincts(d, nouveau, id);
        crate::listes::lemme_filtre(d, p);
        let f = d.filter(p);
        assert forall|i: int| 0 <= i < f.len() implies (#[trigger] f[i]).id != s.last().id by {
            assert(f.contains(f[i]));
            assert(d.contains(f[i]));
            let j = choose|j: int| 0 <= j < d.len() && d[j] == f[i];
            assert(s[j].id != s[s.len() - 1].id);
        }
    }
}

/// Of the servers that were used last at the same time, the last of the book is
/// the one; none of the others was used later, and none after it as late.
pub proof fn loi_dernier_des_egaux(s: Seq<Server>, n: int)
    requires
        0 < n <= s.len(),
    ensures
        dernier(s, n) is Some,
        0 <= dernier(s, n)->0 < n,
        forall|k: int|
            0 <= k < n ==> (#[trigger] s[k]).last_used <= s[dernier(s, n)->0].last_used,
        forall|k: int|
            dernier(s, n)->0 < k < n ==> (#[trigger] s[k]).last_used < s[dernier(
                s,
                n,
            )->0].last_used,
    decreases n,
{
    reveal_with_fuel(dernier, 2);
    if n > 1 {
        loi_dernier_des_egaux(s, n - 1);
    }
}

/// What is found for a number is the first server that has it, and for an
/// address the first server that has it.
pub proof fn loi_serveur_trouve(s: Seq<Server>, id: u64, adresse: Seq<char>, de: int)
    requires
        0 <= de <= s.len(),
    ensures
        de <= place(s, id, de) <= s.len(),
        place(s, id, de) < s.len() ==> s[place(s, id, de)].id == id,
        forall|k: int| de <= k < place(s, id, de) ==> (#[trigger] s[k]).id != id,
        de <= place_adresse(s, adresse, de) <= s.len(),
        place_adresse(s, adresse, de) < s.len() ==> s[place_adresse(s, adresse, de)].address@
            == adresse,
        forall|k: int|
            de <= k < place_adresse(s, adresse, de) ==> (#[trigger] s[k]).address@ != adresse,
    decreases s.len() - de,
{
    if de < s.len() {
        loi_serveur_trouve(s, id, adresse, de + 1);
    }
}

/// A certificate is remembered for the first server of its address that has none
/// yet; nobody else's changes, and one that is known never does.
pub proof fn loi_empreinte_pour_un_seul(
    avant: Seq<Server>,
    apres: Seq<Server>,
    adresse: Seq<char>,
    empreinte: Seq<char>,
    k: int,
)
    requires
        empreinte_vue(avant, apres, adresse, empreinte),
        0 <= k < avant.len(),
    ensures
        apres.len() == avant.len(),
        avant[k].cert_fingerprint@.len() > 0 ==> apres[k] == avant[k],
        avant[k].address@ != adresse ==> apres[k] == avant[k],
        avant[k].address@ == adresse && avant[k].cert_fingerprint@.len() == 0 && (forall|j: int|
            0 <= j < k ==> (#[trigger] avant[j]).address@ != adresse)
            ==> apres[k].cert_fingerprint@ == empreinte && apres[k].id == avant[k].id
            && apres[k].address@ == avant[k].address@ && apres[k].secret == avant[k].secret,
{
    loi_serveur_trouve(avant, 0, adresse, 0);
}

/// The server that is chosen is the first of its number, where it is on the book;
/// the certificate to expect of an address is that of the first server that has
/// it, and none for an address that is not on the book.
pub proof fn loi_serveur_choisi(c: Carnet, id: u64, adresse: Seq<char>, k: int)
    ensures
        c.selected is None ==> c.choisi() is None,
        c.selected == Some(id) && 0 <= k < c.book@.len() && c.book@[k].id == id && (forall|j: int|
            0 <= j < k ==> (#[trigger] c.book@[j]).id != id) ==> c.choisi() == Some(k),
        c.selected == Some(id) && (forall|j: int|
            0 <= j < c.book@.len() ==> (#[trigger] c.book@[j]).id != id) ==> c.choisi() is None,
        0 <= k < c.book@.len() && c.book@[k].address@ == adresse && (forall|j: int|
            0 <= j < k ==> (#[trigger] c.book@[j]).address@ != adresse) ==> attendue(
            c.book@,
            adresse,
        ) == c.book@[k].cert_fingerprint@,
        (forall|j: int| 0 <= j < c.book@.len() ==> (#[trigger] c.book@[j]).address@ != adresse)
            ==> attendue(c.book@, adresse).len() == 0,
{
    loi_serveur_trouve(c.book@, id, adresse, 0);
}

} // verus!
