//! The keys: the one that is held to speak, the combination that saves a clip,
//! and what the keyboard says of them.

use crate::texte;
use vstd::prelude::*;

verus! {

/// A key of the keyboard, as it is read.
#[derive(Debug, Clone, Copy, PartialEq, Eq, Structural)]
pub enum Keycode {
    LAlt,
    RAlt,
    LControl,
    RControl,
    LShift,
    RShift,
    CapsLock,
    F1,
    F2,
    F3,
    F4,
    F5,
    F6,
    F7,
    F8,
    F9,
    F10,
    F11,
    F12,
    A,
    B,
    C,
    D,
    E,
    F,
    G,
    H,
    I,
    J,
    K,
    L,
    M,
    N,
    O,
    P,
    Q,
    R,
    S,
    T,
    U,
    V,
    W,
    X,
    Y,
    Z,
    Key0,
    Key1,
    Key2,
    Key3,
    Key4,
    Key5,
    Key6,
    Key7,
    Key8,
    Key9,
    Insert,
    Delete,
    Home,
    End,
    PageUp,
    PageDown,
    Space,
    /// A key that nothing here listens to.
    Autre,
}

/// A key that can be held to speak.
#[derive(Debug, Clone, Copy, PartialEq, Eq, Structural)]
pub enum PttKey {
    LAlt,
    LControl,
    LShift,
    CapsLock,
    F1,
    F2,
    F3,
    F4,
    F5,
    F6,
    F7,
    F8,
    Insert,
    Delete,
    Home,
    End,
    PageUp,
    PageDown,
}

impl PttKey {
    pub const ALL: [PttKey; 18] = [
        PttKey::LAlt,
        PttKey::LControl,
        PttKey::LShift,
        PttKey::CapsLock,
        PttKey::F1,
        PttKey::F2,
        PttKey::F3,
        PttKey::F4,
        PttKey::F5,
        PttKey::F6,
        PttKey::F7,
        PttKey::F8,
        PttKey::Insert,
        PttKey::Delete,
        PttKey::Home,
        PttKey::End,
        PttKey::PageUp,
        PttKey::PageDown,
    ];

    pub open spec fn libelle(self) -> Seq<char> {
        match self {
            PttKey::LAlt => "Alt gauche"@,
            PttKey::LControl => "Ctrl gauche"@,
            PttKey::LShift => "Maj gauche"@,
            PttKey::CapsLock => "Verr. Maj"@,
            PttKey::F1 => "F1"@,
            PttKey::F2 => "F2"@,
            PttKey::F3 => "F3"@,
            PttKey::F4 => "F4"@,
            PttKey::F5 => "F5"@,
            PttKey::F6 => "F6"@,
            PttKey::F7 => "F7"@,
            PttKey::F8 => "F8"@,
            PttKey::Insert => "Inser"@,
            PttKey::Delete => "Suppr"@,
            PttKey::Home => "Début"@,
            PttKey::End => "Fin"@,
            PttKey::PageUp => "Page haut"@,
            PttKey::PageDown => "Page bas"@,
        }
    }

    pub fn label(self) -> (r: &'static str)
        ensures
            r@ == self.libelle(),
    {
        match self {
            PttKey::LAlt => "Alt gauche",
            PttKey::LControl => "Ctrl gauche",
            PttKey::LShift => "Maj gauche",
            PttKey::CapsLock => "Verr. Maj",
            PttKey::F1 => "F1",
            PttKey::F2 => "F2",
            PttKey::F3 => "F3",
            PttKey::F4 => "F4",
            PttKey::F5 => "F5",
            PttKey::F6 => "F6",
            PttKey::F7 => "F7",
            PttKey::F8 => "F8",
            PttKey::Insert => "Inser",
            PttKey::Delete => "Suppr",
            PttKey::Home => "Début",
            PttKey::End => "Fin",
            PttKey::PageUp => "Page haut",
            PttKey::PageDown => "Page bas",
        }
    }

    pub open spec fn code(self) -> Keycode {
        match self {
            PttKey::LAlt => Keycode::LAlt,
            PttKey::LControl => Keycode::LControl,
            PttKey::LShift => Keycode::LShift,
            PttKey::CapsLock => Keycode::CapsLock,
            PttKey::F1 => Keycode::F1,
            PttKey::F2 => Keycode::F2,
            PttKey::F3 => Keycode::F3,
            PttKey::F4 => Keycode::F4,
            PttKey::F5 => Keycode::F5,
            PttKey::F6 => Keycode::F6,
            PttKey::F7 => Keycode::F7,
            PttKey::F8 => Keycode::F8,
            PttKey::Insert => Keycode::Insert,
            PttKey::Delete => Keycode::Delete,
            PttKey::Home => Keycode::Home,
            PttKey::End => Keycode::End,
            PttKey::PageUp => Keycode::PageUp,
            PttKey::PageDown => Keycode::PageDown,
        }
    }

    /// The key of the keyboard.
    pub fn keycode(self) -> (r: Keycode)
        ensures
            r == self.code(),
    {
        match self {
            PttKey::LAlt => Keycode::LAlt,
            PttKey::LControl => Keycode::LControl,
            PttKey::LShift => Keycode::LShift,
            PttKey::CapsLock => Keycode::CapsLock,
            PttKey::F1 => Keycode::F1,
            PttKey::F2 => Keycode::F2,
            PttKey::F3 => Keycode::F3,
            PttKey::F4 => Keycode::F4,
            PttKey::F5 => Keycode::F5,
            PttKey::F6 => Keycode::F6,
            PttKey::F7 => Keycode::F7,
            PttKey::F8 => Keycode::F8,
            PttKey::Insert => Keycode::Insert,
            PttKey::Delete => Keycode::Delete,
            PttKey::Home => Keycode::Home,
            PttKey::End => Keycode::End,
            PttKey::PageUp => Keycode::PageUp,
            PttKey::PageDown => Keycode::PageDown,
        }
    }

    pub open spec fn nom(self) -> Seq<char> {
        match self {
            PttKey::LAlt => "lalt"@,
            PttKey::LControl => "lctrl"@,
            PttKey::LShift => "lshift"@,
            PttKey::CapsLock => "caps"@,
            PttKey::F1 => "f1"@,
            PttKey::F2 => "f2"@,
            PttKey::F3 => "f3"@,
            PttKey::F4 => "f4"@,
            PttKey::F5 => "f5"@,
            PttKey::F6 => "f6"@,
            PttKey::F7 => "f7"@,
            PttKey::F8 => "f8"@,
            PttKey::Insert => "insert"@,
            PttKey::Delete => "delete"@,
            PttKey::Home => "home"@,
            PttKey::End => "end"@,
            PttKey::PageUp => "pageup"@,
            PttKey::PageDown => "pagedown"@,
        }
    }

    /// The name under which the key is stored.
    pub fn id(self) -> (r: &'static str)
        ensures
            r@ == self.nom(),
    {
        match self {
            PttKey::LAlt => "lalt",
            PttKey::LControl => "lctrl",
            PttKey::LShift => "lshift",
            PttKey::CapsLock => "caps",
            PttKey::F1 => "f1",
            PttKey::F2 => "f2",
            PttKey::F3 => "f3",
            PttKey::F4 => "f4",
            PttKey::F5 => "f5",
            PttKey::F6 => "f6",
            PttKey::F7 => "f7",
            PttKey::F8 => "f8",
            PttKey::Insert => "insert",
            PttKey::Delete => "delete",
            PttKey::Home => "home",
            PttKey::End => "end",
            PttKey::PageUp => "pageup",
            PttKey::PageDown => "pagedown",
        }
    }

    /// The place of a key in [`PttKey::ALL`].
    pub open spec fn rang(self) -> int {
        match self {
            PttKey::LAlt => 0,
            PttKey::LControl => 1,
            PttKey::LShift => 2,
            PttKey::CapsLock => 3,
            PttKey::F1 => 4,
            PttKey::F2 => 5,
            PttKey::F3 => 6,
            PttKey::F4 => 7,
            PttKey::F5 => 8,
            PttKey::F6 => 9,
            PttKey::F7 => 10,
            PttKey::F8 => 11,
            PttKey::Insert => 12,
            PttKey::Delete => 13,
            PttKey::Home => 14,
            PttKey::End => 15,
            PttKey::PageUp => 16,
            PttKey::PageDown => 17,
        }
    }

    /// The key stored under a name.
    pub fn from_id(id: &str) -> (r: Option<PttKey>)
        ensures
            match r {
                Some(k) => k.nom() == id@,
                None => forall|k: PttKey| #[trigger] k.nom() != id@,
            },
    {
        let mut i: usize = 0;
        while i < 18
            invariant
                i <= 18,
                forall|j: int| 0 <= j < i ==> (#[trigger] PttKey::ALL[j]).nom() != id@,
            decreases 18 - i,
        {
            let k: PttKey = PttKey::ALL[i];
            if texte::egal(k.id(), id) {
                return Some(k);
            }
            i += 1;
        }
        proof {
            assert forall|k: PttKey| #[trigger] k.nom() != id@ by {
                lemme_rang(k);
                assert(PttKey::ALL[k.rang()].nom() != id@);
            }
        }
        None
    }
}

proof fn lemme_rang(k: PttKey)
    ensures
        0 <= k.rang() < 18,
        PttKey::ALL[k.rang()] == k,
{
    match k {
        PttKey::LAlt => assert(PttKey::ALL[0] == PttKey::LAlt),
        PttKey::LControl => assert(PttKey::ALL[1] == PttKey::LControl),
        PttKey::LShift => assert(PttKey::ALL[2] == PttKey::LShift),
        PttKey::CapsLock => assert(PttKey::ALL[3] == PttKey::CapsLock),
        PttKey::F1 => assert(PttKey::ALL[4] == PttKey::F1),
        PttKey::F2 => assert(PttKey::ALL[5] == PttKey::F2),
        PttKey::F3 => assert(PttKey::ALL[6] == PttKey::F3),
        PttKey::F4 => assert(PttKey::ALL[7] == PttKey::F4),
        PttKey::F5 => assert(PttKey::ALL[8] == PttKey::F5),
        PttKey::F6 => assert(PttKey::ALL[9] == PttKey::F6),
        PttKey::F7 => assert(PttKey::ALL[10] == PttKey::F7),
        PttKey::F8 => assert(PttKey::ALL[11] == PttKey::F8),
        PttKey::Insert => assert(PttKey::ALL[12] == PttKey::Insert),
        PttKey::Delete => assert(PttKey::ALL[13] == PttKey::Delete),
        PttKey::Home => assert(PttKey::ALL[14] == PttKey::Home),
        PttKey::End => assert(PttKey::ALL[15] == PttKey::End),
        PttKey::PageUp => assert(PttKey::ALL[16] == PttKey::PageUp),
        PttKey::PageDown => assert(PttKey::ALL[17] == PttKey::PageDown),
    }
}

/// A name stands for one key: what is stored is read back.
pub proof fn loi_ptt_se_relit(a: PttKey, b: PttKey)
    requires
        a.nom() == b.nom(),
    ensures
        a == b,
{
    reveal_strlit("lalt");
    assert("lalt"@.len() == 4 && "lalt"@[0] == 'l' && "lalt"@[1] == 'a');
    reveal_strlit("lctrl");
    assert("lctrl"@.len() == 5 && "lctrl"@[0] == 'l' && "lctrl"@[1] == 'c');
    reveal_strlit("lshift");
    assert("lshift"@.len() == 6 && "lshift"@[0] == 'l' && "lshift"@[1] == 's');
    reveal_strlit("caps");
    assert("caps"@.len() == 4 && "caps"@[0] == 'c' && "caps"@[1] == 'a');
    reveal_strlit("f1");
    assert("f1"@.len() == 2 && "f1"@[0] == 'f' && "f1"@[1] == '1');
    reveal_strlit("f2");
    assert("f2"@.len() == 2 && "f2"@[0] == 'f' && "f2"@[1] == '2');
    reveal_strlit("f3");
    assert("f3"@.len() == 2 && "f3"@[0] == 'f' && "f3"@[1] == '3');
    reveal_strlit("f4");
    assert("f4"@.len() == 2 && "f4"@[0] == 'f' && "f4"@[1] == '4');
    reveal_strlit("f5");
    assert("f5"@.len() == 2 && "f5"@[0] == 'f' && "f5"@[1] == '5');
    reveal_strlit("f6");
    assert("f6"@.len() == 2 && "f6"@[0] == 'f' && "f6"@[1] == '6');
    reveal_strlit("f7");
    assert("f7"@.len() == 2 && "f7"@[0] == 'f' && "f7"@[1] == '7');
    reveal_strlit("f8");
    assert("f8"@.len() == 2 && "f8"@[0] == 'f' && "f8"@[1] == '8');
    reveal_strlit("insert");
    assert("insert"@.len() == 6 && "insert"@[0] == 'i' && "insert"@[1] == 'n');
    reveal_strlit("delete");
    assert("delete"@.len() == 6 && "delete"@[0] == 'd' && "delete"@[1] == 'e');
    reveal_strlit("home");
    assert("home"@.len() == 4 && "home"@[0] == 'h' && "home"@[1] == 'o');
    reveal_strlit("end");
    assert("end"@.len() == 3 && "end"@[0] == 'e' && "end"@[1] == 'n');
    reveal_strlit("pageup");
    assert("pageup"@.len() == 6 && "pageup"@[0] == 'p' && "pageup"@[1] == 'a');
    reveal_strlit("pagedown");
    assert("pagedown"@.len() == 8 && "pagedown"@[0] == 'p' && "pagedown"@[1] == 'a');
}

// ---------------------------------------------------------------------
// A combination
// ---------------------------------------------------------------------

/// The main key of a combination: what can be held with a modifier in the
/// middle of a game.
#[derive(Debug, Clone, Copy, PartialEq, Eq, Structural)]
pub enum Touche {
    /// F1 to F12.
    F(u8),
    /// A to Z, an ASCII capital.
    Lettre(u8),
    /// 0 to 9, of the upper row.
    Chiffre(u8),
    Insert,
    Delete,
    Home,
    End,
    PageUp,
    PageDown,
    Space,
}

pub open spec fn code_f(n: u8) -> Keycode {
    match n {
        1u8 => Keycode::F1,
        2u8 => Keycode::F2,
        3u8 => Keycode::F3,
        4u8 => Keycode::F4,
        5u8 => Keycode::F5,
        6u8 => Keycode::F6,
        7u8 => Keycode::F7,
        8u8 => Keycode::F8,
        9u8 => Keycode::F9,
        10u8 => Keycode::F10,
        11u8 => Keycode::F11,
        _ => Keycode::F12,
    }
}

pub open spec fn code_lettre(l: u8) -> Keycode {
    match l {
        65u8 => Keycode::A,
        66u8 => Keycode::B,
        67u8 => Keycode::C,
        68u8 => Keycode::D,
        69u8 => Keycode::E,
        70u8 => Keycode::F,
        71u8 => Keycode::G,
        72u8 => Keycode::H,
        73u8 => Keycode::I,
        74u8 => Keycode::J,
        75u8 => Keycode::K,
        76u8 => Keycode::L,
        77u8 => Keycode::M,
        78u8 => Keycode::N,
        79u8 => Keycode::O,
        80u8 => Keycode::P,
        81u8 => Keycode::Q,
        82u8 => Keycode::R,
        83u8 => Keycode::S,
        84u8 => Keycode::T,
        85u8 => Keycode::U,
        86u8 => Keycode::V,
        87u8 => Keycode::W,
        88u8 => Keycode::X,
        89u8 => Keycode::Y,
        _ => Keycode::Z,
    }
}

pub open spec fn code_chiffre(c: u8) -> Keycode {
    match c {
        0u8 => Keycode::Key0,
        1u8 => Keycode::Key1,
        2u8 => Keycode::Key2,
        3u8 => Keycode::Key3,
        4u8 => Keycode::Key4,
        5u8 => Keycode::Key5,
        6u8 => Keycode::Key6,
        7u8 => Keycode::Key7,
        8u8 => Keycode::Key8,
        _ => Keycode::Key9,
    }
}

fn keycode_f(n: u8) -> (r: Keycode)
    ensures
        r == code_f(n),
{
    match n {
        1 => Keycode::F1,
        2 => Keycode::F2,
        3 => Keycode::F3,
        4 => Keycode::F4,
        5 => Keycode::F5,
        6 => Keycode::F6,
        7 => Keycode::F7,
        8 => Keycode::F8,
        9 => Keycode::F9,
        10 => Keycode::F10,
        11 => Keycode::F11,
        _ => Keycode::F12,
    }
}

fn keycode_lettre(l: u8) -> (r: Keycode)
    ensures
        r == code_lettre(l),
{
    match l {
        65 => Keycode::A,
        66 => Keycode::B,
        67 => Keycode::C,
        68 => Keycode::D,
        69 => Keycode::E,
        70 => Keycode::F,
        71 => Keycode::G,
        72 => Keycode::H,
        73 => Keycode::I,
        74 => Keycode::J,
        75 => Keycode::K,
        76 => Keycode::L,
        77 => Keycode::M,
        78 => Keycode::N,
        79 => Keycode::O,
        80 => Keycode::P,
        81 => Keycode::Q,
        82 => Keycode::R,
        83 => Keycode::S,
        84 => Keycode::T,
        85 => Keycode::U,
        86 => Keycode::V,
        87 => Keycode::W,
        88 => Keycode::X,
        89 => Keycode::Y,
        _ => Keycode::Z,
    }
}

fn keycode_chiffre(c: u8) -> (r: Keycode)
    ensures
        r == code_chiffre(c),
{
    match c {
        0 => Keycode::Key0,
        1 => Keycode::Key1,
        2 => Keycode::Key2,
        3 => Keycode::Key3,
        4 => Keycode::Key4,
        5 => Keycode::Key5,
        6 => Keycode::Key6,
        7 => Keycode::Key7,
        8 => Keycode::Key8,
        _ => Keycode::Key9,
    }
}

impl Touche {
    /// A key that a keyboard has: a function key from one to twelve, a capital,
    /// or a digit.
    pub open spec fn valide(self) -> bool {
        match self {
            Touche::F(n) => 1 <= n <= 12,
            Touche::Lettre(l) => 65 <= l <= 90,
            Touche::Chiffre(c) => c <= 9,
            _ => true,
        }
    }

    pub open spec fn code(self) -> Keycode {
        match self {
            Touche::F(n) => code_f(n),
            Touche::Lettre(l) => code_lettre(l),
            Touche::Chiffre(c) => code_chiffre(c),
            Touche::Insert => Keycode::Insert,
            Touche::Delete => Keycode::Delete,
            Touche::Home => Keycode::Home,
            Touche::End => Keycode::End,
            Touche::PageUp => Keycode::PageUp,
            Touche::PageDown => Keycode::PageDown,
            Touche::Space => Keycode::Space,
        }
    }

    /// The key of the keyboard.
    pub fn keycode(self) -> (r: Keycode)
        ensures
            r == self.code(),
    {
        match self {
            Touche::F(n) => keycode_f(n),
            Touche::Lettre(l) => keycode_lettre(l),
            Touche::Chiffre(c) => keycode_chiffre(c),
            Touche::Insert => Keycode::Insert,
            Touche::Delete => Keycode::Delete,
            Touche::Home => Keycode::Home,
            Touche::End => Keycode::End,
            Touche::PageUp => Keycode::PageUp,
            Touche::PageDown => Keycode::PageDown,
            Touche::Space => Keycode::Space,
        }
    }

    /// The virtual key code of Windows.
    pub fn vk(self) -> (r: u32)
        ensures
            r == match self {
                Touche::F(n) => if n < 1 {
                    0x70
                } else if n > 12 {
                    0x7B
                } else {
                    0x6F + n
                },
                Touche::Lettre(l) => l as int,
                Touche::Chiffre(c) => if c > 9 {
                    0x39
                } else {
                    0x30 + c
                },
                Touche::Insert => 0x2D,
                Touche::Delete => 0x2E,
                Touche::Home => 0x24,
                Touche::End => 0x23,
                Touche::PageUp => 0x21,
                Touche::PageDown => 0x22,
                Touche::Space => 0x20,
            },
    {
        match self {
            Touche::F(n) => {
                let k: u32 = if n < 1 {
                    1
                } else if n > 12 {
                    12
                } else {
                    n as u32
                };
                0x6F + k
            },
            Touche::Lettre(l) => l as u32,
            Touche::Chiffre(c) => if c > 9 {
                0x39
            } else {
                0x30 + c as u32
            },
            Touche::Insert => 0x2D,
            Touche::Delete => 0x2E,
            Touche::Home => 0x24,
            Touche::End => 0x23,
            Touche::PageUp => 0x21,
            Touche::PageDown => 0x22,
            Touche::Space => 0x20,
        }
    }

    pub open spec fn ecrit(self) -> bool {
        self is Lettre || self is Chiffre || self is Space
    }

    /// A key that writes: a letter, a digit, the space. No other modifier is
    /// tolerated with one: Ctrl+Alt+E writes a character on some keyboards.
    pub fn de_frappe(self) -> (r: bool)
        ensures
            r == self.ecrit(),
    {
        matches!(self, Touche::Lettre(_) | Touche::Chiffre(_) | Touche::Space)
    }

    /// The key that a code stands for, if it is one that is accepted.
    pub fn depuis_keycode(k: Keycode) -> (r: Option<Touche>)
        ensures
            match r {
                Some(t) => t.valide() && t.code() == k,
                None => forall|t: Touche| #![auto] t.valide() ==> t.code() != k,
            },
    {
        match k {
            Keycode::F1 => Some(Touche::F(1)),
            Keycode::F2 => Some(Touche::F(2)),
            Keycode::F3 => Some(Touche::F(3)),
            Keycode::F4 => Some(Touche::F(4)),
            Keycode::F5 => Some(Touche::F(5)),
            Keycode::F6 => Some(Touche::F(6)),
            Keycode::F7 => Some(Touche::F(7)),
            Keycode::F8 => Some(Touche::F(8)),
            Keycode::F9 => Some(Touche::F(9)),
            Keycode::F10 => Some(Touche::F(10)),
            Keycode::F11 => Some(Touche::F(11)),
            Keycode::F12 => Some(Touche::F(12)),
            Keycode::A => Some(Touche::Lettre(65)),
            Keycode::B => Some(Touche::Lettre(66)),
            Keycode::C => Some(Touche::Lettre(67)),
            Keycode::D => Some(Touche::Lettre(68)),
            Keycode::E => Some(Touche::Lettre(69)),
            Keycode::F => Some(Touche::Lettre(70)),
            Keycode::G => Some(Touche::Lettre(71)),
            Keycode::H => Some(Touche::Lettre(72)),
            Keycode::I => Some(Touche::Lettre(73)),
            Keycode::J => Some(Touche::Lettre(74)),
            Keycode::K => Some(Touche::Lettre(75)),
            Keycode::L => Some(Touche::Lettre(76)),
            Keycode::M => Some(Touche::Lettre(77)),
            Keycode::N => Some(Touche::Lettre(78)),
            Keycode::O => Some(Touche::Lettre(79)),
            Keycode::P => Some(Touche::Lettre(80)),
            Keycode::Q => Some(Touche::Lettre(81)),
            Keycode::R => Some(Touche::Lettre(82)),
            Keycode::S => Some(Touche::Lettre(83)),
            Keycode::T => Some(Touche::Lettre(84)),
            Keycode::U => Some(Touche::Lettre(85)),
            Keycode::V => Some(Touche::Lettre(86)),
            Keycode::W => Some(Touche::Lettre(87)),
            Keycode::X => Some(Touche::Lettre(88)),
            Keycode::Y => Some(Touche::Lettre(89)),
            Keycode::Z => Some(Touche::Lettre(90)),
            Keycode::Key0 => Some(Touche::Chiffre(0)),
            Keycode::Key1 => Some(Touche::Chiffre(1)),
            Keycode::Key2 => Some(Touche::Chiffre(2)),
            Keycode::Key3 => Some(Touche::Chiffre(3)),
            Keycode::Key4 => Some(Touche::Chiffre(4)),
            Keycode::Key5 => Some(Touche::Chiffre(5)),
            Keycode::Key6 => Some(Touche::Chiffre(6)),
            Keycode::Key7 => Some(Touche::Chiffre(7)),
            Keycode::Key8 => Some(Touche::Chiffre(8)),
            Keycode::Key9 => Some(Touche::Chiffre(9)),
            Keycode::Insert => Some(Touche::Insert),
            Keycode::Delete => Some(Touche::Delete),
            Keycode::Home => Some(Touche::Home),
            Keycode::End => Some(Touche::End),
            Keycode::PageUp => Some(Touche::PageUp),
            Keycode::PageDown => Some(Touche::PageDown),
            Keycode::Space => Some(Touche::Space),
            _ => None,
        }
    }

    pub open spec fn libelle(self) -> Seq<char> {
        match self {
            Touche::F(n) => seq!['F'] + texte::decimal(n as nat),
            Touche::Lettre(l) => seq![l as char],
            Touche::Chiffre(c) => texte::decimal(c as nat),
            Touche::Insert => "Inser"@,
            Touche::Delete => "Suppr"@,
            Touche::Home => "Début"@,
            Touche::End => "Fin"@,
            Touche::PageUp => "Page haut"@,
            Touche::PageDown => "Page bas"@,
            Touche::Space => "Espace"@,
        }
    }

    pub fn label(self) -> (r: String)
        ensures
            r@ == self.libelle(),
    {
        let mut s: String = String::new();
        match self {
            Touche::F(n) => {
                s.push('F');
                texte::pousser_decimal(&mut s, n as u64);
                assert(s@ =~= self.libelle());
            },
            Touche::Lettre(l) => {
                s.push(l as char);
                assert(s@ =~= self.libelle());
            },
            Touche::Chiffre(c) => {
                texte::pousser_decimal(&mut s, c as u64);
                assert(s@ =~= self.libelle());
            },
            Touche::Insert => return "Inser".to_owned(),
            Touche::Delete => return "Suppr".to_owned(),
            Touche::Home => return "Début".to_owned(),
            Touche::End => return "Fin".to_owned(),
            Touche::PageUp => return "Page haut".to_owned(),
            Touche::PageDown => return "Page bas".to_owned(),
            Touche::Space => return "Espace".to_owned(),
        }
        s
    }

    pub open spec fn nom(self) -> Seq<char> {
        match self {
            Touche::F(n) => seq!['f'] + texte::decimal(n as nat),
            Touche::Lettre(l) => seq![texte::minuscule_ascii(l as char)],
            Touche::Chiffre(c) => texte::decimal(c as nat),
            Touche::Insert => "insert"@,
            Touche::Delete => "delete"@,
            Touche::Home => "home"@,
            Touche::End => "end"@,
            Touche::PageUp => "pageup"@,
            Touche::PageDown => "pagedown"@,
            Touche::Space => "space"@,
        }
    }

    /// The name under which the key is stored.
    pub fn id(self) -> (r: String)
        ensures
            r@ == self.nom(),
    {
        let mut s: String = String::new();
        match self {
            Touche::F(n) => {
                s.push('f');
                texte::pousser_decimal(&mut s, n as u64);
                assert(s@ =~= self.nom());
            },
            Touche::Lettre(l) => {
                s.push(texte::en_minuscule_ascii(l as char));
                assert(s@ =~= self.nom());
            },
            Touche::Chiffre(c) => {
                texte::pousser_decimal(&mut s, c as u64);
                assert(s@ =~= self.nom());
            },
            Touche::Insert => return "insert".to_owned(),
            Touche::Delete => return "delete".to_owned(),
            Touche::Home => return "home".to_owned(),
            Touche::End => return "end".to_owned(),
            Touche::PageUp => return "pageup".to_owned(),
            Touche::PageDown => return "pagedown".to_owned(),
            Touche::Space => return "space".to_owned(),
        }
        s
    }

    /// The number of the function key that a name stands for, whatever it is.
    pub open spec fn numero_f(s: Seq<char>) -> Option<nat> {
        if s.len() > 0 && s[0] == 'f' {
            texte::nombre_borne(s.skip(1), 255)
        } else {
            None
        }
    }

    /// The key that a name stands for.
    pub open spec fn nommee(s: Seq<char>) -> Option<Touche> {
        match Touche::numero_f(s) {
            Some(n) => if 1 <= n <= 12 {
                Some(Touche::F(n as u8))
            } else {
                None
            },
            None => if s.len() == 1 && 'a' <= s[0] <= 'z' {
                Some(Touche::Lettre((s[0] as int - 32) as u8))
            } else if s.len() == 1 && '0' <= s[0] <= '9' {
                Some(Touche::Chiffre((s[0] as int - 48) as u8))
            } else if s == "insert"@ {
                Some(Touche::Insert)
            } else if s == "delete"@ {
                Some(Touche::Delete)
            } else if s == "home"@ {
                Some(Touche::Home)
            } else if s == "end"@ {
                Some(Touche::End)
            } else if s == "pageup"@ {
                Some(Touche::PageUp)
            } else if s == "pagedown"@ {
                Some(Touche::PageDown)
            } else if s == "space"@ {
                Some(Touche::Space)
            } else {
                None
            },
        }
    }

    /// The key stored under a name.
    pub fn depuis_id(id: &str) -> (r: Option<Touche>)
        ensures
            r == Touche::nommee(id@),
    {
        let n: usize = id.unicode_len();
        if n > 0 && id.get_char(0) == 'f' {
            let suite: &str = id.substring_char(1, n);
            assert(suite@ =~= id@.skip(1));
            if let Some(k) = texte::lire_nombre(suite, 255) {
                return if 1 <= k && k <= 12 {
                    Some(Touche::F(k as u8))
                } else {
                    None
                };
            }
        }
        if n == 1 {
            let c: char = id.get_char(0);
            if 'a' <= c && c <= 'z' {
                let o: u32 = c as u32;
                return Some(Touche::Lettre((o - 32) as u8));
            }
            if '0' <= c && c <= '9' {
                let o: u32 = c as u32;
                return Some(Touche::Chiffre((o - 48) as u8));
            }
        }
        if texte::egal(id, "insert") {
            Some(Touche::Insert)
        } else if texte::egal(id, "delete") {
            Some(Touche::Delete)
        } else if texte::egal(id, "home") {
            Some(Touche::Home)
        } else if texte::egal(id, "end") {
            Some(Touche::End)
        } else if texte::egal(id, "pageup") {
            Some(Touche::PageUp)
        } else if texte::egal(id, "pagedown") {
            Some(Touche::PageDown)
        } else if texte::egal(id, "space") {
            Some(Touche::Space)
        } else {
            None
        }
    }
}


/// A combination: modifiers and a key.
#[derive(Debug, Clone, Copy, PartialEq, Eq, Structural)]
pub struct Raccourci {
    pub ctrl: bool,
    pub alt: bool,
    pub shift: bool,
    pub touche: Touche,
}

/// What was read so far of the name of a combination.
pub struct Lu {
    pub ctrl: bool,
    pub alt: bool,
    pub shift: bool,
    pub touche: Option<Touche>,
}

/// What the pieces of a name stand for. A piece that is no modifier is the key,
/// and the last such piece makes law.
pub open spec fn lit(p: Seq<Seq<char>>) -> Lu
    decreases p.len(),
{
    if p.len() == 0 {
        Lu { ctrl: false, alt: false, shift: false, touche: None }
    } else {
        let l = lit(p.drop_last());
        let m = p.last();
        if m == "ctrl"@ {
            Lu { ctrl: true, ..l }
        } else if m == "alt"@ {
            Lu { alt: true, ..l }
        } else if m == "shift"@ {
            Lu { shift: true, ..l }
        } else {
            Lu { touche: Touche::nommee(m), ..l }
        }
    }
}

fn contient(touches: &[Keycode], k: Keycode) -> (r: bool)
    ensures
        r == touches@.contains(k),
{
    let mut i: usize = 0;
    while i < touches.len()
        invariant
            i <= touches@.len(),
            forall|j: int| 0 <= j < i ==> touches@[j] != k,
        decreases touches@.len() - i,
    {
        if touches[i] == k {
            assert(touches@[i as int] == k);
            return true;
        }
        i += 1;
    }
    false
}

/// Is a control key held?
pub open spec fn tient_ctrl(t: Seq<Keycode>) -> bool {
    t.contains(Keycode::LControl) || t.contains(Keycode::RControl)
}

pub open spec fn tient_alt(t: Seq<Keycode>) -> bool {
    t.contains(Keycode::LAlt) || t.contains(Keycode::RAlt)
}

pub open spec fn tient_shift(t: Seq<Keycode>) -> bool {
    t.contains(Keycode::LShift) || t.contains(Keycode::RShift)
}

/// The first key among those held that can be the main one of a combination.
pub open spec fn principale(t: Seq<Keycode>) -> Option<Touche>
    decreases t.len(),
{
    if t.len() == 0 {
        None
    } else {
        match acceptee(t[0]) {
            Some(k) => Some(k),
            None => principale(t.skip(1)),
        }
    }
}

/// The key that a code stands for, if it is one that is accepted.
pub open spec fn acceptee(k: Keycode) -> Option<Touche> {
    if exists|t: Touche| #![auto] t.valide() && t.code() == k {
        Some(choose|t: Touche| #![auto] t.valide() && t.code() == k)
    } else {
        None
    }
}

/// A code stands for one key at most.
pub proof fn loi_code_unique(a: Touche, b: Touche)
    requires
        a.valide(),
        b.valide(),
        a.code() == b.code(),
    ensures
        a == b,
{
}

impl Raccourci {
    pub open spec fn defaut() -> Raccourci {
        Raccourci { ctrl: false, alt: true, shift: false, touche: Touche::F(10) }
    }

    /// The combination until another is chosen: Alt+F10.
    pub fn par_defaut() -> (r: Raccourci)
        ensures
            r == Raccourci::defaut(),
    {
        Raccourci { ctrl: false, alt: true, shift: false, touche: Touche::F(10) }
    }

    /// The pieces of a name or of a label, from its modifiers and its key.
    pub open spec fn parts(
        self,
        ctrl: Seq<char>,
        alt: Seq<char>,
        shift: Seq<char>,
        touche: Seq<char>,
    ) -> Seq<Seq<char>> {
        (if self.ctrl {
            seq![ctrl]
        } else {
            Seq::empty()
        }) + (if self.alt {
            seq![alt]
        } else {
            Seq::empty()
        }) + (if self.shift {
            seq![shift]
        } else {
            Seq::empty()
        }) + seq![touche]
    }

    pub open spec fn libelle(self) -> Seq<char> {
        texte::jointes(self.parts("Ctrl"@, "Alt"@, "Maj"@, self.touche.libelle()), '+')
    }

    pub open spec fn nom(self) -> Seq<char> {
        texte::jointes(self.parts("ctrl"@, "alt"@, "shift"@, self.touche.nom()), '+')
    }

    fn assembler(&self, ctrl: &str, alt: &str, shift: &str, touche: &str) -> (r: String)
        ensures
            r@ == texte::jointes(self.parts(ctrl@, alt@, shift@, touche@), '+'),
    {
        let mut s: String = String::new();
        let ghost mut reste = self.parts(ctrl@, alt@, shift@, touche@);
        assert(s@ + texte::jointes(reste, '+') =~= texte::jointes(
            self.parts(ctrl@, alt@, shift@, touche@),
            '+',
        ));
        let ghost tout = texte::jointes(reste, '+');
        if self.ctrl {
            let ghost avant = s@;
            s.append(ctrl);
            s.push('+');
            proof {
                assert(reste[0] == ctrl@);
                assert(reste.len() > 1);
                assert(s@ + texte::jointes(reste.skip(1), '+') =~= avant + texte::jointes(
                    reste,
                    '+',
                ));
                reste = reste.skip(1);
            }
        }
        assert(reste =~= (if self.alt {
            seq![alt@]
        } else {
            Seq::empty()
        }) + (if self.shift {
            seq![shift@]
        } else {
            Seq::empty()
        }) + seq![touche@]);
        if self.alt {
            let ghost avant = s@;
            s.append(alt);
            s.push('+');
            proof {
                assert(reste[0] == alt@);
                assert(reste.len() > 1);
                assert(s@ + texte::jointes(reste.skip(1), '+') =~= avant + texte::jointes(
                    reste,
                    '+',
                ));
                reste = reste.skip(1);
            }
        }
        assert(reste =~= (if self.shift {
            seq![shift@]
        } else {
            Seq::empty()
        }) + seq![touche@]);
        if self.shift {
            let ghost avant = s@;
            s.append(shift);
            s.push('+');
            proof {
                assert(reste[0] == shift@);
                assert(reste.len() > 1);
                assert(s@ + texte::jointes(reste.skip(1), '+') =~= avant + texte::jointes(
                    reste,
                    '+',
                ));
                reste = reste.skip(1);
            }
        }
        assert(reste =~= seq![touche@]);
        s.append(touche);
        assert(s@ =~= tout);
        s
    }

    pub fn label(&self) -> (r: String)
        ensures
            r@ == self.libelle(),
    {
        let t: String = self.touche.label();
        self.assembler("Ctrl", "Alt", "Maj", t.as_str())
    }

    /// The name under which the combination is stored, as `alt+f10`.
    pub fn id(&self) -> (r: String)
        ensures
            r@ == self.nom(),
    {
        let t: String = self.touche.id();
        self.assembler("ctrl", "alt", "shift", t.as_str())
    }

    /// The combination that a name stands for.
    pub open spec fn nomme(s: Seq<char>) -> Option<Raccourci> {
        let l = lit(texte::separe(s, '+'));
        match l.touche {
            Some(touche) => Some(
                Raccourci { ctrl: l.ctrl, alt: l.alt, shift: l.shift, touche },
            ),
            None => None,
        }
    }

    /// The combination stored under a name.
    pub fn depuis(id: &str) -> (r: Option<Raccourci>)
        ensures
            r == Raccourci::nomme(id@),
    {
        let parts: Vec<&str> = texte::separer(id, '+');
        let mut ctrl: bool = false;
        let mut alt: bool = false;
        let mut shift: bool = false;
        let mut touche: Option<Touche> = None;
        let ghost vues = texte::vues_str(parts@);
        let mut i: usize = 0;
        while i < parts.len()
            invariant
                vues == texte::vues_str(parts@),
                i <= parts@.len(),
                (Lu { ctrl, alt, shift, touche }) == lit(vues.take(i as int)),
            decreases parts@.len() - i,
        {
            proof {
                assert(vues.take(i + 1).drop_last() =~= vues.take(i as int));
                assert(vues.take(i + 1).last() == parts@[i as int]@);
            }
            let m: &str = parts[i];
            if texte::egal(m, "ctrl") {
                ctrl = true;
            } else if texte::egal(m, "alt") {
                alt = true;
            } else if texte::egal(m, "shift") {
                shift = true;
            } else {
                touche = Touche::depuis_id(m);
            }
            i += 1;
        }
        assert(vues.take(i as int) =~= vues);
        match touche {
            Some(touche) => Some(Raccourci { ctrl, alt, shift, touche }),
            None => None,
        }
    }

    /// These modifiers suit the combination: those that it asks for are held.
    /// On a key that does not write, Ctrl or Shift held as well do not matter;
    /// Alt always does.
    pub open spec fn convient(self, ctrl: bool, alt: bool, shift: bool) -> bool {
        alt == self.alt && if self.touche.ecrit() {
            ctrl == self.ctrl && shift == self.shift
        } else {
            (self.ctrl ==> ctrl) && (self.shift ==> shift)
        }
    }

    /// Do these modifiers suit the combination?
    pub fn correspond(&self, ctrl: bool, alt: bool, shift: bool) -> (r: bool)
        ensures
            r == self.convient(ctrl, alt, shift),
    {
        if alt != self.alt {
            return false;
        }
        if self.touche.de_frappe() {
            return ctrl == self.ctrl && shift == self.shift;
        }
        (ctrl || !self.ctrl) && (shift || !self.shift)
    }

    /// The combination with more modifiers.
    pub open spec fn avec(self, ctrl: bool, shift: bool) -> Raccourci {
        Raccourci { ctrl: self.ctrl || ctrl, shift: self.shift || shift, ..self }
    }

    /// A list with a variant added, where it suits and is not there yet.
    pub open spec fn ajoutee(self, v: Seq<Raccourci>, c: Raccourci) -> Seq<Raccourci> {
        if self.convient(c.ctrl, c.alt, c.shift) && !v.contains(c) {
            v.push(c)
        } else {
            v
        }
    }

    /// The combination, then its variants with Ctrl, with Shift and with both.
    pub open spec fn variantes_de(self) -> Seq<Raccourci> {
        let v0 = seq![self];
        let v1 = self.ajoutee(v0, self.avec(true, false));
        let v2 = self.ajoutee(v1, self.avec(false, true));
        self.ajoutee(v2, self.avec(true, true))
    }

    fn ajouter(&self, v: &mut Vec<Raccourci>, c: Raccourci)
        ensures
            final(v)@ == self.ajoutee(old(v)@, c),
    {
        if !self.correspond(c.ctrl, c.alt, c.shift) {
            return;
        }
        let mut i: usize = 0;
        while i < v.len()
            invariant
                v@ == old(v)@,
                i <= v@.len(),
                forall|j: int| 0 <= j < i ==> v@[j] != c,
            decreases v@.len() - i,
        {
            if v[i] == c {
                assert(v@[i as int] == c);
                return;
            }
            i += 1;
        }
        v.push(c);
    }

    /// The combination and its accepted variants, the exact one first: what is
    /// registered with the system.
    pub fn variantes(&self) -> (r: Vec<Raccourci>)
        ensures
            r@ == self.variantes_de(),
    {
        let mut v: Vec<Raccourci> = Vec::new();
        v.push(*self);
        assert(v@ =~= seq![*self]);
        let c1: Raccourci = Raccourci {
            ctrl: true,
            alt: self.alt,
            shift: self.shift,
            touche: self.touche,
        };
        assert(c1 == self.avec(true, false));
        self.ajouter(&mut v, c1);
        let c2: Raccourci = Raccourci {
            ctrl: self.ctrl,
            alt: self.alt,
            shift: true,
            touche: self.touche,
        };
        assert(c2 == self.avec(false, true));
        self.ajouter(&mut v, c2);
        let c3: Raccourci = Raccourci {
            ctrl: true,
            alt: self.alt,
            shift: true,
            touche: self.touche,
        };
        assert(c3 == self.avec(true, true));
        self.ajouter(&mut v, c3);
        v
    }

    /// The combination is held.
    pub open spec fn tenu(self, t: Seq<Keycode>) -> bool {
        self.convient(tient_ctrl(t), tient_alt(t), tient_shift(t)) && t.contains(self.touche.code())
    }

    /// Is the combination held?
    pub fn enfonce(&self, touches: &[Keycode]) -> (r: bool)
        ensures
            r == self.tenu(touches@),
    {
        let ctrl: bool = contient(touches, Keycode::LControl) || contient(
            touches,
            Keycode::RControl,
        );
        let alt: bool = contient(touches, Keycode::LAlt) || contient(touches, Keycode::RAlt);
        let shift: bool = contient(touches, Keycode::LShift) || contient(touches, Keycode::RShift);
        self.correspond(ctrl, alt, shift) && contient(touches, self.touche.keycode())
    }

    /// The combination being held, if there is a main key in it.
    pub open spec fn tenue_dans(t: Seq<Keycode>) -> Option<Raccourci> {
        match principale(t) {
            Some(touche) => Some(
                Raccourci {
                    ctrl: tient_ctrl(t),
                    alt: tient_alt(t),
                    shift: tient_shift(t),
                    touche,
                },
            ),
            None => None,
        }
    }

    /// The combination being held, to set one by pressing it.
    pub fn depuis_touches(touches: &[Keycode]) -> (r: Option<Raccourci>)
        ensures
            r == Raccourci::tenue_dans(touches@),
    {
        let mut i: usize = 0;
        assert(touches@.skip(0) =~= touches@);
        while i < touches.len()
            invariant
                i <= touches@.len(),
                principale(touches@) == principale(touches@.skip(i as int)),
            decreases touches@.len() - i,
        {
            proof {
                assert(touches@.skip(i as int)[0] == touches@[i as int]);
                assert(touches@.skip(i as int).skip(1) =~= touches@.skip(i + 1));
            }
            let k: Keycode = touches[i];
            match Touche::depuis_keycode(k) {
                Some(touche) => {
                    proof {
                        assert(touche.valide() && touche.code() == k);
                        let c = choose|t: Touche| #![auto] t.valide() && t.code() == k;
                        loi_code_unique(touche, c);
                    }
                    return Some(
                        Raccourci {
                            ctrl: contient(touches, Keycode::LControl) || contient(
                                touches,
                                Keycode::RControl,
                            ),
                            alt: contient(touches, Keycode::LAlt) || contient(
                                touches,
                                Keycode::RAlt,
                            ),
                            shift: contient(touches, Keycode::LShift) || contient(
                                touches,
                                Keycode::RShift,
                            ),
                            touche,
                        },
                    );
                },
                None => {},
            }
            i += 1;
        }
        None
    }
}

proof fn lemme_nom_de_touche(t: Touche)
    requires
        t.valide(),
    ensures
        Touche::nommee(t.nom()) == Some(t),
        !t.nom().contains('+'),
        t.nom() != "ctrl"@,
        t.nom() != "alt"@,
        t.nom() != "shift"@,
{
    reveal_strlit("ctrl");
    reveal_strlit("alt");
    reveal_strlit("shift");
    reveal_strlit("insert");
    reveal_strlit("delete");
    reveal_strlit("home");
    reveal_strlit("end");
    reveal_strlit("pageup");
    reveal_strlit("pagedown");
    reveal_strlit("space");
    let s = t.nom();
    assert("ctrl"@[0] == 'c' && "alt"@[0] == 'a' && "shift"@[0] == 's' && "shift"@[1] == 'h');
    match t {
        Touche::F(n) => {
            texte::loi_decimal_se_relit(n as nat);
            let d = texte::decimal(n as nat);
            assert(s.skip(1) =~= d);
            assert(s[0] == 'f');
            assert forall|i: int| 0 <= i < s.len() implies s[i] != '+' by {
                if i > 0 {
                    assert(texte::est_chiffre(d[i - 1]));
                }
            }
        },
        Touche::Lettre(l) => {
            assert(s.len() == 1);
            if s[0] == 'f' {
                assert(s.skip(1) =~= Seq::<char>::empty());
            }
        },
        Touche::Chiffre(c) => {
            texte::loi_decimal_se_relit(c as nat);
            assert(s =~= seq![texte::chiffre(c as int)]);
        },
        Touche::Insert => {
            assert(s[0] == 'i' && s[1] == 'n');
        },
        Touche::Delete => {
            assert(s[0] == 'd' && s[1] == 'e');
        },
        Touche::Home => {
            assert(s[0] == 'h' && s[1] == 'o');
        },
        Touche::End => {
            assert(s[0] == 'e' && s[1] == 'n');
        },
        Touche::PageUp => {
            assert(s[0] == 'p' && s[4] == 'u');
        },
        Touche::PageDown => {
            assert(s[0] == 'p' && s[4] == 'd');
        },
        Touche::Space => {
            assert(s[0] == 's' && s[1] == 'p');
        },
    }
}

/// A combination is read back from the name under which it was stored.
pub proof fn loi_raccourci_se_relit(r: Raccourci)
    requires
        r.touche.valide(),
    ensures
        Raccourci::nomme(r.nom()) == Some(r),
{
    let t = r.touche.nom();
    let p = r.parts("ctrl"@, "alt"@, "shift"@, t);
    lemme_nom_de_touche(r.touche);
    reveal_strlit("ctrl");
    reveal_strlit("alt");
    reveal_strlit("shift");
    assert("ctrl"@[0] == 'c' && "alt"@[0] == 'a' && "shift"@[0] == 's');
    assert(!"ctrl"@.contains('+') && !"alt"@.contains('+') && !"shift"@.contains('+'));
    assert forall|i: int| 0 <= i < p.len() implies !(#[trigger] p[i]).contains('+') by {}
    texte::loi_separe_se_relit(p, '+');
    let q = p.drop_last();
    assert(p.last() == t);
    reveal_with_fuel(lit, 5);
    if r.shift {
        assert(q.last() == "shift"@);
        let q1 = q.drop_last();
        if r.alt {
            assert(q1.last() == "alt"@);
            let q2 = q1.drop_last();
            if r.ctrl {
                assert(q2.last() == "ctrl"@);
                assert(q2.drop_last().len() == 0);
            } else {
                assert(q2.len() == 0);
            }
        } else if r.ctrl {
            assert(q1.last() == "ctrl"@);
            assert(q1.drop_last().len() == 0);
        } else {
            assert(q1.len() == 0);
        }
    } else if r.alt {
        assert(q.last() == "alt"@);
        let q1 = q.drop_last();
        if r.ctrl {
            assert(q1.last() == "ctrl"@);
            assert(q1.drop_last().len() == 0);
        } else {
            assert(q1.len() == 0);
        }
    } else if r.ctrl {
        assert(q.last() == "ctrl"@);
        assert(q.drop_last().len() == 0);
    } else {
        assert(q.len() == 0);
    }
}

/// What is registered is what is accepted: modifiers suit a combination if and
/// only if one of its variants asks for exactly those.
pub proof fn loi_variantes(r: Raccourci, ctrl: bool, alt: bool, shift: bool)
    ensures
        r.convient(ctrl, alt, shift) <==> r.variantes_de().contains(
            (Raccourci { ctrl, alt, shift, touche: r.touche }),
        ),
        r.variantes_de().len() > 0 && r.variantes_de()[0] == r,
{
    let c = Raccourci { ctrl, alt, shift, touche: r.touche };
    let v0 = seq![r];
    let v1 = r.ajoutee(v0, r.avec(true, false));
    let v2 = r.ajoutee(v1, r.avec(false, true));
    let v3 = r.ajoutee(v2, r.avec(true, true));
    assert(v0.contains(r)) by {
        assert(v0[0] == r);
    }
    lemme_ajoutee(r, v0, r.avec(true, false), c);
    lemme_ajoutee(r, v1, r.avec(false, true), c);
    lemme_ajoutee(r, v2, r.avec(true, true), c);
    assert(v0.contains(c) <==> c == r) by {
        if v0.contains(c) {
            let i = choose|i: int| 0 <= i < v0.len() && v0[i] == c;
            assert(i == 0);
        }
    }
}

proof fn lemme_ajoutee(r: Raccourci, v: Seq<Raccourci>, x: Raccourci, c: Raccourci)
    requires
        v.len() > 0,
    ensures
        r.ajoutee(v, x).contains(c) <==> v.contains(c) || (c == x && r.convient(
            x.ctrl,
            x.alt,
            x.shift,
        )),
        r.ajoutee(v, x).len() > 0,
        r.ajoutee(v, x)[0] == v[0],
{
    let w = v.push(x);
    if v.contains(c) {
        let i = choose|i: int| 0 <= i < v.len() && v[i] == c;
        assert(w[i] == c);
    }
    assert(w[v.len() as int] == x);
    if w.contains(c) {
        let i = choose|i: int| 0 <= i < w.len() && w[i] == c;
        if i < v.len() {
            assert(v[i] == c);
        }
    }
}

// ---------------------------------------------------------------------
// Watching the keyboard
// ---------------------------------------------------------------------

/// Nothing to watch.
pub const AUCUNE: u8 = 255;

/// How often the keyboard is read, in milliseconds.
pub const PERIODE_MS: u64 = 10;

/// The shortcuts that switch something over.
#[derive(Debug, Clone, Copy, PartialEq, Eq, Structural)]
pub enum Bascule {
    Micro,
    Sourd,
}

impl Bascule {
    /// The place of a shortcut among those that are watched.
    pub fn place(self) -> (r: usize)
        ensures
            r == if self == Bascule::Micro {
                0usize
            } else {
                1usize
            },
    {
        match self {
            Bascule::Micro => 0,
            Bascule::Sourd => 1,
        }
    }
}

/// The place of a key in [`PttKey::ALL`], or [`AUCUNE`].
pub open spec fn index_voulu(key: Option<PttKey>) -> u8 {
    match key {
        Some(k) => k.rang() as u8,
        None => AUCUNE,
    }
}

pub fn index_de(key: Option<PttKey>) -> (r: u8)
    ensures
        r == index_voulu(key),
        r < 18 || r == AUCUNE,
{
    match key {
        Some(k) => {
            let mut i: usize = 0;
            while i < 18
                invariant
                    key == Some(k),
                    i <= 18,
                    forall|j: int| 0 <= j < i ==> PttKey::ALL[j] != k,
                decreases 18 - i,
            {
                let c: PttKey = PttKey::ALL[i];
                if c == k {
                    proof {
                        lemme_rang(k);
                        lemme_rang_unique(i as int);
                        assert(k.rang() == i);
                    }
                    return i as u8;
                }
                i += 1;
            }
            proof {
                lemme_rang(k);
            }
            AUCUNE
        },
        None => AUCUNE,
    }
}

proof fn lemme_rang_unique(i: int)
    requires
        0 <= i < 18,
    ensures
        PttKey::ALL[i].rang() == i,
{
}

/// What is asked of the keyboard at one reading.
#[derive(Debug, Clone, Copy, PartialEq, Eq)]
pub struct Demande {
    /// The key held to speak: its place in [`PttKey::ALL`], or [`AUCUNE`].
    pub index: u8,
    /// Those of the shortcuts that switch something over.
    pub bascules: [u8; 2],
    /// The combination, where it has to be read.
    pub raccourci: Option<Raccourci>,
    /// A combination is being set by pressing it.
    pub en_capture: bool,
    /// How long the voice is held after the key is let go of.
    pub release_ms: u32,
    /// The instant, in milliseconds.
    pub maintenant: u64,
}

/// A place that is one, or none at all.
pub open spec fn place_valable(i: u8) -> bool {
    i < 18 || i == AUCUNE
}

impl Demande {
    pub open spec fn valable(self) -> bool {
        place_valable(self.index) && place_valable(self.bascules[0]) && place_valable(
            self.bascules[1],
        )
    }

    pub open spec fn rien(self) -> bool {
        self.index == AUCUNE && self.bascules[0] == AUCUNE && self.bascules[1] == AUCUNE
            && self.raccourci is None && !self.en_capture
    }

    /// Is there nothing to read? The keyboard is then left alone.
    pub fn rien_a_surveiller(&self) -> (r: bool)
        ensures
            r == self.rien(),
    {
        self.index == AUCUNE && self.bascules[0] == AUCUNE && self.bascules[1] == AUCUNE
            && self.raccourci.is_none() && !self.en_capture
    }
}

/// What was seen of the keyboard so far.
#[derive(Debug, Clone, Copy, PartialEq, Eq)]
pub struct Veilleur {
    /// When the key to speak was last seen held.
    pub dernier_appui: Option<u64>,
    /// Which shortcuts were held at the last reading.
    pub tenues: [bool; 2],
    pub combo: bool,
    /// The voice is on.
    pub active: bool,
}

/// What one reading brings.
#[derive(Debug, Clone, Copy, PartialEq, Eq)]
pub struct Sondage {
    /// Which shortcuts were just pressed.
    pub presses: [bool; 2],
    /// The combination was just pressed.
    pub declencher: bool,
    /// The combination that was being set.
    pub capturee: Option<Raccourci>,
    /// The window has something to show.
    pub repeindre: bool,
}

/// The key at this place is held.
pub open spec fn tient(i: u8, t: Seq<Keycode>) -> bool {
    i != AUCUNE && t.contains(PttKey::ALL[i as int].code())
}

/// The instant when the key to speak was last seen held, after this reading.
pub open spec fn appui(v: Veilleur, d: Demande, t: Seq<Keycode>) -> Option<u64> {
    if d.index == AUCUNE {
        None
    } else if tient(d.index, t) {
        Some(d.maintenant)
    } else {
        v.dernier_appui
    }
}

/// The voice is on: the key is held, or was let go of a short while ago.
pub open spec fn parle(v: Veilleur, d: Demande, t: Seq<Keycode>) -> bool {
    tient(d.index, t) || (appui(v, d, t) matches Some(a) && d.maintenant - a < d.release_ms)
}

pub open spec fn combo_tenu(d: Demande, t: Seq<Keycode>) -> bool {
    d.raccourci matches Some(r) && r.tenu(t)
}

pub open spec fn combo_capture(d: Demande, t: Seq<Keycode>) -> Option<Raccourci> {
    if d.en_capture {
        Raccourci::tenue_dans(t)
    } else {
        None
    }
}

/// What one reading of the keyboard leaves and brings.
pub open spec fn sonde(
    avant: Veilleur,
    apres: Veilleur,
    d: Demande,
    t: Seq<Keycode>,
    s: Sondage,
) -> bool {
    &&& apres.dernier_appui == appui(avant, d, t)
    &&& apres.active == parle(avant, d, t)
    &&& apres.tenues[0] == tient(d.bascules[0], t)
    &&& apres.tenues[1] == tient(d.bascules[1], t)
    &&& apres.combo == combo_tenu(d, t)
    &&& s.presses[0] == (tient(d.bascules[0], t) && !avant.tenues[0])
    &&& s.presses[1] == (tient(d.bascules[1], t) && !avant.tenues[1])
    &&& s.declencher == (combo_tenu(d, t) && !avant.combo)
    &&& s.capturee == combo_capture(d, t)
    &&& s.repeindre == (apres.active != avant.active || s.presses[0] || s.presses[1]
        || s.capturee is Some)
}

fn est_tenue(i: u8, touches: &[Keycode]) -> (r: bool)
    requires
        place_valable(i),
    ensures
        r == tient(i, touches@),
{
    i != AUCUNE && contient(touches, PttKey::ALL[i as usize].keycode())
}

impl Veilleur {
    pub fn new() -> (r: Self)
        ensures
            r.dernier_appui is None && !r.tenues[0] && !r.tenues[1] && !r.combo && !r.active,
    {
        Veilleur { dernier_appui: None, tenues: [false, false], combo: false, active: false }
    }

    /// There is nothing to watch: all is let go of. Returns whether the window
    /// has something to show.
    pub fn repos(&mut self) -> (r: bool)
        ensures
            r == old(self).active,
            final(self).dernier_appui is None,
            !final(self).tenues[0] && !final(self).tenues[1] && !final(self).combo,
            !final(self).active,
    {
        let r: bool = self.active;
        self.dernier_appui = None;
        self.tenues = [false, false];
        self.combo = false;
        self.active = false;
        r
    }

    /// Takes one reading of the keyboard in. Shortcuts answer to a press, not
    /// to a key being held.
    pub fn sonder(&mut self, d: &Demande, touches: &[Keycode]) -> (s: Sondage)
        requires
            d.valable(),
        ensures
            sonde(*old(self), *final(self), *d, touches@, s),
    {
        let voulu: bool = if d.index == AUCUNE {
            self.dernier_appui = None;
            false
        } else {
            let tenue: bool = est_tenue(d.index, touches);
            if tenue {
                self.dernier_appui = Some(d.maintenant);
            }
            let recent: bool = match self.dernier_appui {
                Some(a) => a > d.maintenant || d.maintenant - a < d.release_ms as u64,
                None => false,
            };
            tenue || recent
        };
        let t0: bool = est_tenue(d.bascules[0], touches);
        let t1: bool = est_tenue(d.bascules[1], touches);
        let p0: bool = t0 && !self.tenues[0];
        let p1: bool = t1 && !self.tenues[1];
        self.tenues = [t0, t1];
        let combo: bool = match &d.raccourci {
            Some(r) => r.enfonce(touches),
            None => false,
        };
        let declencher: bool = combo && !self.combo;
        self.combo = combo;
        let capturee: Option<Raccourci> = if d.en_capture {
            Raccourci::depuis_touches(touches)
        } else {
            None
        };
        let change: bool = self.active != voulu;
        self.active = voulu;
        Sondage {
            presses: [p0, p1],
            declencher,
            capturee,
            repeindre: change || p0 || p1 || capturee.is_some(),
        }
    }
}

/// A key or a combination that is held acts once, however long it is held.
pub proof fn loi_une_bascule_par_appui(
    v0: Veilleur,
    v1: Veilleur,
    v2: Veilleur,
    d1: Demande,
    d2: Demande,
    t1: Seq<Keycode>,
    t2: Seq<Keycode>,
    s1: Sondage,
    s2: Sondage,
)
    requires
        sonde(v0, v1, d1, t1, s1),
        sonde(v1, v2, d2, t2, s2),
    ensures
        tient(d1.bascules[0], t1) ==> !s2.presses[0],
        tient(d1.bascules[1], t1) ==> !s2.presses[1],
        combo_tenu(d1, t1) ==> !s2.declencher,
{
}

/// After the key is let go of the voice stays on for the time that was set, and
/// not longer.
pub proof fn loi_maintien(v: Veilleur, d: Demande, t: Seq<Keycode>, lache: u64)
    requires
        d.index != AUCUNE,
        !tient(d.index, t),
        v.dernier_appui == Some(lache),
        lache <= d.maintenant,
    ensures
        parle(v, d, t) <==> d.maintenant < lache + d.release_ms,
{
}

/// One speaks while the key is held, and for less than its release after it was
/// let go; with no key to watch nobody does. The last press is the last time that
/// the key was seen held.
pub proof fn loi_parler(
    avant: Veilleur,
    apres: Veilleur,
    d: Demande,
    t: Seq<Keycode>,
    s: Sondage,
    k: PttKey,
)
    requires
        sonde(avant, apres, d, t, s),
    ensures
        d.index == index_voulu(Some(k)) && t.contains(k.code()) ==> apres.active
            && apres.dernier_appui == Some(d.maintenant),
        d.index == index_voulu(Some(k)) && !t.contains(k.code()) ==> apres.dernier_appui
            == avant.dernier_appui && apres.active == (avant.dernier_appui is Some && d.maintenant
            < avant.dernier_appui->0 + d.release_ms),
        d.index == index_voulu(None) ==> !apres.active && apres.dernier_appui is None,
        s.repeindre == (apres.active != avant.active || s.presses[0] || s.presses[1] || s.capturee
            is Some),
{
    lemme_rang(k);
}

/// A key that is watched for a press counts when it goes down, once, and again
/// only after it was seen up.
pub proof fn loi_front_montant(
    avant: Veilleur,
    apres: Veilleur,
    d: Demande,
    t: Seq<Keycode>,
    s: Sondage,
    k: PttKey,
    i: int,
)
    requires
        sonde(avant, apres, d, t, s),
        i == 0 || i == 1,
        d.bascules[i] == index_voulu(Some(k)),
    ensures
        s.presses[i] == (t.contains(k.code()) && !avant.tenues[i]),
        apres.tenues[i] == t.contains(k.code()),
{
    lemme_rang(k);
}

/// A shortcut goes off when its keys come to be held together, once: its key,
/// and its modifiers, left or right. `Alt` has to be as it says; on a key that
/// writes so have the others, and on any other key one more of them does no harm.
pub proof fn loi_declenchement(
    avant: Veilleur,
    apres: Veilleur,
    d: Demande,
    t: Seq<Keycode>,
    s: Sondage,
    r: Raccourci,
)
    requires
        sonde(avant, apres, d, t, s),
    ensures
        d.raccourci is None ==> !s.declencher && !apres.combo,
        d.raccourci == Some(r) ==> {
            let ctrl = t.contains(Keycode::LControl) || t.contains(Keycode::RControl);
            let alt = t.contains(Keycode::LAlt) || t.contains(Keycode::RAlt);
            let maj = t.contains(Keycode::LShift) || t.contains(Keycode::RShift);
            let ecrit = r.touche is Lettre || r.touche is Chiffre || r.touche is Space;
            let tenu = t.contains(r.touche.code()) && alt == r.alt && (ecrit ==> ctrl == r.ctrl
                && maj == r.shift) && (!ecrit ==> (r.ctrl ==> ctrl) && (r.shift ==> maj));
            apres.combo == tenu && s.declencher == (tenu && !avant.combo)
        },
{
}

/// A shortcut is captured only when one is being chosen: from the first key held
/// that can be one, with the modifiers held along with it.
pub proof fn loi_capture(
    avant: Veilleur,
    apres: Veilleur,
    d: Demande,
    t: Seq<Keycode>,
    s: Sondage,
    k: Touche,
    i: int,
)
    requires
        sonde(avant, apres, d, t, s),
    ensures
        !d.en_capture ==> s.capturee is None,
        (d.en_capture && k.valide() && 0 <= i < t.len() && t[i] == k.code() && (forall|j: int, q:
            Touche|
            0 <= j < i && q.valide() ==> #[trigger] q.code() != #[trigger] t[j])) ==> s.capturee
            == Some(
            Raccourci {
                ctrl: t.contains(Keycode::LControl) || t.contains(Keycode::RControl),
                alt: t.contains(Keycode::LAlt) || t.contains(Keycode::RAlt),
                shift: t.contains(Keycode::LShift) || t.contains(Keycode::RShift),
                touche: k,
            },
        ),
        (d.en_capture && forall|j: int, q: Touche|
            0 <= j < t.len() && q.valide() ==> #[trigger] q.code() != #[trigger] t[j])
            ==> s.capturee is None,
{
    lemme_principale(t, k, i);
}

proof fn lemme_principale(t: Seq<Keycode>, k: Touche, i: int)
    ensures
        (k.valide() && 0 <= i < t.len() && t[i] == k.code() && (forall|j: int, q: Touche|
            0 <= j < i && q.valide() ==> #[trigger] q.code() != #[trigger] t[j])) ==> principale(t)
            == Some(k),
        (forall|j: int, q: Touche|
            0 <= j < t.len() && q.valide() ==> #[trigger] q.code() != #[trigger] t[j])
            ==> principale(t) is None,
    decreases t.len(),
{
    if t.len() > 0 {
        let u = t.skip(1);
        lemme_principale(u, k, i - 1);
        if k.valide() && 0 <= i < t.len() && t[i] == k.code() && (forall|j: int, q: Touche|
            0 <= j < i && q.valide() ==> #[trigger] q.code() != #[trigger] t[j]) {
            if i == 0 {
                let c = choose|c: Touche| #![auto] c.valide() && c.code() == t[0];
                assert(c.valide() && c.code() == t[0]);
                loi_code_unique(c, k);
            } else {
                if acceptee(t[0]) is Some {
                    let c = choose|c: Touche| #![auto] c.valide() && c.code() == t[0];
                    assert(c.code() != t[0]);
                }
                assert(u[i - 1] == t[i]);
                assert forall|j: int, q: Touche| 0 <= j < i - 1 && q.valide() implies #[trigger] q.code()
                    != #[trigger] u[j] by {
                    assert(q.code() != t[j + 1]);
                }
            }
        }
        if forall|j: int, q: Touche|
            0 <= j < t.len() && q.valide() ==> #[trigger] q.code() != #[trigger] t[j] {
            if acceptee(t[0]) is Some {
                let c = choose|c: Touche| #![auto] c.valide() && c.code() == t[0];
                assert(c.code() != t[0]);
            }
            assert forall|j: int, q: Touche| 0 <= j < u.len() && q.valide() implies #[trigger] q.code()
                != #[trigger] u[j] by {
                assert(q.code() != t[j + 1]);
            }
        }
    }
}

/// A key is the same one wherever it can be chosen: to talk or in a shortcut it
/// has one code and one name, and no two keys to talk with share a code.
pub proof fn loi_memes_touches(a: PttKey, b: PttKey)
    ensures
        a.code() == b.code() ==> a == b,
        PttKey::F1.code() == Touche::F(1).code() && PttKey::F2.code() == Touche::F(2).code(),
        PttKey::F3.code() == Touche::F(3).code() && PttKey::F4.code() == Touche::F(4).code(),
        PttKey::F5.code() == Touche::F(5).code() && PttKey::F6.code() == Touche::F(6).code(),
        PttKey::F7.code() == Touche::F(7).code() && PttKey::F8.code() == Touche::F(8).code(),
        PttKey::Insert.code() == Touche::Insert.code(),
        PttKey::Delete.code() == Touche::Delete.code(),
        PttKey::Home.code() == Touche::Home.code() && PttKey::End.code() == Touche::End.code(),
        PttKey::PageUp.code() == Touche::PageUp.code(),
        PttKey::PageDown.code() == Touche::PageDown.code(),
        PttKey::Insert.nom() == Touche::Insert.nom() && PttKey::Home.nom() == Touche::Home.nom(),
        PttKey::LAlt.code() == Keycode::LAlt && PttKey::LControl.code() == Keycode::LControl,
        PttKey::LShift.code() == Keycode::LShift && PttKey::CapsLock.code() == Keycode::CapsLock,
{
}

/// The shortcut is Alt and F10 for whoever chose none.
pub proof fn loi_raccourci_par_defaut()
    ensures
        Raccourci::defaut().alt && !Raccourci::defaut().ctrl && !Raccourci::defaut().shift,
        Raccourci::defaut().touche == Touche::F(10),
{
}

/// The keyboard has to be read as long as one thing at least is watched for.
pub proof fn loi_rien_a_surveiller(d: Demande)
    ensures
        d.rien() <==> d.index == 255 && d.bascules[0] == 255 && d.bascules[1] == 255 && d.raccourci
            is None && !d.en_capture,
{
}

/// A key with a modifier can be any from F1 to F12, any letter, any digit, and
/// those that move about or erase.
pub proof fn loi_touches_valides(n: u8)
    ensures
        Touche::F(n).valide() <==> 1 <= n <= 12,
        Touche::Lettre(n).valide() <==> 65 <= n <= 90,
        Touche::Chiffre(n).valide() <==> n <= 9,
        Touche::Insert.valide() && Touche::Delete.valide() && Touche::Home.valide(),
        Touche::End.valide() && Touche::PageUp.valide() && Touche::PageDown.valide(),
        Touche::Space.valide(),
{
}

} // verus!
