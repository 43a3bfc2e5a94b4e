//! JSON, as far as the client reads and writes it.

use crate::texte;
use vstd::prelude::*;

verus! {

// ---------------------------------------------------------------------
// Writing
// ---------------------------------------------------------------------

/// A character as it stands in a JSON string.
pub open spec fn echappe(c: char) -> Seq<char> {
    if c == '"' {
        seq!['\\', '"']
    } else if c == '\\' {
        seq!['\\', '\\']
    } else if c as int == 8 {
        seq!['\\', 'b']
    } else if c == '\t' {
        seq!['\\', 't']
    } else if c == '\n' {
        seq!['\\', 'n']
    } else if c as int == 12 {
        seq!['\\', 'f']
    } else if c == '\r' {
        seq!['\\', 'r']
    } else if (c as int) < 32 {
        seq!['\\', 'u'] + texte::hexa_fixe(c as int as nat, 4)
    } else {
        seq![c]
    }
}

pub open spec fn echappes(s: Seq<char>) -> Seq<char>
    decreases s.len(),
{
    if s.len() == 0 {
        Seq::empty()
    } else {
        echappes(s.drop_last()) + echappe(s.last())
    }
}

/// A text as a JSON string.
pub open spec fn chaine_json(s: Seq<char>) -> Seq<char> {
    seq!['"'] + echappes(s) + seq!['"']
}

/// `Display` of `serde_json::Value::String`: the text between quotes, with
/// quotes, backslashes and control characters escaped. A control character
/// without a letter of its own is written `\u00xx`, in lower case.
#[verifier::external_body]
pub(crate) fn en_json(s: &str) -> (r: String)
    ensures
        r@ == chaine_json(s@),
{
    serde_json::Value::String(s.to_string()).to_string()
}

// ---------------------------------------------------------------------
// Reading
// ---------------------------------------------------------------------

/// The string that stands in a JSON text where a pointer says: nothing where
/// there is none there, and what is wrong with the text where it is no JSON.
pub uninterp spec fn texte_lu(corps: Seq<char>, chemin: Seq<char>) -> Result<
    Option<Seq<char>>,
    Seq<char>,
>;

/// The unsigned integer that stands in a JSON text where a pointer says, if
/// there is one there.
pub uninterp spec fn entier_lu(corps: Seq<char>, chemin: Seq<char>) -> Option<u64>;

/// The length of the array that stands in a JSON text where a pointer says:
/// nothing where there is none there, and what is wrong with the text where it
/// is no JSON.
pub uninterp spec fn longueur_lue(corps: Seq<char>, chemin: Seq<char>) -> Result<
    Option<usize>,
    Seq<char>,
>;

/// What a text that was read looks like.
pub open spec fn vue_texte(r: Result<Option<String>, String>) -> Result<
    Option<Seq<char>>,
    Seq<char>,
> {
    match r {
        Ok(Some(t)) => Ok(Some(t@)),
        Ok(None) => Ok(None),
        Err(e) => Err(e@),
    }
}

/// What a length that was read looks like.
pub open spec fn vue_longueur(r: Result<Option<usize>, String>) -> Result<
    Option<usize>,
    Seq<char>,
> {
    match r {
        Ok(n) => Ok(n),
        Err(e) => Err(e@),
    }
}

/// `serde_json::from_str`, then `Value::pointer` and `Value::as_str`. The
/// result, or the error that `from_str` writes, depends on the two texts alone
/// and is only named.
#[verifier::external_body]
pub(crate) fn lire_texte(corps: &str, chemin: &str) -> (r: Result<Option<String>, String>)
    ensures
        vue_texte(r) == texte_lu(corps@, chemin@),
{
    match serde_json::from_str::<serde_json::Value>(corps) {
        Ok(v) => Ok(v.pointer(chemin).and_then(|x| x.as_str()).map(|t| t.to_string())),
        Err(e) => Err(e.to_string()),
    }
}

/// `serde_json::from_str`, then `Value::pointer` and `Value::as_u64`. The
/// result depends on the two texts alone and is only named.
#[verifier::external_body]
pub(crate) fn lire_entier(corps: &str, chemin: &str) -> (r: Option<u64>)
    ensures
        r == entier_lu(corps@, chemin@),
{
    let v = serde_json::from_str::<serde_json::Value>(corps).ok()?;
    v.pointer(chemin)?.as_u64()
}

/// `serde_json::from_str`, then `Value::pointer` and the length of
/// `Value::as_array`. The result, or the error that `from_str` writes, depends
/// on the two texts alone and is only named.
#[verifier::external_body]
pub(crate) fn lire_longueur(corps: &str, chemin: &str) -> (r: Result<Option<usize>, String>)
    ensures
        vue_longueur(r) == longueur_lue(corps@, chemin@),
{
    match serde_json::from_str::<serde_json::Value>(corps) {
        Ok(v) => Ok(v.pointer(chemin).and_then(|x| x.as_array()).map(|a| a.len())),
        Err(e) => Err(e.to_string()),
    }
}

} // verus!
