//! Sealing and opening the frames of a stream.
//!
//! A frame travels as its header, in clear, followed by the picture sealed
//! with the key of the stream. The header is bound to the seal: a byte of it
//! rewritten on the way, and the frame does not open.

use chacha20poly1305::aead::{Aead, KeyInit, Payload};
use chacha20poly1305::{Key, XChaCha20Poly1305, XNonce};
use vstd::prelude::*;

verus! {

/// What XChaCha20-Poly1305 makes of a message: the ciphertext with its tag.
pub uninterp spec fn scelle(
    cle: Seq<u8>,
    nonce: Seq<u8>,
    clair: Seq<u8>,
    joint: Seq<u8>,
) -> Seq<u8>;

/// What XChaCha20-Poly1305 gives back of a ciphertext with its tag; nothing
/// where the tag does not match.
pub uninterp spec fn descelle(
    cle: Seq<u8>,
    nonce: Seq<u8>,
    chiffre: Seq<u8>,
    joint: Seq<u8>,
) -> Option<Seq<u8>>;

/// The longest message that one nonce can seal, in bytes: the blocks of 64 that
/// 32 bits count, less the one that makes the tag and the last, which is never
/// reached.
pub const CLAIR_MAX: u64 = 274_877_906_816;

/// `Aead::encrypt` of `XChaCha20Poly1305`. It succeeds on every message of
/// [`CLAIR_MAX`] bytes or less; past them the keystream runs out. The result is
/// the message encrypted and followed by a tag of 16 bytes, and `Aead::decrypt`
/// with the same key, nonce and joined data gives the message back.
#[verifier::external_body]
fn chiffrer(cle: &[u8; 32], nonce: &[u8; 24], clair: &[u8], joint: &[u8]) -> (r: Option<Vec<u8>>)
    requires
        clair@.len() <= CLAIR_MAX,
    ensures
        r is Some,
        r matches Some(v) ==> v@ == scelle(cle@, nonce@, clair@, joint@),
        r matches Some(v) ==> v@.len() == clair@.len() + 16,
        r matches Some(v) ==> descelle(cle@, nonce@, v@, joint@) == Some(clair@),
{
    let c = XChaCha20Poly1305::new(Key::from_slice(cle));
    c.encrypt(XNonce::from_slice(nonce), Payload { msg: clair, aad: joint }).ok()
}

/// `Aead::decrypt` of `XChaCha20Poly1305`: the message, 16 bytes shorter than
/// what came in, or nothing where the tag does not match. It is asked only of
/// what can hold a message that the keystream reaches the end of.
#[verifier::external_body]
fn dechiffrer(cle: &[u8; 32], nonce: &[u8; 24], chiffre: &[u8], joint: &[u8]) -> (r: Option<
    Vec<u8>,
>)
    requires
        chiffre@.len() <= CLAIR_MAX + 16,
    ensures
        r is None ==> descelle(cle@, nonce@, chiffre@, joint@) is None,
        r matches Some(v) ==> descelle(cle@, nonce@, chiffre@, joint@) == Some(v@),
        r matches Some(v) ==> chiffre@.len() == v@.len() + 16,
{
    let c = XChaCha20Poly1305::new(Key::from_slice(cle));
    c.decrypt(XNonce::from_slice(nonce), Payload { msg: chiffre, aad: joint }).ok()
}

/// A frame as it travels: its header, then the picture sealed under it. What
/// is sealed opens again with the same key and nonce.
pub fn sceller_trame(cle: &[u8; 32], nonce: &[u8; 24], en_tete: &[u8], image: &[u8]) -> (r: Option<
    Vec<u8>,
>)
    ensures
        (r is Some) == (image@.len() <= CLAIR_MAX),
        r matches Some(t) ==> t@ == en_tete@ + scelle(cle@, nonce@, image@, en_tete@),
        r matches Some(t) ==> ouverte(cle@, nonce@, t@, en_tete@.len() as int) == Some(image@),
{
    if image.len() as u64 > CLAIR_MAX {
        return None;
    }
    let sceau: Vec<u8> = match chiffrer(cle, nonce, image, en_tete) {
        Some(s) => s,
        None => return None,
    };
    let mut t: Vec<u8> = Vec::with_capacity(en_tete.len());
    t.extend_from_slice(en_tete);
    assert(t@ =~= en_tete@);
    t.extend_from_slice(sceau.as_slice());
    assert(t@ =~= en_tete@ + sceau@);
    assert(t@.take(en_tete@.len() as int) =~= en_tete@);
    assert(t@.skip(en_tete@.len() as int) =~= sceau@);
    Some(t)
}

/// What a frame holds, where it opens.
pub open spec fn ouverte(cle: Seq<u8>, nonce: Seq<u8>, trame: Seq<u8>, en_tete: int) -> Option<
    Seq<u8>,
> {
    descelle(cle, nonce, trame.skip(en_tete), trame.take(en_tete))
}

/// Opens a frame whose header takes `en_tete` bytes; nothing where it was
/// tampered with, is shorter than its header, or is longer than any that was
/// sealed.
pub fn ouvrir_trame(cle: &[u8; 32], nonce: &[u8; 24], trame: &[u8], en_tete: usize) -> (r: Option<
    Vec<u8>,
>)
    ensures
        en_tete > trame@.len() ==> r is None,
        trame@.len() - en_tete > CLAIR_MAX + 16 ==> r is None,
        0 <= trame@.len() - en_tete <= CLAIR_MAX + 16 ==> match r {
            Some(v) => ouverte(cle@, nonce@, trame@, en_tete as int) == Some(v@),
            None => ouverte(cle@, nonce@, trame@, en_tete as int) is None,
        },
{
    if en_tete > trame.len() {
        return None;
    }
    if (trame.len() - en_tete) as u64 > CLAIR_MAX + 16 {
        return None;
    }
    let (joint, chiffre): (&[u8], &[u8]) = trame.split_at(en_tete);
    assert(joint@ =~= trame@.take(en_tete as int));
    assert(chiffre@ =~= trame@.skip(en_tete as int));
    dechiffrer(cle, nonce, chiffre, joint)
}

} // verus!
