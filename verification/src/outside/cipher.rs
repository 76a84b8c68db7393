//! Ciphers and randomness: `aes_gcm` and `openssl`.
use aes_gcm::aead::rand_core::RngCore;
use aes_gcm::aead::{Aead, KeyInit, OsRng};
use aes_gcm::{Aes256Gcm, Key, Nonce};
use vstd::prelude::*;

verus! {

/// The longest text that AES-GCM encrypts: `aes_gcm::P_MAX`.
pub open spec fn max_plain_len() -> nat {
    0x10_0000_0000
}

/// What `Aes256Gcm::encrypt` makes of a text: the ciphertext with its tag.
pub uninterp spec fn gcm_sealed(key: Seq<u8>, nonce: Seq<u8>, plain: Seq<u8>) -> Seq<u8>;

/// What `Aes256Gcm::decrypt` makes of a ciphertext with its tag: the text, or nothing
/// when the tag does not fit.
pub uninterp spec fn gcm_opened(key: Seq<u8>, nonce: Seq<u8>, sealed: Seq<u8>) -> Option<Seq<u8>>;

/// `Aes256Gcm::encrypt` without associated data. It fails only on a text longer than
/// the cipher allows. What comes out is the text's length plus a tag of sixteen bytes,
/// and `Aes256Gcm::decrypt` under the same key and nonce gives the text back. It takes no
/// other tag behind the same ciphertext, since it compares the tag with the one that it
/// computes; and it takes the ciphertext with its tag under no other nonce, since the tag
/// is a sum with the encrypted block that holds the nonce, and AES encrypts different
/// blocks differently. Whether it takes another ciphertext rests on the key, and nothing
/// is said of that.
/// It reserves room for text and tag at once, which must fit into one allocation, and
/// panics on a key or a nonce of another length; `requires` leaves that out.
#[verifier::external_body]
pub(crate) fn gcm_seal(key: &[u8], nonce: &[u8], plain: &[u8]) -> (r: Option<Vec<u8>>)
    requires
        key@.len() == 32,
        nonce@.len() == 12,
        plain@.len() + 16 <= isize::MAX,
    ensures
        r is Some <==> plain@.len() <= max_plain_len(),
        r matches Some(c) ==> c@ == gcm_sealed(key@, nonce@, plain@) && c@.len() == plain@.len() + 16
            && gcm_opened(key@, nonce@, c@) == Some(plain@),
        r matches Some(c) ==> forall|other: Seq<u8>|
            other.len() == c@.len() && other != c@ && other.take(plain@.len() as int) == c@.take(
                plain@.len() as int,
            ) ==> (#[trigger] gcm_opened(key@, nonce@, other)) is None,
        r matches Some(c) ==> forall|other: Seq<u8>|
            other.len() == nonce@.len() && other != nonce@ ==> (#[trigger] gcm_opened(
                key@,
                other,
                c@,
            )) is None,
{
    let cipher = Aes256Gcm::new(Key::<Aes256Gcm>::from_slice(key));
    cipher.encrypt(Nonce::from_slice(nonce), plain).ok()
}

/// `Aes256Gcm::decrypt` without associated data. What comes out is shorter than what
/// went in by the tag; anything shorter than a tag does not open. It panics on a key or
/// a nonce of another length, which `requires` leaves out.
#[verifier::external_body]
pub(crate) fn gcm_open(key: &[u8], nonce: &[u8], sealed: &[u8]) -> (r: Option<Vec<u8>>)
    requires
        key@.len() == 32,
        nonce@.len() == 12,
    ensures
        r is Some <==> gcm_opened(key@, nonce@, sealed@) is Some,
        r matches Some(p) ==> gcm_opened(key@, nonce@, sealed@) == Some(p@) && p@.len() + 16
            == sealed@.len(),
{
    let cipher = Aes256Gcm::new(Key::<Aes256Gcm>::from_slice(key));
    cipher.decrypt(Nonce::from_slice(nonce), sealed).ok()
}

/// `OsRng::fill_bytes`: `N` bytes from the system's generator. Nothing is said of
/// what they are.
#[verifier::external_body]
pub(crate) fn random_bytes<const N: usize>() -> (r: [u8; N]) {
    let mut bytes = [0u8; N];
    OsRng.fill_bytes(&mut bytes);
    bytes
}

/// `OsRng::next_u64`: a number from the system's generator. Nothing is said of what
/// it is.
#[verifier::external_body]
pub(crate) fn random_u64() -> (r: u64) {
    OsRng.next_u64()
}

/// What `openssl::pkcs5::pbkdf2_hmac` with SHA-256 derives: `len` bytes, or nothing
/// when OpenSSL refuses the arguments.
pub uninterp spec fn pbkdf2_derived(pass: Seq<u8>, salt: Seq<u8>, iterations: nat, len: nat) -> Option<Seq<u8>>;

/// `openssl::pkcs5::pbkdf2_hmac` with SHA-256, into forty-eight bytes. It panics when
/// a length or the number of iterations does not fit a C `int`, which `requires`
/// leaves out. Where it is refused, the words of OpenSSL come back, of which nothing is
/// said: they hold whatever stands in its list of errors.
#[verifier::external_body]
pub(crate) fn pbkdf2_sha256(pass: &[u8], salt: &[u8], iterations: u32) -> (r: Result<
    [u8; 48],
    String,
>)
    requires
        pass@.len() <= i32::MAX,
        salt@.len() <= i32::MAX,
        iterations <= i32::MAX,
    ensures
        r is Ok <==> pbkdf2_derived(pass@, salt@, iterations as nat, 48) is Some,
        r matches Ok(k) ==> pbkdf2_derived(pass@, salt@, iterations as nat, 48) == Some(k@),
{
    let mut out = [0u8; 48];
    let md = openssl::hash::MessageDigest::sha256();
    match openssl::pkcs5::pbkdf2_hmac(pass, salt, iterations as usize, md, &mut out) {
        Ok(_) => Ok(out),
        Err(e) => Err(e.to_string()),
    }
}

/// What `openssl::symm::decrypt` with AES-256-CBC makes of a ciphertext: the text
/// without its padding, or nothing when the padding does not fit.
pub uninterp spec fn cbc_opened(key: Seq<u8>, iv: Seq<u8>, ciphertext: Seq<u8>) -> Option<Seq<u8>>;

/// `openssl::symm::decrypt` with AES-256-CBC and padding. It panics when the key or
/// the initialisation vector is too short, or when the ciphertext and one block more
/// do not fit a C `int`; `requires` leaves that out. What comes out is cut from a buffer
/// of that length, one block of sixteen bytes more than the ciphertext. Where it fails,
/// the words of OpenSSL come back, of which nothing is said.
#[verifier::external_body]
pub(crate) fn cbc_open(key: &[u8], iv: &[u8], ciphertext: &[u8]) -> (r: Result<Vec<u8>, String>)
    requires
        key@.len() == 32,
        iv@.len() == 16,
        ciphertext@.len() + 16 <= i32::MAX,
    ensures
        r is Ok <==> cbc_opened(key@, iv@, ciphertext@) is Some,
        r matches Ok(p) ==> cbc_opened(key@, iv@, ciphertext@) == Some(p@) && p@.len()
            <= ciphertext@.len() + 16,
{
    let cipher = openssl::symm::Cipher::aes_256_cbc();
    openssl::symm::decrypt(cipher, key, Some(iv), ciphertext).map_err(|e| e.to_string())
}

}
