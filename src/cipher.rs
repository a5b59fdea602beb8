use vstd::prelude::*;

use aes::Aes128;
use block_modes::block_padding::Pkcs7;
use block_modes::{BlockMode, Cbc};

verus! {

/// The bytes that AES-128 in CBC mode with PKCS7 padding makes of `plain`
/// under `key` and initialisation vector `iv`.
pub uninterp spec fn aes128_cbc_pkcs7_of(key: Seq<u8>, iv: Seq<u8>, plain: Seq<u8>) -> Seq<u8>;

/// Length of a PKCS7-padded message: always at least one byte of padding,
/// rounded up to a whole block.
pub open spec fn padded_len(n: nat) -> nat {
    (n / 16 + 1) * 16
}

/// Relies on `block_modes::BlockMode::encrypt_vec` for `Cbc<Aes128, Pkcs7>`:
/// the ciphertext depends on key, IV and plaintext alone, and PKCS7 pads the
/// message up to the next whole block (a full block when it is already aligned).
#[verifier::external_body]
fn aes128_cbc_encrypt(key: &[u8; 16], iv: &[u8; 16], plain: &[u8]) -> (r: Vec<u8>)
    ensures
        r@ == aes128_cbc_pkcs7_of(key@, iv@, plain@),
        r@.len() == padded_len(plain@.len()),
{
    let mode = Cbc::<Aes128, Pkcs7>::new_fix(&(*key).into(), &(*iv).into());
    mode.encrypt_vec(plain)
}

/// Relies on `block_modes::BlockMode::decrypt_vec` for `Cbc<Aes128, Pkcs7>`:
/// it inverts `encrypt_vec` under the same key and IV; a malformed input is
/// reported as an error, here `None`.
#[verifier::external_body]
fn aes128_cbc_decrypt(key: &[u8; 16], iv: &[u8; 16], cipher: &[u8]) -> (r: Option<Vec<u8>>)
    ensures
        forall|p: Seq<u8>|
            #![trigger aes128_cbc_pkcs7_of(key@, iv@, p)]
            cipher@ == aes128_cbc_pkcs7_of(key@, iv@, p) ==> (r.is_some() && r.unwrap()@ == p),
{
    let mode = Cbc::<Aes128, Pkcs7>::new_fix(&(*key).into(), &(*iv).into());
    mode.decrypt_vec(cipher).ok()
}

/// Encrypts `plain` under `key`. The key doubles as the initialisation vector,
/// so equal plaintexts under one key give equal ciphertexts.
pub fn encrypt(key: &[u8; 16], plain: &[u8]) -> (r: Vec<u8>)
    ensures
        r@ == aes128_cbc_pkcs7_of(key@, key@, plain@),
        r@.len() == padded_len(plain@.len()),
        r@.len() > plain@.len(),
        r@.len() % 16 == 0,
{
    let r = aes128_cbc_encrypt(key, key, plain);
    r
}

/// Reverses `encrypt` under the same key: the encryption of a message under
/// `key` decrypts to that message. On other input the result is `None` or
/// some message.
pub fn decrypt(key: &[u8; 16], cipher: &[u8]) -> (r: Option<Vec<u8>>)
    ensures
        forall|p: Seq<u8>|
            #![trigger aes128_cbc_pkcs7_of(key@, key@, p)]
            cipher@ == aes128_cbc_pkcs7_of(key@, key@, p) ==> (r.is_some() && r.unwrap()@ == p),
{
    aes128_cbc_decrypt(key, key, cipher)
}

} // verus!
