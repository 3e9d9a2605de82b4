//! Decrypting a key file. The cipher key is built in: it keeps casual readers
//! out and protects nothing against anyone who reads this file.

use vstd::prelude::*;
use cbc::cipher::{BlockDecryptMut, KeyIvInit};

verus! {

/// The built-in AES-256 key.
pub const KEY: [u8; 32] = [
    0, 0, 0, 0, 0, 0, 0, 0, 0, 0, 0, 0, 0, 0, 0, 0, 0, 0, 0, 0, 0, 0, 0, 0, 0, 0, 0, 0, 0, 0, 0, 0,
];

/// The built-in initialisation vector.
pub const IV: [u8; 16] = [0, 0, 0, 0, 0, 0, 0, 0, 0, 0, 0, 0, 0, 0, 0, 0];

/// Why a file could not be decrypted.
#[derive(Clone, Copy, Debug, PartialEq, Eq, Structural)]
pub enum DecryptError {
    /// The key or the initialisation vector has the wrong length.
    InvalidLength,
    /// The length of the data is no multiple of the block size, or the
    /// padding at the end of the plaintext is malformed.
    UnpadError,
}

/// What AES-256 in CBC mode with the key `key` and the initialisation vector
/// `iv` makes of `data`, PKCS#7 padding taken off.
pub uninterp spec fn aes256_cbc_decrypted(key: Seq<u8>, iv: Seq<u8>, data: Seq<u8>) -> Result<Seq<u8>, DecryptError>;

/// The outcome of decrypting, with the plaintext as a sequence of bytes.
pub open spec fn outcome_view(outcome: Result<Vec<u8>, DecryptError>) -> Result<Seq<u8>, DecryptError> {
    match outcome {
        Ok(plain) => Ok(plain@),
        Err(e) => Err(e),
    }
}

/// Calls `cbc::Decryptor::<aes::Aes256>::new_from_slices` and, on the
/// decryptor it gives, `decrypt_padded_vec_mut` with PKCS#7 padding. The
/// result is a function of the three byte strings, named
/// `aes256_cbc_decrypted`. Of it the contract says what the two functions
/// document: a key that is not 32 bytes or a vector that is not 16 is an
/// invalid length; data that is empty or whose length is no multiple of 16
/// cannot be unpadded; and a plaintext is the data less its padding, which
/// is one byte at least and sixteen at most.
#[verifier::external_body]
fn cbc_decrypt(key: &[u8], iv: &[u8], data: &[u8]) -> (plain: Result<Vec<u8>, DecryptError>)
    ensures
        outcome_view(plain) == aes256_cbc_decrypted(key@, iv@, data@),
        key@.len() != 32 || iv@.len() != 16 ==> plain is Err && plain->Err_0 == DecryptError::InvalidLength,
        key@.len() == 32 && iv@.len() == 16 && (data@.len() % 16 != 0 || data@.len() == 0) ==> plain is Err
            && plain->Err_0 == DecryptError::UnpadError,
        plain is Ok ==> plain->Ok_0@.len() < data@.len() <= plain->Ok_0@.len() + 16,
{
    match cbc::Decryptor::<aes::Aes256>::new_from_slices(key, iv) {
        Ok(d) => d.decrypt_padded_vec_mut::<cbc::cipher::block_padding::Pkcs7>(data).map_err(|_| DecryptError::UnpadError),
        Err(_) => Err(DecryptError::InvalidLength),
    }
}

/// The bytes to read a key from, given the file and how decrypting it went:
/// the plaintext, or, where decrypting failed, the file as it is, taken for
/// a key that was never encrypted, together with the failure.
pub open spec fn plaintext_or_file(file: Seq<u8>, outcome: Result<Seq<u8>, DecryptError>) -> (Seq<u8>, Option<DecryptError>) {
    match outcome {
        Ok(plain) => (plain, None),
        Err(e) => (file, Some(e)),
    }
}

/// The bytes to read a key from, given the file and how decrypting it went.
pub fn plaintext_or_legacy(file: Vec<u8>, outcome: Result<Vec<u8>, DecryptError>) -> (chosen: (Vec<u8>, Option<DecryptError>))
    ensures
        match outcome {
            Ok(plain) => chosen.0@ == plain@ && chosen.1 is None,
            Err(e) => chosen.0@ == file@ && chosen.1 == Some(e),
        },
{
    match outcome {
        Ok(plain) => (plain, None),
        Err(e) => (file, Some(e)),
    }
}

/// Decrypts a key file with the built-in key. A file that does not decrypt is
/// handed back as it is, with the failure.
pub fn decrypt(file: Vec<u8>) -> (chosen: (Vec<u8>, Option<DecryptError>))
    ensures
        (chosen.0@, chosen.1) == plaintext_or_file(file@, aes256_cbc_decrypted(KEY@, IV@, file@)),
        file@.len() % 16 != 0 || file@.len() == 0 ==> chosen.0@ == file@ && chosen.1 == Some(
            DecryptError::UnpadError,
        ),
        chosen.1 is None ==> chosen.0@.len() < file@.len() <= chosen.0@.len() + 16,
        chosen.1 is Some ==> chosen.0@ == file@,
{
    let key = KEY;
    let iv = IV;
    let outcome = cbc_decrypt(key.as_slice(), iv.as_slice(), file.as_slice());
    plaintext_or_legacy(file, outcome)
}

} // verus!
