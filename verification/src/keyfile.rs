//! From the bytes of a key file to the writes of the key.

use vstd::prelude::*;
use crate::crypto::{aes256_cbc_decrypted, decrypt, plaintext_or_file, DecryptError, IV, KEY};
use crate::key::{entry_models, key_entries, key_has_orphan, parse_key, EntryModel, KeyEntry, KeyError, ParsedKey};
use crate::text::{decoded_text, vecu8_to_str};
use crate::unlock::{ParameterWrite, WriteModel};

verus! {

/// Why a key file gives no key.
#[derive(Clone, Copy, Debug, PartialEq, Eq, Structural)]
pub enum UnlockError {
    /// The bytes are no text in an encoding that is accepted.
    Undecodable,
    /// The text is no key.
    Key(KeyError),
}

/// The key that the plaintext `bytes` give.
pub open spec fn key_of_plaintext(bytes: Seq<u8>) -> Result<(Seq<EntryModel>, bool), UnlockError> {
    match decoded_text(bytes) {
        None => Err(UnlockError::Undecodable),
        Some(text) => match key_entries(text) {
            Err(e) => Err(UnlockError::Key(e)),
            Ok(entries) => Ok((entries, key_has_orphan(text))),
        },
    }
}

/// What a key as read holds.
pub open spec fn key_view(key: Result<ParsedKey, UnlockError>) -> Result<(Seq<EntryModel>, bool), UnlockError> {
    match key {
        Ok(k) => Ok((entry_models(k.entries@), k.orphan)),
        Err(e) => Err(e),
    }
}

/// Reads a key from plaintext: the bytes are decoded to text, and the text is
/// read as a key.
pub fn key_from_plaintext(bytes: Vec<u8>) -> (key: Result<ParsedKey, UnlockError>)
    ensures
        key_view(key) == key_of_plaintext(bytes@),
{
    match vecu8_to_str(bytes) {
        None => Err(UnlockError::Undecodable),
        Some(text) => match parse_key(text.as_str()) {
            Err(e) => Err(UnlockError::Key(e)),
            Ok(key) => Ok(key),
        },
    }
}

/// A key file as read: the key, and the failure to decrypt the file where it
/// was taken for plaintext.
pub struct KeyReading {
    pub key: Result<ParsedKey, UnlockError>,
    pub decrypt_error: Option<DecryptError>,
}

/// Reads a key file: the file is decrypted with the built-in key, or taken
/// as plaintext where it does not decrypt, and the plaintext read as a key.
pub fn read_key_file(file: Vec<u8>) -> (reading: KeyReading)
    ensures
        key_view(reading.key) == key_of_plaintext(
            plaintext_or_file(file@, aes256_cbc_decrypted(KEY@, IV@, file@)).0,
        ),
        reading.decrypt_error == plaintext_or_file(file@, aes256_cbc_decrypted(KEY@, IV@, file@)).1,
        file@.len() % 16 != 0 || file@.len() == 0 ==> key_view(reading.key) == key_of_plaintext(file@),
        reading.decrypt_error is Some ==> key_view(reading.key) == key_of_plaintext(file@),
{
    let (plain, decrypt_error) = decrypt(file);
    KeyReading { key: key_from_plaintext(plain), decrypt_error }
}

impl KeyEntry {
    /// The write of this entry, with the single-precision number `bits` for
    /// its value.
    pub fn write(&self, bits: u32) -> (w: ParameterWrite)
        ensures
            w@ == (WriteModel { name: self@.name, bits }),
    {
        ParameterWrite { name: self.name.clone(), bits }
    }
}

} // verus!
