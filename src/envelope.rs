use vstd::prelude::*;
use std::io::{Read, Write};

verus! {

/// Relies on `age::Encryptor::with_user_passphrase`, `Encryptor::wrap_output`, and
/// `StreamWriter::finish` after `Write::write_all`: a fresh salt and file key each call,
/// so nothing is promised of the bytes. The passphrase is held in a `SecretString`, which
/// is zeroed when dropped.
#[verifier::external_body]
pub(crate) fn age_seal(pass: &str, data: &[u8]) -> (r: Option<Vec<u8>>) {
    let secret = age::secrecy::SecretString::new(pass.to_owned());
    let mut out = Vec::new();
    let mut writer = age::Encryptor::with_user_passphrase(secret).wrap_output(&mut out).ok()?;
    writer.write_all(data).ok()?;
    writer.finish().ok()?;
    Some(out)
}

/// Relies on `age::Decryptor::new`, `PassphraseDecryptor::decrypt` and
/// `Read::read_to_end` on the stream, which fails where a chunk does not authenticate.
/// The accepted work factor depends on the machine, so nothing is promised of the result.
#[verifier::external_body]
pub(crate) fn age_open(pass: &str, data: &[u8]) -> (r: Option<Vec<u8>>) {
    let decryptor = match age::Decryptor::new(data).ok()? {
        age::Decryptor::Passphrase(d) => d,
        age::Decryptor::Recipients(_) => return None,
    };
    let secret = age::secrecy::SecretString::new(pass.to_owned());
    let mut reader = decryptor.decrypt(&secret, None).ok()?;
    let mut out = Vec::new();
    reader.read_to_end(&mut out).ok()?;
    Some(out)
}

} // verus!
