//! Signing with a service account's RSA key.

use vstd::prelude::*;

verus! {

/// The RS256 signature of `message`, that is its RSASSA-PKCS1-v1_5
/// signature with SHA-256, under the first PKCS#8 private key of the PEM
/// text `private_key_pem`; `None` where the text holds no such key or the
/// key cannot be used as an RSA signing key.
pub uninterp spec fn rs256_signature(private_key_pem: Seq<char>, message: Seq<u8>) -> Option<Seq<u8>>;

/// Signs `message` with the key in `private_key_pem`.
///
/// The key is read with `rustls_pemfile::pkcs8_private_keys`, of whose keys
/// the first is taken, and loaded with `rustls::sign::RsaSigningKey::new`;
/// the signer comes from `choose_scheme` for `RSA_PKCS1_SHA256` alone, and
/// its `sign` makes the signature. Each step that fails ends in `None`.
/// The contract claims that the outcome is the one named by
/// [`rs256_signature`]: it depends on the key text and the message only.
/// Nothing is claimed of what the signature holds.
#[verifier::external_body]
pub(crate) fn sign_rs256(private_key_pem: &str, message: &[u8]) -> (signature: Option<Vec<u8>>)
    ensures
        match signature {
            Some(bytes) => rs256_signature(private_key_pem@, message@) == Some(bytes@),
            None => rs256_signature(private_key_pem@, message@) is None,
        },
{
    let mut reader = private_key_pem.as_bytes();
    let der = rustls_pemfile::pkcs8_private_keys(&mut reader).ok()?.into_iter().next()?;
    let key = rustls::sign::RsaSigningKey::new(&rustls::PrivateKey(der)).ok()?;
    let schemes = [rustls::SignatureScheme::RSA_PKCS1_SHA256];
    let signer = rustls::sign::SigningKey::choose_scheme(&key, &schemes)?;
    signer.sign(message).ok()
}

} // verus!
