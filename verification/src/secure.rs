//! Confidential transport: requests are sealed with ChaCha20-Poly1305 under
//! a shared key before they leave, and replies are opened with the same key.

use vstd::prelude::*;
use chacha20poly1305::aead::{Aead, KeyInit};
use chacha20poly1305::{ChaCha20Poly1305, Key, Nonce};
use crate::error::CellError;

verus! {

/// The ChaCha20-Poly1305 encryption of `plaintext` under `key` and `nonce`,
/// with no associated data: the ciphertext followed by the tag.
pub uninterp spec fn chacha20poly1305_seal(key: Seq<u8>, nonce: Seq<u8>, plaintext: Seq<u8>) -> Seq<u8>;

/// Messages short enough for one ChaCha20 key stream: fewer than
/// `u32::MAX` blocks of 64 bytes.
pub open spec fn sealable(plaintext: Seq<u8>) -> bool {
    plaintext.len() / 64 < 4294967295
}

/// The error of the `aead` crate, which carries nothing.
#[verifier::external_type_specification]
#[verifier::external_body]
pub struct ExAeadError(chacha20poly1305::aead::Error);

/// `ChaCha20Poly1305::encrypt` with no associated data. It fails exactly
/// on messages of `u32::MAX` blocks or more; otherwise it returns the
/// ciphertext with the 16-byte tag appended. The cipher itself is not
/// stated; its result is named `chacha20poly1305_seal`.
#[verifier::external_body]
fn aead_encrypt(key: &[u8; 32], nonce: &[u8; 12], plaintext: &[u8]) -> (r: Result<Vec<u8>, chacha20poly1305::aead::Error>)
    ensures
        r is Ok <==> sealable(plaintext@),
        r matches Ok(ct) ==> ct@ == chacha20poly1305_seal(key@, nonce@, plaintext@) && ct@.len()
            == plaintext@.len() + 16,
{
    let cipher = ChaCha20Poly1305::new(Key::from_slice(key));
    cipher.encrypt(Nonce::from_slice(nonce), plaintext)
}

/// Whether a decryption gave back `pt`.
pub open spec fn opens_to<E>(r: Result<Vec<u8>, E>, pt: Seq<u8>) -> bool {
    r matches Ok(p) && p@ == pt
}

/// `ChaCha20Poly1305::decrypt` with no associated data. The tag is checked
/// over the ciphertext, so it accepts exactly the encryptions of sealable
/// messages under the same key and nonce, and gives back the message.
#[verifier::external_body]
fn aead_decrypt(key: &[u8; 32], nonce: &[u8; 12], ciphertext: &[u8]) -> (r: Result<Vec<u8>, chacha20poly1305::aead::Error>)
    ensures
        r matches Ok(pt) ==> sealable(pt@) && ciphertext@ == chacha20poly1305_seal(
            key@,
            nonce@,
            pt@,
        ),
        forall|pt: Seq<u8>|
            sealable(pt) && ciphertext@ == #[trigger] chacha20poly1305_seal(key@, nonce@, pt)
                ==> opens_to(r, pt),
{
    let cipher = ChaCha20Poly1305::new(Key::from_slice(key));
    cipher.decrypt(Nonce::from_slice(nonce), ciphertext)
}

/// The nonce of every sealed message: twelve zero bytes.
pub open spec fn zero_nonce() -> Seq<u8> {
    seq![0u8, 0, 0, 0, 0, 0, 0, 0, 0, 0, 0, 0]
}

/// The bytes of a transport's result.
pub open spec fn bytes_result(r: Result<Vec<u8>, CellError>) -> Result<Seq<u8>, CellError> {
    match r {
        Ok(v) => Ok(v@),
        Err(e) => Err(e),
    }
}

/// What opening `ct` under `key` gives: the message it seals, or
/// corruption when it seals none.
pub open spec fn opened(key: Seq<u8>, ct: Seq<u8>) -> Result<Seq<u8>, CellError> {
    if exists|pt: Seq<u8>| sealable(pt) && ct == #[trigger] chacha20poly1305_seal(key, zero_nonce(), pt) {
        Ok(choose|pt: Seq<u8>| sealable(pt) && ct == #[trigger] chacha20poly1305_seal(key, zero_nonce(), pt))
    } else {
        Err(CellError::Corruption)
    }
}

/// A request/response exchange with a peer.
pub trait Transport {
    /// Whether `resp` is an answer this transport may give to `req`. Of a
    /// transport that does not say, any answer may come.
    open spec fn answers(&self, req: Seq<u8>, resp: Result<Seq<u8>, CellError>) -> bool {
        true
    }

    fn call(&self, data: &[u8]) -> (r: Result<Vec<u8>, CellError>)
        ensures
            self.answers(data@, bytes_result(r)),
    ;
}

/// A transport that seals what it sends and opens what it receives.
pub struct SecureTransport<T: Transport> {
    inner: T,
    key: [u8; 32],
}

impl<T: Transport> SecureTransport<T> {
    /// The shared key.
    pub closed spec fn key(&self) -> Seq<u8> {
        self.key@
    }

    /// The transport underneath.
    pub closed spec fn inner_transport(&self) -> T {
        self.inner
    }

    pub fn new(inner: T, key_bytes: [u8; 32]) -> (s: Self)
        ensures
            s.key() == key_bytes@,
            s.inner_transport() == inner,
    {
        SecureTransport { inner, key: key_bytes }
    }

    /// Seals a request. A message too long to seal is a serialization
    /// failure.
    pub fn seal_request(&self, data: &[u8]) -> (r: Result<Vec<u8>, CellError>)
        ensures
            !sealable(data@) ==> r == Err::<Vec<u8>, CellError>(CellError::SerializationFailure),
            sealable(data@) ==> (r matches Ok(ct) && ct@ == chacha20poly1305_seal(
                self.key(),
                zero_nonce(),
                data@,
            ) && ct@.len() == data@.len() + 16),
    {
        let nonce: [u8; 12] = [0u8, 0, 0, 0, 0, 0, 0, 0, 0, 0, 0, 0];
        proof {
            assert(nonce@ =~= zero_nonce());
        }
        match aead_encrypt(&self.key, &nonce, data) {
            Ok(ct) => Ok(ct),
            Err(_) => Err(CellError::SerializationFailure),
        }
    }

    /// Opens a reply. It opens exactly what was sealed under the same key,
    /// and gives back the sealed message; anything else is corruption.
    pub fn open_response(&self, reply: &[u8]) -> (r: Result<Vec<u8>, CellError>)
        ensures
            r matches Ok(pt) ==> sealable(pt@) && reply@ == chacha20poly1305_seal(
                self.key(),
                zero_nonce(),
                pt@,
            ),
            forall|pt: Seq<u8>|
                sealable(pt) && reply@ == #[trigger] chacha20poly1305_seal(
                    self.key(),
                    zero_nonce(),
                    pt,
                ) ==> (r matches Ok(p) && p@ == pt),
            r matches Err(e) ==> e == CellError::Corruption,
            bytes_result(r) == opened(self.key(), reply@),
    {
        let nonce: [u8; 12] = [0u8, 0, 0, 0, 0, 0, 0, 0, 0, 0, 0, 0];
        proof {
            assert(nonce@ =~= zero_nonce());
        }
        let r = aead_decrypt(&self.key, &nonce, reply);
        proof {
            let key = self.key();
            if exists|pt: Seq<u8>| sealable(pt) && reply@ == #[trigger] chacha20poly1305_seal(key, zero_nonce(), pt) {
                let w = choose|pt: Seq<u8>| sealable(pt) && reply@ == #[trigger] chacha20poly1305_seal(key, zero_nonce(), pt);
                assert(opens_to(r, w));
            }
        }
        match r {
            Ok(pt) => Ok(pt),
            Err(_) => Err(CellError::Corruption),
        }
    }

    /// The transport underneath.
    pub fn inner(&self) -> (t: &T)
        ensures
            *t == self.inner_transport(),
    {
        &self.inner
    }
}

impl<T: Transport> Transport for SecureTransport<T> {
    /// A message too long to seal is refused as a serialization failure.
    /// Otherwise the inner transport was sent the sealed message and gave
    /// `reply`; its error is passed on, and a reply is opened under the key.
    open spec fn answers(&self, req: Seq<u8>, resp: Result<Seq<u8>, CellError>) -> bool {
        if !sealable(req) {
            resp == Err::<Seq<u8>, CellError>(CellError::SerializationFailure)
        } else {
            exists|reply: Result<Seq<u8>, CellError>|
                #[trigger] self.inner_transport().answers(
                    chacha20poly1305_seal(self.key(), zero_nonce(), req),
                    reply,
                ) && resp == match reply {
                    Ok(ct) => opened(self.key(), ct),
                    Err(e) => Err(e),
                }
        }
    }

    /// Seals the request, sends it through the inner transport, and opens
    /// the reply; an error of the inner transport is passed on.
    fn call(&self, data: &[u8]) -> (r: Result<Vec<u8>, CellError>)
        ensures
            !sealable(data@) ==> r == Err::<Vec<u8>, CellError>(CellError::SerializationFailure),
            r matches Ok(pt) ==> sealable(pt@),
    {
        let sealed = self.seal_request(data);
        match sealed {
            Err(e) => Err(e),
            Ok(ct) => {
                let reply = self.inner.call(ct.as_slice());
                match reply {
                    Err(e) => {
                        proof {
                            assert(self.inner_transport().answers(ct@, bytes_result(reply)));
                        }
                        Err(e)
                    },
                    Ok(bytes) => {
                        let r = self.open_response(bytes.as_slice());
                        proof {
                            assert(self.inner_transport().answers(ct@, bytes_result(reply)));
                        }
                        r
                    },
                }
            },
        }
    }
}

} // verus!
