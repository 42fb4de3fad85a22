use cell_sdk::error::CellError;
use cell_sdk::secure::{SecureTransport, Transport};
use chacha20poly1305::aead::{Aead, KeyInit};
use chacha20poly1305::{ChaCha20Poly1305, Key, Nonce};

struct EchoServer {
    key: [u8; 32],
}

impl Transport for EchoServer {
    fn call(&self, data: &[u8]) -> Result<Vec<u8>, CellError> {
        let cipher = ChaCha20Poly1305::new(Key::from_slice(&self.key));
        let nonce = Nonce::from_slice(&[0u8; 12]);
        assert_ne!(data, b"secret_payload");
        let plain = cipher.decrypt(nonce, data).map_err(|_| CellError::Corruption)?;
        assert_eq!(plain, b"secret_payload");
        let reply = cipher.encrypt(nonce, b"secure_response".as_ref()).unwrap();
        Ok(reply)
    }
}

struct Garbage;

impl Transport for Garbage {
    fn call(&self, _data: &[u8]) -> Result<Vec<u8>, CellError> {
        Ok(vec![1, 2, 3, 4, 5, 6, 7, 8, 9, 10, 11, 12, 13, 14, 15, 16, 17])
    }
}

struct Down;

impl Transport for Down {
    fn call(&self, _data: &[u8]) -> Result<Vec<u8>, CellError> {
        Err(CellError::ConnectionReset)
    }
}

#[test]
fn secure_transport_seals_and_opens() {
    let key = [7u8; 32];
    let client = SecureTransport::new(EchoServer { key }, key);
    let r = client.call(b"secret_payload");
    assert_eq!(r, Ok(b"secure_response".to_vec()));
}

#[test]
fn secure_transport_rejects_forged_replies() {
    let key = [1u8; 32];
    let client = SecureTransport::new(Garbage, key);
    assert_eq!(client.call(b"x"), Err(CellError::Corruption));
    let down = SecureTransport::new(Down, key);
    assert_eq!(down.call(b"x"), Err(CellError::ConnectionReset));
}

#[test]
fn sealed_requests_open_back() {
    let key = [9u8; 32];
    let t = SecureTransport::new(Down, key);
    let sealed = t.seal_request(b"hello").unwrap();
    assert_eq!(sealed.len(), 5 + 16);
    assert_ne!(&sealed[..5], b"hello");
    assert_eq!(t.open_response(&sealed), Ok(b"hello".to_vec()));
    let mut tampered = sealed.clone();
    tampered[0] ^= 1;
    assert_eq!(t.open_response(&tampered), Err(CellError::Corruption));
    let other = SecureTransport::new(Down, [8u8; 32]);
    assert_eq!(other.open_response(&sealed), Err(CellError::Corruption));
}
