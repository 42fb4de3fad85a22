use cell_sdk::identity::{
    auth_response, check_token_file, heartbeat_node_id, node_id_of, peer_allowed, sign_instance,
    to_hex, token_digest, verify_auth_response, HeartbeatService, TokenFileError,
};

fn blake3_of(data: &[u8]) -> [u8; 32] {
    *blake3::hash(data).as_bytes()
}

#[test]
fn node_id_is_the_first_digest_bytes() {
    let d = blake3_of(b"ledger");
    let want = u64::from_le_bytes(d[..8].try_into().unwrap());
    assert_eq!(node_id_of("ledger"), want);
    assert_ne!(node_id_of("ledger"), node_id_of("vault"));
}

#[test]
fn hex_encoding() {
    assert_eq!(to_hex(&[0x00, 0x0f, 0xa0, 0xff]), "000fa0ff");
    assert_eq!(to_hex(&[]), "");
}

#[test]
fn heartbeat_ids_and_signatures() {
    let mut input = b"cell".to_vec();
    input.extend_from_slice(&7u64.to_le_bytes());
    let want = blake3::hash(&input).to_hex().to_string();
    assert_eq!(heartbeat_node_id("cell", 7), want);
    let h = HeartbeatService::with_nonce("cell".to_string(), "10.0.0.1:9".to_string(), 7);
    assert_eq!(h.node_id, want);
    assert_eq!(h.signature(), format!("{}:10.0.0.1:9", want));
    assert_eq!(sign_instance("n1", "e1"), "n1:e1");
    let r = HeartbeatService::new("cell".to_string(), "e".to_string());
    assert_eq!(r.node_id.len(), 64);
}

#[test]
fn challenge_response_uses_the_token() {
    let challenge = [3u8; 32];
    let token = token_digest(b"secret");
    assert_eq!(token, blake3_of(b"secret").to_vec());
    assert_eq!(token.len(), 32);
    let resp = auth_response(&challenge, &token);
    let mut joined = challenge.to_vec();
    joined.extend_from_slice(&token);
    assert_eq!(resp, blake3_of(&joined).to_vec());
    assert!(verify_auth_response(&challenge, &token, &resp));
    let other = token_digest(b"other");
    assert!(!verify_auth_response(&challenge, &other, &resp));
}

#[test]
fn token_file_checks() {
    assert_eq!(check_token_file(1000, 1000, 0o100600), Ok(()));
    assert_eq!(
        check_token_file(0, 1000, 0o600),
        Err(TokenFileError::WrongOwner { owner: 0, expected: 1000 })
    );
    assert_eq!(check_token_file(1000, 1000, 0o644), Err(TokenFileError::WrongMode { mode: 0o644 }));
    assert!(peer_allowed(5, 5));
    assert!(!peer_allowed(5, 6));
}
