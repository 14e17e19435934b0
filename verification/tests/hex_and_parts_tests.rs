//! Hex rendering, padding shape, round constants, and locked
//! regression vectors for the canonical configuration.

use turb1600::hash_hex;
use turb1600::turb1600_hash;
use turb1600::engine::gen_round_constants;
use turb1600::engine::pad_message;

#[test]
fn test_hash_hex() {
    let hex = hash_hex("test");
    assert_eq!(hex.len(), 256); // 128 bytes -> 256 hex chars
}

#[test]
fn test_hash_hex_lowercase() {
    let hex = hash_hex("test");
    assert_eq!(hex.len(), 256);
    assert!(hex.chars().all(|c| c.is_ascii_digit() || ('a'..='f').contains(&c)));
}

#[test]
fn test_pad_empty_message() {
    let padded = pad_message(&[]);
    assert_eq!(padded.len(), 136);
    assert_eq!(padded[0], 0x01);
    assert!(padded[1..135].iter().all(|&b| b == 0));
    assert_eq!(padded[135], 0x80);
}

#[test]
fn test_pad_rate_aligned_message_gains_full_block() {
    let msg = vec![0x55u8; 136];
    let padded = pad_message(&msg);
    assert_eq!(padded.len(), 272);
    assert_eq!(&padded[..136], &msg[..]);
    assert_eq!(padded[136], 0x01);
    assert_eq!(padded[271], 0x80);
}

#[test]
fn test_pad_never_shorter_than_two_extra_bytes() {
    for n in [0usize, 1, 133, 134, 135, 136, 137, 270, 271, 272] {
        let msg = vec![0x77u8; n];
        let padded = pad_message(&msg);
        assert!(padded.len() >= n + 2);
        assert_eq!(padded.len() % 136, 0);
    }
}

#[test]
fn test_first_round_constant() {
    let rc = gen_round_constants();
    assert_eq!(rc[0], 0x4ca9_b48d_4055_e2ae);
}

#[test]
fn test_digest_vectors() {
    // Regression vectors for the one canonical configuration.
    assert_eq!(
        hash_hex(""),
        "598f46deb58aee3831a2741f34a99273620931d988d79cd463bc9575af0d9555\
         f76eda8984e3b8ced13f920982157a67d4c2c4a62aaae0c7de3d81293ee1bff5\
         527601c069e55251a4a4b64d2541e70b5b07430bb49eeb86f75570450722e58c\
         7291de97597755c6ea87aab8e1a1b86458a1e5889944e5395ebafcb2eb6354b5"
    );
    assert_eq!(
        hash_hex("test"),
        "7179424611298788f29a4a8d607f9046ff2e95d93b4a1d2486e121e1171a78d3\
         d1f6e083d3a910518aa672935e2490e8ec6c9d2640c69a5b6f28cca70d4d60f1\
         3b02372f48e308a3cc807e920881ebc859cf56468d0633a59f6ec1e05b944e8a\
         d285320c54587e3b82f17a9ebfa3aa4c7871f155f8aa7a845017fb2eaee0c6ca"
    );
}

#[test]
fn test_hex_matches_digest_bytes() {
    let digest = turb1600_hash(b"hello world");
    let hex = hash_hex("hello world");
    let rendered: String = digest.iter().map(|b| format!("{b:02x}")).collect();
    assert_eq!(hex, rendered);
}
