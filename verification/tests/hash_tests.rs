//! Behaviour of the digest pipeline observed from outside the crate.

use turb1600::turb1600_hash;

#[test]
fn test_basic_hash() {
    let msg = b"hello world";
    let digest = turb1600_hash(msg);
    assert_eq!(digest.len(), 128);
}

#[test]
fn test_empty_message_digest_length() {
    let digest = turb1600_hash(b"");
    assert_eq!(digest.len(), 128);
}

#[test]
fn test_short_message_digest_length() {
    let digest = turb1600_hash(b"test");
    assert_eq!(digest.len(), 128);
}

#[test]
fn test_determinism_across_calls() {
    let first = turb1600_hash(b"abc");
    let second = turb1600_hash(b"abc");
    assert_eq!(first, second);
}

#[test]
fn test_domain_separation() {
    // A tag joined with a separator byte must hash differently from the
    // bare string and from the unseparated concatenation.
    let tag = b"key";
    let body = b"value";

    let mut tagged: Vec<u8> = Vec::new();
    tagged.extend_from_slice(tag);
    tagged.push(0x00);
    tagged.extend_from_slice(body);

    let mut joined: Vec<u8> = Vec::new();
    joined.extend_from_slice(tag);
    joined.extend_from_slice(body);

    let h_tagged = turb1600_hash(&tagged);
    let h_body = turb1600_hash(body);
    let h_joined = turb1600_hash(&joined);

    assert_ne!(h_tagged, h_body);
    assert_ne!(h_tagged, h_joined);
    assert_ne!(h_body, h_joined);
}

#[test]
fn test_rate_aligned_message() {
    // A message of exactly one rate block still pads to two blocks and
    // hashes to the fixed digest length.
    let msg = vec![0xabu8; 136];
    let digest = turb1600_hash(&msg);
    assert_eq!(digest.len(), 128);

    let msg2 = vec![0xabu8; 272];
    let digest2 = turb1600_hash(&msg2);
    assert_eq!(digest2.len(), 128);
    assert_ne!(digest, digest2);
}

#[test]
fn test_avalanche() {
    // Flipping a single bit should change roughly half of the 1024
    // digest bits; assert a loose 30%-70% band on the average over a
    // deterministic set of trials.
    let mut seed: u64 = 0x1234_5678_9abc_def0;
    let mut next = move || {
        seed ^= seed << 13;
        seed ^= seed >> 7;
        seed ^= seed << 17;
        seed
    };

    let trials = 24usize;
    let mut total_flipped = 0u64;
    for _ in 0..trials {
        let mut msg = [0u8; 20];
        for b in msg.iter_mut() {
            *b = (next() & 0xff) as u8;
        }
        let base = turb1600_hash(&msg);

        let bit = (next() % (20 * 8)) as usize;
        msg[bit / 8] ^= 1 << (bit % 8);
        let flipped = turb1600_hash(&msg);

        for (x, y) in base.iter().zip(flipped.iter()) {
            total_flipped += (x ^ y).count_ones() as u64;
        }
    }

    let average_per_trial = total_flipped / trials as u64;
    // 30% of 1024 = 307; 70% of 1024 = 716
    assert!(average_per_trial > 307, "average {average_per_trial} too low");
    assert!(average_per_trial < 716, "average {average_per_trial} too high");
}
