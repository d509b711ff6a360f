use nimbus::sampling::{hash_in_namespace, in_bucket};

#[test]
fn fnv_hash_known_values() {
    // FNV-1a over the bytes "a:b".
    let mut h: u32 = 2166136261;
    for b in "a:b".bytes() {
        h ^= b as u32;
        h = h.wrapping_mul(16777619);
    }
    assert_eq!(hash_in_namespace("a", "b"), h);
    // FNV-1a of ":" alone (empty value and namespace).
    assert_eq!(hash_in_namespace("", ""), (2166136261u32 ^ 58).wrapping_mul(16777619));
}

#[test]
fn sampling_is_deterministic() {
    let id = "c4b8a9f0-1234-4abc-9def-0123456789ab".to_string();
    let first = in_bucket(&id, "ns", 100, 2500, 10000);
    for _ in 0..10 {
        assert_eq!(in_bucket(&id.clone(), "ns", 100, 2500, 10000), first);
    }
}

#[test]
fn full_and_empty_ranges() {
    assert!(in_bucket("anyone", "ns", 0, 10000, 10000));
    assert!(in_bucket("anyone", "ns", 5000, 10000, 10000));
    assert!(!in_bucket("anyone", "ns", 0, 0, 10000));
    assert!(!in_bucket("anyone", "ns", 0, 10, 0));
}

#[test]
fn range_wraps_past_total() {
    let bucket = hash_in_namespace("user", "wrap") % 100;
    // A range of one bucket that begins exactly at the user's bucket.
    assert!(in_bucket("user", "wrap", bucket, 1, 100));
    // A range that starts just after the user's bucket and wraps all the way
    // round to end just before it.
    assert!(!in_bucket("user", "wrap", (bucket + 1) % 100, 99, 100));
    // Starting one past and covering all 100 wraps round to include it.
    assert!(in_bucket("user", "wrap", (bucket + 1) % 100, 100, 100));
}
