use tiny64::base64_encode_u64;

const ALPHABET: &str = "-0123456789ABCDEFGHIJKLMNOPQRSTUVWXYZ_abcdefghijklmnopqrstuvwxyz";

#[test]
fn encode_zero_is_all_first_symbol() {
    assert_eq!(base64_encode_u64(0), "-----------");
}

#[test]
fn encode_max_value() {
    assert_eq!(base64_encode_u64(u64::MAX), "zzzzzzzzzzw");
}

#[test]
fn encode_known_values() {
    assert_eq!(base64_encode_u64(0x123456789ABCDEF0), "3YGLT8ewrj-");
    assert_eq!(base64_encode_u64(1), "----------3");
    assert_eq!(base64_encode_u64(0x401407), "------0-4-R");
}

#[test]
fn encode_is_deterministic() {
    let a = base64_encode_u64(0x123456789ABCDEF0);
    let b = base64_encode_u64(0x123456789ABCDEF0);
    assert_eq!(a, b);
}

#[test]
fn encode_length_and_alphabet() {
    for v in [0u64, 1, 63, 64, 0xFFFF, 0x123456789ABCDEF0, u64::MAX - 1, u64::MAX] {
        let s = base64_encode_u64(v);
        assert_eq!(s.len(), 11);
        for ch in s.chars() {
            assert!(ALPHABET.contains(ch));
        }
    }
}

#[test]
fn alphabet_rises_in_code() {
    let bytes = ALPHABET.as_bytes();
    assert_eq!(bytes.len(), 64);
    for i in 0..63 {
        assert!(bytes[i] < bytes[i + 1]);
    }
}

#[test]
fn encode_keeps_order() {
    assert!(base64_encode_u64(0) < base64_encode_u64(u64::MAX));
    let values = [
        0u64,
        1,
        2,
        3,
        4,
        15,
        16,
        63,
        64,
        1 << 22,
        (1 << 22) + 1,
        0x123456789ABCDEEF,
        0x123456789ABCDEF0,
        u64::MAX - 1,
        u64::MAX,
    ];
    for i in 0..values.len() - 1 {
        assert!(base64_encode_u64(values[i]) < base64_encode_u64(values[i + 1]));
    }
}

#[test]
fn encode_distinct_on_neighbours() {
    for v in 0u64..2000 {
        assert_ne!(base64_encode_u64(v), base64_encode_u64(v + 1));
        assert!(base64_encode_u64(v) < base64_encode_u64(v + 1));
    }
}
