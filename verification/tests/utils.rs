use voprf::utils::bytes::{append_bytes, bytes_equal, clone_bytes};
use voprf::utils::hkdf::{Hkdf, HKDF_MAX_OUTPUT};
use voprf::utils::{fill_from_word, rand_bytes};

#[test]
fn rand_bytes_has_the_length_asked_for() {
    for n in [0usize, 1, 3, 4, 5, 31, 32, 33, 64, 100] {
        assert_eq!(rand_bytes(n).len(), n);
    }
    assert_ne!(rand_bytes(32), rand_bytes(32));
}

#[test]
fn fill_from_word_writes_little_endian() {
    let mut buf = vec![9u8];
    fill_from_word(&mut buf, 0x0403_0201, 10);
    assert_eq!(buf, vec![9, 1, 2, 3, 4]);
    fill_from_word(&mut buf, 0xdead_beef, 10);
    assert_eq!(buf, vec![9, 1, 2, 3, 4, 0xef, 0xbe, 0xad, 0xde]);
}

#[test]
fn fill_from_word_stops_at_the_length() {
    let mut buf = vec![9u8, 9, 9];
    fill_from_word(&mut buf, 0x0403_0201, 5);
    assert_eq!(buf, vec![9, 9, 9, 1, 2]);
    fill_from_word(&mut buf, 0x0403_0201, 5);
    assert_eq!(buf, vec![9, 9, 9, 1, 2]);
    fill_from_word(&mut buf, 0x0403_0201, 2);
    assert_eq!(buf, vec![9, 9, 9, 1, 2]);
    let mut empty: Vec<u8> = Vec::new();
    fill_from_word(&mut empty, 0xffff_ff00, 1);
    assert_eq!(empty, vec![0]);
}

#[test]
fn bytes_equal_compares_whole_strings() {
    assert!(bytes_equal(&vec![], &vec![]));
    assert!(bytes_equal(&vec![1, 2, 3], &vec![1, 2, 3]));
    assert!(!bytes_equal(&vec![1, 2, 3], &vec![1, 2, 4]));
    assert!(!bytes_equal(&vec![0, 2, 3], &vec![1, 2, 3]));
    assert!(!bytes_equal(&vec![1, 2, 3], &vec![1, 2]));
    assert!(!bytes_equal(&vec![1, 2], &vec![1, 2, 3]));
    assert!(!bytes_equal(&vec![0x80, 0x01], &vec![0x01, 0x80]));
}

#[test]
fn append_and_clone_bytes() {
    let mut buf = vec![1u8, 2];
    append_bytes(&mut buf, &vec![3, 4, 5]);
    assert_eq!(buf, vec![1, 2, 3, 4, 5]);
    append_bytes(&mut buf, &Vec::new());
    assert_eq!(buf, vec![1, 2, 3, 4, 5]);
    assert_eq!(clone_bytes(&buf), buf);
}

#[test]
fn hkdf_extract_gives_64_bytes() {
    let prk = Hkdf {}.extract(vec![1, 2, 3], vec![4, 5, 6]);
    assert_eq!(prk.len(), 64);
    assert_eq!(prk, Hkdf {}.extract(vec![1, 2, 3], vec![4, 5, 6]));
    assert_ne!(prk, Hkdf {}.extract(vec![4, 5, 6], vec![1, 2, 3]));
    assert_eq!(Hkdf {}.extract(Vec::new(), Vec::new()).len(), 64);
}

#[test]
fn hkdf_expand_gives_the_length_asked_for() {
    let prk = Hkdf {}.extract(vec![1, 2, 3], vec![4, 5, 6]);
    let long = Hkdf {}.expand(prk.clone(), vec![7], 200);
    assert_eq!(long.len(), 200);
    let short = Hkdf {}.expand(prk.clone(), vec![7], 32);
    assert_eq!(short, long[..32].to_vec());
    assert_eq!(Hkdf {}.expand(prk, vec![7], HKDF_MAX_OUTPUT).len(), 16320);
}
