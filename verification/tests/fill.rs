use memset_nt::{fill_range, memset};

fn test_impl(f: fn(&mut Vec<u8>, u8)) {
    f(&mut Vec::new(), 0);
    for i in 0..128usize {
        let mut arr = vec![0u8; i];
        f(&mut arr, i as u8);
        for b in arr.iter().take(i) {
            assert_eq!(*b, i as u8);
        }
    }
}

#[test]
fn empty() {
    memset(&mut Vec::new(), 0);
    let mut arr = Vec::new();
    memset(&mut arr, 0);
    assert_eq!(arr.len(), 0);
}

#[test]
fn smoke() {
    test_impl(memset);
}

#[test]
fn fallback() {
    test_impl(memset_nt::fallback);
}

#[test]
fn fill_twice_is_fill_once() {
    for len in [0usize, 1, 7, 64, 129] {
        let mut once = vec![3u8; len];
        memset(&mut once, 0xcd);
        let mut twice = vec![3u8; len];
        memset(&mut twice, 0xcd);
        memset(&mut twice, 0xcd);
        assert_eq!(once, twice);
    }
}

#[test]
fn fill_range_touches_only_its_range() {
    let mut v = vec![9u8; 10];
    fill_range(&mut v, 3, 7, 0x11);
    assert_eq!(v, vec![9, 9, 9, 0x11, 0x11, 0x11, 0x11, 9, 9, 9]);
    fill_range(&mut v, 5, 5, 0x22);
    assert_eq!(v, vec![9, 9, 9, 0x11, 0x11, 0x11, 0x11, 9, 9, 9]);
}

#[test]
fn fill_every_value() {
    for value in 0..=255u8 {
        let mut v = vec![!value; 33];
        memset_nt::fallback(&mut v, value);
        assert!(v.iter().all(|b| *b == value));
    }
}
