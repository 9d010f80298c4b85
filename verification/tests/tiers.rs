use memset_nt::x86_64::{
    memset_avx, memset_avx512f, memset_small, memset_sse2, pattern32, replicate, split_for_width,
};

fn test_impl(f: fn(&mut Vec<u8>, usize, u8)) {
    f(&mut Vec::new(), 0, 0);
    for addr in [0usize, 1, 13, 32, 63] {
        for i in 0..128usize {
            let mut arr = vec![0u8; i];
            f(&mut arr, addr, i as u8);
            for b in arr.iter().take(i) {
                assert_eq!(*b, i as u8);
            }
        }
    }
}

#[test]
fn avx512f() {
    test_impl(memset_avx512f);
}

#[test]
fn avx() {
    test_impl(memset_avx);
}

#[test]
fn sse2() {
    test_impl(memset_sse2);
}

#[test]
fn small_fills_its_range_only() {
    for addr in 0..8usize {
        let mut v = vec![7u8; 40];
        memset_small(&mut v, 5, 29, addr, 0x5a);
        for (i, b) in v.iter().enumerate() {
            if (5..29).contains(&i) {
                assert_eq!(*b, 0x5a);
            } else {
                assert_eq!(*b, 7);
            }
        }
    }
}

#[test]
fn misalignment_sweep() {
    // Every start-address offset against the widest vector width, at every
    // small length: the whole buffer is filled and only the buffer.
    for addr in 0..64usize {
        for len in 0..80usize {
            let value = (addr + len) as u8;
            let mut v = vec![!value; len];
            memset_avx512f(&mut v, addr, value);
            assert_eq!(v.len(), len);
            assert!(v.iter().all(|b| *b == value));
        }
    }
}

#[test]
fn scenario_len_17_avx() {
    for addr in [0usize, 5, 31, 32] {
        let (p, b, s) = split_for_width(addr, 17, 32);
        assert!(p < 32);
        assert_eq!(b % 32, 0);
        assert!(s < 32);
        assert_eq!(p + b + s, 17);
        let mut v = vec![0u8; 17];
        memset_avx(&mut v, addr, 0xab);
        assert_eq!(v, vec![0xab; 17]);
    }
}

#[test]
fn scenario_len_0() {
    let mut v: Vec<u8> = Vec::new();
    memset_avx(&mut v, 3, 0xab);
    assert_eq!(v.len(), 0);
    assert_eq!(v, Vec::<u8>::new());
}

#[test]
fn split_cases() {
    assert_eq!(split_for_width(0, 17, 32), (0, 0, 17));
    assert_eq!(split_for_width(3, 100, 32), (29, 64, 7));
    assert_eq!(split_for_width(0, 64, 64), (0, 64, 0));
    assert_eq!(split_for_width(1, 64, 64), (63, 0, 1));
    assert_eq!(split_for_width(5, 0, 16), (0, 0, 0));
    assert_eq!(split_for_width(6, 2, 4), (2, 0, 0));
    assert_eq!(split_for_width(6, 11, 4), (2, 8, 1));
}

#[test]
fn pattern_exact_values() {
    assert_eq!(pattern32(0xab), 0xabababab);
    assert_eq!(pattern32(0x00), 0x00000000);
    assert_eq!(pattern32(0xff), 0xffffffff);
    assert_eq!(pattern32(0x12), 0x12121212);
}

#[test]
fn replicate_widths() {
    for w in [4usize, 16, 32, 64] {
        assert_eq!(replicate(0x5a, w), vec![0x5a; w]);
    }
}
