use voxelray::rng::Rng;

#[test]
fn zero_seed_becomes_one() {
    let mut a = Rng::new(0);
    let mut b = Rng::new(1);
    assert_eq!(a.next_u32(), b.next_u32());
    assert_eq!(a.next_u32(), b.next_u32());
}

#[test]
fn first_draws_from_seed_one() {
    let mut r = Rng::new(1);
    // 1 * 6364136223846793005 + 1 = 0x5851_F42D_4C95_7F2E
    assert_eq!(r.next_u32(), 0x5851_F42D);
    let s1: u64 = 0x5851_F42D_4C95_7F2E;
    let s2 = s1.wrapping_mul(6364136223846793005).wrapping_add(1);
    assert_eq!(r.next_u32(), (s2 >> 32) as u32);
}

#[test]
fn step_wraps_round_the_top() {
    let mut r = Rng::new(u64::MAX);
    // (2^64 - 1) * m + 1 = 1 - m (mod 2^64)
    let expect = 1u64.wrapping_sub(6364136223846793005);
    assert_eq!(r.next_u32(), (expect >> 32) as u32);
}

#[test]
fn same_seed_same_sequence() {
    let mut a = Rng::new(12345);
    let mut b = Rng::new(12345);
    for _ in 0..100 {
        assert_eq!(a.next_u32(), b.next_u32());
    }
}

#[test]
fn different_seeds_differ() {
    let mut a = Rng::new(2);
    let mut b = Rng::new(3);
    assert_ne!(a.next_u32(), b.next_u32());
}
