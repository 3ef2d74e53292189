use rust_ed::AC;
use rust_ed::Slater;

#[test]
fn test_from_vec() {
    let state = Slater::from_vec(vec![0, 1, 2]).unwrap();
    assert_eq!(state.index, 7);
}

#[test]
fn test_from_uint() {
    let state = Slater::new(7);
    assert_eq!(state.index, 7);
}

#[test]
fn test_create() {
    let state = Slater::from_vec(Vec::new()).unwrap();
    assert_eq!(state.create(&2).unwrap().index, 4);
}

#[test]
fn test_annihilate() {
    let state = Slater::from_vec(vec![0, 1]).unwrap();
    assert_eq!(state.annihilate(&0).unwrap().index, 2);
}

#[test]
fn test_occupancy_readback() {
    let occupied = vec![0u64, 5, 17, 63];
    let d = Slater::from_vec(occupied.clone()).unwrap();
    for j in 0..64u64 {
        let bit_set = (d.index >> j) & 1 == 1;
        assert_eq!(bit_set, occupied.contains(&j));
    }
}

#[test]
fn test_duplicate_rejected() {
    assert_eq!(
        Slater::from_vec(vec![3, 3]),
        Err("State array contains repeated index!")
    );
    assert!(Slater::from_vec(vec![1, 2, 1]).is_err());
    assert!(Slater::from_vec(vec![0, 63, 5, 63]).is_err());
    assert!(Slater::from_vec(vec![4, 2, 4, 2]).is_err());
}

#[test]
fn test_create_occupied_is_null() {
    assert!(Slater::new(7).create(&1).is_none());
    assert!(Slater::new(7).apply(&AC::Create(0)).is_none());
    assert!(Slater::new(1).apply(&AC::Create(0)).is_none());
    assert!(Slater::new(u64::MAX).apply(&AC::Create(63)).is_none());
}

#[test]
fn test_annihilate_empty_is_null() {
    assert!(Slater::new(2).annihilate(&0).is_none());
    assert!(Slater::new(2).apply(&AC::Annihilate(0)).is_none());
    assert!(Slater::new(0).apply(&AC::Annihilate(5)).is_none());
    assert!(Slater::new(u64::MAX - 1).apply(&AC::Annihilate(0)).is_none());
}

#[test]
fn test_apply_signs_exact() {
    // 7 = 0b0111: annihilating site 1 passes one occupied site (site 0).
    assert_eq!(
        Slater::new(7).apply(&AC::Annihilate(1)),
        Some((-1, Slater::new(5)))
    );
    // 5 = 0b0101: creating at site 1 passes one occupied site (site 0).
    assert_eq!(
        Slater::new(5).apply(&AC::Create(1)),
        Some((-1, Slater::new(7)))
    );
    // 2 = 0b0010: creating at site 0 passes no occupied site.
    assert_eq!(
        Slater::new(2).apply(&AC::Create(0)),
        Some((1, Slater::new(3)))
    );
    // 14 = 0b1110: annihilating site 1 passes no occupied site.
    assert_eq!(
        Slater::new(14).apply(&AC::Annihilate(1)),
        Some((1, Slater::new(12)))
    );
    // Position 0 has nothing below it: always phase +1.
    assert_eq!(
        Slater::new(0).apply(&AC::Create(0)),
        Some((1, Slater::new(1)))
    );
}

#[test]
fn test_create_then_annihilate_cancels() {
    for &(index, j) in &[(0u64, 0u64), (0, 5), (4, 0), (5, 1), (7, 3), (u64::MAX - 8, 3)] {
        let d = Slater::new(index);
        let (s1, d2) = d.apply(&AC::Create(j)).unwrap();
        let (s2, back) = d2.apply(&AC::Annihilate(j)).unwrap();
        assert_eq!(back, d);
        assert_eq!(s1 * s2, 1);
    }
}
