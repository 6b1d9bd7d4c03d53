//! Tests of the coordinate helpers and the vector filler.
use irma4::cfg::{AtomConfig, Config};
use irma4::utils::{to_offs, to_xy, zero};

fn cfg10() -> Config {
    Config::with_values(
        10,
        10,
        1024,
        1024,
        false,
        false,
        false,
        0,
        AtomConfig { mov_energy: 1, fix_energy: 1, spl_energy: 1, if_energy: 0 },
    )
}

#[test]
fn mod_test_zero() {
    let mut v: Vec<u32> = vec![7, 8, 9];
    zero(&mut v, 0);
    assert_eq!(v.len(), 3);
    assert_eq!(v[0], 0);
    assert_eq!(v[1], 0);
    assert_eq!(v[2], 0);
}
#[test]
fn mod_test_zero1() {
    let mut v: Vec<u32> = vec![5, 6];
    zero(&mut v, 1);
    assert_eq!(v.len(), 2);
    assert_eq!(v[0], 1);
    assert_eq!(v[1], 1);
}
#[test]
fn mod_test_zero2() {
    let size = 1024 * 1024;
    let mut v: Vec<u32> = vec![0; size];
    zero(&mut v, 1);
    assert_eq!(v.len(), size);
    assert_eq!(v[0], 1);
    assert_eq!(v[1], 1);
    assert_eq!(v[size - 1], 1);
}
#[test]
fn test_to_offs() {
    let cfg = cfg10();
    assert_eq!(to_offs(0, 0, &cfg), 0);
    assert_eq!(to_offs(1, 0, &cfg), 1);
    assert_eq!(to_offs(1, 1, &cfg), 11);
    assert_eq!(to_offs(0, 2, &cfg), 20);
    assert_eq!(to_offs(9, 0, &cfg), 9);
    assert_eq!(to_offs(9, 9, &cfg), 99);
}
#[test]
fn test_to_xy() {
    let cfg = cfg10();
    assert_eq!(to_xy(0, &cfg), (0, 0));
    assert_eq!(to_xy(1, &cfg), (1, 0));
    assert_eq!(to_xy(11, &cfg), (1, 1));
    assert_eq!(to_xy(20, &cfg), (0, 2));
    assert_eq!(to_xy(9, &cfg), (9, 0));
    assert_eq!(to_xy(99, &cfg), (9, 9));
}
