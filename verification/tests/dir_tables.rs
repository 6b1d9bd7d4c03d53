//! Tests of the direction rewrite rules against the full 8 by 8 tables.
use irma4::global::{dir_mov_atom, dir_near_atom, dir_rev, DIR_NO};

const N: u8 = DIR_NO;

#[test]
fn test_dir_rev_table() {
    let expected: [u8; 8] = [4, 5, 6, 7, 0, 1, 2, 3];
    for d in 0u8..8 {
        assert_eq!(dir_rev(d), expected[d as usize]);
    }
}
#[test]
fn test_dir_mov_atom_table() {
    let expected: [[u8; 8]; 8] = [
        [N, 7, N, N, N, N, N, 1],
        [3, N, 7, 0, N, N, N, 2],
        [N, 3, N, 1, N, N, N, N],
        [N, 4, 5, N, 1, 2, N, N],
        [N, N, N, 5, N, 3, N, N],
        [N, N, N, 6, 7, N, 3, 4],
        [N, N, N, N, N, 7, N, 5],
        [5, 6, N, N, N, 0, 1, N],
    ];
    for d0 in 0u8..8 {
        for dir in 0u8..8 {
            assert_eq!(dir_mov_atom(d0, dir), expected[d0 as usize][dir as usize]);
        }
    }
}
#[test]
fn test_dir_near_atom_table() {
    let expected: [[u8; 8]; 8] = [
        [N, N, N, 1, N, 7, N, N],
        [N, N, N, 2, 3, N, 7, 0],
        [N, N, N, N, N, 3, N, 1],
        [1, 2, N, N, N, 4, 5, N],
        [N, 3, N, N, N, N, N, 5],
        [7, N, 3, 4, N, N, N, 6],
        [N, 7, N, 5, N, N, N, N],
        [N, 0, 1, N, 5, 6, N, N],
    ];
    for d0 in 0u8..8 {
        for dir in 0u8..8 {
            assert_eq!(dir_near_atom(d0, dir), expected[d0 as usize][dir as usize]);
        }
    }
}
#[test]
fn test_mov_and_near_agree() {
    for d0 in 0u8..8 {
        for dir in 0u8..8 {
            let m = dir_mov_atom(d0, dir);
            if m != DIR_NO {
                assert_eq!(dir_near_atom(dir_rev(d0), dir), dir_rev(m));
            }
        }
    }
}
