//! Tests of the fixed-size vector with an active prefix.
use irma4::utils::vec::Vector;

#[test]
fn vec_test_new() {
    let size = 2;
    let v: Vector<i32> = Vector::new(size);
    assert_eq!(v.size(), 0);
    assert_eq!(v.data.len(), size);
}
#[test]
fn vec_test_add() {
    let mut v: Vector<i32> = Vector::new(2);
    assert_eq!(v.add(1), true);
    assert_eq!(v.add(2), true);
    assert_eq!(v.add(3), false);
    assert_eq!(v.add(4), false);
    assert_eq!(v.data[0] == 1 && v.data[1] == 2, true);
}
#[test]
fn test_del1() {
    let size = 3;
    let mut v: Vector<i32> = Vector::new(size);
    assert_eq!(v.size(), 0);
    assert_eq!(v.data.len(), size);
    v.add(1);
    v.add(2);
    v.add(3);
    assert_eq!(v.size(), size);
    assert_eq!(v.del(0), true);
    assert_eq!(v.data[0], 3);
    assert_eq!(v.data[1], 2);
    assert_eq!(v.size(), 2);
}
#[test]
fn test_del2() {
    let size = 4;
    let mut v: Vector<i32> = Vector::new(size);
    assert_eq!(v.size(), 0);
    assert_eq!(v.data.len(), size);
    v.add(1);
    v.add(2);
    v.add(3);
    v.add(4);
    assert_eq!(v.size(), size);
    assert_eq!(v.data.len(), size);
    assert_eq!(v.del(1), true);
    assert_eq!(v.data[0] == 1 && v.data[1] == 4 && v.data[2] == 3, true);
    assert_eq!(v.size(), 3);
    v.del(2);
    assert_eq!(v.size(), 2);
    assert_eq!(v.data[0] == 1 && v.data[1] == 4, true);
    assert_eq!(v.del(2), false);
    v.del(0);
    assert_eq!(v.data[0], 4);
    v.del(0);
    assert_eq!(v.size(), 0);
    assert_eq!(v.del(2), false);
    assert_eq!(v.del(1), false);
    assert_eq!(v.del(0), false);
}
#[test]
fn test_del() {
    let size = 3;
    let mut v: Vector<i32> = Vector::new(size);
    assert_eq!(v.size(), 0);
    assert_eq!(v.data.len(), size);
    v.add(1);
    v.add(2);
    v.add(3);
    assert_eq!(v.size(), size);
    assert_eq!(v.del(0), true);
    assert_eq!(v.data[0], 3);
    assert_eq!(v.size(), 2);
}
#[test]
fn vec_test_size() {
    let mut v: Vector<i32> = Vector::new(1);
    assert_eq!(v.size(), 0);
    v.add(1);
    assert_eq!(v.size(), 1);
    v.add(2);
    assert_eq!(v.size(), 1);
}
#[test]
fn test_full() {
    let mut v: Vector<i32> = Vector::new(2);
    assert_eq!(v.full(), false);
    v.add(1);
    assert_eq!(v.full(), false);
    v.add(1);
    assert_eq!(v.full(), true);
}
#[test]
fn vec_test_mixed() {
    let size = 2;
    let mut v: Vector<i32> = Vector::new(size);
    assert_eq!(v.size(), 0);
    v.add(1);
    v.add(2);
    v.add(3);
    assert_eq!(v.size(), size);
    v.del(1);
    assert_eq!(v.data[0], 1);
    v.del(1);
    assert_eq!(v.data[0], 1);
    v.del(0);
    assert_eq!(v.size(), 0);
    v.add(3);
    assert_eq!(v.size(), 1);
    assert_eq!(v.data[0], 3);
}
