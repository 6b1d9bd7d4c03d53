//! Tests of the atom codec: bit-field readers and writers over the 16 bit
//! atom word. The readers of vm_dir and dir2 answer "no direction" when the
//! corresponding bond bit is clear.
use irma4::atom;
use irma4::global::DIR_NO;

#[test]
fn test_is_atom() {
    assert_eq!(atom::is_atom(0b0000_0000_0000_0000), false);
    assert_eq!(atom::is_atom(0b0010_0000_0000_0000), true);
    assert_eq!(atom::is_atom(0b0100_0000_0000_0000), true);
    assert_eq!(atom::is_atom(0b0110_0000_0000_0000), true);
    assert_eq!(atom::is_atom(0b1000_0000_0000_0000), true);
    assert_eq!(atom::is_atom(0b1010_0000_0000_0000), true);
    assert_eq!(atom::is_atom(0b1100_0000_0000_0000), true);
    assert_eq!(atom::is_atom(0b1110_0000_0000_0000), true);

    assert_eq!(atom::is_atom(0b0010_0000_0000_1000), true);
    assert_eq!(atom::is_atom(0b0110_0000_0000_1000), true);

    assert_eq!(atom::is_atom(0b0000_1000_0000_1000), false);
    assert_eq!(atom::is_atom(0b0000_1000_1000_1000), false);
    assert_eq!(atom::is_atom(0b0001_0000_0000_0000), false);
    assert_eq!(atom::is_atom(0b0001_1111_1111_1111), false);
}
#[test]
fn test_get_type() {
    assert_eq!(atom::get_type(0b0000_0000_0000_0000), 0);
    assert_eq!(atom::get_type(0b0001_1111_1111_1111), 0);
    assert_eq!(atom::get_type(0b0010_0000_0000_0000), 1);
    assert_eq!(atom::get_type(0b0110_0000_0000_0000), 0b11);
    assert_eq!(atom::get_type(0b1010_0000_0000_0000), 0b101);
    assert_eq!(atom::get_type(0b1110_0000_0000_0000), 0b111);
    assert_eq!(atom::get_type(0b1011_0000_0000_0000), 0b101);
}
#[test]
fn test_get_vm_dir() {
    assert_eq!(atom::get_vm_dir(0b0000_0000_0000_0000), DIR_NO);
    assert_eq!(atom::get_vm_dir(0b0000_0100_0000_0000), DIR_NO);
    assert_eq!(atom::get_vm_dir(0b0000_1000_0000_0000), DIR_NO);
    assert_eq!(atom::get_vm_dir(0b0001_0000_0000_0000), DIR_NO);
    assert_eq!(atom::get_vm_dir(0b1111_0011_1111_1111), 4);
}
#[test]
fn test_get_vm_dir_bonded() {
    assert_eq!(atom::get_vm_dir(0b0000_0010_0000_0000), 0);
    assert_eq!(atom::get_vm_dir(0b0000_0110_0000_0000), 1);
    assert_eq!(atom::get_vm_dir(0b0000_1010_0000_0000), 2);
    assert_eq!(atom::get_vm_dir(0b0001_0010_0000_0000), 4);
    assert_eq!(atom::get_vm_dir(0b0001_1110_0000_0000), 7);
}
#[test]
fn test_set_vm_dir() {
    let mut atom: irma4::global::Atom = 0;
    atom::set_vm_dir(&mut atom, 1);
    assert_eq!(atom::get_vm_dir(atom), 1);

    atom::set_vm_dir(&mut atom, 0);
    assert_eq!(atom::get_vm_dir(atom), 0);

    atom::set_vm_dir(&mut atom, 6);
    assert_eq!(atom::get_vm_dir(atom), 6);

    atom::set_vm_dir(&mut atom, 7);
    assert_eq!(atom::get_vm_dir(atom), 7);

    atom::set_vm_dir(&mut atom, 8);
    assert_eq!(atom::get_vm_dir(atom), 0);
}
#[test]
fn test_has_vm_bond() {
    assert_eq!(atom::has_vm_bond(0b0000_0000_0000_0000), false);
    assert_eq!(atom::has_vm_bond(0b0000_0010_0000_0000), true);
    assert_eq!(atom::has_vm_bond(0b0000_0111_0000_0000), true);
    assert_eq!(atom::has_vm_bond(0b0000_0101_0000_0000), false);
    assert_eq!(atom::has_vm_bond(0b1111_1101_1111_1111), false);
    assert_eq!(atom::has_vm_bond(0b1111_1111_1111_1111), true);
}
#[test]
fn test_set_vm_bond() {
    let mut atom: irma4::global::Atom = 0;
    atom::set_vm_bond(&mut atom);
    assert_eq!(atom::has_vm_bond(atom), true);

    atom::set_vm_bond(&mut atom);
    assert_eq!(atom::has_vm_bond(atom), true);
}
#[test]
fn test_reset_vm_bond() {
    let mut atom: irma4::global::Atom = 0;
    atom::set_vm_bond(&mut atom);
    assert_eq!(atom::has_vm_bond(atom), true);

    atom::reset_vm_bond(&mut atom);
    assert_eq!(atom::has_vm_bond(atom), false);
}
#[test]
fn test_get_dir1() {
    assert_eq!(atom::get_dir1(0b0000_0000_0000_0000), 0);
    assert_eq!(atom::get_dir1(0b0000_0001_1100_0000), 0b111);
    assert_eq!(atom::get_dir1(0b0000_0000_0100_0000), 1);
    assert_eq!(atom::get_dir1(0b0000_0001_0100_0000), 0b101);
    assert_eq!(atom::get_dir1(0b1111_1110_0011_1111), 0);
    assert_eq!(atom::get_dir1(0b1111_1110_1011_1111), 0b10);
}
#[test]
fn test_get_dir2() {
    assert_eq!(atom::get_dir2(0b0000_0000_0000_0000), DIR_NO);
    assert_eq!(atom::get_dir2(0b0000_0000_0011_1000), DIR_NO);
    assert_eq!(atom::get_dir2(0b1111_1111_1100_0111), 0);
    assert_eq!(atom::get_dir2(0b1111_1111_1100_1111), 1);
    assert_eq!(atom::get_dir2(0b1111_1111_1110_1111), 0b101);
    assert_eq!(atom::get_dir2(0b1111_1111_1111_1111), 0b111);
}
#[test]
fn test_set_dir2() {
    let mut atom: irma4::global::Atom = 0;
    atom::set_dir2(&mut atom, 0b111);
    assert_eq!(atom::get_dir2(atom), 0b111);

    atom::set_dir2(&mut atom, 1);
    assert_eq!(atom::get_dir2(atom), 1);

    atom::set_dir2(&mut atom, 0);
    assert_eq!(atom::get_dir2(atom), 0);
}
#[test]
fn test_has_dir2_bond() {
    assert_eq!(atom::has_dir2_bond(0b0000_0000_0000_0000), false);
    assert_eq!(atom::has_dir2_bond(0b0000_0000_0000_0010), true);
    assert_eq!(atom::has_dir2_bond(0b1111_1111_1111_1101), false);
}
#[test]
fn test_set_dir2_bond() {
    let mut atom: irma4::global::Atom = 0;
    atom::set_dir2_bond(&mut atom);
    assert_eq!(atom::has_dir2_bond(atom), true);
}
#[test]
fn test_reset_dir2_bond() {
    let mut atom: irma4::global::Atom = 0;
    atom::set_dir2_bond(&mut atom);
    assert_eq!(atom::has_dir2_bond(atom), true);
    atom::reset_dir2_bond(&mut atom);
    assert_eq!(atom::has_dir2_bond(atom), false);
}
#[test]
fn test_atom_round_trip_all_fields() {
    for t in 0u16..8 {
        for vm_dir in 0u16..8 {
            for dir1 in 0u16..8 {
                for dir2 in 0u16..8 {
                    for bonds in 0u16..4 {
                        let vm_bond = bonds & 1;
                        let d2_bond = (bonds >> 1) & 1;
                        let word: u16 = (t << 13)
                            | (vm_dir << 10)
                            | (vm_bond << 9)
                            | (dir1 << 6)
                            | (dir2 << 3)
                            | (d2_bond << 1);
                        assert_eq!(atom::get_type(word), t);
                        assert_eq!(atom::get_dir1(word), dir1 as u8);
                        assert_eq!(atom::has_vm_bond(word), vm_bond == 1);
                        assert_eq!(atom::has_dir2_bond(word), d2_bond == 1);
                        if vm_bond == 1 {
                            assert_eq!(atom::get_vm_dir(word), vm_dir as u8);
                        } else {
                            assert_eq!(atom::get_vm_dir(word), DIR_NO);
                        }
                        if d2_bond == 1 {
                            assert_eq!(atom::get_dir2(word), dir2 as u8);
                        } else {
                            assert_eq!(atom::get_dir2(word), DIR_NO);
                        }
                    }
                }
            }
        }
    }
}
