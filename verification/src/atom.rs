//! The atom codec: pure accessors and mutators over the 16 bit atom word.
//! The readers of the two bonded directions (`vm_dir` and `dir2`) return
//! [`DIR_NO`] when the corresponding bond bit is clear.
use vstd::prelude::*;
use crate::global::{
    Atom, Dir, ATOM_EMPTY, ATOM_TYPE_MASK, ATOM_TYPE_SHIFT, ATOM_VM_DIR_MASK, ATOM_VM_DIR_SHIFT,
    ATOM_VM_DIR_UNMASK, ATOM_VM_BOND_MASK, ATOM_VM_BOND_UNMASK, ATOM_DIR1_MASK, ATOM_DIR1_SHIFT,
    ATOM_DIR2_MASK, ATOM_DIR2_SHIFT, ATOM_DIR2_UNMASK, ATOM_DIR2_BOND_MASK, ATOM_DIR2_BOND_UNMASK,
    DIR_NO,
};

verus! {

/// The type field of an atom (bits 15..13): 0 - empty, 1 - mov, 2 - fix,
/// 3 - spl, 4 - if, 5 - job.
pub open spec fn spec_type(a: Atom) -> Atom {
    (a & ATOM_TYPE_MASK) >> ATOM_TYPE_SHIFT
}

/// The raw VM direction field of an atom (bits 12..10), read without looking
/// at the bond bit.
pub open spec fn spec_vm_dir_raw(a: Atom) -> Atom {
    (a & ATOM_VM_DIR_MASK) >> ATOM_VM_DIR_SHIFT
}

/// Whether the VM bond bit (bit 9) is set.
pub open spec fn spec_vm_bond(a: Atom) -> bool {
    a & ATOM_VM_BOND_MASK != 0
}

/// The VM direction of an atom: the raw field when the VM bond is present,
/// [`DIR_NO`] otherwise.
pub open spec fn spec_vm_dir(a: Atom) -> Dir {
    if spec_vm_bond(a) {
        spec_vm_dir_raw(a) as Dir
    } else {
        DIR_NO
    }
}

/// The first operand direction of an atom (bits 8..6). It has no bond bit
/// that the operators read, so it is always a plain direction.
pub open spec fn spec_dir1(a: Atom) -> Dir {
    ((a & ATOM_DIR1_MASK) >> ATOM_DIR1_SHIFT) as Dir
}

/// The raw second operand direction field of an atom (bits 5..3).
pub open spec fn spec_dir2_raw(a: Atom) -> Atom {
    (a & ATOM_DIR2_MASK) >> ATOM_DIR2_SHIFT
}

/// Whether the dir2 bond bit (bit 1) is set.
pub open spec fn spec_dir2_bond(a: Atom) -> bool {
    a & ATOM_DIR2_BOND_MASK != 0
}

/// The second operand direction of an atom: the raw field when the dir2 bond
/// is present, [`DIR_NO`] otherwise.
pub open spec fn spec_dir2(a: Atom) -> Dir {
    if spec_dir2_bond(a) {
        spec_dir2_raw(a) as Dir
    } else {
        DIR_NO
    }
}

/// The dir1 bond bit (bit 2). Present in the encoding, not read by the
/// operators.
pub open spec fn spec_dir1_bond(a: Atom) -> bool {
    a & crate::global::ATOM_DIR1_BOND_MASK != 0
}

/// The word that [`set_vm_dir`] produces: the direction field is overwritten
/// (masked into range) and the VM bond bit is set.
pub open spec fn spec_set_vm_dir(a: Atom, dir: Dir) -> Atom {
    ((a & ATOM_VM_DIR_UNMASK) | (((dir & 7) as Atom) << ATOM_VM_DIR_SHIFT)) | ATOM_VM_BOND_MASK
}

/// The word that [`set_dir2`] produces: the dir2 field is overwritten
/// (masked into range) and the dir2 bond bit is set.
pub open spec fn spec_set_dir2(a: Atom, dir: Dir) -> Atom {
    ((a & ATOM_DIR2_UNMASK) | (((dir & 7) as Atom) << ATOM_DIR2_SHIFT)) | ATOM_DIR2_BOND_MASK
}

/// All the fields that [`set_vm_dir`] keeps or changes, in one place.
proof fn lemma_set_vm_dir(a: Atom, dir: Dir)
    by (bit_vector)
    ensures
        spec_type(spec_set_vm_dir(a, dir)) == spec_type(a),
        spec_vm_dir_raw(spec_set_vm_dir(a, dir)) == (dir & 7) as Atom,
        spec_vm_bond(spec_set_vm_dir(a, dir)),
        spec_dir1(spec_set_vm_dir(a, dir)) == spec_dir1(a),
        spec_dir2_raw(spec_set_vm_dir(a, dir)) == spec_dir2_raw(a),
        spec_dir1_bond(spec_set_vm_dir(a, dir)) == spec_dir1_bond(a),
        spec_dir2_bond(spec_set_vm_dir(a, dir)) == spec_dir2_bond(a),
{
}

/// All the fields that [`set_dir2`] keeps or changes, in one place.
proof fn lemma_set_dir2(a: Atom, dir: Dir)
    by (bit_vector)
    ensures
        spec_type(spec_set_dir2(a, dir)) == spec_type(a),
        spec_vm_dir_raw(spec_set_dir2(a, dir)) == spec_vm_dir_raw(a),
        spec_vm_bond(spec_set_dir2(a, dir)) == spec_vm_bond(a),
        spec_dir1(spec_set_dir2(a, dir)) == spec_dir1(a),
        spec_dir2_raw(spec_set_dir2(a, dir)) == (dir & 7) as Atom,
        spec_dir1_bond(spec_set_dir2(a, dir)) == spec_dir1_bond(a),
        spec_dir2_bond(spec_set_dir2(a, dir)),
{
}

/// Checks if the cell value holds an atom: every word whose type field is
/// not zero is an atom.
pub fn is_atom(atom: Atom) -> (r: bool)
    ensures
        r == (spec_type(atom) != 0),
{
    proof {
        assert((atom & ATOM_TYPE_MASK != ATOM_EMPTY) == ((atom & ATOM_TYPE_MASK)
            >> ATOM_TYPE_SHIFT != 0)) by (bit_vector);
    }
    atom & ATOM_TYPE_MASK != ATOM_EMPTY
}

/// Returns the atom type (mov, fix, spl, ...).
pub fn get_type(atom: Atom) -> (r: Atom)
    ensures
        r == spec_type(atom),
        r < 8,
{
    proof {
        assert((atom & ATOM_TYPE_MASK) >> ATOM_TYPE_SHIFT < 8) by (bit_vector);
    }
    (atom & ATOM_TYPE_MASK) >> ATOM_TYPE_SHIFT
}

/// Returns the next atom direction for a VM, or [`DIR_NO`] when the atom has
/// no VM bond.
pub fn get_vm_dir(atom: Atom) -> (r: Dir)
    ensures
        r == spec_vm_dir(atom),
        spec_vm_bond(atom) ==> r < 8,
        !spec_vm_bond(atom) ==> r == DIR_NO,
{
    if !has_vm_bond(atom) {
        return DIR_NO;
    }
    proof {
        assert((atom & ATOM_VM_DIR_MASK) >> ATOM_VM_DIR_SHIFT < 8) by (bit_vector);
    }
    ((atom & ATOM_VM_DIR_MASK) >> ATOM_VM_DIR_SHIFT) as Dir
}

/// Sets a new VM direction and the VM bond bit. All other bits keep the
/// same; a direction above 7 is masked into range by the bit layout.
pub fn set_vm_dir(atom: &mut Atom, dir: Dir)
    ensures
        *final(atom) == spec_set_vm_dir(*old(atom), dir),
{
    *atom = (*atom & ATOM_VM_DIR_UNMASK) | (((dir & 7) as Atom) << ATOM_VM_DIR_SHIFT);
    set_vm_bond(atom);
}

/// Checks if the atom has a VM bond.
pub fn has_vm_bond(atom: Atom) -> (r: bool)
    ensures
        r == spec_vm_bond(atom),
{
    (atom & ATOM_VM_BOND_MASK) > 0
}

/// Sets the VM bond bit.
pub fn set_vm_bond(atom: &mut Atom)
    ensures
        *final(atom) == (*old(atom) | ATOM_VM_BOND_MASK),
{
    *atom |= ATOM_VM_BOND_MASK;
}

/// Clears the VM bond bit; the direction field is preserved.
pub fn reset_vm_bond(atom: &mut Atom)
    ensures
        *final(atom) == (*old(atom) & ATOM_VM_BOND_UNMASK),
        spec_type(*final(atom)) == spec_type(*old(atom)),
        spec_vm_dir_raw(*final(atom)) == spec_vm_dir_raw(*old(atom)),
        !spec_vm_bond(*final(atom)),
        spec_dir1(*final(atom)) == spec_dir1(*old(atom)),
        spec_dir2_raw(*final(atom)) == spec_dir2_raw(*old(atom)),
        spec_dir1_bond(*final(atom)) == spec_dir1_bond(*old(atom)),
        spec_dir2_bond(*final(atom)) == spec_dir2_bond(*old(atom)),
{
    proof {
        let a = *old(atom);
        assert(spec_type(a & ATOM_VM_BOND_UNMASK) == spec_type(a) && spec_vm_dir_raw(
            a & ATOM_VM_BOND_UNMASK,
        ) == spec_vm_dir_raw(a) && !spec_vm_bond(a & ATOM_VM_BOND_UNMASK) && spec_dir1(
            a & ATOM_VM_BOND_UNMASK,
        ) == spec_dir1(a) && spec_dir2_raw(a & ATOM_VM_BOND_UNMASK) == spec_dir2_raw(a)
            && spec_dir1_bond(a & ATOM_VM_BOND_UNMASK) == spec_dir1_bond(a) && spec_dir2_bond(
            a & ATOM_VM_BOND_UNMASK,
        ) == spec_dir2_bond(a)) by (bit_vector);
    }
    *atom &= ATOM_VM_BOND_UNMASK;
}

/// Returns the first operand direction of the atom.
pub fn get_dir1(atom: Atom) -> (r: Dir)
    ensures
        r == spec_dir1(atom),
        r < 8,
{
    proof {
        assert((atom & ATOM_DIR1_MASK) >> ATOM_DIR1_SHIFT < 8) by (bit_vector);
    }
    ((atom & ATOM_DIR1_MASK) >> ATOM_DIR1_SHIFT) as Dir
}

/// Returns the second operand direction of the atom, or [`DIR_NO`] when the
/// atom has no dir2 bond.
pub fn get_dir2(atom: Atom) -> (r: Dir)
    ensures
        r == spec_dir2(atom),
        spec_dir2_bond(atom) ==> r < 8,
        !spec_dir2_bond(atom) ==> r == DIR_NO,
{
    if !has_dir2_bond(atom) {
        return DIR_NO;
    }
    proof {
        assert((atom & ATOM_DIR2_MASK) >> ATOM_DIR2_SHIFT < 8) by (bit_vector);
    }
    ((atom & ATOM_DIR2_MASK) >> ATOM_DIR2_SHIFT) as Dir
}

/// Sets a new second operand direction and the dir2 bond bit. All other bits
/// keep the same; a direction above 7 is masked into range.
pub fn set_dir2(atom: &mut Atom, dir: Dir)
    ensures
        *final(atom) == spec_set_dir2(*old(atom), dir),
{
    *atom = (*atom & ATOM_DIR2_UNMASK) | (((dir & 7) as Atom) << ATOM_DIR2_SHIFT);
    set_dir2_bond(atom);
}

/// Checks if the atom has a dir2 bond.
pub fn has_dir2_bond(atom: Atom) -> (r: bool)
    ensures
        r == spec_dir2_bond(atom),
{
    (atom & ATOM_DIR2_BOND_MASK) > 0
}

/// Sets the dir2 bond bit.
pub fn set_dir2_bond(atom: &mut Atom)
    ensures
        *final(atom) == (*old(atom) | ATOM_DIR2_BOND_MASK),
{
    *atom |= ATOM_DIR2_BOND_MASK;
}

/// Clears the dir2 bond bit; the direction field is preserved.
pub fn reset_dir2_bond(atom: &mut Atom)
    ensures
        *final(atom) == (*old(atom) & ATOM_DIR2_BOND_UNMASK),
        spec_type(*final(atom)) == spec_type(*old(atom)),
        spec_vm_dir_raw(*final(atom)) == spec_vm_dir_raw(*old(atom)),
        spec_vm_bond(*final(atom)) == spec_vm_bond(*old(atom)),
        spec_dir1(*final(atom)) == spec_dir1(*old(atom)),
        spec_dir2_raw(*final(atom)) == spec_dir2_raw(*old(atom)),
        spec_dir1_bond(*final(atom)) == spec_dir1_bond(*old(atom)),
        !spec_dir2_bond(*final(atom)),
{
    proof {
        let a = *old(atom);
        assert(spec_type(a & ATOM_DIR2_BOND_UNMASK) == spec_type(a) && spec_vm_dir_raw(
            a & ATOM_DIR2_BOND_UNMASK,
        ) == spec_vm_dir_raw(a) && spec_vm_bond(a & ATOM_DIR2_BOND_UNMASK) == spec_vm_bond(a)
            && spec_dir1(a & ATOM_DIR2_BOND_UNMASK) == spec_dir1(a) && spec_dir2_raw(
            a & ATOM_DIR2_BOND_UNMASK,
        ) == spec_dir2_raw(a) && spec_dir1_bond(a & ATOM_DIR2_BOND_UNMASK) == spec_dir1_bond(a)
            && !spec_dir2_bond(a & ATOM_DIR2_BOND_UNMASK)) by (bit_vector);
    }
    *atom &= ATOM_DIR2_BOND_UNMASK;
}

/// The atom word built from its seven fields, most significant first.
pub open spec fn spec_encode(
    t: Atom,
    vm_dir: Atom,
    vm_bond: bool,
    dir1: Atom,
    dir2: Atom,
    dir1_bond: bool,
    dir2_bond: bool,
) -> Atom {
    ((t << ATOM_TYPE_SHIFT) | (vm_dir << ATOM_VM_DIR_SHIFT) | (if vm_bond {
        ATOM_VM_BOND_MASK
    } else {
        0
    }) | (dir1 << ATOM_DIR1_SHIFT) | (dir2 << ATOM_DIR2_SHIFT) | (if dir1_bond {
        crate::global::ATOM_DIR1_BOND_MASK
    } else {
        0
    }) | (if dir2_bond {
        ATOM_DIR2_BOND_MASK
    } else {
        0
    })) as Atom
}

/// Atom encoding round trip: building an atom from its fields and reading the
/// fields back yields the original values, with the convention that the
/// readers of `vm_dir` and `dir2` return [`DIR_NO`] when the corresponding
/// bond bit is clear.
pub proof fn lemma_atom_round_trip(
    t: Atom,
    vm_dir: Atom,
    vm_bond: bool,
    dir1: Atom,
    dir2: Atom,
    dir1_bond: bool,
    dir2_bond: bool,
)
    requires
        t < 8,
        vm_dir < 8,
        dir1 < 8,
        dir2 < 8,
    ensures
        spec_type(spec_encode(t, vm_dir, vm_bond, dir1, dir2, dir1_bond, dir2_bond)) == t,
        spec_vm_bond(spec_encode(t, vm_dir, vm_bond, dir1, dir2, dir1_bond, dir2_bond)) == vm_bond,
        spec_vm_dir(spec_encode(t, vm_dir, vm_bond, dir1, dir2, dir1_bond, dir2_bond)) == (
        if vm_bond {
            vm_dir as Dir
        } else {
            DIR_NO
        }),
        spec_dir1(spec_encode(t, vm_dir, vm_bond, dir1, dir2, dir1_bond, dir2_bond)) == dir1 as Dir,
        spec_dir1_bond(spec_encode(t, vm_dir, vm_bond, dir1, dir2, dir1_bond, dir2_bond))
            == dir1_bond,
        spec_dir2_bond(spec_encode(t, vm_dir, vm_bond, dir1, dir2, dir1_bond, dir2_bond))
            == dir2_bond,
        spec_dir2(spec_encode(t, vm_dir, vm_bond, dir1, dir2, dir1_bond, dir2_bond)) == (
        if dir2_bond {
            dir2 as Dir
        } else {
            DIR_NO
        }),
{
    let a = spec_encode(t, vm_dir, vm_bond, dir1, dir2, dir1_bond, dir2_bond);
    assert(spec_type(a) == t && spec_vm_bond(a) == vm_bond && spec_vm_dir_raw(a) == vm_dir
        && spec_dir1(a) == dir1 as Dir && spec_dir1_bond(a) == dir1_bond && spec_dir2_bond(a)
        == dir2_bond && spec_dir2_raw(a) == dir2) by (bit_vector)
        requires
            t < 8,
            vm_dir < 8,
            dir1 < 8,
            dir2 < 8,
            a == spec_encode(t, vm_dir, vm_bond, dir1, dir2, dir1_bond, dir2_bond),
    ;
}

/// The facts of [`lemma_set_vm_dir`], exported for callers of [`set_vm_dir`].
pub proof fn lemma_set_vm_dir_fields(a: Atom, dir: Dir)
    ensures
        spec_type(spec_set_vm_dir(a, dir)) == spec_type(a),
        spec_vm_dir_raw(spec_set_vm_dir(a, dir)) == (dir & 7) as Atom,
        spec_vm_bond(spec_set_vm_dir(a, dir)),
        dir < 8 ==> spec_vm_dir(spec_set_vm_dir(a, dir)) == dir,
        spec_dir1(spec_set_vm_dir(a, dir)) == spec_dir1(a),
        spec_dir2_raw(spec_set_vm_dir(a, dir)) == spec_dir2_raw(a),
        spec_dir2(spec_set_vm_dir(a, dir)) == spec_dir2(a),
        spec_dir1_bond(spec_set_vm_dir(a, dir)) == spec_dir1_bond(a),
        spec_dir2_bond(spec_set_vm_dir(a, dir)) == spec_dir2_bond(a),
{
    lemma_set_vm_dir(a, dir);
    if dir < 8 {
        assert((dir & 7) == dir) by (bit_vector)
            requires
                dir < 8,
        ;
    }
}

/// The facts of [`lemma_set_dir2`], exported for callers of [`set_dir2`].
pub proof fn lemma_set_dir2_fields(a: Atom, dir: Dir)
    ensures
        spec_type(spec_set_dir2(a, dir)) == spec_type(a),
        spec_vm_dir_raw(spec_set_dir2(a, dir)) == spec_vm_dir_raw(a),
        spec_vm_bond(spec_set_dir2(a, dir)) == spec_vm_bond(a),
        spec_vm_dir(spec_set_dir2(a, dir)) == spec_vm_dir(a),
        spec_dir1(spec_set_dir2(a, dir)) == spec_dir1(a),
        spec_dir2_raw(spec_set_dir2(a, dir)) == (dir & 7) as Atom,
        spec_dir2_bond(spec_set_dir2(a, dir)),
        dir < 8 ==> spec_dir2(spec_set_dir2(a, dir)) == dir,
        spec_dir1_bond(spec_set_dir2(a, dir)) == spec_dir1_bond(a),
{
    lemma_set_dir2(a, dir);
    if dir < 8 {
        assert((dir & 7) == dir) by (bit_vector)
            requires
                dir < 8,
        ;
    }
}

/// The empty cell value decodes to the empty atom: its type is zero and it
/// has no bonds.
pub proof fn lemma_empty_atom()
    ensures
        spec_type(ATOM_EMPTY) == 0,
        !spec_vm_bond(ATOM_EMPTY),
        !spec_dir2_bond(ATOM_EMPTY),
        spec_vm_dir(ATOM_EMPTY) == DIR_NO,
        spec_dir2(ATOM_EMPTY) == DIR_NO,
{
    assert(spec_type(0u16) == 0 && !spec_vm_bond(0u16) && !spec_dir2_bond(0u16)) by (bit_vector);
}

/// The direction fields decode into the eight compass directions whenever
/// their bond bit is present; the first operand direction always does.
pub proof fn lemma_dir_range(a: Atom)
    ensures
        spec_type(a) < 8,
        spec_dir1(a) < 8,
        spec_vm_bond(a) ==> spec_vm_dir(a) < 8,
        spec_dir2_bond(a) ==> spec_dir2(a) < 8,
{
    assert((a & ATOM_TYPE_MASK) >> ATOM_TYPE_SHIFT < 8 && (a & ATOM_DIR1_MASK) >> ATOM_DIR1_SHIFT
        < 8 && (a & ATOM_VM_DIR_MASK) >> ATOM_VM_DIR_SHIFT < 8 && (a & ATOM_DIR2_MASK)
        >> ATOM_DIR2_SHIFT < 8) by (bit_vector);
}

} // verus!
