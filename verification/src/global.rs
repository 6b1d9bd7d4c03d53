//! Crate wide definitions: scalar type aliases, the atom bit masks and the
//! eight compass directions with their rewrite rules.
use vstd::prelude::*;

verus! {

/// One atom. Two bytes store the atom type, the VM bond, the operand
/// directions and their bond bits.
pub type Atom = u16;

/// One of 8 possible directions (`0..=7`), or [`DIR_NO`] for "no direction".
pub type Dir = u8;

/// Offset of a cell in the world. The world is a row major array, so an
/// offset is `y * width + x`.
pub type Offs = isize;

/// Means that an atom was run normally.
pub const RET_OK: u8 = 0;

/// Means that an atom was not run.
pub const RET_SKIPPED: u8 = 1;

/// Means that a job atom was run and a new VM was requested.
pub const RET_ADD_VM: u8 = 2;

/// Amount of possible directions.
pub const DIRS_LEN: usize = 8;

/// Means no direction.
pub const DIR_NO: Dir = 255;

/// Empty atom. Means that the cell is empty.
pub const ATOM_EMPTY: Atom = 0;

/// Direction to the upper left neighbor.
pub const DIR_LEFT_UP: Dir = 0;

/// Direction to the upper neighbor.
pub const DIR_UP: Dir = 1;

/// Direction to the upper right neighbor.
pub const DIR_UP_RIGHT: Dir = 2;

/// Direction to the right neighbor.
pub const DIR_RIGHT: Dir = 3;

/// Direction to the lower right neighbor.
pub const DIR_RIGHT_DOWN: Dir = 4;

/// Direction to the lower neighbor.
pub const DIR_DOWN: Dir = 5;

/// Direction to the lower left neighbor.
pub const DIR_DOWN_LEFT: Dir = 6;

/// Direction to the left neighbor.
pub const DIR_LEFT: Dir = 7;

/// Bits 15..13 hold the atom type.
pub const ATOM_TYPE_MASK: Atom = 0b11100000_00000000;

/// Amount of bits to shift right to get the atom type.
pub const ATOM_TYPE_SHIFT: Atom = 13;

/// Bits 12..10 hold the VM run direction.
pub const ATOM_VM_DIR_MASK: Atom = 0b00011100_00000000;

/// Mask to reset the VM direction bits.
pub const ATOM_VM_DIR_UNMASK: Atom = 0b11100011_11111111;

/// Amount of bits to shift right to get the VM direction.
pub const ATOM_VM_DIR_SHIFT: Atom = 10;

/// Bit 9 is the VM bond bit (0 - no bond, 1 - has a bond).
pub const ATOM_VM_BOND_MASK: Atom = 0b00000010_00000000;

/// Mask to reset the VM bond bit.
pub const ATOM_VM_BOND_UNMASK: Atom = 0b11111101_11111111;

/// Bits 8..6 hold the first operand direction.
pub const ATOM_DIR1_MASK: Atom = 0b00000001_11000000;

/// Amount of bits to shift right to get the first operand direction.
pub const ATOM_DIR1_SHIFT: Atom = 6;

/// Mask to reset the first operand direction bits.
pub const ATOM_DIR1_UNMASK: Atom = 0b11111110_00111111;

/// Bit 2 is the dir1 bond bit (reserved, not read by the operators).
pub const ATOM_DIR1_BOND_MASK: Atom = 0b00000000_00000100;

/// Mask to reset the dir1 bond bit.
pub const ATOM_DIR1_BOND_UNMASK: Atom = 0b11111111_11111011;

/// Bits 5..3 hold the second operand direction.
pub const ATOM_DIR2_MASK: Atom = 0b00000000_00111000;

/// Amount of bits to shift right to get the second operand direction.
pub const ATOM_DIR2_SHIFT: Atom = 3;

/// Mask to reset the second operand direction bits.
pub const ATOM_DIR2_UNMASK: Atom = 0b11111111_11000111;

/// Bit 1 is the dir2 bond bit (0 - no bond, 1 - has a bond).
pub const ATOM_DIR2_BOND_MASK: Atom = 0b00000000_00000010;

/// Mask to reset the dir2 bond bit.
pub const ATOM_DIR2_BOND_UNMASK: Atom = 0b11111111_11111101;

/// Horizontal step of a direction:
/// ```text
/// 0 1 2
/// 7 X 3
/// 6 5 4
/// ```
pub open spec fn dir_dx(d: int) -> int {
    if d == 0 || d == 6 || d == 7 {
        -1
    } else if d == 1 || d == 5 {
        0
    } else {
        1
    }
}

/// Vertical step of a direction (see [`dir_dx`]).
pub open spec fn dir_dy(d: int) -> int {
    if d == 0 || d == 1 || d == 2 {
        -1
    } else if d == 3 || d == 7 {
        0
    } else {
        1
    }
}

/// The direction whose step is `(dx, dy)`, or [`DIR_NO`] when the step is
/// zero or longer than one cell.
pub open spec fn dir_from_delta(dx: int, dy: int) -> Dir {
    if dx == -1 && dy == -1 {
        0
    } else if dx == 0 && dy == -1 {
        1
    } else if dx == 1 && dy == -1 {
        2
    } else if dx == 1 && dy == 0 {
        3
    } else if dx == 1 && dy == 1 {
        4
    } else if dx == 0 && dy == 1 {
        5
    } else if dx == -1 && dy == 1 {
        6
    } else if dx == -1 && dy == 0 {
        7
    } else {
        DIR_NO
    }
}

/// The opposite of direction `d`.
pub open spec fn spec_dir_rev(d: int) -> Dir {
    dir_from_delta(-dir_dx(d), -dir_dy(d))
}

/// Rewrite rule for a bond of the atom that has just moved: the bond went in
/// direction `d0` and the atom moved one cell in direction `dir`; the result
/// is the new direction of the bond, or [`DIR_NO`] when the peer is now
/// farther than one cell away.
pub open spec fn spec_dir_mov_atom(d0: int, dir: int) -> Dir {
    dir_from_delta(dir_dx(d0) - dir_dx(dir), dir_dy(d0) - dir_dy(dir))
}

/// Rewrite rule for a bond of the atom that stayed in place: its bond went in
/// direction `d0` toward the atom that then moved one cell in direction
/// `dir`; the result is the new direction of that bond, or [`DIR_NO`] when
/// the moved atom is now farther than one cell away.
pub open spec fn spec_dir_near_atom(d0: int, dir: int) -> Dir {
    dir_from_delta(dir_dx(d0) + dir_dx(dir), dir_dy(d0) + dir_dy(dir))
}

/// The linear offset that one step in direction `d` adds on a row major
/// grid of width `w`: one row down is `+w`, one cell right is `+1`.
pub open spec fn dir_offs_val(w: int, d: int) -> int {
    dir_dy(d) * w + dir_dx(d)
}

/// Horizontal step of direction `d`.
pub fn dir_dx_of(d: Dir) -> (r: i32)
    requires
        d < 8,
    ensures
        r == dir_dx(d as int),
{
    if d == 0 || d == 6 || d == 7 {
        -1
    } else if d == 1 || d == 5 {
        0
    } else {
        1
    }
}

/// Vertical step of direction `d`.
pub fn dir_dy_of(d: Dir) -> (r: i32)
    requires
        d < 8,
    ensures
        r == dir_dy(d as int),
{
    if d == 0 || d == 1 || d == 2 {
        -1
    } else if d == 3 || d == 7 {
        0
    } else {
        1
    }
}

/// The direction whose step is `(dx, dy)`, or [`DIR_NO`].
pub fn dir_of_delta(dx: i32, dy: i32) -> (r: Dir)
    ensures
        r == dir_from_delta(dx as int, dy as int),
{
    if dx == -1 && dy == -1 {
        0
    } else if dx == 0 && dy == -1 {
        1
    } else if dx == 1 && dy == -1 {
        2
    } else if dx == 1 && dy == 0 {
        3
    } else if dx == 1 && dy == 1 {
        4
    } else if dx == 0 && dy == 1 {
        5
    } else if dx == -1 && dy == 1 {
        6
    } else if dx == -1 && dy == 0 {
        7
    } else {
        DIR_NO
    }
}

/// The opposite of direction `d`. Reverted directions are used while
/// repairing atom bonds during a move.
pub fn dir_rev(d: Dir) -> (r: Dir)
    requires
        d < 8,
    ensures
        r == spec_dir_rev(d as int),
        r < 8,
        r == (d + 4) % 8,
{
    let r: Dir = if d < 4 {
        d + 4
    } else {
        d - 4
    };
    assert(r == spec_dir_rev(d as int)) by {
        assert(dir_dx(r as int) == -dir_dx(d as int));
        assert(dir_dy(r as int) == -dir_dy(d as int));
    };
    r
}

/// Facts about the direction algebra that the move algorithm leans on: the
/// reverse of a direction is a direction with the negated step, reversing
/// twice gives the direction back, and whenever the moved atom keeps its
/// bond (the rewrite is not "no direction"), the stationary peer's rewritten
/// bond is exactly the reverse of the moved atom's, so both ends keep
/// pointing at each other.
pub proof fn lemma_dir_algebra(d0: int, dir: int)
    requires
        0 <= d0 < 8,
        0 <= dir < 8,
    ensures
        spec_dir_rev(d0) < 8,
        dir_dx(spec_dir_rev(d0) as int) == -dir_dx(d0),
        dir_dy(spec_dir_rev(d0) as int) == -dir_dy(d0),
        spec_dir_rev(spec_dir_rev(d0) as int) == d0,
        spec_dir_mov_atom(d0, dir) != DIR_NO ==> spec_dir_mov_atom(d0, dir) < 8,
        spec_dir_mov_atom(d0, dir) != DIR_NO ==> spec_dir_near_atom(spec_dir_rev(d0) as int, dir)
            == spec_dir_rev(spec_dir_mov_atom(d0, dir) as int),
        spec_dir_near_atom(spec_dir_rev(d0) as int, dir) != DIR_NO ==> spec_dir_near_atom(
            spec_dir_rev(d0) as int,
            dir,
        ) < 8,
        d0 == dir ==> spec_dir_mov_atom(d0, dir) == DIR_NO,
{
}

/// New direction for a bond of the atom that has just moved (see
/// [`spec_dir_mov_atom`]).
pub fn dir_mov_atom(d0: Dir, dir: Dir) -> (r: Dir)
    requires
        d0 < 8,
        dir < 8,
    ensures
        r == spec_dir_mov_atom(d0 as int, dir as int),
        r == DIR_NO || r < 8,
{
    let dx = dir_dx_of(d0) - dir_dx_of(dir);
    let dy = dir_dy_of(d0) - dir_dy_of(dir);
    dir_of_delta(dx, dy)
}

/// New direction for a bond of the atom that stayed near the moved one (see
/// [`spec_dir_near_atom`]).
pub fn dir_near_atom(d0: Dir, dir: Dir) -> (r: Dir)
    requires
        d0 < 8,
        dir < 8,
    ensures
        r == spec_dir_near_atom(d0 as int, dir as int),
        r == DIR_NO || r < 8,
{
    let dx = dir_dx_of(d0) + dir_dx_of(dir);
    let dy = dir_dy_of(d0) + dir_dy_of(dir);
    dir_of_delta(dx, dy)
}

} // verus!
