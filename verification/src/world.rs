//! World module. Implements the 2d toroidal world. The difference between
//! this module and the atom codec is that this module manages dots in a
//! world and knows nothing about the inner structure of an atom. Every write
//! is recorded as an event, in order, for the host to hand to the
//! subscribers of the event bus.
use vstd::prelude::*;
use crate::global::{Atom, Dir, Offs, ATOM_EMPTY, DIRS_LEN, dir_offs_val, dir_dx, dir_dy};
use crate::atom::spec_type;
use crate::io::Param;

verus! {

/// The largest world (in cells) that the offset arithmetic is proved for.
pub const MAX_WORLD_SIZE: usize = 0x4000_0000;

/// Structure of the world. It consists of cells with atoms inside them.
pub struct World {
    /// World width.
    pub width: usize,
    /// World height.
    pub height: usize,
    /// Offsets of all eight neighbor directions on this grid.
    pub dirs: [i32; DIRS_LEN],
    /// Linear array of dots.
    cells: Vec<Atom>,
    /// World size (width * height).
    size: usize,
    /// Events of the writes made so far, oldest first, until the host takes
    /// them with [`World::take_events`].
    events: Vec<Param>,
}

impl View for World {
    type V = Seq<Atom>;

    closed spec fn view(&self) -> Seq<Atom> {
        self.cells@
    }
}

impl World {
    /// The width of the world, for specifications.
    pub closed spec fn spec_width(&self) -> int {
        self.width as int
    }

    /// The height of the world, for specifications.
    pub closed spec fn spec_height(&self) -> int {
        self.height as int
    }

    /// The direction table of the world, for specifications.
    pub closed spec fn spec_dirs(&self) -> Seq<i32> {
        self.dirs@
    }

    /// The amount of cells in the world.
    pub closed spec fn spec_size(&self) -> int {
        self.size as int
    }

    /// The events recorded and not yet taken, oldest first.
    pub closed spec fn spec_events(&self) -> Seq<Param> {
        self.events@
    }

    /// A well formed world: the cell array matches the dimensions, the grid
    /// has at least one column and two rows (so that every neighbor offset
    /// wraps back into the grid), and the direction table belongs to this
    /// width.
    pub open spec fn wf(&self) -> bool {
        &&& 1 <= self.spec_width()
        &&& 2 <= self.spec_height()
        &&& self.spec_size() == self.spec_width() * self.spec_height()
        &&& self.spec_size() <= MAX_WORLD_SIZE
        &&& self@.len() == self.spec_size()
        &&& forall|d: int|
            0 <= d < 8 ==> #[trigger] self.spec_dirs()[d] == dir_offs_val(self.spec_width(), d)
    }

    /// The dimensions and direction table of the two worlds agree.
    pub open spec fn same_shape(&self, other: &World) -> bool {
        &&& self.spec_width() == other.spec_width()
        &&& self.spec_height() == other.spec_height()
        &&& self.spec_dirs() == other.spec_dirs()
        &&& self.spec_size() == other.spec_size()
    }

    /// Whether this offset addresses a cell.
    pub open spec fn spec_in_range(&self, offs: int) -> bool {
        0 <= offs < self.spec_size()
    }

    /// The neighbor offset one step in direction `d`, wrapped toroidally.
    pub open spec fn spec_get_offs(&self, offs: int, dir: int) -> int {
        let o = offs + dir_offs_val(self.spec_width(), dir);
        if o < 0 {
            o + self.spec_size()
        } else if o >= self.spec_size() {
            o - self.spec_size()
        } else {
            o
        }
    }

    /// The atom of a cell, or the empty atom when the offset is out of
    /// range.
    pub open spec fn spec_get_atom(&self, offs: int) -> Atom {
        if self.spec_in_range(offs) {
            self@[offs]
        } else {
            ATOM_EMPTY
        }
    }

    /// Whether a cell holds an atom.
    pub open spec fn spec_is_atom(&self, offs: int) -> bool {
        spec_type(self.spec_get_atom(offs)) != 0
    }

    /// The atom one raw (unwrapped) step from `offs` in direction `dir`; the
    /// empty atom when the direction is no direction or the stepped offset
    /// falls off the grid.
    pub open spec fn spec_get_dir_atom(&self, offs: int, dir: int) -> Atom {
        if 0 <= dir < 8 {
            self.spec_get_atom(offs + dir_offs_val(self.spec_width(), dir))
        } else {
            ATOM_EMPTY
        }
    }

    /// In a well formed world the basic size facts hold; they need one
    /// nonlinear step, gathered here.
    pub proof fn lemma_wf_size(&self)
        requires
            self.wf(),
        ensures
            self.spec_width() < self.spec_size(),
            self.spec_width() + 1 <= self.spec_size(),
    {
        assert(self.spec_width() * 2 <= self.spec_width() * self.spec_height()) by (
        nonlinear_arith)
            requires
                1 <= self.spec_width(),
                2 <= self.spec_height(),
        ;
    }

    /// Stepping one cell in a direction and one back lands on the start:
    /// the wrapped neighbor relation is invertible.
    pub proof fn lemma_get_offs_inverse(&self, offs: int, dir: int)
        requires
            self.wf(),
            self.spec_in_range(offs),
            0 <= dir < 8,
        ensures
            self.spec_in_range(self.spec_get_offs(offs, dir)),
            self.spec_get_offs(
                self.spec_get_offs(offs, dir),
                crate::global::spec_dir_rev(dir) as int,
            ) == offs,
    {
        self.lemma_wf_size();
        crate::global::lemma_dir_algebra(dir, dir);
        let rv = crate::global::spec_dir_rev(dir) as int;
        assert(dir_offs_val(self.spec_width(), rv) == -dir_offs_val(self.spec_width(), dir))
            by (nonlinear_arith)
            requires
                dir_dx(rv) == -dir_dx(dir),
                dir_dy(rv) == -dir_dy(dir),
                dir_offs_val(self.spec_width(), rv) == dir_dy(rv) * self.spec_width() + dir_dx(rv),
                dir_offs_val(self.spec_width(), dir) == dir_dy(dir) * self.spec_width() + dir_dx(
                    dir,
                ),
        ;
        assert(-(self.spec_width() + 1) <= dir_offs_val(self.spec_width(), dir) <= self.spec_width()
            + 1) by (nonlinear_arith)
            requires
                dir_offs_val(self.spec_width(), dir) == dir_dy(dir) * self.spec_width() + dir_dx(
                    dir,
                ),
                -1 <= dir_dy(dir) <= 1,
                -1 <= dir_dx(dir) <= 1,
                1 <= self.spec_width(),
        ;
    }

    /// Creates a new world of empty atoms. The direction table must be the
    /// one of this width (see [`dir_offs_val`]).
    pub fn new(width: usize, height: usize, dirs: [i32; DIRS_LEN]) -> (w: World)
        requires
            1 <= width,
            2 <= height,
            width * height <= MAX_WORLD_SIZE,
            forall|d: int| 0 <= d < 8 ==> #[trigger] dirs@[d] == dir_offs_val(width as int, d),
        ensures
            w.wf(),
            w.spec_width() == width,
            w.spec_height() == height,
            w.spec_dirs() == dirs@,
            w.spec_size() == width * height,
            forall|o: int| 0 <= o < w.spec_size() ==> w@[o] == ATOM_EMPTY,
            w.spec_events() == Seq::<Param>::empty(),
    {
        proof {
            assert(width * height >= 0) by (nonlinear_arith)
                requires
                    width >= 1,
                    height >= 2,
            ;
        }
        let size = width * height;
        let mut mem: Vec<Atom> = Vec::new();
        let mut i: usize = 0;
        while i < size
            invariant
                i <= size,
                mem@.len() == i,
                forall|o: int| 0 <= o < i ==> mem@[o] == ATOM_EMPTY,
            decreases size - i,
        {
            mem.push(ATOM_EMPTY);
            i += 1;
        }
        World { width, height, dirs, cells: mem, size, events: Vec::new() }
    }

    /// Returns a new offset by start offset and direction. The new offset
    /// means the cell just near the given one; crossing the edge of the grid
    /// wraps to the other side.
    pub fn get_offs(&self, offs: Offs, dir: Dir) -> (r: Offs)
        requires
            self.wf(),
            dir < 8,
            self.spec_in_range(offs as int),
        ensures
            r == self.spec_get_offs(offs as int, dir as int),
            self.spec_in_range(r as int),
    {
        proof {
            self.lemma_wf_size();
            assert(self.spec_dirs()[dir as int] == dir_offs_val(self.spec_width(), dir as int));
        }
        let offs = offs + self.dirs[dir as usize] as Offs;
        if offs < 0 {
            return self.size as Offs + offs;
        } else if offs >= self.size as Offs {
            return offs - self.size as Offs;
        }
        offs
    }

    /// Returns true if there is an atom under the specified offset; an
    /// offset outside the world holds nothing.
    pub fn is_atom(&self, offs: Offs) -> (r: bool)
        requires
            self.wf(),
        ensures
            r == self.spec_is_atom(offs as int),
    {
        proof {
            crate::atom::lemma_empty_atom();
        }
        if offs < 0 || offs >= self.size as Offs {
            return false;
        }
        crate::atom::is_atom(self.cells[offs as usize])
    }

    /// Returns the atom of a cell, or the empty atom when the offset is out
    /// of range.
    pub fn get_atom(&self, offs: Offs) -> (r: Atom)
        requires
            self.wf(),
        ensures
            r == self.spec_get_atom(offs as int),
    {
        if offs < 0 || offs >= self.size as Offs {
            return ATOM_EMPTY;
        }
        self.cells[offs as usize]
    }

    /// Returns the atom one raw step from `offs` in direction `dir`. This
    /// helper does not wrap: it is used only to peek at adjacent cells, and
    /// a step off the grid, or no direction at all, yields the empty atom.
    pub fn get_dir_atom(&self, offs: Offs, dir: Dir) -> (r: Atom)
        requires
            self.wf(),
            self.spec_in_range(offs as int),
        ensures
            r == self.spec_get_dir_atom(offs as int, dir as int),
    {
        if dir >= 8 {
            return ATOM_EMPTY;
        }
        proof {
            self.lemma_wf_size();
            assert(self.spec_dirs()[dir as int] == dir_offs_val(self.spec_width(), dir as int));
        }
        let offs = offs + self.dirs[dir as usize] as Offs;
        if offs < 0 || offs >= self.size as Offs {
            return ATOM_EMPTY;
        }
        self.cells[offs as usize]
    }

    /// Stores an atom in a cell and records a set-dot event. An offset out
    /// of range drops the write silently.
    pub fn set_atom(&mut self, offs: Offs, dot: Atom)
        requires
            old(self).wf(),
        ensures
            final(self).wf(),
            final(self).same_shape(old(self)),
            old(self).spec_in_range(offs as int) ==> final(self)@ == old(self)@.update(
                offs as int,
                dot,
            ) && final(self).spec_events() == old(self).spec_events().push(
                Param::SetDot(offs, dot),
            ),
            !old(self).spec_in_range(offs as int) ==> *final(self) == *old(self),
    {
        if offs < 0 || offs >= self.size as Offs {
            return ;
        }
        self.cells.set(offs as usize, dot);
        self.events.push(Param::SetDot(offs, dot));
        proof {
            assert(self.spec_dirs() == old(self).spec_dirs());
            assert(forall|d: int|
                0 <= d < 8 ==> #[trigger] self.spec_dirs()[d] == dir_offs_val(
                    self.spec_width(),
                    d,
                ));
        }
    }

    /// Copies the atom of `src_offs` into `dest_offs`, clears `src_offs` and
    /// records a move-dot event. If either offset is out of range the world
    /// stays as it is.
    pub fn mov_atom(&mut self, src_offs: Offs, dest_offs: Offs)
        requires
            old(self).wf(),
        ensures
            final(self).wf(),
            final(self).same_shape(old(self)),
            old(self).spec_in_range(src_offs as int) && old(self).spec_in_range(dest_offs as int)
                ==> final(self)@ == old(self)@.update(dest_offs as int, old(self)@[src_offs as int])
                .update(src_offs as int, ATOM_EMPTY) && final(self).spec_events() == old(
                self,
            ).spec_events().push(Param::MoveDot(src_offs, dest_offs, old(self)@[src_offs as int])),
            !(old(self).spec_in_range(src_offs as int) && old(self).spec_in_range(
                dest_offs as int,
            )) ==> *final(self) == *old(self),
    {
        if src_offs < 0 || src_offs >= self.size as Offs || dest_offs < 0 || dest_offs
            >= self.size as Offs {
            return ;
        }
        let atom = self.cells[src_offs as usize];
        self.cells.set(dest_offs as usize, atom);
        self.cells.set(src_offs as usize, ATOM_EMPTY);
        self.events.push(Param::MoveDot(src_offs, dest_offs, atom));
        proof {
            assert(self.spec_dirs() == old(self).spec_dirs());
            assert(forall|d: int|
                0 <= d < 8 ==> #[trigger] self.spec_dirs()[d] == dir_offs_val(
                    self.spec_width(),
                    d,
                ));
        }
    }

    /// Hands out the recorded events, oldest first, and leaves the record
    /// empty. The host dispatches each of them through the event bus.
    pub fn take_events(&mut self) -> (evs: Vec<Param>)
        ensures
            evs@ == old(self).spec_events(),
            final(self).spec_events() == Seq::<Param>::empty(),
            final(self)@ == old(self)@,
            final(self).same_shape(old(self)),
            final(self).wf() == old(self).wf(),
    {
        let mut evs: Vec<Param> = Vec::new();
        core::mem::swap(&mut self.events, &mut evs);
        evs
    }
}

} // verus!
