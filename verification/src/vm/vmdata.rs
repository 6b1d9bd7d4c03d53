//! Module of VM related data. There should be only one instance of VMData:
//! the world and the move buffer that all VMs share.
use vstd::prelude::*;
use crate::global::{Dir, DIRS_LEN, dir_offs_val, spec_dir_rev};
use crate::world::{World, MAX_WORLD_SIZE};
use crate::vm::buf::MoveBuffer;

verus! {

/// Data needed for a VM to work. It is owned by the core and handed to the
/// VM that runs.
pub struct VMData {
    /// The world data.
    pub world: World,
    /// Buffer shared between VMs, used by the mov atom.
    pub buf: MoveBuffer,
    /// Reverted directions, used by the mov atom.
    pub dirs_rev: [Dir; DIRS_LEN],
}

impl VMData {
    /// The world is well formed and the reverted-direction table holds the
    /// opposite of each direction.
    pub open spec fn wf(&self) -> bool {
        &&& self.world.wf()
        &&& forall|d: int| 0 <= d < 8 ==> #[trigger] self.dirs_rev@[d] == spec_dir_rev(d)
    }

    /// Creates the VMData instance.
    pub fn new(w: usize, h: usize, dir2offs: [i32; DIRS_LEN], mov_buf_size: usize) -> (vmd: VMData)
        requires
            1 <= w,
            2 <= h,
            w * h <= MAX_WORLD_SIZE,
            forall|d: int| 0 <= d < 8 ==> #[trigger] dir2offs@[d] == dir_offs_val(w as int, d),
        ensures
            vmd.wf(),
            vmd.world.spec_width() == w,
            vmd.world.spec_height() == h,
            vmd.world.spec_size() == w * h,
            forall|o: int|
                0 <= o < vmd.world.spec_size() ==> vmd.world@[o] == crate::global::ATOM_EMPTY,
            vmd.world.spec_events().len() == 0,
            vmd.buf.buf@ == Set::<crate::global::Offs>::empty(),
            vmd.buf.stack@.len() == 0,
            vmd.buf.stack.spec_cap() == mov_buf_size,
    {
        let dirs_rev: [Dir; DIRS_LEN] = [4, 5, 6, 7, 0, 1, 2, 3];
        proof {
            assert(dirs_rev@[0] == 4 && spec_dir_rev(0) == 4);
            assert(dirs_rev@[1] == 5 && spec_dir_rev(1) == 5);
            assert(dirs_rev@[2] == 6 && spec_dir_rev(2) == 6);
            assert(dirs_rev@[3] == 7 && spec_dir_rev(3) == 7);
            assert(dirs_rev@[4] == 0 && spec_dir_rev(4) == 0);
            assert(dirs_rev@[5] == 1 && spec_dir_rev(5) == 1);
            assert(dirs_rev@[6] == 2 && spec_dir_rev(6) == 2);
            assert(dirs_rev@[7] == 3 && spec_dir_rev(7) == 3);
        }
        VMData { world: World::new(w, h, dir2offs), buf: MoveBuffer::new(mov_buf_size), dirs_rev }
    }
}

} // verus!
