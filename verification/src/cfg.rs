//! Global configuration module. The upper case values are fixed once the
//! configuration is built; the lower case ones may change while the system
//! runs. The host reads the configuration source (a JSON file) and builds a
//! value of this type from the plain values; missing keys take the
//! documented defaults of [`Config::new`].
use vstd::prelude::*;
use crate::global::{DIRS_LEN, dir_offs_val, dir_dx, dir_dy};
use crate::world::MAX_WORLD_SIZE;

verus! {

/// Configuration related to atoms.
#[derive(Copy, Clone)]
pub struct AtomConfig {
    /// Amount of energy for moving one atom to one cell.
    pub mov_energy: isize,
    /// Amount of energy for joining (fix) atoms.
    pub fix_energy: isize,
    /// Amount of energy released for splitting.
    pub spl_energy: isize,
    /// Amount of energy for an if atom.
    pub if_energy: isize,
}

/// Global configuration. The world dimensions, buffer sizes and energies
/// are read only; the run flags are the mutable runtime state.
#[allow(non_snake_case)]
pub struct Config {
    /// World width.
    pub WIDTH: usize,
    /// World height.
    pub HEIGHT: usize,
    /// Size of the moving buffer, i.e. the amount of atoms that one mov may
    /// carry.
    pub MOV_BUF_SIZE: usize,
    /// Maximum amount of VMs in the system.
    pub MAX_VM_AMOUNT: usize,
    /// Map of offsets depending on directions:
    /// ```text
    /// 0 1 2
    /// 7 X 3
    /// 6 5 4
    /// ```
    pub DIR_TO_OFFS: [i32; DIRS_LEN],
    /// Run the system on start.
    pub AUTORUN: bool,
    /// Current run state of the system.
    pub is_running: bool,
    /// Indicates that the application should stop.
    pub stopped: bool,
    /// Delay between two iterations of the main loop, for the host.
    pub frame_delay: u32,
    /// Energies of the atom operations.
    pub atoms: AtomConfig,
}

#[allow(non_snake_case)]
impl Config {
    /// The world width, for specifications.
    pub open spec fn spec_width(&self) -> int {
        self.WIDTH as int
    }

    /// The world height, for specifications.
    pub open spec fn spec_height(&self) -> int {
        self.HEIGHT as int
    }

    /// A well formed configuration: the grid has at least one column and
    /// two rows, it is not larger than the offset arithmetic allows, and
    /// the direction table belongs to the width.
    pub open spec fn wf(&self) -> bool {
        &&& 1 <= self.spec_width()
        &&& 2 <= self.spec_height()
        &&& self.spec_width() * self.spec_height() <= MAX_WORLD_SIZE
        &&& self.spec_width() <= MAX_WORLD_SIZE
        &&& forall|d: int|
            0 <= d < 8 ==> #[trigger] self.DIR_TO_OFFS@[d] == dir_offs_val(self.spec_width(), d)
    }

    /// The read-only values of the two configurations agree.
    pub open spec fn same_consts(&self, other: &Config) -> bool {
        &&& self.spec_width() == other.spec_width()
        &&& self.spec_height() == other.spec_height()
        &&& self.MOV_BUF_SIZE == other.MOV_BUF_SIZE
        &&& self.MAX_VM_AMOUNT == other.MAX_VM_AMOUNT
        &&& self.DIR_TO_OFFS@ == other.DIR_TO_OFFS@
        &&& self.AUTORUN == other.AUTORUN
        &&& self.atoms == other.atoms
    }

    /// Returns the direction offsets array of a grid of width `w`.
    pub fn get_dir_offs(w: i32) -> (r: [i32; DIRS_LEN])
        requires
            0 <= w <= MAX_WORLD_SIZE,
        ensures
            forall|d: int| 0 <= d < 8 ==> #[trigger] r@[d] == dir_offs_val(w as int, d),
    {
        let r: [i32; DIRS_LEN] = [-w - 1, -w, -w + 1, 1, w + 1, w, w - 1, -1];
        proof {
            assert(dir_dy(0) == -1 && dir_dx(0) == -1);
            assert(dir_offs_val(w as int, 0) == (-1) * (w as int) + (-1));
            assert((-1) * (w as int) == -(w as int)) by (nonlinear_arith);
            assert(r@[0] == -(w as int) - 1);
            assert(r@[0] == dir_offs_val(w as int, 0));
            assert(r@[1] == dir_offs_val(w as int, 1));
            assert(r@[2] == dir_offs_val(w as int, 2));
            assert(r@[3] == dir_offs_val(w as int, 3));
            assert(r@[4] == dir_offs_val(w as int, 4));
            assert(r@[5] == dir_offs_val(w as int, 5));
            assert(r@[6] == dir_offs_val(w as int, 6));
            assert(r@[7] == dir_offs_val(w as int, 7));
            assert forall|d: int| 0 <= d < 8 implies #[trigger] r@[d] == dir_offs_val(
                w as int,
                d,
            ) by {
                if d == 0 {
                } else if d == 1 {
                } else if d == 2 {
                } else if d == 3 {
                } else if d == 4 {
                } else if d == 5 {
                } else if d == 6 {
                } else {
                    assert(d == 7);
                }
            }
        }
        r
    }

    /// Builds a configuration from plain values. The host calls this with
    /// what it read from the configuration file.
    pub fn with_values(
        width: usize,
        height: usize,
        mov_buf_size: usize,
        max_vm_amount: usize,
        autorun: bool,
        is_running: bool,
        stopped: bool,
        frame_delay: u32,
        atoms: AtomConfig,
    ) -> (cfg: Config)
        requires
            1 <= width,
            2 <= height,
            width * height <= MAX_WORLD_SIZE,
        ensures
            cfg.wf(),
            cfg.spec_width() == width,
            cfg.spec_height() == height,
            cfg.MOV_BUF_SIZE == mov_buf_size,
            cfg.MAX_VM_AMOUNT == max_vm_amount,
            cfg.AUTORUN == autorun,
            cfg.is_running == is_running,
            cfg.stopped == stopped,
            cfg.frame_delay == frame_delay,
            cfg.atoms == atoms,
    {
        proof {
            assert(width * 2 <= width * height) by (nonlinear_arith)
                requires
                    1 <= width,
                    2 <= height,
            ;
        }
        Config {
            WIDTH: width,
            HEIGHT: height,
            MOV_BUF_SIZE: mov_buf_size,
            MAX_VM_AMOUNT: max_vm_amount,
            DIR_TO_OFFS: Config::get_dir_offs(width as i32),
            AUTORUN: autorun,
            is_running,
            stopped,
            frame_delay,
            atoms,
        }
    }

    /// The default configuration: a 1920 by 1080 world, room for 1024 VMs,
    /// a move buffer of 1024 offsets, autorun off, and energies of one for
    /// mov, fix and spl and zero for if.
    pub fn new() -> (cfg: Config)
        ensures
            cfg.wf(),
            cfg.spec_width() == 1920,
            cfg.spec_height() == 1080,
            cfg.MOV_BUF_SIZE == 1024,
            cfg.MAX_VM_AMOUNT == 1024,
            !cfg.AUTORUN,
            !cfg.is_running,
            !cfg.stopped,
            cfg.frame_delay == 0,
            cfg.atoms.mov_energy == 1,
            cfg.atoms.fix_energy == 1,
            cfg.atoms.spl_energy == 1,
            cfg.atoms.if_energy == 0,
    {
        Config::with_values(
            1920,
            1080,
            1024,
            1024,
            false,
            false,
            false,
            0,
            AtomConfig { mov_energy: 1, fix_energy: 1, spl_energy: 1, if_energy: 0 },
        )
    }

    /// World width.
    pub fn WIDTH(&self) -> (r: usize)
        ensures
            r == self.spec_width(),
    {
        self.WIDTH
    }

    /// World height.
    pub fn HEIGHT(&self) -> (r: usize)
        ensures
            r == self.spec_height(),
    {
        self.HEIGHT
    }

    /// Size of the moving buffer.
    pub fn MOV_BUF_SIZE(&self) -> (r: usize)
        ensures
            r == self.MOV_BUF_SIZE,
    {
        self.MOV_BUF_SIZE
    }

    /// Maximum amount of VMs in the system.
    pub fn MAX_VM_AMOUNT(&self) -> (r: usize)
        ensures
            r == self.MAX_VM_AMOUNT,
    {
        self.MAX_VM_AMOUNT
    }

    /// Map of offsets depending on directions.
    pub fn DIR_TO_OFFS(&self) -> (r: [i32; DIRS_LEN])
        ensures
            r@ == self.DIR_TO_OFFS@,
    {
        self.DIR_TO_OFFS
    }

    /// Run the system on start.
    pub fn AUTORUN(&self) -> (r: bool)
        ensures
            r == self.AUTORUN,
    {
        self.AUTORUN
    }

    /// Energies of the atom operations.
    pub fn atoms(&self) -> (r: AtomConfig)
        ensures
            r == self.atoms,
    {
        self.atoms
    }
}

/// The configuration after the run command: the running flag toggled.
pub open spec fn spec_run_toggled(c: Config) -> Config {
    Config { is_running: !c.is_running, ..c }
}

/// The configuration after the quit command: the system is stopped.
pub open spec fn spec_quit(c: Config) -> Config {
    Config { stopped: true, ..c }
}

/// Stopping is idempotent: firing the quit command twice leaves the same
/// configuration as firing it once.
pub proof fn lemma_quit_idempotent(c: Config)
    ensures
        spec_quit(spec_quit(c)) == spec_quit(c),
{
}

} // verus!
