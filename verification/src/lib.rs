//! Core of a 2D artificial-chemistry simulator. A bounded toroidal grid holds
//! 16-bit encoded atoms; a pool of lightweight virtual machines executes the
//! atoms, moving bonded clusters, creating and removing bonds, branching and
//! spawning new machines. Every function of this crate carries a contract that
//! Verus has checked.
pub mod global;
pub mod atom;
pub mod io;
pub mod world;
pub mod utils;
pub mod cfg;
pub mod vm;
pub mod dump;
pub mod terminal;

use vstd::prelude::*;

use crate::cfg::Config;
use crate::io::IO;
use crate::utils::vec::Vector;
use crate::vm::VM;
use crate::vm::vmdata::VMData;

verus! {

/// Struct for all objects that the core and its host share: the
/// configuration, the VM pool, the event bus and the world with its move
/// buffer. Through this struct the host and the core talk to each other.
pub struct Core {
    /// The configuration, including the mutable run flags.
    pub cfg: Config,
    /// The pool of running VMs.
    pub vms: Vector<VM>,
    /// The event bus.
    pub io: IO,
    /// The world and the move buffer.
    pub vm_data: VMData,
}

/// The pool index whose turn it is: `i`, wrapped to the front when it
/// walked past the pool size.
pub open spec fn wrap_index(i: int, size: int) -> int {
    if i >= size {
        0
    } else {
        i
    }
}

/// One running step of the scheduler with VM index `j`: some run of the
/// atom under the pool's VM at `j` happened (see [`crate::vm::run_post`]),
/// the run VM was written back, a VM the run asked for was appended if the
/// pool still had room, and the VM at `j` was removed by swapping the last
/// one into its place if its energy fell below one.
pub open spec fn tick_step(o: Core, n: Core, j: int, vm1: VM, ret: crate::vm::ret::Return) -> bool {
    &&& crate::vm::run_post(o.vms.spec_data()[j], vm1, o.vm_data, n.vm_data, o.cfg.atoms, ret)
    &&& ({
        let data1 = o.vms.spec_data().update(j, vm1);
        let size1 = o.vms.spec_size();
        let spawned = match ret {
            crate::vm::ret::Return::AddVm(_e, _o2) => size1 < o.vms.spec_cap(),
            crate::vm::ret::Return::Code(_c) => false,
        };
        let data2 = if spawned {
            match ret {
                crate::vm::ret::Return::AddVm(e, o2) => data1.update(
                    size1,
                    crate::vm::spec_vm(e, o2),
                ),
                crate::vm::ret::Return::Code(_c) => data1,
            }
        } else {
            data1
        };
        let size2 = if spawned {
            size1 + 1
        } else {
            size1
        };
        let dead = data2[j].spec_energy() < 1;
        let data3 = if dead {
            data2.update(j, data2[size2 - 1])
        } else {
            data2
        };
        let size3 = if dead {
            size2 - 1
        } else {
            size2
        };
        &&& n.vms.spec_size() == size3
        &&& n.vms.spec_data() == data3
    })
}

impl Core {
    /// A well formed core: configuration, world and pool agree with each
    /// other, and every VM of the pool sits inside the grid.
    pub open spec fn wf(&self) -> bool {
        &&& self.cfg.wf()
        &&& self.vm_data.wf()
        &&& self.vms.wf()
        &&& self.vm_data.world.spec_width() == self.cfg.spec_width()
        &&& self.vm_data.world.spec_height() == self.cfg.spec_height()
        &&& self.vm_data.world.spec_size() == self.cfg.spec_width() * self.cfg.spec_height()
        &&& forall|k: int|
            0 <= k < self.vms.spec_size() ==> self.vm_data.world.spec_in_range(
                (#[trigger] self.vms.spec_data()[k]).spec_offs(),
            )
    }

    /// Builds the core that belongs to a configuration: an empty world of
    /// the configured dimensions, an empty VM pool of the configured
    /// capacity, a fresh event bus and the move buffer.
    pub fn new(cfg: Config) -> (core: Core)
        requires
            cfg.wf(),
        ensures
            core.wf(),
            core.cfg == cfg,
            core.vms.spec_size() == 0,
            core.vms.spec_cap() == cfg.MAX_VM_AMOUNT,
            core.io@.len() == crate::io::events::EVENT_LAST,
            forall|o: int|
                0 <= o < core.vm_data.world.spec_size() ==> core.vm_data.world@[o]
                    == crate::global::ATOM_EMPTY,
            core.vm_data.world.spec_events().len() == 0,
            core.vm_data.buf.stack.spec_cap() == cfg.MOV_BUF_SIZE,
    {
        let vm_amount = cfg.MAX_VM_AMOUNT();
        let width = cfg.WIDTH();
        let height = cfg.HEIGHT();
        let dir2offs = cfg.DIR_TO_OFFS();
        let mov_buf_size = cfg.MOV_BUF_SIZE();
        Core {
            cfg,
            vms: Vector::new(vm_amount),
            io: IO::new(),
            vm_data: VMData::new(width, height, dir2offs, mov_buf_size),
        }
    }

    /// The run command: toggles whether the system is running.
    pub fn on_run(&mut self)
        ensures
            final(self).cfg == crate::cfg::spec_run_toggled(old(self).cfg),
            final(self).vms == old(self).vms,
            final(self).io == old(self).io,
            final(self).vm_data == old(self).vm_data,
            old(self).wf() ==> final(self).wf(),
    {
        self.cfg.is_running = !self.cfg.is_running;
        proof {
            assert(self.cfg.DIR_TO_OFFS@ == old(self).cfg.DIR_TO_OFFS@);
        }
    }

    /// The quit command: marks the system as stopped. Firing it twice is
    /// the same as firing it once (see [`crate::cfg::lemma_quit_idempotent`]).
    pub fn on_quit(&mut self)
        ensures
            final(self).cfg == crate::cfg::spec_quit(old(self).cfg),
            final(self).vms == old(self).vms,
            final(self).io == old(self).io,
            final(self).vm_data == old(self).vm_data,
            old(self).wf() ==> final(self).wf(),
    {
        self.cfg.stopped = true;
        proof {
            assert(self.cfg.DIR_TO_OFFS@ == old(self).cfg.DIR_TO_OFFS@);
        }
    }

    /// One iteration of the main loop, with `i` the index of the VM whose
    /// turn it is. When the system is stopped or paused nothing runs.
    /// Otherwise the VM at `i` (wrapped into the pool) runs one atom; a VM
    /// whose energy fell below one is removed by swapping the last VM into
    /// its place; then the index advances, wrapping at the pool size. The
    /// next index is returned.
    #[verifier::rlimit(80)]
    #[verifier::spinoff_prover]
    pub fn tick(&mut self, i: usize) -> (r: usize)
        requires
            old(self).wf(),
        ensures
            final(self).wf(),
            final(self).cfg == old(self).cfg,
            final(self).io == old(self).io,
            final(self).vm_data.world.same_shape(&old(self).vm_data.world),
            final(self).vm_data.buf.stack.spec_cap() == old(self).vm_data.buf.stack.spec_cap(),
            final(self).vms.spec_cap() == old(self).vms.spec_cap(),
            (old(self).cfg.stopped || !old(self).cfg.is_running || old(self).vms.spec_size() == 0)
                ==> (*final(self) == *old(self) && r == i),
            old(self).vms.spec_size() - 1 <= final(self).vms.spec_size() <= old(
                self,
            ).vms.spec_size() + 1,
            !(old(self).cfg.stopped || !old(self).cfg.is_running || old(self).vms.spec_size()
                == 0) ==> exists|vm1: VM, ret: crate::vm::ret::Return|
                tick_step(
                    *old(self),
                    *final(self),
                    wrap_index(i as int, old(self).vms.spec_size()),
                    vm1,
                    ret,
                ),
            !(old(self).cfg.stopped || !old(self).cfg.is_running || old(self).vms.spec_size()
                == 0) ==> r == wrap_index(
                wrap_index(i as int, old(self).vms.spec_size()) + 1,
                final(self).vms.spec_size(),
            ),
    {
        if self.cfg.stopped || !self.cfg.is_running {
            return i;
        }
        let n = self.vms.size();
        if n == 0 {
            return i;
        }
        let j = if i >= n {
            0
        } else {
            i
        };
        let mut vm = self.vms.get(j);
        let ghost w_old = self.vm_data.world;
        let ghost vm_pre = vm;
        let ret = vm.run_atom(&self.cfg, &mut self.vm_data);
        proof {
            // whatever the atom did, the cursor still points into the grid
            let atom = w_old.spec_get_atom(vm_pre.spec_offs());
            crate::atom::lemma_dir_range(atom);
            crate::atom::lemma_dir_range(0u16);
            if w_old.spec_in_range(vm_pre.spec_offs()) {
                let t = crate::atom::spec_type(atom);
                if t == 1 {
                    let dir = crate::atom::spec_dir1(atom);
                    w_old.lemma_get_offs_inverse(vm_pre.spec_offs(), dir as int);
                    let vo = w_old.spec_get_offs(vm_pre.spec_offs(), dir as int);
                    let af = self.vm_data.world.spec_get_atom(vo);
                    crate::atom::lemma_dir_range(af);
                    if af != crate::global::ATOM_EMPTY && crate::atom::spec_vm_bond(af) {
                        self.vm_data.world.lemma_get_offs_inverse(
                            vo,
                            crate::atom::spec_vm_dir(af) as int,
                        );
                    }
                } else if t == 2 || t == 3 {
                    if crate::atom::spec_vm_bond(atom) {
                        w_old.lemma_get_offs_inverse(
                            vm_pre.spec_offs(),
                            crate::atom::spec_vm_dir(atom) as int,
                        );
                    }
                } else if t == 4 {
                    if crate::atom::spec_dir2_bond(atom) {
                        w_old.lemma_get_offs_inverse(
                            vm_pre.spec_offs(),
                            crate::atom::spec_dir2(atom) as int,
                        );
                    }
                    if crate::atom::spec_vm_bond(atom) {
                        w_old.lemma_get_offs_inverse(
                            vm_pre.spec_offs(),
                            crate::atom::spec_vm_dir(atom) as int,
                        );
                    }
                } else if t == 5 {
                    if crate::atom::spec_vm_bond(atom) {
                        w_old.lemma_get_offs_inverse(
                            vm_pre.spec_offs(),
                            crate::atom::spec_vm_dir(atom) as int,
                        );
                    }
                }
            }
            assert(self.vm_data.world.spec_in_range(vm.spec_offs()));
        }
        self.vms.set(j, vm);
        proof {
            assert forall|k: int|
                0 <= k < self.vms.spec_size() implies self.vm_data.world.spec_in_range(
                (#[trigger] self.vms.spec_data()[k]).spec_offs(),
            ) by {
                if k != j {
                    assert(self.vms.spec_data()[k] == old(self).vms.spec_data()[k]);
                }
            }
        }
        match ret {
            crate::vm::ret::Return::AddVm(energy, offs) => {
                let ghost pre = self.vms;
                let _added = self.vms.add(VM::new(energy, offs));
                proof {
                    assert forall|k: int|
                        0 <= k < self.vms.spec_size() implies self.vm_data.world.spec_in_range(
                        (#[trigger] self.vms.spec_data()[k]).spec_offs(),
                    ) by {
                        if k < pre.spec_size() {
                            assert(self.vms.spec_data()[k] == pre.spec_data()[k]);
                        }
                    }
                }
            },
            crate::vm::ret::Return::Code(_c) => {},
        }
        let mut j = j;
        if self.vms.get(j).get_energy() < 1 {
            let ghost pre = self.vms;
            let _deleted = self.vms.del(j);
            proof {
                assert forall|k: int|
                    0 <= k < self.vms.spec_size() implies self.vm_data.world.spec_in_range(
                    (#[trigger] self.vms.spec_data()[k]).spec_offs(),
                ) by {
                    if k != j {
                        assert(self.vms.spec_data()[k] == pre.spec_data()[k]);
                    } else {
                        assert(self.vms.spec_data()[k] == pre.spec_data()[pre.spec_size() - 1]);
                    }
                }
            }
        }
        proof {
            assert(tick_step(
                *old(self),
                *self,
                wrap_index(i as int, old(self).vms.spec_size()),
                vm,
                ret,
            ));
        }
        j += 1;
        let n2 = self.vms.size();
        if j >= n2 {
            j = 0;
        }
        j
    }
}

} // verus!
