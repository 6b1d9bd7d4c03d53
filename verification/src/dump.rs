//! Module for saving and loading all atoms and VMs of a world. The dump is
//! plain data: the host serializes it to JSON on disk and parses it back;
//! this module only builds a dump from a core and applies a dump to a core.
use vstd::prelude::*;
use crate::global::{Atom, Offs};
use crate::atom::spec_type;
use crate::utils::to_xy;
use crate::vm::{VM, spec_vm};
use crate::Core;

verus! {

/// Describes one atom of a world. The x,y pair is converted into an offset
/// on load.
#[derive(Copy, Clone, Debug, PartialEq, Eq, Structural)]
pub struct AtomDump {
    /// The encoded atom word.
    pub a: Atom,
    /// Column of the atom.
    pub x: isize,
    /// Row of the atom.
    pub y: isize,
}

/// Describes one VM of a world. The x,y pair is converted into an offset on
/// load.
#[derive(Copy, Clone, Debug, PartialEq, Eq, Structural)]
pub struct VmDump {
    /// Column of the VM.
    pub x: isize,
    /// Row of the VM.
    pub y: isize,
    /// Energy of the VM.
    pub e: isize,
}

/// Describes one block of atoms and VMs, for example an organism or a
/// molecule.
pub struct Block {
    /// The atoms of the block.
    pub atoms: Vec<AtomDump>,
    /// The VMs of the block.
    pub vms: Vec<VmDump>,
}

/// Describes an entire dump of all atoms and VMs of a world.
pub struct Dump {
    /// World width.
    pub width: usize,
    /// World height.
    pub height: usize,
    /// All atom and VM blocks.
    pub blocks: Vec<Block>,
}

/// Whether a dump entry at `x`,`y` addresses a cell of a `w` wide grid of
/// `size` cells.
pub open spec fn entry_in_range(x: int, y: int, w: int, size: int) -> bool {
    0 <= y * w + x < size
}

/// The atom entries of all occupied cells of the world, in ascending offset
/// order.
pub open spec fn spec_atoms_of(cells: Seq<Atom>, w: int) -> Seq<AtomDump>
    decreases cells.len(),
{
    if cells.len() == 0 {
        Seq::empty()
    } else {
        spec_atoms_of(cells.drop_last(), w) + (if spec_type(cells.last()) != 0 {
            seq![
                AtomDump {
                    a: cells.last(),
                    x: ((cells.len() - 1) % w) as isize,
                    y: ((cells.len() - 1) / w) as isize,
                },
            ]
        } else {
            Seq::empty()
        })
    }
}

/// The VM entries of the pool, in pool order.
pub open spec fn spec_vms_of(vs: Seq<VM>, w: int) -> Seq<VmDump> {
    Seq::new(
        vs.len(),
        |i: int|
            VmDump {
                x: (vs[i].spec_offs() % w) as isize,
                y: (vs[i].spec_offs() / w) as isize,
                e: vs[i].spec_energy() as isize,
            },
    )
}

/// The world cells after the atom entries have been written in order; an
/// entry outside the grid is skipped.
pub open spec fn spec_apply_atoms(cells: Seq<Atom>, atoms: Seq<AtomDump>, w: int) -> Seq<Atom>
    decreases atoms.len(),
{
    if atoms.len() == 0 {
        cells
    } else {
        let prev = spec_apply_atoms(cells, atoms.drop_last(), w);
        let e = atoms.last();
        if entry_in_range(e.x as int, e.y as int, w, cells.len() as int) {
            prev.update(e.y * w + e.x, e.a)
        } else {
            prev
        }
    }
}

/// The VM pool after the VM entries have been appended in order; an entry
/// outside the grid is skipped and entries beyond the pool capacity are
/// denied.
pub open spec fn spec_apply_vms(
    vs: Seq<VM>,
    vms: Seq<VmDump>,
    w: int,
    size: int,
    cap: int,
) -> Seq<VM>
    decreases vms.len(),
{
    if vms.len() == 0 {
        vs
    } else {
        let prev = spec_apply_vms(vs, vms.drop_last(), w, size, cap);
        let e = vms.last();
        if entry_in_range(e.x as int, e.y as int, w, size) && prev.len() < cap {
            prev.push(spec_vm(e.e, (e.y * w + e.x) as Offs))
        } else {
            prev
        }
    }
}

/// All atom entries of the blocks, in block order.
pub open spec fn spec_blocks_atoms(blocks: Seq<Block>) -> Seq<AtomDump>
    decreases blocks.len(),
{
    if blocks.len() == 0 {
        Seq::empty()
    } else {
        spec_blocks_atoms(blocks.drop_last()) + blocks.last().atoms@
    }
}

/// All VM entries of the blocks, in block order.
pub open spec fn spec_blocks_vms(blocks: Seq<Block>) -> Seq<VmDump>
    decreases blocks.len(),
{
    if blocks.len() == 0 {
        Seq::empty()
    } else {
        spec_blocks_vms(blocks.drop_last()) + blocks.last().vms@
    }
}

/// Applying atom entries never changes how many cells the world has.
pub proof fn lemma_apply_atoms_len(cells: Seq<Atom>, atoms: Seq<AtomDump>, w: int)
    ensures
        spec_apply_atoms(cells, atoms, w).len() == cells.len(),
    decreases atoms.len(),
{
    if atoms.len() > 0 {
        lemma_apply_atoms_len(cells, atoms.drop_last(), w);
    }
}

/// Applying a split list of atom entries applies the two halves in turn.
pub proof fn lemma_apply_atoms_concat(cells: Seq<Atom>, a: Seq<AtomDump>, b: Seq<AtomDump>, w: int)
    ensures
        spec_apply_atoms(cells, a + b, w) == spec_apply_atoms(spec_apply_atoms(cells, a, w), b, w),
    decreases b.len(),
{
    lemma_apply_atoms_len(cells, a, w);
    if b.len() == 0 {
        assert(a + b =~= a);
        assert(spec_apply_atoms(spec_apply_atoms(cells, a, w), b, w) == spec_apply_atoms(
            cells,
            a,
            w,
        ));
    } else {
        lemma_apply_atoms_concat(cells, a, b.drop_last(), w);
        assert((a + b).drop_last() =~= a + b.drop_last());
        assert((a + b).last() == b.last());
        assert(spec_apply_atoms(spec_apply_atoms(cells, a, w), b, w) == spec_apply_atoms(
            cells,
            a + b,
            w,
        ));
    }
}

/// Applying a split list of VM entries applies the two halves in turn.
pub proof fn lemma_apply_vms_concat(
    vs: Seq<VM>,
    a: Seq<VmDump>,
    b: Seq<VmDump>,
    w: int,
    size: int,
    cap: int,
)
    ensures
        spec_apply_vms(vs, a + b, w, size, cap) == spec_apply_vms(
            spec_apply_vms(vs, a, w, size, cap),
            b,
            w,
            size,
            cap,
        ),
    decreases b.len(),
{
    if b.len() == 0 {
        assert(a + b =~= a);
    } else {
        lemma_apply_vms_concat(vs, a, b.drop_last(), w, size, cap);
        assert((a + b).drop_last() =~= a + b.drop_last());
        assert((a + b).last() == b.last());
    }
}

/// Writing the saved atom entries of a canonical world into an empty world
/// of the same dimensions gives the cells back.
proof fn lemma_atoms_round_trip_prefix(cells: Seq<Atom>, w: int, k: int)
    requires
        1 <= w,
        cells.len() <= crate::world::MAX_WORLD_SIZE,
        0 <= k <= cells.len(),
        forall|i: int|
            0 <= i < cells.len() ==> (spec_type(#[trigger] cells[i]) == 0 ==> cells[i] == 0),
    ensures
        spec_apply_atoms(
            Seq::new(cells.len(), |i: int| crate::global::ATOM_EMPTY),
            spec_atoms_of(cells.take(k), w),
            w,
        ) == Seq::new(
            cells.len(),
            |i: int|
                if i < k {
                    cells[i]
                } else {
                    crate::global::ATOM_EMPTY
                },
        ),
    decreases k,
{
    let base = Seq::new(cells.len(), |i: int| crate::global::ATOM_EMPTY);
    if k == 0 {
        assert(cells.take(0) =~= Seq::<Atom>::empty());
        assert(base =~= Seq::new(
            cells.len(),
            |i: int|
                if i < 0 {
                    cells[i]
                } else {
                    crate::global::ATOM_EMPTY
                },
        ));
    } else {
        lemma_atoms_round_trip_prefix(cells, w, k - 1);
        let tk = cells.take(k);
        assert(tk.drop_last() =~= cells.take(k - 1));
        assert(tk.last() == cells[k - 1]);
        vstd::arithmetic::div_mod::lemma_fundamental_div_mod(k - 1, w);
        let prev = Seq::new(
            cells.len(),
            |i: int|
                if i < k - 1 {
                    cells[i]
                } else {
                    crate::global::ATOM_EMPTY
                },
        );
        let goal = Seq::new(
            cells.len(),
            |i: int|
                if i < k {
                    cells[i]
                } else {
                    crate::global::ATOM_EMPTY
                },
        );
        if spec_type(cells[k - 1]) != 0 {
            assert(spec_atoms_of(tk, w) == spec_atoms_of(cells.take(k - 1), w) + seq![
                AtomDump { a: cells[k - 1], x: ((k - 1) % w) as isize, y: ((k - 1) / w) as isize },
            ]);
            let e = AtomDump {
                a: cells[k - 1],
                x: ((k - 1) % w) as isize,
                y: ((k - 1) / w) as isize,
            };
            assert(spec_atoms_of(tk, w).drop_last() =~= spec_atoms_of(cells.take(k - 1), w));
            assert(spec_atoms_of(tk, w).last() == e);
            assert(0 <= (k - 1) % w < w) by {
                vstd::arithmetic::div_mod::lemma_mod_division_less_than_divisor(k - 1, w);
            }
            assert(0 <= (k - 1) / w) by {
                vstd::arithmetic::div_mod::lemma_div_pos_is_pos(k - 1, w);
            }
            assert((k - 1) / w <= k - 1) by (nonlinear_arith)
                requires
                    w >= 1,
                    ((k - 1) / w) * w + (k - 1) % w == k - 1,
                    0 <= (k - 1) % w,
                    0 <= (k - 1) / w,
            ;
            assert(e.x as int == (k - 1) % w && e.y as int == (k - 1) / w);
            assert(e.y * w + e.x == k - 1);
            assert(entry_in_range(e.x as int, e.y as int, w, base.len() as int));
            assert(prev.update(k - 1, cells[k - 1]) =~= goal);
        } else {
            assert(spec_atoms_of(tk, w) =~= spec_atoms_of(cells.take(k - 1), w));
            assert(cells[k - 1] == 0);
            assert(prev =~= goal);
        }
    }
}

/// Appending the saved VM entries of a pool to an empty pool of sufficient
/// capacity gives the pool back.
proof fn lemma_vms_round_trip_prefix(vs: Seq<VM>, w: int, size: int, cap: int, k: int)
    requires
        1 <= w,
        size <= crate::world::MAX_WORLD_SIZE,
        0 <= k <= vs.len(),
        vs.len() <= cap,
        forall|j: int| 0 <= j < vs.len() ==> 0 <= (#[trigger] vs[j]).spec_offs() < size,
    ensures
        spec_apply_vms(Seq::empty(), spec_vms_of(vs, w).take(k), w, size, cap) == vs.take(k),
    decreases k,
{
    if k == 0 {
        assert(spec_vms_of(vs, w).take(0) =~= Seq::<VmDump>::empty());
        assert(vs.take(0) =~= Seq::<VM>::empty());
    } else {
        lemma_vms_round_trip_prefix(vs, w, size, cap, k - 1);
        let dumps = spec_vms_of(vs, w);
        assert(dumps.take(k).drop_last() =~= dumps.take(k - 1));
        assert(dumps.take(k).last() == dumps[k - 1]);
        let e = dumps[k - 1];
        let o = vs[k - 1].spec_offs();
        crate::vm::lemma_vm_ranges(vs[k - 1]);
        vstd::arithmetic::div_mod::lemma_fundamental_div_mod(o, w);
        assert(0 <= o % w < w) by {
            vstd::arithmetic::div_mod::lemma_mod_division_less_than_divisor(o, w);
        }
        assert(0 <= o / w) by {
            vstd::arithmetic::div_mod::lemma_div_pos_is_pos(o, w);
        }
        assert(o / w <= o) by (nonlinear_arith)
            requires
                w >= 1,
                (o / w) * w + o % w == o,
                0 <= o % w,
                0 <= o / w,
        ;
        assert(e.x as int == o % w && e.y as int == o / w);
        assert((o / w) * w == w * (o / w)) by (nonlinear_arith);
        assert(e.y * w + e.x == o);
        assert(entry_in_range(e.x as int, e.y as int, w, size));
        assert(vs.take(k - 1).len() == k - 1 < cap);
        crate::vm::lemma_spec_vm(e.e, o as crate::global::Offs);
        crate::vm::lemma_vm_eq(spec_vm(e.e, o as crate::global::Offs), vs[k - 1]);
        assert(vs.take(k - 1).push(vs[k - 1]) =~= vs.take(k));
    }
}

/// Dump round trip: for a world whose empty cells are truly zero and whose
/// VMs all sit inside the grid, loading the dump that [`Dump::save_dump`]
/// produced into an empty core of the same configuration restores exactly
/// the cells and the VM pool.
pub proof fn lemma_dump_round_trip(cells: Seq<Atom>, vs: Seq<VM>, w: int, cap: int)
    requires
        1 <= w,
        cells.len() <= crate::world::MAX_WORLD_SIZE,
        forall|i: int|
            0 <= i < cells.len() ==> (spec_type(#[trigger] cells[i]) == 0 ==> cells[i] == 0),
        forall|j: int| 0 <= j < vs.len() ==> 0 <= (#[trigger] vs[j]).spec_offs() < cells.len(),
        vs.len() <= cap,
    ensures
        spec_apply_atoms(
            Seq::new(cells.len(), |i: int| crate::global::ATOM_EMPTY),
            spec_atoms_of(cells, w),
            w,
        ) == cells,
        spec_apply_vms(Seq::empty(), spec_vms_of(vs, w), w, cells.len() as int, cap) == vs,
{
    lemma_atoms_round_trip_prefix(cells, w, cells.len() as int);
    assert(cells.take(cells.len() as int) =~= cells);
    assert(Seq::new(
        cells.len(),
        |i: int|
            if i < cells.len() {
                cells[i]
            } else {
                crate::global::ATOM_EMPTY
            },
    ) =~= cells);
    lemma_vms_round_trip_prefix(vs, w, cells.len() as int, cap, vs.len() as int);
    assert(spec_vms_of(vs, w).take(vs.len() as int) =~= spec_vms_of(vs, w));
    assert(vs.take(vs.len() as int) =~= vs);
}

impl Dump {
    /// An empty dump.
    pub fn new() -> (d: Dump)
        ensures
            d.width == 0,
            d.height == 0,
            d.blocks@.len() == 0,
    {
        Dump { width: 0, height: 0, blocks: Vec::new() }
    }

    /// Builds the dump of a core: one block that holds every occupied cell
    /// in ascending offset order and every VM of the pool in pool order.
    pub fn save_dump(core: &Core) -> (d: Dump)
        requires
            core.wf(),
        ensures
            d.width == core.cfg.spec_width(),
            d.height == core.cfg.spec_height(),
            d.blocks@.len() == 1,
            d.blocks@[0].atoms@ == spec_atoms_of(core.vm_data.world@, core.cfg.spec_width()),
            d.blocks@[0].vms@ == spec_vms_of(core.vms.spec_active(), core.cfg.spec_width()),
    {
        let width = core.cfg.WIDTH();
        let height = core.cfg.HEIGHT();
        let max_offs = width * height;
        let mut atoms: Vec<AtomDump> = Vec::new();
        let mut offs: usize = 0;
        while offs < max_offs
            invariant
                core.wf(),
                max_offs == core.vm_data.world.spec_size(),
                width == core.cfg.spec_width(),
                offs <= max_offs,
                atoms@ == spec_atoms_of(core.vm_data.world@.take(offs as int), width as int),
            decreases max_offs - offs,
        {
            proof {
                let cs = core.vm_data.world@;
                assert(cs.take(offs + 1).drop_last() =~= cs.take(offs as int));
                assert(cs.take(offs + 1).last() == cs[offs as int]);
            }
            let a = core.vm_data.world.get_atom(offs as Offs);
            if crate::atom::is_atom(a) {
                let (x, y) = to_xy(offs as Offs, &core.cfg);
                atoms.push(AtomDump { a, x, y });
            }
            offs += 1;
        }
        proof {
            assert(core.vm_data.world@.take(max_offs as int) =~= core.vm_data.world@);
        }
        let mut vms: Vec<VmDump> = Vec::new();
        let mut i: usize = 0;
        let n = core.vms.size();
        while i < n
            invariant
                core.wf(),
                n == core.vms.spec_size(),
                width == core.cfg.spec_width(),
                i <= n,
                vms@ == spec_vms_of(core.vms.spec_active().take(i as int), width as int),
            decreases n - i,
        {
            let vm = core.vms.get(i);
            let (x, y) = to_xy(vm.get_offs(), &core.cfg);
            vms.push(VmDump { x, y, e: vm.get_energy() });
            proof {
                assert(core.vms.spec_active()[i as int] == core.vms.spec_data()[i as int]);
                assert(vms@ =~= spec_vms_of(core.vms.spec_active().take(i + 1), width as int));
            }
            i += 1;
        }
        proof {
            assert(core.vms.spec_active().take(n as int) =~= core.vms.spec_active());
        }
        let mut blocks: Vec<Block> = Vec::new();
        blocks.push(Block { atoms, vms });
        Dump { width, height, blocks }
    }

    /// Loads the atoms and VMs of a dump into the core. A dump whose
    /// dimensions disagree with the configuration is rejected whole; an
    /// entry outside the grid is skipped; VM entries beyond the pool
    /// capacity are denied.
    pub fn load_dump(dump: &Dump, core: &mut Core) -> (r: bool)
        requires
            old(core).wf(),
        ensures
            final(core).wf(),
            final(core).cfg == old(core).cfg,
            final(core).io == old(core).io,
            final(core).vm_data.buf == old(core).vm_data.buf,
            final(core).vm_data.dirs_rev == old(core).vm_data.dirs_rev,
            final(core).vm_data.world.same_shape(&old(core).vm_data.world),
            (dump.width != old(core).cfg.spec_width() || dump.height != old(
                core,
            ).cfg.spec_height()) ==> (*final(core) == *old(core) && r == false),
            (dump.width == old(core).cfg.spec_width() && dump.height == old(
                core,
            ).cfg.spec_height()) ==> ({
                &&& r == true
                &&& final(core).vm_data.world@ == spec_apply_atoms(
                    old(core).vm_data.world@,
                    spec_blocks_atoms(dump.blocks@),
                    old(core).cfg.spec_width(),
                )
                &&& final(core).vms.spec_active() == spec_apply_vms(
                    old(core).vms.spec_active(),
                    spec_blocks_vms(dump.blocks@),
                    old(core).cfg.spec_width(),
                    old(core).vm_data.world.spec_size(),
                    old(core).vms.spec_cap(),
                )
                &&& final(core).vms.spec_cap() == old(core).vms.spec_cap()
            }),
    {
        if dump.width != core.cfg.WIDTH() || dump.height != core.cfg.HEIGHT() {
            return false;
        }
        let ghost w = core.cfg.spec_width();
        let ghost size = core.vm_data.world.spec_size();
        let ghost cap = core.vms.spec_cap();
        let ghost cells0 = core.vm_data.world@;
        let ghost vs0 = core.vms.spec_active();
        let wexec = core.cfg.WIDTH();
        let size_exec = core.cfg.WIDTH() * core.cfg.HEIGHT();
        proof {
            assert(wexec <= crate::world::MAX_WORLD_SIZE);
            assert(size_exec <= crate::world::MAX_WORLD_SIZE);
        }
        let nb = dump.blocks.len();
        let mut bi: usize = 0;
        while bi < nb
            invariant
                core.wf(),
                core.cfg == old(core).cfg,
                core.io == old(core).io,
                core.vm_data.buf == old(core).vm_data.buf,
                core.vm_data.dirs_rev == old(core).vm_data.dirs_rev,
                core.vm_data.world.same_shape(&old(core).vm_data.world),
                nb == dump.blocks@.len(),
                bi <= nb,
                w == core.cfg.spec_width(),
                wexec == w,
                size_exec == size,
                size <= crate::world::MAX_WORLD_SIZE,
                size == core.vm_data.world.spec_size(),
                cap == core.vms.spec_cap(),
                core.vm_data.world@ == spec_apply_atoms(
                    cells0,
                    spec_blocks_atoms(dump.blocks@.take(bi as int)),
                    w,
                ),
                core.vms.spec_active() == spec_apply_vms(
                    vs0,
                    spec_blocks_vms(dump.blocks@.take(bi as int)),
                    w,
                    size,
                    cap,
                ),
            decreases nb - bi,
        {
            let b = &dump.blocks[bi];
            let ghost cells_b = core.vm_data.world@;
            let ghost vs_b = core.vms.spec_active();
            let na = b.atoms.len();
            let mut ai: usize = 0;
            while ai < na
                invariant
                    core.wf(),
                    core.cfg == old(core).cfg,
                    core.io == old(core).io,
                    core.vm_data.buf == old(core).vm_data.buf,
                    core.vm_data.dirs_rev == old(core).vm_data.dirs_rev,
                    core.vm_data.world.same_shape(&old(core).vm_data.world),
                    na == b.atoms@.len(),
                    ai <= na,
                    w == core.cfg.spec_width(),
                    wexec == w,
                    size_exec == size,
                    size <= crate::world::MAX_WORLD_SIZE,
                    size == core.vm_data.world.spec_size(),
                    cap == core.vms.spec_cap(),
                    cells_b.len() == size,
                    core.vms.spec_active() == vs_b,
                    core.vms.spec_cap() == cap,
                    core.vm_data.world@ == spec_apply_atoms(cells_b, b.atoms@.take(ai as int), w),
                decreases na - ai,
            {
                proof {
                    assert(b.atoms@.take(ai + 1).drop_last() =~= b.atoms@.take(ai as int));
                    assert(b.atoms@.take(ai + 1).last() == b.atoms@[ai as int]);
                }
                let e = b.atoms[ai];
                proof {
                    assert((-0x8000_0000_0000_0000i128) * 0x4000_0000 <= e.y as i128 * (
                    wexec as i128) <= 0x8000_0000_0000_0000i128 * 0x4000_0000) by (nonlinear_arith)
                        requires
                            -0x8000_0000_0000_0000i128 <= e.y as i128 <= 0x8000_0000_0000_0000i128,
                            0 <= wexec as i128 <= 0x4000_0000,
                    ;
                }
                let offs128: i128 = e.y as i128 * wexec as i128 + e.x as i128;
                if 0 <= offs128 && offs128 < size_exec as i128 {
                    proof {
                        assert(entry_in_range(e.x as int, e.y as int, w, size as int));
                    }
                    core.vm_data.world.set_atom(offs128 as isize, e.a);
                } else {
                    proof {
                        assert(!entry_in_range(e.x as int, e.y as int, w, size as int));
                    }
                }
                ai += 1;
            }
            proof {
                assert(b.atoms@.take(na as int) =~= b.atoms@);
            }
            let nv = b.vms.len();
            let mut vi: usize = 0;
            while vi < nv
                invariant
                    core.wf(),
                    core.cfg == old(core).cfg,
                    core.io == old(core).io,
                    core.vm_data.buf == old(core).vm_data.buf,
                    core.vm_data.dirs_rev == old(core).vm_data.dirs_rev,
                    core.vm_data.world.same_shape(&old(core).vm_data.world),
                    nv == b.vms@.len(),
                    vi <= nv,
                    w == core.cfg.spec_width(),
                    wexec == w,
                    size_exec == size,
                    size <= crate::world::MAX_WORLD_SIZE,
                    size == core.vm_data.world.spec_size(),
                    cap == core.vms.spec_cap(),
                    cells_b.len() == size,
                    core.vm_data.world@ == spec_apply_atoms(cells_b, b.atoms@, w),
                    core.vms.spec_active() == spec_apply_vms(
                        vs_b,
                        b.vms@.take(vi as int),
                        w,
                        size,
                        cap,
                    ),
                decreases nv - vi,
            {
                proof {
                    assert(b.vms@.take(vi + 1).drop_last() =~= b.vms@.take(vi as int));
                    assert(b.vms@.take(vi + 1).last() == b.vms@[vi as int]);
                }
                let e = b.vms[vi];
                proof {
                    assert((-0x8000_0000_0000_0000i128) * 0x4000_0000 <= e.y as i128 * (
                    wexec as i128) <= 0x8000_0000_0000_0000i128 * 0x4000_0000) by (nonlinear_arith)
                        requires
                            -0x8000_0000_0000_0000i128 <= e.y as i128 <= 0x8000_0000_0000_0000i128,
                            0 <= wexec as i128 <= 0x4000_0000,
                    ;
                }
                let offs128: i128 = e.y as i128 * wexec as i128 + e.x as i128;
                if 0 <= offs128 && offs128 < size_exec as i128 {
                    proof {
                        assert(entry_in_range(e.x as int, e.y as int, w, size as int));
                    }
                    let ghost pre = core.vms.spec_active();
                    let added = core.vms.add(VM::new(e.e, offs128 as isize));
                    proof {
                        if added {
                            assert(core.vms.spec_active() =~= pre.push(
                                spec_vm(e.e, (e.y * w + e.x) as Offs),
                            ));
                        } else {
                            assert(core.vms.spec_active() =~= pre);
                        }
                    }
                } else {
                    proof {
                        assert(!entry_in_range(e.x as int, e.y as int, w, size as int));
                    }
                }
                vi += 1;
            }
            proof {
                assert(b.vms@.take(nv as int) =~= b.vms@);
                assert(dump.blocks@.take(bi + 1).drop_last() =~= dump.blocks@.take(bi as int));
                assert(dump.blocks@.take(bi + 1).last() == dump.blocks@[bi as int]);
                lemma_apply_atoms_concat(
                    cells0,
                    spec_blocks_atoms(dump.blocks@.take(bi as int)),
                    b.atoms@,
                    w,
                );
                lemma_apply_vms_concat(
                    vs0,
                    spec_blocks_vms(dump.blocks@.take(bi as int)),
                    b.vms@,
                    w,
                    size,
                    cap,
                );
            }
            bi += 1;
        }
        proof {
            assert(dump.blocks@.take(nb as int) =~= dump.blocks@);
        }
        true
    }
}

} // verus!
