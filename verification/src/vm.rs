//! Virtual Machine module. Implements all atom types and related stuff. One
//! VM is a cursor of energy and offset that runs the atom it stands on:
//! mov translates a bonded cluster, fix creates a bond, spl removes one, if
//! branches, and job asks the main loop to spawn a new VM.
pub mod buf;
pub mod ret;
pub mod vmdata;

use vstd::prelude::*;
use crate::global::{Atom, Dir, Offs, DIR_NO, RET_OK, RET_SKIPPED, spec_dir_mov_atom, spec_dir_near_atom};
use crate::atom::{
    get_dir1, get_dir2, get_type, get_vm_dir, has_dir2_bond, has_vm_bond, is_atom, reset_dir2_bond,
    reset_vm_bond, set_dir2, set_dir2_bond, set_vm_dir, spec_dir1, spec_dir2, spec_dir2_bond,
    spec_set_dir2, spec_set_vm_dir, spec_type, spec_vm_bond, spec_vm_dir,
};
use crate::cfg::{AtomConfig, Config};
use crate::io::Param;
use crate::world::World;
use crate::vm::ret::Return;
use crate::vm::vmdata::VMData;

verus! {

/// Index of the if atom type. The other types are 1 - mov, 2 - fix,
/// 3 - spl, 5 - job.
pub const ATOM_IF: Atom = 4;

/// `e - a`, saturated at the bounds of `isize`.
pub open spec fn sat_sub(e: int, a: int) -> int {
    let r = e - a;
    if r < isize::MIN as int {
        isize::MIN as int
    } else if r > isize::MAX as int {
        isize::MAX as int
    } else {
        r
    }
}

/// `e + a`, saturated at the bounds of `isize`.
pub open spec fn sat_add(e: int, a: int) -> int {
    let r = e + a;
    if r < isize::MIN as int {
        isize::MIN as int
    } else if r > isize::MAX as int {
        isize::MAX as int
    } else {
        r
    }
}

/// `k` saturated subtractions of `a`, one for every moved atom.
pub open spec fn sat_sub_n(e: int, a: int, k: nat) -> int
    decreases k,
{
    if k == 0 {
        e
    } else {
        sat_sub(sat_sub_n(e, a, (k - 1) as nat), a)
    }
}

/// The half of `e` that a job atom hands to the spawned VM: division by two
/// rounded toward zero.
pub open spec fn half_trunc(e: int) -> int {
    if e >= 0 {
        e / 2
    } else {
        -((-e) / 2)
    }
}

/// How many cells of the sequence hold an atom of type `t`.
pub open spec fn type_count(s: Seq<Atom>, t: Atom) -> int
    decreases s.len(),
{
    if s.len() == 0 {
        0
    } else {
        type_count(s.drop_last(), t) + if spec_type(s.last()) == t {
            1int
        } else {
            0int
        }
    }
}

/// How many bond bits (vm and dir2) are set over the occupied cells of the
/// sequence.
pub open spec fn bond_count(s: Seq<Atom>) -> int
    decreases s.len(),
{
    if s.len() == 0 {
        0
    } else {
        bond_count(s.drop_last()) + bond_weight(s.last())
    }
}

/// The bond bits one occupied cell contributes; an empty cell contributes
/// nothing.
pub open spec fn bond_weight(a: Atom) -> int {
    if spec_type(a) != 0 {
        (if spec_vm_bond(a) {
            1int
        } else {
            0int
        }) + (if spec_dir2_bond(a) {
            1int
        } else {
            0int
        })
    } else {
        0
    }
}

/// Writing `v` into slot `i` shifts a type count by the weights of the old
/// and the new value.
pub proof fn lemma_type_count_update(s: Seq<Atom>, i: int, v: Atom, t: Atom)
    requires
        0 <= i < s.len(),
    ensures
        type_count(s.update(i, v), t) == type_count(s, t) - (if spec_type(s[i]) == t {
            1int
        } else {
            0int
        }) + (if spec_type(v) == t {
            1int
        } else {
            0int
        }),
    decreases s.len(),
{
    let su = s.update(i, v);
    if i == s.len() - 1 {
        assert(su.drop_last() =~= s.drop_last());
        assert(su.last() == v);
    } else {
        assert(su.drop_last() =~= s.drop_last().update(i, v));
        assert(su.last() == s.last());
        lemma_type_count_update(s.drop_last(), i, v, t);
    }
}

/// Writing `v` into slot `i` shifts the bond count by the weights of the
/// old and the new value.
pub proof fn lemma_bond_count_update(s: Seq<Atom>, i: int, v: Atom)
    requires
        0 <= i < s.len(),
    ensures
        bond_count(s.update(i, v)) == bond_count(s) - bond_weight(s[i]) + bond_weight(v),
    decreases s.len(),
{
    let su = s.update(i, v);
    if i == s.len() - 1 {
        assert(su.drop_last() =~= s.drop_last());
        assert(su.last() == v);
    } else {
        assert(su.drop_last() =~= s.drop_last().update(i, v));
        assert(su.last() == s.last());
        lemma_bond_count_update(s.drop_last(), i, v);
    }
}

/// The two counts agree on two worlds.
pub open spec fn counts_kept(o_w: Seq<Atom>, n_w: Seq<Atom>) -> bool {
    &&& forall|t: Atom| #[trigger] type_count(n_w, t) == type_count(o_w, t)
    &&& bond_count(n_w) == bond_count(o_w)
}

/// The destinations of the move-dot events of the sequence, in order.
pub open spec fn mov_dests(evs: Seq<Param>) -> Seq<Offs>
    decreases evs.len(),
{
    if evs.len() == 0 {
        Seq::empty()
    } else {
        mov_dests(evs.drop_last()) + (match evs.last() {
            Param::MoveDot(_src, dst, _a) => seq![dst],
            _ => Seq::empty(),
        })
    }
}

/// Appending an event extends the move destinations by at most that event's
/// destination.
pub proof fn lemma_mov_dests_push(evs: Seq<Param>, p: Param)
    ensures
        mov_dests(evs.push(p)) == mov_dests(evs) + (match p {
            Param::MoveDot(_src, dst, _a) => seq![dst],
            _ => Seq::<Offs>::empty(),
        }),
{
    assert(evs.push(p).drop_last() =~= evs);
    assert(evs.push(p).last() == p);
}

/// A sequence push leaves a prefix untouched and lands at the end of the
/// rest.
pub proof fn lemma_push_take_skip<T>(s: Seq<T>, p: T, n: int)
    requires
        0 <= n <= s.len(),
    ensures
        s.push(p).take(n) == s.take(n),
        s.push(p).skip(n) == s.skip(n).push(p),
{
    assert(s.push(p).take(n) =~= s.take(n));
    assert(s.push(p).skip(n) =~= s.skip(n).push(p));
}

/// Pushing a fresh element keeps a sequence free of duplicates.
pub proof fn lemma_no_dup_push(s: Seq<Offs>, x: Offs)
    requires
        s.no_duplicates(),
        !s.contains(x),
    ensures
        s.push(x).no_duplicates(),
{
    let sp = s.push(x);
    assert forall|i: int, j: int| 0 <= i < sp.len() && 0 <= j < sp.len() && i != j implies sp[i]
        != sp[j] by {
        if i < s.len() && j < s.len() {
        } else if i == s.len() {
            assert(s[j] == sp[j]);
            assert(s.contains(s[j]));
        } else {
            assert(s[i] == sp[i]);
            assert(s.contains(s[i]));
        }
    }
}

/// A write that keeps the type and the bond weight of its cell keeps every
/// count and the occupancy of every cell.
pub proof fn lemma_type_keeping_set(s: Seq<Atom>, i: int, v: Atom)
    requires
        0 <= i < s.len(),
        spec_type(v) == spec_type(s[i]),
        bond_weight(v) == bond_weight(s[i]),
    ensures
        forall|t: Atom| #[trigger] type_count(s.update(i, v), t) == type_count(s, t),
        bond_count(s.update(i, v)) == bond_count(s),
        forall|j: int|
            0 <= j < s.len() ==> spec_type(#[trigger] s.update(i, v)[j]) == spec_type(s[j]),
{
    assert forall|t: Atom| #[trigger] type_count(s.update(i, v), t) == type_count(s, t) by {
        lemma_type_count_update(s, i, v, t);
    }
    lemma_bond_count_update(s, i, v);
}

/// Moving an atom from an occupied cell into an empty one keeps every count;
/// the source empties, the destination takes the source's type, and every
/// other cell keeps its occupancy.
pub proof fn lemma_move_counts(s: Seq<Atom>, src: int, dst: int)
    requires
        0 <= src < s.len(),
        0 <= dst < s.len(),
        spec_type(s[dst]) == 0,
    ensures
        forall|t: Atom| #[trigger]
            type_count(s.update(dst, s[src]).update(src, crate::global::ATOM_EMPTY), t)
                == type_count(s, t),
        bond_count(s.update(dst, s[src]).update(src, crate::global::ATOM_EMPTY)) == bond_count(s),
        forall|j: int|
            0 <= j < s.len() ==> spec_type(
                #[trigger] s.update(dst, s[src]).update(src, crate::global::ATOM_EMPTY)[j],
            ) == (if j == src {
                0
            } else if j == dst {
                spec_type(s[src])
            } else {
                spec_type(s[j])
            }),
{
    crate::atom::lemma_empty_atom();
    let s1 = s.update(dst, s[src]);
    assert(s1[src] == s[src]);
    assert forall|t: Atom| #[trigger]
        type_count(s1.update(src, crate::global::ATOM_EMPTY), t) == type_count(s, t) by {
        lemma_type_count_update(s, dst, s[src], t);
        lemma_type_count_update(s1, src, crate::global::ATOM_EMPTY, t);
    }
    lemma_bond_count_update(s, dst, s[src]);
    lemma_bond_count_update(s1, src, crate::global::ATOM_EMPTY);
}

/// Describes data for one instance of a Virtual Machine.
#[derive(Copy, Clone)]
pub struct VM {
    /// Energy of the current VM. Every VM has its own.
    energy: isize,
    /// Offset of the current atom which the VM is running.
    offs: Offs,
}

impl core::default::Default for VM {
    /// An idle VM without energy, sitting on the first cell.
    fn default() -> (r: VM)
        ensures
            r.spec_energy() == 0,
            r.spec_offs() == 0,
    {
        VM { energy: 0, offs: 0 }
    }
}

/// The VM value with this energy at this offset, for specifications.
pub closed spec fn spec_vm(energy: isize, offs: Offs) -> VM {
    VM { energy, offs }
}

/// What [`spec_vm`] builds.
pub proof fn lemma_spec_vm(energy: isize, offs: Offs)
    ensures
        spec_vm(energy, offs).spec_energy() == energy,
        spec_vm(energy, offs).spec_offs() == offs,
{
}

impl VM {
    /// The energy of the VM, for specifications.
    pub closed spec fn spec_energy(&self) -> int {
        self.energy as int
    }

    /// The offset of the VM, for specifications.
    pub closed spec fn spec_offs(&self) -> int {
        self.offs as int
    }

    /// Creates a VM with this energy at this offset.
    pub fn new(energy: isize, offs: Offs) -> (vm: VM)
        ensures
            vm.spec_energy() == energy,
            vm.spec_offs() == offs,
            vm == spec_vm(energy, offs),
    {
        VM { energy, offs }
    }

    /// Returns the energy amount of the current VM.
    pub fn get_energy(&self) -> (r: isize)
        ensures
            r == self.spec_energy(),
    {
        self.energy
    }

    /// Returns the offset of the current VM.
    pub fn get_offs(&self) -> (r: Offs)
        ensures
            r == self.spec_offs(),
    {
        self.offs
    }

    /// Decreases the energy amount of the current VM, saturating at the
    /// bounds instead of wrapping.
    pub fn dec_energy(&mut self, energy: isize)
        ensures
            final(self).spec_energy() == sat_sub(old(self).spec_energy(), energy as int),
            final(self).spec_offs() == old(self).spec_offs(),
    {
        let r: i128 = self.energy as i128 - energy as i128;
        self.energy = if r < isize::MIN as i128 {
            isize::MIN
        } else if r > isize::MAX as i128 {
            isize::MAX
        } else {
            r as isize
        };
    }

    /// Increases the energy amount of the current VM, saturating at the
    /// bounds instead of wrapping.
    fn inc_energy(&mut self, energy: isize)
        ensures
            final(self).spec_energy() == sat_add(old(self).spec_energy(), energy as int),
            final(self).spec_offs() == old(self).spec_offs(),
    {
        let r: i128 = self.energy as i128 + energy as i128;
        self.energy = if r < isize::MIN as i128 {
            isize::MIN
        } else if r > isize::MAX as i128 {
            isize::MAX
        } else {
            r as isize
        };
    }
}

/// Two VMs with the same energy and the same offset are the same VM.
pub proof fn lemma_vm_eq(a: VM, b: VM)
    requires
        a.spec_energy() == b.spec_energy(),
        a.spec_offs() == b.spec_offs(),
    ensures
        a == b,
{
}

/// The energy and the offset of a VM always fit the machine word they are
/// stored in.
pub proof fn lemma_vm_ranges(v: VM)
    ensures
        isize::MIN <= v.spec_energy() <= isize::MAX,
        isize::MIN <= v.spec_offs() <= isize::MAX,
{
}

/// Energy monotonicity of mov: with a nonnegative move cost that does not
/// drive the energy below the representable range, moving `k` atoms
/// decreases the energy by exactly `k` times the cost.
pub proof fn lemma_mov_energy_decrease(e: int, cost: int, k: nat)
    requires
        cost >= 0,
        isize::MIN <= e <= isize::MAX,
        isize::MIN <= e - k * cost,
    ensures
        sat_sub_n(e, cost, k) == e - k * cost,
    decreases k,
{
    if k > 0 {
        assert(k * cost == (k - 1) * cost + cost) by (nonlinear_arith);
        assert(k * cost >= 0 && (k - 1) * cost >= 0) by (nonlinear_arith)
            requires
                k >= 1,
                cost >= 0,
        ;
        lemma_mov_energy_decrease(e, cost, (k - 1) as nat);
    } else {
        assert(k * cost == 0) by (nonlinear_arith)
            requires
                k == 0,
        ;
    }
}

/// Energy monotonicity of spl: a nonnegative release never lowers the
/// energy, and a positive one that stays in range strictly raises it.
pub proof fn lemma_spl_energy_increase(e: int, spl: int)
    requires
        0 <= spl,
        isize::MIN <= e <= isize::MAX,
    ensures
        sat_add(e, spl) >= e,
        spl >= 1 && e + spl <= isize::MAX ==> sat_add(e, spl) > e,
{
}

/// What one atom run does: the dispatch of the five operators over the
/// type of the atom the VM stands on. An empty cell (and the two unused
/// type slots) runs nothing. The per-type behavior is given by
/// [`mov_post`], [`fix_post`], [`spl_post`], [`if_post`] and [`job_post`].
pub open spec fn run_post(
    o_vm: VM,
    n_vm: VM,
    o_vmd: VMData,
    n_vmd: VMData,
    ac: AtomConfig,
    ret: Return,
) -> bool {
    let atom = o_vmd.world.spec_get_atom(o_vm.spec_offs());
    let t = spec_type(atom);
    &&& (t == 0 || t == 6 || t == 7) ==> (n_vm == o_vm && n_vmd == o_vmd && ret == Return::Code(
        RET_SKIPPED,
    ))
    &&& t == 1 ==> (mov_post(
        o_vm,
        n_vm,
        o_vmd.world,
        n_vmd.world,
        atom,
        ac,
        o_vmd.buf.stack.spec_cap(),
    ) && ret == Return::Code(RET_OK))
    &&& t == 2 ==> (fix_post(o_vm, n_vm, o_vmd.world, n_vmd.world, atom, ac, ret) && n_vmd.buf
        == o_vmd.buf)
    &&& t == 3 ==> (spl_post(o_vm, n_vm, o_vmd.world, n_vmd.world, atom, ac, ret) && n_vmd.buf
        == o_vmd.buf)
    &&& t == 4 ==> (if_post(o_vm, n_vm, o_vmd.world, n_vmd.world, atom, ac, ret) && n_vmd == o_vmd)
    &&& t == 5 ==> (job_post(o_vm, n_vm, o_vmd.world, n_vmd.world, atom, ret) && n_vmd == o_vmd)
}

/// Nothing ran: the VM and the world are as they were.
pub open spec fn skip_post(o_vm: VM, n_vm: VM, o_w: World, n_w: World, ret: Return) -> bool {
    &&& n_vm == o_vm
    &&& n_w == o_w
    &&& ret == Return::Code(RET_SKIPPED)
}

/// The cursor the VM moves to after a successful fix or spl: it follows the
/// acting atom's own vm bond if there is one.
pub open spec fn next_offs(o_vm: VM, o_w: World, atom: Atom) -> int {
    if spec_vm_bond(atom) {
        o_w.spec_get_offs(o_vm.spec_offs(), spec_vm_dir(atom) as int)
    } else {
        o_vm.spec_offs()
    }
}

/// One world cell was rewritten to `newa` and a set-dot event recorded.
pub open spec fn one_cell_set(o_w: World, n_w: World, offs: int, newa: Atom) -> bool {
    &&& n_w@ == o_w@.update(offs, newa)
    &&& n_w.spec_events() == o_w.spec_events().push(Param::SetDot(offs as Offs, newa))
}


/// The state of one running mov operation, as the specification machine
/// sees it: the world cells, the events recorded since the move began, the
/// stack of offsets still to handle, the set of offsets already moved to,
/// the VM's energy, and whether the move was abandoned (stack overflow) or
/// has finished.
#[verifier::ext_equal]
pub struct MovState {
    /// The world cells.
    pub cells: Seq<Atom>,
    /// The events recorded since the move began, oldest first.
    pub events: Seq<Param>,
    /// The offsets still to handle, the top last.
    pub stack: Seq<Offs>,
    /// The offsets that atoms have been moved to.
    pub moved: Set<Offs>,
    /// The energy of the VM that runs the move.
    pub energy: int,
    /// The move was abandoned because the stack was full.
    pub aborted: bool,
    /// The machine has stopped.
    pub done: bool,
}

/// Whether cell `i` of the cells holds an atom.
pub open spec fn mov_occ(cells: Seq<Atom>, i: int) -> bool {
    0 <= i < cells.len() && spec_type(cells[i]) != 0
}

/// One cell written, with its set-dot event recorded.
pub open spec fn mov_st_set(st: MovState, c: int, v: Atom) -> MovState {
    MovState {
        cells: st.cells.update(c, v),
        events: st.events.push(Param::SetDot(c as Offs, v)),
        ..st
    }
}

/// One offset scheduled on the stack; a full stack abandons the move.
pub open spec fn mov_st_push(st: MovState, o: Offs, cap: int) -> MovState {
    if st.stack.len() >= cap {
        MovState { aborted: true, done: true, ..st }
    } else {
        MovState { stack: st.stack.push(o), ..st }
    }
}

/// The bond repair around the atom that has just moved from `offs` to `to`
/// one step along `dir`, exactly as the mov operation performs it: first
/// the moved atom's vm bond (rewritten by [`spec_dir_mov_atom`], with the
/// stationary peer's pointing-back vm and dir2 bonds rewritten by
/// [`spec_dir_near_atom`], or the peer scheduled for a move of its own when
/// it is too far now), then the same for the moved atom's dir2 bond when it
/// is an if atom. `geo` supplies the grid geometry for the wrapped
/// neighbor offsets.
pub open spec fn spec_mov_repair(
    st0: MovState,
    geo: World,
    offs: int,
    to: int,
    dir: int,
    cap: int,
) -> MovState {
    let a0 = st0.cells[to];
    let d0 = spec_vm_dir(a0);
    let st1 = if d0 != DIR_NO {
        let d1 = spec_dir_mov_atom(d0 as int, dir);
        let o = geo.spec_get_offs(offs, d0 as int);
        if d1 == DIR_NO {
            // the peer is too far now; it has to be moved too
            if mov_occ(st0.cells, o) && dir != d0 as int {
                mov_st_push(st0, o as Offs, cap)
            } else {
                st0
            }
        } else {
            let st_a = mov_st_set(st0, to, spec_set_vm_dir(a0, d1));
            let d0r = crate::global::spec_dir_rev(d0 as int);
            let dn = spec_dir_near_atom(d0r as int, dir);
            let p0 = st_a.cells[o];
            let vm_hit = spec_vm_dir(p0) == d0r;
            let st_b = if vm_hit {
                mov_st_set(st_a, o, spec_set_vm_dir(p0, dn))
            } else {
                st_a
            };
            let p1 = if vm_hit {
                spec_set_vm_dir(p0, dn)
            } else {
                p0
            };
            if spec_type(p1) == ATOM_IF && spec_dir2(p1) == d0r {
                mov_st_set(st_b, o, spec_set_dir2(p1, dn))
            } else {
                st_b
            }
        }
    } else {
        st0
    };
    if st1.aborted {
        st1
    } else {
        // the local copy of the moved atom's word, as the repair holds it
        let am = if d0 != DIR_NO && spec_dir_mov_atom(d0 as int, dir) != DIR_NO {
            spec_set_vm_dir(a0, spec_dir_mov_atom(d0 as int, dir))
        } else {
            a0
        };
        if spec_type(am) == ATOM_IF {
            let d20 = spec_dir2(am);
            if d20 != DIR_NO {
                let d1 = spec_dir_mov_atom(d20 as int, dir);
                let o = geo.spec_get_offs(offs, d20 as int);
                if d1 == DIR_NO {
                    if mov_occ(st1.cells, o) && dir != d20 as int {
                        mov_st_push(st1, o as Offs, cap)
                    } else {
                        st1
                    }
                } else {
                    let st_a = mov_st_set(st1, to, spec_set_dir2(am, d1));
                    let d0r = crate::global::spec_dir_rev(d20 as int);
                    let dn = spec_dir_near_atom(d0r as int, dir);
                    let p0 = st_a.cells[o];
                    let then_hit = spec_dir2(p0) == d0r;
                    let st_b = if then_hit {
                        mov_st_set(st_a, o, spec_set_dir2(p0, dn))
                    } else {
                        st_a
                    };
                    let p1 = if then_hit {
                        spec_set_dir2(p0, dn)
                    } else {
                        p0
                    };
                    if spec_vm_dir(p1) == d0r {
                        mov_st_set(st_b, o, spec_set_vm_dir(p1, dn))
                    } else {
                        st_b
                    }
                }
            } else {
                st1
            }
        } else {
            st1
        }
    }
}

/// One step of the mov machine: a finished machine stays as it is; an
/// empty stack finishes; a top offset that was already moved to or is
/// empty is dropped; a top atom whose destination is occupied schedules
/// the obstructing atom (a full stack abandons the move); otherwise the
/// atom moves one cell, pays `cost` energy, and its bonds are repaired.
pub open spec fn spec_mov_step(st: MovState, geo: World, dir: int, cost: int, cap: int) -> MovState {
    if st.done {
        st
    } else if st.stack.len() == 0 {
        MovState { done: true, ..st }
    } else {
        let offs = st.stack.last();
        if st.moved.contains(offs) || !mov_occ(st.cells, offs as int) {
            MovState { stack: st.stack.drop_last(), ..st }
        } else {
            let to = geo.spec_get_offs(offs as int, dir);
            if mov_occ(st.cells, to) {
                mov_st_push(st, to as Offs, cap)
            } else {
                let a = st.cells[offs as int];
                let stm = MovState {
                    cells: st.cells.update(to, a).update(offs as int, crate::global::ATOM_EMPTY),
                    events: st.events.push(Param::MoveDot(offs, to as Offs, a)),
                    stack: st.stack.drop_last(),
                    moved: st.moved.insert(to as Offs),
                    energy: sat_sub(st.energy, cost),
                    ..st
                };
                spec_mov_repair(stm, geo, offs as int, to, dir, cap)
            }
        }
    }
}

/// The mov machine after `n` steps.
pub open spec fn spec_mov_run(
    st: MovState,
    geo: World,
    dir: int,
    cost: int,
    cap: int,
    n: nat,
) -> MovState
    decreases n,
{
    if n == 0 {
        st
    } else {
        spec_mov_step(spec_mov_run(st, geo, dir, cost, cap, (n - 1) as nat), geo, dir, cost, cap)
    }
}

/// The machine state a mov operation starts from: the current world, no
/// events yet, the root offset on the stack (a buffer without room keeps
/// the stack empty, as the push onto it fails), nothing moved yet.
pub open spec fn spec_mov_init(w: World, root: int, energy: int, cap: int) -> MovState {
    MovState {
        cells: w@,
        events: Seq::empty(),
        stack: if cap >= 1 {
            seq![root as Offs]
        } else {
            Seq::empty()
        },
        moved: Set::empty(),
        energy,
        aborted: false,
        done: false,
    }
}

/// A finished machine state never changes again: running longer gives the
/// same state.
pub proof fn lemma_mov_run_stable(
    st: MovState,
    geo: World,
    dir: int,
    cost: int,
    cap: int,
    n1: nat,
    n2: nat,
)
    requires
        spec_mov_run(st, geo, dir, cost, cap, n1).done,
        n1 <= n2,
    ensures
        spec_mov_run(st, geo, dir, cost, cap, n2) == spec_mov_run(st, geo, dir, cost, cap, n1),
    decreases n2 - n1,
{
    if n2 > n1 {
        lemma_mov_run_stable(st, geo, dir, cost, cap, n1, (n2 - 1) as nat);
    }
}

/// The mov machine is deterministic: any two finished runs from the same
/// start are the same state.
pub proof fn lemma_mov_run_confluent(
    st: MovState,
    geo: World,
    dir: int,
    cost: int,
    cap: int,
    n1: nat,
    n2: nat,
)
    requires
        spec_mov_run(st, geo, dir, cost, cap, n1).done,
        spec_mov_run(st, geo, dir, cost, cap, n2).done,
    ensures
        spec_mov_run(st, geo, dir, cost, cap, n1) == spec_mov_run(st, geo, dir, cost, cap, n2),
{
    if n1 <= n2 {
        lemma_mov_run_stable(st, geo, dir, cost, cap, n1, n2);
    } else {
        lemma_mov_run_stable(st, geo, dir, cost, cap, n2, n1);
    }
}

/// What a mov atom does, beyond the frame conditions. The whole bonded
/// cluster around the VM is translated one cell along the mov atom's first
/// operand direction; bond fields are rewritten so that no bond breaks.
/// The outcome is pinned exactly: the new world, the new events and the
/// remaining energy are the final state of a finished run of the mov
/// machine ([`spec_mov_step`]), which is deterministic
/// ([`lemma_mov_run_confluent`]). On top of that the laws are stated
/// directly: every move-dot destination is hit at most once, each moved
/// atom costs `mov_energy`, the cell counts are conserved, and afterwards
/// the VM follows the vm bond of the atom that now sits one step ahead of
/// where the VM stood (if any atom with a vm bond sits there).
pub open spec fn mov_post(
    o_vm: VM,
    n_vm: VM,
    o_w: World,
    n_w: World,
    atom: Atom,
    ac: AtomConfig,
    buf_cap: int,
) -> bool {
    let dir = spec_dir1(atom);
    let vm_offs = o_w.spec_get_offs(o_vm.spec_offs(), dir as int);
    let e0 = o_w.spec_events();
    let en = n_w.spec_events();
    let dests = mov_dests(en.skip(e0.len() as int));
    &&& en.len() >= e0.len()
    &&& en.take(e0.len() as int) == e0
    &&& dests.no_duplicates()
    &&& forall|k: int| 0 <= k < dests.len() ==> o_w.spec_in_range(#[trigger] dests[k] as int)
    &&& n_vm.spec_energy() == sat_sub_n(
        o_vm.spec_energy(),
        ac.mov_energy as int,
        dests.len(),
    )
    &&& exists|n: nat|
        ({
            let fin = #[trigger] spec_mov_run(
                spec_mov_init(o_w, o_vm.spec_offs(), o_vm.spec_energy(), buf_cap),
                o_w,
                dir as int,
                ac.mov_energy as int,
                buf_cap,
                n,
            );
            &&& fin.done
            &&& n_w@ == fin.cells
            &&& n_w.spec_events().skip(e0.len() as int) == fin.events
            &&& n_vm.spec_energy() == fin.energy
        })
    &&& counts_kept(o_w@, n_w@)
    &&& (buf_cap >= 1 && spec_type(o_w.spec_get_atom(o_vm.spec_offs())) != 0 && spec_type(
        o_w.spec_get_atom(vm_offs),
    ) == 0 ==> spec_type(n_w.spec_get_atom(vm_offs)) != 0)
    &&& n_vm.spec_offs() == (if n_w.spec_get_atom(vm_offs) != crate::global::ATOM_EMPTY
        && spec_vm_bond(n_w.spec_get_atom(vm_offs)) {
        n_w.spec_get_offs(vm_offs, spec_vm_dir(n_w.spec_get_atom(vm_offs)) as int)
    } else {
        o_vm.spec_offs()
    })
}

/// What a fix atom does. It reads its two operand directions; the first
/// leads to the peer that gets the new bond, the second is both the bond to
/// create and where its target atom has to be. The peer gets a vm bond if
/// it has none, else, if the peer is an if atom, a dir2 bond; with neither
/// possible the operation is skipped. A created bond costs `fix_energy` and
/// the VM follows the fix atom's own vm bond.
pub open spec fn fix_post(
    o_vm: VM,
    n_vm: VM,
    o_w: World,
    n_w: World,
    atom: Atom,
    ac: AtomConfig,
    ret: Return,
) -> bool {
    let offs0 = o_w.spec_get_offs(o_vm.spec_offs(), spec_dir1(atom) as int);
    let a0 = o_w.spec_get_atom(offs0);
    let d0 = spec_dir2(atom);
    if spec_type(a0) == 0 {
        skip_post(o_vm, n_vm, o_w, n_w, ret)
    } else if spec_type(o_w.spec_get_dir_atom(offs0, d0 as int)) == 0 {
        skip_post(o_vm, n_vm, o_w, n_w, ret)
    } else if !spec_vm_bond(a0) {
        &&& one_cell_set(o_w, n_w, offs0, spec_set_vm_dir(a0, d0))
        &&& n_vm.spec_energy() == sat_sub(o_vm.spec_energy(), ac.fix_energy as int)
        &&& n_vm.spec_offs() == next_offs(o_vm, o_w, atom)
        &&& ret == Return::Code(RET_OK)
    } else if spec_type(a0) != ATOM_IF {
        skip_post(o_vm, n_vm, o_w, n_w, ret)
    } else if !spec_dir2_bond(a0) {
        &&& one_cell_set(o_w, n_w, offs0, spec_set_dir2(a0, d0))
        &&& n_vm.spec_energy() == sat_sub(o_vm.spec_energy(), ac.fix_energy as int)
        &&& n_vm.spec_offs() == next_offs(o_vm, o_w, atom)
        &&& ret == Return::Code(RET_OK)
    } else {
        skip_post(o_vm, n_vm, o_w, n_w, ret)
    }
}

/// Bond symmetry after fix: when a fix run succeeds, the peer cell it
/// acted on now carries the bond toward the second operand direction (as a
/// vm bond or, for an if peer, as a dir2 bond), and the cell that bond
/// points at holds an atom.
pub proof fn lemma_fix_bond_symmetry(
    o_vm: VM,
    n_vm: VM,
    o_w: World,
    n_w: World,
    atom: Atom,
    ac: AtomConfig,
    ret: Return,
)
    requires
        o_w.wf(),
        o_w.spec_in_range(o_vm.spec_offs()),
        n_w.same_shape(&o_w),
        n_w@.len() == o_w@.len(),
        fix_post(o_vm, n_vm, o_w, n_w, atom, ac, ret),
        ret == Return::Code(crate::global::RET_OK),
    ensures
        ({
            let offs0 = o_w.spec_get_offs(o_vm.spec_offs(), spec_dir1(atom) as int);
            let d0 = spec_dir2(atom);
            let a1 = n_w.spec_get_atom(offs0);
            &&& (spec_vm_bond(a1) && spec_vm_dir(a1) == d0) || (spec_dir2_bond(a1) && spec_dir2(
                a1,
            ) == d0)
            &&& spec_type(n_w.spec_get_atom(n_w.spec_get_offs(offs0, d0 as int))) != 0
        }),
{
    crate::atom::lemma_empty_atom();
    crate::atom::lemma_dir_range(atom);
    let offs0 = o_w.spec_get_offs(o_vm.spec_offs(), spec_dir1(atom) as int);
    let a0 = o_w.spec_get_atom(offs0);
    let d0 = spec_dir2(atom);
    o_w.lemma_get_offs_inverse(o_vm.spec_offs(), spec_dir1(atom) as int);
    assert(0 <= d0 < 8);
    let delta = crate::global::dir_offs_val(o_w.spec_width(), d0 as int);
    let peer = offs0 + delta;
    assert(o_w.spec_in_range(peer));
    assert(o_w.spec_get_offs(offs0, d0 as int) == peer);
    if !spec_vm_bond(a0) {
        crate::atom::lemma_set_vm_dir_fields(a0, d0);
    } else {
        crate::atom::lemma_set_dir2_fields(a0, d0);
    }
}

/// What a spl atom does. Same geometry as fix, but it removes the peer's vm
/// bond (or, for an if peer, the dir2 bond) and releases `spl_energy`.
pub open spec fn spl_post(
    o_vm: VM,
    n_vm: VM,
    o_w: World,
    n_w: World,
    atom: Atom,
    ac: AtomConfig,
    ret: Return,
) -> bool {
    let offs0 = o_w.spec_get_offs(o_vm.spec_offs(), spec_dir1(atom) as int);
    let a0 = o_w.spec_get_atom(offs0);
    let d0 = spec_dir2(atom);
    if spec_type(a0) == 0 {
        skip_post(o_vm, n_vm, o_w, n_w, ret)
    } else if spec_type(o_w.spec_get_dir_atom(offs0, d0 as int)) == 0 {
        skip_post(o_vm, n_vm, o_w, n_w, ret)
    } else if spec_vm_bond(a0) {
        &&& one_cell_set(o_w, n_w, offs0, a0 & crate::global::ATOM_VM_BOND_UNMASK)
        &&& n_vm.spec_energy() == sat_add(o_vm.spec_energy(), ac.spl_energy as int)
        &&& n_vm.spec_offs() == next_offs(o_vm, o_w, atom)
        &&& ret == Return::Code(RET_OK)
    } else if spec_type(a0) != ATOM_IF {
        skip_post(o_vm, n_vm, o_w, n_w, ret)
    } else if spec_dir2_bond(a0) {
        &&& one_cell_set(o_w, n_w, offs0, a0 & crate::global::ATOM_DIR2_BOND_UNMASK)
        &&& n_vm.spec_energy() == sat_add(o_vm.spec_energy(), ac.spl_energy as int)
        &&& n_vm.spec_offs() == next_offs(o_vm, o_w, atom)
        &&& ret == Return::Code(RET_OK)
    } else {
        skip_post(o_vm, n_vm, o_w, n_w, ret)
    }
}

/// What an if atom does. The then branch fires when the atom has a dir2
/// bond and the cell its dir1 points at is occupied: the VM jumps along
/// dir2. Otherwise, with a vm bond present, the VM jumps along it. Both
/// branches cost `if_energy`; with neither bond the operation is skipped.
/// The world never changes.
pub open spec fn if_post(
    o_vm: VM,
    n_vm: VM,
    o_w: World,
    n_w: World,
    atom: Atom,
    ac: AtomConfig,
    ret: Return,
) -> bool {
    let cond = spec_type(o_w.spec_get_dir_atom(o_vm.spec_offs(), spec_dir1(atom) as int)) != 0;
    if spec_dir2_bond(atom) && cond {
        &&& n_w == o_w
        &&& n_vm.spec_offs() == o_w.spec_get_offs(o_vm.spec_offs(), spec_dir2(atom) as int)
        &&& n_vm.spec_energy() == sat_sub(o_vm.spec_energy(), ac.if_energy as int)
        &&& ret == Return::Code(RET_OK)
    } else if spec_vm_bond(atom) {
        &&& n_w == o_w
        &&& n_vm.spec_offs() == o_w.spec_get_offs(o_vm.spec_offs(), spec_vm_dir(atom) as int)
        &&& n_vm.spec_energy() == sat_sub(o_vm.spec_energy(), ac.if_energy as int)
        &&& ret == Return::Code(RET_OK)
    } else {
        skip_post(o_vm, n_vm, o_w, n_w, ret)
    }
}

/// What a job atom does. The target cell is along the atom's vm bond; when
/// it holds an atom, the VM gives half of its energy (rounded toward zero)
/// away and asks the main loop to add a new VM with that energy at the
/// target. The energy is spent even if the pool then turns out to be full.
pub open spec fn job_post(
    o_vm: VM,
    n_vm: VM,
    o_w: World,
    n_w: World,
    atom: Atom,
    ret: Return,
) -> bool {
    let d = spec_vm_dir(atom);
    if d == DIR_NO {
        skip_post(o_vm, n_vm, o_w, n_w, ret)
    } else {
        let target = o_w.spec_get_offs(o_vm.spec_offs(), d as int);
        if spec_type(o_w.spec_get_atom(target)) == 0 {
            skip_post(o_vm, n_vm, o_w, n_w, ret)
        } else {
            &&& n_w == o_w
            &&& n_vm.spec_offs() == o_vm.spec_offs()
            &&& n_vm.spec_energy() == o_vm.spec_energy() - half_trunc(o_vm.spec_energy())
            &&& ret == Return::AddVm(half_trunc(o_vm.spec_energy()) as isize, target as Offs)
        }
    }
}

impl VM {
    /// Implements the fix atom: creates a vm bond on the peer in the first
    /// operand direction (or, for an if peer that already has one, a dir2
    /// bond). Consumes energy. See [`fix_post`] for the exact behavior.
    pub fn atom_fix(&mut self, atom: Atom, cfg: &Config, vmd: &mut VMData) -> (ret: Return)
        requires
            old(vmd).wf(),
            old(vmd).world.spec_in_range(old(self).spec_offs()),
        ensures
            final(vmd).wf(),
            final(vmd).world.same_shape(&old(vmd).world),
            final(vmd).buf == old(vmd).buf,
            final(vmd).dirs_rev == old(vmd).dirs_rev,
            fix_post(
                *old(self),
                *final(self),
                old(vmd).world,
                final(vmd).world,
                atom,
                cfg.atoms,
                ret,
            ),
    {
        let offs0 = vmd.world.get_offs(self.offs, get_dir1(atom));
        let mut atom0 = vmd.world.get_atom(offs0);
        if !is_atom(atom0) {
            return Return::Code(RET_SKIPPED);
        }
        let d0 = get_dir2(atom);
        if !is_atom(vmd.world.get_dir_atom(offs0, d0)) {
            return Return::Code(RET_SKIPPED);
        }
        // fix vm bond
        if !has_vm_bond(atom0) {
            set_vm_dir(&mut atom0, d0);
            vmd.world.set_atom(offs0, atom0);
            if has_vm_bond(atom) {
                self.offs = vmd.world.get_offs(self.offs, get_vm_dir(atom));
            }
            self.dec_energy(cfg.atoms.fix_energy);
            return Return::Code(RET_OK);
        }
        if get_type(atom0) != ATOM_IF {
            return Return::Code(RET_SKIPPED);
        }
        // fix then (dir2) bond
        if !has_dir2_bond(atom0) {
            let ghost a0_orig = atom0;
            set_dir2(&mut atom0, d0);
            set_dir2_bond(&mut atom0);
            proof {
                let v = spec_set_dir2(a0_orig, d0);
                assert(v | crate::global::ATOM_DIR2_BOND_MASK == v) by (bit_vector)
                    requires
                        v == spec_set_dir2(a0_orig, d0),
                ;
            }
            vmd.world.set_atom(offs0, atom0);
            if has_vm_bond(atom) {
                self.offs = vmd.world.get_offs(self.offs, get_vm_dir(atom));
            }
            self.dec_energy(cfg.atoms.fix_energy);
            return Return::Code(RET_OK);
        }
        Return::Code(RET_SKIPPED)
    }

    /// Implements the spl atom: splits the vm bond of the peer in the first
    /// operand direction (or, for an if peer without one, its dir2 bond).
    /// Releases energy. See [`spl_post`] for the exact behavior.
    pub fn atom_spl(&mut self, atom: Atom, cfg: &Config, vmd: &mut VMData) -> (ret: Return)
        requires
            old(vmd).wf(),
            old(vmd).world.spec_in_range(old(self).spec_offs()),
        ensures
            final(vmd).wf(),
            final(vmd).world.same_shape(&old(vmd).world),
            final(vmd).buf == old(vmd).buf,
            final(vmd).dirs_rev == old(vmd).dirs_rev,
            spl_post(
                *old(self),
                *final(self),
                old(vmd).world,
                final(vmd).world,
                atom,
                cfg.atoms,
                ret,
            ),
    {
        let offs0 = vmd.world.get_offs(self.offs, get_dir1(atom));
        let mut atom0 = vmd.world.get_atom(offs0);
        if !is_atom(atom0) {
            return Return::Code(RET_SKIPPED);
        }
        let d0 = get_dir2(atom);
        if !is_atom(vmd.world.get_dir_atom(offs0, d0)) {
            return Return::Code(RET_SKIPPED);
        }
        // split vm bond
        if has_vm_bond(atom0) {
            reset_vm_bond(&mut atom0);
            vmd.world.set_atom(offs0, atom0);
            if has_vm_bond(atom) {
                self.offs = vmd.world.get_offs(self.offs, get_vm_dir(atom));
            }
            self.inc_energy(cfg.atoms.spl_energy);
            return Return::Code(RET_OK);
        }
        if get_type(atom0) != ATOM_IF {
            return Return::Code(RET_SKIPPED);
        }
        // split then (dir2) bond
        if has_dir2_bond(atom0) {
            reset_dir2_bond(&mut atom0);
            vmd.world.set_atom(offs0, atom0);
            if has_vm_bond(atom) {
                self.offs = vmd.world.get_offs(self.offs, get_vm_dir(atom));
            }
            self.inc_energy(cfg.atoms.spl_energy);
            return Return::Code(RET_OK);
        }
        Return::Code(RET_SKIPPED)
    }

    /// Implements the if atom. Depending on whether the cell in the first
    /// operand direction is occupied, the VM jumps along the dir2 bond or
    /// along the vm bond. See [`if_post`] for the exact behavior.
    pub fn atom_if(&mut self, atom: Atom, cfg: &Config, vmd: &mut VMData) -> (ret: Return)
        requires
            old(vmd).wf(),
            old(vmd).world.spec_in_range(old(self).spec_offs()),
        ensures
            final(vmd).wf(),
            *final(vmd) == *old(vmd),
            if_post(
                *old(self),
                *final(self),
                old(vmd).world,
                final(vmd).world,
                atom,
                cfg.atoms,
                ret,
            ),
    {
        // runs the if -> then scenario
        if has_dir2_bond(atom) && is_atom(vmd.world.get_dir_atom(self.offs, get_dir1(atom))) {
            self.offs = vmd.world.get_offs(self.offs, get_dir2(atom));
            self.dec_energy(cfg.atoms.if_energy);
            return Return::Code(RET_OK);
        }
        // runs the else scenario
        if has_vm_bond(atom) {
            self.offs = vmd.world.get_offs(self.offs, get_vm_dir(atom));
            self.dec_energy(cfg.atoms.if_energy);
            return Return::Code(RET_OK);
        }
        Return::Code(RET_SKIPPED)
    }

    /// Implements the job atom: asks the main loop to create one new VM
    /// with half of this VM's energy at the cell the atom's vm bond points
    /// at. The energy is halved here, whether or not the pool still has
    /// room. See [`job_post`] for the exact behavior.
    pub fn atom_job(&mut self, atom: Atom, vmd: &VMData) -> (ret: Return)
        requires
            vmd.wf(),
            vmd.world.spec_in_range(old(self).spec_offs()),
        ensures
            job_post(*old(self), *final(self), vmd.world, vmd.world, atom, ret),
    {
        let d = get_vm_dir(atom);
        if d == DIR_NO {
            return Return::Code(RET_SKIPPED);
        }
        let offs = vmd.world.get_offs(self.offs, d);
        if !is_atom(vmd.world.get_atom(offs)) {
            return Return::Code(RET_SKIPPED);
        }
        let energy = self.energy / 2;
        proof {
            assert(self.energy as int / 2 == half_trunc(self.spec_energy()) || -((-self.energy)
                as int / 2) == half_trunc(self.spec_energy()));
        }
        self.energy = self.energy - energy;
        Return::AddVm(energy, offs)
    }

    /// Repairs the bonds around the atom that has just moved from `offs`
    /// to `to_offs` one step along `dir`: its own vm bond (and, for an if
    /// atom, its dir2 bond) is rewritten, the bonds of the stationary peers
    /// that point back at it are rewritten in place, and a peer that ended
    /// up farther than one cell away is scheduled on the stack to be moved
    /// as well. Returns false when the stack is full, i.e. the move has to
    /// be abandoned. No cell changes its occupancy and no move-dot event is
    /// recorded here.
    #[verifier::loop_isolation(false)]
    #[verifier::rlimit(80)]
    fn repair_bonds(
        offs: Offs,
        to_offs: Offs,
        dir: Dir,
        vmd: &mut VMData,
        Ghost(e0len): Ghost<int>,
        Ghost(st0): Ghost<MovState>,
        Ghost(geo): Ghost<World>,
    ) -> (ok: bool)
        requires
            old(vmd).wf(),
            old(vmd).world.spec_in_range(offs as int),
            old(vmd).world.spec_in_range(to_offs as int),
            dir < 8,
            0 <= e0len <= old(vmd).world.spec_events().len(),
            old(vmd).buf.stack@.len() <= old(vmd).buf.stack.spec_cap(),
            st0.cells == old(vmd).world@,
            st0.events == old(vmd).world.spec_events().skip(e0len),
            st0.stack == old(vmd).buf.stack@,
            !st0.aborted,
            !st0.done,
            geo.spec_width() == old(vmd).world.spec_width(),
            geo.spec_size() == old(vmd).world.spec_size(),
        ensures
            final(vmd).wf(),
            final(vmd).world.same_shape(&old(vmd).world),
            final(vmd).buf.stack.spec_cap() == old(vmd).buf.stack.spec_cap(),
            final(vmd).buf.buf == old(vmd).buf.buf,
            final(vmd).dirs_rev == old(vmd).dirs_rev,
            counts_kept(old(vmd).world@, final(vmd).world@),
            forall|j: int|
                0 <= j < old(vmd).world.spec_size() ==> spec_type(
                    #[trigger] final(vmd).world@[j],
                ) == spec_type(old(vmd).world@[j]),
            final(vmd).world.spec_events().len() >= old(vmd).world.spec_events().len(),
            final(vmd).world.spec_events().take(e0len) == old(vmd).world.spec_events().take(e0len),
            mov_dests(final(vmd).world.spec_events().skip(e0len)) == mov_dests(
                old(vmd).world.spec_events().skip(e0len),
            ),
            final(vmd).buf.stack@.len() >= old(vmd).buf.stack@.len(),
            final(vmd).buf.stack@.len() <= final(vmd).buf.stack.spec_cap(),
            final(vmd).buf.stack@.take(old(vmd).buf.stack@.len() as int) == old(vmd).buf.stack@,
            forall|k: int|
                old(vmd).buf.stack@.len() <= k < final(vmd).buf.stack@.len()
                    ==> old(vmd).world.spec_in_range(#[trigger] final(vmd).buf.stack@[k] as int),
            ({
                let st1 = spec_mov_repair(
                    st0,
                    geo,
                    offs as int,
                    to_offs as int,
                    dir as int,
                    old(vmd).buf.stack.spec_cap(),
                );
                &&& final(vmd).world@ == st1.cells
                &&& final(vmd).world.spec_events().skip(e0len) == st1.events
                &&& final(vmd).buf.stack@ == st1.stack
                &&& ok == !st1.aborted
                &&& st1.moved == st0.moved
                &&& st1.energy == st0.energy
                &&& st1.done == st1.aborted
            }),
    {
        let ghost cap = vmd.buf.stack.spec_cap();
        let ghost st1g = spec_mov_repair(st0, geo, offs as int, to_offs as int, dir as int, cap);
        let mut atom2 = vmd.world.get_atom(to_offs);
        // ----- repair the vm bond of the moved atom -----
        let dir0 = get_vm_dir(atom2);
        if dir0 != DIR_NO {
            proof {
                crate::global::lemma_dir_algebra(dir0 as int, dir as int);
            }
            let d1 = crate::global::dir_mov_atom(dir0, dir);
            let o = vmd.world.get_offs(offs, dir0);
            if d1 == DIR_NO {
                // the peer is too far now; it will be moved too
                if vmd.world.is_atom(o) && dir != dir0 {
                    if !vmd.buf.stack.push(o) {
                        proof {
                            assert(geo.spec_get_offs(offs as int, dir0 as int) == o);
                            assert(st1g.aborted && st1g.done && st1g.cells == st0.cells
                                && st1g.events == st0.events && st1g.stack == st0.stack
                                && st1g.moved == st0.moved && st1g.energy == st0.energy);
                        }
                        return false;
                    }
                    proof {
                        assert(geo.spec_get_offs(offs as int, dir0 as int) == o);
                    }
                }
            } else {
                proof {
                    crate::atom::lemma_set_vm_dir_fields(atom2, d1);
                    lemma_type_keeping_set(vmd.world@, to_offs as int, spec_set_vm_dir(atom2, d1));
                    lemma_push_take_skip(
                        vmd.world.spec_events(),
                        Param::SetDot(to_offs, spec_set_vm_dir(atom2, d1)),
                        e0len,
                    );
                    lemma_mov_dests_push(
                        vmd.world.spec_events().skip(e0len),
                        Param::SetDot(to_offs, spec_set_vm_dir(atom2, d1)),
                    );
                    assert(mov_dests(vmd.world.spec_events().skip(e0len)) + Seq::<Offs>::empty()
                        =~= mov_dests(vmd.world.spec_events().skip(e0len)));
                }
                set_vm_dir(&mut atom2, d1);
                vmd.world.set_atom(to_offs, atom2);
                // ----- repair the vm bond of the near atom -----
                let d0r = vmd.dirs_rev[dir0 as usize];
                let mut a2 = vmd.world.get_atom(o);
                if get_vm_dir(a2) == d0r {
                    let dn = crate::global::dir_near_atom(d0r, dir);
                    proof {
                        crate::atom::lemma_set_vm_dir_fields(a2, dn);
                        lemma_type_keeping_set(vmd.world@, o as int, spec_set_vm_dir(a2, dn));
                        lemma_push_take_skip(
                            vmd.world.spec_events(),
                            Param::SetDot(o, spec_set_vm_dir(a2, dn)),
                            e0len,
                        );
                        lemma_mov_dests_push(
                            vmd.world.spec_events().skip(e0len),
                            Param::SetDot(o, spec_set_vm_dir(a2, dn)),
                        );
                        assert(mov_dests(vmd.world.spec_events().skip(e0len))
                            + Seq::<Offs>::empty() =~= mov_dests(
                            vmd.world.spec_events().skip(e0len),
                        ));
                    }
                    set_vm_dir(&mut a2, dn);
                    vmd.world.set_atom(o, a2);
                }
                // ----- repair the then bond of the near atom -----
                if get_type(a2) == ATOM_IF && get_dir2(a2) == d0r {
                    let dn = crate::global::dir_near_atom(d0r, dir);
                    proof {
                        crate::atom::lemma_set_dir2_fields(a2, dn);
                        lemma_type_keeping_set(vmd.world@, o as int, spec_set_dir2(a2, dn));
                        lemma_push_take_skip(
                            vmd.world.spec_events(),
                            Param::SetDot(o, spec_set_dir2(a2, dn)),
                            e0len,
                        );
                        lemma_mov_dests_push(
                            vmd.world.spec_events().skip(e0len),
                            Param::SetDot(o, spec_set_dir2(a2, dn)),
                        );
                        assert(mov_dests(vmd.world.spec_events().skip(e0len))
                            + Seq::<Offs>::empty() =~= mov_dests(
                            vmd.world.spec_events().skip(e0len),
                        ));
                    }
                    set_dir2(&mut a2, dn);
                    vmd.world.set_atom(o, a2);
                }
            }
        }
        // ----- repair the then bond of the moved atom (if atoms) -----
        if get_type(atom2) == ATOM_IF {
            let d20 = get_dir2(atom2);
            if d20 != DIR_NO {
                proof {
                    crate::global::lemma_dir_algebra(d20 as int, dir as int);
                }
                let d1 = crate::global::dir_mov_atom(d20, dir);
                let o = vmd.world.get_offs(offs, d20);
                if d1 == DIR_NO {
                    if vmd.world.is_atom(o) && dir != d20 {
                        if !vmd.buf.stack.push(o) {
                            proof {
                                assert(geo.spec_get_offs(offs as int, d20 as int) == o);
                                assert(st1g.aborted && st1g.done && st1g.moved == st0.moved
                                    && st1g.energy == st0.energy);
                                assert(vmd.world@ == st1g.cells && vmd.world.spec_events().skip(
                                    e0len,
                                ) == st1g.events && vmd.buf.stack@ == st1g.stack);
                            }
                            return false;
                        }
                        proof {
                            assert(geo.spec_get_offs(offs as int, d20 as int) == o);
                        }
                    }
                } else {
                    proof {
                        crate::atom::lemma_set_dir2_fields(atom2, d1);
                        lemma_type_keeping_set(
                            vmd.world@,
                            to_offs as int,
                            spec_set_dir2(atom2, d1),
                        );
                        lemma_push_take_skip(
                            vmd.world.spec_events(),
                            Param::SetDot(to_offs, spec_set_dir2(atom2, d1)),
                            e0len,
                        );
                        lemma_mov_dests_push(
                            vmd.world.spec_events().skip(e0len),
                            Param::SetDot(to_offs, spec_set_dir2(atom2, d1)),
                        );
                        assert(mov_dests(vmd.world.spec_events().skip(e0len))
                            + Seq::<Offs>::empty() =~= mov_dests(
                            vmd.world.spec_events().skip(e0len),
                        ));
                    }
                    set_dir2(&mut atom2, d1);
                    vmd.world.set_atom(to_offs, atom2);
                    // ----- repair the then bond of the near atom -----
                    let d0r = vmd.dirs_rev[d20 as usize];
                    let mut a2 = vmd.world.get_atom(o);
                    if get_dir2(a2) == d0r {
                        let dn = crate::global::dir_near_atom(d0r, dir);
                        proof {
                            crate::atom::lemma_set_dir2_fields(a2, dn);
                            lemma_type_keeping_set(vmd.world@, o as int, spec_set_dir2(a2, dn));
                            lemma_push_take_skip(
                                vmd.world.spec_events(),
                                Param::SetDot(o, spec_set_dir2(a2, dn)),
                                e0len,
                            );
                            lemma_mov_dests_push(
                                vmd.world.spec_events().skip(e0len),
                                Param::SetDot(o, spec_set_dir2(a2, dn)),
                            );
                            assert(mov_dests(vmd.world.spec_events().skip(e0len))
                                + Seq::<Offs>::empty() =~= mov_dests(
                                vmd.world.spec_events().skip(e0len),
                            ));
                        }
                        set_dir2(&mut a2, dn);
                        vmd.world.set_atom(o, a2);
                    }
                    // ----- repair the vm bond of the near atom -----
                    if get_vm_dir(a2) == d0r {
                        let dn = crate::global::dir_near_atom(d0r, dir);
                        proof {
                            crate::atom::lemma_set_vm_dir_fields(a2, dn);
                            lemma_type_keeping_set(vmd.world@, o as int, spec_set_vm_dir(a2, dn));
                            lemma_push_take_skip(
                                vmd.world.spec_events(),
                                Param::SetDot(o, spec_set_vm_dir(a2, dn)),
                                e0len,
                            );
                            lemma_mov_dests_push(
                                vmd.world.spec_events().skip(e0len),
                                Param::SetDot(o, spec_set_vm_dir(a2, dn)),
                            );
                            assert(mov_dests(vmd.world.spec_events().skip(e0len))
                                + Seq::<Offs>::empty() =~= mov_dests(
                                vmd.world.spec_events().skip(e0len),
                            ));
                        }
                        set_vm_dir(&mut a2, dn);
                        vmd.world.set_atom(o, a2);
                    }
                }
            }
        }
        proof {
            assert(!st1g.aborted && !st1g.done && st1g.moved == st0.moved && st1g.energy
                == st0.energy);
            assert(vmd.world@ == st1g.cells && vmd.world.spec_events().skip(e0len) == st1g.events
                && vmd.buf.stack@ == st1g.stack);
        }
        true
    }

    /// The loop of the mov operation: moves the bonded cluster rooted at
    /// the VM's offset one cell along `dir`, repairing bonds on the way.
    /// When the stack overflows (the molecule is larger than the move
    /// buffer) the rest of the move is abandoned.
    #[verifier::loop_isolation(false)]
    #[verifier::rlimit(60)]
    fn mov_cluster(&mut self, dir: Dir, cfg: &Config, vmd: &mut VMData)
        requires
            old(vmd).wf(),
            old(vmd).world.spec_in_range(old(self).spec_offs()),
            dir < 8,
        ensures
            final(vmd).wf(),
            final(vmd).world.same_shape(&old(vmd).world),
            final(vmd).buf.stack.spec_cap() == old(vmd).buf.stack.spec_cap(),
            final(vmd).dirs_rev == old(vmd).dirs_rev,
            counts_kept(old(vmd).world@, final(vmd).world@),
            final(self).spec_offs() == old(self).spec_offs(),
            final(vmd).world.spec_events().len() >= old(vmd).world.spec_events().len(),
            final(vmd).world.spec_events().take(old(vmd).world.spec_events().len() as int) == old(
                vmd,
            ).world.spec_events(),
            mov_dests(
                final(vmd).world.spec_events().skip(old(vmd).world.spec_events().len() as int),
            ).no_duplicates(),
            forall|k: int|
                0 <= k < mov_dests(
                    final(vmd).world.spec_events().skip(old(vmd).world.spec_events().len() as int),
                ).len() ==> old(vmd).world.spec_in_range(
                    #[trigger] mov_dests(
                        final(vmd).world.spec_events().skip(
                            old(vmd).world.spec_events().len() as int,
                        ),
                    )[k] as int,
                ),
            final(self).spec_energy() == sat_sub_n(
                old(self).spec_energy(),
                cfg.atoms.mov_energy as int,
                mov_dests(
                    final(vmd).world.spec_events().skip(old(vmd).world.spec_events().len() as int),
                ).len(),
            ),
            (old(vmd).buf.stack.spec_cap() >= 1 && spec_type(
                old(vmd).world.spec_get_atom(old(self).spec_offs()),
            ) != 0 && spec_type(
                old(vmd).world.spec_get_atom(
                    old(vmd).world.spec_get_offs(old(self).spec_offs(), dir as int),
                ),
            ) == 0) ==> spec_type(
                final(vmd).world.spec_get_atom(
                    old(vmd).world.spec_get_offs(old(self).spec_offs(), dir as int),
                ),
            ) != 0,
            exists|n: nat|
                ({
                    let fin = #[trigger] spec_mov_run(
                        spec_mov_init(
                            old(vmd).world,
                            old(self).spec_offs(),
                            old(self).spec_energy(),
                            old(vmd).buf.stack.spec_cap(),
                        ),
                        old(vmd).world,
                        dir as int,
                        cfg.atoms.mov_energy as int,
                        old(vmd).buf.stack.spec_cap(),
                        n,
                    );
                    &&& fin.done
                    &&& final(vmd).world@ == fin.cells
                    &&& final(vmd).world.spec_events().skip(
                        old(vmd).world.spec_events().len() as int,
                    ) == fin.events
                    &&& final(self).spec_energy() == fin.energy
                }),
    {
        broadcast use vstd::set::group_set_axioms;

        let ghost w0 = vmd.world;
        let ghost e0len = vmd.world.spec_events().len() as int;
        let ghost en0 = vmd.world.spec_events();
        let ghost energy0 = self.spec_energy();
        let ghost cost = cfg.atoms.mov_energy as int;
        let ghost root = self.spec_offs();
        let ghost to_root = w0.spec_get_offs(root, dir as int);
        let ghost rev_d = crate::global::spec_dir_rev(dir as int) as int;
        let ghost cap0 = vmd.buf.stack.spec_cap();
        let ghost mut mv: Set<int> = Set::empty();
        let ghost mut pushed: bool = false;

        proof {
            crate::global::lemma_dir_algebra(dir as int, dir as int);
            crate::atom::lemma_empty_atom();
        }
        proof {
            vmd.buf.stack.lemma_cap_nonneg();
        }
        vmd.buf.stack.clear();
        vmd.buf.buf.clear();
        let _first = vmd.buf.stack.push(self.offs);
        let ghost init_st = spec_mov_init(w0, root, energy0, cap0);
        let ghost mut mst: MovState = init_st;
        let ghost mut steps: nat = 0;
        proof {
            assert(vmd.world.spec_events().skip(e0len) =~= Seq::<Param>::empty());
            if cap0 >= 1 {
                assert(mst.stack =~= vmd.buf.stack@);
            } else {
                assert(mst.stack =~= vmd.buf.stack@);
            }
            assert(mst.moved =~= vmd.buf.buf@);
        }
        while !vmd.buf.stack.empty()
            invariant
                vmd.wf(),
                vmd.world.same_shape(&w0),
                vmd.buf.stack.spec_cap() == cap0,
                vmd.dirs_rev == old(vmd).dirs_rev,
                self.spec_offs() == root,
                vmd.buf.stack@.len() <= cap0,
                forall|k: int|
                    0 <= k < vmd.buf.stack@.len() ==> w0.spec_in_range(
                        #[trigger] vmd.buf.stack@[k] as int,
                    ),
                forall|o: Offs| #[trigger] vmd.buf.buf@.contains(o) <==> mv.contains(o as int),
                mv.finite(),
                mv.len() <= w0.spec_size(),
                forall|i: int| #[trigger] mv.contains(i) ==> w0.spec_in_range(i),
                forall|i: int| #[trigger] mv.contains(i) ==> spec_type(vmd.world@[i]) != 0,
                forall|i: int| #[trigger]
                    mv.contains(i) ==> (mv.contains(w0.spec_get_offs(i, rev_d)) || spec_type(
                        vmd.world@[w0.spec_get_offs(i, rev_d)],
                    ) == 0),
                vmd.world.spec_events().len() >= e0len,
                vmd.world.spec_events().take(e0len) == en0,
                mov_dests(vmd.world.spec_events().skip(e0len)).no_duplicates(),
                forall|k: int|
                    0 <= k < mov_dests(vmd.world.spec_events().skip(e0len)).len() ==> mv.contains(
                        #[trigger] mov_dests(vmd.world.spec_events().skip(e0len))[k] as int,
                    ),
                self.spec_energy() == sat_sub_n(
                    energy0,
                    cost,
                    mov_dests(vmd.world.spec_events().skip(e0len)).len(),
                ),
                forall|t: Atom| #[trigger] type_count(vmd.world@, t) == type_count(w0@, t),
                bond_count(vmd.world@) == bond_count(w0@),
                (cap0 >= 1 && spec_type(w0.spec_get_atom(root)) != 0 && spec_type(
                    w0.spec_get_atom(to_root),
                ) == 0) ==> (mv.contains(to_root) || (vmd.world == w0 && mv
                    == Set::<int>::empty() && vmd.buf.stack@ == seq![root as Offs])),
                pushed ==> (vmd.buf.stack@.len() >= 1 && spec_type(
                    vmd.world@[vmd.buf.stack@.last() as int],
                ) != 0 && !mv.contains(vmd.buf.stack@.last() as int)),
                mst == spec_mov_run(init_st, w0, dir as int, cost, cap0, steps),
                !mst.done,
                !mst.aborted,
                mst.cells == vmd.world@,
                mst.events == vmd.world.spec_events().skip(e0len),
                mst.stack == vmd.buf.stack@,
                mst.moved == vmd.buf.buf@,
                mst.energy == self.spec_energy(),
            decreases
                    w0.spec_size() - mv.len(),
                    (if pushed {
                        0int
                    } else {
                        1int
                    }),
                    (if pushed {
                        cap0 + 1 - vmd.buf.stack@.len()
                    } else {
                        vmd.buf.stack@.len() as int
                    }),
        {
            let offs = vmd.buf.stack.last().unwrap();
            if vmd.buf.buf.contains(&offs) || !vmd.world.is_atom(offs) {
                // this atom was already moved or it does not exist
                vmd.buf.stack.shrink();
                proof {
                    pushed = false;
                    mst = spec_mov_step(mst, w0, dir as int, cost, cap0);
                    steps = steps + 1;
                }
                continue ;
            }
            let to_offs = vmd.world.get_offs(offs, dir);
            if vmd.world.is_atom(to_offs) {
                // cannot move the atom: another one is there and must move
                // first
                proof {
                    w0.lemma_get_offs_inverse(offs as int, dir as int);
                    if mv.contains(to_offs as int) {
                        assert(w0.spec_get_offs(to_offs as int, rev_d) == offs as int);
                        assert(false);
                    }
                }
                if !vmd.buf.stack.push(to_offs) {
                    // the molecule is larger than the move buffer: abandon
                    // the rest of the move
                    proof {
                        let fin = spec_mov_run(init_st, w0, dir as int, cost, cap0, steps + 1);
                        assert(fin == spec_mov_step(mst, w0, dir as int, cost, cap0));
                        assert(fin.done && fin.cells == vmd.world@ && fin.events
                            == vmd.world.spec_events().skip(e0len) && fin.energy
                            == self.spec_energy());
                    }
                    return ;
                }
                proof {
                    pushed = true;
                    mst = spec_mov_step(mst, w0, dir as int, cost, cap0);
                    steps = steps + 1;
                }
                continue ;
            }
            // the destination cell is empty: move the atom there
            vmd.buf.stack.shrink();
            let ghost w_pre = vmd.world;
            let ghost dests_pre = mov_dests(vmd.world.spec_events().skip(e0len));
            proof {
                lemma_move_counts(vmd.world@, offs as int, to_offs as int);
                lemma_push_take_skip(
                    vmd.world.spec_events(),
                    Param::MoveDot(offs, to_offs, vmd.world@[offs as int]),
                    e0len,
                );
                lemma_mov_dests_push(
                    vmd.world.spec_events().skip(e0len),
                    Param::MoveDot(offs, to_offs, vmd.world@[offs as int]),
                );
                if dests_pre.contains(to_offs) {
                    let k = choose|k: int| 0 <= k < dests_pre.len() && dests_pre[k] == to_offs;
                    assert(mv.contains(to_offs as int));
                }
                lemma_no_dup_push(dests_pre, to_offs);
            }
            vmd.world.mov_atom(offs, to_offs);
            let _inserted = vmd.buf.buf.insert(to_offs);
            let ghost mv_old = mv;
            proof {
                w0.lemma_get_offs_inverse(offs as int, dir as int);
                mv = mv.insert(to_offs as int);
                pushed = false;
                assert(mv.subset_of(vstd::set_lib::set_int_range(0, w0.spec_size())));
                vstd::set_lib::lemma_int_range(0, w0.spec_size());
                vstd::set_lib::lemma_len_subset(
                    mv,
                    vstd::set_lib::set_int_range(0, w0.spec_size()),
                );
            }
            self.dec_energy(cfg.atoms.mov_energy);
            let ghost w_mid = vmd.world;
            let ghost st_pre = vmd.buf.stack@;
            let ghost stm = MovState {
                cells: vmd.world@,
                events: vmd.world.spec_events().skip(e0len),
                stack: vmd.buf.stack@,
                moved: vmd.buf.buf@,
                energy: self.spec_energy(),
                aborted: false,
                done: false,
            };
            proof {
                // the exec state right before the repair is exactly the
                // machine's post-move state
                assert(stm =~= MovState {
                    cells: mst.cells.update(to_offs as int, mst.cells[offs as int]).update(
                        offs as int,
                        crate::global::ATOM_EMPTY,
                    ),
                    events: mst.events.push(Param::MoveDot(offs, to_offs, mst.cells[offs as int])),
                    stack: mst.stack.drop_last(),
                    moved: mst.moved.insert(to_offs),
                    energy: sat_sub(mst.energy, cost),
                    ..mst
                });
            }
            let ok = VM::repair_bonds(offs, to_offs, dir, vmd, Ghost(e0len), Ghost(stm), Ghost(w0));
            proof {
                mst = spec_mov_step(mst, w0, dir as int, cost, cap0);
                steps = steps + 1;
                assert(mst == spec_mov_repair(
                    stm,
                    w0,
                    offs as int,
                    to_offs as int,
                    dir as int,
                    cap0,
                ));
                let wp2 = vmd.world;
                assert(spec_type(w_mid@[offs as int]) == 0);
                assert(spec_type(wp2@[offs as int]) == spec_type(w_mid@[offs as int]));
                assert forall|k: int| 0 <= k < vmd.buf.stack@.len() implies w0.spec_in_range(
                    #[trigger] vmd.buf.stack@[k] as int,
                ) by {
                    if k < st_pre.len() {
                        assert(vmd.buf.stack@.take(st_pre.len() as int)[k] == vmd.buf.stack@[k]);
                    }
                }
                assert forall|i: int| #[trigger] mv.contains(i) implies spec_type(wp2@[i]) != 0 && (
                mv.contains(w0.spec_get_offs(i, rev_d)) || spec_type(
                    wp2@[w0.spec_get_offs(i, rev_d)],
                ) == 0) by {
                    let si = w0.spec_get_offs(i, rev_d);
                    w0.lemma_get_offs_inverse(i, rev_d);
                    if i == to_offs as int {
                        assert(si == offs as int);
                        assert(spec_type(wp2@[si]) == 0);
                        assert(spec_type(w_mid@[i]) == spec_type(w_pre@[offs as int]));
                        assert(spec_type(wp2@[i]) == spec_type(w_mid@[i]));
                    } else {
                        assert(mv_old.contains(i));
                        assert(i != offs as int);
                        assert(spec_type(w_mid@[i]) == spec_type(w_pre@[i]));
                        assert(spec_type(wp2@[i]) == spec_type(w_mid@[i]));
                        if !mv.contains(si) {
                            assert(!mv_old.contains(si) && si != to_offs as int);
                            assert(spec_type(w_pre@[si]) == 0);
                            if si == offs as int {
                                assert(spec_type(w_mid@[si]) == 0);
                            } else {
                                assert(spec_type(w_mid@[si]) == spec_type(w_pre@[si]));
                            }
                            assert(spec_type(wp2@[si]) == spec_type(w_mid@[si]));
                        }
                    }
                }
            }
            if !ok {
                // the molecule is larger than the move buffer: abandon the
                // rest of the move
                proof {
                    assert(mst.done && mst.cells == vmd.world@ && mst.events
                        == vmd.world.spec_events().skip(e0len) && mst.energy
                        == self.spec_energy());
                    assert(mst == spec_mov_run(init_st, w0, dir as int, cost, cap0, steps));
                }
                return ;
            }
        }
        proof {
            // the stack is empty: one more machine step finishes the run
            let fin = spec_mov_run(init_st, w0, dir as int, cost, cap0, steps + 1);
            assert(fin == spec_mov_step(mst, w0, dir as int, cost, cap0));
            assert(fin.done && fin.cells == vmd.world@ && fin.events == vmd.world.spec_events().skip(
                e0len,
            ) && fin.energy == self.spec_energy());
        }
    }

    /// Implements the mov atom: moves the current atom and all atoms bonded
    /// to it one cell along the atom's first operand direction. No bond is
    /// broken: either the other endpoint moves too, or the bond's direction
    /// fields on both ends are rewritten by the rules of
    /// [`spec_dir_mov_atom`] and [`spec_dir_near_atom`]. Afterwards the VM
    /// follows the vm bond of the atom one step ahead. See [`mov_post`] for
    /// the exact contract: the result is precisely a finished run of the
    /// mov machine; a molecule larger than the move buffer is moved only
    /// partially.
    pub fn atom_mov(&mut self, atom: Atom, cfg: &Config, vmd: &mut VMData) -> (ret: Return)
        requires
            old(vmd).wf(),
            old(vmd).world.spec_in_range(old(self).spec_offs()),
        ensures
            final(vmd).wf(),
            final(vmd).world.same_shape(&old(vmd).world),
            final(vmd).buf.stack.spec_cap() == old(vmd).buf.stack.spec_cap(),
            final(vmd).dirs_rev == old(vmd).dirs_rev,
            mov_post(
                *old(self),
                *final(self),
                old(vmd).world,
                final(vmd).world,
                atom,
                cfg.atoms,
                old(vmd).buf.stack.spec_cap(),
            ),
            ret == Return::Code(RET_OK),
    {
        let dir = get_dir1(atom);
        let vm_offs = vmd.world.get_offs(self.offs, dir);
        self.mov_cluster(dir, cfg, vmd);
        let a = vmd.world.get_atom(vm_offs);
        if a != crate::global::ATOM_EMPTY && has_vm_bond(a) {
            // the VM follows the vm bond of the atom now ahead of it
            self.offs = vmd.world.get_offs(vm_offs, get_vm_dir(a));
        }
        Return::Code(RET_OK)
    }

    /// Runs one atom depending on its type and moves the VM to the next
    /// atom depending on the atom's direction. An empty cell (and the two
    /// unused type slots) runs nothing. See [`run_post`] for the per-type
    /// behavior.
    pub fn run_atom(&mut self, cfg: &Config, vmd: &mut VMData) -> (ret: Return)
        requires
            old(vmd).wf(),
        ensures
            final(vmd).wf(),
            final(vmd).world.same_shape(&old(vmd).world),
            final(vmd).buf.stack.spec_cap() == old(vmd).buf.stack.spec_cap(),
            final(vmd).dirs_rev == old(vmd).dirs_rev,
            run_post(*old(self), *final(self), *old(vmd), *final(vmd), cfg.atoms, ret),
    {
        let atom: Atom = vmd.world.get_atom(self.offs);
        let atom_type = get_type(atom);
        if atom_type == crate::global::ATOM_EMPTY {
            return Return::Code(RET_SKIPPED);
        }
        proof {
            // a non-empty atom came out of the world, so the offset hits a cell
            crate::atom::lemma_empty_atom();
            assert(vmd.world.spec_in_range(self.spec_offs()));
        }
        match atom_type {
            1 => self.atom_mov(atom, cfg, vmd),
            2 => self.atom_fix(atom, cfg, vmd),
            3 => self.atom_spl(atom, cfg, vmd),
            4 => self.atom_if(atom, cfg, vmd),
            5 => self.atom_job(atom, vmd),
            _ => self.atom_empty(atom, vmd),
        }
    }

    /// Just a stub for an empty atom in a world.
    fn atom_empty(&mut self, _atom: Atom, _vmd: &mut VMData) -> (ret: Return)
        ensures
            *final(self) == *old(self),
            *final(_vmd) == *old(_vmd),
            ret == Return::Code(RET_SKIPPED),
    {
        Return::Code(RET_SKIPPED)
    }
}

} // verus!
