//! Concrete end-to-end scenarios on a 10 by 10 torus, driven through the
//! core's tick.
use irma4::cfg::{AtomConfig, Config};
use irma4::global::ATOM_EMPTY;
use irma4::vm::VM;
use irma4::Core;

fn core10(max_vms: usize) -> Core {
    let cfg = Config::with_values(
        10,
        10,
        1024,
        max_vms,
        false,
        true,
        false,
        0,
        AtomConfig { mov_energy: 1, fix_energy: 1, spl_energy: 1, if_energy: 0 },
    );
    Core::new(cfg)
}

#[test]
fn scenario_single_mov_empty_target() {
    let mut core = core10(2);
    core.vm_data.world.set_atom(0, 0x20C0);
    core.vms.add(VM::new(100, 0));

    core.tick(0);

    assert_eq!(core.vm_data.world.get_atom(0), ATOM_EMPTY);
    assert_eq!(core.vm_data.world.get_atom(1), 0x20C0);
    assert_eq!(core.vms.get(0).get_energy(), 99);
    assert_eq!(core.vms.get(0).get_offs(), 0);
}
#[test]
fn scenario_two_atom_bonded_mov() {
    let mut core = core10(2);
    core.vm_data.world.set_atom(0, 0x2EC0);
    core.vm_data.world.set_atom(1, 0x60C0);
    core.vms.add(VM::new(100, 0));

    core.tick(0);

    assert_eq!(core.vm_data.world.get_atom(0), ATOM_EMPTY);
    assert_eq!(core.vm_data.world.get_atom(1), 0x2EC0);
    assert_eq!(core.vm_data.world.get_atom(2), 0x60C0);
    assert_eq!(core.vms.get(0).get_energy(), 98);
    assert_eq!(core.vms.get(0).get_offs(), 2);
}
#[test]
fn scenario_diagonal_bond_rewrite() {
    let mut core = core10(2);
    core.vm_data.world.set_atom(0, 0x32C0);
    core.vm_data.world.set_atom(11, 0x6200);
    core.vms.add(VM::new(100, 0));

    core.tick(0);

    assert_eq!(core.vm_data.world.get_atom(0), ATOM_EMPTY);
    assert_eq!(core.vm_data.world.get_atom(1), 0x36C0);
    assert_eq!(core.vm_data.world.get_atom(11), 0x6600);
    assert_eq!(core.vms.get(0).get_offs(), 11);
}
#[test]
fn scenario_fix_creates_vm_bond() {
    let mut core = core10(2);
    // fix atom at 12: dir1 points right at the peer, dir2 points right too
    core.vm_data.world.set_atom(12, 0x40DA);
    // the peer without any vm bond, and an atom right of it
    core.vm_data.world.set_atom(13, 0x2000);
    core.vm_data.world.set_atom(14, 0x2000);
    core.vms.add(VM::new(100, 12));

    core.tick(0);

    assert_eq!(core.vm_data.world.get_atom(13), 0x2E00);
    assert!(irma4::atom::has_vm_bond(core.vm_data.world.get_atom(13)));
    assert_eq!(irma4::atom::get_vm_dir(core.vm_data.world.get_atom(13)), 3);
    assert_eq!(core.vms.get(0).get_energy(), 99);
}
#[test]
fn scenario_spl_removes_vm_bond() {
    let mut core = core10(2);
    // same geometry, but the acting atom is a spl and the peer is bonded
    core.vm_data.world.set_atom(12, 0x60DA);
    core.vm_data.world.set_atom(13, 0x2E00);
    core.vm_data.world.set_atom(14, 0x2000);
    core.vms.add(VM::new(100, 12));

    core.tick(0);

    assert_eq!(core.vm_data.world.get_atom(13), 0x2C00);
    assert!(!irma4::atom::has_vm_bond(core.vm_data.world.get_atom(13)));
    assert_eq!(core.vms.get(0).get_energy(), 101);
}
#[test]
fn scenario_job_spawns_vm() {
    let mut core = core10(2);
    // job atom at 0 whose vm bond points right at an occupied cell
    core.vm_data.world.set_atom(0, 0xAE00);
    core.vm_data.world.set_atom(1, 0x2000);
    core.vms.add(VM::new(40, 0));

    core.tick(0);

    assert_eq!(core.vms.size(), 2);
    assert_eq!(core.vms.get(0).get_energy(), 20);
    assert_eq!(core.vms.get(1).get_energy(), 20);
    assert_eq!(core.vms.get(1).get_offs(), 1);
}
#[test]
fn scenario_if_then_branch() {
    let mut core = core10(2);
    // if atom at 0: dir1 right (occupied), dir2 down with bond, vm bond up
    let mut a: u16 = 0x8000;
    irma4::atom::set_vm_dir(&mut a, 1);
    irma4::atom::set_dir2(&mut a, 5);
    let a = a | 0x00C0;
    core.vm_data.world.set_atom(0, a);
    core.vm_data.world.set_atom(1, 0x2000);
    core.vms.add(VM::new(100, 0));

    core.tick(0);

    assert_eq!(core.vms.get(0).get_offs(), 10);
    assert_eq!(core.vms.get(0).get_energy(), 100);
}
#[test]
fn scenario_if_else_branch() {
    let mut core = core10(2);
    // same if atom, but the dir1 cell is empty: the vm bond is followed
    let mut a: u16 = 0x8000;
    irma4::atom::set_vm_dir(&mut a, 5);
    irma4::atom::set_dir2(&mut a, 3);
    let a = a | 0x00C0;
    core.vm_data.world.set_atom(0, a);
    core.vms.add(VM::new(100, 0));

    core.tick(0);

    assert_eq!(core.vms.get(0).get_offs(), 10);
}
#[test]
fn scenario_paused_core_does_nothing() {
    let mut core = core10(2);
    core.cfg.is_running = false;
    core.vm_data.world.set_atom(0, 0x20C0);
    core.vms.add(VM::new(100, 0));

    let r = core.tick(0);

    assert_eq!(r, 0);
    assert_eq!(core.vm_data.world.get_atom(0), 0x20C0);
    assert_eq!(core.vms.get(0).get_energy(), 100);
}
#[test]
fn scenario_exhausted_vm_is_removed() {
    let mut core = core10(2);
    core.vm_data.world.set_atom(0, 0x20C0);
    core.vms.add(VM::new(1, 0));

    core.tick(0);

    assert_eq!(core.vms.size(), 0);
    assert_eq!(core.vm_data.world.get_atom(1), 0x20C0);
}
#[test]
fn scenario_quit_idempotent() {
    let mut core = core10(2);
    assert!(!core.cfg.stopped);
    core.on_quit();
    assert!(core.cfg.stopped);
    let running = core.cfg.is_running;
    core.on_quit();
    assert!(core.cfg.stopped);
    assert_eq!(core.cfg.is_running, running);
}
#[test]
fn scenario_run_toggles() {
    let mut core = core10(2);
    let before = core.cfg.is_running;
    core.on_run();
    assert_eq!(core.cfg.is_running, !before);
    core.on_run();
    assert_eq!(core.cfg.is_running, before);
}
#[test]
fn test_config_defaults() {
    let cfg = irma4::cfg::Config::new();
    assert_eq!(cfg.WIDTH(), 1920);
    assert_eq!(cfg.HEIGHT(), 1080);
    assert_eq!(cfg.MOV_BUF_SIZE(), 1024);
    assert_eq!(cfg.MAX_VM_AMOUNT(), 1024);
    assert_eq!(cfg.AUTORUN(), false);
    assert_eq!(cfg.is_running, false);
    assert_eq!(cfg.stopped, false);
    assert_eq!(cfg.frame_delay, 0);
    assert_eq!(cfg.atoms().mov_energy, 1);
    assert_eq!(cfg.atoms().fix_energy, 1);
    assert_eq!(cfg.atoms().spl_energy, 1);
    assert_eq!(cfg.atoms().if_energy, 0);
}
