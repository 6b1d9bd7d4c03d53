//! Tests of the atom operators, run directly on a VM against a world.
use irma4::cfg::{AtomConfig, Config};
use irma4::global::{ATOM_EMPTY, Atom, Offs};
use irma4::vm::vmdata::VMData;
use irma4::vm::VM;

fn cfg10(max_vms: usize) -> Config {
    let _ = max_vms;
    Config::with_values(
        10,
        10,
        1024,
        max_vms,
        false,
        false,
        false,
        0,
        AtomConfig { mov_energy: 1, fix_energy: 1, spl_energy: 1, if_energy: 0 },
    )
}

fn vmdata(cfg: &Config) -> VMData {
    VMData::new(cfg.WIDTH(), cfg.HEIGHT(), cfg.DIR_TO_OFFS(), cfg.MOV_BUF_SIZE())
}

fn set_atoms(atoms: &Vec<(Offs, Atom)>, vmd: &mut VMData) {
    for (o, a) in atoms {
        vmd.world.set_atom(*o, *a);
    }
    check_offs(atoms, vmd, 100);
}

fn check_offs(offs: &Vec<(Offs, Atom)>, vmd: &VMData, size: usize) {
    for o in 0..size {
        let a = vmd.world.get_atom(o as isize);
        if !offs.contains(&(o as isize, a)) {
            assert_eq!(a, ATOM_EMPTY)
        }
    }
    for (o, a) in offs {
        assert_eq!(vmd.world.get_atom(*o), *a)
    }
}

#[test]
fn test_run_atom_empty() {
    let cfg = cfg10(1);
    let mut vmd = vmdata(&cfg);
    let atom = 0b0010_0000_1100_0000;
    let mut vm = VM::new(100, 0);

    set_atoms(&vec![(1, atom)], &mut vmd);
    vm.run_atom(&cfg, &mut vmd);
    check_offs(&vec![(1, atom)], &vmd, 100);
    assert_eq!(vm.get_energy(), 100);
    assert_eq!(vm.get_offs(), 0);
}
#[test]
fn test_run_atom_spl() {
    let cfg = cfg10(1);
    let mut vmd = vmdata(&cfg);
    let atom = 0b0110_0000_1100_0000;
    let mut vm = VM::new(100, 0);

    set_atoms(&vec![(0, atom)], &mut vmd);
    vm.run_atom(&cfg, &mut vmd);
    check_offs(&vec![(0, atom)], &vmd, 100);
}
#[test]
fn test_one_atom_mov() {
    let cfg = cfg10(1);
    let mut vmd = vmdata(&cfg);
    let atom = 0b0010_0000_1100_0000;
    let mut vm = VM::new(100, 0);

    set_atoms(&vec![(0, atom)], &mut vmd);
    vm.atom_mov(atom, &cfg, &mut vmd);
    assert_eq!(vmd.world.get_atom(1), atom);
}
#[test]
fn test_two_atom_mov0() {
    let cfg = cfg10(1);
    let mut vmd = vmdata(&cfg);
    let atom0 = 0b0010_1110_1100_0000;
    let atom1 = 0b0110_0000_1100_0000;
    let mut vm = VM::new(100, 0);

    set_atoms(&vec![(0, atom0), (1, atom1)], &mut vmd);
    vm.atom_mov(atom0, &cfg, &mut vmd);
    check_offs(&vec![(1, atom0), (2, atom1)], &vmd, 100);
    assert_eq!(vm.get_offs(), 2);
}
#[test]
fn test_two_atom_mov1() {
    let cfg = cfg10(1);
    let mut vmd = vmdata(&cfg);
    let atom0 = 0b0010_1110_1100_0000;
    let atom1 = 0b0111_1110_0000_0000;
    let mut vm = VM::new(100, 0);

    set_atoms(&vec![(0, atom0), (1, atom1)], &mut vmd);
    vm.atom_mov(atom0, &cfg, &mut vmd);
    check_offs(&vec![(1, atom0), (2, atom1)], &vmd, 100);
    assert_eq!(vm.get_offs(), 2);
}
#[test]
fn test_two_atom_mov2() {
    let cfg = cfg10(1);
    let mut vmd = vmdata(&cfg);
    let atom0 = 0b0011_0010_1100_0000;
    let atom1 = 0b0110_0010_0000_0000;
    let mut vm = VM::new(100, 0);

    set_atoms(&vec![(0, atom0), (11, atom1)], &mut vmd);
    vm.atom_mov(atom0, &cfg, &mut vmd);
    check_offs(&vec![(1, 0b0011_0110_1100_0000), (11, 0b0110_0110_0000_0000)], &vmd, 100);
    assert_eq!(vm.get_offs(), 11);
}
#[test]
fn test_two_atom_mov3() {
    let cfg = cfg10(1);
    let mut vmd = vmdata(&cfg);
    let atom0 = 0b0110_1110_0000_0000;
    let atom1 = 0b0011_1110_1100_0000;
    let mut vm = VM::new(100, 1);

    set_atoms(&vec![(0, atom0), (1, atom1)], &mut vmd);
    vm.atom_mov(atom1, &cfg, &mut vmd);
    check_offs(&vec![(1, atom0), (2, atom1)], &vmd, 100);
    assert_eq!(vm.get_offs(), 1);
}
#[test]
fn test_two_atom_mov4() {
    let cfg = cfg10(1);
    let mut vmd = vmdata(&cfg);
    let atom0 = 0b0111_0010_0000_0000;
    let atom1 = 0b0010_0011_0000_0000;
    let mut vm = VM::new(100, 11);

    set_atoms(&vec![(0, atom0), (11, atom1)], &mut vmd);
    vm.atom_mov(atom1, &cfg, &mut vmd);
    check_offs(&vec![(11, atom0), (22, atom1)], &vmd, 100);
    assert_eq!(vm.get_offs(), 11);
}
#[test]
fn test_two_atom_mov5() {
    let cfg = cfg10(1);
    let mut vmd = vmdata(&cfg);
    let atom0 = 0b0110_1110_0000_0000;
    let atom1 = 0b0011_1110_1100_0000;
    let atom2 = 0b0110_0000_0000_0000;
    let mut vm = VM::new(100, 1);

    set_atoms(&vec![(0, atom0), (1, atom1), (2, atom2)], &mut vmd);
    vm.atom_mov(atom1, &cfg, &mut vmd);
    check_offs(&vec![(1, atom0), (2, atom1), (3, atom2)], &vmd, 100);
    assert_eq!(vm.get_offs(), 1);
}
#[test]
fn test_two_atom_mov6() {
    let cfg = cfg10(1);
    let mut vmd = vmdata(&cfg);
    let atom0 = 0b0110_0000_0000_0000;
    let atom1 = 0b0110_0000_0000_0000;
    let atom2 = 0b0010_0010_1100_0000;
    let mut vm = VM::new(100, 11);

    set_atoms(&vec![(0, atom0), (1, atom1), (11, atom2)], &mut vmd);
    vm.atom_mov(atom2, &cfg, &mut vmd);
    check_offs(&vec![(1, atom0), (2, atom1), (12, atom2)], &vmd, 100);
    assert_eq!(vm.get_offs(), 1);
}
#[test]
fn test_mov_energy_per_atom() {
    let cfg = cfg10(1);
    let mut vmd = vmdata(&cfg);
    let atom0 = 0b0010_1110_1100_0000;
    let atom1 = 0b0110_0000_1100_0000;
    let mut vm = VM::new(100, 0);

    set_atoms(&vec![(0, atom0), (1, atom1)], &mut vmd);
    vm.atom_mov(atom0, &cfg, &mut vmd);
    assert_eq!(vm.get_energy(), 98);
}
