//! Tests of saving and loading dumps: plain data in, plain data out, and
//! the round trip through an empty core of the same configuration.
use irma4::cfg::{AtomConfig, Config};
use irma4::dump::{AtomDump, Block, Dump, VmDump};
use irma4::global::ATOM_EMPTY;
use irma4::vm::VM;
use irma4::Core;

fn cfg10() -> Config {
    Config::with_values(
        10,
        10,
        1024,
        1024,
        false,
        false,
        false,
        0,
        AtomConfig { mov_energy: 1, fix_energy: 1, spl_energy: 1, if_energy: 0 },
    )
}

#[test]
fn dump_test_new() {
    let d = Dump::new();
    assert_eq!(d.width == 0 && d.height == 0, true);
    assert_eq!(d.blocks.len(), 0);
}
#[test]
fn test_load() {
    let mut core = Core::new(cfg10());
    let dump = Dump {
        width: 10,
        height: 10,
        blocks: vec![Block {
            atoms: vec![AtomDump { a: 58434, x: 0, y: 0 }],
            vms: vec![VmDump { x: 0, y: 0, e: 123 }],
        }],
    };
    assert_eq!(core.vm_data.world.get_atom(0), ATOM_EMPTY);
    assert_eq!(core.vm_data.world.get_atom(1), ATOM_EMPTY);
    assert_eq!(core.vms.size(), 0);
    assert_eq!(Dump::load_dump(&dump, &mut core), true);
    assert_eq!(core.vm_data.world.get_atom(0), 58434);
    assert_eq!(core.vm_data.world.get_atom(1), ATOM_EMPTY);
    assert_eq!(core.vms.size(), 1);
}
#[test]
fn test_load1() {
    let mut core = Core::new(cfg10());
    let dump = Dump {
        width: 10,
        height: 10,
        blocks: vec![Block {
            atoms: vec![
                AtomDump { a: 58434, x: 0, y: 0 },
                AtomDump { a: 58435, x: 1, y: 1 },
            ],
            vms: vec![VmDump { x: 0, y: 0, e: 123 }, VmDump { x: 1, y: 1, e: 124 }],
        }],
    };
    assert_eq!(core.vm_data.world.get_atom(0), ATOM_EMPTY);
    assert_eq!(core.vm_data.world.get_atom(1), ATOM_EMPTY);
    assert_eq!(core.vms.size(), 0);
    assert_eq!(Dump::load_dump(&dump, &mut core), true);
    assert_eq!(core.vm_data.world.get_atom(0), 58434);
    assert_eq!(core.vm_data.world.get_atom(11), 58435);
    assert_eq!(core.vms.size(), 2);
    assert_eq!(core.vms.get(0).get_offs(), 0);
    assert_eq!(core.vms.get(0).get_energy(), 123);
    assert_eq!(core.vms.get(1).get_offs(), 11);
    assert_eq!(core.vms.get(1).get_energy(), 124);
}
#[test]
fn test_load_wrong_dimensions() {
    let mut core = Core::new(cfg10());
    let dump = Dump {
        width: 11,
        height: 10,
        blocks: vec![Block {
            atoms: vec![AtomDump { a: 58434, x: 0, y: 0 }],
            vms: vec![],
        }],
    };
    assert_eq!(Dump::load_dump(&dump, &mut core), false);
    assert_eq!(core.vm_data.world.get_atom(0), ATOM_EMPTY);
    assert_eq!(core.vms.size(), 0);
}
#[test]
fn test_load_skips_out_of_range_entries() {
    let mut core = Core::new(cfg10());
    let dump = Dump {
        width: 10,
        height: 10,
        blocks: vec![Block {
            atoms: vec![
                AtomDump { a: 58434, x: 0, y: 20 },
                AtomDump { a: 58435, x: -1, y: 0 },
                AtomDump { a: 58436, x: 5, y: 5 },
            ],
            vms: vec![VmDump { x: 0, y: 20, e: 9 }, VmDump { x: 2, y: 2, e: 8 }],
        }],
    };
    assert_eq!(Dump::load_dump(&dump, &mut core), true);
    assert_eq!(core.vm_data.world.get_atom(55), 58436);
    for o in 0..55 {
        assert_eq!(core.vm_data.world.get_atom(o), ATOM_EMPTY);
    }
    assert_eq!(core.vms.size(), 1);
    assert_eq!(core.vms.get(0).get_offs(), 22);
    assert_eq!(core.vms.get(0).get_energy(), 8);
}
#[test]
fn test_save() {
    let mut core = Core::new(cfg10());
    core.vm_data.world.set_atom(0, 58434);
    core.vm_data.world.set_atom(11, 20000);
    core.vms.add(VM::new(123, 0));
    let d = Dump::save_dump(&core);
    assert_eq!(d.width, 10);
    assert_eq!(d.height, 10);
    assert_eq!(d.blocks.len(), 1);
    assert_eq!(d.blocks[0].atoms.len(), 2);
    assert_eq!(d.blocks[0].atoms[0], AtomDump { a: 58434, x: 0, y: 0 });
    assert_eq!(d.blocks[0].atoms[1], AtomDump { a: 20000, x: 1, y: 1 });
    assert_eq!(d.blocks[0].vms.len(), 1);
    assert_eq!(d.blocks[0].vms[0], VmDump { x: 0, y: 0, e: 123 });
}
#[test]
fn test_save_load_round_trip() {
    let mut core = Core::new(cfg10());
    core.vm_data.world.set_atom(0, 0x20C0);
    core.vm_data.world.set_atom(11, 0x2EC0);
    core.vm_data.world.set_atom(99, 0x60C0);
    core.vms.add(VM::new(100, 0));
    core.vms.add(VM::new(50, 99));
    let d = Dump::save_dump(&core);

    let mut fresh = Core::new(cfg10());
    assert_eq!(Dump::load_dump(&d, &mut fresh), true);
    for o in 0..100 {
        assert_eq!(fresh.vm_data.world.get_atom(o), core.vm_data.world.get_atom(o));
    }
    assert_eq!(fresh.vms.size(), core.vms.size());
    for k in 0..core.vms.size() {
        assert_eq!(fresh.vms.get(k).get_offs(), core.vms.get(k).get_offs());
        assert_eq!(fresh.vms.get(k).get_energy(), core.vms.get(k).get_energy());
    }
}
