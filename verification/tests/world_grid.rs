//! Tests of the toroidal world grid.
use irma4::cfg::Config;
use irma4::global::{
    ATOM_EMPTY, DIR_DOWN, DIR_DOWN_LEFT, DIR_LEFT, DIR_LEFT_UP, DIR_RIGHT, DIR_RIGHT_DOWN, DIR_UP,
    DIR_UP_RIGHT, Offs,
};
use irma4::world::World;

#[test]
fn world_test_new() {
    let w: i32 = 10;
    let world = World::new(w as usize, w as usize, Config::get_dir_offs(w));

    assert_eq!(world.width, w as usize);
    assert_eq!(world.height, w as usize);
    assert_eq!(world.get_atom(0), ATOM_EMPTY);
    assert_eq!(world.get_atom(10), ATOM_EMPTY);
    assert_eq!(world.get_atom(90), ATOM_EMPTY);
}
#[test]
fn test_get_offs() {
    let w: i32 = 10;
    let world = World::new(w as usize, w as usize, Config::get_dir_offs(w));
    assert_eq!(world.get_offs(11, DIR_UP), 1);
    assert_eq!(world.get_offs(11, DIR_UP_RIGHT), 2);
    assert_eq!(world.get_offs(11, DIR_RIGHT), 12);
    assert_eq!(world.get_offs(11, DIR_RIGHT_DOWN), 22);
    assert_eq!(world.get_offs(11, DIR_DOWN), 21);
    assert_eq!(world.get_offs(11, DIR_DOWN_LEFT), 20);
    assert_eq!(world.get_offs(11, DIR_LEFT), 10);
    assert_eq!(world.get_offs(11, DIR_LEFT_UP), 0);
}
#[test]
fn test_get_offs_min_max() {
    let w: i32 = 10;
    let world = World::new(w as usize, w as usize, Config::get_dir_offs(w));
    assert_eq!(world.get_offs(0, DIR_UP), (w * w - 10) as Offs);
    assert_eq!(world.get_offs(0, DIR_UP_RIGHT), (w * w - 9) as Offs);
    assert_eq!(world.get_offs(0, DIR_LEFT), (w * w - 1) as Offs);
    assert_eq!(world.get_offs(0, DIR_LEFT_UP), (w * w - 11) as Offs);

    assert_eq!(world.get_offs(99, DIR_RIGHT), 0);
    assert_eq!(world.get_offs(99, DIR_RIGHT_DOWN), 10);
    assert_eq!(world.get_offs(99, DIR_DOWN), 9);
    assert_eq!(world.get_offs(99, DIR_DOWN_LEFT), 8);
}
#[test]
fn test_get_atom() {
    let w: i32 = 10;
    let mut world = World::new(w as usize, w as usize, Config::get_dir_offs(w));
    let atom = 65535;
    assert_eq!(world.get_atom(0), ATOM_EMPTY);
    world.set_atom(0, atom);
    assert_eq!(world.get_atom(0), atom);
    for i in 1..w * w {
        assert_eq!(world.get_atom(i as Offs), ATOM_EMPTY)
    }
}
#[test]
fn test_get_atom_min_max() {
    let w: i32 = 10;
    let mut world = World::new(w as usize, w as usize, Config::get_dir_offs(w));
    let atom = 65535;
    assert_eq!(world.get_atom(0), ATOM_EMPTY);
    world.set_atom(0, atom);
    world.set_atom((w * w - 1) as Offs, atom);
    assert_eq!(world.get_atom(0), atom);
    for i in 1..w * w - 1 {
        assert_eq!(world.get_atom(i as Offs), ATOM_EMPTY)
    }
}
#[test]
fn test_get_dir_atom() {
    let w: i32 = 10;
    let mut world = World::new(w as usize, w as usize, Config::get_dir_offs(w));
    let atom = 65535;
    assert_eq!(world.get_atom(0), ATOM_EMPTY);
    world.set_atom(11, atom);

    assert_eq!(world.get_dir_atom(1, DIR_DOWN), atom);
    assert_eq!(world.get_dir_atom(2, DIR_DOWN_LEFT), atom);
    assert_eq!(world.get_dir_atom(12, DIR_LEFT), atom);
    assert_eq!(world.get_dir_atom(22, DIR_LEFT_UP), atom);
    assert_eq!(world.get_dir_atom(21, DIR_UP), atom);
    assert_eq!(world.get_dir_atom(20, DIR_UP_RIGHT), atom);
    assert_eq!(world.get_dir_atom(10, DIR_RIGHT), atom);
    assert_eq!(world.get_dir_atom(0, DIR_RIGHT_DOWN), atom);
}
#[test]
fn test_get_dir_atom_min_max() {
    let w: i32 = 10;
    let mut world = World::new(w as usize, w as usize, Config::get_dir_offs(w));
    let atom = 65535;
    assert_eq!(world.get_atom(0), ATOM_EMPTY);
    assert_eq!(world.get_atom((w * w - 1) as Offs), ATOM_EMPTY);
    world.set_atom(0, atom);
    world.set_atom((w * w - 1) as Offs, atom);

    assert_eq!(world.get_dir_atom(0, DIR_UP), ATOM_EMPTY);
    assert_eq!(world.get_dir_atom(0, DIR_UP_RIGHT), ATOM_EMPTY);
    assert_eq!(world.get_dir_atom(0, DIR_LEFT), ATOM_EMPTY);
    assert_eq!(world.get_dir_atom(0, DIR_LEFT_UP), ATOM_EMPTY);

    assert_eq!(world.get_dir_atom(99, DIR_RIGHT), ATOM_EMPTY);
    assert_eq!(world.get_dir_atom(99, DIR_RIGHT_DOWN), ATOM_EMPTY);
    assert_eq!(world.get_dir_atom(99, DIR_DOWN), ATOM_EMPTY);
    assert_eq!(world.get_dir_atom(99, DIR_DOWN_LEFT), ATOM_EMPTY);
}
#[test]
fn test_set_atom() {
    let w: i32 = 10;
    let mut world = World::new(w as usize, w as usize, Config::get_dir_offs(w));
    let atom = 128;

    for a in 0..(w * w - 1) {
        assert_eq!(world.get_atom(a as Offs), ATOM_EMPTY)
    }
    world.set_atom(0, atom);
    assert_eq!(world.get_atom(0 as Offs), atom);
    for a in 1..(w * w - 1) {
        assert_eq!(world.get_atom(a as Offs), ATOM_EMPTY)
    }
    world.set_atom(10, atom);
    assert_eq!(world.get_atom(0 as Offs), atom);
    for a in 1..10 {
        assert_eq!(world.get_atom(a as Offs), ATOM_EMPTY)
    }
    for a in 11..(w * w - 1) {
        assert_eq!(world.get_atom(a as Offs), ATOM_EMPTY)
    }
}
#[test]
fn test_set_atom_max() {
    let w: i32 = 10;
    let mut world = World::new(w as usize, w as usize, Config::get_dir_offs(w));
    let atom = 128;
    let max_offs: Offs = (w * w - 1) as Offs;

    for a in 0..max_offs {
        assert_eq!(world.get_atom(a as Offs), ATOM_EMPTY)
    }
    world.set_atom((w * w * w) as Offs, atom);
    for a in 0..max_offs {
        assert_eq!(world.get_atom(a as Offs), ATOM_EMPTY)
    }
}
#[test]
fn test_mov_atom() {
    let w: i32 = 10;
    let mut world = World::new(w as usize, w as usize, Config::get_dir_offs(w));
    let atom = 128;
    let max_offs: Offs = (w * w - 1) as Offs;

    for a in 0..max_offs {
        assert_eq!(world.get_atom(a as Offs), ATOM_EMPTY)
    }
    world.set_atom(0, atom);
    world.mov_atom(0, 1);
    assert_eq!(world.get_atom(1), atom);
    for a in 2..max_offs {
        assert_eq!(world.get_atom(a as Offs), ATOM_EMPTY)
    }
    world.mov_atom(1, 0);
    for a in 1..max_offs {
        assert_eq!(world.get_atom(a as Offs), ATOM_EMPTY)
    }
}
#[test]
fn test_mov_atom_min_max() {
    let w: i32 = 10;
    let mut world = World::new(w as usize, w as usize, Config::get_dir_offs(w));
    let atom = 128;
    let max_offs: Offs = (w * w - 1) as Offs;

    for a in 0..max_offs {
        assert_eq!(world.get_atom(a as Offs), ATOM_EMPTY)
    }
    world.set_atom(0, atom);
    world.mov_atom(0, max_offs + 1);
    assert_eq!(world.get_atom(0), atom);
    for a in 1..max_offs {
        assert_eq!(world.get_atom(a as Offs), ATOM_EMPTY)
    }

    world.mov_atom(max_offs + 1, 1);
    assert_eq!(world.get_atom(0), atom);
    for a in 1..max_offs {
        assert_eq!(world.get_atom(a as Offs), ATOM_EMPTY)
    }

    world.mov_atom(max_offs + 1, max_offs + 2);
    assert_eq!(world.get_atom(0), atom);
    for a in 1..max_offs {
        assert_eq!(world.get_atom(a as Offs), ATOM_EMPTY)
    }
}
#[test]
fn test_get_offs_stays_in_range() {
    let w: i32 = 10;
    let world = World::new(w as usize, w as usize, Config::get_dir_offs(w));
    for offs in 0..(w * w) as Offs {
        for d in 0u8..8 {
            let r = world.get_offs(offs, d);
            assert!(0 <= r && r < (w * w) as Offs);
        }
    }
}
