//! Tests of the event bus: subscribing, firing and unsubscribing. The bus
//! hands back the active subscriber handles in order; the host invokes
//! them.
use irma4::io::events::{
    EVENT_LOAD_DUMP, EVENT_MOVE_DOT, EVENT_QUIT, EVENT_RUN, EVENT_SAVE_DUMP, EVENT_SET_DOT,
};
use irma4::io::{Param, IO};

#[test]
fn mod_test_new() {
    let mut io = IO::new();
    let cb = 1u64;
    io.on(EVENT_RUN, cb);
    let fired = io.fire(EVENT_RUN, &Param::Empty);
    assert_eq!(fired, vec![cb]);
}
#[test]
fn test_on_fire() {
    let mut io = IO::new();
    let cb = 7u64;
    io.on(EVENT_SAVE_DUMP, cb);
    let fired = io.fire(EVENT_SAVE_DUMP, &Param::SaveAtoms(String::from("file")));
    assert_eq!(fired, vec![cb]);
}
#[test]
fn test_fire_should_not_affect_other_handlers() {
    let mut io = IO::new();
    io.on(EVENT_SAVE_DUMP, 10);
    io.on(EVENT_SET_DOT, 11);
    io.on(EVENT_MOVE_DOT, 12);
    io.on(EVENT_RUN, 13);
    io.on(EVENT_QUIT, 14);
    io.on(EVENT_LOAD_DUMP, 15);

    let fired = io.fire(EVENT_SAVE_DUMP, &Param::SaveAtoms(String::from("data")));
    assert_eq!(fired, vec![10]);
    assert!(!fired.contains(&11) && !fired.contains(&12) && !fired.contains(&13));
    assert!(!fired.contains(&14) && !fired.contains(&15));
}
#[test]
fn test_off() {
    let mut io = IO::new();
    let cb = 3u64;
    let id = io.on(EVENT_RUN, cb);
    let fired = io.fire(EVENT_RUN, &Param::Empty);
    assert_eq!(fired, vec![cb]);

    io.off(EVENT_RUN, id);
    let fired = io.fire(EVENT_RUN, &Param::Empty);
    assert_eq!(fired.len(), 0);
}
#[test]
fn test_off_keeps_other_ids() {
    let mut io = IO::new();
    let id0 = io.on(EVENT_RUN, 20);
    let id1 = io.on(EVENT_RUN, 21);
    let id2 = io.on(EVENT_RUN, 22);
    assert_eq!((id0, id1, id2), (0, 1, 2));
    io.off(EVENT_RUN, id1);
    let fired = io.fire(EVENT_RUN, &Param::Empty);
    assert_eq!(fired, vec![20, 22]);
}
