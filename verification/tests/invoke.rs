use schling_common::invoke::Invoke;
use std::cell::Cell;
use std::rc::Rc;

#[test]
fn a_callback_answers_every_call() {
    let double = Invoke::from_fn(|x: u32| x * 2);
    assert_eq!(double.emit(4), Some(8));
    assert_eq!(double.emit(5), Some(10));
    let copy = double.clone();
    assert_eq!(copy.emit(6), Some(12));
}

#[test]
fn a_once_only_callback_answers_one_call() {
    let owned = String::from("moved in");
    let once = Invoke::<fn(u32) -> String, _>::once(move |x: u32| format!("{} {}", owned, x));
    let copy = once.clone();
    assert_eq!(copy.emit(1), Some("moved in 1".to_string()));
    assert_eq!(once.emit(2), None);
    assert_eq!(copy.emit(3), None);
}

#[test]
fn the_noop_callback_answers_with_the_default() {
    let noop = Invoke::<fn(&str) -> u32>::noop();
    assert_eq!(noop.emit("anything"), Some(0));
    assert_eq!(noop.emit("again"), Some(0));
    let noop = Invoke::<fn(u8) -> String>::noop();
    assert_eq!(noop.emit(1), Some(String::new()));
}

#[test]
fn copies_share_the_callback() {
    let calls = Rc::new(Cell::new(0));
    let seen = calls.clone();
    let count = Invoke::from_fn(move |step: u32| {
        seen.set(seen.get() + step);
        seen.get()
    });
    let copy = count.clone();
    assert_eq!(count.emit(1), Some(1));
    assert_eq!(copy.emit(2), Some(3));
    assert_eq!(calls.get(), 3);
}
