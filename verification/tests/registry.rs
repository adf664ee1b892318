use std::cell::Cell;
use std::rc::Rc;

use unixbar::registry::Registry;

fn counting(count: &Rc<Cell<u32>>) -> Box<dyn FnMut()> {
    let count = count.clone();
    Box::new(move || count.set(count.get() + 1))
}

#[test]
fn new_registry_is_empty() {
    let mut fns: Registry<Box<dyn FnMut()>> = Registry::new();
    assert!(!fns.has("anything"));
    assert!(!fns.has(""));
    assert!(!fns.invoke("anything"));
}

#[test]
fn invoke_runs_the_callback_once() {
    let (a, b) = (Rc::new(Cell::new(0)), Rc::new(Cell::new(0)));
    let mut fns = Registry::new();
    fns.register("a", counting(&a));
    fns.register("b", counting(&b));
    assert!(fns.has("a") && fns.has("b"));
    assert!(fns.invoke("a"));
    assert_eq!((a.get(), b.get()), (1, 0));
    assert!(fns.invoke("b"));
    assert!(fns.invoke("b"));
    assert_eq!((a.get(), b.get()), (1, 2));
}

#[test]
fn unknown_name_changes_nothing() {
    let a = Rc::new(Cell::new(0));
    let mut fns = Registry::new();
    fns.register("a", counting(&a));
    assert!(!fns.invoke("b"));
    assert!(!fns.invoke("A"));
    assert!(!fns.invoke("a "));
    assert!(!fns.invoke(""));
    assert_eq!(a.get(), 0);
    assert!(fns.has("a"));
}

#[test]
fn second_registration_replaces_the_first() {
    let (old, new) = (Rc::new(Cell::new(0)), Rc::new(Cell::new(0)));
    let mut fns = Registry::new();
    fns.register("click", counting(&old));
    fns.register("other", counting(&old));
    fns.register("click", counting(&new));
    assert!(fns.invoke("click"));
    assert_eq!((old.get(), new.get()), (0, 1));
    assert!(fns.invoke("other"));
    assert_eq!((old.get(), new.get()), (1, 1));
}

#[test]
fn names_are_compared_character_by_character() {
    let hits = Rc::new(Cell::new(0));
    let mut fns = Registry::new();
    fns.register("lautstärke", counting(&hits));
    assert!(!fns.invoke("lautstarke"));
    assert!(fns.invoke("lautstärke"));
    assert_eq!(hits.get(), 1);
}
