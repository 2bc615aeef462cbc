use rusp::env::{Env, EnvHeap};
use rusp::expr::{num, text};

#[test]
fn test_set() {
    let mut heap = EnvHeap::new();
    let env = Env::new(&mut heap);
    assert_eq!(env.lookup(&heap, "one"), None);
    env.define(&mut heap, "one", num(1));
    assert_eq!(env.lookup(&heap, "one"), Some(num(1)));
}

#[test]
fn test_update() {
    let mut heap = EnvHeap::new();
    let env = Env::new(&mut heap);
    assert_eq!(env.update(&mut heap, "name", num(1)), false);

    env.define(&mut heap, "name", num(0));
    assert_eq!(env.update(&mut heap, "name", num(1)), true);
}

#[test]
fn test_lookup() {
    let mut heap = EnvHeap::new();
    let env = Env::new(&mut heap);
    assert_eq!(env.lookup(&heap, "one"), None);
    env.define(&mut heap, "one", num(1));
    assert_eq!(env.lookup(&heap, "one"), Some(num(1)));
}

#[test]
fn test_derive_update() {
    let mut heap = EnvHeap::new();
    let base = Env::new(&mut heap);
    let derived = base.derive(&mut heap);

    base.define(&mut heap, "one", num(1));
    derived.define(&mut heap, "two", num(2));

    assert_eq!(derived.update(&mut heap, "one", text("uno")), true);
    assert_eq!(derived.update(&mut heap, "two", text("dos")), true);

    // the write to `one` went to the base scope, not the derived one
    assert_eq!(base.lookup(&heap, "one"), Some(text("uno")));
    assert!(heap.records[derived.id]
        .vars
        .iter()
        .all(|kv| kv.0 != "one"));
    assert_eq!(derived.lookup(&heap, "two"), Some(text("dos")));
}

#[test]
fn test_derive_lookup() {
    let mut heap = EnvHeap::new();
    let base = Env::new(&mut heap);
    let derived = base.derive(&mut heap);

    assert_eq!(derived.lookup(&heap, "two"), None);
    base.define(&mut heap, "two", num(2));
    assert_eq!(derived.lookup(&heap, "two"), Some(num(2)));

    derived.define(&mut heap, "three", num(3));
    assert_eq!(base.lookup(&heap, "three"), None);
    assert_eq!(derived.lookup(&heap, "three"), Some(num(3)));
}

#[test]
fn test_clone() {
    let mut heap = EnvHeap::new();
    let original = Env::new(&mut heap);
    let cloned = original.clone();

    original.define(&mut heap, "one", num(1));
    assert_eq!(cloned.lookup(&heap, "one"), Some(num(1)));
}
