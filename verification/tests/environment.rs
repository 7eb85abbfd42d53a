use mal::eval::builtin::defaults;
use mal::types::env::{EnvVal, EnvironmentBuilder, Frames};
use mal::types::{MalAtom, MalVal, NativeFn};
use vstd::hash_map::StringHashMap;

fn num(i: i64) -> MalVal {
    MalVal::Atom(MalAtom::Int(i))
}

fn value(found: Option<EnvVal>) -> Option<MalVal> {
    match found {
        Some(EnvVal::Val(v)) => Some(v),
        _ => None,
    }
}

fn native(found: Option<EnvVal>) -> Option<NativeFn> {
    match found {
        Some(EnvVal::NativeFn(f)) => Some(f),
        _ => None,
    }
}

#[test]
fn root_frame_is_empty() {
    let mut frames = Frames::new();
    assert_eq!(frames.len(), 0);
    let root = EnvironmentBuilder::new().build(&mut frames);
    assert_eq!(frames.len(), 1);
    assert!(root.get(&frames, "a").is_none());
    assert!(root.find(&frames, "a").is_none());
    assert!(root.get(&frames, "+").is_none());
}

#[test]
fn set_then_get() {
    let mut frames = Frames::new();
    let root = EnvironmentBuilder::new().build(&mut frames);
    root.set(&mut frames, "a".to_string(), num(1));
    assert_eq!(value(root.get(&frames, "a")), Some(num(1)));
    assert_eq!(root.find(&frames, "a"), Some(root));
    root.set(&mut frames, "a".to_string(), num(2));
    assert_eq!(value(root.get(&frames, "a")), Some(num(2)));
    assert!(root.get(&frames, "b").is_none());
}

#[test]
fn child_delegates_to_parent() {
    let mut frames = Frames::new();
    let root = EnvironmentBuilder::new().build(&mut frames);
    let child = EnvironmentBuilder::new()
        .with_parent(&root)
        .build(&mut frames);
    let grandchild = EnvironmentBuilder::new()
        .with_parent(&child)
        .build(&mut frames);
    root.set(&mut frames, "a".to_string(), num(1));
    assert_eq!(value(grandchild.get(&frames, "a")), Some(num(1)));
    assert_eq!(grandchild.find(&frames, "a"), Some(root));
    child.set(&mut frames, "b".to_string(), num(2));
    assert_eq!(grandchild.find(&frames, "b"), Some(child));
    assert!(root.get(&frames, "b").is_none());
}

#[test]
fn shadowing_does_not_touch_the_parent() {
    let mut frames = Frames::new();
    let root = EnvironmentBuilder::new().build(&mut frames);
    let child = EnvironmentBuilder::new()
        .with_parent(&root)
        .build(&mut frames);
    root.set(&mut frames, "a".to_string(), num(1));
    child.set(&mut frames, "a".to_string(), num(2));
    assert_eq!(value(child.get(&frames, "a")), Some(num(2)));
    assert_eq!(value(root.get(&frames, "a")), Some(num(1)));
    assert_eq!(child.find(&frames, "a"), Some(child));
    assert_eq!(root.find(&frames, "a"), Some(root));
}

#[test]
fn parent_changes_are_seen_by_the_child() {
    let mut frames = Frames::new();
    let root = EnvironmentBuilder::new().build(&mut frames);
    let child = EnvironmentBuilder::new()
        .with_parent(&root)
        .build(&mut frames);
    assert!(child.get(&frames, "late").is_none());
    root.set(&mut frames, "late".to_string(), num(3));
    assert_eq!(value(child.get(&frames, "late")), Some(num(3)));
}

#[test]
fn native_names_resolve_last() {
    let mut frames = Frames::new();
    let root = EnvironmentBuilder::new()
        .with_builtins(defaults())
        .build(&mut frames);
    let child = EnvironmentBuilder::new()
        .with_parent(&root)
        .build(&mut frames);
    assert_eq!(native(child.get(&frames, "+")), Some(NativeFn::Add));
    assert_eq!(child.get_native(&frames, "+"), Some(NativeFn::Add));
    assert_eq!(child.find(&frames, "+"), Some(root));
    // a binding anywhere on the chain comes before the registry
    root.set(&mut frames, "+".to_string(), num(1));
    assert_eq!(value(child.get(&frames, "+")), Some(num(1)));
    assert_eq!(child.get_native(&frames, "+"), Some(NativeFn::Add));
    assert_eq!(child.get_native(&frames, "plus"), None);
}

#[test]
fn later_builtins_replace_earlier_ones() {
    let mut first: StringHashMap<NativeFn> = StringHashMap::new();
    first.insert("op".to_string(), NativeFn::Add);
    first.insert("keep".to_string(), NativeFn::List);
    let mut second: StringHashMap<NativeFn> = StringHashMap::new();
    second.insert("op".to_string(), NativeFn::Mul);
    let mut frames = Frames::new();
    let root = EnvironmentBuilder::new()
        .with_builtins(first)
        .with_builtins(second)
        .build(&mut frames);
    assert_eq!(root.get_native(&frames, "op"), Some(NativeFn::Mul));
    assert_eq!(root.get_native(&frames, "keep"), Some(NativeFn::List));
}

#[test]
fn nearest_registry_answers() {
    let mut outer: StringHashMap<NativeFn> = StringHashMap::new();
    outer.insert("op".to_string(), NativeFn::Add);
    let mut inner: StringHashMap<NativeFn> = StringHashMap::new();
    inner.insert("op".to_string(), NativeFn::Mul);
    let mut frames = Frames::new();
    let root = EnvironmentBuilder::new()
        .with_builtins(outer)
        .build(&mut frames);
    let child = EnvironmentBuilder::new()
        .with_builtins(inner)
        .with_parent(&root)
        .build(&mut frames);
    assert_eq!(child.get_native(&frames, "op"), Some(NativeFn::Mul));
    assert_eq!(root.get_native(&frames, "op"), Some(NativeFn::Add));
    assert_eq!(child.find(&frames, "op"), Some(child));
}

#[test]
fn handle_of_another_arena_is_an_empty_scope() {
    let mut big = Frames::new();
    let root = EnvironmentBuilder::new().build(&mut big);
    let far = EnvironmentBuilder::new()
        .with_parent(&root)
        .build(&mut big);

    let mut small = Frames::new();
    let only = EnvironmentBuilder::new().build(&mut small);
    only.set(&mut small, "a".to_string(), num(1));
    assert!(far.get(&small, "a").is_none());
    assert!(far.find(&small, "a").is_none());
    far.set(&mut small, "a".to_string(), num(2));
    assert_eq!(small.len(), 1);
    assert_eq!(value(only.get(&small, "a")), Some(num(1)));
    // its child has no enclosing frame
    let orphan = EnvironmentBuilder::new()
        .with_parent(&far)
        .build(&mut small);
    assert!(orphan.get(&small, "a").is_none());
}

#[test]
fn resolved_values_are_copies() {
    let mut frames = Frames::new();
    let root = EnvironmentBuilder::new().build(&mut frames);
    let list = MalVal::List(vec![num(1), MalVal::List(vec![num(2)])]);
    root.set(&mut frames, "l".to_string(), list.clone());
    assert_eq!(value(root.get(&frames, "l")), Some(list.clone()));
    let found = root.get(&frames, "l").unwrap();
    assert_eq!(value(Some(found.clone())), Some(list));
}
