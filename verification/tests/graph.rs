use epiqs::vm::{Epiq, NodeArena};

#[test]
fn make() {
    let _arena = NodeArena::<u8>::new();
}

#[test]
fn arena_alloc() {
    let mut arena = NodeArena::<u8>::new();
    assert_eq!(arena.allocate(46), 0);
}

#[test]
fn get() {
    let mut arena = NodeArena::<u8>::new();
    let _node_id = arena.allocate(46);
}

#[test]
fn get_mut() {
    let mut arena = NodeArena::<u8>::new();
    let node_id = arena.allocate(46);
    {
        let node = arena.get_mut(node_id);
        node.1 = 87;
    }
    assert_eq!(arena.get(node_id).1, 87);
}

#[test]
fn epiq_arena_get() {
    let mut arena = NodeArena::<Epiq>::new();
    let node_id = arena.allocate(Epiq::Unit);
    {
        let node = arena.get_mut(node_id);
        node.1 = Epiq::Name("wowow".to_string());
    }
    assert_eq!(arena.get(node_id).1, Epiq::Name("wowow".to_string()));
}
