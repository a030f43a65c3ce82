use epiqs::vm::{Heliqs, NodeArena, SymbolTable, Epiq};

#[test]
fn define_then_resolve() {
    let mut st = SymbolTable::new(vec![]);
    st.define("abc", 7);
    assert_eq!(st.resolve("abc"), Some(Some(7)));
    assert_eq!(st.resolve("xyz"), None);
}

#[test]
fn redefine_keeps_first_binding() {
    let mut st = SymbolTable::new(vec![]);
    st.define("abc", 7);
    st.define("abc", 9);
    assert_eq!(st.resolve("abc"), Some(Some(7)));
}

#[test]
fn define_keeps_other_names() {
    let mut st = SymbolTable::new(vec![]);
    st.define("abc", 7);
    st.define("def", 8);
    assert_eq!(st.resolve("abc"), Some(Some(7)));
    assert_eq!(st.resolve("def"), Some(Some(8)));
}

#[test]
fn inner_frame_shadows_until_popped() {
    let mut st = SymbolTable::new(vec![]);
    st.define("abc", 7);
    st.extend();
    assert_eq!(st.depth(), 2);
    assert_eq!(st.resolve("abc"), Some(Some(7)));
    st.define("abc", 9);
    assert_eq!(st.resolve("abc"), Some(Some(9)));
    st.pop();
    assert_eq!(st.depth(), 1);
    assert_eq!(st.resolve("abc"), Some(Some(7)));
}

#[test]
fn arena_entry_follows_allocation() {
    let mut arena = NodeArena::<u8>::new();
    assert_eq!(arena.entry(), None);
    assert_eq!(arena.max_id(), None);
    let a = arena.allocate(1);
    let b = arena.allocate(2);
    assert_eq!((a, b), (0, 1));
    assert_eq!(arena.entry(), Some(1));
    assert_eq!(arena.max_id(), Some(1));
    arena.set_entry(0);
    assert_eq!(arena.entry(), Some(0));
    assert_eq!(arena.get(0).1, 1);
    assert_eq!(arena.get(1).1, 2);
}

#[test]
fn arena_resolves_to_nodes() {
    let mut arena = NodeArena::<u8>::new();
    let a = arena.allocate(42);
    arena.define("answer", a);
    match arena.resolve("answer") {
        Some(Some(node)) => assert_eq!((node.0, node.1), (0, 42)),
        _ => panic!("answer is not bound"),
    }
    assert!(arena.resolve("question").is_none());
    assert_eq!(arena.resolve_id("answer"), Some(0));
}

#[test]
fn machine_output_accumulates() {
    let mut vm = Heliqs::new();
    vm.write_out("ab");
    vm.write_out("c");
    assert_eq!(vm.output(), "abc");
    let i = vm.allocate(Epiq::Uit8(3));
    assert_eq!(vm.get_epiq(i), &Epiq::Uit8(3));
    assert_eq!(vm.entry(), Some(0));
}

#[test]
fn pop_undoes_extend_and_its_definitions() {
    let mut st = SymbolTable::new(vec![]);
    st.define("a", 1);
    st.extend();
    st.define("a", 2);
    st.define("b", 3);
    assert_eq!(st.resolve("b"), Some(Some(3)));
    st.pop();
    assert_eq!(st.resolve("a"), Some(Some(1)));
    assert_eq!(st.resolve("b"), None);
}

#[test]
fn machine_takes_a_part_allocated_later() {
    let mut vm = Heliqs::new();
    let first = vm.allocate(Epiq::Eval(0, 1));
    let second = vm.allocate(Epiq::Uit8(7));
    assert_eq!(vm.get_epiq(first), &Epiq::Eval(0, 1));
    assert_eq!(vm.get_epiq(second), &Epiq::Uit8(7));
    vm.set_epiq(second, Epiq::Lpiq(1, 0));
    assert_eq!(vm.get_epiq(second), &Epiq::Lpiq(1, 0));
    assert_eq!(vm.len(), 2);
}
