use epiqs::evaluator::{EvalError, Evaluator};
use epiqs::vm::{AbstractSyntaxTree, Epiq};

fn tpiq(o: &str, p: usize, q: usize) -> Epiq {
    Epiq::Tpiq { o: o.to_string(), p, q }
}

#[test]
fn evaluator_applies_block() {
    let mut ast = AbstractSyntaxTree::new();
    ast.push(Epiq::Unit);
    ast.push(Epiq::Uit8(0));
    ast.push(tpiq("%", 0, 0));
    ast.push(tpiq("\\", 2, 1));
    ast.push(tpiq("!", 3, 0));
    ast.push_and_entry(tpiq(">", 0, 4));
    let mut ev = Evaluator::new(ast);
    assert_eq!(ev.walk(), Ok(()));
    let ast = ev.into_ast();
    assert_eq!(ast.entrypoint, Some(6));
    assert_eq!(ast.get(6), &Epiq::Uit8(0));
}

#[test]
fn evaluator_binds_and_resolves() {
    let mut ast = AbstractSyntaxTree::new();
    ast.push(Epiq::Unit);
    ast.push(Epiq::Name("abc".to_string()));
    ast.push(Epiq::Uit8(1234));
    ast.push(tpiq("#", 1, 2));
    ast.push(Epiq::Unit);
    ast.push(Epiq::Name("abc".to_string()));
    ast.push(tpiq("@", 4, 5));
    ast.push(Epiq::Unit);
    ast.push(tpiq(":", 6, 7));
    ast.push(tpiq(":", 3, 8));
    ast.push(Epiq::Mpiq { o: ">".to_string(), p: 0, q: 9 });
    ast.push_and_entry(tpiq(">", 0, 10));
    let mut ev = Evaluator::new(ast);
    assert_eq!(ev.walk(), Ok(()));
    let ast = ev.into_ast();
    assert_eq!(ast.entrypoint, Some(14));
    assert_eq!(ast.get(14), &Epiq::Uit8(1234));
}

#[test]
fn evaluator_walks_parts() {
    let mut ast = AbstractSyntaxTree::new();
    ast.push(Epiq::Name("x".to_string()));
    ast.push(Epiq::Uit8(5));
    ast.push(tpiq("#", 0, 1));
    ast.push(tpiq(">", 0, 2));
    ast.push(Epiq::Uit8(9));
    ast.push_and_entry(tpiq("Pair", 3, 4));
    let mut ev = Evaluator::new(ast);
    assert_eq!(ev.walk(), Ok(()));
    let ast = ev.into_ast();
    assert_eq!(ast.get(6), &Epiq::Unit);
    assert_eq!(ast.get(7), &Epiq::Unit);
    assert_eq!(ast.get(8), &tpiq("Pair", 7, 4));
    assert_eq!(ast.entrypoint, Some(8));
}

#[test]
fn evaluator_unbound_name_stays() {
    let mut ast = AbstractSyntaxTree::new();
    ast.push(Epiq::Unit);
    ast.push(Epiq::Name("nothing".to_string()));
    ast.push(tpiq("@", 0, 1));
    ast.push_and_entry(tpiq(">", 0, 2));
    let mut ev = Evaluator::new(ast);
    assert_eq!(ev.walk(), Ok(()));
    let ast = ev.into_ast();
    assert_eq!(ast.entrypoint, Some(3));
    assert_eq!(ast.len(), 4);
}

#[test]
fn evaluator_no_entry() {
    let mut ev = Evaluator::new(AbstractSyntaxTree::new());
    assert_eq!(ev.walk(), Err(EvalError::NoEntry));
}

#[test]
fn evaluator_block_body_that_grows_the_tree() {
    let mut ast = AbstractSyntaxTree::new();
    ast.push(Epiq::Unit);
    ast.push(Epiq::Name("x".to_string()));
    ast.push(tpiq("#", 1, 0));
    ast.push(tpiq(">", 0, 2));
    ast.push(tpiq("\\", 0, 3));
    ast.push(tpiq("!", 4, 0));
    ast.push_and_entry(tpiq(">", 0, 5));
    let mut ev = Evaluator::new(ast);
    assert_eq!(ev.walk(), Err(EvalError::Borrowed));
}

#[test]
fn evaluator_binding_result_is_the_new_max_index() {
    let mut ast = AbstractSyntaxTree::new();
    ast.push(Epiq::Name("x".to_string()));
    ast.push(Epiq::Uit8(5));
    ast.push(tpiq("#", 0, 1));
    ast.push_and_entry(tpiq(">", 0, 2));
    let mut ev = Evaluator::new(ast);
    assert_eq!(ev.walk(), Ok(()));
    let ast = ev.into_ast();
    assert_eq!(ast.get(4), &Epiq::Unit);
    assert_eq!(ast.get(5), &Epiq::Unit);
    assert_eq!(ast.max_index, 5);
    assert_eq!(ast.entrypoint, Some(5));
}

#[test]
fn evaluator_reads_parts_after_the_piq() {
    let mut ast = AbstractSyntaxTree::new();
    ast.push_and_entry(tpiq(">", 1, 2));
    ast.push(Epiq::Unit);
    ast.push(Epiq::Uit8(5));
    let mut ev = Evaluator::new(ast);
    assert_eq!(ev.walk(), Ok(()));
    let ast = ev.into_ast();
    assert_eq!(ast.entrypoint, Some(0));
    assert_eq!(ast.get(2), &Epiq::Uit8(5));
}

#[test]
fn evaluator_binds_through_a_later_piq() {
    let mut ast = AbstractSyntaxTree::new();
    ast.push_and_entry(tpiq(">", 1, 3));
    ast.push(Epiq::Unit);
    ast.push(Epiq::Uit8(5));
    ast.push(tpiq("#", 4, 2));
    ast.push(Epiq::Name("x".to_string()));
    let mut ev = Evaluator::new(ast);
    assert_eq!(ev.walk(), Ok(()));
    let ast = ev.into_ast();
    assert_eq!(ast.entrypoint, Some(6));
    assert_eq!(ast.get(5), &Epiq::Unit);
    assert_eq!(ast.get(6), &Epiq::Unit);
}

#[test]
fn evaluator_stops_on_a_cycle() {
    let mut ast = AbstractSyntaxTree::new();
    ast.push_and_entry(tpiq("Pair", 0, 0));
    let mut ev = Evaluator::new(ast);
    assert_eq!(ev.walk_with_fuel(50), Err(EvalError::Exhausted));
    let ast = ev.into_ast();
    assert_eq!(ast.entrypoint, Some(0));
}

#[test]
fn evaluator_refuses_a_missing_part() {
    let mut ast = AbstractSyntaxTree::new();
    ast.push_and_entry(tpiq(">", 0, 7));
    let mut ev = Evaluator::new(ast);
    assert_eq!(ev.walk(), Err(EvalError::Dangling));
}
