use epiqs::lexer::{all_scanners, Lexer};
use epiqs::parser::Parser;
use epiqs::printer::{evaled_str, evaluate, only_evaluate, printed_str, Printer};
use epiqs::vm::{Epiq, Heliqs};
use epiqs::walker::{WalkError, Walker};

fn parsed(s: &str) -> Heliqs {
    let lexer = Lexer::new(s.as_bytes(), all_scanners());
    let parser = Parser::new(lexer);
    let mut vm = Heliqs::new();
    let _ = parser.parse(&mut vm);
    vm
}

#[test]
fn print_writes_to_output() {
    let (vm, r) = evaluate(r#"@print! ["hello"]"#);
    assert_eq!(r, Ok(()));
    assert_eq!(vm.output(), "hello");
    assert_eq!(Printer::new(&vm).print(), ";");
}

#[test]
fn arithmetic_primitives() {
    assert_eq!(evaled_str("@plus! [1 2]"), Ok("3".to_string()));
    assert_eq!(evaled_str("@minus! [1 5]"), Ok("-4".to_string()));
    assert_eq!(evaled_str("@decr! [0]"), Ok("-1".to_string()));
    assert_eq!(evaled_str("@ltoreq! [4 4]"), Ok("^T".to_string()));
    assert_eq!(evaled_str("@ltoreq! [5 4]"), Ok("^F".to_string()));
    assert_eq!(evaled_str("@eq! [3 3]"), Ok("^T".to_string()));
    assert_eq!(evaled_str(r#"@eq! ["a" "a"]"#), Ok("^T".to_string()));
    assert_eq!(evaled_str("@eq! [; ;]"), Ok("^T".to_string()));
    assert_eq!(evaled_str("@eq! [; 1]"), Ok("^F".to_string()));
}

#[test]
fn concat_joins_texts_names_and_numbers() {
    assert_eq!(evaled_str(r#"@concat! ["a" b -12]"#), Ok(r#""ab-12""#.to_string()));
}

#[test]
fn decimal_round_trip() {
    assert_eq!(printed_str("-9223372036854775808"), "-9223372036854775808");
    assert_eq!(printed_str("9223372036854775807"), "9223372036854775807");
    assert_eq!(evaled_str("@decr! [-9223372036854775807]"), Ok("-9223372036854775808".to_string()));
}

#[test]
fn function_call_binds_parameters_in_its_own_frame() {
    let src = r"|> ; ^> -1 [|# a 1 |! |\ |% ; [a] |> ; |@ ; a [2] |@ ; a]";
    assert_eq!(evaled_str(src), Ok("1".to_string()));
    let src2 = r"|> ; |! |\ |% ; [a] |> ; |@ ; a [2]";
    assert_eq!(evaled_str(src2), Ok("2".to_string()));
}

#[test]
fn condition_is_rewritten_when_unchanged() {
    let (vm, r) = evaluate("|> ; |? ^T |: 1 0");
    assert_eq!(r, Ok(()));
    assert_eq!(Printer::new(&vm).print(), "1");
    let printed_all: Vec<String> = (0..vm.len()).map(|i| Printer::new(&vm).print_aexp(i, 0)).collect();
    assert!(printed_all.contains(&"?(^T :(1 0))".to_string()));
}

#[test]
fn walk_keeps_how_nodes_print() {
    let mut vm = parsed("|> ; |? ^F |: 1 0");
    let before: Vec<String> = (0..vm.len()).map(|i| Printer::new(&vm).print_aexp(i, 0)).collect();
    let mut walker = Walker::new(vm);
    assert_eq!(walker.walk(), Ok(()));
    vm = walker.into_vm();
    for (i, s) in before.iter().enumerate() {
        assert_eq!(&Printer::new(&vm).print_aexp(i, 0), s);
    }
}

#[test]
fn value_entry_is_left_alone() {
    let mut walker = Walker::new(parsed("\"text\""));
    let len = walker.vm().len();
    assert_eq!(walker.walk(), Ok(()));
    assert_eq!(walker.vm().len(), len);
    assert_eq!(Printer::new(walker.vm()).print(), "\"text\"");
}

#[test]
fn error_unbound() {
    assert_eq!(evaled_str("@nothing"), Err(WalkError::Unbound));
}

#[test]
fn error_not_function() {
    assert_eq!(evaled_str("|> ; |! 1 [2]"), Err(WalkError::NotFunction));
}

#[test]
fn error_not_boolean() {
    assert_eq!(evaled_str("|> ; |? 1 |: 1 0"), Err(WalkError::NotBoolean));
}

#[test]
fn error_overflow() {
    assert_eq!(evaled_str("@plus! [9223372036854775807 1]"), Err(WalkError::Overflow));
    assert_eq!(evaled_str("@decr! [-9223372036854775808]"), Err(WalkError::Overflow));
}

#[test]
fn error_not_number() {
    assert_eq!(evaled_str(r#"@plus! ["a" 1]"#), Err(WalkError::NotNumber));
}

#[test]
fn error_not_text() {
    assert_eq!(evaled_str("@print! [1]"), Err(WalkError::NotText));
    assert_eq!(evaled_str("@concat! [^T]"), Err(WalkError::NotText));
}

#[test]
fn error_not_comparable() {
    assert_eq!(evaled_str("@eq! [^T ^T]"), Err(WalkError::NotComparable));
}

#[test]
fn error_unknown_primitive() {
    assert_eq!(evaled_str("@dbqt! [1]"), Err(WalkError::UnknownPrimitive));
}

#[test]
fn error_unknown_metadata() {
    assert_eq!(evaled_str("|> ; ^X 1 2"), Err(WalkError::UnknownMetadata));
}

#[test]
fn error_not_list() {
    assert_eq!(evaled_str("@plus! 1"), Err(WalkError::NotList));
}

#[test]
fn error_not_name() {
    assert_eq!(evaled_str("|> ; |# 1 2"), Err(WalkError::NotName));
}

#[test]
fn error_not_accessible() {
    assert_eq!(evaled_str("|> ; |. 1 p"), Err(WalkError::NotAccessible));
}

#[test]
fn error_not_environment() {
    assert_eq!(evaled_str(r"|> ; |! |\ 1 ; ;"), Err(WalkError::NotEnvironment));
}

#[test]
fn error_invalid() {
    let mut vm = Heliqs::new();
    let prim = vm.allocate(Epiq::Prim("decr".to_string()));
    let _eval = vm.allocate(Epiq::Eval(prim, prim));
    let mut walker = Walker::new(vm);
    assert_eq!(walker.walk(), Err(WalkError::Invalid));
}

#[test]
fn error_no_entry() {
    let mut walker = Walker::new(Heliqs::new());
    assert_eq!(walker.walk(), Err(WalkError::NoEntry));
}

#[test]
fn empty_program_leaves_last_primitive_as_entry() {
    assert_eq!(only_evaluate(""), Ok(()));
    assert_eq!(printed_str(""), "Prim(dbqt)");
}

#[test]
fn error_exhausted() {
    let src = r"|> ; ^> -1 [|# f |\ |% ; ; |> ; |! |> ; |@ ; f ; |> ; |! |> ; |@ ; f ;]";
    let mut walker = Walker::new(parsed(src));
    assert_eq!(walker.walk_with_fuel(64), Err(WalkError::Exhausted));
}

#[test]
fn access_gives_tag_and_parts() {
    assert_eq!(evaled_str("|> ; |. |: 1 3 o"), Ok("\":\"".to_string()));
    assert_eq!(evaled_str("|> ; |. |: 1 3 p"), Ok("1".to_string()));
    assert_eq!(evaled_str("|> ; |. |Abc 1 3 o"), Ok("\"Abc\"".to_string()));
}

#[test]
fn primitives_called_directly() {
    let mut vm = parsed("[7 5]");
    let args = vm.entry().unwrap();
    let mut walker = Walker::new(vm);
    let sum = walker.plus(args).unwrap();
    let diff = walker.minus(args).unwrap();
    let dec = walker.decrement(args).unwrap();
    let le = walker.le_or_eq_nmbr(args).unwrap();
    let eq = walker.eq_nmbr(args).unwrap();
    let text = walker.concat(args).unwrap();
    let quote = walker.dbqt(args).unwrap();
    vm = walker.into_vm();
    let p = Printer::new(&vm);
    assert_eq!(p.print_aexp(sum, 0), "12");
    assert_eq!(p.print_aexp(diff, 0), "2");
    assert_eq!(p.print_aexp(dec, 0), "6");
    assert_eq!(p.print_aexp(le, 0), "^F");
    assert_eq!(p.print_aexp(eq, 0), "^F");
    assert_eq!(p.print_aexp(text, 0), "\"75\"");
    assert_eq!(p.print_aexp(quote, 0), "\"\"\"");
}

#[test]
fn text_and_name_comparisons() {
    let mut vm = parsed(r#"["a" "a"]"#);
    let texts = vm.entry().unwrap();
    let mut walker = Walker::new(vm);
    let t = walker.eq_text(texts).unwrap();
    assert_eq!(walker.eq_name(texts), Err(WalkError::NotName));
    vm = walker.into_vm();
    assert_eq!(Printer::new(&vm).print_aexp(t, 0), "^T");
    let mut vm2 = parsed("[x y]");
    let names = vm2.entry().unwrap();
    let mut walker2 = Walker::new(vm2);
    let n = walker2.eq_name(names).unwrap();
    vm2 = walker2.into_vm();
    assert_eq!(Printer::new(&vm2).print_aexp(n, 0), "^F");
}

#[test]
fn long_lists_use_no_fuel() {
    let items: Vec<String> = (0..300).map(|i| i.to_string()).collect();
    let src = format!("|> ; ^> -1 [{}]", items.join(" "));
    let mut walker = Walker::new(parsed(&src));
    assert_eq!(walker.walk_with_fuel(8), Ok(()));
    let vm = walker.into_vm();
    assert_eq!(Printer::new(&vm).print(), "299");
}

#[test]
fn walker_reads_a_part_allocated_later() {
    let mut vm = Heliqs::new();
    let first = vm.allocate(Epiq::Eval(0, 2));
    vm.allocate(Epiq::Unit);
    vm.allocate(Epiq::Uit8(5));
    vm.set_entry(first);
    let mut walker = Walker::new(vm);
    assert_eq!(walker.walk(), Ok(()));
    let vm = walker.into_vm();
    assert_eq!(vm.entry(), Some(2));
    assert_eq!(vm.get_epiq(2), &Epiq::Uit8(5));
}

#[test]
fn walker_stops_on_a_list_that_goes_round() {
    let mut vm = Heliqs::new();
    let first = vm.allocate(Epiq::Eval(0, 1));
    vm.allocate(Epiq::Mpiq { o: ">".to_string(), p: 0, q: 2 });
    vm.allocate(Epiq::Lpiq(3, 2));
    vm.allocate(Epiq::Uit8(1));
    vm.set_entry(first);
    let mut walker = Walker::new(vm);
    assert_eq!(walker.walk(), Err(WalkError::Exhausted));
}

#[test]
fn printer_writes_parts_allocated_later() {
    let mut vm = Heliqs::new();
    let first = vm.allocate(Epiq::Lpiq(1, 2));
    vm.allocate(Epiq::Name("a".to_string()));
    vm.allocate(Epiq::Unit);
    vm.set_entry(first);
    assert_eq!(Printer::new(&vm).print(), ":(a ;)");
}

#[test]
fn printer_stops_on_a_cycle() {
    let mut vm = Heliqs::new();
    vm.allocate(Epiq::Lpiq(0, 0));
    assert_eq!(Printer::new(&vm).print(), ":( )");
}
