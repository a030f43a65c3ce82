use epiqs::printer::{evaled_str, print_evaled_str, print_str, printed_str};

/// Checks that the program `left`, parsed, prints as `right`.
fn check_print(left: &str, right: &str) {
    assert_eq!(printed_str(left), right);
    print_str(left, right);
}

/// Checks that the program `left`, parsed and walked, prints as `right`.
fn check_evaled(left: &str, right: &str) {
    assert_eq!(evaled_str(left), Ok(right.to_string()));
    print_evaled_str(left, right);
}

/// Checks that the programs `left` and `right` parse to what prints alike.
fn print_syntax_sugar(left: &str, right: &str) {
    assert_eq!(printed_str(left), printed_str(right));
}

#[test]
fn printer_unit() {
    check_print(";", ";");
}

#[test]
fn printer_nested_tpiq() {
    check_print("|: |: cde |: abc 123 456", ":(:(cde :(abc 123)) 456)");
}

#[test]
fn printer_list() {
    check_print("[abc 123]", ":(abc :(123 ;))");
}

#[test]
fn printer_empty_env() {
    check_print("|% ; -1", "%(; -1)");
}

#[test]
fn printer_resolve_piq() {
    check_print("|@ abc ;", "@(abc ;)");
}

#[test]
fn printer_block() {
    check_print(
        r"|> ; |! |\ |% ; ; ^> -1 [|# abc 123 |@ ; abc] ;",
        r">(; !(\(%(; ;) >(-1 :(#(abc 123) :(@(; abc) ;)))) ;))",
    );
}

#[test]
fn printer_evaled_symbol_ast() {
    check_evaled("abc", "abc");
}

#[test]
fn printer_evaled_number_ast() {
    check_evaled("123", "123");
}

#[test]
fn printer_evaled_define_ast() {
    check_evaled("|> ; |# abc 123", ";");
}

#[test]
fn evaled_apply() {
    check_evaled(r"|> ; |! |\ |% ; ; 0 ;", r"0");
}

#[test]
fn printer_evaled_list() {
    check_evaled(r"|> ; ^> -1 [1 2 3]", r"3");
}

#[test]
fn printer_evaled_defining_list() {
    check_evaled(r"|> ; ^> -1 [|# abc 1234 |@ ; abc]", r"1234");
}

#[test]
fn printer_exec_func() {
    check_evaled(r"|> ; |! |\ |% ; [a b c] |> ; ^> -1 [|@ ; c |@ ; b] [6667 6668 6669]", "6668");
}

#[test]
fn printer_access() {
    check_evaled("|> ; |. |: 1 3 q", "3");
}

#[test]
fn printer_condition() {
    check_evaled("|> ; |? ^T |: 1 0", "1");
    check_evaled("|> ; |? ^F |: 1 0", "0");
}

#[test]
fn printer_primitive_function() {
    check_evaled("|> ; |@ ; decr", "Prim(decr)");
}

#[test]
fn test_symbol() {
    check_print("abc", "abc");
}

#[test]
fn test_number() {
    check_print("123", "123");
}

#[test]
fn test_unit() {
    check_print(";", ";");
}

#[test]
fn test_nested_tpiq() {
    check_print("|: |: cde |: abc 123 456", ":(:(cde :(abc 123)) 456)");
}

#[test]
fn test_list() {
    check_print("[abc 123]", ":(abc :(123 ;))");
}

#[test]
fn test_empty_env() {
    check_print("|% ; -1", "%(; -1)");
}

#[test]
fn test_resolve_piq() {
    check_print("|@ abc ;", "@(abc ;)");
}

#[test]
fn test_block() {
    check_print(
        r"|> ; |! |\ |% ; ; ^> -1 [|# abc 123 |@ ; abc] ;",
        r">(; !(\(%(; ;) >(-1 :(#(abc 123) :(@(; abc) ;)))) ;))",
    );
}

#[test]
fn test_evaled_symbol_ast() {
    check_evaled("abc", "abc");
}

#[test]
fn test_evaled_number_ast() {
    check_evaled("123", "123");
}

#[test]
fn test_evaled_define_ast() {
    check_evaled("|> ; |# abc 123", ";");
}

#[test]
fn test_evaled_list() {
    check_evaled(r"|> ; ^> -1 [1 2 3]", r"3");
}

#[test]
fn test_evaled_defining_list() {
    check_evaled(r"|> ; ^> -1 [|# abc 1234 |@ ; abc]", r"1234");
}

#[test]
fn test_access() {
    check_evaled("|> ; |. |: 1 3 q", "3");
}

#[test]
fn test_condition() {
    check_evaled("|> ; |? ^T |: 1 0", "1");
    check_evaled("|> ; |? ^F |: 1 0", "0");
}

#[test]
fn test_exec_func() {
    check_evaled(r"|> ; |! |\ |% ; [a b c] ^> -1 [|@ ; c |@ ; b] [6667 6668 6669]", "6668");
}

#[test]
fn test_text() {
    check_print(r#""o58nkry drtse""#, r#""o58nkry drtse""#);
}

#[test]
fn evaled_text() {
    check_evaled(r#""o58nkry drtse""#, r#""o58nkry drtse""#);
}

#[test]
fn evaled_text_in_list() {
    check_print(r#"["bbb" 0 "aaa"]"#, r#":("bbb" :(0 :("aaa" ;)))"#);
}

#[test]
fn access_in_list() {
    check_evaled("'> |. |: 0 1 p", "0");
}

#[test]
fn test_single_quote() {
    check_print("'> [a]", ">(; :(a ;))");
}

#[test]
fn resolve_syntax_sugar() {
    check_print("@abc", ">(; @(; abc))");
}

#[test]
fn lpiq() {
    print_syntax_sugar(r#"abc:"a""#, r#"|: abc "a""#);
}

#[test]
fn nested_lpiq() {
    print_syntax_sugar(r#"abc:"a":1"#, r#"|: abc |: "a" 1"#);
}

#[test]
fn print() {
    check_evaled(r#"@print! ["a"]"#, ";");
}

#[test]
fn compare_texts() {
    check_evaled(r#"@eq! ["a" "b"]"#, "^F");
}

#[test]
fn concat_texts() {
    check_evaled(r#"@concat! ["a", "b"]"#, r#""ab""#);
}

#[test]
fn evaled_list_syntax_sugar() {
    print_syntax_sugar("^[@plus! [1 2]]", "^> ; [@plus! [1 2]]");
}

#[test]
fn quote() {
    check_evaled("'> || a", "a");
}
