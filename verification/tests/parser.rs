use epiqs::lexer::{all_scanners, Lexer};
use epiqs::parser::{Error, Parser, TokenState};
use epiqs::vm::{Heliqs, Tokn};

fn parse(s: &str) -> (Heliqs, Result<usize, Error>) {
    let lexer = Lexer::new(s.as_bytes(), all_scanners());
    let parser = Parser::new(lexer);
    let mut vm = Heliqs::new();
    let r = parser.parse(&mut vm);
    (vm, r)
}

#[test]
fn unit_is_node_zero_and_primitives_follow() {
    let (vm, r) = parse(";");
    assert_eq!(r, Ok(0));
    assert_eq!(vm.entry(), Some(0));
    assert_eq!(vm.len(), 9);
    let names = ["decr", "ltoreq", "eq", "plus", "minus", "print", "concat", "dbqt"];
    for (k, name) in names.iter().enumerate() {
        assert_eq!(vm.resolve(name), Some(k + 1));
    }
}

#[test]
fn parser_tokens_are_read_ahead() {
    let lexer = Lexer::new("|: a 1".as_bytes(), all_scanners());
    let parser = Parser::new(lexer);
    assert!(matches!(parser.token(0), TokenState::Has(Tokn::Pipe)));
    assert!(matches!(parser.token(3), TokenState::Has(Tokn::Nmbr(_))));
    assert!(matches!(parser.token(4), TokenState::EOT));
}

#[test]
fn error_tpiq_single() {
    assert_eq!(parse("' a").1, Err(Error::TpiqSingle(1)));
}

#[test]
fn error_tpiq() {
    assert_eq!(parse("| a").1, Err(Error::Tpiq(1)));
}

#[test]
fn error_mpiq() {
    assert_eq!(parse("^ a").1, Err(Error::Mpiq(1)));
}

#[test]
fn error_expression() {
    assert_eq!(parse("]").1, Err(Error::Expression(0)));
}

#[test]
fn error_number() {
    assert_eq!(parse("99999999999999999999").1, Err(Error::Number(0)));
}

#[test]
fn error_text() {
    assert_eq!(parse("[\"a\" \"b]").1.is_err(), true);
}

#[test]
fn error_from_the_lexer() {
    assert!(matches!(parse("[a$]").1, Err(Error::Lexer(_))));
}

#[test]
fn unknown_characters_are_skipped() {
    assert_eq!(parse("|: a $").1, Err(Error::Expression(3)));
    assert_eq!(parse("$ ;").1, Ok(0));
}
