use epiqs::lexer::{all_scanners, Lexer, ScannerKind, TokenizeResult};

/// Lexes `text` with `scanners` (and the end-of-input scanner after them)
/// and checks the tokens, written as in a token listing, against `right`.
fn lex_from_str(text: &str, right: &str, scanners: Vec<ScannerKind>) {
    let mut scanners = scanners;
    scanners.push(ScannerKind::EOF);
    let mut lexer = Lexer::new(text.as_bytes(), scanners);
    let mut result = vec![];
    loop {
        match lexer.tokenize() {
            TokenizeResult::Token(t) => result.push(t.describe()),
            TokenizeResult::Error(e) => {
                result.push(format!("{:?}", e));
                break;
            },
            TokenizeResult::EOF => break,
        }
    }
    let r = result.join(" ");
    assert_eq!(r, right);
}

/// Lexes with the scanners of delimiters, texts, names and numbers.
fn lex_from_str_with_all_scanners(text: &str, right: &str) {
    let scanners = vec![
        ScannerKind::Delimiter,
        ScannerKind::Text,
        ScannerKind::Alphabet,
        ScannerKind::Zero,
        ScannerKind::Integer,
    ];
    lex_from_str(text, right, scanners);
}

/// Lexes with every scanner of the language.
fn lex_from_str_with_every_scanner(text: &str, right: &str) {
    let scanners: Vec<ScannerKind> =
        all_scanners().into_iter().filter(|s| !matches!(s, ScannerKind::EOF)).collect();
    lex_from_str(text, right, scanners);
}

#[test]
fn character_vector() {
    lex_from_str("abc", "Chvc<abc>", vec![ScannerKind::Alphabet]);
}

#[test]
fn alphanumeric_test() {
    lex_from_str("Abc", "Otag<Abc>", vec![ScannerKind::Alphanumeric]);
    lex_from_str("abc", "Chvc<abc>", vec![ScannerKind::Alphanumeric]);
}

#[test]
fn atmark() {
    lex_from_str("@", "Atsm", vec![ScannerKind::Atmark]);
}

#[test]
fn bang_text() {
    lex_from_str("!", "Bang", vec![ScannerKind::Bang]);
}

#[test]
fn colon() {
    lex_from_str(":", "Coln", vec![ScannerKind::Colon]);
}

#[test]
fn semicolon() {
    lex_from_str(";", "Smcl", vec![ScannerKind::Delimiter]);
}

#[test]
fn stop() {
    lex_from_str(".", "Stop", vec![ScannerKind::Stop]);
}

#[test]
fn text_text() {
    lex_from_str("\"Abc@ | q5djp4m3 def\"", "Dbqt Chvc<Abc@ | q5djp4m3 def> Dbqt", vec![ScannerKind::Text]);
}

#[test]
fn otag_single_quote() {
    lex_from_str("'A", "Sgqt Otag<A>", vec![ScannerKind::Otag]);
}

#[test]
fn otag() {
    lex_from_str("|Abc", "Pipe Otag<Abc>", vec![ScannerKind::Otag]);
}

#[test]
fn tpiq_test() {}

#[test]
fn bracket_list() {
    lex_from_str_with_all_scanners("[dog 256 cat 512]", "Lbkt Chvc<dog> Nmbr<256> Chvc<cat> Nmbr<512> Rbkt");
}

#[test]
fn mpiq() {
    lex_from_str_with_every_scanner("|% ; -1", "Pipe Otag<%> Smcl Nmbr<-1>");
}

#[test]
fn tval() {
    lex_from_str_with_every_scanner("^T", "Crrt Otag<T>");
}

#[test]
fn mod_primitive_function() {
    lex_from_str_with_all_scanners("decr", "Chvc<decr>");
}

#[test]
fn texts() {
    lex_from_str_with_all_scanners("[0 \"b\"]", "Lbkt Nmbr<0> Dbqt Chvc<b> Dbqt Rbkt");
}

#[test]
fn infix_colon_stop_and_bang() {
    lex_from_str_with_every_scanner("abc:def", "Chvc<abc> Coln Chvc<def>");
    lex_from_str_with_every_scanner("a.b.c", "Chvc<a> Stop Chvc<b> Stop Chvc<c>");
    lex_from_str_with_every_scanner("abc! [1 2]", "Chvc<abc> Bang Lbkt Nmbr<1> Nmbr<2> Rbkt");
    lex_from_str_with_every_scanner("@abc", "Atsm Chvc<abc>");
}

#[test]
fn dispatchers_and_tags() {
    lex_from_str_with_every_scanner("'> [a]", "Sgqt Otag<>> Lbkt Chvc<a> Rbkt");
    lex_from_str_with_every_scanner("^[1]", "Crrt Lbkt Nmbr<1> Rbkt");
    lex_from_str_with_every_scanner("|Abc x", "Pipe Otag<Abc> Chvc<x>");
}

#[test]
fn numbers_names_and_texts() {
    lex_from_str_with_every_scanner("0", "Nmbr<0>");
    lex_from_str_with_every_scanner("-5", "Nmbr<-5>");
    lex_from_str_with_every_scanner("[0 -12 3]", "Lbkt Nmbr<0> Nmbr<-12> Nmbr<3> Rbkt");
    lex_from_str_with_every_scanner("a-b", "Chvc<a-b>");
    lex_from_str_with_every_scanner("\"x y\" z", "Dbqt Chvc<x y> Dbqt Chvc<z>");
    lex_from_str_with_every_scanner("; ;", "Smcl Smcl");
}

#[test]
fn a_zero_cannot_start_a_longer_token() {
    let mut scanners: Vec<ScannerKind> = all_scanners();
    scanners.pop();
    let mut lexer = Lexer::new("0a".as_bytes(), {
        scanners.push(ScannerKind::EOF);
        scanners
    });
    assert!(matches!(lexer.tokenize(), TokenizeResult::Error(_)));
}

#[test]
fn carriage_return_is_whitespace() {
    lex_from_str_with_every_scanner("abc\r\ndef\r1", "Chvc<abc> Chvc<def> Nmbr<1>");
}
