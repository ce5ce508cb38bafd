use toy_compiler::lexer::Lexer;
use toy_compiler::token::{Lexeme, Token};

fn lex(src: &str) -> Result<Vec<Lexeme>, (usize, usize)> {
    let mut l = Lexer::new(src.to_string()).expect("ascii");
    match l.lex() {
        Ok(v) => Ok(v),
        Err(()) => Err((l.line, l.col)),
    }
}

fn show(v: &[Lexeme]) -> Vec<(String, usize, usize)> {
    v.iter().map(|l| (format!("{:?}", l.tok), l.line, l.col)).collect()
}

fn t(s: &str, line: usize, col: usize) -> (String, usize, usize) {
    (s.to_string(), line, col)
}

#[test]
fn lexes_a_declaration() {
    let v = lex("let x: u8 = 5;\0").unwrap();
    assert_eq!(
        show(&v),
        vec![
            t("Key(\"let\")", 1, 1),
            t("Id(\"x\")", 1, 5),
            t("Col", 1, 6),
            t("Id(\"u8\")", 1, 8),
            t("Op(\"=\")", 1, 11),
            t("Lit(\"5\")", 1, 13),
            t("SemiCol", 1, 14),
            t("EOF", 1, 15),
        ]
    );
}

#[test]
fn keyword_prefix_is_split_off() {
    let v = lex("letx\0").unwrap();
    assert_eq!(show(&v), vec![t("Key(\"let\")", 1, 1), t("Id(\"x\")", 1, 4), t("EOF", 1, 5)]);
}

#[test]
fn arrow_shift_and_braces() {
    let v = lex("fn f() -> u8 { return a << 2; }\0").unwrap();
    let kinds: Vec<String> = v.iter().map(|l| format!("{:?}", l.tok)).collect();
    assert_eq!(
        kinds,
        vec![
            "Key(\"fn\")", "Id(\"f\")", "ParenOpen", "ParenClose", "Arrow", "Id(\"u8\")", "CurlyOpen",
            "Key(\"return\")", "Id(\"a\")", "Op(\"<<\")", "Lit(\"2\")", "SemiCol", "CurlyClose", "EOF",
        ]
    );
}

#[test]
fn conditions_and_single_ops() {
    let v = lex("a <= b != c < d = e\0").unwrap();
    let kinds: Vec<String> = v.iter().map(|l| format!("{:?}", l.tok)).collect();
    assert_eq!(
        kinds,
        vec![
            "Id(\"a\")", "Cond(\"<=\")", "Id(\"b\")", "Cond(\"!=\")", "Id(\"c\")", "Cond(\"<\")", "Id(\"d\")",
            "Op(\"=\")", "Id(\"e\")", "EOF",
        ]
    );
}

#[test]
fn as_needs_a_following_blank() {
    let v = lex("x as u8\0").unwrap();
    let kinds: Vec<String> = v.iter().map(|l| format!("{:?}", l.tok)).collect();
    assert_eq!(kinds, vec!["Id(\"x\")", "Op(\"as\")", "Id(\"u8\")", "EOF"]);
    let w = lex("asx\0").unwrap();
    let kinds: Vec<String> = w.iter().map(|l| format!("{:?}", l.tok)).collect();
    assert_eq!(kinds, vec!["Id(\"asx\")", "EOF"]);
}

#[test]
fn minus_is_an_operator_before_a_literal() {
    let v = lex("-5\0").unwrap();
    let kinds: Vec<String> = v.iter().map(|l| format!("{:?}", l.tok)).collect();
    assert_eq!(kinds, vec!["Op(\"-\")", "Lit(\"5\")", "EOF"]);
}

#[test]
fn digits_running_into_letters_fail() {
    assert_eq!(lex("12ab\0").unwrap_err(), (1, 2));
}

#[test]
fn lines_and_columns_follow_newlines() {
    let v = lex("a\n  b\0").unwrap();
    assert_eq!(show(&v), vec![t("Id(\"a\")", 1, 1), t("Id(\"b\")", 2, 3), t("EOF", 2, 4)]);
}

#[test]
fn unknown_character_is_refused_where_it_stands() {
    assert_eq!(lex("x $\0").unwrap_err(), (1, 3));
}

#[test]
fn blank_before_the_end_is_refused() {
    assert_eq!(lex("x \0").unwrap_err(), (1, 3));
}

#[test]
fn non_ascii_text_is_refused() {
    assert!(Lexer::new("é\0".to_string()).is_err());
}

#[test]
fn empty_program_is_just_the_end() {
    let v = lex("\0").unwrap();
    assert_eq!(show(&v), vec![t("EOF", 1, 1)]);
}

#[test]
fn lexeme_data_and_token_equality() {
    let l = Lexeme::new(3, 4, Token::Id("abc".to_string()));
    assert_eq!(l.data(), "abc");
    assert!(l.tok.same(&Token::Id("abc".to_string())));
    assert!(!l.tok.same(&Token::Key("abc".to_string())));
    assert!(Token::Comma.same(&Token::Comma));
}

#[test]
fn at_sign_alone_is_not_a_token() {
    assert_eq!(lex("let p: @u8;\0").unwrap_err(), (1, 8));
}
