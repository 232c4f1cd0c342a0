use lexer::keywords::Keywords;
use lexer::operators::Operators;
use lexer::reader::Reader;
use lexer::tokenizer::Tokenizer;
use lexer::types::Types;

fn tokenizer_over(s: &str) -> Tokenizer {
    Tokenizer::new(Reader::new(s))
}

fn token_values(s: &str) -> Vec<Types> {
    let mut t = tokenizer_over(s);
    let mut out = Vec::new();
    while let Some(tok) = t.next() {
        out.push(tok.value);
    }
    out
}

#[test]
fn test_stream_if_assignment() {
    assert_eq!(
        token_values("if a = 1"),
        vec![
            Types::Keyword(Keywords::If),
            Types::Value(String::from("a")),
            Types::Operator(Operators::Equal),
            Types::Number(String::from("1")),
        ]
    );
}

#[test]
fn test_stream_empty_input() {
    let mut t = tokenizer_over("");
    assert_eq!(t.next(), None);
}

#[test]
fn test_stream_surrounding_separators() {
    assert_eq!(token_values("   x  "), vec![Types::Value(String::from("x"))]);
}

#[test]
fn test_stream_plus_equal_is_one_token() {
    assert_eq!(
        token_values("+="),
        vec![Types::Operator(Operators::PlusEqual)]
    );
}

#[test]
fn test_stream_end_is_idempotent() {
    let mut t = tokenizer_over("x");
    assert_eq!(
        t.next().map(|tok| tok.value),
        Some(Types::Value(String::from("x")))
    );
    assert_eq!(t.next(), None);
    assert_eq!(t.next(), None);
    assert_eq!(t.next(), None);
}

#[test]
fn test_stream_mixed_program() {
    assert_eq!(
        token_values("def f\n  while nil do x ++ 12\t-="),
        vec![
            Types::Keyword(Keywords::Function),
            Types::Value(String::from("f")),
            Types::Keyword(Keywords::While),
            Types::Nil,
            Types::Keyword(Keywords::Do),
            Types::Value(String::from("x")),
            Types::Operator(Operators::PlusPlus),
            Types::Number(String::from("12")),
            Types::Operator(Operators::MinusEqual),
        ]
    );
}
