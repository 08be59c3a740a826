use pipebot::config::get_token;
use pipebot::tokenizer::{ErrorKind, Token, Tokenizer};

#[test]
fn get_token_from_args() {
    assert_eq!(
        get_token(Some("ARG_TOKEN".to_string()), Some("ENV_TOKEN".to_string())),
        Some("ARG_TOKEN".to_string())
    );
}

#[test]
fn get_token_from_env() {
    assert_eq!(
        get_token(None, Some("ENV_TOKEN".to_string())),
        Some("ENV_TOKEN".to_string())
    );
}

#[test]
fn missing_token() {
    assert_eq!(get_token(None, None), None);
}

fn chars(s: &str) -> Vec<char> {
    s.chars().collect()
}

fn text(t: &Token) -> String {
    t.text.iter().collect()
}

#[test]
fn tokens_carry_their_offsets() {
    let line = chars("  a bb\t ccc ");
    let mut tz = Tokenizer::new(&line);
    let a = tz.next();
    assert_eq!((text(&a), a.start), ("a".to_string(), 2));
    let b = tz.next();
    assert_eq!((text(&b), b.start), ("bb".to_string(), 4));
    let c = tz.next();
    assert_eq!((text(&c), c.start), ("ccc".to_string(), 8));
    let end = tz.next();
    assert_eq!((text(&end), end.start), ("".to_string(), 11));
}

#[test]
fn rest_takes_the_tail_verbatim() {
    let line = chars("verb  lorem  ipsum \n");
    let mut tz = Tokenizer::new(&line);
    tz.next();
    let rest = tz.rest();
    assert_eq!(text(&rest), "lorem  ipsum");
    assert_eq!(rest.start, 6);
}

#[test]
fn nonempty_str_keeps_text() {
    let line = chars("verb body");
    let mut tz = Tokenizer::new(&line);
    tz.next();
    let rest = tz.rest();
    let body = pipebot::tokenizer::nonempty_str(&line, rest, ErrorKind::ExpectedText).unwrap();
    assert_eq!(body.iter().collect::<String>(), "body");
}

#[test]
fn nonempty_str_reports_empty_spans() {
    let line = chars("verb");
    let mut tz = Tokenizer::new(&line);
    tz.next();
    let rest = tz.rest();
    let e = pipebot::tokenizer::nonempty_str(&line, rest, ErrorKind::ExpectedText).unwrap_err();
    assert_eq!((e.start, e.end), (4, 4));
    assert_eq!(e.render(), "| verb\n|      ^ expected text");
}

#[test]
fn empty_str_reports_trailing_text() {
    let line = chars("verb tail here");
    let mut tz = Tokenizer::new(&line);
    tz.next();
    let rest = tz.rest();
    let e = pipebot::tokenizer::empty_str(&line, rest).unwrap_err();
    assert_eq!((e.start, e.end), (5, 14));
    assert_eq!(e.render(), "| verb tail here\n|      ^^^^^^^^^ unexpected text");
}
