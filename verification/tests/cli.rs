use memcrab::cli::{parse_command, tokenize_line, Command, SyntaxError};
use memcrab::client::{interpret_get_response, interpret_set_response};
use memcrab::{Error, Msg, ParseError, Request, Response};

#[test]
fn test_tokenize_plain_words() {
    let tokens = tokenize_line("get name".to_owned()).unwrap();
    assert_eq!(tokens, vec!["get".to_owned(), "name".to_owned()]);
    let tokens = tokenize_line("  set   a  b ".to_owned()).unwrap();
    assert_eq!(
        tokens,
        vec!["set".to_owned(), "a".to_owned(), "b".to_owned()]
    );
    assert_eq!(tokenize_line(String::new()).unwrap(), Vec::<String>::new());
}

#[test]
fn test_tokenize_quotes() {
    let tokens = tokenize_line("set \"a key\" \"a value\"".to_owned()).unwrap();
    assert_eq!(
        tokens,
        vec!["set".to_owned(), "a key".to_owned(), "a value".to_owned()]
    );
    // a quote glues onto the word being built
    let tokens = tokenize_line("ab\"cd\"".to_owned()).unwrap();
    assert_eq!(tokens, vec!["abcd".to_owned()]);
    // a closing quote ends a token even when it is empty
    let tokens = tokenize_line("\"\"".to_owned()).unwrap();
    assert_eq!(tokens, vec![String::new()]);
}

#[test]
fn test_tokenize_unclosed_quote() {
    assert_eq!(tokenize_line("get \"oops".to_owned()), Err(SyntaxError));
}

#[test]
fn test_parse_command() {
    let tokens = tokenize_line("get name".to_owned()).unwrap();
    assert_eq!(
        parse_command(tokens).unwrap(),
        Command::Get("name".to_owned())
    );
    let tokens = tokenize_line("set name alex".to_owned()).unwrap();
    assert_eq!(
        parse_command(tokens).unwrap(),
        Command::Put {
            key: "name".to_owned(),
            value: "alex".to_owned(),
        }
    );
    assert_eq!(
        parse_command(vec!["get".to_owned()]),
        Err(SyntaxError)
    );
    assert_eq!(
        parse_command(vec!["drop".to_owned(), "x".to_owned()]),
        Err(SyntaxError)
    );
    assert_eq!(
        parse_command(vec![
            "get".to_owned(),
            "a".to_owned(),
            "b".to_owned(),
        ]),
        Err(SyntaxError)
    );
}

#[test]
fn test_interpret_responses() {
    assert_eq!(
        interpret_get_response(Response::Value(vec![1, 2])).unwrap(),
        Some(vec![1, 2])
    );
    assert_eq!(
        interpret_get_response(Response::KeyNotFound).unwrap(),
        None
    );
    assert!(interpret_get_response(Response::Pong).is_err());
    assert!(interpret_set_response(Response::Done).is_ok());
    assert!(interpret_set_response(Response::KeyNotFound).is_err());
}

#[test]
fn test_error_describe() {
    let e = Error::Parse(ParseError::UnknownKind);
    assert_eq!(e.describe(), "cannot parse message");
    let e = Error::InvalidMsg(Msg::Request(Request::Ping));
    assert_eq!(e.describe(), "invalid msg");
    let e = Error::Io(std::io::Error::from(std::io::ErrorKind::UnexpectedEof));
    assert_eq!(e.describe(), "io");
}
