use raster_core::constants::{Rotation, ShadingMode};
use raster_core::lexer::tokenize;
use raster_core::parser::{ParseError, Parser};
use raster_core::script::read_script;
use raster_core::tokens::{Function, Token, TokenType};
use std::collections::VecDeque;

fn lines(text: &[&str]) -> Vec<String> {
    text.iter().map(|l| l.to_string()).collect()
}

fn token(value: &str, token_type: TokenType) -> Token {
    Token { value: value.to_string(), token_type }
}

#[test]
fn tokenize_classifies_words_and_skips_comments() {
    let tokens = tokenize(&lines(&[
        "# a comment",
        "  // another one",
        "move 1 -2.5 3e2",
        "rotate y 90 spin",
        "",
        "mesh\tshiny models/cat.obj",
    ]));
    let seen: Vec<(String, TokenType)> = tokens.into_iter().map(|t| (t.value, t.token_type)).collect();
    let expected = vec![
        ("move", TokenType::Command(Function::Move)),
        ("1", TokenType::Number),
        ("-2.5", TokenType::Number),
        ("3e2", TokenType::Number),
        ("rotate", TokenType::Command(Function::Rotate)),
        ("y", TokenType::AxisOfRotation),
        ("90", TokenType::Number),
        ("spin", TokenType::Identifier),
        ("mesh", TokenType::Command(Function::Mesh)),
        ("shiny", TokenType::Identifier),
        ("models/cat.obj", TokenType::FilePath),
    ];
    assert_eq!(seen.len(), expected.len());
    for (s, e) in seen.iter().zip(expected.iter()) {
        assert_eq!(s.0, e.0);
        assert_eq!(s.1, e.1);
    }
}

#[test]
fn keywords_map_to_their_commands() {
    let tokens = tokenize(&lines(&["light ambient constants shading display save clear push pop"]));
    let kinds: Vec<TokenType> = tokens.iter().map(|t| t.token_type).collect();
    assert_eq!(
        kinds,
        vec![
            TokenType::Command(Function::SetLight),
            TokenType::Command(Function::SetAmbient),
            TokenType::Command(Function::SetConstants),
            TokenType::Command(Function::SetShading),
            TokenType::Command(Function::Display),
            TokenType::Command(Function::Save),
            TokenType::Command(Function::Clear),
            TokenType::Command(Function::Push),
            TokenType::Command(Function::Pop),
        ]
    );
}

#[test]
fn new_parser_is_empty() {
    let p = Parser::new();
    assert_eq!(p.remaining(), 0);
}

#[test]
fn pop_on_empty_stream_fails() {
    let mut p = Parser::new();
    assert!(matches!(p.pop(), Err(ParseError::MissingToken)));
    assert_eq!(p.pop_optional_identifier(), None);
}

#[test]
fn script_parses_into_statements() {
    let sts = read_script(&lines(&[
        "push",
        "move 10 20 30 knob1",
        "rotate X 45",
        "box shiny 0 0 0 10 10 10",
        "sphere 0 0 0 5",
        "constants shiny 0.1 0.2 0.3 0.4 0.5 0.6 0.7 0.8 0.9",
        "shading Gouraud",
        "save out.png",
    ]))
    .unwrap();
    assert_eq!(sts.len(), 8);
    assert_eq!(sts[0].function, Function::Push);
    assert!(sts[0].args.is_empty());
    assert_eq!(sts[1].function, Function::Move);
    assert_eq!(sts[1].args, vec!["10", "20", "30"]);
    assert_eq!(sts[1].knob.as_deref(), Some("knob1"));
    assert_eq!(sts[2].axis, Some(Rotation::X));
    assert_eq!(sts[2].args, vec!["45"]);
    assert_eq!(sts[2].knob, None);
    assert_eq!(sts[3].constants.as_deref(), Some("shiny"));
    assert_eq!(sts[3].args.len(), 6);
    assert_eq!(sts[4].constants, None);
    assert_eq!(sts[4].args, vec!["0", "0", "0", "5"]);
    assert_eq!(sts[5].name.as_deref(), Some("shiny"));
    assert_eq!(sts[5].args.len(), 9);
    assert_eq!(sts[6].shading, Some(ShadingMode::Gouraud));
    assert_eq!(sts[7].name.as_deref(), Some("out.png"));
}

#[test]
fn missing_arguments_are_reported() {
    assert!(matches!(read_script(&lines(&["line 1 2 3"])), Err(ParseError::MissingToken)));
    assert!(matches!(read_script(&lines(&["save"])), Err(ParseError::MissingToken)));
}

#[test]
fn bad_axis_and_mode_are_reported() {
    assert!(matches!(read_script(&lines(&["rotate w 10"])), Err(ParseError::InvalidAxis)));
    assert!(matches!(read_script(&lines(&["shading smooth"])), Err(ParseError::InvalidShading)));
}

#[test]
fn stray_token_is_reported() {
    assert!(matches!(read_script(&lines(&["12 push"])), Err(ParseError::UnexpectedToken)));
}

#[test]
fn syntax_tree_from_tokens() {
    let mut tokens = VecDeque::new();
    tokens.push_back(token("scale", TokenType::Command(Function::Scale)));
    tokens.push_back(token("2", TokenType::Number));
    tokens.push_back(token("2", TokenType::Number));
    tokens.push_back(token("2", TokenType::Number));
    tokens.push_back(token("clear", TokenType::Command(Function::Clear)));
    let mut p = Parser::new();
    let sts = p.create_syntax_tree(tokens).unwrap();
    assert_eq!(sts.len(), 2);
    assert_eq!(sts[0].function, Function::Scale);
    assert_eq!(sts[1].function, Function::Clear);
}
