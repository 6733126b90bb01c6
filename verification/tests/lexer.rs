use limitation_text::lang::InterpreterObject;
use limitation_text::lexer::{ignore_whitespace, tokenize, BuildError};
use limitation_text::token::Token;

fn chars(text: &str) -> Vec<char> {
    text.chars().collect()
}

fn built(source: &str) -> InterpreterObject {
    let mut engine = InterpreterObject::new();
    let lines: Vec<String> = source.split('\n').map(|line| line.to_string()).collect();
    engine.populate_input(&lines);
    engine.build();
    engine
}

#[test]
fn empty_source_is_a_single_end_token() {
    let (tokens, error) = tokenize(&chars(""));
    assert_eq!(tokens, vec![Token::EndOfProgram]);
    assert_eq!(error, None);
}

#[test]
fn every_single_character_token_is_read() {
    let (tokens, error) = tokenize(&chars("+-<>^_#${}:="));
    assert_eq!(
        tokens,
        vec![
            Token::Increment,
            Token::Decrement,
            Token::ShiftLeft,
            Token::ShiftRight,
            Token::ShiftToValue,
            Token::ResetPointer,
            Token::Push,
            Token::Pop,
            Token::JumpIfZero,
            Token::JumpIfZeroMarker,
            Token::JumpBack,
            Token::JumpBackMarker,
            Token::EndOfProgram,
        ]
    );
    assert_eq!(error, None);
}

#[test]
fn every_two_character_token_is_read() {
    let (tokens, error) = tokenize(&chars("?0?a&0&a"));
    assert_eq!(
        tokens,
        vec![
            Token::InputNumeric,
            Token::InputText,
            Token::OutputNumeric,
            Token::OutputText,
            Token::EndOfProgram,
        ]
    );
    assert_eq!(error, None);
}

#[test]
fn white_space_and_comments_separate_tokens() {
    let source = "  + \t\n// a comment with + and ? in it\n\r\n-//last comment, not ended";
    let (tokens, error) = tokenize(&chars(source));
    assert_eq!(tokens, vec![Token::Increment, Token::Decrement, Token::EndOfProgram]);
    assert_eq!(error, None);
}

#[test]
fn unicode_white_space_is_skipped() {
    let (tokens, error) = tokenize(&chars("+\u{3000}\u{a0}\u{2003}\u{85}+"));
    assert_eq!(tokens, vec![Token::Increment, Token::Increment, Token::EndOfProgram]);
    assert_eq!(error, None);
}

#[test]
fn comment_inside_a_two_character_token_breaks_it() {
    let (tokens, error) = tokenize(&chars("+?//\n0"));
    assert_eq!(tokens, vec![Token::Increment]);
    assert_eq!(error, Some(BuildError::MissingInputKind));
}

#[test]
fn unrecognized_character_stops_the_build() {
    let (tokens, error) = tokenize(&chars("++ x --"));
    assert_eq!(tokens, vec![Token::Increment, Token::Increment]);
    assert_eq!(error, Some(BuildError::UnrecognizedCharacter('x')));
}

#[test]
fn question_mark_needs_a_kind() {
    assert_eq!(tokenize(&chars("?1")).1, Some(BuildError::MissingInputKind));
    assert_eq!(tokenize(&chars("? 0")).1, Some(BuildError::MissingInputKind));
    assert_eq!(tokenize(&chars("+?")), (vec![Token::Increment], Some(BuildError::MissingInputKind)));
}

#[test]
fn ampersand_needs_a_kind() {
    assert_eq!(tokenize(&chars("&b")).1, Some(BuildError::MissingOutputKind));
    assert_eq!(tokenize(&chars("&")), (vec![], Some(BuildError::MissingOutputKind)));
}

#[test]
fn lone_slash_is_an_error() {
    assert_eq!(tokenize(&chars("+ / +")), (vec![Token::Increment], Some(BuildError::LoneSlash)));
    assert_eq!(tokenize(&chars("/")), (vec![], Some(BuildError::LoneSlash)));
    assert_eq!(tokenize(&chars("/+/")), (vec![], Some(BuildError::LoneSlash)));
}

#[test]
fn ignore_whitespace_stops_at_the_next_token() {
    let source = chars("  // note\n\t +");
    assert_eq!(ignore_whitespace(&source, 0), 12);
    assert_eq!(ignore_whitespace(&source, 12), 12);
    assert_eq!(ignore_whitespace(&source, 13), 13);
    assert_eq!(ignore_whitespace(&chars("   "), 1), 3);
    assert_eq!(ignore_whitespace(&chars("// to the end"), 0), 13);
    assert_eq!(ignore_whitespace(&chars("/ +"), 0), 0);
    assert_eq!(ignore_whitespace(&chars("  "), 7), 7);
}

#[test]
fn engine_skips_white_space_of_its_source() {
    let mut engine = InterpreterObject::new();
    engine.populate_input(&vec!["  +".to_string(), "// c".to_string(), "-".to_string()]);
    assert_eq!(engine.ignore_whitespace(0), 2);
    assert_eq!(engine.ignore_whitespace(3), 9);
    assert_eq!(engine.ignore_whitespace(10), 10);
}

#[test]
fn build_reports_success() {
    let engine = built("+ - // done");
    assert!(engine.is_executable());
    assert_eq!(engine.get_output().as_str(), "[INFO]: Build Successful\n");
    assert_eq!(
        engine.program(),
        &vec![Token::Increment, Token::Decrement, Token::EndOfProgram]
    );
}

#[test]
fn build_reports_an_unrecognized_character() {
    let engine = built("+%");
    assert!(!engine.is_executable());
    assert_eq!(
        engine.get_output().as_str(),
        "[ERROR]: Build Failure, unable to recognize character as a token: %\n"
    );
    assert_eq!(engine.program(), &vec![Token::Increment]);
}

#[test]
fn build_reports_a_missing_input_kind() {
    let engine = built("?b");
    assert!(!engine.is_executable());
    assert_eq!(
        engine.get_output().as_str(),
        "[ERROR]: Expected '0' or 'a' after ? token for expected input type\n"
    );
}

#[test]
fn build_reports_a_missing_output_kind() {
    let engine = built("&1");
    assert!(!engine.is_executable());
    assert_eq!(
        engine.get_output().as_str(),
        "[ERROR]: Expected '0' or 'a' after & token for expected output type\n"
    );
}

#[test]
fn build_reports_a_lone_slash() {
    let engine = built("+/");
    assert!(!engine.is_executable());
    assert_eq!(
        engine.get_output().as_str(),
        "[ERROR]: Build Failure, unable to recognize character as a token: /"
    );
}

#[test]
fn failed_build_cannot_be_started_or_stepped() {
    let mut engine = built("+++ !");
    engine.start_execution();
    assert!(!engine.can_step());
    let before = engine.get_output().clone();
    engine.execute_step();
    assert_eq!(engine.cell(0), Some(0));
    assert_eq!(engine.program_counter(), 0);
    assert_eq!(engine.get_output(), &before);
}

#[test]
fn lines_are_joined_with_newlines() {
    let mut engine = InterpreterObject::new();
    engine.populate_input(&vec!["+ // one".to_string(), "+".to_string(), "".to_string()]);
    engine.build();
    assert_eq!(
        engine.program(),
        &vec![Token::Increment, Token::Increment, Token::EndOfProgram]
    );
    engine.populate_input(&vec!["?".to_string(), "0".to_string()]);
    engine.build();
    assert!(!engine.is_executable());
}

#[test]
fn building_twice_gives_the_same_program_and_a_fresh_state() {
    let mut engine = built("+++#>?0{-}:=&a");
    let first = engine.program().clone();
    engine.start_execution();
    for _ in 0..5 {
        engine.execute_step();
    }
    assert_eq!(engine.cell(0), Some(3));
    assert_eq!(engine.stack(), &vec![3]);
    assert_eq!(engine.pointer(), 1);
    engine.build();
    assert_eq!(engine.program(), &first);
    assert!((0..512).all(|i| engine.cell(i) == Some(0)));
    assert!(engine.stack().is_empty());
    assert_eq!(engine.pointer(), 0);
    assert_eq!(engine.program_counter(), 0);
    assert!(engine.is_executable());
    assert!(!engine.can_step());
    assert!(!engine.is_waiting());
    assert_eq!(engine.get_output().as_str(), "[INFO]: Build Successful\n");
    engine.reset_execution();
    assert_eq!(engine.program(), &first);
    assert_eq!(engine.get_output().as_str(), "[INFO]: Build Successful\n");
}

#[test]
fn spelled_programs_are_read_back() {
    let spellings = [
        (Token::Increment, "+"),
        (Token::Decrement, "-"),
        (Token::ShiftLeft, "<"),
        (Token::ShiftRight, ">"),
        (Token::ShiftToValue, "^"),
        (Token::ResetPointer, "_"),
        (Token::Push, "#"),
        (Token::Pop, "$"),
        (Token::InputNumeric, "?0"),
        (Token::InputText, "?a"),
        (Token::OutputNumeric, "&0"),
        (Token::OutputText, "&a"),
        (Token::JumpIfZero, "{"),
        (Token::JumpIfZeroMarker, "}"),
        (Token::JumpBack, ":"),
        (Token::JumpBackMarker, "="),
    ];
    for (first, first_text) in spellings {
        for (second, second_text) in spellings {
            let source = format!("{}{}", first_text, second_text);
            let (tokens, error) = tokenize(&chars(&source));
            assert_eq!(tokens, vec![first, second, Token::EndOfProgram], "source {:?}", source);
            assert_eq!(error, None);
        }
    }
}
