//! The compiler: from source text to a program.
//!
//! White space and `//` comments separate tokens and mean nothing else.
//! Twelve tokens are one character long (`+ - < > ^ _ # $ { } : =`); four
//! are two long (`?0`, `?a`, `&0`, `&a`). The first character that starts
//! no token ends the compilation with an error.

use crate::text::{is_blank, is_whitespace};
use crate::token::Token;
use vstd::prelude::*;

verus! {

/// Why a source text does not compile.
#[derive(Clone, Copy, PartialEq, Eq, Structural, Debug)]
pub enum BuildError {
    /// A character that starts no token.
    UnrecognizedCharacter(char),
    /// `?` followed by neither `0` nor `a`.
    MissingInputKind,
    /// `&` followed by neither `0` nor `a`.
    MissingOutputKind,
    /// `/` not followed by a second `/`.
    LoneSlash,
}

/// What compiling a source text gives: the tokens read before the end of
/// the text or the first error, and that error.
pub struct Lexed {
    /// The tokens read, closed by `EndOfProgram` where the text compiled.
    pub tokens: Seq<Token>,
    /// The error that ended the compilation, if one did.
    pub error: Option<BuildError>,
}

/// The token written by the single character `c`.
pub open spec fn single_token(c: char) -> Option<Token> {
    if c == '+' {
        Some(Token::Increment)
    } else if c == '-' {
        Some(Token::Decrement)
    } else if c == '<' {
        Some(Token::ShiftLeft)
    } else if c == '>' {
        Some(Token::ShiftRight)
    } else if c == '^' {
        Some(Token::ShiftToValue)
    } else if c == '_' {
        Some(Token::ResetPointer)
    } else if c == '#' {
        Some(Token::Push)
    } else if c == '$' {
        Some(Token::Pop)
    } else if c == '{' {
        Some(Token::JumpIfZero)
    } else if c == '}' {
        Some(Token::JumpIfZeroMarker)
    } else if c == ':' {
        Some(Token::JumpBack)
    } else if c == '=' {
        Some(Token::JumpBackMarker)
    } else {
        None
    }
}

/// The token that starts at position `i` of `s`, which holds neither white
/// space nor the start of a comment, or the reason why none does.
pub open spec fn token_at(s: Seq<char>, i: int) -> Result<Token, BuildError>
    recommends
        0 <= i < s.len(),
{
    let c = s[i];
    if c == '?' {
        if i + 1 < s.len() && s[i + 1] == '0' {
            Ok(Token::InputNumeric)
        } else if i + 1 < s.len() && s[i + 1] == 'a' {
            Ok(Token::InputText)
        } else {
            Err(BuildError::MissingInputKind)
        }
    } else if c == '&' {
        if i + 1 < s.len() && s[i + 1] == '0' {
            Ok(Token::OutputNumeric)
        } else if i + 1 < s.len() && s[i + 1] == 'a' {
            Ok(Token::OutputText)
        } else {
            Err(BuildError::MissingOutputKind)
        }
    } else if c == '/' {
        Err(BuildError::LoneSlash)
    } else {
        match single_token(c) {
            Some(t) => Ok(t),
            None => Err(BuildError::UnrecognizedCharacter(c)),
        }
    }
}

/// How many characters of source a token takes.
pub open spec fn token_width(t: Token) -> int {
    match t {
        Token::InputNumeric | Token::InputText | Token::OutputNumeric | Token::OutputText => 2,
        _ => 1,
    }
}

/// The first position at or after `i` that holds neither white space nor a
/// comment, or the length of `s` where there is none; a position outside `s`
/// stays where it is. `in_comment` says that `i` lies inside a comment,
/// which lasts to the next newline or the end of `s`.
pub open spec fn skip_blank(s: Seq<char>, i: int, in_comment: bool) -> int
    decreases s.len() - i,
{
    if i < 0 || i >= s.len() {
        i
    } else if in_comment {
        skip_blank(s, i + 1, s[i] != '\n')
    } else if is_whitespace(s[i]) {
        skip_blank(s, i + 1, false)
    } else if s[i] == '/' && i + 1 < s.len() && s[i + 1] == '/' {
        skip_blank(s, i + 2, true)
    } else {
        i
    }
}

/// Compiles `s` from position `i` on; `in_comment` says that `i` lies
/// inside a comment, which lasts to the next newline or the end of `s`.
pub open spec fn lex_from(s: Seq<char>, i: int, in_comment: bool) -> Lexed
    decreases s.len() - i,
{
    if i < 0 || i >= s.len() {
        Lexed { tokens: seq![Token::EndOfProgram], error: None }
    } else if in_comment {
        lex_from(s, i + 1, s[i] != '\n')
    } else if is_whitespace(s[i]) {
        lex_from(s, i + 1, false)
    } else if s[i] == '/' && i + 1 < s.len() && s[i + 1] == '/' {
        lex_from(s, i + 2, true)
    } else {
        match token_at(s, i) {
            Ok(t) => {
                let rest = lex_from(s, i + token_width(t), false);
                Lexed { tokens: seq![t] + rest.tokens, error: rest.error }
            },
            Err(e) => Lexed { tokens: Seq::empty(), error: Some(e) },
        }
    }
}

/// Compiles the source text `s`.
pub open spec fn lex(s: Seq<char>) -> Lexed {
    lex_from(s, 0, false)
}

/// Skipping white space and comments lands inside the text or at its end,
/// on a character that is neither white space nor the start of a comment,
/// and what is compiled from there is what is compiled from `i`.
pub proof fn lex_skips_blank(s: Seq<char>, i: int, in_comment: bool)
    requires
        0 <= i <= s.len(),
    ensures
        i <= skip_blank(s, i, in_comment) <= s.len(),
        lex_from(s, i, in_comment) == lex_from(s, skip_blank(s, i, in_comment), false),
        skip_blank(s, i, in_comment) < s.len() ==> {
            let j = skip_blank(s, i, in_comment);
            &&& !is_whitespace(s[j])
            &&& !(s[j] == '/' && j + 1 < s.len() && s[j + 1] == '/')
        },
    decreases s.len() - i,
{
    if i >= s.len() {
    } else if in_comment {
        lex_skips_blank(s, i + 1, s[i] != '\n');
    } else if is_whitespace(s[i]) {
        lex_skips_blank(s, i + 1, false);
    } else if s[i] == '/' && i + 1 < s.len() && s[i + 1] == '/' {
        lex_skips_blank(s, i + 2, true);
    } else {
    }
}

/// A text that compiles gives a program that ends in `EndOfProgram` and
/// holds that token nowhere else.
pub proof fn lex_ends_program(s: Seq<char>, i: int, in_comment: bool)
    requires
        lex_from(s, i, in_comment).error is None,
    ensures
        lex_from(s, i, in_comment).tokens.len() > 0,
        lex_from(s, i, in_comment).tokens.last() == Token::EndOfProgram,
        forall|k: int|
            0 <= k < lex_from(s, i, in_comment).tokens.len() - 1 ==> #[trigger] lex_from(
                s,
                i,
                in_comment,
            ).tokens[k] != Token::EndOfProgram,
    decreases s.len() - i,
{
    if i < 0 || i >= s.len() {
    } else if in_comment {
        lex_ends_program(s, i + 1, s[i] != '\n');
    } else if is_whitespace(s[i]) {
        lex_ends_program(s, i + 1, false);
    } else if s[i] == '/' && i + 1 < s.len() && s[i + 1] == '/' {
        lex_ends_program(s, i + 2, true);
    } else {
        match token_at(s, i) {
            Ok(t) => {
                lex_ends_program(s, i + token_width(t), false);
            },
            Err(e) => {},
        }
    }
}

/// How a token is written in source text. `EndOfProgram` is not written:
/// it is the end of the text.
pub open spec fn spelling(t: Token) -> Seq<char> {
    match t {
        Token::Increment => seq!['+'],
        Token::Decrement => seq!['-'],
        Token::ShiftLeft => seq!['<'],
        Token::ShiftRight => seq!['>'],
        Token::ShiftToValue => seq!['^'],
        Token::ResetPointer => seq!['_'],
        Token::Push => seq!['#'],
        Token::Pop => seq!['$'],
        Token::InputNumeric => seq!['?', '0'],
        Token::InputText => seq!['?', 'a'],
        Token::OutputNumeric => seq!['&', '0'],
        Token::OutputText => seq!['&', 'a'],
        Token::JumpIfZero => seq!['{'],
        Token::JumpIfZeroMarker => seq!['}'],
        Token::JumpBack => seq![':'],
        Token::JumpBackMarker => seq!['='],
        Token::EndOfProgram => Seq::empty(),
    }
}

/// The source text that writes `tokens` one after the other, with nothing
/// between them.
pub open spec fn spell(tokens: Seq<Token>) -> Seq<char>
    decreases tokens.len(),
{
    if tokens.len() == 0 {
        Seq::empty()
    } else {
        spelling(tokens[0]) + spell(tokens.drop_first())
    }
}

/// What is compiled from a position does not depend on the text before it.
pub proof fn lex_ignores_what_came_before(
    before: Seq<char>,
    s: Seq<char>,
    i: int,
    in_comment: bool,
)
    requires
        0 <= i,
    ensures
        lex_from(before + s, before.len() + i, in_comment) == lex_from(s, i, in_comment),
    decreases s.len() - i,
{
    let whole = before + s;
    let at = before.len() + i;
    if i >= s.len() {
    } else {
        assert(whole[at] == s[i]);
        if i + 1 < s.len() {
            assert(whole[at + 1] == s[i + 1]);
        }
        if in_comment {
            lex_ignores_what_came_before(before, s, i + 1, s[i] != '\n');
        } else if is_whitespace(s[i]) {
            lex_ignores_what_came_before(before, s, i + 1, false);
        } else if s[i] == '/' && i + 1 < s.len() && s[i + 1] == '/' {
            lex_ignores_what_came_before(before, s, i + 2, true);
        } else {
            assert(token_at(whole, at) == token_at(s, i));
            match token_at(s, i) {
                Ok(t) => {
                    lex_ignores_what_came_before(before, s, i + token_width(t), false);
                },
                Err(e) => {},
            }
        }
    }
}

/// Every program can be written down and read back: the text that spells
/// the tokens of a program compiles, to those tokens and the closing
/// `EndOfProgram`.
pub proof fn lex_reads_what_was_spelled(tokens: Seq<Token>)
    requires
        forall|k: int| 0 <= k < tokens.len() ==> #[trigger] tokens[k] != Token::EndOfProgram,
    ensures
        lex(spell(tokens)).error is None,
        lex(spell(tokens)).tokens == tokens.push(Token::EndOfProgram),
    decreases tokens.len(),
{
    if tokens.len() == 0 {
        assert(lex(spell(tokens)).tokens =~= tokens.push(Token::EndOfProgram));
    } else {
        let t = tokens[0];
        let rest = tokens.drop_first();
        let s = spell(tokens);
        assert(t != Token::EndOfProgram);
        assert(s[0] == spelling(t)[0]);
        if spelling(t).len() > 1 {
            assert(s[1] == spelling(t)[1]);
        }
        assert(token_at(s, 0) == Ok::<Token, BuildError>(t));
        assert(token_width(t) == spelling(t).len());
        assert forall|k: int| 0 <= k < rest.len() implies #[trigger] rest[k]
            != Token::EndOfProgram by {
            assert(rest[k] == tokens[k + 1]);
        }
        lex_reads_what_was_spelled(rest);
        lex_ignores_what_came_before(spelling(t), spell(rest), 0, false);
        assert(seq![t] + rest.push(Token::EndOfProgram) =~= tokens.push(Token::EndOfProgram));
    }
}

/// Reads the token that starts at `i`.
fn read_token(s: &Vec<char>, i: usize) -> (r: Result<Token, BuildError>)
    requires
        i < s.len(),
    ensures
        r == token_at(s@, i as int),
{
    let c: char = s[i];
    match c {
        '+' => Ok(Token::Increment),
        '-' => Ok(Token::Decrement),
        '<' => Ok(Token::ShiftLeft),
        '>' => Ok(Token::ShiftRight),
        '^' => Ok(Token::ShiftToValue),
        '_' => Ok(Token::ResetPointer),
        '#' => Ok(Token::Push),
        '$' => Ok(Token::Pop),
        '{' => Ok(Token::JumpIfZero),
        '}' => Ok(Token::JumpIfZeroMarker),
        ':' => Ok(Token::JumpBack),
        '=' => Ok(Token::JumpBackMarker),
        '?' => {
            if i + 1 < s.len() && s[i + 1] == '0' {
                Ok(Token::InputNumeric)
            } else if i + 1 < s.len() && s[i + 1] == 'a' {
                Ok(Token::InputText)
            } else {
                Err(BuildError::MissingInputKind)
            }
        },
        '&' => {
            if i + 1 < s.len() && s[i + 1] == '0' {
                Ok(Token::OutputNumeric)
            } else if i + 1 < s.len() && s[i + 1] == 'a' {
                Ok(Token::OutputText)
            } else {
                Err(BuildError::MissingOutputKind)
            }
        },
        '/' => Err(BuildError::LoneSlash),
        _ => Err(BuildError::UnrecognizedCharacter(c)),
    }
}

/// Skips the white space and the comments that start at `from`: returns the
/// first position at or after `from` that holds neither, or the length of
/// `source` where there is none. A position beyond the end is returned as
/// it is.
pub fn ignore_whitespace(source: &Vec<char>, from: usize) -> (next: usize)
    ensures
        next == skip_blank(source@, from as int, false),
        from <= next,
        from <= source.len() ==> next <= source.len(),
{
    if from >= source.len() {
        return from;
    }
    let mut i: usize = from;
    let mut in_comment: bool = false;
    while i < source.len()
        invariant
            from <= i <= source.len(),
            skip_blank(source@, from as int, false) == skip_blank(source@, i as int, in_comment),
        decreases source.len() - i,
    {
        let c: char = source[i];
        if in_comment {
            in_comment = c != '\n';
            i += 1;
        } else if is_blank(c) {
            i += 1;
        } else if c == '/' && i + 1 < source.len() && source[i + 1] == '/' {
            in_comment = true;
            i += 2;
        } else {
            return i;
        }
    }
    i
}

/// Compiles `source`. The tokens are those read before the end of the text
/// or the first error; the second part is that error, `None` where the
/// whole text compiled.
pub fn tokenize(source: &Vec<char>) -> (r: (Vec<Token>, Option<BuildError>))
    ensures
        r.0@ == lex(source@).tokens,
        r.1 == lex(source@).error,
{
    let mut tokens: Vec<Token> = Vec::new();
    let mut i: usize = 0;
    loop
        invariant
            i <= source.len(),
            lex(source@).tokens == tokens@ + lex_from(source@, i as int, false).tokens,
            lex(source@).error == lex_from(source@, i as int, false).error,
        decreases source.len() - i,
    {
        proof {
            lex_skips_blank(source@, i as int, false);
        }
        i = ignore_whitespace(source, i);
        if i >= source.len() {
            let ghost done = tokens@;
            tokens.push(Token::EndOfProgram);
            assert(done + seq![Token::EndOfProgram] =~= tokens@);
            return (tokens, None);
        }
        match read_token(source, i) {
            Ok(t) => {
                let ghost rest = lex_from(source@, i + token_width(t), false);
                assert(tokens@ + (seq![t] + rest.tokens) =~= tokens@.push(t) + rest.tokens);
                tokens.push(t);
                match t {
                    Token::InputNumeric | Token::InputText | Token::OutputNumeric
                    | Token::OutputText => {
                        i += 2;
                    },
                    _ => {
                        i += 1;
                    },
                }
            },
            Err(e) => {
                assert(tokens@ + Seq::<Token>::empty() =~= tokens@);
                return (tokens, Some(e));
            },
        }
    }
}

} // verus!
