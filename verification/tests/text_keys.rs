use limitation_text::keys::{entry_lower, entry_upper, getlowerchar, getupperchar};
use limitation_text::text::{chars_of, code_point, is_blank, join, parse_decimal, push_decimal};
use limitation_text::token::Token;

#[test]
fn white_space_is_what_std_calls_white_space() {
    for v in 0..=0x10FFFFu32 {
        if let Some(c) = char::from_u32(v) {
            assert_eq!(is_blank(c), c.is_whitespace(), "code point {:#x}", v);
        }
    }
}

#[test]
fn decimal_text_of_numbers() {
    for n in [0u32, 1, 9, 10, 11, 99, 100, 101, 511, 512, 16_777_215, 4_294_967_295] {
        let mut out = String::from("n=");
        push_decimal(&mut out, n);
        assert_eq!(out, format!("n={}", n));
    }
}

#[test]
fn numbers_are_read_from_digits_only() {
    let read = |text: &str| parse_decimal(&text.chars().collect());
    assert_eq!(read("0"), Some(0));
    assert_eq!(read("42"), Some(42));
    assert_eq!(read("007"), Some(7));
    assert_eq!(read("16777215"), Some(16_777_215));
    assert_eq!(read("16777216"), None);
    assert_eq!(read("4294967296"), None);
    assert_eq!(read("123456789012345678901234567890"), None);
    assert_eq!(read("167772150"), None);
    assert_eq!(read(""), None);
    assert_eq!(read("+5"), None);
    assert_eq!(read("-5"), None);
    assert_eq!(read("5 "), None);
    assert_eq!(read("12a"), None);
    assert_eq!(read("99999999999x"), None);
    assert_eq!(read("\u{661}"), None);
}

#[test]
fn characters_of_a_string_in_order() {
    assert_eq!(chars_of(""), Vec::<char>::new());
    assert_eq!(chars_of("a\u{3bb}\n+"), vec!['a', '\u{3bb}', '\n', '+']);
}

#[test]
fn code_points_of_characters() {
    assert_eq!(code_point('A'), 65);
    assert_eq!(code_point('\0'), 0);
    assert_eq!(code_point('\u{10ffff}'), 1_114_111);
}

#[test]
fn joined_lines_have_newlines_between_them() {
    let text = |lines: &[&str]| {
        let owned: Vec<String> = lines.iter().map(|line| line.to_string()).collect();
        join(&owned).into_iter().collect::<String>()
    };
    assert_eq!(text(&[]), "");
    assert_eq!(text(&["abc"]), "abc");
    assert_eq!(text(&["a", "b"]), "a\nb");
    assert_eq!(text(&["", "", "x", ""]), "\n\nx\n");
}

#[test]
fn input_tokens_are_the_two_that_ask() {
    assert!(Token::InputNumeric.is_input_request());
    assert!(Token::InputText.is_input_request());
    assert!(!Token::OutputNumeric.is_input_request());
    assert!(!Token::EndOfProgram.is_input_request());
}

fn expected_lower(code: i32) -> char {
    match code {
        97..=122 | 48..=57 => code as u8 as char,
        45 => '-',
        61 => '=',
        91 => '[',
        93 => ']',
        92 => '\\',
        59 => ';',
        44 => ',',
        46 => '.',
        47 => '/',
        9 => '\t',
        32 => ' ',
        _ => '\0',
    }
}

fn expected_upper(code: i32) -> char {
    match code {
        97..=122 => (code as u8 as char).to_ascii_uppercase(),
        48 => ')',
        49 => '!',
        50 => '@',
        51 => '#',
        52 => '$',
        53 => '%',
        54 => '^',
        55 => '&',
        56 => '*',
        57 => '(',
        45 => '_',
        61 => '+',
        91 => '{',
        93 => '}',
        92 => '|',
        59 => ':',
        44 => '<',
        46 => '>',
        47 => '?',
        9 => '\t',
        32 => ' ',
        _ => '\0',
    }
}

#[test]
fn key_tables_of_the_editor() {
    for code in -300..1300 {
        assert_eq!(getlowerchar(&code), expected_lower(code), "code {}", code);
        assert_eq!(getupperchar(&code), expected_upper(code), "code {}", code);
    }
    for code in [i32::MIN, i32::MAX, 1073741882, 353, 378] {
        assert_eq!(getlowerchar(&code), '\0');
        assert_eq!(getupperchar(&code), '\0');
    }
}

#[test]
fn key_tables_of_the_console() {
    for code in -300..1300 {
        let lower = match code {
            97..=122 | 48..=57 | 45 | 46 | 32 => code as u8 as char,
            _ => '\0',
        };
        let upper = match code {
            97..=122 => (code as u8 as char).to_ascii_uppercase(),
            45 => '_',
            32 => ' ',
            _ => '\0',
        };
        assert_eq!(entry_lower(code), lower, "code {}", code);
        assert_eq!(entry_upper(code), upper, "code {}", code);
    }
}
