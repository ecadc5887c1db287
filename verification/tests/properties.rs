use circuit_lexer::constants::{AND, NOT, OR, XOR};
use circuit_lexer::parser::error::ParsingError;
use circuit_lexer::parser::lexer::{source_is_valid, Lexer};
use circuit_lexer::parser::text::{cite, parse_decimal, same_text};
use circuit_lexer::parser::token::{clone_tokens, Token, TokenType};

fn lines(text: &[&str]) -> Vec<String> {
    text.iter().map(|s| format!("{}\n", s)).collect()
}

fn lex(text: &[&str]) -> Result<Vec<Token>, ParsingError> {
    let data = lines(text);
    assert!(source_is_valid(&data));
    let mut lexer = Lexer::new(&data);
    lexer.lex()
}

fn token(begin_line: usize, begin_char: usize, len_char: usize, token_type: TokenType) -> Token {
    Token { begin_line, begin_char, len_char, len_line: 1, token_type }
}

fn error(begin_line: usize, begin_char: usize, len_char: usize, message: &str, text: &[&str]) -> ParsingError {
    ParsingError::new(begin_line, begin_char, len_char, 1, message.to_string(), lines(text))
}

fn kinds(tokens: &[Token]) -> Vec<TokenType> {
    tokens.iter().map(|t| t.token_type.clone()).collect()
}

#[test]
fn operator_symbols() {
    assert_eq!(AND, '&');
    assert_eq!(OR, '|');
    assert_eq!(XOR, '^');
    assert_eq!(NOT, '!');
    let tokens = lex(&["&|^!"]).unwrap();
    assert_eq!(
        kinds(&tokens),
        vec![
            TokenType::And,
            TokenType::Or,
            TokenType::Xor,
            TokenType::Not,
            TokenType::Ignore(None)
        ]
    );
}

#[test]
fn blank_source_gives_whitespace_only() {
    let text = ["  \t ", "", " ", "\t\t"];
    let tokens = lex(&text).unwrap();
    let chars: usize = text.iter().map(|l| l.len() + 1).sum();
    assert_eq!(tokens.len(), chars);
    for t in &tokens {
        assert_eq!(t.token_type, TokenType::Ignore(None));
        assert_eq!(t.len_char, 1);
        assert_eq!(t.len_line, 1);
    }
    assert_eq!(tokens[0], token(0, 0, 1, TokenType::Ignore(None)));
    assert_eq!(tokens[5], token(1, 0, 1, TokenType::Ignore(None)));
    assert_eq!(tokens[chars - 1], token(3, 2, 1, TokenType::Ignore(None)));
}

#[test]
fn empty_first_line() {
    let data = lines(&["", "a"]);
    let mut lexer = Lexer::new(&data);
    assert!(lexer.eol());
    assert!(!lexer.eof());
    assert_eq!(lexer.current_char(), '\n');
    assert_eq!(
        lexer.lex(),
        Ok(vec![
            token(0, 0, 1, TokenType::Ignore(None)),
            token(1, 0, 1, TokenType::Identifier("a".to_string())),
            token(1, 1, 1, TokenType::Ignore(None)),
        ])
    );
    assert!(lexer.eof());
}

#[test]
fn single_empty_line() {
    assert_eq!(lex(&[""]), Ok(vec![token(0, 0, 1, TokenType::Ignore(None))]));
}

#[test]
fn binary_runs_are_bit_vectors() {
    assert_eq!(
        lex(&["1010"]),
        Ok(vec![
            token(0, 0, 4, TokenType::BoolTable(vec![true, false, true, false])),
            token(0, 4, 1, TokenType::Ignore(None)),
        ])
    );
    assert_eq!(
        lex(&["010"]),
        Ok(vec![
            token(0, 0, 3, TokenType::BoolTable(vec![false, true, false])),
            token(0, 3, 1, TokenType::Ignore(None)),
        ])
    );
    assert_eq!(kinds(&lex(&["0"]).unwrap())[0], TokenType::BoolTable(vec![false]));
    assert_eq!(kinds(&lex(&["1"]).unwrap())[0], TokenType::BoolTable(vec![true]));
    assert_eq!(
        kinds(&lex(&["0000"]).unwrap())[0],
        TokenType::BoolTable(vec![false, false, false, false])
    );
}

#[test]
fn bit_vector_ends_at_first_other_character() {
    assert_eq!(
        lex(&["10a"]),
        Ok(vec![
            token(0, 0, 2, TokenType::BoolTable(vec![true, false])),
            token(0, 2, 1, TokenType::Identifier("a".to_string())),
            token(0, 3, 1, TokenType::Ignore(None)),
        ])
    );
}

#[test]
fn leading_zero_with_other_digit_is_rejected() {
    assert_eq!(lex(&["0103"]), Err(error(0, 0, 3, "expectet <0, 1> got <3>", &["0103"])));
    assert_eq!(lex(&["09"]), Err(error(0, 0, 1, "expectet <0, 1> got <9>", &["09"])));
    assert_eq!(
        lex(&["ab", "x 00129 1"]),
        Err(error(1, 2, 3, "expectet <0, 1> got <2>", &["ab", "x 00129 1"]))
    );
}

#[test]
fn other_runs_are_numbers() {
    assert_eq!(
        lex(&["102"]),
        Ok(vec![
            token(0, 0, 3, TokenType::Number(102)),
            token(0, 3, 1, TokenType::Ignore(None)),
        ])
    );
    assert_eq!(kinds(&lex(&["2"]).unwrap())[0], TokenType::Number(2));
    assert_eq!(kinds(&lex(&["1012"]).unwrap())[0], TokenType::Number(1012));
    assert_eq!(kinds(&lex(&["9"]).unwrap())[0], TokenType::Number(9));
    assert_eq!(kinds(&lex(&["1100110012"]).unwrap())[0], TokenType::Number(1100110012));
    assert_eq!(kinds(&lex(&["20"]).unwrap())[0], TokenType::Number(20));
}

#[test]
fn largest_number_and_overflow() {
    let largest = isize::MAX.to_string();
    assert_eq!(
        lex(&[largest.as_str()]),
        Ok(vec![
            token(0, 0, largest.len(), TokenType::Number(isize::MAX)),
            token(0, largest.len(), 1, TokenType::Ignore(None)),
        ])
    );
    let too_large = format!("{}0", isize::MAX);
    let message =
        format!("parsing error while parsing number expectet <[0-9]> got <{}>", too_large);
    assert_eq!(
        lex(&[" ", too_large.as_str()]),
        Err(error(1, 0, too_large.len(), &message, &[" ", too_large.as_str()]))
    );
    let next = "9223372036854775808";
    if isize::MAX.to_string() == "9223372036854775807" {
        assert!(lex(&[next]).is_err());
    }
}

#[test]
fn dash_without_arrow_head_is_rejected() {
    assert_eq!(
        lex(&["-"]),
        Err(error(0, 1, 2, "unexpected char expected <>> got <\n>", &["-"]))
    );
    assert_eq!(
        lex(&["a - >"]),
        Err(error(0, 3, 2, "unexpected char expected <>> got < >", &["a - >"]))
    );
    assert_eq!(
        lex(&["--"]),
        Err(error(0, 1, 2, "unexpected char expected <>> got <->", &["--"]))
    );
}

#[test]
fn arrow_positions() {
    assert_eq!(
        lex(&["a->b"]),
        Ok(vec![
            token(0, 0, 1, TokenType::Identifier("a".to_string())),
            token(0, 1, 2, TokenType::Arrow),
            token(0, 3, 1, TokenType::Identifier("b".to_string())),
            token(0, 4, 1, TokenType::Ignore(None)),
        ])
    );
}

#[test]
fn reserved_words_are_exact_and_maximal() {
    assert_eq!(
        lex(&["pin1"]),
        Ok(vec![
            token(0, 0, 4, TokenType::Identifier("pin1".to_string())),
            token(0, 4, 1, TokenType::Ignore(None)),
        ])
    );
    assert_eq!(
        lex(&["dff"]),
        Ok(vec![token(0, 0, 3, TokenType::Dff), token(0, 3, 1, TokenType::Ignore(None))])
    );
    let words = lex(&["pin table count fill dff"]).unwrap();
    assert_eq!(
        kinds(&words),
        vec![
            TokenType::Pin,
            TokenType::Ignore(None),
            TokenType::Table,
            TokenType::Ignore(None),
            TokenType::Count,
            TokenType::Ignore(None),
            TokenType::Fill,
            TokenType::Ignore(None),
            TokenType::Dff,
            TokenType::Ignore(None),
        ]
    );
    for name in ["Pin", "PIN", "pin_", "pi", "pinn", "tables", "dff0", "fil", "counts", "xpin"] {
        assert_eq!(
            kinds(&lex(&[name]).unwrap())[0],
            TokenType::Identifier(name.to_string()),
            "{}",
            name
        );
    }
}

#[test]
fn words_hold_letters_digits_and_underscores() {
    assert_eq!(
        lex(&["aZ_09-"]),
        Err(error(0, 6, 2, "unexpected char expected <>> got <\n>", &["aZ_09-"]))
    );
    assert_eq!(
        lex(&["a_1.b"]),
        Ok(vec![
            token(0, 0, 3, TokenType::Identifier("a_1".to_string())),
            token(0, 3, 1, TokenType::Dot),
            token(0, 4, 1, TokenType::Identifier("b".to_string())),
            token(0, 5, 1, TokenType::Ignore(None)),
        ])
    );
    assert_eq!(lex(&["_a"]), Err(error(0, 0, 1, "unexpected character <_>", &["_a"])));
}

#[test]
fn letter_and_digit_alphabets() {
    for c in ['a', 'z', 'A', 'Z', 'm', 'Q'] {
        assert!(Lexer::is_letter(c));
        assert!(!Lexer::is_digit(c));
    }
    for c in ['0', '9', '5'] {
        assert!(Lexer::is_digit(c));
        assert!(!Lexer::is_letter(c));
    }
    for c in ['@', '[', '`', '{', '/', ':', '_', ' ', '\n', 'é', 'ß', 'Ω', '٣'] {
        assert!(!Lexer::is_letter(c), "{}", c);
        assert!(!Lexer::is_digit(c), "{}", c);
    }
}

#[test]
fn line_comment_leaves_the_line_break() {
    assert_eq!(
        lex(&["x // c", "y"]),
        Ok(vec![
            token(0, 0, 1, TokenType::Identifier("x".to_string())),
            token(0, 1, 1, TokenType::Ignore(None)),
            token(0, 2, 4, TokenType::Ignore(Some("// c".to_string()))),
            token(0, 6, 1, TokenType::Ignore(None)),
            token(1, 0, 1, TokenType::Identifier("y".to_string())),
            token(1, 1, 1, TokenType::Ignore(None)),
        ])
    );
    assert_eq!(
        lex(&["//"]),
        Ok(vec![
            token(0, 0, 2, TokenType::Ignore(Some("//".to_string()))),
            token(0, 2, 1, TokenType::Ignore(None)),
        ])
    );
    assert_eq!(
        lex(&["///* */"]),
        Ok(vec![
            token(0, 0, 7, TokenType::Ignore(Some("///* */".to_string()))),
            token(0, 7, 1, TokenType::Ignore(None)),
        ])
    );
}

#[test]
fn block_comment_counts_its_lines() {
    let tokens = lex(&["a /* one", "two", "", "*/ b"]).unwrap();
    assert_eq!(
        tokens,
        vec![
            token(0, 0, 1, TokenType::Identifier("a".to_string())),
            token(0, 1, 1, TokenType::Ignore(None)),
            Token {
                begin_line: 0,
                begin_char: 2,
                len_char: 14,
                len_line: 4,
                token_type: TokenType::Ignore(Some("/* one\ntwo\n\n*/".to_string())),
            },
            token(3, 2, 1, TokenType::Ignore(None)),
            token(3, 3, 1, TokenType::Identifier("b".to_string())),
            token(3, 4, 1, TokenType::Ignore(None)),
        ]
    );
}

#[test]
fn block_comment_on_one_line() {
    assert_eq!(
        lex(&["/**/"]),
        Ok(vec![
            token(0, 0, 4, TokenType::Ignore(Some("/**/".to_string()))),
            token(0, 4, 1, TokenType::Ignore(None)),
        ])
    );
    assert_eq!(
        lex(&["/* a */1"]),
        Ok(vec![
            token(0, 0, 7, TokenType::Ignore(Some("/* a */".to_string()))),
            token(0, 7, 1, TokenType::BoolTable(vec![true])),
            token(0, 8, 1, TokenType::Ignore(None)),
        ])
    );
    assert_eq!(
        kinds(&lex(&["/* * / **/"]).unwrap())[0],
        TokenType::Ignore(Some("/* * / **/".to_string()))
    );
    assert_eq!(
        kinds(&lex(&["/*// */ pin"]).unwrap()),
        vec![
            TokenType::Ignore(Some("/*// */".to_string())),
            TokenType::Ignore(None),
            TokenType::Pin,
            TokenType::Ignore(None),
        ]
    );
}

#[test]
fn block_comment_ends_at_first_closing() {
    assert_eq!(
        lex(&["/* a */ b /**/"]),
        Ok(vec![
            token(0, 0, 7, TokenType::Ignore(Some("/* a */".to_string()))),
            token(0, 7, 1, TokenType::Ignore(None)),
            token(0, 8, 1, TokenType::Identifier("b".to_string())),
            token(0, 9, 1, TokenType::Ignore(None)),
            token(0, 10, 4, TokenType::Ignore(Some("/**/".to_string()))),
            token(0, 14, 1, TokenType::Ignore(None)),
        ])
    );
    assert_eq!(
        lex(&["/* a */ b */"]),
        Err(error(0, 10, 1, "unexpected character <*>", &["/* a */ b */"]))
    );
}

#[test]
fn star_of_the_opening_does_not_close() {
    assert_eq!(
        lex(&["/*/"]),
        Err(error(0, 3, 1, "unexpected character expected <*, /> got <\n>", &["/*/"]))
    );
    assert_eq!(
        kinds(&lex(&["/*/*/"]).unwrap())[0],
        TokenType::Ignore(Some("/*/*/".to_string()))
    );
}

#[test]
fn star_and_slash_on_different_lines_do_not_close() {
    assert_eq!(
        lex(&["/* *", "/ x"]),
        Err(error(1, 3, 1, "unexpected character expected <*, /> got <\n>", &["/* *", "/ x"]))
    );
}

#[test]
fn unterminated_block_comment_is_rejected_at_the_end() {
    assert_eq!(
        lex(&["a", "/* b", "c d"]),
        Err(error(
            2,
            3,
            1,
            "unexpected character expected <*, /> got <\n>",
            &["a", "/* b", "c d"]
        ))
    );
}

#[test]
fn slash_without_comment_is_rejected() {
    assert_eq!(
        lex(&["/x"]),
        Err(error(0, 1, 1, "unexpected character expected <*, /> got <x>", &["/x"]))
    );
    assert_eq!(
        lex(&["a /"]),
        Err(error(0, 3, 1, "unexpected character expected <*, /> got <\n>", &["a /"]))
    );
}

#[test]
fn unknown_character_is_rejected() {
    assert_eq!(lex(&["$"]), Err(error(0, 0, 1, "unexpected character <$>", &["$"])));
    assert_eq!(
        lex(&["pin a", "  #"]),
        Err(error(1, 2, 1, "unexpected character <#>", &["pin a", "  #"]))
    );
    assert_eq!(lex(&["aé"]), Err(error(0, 1, 1, "unexpected character <é>", &["aé"])));
    assert_eq!(lex(&[">"]), Err(error(0, 0, 1, "unexpected character <>>", &[">"])));
    assert_eq!(lex(&["*"]), Err(error(0, 0, 1, "unexpected character <*>", &["*"])));
}

#[test]
fn first_error_ends_the_pass() {
    assert_eq!(lex(&["a $ 09 -"]), Err(error(0, 2, 1, "unexpected character <$>", &["a $ 09 -"])));
}

#[test]
fn lengths_count_characters() {
    assert_eq!(
        lex(&["// é ∧", "/* ü */a"]),
        Ok(vec![
            token(0, 0, 6, TokenType::Ignore(Some("// é ∧".to_string()))),
            token(0, 6, 1, TokenType::Ignore(None)),
            token(1, 0, 7, TokenType::Ignore(Some("/* ü */".to_string()))),
            token(1, 7, 1, TokenType::Identifier("a".to_string())),
            token(1, 8, 1, TokenType::Ignore(None)),
        ])
    );
}

#[test]
fn line_break_inside_a_line_is_whitespace() {
    let data = vec!["a\nb\n".to_string()];
    assert!(source_is_valid(&data));
    let mut lexer = Lexer::new(&data);
    assert_eq!(
        lexer.lex(),
        Ok(vec![
            token(0, 0, 1, TokenType::Identifier("a".to_string())),
            token(0, 1, 1, TokenType::Ignore(None)),
            token(0, 2, 1, TokenType::Identifier("b".to_string())),
            token(0, 3, 1, TokenType::Ignore(None)),
        ])
    );
}

#[test]
fn tokens_follow_each_other_without_gaps() {
    let text = ["pin a = 10; // in", "/* x", "y */ table{a->b}", "", "count(3) fill[0] dff.q"];
    let data = lines(&text);
    let tokens = lex(&text).unwrap();
    let mut line = 0;
    let mut column = 0;
    for t in &tokens {
        assert_eq!((t.begin_line, t.begin_char), (line, column));
        assert!(t.len_char >= 1);
        for _ in 0..t.len_char {
            column += 1;
            if column == data[line].chars().count() {
                line += 1;
                column = 0;
            }
        }
    }
    assert_eq!((line, column), (data.len(), 0));
}

#[test]
fn recognisers_apply_to_their_first_character_only() {
    let data = lines(&["a1 /"]);
    let mut lexer = Lexer::new(&data);
    assert_eq!(lexer.lex_char(), Ok(false));
    assert_eq!(lexer.lex_num(), Ok(false));
    assert_eq!(lexer.lex_arrow(), Ok(false));
    assert_eq!(lexer.lex_comment(), Ok(false));
    assert_eq!((lexer.line_index(), lexer.char_index()), (0, 0));
    assert_eq!(lexer.lex_identifier(), Ok(true));
    assert_eq!((lexer.line_index(), lexer.char_index()), (0, 2));
    assert_eq!(lexer.lex_identifier(), Ok(false));
    assert_eq!(lexer.lex_char(), Ok(true));
    assert_eq!(lexer.current_char(), '/');
    assert!(lexer.lex_comment().is_err());
}

#[test]
fn pass_resumes_at_the_cursor() {
    let data = lines(&["ab c"]);
    let mut lexer = Lexer::new(&data);
    lexer.next();
    assert_eq!(lexer.lex_identifier(), Ok(true));
    assert_eq!(
        lexer.lex(),
        Ok(vec![
            token(0, 1, 1, TokenType::Identifier("b".to_string())),
            token(0, 2, 1, TokenType::Ignore(None)),
            token(0, 3, 1, TokenType::Identifier("c".to_string())),
            token(0, 4, 1, TokenType::Ignore(None)),
        ])
    );
    assert!(lexer.eof());
    assert_eq!(lexer.lex().map(|t| t.len()), Ok(4));
}

#[test]
fn cursor_rests_on_the_last_character_when_finished() {
    let data = lines(&["ab", "c"]);
    let mut lexer = Lexer::new(&data);
    for _ in 0..5 {
        assert!(!lexer.eof());
        lexer.next();
    }
    assert!(lexer.eof());
    assert!(lexer.eol());
    assert_eq!((lexer.line_index(), lexer.char_index()), (1, 1));
    assert_eq!(lexer.current_char(), '\n');
    assert_eq!(lexer.current_line(), "c\n");
}

#[test]
fn decimal_numbers() {
    assert_eq!(parse_decimal("0"), Some(0));
    assert_eq!(parse_decimal("7"), Some(7));
    assert_eq!(parse_decimal("007"), Some(7));
    assert_eq!(parse_decimal("349645"), Some(349645));
    assert_eq!(parse_decimal("1000000000"), Some(1_000_000_000));
    assert_eq!(parse_decimal(&isize::MAX.to_string()), Some(isize::MAX));
    assert_eq!(parse_decimal(&format!("{}0", isize::MAX)), None);
    assert_eq!(parse_decimal(&format!("1{}", isize::MAX)), None);
    assert_eq!(parse_decimal(""), None);
    assert_eq!(parse_decimal("12a"), None);
    assert_eq!(parse_decimal("-1"), None);
    assert_eq!(parse_decimal("+1"), None);
    assert_eq!(parse_decimal(" 1"), None);
    assert_eq!(parse_decimal("٣"), None);
}

#[test]
fn messages_cite_in_angle_brackets() {
    assert_eq!(cite("unexpected character <", "$"), "unexpected character <$>");
    assert_eq!(cite("got <", ""), "got <>");
    assert_eq!(cite("", "ab"), "ab>");
}

#[test]
fn text_comparison() {
    assert!(same_text("", ""));
    assert!(same_text("pin", "pin"));
    assert!(!same_text("pin", "pim"));
    assert!(!same_text("pin", "pin1"));
    assert!(!same_text("pin", "pi"));
    assert!(!same_text("pin", "Pin"));
    assert!(same_text("é∧", "é∧"));
    assert!(!same_text("é", "e"));
}

#[test]
fn source_validity() {
    assert!(!source_is_valid(&Vec::new()));
    assert!(!source_is_valid(&vec!["".to_string()]));
    assert!(!source_is_valid(&vec!["a".to_string()]));
    assert!(!source_is_valid(&vec!["a\n".to_string(), "b".to_string()]));
    assert!(!source_is_valid(&vec!["a\n".to_string(), "".to_string()]));
    assert!(!source_is_valid(&vec!["\na".to_string()]));
    assert!(source_is_valid(&vec!["\n".to_string()]));
    assert!(source_is_valid(&vec!["a\n".to_string(), "\n".to_string(), "é\n".to_string()]));
}

#[test]
fn diagnostic_constructors() {
    let data = lines(&["x"]);
    let by_numbers = ParsingError::new(3, 4, 5, 6, "m".to_string(), data.clone());
    assert_eq!(
        by_numbers.position,
        Token { begin_line: 3, begin_char: 4, len_char: 5, len_line: 6, token_type: TokenType::Unknown }
    );
    assert_eq!(by_numbers.message, "m");
    assert_eq!(by_numbers.data, data);
    let at = Token {
        begin_line: 3,
        begin_char: 4,
        len_char: 5,
        len_line: 6,
        token_type: TokenType::Number(7),
    };
    let by_token = ParsingError::from_token(at.clone(), "m".to_string(), data.clone());
    assert_eq!(by_token.position, at);
    assert_eq!(by_token.message, "m");
    assert_eq!(by_token.data, data);
    assert_ne!(by_token, by_numbers);
}

#[test]
fn copies_are_equal() {
    let tokens = lex(&["pin a1 = 102 0101 -> /* c */ // d"]).unwrap();
    assert_eq!(clone_tokens(&tokens), tokens);
    for t in &tokens {
        assert_eq!(&t.clone(), t);
        assert_eq!(t.token_type.clone(), t.token_type);
    }
    let every = vec![
        TokenType::Pin,
        TokenType::Table,
        TokenType::Count,
        TokenType::Fill,
        TokenType::Dff,
        TokenType::Identifier("x".to_string()),
        TokenType::Number(-3),
        TokenType::BoolTable(vec![true, false]),
        TokenType::And,
        TokenType::Or,
        TokenType::Xor,
        TokenType::Not,
        TokenType::RoundOpen,
        TokenType::RoundClose,
        TokenType::CurlyOpen,
        TokenType::CurlyClose,
        TokenType::SquareOpen,
        TokenType::SquareClose,
        TokenType::Comma,
        TokenType::Semicolon,
        TokenType::Equals,
        TokenType::Dot,
        TokenType::Arrow,
        TokenType::Ignore(None),
        TokenType::Ignore(Some("// c".to_string())),
        TokenType::Unknown,
    ];
    for kind in &every {
        assert_eq!(&kind.clone(), kind);
    }
}

#[test]
fn same_source_gives_same_result() {
    let text = ["pin a = 2;", "0103"];
    assert_eq!(lex(&text), lex(&text));
    let text = ["pin a = 2;", "/* c */"];
    assert_eq!(lex(&text), lex(&text));
}

#[test]
fn no_placeholder_in_a_token_list() {
    let tokens = lex(&["pin a, b = 10 -> (c & !d) | e ^ f; // g", "/* h", "*/ table { 12 } [x.y]"])
        .unwrap();
    assert_eq!(tokens.len(), 49);
    for t in &tokens {
        assert_ne!(t.token_type, TokenType::Unknown);
        assert!(t.len_line >= 1);
    }
}

/// Checks what holds of every outcome: tokens that follow each other from the
/// first character to the end, or an error that lies in the source.
fn check_outcome(data: &Vec<String>) {
    assert!(source_is_valid(data));
    let mut lexer = Lexer::new(data);
    match lexer.lex() {
        Ok(tokens) => {
            assert!(lexer.eof());
            let mut line = 0;
            let mut column = 0;
            let mut total = 0;
            for t in &tokens {
                assert_eq!((t.begin_line, t.begin_char), (line, column));
                assert_ne!(t.token_type, TokenType::Unknown);
                assert!(t.len_char >= 1);
                let mut last_line = line;
                for _ in 0..t.len_char {
                    last_line = line;
                    column += 1;
                    if column == data[line].chars().count() {
                        line += 1;
                        column = 0;
                    }
                }
                assert_eq!(t.len_line, last_line - t.begin_line + 1);
                total += t.len_char;
            }
            assert_eq!((line, column), (data.len(), 0));
            assert_eq!(total, data.iter().map(|l| l.chars().count()).sum::<usize>());
        },
        Err(error) => {
            assert_eq!(&error.data, data);
            assert_eq!(error.position.token_type, TokenType::Unknown);
            assert_eq!(error.position.len_line, 1);
            assert!(error.position.begin_line < data.len());
            assert!(error.position.begin_char < data[error.position.begin_line].chars().count());
            assert!(error.message.ends_with('>'));
        },
    }
}

#[test]
fn every_short_source_has_a_sound_outcome() {
    let alphabet = ['a', 'Z', '0', '1', '7', '_', '-', '>', '/', '*', ' ', '$', '&', '\n'];
    let mut texts: Vec<String> = vec![String::new()];
    let mut from = 0;
    for _ in 0..4 {
        let upto = texts.len();
        for i in from..upto {
            for c in alphabet {
                let mut longer = texts[i].clone();
                longer.push(c);
                texts.push(longer);
            }
        }
        from = upto;
    }
    assert_eq!(texts.len(), 1 + 14 + 14 * 14 + 14 * 14 * 14 + 14 * 14 * 14 * 14);
    for text in &texts {
        let data: Vec<String> = text.split('\n').map(|l| format!("{}\n", l)).collect();
        check_outcome(&data);
    }
}

#[test]
fn outcomes_of_chosen_sources() {
    for text in [
        "pin a = 0101;\ntable t { a -> b }\n",
        "/* open\n\n",
        "/**/\n/***/\n/****/\n",
        "//\n///\n////\n",
        "dff q(clk, d) -> 1 /* one\ntwo */ count 3 fill 0\n",
        "a-\n>\n",
        "0000000000000000000000000000000000000000000000000000000000000000000001\n",
        "1000000000000000000000000000000000000000000000000000000000000000000002\n",
    ] {
        let data: Vec<String> =
            text.trim_end_matches('\n').split('\n').map(|l| format!("{}\n", l)).collect();
        check_outcome(&data);
    }
}
