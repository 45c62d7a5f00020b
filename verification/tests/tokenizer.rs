use js_tokenizer::token::{EToken, Token};
use js_tokenizer::tokenizer::Tokenizer;

fn scan(code: &str) -> Vec<Token> {
    Tokenizer::new(String::from(code)).tokenize()
}

fn identifier(text: &str, line: u32, start: u32, end: u32) -> Token {
    Token::new(EToken::Identifier(String::from(text)), line, start, end)
}

fn keyword(text: &str, line: u32, start: u32, end: u32) -> Token {
    Token::new(EToken::Keyword(String::from(text)), line, start, end)
}

fn operator(text: &str, line: u32, start: u32, end: u32) -> Token {
    Token::new(EToken::Operator(String::from(text)), line, start, end)
}

fn punctuator(text: &str, line: u32, start: u32, end: u32) -> Token {
    Token::new(EToken::Punctuator(String::from(text)), line, start, end)
}

fn literal(text: &str, line: u32, start: u32, end: u32) -> Token {
    Token::new(EToken::Literal(String::from(text)), line, start, end)
}

#[test]
fn generates_correct_amount_of_tokens() {
    let code = String::from("var x = 10;");
    let tokenizer = Tokenizer::new(code);
    let tokens = tokenizer.tokenize();

    assert_eq!(tokens.len(), 5);
}

#[test]
fn generates_correct_tokens() {
    let code = String::from("var x = 10;");
    let tokenizer = Tokenizer::new(code);
    let tokens = tokenizer.tokenize();

    let correct_tokens = vec![
        Token::new(EToken::Keyword(String::from("var")), 0, 0, 2),
        Token::new(EToken::Identifier(String::from("x")), 0, 4, 4),
        Token::new(EToken::Operator(String::from("=")), 0, 6, 6),
        Token::new(EToken::Literal(String::from("10")), 0, 8, 9),
        Token::new(EToken::Punctuator(String::from(";")), 0, 9, 9),
    ];

    for (index, token) in tokens.iter().enumerate() {
        let correct_token = &correct_tokens.get(index);
        assert!(correct_token.is_some());
        assert_eq!(token.token, correct_token.unwrap().token);
    }
}

#[test]
fn empty_source_has_no_tokens() {
    assert_eq!(scan(""), vec![]);
}

#[test]
fn whitespace_only_source_has_no_tokens() {
    assert_eq!(scan(" \t\r\n  \n\u{0B}\u{0C} "), vec![]);
}

#[test]
fn variable_declaration_has_exact_spans() {
    assert_eq!(
        scan("var x = 10;"),
        vec![
            keyword("var", 1, 0, 2),
            identifier("x", 1, 4, 4),
            operator("=", 1, 6, 6),
            literal("10", 1, 8, 9),
            punctuator(";", 1, 10, 10),
        ]
    );
}

#[test]
fn strict_equality_is_one_operator() {
    assert_eq!(
        scan("a===b"),
        vec![identifier("a", 1, 0, 0), operator("===", 1, 1, 3), identifier("b", 1, 4, 4)]
    );
}

#[test]
fn arrow_is_one_operator() {
    assert_eq!(
        scan("x=>y"),
        vec![identifier("x", 1, 0, 0), operator("=>", 1, 1, 2), identifier("y", 1, 3, 3)]
    );
}

#[test]
fn plus_between_literals_is_its_own_token() {
    assert_eq!(
        scan("let total = 1+2;"),
        vec![
            keyword("let", 1, 0, 2),
            identifier("total", 1, 4, 8),
            operator("=", 1, 10, 10),
            literal("1", 1, 12, 12),
            operator("+", 1, 13, 13),
            literal("2", 1, 14, 14),
            punctuator(";", 1, 15, 15),
        ]
    );
}

#[test]
fn semicolon_next_to_identifier_is_its_own_token() {
    assert_eq!(scan("x;"), vec![identifier("x", 1, 0, 0), punctuator(";", 1, 1, 1)]);
}

#[test]
fn trailing_lexeme_without_whitespace_is_kept() {
    assert_eq!(scan("const answer"), vec![keyword("const", 1, 0, 4), identifier("answer", 1, 6, 11)]);
    assert_eq!(scan("foo"), vec![identifier("foo", 1, 0, 2)]);
    assert_eq!(scan("a >>>"), vec![identifier("a", 1, 0, 0), operator(">>>", 1, 2, 4)]);
}

#[test]
fn single_character_source() {
    assert_eq!(scan("x"), vec![identifier("x", 1, 0, 0)]);
    assert_eq!(scan("7"), vec![literal("7", 1, 0, 0)]);
    assert_eq!(scan(";"), vec![punctuator(";", 1, 0, 0)]);
    assert_eq!(scan("="), vec![operator("=", 1, 0, 0)]);
}

#[test]
fn longest_symbol_is_taken_first() {
    assert_eq!(scan("===="), vec![operator("===", 1, 0, 2), operator("=", 1, 3, 3)]);
    assert_eq!(scan("====="), vec![operator("===", 1, 0, 2), operator("==", 1, 3, 4)]);
    assert_eq!(scan("=>>"), vec![operator("=>", 1, 0, 1), operator(">", 1, 2, 2)]);
    assert_eq!(scan(">>>>"), vec![operator(">>>", 1, 0, 2), operator(">", 1, 3, 3)]);
    assert_eq!(scan(">>="), vec![operator(">>", 1, 0, 1), operator("=", 1, 2, 2)]);
    assert_eq!(scan("!==="), vec![operator("!==", 1, 0, 2), operator("=", 1, 3, 3)]);
    assert_eq!(scan("+++"), vec![operator("++", 1, 0, 1), operator("+", 1, 2, 2)]);
    assert_eq!(scan("<=="), vec![operator("<=", 1, 0, 1), operator("=", 1, 2, 2)]);
    assert_eq!(scan("&&&"), vec![operator("&&", 1, 0, 1), operator("&", 1, 2, 2)]);
}

#[test]
fn symbols_that_form_no_entry_are_split() {
    assert_eq!(scan("=+"), vec![operator("=", 1, 0, 0), operator("+", 1, 1, 1)]);
    assert_eq!(scan("*/"), vec![operator("*", 1, 0, 0), operator("/", 1, 1, 1)]);
    assert_eq!(scan(";;"), vec![punctuator(";", 1, 0, 0), punctuator(";", 1, 1, 1)]);
    assert_eq!(scan("=;"), vec![operator("=", 1, 0, 0), punctuator(";", 1, 1, 1)]);
    assert_eq!(scan("~^"), vec![operator("~", 1, 0, 0), operator("^", 1, 1, 1)]);
}

#[test]
fn operators_need_no_whitespace_around_them() {
    assert_eq!(
        scan("i++<n&&!done"),
        vec![
            identifier("i", 1, 0, 0),
            operator("++", 1, 1, 2),
            operator("<", 1, 3, 3),
            identifier("n", 1, 4, 4),
            operator("&&", 1, 5, 6),
            operator("!", 1, 7, 7),
            identifier("done", 1, 8, 11),
        ]
    );
}

#[test]
fn lines_count_from_one_and_columns_start_over() {
    assert_eq!(
        scan("var a;\n  let b\n\nc"),
        vec![
            keyword("var", 1, 0, 2),
            identifier("a", 1, 4, 4),
            punctuator(";", 1, 5, 5),
            keyword("let", 2, 2, 4),
            identifier("b", 2, 6, 6),
            identifier("c", 4, 0, 0),
        ]
    );
}

#[test]
fn carriage_return_and_tab_are_whitespace() {
    assert_eq!(
        scan("a\r\n\tb\r\nc"),
        vec![identifier("a", 1, 0, 0), identifier("b", 2, 1, 1), identifier("c", 3, 0, 0)]
    );
    assert_eq!(scan("a\rb"), vec![identifier("a", 1, 0, 0), identifier("b", 1, 2, 2)]);
}

#[test]
fn leading_newlines_move_the_first_token_down() {
    assert_eq!(scan("\n\n x"), vec![identifier("x", 3, 1, 1)]);
}

#[test]
fn operator_words_are_operators() {
    assert_eq!(
        scan("typeof x in y"),
        vec![
            operator("typeof", 1, 0, 5),
            identifier("x", 1, 7, 7),
            operator("in", 1, 9, 10),
            identifier("y", 1, 12, 12),
        ]
    );
}

#[test]
fn words_are_taken_whole() {
    assert_eq!(scan("variable"), vec![identifier("variable", 1, 0, 7)]);
    assert_eq!(scan("instance"), vec![identifier("instance", 1, 0, 7)]);
    assert_eq!(scan("10abc"), vec![identifier("10abc", 1, 0, 4)]);
    assert_eq!(scan("abc10"), vec![identifier("abc10", 1, 0, 4)]);
    assert_eq!(scan("_private $jq"), vec![identifier("_private", 1, 0, 7), identifier("$jq", 1, 9, 11)]);
}

#[test]
fn stray_characters_fall_back_to_identifier() {
    assert_eq!(scan("@"), vec![identifier("@", 1, 0, 0)]);
    assert_eq!(scan("a@b"), vec![identifier("a@b", 1, 0, 2)]);
    assert_eq!(scan("# x"), vec![identifier("#", 1, 0, 0), identifier("x", 1, 2, 2)]);
    assert_eq!(scan("\"hi\""), vec![identifier("\"hi\"", 1, 0, 3)]);
    assert_eq!(scan("1.5"), vec![identifier("1.5", 1, 0, 2)]);
    assert_eq!(
        scan("f(x)"),
        vec![identifier("f(x)", 1, 0, 3)]
    );
    assert_eq!(
        scan("a@=b"),
        vec![identifier("a@", 1, 0, 1), operator("=", 1, 2, 2), identifier("b", 1, 3, 3)]
    );
}

#[test]
fn columns_count_characters_not_bytes() {
    assert_eq!(scan("é x"), vec![identifier("é", 1, 0, 0), identifier("x", 1, 2, 2)]);
    assert_eq!(scan("日本 = 1"), vec![
        identifier("日本", 1, 0, 1),
        operator("=", 1, 3, 3),
        literal("1", 1, 5, 5),
    ]);
}

#[test]
fn column_end_is_start_plus_length_minus_one() {
    let tokens = scan("  function   instanceof=>12345");
    assert_eq!(
        tokens,
        vec![
            keyword("function", 1, 2, 9),
            operator("instanceof", 1, 13, 22),
            operator("=>", 1, 23, 24),
            literal("12345", 1, 25, 29),
        ]
    );
    for token in tokens.iter() {
        let length = token.token.text().chars().count() as u32;
        assert_eq!(token.column_end_number, token.column_start_number + length - 1);
    }
}

#[test]
fn tokens_are_in_reading_order_and_do_not_overlap() {
    let tokens = scan("var a=1;\nlet  b = a>>>2;\n\n  function f => a!==b\n;");
    assert_eq!(tokens.len(), 19);
    for pair in tokens.windows(2) {
        let (first, second) = (&pair[0], &pair[1]);
        assert!(
            (first.line_number, first.column_start_number)
                < (second.line_number, second.column_start_number)
        );
        if first.line_number == second.line_number {
            assert!(first.column_end_number < second.column_start_number);
        }
    }
    for token in tokens.iter() {
        assert!(token.line_number >= 1);
        assert!(token.column_start_number <= token.column_end_number);
    }
}

#[test]
fn classifying_a_token_text_again_gives_the_same_kind() {
    let tokenizer = Tokenizer::new(String::from(
        "var a = 10;\nlet b=a===1 ? typeof a : void 0;\nfunction f => a@b >>> 2x",
    ));
    let tokens = tokenizer.tokenize();
    assert_eq!(tokens.len(), 24);
    for token in tokens.iter() {
        assert_eq!(tokenizer.get_token(token.token.text()), token.token);
    }
}

#[test]
fn scanning_a_token_text_alone_gives_that_token() {
    let tokens = scan("var a = 10;\nlet b=a===1;\n x=>y!==z>>>2 instanceof q");
    assert_eq!(tokens.len(), 21);
    for token in tokens.iter() {
        let text = token.token.text();
        let alone = scan(text);
        assert_eq!(alone.len(), 1);
        assert_eq!(alone[0].token, token.token);
        assert_eq!(alone[0].line_number, 1);
        assert_eq!(alone[0].column_start_number, 0);
        assert_eq!(alone[0].column_end_number, text.chars().count() as u32 - 1);
    }
}

#[test]
fn token_texts_put_together_are_the_source_without_whitespace() {
    let source = "var a = 10;\n\tlet b=a===1;\r\n x=>y  !==z>>>2 @ instanceof q\n";
    let joined: String = scan(source).iter().map(|token| token.token.text()).collect();
    let visible: String = source.chars().filter(|c| !c.is_whitespace()).collect();
    assert_eq!(joined, visible);
}

#[test]
fn token_text_stands_in_the_source_at_its_span() {
    let source = "var a = 10;\n\tlet b=a===1;\n\n x=>y  !==z";
    let lines: Vec<Vec<char>> = source.split('\n').map(|line| line.chars().collect()).collect();
    let tokens = scan(source);
    assert_eq!(tokens.len(), 17);
    for token in tokens.iter() {
        let line = &lines[token.line_number as usize - 1];
        let span = &line[token.column_start_number as usize..=token.column_end_number as usize];
        let text: String = span.iter().collect();
        assert_eq!(text, token.token.text());
    }
}

#[test]
fn scanning_twice_gives_the_same_tokens() {
    let tokenizer = Tokenizer::new(String::from("let a = 1;\nlet b = a+++2;"));
    let first = tokenizer.tokenize();
    let second = tokenizer.tokenize();
    assert_eq!(first.len(), 13);
    assert_eq!(first, second);
}

#[test]
fn long_source_is_scanned_in_one_pass() {
    let lines: u32 = 50_000;
    let mut source = String::new();
    for _ in 0..lines {
        source.push_str("let total = total+1;\n");
    }
    let tokens = scan(&source);
    assert_eq!(tokens.len(), 7 * lines as usize);
    assert_eq!(tokens[0], keyword("let", 1, 0, 2));
    assert_eq!(tokens[tokens.len() - 1], punctuator(";", lines, 19, 19));
    assert_eq!(tokens[tokens.len() - 3], operator("+", lines, 17, 17));
}
