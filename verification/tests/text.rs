use js_tokenizer::text::{chars_of, spells, string_of};

#[test]
fn characters_of_a_string() {
    assert_eq!(chars_of(""), Vec::<char>::new());
    assert_eq!(chars_of("a=b"), vec!['a', '=', 'b']);
    assert_eq!(chars_of("é\n日"), vec!['é', '\n', '日']);
}

#[test]
fn string_of_characters() {
    assert_eq!(string_of(&[]), "");
    assert_eq!(string_of(&['a']), "a");
    assert_eq!(string_of(&['v', 'a', 'r']), "var");
    assert_eq!(string_of(&['é', ' ', '日']), "é 日");
}

#[test]
fn string_of_characters_of_a_string_is_the_string() {
    for text in ["", "x", "let total = 1+2;", "naïve\tcafé\n"] {
        assert_eq!(string_of(&chars_of(text)), text);
    }
}

#[test]
fn spelling_is_exact() {
    assert!(spells(&['v', 'a', 'r'], "var"));
    assert!(spells(&[], ""));
    assert!(!spells(&['v', 'a'], "var"));
    assert!(!spells(&['v', 'a', 'r', 's'], "var"));
    assert!(!spells(&['V', 'a', 'r'], "var"));
    assert!(!spells(&[], "var"));
    assert!(!spells(&['v', 'a', 'r'], ""));
    assert!(!spells(&['v', 'a', 'x'], "var"));
}
