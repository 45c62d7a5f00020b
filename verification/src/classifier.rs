//! The lookup tables of the language and the rules that turn a finished
//! lexeme into a classified one.

use crate::text::{spells, string_of};
use crate::token::{Category, EToken, Kind};
use vstd::prelude::*;

verus! {

/// Characters that separate lexemes: space, tab, line feed, vertical tab,
/// form feed and carriage return.
pub open spec fn whitespace(c: char) -> bool {
    c == ' ' || c == '\t' || c == '\n' || c == '\u{0B}' || c == '\u{0C}' || c == '\r'
}

/// Characters that operators and punctuators are made of.
pub open spec fn symbol_char(c: char) -> bool {
    c == '=' || c == '>' || c == '<' || c == '!' || c == '+' || c == '-' || c == '*' || c == '/'
        || c == '%' || c == '&' || c == '|' || c == '^' || c == '~' || c == ';'
}

/// Characters that words are made of: everything that neither separates
/// lexemes nor belongs to an operator or punctuator.
pub open spec fn word_char(c: char) -> bool {
    !whitespace(c) && !symbol_char(c)
}

/// A decimal digit.
pub open spec fn digit(c: char) -> bool {
    '0' <= c <= '9'
}

/// A character an identifier may hold: a letter, `_` or `$`.
pub open spec fn identifier_char(c: char) -> bool {
    'a' <= c <= 'z' || 'A' <= c <= 'Z' || c == '_' || c == '$'
}

/// The declaration keywords.
pub open spec fn keyword(s: Seq<char>) -> bool {
    ||| s == "var"@
    ||| s == "let"@
    ||| s == "const"@
    ||| s == "function"@
}

/// The reserved words that act as operators in expressions.
pub open spec fn operator_word(s: Seq<char>) -> bool {
    ||| s == "in"@
    ||| s == "instanceof"@
    ||| s == "typeof"@
    ||| s == "void"@
    ||| s == "delete"@
}

/// The operators written with symbol characters.
pub open spec fn operator_symbol(s: Seq<char>) -> bool {
    ||| s == "=>"@
    ||| s == "="@
    ||| s == "+"@
    ||| s == "-"@
    ||| s == "*"@
    ||| s == "/"@
    ||| s == "%"@
    ||| s == "=="@
    ||| s == "==="@
    ||| s == "!="@
    ||| s == "!=="@
    ||| s == ">"@
    ||| s == "<"@
    ||| s == ">="@
    ||| s == "<="@
    ||| s == "&&"@
    ||| s == "||"@
    ||| s == "!"@
    ||| s == "&"@
    ||| s == "|"@
    ||| s == "^"@
    ||| s == "~"@
    ||| s == "<<"@
    ||| s == ">>"@
    ||| s == ">>>"@
    ||| s == "++"@
    ||| s == "--"@
}

/// The punctuators.
pub open spec fn punctuator(s: Seq<char>) -> bool {
    s == ";"@
}

/// The symbol table, whose entries the scanner matches longest first:
/// the operators written with symbol characters, and the punctuators.
pub open spec fn symbol(s: Seq<char>) -> bool {
    operator_symbol(s) || punctuator(s)
}

/// Every character may stand in an identifier. Holds of the empty text.
pub open spec fn identifier_shape(s: Seq<char>) -> bool {
    forall|i: int| 0 <= i < s.len() ==> identifier_char(#[trigger] s[i])
}

/// Every character is a decimal digit.
pub open spec fn digits(s: Seq<char>) -> bool {
    forall|i: int| 0 <= i < s.len() ==> digit(#[trigger] s[i])
}

/// The category of a lexeme that is in none of the tables, by its shape alone:
/// an identifier, unless it is a run of digits. A lexeme that mixes letters
/// and digits, or holds a character no rule provides for, is an identifier.
pub open spec fn shape_category(s: Seq<char>) -> Category {
    if identifier_shape(s) {
        Category::Identifier
    } else if digits(s) {
        Category::Literal
    } else {
        Category::Identifier
    }
}

/// The category of a finished lexeme: the tables are consulted first, by exact
/// and case-sensitive match, and the shape decides for everything else.
pub open spec fn category_of(s: Seq<char>) -> Category {
    if keyword(s) {
        Category::Keyword
    } else if operator_word(s) || operator_symbol(s) {
        Category::Operator
    } else if punctuator(s) {
        Category::Punctuator
    } else {
        shape_category(s)
    }
}

/// The classified lexeme for the text `s`: its category, and `s` itself.
pub open spec fn classify(s: Seq<char>) -> Kind {
    Kind { category: category_of(s), text: s }
}

/// Whether `c` separates lexemes.
pub fn is_whitespace(c: char) -> (r: bool)
    ensures
        r == whitespace(c),
{
    c == ' ' || c == '\t' || c == '\n' || c == '\u{0B}' || c == '\u{0C}' || c == '\r'
}

/// Whether operators and punctuators are made of `c`.
pub fn is_symbol_char(c: char) -> (r: bool)
    ensures
        r == symbol_char(c),
{
    c == '=' || c == '>' || c == '<' || c == '!' || c == '+' || c == '-' || c == '*' || c == '/'
        || c == '%' || c == '&' || c == '|' || c == '^' || c == '~' || c == ';'
}

/// Whether `c` is a decimal digit.
pub fn is_digit(c: char) -> (r: bool)
    ensures
        r == digit(c),
{
    '0' <= c && c <= '9'
}

/// Whether `c` is a letter, `_` or `$`.
pub fn is_identifier_char(c: char) -> (r: bool)
    ensures
        r == identifier_char(c),
{
    ('a' <= c && c <= 'z') || ('A' <= c && c <= 'Z') || c == '_' || c == '$'
}

/// Whether the lexeme is a declaration keyword.
pub fn is_keyword(lexeme: &[char]) -> (r: bool)
    ensures
        r == keyword(lexeme@),
{
    spells(lexeme, "var")
        || spells(lexeme, "let")
        || spells(lexeme, "const")
        || spells(lexeme, "function")
}

/// Whether the lexeme is a reserved word that acts as an operator.
pub fn is_operator_word(lexeme: &[char]) -> (r: bool)
    ensures
        r == operator_word(lexeme@),
{
    spells(lexeme, "in")
        || spells(lexeme, "instanceof")
        || spells(lexeme, "typeof")
        || spells(lexeme, "void")
        || spells(lexeme, "delete")
}

/// Whether the lexeme is an operator written with symbol characters.
pub fn is_operator_symbol(lexeme: &[char]) -> (r: bool)
    ensures
        r == operator_symbol(lexeme@),
{
    spells(lexeme, "=>")
        || spells(lexeme, "=")
        || spells(lexeme, "+")
        || spells(lexeme, "-")
        || spells(lexeme, "*")
        || spells(lexeme, "/")
        || spells(lexeme, "%")
        || spells(lexeme, "==")
        || spells(lexeme, "===")
        || spells(lexeme, "!=")
        || spells(lexeme, "!==")
        || spells(lexeme, ">")
        || spells(lexeme, "<")
        || spells(lexeme, ">=")
        || spells(lexeme, "<=")
        || spells(lexeme, "&&")
        || spells(lexeme, "||")
        || spells(lexeme, "!")
        || spells(lexeme, "&")
        || spells(lexeme, "|")
        || spells(lexeme, "^")
        || spells(lexeme, "~")
        || spells(lexeme, "<<")
        || spells(lexeme, ">>")
        || spells(lexeme, ">>>")
        || spells(lexeme, "++")
        || spells(lexeme, "--")
}

/// Whether the lexeme is a punctuator.
pub fn is_punctuator(lexeme: &[char]) -> (r: bool)
    ensures
        r == punctuator(lexeme@),
{
    spells(lexeme, ";")
}

/// Whether the lexeme is an entry of the symbol table.
pub fn is_symbol(lexeme: &[char]) -> (r: bool)
    ensures
        r == symbol(lexeme@),
{
    is_operator_symbol(lexeme) || is_punctuator(lexeme)
}

/// Whether every character of the lexeme may stand in an identifier.
pub fn is_identifier_shape(lexeme: &[char]) -> (r: bool)
    ensures
        r == identifier_shape(lexeme@),
{
    let mut i: usize = 0;
    while i < lexeme.len()
        invariant
            i <= lexeme.len(),
            forall|j: int| 0 <= j < i ==> identifier_char(#[trigger] lexeme@[j]),
        decreases lexeme.len() - i,
    {
        if !is_identifier_char(lexeme[i]) {
            return false;
        }
        i += 1;
    }
    true
}

/// Whether every character of the lexeme is a decimal digit.
pub fn is_digits(lexeme: &[char]) -> (r: bool)
    ensures
        r == digits(lexeme@),
{
    let mut i: usize = 0;
    while i < lexeme.len()
        invariant
            i <= lexeme.len(),
            forall|j: int| 0 <= j < i ==> digit(#[trigger] lexeme@[j]),
        decreases lexeme.len() - i,
    {
        if !is_digit(lexeme[i]) {
            return false;
        }
        i += 1;
    }
    true
}

/// Classifies a lexeme that is in none of the tables, by its shape alone.
pub fn classify_shape(lexeme: &[char]) -> (kind: EToken)
    ensures
        kind@ == (Kind { category: shape_category(lexeme@), text: lexeme@ }),
{
    if is_identifier_shape(lexeme) {
        EToken::Identifier(string_of(lexeme))
    } else if is_digits(lexeme) {
        EToken::Literal(string_of(lexeme))
    } else {
        EToken::Identifier(string_of(lexeme))
    }
}

/// Classifies a finished lexeme. Never fails: what no table and no shape
/// rule claims is an identifier.
pub fn classify_lexeme(lexeme: &[char]) -> (kind: EToken)
    ensures
        kind@ == classify(lexeme@),
{
    if is_keyword(lexeme) {
        EToken::Keyword(string_of(lexeme))
    } else if is_operator_word(lexeme) || is_operator_symbol(lexeme) {
        EToken::Operator(string_of(lexeme))
    } else if is_punctuator(lexeme) {
        EToken::Punctuator(string_of(lexeme))
    } else {
        classify_shape(lexeme)
    }
}

/// The two-character entries of the symbol table.
pub open spec fn symbol_pair(a: char, b: char) -> bool {
    ||| a == '=' && (b == '>' || b == '=')
    ||| a == '!' && b == '='
    ||| a == '>' && (b == '=' || b == '>')
    ||| a == '<' && (b == '=' || b == '<')
    ||| a == '&' && b == '&'
    ||| a == '|' && b == '|'
    ||| a == '+' && b == '+'
    ||| a == '-' && b == '-'
}

/// The three-character entries of the symbol table.
pub open spec fn symbol_triple(a: char, b: char, c: char) -> bool {
    ||| a == '=' && b == '=' && c == '='
    ||| a == '!' && b == '=' && c == '='
    ||| a == '>' && b == '>' && c == '>'
}

/// The entries of the symbol table, character by character.
proof fn lemma_symbol_spellings()
    ensures
        "=>"@ == seq!['=', '>'],
        "="@ == seq!['='],
        "+"@ == seq!['+'],
        "-"@ == seq!['-'],
        "*"@ == seq!['*'],
        "/"@ == seq!['/'],
        "%"@ == seq!['%'],
        "=="@ == seq!['=', '='],
        "==="@ == seq!['=', '=', '='],
        "!="@ == seq!['!', '='],
        "!=="@ == seq!['!', '=', '='],
        ">"@ == seq!['>'],
        "<"@ == seq!['<'],
        ">="@ == seq!['>', '='],
        "<="@ == seq!['<', '='],
        "&&"@ == seq!['&', '&'],
        "||"@ == seq!['|', '|'],
        "!"@ == seq!['!'],
        "&"@ == seq!['&'],
        "|"@ == seq!['|'],
        "^"@ == seq!['^'],
        "~"@ == seq!['~'],
        "<<"@ == seq!['<', '<'],
        ">>"@ == seq!['>', '>'],
        ">>>"@ == seq!['>', '>', '>'],
        "++"@ == seq!['+', '+'],
        "--"@ == seq!['-', '-'],
        ";"@ == seq![';'],
{
    reveal_strlit("=>");
    reveal_strlit("=");
    reveal_strlit("+");
    reveal_strlit("-");
    reveal_strlit("*");
    reveal_strlit("/");
    reveal_strlit("%");
    reveal_strlit("==");
    reveal_strlit("===");
    reveal_strlit("!=");
    reveal_strlit("!==");
    reveal_strlit(">");
    reveal_strlit("<");
    reveal_strlit(">=");
    reveal_strlit("<=");
    reveal_strlit("&&");
    reveal_strlit("||");
    reveal_strlit("!");
    reveal_strlit("&");
    reveal_strlit("|");
    reveal_strlit("^");
    reveal_strlit("~");
    reveal_strlit("<<");
    reveal_strlit(">>");
    reveal_strlit(">>>");
    reveal_strlit("++");
    reveal_strlit("--");
    reveal_strlit(";");
    assert("=>"@ =~= seq!['=', '>']);
    assert("="@ =~= seq!['=']);
    assert("+"@ =~= seq!['+']);
    assert("-"@ =~= seq!['-']);
    assert("*"@ =~= seq!['*']);
    assert("/"@ =~= seq!['/']);
    assert("%"@ =~= seq!['%']);
    assert("=="@ =~= seq!['=', '=']);
    assert("==="@ =~= seq!['=', '=', '=']);
    assert("!="@ =~= seq!['!', '=']);
    assert("!=="@ =~= seq!['!', '=', '=']);
    assert(">"@ =~= seq!['>']);
    assert("<"@ =~= seq!['<']);
    assert(">="@ =~= seq!['>', '=']);
    assert("<="@ =~= seq!['<', '=']);
    assert("&&"@ =~= seq!['&', '&']);
    assert("||"@ =~= seq!['|', '|']);
    assert("!"@ =~= seq!['!']);
    assert("&"@ =~= seq!['&']);
    assert("|"@ =~= seq!['|']);
    assert("^"@ =~= seq!['^']);
    assert("~"@ =~= seq!['~']);
    assert("<<"@ =~= seq!['<', '<']);
    assert(">>"@ =~= seq!['>', '>']);
    assert(">>>"@ =~= seq!['>', '>', '>']);
    assert("++"@ =~= seq!['+', '+']);
    assert("--"@ =~= seq!['-', '-']);
    assert(";"@ =~= seq![';']);
}

/// The keywords and operator words, character by character.
proof fn lemma_word_spellings()
    ensures
        "var"@ == seq!['v', 'a', 'r'],
        "let"@ == seq!['l', 'e', 't'],
        "const"@ == seq!['c', 'o', 'n', 's', 't'],
        "function"@ == seq!['f', 'u', 'n', 'c', 't', 'i', 'o', 'n'],
        "in"@ == seq!['i', 'n'],
        "instanceof"@ == seq!['i', 'n', 's', 't', 'a', 'n', 'c', 'e', 'o', 'f'],
        "typeof"@ == seq!['t', 'y', 'p', 'e', 'o', 'f'],
        "void"@ == seq!['v', 'o', 'i', 'd'],
        "delete"@ == seq!['d', 'e', 'l', 'e', 't', 'e'],
{
    reveal_strlit("var");
    reveal_strlit("let");
    reveal_strlit("const");
    reveal_strlit("function");
    reveal_strlit("in");
    reveal_strlit("instanceof");
    reveal_strlit("typeof");
    reveal_strlit("void");
    reveal_strlit("delete");
    assert("var"@ =~= seq!['v', 'a', 'r']);
    assert("let"@ =~= seq!['l', 'e', 't']);
    assert("const"@ =~= seq!['c', 'o', 'n', 's', 't']);
    assert("function"@ =~= seq!['f', 'u', 'n', 'c', 't', 'i', 'o', 'n']);
    assert("in"@ =~= seq!['i', 'n']);
    assert("instanceof"@ =~= seq!['i', 'n', 's', 't', 'a', 'n', 'c', 'e', 'o', 'f']);
    assert("typeof"@ =~= seq!['t', 'y', 'p', 'e', 'o', 'f']);
    assert("void"@ =~= seq!['v', 'o', 'i', 'd']);
    assert("delete"@ =~= seq!['d', 'e', 'l', 'e', 't', 'e']);
}

/// The symbol table read character by character: an entry is one symbol
/// character, or one of the listed pairs or triples.
pub proof fn lemma_symbol_by_chars(s: Seq<char>)
    ensures
        symbol(s) <==> {
            ||| s.len() == 1 && symbol_char(s[0])
            ||| s.len() == 2 && symbol_pair(s[0], s[1])
            ||| s.len() == 3 && symbol_triple(s[0], s[1], s[2])
        },
{
    lemma_symbol_spellings();
    if s.len() == 1 && symbol_char(s[0]) {
        assert(s =~= seq![s[0]]);
    }
    if s.len() == 2 && symbol_pair(s[0], s[1]) {
        assert(s =~= seq![s[0], s[1]]);
    }
    if s.len() == 3 && symbol_triple(s[0], s[1], s[2]) {
        assert(s =~= seq![s[0], s[1], s[2]]);
    }
}

/// No entry of the symbol table is empty or longer than three characters.
pub proof fn lemma_symbol_length(s: Seq<char>)
    requires
        symbol(s),
    ensures
        1 <= s.len() <= 3,
{
    lemma_symbol_by_chars(s);
}

/// Every entry of the symbol table is made of symbol characters only.
pub proof fn lemma_symbol_chars(s: Seq<char>)
    requires
        symbol(s),
    ensures
        forall|i: int| 0 <= i < s.len() ==> symbol_char(#[trigger] s[i]),
{
    lemma_symbol_by_chars(s);
}

/// The symbol table is closed under prefixes: whatever an entry begins with
/// is an entry too. So a match that cannot be extended by one character
/// cannot be extended at all.
pub proof fn lemma_symbol_prefix(s: Seq<char>, k: int)
    requires
        symbol(s),
        1 <= k <= s.len(),
    ensures
        symbol(s.take(k)),
{
    lemma_symbol_by_chars(s);
    lemma_symbol_by_chars(s.take(k));
}

/// Each symbol character is an entry of the symbol table by itself, and no
/// other character is.
pub proof fn lemma_symbol_char_alone(c: char)
    ensures
        symbol_char(c) <==> symbol(seq![c]),
{
    lemma_symbol_by_chars(seq![c]);
}

/// The keywords and operator words are words: not empty, and made of letters.
pub proof fn lemma_table_words(s: Seq<char>)
    requires
        keyword(s) || operator_word(s),
    ensures
        s.len() >= 1,
        identifier_shape(s),
        forall|i: int| 0 <= i < s.len() ==> word_char(#[trigger] s[i]),
{
    lemma_word_spellings();
}

/// The tables do not overlap, and no entry of any of them is a run of
/// digits, so each category is given for one reason only: a keyword for an
/// entry of the keyword table, an operator for an operator word or symbol, a
/// punctuator for an entry of the punctuator table, a literal for a run of
/// one or more digits, and an identifier for everything else.
pub proof fn lemma_category_exact(s: Seq<char>)
    ensures
        category_of(s) == Category::Keyword <==> keyword(s),
        category_of(s) == Category::Operator <==> operator_word(s) || operator_symbol(s),
        category_of(s) == Category::Punctuator <==> punctuator(s),
        category_of(s) == Category::Literal <==> s.len() >= 1 && digits(s),
        category_of(s) == Category::Identifier <==> !keyword(s) && !operator_word(s) && !symbol(s)
            && !(s.len() >= 1 && digits(s)),
{
    if keyword(s) || operator_word(s) {
        lemma_table_words(s);
        assert(identifier_char(s[0]));
    }
    if symbol(s) {
        lemma_symbol_by_chars(s);
        assert(symbol_char(s[0]));
    }
    if s.len() >= 1 && digits(s) {
        assert(digit(s[0]));
    }
    lemma_symbol_spellings();
    lemma_word_spellings();
}

/// Classifying the text of a classified lexeme gives the same classified
/// lexeme again.
pub proof fn lemma_classify_again(s: Seq<char>)
    ensures
        classify(classify(s).text) == classify(s),
{
}

/// A lexeme that holds a character which is neither a letter, `_`, `$`, a
/// digit nor a symbol character is an identifier: this is where characters
/// that no rule provides for end up.
pub proof fn lemma_stray_character_is_identifier(s: Seq<char>, i: int)
    requires
        0 <= i < s.len(),
        !identifier_char(s[i]),
        !digit(s[i]),
        !symbol_char(s[i]),
    ensures
        category_of(s) == Category::Identifier,
{
    lemma_category_exact(s);
    if keyword(s) || operator_word(s) {
        lemma_table_words(s);
    }
    if symbol(s) {
        lemma_symbol_chars(s);
    }
}

/// A lexeme that holds a digit and a letter is an identifier.
pub proof fn lemma_mixed_word_is_identifier(s: Seq<char>, i: int, j: int)
    requires
        0 <= i < s.len(),
        0 <= j < s.len(),
        digit(s[i]),
        identifier_char(s[j]),
    ensures
        category_of(s) == Category::Identifier,
{
    lemma_category_exact(s);
    if keyword(s) || operator_word(s) {
        lemma_table_words(s);
    }
    if symbol(s) {
        lemma_symbol_chars(s);
    }
}

} // verus!
