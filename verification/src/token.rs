//! The token data model: what a token is, and what it means for two tokens
//! to be equal.

use vstd::prelude::*;
use vstd::std_specs::cmp::PartialEqSpecImpl;

verus! {

/// The five classes a lexeme can fall into.
#[derive(Clone, Copy, Debug, PartialEq, Eq, Structural)]
pub enum Category {
    Identifier,
    Keyword,
    Operator,
    Punctuator,
    Literal,
}

/// The mathematical value of an [`EToken`]: its category and the exact
/// characters of the lexeme.
pub struct Kind {
    pub category: Category,
    pub text: Seq<char>,
}

/// A classified lexeme. Every variant keeps the lexeme text verbatim.
#[derive(Debug)]
pub enum EToken {
    Identifier(String),
    Keyword(String),
    Operator(String),
    Punctuator(String),
    Literal(String),
}

impl View for EToken {
    type V = Kind;

    open spec fn view(&self) -> Kind {
        match self {
            EToken::Identifier(s) => Kind { category: Category::Identifier, text: s@ },
            EToken::Keyword(s) => Kind { category: Category::Keyword, text: s@ },
            EToken::Operator(s) => Kind { category: Category::Operator, text: s@ },
            EToken::Punctuator(s) => Kind { category: Category::Punctuator, text: s@ },
            EToken::Literal(s) => Kind { category: Category::Literal, text: s@ },
        }
    }
}

impl EToken {
    /// The category of the lexeme.
    pub fn category(&self) -> (category: Category)
        ensures
            category == self@.category,
    {
        match self {
            EToken::Identifier(_) => Category::Identifier,
            EToken::Keyword(_) => Category::Keyword,
            EToken::Operator(_) => Category::Operator,
            EToken::Punctuator(_) => Category::Punctuator,
            EToken::Literal(_) => Category::Literal,
        }
    }

    /// The text of the lexeme, as it stood in the source.
    pub fn text(&self) -> (text: &str)
        ensures
            text@ == self@.text,
    {
        match self {
            EToken::Identifier(s) => s.as_str(),
            EToken::Keyword(s) => s.as_str(),
            EToken::Operator(s) => s.as_str(),
            EToken::Punctuator(s) => s.as_str(),
            EToken::Literal(s) => s.as_str(),
        }
    }
}

impl PartialEq for EToken {
    /// Two classified lexemes are equal when they have the same category and
    /// the same text.
    fn eq(&self, other: &EToken) -> (r: bool) {
        match (self, other) {
            (EToken::Identifier(a), EToken::Identifier(b)) => a.eq(b),
            (EToken::Keyword(a), EToken::Keyword(b)) => a.eq(b),
            (EToken::Operator(a), EToken::Operator(b)) => a.eq(b),
            (EToken::Punctuator(a), EToken::Punctuator(b)) => a.eq(b),
            (EToken::Literal(a), EToken::Literal(b)) => a.eq(b),
            _ => false,
        }
    }
}

impl PartialEqSpecImpl for EToken {
    open spec fn obeys_eq_spec() -> bool {
        true
    }

    open spec fn eq_spec(&self, other: &EToken) -> bool {
        self@ == other@
    }
}

impl Eq for EToken {

}

impl DeepView for EToken {
    type V = Kind;

    open spec fn deep_view(&self) -> Kind {
        self@
    }
}

/// The mathematical value of a [`Token`]: a classified lexeme and the place
/// where it stands in the source.
pub struct TokenView {
    pub kind: Kind,
    pub line: nat,
    pub column_start: nat,
    pub column_end: nat,
}

impl TokenView {
    /// What holds of every token that a scan produces: lines count from one,
    /// the lexeme is not empty, and the column span runs forward and is
    /// exactly as wide as the lexeme.
    pub open spec fn well_formed(self) -> bool {
        &&& self.line >= 1
        &&& self.kind.text.len() >= 1
        &&& self.column_start <= self.column_end
        &&& self.column_end + 1 == self.column_start + self.kind.text.len()
    }

    /// `self` begins strictly before `later` in reading order: on an earlier
    /// line, or on the same line at an earlier column.
    pub open spec fn starts_before(self, later: TokenView) -> bool {
        ||| self.line < later.line
        ||| self.line == later.line && self.column_start < later.column_start
    }

    /// `self` begins strictly before `later` and the two share no column of
    /// any line: where both stand on one line, `self` ends before `later`
    /// begins.
    pub open spec fn precedes(self, later: TokenView) -> bool {
        &&& self.starts_before(later)
        &&& self.line == later.line ==> self.column_end < later.column_start
    }
}

/// Each token of the sequence precedes every token that comes after it.
pub open spec fn in_reading_order(tokens: Seq<TokenView>) -> bool {
    forall|i: int, j: int| 0 <= i < j < tokens.len() ==> tokens[i].precedes(tokens[j])
}

/// Every token of the sequence is well formed.
pub open spec fn all_well_formed(tokens: Seq<TokenView>) -> bool {
    forall|i: int| 0 <= i < tokens.len() ==> (#[trigger] tokens[i]).well_formed()
}

/// A classified lexeme together with its position: the line it stands on and
/// the columns of its first and last character, both inclusive.
#[derive(Debug)]
pub struct Token {
    pub token: EToken,
    pub line_number: u32,
    pub column_start_number: u32,
    pub column_end_number: u32,
}

impl View for Token {
    type V = TokenView;

    open spec fn view(&self) -> TokenView {
        TokenView {
            kind: self.token@,
            line: self.line_number as nat,
            column_start: self.column_start_number as nat,
            column_end: self.column_end_number as nat,
        }
    }
}

impl DeepView for Token {
    type V = TokenView;

    open spec fn deep_view(&self) -> TokenView {
        self@
    }
}

impl PartialEq for Token {
    /// Two tokens are equal when kind and full span agree.
    fn eq(&self, other: &Token) -> (r: bool) {
        self.token.eq(&other.token) && self.line_number == other.line_number
            && self.column_start_number == other.column_start_number
            && self.column_end_number == other.column_end_number
    }
}

impl PartialEqSpecImpl for Token {
    open spec fn obeys_eq_spec() -> bool {
        true
    }

    open spec fn eq_spec(&self, other: &Token) -> bool {
        self@ == other@
    }
}

impl Eq for Token {

}

impl Token {
    /// A token made of the given parts, as they are.
    pub fn new(
        token: EToken,
        line_number: u32,
        column_start_number: u32,
        column_end_number: u32,
    ) -> (r: Token)
        ensures
            r == (Token { token, line_number, column_start_number, column_end_number }),
    {
        Token { token, line_number, column_start_number, column_end_number }
    }
}

} // verus!
