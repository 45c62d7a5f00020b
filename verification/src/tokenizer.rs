//! The scanner: one pass over the source that finds where each lexeme begins
//! and ends, classifies it, and records its line and columns.

use crate::classifier::{
    classify, classify_lexeme, classify_shape, is_symbol, is_symbol_char, is_whitespace,
    shape_category, word_char,
};
use crate::laws::{all_classified, lemma_tokens_in_order};
use crate::scan::{
    column_of, lemma_lexeme_len_bounds, lemma_position_behind_lexeme, lemma_tokens_from_unfold,
    line_of, symbol_len, token_at, tokens_from, tokens_of, word_len,
};
use crate::text::chars_of;
use crate::token::{all_well_formed, in_reading_order, EToken, Kind, Token};
use vstd::prelude::*;
use vstd::slice::slice_subrange;

verus! {

/// A scanner for one source text. It keeps nothing between two scans but the
/// text itself: where a scan stands is known to that scan alone.
pub struct Tokenizer {
    code: String,
}

impl View for Tokenizer {
    type V = Seq<char>;

    /// The source text.
    closed spec fn view(&self) -> Seq<char> {
        self.code@
    }
}

/// The length of the longest symbol that begins at `pos`, tried from the
/// longest entry of the table down.
fn longest_symbol(chars: &[char], pos: usize) -> (len: usize)
    requires
        pos < chars@.len(),
    ensures
        len == symbol_len(chars@, pos as int),
{
    let n = chars.len();
    if n - pos >= 3 && is_symbol(slice_subrange(chars, pos, pos + 3)) {
        3
    } else if n - pos >= 2 && is_symbol(slice_subrange(chars, pos, pos + 2)) {
        2
    } else {
        1
    }
}

/// The length of the run of word characters that begins at `pos`.
fn word_run(chars: &[char], pos: usize) -> (len: usize)
    requires
        pos < chars@.len(),
        word_char(chars@[pos as int]),
    ensures
        len == word_len(chars@, pos as int),
{
    let n = chars.len();
    let mut end = pos + 1;
    while end < n && !is_whitespace(chars[end]) && !is_symbol_char(chars[end])
        invariant
            n == chars@.len(),
            pos < end <= n,
            word_len(chars@, pos as int) == (end - pos) + word_len(chars@, end as int),
        decreases n - end,
    {
        end += 1;
    }
    end - pos
}

impl Tokenizer {
    /// A scanner for `code`.
    pub fn new(code: String) -> (tokenizer: Tokenizer)
        ensures
            tokenizer@ == code@,
    {
        Tokenizer { code }
    }

    /// Classifies a lexeme that is in none of the tables, by its shape alone.
    pub fn determine_token(&self, token: &str) -> (kind: EToken)
        ensures
            kind@ == (Kind { category: shape_category(token@), text: token@ }),
    {
        let chars = chars_of(token);
        classify_shape(chars.as_slice())
    }

    /// Classifies a finished lexeme: by the tables where it is an entry of
    /// one, by its shape where it is not.
    pub fn get_token(&self, token: &str) -> (kind: EToken)
        ensures
            kind@ == classify(token@),
    {
        let chars = chars_of(token);
        classify_lexeme(chars.as_slice())
    }

    /// Scans the whole source text in one pass and returns its tokens in
    /// reading order. Lines count from one, columns from zero, and both ends
    /// of a column span are inclusive. A lexeme that reaches the end of the
    /// text is a token like any other.
    ///
    /// Lines and columns are kept in 32 bits, so the text must be shorter
    /// than `u32::MAX` characters.
    pub fn tokenize(&self) -> (tokens: Vec<Token>)
        requires
            self@.len() < u32::MAX,
        ensures
            tokens.deep_view() == tokens_of(self@),
            all_well_formed(tokens.deep_view()),
            all_classified(tokens.deep_view()),
            in_reading_order(tokens.deep_view()),
    {
        proof {
            lemma_tokens_in_order(self@, 0);
        }
        let chars = chars_of(self.code.as_str());
        let src = chars.as_slice();
        let mut tokens: Vec<Token> = Vec::new();
        let mut pos: usize = 0;
        let mut line: u32 = 1;
        let mut column: u32 = 0;
        while pos < src.len()
            invariant
                src@ == self@,
                src@.len() < u32::MAX,
                pos <= src@.len(),
                column <= pos,
                line <= pos + 1,
                line == line_of(src@, pos as int),
                column == column_of(src@, pos as int),
                tokens.deep_view() + tokens_from(src@, pos as int) == tokens_of(src@),
            decreases src@.len() - pos,
        {
            proof {
                lemma_tokens_from_unfold(src@, pos as int);
            }
            let c = src[pos];
            if c == '\n' {
                pos += 1;
                line += 1;
                column = 0;
            } else if is_whitespace(c) {
                pos += 1;
                column += 1;
            } else {
                let len = if is_symbol_char(c) {
                    longest_symbol(src, pos)
                } else {
                    word_run(src, pos)
                };
                proof {
                    lemma_lexeme_len_bounds(src@, pos as int);
                    lemma_position_behind_lexeme(src@, pos as int);
                }
                let end_column = column + (len as u32 - 1);
                let kind = classify_lexeme(slice_subrange(src, pos, pos + len));
                let token = Token::new(kind, line, column, end_column);
                let ghost before = tokens.deep_view();
                tokens.push(token);
                proof {
                    let t = token_at(src@, pos as int);
                    assert(tokens.deep_view() =~= before.push(t));
                    assert(before.push(t) + tokens_from(src@, pos + len) =~= before + tokens_from(
                        src@,
                        pos as int,
                    ));
                }
                pos += len;
                column = end_column + 1;
            }
        }
        proof {
            lemma_tokens_from_unfold(src@, pos as int);
        }
        tokens
    }
}

} // verus!
