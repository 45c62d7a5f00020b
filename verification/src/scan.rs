//! What scanning a source text means: where its lexemes begin and end, on
//! which line and at which columns each stands, and which tokens result.

use crate::classifier::{
    classify, lemma_symbol_char_alone, lemma_symbol_chars, lemma_symbol_length, symbol,
    symbol_char, whitespace, word_char,
};
use crate::token::TokenView;
use vstd::prelude::*;

verus! {

/// How many word characters stand in `src` from `pos` on, up to the first
/// character that is not one, or to the end of the source.
pub open spec fn word_len(src: Seq<char>, pos: int) -> nat
    decreases src.len() - pos,
{
    if 0 <= pos < src.len() && word_char(src[pos]) {
        1 + word_len(src, pos + 1)
    } else {
        0
    }
}

/// Whether the `len` characters of `src` from `pos` on are an entry of the
/// symbol table.
pub open spec fn symbol_at(src: Seq<char>, pos: int, len: int) -> bool {
    pos + len <= src.len() && symbol(src.subrange(pos, pos + len))
}

/// The length of the longest entry of the symbol table that `src` holds at
/// `pos`, where a symbol character stands.
pub open spec fn symbol_len(src: Seq<char>, pos: int) -> nat {
    if symbol_at(src, pos, 3) {
        3
    } else if symbol_at(src, pos, 2) {
        2
    } else {
        1
    }
}

/// The length of the lexeme that begins at `pos`, where a character other
/// than whitespace stands: the longest symbol, or the whole run of word
/// characters.
pub open spec fn lexeme_len(src: Seq<char>, pos: int) -> nat {
    if symbol_char(src[pos]) {
        symbol_len(src, pos)
    } else {
        word_len(src, pos)
    }
}

/// A lexeme can begin at `pos`: the offset lies within the source and the
/// character there is not whitespace.
pub open spec fn begins_lexeme(src: Seq<char>, pos: int) -> bool {
    0 <= pos < src.len() && !whitespace(src[pos])
}

/// The offset just behind the lexeme that begins at `pos`.
pub open spec fn lexeme_end(src: Seq<char>, pos: int) -> int {
    pos + lexeme_len(src, pos)
}

/// The text of the lexeme that begins at `pos`.
pub open spec fn lexeme_at(src: Seq<char>, pos: int) -> Seq<char> {
    src.subrange(pos, lexeme_end(src, pos))
}

/// The offsets at which the lexemes of `src` begin, from `pos` on, in
/// ascending order. Whitespace is skipped, anything else begins a lexeme, and
/// the next lexeme is looked for behind it.
pub open spec fn lexeme_starts(src: Seq<char>, pos: int) -> Seq<int>
    decreases src.len() - pos,
    via lexeme_starts_terminates
{
    if pos < 0 || pos >= src.len() {
        Seq::empty()
    } else if whitespace(src[pos]) {
        lexeme_starts(src, pos + 1)
    } else {
        seq![pos] + lexeme_starts(src, lexeme_end(src, pos))
    }
}

#[via_fn]
proof fn lexeme_starts_terminates(src: Seq<char>, pos: int) {
    if begins_lexeme(src, pos) {
        lemma_lexeme_len_bounds(src, pos);
    }
}

/// The line on which the character at offset `pos` stands: one more than
/// the number of line feeds before it.
pub open spec fn line_of(src: Seq<char>, pos: int) -> nat
    decreases pos,
{
    if pos <= 0 {
        1
    } else if src[pos - 1] == '\n' {
        line_of(src, pos - 1) + 1
    } else {
        line_of(src, pos - 1)
    }
}

/// The column at which the character at offset `pos` stands: the number of
/// characters between the start of its line and it.
pub open spec fn column_of(src: Seq<char>, pos: int) -> nat
    decreases pos,
{
    if pos <= 0 || src[pos - 1] == '\n' {
        0
    } else {
        column_of(src, pos - 1) + 1
    }
}

/// The token for the lexeme that begins at offset `pos`: its text classified,
/// the line it stands on, and the columns of its first and last character.
pub open spec fn token_at(src: Seq<char>, pos: int) -> TokenView {
    TokenView {
        kind: classify(lexeme_at(src, pos)),
        line: line_of(src, pos),
        column_start: column_of(src, pos),
        column_end: (column_of(src, pos) + lexeme_len(src, pos) - 1) as nat,
    }
}

/// The tokens of `src` from offset `pos` on: one for each lexeme, in the
/// order in which the lexemes stand.
pub open spec fn tokens_from(src: Seq<char>, pos: int) -> Seq<TokenView> {
    lexeme_starts(src, pos).map_values(|start: int| token_at(src, start))
}

/// The tokens of a whole source text. Lines count from one and columns from
/// zero.
pub open spec fn tokens_of(src: Seq<char>) -> Seq<TokenView> {
    tokens_from(src, 0)
}

/// A run of word characters ends within the source.
pub proof fn lemma_word_len_bound(src: Seq<char>, pos: int)
    requires
        0 <= pos <= src.len(),
    ensures
        pos + word_len(src, pos) <= src.len(),
    decreases src.len() - pos,
{
    if pos < src.len() && word_char(src[pos]) {
        lemma_word_len_bound(src, pos + 1);
    }
}

/// Every character of a run of word characters is a word character.
pub proof fn lemma_word_len_chars(src: Seq<char>, pos: int, i: int)
    requires
        0 <= pos <= i < pos + word_len(src, pos),
    ensures
        i < src.len(),
        word_char(src[i]),
    decreases i - pos,
{
    if i > pos {
        lemma_word_len_chars(src, pos + 1, i);
    }
}

/// A run of word characters is as long as it can be: it ends at the end of
/// the source or in front of a character that is not a word character.
pub proof fn lemma_word_len_maximal(src: Seq<char>, pos: int)
    requires
        0 <= pos <= src.len(),
    ensures
        pos + word_len(src, pos) == src.len() || !word_char(src[pos + word_len(src, pos)]),
    decreases src.len() - pos,
{
    if pos < src.len() && word_char(src[pos]) {
        lemma_word_len_maximal(src, pos + 1);
    }
}

/// Where a symbol character stands, the symbol taken is an entry of the
/// symbol table, and no longer entry stands there.
pub proof fn lemma_symbol_len_longest(src: Seq<char>, pos: int)
    requires
        0 <= pos < src.len(),
        symbol_char(src[pos]),
    ensures
        symbol_at(src, pos, symbol_len(src, pos) as int),
        forall|len: int| len > symbol_len(src, pos) ==> !symbol_at(src, pos, len),
{
    assert(symbol_at(src, pos, 1)) by {
        lemma_symbol_char_alone(src[pos]);
        assert(src.subrange(pos, pos + 1) =~= seq![src[pos]]);
    }
    assert forall|len: int| len > symbol_len(src, pos) implies !symbol_at(src, pos, len) by {
        if symbol_at(src, pos, len) {
            lemma_symbol_length(src.subrange(pos, pos + len));
        }
    }
}

/// A lexeme holds at least one character and ends within the source.
pub proof fn lemma_lexeme_len_bounds(src: Seq<char>, pos: int)
    requires
        begins_lexeme(src, pos),
    ensures
        1 <= lexeme_len(src, pos),
        lexeme_end(src, pos) <= src.len(),
{
    lemma_word_len_bound(src, pos);
}

/// A lexeme is all symbol characters or all word characters. Either way none
/// of its characters is whitespace, so no lexeme spans a line break.
pub proof fn lemma_lexeme_chars(src: Seq<char>, pos: int, i: int)
    requires
        begins_lexeme(src, pos),
        pos <= i < lexeme_end(src, pos),
    ensures
        i < src.len(),
        !whitespace(src[i]),
        symbol_char(src[i]) <==> symbol_char(src[pos]),
{
    let len = lexeme_len(src, pos);
    lemma_lexeme_len_bounds(src, pos);
    if symbol_char(src[pos]) {
        if len > 1 {
            let entry = src.subrange(pos, pos + len);
            lemma_symbol_chars(entry);
            assert(entry[i - pos] == src[i]);
        }
    } else {
        lemma_word_len_chars(src, pos, i);
    }
}

/// A lexeme is an entry of the symbol table exactly when it begins with a
/// symbol character. So an operator or punctuator next to a word is a lexeme
/// of its own, with or without whitespace between them.
pub proof fn lemma_lexeme_is_symbol_or_word(src: Seq<char>, pos: int)
    requires
        begins_lexeme(src, pos),
    ensures
        symbol(lexeme_at(src, pos)) <==> symbol_char(src[pos]),
{
    let lexeme = lexeme_at(src, pos);
    lemma_lexeme_len_bounds(src, pos);
    assert(lexeme[0] == src[pos]);
    if symbol_char(src[pos]) {
        lemma_symbol_len_longest(src, pos);
    }
    if symbol(lexeme) {
        lemma_symbol_chars(lexeme);
    }
}

/// Between two offsets of the source the line never goes down, and where it
/// stays the same the column grows by exactly the distance.
pub proof fn lemma_position_order(src: Seq<char>, from: int, to: int)
    requires
        0 <= from <= to,
    ensures
        line_of(src, from) <= line_of(src, to),
        line_of(src, from) == line_of(src, to) ==> column_of(src, to) == column_of(src, from) + (
        to - from),
    decreases to - from,
{
    if from < to {
        lemma_position_order(src, from, to - 1);
    }
}

/// Across a stretch of the source that holds no line feed the line stays the
/// same.
pub proof fn lemma_position_within_line(src: Seq<char>, from: int, to: int)
    requires
        0 <= from <= to,
        forall|i: int| from <= i < to ==> src[i] != '\n',
    ensures
        line_of(src, to) == line_of(src, from),
        column_of(src, to) == column_of(src, from) + (to - from),
    decreases to - from,
{
    if from < to {
        lemma_position_within_line(src, from, to - 1);
    }
}

/// The position just behind a lexeme: on the lexeme's line, as many columns
/// on as the lexeme is long.
pub proof fn lemma_position_behind_lexeme(src: Seq<char>, pos: int)
    requires
        begins_lexeme(src, pos),
    ensures
        line_of(src, lexeme_end(src, pos)) == line_of(src, pos),
        column_of(src, lexeme_end(src, pos)) == column_of(src, pos) + lexeme_len(src, pos),
{
    let end = pos + lexeme_len(src, pos);
    assert forall|i: int| pos <= i < end implies src[i] != '\n' by {
        lemma_lexeme_chars(src, pos, i);
    }
    lemma_position_within_line(src, pos, end);
}

/// How the tokens from an offset on are made up: none behind the end of the
/// source, those of the next offset where whitespace stands, and otherwise
/// the token of the lexeme that begins here, then those behind the lexeme.
pub proof fn lemma_tokens_from_unfold(src: Seq<char>, pos: int)
    ensures
        tokens_from(src, pos) == if pos < 0 || pos >= src.len() {
            Seq::<TokenView>::empty()
        } else if whitespace(src[pos]) {
            tokens_from(src, pos + 1)
        } else {
            seq![token_at(src, pos)] + tokens_from(src, lexeme_end(src, pos))
        },
{
    if begins_lexeme(src, pos) {
        assert(tokens_from(src, pos) =~= seq![token_at(src, pos)] + tokens_from(
            src,
            lexeme_end(src, pos),
        ));
    } else if 0 <= pos < src.len() {
    } else {
        assert(tokens_from(src, pos) =~= Seq::<TokenView>::empty());
    }
}

} // verus!
