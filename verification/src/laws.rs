//! What holds of the tokens of every source text.

use crate::classifier::{classify, symbol_char, whitespace, word_char};
use crate::scan::{
    begins_lexeme, column_of, lemma_lexeme_chars, lemma_lexeme_len_bounds, lemma_position_behind_lexeme,
    lemma_position_order, lemma_symbol_len_longest, lemma_tokens_from_unfold,
    lemma_word_len_maximal, lexeme_at,
    lexeme_end, lexeme_len, lexeme_starts, line_of, token_at, tokens_from, tokens_of, word_len,
};
use crate::token::{all_well_formed, in_reading_order, TokenView};
use vstd::prelude::*;
use vstd::seq_lib::lemma_flatten_concat;

verus! {

/// The token stands at `column` of `line` or after it in reading order.
pub open spec fn at_or_after(token: TokenView, line: nat, column: nat) -> bool {
    token.line > line || (token.line == line && token.column_start >= column)
}

/// The kind of every token is what classifying its own text gives.
pub open spec fn all_classified(tokens: Seq<TokenView>) -> bool {
    forall|i: int|
        0 <= i < tokens.len() ==> classify((#[trigger] tokens[i]).kind.text) == tokens[i].kind
}

/// What holds of the tokens found from any offset of the source on: none
/// stands before that offset, each is well formed and classified by its own
/// text, and together they are in reading order.
pub proof fn lemma_tokens_in_order(src: Seq<char>, pos: int)
    requires
        0 <= pos <= src.len(),
    ensures
        forall|i: int|
            0 <= i < tokens_from(src, pos).len() ==> at_or_after(
                #[trigger] tokens_from(src, pos)[i],
                line_of(src, pos),
                column_of(src, pos),
            ),
        all_well_formed(tokens_from(src, pos)),
        all_classified(tokens_from(src, pos)),
        in_reading_order(tokens_from(src, pos)),
    decreases src.len() - pos,
{
    lemma_tokens_from_unfold(src, pos);
    if pos >= src.len() {
    } else if whitespace(src[pos]) {
        lemma_tokens_in_order(src, pos + 1);
        lemma_position_order(src, pos, pos + 1);
    } else {
        let len = lexeme_len(src, pos);
        lemma_lexeme_len_bounds(src, pos);
        lemma_position_order(src, 0, pos);
        lemma_position_behind_lexeme(src, pos);
        lemma_tokens_in_order(src, pos + len);
    }
}

/// The tokens of any source text are in reading order: strictly increasing
/// by line and starting column, with no two spans sharing a column of a line.
pub proof fn lemma_tokens_in_reading_order(src: Seq<char>)
    ensures
        in_reading_order(tokens_of(src)),
{
    lemma_tokens_in_order(src, 0);
}

/// Every token of any source text is well formed: its line is at least one,
/// its text is not empty, and its column span is exactly as wide as its text.
pub proof fn lemma_tokens_well_formed(src: Seq<char>)
    ensures
        all_well_formed(tokens_of(src)),
{
    lemma_tokens_in_order(src, 0);
}

/// Classifying the text of any token of any source text, taken by itself,
/// gives the kind that the token carries.
pub proof fn lemma_tokens_keep_their_kind(src: Seq<char>, i: int)
    requires
        0 <= i < tokens_of(src).len(),
    ensures
        classify(tokens_of(src)[i].kind.text) == tokens_of(src)[i].kind,
{
    lemma_tokens_in_order(src, 0);
}

/// Where the lexemes found from any offset on begin: at or behind that
/// offset, within the source, at a character that is not whitespace, and each
/// behind the end of the one before.
pub proof fn lemma_lexeme_starts(src: Seq<char>, pos: int)
    requires
        0 <= pos <= src.len(),
    ensures
        forall|i: int|
            0 <= i < lexeme_starts(src, pos).len() ==> pos <= #[trigger] lexeme_starts(src, pos)[i]
                && begins_lexeme(src, lexeme_starts(src, pos)[i]),
        forall|i: int, j: int|
            0 <= i < j < lexeme_starts(src, pos).len() ==> lexeme_end(
                src,
                #[trigger] lexeme_starts(src, pos)[i],
            ) <= #[trigger] lexeme_starts(src, pos)[j],
    decreases src.len() - pos,
{
    let starts = lexeme_starts(src, pos);
    if pos >= src.len() {
        assert(starts.len() == 0);
    } else if whitespace(src[pos]) {
        lemma_lexeme_starts(src, pos + 1);
        assert(starts == lexeme_starts(src, pos + 1));
    } else {
        let next = pos + lexeme_len(src, pos);
        let rest = lexeme_starts(src, next);
        lemma_lexeme_len_bounds(src, pos);
        lemma_lexeme_starts(src, next);
        assert forall|i: int| 0 <= i < starts.len() implies pos <= #[trigger] starts[i]
            && begins_lexeme(src, starts[i]) by {
            if i > 0 {
                assert(starts[i] == rest[i - 1]);
            }
        }
        assert forall|i: int, j: int| 0 <= i < j < starts.len() implies lexeme_end(
            src,
            #[trigger] starts[i],
        ) <= #[trigger] starts[j] by {
            assert(starts[j] == rest[j - 1]);
            if i > 0 {
                assert(starts[i] == rest[i - 1]);
            }
        }
    }
}

/// The offset lies inside a run of word characters: a word character stands
/// there and another one right before it.
pub open spec fn inside_word(src: Seq<char>, pos: int) -> bool {
    0 < pos < src.len() && word_char(src[pos - 1]) && word_char(src[pos])
}

/// From an offset that does not lie inside a word, no lexeme found begins
/// inside a word.
pub proof fn lemma_words_from(src: Seq<char>, pos: int)
    requires
        0 <= pos <= src.len(),
        !inside_word(src, pos),
    ensures
        forall|i: int|
            0 <= i < lexeme_starts(src, pos).len() ==> !inside_word(
                src,
                #[trigger] lexeme_starts(src, pos)[i],
            ),
    decreases src.len() - pos,
{
    let starts = lexeme_starts(src, pos);
    if pos >= src.len() {
        assert(starts.len() == 0);
    } else if whitespace(src[pos]) {
        lemma_words_from(src, pos + 1);
        assert(starts == lexeme_starts(src, pos + 1));
    } else {
        let next = lexeme_end(src, pos);
        let rest = lexeme_starts(src, next);
        lemma_lexeme_len_bounds(src, pos);
        lemma_lexeme_chars(src, pos, next - 1);
        lemma_word_len_maximal(src, pos);
        lemma_words_from(src, next);
        assert forall|i: int| 0 <= i < starts.len() implies !inside_word(
            src,
            #[trigger] starts[i],
        ) by {
            if i > 0 {
                assert(starts[i] == rest[i - 1]);
            }
        }
    }
}

/// Words are never split: no lexeme of any source text begins inside a run
/// of word characters, and a lexeme that begins with a word character runs
/// on to the end of the source or to the first character that is not a word
/// character.
pub proof fn lemma_words_are_whole(src: Seq<char>, i: int)
    requires
        0 <= i < lexeme_starts(src, 0).len(),
    ensures
        !inside_word(src, lexeme_starts(src, 0)[i]),
        word_char(src[lexeme_starts(src, 0)[i]]) ==> {
            let end = lexeme_end(src, lexeme_starts(src, 0)[i]);
            end == src.len() || !word_char(src[end])
        },
{
    lemma_words_from(src, 0);
    lemma_lexeme_starts(src, 0);
    lemma_word_len_maximal(src, lexeme_starts(src, 0)[i]);
}

/// Every token of any source text stands in the source where it says it
/// does: there is an offset, on the token's line and at its starting column,
/// from which on the source reads as the token's text, and the token is the
/// one for the lexeme that begins there.
pub proof fn lemma_token_stands_in_source(src: Seq<char>, i: int) -> (start: int)
    requires
        0 <= i < tokens_of(src).len(),
    ensures
        begins_lexeme(src, start),
        tokens_of(src)[i] == token_at(src, start),
        tokens_of(src)[i].line == line_of(src, start),
        tokens_of(src)[i].column_start == column_of(src, start),
        start + tokens_of(src)[i].kind.text.len() <= src.len(),
        tokens_of(src)[i].kind.text == src.subrange(
            start,
            start + tokens_of(src)[i].kind.text.len(),
        ),
{
    lemma_lexeme_starts(src, 0);
    let start = lexeme_starts(src, 0)[i];
    lemma_lexeme_len_bounds(src, start);
    start
}

/// The characters of `s` that are not whitespace, in order.
pub open spec fn visible(s: Seq<char>) -> Seq<char> {
    s.filter(|c: char| !whitespace(c))
}

/// The texts of the tokens, in order.
pub open spec fn texts(tokens: Seq<TokenView>) -> Seq<Seq<char>> {
    tokens.map_values(|token: TokenView| token.kind.text)
}

/// A text without whitespace is all visible.
proof fn lemma_visible_whole(s: Seq<char>)
    requires
        forall|i: int| 0 <= i < s.len() ==> !whitespace(s[i]),
    ensures
        visible(s) == s,
    decreases s.len(),
{
    reveal(Seq::filter);
    if s.len() > 0 {
        lemma_visible_whole(s.drop_last());
        assert(s.drop_last().push(s.last()) =~= s);
    }
}

/// From any offset on, the texts of the tokens put end to end are the
/// characters of the source that are not whitespace.
pub proof fn lemma_texts_from(src: Seq<char>, pos: int)
    requires
        0 <= pos <= src.len(),
    ensures
        texts(tokens_from(src, pos)).flatten() == visible(src.subrange(pos, src.len() as int)),
    decreases src.len() - pos,
{
    let end = src.len() as int;
    let keep = |c: char| !whitespace(c);
    lemma_tokens_from_unfold(src, pos);
    if pos >= src.len() {
        assert(texts(tokens_from(src, pos)) =~= Seq::<Seq<char>>::empty());
    } else if whitespace(src[pos]) {
        lemma_texts_from(src, pos + 1);
        assert(src.subrange(pos, end) =~= seq![src[pos]] + src.subrange(pos + 1, end));
        src.subrange(pos + 1, end).lemma_filter_prepend(src[pos], keep);
    } else {
        let next = pos + lexeme_len(src, pos);
        let lexeme = lexeme_at(src, pos);
        lemma_lexeme_len_bounds(src, pos);
        lemma_texts_from(src, next);
        assert(visible(lexeme) == lexeme) by {
            assert forall|i: int| 0 <= i < lexeme.len() implies !whitespace(lexeme[i]) by {
                lemma_lexeme_chars(src, pos, pos + i);
            }
            lemma_visible_whole(lexeme);
        }
        assert(src.subrange(pos, end) =~= lexeme + src.subrange(next, end));
        Seq::filter_distributes_over_add(lexeme, src.subrange(next, end), keep);
        assert(texts(tokens_from(src, pos)) =~= seq![lexeme] + texts(tokens_from(src, next)));
        lemma_flatten_concat(seq![lexeme], texts(tokens_from(src, next)));
        seq![lexeme].lemma_flatten_one_element();
    }
}

/// No character is lost and none is made up: the texts of the tokens of any
/// source text, put end to end, are exactly the characters of the source that
/// are not whitespace. A lexeme that reaches the end of the source is a
/// token like any other.
pub proof fn lemma_no_character_lost(src: Seq<char>)
    ensures
        texts(tokens_of(src)).flatten() == visible(src),
{
    lemma_texts_from(src, 0);
    assert(src.subrange(0, src.len() as int) =~= src);
}

/// The token of a text that is one lexeme and nothing else: the text
/// classified, on the first line, from the first column to the last.
pub open spec fn sole_token(text: Seq<char>) -> TokenView {
    TokenView {
        kind: classify(text),
        line: 1,
        column_start: 0,
        column_end: (text.len() - 1) as nat,
    }
}

/// In a text made of word characters only, the run of word characters from
/// any offset on reaches the end.
proof fn lemma_word_len_whole(text: Seq<char>, pos: int)
    requires
        0 <= pos <= text.len(),
        forall|i: int| 0 <= i < text.len() ==> word_char(text[i]),
    ensures
        word_len(text, pos) == text.len() - pos,
    decreases text.len() - pos,
{
    if pos < text.len() {
        lemma_word_len_whole(text, pos + 1);
    }
}

/// A lexeme scanned by itself is one token: the scanner takes all of it, and
/// classifies it as it did in its place.
pub proof fn lemma_lexeme_scans_alone(src: Seq<char>, pos: int)
    requires
        begins_lexeme(src, pos),
    ensures
        tokens_of(lexeme_at(src, pos)) == seq![sole_token(lexeme_at(src, pos))],
{
    let text = lexeme_at(src, pos);
    let len = lexeme_len(src, pos) as int;
    lemma_lexeme_len_bounds(src, pos);
    assert(text.subrange(0, len) =~= text);
    assert(lexeme_len(text, 0) == len) by {
        if symbol_char(src[pos]) {
            lemma_symbol_len_longest(src, pos);
        } else {
            assert forall|i: int| 0 <= i < text.len() implies word_char(text[i]) by {
                lemma_lexeme_chars(src, pos, pos + i);
            }
            lemma_word_len_whole(text, 0);
        }
    }
    lemma_tokens_from_unfold(text, 0);
    lemma_tokens_from_unfold(text, len);
    assert(tokens_of(text) =~= seq![sole_token(text)]);
}

/// Scanning the text of any token of any source text, taken by itself, gives
/// that one token again, moved to the start of the first line.
pub proof fn lemma_tokens_scan_alone(src: Seq<char>, i: int)
    requires
        0 <= i < tokens_of(src).len(),
    ensures
        tokens_of(tokens_of(src)[i].kind.text) == seq![sole_token(tokens_of(src)[i].kind.text)],
        sole_token(tokens_of(src)[i].kind.text).kind == tokens_of(src)[i].kind,
{
    let start = lemma_token_stands_in_source(src, i);
    lemma_lexeme_scans_alone(src, start);
}

} // verus!
