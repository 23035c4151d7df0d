//! Lexing round trip: the lexemes of a text, written out again with a blank
//! after each, lex to the same tokens but for their positions.

use crate::lexer::{
    is_word_char, lemma_scan_length, lex, lex_from, scan, token_at, word_run,
};
use crate::representations::TokenView;
use vstd::prelude::*;

verus! {

/// The lexemes of `tokens` in order, each followed by a blank.
pub open spec fn spelled(tokens: Seq<TokenView>) -> Seq<char>
    decreases tokens.len(),
{
    if tokens.len() == 0 {
        Seq::empty()
    } else {
        tokens[0].lexeme + seq![' '] + spelled(tokens.drop_first())
    }
}

/// Whether two runs of tokens agree in everything but the positions: they
/// are equally long, and tokens at the same place have the same lexeme,
/// class and intrinsic type.
pub open spec fn same_words(one: Seq<TokenView>, other: Seq<TokenView>) -> bool {
    &&& one.len() == other.len()
    &&& forall|k: int|
        0 <= k < one.len() ==> {
            &&& (#[trigger] one[k]).lexeme == other[k].lexeme
            &&& one[k].kind == other[k].kind
            &&& one[k].ty == other[k].ty
        }
}

/// A run of word characters is as long in any text that starts with the
/// same characters and goes on with a character that is none.
proof fn lemma_word_run_same(a: Seq<char>, b: Seq<char>, k: nat)
    requires
        word_run(a) == k,
        k < b.len(),
        k <= a.len(),
        a.take(k as int) == b.take(k as int),
        !is_word_char(b[k as int]),
    ensures
        word_run(b) == k,
    decreases k,
{
    if k > 0 {
        assert(a[0] == a.take(k as int)[0]);
        assert(a.skip(1).take(k - 1) =~= a.take(k as int).skip(1));
        assert(b.skip(1).take(k - 1) =~= b.take(k as int).skip(1));
        lemma_word_run_same(a.skip(1), b.skip(1), (k - 1) as nat);
    }
}

/// The token at the start of a text is the token at the start of any text
/// that holds the same lexeme followed by a blank.
proof fn lemma_scan_stable(s: Seq<char>, other: Seq<char>)
    requires
        s.len() > 0,
        scan(s) is Ok,
        scan(s)->Ok_0.len < other.len(),
        s.take(scan(s)->Ok_0.len as int) == other.take(scan(s)->Ok_0.len as int),
        other[scan(s)->Ok_0.len as int] == ' ',
    ensures
        scan(other) == scan(s),
{
    let found = scan(s)->Ok_0;
    let n = found.len;
    lemma_scan_length(s);
    assert(s[0] == s.take(n as int)[0]);
    if n >= 2 {
        assert(s[1] == s.take(n as int)[1]);
    }
    assert(s.skip(1).take(n - 1) =~= s.take(n as int).skip(1));
    assert(other.skip(1).take(n - 1) =~= other.take(n as int).skip(1));
    let c = s[0];
    if is_word_char(c) {
        lemma_word_run_same(s.skip(1), other.skip(1), (n - 1) as nat);
    }
}

/// The tokens of a text, written out with a blank after each, lex to the
/// same tokens but for their positions, wherever the first of them stands.
pub proof fn lemma_relex(s: Seq<char>, line: nat, column: nat, line_again: nat, column_again: nat)
    requires
        lex_from(s, line, column) is Ok,
    ensures
        lex_from(spelled(lex_from(s, line, column)->Ok_0), line_again, column_again) is Ok,
        same_words(
            lex_from(s, line, column)->Ok_0,
            lex_from(spelled(lex_from(s, line, column)->Ok_0), line_again, column_again)->Ok_0,
        ),
    decreases s.len(),
{
    if s.len() == 0 {
    } else if s[0] == ' ' {
        lemma_relex(s.skip(1), line, column + 1, line_again, column_again);
    } else if s[0] == '\n' {
        lemma_relex(s.skip(1), line + 1, 1, line_again, column_again);
    } else {
        let found = scan(s)->Ok_0;
        let n = found.len;
        lemma_scan_length(s);
        let rest = lex_from(s.skip(n as int), line, column + n)->Ok_0;
        let first = token_at(s, found, line, column);
        let tokens = seq![first] + rest;
        assert(tokens.drop_first() =~= rest);
        let text = spelled(tokens);
        assert(text.take(n as int) =~= s.take(n as int));
        lemma_scan_stable(s, text);
        assert(text.skip(n as int).skip(1) =~= spelled(rest));
        lemma_relex(s.skip(n as int), line, column + n, line_again, column_again + n + 1);
        let again_rest = lex_from(spelled(rest), line_again, column_again + n + 1)->Ok_0;
        let again = seq![token_at(text, found, line_again, column_again)] + again_rest;
        assert(lex_from(text.skip(n as int), line_again, column_again + n) == lex_from(
            spelled(rest),
            line_again,
            column_again + n + 1,
        ));
        assert forall|k: int| 0 <= k < tokens.len() implies {
            &&& (#[trigger] tokens[k]).lexeme == again[k].lexeme
            &&& tokens[k].kind == again[k].kind
            &&& tokens[k].ty == again[k].ty
        } by {}
    }
}

/// The lexemes of a source text, written out with a blank after each, lex
/// to the same token classes and lexemes in the same order.
pub proof fn lemma_lex_round_trip(source: Seq<char>)
    requires
        lex(source) is Ok,
    ensures
        lex(spelled(lex(source)->Ok_0)) is Ok,
        same_words(lex(source)->Ok_0, lex(spelled(lex(source)->Ok_0))->Ok_0),
{
    lemma_relex(source, 1, 1, 1, 1);
}

} // verus!
