//! Splitting a raw line into argument words, with quoting and escaping.
//!
//! The scanner is a state machine over five modes. Outside quotes a
//! backslash makes the next character literal, a quote opens a quoted
//! region of its kind, and whitespace ends the current word. Inside single
//! quotes every character but the closing quote is literal. Inside double
//! quotes a backslash makes the next character literal (so `\"` gives a
//! `"` and does not close), and the other quote kind is literal. Fragments
//! with no whitespace between them join into one word; a word with no
//! visible character is dropped. An unterminated quote is not an error: what
//! was gathered is kept.

use vstd::prelude::*;
use crate::text::{is_blank, is_blank_char, chars_of, string_from_chars, join_with};

verus! {

/// Where the scanner stands between two characters.
#[derive(Clone, Copy, Debug, PartialEq, Eq, Structural)]
pub enum LexMode {
    Unquoted,
    SingleQuoted,
    DoubleQuoted,
    /// After a backslash outside quotes.
    EscapedUnquoted,
    /// After a backslash inside double quotes.
    EscapedDouble,
}

/// The scanner's state: its mode, the word being gathered and the words
/// finished so far.
pub struct LexState {
    pub mode: LexMode,
    pub word: Seq<char>,
    pub words: Seq<Seq<char>>,
}

/// A word holds at least one character that is not whitespace.
pub open spec fn has_text(w: Seq<char>) -> bool {
    exists|i: int| 0 <= i < w.len() && !is_blank(#[trigger] w[i])
}

/// Ends the gathered word: it is kept only where it has text.
pub open spec fn flush(words: Seq<Seq<char>>, word: Seq<char>) -> Seq<Seq<char>> {
    if has_text(word) {
        words.push(word)
    } else {
        words
    }
}

pub open spec fn lex_start() -> LexState {
    LexState { mode: LexMode::Unquoted, word: Seq::empty(), words: Seq::empty() }
}

/// One character of input.
pub open spec fn lex_step(st: LexState, c: char) -> LexState {
    match st.mode {
        LexMode::Unquoted => {
            if c == '\\' {
                LexState { mode: LexMode::EscapedUnquoted, ..st }
            } else if c == '\'' {
                LexState { mode: LexMode::SingleQuoted, ..st }
            } else if c == '"' {
                LexState { mode: LexMode::DoubleQuoted, ..st }
            } else if is_blank(c) {
                LexState {
                    mode: LexMode::Unquoted,
                    word: Seq::empty(),
                    words: flush(st.words, st.word),
                }
            } else {
                LexState { word: st.word.push(c), ..st }
            }
        },
        LexMode::EscapedUnquoted => LexState {
            mode: LexMode::Unquoted,
            word: st.word.push(c),
            words: st.words,
        },
        LexMode::SingleQuoted => {
            if c == '\'' {
                LexState { mode: LexMode::Unquoted, ..st }
            } else {
                LexState { word: st.word.push(c), ..st }
            }
        },
        LexMode::DoubleQuoted => {
            if c == '\\' {
                LexState { mode: LexMode::EscapedDouble, ..st }
            } else if c == '"' {
                LexState { mode: LexMode::Unquoted, ..st }
            } else {
                LexState { word: st.word.push(c), ..st }
            }
        },
        LexMode::EscapedDouble => LexState {
            mode: LexMode::DoubleQuoted,
            word: st.word.push(c),
            words: st.words,
        },
    }
}

/// The state reached from `st` after reading all of `s`.
pub open spec fn lex_from(st: LexState, s: Seq<char>) -> LexState
    decreases s.len(),
{
    if s.len() == 0 {
        st
    } else {
        lex_step(lex_from(st, s.drop_last()), s.last())
    }
}

/// The words of a line: those finished while scanning it, then the word
/// gathered at its end.
pub open spec fn tokens_of(s: Seq<char>) -> Seq<Seq<char>> {
    let st = lex_from(lex_start(), s);
    flush(st.words, st.word)
}

fn has_text_exec(w: &Vec<char>) -> (r: bool)
    ensures
        r == has_text(w@),
{
    let mut i: usize = 0;
    while i < w.len()
        invariant
            i <= w.len(),
            forall|j: int| 0 <= j < i ==> is_blank(#[trigger] w@[j]),
        decreases w.len() - i,
    {
        if !is_blank_char(w[i]) {
            return true;
        }
        i = i + 1;
    }
    false
}

/// Splits `args` into words, resolving quotes and backslashes.
pub fn special_char_args_builder(args: &str) -> (r: Vec<String>)
    ensures
        r.deep_view() == tokens_of(args@),
{
    let chars = chars_of(args);
    let mut words: Vec<String> = Vec::new();
    let mut word: Vec<char> = Vec::new();
    let mut mode = LexMode::Unquoted;
    let mut i: usize = 0;
    assert(chars@.take(0) == Seq::<char>::empty());
    assert(words.deep_view() == Seq::<Seq<char>>::empty());
    while i < chars.len()
        invariant
            i <= chars.len(),
            chars@ == args@,
            lex_from(lex_start(), chars@.take(i as int)) == (LexState {
                mode,
                word: word@,
                words: words.deep_view(),
            }),
        decreases chars.len() - i,
    {
        let c = chars[i];
        proof {
            assert(chars@.take(i + 1).drop_last() == chars@.take(i as int));
        }
        match mode {
            LexMode::Unquoted => {
                if c == '\\' {
                    mode = LexMode::EscapedUnquoted;
                } else if c == '\'' {
                    mode = LexMode::SingleQuoted;
                } else if c == '"' {
                    mode = LexMode::DoubleQuoted;
                } else if is_blank_char(c) {
                    if has_text_exec(&word) {
                        let ghost before = words.deep_view();
                        words.push(string_from_chars(&word));
                        assert(words.deep_view() == before.push(word@));
                    }
                    word = Vec::new();
                } else {
                    word.push(c);
                }
            },
            LexMode::EscapedUnquoted => {
                mode = LexMode::Unquoted;
                word.push(c);
            },
            LexMode::SingleQuoted => {
                if c == '\'' {
                    mode = LexMode::Unquoted;
                } else {
                    word.push(c);
                }
            },
            LexMode::DoubleQuoted => {
                if c == '\\' {
                    mode = LexMode::EscapedDouble;
                } else if c == '"' {
                    mode = LexMode::Unquoted;
                } else {
                    word.push(c);
                }
            },
            LexMode::EscapedDouble => {
                mode = LexMode::DoubleQuoted;
                word.push(c);
            },
        }
        i = i + 1;
    }
    assert(chars@.take(chars.len() as int) == args@);
    if has_text_exec(&word) {
        let ghost before = words.deep_view();
        words.push(string_from_chars(&word));
        assert(words.deep_view() == before.push(word@));
    }
    words
}

/// A word that reads as itself: not empty, with no whitespace, quote or
/// backslash in it.
pub open spec fn is_plain_word(w: Seq<char>) -> bool {
    &&& w.len() > 0
    &&& forall|i: int|
        0 <= i < w.len() ==> {
            let c = #[trigger] w[i];
            !is_blank(c) && c != '\'' && c != '"' && c != '\\'
        }
}

/// Scanning two pieces one after the other is scanning them joined.
pub proof fn lemma_lex_concat(st: LexState, a: Seq<char>, b: Seq<char>)
    ensures
        lex_from(st, a + b) == lex_from(lex_from(st, a), b),
    decreases b.len(),
{
    if b.len() == 0 {
        assert(a + b == a);
    } else {
        assert((a + b).drop_last() == a + b.drop_last());
        assert((a + b).last() == b.last());
        lemma_lex_concat(st, a, b.drop_last());
    }
}

/// Outside quotes, characters with no special meaning are gathered as they
/// are.
proof fn lemma_lex_plain(st: LexState, w: Seq<char>)
    requires
        st.mode == LexMode::Unquoted,
        forall|i: int|
            0 <= i < w.len() ==> {
                let c = #[trigger] w[i];
                !is_blank(c) && c != '\'' && c != '"' && c != '\\'
            },
    ensures
        lex_from(st, w) == (LexState { mode: LexMode::Unquoted, word: st.word + w, words: st.words }),
    decreases w.len(),
{
    if w.len() == 0 {
        assert(st.word + w == st.word);
    } else {
        lemma_lex_plain(st, w.drop_last());
        assert(st.word + w == (st.word + w.drop_last()).push(w.last()));
    }
}

/// After the plain words joined by single spaces, the last word is being
/// gathered and the others are finished.
proof fn lemma_lex_joined(ts: Seq<Seq<char>>)
    requires
        ts.len() > 0,
        forall|i: int| 0 <= i < ts.len() ==> is_plain_word(#[trigger] ts[i]),
    ensures
        lex_from(lex_start(), join_with(ts, seq![' '])) == (LexState {
            mode: LexMode::Unquoted,
            word: ts.last(),
            words: ts.drop_last(),
        }),
    decreases ts.len(),
{
    let sp = seq![' '];
    if ts.len() == 1 {
        lemma_lex_plain(lex_start(), ts[0]);
        assert(Seq::<char>::empty() + ts[0] == ts[0]);
        assert(ts.drop_last() == Seq::<Seq<char>>::empty());
    } else {
        let init = ts.drop_last();
        let j = join_with(init, sp);
        lemma_lex_joined(init);
        lemma_lex_concat(lex_start(), j + sp, ts.last());
        lemma_lex_concat(lex_start(), j, sp);
        let mid = lex_from(lex_start(), j);
        assert(sp.drop_last() == Seq::<char>::empty());
        assert(is_plain_word(init.last()));
        assert(!is_blank(init.last()[0]));
        assert(has_text(init.last()));
        assert(init.drop_last().push(init.last()) == init);
        let after = lex_from(mid, sp);
        assert(lex_from(mid, sp.drop_last()) == mid);
        assert(sp.last() == ' ');
        assert(after == lex_step(mid, ' '));
        assert(after == (LexState { mode: LexMode::Unquoted, word: Seq::empty(), words: init }));
        lemma_lex_plain(after, ts.last());
        assert(Seq::<char>::empty() + ts.last() == ts.last());
    }
}

/// Words with no whitespace, quote or backslash in them, joined by single
/// spaces, scan back into the same words.
pub proof fn lemma_tokens_round_trip(ts: Seq<Seq<char>>)
    requires
        forall|i: int| 0 <= i < ts.len() ==> is_plain_word(#[trigger] ts[i]),
    ensures
        tokens_of(join_with(ts, seq![' '])) == ts,
{
    if ts.len() == 0 {
        assert(!has_text(Seq::<char>::empty()));
    } else {
        lemma_lex_joined(ts);
        assert(is_plain_word(ts.last()));
        assert(!is_blank(ts.last()[0]));
        assert(ts.drop_last().push(ts.last()) == ts);
    }
}

} // verus!
