//! What holds of every PowerShell-style command line.

use vstd::prelude::*;

use crate::plugin_script::windows_command::{
    behind, command_words, is_blank, is_quote, is_separator, lemma_quoted_advances,
    lemma_word_advances, quoted, word, words,
};
use crate::text::white_space;

verus! {

/// `w` as it is written between single quotes.
pub open spec fn escaped(w: Seq<char>) -> Seq<char>
    decreases w.len(),
{
    if w.len() == 0 {
        Seq::empty()
    } else {
        let c = w.first();
        let written = if c == '\'' || c == '`' {
            seq![c, c]
        } else {
            seq![c]
        };
        written + escaped(w.drop_first())
    }
}

/// `w` in single quotes.
pub open spec fn in_quotes(w: Seq<char>) -> Seq<char> {
    seq!['\''] + escaped(w) + seq!['\'']
}

/// The texts `parts` with a space between each two.
pub open spec fn spaced(parts: Seq<Seq<char>>) -> Seq<char>
    decreases parts.len(),
{
    if parts.len() == 0 {
        Seq::empty()
    } else if parts.len() == 1 {
        parts.first()
    } else {
        parts.first() + seq![' '] + spaced(parts.drop_first())
    }
}

/// `piece` stands at `i` in `s`.
pub open spec fn stands_at(s: Seq<char>, i: int, piece: Seq<char>) -> bool {
    0 <= i && i + piece.len() <= s.len() && s.subrange(i, i + piece.len()) == piece
}

/// A word ends at `i`.
pub open spec fn ends_word(s: Seq<char>, i: int) -> bool {
    i >= s.len() || is_blank(s[i])
}

proof fn lemma_stands_inside(s: Seq<char>, i: int, first: Seq<char>, second: Seq<char>)
    requires
        stands_at(s, i, first + second),
    ensures
        stands_at(s, i, first),
        stands_at(s, i + first.len(), second),
{
    let whole = first + second;
    assert(s.subrange(i, i + first.len()) =~= first) by {
        assert forall|k: int| 0 <= k < first.len() implies s[i + k] == first[k] by {
            assert(s.subrange(i, i + whole.len())[k] == whole[k]);
        }
    }
    assert(s.subrange(i + first.len(), i + first.len() + second.len()) =~= second) by {
        assert forall|k: int| 0 <= k < second.len() implies s[i + first.len() + k]
            == second[k] by {
            assert(s.subrange(i, i + whole.len())[first.len() + k] == whole[first.len() + k]);
        }
    }
}

proof fn lemma_stands_char(s: Seq<char>, i: int, piece: Seq<char>, k: int)
    requires
        stands_at(s, i, piece),
        0 <= k < piece.len(),
    ensures
        s[i + k] == piece[k],
{
    assert(s.subrange(i, i + piece.len())[k] == piece[k]);
}

proof fn lemma_quoted_reads_escaped(s: Seq<char>, i: int, w: Seq<char>)
    requires
        stands_at(s, i, escaped(w) + seq!['\'']),
        i + escaped(w).len() + 1 >= s.len() || s[i + escaped(w).len() + 1] != '\'',
    ensures
        quoted(s, i, '\'') == Some((w, i + escaped(w).len() + 1)),
    decreases w.len(),
{
    let close = seq!['\''];
    if w.len() == 0 {
        assert(escaped(w) + close =~= close);
        lemma_stands_char(s, i, close, 0);
        assert(w =~= Seq::empty());
    } else {
        let c = w.first();
        let written = if c == '\'' || c == '`' {
            seq![c, c]
        } else {
            seq![c]
        };
        let rest = w.drop_first();
        assert(escaped(w) + close =~= written + (escaped(rest) + close));
        lemma_stands_inside(s, i, written, escaped(rest) + close);
        lemma_stands_char(s, i, written, 0);
        if written.len() == 2 {
            lemma_stands_char(s, i, written, 1);
        }
        lemma_quoted_reads_escaped(s, i + written.len(), rest);
        assert(seq![c] + rest =~= w);
    }
}

/// A word in single quotes is read as the word.
proof fn lemma_word_reads_quotes(s: Seq<char>, i: int, w: Seq<char>)
    requires
        stands_at(s, i, in_quotes(w)),
        ends_word(s, i + in_quotes(w).len()),
    ensures
        word(s, i) == Some((w, i + in_quotes(w).len())),
{
    let end = i + in_quotes(w).len();
    assert(in_quotes(w) =~= seq!['\''] + (escaped(w) + seq!['\'']));
    lemma_stands_inside(s, i, seq!['\''], escaped(w) + seq!['\'']);
    lemma_stands_char(s, i, seq!['\''], 0);
    lemma_quoted_reads_escaped(s, i + 1, w);
    assert(word(s, end) == Some((Seq::<char>::empty(), end)));
    assert(w + Seq::<char>::empty() =~= w);
}

/// A character that stands for itself outside of quotes.
pub open spec fn is_plain(c: char) -> bool {
    !is_blank(c) && !is_separator(c) && !is_quote(c) && c != '`'
}

/// A word that needs no quotes.
pub open spec fn is_plain_word(w: Seq<char>) -> bool {
    w.len() > 0 && forall|i: int| 0 <= i < w.len() ==> is_plain(#[trigger] w[i])
}

proof fn lemma_word_reads_plain(s: Seq<char>, i: int, w: Seq<char>)
    requires
        stands_at(s, i, w),
        forall|k: int| 0 <= k < w.len() ==> is_plain(#[trigger] w[k]),
        ends_word(s, i + w.len()),
    ensures
        word(s, i) == Some((w, i + w.len())),
    decreases w.len(),
{
    if w.len() == 0 {
        assert(w =~= Seq::empty());
    } else {
        let rest = w.drop_first();
        assert(w =~= seq![w.first()] + rest);
        lemma_stands_inside(s, i, seq![w.first()], rest);
        lemma_stands_char(s, i, w, 0);
        assert(is_plain(w[0]));
        assert forall|k: int| 0 <= k < rest.len() implies is_plain(#[trigger] rest[k]) by {
            assert(rest[k] == w[k + 1]);
        }
        lemma_word_reads_plain(s, i + 1, rest);
    }
}

/// `written` stands for the word `w`: `w` itself where it is plain, or `w` in
/// single quotes.
pub open spec fn writes(written: Seq<char>, w: Seq<char>) -> bool {
    written == in_quotes(w) || (is_plain_word(w) && written == w)
}

proof fn lemma_words_reads_spaced(
    s: Seq<char>,
    i: int,
    written: Seq<Seq<char>>,
    ws: Seq<Seq<char>>,
)
    requires
        written.len() == ws.len(),
        ws.len() > 0,
        forall|k: int| 0 <= k < ws.len() ==> writes(#[trigger] written[k], ws[k]),
        stands_at(s, i, spaced(written)),
        i + spaced(written).len() == s.len(),
    ensures
        words(s, i) == Some(ws),
        !is_blank(s[i]),
        s[i] != '&',
    decreases ws.len(),
{
    let one = written.first();
    let w = ws.first();
    assert(writes(written[0], ws[0]));
    if ws.len() == 1 {
        lemma_word_reads_written(s, i, one, w);
        assert(words(s, i + one.len()) == Some(Seq::<Seq<char>>::empty()));
        assert(seq![w] + Seq::<Seq<char>>::empty() =~= ws);
    } else {
        let later = written.drop_first();
        let space = seq![' '];
        assert(spaced(written) =~= one + (space + spaced(later)));
        lemma_stands_inside(s, i, one, space + spaced(later));
        lemma_stands_inside(s, i + one.len(), space, spaced(later));
        lemma_stands_char(s, i + one.len(), space, 0);
        lemma_word_reads_written(s, i, one, w);
        assert forall|k: int| 0 <= k < ws.drop_first().len() implies writes(
            #[trigger] later[k],
            ws.drop_first()[k],
        ) by {
            assert(writes(written[k + 1], ws[k + 1]));
        }
        lemma_words_reads_spaced(s, i + one.len() + 1, later, ws.drop_first());
        let end = i + one.len();
        assert(is_blank(s[end]));
        assert(words(s, end) == words(s, end + 1));
        assert(seq![w] + ws.drop_first() =~= ws);
    }
}

proof fn lemma_word_reads_written(s: Seq<char>, i: int, written: Seq<char>, w: Seq<char>)
    requires
        writes(written, w),
        stands_at(s, i, written),
        ends_word(s, i + written.len()),
    ensures
        word(s, i) == Some((w, i + written.len())),
        written.len() > 0,
        !is_blank(s[i]),
        !is_separator(s[i]),
{
    lemma_stands_char(s, i, written, 0);
    if written == in_quotes(w) {
        assert(in_quotes(w)[0] == '\'');
        lemma_word_reads_quotes(s, i, w);
    } else {
        assert(is_plain(w[0]));
        lemma_word_reads_plain(s, i, w);
    }
}

/// Splitting gives back the words that a command was written from: each of them
/// as it is, where it holds nothing special, or in single quotes, whatever it
/// holds. Backslashes are nothing special.
pub proof fn split_undoes_writing(written: Seq<Seq<char>>, ws: Seq<Seq<char>>)
    requires
        written.len() == ws.len(),
        ws.len() > 0,
        forall|k: int| 0 <= k < ws.len() ==> writes(#[trigger] written[k], ws[k]),
    ensures
        command_words(spaced(written), 0) == Some(ws),
        command_words(seq!['&', ' '] + spaced(written), 0) == Some(ws),
{
    let s = spaced(written);
    assert(s.subrange(0, s.len() as int) =~= s);
    lemma_words_reads_spaced(s, 0, written, ws);
    let called = seq!['&', ' '] + s;
    assert(called.subrange(2, called.len() as int) =~= s);
    lemma_words_reads_spaced(called, 2, written, ws);
    assert(command_words(called, 2) == Some(ws));
    assert(command_words(called, 1) == command_words(called, 2));
    assert(command_words(called, 0) == command_words(called, 1));
}

/// Nothing before `i` quotes what stands at `i`.
pub open spec fn unquoted_up_to(s: Seq<char>, i: int) -> bool {
    forall|k: int| 0 <= k < i ==> !is_quote(#[trigger] s[k]) && s[k] != '`'
}

proof fn lemma_word_stops_before(s: Seq<char>, k: int, i: int)
    requires
        0 <= k <= i < s.len(),
        unquoted_up_to(s, i),
        is_separator(s[i]),
    ensures
        word(s, k) matches Some((text, end)) && end <= i,
    decreases i - k,
{
    if k < i && !is_blank(s[k]) && !is_separator(s[k]) {
        lemma_word_stops_before(s, k + 1, i);
    }
}

proof fn lemma_words_reject(s: Seq<char>, k: int, i: int)
    requires
        0 <= k <= i < s.len(),
        unquoted_up_to(s, i),
        is_separator(s[i]),
    ensures
        words(s, k) is None,
    decreases i - k,
{
    if k < i && !is_separator(s[k]) {
        if is_blank(s[k]) {
            lemma_words_reject(s, k + 1, i);
        } else {
            lemma_word_stops_before(s, k, i);
            lemma_word_advances(s, k);
            if let Some((text, end)) = word(s, k) {
                lemma_words_reject(s, end, i);
            }
        }
    }
}

/// A separator that no quote or backtick stands before leaves no single command,
/// whatever else does. For `&`, which may also stand before a command, something
/// that is neither blank nor `&` has to come first.
pub proof fn split_rejects_unquoted_separators(s: Seq<char>, i: int)
    requires
        0 <= i < s.len(),
        is_separator(s[i]),
        unquoted_up_to(s, i),
        s[i] == '&' ==> exists|k: int|
            0 <= k < i && !is_blank(#[trigger] s[k]) && s[k] != '&',
    ensures
        command_words(s, 0) is None,
{
    lemma_command_rejects(s, 0, i);
}

proof fn lemma_command_rejects(s: Seq<char>, k: int, i: int)
    requires
        0 <= k <= i < s.len(),
        is_separator(s[i]),
        unquoted_up_to(s, i),
        s[i] == '&' ==> exists|m: int| k <= m < i && !is_blank(#[trigger] s[m]) && s[m] != '&',
    ensures
        command_words(s, k) is None,
    decreases i - k,
{
    if is_blank(s[k]) || s[k] == '&' {
        lemma_command_rejects(s, k + 1, i);
    } else {
        lemma_words_reject(s, k, i);
    }
}

proof fn lemma_quoted_in_front(s: Seq<char>, r: Seq<char>, i: int, quote: char)
    requires
        r.len() > 0,
        r[0] != quote,
        quoted(s, i, quote) is Some,
    ensures
        quoted(s + r, i, quote) == quoted(s, i, quote),
    decreases s.len() - i,
{
    if s[i] == '`' {
        lemma_quoted_in_front(s, r, i + 2, quote);
    } else if s[i] != quote {
        lemma_quoted_in_front(s, r, i + 1, quote);
    } else if i + 1 < s.len() && s[i + 1] == quote {
        lemma_quoted_in_front(s, r, i + 2, quote);
    }
}

proof fn lemma_word_in_front(s: Seq<char>, r: Seq<char>, i: int)
    requires
        r.len() > 0,
        is_separator(r[0]) || is_blank(r[0]),
        0 <= i <= s.len(),
        word(s, i) is Some,
    ensures
        word(s + r, i) == word(s, i),
    decreases s.len() - i,
{
    if i < s.len() && !is_blank(s[i]) && !is_separator(s[i]) {
        if is_quote(s[i]) {
            lemma_quoted_in_front(s, r, i + 1, s[i]);
            lemma_quoted_advances(s, i + 1, s[i]);
            if let Some((text, end)) = quoted(s, i + 1, s[i]) {
                lemma_word_in_front(s, r, end);
            }
        } else if s[i] == '`' {
            lemma_word_in_front(s, r, i + 2);
        } else {
            lemma_word_in_front(s, r, i + 1);
        }
    }
}

proof fn lemma_words_in_front(s: Seq<char>, r: Seq<char>, i: int)
    requires
        r.len() > 0,
        is_separator(r[0]),
        0 <= i <= s.len(),
        words(s, i) is Some,
    ensures
        words(s + r, i) is None,
    decreases s.len() - i,
{
    if i < s.len() {
        if is_blank(s[i]) {
            lemma_words_in_front(s, r, i + 1);
        } else {
            lemma_word_in_front(s, r, i);
            lemma_word_advances(s, i);
            if let Some((text, end)) = word(s, i) {
                lemma_words_in_front(s, r, end);
            }
        }
    }
}

proof fn lemma_command_in_front(s: Seq<char>, r: Seq<char>, i: int)
    requires
        r.len() > 0,
        is_separator(r[0]),
        0 <= i,
        command_words(s, i) is Some,
    ensures
        command_words(s + r, i) is None,
    decreases s.len() - i,
{
    if is_blank(s[i]) || s[i] == '&' {
        lemma_command_in_front(s, r, i + 1);
    } else {
        lemma_words_in_front(s, r, i);
    }
}

/// Compound commands are rejected: behind a command, however it is quoted, a
/// separator leaves no single command, whatever follows it.
pub proof fn split_rejects_compounds(command: Seq<char>, rest: Seq<char>)
    requires
        command_words(command, 0) is Some,
        rest.len() > 0,
        is_separator(rest[0]),
    ensures
        command_words(command + rest, 0) is None,
{
    lemma_command_in_front(command, rest, 0);
}

/// What was read, with the index moved on by `n`.
pub open spec fn moved_on(read: Option<(Seq<char>, int)>, n: int) -> Option<(Seq<char>, int)> {
    match read {
        Some((text, end)) => Some((text, end + n)),
        None => None,
    }
}

/// What was read ends at `n`.
spec fn reads_up_to(read: Option<(Seq<char>, int)>, n: int) -> bool {
    match read {
        Some((text, end)) => end == n,
        None => false,
    }
}

proof fn lemma_quoted_behind(p: Seq<char>, s: Seq<char>, i: int, quote: char)
    requires
        0 <= i,
    ensures
        quoted(p + s, p.len() + i, quote) == moved_on(quoted(s, i, quote), p.len() as int),
    decreases s.len() - i,
{
    let whole = p + s;
    let at = p.len() + i;
    if i < s.len() {
        assert(whole[at] == s[i]);
        if i + 1 < s.len() {
            assert(whole[at + 1] == s[i + 1]);
            lemma_quoted_behind(p, s, i + 2, quote);
        }
        lemma_quoted_behind(p, s, i + 1, quote);
    }
}

proof fn lemma_word_behind(p: Seq<char>, s: Seq<char>, i: int)
    requires
        0 <= i <= s.len(),
    ensures
        word(p + s, p.len() + i) == moved_on(word(s, i), p.len() as int),
    decreases s.len() - i,
{
    let whole = p + s;
    let at = p.len() + i;
    if i < s.len() {
        assert(whole[at] == s[i]);
        if is_quote(s[i]) {
            lemma_quoted_behind(p, s, i + 1, s[i]);
            lemma_quoted_advances(s, i + 1, s[i]);
            if let Some((text, end)) = quoted(s, i + 1, s[i]) {
                lemma_word_behind(p, s, end);
            }
        } else {
            if i + 1 < s.len() {
                assert(whole[at + 1] == s[i + 1]);
                lemma_word_behind(p, s, i + 2);
            }
            lemma_word_behind(p, s, i + 1);
        }
    }
}

proof fn lemma_words_behind(p: Seq<char>, s: Seq<char>, i: int)
    requires
        0 <= i <= s.len(),
    ensures
        words(p + s, p.len() + i) == words(s, i),
    decreases s.len() - i,
{
    let whole = p + s;
    let at = p.len() + i;
    if i < s.len() {
        assert(whole[at] == s[i]);
        if is_blank(s[i]) {
            lemma_words_behind(p, s, i + 1);
        } else if !is_separator(s[i]) {
            lemma_word_behind(p, s, i);
            lemma_word_advances(s, i);
            if let Some((text, end)) = word(s, i) {
                lemma_words_behind(p, s, end);
            }
        }
    }
}

proof fn lemma_command_behind(p: Seq<char>, s: Seq<char>, i: int)
    requires
        0 <= i <= s.len(),
    ensures
        command_words(p + s, p.len() + i) == command_words(s, i),
    decreases s.len() - i,
{
    let whole = p + s;
    let at = p.len() + i;
    if i < s.len() {
        assert(whole[at] == s[i]);
        if i + 1 < s.len() {
            assert(whole[at + 1] == s[i + 1]);
        }
        lemma_command_behind(p, s, i + 1);
        lemma_words_behind(p, s, i);
    }
}

/// Blanks before a command do not count.
pub proof fn split_absorbs_leading_blanks(blanks: Seq<char>, command: Seq<char>)
    requires
        forall|k: int| 0 <= k < blanks.len() ==> is_blank(#[trigger] blanks[k]),
    ensures
        command_words(blanks + command, 0) == command_words(command, 0),
{
    lemma_blanks_are_skipped(blanks, command, 0);
    lemma_command_behind(blanks, command, 0);
}

proof fn lemma_blanks_are_skipped(blanks: Seq<char>, command: Seq<char>, i: int)
    requires
        0 <= i <= blanks.len(),
        forall|k: int| 0 <= k < blanks.len() ==> is_blank(#[trigger] blanks[k]),
    ensures
        command_words(blanks + command, i) == command_words(
            blanks + command,
            blanks.len() as int,
        ),
    decreases blanks.len() - i,
{
    if i < blanks.len() {
        assert((blanks + command)[i] == blanks[i]);
        lemma_blanks_are_skipped(blanks, command, i + 1);
    }
}

/// The call operator with a blank behind it does not count before a command.
pub proof fn split_absorbs_the_call_operator(blank: char, command: Seq<char>)
    requires
        is_blank(blank),
    ensures
        command_words(seq!['&', blank] + command, 0) == command_words(command, 0),
{
    let called = seq!['&', blank] + command;
    assert(called[0] == '&');
    assert(called[1] == blank);
    assert(white_space(blank));
    assert(command_words(called, 0) == command_words(called, 1));
    assert(command_words(called, 1) == command_words(called, 2));
    lemma_command_behind(seq!['&', blank], command, 0);
}

/// What opens and does not end: a quote that is not closed, or a backtick with
/// nothing behind it.
pub open spec fn is_left_open(tail: Seq<char>) -> bool {
    &&& tail.len() > 0
    &&& if is_quote(tail[0]) {
        quoted(tail, 1, tail[0]) is None
    } else {
        tail == seq!['`']
    }
}

proof fn lemma_quoted_left_open(s: Seq<char>, tail: Seq<char>, i: int, quote: char)
    requires
        is_left_open(tail),
        is_quote(quote),
        0 <= i,
        quoted(s, i, quote) is Some,
    ensures
        quoted(s + tail, i, quote) == quoted(s, i, quote) || {
            &&& reads_up_to(quoted(s, i, quote), s.len() as int)
            &&& quoted(s + tail, i, quote) is None
        },
    decreases s.len() - i,
{
    let whole = s + tail;
    if s[i] == '`' {
        lemma_quoted_left_open(s, tail, i + 2, quote);
    } else if s[i] != quote {
        lemma_quoted_left_open(s, tail, i + 1, quote);
    } else if i + 1 < s.len() && s[i + 1] == quote {
        lemma_quoted_left_open(s, tail, i + 2, quote);
    } else if i + 1 == s.len() && tail[0] == quote {
        assert(whole[i + 1] == tail[0]);
        lemma_quoted_behind(s, tail, 1, quote);
        assert(quoted(whole, i + 2, quote) is None);
    }
}

proof fn lemma_word_left_open(s: Seq<char>, tail: Seq<char>, i: int)
    requires
        is_left_open(tail),
        0 <= i <= s.len(),
        word(s, i) is Some,
    ensures
        if reads_up_to(word(s, i), s.len() as int) {
            word(s + tail, i) is None
        } else {
            word(s + tail, i) == word(s, i)
        },
    decreases s.len() - i,
{
    lemma_word_advances(s, i);
    if i == s.len() {
        lemma_word_behind(s, tail, 0);
        assert(word(tail, 0) is None);
    } else if !is_blank(s[i]) && !is_separator(s[i]) {
        if is_quote(s[i]) {
            lemma_quoted_left_open(s, tail, i + 1, s[i]);
            lemma_quoted_advances(s, i + 1, s[i]);
            if let Some((text, end)) = quoted(s, i + 1, s[i]) {
                lemma_word_advances(s, end);
                lemma_word_left_open(s, tail, end);
            }
        } else if s[i] == '`' {
            lemma_word_advances(s, i + 2);
            lemma_word_left_open(s, tail, i + 2);
        } else {
            lemma_word_advances(s, i + 1);
            lemma_word_left_open(s, tail, i + 1);
        }
    }
}

proof fn lemma_words_left_open(s: Seq<char>, tail: Seq<char>, i: int)
    requires
        is_left_open(tail),
        0 <= i <= s.len(),
        words(s, i) is Some,
    ensures
        words(s + tail, i) is None,
    decreases s.len() - i,
{
    if i == s.len() {
        lemma_words_behind(s, tail, 0);
        assert(word(tail, 0) is None);
    } else if is_blank(s[i]) {
        lemma_words_left_open(s, tail, i + 1);
    } else {
        lemma_word_left_open(s, tail, i);
        lemma_word_advances(s, i);
        if let Some((text, end)) = word(s, i) {
            if end < s.len() {
                lemma_words_left_open(s, tail, end);
            }
        }
    }
}

proof fn lemma_command_left_open(s: Seq<char>, tail: Seq<char>, i: int)
    requires
        is_left_open(tail),
        0 <= i,
        command_words(s, i) is Some,
    ensures
        command_words(s + tail, i) is None,
    decreases s.len() - i,
{
    if is_blank(s[i]) || s[i] == '&' {
        lemma_command_left_open(s, tail, i + 1);
    } else {
        lemma_words_left_open(s, tail, i);
    }
}

/// A quote that is not closed, or a backtick with nothing behind it, leaves no
/// command, whatever command stands before it.
pub proof fn split_rejects_what_is_left_open(command: Seq<char>, tail: Seq<char>)
    requires
        command_words(command, 0) is Some,
        is_left_open(tail),
    ensures
        command_words(command + tail, 0) is None,
{
    lemma_command_left_open(command, tail, 0);
}

/// The first thing from `i` on that is not blank is the call operator.
pub open spec fn starts_with_call(s: Seq<char>, i: int) -> bool
    decreases s.len() - i,
{
    if i < 0 || i >= s.len() {
        false
    } else if is_blank(s[i]) {
        starts_with_call(s, i + 1)
    } else {
        s[i] == '&'
    }
}

proof fn lemma_uncalled_words(s: Seq<char>, i: int)
    requires
        !starts_with_call(s, i),
        command_words(s, i) is Some,
    ensures
        words(s, i) == command_words(s, i),
    decreases s.len() - i,
{
    if is_blank(s[i]) {
        lemma_uncalled_words(s, i + 1);
    }
}

proof fn lemma_words_go_on(s: Seq<char>, r: Seq<char>, i: int)
    requires
        r.len() > 0,
        is_blank(r[0]),
        0 <= i <= s.len(),
        words(s, i) is Some,
    ensures
        words(s + r, i) == behind(words(s, i)->0, words(s + r, s.len() as int)),
    decreases s.len() - i,
{
    let later = words(s + r, s.len() as int);
    if i == s.len() {
        if let Some(ws) = later {
            assert(Seq::<Seq<char>>::empty() + ws =~= ws);
        }
    } else if is_blank(s[i]) {
        lemma_words_go_on(s, r, i + 1);
    } else {
        lemma_word_in_front(s, r, i);
        lemma_word_advances(s, i);
        if let Some((text, end)) = word(s, i) {
            lemma_words_go_on(s, r, end);
            if let Some(ws) = later {
                assert(seq![text] + (words(s, end)->0 + ws) =~= (seq![text] + words(s, end)->0)
                    + ws);
            }
        }
    }
}

proof fn lemma_command_goes_on(s: Seq<char>, r: Seq<char>, i: int)
    requires
        r.len() > 0,
        is_blank(r[0]),
        0 <= i,
        command_words(s, i) is Some,
    ensures
        command_words(s + r, i) == behind(command_words(s, i)->0, words(s + r, s.len() as int)),
    decreases s.len() - i,
{
    if is_blank(s[i]) || s[i] == '&' {
        lemma_command_goes_on(s, r, i + 1);
    } else {
        lemma_words_go_on(s, r, i);
    }
}

/// Two commands with a blank between them give the words of both, unless the
/// second starts with the call operator.
pub proof fn split_joins_what_a_blank_parts(first: Seq<char>, blank: char, second: Seq<char>)
    requires
        command_words(first, 0) is Some,
        command_words(second, 0) is Some,
        is_blank(blank),
        !starts_with_call(second, 0),
    ensures
        command_words(first + seq![blank] + second, 0) == Some(
            command_words(first, 0)->0 + command_words(second, 0)->0,
        ),
{
    let rest = seq![blank] + second;
    let whole = first + rest;
    assert(first + seq![blank] + second =~= whole);
    lemma_command_goes_on(first, rest, 0);
    lemma_words_behind(first, rest, 0);
    lemma_words_behind(seq![blank], second, 0);
    assert(words(rest, 0) == words(rest, 1));
    lemma_uncalled_words(second, 0);
}

/// A command that splits has at least one word.
pub proof fn split_is_never_empty(s: Seq<char>)
    ensures
        command_words(s, 0) matches Some(ws) ==> ws.len() > 0,
{
    lemma_command_not_empty(s, 0);
}

proof fn lemma_command_not_empty(s: Seq<char>, i: int)
    ensures
        command_words(s, i) matches Some(ws) ==> ws.len() > 0,
    decreases s.len() - i,
{
    if 0 <= i < s.len() {
        lemma_command_not_empty(s, i + 1);
    }
}

/// How one character is written between quotes.
pub enum QuotedChar {
    /// As it is.
    Itself(char),
    /// The quote itself, written twice.
    DoubledQuote,
    /// Behind a backtick.
    Escaped(char),
}

/// A piece of a word as it is written.
pub enum Piece {
    /// A character as it is.
    Itself(char),
    /// A character behind a backtick.
    Escaped(char),
    /// Characters between two quotes.
    Quoted { quote: char, inner: Seq<QuotedChar> },
}

/// What is written for one character between quotes.
pub open spec fn quoted_char_written(c: QuotedChar, quote: char) -> Seq<char> {
    match c {
        QuotedChar::Itself(c) => seq![c],
        QuotedChar::DoubledQuote => seq![quote, quote],
        QuotedChar::Escaped(c) => seq!['`', c],
    }
}

/// The character that is meant.
pub open spec fn quoted_char_meant(c: QuotedChar, quote: char) -> char {
    match c {
        QuotedChar::Itself(c) => c,
        QuotedChar::DoubledQuote => quote,
        QuotedChar::Escaped(c) => c,
    }
}

/// What is written between quotes.
pub open spec fn inner_written(inner: Seq<QuotedChar>, quote: char) -> Seq<char>
    decreases inner.len(),
{
    if inner.len() == 0 {
        Seq::empty()
    } else {
        quoted_char_written(inner[0], quote) + inner_written(inner.drop_first(), quote)
    }
}

/// The text that is meant between quotes.
pub open spec fn inner_meant(inner: Seq<QuotedChar>, quote: char) -> Seq<char> {
    inner.map_values(|c: QuotedChar| quoted_char_meant(c, quote))
}

/// Nothing but the quote and the backtick is special between quotes.
pub open spec fn is_inner(inner: Seq<QuotedChar>, quote: char) -> bool {
    forall|k: int|
        0 <= k < inner.len() ==> (#[trigger] inner[k] matches QuotedChar::Itself(c) ==> c != quote
            && c != '`')
}

/// What is written for a piece.
pub open spec fn piece_written(piece: Piece) -> Seq<char> {
    match piece {
        Piece::Itself(c) => seq![c],
        Piece::Escaped(c) => seq!['`', c],
        Piece::Quoted { quote, inner } => seq![quote] + inner_written(inner, quote) + seq![quote],
    }
}

/// The text that a piece means.
pub open spec fn piece_meant(piece: Piece) -> Seq<char> {
    match piece {
        Piece::Itself(c) => seq![c],
        Piece::Escaped(c) => seq![c],
        Piece::Quoted { quote, inner } => inner_meant(inner, quote),
    }
}

/// What is written for a word.
pub open spec fn word_written(pieces: Seq<Piece>) -> Seq<char>
    decreases pieces.len(),
{
    if pieces.len() == 0 {
        Seq::empty()
    } else {
        piece_written(pieces[0]) + word_written(pieces.drop_first())
    }
}

/// The word that is meant.
pub open spec fn word_meant(pieces: Seq<Piece>) -> Seq<char>
    decreases pieces.len(),
{
    if pieces.len() == 0 {
        Seq::empty()
    } else {
        piece_meant(pieces[0]) + word_meant(pieces.drop_first())
    }
}

/// A piece is as it says: a character as it is is neither a blank, a space or a
/// tab that is, nor one of `& | ; ' " \``, a carriage return or a line feed.
pub open spec fn is_piece(piece: Piece) -> bool {
    match piece {
        Piece::Itself(c) => c != ' ' && c != '\t' && c != '&' && c != '|' && c != ';' && c != '\r'
            && c != '\n' && c != '\'' && c != '"' && c != '`',
        Piece::Escaped(_) => true,
        Piece::Quoted { quote, inner } => (quote == '\'' || quote == '"') && is_inner(inner, quote),
    }
}

/// Two pieces may stand side by side: two in the same quotes would be one.
pub open spec fn stand_side_by_side(a: Piece, b: Piece) -> bool {
    match (a, b) {
        (Piece::Quoted { quote: p, .. }, Piece::Quoted { quote: q, .. }) => p != q,
        _ => true,
    }
}

/// The pieces make up a word.
pub open spec fn is_word(pieces: Seq<Piece>) -> bool {
    &&& forall|k: int| 0 <= k < pieces.len() ==> is_piece(#[trigger] pieces[k])
    &&& forall|k: int|
        0 <= k < pieces.len() - 1 ==> stand_side_by_side(#[trigger] pieces[k], pieces[k + 1])
}

proof fn lemma_quoted_reads_inner(inner: Seq<QuotedChar>, quote: char, rest: Seq<char>)
    requires
        quote == '\'' || quote == '"',
        is_inner(inner, quote),
        rest.len() > 0 ==> rest[0] != quote,
    ensures
        quoted(inner_written(inner, quote) + seq![quote] + rest, 0, quote) == Some(
            (inner_meant(inner, quote), inner_written(inner, quote).len() + 1int),
        ),
    decreases inner.len(),
{
    let s = inner_written(inner, quote) + seq![quote] + rest;
    if inner.len() == 0 {
        assert(s =~= seq![quote] + rest);
        assert(inner_meant(inner, quote) =~= Seq::empty());
    } else {
        let later = inner.drop_first();
        assert forall|k: int| 0 <= k < later.len() implies (
        #[trigger] later[k] matches QuotedChar::Itself(c) ==> c != quote && c != '`') by {
            assert(later[k] == inner[k + 1]);
        }
        lemma_quoted_reads_inner(later, quote, rest);
        let first = quoted_char_written(inner[0], quote);
        let s_later = inner_written(later, quote) + seq![quote] + rest;
        assert(s =~= first + s_later);
        lemma_quoted_behind(first, s_later, 0, quote);
        let meant = quoted_char_meant(inner[0], quote);
        assert(seq![meant] + inner_meant(later, quote) =~= inner_meant(inner, quote));
        assert(s[0] == first[0]);
        if first.len() == 2 {
            assert(s[1] == first[1]);
        }
    }
}

proof fn lemma_word_reads_pieces(pieces: Seq<Piece>)
    requires
        is_word(pieces),
    ensures
        word(word_written(pieces), 0) == Some(
            (word_meant(pieces), word_written(pieces).len() as int),
        ),
        pieces.len() > 0 ==> {
            let c = word_written(pieces)[0];
            &&& word_written(pieces).len() > 0
            &&& !is_blank(c) && !is_separator(c)
            &&& match pieces[0] {
                Piece::Itself(d) => c == d,
                Piece::Escaped(_) => c == '`',
                Piece::Quoted { quote, .. } => c == quote,
            }
        },
    decreases pieces.len(),
{
    let s = word_written(pieces);
    if pieces.len() > 0 {
        let later = pieces.drop_first();
        let rest = word_written(later);
        assert(is_piece(pieces[0]));
        assert forall|k: int| 0 <= k < later.len() implies is_piece(#[trigger] later[k]) by {
            assert(later[k] == pieces[k + 1]);
        }
        assert forall|k: int| 0 <= k < later.len() - 1 implies stand_side_by_side(
            #[trigger] later[k],
            later[k + 1],
        ) by {
            assert(stand_side_by_side(pieces[k + 1], pieces[k + 2]));
        }
        lemma_word_reads_pieces(later);
        let first = piece_written(pieces[0]);
        assert(s == first + rest);
        lemma_word_behind(first, rest, 0);
        match pieces[0] {
            Piece::Itself(c) => {
                assert(s[0] == c);
            },
            Piece::Escaped(c) => {
                assert(s[0] == '`');
                assert(s[1] == c);
            },
            Piece::Quoted { quote, inner } => {
                assert(s[0] == quote);
                if later.len() > 0 {
                    assert(stand_side_by_side(pieces[0], pieces[1]));
                    assert(later[0] == pieces[1]);
                    assert(is_piece(pieces[1]));
                }
                let t = inner_written(inner, quote) + seq![quote] + rest;
                lemma_quoted_reads_inner(inner, quote, rest);
                assert(s =~= seq![quote] + t);
                lemma_quoted_behind(seq![quote], t, 0, quote);
                assert(first.len() == inner_written(inner, quote).len() + 2);
            },
        }
    }
}

/// A word is read as it is meant, however it is written: characters as they are,
/// backslashes among them, behind backticks, in single and in double quotes,
/// piece by piece.
pub proof fn split_reads_words_as_meant(pieces: Seq<Piece>)
    requires
        pieces.len() > 0,
        is_word(pieces),
    ensures
        command_words(word_written(pieces), 0) == Some(seq![word_meant(pieces)]),
{
    let s = word_written(pieces);
    lemma_word_reads_pieces(pieces);
    assert(words(s, s.len() as int) == Some(Seq::<Seq<char>>::empty()));
    assert(seq![word_meant(pieces)] + Seq::<Seq<char>>::empty() =~= seq![word_meant(pieces)]);
}

/// Blanks behind a command do not count.
pub proof fn split_absorbs_trailing_blanks(command: Seq<char>, blank: char)
    requires
        command_words(command, 0) is Some,
        is_blank(blank),
    ensures
        command_words(command.push(blank), 0) == command_words(command, 0),
{
    let rest = seq![blank];
    let whole = command + rest;
    assert(command.push(blank) =~= whole);
    lemma_command_goes_on(command, rest, 0);
    assert(words(whole, whole.len() as int) == Some(Seq::<Seq<char>>::empty()));
    assert(whole[command.len() as int] == blank);
    let ws = command_words(command, 0)->0;
    assert(ws + Seq::<Seq<char>>::empty() =~= ws);
}

/// Between quotes of either sort all stands for itself, backslashes included,
/// but the quote and the backtick, which are doubled: writing a word so and
/// splitting gives back the word.
pub proof fn split_undoes_quoting(w: Seq<char>, quote: char)
    requires
        quote == '\'' || quote == '"',
    ensures
        command_words(seq![quote] + doubled(w, quote) + seq![quote], 0) == Some(seq![w]),
        command_words(seq!['&', ' ', quote] + doubled(w, quote) + seq![quote], 0) == Some(seq![w]),
{
    let inner = doubled_chars(w, quote);
    lemma_doubled_is_written(w, quote);
    let pieces = seq![Piece::Quoted { quote, inner }];
    assert(pieces.drop_first() =~= Seq::empty());
    let s = seq![quote] + doubled(w, quote) + seq![quote];
    assert(word_written(pieces.drop_first()) =~= Seq::empty());
    assert(word_meant(pieces.drop_first()) =~= Seq::empty());
    assert(word_written(pieces) =~= s);
    assert(word_meant(pieces) =~= w);
    assert(is_piece(pieces[0]));
    split_reads_words_as_meant(pieces);
    split_absorbs_the_call_operator(' ', s);
    assert(seq!['&', ' ', quote] + doubled(w, quote) + seq![quote] =~= seq!['&', ' '] + s);
}

/// `w` with each `quote` and each backtick written twice.
pub open spec fn doubled(w: Seq<char>, quote: char) -> Seq<char>
    decreases w.len(),
{
    if w.len() == 0 {
        Seq::empty()
    } else {
        let c = w.last();
        doubled(w.drop_last(), quote) + if c == quote || c == '`' {
            seq![c, c]
        } else {
            seq![c]
        }
    }
}

spec fn doubled_char(c: char, quote: char) -> QuotedChar {
    if c == quote {
        QuotedChar::DoubledQuote
    } else if c == '`' {
        QuotedChar::Escaped('`')
    } else {
        QuotedChar::Itself(c)
    }
}

spec fn doubled_chars(w: Seq<char>, quote: char) -> Seq<QuotedChar> {
    w.map_values(|c: char| doubled_char(c, quote))
}

proof fn lemma_inner_written_append(a: Seq<QuotedChar>, b: Seq<QuotedChar>, quote: char)
    ensures
        inner_written(a + b, quote) == inner_written(a, quote) + inner_written(b, quote),
    decreases a.len(),
{
    if a.len() == 0 {
        assert(a + b =~= b);
        assert(inner_written(a, quote) + inner_written(b, quote) =~= inner_written(b, quote));
    } else {
        lemma_inner_written_append(a.drop_first(), b, quote);
        assert((a + b).drop_first() =~= a.drop_first() + b);
        assert(inner_written(a + b, quote) =~= inner_written(a, quote) + inner_written(b, quote));
    }
}

proof fn lemma_doubled_is_written(w: Seq<char>, quote: char)
    requires
        quote == '\'' || quote == '"',
    ensures
        inner_written(doubled_chars(w, quote), quote) == doubled(w, quote),
        inner_meant(doubled_chars(w, quote), quote) == w,
        is_inner(doubled_chars(w, quote), quote),
    decreases w.len(),
{
    let inner = doubled_chars(w, quote);
    assert(inner_meant(inner, quote) =~= w);
    if w.len() > 0 {
        let fewer = doubled_chars(w.drop_last(), quote);
        let one = seq![inner.last()];
        assert(inner.len() == w.len());
        lemma_doubled_is_written(w.drop_last(), quote);
        assert(inner =~= fewer + one);
        lemma_inner_written_append(fewer, one, quote);
        assert(one.drop_first() =~= Seq::empty());
        assert(inner_written(one.drop_first(), quote) =~= Seq::empty());
        assert(inner_written(one, quote) =~= quoted_char_written(inner.last(), quote));
    }
}

/// A text in double quotes that holds neither a double quote nor a backtick is
/// read as exactly that text, and so is one in single quotes that holds neither
/// a single quote nor a backtick.
pub proof fn split_keeps_quoted_texts(text: Seq<char>, quote: char)
    requires
        quote == '\'' || quote == '"',
        !text.contains(quote),
        !text.contains('`'),
    ensures
        command_words(seq![quote] + text + seq![quote], 0) == Some(seq![text]),
{
    lemma_nothing_to_double(text, quote);
    split_undoes_quoting(text, quote);
}

proof fn lemma_nothing_to_double(text: Seq<char>, quote: char)
    requires
        forall|k: int| 0 <= k < text.len() ==> #[trigger] text[k] != quote && text[k] != '`',
    ensures
        doubled(text, quote) == text,
    decreases text.len(),
{
    if text.len() > 0 {
        assert forall|k: int| 0 <= k < text.drop_last().len() implies #[trigger] text.drop_last()[k]
            != quote && text.drop_last()[k] != '`' by {
            assert(text[k] != quote);
        }
        lemma_nothing_to_double(text.drop_last(), quote);
        assert(text[text.len() - 1] != quote);
        assert(doubled(text, quote) =~= text);
    } else {
        assert(doubled(text, quote) =~= text);
    }
}

/// A line that starts with a separator other than the call operator, with what
/// is left open, or with a call operator that no white space follows is no
/// command, and neither is one that is empty.
pub proof fn split_rejects_bad_starts(s: Seq<char>)
    ensures
        s.len() == 0 ==> command_words(s, 0) is None,
        s.len() > 0 && (s[0] == '|' || s[0] == ';' || s[0] == '\r' || s[0] == '\n')
            ==> command_words(s, 0) is None,
        is_left_open(s) ==> command_words(s, 0) is None,
        s.len() > 0 && s[0] == '&' && (s.len() == 1 || !white_space(s[1])) ==> command_words(
            s,
            0,
        ) is None,
{
}

/// A call operator before white space does not count where the command starts.
pub proof fn split_absorbs_calls_before_white_space(command: Seq<char>)
    requires
        command.len() > 0,
        white_space(command[0]),
    ensures
        command_words(seq!['&'] + command, 0) == command_words(command, 0),
{
    let called = seq!['&'] + command;
    assert(called[0] == '&');
    assert(called[1] == command[0]);
    lemma_command_behind(seq!['&'], command, 0);
}

/// Behind a command, an ampersand, a bar, a semicolon, a carriage return and a
/// line feed each leave no single command, whatever follows; a space and a tab
/// part words.
pub proof fn split_separators_and_blanks(command: Seq<char>, rest: Seq<char>)
    requires
        command_words(command, 0) is Some,
        rest.len() > 0,
    ensures
        rest[0] == '&' || rest[0] == '|' || rest[0] == ';' || rest[0] == '\r' || rest[0] == '\n'
            ==> command_words(command + rest, 0) is None,
        (rest[0] == ' ' || rest[0] == '\t') && command_words(rest, 0) is Some && !starts_with_call(
            rest,
            1,
        ) ==> command_words(command + rest, 0) == Some(
            command_words(command, 0)->0 + command_words(rest, 0)->0,
        ),
{
    if is_separator(rest[0]) {
        split_rejects_compounds(command, rest);
    }
    if (rest[0] == ' ' || rest[0] == '\t') && command_words(rest, 0) is Some && !starts_with_call(
        rest,
        1,
    ) {
        let second = rest.drop_first();
        let blanks = seq![rest[0]];
        assert(blanks + second =~= rest);
        split_absorbs_leading_blanks(blanks, second);
        lemma_call_behind(blanks, second, 0);
        split_joins_what_a_blank_parts(command, rest[0], second);
        assert(command + seq![rest[0]] + second =~= command + rest);
    }
}

proof fn lemma_call_behind(p: Seq<char>, s: Seq<char>, i: int)
    requires
        0 <= i <= s.len(),
    ensures
        starts_with_call(p + s, p.len() + i) == starts_with_call(s, i),
    decreases s.len() - i,
{
    if i < s.len() {
        assert((p + s)[p.len() + i] == s[i]);
        lemma_call_behind(p, s, i + 1);
    }
}

} // verus!
