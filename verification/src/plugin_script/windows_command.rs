//! The words of a PowerShell-style command line.

use vstd::prelude::*;

use crate::text::{chars_of, is_white_space, white_space};

verus! {

/// A blank parts words.
pub open spec fn is_blank(c: char) -> bool {
    c == ' ' || c == '\t'
}

/// A separator parts commands.
pub open spec fn is_separator(c: char) -> bool {
    c == '&' || c == '|' || c == ';' || c == '\r' || c == '\n'
}

pub open spec fn is_quote(c: char) -> bool {
    c == '\'' || c == '"'
}

/// What was read with `text` before it.
pub open spec fn after(text: Seq<char>, read: Option<(Seq<char>, int)>) -> Option<
    (Seq<char>, int),
> {
    match read {
        Some((rest, end)) => Some((text + rest, end)),
        None => None,
    }
}

/// What stands from `i` up to the closing quote `quote`, and the index behind
/// that quote. A backtick takes the next character as it is, and a doubled
/// quote stands for one. `None` where the quote is not closed.
pub open spec fn quoted(s: Seq<char>, i: int, quote: char) -> Option<(Seq<char>, int)>
    decreases s.len() - i,
{
    if i < 0 || i >= s.len() {
        None
    } else if s[i] == '`' {
        if i + 1 < s.len() {
            after(seq![s[i + 1]], quoted(s, i + 2, quote))
        } else {
            None
        }
    } else if s[i] != quote {
        after(seq![s[i]], quoted(s, i + 1, quote))
    } else if i + 1 < s.len() && s[i + 1] == quote {
        after(seq![quote], quoted(s, i + 2, quote))
    } else {
        Some((Seq::empty(), i + 1))
    }
}

/// The rest of a word from `i` on, and the index where the word ends: at a
/// blank, a separator or the end. Quoted parts belong to the word, and a
/// backtick takes the next character as it is.
pub open spec fn word(s: Seq<char>, i: int) -> Option<(Seq<char>, int)>
    decreases s.len() - i,
{
    if i < 0 || i >= s.len() || is_blank(s[i]) || is_separator(s[i]) {
        Some((Seq::empty(), i))
    } else if is_quote(s[i]) {
        match quoted(s, i + 1, s[i]) {
            Some((text, end)) => {
                proof {
                    lemma_quoted_advances(s, i + 1, s[i]);
                }
                after(text, word(s, end))
            },
            None => None,
        }
    } else if s[i] == '`' {
        if i + 1 < s.len() {
            after(seq![s[i + 1]], word(s, i + 2))
        } else {
            None
        }
    } else {
        after(seq![s[i]], word(s, i + 1))
    }
}

/// What was split with the words `before` before it.
pub open spec fn behind(before: Seq<Seq<char>>, split: Option<Seq<Seq<char>>>) -> Option<
    Seq<Seq<char>>,
> {
    match split {
        Some(rest) => Some(before + rest),
        None => None,
    }
}

/// The words from `i` on. `None` where a separator stands outside of quotes.
pub open spec fn words(s: Seq<char>, i: int) -> Option<Seq<Seq<char>>>
    decreases s.len() - i,
{
    if i < 0 || i >= s.len() {
        Some(Seq::empty())
    } else if is_blank(s[i]) {
        words(s, i + 1)
    } else if is_separator(s[i]) {
        None
    } else {
        match word(s, i) {
            Some((text, end)) => {
                proof {
                    lemma_word_advances(s, i);
                }
                behind(seq![text], words(s, end))
            },
            None => None,
        }
    }
}

/// The words of the one command that stands from `i` on. The call operator `&`
/// may stand before it, with white space behind it. `None` where there is no
/// command, or more than one.
pub open spec fn command_words(s: Seq<char>, i: int) -> Option<Seq<Seq<char>>>
    decreases s.len() - i,
{
    if i < 0 || i >= s.len() {
        None
    } else if is_blank(s[i]) {
        command_words(s, i + 1)
    } else if s[i] == '&' {
        if i + 1 < s.len() && white_space(s[i + 1]) {
            command_words(s, i + 1)
        } else {
            None
        }
    } else {
        words(s, i)
    }
}

/// A quoted part ends behind where it starts.
pub proof fn lemma_quoted_advances(s: Seq<char>, i: int, quote: char)
    ensures
        quoted(s, i, quote) matches Some((text, end)) ==> i < end <= s.len(),
    decreases s.len() - i,
{
    if 0 <= i < s.len() {
        lemma_quoted_advances(s, i + 1, quote);
        if i + 1 < s.len() {
            lemma_quoted_advances(s, i + 2, quote);
        }
    }
}

/// A word ends at or behind where it starts; behind it, unless it is empty
/// there.
pub proof fn lemma_word_advances(s: Seq<char>, i: int)
    ensures
        word(s, i) matches Some((text, end)) ==> {
            &&& i <= end
            &&& i <= s.len() ==> end <= s.len()
            &&& 0 <= i < s.len() && !is_blank(s[i]) && !is_separator(s[i]) ==> i < end
        },
    decreases s.len() - i,
{
    if 0 <= i < s.len() && !is_blank(s[i]) && !is_separator(s[i]) {
        if is_quote(s[i]) {
            lemma_quoted_advances(s, i + 1, s[i]);
            if let Some((text, end)) = quoted(s, i + 1, s[i]) {
                lemma_word_advances(s, end);
            }
        } else if s[i] == '`' {
            if i + 1 < s.len() {
                lemma_word_advances(s, i + 2);
            }
        } else {
            lemma_word_advances(s, i + 1);
        }
    }
}

/// Reads up to the closing quote `quote`; the text goes behind `text`, and the
/// index behind the quote comes back.
fn read_quoted(chars: &Vec<char>, start: usize, quote: char, text: &mut String) -> (end: Option<
    usize,
>)
    requires
        start <= chars@.len(),
    ensures
        match end {
            Some(end) => after(old(text)@, quoted(chars@, start as int, quote)) == Some(
                (final(text)@, end as int),
            ),
            None => quoted(chars@, start as int, quote) is None,
        },
{
    let mut i: usize = start;
    let ghost s = chars@;
    proof {
        lemma_quoted_advances(s, start as int, quote);
    }
    while i < chars.len()
        invariant
            i <= chars@.len(),
            s == chars@,
            after(old(text)@, quoted(s, start as int, quote)) == after(
                text@,
                quoted(s, i as int, quote),
            ),
        decreases chars@.len() - i,
    {
        let c = chars[i];
        let ghost read = text@;
        if c == '`' {
            if i + 1 >= chars.len() {
                return None;
            }
            text.push(chars[i + 1]);
            i += 2;
        } else if c != quote {
            text.push(c);
            i += 1;
        } else if i + 1 < chars.len() && chars[i + 1] == quote {
            text.push(quote);
            i += 2;
        } else {
            assert(text@ + Seq::<char>::empty() =~= text@);
            return Some(i + 1);
        }
        assert(text@ == read + seq![text@.last()]);
        proof {
            if let Some((rest, end)) = quoted(s, i as int, quote) {
                assert(text@ + rest =~= read + (seq![text@.last()] + rest));
            }
        }
    }
    None
}

/// Reads the word that starts at `start`; the word and the index where it ends.
fn read_word(chars: &Vec<char>, start: usize) -> (read: Option<(String, usize)>)
    requires
        start <= chars@.len(),
    ensures
        match read {
            Some((text, end)) => word(chars@, start as int) == Some((text@, end as int)),
            None => word(chars@, start as int) is None,
        },
{
    let ghost s = chars@;
    let mut i: usize = start;
    let mut text = String::new();
    proof {
        if let Some((rest, end)) = word(s, start as int) {
            assert(text@ + rest =~= rest);
        }
    }
    loop
        invariant
            i <= chars@.len(),
            s == chars@,
            word(s, start as int) == after(text@, word(s, i as int)),
        decreases chars@.len() - i,
    {
        if i >= chars.len() {
            assert(text@ + Seq::<char>::empty() =~= text@);
            return Some((text, i));
        }
        let c = chars[i];
        let ghost read = text@;
        let ghost from = i as int;
        if c == ' ' || c == '\t' || c == '&' || c == '|' || c == ';' || c == '\r' || c == '\n' {
            assert(text@ + Seq::<char>::empty() =~= text@);
            return Some((text, i));
        } else if c == '\'' || c == '"' {
            proof {
                lemma_quoted_advances(s, i + 1, c);
            }
            match read_quoted(chars, i + 1, c, &mut text) {
                Some(end) => {
                    i = end;
                },
                None => {
                    return None;
                },
            }
        } else if c == '`' {
            if i + 1 >= chars.len() {
                return None;
            }
            text.push(chars[i + 1]);
            i += 2;
            assert(text@ == read + seq![s[from + 1]]);
        } else {
            text.push(c);
            i += 1;
            assert(text@ == read + seq![s[from]]);
        }
        proof {
            let piece = text@.skip(read.len() as int);
            assert(text@ =~= read + piece);
            if let Some((rest, end)) = word(s, i as int) {
                assert(text@ + rest =~= read + (piece + rest));
            }
            if is_quote(s[from]) {
                if let Some((inner, end)) = quoted(s, from + 1, s[from]) {
                    assert(piece =~= inner);
                }
            } else {
                assert(piece =~= seq![text@.last()]);
            }
        }
    }
}

/// Splits one plain PowerShell-style command without treating backslashes as
/// escapes. Compound commands are rejected because lifecycle events attach to
/// the spawned shell process and cannot represent multiple child scripts.
pub fn split_windows_command(command: &str) -> (tokens: Option<Vec<String>>)
    ensures
        tokens.deep_view() == command_words(command@, 0),
{
    let chars = chars_of(command);
    let ghost s = chars@;
    let mut i: usize = 0;
    while i < chars.len() && (chars[i] == ' ' || chars[i] == '\t' || chars[i] == '&')
        invariant
            i <= chars@.len(),
            s == chars@,
            s == command@,
            command_words(s, 0) == command_words(s, i as int),
        decreases chars@.len() - i,
    {
        if chars[i] == '&' && !(i + 1 < chars.len() && is_white_space(chars[i + 1])) {
            return None;
        }
        i += 1;
    }
    if i >= chars.len() {
        return None;
    }
    let mut tokens: Vec<String> = Vec::new();
    proof {
        if let Some(rest) = words(s, i as int) {
            assert(tokens.deep_view() + rest =~= rest);
        }
    }
    while i < chars.len()
        invariant
            i <= chars@.len(),
            s == chars@,
            s == command@,
            command_words(s, 0) == behind(tokens.deep_view(), words(s, i as int)),
        decreases chars@.len() - i,
    {
        let c = chars[i];
        if c == ' ' || c == '\t' {
            i += 1;
        } else if c == '&' || c == '|' || c == ';' || c == '\r' || c == '\n' {
            return None;
        } else {
            proof {
                lemma_word_advances(s, i as int);
            }
            let ghost before = tokens.deep_view();
            match read_word(&chars, i) {
                Some((text, end)) => {
                    tokens.push(text);
                    i = end;
                    assert(tokens.deep_view() =~= before + seq![text@]);
                    proof {
                        if let Some(rest) = words(s, i as int) {
                            assert(tokens.deep_view() + rest =~= before + (seq![text@] + rest));
                        }
                    }
                },
                None => {
                    return None;
                },
            }
        }
    }
    assert(tokens.deep_view() + Seq::<Seq<char>>::empty() =~= tokens.deep_view());
    Some(tokens)
}

} // verus!
