use vstd::prelude::*;
use crate::text::{chars_of, find_char_from, index_from, lemma_index_from, string_of_range};

verus! {

/// Unicode white space (the `White_Space` property).
pub open spec fn is_space(c: char) -> bool {
    ||| '\u{9}' <= c && c <= '\u{d}'
    ||| c == ' '
    ||| c == '\u{85}'
    ||| c == '\u{a0}'
    ||| c == '\u{1680}'
    ||| '\u{2000}' <= c && c <= '\u{200a}'
    ||| c == '\u{2028}'
    ||| c == '\u{2029}'
    ||| c == '\u{202f}'
    ||| c == '\u{205f}'
    ||| c == '\u{3000}'
}

/// Whether `c` ends an unquoted token.
pub open spec fn is_word_break(c: char) -> bool {
    is_space(c) || c == '"'
}

/// The first position at or after `i` holding white space or a quote, or the length of `s`.
pub open spec fn word_end(s: Seq<char>, i: int) -> int
    decreases s.len() - i,
{
    if i < 0 || i >= s.len() {
        s.len() as int
    } else if is_word_break(s[i]) {
        i
    } else {
        word_end(s, i + 1)
    }
}

pub proof fn lemma_word_end(s: Seq<char>, i: int)
    requires
        0 <= i <= s.len(),
    ensures
        i <= word_end(s, i) <= s.len(),
        word_end(s, i) < s.len() ==> is_word_break(s[word_end(s, i)]),
    decreases s.len() - i,
{
    if i < s.len() && !is_word_break(s[i]) {
        lemma_word_end(s, i + 1);
    }
}

/// The tokens of `s` from position `i` on. White space separates tokens; a token is a
/// run of characters that are neither white space nor quotes, or a span between two
/// quotes, which may hold white space and is given without its quotes. A quote that
/// no later quote closes is passed over.
pub open spec fn tokens_from(s: Seq<char>, i: int) -> Seq<Seq<char>>
    decreases s.len() - i,
    via tokens_from_decreases
{
    if i < 0 || i >= s.len() {
        seq![]
    } else if is_space(s[i]) {
        tokens_from(s, i + 1)
    } else if s[i] == '"' {
        let j = index_from(s, '"', i + 1);
        if j < s.len() {
            seq![s.subrange(i + 1, j)] + tokens_from(s, j + 1)
        } else {
            tokens_from(s, i + 1)
        }
    } else {
        let j = word_end(s, i);
        seq![s.subrange(i, j)] + tokens_from(s, j)
    }
}

#[via_fn]
proof fn tokens_from_decreases(s: Seq<char>, i: int) {
    if 0 <= i < s.len() {
        lemma_index_from(s, '"', i + 1);
        lemma_word_end(s, i);
    }
}

/// The tokens of `s`.
pub open spec fn tokens(s: Seq<char>) -> Seq<Seq<char>> {
    tokens_from(s, 0)
}

/// The texts held by a sequence of strings.
pub open spec fn views(v: Seq<String>) -> Seq<Seq<char>> {
    v.map_values(|t: String| t@)
}

/// `s` without its enclosing quotes, when it starts and ends with one.
pub open spec fn unquoted(s: Seq<char>) -> Seq<char> {
    if s.len() >= 2 && s[0] == '"' && s[s.len() - 1] == '"' {
        s.subrange(1, s.len() - 1)
    } else {
        s
    }
}

fn char_is_space(c: char) -> (r: bool)
    ensures
        r == is_space(c),
{
    ('\u{9}' <= c && c <= '\u{d}') || c == ' ' || c == '\u{85}' || c == '\u{a0}' || c == '\u{1680}'
        || ('\u{2000}' <= c && c <= '\u{200a}') || c == '\u{2028}' || c == '\u{2029}' || c
        == '\u{202f}' || c == '\u{205f}' || c == '\u{3000}'
}

fn find_word_end(v: &Vec<char>, from: usize) -> (r: usize)
    requires
        from <= v@.len(),
    ensures
        r as int == word_end(v@, from as int),
{
    let mut i: usize = from;
    while i < v.len()
        invariant
            from <= i <= v@.len(),
            word_end(v@, from as int) == word_end(v@, i as int),
        decreases v.len() - i,
    {
        let c = v[i];
        if char_is_space(c) || c == '"' {
            return i;
        }
        i = i + 1;
    }
    i
}

/// Strips quotes `"` from start and end of `s`.
/// Deletes only one symbol from start and end if it is equal to `"`
pub fn strip_quotes(s: &str) -> (r: String)
    ensures
        r@ == unquoted(s@),
{
    let v = chars_of(s);
    let n = v.len();
    if n >= 2 && v[0] == '"' && v[n - 1] == '"' {
        string_of_range(&v, 1, n - 1)
    } else {
        s.to_owned()
    }
}

/// Splits `text` into tokens (see [`tokens_from`]): the command name, then its arguments.
pub fn tokenize(text: &str) -> (r: Vec<String>)
    ensures
        views(r@) == tokens(text@),
{
    let v = chars_of(text);
    let n = v.len();
    let mut out: Vec<String> = Vec::new();
    let mut i: usize = 0;
    while i < n
        invariant
            n == v@.len(),
            v@ == text@,
            i <= n,
            views(out@) + tokens_from(v@, i as int) == tokens(v@),
        decreases n - i,
    {
        let ghost old_out = out@;
        let c = v[i];
        if char_is_space(c) {
            i = i + 1;
        } else if c == '"' {
            proof {
                lemma_index_from(v@, '"', i + 1);
            }
            let j = find_char_from(&v, '"', i + 1);
            if j < n {
                let quoted = string_of_range(&v, i, j + 1);
                let token = strip_quotes(quoted.as_str());
                assert(token@ =~= v@.subrange(i + 1, j as int));
                out.push(token);
                assert(views(out@) =~= views(old_out) + seq![token@]);
                i = j + 1;
            } else {
                i = i + 1;
            }
        } else {
            proof {
                lemma_word_end(v@, i as int);
            }
            let j = find_word_end(&v, i);
            let token = string_of_range(&v, i, j);
            out.push(token);
            assert(views(out@) =~= views(old_out) + seq![token@]);
            i = j;
        }
    }
    assert(views(out@) =~= views(out@) + tokens_from(v@, i as int));
    out
}

} // verus!
