use vstd::prelude::*;
use crate::text::chars_of;

verus! {

/// Whether `c` is an ASCII letter.
pub open spec fn is_alpha(c: char) -> bool {
    ('a' <= c && c <= 'z') || ('A' <= c && c <= 'Z')
}

/// Whether `c` is an ASCII letter or digit.
pub open spec fn is_alnum(c: char) -> bool {
    is_alpha(c) || ('0' <= c && c <= '9')
}

/// The three punctuation characters allowed inside a name.
pub open spec fn is_name_punct(c: char) -> bool {
    c == '.' || c == '@' || c == '_'
}

/// Whether two dots stand next to each other somewhere in `s`.
pub open spec fn has_double_dot(s: Seq<char>) -> bool {
    exists|i: int| 0 <= i && i + 1 < s.len() && s[i] == '.' && #[trigger] s[i + 1] == '.'
}

/// Longest name accepted as a storage key.
pub const MAX_NAME_LEN: usize = 32;

/// A name that can be used as a storage key: non-empty, at most 32 characters,
/// made of ASCII letters, digits, `.`, `@` and `_`, with at least one letter,
/// no `..`, and neither starting nor ending with `.`, `@` or `_`.
pub open spec fn safe_for_filename(s: Seq<char>) -> bool {
    &&& 0 < s.len() <= MAX_NAME_LEN
    &&& forall|i: int| 0 <= i < s.len() ==> is_alnum(#[trigger] s[i]) || is_name_punct(s[i])
    &&& exists|i: int| 0 <= i < s.len() && is_alpha(#[trigger] s[i])
    &&& !has_double_dot(s)
    &&& !is_name_punct(s[0])
    &&& !is_name_punct(s[s.len() - 1])
}

/// The stricter username rule: as [`safe_for_filename`], but without `_`.
pub open spec fn valid_username(s: Seq<char>) -> bool {
    &&& safe_for_filename(s)
    &&& forall|i: int| 0 <= i < s.len() ==> #[trigger] s[i] != '_'
}

fn char_is_alpha(c: char) -> (r: bool)
    ensures
        r == is_alpha(c),
{
    ('a' <= c && c <= 'z') || ('A' <= c && c <= 'Z')
}

fn char_is_alnum(c: char) -> (r: bool)
    ensures
        r == is_alnum(c),
{
    char_is_alpha(c) || ('0' <= c && c <= '9')
}

fn char_is_name_punct(c: char) -> (r: bool)
    ensures
        r == is_name_punct(c),
{
    c == '.' || c == '@' || c == '_'
}

fn chars_contain_two_dots(v: &Vec<char>) -> (r: bool)
    ensures
        r == has_double_dot(v@),
{
    let mut i: usize = 0;
    while i < v.len()
        invariant
            i <= v@.len(),
            forall|k: int| 0 <= k < i && k + 1 < v@.len() ==> !(v@[k] == '.' && #[trigger] v@[k + 1] == '.'),
        decreases v.len() - i,
    {
        if i + 1 < v.len() && v[i] == '.' && v[i + 1] == '.' {
            assert(v@[i as int + 1] == '.');
            return true;
        }
        i = i + 1;
    }
    proof {
        assert forall|k: int| 0 <= k && k + 1 < v@.len() && v@[k] == '.' implies #[trigger] v@[k
            + 1] != '.' by {
            assert(k < i);
        }
    }
    false
}

/// Whether two dots stand next to each other in `s`.
fn is_contains_two_dots(s: &str) -> (r: bool)
    ensures
        r == has_double_dot(s@),
{
    chars_contain_two_dots(&chars_of(s))
}

/// Checks the characters of `v` against the name rule; `underscore` says whether `_` is allowed.
fn chars_safe(v: &Vec<char>, underscore: bool) -> (r: bool)
    ensures
        r == (safe_for_filename(v@) && (underscore || forall|i: int|
            0 <= i < v@.len() ==> #[trigger] v@[i] != '_')),
{
    let n = v.len();
    if n == 0 || n > MAX_NAME_LEN {
        return false;
    }
    let mut i: usize = 0;
    let mut alpha_seen = false;
    while i < n
        invariant
            n == v@.len(),
            0 < n <= MAX_NAME_LEN,
            i <= n,
            forall|k: int| 0 <= k < i ==> is_alnum(#[trigger] v@[k]) || is_name_punct(v@[k]),
            !underscore ==> forall|k: int| 0 <= k < i ==> #[trigger] v@[k] != '_',
            alpha_seen == exists|k: int| 0 <= k < i && is_alpha(#[trigger] v@[k]),
        decreases n - i,
    {
        let c = v[i];
        if !(char_is_alnum(c) || char_is_name_punct(c)) || (!underscore && c == '_') {
            return false;
        }
        if char_is_alpha(c) {
            alpha_seen = true;
        }
        proof {
            if !alpha_seen {
                assert forall|k: int| 0 <= k < i + 1 implies !is_alpha(#[trigger] v@[k]) by {
                    if k < i {
                    } else {
                        assert(v@[k] == c);
                    }
                }
            }
        }
        i = i + 1;
    }
    if !alpha_seen || chars_contain_two_dots(v) {
        return false;
    }
    !char_is_name_punct(v[0]) && !char_is_name_punct(v[n - 1])
}

/// Checks if `name` is a *safe* string to be a filename (see [`safe_for_filename`]).
pub fn is_safe_for_filename(name: &str) -> (r: bool)
    ensures
        r == safe_for_filename(name@),
{
    chars_safe(&chars_of(name), true)
}

/// Whether every character of `s` is an ASCII letter or digit, `.` or `@`.
fn is_all_ascii_alphanumeric_or_dot_or_at_sign(s: &str) -> (r: bool)
    ensures
        r == forall|i: int| 0 <= i < s@.len() ==> is_alnum(#[trigger] s@[i]) || s@[i] == '.' || s@[i]
            == '@',
{
    let v = chars_of(s);
    let mut i: usize = 0;
    while i < v.len()
        invariant
            v@ == s@,
            forall|k: int| 0 <= k < i ==> is_alnum(#[trigger] v@[k]) || v@[k] == '.' || v@[k] == '@',
        decreases v.len() - i,
    {
        let c = v[i];
        if !(char_is_alnum(c) || c == '.' || c == '@') {
            assert(!(is_alnum(s@[i as int]) || s@[i as int] == '.' || s@[i as int] == '@'));
            return false;
        }
        i = i + 1;
    }
    true
}

/// Checks if `username` is a valid username (see [`valid_username`]).
pub fn is_valid_username(username: &str) -> (r: bool)
    ensures
        r == valid_username(username@),
{
    let v = chars_of(username);
    let n = v.len();
    if n == 0 || !is_all_ascii_alphanumeric_or_dot_or_at_sign(username) || n > MAX_NAME_LEN {
        proof {
            if n > 0 && n <= MAX_NAME_LEN {
                assert(!(forall|i: int| 0 <= i < username@.len() ==> #[trigger] username@[i] != '_'
                    && (is_alnum(username@[i]) || is_name_punct(username@[i]))));
            }
        }
        return false;
    }
    if is_contains_two_dots(username) {
        return false;
    }
    chars_safe(&v, false)
}

} // verus!
