use vstd::prelude::*;
use vstd::std_specs::iter::IteratorSpec;

verus! {

/// The characters of `s`, in order.
pub(crate) fn chars_of(s: &str) -> (r: Vec<char>)
    ensures
        r@ == s@,
{
    let mut it = s.chars();
    let mut v: Vec<char> = Vec::new();
    loop
        invariant
            v@ + it.remaining() == s@,
            it.decrease() is Some,
        decreases it.decrease()->0,
    {
        let ghost before = it.remaining();
        match it.next() {
            Some(c) => {
                v.push(c);
                assert(before == seq![c] + it.remaining());
            },
            None => {
                assert(it.remaining().len() == 0);
                return v;
            },
        }
    }
}

/// Relies on `String`'s `FromIterator<&char>`: the string made of the characters of `v`, in order.
#[verifier::external_body]
pub(crate) fn string_of(v: &[char]) -> (r: String)
    ensures
        r@ == v@,
{
    v.iter().collect()
}

/// The characters `v[from..to]` as a string.
pub(crate) fn string_of_range(v: &Vec<char>, from: usize, to: usize) -> (r: String)
    requires
        from <= to <= v@.len(),
    ensures
        r@ == v@.subrange(from as int, to as int),
{
    let mut part: Vec<char> = Vec::new();
    let mut i: usize = from;
    while i < to
        invariant
            from <= i <= to <= v@.len(),
            part@ == v@.subrange(from as int, i as int),
        decreases to - i,
    {
        part.push(v[i]);
        i = i + 1;
    }
    string_of(part.as_slice())
}

/// Whether `s` ends with a carriage return followed by a line feed.
pub open spec fn ends_with_crlf(s: Seq<char>) -> bool {
    s.len() >= 2 && s[s.len() - 2] == '\r' && s[s.len() - 1] == '\n'
}

/// `s` with one trailing `"\r\n"` removed, if it has one.
pub open spec fn strip_crlf(s: Seq<char>) -> Seq<char> {
    if ends_with_crlf(s) {
        s.subrange(0, s.len() - 2)
    } else {
        s
    }
}

/// `s` with `"\r\n"` appended, unless it already ends with it.
pub open spec fn with_crlf(s: Seq<char>) -> Seq<char> {
    if ends_with_crlf(s) {
        s
    } else {
        s + seq!['\r', '\n']
    }
}

pub(crate) fn has_crlf_suffix(v: &Vec<char>) -> (r: bool)
    ensures
        r == ends_with_crlf(v@),
{
    let n = v.len();
    n >= 2 && v[n - 2] == '\r' && v[n - 1] == '\n'
}

/// `s` followed by `"\r\n"` unless it already ends with it.
pub fn ensure_crlf(s: &str) -> (r: String)
    ensures
        r@ == with_crlf(s@),
{
    let v = chars_of(s);
    if has_crlf_suffix(&v) {
        s.to_owned()
    } else {
        let mut r = s.to_owned();
        r.append("\r\n");
        proof {
            reveal_strlit("\r\n");
            assert(r@ =~= s@ + seq!['\r', '\n']);
        }
        r
    }
}


/// The first position at or after `i` where `s` holds `c`, or the length of `s` if none does.
pub open spec fn index_from(s: Seq<char>, c: char, i: int) -> int
    decreases s.len() - i,
{
    if i < 0 || i >= s.len() {
        s.len() as int
    } else if s[i] == c {
        i
    } else {
        index_from(s, c, i + 1)
    }
}

/// `index_from` lies in `[i, len]`, and no `c` stands before it from `i` on.
pub proof fn lemma_index_from(s: Seq<char>, c: char, i: int)
    requires
        0 <= i <= s.len(),
    ensures
        i <= index_from(s, c, i) <= s.len(),
        index_from(s, c, i) < s.len() ==> s[index_from(s, c, i)] == c,
        forall|j: int| i <= j < index_from(s, c, i) ==> #[trigger] s[j] != c,
    decreases s.len() - i,
{
    if i < s.len() && s[i] != c {
        lemma_index_from(s, c, i + 1);
    }
}

/// First position at or after `from` where `v` holds `c`, or its length.
pub(crate) fn find_char_from(v: &Vec<char>, c: char, from: usize) -> (r: usize)
    requires
        from <= v@.len(),
    ensures
        r as int == index_from(v@, c, from as int),
{
    let mut i: usize = from;
    while i < v.len()
        invariant
            from <= i <= v@.len(),
            index_from(v@, c, from as int) == index_from(v@, c, i as int),
        decreases v.len() - i,
    {
        if v[i] == c {
            return i;
        }
        i = i + 1;
    }
    i
}

} // verus!
