use vstd::prelude::*;
use crate::text::{chars_of, find_char_from, index_from, lemma_index_from, string_of_range};

verus! {

/// Asymmetric key: two numbers, held as their decimal text.
#[derive(Debug)]
pub struct Key(pub String, pub String);

/// Both numbers' bytes, each after its length in eight bytes, least significant first.
pub fn parts_to_bytes(first: Vec<u8>, second: Vec<u8>) -> (r: Vec<u8>)
    ensures
        r@ == le_bytes(first@.len(), 8) + first@ + le_bytes(second@.len(), 8) + second@,
{
    let ghost f = first@;
    let ghost g = second@;
    let mut bytes = u64_le_bytes(first.len() as u64);
    let mut first = first;
    bytes.append(&mut first);
    let mut len_second = u64_le_bytes(second.len() as u64);
    bytes.append(&mut len_second);
    let mut second = second;
    bytes.append(&mut second);
    assert(bytes@ =~= le_bytes(f.len(), 8) + f + le_bytes(g.len(), 8) + g);
    bytes
}

/// Reads one part of a key: the number's bytes and what follows them.
pub fn read_part(b: &[u8]) -> (r: Option<(Vec<u8>, Vec<u8>)>)
    ensures
        r is None <==> split_part(b@) is None,
        r matches Some((p, rest)) ==> split_part(b@) == Some((p@, rest@)),
{
    if b.len() < 8 {
        return None;
    }
    let n = read_u64_le(b);
    if ((b.len() - 8) as u64) < n {
        return None;
    }
    let end = 8 + n as usize;
    let part = copy_range(b, 8, end);
    let rest = copy_range(b, end, b.len());
    Some((part, rest))
}

fn copy_range(b: &[u8], from: usize, to: usize) -> (r: Vec<u8>)
    requires
        from <= to <= b@.len(),
    ensures
        r@ == b@.subrange(from as int, to as int),
{
    let mut out: Vec<u8> = Vec::new();
    let mut i: usize = from;
    while i < to
        invariant
            from <= i <= to <= b@.len(),
            out@ == b@.subrange(from as int, i as int),
        decreases to - i,
    {
        out.push(b[i]);
        i = i + 1;
    }
    out
}

/// Why a key could not be parsed.
#[derive(Debug, PartialEq, Eq, Structural)]
pub enum ParseError {
    /// The text is not two non-empty parts joined by `:`.
    InvalidFormat,
    /// A part is not a decimal number.
    ParseBigInt,
}

/// `s` without a leading `+`, as the number parser reads it (a doubled `+` is kept).
pub open spec fn without_plus(s: Seq<char>) -> Seq<char> {
    if s.len() > 0 && s[0] == '+' && !(s.len() > 1 && s[1] == '+') {
        s.drop_first()
    } else {
        s
    }
}

/// Text that the number parser accepts in base 10: an optional `+`, then decimal digits
/// and `_` separators, the first being a digit.
pub open spec fn decimal_text(s: Seq<char>) -> bool {
    let t = without_plus(s);
    &&& t.len() > 0
    &&& t[0] != '_'
    &&& forall|i: int| 0 <= i < t.len() ==> ('0' <= #[trigger] t[i] && t[i] <= '9') || t[i] == '_'
}

/// Whether `c` is a decimal digit.
pub open spec fn is_digit(c: char) -> bool {
    '0' <= c && c <= '9'
}

/// The number that decimal digits with `_` separators write.
pub open spec fn decimal_value(t: Seq<char>) -> nat
    decreases t.len(),
{
    if t.len() == 0 {
        0
    } else if t.last() == '_' {
        decimal_value(t.drop_last())
    } else {
        decimal_value(t.drop_last()) * 10 + ((t.last() as u32) - ('0' as u32)) as nat
    }
}

/// The number that the decimal text `s` denotes.
pub open spec fn number_of(s: Seq<char>) -> nat {
    decimal_value(without_plus(s))
}

/// `t` is the canonical decimal text of `v`: digits only, no leading zero but for zero itself.
pub open spec fn canonical_decimal_of(t: Seq<char>, v: nat) -> bool {
    &&& t.len() > 0
    &&& forall|i: int| 0 <= i < t.len() ==> is_digit(#[trigger] t[i])
    &&& t[0] == '0' ==> t.len() == 1
    &&& decimal_value(t) == v
}

/// Canonical decimal text is text that the number parser accepts.
pub proof fn lemma_canonical_is_decimal_text(t: Seq<char>, v: nat)
    requires
        canonical_decimal_of(t, v),
    ensures
        decimal_text(t),
{
    assert(is_digit(t[0]));
    assert(without_plus(t) == t);
}

/// The bytes of `v`, least significant first, as few as hold it (one for zero).
pub open spec fn min_le_bytes(v: nat) -> Seq<u8>
    decreases v,
{
    if v < 256 {
        seq![v as u8]
    } else {
        seq![(v % 256) as u8] + min_le_bytes(v / 256)
    }
}

/// Relies on num_bigint's `BigUint::from_str` (base 10), which accepts exactly
/// `decimal_text`, and on `BigUint::to_string`, which writes the value in decimal.
#[verifier::external_body]
fn canonical_decimal(s: &str) -> (r: Option<String>)
    ensures
        r is Some <==> decimal_text(s@),
        r matches Some(t) ==> canonical_decimal_of(t@, number_of(s@)),
{
    match <num_bigint::BigUint as std::str::FromStr>::from_str(s) {
        Ok(n) => Some(n.to_string()),
        Err(_) => None,
    }
}

/// Relies on num_bigint's `BigUint::from_str` (base 10), which accepts `s`, and on
/// `BigUint::to_bytes_le`, which writes the value's bytes, least significant first, as
/// few as hold it (`[0]` for zero).
#[verifier::external_body]
fn le_bytes_of_decimal(s: &str) -> (r: Vec<u8>)
    requires
        decimal_text(s@),
    ensures
        r@ == min_le_bytes(number_of(s@)),
{
    <num_bigint::BigUint as std::str::FromStr>::from_str(s).unwrap().to_bytes_le()
}

/// Relies on num_bigint's `BigUint::from_bytes_le`, which reads the bytes least significant
/// first, and on `BigUint::to_string`, which writes the value in decimal.
#[verifier::external_body]
fn decimal_of_le_bytes(b: &[u8]) -> (r: String)
    ensures
        canonical_decimal_of(r@, le_value(b@)),
{
    num_bigint::BigUint::from_bytes_le(b).to_string()
}

/// The `n` bytes of `x`, least significant first.
pub open spec fn le_bytes(x: nat, n: nat) -> Seq<u8>
    decreases n,
{
    if n == 0 {
        seq![]
    } else {
        seq![(x % 256) as u8] + le_bytes(x / 256, (n - 1) as nat)
    }
}

/// The number whose bytes, least significant first, are `b`.
pub open spec fn le_value(b: Seq<u8>) -> nat
    decreases b.len(),
{
    if b.len() == 0 {
        0
    } else {
        b[0] as nat + 256 * le_value(b.drop_first())
    }
}

/// One part of a key in bytes: its length in eight bytes, least significant first, then
/// the number's bytes.
pub open spec fn part_bytes(digits: Seq<char>) -> Seq<u8> {
    le_bytes(min_le_bytes(number_of(digits)).len(), 8) + min_le_bytes(number_of(digits))
}

/// The number's bytes at the start of `b` and what follows them, or `None` when `b` ends early.
pub open spec fn split_part(b: Seq<u8>) -> Option<(Seq<u8>, Seq<u8>)> {
    if b.len() < 8 {
        None
    } else {
        let n = le_value(b.subrange(0, 8)) as int;
        if b.len() - 8 < n {
            None
        } else {
            Some((b.subrange(8, 8 + n), b.subrange(8 + n, b.len() as int)))
        }
    }
}

/// Why bytes are no key.
#[derive(Debug, PartialEq, Eq, Structural)]
pub enum Error {
    /// The bytes end before the key does.
    Truncated,
}

fn u64_le_bytes(x: u64) -> (r: Vec<u8>)
    ensures
        r@ == le_bytes(x as nat, 8),
{
    let mut out: Vec<u8> = Vec::new();
    let mut v: u64 = x;
    let mut i: usize = 0;
    while i < 8
        invariant
            i <= 8,
            out@ + le_bytes(v as nat, (8 - i) as nat) == le_bytes(x as nat, 8),
        decreases 8 - i,
    {
        let ghost before = out@;
        out.push((v % 256) as u8);
        assert(le_bytes(v as nat, (8 - i) as nat) == seq![(v % 256) as u8] + le_bytes(
            (v / 256) as nat,
            (8 - i - 1) as nat,
        ));
        assert(out@ =~= before + seq![(v % 256) as u8]);
        v = v / 256;
        i = i + 1;
    }
    out
}

proof fn lemma_le_value_bound(b: Seq<u8>)
    ensures
        le_value(b) < pow256(b.len()),
    decreases b.len(),
{
    if b.len() > 0 {
        lemma_le_value_bound(b.drop_first());
        let rest = le_value(b.drop_first());
        let p = pow256(b.drop_first().len());
        assert(b[0] as nat + 256 * rest < 256 * p) by (nonlinear_arith)
            requires
                b[0] < 256,
                rest < p,
        ;
    }
}

/// 256 to the power `n`.
pub open spec fn pow256(n: nat) -> nat
    decreases n,
{
    if n == 0 {
        1
    } else {
        256 * pow256((n - 1) as nat)
    }
}

/// The number in the first eight bytes of `b`, least significant first.
fn read_u64_le(b: &[u8]) -> (r: u64)
    requires
        b@.len() >= 8,
    ensures
        r as nat == le_value(b@.subrange(0, 8)),
{
    let mut v: u64 = 0;
    let mut i: usize = 8;
    proof {
        lemma_pow256_8();
    }
    while i > 0
        invariant
            i <= 8,
            b@.len() >= 8,
            v as nat == le_value(b@.subrange(i as int, 8)),
        decreases i,
    {
        let ghost tail = b@.subrange(i as int, 8);
        let ghost next = b@.subrange(i - 1, 8);
        assert(next.drop_first() =~= tail);
        proof {
            lemma_le_value_bound(next);
            lemma_pow256_le(next.len(), 8);
            lemma_pow256_8();
        }
        v = v * 256 + b[i - 1] as u64;
        i = i - 1;
    }
    v
}

proof fn lemma_pow256_8()
    ensures
        pow256(8) == 0x1_0000_0000_0000_0000,
{
    reveal_with_fuel(pow256, 9);
}

proof fn lemma_pow256_le(m: nat, n: nat)
    requires
        m <= n,
    ensures
        pow256(m) <= pow256(n),
    decreases n,
{
    if m < n {
        lemma_pow256_le(m, (n - 1) as nat);
    }
}

/// Position of the first `:` in `s`, or its length.
pub open spec fn colon_at(s: Seq<char>) -> int {
    index_from(s, ':', 0)
}

/// The text before the first `:`.
pub open spec fn first_part(s: Seq<char>) -> Seq<char> {
    s.subrange(0, colon_at(s))
}

/// The text after the first `:`.
pub open spec fn second_part(s: Seq<char>) -> Seq<char> {
    s.subrange(colon_at(s) + 1, s.len() as int)
}

/// Whether `s` is two non-empty parts joined by a `:`.
pub open spec fn key_format(s: Seq<char>) -> bool {
    &&& colon_at(s) < s.len()
    &&& first_part(s).len() > 0
    &&& second_part(s).len() > 0
}

/// Why the text `s` is no key, or `None` when it is one.
pub open spec fn key_error(s: Seq<char>) -> Option<ParseError> {
    if !key_format(s) {
        Some(ParseError::InvalidFormat)
    } else if !(decimal_text(first_part(s)) && decimal_text(second_part(s))) {
        Some(ParseError::ParseBigInt)
    } else {
        None
    }
}

/// The text `s` encrypted with `k`. The cipher is a placeholder that leaves the text as it is.
pub open spec fn encrypted(k: Key, s: Seq<char>) -> Seq<char> {
    s
}

/// The text `s` decrypted with `k`. The cipher is a placeholder that leaves the text as it is.
pub open spec fn decrypted(k: Key, s: Seq<char>) -> Seq<char> {
    s
}

/// The text form of a key: both numbers joined by `:`.
pub open spec fn key_text(k: Key) -> Seq<char> {
    k.0@ + seq![':'] + k.1@
}

impl Key {
    /// Constructs a key from text in format `<first_num>:<second_num>`
    ///
    /// # Errors
    ///
    /// * `InvalidFormat` - if there is no `:` or a part is empty
    /// * `ParseBigInt` - if a part is not a decimal number
    pub fn from_str(s: &str) -> (r: Result<Key, ParseError>)
        ensures
            !key_format(s@) ==> r == Err::<Key, ParseError>(ParseError::InvalidFormat),
            key_format(s@) && !(decimal_text(first_part(s@)) && decimal_text(second_part(s@)))
                ==> r == Err::<Key, ParseError>(ParseError::ParseBigInt),
            key_format(s@) && decimal_text(first_part(s@)) && decimal_text(second_part(s@))
                ==> (r matches Ok(k) && canonical_decimal_of(k.0@, number_of(first_part(s@)))
                && canonical_decimal_of(k.1@, number_of(second_part(s@)))),
            r matches Ok(k) ==> decimal_text(k.0@) && decimal_text(k.1@),
    {
        let v = chars_of(s);
        proof {
            lemma_index_from(v@, ':', 0);
        }
        let colon = find_char_from(&v, ':', 0);
        if colon == v.len() || colon == 0 || colon + 1 == v.len() {
            return Err(ParseError::InvalidFormat);
        }
        let first = string_of_range(&v, 0, colon);
        let second = string_of_range(&v, colon + 1, v.len());
        let a = match canonical_decimal(first.as_str()) {
            Some(a) => a,
            None => return Err(ParseError::ParseBigInt),
        };
        let b = match canonical_decimal(second.as_str()) {
            Some(b) => b,
            None => return Err(ParseError::ParseBigInt),
        };
        Ok(Key(a, b))
    }

    /// Returns byte representation of key: each number's length in eight bytes, then its
    /// bytes, least significant first.
    pub fn as_bytes(&self) -> (r: Vec<u8>)
        requires
            decimal_text(self.0@),
            decimal_text(self.1@),
        ensures
            r@ == part_bytes(self.0@) + part_bytes(self.1@),
    {
        let first = le_bytes_of_decimal(self.0.as_str());
        let second = le_bytes_of_decimal(self.1.as_str());
        parts_to_bytes(first, second)
    }

    /// Constructs a key from bytes as [`Key::as_bytes`] writes them.
    ///
    /// # Errors
    ///
    /// * `Truncated` - if the bytes end before the key does
    pub fn from_bytes(bytes: &[u8]) -> (r: Result<Key, Error>)
        ensures
            split_part(bytes@) is None ==> r == Err::<Key, Error>(Error::Truncated),
            split_part(bytes@) matches Some((first, rest)) ==> {
                &&& split_part(rest) is None ==> r == Err::<Key, Error>(Error::Truncated)
                &&& split_part(rest) matches Some((second, _)) ==> (r matches Ok(k)
                    && canonical_decimal_of(k.0@, le_value(first)) && canonical_decimal_of(
                    k.1@,
                    le_value(second),
                ))
            },
            r matches Ok(k) ==> decimal_text(k.0@) && decimal_text(k.1@),
    {
        let (first, rest) = match read_part(bytes) {
            Some(x) => x,
            None => return Err(Error::Truncated),
        };
        let (second, _) = match read_part(rest.as_slice()) {
            Some(x) => x,
            None => return Err(Error::Truncated),
        };
        Ok(Key(decimal_of_le_bytes(first.as_slice()), decimal_of_le_bytes(second.as_slice())))
    }

    /// Converts the key to text: both numbers joined by `:`.
    pub fn to_string(&self) -> (r: String)
        ensures
            r@ == key_text(*self),
    {
        let mut r = self.0.clone();
        r.append(":");
        r.append(self.1.as_str());
        proof {
            reveal_strlit(":");
        }
        r
    }

    /// A key holding the same numbers.
    pub fn duplicate(&self) -> (r: Key)
        ensures
            r.0@ == self.0@,
            r.1@ == self.1@,
    {
        Key(self.0.clone(), self.1.clone())
    }

    /// Generates a pair of public and secret keys.
    ///
    /// The pair is fixed: the cipher is a placeholder (see [`Key::encrypt`]).
    pub fn generate_pair() -> (r: (Key, Key))
        ensures
            r.0.0@ == "269"@,
            r.0.1@ == "221"@,
            r.1.0@ == "5"@,
            r.1.1@ == "221"@,
    {
        (
            Key(String::from_str("269"), String::from_str("221")),
            Key(String::from_str("5"), String::from_str("221")),
        )
    }

    /// Encrypts `s` with the key.
    ///
    /// The cipher is a placeholder that leaves the text as it is.
    pub fn encrypt(&self, s: &str) -> (r: String)
        ensures
            r@ == encrypted(*self, s@),
    {
        s.to_owned()
    }

    /// Decrypts `s` with the key.
    ///
    /// The cipher is a placeholder that leaves the text as it is.
    pub fn decrypt(&self, s: &str) -> (r: String)
        ensures
            r@ == decrypted(*self, s@),
    {
        s.to_owned()
    }
}

} // verus!
