//! Byte-level text helpers: ASCII bytes to `String`, and decimal rendering of integers.
use vstd::prelude::*;
use vstd::utf8::*;
use vstd::string::*;

verus! {

/// The characters that a sequence of ASCII bytes stands for.
pub open spec fn ascii_chars(bytes: Seq<u8>) -> Seq<char> {
    bytes.map_values(|b: u8| b as char)
}

/// Every byte is an ASCII code (below 128).
pub open spec fn is_ascii_bytes(bytes: Seq<u8>) -> bool {
    forall|i: int| 0 <= i < bytes.len() ==> #[trigger] bytes[i] < 128
}

/// `std::str::from_utf8`, with its error dropped: the documentation of std says it
/// succeeds exactly on valid UTF-8 and then borrows the same bytes as a `str`.
#[verifier::external_body]
fn str_from_utf8(bytes: &[u8]) -> (r: Option<&str>)
    ensures
        r is Some <==> valid_utf8(bytes@),
        r matches Some(s) ==> s.spec_bytes() == bytes@,
{
    std::str::from_utf8(bytes).ok()
}

/// ASCII bytes are their own UTF-8 encoding.
pub proof fn lemma_ascii_encoding(bytes: Seq<u8>)
    requires
        is_ascii_bytes(bytes),
    ensures
        encode_utf8(ascii_chars(bytes)) == bytes,
        valid_utf8(bytes),
{
    let c = ascii_chars(bytes);
    assert(is_ascii_chars(c)) by {
        assert forall|i: int| 0 <= i < c.len() implies '\0' <= #[trigger] c[i] <= '\u{7f}' by {
            assert(bytes[i] < 128);
        }
    }
    is_ascii_chars_encode_utf8(c);
    assert forall|i: int| 0 <= i < bytes.len() implies encode_utf8(c)[i] == bytes[i] by {
        assert(c[i] as u8 == encode_utf8(c)[i]);
        let b = bytes[i];
        assert(b < 128);
        assert(((b as char) as u8) == b);
    }
    assert(encode_utf8(c) =~= bytes);
    encode_utf8_valid_utf8(c);
}

/// Builds a `String` from ASCII bytes.
pub fn ascii_to_string(bytes: &Vec<u8>) -> (s: String)
    requires
        is_ascii_bytes(bytes@),
    ensures
        s@ == ascii_chars(bytes@),
{
    proof {
        lemma_ascii_encoding(bytes@);
    }
    let text = str_from_utf8(bytes.as_slice()).unwrap();
    proof {
        let c = ascii_chars(bytes@);
        encode_utf8_decode_utf8(c);
        encode_utf8_decode_utf8(text@);
    }
    text.to_owned()
}

/// The decimal digits of a natural number, most significant first, without leading zeros.
pub open spec fn decimal_digits(n: nat) -> Seq<u8>
    decreases n,
{
    if n < 10 {
        seq![(48 + n) as u8]
    } else {
        decimal_digits(n / 10).push((48 + n % 10) as u8)
    }
}

/// The decimal rendering of an integer, with a leading `-` for negative values,
/// as `i64::to_string` writes it.
pub open spec fn decimal(n: int) -> Seq<u8> {
    if n < 0 {
        seq![45u8] + decimal_digits((-n) as nat)
    } else {
        decimal_digits(n as nat)
    }
}

/// An ASCII decimal digit `0`..`9`.
pub open spec fn is_digit(b: u8) -> bool {
    48 <= b <= 57
}

/// Decimal digits are ASCII digits, and there is at least one.
pub proof fn lemma_decimal_digits_are_digits(n: nat)
    ensures
        decimal_digits(n).len() >= 1,
        forall|i: int| 0 <= i < decimal_digits(n).len() ==> is_digit(#[trigger] decimal_digits(n)[i]),
    decreases n,
{
    if n >= 10 {
        lemma_decimal_digits_are_digits(n / 10);
    }
}

/// A decimal rendering is ASCII and holds at least one digit, its last byte.
pub proof fn lemma_decimal_shape(n: int)
    ensures
        is_ascii_bytes(decimal(n)),
        decimal(n).len() >= 1,
        is_digit(decimal(n)[decimal(n).len() - 1]),
{
    let m: nat = if n < 0 { (-n) as nat } else { n as nat };
    lemma_decimal_digits_are_digits(m);
    let d = decimal(n);
    if n < 0 {
        assert(d == seq![45u8] + decimal_digits(m));
        assert forall|i: int| 0 <= i < d.len() implies #[trigger] d[i] < 128 by {
            if i > 0 {
                assert(d[i] == decimal_digits(m)[i - 1]);
            }
        }
        assert(d[d.len() - 1] == decimal_digits(m)[decimal_digits(m).len() - 1]);
    }
}

/// Appends the decimal digits of `m` to `out`.
fn push_decimal_digits(m: u64, out: &mut Vec<u8>)
    ensures
        final(out)@ == old(out)@ + decimal_digits(m as nat),
    decreases m,
{
    if m >= 10 {
        push_decimal_digits(m / 10, out);
    }
    let d: u8 = (m % 10) as u8;
    out.push(48 + d);
    proof {
        if m >= 10 {
            assert(decimal_digits(m as nat) == decimal_digits((m / 10) as nat).push((48 + m % 10) as u8));
        }
    }
}

/// The decimal rendering of `n`, as `n.to_string()` gives it, in ASCII bytes.
pub fn decimal_bytes(n: i64) -> (r: Vec<u8>)
    ensures
        r@ == decimal(n as int),
{
    let mut out: Vec<u8> = Vec::new();
    if n < 0 {
        out.push(45u8);
        let wide: i128 = n as i128;
        let magnitude: u64 = (-wide) as u64;
        push_decimal_digits(magnitude, &mut out);
    } else {
        push_decimal_digits(n as u64, &mut out);
    }
    out
}

/// The decimal rendering of `n` as a `String`, as `n.to_string()` gives it.
pub fn decimal_string(n: i64) -> (s: String)
    ensures
        s@ == ascii_chars(decimal(n as int)),
{
    let bytes = decimal_bytes(n);
    proof {
        lemma_decimal_shape(n as int);
    }
    ascii_to_string(&bytes)
}

/// `p` is a prefix of `s`.
pub open spec fn starts_with(s: Seq<char>, p: Seq<char>) -> bool {
    p.len() <= s.len() && s.take(p.len() as int) == p
}

/// Whether the text `s` begins with the text `p`, as `str::starts_with` answers it.
pub fn text_starts_with(s: &str, p: &str) -> (r: bool)
    ensures
        r == starts_with(s@, p@),
{
    let n = s.unicode_len();
    let m = p.unicode_len();
    if m > n {
        return false;
    }
    let mut i: usize = 0;
    while i < m
        invariant
            m <= n,
            n == s@.len(),
            m == p@.len(),
            i <= m,
            forall|j: int| 0 <= j < i ==> s@[j] == p@[j],
        decreases m - i,
    {
        if s.get_char(i) != p.get_char(i) {
            return false;
        }
        i = i + 1;
    }
    assert(s@.take(m as int) =~= p@);
    true
}

/// Whether the texts `s` and `p` are equal.
pub fn text_equals(s: &str, p: &str) -> (r: bool)
    ensures
        r == (s@ == p@),
{
    let same_start = text_starts_with(s, p);
    proof {
        if s@ == p@ {
            assert(s@.take(p@.len() as int) =~= p@);
        }
    }
    if same_start && s.unicode_len() == p.unicode_len() {
        assert(s@.take(p@.len() as int) =~= s@);
        true
    } else {
        false
    }
}

} // verus!
