//! Digit grouping that makes numbers more readable: `"100000"` becomes `"100,000"`.
use vstd::prelude::*;
use vstd::string::*;
use vstd::utf8::encode_utf8;
use crate::text::{ascii_chars, ascii_to_string, is_ascii_bytes, is_digit};

verus! {

/// The comma byte `,`.
pub open spec fn comma() -> u8 {
    44u8
}

/// What one input byte contributes, given its position counted from the end of the
/// whole input (1 for the last byte): a digit is kept, with a comma in front of it
/// when that position is a multiple of three; any other byte is dropped.
pub open spec fn digit_piece(b: u8, pos_from_end: nat) -> Seq<u8> {
    if is_digit(b) {
        if pos_from_end % 3 == 0 {
            seq![comma(), b]
        } else {
            seq![b]
        }
    } else {
        seq![]
    }
}

/// The pieces of all bytes of `bytes`, in order. Positions are counted from the end
/// of `bytes`, over all bytes, digits or not.
pub open spec fn grouped(bytes: Seq<u8>) -> Seq<u8>
    decreases bytes.len(),
{
    if bytes.len() == 0 {
        seq![]
    } else {
        digit_piece(bytes[0], bytes.len()) + grouped(bytes.drop_first())
    }
}

/// The grouped digits, without a comma at the very front.
pub open spec fn pretty_bytes(bytes: Seq<u8>) -> Seq<u8> {
    let g = grouped(bytes);
    if g.len() > 0 && g[0] == comma() {
        g.drop_first()
    } else {
        g
    }
}

/// Some byte of `bytes` is a decimal digit.
pub open spec fn has_digit(bytes: Seq<u8>) -> bool {
    exists|i: int| 0 <= i < bytes.len() && is_digit(#[trigger] bytes[i])
}

/// The digits of `bytes`, in order.
pub open spec fn digits_of(bytes: Seq<u8>) -> Seq<u8>
    decreases bytes.len(),
{
    if bytes.len() == 0 {
        seq![]
    } else if is_digit(bytes[0]) {
        seq![bytes[0]] + digits_of(bytes.drop_first())
    } else {
        digits_of(bytes.drop_first())
    }
}

/// `bytes` with every comma removed.
pub open spec fn without_commas(bytes: Seq<u8>) -> Seq<u8>
    decreases bytes.len(),
{
    if bytes.len() == 0 {
        seq![]
    } else if bytes[0] == comma() {
        without_commas(bytes.drop_first())
    } else {
        seq![bytes[0]] + without_commas(bytes.drop_first())
    }
}

/// Every byte is a digit or a comma.
pub open spec fn digits_and_commas(bytes: Seq<u8>) -> bool {
    forall|i: int| 0 <= i < bytes.len() ==> is_digit(#[trigger] bytes[i]) || bytes[i] == comma()
}

/// A value that can be shown with its digits grouped in threes.
pub trait PrettiableNumber {
    /// The text bytes that the grouping reads.
    spec fn text_bytes(&self) -> Seq<u8>;

    /// The digits of the text with a comma before every digit whose position, counted
    /// from the end of the text, is a multiple of three, and no comma in front.
    fn pretty(&self) -> (r: String)
        requires
            has_digit(self.text_bytes()),
        ensures
            r@ == ascii_chars(pretty_bytes(self.text_bytes())),
    ;
}

proof fn lemma_grouped_shape(bytes: Seq<u8>)
    ensures
        digits_and_commas(grouped(bytes)),
        has_digit(bytes) ==> grouped(bytes).len() > 0,
        grouped(bytes).len() > 0 ==> is_digit(grouped(bytes)[0]) || (grouped(bytes).len() > 1
            && is_digit(grouped(bytes)[1])),
    decreases bytes.len(),
{
    if bytes.len() > 0 {
        let rest = bytes.drop_first();
        lemma_grouped_shape(rest);
        let p = digit_piece(bytes[0], bytes.len());
        let g = grouped(bytes);
        assert(g == p + grouped(rest));
        assert forall|i: int| 0 <= i < g.len() implies is_digit(#[trigger] g[i]) || g[i] == comma() by {
            if i >= p.len() {
                assert(g[i] == grouped(rest)[i - p.len()]);
            }
        }
        if has_digit(bytes) && !is_digit(bytes[0]) {
            let k = choose|k: int| 0 <= k < bytes.len() && is_digit(#[trigger] bytes[k]);
            assert(rest[k - 1] == bytes[k]);
        }
        if p.len() == 0 && g.len() > 0 {
            assert(g == grouped(rest));
        }
    }
}

/// The grouped output is ASCII; with a digit in the input it is not empty, and its
/// first byte is a digit once a leading comma is dropped.
pub proof fn lemma_pretty_shape(bytes: Seq<u8>)
    requires
        has_digit(bytes),
    ensures
        pretty_bytes(bytes).len() > 0,
        is_digit(pretty_bytes(bytes)[0]),
        digits_and_commas(pretty_bytes(bytes)),
        is_ascii_bytes(pretty_bytes(bytes)),
{
    lemma_grouped_shape(bytes);
    let p = pretty_bytes(bytes);
    let g = grouped(bytes);
    assert forall|i: int| 0 <= i < p.len() implies is_digit(#[trigger] p[i]) || p[i] == comma() by {
        if g[0] == comma() {
            assert(p[i] == g[i + 1]);
        }
    }
    assert forall|i: int| 0 <= i < p.len() implies #[trigger] p[i] < 128 by {
        assert(is_digit(p[i]) || p[i] == comma());
    }
}

proof fn lemma_without_commas_append(a: Seq<u8>, b: Seq<u8>)
    ensures
        without_commas(a + b) == without_commas(a) + without_commas(b),
    decreases a.len(),
{
    if a.len() == 0 {
        assert(a + b =~= b);
    } else {
        assert((a + b).drop_first() =~= a.drop_first() + b);
        lemma_without_commas_append(a.drop_first(), b);
        assert(without_commas(a + b) =~= without_commas(a) + without_commas(b));
    }
}

proof fn lemma_grouped_without_commas(bytes: Seq<u8>)
    ensures
        without_commas(grouped(bytes)) == digits_of(bytes),
    decreases bytes.len(),
{
    if bytes.len() > 0 {
        let rest = bytes.drop_first();
        lemma_grouped_without_commas(rest);
        let p = digit_piece(bytes[0], bytes.len());
        lemma_without_commas_append(p, grouped(rest));
        if is_digit(bytes[0]) {
            reveal_with_fuel(without_commas, 3);
            if bytes.len() % 3 == 0 {
                assert(p.drop_first() =~= seq![bytes[0]]);
                assert(seq![bytes[0]].drop_first() =~= Seq::<u8>::empty());
                assert(without_commas(p) =~= seq![bytes[0]]);
            } else {
                assert(seq![bytes[0]].drop_first() =~= Seq::<u8>::empty());
                assert(without_commas(p) =~= seq![bytes[0]]);
            }
        } else {
            assert(without_commas(p) =~= Seq::<u8>::empty());
        }
        assert(without_commas(grouped(bytes)) =~= digits_of(bytes));
    }
}

/// Grouping neither loses, adds nor reorders digits: removing the commas from the
/// grouped text gives back exactly the digits of the input, in order.
pub proof fn lemma_pretty_keeps_digits(bytes: Seq<u8>)
    ensures
        without_commas(pretty_bytes(bytes)) == digits_of(bytes),
{
    lemma_grouped_without_commas(bytes);
    let g = grouped(bytes);
    if g.len() > 0 && g[0] == comma() {
        assert(g == seq![comma()] + g.drop_first());
        lemma_without_commas_append(seq![comma()], g.drop_first());
        assert(seq![comma()].drop_first() =~= Seq::<u8>::empty());
        assert(without_commas(seq![comma()]) =~= Seq::<u8>::empty());
        assert(without_commas(g) =~= without_commas(g.drop_first()));
    }
}

/// Every byte is a decimal digit.
pub open spec fn all_digits(bytes: Seq<u8>) -> bool {
    forall|i: int| 0 <= i < bytes.len() ==> is_digit(#[trigger] bytes[i])
}

proof fn lemma_grouped_len_of_digits(bytes: Seq<u8>)
    requires
        all_digits(bytes),
    ensures
        grouped(bytes).len() == bytes.len() + bytes.len() / 3,
        bytes.len() > 0 ==> (grouped(bytes)[0] == comma() <==> bytes.len() % 3 == 0),
    decreases bytes.len(),
{
    if bytes.len() > 0 {
        let rest = bytes.drop_first();
        assert(is_digit(bytes[0]));
        assert forall|i: int| 0 <= i < rest.len() implies is_digit(#[trigger] rest[i]) by {
            assert(rest[i] == bytes[i + 1]);
        }
        lemma_grouped_len_of_digits(rest);
    }
}

/// A text of `n >= 1` digits and nothing else gets exactly one comma per complete
/// group of three below the leading group: its grouped form is `n + (n - 1) / 3`
/// bytes long.
pub proof fn lemma_pretty_len_of_digits(bytes: Seq<u8>)
    requires
        bytes.len() > 0,
        all_digits(bytes),
    ensures
        pretty_bytes(bytes).len() == bytes.len() + (bytes.len() - 1) / 3,
{
    lemma_grouped_len_of_digits(bytes);
}

proof fn lemma_grouped_comma_places(bytes: Seq<u8>)
    requires
        all_digits(bytes),
    ensures
        forall|p: int|
            0 <= p < grouped(bytes).len() ==> (#[trigger] grouped(bytes)[p] == comma() <==> (
            grouped(bytes).len() - p) % 4 == 0),
    decreases bytes.len(),
{
    if bytes.len() > 0 {
        let rest = bytes.drop_first();
        assert forall|i: int| 0 <= i < rest.len() implies is_digit(#[trigger] rest[i]) by {
            assert(rest[i] == bytes[i + 1]);
        }
        lemma_grouped_comma_places(rest);
        lemma_grouped_len_of_digits(bytes);
        lemma_grouped_len_of_digits(rest);
        let g = grouped(bytes);
        let h = grouped(rest);
        let piece = digit_piece(bytes[0], bytes.len());
        assert(g == piece + h);
        assert(is_digit(bytes[0]));
        assert forall|p: int| 0 <= p < g.len() implies (#[trigger] g[p] == comma() <==> (g.len()
            - p) % 4 == 0) by {
            if p >= piece.len() {
                assert(g[p] == h[p - piece.len()]);
            }
        }
    }
}

/// Digit strings are grouped in threes from the right: in the grouped form of a text of
/// digits, a comma stands exactly at every fourth place counted from the end, so every
/// comma is followed by exactly three digits and the text begins with one to three
/// digits.
pub proof fn lemma_pretty_comma_places(bytes: Seq<u8>)
    requires
        all_digits(bytes),
    ensures
        forall|p: int|
            0 <= p < pretty_bytes(bytes).len() ==> (#[trigger] pretty_bytes(bytes)[p] == comma()
                <==> (pretty_bytes(bytes).len() - p) % 4 == 0),
{
    lemma_grouped_comma_places(bytes);
    let g = grouped(bytes);
    let out = pretty_bytes(bytes);
    if g.len() > 0 && g[0] == comma() {
        assert forall|p: int| 0 <= p < out.len() implies (#[trigger] out[p] == comma() <==> (
        out.len() - p) % 4 == 0) by {
            assert(out[p] == g[p + 1]);
        }
    }
}

/// Groups the digits of `bytes` in threes, counting positions from the end.
pub fn group_digits(bytes: &[u8]) -> (r: Vec<u8>)
    requires
        has_digit(bytes@),
    ensures
        r@ == pretty_bytes(bytes@),
{
    let n = bytes.len();
    let mut out: Vec<u8> = Vec::new();
    let mut k: usize = n;
    assert(bytes@.skip(n as int) =~= Seq::<u8>::empty());
    while k > 0
        invariant
            k <= n,
            n == bytes@.len(),
            out@ == grouped(bytes@.skip(k as int)),
        decreases k,
    {
        let b = bytes[k - 1];
        let pos = n - k + 1;
        let ghost before = out@;
        if is_digit_byte(b) {
            out.insert(0, b);
            if pos % 3 == 0 {
                out.insert(0, 44u8);
            }
        }
        proof {
            let s = bytes@.skip(k - 1);
            assert(s.drop_first() =~= bytes@.skip(k as int));
            assert(s[0] == b);
            assert(s.len() == pos);
            assert(grouped(s) == digit_piece(b, pos as nat) + before);
            assert(out@ =~= digit_piece(b, pos as nat) + before);
        }
        k = k - 1;
    }
    assert(bytes@.skip(0) =~= bytes@);
    proof {
        lemma_grouped_shape(bytes@);
    }
    if out[0] == 44u8 {
        out.remove(0);
        assert(out@ =~= grouped(bytes@).drop_first());
    }
    out
}

/// Whether `b` is an ASCII digit.
pub fn is_digit_byte(b: u8) -> (r: bool)
    ensures
        r == is_digit(b),
{
    48 <= b && b <= 57
}

impl PrettiableNumber for String {
    open spec fn text_bytes(&self) -> Seq<u8> {
        encode_utf8(self@)
    }

    fn pretty(&self) -> (r: String) {
        let grouped_bytes = group_digits(self.as_str().as_bytes());
        proof {
            lemma_pretty_shape(self.text_bytes());
        }
        ascii_to_string(&grouped_bytes)
    }
}

} // verus!
