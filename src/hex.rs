//! Lowercase hexadecimal rendering of digests.

use vstd::prelude::*;

verus! {

/// The lowercase hexadecimal digit of a value below sixteen.
pub open spec fn hex_digit(n: u8) -> char
    recommends
        n < 16,
{
    seq!['0', '1', '2', '3', '4', '5', '6', '7', '8', '9', 'a', 'b', 'c', 'd', 'e', 'f'][n as int]
}

/// Whether a character is one of the sixteen lowercase hexadecimal digits.
pub open spec fn is_lower_hex_char(c: char) -> bool {
    ('0' <= c && c <= '9') || ('a' <= c && c <= 'f')
}

/// Two digits per byte, high nibble first, in byte order.
pub open spec fn hex_digits(bytes: Seq<u8>) -> Seq<char>
    decreases bytes.len(),
{
    if bytes.len() == 0 {
        Seq::empty()
    } else {
        hex_digits(bytes.drop_last()) + seq![
            hex_digit(bytes.last() / 16),
            hex_digit(bytes.last() % 16),
        ]
    }
}

/// The textual form of a digest: the marker `0x` followed by its hex digits.
pub open spec fn prefixed_hex(bytes: Seq<u8>) -> Seq<char> {
    seq!['0', 'x'] + hex_digits(bytes)
}

/// The shape of a commitment: `0x` and exactly sixty-four lowercase hex digits.
pub open spec fn is_commitment_format(s: Seq<char>) -> bool {
    &&& s.len() == 66
    &&& s[0] == '0'
    &&& s[1] == 'x'
    &&& forall|i: int| 2 <= i < s.len() ==> is_lower_hex_char(#[trigger] s[i])
}

/// The hex digits of a byte string are twice as many as its bytes, and each
/// is a lowercase hex digit.
pub proof fn lemma_hex_digits_shape(bytes: Seq<u8>)
    ensures
        hex_digits(bytes).len() == 2 * bytes.len(),
        forall|i: int|
            0 <= i < hex_digits(bytes).len() ==> is_lower_hex_char(#[trigger] hex_digits(bytes)[i]),
    decreases bytes.len(),
{
    if bytes.len() > 0 {
        lemma_hex_digits_shape(bytes.drop_last());
        let hi = bytes.last() / 16;
        let lo = bytes.last() % 16;
        assert(is_lower_hex_char(hex_digit(hi)));
        assert(is_lower_hex_char(hex_digit(lo)));
        let prev = hex_digits(bytes.drop_last());
        let tail = seq![hex_digit(hi), hex_digit(lo)];
        assert forall|i: int| 0 <= i < hex_digits(bytes).len() implies is_lower_hex_char(
            #[trigger] hex_digits(bytes)[i],
        ) by {
            if i < prev.len() {
                assert(hex_digits(bytes)[i] == prev[i]);
            } else {
                assert(hex_digits(bytes)[i] == tail[i - prev.len()]);
            }
        }
    }
}

/// Any 32-byte digest renders in the commitment format.
pub proof fn lemma_prefixed_hex_format(bytes: Seq<u8>)
    requires
        bytes.len() == 32,
    ensures
        is_commitment_format(prefixed_hex(bytes)),
{
    lemma_hex_digits_shape(bytes);
    let s = prefixed_hex(bytes);
    assert forall|i: int| 2 <= i < s.len() implies is_lower_hex_char(#[trigger] s[i]) by {
        assert(s[i] == hex_digits(bytes)[i - 2]);
    }
}

/// The one-character string holding the hex digit of `n`.
fn hex_digit_str(n: u8) -> (r: &'static str)
    requires
        n < 16,
    ensures
        r@ == seq![hex_digit(n)],
{
    let digits = "0123456789abcdef";
    proof {
        reveal_strlit("0123456789abcdef");
        assert(digits@ =~= seq![
            '0', '1', '2', '3', '4', '5', '6', '7', '8', '9', 'a', 'b', 'c', 'd', 'e', 'f',
        ]);
        assert(digits.is_ascii());
    }
    let r = digits.substring_ascii(n as usize, n as usize + 1);
    assert(r@ =~= seq![hex_digit(n)]);
    r
}

/// Renders a digest as `0x` followed by two lowercase hex digits per byte,
/// in byte order.
pub fn encode_commitment(digest: &Vec<u8>) -> (r: String)
    ensures
        r@ == prefixed_hex(digest@),
{
    let mut out = String::new();
    out.append("0x");
    proof {
        reveal_strlit("0x");
        assert(out@ =~= seq!['0', 'x']);
        assert(hex_digits(digest@.subrange(0, 0)) =~= Seq::<char>::empty());
    }
    let mut i: usize = 0;
    while i < digest.len()
        invariant
            i <= digest@.len(),
            out@ == seq!['0', 'x'] + hex_digits(digest@.subrange(0, i as int)),
        decreases digest@.len() - i,
    {
        let b = digest[i];
        out.append(hex_digit_str(b / 16));
        out.append(hex_digit_str(b % 16));
        proof {
            let next = digest@.subrange(0, i + 1);
            assert(next.drop_last() =~= digest@.subrange(0, i as int));
            assert(next.last() == b);
            assert(out@ =~= seq!['0', 'x'] + hex_digits(next));
        }
        i = i + 1;
    }
    assert(digest@.subrange(0, digest@.len() as int) =~= digest@);
    out
}

} // verus!
