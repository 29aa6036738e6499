//! Percent-encoding of keys and values.

use vstd::prelude::*;
use vstd::utf8::encode_utf8;

verus! {

broadcast use vstd::seq_lib::group_seq_properties;

/// The bytes that percent-encoding leaves as they are: the ASCII digits and
/// letters, `-`, `.`, `_` and `~`.
pub open spec fn is_unreserved(byte: u8) -> bool {
    ||| 0x30 <= byte <= 0x39
    ||| 0x41 <= byte <= 0x5a
    ||| 0x61 <= byte <= 0x7a
    ||| byte == 0x2d
    ||| byte == 0x2e
    ||| byte == 0x5f
    ||| byte == 0x7e
}

/// The upper-case hexadecimal digit for a value below sixteen.
pub open spec fn hex_digit(nibble: u8) -> char
    recommends
        nibble < 16,
{
    if nibble < 10 {
        (0x30 + nibble) as u8 as char
    } else {
        (0x37 + nibble) as u8 as char
    }
}

/// What one byte becomes: itself when it is unreserved, otherwise `%` and its
/// two hexadecimal digits.
pub open spec fn encoded_byte(byte: u8) -> Seq<char> {
    if is_unreserved(byte) {
        seq![byte as char]
    } else {
        seq!['%', hex_digit(byte / 16), hex_digit(byte % 16)]
    }
}

/// The encodings of the bytes, one after the other.
pub open spec fn encoded_bytes(bytes: Seq<u8>) -> Seq<char>
    decreases bytes.len(),
{
    if bytes.len() == 0 {
        Seq::empty()
    } else {
        encoded_bytes(bytes.drop_last()) + encoded_byte(bytes.last())
    }
}

/// The percent-encoding of a text: that of its UTF-8 bytes.
pub open spec fn percent_encoded(text: Seq<char>) -> Seq<char> {
    encoded_bytes(encode_utf8(text))
}

/// A pair with its key and its value percent-encoded, each on its own.
pub open spec fn encoded_pair(pair: (Seq<char>, Seq<char>)) -> (Seq<char>, Seq<char>) {
    (percent_encoded(pair.0), percent_encoded(pair.1))
}

/// The pairs, each one encoded, in the same order.
pub open spec fn encoded_pairs(pairs: Seq<(Seq<char>, Seq<char>)>) -> Seq<(Seq<char>, Seq<char>)> {
    pairs.map_values(|pair: (Seq<char>, Seq<char>)| encoded_pair(pair))
}

/// Calls `urlencoding::encode`. That function walks the UTF-8 bytes of its
/// argument, copies each ASCII digit, ASCII letter, `-`, `.`, `_` and `~`, and
/// writes every other byte as `%` followed by its two upper-case hexadecimal
/// digits; the contract says exactly this. It never panics.
#[verifier::external_body]
fn percent_encode(text: &str) -> (encoded: String)
    ensures
        encoded@ == percent_encoded(text@),
{
    urlencoding::encode(text).into_owned()
}

/// Percent-encodes the key and the value of every pair. The result has as
/// many pairs as the argument, in the same order.
pub fn encode_pairs(pairs: &Vec<(String, String)>) -> (encoded: Vec<(String, String)>)
    ensures
        encoded.deep_view() == encoded_pairs(pairs.deep_view()),
{
    let ghost plain = pairs.deep_view();
    let mut encoded: Vec<(String, String)> = Vec::new();
    let mut i: usize = 0;
    while i < pairs.len()
        invariant
            i <= pairs.len(),
            plain == pairs.deep_view(),
            encoded.len() == i,
            forall|j: int|
                0 <= j < i ==> (#[trigger] encoded[j]).deep_view() == encoded_pair(plain[j]),
        decreases pairs.len() - i,
    {
        let key = percent_encode(pairs[i].0.as_str());
        let value = percent_encode(pairs[i].1.as_str());
        encoded.push((key, value));
        i += 1;
    }
    encoded
}

} // verus!
