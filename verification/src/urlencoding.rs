//! Percent-encoding.

use vstd::prelude::*;
use vstd::utf8::encode_utf8;

use crate::http::is_header_value;

verus! {

/// Whether a byte stands for itself: an ASCII letter, a digit, or one of `-_.~`.
pub open spec fn is_unreserved(byte: u8) -> bool {
    ||| 48 <= byte <= 57
    ||| 65 <= byte <= 90
    ||| 97 <= byte <= 122
    ||| byte == 45
    ||| byte == 95
    ||| byte == 46
    ||| byte == 126
}

/// A hexadecimal digit.
pub open spec fn hex_digit(n: int) -> char {
    if n < 10 {
        (48 + n) as char
    } else {
        (55 + n) as char
    }
}

/// What a byte becomes: itself, or a percent sign and its value in hexadecimal.
pub open spec fn encoded_byte(byte: u8) -> Seq<char> {
    if is_unreserved(byte) {
        seq![byte as char]
    } else {
        seq!['%', hex_digit(byte as int / 16), hex_digit(byte as int % 16)]
    }
}

/// What bytes become, one after the other.
pub open spec fn encoded_bytes(bytes: Seq<u8>) -> Seq<char>
    decreases bytes.len(),
{
    if bytes.len() == 0 {
        Seq::empty()
    } else {
        encoded_bytes(bytes.drop_last()) + encoded_byte(bytes.last())
    }
}

fn hex_char(n: u8) -> (c: char)
    requires
        n < 16,
    ensures
        c == hex_digit(n as int),
{
    if n < 10 {
        (48 + n) as char
    } else {
        (55 + n) as char
    }
}

/// Percent-encode the UTF-8 bytes of a text.
pub fn encode(s: &str) -> (out: String)
    ensures
        out@ == encoded_bytes(encode_utf8(s@)),
{
    let bytes = s.as_bytes();
    let ghost all = bytes@;
    let mut out = String::new();
    let mut i: usize = 0;
    assert(out@ =~= Seq::empty());
    while i < bytes.len()
        invariant
            i <= bytes@.len(),
            all == bytes@,
            out@ == encoded_bytes(all.take(i as int)),
        decreases bytes@.len() - i,
    {
        assert(all.take(i + 1).drop_last() =~= all.take(i as int));
        let ghost before = out@;
        let b: u8 = bytes[i];
        let unreserved = (48 <= b && b <= 57) || (65 <= b && b <= 90) || (97 <= b && b <= 122) || b == 45 || b == 95
            || b == 46 || b == 126;
        if unreserved {
            out.push(b as char);
        } else {
            out.push('%');
            out.push(hex_char(b / 16));
            out.push(hex_char(b % 16));
        }
        assert(out@ =~= before + encoded_byte(b));
        i += 1;
    }
    assert(all.take(i as int) =~= all);
    out
}

/// An encoded text can be the value of a header.
pub proof fn law_encoded_is_header_value(bytes: Seq<u8>)
    ensures
        is_header_value(encoded_bytes(bytes)),
    decreases bytes.len(),
{
    if bytes.len() > 0 {
        law_encoded_is_header_value(bytes.drop_last());
        let before = encoded_bytes(bytes.drop_last());
        let all = encoded_bytes(bytes);
        assert forall|i: int| 0 <= i < all.len() implies (#[trigger] all[i]) as u32 >= 32 && all[i] as u32 != 127
            || all[i] == '\t' by {
            if i < before.len() {
                assert(all[i] == before[i]);
            } else {
                assert(all[i] == encoded_byte(bytes.last())[i - before.len()]);
            }
        }
    }
}

/// Letters, digits and `-_.~` stand for themselves. Every other byte becomes a percent
/// sign and two upper-case hexadecimal digits from which its value can be read. Bytes
/// are encoded one after the other.
pub proof fn law_bytes_can_be_read_back(byte: u8, first: Seq<u8>)
    ensures
        ({
            let plain = 48 <= byte <= 57 || 65 <= byte <= 90 || 97 <= byte <= 122 || byte == 45 || byte == 95 || byte
                == 46 || byte == 126;
            let text = encoded_byte(byte);
            &&& plain ==> text == seq![byte as char]
            &&& !plain ==> {
                let high: int = if text[1] <= '9' { text[1] as int - 48 } else { text[1] as int - 55 };
                let low: int = if text[2] <= '9' { text[2] as int - 48 } else { text[2] as int - 55 };
                &&& text.len() == 3
                &&& text[0] == '%'
                &&& '0' <= text[1] <= '9' || 'A' <= text[1] <= 'F'
                &&& '0' <= text[2] <= '9' || 'A' <= text[2] <= 'F'
                &&& 16 * high + low == byte
            }
        }),
        encoded_bytes(Seq::empty()).len() == 0,
        encoded_bytes(first.push(byte)) == encoded_bytes(first) + encoded_byte(byte),
{
    assert(first.push(byte).drop_last() =~= first);
}

} // verus!
