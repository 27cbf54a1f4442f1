//! Base64.

use vstd::prelude::*;

use base64::engine::general_purpose::STANDARD;
use base64::Engine;

verus! {

/// The character of the Base64 alphabet that stands for six bits.
pub open spec fn base64_char(n: int) -> char {
    if n < 26 {
        (65 + n) as char
    } else if n < 52 {
        (97 + (n - 26)) as char
    } else if n < 62 {
        (48 + (n - 52)) as char
    } else if n == 62 {
        '+'
    } else {
        '/'
    }
}

/// Bytes in Base64: four characters for every three bytes, with `=` in place of
/// what the last bytes do not fill.
pub open spec fn base64_text(bytes: Seq<u8>) -> Seq<char>
    decreases bytes.len(),
{
    if bytes.len() == 0 {
        Seq::empty()
    } else if bytes.len() == 1 {
        seq![base64_char(bytes[0] as int / 4), base64_char((bytes[0] % 4) * 16), '=', '=']
    } else if bytes.len() == 2 {
        seq![
            base64_char(bytes[0] as int / 4),
            base64_char((bytes[0] % 4) * 16 + bytes[1] as int / 16),
            base64_char((bytes[1] % 16) * 4),
            '=',
        ]
    } else {
        seq![
            base64_char(bytes[0] as int / 4),
            base64_char((bytes[0] % 4) * 16 + bytes[1] as int / 16),
            base64_char((bytes[1] % 16) * 4 + bytes[2] as int / 64),
            base64_char((bytes[2] % 64) as int),
        ] + base64_text(bytes.skip(3))
    }
}

/// `Engine::encode` of the standard engine of `base64`: the standard alphabet, with padding.
#[verifier::external_body]
pub(crate) fn base64_encode(bytes: &Vec<u8>) -> (text: String)
    ensures
        text@ == base64_text(bytes@),
{
    STANDARD.encode(bytes)
}

/// What `Engine::decode` of the standard engine of `base64` makes of a text: the
/// bytes, or the message of the error.
pub uninterp spec fn base64_bytes(text: Seq<char>) -> Result<Seq<u8>, Seq<char>>;

/// `Engine::decode` of the standard engine of `base64`. Which texts are accepted
/// and how an error reads is named by [`base64_bytes`]; a text that is the Base64
/// of bytes gives those bytes.
#[verifier::external_body]
pub(crate) fn base64_decode(text: &str) -> (result: Result<Vec<u8>, String>)
    ensures
        match result {
            Ok(bytes) => base64_bytes(text@) == Ok::<Seq<u8>, Seq<char>>(bytes@) && base64_text(bytes@) == text@,
            Err(message) => base64_bytes(text@) == Err::<Seq<u8>, Seq<char>>(message@) && forall|bytes: Seq<u8>|
                base64_text(bytes) != text@,
        },
{
    STANDARD.decode(text).map_err(|e| e.to_string())
}

/// The Base64 alphabet is the capital letters, the small ones, the digits, plus and slash.
pub proof fn law_base64_alphabet(n: int)
    requires
        0 <= n < 64,
    ensures
        base64_char(n) == "ABCDEFGHIJKLMNOPQRSTUVWXYZabcdefghijklmnopqrstuvwxyz0123456789+/"@[n],
{
    reveal_strlit("ABCDEFGHIJKLMNOPQRSTUVWXYZabcdefghijklmnopqrstuvwxyz0123456789+/");
}

proof fn lemma_group_digits(a: int, b: int, c: int)
    requires
        0 <= a < 256,
        0 <= b < 256,
        0 <= c < 256,
    ensures
        (a * 65536 + b * 256 + c) / 262144 == a / 4,
        (a * 65536 + b * 256 + c) / 4096 % 64 == (a % 4) * 16 + b / 16,
        (a * 65536 + b * 256 + c) / 64 % 64 == (b % 16) * 4 + c / 64,
        (a * 65536 + b * 256 + c) % 64 == c % 64,
{
    let n = a * 65536 + b * 256 + c;
    assert(n / 4096 == a * 16 + b / 16);
    assert(n / 64 == a * 1024 + b * 4 + c / 64);
}

/// Three bytes are one number of 24 bits, and four characters give its digits to the base
/// of 64, the highest first. Bytes that are missing at the end count as zero, and `=`
/// stands in place of the characters that hold nothing of the others.
pub proof fn law_base64_groups(a: u8, b: u8, c: u8, rest: Seq<u8>)
    ensures
        base64_text(Seq::empty()).len() == 0,
        ({
            let n = a * 65536 + b * 256 + c;
            let text = base64_text(seq![a, b, c] + rest);
            &&& text.len() == 4 + base64_text(rest).len()
            &&& text.skip(4) == base64_text(rest)
            &&& text[0] == base64_char(n / 262144)
            &&& text[1] == base64_char(n / 4096 % 64)
            &&& text[2] == base64_char(n / 64 % 64)
            &&& text[3] == base64_char(n % 64)
        }),
        base64_text(seq![a, b]) == base64_text(seq![a, b, 0]).update(3, '='),
        base64_text(seq![a]) == base64_text(seq![a, 0, 0]).update(3, '=').update(2, '='),
{
    lemma_group_digits(a as int, b as int, c as int);
    lemma_group_digits(a as int, b as int, 0);
    lemma_group_digits(a as int, 0, 0);
    let bytes = seq![a, b, c] + rest;
    assert(bytes.skip(3) =~= rest);
    assert(base64_text(bytes).skip(4) =~= base64_text(rest));
    let two: Seq<u8> = seq![a, b, 0];
    let one: Seq<u8> = seq![a, 0, 0];
    assert(two.skip(3) =~= Seq::empty());
    assert(one.skip(3) =~= Seq::empty());
    assert(base64_text(Seq::empty()) =~= Seq::empty());
    assert(base64_text(seq![a, b]) =~= base64_text(two).update(3, '='));
    assert(base64_text(seq![a]) =~= base64_text(one).update(3, '=').update(2, '='));
}

} // verus!
