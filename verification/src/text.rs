//! String operations, stated over the sequence of characters that a string holds.

use vstd::prelude::*;

verus! {

/// `String::push` appends one character.
pub assume_specification[ String::push ](s: &mut String, c: char)
    ensures
        final(s)@ == old(s)@.push(c),
;

/// Equality of string slices is equality of the characters they hold.
pub assume_specification[ <str as PartialEq>::eq ](a: &str, b: &str) -> (same: bool)
    ensures
        same == (a@ == b@),
;

/// Whether two string slices hold the same characters.
pub fn str_eq(a: &str, b: &str) -> (same: bool)
    ensures
        same == (a@ == b@),
{
    a.eq(b)
}

/// The characters of a string, as a vector.
pub fn chars_of(s: &str) -> (chars: Vec<char>)
    ensures
        chars@ == s@,
{
    let mut chars: Vec<char> = Vec::new();
    for c in it: s.chars()
        invariant
            chars@ == s@.take(it.index() as int),
            it.seq() == s@,
    {
        chars.push(c);
        assert(s@.take(it.index() + 1) =~= s@.take(it.index() as int).push(c));
    }
    assert(s@.take(s@.len() as int) =~= s@);
    chars
}

/// The string that holds the given characters from `from` up to `to`.
pub fn string_of(chars: &Vec<char>, from: usize, to: usize) -> (s: String)
    requires
        from <= to <= chars@.len(),
    ensures
        s@ == chars@.subrange(from as int, to as int),
{
    let mut s = String::new();
    let mut i: usize = from;
    while i < to
        invariant
            from <= i <= to <= chars@.len(),
            s@ == chars@.subrange(from as int, i as int),
        decreases to - i,
    {
        s.push(chars[i]);
        assert(chars@.subrange(from as int, i + 1) =~= chars@.subrange(from as int, i as int).push(chars@[i as int]));
        i += 1;
    }
    s
}

pub open spec fn is_ascii_alphanumeric(c: char) -> bool {
    ('a' <= c && c <= 'z') || ('A' <= c && c <= 'Z') || ('0' <= c && c <= '9')
}

pub fn ascii_alphanumeric(c: char) -> (r: bool)
    ensures
        r == is_ascii_alphanumeric(c),
{
    ('a' <= c && c <= 'z') || ('A' <= c && c <= 'Z') || ('0' <= c && c <= '9')
}

/// The decimal digit that stands for `d`.
pub open spec fn digit(d: nat) -> char {
    (48 + d) as char
}

/// The decimal digits of a number, most significant first.
pub open spec fn decimal(n: nat) -> Seq<char>
    decreases n,
{
    if n < 10 {
        seq![digit(n)]
    } else {
        decimal(n / 10).push(digit(n % 10))
    }
}

/// The decimal text of an integer: a minus sign before the digits of a negative one.
pub open spec fn decimal_int(n: int) -> Seq<char> {
    if n < 0 {
        seq!['-'] + decimal((-n) as nat)
    } else {
        decimal(n as nat)
    }
}

/// The digits of a number with zeros before them up to `width` characters.
pub open spec fn padded(n: nat, width: nat) -> Seq<char> {
    if decimal(n).len() >= width {
        decimal(n)
    } else {
        zeros((width - decimal(n).len()) as nat) + decimal(n)
    }
}

/// Different numbers have different decimal texts.
pub proof fn lemma_decimal_differs(a: nat, b: nat)
    requires
        a != b,
    ensures
        decimal(a) != decimal(b),
    decreases a + b,
{
    if a >= 10 && b >= 10 {
        if a / 10 != b / 10 {
            lemma_decimal_differs(a / 10, b / 10);
            assert(decimal(a).drop_last() =~= decimal(a / 10));
            assert(decimal(b).drop_last() =~= decimal(b / 10));
        } else {
            assert(decimal(a).last() == digit(a % 10));
            assert(decimal(b).last() == digit(b % 10));
        }
    } else if a >= 10 {
        lemma_decimal_nonempty(a / 10);
        assert(decimal(a).len() > 1);
    } else if b >= 10 {
        lemma_decimal_nonempty(b / 10);
        assert(decimal(b).len() > 1);
    } else {
        assert(decimal(a)[0] == digit(a));
        assert(decimal(b)[0] == digit(b));
    }
}

/// The digits of a number are digits.
pub proof fn lemma_decimal_digits(n: nat)
    ensures
        forall|i: int| 0 <= i < decimal(n).len() ==> '0' <= #[trigger] decimal(n)[i] <= '9',
    decreases n,
{
    if n >= 10 {
        lemma_decimal_digits(n / 10);
        let rest = decimal(n / 10);
        assert forall|i: int| 0 <= i < decimal(n).len() implies '0' <= #[trigger] decimal(n)[i] <= '9' by {
            if i < rest.len() {
                assert(decimal(n)[i] == rest[i]);
            } else {
                assert(decimal(n)[i] == digit(n % 10));
            }
        }
    }
}

proof fn lemma_decimal_nonempty(n: nat)
    ensures
        decimal(n).len() > 0,
{
}

/// A run of `n` zeros.
pub open spec fn zeros(n: nat) -> Seq<char> {
    Seq::new(n, |i: int| '0')
}

fn digit_char(d: u64) -> (c: char)
    requires
        d < 10,
    ensures
        c == digit(d as nat),
{
    ((48 + d) as u8) as char
}

/// The decimal text of an unsigned number.
pub fn decimal_of(n: u64) -> (s: String)
    ensures
        s@ == decimal(n as nat),
    decreases n,
{
    if n < 10 {
        let mut s = String::new();
        s.push(digit_char(n));
        assert(s@ =~= seq![digit(n as nat)]);
        s
    } else {
        let mut s = decimal_of(n / 10);
        s.push(digit_char(n % 10));
        s
    }
}

/// The decimal text of a signed number.
pub fn decimal_of_signed(n: i64) -> (s: String)
    ensures
        s@ == decimal_int(n as int),
{
    if n < 0 {
        let mut s = String::new();
        s.push('-');
        assert(s@ =~= seq!['-']);
        let magnitude: u64 = if n == i64::MIN {
            9223372036854775808u64
        } else {
            (-n) as u64
        };
        s.append(decimal_of(magnitude).as_str());
        s
    } else {
        decimal_of(n as u64)
    }
}

/// The decimal text of a number, with zeros before it up to `width` characters.
pub fn padded_of(n: u64, width: usize) -> (s: String)
    ensures
        s@ == padded(n as nat, width as nat),
{
    let digits = decimal_of(n);
    let len: usize = digits.as_str().unicode_len();
    if len >= width {
        return digits;
    }
    let mut s = String::new();
    let mut i: usize = 0;
    while i < width - len
        invariant
            len < width,
            i <= width - len,
            s@ == zeros(i as nat),
        decreases width - len - i,
    {
        s.push('0');
        assert(s@ =~= zeros((i + 1) as nat));
        i += 1;
    }
    s.append(digits.as_str());
    s
}

/// Two texts one after the other.
pub fn cat2(a: &str, b: &str) -> (s: String)
    ensures
        s@ == a@ + b@,
{
    let mut s = a.to_owned();
    s.append(b);
    s
}

/// Three texts one after the other.
pub fn cat3(a: &str, b: &str, c: &str) -> (s: String)
    ensures
        s@ == a@ + b@ + c@,
{
    let mut s = cat2(a, b);
    s.append(c);
    s
}

/// Four texts one after the other.
pub fn cat4(a: &str, b: &str, c: &str, d: &str) -> (s: String)
    ensures
        s@ == a@ + b@ + c@ + d@,
{
    let mut s = cat3(a, b, c);
    s.append(d);
    s
}

/// Five texts one after the other.
pub fn cat5(a: &str, b: &str, c: &str, d: &str, e: &str) -> (s: String)
    ensures
        s@ == a@ + b@ + c@ + d@ + e@,
{
    let mut s = cat4(a, b, c, d);
    s.append(e);
    s
}

/// The parts one after the other.
pub open spec fn concatenated(parts: Seq<Seq<char>>) -> Seq<char>
    decreases parts.len(),
{
    if parts.len() == 0 {
        Seq::empty()
    } else {
        concatenated(parts.drop_last()) + parts.last()
    }
}

/// The parts one after the other, with `sep` between each two.
pub open spec fn joined(parts: Seq<Seq<char>>, sep: Seq<char>) -> Seq<char>
    decreases parts.len(),
{
    if parts.len() == 0 {
        Seq::empty()
    } else if parts.len() == 1 {
        parts[0]
    } else {
        joined(parts.drop_last(), sep) + sep + parts.last()
    }
}

/// Append the next part of a joined text: a separator first unless it is the first part.
pub(crate) fn push_joined(out: &mut String, first: bool, sep: &str, part: &str, Ghost(parts): Ghost<Seq<Seq<char>>>)
    requires
        old(out)@ == joined(parts, sep@),
        first == (parts.len() == 0),
    ensures
        final(out)@ == joined(parts.push(part@), sep@),
{
    assert(parts.push(part@).drop_last() =~= parts);
    if !first {
        out.append(sep);
    }
    out.append(part);
    assert(Seq::<char>::empty() + part@ =~= part@);
}

/// The parts joined with `sep` between each two.
pub fn join(parts: &Vec<String>, sep: &str) -> (s: String)
    ensures
        s@ == joined(parts.deep_view(), sep@),
{
    let mut s = String::new();
    let mut i: usize = 0;
    while i < parts.len()
        invariant
            i <= parts@.len(),
            s@ == joined(parts.deep_view().take(i as int), sep@),
        decreases parts@.len() - i,
    {
        let ghost done = parts.deep_view().take(i as int);
        push_joined(&mut s, i == 0, sep, parts[i].as_str(), Ghost(done));
        assert(parts.deep_view().take(i + 1) =~= done.push(parts[i as int]@));
        i += 1;
    }
    assert(parts.deep_view().take(i as int) =~= parts.deep_view());
    s
}

/// Whether `needle` stands in `hay` at position `at`.
pub open spec fn stands_at(hay: Seq<char>, needle: Seq<char>, at: int) -> bool {
    &&& 0 <= at
    &&& at + needle.len() <= hay.len()
    &&& hay.subrange(at, at + needle.len()) == needle
}

/// Whether `needle` occurs in `hay`.
pub open spec fn contains_text(hay: Seq<char>, needle: Seq<char>) -> bool {
    exists|at: int| stands_at(hay, needle, at)
}

/// A text stands exactly where it is between what comes before it and what comes after
/// it, and is contained in what it stands in.
pub proof fn law_text_stands_between(hay: Seq<char>, before: Seq<char>, needle: Seq<char>, after: Seq<char>, at: int)
    ensures
        stands_at(before + needle + after, needle, before.len() as int),
        contains_text(before + needle + after, needle),
        stands_at(hay, needle, at) ==> {
            &&& 0 <= at <= hay.len() - needle.len()
            &&& hay == hay.take(at) + needle + hay.skip(at + needle.len())
        },
        contains_text(hay, needle) ==> exists|i: int|
            0 <= i <= hay.len() - needle.len() && hay == hay.take(i) + needle + #[trigger] hay.skip(i + needle.len()),
{
    let whole = before + needle + after;
    let n = before.len() as int;
    assert(whole.subrange(n, n + needle.len()) =~= needle);
    assert(stands_at(whole, needle, n));
    if stands_at(hay, needle, at) {
        assert(hay =~= hay.take(at) + hay.subrange(at, at + needle.len()) + hay.skip(at + needle.len()));
    }
    if contains_text(hay, needle) {
        let i = choose|i: int| stands_at(hay, needle, i);
        assert(hay =~= hay.take(i) + hay.subrange(i, i + needle.len()) + hay.skip(i + needle.len()));
    }
}

/// Whether `needle` stands in `hay` at position `at`.
pub fn stands(hay: &Vec<char>, needle: &Vec<char>, at: usize) -> (found: bool)
    requires
        at <= hay@.len(),
    ensures
        found == stands_at(hay@, needle@, at as int),
{
    if needle.len() > hay.len() - at {
        return false;
    }
    let mut i: usize = 0;
    while i < needle.len()
        invariant
            i <= needle@.len(),
            at + needle@.len() <= hay.len(),
            hay@.subrange(at as int, at + i) == needle@.take(i as int),
        decreases needle@.len() - i,
    {
        if hay[at + i] != needle[i] {
            assert(hay@.subrange(at as int, at + needle@.len())[i as int] != needle@[i as int]);
            return false;
        }
        assert(hay@.subrange(at as int, at + i + 1) =~= hay@.subrange(at as int, at + i).push(needle@[i as int]));
        assert(needle@.take(i + 1) =~= needle@.take(i as int).push(needle@[i as int]));
        i += 1;
    }
    assert(needle@.take(i as int) =~= needle@);
    true
}

/// Whether `needle` occurs in `hay`.
pub fn contains(hay: &str, needle: &str) -> (found: bool)
    ensures
        found == contains_text(hay@, needle@),
{
    let h = chars_of(hay);
    let n = chars_of(needle);
    let mut at: usize = 0;
    while at < h.len()
        invariant
            at <= h@.len(),
            h@ == hay@,
            n@ == needle@,
            forall|k: int| 0 <= k < at ==> !stands_at(hay@, needle@, k),
        decreases h@.len() - at,
    {
        if stands(&h, &n, at) {
            return true;
        }
        at += 1;
    }
    stands(&h, &n, at)
}

/// The first position from `at` on at which `needle` stands in `hay`.
pub open spec fn find_from(hay: Seq<char>, needle: Seq<char>, at: int) -> Option<int>
    decreases hay.len() + 1 - at,
{
    if at < 0 || at + needle.len() > hay.len() {
        None
    } else if stands_at(hay, needle, at) {
        Some(at)
    } else {
        find_from(hay, needle, at + 1)
    }
}

/// The first position from `at` on at which `needle` stands in `hay`.
pub fn find(hay: &Vec<char>, needle: &Vec<char>, from: usize) -> (found: Option<usize>)
    requires
        from <= hay@.len(),
    ensures
        match found {
            Some(i) => find_from(hay@, needle@, from as int) == Some(i as int) && i + needle@.len() <= hay@.len(),
            None => find_from(hay@, needle@, from as int) is None,
        },
{
    let mut at: usize = from;
    while at < hay.len()
        invariant
            from <= at <= hay@.len(),
            find_from(hay@, needle@, from as int) == find_from(hay@, needle@, at as int),
        decreases hay@.len() - at,
    {
        if needle.len() > hay.len() - at {
            return None;
        }
        if stands(hay, needle, at) {
            return Some(at);
        }
        at += 1;
    }
    if stands(hay, needle, at) {
        assert(find_from(hay@, needle@, at as int) == Some(at as int));
        Some(at)
    } else {
        assert(find_from(hay@, needle@, at as int) is None) by {
            reveal_with_fuel(find_from, 2);
        }
        None
    }
}

/// The first position of a character.
pub open spec fn char_index(s: Seq<char>, c: char) -> Option<int>
    decreases s.len(),
{
    if s.len() == 0 {
        None
    } else {
        match char_index(s.drop_last(), c) {
            Some(i) => Some(i),
            None => if s.last() == c {
                Some(s.len() - 1)
            } else {
                None
            },
        }
    }
}

/// A character found among the first ones is the one found among all.
proof fn lemma_char_index(s: Seq<char>, c: char, n: int)
    requires
        0 <= n <= s.len(),
        char_index(s.take(n), c) is Some,
    ensures
        char_index(s, c) == char_index(s.take(n), c),
    decreases s.len() - n,
{
    if n < s.len() {
        assert(s.take(n + 1).drop_last() =~= s.take(n));
        lemma_char_index(s, c, n + 1);
    } else {
        assert(s.take(n) =~= s);
    }
}

/// The first position of a character.
pub fn find_char(chars: &Vec<char>, c: char) -> (found: Option<usize>)
    ensures
        match found {
            Some(i) => char_index(chars@, c) == Some(i as int) && i < chars@.len(),
            None => char_index(chars@, c) is None,
        },
{
    let mut i: usize = 0;
    while i < chars.len()
        invariant
            i <= chars@.len(),
            char_index(chars@.take(i as int), c) is None,
        decreases chars@.len() - i,
    {
        assert(chars@.take(i + 1).drop_last() =~= chars@.take(i as int));
        if chars[i] == c {
            proof {
                lemma_char_index(chars@, c, i + 1);
            }
            return Some(i);
        }
        i += 1;
    }
    assert(chars@.take(i as int) =~= chars@);
    None
}

/// The pieces of a text between the occurrences of `c`: one more than there are occurrences.
pub open spec fn split_on(s: Seq<char>, c: char) -> Seq<Seq<char>>
    decreases s.len(),
{
    if s.len() == 0 {
        seq![Seq::empty()]
    } else {
        let parts = split_on(s.drop_last(), c);
        if s.last() == c {
            parts.push(Seq::empty())
        } else {
            parts.drop_last().push(parts.last().push(s.last()))
        }
    }
}

/// There is at least one piece.
pub proof fn lemma_split_nonempty(s: Seq<char>, c: char)
    ensures
        split_on(s, c).len() > 0,
    decreases s.len(),
{
    if s.len() > 0 {
        lemma_split_nonempty(s.drop_last(), c);
    }
}

/// The pieces of a text between the occurrences of `c`.
pub fn split(s: &str, c: char) -> (parts: Vec<String>)
    ensures
        parts.deep_view() == split_on(s@, c),
{
    let chars = chars_of(s);
    let mut parts: Vec<String> = Vec::new();
    let mut piece = String::new();
    let mut i: usize = 0;
    assert(parts.deep_view().push(piece@) =~= split_on(s@.take(0), c));
    while i < chars.len()
        invariant
            i <= chars@.len(),
            chars@ == s@,
            parts.deep_view().push(piece@) == split_on(s@.take(i as int), c),
        decreases chars@.len() - i,
    {
        assert(s@.take(i + 1).drop_last() =~= s@.take(i as int));
        let ghost before = parts.deep_view();
        let ghost old_piece = piece@;
        assert(before.push(old_piece).drop_last() =~= before);
        if chars[i] == c {
            parts.push(piece);
            piece = String::new();
            assert(parts.deep_view() =~= before.push(old_piece));
        } else {
            piece.push(chars[i]);
        }
        i += 1;
    }
    assert(s@.take(i as int) =~= s@);
    let ghost before = parts.deep_view();
    let ghost old_piece = piece@;
    parts.push(piece);
    assert(parts.deep_view() =~= before.push(old_piece));
    parts
}

/// A text without the run of `c` at its end.
pub open spec fn trim_end(s: Seq<char>, c: char) -> Seq<char>
    decreases s.len(),
{
    if s.len() > 0 && s.last() == c {
        trim_end(s.drop_last(), c)
    } else {
        s
    }
}

/// A text without the run of `c` at its start.
pub open spec fn trim_start(s: Seq<char>, c: char) -> Seq<char>
    decreases s.len(),
{
    if s.len() > 0 && s[0] == c {
        trim_start(s.skip(1), c)
    } else {
        s
    }
}

/// The text without the run of `c` at its end.
pub fn trim_end_of(s: &str, c: char) -> (trimmed: String)
    ensures
        trimmed@ == trim_end(s@, c),
{
    let chars = chars_of(s);
    let mut n: usize = chars.len();
    assert(s@.take(n as int) =~= s@);
    while n > 0 && chars[n - 1] == c
        invariant
            n <= chars@.len(),
            chars@ == s@,
            trim_end(s@, c) == trim_end(s@.take(n as int), c),
        decreases n,
    {
        assert(s@.take(n as int).drop_last() =~= s@.take(n - 1));
        n -= 1;
    }
    assert(s@.subrange(0, n as int) =~= s@.take(n as int));
    string_of(&chars, 0, n)
}

/// The text without the run of `c` at its start.
pub fn trim_start_of(s: &str, c: char) -> (trimmed: String)
    ensures
        trimmed@ == trim_start(s@, c),
{
    let chars = chars_of(s);
    let mut n: usize = 0;
    assert(s@.skip(0) =~= s@);
    while n < chars.len() && chars[n] == c
        invariant
            n <= chars@.len(),
            chars@ == s@,
            trim_start(s@, c) == trim_start(s@.skip(n as int), c),
        decreases chars@.len() - n,
    {
        assert(s@.skip(n as int).skip(1) =~= s@.skip(n + 1));
        n += 1;
    }
    assert(s@.subrange(n as int, s@.len() as int) =~= s@.skip(n as int));
    string_of(&chars, n, chars.len())
}

/// The characters with the Unicode property White_Space.
pub open spec fn is_whitespace(c: char) -> bool {
    ||| 0x9 <= c as u32 <= 0xd
    ||| c as u32 == 0x20
    ||| c as u32 == 0x85
    ||| c as u32 == 0xa0
    ||| c as u32 == 0x1680
    ||| 0x2000 <= c as u32 <= 0x200a
    ||| c as u32 == 0x2028
    ||| c as u32 == 0x2029
    ||| c as u32 == 0x202f
    ||| c as u32 == 0x205f
    ||| c as u32 == 0x3000
}

/// Whether a character has the Unicode property White_Space.
pub fn whitespace(c: char) -> (r: bool)
    ensures
        r == is_whitespace(c),
{
    let n: u32 = c as u32;
    (0x9 <= n && n <= 0xd) || n == 0x20 || n == 0x85 || n == 0xa0 || n == 0x1680 || (0x2000 <= n && n <= 0x200a) || n
        == 0x2028 || n == 0x2029 || n == 0x202f || n == 0x205f || n == 0x3000
}

/// A text without the white space at its start.
pub open spec fn trim_left(s: Seq<char>) -> Seq<char>
    decreases s.len(),
{
    if s.len() > 0 && is_whitespace(s[0]) {
        trim_left(s.skip(1))
    } else {
        s
    }
}

/// A text without the white space at its end.
pub open spec fn trim_right(s: Seq<char>) -> Seq<char>
    decreases s.len(),
{
    if s.len() > 0 && is_whitespace(s.last()) {
        trim_right(s.drop_last())
    } else {
        s
    }
}

/// A text without the white space at its two ends.
pub open spec fn trimmed(s: Seq<char>) -> Seq<char> {
    trim_right(trim_left(s))
}

/// The text without the white space at its two ends.
pub fn trim(s: &str) -> (out: String)
    ensures
        out@ == trimmed(s@),
{
    let chars = chars_of(s);
    let mut from: usize = 0;
    assert(s@.skip(0) =~= s@);
    while from < chars.len() && whitespace(chars[from])
        invariant
            from <= chars@.len(),
            chars@ == s@,
            trim_left(s@) == trim_left(s@.skip(from as int)),
        decreases chars@.len() - from,
    {
        assert(s@.skip(from as int).skip(1) =~= s@.skip(from + 1));
        from += 1;
    }
    let ghost left = s@.skip(from as int);
    assert(trim_left(s@) == left);
    let mut to: usize = chars.len();
    assert(s@.subrange(from as int, to as int) =~= left);
    while to > from && whitespace(chars[to - 1])
        invariant
            from <= to <= chars@.len(),
            chars@ == s@,
            trim_right(left) == trim_right(s@.subrange(from as int, to as int)),
        decreases to,
    {
        assert(s@.subrange(from as int, to as int).drop_last() =~= s@.subrange(from as int, to - 1));
        to -= 1;
    }
    string_of(&chars, from, to)
}

/// What `str::to_lowercase` returns.
pub uninterp spec fn lowercase(s: Seq<char>) -> Seq<char>;

/// `str::to_lowercase` maps a text to lower case by the Unicode tables. The
/// result depends on the text alone and is named [`lowercase`].
#[verifier::external_body]
pub(crate) fn to_lowercase(s: &str) -> (lower: String)
    ensures
        lower@ == lowercase(s@),
{
    s.to_lowercase()
}

// ---------------------------------------------------------------------------
// Laws of texts
// ---------------------------------------------------------------------------

/// A number is written digit by digit: one below ten by its digit, and one with more
/// digits by those of its tens and then the digit of its ones. A negative one has a
/// minus sign before it.
pub proof fn law_decimal_digits(tens: nat, ones: nat)
    requires
        ones < 10,
    ensures
        decimal(ones) == seq![(48 + ones) as char],
        tens > 0 ==> decimal(10 * tens + ones) == decimal(tens).push((48 + ones) as char),
        tens > 0 ==> decimal_int(-(tens as int)) == seq!['-'] + decimal(tens),
        decimal_int(tens as int) == decimal(tens),
{
    let n: nat = 10 * tens + ones;
    assert(n / 10 == tens && n % 10 == ones);
}

/// A padded number is the number with nothing but zeros before it, and it has the width
/// that it is padded to, unless the number alone is longer.
pub proof fn law_padding_adds_zeros(n: nat, width: nat)
    ensures
        ({
            let text = padded(n, width);
            let digits = decimal(n);
            &&& text.len() == if digits.len() >= width { digits.len() } else { width }
            &&& text.skip(text.len() - digits.len()) == digits
            &&& forall|i: int| 0 <= i < text.len() - digits.len() ==> #[trigger] text[i] == '0'
        }),
{
    let text = padded(n, width);
    assert(text.skip(text.len() - decimal(n).len()) =~= decimal(n));
}

/// Joined parts stand one after the other with the separator between each two: nothing
/// is made of no part, one part is itself, and each further one comes after a separator.
pub proof fn law_joined_parts(parts: Seq<Seq<char>>, part: Seq<char>, sep: Seq<char>)
    ensures
        joined(Seq::empty(), sep).len() == 0,
        joined(seq![part], sep) == part,
        parts.len() > 0 ==> joined(parts.push(part), sep) == joined(parts, sep) + sep + part,
        concatenated(Seq::empty()).len() == 0,
        concatenated(parts.push(part)) == concatenated(parts) + part,
{
    assert(parts.push(part).drop_last() =~= parts);
}

/// Splitting keeps the whole text: the pieces joined with the character give the text
/// again, and no piece holds the character.
pub proof fn law_split_pieces(s: Seq<char>, c: char)
    ensures
        split_on(s, c).len() > 0,
        joined(split_on(s, c), seq![c]) == s,
        forall|i: int, k: int|
            0 <= i < split_on(s, c).len() && 0 <= k < split_on(s, c)[i].len() ==> #[trigger] split_on(s, c)[i][k] != c,
    decreases s.len(),
{
    let parts = split_on(s, c);
    if s.len() == 0 {
        assert(joined(parts, seq![c]) =~= s);
    } else {
        let rest = s.drop_last();
        let before = split_on(rest, c);
        law_split_pieces(rest, c);
        if s.last() == c {
            law_joined_parts(before, Seq::empty(), seq![c]);
            assert(rest + seq![c] + Seq::<char>::empty() =~= s);
            assert forall|i: int, k: int| 0 <= i < parts.len() && 0 <= k < parts[i].len() implies #[trigger] parts[i][k]
                != c by {
                if i < before.len() {
                    assert(before[i][k] != c);
                }
            }
        } else {
            let head = before.drop_last();
            let last = before.last().push(s.last());
            assert(parts == head.push(last));
            law_joined_parts(head, last, seq![c]);
            law_joined_parts(head, before.last(), seq![c]);
            assert(head.push(before.last()) =~= before);
            if head.len() == 0 {
                assert(head =~= Seq::empty());
                assert(parts =~= seq![last]);
                assert(before =~= seq![before.last()]);
            }
            assert(joined(parts, seq![c]) =~= rest.push(s.last()));
            assert(rest.push(s.last()) =~= s);
            assert forall|i: int, k: int| 0 <= i < parts.len() && 0 <= k < parts[i].len() implies #[trigger] parts[i][k]
                != c by {
                if i < head.len() {
                    assert(before[i][k] != c);
                } else if k < before.last().len() {
                    assert(before[before.len() - 1][k] != c);
                }
            }
        }
    }
}

/// A search finds the first place from where it starts: the text stands there, at no
/// place between, and if none is found at no place at all.
pub proof fn law_search_finds_the_first(hay: Seq<char>, needle: Seq<char>, from: int)
    requires
        from >= 0,
    ensures
        match find_from(hay, needle, from) {
            Some(at) => {
                &&& from <= at
                &&& at + needle.len() <= hay.len()
                &&& hay.subrange(at, at + needle.len()) == needle
                &&& forall|k: int| from <= k < at ==> !#[trigger] stands_at(hay, needle, k)
            },
            None => forall|k: int| from <= k ==> !#[trigger] stands_at(hay, needle, k),
        },
        contains_text(hay, needle) <==> find_from(hay, needle, 0) is Some,
    decreases hay.len() + 1 - from,
{
    if from + needle.len() <= hay.len() && !stands_at(hay, needle, from) {
        law_search_finds_the_first(hay, needle, from + 1);
    }
    lemma_search_from_start(hay, needle, 0);
}

proof fn lemma_search_from_start(hay: Seq<char>, needle: Seq<char>, from: int)
    requires
        from >= 0,
    ensures
        match find_from(hay, needle, from) {
            Some(at) => stands_at(hay, needle, at),
            None => forall|k: int| from <= k ==> !#[trigger] stands_at(hay, needle, k),
        },
    decreases hay.len() + 1 - from,
{
    if from + needle.len() <= hay.len() && !stands_at(hay, needle, from) {
        lemma_search_from_start(hay, needle, from + 1);
    }
}

/// The place of a character is the first one at which it stands.
pub proof fn law_char_index_is_the_first(s: Seq<char>, c: char)
    ensures
        match char_index(s, c) {
            Some(i) => 0 <= i < s.len() && s[i] == c && forall|k: int| 0 <= k < i ==> #[trigger] s[k] != c,
            None => forall|k: int| 0 <= k < s.len() ==> #[trigger] s[k] != c,
        },
    decreases s.len(),
{
    if s.len() > 0 {
        law_char_index_is_the_first(s.drop_last(), c);
        assert forall|k: int| 0 <= k < s.len() - 1 implies #[trigger] s[k] == s.drop_last()[k] by {}
    }
}

/// Trimming takes away all of a character at an end and nothing else.
pub proof fn law_trimming_takes_the_ends(s: Seq<char>, c: char)
    ensures
        trim_end(s, c).len() <= s.len(),
        trim_end(s, c) == s.take(trim_end(s, c).len() as int),
        trim_end(s, c).len() > 0 ==> trim_end(s, c).last() != c,
        forall|i: int| trim_end(s, c).len() <= i < s.len() ==> #[trigger] s[i] == c,
        trim_start(s, c).len() <= s.len(),
        trim_start(s, c) == s.skip(s.len() - trim_start(s, c).len()),
        trim_start(s, c).len() > 0 ==> trim_start(s, c)[0] != c,
        forall|i: int| 0 <= i < s.len() - trim_start(s, c).len() ==> #[trigger] s[i] == c,
    decreases s.len(),
{
    if s.len() > 0 {
        law_trimming_takes_the_ends(s.drop_last(), c);
        law_trimming_takes_the_ends(s.skip(1), c);
        if s.last() == c {
            assert(trim_end(s, c) =~= s.take(trim_end(s, c).len() as int));
            assert forall|i: int| trim_end(s, c).len() <= i < s.len() implies #[trigger] s[i] == c by {
                if i < s.len() - 1 {
                    assert(s.drop_last()[i] == c);
                }
            }
        }
        if s[0] == c {
            assert(trim_start(s, c) =~= s.skip(s.len() - trim_start(s, c).len()));
            assert forall|i: int| 0 <= i < s.len() - trim_start(s, c).len() implies #[trigger] s[i] == c by {
                if i > 0 {
                    assert(s.skip(1)[i - 1] == c);
                }
            }
        }
    }
    assert(s.take(s.len() as int) =~= s);
    assert(s.skip(0) =~= s);
}

proof fn lemma_trim_left(s: Seq<char>)
    ensures
        trim_left(s).len() <= s.len(),
        trim_left(s) == s.skip(s.len() - trim_left(s).len()),
        trim_left(s).len() > 0 ==> !is_whitespace(trim_left(s)[0]),
        forall|i: int| 0 <= i < s.len() - trim_left(s).len() ==> is_whitespace(#[trigger] s[i]),
    decreases s.len(),
{
    assert(s.skip(0) =~= s);
    if s.len() > 0 && is_whitespace(s[0]) {
        lemma_trim_left(s.skip(1));
        assert(trim_left(s) =~= s.skip(s.len() - trim_left(s).len()));
        assert forall|i: int| 0 <= i < s.len() - trim_left(s).len() implies is_whitespace(#[trigger] s[i]) by {
            if i > 0 {
                assert(is_whitespace(s.skip(1)[i - 1]));
            }
        }
    }
}

proof fn lemma_trim_right(s: Seq<char>)
    ensures
        trim_right(s).len() <= s.len(),
        trim_right(s) == s.take(trim_right(s).len() as int),
        trim_right(s).len() > 0 ==> !is_whitespace(trim_right(s).last()),
        forall|i: int| trim_right(s).len() <= i < s.len() ==> is_whitespace(#[trigger] s[i]),
    decreases s.len(),
{
    assert(s.take(s.len() as int) =~= s);
    if s.len() > 0 && is_whitespace(s.last()) {
        lemma_trim_right(s.drop_last());
        assert(trim_right(s) =~= s.take(trim_right(s).len() as int));
        assert forall|i: int| trim_right(s).len() <= i < s.len() implies is_whitespace(#[trigger] s[i]) by {
            if i < s.len() - 1 {
                assert(is_whitespace(s.drop_last()[i]));
            }
        }
    }
}

/// Trimming white space takes it away at both ends and nothing else: what is left is a
/// part of the text, has no white space at its ends, and only white space stands before
/// and after it.
pub proof fn law_trimmed_text(s: Seq<char>)
    ensures
        exists|from: int, to: int|
            {
                &&& 0 <= from <= to <= s.len()
                &&& trimmed(s) == #[trigger] s.subrange(from, to)
                &&& forall|i: int| 0 <= i < from || to <= i < s.len() ==> is_whitespace(#[trigger] s[i])
            },
        trimmed(s).len() > 0 ==> !is_whitespace(trimmed(s)[0]) && !is_whitespace(trimmed(s).last()),
{
    let left = trim_left(s);
    lemma_trim_left(s);
    lemma_trim_right(left);
    let from = s.len() - left.len();
    let to = from + trimmed(s).len();
    assert(trimmed(s) =~= s.subrange(from, to));
    assert forall|i: int| 0 <= i < from || to <= i < s.len() implies is_whitespace(#[trigger] s[i]) by {
        if i >= to {
            assert(is_whitespace(left[i - from]));
        }
    }
    if trimmed(s).len() > 0 {
        assert(trimmed(s)[0] == left[0]);
    }
}

/// Blanks, tabs and the ends of lines are white space; what can be seen is not, and
/// letters and digits are what their name says.
pub proof fn law_kinds_of_characters(c: char)
    ensures
        is_whitespace(' ') && is_whitespace('\t') && is_whitespace('\n') && is_whitespace('\r'),
        33 <= c as u32 <= 126 ==> !is_whitespace(c),
        is_ascii_alphanumeric(c) <==> 'a' <= c <= 'z' || 'A' <= c <= 'Z' || '0' <= c <= '9',
{
}

} // verus!
