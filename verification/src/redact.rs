//! Redaction of credentials from text that may reach a log or an error message.

use vstd::prelude::*;
use vstd::arithmetic::power::pow;
use vstd::utf8::{encode_scalar, encode_utf8, is_ascii_chars_encode_utf8};

use crate::text::{chars_of, decimal, decimal_of, digit, stands, stands_at, string_of};

verus! {

/// Maximum number of bytes of an error body that enter an error message.
pub const MAX_ERROR_BODY_LEN: usize = 2048;

/// The number of bytes that a character takes in UTF-8.
pub open spec fn char_width(c: char) -> nat {
    encode_scalar(c as u32).len()
}

/// The number of bytes that a text takes in UTF-8.
pub open spec fn utf8_len(s: Seq<char>) -> nat {
    encode_utf8(s).len()
}

/// The encoding of a text that ends in one more character is longer by that character.
pub proof fn lemma_utf8_len_push(s: Seq<char>, c: char)
    ensures
        utf8_len(s.push(c)) == utf8_len(s) + char_width(c),
    decreases s.len(),
{
    if s.len() == 0 {
        reveal_with_fuel(encode_utf8, 2);
        assert(s.push(c).drop_first() =~= Seq::<char>::empty());
    } else {
        assert(s.push(c).drop_first() =~= s.drop_first().push(c));
        lemma_utf8_len_push(s.drop_first(), c);
    }
}

/// A longer prefix takes no fewer bytes.
proof fn lemma_utf8_len_monotone(s: Seq<char>, i: int, j: int)
    requires
        0 <= i <= j <= s.len(),
    ensures
        utf8_len(s.take(i)) <= utf8_len(s.take(j)),
    decreases j - i,
{
    if i < j {
        lemma_utf8_len_monotone(s, i, j - 1);
        assert(s.take(j) =~= s.take(j - 1).push(s[j - 1]));
        lemma_utf8_len_push(s.take(j - 1), s[j - 1]);
    }
}

/// The number of bytes of one character: one to four.
pub fn char_width_of(c: char) -> (n: usize)
    ensures
        n == char_width(c),
        1 <= n <= 4,
{
    let code: u32 = c as u32;
    if code <= 0x7f {
        1
    } else if code <= 0x7ff {
        2
    } else if code <= 0xffff {
        3
    } else {
        4
    }
}

/// The number of bytes that a string takes.
pub fn byte_len(s: &str) -> (n: usize)
    ensures
        n == utf8_len(s@),
{
    s.as_bytes().len()
}

/// The number of characters in the longest prefix of at most `max` bytes.
pub open spec fn fitting_chars(s: Seq<char>, max: nat) -> nat
    decreases s.len(),
{
    if utf8_len(s) <= max || s.len() == 0 {
        s.len()
    } else {
        fitting_chars(s.drop_last(), max)
    }
}

/// The text cut to at most `max` bytes at a character boundary, with a note on
/// how many bytes are missing.
pub open spec fn truncated(s: Seq<char>, max: nat) -> Seq<char> {
    if utf8_len(s) <= max {
        s
    } else {
        let kept = s.take(fitting_chars(s, max) as int);
        kept + "... [truncated "@ + decimal((utf8_len(s) - utf8_len(kept)) as nat) + " bytes]"@
    }
}

/// The longest fitting prefix is a prefix, fits, and no longer one fits.
pub proof fn lemma_fitting_chars(s: Seq<char>, max: nat)
    ensures
        fitting_chars(s, max) <= s.len(),
        utf8_len(s.take(fitting_chars(s, max) as int)) <= max,
        forall|k: int| fitting_chars(s, max) < k <= s.len() ==> utf8_len(#[trigger] s.take(k)) > max,
    decreases s.len(),
{
    if utf8_len(s) <= max || s.len() == 0 {
        assert(s.take(s.len() as int) =~= s);
    } else {
        let rest = s.drop_last();
        lemma_fitting_chars(rest, max);
        assert(s.take(fitting_chars(s, max) as int) =~= rest.take(fitting_chars(rest, max) as int));
        assert forall|k: int| fitting_chars(s, max) < k <= s.len() implies utf8_len(#[trigger] s.take(k)) > max by {
            if k == s.len() {
                assert(s.take(k) =~= s);
            } else {
                assert(s.take(k) =~= rest.take(k));
            }
        }
    }
}

/// Trim a text to at most `max` bytes without splitting a character.
pub fn truncate_to_bytes(s: &str, max: usize) -> (out: String)
    ensures
        out@ == truncated(s@, max as nat),
{
    let total: usize = byte_len(s);
    if total <= max {
        return s.to_owned();
    }
    let chars = chars_of(s);
    let mut n: usize = 0;
    let mut used: usize = 0;
    assert(s@.take(0) =~= Seq::<char>::empty());
    while n < chars.len() && char_width_of(chars[n]) <= max - used
        invariant
            n <= chars@.len(),
            chars@ == s@,
            used == utf8_len(s@.take(n as int)),
            used <= max < total,
            total == utf8_len(s@),
        decreases chars@.len() - n,
    {
        proof {
            lemma_utf8_len_push(s@.take(n as int), s@[n as int]);
            assert(s@.take(n + 1) =~= s@.take(n as int).push(s@[n as int]));
        }
        used += char_width_of(chars[n]);
        n += 1;
    }
    proof {
        assert(s@.take(s@.len() as int) =~= s@);
        lemma_fitting_chars(s@, max as nat);
        if n < s@.len() {
            lemma_utf8_len_push(s@.take(n as int), s@[n as int]);
            assert(s@.take(n + 1) =~= s@.take(n as int).push(s@[n as int]));
            let k = fitting_chars(s@, max as nat) as int;
            if k > n {
                lemma_utf8_len_monotone(s@, n + 1, k);
            }
        }
        assert(s@.subrange(0, n as int) =~= s@.take(n as int));
    }
    let mut out = string_of(&chars, 0, n);
    out.append("... [truncated ");
    out.append(decimal_of((total - used) as u64).as_str());
    out.append(" bytes]");
    out
}

/// Prefixes of well-known credentials.
pub open spec fn secret_prefixes() -> Seq<Seq<char>> {
    seq!["Bearer "@, "bearer "@, "sk-"@, "sk_"@, "xoxb-"@, "xoxp-"@, "ghp_"@, "ghs_"@, "AKIA"@]
}

/// The first prefix of a list that a text starts with.
pub open spec fn leading_prefix(s: Seq<char>, prefixes: Seq<Seq<char>>) -> Option<Seq<char>>
    decreases prefixes.len(),
{
    if prefixes.len() == 0 {
        None
    } else if stands_at(s, prefixes[0], 0) {
        Some(prefixes[0])
    } else {
        leading_prefix(s, prefixes.skip(1))
    }
}

/// The characters that end a token: ASCII white space, quotes, comma and the closing brackets.
pub open spec fn ends_token(c: char) -> bool {
    ||| c == ' '
    ||| c == '\t'
    ||| c == '\n'
    ||| c as u32 == 0xc
    ||| c == '\r'
    ||| c == '"'
    ||| c == '\''
    ||| c == ','
    ||| c == '}'
    ||| c == ')'
}

/// The number of characters up to the end of the token that a text starts with.
pub open spec fn token_len(s: Seq<char>) -> nat
    decreases s.len(),
{
    if s.len() == 0 || ends_token(s[0]) {
        0
    } else {
        1 + token_len(s.skip(1))
    }
}

/// A text in which each token that follows a secret prefix is replaced.
pub open spec fn scrubbed(s: Seq<char>) -> Seq<char>
    decreases s.len(),
{
    if s.len() == 0 {
        Seq::empty()
    } else {
        match leading_prefix(s, secret_prefixes()) {
            Some(prefix) => if 0 < prefix.len() <= s.len() {
                let n = token_len(s.skip(prefix.len() as int));
                proof {
                    lemma_token_len(s.skip(prefix.len() as int));
                }
                prefix + (if n > 0 {
                    "[REDACTED]"@
                } else {
                    Seq::empty()
                }) + scrubbed(s.skip((prefix.len() + n) as int))
            } else {
                s
            },
            None => seq![s[0]] + scrubbed(s.skip(1)),
        }
    }
}

/// A token is no longer than the text.
pub proof fn lemma_token_len(s: Seq<char>)
    ensures
        token_len(s) <= s.len(),
    decreases s.len(),
{
    if s.len() > 0 && !ends_token(s[0]) {
        lemma_token_len(s.skip(1));
    }
}

/// The leading prefix is one of the list and stands at the start.
proof fn lemma_leading_prefix(s: Seq<char>, prefixes: Seq<Seq<char>>)
    ensures
        match leading_prefix(s, prefixes) {
            Some(prefix) => stands_at(s, prefix, 0) && prefixes.contains(prefix),
            None => forall|p: Seq<char>| prefixes.contains(p) ==> !stands_at(s, p, 0),
        },
    decreases prefixes.len(),
{
    if prefixes.len() > 0 && !stands_at(s, prefixes[0], 0) {
        lemma_leading_prefix(s, prefixes.skip(1));
        assert forall|p: Seq<char>| prefixes.contains(p) implies p == prefixes[0] || prefixes.skip(1).contains(p) by {
            let i = prefixes.index_of(p);
            if i > 0 {
                assert(prefixes.skip(1)[i - 1] == p);
            }
        }
        match leading_prefix(s, prefixes) {
            Some(prefix) => {
                let i = prefixes.skip(1).index_of(prefix);
                assert(prefixes[i + 1] == prefix);
            },
            None => {},
        }
    }
}

/// No secret prefix is empty, starts with a character that ends a token, or holds a bracket.
proof fn lemma_secret_prefixes(p: Seq<char>)
    requires
        secret_prefixes().contains(p),
    ensures
        p.len() > 0,
        !ends_token(p[0]),
        forall|i: int| 0 <= i < p.len() ==> p[i] != '[',
{
    reveal_strlit("Bearer ");
    reveal_strlit("bearer ");
    reveal_strlit("sk-");
    reveal_strlit("sk_");
    reveal_strlit("xoxb-");
    reveal_strlit("xoxp-");
    reveal_strlit("ghp_");
    reveal_strlit("ghs_");
    reveal_strlit("AKIA");
    let i = secret_prefixes().index_of(p);
    assert(secret_prefixes()[i] == p);
}

/// Whether a character ends a token.
pub fn token_ends(c: char) -> (r: bool)
    ensures
        r == ends_token(c),
{
    c == ' ' || c == '\t' || c == '\n' || c as u32 == 0xc || c == '\r' || c == '"' || c == '\'' || c == ',' || c == '}'
        || c == ')'
}

/// The secret prefixes, character by character.
fn prefix_table() -> (table: Vec<Vec<char>>)
    ensures
        table.deep_view() == secret_prefixes(),
{
    let mut table: Vec<Vec<char>> = Vec::new();
    table.push(chars_of("Bearer "));
    table.push(chars_of("bearer "));
    table.push(chars_of("sk-"));
    table.push(chars_of("sk_"));
    table.push(chars_of("xoxb-"));
    table.push(chars_of("xoxp-"));
    table.push(chars_of("ghp_"));
    table.push(chars_of("ghs_"));
    table.push(chars_of("AKIA"));
    assert forall|i: int| 0 <= i < 9 implies table@[i].deep_view() == secret_prefixes()[i] by {
        assert(table@[i].deep_view() =~= table@[i]@);
    }
    assert(table.deep_view() =~= secret_prefixes());
    table
}

/// The entry of the table that stands at position `at`, `table.len()` if none does.
fn find_prefix(chars: &Vec<char>, at: usize, table: &Vec<Vec<char>>) -> (found: usize)
    requires
        at <= chars@.len(),
    ensures
        found <= table@.len(),
        match leading_prefix(chars@.skip(at as int), table.deep_view()) {
            Some(prefix) => found < table@.len() && table@[found as int]@ == prefix,
            None => found == table@.len(),
        },
{
    let mut k: usize = 0;
    let ghost rest = chars@.skip(at as int);
    assert(table.deep_view().skip(0) =~= table.deep_view());
    while k < table.len()
        invariant
            k <= table@.len(),
            at <= chars@.len(),
            rest == chars@.skip(at as int),
            leading_prefix(rest, table.deep_view()) == leading_prefix(rest, table.deep_view().skip(k as int)),
        decreases table@.len() - k,
    {
        let ghost p = table@[k as int]@;
        proof {
            assert(table.deep_view().skip(k as int)[0] =~= p);
            assert(table.deep_view().skip(k as int).skip(1) =~= table.deep_view().skip(k + 1));
            if at + p.len() <= chars@.len() {
                assert(chars@.subrange(at as int, at + p.len()) =~= rest.subrange(0, p.len() as int));
            }
        }
        if stands(chars, &table[k], at) {
            return k;
        }
        k += 1;
    }
    k
}

/// Replace every token that follows a secret prefix with `[REDACTED]`.
pub fn scrub_secrets(s: &str) -> (out: String)
    ensures
        out@ == scrubbed(s@),
{
    let chars = chars_of(s);
    let table = prefix_table();
    let mut out = String::new();
    let mut i: usize = 0;
    assert(s@.skip(0) =~= s@);
    assert(Seq::<char>::empty() + scrubbed(s@) =~= scrubbed(s@));
    while i < chars.len()
        invariant
            i <= chars@.len(),
            chars@ == s@,
            table.deep_view() == secret_prefixes(),
            out@ + scrubbed(s@.skip(i as int)) == scrubbed(s@),
        decreases chars@.len() - i,
    {
        let ghost rest = s@.skip(i as int);
        let ghost done = out@;
        let k: usize = find_prefix(&chars, i, &table);
        proof {
            lemma_leading_prefix(rest, secret_prefixes());
        }
        if k < table.len() {
            let prefix = &table[k];
            proof {
                lemma_secret_prefixes(prefix@);
            }
            let from: usize = i + prefix.len();
            let text = string_of(prefix, 0, prefix.len());
            assert(prefix@.subrange(0, prefix@.len() as int) =~= prefix@);
            out.append(text.as_str());
            let ghost tail = rest.skip(prefix@.len() as int);
            assert(tail =~= s@.skip(from as int));
            let mut j: usize = from;
            while j < chars.len() && !token_ends(chars[j])
                invariant
                    from <= j <= chars@.len(),
                    chars@ == s@,
                    tail == s@.skip(from as int),
                    token_len(tail) == (j - from) + token_len(s@.skip(j as int)),
                decreases chars@.len() - j,
            {
                assert(s@.skip(j as int).skip(1) =~= s@.skip(j + 1));
                j += 1;
            }
            if j > from {
                out.append("[REDACTED]");
            }
            proof {
                assert(rest.skip((prefix@.len() + token_len(tail)) as int) =~= s@.skip(j as int));
                let mark = if j > from {
                    "[REDACTED]"@
                } else {
                    Seq::<char>::empty()
                };
                assert(scrubbed(rest) == prefix@ + mark + scrubbed(s@.skip(j as int)));
                assert(out@ =~= done + prefix@ + mark);
                assert(out@ + scrubbed(s@.skip(j as int)) =~= done + scrubbed(rest));
            }
            i = j;
        } else {
            out.push(chars[i]);
            assert(rest.skip(1) =~= s@.skip(i + 1));
            assert(scrubbed(rest) == seq![rest[0]] + scrubbed(rest.skip(1)));
            assert(out@ + scrubbed(s@.skip(i + 1)) =~= done + scrubbed(rest));
            i += 1;
        }
    }
    assert(s@.skip(i as int) =~= Seq::<char>::empty());
    assert(out@ + Seq::<char>::empty() =~= out@);
    out
}

/// Trim an error body to [`MAX_ERROR_BODY_LEN`] bytes and replace every token
/// that follows a known secret prefix with `[REDACTED]`.
pub fn scrub_error_body(body: &str) -> (out: String)
    ensures
        out@ == scrubbed(truncated(body@, MAX_ERROR_BODY_LEN as nat)),
{
    let cut = truncate_to_bytes(body, MAX_ERROR_BODY_LEN);
    scrub_secrets(cut.as_str())
}

/// A text without brackets that the scrubbed text starts with, the text itself starts with.
proof fn lemma_scrubbed_start(s: Seq<char>, p: Seq<char>)
    requires
        stands_at(scrubbed(s), p, 0),
        forall|i: int| 0 <= i < p.len() ==> p[i] != '[',
    ensures
        stands_at(s, p, 0),
    decreases s.len(),
{
    let out = scrubbed(s);
    if s.len() == 0 || p.len() == 0 {
        assert(s.subrange(0, 0) =~= p);
    } else {
        lemma_leading_prefix(s, secret_prefixes());
        match leading_prefix(s, secret_prefixes()) {
            Some(q) => {
                lemma_secret_prefixes(q);
                let tail = s.skip(q.len() as int);
                lemma_token_len(tail);
                let n = token_len(tail);
                assert(s.subrange(0, q.len() as int) == q);
                if p.len() <= q.len() {
                    assert forall|i: int| 0 <= i < p.len() implies s[i] == p[i] by {
                        assert(out.subrange(0, p.len() as int)[i] == out[i]);
                        assert(q[i] == s.subrange(0, q.len() as int)[i]);
                    }
                    assert(s.subrange(0, p.len() as int) =~= p);
                } else if n > 0 {
                    reveal_strlit("[REDACTED]");
                    assert(out[q.len() as int] == '[');
                    assert(out.subrange(0, p.len() as int)[q.len() as int] == p[q.len() as int]);
                } else {
                    let more = p.skip(q.len() as int);
                    assert(q + Seq::<char>::empty() + scrubbed(tail.skip(0)) =~= q + scrubbed(tail)) by {
                        assert(tail.skip(0) =~= tail);
                    }
                    assert(s.skip((q.len() + n) as int) =~= tail);
                    assert(out =~= q + scrubbed(tail));
                    assert forall|i: int| 0 <= i < p.len() implies p[i] == out[i] by {
                        assert(out.subrange(0, p.len() as int)[i] == out[i]);
                    }
                    assert(scrubbed(tail).subrange(0, more.len() as int) =~= more);
                    lemma_scrubbed_start(tail, more);
                    assert forall|i: int| 0 <= i < p.len() implies s[i] == p[i] by {
                        if i < q.len() {
                            assert(q[i] == s.subrange(0, q.len() as int)[i]);
                        } else {
                            assert(tail.subrange(0, more.len() as int)[i - q.len()] == more[i - q.len()]);
                        }
                    }
                    assert(s.subrange(0, p.len() as int) =~= p);
                }
            },
            None => {
                let more = p.skip(1);
                assert(out == seq![s[0]] + scrubbed(s.skip(1)));
                assert forall|i: int| 0 <= i < p.len() implies p[i] == out[i] by {
                    assert(out.subrange(0, p.len() as int)[i] == out[i]);
                }
                assert(scrubbed(s.skip(1)).subrange(0, more.len() as int) =~= more);
                lemma_scrubbed_start(s.skip(1), more);
                assert forall|i: int| 0 <= i < p.len() implies s[i] == p[i] by {
                    if i > 0 {
                        assert(s.skip(1).subrange(0, more.len() as int)[i - 1] == more[i - 1]);
                    }
                }
                assert(s.subrange(0, p.len() as int) =~= p);
            },
        }
    }
}

/// A list of prefixes without brackets picks the same prefix in the scrubbed text.
proof fn lemma_scrubbed_prefix(s: Seq<char>, prefixes: Seq<Seq<char>>)
    requires
        forall|p: Seq<char>| #[trigger] prefixes.contains(p) ==> secret_prefixes().contains(p),
        s.len() > 0,
        match leading_prefix(s, secret_prefixes()) {
            Some(q) => stands_at(scrubbed(s), q, 0),
            None => true,
        },
        match leading_prefix(s, prefixes) {
            Some(q) => leading_prefix(s, secret_prefixes()) == Some(q),
            None => true,
        },
    ensures
        leading_prefix(scrubbed(s), prefixes) == leading_prefix(s, prefixes),
    decreases prefixes.len(),
{
    if prefixes.len() > 0 {
        let p = prefixes[0];
        assert(prefixes.contains(p));
        lemma_secret_prefixes(p);
        if stands_at(scrubbed(s), p, 0) {
            lemma_scrubbed_start(s, p);
        }
        if !stands_at(s, p, 0) {
            assert forall|r: Seq<char>| #[trigger] prefixes.skip(1).contains(r) implies secret_prefixes().contains(r) by {
                let i = prefixes.skip(1).index_of(r);
                assert(prefixes[i + 1] == r);
                assert(prefixes.contains(r));
            }
            lemma_scrubbed_prefix(s, prefixes.skip(1));
        }
    }
}

/// The token that follows a replaced secret ends where the replaced one ended.
proof fn lemma_redacted_token(rest: Seq<char>)
    requires
        rest.len() == 0 || ends_token(rest[0]),
    ensures
        token_len("[REDACTED]"@ + rest) == 10,
        ("[REDACTED]"@ + rest).skip(10) == rest,
{
    reveal_strlit("[REDACTED]");
    let t = "[REDACTED]"@ + rest;
    assert(t.skip(10) =~= rest);
    assert(token_len(t.skip(10)) == 0);
    assert forall|i: int| 0 <= i < 10 implies #[trigger] t.skip(i).skip(1) == t.skip(i + 1) by {
        assert(t.skip(i).skip(1) =~= t.skip(i + 1));
    }
    assert(token_len(t.skip(9)) == 1);
    assert(token_len(t.skip(8)) == 2);
    assert(token_len(t.skip(7)) == 3);
    assert(token_len(t.skip(6)) == 4);
    assert(token_len(t.skip(5)) == 5);
    assert(token_len(t.skip(4)) == 6);
    assert(token_len(t.skip(3)) == 7);
    assert(token_len(t.skip(2)) == 8);
    assert(token_len(t.skip(1)) == 9);
    assert(t.skip(0) =~= t);
}

/// The text after a token is empty or starts with the character that ended it.
proof fn lemma_after_token(s: Seq<char>)
    ensures
        token_len(s) <= s.len(),
        token_len(s) == s.len() || ends_token(s[token_len(s) as int]),
    decreases s.len(),
{
    if s.len() > 0 && !ends_token(s[0]) {
        lemma_after_token(s.skip(1));
    }
}

/// A text that is empty or starts with the end of a token keeps that start when it is scrubbed.
proof fn lemma_scrubbed_end(s: Seq<char>)
    requires
        s.len() == 0 || ends_token(s[0]),
    ensures
        s.len() == 0 ==> scrubbed(s).len() == 0,
        s.len() > 0 ==> scrubbed(s).len() > 0 && scrubbed(s)[0] == s[0],
{
    if s.len() > 0 {
        lemma_leading_prefix(s, secret_prefixes());
        match leading_prefix(s, secret_prefixes()) {
            Some(q) => {
                lemma_secret_prefixes(q);
                assert(s.subrange(0, q.len() as int)[0] == s[0]);
            },
            None => {},
        }
    }
}

/// Scrubbing a text that is scrubbed already changes nothing.
pub proof fn law_scrubbing_is_idempotent(s: Seq<char>)
    ensures
        scrubbed(scrubbed(s)) == scrubbed(s),
    decreases s.len(),
{
    if s.len() > 0 {
        let out = scrubbed(s);
        lemma_leading_prefix(s, secret_prefixes());
        match leading_prefix(s, secret_prefixes()) {
            Some(q) => {
                lemma_secret_prefixes(q);
                let tail = s.skip(q.len() as int);
                lemma_after_token(tail);
                let n = token_len(tail);
                let rest = tail.skip(n as int);
                assert(s.skip((q.len() + n) as int) =~= rest);
                law_scrubbing_is_idempotent(rest);
                assert(out.subrange(0, q.len() as int) =~= q);
                lemma_scrubbed_prefix(s, secret_prefixes());
                lemma_scrubbed_end(rest);
                if n > 0 {
                    assert(out.skip(q.len() as int) =~= "[REDACTED]"@ + scrubbed(rest));
                    lemma_redacted_token(scrubbed(rest));
                    reveal_strlit("[REDACTED]");
                    assert(out.skip((q.len() + 10) as int) =~= scrubbed(rest));
                } else {
                    assert(out.skip(q.len() as int) =~= scrubbed(rest));
                    assert(out.skip((q.len() + 0) as int) =~= scrubbed(rest));
                }
            },
            None => {
                law_scrubbing_is_idempotent(s.skip(1));
                lemma_scrubbed_prefix(s, secret_prefixes());
                assert(out.skip(1) =~= scrubbed(s.skip(1)));
            },
        }
    }
}

/// Two secret prefixes that one text starts with are the same.
proof fn lemma_prefixes_apart(t: Seq<char>, p: Seq<char>, q: Seq<char>)
    requires
        secret_prefixes().contains(p),
        secret_prefixes().contains(q),
        stands_at(t, p, 0),
        stands_at(t, q, 0),
    ensures
        p == q,
{
    reveal_strlit("Bearer ");
    reveal_strlit("bearer ");
    reveal_strlit("sk-");
    reveal_strlit("sk_");
    reveal_strlit("xoxb-");
    reveal_strlit("xoxp-");
    reveal_strlit("ghp_");
    reveal_strlit("ghs_");
    reveal_strlit("AKIA");
    let i = secret_prefixes().index_of(p);
    let j = secret_prefixes().index_of(q);
    assert(secret_prefixes()[i] == p && secret_prefixes()[j] == q);
    assert(t.subrange(0, p.len() as int)[0] == t[0] && t.subrange(0, q.len() as int)[0] == t[0]);
    assert(t.subrange(0, p.len() as int)[2] == t[2] && t.subrange(0, q.len() as int)[2] == t[2]);
    assert(p.len() > 3 && q.len() > 3 ==> p[3] == q[3]) by {
        if p.len() > 3 && q.len() > 3 {
            assert(t.subrange(0, p.len() as int)[3] == t[3] && t.subrange(0, q.len() as int)[3] == t[3]);
        }
    }
}

/// No secret prefix starts within another one, nor in the replacement.
proof fn lemma_prefix_within(q: Seq<char>, p: Seq<char>, i: int)
    requires
        secret_prefixes().contains(p),
        secret_prefixes().contains(q) || q == "[REDACTED]"@,
        0 <= i < q.len(),
        i > 0 || q == "[REDACTED]"@,
    ensures
        p.len() > 1,
        q[i] != p[0] || if i + 1 < q.len() {
            q[i + 1] != p[1]
        } else {
            !ends_token(p[1]) && p[1] != '['
        },
{
    reveal_strlit("Bearer ");
    reveal_strlit("bearer ");
    reveal_strlit("sk-");
    reveal_strlit("sk_");
    reveal_strlit("xoxb-");
    reveal_strlit("xoxp-");
    reveal_strlit("ghp_");
    reveal_strlit("ghs_");
    reveal_strlit("AKIA");
    reveal_strlit("[REDACTED]");
    let k = secret_prefixes().index_of(p);
    assert(secret_prefixes()[k] == p);
    if q != "[REDACTED]"@ {
        let j = secret_prefixes().index_of(q);
        assert(secret_prefixes()[j] == q);
    }
}

/// No credential is left: wherever a secret prefix stands in a scrubbed text, the
/// token that follows is empty or the replacement.
pub proof fn law_no_credential_is_left(s: Seq<char>, p: Seq<char>, i: int)
    requires
        secret_prefixes().contains(p),
        0 <= i,
        stands_at(scrubbed(s), p, i),
    ensures
        ({
            let after = scrubbed(s).skip(i + p.len());
            token_len(after) == 0 || after.take(token_len(after) as int) == "[REDACTED]"@
        }),
    decreases s.len(),
{
    let out = scrubbed(s);
    lemma_secret_prefixes(p);
    assert(out.subrange(i, i + p.len())[0] == out[i]);
    if s.len() > 0 {
        lemma_leading_prefix(s, secret_prefixes());
        match leading_prefix(s, secret_prefixes()) {
            Some(q) => {
                lemma_secret_prefixes(q);
                let tail = s.skip(q.len() as int);
                lemma_after_token(tail);
                let n = token_len(tail);
                let rest = tail.skip(n as int);
                assert(s.skip((q.len() + n) as int) =~= rest);
                lemma_scrubbed_end(rest);
                let put = if n > 0 {
                    "[REDACTED]"@
                } else {
                    Seq::empty()
                };
                reveal_strlit("[REDACTED]");
                assert(out == q + put + scrubbed(rest));
                let at = q.len() + put.len();
                if i >= at {
                    assert(scrubbed(rest).subrange(i - at, i - at + p.len()) =~= out.subrange(i, i + p.len()));
                    law_no_credential_is_left(rest, p, i - at);
                    assert(scrubbed(rest).skip(i - at + p.len()) =~= out.skip(i + p.len()));
                } else if i == 0 {
                    lemma_scrubbed_start(s, p);
                    lemma_prefixes_apart(s, p, q);
                    if n > 0 {
                        lemma_redacted_token(scrubbed(rest));
                        assert(out.skip(q.len() as int) =~= "[REDACTED]"@ + scrubbed(rest));
                        assert(out.skip(q.len() as int).take(10) =~= "[REDACTED]"@);
                    } else {
                        assert(out.skip(q.len() as int) =~= scrubbed(rest));
                    }
                } else {
                    let part = if i < q.len() {
                        q
                    } else {
                        "[REDACTED]"@
                    };
                    let from = if i < q.len() {
                        i
                    } else {
                        i - q.len()
                    };
                    lemma_prefix_within(part, p, from);
                    assert(out.subrange(i, i + p.len())[1] == out[i + 1]);
                    if from + 1 < part.len() {
                        assert(out[i + 1] == part[from + 1]);
                    } else if i < q.len() && n > 0 {
                        assert(out[i + 1] == '[');
                    } else {
                        assert(out[i + 1] == scrubbed(rest)[0]);
                    }
                }
            },
            None => {
                if i == 0 {
                    lemma_scrubbed_start(s, p);
                } else {
                    assert(scrubbed(s.skip(1)).subrange(i - 1, i - 1 + p.len()) =~= out.subrange(i, i + p.len()));
                    law_no_credential_is_left(s.skip(1), p, i - 1);
                    assert(scrubbed(s.skip(1)).skip(i - 1 + p.len()) =~= out.skip(i + p.len()));
                }
            },
        }
    }
}

/// Whether scrubbing comes to a place in a text, so that it does not lie within a
/// prefix or a token that is replaced.
pub open spec fn is_reached(s: Seq<char>, at: int) -> bool
    decreases s.len(),
{
    if at <= 0 || s.len() == 0 {
        at == 0
    } else {
        match leading_prefix(s, secret_prefixes()) {
            Some(prefix) => if 0 < prefix.len() <= s.len() {
                let n = token_len(s.skip(prefix.len() as int));
                proof {
                    lemma_token_len(s.skip(prefix.len() as int));
                }
                is_reached(s.skip((prefix.len() + n) as int), at - prefix.len() - n)
            } else {
                false
            },
            None => is_reached(s.skip(1), at - 1),
        }
    }
}

/// No character of a token ends one.
proof fn lemma_within_token(s: Seq<char>)
    ensures
        forall|i: int| 0 <= i < token_len(s) ==> !ends_token(#[trigger] s[i]),
    decreases s.len(),
{
    lemma_token_len(s);
    if s.len() > 0 && !ends_token(s[0]) {
        lemma_within_token(s.skip(1));
        assert forall|i: int| 0 <= i < token_len(s) implies !ends_token(#[trigger] s[i]) by {
            if i > 0 {
                assert(s[i] == s.skip(1)[i - 1]);
            }
        }
    }
}

/// A token ends at the first character that ends one.
proof fn lemma_token_ends_at(s: Seq<char>, n: int)
    requires
        0 <= n <= s.len(),
        n < s.len() ==> ends_token(s[n]),
        forall|i: int| 0 <= i < n ==> !ends_token(#[trigger] s[i]),
    ensures
        token_len(s) == n,
    decreases s.len(),
{
    if n > 0 {
        assert(!ends_token(s[0]));
        assert forall|i: int| 0 <= i < n - 1 implies !ends_token(#[trigger] s.skip(1)[i]) by {
            assert(s.skip(1)[i] == s[i + 1]);
        }
        lemma_token_ends_at(s.skip(1), n - 1);
    }
}

/// Texts that start with the same list of prefixes start with the same one of them.
proof fn lemma_same_prefix(s: Seq<char>, t: Seq<char>, prefixes: Seq<Seq<char>>)
    requires
        forall|p: Seq<char>| prefixes.contains(p) ==> (stands_at(s, p, 0) <==> #[trigger] stands_at(t, p, 0)),
    ensures
        leading_prefix(s, prefixes) == leading_prefix(t, prefixes),
    decreases prefixes.len(),
{
    if prefixes.len() > 0 {
        assert(prefixes.contains(prefixes[0]));
        assert(stands_at(s, prefixes[0], 0) <==> stands_at(t, prefixes[0], 0));
        let rest = prefixes.skip(1);
        assert forall|p: Seq<char>| rest.contains(p) implies (stands_at(s, p, 0) <==> #[trigger] stands_at(t, p, 0)) by {
            let i = rest.index_of(p);
            assert(prefixes[i + 1] == p);
            assert(prefixes.contains(p));
        }
        lemma_same_prefix(s, t, rest);
    }
}

/// Where two texts agree up to the end of a secret prefix, a secret prefix that stands
/// at the start of one stands at the start of the other.
proof fn lemma_prefix_carries_over(s: Seq<char>, t: Seq<char>, p: Seq<char>, at: int, q: Seq<char>)
    requires
        secret_prefixes().contains(p),
        secret_prefixes().contains(q),
        0 <= at,
        at + p.len() <= s.len(),
        at + p.len() <= t.len(),
        s.take(at + p.len()) == t.take(at + p.len()),
        s.subrange(at, at + p.len()) == p,
        stands_at(s, q, 0),
    ensures
        stands_at(t, q, 0),
        q.len() <= at + p.len(),
{
    lemma_secret_prefixes(p);
    assert forall|i: int| 0 <= i < at + p.len() implies #[trigger] s[i] == t[i] by {
        assert(s.take(at + p.len())[i] == s[i]);
        assert(t.take(at + p.len())[i] == t[i]);
    }
    if at == 0 {
        assert(stands_at(s, p, 0));
        lemma_prefixes_apart(s, p, q);
    } else if q.len() > at + p.len() {
        lemma_prefix_within(q, p, at);
        assert(q[at] == s.subrange(0, q.len() as int)[at]);
        assert(q[at + 1] == s.subrange(0, q.len() as int)[at + 1]);
        assert(p[0] == s.subrange(at, at + p.len())[0]);
        assert(p[1] == s.subrange(at, at + p.len())[1]);
    }
    assert forall|i: int| 0 <= i < q.len() implies t[i] == q[i] by {
        assert(s.subrange(0, q.len() as int)[i] == q[i]);
    }
    assert(t.subrange(0, q.len() as int) =~= q);
}

/// A token that starts in a text without an end of it runs on to the end of a token
/// that follows.
proof fn lemma_token_runs_on(head: Seq<char>, from: int, token: Seq<char>, after: Seq<char>)
    requires
        0 <= from <= head.len(),
        forall|i: int| from <= i < head.len() ==> !ends_token(#[trigger] head[i]),
        forall|i: int| 0 <= i < token.len() ==> !ends_token(#[trigger] token[i]),
        after.len() == 0 || ends_token(after[0]),
    ensures
        token_len((head + token + after).skip(from)) == head.len() - from + token.len(),
        (head + token + after).skip(head.len() + token.len() as int) == after,
{
    let s = head + token + after;
    let x = s.skip(from);
    let n = head.len() - from + token.len();
    assert forall|i: int| 0 <= i < n implies !ends_token(#[trigger] x[i]) by {
        if from + i < head.len() {
            assert(x[i] == head[from + i]);
        } else {
            assert(x[i] == token[from + i - head.len()]);
        }
    }
    if after.len() > 0 {
        assert(x[n] == after[0]);
    }
    lemma_token_ends_at(x, n);
    assert(s.skip(head.len() + token.len() as int) =~= after);
}

/// Texts that agree up to the end of a secret prefix start with the same secret prefix,
/// if they do with any.
proof fn lemma_start_agrees(s: Seq<char>, t: Seq<char>, p: Seq<char>, at: int)
    requires
        secret_prefixes().contains(p),
        0 <= at,
        at + p.len() <= s.len(),
        at + p.len() <= t.len(),
        s.take(at + p.len()) == t.take(at + p.len()),
        s.subrange(at, at + p.len()) == p,
        t.subrange(at, at + p.len()) == p,
    ensures
        leading_prefix(s, secret_prefixes()) == leading_prefix(t, secret_prefixes()),
        match leading_prefix(s, secret_prefixes()) {
            Some(q) => 0 < q.len() <= at + p.len(),
            None => true,
        },
        at == 0 ==> leading_prefix(s, secret_prefixes()) == Some(p),
{
    assert forall|q: Seq<char>| secret_prefixes().contains(q) implies (stands_at(s, q, 0) <==> #[trigger] stands_at(
        t,
        q,
        0,
    )) by {
        if stands_at(s, q, 0) {
            lemma_prefix_carries_over(s, t, p, at, q);
        }
        if stands_at(t, q, 0) {
            lemma_prefix_carries_over(t, s, p, at, q);
        }
    }
    lemma_same_prefix(s, t, secret_prefixes());
    lemma_leading_prefix(s, secret_prefixes());
    match leading_prefix(s, secret_prefixes()) {
        Some(q) => {
            lemma_secret_prefixes(q);
            lemma_prefix_carries_over(s, t, p, at, q);
            if at == 0 {
                lemma_prefixes_apart(s, p, q);
            }
        },
        None => {
            if at == 0 {
                assert(stands_at(s, p, 0));
            }
        },
    }
}

/// Texts that agree beyond the end of a token have the same token.
proof fn lemma_token_agrees(s: Seq<char>, t: Seq<char>, from: int, len: int)
    requires
        0 <= from,
        from + token_len(s.skip(from)) < len <= s.len(),
        len <= t.len(),
        s.take(len) == t.take(len),
    ensures
        token_len(t.skip(from)) == token_len(s.skip(from)),
{
    let x = s.skip(from);
    let y = t.skip(from);
    let n = token_len(x) as int;
    lemma_after_token(x);
    lemma_within_token(x);
    assert forall|i: int| 0 <= i <= n implies #[trigger] x[i] == y[i] by {
        assert(s.take(len)[from + i] == x[i]);
        assert(t.take(len)[from + i] == y[i]);
    }
    assert forall|i: int| 0 <= i < n implies !ends_token(#[trigger] y[i]) by {
        assert(x[i] == y[i]);
    }
    assert(x[n] == y[n]);
    lemma_token_ends_at(y, n);
}

/// What is scrubbed is gone: the scrubbed text is the same whatever token follows a
/// secret prefix. A prefix that ends in a space and itself lies within a token that is
/// replaced does not count, since that token ends at the space.
pub proof fn law_scrubbing_hides_the_token(
    before: Seq<char>,
    p: Seq<char>,
    token: Seq<char>,
    other: Seq<char>,
    after: Seq<char>,
)
    requires
        secret_prefixes().contains(p),
        token.len() > 0,
        other.len() > 0,
        forall|i: int| 0 <= i < token.len() ==> !ends_token(#[trigger] token[i]),
        forall|i: int| 0 <= i < other.len() ==> !ends_token(#[trigger] other[i]),
        after.len() == 0 || ends_token(after[0]),
        is_reached(before + p + token + after, before.len() as int) || forall|i: int|
            0 <= i < p.len() ==> !ends_token(#[trigger] p[i]),
    ensures
        scrubbed(before + p + token + after) == scrubbed(before + p + other + after),
    decreases before.len(),
{
    let head = before + p;
    let s = head + token + after;
    let t = head + other + after;
    let at = before.len() as int;
    lemma_secret_prefixes(p);
    assert(s.take(at + p.len()) =~= head);
    assert(t.take(at + p.len()) =~= head);
    assert(s.subrange(at, at + p.len()) =~= p);
    assert(t.subrange(at, at + p.len()) =~= p);
    lemma_start_agrees(s, t, p, at);
    match leading_prefix(s, secret_prefixes()) {
        Some(q) => {
            let from = q.len() as int;
            let x = s.skip(from);
            let n = token_len(x) as int;
            lemma_token_len(x);
            if from + n <= at {
                lemma_token_agrees(s, t, from, at + p.len());
                let rest = before.skip(from + n);
                assert(s.skip(from + n) =~= rest + p + token + after);
                assert(t.skip(from + n) =~= rest + p + other + after);
                law_scrubbing_hides_the_token(rest, p, token, other, after);
            } else {
                lemma_runs_into_the_prefix(before, p, token, after, from);
                lemma_token_runs_on(head, from, token, after);
                lemma_token_runs_on(head, from, other, after);
            }
        },
        None => {
            let rest = before.skip(1);
            assert(s.skip(1) =~= rest + p + token + after);
            assert(t.skip(1) =~= rest + p + other + after);
            law_scrubbing_hides_the_token(rest, p, token, other, after);
            assert(s[0] == head[0] && t[0] == head[0]);
        },
    }
}

/// A token that is replaced and runs into a secret prefix runs on through it, if
/// scrubbing does not come to the prefix or no character of it ends a token.
proof fn lemma_runs_into_the_prefix(before: Seq<char>, p: Seq<char>, token: Seq<char>, after: Seq<char>, from: int)
    requires
        secret_prefixes().contains(p),
        match leading_prefix(before + p + token + after, secret_prefixes()) {
            Some(q) => q.len() == from && (before.len() == 0 ==> q == p),
            None => false,
        },
        0 < from <= before.len() + p.len(),
        from + token_len((before + p + token + after).skip(from)) > before.len(),
        is_reached(before + p + token + after, before.len() as int) || forall|i: int|
            0 <= i < p.len() ==> !ends_token(#[trigger] p[i]),
    ensures
        forall|i: int| from <= i < (before + p).len() ==> !ends_token(#[trigger] (before + p)[i]),
{
    let head = before + p;
    let s = head + token + after;
    let at = before.len() as int;
    let x = s.skip(from);
    let n = token_len(x) as int;
    lemma_within_token(x);
    lemma_token_len(x);
    if at > 0 {
        assert(!is_reached(s.skip(from + n), at - from - n));
        assert(!is_reached(s, at));
    }
    assert forall|i: int| from <= i < head.len() implies !ends_token(#[trigger] head[i]) by {
        if i < at {
            assert(x[i - from] == head[i]);
        } else {
            assert(head[i] == p[i - at]);
        }
    }
}

/// The encoding of two texts one after the other is as long as both.
proof fn lemma_utf8_len_append(a: Seq<char>, b: Seq<char>)
    ensures
        utf8_len(a + b) == utf8_len(a) + utf8_len(b),
    decreases b.len(),
{
    if b.len() == 0 {
        assert(a + b =~= a);
    } else {
        lemma_utf8_len_append(a, b.drop_last());
        lemma_utf8_len_push(a + b.drop_last(), b.last());
        lemma_utf8_len_push(b.drop_last(), b.last());
        assert((a + b.drop_last()).push(b.last()) =~= a + b);
        assert(b.drop_last().push(b.last()) =~= b);
    }
}

/// A text takes at least a byte for each character.
proof fn lemma_utf8_len_covers(s: Seq<char>)
    ensures
        s.len() <= utf8_len(s),
    decreases s.len(),
{
    if s.len() > 0 {
        lemma_utf8_len_covers(s.drop_last());
        lemma_utf8_len_push(s.drop_last(), s.last());
        assert(s.drop_last().push(s.last()) =~= s);
    }
}

/// The digits of a number below a power of ten take as many bytes as it has zeros.
proof fn lemma_decimal_width(n: nat, k: nat)
    requires
        k > 0,
        n < pow(10, k),
    ensures
        utf8_len(decimal(n)) <= k,
    decreases k,
{
    let text = decimal(n);
    if n < 10 {
        reveal_with_fuel(pow, 2);
        lemma_utf8_len_push(Seq::empty(), digit(n));
        assert(Seq::<char>::empty().push(digit(n)) =~= text);
    } else {
        reveal_with_fuel(pow, 2);
        lemma_decimal_width(n / 10, (k - 1) as nat);
        lemma_utf8_len_push(decimal(n / 10), digit(n % 10));
    }
}

/// Scrubbing makes a text at most four times as long.
proof fn lemma_scrubbed_len(s: Seq<char>)
    ensures
        utf8_len(scrubbed(s)) <= 4 * utf8_len(s),
    decreases s.len(),
{
    if s.len() > 0 {
        lemma_leading_prefix(s, secret_prefixes());
        match leading_prefix(s, secret_prefixes()) {
            Some(q) => {
                lemma_secret_prefixes(q);
                let tail = s.skip(q.len() as int);
                lemma_token_len(tail);
                let n = token_len(tail);
                let rest = s.skip((q.len() + n) as int);
                lemma_scrubbed_len(rest);
                let token = tail.take(n as int);
                assert(s =~= q + token + rest);
                lemma_utf8_len_append(q + token, rest);
                lemma_utf8_len_append(q, token);
                lemma_utf8_len_covers(token);
                lemma_utf8_len_covers(q);
                assert(q.len() > 2) by {
                    reveal_strlit("Bearer ");
                    reveal_strlit("bearer ");
                    reveal_strlit("sk-");
                    reveal_strlit("sk_");
                    reveal_strlit("xoxb-");
                    reveal_strlit("xoxp-");
                    reveal_strlit("ghp_");
                    reveal_strlit("ghs_");
                    reveal_strlit("AKIA");
                    assert(secret_prefixes()[secret_prefixes().index_of(q)] == q);
                }
                let put = if n > 0 {
                    "[REDACTED]"@
                } else {
                    Seq::empty()
                };
                assert(scrubbed(s) == q + put + scrubbed(rest));
                lemma_utf8_len_append(q + put, scrubbed(rest));
                lemma_utf8_len_append(q, put);
                reveal_strlit("[REDACTED]");
                is_ascii_chars_encode_utf8("[REDACTED]"@);
            },
            None => {
                lemma_scrubbed_len(s.skip(1));
                let first = seq![s[0]];
                assert(s =~= first + s.skip(1));
                lemma_utf8_len_append(first, s.skip(1));
                lemma_utf8_len_append(first, scrubbed(s.skip(1)));
            },
        }
    }
}

/// What is kept of a body is bounded, whatever its length: the text keeps at most
/// the bytes it may, the note on those that are missing is short, and what takes
/// the place of credentials makes the text at most four times as long.
pub proof fn law_error_bodies_are_bounded(body: Seq<char>)
    requires
        utf8_len(body) <= u64::MAX,
    ensures
        utf8_len(truncated(body, MAX_ERROR_BODY_LEN as nat)) <= MAX_ERROR_BODY_LEN + 42,
        utf8_len(scrubbed(truncated(body, MAX_ERROR_BODY_LEN as nat))) <= 4 * (MAX_ERROR_BODY_LEN + 42),
{
    let max = MAX_ERROR_BODY_LEN as nat;
    let cut = truncated(body, max);
    if utf8_len(body) > max {
        lemma_fitting_chars(body, max);
        let kept = body.take(fitting_chars(body, max) as int);
        let missing = (utf8_len(body) - utf8_len(kept)) as nat;
        assert(pow(10, 20) == 100000000000000000000) by {
            reveal_with_fuel(pow, 21);
        }
        lemma_decimal_width(missing, 20);
        reveal_strlit("... [truncated ");
        reveal_strlit(" bytes]");
        is_ascii_chars_encode_utf8("... [truncated "@);
        is_ascii_chars_encode_utf8(" bytes]"@);
        lemma_utf8_len_append(kept, "... [truncated "@);
        lemma_utf8_len_append(kept + "... [truncated "@, decimal(missing));
        lemma_utf8_len_append(kept + "... [truncated "@ + decimal(missing), " bytes]"@);
    }
    lemma_scrubbed_len(cut);
}

/// The well-known credentials are those that start with one of these prefixes, and a
/// token ends at white space, a quote, a comma or a closing bracket.
pub proof fn law_known_credentials(p: Seq<char>, c: char)
    ensures
        secret_prefixes().contains(p) <==> p == "Bearer "@ || p == "bearer "@ || p == "sk-"@ || p == "sk_"@ || p
            == "xoxb-"@ || p == "xoxp-"@ || p == "ghp_"@ || p == "ghs_"@ || p == "AKIA"@,
        ends_token(c) <==> c == ' ' || c == '\t' || c == '\n' || c == '\r' || c as u32 == 12 || c == '"' || c == '\''
            || c == ',' || c == '}' || c == ')',
{
    let all = secret_prefixes();
    assert(all[0] == "Bearer "@);
    assert(all[1] == "bearer "@);
    assert(all[2] == "sk-"@);
    assert(all[3] == "sk_"@);
    assert(all[4] == "xoxb-"@);
    assert(all[5] == "xoxp-"@);
    assert(all[6] == "ghp_"@);
    assert(all[7] == "ghs_"@);
    assert(all[8] == "AKIA"@);
}

/// A credential at the start of a text is replaced and the rest is scrubbed; its prefix
/// stays, so that one sees what was there.
pub proof fn law_credentials_are_replaced(p: Seq<char>, token: Seq<char>, after: Seq<char>)
    requires
        secret_prefixes().contains(p),
        token.len() > 0,
        forall|i: int| 0 <= i < token.len() ==> !ends_token(#[trigger] token[i]),
        after.len() == 0 || ends_token(after[0]),
    ensures
        scrubbed(p + token + after) == p + "[REDACTED]"@ + scrubbed(after),
{
    let s = p + token + after;
    lemma_secret_prefixes(p);
    lemma_leading_prefix(s, secret_prefixes());
    assert(s.subrange(0, p.len() as int) =~= p);
    assert(stands_at(s, p, 0));
    let q = leading_prefix(s, secret_prefixes())->0;
    lemma_prefixes_apart(s, p, q);
    assert(s.skip(p.len() as int) =~= token + after);
    assert forall|i: int| 0 <= i < token.len() implies !ends_token(#[trigger] (token + after)[i]) by {
        assert(!ends_token(token[i]));
    }
    lemma_token_ends_at(token + after, token.len() as int);
    assert(s.skip((p.len() + token.len()) as int) =~= after);
}

/// Text is scrubbed from its start on: a character at which no credential starts stays,
/// and so does a prefix that no token follows.
pub proof fn law_text_is_scrubbed_from_its_start(s: Seq<char>, p: Seq<char>, after: Seq<char>)
    ensures
        scrubbed(Seq::empty()).len() == 0,
        s.len() > 0 && (forall|q: Seq<char>| #[trigger] secret_prefixes().contains(q) ==> !stands_at(s, q, 0))
            ==> scrubbed(s) == seq![s[0]] + scrubbed(s.skip(1)),
        secret_prefixes().contains(p) && (after.len() == 0 || ends_token(after[0])) ==> scrubbed(p + after) == p
            + scrubbed(after),
{
    lemma_leading_prefix(s, secret_prefixes());
    if s.len() > 0 && (forall|q: Seq<char>| #[trigger] secret_prefixes().contains(q) ==> !stands_at(s, q, 0)) {
        if let Some(q) = leading_prefix(s, secret_prefixes()) {
            assert(secret_prefixes().contains(q));
        }
    }
    if secret_prefixes().contains(p) && (after.len() == 0 || ends_token(after[0])) {
        let t = p + after;
        lemma_secret_prefixes(p);
        lemma_leading_prefix(t, secret_prefixes());
        assert(t.subrange(0, p.len() as int) =~= p);
        assert(stands_at(t, p, 0));
        lemma_prefixes_apart(t, p, leading_prefix(t, secret_prefixes())->0);
        assert(t.skip(p.len() as int) =~= after);
        assert(token_len(after) == 0);
        assert(p + Seq::<char>::empty() + scrubbed(after) =~= p + scrubbed(after));
    }
}

/// A text in which no credential starts stays as it is.
pub proof fn law_other_text_is_kept(s: Seq<char>)
    requires
        forall|p: Seq<char>, i: int| secret_prefixes().contains(p) ==> !#[trigger] stands_at(s, p, i),
    ensures
        scrubbed(s) == s,
    decreases s.len(),
{
    if s.len() > 0 {
        lemma_leading_prefix(s, secret_prefixes());
        assert forall|p: Seq<char>, i: int| secret_prefixes().contains(p) implies !#[trigger] stands_at(
            s.skip(1),
            p,
            i,
        ) by {
            if stands_at(s.skip(1), p, i) {
                assert(s.subrange(i + 1, i + 1 + p.len()) =~= s.skip(1).subrange(i, i + p.len()));
                assert(stands_at(s, p, i + 1));
            }
        }
        law_other_text_is_kept(s.skip(1));
        assert(seq![s[0]] + s.skip(1) =~= s);
    }
}

/// A text that fits stays as it is. Of a longer one the longest beginning that fits
/// stays, and a note says how many bytes are missing.
pub proof fn law_truncation_keeps_the_beginning(s: Seq<char>, max: nat)
    ensures
        utf8_len(s) == encode_utf8(s).len(),
        utf8_len(s) <= max ==> truncated(s, max) == s,
        utf8_len(s) > max ==> exists|n: int|
            {
                let kept = #[trigger] s.take(n);
                &&& 0 <= n < s.len()
                &&& utf8_len(kept) <= max
                &&& utf8_len(s.take(n + 1)) > max
                &&& truncated(s, max) == kept + "... [truncated "@ + decimal((utf8_len(s) - utf8_len(kept)) as nat)
                    + " bytes]"@
            },
{
    if utf8_len(s) > max {
        let n = fitting_chars(s, max) as int;
        lemma_fitting_chars(s, max);
        assert(s.take(s.len() as int) =~= s);
        assert(utf8_len(s.take(n)) <= max);
        assert(utf8_len(s.take(n + 1)) > max);
    }
}

} // verus!
