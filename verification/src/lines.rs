//! Lines out of a stream of bytes that arrives in chunks.

use vstd::prelude::*;

use crate::http::{body_text, utf8_lossy};
use crate::text::{trim, trimmed};

verus! {

/// The position of the first newline, `None` if there is none.
pub open spec fn newline(bytes: Seq<u8>) -> Option<int>
    decreases bytes.len(),
{
    if bytes.len() == 0 {
        None
    } else if bytes[0] == 10 {
        Some(0)
    } else {
        match newline(bytes.skip(1)) {
            Some(i) => Some(i + 1),
            None => None,
        }
    }
}

/// What [`newline`] says of the bytes.
pub proof fn lemma_newline(bytes: Seq<u8>)
    ensures
        match newline(bytes) {
            Some(i) => {
                &&& 0 <= i < bytes.len()
                &&& bytes[i] == 10
                &&& forall|j: int| 0 <= j < i ==> #[trigger] bytes[j] != 10
            },
            None => forall|j: int| 0 <= j < bytes.len() ==> #[trigger] bytes[j] != 10,
        },
    decreases bytes.len(),
{
    if bytes.len() > 0 && bytes[0] != 10 {
        let rest = bytes.skip(1);
        lemma_newline(rest);
        match newline(rest) {
            Some(i) => {
                assert forall|j: int| 0 <= j < i + 1 implies #[trigger] bytes[j] != 10 by {
                    if j > 0 {
                        assert(rest[j - 1] == bytes[j]);
                    }
                }
            },
            None => {
                assert forall|j: int| 0 <= j < bytes.len() implies #[trigger] bytes[j] != 10 by {
                    if j > 0 {
                        assert(rest[j - 1] == bytes[j]);
                    }
                }
            },
        }
    }
}

/// A position that has the first newline is the one that [`newline`] gives.
proof fn lemma_newline_is(bytes: Seq<u8>, i: int)
    requires
        0 <= i < bytes.len(),
        bytes[i] == 10,
        forall|j: int| 0 <= j < i ==> #[trigger] bytes[j] != 10,
    ensures
        newline(bytes) == Some(i),
{
    lemma_newline(bytes);
    match newline(bytes) {
        Some(k) => {
            if k < i {
                assert(bytes[k] != 10);
            }
        },
        None => {},
    }
}

/// The complete lines among bytes, each with its newline.
pub open spec fn lines(bytes: Seq<u8>) -> Seq<Seq<u8>>
    decreases bytes.len(),
{
    match newline(bytes) {
        Some(i) => if 0 <= i < bytes.len() {
            seq![bytes.take(i + 1)] + lines(bytes.skip(i + 1))
        } else {
            Seq::empty()
        },
        None => Seq::empty(),
    }
}

/// What follows the last complete line.
pub open spec fn after_lines(bytes: Seq<u8>) -> Seq<u8>
    decreases bytes.len(),
{
    match newline(bytes) {
        Some(i) => if 0 <= i < bytes.len() {
            after_lines(bytes.skip(i + 1))
        } else {
            bytes
        },
        None => bytes,
    }
}

/// The text of a line, without whitespace around it, `None` if nothing is left.
pub open spec fn line_content(line: Seq<u8>) -> Option<Seq<char>> {
    let text = trimmed(utf8_lossy(line));
    if text.len() == 0 {
        None
    } else {
        Some(text)
    }
}

/// The text of a line.
pub fn line_text(line: &Vec<u8>) -> (text: Option<String>)
    ensures
        text.deep_view() == line_content(line@),
{
    let text = trim(body_text(line).as_str());
    if text.as_str().is_empty() {
        None
    } else {
        Some(text)
    }
}

/// Bytes that have arrived and are not part of a line that was taken.
#[derive(Debug)]
pub struct LineBuffer {
    pub pending: Vec<u8>,
}

impl LineBuffer {
    /// A buffer without bytes.
    pub fn new() -> (buffer: Self)
        ensures
            buffer.pending@ == Seq::<u8>::empty(),
    {
        LineBuffer { pending: Vec::new() }
    }

    /// Add a chunk of bytes.
    pub fn push(&mut self, chunk: &Vec<u8>)
        ensures
            final(self).pending@ == old(self).pending@ + chunk@,
    {
        self.pending.extend_from_slice(chunk.as_slice());
        assert(self.pending@ =~= old(self).pending@ + chunk@);
    }

    /// Take the first complete line with its newline, if there is one.
    pub fn next_line(&mut self) -> (line: Option<Vec<u8>>)
        ensures
            match newline(old(self).pending@) {
                Some(i) => {
                    &&& line is Some
                    &&& line->0@ == old(self).pending@.take(i + 1)
                    &&& final(self).pending@ == old(self).pending@.skip(i + 1)
                },
                None => line is None && final(self).pending@ == old(self).pending@,
            },
    {
        let ghost all = self.pending@;
        let mut i: usize = 0;
        while i < self.pending.len()
            invariant
                i <= self.pending@.len(),
                self.pending@ == all,
                forall|j: int| 0 <= j < i ==> #[trigger] all[j] != 10,
            ensures
                i <= self.pending@.len(),
                self.pending@ == all,
                forall|j: int| 0 <= j < i ==> #[trigger] all[j] != 10,
                i < self.pending@.len() ==> all[i as int] == 10,
            decreases self.pending@.len() - i,
        {
            if self.pending[i] == 10 {
                break;
            }
            i += 1;
        }
        proof {
            lemma_newline(all);
        }
        if i < self.pending.len() {
            proof {
                lemma_newline_is(all, i as int);
            }
            let rest = self.pending.split_off(i + 1);
            let mut line = rest;
            core::mem::swap(&mut self.pending, &mut line);
            assert(line@ =~= all.take(i + 1));
            assert(self.pending@ =~= all.skip(i + 1));
            Some(line)
        } else {
            None
        }
    }
}

/// The bytes of lines, put together again.
pub open spec fn rejoined(lines: Seq<Seq<u8>>) -> Seq<u8>
    decreases lines.len(),
{
    if lines.len() == 0 {
        Seq::empty()
    } else {
        lines[0] + rejoined(lines.skip(1))
    }
}

/// No byte is lost or moved: the lines and what follows them are the bytes that came.
pub proof fn law_lines_keep_every_byte(bytes: Seq<u8>)
    ensures
        rejoined(lines(bytes)) + after_lines(bytes) == bytes,
    decreases bytes.len(),
{
    lemma_newline(bytes);
    match newline(bytes) {
        Some(i) => {
            let rest = bytes.skip(i + 1);
            law_lines_keep_every_byte(rest);
            let all = lines(bytes);
            assert(all.skip(1) =~= lines(rest));
            assert(rejoined(all) + after_lines(bytes) =~= bytes.take(i + 1) + (rejoined(lines(rest)) + after_lines(
                rest,
            )));
            assert(bytes.take(i + 1) + rest =~= bytes);
        },
        None => {
            assert(rejoined(lines(bytes)) + after_lines(bytes) =~= bytes);
        },
    }
}

/// It does not matter where a stream is cut into chunks: the lines of two chunks
/// are those of the first, then those of what it left over and the second.
pub proof fn law_lines_do_not_depend_on_chunks(first: Seq<u8>, second: Seq<u8>)
    ensures
        lines(first + second) == lines(first) + lines(after_lines(first) + second),
        after_lines(first + second) == after_lines(after_lines(first) + second),
    decreases first.len(),
{
    lemma_newline(first);
    match newline(first) {
        Some(i) => {
            let both = first + second;
            assert forall|j: int| 0 <= j < i implies #[trigger] both[j] != 10 by {
                assert(both[j] == first[j]);
            }
            lemma_newline_is(both, i);
            let rest = first.skip(i + 1);
            law_lines_do_not_depend_on_chunks(rest, second);
            assert(both.take(i + 1) =~= first.take(i + 1));
            assert(both.skip(i + 1) =~= rest + second);
            assert(lines(both) =~= seq![first.take(i + 1)] + (lines(rest) + lines(after_lines(rest) + second)));
            assert(lines(first) + lines(after_lines(first) + second) =~= lines(both));
        },
        None => {
            assert(lines(first) + lines(first + second) =~= lines(first + second));
        },
    }
}

/// A line says its text without the white space around it, and a line of nothing but
/// white space says nothing.
pub proof fn law_line_says_its_text(line: Seq<u8>)
    ensures
        trimmed(utf8_lossy(line)).len() > 0 ==> line_content(line) == Some(trimmed(utf8_lossy(line))),
        trimmed(utf8_lossy(line)).len() == 0 ==> line_content(line) is None,
{
}

/// Every line ends with its newline and has no other, and no newline is left over.
pub proof fn law_lines_end_with_newlines(bytes: Seq<u8>)
    ensures
        forall|i: int|
            0 <= i < lines(bytes).len() ==> {
                &&& (#[trigger] lines(bytes)[i]).len() > 0
                &&& lines(bytes)[i].last() == 10
                &&& forall|k: int| 0 <= k < lines(bytes)[i].len() - 1 ==> #[trigger] lines(bytes)[i][k] != 10
            },
        forall|k: int| 0 <= k < after_lines(bytes).len() ==> #[trigger] after_lines(bytes)[k] != 10,
    decreases bytes.len(),
{
    lemma_newline(bytes);
    if let Some(n) = newline(bytes) {
        let rest = bytes.skip(n + 1);
        law_lines_end_with_newlines(rest);
        assert forall|i: int| 0 <= i < lines(bytes).len() implies {
            &&& (#[trigger] lines(bytes)[i]).len() > 0
            &&& lines(bytes)[i].last() == 10
            &&& forall|k: int| 0 <= k < lines(bytes)[i].len() - 1 ==> #[trigger] lines(bytes)[i][k] != 10
        } by {
            if i > 0 {
                assert(lines(bytes)[i] == lines(rest)[i - 1]);
            } else {
                assert(lines(bytes)[0] == bytes.take(n + 1));
            }
        }
        assert(after_lines(bytes) == after_lines(rest));
    } else {
        assert(after_lines(bytes) == bytes);
    }
}

} // verus!
