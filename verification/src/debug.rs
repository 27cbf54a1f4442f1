//! Texts for logs, in the form that `Debug` gives them.

use vstd::prelude::*;

use crate::text::{cat2, cat3, cat4, decimal, decimal_of, join, joined, padded, padded_of, trim_end, trim_end_of};

verus! {

/// A text in quotes, with what is not printable escaped, as the `Debug` impl of
/// `str` shows it.
pub uninterp spec fn quoted(text: Seq<char>) -> Seq<char>;

/// The `Debug` form of a `str`, named by [`quoted`].
#[verifier::external_body]
pub(crate) fn quote(text: &str) -> (shown: String)
    ensures
        shown@ == quoted(text@),
{
    format!("{text:?}")
}

/// A text that may be missing.
pub open spec fn quoted_option(text: Option<Seq<char>>) -> Seq<char> {
    match text {
        Some(t) => "Some("@ + quoted(t) + ")"@,
        None => "None"@,
    }
}

/// A text that may be missing.
pub fn quote_option(text: &Option<String>) -> (shown: String)
    ensures
        shown@ == quoted_option(text.deep_view()),
{
    match text {
        Some(t) => cat3("Some(", quote(t.as_str()).as_str(), ")"),
        None => "None".to_owned(),
    }
}

/// A record: its name, and its fields with their values.
pub open spec fn record(name: Seq<char>, fields: Seq<(Seq<char>, Seq<char>)>) -> Seq<char> {
    name + " { "@ + joined(Seq::new(fields.len(), |i: int| fields[i].0 + ": "@ + fields[i].1), ", "@) + " }"@
}

/// The text of a record.
pub fn record_text(name: &str, fields: &Vec<(&str, String)>) -> (text: String)
    ensures
        text@ == record(name@, fields.deep_view()),
{
    let ghost all = fields.deep_view();
    let ghost parts = Seq::new(all.len(), |i: int| all[i].0 + ": "@ + all[i].1);
    let mut shown: Vec<String> = Vec::new();
    let mut i: usize = 0;
    assert(shown.deep_view() =~= parts.take(0));
    while i < fields.len()
        invariant
            i <= fields@.len(),
            all == fields.deep_view(),
            parts == Seq::new(all.len(), |i: int| all[i].0 + ": "@ + all[i].1),
            shown.deep_view() == parts.take(i as int),
        decreases fields@.len() - i,
    {
        let ghost before = shown.deep_view();
        assert(all[i as int] == fields@[i as int].deep_view());
        shown.push(cat3(fields[i].0, ": ", fields[i].1.as_str()));
        assert(shown.deep_view() =~= before.push(parts[i as int]));
        assert(parts.take(i + 1) =~= before.push(parts[i as int]));
        i += 1;
    }
    assert(parts.take(i as int) =~= parts);
    cat4(name, " { ", join(&shown, ", ").as_str(), " }")
}

/// A span of time in milliseconds: in seconds with up to three decimals, or in
/// milliseconds where it is less than a second.
pub open spec fn duration(millis: nat) -> Seq<char> {
    if millis >= 1000 {
        if millis % 1000 == 0 {
            decimal(millis / 1000) + "s"@
        } else {
            decimal(millis / 1000) + "."@ + trim_end(padded(millis % 1000, 3), '0') + "s"@
        }
    } else if millis > 0 {
        decimal(millis) + "ms"@
    } else {
        "0ns"@
    }
}

/// The text of a span of time.
pub fn duration_text(millis: u64) -> (text: String)
    ensures
        text@ == duration(millis as nat),
{
    if millis >= 1000 {
        let seconds = decimal_of(millis / 1000);
        if millis % 1000 == 0 {
            cat2(seconds.as_str(), "s")
        } else {
            let decimals = trim_end_of(padded_of(millis % 1000, 3).as_str(), '0');
            cat4(seconds.as_str(), ".", decimals.as_str(), "s")
        }
    } else if millis > 0 {
        cat2(decimal_of(millis).as_str(), "ms")
    } else {
        "0ns".to_owned()
    }
}

/// A span of seconds with a fraction shows its thousandths after a point, without zeros
/// at the end.
pub proof fn law_fractions_of_seconds(seconds: nat, thousandths: nat)
    requires
        seconds > 0,
        0 < thousandths < 1000,
    ensures
        duration(1000 * seconds + thousandths) == decimal(seconds) + "."@ + trim_end(padded(thousandths, 3), '0') + "s"@,
{
    let millis = 1000 * seconds + thousandths;
    assert(millis / 1000 == seconds && millis % 1000 == thousandths);
}

/// A record shows its name and then every field with its value, in order.
pub proof fn law_records(name: Seq<char>, first: Seq<(Seq<char>, Seq<char>)>, text: Seq<char>, millis: nat)
    ensures
        record(name, first) == name + " { "@ + joined(
            first.map_values(|field: (Seq<char>, Seq<char>)| field.0 + ": "@ + field.1),
            ", "@,
        ) + " }"@,
        quoted_option(Some(text)) == "Some("@ + quoted(text) + ")"@,
        quoted_option(None) == "None"@,
        0 < millis < 1000 ==> duration(millis) == decimal(millis) + "ms"@,
        millis > 0 ==> duration(1000 * millis) == decimal(millis) + "s"@,
        duration(0) == "0ns"@,
{
    assert(first.map_values(|field: (Seq<char>, Seq<char>)| field.0 + ": "@ + field.1) =~= Seq::new(
        first.len(),
        |i: int| first[i].0 + ": "@ + first[i].1,
    ));
    assert((1000 * millis) / 1000 == millis && (1000 * millis) % 1000 == 0);
}

} // verus!
