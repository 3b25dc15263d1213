//! Backup timestamps: `YYYY-MM-DD-HH-MM`, read as seconds since the Unix epoch.

use vstd::prelude::*;

verus! {

/// What chrono makes of an RFC 3339 date-time: its seconds since the Unix epoch,
/// or nothing where the text is not such a date-time.
pub uninterp spec fn rfc3339_seconds(s: Seq<char>) -> Option<i64>;

/// Relies on `chrono::DateTime::parse_from_rfc3339` and `DateTime::timestamp`:
/// the result depends on the text alone.
#[verifier::external_body]
fn parse_rfc3339(s: &str) -> (r: Option<i64>)
    ensures
        r == rfc3339_seconds(s@),
{
    match chrono::DateTime::parse_from_rfc3339(s) {
        Ok(d) => Some(d.timestamp()),
        Err(_) => None,
    }
}

/// The number of `-` in `s`.
pub open spec fn dashes(s: Seq<char>) -> nat
    decreases s.len(),
{
    if s.len() == 0 {
        0
    } else {
        dashes(s.drop_last()) + if s.last() == '-' {
            1nat
        } else {
            0nat
        }
    }
}

/// The character at `i` of the RFC 3339 form of `ts`: the third dash becomes
/// the date-time separator, the fourth the hour-minute separator.
pub open spec fn rfc3339_char(ts: Seq<char>, i: int) -> char {
    let c = ts[i];
    if c == '-' && dashes(ts.subrange(0, i)) == 2 {
        'T'
    } else if c == '-' && dashes(ts.subrange(0, i)) == 3 {
        ':'
    } else {
        c
    }
}

/// `Y-M-D-h-m` written as the RFC 3339 date-time `Y-M-DTh:m:00Z`.
pub open spec fn rfc3339_form(ts: Seq<char>) -> Seq<char> {
    Seq::new(ts.len(), |i: int| rfc3339_char(ts, i)) + ":00Z"@
}

/// The instant that a backup timestamp names, in seconds since the Unix epoch;
/// 0 for text that is not five dash-separated parts forming a valid date-time.
pub open spec fn timestamp_seconds(ts: Seq<char>) -> i64 {
    if dashes(ts) == 4 {
        match rfc3339_seconds(rfc3339_form(ts)) {
            Some(v) => v,
            None => 0,
        }
    } else {
        0
    }
}

/// Reads a backup timestamp `YYYY-MM-DD-HH-MM` as seconds since the Unix epoch;
/// text that does not parse reads as 0, the oldest instant.
pub fn parse_timestamp(ts: &str) -> (r: i64)
    ensures
        r == timestamp_seconds(ts@),
{
    let n = ts.unicode_len();
    let mut out = String::new();
    let mut seen: usize = 0;
    let mut i: usize = 0;
    while i < n
        invariant
            n == ts@.len(),
            i <= n,
            seen == dashes(ts@.subrange(0, i as int)),
            seen <= i,
            out@ == Seq::new(i as nat, |j: int| rfc3339_char(ts@, j)),
        decreases n - i,
    {
        let c = ts.get_char(i);
        let ghost before = out@;
        if c == '-' && seen == 2 {
            out.append("T");
        } else if c == '-' && seen == 3 {
            out.append(":");
        } else {
            out.append(ts.substring_char(i, i + 1));
        }
        proof {
            reveal_strlit("T");
            reveal_strlit(":");
            assert(ts@.subrange(0, i + 1).drop_last() =~= ts@.subrange(0, i as int));
            assert(out@.len() == i + 1);
            assert(out@[i as int] == rfc3339_char(ts@, i as int));
            assert(out@ =~= Seq::new((i + 1) as nat, |j: int| rfc3339_char(ts@, j)));
        }
        if c == '-' {
            seen = seen + 1;
        }
        i = i + 1;
    }
    assert(ts@.subrange(0, n as int) =~= ts@);
    if seen != 4 {
        return 0;
    }
    out.append(":00Z");
    match parse_rfc3339(out.as_str()) {
        Some(v) => v,
        None => 0,
    }
}

} // verus!
