//! Naming of the run's output file.
use vstd::prelude::*;
use vstd::string::*;

use crate::text::push_char;

verus! {

/// Chars of the time stamp kept in the name: date, hours and minutes.
pub const STAMP_CHARS: usize = 16;

/// A char of the stamp as it appears in a file name that is safe on every
/// platform: `:` becomes `_` and `T` becomes `.`.
pub open spec fn file_char(c: char) -> char {
    if c == ':' {
        '_'
    } else if c == 'T' {
        '.'
    } else {
        c
    }
}

/// `output/<stamp cut to the minute, made file-safe>.txt`.
pub open spec fn output_filename_spec(stamp: Seq<char>) -> Seq<char> {
    let n = if stamp.len() < STAMP_CHARS {
        stamp.len()
    } else {
        STAMP_CHARS as nat
    };
    "output/"@ + stamp.take(n as int).map_values(|c: char| file_char(c)) + ".txt"@
}

/// The output file's name for a run started at `stamp`, an RFC 3339 date
/// and time such as `2024-03-01T09:41:07+01:00`.
pub fn output_filename(stamp: &str) -> (r: String)
    ensures
        r@ == output_filename_spec(stamp@),
{
    let len = stamp.unicode_len();
    let n = if len < STAMP_CHARS {
        len
    } else {
        STAMP_CHARS
    };
    let mut r = String::from_str("output/");
    let mut i: usize = 0;
    while i < n
        invariant
            n <= len == stamp@.len(),
            i <= n,
            r@ == "output/"@ + stamp@.take(i as int).map_values(|c: char| file_char(c)),
        decreases n - i,
    {
        let c = stamp.get_char(i);
        let f = if c == ':' {
            '_'
        } else if c == 'T' {
            '.'
        } else {
            c
        };
        push_char(&mut r, f);
        assert(stamp@.take(i + 1).map_values(|c: char| file_char(c)) =~= stamp@.take(
            i as int,
        ).map_values(|c: char| file_char(c)).push(file_char(stamp@[i as int])));
        i = i + 1;
    }
    r.append(".txt");
    r
}

/// Relies on `chrono::Local::now` and `DateTime::to_rfc3339`: the local
/// date and time now, as RFC 3339 text: a year of at least four digits,
/// `-MM-DDTHH:MM:SS`, optional fractional seconds and an offset `+hh:mm`, so
/// at least 25 chars. Nothing more is promised of its value.
#[verifier::external_body]
fn local_timestamp() -> (r: String)
    ensures
        r@.len() >= 25,
{
    chrono::Local::now().to_rfc3339()
}

/// The output file's name for a run starting now.
pub fn new_output_filename() -> (r: String)
    ensures
        exists|stamp: Seq<char>| stamp.len() >= STAMP_CHARS && r@ == output_filename_spec(stamp),
        r@.len() == 27,
{
    let stamp = local_timestamp();
    let r = output_filename(stamp.as_str());
    proof {
        reveal_strlit("output/");
        reveal_strlit(".txt");
    }
    r
}

} // verus!
