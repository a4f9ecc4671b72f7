//! Text helpers: device identifiers are cleaned of surrounding whitespace
//! and of the NUL padding that fixed-width fields carry.
use vstd::prelude::*;
use vstd::string::*;

verus! {

/// Rust's `char::is_whitespace`: the Unicode White_Space property.
pub open spec fn is_whitespace(c: char) -> bool {
    let u = c as u32;
    (0x09 <= u <= 0x0d) || u == 0x20 || u == 0x85 || u == 0xa0 || u == 0x1680 || (0x2000 <= u
        <= 0x200a) || u == 0x2028 || u == 0x2029 || u == 0x202f || u == 0x205f || u == 0x3000
}

pub open spec fn is_nul(c: char) -> bool {
    c as u32 == 0
}

/// Drops leading whitespace.
pub open spec fn trim_start_spec(s: Seq<char>) -> Seq<char>
    decreases s.len(),
{
    if s.len() > 0 && is_whitespace(s[0]) {
        trim_start_spec(s.drop_first())
    } else {
        s
    }
}

/// Drops trailing whitespace.
pub open spec fn trim_end_spec(s: Seq<char>) -> Seq<char>
    decreases s.len(),
{
    if s.len() > 0 && is_whitespace(s.last()) {
        trim_end_spec(s.drop_last())
    } else {
        s
    }
}

/// Drops trailing NULs.
pub open spec fn trim_nul_spec(s: Seq<char>) -> Seq<char>
    decreases s.len(),
{
    if s.len() > 0 && is_nul(s.last()) {
        trim_nul_spec(s.drop_last())
    } else {
        s
    }
}

/// Whitespace trimmed at both ends, then trailing NULs removed.
pub open spec fn clean_name_spec(s: Seq<char>) -> Seq<char> {
    trim_nul_spec(trim_end_spec(trim_start_spec(s)))
}

fn char_is_whitespace(c: char) -> (r: bool)
    ensures
        r == is_whitespace(c),
{
    let u = c as u32;
    (0x09 <= u && u <= 0x0d) || u == 0x20 || u == 0x85 || u == 0xa0 || u == 0x1680 || (0x2000
        <= u && u <= 0x200a) || u == 0x2028 || u == 0x2029 || u == 0x202f || u == 0x205f || u
        == 0x3000
}

/// Relies on `String::push`: appends one char at the end.
#[verifier::external_body]
pub(crate) fn push_char(s: &mut String, c: char)
    ensures
        final(s)@ == old(s)@.push(c),
{
    s.push(c)
}

/// The bytes `b[from..to]` as text, each byte taken as the char of the same
/// code point.
pub fn latin1_string(b: &[u8], from: usize, to: usize) -> (r: String)
    requires
        from <= to <= b@.len(),
    ensures
        r@ == b@.subrange(from as int, to as int).map_values(|c: u8| c as char),
{
    let mut r = String::new();
    let mut i = from;
    while i < to
        invariant
            from <= i <= to <= b@.len(),
            r@ == b@.subrange(from as int, i as int).map_values(|c: u8| c as char),
        decreases to - i,
    {
        push_char(&mut r, b[i] as char);
        assert(b@.subrange(from as int, i + 1).map_values(|c: u8| c as char) =~= b@.subrange(
            from as int,
            i as int,
        ).map_values(|c: u8| c as char).push(b@[i as int] as char));
        i = i + 1;
    }
    r
}

/// Removes surrounding whitespace and trailing NULs from a name.
pub fn clean_name(s: &str) -> (r: String)
    ensures
        r@ == clean_name_spec(s@),
{
    let len = s.unicode_len();
    let ghost v = s@;
    let mut start: usize = 0;
    assert(v.subrange(0, len as int) =~= v);
    while start < len && char_is_whitespace(s.get_char(start))
        invariant
            len == v.len(),
            v == s@,
            start <= len,
            trim_start_spec(v.subrange(start as int, len as int)) == trim_start_spec(v),
        decreases len - start,
    {
        assert(v.subrange(start as int, len as int).drop_first() =~= v.subrange(
            start + 1,
            len as int,
        ));
        start = start + 1;
    }
    let ghost t = trim_start_spec(v);
    assert(t == v.subrange(start as int, len as int));
    let mut end: usize = len;
    while end > start && char_is_whitespace(s.get_char(end - 1))
        invariant
            len == v.len(),
            v == s@,
            start <= end <= len,
            t == v.subrange(start as int, len as int),
            trim_end_spec(v.subrange(start as int, end as int)) == trim_end_spec(t),
        decreases end,
    {
        assert(v.subrange(start as int, end as int).drop_last() =~= v.subrange(
            start as int,
            end - 1,
        ));
        end = end - 1;
    }
    let ghost u = trim_end_spec(t);
    assert(u == v.subrange(start as int, end as int));
    while end > start && s.get_char(end - 1) as u32 == 0
        invariant
            len == v.len(),
            v == s@,
            start <= end <= len,
            u == trim_end_spec(t),
            trim_nul_spec(v.subrange(start as int, end as int)) == trim_nul_spec(u),
        decreases end,
    {
        assert(v.subrange(start as int, end as int).drop_last() =~= v.subrange(
            start as int,
            end - 1,
        ));
        end = end - 1;
    }
    assert(trim_nul_spec(u) == v.subrange(start as int, end as int));
    assert(clean_name_spec(v) == trim_nul_spec(u));
    String::from_str(s.substring_char(start, end))
}

} // verus!
