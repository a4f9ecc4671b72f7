//! Readings as histogram keys, and the pass summary of a histogram.
//!
//! A reading is an IEEE-754 single. The library never handles it as a float:
//! it takes the reading's bit pattern and turns it into a key whose unsigned
//! order is the float's total order (negative values below positive ones,
//! `-0.0` equal to `+0.0`, every NaN equal to every other and above all
//! numbers).
use vstd::prelude::*;

verus! {

/// Key of the default lower pass bound, 35.8 °C.
pub const DEFAULT_LOWER_KEY: u32 = 0xc20f3333;

/// Key of the default upper pass bound, 36.2 °C.
pub const DEFAULT_UPPER_KEY: u32 = 0xc210cccd;

/// Key of every NaN.
pub const NAN_KEY: u32 = 0xffff_ffff;

/// Bit pattern that a NaN key converts back to.
pub const CANONICAL_NAN_BITS: u32 = 0x7fc0_0000;

pub const SIGN_BIT: u32 = 0x8000_0000;

pub const INFINITY_BITS: u32 = 0x7f80_0000;

pub open spec fn is_nan_bits(bits: u32) -> bool {
    bits % SIGN_BIT > INFINITY_BITS
}

pub open spec fn reading_key_spec(bits: u32) -> u32 {
    if is_nan_bits(bits) {
        NAN_KEY
    } else if bits == SIGN_BIT {
        SIGN_BIT
    } else if bits >= SIGN_BIT {
        (0xffff_ffff - bits) as u32
    } else {
        (bits + SIGN_BIT) as u32
    }
}

pub open spec fn reading_bits_spec(key: u32) -> u32 {
    if key == NAN_KEY {
        CANONICAL_NAN_BITS
    } else if key >= SIGN_BIT {
        (key - SIGN_BIT) as u32
    } else {
        (0xffff_ffff - key) as u32
    }
}

/// The histogram key of a reading given by its bit pattern.
pub fn reading_key(bits: u32) -> (r: u32)
    ensures
        r == reading_key_spec(bits),
{
    if bits % SIGN_BIT > INFINITY_BITS {
        NAN_KEY
    } else if bits == SIGN_BIT {
        SIGN_BIT
    } else if bits >= SIGN_BIT {
        0xffff_ffff - bits
    } else {
        bits + SIGN_BIT
    }
}

/// The bit pattern of the reading a key stands for.
pub fn reading_bits(key: u32) -> (r: u32)
    ensures
        r == reading_bits_spec(key),
{
    if key == NAN_KEY {
        CANONICAL_NAN_BITS
    } else if key >= SIGN_BIT {
        key - SIGN_BIT
    } else {
        0xffff_ffff - key
    }
}

/// A reading survives the trip through its key unless it is a NaN (which
/// comes back as the canonical NaN) or negative zero (which comes back as
/// positive zero).
pub proof fn lemma_key_round_trip(bits: u32)
    ensures
        !is_nan_bits(bits) && bits != SIGN_BIT ==> reading_bits_spec(reading_key_spec(bits))
            == bits,
        is_nan_bits(bits) ==> reading_bits_spec(reading_key_spec(bits)) == CANONICAL_NAN_BITS,
        bits == SIGN_BIT ==> reading_bits_spec(reading_key_spec(bits)) == 0,
{
}

/// Sum of the counts of a histogram.
pub open spec fn total(s: Seq<(u32, u64)>) -> nat
    decreases s.len(),
{
    if s.len() == 0 {
        0
    } else {
        total(s.drop_last()) + s.last().1 as nat
    }
}

pub open spec fn passes(key: u32, lower: u32, upper: u32) -> bool {
    lower < key < upper
}

/// Sum of the counts of the readings strictly between the bounds.
pub open spec fn passing(s: Seq<(u32, u64)>, lower: u32, upper: u32) -> nat
    decreases s.len(),
{
    if s.len() == 0 {
        0
    } else {
        passing(s.drop_last(), lower, upper) + if passes(s.last().0, lower, upper) {
            s.last().1 as nat
        } else {
            0
        }
    }
}

/// Integer-truncated percentage of passing iterations; zero for none.
pub open spec fn pass_percent_spec(passing: nat, iterations: nat) -> nat {
    if iterations == 0 {
        0
    } else {
        passing * 100 / iterations
    }
}

/// What a histogram sums up to against a pair of bounds.
#[derive(PartialEq, Eq, Structural, Clone, Copy, Debug)]
pub struct PassSummary {
    pub iterations: u64,
    pub passing: u64,
    pub pass_percent: u64,
}

proof fn lemma_passing_le_total(s: Seq<(u32, u64)>, lower: u32, upper: u32)
    ensures
        passing(s, lower, upper) <= total(s),
    decreases s.len(),
{
    if s.len() > 0 {
        lemma_passing_le_total(s.drop_last(), lower, upper);
    }
}

/// Counts the iterations of a histogram, those whose reading passes
/// (strictly between `lower` and `upper`, both given as keys), and the
/// truncated pass percentage.
pub fn summarize(counts: &Vec<(u32, u64)>, lower: u32, upper: u32) -> (r: PassSummary)
    requires
        total(counts@) <= u64::MAX,
    ensures
        r.iterations == total(counts@),
        r.passing == passing(counts@, lower, upper),
        r.pass_percent == pass_percent_spec(r.passing as nat, r.iterations as nat),
{
    let mut iterations: u64 = 0;
    let mut pass: u64 = 0;
    let mut i: usize = 0;
    while i < counts.len()
        invariant
            i <= counts@.len(),
            total(counts@) <= u64::MAX,
            iterations == total(counts@.subrange(0, i as int)),
            pass == passing(counts@.subrange(0, i as int), lower, upper),
        decreases counts@.len() - i,
    {
        let (key, count) = counts[i];
        assert(counts@.subrange(0, i + 1).drop_last() =~= counts@.subrange(0, i as int));
        proof {
            lemma_total_prefix(counts@, i + 1);
            lemma_passing_le_total(counts@.subrange(0, i + 1), lower, upper);
        }
        iterations = iterations + count;
        if lower < key && key < upper {
            pass = pass + count;
        }
        i = i + 1;
    }
    assert(counts@.subrange(0, i as int) =~= counts@);
    let pass_percent: u64 = if iterations == 0 {
        0
    } else {
        proof {
            lemma_passing_le_total(counts@, lower, upper);
        }
        assert(pass as int * 100 / iterations as int <= 100) by (nonlinear_arith)
            requires
                pass <= iterations,
                iterations > 0,
        ;
        ((pass as u128 * 100) / iterations as u128) as u64
    };
    PassSummary { iterations, passing: pass, pass_percent }
}

/// A prefix of a histogram sums to no more than the whole.
pub proof fn lemma_total_prefix(s: Seq<(u32, u64)>, n: int)
    requires
        0 <= n <= s.len(),
    ensures
        total(s.subrange(0, n)) <= total(s),
    decreases s.len(),
{
    if n < s.len() {
        assert(s.drop_last().subrange(0, n) =~= s.subrange(0, n));
        lemma_total_prefix(s.drop_last(), n);
    } else {
        assert(s.subrange(0, n) =~= s);
    }
}

} // verus!
