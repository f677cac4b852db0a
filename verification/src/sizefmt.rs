use vstd::prelude::*;
use vstd::arithmetic::div_mod::lemma_div_nonincreasing;

verus! {

/// One kibibyte: the unit step of the human-readable size scale.
pub const KB: u64 = 1024;

/// One mebibyte.
pub const MB: u64 = 1048576;

/// One gibibyte.
pub const GB: u64 = 1073741824;

/// Decimal digits of `n` as ASCII bytes, most significant first.
pub open spec fn spec_digits(n: nat) -> Seq<u8>
    decreases n,
{
    if n < 10 {
        seq![(48 + n) as u8]
    } else {
        spec_digits(n / 10).push((48 + n % 10) as u8)
    }
}

/// `n / d` rounded to the nearest integer, ties going to the even neighbour
/// (the rounding that fixed-precision decimal formatting uses).
pub open spec fn spec_round_half_even(n: int, d: int) -> int
    recommends
        d > 0,
{
    let q = n / d;
    let r = n % d;
    if 2 * r < d {
        q
    } else if 2 * r > d {
        q + 1
    } else if q % 2 == 0 {
        q
    } else {
        q + 1
    }
}

/// `v` tenths rendered with one decimal place, e.g. 20 tenths as "2.0".
pub open spec fn spec_one_decimal(v: nat) -> Seq<u8> {
    spec_digits(v / 10).push(46u8).push((48 + v % 10) as u8)
}

/// `v` hundredths rendered with two decimal places, e.g. 300 as "3.00".
pub open spec fn spec_two_decimals(v: nat) -> Seq<u8> {
    spec_digits(v / 100).push(46u8).push((48 + (v / 10) % 10) as u8).push((48 + v % 10) as u8)
}

/// What `format_size` returns: a pure function of the byte count alone.
/// Below one KB the exact count with unit "B"; up to one GB the scaled value
/// with one decimal place and "KB" or "MB"; from one GB on two decimal
/// places and "GB".
pub open spec fn spec_format_size(bytes: u64) -> Seq<u8> {
    if bytes < KB {
        spec_digits(bytes as nat) + seq![32u8, 66u8]
    } else if bytes < MB {
        spec_one_decimal(spec_round_half_even(10 * bytes as int, KB as int) as nat) + seq![
            32u8,
            75u8,
            66u8,
        ]
    } else if bytes < GB {
        spec_one_decimal(spec_round_half_even(10 * bytes as int, MB as int) as nat) + seq![
            32u8,
            77u8,
            66u8,
        ]
    } else {
        spec_two_decimals(spec_round_half_even(100 * bytes as int, GB as int) as nat) + seq![
            32u8,
            71u8,
            66u8,
        ]
    }
}

/// Decimal digits of `n`, most significant first.
pub fn digits(n: u64) -> (r: Vec<u8>)
    ensures
        r@ == spec_digits(n as nat),
    decreases n,
{
    let d: u8 = (n % 10) as u8;
    if n < 10 {
        let mut v: Vec<u8> = Vec::new();
        v.push(48 + d);
        proof {
            assert(v@ =~= spec_digits(n as nat));
        }
        v
    } else {
        let mut v = digits(n / 10);
        v.push(48 + d);
        proof {
            assert(v@ =~= spec_digits(n as nat));
        }
        v
    }
}

/// `n / d` rounded to the nearest integer, ties to even.
fn round_half_even(n: u128, d: u128) -> (r: u128)
    requires
        0 < d <= u64::MAX as u128,
        n < u128::MAX - 1,
    ensures
        r == spec_round_half_even(n as int, d as int),
{
    proof {
        lemma_div_nonincreasing(n as int, d as int);
    }
    let q: u128 = n / d;
    let rem: u128 = n % d;
    if 2 * rem < d {
        q
    } else if 2 * rem > d {
        q + 1
    } else if q % 2 == 0 {
        q
    } else {
        q + 1
    }
}

/// Format a byte count for display, like `ls -lh`: "500 B", "2.0 KB",
/// "5.0 MB", "3.00 GB".
pub fn format_size(bytes: u64) -> (r: Vec<u8>)
    ensures
        r@ == spec_format_size(bytes),
{
    if bytes < KB {
        let mut v = digits(bytes);
        v.push(32);
        v.push(66);
        proof {
            assert(v@ =~= spec_format_size(bytes));
        }
        v
    } else if bytes < MB {
        let t: u128 = round_half_even(10 * (bytes as u128), KB as u128);
        let mut v = digits((t / 10) as u64);
        v.push(46);
        v.push(48 + (t % 10) as u8);
        v.push(32);
        v.push(75);
        v.push(66);
        proof {
            assert(v@ =~= spec_format_size(bytes));
        }
        v
    } else if bytes < GB {
        let t: u128 = round_half_even(10 * (bytes as u128), MB as u128);
        let mut v = digits((t / 10) as u64);
        v.push(46);
        v.push(48 + (t % 10) as u8);
        v.push(32);
        v.push(77);
        v.push(66);
        proof {
            assert(v@ =~= spec_format_size(bytes));
        }
        v
    } else {
        let t: u128 = round_half_even(100 * (bytes as u128), GB as u128);
        let mut v = digits((t / 100) as u64);
        v.push(46);
        v.push(48 + ((t / 10) % 10) as u8);
        v.push(48 + (t % 10) as u8);
        v.push(32);
        v.push(71);
        v.push(66);
        proof {
            assert(v@ =~= spec_format_size(bytes));
        }
        v
    }
}

} // verus!
