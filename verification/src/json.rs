use vstd::prelude::*;

verus! {

broadcast use {
    vstd::seq::axiom_seq_index_decreases,
    vstd::std_specs::vec::axiom_vec_decreases_to_view,
    vstd::std_specs::vec::axiom_vec_index_decreases,
};

/// Mathematical JSON values: what the byte-level grammar below denotes.
/// Numbers are kept as a sign and the magnitude's integer part, saturated at
/// `u64::MAX`; the service reports sizes and counts, for which this is exact.
pub enum SpecJson {
    Null,
    Bool { value: bool },
    Num { neg: bool, mag: u64 },
    Str { bytes: Seq<u8> },
    Arr { items: Seq<SpecJson> },
    Obj { members: Seq<(Seq<u8>, SpecJson)> },
}

/// Executable JSON values, mirroring `SpecJson`. String contents are the
/// decoded UTF-8 bytes; object members keep their textual order.
pub enum Json {
    Null,
    Bool { value: bool },
    Num { neg: bool, mag: u64 },
    Str { bytes: Vec<u8> },
    Arr { items: Vec<Json> },
    Obj { members: Vec<(Vec<u8>, Json)> },
}

impl Json {
    /// The mathematical value of this node.
    pub open spec fn deep(&self) -> SpecJson
        decreases self,
        via Json::deep_dec
    {
        match self {
            Json::Null => SpecJson::Null,
            Json::Bool { value } => SpecJson::Bool { value: *value },
            Json::Num { neg, mag } => SpecJson::Num { neg: *neg, mag: *mag },
            Json::Str { bytes } => SpecJson::Str { bytes: bytes@ },
            Json::Arr { items } => SpecJson::Arr { items: deep_seq_of(items@) },
            Json::Obj { members } => SpecJson::Obj { members: deep_members_of(members@) },
        }
    }

    #[via_fn]
    proof fn deep_dec(&self) {
        match self {
            Json::Arr { items } => {
                assert(decreases_to!(items => items@));
            },
            Json::Obj { members } => {
                assert(decreases_to!(members => members@));
            },
            _ => {},
        }
    }
}

/// The mathematical values of a sequence of nodes.
pub open spec fn deep_seq_of(s: Seq<Json>) -> Seq<SpecJson>
    decreases s,
{
    if s.len() == 0 {
        Seq::empty()
    } else {
        deep_seq_of(s.drop_last()).push(s.last().deep())
    }
}

/// The mathematical values of a sequence of object members.
pub open spec fn deep_members_of(s: Seq<(Vec<u8>, Json)>) -> Seq<(Seq<u8>, SpecJson)>
    decreases s,
{
    if s.len() == 0 {
        Seq::empty()
    } else {
        deep_members_of(s.drop_last()).push((s.last().0@, s.last().1.deep()))
    }
}

/// `deep_seq_of`, element by element.
pub proof fn lemma_deep_seq_of(s: Seq<Json>)
    ensures
        deep_seq_of(s).len() == s.len(),
        forall|k: int| 0 <= k < s.len() ==> deep_seq_of(s)[k] == s[k].deep(),
    decreases s.len(),
{
    if s.len() > 0 {
        lemma_deep_seq_of(s.drop_last());
    }
}

/// `deep_members_of`, element by element.
pub proof fn lemma_deep_members_of(s: Seq<(Vec<u8>, Json)>)
    ensures
        deep_members_of(s).len() == s.len(),
        forall|k: int|
            0 <= k < s.len() ==> deep_members_of(s)[k] == (s[k].0@, s[k].1.deep()),
    decreases s.len(),
{
    if s.len() > 0 {
        lemma_deep_members_of(s.drop_last());
    }
}

/// Input length bound under which all position arithmetic below stays well
/// inside `usize`.
pub const MAX_INPUT: usize = 0x1000_0000;

// ---------------------------------------------------------------------
// Character classes
// ---------------------------------------------------------------------

/// JSON insignificant whitespace: space, tab, line feed, carriage return.
pub open spec fn is_ws(b: u8) -> bool {
    b == 32 || b == 9 || b == 10 || b == 13
}

/// ASCII decimal digit.
pub open spec fn is_digit(b: u8) -> bool {
    48 <= b <= 57
}

/// ASCII hexadecimal digit.
pub open spec fn is_hex_digit(b: u8) -> bool {
    (48 <= b <= 57) || (97 <= b <= 102) || (65 <= b <= 70)
}

/// Value of a hexadecimal digit (0 for other bytes).
pub open spec fn hex_digit_val(b: u8) -> u32 {
    if 48 <= b <= 57 {
        (b - 48) as u32
    } else if 97 <= b <= 102 {
        (b - 87) as u32
    } else if 65 <= b <= 70 {
        (b - 55) as u32
    } else {
        0
    }
}

// ---------------------------------------------------------------------
// Whitespace
// ---------------------------------------------------------------------

/// Position of the first non-whitespace byte at or after `i`.
pub open spec fn spec_skip_ws(s: Seq<u8>, i: int) -> int
    recommends
        0 <= i <= s.len(),
    decreases s.len() - i,
{
    if 0 <= i < s.len() && is_ws(s[i]) {
        spec_skip_ws(s, i + 1)
    } else {
        i
    }
}

fn skip_ws(s: &Vec<u8>, i: usize) -> (r: usize)
    requires
        i <= s.len(),
    ensures
        r == spec_skip_ws(s@, i as int),
        i <= r <= s.len(),
    decreases s.len() - i,
{
    if i < s.len() && (s[i] == 32 || s[i] == 9 || s[i] == 10 || s[i] == 13) {
        skip_ws(s, i + 1)
    } else {
        i
    }
}

// ---------------------------------------------------------------------
// Strings
// ---------------------------------------------------------------------

/// Whether four hexadecimal digits stand at `i`.
pub open spec fn hex4_ok(s: Seq<u8>, i: int) -> bool {
    i + 4 <= s.len() && is_hex_digit(s[i]) && is_hex_digit(s[i + 1]) && is_hex_digit(s[i + 2])
        && is_hex_digit(s[i + 3])
}

/// The value of the four hexadecimal digits at `i`.
pub open spec fn hex4_val(s: Seq<u8>, i: int) -> u32 {
    (4096 * hex_digit_val(s[i]) + 256 * hex_digit_val(s[i + 1]) + 16 * hex_digit_val(s[i + 2])
        + hex_digit_val(s[i + 3])) as u32
}

/// UTF-8 encoding of a Unicode scalar value.
pub open spec fn spec_utf8_enc(cp: u32) -> Seq<u8>
    recommends
        cp < 0x110000,
{
    if cp < 0x80 {
        seq![cp as u8]
    } else if cp < 0x800 {
        seq![(192 + cp / 64) as u8, (128 + cp % 64) as u8]
    } else if cp < 0x10000 {
        seq![(224 + cp / 4096) as u8, (128 + (cp / 64) % 64) as u8, (128 + cp % 64) as u8]
    } else {
        seq![
            (240 + cp / 262144) as u8,
            (128 + (cp / 4096) % 64) as u8,
            (128 + (cp / 64) % 64) as u8,
            (128 + cp % 64) as u8,
        ]
    }
}

/// String body after the opening quote: content accumulated in `acc`,
/// escapes decoded, finished by an unescaped quote. Unescaped control
/// bytes, bad escapes and lone surrogates are malformed.
pub open spec fn spec_str_body(s: Seq<u8>, i: int, acc: Seq<u8>) -> Option<(Seq<u8>, int)>
    recommends
        0 <= i,
    decreases s.len() - i,
{
    if i >= s.len() {
        None
    } else {
        let c = s[i];
        if c == 34 {
            Some((acc, i + 1))
        } else if c == 92 {
            if i + 1 >= s.len() {
                None
            } else {
                let e = s[i + 1];
                if e == 34 {
                    spec_str_body(s, i + 2, acc.push(34))
                } else if e == 92 {
                    spec_str_body(s, i + 2, acc.push(92))
                } else if e == 47 {
                    spec_str_body(s, i + 2, acc.push(47))
                } else if e == 98 {
                    spec_str_body(s, i + 2, acc.push(8))
                } else if e == 102 {
                    spec_str_body(s, i + 2, acc.push(12))
                } else if e == 110 {
                    spec_str_body(s, i + 2, acc.push(10))
                } else if e == 114 {
                    spec_str_body(s, i + 2, acc.push(13))
                } else if e == 116 {
                    spec_str_body(s, i + 2, acc.push(9))
                } else if e == 117 {
                    if hex4_ok(s, i + 2) {
                        let u = hex4_val(s, i + 2);
                        if u < 0xD800 || u >= 0xE000 {
                            spec_str_body(s, i + 6, acc + spec_utf8_enc(u))
                        } else if u < 0xDC00 {
                            if i + 12 <= s.len() && s[i + 6] == 92 && s[i + 7] == 117 && hex4_ok(
                                s,
                                i + 8,
                            ) {
                                let u2 = hex4_val(s, i + 8);
                                if 0xDC00 <= u2 < 0xE000 {
                                    let cp = (0x10000 + (u - 0xD800) * 1024 + (u2 - 0xDC00)) as u32;
                                    spec_str_body(s, i + 12, acc + spec_utf8_enc(cp))
                                } else {
                                    None
                                }
                            } else {
                                None
                            }
                        } else {
                            None
                        }
                    } else {
                        None
                    }
                } else {
                    None
                }
            }
        } else if c < 32 {
            None
        } else {
            spec_str_body(s, i + 1, acc.push(c))
        }
    }
}

/// A JSON string at `i`: an opening quote, a body, a closing quote.
pub open spec fn spec_string(s: Seq<u8>, i: int) -> Option<(Seq<u8>, int)> {
    if 0 <= i < s.len() && s[i] == 34 {
        spec_str_body(s, i + 1, Seq::empty())
    } else {
        None
    }
}

/// Whether an executable string parse agrees with the grammar.
pub open spec fn str_matches(r: Option<(Vec<u8>, usize)>, sp: Option<(Seq<u8>, int)>) -> bool {
    match (r, sp) {
        (Option::Some(p), Option::Some(q)) => p.0@ == q.0 && p.1 as int == q.1,
        (Option::None, Option::None) => true,
        _ => false,
    }
}

fn hex4(s: &Vec<u8>, i: usize) -> (r: Option<u32>)
    requires
        i <= s.len(),
        s.len() <= MAX_INPUT,
    ensures
        hex4_ok(s@, i as int) ==> r == Some(hex4_val(s@, i as int)),
        !hex4_ok(s@, i as int) ==> r is None,
        r is Some ==> r->0 < 0x10000,
{
    if i + 4 <= s.len() {
        let b0 = s[i];
        let b1 = s[i + 1];
        let b2 = s[i + 2];
        let b3 = s[i + 3];
        match (hex_val(b0), hex_val(b1), hex_val(b2), hex_val(b3)) {
            (Some(h0), Some(h1), Some(h2), Some(h3)) => Some(4096 * h0 + 256 * h1 + 16 * h2 + h3),
            _ => None,
        }
    } else {
        None
    }
}

fn hex_val(b: u8) -> (r: Option<u32>)
    ensures
        is_hex_digit(b) ==> r == Some(hex_digit_val(b)),
        !is_hex_digit(b) ==> r is None,
{
    if 48 <= b && b <= 57 {
        Some((b - 48) as u32)
    } else if 97 <= b && b <= 102 {
        Some((b - 87) as u32)
    } else if 65 <= b && b <= 70 {
        Some((b - 55) as u32)
    } else {
        None
    }
}

/// Append the UTF-8 encoding of `cp` to `acc`.
fn utf8_enc_push(acc: &mut Vec<u8>, cp: u32)
    requires
        cp < 0x110000,
    ensures
        final(acc)@ == old(acc)@ + spec_utf8_enc(cp),
{
    if cp < 0x80 {
        acc.push(cp as u8);
    } else if cp < 0x800 {
        acc.push((192 + cp / 64) as u8);
        acc.push((128 + cp % 64) as u8);
    } else if cp < 0x10000 {
        acc.push((224 + cp / 4096) as u8);
        acc.push((128 + (cp / 64) % 64) as u8);
        acc.push((128 + cp % 64) as u8);
    } else {
        acc.push((240 + cp / 262144) as u8);
        acc.push((128 + (cp / 4096) % 64) as u8);
        acc.push((128 + (cp / 64) % 64) as u8);
        acc.push((128 + cp % 64) as u8);
    }
    proof {
        assert(final(acc)@ =~= old(acc)@ + spec_utf8_enc(cp));
    }
}

fn str_body(s: &Vec<u8>, i: usize, acc: Vec<u8>) -> (r: Option<(Vec<u8>, usize)>)
    requires
        i <= s.len(),
        s.len() <= MAX_INPUT,
    ensures
        str_matches(r, spec_str_body(s@, i as int, acc@)),
        r matches Some(p) ==> p.1 <= s.len(),
    decreases s.len() - i,
{
    if i >= s.len() {
        None
    } else {
        let c = s[i];
        if c == 34 {
            Some((acc, i + 1))
        } else if c == 92 {
            if i + 1 >= s.len() {
                None
            } else {
                let e = s[i + 1];
                if e == 34 || e == 92 || e == 47 {
                    let mut acc2 = acc;
                    acc2.push(e);
                    str_body(s, i + 2, acc2)
                } else if e == 98 {
                    let mut acc2 = acc;
                    acc2.push(8);
                    str_body(s, i + 2, acc2)
                } else if e == 102 {
                    let mut acc2 = acc;
                    acc2.push(12);
                    str_body(s, i + 2, acc2)
                } else if e == 110 {
                    let mut acc2 = acc;
                    acc2.push(10);
                    str_body(s, i + 2, acc2)
                } else if e == 114 {
                    let mut acc2 = acc;
                    acc2.push(13);
                    str_body(s, i + 2, acc2)
                } else if e == 116 {
                    let mut acc2 = acc;
                    acc2.push(9);
                    str_body(s, i + 2, acc2)
                } else if e == 117 {
                    match hex4(s, i + 2) {
                        None => None,
                        Some(u) => {
                            if u < 0xD800 || u >= 0xE000 {
                                let mut acc2 = acc;
                                utf8_enc_push(&mut acc2, u);
                                str_body(s, i + 6, acc2)
                            } else if u < 0xDC00 {
                                if i + 12 <= s.len() && s[i + 6] == 92 && s[i + 7] == 117 {
                                    match hex4(s, i + 8) {
                                        None => None,
                                        Some(u2) => {
                                            if 0xDC00 <= u2 && u2 < 0xE000 {
                                                let cp: u32 = 0x10000 + (u - 0xD800) * 1024 + (u2
                                                    - 0xDC00);
                                                let mut acc2 = acc;
                                                utf8_enc_push(&mut acc2, cp);
                                                str_body(s, i + 12, acc2)
                                            } else {
                                                None
                                            }
                                        },
                                    }
                                } else {
                                    None
                                }
                            } else {
                                None
                            }
                        },
                    }
                } else {
                    None
                }
            }
        } else if c < 32 {
            None
        } else {
            let mut acc2 = acc;
            acc2.push(c);
            str_body(s, i + 1, acc2)
        }
    }
}

fn parse_string(s: &Vec<u8>, i: usize) -> (r: Option<(Vec<u8>, usize)>)
    requires
        i <= s.len(),
        s.len() <= MAX_INPUT,
    ensures
        str_matches(r, spec_string(s@, i as int)),
        r matches Some(p) ==> p.1 <= s.len(),
{
    if i < s.len() && s[i] == 34 {
        let acc: Vec<u8> = Vec::new();
        proof {
            assert(acc@ =~= Seq::<u8>::empty());
        }
        str_body(s, i + 1, acc)
    } else {
        None
    }
}

// ---------------------------------------------------------------------
// Numbers
// ---------------------------------------------------------------------

/// Position of the first non-digit byte at or after `i`.
pub open spec fn spec_digits_end(s: Seq<u8>, i: int) -> int
    recommends
        0 <= i <= s.len(),
    decreases s.len() - i,
{
    if 0 <= i < s.len() && is_digit(s[i]) {
        spec_digits_end(s, i + 1)
    } else {
        i
    }
}

/// The digit values (0 to 9) of the digit run `s[i .. j)`.
pub open spec fn digit_vals(s: Seq<u8>, i: int, j: int) -> Seq<u8> {
    Seq::new((j - i) as nat, |k: int| (s[i + k] - 48) as u8)
}

/// Number of leading zero digit values from position `i` on.
pub open spec fn lead_zeros(t: Seq<u8>, i: int) -> int
    recommends
        0 <= i <= t.len(),
    decreases t.len() - i,
{
    if 0 <= i < t.len() && t[i] == 0 {
        lead_zeros(t, i + 1)
    } else {
        i
    }
}

/// One decimal accumulation step, saturating at `u64::MAX`.
pub open spec fn sat10(acc: u64, d: u8) -> u64 {
    if 10 * acc + d > u64::MAX {
        u64::MAX
    } else {
        (10 * acc + d) as u64
    }
}

/// Saturating value of the digit positions `idx .. point` of `t`, positions
/// past the end of `t` counting as zeros.
pub open spec fn sat_digits(t: Seq<u8>, idx: int, point: int, acc: u64) -> u64
    decreases point - idx,
{
    if idx >= point {
        acc
    } else {
        sat_digits(
            t,
            idx + 1,
            point,
            sat10(
                acc,
                if 0 <= idx < t.len() {
                    t[idx]
                } else {
                    0
                },
            ),
        )
    }
}

/// The magnitude a decimal literal denotes: the integer part of
/// digits `id`, fraction digits `fd`, decimal exponent `e`, saturated at
/// `u64::MAX`. With the digit string stripped of leading zeros, `point` is
/// how many of its digits stand left of the decimal point once the exponent
/// is applied; at most 20 digit positions ever matter for a `u64`.
pub open spec fn spec_num_mag(id: Seq<u8>, fd: Seq<u8>, e: int) -> u64 {
    let total = id + fd;
    let k = lead_zeros(total, 0);
    let point = id.len() + e - k;
    if point <= 0 {
        0
    } else if point > 20 {
        if k == total.len() {
            0
        } else {
            u64::MAX
        }
    } else {
        sat_digits(total.subrange(k, total.len() as int), 0, point, 0)
    }
}

/// One decimal accumulation step for an exponent, clamped at one million.
pub open spec fn sat_cap(acc: u32, d: u8) -> u32 {
    if 10 * acc + d > 1000000 {
        1000000
    } else {
        (10 * acc + d) as u32
    }
}

/// Clamped value of the exponent digit run `s[i .. j)`.
pub open spec fn spec_exp_digits(s: Seq<u8>, i: int, j: int, acc: u32) -> u32
    decreases j - i,
{
    if i >= j {
        acc
    } else {
        spec_exp_digits(
            s,
            i + 1,
            j,
            sat_cap(
                acc,
                if 0 <= i < s.len() && s[i] >= 48 {
                    (s[i] - 48) as u8
                } else {
                    0
                },
            ),
        )
    }
}

/// Optional fraction part at `i`: a point followed by at least one digit,
/// or nothing.
pub open spec fn spec_frac(s: Seq<u8>, i: int) -> Option<(Seq<u8>, int)> {
    if 0 <= i < s.len() && s[i] == 46 {
        let j = spec_digits_end(s, i + 1);
        if j == i + 1 {
            None
        } else {
            Some((digit_vals(s, i + 1, j), j))
        }
    } else {
        Some((Seq::empty(), i))
    }
}

/// Optional exponent part at `i`: `e` or `E`, an optional sign, and at
/// least one digit; or nothing.
pub open spec fn spec_exp(s: Seq<u8>, i: int) -> Option<(int, int)> {
    if 0 <= i < s.len() && (s[i] == 101 || s[i] == 69) {
        let nege = i + 1 < s.len() && s[i + 1] == 45;
        let signed = i + 1 < s.len() && (s[i + 1] == 45 || s[i + 1] == 43);
        let i1 = if signed {
            i + 2
        } else {
            i + 1
        };
        let j = spec_digits_end(s, i1);
        if j == i1 {
            None
        } else {
            let ev = spec_exp_digits(s, i1, j, 0) as int;
            Some(
                (
                    if nege {
                        -ev
                    } else {
                        ev
                    },
                    j,
                ),
            )
        }
    } else {
        Some((0, i))
    }
}

/// A JSON number at `i`: optional minus, integer digits, optional fraction,
/// optional exponent. Its value is the sign and the saturated magnitude of
/// its integer part.
pub open spec fn spec_number(s: Seq<u8>, i: int) -> Option<((bool, u64), int)> {
    let neg = 0 <= i < s.len() && s[i] == 45;
    let i0 = if neg {
        i + 1
    } else {
        i
    };
    let i1 = spec_digits_end(s, i0);
    if i1 == i0 {
        None
    } else {
        match spec_frac(s, i1) {
            None => None,
            Some(fr) => match spec_exp(s, fr.1) {
                None => None,
                Some(ex) => Some(
                    ((neg, spec_num_mag(digit_vals(s, i0, i1), fr.0, ex.0)), ex.1),
                ),
            },
        }
    }
}

/// Whether an executable number parse agrees with the grammar.
pub open spec fn num_matches(
    r: Option<((bool, u64), usize)>,
    sp: Option<((bool, u64), int)>,
) -> bool {
    match (r, sp) {
        (Option::Some(p), Option::Some(q)) => p.0 == q.0 && p.1 as int == q.1,
        (Option::None, Option::None) => true,
        _ => false,
    }
}

fn digits_end(s: &Vec<u8>, i: usize) -> (r: usize)
    requires
        i <= s.len(),
    ensures
        r == spec_digits_end(s@, i as int),
        i <= r <= s.len(),
        forall|k: int| i <= k < r ==> is_digit(s@[k]),
    decreases s.len() - i,
{
    if i < s.len() && 48 <= s[i] && s[i] <= 57 {
        digits_end(s, i + 1)
    } else {
        i
    }
}

fn digit_vals_vec(s: &Vec<u8>, i: usize, j: usize) -> (r: Vec<u8>)
    requires
        i <= j <= s.len(),
        forall|k: int| i <= k < j ==> is_digit(s@[k]),
    ensures
        r@ == digit_vals(s@, i as int, j as int),
{
    let mut r: Vec<u8> = Vec::new();
    let mut k: usize = i;
    while k < j
        invariant
            i <= k <= j <= s.len(),
            forall|m: int| i <= m < j ==> is_digit(s@[m]),
            r@ == digit_vals(s@, i as int, k as int),
        decreases j - k,
    {
        r.push(s[k] - 48);
        proof {
            assert(r@ =~= digit_vals(s@, i as int, (k + 1) as int));
        }
        k = k + 1;
    }
    proof {
        assert(r@ =~= digit_vals(s@, i as int, j as int));
    }
    r
}

fn lead_zeros_exec(t: &Vec<u8>, i: usize) -> (r: usize)
    requires
        i <= t.len(),
    ensures
        r == lead_zeros(t@, i as int),
        i <= r <= t.len(),
    decreases t.len() - i,
{
    if i < t.len() && t[i] == 0 {
        lead_zeros_exec(t, i + 1)
    } else {
        i
    }
}

fn sat10_exec(acc: u64, d: u8) -> (r: u64)
    ensures
        r == sat10(acc, d),
{
    if acc > (u64::MAX - d as u64) / 10 {
        u64::MAX
    } else {
        acc * 10 + d as u64
    }
}

fn sat_digits_exec(t: &Vec<u8>, idx: usize, point: usize, acc: u64) -> (r: u64)
    requires
        point <= 20,
    ensures
        r == sat_digits(t@, idx as int, point as int, acc),
    decreases point - idx,
{
    if idx >= point {
        acc
    } else {
        let d: u8 = if idx < t.len() {
            t[idx]
        } else {
            0
        };
        sat_digits_exec(t, idx + 1, point, sat10_exec(acc, d))
    }
}

fn exp_digits(s: &Vec<u8>, i: usize, j: usize, acc: u32) -> (r: u32)
    requires
        j <= s.len(),
        acc <= 1000000,
    ensures
        r == spec_exp_digits(s@, i as int, j as int, acc),
        r <= 1000000,
    decreases j - i,
{
    if i >= j {
        acc
    } else {
        let d: u8 = if s[i] >= 48 {
            s[i] - 48
        } else {
            0
        };
        let acc2: u32 = if acc > (1000000 - d as u32) / 10 {
            1000000
        } else {
            acc * 10 + d as u32
        };
        proof {
            assert(acc2 == sat_cap(
                acc,
                if 0 <= i < s@.len() && s@[i as int] >= 48 {
                    (s@[i as int] - 48) as u8
                } else {
                    0
                },
            ));
        }
        exp_digits(s, i + 1, j, acc2)
    }
}

fn num_mag(id: &Vec<u8>, fd: &Vec<u8>, e: i64) -> (r: u64)
    requires
        -1000000 <= e <= 1000000,
        id@.len() <= MAX_INPUT,
        fd@.len() <= MAX_INPUT,
    ensures
        r == spec_num_mag(id@, fd@, e as int),
{
    let mut total: Vec<u8> = Vec::new();
    let mut k: usize = 0;
    while k < id.len()
        invariant
            k <= id.len(),
            total@ == id@.subrange(0, k as int),
        decreases id.len() - k,
    {
        total.push(id[k]);
        proof {
            assert(total@ =~= id@.subrange(0, (k + 1) as int));
        }
        k = k + 1;
    }
    let mut k2: usize = 0;
    while k2 < fd.len()
        invariant
            k2 <= fd.len(),
            total@ == id@.subrange(0, id@.len() as int) + fd@.subrange(0, k2 as int),
        decreases fd.len() - k2,
    {
        total.push(fd[k2]);
        proof {
            assert(total@ =~= id@.subrange(0, id@.len() as int) + fd@.subrange(
                0,
                (k2 + 1) as int,
            ));
        }
        k2 = k2 + 1;
    }
    proof {
        assert(id@.subrange(0, id@.len() as int) =~= id@);
        assert(fd@.subrange(0, fd@.len() as int) =~= fd@);
        assert(total@ =~= id@ + fd@);
    }
    let kz = lead_zeros_exec(&total, 0);
    let point: i64 = id.len() as i64 + e - kz as i64;
    if point <= 0 {
        0
    } else if point > 20 {
        if kz == total.len() {
            0
        } else {
            u64::MAX
        }
    } else {
        let mut tail: Vec<u8> = Vec::new();
        let mut m: usize = kz;
        while m < total.len()
            invariant
                kz <= m <= total.len(),
                tail@ == total@.subrange(kz as int, m as int),
            decreases total.len() - m,
        {
            tail.push(total[m]);
            proof {
                assert(tail@ =~= total@.subrange(kz as int, (m + 1) as int));
            }
            m = m + 1;
        }
        sat_digits_exec(&tail, 0, point as usize, 0)
    }
}

fn parse_number(s: &Vec<u8>, i: usize) -> (r: Option<((bool, u64), usize)>)
    requires
        i <= s.len(),
        s.len() <= MAX_INPUT,
    ensures
        num_matches(r, spec_number(s@, i as int)),
        r matches Some(p) ==> p.1 <= s.len(),
{
    let neg = i < s.len() && s[i] == 45;
    let i0 = if neg {
        i + 1
    } else {
        i
    };
    let i1 = digits_end(s, i0);
    if i1 == i0 {
        return None;
    }
    let mut fd: Vec<u8> = Vec::new();
    let mut i2: usize = i1;
    if i1 < s.len() && s[i1] == 46 {
        let j = digits_end(s, i1 + 1);
        if j == i1 + 1 {
            return None;
        }
        fd = digit_vals_vec(s, i1 + 1, j);
        i2 = j;
    }
    proof {
        assert(spec_frac(s@, i1 as int) == Some((fd@, i2 as int)));
    }
    let mut e: i64 = 0;
    let mut i3: usize = i2;
    if i2 < s.len() && (s[i2] == 101 || s[i2] == 69) {
        let negee = i2 + 1 < s.len() && s[i2 + 1] == 45;
        let signed = i2 + 1 < s.len() && (s[i2 + 1] == 45 || s[i2 + 1] == 43);
        let istart = if signed {
            i2 + 2
        } else {
            i2 + 1
        };
        let j = digits_end(s, istart);
        if j == istart {
            return None;
        }
        let ev = exp_digits(s, istart, j, 0);
        e = if negee {
            -(ev as i64)
        } else {
            ev as i64
        };
        i3 = j;
    }
    proof {
        assert(spec_exp(s@, i2 as int) == Some((e as int, i3 as int)));
    }
    let id = digit_vals_vec(s, i0, i1);
    let mag = num_mag(&id, &fd, e);
    Some(((neg, mag), i3))
}

// ---------------------------------------------------------------------
// Values, arrays, objects
// ---------------------------------------------------------------------
// The mutual recursion of values, array elements and object members is
// guarded by a budget `b` that shrinks on every step into a nested value
// and on every further element or member. A document whose parse would
// need more steps than the starting budget allows is treated as malformed;
// the top-level entry point grants two steps per input byte and two more,
// and `lemma_parse_budget_insensitive` below proves that from this
// allowance on the budget no longer influences the result, so the guard
// only ever stops on malformed input.

/// A JSON value at `i` (leading whitespace allowed).
pub open spec fn spec_value(s: Seq<u8>, i: int, b: int) -> Option<(SpecJson, int)>
    decreases b, 0int,
{
    if b <= 0 {
        None
    } else {
        let j = spec_skip_ws(s, i);
        if !(0 <= j < s.len()) {
            None
        } else if s[j] == 110 {
            if j + 4 <= s.len() && s[j + 1] == 117 && s[j + 2] == 108 && s[j + 3] == 108 {
                Some((SpecJson::Null, j + 4))
            } else {
                None
            }
        } else if s[j] == 116 {
            if j + 4 <= s.len() && s[j + 1] == 114 && s[j + 2] == 117 && s[j + 3] == 101 {
                Some((SpecJson::Bool { value: true }, j + 4))
            } else {
                None
            }
        } else if s[j] == 102 {
            if j + 5 <= s.len() && s[j + 1] == 97 && s[j + 2] == 108 && s[j + 3] == 115 && s[j + 4]
                == 101 {
                Some((SpecJson::Bool { value: false }, j + 5))
            } else {
                None
            }
        } else if s[j] == 34 {
            match spec_string(s, j) {
                None => None,
                Some(p) => Some((SpecJson::Str { bytes: p.0 }, p.1)),
            }
        } else if s[j] == 91 {
            let j2 = spec_skip_ws(s, j + 1);
            if 0 <= j2 < s.len() && s[j2] == 93 {
                Some((SpecJson::Arr { items: Seq::empty() }, j2 + 1))
            } else {
                match spec_elems(s, j + 1, b - 1, Seq::empty()) {
                    None => None,
                    Some(p) => Some((SpecJson::Arr { items: p.0 }, p.1)),
                }
            }
        } else if s[j] == 123 {
            let j2 = spec_skip_ws(s, j + 1);
            if 0 <= j2 < s.len() && s[j2] == 125 {
                Some((SpecJson::Obj { members: Seq::empty() }, j2 + 1))
            } else {
                match spec_members(s, j + 1, b - 1, Seq::empty()) {
                    None => None,
                    Some(p) => Some((SpecJson::Obj { members: p.0 }, p.1)),
                }
            }
        } else if s[j] == 45 || is_digit(s[j]) {
            match spec_number(s, j) {
                None => None,
                Some(p) => Some((SpecJson::Num { neg: p.0.0, mag: p.0.1 }, p.1)),
            }
        } else {
            None
        }
    }
}

/// Array elements from `i` on, already-parsed ones in `acc`: a value, then
/// a comma and further elements or the closing bracket.
pub open spec fn spec_elems(s: Seq<u8>, i: int, b: int, acc: Seq<SpecJson>) -> Option<
    (Seq<SpecJson>, int),
>
    decreases b, 1int,
{
    if b <= 0 {
        None
    } else {
        match spec_value(s, i, b) {
            None => None,
            Some(p) => {
                let j2 = spec_skip_ws(s, p.1);
                if 0 <= j2 < s.len() && s[j2] == 44 {
                    spec_elems(s, j2 + 1, b - 1, acc.push(p.0))
                } else if 0 <= j2 < s.len() && s[j2] == 93 {
                    Some((acc.push(p.0), j2 + 1))
                } else {
                    None
                }
            },
        }
    }
}

/// Object members from `i` on, already-parsed ones in `acc`: a string key,
/// a colon, a value, then a comma and further members or the closing brace.
pub open spec fn spec_members(
    s: Seq<u8>,
    i: int,
    b: int,
    acc: Seq<(Seq<u8>, SpecJson)>,
) -> Option<(Seq<(Seq<u8>, SpecJson)>, int)>
    decreases b, 1int,
{
    if b <= 0 {
        None
    } else {
        let j = spec_skip_ws(s, i);
        match spec_string(s, j) {
            None => None,
            Some(kp) => {
                let p2 = spec_skip_ws(s, kp.1);
                if !(0 <= p2 < s.len() && s[p2] == 58) {
                    None
                } else {
                    match spec_value(s, p2 + 1, b) {
                        None => None,
                        Some(vp) => {
                            let q2 = spec_skip_ws(s, vp.1);
                            if 0 <= q2 < s.len() && s[q2] == 44 {
                                spec_members(s, q2 + 1, b - 1, acc.push((kp.0, vp.0)))
                            } else if 0 <= q2 < s.len() && s[q2] == 125 {
                                Some((acc.push((kp.0, vp.0)), q2 + 1))
                            } else {
                                None
                            }
                        },
                    }
                }
            },
        }
    }
}

/// A complete document: one value with only whitespace after it.
pub open spec fn spec_parse(s: Seq<u8>) -> Option<SpecJson> {
    match spec_value(s, 0, 2 * s.len() as int + 2) {
        None => None,
        Some(p) => if spec_skip_ws(s, p.1) == s.len() {
            Some(p.0)
        } else {
            None
        },
    }
}

/// Whether an executable value parse agrees with the grammar.
pub open spec fn node_matches(r: Option<(Json, usize)>, sp: Option<(SpecJson, int)>) -> bool {
    match (r, sp) {
        (Option::Some(p), Option::Some(q)) => p.0.deep() == q.0 && p.1 as int == q.1,
        (Option::None, Option::None) => true,
        _ => false,
    }
}

/// Whether an executable element-list parse agrees with the grammar.
pub open spec fn arr_matches(
    r: Option<(Vec<Json>, usize)>,
    sp: Option<(Seq<SpecJson>, int)>,
) -> bool {
    match (r, sp) {
        (Option::Some(p), Option::Some(q)) => deep_seq_of(p.0@) == q.0 && p.1 as int == q.1,
        (Option::None, Option::None) => true,
        _ => false,
    }
}

/// Whether an executable member-list parse agrees with the grammar.
pub open spec fn obj_matches(
    r: Option<(Vec<(Vec<u8>, Json)>, usize)>,
    sp: Option<(Seq<(Seq<u8>, SpecJson)>, int)>,
) -> bool {
    match (r, sp) {
        (Option::Some(p), Option::Some(q)) => deep_members_of(p.0@) == q.0 && p.1 as int == q.1,
        (Option::None, Option::None) => true,
        _ => false,
    }
}

/// Pushing a node extends the mathematical values by the node's value.
proof fn lemma_deep_seq_push(s: Seq<Json>, x: Json)
    ensures
        deep_seq_of(s.push(x)) == deep_seq_of(s).push(x.deep()),
{
    assert(s.push(x).drop_last() =~= s);
    assert(s.push(x).last() == x);
}

/// Pushing a member extends the mathematical members by the member's value.
proof fn lemma_deep_members_push(s: Seq<(Vec<u8>, Json)>, k: Vec<u8>, v: Json)
    ensures
        deep_members_of(s.push((k, v))) == deep_members_of(s).push((k@, v.deep())),
{
    assert(s.push((k, v)).drop_last() =~= s);
    assert(s.push((k, v)).last() == (k, v));
}

fn parse_value(s: &Vec<u8>, i: usize, b: usize) -> (r: Option<(Json, usize)>)
    requires
        i <= s.len(),
        s.len() <= MAX_INPUT,
    ensures
        node_matches(r, spec_value(s@, i as int, b as int)),
        r matches Some(p) ==> p.1 <= s.len(),
    decreases b, 0int,
{
    if b == 0 {
        None
    } else {
        let j = skip_ws(s, i);
        if !(j < s.len()) {
            None
        } else if s[j] == 110 {
            if j + 4 <= s.len() && s[j + 1] == 117 && s[j + 2] == 108 && s[j + 3] == 108 {
                Some((Json::Null, j + 4))
            } else {
                None
            }
        } else if s[j] == 116 {
            if j + 4 <= s.len() && s[j + 1] == 114 && s[j + 2] == 117 && s[j + 3] == 101 {
                Some((Json::Bool { value: true }, j + 4))
            } else {
                None
            }
        } else if s[j] == 102 {
            if j + 5 <= s.len() && s[j + 1] == 97 && s[j + 2] == 108 && s[j + 3] == 115 && s[j + 4]
                == 101 {
                Some((Json::Bool { value: false }, j + 5))
            } else {
                None
            }
        } else if s[j] == 34 {
            match parse_string(s, j) {
                None => None,
                Some((bytes, p)) => Some((Json::Str { bytes }, p)),
            }
        } else if s[j] == 91 {
            let j2 = skip_ws(s, j + 1);
            if j2 < s.len() && s[j2] == 93 {
                let items: Vec<Json> = Vec::new();
                proof {
                    assert(items@ =~= Seq::<Json>::empty());
                }
                Some((Json::Arr { items }, j2 + 1))
            } else {
                let acc: Vec<Json> = Vec::new();
                proof {
                    assert(acc@ =~= Seq::<Json>::empty());
                }
                match parse_elems(s, j + 1, b - 1, acc) {
                    None => None,
                    Some((items, p)) => Some((Json::Arr { items }, p)),
                }
            }
        } else if s[j] == 123 {
            let j2 = skip_ws(s, j + 1);
            if j2 < s.len() && s[j2] == 125 {
                let members: Vec<(Vec<u8>, Json)> = Vec::new();
                proof {
                    assert(members@ =~= Seq::<(Vec<u8>, Json)>::empty());
                }
                Some((Json::Obj { members }, j2 + 1))
            } else {
                let acc: Vec<(Vec<u8>, Json)> = Vec::new();
                proof {
                    assert(acc@ =~= Seq::<(Vec<u8>, Json)>::empty());
                }
                match parse_members(s, j + 1, b - 1, acc) {
                    None => None,
                    Some((members, p)) => Some((Json::Obj { members }, p)),
                }
            }
        } else if s[j] == 45 || (48 <= s[j] && s[j] <= 57) {
            match parse_number(s, j) {
                None => None,
                Some(((neg, mag), p)) => Some((Json::Num { neg, mag }, p)),
            }
        } else {
            None
        }
    }
}

fn parse_elems(s: &Vec<u8>, i: usize, b: usize, acc: Vec<Json>) -> (r: Option<(Vec<Json>, usize)>)
    requires
        i <= s.len(),
        s.len() <= MAX_INPUT,
    ensures
        arr_matches(r, spec_elems(s@, i as int, b as int, deep_seq_of(acc@))),
        r matches Some(p) ==> p.1 <= s.len(),
    decreases b, 1int,
{
    if b == 0 {
        None
    } else {
        match parse_value(s, i, b) {
            None => None,
            Some((v, j)) => {
                let j2 = skip_ws(s, j);
                if j2 < s.len() && s[j2] == 44 {
                    let ghost old_acc = acc@;
                    let mut acc2 = acc;
                    acc2.push(v);
                    proof {
                        lemma_deep_seq_push(old_acc, v);
                    }
                    parse_elems(s, j2 + 1, b - 1, acc2)
                } else if j2 < s.len() && s[j2] == 93 {
                    let ghost old_acc = acc@;
                    let mut acc2 = acc;
                    acc2.push(v);
                    proof {
                        lemma_deep_seq_push(old_acc, v);
                    }
                    Some((acc2, j2 + 1))
                } else {
                    None
                }
            },
        }
    }
}

fn parse_members(s: &Vec<u8>, i: usize, b: usize, acc: Vec<(Vec<u8>, Json)>) -> (r: Option<
    (Vec<(Vec<u8>, Json)>, usize),
>)
    requires
        i <= s.len(),
        s.len() <= MAX_INPUT,
    ensures
        obj_matches(r, spec_members(s@, i as int, b as int, deep_members_of(acc@))),
        r matches Some(p) ==> p.1 <= s.len(),
    decreases b, 1int,
{
    if b == 0 {
        None
    } else {
        let j = skip_ws(s, i);
        match parse_string(s, j) {
            None => None,
            Some((key, p)) => {
                let p2 = skip_ws(s, p);
                if !(p2 < s.len() && s[p2] == 58) {
                    None
                } else {
                    match parse_value(s, p2 + 1, b) {
                        None => None,
                        Some((v, q)) => {
                            let q2 = skip_ws(s, q);
                            if q2 < s.len() && s[q2] == 44 {
                                let ghost old_acc = acc@;
                                let ghost gkey = key@;
                                let mut acc2 = acc;
                                acc2.push((key, v));
                                proof {
                                    lemma_deep_members_push(old_acc, acc2@.last().0, v);
                                }
                                parse_members(s, q2 + 1, b - 1, acc2)
                            } else if q2 < s.len() && s[q2] == 125 {
                                let ghost old_acc = acc@;
                                let mut acc2 = acc;
                                acc2.push((key, v));
                                proof {
                                    lemma_deep_members_push(old_acc, acc2@.last().0, v);
                                }
                                Some((acc2, q2 + 1))
                            } else {
                                None
                            }
                        },
                    }
                }
            },
        }
    }
}

// ---------------------------------------------------------------------
// The budget never cuts a parse short
// ---------------------------------------------------------------------
// The lemmas below show that positions only move forward through the
// input, and that from the bound the top-level entry point grants, the
// budget no longer influences the result: a more generous allowance
// parses every document the same way. The guard therefore only ever
// stops on malformed input.

/// Skipping whitespace stays within the input.
pub proof fn lemma_skip_ws_bounds(s: Seq<u8>, i: int)
    requires
        0 <= i <= s.len(),
    ensures
        i <= spec_skip_ws(s, i) <= s.len(),
    decreases s.len() - i,
{
    if i < s.len() && is_ws(s[i]) {
        lemma_skip_ws_bounds(s, i + 1);
    }
}

/// Scanning a digit run stays within the input.
proof fn lemma_digits_end_bounds(s: Seq<u8>, i: int)
    requires
        0 <= i <= s.len(),
    ensures
        i <= spec_digits_end(s, i) <= s.len(),
    decreases s.len() - i,
{
    if i < s.len() && is_digit(s[i]) {
        lemma_digits_end_bounds(s, i + 1);
    }
}

/// A parsed string body ends after where it began, within the input.
proof fn lemma_str_body_bounds(s: Seq<u8>, i: int, acc: Seq<u8>)
    requires
        0 <= i,
    ensures
        spec_str_body(s, i, acc) matches Some(p) ==> i < p.1 <= s.len(),
    decreases s.len() - i,
{
    if i < s.len() {
        let c = s[i];
        if c == 92 && i + 1 < s.len() {
            let e = s[i + 1];
            if e == 34 {
                lemma_str_body_bounds(s, i + 2, acc.push(34));
            } else if e == 92 {
                lemma_str_body_bounds(s, i + 2, acc.push(92));
            } else if e == 47 {
                lemma_str_body_bounds(s, i + 2, acc.push(47));
            } else if e == 98 {
                lemma_str_body_bounds(s, i + 2, acc.push(8));
            } else if e == 102 {
                lemma_str_body_bounds(s, i + 2, acc.push(12));
            } else if e == 110 {
                lemma_str_body_bounds(s, i + 2, acc.push(10));
            } else if e == 114 {
                lemma_str_body_bounds(s, i + 2, acc.push(13));
            } else if e == 116 {
                lemma_str_body_bounds(s, i + 2, acc.push(9));
            } else if e == 117 && hex4_ok(s, i + 2) {
                let u = hex4_val(s, i + 2);
                if u < 0xD800 || u >= 0xE000 {
                    lemma_str_body_bounds(s, i + 6, acc + spec_utf8_enc(u));
                } else if u < 0xDC00 {
                    if i + 12 <= s.len() && s[i + 6] == 92 && s[i + 7] == 117 && hex4_ok(s, i + 8) {
                        let u2 = hex4_val(s, i + 8);
                        if 0xDC00 <= u2 < 0xE000 {
                            let cp = (0x10000 + (u - 0xD800) * 1024 + (u2 - 0xDC00)) as u32;
                            lemma_str_body_bounds(s, i + 12, acc + spec_utf8_enc(cp));
                        }
                    }
                }
            }
        } else if c != 34 && c != 92 && c >= 32 {
            lemma_str_body_bounds(s, i + 1, acc.push(c));
        }
    }
}

/// A parsed number ends after where it began, within the input.
proof fn lemma_number_bounds(s: Seq<u8>, i: int)
    requires
        0 <= i <= s.len(),
    ensures
        spec_number(s, i) matches Some(p) ==> i < p.1 <= s.len(),
{
    let neg = 0 <= i < s.len() && s[i] == 45;
    let i0 = if neg {
        i + 1
    } else {
        i
    };
    lemma_digits_end_bounds(s, i0);
    let i1 = spec_digits_end(s, i0);
    if i1 != i0 {
        if 0 <= i1 < s.len() && s[i1] == 46 {
            lemma_digits_end_bounds(s, i1 + 1);
        }
        match spec_frac(s, i1) {
            Option::None => {},
            Option::Some(fr) => {
                if 0 <= fr.1 < s.len() && (s[fr.1] == 101 || s[fr.1] == 69) {
                    let signed = fr.1 + 1 < s.len() && (s[fr.1 + 1] == 45 || s[fr.1 + 1] == 43);
                    let istart = if signed {
                        fr.1 + 2
                    } else {
                        fr.1 + 1
                    };
                    lemma_digits_end_bounds(s, istart);
                }
            },
        }
    }
}

/// A parsed value ends after where it began, within the input.
proof fn lemma_value_progress(s: Seq<u8>, i: int, b: int)
    requires
        0 <= i <= s.len(),
    ensures
        spec_value(s, i, b) matches Some(p) ==> i < p.1 <= s.len(),
    decreases b, 0int,
{
    if b > 0 {
        lemma_skip_ws_bounds(s, i);
        let j = spec_skip_ws(s, i);
        if 0 <= j < s.len() {
            if s[j] == 34 {
                lemma_str_body_bounds(s, j + 1, Seq::empty());
            } else if s[j] == 91 {
                lemma_skip_ws_bounds(s, j + 1);
                lemma_elems_progress(s, j + 1, b - 1, Seq::empty());
            } else if s[j] == 123 {
                lemma_skip_ws_bounds(s, j + 1);
                lemma_members_progress(s, j + 1, b - 1, Seq::empty());
            } else if s[j] == 45 || is_digit(s[j]) {
                lemma_number_bounds(s, j);
            }
        }
    }
}

/// A parsed element list ends after where it began, within the input.
proof fn lemma_elems_progress(s: Seq<u8>, i: int, b: int, acc: Seq<SpecJson>)
    requires
        0 <= i <= s.len(),
    ensures
        spec_elems(s, i, b, acc) matches Some(p) ==> i < p.1 <= s.len(),
    decreases b, 1int,
{
    if b > 0 {
        lemma_value_progress(s, i, b);
        match spec_value(s, i, b) {
            Option::None => {},
            Option::Some(p) => {
                lemma_skip_ws_bounds(s, p.1);
                let j2 = spec_skip_ws(s, p.1);
                if 0 <= j2 < s.len() && s[j2] == 44 {
                    lemma_elems_progress(s, j2 + 1, b - 1, acc.push(p.0));
                }
            },
        }
    }
}

/// A parsed member list ends after where it began, within the input.
proof fn lemma_members_progress(s: Seq<u8>, i: int, b: int, acc: Seq<(Seq<u8>, SpecJson)>)
    requires
        0 <= i <= s.len(),
    ensures
        spec_members(s, i, b, acc) matches Some(p) ==> i < p.1 <= s.len(),
    decreases b, 1int,
{
    if b > 0 {
        lemma_skip_ws_bounds(s, i);
        let j = spec_skip_ws(s, i);
        if 0 <= j < s.len() && s[j] == 34 {
            lemma_str_body_bounds(s, j + 1, Seq::empty());
        }
        match spec_string(s, j) {
            Option::None => {},
            Option::Some(kp) => {
                lemma_skip_ws_bounds(s, kp.1);
                let p2 = spec_skip_ws(s, kp.1);
                if 0 <= p2 < s.len() && s[p2] == 58 {
                    lemma_value_progress(s, p2 + 1, b);
                    match spec_value(s, p2 + 1, b) {
                        Option::None => {},
                        Option::Some(vp) => {
                            lemma_skip_ws_bounds(s, vp.1);
                            let q2 = spec_skip_ws(s, vp.1);
                            if 0 <= q2 < s.len() && s[q2] == 44 {
                                lemma_members_progress(s, q2 + 1, b - 1, acc.push((kp.0, vp.0)));
                            }
                        },
                    }
                }
            },
        }
    }
}

/// From two steps per remaining byte and two more, the budget no longer
/// influences what a value parses to.
proof fn lemma_value_budget(s: Seq<u8>, i: int, b1: int, b2: int)
    requires
        0 <= i <= s.len(),
        b1 >= 2 * (s.len() - i) + 2,
        b2 >= b1,
    ensures
        spec_value(s, i, b1) == spec_value(s, i, b2),
    decreases b1, 0int,
{
    lemma_skip_ws_bounds(s, i);
    let j = spec_skip_ws(s, i);
    if 0 <= j < s.len() {
        if s[j] == 91 {
            lemma_skip_ws_bounds(s, j + 1);
            let j2 = spec_skip_ws(s, j + 1);
            if !(0 <= j2 < s.len() && s[j2] == 93) {
                lemma_elems_budget(s, j + 1, b1 - 1, b2 - 1, Seq::empty());
            }
        } else if s[j] == 123 {
            lemma_skip_ws_bounds(s, j + 1);
            let j2 = spec_skip_ws(s, j + 1);
            if !(0 <= j2 < s.len() && s[j2] == 125) {
                lemma_members_budget(s, j + 1, b1 - 1, b2 - 1, Seq::empty());
            }
        }
    }
}

/// From two steps per remaining byte and two more, the budget no longer
/// influences what an element list parses to.
proof fn lemma_elems_budget(s: Seq<u8>, i: int, b1: int, b2: int, acc: Seq<SpecJson>)
    requires
        0 <= i <= s.len(),
        b1 >= 2 * (s.len() - i) + 2,
        b2 >= b1,
    ensures
        spec_elems(s, i, b1, acc) == spec_elems(s, i, b2, acc),
    decreases b1, 1int,
{
    lemma_value_budget(s, i, b1, b2);
    lemma_value_progress(s, i, b1);
    match spec_value(s, i, b1) {
        Option::None => {},
        Option::Some(p) => {
            lemma_skip_ws_bounds(s, p.1);
            let j2 = spec_skip_ws(s, p.1);
            if 0 <= j2 < s.len() && s[j2] == 44 {
                lemma_elems_budget(s, j2 + 1, b1 - 1, b2 - 1, acc.push(p.0));
            }
        },
    }
}

/// From two steps per remaining byte and two more, the budget no longer
/// influences what a member list parses to.
proof fn lemma_members_budget(s: Seq<u8>, i: int, b1: int, b2: int, acc: Seq<(Seq<u8>, SpecJson)>)
    requires
        0 <= i <= s.len(),
        b1 >= 2 * (s.len() - i) + 2,
        b2 >= b1,
    ensures
        spec_members(s, i, b1, acc) == spec_members(s, i, b2, acc),
    decreases b1, 1int,
{
    lemma_skip_ws_bounds(s, i);
    let j = spec_skip_ws(s, i);
    if 0 <= j < s.len() && s[j] == 34 {
        lemma_str_body_bounds(s, j + 1, Seq::empty());
    }
    match spec_string(s, j) {
        Option::None => {},
        Option::Some(kp) => {
            lemma_skip_ws_bounds(s, kp.1);
            let p2 = spec_skip_ws(s, kp.1);
            if 0 <= p2 < s.len() && s[p2] == 58 {
                lemma_value_budget(s, p2 + 1, b1, b2);
                lemma_value_progress(s, p2 + 1, b1);
                match spec_value(s, p2 + 1, b1) {
                    Option::None => {},
                    Option::Some(vp) => {
                        lemma_skip_ws_bounds(s, vp.1);
                        let q2 = spec_skip_ws(s, vp.1);
                        if 0 <= q2 < s.len() && s[q2] == 44 {
                            lemma_members_budget(s, q2 + 1, b1 - 1, b2 - 1, acc.push((kp.0, vp.0)));
                        }
                    },
                }
            }
        },
    }
}

/// The budget `spec_parse` grants never cuts a parse short: any allowance
/// at least as generous parses every document the same way, so the guard
/// only ever stops on malformed input.
pub proof fn lemma_parse_budget_insensitive(s: Seq<u8>, b: int)
    requires
        b >= 2 * s.len() + 2,
    ensures
        spec_value(s, 0, b) == spec_value(s, 0, 2 * s.len() as int + 2),
{
    lemma_value_budget(s, 0, 2 * s.len() as int + 2, b);
}

/// Parse a complete JSON document. Returns the parsed value exactly when
/// the bytes form a document of the grammar above, and nothing otherwise.
pub fn parse_json(s: &Vec<u8>) -> (r: Option<Json>)
    requires
        s@.len() <= MAX_INPUT,
    ensures
        match (r, spec_parse(s@)) {
            (Option::Some(v), Option::Some(sv)) => v.deep() == sv,
            (Option::None, Option::None) => true,
            _ => false,
        },
{
    let b: usize = 2 * s.len() + 2;
    match parse_value(s, 0, b) {
        None => None,
        Some((v, p)) => {
            if skip_ws(s, p) == s.len() {
                Some(v)
            } else {
                None
            }
        },
    }
}

} // verus!


