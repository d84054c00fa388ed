//! Decimal numbers as they appear in the wire format.
//!
//! Coordinates, radii and opacities are carried as plain decimal values: a
//! sign, an integer part and a sequence of fractional digits.  The JSON
//! rendering always shows at least one fractional digit (`"400.0"`,
//! `"-0.5"`), matching the runtime's expectation for numeric fields.

use vstd::prelude::*;

verus! {

/// A signed decimal number: `neg` is the sign, `int_part` the digits before
/// the decimal point, and `frac` the digits after it (most significant
/// first).  An empty `frac` denotes an integral value.
#[derive(Debug)]
pub struct Num {
    pub neg: bool,
    pub int_part: u64,
    pub frac: Vec<u8>,
}

/// The character for a single decimal digit; digits ten and above are
/// outside every well-formed value and map to `'0'`.
pub open spec fn digit_char(d: u8) -> char {
    match d {
        0u8 => '0',
        1u8 => '1',
        2u8 => '2',
        3u8 => '3',
        4u8 => '4',
        5u8 => '5',
        6u8 => '6',
        7u8 => '7',
        8u8 => '8',
        9u8 => '9',
        _ => '0',
    }
}

/// The usual base-ten rendering of a natural number, without leading zeros.
pub open spec fn spec_u64_str(n: nat) -> Seq<char>
    decreases n,
{
    if n < 10 {
        seq![digit_char(n as u8)]
    } else {
        spec_u64_str(n / 10) + seq![digit_char((n % 10) as u8)]
    }
}

/// The base-ten rendering of a signed integer.
pub open spec fn spec_i32_str(n: int) -> Seq<char> {
    if n < 0 {
        "-"@ + spec_u64_str((-n) as nat)
    } else {
        spec_u64_str(n as nat)
    }
}

/// The characters of a run of fractional digits.
pub open spec fn frac_chars(s: Seq<u8>) -> Seq<char> {
    s.map_values(|d: u8| digit_char(d))
}

impl Num {
    /// Every stored fractional digit is an actual decimal digit.
    pub open spec fn wf(self) -> bool {
        forall|i: int| 0 <= i < self.frac@.len() ==> self.frac@[i] < 10
    }

    /// The JSON rendering: sign, integer digits, a decimal point, then the
    /// fractional digits, with `"0"` standing in when there are none.
    pub open spec fn spec_json(self) -> Seq<char> {
        (if self.neg {
            "-"@
        } else {
            Seq::<char>::empty()
        }) + spec_u64_str(self.int_part as nat) + "."@ + (if self.frac@.len() == 0 {
            "0"@
        } else {
            frac_chars(self.frac@)
        })
    }

    /// An integral value.
    pub fn from_i64(v: i64) -> (r: Num)
        ensures
            r.wf(),
            r.neg == (v < 0),
            r.int_part as int == (if v < 0 {
                -(v as int)
            } else {
                v as int
            }),
            r.frac@ == Seq::<u8>::empty(),
    {
        if v < 0 {
            let m: u64 = ((-(v + 1)) as u64) + 1;
            Num { neg: true, int_part: m, frac: Vec::new() }
        } else {
            Num { neg: false, int_part: v as u64, frac: Vec::new() }
        }
    }

    /// A value assembled from its parts; rejected exactly when some entry of
    /// `frac` is not a decimal digit.
    pub fn new(neg: bool, int_part: u64, frac: Vec<u8>) -> (r: Option<Num>)
        ensures
            match r {
                Some(v) => v.wf() && v.neg == neg && v.int_part == int_part && v.frac@ == frac@,
                None => exists|i: int| 0 <= i < frac@.len() && frac@[i] >= 10,
            },
    {
        let mut i: usize = 0;
        while i < frac.len()
            invariant
                0 <= i <= frac@.len(),
                forall|j: int| 0 <= j < i ==> frac@[j] < 10,
            decreases frac@.len() - i,
        {
            if frac[i] >= 10 {
                return None;
            }
            i += 1;
        }
        Some(Num { neg, int_part, frac })
    }
}

/// Structural equality on decimal values.
fn nums_eq(a: &Num, b: &Num) -> (r: bool)
    ensures
        r == (a.neg == b.neg && a.int_part == b.int_part && a.frac@ == b.frac@),
{
    if a.neg != b.neg || a.int_part != b.int_part || a.frac.len() != b.frac.len() {
        return false;
    }
    let mut i: usize = 0;
    while i < a.frac.len()
        invariant
            0 <= i <= a.frac@.len(),
            a.frac@.len() == b.frac@.len(),
            a.neg == b.neg,
            a.int_part == b.int_part,
            forall|j: int| 0 <= j < i ==> a.frac@[j] == b.frac@[j],
        decreases a.frac@.len() - i,
    {
        if a.frac[i] != b.frac[i] {
            return false;
        }
        i += 1;
    }
    proof {
        assert(a.frac@ =~= b.frac@);
    }
    true
}

impl PartialEq for Num {
    /// Structural equality: sign, integer part and fractional digits.
    fn eq(&self, other: &Num) -> (r: bool)
        ensures
            r == (self.neg == other.neg && self.int_part == other.int_part && self.frac@
                == other.frac@),
    {
        nums_eq(self, other)
    }
}

impl vstd::std_specs::cmp::PartialEqSpecImpl for Num {
    open spec fn obeys_eq_spec() -> bool {
        true
    }

    open spec fn eq_spec(&self, other: &Num) -> bool {
        self.neg == other.neg && self.int_part == other.int_part && self.frac@ == other.frac@
    }
}

/// Whether a character is a decimal digit.
pub open spec fn is_digit(c: char) -> bool {
    48 <= c as int && c as int <= 57
}

/// The numeric value of a digit character; other characters count as zero.
pub open spec fn char_val(c: char) -> nat {
    if is_digit(c) {
        (c as int - 48) as nat
    } else {
        0
    }
}

/// The value of a run of digit characters read in base ten.
pub open spec fn digits_val(s: Seq<char>) -> nat
    decreases s.len(),
{
    if s.len() == 0 {
        0
    } else {
        digits_val(s.drop_last()) * 10 + char_val(s.last())
    }
}

/// The canonical decimal literal denoting a value: sign, integer digits
/// without leading zeros, and the fractional digits only when there are any.
pub open spec fn spec_dec_lit(v: Num) -> Seq<char> {
    (if v.neg {
        "-"@
    } else {
        Seq::<char>::empty()
    }) + spec_u64_str(v.int_part as nat) + (if v.frac@.len() == 0 {
        Seq::<char>::empty()
    } else {
        "."@ + frac_chars(v.frac@)
    })
}

proof fn lemma_digit_char_val(d: u8)
    requires
        d < 10,
    ensures
        is_digit(digit_char(d)),
        char_val(digit_char(d)) == d,
{
}

proof fn lemma_char_digit_roundtrip(c: char)
    requires
        is_digit(c),
    ensures
        char_val(c) < 10,
        digit_char(char_val(c) as u8) == c,
{
}

proof fn lemma_digits_val_push(s: Seq<char>, c: char)
    ensures
        digits_val(s.push(c)) == digits_val(s) * 10 + char_val(c),
{
    assert(s.push(c).drop_last() =~= s);
    assert(s.push(c).last() == c);
}

proof fn lemma_digits_val_take_le(s: Seq<char>, i: int)
    requires
        0 <= i <= s.len(),
    ensures
        digits_val(s.take(i)) <= digits_val(s),
    decreases s.len(),
{
    if i == s.len() {
        assert(s.take(i) =~= s);
    } else {
        assert(s.drop_last().take(i) =~= s.take(i));
        lemma_digits_val_take_le(s.drop_last(), i);
    }
}

proof fn lemma_u64_str_digits(n: nat)
    ensures
        spec_u64_str(n).len() >= 1,
        forall|j: int| 0 <= j < spec_u64_str(n).len() ==> is_digit(#[trigger] spec_u64_str(n)[j]),
        digits_val(spec_u64_str(n)) == n,
        spec_u64_str(n)[0] == '0' <==> n == 0,
        n < 10 <==> spec_u64_str(n).len() == 1,
    decreases n,
{
    if n < 10 {
        lemma_digit_char_val(n as u8);
        let s = spec_u64_str(n);
        assert(s.drop_last() =~= Seq::<char>::empty());
        assert(digits_val(s) == digits_val(s.drop_last()) * 10 + char_val(s.last()));
        assert(digits_val(s) == n);
    } else {
        lemma_u64_str_digits(n / 10);
        lemma_digit_char_val((n % 10) as u8);
        let s = spec_u64_str(n);
        let s1 = spec_u64_str(n / 10);
        assert(s.drop_last() =~= s1);
        assert(s.last() == digit_char((n % 10) as u8));
        assert(digits_val(s) == (n / 10) * 10 + n % 10);
    }
}

/// A canonical digit run (no leading zero unless it is the single digit
/// zero) renders back to itself.
proof fn lemma_u64_str_canonical(run: Seq<char>)
    requires
        run.len() >= 1,
        forall|j: int| 0 <= j < run.len() ==> is_digit(#[trigger] run[j]),
        run[0] != '0' || run.len() == 1,
        digits_val(run) <= u64::MAX,
    ensures
        spec_u64_str(digits_val(run)) == run,
    decreases run.len(),
{
    if run.len() == 1 {
        lemma_char_digit_roundtrip(run[0]);
        assert(run.drop_last() =~= Seq::<char>::empty());
        assert(run.last() == run[0]);
        assert(digits_val(Seq::<char>::empty()) == 0);
        assert(digits_val(run) == digits_val(run.drop_last()) * 10 + char_val(run.last()));
        assert(digits_val(run) == char_val(run[0]));
        assert(spec_u64_str(digits_val(run)) =~= run);
    } else {
        let head = run.drop_last();
        lemma_digits_val_ge_one(head);
        lemma_char_digit_roundtrip(run.last());
        let n = digits_val(run);
        assert(n == digits_val(head) * 10 + char_val(run.last()));
        assert(digits_val(head) * 10 >= 10) by (nonlinear_arith)
            requires
                digits_val(head) >= 1,
        ;
        assert(digits_val(head) <= u64::MAX) by (nonlinear_arith)
            requires
                digits_val(head) * 10 + char_val(run.last()) <= u64::MAX,
        ;
        lemma_u64_str_canonical(head);
        assert(n / 10 == digits_val(head) && n % 10 == char_val(run.last())) by (nonlinear_arith)
            requires
                n == digits_val(head) * 10 + char_val(run.last()),
                char_val(run.last()) < 10,
        ;
        assert(spec_u64_str(n) =~= spec_u64_str(n / 10) + seq![digit_char((n % 10) as u8)]);
        assert(spec_u64_str(n) =~= run);
    }
}

proof fn lemma_digits_val_ge_one(s: Seq<char>)
    requires
        s.len() >= 1,
        forall|j: int| 0 <= j < s.len() ==> is_digit(#[trigger] s[j]),
        s[0] != '0',
    ensures
        digits_val(s) >= 1,
    decreases s.len(),
{
    if s.len() == 1 {
        assert(char_val(s[0]) >= 1);
    } else {
        lemma_digits_val_ge_one(s.drop_last());
    }
}

/// Index-by-index shape of a canonical decimal literal.
proof fn lemma_lit_shape(v: Num)
    requires
        v.wf(),
    ensures
        ({
            let s = spec_dec_lit(v);
            let off = if v.neg {
                1int
            } else {
                0int
            };
            let u = spec_u64_str(v.int_part as nat);
            let k = u.len() as int;
            &&& s.len() == off + k + (if v.frac@.len() == 0 {
                0int
            } else {
                1 + v.frac@.len() as int
            })
            &&& (v.neg ==> s[0] == '-')
            &&& (forall|j: int| 0 <= j < k ==> s[off + j] == u[j])
            &&& (v.frac@.len() > 0 ==> s[off + k] == '.')
            &&& (forall|p: int|
                0 <= p < v.frac@.len() ==> s[off + k + 1 + p] == digit_char(v.frac@[p])
                    && is_digit(s[off + k + 1 + p]) && char_val(s[off + k + 1 + p]) == v.frac@[p])
        }),
{
    reveal_strlit("-");
    reveal_strlit(".");
    let s = spec_dec_lit(v);
    let off = if v.neg {
        1int
    } else {
        0int
    };
    let u = spec_u64_str(v.int_part as nat);
    let k = u.len() as int;
    assert forall|p: int| 0 <= p < v.frac@.len() implies s[off + k + 1 + p] == digit_char(
        v.frac@[p],
    ) && is_digit(s[off + k + 1 + p]) && char_val(s[off + k + 1 + p]) == v.frac@[p] by {
        assert(frac_chars(v.frac@)[p] == digit_char(v.frac@[p]));
        lemma_digit_char_val(v.frac@[p]);
    }
}

/// Aligns a left-to-right digit scan of a string with the structure of the
/// canonical literal the string is assumed to be.
proof fn lemma_run_prefix(s: Seq<char>, v: Num, neg: bool, off: int, i: int)
    requires
        v.wf(),
        s == spec_dec_lit(v),
        neg == (s.len() > 0 && s[0] == '-'),
        off == (if neg {
            1int
        } else {
            0int
        }),
        off <= i <= s.len(),
        forall|j: int| off <= j < i ==> is_digit(#[trigger] s[j]),
    ensures
        ({
            let u = spec_u64_str(v.int_part as nat);
            let k = u.len() as int;
            &&& v.neg == neg
            &&& k >= 1
            &&& i <= off + k
            &&& s.len() >= off + k
            &&& s.subrange(off, i) == u.take(i - off)
            &&& digits_val(s.subrange(off, i)) <= v.int_part
            &&& ((i == s.len() || !is_digit(s[i])) ==> {
                &&& i == off + k
                &&& s.subrange(off, i) == u
                &&& digits_val(s.subrange(off, i)) == v.int_part
                &&& (i - off >= 2 ==> s[off] != '0')
                &&& (v.frac@.len() == 0 ==> i == s.len())
                &&& (v.frac@.len() > 0 ==> i < s.len() && s[i] == '.' && s.len() == i + 1
                    + v.frac@.len())
                &&& (v.frac@.len() > 0 ==> forall|p: int|
                    0 <= p < v.frac@.len() ==> is_digit(#[trigger] s[i + 1 + p]) && char_val(
                        s[i + 1 + p],
                    ) == v.frac@[p])
            })
        }),
{
    reveal_strlit("-");
    reveal_strlit(".");
    lemma_lit_shape(v);
    lemma_u64_str_digits(v.int_part as nat);
    let u = spec_u64_str(v.int_part as nat);
    let k = u.len() as int;
    let offv = if v.neg {
        1int
    } else {
        0int
    };
    // the sign position and the scan's offset agree
    assert(v.neg ==> s[0] == '-');
    assert(!v.neg ==> is_digit(s[0]) && s[0] != '-');
    assert(v.neg == neg);
    assert(off == offv);
    // the scan cannot run past the digit run
    assert(i <= off + k) by {
        if i > off + k {
            if v.frac@.len() == 0 {
                assert(s.len() == off + k);
            } else {
                assert(s[off + k] == '.');
                assert(is_digit(s[off + k]));
            }
        }
    }
    assert(s.subrange(off, i) =~= u.take(i - off));
    lemma_digits_val_take_le(u, i - off);
    if i == s.len() || !is_digit(s[i]) {
        assert(i >= off + k) by {
            if i < off + k {
                assert(s[off + i - off] == u[i - off]);
                assert(is_digit(s[i]));
                assert(i < s.len());
            }
        }
        assert(s.subrange(off, i) =~= u);
        if i - off >= 2 {
            assert(s[off] == u[0]);
        }
    }
}

/// Scans a run of decimal digits from `off`, accumulating their value.
/// The third component reports that the value overflowed a `u64` at the
/// digit the scan stopped on.
fn scan_int(s: &str, off: usize) -> (r: (usize, u64, bool))
    requires
        off <= s@.len(),
    ensures
        off <= r.0 <= s@.len(),
        forall|j: int| off <= j < r.0 ==> is_digit(#[trigger] s@[j]),
        !r.2 ==> r.1 == digits_val(s@.subrange(off as int, r.0 as int)),
        !r.2 ==> (r.0 == s@.len() || !is_digit(s@[r.0 as int])),
        r.2 ==> r.0 < s@.len() && is_digit(s@[r.0 as int]) && digits_val(
            s@.subrange(off as int, r.0 + 1),
        ) > u64::MAX,
{
    let n = s.unicode_len();
    let mut i: usize = off;
    let mut val: u64 = 0;
    while i < n
        invariant
            s@.len() == n,
            off <= i <= n,
            val == digits_val(s@.subrange(off as int, i as int)),
            forall|j: int| off <= j < i ==> is_digit(#[trigger] s@[j]),
        ensures
            off <= i <= n,
            val == digits_val(s@.subrange(off as int, i as int)),
            forall|j: int| off <= j < i ==> is_digit(#[trigger] s@[j]),
            i == n || !is_digit(s@[i as int]),
        decreases n - i,
    {
        let c = s.get_char(i);
        let u = c as u32;
        if !(48 <= u && u <= 57) {
            break ;
        }
        let d: u64 = (u - 48) as u64;
        if val > (u64::MAX - d) / 10 {
            proof {
                let q = (u64::MAX - d) / 10;
                assert(q * 10 + 10 > u64::MAX - d);
                assert(val * 10 >= (q + 1) * 10) by (nonlinear_arith)
                    requires
                        val >= q + 1,
                ;
                assert(val * 10 + d > u64::MAX);
                let pre = s@.subrange(off as int, i as int);
                let ext = s@.subrange(off as int, i + 1 as int);
                assert(ext =~= pre.push(s@[i as int]));
                lemma_digits_val_push(pre, s@[i as int]);
                assert(digits_val(ext) > u64::MAX);
            }
            return (i, val, true);
        }
        val = val * 10 + d;
        proof {
            let pre = s@.subrange(off as int, i as int);
            let ext = s@.subrange(off as int, i + 1 as int);
            assert(ext =~= pre.push(s@[i as int]));
            lemma_digits_val_push(pre, s@[i as int]);
        }
        i += 1;
    }
    (i, val, false)
}

/// Scans fractional digits from `start` for as long as they last, and
/// reports where the scan stopped.
fn scan_frac(s: &str, start: usize) -> (r: (Vec<u8>, usize))
    requires
        start <= s@.len(),
    ensures
        start <= r.1 <= s@.len(),
        r.0@.len() == r.1 - start,
        forall|p: int|
            0 <= p < r.0@.len() ==> #[trigger] r.0@[p] < 10 && r.0@[p] == char_val(s@[start + p])
                && is_digit(s@[start + p]),
        r.1 == s@.len() || !is_digit(s@[r.1 as int]),
{
    let n = s.unicode_len();
    let mut frac: Vec<u8> = Vec::new();
    let mut j: usize = start;
    while j < n
        invariant
            s@.len() == n,
            start <= j <= n,
            frac@.len() == j - start,
            forall|p: int|
                0 <= p < frac@.len() ==> #[trigger] frac@[p] < 10 && frac@[p] == char_val(
                    s@[start + p],
                ) && is_digit(s@[start + p]),
        ensures
            start <= j <= n,
            frac@.len() == j - start,
            forall|p: int|
                0 <= p < frac@.len() ==> #[trigger] frac@[p] < 10 && frac@[p] == char_val(
                    s@[start + p],
                ) && is_digit(s@[start + p]),
            j == n || !is_digit(s@[j as int]),
        decreases n - j,
    {
        let c = s.get_char(j);
        let u = c as u32;
        if !(48 <= u && u <= 57) {
            break ;
        }
        frac.push((u - 48) as u8);
        j += 1;
    }
    (frac, j)
}

/// Reads a decimal value from its canonical literal: an optional sign,
/// integer digits without leading zeros, and optionally a decimal point
/// followed by at least one fractional digit.  Succeeds exactly on the
/// strings that denote some well-formed value whose integer part fits.
#[verifier::rlimit(50)]
pub fn from_decimal_str(s: &str) -> (r: Option<Num>)
    ensures
        match r {
            Some(v) => v.wf() && s@ == spec_dec_lit(v),
            None => forall|v: Num| v.wf() ==> s@ != spec_dec_lit(v),
        },
{
    let n = s.unicode_len();
    let neg = n > 0 && s.get_char(0) == '-';
    let off: usize = if neg {
        1
    } else {
        0
    };
    let (i, val, over) = scan_int(s, off);
    if over {
        proof {
            assert forall|v: Num| v.wf() implies s@ != spec_dec_lit(v) by {
                if s@ == spec_dec_lit(v) {
                    lemma_run_prefix(s@, v, neg, off as int, i + 1 as int);
                    lemma_u64_str_digits(v.int_part as nat);
                    lemma_digits_val_take_le(spec_u64_str(v.int_part as nat), i + 1 - off);
                    assert(false);
                }
            }
        }
        return None;
    }
    if i == off {
        proof {
            assert forall|v: Num| v.wf() implies s@ != spec_dec_lit(v) by {
                if s@ == spec_dec_lit(v) {
                    lemma_run_prefix(s@, v, neg, off as int, i as int);
                    lemma_u64_str_digits(v.int_part as nat);
                    assert(false);
                }
            }
        }
        return None;
    }
    if i - off >= 2 && s.get_char(off) == '0' {
        proof {
            assert forall|v: Num| v.wf() implies s@ != spec_dec_lit(v) by {
                if s@ == spec_dec_lit(v) {
                    lemma_run_prefix(s@, v, neg, off as int, i as int);
                    assert(false);
                }
            }
        }
        return None;
    }
    proof {
        lemma_u64_str_canonical(s@.subrange(off as int, i as int));
    }
    if i == n {
        let v = Num { neg, int_part: val, frac: Vec::new() };
        proof {
            lemma_lit_shape(v);
            reveal_strlit("-");
            assert(s@ =~= spec_dec_lit(v));
        }
        return Some(v);
    }
    let dot = s.get_char(i);
    if dot != '.' {
        proof {
            assert forall|v: Num| v.wf() implies s@ != spec_dec_lit(v) by {
                if s@ == spec_dec_lit(v) {
                    lemma_run_prefix(s@, v, neg, off as int, i as int);
                    assert(false);
                }
            }
        }
        return None;
    }
    let (frac, j) = scan_frac(s, i + 1);
    if j < n {
        proof {
            assert forall|v: Num| v.wf() implies s@ != spec_dec_lit(v) by {
                if s@ == spec_dec_lit(v) {
                    lemma_run_prefix(s@, v, neg, off as int, i as int);
                    assert(is_digit(s@[i + 1 + (j - (i + 1))]));
                    assert(false);
                }
            }
        }
        return None;
    }
    if frac.len() == 0 {
        proof {
            assert forall|v: Num| v.wf() implies s@ != spec_dec_lit(v) by {
                if s@ == spec_dec_lit(v) {
                    lemma_run_prefix(s@, v, neg, off as int, i as int);
                    assert(false);
                }
            }
        }
        return None;
    }
    let v = Num { neg, int_part: val, frac };
    proof {
        lemma_lit_shape(v);
        reveal_strlit("-");
        reveal_strlit(".");
        assert forall|p: int| 0 <= p < v.frac@.len() implies digit_char(v.frac@[p]) == s@[i + 1
            + p] by {
            assert(v.frac@[p] < 10);
            lemma_char_digit_roundtrip(s@[i + 1 + p]);
        }
        assert(s@ =~= spec_dec_lit(v));
    }
    Some(v)
}

/// The single-character string for a decimal digit.
fn digit_str(d: u8) -> (r: &'static str)
    ensures
        r@ == seq![digit_char(d)],
{
    match d {
        0u8 => {
            proof {
                reveal_strlit("0");
                assert("0"@ =~= seq![digit_char(0u8)]);
            }
            "0"
        },
        1u8 => {
            proof {
                reveal_strlit("1");
                assert("1"@ =~= seq![digit_char(1u8)]);
            }
            "1"
        },
        2u8 => {
            proof {
                reveal_strlit("2");
                assert("2"@ =~= seq![digit_char(2u8)]);
            }
            "2"
        },
        3u8 => {
            proof {
                reveal_strlit("3");
                assert("3"@ =~= seq![digit_char(3u8)]);
            }
            "3"
        },
        4u8 => {
            proof {
                reveal_strlit("4");
                assert("4"@ =~= seq![digit_char(4u8)]);
            }
            "4"
        },
        5u8 => {
            proof {
                reveal_strlit("5");
                assert("5"@ =~= seq![digit_char(5u8)]);
            }
            "5"
        },
        6u8 => {
            proof {
                reveal_strlit("6");
                assert("6"@ =~= seq![digit_char(6u8)]);
            }
            "6"
        },
        7u8 => {
            proof {
                reveal_strlit("7");
                assert("7"@ =~= seq![digit_char(7u8)]);
            }
            "7"
        },
        8u8 => {
            proof {
                reveal_strlit("8");
                assert("8"@ =~= seq![digit_char(8u8)]);
            }
            "8"
        },
        _ => {
            proof {
                reveal_strlit("9");
                assert(d != 9u8 ==> digit_char(d) == '0');
            }
            if d == 9 {
                proof {
                    assert("9"@ =~= seq![digit_char(9u8)]);
                }
                "9"
            } else {
                proof {
                    reveal_strlit("0");
                    assert("0"@ =~= seq![digit_char(d)]);
                }
                "0"
            }
        },
    }
}

/// Appends the base-ten rendering of `n`.
pub(crate) fn write_u64(out: &mut String, n: u64)
    ensures
        final(out)@ == old(out)@ + spec_u64_str(n as nat),
    decreases n,
{
    if n < 10 {
        out.append(digit_str(n as u8));
    } else {
        write_u64(out, n / 10);
        out.append(digit_str((n % 10) as u8));
        assert(final(out)@ =~= old(out)@ + spec_u64_str(n as nat));
    }
}

/// Appends the base-ten rendering of a signed integer.
pub(crate) fn write_i32(out: &mut String, n: i32)
    ensures
        final(out)@ == old(out)@ + spec_i32_str(n as int),
{
    if n < 0 {
        out.append("-");
        let m: u64 = (-(n as i64)) as u64;
        write_u64(out, m);
        assert(final(out)@ =~= old(out)@ + spec_i32_str(n as int));
    } else {
        write_u64(out, n as u64);
    }
}

/// Appends the JSON rendering of a decimal value.
pub(crate) fn write_num(out: &mut String, v: &Num)
    ensures
        final(out)@ == old(out)@ + v.spec_json(),
{
    let ghost orig: Seq<char> = out@;
    if v.neg {
        out.append("-");
    }
    write_u64(out, v.int_part);
    out.append(".");
    let ghost head: Seq<char> = out@;
    if v.frac.len() == 0 {
        out.append("0");
    } else {
        let mut i: usize = 0;
        while i < v.frac.len()
            invariant
                0 <= i <= v.frac@.len(),
                out@ == head + frac_chars(v.frac@.take(i as int)),
            decreases v.frac@.len() - i,
        {
            let d = v.frac[i];
            out.append(digit_str(d));
            proof {
                assert(frac_chars(v.frac@.take(i + 1 as int)) =~= frac_chars(
                    v.frac@.take(i as int),
                ) + seq![digit_char(v.frac@[i as int])]);
            }
            i += 1;
        }
        proof {
            assert(v.frac@.take(v.frac@.len() as int) =~= v.frac@);
        }
    }
    assert(final(out)@ =~= orig + v.spec_json());
}

} // verus!
