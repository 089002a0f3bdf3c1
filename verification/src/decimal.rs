//! Verified fixed-point decimal numbers: the grammar accepted for monetary
//! amounts, parsing of a decimal string into an exact mantissa/scale pair,
//! and exact comparison by cross-multiplication.

use vstd::prelude::*;
use vstd::string::StrSliceExecFns;

verus! {

/// Ten to the power `e`.
pub open spec fn pow10(e: nat) -> int
    decreases e,
{
    if e == 0 {
        1
    } else {
        10 * pow10((e - 1) as nat)
    }
}

pub proof fn lemma_pow10_pos(e: nat)
    ensures
        pow10(e) >= 1,
    decreases e,
{
    if e > 0 {
        lemma_pow10_pos((e - 1) as nat);
    }
}

pub proof fn lemma_pow10_mono(a: nat, b: nat)
    requires
        a <= b,
    ensures
        pow10(a) <= pow10(b),
    decreases b,
{
    if a < b {
        lemma_pow10_mono(a, (b - 1) as nat);
        lemma_pow10_pos((b - 1) as nat);
    }
}

pub proof fn lemma_pow10_18()
    ensures
        pow10(18) == 1000000000000000000,
{
    reveal_with_fuel(pow10, 20);
}

/// An exact decimal amount: the value `mantissa / 10^scale`, negated when
/// `neg` holds. `150.00` is `{ neg: false, mantissa: 15000, scale: 2 }`.
#[derive(Debug, Clone, Copy, PartialEq, Eq, Structural)]
pub struct Decimal {
    pub neg: bool,
    pub mantissa: u64,
    pub scale: u32,
}

impl Decimal {
    /// The scale bound keeps cross-multiplied comparisons inside `i128`.
    pub open spec fn wf(self) -> bool {
        self.scale <= 18
    }

    /// The signed mantissa.
    pub open spec fn num(self) -> int {
        if self.neg {
            -(self.mantissa as int)
        } else {
            self.mantissa as int
        }
    }

    /// `self` is strictly below `other`: the values `num / 10^scale` are
    /// compared exactly, by cross-multiplication with the positive factors
    /// `10^scale`.
    pub open spec fn spec_lt(self, other: Decimal) -> bool {
        self.num() * pow10(other.scale as nat) < other.num() * pow10(self.scale as nat)
    }
}

/// A decimal digit.
pub open spec fn is_digit(c: char) -> bool {
    '0' as int <= c as int && c as int <= '9' as int
}

pub open spec fn digit_val(c: char) -> int {
    c as int - '0' as int
}

pub open spec fn all_digits(s: Seq<char>) -> bool {
    forall|i: int| 0 <= i < s.len() ==> is_digit(#[trigger] s[i])
}

/// The value of digit text `s` read after an accumulator `acc`: each digit
/// shifts what stands before it one decimal place left.
pub open spec fn acc_digits(acc: int, s: Seq<char>) -> int
    decreases s.len(),
{
    if s.len() == 0 {
        acc
    } else {
        10 * acc_digits(acc, s.drop_last()) + digit_val(s.last())
    }
}

/// The numeric value of a digit string.
pub open spec fn digits_val(s: Seq<char>) -> int {
    acc_digits(0, s)
}

pub proof fn lemma_acc_digits_append(acc: int, a: Seq<char>, b: Seq<char>)
    ensures
        acc_digits(acc, a + b) == acc_digits(acc_digits(acc, a), b),
    decreases b.len(),
{
    if b.len() == 0 {
        assert(a + b =~= a);
    } else {
        assert((a + b).drop_last() =~= a + b.drop_last());
        assert((a + b).last() == b.last());
        lemma_acc_digits_append(acc, a, b.drop_last());
    }
}

pub proof fn lemma_acc_digits_ge(acc: int, s: Seq<char>)
    requires
        acc >= 0,
        all_digits(s),
    ensures
        acc_digits(acc, s) >= acc,
    decreases s.len(),
{
    if s.len() > 0 {
        assert(all_digits(s.drop_last())) by {
            assert(forall|i: int|
                0 <= i < s.drop_last().len() ==> #[trigger] s.drop_last()[i] == s[i]);
        }
        assert(is_digit(s[s.len() - 1]));
        lemma_acc_digits_ge(acc, s.drop_last());
    }
}

/// Reading more digits never shrinks the accumulated value.
pub proof fn lemma_acc_digits_prefix(acc: int, s: Seq<char>, k: int)
    requires
        acc >= 0,
        all_digits(s),
        0 <= k <= s.len(),
    ensures
        acc_digits(acc, s.take(k)) <= acc_digits(acc, s),
{
    assert(s =~= s.take(k) + s.skip(k));
    lemma_acc_digits_append(acc, s.take(k), s.skip(k));
    assert(all_digits(s.take(k))) by {
        assert(forall|i: int| 0 <= i < k ==> #[trigger] s.take(k)[i] == s[i]);
    }
    assert(all_digits(s.skip(k))) by {
        assert(forall|i: int|
            0 <= i < s.len() - k ==> #[trigger] s.skip(k)[i] == s[i + k]);
    }
    lemma_acc_digits_ge(acc, s.take(k));
    lemma_acc_digits_ge(acc_digits(acc, s.take(k)), s.skip(k));
}

/// The decimal grammar accepted for amounts, split into its parts: an
/// optional leading `-`, one or more integer digits, then optionally a dot
/// and one or more fraction digits. The result is the sign and the two digit
/// runs; anything else denotes no decimal at all.
pub open spec fn spec_split_decimal(s: Seq<char>) -> Option<(bool, Seq<char>, Seq<char>)> {
    let neg = s.len() > 0 && s[0] == '-';
    let body = if neg {
        s.drop_first()
    } else {
        s
    };
    let dot = body.index_of_first('.');
    let ip = match dot {
        Some(d) => body.take(d),
        None => body,
    };
    let fp = match dot {
        Some(d) => body.skip(d + 1),
        None => Seq::<char>::empty(),
    };
    if ip.len() >= 1 && all_digits(ip) && (dot is Some ==> fp.len() >= 1 && all_digits(fp)) {
        Some((neg, ip, fp))
    } else {
        None
    }
}

/// What [`parse_decimal`] returns: the exact decimal written in `s`, when `s`
/// matches the grammar and its mantissa and scale fit the representation.
pub open spec fn spec_parse_decimal(s: Seq<char>) -> Option<Decimal> {
    match spec_split_decimal(s) {
        Some((neg, ip, fp)) => {
            if digits_val(ip + fp) <= u64::MAX && fp.len() <= 18 {
                Some(
                    (Decimal {
                        neg,
                        mantissa: digits_val(ip + fp) as u64,
                        scale: fp.len() as u32,
                    }),
                )
            } else {
                None
            }
        },
        None => None,
    }
}

/// First `.` in `s` between `from` (inclusive) and `to` (exclusive).
fn find_first_dot(s: &str, from: usize, to: usize) -> (r: Option<usize>)
    requires
        from <= to <= s@.len(),
    ensures
        match r {
            Some(i) => from <= i < to && s@[i as int] == '.' && (forall|k: int|
                from <= k < i ==> s@[k] != '.'),
            None => forall|k: int| from <= k < to ==> s@[k] != '.',
        },
{
    let mut i: usize = from;
    while i < to
        invariant
            from <= i <= to <= s@.len(),
            forall|k: int| from <= k < i ==> s@[k] != '.',
        decreases to - i,
    {
        if s.get_char(i) == '.' {
            return Some(i);
        }
        i = i + 1;
    }
    None
}

/// Every character of `s` between `from` and `to` is a digit.
fn all_digits_range(s: &str, from: usize, to: usize) -> (r: bool)
    requires
        from <= to <= s@.len(),
    ensures
        r == all_digits(s@.subrange(from as int, to as int)),
{
    let ghost sub = s@.subrange(from as int, to as int);
    let mut i: usize = from;
    while i < to
        invariant
            from <= i <= to <= s@.len(),
            sub == s@.subrange(from as int, to as int),
            forall|k: int| from <= k < i ==> is_digit(#[trigger] s@[k]),
        decreases to - i,
    {
        let c = s.get_char(i);
        let v: u32 = c as u32;
        if !(('0' as u32) <= v && v <= ('9' as u32)) {
            proof {
                assert(sub[i - from] == s@[i as int]);
                assert(!is_digit(sub[i - from]));
            }
            return false;
        }
        i = i + 1;
    }
    proof {
        assert(forall|j: int| 0 <= j < sub.len() ==> #[trigger] sub[j] == s@[from + j]);
    }
    true
}

/// Reads the digits of `s` between `from` and `to` onto the accumulator
/// `acc`, or reports that the exact value does not fit in `u64`.
fn accumulate_digits(s: &str, from: usize, to: usize, acc: u64) -> (r: Option<u64>)
    requires
        from <= to <= s@.len(),
        all_digits(s@.subrange(from as int, to as int)),
    ensures
        match r {
            Some(m) => m as int == acc_digits(acc as int, s@.subrange(from as int, to as int)),
            None => acc_digits(acc as int, s@.subrange(from as int, to as int)) > u64::MAX,
        },
{
    let ghost sub = s@.subrange(from as int, to as int);
    let mut cur: u64 = acc;
    let mut i: usize = from;
    while i < to
        invariant
            from <= i <= to <= s@.len(),
            sub == s@.subrange(from as int, to as int),
            all_digits(sub),
            cur as int == acc_digits(acc as int, s@.subrange(from as int, i as int)),
        decreases to - i,
    {
        let ghost pre = s@.subrange(from as int, i as int);
        let ghost ext = s@.subrange(from as int, i + 1);
        proof {
            assert(ext.drop_last() =~= pre);
            assert(ext.last() == s@[i as int]);
            assert(sub[i - from] == s@[i as int]);
            assert(is_digit(s@[i as int]));
            assert(ext =~= sub.take(i + 1 - from));
        }
        let c = s.get_char(i);
        let d64: u64 = (c as u32 - '0' as u32) as u64;
        let step = match cur.checked_mul(10) {
            Some(c10) => c10.checked_add(d64),
            None => None,
        };
        match step {
            Some(v) => {
                cur = v;
            },
            None => {
                proof {
                    assert(acc_digits(acc as int, ext) > u64::MAX);
                    lemma_acc_digits_prefix(acc as int, sub, i + 1 - from);
                }
                return None;
            },
        }
        i = i + 1;
    }
    Some(cur)
}

/// Ten to the power `e`, in `u64`.
pub fn pow10_u64(e: u32) -> (r: u64)
    requires
        e <= 18,
    ensures
        r as int == pow10(e as nat),
{
    let mut r: u64 = 1;
    let mut i: u32 = 0;
    while i < e
        invariant
            i <= e <= 18,
            r as int == pow10(i as nat),
        decreases e - i,
    {
        proof {
            lemma_pow10_mono((i + 1) as nat, 18);
            lemma_pow10_18();
            assert(pow10((i + 1) as nat) == 10 * pow10(i as nat));
        }
        r = r * 10;
        i = i + 1;
    }
    r
}

/// Parses the decimal amount written in `s`, exactly: `Some` precisely when
/// `s` matches the decimal grammar and the digits fit the representation.
pub fn parse_decimal(s: &str) -> (r: Option<Decimal>)
    ensures
        r == spec_parse_decimal(s@),
        r matches Some(d) ==> d.wf(),
{
    let n = s.unicode_len();
    let neg = if n > 0 {
        s.get_char(0) == '-'
    } else {
        false
    };
    let start: usize = if neg {
        1
    } else {
        0
    };
    let ghost body = if neg {
        s@.drop_first()
    } else {
        s@
    };
    proof {
        assert(body =~= s@.subrange(start as int, n as int));
    }
    let dot = find_first_dot(s, start, n);
    proof {
        body.index_of_first_ensures('.');
        assert(forall|k: int|
            0 <= k < body.len() ==> #[trigger] body[k] == s@[k + start]);
        match dot {
            Some(dp) => {
                assert(body[dp - start] == '.');
                assert(body.contains('.')) by {
                    assert(body[dp - start] == '.');
                }
                let bi = body.index_of_first('.')->Some_0;
                assert(body[bi] == '.');
                if bi < dp - start {
                    assert(s@[bi + start] == '.');
                    assert(false);
                }
                if bi > dp - start {
                    assert(body[dp - start] != '.');
                    assert(false);
                }
                assert(body.index_of_first('.') == Some(dp - start));
            },
            None => {
                if body.index_of_first('.') is Some {
                    let bi = body.index_of_first('.')->Some_0;
                    assert(s@[bi + start] == '.');
                    assert(false);
                }
            },
        }
    }
    let ip_hi: usize = match dot {
        Some(dp) => dp,
        None => n,
    };
    let ghost ip = s@.subrange(start as int, ip_hi as int);
    let ghost fp = match dot {
        Some(dp) => s@.subrange(dp + 1, n as int),
        None => Seq::<char>::empty(),
    };
    proof {
        match dot {
            Some(dp) => {
                assert(ip =~= body.take(dp - start));
                assert(fp =~= body.skip(dp - start + 1));
            },
            None => {
                assert(ip =~= body);
            },
        }
    }
    if ip_hi == start {
        return None;
    }
    if !all_digits_range(s, start, ip_hi) {
        return None;
    }
    if let Some(dp) = dot {
        if dp + 1 == n {
            return None;
        }
        if !all_digits_range(s, dp + 1, n) {
            return None;
        }
    }
    proof {
        lemma_acc_digits_append(0, ip, fp);
        lemma_acc_digits_ge(0, ip);
        lemma_acc_digits_ge(digits_val(ip), fp);
    }
    let m1 = match accumulate_digits(s, start, ip_hi, 0) {
        Some(v) => v,
        None => {
            return None;
        },
    };
    let m = match dot {
        Some(dp) => {
            match accumulate_digits(s, dp + 1, n, m1) {
                Some(v) => v,
                None => {
                    return None;
                },
            }
        },
        None => {
            proof {
                assert(ip + fp =~= ip);
            }
            m1
        },
    };
    let scale_len: usize = match dot {
        Some(dp) => n - (dp + 1),
        None => 0,
    };
    proof {
        assert(scale_len == fp.len());
        assert(m as int == digits_val(ip + fp));
    }
    if scale_len > 18 {
        return None;
    }
    Some(Decimal { neg, mantissa: m, scale: scale_len as u32 })
}

/// Exact strict comparison of two well-formed decimals.
pub fn dec_lt(a: &Decimal, b: &Decimal) -> (r: bool)
    requires
        a.wf(),
        b.wf(),
    ensures
        r == a.spec_lt(*b),
{
    let pa = pow10_u64(b.scale);
    let pb = pow10_u64(a.scale);
    proof {
        lemma_pow10_pos(a.scale as nat);
        lemma_pow10_pos(b.scale as nat);
        lemma_pow10_mono(a.scale as nat, 18);
        lemma_pow10_mono(b.scale as nat, 18);
        lemma_pow10_18();
        assert((a.mantissa as int) * (pa as int) <= u64::MAX * 1000000000000000000int)
            by (nonlinear_arith)
            requires
                0 <= a.mantissa as int <= u64::MAX,
                0 <= pa as int <= 1000000000000000000int,
        ;
        assert((b.mantissa as int) * (pb as int) <= u64::MAX * 1000000000000000000int)
            by (nonlinear_arith)
            requires
                0 <= b.mantissa as int <= u64::MAX,
                0 <= pb as int <= 1000000000000000000int,
        ;
        assert((a.mantissa as int) * (pa as int) >= 0) by (nonlinear_arith)
            requires
                a.mantissa as int >= 0,
                pa as int >= 0,
        ;
        assert((b.mantissa as int) * (pb as int) >= 0) by (nonlinear_arith)
            requires
                b.mantissa as int >= 0,
                pb as int >= 0,
        ;
    }
    let la: i128 = (a.mantissa as i128) * (pa as i128);
    let lb: i128 = (b.mantissa as i128) * (pb as i128);
    let sa: i128 = if a.neg {
        -la
    } else {
        la
    };
    let sb: i128 = if b.neg {
        -lb
    } else {
        lb
    };
    proof {
        assert(sa as int == a.num() * pow10(b.scale as nat)) by (nonlinear_arith)
            requires
                la as int == (a.mantissa as int) * (pa as int),
                pa as int == pow10(b.scale as nat),
                sa as int == if a.neg { -(la as int) } else { la as int },
                a.num() == if a.neg { -(a.mantissa as int) } else { a.mantissa as int },
        ;
        assert(sb as int == b.num() * pow10(a.scale as nat)) by (nonlinear_arith)
            requires
                lb as int == (b.mantissa as int) * (pb as int),
                pb as int == pow10(a.scale as nat),
                sb as int == if b.neg { -(lb as int) } else { lb as int },
                b.num() == if b.neg { -(b.mantissa as int) } else { b.mantissa as int },
        ;
    }
    sa < sb
}

} // verus!
