//! Numbers read from decimal text, as far as the bands of a scale need them:
//! the sign, the whole part, and whether any digit is nonzero.
use vstd::prelude::*;

verus! {

/// Whole parts from this value on are all held as this value.
pub const WHOLE_LIMIT: u64 = 1_000_000_000_000_000_000;

/// A number as its comparisons with whole numbers see it: its sign, its whole
/// part (held up to [`WHOLE_LIMIT`]), and whether it differs from zero.
///
/// For `0 <= k <= WHOLE_LIMIT`, a number is below `k` exactly when it is
/// negative and either nonzero or `k > 0`, or when it is not negative and its
/// whole part is below `k`. A negative zero is kept as written.
#[derive(Clone, Copy, Debug, PartialEq, Eq)]
pub struct Decimal {
    pub negative: bool,
    pub whole: u64,
    pub nonzero: bool,
}

impl Decimal {
    /// The whole part stays within its limit.
    pub open spec fn wf(self) -> bool {
        self.whole <= WHOLE_LIMIT
    }

    /// The number is below the whole number `k`, for `0 <= k <= WHOLE_LIMIT`.
    pub open spec fn below(self, k: int) -> bool {
        if self.negative {
            self.nonzero || k > 0
        } else {
            self.whole < k
        }
    }

    /// Whether the number is below the whole number `k`; whole parts are held
    /// only up to the limit, so `k` stays within it.
    pub fn is_below(&self, k: u64) -> (r: bool)
        requires
            k <= WHOLE_LIMIT,
        ensures
            r == self.below(k as int),
    {
        if self.negative {
            self.nonzero || k > 0
        } else {
            self.whole < k
        }
    }
}

pub open spec fn is_digit(c: char) -> bool {
    '0' <= c && c <= '9'
}

/// The number that a run of decimal digits spells.
pub open spec fn digits_value(s: Seq<char>) -> nat
    decreases s.len(),
{
    if s.len() == 0 {
        0
    } else {
        digits_value(s.drop_last()) * 10 + (s.last() as int - '0' as int) as nat
    }
}

pub open spec fn dot_free(s: Seq<char>) -> bool {
    forall|i: int| 0 <= i < s.len() ==> s[i] != '.'
}

/// The characters of `s` before its first '.'; all of `s` where it has none.
pub open spec fn whole_digits(s: Seq<char>) -> Seq<char>
    decreases s.len(),
{
    if s.len() == 0 {
        s
    } else if s.last() == '.' || !dot_free(s.drop_last()) {
        whole_digits(s.drop_last())
    } else {
        whole_digits(s.drop_last()).push(s.last())
    }
}

/// Some digit of `s` is not '0'.
pub open spec fn has_nonzero_digit(s: Seq<char>) -> bool {
    exists|i: int| 0 <= i < s.len() && is_digit(#[trigger] s[i]) && s[i] != '0'
}

/// Digits with at most one '.', which stands between two digits.
pub open spec fn is_unsigned_text(s: Seq<char>) -> bool {
    &&& s.len() > 0
    &&& is_digit(s[0])
    &&& is_digit(s.last())
    &&& forall|i: int| 0 <= i < s.len() ==> is_digit(#[trigger] s[i]) || s[i] == '.'
    &&& forall|i: int, j: int| 0 <= i < j < s.len() && #[trigger] s[i] == '.' ==> #[trigger] s[j] != '.'
}

/// The text after an optional leading '-'.
pub open spec fn unsigned_part(s: Seq<char>) -> Seq<char> {
    if s.len() > 0 && s[0] == '-' {
        s.drop_first()
    } else {
        s
    }
}

/// Decimal text such as `-12.50`, of any length.
pub open spec fn is_decimal_text(s: Seq<char>) -> bool {
    is_unsigned_text(unsigned_part(s))
}

/// The smaller of `n` and the limit of whole parts.
pub open spec fn capped(n: nat) -> u64 {
    if n < WHOLE_LIMIT {
        n as u64
    } else {
        WHOLE_LIMIT
    }
}

/// The number that decimal text spells, as a [`Decimal`] holds it.
pub open spec fn decimal_of(s: Seq<char>) -> Decimal {
    let b = unsigned_part(s);
    Decimal {
        negative: s.len() > 0 && s[0] == '-',
        whole: capped(digits_value(whole_digits(b))),
        nonzero: has_nonzero_digit(b),
    }
}

/// Reads decimal text: an optional '-', digits, and optionally a '.' with more digits.
///
/// Text of any other shape gives `None`; text of any length and shape above is read.
pub fn parse_decimal(text: &str) -> (r: Option<Decimal>)
    ensures
        r == (if is_decimal_text(text@) {
            Some(decimal_of(text@))
        } else {
            None::<Decimal>
        }),
        r matches Some(d) ==> d.wf(),
{
    let n = text.unicode_len();
    let negative = n > 0 && text.get_char(0) == '-';
    let start: usize = if negative { 1 } else { 0 };
    let ghost b = unsigned_part(text@);
    assert(b =~= text@.subrange(start as int, n as int));
    if start == n {
        return None;
    }
    let mut whole: u64 = 0;
    let mut big = false;
    let mut nonzero = false;
    let mut seen_dot = false;
    let mut i: usize = start;
    while i < n
        invariant
            b == unsigned_part(text@),
            b == text@.subrange(start as int, n as int),
            negative == (text@.len() > 0 && text@[0] == '-'),
            n == text@.len(),
            start < n,
            start <= i <= n,
            forall|j: int| 0 <= j < i - start ==> is_digit(#[trigger] b[j]) || b[j] == '.',
            forall|j: int, k: int| 0 <= j < k < i - start && #[trigger] b[j] == '.' ==> #[trigger] b[k] != '.',
            i > start ==> is_digit(b[0]),
            seen_dot == !dot_free(b.subrange(0, i - start)),
            big ==> digits_value(whole_digits(b.subrange(0, i - start))) >= WHOLE_LIMIT,
            !big ==> whole == digits_value(whole_digits(b.subrange(0, i - start))),
            !big ==> whole < WHOLE_LIMIT,
            nonzero == has_nonzero_digit(b.subrange(0, i - start)),
        decreases n - i,
    {
        let c = text.get_char(i);
        let ghost k = i - start;
        let ghost pre = b.subrange(0, k);
        let ghost next = b.subrange(0, k + 1);
        assert(c == b[k]);
        assert(next.drop_last() =~= pre);
        assert(next.last() == c);
        if c == '.' {
            if i == start {
                assert(b[0] == '.');
                return None;
            }
            if seen_dot {
                let ghost j = choose|j: int| 0 <= j < pre.len() && pre[j] == '.';
                assert(b[j] == '.' && j < k);
                return None;
            }
            seen_dot = true;
            assert(!dot_free(next));
            assert(whole_digits(next) == whole_digits(pre));
            assert forall|j: int| 0 <= j < k implies b[j] != '.' by {
                assert(pre[j] == b[j]);
            }
            assert(has_nonzero_digit(next) == has_nonzero_digit(pre)) by {
                if has_nonzero_digit(next) {
                    let j = choose|j: int| 0 <= j < next.len() && is_digit(#[trigger] next[j]) && next[j] != '0';
                    assert(pre[j] == next[j]);
                }
                if has_nonzero_digit(pre) {
                    let j = choose|j: int| 0 <= j < pre.len() && is_digit(#[trigger] pre[j]) && pre[j] != '0';
                    assert(pre[j] == next[j]);
                }
            }
        } else if '0' <= c && c <= '9' {
            if !seen_dot {
                let ghost ws = whole_digits(pre);
                assert(whole_digits(next) == ws.push(c));
                assert(ws.push(c).drop_last() =~= ws);
                assert(digits_value(ws.push(c)) == digits_value(ws) * 10 + (c as int - '0' as int) as nat);
                if !big {
                    let d = (c as u32 - '0' as u32) as u64;
                    whole = whole * 10 + d;
                    if whole >= WHOLE_LIMIT {
                        big = true;
                    }
                }
            } else {
                assert(whole_digits(next) == whole_digits(pre));
            }
            if c != '0' {
                nonzero = true;
                assert(is_digit(next[k]) && next[k] != '0');
            } else {
                assert(has_nonzero_digit(next) == has_nonzero_digit(pre)) by {
                    if has_nonzero_digit(next) {
                        let j = choose|j: int| 0 <= j < next.len() && is_digit(#[trigger] next[j]) && next[j] != '0';
                        assert(pre[j] == next[j]);
                    }
                    if has_nonzero_digit(pre) {
                        let j = choose|j: int| 0 <= j < pre.len() && is_digit(#[trigger] pre[j]) && pre[j] != '0';
                        assert(pre[j] == next[j]);
                    }
                }
            }
            assert(seen_dot == !dot_free(next)) by {
                if !dot_free(pre) {
                    let j = choose|j: int| 0 <= j < pre.len() && pre[j] == '.';
                    assert(next[j] == '.');
                }
            }
        } else {
            assert(!(is_digit(b[k]) || b[k] == '.'));
            return None;
        }
        i = i + 1;
    }
    assert(b.subrange(0, n - start) =~= b);
    assert(b.last() == text@[n - 1]);
    if !is_digit_char(text.get_char(n - 1)) {
        return None;
    }
    let w = if big {
        WHOLE_LIMIT
    } else {
        whole
    };
    Some(Decimal { negative, whole: w, nonzero })
}

/// Whether `c` is one of '0' to '9'.
pub fn is_digit_char(c: char) -> (r: bool)
    ensures
        r == is_digit(c),
{
    '0' <= c && c <= '9'
}

/// The character of a decimal digit.
pub open spec fn digit_char(d: nat) -> char {
    ((d + 48) as u8) as char
}

/// The decimal numeral of `n`, without leading zeros.
pub open spec fn nat_text(n: nat) -> Seq<char>
    decreases n,
{
    if n < 10 {
        seq![digit_char(n)]
    } else {
        nat_text(n / 10).push(digit_char(n % 10))
    }
}

/// The text of one digit.
pub fn digit_text(d: u64) -> (r: &'static str)
    requires
        d < 10,
    ensures
        r@ == seq![digit_char(d as nat)],
{
    proof {
        reveal_strlit("0");
        reveal_strlit("1");
        reveal_strlit("2");
        reveal_strlit("3");
        reveal_strlit("4");
        reveal_strlit("5");
        reveal_strlit("6");
        reveal_strlit("7");
        reveal_strlit("8");
        reveal_strlit("9");
    }
    match d {
        0 => "0",
        1 => "1",
        2 => "2",
        3 => "3",
        4 => "4",
        5 => "5",
        6 => "6",
        7 => "7",
        8 => "8",
        _ => "9",
    }
}

/// The decimal numeral of `n`.
pub fn natural_text(n: u64) -> (r: String)
    ensures
        r@ == nat_text(n as nat),
    decreases n,
{
    if n < 10 {
        String::from_str(digit_text(n))
    } else {
        let mut r = natural_text(n / 10);
        r.append(digit_text(n % 10));
        r
    }
}

/// Text with exactly one fractional digit, as `{:.1}` prints a number: an
/// optional '-', one or more digits, '.', and one digit.
pub open spec fn is_tenths_text(s: Seq<char>) -> bool {
    let b = unsigned_part(s);
    &&& b.len() >= 3
    &&& b[b.len() - 2] == '.'
    &&& is_digit(b[b.len() - 1])
    &&& forall|i: int| 0 <= i < b.len() - 2 ==> is_digit(#[trigger] b[i])
}

/// Whether `text` has exactly one fractional digit; it may have any number of
/// whole digits.
pub fn is_one_decimal_text(text: &str) -> (r: bool)
    ensures
        r == is_tenths_text(text@),
{
    let n = text.unicode_len();
    let start: usize = if n > 0 && text.get_char(0) == '-' {
        1
    } else {
        0
    };
    let ghost b = unsigned_part(text@);
    assert(b =~= text@.subrange(start as int, n as int));
    if n < start + 3 {
        return false;
    }
    if text.get_char(n - 2) != '.' || !is_digit_char(text.get_char(n - 1)) {
        assert(b[b.len() - 2] == text@[n - 2]);
        assert(b[b.len() - 1] == text@[n - 1]);
        return false;
    }
    assert(b[b.len() - 2] == text@[n - 2]);
    assert(b[b.len() - 1] == text@[n - 1]);
    let mut i: usize = start;
    while i < n - 2
        invariant
            b == unsigned_part(text@),
            b == text@.subrange(start as int, n as int),
            n == text@.len(),
            start + 3 <= n,
            start <= i <= n - 2,
            forall|j: int| 0 <= j < i - start ==> is_digit(#[trigger] b[j]),
        decreases n - i,
    {
        let c = text.get_char(i);
        assert(b[i - start] == c);
        if !is_digit_char(c) {
            return false;
        }
        i = i + 1;
    }
    true
}

/// `10^e`.
pub open spec fn pow10(e: nat) -> nat
    decreases e,
{
    if e == 0 {
        1
    } else {
        10 * pow10((e - 1) as nat)
    }
}

/// The characters of `s` other than '.', in order.
pub open spec fn digits_of(s: Seq<char>) -> Seq<char>
    decreases s.len(),
{
    if s.len() == 0 {
        s
    } else if s.last() == '.' {
        digits_of(s.drop_last())
    } else {
        digits_of(s.drop_last()).push(s.last())
    }
}

/// How many characters follow the '.' of `s`; 0 where `s` has none.
pub open spec fn scale_of(s: Seq<char>) -> nat
    decreases s.len(),
{
    if s.len() == 0 || s.last() == '.' || dot_free(s.drop_last()) {
        0
    } else {
        scale_of(s.drop_last()) + 1
    }
}

/// Decimal text `s` spells a number below the whole number `k`: its digits,
/// signed, over `10^scale`, are below `k * 10^scale`.
pub open spec fn text_below(s: Seq<char>, k: int) -> bool {
    let b = unsigned_part(s);
    let d = digits_value(digits_of(b)) as int;
    let n = if s.len() > 0 && s[0] == '-' {
        -d
    } else {
        d
    };
    n < k * pow10(scale_of(b))
}

proof fn lemma_split_digits(b: Seq<char>)
    requires
        forall|i: int| 0 <= i < b.len() ==> is_digit(#[trigger] b[i]) || b[i] == '.',
        forall|i: int, j: int| 0 <= i < j < b.len() && #[trigger] b[i] == '.' ==> #[trigger] b[j] != '.',
    ensures
        ({
            let d = digits_value(digits_of(b)) as int;
            let w = digits_value(whole_digits(b)) as int;
            let p = pow10(scale_of(b)) as int;
            &&& p >= 1
            &&& w * p <= d < w * p + p
            &&& (d > 0 <==> has_nonzero_digit(b))
            &&& dot_free(b) ==> p == 1
        }),
    decreases b.len(),
{
    if b.len() > 0 {
        let pre = b.drop_last();
        let c = b.last();
        assert forall|i: int, j: int| 0 <= i < j < pre.len() && #[trigger] pre[i] == '.' implies #[trigger] pre[j] != '.' by {
            assert(b[i] == pre[i] && b[j] == pre[j]);
        }
        assert forall|i: int| 0 <= i < pre.len() implies is_digit(#[trigger] pre[i]) || pre[i] == '.' by {
            assert(b[i] == pre[i]);
        }
        lemma_split_digits(pre);
        let d0 = digits_value(digits_of(pre)) as int;
        let w0 = digits_value(whole_digits(pre)) as int;
        let p0 = pow10(scale_of(pre)) as int;
        let d = digits_value(digits_of(b)) as int;
        let w = digits_value(whole_digits(b)) as int;
        let p = pow10(scale_of(b)) as int;
        assert(has_nonzero_digit(b) == (has_nonzero_digit(pre) || (is_digit(c) && c != '0'))) by {
            if has_nonzero_digit(b) {
                let j = choose|j: int| 0 <= j < b.len() && is_digit(#[trigger] b[j]) && b[j] != '0';
                if j < pre.len() {
                    assert(pre[j] == b[j]);
                }
            }
            if has_nonzero_digit(pre) {
                let j = choose|j: int| 0 <= j < pre.len() && is_digit(#[trigger] pre[j]) && pre[j] != '0';
                assert(pre[j] == b[j]);
            }
            if is_digit(c) && c != '0' {
                assert(b[b.len() - 1] == c);
            }
        }
        assert(dot_free(b) ==> dot_free(pre)) by {
            if dot_free(b) {
                assert forall|i: int| 0 <= i < pre.len() implies pre[i] != '.' by {
                    assert(b[i] == pre[i]);
                }
            }
        }
        if c == '.' {
            assert(dot_free(pre)) by {
                assert forall|i: int| 0 <= i < pre.len() implies pre[i] != '.' by {
                    assert(b[i] == pre[i]);
                    assert(b[b.len() - 1] == '.');
                }
            }
            assert(d == d0 && w == w0 && p == 1 && p0 == 1);
            assert(!dot_free(b)) by {
                assert(b[b.len() - 1] == '.');
            }
        } else {
            let cv = c as int - '0' as int;
            let dc = digits_of(pre).push(c);
            assert(dc.drop_last() =~= digits_of(pre));
            assert(d == d0 * 10 + cv);
            if dot_free(pre) {
                let wc = whole_digits(pre).push(c);
                assert(wc.drop_last() =~= whole_digits(pre));
                assert(w == w0 * 10 + cv);
                assert(p == 1 && p0 == 1);
                assert(dot_free(b)) by {
                    assert forall|i: int| 0 <= i < b.len() implies b[i] != '.' by {
                        if i < pre.len() {
                            assert(b[i] == pre[i]);
                        }
                    }
                }
            } else {
                assert(w == w0);
                assert(p == 10 * p0);
                assert(w * p <= d < w * p + p) by (nonlinear_arith)
                    requires
                        w0 * p0 <= d0 < w0 * p0 + p0,
                        d == d0 * 10 + cv,
                        0 <= cv <= 9,
                        w == w0,
                        p == 10 * p0,
                ;
            }
        }
    }
}

/// The comparisons of a [`Decimal`] are those of the number its text spells:
/// for decimal text and any whole `k` up to the limit, the one read from the
/// text is below `k` exactly when that number is.
pub proof fn lemma_decimal_below_exact(s: Seq<char>, k: int)
    requires
        is_decimal_text(s),
        0 <= k <= WHOLE_LIMIT,
    ensures
        decimal_of(s).below(k) == text_below(s, k),
{
    let b = unsigned_part(s);
    lemma_split_digits(b);
    let d = digits_value(digits_of(b)) as int;
    let w = digits_value(whole_digits(b)) as int;
    let p = pow10(scale_of(b)) as int;
    if s.len() > 0 && s[0] == '-' {
        assert(k * p >= 0 && (k > 0 ==> k * p >= 1)) by (nonlinear_arith)
            requires
                k >= 0,
                p >= 1,
        ;
    } else {
        assert((w < k) == (d < k * p)) by (nonlinear_arith)
            requires
                w * p <= d < w * p + p,
                p >= 1,
                w >= 0,
                k >= 0,
        ;
    }
}

} // verus!
