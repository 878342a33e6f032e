//! Amounts: unsigned decimal numbers in the grammar of Rust's `f64` parser.

use vstd::prelude::*;
use crate::text::{digit_char, is_digit};

verus! {

/// The first position at or after `i` that holds no digit, or the end of `a`.
pub open spec fn digit_run_end(a: Seq<char>, i: int) -> int
    decreases a.len() - i,
{
    if i < 0 || i >= a.len() || !is_digit(a[i]) {
        if i < 0 { 0 } else if i >= a.len() { a.len() as int } else { i }
    } else {
        digit_run_end(a, i + 1)
    }
}

/// One past an optional leading `+`.
pub open spec fn sign_end(a: Seq<char>) -> int {
    if a.len() > 0 && a[0] == '+' { 1 } else { 0 }
}

/// The end of the digits before the point.
pub open spec fn int_end(a: Seq<char>) -> int {
    digit_run_end(a, sign_end(a))
}

/// The start of the digits after the point; without a point, `int_end`.
pub open spec fn frac_start(a: Seq<char>) -> int {
    if int_end(a) < a.len() && a[int_end(a)] == '.' { int_end(a) + 1 } else { int_end(a) }
}

/// The end of the digits after the point.
pub open spec fn frac_end(a: Seq<char>) -> int {
    digit_run_end(a, frac_start(a))
}

/// Where the digits of the exponent start, after `e` or `E` and an optional
/// sign.
pub open spec fn exp_start(a: Seq<char>) -> int {
    let f = frac_end(a);
    if f + 1 < a.len() && (a[f + 1] == '+' || a[f + 1] == '-') { f + 2 } else { f + 1 }
}

/// The grammar of an unsigned `f64`: an optional `+`; digits with at most
/// one point, and at least one digit; then, optionally, `e` or `E`, an
/// optional sign and one or more digits.
pub open spec fn number_syntax(a: Seq<char>) -> bool {
    &&& int_end(a) > sign_end(a) || frac_end(a) > frac_start(a)
    &&& frac_end(a) == a.len() || {
        &&& a[frac_end(a)] == 'e' || a[frac_end(a)] == 'E'
        &&& digit_run_end(a, exp_start(a)) == a.len()
        &&& a.len() > exp_start(a)
    }
}

/// A number starts at position `i`: after an optional `+` and an optional
/// point stands a digit.
pub open spec fn number_start(s: Seq<char>, i: int) -> bool {
    let j = if 0 <= i < s.len() && s[i] == '+' { i + 1 } else { i };
    let k = if 0 <= j < s.len() && s[j] == '.' { j + 1 } else { j };
    0 <= i && k < s.len() && is_digit(s[k])
}

fn digit_run_end_at(a: &str, i: usize) -> (r: usize)
    requires
        i <= a@.len(),
    ensures
        r == digit_run_end(a@, i as int),
        i <= r <= a@.len(),
        r < a@.len() ==> !is_digit(a@[r as int]),
        forall|j: int| i <= j < r ==> is_digit(a@[j]),
{
    let n = a.unicode_len();
    let mut k: usize = i;
    while k < n && digit_char(a.get_char(k))
        invariant
            n == a@.len(),
            i <= k <= n,
            digit_run_end(a@, i as int) == digit_run_end(a@, k as int),
            forall|j: int| i <= j < k ==> is_digit(a@[j]),
        decreases n - k,
    {
        k = k + 1;
    }
    k
}

/// Whether the text is an unsigned number in the grammar of `f64`.
pub fn is_number(a: &str) -> (r: bool)
    ensures
        r == number_syntax(a@),
{
    let n = a.unicode_len();
    let se: usize = if n > 0 && a.get_char(0) == '+' { 1 } else { 0 };
    let ie = digit_run_end_at(a, se);
    let fs = if ie < n && a.get_char(ie) == '.' { ie + 1 } else { ie };
    let fe = digit_run_end_at(a, fs);
    if ie == se && fe == fs {
        return false;
    }
    if fe == n {
        return true;
    }
    let c = a.get_char(fe);
    if !(c == 'e' || c == 'E') {
        return false;
    }
    let ds = if fe + 1 < n && (a.get_char(fe + 1) == '+' || a.get_char(fe + 1) == '-') {
        fe + 2
    } else {
        fe + 1
    };
    let xe = digit_run_end_at(a, ds);
    xe == n && xe > ds
}

/// Whether a number starts at position `i`.
pub fn starts_number(s: &str, i: usize) -> (r: bool)
    ensures
        r == number_start(s@, i as int),
{
    let n = s.unicode_len();
    if i >= n {
        return false;
    }
    let j = if s.get_char(i) == '+' { i + 1 } else { i };
    let k = if j < n && s.get_char(j) == '.' { j + 1 } else { j };
    k < n && digit_char(s.get_char(k))
}

pub open spec fn digit_value(c: char) -> int {
    (c as u32) as int - 48
}

/// The number that a string of decimal digits writes.
pub open spec fn digits_value(d: Seq<char>) -> int
    decreases d.len(),
{
    if d.len() == 0 {
        0
    } else {
        digits_value(d.drop_last()) * 10 + digit_value(d.last())
    }
}

pub open spec fn pow10(n: nat) -> int
    decreases n,
{
    if n == 0 {
        1
    } else {
        10 * pow10((n - 1) as nat)
    }
}

/// 2^1024 - 2^970 in decimal: halfway between `f64::MAX` and 2^1024, the
/// least value that the parser rounds to infinity.
pub const FLOAT_LIMIT: &'static str = "179769313486231580793728971405303415079934132710037826936173778980444968292764750946649017977587207096330286416692887910946555547851940402630657488671505820681908902000708383676273854845817711531764475730270069855571366959622842914819860834936475292719074168444365510704342711559699508093042880177904174497792";

pub open spec fn float_limit() -> int {
    digits_value(FLOAT_LIMIT@)
}

/// The digits of a number, before and after the point, without the point.
pub open spec fn mantissa_digits(a: Seq<char>) -> Seq<char> {
    a.subrange(sign_end(a), int_end(a)) + a.subrange(frac_start(a), frac_end(a))
}

/// The value of the exponent, zero where there is none.
pub open spec fn exponent(a: Seq<char>) -> int {
    if frac_end(a) >= a.len() {
        0
    } else {
        let v = digits_value(a.subrange(exp_start(a), a.len() as int));
        if exp_start(a) == frac_end(a) + 2 && a[frac_end(a) + 1] == '-' {
            -v
        } else {
            v
        }
    }
}

/// The power of ten by which the mantissa digits are scaled.
pub open spec fn scale(a: Seq<char>) -> int {
    exponent(a) - (frac_end(a) - frac_start(a))
}

/// The number is below the limit: mantissa * 10^scale < limit, both sides
/// multiplied up to integers.
pub open spec fn below_limit(a: Seq<char>) -> bool {
    let s = scale(a);
    digits_value(mantissa_digits(a)) * pow10(if s > 0 { s as nat } else { 0 }) < float_limit()
        * pow10(if s < 0 { (-s) as nat } else { 0 })
}

/// A finite, non-negative number as `f64` parses it: the grammar, and a value
/// that does not round to infinity.
pub open spec fn is_amount(a: Seq<char>) -> bool {
    number_syntax(a) && below_limit(a)
}

pub open spec fn all_digits(d: Seq<char>) -> bool {
    forall|i: int| 0 <= i < d.len() ==> is_digit(#[trigger] d[i])
}

pub open spec fn zeros(m: nat) -> Seq<char> {
    Seq::new(m, |i: int| '0')
}

proof fn lemma_pow10_positive(n: nat)
    ensures
        pow10(n) >= 1,
    decreases n,
{
    if n > 0 {
        lemma_pow10_positive((n - 1) as nat);
    }
}

proof fn lemma_pow10_add(a: nat, b: nat)
    ensures
        pow10(a + b) == pow10(a) * pow10(b),
    decreases b,
{
    if b > 0 {
        lemma_pow10_add(a, (b - 1) as nat);
        assert(pow10(a + b) == 10 * pow10((a + b - 1) as nat));
        assert(pow10(a) * pow10(b) == pow10(a) * (10 * pow10((b - 1) as nat)));
        assert(pow10(a) * (10 * pow10((b - 1) as nat)) == 10 * (pow10(a) * pow10((b - 1) as nat)))
            by (nonlinear_arith);
    }
}

proof fn lemma_pow10_mono(a: nat, b: nat)
    requires
        a <= b,
    ensures
        pow10(a) <= pow10(b),
{
    lemma_pow10_add(a, (b - a) as nat);
    lemma_pow10_positive(a);
    lemma_pow10_positive((b - a) as nat);
    assert(pow10(a) <= pow10(a) * pow10((b - a) as nat)) by (nonlinear_arith)
        requires
            pow10(a) >= 1,
            pow10((b - a) as nat) >= 1,
    ;
}

proof fn lemma_concat(x: Seq<char>, y: Seq<char>)
    ensures
        digits_value(x + y) == digits_value(x) * pow10(y.len()) + digits_value(y),
    decreases y.len(),
{
    if y.len() == 0 {
        assert(x + y =~= x);
        assert(pow10(0) == 1);
        assert(digits_value(y) == 0);
        assert(digits_value(x) * 1 == digits_value(x));
    } else {
        let y1 = y.drop_last();
        assert(y1.len() == y.len() - 1);
        assert((x + y).drop_last() =~= x + y1);
        lemma_concat(x, y1);
        let dx = digits_value(x);
        let p = pow10(y1.len());
        assert(pow10(y.len()) == 10 * p);
        assert((x + y).last() == y.last());
        assert(digits_value(x + y) == digits_value(x + y1) * 10 + digit_value(y.last()));
        assert(digits_value(y) == digits_value(y1) * 10 + digit_value(y.last()));
        assert((dx * p + digits_value(y1)) * 10 == dx * (10 * p) + digits_value(y1) * 10)
            by (nonlinear_arith);
        assert(digits_value(x + y) == dx * pow10(y.len()) + digits_value(y));
    }
}

proof fn lemma_bound(x: Seq<char>)
    requires
        all_digits(x),
    ensures
        0 <= digits_value(x) < pow10(x.len()),
    decreases x.len(),
{
    if x.len() > 0 {
        let x1 = x.drop_last();
        assert(all_digits(x1)) by {
            assert forall|i: int| 0 <= i < x1.len() implies is_digit(#[trigger] x1[i]) by {
                assert(x1[i] == x[i]);
            }
        }
        lemma_bound(x1);
        assert(is_digit(x[x.len() - 1]));
        let v = digits_value(x1);
        let p = pow10(x1.len());
        let d = digit_value(x.last());
        assert(0 <= d <= 9);
        assert(v * 10 + d < 10 * p) by (nonlinear_arith)
            requires
                v < p,
                0 <= d <= 9,
        ;
        assert(0 <= v * 10 + d) by (nonlinear_arith)
            requires
                0 <= v,
                0 <= d,
        ;
    }
}

proof fn lemma_lead(x: Seq<char>)
    requires
        all_digits(x),
        x.len() >= 1,
        x[0] != '0',
    ensures
        digits_value(x) >= pow10((x.len() - 1) as nat),
{
    let h = x.subrange(0, 1);
    let t = x.subrange(1, x.len() as int);
    assert(x =~= h + t);
    lemma_concat(h, t);
    assert(h.drop_last() =~= Seq::<char>::empty());
    assert(digits_value(h.drop_last()) == 0);
    assert(h.last() == x[0]);
    assert(digits_value(h) == digit_value(x[0]));
    assert(is_digit(x[0]));
    assert(all_digits(t)) by {
        assert forall|i: int| 0 <= i < t.len() implies is_digit(#[trigger] t[i]) by {
            assert(t[i] == x[i + 1]);
        }
    }
    lemma_bound(t);
    let d = digit_value(x[0]);
    let p = pow10(t.len());
    lemma_pow10_positive(t.len());
    assert(d * p + digits_value(t) >= p) by (nonlinear_arith)
        requires
            d >= 1,
            p >= 1,
            digits_value(t) >= 0,
    ;
}

proof fn lemma_zeros_value(m: nat)
    ensures
        digits_value(zeros(m)) == 0,
    decreases m,
{
    if m > 0 {
        assert(zeros(m).drop_last() =~= zeros((m - 1) as nat));
        lemma_zeros_value((m - 1) as nat);
    }
}

proof fn lemma_zero_prefix(x: Seq<char>, z: int)
    requires
        0 <= z <= x.len(),
        forall|j: int| 0 <= j < z ==> x[j] == '0',
    ensures
        digits_value(x) == digits_value(x.subrange(z, x.len() as int)),
{
    let h = x.subrange(0, z);
    assert(h =~= zeros(z as nat));
    assert(x =~= h + x.subrange(z, x.len() as int));
    lemma_concat(h, x.subrange(z, x.len() as int));
    lemma_zeros_value(z as nat);
}

proof fn lemma_pad(x: Seq<char>, m: nat)
    ensures
        digits_value(x + zeros(m)) == digits_value(x) * pow10(m),
{
    lemma_concat(x, zeros(m));
    lemma_zeros_value(m);
}

/// Of two digit strings of one length, the one with the smaller digit at the
/// first place where they differ writes the smaller number.
proof fn lemma_lex(x: Seq<char>, y: Seq<char>, i: int)
    requires
        x.len() == y.len(),
        all_digits(x),
        all_digits(y),
        0 <= i < x.len(),
        x.subrange(0, i) == y.subrange(0, i),
        x[i] < y[i],
    ensures
        digits_value(x) < digits_value(y),
{
    let n = x.len() as int;
    let xh = x.subrange(0, i + 1);
    let yh = y.subrange(0, i + 1);
    let xt = x.subrange(i + 1, n);
    let yt = y.subrange(i + 1, n);
    assert(x =~= xh + xt);
    assert(y =~= yh + yt);
    lemma_concat(xh, xt);
    lemma_concat(yh, yt);
    assert(xh.drop_last() =~= x.subrange(0, i));
    assert(yh.drop_last() =~= y.subrange(0, i));
    assert(all_digits(xt)) by {
        assert forall|j: int| 0 <= j < xt.len() implies is_digit(#[trigger] xt[j]) by {
            assert(xt[j] == x[i + 1 + j]);
        }
    }
    assert(all_digits(yt)) by {
        assert forall|j: int| 0 <= j < yt.len() implies is_digit(#[trigger] yt[j]) by {
            assert(yt[j] == y[i + 1 + j]);
        }
    }
    lemma_bound(xt);
    lemma_bound(yt);
    assert(is_digit(x[i]) && is_digit(y[i]));
    let c = digits_value(x.subrange(0, i));
    let dx = digit_value(x[i]);
    let dy = digit_value(y[i]);
    let p = pow10(xt.len());
    let vx = digits_value(xt);
    let vy = digits_value(yt);
    assert((c * 10 + dx) * p + vx < (c * 10 + dy) * p + vy) by (nonlinear_arith)
        requires
            dx < dy,
            0 <= vx < p,
            0 <= vy,
    ;
}

proof fn lemma_limit()
    ensures
        FLOAT_LIMIT@.len() == 309,
        all_digits(FLOAT_LIMIT@),
        pow10(308) <= float_limit() < pow10(309),
{
    reveal_strlit("179769313486231580793728971405303415079934132710037826936173778980444968292764750946649017977587207096330286416692887910946555547851940402630657488671505820681908902000708383676273854845817711531764475730270069855571366959622842914819860834936475292719074168444365510704342711559699508093042880177904174497792");
    assert(FLOAT_LIMIT@.len() == 309);
    assert(all_digits(FLOAT_LIMIT@));
    assert(FLOAT_LIMIT@[0] == '1');
    lemma_bound(FLOAT_LIMIT@);
    lemma_lead(FLOAT_LIMIT@);
}

proof fn lemma_mul_cancel(x: int, y: int, c: int)
    requires
        c > 0,
    ensures
        (x < y) == (x * c < y * c),
{
    if x < y {
        assert(x * c < y * c) by (nonlinear_arith)
            requires
                x < y,
                c > 0,
        ;
    } else {
        assert(x * c >= y * c) by (nonlinear_arith)
            requires
                x >= y,
                c > 0,
        ;
    }
}

/// How a number `n` of `k` significant digits, scaled by `10^s`, compares
/// with a limit of 309 digits, by the magnitude `k + s`.
proof fn lemma_decide(n: int, k: nat, s: int, lim: int, m: nat)
    requires
        k >= 1,
        pow10((k - 1) as nat) <= n < pow10(k),
        pow10(308) <= lim < pow10(309),
        m >= k,
        m >= 309,
    ensures
        ({
            let a: nat = if s > 0 { s as nat } else { 0 };
            let b: nat = if s < 0 { (-s) as nat } else { 0 };
            &&& k + s <= 308 ==> n * pow10(a) < lim * pow10(b)
            &&& k + s >= 310 ==> n * pow10(a) >= lim * pow10(b)
            &&& k + s == 309 ==> (n * pow10(a) < lim * pow10(b)) == (n * pow10(
                (m - k) as nat,
            ) < lim * pow10((m - 309) as nat))
        }),
{
    let a: nat = if s > 0 { s as nat } else { 0 };
    let b: nat = if s < 0 { (-s) as nat } else { 0 };
    let pa = pow10(a);
    let pb = pow10(b);
    lemma_pow10_positive(a);
    lemma_pow10_positive(b);
    if k + s <= 308 {
        lemma_pow10_add(k, a);
        lemma_pow10_add(308, b);
        lemma_pow10_mono(k + a, 308 + b);
        assert(n * pa < pow10(k) * pa) by (nonlinear_arith)
            requires
                n < pow10(k),
                pa > 0,
        ;
        assert(pow10(308) * pb <= lim * pb) by (nonlinear_arith)
            requires
                pow10(308) <= lim,
                pb > 0,
        ;
    }
    if k + s >= 310 {
        lemma_pow10_add((k - 1) as nat, a);
        lemma_pow10_add(309, b);
        lemma_pow10_mono(309 + b, (k - 1 + a) as nat);
        assert(n * pa >= pow10((k - 1) as nat) * pa) by (nonlinear_arith)
            requires
                n >= pow10((k - 1) as nat),
                pa > 0,
        ;
        assert(pow10(309) * pb > lim * pb) by (nonlinear_arith)
            requires
                pow10(309) > lim,
                pb > 0,
        ;
    }
    if k + s == 309 {
        let c = pow10((m - 309) as nat);
        let u = pow10((m - k) as nat);
        lemma_pow10_positive((m - 309) as nat);
        lemma_mul_cancel(n * pa, lim * pb, c);
        lemma_pow10_add(a, (m - 309) as nat);
        lemma_pow10_add(b, (m - k) as nat);
        assert(a + (m - 309) == b + (m - k));
        lemma_pow10_add((m - 309) as nat, b);
        lemma_pow10_add((m - k) as nat, b);
        assert(n * pa * c == n * (pa * c)) by (nonlinear_arith);
        assert(lim * pb * c == (lim * c) * pb) by (nonlinear_arith);
        assert(n * (u * pb) == (n * u) * pb) by (nonlinear_arith);
        lemma_mul_cancel(n * u, lim * c, pb);
    }
}

fn mantissa_char(a: &str, se: usize, ie: usize, fs: usize, fe: usize, p: usize) -> (c: char)
    requires
        se <= ie <= fs <= fe <= a@.len(),
        p < (ie - se) + (fe - fs),
    ensures
        c == (a@.subrange(se as int, ie as int) + a@.subrange(fs as int, fe as int))[p as int],
{
    if p < ie - se {
        a.get_char(se + p)
    } else {
        a.get_char(fs + (p - (ie - se)))
    }
}

pub const EXPONENT_CAP: u128 = 0x40_0000_0000_0000_0000;

pub open spec fn saturated(v: int) -> int {
    if v >= EXPONENT_CAP { EXPONENT_CAP as int } else { v }
}

/// The digits of the exponent: after `e` or `E` and its sign, to the end.
pub open spec fn exponent_digits(a: Seq<char>) -> Seq<char> {
    a.subrange(exp_start(a), a.len() as int)
}

/// The exponent's magnitude, saturated, and whether it is negative.
fn exponent_of(a: &str, fe: usize) -> (r: (u128, bool))
    requires
        number_syntax(a@),
        fe == frac_end(a@),
        fe < a@.len(),
    ensures
        r.0 as int == saturated(digits_value(exponent_digits(a@))),
        digits_value(exponent_digits(a@)) >= 0,
        exponent(a@) == if r.1 {
            -digits_value(exponent_digits(a@))
        } else {
            digits_value(exponent_digits(a@))
        },
{
    let n = a.unicode_len();
    let ds = if fe + 1 < n && (a.get_char(fe + 1) == '+' || a.get_char(fe + 1) == '-') {
        fe + 2
    } else {
        fe + 1
    };
    let neg = ds == fe + 2 && a.get_char(fe + 1) == '-';
    let xe = digit_run_end_at(a, ds);
    let mut e: u128 = 0;
    let mut j: usize = ds;
    proof {
        assert(a@.subrange(ds as int, ds as int).len() == 0);
    }
    while j < n
        invariant
            n == a@.len(),
            ds <= j <= n,
            xe == n,
            forall|i: int| ds <= i < xe ==> is_digit(a@[i]),
            e as int == saturated(digits_value(a@.subrange(ds as int, j as int))),
            digits_value(a@.subrange(ds as int, j as int)) >= 0,
        decreases n - j,
    {
        let c = a.get_char(j);
        assert(is_digit(a@[j as int]));
        let v = (c as u32 - 48) as u128;
        proof {
            let pre = a@.subrange(ds as int, j as int);
            let nxt = a@.subrange(ds as int, j + 1);
            assert(nxt.drop_last() =~= pre);
            assert(nxt.last() == c);
            assert(digits_value(nxt) == digits_value(pre) * 10 + v);
        }
        e = if e >= EXPONENT_CAP {
            EXPONENT_CAP
        } else {
            let t = e * 10 + v;
            if t > EXPONENT_CAP {
                EXPONENT_CAP
            } else {
                t
            }
        };
        j = j + 1;
    }
    (e, neg)
}

/// Whether the significant digits `g`, padded with zeros to the length of
/// the longer, write a smaller number than the limit padded likewise.
fn padded_below(a: &str, se: usize, ie: usize, fs: usize, fe: usize, z: usize, m: usize) -> (r:
    bool)
    requires
        se <= ie <= fs <= fe <= a@.len(),
        z < (ie - se) + (fe - fs),
        m >= (ie - se) + (fe - fs) - z,
        m >= 309,
        all_digits(a@.subrange(se as int, ie as int) + a@.subrange(fs as int, fe as int)),
    ensures
        ({
            let d = a@.subrange(se as int, ie as int) + a@.subrange(fs as int, fe as int);
            let g = d.subrange(z as int, d.len() as int);
            r == (digits_value(g) * pow10((m - g.len()) as nat) < float_limit() * pow10(
                (m - 309) as nat,
            ))
        }),
{
    let ghost d = a@.subrange(se as int, ie as int) + a@.subrange(fs as int, fe as int);
    let dl = (ie - se) + (fe - fs);
    let k = dl - z;
    let ghost g = d.subrange(z as int, dl as int);
    let ghost gp = g + zeros((m - k) as nat);
    let ghost lp = FLOAT_LIMIT@ + zeros((m - 309) as nat);
    proof {
        lemma_limit();
        lemma_pad(g, (m - k) as nat);
        lemma_pad(FLOAT_LIMIT@, (m - 309) as nat);
        assert(all_digits(gp)) by {
            assert forall|i: int| 0 <= i < gp.len() implies is_digit(#[trigger] gp[i]) by {
                if i < k {
                    assert(gp[i] == d[z + i]);
                }
            }
        }
        assert(all_digits(lp)) by {
            assert forall|i: int| 0 <= i < lp.len() implies is_digit(#[trigger] lp[i]) by {
                if i < 309 {
                    assert(lp[i] == FLOAT_LIMIT@[i]);
                }
            }
        }
    }
    let lim = FLOAT_LIMIT;
    let mut i: usize = 0;
    while i < m
        invariant
            se <= ie <= fs <= fe <= a@.len(),
            dl == d.len(),
            d == a@.subrange(se as int, ie as int) + a@.subrange(fs as int, fe as int),
            k == dl - z,
            z < dl,
            g == d.subrange(z as int, dl as int),
            gp == g + zeros((m - k) as nat),
            lp == FLOAT_LIMIT@ + zeros((m - 309) as nat),
            lim@ == FLOAT_LIMIT@,
            FLOAT_LIMIT@.len() == 309,
            m >= k,
            m >= 309,
            i <= m,
            gp.subrange(0, i as int) == lp.subrange(0, i as int),
            all_digits(gp),
            all_digits(lp),
            digits_value(gp) == digits_value(g) * pow10((m - k) as nat),
            digits_value(lp) == float_limit() * pow10((m - 309) as nat),
        decreases m - i,
    {
        let x = if i < k { mantissa_char(a, se, ie, fs, fe, z + i) } else { '0' };
        let y = if i < 309 { lim.get_char(i) } else { '0' };
        assert(x == gp[i as int]);
        assert(y == lp[i as int]);
        if x != y {
            proof {
                assert(g.len() == k);
                if x < y {
                    lemma_lex(gp, lp, i as int);
                } else {
                    lemma_lex(lp, gp, i as int);
                }
            }
            return x < y;
        }
        assert(gp.subrange(0, i + 1) =~= gp.subrange(0, i as int).push(x));
        assert(lp.subrange(0, i + 1) =~= lp.subrange(0, i as int).push(y));
        i = i + 1;
    }
    assert(gp =~= gp.subrange(0, m as int));
    assert(lp =~= lp.subrange(0, m as int));
    false
}

/// Whether a number in the grammar of `f64` stays below the value that
/// rounds to infinity.
#[verifier::rlimit(60)]
pub fn below_float_limit(a: &str) -> (r: bool)
    requires
        number_syntax(a@),
    ensures
        r == below_limit(a@),
{
    let n = a.unicode_len();
    let se: usize = if n > 0 && a.get_char(0) == '+' { 1 } else { 0 };
    let ie = digit_run_end_at(a, se);
    let fs = if ie < n && a.get_char(ie) == '.' { ie + 1 } else { ie };
    let fe = digit_run_end_at(a, fs);
    let ghost d = mantissa_digits(a@);
    let dl = (ie - se) + (fe - fs);
    proof {
        assert(se as int == sign_end(a@));
        assert(fs as int == frac_start(a@));
        assert(all_digits(d)) by {
            assert forall|i: int| 0 <= i < d.len() implies is_digit(#[trigger] d[i]) by {
                if i < ie - se {
                    assert(d[i] == a@[se + i]);
                } else {
                    assert(d[i] == a@[fs + i - (ie - se)]);
                }
            }
        }
        lemma_limit();
    }
    let mut z: usize = 0;
    while z < dl && mantissa_char(a, se, ie, fs, fe, z) == '0'
        invariant
            se <= ie <= fs <= fe <= n,
            n == a@.len(),
            dl == d.len(),
            d == a@.subrange(se as int, ie as int) + a@.subrange(fs as int, fe as int),
            z <= dl,
            forall|j: int| 0 <= j < z ==> d[j] == '0',
        decreases dl - z,
    {
        z = z + 1;
    }
    proof {
        lemma_zero_prefix(d, z as int);
    }
    let ghost g = d.subrange(z as int, dl as int);
    let ghost sc = scale(a@);
    let ghost pa: nat = if sc > 0 { sc as nat } else { 0 };
    let ghost pb: nat = if sc < 0 { (-sc) as nat } else { 0 };
    if z == dl {
        proof {
            assert(g.len() == 0);
            lemma_pow10_positive(pa);
            lemma_pow10_positive(pb);
            assert(0 * pow10(pa) < float_limit() * pow10(pb)) by (nonlinear_arith)
                requires
                    float_limit() >= 1,
                    pow10(pb) >= 1,
            ;
        }
        return true;
    }
    let k = dl - z;
    proof {
        assert(all_digits(g)) by {
            assert forall|i: int| 0 <= i < g.len() implies is_digit(#[trigger] g[i]) by {
                assert(g[i] == d[z + i]);
            }
        }
        assert(g[0] == d[z as int]);
        lemma_lead(g);
        lemma_bound(g);
    }
    let (e, neg) = if fe < n { exponent_of(a, fe) } else { (0u128, false) };
    let ghost ev = if fe < n { digits_value(exponent_digits(a@)) } else { 0 };
    assert(e as int == saturated(ev));
    assert(exponent(a@) == if neg { -ev } else { ev });
    assert(n <= usize::MAX);
    let f = fe - fs;
    let p: i128 = if neg {
        k as i128 - e as i128 - f as i128
    } else {
        k as i128 + e as i128 - f as i128
    };
    let m: usize = if k > 309 { k } else { 309 };
    proof {
        lemma_decide(digits_value(g), k as nat, sc, float_limit(), m as nat);
    }
    if p <= 308 {
        return true;
    }
    if p >= 310 {
        return false;
    }
    padded_below(a, se, ie, fs, fe, z, m)
}

/// Whether the text is a finite, non-negative number as `f64` parses it.
pub fn is_amount_text(a: &str) -> (r: bool)
    ensures
        r == is_amount(a@),
{
    is_number(a) && below_float_limit(a)
}

} // verus!
