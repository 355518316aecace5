use vstd::prelude::*;
use vstd::string::StrSliceExecFns;
use crate::text::find_first;
use crate::text::lemma_find_first_char;

verus! {

/// Outcome of comparing two texts read as decimal numbers.
#[derive(Clone, Copy, Debug, PartialEq, Eq, Structural)]
pub enum NumCmp {
    /// At least one of the texts is not a decimal number.
    NotNum,
    Lt,
    Eq,
    Gt,
}

pub open spec fn is_digit(c: char) -> bool {
    48 <= c as int && c as int <= 57
}

pub open spec fn digit_val(c: char) -> nat {
    (c as int - 48) as nat
}

pub open spec fn all_digits(s: Seq<char>) -> bool {
    forall|i: int| 0 <= i < s.len() ==> is_digit(#[trigger] s[i])
}

/// The natural number denoted by a string of decimal digits (empty: 0).
pub open spec fn digits_val(s: Seq<char>) -> nat
    decreases s.len(),
{
    if s.len() == 0 {
        0
    } else {
        digits_val(s.drop_last()) * 10 + digit_val(s.last())
    }
}

pub open spec fn pow10(k: nat) -> nat
    decreases k,
{
    if k == 0 {
        1
    } else {
        10 * pow10((k - 1) as nat)
    }
}

pub open spec fn zeros(k: nat) -> Seq<char> {
    Seq::new(k, |i: int| '0')
}

/// A parsed decimal literal: its sign and the digits on each side of the dot.
pub ghost struct Decimal {
    pub neg: bool,
    pub int_digits: Seq<char>,
    pub frac_digits: Seq<char>,
}

pub open spec fn strip_sign(s: Seq<char>) -> (bool, Seq<char>) {
    if s.len() > 0 && s[0] == '-' {
        (true, s.drop_first())
    } else if s.len() > 0 && s[0] == '+' {
        (false, s.drop_first())
    } else {
        (false, s)
    }
}

/// What it means for a text to be a decimal number: an optional sign, then
/// digits, with at most one dot anywhere among them and at least one digit.
pub open spec fn parse_decimal(s: Seq<char>) -> Option<Decimal> {
    let neg = strip_sign(s).0;
    let r = strip_sign(s).1;
    match find_first(r, '.') {
        Option::Some(i) => {
            let ip = r.take(i);
            let fp = r.skip(i + 1);
            if all_digits(ip) && all_digits(fp) && ip.len() + fp.len() >= 1 {
                Option::Some(Decimal { neg, int_digits: ip, frac_digits: fp })
            } else {
                Option::<Decimal>::None
            }
        },
        Option::None => {
            if all_digits(r) && r.len() >= 1 {
                Option::Some(Decimal { neg, int_digits: r, frac_digits: Seq::empty() })
            } else {
                Option::<Decimal>::None
            }
        },
    }
}

/// The fraction digits extended with zeros to a common width `k`.
pub open spec fn pad_frac(f: Seq<char>, k: nat) -> Seq<char>
    recommends
        f.len() <= k,
{
    f + zeros((k - f.len()) as nat)
}

/// The magnitude of a decimal, scaled to an integer by reading it with `k`
/// fraction digits.
pub open spec fn scaled_mag(d: Decimal, k: nat) -> nat {
    digits_val(d.int_digits + pad_frac(d.frac_digits, k))
}

pub open spec fn signed_scaled(d: Decimal, k: nat) -> int {
    if d.neg {
        -(scaled_mag(d, k) as int)
    } else {
        scaled_mag(d, k) as int
    }
}

pub open spec fn max_nat(a: nat, b: nat) -> nat {
    if a >= b {
        a
    } else {
        b
    }
}

/// How the number denoted by `val` compares with the number denoted by
/// `threshold`: the two are brought to a common number of fraction digits and
/// compared as signed integers; NotNum when either text is not a number.
pub open spec fn num_cmp_of(val: Seq<char>, threshold: Seq<char>) -> NumCmp {
    match (parse_decimal(val), parse_decimal(threshold)) {
        (Option::Some(a), Option::Some(b)) => {
            let k = max_nat(a.frac_digits.len(), b.frac_digits.len());
            let x = signed_scaled(a, k);
            let y = signed_scaled(b, k);
            if x < y {
                NumCmp::Lt
            } else if x == y {
                NumCmp::Eq
            } else {
                NumCmp::Gt
            }
        },
        _ => NumCmp::NotNum,
    }
}

proof fn lemma_pow10_pos(k: nat)
    ensures
        pow10(k) >= 1,
    decreases k,
{
    if k > 0 {
        lemma_pow10_pos((k - 1) as nat);
    }
}

/// Splitting a digit string at `i` splits its value.
proof fn lemma_split(s: Seq<char>, i: int)
    requires
        0 <= i <= s.len(),
    ensures
        digits_val(s) == digits_val(s.take(i)) * pow10((s.len() - i) as nat) + digits_val(
            s.skip(i),
        ),
    decreases s.len() - i,
{
    if i == s.len() {
        assert(s.take(i) =~= s);
        assert(s.skip(i) =~= Seq::<char>::empty());
        assert(pow10((s.len() - i) as nat) == 1);
        assert(digits_val(s.skip(i)) == 0);
        assert(digits_val(s.take(i)) * 1 == digits_val(s.take(i)));
    } else {
        lemma_split(s.drop_last(), i);
        assert(s.drop_last().take(i) =~= s.take(i));
        assert(s.skip(i).drop_last() =~= s.drop_last().skip(i));
        assert(s.skip(i).last() == s.last());
        assert(s.skip(i).len() > 0);
        let a = digits_val(s.take(i));
        let p = pow10((s.len() - 1 - i) as nat);
        let q = digits_val(s.drop_last().skip(i));
        let d = digit_val(s.last());
        assert(digits_val(s) == (a * p + q) * 10 + d);
        assert(digits_val(s.skip(i)) == q * 10 + d);
        assert(pow10((s.len() - i) as nat) == 10 * p);
        assert((a * p + q) * 10 + d == a * (10 * p) + (q * 10 + d)) by (nonlinear_arith);
        assert(digits_val(s) == a * (10 * p) + (q * 10 + d));
        assert(a * pow10((s.len() - i) as nat) == a * (10 * p)) by (nonlinear_arith)
            requires
                pow10((s.len() - i) as nat) == 10 * p,
        ;
        assert(digits_val(s) == digits_val(s.take(i)) * pow10((s.len() - i) as nat) + digits_val(
            s.skip(i),
        ));
    }
}

/// A string of `n` digits denotes a value below ten to the `n`.
proof fn lemma_digits_val_bound(s: Seq<char>)
    requires
        all_digits(s),
    ensures
        digits_val(s) < pow10(s.len()),
    decreases s.len(),
{
    if s.len() > 0 {
        assert(all_digits(s.drop_last())) by {
            assert(forall|i: int|
                0 <= i < s.drop_last().len() ==> s.drop_last()[i] == s[i] && is_digit(#[trigger] s[i]));
        }
        lemma_digits_val_bound(s.drop_last());
        let v = digits_val(s.drop_last());
        let p = pow10((s.len() - 1) as nat);
        assert(is_digit(s.last()));
        assert(digit_val(s.last()) <= 9);
        assert(v * 10 + digit_val(s.last()) < p * 10) by (nonlinear_arith)
            requires
                v < p,
                digit_val(s.last()) <= 9,
        ;
        assert(pow10(s.len()) == 10 * p);
    }
}

/// A string of zero digits denotes zero.
proof fn lemma_all_zero_val(s: Seq<char>)
    requires
        forall|i: int| 0 <= i < s.len() ==> s[i] == '0',
    ensures
        digits_val(s) == 0,
    decreases s.len(),
{
    if s.len() > 0 {
        assert(forall|i: int|
            0 <= i < s.drop_last().len() ==> s.drop_last()[i] == s[i] && s[i] == '0');
        lemma_all_zero_val(s.drop_last());
        assert(s.last() == '0');
        assert(digit_val('0') == 0);
    }
}

/// A digit string that denotes zero has only zero digits.
proof fn lemma_val_zero_all(s: Seq<char>)
    requires
        all_digits(s),
        digits_val(s) == 0,
    ensures
        forall|i: int| 0 <= i < s.len() ==> s[i] == '0',
    decreases s.len(),
{
    if s.len() > 0 {
        assert(digits_val(s.drop_last()) == 0 && digit_val(s.last()) == 0);
        assert(all_digits(s.drop_last())) by {
            assert(forall|i: int|
                0 <= i < s.drop_last().len() ==> s.drop_last()[i] == s[i] && is_digit(#[trigger] s[i]));
        }
        lemma_val_zero_all(s.drop_last());
        assert(is_digit(s.last()));
        assert(s.last() == '0');
        assert(forall|i: int|
            0 <= i < s.len() - 1 ==> s[i] == s.drop_last()[i] && s.drop_last()[i] == '0');
    }
}

/// Equal-length digit strings with an equal prefix order by the first
/// differing digit.
proof fn lemma_lex(a: Seq<char>, b: Seq<char>, i: int)
    requires
        a.len() == b.len(),
        all_digits(a),
        all_digits(b),
        0 <= i < a.len(),
        a.take(i) =~= b.take(i),
        (a[i] as int) < (b[i] as int),
    ensures
        digits_val(a) < digits_val(b),
{
    let n = a.len() as int;
    lemma_split(a, i + 1);
    lemma_split(b, i + 1);
    assert(a.take(i + 1).drop_last() =~= a.take(i));
    assert(b.take(i + 1).drop_last() =~= b.take(i));
    assert(a.take(i + 1).last() == a[i]);
    assert(b.take(i + 1).last() == b[i]);
    let c = digits_val(a.take(i));
    let va = digits_val(a.take(i + 1));
    let vb = digits_val(b.take(i + 1));
    assert(va == c * 10 + digit_val(a[i]));
    assert(vb == c * 10 + digit_val(b[i]));
    assert(digit_val(a[i]) < digit_val(b[i]));
    assert(va + 1 <= vb);
    assert(all_digits(a.skip(i + 1))) by {
        assert(forall|j: int|
            0 <= j < a.skip(i + 1).len() ==> a.skip(i + 1)[j] == a[i + 1 + j] && is_digit(
                #[trigger] a[i + 1 + j],
            ));
    }
    lemma_digits_val_bound(a.skip(i + 1));
    let p = pow10((n - i - 1) as nat);
    lemma_pow10_pos((n - i - 1) as nat);
    let ra = digits_val(a.skip(i + 1));
    let rb = digits_val(b.skip(i + 1));
    assert(va * p + ra < vb * p + rb) by (nonlinear_arith)
        requires
            va + 1 <= vb,
            ra < p,
            p >= 1,
            rb >= 0,
    ;
}

/// Leading zeros do not change the value of a digit string.
proof fn lemma_leading_zeros(j: nat, t: Seq<char>)
    ensures
        digits_val(zeros(j) + t) == digits_val(t),
{
    let s = zeros(j) + t;
    lemma_split(s, j as int);
    assert(s.take(j as int) =~= zeros(j));
    assert(s.skip(j as int) =~= t);
    lemma_all_zero_val(zeros(j));
    assert(digits_val(zeros(j)) == 0);
    assert(digits_val(s.take(j as int)) == 0);
    assert(digits_val(s.skip(j as int)) == digits_val(t));
    assert(digits_val(s) == 0 * pow10((s.len() - j) as nat) + digits_val(t));
    assert(digits_val(s) == digits_val(t));
}

fn digit_check(c: char) -> (b: bool)
    ensures
        b == is_digit(c),
{
    let u = c as u32;
    48 <= u && u <= 57
}

fn all_digits_str(s: &str) -> (b: bool)
    ensures
        b == all_digits(s@),
{
    let n = s.unicode_len();
    let mut i: usize = 0;
    while i < n
        invariant
            i <= n,
            n == s@.len(),
            forall|j: int| 0 <= j < i ==> is_digit(#[trigger] s@[j]),
        decreases n - i,
    {
        let c = s.get_char(i);
        if !digit_check(c) {
            assert(!is_digit(s@[i as int]));
            return false;
        }
        i += 1;
    }
    true
}

fn is_zero_digits(s: &str) -> (b: bool)
    requires
        all_digits(s@),
    ensures
        b == (digits_val(s@) == 0),
{
    let n = s.unicode_len();
    let mut i: usize = 0;
    while i < n
        invariant
            i <= n,
            n == s@.len(),
            all_digits(s@),
            forall|j: int| 0 <= j < i ==> s@[j] == '0',
        decreases n - i,
    {
        let c = s.get_char(i);
        if c != '0' {
            proof {
                assert(s@[i as int] != '0');
                if digits_val(s@) == 0 {
                    lemma_val_zero_all(s@);
                    assert(false);
                }
            }
            return false;
        }
        i += 1;
    }
    proof {
        lemma_all_zero_val(s@);
    }
    true
}

/// Parses a text as a decimal number, returning its sign and the digit runs
/// on each side of the dot.
pub fn parse_dec<'a>(s: &'a str) -> (r: Option<(bool, &'a str, &'a str)>)
    ensures
        match (r, parse_decimal(s@)) {
            (Option::Some(t), Option::Some(d)) => t.0 == d.neg && t.1@ == d.int_digits && t.2@
                == d.frac_digits,
            (Option::None, Option::None) => true,
            _ => false,
        },
{
    let n = s.unicode_len();
    let mut neg = false;
    let mut start: usize = 0;
    if n > 0 {
        let c = s.get_char(0);
        if c == '-' {
            neg = true;
            start = 1;
        } else if c == '+' {
            start = 1;
        }
    }
    let ghost r_seq = s@.skip(start as int);
    proof {
        assert(strip_sign(s@).0 == neg);
        assert(strip_sign(s@).1 =~= r_seq);
    }
    let mut dotpos: usize = n;
    let mut i = start;
    while i < n
        invariant
            start <= i <= n,
            n == s@.len(),
            start <= n,
            dotpos == n || (start <= dotpos < i && s@[dotpos as int] == '.' && (forall|j: int|
                start <= j < dotpos ==> s@[j] != '.')),
            dotpos == n ==> forall|j: int| start <= j < i ==> s@[j] != '.',
        decreases n - i,
    {
        if dotpos == n {
            let c = s.get_char(i);
            if c == '.' {
                dotpos = i;
            }
        }
        i += 1;
    }
    proof {
        lemma_find_first_char(r_seq, '.');
        assert(forall|j: int| 0 <= j < r_seq.len() ==> r_seq[j] == s@[start + j]);
        if dotpos < n {
            let fi = dotpos - start;
            assert(r_seq[fi as int] == '.');
            assert(forall|j: int| 0 <= j < fi ==> r_seq[j] != '.');
            match find_first(r_seq, '.') {
                Option::Some(w) => {
                    assert(w == fi);
                },
                Option::None => {
                    assert(false);
                },
            }
        } else {
            assert(forall|j: int| 0 <= j < r_seq.len() ==> r_seq[j] != '.');
            match find_first(r_seq, '.') {
                Option::Some(w) => {
                    assert(false);
                },
                Option::None => {},
            }
        }
    }
    if dotpos < n {
        let ip = s.substring_char(start, dotpos);
        let fp = s.substring_char(dotpos + 1, n);
        proof {
            assert(ip@ =~= r_seq.take((dotpos - start) as int));
            assert(fp@ =~= r_seq.skip((dotpos - start + 1) as int));
        }
        if all_digits_str(ip) && all_digits_str(fp) && (dotpos - start) + (n - (dotpos + 1)) >= 1 {
            Option::Some((neg, ip, fp))
        } else {
            Option::None
        }
    } else {
        let ip = s.substring_char(start, n);
        let fp = s.substring_char(n, n);
        proof {
            assert(ip@ =~= r_seq);
            assert(fp@ =~= Seq::<char>::empty());
        }
        if all_digits_str(ip) && n - start >= 1 {
            Option::Some((neg, ip, fp))
        } else {
            Option::None
        }
    }
}

/// The digits of a decimal, widened on the left to `m` integer digits and on
/// the right to `k` fraction digits.
pub open spec fn padded(ip: Seq<char>, fp: Seq<char>, m: nat, k: nat) -> Seq<char>
    recommends
        ip.len() <= m,
        fp.len() <= k,
{
    zeros((m - ip.len()) as nat) + ip + pad_frac(fp, k)
}

fn pad_digits(ip: &str, fp: &str, m: usize, k: usize) -> (v: Vec<char>)
    requires
        ip@.len() <= m,
        fp@.len() <= k,
    ensures
        v@ == padded(ip@, fp@, m as nat, k as nat),
{
    let ipn = ip.unicode_len();
    let fpn = fp.unicode_len();
    let mut v: Vec<char> = Vec::new();
    let lead = m - ipn;
    let mut i: usize = 0;
    while i < lead
        invariant
            i <= lead,
            v@ =~= zeros(i as nat),
        decreases lead - i,
    {
        v.push('0');
        i += 1;
    }
    let mut j: usize = 0;
    while j < ipn
        invariant
            j <= ipn,
            ipn == ip@.len(),
            v@ =~= zeros(lead as nat) + ip@.take(j as int),
        decreases ipn - j,
    {
        let c = ip.get_char(j);
        v.push(c);
        j += 1;
    }
    assert(v@ =~= zeros(lead as nat) + ip@);
    let mut t: usize = 0;
    while t < fpn
        invariant
            t <= fpn,
            fpn == fp@.len(),
            v@ =~= zeros(lead as nat) + ip@ + fp@.take(t as int),
        decreases fpn - t,
    {
        let c = fp.get_char(t);
        v.push(c);
        t += 1;
    }
    assert(v@ =~= zeros(lead as nat) + ip@ + fp@);
    let tail = k - fpn;
    let mut z: usize = 0;
    while z < tail
        invariant
            z <= tail,
            v@ =~= zeros(lead as nat) + ip@ + fp@ + zeros(z as nat),
        decreases tail - z,
    {
        v.push('0');
        z += 1;
    }
    proof {
        assert(v@ =~= padded(ip@, fp@, m as nat, k as nat));
    }
    v
}

fn cmp_digit_vecs(a: &Vec<char>, b: &Vec<char>) -> (r: NumCmp)
    requires
        a@.len() == b@.len(),
        all_digits(a@),
        all_digits(b@),
    ensures
        (r == NumCmp::Lt <==> digits_val(a@) < digits_val(b@)),
        (r == NumCmp::Eq <==> digits_val(a@) == digits_val(b@)),
        (r == NumCmp::Gt <==> digits_val(a@) > digits_val(b@)),
{
    let n = a.len();
    let mut i: usize = 0;
    while i < n
        invariant
            i <= n,
            n == a@.len(),
            a@.len() == b@.len(),
            all_digits(a@),
            all_digits(b@),
            a@.take(i as int) =~= b@.take(i as int),
        decreases n - i,
    {
        let ca = a[i];
        let cb = b[i];
        if (ca as u32) < (cb as u32) {
            proof {
                lemma_lex(a@, b@, i as int);
            }
            return NumCmp::Lt;
        }
        if (ca as u32) > (cb as u32) {
            proof {
                lemma_lex(b@, a@, i as int);
            }
            return NumCmp::Gt;
        }
        proof {
            assert(ca == cb);
            assert(a@.take(i + 1) =~= b@.take(i + 1));
        }
        i += 1;
    }
    proof {
        assert(a@.take(n as int) =~= a@);
        assert(b@.take(n as int) =~= b@);
        assert(a@ == b@);
    }
    NumCmp::Eq
}

/// The padded digit string of a decimal has only digits, has length `m + k`,
/// and denotes the scaled magnitude.
proof fn lemma_padded_mag(d: Decimal, m: nat, k: nat)
    requires
        all_digits(d.int_digits),
        all_digits(d.frac_digits),
        d.int_digits.len() <= m,
        d.frac_digits.len() <= k,
    ensures
        all_digits(padded(d.int_digits, d.frac_digits, m, k)),
        padded(d.int_digits, d.frac_digits, m, k).len() == m + k,
        digits_val(padded(d.int_digits, d.frac_digits, m, k)) == scaled_mag(d, k),
{
    let pd = padded(d.int_digits, d.frac_digits, m, k);
    let a = (m - d.int_digits.len()) as int;
    let ipl = d.int_digits.len() as int;
    let fpl = d.frac_digits.len() as int;
    assert(pd =~= zeros((m - d.int_digits.len()) as nat) + (d.int_digits + pad_frac(
        d.frac_digits,
        k,
    )));
    lemma_leading_zeros((m - d.int_digits.len()) as nat, d.int_digits + pad_frac(d.frac_digits, k));
    assert forall|i: int| 0 <= i < pd.len() implies is_digit(pd[i]) by {
        if i < a {
            assert(pd[i] == '0');
        } else if i < a + ipl {
            assert(pd[i] == d.int_digits[i - a]);
            assert(is_digit(d.int_digits[i - a]));
        } else if i < a + ipl + fpl {
            assert(pd[i] == d.frac_digits[i - a - ipl]);
            assert(is_digit(d.frac_digits[i - a - ipl]));
        } else {
            assert(pd[i] == '0');
        }
    }
}

/// Compares two decimal texts as numbers: both are read as an optionally
/// signed run of digits with at most one dot, and compared exactly.
pub fn num_cmp(val: &str, threshold: &str) -> (r: NumCmp)
    ensures
        r == num_cmp_of(val@, threshold@),
{
    let pa = parse_dec(val);
    let pb = parse_dec(threshold);
    match (pa, pb) {
        (Option::Some((na, aip, afp)), Option::Some((nb, bip, bfp))) => {
            let ghost da = parse_decimal(val@).unwrap();
            let ghost db = parse_decimal(threshold@).unwrap();
            let ain = aip.unicode_len();
            let bin = bip.unicode_len();
            let afn = afp.unicode_len();
            let bfn = bfp.unicode_len();
            let m = if ain >= bin {
                ain
            } else {
                bin
            };
            let k = if afn >= bfn {
                afn
            } else {
                bfn
            };
            let u = pad_digits(aip, afp, m, k);
            let v = pad_digits(bip, bfp, m, k);
            proof {
                lemma_padded_mag(da, m as nat, k as nat);
                lemma_padded_mag(db, m as nat, k as nat);
                assert(u@.len() == v@.len());
                assert(digits_val(u@) == scaled_mag(da, k as nat));
                assert(digits_val(v@) == scaled_mag(db, k as nat));
            }
            let mag = cmp_digit_vecs(&u, &v);
            if na == nb {
                if !na {
                    mag
                } else {
                    match mag {
                        NumCmp::Lt => NumCmp::Gt,
                        NumCmp::Gt => NumCmp::Lt,
                        _ => NumCmp::Eq,
                    }
                }
            } else {
                let az = is_zero_digits(aip) && is_zero_digits(afp);
                let bz = is_zero_digits(bip) && is_zero_digits(bfp);
                proof {
                    lemma_mag_zero(da, k as nat);
                    lemma_mag_zero(db, k as nat);
                }
                if az && bz {
                    NumCmp::Eq
                } else if na {
                    NumCmp::Lt
                } else {
                    NumCmp::Gt
                }
            }
        },
        _ => NumCmp::NotNum,
    }
}

/// The scaled magnitude is zero exactly when both digit runs denote zero.
proof fn lemma_mag_zero(d: Decimal, k: nat)
    requires
        all_digits(d.int_digits),
        all_digits(d.frac_digits),
        d.frac_digits.len() <= k,
    ensures
        (scaled_mag(d, k) == 0) <==> (digits_val(d.int_digits) == 0 && digits_val(d.frac_digits)
            == 0),
{
    let s = d.int_digits + pad_frac(d.frac_digits, k);
    lemma_split(s, d.int_digits.len() as int);
    assert(s.take(d.int_digits.len() as int) =~= d.int_digits);
    assert(s.skip(d.int_digits.len() as int) =~= pad_frac(d.frac_digits, k));
    let p1 = pow10((s.len() - d.int_digits.len()) as nat);
    lemma_pow10_pos((s.len() - d.int_digits.len()) as nat);
    let f = pad_frac(d.frac_digits, k);
    lemma_split(f, d.frac_digits.len() as int);
    assert(f.take(d.frac_digits.len() as int) =~= d.frac_digits);
    assert(f.skip(d.frac_digits.len() as int) =~= zeros((k - d.frac_digits.len()) as nat));
    lemma_all_zero_val(zeros((k - d.frac_digits.len()) as nat));
    assert(digits_val(zeros((k - d.frac_digits.len()) as nat)) == 0);
    let p2 = pow10((f.len() - d.frac_digits.len()) as nat);
    lemma_pow10_pos((f.len() - d.frac_digits.len()) as nat);
    assert(digits_val(f) == digits_val(d.frac_digits) * p2);
    assert(digits_val(s) == digits_val(d.int_digits) * p1 + digits_val(f));
    assert((digits_val(d.frac_digits) * p2 == 0) <==> (digits_val(d.frac_digits) == 0))
        by (nonlinear_arith)
        requires
            p2 >= 1,
    ;
    assert((digits_val(d.int_digits) * p1 == 0) <==> (digits_val(d.int_digits) == 0))
        by (nonlinear_arith)
        requires
            p1 >= 1,
    ;
}


/// The decimal text of a number consists of digits and denotes that number.
pub proof fn lemma_dec_rep_digits(n: nat)
    ensures
        all_digits(crate::text::dec_rep(n)),
        crate::text::dec_rep(n).len() >= 1,
        digits_val(crate::text::dec_rep(n)) == n,
    decreases n,
{
    let s = crate::text::dec_rep(n);
    if n < 10 {
        assert(s =~= seq![crate::text::dec_digit(n)]);
        assert(is_digit(crate::text::dec_digit(n)));
        assert(digit_val(crate::text::dec_digit(n)) == n);
        assert(s.drop_last() =~= Seq::<char>::empty());
        assert(digits_val(s.drop_last()) == 0);
        assert(s.len() == 1 && s.last() == crate::text::dec_digit(n));
        assert(digits_val(s) == digits_val(s.drop_last()) * 10 + digit_val(s.last()));
    } else {
        lemma_dec_rep_digits(n / 10);
        assert(s == crate::text::dec_rep(n / 10).push(crate::text::dec_digit(n % 10)));
        assert(s.drop_last() =~= crate::text::dec_rep(n / 10));
        assert(s.last() == crate::text::dec_digit(n % 10));
        assert(is_digit(crate::text::dec_digit(n % 10)));
        assert(digit_val(crate::text::dec_digit(n % 10)) == n % 10);
        assert forall|i: int| 0 <= i < s.len() implies is_digit(s[i]) by {
            if i < s.len() - 1 {
                assert(s[i] == crate::text::dec_rep(n / 10)[i]);
            } else {
                assert(s[i] == s.last());
            }
        }
        assert(digits_val(s) == (n / 10) * 10 + (n % 10));
    }
}


/// Law: comparing the two texts in the other direction reverses the order and
/// keeps equality and unparseability.
pub proof fn lemma_cmp_reversal(a: Seq<char>, b: Seq<char>)
    ensures
        (num_cmp_of(a, b) == NumCmp::Lt) <==> (num_cmp_of(b, a) == NumCmp::Gt),
        (num_cmp_of(a, b) == NumCmp::Eq) <==> (num_cmp_of(b, a) == NumCmp::Eq),
        (num_cmp_of(a, b) == NumCmp::NotNum) <==> (num_cmp_of(b, a) == NumCmp::NotNum),
{
}

proof fn lemma_dec_rep_parses(n: nat)
    ensures
        parse_decimal(crate::text::dec_rep(n)) == Option::Some(
            Decimal {
                neg: false,
                int_digits: crate::text::dec_rep(n),
                frac_digits: Seq::<char>::empty(),
            },
        ),
{
    let s = crate::text::dec_rep(n);
    lemma_dec_rep_digits(n);
    assert(is_digit(s[0]));
    assert(s[0] != '-' && s[0] != '+');
    assert(strip_sign(s) == (false, s));
    lemma_find_first_char(s, '.');
    match find_first(s, '.') {
        Option::Some(i) => {
            assert(is_digit(s[i]));
            assert(s[i] == '.');
            assert(false);
        },
        Option::None => {},
    }
    assert(s.len() >= 1);
}

/// Law: whole numbers written as decimal text compare as the numbers
/// themselves.
pub proof fn lemma_dec_text_order(n: nat, m: nat)
    ensures
        num_cmp_of(crate::text::dec_rep(n), crate::text::dec_rep(m)) == (if n < m {
            NumCmp::Lt
        } else if n == m {
            NumCmp::Eq
        } else {
            NumCmp::Gt
        }),
{
    let sn = crate::text::dec_rep(n);
    let sm = crate::text::dec_rep(m);
    lemma_dec_rep_parses(n);
    lemma_dec_rep_parses(m);
    lemma_dec_rep_digits(n);
    lemma_dec_rep_digits(m);
    let dn = Decimal { neg: false, int_digits: sn, frac_digits: Seq::<char>::empty() };
    let dm = Decimal { neg: false, int_digits: sm, frac_digits: Seq::<char>::empty() };
    assert(pad_frac(Seq::<char>::empty(), 0) =~= Seq::<char>::empty());
    assert(sn + pad_frac(Seq::<char>::empty(), 0) =~= sn);
    assert(sm + pad_frac(Seq::<char>::empty(), 0) =~= sm);
    assert(scaled_mag(dn, 0) == n);
    assert(scaled_mag(dm, 0) == m);
    assert(max_nat(dn.frac_digits.len(), dm.frac_digits.len()) == 0);
}

} // verus!
