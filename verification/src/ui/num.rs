//! Numbers as text for the number fields of the UI: integers printed in a
//! base, decimal integers parsed, fixed-point numbers written and decimal
//! numbers taken apart.

use vstd::prelude::*;

verus! {

/// Calls std's `String::push`; trusted to leave `s` holding its old
/// characters followed by `c`.
#[verifier::external_body]
pub(crate) fn string_push(s: &mut String, c: char)
    ensures
        final(s)@ == old(s)@.push(c),
{
    s.push(c)
}

/// Calls std's `String::push_str`; trusted to leave `s` holding its old
/// characters followed by those of `t`.
#[verifier::external_body]
pub(crate) fn string_push_str(s: &mut String, t: &str)
    ensures
        final(s)@ == old(s)@ + t@,
{
    s.push_str(t)
}

/// Calls std's `String::pop`; trusted to drop the last character of `s`
/// where it has one and to leave an empty `s` as it is.
#[verifier::external_body]
pub(crate) fn string_pop(s: &mut String)
    ensures
        final(s)@ == (if old(s)@.len() > 0 { old(s)@.drop_last() } else { old(s)@ }),
{
    s.pop();
}

/// The character that writes the digit `d` (0-9, then A-V).
pub open spec fn spec_digit_char(d: nat) -> char {
    if d < 10 { (48 + d) as char } else { (55 + d) as char }
}

/// The digits of `n` in base `b`, least significant first; none for zero.
pub open spec fn lsb_digits(n: nat, b: nat) -> Seq<char>
    decreases n,
{
    if n == 0 || b < 2 {
        Seq::empty()
    } else {
        proof {
            assert(n / b < n) by (nonlinear_arith)
                requires
                    n > 0,
                    b >= 2,
            ;
        }
        seq![spec_digit_char(n % b)] + lsb_digits(n / b, b)
    }
}

/// The digits of `n` in base `b`, most significant first; none for zero.
pub open spec fn spec_digits(n: nat, b: nat) -> Seq<char> {
    lsb_digits(n, b).reverse()
}

pub open spec fn abs_i(i: int) -> nat {
    if i < 0 { (-i) as nat } else { i as nat }
}

/// The digits of `n` in base `b`, most significant first, with a single
/// `0` for zero.
pub open spec fn number_digits(n: nat, b: nat) -> Seq<char> {
    if n == 0 { seq!['0'] } else { spec_digits(n, b) }
}

/// `i` written in base `base`: a minus sign if negative, zeros up to
/// `leading_zeros` digits, then the digits of its magnitude.
pub open spec fn spec_print_int(base: nat, leading_zeros: nat, i: int) -> Seq<char> {
    let ds = number_digits(abs_i(i), base);
    let pad = if leading_zeros > ds.len() { (leading_zeros - ds.len()) as nat } else { 0nat };
    (if i < 0 { seq!['-'] } else { Seq::<char>::empty() }) + Seq::new(pad, |k: int| '0') + ds
}

pub open spec fn spec_is_digit(c: char) -> bool {
    48 <= (c as u32) <= 57
}

pub open spec fn spec_digit_value(c: char) -> int {
    (c as u32) - 48
}

/// The value of a string of decimal digits.
pub open spec fn decimal_value(s: Seq<char>) -> int
    decreases s.len(),
{
    if s.len() == 0 {
        0
    } else {
        decimal_value(s.drop_last()) * 10 + spec_digit_value(s.last())
    }
}

/// The longest prefix of `s` made of decimal digits.
pub open spec fn leading_digits(s: Seq<char>) -> Seq<char>
    decreases s.len(),
{
    if s.len() == 0 || !spec_is_digit(s[0]) {
        Seq::empty()
    } else {
        seq![s[0]] + leading_digits(s.drop_first())
    }
}

pub open spec fn all_digits(s: Seq<char>) -> bool {
    forall|i: int| 0 <= i < s.len() ==> spec_is_digit(#[trigger] s[i])
}

pub fn is_digit(ch: char) -> (b: bool)
    ensures
        b == spec_is_digit(ch),
{
    let c = ch as u32;
    c >= 48 && c <= 57
}

pub fn digit_to_num(ch: char) -> (r: i32)
    ensures
        r == spec_digit_value(ch),
{
    ch as i32 - 48
}

fn digit_char(d: usize) -> (c: char)
    requires
        d < 32,
    ensures
        c == spec_digit_char(d as nat),
{
    if d < 10 {
        ((48 + d) as u8) as char
    } else {
        ((55 + d) as u8) as char
    }
}

proof fn lemma_leading_digits_of_all(s: Seq<char>)
    requires
        all_digits(s),
    ensures
        leading_digits(s) == s,
    decreases s.len(),
{
    if s.len() > 0 {
        assert(spec_is_digit(s[0]));
        lemma_leading_digits_of_all(s.drop_first());
        assert(seq![s[0]] + s.drop_first() =~= s);
    }
}

proof fn lemma_leading_digits_prefix(s: Seq<char>, i: int)
    requires
        0 <= i <= s.len(),
        all_digits(s.take(i)),
    ensures
        i <= leading_digits(s).len(),
        leading_digits(s).take(i) == s.take(i),
    decreases i,
{
    if i > 0 {
        assert(spec_is_digit(s.take(i)[0]));
        assert(s.drop_first().take(i - 1) =~= s.take(i).drop_first());
        lemma_leading_digits_prefix(s.drop_first(), i - 1);
        let l1 = leading_digits(s.drop_first());
        assert(leading_digits(s) == seq![s[0]] + l1);
        assert forall|k: int| 0 <= k < i implies #[trigger] leading_digits(s)[k] == s[k] by {
            if k > 0 {
                assert(leading_digits(s)[k] == l1[k - 1]);
                assert(l1.take(i - 1)[k - 1] == s.drop_first().take(i - 1)[k - 1]);
            }
        }
        assert(leading_digits(s).take(i) =~= s.take(i));
    } else {
        assert(leading_digits(s).take(0) =~= s.take(0));
    }
}

proof fn lemma_decimal_value_monotone(s: Seq<char>, i: int)
    requires
        0 <= i <= s.len(),
        all_digits(s),
    ensures
        0 <= decimal_value(s.take(i)) <= decimal_value(s),
    decreases s.len(),
{
    if s.len() > 0 {
        if i == s.len() {
            assert(s.take(i) =~= s);
            lemma_decimal_value_monotone(s.drop_last(), s.len() - 1);
            assert(s.drop_last().take(s.len() - 1) =~= s.drop_last());
        } else {
            assert(s.drop_last().take(i) =~= s.take(i));
            lemma_decimal_value_monotone(s.drop_last(), i);
            lemma_decimal_value_monotone(s.drop_last(), s.len() - 1);
            assert(s.drop_last().take(s.len() - 1) =~= s.drop_last());
        }
    } else {
        assert(s.take(i) =~= s);
    }
}

/// Parses a string of decimal digits. Any character that is not a digit,
/// a sign included, makes it fail; the empty string is zero.
pub fn int_parser(s: &str) -> (r: Result<i32, ()>)
    requires
        decimal_value(leading_digits(s@)) <= i32::MAX,
    ensures
        r == (if all_digits(s@) { Ok(decimal_value(s@) as i32) } else { Err(()) }),
{
    let n = s.unicode_len();
    let mut v: i32 = 0;
    let mut i: usize = 0;
    while i < n
        invariant
            i <= n,
            n == s@.len(),
            all_digits(s@.take(i as int)),
            v == decimal_value(s@.take(i as int)),
            decimal_value(leading_digits(s@)) <= i32::MAX,
        decreases n - i,
    {
        let c = s.get_char(i);
        if is_digit(c) {
            proof {
                assert(s@.take(i + 1).drop_last() =~= s@.take(i as int));
                assert(all_digits(s@.take(i + 1)));
                lemma_leading_digits_prefix(s@, i + 1);
                let ld = leading_digits(s@);
                assert(all_digits(ld)) by {
                    lemma_leading_all_digits(s@);
                }
                lemma_decimal_value_monotone(ld, i + 1);
                assert(ld.take(i + 1) == s@.take(i + 1));
            }
            v = v * 10 + digit_to_num(c);
            i += 1;
        } else {
            proof {
                assert(!all_digits(s@)) by {
                    assert(!spec_is_digit(s@[i as int]));
                }
            }
            return Err(());
        }
    }
    assert(s@.take(n as int) =~= s@);
    Ok(v)
}

proof fn lemma_leading_all_digits(s: Seq<char>)
    ensures
        all_digits(leading_digits(s)),
    decreases s.len(),
{
    if s.len() > 0 && spec_is_digit(s[0]) {
        lemma_leading_all_digits(s.drop_first());
        let t = leading_digits(s.drop_first());
        assert forall|i: int| 0 <= i < (seq![s[0]] + t).len() implies spec_is_digit(#[trigger] (seq![s[0]] + t)[i]) by {
            if i > 0 {
                assert((seq![s[0]] + t)[i] == t[i - 1]);
            }
        }
    }
}

/// `i` written in base `base` (at most 32), with zeros in front up to
/// `leading_zeros` digits and a minus sign for negative numbers; zero is
/// written `0`.
pub fn print_int(base: usize, leading_zeros: usize, i: i32) -> (r: String)
    requires
        2 <= base <= 32,
        i != i32::MIN,
    ensures
        r@ == spec_print_int(base as nat, leading_zeros as nat, i as int),
{
    let orig_i = i;
    let mut n: u32 = if i < 0 { (-i) as u32 } else { i as u32 };
    let ghost abs_n = abs_i(i as int);
    let mut ds: Vec<char> = Vec::new();
    while n != 0
        invariant
            2 <= base <= 32,
            ds@ + lsb_digits(n as nat, base as nat) == lsb_digits(abs_n, base as nat),
        decreases n,
    {
        let d = (n as usize) % base;
        let c = digit_char(d);
        proof {
            assert(lsb_digits(n as nat, base as nat) == seq![c] + lsb_digits((n as nat) / (base as nat), base as nat));
            assert(ds@.push(c) + lsb_digits((n as nat) / (base as nat), base as nat)
                =~= ds@ + (seq![c] + lsb_digits((n as nat) / (base as nat), base as nat)));
        }
        ds.push(c);
        n = n / (base as u32);
    }
    assert(ds@ =~= lsb_digits(abs_n, base as nat));
    if ds.len() == 0 {
        ds.push('0');
    }
    proof {
        if abs_n > 0 {
            assert(lsb_digits(abs_n, base as nat).len() > 0);
        } else {
            assert(seq!['0'].reverse() =~= seq!['0']);
        }
        assert(ds@.reverse() == number_digits(abs_n, base as nat));
    }
    let nd = ds.len();
    let mut out = String::new();
    if orig_i < 0 {
        string_push(&mut out, '-');
    }
    let ghost sign = out@;
    let mut k: usize = nd;
    while k < leading_zeros
        invariant
            nd <= k,
            k <= leading_zeros || k == nd,
            out@ == sign + Seq::new((k - nd) as nat, |j: int| '0'),
        decreases leading_zeros - k,
    {
        string_push(&mut out, '0');
        assert(sign + Seq::new((k + 1 - nd) as nat, |j: int| '0') =~= (sign + Seq::new((k - nd) as nat, |j: int| '0')).push('0'));
        k += 1;
    }
    let ghost pad = out@;
    let mut j: usize = 0;
    while j < nd
        invariant
            j <= nd,
            nd == ds@.len(),
            out@ == pad + ds@.reverse().take(j as int),
        decreases nd - j,
    {
        string_push(&mut out, ds[nd - 1 - j]);
        assert(pad + ds@.reverse().take(j + 1) =~= (pad + ds@.reverse().take(j as int)).push(ds@[nd - 1 - j]));
        j += 1;
    }
    assert(ds@.reverse().take(nd as int) =~= ds@.reverse());
    proof {
        let pd: nat = if leading_zeros > nd { (leading_zeros - nd) as nat } else { 0nat };
        assert(Seq::new((k - nd) as nat, |j: int| '0') =~= Seq::new(pd, |j: int| '0'));
    }
    out
}

proof fn lemma_decimal_digits(n: nat)
    ensures
        all_digits(spec_digits(n, 10)),
        decimal_value(spec_digits(n, 10)) == n,
    decreases n,
{
    if n > 0 {
        lemma_decimal_digits(n / 10);
        let c = spec_digit_char(n % 10);
        let t = spec_digits(n / 10, 10);
        let l = lsb_digits(n / 10, 10);
        assert(lsb_digits(n, 10) == seq![c] + l);
        assert((seq![c] + l).reverse() =~= l.reverse().push(c));
        assert(t.push(c).drop_last() =~= t);
        assert(spec_digit_value(c) == n % 10);
        assert forall|i: int| 0 <= i < t.push(c).len() implies spec_is_digit(#[trigger] t.push(c)[i]) by {
            if i < t.len() {
                assert(t.push(c)[i] == t[i]);
            }
        }
    } else {
        assert(spec_digits(0, 10) =~= Seq::<char>::empty());
    }
}

/// Parsing what `print_int` writes in base 10 without padding gives the
/// number back, for every number that has no minus sign.
pub proof fn lemma_print_parse_roundtrip(n: i32)
    requires
        n >= 0,
    ensures
        ({
            let s = spec_print_int(10, 0, n as int);
            &&& decimal_value(leading_digits(s)) <= i32::MAX
            &&& all_digits(s)
            &&& decimal_value(s) == n
        }),
{
    let ds = number_digits(n as nat, 10);
    lemma_decimal_digits(n as nat);
    if n == 0 {
        assert(decimal_value(ds.drop_last()) == 0);
        assert(ds[0] == '0');
    }
    assert(spec_print_int(10, 0, n as int) =~= ds);
    lemma_leading_digits_of_all(ds);
}

/// Appends `v` written in base `base` to `s`, as `print_int` writes it.
pub fn append_int(s: &mut String, base: usize, leading_zeros: usize, v: i32)
    requires
        2 <= base <= 32,
        v != i32::MIN,
    ensures
        final(s)@ == old(s)@ + spec_print_int(base as nat, leading_zeros as nat, v as int),
{
    let t = print_int(base, leading_zeros, v);
    string_push_str(s, t.as_str());
}


/// How many characters a sign takes at the front of `s`.
pub open spec fn sign_len(s: Seq<char>) -> int {
    if s.len() > 0 && (s[0] == '+' || s[0] == '-') { 1 } else { 0 }
}

/// The integer digits of `s`: the digits right after its sign.
pub open spec fn int_digits(s: Seq<char>) -> Seq<char> {
    leading_digits(s.skip(sign_len(s)))
}

/// `s` reads `[+|-]digits[.digits]`, its first character a sign or a digit;
/// either run of digits may be empty.
pub open spec fn is_decimal(s: Seq<char>) -> bool {
    let rest = s.skip(sign_len(s));
    let n = int_digits(s).len() as int;
    &&& s.len() > 0
    &&& (s[0] == '+' || s[0] == '-' || spec_is_digit(s[0]))
    &&& (n == rest.len() || (rest[n] == '.' && all_digits(rest.skip(n + 1))))
}

/// The digits of `s` after its point, none where it has no point.
pub open spec fn fraction_digits(s: Seq<char>) -> Seq<char> {
    let rest = s.skip(sign_len(s));
    let n = int_digits(s).len() as int;
    if n < rest.len() { rest.skip(n + 1) } else { Seq::empty() }
}

/// The value of each digit of `s`.
pub open spec fn digit_values(s: Seq<char>) -> Seq<i32> {
    s.map_values(|c: char| spec_digit_value(c) as i32)
}

/// A decimal number taken apart: its sign, the value of its integer digits
/// and the value of each digit after the point, in order.
pub struct DecimalParts {
    pub negative: bool,
    pub int_part: i32,
    pub fraction: Vec<i32>,
}

proof fn lemma_leading_digits_exact(s: Seq<char>, k: int)
    requires
        0 <= k <= s.len(),
        all_digits(s.take(k)),
        k == s.len() || !spec_is_digit(s[k]),
    ensures
        leading_digits(s) == s.take(k),
    decreases k,
{
    if k == 0 {
        assert(s.take(0) =~= Seq::<char>::empty());
    } else {
        assert(spec_is_digit(s.take(k)[0]));
        assert(s.drop_first().take(k - 1) =~= s.take(k).drop_first());
        assert forall|j: int| 0 <= j < k - 1 implies spec_is_digit(#[trigger] s.drop_first().take(k - 1)[j]) by {
            assert(s.drop_first().take(k - 1)[j] == s.take(k)[j + 1]);
        }
        lemma_leading_digits_exact(s.drop_first(), k - 1);
        assert(seq![s[0]] + s.drop_first().take(k - 1) =~= s.take(k));
    }
}

proof fn lemma_take_step(s: Seq<char>, k: int)
    requires
        0 <= k < s.len(),
        all_digits(s.take(k)),
        spec_is_digit(s[k]),
    ensures
        all_digits(s.take(k + 1)),
        decimal_value(s.take(k + 1)) == decimal_value(s.take(k)) * 10 + spec_digit_value(s[k]),
{
    assert(s.take(k + 1).drop_last() =~= s.take(k));
    assert forall|j: int| 0 <= j < k + 1 implies spec_is_digit(#[trigger] s.take(k + 1)[j]) by {
        if j < k {
            assert(s.take(k + 1)[j] == s.take(k)[j]);
        }
    }
}

/// Whether the integer digits of `s` (after its sign) make a value that
/// fits `i32`.
pub fn decimal_int_fits(s: &str) -> (b: bool)
    ensures
        b == (decimal_value(int_digits(s@)) <= i32::MAX),
{
    let n = s.unicode_len();
    let mut i: usize = 0;
    if n > 0 && (s.get_char(0) == '+' || s.get_char(0) == '-') {
        i = 1;
    }
    let start = i;
    let ghost rest = s@.skip(start as int);
    let mut v: i64 = 0;
    proof {
        assert(rest.take(0) =~= Seq::<char>::empty());
    }
    while i < n && is_digit(s.get_char(i))
        invariant
            start <= i <= n,
            n == s@.len(),
            rest == s@.skip(start as int),
            start as int == sign_len(s@),
            all_digits(rest.take(i - start)),
            v == decimal_value(rest.take(i - start)),
            0 <= v <= i32::MAX,
        decreases n - i,
    {
        let c = s.get_char(i);
        proof {
            assert(rest[i - start] == s@[i as int]);
            lemma_take_step(rest, i - start);
        }
        v = v * 10 + digit_to_num(c) as i64;
        i += 1;
        if v > i32::MAX as i64 {
            proof {
                let ld = leading_digits(rest);
                lemma_leading_digits_prefix(rest, i - start);
                lemma_leading_all_digits(rest);
                lemma_decimal_value_monotone(ld, i - start);
            }
            return false;
        }
    }
    proof {
        if i < n {
            assert(rest[i - start] == s@[i as int]);
        }
        lemma_leading_digits_exact(rest, i - start);
    }
    true
}

/// Takes apart `[+|-]digits[.digits]`: any other text, an empty one
/// included, fails.
pub fn decimal_parts(s: &str) -> (r: Result<DecimalParts, ()>)
    requires
        decimal_value(int_digits(s@)) <= i32::MAX,
    ensures
        r is Ok <==> is_decimal(s@),
        r matches Ok(p) ==> {
            &&& p.negative == (s@[0] == '-')
            &&& p.int_part == decimal_value(int_digits(s@))
            &&& p.fraction@ == digit_values(fraction_digits(s@))
        },
{
    let n = s.unicode_len();
    if n == 0 {
        return Err(());
    }
    let c0 = s.get_char(0);
    let negative = c0 == '-';
    let mut i: usize = 0;
    if c0 == '+' || c0 == '-' {
        i = 1;
    } else if !is_digit(c0) {
        return Err(());
    }
    let start = i;
    let ghost rest = s@.skip(start as int);
    let mut v: i32 = 0;
    proof {
        assert(rest.take(0) =~= Seq::<char>::empty());
        lemma_leading_all_digits(rest);
    }
    while i < n && is_digit(s.get_char(i))
        invariant
            start <= i <= n,
            n == s@.len(),
            rest == s@.skip(start as int),
            start as int == sign_len(s@),
            all_digits(rest.take(i - start)),
            all_digits(leading_digits(rest)),
            v == decimal_value(rest.take(i - start)),
            decimal_value(leading_digits(rest)) <= i32::MAX,
        decreases n - i,
    {
        let c = s.get_char(i);
        proof {
            assert(rest[i - start] == s@[i as int]);
            lemma_take_step(rest, i - start);
            lemma_leading_digits_prefix(rest, i - start + 1);
            lemma_decimal_value_monotone(leading_digits(rest), i - start + 1);
        }
        v = v * 10 + digit_to_num(c);
        i += 1;
    }
    let k = i - start;
    proof {
        if i < n {
            assert(rest[k as int] == s@[i as int]);
        }
        lemma_leading_digits_exact(rest, k as int);
        assert(int_digits(s@).len() == k);
    }
    let mut fraction: Vec<i32> = Vec::new();
    if i == n {
        proof {
            assert(rest.len() == k);
            assert(fraction@ =~= digit_values(fraction_digits(s@)));
        }
        return Ok(DecimalParts { negative, int_part: v, fraction });
    }
    if s.get_char(i) != '.' {
        proof {
            assert(rest[k as int] == s@[i as int]);
        }
        return Err(());
    }
    i += 1;
    let ghost frac = rest.skip(k + 1);
    while i < n
        invariant
            start + k + 1 <= i <= n,
            n == s@.len(),
            rest == s@.skip(start as int),
            frac == rest.skip(k + 1),
            start as int == sign_len(s@),
            int_digits(s@).len() == k,
            k < rest.len(),
            all_digits(frac.take(i - start - k - 1)),
            fraction@ == digit_values(frac.take(i - start - k - 1)),
        decreases n - i,
    {
        let c = s.get_char(i);
        proof {
            assert(frac[i - start - k - 1] == s@[i as int]);
        }
        if !is_digit(c) {
            proof {
                assert(!all_digits(frac));
            }
            return Err(());
        }
        proof {
            let j = i - start - k - 1;
            assert(frac.take(j + 1) =~= frac.take(j).push(c));
            assert(digit_values(frac.take(j + 1)) =~= digit_values(frac.take(j)).push(spec_digit_value(c) as i32));
            assert forall|t: int| 0 <= t < j + 1 implies spec_is_digit(#[trigger] frac.take(j + 1)[t]) by {
                if t < j {
                    assert(frac.take(j + 1)[t] == frac.take(j)[t]);
                }
            }
        }
        fraction.push(digit_to_num(c));
        i += 1;
    }
    proof {
        assert(frac.take(i - start - k - 1) =~= frac);
        assert(rest[k as int] == '.');
    }
    Ok(DecimalParts { negative, int_part: v, fraction })
}


/// `10` to the power `p`.
pub open spec fn pow10(p: nat) -> nat
    decreases p,
{
    if p == 0 { 1 } else { 10 * pow10((p - 1) as nat) }
}

/// The last `p` decimal digits of `n`, most significant first, with zeros
/// in front where `n` has fewer.
pub open spec fn low_digits(n: nat, p: nat) -> Seq<char>
    decreases p,
{
    if p == 0 { Seq::empty() } else { low_digits(n / 10, (p - 1) as nat).push(spec_digit_char(n % 10)) }
}

/// A fixed-point number as text: a minus sign where `negative`, the
/// decimal digits of `int_part` (`0` for zero), then, unless `p` is zero or
/// `scaled` is exactly `10^p`, a point and the last `p` digits of `scaled`.
pub open spec fn spec_fixed_point(negative: bool, int_part: nat, scaled: nat, p: nat) -> Seq<char> {
    (if negative { seq!['-'] } else { Seq::empty() })
        + (if int_part == 0 { seq!['0'] } else { spec_digits(int_part, 10) })
        + (if scaled == pow10(p) || p == 0 { Seq::empty() } else { seq!['.'] + low_digits(scaled, p) })
}

proof fn lemma_pow10_monotone(k: nat, p: nat)
    requires
        k <= p,
    ensures
        1 <= pow10(k) <= pow10(p),
    decreases p,
{
    if k < p {
        lemma_pow10_monotone(k, (p - 1) as nat);
    } else if p > 0 {
        lemma_pow10_monotone((p - 1) as nat, (p - 1) as nat);
    }
}

/// Writes a fixed-point number: the sign, the integer digits, and the last
/// `p` digits of `scaled` after a point, as `spec_fixed_point` says.
pub fn fixed_point_text(negative: bool, int_part: usize, scaled: usize, p: usize) -> (r: String)
    requires
        pow10(p as nat) <= usize::MAX,
    ensures
        r@ == spec_fixed_point(negative, int_part as nat, scaled as nat, p as nat),
{
    let mut n: usize = int_part;
    let mut ds: Vec<char> = Vec::new();
    while n != 0
        invariant
            ds@ + lsb_digits(n as nat, 10) == lsb_digits(int_part as nat, 10),
        decreases n,
    {
        let c = digit_char(n % 10);
        proof {
            assert(lsb_digits(n as nat, 10) == seq![c] + lsb_digits((n as nat) / 10, 10));
            assert(ds@.push(c) + lsb_digits((n as nat) / 10, 10) =~= ds@ + (seq![c] + lsb_digits((n as nat) / 10, 10)));
        }
        ds.push(c);
        n = n / 10;
    }
    assert(ds@ =~= lsb_digits(int_part as nat, 10));
    let mut out = String::new();
    if negative {
        string_push(&mut out, '-');
    }
    let ghost sign = out@;
    let nd = ds.len();
    if nd == 0 {
        string_push(&mut out, '0');
        proof {
            assert(int_part == 0) by {
                if int_part != 0 {
                    assert(lsb_digits(int_part as nat, 10).len() > 0);
                }
            }
        }
    } else {
        let mut j: usize = 0;
        while j < nd
            invariant
                j <= nd,
                nd == ds@.len(),
                out@ == sign + ds@.reverse().take(j as int),
            decreases nd - j,
        {
            string_push(&mut out, ds[nd - 1 - j]);
            assert(sign + ds@.reverse().take(j + 1) =~= (sign + ds@.reverse().take(j as int)).push(ds@[nd - 1 - j]));
            j += 1;
        }
        assert(ds@.reverse().take(nd as int) =~= ds@.reverse());
        proof {
            assert(int_part != 0) by {
                if int_part == 0 {
                    assert(lsb_digits(0, 10).len() == 0);
                }
            }
        }
    }
    let ghost int_text = out@;
    let mut pow_10: usize = 1;
    let mut k: usize = 0;
    while k < p
        invariant
            k <= p,
            pow_10 == pow10(k as nat),
            pow10(p as nat) <= usize::MAX,
        decreases p - k,
    {
        proof {
            lemma_pow10_monotone((k + 1) as nat, p as nat);
        }
        pow_10 = pow_10 * 10;
        k += 1;
    }
    if scaled == pow_10 || p == 0 {
        assert(out@ =~= spec_fixed_point(negative, int_part as nat, scaled as nat, p as nat));
        return out;
    }
    string_push(&mut out, '.');
    let mut fr: Vec<char> = Vec::new();
    let mut d: usize = scaled;
    let mut j: usize = 0;
    let ghost target = low_digits(scaled as nat, p as nat);
    while j < p
        invariant
            j <= p,
            target == low_digits(scaled as nat, p as nat),
            target == low_digits(d as nat, (p - j) as nat) + fr@.reverse(),
        decreases p - j,
    {
        let c = digit_char(d % 10);
        proof {
            let rest = (p - j - 1) as nat;
            assert(low_digits(d as nat, (p - j) as nat) == low_digits((d as nat) / 10, rest).push(c));
            assert(fr@.push(c).reverse() =~= seq![c] + fr@.reverse());
            assert(low_digits((d as nat) / 10, rest).push(c) + fr@.reverse()
                =~= low_digits((d as nat) / 10, rest) + fr@.push(c).reverse());
        }
        fr.push(c);
        d = d / 10;
        j += 1;
    }
    assert(low_digits(d as nat, 0) =~= Seq::<char>::empty());
    assert(target =~= fr@.reverse());
    let ghost dot = out@;
    let nf = fr.len();
    let mut t: usize = 0;
    while t < nf
        invariant
            t <= nf,
            nf == fr@.len(),
            out@ == dot + fr@.reverse().take(t as int),
        decreases nf - t,
    {
        string_push(&mut out, fr[nf - 1 - t]);
        assert(dot + fr@.reverse().take(t + 1) =~= (dot + fr@.reverse().take(t as int)).push(fr@[nf - 1 - t]));
        t += 1;
    }
    assert(fr@.reverse().take(nf as int) =~= fr@.reverse());
    assert(out@ =~= spec_fixed_point(negative, int_part as nat, scaled as nat, p as nat));
    out
}


proof fn lemma_low_digits_are_digits(n: nat, p: nat)
    ensures
        low_digits(n, p).len() == p,
        all_digits(low_digits(n, p)),
    decreases p,
{
    if p > 0 {
        lemma_low_digits_are_digits(n / 10, (p - 1) as nat);
        let t = low_digits(n / 10, (p - 1) as nat);
        let c = spec_digit_char(n % 10);
        assert forall|i: int| 0 <= i < t.push(c).len() implies spec_is_digit(#[trigger] t.push(c)[i]) by {
            if i < t.len() {
                assert(t.push(c)[i] == t[i]);
            }
        }
    }
}

/// Taking apart what `fixed_point_text` writes gives back its sign, its
/// integer part and the fraction digits it wrote, for every integer part
/// that fits `i32`.
pub proof fn lemma_fixed_point_parses_back(negative: bool, int_part: nat, scaled: nat, p: nat)
    requires
        int_part <= i32::MAX,
    ensures
        ({
            let s = spec_fixed_point(negative, int_part, scaled, p);
            &&& is_decimal(s)
            &&& (s[0] == '-') == negative
            &&& decimal_value(int_digits(s)) == int_part
            &&& fraction_digits(s) == (if scaled == pow10(p) || p == 0 { Seq::<char>::empty() } else { low_digits(scaled, p) })
        }),
{
    let sg: Seq<char> = if negative { seq!['-'] } else { Seq::empty() };
    let ds: Seq<char> = if int_part == 0 { seq!['0'] } else { spec_digits(int_part, 10) };
    let fr: Seq<char> = if scaled == pow10(p) || p == 0 { Seq::empty() } else { seq!['.'] + low_digits(scaled, p) };
    let s = spec_fixed_point(negative, int_part, scaled, p);
    assert(s == sg + ds + fr);
    if int_part == 0 {
        assert(decimal_value(ds) == 0) by {
            assert(ds.drop_last() =~= Seq::<char>::empty());
            assert(ds.last() == '0');
            assert(('0' as u32) == 48);
            assert(spec_digit_value('0') == 0);
            assert(decimal_value(ds.drop_last()) == 0);
        }
        assert(all_digits(ds));
    } else {
        lemma_decimal_digits(int_part);
        assert(lsb_digits(int_part, 10).len() > 0);
    }
    assert(ds.len() > 0);
    assert(spec_is_digit(ds[0]));
    assert(sign_len(s) == sg.len()) by {
        if !negative {
            assert(s[0] == ds[0]);
        }
    }
    let rest = ds + fr;
    assert(s.skip(sign_len(s)) =~= rest);
    lemma_low_digits_are_digits(scaled, p);
    assert(rest.take(ds.len() as int) =~= ds);
    if fr.len() > 0 {
        assert(rest[ds.len() as int] == '.');
    }
    lemma_leading_digits_exact(rest, ds.len() as int);
    assert(int_digits(s) == ds);
    if fr.len() > 0 {
        assert(rest.skip(ds.len() as int + 1) =~= low_digits(scaled, p));
    }
    assert(s[0] == '-' <==> negative) by {
        if !negative {
            assert(s[0] == ds[0]);
        }
    }
}

} // verus!
