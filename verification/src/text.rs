//! Character-level text helpers with exact specifications.

use vstd::prelude::*;

verus! {

/// The characters of `s`, in order.
pub(crate) fn chars_of(s: &str) -> (r: Vec<char>)
    ensures
        r@ == s@,
{
    let mut v: Vec<char> = Vec::new();
    for c in it: s.chars()
        invariant
            v@ == it.seq().take(it.index() as int),
    {
        v.push(c);
    }
    v
}

/// Collects the characters of `v` into a `String` (`FromIterator<char>`).
/// Claimed: the text made of those characters, in order.
#[verifier::external_body]
pub(crate) fn string_of(v: &[char]) -> (r: String)
    ensures
        r@ == v@,
{
    v.iter().collect()
}

/// Whitespace in the sense of the Unicode `White_Space` property, which is
/// what `char::is_whitespace` and `str::trim` use.
pub open spec fn is_ws(c: char) -> bool {
    ||| ('\u{9}' <= c && c <= '\u{d}')
    ||| c == ' '
    ||| c == '\u{85}'
    ||| c == '\u{a0}'
    ||| c == '\u{1680}'
    ||| ('\u{2000}' <= c && c <= '\u{200a}')
    ||| c == '\u{2028}'
    ||| c == '\u{2029}'
    ||| c == '\u{202f}'
    ||| c == '\u{205f}'
    ||| c == '\u{3000}'
}

/// `char::is_whitespace`.
pub fn is_whitespace(c: char) -> (r: bool)
    ensures
        r == is_ws(c),
{
    ('\u{9}' <= c && c <= '\u{d}') || c == ' ' || c == '\u{85}' || c == '\u{a0}' || c == '\u{1680}'
        || ('\u{2000}' <= c && c <= '\u{200a}') || c == '\u{2028}' || c == '\u{2029}'
        || c == '\u{202f}' || c == '\u{205f}' || c == '\u{3000}'
}


/// `s` with leading whitespace removed.
pub open spec fn trim_start_ws(s: Seq<char>) -> Seq<char>
    decreases s.len(),
{
    if s.len() > 0 && is_ws(s[0]) {
        trim_start_ws(s.drop_first())
    } else {
        s
    }
}

/// `s` with trailing whitespace removed.
pub open spec fn trim_end_ws(s: Seq<char>) -> Seq<char>
    decreases s.len(),
{
    if s.len() > 0 && is_ws(s.last()) {
        trim_end_ws(s.drop_last())
    } else {
        s
    }
}

/// `s` with whitespace removed at both ends, as `str::trim` does.
pub open spec fn trimmed(s: Seq<char>) -> Seq<char> {
    trim_end_ws(trim_start_ws(s))
}

/// The characters of `v` from `a` up to, not including, `b`.
pub fn sub_chars(v: &Vec<char>, a: usize, b: usize) -> (r: Vec<char>)
    requires
        a <= b <= v.len(),
    ensures
        r@ == v@.subrange(a as int, b as int),
{
    let mut r: Vec<char> = Vec::new();
    let mut i = a;
    while i < b
        invariant
            a <= i <= b,
            b <= v.len(),
            r@ == v@.subrange(a as int, i as int),
        decreases b - i,
    {
        r.push(v[i]);
        i += 1;
        assert(r@ =~= v@.subrange(a as int, i as int));
    }
    r
}

/// `str::trim`: the text without leading and trailing whitespace.
pub fn trim(s: &str) -> (r: String)
    ensures
        r@ == trimmed(s@),
{
    let v = chars_of(s);
    let n = v.len();
    let mut a: usize = 0;
    assert(v@.subrange(0, n as int) =~= v@);
    while a < n && is_whitespace(v[a])
        invariant
            a <= n,
            n == v@.len(),
            trim_start_ws(v@) == trim_start_ws(v@.subrange(a as int, n as int)),
        decreases n - a,
    {
        assert(v@.subrange(a as int, n as int).drop_first() =~= v@.subrange(a + 1, n as int));
        a += 1;
    }
    assert(trim_start_ws(v@) == v@.subrange(a as int, n as int));
    let mut b: usize = n;
    while b > a && is_whitespace(v[b - 1])
        invariant
            a <= b <= n,
            n == v@.len(),
            trim_end_ws(v@.subrange(a as int, n as int)) == trim_end_ws(
                v@.subrange(a as int, b as int),
            ),
        decreases b,
    {
        assert(v@.subrange(a as int, b as int).drop_last() =~= v@.subrange(a as int, b - 1));
        b -= 1;
    }
    let w = sub_chars(&v, a, b);
    string_of(w.as_slice())
}

/// Whether `s` is empty once whitespace is removed (`s.trim().is_empty()`).
pub fn is_blank(s: &str) -> (r: bool)
    ensures
        r == (trimmed(s@).len() == 0),
{
    let t = trim(s);
    chars_of(t.as_str()).len() == 0
}

/// Whether two texts are equal.
pub fn same_text(a: &String, b: &str) -> (r: bool)
    ensures
        r == (a@ == b@),
{
    *a == String::from_str(b)
}

/// Whether a text is empty.
pub fn is_empty_text(s: &String) -> (r: bool)
    ensures
        r == (s@.len() == 0),
{
    chars_of(s.as_str()).len() == 0
}

/// `n` occurs in `h` at position `i`.
pub open spec fn occurs_at(h: Seq<char>, n: Seq<char>, i: int) -> bool {
    0 <= i && i + n.len() <= h.len() && h.subrange(i, i + n.len()) == n
}

/// `n` occurs somewhere in `h` (`str::contains`).
pub open spec fn has_sub(h: Seq<char>, n: Seq<char>) -> bool {
    exists|i: int| occurs_at(h, n, i)
}

/// `h` begins with `p` (`str::starts_with`).
pub open spec fn has_prefix(h: Seq<char>, p: Seq<char>) -> bool {
    occurs_at(h, p, 0)
}

/// `h` ends with `p` (`str::ends_with`).
pub open spec fn has_suffix(h: Seq<char>, p: Seq<char>) -> bool {
    occurs_at(h, p, h.len() - p.len())
}

fn chars_match_at(h: &Vec<char>, n: &Vec<char>, i: usize) -> (r: bool)
    requires
        i + n.len() <= h.len(),
    ensures
        r == occurs_at(h@, n@, i as int),
{
    let mut j: usize = 0;
    while j < n.len()
        invariant
            j <= n.len(),
            i + n.len() <= h.len(),
            forall|k: int| 0 <= k < j ==> h@[i + k] == n@[k],
        decreases n.len() - j,
    {
        if h[i + j] != n[j] {
            assert(h@.subrange(i as int, i + n.len())[j as int] != n@[j as int]);
            return false;
        }
        j += 1;
    }
    assert(h@.subrange(i as int, i + n.len()) =~= n@);
    true
}

/// `str::contains` with a string pattern.
pub fn contains(h: &str, n: &str) -> (r: bool)
    ensures
        r == has_sub(h@, n@),
{
    let hv = chars_of(h);
    let nv = chars_of(n);
    if nv.len() > hv.len() {
        return false;
    }
    let last = hv.len() - nv.len();
    let mut i: usize = 0;
    loop
        invariant
            i <= last,
            hv@ == h@,
            nv@ == n@,
            last == hv@.len() - nv@.len(),
            nv@.len() <= hv@.len(),
            forall|k: int| 0 <= k < i ==> !occurs_at(hv@, nv@, k),
        decreases last - i,
    {
        if chars_match_at(&hv, &nv, i) {
            assert(occurs_at(hv@, nv@, i as int));
            return true;
        }
        if i == last {
            return false;
        }
        i += 1;
    }
}

/// `str::starts_with` with a string pattern.
pub fn starts_with(h: &str, p: &str) -> (r: bool)
    ensures
        r == has_prefix(h@, p@),
{
    let hv = chars_of(h);
    let pv = chars_of(p);
    if pv.len() > hv.len() {
        return false;
    }
    chars_match_at(&hv, &pv, 0)
}

/// `str::ends_with` with a string pattern.
pub fn ends_with(h: &str, p: &str) -> (r: bool)
    ensures
        r == has_suffix(h@, p@),
{
    let hv = chars_of(h);
    let pv = chars_of(p);
    if pv.len() > hv.len() {
        return false;
    }
    chars_match_at(&hv, &pv, hv.len() - pv.len())
}


/// The ASCII digit for `d` (0..=9).
pub open spec fn digit_char(d: int) -> char {
    (d + 48) as char
}

/// The decimal digits of `n`, without sign or leading zeros.
pub open spec fn nat_text(n: nat) -> Seq<char>
    decreases n,
{
    if n < 10 {
        seq![digit_char(n as int)]
    } else {
        nat_text(n / 10).push(digit_char((n % 10) as int))
    }
}

/// The decimal text of `i` as `Display` writes it: a `-` before negatives.
pub open spec fn int_text(i: int) -> Seq<char> {
    if i < 0 {
        seq!['-'] + nat_text((-i) as nat)
    } else {
        nat_text(i as nat)
    }
}

fn push_digits(n: u64, out: &mut Vec<char>)
    ensures
        final(out)@ == old(out)@ + nat_text(n as nat),
    decreases n,
{
    if n >= 10 {
        push_digits(n / 10, out);
    }
    let d: u8 = (n % 10) as u8;
    let c = (d + 48u8) as char;
    out.push(c);
    proof {
        assert(c == digit_char((n % 10) as int));
        if n >= 10 {
            assert(nat_text(n as nat) == nat_text((n / 10) as nat).push(c));
        }
    }
    assert(final(out)@ =~= old(out)@ + nat_text(n as nat));
}

/// The decimal text of an unsigned integer (`u64::to_string`).
pub fn u64_text(n: u64) -> (r: String)
    ensures
        r@ == nat_text(n as nat),
{
    let mut v: Vec<char> = Vec::new();
    push_digits(n, &mut v);
    assert(v@ =~= nat_text(n as nat));
    string_of(v.as_slice())
}

/// The decimal text of a signed integer (`i64::to_string`).
pub fn i64_text(n: i64) -> (r: String)
    ensures
        r@ == int_text(n as int),
{
    let mut v: Vec<char> = Vec::new();
    if n < 0 {
        v.push('-');
        let m: u64 = ((-(n + 1)) as u64) + 1;
        push_digits(m, &mut v);
        assert(v@ =~= int_text(n as int));
    } else {
        push_digits(n as u64, &mut v);
        assert(v@ =~= int_text(n as int));
    }
    string_of(v.as_slice())
}

/// `Option<i32>` written with `{:?}`: `Some(<n>)` or `None`.
pub open spec fn debug_opt_i32(code: Option<i32>) -> Seq<char> {
    match code {
        Some(c) => "Some("@ + int_text(c as int) + ")"@,
        None => "None"@,
    }
}

/// `format!("{:?}", code)` for an optional exit code.
pub fn debug_opt_i32_text(code: Option<i32>) -> (r: String)
    ensures
        r@ == debug_opt_i32(code),
{
    match code {
        Some(c) => {
            let mut r = String::from_str("Some(");
            let t = i64_text(c as i64);
            r.append(t.as_str());
            r.append(")");
            r
        },
        None => String::from_str("None"),
    }
}

/// An ASCII decimal digit.
pub open spec fn is_digit(c: char) -> bool {
    '0' <= c && c <= '9'
}

pub open spec fn all_digits(s: Seq<char>) -> bool {
    forall|i: int| 0 <= i < s.len() ==> is_digit(#[trigger] s[i])
}

/// The value of a string of decimal digits (0 for the empty string).
pub open spec fn digits_value(s: Seq<char>) -> nat
    decreases s.len(),
{
    if s.len() == 0 {
        0
    } else {
        digits_value(s.drop_last()) * 10 + ((s.last() as int) - 48) as nat
    }
}

proof fn lemma_digits_value_prefix(s: Seq<char>, k: int)
    requires
        0 <= k <= s.len(),
        all_digits(s),
    ensures
        digits_value(s.take(k)) <= digits_value(s),
    decreases s.len(),
{
    if k < s.len() {
        assert(s.drop_last().take(k) =~= s.take(k));
        lemma_digits_value_prefix(s.drop_last(), k);
    } else {
        assert(s.take(k) =~= s);
    }
}

/// The value of `v[from..to]`, all digits, if it fits in a `u64`.
fn digits_to_u64(v: &Vec<char>, from: usize, to: usize) -> (r: Option<u64>)
    requires
        from <= to <= v.len(),
        all_digits(v@.subrange(from as int, to as int)),
    ensures
        match r {
            Some(x) => x == digits_value(v@.subrange(from as int, to as int)),
            None => digits_value(v@.subrange(from as int, to as int)) > u64::MAX,
        },
{
    let ghost whole = v@.subrange(from as int, to as int);
    let mut acc: u128 = 0;
    let mut i = from;
    assert(v@.subrange(from as int, from as int) =~= Seq::<char>::empty());
    while i < to
        invariant
            from <= i <= to <= v.len(),
            whole == v@.subrange(from as int, to as int),
            all_digits(whole),
            acc == digits_value(v@.subrange(from as int, i as int)),
            acc <= u64::MAX,
        decreases to - i,
    {
        assert(is_digit(whole[i - from]));
        let d = v[i];
        let dv: u128 = ((d as u32) - 48) as u128;
        let next = acc * 10 + dv;
        assert(v@.subrange(from as int, i + 1).drop_last() =~= v@.subrange(from as int, i as int));
        if next > u64::MAX as u128 {
            proof {
                assert(whole.take(i + 1 - from) =~= v@.subrange(from as int, i + 1));
                lemma_digits_value_prefix(whole, i + 1 - from);
            }
            return None;
        }
        acc = next;
        i += 1;
    }
    Some(acc as u64)
}

/// Splits off a leading `-` or `+`: whether the value is negative, and the rest.
pub open spec fn sign_split(s: Seq<char>) -> (bool, Seq<char>) {
    if s.len() > 0 && s[0] == '-' {
        (true, s.drop_first())
    } else if s.len() > 0 && s[0] == '+' {
        (false, s.drop_first())
    } else {
        (false, s)
    }
}

/// What `str::parse::<i64>` accepts: an optional sign, then at least one
/// ASCII digit, the value within the range of `i64`.
pub open spec fn parse_i64_spec(s: Seq<char>) -> Option<int> {
    let (neg, body) = sign_split(s);
    if body.len() > 0 && all_digits(body) {
        let v: int = if neg {
            -(digits_value(body) as int)
        } else {
            digits_value(body) as int
        };
        if i64::MIN <= v <= i64::MAX {
            Some(v)
        } else {
            None
        }
    } else {
        None
    }
}

/// What `str::parse::<u64>` accepts: an optional `+`, then at least one ASCII
/// digit, the value within the range of `u64`.
pub open spec fn parse_u64_spec(s: Seq<char>) -> Option<int> {
    let body = if s.len() > 0 && s[0] == '+' {
        s.drop_first()
    } else {
        s
    };
    if body.len() > 0 && all_digits(body) && digits_value(body) <= u64::MAX {
        Some(digits_value(body) as int)
    } else {
        None
    }
}

fn all_digits_in(v: &Vec<char>, from: usize, to: usize) -> (r: bool)
    requires
        from <= to <= v.len(),
    ensures
        r == all_digits(v@.subrange(from as int, to as int)),
{
    let mut i = from;
    while i < to
        invariant
            from <= i <= to <= v.len(),
            forall|k: int| from <= k < i ==> is_digit(v@[k]),
        decreases to - i,
    {
        if !(v[i] >= '0' && v[i] <= '9') {
            assert(!is_digit(v@.subrange(from as int, to as int)[i - from]));
            return false;
        }
        i += 1;
    }
    assert forall|k: int| 0 <= k < to - from implies is_digit(
        #[trigger] v@.subrange(from as int, to as int)[k],
    ) by {
        assert(v@.subrange(from as int, to as int)[k] == v@[from + k]);
    }
    true
}

/// `str::parse::<i64>`.
pub fn parse_i64(s: &str) -> (r: Option<i64>)
    ensures
        match r {
            Some(x) => parse_i64_spec(s@) == Some(x as int),
            None => parse_i64_spec(s@) is None,
        },
{
    let v = chars_of(s);
    let n = v.len();
    let mut start: usize = 0;
    let mut neg = false;
    if n > 0 && (v[0] == '-' || v[0] == '+') {
        neg = v[0] == '-';
        start = 1;
    }
    assert(sign_split(s@).1 =~= v@.subrange(start as int, n as int));
    if start == n || !all_digits_in(&v, start, n) {
        return None;
    }
    match digits_to_u64(&v, start, n) {
        None => None,
        Some(m) => {
            if neg {
                if m <= 9223372036854775808u64 {
                    if m == 9223372036854775808u64 {
                        Some(i64::MIN)
                    } else {
                        Some(-(m as i64))
                    }
                } else {
                    None
                }
            } else {
                if m <= i64::MAX as u64 {
                    Some(m as i64)
                } else {
                    None
                }
            }
        },
    }
}

/// `str::parse::<u64>`.
pub fn parse_u64(s: &str) -> (r: Option<u64>)
    ensures
        match r {
            Some(x) => parse_u64_spec(s@) == Some(x as int),
            None => parse_u64_spec(s@) is None,
        },
{
    let v = chars_of(s);
    let n = v.len();
    let mut start: usize = 0;
    if n > 0 && v[0] == '+' {
        start = 1;
    }
    assert((if s@.len() > 0 && s@[0] == '+' { s@.drop_first() } else { s@ }) =~= v@.subrange(
        start as int,
        n as int,
    ));
    if start == n || !all_digits_in(&v, start, n) {
        return None;
    }
    digits_to_u64(&v, start, n)
}


/// The index of the first `c` in `s`, or `s.len()` when there is none.
pub open spec fn char_pos(s: Seq<char>, c: char) -> nat
    decreases s.len(),
{
    if s.len() == 0 {
        0
    } else if s[0] == c {
        0
    } else {
        1 + char_pos(s.drop_first(), c)
    }
}

pub proof fn lemma_char_pos_at(s: Seq<char>, c: char, p: int)
    requires
        0 <= p <= s.len(),
        forall|k: int| 0 <= k < p ==> s[k] != c,
        p < s.len() ==> s[p] == c,
    ensures
        char_pos(s, c) == p,
    decreases s.len(),
{
    if s.len() > 0 && p > 0 {
        assert forall|k: int| 0 <= k < p - 1 implies s.drop_first()[k] != c by {
            assert(s.drop_first()[k] == s[k + 1]);
        }
        lemma_char_pos_at(s.drop_first(), c, p - 1);
    }
}

/// Finds the first `c` in `v[from..]`; `v.len()` when there is none.
fn find_char(v: &Vec<char>, from: usize, c: char) -> (r: usize)
    requires
        from <= v.len(),
    ensures
        from <= r <= v.len(),
        r - from == char_pos(v@.subrange(from as int, v.len() as int), c),
{
    let mut i = from;
    while i < v.len() && v[i] != c
        invariant
            from <= i <= v.len(),
            forall|k: int| from <= k < i ==> v@[k] != c,
        decreases v.len() - i,
    {
        i += 1;
    }
    proof {
        let t = v@.subrange(from as int, v.len() as int);
        assert forall|k: int| 0 <= k < i - from implies t[k] != c by {
            assert(t[k] == v@[from + k]);
        }
        lemma_char_pos_at(t, c, i - from);
    }
    i
}

/// The digits `f` cut, or padded with zeros, to exactly `k` digits.
pub open spec fn pad_frac(f: Seq<char>, k: nat) -> Seq<char> {
    if f.len() >= k {
        f.take(k as int)
    } else {
        f + Seq::new((k - f.len()) as nat, |_i: int| '0')
    }
}

/// Whether the digit of `d` at place `k` is 5 or more, so that keeping
/// only the first `k` digits rounds the magnitude up (half away from zero).
pub open spec fn rounds_up(d: Seq<char>, k: nat) -> bool {
    d.len() > k && d[k as int] >= '5'
}

/// `10` to the power `t`.
pub open spec fn pow10(t: nat) -> nat
    decreases t,
{
    if t == 0 {
        1
    } else {
        10 * pow10((t - 1) as nat)
    }
}

/// The digits `d` read with the decimal point after the first `k` of them
/// (zeros supplied where `d` is shorter), rounded half away from zero to
/// an integer; 0 when the point stands further left than just before the
/// first digit (the value is then below a tenth).
pub open spec fn scaled_magnitude(d: Seq<char>, k: int) -> nat {
    if k < 0 {
        0
    } else {
        digits_value(pad_frac(d, k as nat)) + (if rounds_up(d, k as nat) {
            1nat
        } else {
            0nat
        })
    }
}

/// The index of the first `e` or `E` in `s`, or `s.len()` when there is none.
pub open spec fn exp_mark_pos(s: Seq<char>) -> nat
    decreases s.len(),
{
    if s.len() == 0 {
        0
    } else if s[0] == 'e' || s[0] == 'E' {
        0
    } else {
        1 + exp_mark_pos(s.drop_first())
    }
}

/// An exponent: an optional sign, then at least one digit.
pub open spec fn exponent_spec(x: Seq<char>) -> Option<int> {
    let (neg, d) = sign_split(x);
    if d.len() > 0 && all_digits(d) {
        Some(
            if neg {
                -(digits_value(d) as int)
            } else {
                digits_value(d) as int
            },
        )
    } else {
        None
    }
}

/// The digits and the place of the decimal point (counted from the first
/// digit, moved by the exponent and by `scale`) of an unsigned number text
/// `digits[.digits][(e|E)[+-]digits]`, with at least one digit before the
/// exponent; `None` for any other text.
pub open spec fn decimal_form(body: Seq<char>, scale: nat) -> Option<(Seq<char>, int)> {
    let q = exp_mark_pos(body);
    let mant = body.take(q as int);
    let ex = if q < body.len() {
        exponent_spec(body.skip(q as int + 1))
    } else {
        Some(0int)
    };
    let p = char_pos(mant, '.');
    let ip = mant.take(p as int);
    let fp = if p < mant.len() {
        mant.skip(p as int + 1)
    } else {
        Seq::<char>::empty()
    };
    if ip.len() + fp.len() > 0 && all_digits(ip) && all_digits(fp) && ex is Some {
        Some((ip + fp, ip.len() + ex->0 + scale))
    } else {
        None
    }
}

/// A decimal number, signed, in the form of `decimal_form` (as
/// `str::parse::<f64>` reads finite numbers), as an integer count of
/// `10^-scale` units, rounded half away from zero at that place; `None`
/// when the text has another form or the value does not fit in an `i64`.
pub open spec fn parse_scaled_spec(s: Seq<char>, scale: nat) -> Option<int> {
    let (neg, body) = sign_split(s);
    match decimal_form(body, scale) {
        Some((d, k)) => {
            let m = scaled_magnitude(d, k) as int;
            let v = if neg {
                -m
            } else {
                m
            };
            if i64::MIN <= v <= i64::MAX {
                Some(v)
            } else {
                None
            }
        },
        None => None,
    }
}

proof fn lemma_pow10_at_least(t: nat)
    ensures
        pow10(t) >= 1,
        t >= 20 ==> pow10(t) >= 100000000000000000000,
    decreases t,
{
    if t > 0 {
        lemma_pow10_at_least((t - 1) as nat);
        if t == 20 {
            reveal_with_fuel(pow10, 21);
        }
    }
}

/// Trailing zeros multiply a digit string's value by a power of ten.
proof fn lemma_zeros_value(s: Seq<char>, t: nat)
    ensures
        digits_value(s + Seq::new(t, |_i: int| '0')) == digits_value(s) * pow10(t),
    decreases t,
{
    if t > 0 {
        lemma_zeros_value(s, (t - 1) as nat);
        let a = s + Seq::new((t - 1) as nat, |_i: int| '0');
        let b = s + Seq::new(t, |_i: int| '0');
        assert(b.drop_last() =~= a);
        assert(b.last() == '0');
        assert(digits_value(b) == digits_value(a) * 10);
        let x = digits_value(s);
        let y = pow10((t - 1) as nat);
        assert(digits_value(a) == x * y);
        assert(pow10(t) == 10 * y);
        assert(x * y * 10 == x * (10 * y)) by (nonlinear_arith);
        assert(digits_value(b) == x * pow10(t));
    } else {
        assert(s + Seq::new(t, |_i: int| '0') =~= s);
        assert(pow10(t) == 1);
        assert(digits_value(s) * 1 == digits_value(s));
    }
}

/// With the decimal point at least 20 places past the last digit, the
/// digits are followed by zeros only: the value is 0 for zero digits and
/// at least `10^20` otherwise.
proof fn lemma_big_shift(d: Seq<char>, k: int)
    requires
        all_digits(d),
        k >= d.len() + 20,
    ensures
        digits_value(d) == 0 ==> scaled_magnitude(d, k) == 0,
        digits_value(d) >= 1 ==> scaled_magnitude(d, k) >= 100000000000000000000,
{
    let t = (k - d.len()) as nat;
    assert(pad_frac(d, k as nat) =~= d + Seq::new(t, |_i: int| '0'));
    lemma_zeros_value(d, t);
    lemma_pow10_at_least(t);
    let x = digits_value(d);
    let y = pow10(t);
    assert(x >= 1 ==> x * y >= y) by (nonlinear_arith);
    assert(x == 0 ==> x * y == 0) by (nonlinear_arith);
}

/// `scaled_magnitude(d, k)` when it fits in a `u64`.
fn scaled_u64(d: &Vec<char>, k: i128) -> (r: Option<u64>)
    requires
        all_digits(d@),
    ensures
        match r {
            Some(x) => x == scaled_magnitude(d@, k as int),
            None => scaled_magnitude(d@, k as int) > u64::MAX,
        },
{
    let dl = d.len();
    if k < 0 {
        return Some(0);
    }
    if k <= dl as i128 {
        let ku = k as usize;
        assert(pad_frac(d@, ku as nat) =~= d@.subrange(0, ku as int));
        let up = ku < dl && d[ku] >= '5';
        assert(up == rounds_up(d@, ku as nat));
        assert(all_digits(d@.subrange(0, ku as int)));
        match digits_to_u64(d, 0, ku) {
            None => None,
            Some(x) => {
                if up {
                    if x == u64::MAX {
                        None
                    } else {
                        Some(x + 1)
                    }
                } else {
                    Some(x)
                }
            },
        }
    } else if k - (dl as i128) >= 20 {
        proof {
            lemma_big_shift(d@, k as int);
        }
        assert(d@.subrange(0, dl as int) =~= d@);
        match digits_to_u64(d, 0, dl) {
            Some(x) => {
                if x == 0 {
                    Some(0)
                } else {
                    None
                }
            },
            None => None,
        }
    } else {
        let t = (k - (dl as i128)) as usize;
        let mut e = sub_chars(d, 0, dl);
        assert(d@.subrange(0, dl as int) =~= d@);
        let mut z: usize = 0;
        while z < t
            invariant
                z <= t <= 20,
                e@ == d@ + Seq::new(z as nat, |_i: int| '0'),
            decreases t - z,
        {
            e.push('0');
            z += 1;
            assert(e@ =~= d@ + Seq::new(z as nat, |_i: int| '0'));
        }
        assert(pad_frac(d@, k as nat) =~= e@);
        let en = e.len();
        assert(e@.subrange(0, en as int) =~= e@);
        assert(all_digits(e@)) by {
            assert forall|i: int| 0 <= i < e@.len() implies is_digit(#[trigger] e@[i]) by {
                if i >= dl {
                    assert(e@[i] == '0');
                }
            }
        }
        digits_to_u64(&e, 0, en)
    }
}

/// The index of the first `e` or `E` in `v[from..]`; `v.len()` when none.
fn find_exp_mark(v: &Vec<char>, from: usize) -> (r: usize)
    requires
        from <= v.len(),
    ensures
        from <= r <= v.len(),
        r - from == exp_mark_pos(v@.subrange(from as int, v.len() as int)),
{
    let mut i = from;
    while i < v.len() && v[i] != 'e' && v[i] != 'E'
        invariant
            from <= i <= v.len(),
            forall|k: int| from <= k < i ==> v@[k] != 'e' && v@[k] != 'E',
        decreases v.len() - i,
    {
        i += 1;
    }
    proof {
        let t = v@.subrange(from as int, v.len() as int);
        lemma_exp_mark_at(t, i - from);
    }
    i
}

pub proof fn lemma_exp_mark_at(s: Seq<char>, p: int)
    requires
        0 <= p <= s.len(),
        forall|k: int| 0 <= k < p ==> s[k] != 'e' && s[k] != 'E',
        p < s.len() ==> s[p] == 'e' || s[p] == 'E',
    ensures
        exp_mark_pos(s) == p,
    decreases s.len(),
{
    if s.len() > 0 && p > 0 {
        assert forall|k: int| 0 <= k < p - 1 implies s.drop_first()[k] != 'e' && s.drop_first()[k]
            != 'E' by {
            assert(s.drop_first()[k] == s[k + 1]);
        }
        lemma_exp_mark_at(s.drop_first(), p - 1);
    }
}

/// The index of the first `c` in `v[from..to]`; `to` when there is none.
fn find_char_to(v: &Vec<char>, from: usize, to: usize, c: char) -> (r: usize)
    requires
        from <= to <= v.len(),
    ensures
        from <= r <= to,
        r - from == char_pos(v@.subrange(from as int, to as int), c),
{
    let mut i = from;
    while i < to && v[i] != c
        invariant
            from <= i <= to <= v.len(),
            forall|k: int| from <= k < i ==> v@[k] != c,
        decreases to - i,
    {
        i += 1;
    }
    proof {
        let t = v@.subrange(from as int, to as int);
        assert forall|k: int| 0 <= k < i - from implies t[k] != c by {
            assert(t[k] == v@[from + k]);
        }
        lemma_char_pos_at(t, c, i - from);
    }
    i
}

/// A bound on exponents beyond which every value is 0 or out of range.
pub open spec fn exp_cap() -> int {
    1000000000000000000000000000000
}

/// The exponent in `v[from..to]`, held within `exp_cap()` either way.
fn read_exponent(v: &Vec<char>, from: usize, to: usize) -> (r: Option<i128>)
    requires
        from <= to <= v.len(),
    ensures
        match exponent_spec(v@.subrange(from as int, to as int)) {
            None => r is None,
            Some(e) => r matches Some(x) && (if e >= exp_cap() {
                x == exp_cap()
            } else if e <= -exp_cap() {
                x == -exp_cap()
            } else {
                x == e
            }),
        },
{
    let ghost x = v@.subrange(from as int, to as int);
    let mut start = from;
    let mut neg = false;
    if from < to && (v[from] == '-' || v[from] == '+') {
        neg = v[from] == '-';
        start = from + 1;
    }
    let ghost d = v@.subrange(start as int, to as int);
    assert(sign_split(x).1 =~= d);
    if start == to || !all_digits_in(v, start, to) {
        return None;
    }
    let cap: u128 = 1000000000000000000000000000000;
    let mut acc: u128 = 0;
    let mut i = start;
    assert(v@.subrange(start as int, start as int) =~= Seq::<char>::empty());
    while i < to
        invariant
            start <= i <= to <= v.len(),
            cap == exp_cap(),
            d == v@.subrange(start as int, to as int),
            all_digits(d),
            acc == (if digits_value(v@.subrange(start as int, i as int)) >= cap {
                cap as int
            } else {
                digits_value(v@.subrange(start as int, i as int)) as int
            }),
        decreases to - i,
    {
        assert(is_digit(d[i - start]));
        let dv: u128 = ((v[i] as u32) - 48) as u128;
        assert(v@.subrange(start as int, i + 1).drop_last() =~= v@.subrange(start as int, i as int));
        assert(v@.subrange(start as int, i + 1).last() == v@[i as int]);
        if acc < cap {
            let next = acc * 10 + dv;
            acc = if next >= cap {
                cap
            } else {
                next
            };
        }
        i += 1;
    }
    assert(v@.subrange(start as int, to as int) =~= d);
    let m = acc as i128;
    if neg {
        Some(-m)
    } else {
        Some(m)
    }
}

/// The digits and point place of the unsigned number text `v[start..]`
/// (see `decimal_form`); the place is exact, or, for an exponent beyond
/// `exp_cap()` either way, on the same side of the digits by at least 20.
fn read_decimal(v: &Vec<char>, start: usize, scale: usize) -> (r: Option<(Vec<char>, i128)>)
    requires
        start <= v.len(),
    ensures
        match decimal_form(v@.subrange(start as int, v.len() as int), scale as nat) {
            None => r is None,
            Some((dg, kt)) => r matches Some((d, k)) && d@ == dg && all_digits(dg) && (k == kt || (
            k < 0 && kt < 0) || (k >= dg.len() + 20 && kt >= dg.len() + 20)),
        },
{
    let n = v.len();
    let ghost body = v@.subrange(start as int, n as int);
    let q = find_exp_mark(v, start);
    let ghost mant = body.take((q - start) as int);
    assert(mant =~= v@.subrange(start as int, q as int));
    let ex: i128 = if q < n {
        assert(body.skip((q - start) as int + 1) =~= v@.subrange(q + 1, n as int));
        match read_exponent(v, q + 1, n) {
            None => {
                return None;
            },
            Some(e) => e,
        }
    } else {
        0
    };
    let ghost ex_t: int = if q < n {
        exponent_spec(body.skip((q - start) as int + 1))->0
    } else {
        0
    };
    let p = find_char_to(v, start, q, '.');
    let ghost ip = mant.take((p - start) as int);
    let ghost fp = if p < q {
        mant.skip(p - start + 1)
    } else {
        Seq::<char>::empty()
    };
    assert(ip =~= v@.subrange(start as int, p as int));
    let fs: usize = if p < q {
        p + 1
    } else {
        q
    };
    assert(fp =~= v@.subrange(fs as int, q as int));
    if (p - start) + (q - fs) == 0 {
        return None;
    }
    if !all_digits_in(v, start, p) || !all_digits_in(v, fs, q) {
        return None;
    }
    let mut d = sub_chars(v, start, p);
    let mut j = fs;
    while j < q
        invariant
            fs <= j <= q <= n == v.len(),
            d@ == ip + v@.subrange(fs as int, j as int),
        decreases q - j,
    {
        d.push(v[j]);
        j += 1;
        assert(d@ =~= ip + v@.subrange(fs as int, j as int));
    }
    let ghost dg = d@;
    assert(dg == ip + fp);
    assert(all_digits(dg)) by {
        assert forall|i: int| 0 <= i < dg.len() implies is_digit(#[trigger] dg[i]) by {
            if i < ip.len() {
                assert(dg[i] == ip[i]);
            } else {
                assert(dg[i] == fp[i - ip.len()]);
            }
        }
    }
    let k: i128 = (p - start) as i128 + ex + scale as i128;
    Some((d, k))
}

/// Reads a decimal number, possibly with an exponent, as a count of
/// `10^-scale` units rounded to the nearest (see `parse_scaled_spec`).
pub fn parse_scaled(s: &str, scale: usize) -> (r: Option<i64>)
    ensures
        match r {
            Some(x) => parse_scaled_spec(s@, scale as nat) == Some(x as int),
            None => parse_scaled_spec(s@, scale as nat) is None,
        },
{
    let v = chars_of(s);
    let n = v.len();
    let mut start: usize = 0;
    let mut neg = false;
    if n > 0 && (v[0] == '-' || v[0] == '+') {
        neg = v[0] == '-';
        start = 1;
    }
    assert(sign_split(s@).1 =~= v@.subrange(start as int, n as int));
    let (d, k) = match read_decimal(&v, start, scale) {
        None => {
            return None;
        },
        Some(x) => x,
    };
    let ghost form = decimal_form(v@.subrange(start as int, n as int), scale as nat)->0;
    let ghost kt = form.1;
    let mr = scaled_u64(&d, k);
    proof {
        if k != kt && k >= 0 {
            lemma_big_shift(d@, k as int);
            lemma_big_shift(d@, kt);
        }
        assert(mr is Some ==> mr->0 == scaled_magnitude(d@, kt));
        assert(mr is None ==> scaled_magnitude(d@, kt) > u64::MAX);
    }
    let m = match mr {
        None => {
            return None;
        },
        Some(x) => x,
    };
    if neg {
        if m <= 9223372036854775808u64 {
            if m == 9223372036854775808u64 {
                Some(i64::MIN)
            } else {
                Some(-(m as i64))
            }
        } else {
            None
        }
    } else {
        if m <= i64::MAX as u64 {
            Some(m as i64)
        } else {
            None
        }
    }
}

/// What `str::lines().next()` gives: `None` for empty text, else the text
/// up to the first `\n`, one `\r` before that `\n` dropped.
pub open spec fn first_line_spec(s: Seq<char>) -> Option<Seq<char>> {
    if s.len() == 0 {
        None
    } else {
        let p = char_pos(s, '\n');
        if p < s.len() {
            let l = s.take(p as int);
            Some(
                if l.len() > 0 && l.last() == '\r' {
                    l.drop_last()
                } else {
                    l
                },
            )
        } else {
            Some(s)
        }
    }
}

/// `s.lines().next()`.
pub fn first_line(s: &str) -> (r: Option<String>)
    ensures
        match r {
            Some(l) => first_line_spec(s@) == Some(l@),
            None => first_line_spec(s@) is None,
        },
{
    let v = chars_of(s);
    let n = v.len();
    if n == 0 {
        return None;
    }
    let p = find_char(&v, 0, '\n');
    assert(v@.subrange(0, n as int) =~= v@);
    if p < n {
        let end = if p > 0 && v[p - 1] == '\r' {
            p - 1
        } else {
            p
        };
        let w = sub_chars(&v, 0, end);
        assert(w@ =~= first_line_spec(s@)->0);
        Some(string_of(w.as_slice()))
    } else {
        Some(string_of(v.as_slice()))
    }
}

/// The parts joined with `sep` between neighbours (`[String]::join`).
pub open spec fn joined(parts: Seq<Seq<char>>, sep: Seq<char>) -> Seq<char>
    decreases parts.len(),
{
    if parts.len() == 0 {
        Seq::empty()
    } else if parts.len() == 1 {
        parts[0]
    } else {
        joined(parts.drop_last(), sep) + sep + parts.last()
    }
}

/// `parts.join(sep)`.
pub fn join(parts: &Vec<String>, sep: &str) -> (r: String)
    ensures
        r@ == joined(parts.deep_view(), sep@),
{
    let mut r = String::new();
    let mut i: usize = 0;
    while i < parts.len()
        invariant
            i <= parts.len(),
            r@ == joined(parts.deep_view().take(i as int), sep@),
        decreases parts.len() - i,
    {
        if i > 0 {
            r.append(sep);
        }
        r.append(parts[i].as_str());
        proof {
            let t = parts.deep_view().take(i + 1);
            assert(t.drop_last() =~= parts.deep_view().take(i as int));
            assert(t.last() == parts[i as int]@);
            if i == 0 {
                assert(t.len() == 1);
            }
        }
        i += 1;
    }
    assert(parts.deep_view().take(parts.len() as int) =~= parts.deep_view());
    r
}

/// What `str::to_lowercase` makes of a text (full Unicode case mapping).
pub uninterp spec fn lowercase_of(s: Seq<char>) -> Seq<char>;

/// What `str::to_uppercase` makes of a text (full Unicode case mapping).
pub uninterp spec fn uppercase_of(s: Seq<char>) -> Seq<char>;

/// Calls `str::to_lowercase`. Claimed: the result depends on the text alone;
/// it is named `lowercase_of`, nothing more is stated of it.
#[verifier::external_body]
pub(crate) fn to_lowercase(s: &str) -> (r: String)
    ensures
        r@ == lowercase_of(s@),
{
    s.to_lowercase()
}

/// Calls `str::to_uppercase`. Claimed: the result depends on the text alone;
/// it is named `uppercase_of`, nothing more is stated of it.
#[verifier::external_body]
pub(crate) fn to_uppercase(s: &str) -> (r: String)
    ensures
        r@ == uppercase_of(s@),
{
    s.to_uppercase()
}

/// `str::eq_ignore_ascii_case`: equal lengths, and equal characters once
/// ASCII capitals are taken as small letters.
pub open spec fn ascii_lower(c: char) -> char {
    if 'A' <= c && c <= 'Z' {
        ((c as int) + 32) as char
    } else {
        c
    }
}

pub open spec fn eq_ignore_ascii_case_spec(a: Seq<char>, b: Seq<char>) -> bool {
    a.len() == b.len() && forall|i: int| 0 <= i < a.len() ==> ascii_lower(a[i]) == ascii_lower(b[i])
}

fn lower_ascii_char(c: char) -> (r: char)
    ensures
        r == ascii_lower(c),
{
    if c >= 'A' && c <= 'Z' {
        (((c as u32) + 32) as u8) as char
    } else {
        c
    }
}

/// `a.eq_ignore_ascii_case(b)`.
pub fn eq_ignore_ascii_case(a: &str, b: &str) -> (r: bool)
    ensures
        r == eq_ignore_ascii_case_spec(a@, b@),
{
    let av = chars_of(a);
    let bv = chars_of(b);
    if av.len() != bv.len() {
        return false;
    }
    let mut i: usize = 0;
    while i < av.len()
        invariant
            i <= av.len() == bv.len(),
            av@ == a@,
            bv@ == b@,
            forall|k: int| 0 <= k < i ==> ascii_lower(av@[k]) == ascii_lower(bv@[k]),
        decreases av.len() - i,
    {
        if lower_ascii_char(av[i]) != lower_ascii_char(bv[i]) {
            return false;
        }
        i += 1;
    }
    true
}


/// Lexicographic order of texts by code point, as `String`'s `Ord` compares
/// them (UTF-8 keeps code point order).
pub open spec fn lex_lt(a: Seq<char>, b: Seq<char>) -> bool
    decreases a.len(),
{
    if a.len() == 0 {
        b.len() > 0
    } else if b.len() == 0 {
        false
    } else if a[0] != b[0] {
        (a[0] as int) < (b[0] as int)
    } else {
        lex_lt(a.drop_first(), b.drop_first())
    }
}

pub proof fn lemma_lex_irreflexive(a: Seq<char>)
    ensures
        !lex_lt(a, a),
    decreases a.len(),
{
    if a.len() > 0 {
        lemma_lex_irreflexive(a.drop_first());
    }
}

pub proof fn lemma_lex_transitive(a: Seq<char>, b: Seq<char>, c: Seq<char>)
    requires
        lex_lt(a, b),
        lex_lt(b, c),
    ensures
        lex_lt(a, c),
    decreases a.len(),
{
    if a.len() > 0 && a[0] == b[0] && b[0] == c[0] {
        lemma_lex_transitive(a.drop_first(), b.drop_first(), c.drop_first());
    }
}

pub proof fn lemma_lex_total(a: Seq<char>, b: Seq<char>)
    requires
        a != b,
    ensures
        lex_lt(a, b) || lex_lt(b, a),
    decreases a.len(),
{
    if a.len() > 0 && b.len() > 0 && a[0] == b[0] {
        if a.drop_first() == b.drop_first() {
            assert(a =~= seq![a[0]] + a.drop_first());
            assert(b =~= seq![b[0]] + b.drop_first());
        }
        lemma_lex_total(a.drop_first(), b.drop_first());
    } else if a.len() == 0 && b.len() == 0 {
        assert(a =~= b);
    }
}

/// `a < b` for texts (`String`'s order).
pub fn text_lt(a: &str, b: &str) -> (r: bool)
    ensures
        r == lex_lt(a@, b@),
{
    let av = chars_of(a);
    let bv = chars_of(b);
    let mut i: usize = 0;
    assert(av@.skip(0) =~= av@);
    assert(bv@.skip(0) =~= bv@);
    while i < av.len() && i < bv.len() && av[i] == bv[i]
        invariant
            i <= av.len(),
            i <= bv.len(),
            lex_lt(a@, b@) == lex_lt(av@.skip(i as int), bv@.skip(i as int)),
            av@ == a@,
            bv@ == b@,
        decreases av.len() - i,
    {
        assert(av@.skip(i as int).drop_first() =~= av@.skip(i + 1));
        assert(bv@.skip(i as int).drop_first() =~= bv@.skip(i + 1));
        i += 1;
    }
    assert(av@.skip(i as int).len() == av@.len() - i);
    assert(bv@.skip(i as int).len() == bv@.len() - i);
    if i == av.len() {
        i < bv.len()
    } else if i == bv.len() {
        false
    } else {
        assert(av@.skip(i as int)[0] == av@[i as int]);
        assert(bv@.skip(i as int)[0] == bv@[i as int]);
        av[i] < bv[i]
    }
}

/// Strictly increasing in `lex_lt` order.
pub open spec fn strictly_sorted(s: Seq<Seq<char>>) -> bool {
    forall|i: int, j: int| 0 <= i < j < s.len() ==> lex_lt(#[trigger] s[i], #[trigger] s[j])
}

fn insert_sorted(r: &mut Vec<String>, x: String)
    requires
        strictly_sorted(old(r).deep_view()),
    ensures
        strictly_sorted(final(r).deep_view()),
        forall|y: Seq<char>|
            final(r).deep_view().contains(y) <==> (old(r).deep_view().contains(y) || y == x@),
{
    let ghost old_v = r.deep_view();
    let mut p: usize = 0;
    while p < r.len() && text_lt(r[p].as_str(), x.as_str())
        invariant
            p <= r.len(),
            r.deep_view() == old_v,
            forall|k: int| 0 <= k < p ==> lex_lt(#[trigger] old_v[k], x@),
        decreases r.len() - p,
    {
        assert(old_v[p as int] == r@[p as int]@);
        p += 1;
    }
    if p < r.len() {
        assert(old_v[p as int] == r@[p as int]@);
        if r[p] == x {
            assert(old_v.contains(x@));
            return;
        }
    }
    let ghost xv = x@;
    r.insert(p, x);
    proof {
        let nv = r.deep_view();
        assert(nv =~= old_v.insert(p as int, xv));
        if p < old_v.len() {
            lemma_lex_total(old_v[p as int], xv);
        }
        assert forall|i: int, j: int| 0 <= i < j < nv.len() implies lex_lt(
            #[trigger] nv[i],
            #[trigger] nv[j],
        ) by {
            if i < p && j > p {
                assert(lex_lt(old_v[i], old_v[j - 1]));
            } else if i == p && j - 1 > p {
                lemma_lex_transitive(xv, old_v[p as int], old_v[j - 1]);
            }
        }
        assert forall|y: Seq<char>|
            nv.contains(y) <==> (old_v.contains(y) || y == xv) by {
            if nv.contains(y) {
                let k = choose|k: int| 0 <= k < nv.len() && nv[k] == y;
                if k < p {
                    assert(old_v[k] == y);
                } else if k > p {
                    assert(old_v[k - 1] == y);
                }
            }
            if old_v.contains(y) {
                let k = choose|k: int| 0 <= k < old_v.len() && old_v[k] == y;
                if k < p {
                    assert(nv[k] == y);
                } else {
                    assert(nv[k + 1] == y);
                }
            }
            if y == xv {
                assert(nv[p as int] == y);
            }
        }
    }
}

/// The texts of `v` in increasing order, each once (`sort` then `dedup`).
pub fn sorted_unique(v: &Vec<String>) -> (r: Vec<String>)
    ensures
        strictly_sorted(r.deep_view()),
        forall|y: Seq<char>| r.deep_view().contains(y) <==> v.deep_view().contains(y),
{
    let mut r: Vec<String> = Vec::new();
    let mut i: usize = 0;
    while i < v.len()
        invariant
            i <= v.len(),
            strictly_sorted(r.deep_view()),
            forall|y: Seq<char>|
                r.deep_view().contains(y) <==> v.deep_view().take(i as int).contains(y),
        decreases v.len() - i,
    {
        let x = v[i].clone();
        insert_sorted(&mut r, x);
        proof {
            let t = v.deep_view().take(i + 1);
            assert(t =~= v.deep_view().take(i as int).push(v@[i as int]@));
            assert forall|y: Seq<char>| t.contains(y) <==> (v.deep_view().take(i as int).contains(y) || y == v@[i as int]@) by {
                if t.contains(y) {
                    let k = choose|k: int| 0 <= k < t.len() && t[k] == y;
                    if k < i {
                        assert(v.deep_view().take(i as int)[k] == y);
                    }
                }
                if v.deep_view().take(i as int).contains(y) {
                    let k = choose|k: int| 0 <= k < i && v.deep_view().take(i as int)[k] == y;
                    assert(t[k] == y);
                }
                if y == v@[i as int]@ {
                    assert(t[i as int] == y);
                }
            }
        }
        i += 1;
    }
    assert(v.deep_view().take(v.len() as int) =~= v.deep_view());
    r
}

} // verus!
