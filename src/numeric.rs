//! Integer and fixed-point parsing and formatting for gas and USD amounts.
//!
//! Gas values are unsigned 64-bit integers written in decimal or as
//! `0x`-prefixed hexadecimal. Prices are decimal texts such as `2.0`.
//! USD amounts are kept as whole micro-dollars (six decimals).
use vstd::prelude::*;
use vstd::arithmetic::div_mod::{lemma_fundamental_div_mod, lemma_fundamental_div_mod_converse};

verus! {

/// Value of a digit character in radix up to 36; 99 for a non-digit.
pub open spec fn digit_value(c: char) -> int {
    if '0' <= c && c <= '9' {
        c as int - '0' as int
    } else if 'a' <= c && c <= 'z' {
        c as int - 'a' as int + 10
    } else if 'A' <= c && c <= 'Z' {
        c as int - 'A' as int + 10
    } else {
        99
    }
}

/// Every character of `s` is a digit of `radix`.
pub open spec fn all_digits(s: Seq<char>, radix: nat) -> bool {
    forall|i: int| 0 <= i < s.len() ==> #[trigger] digit_value(s[i]) < radix
}

/// Value of a digit sequence, most significant digit first.
pub open spec fn digits_value(s: Seq<char>, radix: nat) -> nat
    decreases s.len(),
{
    if s.len() == 0 {
        0
    } else {
        digits_value(s.drop_last(), radix) * radix + digit_value(s.last()) as nat
    }
}

/// What `u64::from_str_radix` accepts: an optional `+`, then one digit or
/// more, with a value that fits in 64 bits.
pub open spec fn radix_u64(s: Seq<char>, radix: nat) -> Option<u64> {
    let body = if s.len() > 0 && s[0] == '+' { s.drop_first() } else { s };
    if body.len() > 0 && all_digits(body, radix) && digits_value(body, radix) <= u64::MAX {
        Some(digits_value(body, radix) as u64)
    } else {
        None
    }
}

/// The text begins with `0x`.
pub open spec fn has_hex_prefix(s: Seq<char>) -> bool {
    s.len() >= 2 && s[0] == '0' && s[1] == 'x'
}

/// The text with every leading `0x` removed, as `trim_start_matches("0x")` does.
pub open spec fn strip_hex_prefixes(s: Seq<char>) -> Seq<char>
    decreases s.len(),
{
    if has_hex_prefix(s) {
        strip_hex_prefixes(s.skip(2))
    } else {
        s
    }
}

/// A gas value: hexadecimal after `0x`, decimal otherwise.
pub open spec fn gas_value_of(s: Seq<char>) -> Option<u64> {
    if has_hex_prefix(s) {
        radix_u64(strip_hex_prefixes(s), 16)
    } else {
        radix_u64(s, 10)
    }
}

/// A gas value that falls back to zero when absent or unreadable.
pub open spec fn gas_or_zero(val: Option<Seq<char>>) -> u64 {
    match val {
        Some(s) => match gas_value_of(s) {
            Some(v) => v,
            None => 0,
        },
        None => 0,
    }
}

proof fn lemma_digits_value_push(s: Seq<char>, c: char, radix: nat)
    ensures
        digits_value(s.push(c), radix) == digits_value(s, radix) * radix + digit_value(c) as nat,
{
    assert(s.push(c).drop_last() =~= s);
}

proof fn lemma_digits_value_grows(s: Seq<char>, k: int, radix: nat)
    requires
        0 <= k <= s.len(),
        radix >= 1,
        all_digits(s, radix),
    ensures
        digits_value(s.take(k), radix) <= digits_value(s, radix),
    decreases s.len() - k,
{
    if k < s.len() {
        lemma_digits_value_grows(s, k + 1, radix);
        assert(s.take(k + 1) =~= s.take(k).push(s[k]));
        lemma_digits_value_push(s.take(k), s[k], radix);
        let v = digits_value(s.take(k), radix);
        assert(v * radix >= v) by (nonlinear_arith)
            requires radix >= 1;
    } else {
        assert(s.take(k) =~= s);
    }
}

/// Value of one character as a digit of `radix`, if it is one.
fn char_digit(c: char, radix: u32) -> (r: Option<u32>)
    requires
        2 <= radix <= 36,
    ensures
        r is Some <==> digit_value(c) < radix,
        r is Some ==> r->0 == digit_value(c),
{
    let v = c as u32;
    let d: u32 = if '0' <= c && c <= '9' {
        v - ('0' as u32)
    } else if 'a' <= c && c <= 'z' {
        v - ('a' as u32) + 10
    } else if 'A' <= c && c <= 'Z' {
        v - ('A' as u32) + 10
    } else {
        99
    };
    if d < radix {
        Some(d)
    } else {
        None
    }
}

/// Reads the characters `s[start..end]` as an unsigned integer of `radix`,
/// with an optional leading `+`, as `u64::from_str_radix` does.
fn parse_range_u64(s: &str, start: usize, end: usize, radix: u32) -> (r: Option<u64>)
    requires
        2 <= radix <= 36,
        start <= end <= s@.len(),
    ensures
        r == radix_u64(s@.subrange(start as int, end as int), radix as nat),
{
    let ghost full = s@.subrange(start as int, end as int);
    let mut i = start;
    if i < end && s.get_char(i) == '+' {
        i = i + 1;
    }
    let ghost body = s@.subrange(i as int, end as int);
    proof {
        if full.len() > 0 && full[0] == '+' {
            assert(body =~= full.drop_first());
        } else {
            assert(body =~= full);
        }
    }
    if i == end {
        return None;
    }
    let first = i;
    assert(body.len() > 0);
    let mut acc: u64 = 0;
    while i < end
        invariant
            2 <= radix <= 36,
            first <= i <= end <= s@.len(),
            body == s@.subrange(first as int, end as int),
            body.len() > 0,
            full == s@.subrange(start as int, end as int),
            radix_u64(full, radix as nat) == (if all_digits(body, radix as nat) && digits_value(
                body,
                radix as nat,
            ) <= u64::MAX {
                Some(digits_value(body, radix as nat) as u64)
            } else {
                None
            }),
            all_digits(s@.subrange(first as int, i as int), radix as nat),
            acc == digits_value(s@.subrange(first as int, i as int), radix as nat),
        decreases end - i,
    {
        let c = s.get_char(i);
        let ghost pre = s@.subrange(first as int, i as int);
        assert(s@.subrange(first as int, i + 1) =~= pre.push(c));
        proof {
            lemma_digits_value_push(pre, c, radix as nat);
        }
        match char_digit(c, radix) {
            None => {
                assert(digit_value(body[i - first]) >= radix);
                return None;
            },
            Some(d) => {
                let next = acc.checked_mul(radix as u64);
                match next {
                    None => {
                        proof {
                            assert(acc * radix <= digits_value(pre.push(c), radix as nat));
                            assert(all_digits(pre.push(c), radix as nat));
                            self::lemma_tail_check(body, (i - first) as int, radix as nat);
                            assert(body.take((i + 1 - first) as int) =~= pre.push(c));
                        }
                        return None;
                    },
                    Some(m) => {
                        match m.checked_add(d as u64) {
                            None => {
                                proof {
                                    assert(all_digits(pre.push(c), radix as nat));
                                    self::lemma_tail_check(body, (i - first) as int, radix as nat);
                                    assert(body.take((i + 1 - first) as int) =~= pre.push(c));
                                }
                                return None;
                            },
                            Some(v) => {
                                acc = v;
                            },
                        }
                    },
                }
            },
        }
        i = i + 1;
    }
    Some(acc)
}

/// Either `body` is not all digits, or its value is at least that of the
/// first `k + 1` characters.
proof fn lemma_tail_check(body: Seq<char>, k: int, radix: nat)
    requires
        0 <= k < body.len(),
        radix >= 1,
    ensures
        all_digits(body, radix) ==> digits_value(body.take(k + 1), radix) <= digits_value(body, radix),
{
    if all_digits(body, radix) {
        lemma_digits_value_grows(body, k + 1, radix);
    }
}

/// Index just past every leading `0x` of `s`.
fn hex_body_start(s: &str) -> (r: usize)
    ensures
        r <= s@.len(),
        s@.skip(r as int) == strip_hex_prefixes(s@),
{
    let n = s.unicode_len();
    let mut i: usize = 0;
    proof {
        assert(s@.skip(0) =~= s@);
    }
    while n - i >= 2 && s.get_char(i) == '0' && s.get_char(i + 1) == 'x'
        invariant
            i <= n,
            n == s@.len(),
            strip_hex_prefixes(s@.skip(i as int)) == strip_hex_prefixes(s@),
        decreases n - i,
    {
        proof {
            assert(s@.skip(i as int).skip(2) =~= s@.skip(i + 2));
        }
        i = i + 2;
    }
    i
}

/// Reads a gas value: hexadecimal after `0x`, decimal otherwise.
pub fn gas_value(s: &str) -> (r: Option<u64>)
    ensures
        r == gas_value_of(s@),
{
    let n = s.unicode_len();
    if n >= 2 && s.get_char(0) == '0' && s.get_char(1) == 'x' {
        let b = hex_body_start(s);
        proof {
            assert(s@.subrange(b as int, n as int) =~= s@.skip(b as int));
        }
        parse_range_u64(s, b, n, 16)
    } else {
        proof {
            assert(s@.subrange(0, n as int) =~= s@);
        }
        parse_range_u64(s, 0, n, 10)
    }
}

/// The text of an optional string.
pub open spec fn opt_text(v: Option<&String>) -> Option<Seq<char>> {
    match v {
        Some(s) => Some(s@),
        None => None,
    }
}

/// Reads an optional gas value; absent or unreadable values count as zero.
pub fn parse_gas_value(val: Option<&String>) -> (r: u64)
    ensures
        r == gas_or_zero(opt_text(val)),
{
    match val {
        Some(s) => match gas_value(s.as_str()) {
            Some(v) => v,
            None => 0,
        },
        None => 0,
    }
}

/// Index of the first `.` in `s`, or its length when there is none.
pub open spec fn dot_index(s: Seq<char>) -> int
    decreases s.len(),
{
    if s.len() == 0 {
        0
    } else if s[0] == '.' {
        0
    } else {
        1 + dot_index(s.drop_first())
    }
}

/// Digits before the first `.`.
pub open spec fn int_part(s: Seq<char>) -> Seq<char> {
    s.take(dot_index(s))
}

/// Digits after the first `.`; empty when there is no `.`.
pub open spec fn frac_part(s: Seq<char>) -> Seq<char> {
    if dot_index(s) < s.len() {
        s.skip(dot_index(s) + 1)
    } else {
        Seq::empty()
    }
}

/// A decimal text `int[.frac]` with at least one digit, read as the pair
/// (all digits as one integer, number of fraction digits).
pub open spec fn decimal_of(s: Seq<char>) -> Option<(nat, nat)> {
    let ip = int_part(s);
    let fp = frac_part(s);
    if all_digits(ip, 10) && all_digits(fp, 10) && ip.len() + fp.len() > 0 {
        Some((digits_value(ip + fp, 10), fp.len()))
    } else {
        None
    }
}

pub proof fn lemma_dot_index(s: Seq<char>, i: int)
    requires
        0 <= i <= s.len(),
        forall|j: int| 0 <= j < i ==> s[j] != '.',
        i == s.len() || s[i] == '.',
    ensures
        dot_index(s) == i,
    decreases i,
{
    if i > 0 {
        let t = s.drop_first();
        assert forall|j: int| 0 <= j < i - 1 implies t[j] != '.' by {
            assert(t[j] == s[j + 1]);
        }
        if i < s.len() {
            assert(t[i - 1] == s[i]);
        }
        lemma_dot_index(t, i - 1);
    }
}

/// A price or amount read from decimal text: `mantissa / 10^scale`.
#[derive(Debug, Clone, Copy, PartialEq, Eq, Structural)]
pub struct Decimal {
    pub mantissa: u128,
    pub scale: usize,
}

/// Continues reading the decimal digits `s[from..to]` after a prefix whose
/// value is `acc`.
fn accumulate_digits(s: &str, from: usize, to: usize, acc: u128, Ghost(prefix): Ghost<Seq<char>>) -> (r:
    Option<u128>)
    requires
        from <= to <= s@.len(),
        all_digits(prefix, 10),
        acc == digits_value(prefix, 10),
    ensures
        r == (if all_digits(s@.subrange(from as int, to as int), 10) && digits_value(
            prefix + s@.subrange(from as int, to as int),
            10,
        ) <= u128::MAX {
            Some(digits_value(prefix + s@.subrange(from as int, to as int), 10) as u128)
        } else {
            None
        }),
{
    let ghost whole = prefix + s@.subrange(from as int, to as int);
    let mut i = from;
    let mut acc = acc;
    proof {
        assert(prefix + s@.subrange(from as int, from as int) =~= prefix);
    }
    while i < to
        invariant
            from <= i <= to <= s@.len(),
            whole == prefix + s@.subrange(from as int, to as int),
            all_digits(prefix, 10),
            all_digits(s@.subrange(from as int, i as int), 10),
            acc == digits_value(prefix + s@.subrange(from as int, i as int), 10),
        decreases to - i,
    {
        let c = s.get_char(i);
        let ghost pre = prefix + s@.subrange(from as int, i as int);
        assert(prefix + s@.subrange(from as int, i + 1) =~= pre.push(c));
        assert(whole.take(pre.len() + 1 as int) =~= pre.push(c));
        proof {
            lemma_digits_value_push(pre, c, 10);
        }
        match char_digit(c, 10) {
            None => {
                assert(s@.subrange(from as int, to as int)[i - from] == c);
                return None;
            },
            Some(d) => {
                let bad = acc > (u128::MAX - d as u128) / 10;
                if bad {
                    proof {
                        assert(acc * 10 + d > u128::MAX);
                        if all_digits(s@.subrange(from as int, to as int), 10) {
                            assert forall|j: int| 0 <= j < whole.len() implies #[trigger] digit_value(
                                whole[j],
                            ) < 10 by {
                                if j >= prefix.len() {
                                    assert(whole[j] == s@.subrange(from as int, to as int)[j
                                        - prefix.len()]);
                                }
                            }
                            lemma_tail_check(whole, pre.len() as int, 10);
                        }
                    }
                    return None;
                }
                acc = acc * 10 + d as u128;
            },
        }
        i = i + 1;
    }
    proof {
        assert(s@.subrange(from as int, i as int) == s@.subrange(from as int, to as int));
    }
    Some(acc)
}

/// The text is a decimal whose digits, taken together, fit in 128 bits.
pub open spec fn decimal_fits(s: Seq<char>) -> bool {
    match decimal_of(s) {
        Some(p) => p.0 <= u128::MAX,
        None => false,
    }
}

/// Reads a decimal text `int[.frac]` whose digits, taken together, fit in 128 bits.
pub fn parse_decimal(s: &str) -> (r: Option<Decimal>)
    ensures
        r is Some <==> decimal_fits(s@),
        r is Some ==> decimal_of(s@) == Some((r->0.mantissa as nat, r->0.scale as nat)),
{
    let n = s.unicode_len();
    let mut d: usize = 0;
    while d < n && s.get_char(d) != '.'
        invariant
            d <= n,
            n == s@.len(),
            forall|j: int| 0 <= j < d ==> s@[j] != '.',
        decreases n - d,
    {
        d = d + 1;
    }
    proof {
        lemma_dot_index(s@, d as int);
        assert(int_part(s@) =~= s@.subrange(0, d as int));
        assert(s@.subrange(0, 0) =~= Seq::<char>::empty());
        assert(Seq::<char>::empty() + s@.subrange(0, d as int) =~= s@.subrange(0, d as int));
    }
    let ip = accumulate_digits(s, 0, d, 0, Ghost(Seq::empty()));
    match ip {
        None => {
            proof {
                let ipart = s@.subrange(0, d as int);
                let fp = frac_part(s@);
                if all_digits(ipart, 10) && all_digits(fp, 10) {
                    assert(digits_value(ipart, 10) > u128::MAX);
                    assert((ipart + fp).take(ipart.len() as int) =~= ipart);
                    lemma_digits_value_grows(ipart + fp, ipart.len() as int, 10);
                    assert(all_digits(ipart + fp, 10)) by {
                        assert forall|j: int| 0 <= j < (ipart + fp).len() implies #[trigger] digit_value(
                            (ipart + fp)[j],
                        ) < 10 by {
                            if j >= ipart.len() {
                                assert((ipart + fp)[j] == fp[j - ipart.len()]);
                            } else {
                                assert((ipart + fp)[j] == ipart[j]);
                            }
                        }
                    }
                }
            }
            None
        },
        Some(iv) => {
            if d == n {
                proof {
                    assert(frac_part(s@) =~= Seq::<char>::empty());
                    assert(s@.subrange(0, d as int) + Seq::<char>::empty() =~= s@.subrange(0, d as int));
                }
                if n == 0 {
                    return None;
                }
                Some(Decimal { mantissa: iv, scale: 0 })
            } else {
                let ghost ipart = s@.subrange(0, d as int);
                proof {
                    assert(frac_part(s@) =~= s@.subrange(d + 1, n as int));
                }
                let fv = accumulate_digits(s, d + 1, n, iv, Ghost(ipart));
                match fv {
                    None => None,
                    Some(v) => {
                        if n == 1 {
                            return None;
                        }
                        Some(Decimal { mantissa: v, scale: n - d - 1 })
                    },
                }
            }
        },
    }
}

/// `10^n`.
pub open spec fn pow10(n: nat) -> nat
    decreases n,
{
    if n == 0 {
        1
    } else {
        10 * pow10((n - 1) as nat)
    }
}

proof fn lemma_pow10_mono(a: nat, b: nat)
    requires
        a <= b,
    ensures
        pow10(a) <= pow10(b),
        pow10(b) >= 1,
    decreases b,
{
    if b > 0 {
        if a < b {
            lemma_pow10_mono(a, (b - 1) as nat);
        } else {
            lemma_pow10_mono((b - 1) as nat, (b - 1) as nat);
        }
    }
}

fn pow10_u128(e: usize) -> (r: u128)
    requires
        e <= 38,
    ensures
        r == pow10(e as nat),
{
    proof {
        assert(pow10(38) == 100000000000000000000000000000000000000nat) by {
            reveal_with_fuel(pow10, 39);
        }
    }
    let mut r: u128 = 1;
    let mut i: usize = 0;
    while i < e
        invariant
            i <= e <= 38,
            r == pow10(i as nat),
            pow10(38) == 100000000000000000000000000000000000000nat,
        decreases e - i,
    {
        proof {
            lemma_pow10_mono((i + 1) as nat, 38);
        }
        r = r * 10;
        i = i + 1;
    }
    r
}

/// Index of the first exponent marker (`e` or `E`) in `s`, or its length.
pub open spec fn exp_index(s: Seq<char>) -> int
    decreases s.len(),
{
    if s.len() == 0 {
        0
    } else if s[0] == 'e' || s[0] == 'E' {
        0
    } else {
        1 + exp_index(s.drop_first())
    }
}

pub proof fn lemma_exp_index(s: Seq<char>, i: int)
    requires
        0 <= i <= s.len(),
        forall|j: int| 0 <= j < i ==> s[j] != 'e' && s[j] != 'E',
        i == s.len() || s[i] == 'e' || s[i] == 'E',
    ensures
        exp_index(s) == i,
    decreases i,
{
    if i > 0 {
        let t = s.drop_first();
        assert forall|j: int| 0 <= j < i - 1 implies t[j] != 'e' && t[j] != 'E' by {
            assert(t[j] == s[j + 1]);
        }
        if i < s.len() {
            assert(t[i - 1] == s[i]);
        }
        lemma_exp_index(t, i - 1);
    }
}

/// An exponent: an optional sign, then one digit or more, with a magnitude
/// that fits in 64 bits.
pub open spec fn exponent_of(x: Seq<char>) -> Option<int> {
    let neg = x.len() > 0 && x[0] == '-';
    let d = if x.len() > 0 && (x[0] == '-' || x[0] == '+') { x.drop_first() } else { x };
    if d.len() > 0 && d[0] != '+' {
        match radix_u64(d, 10) {
            Some(v) => Some(if neg { -(v as int) } else { v as int }),
            None => None,
        }
    } else {
        None
    }
}

/// The text without one leading `+`.
pub open spec fn unsigned_body(s: Seq<char>) -> Seq<char> {
    if s.len() > 0 && s[0] == '+' {
        s.drop_first()
    } else {
        s
    }
}

/// A non-negative number in floating-point syntax, `[+]int[.frac][(e|E)[+|-]exp]`
/// with at least one digit before the exponent, read as (significant
/// digits, power of ten): the number is `digits * 10^power`. The digits
/// must fit in 128 bits and the exponent's magnitude in 64 bits.
pub open spec fn number_of(s: Seq<char>) -> Option<(nat, int)> {
    let t = unsigned_body(s);
    let ei = exp_index(t);
    match decimal_of(t.take(ei)) {
        Some(d) => if d.0 > u128::MAX {
            None
        } else if ei < t.len() {
            match exponent_of(t.skip(ei + 1)) {
                Some(x) => Some((d.0, x - d.1)),
                None => None,
            }
        } else {
            Some((d.0, -(d.1 as int)))
        },
        None => None,
    }
}

/// A gas cost: hexadecimal after `0x`, else a number in floating-point syntax.
pub open spec fn cost_number_of(s: Seq<char>) -> Option<(nat, int)> {
    if has_hex_prefix(s) {
        match radix_u64(strip_hex_prefixes(s), 16) {
            Some(v) => Some((v as nat, 0int)),
            None => None,
        }
    } else {
        number_of(s)
    }
}

/// The same number with the trailing zeros of its digits moved into the power.
pub open spec fn normal(m: nat, e: int) -> (nat, int)
    decreases m,
{
    if m > 0 && m % 10 == 0 {
        normal(m / 10, e + 1)
    } else {
        (m, e)
    }
}

/// `x / d` rounded half up.
pub open spec fn round_div(x: nat, d: nat) -> nat {
    (2 * x + d) / (2 * d)
}

/// Micro-dollars spent for a cost of `c.0 * 10^c.1` wei at a price of
/// `p.0 * 10^p.1` USD per native token (10^18 wei), rounded half up:
/// `round(cost * price / 10^18 * 10^6)`. `None` when the significant digits
/// of cost times price, or the amount itself, do not fit in 128 bits.
pub open spec fn usd_of_numbers(c: (nat, int), p: (nat, int)) -> Option<nat> {
    let cn = normal(c.0, c.1);
    let pn = normal(p.0, p.1);
    let x = cn.0 * pn.0;
    let e = cn.1 + pn.1 - 12;
    if x > u128::MAX {
        None
    } else if e >= 0 {
        if x * pow10(e as nat) <= u128::MAX {
            Some(x * pow10(e as nat))
        } else {
            None
        }
    } else {
        Some(round_div(x, pow10((-e) as nat)))
    }
}

/// USD spent, in micro-dollars, for a gas-cost text and a price text;
/// `None` when either cannot be read or the amount is out of range.
pub open spec fn usd_spent_of(cost: Seq<char>, price: Seq<char>) -> Option<nat> {
    match (cost_number_of(cost), number_of(price)) {
        (Some(c), Some(p)) => usd_of_numbers(c, p),
        _ => None,
    }
}

/// A number `mantissa * 10^exp`.
#[derive(Debug, Clone, Copy, PartialEq, Eq, Structural)]
pub struct Number {
    pub mantissa: u128,
    pub exp: i128,
}

/// Bound on the power of ten of a number this module reads.
pub open spec fn exp_in_range(e: int) -> bool {
    -0x2_0000_0000_0000_0000 <= e <= 0x2_0000_0000_0000_0000
}

/// Reads an exponent: an optional sign, then digits.
fn parse_exponent(x: &str) -> (r: Option<i128>)
    ensures
        r is Some <==> exponent_of(x@) is Some,
        r matches Some(v) ==> exponent_of(x@) == Some(v as int) && -0x1_0000_0000_0000_0000 <= v
            <= 0x1_0000_0000_0000_0000,
{
    let n = x.unicode_len();
    let neg = n > 0 && x.get_char(0) == '-';
    let start: usize = if n > 0 && (x.get_char(0) == '-' || x.get_char(0) == '+') {
        1
    } else {
        0
    };
    proof {
        if start == 1 {
            assert(x@.subrange(1, n as int) =~= x@.drop_first());
        } else {
            assert(x@.subrange(0, n as int) =~= x@);
        }
    }
    if start >= n || x.get_char(start) == '+' {
        return None;
    }
    match parse_range_u64(x, start, n, 10) {
        Some(v) => if neg {
            Some(-(v as i128))
        } else {
            Some(v as i128)
        },
        None => None,
    }
}

/// Reads a non-negative number in floating-point syntax.
pub fn parse_number(s: &str) -> (r: Option<Number>)
    ensures
        r is Some <==> number_of(s@) is Some,
        r matches Some(v) ==> number_of(s@) == Some((v.mantissa as nat, v.exp as int)) && exp_in_range(
            v.exp as int,
        ),
{
    let n = s.unicode_len();
    let start: usize = if n > 0 && s.get_char(0) == '+' {
        1
    } else {
        0
    };
    let ghost t = unsigned_body(s@);
    proof {
        assert(t =~= s@.skip(start as int));
    }
    let mut ei: usize = start;
    while ei < n && s.get_char(ei) != 'e' && s.get_char(ei) != 'E'
        invariant
            start <= ei <= n,
            n == s@.len(),
            t == s@.skip(start as int),
            forall|j: int| start <= j < ei ==> s@[j] != 'e' && s@[j] != 'E',
        decreases n - ei,
    {
        ei = ei + 1;
    }
    proof {
        assert forall|j: int| 0 <= j < ei - start implies t[j] != 'e' && t[j] != 'E' by {
            assert(t[j] == s@[j + start]);
        }
        if ei < n {
            assert(t[ei - start] == s@[ei as int]);
        }
        lemma_exp_index(t, ei - start);
        assert(t.take(ei - start) =~= s@.subrange(start as int, ei as int));
    }
    let mant = s.substring_char(start, ei);
    let d = match parse_decimal(mant) {
        Some(d) => d,
        None => {
            return None;
        },
    };
    let sc = d.scale as i128;
    if ei < n {
        let ex = s.substring_char(ei + 1, n);
        proof {
            assert(t.skip(ei - start + 1) =~= s@.subrange(ei + 1, n as int));
        }
        match parse_exponent(ex) {
            Some(x) => Some(Number { mantissa: d.mantissa, exp: x - sc }),
            None => None,
        }
    } else {
        Some(Number { mantissa: d.mantissa, exp: -sc })
    }
}

/// Reads a gas cost: hexadecimal after `0x`, else a number in
/// floating-point syntax.
pub fn parse_cost(s: &str) -> (r: Option<Number>)
    ensures
        r is Some <==> cost_number_of(s@) is Some,
        r matches Some(v) ==> cost_number_of(s@) == Some((v.mantissa as nat, v.exp as int))
            && exp_in_range(v.exp as int),
{
    let n = s.unicode_len();
    if n >= 2 && s.get_char(0) == '0' && s.get_char(1) == 'x' {
        match gas_value(s) {
            Some(v) => Some(Number { mantissa: v as u128, exp: 0 }),
            None => None,
        }
    } else {
        parse_number(s)
    }
}

proof fn lemma_pow10_succ(k: nat)
    ensures
        pow10(k + 1) == 10 * pow10(k),
{
}

proof fn lemma_pow10_big()
    ensures
        pow10(38) == 100000000000000000000000000000000000000nat,
        pow10(39) == 1000000000000000000000000000000000000000nat,
{
    reveal_with_fuel(pow10, 40);
}

/// Moves the trailing zeros of the digits into the power.
fn normalize(v: Number) -> (r: Number)
    requires
        exp_in_range(v.exp as int),
    ensures
        normal(v.mantissa as nat, v.exp as int) == (r.mantissa as nat, r.exp as int),
        v.exp <= r.exp <= v.exp + 39,
{
    let mut m = v.mantissa;
    let mut e = v.exp;
    proof {
        lemma_pow10_big();
        assert(pow10(0nat) == 1);
        assert(m * pow10(0nat) == m);
    }
    while m > 0 && m % 10 == 0
        invariant
            normal(m as nat, e as int) == normal(v.mantissa as nat, v.exp as int),
            v.exp <= e,
            exp_in_range(v.exp as int),
            m * pow10((e - v.exp) as nat) == v.mantissa,
            pow10(39) == 1000000000000000000000000000000000000000nat,
        decreases m,
    {
        let ghost k = (e - v.exp) as nat;
        proof {
            lemma_pow10_succ(k);
            lemma_pow10_mono(k, k);
            assert((m / 10) * pow10(k + 1) == m * pow10(k)) by (nonlinear_arith)
                requires m % 10 == 0, pow10(k + 1) == 10 * pow10(k);
            if k >= 39 {
                lemma_pow10_mono(39, k);
                assert(m * pow10(k) >= pow10(k)) by (nonlinear_arith)
                    requires m >= 1, pow10(k) >= 1;
            }
        }
        m = m / 10;
        e = e + 1;
    }
    proof {
        let k = (e - v.exp) as nat;
        if k >= 40 {
            lemma_pow10_mono(39, k);
        }
        if m > 0 && k >= 40 {
            assert(m * pow10(k) >= pow10(k)) by (nonlinear_arith)
                requires m >= 1, pow10(k) >= 1;
        }
        if m == 0 {
            assert(v.mantissa == 0);
        }
    }
    Number { mantissa: m, exp: e }
}

/// `x / 10^k` rounded half up, for `1 <= k <= 38`.
fn round_div_pow10(x: u128, k: usize) -> (r: u128)
    requires
        1 <= k <= 38,
    ensures
        r == round_div(x as nat, pow10(k as nat)),
{
    let d = pow10_u128(k);
    proof {
        lemma_pow10_mono(1, k as nat);
        assert(pow10(1) == 10nat) by {
            reveal_with_fuel(pow10, 2);
        }
    }
    let q = x / d;
    let rem = x % d;
    proof {
        lemma_fundamental_div_mod(x as int, d as int);
        assert(x == d * q + rem);
        assert(d * q >= q * 2) by (nonlinear_arith)
            requires d >= 2, q >= 0;
    }
    if rem >= d - rem {
        proof {
            assert(2 * x + d == (q + 1) * (2 * d) + (2 * rem - d)) by (nonlinear_arith)
                requires x == d * q + rem;
            lemma_fundamental_div_mod_converse((2 * x + d) as int, (2 * d) as int, q + 1, 2 * rem - d);
        }
        q + 1
    } else {
        proof {
            assert(2 * x + d == q * (2 * d) + (2 * rem + d)) by (nonlinear_arith)
                requires x == d * q + rem;
            lemma_fundamental_div_mod_converse((2 * x + d) as int, (2 * d) as int, q as int, 2 * rem + d);
        }
        q
    }
}

/// Micro-dollars spent for a cost and a price read as numbers.
pub fn usd_of(cost: Number, price: Number) -> (r: Option<u128>)
    requires
        exp_in_range(cost.exp as int),
        exp_in_range(price.exp as int),
    ensures
        r is Some <==> usd_of_numbers(
            (cost.mantissa as nat, cost.exp as int),
            (price.mantissa as nat, price.exp as int),
        ) is Some,
        r matches Some(v) ==> usd_of_numbers(
            (cost.mantissa as nat, cost.exp as int),
            (price.mantissa as nat, price.exp as int),
        ) == Some(v as nat),
{
    let c = normalize(cost);
    let p = normalize(price);
    let x = match c.mantissa.checked_mul(p.mantissa) {
        Some(x) => x,
        None => {
            return None;
        },
    };
    let e: i128 = c.exp + p.exp - 12;
    proof {
        lemma_pow10_big();
    }
    if e >= 0 {
        if x == 0 {
            proof {
                assert(x * pow10(e as nat) == 0) by (nonlinear_arith)
                    requires x == 0;
            }
            return Some(0);
        }
        if e > 38 {
            proof {
                lemma_pow10_mono(39, e as nat);
                assert(x * pow10(e as nat) >= pow10(e as nat)) by (nonlinear_arith)
                    requires x >= 1, pow10(e as nat) >= 1;
            }
            return None;
        }
        let f = pow10_u128(e as usize);
        match x.checked_mul(f) {
            Some(y) => Some(y),
            None => None,
        }
    } else {
        let k = -e;
        if k > 38 {
            proof {
                let dd = pow10(k as nat);
                lemma_pow10_mono(39, k as nat);
                assert(2 * x < dd);
                lemma_fundamental_div_mod_converse((2 * x + dd) as int, (2 * dd) as int, 0int, (2 * x + dd) as int);
            }
            return Some(0);
        }
        Some(round_div_pow10(x, k as usize))
    }
}

/// USD spent, in micro-dollars: `gas_cost_wei * native_usd_price / 10^18`,
/// rounded half up. The cost is `0x` hexadecimal or a number in
/// floating-point syntax; so is the price.
pub fn calculate_usd_spent(actual_gas_cost: &str, native_usd_price: &str) -> (r: Option<u128>)
    ensures
        r is Some <==> usd_spent_of(actual_gas_cost@, native_usd_price@) is Some,
        r is Some ==> r->0 == usd_spent_of(actual_gas_cost@, native_usd_price@)->0,
{
    let cost = parse_cost(actual_gas_cost);
    let price = parse_number(native_usd_price);
    match (cost, price) {
        (Some(c), Some(p)) => usd_of(c, p),
        _ => None,
    }
}

/// The character of a decimal digit.
pub open spec fn digit_char(d: int) -> char {
    if d == 0 {
        '0'
    } else if d == 1 {
        '1'
    } else if d == 2 {
        '2'
    } else if d == 3 {
        '3'
    } else if d == 4 {
        '4'
    } else if d == 5 {
        '5'
    } else if d == 6 {
        '6'
    } else if d == 7 {
        '7'
    } else if d == 8 {
        '8'
    } else {
        '9'
    }
}

/// Decimal text of a natural number, without leading zeros.
pub open spec fn decimal_text(n: nat) -> Seq<char>
    decreases n,
{
    if n < 10 {
        seq![digit_char(n as int)]
    } else {
        decimal_text(n / 10).push(digit_char((n % 10) as int))
    }
}

/// Six-digit text of a fraction in millionths, with leading zeros.
pub open spec fn six_digits(f: nat) -> Seq<char> {
    seq![
        digit_char((f / 100000 % 10) as int),
        digit_char((f / 10000 % 10) as int),
        digit_char((f / 1000 % 10) as int),
        digit_char((f / 100 % 10) as int),
        digit_char((f / 10 % 10) as int),
        digit_char((f % 10) as int),
    ]
}

/// Text of an amount of micro-units with six decimals, as `{:.6}` writes it.
pub open spec fn fixed6_text(m: nat) -> Seq<char> {
    decimal_text(m / 1000000) + seq!['.'] + six_digits(m % 1000000)
}

fn digit_str(d: u128) -> (r: &'static str)
    requires
        d < 10,
    ensures
        r@ == seq![digit_char(d as int)],
{
    proof {
        reveal_strlit("0");
        reveal_strlit("1");
        reveal_strlit("2");
        reveal_strlit("3");
        reveal_strlit("4");
        reveal_strlit("5");
        reveal_strlit("6");
        reveal_strlit("7");
        reveal_strlit("8");
        reveal_strlit("9");
    }
    let r = if d == 0 {
        "0"
    } else if d == 1 {
        "1"
    } else if d == 2 {
        "2"
    } else if d == 3 {
        "3"
    } else if d == 4 {
        "4"
    } else if d == 5 {
        "5"
    } else if d == 6 {
        "6"
    } else if d == 7 {
        "7"
    } else if d == 8 {
        "8"
    } else {
        "9"
    };
    assert(r@ =~= seq![digit_char(d as int)]);
    r
}

/// Decimal text of an unsigned integer.
pub fn format_decimal(n: u128) -> (r: String)
    ensures
        r@ == decimal_text(n as nat),
    decreases n,
{
    if n < 10 {
        String::from_str(digit_str(n))
    } else {
        let mut r = format_decimal(n / 10);
        r.append(digit_str(n % 10));
        r
    }
}

/// Text of an amount of micro-units with exactly six decimals.
pub fn format_fixed6(m: u128) -> (r: String)
    ensures
        r@ == fixed6_text(m as nat),
{
    proof {
        reveal_strlit(".");
    }
    let f = m % 1000000;
    let mut r = format_decimal(m / 1000000);
    r.append(".");
    r.append(digit_str(f / 100000 % 10));
    r.append(digit_str(f / 10000 % 10));
    r.append(digit_str(f / 1000 % 10));
    r.append(digit_str(f / 100 % 10));
    r.append(digit_str(f / 10 % 10));
    r.append(digit_str(f % 10));
    assert(r@ =~= fixed6_text(m as nat));
    r
}

/// What `str::parse::<i64>` accepts: an optional sign, then one digit or
/// more, with a value in the 64-bit signed range.
pub open spec fn i64_of(s: Seq<char>) -> Option<i64> {
    if s.len() > 0 && s[0] == '-' {
        let b = s.drop_first();
        match radix_u64(b, 10) {
            Some(v) => if b[0] != '+' && v <= 0x8000_0000_0000_0000 {
                Some((-(v as int)) as i64)
            } else {
                None
            },
            None => None,
        }
    } else {
        match radix_u64(s, 10) {
            Some(v) => if v <= i64::MAX {
                Some(v as i64)
            } else {
                None
            },
            None => None,
        }
    }
}

/// Reads a signed decimal integer.
pub fn parse_i64(s: &str) -> (r: Option<i64>)
    ensures
        r == i64_of(s@),
{
    let n = s.unicode_len();
    if n > 0 && s.get_char(0) == '-' {
        proof {
            assert(s@.subrange(1, n as int) =~= s@.drop_first());
        }
        if n > 1 && s.get_char(1) == '+' {
            return None;
        }
        match parse_range_u64(s, 1, n, 10) {
            Some(v) => {
                if v < 0x8000_0000_0000_0000 {
                    Some(-(v as i64))
                } else if v == 0x8000_0000_0000_0000 {
                    Some(i64::MIN)
                } else {
                    None
                }
            },
            None => None,
        }
    } else {
        proof {
            assert(s@.subrange(0, n as int) =~= s@);
        }
        match parse_range_u64(s, 0, n, 10) {
            Some(v) => if v <= 0x7fff_ffff_ffff_ffff {
                Some(v as i64)
            } else {
                None
            },
            None => None,
        }
    }
}

} // verus!
