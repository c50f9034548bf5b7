//! Sizing-specification grammar.
//!
//! A sizing specification lists offers between commas, with whitespace
//! around each offer ignored. An offer reads `<number>%` for a bet of
//! that share of the pot, `e` for a bet of the remaining effective
//! stack, `a` for an all-in bet, or `<number>x` for that multiple of
//! the bet being faced, where `<number>` is a non-negative decimal
//! numeral. A part left empty after trimming offers nothing and is
//! skipped, so the empty string parses to no offers at all. Any other
//! text is a `GrammarError` carrying the token and its zero-based place
//! among the comma-separated parts.

use crate::decimal::Decimal;
use crate::errors::{GrammarError, GrammarErrorSpec};
use vstd::prelude::*;
use vstd::string::StrSliceExecFns;

verus! {

/// One bet-sizing offer.
#[derive(Clone, Copy, PartialEq, Eq, Structural, Debug)]
pub enum SizingToken {
    /// `<number>%`: a bet of that percentage of the pot.
    PotPercent(Decimal),
    /// `e`: a bet of the remaining effective stack.
    EffectiveStack,
    /// `a`: an all-in bet.
    AllIn,
    /// `<number>x`: that multiple of the bet being faced.
    Multiplier(Decimal),
}

/// The most digits a numeral may carry: every 19-digit value fits the
/// 64-bit mantissa of `Decimal`, and longer numerals are rejected by the
/// grammar as a machine limit.
pub const MAX_NUMERAL_DIGITS: usize = 19;

/// Whitespace that is trimmed around tokens.
pub open spec fn is_space(c: char) -> bool {
    c == ' ' || c == '\t' || c == '\r' || c == '\n'
}

/// An ASCII decimal digit.
pub open spec fn is_digit(c: char) -> bool {
    48 <= c as u32 && c as u32 <= 57
}

/// `s` without leading whitespace.
pub open spec fn trim_start(s: Seq<char>) -> Seq<char>
    decreases s.len(),
{
    if s.len() > 0 && is_space(s[0]) {
        trim_start(s.drop_first())
    } else {
        s
    }
}

/// `s` without trailing whitespace.
pub open spec fn trim_end(s: Seq<char>) -> Seq<char>
    decreases s.len(),
{
    if s.len() > 0 && is_space(s.last()) {
        trim_end(s.drop_last())
    } else {
        s
    }
}

/// `s` without leading or trailing whitespace.
pub open spec fn trim(s: Seq<char>) -> Seq<char> {
    trim_end(trim_start(s))
}

/// Index of the first occurrence of `c` in `s`, or `s.len()` when `c`
/// does not occur.
pub open spec fn find_first(s: Seq<char>, c: char) -> int
    decreases s.len(),
{
    if s.len() <= 0 {
        0
    } else if s[0] == c {
        0
    } else {
        1 + find_first(s.drop_first(), c)
    }
}

/// All characters of `s` are decimal digits.
pub open spec fn all_digits(s: Seq<char>) -> bool {
    forall|k: int| 0 <= k < s.len() ==> is_digit(#[trigger] s[k])
}

/// The value of a sequence of decimal digits, most significant first.
pub open spec fn digits_value(s: Seq<char>) -> int
    decreases s.len(),
{
    if s.len() == 0 {
        0
    } else {
        10 * digits_value(s.drop_last()) + (s.last() as u32 - 48)
    }
}

/// The digits of the numeral `u`, with the decimal point removed.
pub open spec fn digit_part(u: Seq<char>) -> Seq<char> {
    let i = find_first(u, '.');
    if 0 <= i < u.len() {
        u.take(i) + u.skip(i + 1)
    } else {
        u
    }
}

/// `u` is shaped like a non-negative decimal numeral: digits with at
/// most one decimal point and at least one digit.
pub open spec fn num_shape_ok(u: Seq<char>) -> bool {
    let i = find_first(u, '.');
    if 0 <= i < u.len() {
        u.len() >= 2 && all_digits(u.take(i)) && all_digits(u.skip(i + 1))
    } else {
        u.len() >= 1 && all_digits(u)
    }
}

/// The number of digits after the decimal point of `u`.
pub open spec fn num_scale(u: Seq<char>) -> int {
    let i = find_first(u, '.');
    if 0 <= i < u.len() {
        u.len() - i - 1
    } else {
        0
    }
}

/// `u` is a numeral the grammar accepts: well shaped, with at most
/// `MAX_NUMERAL_DIGITS` digits so that its mantissa fits in 64 bits.
pub open spec fn num_ok(u: Seq<char>) -> bool {
    num_shape_ok(u) && digit_part(u).len() <= MAX_NUMERAL_DIGITS
}

/// The decimal denoted by the numeral `u`.
pub open spec fn num_value(u: Seq<char>) -> Decimal {
    Decimal {
        negative: false,
        mantissa: digits_value(digit_part(u)) as u64,
        scale: num_scale(u) as u32,
    }
}

/// What a single trimmed, non-empty token denotes, or `None` when the
/// grammar does not recognize it.
pub open spec fn token_spec(t: Seq<char>) -> Option<SizingToken> {
    if t == seq!['e'] {
        Some(SizingToken::EffectiveStack)
    } else if t == seq!['a'] {
        Some(SizingToken::AllIn)
    } else if t.len() > 1 && t.last() == '%' && num_ok(t.drop_last()) {
        Some(SizingToken::PotPercent(num_value(t.drop_last())))
    } else if t.len() > 1 && t.last() == 'x' && num_ok(t.drop_last()) {
        Some(SizingToken::Multiplier(num_value(t.drop_last())))
    } else {
        None
    }
}

/// Parsing of the comma-separated parts of `s`, the first part having
/// position `idx`: each part is trimmed, empty parts are skipped, and
/// the first unrecognized part is the error.
pub open spec fn parse_from(s: Seq<char>, idx: int) -> Result<Seq<SizingToken>, GrammarErrorSpec>
    decreases s.len(),
{
    let i = find_first(s, ',');
    if 0 <= i < s.len() {
        let t = trim(s.take(i));
        if t.len() == 0 {
            parse_from(s.skip(i + 1), idx + 1)
        } else {
            match token_spec(t) {
                Some(tok) => match parse_from(s.skip(i + 1), idx + 1) {
                    Ok(rest) => Ok(seq![tok] + rest),
                    Err(e) => Err(e),
                },
                None => Err(GrammarErrorSpec { token: t, position: idx }),
            }
        }
    } else {
        let t = trim(s);
        if t.len() == 0 {
            Ok(Seq::empty())
        } else {
            match token_spec(t) {
                Some(tok) => Ok(seq![tok]),
                None => Err(GrammarErrorSpec { token: t, position: idx }),
            }
        }
    }
}

/// What `parse_sizes` returns, as a function of the input's characters.
pub open spec fn parse_sizes_spec(s: Seq<char>) -> Result<Seq<SizingToken>, GrammarErrorSpec> {
    parse_from(s, 0)
}

/// The comma-separated parts of `s` that are non-empty after trimming.
pub open spec fn tokens_of(s: Seq<char>) -> Seq<Seq<char>>
    decreases s.len(),
{
    let i = find_first(s, ',');
    if 0 <= i < s.len() {
        let t = trim(s.take(i));
        if t.len() == 0 {
            tokens_of(s.skip(i + 1))
        } else {
            seq![t] + tokens_of(s.skip(i + 1))
        }
    } else {
        let t = trim(s);
        if t.len() == 0 {
            Seq::empty()
        } else {
            seq![t]
        }
    }
}

/// Basic facts about `find_first`: it is a valid index or `s.len()`,
/// it points at `c` when in range, and nothing before it is `c`.
pub proof fn lemma_find_first_props(s: Seq<char>, c: char)
    ensures
        0 <= find_first(s, c) <= s.len(),
        find_first(s, c) < s.len() ==> s[find_first(s, c)] == c,
        forall|j: int| 0 <= j < find_first(s, c) ==> s[j] != c,
    decreases s.len(),
{
    if s.len() > 0 && s[0] != c {
        lemma_find_first_props(s.drop_first(), c);
        let d = s.drop_first();
        assert forall|j: int| 0 <= j < find_first(s, c) implies s[j] != c by {
            if j > 0 {
                assert(d[j - 1] == s[j]);
            }
        }
        if find_first(s, c) < s.len() {
            assert(d[find_first(d, c)] == s[find_first(s, c)]);
        }
    }
}

/// `find_first` finds exactly the position of the first occurrence.
pub proof fn lemma_find_first_at(s: Seq<char>, c: char, i: int)
    requires
        0 <= i < s.len(),
        s[i] == c,
        forall|j: int| 0 <= j < i ==> s[j] != c,
    ensures
        find_first(s, c) == i,
    decreases s.len(),
{
    if i > 0 {
        let d = s.drop_first();
        assert(d[i - 1] == s[i]);
        assert forall|j: int| 0 <= j < i - 1 implies d[j] != c by {
            assert(d[j] == s[j + 1]);
        }
        lemma_find_first_at(d, c, i - 1);
    }
}

/// When `c` does not occur in `s`, `find_first` is `s.len()`.
pub proof fn lemma_find_first_none(s: Seq<char>, c: char)
    requires
        forall|j: int| 0 <= j < s.len() ==> s[j] != c,
    ensures
        find_first(s, c) == s.len(),
    decreases s.len(),
{
    if s.len() > 0 {
        let d = s.drop_first();
        assert forall|j: int| 0 <= j < d.len() implies d[j] != c by {
            assert(d[j] == s[j + 1]);
        }
        lemma_find_first_none(d, c);
    }
}

/// Ten to the power `n`.
pub open spec fn pow10(n: nat) -> nat
    decreases n,
{
    if n == 0 {
        1
    } else {
        10 * pow10((n - 1) as nat)
    }
}

proof fn lemma_pow10_pos(n: nat)
    ensures
        pow10(n) >= 1,
    decreases n,
{
    if n > 0 {
        lemma_pow10_pos((n - 1) as nat);
    }
}

proof fn lemma_pow10_mono(a: nat, b: nat)
    requires
        a <= b,
    ensures
        pow10(a) <= pow10(b),
    decreases b,
{
    if a < b {
        lemma_pow10_mono(a, (b - 1) as nat);
        lemma_pow10_pos((b - 1) as nat);
    }
}

proof fn lemma_pow10_19()
    ensures
        pow10(19) == 10_000_000_000_000_000_000,
{
    reveal_with_fuel(pow10, 21);
}

/// Parses the numeral in `s[a..e]`: `Some` exactly when the text is a
/// well-shaped numeral of at most `MAX_NUMERAL_DIGITS` digits, and then
/// the denoted decimal.
fn parse_number(s: &str, a: usize, e: usize) -> (r: Option<Decimal>)
    requires
        a <= e <= s@.len(),
    ensures
        ({
            let u = s@.subrange(a as int, e as int);
            match r {
                Some(d) => num_ok(u) && d == num_value(u),
                None => !num_ok(u),
            }
        }),
{
    let ghost u = s@.subrange(a as int, e as int);
    let mut j = a;
    let mut m: u64 = 0;
    let mut ndig: usize = 0;
    let mut dot: Option<usize> = None;
    let ghost mut dseq: Seq<char> = Seq::empty();
    proof {
        assert(dseq =~= Seq::<char>::empty());
    }
    while j < e
        invariant
            a <= j <= e <= s@.len(),
            u == s@.subrange(a as int, e as int),
            ndig == dseq.len(),
            ndig <= MAX_NUMERAL_DIGITS,
            all_digits(dseq),
            m == digits_value(dseq),
            (m as int) < pow10(dseq.len() as nat),
            match dot {
                Some(p) => {
                    &&& a <= p < j
                    &&& s@[p as int] == '.'
                    &&& (forall|k: int| a <= k < j && k != p ==> is_digit(#[trigger] s@[k]))
                    &&& (forall|k: int| a <= k < p ==> s@[k] != '.')
                    &&& dseq == s@.subrange(a as int, p as int) + s@.subrange(
                        p as int + 1,
                        j as int,
                    )
                },
                None => {
                    &&& (forall|k: int| a <= k < j ==> is_digit(#[trigger] s@[k]))
                    &&& dseq == s@.subrange(a as int, j as int)
                },
            },
        decreases e - j,
    {
        let c = s.get_char(j);
        let code = c as u32;
        if 48 <= code && code <= 57 {
            if ndig == MAX_NUMERAL_DIGITS {
                proof {
                    lemma_find_first_props(u, '.');
                    let fd = find_first(u, '.');
                    if num_shape_ok(u) {
                        match dot {
                            Some(p) => {
                                assert(u[p - a] == '.');
                                assert forall|k: int| 0 <= k < p - a implies u[k] != '.' by {
                                    assert(u[k] == s@[a + k]);
                                }
                                lemma_find_first_at(u, '.', p - a);
                                assert(digit_part(u).len() == u.len() - 1);
                                assert(u.len() >= j - a + 1);
                                assert(j - a == ndig + 1);
                            },
                            None => {
                                if fd < u.len() {
                                    assert(u[fd] == '.');
                                    assert(fd >= j - a + 1) by {
                                        if fd < j - a {
                                            assert(u[fd] == s@[a + fd]);
                                            assert(is_digit(s@[a + fd]));
                                        }
                                        if fd == j - a {
                                            assert(u[fd] == s@[j as int]);
                                        }
                                    }
                                    assert(digit_part(u).len() == u.len() - 1);
                                } else {
                                    assert(digit_part(u) == u);
                                    assert(u.len() >= j - a + 1);
                                }
                            },
                        }
                        assert(digit_part(u).len() > MAX_NUMERAL_DIGITS);
                    }
                    assert(!num_ok(u));
                }
                return None;
            }
            let d = code - 48;
            proof {
                lemma_pow10_mono(dseq.len() as nat, (MAX_NUMERAL_DIGITS - 1) as nat);
                lemma_pow10_19();
                reveal_with_fuel(pow10, 2);
                assert(pow10((MAX_NUMERAL_DIGITS - 1) as nat) * 10 == pow10(
                    MAX_NUMERAL_DIGITS as nat,
                ));
                assert(m * 10 + d <= (pow10((MAX_NUMERAL_DIGITS - 1) as nat) - 1) * 10 + 9);
            }
            m = m * 10 + d as u64;
            ndig = ndig + 1;
            proof {
                let old_dseq = dseq;
                dseq = dseq.push(c);
                assert(dseq.drop_last() =~= old_dseq);
                assert(dseq.last() == c);
                assert(is_digit(c)) by {
                    assert(c == s@[j as int]);
                }
                assert(all_digits(dseq)) by {
                    assert forall|k: int| 0 <= k < dseq.len() implies is_digit(dseq[k]) by {
                        if k < old_dseq.len() {
                            assert(dseq[k] == old_dseq[k]);
                        }
                    }
                }
                assert(m == digits_value(dseq));
                match dot {
                    Some(p) => {
                        assert(dseq =~= s@.subrange(a as int, p as int) + s@.subrange(
                            p as int + 1,
                            j as int + 1,
                        ));
                    },
                    None => {
                        assert(dseq =~= s@.subrange(a as int, j as int + 1));
                    },
                }
            }
        } else if c == '.' {
            match dot {
                Some(p) => {
                    proof {
                        lemma_find_first_props(u, '.');
                        if num_shape_ok(u) {
                            assert(u[p - a] == '.');
                            assert forall|k: int| 0 <= k < p - a implies u[k] != '.' by {
                                assert(u[k] == s@[a + k]);
                            }
                            lemma_find_first_at(u, '.', p - a);
                            let fd = p - a;
                            assert(all_digits(u.skip(fd + 1)));
                            assert(u.skip(fd + 1)[j - p - 1] == u[j - a]);
                            assert(u[j - a] == s@[j as int]);
                            assert(is_digit('.'));
                        }
                        assert(!num_ok(u));
                    }
                    return None;
                },
                None => {
                    dot = Some(j);
                    proof {
                        assert(dseq =~= s@.subrange(a as int, j as int) + s@.subrange(
                            j as int + 1,
                            j as int + 1,
                        ));
                    }
                },
            }
        } else {
            proof {
                lemma_find_first_props(u, '.');
                let fd = find_first(u, '.');
                if num_shape_ok(u) {
                    assert(u[j - a] == s@[j as int]);
                    if fd < u.len() {
                        if j - a < fd {
                            assert(u.take(fd)[j - a] == u[j - a]);
                            assert(all_digits(u.take(fd)));
                            assert(is_digit(u.take(fd)[j - a]));
                        } else if j - a == fd {
                            assert(u[fd] == '.');
                        } else {
                            assert(u.skip(fd + 1)[j - a - fd - 1] == u[j - a]);
                            assert(all_digits(u.skip(fd + 1)));
                            assert(is_digit(u.skip(fd + 1)[j - a - fd - 1]));
                        }
                    } else {
                        assert(all_digits(u));
                        assert(is_digit(u[j - a]));
                    }
                }
                assert(!num_ok(u));
            }
            return None;
        }
        j = j + 1;
    }
    if ndig == 0 {
        proof {
            match dot {
                Some(p) => {
                    assert(s@.subrange(a as int, p as int).len() == 0);
                    assert(s@.subrange(p as int + 1, e as int).len() == 0);
                    assert(p == a && e == a + 1);
                    assert(u[0] == s@[p as int]);
                    lemma_find_first_at(u, '.', 0);
                    assert(!num_shape_ok(u));
                },
                None => {
                    assert(u.len() == 0);
                    lemma_find_first_props(u, '.');
                    assert(!num_shape_ok(u));
                },
            }
            assert(!num_ok(u));
        }
        return None;
    }
    match dot {
        Some(p) => {
            proof {
                assert(u[p - a] == s@[p as int]);
                assert forall|k: int| 0 <= k < p - a implies u[k] != '.' by {
                    assert(u[k] == s@[a + k]);
                }
                lemma_find_first_at(u, '.', p - a);
                let fd = p - a;
                assert(all_digits(u.take(fd))) by {
                    assert forall|k: int| 0 <= k < fd implies is_digit(u.take(fd)[k]) by {
                        assert(u.take(fd)[k] == s@[a + k]);
                    }
                }
                assert(all_digits(u.skip(fd + 1))) by {
                    let v = u.skip(fd + 1);
                    assert forall|k: int| 0 <= k < v.len() implies is_digit(#[trigger] v[k]) by {
                        assert(v[k] == s@[p + 1 + k]);
                    }
                }
                assert(dseq =~= s@.subrange(a as int, p as int) + s@.subrange(
                    p as int + 1,
                    e as int,
                ));
                assert(digit_part(u) =~= dseq);
                assert(u.len() >= 2);
                assert(num_shape_ok(u));
                assert(num_ok(u));
                assert(u.skip(fd + 1).len() == e - p - 1);
                assert(e - 1 - p <= dseq.len());
            }
            let scale = (e - 1 - p) as u32;
            Some(Decimal { negative: false, mantissa: m, scale })
        },
        None => {
            proof {
                assert forall|k: int| 0 <= k < u.len() implies u[k] != '.' by {
                    assert(u[k] == s@[a + k]);
                    assert(is_digit(s@[a + k]));
                }
                lemma_find_first_none(u, '.');
                assert(dseq =~= u);
                assert(all_digits(u));
                assert(num_shape_ok(u));
                assert(digit_part(u) == u);
                assert(num_ok(u));
            }
            Some(Decimal { negative: false, mantissa: m, scale: 0 })
        },
    }
}

/// Trims and classifies the part `s[start..end]`: `Ok(None)` for a part
/// that is empty after trimming, `Ok(Some(tok))` for a recognized token,
/// and the trimmed token text when the grammar rejects it.
fn parse_part(s: &str, start: usize, end: usize) -> (r: Result<Option<SizingToken>, String>)
    requires
        start <= end <= s@.len(),
    ensures
        ({
            let t = trim(s@.subrange(start as int, end as int));
            match r {
                Ok(opt) => match opt {
                    None => t.len() == 0,
                    Some(tok) => t.len() > 0 && token_spec(t) == Some(tok),
                },
                Err(txt) => t.len() > 0 && token_spec(t) is None && txt@ == t,
            }
        }),
{
    let ghost part = s@.subrange(start as int, end as int);
    let mut a = start;
    loop
        invariant
            start <= a <= end <= s@.len(),
            part == s@.subrange(start as int, end as int),
            trim_start(part) == trim_start(s@.subrange(a as int, end as int)),
        ensures
            start <= a <= end <= s@.len(),
            trim_start(part) == s@.subrange(a as int, end as int),
        decreases end - a,
    {
        if a == end {
            proof {
                assert(s@.subrange(a as int, end as int) =~= Seq::<char>::empty());
            }
            break;
        }
        let c = s.get_char(a);
        if !(c == ' ' || c == '\t' || c == '\r' || c == '\n') {
            proof {
                assert(s@.subrange(a as int, end as int)[0] == s@[a as int]);
            }
            break;
        }
        proof {
            assert(s@.subrange(a as int, end as int)[0] == s@[a as int]);
            assert(s@.subrange(a as int, end as int).drop_first() =~= s@.subrange(
                a as int + 1,
                end as int,
            ));
        }
        a = a + 1;
    }
    let mut b = end;
    loop
        invariant
            start <= a <= b <= end <= s@.len(),
            trim_start(part) == s@.subrange(a as int, end as int),
            trim_end(s@.subrange(a as int, end as int)) == trim_end(
                s@.subrange(a as int, b as int),
            ),
        ensures
            a <= b <= end,
            trim(part) == s@.subrange(a as int, b as int),
        decreases b - a,
    {
        if b == a {
            proof {
                assert(s@.subrange(a as int, b as int) =~= Seq::<char>::empty());
            }
            break;
        }
        let c = s.get_char(b - 1);
        if !(c == ' ' || c == '\t' || c == '\r' || c == '\n') {
            proof {
                assert(s@.subrange(a as int, b as int).last() == s@[b as int - 1]);
            }
            break;
        }
        proof {
            assert(s@.subrange(a as int, b as int).last() == s@[b as int - 1]);
            assert(s@.subrange(a as int, b as int).drop_last() =~= s@.subrange(
                a as int,
                b as int - 1,
            ));
        }
        b = b - 1;
    }
    let ghost t = trim(part);
    if a == b {
        return Ok(None);
    }
    if b - a == 1 {
        let c = s.get_char(a);
        proof {
            assert(t[0] == s@[a as int]);
        }
        if c == 'e' {
            proof {
                assert(t =~= seq!['e']);
            }
            return Ok(Some(SizingToken::EffectiveStack));
        }
        if c == 'a' {
            proof {
                assert(t =~= seq!['a']);
            }
            return Ok(Some(SizingToken::AllIn));
        }
        proof {
            assert(t != seq!['e']) by {
                if t == seq!['e'] {
                    assert(t[0] == 'e');
                }
            }
            assert(t != seq!['a']) by {
                if t == seq!['a'] {
                    assert(t[0] == 'a');
                }
            }
            assert(token_spec(t) is None);
        }
        let txt = s.substring_char(a, b).to_owned();
        return Err(txt);
    }
    proof {
        assert(t != seq!['e']) by {
            if t == seq!['e'] {
                assert(t.len() == 1);
            }
        }
        assert(t != seq!['a']) by {
            if t == seq!['a'] {
                assert(t.len() == 1);
            }
        }
        assert(t.last() == s@[b as int - 1]);
        assert(t.drop_last() =~= s@.subrange(a as int, b as int - 1));
    }
    let last = s.get_char(b - 1);
    if last == '%' {
        match parse_number(s, a, b - 1) {
            Some(d) => {
                return Ok(Some(SizingToken::PotPercent(d)));
            },
            None => {
                let txt = s.substring_char(a, b).to_owned();
                return Err(txt);
            },
        }
    }
    if last == 'x' {
        match parse_number(s, a, b - 1) {
            Some(d) => {
                return Ok(Some(SizingToken::Multiplier(d)));
            },
            None => {
                let txt = s.substring_char(a, b).to_owned();
                return Err(txt);
            },
        }
    }
    let txt = s.substring_char(a, b).to_owned();
    Err(txt)
}

/// Unfolds `parse_from` and `tokens_of` across the comma that ends the
/// part `s[start..i]`.
proof fn lemma_parse_step(s: Seq<char>, start: int, i: int, idx: int)
    requires
        0 <= start <= i < s.len(),
        s[i] == ',',
        forall|j: int| start <= j < i ==> s[j] != ',',
    ensures
        ({
            let t = trim(s.subrange(start, i));
            let tail = parse_from(s.skip(i + 1), idx + 1);
            parse_from(s.skip(start), idx) == (if t.len() == 0 {
                tail
            } else {
                match token_spec(t) {
                    Some(tok) => match tail {
                        Ok(rest) => Ok::<Seq<SizingToken>, GrammarErrorSpec>(seq![tok] + rest),
                        Err(e) => Err(e),
                    },
                    None => Err(GrammarErrorSpec { token: t, position: idx }),
                }
            })
        }),
        ({
            let t = trim(s.subrange(start, i));
            tokens_of(s.skip(start)) == (if t.len() == 0 {
                tokens_of(s.skip(i + 1))
            } else {
                seq![t] + tokens_of(s.skip(i + 1))
            })
        }),
{
    let ss = s.skip(start);
    assert forall|j: int| 0 <= j < i - start implies ss[j] != ',' by {
        assert(ss[j] == s[start + j]);
    }
    assert(ss[i - start] == s[i]);
    lemma_find_first_at(ss, ',', i - start);
    assert(ss.take(i - start) =~= s.subrange(start, i));
    assert(ss.skip(i - start + 1) =~= s.skip(i + 1));
}

/// Unfolds `parse_from` and `tokens_of` on a comma-free final part.
proof fn lemma_parse_last(s: Seq<char>, start: int, idx: int)
    requires
        0 <= start <= s.len(),
        forall|j: int| start <= j < s.len() ==> s[j] != ',',
    ensures
        ({
            let t = trim(s.subrange(start, s.len() as int));
            parse_from(s.skip(start), idx) == (if t.len() == 0 {
                Ok::<Seq<SizingToken>, GrammarErrorSpec>(Seq::empty())
            } else {
                match token_spec(t) {
                    Some(tok) => Ok::<Seq<SizingToken>, GrammarErrorSpec>(seq![tok]),
                    None => Err(GrammarErrorSpec { token: t, position: idx }),
                }
            })
        }),
        ({
            let t = trim(s.subrange(start, s.len() as int));
            tokens_of(s.skip(start)) == (if t.len() == 0 {
                Seq::<Seq<char>>::empty()
            } else {
                seq![t]
            })
        }),
{
    let ss = s.skip(start);
    assert forall|j: int| 0 <= j < ss.len() implies ss[j] != ',' by {
        assert(ss[j] == s[start + j]);
    }
    lemma_find_first_none(ss, ',');
    assert(ss =~= s.subrange(start, s.len() as int));
}

/// Parses a sizing specification: the sequence of recognized tokens of
/// the comma-separated, trimmed, non-empty parts of `s`, or the grammar
/// error naming the first unrecognized part and its position.
pub fn parse_sizes(s: &str) -> (r: Result<Vec<SizingToken>, GrammarError>)
    ensures
        match r {
            Ok(v) => parse_sizes_spec(s@) == Ok::<Seq<SizingToken>, GrammarErrorSpec>(v@),
            Err(e) => parse_sizes_spec(s@) == Err::<Seq<SizingToken>, GrammarErrorSpec>(e@),
        },
{
    let n = s.unicode_len();
    let mut out: Vec<SizingToken> = Vec::new();
    let mut start: usize = 0;
    let mut pos: usize = 0;
    let mut i: usize = 0;
    proof {
        assert(s@.skip(0) =~= s@);
    }
    loop
        invariant
            n == s@.len(),
            pos <= start <= i <= n,
            forall|j: int| start <= j < i ==> s@[j] != ',',
            ({
                let tail = parse_from(s@.skip(start as int), pos as int);
                match tail {
                    Ok(rest) => parse_sizes_spec(s@) == Ok::<
                        Seq<SizingToken>,
                        GrammarErrorSpec,
                    >(out@ + rest),
                    Err(e) => parse_sizes_spec(s@) == Err::<Seq<SizingToken>, GrammarErrorSpec>(e),
                }
            }),
        decreases n - i,
    {
        if i == n {
            proof {
                lemma_parse_last(s@, start as int, pos as int);
            }
            match parse_part(s, start, n) {
                Ok(opt) => {
                    match opt {
                        None => {
                            proof {
                                assert(out@ + Seq::<SizingToken>::empty() =~= out@);
                            }
                            return Ok(out);
                        },
                        Some(tok) => {
                            let ghost old_out = out@;
                            out.push(tok);
                            proof {
                                assert(old_out + seq![tok] =~= out@);
                            }
                            return Ok(out);
                        },
                    }
                },
                Err(txt) => {
                    return Err(GrammarError { token: txt, position: pos });
                },
            }
        }
        let c = s.get_char(i);
        if c == ',' {
            proof {
                lemma_parse_step(s@, start as int, i as int, pos as int);
            }
            match parse_part(s, start, i) {
                Ok(opt) => {
                    match opt {
                        None => {},
                        Some(tok) => {
                            let ghost old_out = out@;
                            let ghost tail = parse_from(s@.skip(i as int + 1), pos as int + 1);
                            out.push(tok);
                            proof {
                                if tail is Ok {
                                    let rest = tail->Ok_0;
                                    assert(old_out + (seq![tok] + rest) =~= out@ + rest);
                                }
                            }
                        },
                    }
                },
                Err(txt) => {
                    return Err(GrammarError { token: txt, position: pos });
                },
            }
            start = i + 1;
            pos = pos + 1;
        }
        i = i + 1;
    }
}

/// Token-count law: a successfully parsed sizing specification yields
/// exactly one token per comma-separated part that is non-empty after
/// trimming, and the empty specification yields the empty sequence.
pub proof fn lemma_parse_sizes_count(s: Seq<char>)
    ensures
        parse_sizes_spec(s) matches Ok(v) ==> v.len() == tokens_of(s).len(),
        s.len() == 0 ==> parse_sizes_spec(s) == Ok::<Seq<SizingToken>, GrammarErrorSpec>(
            Seq::<SizingToken>::empty(),
        ),
{
    lemma_count_from(s, 0);
}

proof fn lemma_count_from(s: Seq<char>, idx: int)
    ensures
        parse_from(s, idx) matches Ok(v) ==> v.len() == tokens_of(s).len(),
    decreases s.len(),
{
    lemma_find_first_props(s, ',');
    let i = find_first(s, ',');
    if 0 <= i < s.len() {
        lemma_count_from(s.skip(i + 1), idx + 1);
    }
}

} // verus!
