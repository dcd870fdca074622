//! Decimal numbers, stored exactly, and the literals that denote them.

use vstd::prelude::*;
use vstd::string::*;
use crate::text::{
    chars_of,
    dec_digits,
    digit_char,
    push_char,
    push_digits,
    push_range,
    push_repeated,
    repeat_char,
};

verus! {

/// A decimal number `(-1)^negative * digits * 10^exponent`, stored exactly.
#[derive(Clone, Copy, Debug, PartialEq, Eq, Structural)]
pub struct Decimal {
    pub negative: bool,
    pub digits: u64,
    pub exponent: i16,
}

/// The digits with the point where the exponent puts it: zeros behind the
/// digits for an exponent above zero, the point among the digits for one
/// below, and `0.` with zeros before the digits where the point lies before
/// them all.
pub open spec fn body_text(digits: Seq<char>, exponent: i16) -> Seq<char> {
    if exponent >= 0 {
        digits + repeat_char('0', exponent as nat)
    } else if digits.len() > -exponent {
        digits.subrange(0, digits.len() + exponent) + seq!['.'] + digits.subrange(
            digits.len() + exponent,
            digits.len() as int,
        )
    } else {
        seq!['0', '.'] + repeat_char('0', (-exponent - digits.len()) as nat) + digits
    }
}

/// The decimal literal that denotes `d`: an optional minus sign, the whole
/// part, and a fractional part only where the exponent is negative.
pub open spec fn decimal_text(d: Decimal) -> Seq<char> {
    let body = body_text(dec_digits(d.digits as nat), d.exponent);
    if d.negative {
        seq!['-'] + body
    } else {
        body
    }
}

/// The whole number `n` as a decimal.
pub open spec fn whole(n: u64) -> Decimal {
    Decimal { negative: false, digits: n, exponent: 0 }
}

/// The digit that a character stands for, if it stands for one.
pub open spec fn digit_value(c: char) -> Option<nat> {
    if c == '0' {
        Some(0)
    } else if c == '1' {
        Some(1)
    } else if c == '2' {
        Some(2)
    } else if c == '3' {
        Some(3)
    } else if c == '4' {
        Some(4)
    } else if c == '5' {
        Some(5)
    } else if c == '6' {
        Some(6)
    } else if c == '7' {
        Some(7)
    } else if c == '8' {
        Some(8)
    } else if c == '9' {
        Some(9)
    } else {
        None
    }
}

/// Whether the text is one or more digits.
pub open spec fn is_digits(s: Seq<char>) -> bool {
    s.len() > 0 && forall|i: int| 0 <= i < s.len() ==> digit_value(#[trigger] s[i]) is Some
}

/// The number that a run of digits denotes.
pub open spec fn digits_value(s: Seq<char>) -> nat
    decreases s.len(),
{
    if s.len() == 0 {
        0
    } else {
        digits_value(s.drop_last()) * 10 + match digit_value(s.last()) {
            Some(d) => d,
            None => 0,
        }
    }
}

/// The digits without the zeros at their end.
pub open spec fn significant(s: Seq<char>) -> Seq<char>
    decreases s.len(),
{
    if s.len() > 0 && s.last() == '0' {
        significant(s.drop_last())
    } else {
        s
    }
}

/// Where the first point stands in the text, or the length of the text where
/// it holds none.
pub open spec fn point_place(s: Seq<char>, from: int) -> int
    decreases s.len() - from,
{
    if from < 0 || from >= s.len() {
        s.len() as int
    } else if s[from] == '.' {
        from
    } else {
        point_place(s, from + 1)
    }
}

/// The parts of a decimal literal: whether it starts with a minus sign, the
/// digits before the point and the digits behind it. A literal is an optional
/// minus sign and one or more digits, which a point and one or more digits
/// may follow; no other text has parts.
pub open spec fn literal_parts(s: Seq<char>) -> Option<(bool, Seq<char>, Seq<char>)> {
    let negative = s.len() > 0 && s[0] == '-';
    let start: int = if negative {
        1
    } else {
        0
    };
    let point = point_place(s, start);
    let whole = s.subrange(start, point);
    if !is_digits(whole) {
        None
    } else if point == s.len() {
        Some((negative, whole, Seq::empty()))
    } else if is_digits(s.subrange(point + 1, s.len() as int)) {
        Some((negative, whole, s.subrange(point + 1, s.len() as int)))
    } else {
        None
    }
}

/// The number that a decimal literal denotes, with the zeros at the end of
/// its digits counted in the exponent. There is none where the text is no
/// literal, or where the digits that are left or the exponent do not fit.
pub open spec fn parsed(s: Seq<char>) -> Option<Decimal> {
    match literal_parts(s) {
        None => None,
        Some((negative, whole, fraction)) => {
            let all = whole + fraction;
            let kept = significant(all);
            let exponent = all.len() - kept.len() - fraction.len();
            if digits_value(kept) == 0 {
                Some(Decimal { negative, digits: 0, exponent: 0 })
            } else if digits_value(kept) > u64::MAX || exponent < i16::MIN || exponent > i16::MAX {
                None
            } else {
                Some(
                    Decimal { negative, digits: digits_value(kept) as u64, exponent: exponent as i16 },
                )
            }
        },
    }
}

/// The number of a run of digits is at least the number of any of its starts.
pub proof fn lemma_digits_value_grows(s: Seq<char>, k: int)
    requires
        0 <= k <= s.len(),
    ensures
        digits_value(s.take(k)) <= digits_value(s),
    decreases s.len(),
{
    if k == s.len() {
        assert(s.take(k) =~= s);
    } else {
        lemma_digits_value_grows(s.drop_last(), k);
        assert(s.drop_last().take(k) =~= s.take(k));
    }
}

/// The digits of a number are digits, at least one, and denote the number.
pub proof fn lemma_dec_digits(n: nat)
    ensures
        dec_digits(n).len() > 0,
        forall|i: int| 0 <= i < dec_digits(n).len() ==> digit_value(#[trigger] dec_digits(n)[i]) is Some,
        digits_value(dec_digits(n)) == n,
    decreases n,
{
    let s = dec_digits(n);
    if n >= 10 {
        lemma_dec_digits(n / 10);
        assert(s.drop_last() =~= dec_digits(n / 10));
        assert(s.last() == digit_char((n % 10) as int));
        assert forall|i: int| 0 <= i < s.len() implies digit_value(#[trigger] s[i]) is Some by {
            if i < s.len() - 1 {
                assert(s[i] == dec_digits(n / 10)[i]);
            }
        }
    } else {
        assert(s.drop_last() =~= Seq::<char>::empty());
        assert(digits_value(s.drop_last()) == 0);
        assert(s.last() == digit_char(n as int));
    }
}

/// Two numbers with the same digits are the same number.
pub proof fn lemma_dec_digits_injective(a: nat, b: nat)
    requires
        dec_digits(a) == dec_digits(b),
    ensures
        a == b,
{
    lemma_dec_digits(a);
    lemma_dec_digits(b);
}

/// Where a text holds digits only from `from` on, it holds no point there.
pub proof fn lemma_no_point(s: Seq<char>, from: int)
    requires
        0 <= from <= s.len(),
        forall|i: int| from <= i < s.len() ==> digit_value(#[trigger] s[i]) is Some,
    ensures
        point_place(s, from) == s.len(),
    decreases s.len() - from,
{
    if from < s.len() {
        assert(digit_value(s[from]) is Some);
        lemma_no_point(s, from + 1);
    }
}

/// Where a text holds digits from `from` up to a point at `at`, that point is
/// the first.
pub proof fn lemma_point_at(s: Seq<char>, from: int, at: int)
    requires
        0 <= from <= at < s.len(),
        s[at] == '.',
        forall|i: int| from <= i < at ==> digit_value(#[trigger] s[i]) is Some,
    ensures
        point_place(s, from) == at,
    decreases at - from,
{
    if from < at {
        assert(digit_value(s[from]) is Some);
        lemma_point_at(s, from + 1, at);
    }
}

/// Zeros behind digits do not count among the digits that are kept.
pub proof fn lemma_significant_zeros(s: Seq<char>, n: nat)
    ensures
        significant(s + repeat_char('0', n)) == significant(s),
    decreases n,
{
    let all = s + repeat_char('0', n);
    if n == 0 {
        assert(all =~= s);
    } else {
        assert(all.last() == '0');
        assert(all.drop_last() =~= s + repeat_char('0', (n - 1) as nat));
        lemma_significant_zeros(s, (n - 1) as nat);
    }
}

/// Zeros before digits do not change the number.
pub proof fn lemma_leading_zeros(n: nat, s: Seq<char>)
    ensures
        digits_value(repeat_char('0', n) + s) == digits_value(s),
    decreases s.len(), n,
{
    let all = repeat_char('0', n) + s;
    if s.len() > 0 {
        assert(all.drop_last() =~= repeat_char('0', n) + s.drop_last());
        assert(all.last() == s.last());
        lemma_leading_zeros(n, s.drop_last());
    } else if n > 0 {
        assert(all =~= repeat_char('0', n));
        assert(all.drop_last() =~= repeat_char('0', (n - 1) as nat) + Seq::<char>::empty());
        assert(all.last() == '0');
        lemma_leading_zeros((n - 1) as nat, Seq::empty());
    } else {
        assert(all =~= Seq::<char>::empty());
    }
}

/// Whether the number has no zero at the end of its digits that the exponent
/// could count instead; zero itself is written with exponent zero.
pub open spec fn canonical(d: Decimal) -> bool {
    if d.digits == 0 {
        d.exponent == 0
    } else {
        d.digits % 10 != 0
    }
}

/// What a text is read as, once its parts are known.
pub proof fn lemma_parsed_from_parts(
    text: Seq<char>,
    negative: bool,
    whole: Seq<char>,
    fraction: Seq<char>,
    d: Decimal,
)
    requires
        literal_parts(text) == Some((negative, whole, fraction)),
        d.negative == negative,
        digits_value(significant(whole + fraction)) == d.digits,
        d.digits == 0 ==> d.exponent == 0,
        d.digits != 0 ==> d.exponent == (whole + fraction).len() - significant(
            whole + fraction,
        ).len() - fraction.len(),
    ensures
        parsed(text) == Some(d),
{
}

/// The last of the digits of a number is the digit of its remainder by ten.
pub proof fn lemma_last_digit(n: nat)
    ensures
        dec_digits(n).len() > 0,
        dec_digits(n).last() == digit_char((n % 10) as int),
        n % 10 != 0 ==> significant(dec_digits(n)) == dec_digits(n),
        n == 0 ==> significant(dec_digits(n)) == Seq::<char>::empty(),
{
    if n >= 10 {
        assert(dec_digits(n) == dec_digits(n / 10).push(digit_char((n % 10) as int)));
    }
    if n == 0 {
        reveal_with_fuel(significant, 3);
        assert(dec_digits(n) =~= seq!['0']);
        assert(dec_digits(n).drop_last() =~= Seq::<char>::empty());
    }
}

/// The sign of a literal is its first character, and only that.
pub proof fn lemma_sign(negative: bool, body: Seq<char>)
    requires
        body.len() > 0,
        digit_value(body[0]) is Some,
    ensures
        ({
            let text = if negative {
                seq!['-'] + body
            } else {
                body
            };
            let start: int = if negative {
                1
            } else {
                0
            };
            &&& (text.len() > 0 && text[0] == '-') == negative
            &&& text.len() == start + body.len()
            &&& forall|i: int| 0 <= i < body.len() ==> text[start + i] == #[trigger] body[i]
        }),
{
}

/// The literal of a canonical number without fraction is read back.
proof fn lemma_reads_back_whole(d: Decimal)
    requires
        canonical(d),
        d.exponent >= 0,
    ensures
        parsed(decimal_text(d)) == Some(d),
{
    let n = d.digits as nat;
    let digits = dec_digits(n);
    let zeros = repeat_char('0', d.exponent as nat);
    let body = digits + zeros;
    let text = decimal_text(d);
    let start: int = if d.negative {
        1
    } else {
        0
    };
    lemma_dec_digits(n);
    lemma_last_digit(n);
    assert(body[0] == digits[0]);
    lemma_sign(d.negative, body);
    assert forall|i: int| start <= i < text.len() implies digit_value(#[trigger] text[i]) is Some by {
        let j = i - start;
        assert(text[start + j] == body[j]);
        if j < digits.len() {
            assert(body[j] == digits[j]);
        } else {
            assert(body[j] == zeros[j - digits.len()]);
        }
    }
    lemma_no_point(text, start);
    let whole = text.subrange(start, text.len() as int);
    assert(whole =~= body) by {
        assert forall|i: int| 0 <= i < body.len() implies whole[i] == body[i] by {
            assert(text[start + i] == body[i]);
        }
    }
    assert(is_digits(whole)) by {
        assert forall|i: int| 0 <= i < whole.len() implies digit_value(#[trigger] whole[i]) is Some by {
            assert(whole[i] == text[start + i]);
        }
    }
    assert(whole + Seq::<char>::empty() =~= body);
    lemma_significant_zeros(digits, d.exponent as nat);
    if n == 0 {
        assert(digits_value(Seq::<char>::empty()) == 0);
    }
    lemma_parsed_from_parts(text, d.negative, whole, Seq::empty(), d);
}

/// The literal of a canonical number with digits before and behind the point
/// is read back.
proof fn lemma_reads_back_split(d: Decimal)
    requires
        canonical(d),
        d.exponent < 0,
        dec_digits(d.digits as nat).len() > -d.exponent,
    ensures
        parsed(decimal_text(d)) == Some(d),
{
    let n = d.digits as nat;
    let digits = dec_digits(n);
    let len = digits.len() as int;
    let k = -(d.exponent as int);
    let before = digits.subrange(0, len - k);
    let behind = digits.subrange(len - k, len);
    let body = before + seq!['.'] + behind;
    let text = decimal_text(d);
    let start: int = if d.negative {
        1
    } else {
        0
    };
    lemma_dec_digits(n);
    lemma_last_digit(n);
    assert(body[0] == digits[0]);
    lemma_sign(d.negative, body);
    let at = start + len - k;
    assert(text[at] == '.') by {
        assert(text[start + (len - k)] == body[len - k]);
    }
    assert forall|i: int| start <= i < at implies digit_value(#[trigger] text[i]) is Some by {
        assert(text[start + (i - start)] == body[i - start]);
        assert(body[i - start] == digits[i - start]);
    }
    lemma_point_at(text, start, at);
    let whole = text.subrange(start, at);
    let fraction = text.subrange(at + 1, text.len() as int);
    assert(whole =~= before) by {
        assert forall|i: int| 0 <= i < before.len() implies whole[i] == before[i] by {
            assert(text[start + i] == body[i]);
        }
    }
    assert(fraction =~= behind) by {
        assert forall|i: int| 0 <= i < behind.len() implies fraction[i] == behind[i] by {
            assert(text[start + (len - k + 1 + i)] == body[len - k + 1 + i]);
        }
    }
    assert(is_digits(whole)) by {
        assert forall|i: int| 0 <= i < whole.len() implies digit_value(#[trigger] whole[i]) is Some by {
            assert(whole[i] == digits[i]);
        }
    }
    assert(is_digits(fraction)) by {
        assert forall|i: int| 0 <= i < fraction.len() implies digit_value(
            #[trigger] fraction[i],
        ) is Some by {
            assert(fraction[i] == digits[len - k + i]);
        }
    }
    assert(whole + fraction =~= digits);
    lemma_parsed_from_parts(text, d.negative, whole, fraction, d);
}

/// The literal of a canonical number below one is read back.
proof fn lemma_reads_back_small(d: Decimal)
    requires
        canonical(d),
        d.exponent < 0,
        dec_digits(d.digits as nat).len() <= -d.exponent,
    ensures
        parsed(decimal_text(d)) == Some(d),
{
    let n = d.digits as nat;
    let digits = dec_digits(n);
    let len = digits.len() as int;
    let k = -(d.exponent as int);
    let zeros = repeat_char('0', (k - len) as nat);
    let body = seq!['0', '.'] + zeros + digits;
    let text = decimal_text(d);
    let start: int = if d.negative {
        1
    } else {
        0
    };
    lemma_dec_digits(n);
    lemma_last_digit(n);
    assert(body[0] == '0');
    lemma_sign(d.negative, body);
    let at = start + 1;
    assert(text[start] == '0') by {
        assert(text[start + 0] == body[0]);
    }
    assert(text[at] == '.') by {
        assert(text[start + 1] == body[1]);
    }
    lemma_point_at(text, start, at);
    let whole = text.subrange(start, at);
    let fraction = text.subrange(at + 1, text.len() as int);
    assert(whole =~= seq!['0']);
    assert(fraction =~= zeros + digits) by {
        assert forall|i: int| 0 <= i < (zeros + digits).len() implies fraction[i] == (zeros
            + digits)[i] by {
            assert(text[start + (2 + i)] == body[2 + i]);
        }
    }
    assert(is_digits(whole));
    assert(is_digits(fraction)) by {
        assert forall|i: int| 0 <= i < fraction.len() implies digit_value(
            #[trigger] fraction[i],
        ) is Some by {
            if i < k - len {
                assert(fraction[i] == zeros[i]);
            } else {
                assert(fraction[i] == digits[i - (k - len)]);
            }
        }
    }
    let all = whole + fraction;
    assert(all =~= repeat_char('0', (k - len + 1) as nat) + digits);
    assert(all.last() == digits.last());
    assert(significant(all) == all);
    lemma_leading_zeros((k - len + 1) as nat, digits);
    lemma_parsed_from_parts(text, d.negative, whole, fraction, d);
}

/// The literal of a canonical number is read back as that number.
pub proof fn law_literal_reads_back(d: Decimal)
    requires
        canonical(d),
    ensures
        parsed(decimal_text(d)) == Some(d),
{
    if d.exponent >= 0 {
        lemma_reads_back_whole(d);
    } else if dec_digits(d.digits as nat).len() > -d.exponent {
        lemma_reads_back_split(d);
    } else {
        lemma_reads_back_small(d);
    }
}

/// The digit that a character stands for.
fn digit_of(c: char) -> (r: Option<u8>)
    ensures
        r is Some == digit_value(c) is Some,
        r matches Some(d) ==> d == digit_value(c).unwrap() && d < 10,
{
    if c == '0' {
        Some(0)
    } else if c == '1' {
        Some(1)
    } else if c == '2' {
        Some(2)
    } else if c == '3' {
        Some(3)
    } else if c == '4' {
        Some(4)
    } else if c == '5' {
        Some(5)
    } else if c == '6' {
        Some(6)
    } else if c == '7' {
        Some(7)
    } else if c == '8' {
        Some(8)
    } else if c == '9' {
        Some(9)
    } else {
        None
    }
}

/// Whether the characters from `from` up to `to` are one or more digits.
fn digits_between(chars: &Vec<char>, from: usize, to: usize) -> (r: bool)
    requires
        from <= to <= chars@.len(),
    ensures
        r == is_digits(chars@.subrange(from as int, to as int)),
{
    if from == to {
        return false;
    }
    let mut i: usize = from;
    while i < to
        invariant
            from <= i <= to <= chars@.len(),
            forall|k: int| from <= k < i ==> digit_value(#[trigger] chars@[k]) is Some,
        decreases to - i,
    {
        if digit_of(chars[i]).is_none() {
            assert(chars@.subrange(from as int, to as int)[i - from] == chars@[i as int]);
            return false;
        }
        i = i + 1;
    }
    assert forall|k: int| 0 <= k < to - from implies digit_value(
        #[trigger] chars@.subrange(from as int, to as int)[k],
    ) is Some by {
        assert(chars@.subrange(from as int, to as int)[k] == chars@[from + k]);
    }
    true
}

impl Decimal {
    /// The number `(-1)^negative * digits * 10^exponent`.
    pub fn new(negative: bool, digits: u64, exponent: i16) -> (d: Decimal)
        ensures
            d == (Decimal { negative, digits, exponent }),
    {
        Decimal { negative, digits, exponent }
    }

    /// The whole number `n`.
    pub fn whole(n: u64) -> (d: Decimal)
        ensures
            d == whole(n),
    {
        Decimal { negative: false, digits: n, exponent: 0 }
    }

    /// The number that the decimal literal `text` denotes.
    pub fn parse(text: &str) -> (r: Option<Decimal>)
        ensures
            r == parsed(text@),
    {
        let chars = chars_of(text);
        let n = chars.len();
        let negative = n > 0 && chars[0] == '-';
        let start: usize = if negative { 1 } else { 0 };
        let mut point: usize = start;
        while point < n && chars[point] != '.'
            invariant
                start <= point <= n,
                n == chars@.len(),
                point_place(chars@, start as int) == point_place(chars@, point as int),
            decreases n - point,
        {
            point = point + 1;
        }
        if !digits_between(&chars, start, point) {
            return None;
        }
        let mut all: Vec<char> = Vec::new();
        let mut i: usize = start;
        while i < point
            invariant
                start <= i <= point <= n,
                n == chars@.len(),
                all@ == chars@.subrange(start as int, i as int),
            decreases point - i,
        {
            all.push(chars[i]);
            i = i + 1;
            assert(all@ =~= chars@.subrange(start as int, i as int));
        }
        let ghost whole = chars@.subrange(start as int, point as int);
        let ghost fraction = if point == n {
            Seq::<char>::empty()
        } else {
            chars@.subrange(point + 1, n as int)
        };
        let mut behind: usize = 0;
        if point < n {
            if !digits_between(&chars, point + 1, n) {
                return None;
            }
            let mut j: usize = point + 1;
            while j < n
                invariant
                    point + 1 <= j <= n,
                    n == chars@.len(),
                    all@ == whole + chars@.subrange(point + 1, j as int),
                decreases n - j,
            {
                all.push(chars[j]);
                j = j + 1;
                assert(all@ =~= whole + chars@.subrange(point + 1, j as int));
            }
            behind = n - (point + 1);
        }
        assert(all@ =~= whole + fraction);
        assert(literal_parts(text@) == Some((negative, whole, fraction)));
        assert(behind == fraction.len());
        let mut kept: usize = all.len();
        assert(all@.take(kept as int) =~= all@);
        while kept > 0 && all[kept - 1] == '0'
            invariant
                kept <= all@.len(),
                significant(all@) == significant(all@.take(kept as int)),
            decreases kept,
        {
            assert(all@.take(kept as int).drop_last() =~= all@.take(kept - 1));
            kept = kept - 1;
        }
        assert(significant(all@) == all@.take(kept as int));
        let ghost target = all@.take(kept as int);
        let mut value: u64 = 0;
        let mut k: usize = 0;
        assert(target.take(0) =~= Seq::<char>::empty());
        while k < kept
            invariant
                k <= kept <= all@.len(),
                target == all@.take(kept as int),
                significant(all@) == target,
                literal_parts(text@) == Some((negative, whole, fraction)),
                whole.len() + fraction.len() == all@.len(),
                all@ == whole + fraction,
                is_digits(whole),
                fraction.len() > 0 ==> is_digits(fraction),
                value == digits_value(target.take(k as int)),
            decreases kept - k,
        {
            let c = all[k];
            assert(digit_value(c) is Some) by {
                if k < whole.len() {
                    assert(all@[k as int] == whole[k as int]);
                } else {
                    assert(all@[k as int] == fraction[k - whole.len()]);
                }
            }
            let d: u8 = match digit_of(c) {
                Some(d) => d,
                None => 0,
            };
            proof {
                assert(target.take(k + 1).drop_last() =~= target.take(k as int));
                assert(target.take(k + 1).last() == c);
                lemma_digits_value_grows(target, k + 1);
            }
            if value > 1844674407370955161 || (value == 1844674407370955161 && d > 5) {
                assert(digits_value(target.take(k + 1)) > u64::MAX);
                return None;
            }
            value = value * 10 + d as u64;
            k = k + 1;
        }
        assert(target.take(kept as int) =~= target);
        if value == 0 {
            return Some(Decimal { negative, digits: 0, exponent: 0 });
        }
        let dropped: usize = all.len() - kept;
        if dropped >= behind {
            let up: usize = dropped - behind;
            if up > 32767 {
                return None;
            }
            Some(Decimal { negative, digits: value, exponent: up as i16 })
        } else {
            let down: usize = behind - dropped;
            if down > 32768 {
                return None;
            }
            Some(Decimal { negative, digits: value, exponent: (-(down as i32)) as i16 })
        }
    }

    /// Whether the number differs from zero.
    pub open spec fn nonzero(self) -> bool {
        self.digits != 0
    }

    /// Whether the number differs from zero.
    pub fn is_nonzero(&self) -> (r: bool)
        ensures
            r == self.nonzero(),
    {
        self.digits != 0
    }

    /// Appends the literal of this number to `out`.
    pub fn write(&self, out: &mut String)
        ensures
            final(out)@ == old(out)@ + decimal_text(*self),
    {
        let ghost start = out@;
        if self.negative {
            push_char(out, '-');
        }
        let ghost signed = out@;
        let mut digits: Vec<char> = Vec::new();
        push_digits(&mut digits, self.digits);
        assert(digits@ =~= dec_digits(self.digits as nat));
        write_body(out, &digits, self.exponent);
        assert(out@ =~= start + decimal_text(*self)) by {
            let body = body_text(digits@, self.exponent);
            assert(out@ == signed + body);
            if self.negative {
                assert(signed =~= start + seq!['-']);
                assert(decimal_text(*self) =~= seq!['-'] + body);
            } else {
                assert(signed == start);
                assert(decimal_text(*self) =~= body);
            }
        }
    }
}

/// Appends the digits with the point where the exponent puts it.
fn write_body(out: &mut String, digits: &Vec<char>, exponent: i16)
    ensures
        final(out)@ == old(out)@ + body_text(digits@, exponent),
{
    let ghost start = out@;
    let len: usize = digits.len();
    if exponent >= 0 {
        push_range(out, digits, 0, len);
        assert(digits@.subrange(0, len as int) =~= digits@);
        push_repeated(out, '0', exponent as u64);
        assert(out@ =~= start + (digits@ + repeat_char('0', exponent as nat)));
    } else {
        let shift: usize = (-(exponent as i32)) as usize;
        if len > shift {
            push_range(out, digits, 0, len - shift);
            push_char(out, '.');
            push_range(out, digits, len - shift, len);
            assert(out@ =~= start + (digits@.subrange(0, len - shift) + seq!['.']
                + digits@.subrange(len - shift, len as int)));
        } else {
            push_char(out, '0');
            push_char(out, '.');
            push_repeated(out, '0', (shift - len) as u64);
            push_range(out, digits, 0, len);
            assert(digits@.subrange(0, len as int) =~= digits@);
            assert(out@ =~= start + (seq!['0', '.'] + repeat_char('0', (shift - len) as nat)
                + digits@));
        }
    }
}

} // verus!
