//! Plain text: whitespace, comparison and decimal numbers.
//!
//! A text is modelled by its sequence of characters, `Seq<char>`.
use vstd::prelude::*;
use vstd::string::*;

verus! {

/// A character with the Unicode `White_Space` property.
pub open spec fn is_white_space(c: char) -> bool {
    let u = c as u32;
    ||| 0x9 <= u <= 0xd
    ||| u == 0x20
    ||| u == 0x85
    ||| u == 0xa0
    ||| u == 0x1680
    ||| 0x2000 <= u <= 0x200a
    ||| u == 0x2028
    ||| u == 0x2029
    ||| u == 0x202f
    ||| u == 0x205f
    ||| u == 0x3000
}

/// `s` without its leading whitespace.
pub open spec fn trim_start(s: Seq<char>) -> Seq<char>
    decreases s.len(),
{
    if s.len() > 0 && is_white_space(s[0]) {
        trim_start(s.drop_first())
    } else {
        s
    }
}

/// `s` without its trailing whitespace.
pub open spec fn trim_end(s: Seq<char>) -> Seq<char>
    decreases s.len(),
{
    if s.len() > 0 && is_white_space(s.last()) {
        trim_end(s.drop_last())
    } else {
        s
    }
}

/// `s` without whitespace on either side.
pub open spec fn trimmed(s: Seq<char>) -> Seq<char> {
    trim_end(trim_start(s))
}

/// The characters of `s`, in order.
pub fn chars_of(s: &str) -> (v: Vec<char>)
    ensures
        v@ == s@,
{
    let mut v: Vec<char> = Vec::new();
    for c in it: s.chars()
        invariant
            v@ == it.seq().take(it.index()),
            it.seq() == s@,
    {
        v.push(c);
    }
    v
}

/// Tells whether `c` is whitespace.
pub fn white_space(c: char) -> (r: bool)
    ensures
        r == is_white_space(c),
{
    let u: u32 = c as u32;
    (0x9 <= u && u <= 0xd) || u == 0x20 || u == 0x85 || u == 0xa0 || u == 0x1680 || (0x2000 <= u
        && u <= 0x200a) || u == 0x2028 || u == 0x2029 || u == 0x202f || u == 0x205f || u == 0x3000
}

/// Cuts the whitespace off both ends of `s`.
pub fn trim(s: &str) -> (r: &str)
    ensures
        r@ == trimmed(s@),
{
    let cs = chars_of(s);
    let n: usize = cs.len();
    let mut lo: usize = 0;
    assert(s@.skip(0) =~= s@);
    while lo < n && white_space(cs[lo])
        invariant
            cs@ == s@,
            n == cs.len(),
            lo <= n,
            trim_start(s@) == trim_start(s@.skip(lo as int)),
        decreases n - lo,
    {
        assert(s@.skip(lo as int).drop_first() =~= s@.skip(lo + 1));
        lo = lo + 1;
    }
    let mut hi: usize = n;
    assert(s@.subrange(lo as int, n as int) =~= s@.skip(lo as int));
    while hi > lo && white_space(cs[hi - 1])
        invariant
            cs@ == s@,
            n == cs.len(),
            lo <= hi <= n,
            trimmed(s@) == trim_end(s@.subrange(lo as int, hi as int)),
        decreases hi,
    {
        assert(s@.subrange(lo as int, hi as int).drop_last() =~= s@.subrange(
            lo as int,
            hi - 1,
        ));
        hi = hi - 1;
    }
    s.substring_char(lo, hi)
}

/// Tells whether two texts are the same.
pub fn same_text(a: &str, b: &str) -> (r: bool)
    ensures
        r == (a@ == b@),
{
    let x = chars_of(a);
    let y = chars_of(b);
    if x.len() != y.len() {
        return false;
    }
    let mut i: usize = 0;
    while i < x.len()
        invariant
            x@ == a@,
            y@ == b@,
            x.len() == y.len(),
            i <= x.len(),
            forall|j: int| 0 <= j < i ==> x@[j] == y@[j],
        decreases x.len() - i,
    {
        if x[i] != y[i] {
            return false;
        }
        i = i + 1;
    }
    assert(a@ =~= b@);
    true
}

/// The character of one decimal digit.
pub open spec fn digit_char(d: nat) -> char {
    if d == 0 {
        '0'
    } else if d == 1 {
        '1'
    } else if d == 2 {
        '2'
    } else if d == 3 {
        '3'
    } else if d == 4 {
        '4'
    } else if d == 5 {
        '5'
    } else if d == 6 {
        '6'
    } else if d == 7 {
        '7'
    } else if d == 8 {
        '8'
    } else {
        '9'
    }
}

/// `n` in decimal, without leading zeros.
pub open spec fn decimal(n: nat) -> Seq<char>
    decreases n,
{
    if n < 10 {
        seq![digit_char(n)]
    } else {
        decimal(n / 10).push(digit_char(n % 10))
    }
}

fn digit_text(d: u64) -> (r: &'static str)
    requires
        d < 10,
    ensures
        r@ == seq![digit_char(d as nat)],
{
    proof {
        reveal_strlit("0");
        reveal_strlit("1");
        reveal_strlit("2");
        reveal_strlit("3");
        reveal_strlit("4");
        reveal_strlit("5");
        reveal_strlit("6");
        reveal_strlit("7");
        reveal_strlit("8");
        reveal_strlit("9");
    }
    if d == 0 {
        "0"
    } else if d == 1 {
        "1"
    } else if d == 2 {
        "2"
    } else if d == 3 {
        "3"
    } else if d == 4 {
        "4"
    } else if d == 5 {
        "5"
    } else if d == 6 {
        "6"
    } else if d == 7 {
        "7"
    } else if d == 8 {
        "8"
    } else {
        "9"
    }
}

/// Writes `n` in decimal.
pub fn decimal_text(n: u64) -> (r: String)
    ensures
        r@ == decimal(n as nat),
    decreases n,
{
    if n < 10 {
        digit_text(n).to_owned()
    } else {
        let mut r = decimal_text(n / 10);
        r.append(digit_text(n % 10));
        r
    }
}

/// A decimal digit character.
pub open spec fn is_digit(c: char) -> bool {
    '0' as u32 <= c as u32 <= '9' as u32
}

/// The number that one digit character stands for.
pub open spec fn digit_value(c: char) -> nat {
    (c as u32 - '0' as u32) as nat
}

pub open spec fn all_digits(s: Seq<char>) -> bool {
    forall|i: int| 0 <= i < s.len() ==> is_digit(#[trigger] s[i])
}

/// The number that a run of digits stands for.
pub open spec fn digits_value(s: Seq<char>) -> nat
    decreases s.len(),
{
    if s.len() == 0 {
        0
    } else {
        10 * digits_value(s.drop_last()) + digit_value(s.last())
    }
}

/// Reads an unsigned number of at most `max`: one or more digits, with at most one `+` before
/// them and nothing else.
pub open spec fn parsed_number(s: Seq<char>, max: nat) -> Option<nat> {
    let digits = if s.len() > 0 && s[0] == '+' {
        s.drop_first()
    } else {
        s
    };
    if digits.len() > 0 && all_digits(digits) && digits_value(digits) <= max {
        Some(digits_value(digits))
    } else {
        None
    }
}

proof fn lemma_digits_value_prefix(s: Seq<char>, k: int)
    requires
        0 <= k <= s.len(),
        all_digits(s),
    ensures
        digits_value(s.take(k)) <= digits_value(s),
    decreases s.len(),
{
    if k < s.len() {
        let t = s.drop_last();
        assert(t.take(k) =~= s.take(k));
        assert(all_digits(t));
        lemma_digits_value_prefix(t, k);
    } else {
        assert(s.take(k) =~= s);
    }
}

/// Parses `s` as an unsigned number of at most `max`.
pub fn parse_number(s: &str, max: u64) -> (r: Option<u64>)
    ensures
        r is Some <==> parsed_number(s@, max as nat) is Some,
        r matches Some(n) ==> parsed_number(s@, max as nat) == Some(n as nat),
{
    let cs = chars_of(s);
    let n: usize = cs.len();
    let start: usize = if n > 0 && cs[0] == '+' {
        1
    } else {
        0
    };
    let ghost digits = s@.skip(start as int);
    proof {
        assert(s@.skip(0) =~= s@);
        if start == 1 {
            assert(s@.skip(1) =~= s@.drop_first());
        }
    }
    if start == n {
        return None;
    }
    let mut value: u64 = 0;
    let mut i: usize = start;
    assert(digits.take(0) =~= Seq::<char>::empty());
    while i < n
        invariant
            cs@ == s@,
            n == cs.len(),
            start <= i <= n,
            start <= 1,
            digits == s@.skip(start as int),
            parsed_number(s@, max as nat) == (if digits.len() > 0 && all_digits(digits)
                && digits_value(digits) <= max {
                Some(digits_value(digits))
            } else {
                None
            }),
            all_digits(digits.take(i - start)),
            value == digits_value(digits.take(i - start)),
            value <= max,
        decreases n - i,
    {
        let c = cs[i];
        let u: u32 = c as u32;
        let ghost k = i - start;
        assert(digits[k] == c);
        assert(digits.take(k + 1).drop_last() =~= digits.take(k));
        if u < 48 || u > 57 {
            assert(!is_digit(digits[k]));
            return None;
        }
        let d: u64 = (u - 48) as u64;
        proof {
            assert(digits.take(k + 1).last() == c);
            assert(digits_value(digits.take(k + 1)) == 10 * value + d);
            if 10 * value + d > max && all_digits(digits) {
                lemma_digits_value_prefix(digits, k + 1);
            }
        }
        if value > max / 10 || d > max - 10 * value {
            return None;
        }
        value = 10 * value + d;
        i = i + 1;
    }
    assert(digits.take(n - start) =~= digits);
    Some(value)
}

proof fn lemma_digit_char(d: nat)
    requires
        d < 10,
    ensures
        is_digit(digit_char(d)),
        digit_value(digit_char(d)) == d,
        !is_white_space(digit_char(d)),
        digit_char(d) != '+',
{
}

proof fn lemma_decimal_digits(n: nat)
    ensures
        decimal(n).len() > 0,
        all_digits(decimal(n)),
        digits_value(decimal(n)) == n,
    decreases n,
{
    lemma_digit_char(n % 10);
    if n < 10 {
        let s = decimal(n);
        assert(s.drop_last() =~= Seq::<char>::empty());
        assert(digits_value(s.drop_last()) == 0);
    } else {
        lemma_decimal_digits(n / 10);
        assert(decimal(n).drop_last() =~= decimal(n / 10));
    }
}

/// A number written in decimal reads back as itself, whatever whitespace surrounds it.
pub proof fn decimal_reads_back(n: nat, max: nat, before: Seq<char>, after: Seq<char>)
    requires
        n <= max,
        forall|i: int| 0 <= i < before.len() ==> is_white_space(#[trigger] before[i]),
        forall|i: int| 0 <= i < after.len() ==> is_white_space(#[trigger] after[i]),
    ensures
        parsed_number(trimmed(before + decimal(n) + after), max) == Some(n),
{
    let d = decimal(n);
    lemma_decimal_digits(n);
    assert(is_digit(d[0]));
    assert(is_digit(d.last()));
    assert(before + d + after =~= before + (d + after));
    lemma_trim_start_prefix(before, d + after);
    lemma_trim_end_suffix(d, after);
}

/// Leading whitespace does not change what is left after trimming the start.
proof fn lemma_trim_start_prefix(before: Seq<char>, rest: Seq<char>)
    requires
        forall|i: int| 0 <= i < before.len() ==> is_white_space(#[trigger] before[i]),
    ensures
        trim_start(before + rest) == trim_start(rest),
    decreases before.len(),
{
    if before.len() == 0 {
        assert(before + rest =~= rest);
    } else {
        assert((before + rest)[0] == before[0]);
        assert((before + rest).drop_first() =~= before.drop_first() + rest);
        lemma_trim_start_prefix(before.drop_first(), rest);
    }
}

/// Trailing whitespace does not change what is left after trimming the end.
proof fn lemma_trim_end_suffix(rest: Seq<char>, after: Seq<char>)
    requires
        forall|i: int| 0 <= i < after.len() ==> is_white_space(#[trigger] after[i]),
    ensures
        trim_end(rest + after) == trim_end(rest),
    decreases after.len(),
{
    if after.len() == 0 {
        assert(rest + after =~= rest);
    } else {
        assert((rest + after).last() == after.last());
        assert((rest + after).drop_last() =~= rest + after.drop_last());
        lemma_trim_end_suffix(rest, after.drop_last());
    }
}

/// Whitespace is made of these characters and no others: tab, line feed, vertical tab, form feed,
/// carriage return, space, next line, no-break space, and the blank characters of other scripts.
pub proof fn white_space_characters(c: char)
    ensures
        is_white_space(c) <==> seq![
            '\u{9}',
            '\u{a}',
            '\u{b}',
            '\u{c}',
            '\u{d}',
            ' ',
            '\u{85}',
            '\u{a0}',
            '\u{1680}',
            '\u{2000}',
            '\u{2001}',
            '\u{2002}',
            '\u{2003}',
            '\u{2004}',
            '\u{2005}',
            '\u{2006}',
            '\u{2007}',
            '\u{2008}',
            '\u{2009}',
            '\u{200a}',
            '\u{2028}',
            '\u{2029}',
            '\u{202f}',
            '\u{205f}',
            '\u{3000}',
        ].contains(c),
{
    let all = seq![
        '\u{9}',
        '\u{a}',
        '\u{b}',
        '\u{c}',
        '\u{d}',
        ' ',
        '\u{85}',
        '\u{a0}',
        '\u{1680}',
        '\u{2000}',
        '\u{2001}',
        '\u{2002}',
        '\u{2003}',
        '\u{2004}',
        '\u{2005}',
        '\u{2006}',
        '\u{2007}',
        '\u{2008}',
        '\u{2009}',
        '\u{200a}',
        '\u{2028}',
        '\u{2029}',
        '\u{202f}',
        '\u{205f}',
        '\u{3000}',
    ];
    if is_white_space(c) {
        let u = c as u32;
        let k: int = if u <= 0xd {
            u - 9
        } else if u == 0x20 {
            5
        } else if u == 0x85 {
            6
        } else if u == 0xa0 {
            7
        } else if u == 0x1680 {
            8
        } else if u <= 0x200a {
            u - 0x2000 + 9
        } else if u == 0x2028 {
            20
        } else if u == 0x2029 {
            21
        } else if u == 0x202f {
            22
        } else if u == 0x205f {
            23
        } else {
            24
        };
        assert(all[k] as u32 == u);
        assert(all[k] == c);
    }
}

/// Nothing but whitespace.
pub open spec fn is_blank(s: Seq<char>) -> bool {
    forall|i: int| 0 <= i < s.len() ==> is_white_space(#[trigger] s[i])
}

/// A text that neither starts nor ends with whitespace.
pub open spec fn has_no_margin(s: Seq<char>) -> bool {
    s.len() > 0 ==> !is_white_space(s[0]) && !is_white_space(s.last())
}

/// Trimming cuts whitespace off both ends, as much as there is, and nothing else.
pub proof fn trimming_cuts_the_margin(s: Seq<char>) -> (margin: (Seq<char>, Seq<char>))
    ensures
        is_blank(margin.0),
        is_blank(margin.1),
        s == margin.0 + trimmed(s) + margin.1,
        has_no_margin(trimmed(s)),
{
    let before = lemma_trim_start(s);
    let after = lemma_trim_end(trim_start(s));
    let t = trimmed(s);
    if t.len() > 0 {
        assert(trim_start(s)[0] == t[0]);
    }
    assert(s =~= before + t + after);
    (before, after)
}

proof fn lemma_trim_start(s: Seq<char>) -> (before: Seq<char>)
    ensures
        is_blank(before),
        s == before + trim_start(s),
        trim_start(s).len() > 0 ==> !is_white_space(trim_start(s)[0]),
    decreases s.len(),
{
    if s.len() > 0 && is_white_space(s[0]) {
        let rest = lemma_trim_start(s.drop_first());
        let before = seq![s[0]] + rest;
        assert(s =~= seq![s[0]] + s.drop_first());
        assert(seq![s[0]] + (rest + trim_start(s)) =~= before + trim_start(s));
        before
    } else {
        assert(s =~= Seq::<char>::empty() + s);
        Seq::empty()
    }
}

proof fn lemma_trim_end(s: Seq<char>) -> (after: Seq<char>)
    ensures
        is_blank(after),
        s == trim_end(s) + after,
        trim_end(s).len() > 0 ==> !is_white_space(trim_end(s).last()),
    decreases s.len(),
{
    if s.len() > 0 && is_white_space(s.last()) {
        let rest = lemma_trim_end(s.drop_last());
        let after = rest.push(s.last());
        assert(s =~= s.drop_last().push(s.last()));
        assert((trim_end(s) + rest).push(s.last()) =~= trim_end(s) + after);
        after
    } else {
        assert(s =~= s + Seq::<char>::empty());
        Seq::empty()
    }
}

/// Trimming gives back a text that whitespace was put around.
pub proof fn trimming_finds_the_text(before: Seq<char>, s: Seq<char>, after: Seq<char>)
    requires
        is_blank(before),
        is_blank(after),
        has_no_margin(s),
    ensures
        trimmed(before + s + after) == s,
{
    assert(before + s + after =~= before + (s + after));
    lemma_trim_start_prefix(before, s + after);
    if s.len() > 0 {
        lemma_trim_end_suffix(s, after);
    } else {
        assert(s + after =~= after + Seq::<char>::empty());
        lemma_trim_start_prefix(after, Seq::<char>::empty());
        assert(s =~= Seq::<char>::empty());
    }
}

/// Decimal notation is positional: the digit `d` is the character `d` places after `0`, and a
/// digit put behind a number greater than zero multiplies it by ten and adds the digit.
pub proof fn decimal_is_positional(n: nat, d: nat)
    requires
        d < 10,
    ensures
        decimal(d).len() == 1,
        decimal(d)[0] as u32 == 48 + d,
        n > 0 ==> decimal(10 * n + d) == decimal(n) + decimal(d),
{
    if n > 0 {
        assert((10 * n + d) / 10 == n);
        assert((10 * n + d) % 10 == d);
        assert(decimal(10 * n + d) =~= decimal(n) + decimal(d));
    }
}

/// `s` is the number `n`, in decimal, with these parts around its digits.
pub open spec fn is_numeral(
    s: Seq<char>,
    n: nat,
    before: Seq<char>,
    sign: Seq<char>,
    zeros: Seq<char>,
    after: Seq<char>,
) -> bool {
    &&& s == before + sign + zeros + decimal(n) + after
    &&& is_blank(before)
    &&& is_blank(after)
    &&& sign == Seq::<char>::empty() || sign == seq!['+']
    &&& forall|i: int| 0 <= i < zeros.len() ==> #[trigger] zeros[i] == '0'
}

/// `s` holds the number `n` and nothing else: its decimal digits, with whitespace around them, a
/// plus sign before them and zeros in front of them, or not.
pub open spec fn holds_number(s: Seq<char>, n: nat) -> bool {
    exists|before: Seq<char>, sign: Seq<char>, zeros: Seq<char>, after: Seq<char>|
        is_numeral(s, n, before, sign, zeros, after)
}

proof fn lemma_zeros(zeros: Seq<char>, digits: Seq<char>)
    requires
        forall|i: int| 0 <= i < zeros.len() ==> #[trigger] zeros[i] == '0',
        all_digits(digits),
    ensures
        all_digits(zeros + digits),
        digits_value(zeros + digits) == digits_value(digits),
    decreases digits.len() + zeros.len(),
{
    let s = zeros + digits;
    if digits.len() > 0 {
        assert(s.drop_last() =~= zeros + digits.drop_last());
        lemma_zeros(zeros, digits.drop_last());
    } else if zeros.len() > 0 {
        assert(s.drop_last() =~= zeros.drop_last() + digits);
        lemma_zeros(zeros.drop_last(), digits);
        assert(s.last() == zeros.last());
    } else {
        assert(s =~= digits);
    }
}

proof fn lemma_digits_are_numeral(s: Seq<char>) -> (zeros: Seq<char>)
    requires
        s.len() > 0,
        all_digits(s),
    ensures
        forall|i: int| 0 <= i < zeros.len() ==> #[trigger] zeros[i] == '0',
        s == zeros + decimal(digits_value(s)),
    decreases s.len(),
{
    let c = s.last();
    let d = digit_value(c);
    assert(is_digit(s[s.len() - 1]));
    assert(digit_char(d) as u32 == c as u32);
    vstd::utf8::char_u32_cast(c, c as u32);
    vstd::utf8::char_u32_cast(digit_char(d), c as u32);
    assert(digit_char(d) == c);
    let t = s.drop_last();
    assert(s =~= t.push(c));
    if t.len() == 0 {
        assert(digits_value(t) == 0);
        assert(s =~= Seq::<char>::empty() + decimal(d));
        Seq::empty()
    } else {
        let z = lemma_digits_are_numeral(t);
        let v = digits_value(t);
        assert(digits_value(s) == 10 * v + d);
        if v == 0 {
            assert((z + decimal(0)).push(c) =~= z.push('0') + decimal(d));
            z.push('0')
        } else {
            decimal_is_positional(v, d);
            assert((z + decimal(v)).push(c) =~= z + decimal(10 * v + d));
            z
        }
    }
}

/// A text reads as a number exactly where it holds that number and the number is not too great.
pub proof fn numbers_are_read_as_written(s: Seq<char>, n: nat, max: nat)
    ensures
        parsed_number(trimmed(s), max) == Some(n) <==> holds_number(s, n) && n <= max,
{
    let t = trimmed(s);
    if holds_number(s, n) {
        let (before, sign, zeros, after) = choose|
            before: Seq<char>,
            sign: Seq<char>,
            zeros: Seq<char>,
            after: Seq<char>,
        |
            is_numeral(s, n, before, sign, zeros, after);
        let digits = zeros + decimal(n);
        lemma_decimal_digits(n);
        lemma_zeros(zeros, decimal(n));
        let mid = sign + digits;
        assert(s =~= before + mid + after);
        assert(mid.last() == decimal(n).last());
        assert(is_digit(digits[0]));
        assert(is_digit(digits[digits.len() - 1]));
        trimming_finds_the_text(before, mid, after);
        if sign.len() > 0 {
            assert(mid.drop_first() =~= digits);
        } else {
            assert(mid =~= digits);
        }
    }
    if parsed_number(t, max) == Some(n) {
        let margin = trimming_cuts_the_margin(s);
        let signed = t.len() > 0 && t[0] == '+';
        let digits = if signed {
            t.drop_first()
        } else {
            t
        };
        let sign = if signed {
            seq!['+']
        } else {
            Seq::<char>::empty()
        };
        let zeros = lemma_digits_are_numeral(digits);
        assert(t =~= sign + digits);
        assert(margin.0 + (sign + (zeros + decimal(n))) + margin.1 =~= margin.0 + sign + zeros
            + decimal(n) + margin.1);
        assert(is_numeral(s, n, margin.0, sign, zeros, margin.1));
    }
}

/// No text holds two numbers.
pub proof fn held_number_is_unique(s: Seq<char>, m: nat, n: nat)
    requires
        holds_number(s, m),
        holds_number(s, n),
    ensures
        m == n,
{
    let max = if m > n {
        m
    } else {
        n
    };
    numbers_are_read_as_written(s, m, max);
    numbers_are_read_as_written(s, n, max);
}

} // verus!
