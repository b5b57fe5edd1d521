//! Text building blocks: decimal numerals, white space, number parsing.
use vstd::prelude::*;
use vstd::string::*;

verus! {

/// The decimal digit for `d`, which is below ten.
pub open spec fn digit(d: nat) -> char {
    if d == 0 {
        '0'
    } else if d == 1 {
        '1'
    } else if d == 2 {
        '2'
    } else if d == 3 {
        '3'
    } else if d == 4 {
        '4'
    } else if d == 5 {
        '5'
    } else if d == 6 {
        '6'
    } else if d == 7 {
        '7'
    } else if d == 8 {
        '8'
    } else {
        '9'
    }
}

/// `n` in decimal, without leading zeros.
pub open spec fn decimal(n: nat) -> Seq<char>
    decreases n,
{
    if n < 10 {
        seq![digit(n)]
    } else {
        decimal(n / 10).push(digit(n % 10))
    }
}

/// `n` in decimal, with a minus sign in front when it is negative.
pub open spec fn signed_decimal(n: int) -> Seq<char> {
    if n < 0 {
        seq!['-'] + decimal((-n) as nat)
    } else {
        decimal(n as nat)
    }
}

/// Two numbers with the same decimal numeral are the same number.
pub proof fn decimal_is_injective(a: nat, b: nat)
    requires
        decimal(a) == decimal(b),
    ensures
        a == b,
    decreases a,
{
    decimal_is_not_empty(a / 10);
    decimal_is_not_empty(b / 10);
    assert(decimal(a).last() == digit(a % 10));
    assert(decimal(b).last() == digit(b % 10));
    assert(a % 10 == b % 10);
    assert(decimal(a).len() == decimal(b).len());
    if a >= 10 && b >= 10 {
        assert(decimal(a).drop_last() =~= decimal(a / 10));
        assert(decimal(b).drop_last() =~= decimal(b / 10));
        decimal_is_injective(a / 10, b / 10);
    }
}

/// A decimal numeral has at least one digit.
pub proof fn decimal_is_not_empty(n: nat)
    ensures
        decimal(n).len() > 0,
    decreases n,
{
    if n >= 10 {
        decimal_is_not_empty(n / 10);
    }
}

fn digit_text(d: u64) -> (r: &'static str)
    requires
        d < 10,
    ensures
        r@ == seq![digit(d as nat)],
{
    proof {
        reveal_strlit("0");
        reveal_strlit("1");
        reveal_strlit("2");
        reveal_strlit("3");
        reveal_strlit("4");
        reveal_strlit("5");
        reveal_strlit("6");
        reveal_strlit("7");
        reveal_strlit("8");
        reveal_strlit("9");
    }
    if d == 0 {
        "0"
    } else if d == 1 {
        "1"
    } else if d == 2 {
        "2"
    } else if d == 3 {
        "3"
    } else if d == 4 {
        "4"
    } else if d == 5 {
        "5"
    } else if d == 6 {
        "6"
    } else if d == 7 {
        "7"
    } else if d == 8 {
        "8"
    } else {
        "9"
    }
}

/// `n` in decimal.
pub fn decimal_text(n: u64) -> (r: String)
    ensures
        r@ == decimal(n as nat),
    decreases n,
{
    if n < 10 {
        digit_text(n).to_string()
    } else {
        let mut text = decimal_text(n / 10);
        text.append(digit_text(n % 10));
        assert(text@ =~= decimal((n / 10) as nat).push(digit((n % 10) as nat)));
        text
    }
}

/// `n` in decimal, with a minus sign in front when it is negative.
pub fn signed_decimal_text(n: i32) -> (r: String)
    ensures
        r@ == signed_decimal(n as int),
{
    if n < 0 {
        let magnitude: u64 = (-(n as i64)) as u64;
        proof {
            reveal_strlit("-");
        }
        let r = "-".to_string().concat(decimal_text(magnitude).as_str());
        assert("-"@ =~= seq!['-']);
        r
    } else {
        decimal_text(n as u64)
    }
}

/// The characters with the Unicode property `White_Space`.
pub open spec fn is_white_space(c: char) -> bool {
    let u = c as u32;
    ||| 0x9 <= u <= 0xd
    ||| u == 0x20
    ||| u == 0x85
    ||| u == 0xa0
    ||| u == 0x1680
    ||| 0x2000 <= u <= 0x200a
    ||| u == 0x2028
    ||| u == 0x2029
    ||| u == 0x202f
    ||| u == 0x205f
    ||| u == 0x3000
}

fn white_space(c: char) -> (r: bool)
    ensures
        r == is_white_space(c),
{
    let u: u32 = c as u32;
    (0x9 <= u && u <= 0xd) || u == 0x20 || u == 0x85 || u == 0xa0 || u == 0x1680 || (0x2000 <= u
        && u <= 0x200a) || u == 0x2028 || u == 0x2029 || u == 0x202f || u == 0x205f || u == 0x3000
}

/// `s` without its leading white space.
pub open spec fn trimmed_start(s: Seq<char>) -> Seq<char>
    decreases s.len(),
{
    if s.len() > 0 && is_white_space(s[0]) {
        trimmed_start(s.drop_first())
    } else {
        s
    }
}

/// `s` without its trailing white space.
pub open spec fn trimmed_end(s: Seq<char>) -> Seq<char>
    decreases s.len(),
{
    if s.len() > 0 && is_white_space(s.last()) {
        trimmed_end(s.drop_last())
    } else {
        s
    }
}

/// `s` without leading and trailing white space.
pub open spec fn trimmed(s: Seq<char>) -> Seq<char> {
    trimmed_end(trimmed_start(s))
}

/// The characters of `s`.
pub fn characters(s: &str) -> (r: Vec<char>)
    ensures
        r@ == s@,
{
    let mut out: Vec<char> = Vec::new();
    for c in iter: s.chars()
        invariant
            iter.seq() == s@,
            out@ =~= s@.take(iter.index()),
            0 <= iter.index() <= s@.len(),
    {
        out.push(c);
    }
    assert(s@.take(s@.len() as int) =~= s@);
    out
}

/// `s` without leading and trailing white space.
pub fn trim(s: &str) -> (r: String)
    ensures
        r@ == trimmed(s@),
{
    let chars = characters(s);
    let n: usize = chars.len();
    let mut from: usize = 0;
    assert(s@.skip(0) =~= s@);
    while from < n && white_space(chars[from])
        invariant
            chars@ == s@,
            n == chars.len(),
            from <= n,
            trimmed_start(s@) == trimmed_start(s@.skip(from as int)),
        decreases n - from,
    {
        assert(s@.skip(from as int).drop_first() =~= s@.skip(from + 1));
        from = from + 1;
    }
    assert(trimmed_start(s@) == s@.skip(from as int));
    let mut to: usize = n;
    assert(s@.skip(from as int) =~= s@.subrange(from as int, to as int));
    while to > from && white_space(chars[to - 1])
        invariant
            chars@ == s@,
            n == chars.len(),
            from <= to <= n,
            trimmed(s@) == trimmed_end(s@.subrange(from as int, to as int)),
        decreases to,
    {
        assert(s@.subrange(from as int, to as int).drop_last() =~= s@.subrange(
            from as int,
            to - 1,
        ));
        to = to - 1;
    }
    s.substring_char(from, to).to_string()
}

/// Whether `c` is one of the ten decimal digits.
pub open spec fn is_digit(c: char) -> bool {
    '0' <= c <= '9'
}

/// The number that a run of decimal digits stands for.
pub open spec fn digits_value(s: Seq<char>) -> nat
    decreases s.len(),
{
    if s.len() == 0 {
        0
    } else {
        (digits_value(s.drop_last()) * 10 + (s.last() as nat - '0' as nat)) as nat
    }
}

/// The digits of a numeral that may start with a plus sign.
pub open spec fn numeral_digits(s: Seq<char>) -> Seq<char> {
    if s.len() > 0 && s[0] == '+' {
        s.drop_first()
    } else {
        s
    }
}

/// The number that `s` stands for when it is a decimal numeral: an optional plus sign, then
/// one or more digits, with a value that fits in 32 bits.
pub open spec fn parsed_u32(s: Seq<char>) -> Option<u32> {
    let d = numeral_digits(s);
    if d.len() > 0 && (forall|i: int| 0 <= i < d.len() ==> is_digit(#[trigger] d[i]))
        && digits_value(d) <= u32::MAX {
        Some(digits_value(d) as u32)
    } else {
        None
    }
}

proof fn digits_value_grows(d: Seq<char>, i: int)
    requires
        0 <= i <= d.len(),
        forall|j: int| 0 <= j < d.len() ==> is_digit(#[trigger] d[j]),
    ensures
        digits_value(d.take(i)) <= digits_value(d),
    decreases d.len() - i,
{
    if i == d.len() {
        assert(d.take(i) =~= d);
    } else {
        assert(d.take(i + 1).drop_last() =~= d.take(i));
        assert(is_digit(d[i]));
        digits_value_grows(d, i + 1);
    }
}

/// Reads an unsigned number of at most 32 bits.
pub fn parse_u32(s: &str) -> (r: Option<u32>)
    ensures
        r == parsed_u32(s@),
{
    let chars = characters(s);
    let n: usize = chars.len();
    let start: usize = if n > 0 && chars[0] == '+' {
        1
    } else {
        0
    };
    let ghost d = numeral_digits(s@);
    assert(d =~= s@.skip(start as int));
    if start == n {
        return None;
    }
    let mut value: u64 = 0;
    let mut i: usize = start;
    assert(d.take(0) =~= Seq::<char>::empty());
    while i < n
        invariant
            chars@ == s@,
            n == chars.len(),
            start <= i <= n,
            start < n,
            d == numeral_digits(s@),
            d =~= s@.skip(start as int),
            forall|j: int| 0 <= j < i - start ==> is_digit(#[trigger] d[j]),
            value == digits_value(d.take(i - start)),
            value <= u32::MAX,
        decreases n - i,
    {
        let c: char = chars[i];
        assert(c == d[i - start]);
        if c < '0' || c > '9' {
            assert(!is_digit(d[i - start]));
            return None;
        }
        let digit_value: u64 = c as u64 - '0' as u64;
        value = value * 10 + digit_value;
        assert(d.take(i - start + 1).drop_last() =~= d.take(i - start));
        i = i + 1;
        if value > u32::MAX as u64 {
            proof {
                if forall|j: int| 0 <= j < d.len() ==> is_digit(#[trigger] d[j]) {
                    digits_value_grows(d, i - start);
                }
            }
            return None;
        }
    }
    assert(d.take(n - start) =~= d);
    Some(value as u32)
}

proof fn decimal_is_a_numeral(n: nat)
    ensures
        digits_value(decimal(n)) == n,
        forall|i: int| 0 <= i < decimal(n).len() ==> is_digit(#[trigger] decimal(n)[i]),
    decreases n,
{
    let s = decimal(n);
    if n < 10 {
        assert(s.drop_last() =~= Seq::<char>::empty());
        assert(digits_value(s.drop_last()) == 0);
        assert(s.last() as nat - '0' as nat == n);
    } else {
        decimal_is_a_numeral(n / 10);
        assert(s.drop_last() =~= decimal(n / 10));
        assert(s.last() as nat - '0' as nat == n % 10);
        assert forall|i: int| 0 <= i < s.len() implies is_digit(#[trigger] s[i]) by {
            if i < s.len() - 1 {
                assert(s[i] == decimal(n / 10)[i]);
            }
        }
    }
}

/// A number that was written in decimal is read back.
pub proof fn decimal_is_read_back(n: u32)
    ensures
        parsed_u32(decimal(n as nat)) == Some(n),
{
    decimal_is_a_numeral(n as nat);
    decimal_is_not_empty(n as nat);
    assert(is_digit(decimal(n as nat)[0]));
}

/// Decimal numerals: a single digit is the character of that digit, and one more digit behind a
/// numeral that is not zero multiplies by ten and adds it. A negative number has a minus sign
/// before it.
pub proof fn decimal_numerals(n: nat, d: nat)
    requires
        d < 10,
    ensures
        decimal(d).len() == 1 && decimal(d)[0] as int == '0' as int + d,
        n > 0 ==> decimal(10 * n + d) == decimal(n) + decimal(d),
        signed_decimal(n as int) == decimal(n),
        n > 0 ==> signed_decimal(-(n as int)) == seq!['-'] + decimal(n),
{
    if n > 0 {
        assert((10 * n + d) / 10 == n);
        assert((10 * n + d) % 10 == d);
        assert(decimal(n).push(digit(d)) =~= decimal(n) + decimal(d));
    }
}

/// Text in which something stands that is neither a digit nor a plus sign in front is no
/// number, nor is text without digits. A plus sign in front changes nothing.
pub proof fn numbers_are_made_of_digits(s: Seq<char>, i: int)
    ensures
        s.len() == 0 ==> parsed_u32(s) == None::<u32>,
        s == seq!['+'] ==> parsed_u32(s) == None::<u32>,
        0 <= i < s.len() && !('0' <= s[i] <= '9') && !(i == 0 && s[i] == '+') ==> parsed_u32(s)
            == None::<u32>,
        s.len() > 0 && s[0] != '+' ==> parsed_u32(seq!['+'] + s) == parsed_u32(s),
{
    if 0 <= i < s.len() && !('0' <= s[i] <= '9') && !(i == 0 && s[i] == '+') {
        let d = numeral_digits(s);
        let at = if s[0] == '+' {
            i - 1
        } else {
            i
        };
        assert(d[at] == s[i]);
        assert(!is_digit(d[at]));
    }
    if s.len() > 0 && s[0] != '+' {
        assert((seq!['+'] + s).drop_first() =~= s);
    }
}

/// One digit is read as its value. One more digit behind a number multiplies by ten and adds
/// it, as long as the number fits; where a number does not fit, none with more digits does.
pub proof fn digits_add_up(s: Seq<char>, c: char)
    requires
        '0' <= c <= '9',
    ensures
        parsed_u32(seq![c]) == Some((c as u32 - '0' as u32) as u32),
        s.len() > 0 && s != seq!['+'] ==> parsed_u32(s.push(c)) == (match parsed_u32(s) {
            Some(n) => if n * 10 + (c as u32 - '0' as u32) <= u32::MAX {
                Some((n * 10 + (c as u32 - '0' as u32)) as u32)
            } else {
                None
            },
            None => None,
        }),
{
    let one = seq![c];
    assert(one.drop_last() =~= Seq::<char>::empty());
    assert(digits_value(one.drop_last()) == 0);
    assert(digits_value(one) == c as nat - '0' as nat);
    assert(numeral_digits(one) =~= one);
    if s.len() > 0 && s != seq!['+'] {
        let d = numeral_digits(s);
        let t = s.push(c);
        assert(d.len() > 0) by {
            if d.len() == 0 {
                assert(s =~= seq!['+']);
            }
        }
        assert(numeral_digits(t) =~= d.push(c));
        assert(d.push(c).drop_last() =~= d);
        let all = forall|i: int| 0 <= i < d.len() ==> is_digit(#[trigger] d[i]);
        let more = forall|i: int| 0 <= i < d.push(c).len() ==> is_digit(#[trigger] d.push(c)[i]);
        if all {
            assert(more);
        }
        if more {
            assert forall|i: int| 0 <= i < d.len() implies is_digit(#[trigger] d[i]) by {
                assert(d.push(c)[i] == d[i]);
            }
        }
    }
}

/// White space are the twenty-five characters that Unicode calls so.
pub proof fn white_space_characters(c: char)
    ensures
        is_white_space(c) <==> (c == '\u{9}' || c == '\u{a}' || c == '\u{b}' || c == '\u{c}' || c
            == '\u{d}' || c == '\u{20}' || c == '\u{85}' || c == '\u{a0}' || c == '\u{1680}' || c
            == '\u{2000}' || c == '\u{2001}' || c == '\u{2002}' || c == '\u{2003}' || c
            == '\u{2004}' || c == '\u{2005}' || c == '\u{2006}' || c == '\u{2007}' || c
            == '\u{2008}' || c == '\u{2009}' || c == '\u{200a}' || c == '\u{2028}' || c
            == '\u{2029}' || c == '\u{202f}' || c == '\u{205f}' || c == '\u{3000}'),
{
}

proof fn trimming_the_start(before: Seq<char>, rest: Seq<char>)
    requires
        forall|i: int| 0 <= i < before.len() ==> is_white_space(#[trigger] before[i]),
        rest.len() > 0 ==> !is_white_space(rest[0]),
    ensures
        trimmed_start(before + rest) == rest,
    decreases before.len(),
{
    let s = before + rest;
    if before.len() == 0 {
        assert(s =~= rest);
    } else {
        let less = before.drop_first();
        assert(s.drop_first() =~= less + rest);
        assert forall|i: int| 0 <= i < less.len() implies is_white_space(#[trigger] less[i]) by {
            assert(less[i] == before[i + 1]);
        }
        assert(s[0] == before[0]);
        trimming_the_start(less, rest);
    }
}

proof fn trimming_the_end(rest: Seq<char>, after: Seq<char>)
    requires
        forall|i: int| 0 <= i < after.len() ==> is_white_space(#[trigger] after[i]),
        rest.len() > 0 ==> !is_white_space(rest.last()),
    ensures
        trimmed_end(rest + after) == rest,
    decreases after.len(),
{
    let s = rest + after;
    if after.len() == 0 {
        assert(s =~= rest);
    } else {
        let less = after.drop_last();
        assert(s.drop_last() =~= rest + less);
        assert forall|i: int| 0 <= i < less.len() implies is_white_space(#[trigger] less[i]) by {
            assert(less[i] == after[i]);
        }
        assert(s.last() == after.last());
        trimming_the_end(rest, less);
    }
}

/// Trimming takes all white space off both ends and nothing else.
pub proof fn trimming(before: Seq<char>, middle: Seq<char>, after: Seq<char>)
    requires
        forall|i: int| 0 <= i < before.len() ==> is_white_space(#[trigger] before[i]),
        forall|i: int| 0 <= i < after.len() ==> is_white_space(#[trigger] after[i]),
        middle.len() > 0 ==> !is_white_space(middle[0]) && !is_white_space(middle.last()),
    ensures
        trimmed(before + middle + after) == middle,
{
    let none = Seq::<char>::empty();
    if middle.len() > 0 {
        let rest = middle + after;
        assert(before + middle + after =~= before + rest);
        assert(rest[0] == middle[0]);
        trimming_the_start(before, rest);
        trimming_the_end(middle, after);
    } else {
        let all = before + middle + after;
        assert forall|i: int| 0 <= i < all.len() implies is_white_space(#[trigger] all[i]) by {
            if i < before.len() {
                assert(all[i] == before[i]);
            } else {
                assert(all[i] == after[i - before.len()]);
            }
        }
        trimming_the_start(all, none);
        assert(all + none =~= all);
        assert(middle =~= none);
    }
}

} // verus!
