//! Text as sequences of characters: comparison, decimal numerals in both
//! directions, and what it means for one text to mention another.

use vstd::prelude::*;

verus! {

/// `c` is one of the ten ASCII digits.
pub open spec fn is_digit(c: char) -> bool {
    '0' <= c && c <= '9'
}

/// The number that the digit `c` stands for; zero for any other character.
pub open spec fn digit_value(c: char) -> nat {
    if is_digit(c) {
        (c as int - '0' as int) as nat
    } else {
        0
    }
}

/// The digit that stands for `d`, for `d` from 0 to 9.
pub open spec fn digit_char(d: int) -> char {
    (d + '0' as int) as char
}

/// Every character of `s` is a digit.
pub open spec fn digits_only(s: Seq<char>) -> bool {
    forall|i: int| 0 <= i < s.len() ==> is_digit(#[trigger] s[i])
}

/// The number that a run of digits denotes in base ten; leading zeros do
/// not count, and the empty run denotes zero.
pub open spec fn digits_value(s: Seq<char>) -> nat
    decreases s.len(),
{
    if s.len() == 0 {
        0
    } else {
        digits_value(s.drop_last()) * 10 + digit_value(s.last())
    }
}

/// The magnitude of an unsigned numeral: an optional `+`, then one or more
/// digits. `None` where `s` is not of that form.
pub open spec fn unsigned_numeral(s: Seq<char>) -> Option<nat> {
    let digits = if s.len() > 0 && s[0] == '+' {
        s.skip(1)
    } else {
        s
    };
    if digits.len() > 0 && digits_only(digits) {
        Some(digits_value(digits))
    } else {
        None
    }
}

/// The value of a signed numeral: an optional `+` or `-`, then one or more
/// digits. `None` where `s` is not of that form.
pub open spec fn signed_numeral(s: Seq<char>) -> Option<int> {
    if s.len() > 0 && s[0] == '-' {
        let digits = s.skip(1);
        if digits.len() > 0 && digits_only(digits) {
            Some(-(digits_value(digits) as int))
        } else {
            None
        }
    } else {
        match unsigned_numeral(s) {
            Some(n) => Some(n as int),
            None => None,
        }
    }
}

/// What `s` denotes as a `u32`: an unsigned numeral whose value fits.
pub open spec fn u32_of(s: Seq<char>) -> Option<u32> {
    match unsigned_numeral(s) {
        Some(n) if n <= u32::MAX => Some(n as u32),
        _ => None,
    }
}

/// What `s` denotes as an `i32`: a signed numeral whose value fits.
pub open spec fn i32_of(s: Seq<char>) -> Option<i32> {
    match signed_numeral(s) {
        Some(n) if i32::MIN <= n <= i32::MAX => Some(n as i32),
        _ => None,
    }
}

/// The shortest decimal notation of `n`.
pub open spec fn decimal(n: nat) -> Seq<char>
    decreases n,
{
    if n < 10 {
        seq![digit_char(n as int)]
    } else {
        decimal(n / 10).push(digit_char((n % 10) as int))
    }
}

/// `n` in decimal, at least two characters wide: a single digit gets a
/// leading zero, a negative number its minus sign.
pub open spec fn two_wide(n: int) -> Seq<char> {
    if n < 0 {
        seq!['-'] + decimal((-n) as nat)
    } else if n < 10 {
        seq!['0'] + decimal(n as nat)
    } else {
        decimal(n as nat)
    }
}

/// `needle` occurs in `hay` as a run of consecutive characters.
pub open spec fn mentions(hay: Seq<char>, needle: Seq<char>) -> bool {
    exists|at: int|
        0 <= at && at + needle.len() <= hay.len() && #[trigger] hay.subrange(
            at,
            at + needle.len(),
        ) == needle
}

/// Appending one character multiplies the value by ten and adds what the
/// character stands for.
pub proof fn lemma_digits_value_push(s: Seq<char>, c: char)
    ensures
        digits_value(s.push(c)) == digits_value(s) * 10 + digit_value(c),
{
    assert(s.push(c).drop_last() =~= s);
}

/// The decimal notation of a number is one or more digits, and they denote
/// that number.
pub proof fn lemma_decimal_reads_back(n: nat)
    ensures
        decimal(n).len() > 0,
        digits_only(decimal(n)),
        digits_value(decimal(n)) == n,
    decreases n,
{
    if n < 10 {
        assert(Seq::<char>::empty().push(digit_char(n as int)) =~= decimal(n));
        lemma_digits_value_push(Seq::<char>::empty(), digit_char(n as int));
    } else {
        lemma_decimal_reads_back(n / 10);
        lemma_digits_value_push(decimal(n / 10), digit_char((n % 10) as int));
    }
}

/// A number written two wide is a signed numeral of that number, an
/// unsigned one where the number is not negative, and holds no `.`.
pub proof fn lemma_two_wide_reads_back(n: int)
    ensures
        signed_numeral(two_wide(n)) == Some(n),
        n >= 0 ==> unsigned_numeral(two_wide(n)) == Some(n as nat),
        forall|i: int| 0 <= i < two_wide(n).len() ==> two_wide(n)[i] != '.',
{
    let s = two_wide(n);
    if n < 0 {
        let digits = decimal((-n) as nat);
        lemma_decimal_reads_back((-n) as nat);
        assert(s.skip(1) =~= digits);
        assert forall|i: int| 0 <= i < s.len() implies s[i] != '.' by {
            if i > 0 {
                assert(s[i] == digits[i - 1]);
            }
        }
    } else {
        let digits = decimal(n as nat);
        lemma_decimal_reads_back(n as nat);
        if n < 10 {
            assert(s =~= seq!['0'].push(digit_char(n)));
            lemma_digits_value_push(seq!['0'], digit_char(n));
            assert(Seq::<char>::empty().push('0') =~= seq!['0']);
            lemma_digits_value_push(Seq::<char>::empty(), '0');
        }
        assert(is_digit(s[0]));
    }
}

/// The characters of `text`, in order.
pub fn chars_of(text: &str) -> (chars: Vec<char>)
    ensures
        chars@ == text@,
{
    let mut chars: Vec<char> = Vec::new();
    for c in it: text.chars()
        invariant
            it.seq() == text@,
            chars@ == it.seq().take(it.index()),
    {
        chars.push(c);
    }
    chars
}

/// Whether two texts hold the same characters.
pub fn text_equals(a: &str, b: &str) -> (same: bool)
    ensures
        same == (a@ == b@),
{
    let left = chars_of(a);
    let right = chars_of(b);
    if left.len() != right.len() {
        return false;
    }
    let mut i: usize = 0;
    while i < left.len()
        invariant
            i <= left.len(),
            left.len() == right.len(),
            left@ == a@,
            right@ == b@,
            forall|k: int| 0 <= k < i ==> left@[k] == right@[k],
        decreases left.len() - i,
    {
        if left[i] != right[i] {
            return false;
        }
        i += 1;
    }
    assert(left@ =~= right@);
    true
}

/// `value` as far as `limit`, and `limit + 1` for everything beyond.
pub open spec fn capped(value: nat, limit: nat) -> nat {
    if value <= limit {
        value
    } else {
        limit + 1
    }
}

/// Reads `chars[from..to]` as a run of digits. `None` where the run is
/// empty or holds anything but digits; else its value, capped at `limit`.
pub(crate) fn read_digits(chars: &Vec<char>, from: usize, to: usize, limit: u64) -> (read: Option<
    u64,
>)
    requires
        from <= to <= chars.len(),
        limit <= u32::MAX,
    ensures
        ({
            let run = chars@.subrange(from as int, to as int);
            read == if run.len() > 0 && digits_only(run) {
                Some(capped(digits_value(run), limit as nat) as u64)
            } else {
                None
            }
        }),
{
    if from == to {
        return None;
    }
    let ghost run = chars@.subrange(from as int, to as int);
    let mut value: u64 = 0;
    let mut i: usize = from;
    while i < to
        invariant
            from <= i <= to <= chars.len(),
            limit <= u32::MAX,
            run == chars@.subrange(from as int, to as int),
            digits_only(chars@.subrange(from as int, i as int)),
            value == capped(digits_value(chars@.subrange(from as int, i as int)), limit as nat),
        decreases to - i,
    {
        let c = chars[i];
        if c < '0' || c > '9' {
            assert(run[i - from] == c);
            return None;
        }
        let digit: u64 = (c as u32 - '0' as u32) as u64;
        proof {
            let seen = chars@.subrange(from as int, i as int);
            assert(chars@.subrange(from as int, i + 1) =~= seen.push(c));
            lemma_digits_value_push(seen, c);
        }
        let next: u64 = value * 10 + digit;
        value = if next > limit {
            limit + 1
        } else {
            next
        };
        i += 1;
    }
    Some(value)
}

/// Reads `chars[from..to]` as a `u32`.
pub(crate) fn read_u32(chars: &Vec<char>, from: usize, to: usize) -> (read: Option<u32>)
    requires
        from <= to <= chars.len(),
    ensures
        read == u32_of(chars@.subrange(from as int, to as int)),
{
    let ghost s = chars@.subrange(from as int, to as int);
    let start: usize = if from < to && chars[from] == '+' {
        from + 1
    } else {
        from
    };
    assert(chars@.subrange(start as int, to as int) =~= if s.len() > 0 && s[0] == '+' {
        s.skip(1)
    } else {
        s
    });
    match read_digits(chars, start, to, 0xffff_ffff) {
        Some(value) if value <= 0xffff_ffff => Some(value as u32),
        _ => None,
    }
}

/// Reads `chars[from..to]` as an `i32`.
pub(crate) fn read_i32(chars: &Vec<char>, from: usize, to: usize) -> (read: Option<i32>)
    requires
        from <= to <= chars.len(),
    ensures
        read == i32_of(chars@.subrange(from as int, to as int)),
{
    let ghost s = chars@.subrange(from as int, to as int);
    if from < to && chars[from] == '-' {
        assert(chars@.subrange(from + 1, to as int) =~= s.skip(1));
        match read_digits(chars, from + 1, to, 0x8000_0000) {
            Some(value) if value <= 0x8000_0000 => Some((-(value as i64)) as i32),
            _ => None,
        }
    } else {
        let start: usize = if from < to && chars[from] == '+' {
            from + 1
        } else {
            from
        };
        assert(chars@.subrange(start as int, to as int) =~= if s.len() > 0 && s[0] == '+' {
            s.skip(1)
        } else {
            s
        });
        match read_digits(chars, start, to, 0x7fff_ffff) {
            Some(value) if value <= 0x7fff_ffff => Some(value as i32),
            _ => None,
        }
    }
}

/// The one-character text of the digit `d`.
fn digit_text(d: u64) -> (text: &'static str)
    requires
        d < 10,
    ensures
        text@ == seq![digit_char(d as int)],
{
    proof {
        reveal_strlit("0");
        reveal_strlit("1");
        reveal_strlit("2");
        reveal_strlit("3");
        reveal_strlit("4");
        reveal_strlit("5");
        reveal_strlit("6");
        reveal_strlit("7");
        reveal_strlit("8");
        reveal_strlit("9");
    }
    let text = match d {
        0 => "0",
        1 => "1",
        2 => "2",
        3 => "3",
        4 => "4",
        5 => "5",
        6 => "6",
        7 => "7",
        8 => "8",
        _ => "9",
    };
    assert(text@ =~= seq![digit_char(d as int)]);
    text
}

/// Appends the shortest decimal notation of `n` to `out`.
pub fn append_decimal(out: &mut String, n: u64)
    ensures
        final(out)@ == old(out)@ + decimal(n as nat),
    decreases n,
{
    if n >= 10 {
        append_decimal(out, n / 10);
    }
    out.append(digit_text(n % 10));
    proof {
        if n >= 10 {
            assert(out@ =~= old(out)@ + decimal((n / 10) as nat).push(digit_char((n % 10) as int)));
        }
    }
}

/// Appends `n` to `out`, at least two characters wide.
pub fn append_two_wide(out: &mut String, n: i64)
    ensures
        final(out)@ == old(out)@ + two_wide(n as int),
{
    proof {
        reveal_strlit("-");
        reveal_strlit("0");
    }
    if n < 0 {
        out.append("-");
        append_decimal(out, (-(n as i128)) as u64);
        assert(out@ =~= old(out)@ + (seq!['-'] + decimal((-n) as nat)));
    } else {
        if n < 10 {
            out.append("0");
        }
        append_decimal(out, n as u64);
        assert(out@ =~= old(out)@ + two_wide(n as int));
    }
}

} // verus!
