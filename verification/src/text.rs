//! Building and comparing text.
use vstd::prelude::*;
use vstd::string::*;

verus! {

/// One text after the other.
pub fn concat(a: &str, b: &str) -> (r: String)
    ensures
        r@ == a@ + b@,
{
    let mut s = a.to_owned();
    s.append(b);
    s
}

/// The character of a decimal digit.
pub open spec fn digit_char(digit: int) -> char {
    if digit == 0 {
        '0'
    } else if digit == 1 {
        '1'
    } else if digit == 2 {
        '2'
    } else if digit == 3 {
        '3'
    } else if digit == 4 {
        '4'
    } else if digit == 5 {
        '5'
    } else if digit == 6 {
        '6'
    } else if digit == 7 {
        '7'
    } else if digit == 8 {
        '8'
    } else {
        '9'
    }
}

/// A number in decimal, without leading zeros.
pub open spec fn decimal(n: nat) -> Seq<char>
    decreases n,
{
    if n < 10 {
        seq![digit_char(n as int)]
    } else {
        decimal(n / 10).push(digit_char((n % 10) as int))
    }
}

/// A number in decimal, with a minus sign where it is below zero.
pub open spec fn signed_decimal(n: int) -> Seq<char> {
    if n < 0 {
        seq!['-'] + decimal((-n) as nat)
    } else {
        decimal(n as nat)
    }
}

/// Text filled up with leading zeros to the given width.
pub open spec fn zero_padded(text: Seq<char>, width: nat) -> Seq<char>
    decreases width,
{
    if text.len() >= width {
        text
    } else {
        seq!['0'] + zero_padded(text, (width - 1) as nat)
    }
}

fn digit_text(digit: u64) -> (r: &'static str)
    requires
        digit < 10,
    ensures
        r@ == seq![digit_char(digit as int)],
{
    proof {
        reveal_strlit("0");
        reveal_strlit("1");
        reveal_strlit("2");
        reveal_strlit("3");
        reveal_strlit("4");
        reveal_strlit("5");
        reveal_strlit("6");
        reveal_strlit("7");
        reveal_strlit("8");
        reveal_strlit("9");
    }
    let r = match digit {
        0 => "0",
        1 => "1",
        2 => "2",
        3 => "3",
        4 => "4",
        5 => "5",
        6 => "6",
        7 => "7",
        8 => "8",
        _ => "9",
    };
    assert(r@ =~= seq![digit_char(digit as int)]);
    r
}

/// A number in decimal.
pub fn format_decimal(n: u64) -> (r: String)
    ensures
        r@ == decimal(n as nat),
    decreases n,
{
    if n < 10 {
        digit_text(n).to_owned()
    } else {
        let mut s = format_decimal(n / 10);
        s.append(digit_text(n % 10));
        assert(s@ =~= decimal((n / 10) as nat).push(digit_char((n % 10) as int)));
        s
    }
}

/// A number in decimal, with a minus sign where it is below zero.
pub fn format_signed(n: i64) -> (r: String)
    ensures
        r@ == signed_decimal(n as int),
{
    if n >= 0 {
        format_decimal(n as u64)
    } else {
        proof {
            reveal_strlit("-");
        }
        let magnitude: u64 = if n == i64::MIN {
            9_223_372_036_854_775_808
        } else {
            (-n) as u64
        };
        let r = concat("-", format_decimal(magnitude).as_str());
        assert(r@ =~= signed_decimal(n as int));
        r
    }
}

/// Text filled up with leading zeros to the given width.
pub fn pad_with_zeros(digits: String, width: usize) -> (r: String)
    ensures
        r@ == zero_padded(digits@, width as nat),
    decreases width,
{
    if digits.as_str().unicode_len() >= width {
        digits
    } else {
        proof {
            reveal_strlit("0");
        }
        let rest = pad_with_zeros(digits, width - 1);
        let r = concat("0", rest.as_str());
        assert(r@ =~= seq!['0'] + rest@);
        r
    }
}

/// A number in decimal, with a leading zero where it has one digit.
pub fn format_two_digits(n: u8) -> (r: String)
    ensures
        r@ == zero_padded(decimal(n as nat), 2),
{
    let digits = format_decimal(n as u64);
    proof {
        reveal_with_fuel(zero_padded, 3);
        reveal_with_fuel(decimal, 4);
        reveal_strlit("0");
    }
    if n < 10 {
        let r = concat("0", digits.as_str());
        assert(r@ =~= zero_padded(decimal(n as nat), 2));
        r
    } else {
        assert(decimal(n as nat).len() >= 2);
        digits
    }
}

/// Text ends in the given suffix.
pub open spec fn is_suffix(text: Seq<char>, suffix: Seq<char>) -> bool {
    text.len() >= suffix.len() && text.skip(text.len() - suffix.len()) == suffix
}

/// Whether text ends in the given suffix.
pub fn ends_with(text: &str, suffix: &str) -> (r: bool)
    ensures
        r == is_suffix(text@, suffix@),
{
    let n: usize = text.unicode_len();
    let m: usize = suffix.unicode_len();
    if n < m {
        return false;
    }
    let end = text.substring_char(n - m, n).to_owned();
    assert(end@ =~= text@.skip(n - m));
    end == suffix.to_owned()
}

/// Text starts with the given prefix.
pub open spec fn is_prefix(text: Seq<char>, prefix: Seq<char>) -> bool {
    text.len() >= prefix.len() && text.take(prefix.len() as int) == prefix
}

/// Whether text starts with the given prefix.
pub fn starts_with(text: &str, prefix: &str) -> (r: bool)
    ensures
        r == is_prefix(text@, prefix@),
{
    let n: usize = text.unicode_len();
    let m: usize = prefix.unicode_len();
    if n < m {
        return false;
    }
    let start = text.substring_char(0, m).to_owned();
    assert(start@ =~= text@.take(m as int));
    start == prefix.to_owned()
}

/// The first text does not come after the second: where they first differ the character of the
/// first is the smaller one, or the first is the start of the second.
pub open spec fn text_le(a: Seq<char>, b: Seq<char>) -> bool
    decreases a.len(),
{
    if a.len() == 0 {
        true
    } else if b.len() == 0 {
        false
    } else if a[0] == b[0] {
        text_le(a.skip(1), b.skip(1))
    } else {
        (a[0] as int) < (b[0] as int)
    }
}

/// Whether the first text does not come after the second.
pub fn not_after(a: &str, b: &str) -> (r: bool)
    ensures
        r == text_le(a@, b@),
{
    let n: usize = a.unicode_len();
    let m: usize = b.unicode_len();
    let mut i: usize = 0;
    assert(a@.skip(0) =~= a@);
    assert(b@.skip(0) =~= b@);
    while i < n && i < m
        invariant
            n == a@.len(),
            m == b@.len(),
            i <= n,
            i <= m,
            text_le(a@, b@) == text_le(a@.skip(i as int), b@.skip(i as int)),
        decreases n - i,
    {
        let x = a.get_char(i);
        let y = b.get_char(i);
        assert(a@.skip(i as int)[0] == x);
        assert(b@.skip(i as int)[0] == y);
        if x != y {
            return (x as u32) < (y as u32);
        }
        assert(a@.skip(i as int).skip(1) =~= a@.skip(i + 1));
        assert(b@.skip(i as int).skip(1) =~= b@.skip(i + 1));
        i += 1;
    }
    i == n
}

/// The order of texts is total.
pub proof fn lemma_text_le_total(a: Seq<char>, b: Seq<char>)
    ensures
        text_le(a, b) || text_le(b, a),
    decreases a.len(),
{
    if a.len() > 0 && b.len() > 0 {
        if a[0] == b[0] {
            lemma_text_le_total(a.skip(1), b.skip(1));
        }
    }
}

/// The order of texts is transitive.
pub proof fn lemma_text_le_transitive(a: Seq<char>, b: Seq<char>, c: Seq<char>)
    requires
        text_le(a, b),
        text_le(b, c),
    ensures
        text_le(a, c),
    decreases a.len(),
{
    if a.len() > 0 && b.len() > 0 && c.len() > 0 && a[0] == b[0] && b[0] == c[0] {
        lemma_text_le_transitive(a.skip(1), b.skip(1), c.skip(1));
    }
}

/// Texts of which neither comes after the other are the same.
pub proof fn lemma_text_le_antisymmetric(a: Seq<char>, b: Seq<char>)
    requires
        text_le(a, b),
        text_le(b, a),
    ensures
        a == b,
    decreases a.len(),
{
    if a.len() > 0 && b.len() > 0 {
        assert(a[0] == b[0]);
        lemma_text_le_antisymmetric(a.skip(1), b.skip(1));
        assert(a =~= seq![a[0]] + a.skip(1));
        assert(b =~= seq![b[0]] + b.skip(1));
    } else {
        assert(a =~= b);
    }
}

/// Whether a character is white space.
pub open spec fn is_white_space(c: char) -> bool {
    let n = c as int;
    ||| 0x9 <= n <= 0xd
    ||| n == 0x20
    ||| n == 0x85
    ||| n == 0xa0
    ||| n == 0x1680
    ||| 0x2000 <= n <= 0x200a
    ||| n == 0x2028
    ||| n == 0x2029
    ||| n == 0x202f
    ||| n == 0x205f
    ||| n == 0x3000
}

fn white_space(c: char) -> (r: bool)
    ensures
        r == is_white_space(c),
{
    let n: u32 = c as u32;
    (0x9 <= n && n <= 0xd) || n == 0x20 || n == 0x85 || n == 0xa0 || n == 0x1680 || (0x2000 <= n
        && n <= 0x200a) || n == 0x2028 || n == 0x2029 || n == 0x202f || n == 0x205f || n == 0x3000
}

/// There is nothing but white space.
pub open spec fn is_blank(text: Seq<char>) -> bool {
    forall|i: int| 0 <= i < text.len() ==> is_white_space(#[trigger] text[i])
}

/// Whether there is nothing but white space.
pub fn blank(text: &str) -> (r: bool)
    ensures
        r == is_blank(text@),
{
    let n: usize = text.unicode_len();
    let mut i: usize = 0;
    while i < n
        invariant
            i <= n,
            n == text@.len(),
            forall|j: int| 0 <= j < i ==> is_white_space(#[trigger] text@[j]),
        decreases n - i,
    {
        if !white_space(text.get_char(i)) {
            return false;
        }
        i += 1;
    }
    true
}

/// Text without the white space that it starts with.
pub open spec fn without_lead(text: Seq<char>) -> Seq<char>
    decreases text.len(),
{
    if text.len() > 0 && is_white_space(text[0]) {
        without_lead(text.skip(1))
    } else {
        text
    }
}

/// The text up to its first white space.
pub open spec fn first_run(text: Seq<char>) -> Seq<char>
    decreases text.len(),
{
    if text.len() == 0 || is_white_space(text[0]) {
        Seq::empty()
    } else {
        seq![text[0]] + first_run(text.skip(1))
    }
}

/// What follows the text up to its first white space.
pub open spec fn after_run(text: Seq<char>) -> Seq<char> {
    text.skip(first_run(text).len() as int)
}

/// Text without the white space that it ends with.
pub open spec fn without_trail(text: Seq<char>) -> Seq<char>
    decreases text.len(),
{
    if text.len() > 0 && is_white_space(text.last()) {
        without_trail(text.drop_last())
    } else {
        text
    }
}

/// Text without white space around it.
pub open spec fn trimmed(text: Seq<char>) -> Seq<char> {
    without_trail(without_lead(text))
}

/// Text without white space around it.
pub fn trim(text: &str) -> (r: String)
    ensures
        r@ == trimmed(text@),
{
    let n: usize = text.unicode_len();
    let mut from: usize = 0;
    assert(text@.skip(0) =~= text@);
    while from < n && white_space(text.get_char(from))
        invariant
            from <= n,
            n == text@.len(),
            without_lead(text@) == without_lead(text@.skip(from as int)),
        decreases n - from,
    {
        assert(text@.skip(from as int).skip(1) =~= text@.skip(from + 1));
        from += 1;
    }
    let ghost rest = text@.skip(from as int);
    let mut to: usize = n;
    assert(text@.subrange(from as int, to as int) =~= rest);
    assert(from < n ==> rest[0] == text@[from as int]);
    while to > from && white_space(text.get_char((to - 1) as usize))
        invariant
            from <= to <= n,
            n == text@.len(),
            without_lead(text@) == rest,
            without_trail(rest) == without_trail(text@.subrange(from as int, to as int)),
        decreases to - from,
    {
        assert(text@.subrange(from as int, to as int).drop_last() =~= text@.subrange(
            from as int,
            to - 1,
        ));
        to -= 1;
    }
    text.substring_char(from, to).to_owned()
}

/// Splits the first word off a text: the word, empty where there is none, and what follows it.
pub fn split_word(text: &str) -> (r: (String, String))
    ensures
        r.0@ == first_run(without_lead(text@)),
        r.1@ == after_run(without_lead(text@)),
{
    let n: usize = text.unicode_len();
    let mut from: usize = 0;
    assert(text@.skip(0) =~= text@);
    while from < n && white_space(text.get_char(from))
        invariant
            from <= n,
            n == text@.len(),
            without_lead(text@) == without_lead(text@.skip(from as int)),
        decreases n - from,
    {
        assert(text@.skip(from as int).skip(1) =~= text@.skip(from + 1));
        from += 1;
    }
    let ghost rest = text@.skip(from as int);
    assert(from < n ==> rest[0] == text@[from as int]);
    let mut to: usize = from;
    assert(text@.subrange(from as int, from as int) + first_run(rest) =~= first_run(rest));
    while to < n && !white_space(text.get_char(to))
        invariant
            from <= to <= n,
            n == text@.len(),
            rest == text@.skip(from as int),
            first_run(rest) == text@.subrange(from as int, to as int) + first_run(
                text@.skip(to as int),
            ),
        decreases n - to,
    {
        assert(text@.skip(to as int).skip(1) =~= text@.skip(to + 1));
        assert(text@.subrange(from as int, to as int) + (seq![text@[to as int]] + first_run(
            text@.skip(to + 1),
        )) =~= text@.subrange(from as int, to + 1) + first_run(text@.skip(to + 1)));
        to += 1;
    }
    assert(first_run(text@.skip(to as int)) =~= Seq::<char>::empty());
    assert(first_run(rest) =~= text@.subrange(from as int, to as int));
    let word = text.substring_char(from, to).to_owned();
    let after = text.substring_char(to, n).to_owned();
    assert(after@ =~= after_run(rest));
    (word, after)
}

/// Why a text is no number.
#[derive(Clone, Copy, Debug, Eq, PartialEq, Structural)]
pub enum NumberError {
    Empty,
    InvalidDigit,
    TooLarge,
}

/// The digit that a character is.
pub open spec fn digit_of(c: char, hexadecimal: bool) -> Option<int> {
    let n = c as int;
    if 0x30 <= n <= 0x39 {
        Some(n - 0x30)
    } else if hexadecimal && 0x61 <= n <= 0x66 {
        Some(n - 0x61 + 10)
    } else if hexadecimal && 0x41 <= n <= 0x46 {
        Some(n - 0x41 + 10)
    } else {
        None
    }
}

fn read_digit(c: char, hexadecimal: bool) -> (r: Option<u32>)
    ensures
        match digit_of(c, hexadecimal) {
            Some(d) => r matches Some(e) && e == d && e < (if hexadecimal {
                16
            } else {
                10int
            }),
            None => r is None,
        },
{
    let n: u32 = c as u32;
    if 0x30 <= n && n <= 0x39 {
        Some(n - 0x30)
    } else if hexadecimal && 0x61 <= n && n <= 0x66 {
        Some(n - 0x61 + 10)
    } else if hexadecimal && 0x41 <= n && n <= 0x46 {
        Some(n - 0x41 + 10)
    } else {
        None
    }
}

/// The number that digits make up, or what is wrong with the first one at which anything is.
pub open spec fn digits_of(text: Seq<char>, hexadecimal: bool, max: u32) -> Result<u32, NumberError>
    decreases text.len(),
{
    if text.len() == 0 {
        Ok(0)
    } else {
        match digits_of(text.drop_last(), hexadecimal, max) {
            Err(e) => Err(e),
            Ok(n) => match digit_of(text.last(), hexadecimal) {
                None => Err(NumberError::InvalidDigit),
                Some(d) => {
                    let next = if hexadecimal {
                        n * 16 + d
                    } else {
                        n * 10 + d
                    };
                    if next > max {
                        Err(NumberError::TooLarge)
                    } else {
                        Ok(next as u32)
                    }
                },
            },
        }
    }
}

/// The number that a text is: digits, with a plus sign in front or not.
pub open spec fn number_of(text: Seq<char>, hexadecimal: bool, max: u32) -> Result<
    u32,
    NumberError,
> {
    if text.len() == 0 {
        Err(NumberError::Empty)
    } else if text[0] == '+' && text.len() > 1 {
        digits_of(text.skip(1), hexadecimal, max)
    } else {
        digits_of(text, hexadecimal, max)
    }
}

proof fn lemma_digits_refused(text: Seq<char>, hexadecimal: bool, max: u32, n: int)
    requires
        0 <= n <= text.len(),
        digits_of(text.take(n), hexadecimal, max) is Err,
    ensures
        digits_of(text, hexadecimal, max) == digits_of(text.take(n), hexadecimal, max),
    decreases text.len() - n,
{
    if n < text.len() {
        assert(text.take(n + 1).drop_last() =~= text.take(n));
        lemma_digits_refused(text, hexadecimal, max, n + 1);
    } else {
        assert(text.take(n) =~= text);
    }
}

/// The number that a text is, if it is none above the given one.
pub fn parse_number(text: &str, hexadecimal: bool, max: u32) -> (r: Result<u32, NumberError>)
    ensures
        r == number_of(text@, hexadecimal, max),
{
    let n: usize = text.unicode_len();
    if n == 0 {
        return Err(NumberError::Empty);
    }
    let signed = n > 1 && text.get_char(0) == '+';
    let from: usize = if signed {
        1
    } else {
        0
    };
    let ghost digits = text@.skip(from as int);
    assert(!signed ==> digits =~= text@);
    assert(number_of(text@, hexadecimal, max) == digits_of(digits, hexadecimal, max));
    let mut value: u32 = 0;
    let mut i: usize = from;
    assert(digits.take(0) =~= Seq::<char>::empty());
    while i < n
        invariant
            from <= i <= n,
            n == text@.len(),
            digits == text@.skip(from as int),
            number_of(text@, hexadecimal, max) == digits_of(digits, hexadecimal, max),
            digits_of(digits.take(i - from), hexadecimal, max) == Ok::<u32, NumberError>(value),
        decreases n - i,
    {
        let ghost at = i - from;
        assert(digits.take(at + 1).drop_last() =~= digits.take(at));
        assert(digits.take(at + 1).last() == text@[i as int]);
        match read_digit(text.get_char(i), hexadecimal) {
            None => {
                proof {
                    lemma_digits_refused(digits, hexadecimal, max, at + 1);
                }
                return Err(NumberError::InvalidDigit);
            },
            Some(d) => {
                let radix: u64 = if hexadecimal {
                    16
                } else {
                    10
                };
                assert(value as u64 * radix <= 0xffff_ffff * 16) by (nonlinear_arith)
                    requires
                        value <= 0xffff_ffff,
                        radix <= 16,
                ;
                let next: u64 = value as u64 * radix + d as u64;
                if next > max as u64 {
                    proof {
                        lemma_digits_refused(digits, hexadecimal, max, at + 1);
                    }
                    return Err(NumberError::TooLarge);
                }
                value = next as u32;
            },
        }
        i += 1;
    }
    assert(digits.take(n - from) =~= digits);
    Ok(value)
}

/// Two texts that differ are ordered by the characters where they first do, and a text comes before all
/// that start with it.
pub proof fn lemma_order_by_first_difference(a: Seq<char>, b: Seq<char>, at: int)
    requires
        0 <= at <= a.len(),
        at <= b.len(),
        forall|i: int| 0 <= i < at ==> a[i] == b[i],
    ensures
        at < a.len() && at < b.len() && a[at] != b[at] ==> text_le(a, b) == ((a[at] as int) < (
        b[at] as int)),
        at == a.len() ==> text_le(a, b),
        at == b.len() && at < a.len() ==> !text_le(a, b),
    decreases at,
{
    if at > 0 {
        assert(a[0] == b[0]);
        assert forall|i: int| 0 <= i < at - 1 implies a.skip(1)[i] == b.skip(1)[i] by {
            assert(a[i + 1] == b[i + 1]);
        }
        lemma_order_by_first_difference(a.skip(1), b.skip(1), at - 1);
    }
}

/// A number that is written down is read back.
pub proof fn lemma_number_reads_back(n: u32, max: u32)
    ensures
        n <= max ==> number_of(decimal(n as nat), false, max) == Ok::<u32, NumberError>(n),
        n > max ==> number_of(decimal(n as nat), false, max) == Err::<u32, NumberError>(
            NumberError::TooLarge,
        ),
        n <= max ==> number_of(seq!['+'] + decimal(n as nat), false, max) == Ok::<u32, NumberError>(n),
        signed_decimal(n as int) == decimal(n as nat),
        n > 0 ==> signed_decimal(-(n as int)) == seq!['-'] + decimal(n as nat),
{
    lemma_digits_read_back(n as nat, max);
    let text = decimal(n as nat);
    assert((seq!['+'] + text).skip(1) =~= text);
}

proof fn lemma_digits_read_back(n: nat, max: u32)
    ensures
        decimal(n).len() > 0,
        forall|i: int|
            0 <= i < decimal(n).len() ==> digit_of(#[trigger] decimal(n)[i], false) is Some,
        decimal(n)[0] != '+',
        digits_of(decimal(n), false, max) == (if n <= max {
            Ok::<u32, NumberError>(n as u32)
        } else {
            Err::<u32, NumberError>(NumberError::TooLarge)
        }),
    decreases n,
{
    let d = digit_char((n % 10) as int);
    assert(digit_of(d, false) == Some((n % 10) as int));
    let before = if n < 10 {
        Seq::<char>::empty()
    } else {
        decimal(n / 10)
    };
    if n >= 10 {
        lemma_digits_read_back(n / 10, max);
    } else {
        assert(decimal(n) =~= before.push(d));
    }
    assert(decimal(n).drop_last() =~= before);
    assert(decimal(n).last() == d);
    assert(n == (n / 10) * 10 + n % 10);
    assert(digits_of(before, false, max) == (if n / 10 <= max {
        Ok::<u32, NumberError>((n / 10) as u32)
    } else {
        Err::<u32, NumberError>(NumberError::TooLarge)
    }));
    assert forall|i: int| 0 <= i < decimal(n).len() implies digit_of(
        #[trigger] decimal(n)[i],
        false,
    ) is Some by {
        if i < before.len() {
            assert(decimal(n)[i] == before[i]);
        }
    }
    assert(digit_of(decimal(n)[0], false) is Some);
}

/// A hexadecimal digit is read alike in either case, and the digits of a number count by sixteen.
pub proof fn lemma_hexadecimal_digits(text: Seq<char>, last: char, max: u32)
    requires
        text.len() > 0,
        text[0] != '+',
        number_of(text, true, max) is Ok,
    ensures
        ('a' <= last && last <= 'f') ==> number_of(text.push(last), true, max) == (if 16
            * number_of(text, true, max)->Ok_0 + (last as int - 'a' as int) + 10 <= max {
            Ok::<u32, NumberError>(
                (16 * number_of(text, true, max)->Ok_0 + (last as int - 'a' as int) + 10) as u32,
            )
        } else {
            Err::<u32, NumberError>(NumberError::TooLarge)
        }),
        ('A' <= last && last <= 'F') ==> number_of(text.push(last), true, max) == (if 16
            * number_of(text, true, max)->Ok_0 + (last as int - 'A' as int) + 10 <= max {
            Ok::<u32, NumberError>(
                (16 * number_of(text, true, max)->Ok_0 + (last as int - 'A' as int) + 10) as u32,
            )
        } else {
            Err::<u32, NumberError>(NumberError::TooLarge)
        }),
        ('0' <= last && last <= '9') ==> number_of(text.push(last), true, max) == (if 16
            * number_of(text, true, max)->Ok_0 + (last as int - '0' as int) <= max {
            Ok::<u32, NumberError>(
                (16 * number_of(text, true, max)->Ok_0 + (last as int - '0' as int)) as u32,
            )
        } else {
            Err::<u32, NumberError>(NumberError::TooLarge)
        }),
{
    assert(text.push(last).drop_last() =~= text);
}

/// A text that is padded stands behind noughts, as many as it lacks to the width.
pub proof fn lemma_padding_is_noughts(text: Seq<char>, width: nat)
    ensures
        zero_padded(text, width).len() == if text.len() < width {
            width
        } else {
            text.len()
        },
        is_suffix(zero_padded(text, width), text),
        forall|i: int|
            0 <= i < zero_padded(text, width).len() - text.len() ==> (#[trigger] zero_padded(
                text,
                width,
            )[i]) == '0',
    decreases width,
{
    let padded = zero_padded(text, width);
    if text.len() < width {
        lemma_padding_is_noughts(text, (width - 1) as nat);
        let shorter = zero_padded(text, (width - 1) as nat);
        assert(padded =~= seq!['0'] + shorter);
        assert forall|i: int| 0 <= i < padded.len() - text.len() implies (#[trigger] padded[i])
            == '0' by {
            if i > 0 {
                assert(padded[i] == shorter[i - 1]);
            }
        }
        assert(padded.skip(padded.len() - text.len()) =~= shorter.skip(shorter.len() - text.len()));
    } else {
        assert(padded.skip(0) =~= text);
    }
}

/// A text without the white space around it starts and ends with something else, and nothing but white
/// space is missing.
pub proof fn lemma_only_white_space_is_trimmed(text: Seq<char>)
    ensures
        ({
            let inner = trimmed(text);
            &&& inner.len() > 0 ==> !is_white_space(inner[0]) && !is_white_space(inner.last())
            &&& exists|from: int, to: int|
                0 <= from <= to <= text.len() && inner == #[trigger] text.subrange(from, to)
                    && is_blank(text.take(from)) && is_blank(text.skip(to))
        }),
{
    let head = without_lead(text);
    lemma_lead(text);
    lemma_trail(head);
    let inner = trimmed(text);
    let from = text.len() - head.len();
    let to = from + inner.len();
    assert(inner =~= text.subrange(from, to)) by {
        assert forall|i: int| 0 <= i < inner.len() implies inner[i] == text.subrange(from, to)[i] by {
            assert(inner[i] == head[i]);
            assert(head[i] == text[from + i]);
        }
    }
    assert(is_blank(text.skip(to))) by {
        assert forall|i: int| 0 <= i < text.skip(to).len() implies is_white_space(
            #[trigger] text.skip(to)[i],
        ) by {
            assert(head.skip(inner.len() as int)[i] == head[inner.len() + i]);
            assert(head[inner.len() + i] == text[from + inner.len() + i]);
        }
    }
}

proof fn lemma_lead(text: Seq<char>)
    ensures
        without_lead(text).len() <= text.len(),
        without_lead(text) == text.skip(text.len() - without_lead(text).len()),
        is_blank(text.take(text.len() - without_lead(text).len())),
        without_lead(text).len() > 0 ==> !is_white_space(without_lead(text)[0]),
    decreases text.len(),
{
    if text.len() > 0 && is_white_space(text[0]) {
        let rest = text.skip(1);
        lemma_lead(rest);
        let left = without_lead(rest);
        assert(left =~= text.skip(text.len() - left.len()));
        let lead = text.take(text.len() - left.len());
        assert forall|i: int| 0 <= i < lead.len() implies is_white_space(#[trigger] lead[i]) by {
            if i > 0 {
                assert(rest.take(rest.len() - left.len())[i - 1] == lead[i]);
            }
        }
    } else {
        assert(text =~= text.skip(0));
    }
}

proof fn lemma_trail(text: Seq<char>)
    ensures
        without_trail(text).len() <= text.len(),
        without_trail(text) == text.take(without_trail(text).len() as int),
        is_blank(text.skip(without_trail(text).len() as int)),
        without_trail(text).len() > 0 ==> !is_white_space(without_trail(text).last()),
    decreases text.len(),
{
    if text.len() > 0 && is_white_space(text.last()) {
        let rest = text.drop_last();
        lemma_trail(rest);
        let left = without_trail(rest);
        assert(left =~= text.take(left.len() as int));
        let trail = text.skip(left.len() as int);
        assert forall|i: int| 0 <= i < trail.len() implies is_white_space(#[trigger] trail[i]) by {
            if i < trail.len() - 1 {
                assert(rest.skip(left.len() as int)[i] == trail[i]);
            }
        }
    } else {
        assert(text =~= text.take(text.len() as int));
    }
}

/// A run is what stands before the first white space, and the rest stands behind it.
pub proof fn lemma_run_ends_at_white_space(text: Seq<char>)
    ensures
        text == first_run(text) + after_run(text),
        forall|i: int|
            0 <= i < first_run(text).len() ==> !is_white_space(#[trigger] first_run(text)[i]),
        after_run(text).len() > 0 ==> is_white_space(after_run(text)[0]),
    decreases text.len(),
{
    if text.len() == 0 || is_white_space(text[0]) {
        assert(text =~= first_run(text) + after_run(text));
    } else {
        let rest = text.skip(1);
        lemma_run_ends_at_white_space(rest);
        let run = first_run(text);
        assert(run =~= seq![text[0]] + first_run(rest));
        assert forall|i: int| 0 <= i < run.len() implies !is_white_space(#[trigger] run[i]) by {
            if i > 0 {
                assert(run[i] == first_run(rest)[i - 1]);
            }
        }
        assert(after_run(text) =~= after_run(rest));
        assert(text =~= run + after_run(text)) by {
            assert(rest == first_run(rest) + after_run(rest));
            assert(text =~= seq![text[0]] + rest);
        }
    }
}

/// A text that is put together starts with its front and ends with its end.
pub proof fn lemma_parts_stand_at_ends(front: Seq<char>, end: Seq<char>)
    ensures
        is_prefix(front + end, front),
        is_suffix(front + end, end),
{
    assert((front + end).take(front.len() as int) =~= front);
    assert((front + end).skip(front.len() as int) =~= end);
}

/// A run with nothing or white space behind it is found as it is.
pub proof fn lemma_run_is_found(run: Seq<char>, rest: Seq<char>)
    requires
        forall|i: int| 0 <= i < run.len() ==> !is_white_space(#[trigger] run[i]),
        rest.len() == 0 || is_white_space(rest[0]),
    ensures
        first_run(run + rest) == run,
        after_run(run + rest) == rest,
    decreases run.len(),
{
    let text = run + rest;
    if run.len() == 0 {
        assert(text =~= rest);
        assert(first_run(text) =~= run);
    } else {
        assert(text.skip(1) =~= run.skip(1) + rest);
        assert forall|i: int| 0 <= i < run.len() - 1 implies !is_white_space(
            #[trigger] run.skip(1)[i],
        ) by {
            assert(!is_white_space(run[i + 1]));
        }
        assert(!is_white_space(run[0]));
        lemma_run_is_found(run.skip(1), rest);
        assert(seq![run[0]] + run.skip(1) =~= run);
    }
    assert(text.skip(run.len() as int) =~= rest);
}

} // verus!
