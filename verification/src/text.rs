//! Text as the rest of the library uses it: numbers written out and read back,
//! blank text, case-insensitive search.

use vstd::prelude::*;

verus! {

/// The characters with Unicode's `White_Space` property.
pub open spec fn white_space(c: char) -> bool {
    ||| 0x09 <= c as int <= 0x0d
    ||| c as int == 0x20
    ||| c as int == 0x85
    ||| c as int == 0xa0
    ||| c as int == 0x1680
    ||| 0x2000 <= c as int <= 0x200a
    ||| c as int == 0x2028
    ||| c as int == 0x2029
    ||| c as int == 0x202f
    ||| c as int == 0x205f
    ||| c as int == 0x3000
}

/// `char::is_whitespace`: true exactly of the characters with the
/// `White_Space` property, which `white_space` lists.
pub assume_specification[ char::is_whitespace ](c: char) -> (res: bool)
    ensures
        res == white_space(c),
;

/// The lower case form of a text, by Unicode's rules.
pub uninterp spec fn lowercase(s: Seq<char>) -> Seq<char>;

/// `str::to_lowercase`: the result depends on the text alone and is named
/// `lowercase`.
pub assume_specification[ str::to_lowercase ](s: &str) -> (res: String)
    ensures
        res@ == lowercase(s@),
;

/// `String::push`: appends the character.
pub assume_specification[ String::push ](s: &mut String, c: char)
    ensures
        final(s)@ == old(s)@.push(c),
;

/// What a list of texts says.
pub open spec fn texts(s: Seq<String>) -> Seq<Seq<char>> {
    s.map_values(|t: String| t@)
}

/// The characters of a text, one by one.
pub fn chars_of(s: &str) -> (res: Vec<char>)
    ensures
        res@ == s@,
{
    let mut res: Vec<char> = Vec::new();
    for c in it: s.chars()
        invariant
            res@ == s@.take(it.index()),
            it.seq() == s@,
    {
        res.push(c);
        assert(s@.take(it.index() + 1) == s@.take(it.index()).push(s@[it.index()]));
    }
    assert(s@.take(s@.len() as int) == s@);
    res
}

/// The text that the characters spell.
pub fn text_of(chars: &[char]) -> (res: String)
    ensures
        res@ == chars@,
{
    let mut res = String::new();
    let mut i: usize = 0;
    while i < chars.len()
        invariant
            i <= chars@.len(),
            res@ == chars@.take(i as int),
        decreases chars@.len() - i,
    {
        res.push(chars[i]);
        i += 1;
        assert(chars@.take(i as int) == chars@.take(i - 1).push(chars@[i - 1]));
    }
    assert(chars@.take(chars@.len() as int) == chars@);
    res
}

/// Whether two texts are the same, character by character.
pub fn same_text(a: &str, b: &str) -> (res: bool)
    ensures
        res == (a@ == b@),
{
    a.to_owned() == b.to_owned()
}

/// Two texts, one after the other.
pub fn concat2(a: &str, b: &str) -> (res: String)
    ensures
        res@ == a@ + b@,
{
    let mut res = a.to_owned();
    res.append(b);
    res
}

/// Three texts, one after the other.
pub fn concat3(a: &str, b: &str, c: &str) -> (res: String)
    ensures
        res@ == a@ + b@ + c@,
{
    let mut res = concat2(a, b);
    res.append(c);
    res
}

/// Five texts, one after the other.
pub fn concat5(a: &str, b: &str, c: &str, d: &str, e: &str) -> (res: String)
    ensures
        res@ == a@ + b@ + c@ + d@ + e@,
{
    let mut res = concat3(a, b, c);
    res.append(d);
    res.append(e);
    res
}

// ---------------------------------------------------------------------
// Numbers written out
// ---------------------------------------------------------------------

pub open spec fn digit_char(d: int) -> char {
    (48 + d) as char
}

/// The decimal digits of a natural number, without leading zeros.
pub open spec fn digits(n: nat) -> Seq<char>
    decreases n,
{
    if n < 10 {
        seq![digit_char(n as int)]
    } else {
        digits(n / 10).push(digit_char((n % 10) as int))
    }
}

pub open spec fn sign(n: int) -> Seq<char> {
    if n < 0 {
        seq!['-']
    } else {
        Seq::empty()
    }
}

pub open spec fn magnitude(n: int) -> nat {
    if n < 0 {
        (-n) as nat
    } else {
        n as nat
    }
}

/// A number in decimal notation, as `{}` writes it.
pub open spec fn decimal(n: int) -> Seq<char> {
    sign(n) + digits(magnitude(n))
}

/// `count` zeros; none when `count` is negative.
pub open spec fn zeros(count: int) -> Seq<char> {
    Seq::new(
        if count < 0 {
            0
        } else {
            count as nat
        },
        |i: int| '0',
    )
}

/// A number in decimal notation, with zeros between the sign and the digits
/// until it is at least `width` characters long, as `{:0width$}` writes it.
pub open spec fn zero_padded(n: int, width: int) -> Seq<char> {
    let body = digits(magnitude(n));
    sign(n) + zeros(width - sign(n).len() - body.len()) + body
}

fn push_digits(out: &mut String, n: u64)
    ensures
        final(out)@ == old(out)@ + digits(n as nat),
    decreases n,
{
    if n >= 10 {
        push_digits(out, n / 10);
    }
    out.push((48u8 + (n % 10) as u8) as char);
}

fn magnitude_of(n: i64) -> (res: u64)
    ensures
        res == magnitude(n as int),
{
    if n < 0 {
        (-(n as i128)) as u64
    } else {
        n as u64
    }
}

/// Writes a count in decimal notation.
pub fn count_text(n: usize) -> (res: String)
    ensures
        res@ == decimal(n as int),
{
    let mut res = String::new();
    push_digits(&mut res, n as u64);
    assert(res@ == decimal(n as int));
    res
}

/// Writes a number in decimal notation.
pub fn number_text(n: i64) -> (res: String)
    ensures
        res@ == decimal(n as int),
{
    let mut res = String::new();
    if n < 0 {
        res.push('-');
    }
    assert(res@ == sign(n as int));
    push_digits(&mut res, magnitude_of(n));
    res
}

/// Writes a number in decimal notation, padded with zeros to `width`
/// characters.
pub fn padded_text(n: i64, width: usize) -> (res: String)
    ensures
        res@ == zero_padded(n as int, width as int),
{
    let mut body = String::new();
    push_digits(&mut body, magnitude_of(n));
    let ghost shown = digits(magnitude(n as int));
    assert(body@ == shown);
    let mut res = String::new();
    if n < 0 {
        res.push('-');
    }
    assert(res@ == sign(n as int));
    proof {
        lemma_digits_short(magnitude(n as int) as u64);
    }
    let used: usize = res.as_str().unicode_len() + body.as_str().unicode_len();
    let ghost missing = width - sign(n as int).len() - shown.len();
    let mut i: usize = used;
    assert(zeros(0) == Seq::<char>::empty());
    while i < width
        invariant
            used <= i,
            i <= width || i == used,
            used == sign(n as int).len() + shown.len(),
            res@ == sign(n as int) + zeros(i - used),
        decreases width - i,
    {
        res.push('0');
        i += 1;
        assert(zeros(i - used) == zeros(i - 1 - used).push('0'));
    }
    assert(zeros(i - used) == zeros(missing));
    res.append(body.as_str());
    res
}

spec fn power_of_ten(k: nat) -> nat
    decreases k,
{
    if k == 0 {
        1
    } else {
        10 * power_of_ten((k - 1) as nat)
    }
}

proof fn lemma_digits_len(n: nat, k: nat)
    requires
        1 <= k,
        n < power_of_ten(k),
    ensures
        1 <= digits(n).len() <= k,
    decreases n,
{
    if n >= 10 {
        if k == 1 {
            assert(power_of_ten(1) == 10) by {
                reveal_with_fuel(power_of_ten, 2);
            }
        }
        lemma_digits_len(n / 10, (k - 1) as nat);
    }
}

proof fn lemma_digits_short(n: u64)
    ensures
        1 <= digits(n as nat).len() <= 20,
{
    reveal_with_fuel(power_of_ten, 21);
    lemma_digits_len(n as nat, 20);
}

// ---------------------------------------------------------------------
// Numbers read back
// ---------------------------------------------------------------------

pub open spec fn is_digit(c: char) -> bool {
    48 <= c as int <= 57
}

/// At least one digit and nothing else.
pub open spec fn all_digits(s: Seq<char>) -> bool {
    s.len() > 0 && forall|i: int| 0 <= i < s.len() ==> #[trigger] is_digit(s[i])
}

/// The number that a run of digits stands for.
pub open spec fn digits_value(s: Seq<char>) -> nat
    decreases s.len(),
{
    if s.len() == 0 {
        0
    } else {
        (digits_value(s.drop_last()) * 10 + (s.last() as int - 48)) as nat
    }
}

/// The number a text denotes: digits, after an optional `+` and, where
/// `signed`, an optional `-`.
pub open spec fn number_value(s: Seq<char>, signed: bool) -> Option<int> {
    let rest = s.drop_first();
    if s.len() > 0 && s[0] == '+' {
        if all_digits(rest) {
            Some(digits_value(rest) as int)
        } else {
            None
        }
    } else if s.len() > 0 && s[0] == '-' && signed {
        if all_digits(rest) {
            Some(-digits_value(rest))
        } else {
            None
        }
    } else if all_digits(s) {
        Some(digits_value(s) as int)
    } else {
        None
    }
}

/// The number a text denotes, if it lies between `low` and `high`.
pub open spec fn number_in(s: Seq<char>, signed: bool, low: int, high: int) -> Option<int> {
    match number_value(s, signed) {
        Some(n) => if low <= n <= high {
            Some(n)
        } else {
            None
        },
        None => None,
    }
}

/// Reads the digits of `chars` from `start` on: their value, or `None` when
/// something else stands there or the value exceeds `u64::MAX`.
fn read_digits(chars: &Vec<char>, start: usize) -> (res: Option<u64>)
    requires
        start <= chars@.len(),
    ensures
        ({
            let s = chars@.skip(start as int);
            match res {
                Some(n) => all_digits(s) && n == digits_value(s),
                None => !all_digits(s) || digits_value(s) > u64::MAX,
            }
        }),
{
    let ghost s = chars@.skip(start as int);
    if start == chars.len() {
        return None;
    }
    let mut i: usize = start;
    let mut total: u64 = 0;
    let mut huge: bool = false;
    assert(s.take(0) == Seq::<char>::empty());
    while i < chars.len()
        invariant
            start <= i <= chars@.len(),
            s == chars@.skip(start as int),
            forall|k: int| 0 <= k < i - start ==> #[trigger] is_digit(s[k]),
            !huge ==> total == digits_value(s.take(i - start)),
            huge ==> digits_value(s.take(i - start)) > u64::MAX,
        decreases chars@.len() - i,
    {
        let c: char = chars[i];
        assert(s[i - start] == c);
        if c < '0' || c > '9' {
            assert(!is_digit(s[i - start]));
            return None;
        }
        let d: u64 = (c as u32 - 48) as u64;
        let ghost longer = s.take(i - start + 1);
        assert(longer.drop_last() == s.take(i - start));
        assert(longer.last() == c);
        assert(is_digit(s[i - start]));
        if !huge {
            let next: u128 = total as u128 * 10 + d as u128;
            if next > u64::MAX as u128 {
                huge = true;
            } else {
                total = next as u64;
            }
        }
        i += 1;
    }
    assert(s.take(i - start) == s);
    if huge {
        None
    } else {
        Some(total)
    }
}

/// Reads a number between `low` and `high`.
fn read_number(s: &str, signed: bool, low: i128, high: i128) -> (res: Option<i128>)
    requires
        -0x8000_0000_0000_0000 <= low <= high <= u64::MAX,
    ensures
        match res {
            Some(n) => number_in(s@, signed, low as int, high as int) == Some(n as int),
            None => number_in(s@, signed, low as int, high as int) is None,
        },
{
    let chars = chars_of(s);
    assert(chars@.skip(0) == chars@);
    assert(chars@.len() > 0 ==> chars@.skip(1) == chars@.drop_first());
    let mut start: usize = 0;
    let mut negative = false;
    if chars.len() > 0 {
        if chars[0] == '+' {
            start = 1;
        } else if signed && chars[0] == '-' {
            start = 1;
            negative = true;
        }
    }
    match read_digits(&chars, start) {
        Some(n) => {
            let value: i128 = if negative {
                -(n as i128)
            } else {
                n as i128
            };
            if low <= value && value <= high {
                Some(value)
            } else {
                None
            }
        },
        None => None,
    }
}

/// The `i64` that a text denotes.
pub fn parse_i64(s: &str) -> (res: Option<i64>)
    ensures
        match res {
            Some(n) => number_in(s@, true, i64::MIN as int, i64::MAX as int) == Some(n as int),
            None => number_in(s@, true, i64::MIN as int, i64::MAX as int) is None,
        },
{
    match read_number(s, true, i64::MIN as i128, i64::MAX as i128) {
        Some(n) => Some(n as i64),
        None => None,
    }
}

/// The `i32` that a text denotes.
pub fn parse_i32(s: &str) -> (res: Option<i32>)
    ensures
        match res {
            Some(n) => number_in(s@, true, i32::MIN as int, i32::MAX as int) == Some(n as int),
            None => number_in(s@, true, i32::MIN as int, i32::MAX as int) is None,
        },
{
    match read_number(s, true, i32::MIN as i128, i32::MAX as i128) {
        Some(n) => Some(n as i32),
        None => None,
    }
}

/// The `usize` that a text denotes.
pub fn parse_usize(s: &str) -> (res: Option<usize>)
    ensures
        match res {
            Some(n) => number_in(s@, false, 0, usize::MAX as int) == Some(n as int),
            None => number_in(s@, false, 0, usize::MAX as int) is None,
        },
{
    match read_number(s, false, 0, usize::MAX as i128) {
        Some(n) => Some(n as usize),
        None => None,
    }
}

proof fn lemma_digits_read_back(n: nat)
    ensures
        all_digits(digits(n)),
        digits_value(digits(n)) == n,
    decreases n,
{
    reveal_with_fuel(digits_value, 2);
    if n < 10 {
        assert(digits(n).drop_last() == Seq::<char>::empty());
    } else {
        lemma_digits_read_back(n / 10);
        assert(digits(n).drop_last() == digits(n / 10));
        assert forall|i: int| 0 <= i < digits(n).len() implies #[trigger] is_digit(
            digits(n)[i],
        ) by {
            if i < digits(n / 10).len() {
                assert(is_digit(digits(n / 10)[i]));
            }
        }
    }
}

/// A number is written with digits, and a minus sign.
pub proof fn lemma_decimal_alphabet(n: int)
    ensures
        decimal(n).len() > 0,
        forall|i: int|
            0 <= i < decimal(n).len() ==> (#[trigger] decimal(n)[i]) == '-' || is_digit(
                decimal(n)[i],
            ),
{
    let shown = digits(magnitude(n));
    lemma_digits_read_back(magnitude(n));
    assert forall|i: int| 0 <= i < decimal(n).len() implies (#[trigger] decimal(n)[i]) == '-'
        || is_digit(decimal(n)[i]) by {
        let k = i - sign(n).len();
        if k >= 0 {
            assert(is_digit(shown[k]));
        }
    }
}

/// A number that was written out reads back as itself.
pub proof fn law_decimal_reads_back(n: int)
    ensures
        number_value(decimal(n), true) == Some(n),
        n >= 0 ==> number_value(decimal(n), false) == Some(n),
{
    lemma_digits_read_back(magnitude(n));
    let body = digits(magnitude(n));
    assert(is_digit(body[0]));
    if n < 0 {
        assert(decimal(n).drop_first() == body);
    } else {
        assert(decimal(n) == body);
    }
}

/// Zeros in front of a number do not change what it reads back as.
pub proof fn law_zero_padded_reads_back(n: int, width: int)
    ensures
        number_value(zero_padded(n, width), true) == Some(n),
{
    let body = digits(magnitude(n));
    lemma_digits_read_back(magnitude(n));
    let count = width - sign(n).len() - body.len();
    let padded = zeros(count) + body;
    lemma_leading_zeros(zeros(count).len() as int, body);
    assert(zeros(zeros(count).len() as int) == zeros(count));
    assert(is_digit(padded[0]));
    if n < 0 {
        assert(zero_padded(n, width).drop_first() == padded);
    } else {
        assert(zero_padded(n, width) == padded);
    }
}

/// A natural number is written with digits alone, padded or not.
pub proof fn lemma_natural_digits(n: nat, width: int)
    ensures
        all_digits(decimal(n as int)),
        digits_value(decimal(n as int)) == n,
        all_digits(zero_padded(n as int, width)),
        digits_value(zero_padded(n as int, width)) == n,
{
    let body = digits(n);
    lemma_digits_read_back(n);
    let count = zeros(width - body.len()).len() as int;
    lemma_leading_zeros(count, body);
    assert(decimal(n as int) =~= body);
    assert(zero_padded(n as int, width) =~= zeros(count) + body);
}

proof fn lemma_leading_zeros(count: int, body: Seq<char>)
    requires
        0 <= count,
        all_digits(body),
    ensures
        all_digits(zeros(count) + body),
        digits_value(zeros(count) + body) == digits_value(body),
    decreases body.len(),
{
    let padded = zeros(count) + body;
    assert forall|i: int| 0 <= i < padded.len() implies #[trigger] is_digit(padded[i]) by {
        if i >= count {
            assert(is_digit(body[i - count]));
        }
    }
    lemma_zeros_value(count);
    assert(padded.drop_last() == zeros(count) + body.drop_last());
    if body.len() == 1 {
        assert(body.drop_last() == Seq::<char>::empty());
        assert(padded.drop_last() == zeros(count));
        reveal_with_fuel(digits_value, 2);
    } else {
        assert forall|i: int| 0 <= i < body.drop_last().len() implies #[trigger] is_digit(
            body.drop_last()[i],
        ) by {
            assert(is_digit(body[i]));
        }
        lemma_leading_zeros(count, body.drop_last());
    }
}

proof fn lemma_zeros_value(count: int)
    requires
        0 <= count,
    ensures
        digits_value(zeros(count)) == 0,
    decreases count,
{
    if count > 0 {
        assert(zeros(count).drop_last() == zeros(count - 1));
        lemma_zeros_value(count - 1);
    }
}

// ---------------------------------------------------------------------
// Blank text and trimming
// ---------------------------------------------------------------------

/// Nothing but white space, or nothing at all.
pub open spec fn blank(s: Seq<char>) -> bool {
    forall|i: int| 0 <= i < s.len() ==> #[trigger] white_space(s[i])
}

pub open spec fn trimmed_start(s: Seq<char>) -> Seq<char>
    decreases s.len(),
{
    if s.len() > 0 && white_space(s[0]) {
        trimmed_start(s.drop_first())
    } else {
        s
    }
}

pub open spec fn trimmed_end(s: Seq<char>) -> Seq<char>
    decreases s.len(),
{
    if s.len() > 0 && white_space(s.last()) {
        trimmed_end(s.drop_last())
    } else {
        s
    }
}

/// A text without the white space at either end.
pub open spec fn trimmed(s: Seq<char>) -> Seq<char> {
    trimmed_end(trimmed_start(s))
}

/// Whether a text has nothing in it but white space.
pub fn is_blank(s: &str) -> (res: bool)
    ensures
        res == blank(s@),
{
    let chars = chars_of(s);
    let mut i: usize = 0;
    while i < chars.len()
        invariant
            i <= chars@.len(),
            chars@ == s@,
            forall|k: int| 0 <= k < i ==> #[trigger] white_space(s@[k]),
        decreases chars@.len() - i,
    {
        if !chars[i].is_whitespace() {
            assert(!white_space(s@[i as int]));
            return false;
        }
        i += 1;
    }
    true
}

/// A text without the white space at either end.
pub fn trim(s: &str) -> (res: String)
    ensures
        res@ == trimmed(s@),
{
    let chars = chars_of(s);
    let mut start: usize = 0;
    assert(s@.skip(0) == s@);
    while start < chars.len() && chars[start].is_whitespace()
        invariant
            start <= chars@.len(),
            chars@ == s@,
            trimmed_start(s@) == trimmed_start(s@.skip(start as int)),
        decreases chars@.len() - start,
    {
        assert(s@.skip(start as int).drop_first() == s@.skip(start + 1));
        start += 1;
    }
    let ghost kept = s@.skip(start as int);
    assert(trimmed_start(s@) == kept);
    let mut end: usize = chars.len();
    assert(s@.subrange(start as int, end as int) == kept);
    while start < end && chars[end - 1].is_whitespace()
        invariant
            start <= end <= chars@.len(),
            chars@ == s@,
            trimmed_end(kept) == trimmed_end(s@.subrange(start as int, end as int)),
        decreases end,
    {
        assert(s@.subrange(start as int, end as int).drop_last() == s@.subrange(
            start as int,
            end - 1,
        ));
        end -= 1;
    }
    let mut res = String::new();
    let mut i: usize = start;
    while i < end
        invariant
            start <= i <= end <= chars@.len(),
            chars@ == s@,
            res@ == s@.subrange(start as int, i as int),
        decreases end - i,
    {
        res.push(chars[i]);
        assert(s@.subrange(start as int, i + 1) == s@.subrange(start as int, i as int).push(
            s@[i as int],
        ));
        i += 1;
    }
    res
}

/// Trimming leaves nothing exactly when there was nothing but white space.
pub proof fn law_trimmed_blank(s: Seq<char>)
    ensures
        trimmed(s).len() == 0 <==> blank(s),
    decreases s.len(),
{
    if s.len() > 0 {
        if white_space(s[0]) {
            law_trimmed_blank(s.drop_first());
            assert(blank(s) ==> blank(s.drop_first())) by {
                assert forall|i: int| blank(s) && 0 <= i < s.len() - 1 implies #[trigger] white_space(
                    s.drop_first()[i],
                ) by {
                    assert(white_space(s[i + 1]));
                }
            }
            assert forall|i: int| blank(s.drop_first()) && 0 <= i < s.len() implies #[trigger] white_space(
                s[i],
            ) by {
                if i > 0 {
                    assert(white_space(s.drop_first()[i - 1]));
                }
            }
        } else {
            lemma_trimmed_end_keeps(s);
        }
    }
}

proof fn lemma_trimmed_end_keeps(s: Seq<char>)
    requires
        s.len() > 0,
        !white_space(s[0]),
    ensures
        trimmed_end(s).len() > 0,
    decreases s.len(),
{
    if white_space(s.last()) {
        lemma_trimmed_end_keeps(s.drop_last());
    }
}

proof fn lemma_trimmed_start_core(before: Seq<char>, rest: Seq<char>)
    requires
        blank(before),
        rest.len() > 0,
        !white_space(rest[0]),
    ensures
        trimmed_start(before + rest) == rest,
    decreases before.len(),
{
    let s = before + rest;
    if before.len() > 0 {
        assert(white_space(before[0]));
        let fewer = before.drop_first();
        assert forall|i: int| 0 <= i < fewer.len() implies #[trigger] white_space(fewer[i]) by {
            assert(white_space(before[i + 1]));
        }
        assert(s.drop_first() =~= fewer + rest);
        lemma_trimmed_start_core(fewer, rest);
    } else {
        assert(s =~= rest);
    }
}

proof fn lemma_trimmed_end_core(rest: Seq<char>, after: Seq<char>)
    requires
        blank(after),
        rest.len() > 0,
        !white_space(rest.last()),
    ensures
        trimmed_end(rest + after) == rest,
    decreases after.len(),
{
    let s = rest + after;
    if after.len() > 0 {
        assert(white_space(after[after.len() - 1]));
        let fewer = after.drop_last();
        assert forall|i: int| 0 <= i < fewer.len() implies #[trigger] white_space(fewer[i]) by {
            assert(white_space(after[i]));
        }
        assert(s.drop_last() =~= rest + fewer);
        lemma_trimmed_end_core(rest, fewer);
    } else {
        assert(s =~= rest);
    }
}

/// Trimming takes the white space around a text, and nothing of the text.
pub proof fn law_trimmed_core(before: Seq<char>, core: Seq<char>, after: Seq<char>)
    requires
        blank(before),
        blank(after),
        core.len() > 0,
        !white_space(core[0]),
        !white_space(core.last()),
    ensures
        trimmed(before + core + after) == core,
{
    assert(before + core + after =~= before + (core + after));
    lemma_trimmed_start_core(before, core + after);
    lemma_trimmed_end_core(core, after);
}

/// Trimming keeps whatever is no white space.
pub proof fn law_trimmed_keeps(s: Seq<char>, c: char)
    requires
        s.contains(c),
        !white_space(c),
    ensures
        trimmed(s).contains(c),
{
    lemma_trimmed_start_keeps_char(s, c);
    lemma_trimmed_end_keeps_char(trimmed_start(s), c);
}

proof fn lemma_trimmed_start_keeps_char(s: Seq<char>, c: char)
    requires
        s.contains(c),
        !white_space(c),
    ensures
        trimmed_start(s).contains(c),
    decreases s.len(),
{
    let k = choose|k: int| 0 <= k < s.len() && s[k] == c;
    if white_space(s[0]) {
        assert(s.drop_first()[k - 1] == c);
        lemma_trimmed_start_keeps_char(s.drop_first(), c);
    }
}

proof fn lemma_trimmed_end_keeps_char(s: Seq<char>, c: char)
    requires
        s.contains(c),
        !white_space(c),
    ensures
        trimmed_end(s).contains(c),
    decreases s.len(),
{
    let k = choose|k: int| 0 <= k < s.len() && s[k] == c;
    if white_space(s.last()) {
        assert(s.drop_last()[k] == c);
        lemma_trimmed_end_keeps_char(s.drop_last(), c);
    }
}

/// A text is another one with white space around it.
pub open spec fn surrounded(
    s: Seq<char>,
    before: Seq<char>,
    core: Seq<char>,
    after: Seq<char>,
) -> bool {
    s == before + core + after && blank(before) && blank(after)
}

/// A number stands in a field, with or without white space around it.
pub open spec fn types_number(s: Seq<char>, n: int) -> bool {
    exists|before: Seq<char>, after: Seq<char>| #[trigger] surrounded(s, before, decimal(n), after)
}

/// Something stands in a field that is neither white space nor part of a
/// number, or nothing stands there at all.
pub open spec fn types_no_number(s: Seq<char>) -> bool {
    blank(s) || exists|c: char|
        #[trigger] s.contains(c) && !white_space(c) && !is_digit(c) && c != '+' && c != '-'
}

/// A number that was typed in is read as that number, whatever white space is
/// around it; what is no number is not read as one.
pub proof fn law_typed_number(s: Seq<char>, n: int, signed: bool, low: int, high: int)
    ensures
        types_number(s, n) && low <= n <= high && (signed || n >= 0) ==> number_in(
            trimmed(s),
            signed,
            low,
            high,
        ) == Some(n),
        types_no_number(s) ==> number_in(trimmed(s), signed, low, high) is None,
{
    if types_number(s, n) && low <= n <= high && (signed || n >= 0) {
        let (before, after) = choose|before: Seq<char>, after: Seq<char>| #[trigger]
            surrounded(s, before, decimal(n), after);
        let core = decimal(n);
        lemma_decimal_alphabet(n);
        assert(core.len() > 0);
        assert(core[0] == '-' || is_digit(core[0]));
        let last = core[core.len() - 1];
        assert(last == '-' || is_digit(last));
        law_trimmed_core(before, core, after);
        law_decimal_reads_back(n);
    }
    if types_no_number(s) {
        let t = trimmed(s);
        law_trimmed_blank(s);
        if !blank(s) {
            let c = choose|c: char|
                #[trigger] s.contains(c) && !white_space(c) && !is_digit(c) && c != '+' && c != '-';
            law_trimmed_keeps(s, c);
            let k = choose|k: int| 0 <= k < t.len() && t[k] == c;
            if t.len() > 0 && k > 0 {
                assert(t.drop_first()[k - 1] == c);
                assert(!is_digit(t.drop_first()[k - 1]));
            }
            assert(!is_digit(t[k]));
        }
    }
}

/// A padded number is at least as long as asked for, and no longer than it has
/// to be.
pub proof fn law_zero_padded_width(n: nat, width: int)
    ensures
        zero_padded(n as int, width).len() >= width,
        zero_padded(n as int, width).len() > width ==> zero_padded(n as int, width) == decimal(
            n as int,
        ),
{
    if zero_padded(n as int, width).len() > width {
        assert(zero_padded(n as int, width) =~= decimal(n as int));
    }
}

// ---------------------------------------------------------------------
// Search and order
// ---------------------------------------------------------------------

/// `part` stands somewhere in `s`.
pub open spec fn contains_text(s: Seq<char>, part: Seq<char>) -> bool {
    exists|i: int|
        0 <= i <= s.len() - part.len() && #[trigger] s.subrange(i, i + part.len()) == part
}

fn matches_at(s: &Vec<char>, part: &Vec<char>, at: usize) -> (res: bool)
    requires
        at + part@.len() <= s@.len(),
    ensures
        res == (s@.subrange(at as int, at + part@.len()) == part@),
{
    let len: usize = s.len();
    let mut i: usize = 0;
    while i < part.len()
        invariant
            i <= part@.len(),
            at + part@.len() <= len,
            len == s@.len(),
            forall|k: int| 0 <= k < i ==> s@[at + k] == part@[k],
        decreases part@.len() - i,
    {
        if s[at + i] != part[i] {
            assert(s@.subrange(at as int, at + part@.len())[i as int] != part@[i as int]);
            return false;
        }
        i += 1;
    }
    assert(s@.subrange(at as int, at + part@.len()) == part@);
    true
}

/// Whether `part` stands somewhere in `s`.
pub fn has_text(s: &str, part: &str) -> (res: bool)
    ensures
        res == contains_text(s@, part@),
{
    let whole = chars_of(s);
    let wanted = chars_of(part);
    if wanted.len() > whole.len() {
        return false;
    }
    let last: usize = whole.len() - wanted.len();
    let mut at: usize = 0;
    loop
        invariant
            at <= last,
            last + wanted@.len() == whole@.len(),
            whole@ == s@,
            wanted@ == part@,
            forall|k: int|
                0 <= k < at ==> #[trigger] s@.subrange(k, k + part@.len()) != part@,
        decreases last - at,
    {
        if matches_at(&whole, &wanted, at) {
            return true;
        }
        if at == last {
            return false;
        }
        at += 1;
    }
}

/// Whether a character stands in a text.
pub fn has_char(s: &str, c: char) -> (res: bool)
    ensures
        res == s@.contains(c),
{
    let chars = chars_of(s);
    let mut i: usize = 0;
    while i < chars.len()
        invariant
            i <= chars@.len(),
            chars@ == s@,
            forall|k: int| 0 <= k < i ==> s@[k] != c,
        decreases chars@.len() - i,
    {
        if chars[i] == c {
            assert(s@[i as int] == c);
            return true;
        }
        i += 1;
    }
    false
}

/// Whether a text begins with another.
pub fn has_prefix(s: &str, prefix: &str) -> (res: bool)
    ensures
        res == prefix@.is_prefix_of(s@),
{
    let whole = chars_of(s);
    let wanted = chars_of(prefix);
    wanted.len() <= whole.len() && matches_at(&whole, &wanted, 0)
}

/// The order of texts by code point, the shorter first where one begins the
/// other.
pub open spec fn text_le(a: Seq<char>, b: Seq<char>) -> bool
    decreases a.len(),
{
    if a.len() == 0 {
        true
    } else if b.len() == 0 {
        false
    } else if a[0] == b[0] {
        text_le(a.drop_first(), b.drop_first())
    } else {
        (a[0] as int) < (b[0] as int)
    }
}

/// Whether `a` comes before `b` or is the same text.
pub fn text_at_most(a: &Vec<char>, b: &Vec<char>) -> (res: bool)
    ensures
        res == text_le(a@, b@),
{
    let mut i: usize = 0;
    assert(a@.skip(0) == a@);
    assert(b@.skip(0) == b@);
    while i < a.len() && i < b.len() && a[i] == b[i]
        invariant
            i <= a@.len(),
            i <= b@.len(),
            text_le(a@, b@) == text_le(a@.skip(i as int), b@.skip(i as int)),
        decreases a@.len() - i,
    {
        assert(a@.skip(i as int).drop_first() == a@.skip(i + 1));
        assert(b@.skip(i as int).drop_first() == b@.skip(i + 1));
        i += 1;
    }
    if i >= a.len() {
        true
    } else if i >= b.len() {
        false
    } else {
        a[i] < b[i]
    }
}

/// Any two texts are comparable.
pub proof fn law_text_le_total(a: Seq<char>, b: Seq<char>)
    ensures
        text_le(a, b) || text_le(b, a),
    decreases a.len(),
{
    if a.len() > 0 && b.len() > 0 && a[0] == b[0] {
        law_text_le_total(a.drop_first(), b.drop_first());
    }
}

/// The order of texts is transitive.
pub proof fn law_text_le_transitive(a: Seq<char>, b: Seq<char>, c: Seq<char>)
    requires
        text_le(a, b),
        text_le(b, c),
    ensures
        text_le(a, c),
    decreases a.len(),
{
    if a.len() > 0 && b.len() > 0 && c.len() > 0 && a[0] == b[0] && b[0] == c[0] {
        law_text_le_transitive(a.drop_first(), b.drop_first(), c.drop_first());
    }
}

/// An upper case ASCII letter becomes its lower case form; any other character
/// stays.
pub open spec fn folded_char(c: char) -> char {
    if 65 <= c as int <= 90 {
        (c as int + 32) as char
    } else {
        c
    }
}

/// A text with its ASCII letters in lower case.
pub open spec fn folded(s: Seq<char>) -> Seq<char> {
    Seq::new(s.len(), |i: int| folded_char(s[i]))
}

/// The characters of a text with its ASCII letters in lower case.
pub fn folded_chars(s: &str) -> (res: Vec<char>)
    ensures
        res@ == folded(s@),
{
    let chars = chars_of(s);
    let mut res: Vec<char> = Vec::new();
    let mut i: usize = 0;
    while i < chars.len()
        invariant
            i <= chars@.len(),
            chars@ == s@,
            res@.len() == i,
            forall|k: int| 0 <= k < i ==> res@[k] == folded_char(s@[k]),
        decreases chars@.len() - i,
    {
        let c: char = chars[i];
        if 'A' <= c && c <= 'Z' {
            res.push((c as u8 + 32) as char);
        } else {
            res.push(c);
        }
        i += 1;
    }
    assert(res@ == folded(s@));
    res
}

} // verus!
