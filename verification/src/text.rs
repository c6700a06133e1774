//! Characters and decimal numbers as they appear in the notation of squares
//! and positions.

use vstd::prelude::*;

verus! {

/// Why a piece of text is not a decimal number that fits the machine.
#[derive(Clone, Copy, Debug, PartialEq, Eq, Structural)]
pub enum NumberError {
    /// The text is empty.
    Empty,
    /// A character is not a digit, or the text is a lone sign.
    InvalidDigit,
    /// The number is larger than the largest `usize`.
    PosOverflow,
}

/// The character is one of the 128 ASCII characters.
pub open spec fn is_ascii_char(c: char) -> bool {
    (c as int) < 128
}

/// The decimal digit that stands for `d`; `'9'` for every `d` above nine.
pub open spec fn digit_char(d: int) -> char {
    if d <= 0 {
        '0'
    } else if d == 1 {
        '1'
    } else if d == 2 {
        '2'
    } else if d == 3 {
        '3'
    } else if d == 4 {
        '4'
    } else if d == 5 {
        '5'
    } else if d == 6 {
        '6'
    } else if d == 7 {
        '7'
    } else if d == 8 {
        '8'
    } else {
        '9'
    }
}

/// The value of a decimal digit.
pub open spec fn digit_value(c: char) -> Option<int> {
    if c == '0' {
        Some(0)
    } else if c == '1' {
        Some(1)
    } else if c == '2' {
        Some(2)
    } else if c == '3' {
        Some(3)
    } else if c == '4' {
        Some(4)
    } else if c == '5' {
        Some(5)
    } else if c == '6' {
        Some(6)
    } else if c == '7' {
        Some(7)
    } else if c == '8' {
        Some(8)
    } else if c == '9' {
        Some(9)
    } else {
        None
    }
}

/// Tells whether a character is ASCII.
pub fn ascii_char(c: char) -> (r: bool)
    ensures
        r == is_ascii_char(c),
{
    (c as u32) < 128
}

/// Reads a decimal digit.
pub fn digit_of(c: char) -> (r: Option<usize>)
    ensures
        r is Some <==> digit_value(c) is Some,
        r is Some ==> r->0 == digit_value(c)->0,
{
    if c >= '0' && c <= '9' {
        Some((c as u32 - '0' as u32) as usize)
    } else {
        None
    }
}

/// The decimal digit for a value below ten, as a string slice.
pub fn digit_str(d: usize) -> (s: &'static str)
    requires
        d < 10,
    ensures
        s@ == seq![digit_char(d as int)],
{
    proof {
        reveal_strlit("0");
        reveal_strlit("1");
        reveal_strlit("2");
        reveal_strlit("3");
        reveal_strlit("4");
        reveal_strlit("5");
        reveal_strlit("6");
        reveal_strlit("7");
        reveal_strlit("8");
        reveal_strlit("9");
    }
    let s = match d {
        0 => "0",
        1 => "1",
        2 => "2",
        3 => "3",
        4 => "4",
        5 => "5",
        6 => "6",
        7 => "7",
        8 => "8",
        _ => "9",
    };
    s
}

/// The decimal digits of a number, the most significant first.
pub open spec fn decimal(n: nat) -> Seq<char>
    decreases n,
{
    if n < 10 {
        seq![digit_char(n as int)]
    } else {
        decimal(n / 10).push(digit_char((n % 10) as int))
    }
}

/// The number that `acc` becomes when the digits of `s` are appended to it,
/// as long as it fits a `usize`.
pub open spec fn digits_value(acc: nat, s: Seq<char>) -> Result<nat, NumberError>
    decreases s.len(),
{
    if s.len() == 0 {
        Ok(acc)
    } else {
        match digit_value(s[0]) {
            None => Err(NumberError::InvalidDigit),
            Some(d) => if acc * 10 + d > usize::MAX {
                Err(NumberError::PosOverflow)
            } else {
                digits_value((acc * 10 + d) as nat, s.skip(1))
            },
        }
    }
}

/// The number that a text stands for: decimal digits, at least one, after an
/// optional `+`, with a value that fits a `usize`.
pub open spec fn decimal_value(s: Seq<char>) -> Result<nat, NumberError> {
    if s.len() == 0 {
        Err(NumberError::Empty)
    } else if s.len() == 1 && (s[0] == '+' || s[0] == '-') {
        Err(NumberError::InvalidDigit)
    } else if s[0] == '+' {
        digits_value(0, s.skip(1))
    } else {
        digits_value(0, s)
    }
}

/// The character is white space: one of the characters that Unicode marks
/// as such.
pub open spec fn is_whitespace(c: char) -> bool {
    let u = c as int;
    (0x9 <= u <= 0xD) || u == 0x20 || u == 0x85 || u == 0xA0 || u == 0x1680 || (0x2000 <= u
        <= 0x200A) || u == 0x2028 || u == 0x2029 || u == 0x202F || u == 0x205F || u == 0x3000
}

/// The text without the white space at its start.
pub open spec fn trim_start(s: Seq<char>) -> Seq<char>
    decreases s.len(),
{
    if s.len() > 0 && is_whitespace(s[0]) {
        trim_start(s.skip(1))
    } else {
        s
    }
}

/// The text without the white space at its end.
pub open spec fn trim_end(s: Seq<char>) -> Seq<char>
    decreases s.len(),
{
    if s.len() > 0 && is_whitespace(s.last()) {
        trim_end(s.drop_last())
    } else {
        s
    }
}

/// The text without the white space at its start and at its end.
pub open spec fn trim(s: Seq<char>) -> Seq<char> {
    trim_end(trim_start(s))
}

/// The pieces into which the separator cuts a text: one more than there are
/// separators, possibly empty, in their order.
pub open spec fn split(s: Seq<char>, sep: char) -> Seq<Seq<char>>
    decreases s.len(),
{
    if s.len() == 0 {
        seq![Seq::<char>::empty()]
    } else {
        let before = split(s.drop_last(), sep);
        if s.last() == sep {
            before.push(Seq::<char>::empty())
        } else {
            before.drop_last().push(before.last().push(s.last()))
        }
    }
}

/// The texts that a list of vectors holds.
pub open spec fn texts(fields: Seq<Vec<char>>) -> Seq<Seq<char>> {
    Seq::new(fields.len(), |i: int| fields[i]@)
}

/// The characters of a text.
pub fn chars_of(text: &str) -> (v: Vec<char>)
    ensures
        v@ == text@,
{
    let mut v: Vec<char> = Vec::new();
    for c in it: text.chars()
        invariant
            it.seq() == text@,
            v@ == text@.take(it.index()),
    {
        v.push(c);
    }
    v
}

/// Tells whether a character is white space.
pub fn whitespace_char(c: char) -> (r: bool)
    ensures
        r == is_whitespace(c),
{
    let u = c as u32;
    (0x9 <= u && u <= 0xD) || u == 0x20 || u == 0x85 || u == 0xA0 || u == 0x1680 || (0x2000 <= u
        && u <= 0x200A) || u == 0x2028 || u == 0x2029 || u == 0x202F || u == 0x205F || u == 0x3000
}

/// Copies a text without the white space at its start and at its end.
pub fn trimmed(text: &Vec<char>) -> (r: Vec<char>)
    ensures
        r@ == trim(text@),
{
    let len = text.len();
    let mut start: usize = 0;
    assert(text@.skip(0) =~= text@);
    while start < len && whitespace_char(text[start])
        invariant
            start <= len,
            len == text.len(),
            trim_start(text@) == trim_start(text@.skip(start as int)),
        decreases len - start,
    {
        assert(text@.skip(start as int).skip(1) =~= text@.skip(start + 1));
        start += 1;
    }
    let mut end: usize = len;
    while end > start && whitespace_char(text[end - 1])
        invariant
            start <= end <= len,
            len == text.len(),
            trim_start(text@) == text@.skip(start as int),
            trim(text@) == trim_end(text@.subrange(start as int, end as int)),
        decreases end - start,
    {
        assert(text@.subrange(start as int, end as int).drop_last() =~= text@.subrange(
            start as int,
            end - 1,
        ));
        end -= 1;
    }
    let mut r: Vec<char> = Vec::new();
    let mut i: usize = start;
    while i < end
        invariant
            start <= i <= end <= len,
            len == text.len(),
            r@ == text@.subrange(start as int, i as int),
        decreases end - i,
    {
        r.push(text[i]);
        i += 1;
    }
    r
}

/// Cuts a text at each separator.
pub fn split_chars(text: &Vec<char>, sep: char) -> (fields: Vec<Vec<char>>)
    ensures
        texts(fields@) == split(text@, sep),
{
    let mut fields: Vec<Vec<char>> = Vec::new();
    let mut current: Vec<char> = Vec::new();
    let mut i: usize = 0;
    while i < text.len()
        invariant
            i <= text.len(),
            texts(fields@).push(current@) == split(text@.take(i as int), sep),
        decreases text.len() - i,
    {
        let c = text[i];
        assert(text@.take(i + 1).drop_last() =~= text@.take(i as int));
        if c == sep {
            fields.push(current);
            current = Vec::new();
        } else {
            current.push(c);
        }
        i += 1;
    }
    fields.push(current);
    assert(text@.take(text.len() as int) =~= text@);
    fields
}

/// Reads a decimal number.
pub fn parse_decimal(text: &Vec<char>) -> (r: Result<usize, NumberError>)
    ensures
        match decimal_value(text@) {
            Ok(n) => r == Ok::<usize, NumberError>(n as usize) && n <= usize::MAX,
            Err(e) => r == Err::<usize, NumberError>(e),
        },
{
    let len = text.len();
    if len == 0 {
        return Err(NumberError::Empty);
    }
    if len == 1 && (text[0] == '+' || text[0] == '-') {
        return Err(NumberError::InvalidDigit);
    }
    let mut i: usize = if text[0] == '+' {
        1
    } else {
        0
    };
    let mut acc: usize = 0;
    assert(text@.skip(0) =~= text@);
    while i < len
        invariant
            i <= len,
            len == text.len(),
            decimal_value(text@) == digits_value(acc as nat, text@.skip(i as int)),
        decreases len - i,
    {
        assert(text@.skip(i as int).skip(1) =~= text@.skip(i + 1));
        let d = match digit_of(text[i]) {
            Some(d) => d,
            None => { return Err(NumberError::InvalidDigit); },
        };
        acc = match acc.checked_mul(10) {
            Some(scaled) => match scaled.checked_add(d) {
                Some(sum) => sum,
                None => { return Err(NumberError::PosOverflow); },
            },
            None => { return Err(NumberError::PosOverflow); },
        };
        i += 1;
    }
    Ok(acc)
}

/// Appends the decimal digits of a number to a text.
pub fn append_decimal(s: &mut String, n: usize)
    ensures
        final(s)@ == old(s)@ + decimal(n as nat),
    decreases n,
{
    if n >= 10 {
        append_decimal(s, n / 10);
    }
    s.append(digit_str(n % 10));
}

/// The character is a decimal digit.
pub open spec fn is_digit(c: char) -> bool {
    digit_value(c) is Some
}

/// Appending one character to digits appends one digit to their value.
pub proof fn lemma_digits_value_push(acc: nat, s: Seq<char>, c: char)
    ensures
        digits_value(acc, s.push(c)) == match digits_value(acc, s) {
            Ok(v) => digits_value(v, seq![c]),
            Err(e) => Err(e),
        },
    decreases s.len(),
{
    if s.len() == 0 {
        assert(s.push(c) =~= seq![c]);
    } else {
        assert(s.push(c).skip(1) =~= s.skip(1).push(c));
        match digit_value(s[0]) {
            None => {},
            Some(d) => {
                if acc * 10 + d <= usize::MAX {
                    lemma_digits_value_push((acc * 10 + d) as nat, s.skip(1), c);
                }
            },
        }
    }
}

/// The decimal digits of a number are digits, at least one of them.
pub proof fn lemma_decimal_digits(n: nat)
    ensures
        decimal(n).len() >= 1,
        forall|i: int| 0 <= i < decimal(n).len() ==> is_digit(#[trigger] decimal(n)[i]),
    decreases n,
{
    if n >= 10 {
        lemma_decimal_digits(n / 10);
    }
}

/// Reading the decimal digits of a number that fits a `usize` gives the
/// number back.
pub proof fn lemma_decimal_round_trip(n: nat)
    requires
        n <= usize::MAX,
    ensures
        digits_value(0, decimal(n)) == Ok::<nat, NumberError>(n),
        decimal_value(decimal(n)) == Ok::<nat, NumberError>(n),
    decreases n,
{
    lemma_decimal_digits(n);
    if n < 10 {
        let s = decimal(n);
        assert(digits_value(n, s.skip(1)) == Ok::<nat, NumberError>(n));
    } else {
        lemma_decimal_round_trip(n / 10);
        let c = digit_char((n % 10) as int);
        lemma_digits_value_push(0, decimal(n / 10), c);
        assert(digits_value(n, seq![c].skip(1)) == Ok::<nat, NumberError>(n));
    }
}

/// The separator does not occur in the text.
pub open spec fn free_of(s: Seq<char>, sep: char) -> bool {
    forall|i: int| 0 <= i < s.len() ==> #[trigger] s[i] != sep
}

/// A text without the separator is cut into itself.
pub proof fn lemma_split_whole(s: Seq<char>, sep: char)
    requires
        free_of(s, sep),
    ensures
        split(s, sep) == seq![s],
    decreases s.len(),
{
    if s.len() == 0 {
        assert(s =~= Seq::<char>::empty());
    } else {
        lemma_split_whole(s.drop_last(), sep);
        assert(s.drop_last().push(s.last()) =~= s);
    }
}

/// What follows the last separator of a text is the last of its pieces.
pub proof fn lemma_split_last(a: Seq<char>, b: Seq<char>, sep: char)
    requires
        free_of(b, sep),
    ensures
        split(a + seq![sep] + b, sep) == split(a, sep).push(b),
    decreases b.len(),
{
    let whole = a + seq![sep] + b;
    if b.len() == 0 {
        assert(whole.drop_last() =~= a);
        assert(b =~= Seq::<char>::empty());
    } else {
        lemma_split_last(a, b.drop_last(), sep);
        assert(whole.drop_last() =~= a + seq![sep] + b.drop_last());
        assert(b.drop_last().push(b.last()) =~= b);
    }
}

/// A text that neither starts nor ends with white space is its own trimming.
pub proof fn lemma_trim_nothing(s: Seq<char>)
    requires
        s.len() > 0,
        !is_whitespace(s[0]),
        !is_whitespace(s.last()),
    ensures
        trim(s) == s,
{
}

} // verus!
