//! Character-level text operations: searching, splitting and decimal
//! parsing, each specified over `Seq<char>`.

use vstd::prelude::*;
use vstd::string::*;

verus! {

/// The views of a list of strings, in order.
pub open spec fn texts(items: Seq<String>) -> Seq<Seq<char>> {
    Seq::new(items.len(), |i: int| items[i]@)
}

/// The view of an optional string.
pub open spec fn opt_text(item: Option<String>) -> Option<Seq<char>> {
    match item {
        Some(text) => Some(text@),
        None => None,
    }
}

/// What `keep` yields for the items of a list, in their order; an item for
/// which it yields nothing is left out.
pub open spec fn kept<A, B>(items: Seq<A>, keep: spec_fn(A) -> Option<B>) -> Seq<B>
    decreases items.len(),
{
    if items.len() == 0 {
        Seq::empty()
    } else {
        match keep(items.last()) {
            Some(value) => kept(items.drop_last(), keep).push(value),
            None => kept(items.drop_last(), keep),
        }
    }
}

/// `kept` over one more item.
pub proof fn lemma_kept_next<A, B>(items: Seq<A>, keep: spec_fn(A) -> Option<B>, i: int)
    requires
        0 <= i < items.len(),
    ensures
        kept(items.take(i + 1), keep) == match keep(items[i]) {
            Some(value) => kept(items.take(i), keep).push(value),
            None => kept(items.take(i), keep),
        },
{
    assert(items.take(i + 1).drop_last() == items.take(i));
}

/// The length of the longest prefix of `s` whose characters all satisfy
/// `wanted`.
pub open spec fn leading(s: Seq<char>, wanted: spec_fn(char) -> bool) -> int
    decreases s.len(),
{
    if s.len() == 0 || !wanted(s[0]) {
        0
    } else {
        1 + leading(s.drop_first(), wanted)
    }
}

/// `n` characters of `s` satisfy `wanted`, and the next one, if any, does not.
pub open spec fn is_leading(s: Seq<char>, wanted: spec_fn(char) -> bool, n: int) -> bool {
    &&& 0 <= n <= s.len()
    &&& forall|j: int| 0 <= j < n ==> wanted(#[trigger] s[j])
    &&& n < s.len() ==> !wanted(s[n])
}

/// `leading` is the length of that prefix.
pub proof fn lemma_leading(s: Seq<char>, wanted: spec_fn(char) -> bool)
    ensures
        is_leading(s, wanted, leading(s, wanted)),
    decreases s.len(),
{
    if s.len() != 0 && wanted(s[0]) {
        let rest = s.drop_first();
        lemma_leading(rest, wanted);
        let n = leading(rest, wanted);
        assert forall|j: int| 0 <= j < n + 1 implies wanted(#[trigger] s[j]) by {
            if j > 0 {
                assert(rest[j - 1] == s[j]);
            }
        }
        if n + 1 < s.len() {
            assert(rest[n] == s[n + 1]);
        }
    }
}

/// The length of that prefix, however it was found, is `leading`.
pub proof fn lemma_leading_is(s: Seq<char>, wanted: spec_fn(char) -> bool, n: int)
    requires
        is_leading(s, wanted, n),
    ensures
        leading(s, wanted) == n,
{
    lemma_leading(s, wanted);
    let m = leading(s, wanted);
    if m < n {
        assert(wanted(s[m]));
    } else if n < m {
        assert(wanted(s[n]));
    }
}

/// Index of the first occurrence of `target` in `s`.
pub open spec fn position(s: Seq<char>, target: char) -> Option<int>
    decreases s.len(),
{
    if s.len() == 0 {
        None
    } else if s[0] == target {
        Some(0)
    } else {
        match position(s.drop_first(), target) {
            Some(i) => Some(i + 1),
            None => None,
        }
    }
}

/// `i` is the index of the first occurrence of `target` in `s`.
pub open spec fn is_first_at(s: Seq<char>, target: char, i: int) -> bool {
    &&& 0 <= i < s.len()
    &&& s[i] == target
    &&& forall|j: int| 0 <= j < i ==> s[j] != target
}

/// `position` finds the first occurrence, and fails only when there is none.
pub proof fn lemma_position(s: Seq<char>, target: char)
    ensures
        match position(s, target) {
            Some(i) => is_first_at(s, target, i),
            None => forall|j: int| 0 <= j < s.len() ==> s[j] != target,
        },
    decreases s.len(),
{
    if s.len() != 0 && s[0] != target {
        let rest = s.drop_first();
        lemma_position(rest, target);
        match position(rest, target) {
            Some(i) => {
                assert forall|j: int| 0 <= j < i + 1 implies s[j] != target by {
                    if j > 0 {
                        assert(rest[j - 1] == s[j]);
                    }
                }
            },
            None => {
                assert forall|j: int| 0 <= j < s.len() implies s[j] != target by {
                    if j > 0 {
                        assert(rest[j - 1] == s[j]);
                    }
                }
            },
        }
    }
}

/// A first occurrence, wherever it was found, is what `position` returns.
pub proof fn lemma_position_is(s: Seq<char>, target: char, i: int)
    requires
        is_first_at(s, target, i),
    ensures
        position(s, target) == Some(i),
{
    lemma_position(s, target);
}

/// Without an occurrence `position` returns nothing.
pub proof fn lemma_position_none(s: Seq<char>, target: char)
    requires
        forall|j: int| 0 <= j < s.len() ==> s[j] != target,
    ensures
        position(s, target) is None,
{
    lemma_position(s, target);
}

/// The pieces of `s` between occurrences of `separator`. There is always at
/// least one piece; an empty text has the single empty piece.
pub open spec fn split(s: Seq<char>, separator: char) -> Seq<Seq<char>>
    decreases s.len(),
{
    match position(s, separator) {
        Some(i) => if 0 <= i < s.len() {
            seq![s.take(i)] + split(s.skip(i + 1), separator)
        } else {
            seq![s]
        },
        None => seq![s],
    }
}

/// The characters that `char::is_whitespace` accepts: those with the Unicode
/// property White_Space.
pub open spec fn is_white_space(c: char) -> bool {
    let n = c as u32;
    ||| 0x09 <= n <= 0x0D
    ||| n == 0x20
    ||| n == 0x85
    ||| n == 0xA0
    ||| n == 0x1680
    ||| 0x2000 <= n <= 0x200A
    ||| n == 0x2028
    ||| n == 0x2029
    ||| n == 0x202F
    ||| n == 0x205F
    ||| n == 0x3000
}

/// Tells whether a character is white space.
pub fn white_space(c: char) -> (yes: bool)
    ensures
        yes == is_white_space(c),
{
    let n: u32 = c as u32;
    (0x09 <= n && n <= 0x0D) || n == 0x20 || n == 0x85 || n == 0xA0 || n == 0x1680 || (0x2000 <= n
        && n <= 0x200A) || n == 0x2028 || n == 0x2029 || n == 0x202F || n == 0x205F || n == 0x3000
}

/// The characters of a string, one by one.
pub fn chars_of(text: &str) -> (out: Vec<char>)
    ensures
        out@ == text@,
{
    let mut out: Vec<char> = Vec::new();
    for c in it: text.chars()
        invariant
            it.seq() == text@,
            out@ == it.seq().take(it.index() as int),
    {
        out.push(c);
    }
    assert(out@ == text@);
    out
}

/// An owned copy of the characters `from..to` of `text`.
pub fn slice_of(text: &str, from: usize, to: usize) -> (out: String)
    requires
        from <= to <= text@.len(),
    ensures
        out@ == text@.subrange(from as int, to as int),
{
    text.substring_char(from, to).to_owned()
}

/// Finds the first `target` among the characters `from..to`.
pub fn find_char(chars: &Vec<char>, from: usize, to: usize, target: char) -> (found: Option<usize>)
    requires
        from <= to <= chars@.len(),
    ensures
        match found {
            Some(i) => from <= i < to && position(chars@.subrange(from as int, to as int), target)
                == Some(i - from),
            None => position(chars@.subrange(from as int, to as int), target) is None,
        },
{
    let ghost window = chars@.subrange(from as int, to as int);
    let mut i: usize = from;
    while i < to
        invariant
            from <= i <= to <= chars@.len(),
            window == chars@.subrange(from as int, to as int),
            forall|j: int| 0 <= j < i - from ==> window[j] != target,
        decreases to - i,
    {
        if chars[i] == target {
            proof {
                assert(window[i - from] == chars@[i as int]);
                lemma_position_is(window, target, i - from);
            }
            return Some(i);
        }
        i += 1;
    }
    proof {
        lemma_position_none(window, target);
    }
    None
}

/// Splits a text at every occurrence of `separator`.
pub fn split_text(text: &str, separator: char) -> (pieces: Vec<String>)
    ensures
        texts(pieces@) == split(text@, separator),
{
    let chars = chars_of(text);
    let n: usize = chars.len();
    let mut pieces: Vec<String> = Vec::new();
    let mut start: usize = 0;
    proof {
        assert(text@.skip(0) == text@);
        assert(texts(pieces@) + split(text@, separator) == split(text@, separator));
    }
    loop
        invariant
            chars@ == text@,
            n == chars@.len(),
            start <= n,
            split(text@, separator) == texts(pieces@) + split(text@.skip(start as int), separator),
        decreases n - start,
    {
        let ghost tail = text@.skip(start as int);
        assert(tail == chars@.subrange(start as int, n as int));
        match find_char(&chars, start, n, separator) {
            Some(i) => {
                let piece = slice_of(text, start, i);
                proof {
                    assert(tail.take(i - start) == text@.subrange(start as int, i as int));
                    assert(tail.skip(i - start + 1) == text@.skip(i + 1));
                    assert(texts(pieces@.push(piece)) == texts(pieces@) + seq![piece@]);
                }
                pieces.push(piece);
                start = i + 1;
            },
            None => {
                let piece = slice_of(text, start, n);
                proof {
                    assert(text@.subrange(start as int, n as int) == tail);
                    assert(texts(pieces@.push(piece)) == texts(pieces@) + seq![piece@]);
                }
                pieces.push(piece);
                return pieces;
            },
        }
    }
}

/// The `index`-th piece of `split(s, separator)`, if there are that many.
pub open spec fn nth_piece(s: Seq<char>, separator: char, index: int) -> Option<Seq<char>> {
    let pieces = split(s, separator);
    if 0 <= index < pieces.len() {
        Some(pieces[index])
    } else {
        None
    }
}

/// The `index`-th piece of a text split at `separator`.
pub fn nth_split(text: &str, separator: char, index: usize) -> (piece: Option<String>)
    ensures
        opt_text(piece) == nth_piece(text@, separator, index as int),
{
    let pieces = split_text(text, separator);
    if index < pieces.len() {
        assert(texts(pieces@)[index as int] == pieces@[index as int]@);
        Some(pieces[index].clone())
    } else {
        assert(texts(pieces@).len() == pieces@.len());
        None
    }
}

/// Why a text is not a decimal number of the wanted type.
#[derive(Clone, Copy, Debug, PartialEq, Eq, Structural)]
pub enum ParseIntError {
    /// The text is empty.
    Empty,
    /// A character is not a decimal digit, or a sign stands alone.
    InvalidDigit,
    /// The number is above the largest value of the type.
    PosOverflow,
    /// The number is below the smallest value of the type.
    NegOverflow,
}

/// `c` is one of the ten decimal digits.
pub open spec fn is_digit(c: char) -> bool {
    48 <= c as u32 <= 57
}

/// Every character of `s` is a decimal digit.
pub open spec fn all_digits(s: Seq<char>) -> bool {
    forall|i: int| 0 <= i < s.len() ==> is_digit(#[trigger] s[i])
}

/// The number that a sequence of decimal digits writes.
pub open spec fn digits_value(s: Seq<char>) -> int
    decreases s.len(),
{
    if s.len() == 0 {
        0
    } else {
        digits_value(s.drop_last()) * 10 + (s.last() as u32 - 48)
    }
}

/// The text has a sign in front: `+` always counts, `-` only for a signed type.
pub open spec fn has_sign(s: Seq<char>, signed: bool) -> bool {
    s.len() > 0 && (s[0] == '+' || (signed && s[0] == '-'))
}

/// The decimal number that `s` writes, for a type with the range
/// `least..=greatest`: an optional sign, then one digit or more, and nothing
/// else. A text with a character that is no digit is reported as
/// `InvalidDigit` whatever its size.
pub open spec fn decimal(s: Seq<char>, signed: bool, least: int, greatest: int) -> Result<
    int,
    ParseIntError,
> {
    let digits = if has_sign(s, signed) {
        s.skip(1)
    } else {
        s
    };
    if s.len() == 0 {
        Err(ParseIntError::Empty)
    } else if digits.len() == 0 || !all_digits(digits) {
        Err(ParseIntError::InvalidDigit)
    } else if signed && s[0] == '-' {
        if -digits_value(digits) < least {
            Err(ParseIntError::NegOverflow)
        } else {
            Ok(-digits_value(digits))
        }
    } else {
        if digits_value(digits) > greatest {
            Err(ParseIntError::PosOverflow)
        } else {
            Ok(digits_value(digits))
        }
    }
}

/// What `str::parse::<i32>` accepts, and the number it gives.
pub open spec fn decimal_i32(s: Seq<char>) -> Result<int, ParseIntError> {
    decimal(s, true, -0x8000_0000, 0x7fff_ffff)
}

/// What `str::parse::<u32>` accepts, and the number it gives.
pub open spec fn decimal_u32(s: Seq<char>) -> Result<int, ParseIntError> {
    decimal(s, false, 0, 0xffff_ffff)
}

/// A sequence of digits never writes a negative number.
pub proof fn lemma_digits_value_nonnegative(s: Seq<char>)
    requires
        all_digits(s),
    ensures
        digits_value(s) >= 0,
    decreases s.len(),
{
    if s.len() > 0 {
        assert(is_digit(s[s.len() - 1]));
        assert forall|i: int| 0 <= i < s.drop_last().len() implies is_digit(
            #[trigger] s.drop_last()[i],
        ) by {
            assert(s.drop_last()[i] == s[i]);
        }
        lemma_digits_value_nonnegative(s.drop_last());
    }
}

/// Reads the characters `from..to` as a decimal number within
/// `least..=greatest`.
pub fn parse_decimal(
    chars: &Vec<char>,
    from: usize,
    to: usize,
    signed: bool,
    least: i128,
    greatest: i128,
) -> (parsed: Result<i128, ParseIntError>)
    requires
        from <= to <= chars@.len(),
        -0xffff_ffff_ffff_ffff <= least <= 0 <= greatest <= 0xffff_ffff_ffff_ffff,
    ensures
        match parsed {
            Ok(value) => decimal(
                chars@.subrange(from as int, to as int),
                signed,
                least as int,
                greatest as int,
            ) == Ok::<int, ParseIntError>(value as int),
            Err(error) => decimal(
                chars@.subrange(from as int, to as int),
                signed,
                least as int,
                greatest as int,
            ) == Err::<int, ParseIntError>(error),
        },
        parsed matches Ok(value) ==> least <= value <= greatest,
{
    let ghost window = chars@.subrange(from as int, to as int);
    if from == to {
        return Err(ParseIntError::Empty);
    }
    assert(window[0] == chars@[from as int]);
    let first: char = chars[from];
    let negative: bool = signed && first == '-';
    let start: usize = if first == '+' || negative {
        from + 1
    } else {
        from
    };
    let ghost digits = chars@.subrange(start as int, to as int);
    assert(digits == if has_sign(window, signed) {
        window.skip(1)
    } else {
        window
    });
    if start == to {
        return Err(ParseIntError::InvalidDigit);
    }
    let mut total: i128 = 0;
    let mut beyond: bool = false;
    let mut i: usize = start;
    while i < to
        invariant
            from <= start <= i <= to <= chars@.len(),
            window == chars@.subrange(from as int, to as int),
            window.len() > 0,
            digits == chars@.subrange(start as int, to as int),
            digits == if has_sign(window, signed) {
                window.skip(1)
            } else {
                window
            },
            all_digits(digits.take(i - start)),
            0 <= total <= 0xffff_ffff_ffff_ffff,
            !beyond ==> total == digits_value(digits.take(i - start)),
            beyond ==> digits_value(digits.take(i - start)) > 0xffff_ffff_ffff_ffff,
        decreases to - i,
    {
        let c: char = chars[i];
        let n: u32 = c as u32;
        let ghost before = digits.take(i - start);
        let ghost after = digits.take(i - start + 1);
        assert(digits[i - start] == c);
        if n < 48 || n > 57 {
            assert(!is_digit(digits[i - start]));
            assert(!all_digits(digits));
            return Err(ParseIntError::InvalidDigit);
        }
        proof {
            assert(after.drop_last() == before);
            assert(after.last() == c);
            assert forall|j: int| 0 <= j < after.len() implies is_digit(#[trigger] after[j]) by {
                if j < before.len() {
                    assert(after[j] == before[j]);
                }
            }
            lemma_digits_value_nonnegative(before);
        }
        if !beyond {
            let next: i128 = total * 10 + (n - 48) as i128;
            if next > 0xffff_ffff_ffff_ffff {
                beyond = true;
            } else {
                total = next;
            }
        }
        i += 1;
    }
    assert(digits.take(to - start) == digits);
    assert(all_digits(digits));
    if negative {
        if beyond || -total < least {
            Err(ParseIntError::NegOverflow)
        } else {
            Ok(-total)
        }
    } else {
        if beyond || total > greatest {
            Err(ParseIntError::PosOverflow)
        } else {
            Ok(total)
        }
    }
}

/// Reads a whole text as an `i32`, as `str::parse::<i32>` does.
pub fn parse_i32(text: &str) -> (parsed: Result<i32, ParseIntError>)
    ensures
        match parsed {
            Ok(value) => decimal_i32(text@) == Ok::<int, ParseIntError>(value as int),
            Err(error) => decimal_i32(text@) == Err::<int, ParseIntError>(error),
        },
{
    let chars = chars_of(text);
    assert(chars@.subrange(0, chars@.len() as int) == text@);
    match parse_decimal(&chars, 0, chars.len(), true, -0x8000_0000, 0x7fff_ffff) {
        Ok(value) => Ok(value as i32),
        Err(error) => Err(error),
    }
}

/// Reads a whole text as a `u32`, as `str::parse::<u32>` does.
pub fn parse_u32(text: &str) -> (parsed: Result<u32, ParseIntError>)
    ensures
        match parsed {
            Ok(value) => decimal_u32(text@) == Ok::<int, ParseIntError>(value as int),
            Err(error) => decimal_u32(text@) == Err::<int, ParseIntError>(error),
        },
{
    let chars = chars_of(text);
    assert(chars@.subrange(0, chars@.len() as int) == text@);
    match parse_decimal(&chars, 0, chars.len(), false, 0, 0xffff_ffff) {
        Ok(value) => Ok(value as u32),
        Err(error) => Err(error),
    }
}

/// What `str::parse::<u64>` accepts, and the number it gives.
pub open spec fn decimal_u64(s: Seq<char>) -> Result<int, ParseIntError> {
    decimal(s, false, 0, 0xffff_ffff_ffff_ffff)
}

/// Reads a whole text as a `u64`, as `str::parse::<u64>` does.
pub fn parse_u64(text: &str) -> (parsed: Result<u64, ParseIntError>)
    ensures
        match parsed {
            Ok(value) => decimal_u64(text@) == Ok::<int, ParseIntError>(value as int),
            Err(error) => decimal_u64(text@) == Err::<int, ParseIntError>(error),
        },
{
    let chars = chars_of(text);
    assert(chars@.subrange(0, chars@.len() as int) == text@);
    match parse_decimal(&chars, 0, chars.len(), false, 0, 0xffff_ffff_ffff_ffff) {
        Ok(value) => Ok(value as u64),
        Err(error) => Err(error),
    }
}

/// A text always splits into one piece at least.
pub proof fn lemma_split_some(s: Seq<char>, separator: char)
    ensures
        split(s, separator).len() >= 1,
{
    lemma_position(s, separator);
}

/// A decimal number that is accepted lies in the range asked for.
pub proof fn lemma_decimal_in_range(s: Seq<char>, signed: bool, least: int, greatest: int)
    requires
        least <= 0 <= greatest,
    ensures
        decimal(s, signed, least, greatest) matches Ok(value) ==> least <= value <= greatest,
{
    if decimal(s, signed, least, greatest) is Ok {
        let digits = if has_sign(s, signed) {
            s.skip(1)
        } else {
            s
        };
        lemma_digits_value_nonnegative(digits);
    }
}

/// `a` comes before `b`, or is `b`, in the order of texts: character by
/// character, by code point, a text before every text that continues it.
pub open spec fn text_le(a: Seq<char>, b: Seq<char>) -> bool
    decreases a.len(),
{
    if a.len() == 0 {
        true
    } else if b.len() == 0 {
        false
    } else if a[0] as u32 != b[0] as u32 {
        (a[0] as u32) < (b[0] as u32)
    } else {
        text_le(a.drop_first(), b.drop_first())
    }
}

/// Of two texts, one comes before the other or is the other.
pub proof fn lemma_text_le_total(a: Seq<char>, b: Seq<char>)
    ensures
        text_le(a, b) || text_le(b, a),
    decreases a.len(),
{
    if a.len() > 0 && b.len() > 0 && a[0] as u32 == b[0] as u32 {
        lemma_text_le_total(a.drop_first(), b.drop_first());
    }
}

/// Tells whether `a` comes before `b`, or is `b`, in the order of texts.
pub fn text_precedes(a: &str, b: &str) -> (yes: bool)
    ensures
        yes == text_le(a@, b@),
{
    let left = chars_of(a);
    let right = chars_of(b);
    let mut i: usize = 0;
    assert(left@.skip(0) == left@ && right@.skip(0) == right@);
    while i < left.len() && i < right.len()
        invariant
            i <= left@.len(),
            i <= right@.len(),
            left@ == a@,
            right@ == b@,
            text_le(a@, b@) == text_le(left@.skip(i as int), right@.skip(i as int)),
        decreases left@.len() - i,
    {
        let ghost x = left@.skip(i as int);
        let ghost y = right@.skip(i as int);
        assert(x[0] == left@[i as int] && y[0] == right@[i as int]);
        assert(x.drop_first() == left@.skip(i + 1) && y.drop_first() == right@.skip(i + 1));
        if left[i] as u32 != right[i] as u32 {
            return (left[i] as u32) < (right[i] as u32);
        }
        i += 1;
    }
    i == left.len()
}

} // verus!
