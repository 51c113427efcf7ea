//! From scraped text to typed values: durations, the colour flag, cleaned
//! text, and the pieces of links and image lists.

use vstd::prelude::*;
use vstd::string::*;

use super::entities::{decode_entities, entities_decoded};
use crate::text::{
    chars_of, decimal_i32, find_char, is_white_space, leading, lemma_leading_is,
    opt_text, parse_decimal, position, slice_of, white_space, ParseIntError,
};

verus! {

/// `s` without every `PT` that it starts with.
pub open spec fn without_markers(s: Seq<char>) -> Seq<char>
    decreases s.len(),
{
    if s.len() >= 2 && s[0] == 'P' && s[1] == 'T' {
        without_markers(s.skip(2))
    } else {
        s
    }
}

/// Seconds for a count of hours and a count of minutes.
pub open spec fn seconds(hours: int, minutes: int) -> int {
    hours * 3600 + minutes * 60
}

/// The length in seconds that an ISO 8601 duration of hours and minutes
/// states. After the leading `PT`, the number before the first `H` counts
/// hours and the number between it and the next `M` counts minutes; without
/// an `H`, the number before the first `M` counts minutes. A unit without its
/// letter counts as zero. A number that is no `i32` in decimal is an error.
pub open spec fn duration_seconds(text: Seq<char>) -> Result<int, ParseIntError> {
    let body = without_markers(text);
    match position(body, 'H') {
        Some(h) => match decimal_i32(body.take(h)) {
            Err(error) => Err(error),
            Ok(hours) => {
                let rest = body.skip(h + 1);
                match position(rest, 'M') {
                    Some(m) => match decimal_i32(rest.take(m)) {
                        Err(error) => Err(error),
                        Ok(minutes) => Ok(seconds(hours, minutes)),
                    },
                    None => Ok(seconds(hours, 0)),
                }
            },
        },
        None => match position(body, 'M') {
            Some(m) => match decimal_i32(body.take(m)) {
                Err(error) => Err(error),
                Ok(minutes) => Ok(seconds(0, minutes)),
            },
            None => Ok(seconds(0, 0)),
        },
    }
}

/// Reads an ISO 8601 duration of hours and minutes as seconds.
pub fn parse_iso_duration(duration_str: &str) -> (parsed: Result<i64, ParseIntError>)
    ensures
        match parsed {
            Ok(total) => duration_seconds(duration_str@) == Ok::<int, ParseIntError>(total as int),
            Err(error) => duration_seconds(duration_str@) == Err::<int, ParseIntError>(error),
        },
{
    let chars = chars_of(duration_str);
    let n: usize = chars.len();
    let mut start: usize = 0;
    assert(chars@.skip(0) == chars@);
    while n - start >= 2 && chars[start] == 'P' && chars[start + 1] == 'T'
        invariant
            start <= n,
            n == chars@.len(),
            without_markers(chars@) == without_markers(chars@.skip(start as int)),
        decreases n - start,
    {
        assert(chars@.skip(start as int).skip(2) == chars@.skip(start + 2));
        start += 2;
    }
    let ghost body = chars@.skip(start as int);
    assert(without_markers(chars@) == body);
    assert(body == chars@.subrange(start as int, n as int));
    match find_char(&chars, start, n, 'H') {
        Some(h) => {
            assert(body.take(h - start) == chars@.subrange(start as int, h as int));
            let hours: i64 = parse_decimal(&chars, start, h, true, -0x8000_0000, 0x7fff_ffff)? as i64;
            let ghost rest = body.skip(h - start + 1);
            assert(rest == chars@.subrange(h + 1, n as int));
            match find_char(&chars, h + 1, n, 'M') {
                Some(m) => {
                    assert(rest.take(m - (h + 1)) == chars@.subrange(h + 1, m as int));
                    let minutes: i64 = parse_decimal(
                        &chars,
                        h + 1,
                        m,
                        true,
                        -0x8000_0000,
                        0x7fff_ffff,
                    )? as i64;
                    Ok(hours * 3600 + minutes * 60)
                },
                None => Ok(hours * 3600),
            }
        },
        None => match find_char(&chars, start, n, 'M') {
            Some(m) => {
                assert(body.take(m - start) == chars@.subrange(start as int, m as int));
                let minutes: i64 = parse_decimal(&chars, start, m, true, -0x8000_0000, 0x7fff_ffff)? as i64;
                Ok(minutes * 60)
            },
            None => Ok(0),
        },
    }
}

/// The run time in seconds that a scraped duration gives: none where the
/// page had no duration or one that cannot be read.
pub open spec fn run_time_seconds(run_time: Option<Seq<char>>) -> Option<int> {
    match run_time {
        Some(text) => match duration_seconds(text) {
            Ok(total) => Some(total),
            Err(_) => None,
        },
        None => None,
    }
}

/// The run time in seconds of a scraped duration, if it can be read.
pub fn run_time_of(run_time: &Option<String>) -> (total: Option<i64>)
    ensures
        match total {
            Some(value) => run_time_seconds(opt_text(*run_time)) == Some(value as int),
            None => run_time_seconds(opt_text(*run_time)) is None,
        },
{
    match run_time {
        Some(text) => match parse_iso_duration(text.as_str()) {
            Ok(value) => Some(value),
            Err(_) => None,
        },
        None => None,
    }
}

/// A film is in colour exactly where the page says `Color`.
pub open spec fn is_color(color: Seq<char>) -> bool {
    color == "Color"@
}

/// Tells whether a scraped colour description means a film in colour.
pub fn has_color(color: &String) -> (flag: bool)
    ensures
        flag == is_color(color@),
{
    let wanted = "Color".to_owned();
    *color == wanted
}

/// The colour flag that a scraped colour description gives.
pub open spec fn color_flag(color: Option<Seq<char>>) -> Option<bool> {
    match color {
        Some(text) => Some(is_color(text)),
        None => None,
    }
}

/// The colour flag of a scraped colour description; none where the page had
/// none.
pub fn color_flag_of(color: &Option<String>) -> (flag: Option<bool>)
    ensures
        flag == color_flag(opt_text(*color)),
{
    match color {
        Some(text) => Some(has_color(text)),
        None => None,
    }
}

/// A text, unless it is empty.
pub open spec fn filled(text: Seq<char>) -> Option<Seq<char>> {
    if text.len() == 0 {
        None
    } else {
        Some(text)
    }
}

/// Hands a text on unless it is empty.
pub fn non_empty(text: String) -> (kept: Option<String>)
    ensures
        opt_text(kept) == filled(text@),
{
    if text.as_str().is_empty() {
        None
    } else {
        Some(text)
    }
}

/// A scraped text with its character references decoded, twice over. An
/// empty text, and one that decodes to nothing, is no text.
pub open spec fn unescaped(text: Seq<char>) -> Option<Seq<char>> {
    if text.len() == 0 {
        None
    } else {
        filled(entities_decoded(entities_decoded(text)))
    }
}

/// Decodes the character references of a scraped text.
pub fn unescape_str(value: Option<&str>) -> (clean: Option<String>)
    ensures
        opt_text(clean) == match value {
            Some(text) => unescaped(text@),
            None => None,
        },
{
    match value {
        Some(text) => {
            if text.is_empty() {
                None
            } else {
                let once = decode_entities(text);
                non_empty(decode_entities(once.as_str()))
            }
        },
        None => None,
    }
}

/// Decodes the character references of a scraped text that is owned.
pub fn unescape_string(value: String) -> (clean: Option<String>)
    ensures
        opt_text(clean) == unescaped(value@),
{
    unescape_str(Some(value.as_str()))
}

/// A comma followed by a space stands at `i`.
pub open spec fn breaks_at(s: Seq<char>, i: int) -> bool {
    0 <= i && i + 1 < s.len() && s[i] == ',' && s[i + 1] == ' '
}

/// The last comma followed by a space stands at `k`.
pub open spec fn is_last_break(s: Seq<char>, k: int) -> bool {
    breaks_at(s, k) && forall|j: int| breaks_at(s, j) ==> j <= k
}

/// The last of the candidates of an image list, which a comma and a space
/// separate: the whole list where it has no such separator.
pub open spec fn last_candidate(s: Seq<char>) -> Seq<char> {
    if exists|k: int| is_last_break(s, k) {
        s.skip((choose|k: int| is_last_break(s, k)) + 2)
    } else {
        s
    }
}

/// The first run of characters that are not white space.
pub open spec fn first_word(s: Seq<char>) -> Option<Seq<char>> {
    let from = leading(s, |c: char| is_white_space(c));
    let rest = s.skip(from);
    let len = leading(rest, |c: char| !is_white_space(c));
    if len == 0 {
        None
    } else {
        Some(rest.take(len))
    }
}

/// Where a portrait is to be fetched, given the image list of a cast
/// block: the address of the list's last candidate.
pub open spec fn avatar_source_of(srcset: Seq<char>) -> Option<Seq<char>> {
    first_word(last_candidate(srcset))
}

/// Picks the address of the last candidate of an image list.
pub fn avatar_source(srcset: &str) -> (source: Option<String>)
    ensures
        opt_text(source) == avatar_source_of(srcset@),
{
    let chars = chars_of(srcset);
    let n: usize = chars.len();
    let mut end: usize = n;
    let mut start: usize = 0;
    let mut found: bool = false;
    while end >= 2 && !found
        invariant
            end <= n,
            n == chars@.len(),
            forall|j: int| j + 1 >= end ==> !breaks_at(chars@, j),
            found ==> is_last_break(chars@, start - 2) && 2 <= start <= n,
            !found ==> start == 0,
        decreases end + (if found { 0int } else { 1int }),
    {
        if chars[end - 2] == ',' && chars[end - 1] == ' ' {
            found = true;
            start = end;
            assert(breaks_at(chars@, end - 2));
        } else {
            end -= 1;
        }
    }
    proof {
        if found {
            let k = choose|k: int| is_last_break(chars@, k);
            assert(breaks_at(chars@, start - 2));
            assert(k == start - 2);
        } else {
            assert(forall|k: int| !is_last_break(chars@, k));
        }
    }
    let ghost candidate = chars@.skip(start as int);
    assert(candidate == last_candidate(chars@));
    let mut from: usize = start;
    while from < n && white_space(chars[from])
        invariant
            start <= from <= n,
            n == chars@.len(),
            candidate == chars@.skip(start as int),
            forall|j: int| 0 <= j < from - start ==> is_white_space(#[trigger] candidate[j]),
        decreases n - from,
    {
        from += 1;
    }
    proof {
        lemma_leading_is(candidate, |c: char| is_white_space(c), from - start);
    }
    let ghost rest = candidate.skip(from - start);
    assert(rest == chars@.skip(from as int));
    let mut to: usize = from;
    while to < n && !white_space(chars[to])
        invariant
            from <= to <= n,
            n == chars@.len(),
            rest == chars@.skip(from as int),
            forall|j: int| 0 <= j < to - from ==> !is_white_space(#[trigger] rest[j]),
        decreases n - to,
    {
        to += 1;
    }
    proof {
        lemma_leading_is(rest, |c: char| !is_white_space(c), to - from);
        assert(rest.take(to - from) == srcset@.subrange(from as int, to as int));
    }
    if to == from {
        None
    } else {
        Some(slice_of(srcset, from, to))
    }
}

} // verus!
