//! Which bytes of a film's file a request is answered with.

use vstd::prelude::*;
use vstd::string::*;

use crate::text::{chars_of, decimal_u64, parse_u64, slice_of, split, split_text, texts};

verus! {

/// How many bytes a request without a range is answered with at most.
pub const INITIAL_CHUNK_SIZE: u64 = 1_048_576;

/// The header value asks for bytes: it starts with `bytes=`.
pub open spec fn asks_for_bytes(range: Seq<char>) -> bool {
    range.len() >= 6 && range.take(6) == "bytes="@
}

/// The number that a text holds, if it is a `u64` in decimal.
pub open spec fn number(text: Seq<char>) -> Option<int> {
    match decimal_u64(text) {
        Ok(value) => Some(value),
        Err(_) => None,
    }
}

/// The first byte that a request wants: the number before the first
/// hyphen of the range, or the beginning of the file.
pub open spec fn wanted_start(range: Option<Seq<char>>) -> int {
    match range {
        Some(text) => if asks_for_bytes(text) {
            match number(split(text.skip(6), '-')[0]) {
                Some(value) => value,
                None => 0,
            }
        } else {
            0
        },
        None => 0,
    }
}

/// The last byte that a request wants: the number after the first hyphen
/// of the range, or the end of the file; without a range, the end of the
/// first chunk.
pub open spec fn wanted_end(range: Option<Seq<char>>, file_length: int) -> int {
    let chunk_end = if file_length < INITIAL_CHUNK_SIZE {
        file_length - 1
    } else {
        INITIAL_CHUNK_SIZE - 1
    };
    match range {
        Some(text) => if asks_for_bytes(text) {
            let parts = split(text.skip(6), '-');
            if parts.len() > 1 {
                match number(parts[1]) {
                    Some(value) => value,
                    None => file_length - 1,
                }
            } else {
                file_length - 1
            }
        } else {
            chunk_end
        },
        None => chunk_end,
    }
}

/// The bytes from `start` to `end` are bytes of the file.
pub open spec fn satisfiable(start: int, end: int, file_length: int) -> bool {
    start < file_length && end < file_length && start <= end
}

/// The first and the last byte to answer a request with, given the range
/// header of the request and the length of the file. There are none where
/// the range does not lie in the file; in an empty file no range does.
pub fn byte_range(range: Option<&str>, file_length: u64) -> (bytes: Option<(u64, u64)>)
    ensures
        match bytes {
            Some((start, end)) => {
                &&& start == wanted_start(
                    match range {
                        Some(text) => Some(text@),
                        None => None,
                    },
                )
                &&& end == wanted_end(
                    match range {
                        Some(text) => Some(text@),
                        None => None,
                    },
                    file_length as int,
                )
                &&& satisfiable(start as int, end as int, file_length as int)
            },
            None => !satisfiable(
                wanted_start(
                    match range {
                        Some(text) => Some(text@),
                        None => None,
                    },
                ),
                wanted_end(
                    match range {
                        Some(text) => Some(text@),
                        None => None,
                    },
                    file_length as int,
                ),
                file_length as int,
            ),
        },
{
    let ghost given = match range {
        Some(text) => Some(text@),
        None => None,
    };
    proof {
        match given {
            Some(text) => {
                if asks_for_bytes(text) {
                    match decimal_u64(split(text.skip(6), '-')[0]) {
                        Ok(value) => {
                            assert(value >= 0) by {
                                crate::text::lemma_decimal_in_range(
                                    split(text.skip(6), '-')[0],
                                    false,
                                    0,
                                    0xffff_ffff_ffff_ffff,
                                );
                            }
                        },
                        Err(_) => {},
                    }
                }
            },
            None => {},
        }
        assert(wanted_start(given) >= 0);
    }
    if file_length == 0 {
        return None;
    }
    let chunk_end: u64 = if file_length < INITIAL_CHUNK_SIZE {
        file_length - 1
    } else {
        INITIAL_CHUNK_SIZE - 1
    };
    let (start, end): (u64, u64) = match range {
        None => (0, chunk_end),
        Some(text) => {
            let chars = chars_of(text);
            proof {
                reveal_strlit("bytes=");
            }
            if chars.len() >= 6 && chars[0] == 'b' && chars[1] == 'y' && chars[2] == 't'
                && chars[3] == 'e' && chars[4] == 's' && chars[5] == '=' {
                assert(text@.take(6) =~= "bytes="@);
                let rest = slice_of(text, 6, chars.len());
                assert(rest@ == text@.skip(6));
                let parts = split_text(rest.as_str(), '-');
                proof {
                    crate::text::lemma_split_some(rest@, '-');
                    assert(texts(parts@)[0] == parts@[0]@);
                    if parts@.len() > 1 {
                        assert(texts(parts@)[1] == parts@[1]@);
                    }
                }
                let start: u64 = match parse_u64(parts[0].as_str()) {
                    Ok(value) => value,
                    Err(_) => 0,
                };
                let end: u64 = if parts.len() > 1 {
                    match parse_u64(parts[1].as_str()) {
                        Ok(value) => value,
                        Err(_) => file_length - 1,
                    }
                } else {
                    file_length - 1
                };
                (start, end)
            } else {
                proof {
                    if text@.len() >= 6 {
                        let head = text@.take(6);
                        assert(head[0] == text@[0] && head[1] == text@[1] && head[2] == text@[2]
                            && head[3] == text@[3] && head[4] == text@[4] && head[5] == text@[5]);
                    }
                }
                (0, chunk_end)
            }
        },
    };
    if start >= file_length || end >= file_length || start > end {
        None
    } else {
        Some((start, end))
    }
}

} // verus!
