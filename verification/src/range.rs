//! The `Range` request header in its single form `bytes=start-end`.

use crate::text::{
    all_digits, decimal_value, find_char, first_index, has_prefix, is_first_at,
    lemma_first_index, parse_u64, starts_with,
};
use vstd::prelude::*;

verus! {

/// A range of bytes of a file: where it starts and how long it is.
#[derive(Clone, Copy, Debug, PartialEq, Eq, Structural)]
pub struct HttpRange {
    pub start: u64,
    pub length: u64,
}

/// The text of a number: one or more digits that denote a value within
/// sixty-four bits.
pub open spec fn is_number(s: Seq<char>) -> bool {
    s.len() > 0 && all_digits(s) && decimal_value(s) <= u64::MAX
}

/// The range from `start` to `end`, both inclusive, within a file of `size`
/// bytes: none where it begins behind the file's end or ends before it
/// begins; an end beyond the file's is cut to it.
pub open spec fn clip(start: nat, end: nat, size: nat) -> Option<HttpRange> {
    if start <= end && start < size && size <= u64::MAX {
        let last = if end < size {
            end
        } else {
            (size - 1) as nat
        };
        Some(HttpRange { start: start as u64, length: (last - start + 1) as u64 })
    } else {
        None
    }
}

/// What a `Range` header asks of a file of `size` bytes.
pub open spec fn parse_range(header: Seq<char>, size: nat) -> Option<HttpRange> {
    if has_prefix(header, "bytes="@) {
        let rest = header.subrange("bytes="@.len() as int, header.len() as int);
        match first_index(rest, '-') {
            Some(dash) => {
                let first = rest.subrange(0, dash);
                let second = rest.subrange(dash + 1, rest.len() as int);
                if is_number(first) && is_number(second) {
                    clip(decimal_value(first), decimal_value(second), size)
                } else {
                    None
                }
            },
            None => None,
        }
    } else {
        None
    }
}

/// A header made of `bytes=`, a number, a dash and a number asks for the range
/// between the two numbers.
pub proof fn lemma_parse_range(first: Seq<char>, second: Seq<char>, size: nat)
    requires
        is_number(first),
        is_number(second),
    ensures
        parse_range("bytes="@ + first + seq!['-'] + second, size) == clip(
            decimal_value(first),
            decimal_value(second),
            size,
        ),
{
    let header = "bytes="@ + first + seq!['-'] + second;
    let lead = "bytes="@.len() as int;
    assert(header.subrange(0, lead) =~= "bytes="@);
    let rest = header.subrange(lead, header.len() as int);
    assert(rest =~= first + seq!['-'] + second);
    let dash = first.len() as int;
    assert(is_first_at(rest, '-', dash)) by {
        assert forall|j: int| 0 <= j < dash implies rest[j] != '-' by {
            assert(rest[j] == first[j]);
        }
    }
    lemma_first_index(rest, '-', dash);
    assert(rest.subrange(0, dash) =~= first);
    assert(rest.subrange(dash + 1, rest.len() as int) =~= second);
}

impl HttpRange {
    /// Reads a `Range` header against a file of `size` bytes.
    pub fn parse(header: &str, size: u64) -> (range: Option<HttpRange>)
        ensures
            range == parse_range(header@, size as nat),
    {
        if !starts_with(header, "bytes=") {
            return None;
        }
        let n: usize = header.unicode_len();
        let lead: usize = "bytes=".unicode_len();
        let rest = header.substring_char(lead, n);
        match find_char(rest, '-') {
            None => None,
            Some(dash) => {
                let m: usize = rest.unicode_len();
                let first = parse_u64(rest.substring_char(0, dash));
                let second = parse_u64(rest.substring_char(dash + 1, m));
                match (first, second) {
                    (Some(start), Some(end)) => {
                        if start <= end && start < size {
                            let last: u64 = if end < size {
                                end
                            } else {
                                size - 1
                            };
                            Some(HttpRange { start, length: last - start + 1 })
                        } else {
                            None
                        }
                    },
                    _ => None,
                }
            },
        }
    }
}

} // verus!
