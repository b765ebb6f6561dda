//! Where a text stands in a file: its line and column.
use vstd::prelude::*;

use crate::text::{chars_of, find_from, find_from_exec};
use crate::utils::{char_line_column, line_column_of_char};

verus! {

/// The line and column where `value` first occurs in `content`.
pub open spec fn text_location(content: Seq<char>, value: Seq<char>) -> Option<(int, int)> {
    match find_from(content, value, 0) {
        Some(k) => Some(char_line_column(content, k)),
        None => None,
    }
}

/// The line and column where `value` first occurs after the first
/// `property:` of `content`.
pub open spec fn value_location(content: Seq<char>, property: Seq<char>, value: Seq<char>) -> Option<
    (int, int),
> {
    let needle = property + seq![':'];
    match find_from(content, needle, 0) {
        Some(p) => match find_from(content, value, p + needle.len()) {
            Some(k) => Some(char_line_column(content, k)),
            None => None,
        },
        None => None,
    }
}

pub open spec fn location_view(r: Option<(u32, u32)>) -> Option<(int, int)> {
    match r {
        Some((l, c)) => Some((l as int, c as int)),
        None => None,
    }
}

/// Finds where `value` first occurs in `content`.
pub fn find_text_location(content: &str, value: &str) -> (res: Option<(u32, u32)>)
    requires
        content@.len() < u32::MAX,
    ensures
        location_view(res) == text_location(content@, value@),
{
    let c = chars_of(content);
    let v = chars_of(value);
    match find_from_exec(&c, &v, 0) {
        Some(k) => Some(line_column_of_char(&c, k)),
        None => None,
    }
}

/// Finds where `value` first occurs after `property:` in `content`.
pub fn find_value_location(content: &str, property: &str, value: &str) -> (res: Option<(u32, u32)>)
    requires
        content@.len() < u32::MAX,
    ensures
        location_view(res) == value_location(content@, property@, value@),
{
    let c = chars_of(content);
    let mut needle = chars_of(property);
    let ghost pv = needle@;
    needle.push(':');
    assert(needle@ =~= property@ + seq![':']);
    let v = chars_of(value);
    proof {
        crate::text::lemma_find_from_bounds(c@, needle@, 0);
    }
    match find_from_exec(&c, &needle, 0) {
        Some(p) => {
            let n = c.len();
            assert(p + needle@.len() <= n);
            match find_from_exec(&c, &v, p + needle.len()) {
                Some(k) => Some(line_column_of_char(&c, k)),
                None => None,
            }
        },
        None => None,
    }
}

} // verus!
