//! Reading command metadata out of TypeScript sources: decorator blocks,
//! object properties, string literals, class names.
use vstd::prelude::*;

use crate::lexer::{code_marker, find_code_marker, is_quote, lemma_marker_from_bounds, mask,
    mask_source, MaskStyle,
};
use crate::text::{
    alphanumeric, chars_eq_str, chars_of, find_char_exec, find_char_from, find_from,
    find_from_exec, is_alphanumeric_char, is_ascii_digit, is_ascii_upper, is_whitespace_char,
    is_ws, lemma_find_char_from_bounds, lemma_find_from_bounds, occurs_at, skip_ws, slice_to_vec,
    string_of, trim, trim_range, trim_start, ws_end,
};

verus! {

// ---------------------------------------------------------------------------
// Bracket matching
// ---------------------------------------------------------------------------

/// Scanning `s` from index `i` (inside a string literal opened by `q.0`,
/// right after a backslash when `q.1`, or in code when `q` is `None`) with
/// bracket depth `d`: the index of the `close` that brings the depth back to
/// zero. The depth counts modulo 2^32.
pub open spec fn balanced_from(
    s: Seq<char>,
    i: int,
    q: Option<(char, bool)>,
    d: u32,
    open: char,
    close: char,
) -> Option<int>
    decreases s.len() - i,
{
    if i < 0 || i >= s.len() {
        None
    } else {
        let c = s[i];
        match q {
            Some((quote, escaped)) => if escaped {
                balanced_from(s, i + 1, Some((quote, false)), d, open, close)
            } else if c == '\\' {
                balanced_from(s, i + 1, Some((quote, true)), d, open, close)
            } else if c == quote {
                balanced_from(s, i + 1, None, d, open, close)
            } else {
                balanced_from(s, i + 1, Some((quote, false)), d, open, close)
            },
            None => if is_quote(c) {
                balanced_from(s, i + 1, Some((c, false)), d, open, close)
            } else if c == open {
                balanced_from(s, i + 1, None, add1(d), open, close)
            } else if c == close {
                if sub1(d) == 0 {
                    Some(i)
                } else {
                    balanced_from(s, i + 1, None, sub1(d), open, close)
                }
            } else {
                balanced_from(s, i + 1, None, d, open, close)
            },
        }
    }
}

pub open spec fn add1(d: u32) -> u32 {
    if d == u32::MAX {
        0
    } else {
        (d + 1) as u32
    }
}

pub open spec fn sub1(d: u32) -> u32 {
    if d == 0 {
        u32::MAX
    } else {
        (d - 1) as u32
    }
}

pub proof fn lemma_balanced_bounds(
    s: Seq<char>,
    i: int,
    q: Option<(char, bool)>,
    d: u32,
    open: char,
    close: char,
)
    requires
        0 <= i,
    ensures
        balanced_from(s, i, q, d, open, close) matches Some(k) ==> i <= k < s.len() && s[k]
            == close,
    decreases s.len() - i,
{
    if i < s.len() {
        let c = s[i];
        match q {
            Some((quote, escaped)) => {
                if escaped {
                    lemma_balanced_bounds(s, i + 1, Some((quote, false)), d, open, close);
                } else if c == '\\' {
                    lemma_balanced_bounds(s, i + 1, Some((quote, true)), d, open, close);
                } else if c == quote {
                    lemma_balanced_bounds(s, i + 1, None, d, open, close);
                } else {
                    lemma_balanced_bounds(s, i + 1, Some((quote, false)), d, open, close);
                }
            },
            None => {
                if is_quote(c) {
                    lemma_balanced_bounds(s, i + 1, Some((c, false)), d, open, close);
                } else if c == open {
                    lemma_balanced_bounds(s, i + 1, None, add1(d), open, close);
                } else if c == close {
                    if sub1(d) != 0 {
                        lemma_balanced_bounds(s, i + 1, None, sub1(d), open, close);
                    }
                } else {
                    lemma_balanced_bounds(s, i + 1, None, d, open, close);
                }
            },
        }
    }
}

/// The index, from `from` on, of the `close` that balances the brackets
/// opened from there on, skipping string literals.
pub fn balanced_end(s: &[char], from: usize, open: char, close: char) -> (res: Option<usize>)
    ensures
        match res {
            Some(k) => balanced_from(s@, from as int, None, 0, open, close) == Some(k as int),
            None => balanced_from(s@, from as int, None, 0, open, close) is None,
        },
{
    let mut i = from;
    let mut q: Option<(char, bool)> = None;
    let mut d: u32 = 0;
    while i < s.len()
        invariant
            from <= i,
            balanced_from(s@, from as int, None, 0, open, close) == balanced_from(
                s@,
                i as int,
                q,
                d,
                open,
                close,
            ),
        decreases s@.len() - i,
    {
        let c = s[i];
        match q {
            Some((quote, escaped)) => {
                if escaped {
                    q = Some((quote, false));
                } else if c == '\\' {
                    q = Some((quote, true));
                } else if c == quote {
                    q = None;
                } else {
                    q = Some((quote, false));
                }
            },
            None => {
                if c == '"' || c == '\'' || c == '`' {
                    q = Some((c, false));
                } else if c == open {
                    d = d.wrapping_add(1);
                } else if c == close {
                    let nd = d.wrapping_sub(1);
                    if nd == 0 {
                        return Some(i);
                    }
                    d = nd;
                }
            },
        }
        i = i + 1;
    }
    None
}

// ---------------------------------------------------------------------------
// String literals
// ---------------------------------------------------------------------------

/// Reading a string literal closed by `q` from index `i` of `s` (right after
/// a backslash when `escaped`): its text, backslashes dropped and the
/// character after each kept, and the index right after the closing quote;
/// `None` when the literal is not closed.
pub open spec fn quoted_scan(s: Seq<char>, i: int, q: char, escaped: bool) -> Option<
    (Seq<char>, int),
>
    decreases s.len() - i,
{
    if i < 0 || i >= s.len() {
        None
    } else if escaped {
        prepend(s[i], quoted_scan(s, i + 1, q, false))
    } else if s[i] == '\\' {
        quoted_scan(s, i + 1, q, true)
    } else if s[i] == q {
        Some((Seq::empty(), i + 1))
    } else {
        prepend(s[i], quoted_scan(s, i + 1, q, false))
    }
}

pub open spec fn prepend(c: char, r: Option<(Seq<char>, int)>) -> Option<(Seq<char>, int)> {
    match r {
        Some((t, e)) => Some((seq![c] + t, e)),
        None => None,
    }
}

pub open spec fn prefixed(acc: Seq<char>, r: Option<(Seq<char>, int)>) -> Option<(Seq<char>, int)> {
    match r {
        Some((t, e)) => Some((acc + t, e)),
        None => None,
    }
}

/// The text of the string literal that `v` starts with.
pub open spec fn quoted_value(v: Seq<char>) -> Option<Seq<char>> {
    if v.len() > 0 && is_quote(v[0]) {
        match quoted_scan(v, 1, v[0], false) {
            Some((t, _)) => Some(t),
            None => None,
        }
    } else {
        None
    }
}

/// Reads the string literal closed by `quote` whose text starts at index
/// `i` of `s`: its text and the index right after its closing quote.
pub fn read_literal(s: &[char], i: usize, quote: char) -> (res: Option<(Vec<char>, usize)>)
    ensures
        match res {
            Some((t, e)) => quoted_scan(s@, i as int, quote, false) == Some((t@, e as int)),
            None => quoted_scan(s@, i as int, quote, false) is None,
        },
{
    let mut acc: Vec<char> = Vec::new();
    let mut k = i;
    let mut escaped = false;
    while k < s.len()
        invariant
            i <= k,
            quoted_scan(s@, i as int, quote, false) == prefixed(
                acc@,
                quoted_scan(s@, k as int, quote, escaped),
            ),
        decreases s@.len() - k,
    {
        let c = s[k];
        if escaped {
            let ghost before = acc@;
            acc.push(c);
            proof {
                assert(before + seq![c] =~= acc@);
                let r = quoted_scan(s@, k + 1, quote, false);
                match r {
                    Some((t, e)) => {
                        assert(before + (seq![c] + t) =~= acc@ + t);
                    },
                    None => {},
                }
            }
            escaped = false;
        } else if c == '\\' {
            escaped = true;
        } else if c == quote {
            assert(acc@ + Seq::<char>::empty() =~= acc@);
            return Some((acc, k + 1));
        } else {
            let ghost before = acc@;
            acc.push(c);
            proof {
                let r = quoted_scan(s@, k + 1, quote, false);
                match r {
                    Some((t, e)) => {
                        assert(before + (seq![c] + t) =~= acc@ + t);
                    },
                    None => {},
                }
            }
        }
        k = k + 1;
    }
    None
}

pub proof fn lemma_quoted_scan_end(s: Seq<char>, i: int, q: char, escaped: bool)
    requires
        0 <= i,
    ensures
        quoted_scan(s, i, q, escaped) matches Some((_, e)) ==> i < e <= s.len(),
    decreases s.len() - i,
{
    if i < s.len() {
        if escaped {
            lemma_quoted_scan_end(s, i + 1, q, false);
        } else if s[i] == '\\' {
            lemma_quoted_scan_end(s, i + 1, q, true);
        } else if s[i] != q {
            lemma_quoted_scan_end(s, i + 1, q, false);
        }
    }
}

/// The text of the string literal that `s[from..]` starts with.
pub fn quoted_value_at(s: &[char], from: usize) -> (res: Option<Vec<char>>)
    requires
        from <= s@.len(),
    ensures
        match res {
            Some(t) => quoted_value(s@.skip(from as int)) == Some(t@),
            None => quoted_value(s@.skip(from as int)) is None,
        },
{
    if from >= s.len() {
        return None;
    }
    let quote = s[from];
    if !(quote == '"' || quote == '\'' || quote == '`') {
        return None;
    }
    let tail = slice_to_vec(s, from, s.len());
    assert(tail@ =~= s@.skip(from as int));
    match read_literal(&tail, 1, quote) {
        Some((t, _)) => Some(t),
        None => None,
    }
}

// ---------------------------------------------------------------------------
// Object properties
// ---------------------------------------------------------------------------

/// A character that may be part of an identifier.
pub open spec fn is_ident_char(c: char) -> bool {
    alphanumeric(c) || c == '_' || c == '$'
}

/// Whether `c` may be part of an identifier.
pub fn is_identifier_character(c: char) -> (res: bool)
    ensures
        res == is_ident_char(c),
{
    is_alphanumeric_char(c) || c == '_' || c == '$'
}

/// `s[start..end]` is not glued to identifier characters on either side.
pub open spec fn bounded_at(s: Seq<char>, start: int, end: int) -> bool {
    (start <= 0 || !is_ident_char(s[start - 1])) && (end >= s.len() || !is_ident_char(s[end]))
}

/// Searching `block` from `from` on: the index where the value of property
/// `key` starts, the first code occurrence of `key` that is a whole word
/// followed by `:` giving it.
pub open spec fn property_tail_from(block: Seq<char>, key: Seq<char>, from: int) -> Option<int>
    decreases block.len() + 1 - from,
{
    if from < 0 || key.len() == 0 {
        None
    } else {
        match code_marker(block, key, from) {
            None => None,
            Some(start) => {
                proof {
                    lemma_marker_from_bounds(block, 0, crate::lexer::Lex::Code, key, from);
                }
                let end = start + key.len();
                let t = ws_end(block, end);
                if bounded_at(block, start, end) && t < block.len() && block[t] == ':' {
                    Some(ws_end(block, t + 1))
                } else {
                    property_tail_from(block, key, end)
                }
            },
        }
    }
}

/// Where the value of property `key` starts in `block`.
pub open spec fn property_tail(block: Seq<char>, key: Seq<char>) -> Option<int> {
    property_tail_from(block, key, 0)
}

pub proof fn lemma_ws_end_bounds(s: Seq<char>, i: int)
    requires
        0 <= i <= s.len(),
    ensures
        i <= ws_end(s, i) <= s.len(),
    decreases s.len() - i,
{
    if i < s.len() && is_ws(s[i]) {
        lemma_ws_end_bounds(s, i + 1);
    }
}

pub proof fn lemma_property_tail_bounds(block: Seq<char>, key: Seq<char>, from: int)
    ensures
        property_tail_from(block, key, from) matches Some(k) ==> 0 <= k <= block.len(),
    decreases block.len() + 1 - from,
{
    if from >= 0 && key.len() > 0 {
        lemma_marker_from_bounds(block, 0, crate::lexer::Lex::Code, key, from);
        match code_marker(block, key, from) {
            None => {},
            Some(start) => {
                let end = start + key.len();
                lemma_ws_end_bounds(block, end);
                let t = ws_end(block, end);
                if bounded_at(block, start, end) && t < block.len() && block[t] == ':' {
                    lemma_ws_end_bounds(block, t + 1);
                } else {
                    lemma_property_tail_bounds(block, key, end);
                }
            },
        }
    }
}

/// Where the value of property `key` starts in `block`.
pub fn extract_property_tail(block: &[char], key: &[char]) -> (res: Option<usize>)
    requires
        key@.len() > 0,
    ensures
        match res {
            Some(k) => property_tail(block@, key@) == Some(k as int) && k <= block@.len(),
            None => property_tail(block@, key@) is None,
        },
{
    let mut search_start: usize = 0;
    loop
        invariant
            key@.len() > 0,
            search_start <= block@.len(),
            property_tail(block@, key@) == property_tail_from(block@, key@, search_start as int),
        decreases block@.len() + 1 - search_start,
    {
        let ghost from = search_start as int;
        match find_code_marker(block, key, search_start) {
            None => {
                return None;
            },
            Some(start) => {
                proof {
                    lemma_marker_from_bounds(block@, 0, crate::lexer::Lex::Code, key@, from);
                    assert(code_marker(block@, key@, from) == Some(start as int));
                    assert(occurs_at(block@, key@, start as int));
                }
                let blen = block.len();
                assert(start + key@.len() <= blen);
                let end = start + key.len();
                let valid_prefix = start == 0 || !is_identifier_character(block[start - 1]);
                let valid_suffix = end >= block.len() || !is_identifier_character(block[end]);
                let t = skip_ws(block, end);
                if valid_prefix && valid_suffix && t < block.len() && block[t] == ':' {
                    let v = skip_ws(block, t + 1);
                    return Some(v);
                }
                search_start = end;
            },
        }
    }
}

/// Where a property value given by its first character ends: at the first
/// `,`, line break or `}`.
pub open spec fn is_value_delim(c: char) -> bool {
    c == ',' || c == '\n' || c == '\r' || c == '}'
}

/// The first index at or after `i` that holds a value delimiter.
pub open spec fn delim_index(s: Seq<char>, i: int) -> int
    decreases s.len() - i,
{
    if 0 <= i < s.len() && !is_value_delim(s[i]) {
        delim_index(s, i + 1)
    } else {
        i
    }
}

/// The text of `s` up to its first value delimiter.
pub open spec fn first_segment(s: Seq<char>) -> Seq<char> {
    s.take(delim_index(s, 0))
}

pub proof fn lemma_delim_index_bounds(s: Seq<char>, i: int)
    requires
        0 <= i <= s.len(),
    ensures
        i <= delim_index(s, i) <= s.len(),
    decreases s.len() - i,
{
    if i < s.len() && !is_value_delim(s[i]) {
        lemma_delim_index_bounds(s, i + 1);
    }
}

/// The bounds of the first segment of `s[from..]`, trimmed.
pub fn segment_bounds(s: &[char], from: usize) -> (res: (usize, usize))
    requires
        from <= s@.len(),
    ensures
        from <= res.0 <= res.1 <= s@.len(),
        s@.subrange(res.0 as int, res.1 as int) == trim(first_segment(s@.skip(from as int))),
{
    let mut k = from;
    let ghost t = s@.skip(from as int);
    while k < s.len() && !(s[k] == ',' || s[k] == '\n' || s[k] == '\r' || s[k] == '}')
        invariant
            from <= k <= s@.len(),
            t == s@.skip(from as int),
            delim_index(t, 0) == delim_index(t, k - from),
        decreases s@.len() - k,
    {
        k = k + 1;
    }
    proof {
        assert(delim_index(t, k - from) == k - from);
        assert(t.take(k - from) =~= s@.subrange(from as int, k as int));
    }
    trim_range(s, from, k)
}

/// The string value of property `key` of `block`.
pub fn extract_string_property(block: &[char], key: &str) -> (res: Option<String>)
    requires
        key@.len() > 0,
    ensures
        match res {
            Some(v) => string_property(block@, key@) == Some(v@),
            None => string_property(block@, key@) is None,
        },
{
    let k = chars_of(key);
    match extract_property_tail(block, &k) {
        None => None,
        Some(t) => match quoted_value_at(block, t) {
            Some(v) => Some(string_of(&v)),
            None => None,
        },
    }
}

/// The string value of property `key` of `block`.
pub open spec fn string_property(block: Seq<char>, key: Seq<char>) -> Option<Seq<char>> {
    match property_tail(block, key) {
        Some(t) => quoted_value(block.skip(t)),
        None => None,
    }
}

/// The boolean value of property `key` of `block`.
pub open spec fn bool_property(block: Seq<char>, key: Seq<char>) -> Option<bool> {
    match property_tail(block, key) {
        Some(t) => {
            let v = trim(first_segment(block.skip(t)));
            if v == "true"@ {
                Some(true)
            } else if v == "false"@ {
                Some(false)
            } else {
                None
            }
        },
        None => None,
    }
}

/// The raw value of property `key` of `block`, when not empty.
pub open spec fn value_property(block: Seq<char>, key: Seq<char>) -> Option<Seq<char>> {
    match property_tail(block, key) {
        Some(t) => {
            let v = trim(first_segment(block.skip(t)));
            if v.len() == 0 {
                None
            } else {
                Some(v)
            }
        },
        None => None,
    }
}

/// The boolean value of property `key` of `block`.
pub fn extract_bool_property(block: &[char], key: &str) -> (res: Option<bool>)
    requires
        key@.len() > 0,
    ensures
        res == bool_property(block@, key@),
{
    let k = chars_of(key);
    match extract_property_tail(block, &k) {
        None => None,
        Some(t) => {
            let (a, b) = segment_bounds(block, t);
            let v = slice_to_vec(block, a, b);
            if chars_eq_str(&v, "true") {
                Some(true)
            } else if chars_eq_str(&v, "false") {
                Some(false)
            } else {
                None
            }
        },
    }
}

/// The raw value of property `key` of `block`, when not empty.
pub fn extract_value_property(block: &[char], key: &str) -> (res: Option<String>)
    requires
        key@.len() > 0,
    ensures
        match res {
            Some(v) => value_property(block@, key@) == Some(v@),
            None => value_property(block@, key@) is None,
        },
{
    let k = chars_of(key);
    match extract_property_tail(block, &k) {
        None => None,
        Some(t) => {
            let (a, b) = segment_bounds(block, t);
            if a == b {
                None
            } else {
                Some(crate::text::string_of_range(block, a, b))
            }
        },
    }
}

/// The string literals of an array text `a`, scanned from index `i` (inside
/// a literal opened by `q.0`, right after a backslash when `q.1`, with `cur`
/// read so far; or outside literals when `q` is `None`).
pub open spec fn array_items(a: Seq<char>, i: int, q: Option<(char, bool)>, cur: Seq<char>) -> Seq<
    Seq<char>,
>
    decreases a.len() - i,
{
    if i < 0 || i >= a.len() {
        Seq::empty()
    } else {
        match q {
            Some((quote, escaped)) => if escaped {
                array_items(a, i + 1, Some((quote, false)), cur.push(a[i]))
            } else if a[i] == '\\' {
                array_items(a, i + 1, Some((quote, true)), cur)
            } else if a[i] == quote {
                seq![cur] + array_items(a, i + 1, None, Seq::empty())
            } else {
                array_items(a, i + 1, Some((quote, false)), cur.push(a[i]))
            },
            None => if is_quote(a[i]) {
                array_items(a, i + 1, Some((a[i], false)), cur)
            } else {
                array_items(a, i + 1, None, cur)
            },
        }
    }
}

/// The strings of the array value of property `key` of `block`: the string
/// literals between its `[` and the first `]`.
pub open spec fn string_array_property(block: Seq<char>, key: Seq<char>) -> Seq<Seq<char>> {
    match property_tail(block, key) {
        Some(t) => {
            let v = trim_start(block.skip(t));
            if v.len() > 0 && v[0] == '[' {
                let end = match find_char_from(v, ']', 0) {
                    Some(e) => e,
                    None => v.len() as int,
                };
                array_items(v.take(end), 0, None, Seq::empty())
            } else {
                Seq::empty()
            }
        },
        None => Seq::empty(),
    }
}

/// The string literals of the array text `a`.
fn array_strings(a: &[char]) -> (res: Vec<String>)
    ensures
        res@.map_values(|s: String| s@) == array_items(a@, 0, None, Seq::empty()),
{
    let mut items: Vec<String> = Vec::new();
    let mut q: Option<(char, bool)> = None;
    let mut cur: Vec<char> = Vec::new();
    let mut i: usize = 0;
    while i < a.len()
        invariant
            i <= a@.len(),
            array_items(a@, 0, None, Seq::empty()) == items@.map_values(|s: String| s@)
                + array_items(a@, i as int, q, cur@),
        decreases a@.len() - i,
    {
        let c = a[i];
        match q {
            Some((quote, escaped)) => {
                if escaped {
                    cur.push(c);
                    q = Some((quote, false));
                } else if c == '\\' {
                    q = Some((quote, true));
                } else if c == quote {
                    let item = string_of(&cur);
                    let ghost before = items@;
                    items.push(item);
                    proof {
                        assert(items@.map_values(|s: String| s@) =~= before.map_values(
                            |s: String| s@,
                        ).push(cur@));
                        assert(before.map_values(|s: String| s@) + (seq![cur@] + array_items(
                            a@,
                            i + 1,
                            None,
                            Seq::empty(),
                        )) =~= items@.map_values(|s: String| s@) + array_items(
                            a@,
                            i + 1,
                            None,
                            Seq::empty(),
                        ));
                    }
                    cur = Vec::new();
                    q = None;
                } else {
                    cur.push(c);
                    q = Some((quote, false));
                }
            },
            None => {
                if c == '"' || c == '\'' || c == '`' {
                    q = Some((c, false));
                }
            },
        }
        i = i + 1;
    }
    assert(items@.map_values(|s: String| s@) + Seq::<Seq<char>>::empty() =~= items@.map_values(
        |s: String| s@,
    ));
    items
}

/// The strings of the array value of property `key` of `block`.
pub fn extract_string_array_property(block: &[char], key: &str) -> (res: Vec<String>)
    requires
        key@.len() > 0,
    ensures
        res@.map_values(|s: String| s@) == string_array_property(block@, key@),
{
    let k = chars_of(key);
    match extract_property_tail(block, &k) {
        None => {
            let res: Vec<String> = Vec::new();
            assert(res@.map_values(|s: String| s@) =~= Seq::<Seq<char>>::empty());
            res
        },
        Some(t) => {
            let start = skip_ws(block, t);
            let v = slice_to_vec(block, start, block.len());
            assert(v@ =~= trim_start(block@.skip(t as int)));
            if v.len() == 0 || v[0] != '[' {
                let res: Vec<String> = Vec::new();
                assert(res@.map_values(|s: String| s@) =~= Seq::<Seq<char>>::empty());
                return res;
            }
            let end = match find_char_exec(&v, ']', 0) {
                Some(e) => {
                    proof {
                        lemma_find_char_from_bounds(v@, ']', 0);
                    }
                    e
                },
                None => v.len(),
            };
            let arr = slice_to_vec(&v, 0, end);
            assert(arr@ =~= v@.take(end as int));
            array_strings(&arr)
        },
    }
}

// ---------------------------------------------------------------------------
// Identifiers and classes
// ---------------------------------------------------------------------------

/// The first index at or after `i` that does not hold an identifier character.
pub open spec fn ident_end(s: Seq<char>, i: int) -> int
    decreases s.len() - i,
{
    if 0 <= i < s.len() && is_ident_char(s[i]) {
        ident_end(s, i + 1)
    } else {
        i
    }
}

/// The identifier that `v` starts with once leading white space is skipped.
pub open spec fn identifier(v: Seq<char>) -> Option<Seq<char>> {
    let t = trim_start(v);
    let e = ident_end(t, 0);
    if e <= 0 {
        None
    } else {
        Some(t.take(e))
    }
}

/// The identifier that `s[from..]` starts with once leading white space is skipped.
pub fn extract_identifier(s: &[char], from: usize) -> (res: Option<String>)
    requires
        from <= s@.len(),
    ensures
        match res {
            Some(v) => identifier(s@.skip(from as int)) == Some(v@),
            None => identifier(s@.skip(from as int)) is None,
        },
{
    let start = skip_ws(s, from);
    let ghost t = s@.skip(start as int);
    let mut k = start;
    while k < s.len() && is_identifier_character(s[k])
        invariant
            start <= k <= s@.len(),
            t == s@.skip(start as int),
            ident_end(t, 0) == ident_end(t, k - start),
        decreases s@.len() - k,
    {
        k = k + 1;
    }
    proof {
        assert(ident_end(t, k - start) == k - start);
    }
    if k == start {
        None
    } else {
        assert(t.take(k - start) =~= s@.subrange(start as int, k as int));
        Some(crate::text::string_of_range(s, start, k))
    }
}

/// The name of the first class declared in the code of `content`.
pub open spec fn class_name(content: Seq<char>) -> Option<Seq<char>> {
    match code_marker(content, "class"@, 0) {
        Some(p) => identifier(content.skip(p + 5)),
        None => None,
    }
}

/// The name after ` extends ` following the first class declaration.
pub open spec fn extends_name(content: Seq<char>) -> Option<Seq<char>> {
    match code_marker(content, "class"@, 0) {
        Some(p) => {
            let after = content.skip(p);
            match find_from(after, " extends "@, 0) {
                Some(e) => identifier(after.skip(e + 9)),
                None => None,
            }
        },
        None => None,
    }
}

/// The name of the first class declared in the code of `content`.
pub fn extract_class_name(content: &[char]) -> (res: Option<String>)
    ensures
        match res {
            Some(v) => class_name(content@) == Some(v@),
            None => class_name(content@) is None,
        },
{
    match crate::lexer::find_code_marker_str(content, "class", 0) {
        None => None,
        Some(p) => {
            proof {
                lemma_marker_from_bounds(content@, 0, crate::lexer::Lex::Code, "class"@, 0);
                reveal_strlit("class");
            }
            let n = content.len();
            assert(p + 5 <= n);
            extract_identifier(content, p + 5)
        },
    }
}

/// The name that the first class declared in `content` extends.
pub fn extract_extends_name(content: &[char]) -> (res: Option<String>)
    ensures
        match res {
            Some(v) => extends_name(content@) == Some(v@),
            None => extends_name(content@) is None,
        },
{
    match crate::lexer::find_code_marker_str(content, "class", 0) {
        None => None,
        Some(p) => {
            proof {
                lemma_marker_from_bounds(content@, 0, crate::lexer::Lex::Code, "class"@, 0);
            }
            let after = slice_to_vec(content, p, content.len());
            assert(after@ =~= content@.skip(p as int));
            let ext = chars_of(" extends ");
            match find_from_exec(&after, &ext, 0) {
                None => None,
                Some(e) => {
                    proof {
                        lemma_find_from_bounds(after@, ext@, 0);
                        reveal_strlit(" extends ");
                    }
                    extract_identifier(&after, e + 9)
                },
            }
        },
    }
}

/// Searching `code` from `from` on: a whole-word `run` followed by `(`.
pub open spec fn run_call_from(code: Seq<char>, from: int) -> bool
    decreases code.len() + 1 - from,
{
    if from < 0 {
        false
    } else {
        match find_from(code, "run"@, from) {
            None => false,
            Some(start) => {
                proof {
                    lemma_find_from_bounds(code, "run"@, from);
                    reveal_strlit("run");
                }
                let end = start + 3;
                let t = ws_end(code, end);
                if bounded_at(code, start, end) && t < code.len() && code[t] == '(' {
                    true
                } else {
                    run_call_from(code, end)
                }
            },
        }
    }
}

/// The code of `content` declares or calls `run(`.
pub open spec fn has_run(content: Seq<char>) -> bool {
    run_call_from(mask(content, MaskStyle::CharWidth), 0)
}

/// Whether the code of `content` (outside comments and strings) holds a
/// whole-word `run` followed by `(`.
pub fn has_run_method(content: &[char]) -> (res: bool)
    ensures
        res == has_run(content@),
{
    let code = mask_source(content, MaskStyle::CharWidth);
    let run = chars_of("run");
    proof {
        reveal_strlit("run");
    }
    let mut search_start: usize = 0;
    loop
        invariant
            run@ == "run"@,
            run@.len() == 3,
            search_start <= code@.len(),
            has_run(content@) == run_call_from(code@, search_start as int),
            code@ == mask(content@, MaskStyle::CharWidth),
        decreases code@.len() + 1 - search_start,
    {
        match find_from_exec(&code, &run, search_start) {
            None => {
                return false;
            },
            Some(start) => {
                proof {
                    lemma_find_from_bounds(code@, run@, search_start as int);
                }
                let n = code.len();
                assert(start + 3 <= n);
                let end = start + 3;
                let valid_prefix = start == 0 || !is_identifier_character(code[start - 1]);
                let valid_suffix = end >= code.len() || !is_identifier_character(code[end]);
                let t = skip_ws(&code, end);
                if valid_prefix && valid_suffix && t < code.len() && code[t] == '(' {
                    return true;
                }
                search_start = end;
            },
        }
    }
}

// ---------------------------------------------------------------------------
// Decorators
// ---------------------------------------------------------------------------

/// The text between the parentheses of the first code occurrence of `marker`,
/// searching from `from` on.
pub open spec fn block_after(content: Seq<char>, marker: Seq<char>, from: int) -> Option<(Seq<char>, int)> {
    match code_marker(content, marker, from) {
        None => None,
        Some(start) => match find_char_from(content, '(', start) {
            None => None,
            Some(open) => match balanced_from(content, open, None, 0, '(', ')') {
                Some(close) => Some((content.subrange(open + 1, close), close)),
                None => None,
            },
        },
    }
}

/// The arguments text of the first `@name(...)` decorator in the code of `content`.
pub open spec fn decorator_block(content: Seq<char>, name: Seq<char>) -> Option<Seq<char>> {
    match block_after(content, seq!['@'] + name, 0) {
        Some((b, _)) => Some(b),
        None => None,
    }
}

/// The arguments texts of the `marker(...)` decorators in the code of
/// `content`, from `from` on, in order.
pub open spec fn blocks_from(content: Seq<char>, marker: Seq<char>, from: int) -> Seq<Seq<char>>
    decreases content.len() + 1 - from,
{
    if from < 0 {
        Seq::empty()
    } else {
        match block_after(content, marker, from) {
            None => Seq::empty(),
            Some((b, close)) => {
                proof {
                    lemma_block_after_bounds(content, marker, from);
                }
                seq![b] + blocks_from(content, marker, close + 1)
            },
        }
    }
}

/// The arguments texts of every `@name(...)` decorator in the code of `content`.
pub open spec fn decorator_blocks(content: Seq<char>, name: Seq<char>) -> Seq<Seq<char>> {
    blocks_from(content, seq!['@'] + name, 0)
}

pub proof fn lemma_block_after_bounds(content: Seq<char>, marker: Seq<char>, from: int)
    requires
        0 <= from,
    ensures
        block_after(content, marker, from) matches Some((_, close)) ==> from <= close
            < content.len(),
{
    lemma_marker_from_bounds(content, 0, crate::lexer::Lex::Code, marker, from);
    match code_marker(content, marker, from) {
        None => {},
        Some(start) => {
            lemma_find_char_from_bounds(content, '(', start);
            match find_char_from(content, '(', start) {
                None => {},
                Some(open) => {
                    lemma_balanced_bounds(content, open, None, 0, '(', ')');
                },
            }
        },
    }
}

/// The text between the parentheses of the first code occurrence of
/// `marker` from `from` on, and the index of the closing parenthesis.
fn find_block(content: &[char], marker: &[char], from: usize) -> (res: Option<(Vec<char>, usize)>)
    ensures
        match res {
            Some((b, close)) => block_after(content@, marker@, from as int) == Some(
                (b@, close as int),
            ),
            None => block_after(content@, marker@, from as int) is None,
        },
{
    match find_code_marker(content, marker, from) {
        None => None,
        Some(start) => match find_char_exec(content, '(', start) {
            None => None,
            Some(open) => {
                proof {
                    lemma_find_char_from_bounds(content@, '(', start as int);
                }
                match balanced_end(content, open, '(', ')') {
                    None => None,
                    Some(close) => {
                        proof {
                            lemma_balanced_bounds(content@, open as int, None, 0, '(', ')');
                        }
                        Some((slice_to_vec(content, open + 1, close), close))
                    },
                }
            },
        },
    }
}

/// The marker `@name`.
fn decorator_marker(name: &str) -> (res: Vec<char>)
    ensures
        res@ == seq!['@'] + name@,
{
    let mut m: Vec<char> = Vec::new();
    m.push('@');
    crate::text::push_str(&mut m, name);
    assert(m@ =~= seq!['@'] + name@);
    m
}

/// The arguments text of the first `@name(...)` decorator in the code of `content`.
pub fn extract_decorator_block(content: &[char], name: &str) -> (res: Option<String>)
    ensures
        match res {
            Some(b) => decorator_block(content@, name@) == Some(b@),
            None => decorator_block(content@, name@) is None,
        },
{
    let marker = decorator_marker(name);
    match find_block(content, &marker, 0) {
        Some((b, _)) => Some(string_of(&b)),
        None => None,
    }
}

/// The arguments texts of every `@name(...)` decorator in the code of `content`.
pub fn extract_decorator_blocks(content: &[char], name: &str) -> (res: Vec<Vec<char>>)
    ensures
        res.deep_view() == decorator_blocks(content@, name@),
{
    let marker = decorator_marker(name);
    let mut blocks: Vec<Vec<char>> = Vec::new();
    let mut search_start: usize = 0;
    assert(blocks.deep_view() =~= Seq::<Seq<char>>::empty());
    loop
        invariant
            search_start <= content@.len() + 1,
            marker@ == seq!['@'] + name@,
            decorator_blocks(content@, name@) == blocks.deep_view() + blocks_from(
                content@,
                marker@,
                search_start as int,
            ),
        decreases content@.len() + 1 - search_start,
    {
        match find_block(content, &marker, search_start) {
            None => {
                assert(blocks.deep_view() + Seq::<Seq<char>>::empty() =~= blocks.deep_view());
                return blocks;
            },
            Some((b, close)) => {
                proof {
                    lemma_block_after_bounds(content@, marker@, search_start as int);
                }
                let ghost before = blocks.deep_view();
                assert(b.deep_view() =~= b@);
                blocks.push(b);
                assert(blocks.deep_view() =~= before.push(b@));
                assert(before + (seq![b@] + blocks_from(content@, marker@, close + 1))
                    =~= blocks.deep_view() + blocks_from(content@, marker@, close + 1));
                let n = content.len();
                assert(close < n);
                search_start = close + 1;
            },
        }
    }
}

// ---------------------------------------------------------------------------
// Arguments
// ---------------------------------------------------------------------------

/// ASCII letters lowercased, other characters kept.
pub open spec fn ascii_lower_char(c: char) -> char {
    if is_ascii_upper(c) {
        ((c as u32) + 32) as char
    } else {
        c
    }
}

pub open spec fn ascii_lower(s: Seq<char>) -> Seq<char> {
    s.map_values(|c: char| ascii_lower_char(c))
}

/// The first index at or after `i` that does not hold an ASCII digit.
pub open spec fn digits_end(s: Seq<char>, i: int) -> int
    decreases s.len() - i,
{
    if 0 <= i < s.len() && is_ascii_digit(s[i]) {
        digits_end(s, i + 1)
    } else {
        i
    }
}

/// `r[i..]` is empty or an exponent `e`, an optional sign and digits.
pub open spec fn exponent_ok(r: Seq<char>, i: int) -> bool {
    i == r.len() || (i < r.len() && r[i] == 'e' && {
        let j = if i + 1 < r.len() && (r[i + 1] == '+' || r[i + 1] == '-') {
            i + 2
        } else {
            i + 1
        };
        let k = digits_end(r, j);
        k > j && k == r.len()
    })
}

/// `r` (lowercase) is a decimal number: digits with an optional fraction,
/// at least one digit in all, and an optional exponent.
pub open spec fn is_decimal(r: Seq<char>) -> bool {
    let a = digits_end(r, 0);
    if a < r.len() && r[a] == '.' {
        let b = digits_end(r, a + 1);
        (a > 0 || b > a + 1) && exponent_ok(r, b)
    } else {
        a > 0 && exponent_ok(r, a)
    }
}

/// `s` is accepted by `f64::from_str`: an optional sign, then `inf`,
/// `infinity`, `nan` or a decimal number, letters in any case.
pub open spec fn is_float_literal(s: Seq<char>) -> bool {
    let b: int = if s.len() > 0 && (s[0] == '+' || s[0] == '-') {
        1
    } else {
        0
    };
    let r = ascii_lower(s.skip(b));
    r == "inf"@ || r == "infinity"@ || r == "nan"@ || is_decimal(r)
}

/// The kind of an option value.
pub open spec fn option_kind(v: Seq<char>) -> crate::output::ArgumentOptionValueKind {
    if v == "true"@ || v == "false"@ {
        crate::output::ArgumentOptionValueKind::Boolean
    } else if is_float_literal(v) {
        crate::output::ArgumentOptionValueKind::Number
    } else if v.len() > 0 {
        crate::output::ArgumentOptionValueKind::String
    } else {
        crate::output::ArgumentOptionValueKind::Unknown
    }
}

pub fn lower_ascii_vec(s: &[char], from: usize) -> (res: Vec<char>)
    requires
        from <= s@.len(),
    ensures
        res@ == ascii_lower(s@.skip(from as int)),
{
    let mut res: Vec<char> = Vec::new();
    let mut i = from;
    while i < s.len()
        invariant
            from <= i <= s@.len(),
            res@ == ascii_lower(s@.subrange(from as int, i as int)),
        decreases s@.len() - i,
    {
        let c = s[i];
        let l = if 'A' <= c && c <= 'Z' {
            char_from_u32_lower(c)
        } else {
            c
        };
        res.push(l);
        i = i + 1;
        assert(ascii_lower(s@.subrange(from as int, i as int)) =~= ascii_lower(
            s@.subrange(from as int, i - 1),
        ).push(ascii_lower_char(c)));
    }
    assert(s@.subrange(from as int, s@.len() as int) =~= s@.skip(from as int));
    res
}

/// The lowercase letter of the uppercase ASCII letter `c`.
fn char_from_u32_lower(c: char) -> (res: char)
    requires
        is_ascii_upper(c),
    ensures
        res == ascii_lower_char(c),
{
    let v = (c as u32) + 32;
    if v == 'a' as u32 { 'a' } else if v == 'b' as u32 { 'b' } else if v == 'c' as u32 { 'c' }
    else if v == 'd' as u32 { 'd' } else if v == 'e' as u32 { 'e' } else if v == 'f' as u32 { 'f' }
    else if v == 'g' as u32 { 'g' } else if v == 'h' as u32 { 'h' } else if v == 'i' as u32 { 'i' }
    else if v == 'j' as u32 { 'j' } else if v == 'k' as u32 { 'k' } else if v == 'l' as u32 { 'l' }
    else if v == 'm' as u32 { 'm' } else if v == 'n' as u32 { 'n' } else if v == 'o' as u32 { 'o' }
    else if v == 'p' as u32 { 'p' } else if v == 'q' as u32 { 'q' } else if v == 'r' as u32 { 'r' }
    else if v == 's' as u32 { 's' } else if v == 't' as u32 { 't' } else if v == 'u' as u32 { 'u' }
    else if v == 'v' as u32 { 'v' } else if v == 'w' as u32 { 'w' } else if v == 'x' as u32 { 'x' }
    else if v == 'y' as u32 { 'y' } else { 'z' }
}

fn digits_end_exec(s: &[char], i: usize) -> (res: usize)
    requires
        i <= s@.len(),
    ensures
        res == digits_end(s@, i as int),
        i <= res <= s@.len(),
{
    let mut k = i;
    while k < s.len() && '0' <= s[k] && s[k] <= '9'
        invariant
            i <= k <= s@.len(),
            digits_end(s@, k as int) == digits_end(s@, i as int),
        decreases s@.len() - k,
    {
        k = k + 1;
    }
    k
}

fn exponent_ok_exec(r: &[char], i: usize) -> (res: bool)
    requires
        i <= r@.len(),
    ensures
        res == exponent_ok(r@, i as int),
{
    if i == r.len() {
        return true;
    }
    if r[i] != 'e' {
        return false;
    }
    let j = if i + 1 < r.len() && (r[i + 1] == '+' || r[i + 1] == '-') {
        i + 2
    } else {
        i + 1
    };
    let k = digits_end_exec(r, j);
    k > j && k == r.len()
}

/// Whether `s` is accepted by `f64::from_str`.
pub fn is_float_literal_exec(s: &[char]) -> (res: bool)
    ensures
        res == is_float_literal(s@),
{
    let b: usize = if s.len() > 0 && (s[0] == '+' || s[0] == '-') {
        1
    } else {
        0
    };
    let r = lower_ascii_vec(s, b);
    if chars_eq_str(&r, "inf") || chars_eq_str(&r, "infinity") || chars_eq_str(&r, "nan") {
        return true;
    }
    let a = digits_end_exec(&r, 0);
    if a < r.len() && r[a] == '.' {
        let e = digits_end_exec(&r, a + 1);
        (a > 0 || e > a + 1) && exponent_ok_exec(&r, e)
    } else {
        a > 0 && exponent_ok_exec(&r, a)
    }
}

/// The kind of an option value: a boolean, a number, some other text, or
/// nothing.
pub fn classify_option_value(value: &[char]) -> (res: crate::output::ArgumentOptionValueKind)
    ensures
        res == option_kind(value@),
{
    if chars_eq_str(value, "true") || chars_eq_str(value, "false") {
        crate::output::ArgumentOptionValueKind::Boolean
    } else if is_float_literal_exec(value) {
        crate::output::ArgumentOptionValueKind::Number
    } else if value.len() > 0 {
        crate::output::ArgumentOptionValueKind::String
    } else {
        crate::output::ArgumentOptionValueKind::Unknown
    }
}

/// The raw text of an option value starting at `tail`: a string literal's
/// text, or else the first segment, trimmed.
pub open spec fn raw_option(tail: Seq<char>) -> Seq<char> {
    match quoted_value(tail) {
        Some(v) => v,
        None => trim(first_segment(tail)),
    }
}

/// The `value:` entries of an options array text `opts`, from `from` on.
pub open spec fn option_values_from(opts: Seq<char>, from: int) -> Seq<
    crate::output::ArgumentOptionValueView,
>
    decreases opts.len() + 1 - from,
{
    if from < 0 {
        Seq::empty()
    } else {
        match find_from(opts, "value:"@, from) {
            None => Seq::empty(),
            Some(p) => {
                proof {
                    lemma_find_from_bounds(opts, "value:"@, from);
                    reveal_strlit("value:");
                }
                let start = p + 6;
                let raw = raw_option(trim_start(opts.skip(start)));
                let rest = option_values_from(opts, start);
                if raw.len() > 0 {
                    seq![crate::output::ArgumentOptionValueView { raw, kind: option_kind(raw) }]
                        + rest
                } else {
                    rest
                }
            },
        }
    }
}

/// The choices of the `options` array property of an `@Arg` block.
pub open spec fn option_values(block: Seq<char>) -> Seq<crate::output::ArgumentOptionValueView> {
    match property_tail(block, "options"@) {
        None => Seq::empty(),
        Some(t) => {
            let tail = block.skip(t);
            match balanced_from(tail, 0, None, 0, '[', ']') {
                None => Seq::empty(),
                Some(end) => option_values_from(tail.take(end + 1), 0),
            }
        },
    }
}

/// The choices listed in the `options` array property of an `@Arg` block.
pub fn extract_argument_option_values(block: &[char]) -> (res: Vec<crate::output::ArgumentOptionValue>)
    ensures
        res@.map_values(|o: crate::output::ArgumentOptionValue| o@) == option_values(block@),
{
    let mut values: Vec<crate::output::ArgumentOptionValue> = Vec::new();
    let key = chars_of("options");
    proof {
        reveal_strlit("options");
    }
    let t = match extract_property_tail(block, &key) {
        None => {
            assert(values@.map_values(|o: crate::output::ArgumentOptionValue| o@) =~= Seq::<
                crate::output::ArgumentOptionValueView,
            >::empty());
            return values;
        },
        Some(t) => t,
    };
    let tail = slice_to_vec(block, t, block.len());
    assert(tail@ =~= block@.skip(t as int));
    let end = match balanced_end(&tail, 0, '[', ']') {
        None => {
            assert(values@.map_values(|o: crate::output::ArgumentOptionValue| o@) =~= Seq::<
                crate::output::ArgumentOptionValueView,
            >::empty());
            return values;
        },
        Some(e) => e,
    };
    proof {
        lemma_balanced_bounds(tail@, 0, None, 0, '[', ']');
    }
    let opts = slice_to_vec(&tail, 0, end + 1);
    assert(opts@ =~= tail@.take(end + 1));
    let marker = chars_of("value:");
    proof {
        reveal_strlit("value:");
    }
    let mut search_start: usize = 0;
    assert(values@.map_values(|o: crate::output::ArgumentOptionValue| o@) =~= Seq::<
        crate::output::ArgumentOptionValueView,
    >::empty());
    loop
        invariant
            marker@ == "value:"@,
            marker@.len() == 6,
            search_start <= opts@.len(),
            option_values(block@) == values@.map_values(
                |o: crate::output::ArgumentOptionValue| o@,
            ) + option_values_from(opts@, search_start as int),
        decreases opts@.len() + 1 - search_start,
    {
        match find_from_exec(&opts, &marker, search_start) {
            None => {
                assert(values@.map_values(|o: crate::output::ArgumentOptionValue| o@) + Seq::<
                    crate::output::ArgumentOptionValueView,
                >::empty() =~= values@.map_values(|o: crate::output::ArgumentOptionValue| o@));
                return values;
            },
            Some(p) => {
                proof {
                    lemma_find_from_bounds(opts@, marker@, search_start as int);
                }
                let n = opts.len();
                assert(p + 6 <= n);
                let start = p + 6;
                let ts = skip_ws(&opts, start);
                let raw: Vec<char> = match quoted_value_at(&opts, ts) {
                    Some(v) => v,
                    None => {
                        let (a, b) = segment_bounds(&opts, ts);
                        slice_to_vec(&opts, a, b)
                    },
                };
                proof {
                    assert(opts@.skip(ts as int) == trim_start(opts@.skip(start as int)));
                }
                if raw.len() > 0 {
                    let kind = classify_option_value(&raw);
                    let raw_s = string_of(&raw);
                    let ghost before = values@;
                    let item = crate::output::ArgumentOptionValue { raw: raw_s, kind };
                    values.push(item);
                    proof {
                        assert(values@.map_values(|o: crate::output::ArgumentOptionValue| o@)
                            =~= before.map_values(|o: crate::output::ArgumentOptionValue| o@).push(
                            item@,
                        ));
                        assert(before.map_values(|o: crate::output::ArgumentOptionValue| o@) + (seq![
                            item@]
                            + option_values_from(opts@, start as int)) =~= values@.map_values(
                            |o: crate::output::ArgumentOptionValue| o@,
                        ) + option_values_from(opts@, start as int));
                    }
                }
                search_start = start;
            },
        }
    }
}

/// The argument that an `@Arg` block declares.
pub open spec fn argument_of(block: Seq<char>) -> crate::output::ArgumentIndexView {
    crate::output::ArgumentIndexView {
        name: string_property(block, "name"@),
        required: match bool_property(block, "required"@) {
            Some(b) => b,
            None => false,
        },
        raw_text: match bool_property(block, "rawText"@) {
            Some(b) => b,
            None => false,
        },
        type_hint: value_property(block, "type"@),
        option_values: option_values(block),
    }
}

/// The arguments that the `@Arg` decorators of `content` declare, in order.
pub open spec fn arguments_of(content: Seq<char>) -> Seq<crate::output::ArgumentIndexView> {
    decorator_blocks(content, "Arg"@).map_values(|b: Seq<char>| argument_of(b))
}

/// The argument that an `@Arg` block declares.
fn argument_from_block(block: &[char]) -> (res: crate::output::ArgumentIndex)
    ensures
        res@ == argument_of(block@),
{
    proof {
        reveal_strlit("name");
        reveal_strlit("required");
        reveal_strlit("rawText");
        reveal_strlit("type");
    }
    let required = match extract_bool_property(block, "required") {
        Some(b) => b,
        None => false,
    };
    let raw_text = match extract_bool_property(block, "rawText") {
        Some(b) => b,
        None => false,
    };
    crate::output::ArgumentIndex {
        name: extract_string_property(block, "name"),
        required,
        raw_text,
        type_hint: extract_value_property(block, "type"),
        option_values: extract_argument_option_values(block),
    }
}

/// The arguments that the `@Arg` decorators of `content` declare, in order.
pub fn extract_arguments(content: &[char]) -> (res: Vec<crate::output::ArgumentIndex>)
    ensures
        res@.map_values(|a: crate::output::ArgumentIndex| a@) == arguments_of(content@),
{
    let blocks = extract_decorator_blocks(content, "Arg");
    let mut res: Vec<crate::output::ArgumentIndex> = Vec::new();
    let mut i: usize = 0;
    while i < blocks.len()
        invariant
            i <= blocks@.len(),
            blocks.deep_view() == decorator_blocks(content@, "Arg"@),
            res@.map_values(|a: crate::output::ArgumentIndex| a@) == blocks.deep_view().take(
                i as int,
            ).map_values(|b: Seq<char>| argument_of(b)),
        decreases blocks@.len() - i,
    {
        assert(blocks[i as int].deep_view() =~= blocks[i as int]@);
        let a = argument_from_block(&blocks[i]);
        let ghost before = res@;
        res.push(a);
        proof {
            assert(blocks.deep_view().take(i + 1) =~= blocks.deep_view().take(i as int).push(
                blocks@[i as int]@,
            ));
            assert(res@.map_values(|a: crate::output::ArgumentIndex| a@) =~= before.map_values(
                |a: crate::output::ArgumentIndex| a@,
            ).push(a@));
            assert(blocks.deep_view().take(i + 1).map_values(|b: Seq<char>| argument_of(b))
                =~= blocks.deep_view().take(i as int).map_values(|b: Seq<char>| argument_of(b)).push(
                argument_of(blocks@[i as int]@),
            ));
        }
        i = i + 1;
    }
    assert(blocks.deep_view().take(blocks@.len() as int) =~= blocks.deep_view());
    res
}

// ---------------------------------------------------------------------------
// Keys and paths
// ---------------------------------------------------------------------------

/// The present parts of a command key, lowercased, in order.
pub open spec fn key_parts(parts: Seq<Option<Seq<char>>>) -> Seq<Seq<char>>
    decreases parts.len(),
{
    if parts.len() == 0 {
        Seq::empty()
    } else {
        match parts.last() {
            Some(p) => key_parts(parts.drop_last()).push(crate::lang::lowercase(p)),
            None => key_parts(parts.drop_last()),
        }
    }
}

/// The command key: the present parts lowercased and joined by `-`; `None`
/// when no part is present.
pub open spec fn command_key(parts: Seq<Option<Seq<char>>>) -> Option<Seq<char>> {
    let vs = key_parts(parts);
    if vs.len() == 0 {
        None
    } else {
        Some(crate::utils::join(vs, seq!['-']))
    }
}

pub open spec fn opt_text(p: Option<&str>) -> Option<Seq<char>> {
    match p {
        Some(s) => Some(s@),
        None => None,
    }
}

/// Calls `str::to_lowercase` for a key part.
fn lowercase_part(s: &str) -> (res: Vec<char>)
    ensures
        res@ == crate::lang::lowercase(s@),
{
    let l = crate::lang::lowercase_string(s);
    chars_of(l.as_str())
}

/// The command key built from up to three parts.
pub fn build_key(parts: [Option<&str>; 3]) -> (res: Option<String>)
    ensures
        match res {
            Some(k) => command_key(parts@.map_values(|p: Option<&str>| opt_text(p))) == Some(k@),
            None => command_key(parts@.map_values(|p: Option<&str>| opt_text(p))) is None,
        },
{
    let ghost pv = parts@.map_values(|p: Option<&str>| opt_text(p));
    let mut out: Vec<char> = Vec::new();
    let mut count: usize = 0;
    let ghost mut vs: Seq<Seq<char>> = Seq::empty();
    let mut i: usize = 0;
    while i < 3
        invariant
            i <= 3,
            parts@.len() == 3,
            pv == parts@.map_values(|p: Option<&str>| opt_text(p)),
            vs == key_parts(pv.take(i as int)),
            count == vs.len(),
            count <= i,
            out@ == crate::utils::join(vs, seq!['-']),
        decreases 3 - i,
    {
        proof {
            assert(pv.take(i + 1).drop_last() =~= pv.take(i as int));
            assert(pv.take(i + 1).last() == opt_text(parts@[i as int]));
        }
        match parts[i] {
            Some(p) => {
                let l = lowercase_part(p);
                if count > 0 {
                    out.push('-');
                }
                let ghost before = out@;
                crate::text::push_all(&mut out, &l);
                proof {
                    let nv = vs.push(l@);
                    assert(nv.drop_last() =~= vs);
                    if count > 0 {
                        assert(out@ =~= crate::utils::join(vs, seq!['-']) + seq!['-'] + l@);
                    } else {
                        assert(out@ =~= l@);
                    }
                    vs = nv;
                }
                count = count + 1;
            },
            None => {},
        }
        i = i + 1;
    }
    assert(pv.take(3) =~= pv);
    if count == 0 {
        None
    } else {
        Some(string_of(&out))
    }
}

/// The last component of a `/`-separated path.
pub open spec fn file_name(path: Seq<char>) -> Seq<char>
    decreases path.len(),
{
    if path.len() == 0 {
        path
    } else if path.last() == '/' {
        Seq::empty()
    } else {
        file_name(path.drop_last()).push(path.last())
    }
}

/// The index of the last `.` of `name`.
pub open spec fn last_dot(name: Seq<char>) -> Option<int>
    decreases name.len(),
{
    if name.len() == 0 {
        None
    } else if name.last() == '.' {
        Some(name.len() - 1)
    } else {
        last_dot(name.drop_last())
    }
}

/// The extension of a file name, as `Path::extension`: the text after its
/// last `.`, unless that `.` starts the name.
pub open spec fn extension(name: Seq<char>) -> Option<Seq<char>> {
    match last_dot(name) {
        Some(k) => if k == 0 {
            None
        } else {
            Some(name.skip(k + 1))
        },
        None => None,
    }
}

/// The stem of a file name, as `Path::file_stem`: the text before its last
/// `.`, unless that `.` starts the name.
pub open spec fn stem(name: Seq<char>) -> Seq<char> {
    match last_dot(name) {
        Some(k) => if k == 0 {
            name
        } else {
            name.take(k)
        },
        None => name,
    }
}

/// The path names a TypeScript or JavaScript file.
pub open spec fn is_ts_or_js(path: Seq<char>) -> bool {
    match extension(file_name(path)) {
        Some(e) => e == "ts"@ || e == "tsx"@ || e == "js"@ || e == "jsx"@,
        None => false,
    }
}

pub proof fn lemma_last_dot_bounds(name: Seq<char>)
    ensures
        last_dot(name) matches Some(k) ==> 0 <= k < name.len() && name[k] == '.' && forall|
            j: int,
        | k < j < name.len() ==> name[j] != '.',
        last_dot(name) is None ==> forall|j: int| 0 <= j < name.len() ==> name[j] != '.',
    decreases name.len(),
{
    if name.len() > 0 && name.last() != '.' {
        let d = name.drop_last();
        lemma_last_dot_bounds(d);
        assert forall|j: int| 0 <= j < d.len() implies d[j] == name[j] by {}
    }
}

/// The last component of `path`.
pub fn file_name_of(path: &[char]) -> (res: Vec<char>)
    ensures
        res@ == file_name(path@),
{
    let mut k = path.len();
    assert(path@.take(k as int) =~= path@);
    assert(path@.subrange(k as int, k as int) =~= Seq::<char>::empty());
    assert(path@ + Seq::<char>::empty() =~= path@);
    while k > 0 && path[k - 1] != '/'
        invariant
            k <= path@.len(),
            file_name(path@) == file_name(path@.take(k as int)) + path@.subrange(
                k as int,
                path@.len() as int,
            ),
        decreases k,
    {
        proof {
            let t = path@.take(k as int);
            assert(t.drop_last() =~= path@.take(k - 1));
            assert(t.last() == path@[k - 1]);
            assert(file_name(path@.take(k - 1)).push(path@[k - 1]) + path@.subrange(
                k as int,
                path@.len() as int,
            ) =~= file_name(path@.take(k - 1)) + path@.subrange(k - 1, path@.len() as int));
        }
        k = k - 1;
    }
    proof {
        let t = path@.take(k as int);
        if k > 0 {
            assert(t.last() == '/');
        }
        assert(file_name(t) =~= Seq::<char>::empty());
    }
    slice_to_vec(path, k, path.len())
}

/// The index of the last `.` of `name`.
fn last_dot_exec(name: &[char]) -> (res: Option<usize>)
    ensures
        match res {
            Some(k) => last_dot(name@) == Some(k as int),
            None => last_dot(name@) is None,
        },
{
    let mut k = name.len();
    assert(name@.take(k as int) =~= name@);
    while k > 0 && name[k - 1] != '.'
        invariant
            k <= name@.len(),
            last_dot(name@) == last_dot(name@.take(k as int)) || (last_dot(name@) is None
                && last_dot(name@.take(k as int)) is None),
            forall|j: int| k <= j < name@.len() ==> name@[j] != '.',
        decreases k,
    {
        proof {
            lemma_last_dot_tail(name@, k - 1);
        }
        k = k - 1;
    }
    proof {
        lemma_last_dot_tail_all(name@, k as int);
    }
    if k == 0 {
        None
    } else {
        Some(k - 1)
    }
}

pub proof fn lemma_last_dot_tail(name: Seq<char>, k: int)
    requires
        0 <= k < name.len(),
        name[k] != '.',
    ensures
        last_dot(name.take(k + 1)) == last_dot(name.take(k)),
{
    assert(name.take(k + 1).drop_last() =~= name.take(k));
}

pub proof fn lemma_last_dot_tail_all(name: Seq<char>, k: int)
    requires
        0 <= k <= name.len(),
        forall|j: int| k <= j < name.len() ==> name[j] != '.',
    ensures
        last_dot(name) == last_dot(name.take(k)),
    decreases name.len() - k,
{
    if k < name.len() {
        lemma_last_dot_tail_all(name, k + 1);
        lemma_last_dot_tail(name, k);
        assert(name.take(name.len() as int) =~= name);
    } else {
        assert(name.take(k) =~= name);
    }
}

/// The extension of a file name, as `Path::extension`.
pub fn extension_of(name: &[char]) -> (res: Option<Vec<char>>)
    ensures
        match res {
            Some(e) => extension(name@) == Some(e@),
            None => extension(name@) is None,
        },
{
    match last_dot_exec(name) {
        Some(k) => {
            proof {
                lemma_last_dot_bounds(name@);
            }
            if k == 0 {
                None
            } else {
                let n = name.len();
                assert(k < n);
                let e = slice_to_vec(name, k + 1, name.len());
                assert(e@ =~= name@.skip(k + 1));
                Some(e)
            }
        },
        None => None,
    }
}

/// The stem of a file name, as `Path::file_stem`.
pub fn stem_of(name: &[char]) -> (res: Vec<char>)
    ensures
        res@ == stem(name@),
{
    match last_dot_exec(name) {
        Some(k) => {
            proof {
                lemma_last_dot_bounds(name@);
            }
            if k == 0 {
                slice_to_vec(name, 0, name.len())
            } else {
                slice_to_vec(name, 0, k)
            }
        },
        None => slice_to_vec(name, 0, name.len()),
    }
}

/// Whether `path` names a TypeScript or JavaScript file.
pub fn is_typescript_or_javascript(path: &str) -> (res: bool)
    ensures
        res == is_ts_or_js(path@),
{
    let p = chars_of(path);
    let name = file_name_of(&p);
    match extension_of(&name) {
        Some(e) => chars_eq_str(&e, "ts") || chars_eq_str(&e, "tsx") || chars_eq_str(&e, "js")
            || chars_eq_str(&e, "jsx"),
        None => false,
    }
}

/// A command source: under `src/commands/`, named `*.command.ts` or `*.command.js`.
pub open spec fn is_command_path(p: Seq<char>) -> bool {
    crate::text::starts_with(p, "src/commands/"@) && (crate::text::ends_with(p, ".command.ts"@)
        || crate::text::ends_with(p, ".command.js"@))
}

/// A definition source: under `src/definitions/`, named `*.definition.ts` or `*.definition.js`.
pub open spec fn is_definition_path(p: Seq<char>) -> bool {
    crate::text::starts_with(p, "src/definitions/"@) && (crate::text::ends_with(
        p,
        ".definition.ts"@,
    ) || crate::text::ends_with(p, ".definition.js"@))
}

/// Whether `relative_path` is a command source.
pub fn is_command_file(relative_path: &str) -> (res: bool)
    ensures
        res == is_command_path(relative_path@),
{
    let p = chars_of(relative_path);
    crate::text::starts_with_str(&p, "src/commands/") && (crate::text::ends_with_str(
        &p,
        ".command.ts",
    ) || crate::text::ends_with_str(&p, ".command.js"))
}

/// Whether `relative_path` is a definition source.
pub fn is_definition_file(relative_path: &str) -> (res: bool)
    ensures
        res == is_definition_path(relative_path@),
{
    let p = chars_of(relative_path);
    crate::text::starts_with_str(&p, "src/definitions/") && (crate::text::ends_with_str(
        &p,
        ".definition.ts",
    ) || crate::text::ends_with_str(&p, ".definition.js"))
}

} // verus!
