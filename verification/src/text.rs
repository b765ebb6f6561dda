//! Character-level text primitives shared by the analyzers.
//!
//! Source text is handled as a sequence of `char`s; the specifications below
//! describe each primitive over `Seq<char>`.
use vstd::prelude::*;

verus! {

/// Number of bytes the UTF-8 encoding of `c` takes.
pub open spec fn utf8_len(c: char) -> nat {
    if (c as u32) < 0x80 {
        1
    } else if (c as u32) < 0x800 {
        2
    } else if (c as u32) < 0x10000 {
        3
    } else {
        4
    }
}

/// Number of bytes the UTF-8 encoding of `s` takes.
pub open spec fn byte_len(s: Seq<char>) -> nat
    decreases s.len(),
{
    if s.len() == 0 {
        0
    } else {
        byte_len(s.drop_last()) + utf8_len(s.last())
    }
}

/// The Unicode `White_Space` property.
pub open spec fn is_ws(c: char) -> bool {
    let v = c as u32;
    (0x09 <= v && v <= 0x0d) || v == 0x20 || v == 0x85 || v == 0xa0 || v == 0x1680 || (0x2000
        <= v && v <= 0x200a) || v == 0x2028 || v == 0x2029 || v == 0x202f || v == 0x205f || v
        == 0x3000
}

pub open spec fn is_ascii_digit(c: char) -> bool {
    '0' <= c && c <= '9'
}

pub open spec fn is_ascii_lower(c: char) -> bool {
    'a' <= c && c <= 'z'
}

pub open spec fn is_ascii_upper(c: char) -> bool {
    'A' <= c && c <= 'Z'
}

pub open spec fn is_ascii_alpha(c: char) -> bool {
    is_ascii_lower(c) || is_ascii_upper(c)
}

pub open spec fn is_ascii_alnum(c: char) -> bool {
    is_ascii_alpha(c) || is_ascii_digit(c)
}

/// `s` without its leading white space.
pub open spec fn trim_start(s: Seq<char>) -> Seq<char>
    decreases s.len(),
{
    if s.len() > 0 && is_ws(s[0]) {
        trim_start(s.drop_first())
    } else {
        s
    }
}

/// `s` without its trailing white space.
pub open spec fn trim_end(s: Seq<char>) -> Seq<char>
    decreases s.len(),
{
    if s.len() > 0 && is_ws(s.last()) {
        trim_end(s.drop_last())
    } else {
        s
    }
}

/// `s` without leading and trailing white space.
pub open spec fn trim(s: Seq<char>) -> Seq<char> {
    trim_end(trim_start(s))
}

/// `p` occurs in `s` starting at index `k`.
pub open spec fn occurs_at(s: Seq<char>, p: Seq<char>, k: int) -> bool {
    0 <= k && k + p.len() <= s.len() && s.subrange(k, k + p.len()) == p
}

/// `s` starts with `p`.
pub open spec fn starts_with(s: Seq<char>, p: Seq<char>) -> bool {
    occurs_at(s, p, 0)
}

/// `s` ends with `p`.
pub open spec fn ends_with(s: Seq<char>, p: Seq<char>) -> bool {
    p.len() <= s.len() && occurs_at(s, p, s.len() - p.len())
}

/// The first index at or after `from` where `p` occurs in `s`.
pub open spec fn find_from(s: Seq<char>, p: Seq<char>, from: int) -> Option<int>
    decreases s.len() + 1 - from,
{
    if from < 0 || from + p.len() > s.len() {
        None
    } else if occurs_at(s, p, from) {
        Some(from)
    } else {
        find_from(s, p, from + 1)
    }
}

/// `p` occurs somewhere in `s`.
pub open spec fn contains(s: Seq<char>, p: Seq<char>) -> bool {
    find_from(s, p, 0) is Some
}

/// The first index at or after `from` that holds `c`.
pub open spec fn find_char_from(s: Seq<char>, c: char, from: int) -> Option<int>
    decreases s.len() - from,
{
    if from < 0 || from >= s.len() {
        None
    } else if s[from] == c {
        Some(from)
    } else {
        find_char_from(s, c, from + 1)
    }
}

/// A line of `lines`: its terminating `\r`, if any, removed.
pub open spec fn strip_cr(line: Seq<char>) -> Seq<char> {
    if line.len() > 0 && line.last() == '\r' {
        line.drop_last()
    } else {
        line
    }
}

/// The lines of `s`: split at each `\n`, a `\r` before it dropped, and no
/// empty last line after a final `\n`.
pub open spec fn lines(s: Seq<char>) -> Seq<Seq<char>>
    decreases s.len(),
{
    if s.len() == 0 {
        Seq::empty()
    } else {
        match find_char_from(s, '\n', 0) {
            Some(k) => {
                proof {
                    lemma_find_char_from_bounds(s, '\n', 0);
                }
                seq![strip_cr(s.take(k))] + lines(s.skip(k + 1))
            },
            None => seq![s],
        }
    }
}

/// The first index at or after `i` that does not hold white space.
pub open spec fn ws_end(s: Seq<char>, i: int) -> int
    decreases s.len() - i,
{
    if 0 <= i < s.len() && is_ws(s[i]) {
        ws_end(s, i + 1)
    } else {
        i
    }
}

/// `a` comes before `b` in the lexicographic order of characters (the order
/// of `str`'s `Ord`, as UTF-8 keeps the order of code points).
pub open spec fn lex_lt(a: Seq<char>, b: Seq<char>) -> bool
    decreases a.len(),
{
    if a.len() == 0 {
        b.len() > 0
    } else if b.len() == 0 {
        false
    } else if a[0] != b[0] {
        a[0] < b[0]
    } else {
        lex_lt(a.drop_first(), b.drop_first())
    }
}

/// Whether `c` is alphanumeric as `char::is_alphanumeric` tells it.
pub uninterp spec fn alphanumeric(c: char) -> bool;

/// `n` spaces.
pub open spec fn spaces(n: nat) -> Seq<char> {
    Seq::new(n, |i: int| ' ')
}

/// `s` with every occurrence of `pat` replaced by `rep`, the occurrences
/// taken from left to right without overlap.
pub open spec fn replace_all(s: Seq<char>, pat: Seq<char>, rep: Seq<char>) -> Seq<char>
    decreases s.len(),
{
    if pat.len() == 0 || s.len() == 0 {
        s
    } else if starts_with(s, pat) {
        rep + replace_all(s.skip(pat.len() as int), pat, rep)
    } else {
        seq![s[0]] + replace_all(s.drop_first(), pat, rep)
    }
}

// ---------------------------------------------------------------------------
// Lemmas
// ---------------------------------------------------------------------------

pub proof fn lemma_lex_trans(a: Seq<char>, b: Seq<char>, c: Seq<char>)
    requires
        lex_lt(a, b),
        lex_lt(b, c),
    ensures
        lex_lt(a, c),
    decreases a.len(),
{
    if a.len() > 0 && b.len() > 0 && c.len() > 0 && a[0] == b[0] && b[0] == c[0] {
        lemma_lex_trans(a.drop_first(), b.drop_first(), c.drop_first());
    }
}

pub proof fn lemma_lex_total(a: Seq<char>, b: Seq<char>)
    ensures
        lex_lt(a, b) || lex_lt(b, a) || a == b,
    decreases a.len(),
{
    if a.len() == 0 && b.len() == 0 {
        assert(a =~= b);
    } else if a.len() > 0 && b.len() > 0 && a[0] == b[0] {
        lemma_lex_total(a.drop_first(), b.drop_first());
        if a.drop_first() == b.drop_first() {
            assert(a =~= b) by {
                assert forall|i: int| 0 <= i < a.len() implies a[i] == b[i] by {
                    if i > 0 {
                        assert(a[i] == a.drop_first()[i - 1]);
                        assert(b[i] == b.drop_first()[i - 1]) by { assert(b.len() == a.len()); }
                    }
                }
            }
        }
    } else if a.len() > 0 && b.len() > 0 {
        assert(a[0] < b[0] || b[0] < a[0]);
    }
}

pub proof fn lemma_lex_irrefl(a: Seq<char>)
    ensures
        !lex_lt(a, a),
    decreases a.len(),
{
    if a.len() > 0 {
        lemma_lex_irrefl(a.drop_first());
    }
}

pub proof fn lemma_lex_asym(a: Seq<char>, b: Seq<char>)
    requires
        lex_lt(a, b),
    ensures
        !lex_lt(b, a),
    decreases a.len(),
{
    if a.len() > 0 && b.len() > 0 && a[0] == b[0] {
        lemma_lex_asym(a.drop_first(), b.drop_first());
    }
}

pub proof fn lemma_find_from_bounds(s: Seq<char>, p: Seq<char>, from: int)
    requires
        0 <= from,
    ensures
        find_from(s, p, from) matches Some(k) ==> from <= k && occurs_at(s, p, k) && forall|j: int|
            from <= j < k ==> !occurs_at(s, p, j),
        find_from(s, p, from) is None ==> forall|j: int| from <= j ==> !#[trigger] occurs_at(s, p, j),
    decreases s.len() + 1 - from,
{
    if from + p.len() > s.len() {
    } else if occurs_at(s, p, from) {
    } else {
        lemma_find_from_bounds(s, p, from + 1);
    }
}

pub proof fn lemma_find_char_from_bounds(s: Seq<char>, c: char, from: int)
    requires
        0 <= from,
    ensures
        find_char_from(s, c, from) matches Some(k) ==> from <= k < s.len() && s[k] == c && forall|
            j: int,
        | from <= j < k ==> s[j] != c,
        find_char_from(s, c, from) is None ==> forall|j: int| from <= j < s.len() ==> s[j] != c,
    decreases s.len() - from,
{
    if from >= s.len() {
    } else if s[from] == c {
    } else {
        lemma_find_char_from_bounds(s, c, from + 1);
    }
}

// ---------------------------------------------------------------------------
// Executable primitives
// ---------------------------------------------------------------------------

/// The characters of `s`, in order.
pub fn chars_of(s: &str) -> (res: Vec<char>)
    ensures
        res@ == s@,
{
    broadcast use vstd::string::group_string_axioms;

    let mut res: Vec<char> = Vec::new();
    for c in it: s.chars()
        invariant
            res@ == it.seq().take(it.index() as int),
            it.seq() == s@,
    {
        res.push(c);
    }
    res
}

/// `String::push` appends one character at the end of the string.
pub assume_specification[ std::string::String::push ](string: &mut std::string::String, ch: char)
    ensures
        final(string)@ == old(string)@.push(ch),
;

/// A string holding the characters of `chars`, in order.
pub fn string_of(chars: &[char]) -> (res: String)
    ensures
        res@ == chars@,
{
    let mut res = String::new();
    let mut i: usize = 0;
    while i < chars.len()
        invariant
            i <= chars@.len(),
            res@ == chars@.take(i as int),
        decreases chars@.len() - i,
    {
        res.push(chars[i]);
        i = i + 1;
        assert(chars@.take(i as int) == chars@.take(i - 1).push(chars@[i - 1]));
    }
    assert(chars@.take(chars@.len() as int) == chars@);
    res
}

/// A copy of `s`.
pub fn copy_string(s: &String) -> (res: String)
    ensures
        res@ == s@,
{
    s.clone()
}

/// A string holding the characters `chars[from..to]`.
pub fn string_of_range(chars: &[char], from: usize, to: usize) -> (res: String)
    requires
        from <= to <= chars@.len(),
    ensures
        res@ == chars@.subrange(from as int, to as int),
{
    let mut res = String::new();
    let mut i: usize = from;
    while i < to
        invariant
            from <= i <= to <= chars@.len(),
            res@ == chars@.subrange(from as int, i as int),
        decreases to - i,
    {
        res.push(chars[i]);
        i = i + 1;
        assert(chars@.subrange(from as int, i as int) == chars@.subrange(from as int, i - 1).push(
            chars@[i - 1],
        ));
    }
    res
}

/// Appends the characters of `extra` to `out`.
pub fn push_all(out: &mut Vec<char>, extra: &[char])
    ensures
        final(out)@ == old(out)@ + extra@,
{
    let mut i: usize = 0;
    while i < extra.len()
        invariant
            i <= extra@.len(),
            out@ == old(out)@ + extra@.take(i as int),
        decreases extra@.len() - i,
    {
        out.push(extra[i]);
        i = i + 1;
        assert(extra@.take(i as int) == extra@.take(i - 1).push(extra@[i - 1]));
    }
    assert(extra@.take(extra@.len() as int) == extra@);
}

/// Appends the characters of `extra` to `out`.
pub fn push_str(out: &mut Vec<char>, extra: &str)
    ensures
        final(out)@ == old(out)@ + extra@,
{
    let chars = chars_of(extra);
    push_all(out, &chars);
}

/// Number of bytes the UTF-8 encoding of `c` takes, as `char::len_utf8`.
pub fn char_utf8_len(c: char) -> (n: usize)
    ensures
        n == utf8_len(c),
{
    let v = c as u32;
    if v < 0x80 {
        1
    } else if v < 0x800 {
        2
    } else if v < 0x10000 {
        3
    } else {
        4
    }
}

/// Whether `c` has the Unicode `White_Space` property, as `char::is_whitespace`.
pub fn is_whitespace_char(c: char) -> (res: bool)
    ensures
        res == is_ws(c),
{
    let v = c as u32;
    (0x09 <= v && v <= 0x0d) || v == 0x20 || v == 0x85 || v == 0xa0 || v == 0x1680 || (0x2000
        <= v && v <= 0x200a) || v == 0x2028 || v == 0x2029 || v == 0x202f || v == 0x205f || v
        == 0x3000
}

pub proof fn lemma_trim_start_skip(s: Seq<char>, k: int)
    requires
        0 <= k < s.len(),
        is_ws(s[k]),
    ensures
        trim_start(s.skip(k)) == trim_start(s.skip(k + 1)),
{
    assert(s.skip(k).drop_first() =~= s.skip(k + 1));
}

/// The index of the first character of `s[from..]` that is not white space
/// (or the length of `s`).
pub fn skip_ws(s: &[char], from: usize) -> (k: usize)
    requires
        from <= s@.len(),
    ensures
        from <= k <= s@.len(),
        k == ws_end(s@, from as int),
        s@.skip(k as int) == trim_start(s@.skip(from as int)),
{
    let mut k = from;
    while k < s.len() && is_whitespace_char(s[k])
        invariant
            from <= k <= s@.len(),
            ws_end(s@, k as int) == ws_end(s@, from as int),
            trim_start(s@.skip(k as int)) == trim_start(s@.skip(from as int)),
        decreases s@.len() - k,
    {
        proof {
            lemma_trim_start_skip(s@, k as int);
        }
        k = k + 1;
    }
    proof {
        if k < s@.len() {
            assert(s@.skip(k as int)[0] == s@[k as int]);
        }
    }
    k
}

/// The index of the first character of `s[from..to]` that is not white
/// space (or `to`).
pub fn skip_ws_range(s: &[char], from: usize, to: usize) -> (k: usize)
    requires
        from <= to <= s@.len(),
    ensures
        from <= k <= to,
        s@.subrange(k as int, to as int) == trim_start(s@.subrange(from as int, to as int)),
{
    let mut k = from;
    while k < to && is_whitespace_char(s[k])
        invariant
            from <= k <= to <= s@.len(),
            trim_start(s@.subrange(k as int, to as int)) == trim_start(
                s@.subrange(from as int, to as int),
            ),
        decreases to - k,
    {
        proof {
            let r = s@.subrange(k as int, to as int);
            assert(r.drop_first() =~= s@.subrange(k + 1, to as int));
        }
        k = k + 1;
    }
    proof {
        let r = s@.subrange(k as int, to as int);
        if k < to {
            assert(r[0] == s@[k as int]);
        }
    }
    k
}

pub proof fn lemma_trim_end_take(s: Seq<char>, k: int)
    requires
        0 < k <= s.len(),
        is_ws(s[k - 1]),
    ensures
        trim_end(s.take(k)) == trim_end(s.take(k - 1)),
{
    assert(s.take(k).drop_last() =~= s.take(k - 1));
}

/// The end of `s[from..to]` once its trailing white space is removed.
pub fn trim_end_index(s: &[char], from: usize, to: usize) -> (e: usize)
    requires
        from <= to <= s@.len(),
    ensures
        from <= e <= to,
        s@.subrange(from as int, e as int) == trim_end(s@.subrange(from as int, to as int)),
{
    let mut e = to;
    while e > from && is_whitespace_char(s[e - 1])
        invariant
            from <= e <= to <= s@.len(),
            trim_end(s@.subrange(from as int, e as int)) == trim_end(
                s@.subrange(from as int, to as int),
            ),
        decreases e - from,
    {
        proof {
            let r = s@.subrange(from as int, e as int);
            assert(r.drop_last() =~= s@.subrange(from as int, e - 1));
        }
        e = e - 1;
    }
    proof {
        let r = s@.subrange(from as int, e as int);
        if e > from {
            assert(r.last() == s@[e - 1]);
        }
    }
    e
}

/// The bounds of `s[from..to]` once white space is removed at both ends.
pub fn trim_range(s: &[char], from: usize, to: usize) -> (res: (usize, usize))
    requires
        from <= to <= s@.len(),
    ensures
        from <= res.0 <= res.1 <= to,
        s@.subrange(res.0 as int, res.1 as int) == trim(s@.subrange(from as int, to as int)),
{
    let a = skip_ws_range(s, from, to);
    let b = trim_end_index(s, a, to);
    (a, b)
}

/// Calls `char::is_alphanumeric`; the contract names the result
/// (`alphanumeric`) and states nothing more of it.
#[verifier::external_body]
pub(crate) fn is_alphanumeric_char(c: char) -> (res: bool)
    ensures
        res == alphanumeric(c),
{
    c.is_alphanumeric()
}

/// Whether `a` comes before `b` in the lexicographic order of characters.
pub fn lex_less(a: &[char], b: &[char]) -> (res: bool)
    ensures
        res == lex_lt(a@, b@),
{
    let mut i: usize = 0;
    assert(a@.skip(0) =~= a@);
    assert(b@.skip(0) =~= b@);
    while i < a.len() && i < b.len() && a[i] == b[i]
        invariant
            i <= a@.len(),
            i <= b@.len(),
            lex_lt(a@, b@) == lex_lt(a@.skip(i as int), b@.skip(i as int)),
        decreases a@.len() - i,
    {
        proof {
            let x = a@.skip(i as int);
            let y = b@.skip(i as int);
            assert(x.drop_first() =~= a@.skip(i + 1));
            assert(y.drop_first() =~= b@.skip(i + 1));
        }
        i = i + 1;
    }
    proof {
        let x = a@.skip(i as int);
        let y = b@.skip(i as int);
        if i < a@.len() {
            assert(x[0] == a@[i as int]);
        }
        if i < b@.len() {
            assert(y[0] == b@[i as int]);
        }
    }
    if i == a.len() {
        i < b.len()
    } else if i == b.len() {
        false
    } else {
        a[i] < b[i]
    }
}

/// Whether `p` occurs in `s` at index `i`.
pub fn occurs_at_exec(s: &[char], p: &[char], i: usize) -> (res: bool)
    ensures
        res == occurs_at(s@, p@, i as int),
{
    if p.len() > s.len() || i > s.len() - p.len() {
        return false;
    }
    assert(i + p@.len() <= s@.len());
    let mut j: usize = 0;
    while j < p.len()
        invariant
            i + p@.len() <= s@.len(),
            s@.len() == s.len(),
            j <= p@.len(),
            forall|t: int| 0 <= t < j ==> s@[i + t] == p@[t],
        decreases p@.len() - j,
    {
        if s[i + j] != p[j] {
            assert(s@.subrange(i as int, i + p@.len())[j as int] != p@[j as int]);
            return false;
        }
        j = j + 1;
    }
    assert(s@.subrange(i as int, i + p@.len()) =~= p@);
    true
}

/// Whether `s` starts with `p`.
pub fn starts_with_exec(s: &[char], p: &[char]) -> (res: bool)
    ensures
        res == starts_with(s@, p@),
{
    occurs_at_exec(s, p, 0)
}

/// Whether `s` ends with `p`.
pub fn ends_with_exec(s: &[char], p: &[char]) -> (res: bool)
    ensures
        res == ends_with(s@, p@),
{
    if p.len() > s.len() {
        false
    } else {
        occurs_at_exec(s, p, s.len() - p.len())
    }
}

/// The first index at or after `from` where `p` occurs in `s`.
pub fn find_from_exec(s: &[char], p: &[char], from: usize) -> (res: Option<usize>)
    ensures
        match res {
            Some(k) => find_from(s@, p@, from as int) == Some(k as int),
            None => find_from(s@, p@, from as int) is None,
        },
{
    if p.len() > s.len() || from > s.len() - p.len() {
        return None;
    }
    if p.len() == 0 {
        assert(s@.subrange(from as int, from as int) =~= p@);
        return Some(from);
    }
    let mut k = from;
    while k <= s.len() - p.len()
        invariant
            1 <= p@.len() <= s@.len(),
            from <= k,
            find_from(s@, p@, from as int) == find_from(s@, p@, k as int),
        decreases s@.len() - k,
    {
        if occurs_at_exec(s, p, k) {
            return Some(k);
        }
        k = k + 1;
    }
    None
}

/// Whether `p` occurs in `s`.
pub fn contains_exec(s: &[char], p: &[char]) -> (res: bool)
    ensures
        res == contains(s@, p@),
{
    find_from_exec(s, p, 0).is_some()
}

/// Whether `p` occurs in `s`.
pub fn contains_str(s: &[char], p: &str) -> (res: bool)
    ensures
        res == contains(s@, p@),
{
    let pc = chars_of(p);
    contains_exec(s, &pc)
}

/// Whether `s` starts with `p`.
pub fn starts_with_str(s: &[char], p: &str) -> (res: bool)
    ensures
        res == starts_with(s@, p@),
{
    let pc = chars_of(p);
    starts_with_exec(s, &pc)
}

/// Whether `s` ends with `p`.
pub fn ends_with_str(s: &[char], p: &str) -> (res: bool)
    ensures
        res == ends_with(s@, p@),
{
    let pc = chars_of(p);
    ends_with_exec(s, &pc)
}

/// Whether `p` occurs in `s` at index `i`.
pub fn occurs_at_str(s: &[char], p: &str, i: usize) -> (res: bool)
    ensures
        res == occurs_at(s@, p@, i as int),
{
    let pc = chars_of(p);
    occurs_at_exec(s, &pc, i)
}

/// The first index at or after `from` that holds `c`.
pub fn find_char_exec(s: &[char], c: char, from: usize) -> (res: Option<usize>)
    ensures
        match res {
            Some(k) => find_char_from(s@, c, from as int) == Some(k as int),
            None => find_char_from(s@, c, from as int) is None,
        },
{
    let mut k = from;
    while k < s.len()
        invariant
            from <= k,
            find_char_from(s@, c, from as int) == find_char_from(s@, c, k as int),
        decreases s@.len() - k,
    {
        if s[k] == c {
            return Some(k);
        }
        k = k + 1;
    }
    None
}

/// Whether the two character sequences are equal.
pub fn chars_eq(a: &[char], b: &[char]) -> (res: bool)
    ensures
        res == (a@ == b@),
{
    if a.len() != b.len() {
        return false;
    }
    let mut i: usize = 0;
    while i < a.len()
        invariant
            a@.len() == b@.len(),
            i <= a@.len(),
            forall|t: int| 0 <= t < i ==> a@[t] == b@[t],
        decreases a@.len() - i,
    {
        if a[i] != b[i] {
            return false;
        }
        i = i + 1;
    }
    assert(a@ =~= b@);
    true
}

/// Whether the two strings hold the same characters.
pub fn str_eq(a: &str, b: &str) -> (res: bool)
    ensures
        res == (a@ == b@),
{
    let ac = chars_of(a);
    let bc = chars_of(b);
    chars_eq(&ac, &bc)
}

/// Whether `a` holds the same characters as `b`.
pub fn chars_eq_str(a: &[char], b: &str) -> (res: bool)
    ensures
        res == (a@ == b@),
{
    let bc = chars_of(b);
    chars_eq(a, &bc)
}

/// A copy of `s[from..to]`.
pub fn slice_to_vec(s: &[char], from: usize, to: usize) -> (res: Vec<char>)
    requires
        from <= to <= s@.len(),
    ensures
        res@ == s@.subrange(from as int, to as int),
{
    let mut res: Vec<char> = Vec::new();
    let mut i = from;
    while i < to
        invariant
            from <= i <= to <= s@.len(),
            res@ == s@.subrange(from as int, i as int),
        decreases to - i,
    {
        res.push(s[i]);
        i = i + 1;
        assert(s@.subrange(from as int, i as int) == s@.subrange(from as int, i - 1).push(
            s@[i - 1],
        ));
    }
    res
}

pub proof fn lemma_lines_step(s: Seq<char>, k: int)
    requires
        0 <= k < s.len(),
        s[k] == '\n',
        forall|j: int| 0 <= j < k ==> s[j] != '\n',
    ensures
        lines(s) == seq![strip_cr(s.take(k))] + lines(s.skip(k + 1)),
{
    lemma_find_char_from_bounds(s, '\n', 0);
    let f = find_char_from(s, '\n', 0);
    match f {
        Some(m) => {
            if m < k {
            } else if m > k {
            }
        },
        None => {},
    }
}

pub proof fn lemma_lines_last(s: Seq<char>)
    requires
        s.len() > 0,
        forall|j: int| 0 <= j < s.len() ==> s[j] != '\n',
    ensures
        lines(s) == seq![s],
{
    lemma_find_char_from_bounds(s, '\n', 0);
}

/// The lines of `s`, as `str::lines`.
pub fn lines_of(s: &[char]) -> (res: Vec<Vec<char>>)
    ensures
        res.deep_view() == lines(s@),
{
    let mut res: Vec<Vec<char>> = Vec::new();
    let mut start: usize = 0;
    assert(s@.skip(0) =~= s@);
    assert(res.deep_view() =~= Seq::<Seq<char>>::empty());
    while start < s.len()
        invariant
            start <= s@.len(),
            lines(s@) == res.deep_view() + lines(s@.skip(start as int)),
        decreases s@.len() - start,
    {
        let ghost rest = s@.skip(start as int);
        match find_char_exec(s, '\n', start) {
            Some(k) => {
                proof {
                    lemma_find_char_from_bounds(s@, '\n', start as int);
                    lemma_lines_step(rest, k - start);
                    assert(rest.take(k - start) =~= s@.subrange(start as int, k as int));
                    assert(rest.skip(k - start + 1) =~= s@.skip(k + 1));
                }
                let mut end = k;
                if end > start && s[end - 1] == '\r' {
                    end = end - 1;
                }
                let line = slice_to_vec(s, start, end);
                assert(line.deep_view() =~= line@);
                proof {
                    let raw = s@.subrange(start as int, k as int);
                    if k > start && s@[k - 1] == '\r' {
                        assert(raw.drop_last() =~= s@.subrange(start as int, end as int));
                    }
                }
                let ghost old_res = res.deep_view();
                res.push(line);
                proof {
                    assert(res.deep_view() =~= old_res.push(line@));
                    assert(lines(s@) =~= res.deep_view() + lines(s@.skip(k + 1)));
                }
                start = k + 1;
            },
            None => {
                proof {
                    lemma_find_char_from_bounds(s@, '\n', start as int);
                    lemma_lines_last(rest);
                    assert(rest =~= s@.subrange(start as int, s@.len() as int));
                }
                let line = slice_to_vec(s, start, s.len());
                assert(line.deep_view() =~= line@);
                let ghost old_res = res.deep_view();
                res.push(line);
                proof {
                    assert(res.deep_view() =~= old_res.push(line@));
                    assert(s@.skip(s@.len() as int) =~= Seq::<char>::empty());
                    assert(lines(s@) =~= res.deep_view() + lines(s@.skip(s@.len() as int)));
                }
                start = s.len();
            },
        }
    }
    proof {
        assert(s@.skip(start as int) =~= Seq::<char>::empty());
        assert(res.deep_view() + Seq::<Seq<char>>::empty() =~= res.deep_view());
    }
    res
}

/// `s` with every occurrence of `pat` replaced by `rep`, as `str::replace`
/// does for a pattern that is not empty.
pub fn replace_chars(s: &[char], pat: &[char], rep: &[char]) -> (res: Vec<char>)
    requires
        pat@.len() > 0,
    ensures
        res@ == replace_all(s@, pat@, rep@),
{
    let mut out: Vec<char> = Vec::new();
    let mut i: usize = 0;
    assert(s@.skip(0) =~= s@);
    while i < s.len()
        invariant
            i <= s@.len(),
            pat@.len() > 0,
            replace_all(s@, pat@, rep@) == out@ + replace_all(s@.skip(i as int), pat@, rep@),
        decreases s@.len() - i,
    {
        let ghost rest = s@.skip(i as int);
        if occurs_at_exec(s, pat, i) {
            proof {
                assert(rest.subrange(0, pat@.len() as int) =~= s@.subrange(
                    i as int,
                    i + pat@.len(),
                ));
                assert(rest.skip(pat@.len() as int) =~= s@.skip(i + pat@.len()));
            }
            push_all(&mut out, rep);
            i = i + pat.len();
        } else {
            proof {
                if pat@.len() <= rest.len() {
                    assert(rest.subrange(0, pat@.len() as int) =~= s@.subrange(
                        i as int,
                        i + pat@.len(),
                    ));
                }
                assert(rest.drop_first() =~= s@.skip(i + 1));
                assert(rest[0] == s@[i as int]);
            }
            let ghost before = out@;
            out.push(s[i]);
            assert(out@ =~= before + seq![s@[i as int]]);
            i = i + 1;
        }
    }
    assert(s@.skip(i as int) =~= Seq::<char>::empty());
    assert(out@ + Seq::<char>::empty() =~= out@);
    out
}

} // verus!
