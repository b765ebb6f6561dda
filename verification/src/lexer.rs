//! A small TypeScript lexer that tells code apart from comments and string
//! literals, and the masks built on it.
use vstd::prelude::*;

use crate::text::{byte_len, chars_of, char_utf8_len, occurs_at, occurs_at_exec, spaces, utf8_len};

verus! {

/// Where the lexer stands: in code, inside a `//` or `/* */` comment, or
/// inside a string literal opened by `quote` (with `escaped` set right after
/// a backslash).
#[derive(PartialEq, Eq, Structural, Clone, Copy)]
pub enum Lex {
    Code,
    LineComment,
    BlockComment,
    Quoted(char, bool),
}

/// How a mask hides what is not code.
#[derive(PartialEq, Eq, Structural, Clone, Copy)]
pub enum MaskStyle {
    /// Comments and strings become one space per byte of UTF-8.
    ByteWidth,
    /// Comments and strings become one space per character.
    CharWidth,
    /// Comments become one space per byte of UTF-8; strings stay.
    CommentsOnly,
    /// Comments become one space per character; strings stay.
    CommentsOnlyCharWidth,
}

/// The style blanks one space per character, not per byte.
pub open spec fn per_char(style: MaskStyle) -> bool {
    style == MaskStyle::CharWidth || style == MaskStyle::CommentsOnlyCharWidth
}

/// The style keeps string literals.
pub open spec fn keeps_strings(style: MaskStyle) -> bool {
    style == MaskStyle::CommentsOnly || style == MaskStyle::CommentsOnlyCharWidth
}

pub open spec fn is_quote(c: char) -> bool {
    c == '"' || c == '\'' || c == '`'
}

pub open spec fn line_comment_open() -> Seq<char> {
    seq!['/', '/']
}

pub open spec fn block_comment_open() -> Seq<char> {
    seq!['/', '*']
}

pub open spec fn block_comment_close() -> Seq<char> {
    seq!['*', '/']
}

/// The width and the next state of the lexer's step at index `i` of `s`.
pub open spec fn lex_step(s: Seq<char>, i: int, st: Lex) -> (int, Lex) {
    match st {
        Lex::LineComment => if s[i] == '\n' {
            (1, Lex::Code)
        } else {
            (1, Lex::LineComment)
        },
        Lex::BlockComment => if occurs_at(s, block_comment_close(), i) {
            (2, Lex::Code)
        } else {
            (1, Lex::BlockComment)
        },
        Lex::Quoted(q, escaped) => if escaped {
            (1, Lex::Quoted(q, false))
        } else if s[i] == '\\' {
            (1, Lex::Quoted(q, true))
        } else if s[i] == q {
            (1, Lex::Code)
        } else {
            (1, Lex::Quoted(q, false))
        },
        Lex::Code => if occurs_at(s, line_comment_open(), i) {
            (2, Lex::LineComment)
        } else if occurs_at(s, block_comment_open(), i) {
            (2, Lex::BlockComment)
        } else if is_quote(s[i]) {
            (1, Lex::Quoted(s[i], false))
        } else {
            (1, Lex::Code)
        },
    }
}

/// What a mask writes for a hidden character `c`.
pub open spec fn blank(c: char, style: MaskStyle) -> Seq<char> {
    if c == '\n' {
        seq!['\n']
    } else if per_char(style) {
        spaces(1)
    } else {
        spaces(utf8_len(c))
    }
}

/// What a mask writes for the lexer's step at index `i` of `s`.
pub open spec fn lex_out(s: Seq<char>, i: int, st: Lex, style: MaskStyle) -> Seq<char> {
    match st {
        Lex::LineComment => blank(s[i], style),
        Lex::BlockComment => if occurs_at(s, block_comment_close(), i) {
            spaces(2)
        } else {
            blank(s[i], style)
        },
        Lex::Quoted(_, _) => if keeps_strings(style) {
            seq![s[i]]
        } else {
            blank(s[i], style)
        },
        Lex::Code => if occurs_at(s, line_comment_open(), i) || occurs_at(
            s,
            block_comment_open(),
            i,
        ) {
            spaces(2)
        } else if is_quote(s[i]) && !keeps_strings(style) {
            blank(s[i], style)
        } else {
            seq![s[i]]
        },
    }
}

/// The mask of `s` from index `i` on, the lexer being in state `st` there.
pub open spec fn mask_from(s: Seq<char>, i: int, st: Lex, style: MaskStyle) -> Seq<char>
    decreases s.len() - i,
{
    if i < 0 || i >= s.len() {
        Seq::empty()
    } else {
        let (w, next) = lex_step(s, i, st);
        lex_out(s, i, st, style) + mask_from(s, i + w, next, style)
    }
}

/// The mask of the whole of `s`.
pub open spec fn mask(s: Seq<char>, style: MaskStyle) -> Seq<char> {
    mask_from(s, 0, Lex::Code, style)
}

/// The first index at or after `from` where `marker` starts in code, the
/// lexer being in state `st` at index `i`.
pub open spec fn marker_from(s: Seq<char>, i: int, st: Lex, marker: Seq<char>, from: int) -> Option<
    int,
>
    decreases s.len() - i,
{
    if i < 0 || i >= s.len() {
        None
    } else if st == Lex::Code && !occurs_at(s, line_comment_open(), i) && !occurs_at(
        s,
        block_comment_open(),
        i,
    ) && !is_quote(s[i]) && i >= from && occurs_at(s, marker, i) {
        Some(i)
    } else {
        let (w, next) = lex_step(s, i, st);
        marker_from(s, i + w, next, marker, from)
    }
}

/// The first index at or after `from` where `marker` starts outside comments
/// and string literals.
pub open spec fn code_marker(s: Seq<char>, marker: Seq<char>, from: int) -> Option<int> {
    marker_from(s, 0, Lex::Code, marker, from)
}

/// A mask that blanks one space per character keeps the length of the text:
/// each character of the mask stands for the character at its index.
pub proof fn lemma_mask_from_len(s: Seq<char>, i: int, st: Lex, style: MaskStyle)
    requires
        per_char(style),
        0 <= i <= s.len(),
    ensures
        mask_from(s, i, st, style).len() == s.len() - i,
    decreases s.len() - i,
{
    if i < s.len() {
        let (w, next) = lex_step(s, i, st);
        lemma_lex_step_width(s, i, st);
        lemma_mask_from_len(s, i + w, next, style);
    }
}

/// The UTF-8 length of a concatenation is the sum of the lengths.
pub proof fn lemma_byte_len_concat(a: Seq<char>, b: Seq<char>)
    ensures
        byte_len(a + b) == byte_len(a) + byte_len(b),
    decreases b.len(),
{
    if b.len() == 0 {
        assert(a + b =~= a);
    } else {
        lemma_byte_len_concat(a, b.drop_last());
        assert((a + b).drop_last() =~= a + b.drop_last());
        assert((a + b).last() == b.last());
    }
}

/// `n` spaces take `n` bytes.
pub proof fn lemma_byte_len_spaces(n: nat)
    ensures
        byte_len(spaces(n)) == n,
    decreases n,
{
    if n > 0 {
        assert(spaces(n).drop_last() =~= spaces((n - 1) as nat));
        assert(spaces(n).last() == ' ');
        lemma_byte_len_spaces((n - 1) as nat);
    }
}

/// The byte-width mask of `s` from index `i` on takes as many bytes as the
/// rest of `s`.
pub proof fn lemma_mask_from_bytes(s: Seq<char>, i: int, st: Lex)
    requires
        0 <= i <= s.len(),
    ensures
        byte_len(mask_from(s, i, st, MaskStyle::ByteWidth)) == byte_len(s.skip(i)),
    decreases s.len() - i,
{
    if i == s.len() {
        assert(s.skip(i) =~= Seq::<char>::empty());
    } else {
        let (w, next) = lex_step(s, i, st);
        let out = lex_out(s, i, st, MaskStyle::ByteWidth);
        lemma_lex_step_width(s, i, st);
        lemma_mask_from_bytes(s, i + w, next);
        lemma_byte_len_concat(out, mask_from(s, i + w, next, MaskStyle::ByteWidth));
        assert(s.skip(i) =~= s.subrange(i, i + w) + s.skip(i + w));
        lemma_byte_len_concat(s.subrange(i, i + w), s.skip(i + w));
        assert(mask_from(s, i, st, MaskStyle::ByteWidth) == out + mask_from(s, i + w, next, MaskStyle::ByteWidth));
        if w == 2 {
            let pair = s.subrange(i, i + 2);
            assert(pair.drop_last() =~= seq![s[i]]);
            assert(seq![s[i]].drop_last() =~= Seq::<char>::empty());
            assert(out == spaces(2));
            lemma_byte_len_spaces(2);
            assert(s[i] == '/' || s[i] == '*') by {
                assert(s[i] == pair[0]);
            }
            assert(s[i + 1] == '/' || s[i + 1] == '*') by {
                assert(s[i + 1] == pair[1]);
            }
            assert(utf8_len('/') == 1 && utf8_len('*') == 1);
            assert(pair.last() == s[i + 1]);
            assert(byte_len(seq![s[i]]) == utf8_len(s[i])) by {
                reveal_with_fuel(byte_len, 2);
            }
            assert(byte_len(pair) == 2);
            assert(byte_len(out) == 2);
        } else {
            let one = s.subrange(i, i + 1);
            assert(one.drop_last() =~= Seq::<char>::empty());
            assert(one.last() == s[i]);
            let c = s[i];
            assert(byte_len(one) == utf8_len(c)) by {
                reveal_with_fuel(byte_len, 2);
            }
            if out == seq![c] {
                assert(seq![c].drop_last() =~= Seq::<char>::empty());
                assert(byte_len(seq![c]) == utf8_len(c)) by {
                    reveal_with_fuel(byte_len, 2);
                }
            } else {
                assert(out == blank(c, MaskStyle::ByteWidth));
                if c == '\n' {
                    assert(seq!['\n'].drop_last() =~= Seq::<char>::empty());
                    assert(byte_len(seq!['\n']) == 1) by {
                        reveal_with_fuel(byte_len, 2);
                    }
                } else {
                    lemma_byte_len_spaces(utf8_len(c));
                }
            }
            assert(byte_len(out) == byte_len(one));
        }
    }
}

/// The byte-width mask keeps the byte length of the text, so that a byte
/// offset into the mask is the same offset into the text.
pub proof fn law_mask_keeps_byte_length(s: Seq<char>)
    ensures
        byte_len(mask(s, MaskStyle::ByteWidth)) == byte_len(s),
{
    lemma_mask_from_bytes(s, 0, Lex::Code);
    assert(s.skip(0) =~= s);
}

/// What the byte-width mask of `s` from index `i` on writes keeps the
/// characters it does not blank at their byte offsets from `i`.
pub proof fn lemma_mask_from_offsets(s: Seq<char>, i: int, st: Lex)
    requires
        0 <= i <= s.len(),
    ensures
        forall|k: int|
            0 <= k < mask_from(s, i, st, MaskStyle::ByteWidth).len()
                && #[trigger] mask_from(s, i, st, MaskStyle::ByteWidth)[k] != ' ' ==> exists|j: int|
                i <= j < s.len() && byte_len(s.subrange(i, j)) == byte_len(
                    mask_from(s, i, st, MaskStyle::ByteWidth).take(k),
                ) && s[j] == mask_from(s, i, st, MaskStyle::ByteWidth)[k],
    decreases s.len() - i,
{
    if i < s.len() {
        let (w, next) = lex_step(s, i, st);
        let out = lex_out(s, i, st, MaskStyle::ByteWidth);
        let rest = mask_from(s, i + w, next, MaskStyle::ByteWidth);
        let all = mask_from(s, i, st, MaskStyle::ByteWidth);
        lemma_lex_step_width(s, i, st);
        lemma_mask_from_offsets(s, i + w, next);
        lemma_mask_from_bytes(s, i, st);
        lemma_mask_from_bytes(s, i + w, next);
        assert(all == out + rest);
        assert(s.skip(i) =~= s.subrange(i, i + w) + s.skip(i + w));
        lemma_byte_len_concat(s.subrange(i, i + w), s.skip(i + w));
        lemma_byte_len_concat(out, rest);
        assert(byte_len(out) == byte_len(s.subrange(i, i + w)));
        assert forall|k: int|
            0 <= k < all.len() && #[trigger] all[k] != ' ' implies exists|j: int|
            i <= j < s.len() && byte_len(s.subrange(i, j)) == byte_len(all.take(k)) && s[j] == all[k] by {
            if k < out.len() {
                assert(all[k] == out[k]);
                assert(s.subrange(i, i) =~= Seq::<char>::empty());
                if w == 2 {
                    assert(out == spaces(2));
                    assert(out[k] == ' ');
                } else if out == seq![s[i]] {
                    assert(k == 0);
                    assert(all.take(0) =~= Seq::<char>::empty());
                    assert(s[i] == all[k]);
                } else {
                    assert(out == blank(s[i], MaskStyle::ByteWidth));
                    if s[i] == '\n' {
                        assert(k == 0);
                        assert(all.take(0) =~= Seq::<char>::empty());
                    } else {
                        assert(out[k] == ' ');
                    }
                }
            } else {
                let k2 = k - out.len();
                assert(all[k] == rest[k2]);
                let j = choose|j: int|
                    i + w <= j < s.len() && byte_len(s.subrange(i + w, j)) == byte_len(rest.take(k2)) && s[j] == rest[k2];
                assert(all.take(k) =~= out + rest.take(k2));
                lemma_byte_len_concat(out, rest.take(k2));
                assert(s.subrange(i, j) =~= s.subrange(i, i + w) + s.subrange(i + w, j));
                lemma_byte_len_concat(s.subrange(i, i + w), s.subrange(i + w, j));
            }
        }
    }
}

/// Law: the byte-width mask keeps each character of code at its byte
/// offset: a character of the mask that is not a space is the character of
/// the text that starts at the same byte offset.
pub proof fn law_mask_keeps_offsets(s: Seq<char>)
    ensures
        forall|k: int|
            0 <= k < mask(s, MaskStyle::ByteWidth).len() && #[trigger] mask(s, MaskStyle::ByteWidth)[k] != ' '
                ==> exists|j: int|
                0 <= j < s.len() && byte_len(s.take(j)) == byte_len(mask(s, MaskStyle::ByteWidth).take(k))
                    && s[j] == mask(s, MaskStyle::ByteWidth)[k],
{
    lemma_mask_from_offsets(s, 0, Lex::Code);
    let m = mask(s, MaskStyle::ByteWidth);
    assert forall|k: int| 0 <= k < m.len() && #[trigger] m[k] != ' ' implies exists|j: int|
        0 <= j < s.len() && byte_len(s.take(j)) == byte_len(m.take(k)) && s[j] == m[k] by {
        let j = choose|j: int| 0 <= j < s.len() && byte_len(s.subrange(0, j)) == byte_len(m.take(k)) && s[j] == m[k];
        assert(s.subrange(0, j) =~= s.take(j));
    }
}

/// No character of `m` opens a string literal, and no `/` is followed by a
/// `/` or a `*`: lexed from code, all of `m` is code.
pub open spec fn plain_code(m: Seq<char>) -> bool {
    &&& forall|k: int| 0 <= k < m.len() ==> !is_quote(#[trigger] m[k])
    &&& forall|k: int|
        0 <= k < m.len() - 1 && #[trigger] m[k] == '/' ==> m[k + 1] != '/' && m[k + 1] != '*'
}

/// A text that is all code is its own mask, from any index on.
pub proof fn lemma_mask_plain_code(m: Seq<char>, i: int, style: MaskStyle)
    requires
        plain_code(m),
        0 <= i <= m.len(),
    ensures
        mask_from(m, i, Lex::Code, style) == m.skip(i),
    decreases m.len() - i,
{
    if i < m.len() {
        assert(!occurs_at(m, line_comment_open(), i)) by {
            if occurs_at(m, line_comment_open(), i) {
                assert(m.subrange(i, i + 2)[0] == m[i]);
                assert(m.subrange(i, i + 2)[1] == m[i + 1]);
            }
        }
        assert(!occurs_at(m, block_comment_open(), i)) by {
            if occurs_at(m, block_comment_open(), i) {
                assert(m.subrange(i, i + 2)[0] == m[i]);
                assert(m.subrange(i, i + 2)[1] == m[i + 1]);
            }
        }
        assert(!is_quote(m[i]));
        lemma_mask_plain_code(m, i + 1, style);
        assert(m.skip(i) =~= seq![m[i]] + m.skip(i + 1));
    } else {
        assert(m.skip(i) =~= Seq::<char>::empty());
    }
}

/// Two texts that are all code stay so when joined, unless the first ends in
/// `/` and the second starts with `/` or `*`.
pub proof fn lemma_plain_code_concat(a: Seq<char>, b: Seq<char>)
    requires
        plain_code(a),
        plain_code(b),
        a.len() > 0 && b.len() > 0 && a.last() == '/' ==> b[0] != '/' && b[0] != '*',
    ensures
        plain_code(a + b),
{
    let ab = a + b;
    assert forall|k: int| 0 <= k < ab.len() implies !is_quote(#[trigger] ab[k]) by {
        if k < a.len() {
            assert(ab[k] == a[k]);
        } else {
            assert(ab[k] == b[k - a.len()]);
        }
    }
    assert forall|k: int| 0 <= k < ab.len() - 1 && #[trigger] ab[k] == '/' implies ab[k + 1] != '/'
        && ab[k + 1] != '*' by {
        if k < a.len() - 1 {
            assert(ab[k] == a[k] && ab[k + 1] == a[k + 1]);
        } else if k == a.len() - 1 {
            assert(ab[k] == a.last() && ab[k + 1] == b[0]);
        } else {
            assert(ab[k] == b[k - a.len()] && ab[k + 1] == b[k + 1 - a.len()]);
        }
    }
}

/// What a mask that hides strings writes from index `i` on is all code, and
/// starts with the character at `i`, a space or a line break.
pub proof fn lemma_mask_from_plain(s: Seq<char>, i: int, st: Lex, style: MaskStyle)
    requires
        !keeps_strings(style),
        0 <= i <= s.len(),
    ensures
        plain_code(mask_from(s, i, st, style)),
        i < s.len() ==> mask_from(s, i, st, style).len() > 0 && (mask_from(s, i, st, style)[0]
            == s[i] || mask_from(s, i, st, style)[0] == ' ' || mask_from(s, i, st, style)[0]
            == '\n'),
    decreases s.len() - i,
{
    if i < s.len() {
        let (w, next) = lex_step(s, i, st);
        let out = lex_out(s, i, st, style);
        let rest = mask_from(s, i + w, next, style);
        lemma_lex_step_width(s, i, st);
        lemma_mask_from_plain(s, i + w, next, style);
        assert(mask_from(s, i, st, style) == out + rest);
        let single = st == Lex::Code && !occurs_at(s, line_comment_open(), i) && !occurs_at(
            s,
            block_comment_open(),
            i,
        ) && !is_quote(s[i]);
        if single {
            assert(out == seq![s[i]]);
            assert(w == 1 && next == Lex::Code);
            if s[i] == '/' && i + 1 < s.len() {
                assert(s[i + 1] != '/') by {
                    if s[i + 1] == '/' {
                        assert(s.subrange(i, i + 2) =~= line_comment_open());
                    }
                }
                assert(s[i + 1] != '*') by {
                    if s[i + 1] == '*' {
                        assert(s.subrange(i, i + 2) =~= block_comment_open());
                    }
                }
            }
            lemma_plain_code_concat(out, rest);
        } else {
            assert(forall|k: int| 0 <= k < out.len() ==> #[trigger] out[k] == ' ' || out[k] == '\n');
            assert(out.len() > 0);
            lemma_plain_code_concat(out, rest);
        }
        assert((out + rest)[0] == out[0]);
    }
}

/// Law: masking a masked text changes nothing, where the mask hides string
/// literals: the mask leaves no quote and no comment opener in code.
pub proof fn law_mask_idempotent(s: Seq<char>, style: MaskStyle)
    requires
        !keeps_strings(style),
    ensures
        mask(mask(s, style), style) == mask(s, style),
{
    lemma_mask_from_plain(s, 0, Lex::Code, style);
    let m = mask(s, style);
    lemma_mask_plain_code(m, 0, style);
    assert(m.skip(0) =~= m);
}

pub proof fn lemma_lex_step_width(s: Seq<char>, i: int, st: Lex)
    requires
        0 <= i < s.len(),
    ensures
        1 <= lex_step(s, i, st).0 <= 2,
        lex_step(s, i, st).0 == 2 ==> i + 2 <= s.len(),
{
}

pub proof fn lemma_marker_from_bounds(s: Seq<char>, i: int, st: Lex, marker: Seq<char>, from: int)
    requires
        0 <= i,
    ensures
        marker_from(s, i, st, marker, from) matches Some(k) ==> i <= k < s.len() && k >= from
            && occurs_at(s, marker, k),
    decreases s.len() - i,
{
    if i >= s.len() {
    } else if st == Lex::Code && !occurs_at(s, line_comment_open(), i) && !occurs_at(
        s,
        block_comment_open(),
        i,
    ) && !is_quote(s[i]) && i >= from && occurs_at(s, marker, i) {
    } else {
        let (w, next) = lex_step(s, i, st);
        lemma_lex_step_width(s, i, st);
        lemma_marker_from_bounds(s, i + w, next, marker, from);
    }
}

/// One step of the lexer at index `i`: its width and the next state.
pub fn lex_step_exec(s: &[char], i: usize, st: Lex) -> (res: (usize, Lex))
    requires
        i < s@.len(),
    ensures
        res.0 as int == lex_step(s@, i as int, st).0,
        res.1 == lex_step(s@, i as int, st).1,
{
    let c = s[i];
    match st {
        Lex::LineComment => if c == '\n' {
            (1, Lex::Code)
        } else {
            (1, Lex::LineComment)
        },
        Lex::BlockComment => {
            if occurs_at_exec(s, &['*', '/'], i) {
                assert(seq!['*', '/'] =~= block_comment_close());
                (2, Lex::Code)
            } else {
                assert(seq!['*', '/'] =~= block_comment_close());
                (1, Lex::BlockComment)
            }
        },
        Lex::Quoted(q, escaped) => if escaped {
            (1, Lex::Quoted(q, false))
        } else if c == '\\' {
            (1, Lex::Quoted(q, true))
        } else if c == q {
            (1, Lex::Code)
        } else {
            (1, Lex::Quoted(q, false))
        },
        Lex::Code => {
            let line = occurs_at_exec(s, &['/', '/'], i);
            let block = occurs_at_exec(s, &['/', '*'], i);
            assert(seq!['/', '/'] =~= line_comment_open());
            assert(seq!['/', '*'] =~= block_comment_open());
            if line {
                (2, Lex::LineComment)
            } else if block {
                (2, Lex::BlockComment)
            } else if c == '"' || c == '\'' || c == '`' {
                (1, Lex::Quoted(c, false))
            } else {
                (1, Lex::Code)
            }
        },
    }
}

/// Appends `n` spaces to `out`.
fn push_spaces(out: &mut Vec<char>, n: usize)
    ensures
        final(out)@ == old(out)@ + spaces(n as nat),
{
    let mut k: usize = 0;
    while k < n
        invariant
            k <= n,
            out@ == old(out)@ + spaces(k as nat),
        decreases n - k,
    {
        out.push(' ');
        k = k + 1;
        assert(spaces(k as nat) =~= spaces((k - 1) as nat).push(' '));
    }
}

/// Appends what a mask writes for the hidden character `c`.
fn push_blank(out: &mut Vec<char>, c: char, style: MaskStyle)
    ensures
        final(out)@ == old(out)@ + blank(c, style),
{
    if c == '\n' {
        out.push('\n');
        assert(old(out)@.push('\n') =~= old(out)@ + seq!['\n']);
    } else if style == MaskStyle::CharWidth || style == MaskStyle::CommentsOnlyCharWidth {
        push_spaces(out, 1);
    } else {
        let n = char_utf8_len(c);
        push_spaces(out, n);
    }
}

/// Appends what a mask writes for the lexer's step at index `i`.
fn push_lex_out(out: &mut Vec<char>, s: &[char], i: usize, st: Lex, style: MaskStyle)
    requires
        i < s@.len(),
    ensures
        final(out)@ == old(out)@ + lex_out(s@, i as int, st, style),
{
    let c = s[i];
    assert(seq!['*', '/'] =~= block_comment_close());
    assert(seq!['/', '/'] =~= line_comment_open());
    assert(seq!['/', '*'] =~= block_comment_open());
    match st {
        Lex::LineComment => push_blank(out, c, style),
        Lex::BlockComment => {
            if occurs_at_exec(s, &['*', '/'], i) {
                push_spaces(out, 2);
            } else {
                push_blank(out, c, style);
            }
        },
        Lex::Quoted(_, _) => {
            if style == MaskStyle::CommentsOnly || style == MaskStyle::CommentsOnlyCharWidth {
                out.push(c);
                assert(old(out)@.push(c) =~= old(out)@ + seq![c]);
            } else {
                push_blank(out, c, style);
            }
        },
        Lex::Code => {
            if occurs_at_exec(s, &['/', '/'], i) || occurs_at_exec(s, &['/', '*'], i) {
                push_spaces(out, 2);
            } else if (c == '"' || c == '\'' || c == '`') && !(style == MaskStyle::CommentsOnly
                || style == MaskStyle::CommentsOnlyCharWidth) {
                push_blank(out, c, style);
            } else {
                out.push(c);
                assert(old(out)@.push(c) =~= old(out)@ + seq![c]);
            }
        },
    }
}

/// The mask of `content`: comments (and, unless `style` keeps them, string
/// literals) replaced by blanks, line breaks kept.
pub fn mask_source(content: &[char], style: MaskStyle) -> (res: Vec<char>)
    ensures
        res@ == mask(content@, style),
{
    let mut out: Vec<char> = Vec::new();
    let mut i: usize = 0;
    let mut st = Lex::Code;
    while i < content.len()
        invariant
            i <= content@.len(),
            mask(content@, style) == out@ + mask_from(content@, i as int, st, style),
        decreases content@.len() - i,
    {
        let (w, next) = lex_step_exec(content, i, st);
        proof {
            lemma_lex_step_width(content@, i as int, st);
        }
        let ghost before = out@;
        push_lex_out(&mut out, content, i, st, style);
        proof {
            assert(before + mask_from(content@, i as int, st, style) =~= out@ + mask_from(
                content@,
                i + w,
                next,
                style,
            ));
        }
        i = i + w;
        st = next;
    }
    assert(out@ + Seq::<char>::empty() =~= out@);
    out
}

/// The first index at or after `from` where `marker` starts outside comments
/// and string literals.
pub fn find_code_marker(content: &[char], marker: &[char], from: usize) -> (res: Option<usize>)
    ensures
        match res {
            Some(k) => code_marker(content@, marker@, from as int) == Some(k as int),
            None => code_marker(content@, marker@, from as int) is None,
        },
{
    let mut i: usize = 0;
    let mut st = Lex::Code;
    assert(seq!['/', '/'] =~= line_comment_open());
    assert(seq!['/', '*'] =~= block_comment_open());
    while i < content.len()
        invariant
            i <= content@.len(),
            code_marker(content@, marker@, from as int) == marker_from(
                content@,
                i as int,
                st,
                marker@,
                from as int,
            ),
        decreases content@.len() - i,
    {
        let c = content[i];
        if st == Lex::Code && !occurs_at_exec(content, &['/', '/'], i) && !occurs_at_exec(
            content,
            &['/', '*'],
            i,
        ) && !(c == '"' || c == '\'' || c == '`') && i >= from && occurs_at_exec(
            content,
            marker,
            i,
        ) {
            return Some(i);
        }
        let (w, next) = lex_step_exec(content, i, st);
        proof {
            lemma_lex_step_width(content@, i as int, st);
        }
        i = i + w;
        st = next;
    }
    None
}

/// Like `find_code_marker`, for a marker given as a string.
pub fn find_code_marker_str(content: &[char], marker: &str, from: usize) -> (res: Option<usize>)
    ensures
        match res {
            Some(k) => code_marker(content@, marker@, from as int) == Some(k as int),
            None => code_marker(content@, marker@, from as int) is None,
        },
{
    let m = chars_of(marker);
    find_code_marker(content, &m, from)
}

} // verus!
