//! Sorting the entries of exported locale objects by their translation key.
//!
//! A locale file exports an object literal (`export const es = { ... }`);
//! the formatter splits the object's body at its top-level commas, reads the
//! quoted key of each entry and writes the entries back ordered by key.
use vstd::prelude::*;

use crate::diagnostic::{
    diags_view, hinted, plain_diagnostic, Diagnostic, DiagnosticCode, DiagnosticLevel,
    DiagnosticView,
};
use crate::lang::{message, message_text, text, translation, Lang};
use crate::output::{
    FormatI18nCommandOutput, FormatI18nFile, FormatI18nFileStatus, FormatI18nSummary,
    OutputStats, OutputStatus,
};
use crate::utils::{any_error, has_error};
use crate::lexer::{lex_step, lex_step_exec, lemma_lex_step_width, Lex};
use crate::project::parser_support::{lemma_quoted_scan_end, lemma_ws_end_bounds, quoted_scan, read_literal};
use crate::text::{
    lemma_lex_asym, lemma_lex_total, lemma_lex_trans, chars_eq, chars_of, is_ascii_alnum, spaces, string_of, lex_less, lex_lt, lines, lines_of, push_all, slice_to_vec, trim, trim_end, trim_end_index,
    trim_range, find_char_exec, find_char_from, find_from, find_from_exec, lemma_find_char_from_bounds,
    lemma_find_from_bounds, occurs_at, occurs_at_exec, skip_ws, strip_cr, trim_start, ws_end,
};

verus! {

/// The index of the `}` that closes the object opened before index `i`,
/// `depth` objects being open there and the lexer being in state `st`.
pub open spec fn brace_from(s: Seq<char>, i: int, st: Lex, depth: nat) -> Option<int>
    decreases s.len() - i,
{
    if i < 0 || i >= s.len() {
        None
    } else if st == Lex::Code && s[i] == '{' {
        brace_from(s, i + 1, Lex::Code, depth + 1)
    } else if st == Lex::Code && s[i] == '}' {
        if depth == 0 {
            None
        } else if depth == 1 {
            Some(i)
        } else {
            brace_from(s, i + 1, Lex::Code, (depth - 1) as nat)
        }
    } else {
        let (w, next) = lex_step(s, i, st);
        proof {
            lemma_lex_step_width(s, i, st);
        }
        brace_from(s, i + w, next, depth)
    }
}

/// The index of the `}` matching the `{` at index `open` of `s`, braces
/// inside comments and string literals left aside.
pub open spec fn matching_brace(s: Seq<char>, open: int) -> Option<int> {
    brace_from(s, open, Lex::Code, 0)
}

pub proof fn lemma_brace_from_bounds(s: Seq<char>, i: int, st: Lex, depth: nat)
    requires
        0 <= i,
    ensures
        brace_from(s, i, st, depth) matches Some(c) ==> i <= c < s.len() && s[c] == '}',
    decreases s.len() - i,
{
    if i < s.len() {
        if st == Lex::Code && s[i] == '{' {
            lemma_brace_from_bounds(s, i + 1, Lex::Code, depth + 1);
        } else if st == Lex::Code && s[i] == '}' {
            if depth > 1 {
                lemma_brace_from_bounds(s, i + 1, Lex::Code, (depth - 1) as nat);
            }
        } else {
            let (w, next) = lex_step(s, i, st);
            lemma_lex_step_width(s, i, st);
            lemma_brace_from_bounds(s, i + w, next, depth);
        }
    }
}

/// Finds the `}` that matches the `{` at index `open` of `source`.
pub fn find_matching_brace(source: &[char], open: usize) -> (res: Option<usize>)
    requires
        open <= source@.len(),
    ensures
        match res {
            Some(c) => matching_brace(source@, open as int) == Some(c as int),
            None => matching_brace(source@, open as int) is None,
        },
{
    let mut i = open;
    let mut st = Lex::Code;
    let mut depth: usize = 0;
    while i < source.len()
        invariant
            open <= i,
            depth <= i - open,
            matching_brace(source@, open as int) == brace_from(source@, i as int, st, depth as nat),
        decreases source@.len() - i,
    {
        let c = source[i];
        if st == Lex::Code && c == '{' {
            depth = depth + 1;
            i = i + 1;
        } else if st == Lex::Code && c == '}' {
            if depth == 0 {
                return None;
            }
            if depth == 1 {
                return Some(i);
            }
            depth = depth - 1;
            i = i + 1;
        } else {
            let (w, next) = lex_step_exec(source, i, st);
            proof {
                lemma_lex_step_width(source@, i as int, st);
            }
            i = i + w;
            st = next;
        }
    }
    None
}

/// `n` less one, or zero.
pub open spec fn dec(n: nat) -> nat {
    if n == 0 {
        0
    } else {
        (n - 1) as nat
    }
}

/// The indices, from index `i` on, of the commas of `s` that stand in code
/// outside any `()`, `{}` or `[]`, `p`, `b` and `k` of these being open.
pub open spec fn commas_from(s: Seq<char>, i: int, st: Lex, p: nat, b: nat, k: nat) -> Seq<int>
    decreases s.len() - i,
{
    if i < 0 || i >= s.len() {
        Seq::empty()
    } else if st == Lex::Code && s[i] == ',' && p == 0 && b == 0 && k == 0 {
        seq![i] + commas_from(s, i + 1, Lex::Code, p, b, k)
    } else if st == Lex::Code && s[i] == '(' {
        commas_from(s, i + 1, Lex::Code, p + 1, b, k)
    } else if st == Lex::Code && s[i] == ')' {
        commas_from(s, i + 1, Lex::Code, dec(p), b, k)
    } else if st == Lex::Code && s[i] == '{' {
        commas_from(s, i + 1, Lex::Code, p, b + 1, k)
    } else if st == Lex::Code && s[i] == '}' {
        commas_from(s, i + 1, Lex::Code, p, dec(b), k)
    } else if st == Lex::Code && s[i] == '[' {
        commas_from(s, i + 1, Lex::Code, p, b, k + 1)
    } else if st == Lex::Code && s[i] == ']' {
        commas_from(s, i + 1, Lex::Code, p, b, dec(k))
    } else {
        let (w, next) = lex_step(s, i, st);
        proof {
            lemma_lex_step_width(s, i, st);
        }
        commas_from(s, i + w, next, p, b, k)
    }
}

/// The pieces of `s` between the cuts, the first piece starting at `start`.
pub open spec fn pieces_from(s: Seq<char>, start: int, cuts: Seq<int>) -> Seq<Seq<char>>
    decreases cuts.len(),
{
    if cuts.len() == 0 {
        seq![s.subrange(start, s.len() as int)]
    } else {
        seq![s.subrange(start, cuts[0])] + pieces_from(s, cuts[0] + 1, cuts.drop_first())
    }
}

/// The entries of an object body: the body cut at its top-level commas.
pub open spec fn top_level_entries(s: Seq<char>) -> Seq<Seq<char>> {
    pieces_from(s, 0, commas_from(s, 0, Lex::Code, 0, 0, 0))
}

/// The cuts lie in `s` at or after `start`, each on a `,`, in increasing
/// order.
pub open spec fn valid_cuts(s: Seq<char>, start: int, cuts: Seq<int>) -> bool {
    &&& forall|m: int| 0 <= m < cuts.len() ==> start <= #[trigger] cuts[m] < s.len() && s[cuts[m]] == ','
    &&& forall|m: int, n: int| 0 <= m < n < cuts.len() ==> #[trigger] cuts[m] < #[trigger] cuts[n]
}

/// The top-level commas found from index `i` on are commas of `s` at or
/// after `i`, in increasing order.
pub proof fn lemma_commas_valid(s: Seq<char>, i: int, st: Lex, p: nat, b: nat, k: nat)
    requires
        0 <= i,
    ensures
        valid_cuts(s, i, commas_from(s, i, st, p, b, k)),
    decreases s.len() - i,
{
    if i < s.len() {
        let r = commas_from(s, i, st, p, b, k);
        if st == Lex::Code && s[i] == ',' && p == 0 && b == 0 && k == 0 {
            let rest = commas_from(s, i + 1, Lex::Code, p, b, k);
            lemma_commas_valid(s, i + 1, Lex::Code, p, b, k);
            assert(r == seq![i] + rest);
            assert forall|m: int| 0 <= m < r.len() implies i <= #[trigger] r[m] < s.len() && s[r[m]] == ',' by {
                if m > 0 {
                    assert(r[m] == rest[m - 1]);
                }
            }
            assert forall|m: int, n: int| 0 <= m < n < r.len() implies #[trigger] r[m] < #[trigger] r[n] by {
                assert(r[n] == rest[n - 1]);
                if m > 0 {
                    assert(r[m] == rest[m - 1]);
                }
            }
        } else if st == Lex::Code && (s[i] == '(' || s[i] == ')' || s[i] == '{' || s[i] == '}' || s[i] == '['
            || s[i] == ']') {
            let q = if s[i] == '(' { p + 1 } else if s[i] == ')' { dec(p) } else { p };
            let bb = if s[i] == '{' { b + 1 } else if s[i] == '}' { dec(b) } else { b };
            let kk = if s[i] == '[' { k + 1 } else if s[i] == ']' { dec(k) } else { k };
            lemma_commas_valid(s, i + 1, Lex::Code, q, bb, kk);
            assert(r == commas_from(s, i + 1, Lex::Code, q, bb, kk));
        } else {
            let (w, next) = lex_step(s, i, st);
            lemma_lex_step_width(s, i, st);
            lemma_commas_valid(s, i + w, next, p, b, k);
            assert(r == commas_from(s, i + w, next, p, b, k));
        }
    }
}

/// Joining `a` and then `rest` puts `sep` between `a` and the join of
/// `rest`.
pub proof fn lemma_join_front(a: Seq<char>, rest: Seq<Seq<char>>, sep: Seq<char>)
    requires
        rest.len() > 0,
    ensures
        crate::utils::join(seq![a] + rest, sep) == a + sep + crate::utils::join(rest, sep),
    decreases rest.len(),
{
    let all = seq![a] + rest;
    if rest.len() == 1 {
        assert(all.drop_last() =~= seq![a]);
        assert(all.last() == rest[0]);
        assert(crate::utils::join(seq![a], sep) == a);
        assert(crate::utils::join(rest, sep) == rest[0]);
        assert(crate::utils::join(all, sep) == crate::utils::join(all.drop_last(), sep) + sep + all.last());
    } else {
        lemma_join_front(a, rest.drop_last(), sep);
        assert(all.drop_last() =~= seq![a] + rest.drop_last());
        assert(all.last() == rest.last());
        assert(crate::utils::join(all, sep) == crate::utils::join(all.drop_last(), sep) + sep + all.last());
        assert(crate::utils::join(rest, sep) == crate::utils::join(rest.drop_last(), sep) + sep + rest.last());
        assert(a + sep + crate::utils::join(rest.drop_last(), sep) + sep + rest.last() =~= a + sep + (
        crate::utils::join(rest.drop_last(), sep) + sep + rest.last()));
    }
}

/// The pieces between valid cuts, joined by `,`, give back the text from
/// `start` on; there is one piece more than cuts.
pub proof fn lemma_pieces_join(s: Seq<char>, start: int, cuts: Seq<int>)
    requires
        0 <= start <= s.len(),
        valid_cuts(s, start, cuts),
    ensures
        crate::utils::join(pieces_from(s, start, cuts), seq![',']) == s.subrange(start, s.len() as int),
        pieces_from(s, start, cuts).len() == cuts.len() + 1,
    decreases cuts.len(),
{
    if cuts.len() > 0 {
        let c = cuts[0];
        let more = cuts.drop_first();
        assert(valid_cuts(s, c + 1, more)) by {
            assert forall|m: int| 0 <= m < more.len() implies c + 1 <= #[trigger] more[m] < s.len() && s[more[m]] == ',' by {
                assert(more[m] == cuts[m + 1]);
                assert(cuts[0] < cuts[m + 1]);
            }
            assert forall|m: int, n: int| 0 <= m < n < more.len() implies #[trigger] more[m] < #[trigger] more[n] by {
                assert(more[m] == cuts[m + 1] && more[n] == cuts[n + 1]);
            }
        }
        lemma_pieces_join(s, c + 1, more);
        let rest = pieces_from(s, c + 1, more);
        lemma_join_front(s.subrange(start, c), rest, seq![',']);
        assert(s.subrange(start, c) + seq![','] + s.subrange(c + 1, s.len() as int) =~= s.subrange(start, s.len() as int));
    }
}

/// Law: the entries of an object body, joined by `,`, give back the body;
/// there is one entry more than the body has commas in code outside any
/// `()`, `{}` or `[]`, and the body is cut at each of those commas.
pub proof fn law_entries_join_back(body: Seq<char>)
    ensures
        crate::utils::join(top_level_entries(body), seq![',']) == body,
        top_level_entries(body).len() == commas_from(body, 0, Lex::Code, 0, 0, 0).len() + 1,
        valid_cuts(body, 0, commas_from(body, 0, Lex::Code, 0, 0, 0)),
{
    lemma_commas_valid(body, 0, Lex::Code, 0, 0, 0);
    lemma_pieces_join(body, 0, commas_from(body, 0, Lex::Code, 0, 0, 0));
    assert(body.subrange(0, body.len() as int) =~= body);
}

/// Splits an object body at the commas that separate its entries.
pub fn split_top_level_entries(body: &[char]) -> (res: Vec<Vec<char>>)
    ensures
        res.deep_view() == top_level_entries(body@),
{
    let mut entries: Vec<Vec<char>> = Vec::new();
    let mut start: usize = 0;
    let mut i: usize = 0;
    let mut st = Lex::Code;
    let mut p: usize = 0;
    let mut b: usize = 0;
    let mut k: usize = 0;
    while i < body.len()
        invariant
            start <= i,
            p <= i,
            b <= i,
            k <= i,
            i <= body@.len(),
            entries.deep_view() + pieces_from(
                body@,
                start as int,
                commas_from(body@, i as int, st, p as nat, b as nat, k as nat),
            ) == top_level_entries(body@),
        decreases body@.len() - i,
    {
        let c = body[i];
        if st == Lex::Code && c == ',' && p == 0 && b == 0 && k == 0 {
            let ghost rest = commas_from(body@, i + 1, Lex::Code, 0, 0, 0);
            let piece = crate::text::slice_to_vec(body, start, i);
            assert(piece.deep_view() =~= piece@);
            let ghost before = entries.deep_view();
            entries.push(piece);
            proof {
                assert((seq![i as int] + rest).drop_first() =~= rest);
                assert(entries.deep_view() =~= before.push(piece@));
                assert(entries.deep_view() + pieces_from(body@, i + 1, rest) =~= before
                    + pieces_from(body@, start as int, seq![i as int] + rest));
            }
            start = i + 1;
            i = i + 1;
        } else if st == Lex::Code && c == '(' {
            p = p + 1;
            i = i + 1;
        } else if st == Lex::Code && c == ')' {
            p = if p == 0 {
                0
            } else {
                p - 1
            };
            i = i + 1;
        } else if st == Lex::Code && c == '{' {
            b = b + 1;
            i = i + 1;
        } else if st == Lex::Code && c == '}' {
            b = if b == 0 {
                0
            } else {
                b - 1
            };
            i = i + 1;
        } else if st == Lex::Code && c == '[' {
            k = k + 1;
            i = i + 1;
        } else if st == Lex::Code && c == ']' {
            k = if k == 0 {
                0
            } else {
                k - 1
            };
            i = i + 1;
        } else {
            let (w, next) = lex_step_exec(body, i, st);
            proof {
                lemma_lex_step_width(body@, i as int, st);
            }
            i = i + w;
            st = next;
        }
    }
    let piece = crate::text::slice_to_vec(body, start, body.len());
    assert(piece.deep_view() =~= piece@);
    let ghost before = entries.deep_view();
    entries.push(piece);
    proof {
        assert(entries.deep_view() =~= before.push(piece@));
        assert(commas_from(body@, i as int, st, p as nat, b as nat, k as nat) =~= Seq::<int>::empty());
        assert(entries.deep_view() =~= before + pieces_from(body@, start as int, Seq::<int>::empty()));
    }
    entries
}


/// Where `s[v..]` starts once the white space and the `//` and `/* */`
/// comments in front of it are passed (the length of `s` where a comment is
/// not closed).
pub open spec fn strip_at(s: Seq<char>, v: int) -> int
    decreases s.len() - v,
{
    if v < 0 || v > s.len() {
        v
    } else {
        let t = ws_end(s, v);
        proof {
            lemma_ws_end_bounds(s, v);
        }
        if occurs_at(s, seq!['/', '/'], t) {
            match find_char_from(s, '\n', t + 2) {
                Some(n) => {
                    proof {
                        lemma_find_char_from_bounds(s, '\n', t + 2);
                    }
                    strip_at(s, n + 1)
                },
                None => s.len() as int,
            }
        } else if occurs_at(s, seq!['/', '*'], t) {
            match find_from(s, seq!['*', '/'], t + 2) {
                Some(e) => {
                    proof {
                        lemma_find_from_bounds(s, seq!['*', '/'], t + 2);
                    }
                    strip_at(s, e + 2)
                },
                None => s.len() as int,
            }
        } else {
            t
        }
    }
}

pub proof fn lemma_strip_at_bounds(s: Seq<char>, v: int)
    requires
        0 <= v <= s.len(),
    ensures
        v <= strip_at(s, v) <= s.len(),
    decreases s.len() - v,
{
    let t = ws_end(s, v);
    lemma_ws_end_bounds(s, v);
    if occurs_at(s, seq!['/', '/'], t) {
        lemma_find_char_from_bounds(s, '\n', t + 2);
        if let Some(n) = find_char_from(s, '\n', t + 2) {
            lemma_strip_at_bounds(s, n + 1);
        }
    } else if occurs_at(s, seq!['/', '*'], t) {
        lemma_find_from_bounds(s, seq!['*', '/'], t + 2);
        if let Some(e) = find_from(s, seq!['*', '/'], t + 2) {
            lemma_strip_at_bounds(s, e + 2);
        }
    }
}

/// Passes the white space and comments at the start of `s[from..]`.
fn strip_leading_comments(s: &[char], from: usize) -> (k: usize)
    requires
        from <= s@.len(),
    ensures
        k == strip_at(s@, from as int),
        from <= k <= s@.len(),
{
    proof {
        lemma_strip_at_bounds(s@, from as int);
    }
    let line_open: [char; 2] = ['/', '/'];
    let block_open: [char; 2] = ['/', '*'];
    let block_close: [char; 2] = ['*', '/'];
    assert(line_open@ =~= seq!['/', '/']);
    assert(block_open@ =~= seq!['/', '*']);
    assert(block_close@ =~= seq!['*', '/']);
    let n = s.len();
    let mut v = from;
    loop
        invariant
            from <= v <= s@.len(),
            n == s@.len(),
            line_open@ == seq!['/', '/'],
            block_open@ == seq!['/', '*'],
            block_close@ == seq!['*', '/'],
            strip_at(s@, v as int) == strip_at(s@, from as int),
        decreases s@.len() - v,
    {
        let t = skip_ws(s, v);
        proof {
            lemma_ws_end_bounds(s@, v as int);
        }
        if occurs_at_exec(s, &line_open, t) {
            assert(t + 2 <= n);
            proof {
                lemma_find_char_from_bounds(s@, '\n', t + 2);
            }
            match find_char_exec(s, '\n', t + 2) {
                Some(nl) => {
                    v = nl + 1;
                },
                None => {
                    return s.len();
                },
            }
        } else if occurs_at_exec(s, &block_open, t) {
            assert(t + 2 <= n);
            proof {
                lemma_find_from_bounds(s@, seq!['*', '/'], t + 2);
            }
            match find_from_exec(s, &block_close, t + 2) {
                Some(e) => {
                    assert(e + 2 <= n);
                    v = e + 2;
                },
                None => {
                    return s.len();
                },
            }
        } else {
            return t;
        }
    }
}

/// The translation key of a locale entry: the text of the quoted string
/// that starts the entry (after white space and comments) and is followed
/// by `:`.
pub open spec fn entry_key(entry: Seq<char>) -> Option<Seq<char>> {
    let p = strip_at(entry, 0);
    if 0 <= p < entry.len() && (entry[p] == '\'' || entry[p] == '"') {
        match quoted_scan(entry, p + 1, entry[p], false) {
            Some((key, j)) => {
                let w = ws_end(entry, j);
                if 0 <= w < entry.len() && entry[w] == ':' {
                    Some(key)
                } else {
                    None
                }
            },
            None => None,
        }
    } else {
        None
    }
}

/// Reads the translation key of a locale entry.
pub fn extract_entry_key(entry: &[char]) -> (res: Option<Vec<char>>)
    ensures
        match res {
            Some(k) => entry_key(entry@) == Some(k@),
            None => entry_key(entry@) is None,
        },
{
    let p = strip_leading_comments(entry, 0);
    if p >= entry.len() {
        return None;
    }
    let quote = entry[p];
    if quote != '\'' && quote != '"' {
        return None;
    }
    proof {
        lemma_quoted_scan_end(entry@, p + 1, quote, false);
    }
    match read_literal(entry, p + 1, quote) {
        Some((key, j)) => {
            let w = skip_ws(entry, j);
            if w < entry.len() && entry[w] == ':' {
                Some(key)
            } else {
                None
            }
        },
        None => None,
    }
}


/// The index of the first line of `ls`, from index `j` on, that holds
/// something other than white space.
pub open spec fn first_filled_from(ls: Seq<Seq<char>>, j: int) -> Option<int>
    decreases ls.len() - j,
{
    if j < 0 || j >= ls.len() {
        None
    } else if trim(ls[j]).len() > 0 {
        Some(j)
    } else {
        first_filled_from(ls, j + 1)
    }
}

/// The white space that starts `line`.
pub open spec fn leading_ws(line: Seq<char>) -> Seq<char> {
    line.take(ws_end(line, 0))
}

/// The indentation of the first line of `body` that is not blank.
pub open spec fn entry_indent(body: Seq<char>) -> Option<Seq<char>> {
    match first_filled_from(lines(body), 0) {
        Some(j) => Some(leading_ws(lines(body)[j])),
        None => None,
    }
}

/// Reads the indentation the entries of an object body are written with.
pub fn infer_entry_indent(body: &[char]) -> (res: Option<Vec<char>>)
    ensures
        match res {
            Some(i) => entry_indent(body@) == Some(i@),
            None => entry_indent(body@) is None,
        },
{
    let ls = lines_of(body);
    let mut j: usize = 0;
    while j < ls.len()
        invariant
            j <= ls@.len(),
            ls.deep_view() == lines(body@),
            first_filled_from(lines(body@), j as int) == first_filled_from(lines(body@), 0),
        decreases ls@.len() - j,
    {
        let line = &ls[j];
        assert(line@ == ls.deep_view()[j as int]);
        let (a, b) = trim_range(line, 0, line.len());
        assert(line@.subrange(0, line@.len() as int) =~= line@);
        if a < b {
            let k = skip_ws(line, 0);
            let lead = slice_to_vec(line, 0, k);
            assert(lead@ =~= leading_ws(line@));
            return Some(lead);
        }
        j = j + 1;
    }
    None
}

pub proof fn lemma_trim_end_len(s: Seq<char>)
    ensures
        trim_end(s).len() <= s.len(),
    decreases s.len(),
{
    if s.len() > 0 && crate::text::is_ws(s.last()) {
        lemma_trim_end_len(s.drop_last());
    }
}

/// `t` without the commas (and the white space before them) at its end.
pub open spec fn strip_trailing_commas(t: Seq<char>) -> Seq<char>
    decreases t.len(),
{
    if t.len() > 0 && t.last() == ',' {
        proof {
            lemma_trim_end_len(t.drop_last());
        }
        strip_trailing_commas(trim_end(t.drop_last()))
    } else {
        t
    }
}

/// The lines of `ls`, each with its trailing white space removed and each
/// put after a line break.
pub open spec fn joined_tail(ls: Seq<Seq<char>>) -> Seq<char>
    decreases ls.len(),
{
    if ls.len() == 0 {
        Seq::empty()
    } else {
        joined_tail(ls.drop_last()) + seq!['\n'] + trim_end(ls.last())
    }
}

/// An entry as the formatter writes it: trimmed, without trailing commas,
/// its first line indented by `indent` and every line without trailing
/// white space.
pub open spec fn rendered_entry(entry: Seq<char>, indent: Seq<char>) -> Seq<char> {
    let ls = lines(strip_trailing_commas(trim(entry)));
    if ls.len() == 0 {
        Seq::empty()
    } else {
        indent + trim_end(ls[0]) + joined_tail(ls.drop_first())
    }
}

/// `s` without its trailing white space is a prefix of `s` that is empty or
/// ends in other than white space, and the rest of `s` is white space.
proof fn lemma_trim_end_shape(s: Seq<char>)
    ensures
        trim_end(s) == s.take(trim_end(s).len() as int),
        trim_end(s).len() <= s.len(),
        trim_end(s).len() > 0 ==> !crate::text::is_ws(trim_end(s).last()),
        forall|j: int| trim_end(s).len() <= j < s.len() ==> crate::text::is_ws(#[trigger] s[j]),
        trim_end(trim_end(s)) == trim_end(s),
    decreases s.len(),
{
    if s.len() > 0 && crate::text::is_ws(s.last()) {
        lemma_trim_end_shape(s.drop_last());
        assert(s.drop_last().take(trim_end(s).len() as int) =~= s.take(trim_end(s).len() as int));
        assert forall|j: int| trim_end(s).len() <= j < s.len() implies crate::text::is_ws(#[trigger] s[j]) by {
            if j < s.len() - 1 {
                assert(s.drop_last()[j] == s[j]);
            }
        }
    } else {
        assert(s.take(s.len() as int) =~= s);
    }
}

/// `s` without its leading white space is a suffix of `s` that is empty or
/// starts with other than white space.
proof fn lemma_trim_start_shape(s: Seq<char>)
    ensures
        trim_start(s).len() <= s.len(),
        trim_start(s) == s.skip(s.len() - trim_start(s).len()),
        trim_start(s).len() > 0 ==> !crate::text::is_ws(trim_start(s)[0]),
    decreases s.len(),
{
    if s.len() > 0 && crate::text::is_ws(s[0]) {
        lemma_trim_start_shape(s.drop_first());
        assert(s.drop_first().skip(s.drop_first().len() - trim_start(s).len()) =~= s.skip(
            s.len() - trim_start(s).len(),
        ));
    } else {
        assert(s.skip(0) =~= s);
    }
}

/// White space in front of a text that starts with other than white space
/// is all that trimming its start removes.
proof fn lemma_trim_start_prefix(w: Seq<char>, u: Seq<char>)
    requires
        forall|j: int| 0 <= j < w.len() ==> crate::text::is_ws(#[trigger] w[j]),
        u.len() > 0,
        !crate::text::is_ws(u[0]),
    ensures
        trim_start(w + u) == u,
    decreases w.len(),
{
    if w.len() == 0 {
        assert(w + u =~= u);
    } else {
        assert((w + u)[0] == w[0]);
        assert((w + u).drop_first() =~= w.drop_first() + u);
        lemma_trim_start_prefix(w.drop_first(), u);
    }
}

/// A trimmed text is empty, or starts and ends with other than white space.
proof fn lemma_trim_shape(s: Seq<char>)
    ensures
        trim(s).len() > 0 ==> !crate::text::is_ws(trim(s)[0]) && !crate::text::is_ws(trim(s).last()),
{
    let t = trim_start(s);
    lemma_trim_start_shape(s);
    lemma_trim_end_shape(t);
    if trim(s).len() > 0 {
        assert(trim(s)[0] == t[0]);
    } else if t.len() > 0 {
        assert(crate::text::is_ws(t[0]));
    }
}

/// Removing trailing commas from a text that is empty or ends in other than
/// white space leaves a prefix of it that is empty or ends in neither white
/// space nor a comma.
proof fn lemma_strip_commas_shape(t: Seq<char>)
    requires
        t.len() > 0 ==> !crate::text::is_ws(t.last()),
    ensures
        strip_trailing_commas(t) == t.take(strip_trailing_commas(t).len() as int),
        strip_trailing_commas(t).len() <= t.len(),
        strip_trailing_commas(t).len() > 0 ==> !crate::text::is_ws(strip_trailing_commas(t).last())
            && strip_trailing_commas(t).last() != ',',
    decreases t.len(),
{
    if t.len() > 0 && t.last() == ',' {
        let u = trim_end(t.drop_last());
        lemma_trim_end_shape(t.drop_last());
        lemma_strip_commas_shape(u);
        let n = strip_trailing_commas(t).len() as int;
        assert(u.take(n) =~= t.take(n));
    } else {
        assert(t.take(t.len() as int) =~= t);
    }
}

/// The lines of `ys` joined by line breaks.
pub open spec fn newline_join(ys: Seq<Seq<char>>) -> Seq<char>
    decreases ys.len(),
{
    if ys.len() == 0 {
        Seq::empty()
    } else if ys.len() == 1 {
        ys[0]
    } else {
        ys[0] + seq!['\n'] + newline_join(ys.drop_first())
    }
}

proof fn lemma_joined_tail_front(x: Seq<char>, xs: Seq<Seq<char>>)
    ensures
        joined_tail(seq![x] + xs) == seq!['\n'] + trim_end(x) + joined_tail(xs),
    decreases xs.len(),
{
    let all = seq![x] + xs;
    if xs.len() == 0 {
        assert(all.drop_last() =~= Seq::<Seq<char>>::empty());
        assert(all.last() == x);
        assert(joined_tail(all) == joined_tail(all.drop_last()) + seq!['\n'] + trim_end(all.last()));
        assert(joined_tail(Seq::<Seq<char>>::empty()) == Seq::<char>::empty());
        assert(joined_tail(all) =~= seq!['\n'] + trim_end(x) + joined_tail(xs));
    } else {
        assert(all.drop_last() =~= seq![x] + xs.drop_last());
        assert(all.last() == xs.last());
        lemma_joined_tail_front(x, xs.drop_last());
        assert(joined_tail(all) == joined_tail(all.drop_last()) + seq!['\n'] + trim_end(all.last()));
        assert(joined_tail(xs) == joined_tail(xs.drop_last()) + seq!['\n'] + trim_end(xs.last()));
        assert(joined_tail(all) =~= seq!['\n'] + trim_end(x) + joined_tail(xs));
    }
}

/// A first line followed by the joined tail of the others is all the lines,
/// the others without trailing white space, joined by line breaks.
proof fn lemma_joined_tail_join(a: Seq<char>, xs: Seq<Seq<char>>)
    ensures
        a + joined_tail(xs) == newline_join(seq![a] + xs.map_values(|x: Seq<char>| trim_end(x))),
    decreases xs.len(),
{
    let m = xs.map_values(|x: Seq<char>| trim_end(x));
    if xs.len() == 0 {
        assert(a + Seq::<char>::empty() =~= a);
    } else {
        let rest = xs.drop_first();
        assert(xs =~= seq![xs[0]] + rest);
        lemma_joined_tail_front(xs[0], rest);
        lemma_joined_tail_join(trim_end(xs[0]), rest);
        assert((seq![a] + m).drop_first() =~= seq![trim_end(xs[0])] + rest.map_values(
            |x: Seq<char>| trim_end(x),
        ));
        assert(a + joined_tail(xs) =~= a + seq!['\n'] + (trim_end(xs[0]) + joined_tail(rest)));
    }
}

/// Trimming the lines again changes nothing in their joined tail.
proof fn lemma_joined_tail_trimmed(xs: Seq<Seq<char>>)
    ensures
        joined_tail(xs.map_values(|x: Seq<char>| trim_end(x))) == joined_tail(xs),
    decreases xs.len(),
{
    if xs.len() > 0 {
        let m = xs.map_values(|x: Seq<char>| trim_end(x));
        assert(m.drop_last() =~= xs.drop_last().map_values(|x: Seq<char>| trim_end(x)));
        lemma_joined_tail_trimmed(xs.drop_last());
        lemma_trim_end_shape(xs.last());
    }
}

/// No line of `lines(s)` holds a line break; where `s` starts and ends with
/// other than white space, so do its first and last lines.
proof fn lemma_lines_shape(s: Seq<char>)
    ensures
        forall|i: int, j: int|
            0 <= i < lines(s).len() && 0 <= j < lines(s)[i].len() ==> #[trigger] lines(s)[i][j] != '\n',
        s.len() > 0 ==> lines(s).len() > 0,
        s.len() > 0 && !crate::text::is_ws(s[0]) ==> lines(s)[0].len() > 0 && lines(s)[0][0] == s[0],
        s.len() > 0 && !crate::text::is_ws(s.last()) ==> lines(s).last().len() > 0 && lines(
            s,
        ).last().last() == s.last(),
    decreases s.len(),
{
    if s.len() > 0 {
        lemma_find_char_from_bounds(s, '\n', 0);
        match find_char_from(s, '\n', 0) {
            Some(k) => {
                let rest = s.skip(k + 1);
                lemma_lines_shape(rest);
                let first = strip_cr(s.take(k));
                assert(lines(s) == seq![first] + lines(rest));
                assert forall|i: int, j: int|
                    0 <= i < lines(s).len() && 0 <= j < lines(s)[i].len() implies #[trigger] lines(
                    s,
                )[i][j] != '\n' by {
                    if i == 0 {
                        assert(first[j] == s[j]);
                    } else {
                        assert(lines(s)[i] == lines(rest)[i - 1]);
                    }
                }
                if !crate::text::is_ws(s[0]) {
                    assert(k > 0);
                    assert(s.take(k)[0] == s[0]);
                    if k == 1 {
                        assert(s.take(k).last() == s[0]);
                    }
                }
                if !crate::text::is_ws(s.last()) {
                    assert(k + 1 < s.len());
                    assert(rest.last() == s.last());
                    assert(lines(s).last() == lines(rest).last());
                }
            },
            None => {
                assert(lines(s) == seq![s]);
            },
        }
    }
}

/// Lines without line breaks, none ending in `\r` and the last not empty,
/// are the lines of the text they join into.
proof fn lemma_lines_of_join(ys: Seq<Seq<char>>)
    requires
        ys.len() > 0,
        ys.last().len() > 0,
        forall|i: int, j: int| 0 <= i < ys.len() && 0 <= j < ys[i].len() ==> #[trigger] ys[i][j] != '\n',
        forall|i: int| 0 <= i < ys.len() ==> strip_cr(#[trigger] ys[i]) == ys[i],
    ensures
        lines(newline_join(ys)) == ys,
        newline_join(ys).len() > 0,
        newline_join(ys).last() == ys.last().last(),
        ys[0].len() > 0 ==> newline_join(ys)[0] == ys[0][0],
    decreases ys.len(),
{
    if ys.len() == 1 {
        crate::text::lemma_lines_last(ys[0]);
    } else {
        let rest = ys.drop_first();
        lemma_lines_of_join(rest);
        let j = newline_join(ys);
        let k = ys[0].len() as int;
        assert(j == ys[0] + seq!['\n'] + newline_join(rest));
        assert(j[k] == '\n');
        assert forall|m: int| 0 <= m < k implies j[m] != '\n' by {
            assert(j[m] == ys[0][m]);
        }
        crate::text::lemma_lines_step(j, k);
        assert(j.take(k) =~= ys[0]);
        assert(j.skip(k + 1) =~= newline_join(rest));
        assert(ys =~= seq![ys[0]] + rest);
        assert(j.last() == newline_join(rest).last());
        if k > 0 {
            assert(j[0] == ys[0][0]);
        }
    }
}

/// Law: rendering an entry that the formatter has already rendered gives it
/// back, with the same indentation made of white space.
pub proof fn law_rendered_entry_stable(entry: Seq<char>, indent: Seq<char>)
    requires
        forall|j: int| 0 <= j < indent.len() ==> crate::text::is_ws(#[trigger] indent[j]),
    ensures
        rendered_entry(rendered_entry(entry, indent), indent) == rendered_entry(entry, indent),
{
    let t0 = trim(entry);
    lemma_trim_shape(entry);
    lemma_strip_commas_shape(t0);
    let t = strip_trailing_commas(t0);
    let ls = lines(t);
    if ls.len() == 0 {
        assert(rendered_entry(entry, indent) == Seq::<char>::empty());
        assert(trim_start(Seq::<char>::empty()) == Seq::<char>::empty());
        assert(trim(Seq::<char>::empty()) == Seq::<char>::empty());
        assert(strip_trailing_commas(Seq::<char>::empty()) == Seq::<char>::empty());
        assert(lines(Seq::<char>::empty()) == Seq::<Seq<char>>::empty());
    } else {
        assert(t.len() > 0);
        assert(t[0] == t0[0]);
        lemma_lines_shape(t);
        let ys = ls.map_values(|x: Seq<char>| trim_end(x));
        lemma_joined_tail_join(trim_end(ls[0]), ls.drop_first());
        assert(seq![trim_end(ls[0])] + ls.drop_first().map_values(|x: Seq<char>| trim_end(x)) =~= ys);
        let u = newline_join(ys);
        assert(trim_end(ls[0]) + joined_tail(ls.drop_first()) == u);
        assert forall|i: int, j: int| 0 <= i < ys.len() && 0 <= j < ys[i].len() implies #[trigger] ys[i][j]
            != '\n' by {
            lemma_trim_end_shape(ls[i]);
            assert(ys[i][j] == ls[i][j]);
        }
        assert forall|i: int| 0 <= i < ys.len() implies strip_cr(#[trigger] ys[i]) == ys[i] by {
            lemma_trim_end_shape(ls[i]);
        }
        lemma_trim_end_shape(ls[0]);
        lemma_trim_end_shape(ls.last());
        assert(ys[0].len() > 0 && ys[0][0] == t[0]) by {
            assert(ls[0].take(ys[0].len() as int) == ys[0]);
            if ys[0].len() == 0 {
                assert(crate::text::is_ws(ls[0][0]));
            }
        }
        assert(ys.last() == trim_end(ls.last()));
        assert(ys.last() == ls.last() && ys.last().last() == t.last()) by {
            if trim_end(ls.last()).len() < ls.last().len() {
                assert(crate::text::is_ws(ls.last()[ls.last().len() - 1]));
            }
            assert(ls.last().take(ls.last().len() as int) =~= ls.last());
        }
        lemma_lines_of_join(ys);
        let r = rendered_entry(entry, indent);
        assert(r == indent + u);
        lemma_trim_start_prefix(indent, u);
        assert(trim_start(r) == u);
        assert(trim_end(u) == u);
        assert(trim(r) == u);
        assert(strip_trailing_commas(u) == u);
        assert(lines(u) == ys);
        lemma_trim_end_shape(ys[0]);
        lemma_joined_tail_trimmed(ls.drop_first());
        assert(ys.drop_first() =~= ls.drop_first().map_values(|x: Seq<char>| trim_end(x)));
    }
}

/// Writes an entry as the formatter lays it out.
pub fn render_entry(entry: &[char], indent: &[char]) -> (res: Vec<char>)
    ensures
        res@ == rendered_entry(entry@, indent@),
{
    let (a, b0) = trim_range(entry, 0, entry.len());
    assert(entry@.subrange(0, entry@.len() as int) =~= entry@);
    let mut b = b0;
    while b > a && entry[b - 1] == ','
        invariant
            a <= b <= entry@.len(),
            strip_trailing_commas(entry@.subrange(a as int, b as int)) == strip_trailing_commas(
                trim(entry@),
            ),
        decreases b - a,
    {
        let ghost t = entry@.subrange(a as int, b as int);
        assert(t.drop_last() =~= entry@.subrange(a as int, b - 1));
        b = trim_end_index(entry, a, b - 1);
    }
    let t = slice_to_vec(entry, a, b);
    let ls = lines_of(&t);
    let mut out: Vec<char> = Vec::new();
    if ls.len() == 0 {
        return out;
    }
    let ghost l = ls.deep_view();
    push_all(&mut out, indent);
    let first = &ls[0];
    assert(first@ == l[0]);
    let e = trim_end_index(first, 0, first.len());
    assert(first@.subrange(0, first@.len() as int) =~= first@);
    let head = slice_to_vec(first, 0, e);
    push_all(&mut out, &head);
    assert(l.subrange(1, 1) =~= Seq::<Seq<char>>::empty());
    let mut j: usize = 1;
    while j < ls.len()
        invariant
            1 <= j <= ls@.len(),
            l == ls.deep_view(),
            l.len() == ls@.len(),
            out@ == indent@ + trim_end(l[0]) + joined_tail(l.subrange(1, j as int)),
        decreases ls@.len() - j,
    {
        let line = &ls[j];
        assert(line@ == l[j as int]);
        let e = trim_end_index(line, 0, line.len());
        assert(line@.subrange(0, line@.len() as int) =~= line@);
        let part = slice_to_vec(line, 0, e);
        let ghost before = out@;
        out.push('\n');
        push_all(&mut out, &part);
        proof {
            let sub = l.subrange(1, j + 1);
            assert(sub.drop_last() =~= l.subrange(1, j as int));
            assert(sub.last() == l[j as int]);
            assert(out@ =~= before + seq!['\n'] + trim_end(l[j as int]));
        }
        j = j + 1;
    }
    assert(l.subrange(1, l.len() as int) =~= l.drop_first());
    out
}

/// `sorted` with `x` put after every pair whose key does not come after
/// the key of `x`.
pub open spec fn insert_by_key(sorted: Seq<(Seq<char>, Seq<char>)>, x: (Seq<char>, Seq<char>)) -> Seq<
    (Seq<char>, Seq<char>),
>
    decreases sorted.len(),
{
    if sorted.len() == 0 {
        seq![x]
    } else if lex_lt(x.0, sorted.last().0) {
        insert_by_key(sorted.drop_last(), x).push(sorted.last())
    } else {
        sorted.push(x)
    }
}

/// `s` stably sorted by key: pairs with equal keys keep their order.
pub open spec fn sort_by_key(s: Seq<(Seq<char>, Seq<char>)>) -> Seq<(Seq<char>, Seq<char>)>
    decreases s.len(),
{
    if s.len() == 0 {
        Seq::empty()
    } else {
        insert_by_key(sort_by_key(s.drop_last()), s.last())
    }
}

pub open spec fn pairs_view(v: Seq<(Vec<char>, Vec<char>)>) -> Seq<(Seq<char>, Seq<char>)> {
    v.map_values(|p: (Vec<char>, Vec<char>)| (p.0@, p.1@))
}

pub proof fn lemma_insert_at(sorted: Seq<(Seq<char>, Seq<char>)>, x: (Seq<char>, Seq<char>), j: int)
    requires
        0 <= j <= sorted.len(),
        j == 0 || !lex_lt(x.0, sorted[j - 1].0),
        forall|m: int| j <= m < sorted.len() ==> lex_lt(x.0, #[trigger] sorted[m].0),
    ensures
        insert_by_key(sorted, x) == sorted.insert(j, x),
    decreases sorted.len(),
{
    if sorted.len() == j {
        assert(sorted.insert(j, x) =~= sorted.push(x));
    } else {
        let d = sorted.drop_last();
        assert(lex_lt(x.0, sorted[sorted.len() - 1].0));
        assert forall|m: int| j <= m < d.len() implies lex_lt(x.0, #[trigger] d[m].0) by {
            assert(d[m] == sorted[m]);
        }
        if j > 0 {
            assert(d[j - 1] == sorted[j - 1]);
        }
        lemma_insert_at(d, x, j);
        assert(d.insert(j, x).push(sorted.last()) =~= sorted.insert(j, x));
    }
}

/// No pair of `s` has a key that comes before the key of a pair ahead of
/// it.
pub open spec fn keys_ordered(s: Seq<(Seq<char>, Seq<char>)>) -> bool {
    forall|i: int, j: int| 0 <= i < j < s.len() ==> !lex_lt(#[trigger] s[j].0, #[trigger] s[i].0)
}

/// Law: sorting entries that are already in key order changes nothing.
pub proof fn law_sort_keeps_sorted(s: Seq<(Seq<char>, Seq<char>)>)
    requires
        keys_ordered(s),
    ensures
        sort_by_key(s) == s,
    decreases s.len(),
{
    if s.len() > 0 {
        let d = s.drop_last();
        assert(keys_ordered(d)) by {
            assert forall|i: int, j: int| 0 <= i < j < d.len() implies !lex_lt(#[trigger] d[j].0, #[trigger] d[i].0) by {
                assert(d[i] == s[i] && d[j] == s[j]);
            }
        }
        law_sort_keeps_sorted(d);
        if d.len() > 0 {
            assert(d.last() == s[s.len() - 2]);
            assert(!lex_lt(s[s.len() - 1].0, s[s.len() - 2].0));
        }
        assert(d.push(s.last()) =~= s);
    }
}

pub proof fn lemma_insert_keeps(
    s: Seq<(Seq<char>, Seq<char>)>,
    x: (Seq<char>, Seq<char>),
    p: spec_fn((Seq<char>, Seq<char>)) -> bool,
)
    requires
        p(x),
        forall|i: int| 0 <= i < s.len() ==> p(#[trigger] s[i]),
    ensures
        insert_by_key(s, x).len() == s.len() + 1,
        forall|i: int| 0 <= i < insert_by_key(s, x).len() ==> p(#[trigger] insert_by_key(s, x)[i]),
    decreases s.len(),
{
    if s.len() > 0 && lex_lt(x.0, s.last().0) {
        let d = s.drop_last();
        assert forall|i: int| 0 <= i < d.len() implies p(#[trigger] d[i]) by {
            assert(d[i] == s[i]);
        }
        lemma_insert_keeps(d, x, p);
        let r = insert_by_key(d, x);
        assert forall|i: int| 0 <= i < r.push(s.last()).len() implies p(#[trigger] r.push(
            s.last(),
        )[i]) by {
            if i < r.len() {
                assert(r.push(s.last())[i] == r[i]);
            }
        }
    } else if s.len() > 0 {
        assert forall|i: int| 0 <= i < s.push(x).len() implies p(#[trigger] s.push(x)[i]) by {
            if i < s.len() {
                assert(s.push(x)[i] == s[i]);
            }
        }
    }
}

pub proof fn lemma_insert_ordered(s: Seq<(Seq<char>, Seq<char>)>, x: (Seq<char>, Seq<char>))
    requires
        keys_ordered(s),
    ensures
        keys_ordered(insert_by_key(s, x)),
    decreases s.len(),
{
    if s.len() == 0 {
    } else if lex_lt(x.0, s.last().0) {
        let d = s.drop_last();
        let last = s.last();
        assert(keys_ordered(d)) by {
            assert forall|i: int, j: int| 0 <= i < j < d.len() implies !lex_lt(
                #[trigger] d[j].0,
                #[trigger] d[i].0,
            ) by {
                assert(d[i] == s[i] && d[j] == s[j]);
            }
        }
        lemma_insert_ordered(d, x);
        let p = |e: (Seq<char>, Seq<char>)| !lex_lt(last.0, e.0);
        lemma_lex_asym(x.0, last.0);
        assert forall|i: int| 0 <= i < d.len() implies p(#[trigger] d[i]) by {
            assert(d[i] == s[i]);
            assert(s[s.len() - 1] == last);
        }
        lemma_insert_keeps(d, x, p);
        let r = insert_by_key(d, x);
        let t = r.push(last);
        assert forall|i: int, j: int| 0 <= i < j < t.len() implies !lex_lt(
            #[trigger] t[j].0,
            #[trigger] t[i].0,
        ) by {
            if j < r.len() {
                assert(t[i] == r[i] && t[j] == r[j]);
            } else {
                assert(t[j] == last);
                assert(t[i] == r[i]);
                assert(p(r[i]));
            }
        }
    } else {
        let t = s.push(x);
        assert forall|i: int, j: int| 0 <= i < j < t.len() implies !lex_lt(
            #[trigger] t[j].0,
            #[trigger] t[i].0,
        ) by {
            if j < s.len() {
                assert(t[i] == s[i] && t[j] == s[j]);
            } else {
                assert(t[j] == x);
                assert(t[i] == s[i]);
                let last = s.last();
                assert(s[s.len() - 1] == last);
                if i < s.len() - 1 {
                    assert(!lex_lt(last.0, s[i].0));
                }
                if lex_lt(x.0, s[i].0) {
                    lemma_lex_total(last.0, s[i].0);
                    if lex_lt(s[i].0, last.0) {
                        lemma_lex_trans(x.0, s[i].0, last.0);
                    }
                }
            }
        }
    }
}

pub proof fn lemma_insert_multiset(s: Seq<(Seq<char>, Seq<char>)>, x: (Seq<char>, Seq<char>))
    ensures
        insert_by_key(s, x).to_multiset() =~= s.to_multiset().insert(x),
    decreases s.len(),
{
    broadcast use vstd::seq_lib::group_to_multiset_ensures;

    if s.len() == 0 {
        assert(seq![x] =~= Seq::<(Seq<char>, Seq<char>)>::empty().push(x));
    } else if lex_lt(x.0, s.last().0) {
        let d = s.drop_last();
        lemma_insert_multiset(d, x);
        assert(d.push(s.last()) =~= s);
    }
}

/// Sorting keeps every pair: the sorted sequence holds the same pairs, as
/// many times each.
pub proof fn law_sort_keeps_entries(s: Seq<(Seq<char>, Seq<char>)>)
    ensures
        sort_by_key(s).to_multiset() =~= s.to_multiset(),
    decreases s.len(),
{
    broadcast use vstd::seq_lib::group_to_multiset_ensures;

    if s.len() > 0 {
        law_sort_keeps_entries(s.drop_last());
        lemma_insert_multiset(sort_by_key(s.drop_last()), s.last());
        assert(s.drop_last().push(s.last()) =~= s);
    }
}

/// Sorting puts the pairs in key order: no key comes before the key of a
/// pair ahead of it.
pub proof fn law_sort_orders_keys(s: Seq<(Seq<char>, Seq<char>)>)
    ensures
        keys_ordered(sort_by_key(s)),
    decreases s.len(),
{
    if s.len() > 0 {
        law_sort_orders_keys(s.drop_last());
        lemma_insert_ordered(sort_by_key(s.drop_last()), s.last());
    }
}

/// Puts an entry into a list of entries sorted by key, after the entries
/// whose key does not come after its own.
fn insert_sorted(v: &mut Vec<(Vec<char>, Vec<char>)>, x: (Vec<char>, Vec<char>))
    ensures
        pairs_view(final(v)@) == insert_by_key(pairs_view(old(v)@), (x.0@, x.1@)),
{
    let ghost pv = pairs_view(v@);
    let mut j = v.len();
    while j > 0 && lex_less(&x.0, &v[j - 1].0)
        invariant
            j <= v@.len(),
            pv == pairs_view(v@),
            forall|m: int| j <= m < v@.len() ==> lex_lt(x.0@, #[trigger] v@[m].0@),
        decreases j,
    {
        j = j - 1;
    }
    proof {
        assert forall|m: int| j <= m < pv.len() implies lex_lt(x.0@, #[trigger] pv[m].0) by {
            assert(pv[m].0 == v@[m].0@);
        }
        if j > 0 {
            assert(pv[j - 1].0 == v@[j - 1].0@);
        }
        lemma_insert_at(pv, (x.0@, x.1@), j as int);
    }
    let ghost xv = (x.0@, x.1@);
    v.insert(j, x);
    assert(pairs_view(v@) =~= pv.insert(j as int, xv));
}

/// Sorts entries stably by key.
pub fn sort_entries(items: Vec<(Vec<char>, Vec<char>)>) -> (res: Vec<(Vec<char>, Vec<char>)>)
    ensures
        pairs_view(res@) == sort_by_key(pairs_view(items@)),
{
    let mut out: Vec<(Vec<char>, Vec<char>)> = Vec::new();
    let mut rest = items;
    let ghost all = pairs_view(rest@);
    let mut i: usize = 0;
    let n = rest.len();
    assert(pairs_view(out@) =~= sort_by_key(all.take(0)));
    assert(pairs_view(rest@) =~= all.skip(0));
    while i < n
        invariant
            i <= n,
            n == all.len(),
            pairs_view(rest@) == all.skip(i as int),
            rest@.len() == n - i,
            pairs_view(out@) == sort_by_key(all.take(i as int)),
        decreases n - i,
    {
        let ghost before = rest@;
        let x = rest.remove(0);
        proof {
            assert(pairs_view(before)[0] == (x.0@, x.1@));
            assert(all.skip(i as int)[0] == all[i as int]);
            assert forall|m: int| 0 <= m < rest@.len() implies #[trigger] pairs_view(rest@)[m]
                == all.skip(i + 1)[m] by {
                assert(rest@[m] == before[m + 1]);
                assert(pairs_view(before)[m + 1] == all.skip(i as int)[m + 1]);
            }
            assert(pairs_view(rest@) =~= all.skip(i + 1));
            assert(all.take(i + 1).drop_last() =~= all.take(i as int));
            assert(all.take(i + 1).last() == all[i as int]);
        }
        insert_sorted(&mut out, x);
        i = i + 1;
    }
    assert(all.take(n as int) =~= all);
    out
}


/// `export const ` — what introduces an exported constant.
pub open spec fn export_marker() -> Seq<char> {
    seq!['e', 'x', 'p', 'o', 'r', 't', ' ', 'c', 'o', 'n', 's', 't', ' ']
}

pub open spec fn is_export_name_char(c: char) -> bool {
    is_ascii_alnum(c) || c == '_' || c == '$'
}

/// The first index at or after `i` that ends an exported name.
pub open spec fn name_end_from(s: Seq<char>, i: int) -> Option<int>
    decreases s.len() - i,
{
    if i < 0 || i >= s.len() {
        None
    } else if !is_export_name_char(s[i]) {
        Some(i)
    } else {
        name_end_from(s, i + 1)
    }
}

pub proof fn lemma_name_end_bounds(s: Seq<char>, i: int)
    requires
        0 <= i,
    ensures
        name_end_from(s, i) matches Some(k) ==> i <= k < s.len(),
    decreases s.len() - i,
{
    if i < s.len() && is_export_name_char(s[i]) {
        lemma_name_end_bounds(s, i + 1);
    }
}

/// The braces of the object literal assigned to the first exported
/// constant, at or after index `from`, whose name is `expected` (any name
/// where `expected` is `None`).
pub open spec fn export_span_from(s: Seq<char>, from: int, expected: Option<Seq<char>>) -> Option<
    (int, int),
>
    decreases s.len() + 1 - from,
{
    if from < 0 {
        None
    } else {
        match find_from(s, export_marker(), from) {
            None => None,
            Some(e) => {
                let ns = e + 13;
                match name_end_from(s, ns) {
                    None => None,
                    Some(ne) => {
                        if expected is None || expected == Some(s.subrange(ns, ne)) {
                            match find_char_from(s, '=', e) {
                                None => None,
                                Some(q) => match find_char_from(s, '{', q) {
                                    None => None,
                                    Some(o) => match matching_brace(s, o) {
                                        None => None,
                                        Some(c) => Some((o, c)),
                                    },
                                },
                            }
                        } else {
                            proof {
                                lemma_find_from_bounds(s, export_marker(), from);
                                lemma_name_end_bounds(s, ns);
                            }
                            export_span_from(s, ne, expected)
                        }
                    },
                }
            },
        }
    }
}

pub proof fn lemma_export_span_bounds(s: Seq<char>, from: int, expected: Option<Seq<char>>)
    requires
        0 <= from,
    ensures
        export_span_from(s, from, expected) matches Some((o, c)) ==> 0 <= o < c < s.len(),
    decreases s.len() + 1 - from,
{
    lemma_find_from_bounds(s, export_marker(), from);
    if let Some(e) = find_from(s, export_marker(), from) {
        let ns = e + 13;
        lemma_name_end_bounds(s, ns);
        if let Some(ne) = name_end_from(s, ns) {
            if expected is None || expected == Some(s.subrange(ns, ne)) {
                lemma_find_char_from_bounds(s, '=', e);
                if let Some(q) = find_char_from(s, '=', e) {
                    lemma_find_char_from_bounds(s, '{', q);
                    if let Some(o) = find_char_from(s, '{', q) {
                        lemma_brace_from_bounds(s, o + 1, Lex::Code, 1);
                    }
                }
            } else {
                lemma_export_span_bounds(s, ne, expected);
            }
        }
    }
}

/// The braces of the exported locale object of `s`.
pub open spec fn export_span(s: Seq<char>, expected: Option<Seq<char>>) -> Option<(int, int)> {
    export_span_from(s, 0, expected)
}

pub open spec fn opt_chars(v: Option<Vec<char>>) -> Option<Seq<char>> {
    match v {
        Some(c) => Some(c@),
        None => None,
    }
}

/// The end of the exported name that starts at index `i`.
fn export_name_end(s: &[char], i: usize) -> (res: Option<usize>)
    ensures
        match res {
            Some(k) => name_end_from(s@, i as int) == Some(k as int),
            None => name_end_from(s@, i as int) is None,
        },
{
    let mut k = i;
    while k < s.len()
        invariant
            i <= k,
            name_end_from(s@, k as int) == name_end_from(s@, i as int),
        decreases s@.len() - k,
    {
        let c = s[k];
        let name_char = ('a' <= c && c <= 'z') || ('A' <= c && c <= 'Z') || ('0' <= c && c <= '9')
            || c == '_' || c == '$';
        if !name_char {
            return Some(k);
        }
        k = k + 1;
    }
    None
}

/// Finds the braces of the object literal of the exported constant named
/// `expected_export` (of the first exported constant where it is `None`).
pub fn find_exported_object_span(source: &[char], expected_export: &Option<Vec<char>>) -> (res:
    Option<(usize, usize)>)
    ensures
        match res {
            Some((o, c)) => export_span(source@, opt_chars(*expected_export)) == Some(
                (o as int, c as int),
            ),
            None => export_span(source@, opt_chars(*expected_export)) is None,
        },
{
    let ghost exp = opt_chars(*expected_export);
    let marker: [char; 13] = ['e', 'x', 'p', 'o', 'r', 't', ' ', 'c', 'o', 'n', 's', 't', ' '];
    assert(marker@ =~= export_marker());
    let n = source.len();
    let mut search_from: usize = 0;
    loop
        invariant
            search_from <= n,
            n == source@.len(),
            marker@ == export_marker(),
            exp == opt_chars(*expected_export),
            export_span_from(source@, search_from as int, exp) == export_span(source@, exp),
        decreases n + 1 - search_from,
    {
        proof {
            lemma_find_from_bounds(source@, export_marker(), search_from as int);
        }
        let e = match find_from_exec(source, &marker, search_from) {
            None => {
                return None;
            },
            Some(e) => e,
        };
        assert(e + 13 <= n);
        let ns = e + 13;
        proof {
            lemma_name_end_bounds(source@, ns as int);
        }
        let ne = match export_name_end(source, ns) {
            None => {
                return None;
            },
            Some(ne) => ne,
        };
        let wanted = match expected_export {
            None => true,
            Some(x) => {
                let name = slice_to_vec(source, ns, ne);
                chars_eq(&name, x)
            },
        };
        if wanted {
            proof {
                lemma_find_char_from_bounds(source@, '=', e as int);
            }
            let q = match find_char_exec(source, '=', e) {
                None => {
                    return None;
                },
                Some(q) => q,
            };
            proof {
                lemma_find_char_from_bounds(source@, '{', q as int);
            }
            let o = match find_char_exec(source, '{', q) {
                None => {
                    return None;
                },
                Some(o) => o,
            };
            let c = match find_matching_brace(source, o) {
                None => {
                    return None;
                },
                Some(c) => c,
            };
            return Some((o, c));
        }
        search_from = ne;
    }
}

/// Every entry is blank.
pub open spec fn all_blank(entries: Seq<Seq<char>>) -> bool {
    forall|i: int| 0 <= i < entries.len() ==> trim(#[trigger] entries[i]).len() == 0
}

/// The key and text of each entry that is not blank; `None` where one of
/// them has no key.
pub open spec fn keyed_entries(entries: Seq<Seq<char>>) -> Option<Seq<(Seq<char>, Seq<char>)>>
    decreases entries.len(),
{
    if entries.len() == 0 {
        Some(Seq::empty())
    } else {
        match keyed_entries(entries.drop_last()) {
            None => None,
            Some(ks) => if trim(entries.last()).len() == 0 {
                Some(ks)
            } else {
                match entry_key(entries.last()) {
                    Some(k) => Some(ks.push((k, entries.last()))),
                    None => None,
                }
            },
        }
    }
}

pub proof fn lemma_keyed_none_extends(entries: Seq<Seq<char>>, i: int, j: int)
    requires
        0 <= i <= j <= entries.len(),
        keyed_entries(entries.take(i)) is None,
    ensures
        keyed_entries(entries.take(j)) is None,
    decreases j - i,
{
    if i < j {
        lemma_keyed_none_extends(entries, i, j - 1);
        assert(entries.take(j).drop_last() =~= entries.take(j - 1));
    }
}

/// The sorted entries as the formatter writes them, each on its own line
/// and followed by a comma.
pub open spec fn rendered_entries(ks: Seq<(Seq<char>, Seq<char>)>, indent: Seq<char>) -> Seq<char>
    decreases ks.len(),
{
    if ks.len() == 0 {
        Seq::empty()
    } else {
        rendered_entries(ks.drop_last(), indent) + seq!['\n'] + rendered_entry(ks.last().1, indent)
            + seq![',']
    }
}

/// What formatting a locale source gives.
pub enum FormatOutcome {
    Formatted(Seq<char>),
    Unchanged,
    Unsupported,
}

/// The result of formatting a locale source: the new text, or why there is
/// none.
#[derive(Debug, PartialEq, Eq)]
pub enum FormatSourceResult {
    Formatted(String),
    Unchanged,
    Unsupported,
}

impl View for FormatSourceResult {
    type V = FormatOutcome;

    open spec fn view(&self) -> FormatOutcome {
        match self {
            FormatSourceResult::Formatted(t) => FormatOutcome::Formatted(t@),
            FormatSourceResult::Unchanged => FormatOutcome::Unchanged,
            FormatSourceResult::Unsupported => FormatOutcome::Unsupported,
        }
    }
}

/// The source with the entries of its exported object in key order.
pub open spec fn sorted_source(
    s: Seq<char>,
    o: int,
    c: int,
    ks: Seq<(Seq<char>, Seq<char>)>,
    indent: Seq<char>,
) -> Seq<char> {
    s.take(o + 1) + rendered_entries(sort_by_key(ks), indent) + seq!['\n'] + s.skip(c)
}

/// What `format_locale_source` gives: `Unsupported` where the exported
/// object is missing or one of its entries has no quoted key; `Unchanged`
/// where the object is empty or already laid out in key order; else the
/// source with the entries sorted by key.
pub open spec fn format_outcome(s: Seq<char>, expected: Option<Seq<char>>) -> FormatOutcome {
    match export_span(s, expected) {
        None => FormatOutcome::Unsupported,
        Some((o, c)) => {
            let body = s.subrange(o + 1, c);
            let entries = top_level_entries(body);
            if all_blank(entries) {
                FormatOutcome::Unchanged
            } else {
                match keyed_entries(entries) {
                    None => FormatOutcome::Unsupported,
                    Some(ks) => {
                        let indent = match entry_indent(body) {
                            Some(i) => i,
                            None => spaces(4),
                        };
                        let next = sorted_source(s, o, c, ks, indent);
                        if next == s {
                            FormatOutcome::Unchanged
                        } else {
                            FormatOutcome::Formatted(next)
                        }
                    },
                }
            }
        },
    }
}

/// `next` is `s` with the keyed entries `ks` of the body of its exported
/// object (at `o` to `c`) replaced by `sorted`, rendered with `indent`,
/// where `sorted` holds the entries of `ks`, each as often, in key order.
pub open spec fn reordered(
    s: Seq<char>,
    expected: Option<Seq<char>>,
    next: Seq<char>,
    o: int,
    c: int,
    ks: Seq<(Seq<char>, Seq<char>)>,
    sorted: Seq<(Seq<char>, Seq<char>)>,
    indent: Seq<char>,
) -> bool {
    &&& export_span(s, expected) == Some((o, c))
    &&& keyed_entries(top_level_entries(s.subrange(o + 1, c))) == Some(ks)
    &&& next == s.take(o + 1) + rendered_entries(sorted, indent) + seq!['\n'] + s.skip(c)
    &&& sorted.to_multiset() == ks.to_multiset()
    &&& keys_ordered(sorted)
}

/// Law: formatting only reorders the entries of the exported object: the
/// text before its `{` and from its `}` on stays, and in between come the
/// keyed entries of the old body, each as often as before, in key order.
pub proof fn law_format_reorders_entries(s: Seq<char>, expected: Option<Seq<char>>)
    ensures
        format_outcome(s, expected) matches FormatOutcome::Formatted(next) ==> exists|
            o: int,
            c: int,
            ks: Seq<(Seq<char>, Seq<char>)>,
            sorted: Seq<(Seq<char>, Seq<char>)>,
            indent: Seq<char>,
        | #[trigger] reordered(s, expected, next, o, c, ks, sorted, indent),
{
    match format_outcome(s, expected) {
        FormatOutcome::Formatted(next) => {
            let (o, c) = export_span(s, expected)->0;
            let body = s.subrange(o + 1, c);
            let ks = keyed_entries(top_level_entries(body))->0;
            let indent = match entry_indent(body) {
                Some(i) => i,
                None => spaces(4),
            };
            let sorted = sort_by_key(ks);
            law_sort_keeps_entries(ks);
            law_sort_orders_keys(ks);
            assert(reordered(s, expected, next, o, c, ks, sorted, indent));
        },
        _ => {},
    }
}

/// Whether every entry is blank.
fn entries_all_blank(entries: &Vec<Vec<char>>) -> (res: bool)
    ensures
        res == all_blank(entries.deep_view()),
{
    let ghost ev = entries.deep_view();
    let mut i: usize = 0;
    while i < entries.len()
        invariant
            i <= entries@.len(),
            ev == entries.deep_view(),
            ev.len() == entries@.len(),
            forall|m: int| 0 <= m < i ==> trim(#[trigger] ev[m]).len() == 0,
        decreases entries@.len() - i,
    {
        let entry = &entries[i];
        assert(entry@ == ev[i as int]);
        let (a, b) = trim_range(entry, 0, entry.len());
        assert(entry@.subrange(0, entry@.len() as int) =~= entry@);
        if a < b {
            return false;
        }
        i = i + 1;
    }
    true
}

/// The key and text of each entry that is not blank, or `None` where an
/// entry has no key.
fn key_entries(entries: &Vec<Vec<char>>) -> (res: Option<Vec<(Vec<char>, Vec<char>)>>)
    ensures
        match res {
            Some(ks) => keyed_entries(entries.deep_view()) == Some(pairs_view(ks@)),
            None => keyed_entries(entries.deep_view()) is None,
        },
{
    let ghost ev = entries.deep_view();
    let mut keyed: Vec<(Vec<char>, Vec<char>)> = Vec::new();
    let mut j: usize = 0;
    assert(ev.take(0) =~= Seq::<Seq<char>>::empty());
    assert(pairs_view(keyed@) =~= Seq::<(Seq<char>, Seq<char>)>::empty());
    while j < entries.len()
        invariant
            j <= entries@.len(),
            ev == entries.deep_view(),
            ev.len() == entries@.len(),
            keyed_entries(ev.take(j as int)) == Some(pairs_view(keyed@)),
        decreases entries@.len() - j,
    {
        let entry = &entries[j];
        assert(entry@ == ev[j as int]);
        assert(ev.take(j + 1).drop_last() =~= ev.take(j as int));
        assert(ev.take(j + 1).last() == ev[j as int]);
        let (a, b) = trim_range(entry, 0, entry.len());
        assert(entry@.subrange(0, entry@.len() as int) =~= entry@);
        if a < b {
            match extract_entry_key(entry) {
                Some(k) => {
                    let copy = slice_to_vec(entry, 0, entry.len());
                    let ghost before = pairs_view(keyed@);
                    let ghost pair = (k@, copy@);
                    keyed.push((k, copy));
                    assert(pairs_view(keyed@) =~= before.push(pair));
                },
                None => {
                    proof {
                        lemma_keyed_none_extends(ev, j + 1, ev.len() as int);
                        assert(ev.take(ev.len() as int) =~= ev);
                    }
                    return None;
                },
            }
        }
        j = j + 1;
    }
    assert(ev.take(ev.len() as int) =~= ev);
    Some(keyed)
}

/// Writes the source with its object body replaced by the sorted entries.
fn write_sorted(
    s: &[char],
    o: usize,
    c: usize,
    sorted: &Vec<(Vec<char>, Vec<char>)>,
    indent: &[char],
) -> (res: Vec<char>)
    requires
        o < c <= s@.len(),
    ensures
        res@ == s@.take(o + 1) + rendered_entries(pairs_view(sorted@), indent@) + seq!['\n']
            + s@.skip(c as int),
{
    let ghost ks = pairs_view(sorted@);
    let mut next = slice_to_vec(s, 0, o + 1);
    let mut m: usize = 0;
    assert(ks.take(0) =~= Seq::<(Seq<char>, Seq<char>)>::empty());
    assert(next@ =~= s@.take(o + 1) + rendered_entries(ks.take(0), indent@));
    while m < sorted.len()
        invariant
            m <= sorted@.len(),
            ks == pairs_view(sorted@),
            ks.len() == sorted@.len(),
            next@ == s@.take(o + 1) + rendered_entries(ks.take(m as int), indent@),
        decreases sorted@.len() - m,
    {
        let r = render_entry(&sorted[m].1, indent);
        assert(sorted@[m as int].1@ == ks[m as int].1);
        let ghost before = next@;
        next.push('\n');
        push_all(&mut next, &r);
        next.push(',');
        proof {
            assert(ks.take(m + 1).drop_last() =~= ks.take(m as int));
            assert(ks.take(m + 1).last() == ks[m as int]);
            assert(next@ =~= before + seq!['\n'] + r@ + seq![',']);
        }
        m = m + 1;
    }
    assert(ks.take(ks.len() as int) =~= ks);
    next.push('\n');
    let tail = slice_to_vec(s, c, s.len());
    push_all(&mut next, &tail);
    assert(tail@ =~= s@.skip(c as int));
    next
}

/// Sorts the entries of the exported locale object of `source` by key.
pub fn format_locale_source(source: &str, expected_export: Option<&str>) -> (res: FormatSourceResult)
    ensures
        res@ == format_outcome(
            source@,
            match expected_export {
                Some(e) => Some(e@),
                None => None,
            },
        ),
{
    let s = chars_of(source);
    let expected = match expected_export {
        Some(e) => Some(chars_of(e)),
        None => None,
    };
    let ghost exp = opt_chars(expected);
    assert(exp == match expected_export {
        Some(e) => Some(e@),
        None => None,
    });
    let (o, c) = match find_exported_object_span(&s, &expected) {
        None => {
            return FormatSourceResult::Unsupported;
        },
        Some(span) => span,
    };
    proof {
        lemma_export_span_bounds(s@, 0, exp);
    }
    let body = slice_to_vec(&s, o + 1, c);
    let entries = split_top_level_entries(&body);
    if entries_all_blank(&entries) {
        return FormatSourceResult::Unchanged;
    }
    let keyed = match key_entries(&entries) {
        None => {
            return FormatSourceResult::Unsupported;
        },
        Some(k) => k,
    };
    let sorted = sort_entries(keyed);
    let indent = match infer_entry_indent(&body) {
        Some(i) => i,
        None => {
            let v = vec![' ', ' ', ' ', ' '];
            assert(v@ =~= spaces(4));
            v
        },
    };
    let next = write_sorted(&s, o, c, &sorted, &indent);
    if chars_eq(&next, &s) {
        FormatSourceResult::Unchanged
    } else {
        FormatSourceResult::Formatted(string_of(&next))
    }
}


/// How many files of `files` have `status`.
pub open spec fn status_count(files: Seq<FormatI18nFile>, status: FormatI18nFileStatus) -> nat
    decreases files.len(),
{
    if files.len() == 0 {
        0
    } else {
        status_count(files.drop_last(), status) + if files.last().status == status {
            1nat
        } else {
            0nat
        }
    }
}

/// Counts the files of `files` that have `status`.
fn count_status(files: &Vec<FormatI18nFile>, status: FormatI18nFileStatus) -> (n: usize)
    ensures
        n == status_count(files@, status),
{
    let mut n: usize = 0;
    let mut i: usize = 0;
    while i < files.len()
        invariant
            i <= files@.len(),
            n <= i,
            n == status_count(files@.take(i as int), status),
        decreases files@.len() - i,
    {
        proof {
            assert(files@.take(i + 1).drop_last() =~= files@.take(i as int));
        }
        if files[i].status == status {
            n = n + 1;
        }
        i = i + 1;
    }
    assert(files@.take(files@.len() as int) =~= files@);
    n
}

/// The output of `format-i18n`: failed where a diagnostic is an error, with
/// the files counted by status.
pub fn build_output(diagnostics: Vec<Diagnostic>, stats: OutputStats, files: Vec<FormatI18nFile>) -> (res:
    FormatI18nCommandOutput)
    ensures
        res.status == (if has_error(diags_view(diagnostics@)) {
            OutputStatus::Failed
        } else {
            OutputStatus::Passed
        }),
        res.command@ == "format-i18n"@,
        res.diagnostics@ == diagnostics@,
        res.stats == stats,
        res.summary.files_found == files@.len(),
        res.summary.files_formatted == status_count(files@, FormatI18nFileStatus::Formatted),
        res.summary.files_unchanged == status_count(files@, FormatI18nFileStatus::Unchanged),
        res.summary.files_skipped == status_count(files@, FormatI18nFileStatus::Skipped),
        res.files@ == files@,
{
    let files_formatted = count_status(&files, FormatI18nFileStatus::Formatted);
    let files_unchanged = count_status(&files, FormatI18nFileStatus::Unchanged);
    let files_skipped = count_status(&files, FormatI18nFileStatus::Skipped);
    let has_errors = any_error(&diagnostics);
    FormatI18nCommandOutput {
        status: if has_errors {
            OutputStatus::Failed
        } else {
            OutputStatus::Passed
        },
        command: "format-i18n".to_string(),
        diagnostics,
        stats,
        summary: FormatI18nSummary {
            files_found: files.len(),
            files_formatted,
            files_unchanged,
            files_skipped,
        },
        files,
    }
}

/// What became of one locale file.
#[derive(PartialEq, Eq, Structural, Clone, Copy, Debug)]
pub enum LocaleFileEvent {
    /// The file could not be read.
    ReadFailed,
    /// The file has no exported locale object, or an entry without a key.
    Unsupported,
    /// The file was already in order.
    Unchanged,
    /// The sorted text was written.
    Written,
    /// The sorted text could not be written.
    WriteFailed,
}

/// The diagnostic that `event` brings, if any.
pub open spec fn event_diagnostic(locale: Lang, relative: Seq<char>, event: LocaleFileEvent) -> Option<
    DiagnosticView,
> {
    let args = seq![("file"@, relative)];
    match event {
        LocaleFileEvent::ReadFailed => Some(
            hinted(
                plain_diagnostic(
                    DiagnosticLevel::Error,
                    "patto_format_i18n_file_read_failed"@,
                    message_text(locale, "patto_format_i18n_file_read_failed.message"@, args),
                ),
                translation(locale, "patto_format_i18n_file_read_failed.hint"@),
            ),
        ),
        LocaleFileEvent::Unsupported => Some(
            hinted(
                plain_diagnostic(
                    DiagnosticLevel::Warning,
                    "patto_format_i18n_file_unsupported"@,
                    message_text(locale, "patto_format_i18n_file_unsupported.message"@, args),
                ),
                translation(locale, "patto_format_i18n_file_unsupported.hint"@),
            ),
        ),
        LocaleFileEvent::WriteFailed => Some(
            hinted(
                plain_diagnostic(
                    DiagnosticLevel::Error,
                    "patto_format_i18n_file_write_failed"@,
                    message_text(locale, "patto_format_i18n_file_write_failed.message"@, args),
                ),
                translation(locale, "patto_format_i18n_file_write_failed.hint"@),
            ),
        ),
        _ => None,
    }
}

/// The status a file gets for `event`.
pub open spec fn event_status(event: LocaleFileEvent) -> FormatI18nFileStatus {
    match event {
        LocaleFileEvent::Written => FormatI18nFileStatus::Formatted,
        LocaleFileEvent::Unchanged => FormatI18nFileStatus::Unchanged,
        _ => FormatI18nFileStatus::Skipped,
    }
}

/// Law: a locale file is reported as formatted exactly when its sorted text
/// was written, as unchanged exactly when it was already in order, and as
/// skipped otherwise.
pub proof fn law_file_status_follows_event(event: LocaleFileEvent)
    ensures
        (event_status(event) == FormatI18nFileStatus::Formatted) == (event == LocaleFileEvent::Written),
        (event_status(event) == FormatI18nFileStatus::Unchanged) == (event == LocaleFileEvent::Unchanged),
        (event_status(event) == FormatI18nFileStatus::Skipped) == (event != LocaleFileEvent::Written
            && event != LocaleFileEvent::Unchanged),
{
}

/// Law: a locale file brings a diagnostic exactly when it could not be
/// read, sorted or written: an error when reading or writing failed, a
/// warning when it holds no supported locale object.
pub proof fn law_file_diagnostic_follows_event(locale: Lang, relative: Seq<char>, event: LocaleFileEvent)
    ensures
        (event_diagnostic(locale, relative, event) is None) == (event == LocaleFileEvent::Written
            || event == LocaleFileEvent::Unchanged),
        event == LocaleFileEvent::ReadFailed || event == LocaleFileEvent::WriteFailed
            ==> event_diagnostic(locale, relative, event)->0.level == DiagnosticLevel::Error,
        event == LocaleFileEvent::Unsupported ==> event_diagnostic(locale, relative, event)->0.level
            == DiagnosticLevel::Warning,
        event == LocaleFileEvent::ReadFailed ==> event_diagnostic(locale, relative, event)->0.code
            == "patto_format_i18n_file_read_failed"@,
        event == LocaleFileEvent::Unsupported ==> event_diagnostic(locale, relative, event)->0.code
            == "patto_format_i18n_file_unsupported"@,
        event == LocaleFileEvent::WriteFailed ==> event_diagnostic(locale, relative, event)->0.code
            == "patto_format_i18n_file_write_failed"@,
{
}

/// The file record and the diagnostic for what became of a locale file.
pub fn file_report(locale: Lang, relative: &str, event: LocaleFileEvent) -> (res: (
    FormatI18nFile,
    Option<Diagnostic>,
))
    ensures
        res.0.path@ == relative@,
        res.0.status == event_status(event),
        match res.1 {
            Some(d) => event_diagnostic(locale, relative@, event) == Some(d@),
            None => event_diagnostic(locale, relative@, event) is None,
        },
{
    let status = match event {
        LocaleFileEvent::Written => FormatI18nFileStatus::Formatted,
        LocaleFileEvent::Unchanged => FormatI18nFileStatus::Unchanged,
        _ => FormatI18nFileStatus::Skipped,
    };
    let args = [("file", relative)];
    proof {
        reveal_strlit("file");
        assert(crate::lang::args_view(args@) =~= seq![("file"@, relative@)]);
    }
    let diagnostic = match event {
        LocaleFileEvent::ReadFailed => Some(
            Diagnostic::new(
                DiagnosticLevel::Error,
                DiagnosticCode::PATTO_FORMAT_I18N_FILE_READ_FAILED,
                message(locale, "patto_format_i18n_file_read_failed.message", &args),
            ).with_hint(text(locale, "patto_format_i18n_file_read_failed.hint")),
        ),
        LocaleFileEvent::Unsupported => Some(
            Diagnostic::new(
                DiagnosticLevel::Warning,
                DiagnosticCode::PATTO_FORMAT_I18N_FILE_UNSUPPORTED,
                message(locale, "patto_format_i18n_file_unsupported.message", &args),
            ).with_hint(text(locale, "patto_format_i18n_file_unsupported.hint")),
        ),
        LocaleFileEvent::WriteFailed => Some(
            Diagnostic::new(
                DiagnosticLevel::Error,
                DiagnosticCode::PATTO_FORMAT_I18N_FILE_WRITE_FAILED,
                message(locale, "patto_format_i18n_file_write_failed.message", &args),
            ).with_hint(text(locale, "patto_format_i18n_file_write_failed.hint")),
        ),
        _ => None,
    };
    (FormatI18nFile { path: relative.to_owned(), status }, diagnostic)
}

/// The diagnostic for a project without `src/i18n/locale`.
pub fn locale_dir_missing_diagnostic(locale: Lang) -> (res: Diagnostic)
    ensures
        res@ == hinted(
            plain_diagnostic(
                DiagnosticLevel::Warning,
                "patto_format_i18n_locale_dir_missing"@,
                translation(locale, "patto_format_i18n_locale_dir_missing"@),
            ),
            translation(locale, "patto_format_i18n_locale_dir_missing.hint"@),
        ),
{
    Diagnostic::new(
        DiagnosticLevel::Warning,
        DiagnosticCode::PATTO_FORMAT_I18N_LOCALE_DIR_MISSING,
        text(locale, "patto_format_i18n_locale_dir_missing"),
    ).with_hint(text(locale, "patto_format_i18n_locale_dir_missing.hint"))
}

} // verus!
