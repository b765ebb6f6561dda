//! Translation keys: the keys that locale files declare and the keys that
//! source files look up with `this.t(...)` or an alias of it.
use vstd::prelude::*;

use crate::format_i18n::opt_chars;
use crate::lexer::{lemma_mask_from_len, mask, mask_source, MaskStyle};
use crate::project::parser_support::{lemma_ws_end_bounds, quoted_scan, read_literal};
use crate::text::{
    chars_of, contains, find_from, find_from_exec, is_ascii_alnum, is_ascii_alpha, lines,
    lines_of, occurs_at, occurs_at_str, skip_ws, slice_to_vec, starts_with, starts_with_str,
    trim_start, ws_end,
};

verus! {

pub open spec fn is_ident_start(c: char) -> bool {
    is_ascii_alpha(c) || c == '_' || c == '$'
}

pub open spec fn is_ident_part(c: char) -> bool {
    is_ascii_alnum(c) || c == '_' || c == '$'
}

/// The end of the run of identifier characters of `v` that starts at `i`.
pub open spec fn ident_run(v: Seq<char>, i: int) -> int
    decreases v.len() - i,
{
    if 0 <= i < v.len() && is_ident_part(v[i]) {
        ident_run(v, i + 1)
    } else {
        i
    }
}

/// The end of the identifier that starts at index `from` of `v`, if one
/// starts there.
pub open spec fn identifier_end(v: Seq<char>, from: int) -> Option<int> {
    if 0 <= from < v.len() && is_ident_start(v[from]) {
        Some(ident_run(v, from + 1))
    } else {
        None
    }
}

pub proof fn lemma_ident_run_bounds(v: Seq<char>, i: int)
    requires
        0 <= i <= v.len(),
    ensures
        i <= ident_run(v, i) <= v.len(),
    decreases v.len() - i,
{
    if i < v.len() && is_ident_part(v[i]) {
        lemma_ident_run_bounds(v, i + 1);
    }
}

/// Whether `c` may continue an identifier.
fn is_identifier_part(c: char) -> (res: bool)
    ensures
        res == is_ident_part(c),
{
    ('a' <= c && c <= 'z') || ('A' <= c && c <= 'Z') || ('0' <= c && c <= '9') || c == '_' || c
        == '$'
}

/// Reads the identifier that starts at index `from` of `value`: its end.
pub fn read_identifier(value: &[char], from: usize) -> (res: Option<usize>)
    ensures
        match res {
            Some(e) => identifier_end(value@, from as int) == Some(e as int) && from < e
                <= value@.len(),
            None => identifier_end(value@, from as int) is None,
        },
{
    if from >= value.len() {
        return None;
    }
    let c = value[from];
    if !(('a' <= c && c <= 'z') || ('A' <= c && c <= 'Z') || c == '_' || c == '$') {
        return None;
    }
    let mut e = from + 1;
    while e < value.len() && is_identifier_part(value[e])
        invariant
            from < e <= value@.len(),
            ident_run(value@, e as int) == ident_run(value@, from + 1),
        decreases value@.len() - e,
    {
        e = e + 1;
    }
    Some(e)
}

/// Where the name of a `const` or `let` declaration starts in `t`.
pub open spec fn decl_rest(t: Seq<char>) -> Option<int> {
    if starts_with(t, "const "@) {
        Some(6)
    } else if starts_with(t, "let "@) {
        Some(4)
    } else {
        None
    }
}

fn declaration_start(t: &[char]) -> (res: Option<usize>)
    ensures
        match res {
            Some(p) => decl_rest(t@) == Some(p as int),
            None => decl_rest(t@) is None,
        },
{
    proof {
        reveal_strlit("const ");
        reveal_strlit("let ");
    }
    if starts_with_str(t, "const ") {
        Some(6)
    } else if starts_with_str(t, "let ") {
        Some(4)
    } else {
        None
    }
}

/// A line without its leading white space.
fn trimmed_line(line: &[char]) -> (res: Vec<char>)
    ensures
        res@ == trim_start(line@),
{
    let k = skip_ws(line, 0);
    assert(line@.skip(0) =~= line@);
    let t = slice_to_vec(line, k, line.len());
    assert(t@ =~= line@.skip(k as int));
    t
}

/// The alias a line declares for the translator: `const t = this.t...` or
/// `let t = i18n.for(...)`.
pub open spec fn line_alias(line: Seq<char>) -> Option<Seq<char>> {
    let t = trim_start(line);
    match decl_rest(t) {
        None => None,
        Some(p) => match identifier_end(t, p) {
            None => None,
            Some(e) => {
                let r = ws_end(t, e);
                if 0 <= r < t.len() && t[r] == '=' {
                    let r2 = ws_end(t, r + 1);
                    if occurs_at(t, "this.t"@, r2) || occurs_at(t, "i18n.for("@, r2) {
                        Some(t.subrange(p, e))
                    } else {
                        None
                    }
                } else {
                    None
                }
            },
        },
    }
}

fn alias_of_line(line: &[char]) -> (res: Option<Vec<char>>)
    ensures
        opt_chars(res) == line_alias(line@),
{
    let t = trimmed_line(line);
    let p = match declaration_start(&t) {
        None => {
            return None;
        },
        Some(p) => p,
    };
    let e = match read_identifier(&t, p) {
        None => {
            return None;
        },
        Some(e) => e,
    };
    let r = skip_ws(&t, e);
    if r < t.len() && t[r] == '=' {
        let r2 = skip_ws(&t, r + 1);
        if occurs_at_str(&t, "this.t", r2) || occurs_at_str(&t, "i18n.for(", r2) {
            return Some(slice_to_vec(&t, p, e));
        }
    }
    None
}

/// The aliases of the translator that the lines declare, each once, in the
/// order of their first declaration.
pub open spec fn aliases_of(ls: Seq<Seq<char>>) -> Seq<Seq<char>>
    decreases ls.len(),
{
    if ls.len() == 0 {
        Seq::empty()
    } else {
        let prev = aliases_of(ls.drop_last());
        match line_alias(ls.last()) {
            Some(a) => if prev.contains(a) {
                prev
            } else {
                prev.push(a)
            },
            None => prev,
        }
    }
}

/// Whether `names` holds `name`.
pub fn holds_name(names: &Vec<Vec<char>>, name: &[char]) -> (res: bool)
    ensures
        res == names.deep_view().contains(name@),
{
    let ghost nv = names.deep_view();
    let mut i: usize = 0;
    while i < names.len()
        invariant
            i <= names@.len(),
            nv == names.deep_view(),
            nv.len() == names@.len(),
            forall|j: int| 0 <= j < i ==> nv[j] != name@,
        decreases names@.len() - i,
    {
        assert(names@[i as int]@ == nv[i as int]);
        if crate::text::chars_eq(&names[i], name) {
            return true;
        }
        i = i + 1;
    }
    false
}

/// The aliases of the translator that `content` declares.
pub fn extract_translator_aliases(content: &[char]) -> (res: Vec<Vec<char>>)
    ensures
        res.deep_view() == aliases_of(lines(content@)),
{
    let ls = lines_of(content);
    let ghost lv = ls.deep_view();
    let mut out: Vec<Vec<char>> = Vec::new();
    let mut i: usize = 0;
    assert(lv.take(0) =~= Seq::<Seq<char>>::empty());
    assert(out.deep_view() =~= Seq::<Seq<char>>::empty());
    while i < ls.len()
        invariant
            i <= ls@.len(),
            lv == ls.deep_view(),
            lv.len() == ls@.len(),
            out.deep_view() == aliases_of(lv.take(i as int)),
        decreases ls@.len() - i,
    {
        assert(ls@[i as int]@ == lv[i as int]);
        assert(lv.take(i + 1).drop_last() =~= lv.take(i as int));
        assert(lv.take(i + 1).last() == lv[i as int]);
        match alias_of_line(&ls[i]) {
            Some(a) => {
                if !holds_name(&out, &a) {
                    let ghost before = out.deep_view();
                    assert(a.deep_view() =~= a@);
                    out.push(a);
                    assert(out.deep_view() =~= before.push(a@));
                }
            },
            None => {},
        }
        i = i + 1;
    }
    assert(lv.take(lv.len() as int) =~= lv);
    out
}


/// The name of a function that a line declares to return a
/// `TranslationKey`.
pub open spec fn line_key_function(line: Seq<char>) -> Option<Seq<char>> {
    let t = trim_start(line);
    if starts_with(t, "function "@) {
        match identifier_end(t, 9) {
            Some(e) => if find_from(t, ": TranslationKey"@, e) is Some {
                Some(t.subrange(9, e))
            } else {
                None
            },
            None => None,
        }
    } else {
        match decl_rest(t) {
            None => None,
            Some(p) => match identifier_end(t, p) {
                Some(e) => if find_from(t, "=>"@, e) is Some && find_from(
                    t,
                    ": TranslationKey"@,
                    e,
                ) is Some {
                    Some(t.subrange(p, e))
                } else {
                    None
                },
                None => None,
            },
        }
    }
}

/// The name of a variable that a line declares of type `TranslationKey`.
pub open spec fn line_key_variable(line: Seq<char>) -> Option<Seq<char>> {
    let t = trim_start(line);
    match decl_rest(t) {
        None => None,
        Some(p) => match identifier_end(t, p) {
            None => None,
            Some(e) => {
                let r = ws_end(t, e);
                if occurs_at(t, ": TranslationKey"@, r) || occurs_at(
                    t,
                    ": readonly TranslationKey"@,
                    r,
                ) {
                    Some(t.subrange(p, e))
                } else {
                    None
                }
            },
        },
    }
}

/// What `pick` gives for each line of `ls`, where it gives something.
pub open spec fn picked(ls: Seq<Seq<char>>, pick: spec_fn(Seq<char>) -> Option<Seq<char>>) -> Seq<
    Seq<char>,
>
    decreases ls.len(),
{
    if ls.len() == 0 {
        Seq::empty()
    } else {
        match pick(ls.last()) {
            Some(n) => picked(ls.drop_last(), pick).push(n),
            None => picked(ls.drop_last(), pick),
        }
    }
}

fn find_str_from(t: &[char], p: &str, from: usize) -> (res: bool)
    ensures
        res == find_from(t@, p@, from as int) is Some,
{
    let pc = chars_of(p);
    find_from_exec(t, &pc, from).is_some()
}

fn key_function_of_line(line: &[char]) -> (res: Option<Vec<char>>)
    ensures
        opt_chars(res) == line_key_function(line@),
{
    proof {
        reveal_strlit("function ");
    }
    let t = trimmed_line(line);
    if starts_with_str(&t, "function ") {
        return match read_identifier(&t, 9) {
            Some(e) => if find_str_from(&t, ": TranslationKey", e) {
                Some(slice_to_vec(&t, 9, e))
            } else {
                None
            },
            None => None,
        };
    }
    let p = match declaration_start(&t) {
        None => {
            return None;
        },
        Some(p) => p,
    };
    match read_identifier(&t, p) {
        Some(e) => if find_str_from(&t, "=>", e) && find_str_from(&t, ": TranslationKey", e) {
            Some(slice_to_vec(&t, p, e))
        } else {
            None
        },
        None => None,
    }
}

fn key_variable_of_line(line: &[char]) -> (res: Option<Vec<char>>)
    ensures
        opt_chars(res) == line_key_variable(line@),
{
    let t = trimmed_line(line);
    let p = match declaration_start(&t) {
        None => {
            return None;
        },
        Some(p) => p,
    };
    match read_identifier(&t, p) {
        None => None,
        Some(e) => {
            let r = skip_ws(&t, e);
            if occurs_at_str(&t, ": TranslationKey", r) || occurs_at_str(
                &t,
                ": readonly TranslationKey",
                r,
            ) {
                Some(slice_to_vec(&t, p, e))
            } else {
                None
            }
        },
    }
}

/// The functions and variables that `content` declares as translation keys.
pub struct TranslationTypeIndex {
    pub functions: Vec<Vec<char>>,
    pub variables: Vec<Vec<char>>,
}

/// Reads which functions and variables of `content` are translation keys.
pub fn extract_translation_type_index(content: &[char]) -> (res: TranslationTypeIndex)
    ensures
        res.functions.deep_view() == picked(lines(content@), |l: Seq<char>| line_key_function(l)),
        res.variables.deep_view() == picked(lines(content@), |l: Seq<char>| line_key_variable(l)),
{
    let ls = lines_of(content);
    let ghost lv = ls.deep_view();
    let ghost pf = |l: Seq<char>| line_key_function(l);
    let ghost pv = |l: Seq<char>| line_key_variable(l);
    let mut functions: Vec<Vec<char>> = Vec::new();
    let mut variables: Vec<Vec<char>> = Vec::new();
    let mut i: usize = 0;
    assert(lv.take(0) =~= Seq::<Seq<char>>::empty());
    assert(functions.deep_view() =~= Seq::<Seq<char>>::empty());
    assert(variables.deep_view() =~= Seq::<Seq<char>>::empty());
    while i < ls.len()
        invariant
            i <= ls@.len(),
            lv == ls.deep_view(),
            lv.len() == ls@.len(),
            pf == (|l: Seq<char>| line_key_function(l)),
            pv == (|l: Seq<char>| line_key_variable(l)),
            functions.deep_view() == picked(lv.take(i as int), pf),
            variables.deep_view() == picked(lv.take(i as int), pv),
        decreases ls@.len() - i,
    {
        assert(ls@[i as int]@ == lv[i as int]);
        assert(lv.take(i + 1).drop_last() =~= lv.take(i as int));
        assert(lv.take(i + 1).last() == lv[i as int]);
        match key_function_of_line(&ls[i]) {
            Some(n) => {
                let ghost before = functions.deep_view();
                assert(n.deep_view() =~= n@);
                functions.push(n);
                assert(functions.deep_view() =~= before.push(n@));
            },
            None => {},
        }
        match key_variable_of_line(&ls[i]) {
            Some(n) => {
                let ghost before = variables.deep_view();
                assert(n.deep_view() =~= n@);
                variables.push(n);
                assert(variables.deep_view() =~= before.push(n@));
            },
            None => {},
        }
        i = i + 1;
    }
    assert(lv.take(lv.len() as int) =~= lv);
    TranslationTypeIndex { functions, variables }
}

/// The key that a line of a locale file declares: a quoted string at its
/// start, followed by `:`.
pub open spec fn line_translation_key(line: Seq<char>) -> Option<Seq<char>> {
    let t = trim_start(line);
    if t.len() > 0 && (t[0] == '\'' || t[0] == '"') {
        match quoted_scan(t, 1, t[0], false) {
            Some((key, end)) => {
                let r = ws_end(t, end);
                if 0 <= r < t.len() && t[r] == ':' {
                    Some(key)
                } else {
                    None
                }
            },
            None => None,
        }
    } else {
        None
    }
}

/// The distinct keys of `ls`, in the order of their first line.
pub open spec fn translation_keys_of(ls: Seq<Seq<char>>) -> Seq<Seq<char>>
    decreases ls.len(),
{
    if ls.len() == 0 {
        Seq::empty()
    } else {
        let prev = translation_keys_of(ls.drop_last());
        match line_translation_key(ls.last()) {
            Some(k) => if prev.contains(k) {
                prev
            } else {
                prev.push(k)
            },
            None => prev,
        }
    }
}

fn translation_key_of_line(line: &[char]) -> (res: Option<Vec<char>>)
    ensures
        opt_chars(res) == line_translation_key(line@),
{
    let t = trimmed_line(line);
    if t.len() == 0 {
        return None;
    }
    let quote = t[0];
    if quote != '\'' && quote != '"' {
        return None;
    }
    proof {
        crate::project::parser_support::lemma_quoted_scan_end(t@, 1, quote, false);
    }
    match read_literal(&t, 1, quote) {
        Some((key, end)) => {
            let r = skip_ws(&t, end);
            if r < t.len() && t[r] == ':' {
                Some(key)
            } else {
                None
            }
        },
        None => None,
    }
}

/// The translation keys that a locale file declares, each once.
pub fn extract_translation_keys(content: &str) -> (res: Vec<String>)
    ensures
        res@.map_values(|k: String| k@) == translation_keys_of(lines(content@)),
{
    let chars = chars_of(content);
    let ls = lines_of(&chars);
    let ghost lv = ls.deep_view();
    let mut seen: Vec<Vec<char>> = Vec::new();
    let mut out: Vec<String> = Vec::new();
    let mut i: usize = 0;
    assert(lv.take(0) =~= Seq::<Seq<char>>::empty());
    assert(seen.deep_view() =~= Seq::<Seq<char>>::empty());
    while i < ls.len()
        invariant
            i <= ls@.len(),
            lv == ls.deep_view(),
            lv.len() == ls@.len(),
            seen.deep_view() == translation_keys_of(lv.take(i as int)),
            out@.map_values(|k: String| k@) == seen.deep_view(),
        decreases ls@.len() - i,
    {
        assert(ls@[i as int]@ == lv[i as int]);
        assert(lv.take(i + 1).drop_last() =~= lv.take(i as int));
        assert(lv.take(i + 1).last() == lv[i as int]);
        match translation_key_of_line(&ls[i]) {
            Some(k) => {
                if !holds_name(&seen, &k) {
                    let ghost before = seen.deep_view();
                    let ghost before_out = out@;
                    let text = crate::text::string_of(&k);
                    assert(k.deep_view() =~= k@);
                    seen.push(k);
                    out.push(text);
                    assert(seen.deep_view() =~= before.push(text@));
                    assert(out@.map_values(|k: String| k@) =~= before_out.map_values(
                        |k: String| k@,
                    ).push(text@));
                }
            },
            None => {},
        }
        i = i + 1;
    }
    assert(lv.take(lv.len() as int) =~= lv);
    out
}


/// Where the argument that starts at index `i` of `s` ends: the first `,`
/// or `)` outside string literals and outside any `()`, `[]` or `{}` opened
/// after the start. `q` is the quote of the string literal being read,
/// `esc` tells that a backslash came just before.
pub open spec fn arg_end_from(
    s: Seq<char>,
    i: int,
    q: Option<char>,
    esc: bool,
    p: nat,
    k: nat,
    b: nat,
) -> Option<int>
    decreases s.len() - i,
{
    if i < 0 || i >= s.len() {
        None
    } else {
        let c = s[i];
        match q {
            Some(qc) => if esc {
                arg_end_from(s, i + 1, q, false, p, k, b)
            } else if c == '\\' {
                arg_end_from(s, i + 1, q, true, p, k, b)
            } else if c == qc {
                arg_end_from(s, i + 1, None, false, p, k, b)
            } else {
                arg_end_from(s, i + 1, q, false, p, k, b)
            },
            None => if c == '\'' || c == '"' || c == '`' {
                arg_end_from(s, i + 1, Some(c), false, p, k, b)
            } else if c == '(' {
                arg_end_from(s, i + 1, None, false, p + 1, k, b)
            } else if c == ')' && p == 0 && k == 0 && b == 0 {
                Some(i)
            } else if c == ')' {
                arg_end_from(s, i + 1, None, false, crate::format_i18n::dec(p), k, b)
            } else if c == '[' {
                arg_end_from(s, i + 1, None, false, p, k + 1, b)
            } else if c == ']' {
                arg_end_from(s, i + 1, None, false, p, crate::format_i18n::dec(k), b)
            } else if c == '{' {
                arg_end_from(s, i + 1, None, false, p, k, b + 1)
            } else if c == '}' {
                arg_end_from(s, i + 1, None, false, p, k, crate::format_i18n::dec(b))
            } else if c == ',' && p == 0 && k == 0 && b == 0 {
                Some(i)
            } else {
                arg_end_from(s, i + 1, None, false, p, k, b)
            },
        }
    }
}

pub proof fn lemma_arg_end_bounds(
    s: Seq<char>,
    i: int,
    q: Option<char>,
    esc: bool,
    p: nat,
    k: nat,
    b: nat,
)
    requires
        0 <= i,
    ensures
        arg_end_from(s, i, q, esc, p, k, b) matches Some(e) ==> i <= e < s.len(),
    decreases s.len() - i,
{
    if i < s.len() {
        let c = s[i];
        match q {
            Some(qc) => if esc {
                lemma_arg_end_bounds(s, i + 1, q, false, p, k, b);
            } else if c == '\\' {
                lemma_arg_end_bounds(s, i + 1, q, true, p, k, b);
            } else if c == qc {
                lemma_arg_end_bounds(s, i + 1, None, false, p, k, b);
            } else {
                lemma_arg_end_bounds(s, i + 1, q, false, p, k, b);
            },
            None => if c == '\'' || c == '"' || c == '`' {
                lemma_arg_end_bounds(s, i + 1, Some(c), false, p, k, b);
            } else if c == '(' {
                lemma_arg_end_bounds(s, i + 1, None, false, p + 1, k, b);
            } else if c == ')' && p == 0 && k == 0 && b == 0 {
            } else if c == ')' {
                lemma_arg_end_bounds(s, i + 1, None, false, crate::format_i18n::dec(p), k, b);
            } else if c == '[' {
                lemma_arg_end_bounds(s, i + 1, None, false, p, k + 1, b);
            } else if c == ']' {
                lemma_arg_end_bounds(s, i + 1, None, false, p, crate::format_i18n::dec(k), b);
            } else if c == '{' {
                lemma_arg_end_bounds(s, i + 1, None, false, p, k, b + 1);
            } else if c == '}' {
                lemma_arg_end_bounds(s, i + 1, None, false, p, k, crate::format_i18n::dec(b));
            } else if c == ',' && p == 0 && k == 0 && b == 0 {
            } else {
                lemma_arg_end_bounds(s, i + 1, None, false, p, k, b);
            },
        }
    }
}

/// Finds where the argument that starts at index `start` ends.
fn argument_end(searchable: &[char], start: usize) -> (res: Option<usize>)
    ensures
        match res {
            Some(e) => arg_end_from(searchable@, start as int, None, false, 0, 0, 0) == Some(
                e as int,
            ),
            None => arg_end_from(searchable@, start as int, None, false, 0, 0, 0) is None,
        },
{
    let mut i = start;
    let mut q: Option<char> = None;
    let mut esc = false;
    let mut p: usize = 0;
    let mut k: usize = 0;
    let mut b: usize = 0;
    while i < searchable.len()
        invariant
            start <= i,
            p <= i,
            k <= i,
            b <= i,
            q is None ==> !esc,
            arg_end_from(searchable@, start as int, None, false, 0, 0, 0) == arg_end_from(
                searchable@,
                i as int,
                q,
                esc,
                p as nat,
                k as nat,
                b as nat,
            ),
        decreases searchable@.len() - i,
    {
        let c = searchable[i];
        match q {
            Some(qc) => {
                if esc {
                    esc = false;
                } else if c == '\\' {
                    esc = true;
                } else if c == qc {
                    q = None;
                }
            },
            None => {
                if c == '\'' || c == '"' || c == '`' {
                    q = Some(c);
                } else if c == '(' {
                    p = p + 1;
                } else if c == ')' && p == 0 && k == 0 && b == 0 {
                    return Some(i);
                } else if c == ')' {
                    p = if p == 0 {
                        0
                    } else {
                        p - 1
                    };
                } else if c == '[' {
                    k = k + 1;
                } else if c == ']' {
                    k = if k == 0 {
                        0
                    } else {
                        k - 1
                    };
                } else if c == '{' {
                    b = b + 1;
                } else if c == '}' {
                    b = if b == 0 {
                        0
                    } else {
                        b - 1
                    };
                } else if c == ',' && p == 0 && k == 0 && b == 0 {
                    return Some(i);
                }
            },
        }
        i = i + 1;
    }
    None
}

/// The argument that starts at index `start` is a translation key by its
/// type: it is cast to or checked against `TranslationKey`, or it is a
/// call of a function, or a variable, declared as one.
pub open spec fn is_key_expression(
    content: Seq<char>,
    searchable: Seq<char>,
    functions: Seq<Seq<char>>,
    variables: Seq<Seq<char>>,
    start: int,
) -> bool {
    match arg_end_from(searchable, start, None, false, 0, 0, 0) {
        None => false,
        Some(end) => {
            let e = crate::text::trim(content.subrange(start, end));
            if contains(e, " as TranslationKey"@) || contains(
                e,
                " as const satisfies TranslationKey"@,
            ) || contains(e, " satisfies TranslationKey"@) {
                true
            } else {
                match identifier_end(e, 0) {
                    None => false,
                    Some(ie) => {
                        let r = ws_end(e, ie);
                        if 0 <= r < e.len() && e[r] == '(' {
                            functions.contains(e.take(ie))
                        } else {
                            r == e.len() && variables.contains(e.take(ie))
                        }
                    },
                }
            }
        },
    }
}

fn is_translation_key_expression(
    content: &[char],
    searchable: &[char],
    types: &TranslationTypeIndex,
    start: usize,
) -> (res: bool)
    requires
        content@.len() == searchable@.len(),
    ensures
        res == is_key_expression(
            content@,
            searchable@,
            types.functions.deep_view(),
            types.variables.deep_view(),
            start as int,
        ),
{
    proof {
        lemma_arg_end_bounds(searchable@, start as int, None, false, 0, 0, 0);
    }
    let end = match argument_end(searchable, start) {
        None => {
            return false;
        },
        Some(end) => end,
    };
    let (a, b) = crate::text::trim_range(content, start, end);
    let e = slice_to_vec(content, a, b);
    if crate::text::contains_str(&e, " as TranslationKey") || crate::text::contains_str(
        &e,
        " as const satisfies TranslationKey",
    ) || crate::text::contains_str(&e, " satisfies TranslationKey") {
        return true;
    }
    let ie = match read_identifier(&e, 0) {
        None => {
            return false;
        },
        Some(ie) => ie,
    };
    let r = skip_ws(&e, ie);
    let name = slice_to_vec(&e, 0, ie);
    assert(name@ =~= e@.take(ie as int));
    if r < e.len() && e[r] == '(' {
        holds_name(&types.functions, &name)
    } else {
        r == e.len() && holds_name(&types.variables, &name)
    }
}


/// `s[cs..]` is not glued to an identifier or a `.` before it.
pub open spec fn call_boundary(s: Seq<char>, cs: int) -> bool {
    cs <= 0 || cs > s.len() || !(is_ident_part(s[cs - 1]) || s[cs - 1] == '.')
}

/// A key read from a call: the key and the index of its first character.
pub type KeyAt = (Seq<char>, int);

/// What the call whose argument starts at index `a` contributes: a literal
/// key, or the index of a key that is neither literal nor typed as a
/// translation key.
pub open spec fn call_at(
    content: Seq<char>,
    searchable: Seq<char>,
    functions: Seq<Seq<char>>,
    variables: Seq<Seq<char>>,
    a: int,
) -> (Seq<KeyAt>, Seq<int>) {
    let q = content[a];
    let typed = is_key_expression(content, searchable, functions, variables, a);
    if q == '\'' || q == '"' || q == '`' {
        match quoted_scan(content, a + 1, q, false) {
            Some((key, _)) => if q == '`' && contains(key, seq!['$', '{']) {
                if typed {
                    (Seq::empty(), Seq::empty())
                } else {
                    (Seq::empty(), seq![a])
                }
            } else {
                (seq![(key, a + 1)], Seq::empty())
            },
            None => (Seq::empty(), Seq::empty()),
        }
    } else if typed {
        (Seq::empty(), Seq::empty())
    } else {
        (Seq::empty(), seq![a])
    }
}

/// The calls of `marker` found in `searchable` from index `from` on: the
/// literal keys and the indices of the keys that are not literal.
pub open spec fn marker_calls(
    content: Seq<char>,
    searchable: Seq<char>,
    functions: Seq<Seq<char>>,
    variables: Seq<Seq<char>>,
    marker: Seq<char>,
    from: int,
) -> (Seq<KeyAt>, Seq<int>)
    decreases searchable.len() + 1 - from,
{
    if from < 0 || marker.len() == 0 {
        (Seq::empty(), Seq::empty())
    } else {
        match find_from(searchable, marker, from) {
            None => (Seq::empty(), Seq::empty()),
            Some(cs) => {
                proof {
                    crate::text::lemma_find_from_bounds(searchable, marker, from);
                }
                let next = cs + marker.len();
                if !call_boundary(searchable, cs) {
                    marker_calls(content, searchable, functions, variables, marker, next)
                } else {
                    let a = ws_end(searchable, next);
                    if a >= content.len() {
                        (Seq::empty(), Seq::empty())
                    } else {
                        let here = call_at(content, searchable, functions, variables, a);
                        let rest = marker_calls(
                            content,
                            searchable,
                            functions,
                            variables,
                            marker,
                            next,
                        );
                        (here.0 + rest.0, here.1 + rest.1)
                    }
                }
            },
        }
    }
}

/// A key found in a `this.t(...)` call or a call of an alias, and where it
/// starts (an index of characters).
pub struct TranslationCall {
    pub key: String,
    pub offset: usize,
}

/// The keys of a source file: literal keys, and where keys that are neither
/// literal nor typed as translation keys start.
pub struct TranslationCalls {
    pub static_calls: Vec<TranslationCall>,
    pub dynamic_offsets: Vec<usize>,
}

pub open spec fn calls_view(v: Seq<TranslationCall>) -> Seq<KeyAt> {
    v.map_values(|c: TranslationCall| (c.key@, c.offset as int))
}

pub open spec fn offsets_view(v: Seq<usize>) -> Seq<int> {
    v.map_values(|o: usize| o as int)
}

/// Collects the calls of `marker`.
fn collect_calls_for_marker(
    content: &[char],
    searchable: &[char],
    types: &TranslationTypeIndex,
    marker: &[char],
    calls: &mut TranslationCalls,
)
    requires
        content@.len() == searchable@.len(),
    ensures
        calls_view(final(calls).static_calls@) == calls_view(old(calls).static_calls@)
            + marker_calls(
            content@,
            searchable@,
            types.functions.deep_view(),
            types.variables.deep_view(),
            marker@,
            0,
        ).0,
        offsets_view(final(calls).dynamic_offsets@) == offsets_view(old(calls).dynamic_offsets@)
            + marker_calls(
            content@,
            searchable@,
            types.functions.deep_view(),
            types.variables.deep_view(),
            marker@,
            0,
        ).1,
{
    let ghost f = types.functions.deep_view();
    let ghost v = types.variables.deep_view();
    let ghost total = marker_calls(content@, searchable@, f, v, marker@, 0);
    let ghost s0 = calls_view(calls.static_calls@);
    let ghost d0 = offsets_view(calls.dynamic_offsets@);
    if marker.len() == 0 {
        assert(calls_view(calls.static_calls@) =~= s0 + total.0);
        assert(offsets_view(calls.dynamic_offsets@) =~= d0 + total.1);
        return;
    }
    let n = searchable.len();
    let mut search_start: usize = 0;
    assert(s0 + total.0 =~= calls_view(calls.static_calls@) + total.0);
    assert(d0 + total.1 =~= offsets_view(calls.dynamic_offsets@) + total.1);
    loop
        invariant
            search_start <= n,
            n == searchable@.len(),
            n == content@.len(),
            marker@.len() > 0,
            f == types.functions.deep_view(),
            v == types.variables.deep_view(),
            total == marker_calls(content@, searchable@, f, v, marker@, 0),
            s0 == calls_view(old(calls).static_calls@),
            d0 == offsets_view(old(calls).dynamic_offsets@),
            s0 + total.0 == calls_view(calls.static_calls@) + marker_calls(
                content@,
                searchable@,
                f,
                v,
                marker@,
                search_start as int,
            ).0,
            d0 + total.1 == offsets_view(calls.dynamic_offsets@) + marker_calls(
                content@,
                searchable@,
                f,
                v,
                marker@,
                search_start as int,
            ).1,
        decreases n + 1 - search_start,
    {
        proof {
            crate::text::lemma_find_from_bounds(searchable@, marker@, search_start as int);
        }
        let cs = match find_from_exec(searchable, marker, search_start) {
            None => {
                assert(marker_calls(content@, searchable@, f, v, marker@, search_start as int).0
                    =~= Seq::<KeyAt>::empty());
                assert(calls_view(calls.static_calls@) + Seq::<KeyAt>::empty() =~= calls_view(
                    calls.static_calls@,
                ));
                assert(calls_view(calls.static_calls@) == s0 + total.0);
                assert(offsets_view(calls.dynamic_offsets@) + Seq::<int>::empty() =~= offsets_view(
                    calls.dynamic_offsets@,
                ));
                return;
            },
            Some(cs) => cs,
        };
        let next = cs + marker.len();
        let boundary = cs == 0 || {
            let prev = searchable[cs - 1];
            !(('a' <= prev && prev <= 'z') || ('A' <= prev && prev <= 'Z') || ('0' <= prev && prev
                <= '9') || prev == '_' || prev == '$' || prev == '.')
        };
        if !boundary {
            search_start = next;
            continue;
        }
        let a = skip_ws(searchable, next);
        if a >= content.len() {
            assert(marker_calls(content@, searchable@, f, v, marker@, search_start as int).0
                =~= Seq::<KeyAt>::empty());
            assert(calls_view(calls.static_calls@) + Seq::<KeyAt>::empty() =~= calls_view(
                calls.static_calls@,
            ));
            assert(calls_view(calls.static_calls@) == s0 + total.0);
            assert(offsets_view(calls.dynamic_offsets@) + Seq::<int>::empty() =~= offsets_view(
                calls.dynamic_offsets@,
            ));
            return;
        }
        let ghost here = call_at(content@, searchable@, f, v, a as int);
        let ghost before_s = calls_view(calls.static_calls@);
        let ghost before_d = offsets_view(calls.dynamic_offsets@);
        let q = content[a];
        if q == '\'' || q == '"' || q == '`' {
            proof {
                crate::project::parser_support::lemma_quoted_scan_end(content@, a + 1, q, false);
            }
            match read_literal(content, a + 1, q) {
                Some((key, _end)) => {
                    if q == '`' && crate::text::contains_exec(&key, &['$', '{']) {
                        assert(['$', '{']@ =~= seq!['$', '{']);
                        if !is_translation_key_expression(content, searchable, types, a) {
                            calls.dynamic_offsets.push(a);
                        }
                    } else {
                        assert(['$', '{']@ =~= seq!['$', '{']);
                        let text = crate::text::string_of(&key);
                        calls.static_calls.push(TranslationCall { key: text, offset: a + 1 });
                    }
                },
                None => {},
            }
        } else if !is_translation_key_expression(content, searchable, types, a) {
            calls.dynamic_offsets.push(a);
        }
        proof {
            assert(calls_view(calls.static_calls@) =~= before_s + here.0);
            assert(offsets_view(calls.dynamic_offsets@) =~= before_d + here.1);
        }
        search_start = next;
    }
}


/// `sorted` with `x` put after every call that does not start after it.
pub open spec fn insert_call(sorted: Seq<KeyAt>, x: KeyAt) -> Seq<KeyAt>
    decreases sorted.len(),
{
    if sorted.len() == 0 {
        seq![x]
    } else if x.1 < sorted.last().1 {
        insert_call(sorted.drop_last(), x).push(sorted.last())
    } else {
        sorted.push(x)
    }
}

/// `s` stably sorted by where each key starts.
pub open spec fn sort_calls(s: Seq<KeyAt>) -> Seq<KeyAt>
    decreases s.len(),
{
    if s.len() == 0 {
        Seq::empty()
    } else {
        insert_call(sort_calls(s.drop_last()), s.last())
    }
}

/// `sorted` with `x` put in order, unless it holds `x` already.
pub open spec fn insert_offset(sorted: Seq<int>, x: int) -> Seq<int>
    decreases sorted.len(),
{
    if sorted.len() == 0 {
        seq![x]
    } else if x < sorted.last() {
        insert_offset(sorted.drop_last(), x).push(sorted.last())
    } else if x == sorted.last() {
        sorted
    } else {
        sorted.push(x)
    }
}

/// The distinct values of `s`, in increasing order.
pub open spec fn sort_unique(s: Seq<int>) -> Seq<int>
    decreases s.len(),
{
    if s.len() == 0 {
        Seq::empty()
    } else {
        insert_offset(sort_unique(s.drop_last()), s.last())
    }
}

pub proof fn lemma_insert_call_at(sorted: Seq<KeyAt>, x: KeyAt, j: int)
    requires
        0 <= j <= sorted.len(),
        j == 0 || sorted[j - 1].1 <= x.1,
        forall|m: int| j <= m < sorted.len() ==> x.1 < #[trigger] sorted[m].1,
    ensures
        insert_call(sorted, x) == sorted.insert(j, x),
    decreases sorted.len(),
{
    if sorted.len() == j {
        assert(sorted.insert(j, x) =~= sorted.push(x));
    } else {
        let d = sorted.drop_last();
        assert(x.1 < sorted[sorted.len() - 1].1);
        assert forall|m: int| j <= m < d.len() implies x.1 < #[trigger] d[m].1 by {
            assert(d[m] == sorted[m]);
        }
        if j > 0 {
            assert(d[j - 1] == sorted[j - 1]);
        }
        lemma_insert_call_at(d, x, j);
        assert(d.insert(j, x).push(sorted.last()) =~= sorted.insert(j, x));
    }
}

pub proof fn lemma_insert_offset_at(sorted: Seq<int>, x: int, j: int)
    requires
        0 <= j <= sorted.len(),
        j == 0 || sorted[j - 1] <= x,
        forall|m: int| j <= m < sorted.len() ==> x < #[trigger] sorted[m],
    ensures
        insert_offset(sorted, x) == if j > 0 && sorted[j - 1] == x {
            sorted
        } else {
            sorted.insert(j, x)
        },
    decreases sorted.len(),
{
    if sorted.len() == j {
        assert(sorted.insert(j, x) =~= sorted.push(x));
    } else {
        let d = sorted.drop_last();
        assert(x < sorted[sorted.len() - 1]);
        assert forall|m: int| j <= m < d.len() implies x < #[trigger] d[m] by {
            assert(d[m] == sorted[m]);
        }
        if j > 0 {
            assert(d[j - 1] == sorted[j - 1]);
        }
        lemma_insert_offset_at(d, x, j);
        assert(d.insert(j, x).push(sorted.last()) =~= sorted.insert(j, x));
        assert(d.push(sorted.last()) =~= sorted);
    }
}

fn insert_call_sorted(v: &mut Vec<TranslationCall>, x: TranslationCall)
    ensures
        calls_view(final(v)@) == insert_call(calls_view(old(v)@), (x.key@, x.offset as int)),
{
    let ghost cv = calls_view(v@);
    let mut j = v.len();
    while j > 0 && x.offset < v[j - 1].offset
        invariant
            j <= v@.len(),
            cv == calls_view(v@),
            forall|m: int| j <= m < v@.len() ==> x.offset < #[trigger] v@[m].offset,
        decreases j,
    {
        j = j - 1;
    }
    proof {
        assert forall|m: int| j <= m < cv.len() implies x.offset < #[trigger] cv[m].1 by {
            assert(cv[m].1 == v@[m].offset);
        }
        if j > 0 {
            assert(cv[j - 1].1 == v@[j - 1].offset);
        }
        lemma_insert_call_at(cv, (x.key@, x.offset as int), j as int);
    }
    let ghost xv = (x.key@, x.offset as int);
    v.insert(j, x);
    assert(calls_view(v@) =~= cv.insert(j as int, xv));
}

fn insert_offset_sorted(v: &mut Vec<usize>, x: usize)
    ensures
        offsets_view(final(v)@) == insert_offset(offsets_view(old(v)@), x as int),
{
    let ghost ov = offsets_view(v@);
    let mut j = v.len();
    while j > 0 && x < v[j - 1]
        invariant
            j <= v@.len(),
            ov == offsets_view(v@),
            forall|m: int| j <= m < v@.len() ==> x < #[trigger] v@[m],
        decreases j,
    {
        j = j - 1;
    }
    proof {
        assert forall|m: int| j <= m < ov.len() implies x < #[trigger] ov[m] by {
            assert(ov[m] == v@[m]);
        }
        if j > 0 {
            assert(ov[j - 1] == v@[j - 1]);
        }
        lemma_insert_offset_at(ov, x as int, j as int);
    }
    if j > 0 && v[j - 1] == x {
        return;
    }
    v.insert(j, x);
    assert(offsets_view(v@) =~= ov.insert(j as int, x as int));
}

/// The markers of the calls to look for: `this.t(` and each alias followed
/// by `(`.
pub open spec fn all_markers(aliases: Seq<Seq<char>>) -> Seq<Seq<char>> {
    seq!["this.t("@] + aliases.map_values(|a: Seq<char>| a + seq!['('])
}

/// The calls of all `markers`, marker after marker.
pub open spec fn collected(
    content: Seq<char>,
    searchable: Seq<char>,
    functions: Seq<Seq<char>>,
    variables: Seq<Seq<char>>,
    markers: Seq<Seq<char>>,
) -> (Seq<KeyAt>, Seq<int>)
    decreases markers.len(),
{
    if markers.len() == 0 {
        (Seq::empty(), Seq::empty())
    } else {
        let prev = collected(content, searchable, functions, variables, markers.drop_last());
        let m = marker_calls(content, searchable, functions, variables, markers.last(), 0);
        (prev.0 + m.0, prev.1 + m.1)
    }
}

/// The translation calls of a source: `content` with its comments masked
/// is searched for `this.t(` and the aliases it declares; literal keys come
/// in the order they appear, and the places of keys that are neither
/// literal nor typed as translation keys come each once, in order.
pub open spec fn translation_calls_of(content: Seq<char>) -> (Seq<KeyAt>, Seq<int>) {
    let searchable = mask(content, MaskStyle::CommentsOnlyCharWidth);
    let ls = lines(searchable);
    let found = collected(
        content,
        searchable,
        picked(ls, |l: Seq<char>| line_key_function(l)),
        picked(ls, |l: Seq<char>| line_key_variable(l)),
        all_markers(aliases_of(ls)),
    );
    (sort_calls(found.0), sort_unique(found.1))
}

/// Reads the translation calls of a source file.
pub fn extract_translation_calls(content: &str) -> (res: TranslationCalls)
    ensures
        calls_view(res.static_calls@) == translation_calls_of(content@).0,
        offsets_view(res.dynamic_offsets@) == translation_calls_of(content@).1,
{
    let chars = chars_of(content);
    let searchable = mask_source(&chars, MaskStyle::CommentsOnlyCharWidth);
    proof {
        lemma_mask_from_len(chars@, 0, crate::lexer::Lex::Code, MaskStyle::CommentsOnlyCharWidth);
    }
    let types = extract_translation_type_index(&searchable);
    let aliases = extract_translator_aliases(&searchable);
    let ghost f = types.functions.deep_view();
    let ghost v = types.variables.deep_view();
    let ghost markers = all_markers(aliases.deep_view());
    let mut calls = TranslationCalls { static_calls: Vec::new(), dynamic_offsets: Vec::new() };
    let first = chars_of("this.t(");
    assert(calls_view(calls.static_calls@) =~= Seq::<KeyAt>::empty());
    assert(offsets_view(calls.dynamic_offsets@) =~= Seq::<int>::empty());
    collect_calls_for_marker(&chars, &searchable, &types, &first, &mut calls);
    proof {
        assert(markers.take(1).drop_last() =~= Seq::<Seq<char>>::empty());
        assert(markers.take(1).last() == first@);
        let m0 = marker_calls(chars@, searchable@, f, v, first@, 0);
        let e = collected(chars@, searchable@, f, v, Seq::<Seq<char>>::empty());
        assert(e == (Seq::<KeyAt>::empty(), Seq::<int>::empty()));
        assert(collected(chars@, searchable@, f, v, markers.take(1)) == (e.0 + m0.0, e.1 + m0.1));
        assert(e.0 + m0.0 =~= m0.0);
        assert(e.1 + m0.1 =~= m0.1);
        assert(calls_view(calls.static_calls@) =~= collected(chars@, searchable@, f, v, markers.take(1)).0);
        assert(offsets_view(calls.dynamic_offsets@) =~= collected(chars@, searchable@, f, v, markers.take(1)).1);
    }
    let mut i: usize = 0;
    while i < aliases.len()
        invariant
            i <= aliases@.len(),
            chars@.len() == searchable@.len(),
            f == types.functions.deep_view(),
            v == types.variables.deep_view(),
            markers == all_markers(aliases.deep_view()),
            markers.len() == aliases@.len() + 1,
            calls_view(calls.static_calls@) == collected(chars@, searchable@, f, v, markers.take(i + 1)).0,
            offsets_view(calls.dynamic_offsets@) == collected(chars@, searchable@, f, v, markers.take(i + 1)).1,
        decreases aliases@.len() - i,
    {
        let mut marker: Vec<char> = Vec::new();
        crate::text::push_all(&mut marker, &aliases[i]);
        marker.push('(');
        proof {
            assert(aliases@[i as int]@ == aliases.deep_view()[i as int]);
            assert(marker@ =~= aliases.deep_view()[i as int] + seq!['(']);
            assert(markers.take(i + 2).drop_last() =~= markers.take(i + 1));
            assert(markers.take(i + 2).last() == markers[i + 1]);
            assert(markers[i + 1] == marker@);
        }
        collect_calls_for_marker(&chars, &searchable, &types, &marker, &mut calls);
        i = i + 1;
    }
    assert(markers.take(markers.len() as int) =~= markers);
    let ghost found = collected(chars@, searchable@, f, v, markers);
    let mut sorted: Vec<TranslationCall> = Vec::new();
    let mut rest = calls.static_calls;
    let ghost all = calls_view(rest@);
    let n = rest.len();
    let mut k: usize = 0;
    assert(calls_view(sorted@) =~= sort_calls(all.take(0)));
    assert(calls_view(rest@) =~= all.skip(0));
    while k < n
        invariant
            k <= n,
            n == all.len(),
            rest@.len() == n - k,
            calls_view(rest@) == all.skip(k as int),
            calls_view(sorted@) == sort_calls(all.take(k as int)),
        decreases n - k,
    {
        let ghost before = rest@;
        let x = rest.remove(0);
        proof {
            assert(calls_view(before)[0] == (x.key@, x.offset as int));
            assert(all.skip(k as int)[0] == all[k as int]);
            assert forall|m: int| 0 <= m < rest@.len() implies #[trigger] calls_view(rest@)[m]
                == all.skip(k + 1)[m] by {
                assert(rest@[m] == before[m + 1]);
                assert(calls_view(before)[m + 1] == all.skip(k as int)[m + 1]);
            }
            assert(calls_view(rest@) =~= all.skip(k + 1));
            assert(all.take(k + 1).drop_last() =~= all.take(k as int));
            assert(all.take(k + 1).last() == all[k as int]);
        }
        insert_call_sorted(&mut sorted, x);
        k = k + 1;
    }
    assert(all.take(n as int) =~= all);
    let mut offsets: Vec<usize> = Vec::new();
    let ghost dall = offsets_view(calls.dynamic_offsets@);
    let mut j: usize = 0;
    assert(offsets_view(offsets@) =~= sort_unique(dall.take(0)));
    while j < calls.dynamic_offsets.len()
        invariant
            j <= calls.dynamic_offsets@.len(),
            dall == offsets_view(calls.dynamic_offsets@),
            offsets_view(offsets@) == sort_unique(dall.take(j as int)),
        decreases calls.dynamic_offsets@.len() - j,
    {
        proof {
            assert(dall.take(j + 1).drop_last() =~= dall.take(j as int));
            assert(dall.take(j + 1).last() == dall[j as int]);
        }
        insert_offset_sorted(&mut offsets, calls.dynamic_offsets[j]);
        j = j + 1;
    }
    assert(dall.take(dall.len() as int) =~= dall);
    TranslationCalls { static_calls: sorted, dynamic_offsets: offsets }
}

} // verus!
