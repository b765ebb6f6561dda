//! Helpers shared by the commands: root checks, comment masks, line and
//! column positions and `.env` files.
use vstd::prelude::*;

use crate::diagnostic::{
    diags_view, hinted, plain_diagnostic, Diagnostic, DiagnosticCode, DiagnosticLevel,
    DiagnosticView,
};
use crate::lang::{text, translation, Lang};
use crate::lexer::{mask, mask_source, MaskStyle};
use crate::text::{
    chars_of, find_char_exec, find_char_from, lemma_find_char_from_bounds, lines, lines_of,
    push_all, skip_ws, starts_with, starts_with_exec, string_of, string_of_range, trim,
    trim_range, trim_start, utf8_len,
};

verus! {

/// The diagnostic for a missing project root.
pub open spec fn root_missing_diagnostic(locale: Lang) -> DiagnosticView {
    hinted(
        plain_diagnostic(
            DiagnosticLevel::Error,
            "patto_project_root_missing"@,
            translation(locale, "patto_project_root_missing"@),
        ),
        translation(locale, "patto_project_root_missing.hint"@),
    )
}

/// The diagnostic for a project root that is not a directory.
pub open spec fn root_not_directory_diagnostic(locale: Lang) -> DiagnosticView {
    hinted(
        plain_diagnostic(
            DiagnosticLevel::Error,
            "patto_root_not_directory"@,
            translation(locale, "patto_root_not_directory"@),
        ),
        translation(locale, "patto_root_not_directory.hint"@),
    )
}

/// Some diagnostic of `ds` is an error.
pub open spec fn has_error(ds: Seq<DiagnosticView>) -> bool {
    exists|i: int| 0 <= i < ds.len() && ds[i].level == DiagnosticLevel::Error
}

/// Whether some diagnostic of `ds` is an error.
pub fn any_error(ds: &Vec<Diagnostic>) -> (res: bool)
    ensures
        res == has_error(diags_view(ds@)),
{
    let mut i: usize = 0;
    while i < ds.len()
        invariant
            i <= ds@.len(),
            forall|j: int| 0 <= j < i ==> ds@[j].level != DiagnosticLevel::Error,
        decreases ds@.len() - i,
    {
        if ds[i].is_error() {
            assert(diags_view(ds@)[i as int].level == DiagnosticLevel::Error);
            return true;
        }
        i = i + 1;
    }
    proof {
        if has_error(diags_view(ds@)) {
            let k = choose|k: int|
                0 <= k < diags_view(ds@).len() && diags_view(ds@)[k].level
                    == DiagnosticLevel::Error;
            assert(ds@[k].level == DiagnosticLevel::Error);
        }
    }
    false
}

/// Checks the project root: a missing root, or one that is not a directory,
/// gets a diagnostic. Tells whether the command must stop: the root is
/// missing, or `diagnostics` now holds an error.
pub fn root_not_exists(
    diagnostics: &mut Vec<Diagnostic>,
    root_exists: bool,
    root_is_dir: bool,
    locale: Lang,
) -> (res: bool)
    ensures
        !root_exists ==> diags_view(final(diagnostics)@) == diags_view(old(diagnostics)@).push(
            root_missing_diagnostic(locale),
        ) && res,
        root_exists && !root_is_dir ==> diags_view(final(diagnostics)@) == diags_view(
            old(diagnostics)@,
        ).push(root_not_directory_diagnostic(locale)) && res,
        root_exists && root_is_dir ==> diags_view(final(diagnostics)@) == diags_view(
            old(diagnostics)@,
        ) && res == has_error(diags_view(old(diagnostics)@)),
{
    if !root_exists {
        let d = Diagnostic::new(
            DiagnosticLevel::Error,
            DiagnosticCode::PATTO_PROJECT_ROOT_MISSING,
            text(locale, DiagnosticCode::PATTO_PROJECT_ROOT_MISSING),
        ).with_hint(text(locale, "patto_project_root_missing.hint"));
        let ghost before = diagnostics@;
        diagnostics.push(d);
        assert(diags_view(diagnostics@) =~= diags_view(before).push(d@));
        return true;
    }
    if !root_is_dir {
        let d = Diagnostic::new(
            DiagnosticLevel::Error,
            DiagnosticCode::PATTO_ROOT_NOT_DIRECTORY,
            text(locale, DiagnosticCode::PATTO_ROOT_NOT_DIRECTORY),
        ).with_hint(text(locale, "patto_root_not_directory.hint"));
        let ghost before = diagnostics@;
        diagnostics.push(d);
        assert(diags_view(diagnostics@) =~= diags_view(before).push(d@));
        assert(diags_view(diagnostics@)[diags_view(diagnostics@).len() - 1].level
            == DiagnosticLevel::Error);
    }
    any_error(diagnostics)
}

/// `content` with its comments and string literals replaced by spaces (one
/// per byte) and its line breaks kept, so that byte offsets stay put.
pub fn mask_typescript_non_code(content: &str) -> (res: String)
    ensures
        res@ == mask(content@, MaskStyle::ByteWidth),
{
    let chars = chars_of(content);
    let masked = mask_source(&chars, MaskStyle::ByteWidth);
    string_of(&masked)
}

/// A line that is a `//` comment.
pub open spec fn is_comment_line(line: Seq<char>) -> bool {
    starts_with(trim_start(line), seq!['/', '/'])
}

/// The lines of `ls` that are not `//` comments, in order.
pub open spec fn code_lines(ls: Seq<Seq<char>>) -> Seq<Seq<char>>
    decreases ls.len(),
{
    if ls.len() == 0 {
        Seq::empty()
    } else if is_comment_line(ls.last()) {
        code_lines(ls.drop_last())
    } else {
        code_lines(ls.drop_last()).push(ls.last())
    }
}

/// The lines of `ls` joined by `sep`.
pub open spec fn join(ls: Seq<Seq<char>>, sep: Seq<char>) -> Seq<char>
    decreases ls.len(),
{
    if ls.len() == 0 {
        Seq::empty()
    } else if ls.len() == 1 {
        ls[0]
    } else {
        join(ls.drop_last(), sep) + sep + ls.last()
    }
}

/// `content` without its `//` comment lines, the other lines joined by `\n`.
pub fn strip_line_comments(content: &str) -> (res: String)
    ensures
        res@ == join(code_lines(lines(content@)), seq!['\n']),
{
    let chars = chars_of(content);
    let ls = lines_of(&chars);
    let mut out: Vec<char> = Vec::new();
    let mut kept: usize = 0;
    let ghost mut kept_lines: Seq<Seq<char>> = Seq::empty();
    let mut i: usize = 0;
    while i < ls.len()
        invariant
            i <= ls@.len(),
            ls.deep_view() == lines(content@),
            kept_lines == code_lines(ls.deep_view().take(i as int)),
            kept == kept_lines.len(),
            kept <= i,
            out@ == join(kept_lines, seq!['\n']),
        decreases ls@.len() - i,
    {
        let line = &ls[i];
        let start = skip_ws(line, 0);
        let ghost lv = ls.deep_view()[i as int];
        assert(ls[i as int].deep_view() =~= ls[i as int]@);
        assert(line@ == lv);
        assert(line@.skip(0) =~= line@);
        let comment = start < line.len() && line.len() - start > 1 && line[start] == '/' && line[start + 1] == '/';
        proof {
            let t = line@.skip(start as int);
            if comment {
                assert(t.subrange(0, 2) =~= seq!['/', '/']);
            } else if t.len() >= 2 {
                assert(t[0] == line@[start as int]);
                assert(t[1] == line@[start + 1]);
                assert(t.subrange(0, 2)[0] == t[0]);
                assert(t.subrange(0, 2)[1] == t[1]);
            }
            assert(comment == is_comment_line(lv));
            assert(ls.deep_view().take(i + 1).drop_last() =~= ls.deep_view().take(i as int));
            assert(ls.deep_view().take(i + 1).last() == lv);
        }
        if !comment {
            let ghost before = out@;
            if kept > 0 {
                out.push('\n');
            }
            push_all(&mut out, line);
            proof {
                let nk = kept_lines.push(lv);
                assert(nk.drop_last() =~= kept_lines);
                if kept > 0 {
                    assert(out@ =~= join(kept_lines, seq!['\n']) + seq!['\n'] + lv);
                } else {
                    assert(kept_lines.len() == 0);
                    assert(out@ =~= lv);
                }
                kept_lines = nk;
            }
            kept = kept + 1;
        }
        i = i + 1;
    }
    assert(ls.deep_view().take(ls@.len() as int) =~= ls.deep_view());
    string_of(&out)
}

/// The line and column of the character that starts at or after byte
/// `offset`, walking `s` from index `i` (at byte `byte`) with the position
/// `(line, column)` reached so far; the end position when there is none.
pub open spec fn line_column_from(
    s: Seq<char>,
    i: int,
    byte: int,
    offset: int,
    line: int,
    column: int,
) -> (int, int)
    decreases s.len() - i,
{
    if i < 0 || i >= s.len() || byte >= offset {
        (line, column)
    } else if s[i] == '\n' {
        line_column_from(s, i + 1, byte + utf8_len(s[i]), offset, line + 1, 1)
    } else {
        line_column_from(s, i + 1, byte + utf8_len(s[i]), offset, line, column + 1)
    }
}

/// The 1-based line and column of byte offset `offset` of `s`.
pub open spec fn line_column(s: Seq<char>, offset: int) -> (int, int) {
    line_column_from(s, 0, 0, offset, 1, 1)
}

/// The 1-based line and column in `content` of byte offset `offset`.
pub fn offset_to_line_column(content: &str, offset: usize) -> (res: (u32, u32))
    requires
        content@.len() < u32::MAX,
    ensures
        res.0 as int == line_column(content@, offset as int).0,
        res.1 as int == line_column(content@, offset as int).1,
{
    let chars = chars_of(content);
    char_offset_line_column(&chars, offset as u64)
}

/// The 1-based line and column in `chars` of byte offset `offset`.
pub fn char_offset_line_column(chars: &[char], offset: u64) -> (res: (u32, u32))
    requires
        chars@.len() < u32::MAX,
    ensures
        res.0 as int == line_column(chars@, offset as int).0,
        res.1 as int == line_column(chars@, offset as int).1,
{
    let mut line: u32 = 1;
    let mut column: u32 = 1;
    let mut byte: u64 = 0;
    let mut i: usize = 0;
    while i < chars.len()
        invariant
            i <= chars@.len() < u32::MAX,
            line >= 1,
            column >= 1,
            line + column <= i + 2,
            byte <= 4 * i,
            line_column(chars@, offset as int) == line_column_from(
                chars@,
                i as int,
                byte as int,
                offset as int,
                line as int,
                column as int,
            ),
        decreases chars@.len() - i,
    {
        if byte >= offset {
            return (line, column);
        }
        let c = chars[i];
        let w = crate::text::char_utf8_len(c);
        if c == '\n' {
            line = line + 1;
            column = 1;
        } else {
            column = column + 1;
        }
        byte = byte + w as u64;
        i = i + 1;
    }
    (line, column)
}

/// The `key=value` entry of one `.env` line: the line trimmed, blank lines
/// and `#` comments skipped, split at its first `=`, both sides trimmed.
pub open spec fn env_entry(line: Seq<char>) -> Option<(Seq<char>, Seq<char>)> {
    let t = trim(line);
    if t.len() == 0 || t[0] == '#' {
        None
    } else {
        match find_char_from(t, '=', 0) {
            Some(k) => Some((trim(t.take(k)), trim(t.skip(k + 1)))),
            None => None,
        }
    }
}

/// The entries of the `.env` lines `ls`, in order.
pub open spec fn env_entries(ls: Seq<Seq<char>>) -> Seq<(Seq<char>, Seq<char>)>
    decreases ls.len(),
{
    if ls.len() == 0 {
        Seq::empty()
    } else {
        match env_entry(ls.last()) {
            Some(e) => env_entries(ls.drop_last()).push(e),
            None => env_entries(ls.drop_last()),
        }
    }
}

/// The value of `key` in `entries`: the last entry for it wins.
pub open spec fn env_value(entries: Seq<(Seq<char>, Seq<char>)>, key: Seq<char>) -> Option<
    Seq<char>,
>
    decreases entries.len(),
{
    if entries.len() == 0 {
        None
    } else if entries.last().0 == key {
        Some(entries.last().1)
    } else {
        env_value(entries.drop_last(), key)
    }
}

/// The values of a `.env` file.
pub struct EnvFile {
    pub entries: Vec<(String, String)>,
}

impl View for EnvFile {
    type V = Seq<(Seq<char>, Seq<char>)>;

    open spec fn view(&self) -> Seq<(Seq<char>, Seq<char>)> {
        self.entries@.map_values(|e: (String, String)| (e.0@, e.1@))
    }
}

impl EnvFile {
    /// A file without values.
    pub fn empty() -> (res: EnvFile)
        ensures
            res@ == Seq::<(Seq<char>, Seq<char>)>::empty(),
    {
        let res = EnvFile { entries: Vec::new() };
        assert(res@ =~= Seq::<(Seq<char>, Seq<char>)>::empty());
        res
    }

    /// The values of the `.env` file `content`.
    pub fn parse(content: &str) -> (res: EnvFile)
        ensures
            res@ == env_entries(lines(content@)),
    {
        let chars = chars_of(content);
        let ls = lines_of(&chars);
        let mut entries: Vec<(String, String)> = Vec::new();
        let mut i: usize = 0;
        while i < ls.len()
            invariant
                i <= ls@.len(),
                ls.deep_view() == lines(content@),
                entries@.map_values(|e: (String, String)| (e.0@, e.1@)) == env_entries(
                    ls.deep_view().take(i as int),
                ),
            decreases ls@.len() - i,
        {
            let line = &ls[i];
            let ghost lv = ls.deep_view()[i as int];
            assert(ls[i as int].deep_view() =~= ls[i as int]@);
            assert(line@ == lv);
            proof {
                assert(ls.deep_view().take(i + 1).drop_last() =~= ls.deep_view().take(i as int));
                assert(ls.deep_view().take(i + 1).last() == lv);
            }
            let ghost before = entries@;
            match env_line_entry(line) {
                Some((k, v)) => {
                    entries.push((k, v));
                    assert(entries@.map_values(|e: (String, String)| (e.0@, e.1@)) =~= before.map_values(
                        |e: (String, String)| (e.0@, e.1@),
                    ).push((k@, v@)));
                },
                None => {},
            }
            i = i + 1;
        }
        assert(ls.deep_view().take(ls@.len() as int) =~= ls.deep_view());
        EnvFile { entries }
    }

    /// The value of `key`; the last entry for it wins.
    pub fn get(&self, key: &str) -> (res: Option<&String>)
        ensures
            match res {
                Some(v) => env_value(self@, key@) == Some(v@),
                None => env_value(self@, key@) is None,
            },
    {
        let mut i = self.entries.len();
        assert(self@.take(i as int) =~= self@);
        while i > 0
            invariant
                i <= self.entries@.len(),
                env_value(self@, key@) == env_value(self@.take(i as int), key@),
            decreases i,
        {
            let ghost t = self@.take(i as int);
            assert(t.drop_last() =~= self@.take(i - 1));
            assert(t.last() == (self.entries@[i - 1].0@, self.entries@[i - 1].1@));
            if crate::text::str_eq(self.entries[i - 1].0.as_str(), key) {
                return Some(&self.entries[i - 1].1);
            }
            i = i - 1;
        }
        None
    }
}

/// The entry of one `.env` line.
fn env_line_entry(line: &[char]) -> (res: Option<(String, String)>)
    ensures
        match res {
            Some((k, v)) => env_entry(line@) == Some((k@, v@)),
            None => env_entry(line@) is None,
        },
{
    let (a, b) = trim_range(line, 0, line.len());
    assert(line@.subrange(0, line@.len() as int) =~= line@);
    let ghost t = line@.subrange(a as int, b as int);
    if a == b || line[a] == '#' {
        return None;
    }
    let t_chars = crate::text::slice_to_vec(line, a, b);
    match find_char_exec(&t_chars, '=', 0) {
        Some(k) => {
            proof {
                lemma_find_char_from_bounds(t, '=', 0);
            }
            let (ka, kb) = trim_range(&t_chars, 0, k);
            let (va, vb) = trim_range(&t_chars, k + 1, t_chars.len());
            assert(t_chars@.subrange(0, k as int) =~= t.take(k as int));
            assert(t_chars@.subrange(k + 1, t_chars@.len() as int) =~= t.skip(k + 1));
            Some((string_of_range(&t_chars, ka, kb), string_of_range(&t_chars, va, vb)))
        },
        None => None,
    }
}


/// `code` followed by `.hint`: the key of the hint for a diagnostic code.
pub open spec fn hint_key(code: Seq<char>) -> Seq<char> {
    code + ".hint"@
}

/// The diagnostic of `level` for `code`: its message and hint are the texts
/// of `code` and of `code.hint`.
pub open spec fn coded(level: DiagnosticLevel, locale: Lang, code: Seq<char>) -> DiagnosticView {
    hinted(
        plain_diagnostic(level, code, translation(locale, code)),
        translation(locale, hint_key(code)),
    )
}

/// The text of the hint for `code`.
pub fn hint_text(locale: Lang, code: &str) -> (res: String)
    ensures
        res@ == translation(locale, hint_key(code@)),
{
    let mut key = chars_of(code);
    crate::text::push_str(&mut key, ".hint");
    crate::lang::text_of(locale, &key)
}

/// The diagnostic of `level` for `code`, with the texts of `code` and of
/// its hint.
pub fn coded_diagnostic(level: DiagnosticLevel, code: &str, locale: Lang) -> (res: Diagnostic)
    ensures
        res@ == coded(level, locale, code@),
{
    Diagnostic::new(level, code, text(locale, code)).with_hint(hint_text(locale, code))
}

/// `texts` in lexicographic order.
pub open spec fn sorted_texts(texts: Seq<Seq<char>>) -> Seq<Seq<char>> {
    crate::format_i18n::sort_by_key(
        texts.map_values(|t: Seq<char>| (t, Seq::<char>::empty())),
    ).map_values(|p: (Seq<char>, Seq<char>)| p.0)
}

/// Sorts texts lexicographically.
pub fn sort_texts(texts: Vec<String>) -> (res: Vec<String>)
    ensures
        res@.map_values(|t: String| t@) == sorted_texts(texts@.map_values(|t: String| t@)),
{
    let ghost tv = texts@.map_values(|t: String| t@);
    let mut pairs: Vec<(Vec<char>, Vec<char>)> = Vec::new();
    let mut i: usize = 0;
    while i < texts.len()
        invariant
            i <= texts@.len(),
            tv == texts@.map_values(|t: String| t@),
            crate::format_i18n::pairs_view(pairs@) == tv.take(i as int).map_values(
                |t: Seq<char>| (t, Seq::<char>::empty()),
            ),
        decreases texts@.len() - i,
    {
        let k = chars_of(texts[i].as_str());
        let e: Vec<char> = Vec::new();
        let ghost before = crate::format_i18n::pairs_view(pairs@);
        pairs.push((k, e));
        assert(crate::format_i18n::pairs_view(pairs@) =~= before.push((k@, e@)));
        assert(tv.take(i + 1).map_values(|t: Seq<char>| (t, Seq::<char>::empty())) =~= tv.take(
            i as int,
        ).map_values(|t: Seq<char>| (t, Seq::<char>::empty())).push((tv[i as int], Seq::<char>::empty())));
        assert(e@ =~= Seq::<char>::empty());
        i = i + 1;
    }
    assert(tv.take(tv.len() as int) =~= tv);
    let sorted = crate::format_i18n::sort_entries(pairs);
    let ghost sv = crate::format_i18n::pairs_view(sorted@);
    let mut out: Vec<String> = Vec::new();
    let mut j: usize = 0;
    while j < sorted.len()
        invariant
            j <= sorted@.len(),
            sv == crate::format_i18n::pairs_view(sorted@),
            out@.map_values(|t: String| t@) == sv.take(j as int).map_values(
                |p: (Seq<char>, Seq<char>)| p.0,
            ),
        decreases sorted@.len() - j,
    {
        let t = string_of(&sorted[j].0);
        let ghost before = out@;
        out.push(t);
        assert(out@.map_values(|t: String| t@) =~= before.map_values(|t: String| t@).push(t@));
        assert(sv.take(j + 1).map_values(|p: (Seq<char>, Seq<char>)| p.0) =~= sv.take(
            j as int,
        ).map_values(|p: (Seq<char>, Seq<char>)| p.0).push(sv[j as int].0));
        j = j + 1;
    }
    assert(sv.take(sv.len() as int) =~= sv);
    out
}


/// The 1-based line and column of the character at index `k` of `s`,
/// walking from index `i` with the position `(line, column)` reached so
/// far; the end position where `k` is past the end.
pub open spec fn char_line_column_from(s: Seq<char>, i: int, k: int, line: int, column: int) -> (
    int,
    int,
)
    decreases s.len() - i,
{
    if i < 0 || i >= s.len() || i >= k {
        (line, column)
    } else if s[i] == '\n' {
        char_line_column_from(s, i + 1, k, line + 1, 1)
    } else {
        char_line_column_from(s, i + 1, k, line, column + 1)
    }
}

/// The 1-based line and column of the character at index `k` of `s`.
pub open spec fn char_line_column(s: Seq<char>, k: int) -> (int, int) {
    char_line_column_from(s, 0, k, 1, 1)
}

/// The 1-based line and column of the character at index `k` of `chars`.
pub fn line_column_of_char(chars: &[char], k: usize) -> (res: (u32, u32))
    requires
        chars@.len() < u32::MAX,
    ensures
        res.0 as int == char_line_column(chars@, k as int).0,
        res.1 as int == char_line_column(chars@, k as int).1,
{
    let mut line: u32 = 1;
    let mut column: u32 = 1;
    let mut i: usize = 0;
    while i < chars.len() && i < k
        invariant
            i <= chars@.len() < u32::MAX,
            line >= 1,
            column >= 1,
            line + column <= i + 2,
            char_line_column(chars@, k as int) == char_line_column_from(
                chars@,
                i as int,
                k as int,
                line as int,
                column as int,
            ),
        decreases chars@.len() - i,
    {
        if chars[i] == '\n' {
            line = line + 1;
            column = 1;
        } else {
            column = column + 1;
        }
        i = i + 1;
    }
    (line, column)
}


/// Joins texts with `sep` between them.
pub fn join_texts(v: &Vec<String>, sep: &str) -> (res: String)
    ensures
        res@ == join(v@.map_values(|t: String| t@), sep@),
{
    let ghost tv = v@.map_values(|t: String| t@);
    let mut out: Vec<char> = Vec::new();
    let mut i: usize = 0;
    assert(tv.take(0) =~= Seq::<Seq<char>>::empty());
    while i < v.len()
        invariant
            i <= v@.len(),
            tv == v@.map_values(|t: String| t@),
            out@ == join(tv.take(i as int), sep@),
        decreases v@.len() - i,
    {
        let ghost before = out@;
        if i > 0 {
            crate::text::push_str(&mut out, sep);
        }
        crate::text::push_str(&mut out, v[i].as_str());
        proof {
            let t = tv.take(i + 1);
            assert(t.drop_last() =~= tv.take(i as int));
            assert(t.last() == v@[i as int]@);
            if i == 0 {
                assert(t.len() == 1);
                assert(out@ =~= t[0]);
            } else {
                assert(out@ =~= before + sep@ + t.last());
            }
        }
        i = i + 1;
    }
    assert(tv.take(tv.len() as int) =~= tv);
    string_of(&out)
}

/// Whether `v` is `true` with no regard to ASCII case.
pub fn is_true_text(v: &str) -> (res: bool)
    ensures
        res == (crate::project::parser_support::ascii_lower(v@) == "true"@),
{
    let c = chars_of(v);
    let l = crate::project::parser_support::lower_ascii_vec(&c, 0);
    assert(c@.skip(0) =~= c@);
    crate::text::chars_eq_str(&l, "true")
}

/// Whether `v` holds nothing but white space.
pub fn is_blank(v: &str) -> (res: bool)
    ensures
        res == (trim(v@).len() == 0),
{
    let c = chars_of(v);
    let (a, b) = trim_range(&c, 0, c.len());
    assert(c@.subrange(0, c@.len() as int) =~= c@);
    a == b
}

} // verus!
