//! Imports through the `@/` alias must resolve to a file under `src/`.
use vstd::prelude::*;

use crate::diagnostic::{diags_view, Diagnostic, DiagnosticCode, DiagnosticView};
use crate::lint::context::{all_coded, lemma_coded_concat, lemma_coded_push, file_text, lint_diag, placed, text_loc, ProjectFile, RuleContext};
use crate::output::{strings_view, LintRuleSeverity};
use crate::text::{ends_with, find_char_from, find_from, lex_lt, lines, starts_with, trim};
use crate::utils::{code_lines, join, sorted_texts};

verus! {

/// A TypeScript or JavaScript file under `src/`.
pub open spec fn source_path(f: Seq<char>) -> bool {
    starts_with(f, "src/"@) && (ends_with(f, ".ts"@) || ends_with(f, ".tsx"@) || ends_with(f, ".js"@)
        || ends_with(f, ".jsx"@))
}

/// Law: the rule reads exactly the paths under `src/` that end in `.ts`,
/// `.tsx`, `.js` or `.jsx`.
pub proof fn law_source_paths(f: Seq<char>)
    ensures
        source_path(f) == (f.len() >= 4 && f.take(4) == "src/"@ && ((f.len() >= 3 && f.skip(f.len()
            - 3) == ".ts"@) || (f.len() >= 4 && f.skip(f.len() - 4) == ".tsx"@) || (f.len() >= 3
            && f.skip(f.len() - 3) == ".js"@) || (f.len() >= 4 && f.skip(f.len() - 4) == ".jsx"@))),
{
    reveal_strlit("src/");
    reveal_strlit(".ts");
    reveal_strlit(".tsx");
    reveal_strlit(".js");
    reveal_strlit(".jsx");
    assert(f.subrange(0, 4) =~= f.take(4) || f.len() < 4);
    assert(f.len() >= 3 ==> f.subrange(f.len() - 3, f.len() as int) =~= f.skip(f.len() - 3));
    assert(f.len() >= 4 ==> f.subrange(f.len() - 4, f.len() as int) =~= f.skip(f.len() - 4));
}

/// Whether `file` is a TypeScript or JavaScript file under `src/`.
pub fn is_source_file(file: &str) -> (res: bool)
    ensures
        res == source_path(file@),
{
    let f = crate::text::chars_of(file);
    crate::text::starts_with_str(&f, "src/") && (crate::text::ends_with_str(&f, ".ts")
        || crate::text::ends_with_str(&f, ".tsx") || crate::text::ends_with_str(&f, ".js")
        || crate::text::ends_with_str(&f, ".jsx"))
}

/// The texts of the `@/` imports quoted with `q`, from index `from` on: each
/// from its `@` to the next `q`.
pub open spec fn quote_imports(c: Seq<char>, q: char, from: int) -> Seq<Seq<char>>
    decreases c.len() + 1 - from,
{
    if from < 0 {
        Seq::empty()
    } else {
        match find_from(c, seq![q, '@', '/'], from) {
            None => Seq::empty(),
            Some(p) => match find_char_from(c, q, p + 2) {
                None => Seq::empty(),
                Some(e) => {
                    proof {
                        crate::text::lemma_find_from_bounds(c, seq![q, '@', '/'], from);
                        crate::text::lemma_find_char_from_bounds(c, q, p + 2);
                    }
                    seq![c.subrange(p + 1, e)] + quote_imports(c, q, e + 1)
                },
            },
        }
    }
}

/// `s` without the repeats that follow an equal text.
pub open spec fn dedup_adjacent(s: Seq<Seq<char>>) -> Seq<Seq<char>>
    decreases s.len(),
{
    if s.len() == 0 {
        Seq::empty()
    } else {
        let prev = dedup_adjacent(s.drop_last());
        if prev.len() > 0 && prev.last() == s.last() {
            prev
        } else {
            prev.push(s.last())
        }
    }
}

/// The distinct `@/` imports of `c`, sorted.
pub open spec fn alias_imports(c: Seq<char>) -> Seq<Seq<char>> {
    dedup_adjacent(sorted_texts(quote_imports(c, '\'', 0) + quote_imports(c, '"', 0)))
}

fn push_quote_imports(c: &[char], q: char, out: &mut Vec<String>)
    ensures
        strings_view(final(out)@) == strings_view(old(out)@) + quote_imports(c@, q, 0),
{
    let marker = [q, '@', '/'];
    assert(marker@ =~= seq![q, '@', '/']);
    let ghost o0 = strings_view(out@);
    let n = c.len();
    let mut from: usize = 0;
    assert(o0 + quote_imports(c@, q, 0) =~= strings_view(out@) + quote_imports(c@, q, from as int));
    loop
        invariant
            from <= n + 1,
            n == c@.len(),
            o0 == strings_view(old(out)@),
            marker@ == seq![q, '@', '/'],
            o0 + quote_imports(c@, q, 0) == strings_view(out@) + quote_imports(c@, q, from as int),
        decreases n + 1 - from,
    {
        if from > n {
            assert(quote_imports(c@, q, from as int) =~= Seq::<Seq<char>>::empty());
            assert(strings_view(out@) + Seq::<Seq<char>>::empty() =~= strings_view(out@));
            return;
        }
        proof {
            crate::text::lemma_find_from_bounds(c@, marker@, from as int);
        }
        let p = match crate::text::find_from_exec(c, &marker, from) {
            None => {
                assert(strings_view(out@) + Seq::<Seq<char>>::empty() =~= strings_view(out@));
                return;
            },
            Some(p) => p,
        };
        assert(p + 3 <= n);
        proof {
            crate::text::lemma_find_char_from_bounds(c@, q, p + 2);
        }
        let e = match crate::text::find_char_exec(c, q, p + 2) {
            None => {
                assert(strings_view(out@) + Seq::<Seq<char>>::empty() =~= strings_view(out@));
                return;
            },
            Some(e) => e,
        };
        let text = crate::text::string_of_range(c, p + 1, e);
        let ghost before = strings_view(out@);
        out.push(text);
        assert(strings_view(out@) =~= before.push(text@));
        assert(before.push(text@) + quote_imports(c@, q, e + 1) =~= before + quote_imports(c@, q, from as int));
        from = e + 1;
    }
}

/// No text of `s` comes before an earlier one.
pub open spec fn non_decreasing(s: Seq<Seq<char>>) -> bool {
    forall|i: int, j: int| 0 <= i < j < s.len() ==> !lex_lt(#[trigger] s[j], #[trigger] s[i])
}

/// Each text of `s` comes before the later ones.
pub open spec fn increasing(s: Seq<Seq<char>>) -> bool {
    forall|i: int, j: int| 0 <= i < j < s.len() ==> lex_lt(#[trigger] s[i], #[trigger] s[j])
}

/// Sorting texts puts them in order and keeps the same texts.
pub proof fn lemma_sorted_texts_order(texts: Seq<Seq<char>>)
    ensures
        non_decreasing(sorted_texts(texts)),
        forall|t: Seq<char>| sorted_texts(texts).contains(t) <==> texts.contains(t),
{
    broadcast use vstd::seq_lib::group_to_multiset_ensures;

    let pairs = texts.map_values(|t: Seq<char>| (t, Seq::<char>::empty()));
    let sorted = crate::format_i18n::sort_by_key(pairs);
    crate::format_i18n::law_sort_orders_keys(pairs);
    crate::format_i18n::law_sort_keeps_entries(pairs);
    let st = sorted_texts(texts);
    assert(st == sorted.map_values(|p: (Seq<char>, Seq<char>)| p.0));
    assert forall|i: int, j: int| 0 <= i < j < st.len() implies !lex_lt(#[trigger] st[j], #[trigger] st[i]) by {
        assert(st[i] == sorted[i].0);
        assert(st[j] == sorted[j].0);
    }
    assert forall|t: Seq<char>| st.contains(t) <==> texts.contains(t) by {
        let pt = (t, Seq::<char>::empty());
        if st.contains(t) {
            let k = choose|k: int| 0 <= k < st.len() && st[k] == t;
            assert(sorted.contains(sorted[k]));
            vstd::seq_lib::to_multiset_contains(sorted, sorted[k]);
            vstd::seq_lib::to_multiset_contains(pairs, sorted[k]);
            assert(pairs.contains(sorted[k]));
            let m = choose|m: int| 0 <= m < pairs.len() && pairs[m] == sorted[k];
            assert(texts[m] == t);
        }
        if texts.contains(t) {
            let m = choose|m: int| 0 <= m < texts.len() && texts[m] == t;
            assert(pairs[m] == pt);
            assert(pairs.contains(pt));
            vstd::seq_lib::to_multiset_contains(sorted, pt);
            vstd::seq_lib::to_multiset_contains(pairs, pt);
            assert(sorted.contains(pt));
            let k = choose|k: int| 0 <= k < sorted.len() && sorted[k] == pt;
            assert(st[k] == t);
        }
    }
}

/// Removing repeats from texts in order leaves them in strictly increasing
/// order, with the same texts, the last one kept.
pub proof fn lemma_dedup_increasing(s: Seq<Seq<char>>)
    requires
        non_decreasing(s),
    ensures
        increasing(dedup_adjacent(s)),
        s.len() > 0 ==> dedup_adjacent(s).len() > 0 && dedup_adjacent(s).last() == s.last(),
        forall|k: int| 0 <= k < dedup_adjacent(s).len() ==> s.contains(#[trigger] dedup_adjacent(s)[k]),
        forall|k: int| 0 <= k < s.len() ==> dedup_adjacent(s).contains(#[trigger] s[k]),
    decreases s.len(),
{
    if s.len() > 0 {
        let e = s.drop_last();
        assert(non_decreasing(e)) by {
            assert forall|i: int, j: int| 0 <= i < j < e.len() implies !lex_lt(#[trigger] e[j], #[trigger] e[i]) by {
                assert(e[i] == s[i] && e[j] == s[j]);
            }
        }
        lemma_dedup_increasing(e);
        let prev = dedup_adjacent(e);
        let d = dedup_adjacent(s);
        let x = s.last();
        if prev.len() > 0 && prev.last() == x {
            assert(d == prev);
            assert forall|k: int| 0 <= k < s.len() implies d.contains(#[trigger] s[k]) by {
                if k < e.len() {
                    assert(s[k] == e[k]);
                } else {
                    assert(d[d.len() - 1] == x);
                }
            }
            assert forall|k: int| 0 <= k < d.len() implies s.contains(#[trigger] d[k]) by {
                let m = choose|m: int| 0 <= m < e.len() && e[m] == d[k];
                assert(s[m] == e[m]);
            }
        } else {
            assert(d == prev.push(x));
            if e.len() > 0 {
                assert(prev.last() == e.last());
                let y = e.last();
                assert(y == s[s.len() - 2]);
                assert(!lex_lt(x, y));
                crate::text::lemma_lex_total(x, y);
                assert(lex_lt(y, x));
            }
            assert forall|i: int, j: int| 0 <= i < j < d.len() implies lex_lt(#[trigger] d[i], #[trigger] d[j]) by {
                if j < prev.len() {
                    assert(d[i] == prev[i] && d[j] == prev[j]);
                } else {
                    assert(d[j] == x);
                    assert(d[i] == prev[i]);
                    let y = prev.last();
                    if i < prev.len() - 1 {
                        assert(lex_lt(prev[i], prev[prev.len() - 1]));
                        crate::text::lemma_lex_trans(prev[i], y, x);
                    }
                }
            }
            assert forall|k: int| 0 <= k < s.len() implies d.contains(#[trigger] s[k]) by {
                if k < e.len() {
                    assert(s[k] == e[k]);
                    let m = choose|m: int| 0 <= m < prev.len() && prev[m] == e[k];
                    assert(d[m] == prev[m]);
                } else {
                    assert(d[d.len() - 1] == x);
                }
            }
            assert forall|k: int| 0 <= k < d.len() implies s.contains(#[trigger] d[k]) by {
                if k < prev.len() {
                    assert(d[k] == prev[k]);
                    let m = choose|m: int| 0 <= m < e.len() && e[m] == prev[k];
                    assert(s[m] == e[m]);
                } else {
                    assert(s[s.len() - 1] == x);
                }
            }
        }
    }
}

/// Law: the sorted distinct texts come in strictly increasing order, so
/// each comes once, and they are exactly the texts given.
pub proof fn law_sorted_distinct(texts: Seq<Seq<char>>)
    ensures
        increasing(dedup_adjacent(sorted_texts(texts))),
        forall|t: Seq<char>| dedup_adjacent(sorted_texts(texts)).contains(t) <==> texts.contains(t),
{
    let st = sorted_texts(texts);
    lemma_sorted_texts_order(texts);
    lemma_dedup_increasing(st);
    let d = dedup_adjacent(st);
    assert forall|t: Seq<char>| d.contains(t) <==> texts.contains(t) by {
        if d.contains(t) {
            let k = choose|k: int| 0 <= k < d.len() && d[k] == t;
            assert(st.contains(d[k]));
        }
        if texts.contains(t) {
            assert(st.contains(t));
            let k = choose|k: int| 0 <= k < st.len() && st[k] == t;
            assert(d.contains(st[k]));
        }
    }
}

/// `texts` sorted, each distinct text once.
pub fn sorted_distinct(texts: Vec<String>) -> (res: Vec<String>)
    ensures
        strings_view(res@) == dedup_adjacent(sorted_texts(strings_view(texts@))),
{
    assert(strings_view(texts@) =~= texts@.map_values(|t: String| t@));
    let sorted = crate::utils::sort_texts(texts);
    let ghost sv = strings_view(sorted@);
    assert(sv =~= sorted@.map_values(|t: String| t@));
    let mut out: Vec<String> = Vec::new();
    let mut i: usize = 0;
    assert(sv.take(0) =~= Seq::<Seq<char>>::empty());
    assert(strings_view(out@) =~= Seq::<Seq<char>>::empty());
    while i < sorted.len()
        invariant
            i <= sorted@.len(),
            sv == strings_view(sorted@),
            strings_view(out@) == dedup_adjacent(sv.take(i as int)),
        decreases sorted@.len() - i,
    {
        assert(sv.take(i + 1).drop_last() =~= sv.take(i as int));
        assert(sv.take(i + 1).last() == sorted@[i as int]@);
        let repeat = out.len() > 0 && crate::text::str_eq(out[out.len() - 1].as_str(), sorted[i].as_str());
        if !repeat {
            let t = sorted[i].clone();
            let ghost before = strings_view(out@);
            out.push(t);
            assert(strings_view(out@) =~= before.push(t@));
        }
        i = i + 1;
    }
    assert(sv.take(sv.len() as int) =~= sv);
    out
}

/// The distinct `@/` imports of a source text, sorted.
pub fn extract_alias_imports(content: &str) -> (res: Vec<String>)
    ensures
        strings_view(res@) == alias_imports(content@),
{
    let c = crate::text::chars_of(content);
    let mut all: Vec<String> = Vec::new();
    assert(strings_view(all@) =~= Seq::<Seq<char>>::empty());
    push_quote_imports(&c, '\'', &mut all);
    push_quote_imports(&c, '"', &mut all);
    assert(strings_view(all@) =~= quote_imports(c@, '\'', 0) + quote_imports(c@, '"', 0));
    sorted_distinct(all)
}

/// The parts of a path from index `i` on, `cur` being the part read so
/// far: split at `/`, empty and `.` parts left out.
pub open spec fn parts_from(s: Seq<char>, i: int, cur: Seq<char>) -> Seq<Seq<char>>
    decreases s.len() - i,
{
    if i < 0 || i >= s.len() {
        piece(cur)
    } else if s[i] == '/' {
        piece(cur) + parts_from(s, i + 1, Seq::empty())
    } else {
        parts_from(s, i + 1, cur.push(s[i]))
    }
}

/// A part of a path, unless it is empty or `.`.
pub open spec fn piece(p: Seq<char>) -> Seq<Seq<char>> {
    if p.len() == 0 || p == seq!['.'] {
        Seq::empty()
    } else {
        seq![p]
    }
}

/// The path under `src/` that an `@/` import names: its parts joined by
/// `/`; `None` where it is empty, absolute, or climbs with `..`.
pub open spec fn alias_relative(import: Seq<char>) -> Option<Seq<char>> {
    if !starts_with(import, "@/"@) {
        None
    } else {
        let rel = import.skip(2);
        let parts = parts_from(rel, 0, Seq::empty());
        if trim(rel).len() == 0 || (rel.len() > 0 && rel[0] == '/') || parts.contains(seq!['.', '.'])
            || parts.len() == 0 {
            None
        } else {
            Some(join(parts, seq!['/']))
        }
    }
}

/// The path under `src/` that an `@/` import names, where it stays inside.
pub fn safe_alias_relative(import_path: &str) -> (res: Option<String>)
    ensures
        crate::diagnostic::opt_view(res) == alias_relative(import_path@),
{
    let s = crate::text::chars_of(import_path);
    proof {
        reveal_strlit("@/");
    }
    if !crate::text::starts_with_str(&s, "@/") {
        return None;
    }
    let rel = crate::text::slice_to_vec(&s, 2, s.len());
    assert(rel@ =~= s@.skip(2));
    let (a, b) = crate::text::trim_range(&rel, 0, rel.len());
    assert(rel@.subrange(0, rel@.len() as int) =~= rel@);
    if a == b {
        return None;
    }
    if rel.len() > 0 && rel[0] == '/' {
        return None;
    }
    let mut parts: Vec<Vec<char>> = Vec::new();
    let mut cur: Vec<char> = Vec::new();
    let mut i: usize = 0;
    assert(parts.deep_view() + parts_from(rel@, 0, cur@) =~= parts_from(rel@, 0, Seq::empty()));
    while i < rel.len()
        invariant
            i <= rel@.len(),
            parts.deep_view() + parts_from(rel@, i as int, cur@) == parts_from(rel@, 0, Seq::empty()),
        decreases rel@.len() - i,
    {
        if rel[i] == '/' {
            let ghost before = parts.deep_view();
            let keep = cur.len() > 0 && !(cur.len() == 1 && cur[0] == '.');
            if keep {
                assert(cur.deep_view() =~= cur@);
                parts.push(cur);
                assert(parts.deep_view() =~= before + piece(cur@));
            } else {
                assert(cur@.len() == 0 || cur@ =~= seq!['.']);
                assert(parts.deep_view() =~= before + piece(cur@));
            }
            cur = Vec::new();
            assert(cur@ =~= Seq::<char>::empty());
        } else {
            cur.push(rel[i]);
        }
        i = i + 1;
    }
    let ghost before = parts.deep_view();
    let keep = cur.len() > 0 && !(cur.len() == 1 && cur[0] == '.');
    if keep {
        assert(cur.deep_view() =~= cur@);
        parts.push(cur);
        assert(parts.deep_view() =~= before + piece(cur@));
    } else {
        assert(cur@.len() == 0 || cur@ =~= seq!['.']);
        assert(parts.deep_view() =~= before + piece(cur@));
    }
    let ghost pv = parts.deep_view();
    let dots = ['.', '.'];
    assert(dots@ =~= seq!['.', '.']);
    if crate::lint::i18n::holds_name(&parts, &dots) {
        return None;
    }
    if parts.len() == 0 {
        return None;
    }
    let mut out: Vec<char> = Vec::new();
    let mut j: usize = 0;
    assert(pv.take(0) =~= Seq::<Seq<char>>::empty());
    while j < parts.len()
        invariant
            j <= parts@.len(),
            pv == parts.deep_view(),
            out@ == join(pv.take(j as int), seq!['/']),
        decreases parts@.len() - j,
    {
        let ghost before = out@;
        if j > 0 {
            out.push('/');
        }
        crate::text::push_all(&mut out, &parts[j]);
        proof {
            let t = pv.take(j + 1);
            assert(t.drop_last() =~= pv.take(j as int));
            assert(t.last() == parts@[j as int]@);
            if j == 0 {
                assert(out@ =~= t[0]);
            } else {
                assert(out@ =~= before + seq!['/'] + t.last());
            }
        }
        j = j + 1;
    }
    assert(pv.take(pv.len() as int) =~= pv);
    Some(crate::text::string_of(&out))
}

/// The file extensions an import may leave out.
pub open spec fn import_extensions() -> Seq<Seq<char>> {
    seq!["ts"@, "tsx"@, "js"@, "jsx"@]
}

/// The files an import under `src/` may name: the path itself, the path
/// with an extension, or an index file in it.
pub open spec fn import_candidates(rel: Seq<char>) -> Seq<Seq<char>> {
    let base = "src/"@ + rel;
    seq![base] + import_extensions().map_values(|e: Seq<char>| base + seq!['.'] + e)
        + import_extensions().map_values(|e: Seq<char>| base + "/index."@ + e)
}

/// An import resolves: its path stays under `src/` and one of its
/// candidates is a file of the project.
pub open spec fn resolves(project_files: Seq<Seq<char>>, import: Seq<char>) -> bool {
    match alias_relative(import) {
        None => false,
        Some(rel) => some_candidate(project_files, rel),
    }
}

/// One of the candidates of `rel` is a file of the project.
pub open spec fn some_candidate(project_files: Seq<Seq<char>>, rel: Seq<char>) -> bool {
    exists|i: int| 0 <= i < 9 && project_files.contains(#[trigger] import_candidates(rel)[i])
}

pub fn holds_file(files: &Vec<String>, path: &[char]) -> (res: bool)
    ensures
        res == strings_view(files@).contains(path@),
{
    let mut i: usize = 0;
    while i < files.len()
        invariant
            i <= files@.len(),
            forall|j: int| 0 <= j < i ==> files@[j]@ != path@,
        decreases files@.len() - i,
    {
        let f = crate::text::chars_of(files[i].as_str());
        if crate::text::chars_eq(&f, path) {
            assert(strings_view(files@)[i as int] == path@);
            return true;
        }
        i = i + 1;
    }
    proof {
        if strings_view(files@).contains(path@) {
            let j = choose|j: int| 0 <= j < strings_view(files@).len() && strings_view(files@)[j] == path@;
            assert(files@[j]@ == path@);
        }
    }
    false
}

/// Whether an `@/` import names a file of the project under `src/`.
pub fn resolves_alias_import(project_files: &Vec<String>, import_path: &str) -> (res: bool)
    ensures
        res == resolves(strings_view(project_files@), import_path@),
{
    let rel = match safe_alias_relative(import_path) {
        None => {
            return false;
        },
        Some(r) => r,
    };
    let ghost rv = rel@;
    let ghost cands = import_candidates(rv);
    let ghost pf = strings_view(project_files@);
    let mut base = crate::text::chars_of("src/");
    crate::text::push_str(&mut base, rel.as_str());
    assert(base@ == "src/"@ + rv);
    let exts = ["ts", "tsx", "js", "jsx"];
    proof {
        reveal_strlit("ts");
        reveal_strlit("tsx");
        reveal_strlit("js");
        reveal_strlit("jsx");
        reveal_strlit("/index.");
        assert(exts@.map_values(|e: &str| e@) =~= import_extensions());
        assert(cands[0] == base@);
    }
    assert(crate::diagnostic::opt_view(Some(rel)) == alias_relative(import_path@));
    if holds_file(project_files, &base) {
        assert(pf.contains(import_candidates(rv)[0]));
        assert(alias_relative(import_path@) == Some(rv));
        return true;
    }
    let mut k: usize = 0;
    while k < 4
        invariant
            k <= 4,
            base@ == "src/"@ + rv,
            cands == import_candidates(rv),
            pf == strings_view(project_files@),
            exts@.map_values(|e: &str| e@) == import_extensions(),
            alias_relative(import_path@) == Some(rv),
            forall|m: int| 0 <= m < 1 + k ==> !pf.contains(#[trigger] cands[m]),
        decreases 4 - k,
    {
        let mut c = crate::text::slice_to_vec(&base, 0, base.len());
        c.push('.');
        crate::text::push_str(&mut c, exts[k]);
        assert(exts@.map_values(|e: &str| e@)[k as int] == exts[k as int]@);
        assert(c@ =~= cands[1 + k]);
        if holds_file(project_files, &c) {
            assert(pf.contains(import_candidates(rv)[1 + k]));
            return true;
        }
        k = k + 1;
    }
    let mut k: usize = 0;
    while k < 4
        invariant
            k <= 4,
            base@ == "src/"@ + rv,
            cands == import_candidates(rv),
            pf == strings_view(project_files@),
            exts@.map_values(|e: &str| e@) == import_extensions(),
            alias_relative(import_path@) == Some(rv),
            forall|m: int| 0 <= m < 5 + k ==> !pf.contains(#[trigger] cands[m]),
        decreases 4 - k,
    {
        let mut c = crate::text::slice_to_vec(&base, 0, base.len());
        crate::text::push_str(&mut c, "/index.");
        crate::text::push_str(&mut c, exts[k]);
        assert(exts@.map_values(|e: &str| e@)[k as int] == exts[k as int]@);
        assert(c@ =~= cands[5 + k]);
        if holds_file(project_files, &c) {
            assert(pf.contains(import_candidates(rv)[5 + k]));
            return true;
        }
        k = k + 1;
    }
    assert(!some_candidate(pf, rv));
    false
}


/// The diagnostics for the imports of `file` that do not resolve, placed
/// at the import in the file.
pub open spec fn import_diags(
    files: Seq<ProjectFile>,
    project_files: Seq<Seq<char>>,
    file: Seq<char>,
    imports: Seq<Seq<char>>,
    locale: crate::lang::Lang,
    severity: LintRuleSeverity,
) -> Seq<DiagnosticView>
    decreases imports.len(),
{
    if imports.len() == 0 {
        Seq::empty()
    } else {
        let prev = import_diags(files, project_files, file, imports.drop_last(), locale, severity);
        let imp = imports.last();
        if resolves(project_files, imp) {
            prev
        } else {
            prev.push(
                placed(
                    lint_diag(locale, "broken-alias-imports"@, severity, "broken-alias-imports.message"@, seq![("import"@, imp)]),
                    file,
                    text_loc(files, file, imp),
                ),
            )
        }
    }
}

/// The text of a source without its `//` comment lines.
pub open spec fn without_comment_lines(c: Seq<char>) -> Seq<char> {
    join(code_lines(lines(c)), seq!['\n'])
}

/// The diagnostics of the rule: the source files (of `paths`, in order)
/// that were read, each with its unresolved `@/` imports.
pub open spec fn diagnostics_for(
    files: Seq<ProjectFile>,
    project_files: Seq<Seq<char>>,
    paths: Seq<Seq<char>>,
    locale: crate::lang::Lang,
    severity: LintRuleSeverity,
) -> Seq<DiagnosticView>
    decreases paths.len(),
{
    if paths.len() == 0 {
        Seq::empty()
    } else {
        let prev = diagnostics_for(files, project_files, paths.drop_last(), locale, severity);
        let f = paths.last();
        if source_path(f) && file_text(files, f) is Some {
            prev + import_diags(files, project_files, f, alias_imports(without_comment_lines(file_text(files, f)->0)), locale, severity)
        } else {
            prev
        }
    }
}

/// Law: each path under `src/` ending in `.ts`, `.tsx`, `.js` or `.jsx`
/// that could be read adds the diagnostics for its unresolved `@/` imports,
/// and every other path adds none.
pub proof fn law_rule_reads_source_files(
    files: Seq<ProjectFile>,
    project_files: Seq<Seq<char>>,
    paths: Seq<Seq<char>>,
    f: Seq<char>,
    locale: crate::lang::Lang,
    severity: LintRuleSeverity,
)
    ensures
        starts_with(f, "src/"@) && (ends_with(f, ".ts"@) || ends_with(f, ".tsx"@) || ends_with(f, ".js"@)
            || ends_with(f, ".jsx"@)) && file_text(files, f) is Some ==> diagnostics_for(
            files,
            project_files,
            paths.push(f),
            locale,
            severity,
        ) == diagnostics_for(files, project_files, paths, locale, severity) + import_diags(
            files,
            project_files,
            f,
            alias_imports(without_comment_lines(file_text(files, f)->0)),
            locale,
            severity,
        ),
        !(starts_with(f, "src/"@) && (ends_with(f, ".ts"@) || ends_with(f, ".tsx"@) || ends_with(f, ".js"@)
            || ends_with(f, ".jsx"@))) ==> diagnostics_for(files, project_files, paths.push(f), locale, severity)
            == diagnostics_for(files, project_files, paths, locale, severity),
{
    assert(paths.push(f).drop_last() =~= paths);
}

/// Reports the `@/` imports that do not resolve to a file under `src/`.
pub fn run(context: &RuleContext, severity: LintRuleSeverity) -> (res: Vec<Diagnostic>)
    ensures
        diags_view(res@) == diagnostics_for(
            context.files@,
            strings_view(context.project.files@),
            strings_view(context.project.files@),
            context.locale,
            severity,
        ),
{
    let paths = &context.project.files;
    let ghost pv = strings_view(paths@);
    let mut out: Vec<Diagnostic> = Vec::new();
    let mut i: usize = 0;
    assert(pv.take(0) =~= Seq::<Seq<char>>::empty());
    assert(diags_view(out@) =~= Seq::<DiagnosticView>::empty());
    proof {
        reveal_strlit("import");
    }
    while i < paths.len()
        invariant
            i <= paths@.len(),
            pv == strings_view(paths@),
            paths == &context.project.files,
            diags_view(out@) == diagnostics_for(context.files@, pv, pv.take(i as int), context.locale, severity),
        decreases paths@.len() - i,
    {
        let file = paths[i].as_str();
        assert(pv.take(i + 1).drop_last() =~= pv.take(i as int));
        assert(pv.take(i + 1).last() == file@);
        if is_source_file(file) {
            match context.read_file(file) {
                Some(content) => {
                    let stripped = crate::utils::strip_line_comments(content.as_str());
                    let imports = extract_alias_imports(stripped.as_str());
                    let ghost iv = strings_view(imports@);
                    let ghost o0 = diags_view(out@);
                    let mut j: usize = 0;
                    assert(iv.take(0) =~= Seq::<Seq<char>>::empty());
                    assert(o0 + Seq::<DiagnosticView>::empty() =~= o0);
                    while j < imports.len()
                        invariant
                            j <= imports@.len(),
                            iv == strings_view(imports@),
                            paths == &context.project.files,
                            pv == strings_view(paths@),
                            diags_view(out@) == o0 + import_diags(context.files@, pv, file@, iv.take(j as int), context.locale, severity),
                        decreases imports@.len() - j,
                    {
                        let imp = imports[j].as_str();
                        assert(iv.take(j + 1).drop_last() =~= iv.take(j as int));
                        assert(iv.take(j + 1).last() == imp@);
                        if !resolves_alias_import(paths, imp) {
                            let args = [("import", imp)];
                            assert(crate::lang::args_view(args@) =~= seq![("import"@, imp@)]);
                            let d = context.diagnostic(DiagnosticCode::PATTO_LINT_BROKEN_ALIAS_IMPORTS, severity, "broken-alias-imports.message", &args);
                            let d = match context.location_for_text(file, imp) {
                                Some((line, column)) => d.with_location(file, line, column),
                                None => d.with_location(file, 1, 1),
                            };
                            let ghost before = diags_view(out@);
                            out.push(d);
                            assert(diags_view(out@) =~= before.push(d@));
                        }
                        j = j + 1;
                    }
                    assert(iv.take(iv.len() as int) =~= iv);
                },
                None => {},
            }
        }
        i = i + 1;
    }
    assert(pv.take(pv.len() as int) =~= pv);
    out
}

pub proof fn lemma_import_codes(
    files: Seq<ProjectFile>,
    project_files: Seq<Seq<char>>,
    file: Seq<char>,
    imports: Seq<Seq<char>>,
    locale: crate::lang::Lang,
    severity: LintRuleSeverity,
)
    ensures
        all_coded(import_diags(files, project_files, file, imports, locale, severity), "broken-alias-imports"@, severity),
    decreases imports.len(),
{
    if imports.len() > 0 {
        lemma_import_codes(files, project_files, file, imports.drop_last(), locale, severity);
        let prev = import_diags(files, project_files, file, imports.drop_last(), locale, severity);
        let res = import_diags(files, project_files, file, imports, locale, severity);
        if res != prev {
            lemma_coded_push(prev, res.last(), "broken-alias-imports"@, severity);
            assert(res =~= prev.push(res.last()));
        }
    }
}

/// Each diagnostic of the rule has the rule's code and the level of
/// `severity`.
pub proof fn lemma_codes(
    files: Seq<ProjectFile>,
    project_files: Seq<Seq<char>>,
    paths: Seq<Seq<char>>,
    locale: crate::lang::Lang,
    severity: LintRuleSeverity,
)
    ensures
        all_coded(diagnostics_for(files, project_files, paths, locale, severity), "broken-alias-imports"@, severity),
    decreases paths.len(),
{
    if paths.len() > 0 {
        lemma_codes(files, project_files, paths.drop_last(), locale, severity);
        let f = paths.last();
        if source_path(f) && file_text(files, f) is Some {
            let imports = alias_imports(without_comment_lines(file_text(files, f)->0));
            lemma_import_codes(files, project_files, f, imports, locale, severity);
            lemma_coded_concat(
                diagnostics_for(files, project_files, paths.drop_last(), locale, severity),
                import_diags(files, project_files, f, imports, locale, severity),
                "broken-alias-imports"@,
                severity,
            );
        }
    }
}

/// Law: an `@/` import resolves only where its path has no `..` part and a
/// file of the project under `src/` answers it.
pub proof fn law_alias_imports_stay_in_src(project_files: Seq<Seq<char>>, import: Seq<char>)
    requires
        resolves(project_files, import),
    ensures
        exists|parts: Seq<Seq<char>>|
            #![trigger join(parts, seq!['/'])]
            !parts.contains(seq!['.', '.']) && alias_relative(import) == Some(join(parts, seq!['/'])),
        exists|f: Seq<char>| #![trigger project_files.contains(f)] project_files.contains(f) && starts_with(f, "src/"@),
{
    let rel = import.skip(2);
    let parts = parts_from(rel, 0, Seq::empty());
    assert(alias_relative(import) == Some(join(parts, seq!['/'])));
    let r = join(parts, seq!['/']);
    let i = choose|i: int| 0 <= i < 9 && project_files.contains(#[trigger] import_candidates(r)[i]);
    let f = import_candidates(r)[i];
    let base = "src/"@ + r;
    reveal_strlit("src/");
    assert(base.subrange(0, 4) =~= "src/"@);
    if i == 0 {
        assert(f == base);
    } else if i < 5 {
        assert(f == base + seq!['.'] + import_extensions()[i - 1]);
        assert(f.subrange(0, 4) =~= base.subrange(0, 4));
    } else {
        assert(f == base + "/index."@ + import_extensions()[i - 5]);
        assert(f.subrange(0, 4) =~= base.subrange(0, 4));
    }
    assert(starts_with(f, "src/"@));
}

} // verus!
