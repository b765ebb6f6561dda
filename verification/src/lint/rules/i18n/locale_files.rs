//! The locale files: `src/i18n/locale/<locale>.<ts|tsx|js|jsx>`, each with
//! the keys it declares.
use vstd::prelude::*;

use crate::format_i18n::{pairs_view, sort_by_key, sort_entries};
use crate::lint::context::{file_text, ProjectFile, RuleContext};
use crate::lint::i18n::{extract_translation_keys, translation_keys_of};
use crate::output::strings_view;
use crate::text::{
    chars_eq_str, chars_of, find_char_exec, lemma_find_char_from_bounds, lines,
    slice_to_vec, starts_with, starts_with_str, string_of, string_of_range,
};

verus! {

/// A locale file: its locale (the file's stem), its path and its keys,
/// each once.
pub struct LocaleFile {
    pub locale: String,
    pub file: String,
    pub keys: Vec<String>,
}

/// A locale file as its locale, its path and its keys.
pub type LocaleView = (Seq<char>, Seq<char>, Seq<Seq<char>>);

impl View for LocaleFile {
    type V = LocaleView;

    open spec fn view(&self) -> LocaleView {
        (self.locale@, self.file@, strings_view(self.keys@))
    }
}

pub open spec fn locales_view(v: Seq<LocaleFile>) -> Seq<LocaleView> {
    v.map_values(|l: LocaleFile| l@)
}

/// The index of the last `c` of `s`.
pub open spec fn last_index_of(s: Seq<char>, c: char) -> Option<int>
    decreases s.len(),
{
    if s.len() == 0 {
        None
    } else if s.last() == c {
        Some(s.len() - 1)
    } else {
        last_index_of(s.drop_last(), c)
    }
}

/// What locale files may be written in.
pub open spec fn script_extension(ext: Seq<char>) -> bool {
    ext == "ts"@ || ext == "tsx"@ || ext == "js"@ || ext == "jsx"@
}

/// The locale of `path`, where it names a script right under
/// `src/i18n/locale/`: its file name up to its last `.` (a name whose only
/// `.` comes first has no extension).
pub open spec fn locale_stem(path: Seq<char>) -> Option<Seq<char>> {
    if !starts_with(path, "src/i18n/locale/"@) {
        None
    } else {
        let name = path.skip(16);
        if name.contains('/') {
            None
        } else {
            match last_index_of(name, '.') {
                Some(i) => if i > 0 && script_extension(name.skip(i + 1)) {
                    Some(name.take(i))
                } else {
                    None
                },
                None => None,
            }
        }
    }
}

/// The locale and path of each locale file among `paths` that was read, in
/// order.
pub open spec fn locale_candidates(files: Seq<ProjectFile>, paths: Seq<Seq<char>>) -> Seq<(Seq<char>, Seq<char>)>
    decreases paths.len(),
{
    if paths.len() == 0 {
        Seq::empty()
    } else {
        let prev = locale_candidates(files, paths.drop_last());
        let p = paths.last();
        match locale_stem(p) {
            Some(l) => if file_text(files, p) is Some {
                prev.push((l, p))
            } else {
                prev
            },
            None => prev,
        }
    }
}

/// The keys the file at `path` declares.
pub open spec fn keys_of_file(files: Seq<ProjectFile>, path: Seq<char>) -> Seq<Seq<char>> {
    match file_text(files, path) {
        Some(c) => translation_keys_of(lines(c)),
        None => Seq::empty(),
    }
}

/// The locale files, stably sorted by locale.
pub open spec fn locales_of(files: Seq<ProjectFile>, paths: Seq<Seq<char>>) -> Seq<LocaleView> {
    sort_by_key(locale_candidates(files, paths)).map_values(
        |p: (Seq<char>, Seq<char>)| (p.0, p.1, keys_of_file(files, p.1)),
    )
}

/// The locale of `path`, if it names a locale file.
pub fn locale_of_path(path: &str) -> (res: Option<String>)
    ensures
        match res {
            Some(l) => locale_stem(path@) == Some(l@),
            None => locale_stem(path@) is None,
        },
{
    let p = chars_of(path);
    proof {
        reveal_strlit("src/i18n/locale/");
    }
    if !starts_with_str(&p, "src/i18n/locale/") {
        return None;
    }
    let ghost name = p@.skip(16);
    proof {
        lemma_find_char_from_bounds(p@, '/', 16);
    }
    match find_char_exec(&p, '/', 16) {
        Some(j) => {
            assert(name[j - 16] == '/');
            return None;
        },
        None => {
            assert(!name.contains('/')) by {
                if name.contains('/') {
                    let j = choose|j: int| 0 <= j < name.len() && name[j] == '/';
                    assert(p@[j + 16] == '/');
                }
            }
        },
    }
    let n = p.len();
    let mut k = n;
    assert(name.take((n - 16) as int) =~= name);
    while k > 16 && p[k - 1] != '.'
        invariant
            16 <= k <= n,
            n == p@.len(),
            name == p@.skip(16),
            last_index_of(name, '.') == last_index_of(name.take(k - 16), '.'),
        decreases k,
    {
        assert(name.take(k - 16).drop_last() =~= name.take(k - 17));
        assert(name.take(k - 16).last() == p@[k - 1]);
        k = k - 1;
    }
    if k == 16 {
        assert(name.take(0) =~= Seq::<char>::empty());
        return None;
    }
    let i = k - 17;
    assert(name.take(k - 16).last() == p@[k - 1]);
    assert(last_index_of(name, '.') == Some(i as int));
    if i == 0 {
        return None;
    }
    let ext = slice_to_vec(&p, k, n);
    assert(ext@ =~= name.skip(i + 1));
    if chars_eq_str(&ext, "ts") || chars_eq_str(&ext, "tsx") || chars_eq_str(&ext, "js") || chars_eq_str(&ext, "jsx") {
        let stem = string_of_range(&p, 16, k - 1);
        assert(stem@ =~= name.take(i as int));
        Some(stem)
    } else {
        None
    }
}

/// The locale files of the project, stably sorted by locale.
pub fn collect_locale_files(context: &RuleContext) -> (res: Vec<LocaleFile>)
    ensures
        locales_view(res@) == locales_of(context.files@, strings_view(context.project.files@)),
{
    let paths = &context.project.files;
    let ghost pv = strings_view(paths@);
    let mut found: Vec<(Vec<char>, Vec<char>)> = Vec::new();
    let mut i: usize = 0;
    assert(pv.take(0) =~= Seq::<Seq<char>>::empty());
    assert(pairs_view(found@) =~= Seq::<(Seq<char>, Seq<char>)>::empty());
    while i < paths.len()
        invariant
            i <= paths@.len(),
            pv == strings_view(paths@),
            paths == &context.project.files,
            pairs_view(found@) == locale_candidates(context.files@, pv.take(i as int)),
        decreases paths@.len() - i,
    {
        let p = paths[i].as_str();
        assert(pv.take(i + 1).drop_last() =~= pv.take(i as int));
        assert(pv.take(i + 1).last() == p@);
        match locale_of_path(p) {
            Some(l) => {
                if context.read_file(p).is_some() {
                    let ghost before = pairs_view(found@);
                    let lc = chars_of(l.as_str());
                    let pc = chars_of(p);
                    found.push((lc, pc));
                    assert(pairs_view(found@) =~= before.push((l@, p@)));
                }
            },
            None => {},
        }
        i = i + 1;
    }
    assert(pv.take(pv.len() as int) =~= pv);
    let sorted = sort_entries(found);
    let ghost sv = pairs_view(sorted@);
    let mut out: Vec<LocaleFile> = Vec::new();
    let mut j: usize = 0;
    assert(locales_view(out@) =~= Seq::<LocaleView>::empty());
    while j < sorted.len()
        invariant
            j <= sorted@.len(),
            sv == pairs_view(sorted@),
            sv == sort_by_key(locale_candidates(context.files@, pv)),
            pv == strings_view(context.project.files@),
            locales_view(out@) == sv.take(j as int).map_values(
                |p: (Seq<char>, Seq<char>)| (p.0, p.1, keys_of_file(context.files@, p.1)),
            ),
        decreases sorted@.len() - j,
    {
        let locale = string_of(&sorted[j].0);
        let file = string_of(&sorted[j].1);
        let keys = match context.read_file(file.as_str()) {
            Some(c) => extract_translation_keys(c.as_str()),
            None => Vec::new(),
        };
        assert(strings_view(keys@) == keys_of_file(context.files@, file@)) by {
            assert(strings_view(keys@) =~= keys@.map_values(|k: String| k@));
            if file_text(context.files@, file@) is None {
                assert(strings_view(keys@) =~= Seq::<Seq<char>>::empty());
            }
        }
        let lf = LocaleFile { locale, file, keys };
        let ghost before = locales_view(out@);
        out.push(lf);
        assert(locales_view(out@) =~= before.push(lf@));
        assert(sv.take(j + 1).map_values(
            |p: (Seq<char>, Seq<char>)| (p.0, p.1, keys_of_file(context.files@, p.1)),
        ) =~= sv.take(j as int).map_values(
            |p: (Seq<char>, Seq<char>)| (p.0, p.1, keys_of_file(context.files@, p.1)),
        ).push((sv[j as int].0, sv[j as int].1, keys_of_file(context.files@, sv[j as int].1))));
        j = j + 1;
    }
    assert(sv.take(sv.len() as int) =~= sv);
    out
}

} // verus!
