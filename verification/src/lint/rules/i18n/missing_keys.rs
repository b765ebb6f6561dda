//! Translation keys used in the sources must exist in every locale.
use vstd::prelude::*;

use crate::diagnostic::{diags_view, located, Diagnostic, DiagnosticCode, DiagnosticView};
use crate::doctor::evaluate::feature_on;
use crate::json::JsonValue;
use crate::lang::Lang;
use crate::lint::context::{all_coded, lemma_coded_concat, lemma_coded_push, file_text, files_fit, lemma_file_text_fits, lint_diag, ProjectFile, RuleContext};
use crate::lint::i18n::{calls_view, extract_translation_calls, translation_calls_of, KeyAt};
use crate::lint::rules::broken_alias_imports::holds_file;
use crate::lint::rules::i18n::locale_files::{collect_locale_files, locales_of, locales_view, LocaleFile, LocaleView};
use crate::lint::rules::i18n::source_files::{source_files, sources_of};
use crate::output::{strings_view, LintRuleSeverity};
use crate::text::{chars_of, str_eq};
use crate::utils::{char_line_column, line_column_of_char};

verus! {

/// A key reported missing from a locale in a file: the file, the key and
/// the locale.
pub type Reported = (Seq<char>, Seq<char>, Seq<char>);

/// The diagnostic for `key`, used at index `offset` of `content` (the text
/// of `file`), that locale file `l` lacks.
pub open spec fn missing_diag(
    locale: Lang,
    severity: LintRuleSeverity,
    file: Seq<char>,
    content: Seq<char>,
    key: Seq<char>,
    offset: int,
    l: LocaleView,
) -> DiagnosticView {
    let (line, column) = char_line_column(content, offset);
    located(
        lint_diag(
            locale,
            "i18n-missing-keys"@,
            severity,
            "i18n-missing-keys.message"@,
            seq![("key"@, key), ("locale"@, l.0), ("file"@, l.1)],
        ),
        file,
        line as u32,
        column as u32,
    )
}

/// One call of `key` at `offset` checked against `locales` in order: a
/// diagnostic for each locale that lacks the key, unless the same key was
/// already reported for a locale of that name in this file; with the
/// reports made so far.
pub open spec fn call_misses(
    locale: Lang,
    severity: LintRuleSeverity,
    file: Seq<char>,
    content: Seq<char>,
    key: Seq<char>,
    offset: int,
    locales: Seq<LocaleView>,
    reported: Seq<Reported>,
) -> (Seq<DiagnosticView>, Seq<Reported>)
    decreases locales.len(),
{
    if locales.len() == 0 {
        (Seq::empty(), reported)
    } else {
        let prev = call_misses(locale, severity, file, content, key, offset, locales.drop_last(), reported);
        let l = locales.last();
        if l.2.contains(key) || prev.1.contains((file, key, l.0)) {
            prev
        } else {
            (prev.0.push(missing_diag(locale, severity, file, content, key, offset, l)), prev.1.push((file, key, l.0)))
        }
    }
}

/// The calls of a file checked one after the other.
pub open spec fn calls_misses(
    locale: Lang,
    severity: LintRuleSeverity,
    file: Seq<char>,
    content: Seq<char>,
    calls: Seq<KeyAt>,
    locales: Seq<LocaleView>,
    reported: Seq<Reported>,
) -> (Seq<DiagnosticView>, Seq<Reported>)
    decreases calls.len(),
{
    if calls.len() == 0 {
        (Seq::empty(), reported)
    } else {
        let prev = calls_misses(locale, severity, file, content, calls.drop_last(), locales, reported);
        let c = calls.last();
        let next = call_misses(locale, severity, file, content, c.0, c.1, locales, prev.1);
        (prev.0 + next.0, next.1)
    }
}

/// The literal keys of the `sources` that were read, file after file.
pub open spec fn sources_misses(
    files: Seq<ProjectFile>,
    sources: Seq<Seq<char>>,
    locales: Seq<LocaleView>,
    locale: Lang,
    severity: LintRuleSeverity,
) -> (Seq<DiagnosticView>, Seq<Reported>)
    decreases sources.len(),
{
    if sources.len() == 0 {
        (Seq::empty(), Seq::empty())
    } else {
        let prev = sources_misses(files, sources.drop_last(), locales, locale, severity);
        let f = sources.last();
        match file_text(files, f) {
            Some(c) => {
                let next = calls_misses(locale, severity, f, c, translation_calls_of(c).0, locales, prev.1);
                (prev.0 + next.0, next.1)
            },
            None => prev,
        }
    }
}

/// Where the `i18n` feature is on and there are locale files: for each
/// literal key of the sources, in order, a diagnostic for each locale that
/// lacks it, a key being reported once per file and locale name.
pub open spec fn diagnostics_for(
    files: Seq<ProjectFile>,
    paths: Seq<Seq<char>>,
    config: Option<JsonValue>,
    locale: Lang,
    severity: LintRuleSeverity,
) -> Seq<DiagnosticView> {
    let locales = locales_of(files, paths);
    if feature_on(config, "i18n"@) && locales.len() > 0 {
        sources_misses(files, sources_of(paths), locales, locale, severity).0
    } else {
        Seq::empty()
    }
}

pub open spec fn reported_view(v: Seq<(String, String, String)>) -> Seq<Reported> {
    v.map_values(|r: (String, String, String)| (r.0@, r.1@, r.2@))
}

/// Whether `(file, key, locale)` was reported.
fn was_reported(v: &Vec<(String, String, String)>, file: &str, key: &str, locale: &str) -> (res: bool)
    ensures
        res == reported_view(v@).contains((file@, key@, locale@)),
{
    let mut i: usize = 0;
    while i < v.len()
        invariant
            i <= v@.len(),
            forall|j: int| 0 <= j < i ==> reported_view(v@)[j] != (file@, key@, locale@),
        decreases v@.len() - i,
    {
        if str_eq(v[i].0.as_str(), file) && str_eq(v[i].1.as_str(), key) && str_eq(v[i].2.as_str(), locale) {
            assert(reported_view(v@)[i as int] == (file@, key@, locale@));
            return true;
        }
        i = i + 1;
    }
    false
}

/// Checks one call against every locale.
fn check_call(
    context: &RuleContext,
    severity: LintRuleSeverity,
    file: &str,
    text: &Vec<char>,
    key: &str,
    offset: usize,
    locales: &Vec<LocaleFile>,
    out: &mut Vec<Diagnostic>,
    reported: &mut Vec<(String, String, String)>,
)
    requires
        text@.len() < u32::MAX,
    ensures
        diags_view(final(out)@) == diags_view(old(out)@) + call_misses(
            context.locale,
            severity,
            file@,
            text@,
            key@,
            offset as int,
            locales_view(locales@),
            reported_view(old(reported)@),
        ).0,
        reported_view(final(reported)@) == call_misses(
            context.locale,
            severity,
            file@,
            text@,
            key@,
            offset as int,
            locales_view(locales@),
            reported_view(old(reported)@),
        ).1,
{
    let ghost lv = locales_view(locales@);
    let ghost o0 = diags_view(out@);
    let ghost r0 = reported_view(reported@);
    let keyc = chars_of(key);
    let mut k: usize = 0;
    assert(lv.take(0) =~= Seq::<LocaleView>::empty());
    assert(o0 + Seq::<DiagnosticView>::empty() =~= o0);
    proof {
        reveal_strlit("key");
        reveal_strlit("locale");
        reveal_strlit("file");
    }
    while k < locales.len()
        invariant
            k <= locales@.len(),
            lv == locales_view(locales@),
            text@.len() < u32::MAX,
            keyc@ == key@,
            diags_view(out@) == o0 + call_misses(context.locale, severity, file@, text@, key@, offset as int, lv.take(k as int), r0).0,
            reported_view(reported@) == call_misses(context.locale, severity, file@, text@, key@, offset as int, lv.take(k as int), r0).1,
        decreases locales@.len() - k,
    {
        let l = &locales[k];
        assert(lv.take(k + 1).drop_last() =~= lv.take(k as int));
        assert(lv.take(k + 1).last() == l@);
        let known = holds_file(&l.keys, &keyc);
        if !known && !was_reported(reported, file, key, l.locale.as_str()) {
            let (line, column) = line_column_of_char(text, offset);
            let args = [("key", key), ("locale", l.locale.as_str()), ("file", l.file.as_str())];
            assert(crate::lang::args_view(args@) =~= seq![("key"@, key@), ("locale"@, l.locale@), ("file"@, l.file@)]);
            let d = context.diagnostic(
                DiagnosticCode::PATTO_LINT_I18N_MISSING_KEYS,
                severity,
                "i18n-missing-keys.message",
                &args,
            ).with_location(file, line, column);
            let ghost before = diags_view(out@);
            out.push(d);
            assert(diags_view(out@) =~= before.push(d@));
            let ghost rb = reported_view(reported@);
            reported.push((file.to_owned(), key.to_owned(), l.locale.clone()));
            assert(reported_view(reported@) =~= rb.push((file@, key@, l.locale@)));
        }
        k = k + 1;
    }
    assert(lv.take(lv.len() as int) =~= lv);
}

/// Reports the literal keys that a locale lacks.
pub fn run(context: &RuleContext, severity: LintRuleSeverity) -> (res: Vec<Diagnostic>)
    requires
        files_fit(context.files@),
    ensures
        diags_view(res@) == diagnostics_for(
            context.files@,
            strings_view(context.project.files@),
            context.project.config_json,
            context.locale,
            severity,
        ),
{
    let mut out: Vec<Diagnostic> = Vec::new();
    if !context.feature_enabled("i18n") {
        assert(diags_view(out@) =~= Seq::<DiagnosticView>::empty());
        return out;
    }
    let locales = collect_locale_files(context);
    if locales.len() == 0 {
        assert(diags_view(out@) =~= Seq::<DiagnosticView>::empty());
        return out;
    }
    let ghost lv = locales_view(locales@);
    let mut reported: Vec<(String, String, String)> = Vec::new();
    let sources = source_files(context);
    let ghost sv = strings_view(sources@);
    let mut i: usize = 0;
    assert(sv.take(0) =~= Seq::<Seq<char>>::empty());
    assert(diags_view(out@) =~= Seq::<DiagnosticView>::empty());
    assert(reported_view(reported@) =~= Seq::<Reported>::empty());
    while i < sources.len()
        invariant
            i <= sources@.len(),
            sv == strings_view(sources@),
            lv == locales_view(locales@),
            files_fit(context.files@),
            diags_view(out@) == sources_misses(context.files@, sv.take(i as int), lv, context.locale, severity).0,
            reported_view(reported@) == sources_misses(context.files@, sv.take(i as int), lv, context.locale, severity).1,
        decreases sources@.len() - i,
    {
        let file = sources[i].as_str();
        assert(sv.take(i + 1).drop_last() =~= sv.take(i as int));
        assert(sv.take(i + 1).last() == file@);
        proof {
            lemma_file_text_fits(context.files@, file@);
        }
        match context.read_file(file) {
            Some(content) => {
                let text = chars_of(content.as_str());
                let calls = extract_translation_calls(content.as_str());
                let list = &calls.static_calls;
                let ghost cv = calls_view(list@);
                let ghost o0 = diags_view(out@);
                let ghost r0 = reported_view(reported@);
                let mut j: usize = 0;
                assert(cv.take(0) =~= Seq::<KeyAt>::empty());
                assert(o0 + Seq::<DiagnosticView>::empty() =~= o0);
                while j < list.len()
                    invariant
                        j <= list@.len(),
                        cv == calls_view(list@),
                        cv == translation_calls_of(content@).0,
                        lv == locales_view(locales@),
                        text@ == content@,
                        text@.len() < u32::MAX,
                        diags_view(out@) == o0 + calls_misses(context.locale, severity, file@, content@, cv.take(j as int), lv, r0).0,
                        reported_view(reported@) == calls_misses(context.locale, severity, file@, content@, cv.take(j as int), lv, r0).1,
                    decreases list@.len() - j,
                {
                    assert(cv.take(j + 1).drop_last() =~= cv.take(j as int));
                    assert(cv.take(j + 1).last() == (list@[j as int].key@, list@[j as int].offset as int));
                    let ghost ob = diags_view(out@);
                    check_call(
                        context,
                        severity,
                        file,
                        &text,
                        list[j].key.as_str(),
                        list[j].offset,
                        &locales,
                        &mut out,
                        &mut reported,
                    );
                    proof {
                        let prev = calls_misses(context.locale, severity, file@, content@, cv.take(j as int), lv, r0);
                        assert(ob == o0 + prev.0);
                        let next = call_misses(context.locale, severity, file@, content@, list@[j as int].key@, list@[j as int].offset as int, lv, prev.1);
                        assert(diags_view(out@) =~= o0 + (prev.0 + next.0));
                    }
                    j = j + 1;
                }
                assert(cv.take(cv.len() as int) =~= cv);
                proof {
                    let prev = sources_misses(context.files@, sv.take(i as int), lv, context.locale, severity);
                    let next = calls_misses(context.locale, severity, file@, content@, cv, lv, prev.1);
                    assert(diags_view(out@) =~= prev.0 + next.0);
                }
            },
            None => {},
        }
        i = i + 1;
    }
    assert(sv.take(sv.len() as int) =~= sv);
    out
}

pub proof fn lemma_call_codes(
    locale: Lang,
    severity: LintRuleSeverity,
    file: Seq<char>,
    content: Seq<char>,
    key: Seq<char>,
    offset: int,
    locales: Seq<LocaleView>,
    reported: Seq<Reported>,
)
    ensures
        all_coded(call_misses(locale, severity, file, content, key, offset, locales, reported).0, "i18n-missing-keys"@, severity),
    decreases locales.len(),
{
    if locales.len() > 0 {
        lemma_call_codes(locale, severity, file, content, key, offset, locales.drop_last(), reported);
        let prev = call_misses(locale, severity, file, content, key, offset, locales.drop_last(), reported);
        let res = call_misses(locale, severity, file, content, key, offset, locales, reported);
        if res.0 != prev.0 {
            lemma_coded_push(prev.0, res.0.last(), "i18n-missing-keys"@, severity);
            assert(res.0 =~= prev.0.push(res.0.last()));
        }
    }
}

pub proof fn lemma_calls_codes(
    locale: Lang,
    severity: LintRuleSeverity,
    file: Seq<char>,
    content: Seq<char>,
    calls: Seq<KeyAt>,
    locales: Seq<LocaleView>,
    reported: Seq<Reported>,
)
    ensures
        all_coded(calls_misses(locale, severity, file, content, calls, locales, reported).0, "i18n-missing-keys"@, severity),
    decreases calls.len(),
{
    if calls.len() > 0 {
        lemma_calls_codes(locale, severity, file, content, calls.drop_last(), locales, reported);
        let prev = calls_misses(locale, severity, file, content, calls.drop_last(), locales, reported);
        let c = calls.last();
        lemma_call_codes(locale, severity, file, content, c.0, c.1, locales, prev.1);
        lemma_coded_concat(
            prev.0,
            call_misses(locale, severity, file, content, c.0, c.1, locales, prev.1).0,
            "i18n-missing-keys"@,
            severity,
        );
    }
}

pub proof fn lemma_sources_codes(
    files: Seq<ProjectFile>,
    sources: Seq<Seq<char>>,
    locales: Seq<LocaleView>,
    locale: Lang,
    severity: LintRuleSeverity,
)
    ensures
        all_coded(sources_misses(files, sources, locales, locale, severity).0, "i18n-missing-keys"@, severity),
    decreases sources.len(),
{
    if sources.len() > 0 {
        lemma_sources_codes(files, sources.drop_last(), locales, locale, severity);
        let prev = sources_misses(files, sources.drop_last(), locales, locale, severity);
        let f = sources.last();
        match file_text(files, f) {
            Some(c) => {
                lemma_calls_codes(locale, severity, f, c, translation_calls_of(c).0, locales, prev.1);
                lemma_coded_concat(
                    prev.0,
                    calls_misses(locale, severity, f, c, translation_calls_of(c).0, locales, prev.1).0,
                    "i18n-missing-keys"@,
                    severity,
                );
            },
            None => {},
        }
    }
}

/// Each diagnostic of the rule has the rule's code and the level of
/// `severity`.
pub proof fn lemma_codes(
    files: Seq<ProjectFile>,
    paths: Seq<Seq<char>>,
    config: Option<JsonValue>,
    locale: Lang,
    severity: LintRuleSeverity,
)
    ensures
        all_coded(diagnostics_for(files, paths, config, locale, severity), "i18n-missing-keys"@, severity),
{
    lemma_sources_codes(files, sources_of(paths), locales_of(files, paths), locale, severity);
}

} // verus!
