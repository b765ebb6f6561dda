//! Every locale should declare the keys that any other locale declares.
use vstd::prelude::*;

use crate::diagnostic::{diags_view, located, Diagnostic, DiagnosticCode, DiagnosticView};
use crate::doctor::evaluate::feature_on;
use crate::json::JsonValue;
use crate::lang::Lang;
use crate::lint::context::{all_coded, lemma_coded_concat, lemma_coded_push, lint_diag, ProjectFile, RuleContext};
use crate::lint::rules::broken_alias_imports::{dedup_adjacent, holds_file, sorted_distinct};
use crate::lint::rules::i18n::locale_files::{collect_locale_files, locales_of, locales_view, LocaleView};
use crate::output::{strings_view, LintRuleSeverity};
use crate::text::chars_of;
use crate::utils::sorted_texts;

verus! {

/// The keys of `locales`, locale after locale.
pub open spec fn keys_concat(locales: Seq<LocaleView>) -> Seq<Seq<char>>
    decreases locales.len(),
{
    if locales.len() == 0 {
        Seq::empty()
    } else {
        keys_concat(locales.drop_last()) + locales.last().2
    }
}

/// Every key some locale declares, sorted, each once.
pub open spec fn all_keys(locales: Seq<LocaleView>) -> Seq<Seq<char>> {
    dedup_adjacent(sorted_texts(keys_concat(locales)))
}

/// A diagnostic, at the start of the locale file, for each of `keys` that
/// the locale `l` lacks, in order.
pub open spec fn lacking(
    locale: Lang,
    severity: LintRuleSeverity,
    l: LocaleView,
    keys: Seq<Seq<char>>,
) -> Seq<DiagnosticView>
    decreases keys.len(),
{
    if keys.len() == 0 {
        Seq::empty()
    } else {
        let prev = lacking(locale, severity, l, keys.drop_last());
        let k = keys.last();
        if l.2.contains(k) {
            prev
        } else {
            prev.push(
                located(
                    lint_diag(
                        locale,
                        "i18n-locale-parity"@,
                        severity,
                        "i18n-locale-parity.message"@,
                        seq![("key"@, k), ("locale"@, l.0)],
                    ),
                    l.1,
                    1,
                    1,
                ),
            )
        }
    }
}

/// The missing keys of each of `locales`, locale after locale.
pub open spec fn parity_diags(
    locale: Lang,
    severity: LintRuleSeverity,
    locales: Seq<LocaleView>,
    keys: Seq<Seq<char>>,
) -> Seq<DiagnosticView>
    decreases locales.len(),
{
    if locales.len() == 0 {
        Seq::empty()
    } else {
        parity_diags(locale, severity, locales.drop_last(), keys) + lacking(
            locale,
            severity,
            locales.last(),
            keys,
        )
    }
}

/// Where the `i18n` feature is on and there are two locale files or more:
/// for each locale, in order, a diagnostic for each key (sorted) that
/// another locale declares and it lacks.
pub open spec fn diagnostics_for(
    files: Seq<ProjectFile>,
    paths: Seq<Seq<char>>,
    config: Option<JsonValue>,
    locale: Lang,
    severity: LintRuleSeverity,
) -> Seq<DiagnosticView> {
    let locales = locales_of(files, paths);
    if feature_on(config, "i18n"@) && locales.len() >= 2 {
        parity_diags(locale, severity, locales, all_keys(locales))
    } else {
        Seq::empty()
    }
}

/// Reports the keys a locale lacks that another declares.
pub fn run(context: &RuleContext, severity: LintRuleSeverity) -> (res: Vec<Diagnostic>)
    ensures
        diags_view(res@) == diagnostics_for(
            context.files@,
            strings_view(context.project.files@),
            context.project.config_json,
            context.locale,
            severity,
        ),
{
    let mut out: Vec<Diagnostic> = Vec::new();
    if !context.feature_enabled("i18n") {
        assert(diags_view(out@) =~= Seq::<DiagnosticView>::empty());
        return out;
    }
    let locales = collect_locale_files(context);
    if locales.len() < 2 {
        assert(diags_view(out@) =~= Seq::<DiagnosticView>::empty());
        return out;
    }
    let ghost lv = locales_view(locales@);
    let mut every: Vec<String> = Vec::new();
    let mut i: usize = 0;
    assert(lv.take(0) =~= Seq::<LocaleView>::empty());
    assert(strings_view(every@) =~= Seq::<Seq<char>>::empty());
    while i < locales.len()
        invariant
            i <= locales@.len(),
            lv == locales_view(locales@),
            strings_view(every@) == keys_concat(lv.take(i as int)),
        decreases locales@.len() - i,
    {
        assert(lv.take(i + 1).drop_last() =~= lv.take(i as int));
        assert(lv.take(i + 1).last() == locales@[i as int]@);
        let keys = &locales[i].keys;
        let ghost e0 = strings_view(every@);
        let mut j: usize = 0;
        assert(e0 + strings_view(keys@).take(0) =~= e0);
        while j < keys.len()
            invariant
                j <= keys@.len(),
                strings_view(every@) == e0 + strings_view(keys@).take(j as int),
            decreases keys@.len() - j,
        {
            let k = keys[j].clone();
            let ghost before = strings_view(every@);
            every.push(k);
            assert(strings_view(every@) =~= before.push(k@));
            assert(e0 + strings_view(keys@).take(j + 1) =~= (e0 + strings_view(keys@).take(j as int)).push(k@));
            j = j + 1;
        }
        assert(strings_view(keys@).take(keys@.len() as int) =~= strings_view(keys@));
        i = i + 1;
    }
    assert(lv.take(lv.len() as int) =~= lv);
    let union = sorted_distinct(every);
    let ghost uv = strings_view(union@);
    assert(uv == all_keys(lv));
    proof {
        reveal_strlit("key");
        reveal_strlit("locale");
    }
    let mut a: usize = 0;
    assert(diags_view(out@) =~= Seq::<DiagnosticView>::empty());
    while a < locales.len()
        invariant
            a <= locales@.len(),
            lv == locales_view(locales@),
            uv == strings_view(union@),
            diags_view(out@) == parity_diags(context.locale, severity, lv.take(a as int), uv),
        decreases locales@.len() - a,
    {
        let l = &locales[a];
        assert(lv.take(a + 1).drop_last() =~= lv.take(a as int));
        assert(lv.take(a + 1).last() == l@);
        let ghost o0 = diags_view(out@);
        let mut b: usize = 0;
        assert(uv.take(0) =~= Seq::<Seq<char>>::empty());
        assert(o0 + Seq::<DiagnosticView>::empty() =~= o0);
        while b < union.len()
            invariant
                b <= union@.len(),
                uv == strings_view(union@),
                diags_view(out@) == o0 + lacking(context.locale, severity, l@, uv.take(b as int)),
            decreases union@.len() - b,
        {
            let key = union[b].as_str();
            assert(uv.take(b + 1).drop_last() =~= uv.take(b as int));
            assert(uv.take(b + 1).last() == key@);
            let kc = chars_of(key);
            if !holds_file(&l.keys, &kc) {
                let args = [("key", key), ("locale", l.locale.as_str())];
                assert(crate::lang::args_view(args@) =~= seq![("key"@, key@), ("locale"@, l.locale@)]);
                let d = context.diagnostic(
                    DiagnosticCode::PATTO_LINT_I18N_LOCALE_PARITY,
                    severity,
                    "i18n-locale-parity.message",
                    &args,
                ).with_location(l.file.as_str(), 1, 1);
                let ghost before = diags_view(out@);
                out.push(d);
                assert(diags_view(out@) =~= before.push(d@));
            }
            b = b + 1;
        }
        assert(uv.take(uv.len() as int) =~= uv);
        a = a + 1;
    }
    assert(lv.take(lv.len() as int) =~= lv);
    out
}

pub proof fn lemma_lacking_codes(
    locale: Lang,
    severity: LintRuleSeverity,
    l: LocaleView,
    keys: Seq<Seq<char>>,
)
    ensures
        all_coded(lacking(locale, severity, l, keys), "i18n-locale-parity"@, severity),
    decreases keys.len(),
{
    if keys.len() > 0 {
        lemma_lacking_codes(locale, severity, l, keys.drop_last());
        let prev = lacking(locale, severity, l, keys.drop_last());
        let res = lacking(locale, severity, l, keys);
        if res != prev {
            lemma_coded_push(prev, res.last(), "i18n-locale-parity"@, severity);
            assert(res =~= prev.push(res.last()));
        }
    }
}

pub proof fn lemma_parity_codes(
    locale: Lang,
    severity: LintRuleSeverity,
    locales: Seq<LocaleView>,
    keys: Seq<Seq<char>>,
)
    ensures
        all_coded(parity_diags(locale, severity, locales, keys), "i18n-locale-parity"@, severity),
    decreases locales.len(),
{
    if locales.len() > 0 {
        lemma_parity_codes(locale, severity, locales.drop_last(), keys);
        lemma_lacking_codes(locale, severity, locales.last(), keys);
        lemma_coded_concat(
            parity_diags(locale, severity, locales.drop_last(), keys),
            lacking(locale, severity, locales.last(), keys),
            "i18n-locale-parity"@,
            severity,
        );
    }
}

/// Each diagnostic of the rule has the rule's code and the level of
/// `severity`.
pub proof fn lemma_codes(
    files: Seq<ProjectFile>,
    paths: Seq<Seq<char>>,
    config: Option<JsonValue>,
    locale: Lang,
    severity: LintRuleSeverity,
)
    ensures
        all_coded(diagnostics_for(files, paths, config, locale, severity), "i18n-locale-parity"@, severity),
{
    let locales = locales_of(files, paths);
    lemma_parity_codes(locale, severity, locales, all_keys(locales));
}

} // verus!
