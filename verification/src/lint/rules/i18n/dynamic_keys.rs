//! Translation keys should be literals or typed as translation keys.
use vstd::prelude::*;

use crate::diagnostic::{diags_view, located, Diagnostic, DiagnosticCode, DiagnosticView};
use crate::doctor::evaluate::feature_on;
use crate::json::JsonValue;
use crate::lang::Lang;
use crate::lint::context::{all_coded, lemma_coded_concat, lemma_coded_push, file_text, files_fit, lemma_file_text_fits, lint_diag, ProjectFile, RuleContext};
use crate::lint::i18n::{extract_translation_calls, offsets_view, translation_calls_of};
use crate::lint::rules::i18n::source_files::{source_files, sources_of};
use crate::output::{strings_view, LintRuleSeverity};
use crate::text::chars_of;
use crate::utils::{char_line_column, line_column_of_char};

verus! {

/// The diagnostic for a key that starts at index `offset` of `content`, the
/// text of `file`.
pub open spec fn dynamic_diag(
    locale: Lang,
    severity: LintRuleSeverity,
    file: Seq<char>,
    content: Seq<char>,
    offset: int,
) -> DiagnosticView {
    let (line, column) = char_line_column(content, offset);
    located(
        lint_diag(locale, "i18n-dynamic-keys"@, severity, "i18n-dynamic-keys.message"@, Seq::empty()),
        file,
        line as u32,
        column as u32,
    )
}

/// One diagnostic for each of `offsets`, in order.
pub open spec fn offset_diags(
    locale: Lang,
    severity: LintRuleSeverity,
    file: Seq<char>,
    content: Seq<char>,
    offsets: Seq<int>,
) -> Seq<DiagnosticView>
    decreases offsets.len(),
{
    if offsets.len() == 0 {
        Seq::empty()
    } else {
        offset_diags(locale, severity, file, content, offsets.drop_last()).push(
            dynamic_diag(locale, severity, file, content, offsets.last()),
        )
    }
}

/// For each of `sources` that was read, in order, the diagnostics of its
/// dynamic keys.
pub open spec fn sources_diags(
    files: Seq<ProjectFile>,
    sources: Seq<Seq<char>>,
    locale: Lang,
    severity: LintRuleSeverity,
) -> Seq<DiagnosticView>
    decreases sources.len(),
{
    if sources.len() == 0 {
        Seq::empty()
    } else {
        let prev = sources_diags(files, sources.drop_last(), locale, severity);
        let f = sources.last();
        match file_text(files, f) {
            Some(c) => prev + offset_diags(locale, severity, f, c, translation_calls_of(c).1),
            None => prev,
        }
    }
}

/// Where the `i18n` feature is on: a diagnostic at each key of the sources
/// that is neither a literal nor typed as a translation key.
pub open spec fn diagnostics_for(
    files: Seq<ProjectFile>,
    paths: Seq<Seq<char>>,
    config: Option<JsonValue>,
    locale: Lang,
    severity: LintRuleSeverity,
) -> Seq<DiagnosticView> {
    if feature_on(config, "i18n"@) {
        sources_diags(files, sources_of(paths), locale, severity)
    } else {
        Seq::empty()
    }
}

/// Reports the translation keys that are neither literals nor typed.
pub fn run(context: &RuleContext, severity: LintRuleSeverity) -> (res: Vec<Diagnostic>)
    requires
        files_fit(context.files@),
    ensures
        diags_view(res@) == diagnostics_for(
            context.files@,
            strings_view(context.project.files@),
            context.project.config_json,
            context.locale,
            severity,
        ),
{
    let mut out: Vec<Diagnostic> = Vec::new();
    if !context.feature_enabled("i18n") {
        assert(diags_view(out@) =~= Seq::<DiagnosticView>::empty());
        return out;
    }
    let sources = source_files(context);
    let ghost sv = strings_view(sources@);
    let mut i: usize = 0;
    assert(sv.take(0) =~= Seq::<Seq<char>>::empty());
    assert(diags_view(out@) =~= Seq::<DiagnosticView>::empty());
    while i < sources.len()
        invariant
            i <= sources@.len(),
            sv == strings_view(sources@),
            files_fit(context.files@),
            diags_view(out@) == sources_diags(context.files@, sv.take(i as int), context.locale, severity),
        decreases sources@.len() - i,
    {
        let file = sources[i].as_str();
        assert(sv.take(i + 1).drop_last() =~= sv.take(i as int));
        assert(sv.take(i + 1).last() == file@);
        proof {
            lemma_file_text_fits(context.files@, file@);
        }
        match context.read_file(file) {
            Some(content) => {
                let text = chars_of(content.as_str());
                let calls = extract_translation_calls(content.as_str());
                let offsets = &calls.dynamic_offsets;
                let ghost ov = offsets_view(offsets@);
                let ghost o0 = diags_view(out@);
                let mut j: usize = 0;
                assert(ov.take(0) =~= Seq::<int>::empty());
                assert(o0 + Seq::<DiagnosticView>::empty() =~= o0);
                while j < offsets.len()
                    invariant
                        j <= offsets@.len(),
                        ov == offsets_view(offsets@),
                        ov == translation_calls_of(content@).1,
                        text@ == content@,
                        text@.len() < u32::MAX,
                        diags_view(out@) == o0 + offset_diags(context.locale, severity, file@, content@, ov.take(j as int)),
                    decreases offsets@.len() - j,
                {
                    assert(ov.take(j + 1).drop_last() =~= ov.take(j as int));
                    assert(ov.take(j + 1).last() == offsets@[j as int] as int);
                    let (line, column) = line_column_of_char(&text, offsets[j]);
                    let d = context.diagnostic(
                        DiagnosticCode::PATTO_LINT_I18N_DYNAMIC_KEYS,
                        severity,
                        "i18n-dynamic-keys.message",
                        &[],
                    );
                    proof {
                        assert(crate::lang::args_view(Seq::<(&str, &str)>::empty()) =~= Seq::<(Seq<char>, Seq<char>)>::empty());
                    }
                    let d = d.with_location(file, line, column);
                    let ghost before = diags_view(out@);
                    out.push(d);
                    assert(diags_view(out@) =~= before.push(d@));
                    j = j + 1;
                }
                assert(ov.take(ov.len() as int) =~= ov);
            },
            None => {},
        }
        i = i + 1;
    }
    assert(sv.take(sv.len() as int) =~= sv);
    out
}

pub proof fn lemma_offset_codes(
    locale: Lang,
    severity: LintRuleSeverity,
    file: Seq<char>,
    content: Seq<char>,
    offsets: Seq<int>,
)
    ensures
        all_coded(offset_diags(locale, severity, file, content, offsets), "i18n-dynamic-keys"@, severity),
    decreases offsets.len(),
{
    if offsets.len() > 0 {
        lemma_offset_codes(locale, severity, file, content, offsets.drop_last());
        lemma_coded_push(
            offset_diags(locale, severity, file, content, offsets.drop_last()),
            dynamic_diag(locale, severity, file, content, offsets.last()),
            "i18n-dynamic-keys"@,
            severity,
        );
    }
}

pub proof fn lemma_sources_codes(
    files: Seq<ProjectFile>,
    sources: Seq<Seq<char>>,
    locale: Lang,
    severity: LintRuleSeverity,
)
    ensures
        all_coded(sources_diags(files, sources, locale, severity), "i18n-dynamic-keys"@, severity),
    decreases sources.len(),
{
    if sources.len() > 0 {
        lemma_sources_codes(files, sources.drop_last(), locale, severity);
        let f = sources.last();
        match file_text(files, f) {
            Some(c) => {
                lemma_offset_codes(locale, severity, f, c, translation_calls_of(c).1);
                lemma_coded_concat(
                    sources_diags(files, sources.drop_last(), locale, severity),
                    offset_diags(locale, severity, f, c, translation_calls_of(c).1),
                    "i18n-dynamic-keys"@,
                    severity,
                );
            },
            None => {},
        }
    }
}

/// Each diagnostic of the rule has the rule's code and the level of
/// `severity`.
pub proof fn lemma_codes(
    files: Seq<ProjectFile>,
    paths: Seq<Seq<char>>,
    config: Option<JsonValue>,
    locale: Lang,
    severity: LintRuleSeverity,
)
    ensures
        all_coded(diagnostics_for(files, paths, config, locale, severity), "i18n-dynamic-keys"@, severity),
{
    lemma_sources_codes(files, sources_of(paths), locale, severity);
}

} // verus!
