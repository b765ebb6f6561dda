//! The `features` of the project configuration: an object whose members are
//! known features set to booleans.
use vstd::prelude::*;

use crate::diagnostic::{diags_view, Diagnostic, DiagnosticCode, DiagnosticView};
use crate::json::{json_get, JsonValue};
use crate::lang::Lang;
use crate::lint::context::{all_coded, lemma_coded_push, lint_diag, placed, text_loc, ProjectFile, RuleContext};
use crate::output::LintRuleSeverity;

verus! {

/// Where the project configuration lives.
pub open spec fn config_file() -> Seq<char> {
    ".patto/config.json"@
}

/// The features the configuration may set.
pub open spec fn known_feature(name: Seq<char>) -> bool {
    name == "i18n"@
}

/// A diagnostic of this rule placed where `marker` first occurs in the
/// configuration file, or at its start.
pub open spec fn feature_diag(
    files: Seq<ProjectFile>,
    locale: Lang,
    severity: LintRuleSeverity,
    key: Seq<char>,
    args: Seq<(Seq<char>, Seq<char>)>,
    marker: Seq<char>,
) -> DiagnosticView {
    placed(lint_diag(locale, "feature-config"@, severity, key, args), config_file(), text_loc(files, config_file(), marker))
}

/// For each member of `features`, in order: a diagnostic when the feature is
/// unknown, else one when its value is not a boolean.
pub open spec fn member_diags(
    files: Seq<ProjectFile>,
    features: Seq<(String, JsonValue)>,
    locale: Lang,
    severity: LintRuleSeverity,
) -> Seq<DiagnosticView>
    decreases features.len(),
{
    if features.len() == 0 {
        Seq::empty()
    } else {
        let prev = member_diags(files, features.drop_last(), locale, severity);
        let name = features.last().0@;
        if !known_feature(name) {
            prev.push(
                feature_diag(
                    files,
                    locale,
                    severity,
                    "feature-config.unknown.message"@,
                    seq![("feature"@, name)],
                    name,
                ),
            )
        } else if !(features.last().1 is Bool) {
            prev.push(
                feature_diag(
                    files,
                    locale,
                    severity,
                    "feature-config.non-boolean.message"@,
                    seq![("feature"@, name)],
                    name,
                ),
            )
        } else {
            prev
        }
    }
}

/// Nothing without a configuration or without `features`; one diagnostic,
/// at `features`, when it is not an object; else those of its members.
pub open spec fn diagnostics_for(
    files: Seq<ProjectFile>,
    config: Option<JsonValue>,
    locale: Lang,
    severity: LintRuleSeverity,
) -> Seq<DiagnosticView> {
    match config {
        None => Seq::empty(),
        Some(c) => match json_get(c, "features"@) {
            None => Seq::empty(),
            Some(JsonValue::Object(members)) => member_diags(files, members@, locale, severity),
            Some(_) => seq![
                feature_diag(
                    files,
                    locale,
                    severity,
                    "feature-config.invalid-shape.message"@,
                    Seq::empty(),
                    "features"@,
                ),
            ],
        },
    }
}

/// `d` placed where `marker` first occurs in the configuration file, or at
/// its start.
fn at_config_marker(context: &RuleContext, d: Diagnostic, marker: &str) -> (res: Diagnostic)
    ensures
        res@ == placed(d@, config_file(), text_loc(context.files@, config_file(), marker@)),
{
    match context.location_for_text(".patto/config.json", marker) {
        Some((line, column)) => d.with_location(".patto/config.json", line, column),
        None => d.with_location(".patto/config.json", 1, 1),
    }
}

/// Reports the malformed, unknown and non-boolean features.
pub fn run(context: &RuleContext, severity: LintRuleSeverity) -> (res: Vec<Diagnostic>)
    ensures
        diags_view(res@) == diagnostics_for(
            context.files@,
            context.project.config_json,
            context.locale,
            severity,
        ),
{
    let mut out: Vec<Diagnostic> = Vec::new();
    let config = match &context.project.config_json {
        Some(c) => c,
        None => {
            assert(diags_view(out@) =~= Seq::<DiagnosticView>::empty());
            return out;
        },
    };
    let features = match config.get("features") {
        Some(f) => f,
        None => {
            assert(diags_view(out@) =~= Seq::<DiagnosticView>::empty());
            return out;
        },
    };
    let members = match features {
        JsonValue::Object(m) => m,
        _ => {
            let d = context.diagnostic(
                DiagnosticCode::PATTO_LINT_FEATURE_CONFIG,
                severity,
                "feature-config.invalid-shape.message",
                &[],
            );
            proof {
                assert(crate::lang::args_view(Seq::<(&str, &str)>::empty()) =~= Seq::<(Seq<char>, Seq<char>)>::empty());
            }
            let d = at_config_marker(context, d, "features");
            out.push(d);
            assert(diags_view(out@) =~= seq![d@]);
            return out;
        },
    };
    let mut i: usize = 0;
    assert(members@.take(0) =~= Seq::<(String, JsonValue)>::empty());
    assert(diags_view(out@) =~= Seq::<DiagnosticView>::empty());
    proof {
        reveal_strlit("feature");
    }
    while i < members.len()
        invariant
            i <= members@.len(),
            json_get(*config, "features"@) == Some(JsonValue::Object(*members)),
            context.project.config_json == Some(*config),
            diags_view(out@) == member_diags(context.files@, members@.take(i as int), context.locale, severity),
        decreases members@.len() - i,
    {
        let name = members[i].0.as_str();
        assert(members@.take(i + 1).drop_last() =~= members@.take(i as int));
        assert(members@.take(i + 1).last() == members@[i as int]);
        let known = crate::text::str_eq(name, "i18n");
        let key = if !known {
            Some("feature-config.unknown.message")
        } else {
            match &members[i].1 {
                JsonValue::Bool(_) => None,
                _ => Some("feature-config.non-boolean.message"),
            }
        };
        match key {
            Some(k) => {
                let args = [("feature", name)];
                assert(crate::lang::args_view(args@) =~= seq![("feature"@, name@)]);
                let d = context.diagnostic(DiagnosticCode::PATTO_LINT_FEATURE_CONFIG, severity, k, &args);
                let d = at_config_marker(context, d, name);
                let ghost before = diags_view(out@);
                out.push(d);
                assert(diags_view(out@) =~= before.push(d@));
            },
            None => {},
        }
        i = i + 1;
    }
    assert(members@.take(members@.len() as int) =~= members@);
    out
}

pub proof fn lemma_member_codes(
    files: Seq<ProjectFile>,
    features: Seq<(String, JsonValue)>,
    locale: Lang,
    severity: LintRuleSeverity,
)
    ensures
        all_coded(member_diags(files, features, locale, severity), "feature-config"@, severity),
    decreases features.len(),
{
    if features.len() > 0 {
        lemma_member_codes(files, features.drop_last(), locale, severity);
        let prev = member_diags(files, features.drop_last(), locale, severity);
        let res = member_diags(files, features, locale, severity);
        if res != prev {
            lemma_coded_push(prev, res.last(), "feature-config"@, severity);
            assert(res =~= prev.push(res.last()));
        }
    }
}

/// Each diagnostic of the rule has the rule's code and the level of
/// `severity`.
pub proof fn lemma_codes(files: Seq<ProjectFile>, config: Option<JsonValue>, locale: Lang, severity: LintRuleSeverity)
    ensures
        all_coded(diagnostics_for(files, config, locale, severity), "feature-config"@, severity),
{
    match config {
        Some(c) => match json_get(c, "features"@) {
            Some(JsonValue::Object(members)) => lemma_member_codes(files, members@, locale, severity),
            _ => {},
        },
        None => {},
    }
}

} // verus!
