//! The lint command: its rules, what they read, and its output.
pub mod config;
pub mod context;
pub mod i18n;
pub mod rules;

use vstd::prelude::*;

use crate::diagnostic::{append_all, diags_view, Diagnostic, DiagnosticLevel, DiagnosticView};
use crate::doctor::evaluate::{count_level, diagnostics_at};
use crate::lang::Lang;
use crate::lint::config::{invalid_severities, law_rule_ids_distinct, level_of, overrides_of, resolve_rule_config, rule_id, rules_in_order, settings_of, severity_in, LintRule};
use crate::lint::context::{file_text, files_fit, ProjectFile, RuleContext};
use crate::lint::rules::{enabled_diagnostics, from_enabled_rule, lemma_enabled_codes, rules_can_run, run_enabled_rules};
use crate::output::{LintCommandOutput, LintRuleSetting, LintRuleSeverity, LintSummary, OutputStats, OutputStatus};
use crate::project::scanner::ProjectScan;

verus! {

/// What the lint of a project found: its diagnostics and the setting of
/// every rule.
pub struct LintEvaluation {
    pub diagnostics: Vec<Diagnostic>,
    pub rules: Vec<LintRuleSetting>,
}

/// The severities the project's configuration gives the rules.
pub open spec fn configured_overrides(project: ProjectScan) -> Seq<(LintRule, LintRuleSeverity)> {
    overrides_of(project.config_json, rules_in_order())
}

/// The project can be linted: see `rules_can_run`.
pub open spec fn lint_can_run(project: ProjectScan, files: Seq<ProjectFile>) -> bool {
    rules_can_run(files, configured_overrides(project))
}

/// What the lint reports: the configured severities that name no
/// severity, then what the rules that are not off report.
pub open spec fn lint_diagnostics(project: ProjectScan, files: Seq<ProjectFile>, locale: Lang) -> Seq<DiagnosticView> {
    invalid_severities(
        locale,
        project.config_json,
        file_text(files, ".patto/config.json"@),
        rules_in_order(),
    ) + enabled_diagnostics(files, project, locale, configured_overrides(project), rules_in_order())
}

/// Law: linting respects the configured severities. Each diagnostic the
/// rules report has as its code the id of a rule that the configuration
/// leaves on, and the level the configuration gives that rule; so no
/// diagnostic has the id of a rule that is off.
pub proof fn law_lint_respects_rule_severities(project: ProjectScan, files: Seq<ProjectFile>, locale: Lang)
    ensures
        ({
            let overrides = configured_overrides(project);
            let ds = enabled_diagnostics(files, project, locale, overrides, rules_in_order());
            &&& forall|i: int| 0 <= i < ds.len() ==> from_enabled_rule(#[trigger] ds[i], overrides, rules_in_order())
            &&& forall|r: LintRule, i: int|
                #![trigger ds[i], rule_id(r)]
                severity_in(overrides, r) == LintRuleSeverity::Off && 0 <= i < ds.len() ==> ds[i].code != rule_id(r)
        }),
{
    let overrides = configured_overrides(project);
    let ds = enabled_diagnostics(files, project, locale, overrides, rules_in_order());
    lemma_enabled_codes(files, project, locale, overrides, rules_in_order());
    assert forall|r: LintRule, i: int|
        #![trigger ds[i], rule_id(r)]
        severity_in(overrides, r) == LintRuleSeverity::Off && 0 <= i < ds.len() implies ds[i].code != rule_id(r) by {
        assert(from_enabled_rule(ds[i], overrides, rules_in_order()));
        let q = choose|q: LintRule|
            #![trigger rules_in_order().contains(q)]
            rules_in_order().contains(q) && severity_in(overrides, q) != LintRuleSeverity::Off
                && ds[i].code == rule_id(q) && ds[i].level == level_of(severity_in(overrides, q));
        if ds[i].code == rule_id(r) {
            law_rule_ids_distinct(q, r);
        }
    }
}

/// Whether every file has fewer than `u32::MAX` characters.
pub fn files_fit_u32(files: &Vec<ProjectFile>) -> (res: bool)
    ensures
        res == files_fit(files@),
{
    let mut i: usize = 0;
    while i < files.len()
        invariant
            i <= files@.len(),
            forall|j: int| 0 <= j < i ==> #[trigger] files@[j].content@.len() < u32::MAX,
        decreases files@.len() - i,
    {
        if crate::text::chars_of(files[i].content.as_str()).len() >= u32::MAX as usize {
            assert(!files_fit(files@));
            return false;
        }
        i = i + 1;
    }
    true
}

/// Whether `files` meet what the lint needs (see `lint_can_run`).
pub fn can_lint(project: &ProjectScan, files: &Vec<ProjectFile>) -> (res: bool)
    ensures
        res == lint_can_run(*project, files@),
{
    if !files_fit_u32(files) {
        return false;
    }
    let cj = project.config_json.as_ref();
    assert(crate::json::deref_opt(cj) == project.config_json);
    let (config, _) = resolve_rule_config(cj, None, Lang::En);
    if config.severity(LintRule::PluginSpecifiedCommands) == LintRuleSeverity::Off {
        return true;
    }
    let context = RuleContext { project, files, locale: Lang::En };
    proof {
        reveal_strlit("src/config/plugins.config.ts");
    }
    match context.read_file("src/config/plugins.config.ts") {
        Some(c) => crate::lint::rules::plugin_specified_commands::plugin_blocks_closed(c.as_str()),
        None => true,
    }
}

/// Lints a scanned project whose files read are `files`.
pub fn evaluate(project: &ProjectScan, files: &Vec<ProjectFile>, locale: Lang) -> (res: LintEvaluation)
    requires
        lint_can_run(*project, files@),
    ensures
        diags_view(res.diagnostics@) == lint_diagnostics(*project, files@, locale),
        res.rules@.map_values(|s: LintRuleSetting| (s.rule@, s.severity)) == settings_of(
            configured_overrides(*project),
            rules_in_order(),
        ),
{
    let context = RuleContext { project, files, locale };
    let config_text = match context.read_file(".patto/config.json") {
        Some(t) => Some(t.as_str()),
        None => None,
    };
    let cj = project.config_json.as_ref();
    assert(crate::json::deref_opt(cj) == project.config_json);
    proof {
        reveal_strlit(".patto/config.json");
    }
    let (config, found) = resolve_rule_config(cj, config_text, locale);
    let mut diagnostics = found;
    let ran = run_enabled_rules(&context, &config);
    append_all(&mut diagnostics, ran);
    LintEvaluation { diagnostics, rules: config.to_output() }
}

/// How many of `rules` are off.
pub open spec fn rules_off_in(rules: Seq<LintRuleSetting>) -> nat
    decreases rules.len(),
{
    if rules.len() == 0 {
        0
    } else {
        rules_off_in(rules.drop_last()) + if rules.last().severity == LintRuleSeverity::Off {
            1nat
        } else {
            0nat
        }
    }
}

/// Counts the rules that are off.
pub fn count_off(rules: &Vec<LintRuleSetting>) -> (n: usize)
    ensures
        n == rules_off_in(rules@),
        n <= rules@.len(),
{
    let mut n: usize = 0;
    let mut i: usize = 0;
    while i < rules.len()
        invariant
            i <= rules@.len(),
            n <= i,
            n == rules_off_in(rules@.take(i as int)),
        decreases rules@.len() - i,
    {
        assert(rules@.take(i + 1).drop_last() =~= rules@.take(i as int));
        if rules[i].severity == LintRuleSeverity::Off {
            n = n + 1;
        }
        i = i + 1;
    }
    assert(rules@.take(rules@.len() as int) =~= rules@);
    n
}

/// The output of `lint`: the rules counted as run or off, the diagnostics
/// counted by level; failed where there is an error.
pub fn build_output(diagnostics: Vec<Diagnostic>, stats: OutputStats, rules: Vec<LintRuleSetting>) -> (res: LintCommandOutput)
    ensures
        res.summary.rules_off == rules_off_in(rules@),
        res.summary.rules_run == rules@.len() - rules_off_in(rules@),
        res.summary.errors == diagnostics_at(diags_view(diagnostics@), DiagnosticLevel::Error),
        res.summary.warnings == diagnostics_at(diags_view(diagnostics@), DiagnosticLevel::Warning),
        res.summary.infos == diagnostics_at(diags_view(diagnostics@), DiagnosticLevel::Info),
        res.status == (if res.summary.errors > 0 {
            OutputStatus::Failed
        } else {
            OutputStatus::Passed
        }),
        res.command@ == "lint"@,
        res.diagnostics@ == diagnostics@,
        res.stats == stats,
        res.rules@ == rules@,
{
    let off = count_off(&rules);
    let summary = LintSummary {
        rules_run: rules.len() - off,
        rules_off: off,
        errors: count_level(&diagnostics, DiagnosticLevel::Error),
        warnings: count_level(&diagnostics, DiagnosticLevel::Warning),
        infos: count_level(&diagnostics, DiagnosticLevel::Info),
    };
    LintCommandOutput {
        status: if summary.errors > 0 {
            OutputStatus::Failed
        } else {
            OutputStatus::Passed
        },
        command: "lint".to_owned(),
        diagnostics,
        stats,
        summary,
        rules,
    }
}

} // verus!
