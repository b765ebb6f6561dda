//! The lint rules, and running those a configuration leaves on.
pub mod decorated_base_command;
pub mod missing_run_method;
pub mod subcommand_consistency;
pub mod unknown_command_files;
pub mod command_folder_convention;
pub mod ghost_parent_mix;
pub mod invalid_command_names;
pub mod duplicate_commands;
pub mod duplicate_aliases;
pub mod invalid_arguments;
pub mod broken_alias_imports;
pub mod plugin_specified_commands;
pub mod sharding_redis_config;
pub mod component_handler_methods;
pub mod feature_config;
pub mod i18n;

use vstd::prelude::*;

use crate::diagnostic::{append_all, diags_view, Diagnostic, DiagnosticView};
use crate::lang::Lang;
use crate::lint::config::{all_rules, level_of, rule_id, rules_in_order, severity_in, LintRule, RuleConfig};
use crate::lint::context::{all_coded, files_fit, ProjectFile, RuleContext};
use crate::output::{commands_view, strings_view, LintRuleSeverity};
use crate::project::scanner::ProjectScan;

verus! {

/// What `rule` reports at `severity` on `project`, whose files read are
/// `files`.
pub open spec fn rule_diagnostics(
    files: Seq<ProjectFile>,
    project: ProjectScan,
    locale: Lang,
    rule: LintRule,
    severity: LintRuleSeverity,
) -> Seq<DiagnosticView> {
    let commands = commands_view(project.index.commands@);
    let paths = strings_view(project.files@);
    let config = project.config_json;
    match rule {
        LintRule::DuplicateCommands => duplicate_commands::diagnostics_for(files, commands, locale, severity),
        LintRule::DuplicateAliases => duplicate_aliases::diagnostics_for(files, commands, locale, severity),
        LintRule::InvalidCommandNames => invalid_command_names::diagnostics_for(files, commands, locale, severity),
        LintRule::UnknownCommandFiles => unknown_command_files::diagnostics_for(files, commands, locale, severity),
        LintRule::DecoratedBaseCommand => decorated_base_command::diagnostics_for(files, commands, locale, severity),
        LintRule::MissingRunMethod => missing_run_method::diagnostics_for(files, commands, locale, severity),
        LintRule::SubcommandConsistency => subcommand_consistency::diagnostics_for(files, commands, locale, severity),
        LintRule::GhostParentMix => ghost_parent_mix::diagnostics_for(files, commands, commands, locale, severity),
        LintRule::InvalidArguments => invalid_arguments::diagnostics_for(files, commands, locale, severity),
        LintRule::CommandFolderConvention => command_folder_convention::diagnostics_for(files, commands, locale, severity),
        LintRule::BrokenAliasImports => broken_alias_imports::diagnostics_for(files, paths, paths, locale, severity),
        LintRule::PluginSpecifiedCommands => plugin_specified_commands::diagnostics_for(files, locale, severity),
        LintRule::ShardingRedisConfig => sharding_redis_config::diagnostics_for(files, paths, locale, severity),
        LintRule::ComponentHandlerMethods => component_handler_methods::diagnostics_for(files, commands, locale, severity),
        LintRule::FeatureConfig => feature_config::diagnostics_for(files, config, locale, severity),
        LintRule::I18nMissingKeys => i18n::missing_keys::diagnostics_for(files, paths, config, locale, severity),
        LintRule::I18nDynamicKeys => i18n::dynamic_keys::diagnostics_for(files, paths, config, locale, severity),
        LintRule::I18nLocaleParity => i18n::locale_parity::diagnostics_for(files, paths, config, locale, severity),
    }
}

/// What `rules` report, rule after rule, each at the severity `overrides`
/// gives it; the rules that are off report nothing.
pub open spec fn enabled_diagnostics(
    files: Seq<ProjectFile>,
    project: ProjectScan,
    locale: Lang,
    overrides: Seq<(LintRule, LintRuleSeverity)>,
    rules: Seq<LintRule>,
) -> Seq<DiagnosticView>
    decreases rules.len(),
{
    if rules.len() == 0 {
        Seq::empty()
    } else {
        let prev = enabled_diagnostics(files, project, locale, overrides, rules.drop_last());
        let r = rules.last();
        let s = severity_in(overrides, r);
        if s == LintRuleSeverity::Off {
            prev
        } else {
            prev + rule_diagnostics(files, project, locale, r, s)
        }
    }
}

/// What the rules need of the files: every file fits `u32` lines and
/// columns, and, where the plugins rule runs, the plugins file closes its
/// `PluginScope.Specified` blocks.
pub open spec fn rules_can_run(files: Seq<ProjectFile>, overrides: Seq<(LintRule, LintRuleSeverity)>) -> bool {
    &&& files_fit(files)
    &&& severity_in(overrides, LintRule::PluginSpecifiedCommands) != LintRuleSeverity::Off
        ==> plugin_specified_commands::plugins_config_readable(files)
}

/// Runs `rule` at `severity`.
pub fn run_rule(context: &RuleContext, rule: LintRule, severity: LintRuleSeverity) -> (res: Vec<Diagnostic>)
    requires
        files_fit(context.files@),
        rule == LintRule::PluginSpecifiedCommands ==> plugin_specified_commands::plugins_config_readable(context.files@),
    ensures
        diags_view(res@) == rule_diagnostics(context.files@, *context.project, context.locale, rule, severity),
{
    match rule {
        LintRule::DuplicateCommands => duplicate_commands::run(context, severity),
        LintRule::DuplicateAliases => duplicate_aliases::run(context, severity),
        LintRule::InvalidCommandNames => invalid_command_names::run(context, severity),
        LintRule::UnknownCommandFiles => unknown_command_files::run(context, severity),
        LintRule::DecoratedBaseCommand => decorated_base_command::run(context, severity),
        LintRule::MissingRunMethod => missing_run_method::run(context, severity),
        LintRule::SubcommandConsistency => subcommand_consistency::run(context, severity),
        LintRule::GhostParentMix => ghost_parent_mix::run(context, severity),
        LintRule::InvalidArguments => invalid_arguments::run(context, severity),
        LintRule::CommandFolderConvention => command_folder_convention::run(context, severity),
        LintRule::BrokenAliasImports => broken_alias_imports::run(context, severity),
        LintRule::PluginSpecifiedCommands => plugin_specified_commands::run(context, severity),
        LintRule::ShardingRedisConfig => sharding_redis_config::run(context, severity),
        LintRule::ComponentHandlerMethods => component_handler_methods::run(context, severity),
        LintRule::FeatureConfig => feature_config::run(context, severity),
        LintRule::I18nMissingKeys => i18n::missing_keys::run(context, severity),
        LintRule::I18nDynamicKeys => i18n::dynamic_keys::run(context, severity),
        LintRule::I18nLocaleParity => i18n::locale_parity::run(context, severity),
    }
}

/// Runs, in order, every rule that `config` does not switch off.
pub fn run_enabled_rules(context: &RuleContext, config: &RuleConfig) -> (res: Vec<Diagnostic>)
    requires
        rules_can_run(context.files@, config.overrides@),
    ensures
        diags_view(res@) == enabled_diagnostics(
            context.files@,
            *context.project,
            context.locale,
            config.overrides@,
            rules_in_order(),
        ),
{
    let rules = all_rules();
    let mut out: Vec<Diagnostic> = Vec::new();
    let mut i: usize = 0;
    assert(rules_in_order().take(0) =~= Seq::<LintRule>::empty());
    assert(diags_view(out@) =~= Seq::<DiagnosticView>::empty());
    while i < 18
        invariant
            i <= 18,
            rules@ == rules_in_order(),
            rules_can_run(context.files@, config.overrides@),
            diags_view(out@) == enabled_diagnostics(
                context.files@,
                *context.project,
                context.locale,
                config.overrides@,
                rules_in_order().take(i as int),
            ),
        decreases 18 - i,
    {
        let rule = rules[i];
        assert(rules_in_order().take(i + 1).drop_last() =~= rules_in_order().take(i as int));
        assert(rules_in_order().take(i + 1).last() == rule);
        let severity = config.severity(rule);
        if severity != LintRuleSeverity::Off {
            let found = run_rule(context, rule, severity);
            append_all(&mut out, found);
        }
        i = i + 1;
    }
    assert(rules_in_order().take(18) =~= rules_in_order());
    out
}

/// Each diagnostic `rule` reports at `severity` has the rule's id as its
/// code and the level of `severity`.
pub proof fn lemma_rule_codes(
    files: Seq<ProjectFile>,
    project: ProjectScan,
    locale: Lang,
    rule: LintRule,
    severity: LintRuleSeverity,
)
    ensures
        all_coded(rule_diagnostics(files, project, locale, rule, severity), rule_id(rule), severity),
{
    let commands = commands_view(project.index.commands@);
    let paths = strings_view(project.files@);
    let config = project.config_json;
    match rule {
        LintRule::DuplicateCommands => duplicate_commands::lemma_codes(files, commands, locale, severity),
        LintRule::DuplicateAliases => duplicate_aliases::lemma_codes(files, commands, locale, severity),
        LintRule::InvalidCommandNames => invalid_command_names::lemma_codes(files, commands, locale, severity),
        LintRule::UnknownCommandFiles => unknown_command_files::lemma_codes(files, commands, locale, severity),
        LintRule::DecoratedBaseCommand => decorated_base_command::lemma_codes(files, commands, locale, severity),
        LintRule::MissingRunMethod => missing_run_method::lemma_codes(files, commands, locale, severity),
        LintRule::SubcommandConsistency => subcommand_consistency::lemma_codes(files, commands, locale, severity),
        LintRule::GhostParentMix => ghost_parent_mix::lemma_codes(files, commands, commands, locale, severity),
        LintRule::InvalidArguments => invalid_arguments::lemma_codes(files, commands, locale, severity),
        LintRule::CommandFolderConvention => command_folder_convention::lemma_codes(files, commands, locale, severity),
        LintRule::BrokenAliasImports => broken_alias_imports::lemma_codes(files, paths, paths, locale, severity),
        LintRule::PluginSpecifiedCommands => plugin_specified_commands::lemma_codes(files, locale, severity),
        LintRule::ShardingRedisConfig => sharding_redis_config::lemma_codes(files, paths, locale, severity),
        LintRule::ComponentHandlerMethods => component_handler_methods::lemma_codes(files, commands, locale, severity),
        LintRule::FeatureConfig => feature_config::lemma_codes(files, config, locale, severity),
        LintRule::I18nMissingKeys => i18n::missing_keys::lemma_codes(files, paths, config, locale, severity),
        LintRule::I18nDynamicKeys => i18n::dynamic_keys::lemma_codes(files, paths, config, locale, severity),
        LintRule::I18nLocaleParity => i18n::locale_parity::lemma_codes(files, paths, config, locale, severity),
    }
}

/// `d` has the id of one of `rules` that is not off as its code, and the
/// level that rule is configured with.
pub open spec fn from_enabled_rule(
    d: DiagnosticView,
    overrides: Seq<(LintRule, LintRuleSeverity)>,
    rules: Seq<LintRule>,
) -> bool {
    exists|r: LintRule|
        #![trigger rules.contains(r)]
        rules.contains(r) && severity_in(overrides, r) != LintRuleSeverity::Off && d.code == rule_id(r)
            && d.level == level_of(severity_in(overrides, r))
}

/// What `rules` report comes from rules that are not off.
pub proof fn lemma_enabled_codes(
    files: Seq<ProjectFile>,
    project: ProjectScan,
    locale: Lang,
    overrides: Seq<(LintRule, LintRuleSeverity)>,
    rules: Seq<LintRule>,
)
    ensures
        forall|i: int| 0 <= i < enabled_diagnostics(files, project, locale, overrides, rules).len()
            ==> from_enabled_rule(
            #[trigger] enabled_diagnostics(files, project, locale, overrides, rules)[i],
            overrides,
            rules,
        ),
    decreases rules.len(),
{
    if rules.len() > 0 {
        let earlier = rules.drop_last();
        lemma_enabled_codes(files, project, locale, overrides, earlier);
        let prev = enabled_diagnostics(files, project, locale, overrides, earlier);
        let all = enabled_diagnostics(files, project, locale, overrides, rules);
        let r = rules.last();
        let s = severity_in(overrides, r);
        assert forall|i: int| 0 <= i < all.len() implies from_enabled_rule(#[trigger] all[i], overrides, rules) by {
            if i < prev.len() {
                if s != LintRuleSeverity::Off {
                    assert(all == prev + rule_diagnostics(files, project, locale, r, s));
                }
                assert(all[i] == prev[i]);
                assert(from_enabled_rule(prev[i], overrides, earlier));
                let q = choose|q: LintRule|
                    #![trigger earlier.contains(q)]
                    earlier.contains(q) && severity_in(overrides, q) != LintRuleSeverity::Off
                        && prev[i].code == rule_id(q) && prev[i].level == level_of(severity_in(overrides, q));
                let j = choose|j: int| 0 <= j < earlier.len() && earlier[j] == q;
                assert(rules[j] == q);
                assert(rules.contains(q));
            } else {
                lemma_rule_codes(files, project, locale, r, s);
                let found = rule_diagnostics(files, project, locale, r, s);
                assert(all == prev + found);
                assert(all[i] == found[i - prev.len()]);
                assert(found[i - prev.len()].code == rule_id(r));
                assert(rules[rules.len() - 1] == r);
                assert(rules.contains(r));
            }
        }
    }
}

} // verus!
