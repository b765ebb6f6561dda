//! The lint rules, their severities and how a project configures them.
use vstd::prelude::*;

use crate::diagnostic::{diags_view, hinted, located, plain_diagnostic, Diagnostic, DiagnosticCode, DiagnosticLevel, DiagnosticView};
use crate::json::{deref_opt, json_member, json_str, member, text_value, JsonValue};
use crate::lang::{message_text, translation, Lang};
use crate::output::{LintRuleSetting, LintRuleSeverity};
use crate::project::parser_support::{ascii_lower, ascii_lower_char};
use crate::lang::es::reported_codes;
use crate::text::is_ascii_upper;
use crate::utils::hint_key;

verus! {

/// A lint rule.
#[derive(PartialEq, Eq, Structural, Clone, Copy, Debug, Hash)]
pub enum LintRule {
    DuplicateCommands,
    DuplicateAliases,
    InvalidCommandNames,
    UnknownCommandFiles,
    DecoratedBaseCommand,
    MissingRunMethod,
    SubcommandConsistency,
    GhostParentMix,
    InvalidArguments,
    CommandFolderConvention,
    BrokenAliasImports,
    PluginSpecifiedCommands,
    ShardingRedisConfig,
    ComponentHandlerMethods,
    FeatureConfig,
    I18nMissingKeys,
    I18nDynamicKeys,
    I18nLocaleParity,
}

/// The id of a rule, which is also the code of its diagnostics.
pub open spec fn rule_id(rule: LintRule) -> Seq<char> {
    match rule {
        LintRule::DuplicateCommands => "duplicate-commands"@,
        LintRule::DuplicateAliases => "duplicate-aliases"@,
        LintRule::InvalidCommandNames => "invalid-command-names"@,
        LintRule::UnknownCommandFiles => "unknown-command-files"@,
        LintRule::DecoratedBaseCommand => "decorated-base-command"@,
        LintRule::MissingRunMethod => "missing-run-method"@,
        LintRule::SubcommandConsistency => "subcommand-consistency"@,
        LintRule::GhostParentMix => "ghost-parent-mix"@,
        LintRule::InvalidArguments => "invalid-arguments"@,
        LintRule::CommandFolderConvention => "command-folder-convention"@,
        LintRule::BrokenAliasImports => "broken-alias-imports"@,
        LintRule::PluginSpecifiedCommands => "plugin-specified-commands"@,
        LintRule::ShardingRedisConfig => "sharding-redis-config"@,
        LintRule::ComponentHandlerMethods => "component-handler-methods"@,
        LintRule::FeatureConfig => "feature-config"@,
        LintRule::I18nMissingKeys => "i18n-missing-keys"@,
        LintRule::I18nDynamicKeys => "i18n-dynamic-keys"@,
        LintRule::I18nLocaleParity => "i18n-locale-parity"@,
    }
}

/// The length of a rule's id and three of its characters, which tell the
/// rules apart.
pub open spec fn id_mark(rule: LintRule) -> (nat, char, char, char) {
    match rule {
        LintRule::DuplicateCommands => (18, 'd', 'l', 'c'),
        LintRule::DuplicateAliases => (17, 'd', 'l', 'c'),
        LintRule::InvalidCommandNames => (21, 'i', 'a', 'i'),
        LintRule::UnknownCommandFiles => (21, 'u', 'n', 'w'),
        LintRule::DecoratedBaseCommand => (22, 'd', 'o', 'a'),
        LintRule::MissingRunMethod => (18, 'm', 's', 'n'),
        LintRule::SubcommandConsistency => (22, 's', 'c', 'm'),
        LintRule::GhostParentMix => (16, 'g', 's', '-'),
        LintRule::InvalidArguments => (17, 'i', 'a', 'i'),
        LintRule::CommandFolderConvention => (25, 'c', 'm', 'n'),
        LintRule::BrokenAliasImports => (20, 'b', 'k', 'n'),
        LintRule::PluginSpecifiedCommands => (25, 'p', 'g', 'n'),
        LintRule::ShardingRedisConfig => (21, 's', 'r', 'i'),
        LintRule::ComponentHandlerMethods => (25, 'c', 'p', 'n'),
        LintRule::FeatureConfig => (14, 'f', 't', 'r'),
        LintRule::I18nMissingKeys => (17, 'i', 'n', 'm'),
        LintRule::I18nDynamicKeys => (17, 'i', 'n', 'd'),
        LintRule::I18nLocaleParity => (18, 'i', 'n', 'l'),
    }
}

pub proof fn lemma_id_mark(rule: LintRule)
    ensures
        (rule_id(rule).len(), rule_id(rule)[0], rule_id(rule)[3], rule_id(rule)[5]) == id_mark(rule),
{
    match rule {
        LintRule::DuplicateCommands => {
            reveal_strlit("duplicate-commands");
        },
        LintRule::DuplicateAliases => {
            reveal_strlit("duplicate-aliases");
        },
        LintRule::InvalidCommandNames => {
            reveal_strlit("invalid-command-names");
        },
        LintRule::UnknownCommandFiles => {
            reveal_strlit("unknown-command-files");
        },
        LintRule::DecoratedBaseCommand => {
            reveal_strlit("decorated-base-command");
        },
        LintRule::MissingRunMethod => {
            reveal_strlit("missing-run-method");
        },
        LintRule::SubcommandConsistency => {
            reveal_strlit("subcommand-consistency");
        },
        LintRule::GhostParentMix => {
            reveal_strlit("ghost-parent-mix");
        },
        LintRule::InvalidArguments => {
            reveal_strlit("invalid-arguments");
        },
        LintRule::CommandFolderConvention => {
            reveal_strlit("command-folder-convention");
        },
        LintRule::BrokenAliasImports => {
            reveal_strlit("broken-alias-imports");
        },
        LintRule::PluginSpecifiedCommands => {
            reveal_strlit("plugin-specified-commands");
        },
        LintRule::ShardingRedisConfig => {
            reveal_strlit("sharding-redis-config");
        },
        LintRule::ComponentHandlerMethods => {
            reveal_strlit("component-handler-methods");
        },
        LintRule::FeatureConfig => {
            reveal_strlit("feature-config");
        },
        LintRule::I18nMissingKeys => {
            reveal_strlit("i18n-missing-keys");
        },
        LintRule::I18nDynamicKeys => {
            reveal_strlit("i18n-dynamic-keys");
        },
        LintRule::I18nLocaleParity => {
            reveal_strlit("i18n-locale-parity");
        },
    }
}

/// Law: no two rules share an id, so an id under `lint-rules` or on a
/// diagnostic names one rule.
pub proof fn law_rule_ids_distinct(a: LintRule, b: LintRule)
    requires
        rule_id(a) == rule_id(b),
    ensures
        a == b,
{
    lemma_id_mark(a);
    lemma_id_mark(b);
    assert(id_mark(a) == id_mark(b));
}

/// Law: the id of every rule is one of the diagnostic codes this tool
/// reports, the code its diagnostics carry.
pub proof fn law_rule_ids_are_reported_codes(rule: LintRule)
    ensures
        exists|i: int| 0 <= i < reported_codes().len() && #[trigger] reported_codes()[i].0 == rule_id(rule),
{
    match rule {
        LintRule::DuplicateCommands => {
            assert(reported_codes()[14].0 == rule_id(rule));
        },
        LintRule::DuplicateAliases => {
            assert(reported_codes()[15].0 == rule_id(rule));
        },
        LintRule::InvalidCommandNames => {
            assert(reported_codes()[17].0 == rule_id(rule));
        },
        LintRule::UnknownCommandFiles => {
            assert(reported_codes()[16].0 == rule_id(rule));
        },
        LintRule::DecoratedBaseCommand => {
            assert(reported_codes()[18].0 == rule_id(rule));
        },
        LintRule::MissingRunMethod => {
            assert(reported_codes()[19].0 == rule_id(rule));
        },
        LintRule::SubcommandConsistency => {
            assert(reported_codes()[20].0 == rule_id(rule));
        },
        LintRule::GhostParentMix => {
            assert(reported_codes()[21].0 == rule_id(rule));
        },
        LintRule::InvalidArguments => {
            assert(reported_codes()[22].0 == rule_id(rule));
        },
        LintRule::CommandFolderConvention => {
            assert(reported_codes()[23].0 == rule_id(rule));
        },
        LintRule::BrokenAliasImports => {
            assert(reported_codes()[24].0 == rule_id(rule));
        },
        LintRule::PluginSpecifiedCommands => {
            assert(reported_codes()[25].0 == rule_id(rule));
        },
        LintRule::ShardingRedisConfig => {
            assert(reported_codes()[26].0 == rule_id(rule));
        },
        LintRule::ComponentHandlerMethods => {
            assert(reported_codes()[27].0 == rule_id(rule));
        },
        LintRule::FeatureConfig => {
            assert(reported_codes()[28].0 == rule_id(rule));
        },
        LintRule::I18nMissingKeys => {
            assert(reported_codes()[29].0 == rule_id(rule));
        },
        LintRule::I18nDynamicKeys => {
            assert(reported_codes()[30].0 == rule_id(rule));
        },
        LintRule::I18nLocaleParity => {
            assert(reported_codes()[31].0 == rule_id(rule));
        },
    }
}

/// Law: lowering the ASCII letters of a text twice lowers them once, so a
/// severity reads the same from the lowered text as from the text itself.
pub proof fn law_severity_lowering_idempotent(value: Seq<char>)
    ensures
        ascii_lower(ascii_lower(value)) == ascii_lower(value),
        severity_named(ascii_lower(value)) == severity_named(value),
{
    assert forall|i: int| 0 <= i < value.len() implies ascii_lower_char(ascii_lower_char(value[i]))
        == ascii_lower_char(value[i]) by {
        let c = value[i];
        if is_ascii_upper(c) {
            assert(('A' as u32) <= (c as u32) <= ('Z' as u32));
            assert(!is_ascii_upper(((c as u32) + 32) as char));
        }
    }
    assert(ascii_lower(ascii_lower(value)) =~= ascii_lower(value));
}

/// The severity a rule has unless the project configures another.
pub open spec fn default_of(rule: LintRule) -> LintRuleSeverity {
    match rule {
        LintRule::DuplicateCommands | LintRule::DuplicateAliases | LintRule::DecoratedBaseCommand
        | LintRule::MissingRunMethod | LintRule::SubcommandConsistency
        | LintRule::BrokenAliasImports | LintRule::ComponentHandlerMethods => LintRuleSeverity::Error,
        _ => LintRuleSeverity::Warning,
    }
}

impl LintRule {
    /// The id of this rule.
    pub fn id(self) -> (res: &'static str)
        ensures
            res@ == rule_id(self),
    {
        match self {
            LintRule::DuplicateCommands => DiagnosticCode::PATTO_LINT_DUPLICATE_COMMANDS,
            LintRule::DuplicateAliases => DiagnosticCode::PATTO_LINT_DUPLICATE_ALIASES,
            LintRule::InvalidCommandNames => DiagnosticCode::PATTO_LINT_INVALID_COMMAND_NAMES,
            LintRule::UnknownCommandFiles => DiagnosticCode::PATTO_LINT_UNKNOWN_COMMAND_FILES,
            LintRule::DecoratedBaseCommand => DiagnosticCode::PATTO_LINT_DECORATED_BASE_COMMAND,
            LintRule::MissingRunMethod => DiagnosticCode::PATTO_LINT_MISSING_RUN_METHOD,
            LintRule::SubcommandConsistency => DiagnosticCode::PATTO_LINT_SUBCOMMAND_CONSISTENCY,
            LintRule::GhostParentMix => DiagnosticCode::PATTO_LINT_GHOST_PARENT_MIX,
            LintRule::InvalidArguments => DiagnosticCode::PATTO_LINT_INVALID_ARGUMENTS,
            LintRule::CommandFolderConvention => DiagnosticCode::PATTO_LINT_COMMAND_FOLDER_CONVENTION,
            LintRule::BrokenAliasImports => DiagnosticCode::PATTO_LINT_BROKEN_ALIAS_IMPORTS,
            LintRule::PluginSpecifiedCommands => DiagnosticCode::PATTO_LINT_PLUGIN_SPECIFIED_COMMANDS,
            LintRule::ShardingRedisConfig => DiagnosticCode::PATTO_LINT_SHARDING_REDIS_CONFIG,
            LintRule::ComponentHandlerMethods => DiagnosticCode::PATTO_LINT_COMPONENT_HANDLER_METHODS,
            LintRule::FeatureConfig => DiagnosticCode::PATTO_LINT_FEATURE_CONFIG,
            LintRule::I18nMissingKeys => DiagnosticCode::PATTO_LINT_I18N_MISSING_KEYS,
            LintRule::I18nDynamicKeys => DiagnosticCode::PATTO_LINT_I18N_DYNAMIC_KEYS,
            LintRule::I18nLocaleParity => DiagnosticCode::PATTO_LINT_I18N_LOCALE_PARITY,
        }
    }

    /// The severity of this rule unless the project configures another.
    pub fn default_severity(self) -> (res: LintRuleSeverity)
        ensures
            res == default_of(self),
    {
        match self {
            LintRule::DuplicateCommands | LintRule::DuplicateAliases
            | LintRule::DecoratedBaseCommand | LintRule::MissingRunMethod
            | LintRule::SubcommandConsistency | LintRule::BrokenAliasImports
            | LintRule::ComponentHandlerMethods => LintRuleSeverity::Error,
            _ => LintRuleSeverity::Warning,
        }
    }
}

/// Every rule, in the order they run and are reported.
pub open spec fn rules_in_order() -> Seq<LintRule> {
    seq![
        LintRule::DuplicateCommands,
        LintRule::DuplicateAliases,
        LintRule::InvalidCommandNames,
        LintRule::UnknownCommandFiles,
        LintRule::DecoratedBaseCommand,
        LintRule::MissingRunMethod,
        LintRule::SubcommandConsistency,
        LintRule::GhostParentMix,
        LintRule::InvalidArguments,
        LintRule::CommandFolderConvention,
        LintRule::BrokenAliasImports,
        LintRule::PluginSpecifiedCommands,
        LintRule::ShardingRedisConfig,
        LintRule::ComponentHandlerMethods,
        LintRule::FeatureConfig,
        LintRule::I18nMissingKeys,
        LintRule::I18nDynamicKeys,
        LintRule::I18nLocaleParity,
    ]
}

/// Every rule, in order.
pub fn all_rules() -> (res: [LintRule; 18])
    ensures
        res@ == rules_in_order(),
{
    let res = [
        LintRule::DuplicateCommands,
        LintRule::DuplicateAliases,
        LintRule::InvalidCommandNames,
        LintRule::UnknownCommandFiles,
        LintRule::DecoratedBaseCommand,
        LintRule::MissingRunMethod,
        LintRule::SubcommandConsistency,
        LintRule::GhostParentMix,
        LintRule::InvalidArguments,
        LintRule::CommandFolderConvention,
        LintRule::BrokenAliasImports,
        LintRule::PluginSpecifiedCommands,
        LintRule::ShardingRedisConfig,
        LintRule::ComponentHandlerMethods,
        LintRule::FeatureConfig,
        LintRule::I18nMissingKeys,
        LintRule::I18nDynamicKeys,
        LintRule::I18nLocaleParity,
    ];
    assert(res@ =~= rules_in_order());
    res
}

/// The severity that a configured text names: `off`, `info`, `warn` or
/// `warning`, `error`, with no regard to ASCII case.
pub open spec fn severity_named(value: Seq<char>) -> Option<LintRuleSeverity> {
    let v = ascii_lower(value);
    if v == "off"@ {
        Some(LintRuleSeverity::Off)
    } else if v == "info"@ {
        Some(LintRuleSeverity::Info)
    } else if v == "warning"@ || v == "warn"@ {
        Some(LintRuleSeverity::Warning)
    } else if v == "error"@ {
        Some(LintRuleSeverity::Error)
    } else {
        None
    }
}

/// Reads a configured severity.
pub fn parse_rule_severity(value: &str) -> (res: Option<LintRuleSeverity>)
    ensures
        res == severity_named(value@),
{
    let c = crate::text::chars_of(value);
    let v = crate::project::parser_support::lower_ascii_vec(&c, 0);
    assert(c@.skip(0) =~= c@);
    if crate::text::chars_eq_str(&v, "off") {
        Some(LintRuleSeverity::Off)
    } else if crate::text::chars_eq_str(&v, "info") {
        Some(LintRuleSeverity::Info)
    } else if crate::text::chars_eq_str(&v, "warning") || crate::text::chars_eq_str(&v, "warn") {
        Some(LintRuleSeverity::Warning)
    } else if crate::text::chars_eq_str(&v, "error") {
        Some(LintRuleSeverity::Error)
    } else {
        None
    }
}

/// The level of the diagnostics of a rule with `severity`.
pub open spec fn level_of(severity: LintRuleSeverity) -> DiagnosticLevel {
    match severity {
        LintRuleSeverity::Off | LintRuleSeverity::Info => DiagnosticLevel::Info,
        LintRuleSeverity::Warning => DiagnosticLevel::Warning,
        LintRuleSeverity::Error => DiagnosticLevel::Error,
    }
}

/// The level of the diagnostics of a rule with `severity`.
pub fn diagnostic_level(severity: LintRuleSeverity) -> (res: DiagnosticLevel)
    ensures
        res == level_of(severity),
{
    match severity {
        LintRuleSeverity::Off | LintRuleSeverity::Info => DiagnosticLevel::Info,
        LintRuleSeverity::Warning => DiagnosticLevel::Warning,
        LintRuleSeverity::Error => DiagnosticLevel::Error,
    }
}

/// The severities a project configures, in the order they were read.
pub struct RuleConfig {
    pub overrides: Vec<(LintRule, LintRuleSeverity)>,
}

/// The severity of `rule`: the last one configured for it, else its
/// default.
pub open spec fn severity_in(overrides: Seq<(LintRule, LintRuleSeverity)>, rule: LintRule) -> LintRuleSeverity
    decreases overrides.len(),
{
    if overrides.len() == 0 {
        default_of(rule)
    } else if overrides.last().0 == rule {
        overrides.last().1
    } else {
        severity_in(overrides.drop_last(), rule)
    }
}

/// The setting each rule gets, in order.
pub open spec fn settings_of(overrides: Seq<(LintRule, LintRuleSeverity)>, rules: Seq<LintRule>) -> Seq<(Seq<char>, LintRuleSeverity)> {
    rules.map_values(|r: LintRule| (rule_id(r), severity_in(overrides, r)))
}

impl RuleConfig {
    /// The severity of `rule`.
    pub fn severity(&self, rule: LintRule) -> (res: LintRuleSeverity)
        ensures
            res == severity_in(self.overrides@, rule),
    {
        let mut i = self.overrides.len();
        assert(self.overrides@.take(i as int) =~= self.overrides@);
        while i > 0
            invariant
                i <= self.overrides@.len(),
                severity_in(self.overrides@, rule) == severity_in(self.overrides@.take(i as int), rule),
            decreases i,
        {
            assert(self.overrides@.take(i as int).drop_last() =~= self.overrides@.take(i - 1));
            if self.overrides[i - 1].0 == rule {
                return self.overrides[i - 1].1;
            }
            i = i - 1;
        }
        rule.default_severity()
    }

    /// The setting of every rule, in order.
    pub fn to_output(&self) -> (res: Vec<LintRuleSetting>)
        ensures
            res@.map_values(|s: LintRuleSetting| (s.rule@, s.severity)) == settings_of(self.overrides@, rules_in_order()),
    {
        let rules = all_rules();
        let mut out: Vec<LintRuleSetting> = Vec::new();
        let mut i: usize = 0;
        while i < 18
            invariant
                i <= 18,
                rules@ == rules_in_order(),
                out@.map_values(|s: LintRuleSetting| (s.rule@, s.severity)) == settings_of(self.overrides@, rules_in_order().take(i as int)),
            decreases 18 - i,
        {
            let rule = rules[i];
            let setting = LintRuleSetting { rule: rule.id().to_owned(), severity: self.severity(rule) };
            let ghost before = out@;
            out.push(setting);
            assert(out@.map_values(|s: LintRuleSetting| (s.rule@, s.severity)) =~= before.map_values(|s: LintRuleSetting| (s.rule@, s.severity)).push((rule_id(rule), severity_in(self.overrides@, rule))));
            assert(settings_of(self.overrides@, rules_in_order().take(i + 1)) =~= settings_of(self.overrides@, rules_in_order().take(i as int)).push((rule_id(rule), severity_in(self.overrides@, rule))));
            i = i + 1;
        }
        assert(rules_in_order().take(18) =~= rules_in_order());
        out
    }
}

/// The severity text that the configuration gives `rule`.
pub open spec fn configured_text(config: Option<JsonValue>, rule: LintRule) -> Option<Seq<char>> {
    json_str(json_member(json_member(config, "lint-rules"@), rule_id(rule)))
}

/// The severities the configuration sets, rule by rule.
pub open spec fn overrides_of(config: Option<JsonValue>, rules: Seq<LintRule>) -> Seq<(LintRule, LintRuleSeverity)>
    decreases rules.len(),
{
    if rules.len() == 0 {
        Seq::empty()
    } else {
        let prev = overrides_of(config, rules.drop_last());
        let r = rules.last();
        match configured_text(config, r) {
            Some(t) => match severity_named(t) {
                Some(s) => prev.push((r, s)),
                None => prev,
            },
            None => prev,
        }
    }
}

/// Where the configuration text first holds `value`.
pub open spec fn config_location(config_text: Option<Seq<char>>, value: Seq<char>) -> Option<(u32, u32)> {
    match config_text {
        Some(c) => if c.len() < u32::MAX {
            match crate::project::locations::text_location(c, value) {
                Some((l, k)) => Some((l as u32, k as u32)),
                None => None,
            }
        } else {
            None
        },
        None => None,
    }
}

/// The warning for a severity text that names no severity, placed where
/// the configuration holds it (unplaced where it cannot be found).
pub open spec fn invalid_severity_diagnostic(locale: Lang, rule: LintRule, raw: Seq<char>, config_text: Option<Seq<char>>) -> DiagnosticView {
    let d = hinted(
        plain_diagnostic(
            DiagnosticLevel::Warning,
            "patto_lint_rule_config_invalid"@,
            message_text(locale, "patto_lint_rule_config_invalid.message"@, seq![("rule"@, rule_id(rule)), ("severity"@, raw)]),
        ),
        translation(locale, hint_key("patto_lint_rule_config_invalid"@)),
    );
    match config_location(config_text, raw) {
        Some((l, k)) => located(d, ".patto/config.json"@, l, k),
        None => d,
    }
}

/// The warnings for the rules whose configured text names no severity.
pub open spec fn invalid_severities(locale: Lang, config: Option<JsonValue>, config_text: Option<Seq<char>>, rules: Seq<LintRule>) -> Seq<DiagnosticView>
    decreases rules.len(),
{
    if rules.len() == 0 {
        Seq::empty()
    } else {
        let prev = invalid_severities(locale, config, config_text, rules.drop_last());
        let r = rules.last();
        match configured_text(config, r) {
            Some(t) => if severity_named(t) is None {
                prev.push(invalid_severity_diagnostic(locale, r, t, config_text))
            } else {
                prev
            },
            None => prev,
        }
    }
}

/// Where the configuration text holds `value`, where it can be searched.
pub fn find_in_config(config_text: Option<&str>, value: &str) -> (res: Option<(u32, u32)>)
    ensures
        res == config_location(match config_text { Some(c) => Some(c@), None => None }, value@),
{
    match config_text {
        Some(c) => {
            let count = crate::text::chars_of(c).len();
            if count < u32::MAX as usize {
                crate::project::locations::find_text_location(c, value)
            } else {
                None
            }
        },
        None => None,
    }
}

/// Reads the severities that the configuration's `lint-rules` sets; a
/// text that names no severity is reported and the rule keeps its
/// default. `config_text` is the configuration's text, to place the
/// reports.
pub fn resolve_rule_config(config_json: Option<&JsonValue>, config_text: Option<&str>, locale: Lang) -> (res: (RuleConfig, Vec<Diagnostic>))
    ensures
        res.0.overrides@ == overrides_of(deref_opt(config_json), rules_in_order()),
        diags_view(res.1@) == invalid_severities(
            locale,
            deref_opt(config_json),
            match config_text { Some(c) => Some(c@), None => None },
            rules_in_order(),
        ),
{
    let ghost cfg = deref_opt(config_json);
    let ghost ct = match config_text { Some(c) => Some(c@), None => None };
    let rules = all_rules();
    let lint_rules = member(config_json, "lint-rules");
    let mut overrides: Vec<(LintRule, LintRuleSeverity)> = Vec::new();
    let mut diagnostics: Vec<Diagnostic> = Vec::new();
    let mut i: usize = 0;
    assert(diags_view(diagnostics@) =~= Seq::<DiagnosticView>::empty());
    while i < 18
        invariant
            i <= 18,
            rules@ == rules_in_order(),
            deref_opt(lint_rules) == json_member(cfg, "lint-rules"@),
            cfg == deref_opt(config_json),
            ct == match config_text { Some(c) => Some(c@), None => None },
            overrides@ == overrides_of(cfg, rules_in_order().take(i as int)),
            diags_view(diagnostics@) == invalid_severities(locale, cfg, ct, rules_in_order().take(i as int)),
        decreases 18 - i,
    {
        let rule = rules[i];
        proof {
            assert(rules_in_order().take(i + 1).drop_last() =~= rules_in_order().take(i as int));
            assert(rules_in_order().take(i + 1).last() == rule);
        }
        match text_value(member(lint_rules, rule.id())) {
            Some(raw) => match parse_rule_severity(raw.as_str()) {
                Some(severity) => {
                    overrides.push((rule, severity));
                },
                None => {
                    let args = [("rule", rule.id()), ("severity", raw.as_str())];
                    proof {
                        reveal_strlit("rule");
                        reveal_strlit("severity");
                        assert(crate::lang::args_view(args@) =~= seq![("rule"@, rule_id(rule)), ("severity"@, raw@)]);
                    }
                    let mut d = Diagnostic::new(
                        DiagnosticLevel::Warning,
                        DiagnosticCode::PATTO_LINT_RULE_CONFIG_INVALID,
                        crate::lang::message(locale, "patto_lint_rule_config_invalid.message", &args),
                    ).with_hint(crate::utils::hint_text(locale, DiagnosticCode::PATTO_LINT_RULE_CONFIG_INVALID));
                    match find_in_config(config_text, raw.as_str()) {
                        Some((line, column)) => {
                            d = d.with_location(".patto/config.json", line, column);
                        },
                        None => {},
                    }
                    let ghost before = diags_view(diagnostics@);
                    diagnostics.push(d);
                    assert(diags_view(diagnostics@) =~= before.push(d@));
                },
            },
            None => {},
        }
        i = i + 1;
    }
    assert(rules_in_order().take(18) =~= rules_in_order());
    (RuleConfig { overrides }, diagnostics)
}

} // verus!
