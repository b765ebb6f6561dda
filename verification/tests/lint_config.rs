use patto_cli_core::diagnostic::DiagnosticCode;
use patto_cli_core::json::JsonValue;
use patto_cli_core::project::CONFIG_RELATIVE_PATH;
use patto_cli_core::lang::Lang;
use patto_cli_core::lint::config::{parse_rule_severity, resolve_rule_config, LintRule};
use patto_cli_core::lint::rules::broken_alias_imports::{extract_alias_imports, resolves_alias_import, safe_alias_relative};
use patto_cli_core::output::LintRuleSeverity;

fn config(entries: Vec<(&str, &str)>) -> JsonValue {
    JsonValue::Object(vec![(
        "lint-rules".to_string(),
        JsonValue::Object(
            entries
                .into_iter()
                .map(|(k, v)| (k.to_string(), JsonValue::Text(v.to_string())))
                .collect(),
        ),
    )])
}

#[test]
fn parse_rule_severity_accepts_expected_values() {
    assert_eq!(parse_rule_severity("off"), Some(LintRuleSeverity::Off));
    assert_eq!(parse_rule_severity("INFO"), Some(LintRuleSeverity::Info));
    assert_eq!(parse_rule_severity("warn"), Some(LintRuleSeverity::Warning));
    assert_eq!(
        parse_rule_severity("warning"),
        Some(LintRuleSeverity::Warning)
    );
    assert_eq!(parse_rule_severity("error"), Some(LintRuleSeverity::Error));
    assert_eq!(parse_rule_severity("fatal"), None);
}

#[test]
fn resolve_rule_config_applies_configured_severity() {
    let config = config(vec![("duplicate-commands", "off"), ("missing-run-method", "info")]);

    let (rules, diagnostics) = resolve_rule_config(Some(&config), None, Lang::Es);

    assert!(diagnostics.is_empty());
    assert_eq!(rules.severity(LintRule::DuplicateCommands), LintRuleSeverity::Off);
    assert_eq!(rules.severity(LintRule::MissingRunMethod), LintRuleSeverity::Info);
}

#[test]
fn resolve_rule_config_reports_invalid_severity_with_location() {
    let text = "{\n  \"lint-rules\": {\n    \"duplicate-commands\": \"fatal\"\n  }\n}\n";
    let config = config(vec![("duplicate-commands", "fatal")]);

    let (_, diagnostics) = resolve_rule_config(Some(&config), Some(text), Lang::Es);

    assert_eq!(diagnostics.len(), 1);
    let diagnostic = &diagnostics[0];
    assert_eq!(
        diagnostic.code,
        DiagnosticCode::PATTO_LINT_RULE_CONFIG_INVALID
    );
    assert!(diagnostic.message.contains("duplicate-commands"));
    assert!(diagnostic.message.contains("fatal"));
    assert_eq!(diagnostic.file.as_deref(), Some(CONFIG_RELATIVE_PATH));
    assert!(diagnostic.line.is_some());
    assert!(diagnostic.column.is_some());
}

#[test]
fn invalid_severity_is_placed_at_its_text_and_keeps_the_default() {
    let text = "{\n  \"lint-rules\": {\n    \"duplicate-commands\": \"fatal\"\n  }\n}\n";
    let config = config(vec![("duplicate-commands", "fatal")]);

    let (rules, diagnostics) = resolve_rule_config(Some(&config), Some(text), Lang::Es);

    assert_eq!(rules.severity(LintRule::DuplicateCommands), LintRuleSeverity::Error);
    assert_eq!(diagnostics[0].line, Some(3));
    assert_eq!(diagnostics[0].column, Some(28));
}

#[test]
fn unconfigured_rules_keep_their_defaults() {
    let (rules, diagnostics) = resolve_rule_config(None, None, Lang::En);
    assert!(diagnostics.is_empty());
    assert_eq!(rules.severity(LintRule::DuplicateCommands), LintRuleSeverity::Error);
    assert_eq!(rules.severity(LintRule::FeatureConfig), LintRuleSeverity::Warning);
    assert_eq!(rules.to_output().len(), 18);
}

#[test]
fn safe_alias_relative_rejects_paths_that_escape_src() {
    assert!(safe_alias_relative("@/../package.json").is_none());
    assert!(safe_alias_relative("@/../../secrets").is_none());
    assert!(safe_alias_relative("@/").is_none());
}

#[test]
fn safe_alias_relative_keeps_paths_inside_src() {
    assert_eq!(safe_alias_relative("@/utils/./logger").as_deref(), Some("utils/logger"));
}

#[test]
fn resolves_alias_import_accepts_files_inside_src_only() {
    let files = vec!["package.json".to_string(), "src/utils/logger.ts".to_string()];

    assert!(resolves_alias_import(&files, "@/utils/logger"));
    assert!(!resolves_alias_import(&files, "@/../package.json"));
}

#[test]
fn alias_imports_are_sorted_and_distinct() {
    let imports = extract_alias_imports("import a from '@/b';\nimport c from \"@/a\";\nimport d from '@/b';\n");
    assert_eq!(imports, vec!["@/a".to_string(), "@/b".to_string()]);
}
