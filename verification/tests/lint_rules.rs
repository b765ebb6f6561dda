use patto_cli_core::json::JsonValue;
use patto_cli_core::lang::Lang;
use patto_cli_core::lint::context::{ProjectFile, RuleContext};
use patto_cli_core::lint::rules::component_handler_methods::extract_component_methods;
use patto_cli_core::lint::rules::i18n::locale_files::locale_of_path;
use patto_cli_core::lint::rules::{
    component_handler_methods, feature_config, plugin_specified_commands, sharding_redis_config,
};
use patto_cli_core::lint::rules::i18n::{dynamic_keys, locale_parity, missing_keys};
use patto_cli_core::output::LintRuleSeverity;
use patto_cli_core::project::package::LockFiles;
use patto_cli_core::project::parser::SourceFile;
use patto_cli_core::project::scanner::{
    empty_project_index, scan_project, ProjectDirs, ProjectFacts, ProjectScan, WalkResult,
};

fn bare_project(paths: &[&str], config_json: Option<JsonValue>) -> ProjectScan {
    ProjectScan {
        root: "/fixture".to_string(),
        index: empty_project_index(),
        diagnostics: Vec::new(),
        files_scanned: 0,
        directories_scanned: 0,
        config_json,
        files: paths.iter().map(|p| p.to_string()).collect(),
    }
}

fn read(files: &[(&str, &str)]) -> Vec<ProjectFile> {
    files
        .iter()
        .map(|(p, c)| ProjectFile { path: p.to_string(), content: c.to_string() })
        .collect()
}

fn scanned(sources: &[(&str, &str)]) -> ProjectScan {
    let paths: Vec<String> = sources.iter().map(|(p, _)| p.to_string()).collect();
    let facts = ProjectFacts {
        root: "/fixture".to_string(),
        walk: WalkResult { files: paths.clone(), files_scanned: paths.len(), directories_scanned: 3 },
        config_exists: false,
        config_content: None,
        package_exists: false,
        package_content: None,
        locks: LockFiles { pnpm: false, yarn: false, npm: false },
        dirs: ProjectDirs {
            commands: true,
            definitions: true,
            core: true,
            config: true,
            events: true,
            plugins: true,
        },
        sources: sources
            .iter()
            .map(|(p, c)| SourceFile { path: p.to_string(), content: Some(c.to_string()) })
            .collect(),
        files: paths,
    };
    scan_project(facts, Lang::Es)
}

fn i18n_on() -> JsonValue {
    JsonValue::Object(vec![(
        "features".to_string(),
        JsonValue::Object(vec![("i18n".to_string(), JsonValue::Bool(true))]),
    )])
}

#[test]
fn ignores_commented_plugin_scope_specified_blocks() {
    let content = r#"import { PluginRegistry, PluginScope } from './plugin.registry';

/**
 * Ejemplo 4: Aplicar plugin a comandos específicos
 */
// PluginRegistry.register({
//     plugin: new AuditLogPlugin(),
//     scope: PluginScope.Specified,
//     commands: [BanCommand, KickCommand],
// });

PluginRegistry.register({
    plugin: new CooldownPlugin(StoreRegistry.getCooldownStore()),
    scope: PluginScope.Specified,
    folderPath: '',
});
"#;
    let project = bare_project(&[], None);
    let files = read(&[("src/config/plugins.config.ts", content)]);
    let context = RuleContext { project: &project, files: &files, locale: Lang::Es };

    let diagnostics = plugin_specified_commands::run(&context, LintRuleSeverity::Warning);

    assert_eq!(diagnostics.len(), 1);
    assert_eq!(diagnostics[0].line, Some(14));
    assert_eq!(diagnostics[0].column, Some(12));
}

#[test]
fn plugin_blocks_that_list_commands_pass() {
    let content = "PluginRegistry.register({\n  scope: PluginScope.Specified,\n  commands: [ Ban ],\n});\nPluginRegistry.register({ scope: PluginScope.Specified, commands: [ ] });\n";
    let project = bare_project(&[], None);
    let files = read(&[("src/config/plugins.config.ts", content)]);
    let context = RuleContext { project: &project, files: &files, locale: Lang::En };

    let diagnostics = plugin_specified_commands::run(&context, LintRuleSeverity::Error);

    assert_eq!(diagnostics.len(), 1);
    assert_eq!(diagnostics[0].code, "plugin-specified-commands");
    assert_eq!(diagnostics[0].line, Some(5));
    assert_eq!(diagnostics[0].column, Some(34));
    assert_eq!(diagnostics[0].file.as_deref(), Some("src/config/plugins.config.ts"));
}

#[test]
fn sharding_without_redis_reports_url_and_stores() {
    let project = bare_project(&["src/core/store/store.registry.ts"], None);
    let files = read(&[(".env", "SHARDING_ENABLED=True\nREDIS_URL=   \n")]);
    let context = RuleContext { project: &project, files: &files, locale: Lang::En };

    let diagnostics = sharding_redis_config::run(&context, LintRuleSeverity::Warning);

    assert_eq!(diagnostics.len(), 3);
    assert_eq!(diagnostics[0].file.as_deref(), Some(".env"));
    assert_eq!(diagnostics[1].file.as_deref(), Some("src/core/store/redis.cooldown.store.ts"));
    assert_eq!(diagnostics[2].file.as_deref(), Some("src/core/store/redis.payload.store.ts"));
    assert!(diagnostics.iter().all(|d| d.line == Some(1) && d.column == Some(1)));
}

#[test]
fn sharding_off_reports_nothing() {
    let project = bare_project(&[], None);
    let files = read(&[(".env", "SHARDING_ENABLED=false\n")]);
    let context = RuleContext { project: &project, files: &files, locale: Lang::En };
    assert!(sharding_redis_config::run(&context, LintRuleSeverity::Warning).is_empty());
}

#[test]
fn component_methods_are_sorted_and_distinct() {
    let methods = extract_component_methods("a({ method: 'onZ' }); b({ method:\"onA\" }); c({ method: `onZ` }); d({ method: x })");
    assert_eq!(methods, vec!["onA".to_string(), "onZ".to_string()]);
}

#[test]
fn component_handlers_must_be_static() {
    let command = "@Command({ name: \"menu\" })\nexport class MenuCommand extends BaseCommand {\n  run() { button({ method: 'onClick' }); select({ method: 'onPick' }); }\n  static async onPick() {}\n}\n";
    let project = scanned(&[("src/commands/menu.command.ts", command)]);
    let files = read(&[("src/commands/menu.command.ts", command)]);
    let context = RuleContext { project: &project, files: &files, locale: Lang::En };

    let diagnostics = component_handler_methods::run(&context, LintRuleSeverity::Error);

    assert_eq!(diagnostics.len(), 1);
    assert!(diagnostics[0].message.contains("onClick"));
    assert_eq!(diagnostics[0].line, Some(3));
    assert_eq!(diagnostics[0].column, Some(29));
}

#[test]
fn feature_config_reports_each_problem() {
    let config = JsonValue::Object(vec![(
        "features".to_string(),
        JsonValue::Object(vec![
            ("i18n".to_string(), JsonValue::Text("yes".to_string())),
            ("voice".to_string(), JsonValue::Bool(true)),
        ]),
    )]);
    let project = bare_project(&[], Some(config));
    let files = read(&[(".patto/config.json", "{\n  \"features\": { \"i18n\": \"yes\", \"voice\": true }\n}\n")]);
    let context = RuleContext { project: &project, files: &files, locale: Lang::En };

    let diagnostics = feature_config::run(&context, LintRuleSeverity::Warning);

    assert_eq!(diagnostics.len(), 2);
    assert!(diagnostics[0].message.contains("i18n"));
    assert_eq!((diagnostics[0].line, diagnostics[0].column), (Some(2), Some(18)));
    assert!(diagnostics[1].message.contains("voice"));
    assert_ne!(diagnostics[0].message, diagnostics[1].message);
}

#[test]
fn feature_config_that_is_not_an_object_is_reported_once() {
    let config = JsonValue::Object(vec![("features".to_string(), JsonValue::Array(Vec::new()))]);
    let project = bare_project(&[], Some(config));
    let files = read(&[]);
    let context = RuleContext { project: &project, files: &files, locale: Lang::Es };

    let diagnostics = feature_config::run(&context, LintRuleSeverity::Info);

    assert_eq!(diagnostics.len(), 1);
    assert_eq!(diagnostics[0].file.as_deref(), Some(".patto/config.json"));
    assert_eq!((diagnostics[0].line, diagnostics[0].column), (Some(1), Some(1)));
}

#[test]
fn locale_files_are_named_by_their_stem() {
    assert_eq!(locale_of_path("src/i18n/locale/es.ts").as_deref(), Some("es"));
    assert_eq!(locale_of_path("src/i18n/locale/pt.BR.tsx").as_deref(), Some("pt.BR"));
    assert_eq!(locale_of_path("src/i18n/locale/.ts"), None);
    assert_eq!(locale_of_path("src/i18n/locale/es.json"), None);
    assert_eq!(locale_of_path("src/i18n/locale/nested/es.ts"), None);
    assert_eq!(locale_of_path("src/i18n/es.ts"), None);
}

fn i18n_fixture() -> (ProjectScan, Vec<ProjectFile>) {
    let paths = [
        "src/i18n/locale/es.ts",
        "src/i18n/locale/en.ts",
        "src/commands/ping.command.ts",
        "src/i18n/index.ts",
    ];
    let project = bare_project(&paths, Some(i18n_on()));
    let files = read(&[
        ("src/i18n/locale/es.ts", "export const es = {\n  'ping.title': 'Hola',\n  'only.es': 'x',\n};\n"),
        ("src/i18n/locale/en.ts", "export const en = {\n  'ping.title': 'Hi',\n};\n"),
        ("src/commands/ping.command.ts", "this.t('ping.title');\nthis.t('ping.body');\nthis.t('ping.body');\nthis.t(key);\n"),
        ("src/i18n/index.ts", "this.t('ignored.key');\n"),
    ]);
    (project, files)
}

#[test]
fn missing_keys_are_reported_once_per_locale() {
    let (project, files) = i18n_fixture();
    let context = RuleContext { project: &project, files: &files, locale: Lang::En };

    let diagnostics = missing_keys::run(&context, LintRuleSeverity::Error);

    assert_eq!(diagnostics.len(), 2);
    assert!(diagnostics[0].message.contains("ping.body"));
    assert!(diagnostics[0].message.contains("src/i18n/locale/en.ts"));
    assert!(diagnostics[1].message.contains("src/i18n/locale/es.ts"));
    assert_eq!(diagnostics[0].file.as_deref(), Some("src/commands/ping.command.ts"));
    assert_eq!((diagnostics[0].line, diagnostics[0].column), (Some(2), Some(9)));
}

#[test]
fn dynamic_keys_are_placed_where_they_start() {
    let (project, files) = i18n_fixture();
    let context = RuleContext { project: &project, files: &files, locale: Lang::En };

    let diagnostics = dynamic_keys::run(&context, LintRuleSeverity::Warning);

    assert_eq!(diagnostics.len(), 1);
    assert_eq!((diagnostics[0].line, diagnostics[0].column), (Some(4), Some(8)));
}

#[test]
fn locale_parity_reports_keys_another_locale_has() {
    let (project, files) = i18n_fixture();
    let context = RuleContext { project: &project, files: &files, locale: Lang::En };

    let diagnostics = locale_parity::run(&context, LintRuleSeverity::Warning);

    assert_eq!(diagnostics.len(), 1);
    assert!(diagnostics[0].message.contains("only.es"));
    assert_eq!(diagnostics[0].file.as_deref(), Some("src/i18n/locale/en.ts"));
}

#[test]
fn i18n_rules_are_silent_without_the_feature() {
    let (mut project, files) = i18n_fixture();
    project.config_json = None;
    let context = RuleContext { project: &project, files: &files, locale: Lang::En };
    assert!(missing_keys::run(&context, LintRuleSeverity::Error).is_empty());
    assert!(dynamic_keys::run(&context, LintRuleSeverity::Error).is_empty());
    assert!(locale_parity::run(&context, LintRuleSeverity::Error).is_empty());
}
