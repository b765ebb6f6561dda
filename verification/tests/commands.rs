use patto_cli_core::check::{check_output, empty_output};
use patto_cli_core::doctor::evaluate::DoctorEvaluation;
use patto_cli_core::json::JsonValue;
use patto_cli_core::lang::Lang;
use patto_cli_core::lint::context::ProjectFile;
use patto_cli_core::lint::{build_output, evaluate, LintEvaluation};
use patto_cli_core::output::{CommandKind, LintRuleSeverity, OutputStats, OutputStatus, PackageManager};
use patto_cli_core::project::package::LockFiles;
use patto_cli_core::project::parser::SourceFile;
use patto_cli_core::project::scanner::{scan_project, ProjectDirs, ProjectFacts, ProjectScan, WalkResult};
use patto_cli_core::scan::scan_output;
use patto_cli_core::utils::root_not_exists;

fn project(sources: &[(&str, &str)], config: Option<&str>) -> (ProjectScan, Vec<ProjectFile>) {
    let paths: Vec<String> = sources.iter().map(|(p, _)| p.to_string()).collect();
    let facts = ProjectFacts {
        root: "/fixture".to_string(),
        walk: WalkResult { files: paths.clone(), files_scanned: paths.len(), directories_scanned: 4 },
        config_exists: config.is_some(),
        config_content: config.map(|c| c.to_string()),
        package_exists: false,
        package_content: None,
        locks: LockFiles { pnpm: false, yarn: false, npm: false },
        dirs: ProjectDirs {
            commands: true,
            definitions: true,
            core: true,
            config: true,
            events: true,
            plugins: true,
        },
        sources: sources
            .iter()
            .map(|(p, c)| SourceFile { path: p.to_string(), content: Some(c.to_string()) })
            .collect(),
        files: paths,
    };
    let mut files: Vec<ProjectFile> = sources
        .iter()
        .map(|(p, c)| ProjectFile { path: p.to_string(), content: c.to_string() })
        .collect();
    if let Some(c) = config {
        files.push(ProjectFile { path: ".patto/config.json".to_string(), content: c.to_string() });
    }
    (scan_project(facts, Lang::Es), files)
}

const PING: &str = "\n@Command({ name: \"ping\", description: \"Ping command\", aliases: [\"p\"] })\nexport class PingCommand extends BaseCommand {\n  async run(): Promise<void> {}\n}\n";

#[test]
fn lint_reports_duplicate_commands_as_structured_json() {
    let (scan, files) = project(
        &[
            ("src/commands/general/ping.command.ts", PING),
            ("src/commands/admin/ping.command.ts", PING),
        ],
        None,
    );

    let evaluation = evaluate(&scan, &files, Lang::Es);
    let output = build_output(
        evaluation.diagnostics,
        OutputStats { files_scanned: 2, directories_scanned: 4, duration_ms: 5 },
        evaluation.rules,
    );

    assert_eq!(output.status, OutputStatus::Failed);
    assert_eq!(output.command, "lint");
    assert!(output.summary.errors >= 1);
    let duplicate = output
        .diagnostics
        .iter()
        .find(|d| d.code == "duplicate-commands")
        .expect("a duplicate-commands diagnostic");
    assert_eq!(duplicate.level, patto_cli_core::diagnostic::DiagnosticLevel::Error);
    assert!(duplicate.file.is_some());
    assert!(duplicate.line.is_some());
    assert!(duplicate.column.is_some());
    assert_eq!(output.summary.rules_run + output.summary.rules_off, 18);
}

#[test]
fn lint_respects_rule_severity_overrides_from_project_config() {
    let no_run = "\n@Command({ name: \"norun\", description: \"No run\" })\nexport class NoRunCommand extends BaseCommand {\n}\n";
    let config = "{ \"lint-rules\": { \"missing-run-method\": \"off\" } }";
    let (mut scan, files) = project(&[("src/commands/general/no-run.command.ts", no_run)], Some(config));
    scan.config_json = Some(JsonValue::Object(vec![(
        "lint-rules".to_string(),
        JsonValue::Object(vec![(
            "missing-run-method".to_string(),
            JsonValue::Text("off".to_string()),
        )]),
    )]));

    let evaluation = evaluate(&scan, &files, Lang::Es);

    assert!(evaluation.diagnostics.iter().all(|d| d.code != "missing-run-method"));
    let setting = evaluation
        .rules
        .iter()
        .find(|r| r.rule == "missing-run-method")
        .expect("the rule is listed");
    assert_eq!(setting.severity, LintRuleSeverity::Off);
}

#[test]
fn lint_without_override_reports_missing_run() {
    let no_run = "\n@Command({ name: \"norun\", description: \"No run\" })\nexport class NoRunCommand extends BaseCommand {\n}\n";
    let (scan, files) = project(&[("src/commands/general/no-run.command.ts", no_run)], None);
    let evaluation = evaluate(&scan, &files, Lang::Es);
    assert!(evaluation.diagnostics.iter().any(|d| d.code == "missing-run-method"));
}

#[test]
fn check_returns_structured_root_error_for_missing_root() {
    let mut diagnostics = Vec::new();
    assert!(root_not_exists(&mut diagnostics, false, false, Lang::Es));

    let output = empty_output(diagnostics, 3);

    assert_eq!(output.status, OutputStatus::Failed);
    assert_eq!(output.command, "check");
    assert_eq!(output.scan.status, OutputStatus::Failed);
    assert_eq!(output.scan.diagnostics[0].code, "patto_project_root_missing");
    assert!(output.diagnostics.iter().any(|d| d.code == "patto_project_root_missing"
        && d.hint.as_deref().unwrap_or_default().contains("--root")));
    assert_eq!(output.summary.errors, 1);
    assert_eq!(output.lint.status, OutputStatus::Passed);
}

#[test]
fn scan_outputs_index_path_when_written() {
    let (scan, _) = project(&[("src/commands/general/ping.command.ts", PING)], None);

    let output = scan_output(scan, None, Lang::Es, 7);

    assert_eq!(output.status, OutputStatus::Passed);
    assert_eq!(output.command, "scan");
    assert_eq!(output.index_path.as_deref(), Some(".patto/index.json"));
    assert_eq!(output.index.summary.commands, 1);
    assert_eq!(output.index.commands[0].key.as_deref(), Some("ping"));
}

#[test]
fn scan_reports_an_index_that_could_not_be_written() {
    let (scan, _) = project(&[("src/commands/general/ping.command.ts", PING)], None);
    let before = scan.diagnostics.len();

    let output = scan_output(scan, Some("disk full"), Lang::En, 7);

    assert_eq!(output.status, OutputStatus::Failed);
    assert_eq!(output.index_path, None);
    assert_eq!(output.diagnostics.len(), before + 1);
    let last = output.diagnostics.last().expect("the write failure");
    assert_eq!(last.code, "patto_scan_index_write_failed");
    assert!(last.hint.as_deref().unwrap_or("").ends_with(" disk full"));
}

#[test]
fn check_sums_the_sections() {
    let (scan, files) = project(
        &[
            ("src/commands/general/ping.command.ts", PING),
            ("src/commands/admin/ping.command.ts", PING),
        ],
        None,
    );
    let lint: LintEvaluation = evaluate(&scan, &files, Lang::En);
    let lint_errors = lint
        .diagnostics
        .iter()
        .filter(|d| d.level == patto_cli_core::diagnostic::DiagnosticLevel::Error)
        .count();
    let doctor = DoctorEvaluation { diagnostics: Vec::new(), checks: Vec::new() };
    let scan_count = scan.diagnostics.len();
    let lint_count = lint.diagnostics.len();

    let output = check_output(&scan, None, lint, doctor, Lang::En, 9);

    assert_eq!(output.command, "check");
    assert_eq!(output.diagnostics.len(), scan_count + lint_count);
    assert_eq!(output.summary.lint_errors, lint_errors);
    assert_eq!(output.lint.status, OutputStatus::Failed);
    assert_eq!(output.doctor.status, OutputStatus::Passed);
    assert_eq!(output.status, OutputStatus::Failed);
    assert_eq!(output.stats.duration_ms, 9);
}

#[test]
fn scan_reads_the_configuration_as_json() {
    let (scan, _) = project(
        &[("src/commands/general/ping.command.ts", PING)],
        Some("{ \"lang\": \"en\", \"features\": { \"i18n\": true } }"),
    );
    assert_eq!(scan.index.config.lang, "en");
    assert!(scan.index.config.exists);
    assert!(scan.config_json.is_some());
}

#[test]
fn scan_reports_a_configuration_that_is_not_json() {
    let (scan, _) = project(&[("src/commands/general/ping.command.ts", PING)], Some("{ lang: en"));
    assert!(scan.config_json.is_none());
    assert!(scan.diagnostics.iter().any(|d| d.code == "patto_config_invalid"));
}

#[test]
fn scanned_commands_come_ordered_by_file() {
    let pong = PING.replace("ping", "pong").replace("PingCommand", "PongCommand");
    let (scan, _) = project(
        &[
            ("src/commands/zeta/pong.command.ts", pong.as_str()),
            ("src/commands/alpha/ping.command.ts", PING),
        ],
        None,
    );
    let files: Vec<&str> = scan.index.commands.iter().map(|c| c.file.as_str()).collect();
    assert_eq!(files, vec!["src/commands/alpha/ping.command.ts", "src/commands/zeta/pong.command.ts"]);
}

#[test]
fn scan_project_inherits_metadata_from_decorated_definition() {
    let definition = "\n@Command({ name: \"base\", description: \"Base command\", aliases: [\"b\"] })\nexport abstract class BaseDefinition extends BaseCommand {}\n";
    let command = "\nexport class BaseCommandImpl extends BaseDefinition {\n  async run(): Promise<void> {}\n}\n";
    let package = "{ \"name\": \"fixture\", \"version\": \"1.0.0\", \"packageManager\": \"pnpm@9.0.0\" }";
    let relative = vec![
        "package.json".to_string(),
        "src/commands/general/base.command.ts".to_string(),
        "src/definitions/base.definition.ts".to_string(),
    ];
    let facts = ProjectFacts {
        root: "/fixture".to_string(),
        walk: WalkResult {
            files: relative.iter().map(|p| format!("/fixture/{p}")).collect(),
            files_scanned: 3,
            directories_scanned: 5,
        },
        config_exists: true,
        config_content: Some("{ \"lang\": \"es\" }".to_string()),
        package_exists: true,
        package_content: Some(package.to_string()),
        locks: LockFiles { pnpm: false, yarn: false, npm: false },
        dirs: ProjectDirs {
            commands: true,
            definitions: true,
            core: false,
            config: false,
            events: false,
            plugins: false,
        },
        sources: vec![
            SourceFile { path: relative[0].clone(), content: Some(package.to_string()) },
            SourceFile { path: relative[1].clone(), content: Some(command.to_string()) },
            SourceFile { path: relative[2].clone(), content: Some(definition.to_string()) },
        ],
        files: relative,
    };

    let scan = scan_project(facts, Lang::Es);

    assert!(scan.diagnostics.is_empty());
    assert_eq!(scan.index.package.package_manager, PackageManager::Pnpm);
    assert_eq!(scan.index.commands.len(), 1);
    let command = &scan.index.commands[0];
    assert_eq!(command.kind, CommandKind::Command);
    assert_eq!(command.file, "src/commands/general/base.command.ts");
    assert_eq!(command.metadata_file, "src/definitions/base.definition.ts");
    assert_eq!(command.key.as_deref(), Some("base"));
    assert_eq!(command.aliases, vec!["b"]);
    assert_eq!(command.class_name.as_deref(), Some("BaseCommandImpl"));
    assert_eq!(command.extends_name.as_deref(), Some("BaseDefinition"));
    assert!(command.has_run_method);
}
