use patto_cli_core::diagnostic::DiagnosticCode;
use patto_cli_core::lang::{message, text, Lang};

#[test]
fn parse_accepts_supported_locale_aliases() {
    assert_eq!(Lang::parse("es-MX"), Lang::Es);
    assert_eq!(Lang::parse("en-us"), Lang::En);
    assert_eq!(Lang::parse("pt_BR"), Lang::PtBr);
}

#[test]
fn parse_falls_back_to_spanish_for_unknown_locale() {
    assert_eq!(Lang::parse("auto"), Lang::Es);
    assert_eq!(Lang::parse("fr"), Lang::Es);
}

#[test]
fn message_replaces_named_placeholders() {
    let rendered = message(
        Lang::Es,
        "cli.lint.completed",
        &[("errors", "1"), ("warnings", "2"), ("infos", "3")],
    );

    assert_eq!(
        rendered,
        "patto-core lint completed: 1 errores, 2 advertencias, 3 infos."
    );
}

#[test]
fn text_returns_empty_string_for_unknown_keys() {
    assert_eq!(text(Lang::Es, "missing.key"), "");
}

#[test]
fn message_without_arguments_is_the_text() {
    assert_eq!(
        message(Lang::En, "cli.lint.completed", &[]),
        text(Lang::En, "cli.lint.completed")
    );
    assert!(!text(Lang::En, "cli.lint.completed").is_empty());
}

#[test]
fn parse_ignores_case_of_whole_names() {
    assert_eq!(Lang::parse("EN"), Lang::En);
    assert_eq!(Lang::parse("PT-br"), Lang::PtBr);
}

#[test]
fn every_reported_code_has_message_and_hint() {
    let codes = [
        (DiagnosticCode::PATTO_PROJECT_ROOT_MISSING, false),
        (DiagnosticCode::PATTO_ROOT_NOT_DIRECTORY, false),
        (DiagnosticCode::PATTO_CONFIG_MISSING, false),
        (DiagnosticCode::PATTO_CONFIG_INVALID, false),
        (DiagnosticCode::PATTO_CONFIG_LANG_UNSUPPORTED, false),
        (DiagnosticCode::PATTO_PACKAGE_JSON_MISSING, false),
        (DiagnosticCode::PATTO_COMMANDS_DIR_MISSING, false),
        (DiagnosticCode::PATTO_SCAN_INDEX_WRITE_FAILED, false),
        (DiagnosticCode::PATTO_SOURCE_FILE_READ_FAILED, false),
        (DiagnosticCode::PATTO_LINT_RULE_CONFIG_INVALID, false),
        (DiagnosticCode::PATTO_FORMAT_I18N_LOCALE_DIR_MISSING, false),
        (DiagnosticCode::PATTO_FORMAT_I18N_FILE_UNSUPPORTED, true),
        (DiagnosticCode::PATTO_FORMAT_I18N_FILE_READ_FAILED, true),
        (DiagnosticCode::PATTO_FORMAT_I18N_FILE_WRITE_FAILED, true),
        (DiagnosticCode::PATTO_LINT_DUPLICATE_COMMANDS, false),
        (DiagnosticCode::PATTO_LINT_DUPLICATE_ALIASES, false),
        (DiagnosticCode::PATTO_LINT_UNKNOWN_COMMAND_FILES, false),
        (DiagnosticCode::PATTO_LINT_INVALID_COMMAND_NAMES, false),
        (DiagnosticCode::PATTO_LINT_DECORATED_BASE_COMMAND, false),
        (DiagnosticCode::PATTO_LINT_MISSING_RUN_METHOD, false),
        (DiagnosticCode::PATTO_LINT_SUBCOMMAND_CONSISTENCY, false),
        (DiagnosticCode::PATTO_LINT_GHOST_PARENT_MIX, false),
        (DiagnosticCode::PATTO_LINT_INVALID_ARGUMENTS, false),
        (DiagnosticCode::PATTO_LINT_COMMAND_FOLDER_CONVENTION, false),
        (DiagnosticCode::PATTO_LINT_BROKEN_ALIAS_IMPORTS, false),
        (DiagnosticCode::PATTO_LINT_PLUGIN_SPECIFIED_COMMANDS, false),
        (DiagnosticCode::PATTO_LINT_SHARDING_REDIS_CONFIG, false),
        (DiagnosticCode::PATTO_LINT_COMPONENT_HANDLER_METHODS, false),
        (DiagnosticCode::PATTO_LINT_FEATURE_CONFIG, false),
        (DiagnosticCode::PATTO_LINT_I18N_MISSING_KEYS, false),
        (DiagnosticCode::PATTO_LINT_I18N_DYNAMIC_KEYS, false),
        (DiagnosticCode::PATTO_LINT_I18N_LOCALE_PARITY, false),
        (DiagnosticCode::PATTO_DOCTOR_RUNTIME, false),
        (DiagnosticCode::PATTO_DOCTOR_PACKAGE_JSON, false),
        (DiagnosticCode::PATTO_DOCTOR_ENV, false),
        (DiagnosticCode::PATTO_DOCTOR_TSCONFIG, false),
        (DiagnosticCode::PATTO_DOCTOR_PROJECT_CONFIG, false),
        (DiagnosticCode::PATTO_DOCTOR_SHARDING_REDIS, false),
        (DiagnosticCode::PATTO_DOCTOR_BUILD_OUTPUT, false),
        (DiagnosticCode::PATTO_DOCTOR_I18N, false),
    ];
    for (code, names_file) in codes {
        let message_key = if names_file { format!("{code}.message") } else { code.to_string() };
        assert!(!text(Lang::Es, &message_key).is_empty(), "no message for {code}");
        assert!(!text(Lang::Es, &format!("{code}.hint")).is_empty(), "no hint for {code}");
    }
    assert_eq!(text(Lang::Es, "unknown-code.hint"), "");
}
