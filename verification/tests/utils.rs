use patto_cli_core::diagnostic::DiagnosticCode;
use patto_cli_core::lang::Lang;
use patto_cli_core::utils::{mask_typescript_non_code, offset_to_line_column, root_not_exists};

#[test]
fn mask_typescript_non_code_preserves_offsets_and_ignores_comments_strings() {
    let content = "// PluginScope.Specified\nconst text = \"PluginScope.Specified\";\n/* Raíz PluginScope.Specified */\nscope: PluginScope.Specified,\n";
    let masked = mask_typescript_non_code(content);
    let offset = masked
        .find("PluginScope.Specified")
        .expect("code occurrence should remain");
    let original_offset = content
        .rfind("PluginScope.Specified")
        .expect("original code occurrence should exist");

    assert_eq!(offset, original_offset);
    assert_eq!(offset_to_line_column(content, offset), (4, 8));
    assert_eq!(masked.matches("PluginScope.Specified").count(), 1);
}

#[test]
fn mask_keeps_byte_length_and_line_breaks() {
    let content = "let a = 'ñandú'; // café\n/* ü */ b\n";
    let masked = mask_typescript_non_code(content);
    assert_eq!(masked.len(), content.len());
    assert_eq!(masked, "let a =          ;         \n         b\n");
}

#[test]
fn root_not_exists_reports_only_missing_root_when_path_does_not_exist() {
    let mut diagnostics = Vec::new();

    assert!(root_not_exists(&mut diagnostics, false, false, Lang::Es));
    assert_eq!(diagnostics.len(), 1);
    assert_eq!(
        diagnostics[0].code,
        DiagnosticCode::PATTO_PROJECT_ROOT_MISSING
    );
}

#[test]
fn root_that_is_a_file_is_reported() {
    let mut diagnostics = Vec::new();
    assert!(root_not_exists(&mut diagnostics, true, false, Lang::En));
    assert_eq!(diagnostics.len(), 1);
    assert_eq!(diagnostics[0].code, DiagnosticCode::PATTO_ROOT_NOT_DIRECTORY);
    let mut none = Vec::new();
    assert!(!root_not_exists(&mut none, true, true, Lang::En));
    assert!(none.is_empty());
}

#[test]
fn offset_to_line_column_counts_characters() {
    assert_eq!(offset_to_line_column("ab\ncd", 0), (1, 1));
    assert_eq!(offset_to_line_column("ab\ncd", 4), (2, 2));
    assert_eq!(offset_to_line_column("ñb\ncd", 2), (1, 2));
    assert_eq!(offset_to_line_column("ab", 10), (1, 3));
}

#[test]
fn masking_twice_changes_nothing() {
    let content = "const a = 'x // y'; /* c */ b / c; `t ${d}` // e\nf\n";
    let once = mask_typescript_non_code(content);
    assert_eq!(once, "const a =         ;         b / c;              \nf\n");
    assert_eq!(mask_typescript_non_code(&once), once);
}
