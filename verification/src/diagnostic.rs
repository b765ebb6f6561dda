//! Diagnostics: what the analyzers report.
use vstd::prelude::*;

verus! {

/// How serious a diagnostic is.
#[derive(PartialEq, Eq, Structural, Clone, Copy, Debug)]
pub enum DiagnosticLevel {
    Error,
    Warning,
    Info,
}

/// One finding: its level, code and message, where it was found and a hint.
#[derive(Debug)]
pub struct Diagnostic {
    pub level: DiagnosticLevel,
    pub code: String,
    pub message: String,
    pub file: Option<String>,
    pub line: Option<u32>,
    pub column: Option<u32>,
    pub hint: Option<String>,
}

/// The abstract value of a diagnostic.
pub struct DiagnosticView {
    pub level: DiagnosticLevel,
    pub code: Seq<char>,
    pub message: Seq<char>,
    pub file: Option<Seq<char>>,
    pub line: Option<u32>,
    pub column: Option<u32>,
    pub hint: Option<Seq<char>>,
}

pub open spec fn opt_view(s: Option<String>) -> Option<Seq<char>> {
    match s {
        Some(v) => Some(v@),
        None => None,
    }
}

impl View for Diagnostic {
    type V = DiagnosticView;

    open spec fn view(&self) -> DiagnosticView {
        DiagnosticView {
            level: self.level,
            code: self.code@,
            message: self.message@,
            file: opt_view(self.file),
            line: self.line,
            column: self.column,
            hint: opt_view(self.hint),
        }
    }
}

/// A diagnostic with no location and no hint.
pub open spec fn plain_diagnostic(
    level: DiagnosticLevel,
    code: Seq<char>,
    message: Seq<char>,
) -> DiagnosticView {
    DiagnosticView { level, code, message, file: None, line: None, column: None, hint: None }
}

/// `d` placed at `file`, `line`, `column`.
pub open spec fn located(d: DiagnosticView, file: Seq<char>, line: u32, column: u32) -> DiagnosticView {
    DiagnosticView { file: Some(file), line: Some(line), column: Some(column), ..d }
}

/// `d` with the hint `hint`.
pub open spec fn hinted(d: DiagnosticView, hint: Seq<char>) -> DiagnosticView {
    DiagnosticView { hint: Some(hint), ..d }
}

/// The diagnostics of `ds` by their abstract values.
pub open spec fn diags_view(ds: Seq<Diagnostic>) -> Seq<DiagnosticView> {
    ds.map_values(|d: Diagnostic| d@)
}

/// A copy of an optional string.
pub fn copy_opt_string(s: &Option<String>) -> (res: Option<String>)
    ensures
        opt_view(res) == opt_view(*s),
{
    match s {
        Some(v) => Some(v.clone()),
        None => None,
    }
}

impl Diagnostic {
    /// A diagnostic of `level` with `code` and `message`, without location or hint.
    pub fn new(level: DiagnosticLevel, code: &str, message: String) -> (res: Diagnostic)
        ensures
            res@ == plain_diagnostic(level, code@, message@),
    {
        Diagnostic {
            level,
            code: code.to_owned(),
            message,
            hint: None,
            file: None,
            line: None,
            column: None,
        }
    }

    /// This diagnostic, located at `file`, `line`, `column`.
    pub fn with_location(self, file: &str, line: u32, column: u32) -> (res: Diagnostic)
        ensures
            res@ == located(self@, file@, line, column),
    {
        let mut d = self;
        d.file = Some(file.to_owned());
        d.line = Some(line);
        d.column = Some(column);
        d
    }

    /// This diagnostic, with `hint`.
    pub fn with_hint(self, hint: String) -> (res: Diagnostic)
        ensures
            res@ == hinted(self@, hint@),
    {
        let mut d = self;
        d.hint = Some(hint);
        d
    }

    /// A copy of this diagnostic.
    pub fn duplicate(&self) -> (res: Diagnostic)
        ensures
            res@ == self@,
    {
        Diagnostic {
            level: self.level,
            code: self.code.clone(),
            message: self.message.clone(),
            file: copy_opt_string(&self.file),
            line: self.line,
            column: self.column,
            hint: copy_opt_string(&self.hint),
        }
    }

    /// Whether this diagnostic is an error.
    pub fn is_error(&self) -> (res: bool)
        ensures
            res == (self.level == DiagnosticLevel::Error),
    {
        self.level == DiagnosticLevel::Error
    }
}

/// Copies of all of `ds`, in order.
pub fn duplicate_all(ds: &Vec<Diagnostic>) -> (res: Vec<Diagnostic>)
    ensures
        diags_view(res@) == diags_view(ds@),
{
    let mut res: Vec<Diagnostic> = Vec::new();
    let mut i: usize = 0;
    while i < ds.len()
        invariant
            i <= ds@.len(),
            diags_view(res@) == diags_view(ds@.take(i as int)),
        decreases ds@.len() - i,
    {
        let d = ds[i].duplicate();
        let ghost prev = res@;
        res.push(d);
        proof {
            assert(res@ =~= prev.push(d));
            assert(ds@.take(i + 1) =~= ds@.take(i as int).push(ds@[i as int]));
            assert(diags_view(res@) =~= diags_view(prev).push(d@));
            assert(diags_view(ds@.take(i + 1)) =~= diags_view(ds@.take(i as int)).push(
                ds@[i as int]@,
            ));
        }
        i = i + 1;
    }
    assert(ds@.take(ds@.len() as int) =~= ds@);
    res
}

/// Appends all of `extra` to `out`, in order.
pub fn append_all(out: &mut Vec<Diagnostic>, extra: Vec<Diagnostic>)
    ensures
        diags_view(final(out)@) == diags_view(old(out)@) + diags_view(extra@),
{
    let mut extra = extra;
    let ghost start = out@;
    let ghost added = extra@;
    out.append(&mut extra);
    assert(diags_view(out@) =~= diags_view(start) + diags_view(added));
}

/// The codes of diagnostics this tool reports.
pub struct DiagnosticCode;

impl DiagnosticCode {
    pub const PATTO_PROJECT_ROOT_MISSING: &'static str = "patto_project_root_missing";
    pub const PATTO_ROOT_NOT_DIRECTORY: &'static str = "patto_root_not_directory";
    pub const PATTO_CONFIG_MISSING: &'static str = "patto_config_missing";
    pub const PATTO_CONFIG_INVALID: &'static str = "patto_config_invalid";
    pub const PATTO_CONFIG_LANG_UNSUPPORTED: &'static str = "patto_config_lang_unsupported";
    pub const PATTO_PACKAGE_JSON_MISSING: &'static str = "patto_package_json_missing";
    pub const PATTO_COMMANDS_DIR_MISSING: &'static str = "patto_commands_dir_missing";
    pub const PATTO_SCAN_INDEX_WRITE_FAILED: &'static str = "patto_scan_index_write_failed";
    pub const PATTO_SOURCE_FILE_READ_FAILED: &'static str = "patto_source_file_read_failed";
    pub const PATTO_LINT_RULE_CONFIG_INVALID: &'static str = "patto_lint_rule_config_invalid";
    pub const PATTO_FORMAT_I18N_LOCALE_DIR_MISSING: &'static str =
        "patto_format_i18n_locale_dir_missing";
    pub const PATTO_FORMAT_I18N_FILE_UNSUPPORTED: &'static str =
        "patto_format_i18n_file_unsupported";
    pub const PATTO_FORMAT_I18N_FILE_READ_FAILED: &'static str =
        "patto_format_i18n_file_read_failed";
    pub const PATTO_FORMAT_I18N_FILE_WRITE_FAILED: &'static str =
        "patto_format_i18n_file_write_failed";
    pub const PATTO_LINT_DUPLICATE_COMMANDS: &'static str = "duplicate-commands";
    pub const PATTO_LINT_DUPLICATE_ALIASES: &'static str = "duplicate-aliases";
    pub const PATTO_LINT_UNKNOWN_COMMAND_FILES: &'static str = "unknown-command-files";
    pub const PATTO_LINT_INVALID_COMMAND_NAMES: &'static str = "invalid-command-names";
    pub const PATTO_LINT_DECORATED_BASE_COMMAND: &'static str = "decorated-base-command";
    pub const PATTO_LINT_MISSING_RUN_METHOD: &'static str = "missing-run-method";
    pub const PATTO_LINT_SUBCOMMAND_CONSISTENCY: &'static str = "subcommand-consistency";
    pub const PATTO_LINT_GHOST_PARENT_MIX: &'static str = "ghost-parent-mix";
    pub const PATTO_LINT_INVALID_ARGUMENTS: &'static str = "invalid-arguments";
    pub const PATTO_LINT_COMMAND_FOLDER_CONVENTION: &'static str = "command-folder-convention";
    pub const PATTO_LINT_BROKEN_ALIAS_IMPORTS: &'static str = "broken-alias-imports";
    pub const PATTO_LINT_PLUGIN_SPECIFIED_COMMANDS: &'static str = "plugin-specified-commands";
    pub const PATTO_LINT_SHARDING_REDIS_CONFIG: &'static str = "sharding-redis-config";
    pub const PATTO_LINT_COMPONENT_HANDLER_METHODS: &'static str = "component-handler-methods";
    pub const PATTO_LINT_FEATURE_CONFIG: &'static str = "feature-config";
    pub const PATTO_LINT_I18N_MISSING_KEYS: &'static str = "i18n-missing-keys";
    pub const PATTO_LINT_I18N_DYNAMIC_KEYS: &'static str = "i18n-dynamic-keys";
    pub const PATTO_LINT_I18N_LOCALE_PARITY: &'static str = "i18n-locale-parity";
    pub const PATTO_DOCTOR_RUNTIME: &'static str = "doctor-runtime";
    pub const PATTO_DOCTOR_PACKAGE_JSON: &'static str = "doctor-package-json";
    pub const PATTO_DOCTOR_ENV: &'static str = "doctor-env";
    pub const PATTO_DOCTOR_TSCONFIG: &'static str = "doctor-tsconfig";
    pub const PATTO_DOCTOR_PROJECT_CONFIG: &'static str = "doctor-project-config";
    pub const PATTO_DOCTOR_SHARDING_REDIS: &'static str = "doctor-sharding-redis";
    pub const PATTO_DOCTOR_BUILD_OUTPUT: &'static str = "doctor-build-output";
    pub const PATTO_DOCTOR_I18N: &'static str = "doctor-i18n";
}

} // verus!
