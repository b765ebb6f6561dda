//! The structured results of each command.
use vstd::prelude::*;

use crate::diagnostic::Diagnostic;

verus! {

/// Whether a command succeeded.
#[derive(PartialEq, Eq, Structural, Clone, Copy, Debug)]
pub enum OutputStatus {
    Passed,
    Failed,
}

/// Counters reported by every command.
#[derive(Debug)]
pub struct OutputStats {
    pub files_scanned: usize,
    pub directories_scanned: usize,
    pub duration_ms: u128,
}

// ----------------------------------------------------------------- scan

#[derive(Debug)]
pub struct ScanCommandOutput {
    pub status: OutputStatus,
    pub command: String,
    pub diagnostics: Vec<Diagnostic>,
    pub stats: OutputStats,
    pub index_path: Option<String>,
    pub index: ProjectIndex,
}

#[derive(Debug)]
pub struct ProjectIndex {
    pub schema_version: u32,
    pub generated_by: String,
    pub root: String,
    pub config: ProjectConfigIndex,
    pub package: PackageIndex,
    pub paths: ProjectPathsIndex,
    pub summary: ScanSummary,
    pub commands: Vec<CommandIndex>,
}

#[derive(Debug)]
pub struct ProjectConfigIndex {
    pub path: String,
    pub exists: bool,
    pub lang: String,
    pub supported_lang: bool,
}

#[derive(Debug)]
pub struct PackageIndex {
    pub path: String,
    pub exists: bool,
    pub name: Option<String>,
    pub version: Option<String>,
    pub main: Option<String>,
    pub package_manager: PackageManager,
    pub scripts: Vec<String>,
    pub dependencies: Vec<String>,
    pub dev_dependencies: Vec<String>,
}

#[derive(PartialEq, Eq, Structural, Clone, Copy, Debug)]
pub enum PackageManager {
    Npm,
    Pnpm,
    Yarn,
    Unknown,
}

#[derive(Debug)]
pub struct ProjectPathsIndex {
    pub commands_dir_exists: bool,
    pub definitions_dir_exists: bool,
    pub core_dir_exists: bool,
    pub config_dir_exists: bool,
    pub events_dir_exists: bool,
    pub plugins_dir_exists: bool,
}

#[derive(Debug)]
pub struct ScanSummary {
    pub files_scanned: usize,
    pub directories_scanned: usize,
    pub command_files: usize,
    pub definition_files: usize,
    pub event_files: usize,
    pub plugin_files: usize,
    pub commands: usize,
    pub subcommands: usize,
    pub subcommand_groups: usize,
    pub unknown_command_files: usize,
}

#[derive(Debug)]
pub struct CommandIndex {
    pub kind: CommandKind,
    pub key: Option<String>,
    pub file: String,
    pub metadata_file: String,
    pub class_name: Option<String>,
    pub extends_name: Option<String>,
    pub has_base_command_ancestor: bool,
    pub has_run_method: bool,
    pub name: Option<String>,
    pub parent: Option<String>,
    pub group: Option<String>,
    pub subcommand: Option<String>,
    pub description: Option<String>,
    pub category: Option<String>,
    pub aliases: Vec<String>,
    pub arguments: Vec<ArgumentIndex>,
}

#[derive(PartialEq, Eq, Structural, Clone, Copy, Debug)]
pub enum CommandKind {
    Command,
    Subcommand,
    SubcommandGroup,
    Unknown,
}

#[derive(Debug)]
pub struct ArgumentIndex {
    pub name: Option<String>,
    pub required: bool,
    pub raw_text: bool,
    pub type_hint: Option<String>,
    pub option_values: Vec<ArgumentOptionValue>,
}

#[derive(Debug)]
pub struct ArgumentOptionValue {
    pub raw: String,
    pub kind: ArgumentOptionValueKind,
}

#[derive(PartialEq, Eq, Structural, Clone, Copy, Debug)]
pub enum ArgumentOptionValueKind {
    String,
    Number,
    Boolean,
    Unknown,
}

// ----------------------------------------------------------------- lint

#[derive(Debug)]
pub struct LintCommandOutput {
    pub status: OutputStatus,
    pub command: String,
    pub diagnostics: Vec<Diagnostic>,
    pub stats: OutputStats,
    pub summary: LintSummary,
    pub rules: Vec<LintRuleSetting>,
}

#[derive(Debug)]
pub struct LintSummary {
    pub rules_run: usize,
    pub rules_off: usize,
    pub errors: usize,
    pub warnings: usize,
    pub infos: usize,
}

#[derive(Debug)]
pub struct LintRuleSetting {
    pub rule: String,
    pub severity: LintRuleSeverity,
}

#[derive(PartialEq, Eq, Structural, Clone, Copy, Debug)]
pub enum LintRuleSeverity {
    Off,
    Info,
    Warning,
    Error,
}

// ----------------------------------------------------------------- doctor

#[derive(Debug)]
pub struct DoctorCommandOutput {
    pub status: OutputStatus,
    pub command: String,
    pub diagnostics: Vec<Diagnostic>,
    pub stats: OutputStats,
    pub summary: DoctorSummary,
    pub checks: Vec<DoctorCheck>,
}

#[derive(Debug)]
pub struct DoctorSummary {
    pub checks_run: usize,
    pub ok: usize,
    pub warnings: usize,
    pub errors: usize,
    pub skipped: usize,
}

#[derive(Debug)]
pub struct DoctorCheck {
    pub id: String,
    pub status: DoctorCheckStatus,
    pub message: String,
    pub details: Vec<String>,
}

#[derive(PartialEq, Eq, Structural, Clone, Copy, Debug)]
pub enum DoctorCheckStatus {
    Passed,
    Warning,
    Error,
    Skipped,
}

// ----------------------------------------------------------------- format-i18n

#[derive(Debug)]
pub struct FormatI18nCommandOutput {
    pub status: OutputStatus,
    pub command: String,
    pub diagnostics: Vec<Diagnostic>,
    pub stats: OutputStats,
    pub summary: FormatI18nSummary,
    pub files: Vec<FormatI18nFile>,
}

#[derive(Debug)]
pub struct FormatI18nSummary {
    pub files_found: usize,
    pub files_formatted: usize,
    pub files_unchanged: usize,
    pub files_skipped: usize,
}

#[derive(Debug)]
pub struct FormatI18nFile {
    pub path: String,
    pub status: FormatI18nFileStatus,
}

#[derive(PartialEq, Eq, Structural, Clone, Copy, Debug)]
pub enum FormatI18nFileStatus {
    Formatted,
    Unchanged,
    Skipped,
}

// ----------------------------------------------------------------- check

#[derive(Debug)]
pub struct CheckCommandOutput {
    pub status: OutputStatus,
    pub command: String,
    pub diagnostics: Vec<Diagnostic>,
    pub stats: OutputStats,
    pub summary: CheckSummary,
    pub scan: CheckScanSection,
    pub lint: CheckLintSection,
    pub doctor: CheckDoctorSection,
}

#[derive(Debug)]
pub struct CheckSummary {
    pub errors: usize,
    pub warnings: usize,
    pub infos: usize,
    pub scan_errors: usize,
    pub lint_errors: usize,
    pub doctor_errors: usize,
}

#[derive(Debug)]
pub struct CheckScanSection {
    pub status: OutputStatus,
    pub diagnostics: Vec<Diagnostic>,
    pub index_path: Option<String>,
    pub files_scanned: usize,
    pub directories_scanned: usize,
    pub commands: usize,
    pub subcommands: usize,
    pub subcommand_groups: usize,
}

#[derive(Debug)]
pub struct CheckLintSection {
    pub status: OutputStatus,
    pub diagnostics: Vec<Diagnostic>,
    pub summary: LintSummary,
    pub rules: Vec<LintRuleSetting>,
}

#[derive(Debug)]
pub struct CheckDoctorSection {
    pub status: OutputStatus,
    pub diagnostics: Vec<Diagnostic>,
    pub summary: DoctorSummary,
    pub checks: Vec<DoctorCheck>,
}

// ----------------------------------------------------------------- views

pub open spec fn opt_str_view(s: Option<String>) -> Option<Seq<char>> {
    match s {
        Some(v) => Some(v@),
        None => None,
    }
}

pub open spec fn strings_view(v: Seq<String>) -> Seq<Seq<char>> {
    v.map_values(|s: String| s@)
}

pub struct ArgumentOptionValueView {
    pub raw: Seq<char>,
    pub kind: ArgumentOptionValueKind,
}

impl View for ArgumentOptionValue {
    type V = ArgumentOptionValueView;

    open spec fn view(&self) -> ArgumentOptionValueView {
        ArgumentOptionValueView { raw: self.raw@, kind: self.kind }
    }
}

pub struct ArgumentIndexView {
    pub name: Option<Seq<char>>,
    pub required: bool,
    pub raw_text: bool,
    pub type_hint: Option<Seq<char>>,
    pub option_values: Seq<ArgumentOptionValueView>,
}

impl View for ArgumentIndex {
    type V = ArgumentIndexView;

    open spec fn view(&self) -> ArgumentIndexView {
        ArgumentIndexView {
            name: opt_str_view(self.name),
            required: self.required,
            raw_text: self.raw_text,
            type_hint: opt_str_view(self.type_hint),
            option_values: self.option_values@.map_values(|o: ArgumentOptionValue| o@),
        }
    }
}

pub struct CommandIndexView {
    pub kind: CommandKind,
    pub key: Option<Seq<char>>,
    pub file: Seq<char>,
    pub metadata_file: Seq<char>,
    pub class_name: Option<Seq<char>>,
    pub extends_name: Option<Seq<char>>,
    pub has_base_command_ancestor: bool,
    pub has_run_method: bool,
    pub name: Option<Seq<char>>,
    pub parent: Option<Seq<char>>,
    pub group: Option<Seq<char>>,
    pub subcommand: Option<Seq<char>>,
    pub description: Option<Seq<char>>,
    pub category: Option<Seq<char>>,
    pub aliases: Seq<Seq<char>>,
    pub arguments: Seq<ArgumentIndexView>,
}

impl View for CommandIndex {
    type V = CommandIndexView;

    open spec fn view(&self) -> CommandIndexView {
        CommandIndexView {
            kind: self.kind,
            key: opt_str_view(self.key),
            file: self.file@,
            metadata_file: self.metadata_file@,
            class_name: opt_str_view(self.class_name),
            extends_name: opt_str_view(self.extends_name),
            has_base_command_ancestor: self.has_base_command_ancestor,
            has_run_method: self.has_run_method,
            name: opt_str_view(self.name),
            parent: opt_str_view(self.parent),
            group: opt_str_view(self.group),
            subcommand: opt_str_view(self.subcommand),
            description: opt_str_view(self.description),
            category: opt_str_view(self.category),
            aliases: strings_view(self.aliases@),
            arguments: self.arguments@.map_values(|a: ArgumentIndex| a@),
        }
    }
}

pub open spec fn commands_view(cs: Seq<CommandIndex>) -> Seq<CommandIndexView> {
    cs.map_values(|c: CommandIndex| c@)
}

/// A copy of an optional string.
pub fn copy_opt(s: &Option<String>) -> (res: Option<String>)
    ensures
        opt_str_view(res) == opt_str_view(*s),
{
    match s {
        Some(v) => Some(v.clone()),
        None => None,
    }
}

/// Copies of the strings of `v`, in order.
pub fn copy_strings(v: &Vec<String>) -> (res: Vec<String>)
    ensures
        strings_view(res@) == strings_view(v@),
{
    let mut res: Vec<String> = Vec::new();
    let mut i: usize = 0;
    while i < v.len()
        invariant
            i <= v@.len(),
            strings_view(res@) == strings_view(v@.take(i as int)),
        decreases v@.len() - i,
    {
        let s = v[i].clone();
        let ghost prev = res@;
        res.push(s);
        proof {
            assert(res@ =~= prev.push(s));
            assert(v@.take(i + 1) =~= v@.take(i as int).push(v@[i as int]));
            assert(strings_view(res@) =~= strings_view(prev).push(s@));
            assert(strings_view(v@.take(i + 1)) =~= strings_view(v@.take(i as int)).push(
                v@[i as int]@,
            ));
        }
        i = i + 1;
    }
    assert(v@.take(v@.len() as int) =~= v@);
    res
}

impl ArgumentOptionValue {
    pub fn duplicate(&self) -> (res: ArgumentOptionValue)
        ensures
            res@ == self@,
    {
        ArgumentOptionValue { raw: self.raw.clone(), kind: self.kind }
    }
}

impl ArgumentIndex {
    pub fn duplicate(&self) -> (res: ArgumentIndex)
        ensures
            res@ == self@,
    {
        let mut values: Vec<ArgumentOptionValue> = Vec::new();
        let mut i: usize = 0;
        while i < self.option_values.len()
            invariant
                i <= self.option_values@.len(),
                values@.map_values(|o: ArgumentOptionValue| o@) == self.option_values@.take(
                    i as int,
                ).map_values(|o: ArgumentOptionValue| o@),
            decreases self.option_values@.len() - i,
        {
            let o = self.option_values[i].duplicate();
            let ghost prev = values@;
            values.push(o);
            proof {
                assert(values@ =~= prev.push(o));
                assert(self.option_values@.take(i + 1) =~= self.option_values@.take(i as int).push(
                    self.option_values@[i as int],
                ));
                assert(values@.map_values(|o: ArgumentOptionValue| o@) =~= prev.map_values(
                    |o: ArgumentOptionValue| o@,
                ).push(o@));
                assert(self.option_values@.take(i + 1).map_values(|o: ArgumentOptionValue| o@)
                    =~= self.option_values@.take(i as int).map_values(
                    |o: ArgumentOptionValue| o@,
                ).push(self.option_values@[i as int]@));
            }
            i = i + 1;
        }
        assert(self.option_values@.take(self.option_values@.len() as int) =~= self.option_values@);
        ArgumentIndex {
            name: copy_opt(&self.name),
            required: self.required,
            raw_text: self.raw_text,
            type_hint: copy_opt(&self.type_hint),
            option_values: values,
        }
    }
}

impl CommandIndex {
    pub fn duplicate(&self) -> (res: CommandIndex)
        ensures
            res@ == self@,
    {
        let mut args: Vec<ArgumentIndex> = Vec::new();
        let mut i: usize = 0;
        while i < self.arguments.len()
            invariant
                i <= self.arguments@.len(),
                args@.map_values(|a: ArgumentIndex| a@) == self.arguments@.take(i as int).map_values(
                    |a: ArgumentIndex| a@,
                ),
            decreases self.arguments@.len() - i,
        {
            let a = self.arguments[i].duplicate();
            let ghost prev = args@;
            args.push(a);
            proof {
                assert(args@ =~= prev.push(a));
                assert(self.arguments@.take(i + 1) =~= self.arguments@.take(i as int).push(
                    self.arguments@[i as int],
                ));
                assert(args@.map_values(|a: ArgumentIndex| a@) =~= prev.map_values(
                    |a: ArgumentIndex| a@,
                ).push(a@));
                assert(self.arguments@.take(i + 1).map_values(|a: ArgumentIndex| a@)
                    =~= self.arguments@.take(i as int).map_values(|a: ArgumentIndex| a@).push(
                    self.arguments@[i as int]@,
                ));
            }
            i = i + 1;
        }
        assert(self.arguments@.take(self.arguments@.len() as int) =~= self.arguments@);
        CommandIndex {
            kind: self.kind,
            key: copy_opt(&self.key),
            file: self.file.clone(),
            metadata_file: self.metadata_file.clone(),
            class_name: copy_opt(&self.class_name),
            extends_name: copy_opt(&self.extends_name),
            has_base_command_ancestor: self.has_base_command_ancestor,
            has_run_method: self.has_run_method,
            name: copy_opt(&self.name),
            parent: copy_opt(&self.parent),
            group: copy_opt(&self.group),
            subcommand: copy_opt(&self.subcommand),
            description: copy_opt(&self.description),
            category: copy_opt(&self.category),
            aliases: copy_strings(&self.aliases),
            arguments: args,
        }
    }
}

} // verus!
