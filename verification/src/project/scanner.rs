//! Putting the project index together from what was read on disk.
use vstd::prelude::*;

use crate::diagnostic::{
    diags_view, hinted, plain_diagnostic, Diagnostic, DiagnosticCode, DiagnosticLevel,
    DiagnosticView,
};
use crate::json::{parsed_json, JsonValue};
use crate::lang::{text, translation, Lang};
use crate::output::{
    commands_view, CommandIndex, CommandIndexView, CommandKind, PackageManager, ProjectConfigIndex,
    ProjectIndex, ProjectPathsIndex, ScanSummary,
};
use crate::project::package::{
    config_diagnostics, empty_package_index, is_empty_package, scan_package_json,
    scan_project_config, LockFiles,
};
use crate::project::parser::{read_failures, scan_commands, scanned_commands, SourceFile};
use crate::text::{chars_of, contains, contains_str, replace_all, replace_chars, string_of};
use crate::utils::{coded, coded_diagnostic};

verus! {

/// The directories that a scan never enters.
pub open spec fn skipped_dir_name(name: Seq<char>) -> bool {
    name == ".git"@ || name == ".patto"@ || name == "node_modules"@ || name == "dist"@ || name
        == "build"@ || name == "target"@ || name == "coverage"@
}

/// Whether a scan skips a directory with this name.
pub fn should_skip_dir(name: &str) -> (res: bool)
    ensures
        res == skipped_dir_name(name@),
{
    let n = chars_of(name);
    crate::text::chars_eq_str(&n, ".git") || crate::text::chars_eq_str(&n, ".patto")
        || crate::text::chars_eq_str(&n, "node_modules") || crate::text::chars_eq_str(&n, "dist")
        || crate::text::chars_eq_str(&n, "build") || crate::text::chars_eq_str(&n, "target")
        || crate::text::chars_eq_str(&n, "coverage")
}

/// A path with its backslashes turned into slashes.
pub open spec fn normalized(path: Seq<char>) -> Seq<char> {
    replace_all(path, seq!['\\'], seq!['/'])
}

/// Turns the backslashes of a path into slashes.
pub fn normalize_path(path: &str) -> (res: String)
    ensures
        res@ == normalized(path@),
{
    let p = chars_of(path);
    let pat = ['\\'];
    let rep = ['/'];
    assert(pat@ =~= seq!['\\']);
    assert(rep@ =~= seq!['/']);
    let out = replace_chars(&p, &pat, &rep);
    string_of(&out)
}

/// The normalized path holds both `prefix` and `marker`.
pub open spec fn looks_like(path: Seq<char>, prefix: Seq<char>, marker: Seq<char>) -> bool {
    contains(normalized(path), prefix) && contains(normalized(path), marker)
}

/// Whether the normalized path holds both `prefix` and `marker`.
pub fn relative_path_looks_like(path: &str, prefix: &str, marker: &str) -> (res: bool)
    ensures
        res == looks_like(path@, prefix@, marker@),
{
    let n = normalize_path(path);
    let nc = chars_of(n.as_str());
    contains_str(&nc, prefix) && contains_str(&nc, marker)
}

/// Which of the directories of a Patto project exist.
#[derive(PartialEq, Eq, Structural, Clone, Copy, Debug)]
pub struct ProjectDirs {
    pub commands: bool,
    pub definitions: bool,
    pub core: bool,
    pub config: bool,
    pub events: bool,
    pub plugins: bool,
}

pub open spec fn paths_of(p: ProjectPathsIndex, dirs: ProjectDirs) -> bool {
    &&& p.commands_dir_exists == dirs.commands
    &&& p.definitions_dir_exists == dirs.definitions
    &&& p.core_dir_exists == dirs.core
    &&& p.config_dir_exists == dirs.config
    &&& p.events_dir_exists == dirs.events
    &&& p.plugins_dir_exists == dirs.plugins
}

/// What the paths of a project report: a missing `src/commands`.
pub open spec fn paths_diagnostics(locale: Lang, dirs: ProjectDirs) -> Seq<DiagnosticView> {
    if dirs.commands {
        Seq::empty()
    } else {
        seq![coded(DiagnosticLevel::Warning, locale, "patto_commands_dir_missing"@)]
    }
}

/// Records which directories exist; a missing `src/commands` is reported.
pub fn scan_project_paths(dirs: ProjectDirs, diagnostics: &mut Vec<Diagnostic>, locale: Lang) -> (res:
    ProjectPathsIndex)
    ensures
        paths_of(res, dirs),
        diags_view(final(diagnostics)@) == diags_view(old(diagnostics)@) + paths_diagnostics(
            locale,
            dirs,
        ),
{
    let ghost before = diags_view(diagnostics@);
    if !dirs.commands {
        let d = coded_diagnostic(
            DiagnosticLevel::Warning,
            DiagnosticCode::PATTO_COMMANDS_DIR_MISSING,
            locale,
        );
        diagnostics.push(d);
        assert(diags_view(diagnostics@) =~= before + seq![d@]);
    } else {
        assert(diags_view(diagnostics@) =~= before + Seq::<DiagnosticView>::empty());
    }
    ProjectPathsIndex {
        commands_dir_exists: dirs.commands,
        definitions_dir_exists: dirs.definitions,
        core_dir_exists: dirs.core,
        config_dir_exists: dirs.config,
        events_dir_exists: dirs.events,
        plugins_dir_exists: dirs.plugins,
    }
}

/// The files a walk of the project found (their full paths) and how many
/// files and directories it went through.
pub struct WalkResult {
    pub files: Vec<String>,
    pub files_scanned: usize,
    pub directories_scanned: usize,
}

/// How many paths of `paths` look like `prefix` and `marker`.
pub open spec fn count_like(paths: Seq<String>, prefix: Seq<char>, marker: Seq<char>) -> nat
    decreases paths.len(),
{
    if paths.len() == 0 {
        0
    } else {
        count_like(paths.drop_last(), prefix, marker) + if looks_like(
            paths.last()@,
            prefix,
            marker,
        ) {
            1nat
        } else {
            0nat
        }
    }
}

/// How many commands of `cs` are of `kind`.
pub open spec fn count_kind(cs: Seq<CommandIndexView>, kind: CommandKind) -> nat
    decreases cs.len(),
{
    if cs.len() == 0 {
        0
    } else {
        count_kind(cs.drop_last(), kind) + if cs.last().kind == kind {
            1nat
        } else {
            0nat
        }
    }
}

fn count_paths_like(paths: &Vec<String>, prefix: &str, marker: &str) -> (n: usize)
    ensures
        n == count_like(paths@, prefix@, marker@),
{
    let mut n: usize = 0;
    let mut i: usize = 0;
    while i < paths.len()
        invariant
            i <= paths@.len(),
            n <= i,
            n == count_like(paths@.take(i as int), prefix@, marker@),
        decreases paths@.len() - i,
    {
        proof {
            assert(paths@.take(i + 1).drop_last() =~= paths@.take(i as int));
        }
        if relative_path_looks_like(paths[i].as_str(), prefix, marker) {
            n = n + 1;
        }
        i = i + 1;
    }
    assert(paths@.take(paths@.len() as int) =~= paths@);
    n
}

fn count_commands_of_kind(commands: &Vec<CommandIndex>, kind: CommandKind) -> (n: usize)
    ensures
        n == count_kind(commands_view(commands@), kind),
{
    let ghost cv = commands_view(commands@);
    let mut n: usize = 0;
    let mut i: usize = 0;
    while i < commands.len()
        invariant
            i <= commands@.len(),
            cv == commands_view(commands@),
            n <= i,
            n == count_kind(cv.take(i as int), kind),
        decreases commands@.len() - i,
    {
        proof {
            assert(cv.take(i + 1).drop_last() =~= cv.take(i as int));
        }
        if commands[i].kind == kind {
            n = n + 1;
        }
        i = i + 1;
    }
    assert(cv.take(cv.len() as int) =~= cv);
    n
}

pub open spec fn summary_of(s: ScanSummary, walk: WalkResult, cs: Seq<CommandIndexView>) -> bool {
    &&& s.files_scanned == walk.files_scanned
    &&& s.directories_scanned == walk.directories_scanned
    &&& s.command_files == count_like(walk.files@, "src/commands"@, ".command."@)
    &&& s.definition_files == count_like(walk.files@, "src/definitions"@, ".definition."@)
    &&& s.event_files == count_like(walk.files@, "src/events"@, ".event."@)
    &&& s.plugin_files == count_like(walk.files@, "src/plugins"@, ".plugin."@)
    &&& s.commands == count_kind(cs, CommandKind::Command)
    &&& s.subcommands == count_kind(cs, CommandKind::Subcommand)
    &&& s.subcommand_groups == count_kind(cs, CommandKind::SubcommandGroup)
    &&& s.unknown_command_files == count_kind(cs, CommandKind::Unknown)
}

/// Counts the files and commands of a project.
pub fn build_summary(walk: &WalkResult, commands: &Vec<CommandIndex>) -> (res: ScanSummary)
    ensures
        summary_of(res, *walk, commands_view(commands@)),
{
    ScanSummary {
        files_scanned: walk.files_scanned,
        directories_scanned: walk.directories_scanned,
        command_files: count_paths_like(&walk.files, "src/commands", ".command."),
        definition_files: count_paths_like(&walk.files, "src/definitions", ".definition."),
        event_files: count_paths_like(&walk.files, "src/events", ".event."),
        plugin_files: count_paths_like(&walk.files, "src/plugins", ".plugin."),
        commands: count_commands_of_kind(commands, CommandKind::Command),
        subcommands: count_commands_of_kind(commands, CommandKind::Subcommand),
        subcommand_groups: count_commands_of_kind(commands, CommandKind::SubcommandGroup),
        unknown_command_files: count_commands_of_kind(commands, CommandKind::Unknown),
    }
}

/// What was read on disk for a scan: the root, the walk, the configuration
/// and `package.json` (whether each exists and its text, `None` where it
/// could not be read), the lock files, the directories, the source files
/// (with their paths relative to the root) and the relative paths of all
/// files.
pub struct ProjectFacts {
    pub root: String,
    pub walk: WalkResult,
    pub config_exists: bool,
    pub config_content: Option<String>,
    pub package_exists: bool,
    pub package_content: Option<String>,
    pub locks: LockFiles,
    pub dirs: ProjectDirs,
    pub sources: Vec<SourceFile>,
    pub files: Vec<String>,
}

/// A scanned project: its index, what the scan reported, its counters, its
/// parsed configuration and the relative paths of its files.
pub struct ProjectScan {
    pub root: String,
    pub index: ProjectIndex,
    pub diagnostics: Vec<Diagnostic>,
    pub files_scanned: usize,
    pub directories_scanned: usize,
    pub config_json: Option<JsonValue>,
    pub files: Vec<String>,
}

/// Scans a project from what was read on disk: the configuration, then
/// `package.json`, then the directories, then the commands, each reporting
/// in turn.
pub fn scan_project(facts: ProjectFacts, locale: Lang) -> (res: ProjectScan)
    ensures
        res.root@ == facts.root@,
        res.index.schema_version == 1,
        res.index.generated_by@ == "patto-core scan"@,
        res.index.root@ == facts.root@,
        diags_view(res.diagnostics@) == config_diagnostics(
            locale,
            facts.config_exists,
            crate::diagnostic::opt_view(facts.config_content),
        ) + (if facts.package_exists {
            Seq::<DiagnosticView>::empty()
        } else {
            seq![coded(DiagnosticLevel::Warning, locale, "patto_package_json_missing"@)]
        }) + paths_diagnostics(locale, facts.dirs) + read_failures(locale, facts.sources@),
        paths_of(res.index.paths, facts.dirs),
        commands_view(res.index.commands@) == scanned_commands(facts.sources@),
        summary_of(res.index.summary, facts.walk, commands_view(res.index.commands@)),
        res.files_scanned == facts.walk.files_scanned,
        res.directories_scanned == facts.walk.directories_scanned,
        res.files@ == facts.files@,
        res.index.config.exists == facts.config_exists,
        !facts.package_exists ==> is_empty_package(res.index.package),
        facts.package_exists ==> crate::project::package::package_read(
            res.index.package,
            match facts.package_content {
                Some(t) => parsed_json(t@),
                None => None,
            },
            facts.locks,
        ),
        facts.config_exists && facts.config_content is Some ==> res.config_json == parsed_json(
            facts.config_content->0@,
        ) && res.index.config.lang@ == crate::project::package::config_lang(res.config_json)
            && res.index.config.supported_lang == (crate::project::package::config_lang(
            res.config_json,
        ) == "es"@) && res.index.config.path@ == ".patto/config.json"@,
        !(facts.config_exists && facts.config_content is Some) ==> res.config_json is None
            && crate::project::package::default_config(res.index.config, facts.config_exists),
{
    let mut diagnostics: Vec<Diagnostic> = Vec::new();
    assert(diags_view(diagnostics@) =~= Seq::<DiagnosticView>::empty());
    let (config, config_json) = scan_project_config(
        facts.config_exists,
        facts.config_content,
        &mut diagnostics,
        locale,
    );
    let ghost d1 = diags_view(diagnostics@);
    let package = scan_package_json(
        facts.package_exists,
        facts.package_content,
        facts.locks,
        &mut diagnostics,
        locale,
    );
    let ghost d2 = diags_view(diagnostics@);
    proof {
        if facts.package_exists {
            assert(d2 =~= d1 + Seq::<DiagnosticView>::empty());
        } else {
            assert(d2 =~= d1 + seq![coded(DiagnosticLevel::Warning, locale, "patto_package_json_missing"@)]);
        }
    }
    let paths = scan_project_paths(facts.dirs, &mut diagnostics, locale);
    let commands = scan_commands(&facts.sources, &mut diagnostics, locale);
    let summary = build_summary(&facts.walk, &commands);
    let root_copy = facts.root.clone();
    ProjectScan {
        root: facts.root,
        index: ProjectIndex {
            schema_version: crate::project::INDEX_SCHEMA_VERSION,
            generated_by: "patto-core scan".to_owned(),
            root: root_copy,
            config,
            package,
            paths,
            summary,
            commands,
        },
        diagnostics,
        files_scanned: facts.walk.files_scanned,
        directories_scanned: facts.walk.directories_scanned,
        config_json,
        files: facts.files,
    }
}


/// The index of a project that has not been scanned.
pub open spec fn is_empty_index(i: ProjectIndex) -> bool {
    &&& i.schema_version == 1
    &&& i.generated_by@ == "patto-core scan"@
    &&& i.root@.len() == 0
    &&& crate::project::package::default_config(i.config, false)
    &&& is_empty_package(i.package)
    &&& paths_of(
        i.paths,
        ProjectDirs {
            commands: false,
            definitions: false,
            core: false,
            config: false,
            events: false,
            plugins: false,
        },
    )
    &&& i.summary.files_scanned == 0 && i.summary.directories_scanned == 0
    &&& i.summary.command_files == 0 && i.summary.definition_files == 0
    &&& i.summary.event_files == 0 && i.summary.plugin_files == 0
    &&& i.summary.commands == 0 && i.summary.subcommands == 0
    &&& i.summary.subcommand_groups == 0 && i.summary.unknown_command_files == 0
    &&& i.commands@.len() == 0
}

/// The index of a project that has not been scanned.
pub fn empty_project_index() -> (res: ProjectIndex)
    ensures
        is_empty_index(res),
{
    ProjectIndex {
        schema_version: crate::project::INDEX_SCHEMA_VERSION,
        generated_by: "patto-core scan".to_owned(),
        root: String::new(),
        config: ProjectConfigIndex {
            path: ".patto/config.json".to_owned(),
            exists: false,
            lang: "es".to_owned(),
            supported_lang: true,
        },
        package: empty_package_index(),
        paths: ProjectPathsIndex {
            commands_dir_exists: false,
            definitions_dir_exists: false,
            core_dir_exists: false,
            config_dir_exists: false,
            events_dir_exists: false,
            plugins_dir_exists: false,
        },
        summary: ScanSummary {
            files_scanned: 0,
            directories_scanned: 0,
            command_files: 0,
            definition_files: 0,
            event_files: 0,
            plugin_files: 0,
            commands: 0,
            subcommands: 0,
            subcommand_groups: 0,
            unknown_command_files: 0,
        },
        commands: Vec::new(),
    }
}

/// The diagnostic for an index that could not be written; its hint ends
/// with the error's text.
pub open spec fn index_write_failed(locale: Lang, error: Seq<char>) -> DiagnosticView {
    hinted(
        plain_diagnostic(
            DiagnosticLevel::Error,
            "patto_scan_index_write_failed"@,
            translation(locale, "patto_scan_index_write_failed"@),
        ),
        translation(locale, crate::utils::hint_key("patto_scan_index_write_failed"@)) + seq![' '] + error,
    )
}

/// The diagnostic for an index that could not be written.
pub fn index_write_failed_diagnostic(locale: Lang, error: &str) -> (res: Diagnostic)
    ensures
        res@ == index_write_failed(locale, error@),
{
    let h = crate::utils::hint_text(locale, DiagnosticCode::PATTO_SCAN_INDEX_WRITE_FAILED);
    let mut hint = chars_of(h.as_str());
    let ghost h0 = hint@;
    hint.push(' ');
    assert(hint@ =~= h0 + seq![' ']);
    crate::text::push_str(&mut hint, error);
    assert(hint@ =~= h@ + seq![' '] + error@);
    Diagnostic::new(
        DiagnosticLevel::Error,
        DiagnosticCode::PATTO_SCAN_INDEX_WRITE_FAILED,
        text(locale, DiagnosticCode::PATTO_SCAN_INDEX_WRITE_FAILED),
    ).with_hint(string_of(&hint))
}

} // verus!
