//! What the lint rules read: the scanned project, the texts of its files
//! and the locale of the messages.
use vstd::prelude::*;

use crate::diagnostic::{hinted, located, plain_diagnostic, Diagnostic, DiagnosticView};
use crate::json::{deref_opt, JsonValue};
use crate::lang::{args_view, message, message_text, translation, Lang};
use crate::lint::config::{diagnostic_level, level_of};
use crate::output::{CommandIndex, CommandIndexView, CommandKind, LintRuleSeverity};
use crate::project::locations::{text_location, value_location};
use crate::project::scanner::ProjectScan;
use crate::utils::{hint_key, hint_text};

verus! {

/// A readable file of the project: its path relative to the root and its
/// text.
pub struct ProjectFile {
    pub path: String,
    pub content: String,
}

/// The text of the file at `path`, if it was read.
pub open spec fn file_text(files: Seq<ProjectFile>, path: Seq<char>) -> Option<Seq<char>>
    decreases files.len(),
{
    if files.len() == 0 {
        None
    } else if files[0].path@ == path {
        Some(files[0].content@)
    } else {
        file_text(files.drop_first(), path)
    }
}

/// Every file read has fewer than `u32::MAX` characters, so that its lines
/// and columns fit in `u32`.
pub open spec fn files_fit(files: Seq<ProjectFile>) -> bool {
    forall|i: int| 0 <= i < files.len() ==> #[trigger] files[i].content@.len() < u32::MAX
}

/// A text `file_text` finds is the text of one of the files.
pub proof fn lemma_file_text_fits(files: Seq<ProjectFile>, path: Seq<char>)
    requires
        files_fit(files),
    ensures
        file_text(files, path) matches Some(c) ==> c.len() < u32::MAX,
    decreases files.len(),
{
    if files.len() > 0 && files[0].path@ != path {
        assert(files_fit(files.drop_first())) by {
            assert forall|i: int| 0 <= i < files.drop_first().len() implies #[trigger] files.drop_first()[i].content@.len() < u32::MAX by {
                assert(files.drop_first()[i] == files[i + 1]);
            }
        }
        lemma_file_text_fits(files.drop_first(), path);
    } else if files.len() > 0 {
        assert(files[0].content@.len() < u32::MAX);
    }
}

pub open spec fn small_loc(r: Option<(int, int)>) -> Option<(u32, u32)> {
    match r {
        Some((l, k)) => Some((l as u32, k as u32)),
        None => None,
    }
}

/// Where `value` first occurs in the file at `path`.
pub open spec fn text_loc(files: Seq<ProjectFile>, path: Seq<char>, value: Seq<char>) -> Option<(u32, u32)> {
    match file_text(files, path) {
        Some(c) => if c.len() < u32::MAX {
            small_loc(text_location(c, value))
        } else {
            None
        },
        None => None,
    }
}

/// Where `value` first occurs after `property:` in the file at `path`.
pub open spec fn value_loc(files: Seq<ProjectFile>, path: Seq<char>, property: Seq<char>, value: Seq<char>) -> Option<(u32, u32)> {
    match file_text(files, path) {
        Some(c) => if c.len() < u32::MAX {
            small_loc(value_location(c, property, value))
        } else {
            None
        },
        None => None,
    }
}

/// A rule's diagnostic: its level follows the rule's severity, its message
/// is message `key` filled from `args`, its hint the text of `code.hint`.
pub open spec fn lint_diag(
    locale: Lang,
    code: Seq<char>,
    severity: LintRuleSeverity,
    key: Seq<char>,
    args: Seq<(Seq<char>, Seq<char>)>,
) -> DiagnosticView {
    hinted(
        plain_diagnostic(level_of(severity), code, message_text(locale, key, args)),
        translation(locale, hint_key(code)),
    )
}

/// Every diagnostic of `ds` has code `code` and the level of `severity`.
pub open spec fn all_coded(ds: Seq<DiagnosticView>, code: Seq<char>, severity: LintRuleSeverity) -> bool {
    forall|i: int| 0 <= i < ds.len() ==> (#[trigger] ds[i]).code == code && ds[i].level == level_of(severity)
}

pub proof fn lemma_coded_concat(a: Seq<DiagnosticView>, b: Seq<DiagnosticView>, code: Seq<char>, severity: LintRuleSeverity)
    requires
        all_coded(a, code, severity),
        all_coded(b, code, severity),
    ensures
        all_coded(a + b, code, severity),
{
    assert forall|i: int| 0 <= i < (a + b).len() implies (#[trigger] (a + b)[i]).code == code && (a + b)[i].level == level_of(severity) by {
        if i < a.len() {
            assert((a + b)[i] == a[i]);
        } else {
            assert((a + b)[i] == b[i - a.len()]);
        }
    }
}

pub proof fn lemma_coded_push(a: Seq<DiagnosticView>, d: DiagnosticView, code: Seq<char>, severity: LintRuleSeverity)
    requires
        all_coded(a, code, severity),
        d.code == code,
        d.level == level_of(severity),
    ensures
        all_coded(a.push(d), code, severity),
{
    assert forall|i: int| 0 <= i < a.push(d).len() implies (#[trigger] a.push(d)[i]).code == code && a.push(d)[i].level == level_of(severity) by {
        if i < a.len() {
            assert(a.push(d)[i] == a[i]);
        }
    }
}

/// `d` placed at `location` in `file`, or at the start of `file`.
pub open spec fn placed(d: DiagnosticView, file: Seq<char>, location: Option<(u32, u32)>) -> DiagnosticView {
    match location {
        Some((l, k)) => located(d, file, l, k),
        None => located(d, file, 1, 1),
    }
}

/// The property and value that name a command where it is declared.
pub open spec fn marker_of(c: CommandIndexView) -> Option<(Seq<char>, Seq<char>)> {
    match c.kind {
        CommandKind::Command | CommandKind::Subcommand => match c.name {
            Some(n) => Some(("name"@, n)),
            None => None,
        },
        CommandKind::SubcommandGroup => match c.subcommand {
            Some(s) => Some(("subcommand"@, s)),
            None => None,
        },
        CommandKind::Unknown => None,
    }
}

/// `d` placed where command `c` is declared: at the value that names it in
/// its metadata file, at the start of that file, or at the start of the
/// command's own file where nothing names it.
pub open spec fn at_command(files: Seq<ProjectFile>, d: DiagnosticView, c: CommandIndexView) -> DiagnosticView {
    match marker_of(c) {
        Some((p, v)) => placed(d, c.metadata_file, value_loc(files, c.metadata_file, p, v)),
        None => located(d, c.file, 1, 1),
    }
}

/// What the rules read.
pub struct RuleContext<'a> {
    pub project: &'a ProjectScan,
    pub files: &'a Vec<ProjectFile>,
    pub locale: Lang,
}

impl<'a> RuleContext<'a> {
    /// The text of the file at `path`, if it was read.
    pub fn read_file(&self, path: &str) -> (res: Option<&'a String>)
        ensures
            match res {
                Some(c) => file_text(self.files@, path@) == Some(c@),
                None => file_text(self.files@, path@) is None,
            },
    {
        let files: &'a Vec<ProjectFile> = self.files;
        let mut i: usize = 0;
        assert(files@.skip(0) =~= files@);
        while i < files.len()
            invariant
                i <= files@.len(),
                files@ == self.files@,
                file_text(files@, path@) == file_text(files@.skip(i as int), path@),
            decreases files@.len() - i,
        {
            let ghost rest = files@.skip(i as int);
            assert(rest[0] == files@[i as int]);
            assert(rest.drop_first() =~= files@.skip(i + 1));
            if crate::text::str_eq(files[i].path.as_str(), path) {
                assert(file_text(rest, path@) == Some(files@[i as int].content@));
                return Some(&files[i].content);
            }
            i = i + 1;
        }
        None
    }

    /// Where `value` first occurs in the file at `path`.
    pub fn location_for_text(&self, path: &str, value: &str) -> (res: Option<(u32, u32)>)
        ensures
            res == text_loc(self.files@, path@, value@),
    {
        match self.read_file(path) {
            Some(c) => {
                let count = crate::text::chars_of(c.as_str()).len();
                if count < u32::MAX as usize {
                    crate::project::locations::find_text_location(c.as_str(), value)
                } else {
                    None
                }
            },
            None => None,
        }
    }

    /// Where `value` first occurs after `property:` in the file at `path`.
    pub fn location_for_value(&self, path: &str, property: &str, value: &str) -> (res: Option<(u32, u32)>)
        ensures
            res == value_loc(self.files@, path@, property@, value@),
    {
        match self.read_file(path) {
            Some(c) => {
                let count = crate::text::chars_of(c.as_str()).len();
                if count < u32::MAX as usize {
                    crate::project::locations::find_value_location(c.as_str(), property, value)
                } else {
                    None
                }
            },
            None => None,
        }
    }

    /// A rule's diagnostic.
    pub fn diagnostic(&self, code: &str, severity: LintRuleSeverity, key: &str, args: &[(&str, &str)]) -> (res: Diagnostic)
        ensures
            res@ == lint_diag(self.locale, code@, severity, key@, args_view(args@)),
    {
        Diagnostic::new(diagnostic_level(severity), code, message(self.locale, key, args)).with_hint(
            hint_text(self.locale, code),
        )
    }

    /// Whether the project's configuration switches `feature` on.
    pub fn feature_enabled(&self, feature: &str) -> (res: bool)
        ensures
            res == crate::doctor::evaluate::feature_on(self.project.config_json, feature@),
    {
        let c = self.project.config_json.as_ref();
        assert(deref_opt(c) == self.project.config_json);
        crate::doctor::evaluate::feature_enabled(c, feature)
    }

    /// The property and value that name `command` where it is declared.
    pub fn command_marker(command: &CommandIndex) -> (res: Option<(&'static str, &str)>)
        ensures
            match res {
                Some((p, v)) => marker_of(command@) == Some((p@, v@)),
                None => marker_of(command@) is None,
            },
    {
        match command.kind {
            CommandKind::Command | CommandKind::Subcommand => match &command.name {
                Some(n) => Some(("name", n.as_str())),
                None => None,
            },
            CommandKind::SubcommandGroup => match &command.subcommand {
                Some(s) => Some(("subcommand", s.as_str())),
                None => None,
            },
            CommandKind::Unknown => None,
        }
    }

    /// Places `diagnostic` where `command` is declared.
    pub fn attach_command_location(&self, diagnostic: Diagnostic, command: &CommandIndex) -> (res: Diagnostic)
        ensures
            res@ == at_command(self.files@, diagnostic@, command@),
    {
        match Self::command_marker(command) {
            Some((property, value)) => match self.location_for_value(command.metadata_file.as_str(), property, value) {
                Some((line, column)) => diagnostic.with_location(command.metadata_file.as_str(), line, column),
                None => diagnostic.with_location(command.metadata_file.as_str(), 1, 1),
            },
            None => diagnostic.with_location(command.file.as_str(), 1, 1),
        }
    }
}

} // verus!
