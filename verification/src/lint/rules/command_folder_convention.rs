//! Command files should sit in the folder their kind calls for.
use vstd::prelude::*;

use crate::diagnostic::{Diagnostic, DiagnosticCode, DiagnosticView};
use crate::lint::context::{all_coded, lemma_coded_push, at_command, lint_diag, ProjectFile, RuleContext};
use crate::output::{commands_view, CommandIndexView, CommandKind, LintRuleSeverity};

verus! {

/// How many `/` the text holds.
pub open spec fn slash_count(s: Seq<char>) -> nat
    decreases s.len(),
{
    if s.len() == 0 {
        0
    } else {
        slash_count(s.drop_last()) + if s.last() == '/' {
            1nat
        } else {
            0nat
        }
    }
}

/// The file of a command sits where its kind calls for: a command at least
/// one folder deep, a subcommand in its parent's folder, a subcommand of a
/// group in its parent's and group's folder.
pub open spec fn matches_convention(c: CommandIndexView) -> bool {
    match c.kind {
        CommandKind::Command => slash_count(c.file) >= 2,
        CommandKind::Subcommand => match c.parent {
            Some(p) => crate::text::starts_with(c.file, "src/commands/"@ + p + seq!['/']),
            None => false,
        },
        CommandKind::SubcommandGroup => match (c.parent, c.group) {
            (Some(p), Some(g)) => crate::text::starts_with(
                c.file,
                "src/commands/"@ + p + seq!['/'] + g + seq!['/'],
            ),
            _ => false,
        },
        CommandKind::Unknown => true,
    }
}

/// A command under `src/commands/`, not an example, that breaks the
/// convention.
pub open spec fn misplaced(c: CommandIndexView) -> bool {
    crate::text::starts_with(c.file, "src/commands/"@) && !crate::text::contains(c.file, "/examples/"@)
        && !matches_convention(c)
}

fn count_slashes(s: &[char]) -> (n: usize)
    ensures
        n == slash_count(s@),
{
    let mut n: usize = 0;
    let mut i: usize = 0;
    while i < s.len()
        invariant
            i <= s@.len(),
            n <= i,
            n == slash_count(s@.take(i as int)),
        decreases s@.len() - i,
    {
        assert(s@.take(i + 1).drop_last() =~= s@.take(i as int));
        if s[i] == '/' {
            n = n + 1;
        }
        i = i + 1;
    }
    assert(s@.take(s@.len() as int) =~= s@);
    n
}

/// Whether the file of `command` sits where its kind calls for.
pub fn follows_convention(command: &crate::output::CommandIndex) -> (res: bool)
    ensures
        res == matches_convention(command@),
{
    let file = crate::text::chars_of(command.file.as_str());
    match command.kind {
        CommandKind::Command => count_slashes(&file) >= 2,
        CommandKind::Subcommand => match &command.parent {
            Some(p) => {
                let mut prefix = crate::text::chars_of("src/commands/");
                crate::text::push_str(&mut prefix, p.as_str());
                prefix.push('/');
                assert(prefix@ =~= "src/commands/"@ + p@ + seq!['/']);
                crate::text::starts_with_exec(&file, &prefix)
            },
            None => false,
        },
        CommandKind::SubcommandGroup => match (&command.parent, &command.group) {
            (Some(p), Some(g)) => {
                let mut prefix = crate::text::chars_of("src/commands/");
                crate::text::push_str(&mut prefix, p.as_str());
                prefix.push('/');
                crate::text::push_str(&mut prefix, g.as_str());
                prefix.push('/');
                assert(prefix@ =~= "src/commands/"@ + p@ + seq!['/'] + g@ + seq!['/']);
                crate::text::starts_with_exec(&file, &prefix)
            },
            _ => false,
        },
        CommandKind::Unknown => true,
    }
}

fn is_misplaced(command: &crate::output::CommandIndex) -> (res: bool)
    ensures
        res == misplaced(command@),
{
    let file = crate::text::chars_of(command.file.as_str());
    crate::text::starts_with_str(&file, "src/commands/") && !crate::text::contains_str(&file, "/examples/")
        && !follows_convention(command)
}

/// A diagnostic for each command under `src/commands/` (examples left
/// aside) that does not sit where its kind calls for, placed where it is
/// declared.
pub open spec fn diagnostics_for(
    files: Seq<ProjectFile>,
    commands: Seq<CommandIndexView>,
    locale: crate::lang::Lang,
    severity: LintRuleSeverity,
) -> Seq<DiagnosticView>
    decreases commands.len(),
{
    if commands.len() == 0 {
        Seq::empty()
    } else {
        let prev = diagnostics_for(files, commands.drop_last(), locale, severity);
        let c = commands.last();
        if misplaced(c) {

            prev.push(
                at_command(
                    files,
                    lint_diag(
                        locale,
                        "command-folder-convention"@,
                        severity,
                        "command-folder-convention.message"@,
                        seq![("file"@, c.file)],
                    ),
                    c,
                ),
            )
        } else {
            prev
        }
    }
}

/// Reports the commands that break the folder convention.
pub fn run(context: &RuleContext, severity: LintRuleSeverity) -> (res: Vec<Diagnostic>)
    ensures
        crate::diagnostic::diags_view(res@) == diagnostics_for(
            context.files@,
            commands_view(context.project.index.commands@),
            context.locale,
            severity,
        ),
{
    let commands = &context.project.index.commands;
    let ghost cv = commands_view(commands@);
    let mut out: Vec<Diagnostic> = Vec::new();
    let mut i: usize = 0;
    assert(cv.take(0) =~= Seq::<CommandIndexView>::empty());
    assert(crate::diagnostic::diags_view(out@) =~= Seq::<DiagnosticView>::empty());
    while i < commands.len()
        invariant
            i <= commands@.len(),
            cv == commands_view(commands@),
            commands == &context.project.index.commands,
            crate::diagnostic::diags_view(out@) == diagnostics_for(context.files@, cv.take(i as int), context.locale, severity),
        decreases commands@.len() - i,
    {
        let c = &commands[i];
        proof {
            assert(cv.take(i + 1).drop_last() =~= cv.take(i as int));
            assert(cv.take(i + 1).last() == c@);
        }
        if is_misplaced(c) {

            let args = [("file", c.file.as_str())];
            proof {
                reveal_strlit("file");
                assert(crate::lang::args_view(args@) =~= seq![("file"@, c.file@)]);
            }
            let d = context.diagnostic(
                DiagnosticCode::PATTO_LINT_COMMAND_FOLDER_CONVENTION,
                severity,
                "command-folder-convention.message",
                &args,
            );
            let d = context.attach_command_location(d, c);
            let ghost before = crate::diagnostic::diags_view(out@);
            out.push(d);
            assert(crate::diagnostic::diags_view(out@) =~= before.push(d@));
        }
        i = i + 1;
    }
    assert(cv.take(cv.len() as int) =~= cv);
    out
}

/// Each diagnostic of the rule has the rule's code and the level of
/// `severity`.
pub proof fn lemma_codes(
    files: Seq<ProjectFile>,
    commands: Seq<CommandIndexView>,
    locale: crate::lang::Lang,
    severity: LintRuleSeverity,
)
    ensures
        all_coded(diagnostics_for(files, commands, locale, severity), "command-folder-convention"@, severity),
    decreases commands.len(),
{
    if commands.len() > 0 {
        lemma_codes(files, commands.drop_last(), locale, severity);
        let prev = diagnostics_for(files, commands.drop_last(), locale, severity);
        let res = diagnostics_for(files, commands, locale, severity);
        if res != prev {
            lemma_coded_push(prev, res.last(), "command-folder-convention"@, severity);
            assert(res =~= prev.push(res.last()));
        }
    }
}

} // verus!
