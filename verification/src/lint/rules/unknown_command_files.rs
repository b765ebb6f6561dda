//! Command files should declare a command.
use vstd::prelude::*;

use crate::diagnostic::{Diagnostic, DiagnosticCode, DiagnosticView};
use crate::lint::context::{all_coded, lemma_coded_push, at_command, lint_diag, ProjectFile, RuleContext};
use crate::output::{commands_view, CommandIndexView, CommandKind, LintRuleSeverity};

verus! {

/// A diagnostic for each command file that declares no command, placed at
/// the start of the file.
pub open spec fn diagnostics_for(
    files: Seq<ProjectFile>,
    commands: Seq<CommandIndexView>,
    locale: crate::lang::Lang,
    severity: LintRuleSeverity,
) -> Seq<DiagnosticView>
    decreases commands.len(),
{
    if commands.len() == 0 {
        Seq::empty()
    } else {
        let prev = diagnostics_for(files, commands.drop_last(), locale, severity);
        let c = commands.last();
        if c.kind == CommandKind::Unknown {

            prev.push(
                at_command(
                    files,
                    lint_diag(
                        locale,
                        "unknown-command-files"@,
                        severity,
                        "unknown-command-files.message"@,
                        seq![("file"@, c.file)],
                    ),
                    c,
                ),
            )
        } else {
            prev
        }
    }
}

/// Reports the command files that declare no command.
pub fn run(context: &RuleContext, severity: LintRuleSeverity) -> (res: Vec<Diagnostic>)
    ensures
        crate::diagnostic::diags_view(res@) == diagnostics_for(
            context.files@,
            commands_view(context.project.index.commands@),
            context.locale,
            severity,
        ),
{
    let commands = &context.project.index.commands;
    let ghost cv = commands_view(commands@);
    let mut out: Vec<Diagnostic> = Vec::new();
    let mut i: usize = 0;
    assert(cv.take(0) =~= Seq::<CommandIndexView>::empty());
    assert(crate::diagnostic::diags_view(out@) =~= Seq::<DiagnosticView>::empty());
    while i < commands.len()
        invariant
            i <= commands@.len(),
            cv == commands_view(commands@),
            commands == &context.project.index.commands,
            crate::diagnostic::diags_view(out@) == diagnostics_for(context.files@, cv.take(i as int), context.locale, severity),
        decreases commands@.len() - i,
    {
        let c = &commands[i];
        proof {
            assert(cv.take(i + 1).drop_last() =~= cv.take(i as int));
            assert(cv.take(i + 1).last() == c@);
        }
        if c.kind == CommandKind::Unknown {

            let args = [("file", c.file.as_str())];
            proof {
                reveal_strlit("file");
                assert(crate::lang::args_view(args@) =~= seq![("file"@, c.file@)]);
            }
            let d = context.diagnostic(
                DiagnosticCode::PATTO_LINT_UNKNOWN_COMMAND_FILES,
                severity,
                "unknown-command-files.message",
                &args,
            );
            let d = context.attach_command_location(d, c);
            let ghost before = crate::diagnostic::diags_view(out@);
            out.push(d);
            assert(crate::diagnostic::diags_view(out@) =~= before.push(d@));
        }
        i = i + 1;
    }
    assert(cv.take(cv.len() as int) =~= cv);
    out
}

/// Each diagnostic of the rule has the rule's code and the level of
/// `severity`.
pub proof fn lemma_codes(
    files: Seq<ProjectFile>,
    commands: Seq<CommandIndexView>,
    locale: crate::lang::Lang,
    severity: LintRuleSeverity,
)
    ensures
        all_coded(diagnostics_for(files, commands, locale, severity), "unknown-command-files"@, severity),
    decreases commands.len(),
{
    if commands.len() > 0 {
        lemma_codes(files, commands.drop_last(), locale, severity);
        let prev = diagnostics_for(files, commands.drop_last(), locale, severity);
        let res = diagnostics_for(files, commands, locale, severity);
        if res != prev {
            lemma_coded_push(prev, res.last(), "unknown-command-files"@, severity);
            assert(res =~= prev.push(res.last()));
        }
    }
}

} // verus!
