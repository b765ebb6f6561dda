//! Commands under `src/commands/` must implement `run()`.
use vstd::prelude::*;

use crate::diagnostic::{Diagnostic, DiagnosticCode, DiagnosticView};
use crate::text::starts_with;
use crate::lint::context::{all_coded, lemma_coded_push, text_loc, lint_diag, ProjectFile, RuleContext};
use crate::output::{commands_view, CommandIndexView, CommandKind, LintRuleSeverity};

verus! {

/// `d` placed at the class name of `c` in its file (unplaced where it
/// cannot be found), or at the start of the file where `c` has no class.
pub open spec fn at_class(files: Seq<ProjectFile>, d: DiagnosticView, c: CommandIndexView) -> DiagnosticView {
    match c.class_name {
        Some(n) => match text_loc(files, c.file, n) {
            Some((l, k)) => crate::diagnostic::located(d, c.file, l, k),
            None => d,
        },
        None => crate::diagnostic::located(d, c.file, 1, 1),
    }
}

/// A diagnostic for each command under `src/commands/` without a `run`
/// method, placed at its class name in its file (left unplaced where the
/// class name cannot be found) or at the start of the file where it has no
/// class.
pub open spec fn diagnostics_for(
    files: Seq<ProjectFile>,
    commands: Seq<CommandIndexView>,
    locale: crate::lang::Lang,
    severity: LintRuleSeverity,
) -> Seq<DiagnosticView>
    decreases commands.len(),
{
    if commands.len() == 0 {
        Seq::empty()
    } else {
        let prev = diagnostics_for(files, commands.drop_last(), locale, severity);
        let c = commands.last();
        if c.kind != CommandKind::Unknown && starts_with(c.file, "src/commands/"@) && !c.has_run_method {

            prev.push(
                at_class(
                    files,
                    lint_diag(
                        locale,
                        "missing-run-method"@,
                        severity,
                        "missing-run-method.message"@,
                        seq![("file"@, c.file)],
                    ),
                    c,
                ),
            )
        } else {
            prev
        }
    }
}

/// Reports the commands that do not implement `run()`.
pub fn run(context: &RuleContext, severity: LintRuleSeverity) -> (res: Vec<Diagnostic>)
    ensures
        crate::diagnostic::diags_view(res@) == diagnostics_for(
            context.files@,
            commands_view(context.project.index.commands@),
            context.locale,
            severity,
        ),
{
    let commands = &context.project.index.commands;
    let ghost cv = commands_view(commands@);
    let mut out: Vec<Diagnostic> = Vec::new();
    let mut i: usize = 0;
    assert(cv.take(0) =~= Seq::<CommandIndexView>::empty());
    assert(crate::diagnostic::diags_view(out@) =~= Seq::<DiagnosticView>::empty());
    while i < commands.len()
        invariant
            i <= commands@.len(),
            cv == commands_view(commands@),
            commands == &context.project.index.commands,
            crate::diagnostic::diags_view(out@) == diagnostics_for(context.files@, cv.take(i as int), context.locale, severity),
        decreases commands@.len() - i,
    {
        let c = &commands[i];
        proof {
            assert(cv.take(i + 1).drop_last() =~= cv.take(i as int));
            assert(cv.take(i + 1).last() == c@);
        }
        if c.kind != CommandKind::Unknown && crate::text::starts_with_str(&crate::text::chars_of(c.file.as_str()), "src/commands/") && !c.has_run_method {

            let args = [("file", c.file.as_str())];
            proof {
                reveal_strlit("file");
                assert(crate::lang::args_view(args@) =~= seq![("file"@, c.file@)]);
            }
            let d = context.diagnostic(
                DiagnosticCode::PATTO_LINT_MISSING_RUN_METHOD,
                severity,
                "missing-run-method.message",
                &args,
            );
            let d = match &c.class_name {
                Some(n) => match context.location_for_text(c.file.as_str(), n.as_str()) {
                    Some((line, column)) => d.with_location(c.file.as_str(), line, column),
                    None => d,
                },
                None => d.with_location(c.file.as_str(), 1, 1),
            };
            let ghost before = crate::diagnostic::diags_view(out@);
            out.push(d);
            assert(crate::diagnostic::diags_view(out@) =~= before.push(d@));
        }
        i = i + 1;
    }
    assert(cv.take(cv.len() as int) =~= cv);
    out
}

/// Each diagnostic of the rule has the rule's code and the level of
/// `severity`.
pub proof fn lemma_codes(
    files: Seq<ProjectFile>,
    commands: Seq<CommandIndexView>,
    locale: crate::lang::Lang,
    severity: LintRuleSeverity,
)
    ensures
        all_coded(diagnostics_for(files, commands, locale, severity), "missing-run-method"@, severity),
    decreases commands.len(),
{
    if commands.len() > 0 {
        lemma_codes(files, commands.drop_last(), locale, severity);
        let prev = diagnostics_for(files, commands.drop_last(), locale, severity);
        let res = diagnostics_for(files, commands, locale, severity);
        if res != prev {
            lemma_coded_push(prev, res.last(), "missing-run-method"@, severity);
            assert(res =~= prev.push(res.last()));
        }
    }
}

} // verus!
