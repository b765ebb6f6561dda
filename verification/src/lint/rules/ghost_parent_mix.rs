//! A command should not share its name with the parent of subcommands.
use vstd::prelude::*;

use crate::diagnostic::{Diagnostic, DiagnosticCode, DiagnosticView};
use crate::lang::translation;
use crate::lint::context::{all_coded, lemma_coded_push, at_command, lint_diag, ProjectFile, RuleContext};
use crate::output::{commands_view, CommandIndexView, CommandKind, LintRuleSeverity};

verus! {

/// The parents named by the subcommands and groups of `cs`, in order.
pub open spec fn grouped_parents(cs: Seq<CommandIndexView>) -> Seq<Seq<char>>
    decreases cs.len(),
{
    if cs.len() == 0 {
        Seq::empty()
    } else {
        let prev = grouped_parents(cs.drop_last());
        let c = cs.last();
        if (c.kind == CommandKind::Subcommand || c.kind == CommandKind::SubcommandGroup)
            && c.parent is Some {
            prev.push(c.parent->0)
        } else {
            prev
        }
    }
}

fn parents_of_grouped(commands: &Vec<crate::output::CommandIndex>) -> (res: Vec<Vec<char>>)
    ensures
        res.deep_view() == grouped_parents(commands_view(commands@)),
{
    let ghost cv = commands_view(commands@);
    let mut out: Vec<Vec<char>> = Vec::new();
    let mut i: usize = 0;
    assert(cv.take(0) =~= Seq::<CommandIndexView>::empty());
    assert(out.deep_view() =~= Seq::<Seq<char>>::empty());
    while i < commands.len()
        invariant
            i <= commands@.len(),
            cv == commands_view(commands@),
            out.deep_view() == grouped_parents(cv.take(i as int)),
        decreases commands@.len() - i,
    {
        let c = &commands[i];
        assert(cv.take(i + 1).drop_last() =~= cv.take(i as int));
        assert(cv.take(i + 1).last() == c@);
        if c.kind == CommandKind::Subcommand || c.kind == CommandKind::SubcommandGroup {
            match &c.parent {
                Some(p) => {
                    let pc = crate::text::chars_of(p.as_str());
                    let ghost before = out.deep_view();
                    assert(pc.deep_view() =~= pc@);
                    out.push(pc);
                    assert(out.deep_view() =~= before.push(p@));
                },
                None => {},
            }
        }
        i = i + 1;
    }
    assert(cv.take(cv.len() as int) =~= cv);
    out
}

/// A diagnostic for each command whose name is the parent of some
/// subcommand or group of `all`, placed where it is declared.
pub open spec fn diagnostics_for(
    files: Seq<ProjectFile>,
    all: Seq<CommandIndexView>,
    commands: Seq<CommandIndexView>,
    locale: crate::lang::Lang,
    severity: LintRuleSeverity,
) -> Seq<DiagnosticView>
    decreases commands.len(),
{
    if commands.len() == 0 {
        Seq::empty()
    } else {
        let prev = diagnostics_for(files, all, commands.drop_last(), locale, severity);
        let c = commands.last();
        if c.kind == CommandKind::Command && c.name is Some && grouped_parents(all).contains(c.name->0) {

            prev.push(
                at_command(
                    files,
                    lint_diag(
                        locale,
                        "ghost-parent-mix"@,
                        severity,
                        "ghost-parent-mix.message"@,
                        seq![("name"@, c.name->0)],
                    ),
                    c,
                ),
            )
        } else {
            prev
        }
    }
}

/// Reports the commands that are also the parent of subcommands.
pub fn run(context: &RuleContext, severity: LintRuleSeverity) -> (res: Vec<Diagnostic>)
    ensures
        crate::diagnostic::diags_view(res@) == diagnostics_for(
            context.files@,
            commands_view(context.project.index.commands@),
            commands_view(context.project.index.commands@),
            context.locale,
            severity,
        ),
{
    let commands = &context.project.index.commands;
    let ghost cv = commands_view(commands@);
    let unnamed = crate::lang::text(context.locale, "common.unnamed");
    let parents = parents_of_grouped(commands);
    let mut out: Vec<Diagnostic> = Vec::new();
    let mut i: usize = 0;
    assert(cv.take(0) =~= Seq::<CommandIndexView>::empty());
    assert(crate::diagnostic::diags_view(out@) =~= Seq::<DiagnosticView>::empty());
    while i < commands.len()
        invariant
            i <= commands@.len(),
            cv == commands_view(commands@),
            commands == &context.project.index.commands,
            unnamed@ == translation(context.locale, "common.unnamed"@),
            parents.deep_view() == grouped_parents(cv),
            crate::diagnostic::diags_view(out@) == diagnostics_for(context.files@, cv, cv.take(i as int), context.locale, severity),
        decreases commands@.len() - i,
    {
        let c = &commands[i];
        proof {
            assert(cv.take(i + 1).drop_last() =~= cv.take(i as int));
            assert(cv.take(i + 1).last() == c@);
        }
        let hit = c.kind == CommandKind::Command && match &c.name {
            Some(n) => crate::lint::i18n::holds_name(&parents, &crate::text::chars_of(n.as_str())),
            None => false,
        };
        if hit {

            let name = match &c.name {
                Some(n) => n.as_str(),
                None => unnamed.as_str(),
            };
            let args = [("name", name)];
            proof {
                reveal_strlit("name");
                assert(crate::lang::args_view(args@) =~= seq![("name"@, name@)]);
            }
            let d = context.diagnostic(
                DiagnosticCode::PATTO_LINT_GHOST_PARENT_MIX,
                severity,
                "ghost-parent-mix.message",
                &args,
            );
            let d = context.attach_command_location(d, c);
            let ghost before = crate::diagnostic::diags_view(out@);
            out.push(d);
            assert(crate::diagnostic::diags_view(out@) =~= before.push(d@));
        }
        i = i + 1;
    }
    assert(cv.take(cv.len() as int) =~= cv);
    out
}

/// Each diagnostic of the rule has the rule's code and the level of
/// `severity`.
pub proof fn lemma_codes(
    files: Seq<ProjectFile>,
    all: Seq<CommandIndexView>,
    commands: Seq<CommandIndexView>,
    locale: crate::lang::Lang,
    severity: LintRuleSeverity,
)
    ensures
        all_coded(diagnostics_for(files, all, commands, locale, severity), "ghost-parent-mix"@, severity),
    decreases commands.len(),
{
    if commands.len() > 0 {
        lemma_codes(files, all, commands.drop_last(), locale, severity);
        let prev = diagnostics_for(files, all, commands.drop_last(), locale, severity);
        let res = diagnostics_for(files, all, commands, locale, severity);
        if res != prev {
            lemma_coded_push(prev, res.last(), "ghost-parent-mix"@, severity);
            assert(res =~= prev.push(res.last()));
        }
    }
}

} // verus!
