//! Aliases must point at one command and must not be another command's
//! name.
use vstd::prelude::*;

use crate::diagnostic::{diags_view, Diagnostic, DiagnosticCode, DiagnosticView};
use crate::lint::context::{all_coded, lemma_coded_concat, lemma_coded_push, lint_diag, placed, text_loc, ProjectFile, RuleContext};
use crate::lint::rules::duplicate_commands::{count_labelled, distinct_labels, labelled, pairs_of};
use crate::output::{commands_view, strings_view, CommandIndex, CommandIndexView, CommandKind, LintRuleSeverity};
use crate::project::parser_support::ascii_lower;

verus! {

/// The aliases of the commands (not subcommands), each lowercased and with
/// its command, in order.
pub open spec fn alias_pairs(cs: Seq<CommandIndexView>) -> Seq<(Seq<char>, CommandIndexView)>
    decreases cs.len(),
{
    if cs.len() == 0 {
        Seq::empty()
    } else {
        let prev = alias_pairs(cs.drop_last());
        let c = cs.last();
        if c.kind == CommandKind::Command {
            prev + c.aliases.map_values(|a: Seq<char>| (ascii_lower(a), c))
        } else {
            prev
        }
    }
}

/// The names of the commands (not subcommands).
pub open spec fn command_names(cs: Seq<CommandIndexView>) -> Seq<Seq<char>>
    decreases cs.len(),
{
    if cs.len() == 0 {
        Seq::empty()
    } else {
        let prev = command_names(cs.drop_last());
        let c = cs.last();
        if c.kind == CommandKind::Command && c.name is Some {
            prev.push(c.name->0)
        } else {
            prev
        }
    }
}

/// The diagnostic for `alias` of command `c`, placed at the alias in the
/// command's metadata file.
pub open spec fn alias_diag(
    files: Seq<ProjectFile>,
    c: CommandIndexView,
    alias: Seq<char>,
    key: Seq<char>,
    locale: crate::lang::Lang,
    severity: LintRuleSeverity,
) -> DiagnosticView {
    placed(
        lint_diag(locale, "duplicate-aliases"@, severity, key, seq![("alias"@, alias)]),
        c.metadata_file,
        text_loc(files, c.metadata_file, alias),
    )
}

/// A duplicate-alias diagnostic for each command of `owners`.
pub open spec fn owner_diagnostics(
    files: Seq<ProjectFile>,
    owners: Seq<CommandIndexView>,
    alias: Seq<char>,
    locale: crate::lang::Lang,
    severity: LintRuleSeverity,
) -> Seq<DiagnosticView>
    decreases owners.len(),
{
    if owners.len() == 0 {
        Seq::empty()
    } else {
        owner_diagnostics(files, owners.drop_last(), alias, locale, severity).push(
            alias_diag(files, owners.last(), alias, "duplicate-aliases.duplicate.message"@, locale, severity),
        )
    }
}

/// For each alias (in the order aliases first appear): a diagnostic for
/// each of its commands where more than one command has it, else one where
/// it is the name of a command.
pub open spec fn diagnostics_for_aliases(
    files: Seq<ProjectFile>,
    pairs: Seq<(Seq<char>, CommandIndexView)>,
    names: Seq<Seq<char>>,
    aliases: Seq<Seq<char>>,
    locale: crate::lang::Lang,
    severity: LintRuleSeverity,
) -> Seq<DiagnosticView>
    decreases aliases.len(),
{
    if aliases.len() == 0 {
        Seq::empty()
    } else {
        let prev = diagnostics_for_aliases(files, pairs, names, aliases.drop_last(), locale, severity);
        let a = aliases.last();
        let owners = labelled(pairs, a);
        if owners.len() > 1 {
            prev + owner_diagnostics(files, owners, a, locale, severity)
        } else if names.contains(a) && owners.len() == 1 {
            prev.push(alias_diag(files, owners[0], a, "duplicate-aliases.name-conflict.message"@, locale, severity))
        } else {
            prev
        }
    }
}

/// The diagnostics of the rule.
pub open spec fn diagnostics_for(
    files: Seq<ProjectFile>,
    commands: Seq<CommandIndexView>,
    locale: crate::lang::Lang,
    severity: LintRuleSeverity,
) -> Seq<DiagnosticView> {
    let pairs = alias_pairs(commands);
    diagnostics_for_aliases(files, pairs, command_names(commands), distinct_labels(pairs), locale, severity)
}

fn alias_list(commands: &Vec<CommandIndex>) -> (res: Vec<(Vec<char>, usize)>)
    ensures
        pairs_of(res@, commands_view(commands@)) == alias_pairs(commands_view(commands@)),
        forall|j: int| 0 <= j < res@.len() ==> (#[trigger] res@[j]).1 < commands@.len(),
{
    let ghost cv = commands_view(commands@);
    let mut out: Vec<(Vec<char>, usize)> = Vec::new();
    let mut i: usize = 0;
    assert(cv.take(0) =~= Seq::<CommandIndexView>::empty());
    assert(pairs_of(out@, cv) =~= Seq::<(Seq<char>, CommandIndexView)>::empty());
    while i < commands.len()
        invariant
            i <= commands@.len(),
            cv == commands_view(commands@),
            pairs_of(out@, cv) == alias_pairs(cv.take(i as int)),
            forall|j: int| 0 <= j < out@.len() ==> (#[trigger] out@[j]).1 < i,
        decreases commands@.len() - i,
    {
        let c = &commands[i];
        assert(cv.take(i + 1).drop_last() =~= cv.take(i as int));
        assert(cv.take(i + 1).last() == c@);
        if c.kind == CommandKind::Command {
            let ghost p0 = pairs_of(out@, cv);
            let ghost av = strings_view(c.aliases@);
            let ghost f = |a: Seq<char>| (ascii_lower(a), cv[i as int]);
            let mut k: usize = 0;
            assert(av.take(0).map_values(f) =~= Seq::<(Seq<char>, CommandIndexView)>::empty());
            assert(p0 + av.take(0).map_values(f) =~= p0);
            while k < c.aliases.len()
                invariant
                    k <= c.aliases@.len(),
                    i < commands@.len(),
                    c == &commands[i as int],
                    cv == commands_view(commands@),
                    av == strings_view(c.aliases@),
                    f == (|a: Seq<char>| (ascii_lower(a), cv[i as int])),
                    pairs_of(out@, cv) == p0 + av.take(k as int).map_values(f),
                    forall|j: int| 0 <= j < out@.len() ==> (#[trigger] out@[j]).1 < i + 1,
                decreases c.aliases@.len() - k,
            {
                let ac = crate::text::chars_of(c.aliases[k].as_str());
                let lower = crate::project::parser_support::lower_ascii_vec(&ac, 0);
                assert(ac@.skip(0) =~= ac@);
                let ghost before = pairs_of(out@, cv);
                out.push((lower, i));
                assert(av.take(k + 1).map_values(f) =~= av.take(k as int).map_values(f).push(f(av[k as int])));
                assert(pairs_of(out@, cv) =~= before.push((ascii_lower(av[k as int]), cv[i as int])));
                k = k + 1;
            }
            assert(av.take(av.len() as int) =~= av);
            assert(c@.aliases == av);
        }
        i = i + 1;
    }
    assert(cv.take(cv.len() as int) =~= cv);
    out
}

fn names_of_commands(commands: &Vec<CommandIndex>) -> (res: Vec<Vec<char>>)
    ensures
        res.deep_view() == command_names(commands_view(commands@)),
{
    let ghost cv = commands_view(commands@);
    let mut out: Vec<Vec<char>> = Vec::new();
    let mut i: usize = 0;
    assert(cv.take(0) =~= Seq::<CommandIndexView>::empty());
    assert(out.deep_view() =~= Seq::<Seq<char>>::empty());
    while i < commands.len()
        invariant
            i <= commands@.len(),
            cv == commands_view(commands@),
            out.deep_view() == command_names(cv.take(i as int)),
        decreases commands@.len() - i,
    {
        let c = &commands[i];
        assert(cv.take(i + 1).drop_last() =~= cv.take(i as int));
        assert(cv.take(i + 1).last() == c@);
        if c.kind == CommandKind::Command {
            match &c.name {
                Some(n) => {
                    let nc = crate::text::chars_of(n.as_str());
                    let ghost before = out.deep_view();
                    assert(nc.deep_view() =~= nc@);
                    out.push(nc);
                    assert(out.deep_view() =~= before.push(n@));
                },
                None => {},
            }
        }
        i = i + 1;
    }
    assert(cv.take(cv.len() as int) =~= cv);
    out
}

fn alias_diagnostic(context: &RuleContext, command: &CommandIndex, alias: &str, severity: LintRuleSeverity, key: &str) -> (res: Diagnostic)
    ensures
        res@ == alias_diag(context.files@, command@, alias@, key@, context.locale, severity),
{
    let args = [("alias", alias)];
    proof {
        reveal_strlit("alias");
    }
    assert(crate::lang::args_view(args@) =~= seq![("alias"@, alias@)]);
    let d = context.diagnostic(DiagnosticCode::PATTO_LINT_DUPLICATE_ALIASES, severity, key, &args);
    match context.location_for_text(command.metadata_file.as_str(), alias) {
        Some((line, column)) => d.with_location(command.metadata_file.as_str(), line, column),
        None => d.with_location(command.metadata_file.as_str(), 1, 1),
    }
}

fn push_alias_diagnostics(
    context: &RuleContext,
    pairs: &Vec<(Vec<char>, usize)>,
    alias: &[char],
    severity: LintRuleSeverity,
    out: &mut Vec<Diagnostic>,
)
    requires
        forall|j: int| 0 <= j < pairs@.len() ==> (#[trigger] pairs@[j]).1 < context.project.index.commands@.len(),
    ensures
        diags_view(final(out)@) == diags_view(old(out)@) + owner_diagnostics(
            context.files@,
            labelled(pairs_of(pairs@, commands_view(context.project.index.commands@)), alias@),
            alias@,
            context.locale,
            severity,
        ),
{
    let commands = &context.project.index.commands;
    let ghost cv = commands_view(commands@);
    let ghost pv = pairs_of(pairs@, cv);
    let ghost o0 = diags_view(out@);
    let alias_text = crate::text::string_of(alias);
    let mut k: usize = 0;
    assert(pv.take(0) =~= Seq::<(Seq<char>, CommandIndexView)>::empty());
    assert(o0 + owner_diagnostics(context.files@, labelled(pv.take(0), alias@), alias@, context.locale, severity) =~= o0);
    while k < pairs.len()
        invariant
            k <= pairs@.len(),
            pv == pairs_of(pairs@, cv),
            cv == commands_view(commands@),
            commands == &context.project.index.commands,
            forall|j: int| 0 <= j < pairs@.len() ==> (#[trigger] pairs@[j]).1 < commands@.len(),
            alias_text@ == alias@,
            diags_view(out@) == o0 + owner_diagnostics(context.files@, labelled(pv.take(k as int), alias@), alias@, context.locale, severity),
        decreases pairs@.len() - k,
    {
        let ghost prev_group = labelled(pv.take(k as int), alias@);
        assert(pv.take(k + 1).drop_last() =~= pv.take(k as int));
        assert(pv.take(k + 1).last() == (pairs@[k as int].0@, cv[pairs@[k as int].1 as int]));
        if crate::text::chars_eq(&pairs[k].0, alias) {
            let c = &commands[pairs[k].1];
            let d = alias_diagnostic(context, c, alias_text.as_str(), severity, "duplicate-aliases.duplicate.message");
            let ghost before = diags_view(out@);
            out.push(d);
            assert(labelled(pv.take(k + 1), alias@) == prev_group.push(c@));
            assert(prev_group.push(c@).drop_last() =~= prev_group);
            assert(diags_view(out@) =~= before.push(d@));
        }
        k = k + 1;
    }
    assert(pv.take(pv.len() as int) =~= pv);
}

/// The first pair that carries `label`, where there is one.
fn first_labelled(pairs: &Vec<(Vec<char>, usize)>, label: &[char], Ghost(commands): Ghost<Seq<CommandIndexView>>) -> (res: Option<usize>)
    ensures
        match res {
            Some(j) => j < pairs@.len() && labelled(pairs_of(pairs@, commands), label@).len() > 0
                && labelled(pairs_of(pairs@, commands), label@)[0] == commands[pairs@[j as int].1 as int],
            None => labelled(pairs_of(pairs@, commands), label@).len() == 0,
        },
{
    let ghost pv = pairs_of(pairs@, commands);
    let mut j: usize = 0;
    assert(pv.take(0) =~= Seq::<(Seq<char>, CommandIndexView)>::empty());
    while j < pairs.len()
        invariant
            j <= pairs@.len(),
            pv == pairs_of(pairs@, commands),
            labelled(pv.take(j as int), label@).len() == 0,
        decreases pairs@.len() - j,
    {
        assert(pv.take(j + 1).drop_last() =~= pv.take(j as int));
        assert(pv.take(j + 1).last() == (pairs@[j as int].0@, commands[pairs@[j as int].1 as int]));
        if crate::text::chars_eq(&pairs[j].0, label) {
            proof {
                lemma_labelled_first(pv, label@, j as int);
            }
            return Some(j);
        }
        j = j + 1;
    }
    assert(pv.take(pv.len() as int) =~= pv);
    None
}

/// Where the first `j` pairs carry no `label` and pair `j` does, the
/// commands carrying `label` start with the command of pair `j`.
pub proof fn lemma_labelled_first(pv: Seq<(Seq<char>, CommandIndexView)>, label: Seq<char>, j: int)
    requires
        0 <= j < pv.len(),
        labelled(pv.take(j), label).len() == 0,
        pv[j].0 == label,
    ensures
        labelled(pv, label).len() > 0,
        labelled(pv, label)[0] == pv[j].1,
    decreases pv.len(),
{
    if pv.len() == j + 1 {
        assert(pv.drop_last() =~= pv.take(j));
    } else {
        assert(pv.drop_last().take(j) =~= pv.take(j));
        lemma_labelled_first(pv.drop_last(), label, j);
    }
}

/// Reports the aliases held by more than one command, or that are the
/// name of a command.
pub fn run(context: &RuleContext, severity: LintRuleSeverity) -> (res: Vec<Diagnostic>)
    ensures
        diags_view(res@) == diagnostics_for(
            context.files@,
            commands_view(context.project.index.commands@),
            context.locale,
            severity,
        ),
{
    let commands = &context.project.index.commands;
    let ghost cv = commands_view(commands@);
    let pairs = alias_list(commands);
    let names = names_of_commands(commands);
    let ghost pv = pairs_of(pairs@, cv);
    let mut aliases: Vec<Vec<char>> = Vec::new();
    let mut i: usize = 0;
    assert(pv.take(0) =~= Seq::<(Seq<char>, CommandIndexView)>::empty());
    assert(aliases.deep_view() =~= Seq::<Seq<char>>::empty());
    while i < pairs.len()
        invariant
            i <= pairs@.len(),
            pv == pairs_of(pairs@, cv),
            aliases.deep_view() == distinct_labels(pv.take(i as int)),
        decreases pairs@.len() - i,
    {
        assert(pv.take(i + 1).drop_last() =~= pv.take(i as int));
        assert(pv.take(i + 1).last().0 == pairs@[i as int].0@);
        if !crate::lint::i18n::holds_name(&aliases, &pairs[i].0) {
            let k = crate::text::slice_to_vec(&pairs[i].0, 0, pairs[i].0.len());
            assert(k@ =~= pairs@[i as int].0@);
            let ghost before = aliases.deep_view();
            assert(k.deep_view() =~= k@);
            aliases.push(k);
            assert(aliases.deep_view() =~= before.push(pairs@[i as int].0@));
        }
        i = i + 1;
    }
    assert(pv.take(pv.len() as int) =~= pv);
    let ghost av = aliases.deep_view();
    let mut out: Vec<Diagnostic> = Vec::new();
    let mut m: usize = 0;
    assert(av.take(0) =~= Seq::<Seq<char>>::empty());
    assert(diags_view(out@) =~= Seq::<DiagnosticView>::empty());
    while m < aliases.len()
        invariant
            m <= aliases@.len(),
            av == aliases.deep_view(),
            av.len() == aliases@.len(),
            pv == pairs_of(pairs@, cv),
            cv == commands_view(commands@),
            commands == &context.project.index.commands,
            names.deep_view() == command_names(cv),
            forall|j: int| 0 <= j < pairs@.len() ==> (#[trigger] pairs@[j]).1 < commands@.len(),
            diags_view(out@) == diagnostics_for_aliases(context.files@, pv, command_names(cv), av.take(m as int), context.locale, severity),
        decreases aliases@.len() - m,
    {
        let alias = &aliases[m];
        assert(alias@ == av[m as int]);
        assert(av.take(m + 1).drop_last() =~= av.take(m as int));
        assert(av.take(m + 1).last() == alias@);
        let count = count_labelled(&pairs, alias, Ghost(cv));
        if count > 1 {
            push_alias_diagnostics(context, &pairs, alias, severity, &mut out);
        } else if crate::lint::i18n::holds_name(&names, alias) {
            match first_labelled(&pairs, alias, Ghost(cv)) {
                Some(j) => {
                    let c = &commands[pairs[j].1];
                    let text = crate::text::string_of(alias);
                    let d = alias_diagnostic(context, c, text.as_str(), severity, "duplicate-aliases.name-conflict.message");
                    let ghost before = diags_view(out@);
                    out.push(d);
                    assert(diags_view(out@) =~= before.push(d@));
                },
                None => {},
            }
        }
        m = m + 1;
    }
    assert(av.take(av.len() as int) =~= av);
    out
}

pub proof fn lemma_owner_codes(
    files: Seq<ProjectFile>,
    owners: Seq<CommandIndexView>,
    alias: Seq<char>,
    locale: crate::lang::Lang,
    severity: LintRuleSeverity,
)
    ensures
        all_coded(owner_diagnostics(files, owners, alias, locale, severity), "duplicate-aliases"@, severity),
    decreases owners.len(),
{
    if owners.len() > 0 {
        lemma_owner_codes(files, owners.drop_last(), alias, locale, severity);
        let prev = owner_diagnostics(files, owners.drop_last(), alias, locale, severity);
        let res = owner_diagnostics(files, owners, alias, locale, severity);
        lemma_coded_push(prev, res.last(), "duplicate-aliases"@, severity);
        assert(res =~= prev.push(res.last()));
    }
}

pub proof fn lemma_aliases_codes(
    files: Seq<ProjectFile>,
    pairs: Seq<(Seq<char>, CommandIndexView)>,
    names: Seq<Seq<char>>,
    aliases: Seq<Seq<char>>,
    locale: crate::lang::Lang,
    severity: LintRuleSeverity,
)
    ensures
        all_coded(diagnostics_for_aliases(files, pairs, names, aliases, locale, severity), "duplicate-aliases"@, severity),
    decreases aliases.len(),
{
    if aliases.len() > 0 {
        lemma_aliases_codes(files, pairs, names, aliases.drop_last(), locale, severity);
        let prev = diagnostics_for_aliases(files, pairs, names, aliases.drop_last(), locale, severity);
        let a = aliases.last();
        let owners = labelled(pairs, a);
        if owners.len() > 1 {
            lemma_owner_codes(files, owners, a, locale, severity);
            lemma_coded_concat(prev, owner_diagnostics(files, owners, a, locale, severity), "duplicate-aliases"@, severity);
        } else if names.contains(a) && owners.len() == 1 {
            lemma_coded_push(
                prev,
                alias_diag(files, owners[0], a, "duplicate-aliases.name-conflict.message"@, locale, severity),
                "duplicate-aliases"@,
                severity,
            );
        }
    }
}

/// Each diagnostic of the rule has the rule's code and the level of
/// `severity`.
pub proof fn lemma_codes(
    files: Seq<ProjectFile>,
    commands: Seq<CommandIndexView>,
    locale: crate::lang::Lang,
    severity: LintRuleSeverity,
)
    ensures
        all_coded(diagnostics_for(files, commands, locale, severity), "duplicate-aliases"@, severity),
{
    let pairs = alias_pairs(commands);
    lemma_aliases_codes(files, pairs, command_names(commands), distinct_labels(pairs), locale, severity);
}

} // verus!
