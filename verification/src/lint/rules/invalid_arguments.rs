//! Command arguments: unique names, required ones first, raw text last,
//! choices of the declared type.
use vstd::prelude::*;

use crate::diagnostic::{diags_view, located, Diagnostic, DiagnosticCode, DiagnosticView};
use crate::lang::translation;
use crate::lint::context::{all_coded, lemma_coded_concat, lemma_coded_push, lint_diag, placed, value_loc, ProjectFile, RuleContext};
use crate::output::{
    commands_view, ArgumentIndex, ArgumentIndexView, ArgumentOptionValue, ArgumentOptionValueKind,
    ArgumentOptionValueView, CommandIndex, CommandIndexView, LintRuleSeverity,
};
use crate::text::contains;

verus! {

/// A diagnostic about `arg` of command `c`: placed at the argument's name
/// in the command's metadata file, or at the start of that file.
pub open spec fn arg_diag(
    files: Seq<ProjectFile>,
    c: CommandIndexView,
    arg: ArgumentIndexView,
    key: Seq<char>,
    args: Seq<(Seq<char>, Seq<char>)>,
    locale: crate::lang::Lang,
    severity: LintRuleSeverity,
) -> DiagnosticView {
    let d = lint_diag(locale, "invalid-arguments"@, severity, key, args);
    match arg.name {
        Some(n) => placed(d, c.metadata_file, value_loc(files, c.metadata_file, "name"@, n)),
        None => located(d, c.metadata_file, 1, 1),
    }
}

/// The names of the arguments that have one.
pub open spec fn arg_names(args: Seq<ArgumentIndexView>) -> Seq<Seq<char>>
    decreases args.len(),
{
    if args.len() == 0 {
        Seq::empty()
    } else {
        let prev = arg_names(args.drop_last());
        match args.last().name {
            Some(n) => prev.push(n),
            None => prev,
        }
    }
}

/// Some argument is optional.
pub open spec fn any_optional(args: Seq<ArgumentIndexView>) -> bool {
    exists|i: int| 0 <= i < args.len() && !(#[trigger] args[i]).required
}

/// The name of an argument, or the text for an unnamed one.
pub open spec fn name_or_unnamed(arg: ArgumentIndexView, locale: crate::lang::Lang) -> Seq<char> {
    match arg.name {
        Some(n) => n,
        None => translation(locale, "common.unnamed"@),
    }
}

/// The type hint asks for numbers.
pub open spec fn expects_number(t: Seq<char>) -> bool {
    contains(t, "Number"@) || contains(t, "Integer"@)
}

/// The type hint asks for strings.
pub open spec fn expects_string(t: Seq<char>) -> bool {
    contains(t, "String"@)
}

/// The diagnostics for the choices of `arg` that do not match its type.
pub open spec fn choice_diags(
    files: Seq<ProjectFile>,
    c: CommandIndexView,
    arg: ArgumentIndexView,
    options: Seq<ArgumentOptionValueView>,
    locale: crate::lang::Lang,
    severity: LintRuleSeverity,
) -> Seq<DiagnosticView>
    decreases options.len(),
{
    if options.len() == 0 {
        Seq::empty()
    } else {
        let prev = choice_diags(files, c, arg, options.drop_last(), locale, severity);
        let o = options.last();
        let t = arg.type_hint->0;
        if (expects_number(t) && o.kind != ArgumentOptionValueKind::Number) || (expects_string(t)
            && o.kind != ArgumentOptionValueKind::String) {
            prev.push(
                arg_diag(
                    files,
                    c,
                    arg,
                    "invalid-arguments.choice-type.message"@,
                    seq![("choice"@, o.raw), ("type"@, t)],
                    locale,
                    severity,
                ),
            )
        } else {
            prev
        }
    }
}

/// The diagnostics of the arguments `args` of command `c` (the first
/// `args.len()` of its `total` arguments), check by check: names used
/// before, required arguments after an optional one, raw text that is not
/// last, choices of the wrong type.
pub open spec fn argument_diags(
    files: Seq<ProjectFile>,
    c: CommandIndexView,
    args: Seq<ArgumentIndexView>,
    total: nat,
    locale: crate::lang::Lang,
    severity: LintRuleSeverity,
) -> (Seq<DiagnosticView>, Seq<DiagnosticView>, Seq<DiagnosticView>, Seq<DiagnosticView>)
    decreases args.len(),
{
    if args.len() == 0 {
        (Seq::empty(), Seq::empty(), Seq::empty(), Seq::empty())
    } else {
        let prev = argument_diags(files, c, args.drop_last(), total, locale, severity);
        let a = args.last();
        let earlier = args.drop_last();
        let dup = if a.name is Some && arg_names(earlier).contains(a.name->0) {
            prev.0.push(arg_diag(files, c, a, "invalid-arguments.duplicate.message"@, seq![("name"@, a.name->0)], locale, severity))
        } else {
            prev.0
        };
        let order = if a.required && any_optional(earlier) {
            prev.1.push(arg_diag(files, c, a, "invalid-arguments.required-order.message"@, seq![("name"@, name_or_unnamed(a, locale))], locale, severity))
        } else {
            prev.1
        };
        let raw = if a.raw_text && args.len() < total {
            prev.2.push(arg_diag(files, c, a, "invalid-arguments.raw-text-position.message"@, seq![("name"@, name_or_unnamed(a, locale))], locale, severity))
        } else {
            prev.2
        };
        let choice = match a.type_hint {
            Some(t) => prev.3 + choice_diags(files, c, a, a.option_values, locale, severity),
            None => prev.3,
        };
        (dup, order, raw, choice)
    }
}

/// The diagnostics of one command.
pub open spec fn command_diags(
    files: Seq<ProjectFile>,
    c: CommandIndexView,
    locale: crate::lang::Lang,
    severity: LintRuleSeverity,
) -> Seq<DiagnosticView> {
    let d = argument_diags(files, c, c.arguments, c.arguments.len(), locale, severity);
    d.0 + d.1 + d.2 + d.3
}

/// The diagnostics of the rule, command after command.
pub open spec fn diagnostics_for(
    files: Seq<ProjectFile>,
    commands: Seq<CommandIndexView>,
    locale: crate::lang::Lang,
    severity: LintRuleSeverity,
) -> Seq<DiagnosticView>
    decreases commands.len(),
{
    if commands.len() == 0 {
        Seq::empty()
    } else {
        diagnostics_for(files, commands.drop_last(), locale, severity) + command_diags(
            files,
            commands.last(),
            locale,
            severity,
        )
    }
}

fn argument_diagnostic(
    context: &RuleContext,
    command: &CommandIndex,
    argument: &ArgumentIndex,
    severity: LintRuleSeverity,
    key: &str,
    args: &[(&str, &str)],
) -> (res: Diagnostic)
    ensures
        res@ == arg_diag(context.files@, command@, argument@, key@, crate::lang::args_view(args@), context.locale, severity),
{
    let d = context.diagnostic(DiagnosticCode::PATTO_LINT_INVALID_ARGUMENTS, severity, key, args);
    match &argument.name {
        Some(n) => match context.location_for_value(command.metadata_file.as_str(), "name", n.as_str()) {
            Some((line, column)) => d.with_location(command.metadata_file.as_str(), line, column),
            None => d.with_location(command.metadata_file.as_str(), 1, 1),
        },
        None => d.with_location(command.metadata_file.as_str(), 1, 1),
    }
}

pub open spec fn args_view_of(v: Seq<ArgumentIndex>) -> Seq<ArgumentIndexView> {
    v.map_values(|a: ArgumentIndex| a@)
}

fn push_choice_diagnostics(
    context: &RuleContext,
    command: &CommandIndex,
    argument: &ArgumentIndex,
    hint: &String,
    severity: LintRuleSeverity,
    out: &mut Vec<Diagnostic>,
)
    requires
        argument@.type_hint == Some(hint@),
    ensures
        diags_view(final(out)@) == diags_view(old(out)@) + choice_diags(
            context.files@,
            command@,
            argument@,
            argument@.option_values,
            context.locale,
            severity,
        ),
{
    let ghost ov = argument@.option_values;
    let ghost o0 = diags_view(out@);
    let hc = crate::text::chars_of(hint.as_str());
    let wants_number = crate::text::contains_str(&hc, "Number") || crate::text::contains_str(&hc, "Integer");
    let wants_string = crate::text::contains_str(&hc, "String");
    let mut k: usize = 0;
    assert(ov.take(0) =~= Seq::<ArgumentOptionValueView>::empty());
    assert(o0 + Seq::<DiagnosticView>::empty() =~= o0);
    proof {
        reveal_strlit("choice");
        reveal_strlit("type");
    }
    while k < argument.option_values.len()
        invariant
            k <= argument.option_values@.len(),
            ov == argument@.option_values,
            ov.len() == argument.option_values@.len(),
            argument@.type_hint == Some(hint@),
            wants_number == expects_number(hint@),
            wants_string == expects_string(hint@),
            diags_view(out@) == o0 + choice_diags(context.files@, command@, argument@, ov.take(k as int), context.locale, severity),
        decreases argument.option_values@.len() - k,
    {
        let o: &ArgumentOptionValue = &argument.option_values[k];
        assert(ov[k as int] == o@);
        assert(ov.take(k + 1).drop_last() =~= ov.take(k as int));
        assert(ov.take(k + 1).last() == o@);
        if (wants_number && o.kind != ArgumentOptionValueKind::Number) || (wants_string && o.kind
            != ArgumentOptionValueKind::String) {
            let args = [("choice", o.raw.as_str()), ("type", hint.as_str())];
            assert(crate::lang::args_view(args@) =~= seq![("choice"@, o.raw@), ("type"@, hint@)]);
            let d = argument_diagnostic(context, command, argument, severity, "invalid-arguments.choice-type.message", &args);
            let ghost before = diags_view(out@);
            out.push(d);
            assert(diags_view(out@) =~= before.push(d@));
        }
        k = k + 1;
    }
    assert(ov.take(ov.len() as int) =~= ov);
}

/// The diagnostics of one command, check by check.
fn check_command(context: &RuleContext, command: &CommandIndex, severity: LintRuleSeverity) -> (res: Vec<Diagnostic>)
    ensures
        diags_view(res@) == command_diags(context.files@, command@, context.locale, severity),
{
    let ghost av = args_view_of(command.arguments@);
    assert(command@.arguments == av);
    let unnamed = crate::lang::text(context.locale, "common.unnamed");
    let mut dup: Vec<Diagnostic> = Vec::new();
    let mut order: Vec<Diagnostic> = Vec::new();
    let mut raw: Vec<Diagnostic> = Vec::new();
    let mut choice: Vec<Diagnostic> = Vec::new();
    let mut names: Vec<Vec<char>> = Vec::new();
    let mut seen_optional = false;
    let total = command.arguments.len();
    let mut i: usize = 0;
    assert(av.take(0) =~= Seq::<ArgumentIndexView>::empty());
    assert(diags_view(dup@) =~= Seq::<DiagnosticView>::empty());
    assert(diags_view(order@) =~= Seq::<DiagnosticView>::empty());
    assert(diags_view(raw@) =~= Seq::<DiagnosticView>::empty());
    assert(diags_view(choice@) =~= Seq::<DiagnosticView>::empty());
    assert(names.deep_view() =~= Seq::<Seq<char>>::empty());
    proof {
        reveal_strlit("name");
    }
    while i < total
        invariant
            i <= total,
            total == command.arguments@.len(),
            av == args_view_of(command.arguments@),
            av.len() == total,
            unnamed@ == translation(context.locale, "common.unnamed"@),
            names.deep_view() == arg_names(av.take(i as int)),
            seen_optional == any_optional(av.take(i as int)),
            (diags_view(dup@), diags_view(order@), diags_view(raw@), diags_view(choice@))
                == argument_diags(context.files@, command@, av.take(i as int), total as nat, context.locale, severity),
        decreases total - i,
    {
        let a = &command.arguments[i];
        let ghost earlier = av.take(i as int);
        assert(av[i as int] == a@);
        assert(av.take(i + 1).drop_last() =~= earlier);
        assert(av.take(i + 1).last() == a@);
        match &a.name {
            Some(n) => {
                let nc = crate::text::chars_of(n.as_str());
                if crate::lint::i18n::holds_name(&names, &nc) {
                    let args = [("name", n.as_str())];
                    assert(crate::lang::args_view(args@) =~= seq![("name"@, n@)]);
                    let d = argument_diagnostic(context, command, a, severity, "invalid-arguments.duplicate.message", &args);
                    let ghost before = diags_view(dup@);
                    dup.push(d);
                    assert(diags_view(dup@) =~= before.push(d@));
                }
                let ghost nb = names.deep_view();
                assert(nc.deep_view() =~= nc@);
                names.push(nc);
                assert(names.deep_view() =~= nb.push(n@));
            },
            None => {},
        }
        let label = match &a.name {
            Some(n) => n.as_str(),
            None => unnamed.as_str(),
        };
        let args = [("name", label)];
        assert(crate::lang::args_view(args@) =~= seq![("name"@, name_or_unnamed(a@, context.locale))]);
        if a.required {
            if seen_optional {
                let d = argument_diagnostic(context, command, a, severity, "invalid-arguments.required-order.message", &args);
                let ghost before = diags_view(order@);
                order.push(d);
                assert(diags_view(order@) =~= before.push(d@));
            }
        } else {
            seen_optional = true;
        }
        proof {
            assert(any_optional(av.take(i + 1)) == (any_optional(earlier) || !a@.required)) by {
                if !a@.required {
                    assert(av.take(i + 1)[i as int] == a@);
                }
                if any_optional(earlier) {
                    let j = choose|j: int| 0 <= j < earlier.len() && !(#[trigger] earlier[j]).required;
                    assert(av.take(i + 1)[j] == earlier[j]);
                }
                if any_optional(av.take(i + 1)) {
                    let j = choose|j: int| 0 <= j < av.take(i + 1).len() && !(#[trigger] av.take(i + 1)[j]).required;
                    if j < i {
                        assert(earlier[j] == av.take(i + 1)[j]);
                    }
                }
            }
        }
        if a.raw_text && i + 1 < total {
            let d = argument_diagnostic(context, command, a, severity, "invalid-arguments.raw-text-position.message", &args);
            let ghost before = diags_view(raw@);
            raw.push(d);
            assert(diags_view(raw@) =~= before.push(d@));
        }
        match &a.type_hint {
            Some(t) => {
                push_choice_diagnostics(context, command, a, t, severity, &mut choice);
            },
            None => {},
        }
        i = i + 1;
    }
    assert(av.take(total as int) =~= av);
    let mut out = dup;
    out.append(&mut order);
    out.append(&mut raw);
    out.append(&mut choice);
    out
}

/// Reports the arguments of each command that break the rules.
pub fn run(context: &RuleContext, severity: LintRuleSeverity) -> (res: Vec<Diagnostic>)
    ensures
        diags_view(res@) == diagnostics_for(
            context.files@,
            commands_view(context.project.index.commands@),
            context.locale,
            severity,
        ),
{
    let commands = &context.project.index.commands;
    let ghost cv = commands_view(commands@);
    let mut out: Vec<Diagnostic> = Vec::new();
    let mut i: usize = 0;
    assert(cv.take(0) =~= Seq::<CommandIndexView>::empty());
    assert(diags_view(out@) =~= Seq::<DiagnosticView>::empty());
    while i < commands.len()
        invariant
            i <= commands@.len(),
            cv == commands_view(commands@),
            commands == &context.project.index.commands,
            diags_view(out@) == diagnostics_for(context.files@, cv.take(i as int), context.locale, severity),
        decreases commands@.len() - i,
    {
        let c = &commands[i];
        assert(cv.take(i + 1).drop_last() =~= cv.take(i as int));
        assert(cv.take(i + 1).last() == c@);
        let mut found = check_command(context, c, severity);
        let ghost before = diags_view(out@);
        let ghost fv = diags_view(found@);
        out.append(&mut found);
        assert(diags_view(out@) =~= before + fv);
        i = i + 1;
    }
    assert(cv.take(cv.len() as int) =~= cv);
    out
}

pub proof fn lemma_choice_codes(
    files: Seq<ProjectFile>,
    c: CommandIndexView,
    arg: ArgumentIndexView,
    options: Seq<ArgumentOptionValueView>,
    locale: crate::lang::Lang,
    severity: LintRuleSeverity,
)
    ensures
        all_coded(choice_diags(files, c, arg, options, locale, severity), "invalid-arguments"@, severity),
    decreases options.len(),
{
    if options.len() > 0 {
        lemma_choice_codes(files, c, arg, options.drop_last(), locale, severity);
        let prev = choice_diags(files, c, arg, options.drop_last(), locale, severity);
        let res = choice_diags(files, c, arg, options, locale, severity);
        if res != prev {
            lemma_coded_push(prev, res.last(), "invalid-arguments"@, severity);
            assert(res =~= prev.push(res.last()));
        }
    }
}

pub proof fn lemma_argument_codes(
    files: Seq<ProjectFile>,
    c: CommandIndexView,
    args: Seq<ArgumentIndexView>,
    total: nat,
    locale: crate::lang::Lang,
    severity: LintRuleSeverity,
)
    ensures
        ({
            let d = argument_diags(files, c, args, total, locale, severity);
            &&& all_coded(d.0, "invalid-arguments"@, severity)
            &&& all_coded(d.1, "invalid-arguments"@, severity)
            &&& all_coded(d.2, "invalid-arguments"@, severity)
            &&& all_coded(d.3, "invalid-arguments"@, severity)
        }),
    decreases args.len(),
{
    if args.len() > 0 {
        lemma_argument_codes(files, c, args.drop_last(), total, locale, severity);
        let prev = argument_diags(files, c, args.drop_last(), total, locale, severity);
        let d = argument_diags(files, c, args, total, locale, severity);
        let a = args.last();
        if d.0 != prev.0 {
            lemma_coded_push(prev.0, d.0.last(), "invalid-arguments"@, severity);
            assert(d.0 =~= prev.0.push(d.0.last()));
        }
        if d.1 != prev.1 {
            lemma_coded_push(prev.1, d.1.last(), "invalid-arguments"@, severity);
            assert(d.1 =~= prev.1.push(d.1.last()));
        }
        if d.2 != prev.2 {
            lemma_coded_push(prev.2, d.2.last(), "invalid-arguments"@, severity);
            assert(d.2 =~= prev.2.push(d.2.last()));
        }
        match a.type_hint {
            Some(t) => {
                lemma_choice_codes(files, c, a, a.option_values, locale, severity);
                lemma_coded_concat(prev.3, choice_diags(files, c, a, a.option_values, locale, severity), "invalid-arguments"@, severity);
            },
            None => {},
        }
    }
}

/// Each diagnostic of the rule has the rule's code and the level of
/// `severity`.
pub proof fn lemma_codes(
    files: Seq<ProjectFile>,
    commands: Seq<CommandIndexView>,
    locale: crate::lang::Lang,
    severity: LintRuleSeverity,
)
    ensures
        all_coded(diagnostics_for(files, commands, locale, severity), "invalid-arguments"@, severity),
    decreases commands.len(),
{
    if commands.len() > 0 {
        lemma_codes(files, commands.drop_last(), locale, severity);
        let c = commands.last();
        let d = argument_diags(files, c, c.arguments, c.arguments.len(), locale, severity);
        lemma_argument_codes(files, c, c.arguments, c.arguments.len(), locale, severity);
        let code = "invalid-arguments"@;
        lemma_coded_concat(d.0, d.1, code, severity);
        lemma_coded_concat(d.0 + d.1, d.2, code, severity);
        lemma_coded_concat(d.0 + d.1 + d.2, d.3, code, severity);
        lemma_coded_concat(diagnostics_for(files, commands.drop_last(), locale, severity), command_diags(files, c, locale, severity), code, severity);
    }
}

} // verus!
