//! Command names must be valid Discord names.
use vstd::prelude::*;

use crate::diagnostic::{diags_view, Diagnostic, DiagnosticCode, DiagnosticView};
use crate::lint::context::{all_coded, lemma_coded_concat, lemma_coded_push, lint_diag, placed, value_loc, ProjectFile, RuleContext};
use crate::output::{commands_view, CommandIndex, CommandIndexView, CommandKind, LintRuleSeverity};
use crate::text::{is_ascii_digit, is_ascii_lower};

verus! {

/// The names of a command, each with the property that declares it: its
/// parent, its group, its own name (not for a group) and its subcommand.
pub open spec fn name_parts(c: CommandIndexView) -> Seq<(Seq<char>, Seq<char>)> {
    (match c.parent {
        Some(p) => seq![("parent"@, p)],
        None => Seq::empty(),
    }) + (match c.group {
        Some(g) => seq![("name"@, g)],
        None => Seq::empty(),
    }) + (if c.kind != CommandKind::SubcommandGroup && c.name is Some {
        seq![("name"@, c.name->0)]
    } else {
        Seq::empty()
    }) + (match c.subcommand {
        Some(s) => seq![("subcommand"@, s)],
        None => Seq::empty(),
    })
}

/// A name Discord accepts: 1 to 32 lowercase ASCII letters, digits, `-`
/// and `_`.
pub open spec fn valid_discord_name(v: Seq<char>) -> bool {
    0 < v.len() <= 32 && forall|i: int|
        0 <= i < v.len() ==> is_ascii_lower(#[trigger] v[i]) || is_ascii_digit(v[i]) || v[i] == '-'
            || v[i] == '_'
}

/// Whether Discord accepts `value` as a name.
pub fn is_valid_discord_name(value: &str) -> (res: bool)
    ensures
        res == valid_discord_name(value@),
{
    let v = crate::text::chars_of(value);
    if v.len() == 0 || v.len() > 32 {
        return false;
    }
    let mut i: usize = 0;
    while i < v.len()
        invariant
            i <= v@.len(),
            v@ == value@,
            forall|k: int|
                0 <= k < i ==> is_ascii_lower(#[trigger] v@[k]) || is_ascii_digit(v@[k]) || v@[k]
                    == '-' || v@[k] == '_',
        decreases v@.len() - i,
    {
        let c = v[i];
        if !(('a' <= c && c <= 'z') || ('0' <= c && c <= '9') || c == '-' || c == '_') {
            assert(!(is_ascii_lower(v@[i as int]) || is_ascii_digit(v@[i as int]) || v@[i as int] == '-' || v@[i as int] == '_'));
            return false;
        }
        i = i + 1;
    }
    true
}

/// Law: Discord accepts a name exactly when it has 1 to 32 characters, each
/// a lowercase ASCII letter, an ASCII digit, `-` or `_`.
pub proof fn law_discord_names(v: Seq<char>)
    ensures
        valid_discord_name(v) == (1 <= v.len() <= 32 && forall|i: int|
            0 <= i < v.len() ==> ('a' <= #[trigger] v[i] && v[i] <= 'z') || ('0' <= v[i] && v[i] <= '9')
                || v[i] == '-' || v[i] == '_'),
{
}

/// The diagnostics for the names of `parts` that Discord refuses, placed at
/// the name in the command's metadata file.
pub open spec fn part_diagnostics(
    files: Seq<ProjectFile>,
    c: CommandIndexView,
    parts: Seq<(Seq<char>, Seq<char>)>,
    locale: crate::lang::Lang,
    severity: LintRuleSeverity,
) -> Seq<DiagnosticView>
    decreases parts.len(),
{
    if parts.len() == 0 {
        Seq::empty()
    } else {
        let prev = part_diagnostics(files, c, parts.drop_last(), locale, severity);
        let (p, v) = parts.last();
        if valid_discord_name(v) {
            prev
        } else {
            prev.push(
                placed(
                    lint_diag(
                        locale,
                        "invalid-command-names"@,
                        severity,
                        "invalid-command-names.message"@,
                        seq![("value"@, v)],
                    ),
                    c.metadata_file,
                    value_loc(files, c.metadata_file, p, v),
                ),
            )
        }
    }
}

/// Law: a name of 1 to 32 lowercase ASCII letters, digits, `-` and `_`
/// brings no diagnostic; any other name brings exactly one, which names it.
pub proof fn law_name_diagnostics(
    files: Seq<ProjectFile>,
    c: CommandIndexView,
    parts: Seq<(Seq<char>, Seq<char>)>,
    p: Seq<char>,
    v: Seq<char>,
    locale: crate::lang::Lang,
    severity: LintRuleSeverity,
)
    ensures
        (1 <= v.len() <= 32 && forall|i: int|
            0 <= i < v.len() ==> ('a' <= #[trigger] v[i] && v[i] <= 'z') || ('0' <= v[i] && v[i] <= '9')
                || v[i] == '-' || v[i] == '_') ==> part_diagnostics(files, c, parts.push((p, v)), locale, severity)
            == part_diagnostics(files, c, parts, locale, severity),
        !(1 <= v.len() <= 32 && forall|i: int|
            0 <= i < v.len() ==> ('a' <= #[trigger] v[i] && v[i] <= 'z') || ('0' <= v[i] && v[i] <= '9')
                || v[i] == '-' || v[i] == '_') ==> part_diagnostics(files, c, parts.push((p, v)), locale, severity)
            == part_diagnostics(files, c, parts, locale, severity).push(
            placed(
                lint_diag(
                    locale,
                    "invalid-command-names"@,
                    severity,
                    "invalid-command-names.message"@,
                    seq![("value"@, v)],
                ),
                c.metadata_file,
                value_loc(files, c.metadata_file, p, v),
            ),
        ),
{
    law_discord_names(v);
    assert(parts.push((p, v)).drop_last() =~= parts);
}

/// A diagnostic for each name of each command that Discord refuses.
pub open spec fn diagnostics_for(
    files: Seq<ProjectFile>,
    commands: Seq<CommandIndexView>,
    locale: crate::lang::Lang,
    severity: LintRuleSeverity,
) -> Seq<DiagnosticView>
    decreases commands.len(),
{
    if commands.len() == 0 {
        Seq::empty()
    } else {
        let prev = diagnostics_for(files, commands.drop_last(), locale, severity);
        let c = commands.last();
        if c.kind != CommandKind::Unknown {
            prev + part_diagnostics(files, c, name_parts(c), locale, severity)
        } else {
            prev
        }
    }
}

/// The names of a command with the properties that declare them.
pub fn command_name_parts(command: &CommandIndex) -> (res: Vec<(&'static str, &str)>)
    ensures
        res@.map_values(|p: (&str, &str)| (p.0@, p.1@)) == name_parts(command@),
{
    let mut parts: Vec<(&'static str, &str)> = Vec::new();
    let ghost f = |p: (&str, &str)| (p.0@, p.1@);
    match &command.parent {
        Some(p) => {
            parts.push(("parent", p.as_str()));
        },
        None => {},
    }
    let ghost a = parts@.map_values(f);
    match &command.group {
        Some(g) => {
            parts.push(("name", g.as_str()));
        },
        None => {},
    }
    let ghost b = parts@.map_values(f);
    if command.kind != CommandKind::SubcommandGroup {
        match &command.name {
            Some(n) => {
                parts.push(("name", n.as_str()));
            },
            None => {},
        }
    }
    let ghost c = parts@.map_values(f);
    match &command.subcommand {
        Some(s) => {
            parts.push(("subcommand", s.as_str()));
        },
        None => {},
    }
    proof {
        reveal_strlit("parent");
        reveal_strlit("name");
        reveal_strlit("subcommand");
        let cv = command@;
        let pa = match cv.parent {
            Some(p) => seq![("parent"@, p)],
            None => Seq::<(Seq<char>, Seq<char>)>::empty(),
        };
        let pb = match cv.group {
            Some(g) => seq![("name"@, g)],
            None => Seq::<(Seq<char>, Seq<char>)>::empty(),
        };
        let pc = if cv.kind != CommandKind::SubcommandGroup && cv.name is Some {
            seq![("name"@, cv.name->0)]
        } else {
            Seq::<(Seq<char>, Seq<char>)>::empty()
        };
        let pd = match cv.subcommand {
            Some(s) => seq![("subcommand"@, s)],
            None => Seq::<(Seq<char>, Seq<char>)>::empty(),
        };
        assert(a =~= pa);
        assert(b =~= pa + pb);
        assert(c =~= pa + pb + pc);
        assert(parts@.map_values(f) =~= pa + pb + pc + pd);
    }
    parts
}

/// Reports the command names that Discord refuses.
pub fn run(context: &RuleContext, severity: LintRuleSeverity) -> (res: Vec<Diagnostic>)
    ensures
        diags_view(res@) == diagnostics_for(
            context.files@,
            commands_view(context.project.index.commands@),
            context.locale,
            severity,
        ),
{
    let commands = &context.project.index.commands;
    let ghost cv = commands_view(commands@);
    let mut out: Vec<Diagnostic> = Vec::new();
    let mut i: usize = 0;
    assert(cv.take(0) =~= Seq::<CommandIndexView>::empty());
    assert(diags_view(out@) =~= Seq::<DiagnosticView>::empty());
    proof {
        reveal_strlit("value");
    }
    while i < commands.len()
        invariant
            i <= commands@.len(),
            cv == commands_view(commands@),
            commands == &context.project.index.commands,
            diags_view(out@) == diagnostics_for(context.files@, cv.take(i as int), context.locale, severity),
        decreases commands@.len() - i,
    {
        let c = &commands[i];
        proof {
            assert(cv.take(i + 1).drop_last() =~= cv.take(i as int));
            assert(cv.take(i + 1).last() == c@);
        }
        if c.kind != CommandKind::Unknown {
            let parts = command_name_parts(c);
            let ghost pv = parts@.map_values(|p: (&str, &str)| (p.0@, p.1@));
            let ghost o0 = diags_view(out@);
            let mut j: usize = 0;
            assert(pv.take(0) =~= Seq::<(Seq<char>, Seq<char>)>::empty());
            assert(o0 + Seq::<DiagnosticView>::empty() =~= o0);
            while j < parts.len()
                invariant
                    j <= parts@.len(),
                    pv == parts@.map_values(|p: (&str, &str)| (p.0@, p.1@)),
                    diags_view(out@) == o0 + part_diagnostics(context.files@, c@, pv.take(j as int), context.locale, severity),
                decreases parts@.len() - j,
            {
                let (property, value) = parts[j];
                proof {
                    assert(pv.take(j + 1).drop_last() =~= pv.take(j as int));
                    assert(pv.take(j + 1).last() == (property@, value@));
                }
                if !is_valid_discord_name(value) {
                    let args = [("value", value)];
                    assert(crate::lang::args_view(args@) =~= seq![("value"@, value@)]);
                    let d = context.diagnostic(
                        DiagnosticCode::PATTO_LINT_INVALID_COMMAND_NAMES,
                        severity,
                        "invalid-command-names.message",
                        &args,
                    );
                    let d = match context.location_for_value(c.metadata_file.as_str(), property, value) {
                        Some((line, column)) => d.with_location(c.metadata_file.as_str(), line, column),
                        None => d.with_location(c.metadata_file.as_str(), 1, 1),
                    };
                    let ghost before = diags_view(out@);
                    out.push(d);
                    assert(diags_view(out@) =~= before.push(d@));
                }
                j = j + 1;
            }
            assert(pv.take(pv.len() as int) =~= pv);
        } else {
            assert(diags_view(out@) == diagnostics_for(context.files@, cv.take(i + 1), context.locale, severity));
        }
        i = i + 1;
    }
    assert(cv.take(cv.len() as int) =~= cv);
    out
}

/// Each diagnostic of the names of `c` has the rule's code and the level
/// of `severity`.
pub proof fn lemma_part_codes(
    files: Seq<ProjectFile>,
    c: CommandIndexView,
    parts: Seq<(Seq<char>, Seq<char>)>,
    locale: crate::lang::Lang,
    severity: LintRuleSeverity,
)
    ensures
        all_coded(part_diagnostics(files, c, parts, locale, severity), "invalid-command-names"@, severity),
    decreases parts.len(),
{
    if parts.len() > 0 {
        lemma_part_codes(files, c, parts.drop_last(), locale, severity);
        let prev = part_diagnostics(files, c, parts.drop_last(), locale, severity);
        let res = part_diagnostics(files, c, parts, locale, severity);
        if res != prev {
            lemma_coded_push(prev, res.last(), "invalid-command-names"@, severity);
            assert(res =~= prev.push(res.last()));
        }
    }
}

/// Each diagnostic of the rule has the rule's code and the level of
/// `severity`.
pub proof fn lemma_codes(
    files: Seq<ProjectFile>,
    commands: Seq<CommandIndexView>,
    locale: crate::lang::Lang,
    severity: LintRuleSeverity,
)
    ensures
        all_coded(diagnostics_for(files, commands, locale, severity), "invalid-command-names"@, severity),
    decreases commands.len(),
{
    if commands.len() > 0 {
        lemma_codes(files, commands.drop_last(), locale, severity);
        let c = commands.last();
        lemma_part_codes(files, c, name_parts(c), locale, severity);
        lemma_coded_concat(
            diagnostics_for(files, commands.drop_last(), locale, severity),
            part_diagnostics(files, c, name_parts(c), locale, severity),
            "invalid-command-names"@,
            severity,
        );
    }
}

} // verus!
