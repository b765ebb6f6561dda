//! Each component handler a command names (`method: '...'`) must be a
//! static method of the command.
use vstd::prelude::*;

use crate::diagnostic::{diags_view, Diagnostic, DiagnosticCode, DiagnosticView};
use crate::lang::Lang;
use crate::lexer::is_quote;
use crate::lint::context::{all_coded, lemma_coded_concat, lemma_coded_push, file_text, lint_diag, placed, text_loc, ProjectFile, RuleContext};
use crate::lint::rules::broken_alias_imports::{dedup_adjacent, sorted_distinct};
use crate::output::{commands_view, strings_view, CommandIndexView, LintRuleSeverity};
use crate::text::{
    chars_of, contains, contains_exec, find_char_exec, find_char_from, find_from, find_from_exec,
    lemma_find_char_from_bounds, lemma_find_from_bounds, push_str, skip_ws, starts_with,
    string_of_range, ws_end,
};
use crate::utils::sorted_texts;

verus! {

/// What introduces a handler's name.
pub open spec fn method_marker() -> Seq<char> {
    seq!['m', 'e', 't', 'h', 'o', 'd', ':']
}

/// The quoted text that starts at index `i` of `s`, white space skipped:
/// from an opening `'`, `"` or `` ` `` to the next same quote.
pub open spec fn quoted_at(s: Seq<char>, i: int) -> Option<Seq<char>> {
    let j = ws_end(s, i);
    if 0 <= j < s.len() && is_quote(s[j]) {
        match find_char_from(s, s[j], j + 1) {
            Some(e) => Some(s.subrange(j + 1, e)),
            None => None,
        }
    } else {
        None
    }
}

/// The handler names given after each `method:` of `s` from index `from`
/// on, in order.
pub open spec fn methods_from(s: Seq<char>, from: int) -> Seq<Seq<char>>
    decreases s.len() + 1 - from,
{
    if from < 0 {
        Seq::empty()
    } else {
        match find_from(s, method_marker(), from) {
            None => Seq::empty(),
            Some(k) => {
                proof {
                    lemma_find_from_bounds(s, method_marker(), from);
                }
                let start = k + 7;
                let found = match quoted_at(s, start) {
                    Some(m) => seq![m],
                    None => Seq::empty(),
                };
                found + methods_from(s, start)
            },
        }
    }
}

/// The distinct handler names of `s`, sorted.
pub open spec fn component_methods(s: Seq<char>) -> Seq<Seq<char>> {
    dedup_adjacent(sorted_texts(methods_from(s, 0)))
}

/// `prefix`, then `method`, then `(`.
pub open spec fn call_head(prefix: Seq<char>, method: Seq<char>) -> Seq<char> {
    prefix + method + seq!['(']
}

/// `s` declares `method` as a static method.
pub open spec fn has_static(s: Seq<char>, method: Seq<char>) -> bool {
    contains(s, call_head("static async "@, method)) || contains(s, call_head("static "@, method))
        || contains(s, call_head("public static async "@, method)) || contains(
        s,
        call_head("public static "@, method),
    )
}

/// The diagnostic for the missing handler `method` of the command in `file`:
/// placed where the name first occurs in the file, or at its start.
pub open spec fn method_diag(
    files: Seq<ProjectFile>,
    file: Seq<char>,
    method: Seq<char>,
    locale: Lang,
    severity: LintRuleSeverity,
) -> DiagnosticView {
    placed(
        lint_diag(
            locale,
            "component-handler-methods"@,
            severity,
            "component-handler-methods.message"@,
            seq![("method"@, method)],
        ),
        file,
        text_loc(files, file, method),
    )
}

/// The diagnostics for the handlers among `methods` that `content` does not
/// declare static.
pub open spec fn method_diags(
    files: Seq<ProjectFile>,
    file: Seq<char>,
    content: Seq<char>,
    methods: Seq<Seq<char>>,
    locale: Lang,
    severity: LintRuleSeverity,
) -> Seq<DiagnosticView>
    decreases methods.len(),
{
    if methods.len() == 0 {
        Seq::empty()
    } else {
        let prev = method_diags(files, file, content, methods.drop_last(), locale, severity);
        let m = methods.last();
        if has_static(content, m) {
            prev
        } else {
            prev.push(method_diag(files, file, m, locale, severity))
        }
    }
}

/// For each command under `src/commands/` whose file was read, in order: a
/// diagnostic for each handler it names (sorted, each once) that it does
/// not declare static.
pub open spec fn diagnostics_for(
    files: Seq<ProjectFile>,
    commands: Seq<CommandIndexView>,
    locale: Lang,
    severity: LintRuleSeverity,
) -> Seq<DiagnosticView>
    decreases commands.len(),
{
    if commands.len() == 0 {
        Seq::empty()
    } else {
        let prev = diagnostics_for(files, commands.drop_last(), locale, severity);
        let c = commands.last();
        if starts_with(c.file, "src/commands/"@) {
            match file_text(files, c.file) {
                Some(content) => prev + method_diags(
                    files,
                    c.file,
                    content,
                    component_methods(content),
                    locale,
                    severity,
                ),
                None => prev,
            }
        } else {
            prev
        }
    }
}

/// The quoted text that starts at index `i` of `s`, white space skipped.
fn read_quoted(s: &[char], i: usize) -> (res: Option<String>)
    requires
        i <= s@.len(),
    ensures
        match res {
            Some(m) => quoted_at(s@, i as int) == Some(m@),
            None => quoted_at(s@, i as int) is None,
        },
{
    let j = skip_ws(s, i);
    if j >= s.len() {
        return None;
    }
    let q = s[j];
    if q != '\'' && q != '"' && q != '`' {
        return None;
    }
    proof {
        lemma_find_char_from_bounds(s@, q, j + 1);
    }
    match find_char_exec(s, q, j + 1) {
        Some(e) => Some(string_of_range(s, j + 1, e)),
        None => None,
    }
}

/// The distinct handler names a command's text gives, sorted.
pub fn extract_component_methods(content: &str) -> (res: Vec<String>)
    ensures
        strings_view(res@) == component_methods(content@),
{
    let s = chars_of(content);
    let marker = chars_of("method:");
    proof {
        reveal_strlit("method:");
        assert(marker@ =~= method_marker());
    }
    let mut all: Vec<String> = Vec::new();
    let mut from: usize = 0;
    let n = s.len();
    assert(strings_view(all@) + methods_from(s@, 0) =~= methods_from(s@, 0));
    loop
        invariant
            from <= n,
            n == s@.len(),
            s@ == content@,
            marker@ == method_marker(),
            strings_view(all@) + methods_from(s@, from as int) == methods_from(s@, 0),
        ensures
            strings_view(all@) == methods_from(s@, 0),
        decreases n + 1 - from,
    {
        proof {
            lemma_find_from_bounds(s@, method_marker(), from as int);
        }
        let k = match find_from_exec(&s, &marker, from) {
            None => {
                assert(strings_view(all@) + Seq::<Seq<char>>::empty() =~= strings_view(all@));
                break;
            },
            Some(k) => k,
        };
        let start = k + 7;
        let ghost before = strings_view(all@);
        match read_quoted(&s, start) {
            Some(m) => {
                all.push(m);
                assert(strings_view(all@) =~= before.push(m@));
                assert(before.push(m@) + methods_from(s@, start as int) =~= before + (seq![m@]
                    + methods_from(s@, start as int)));
            },
            None => {
                assert(Seq::<Seq<char>>::empty() + methods_from(s@, start as int) =~= methods_from(
                    s@,
                    start as int,
                ));
            },
        }
        from = start;
    }
    sorted_distinct(all)
}

/// `prefix`, then `method`, then `(`.
fn head_of(prefix: &str, method: &str) -> (res: Vec<char>)
    ensures
        res@ == call_head(prefix@, method@),
{
    let mut out: Vec<char> = Vec::new();
    push_str(&mut out, prefix);
    push_str(&mut out, method);
    out.push('(');
    assert(out@ =~= call_head(prefix@, method@));
    out
}

/// Whether `content` declares `method` as a static method.
pub fn has_static_method(content: &[char], method: &str) -> (res: bool)
    ensures
        res == has_static(content@, method@),
{
    contains_exec(content, &head_of("static async ", method)) || contains_exec(
        content,
        &head_of("static ", method),
    ) || contains_exec(content, &head_of("public static async ", method)) || contains_exec(
        content,
        &head_of("public static ", method),
    )
}

/// Reports the component handlers that are not static methods.
pub fn run(context: &RuleContext, severity: LintRuleSeverity) -> (res: Vec<Diagnostic>)
    ensures
        diags_view(res@) == diagnostics_for(
            context.files@,
            commands_view(context.project.index.commands@),
            context.locale,
            severity,
        ),
{
    let commands = &context.project.index.commands;
    let ghost cv = commands_view(commands@);
    let mut out: Vec<Diagnostic> = Vec::new();
    let mut i: usize = 0;
    assert(cv.take(0) =~= Seq::<CommandIndexView>::empty());
    assert(diags_view(out@) =~= Seq::<DiagnosticView>::empty());
    proof {
        reveal_strlit("method");
    }
    while i < commands.len()
        invariant
            i <= commands@.len(),
            cv == commands_view(commands@),
            commands == &context.project.index.commands,
            diags_view(out@) == diagnostics_for(context.files@, cv.take(i as int), context.locale, severity),
        decreases commands@.len() - i,
    {
        let c = &commands[i];
        proof {
            assert(cv.take(i + 1).drop_last() =~= cv.take(i as int));
            assert(cv.take(i + 1).last() == c@);
        }
        let file = c.file.as_str();
        if crate::text::starts_with_str(&chars_of(file), "src/commands/") {
            match context.read_file(file) {
                Some(content) => {
                    let text = chars_of(content.as_str());
                    let methods = extract_component_methods(content.as_str());
                    let ghost mv = strings_view(methods@);
                    let ghost o0 = diags_view(out@);
                    let mut j: usize = 0;
                    assert(mv.take(0) =~= Seq::<Seq<char>>::empty());
                    assert(o0 + Seq::<DiagnosticView>::empty() =~= o0);
                    while j < methods.len()
                        invariant
                            j <= methods@.len(),
                            mv == strings_view(methods@),
                            mv == component_methods(content@),
                            text@ == content@,
                            file@ == c@.file,
                            diags_view(out@) == o0 + method_diags(
                                context.files@,
                                file@,
                                content@,
                                mv.take(j as int),
                                context.locale,
                                severity,
                            ),
                        decreases methods@.len() - j,
                    {
                        let m = methods[j].as_str();
                        assert(mv.take(j + 1).drop_last() =~= mv.take(j as int));
                        assert(mv.take(j + 1).last() == m@);
                        if !has_static_method(&text, m) {
                            let args = [("method", m)];
                            assert(crate::lang::args_view(args@) =~= seq![("method"@, m@)]);
                            let d = context.diagnostic(
                                DiagnosticCode::PATTO_LINT_COMPONENT_HANDLER_METHODS,
                                severity,
                                "component-handler-methods.message",
                                &args,
                            );
                            let d = match context.location_for_text(file, m) {
                                Some((line, column)) => d.with_location(file, line, column),
                                None => d.with_location(file, 1, 1),
                            };
                            let ghost before = diags_view(out@);
                            out.push(d);
                            assert(diags_view(out@) =~= before.push(d@));
                        }
                        j = j + 1;
                    }
                    assert(mv.take(mv.len() as int) =~= mv);
                },
                None => {},
            }
        }
        i = i + 1;
    }
    assert(cv.take(cv.len() as int) =~= cv);
    out
}

pub proof fn lemma_method_codes(
    files: Seq<ProjectFile>,
    file: Seq<char>,
    content: Seq<char>,
    methods: Seq<Seq<char>>,
    locale: Lang,
    severity: LintRuleSeverity,
)
    ensures
        all_coded(method_diags(files, file, content, methods, locale, severity), "component-handler-methods"@, severity),
    decreases methods.len(),
{
    if methods.len() > 0 {
        lemma_method_codes(files, file, content, methods.drop_last(), locale, severity);
        let prev = method_diags(files, file, content, methods.drop_last(), locale, severity);
        let res = method_diags(files, file, content, methods, locale, severity);
        if res != prev {
            lemma_coded_push(prev, res.last(), "component-handler-methods"@, severity);
            assert(res =~= prev.push(res.last()));
        }
    }
}

/// Each diagnostic of the rule has the rule's code and the level of
/// `severity`.
pub proof fn lemma_codes(
    files: Seq<ProjectFile>,
    commands: Seq<CommandIndexView>,
    locale: Lang,
    severity: LintRuleSeverity,
)
    ensures
        all_coded(diagnostics_for(files, commands, locale, severity), "component-handler-methods"@, severity),
    decreases commands.len(),
{
    if commands.len() > 0 {
        lemma_codes(files, commands.drop_last(), locale, severity);
        let c = commands.last();
        if starts_with(c.file, "src/commands/"@) {
            match file_text(files, c.file) {
                Some(content) => {
                    lemma_method_codes(files, c.file, content, component_methods(content), locale, severity);
                    lemma_coded_concat(
                        diagnostics_for(files, commands.drop_last(), locale, severity),
                        method_diags(files, c.file, content, component_methods(content), locale, severity),
                        "component-handler-methods"@,
                        severity,
                    );
                },
                None => {},
            }
        }
    }
}

} // verus!
