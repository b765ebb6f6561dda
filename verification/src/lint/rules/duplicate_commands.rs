//! Command keys must be unique.
use vstd::prelude::*;

use crate::diagnostic::{diags_view, Diagnostic, DiagnosticCode, DiagnosticView};
use crate::lint::context::{all_coded, lemma_coded_concat, lemma_coded_push, at_command, lint_diag, ProjectFile, RuleContext};
use crate::output::{commands_view, CommandIndex, CommandIndexView, CommandKind, LintRuleSeverity};

verus! {

/// The known commands that have a key, each with its key, in order.
pub open spec fn keyed(cs: Seq<CommandIndexView>) -> Seq<(Seq<char>, CommandIndexView)>
    decreases cs.len(),
{
    if cs.len() == 0 {
        Seq::empty()
    } else {
        let prev = keyed(cs.drop_last());
        let c = cs.last();
        if c.kind != CommandKind::Unknown && c.key is Some {
            prev.push((c.key->0, c))
        } else {
            prev
        }
    }
}

/// The distinct labels of `pairs`, in the order they first appear.
pub open spec fn distinct_labels<T>(pairs: Seq<(Seq<char>, T)>) -> Seq<Seq<char>>
    decreases pairs.len(),
{
    if pairs.len() == 0 {
        Seq::empty()
    } else {
        let prev = distinct_labels(pairs.drop_last());
        if prev.contains(pairs.last().0) {
            prev
        } else {
            prev.push(pairs.last().0)
        }
    }
}

/// The commands of `pairs` labelled `label`, in order.
pub open spec fn labelled<T>(pairs: Seq<(Seq<char>, T)>, label: Seq<char>) -> Seq<T>
    decreases pairs.len(),
{
    if pairs.len() == 0 {
        Seq::empty()
    } else {
        let prev = labelled(pairs.drop_last(), label);
        if pairs.last().0 == label {
            prev.push(pairs.last().1)
        } else {
            prev
        }
    }
}

/// A diagnostic for each command of `cs` that shares the key `key`.
pub open spec fn key_diagnostics(
    files: Seq<ProjectFile>,
    cs: Seq<CommandIndexView>,
    key: Seq<char>,
    locale: crate::lang::Lang,
    severity: LintRuleSeverity,
) -> Seq<DiagnosticView>
    decreases cs.len(),
{
    if cs.len() == 0 {
        Seq::empty()
    } else {
        key_diagnostics(files, cs.drop_last(), key, locale, severity).push(
            at_command(
                files,
                lint_diag(
                    locale,
                    "duplicate-commands"@,
                    severity,
                    "duplicate-commands.message"@,
                    seq![("key"@, key)],
                ),
                cs.last(),
            ),
        )
    }
}

/// For each key held by more than one command (the keys in the order they
/// first appear), a diagnostic for each of its commands.
pub open spec fn diagnostics_for_keys(
    files: Seq<ProjectFile>,
    pairs: Seq<(Seq<char>, CommandIndexView)>,
    keys: Seq<Seq<char>>,
    locale: crate::lang::Lang,
    severity: LintRuleSeverity,
) -> Seq<DiagnosticView>
    decreases keys.len(),
{
    if keys.len() == 0 {
        Seq::empty()
    } else {
        let prev = diagnostics_for_keys(files, pairs, keys.drop_last(), locale, severity);
        let group = labelled(pairs, keys.last());
        if group.len() > 1 {
            prev + key_diagnostics(files, group, keys.last(), locale, severity)
        } else {
            prev
        }
    }
}

/// The diagnostics of the rule.
pub open spec fn diagnostics_for(
    files: Seq<ProjectFile>,
    commands: Seq<CommandIndexView>,
    locale: crate::lang::Lang,
    severity: LintRuleSeverity,
) -> Seq<DiagnosticView> {
    let pairs = keyed(commands);
    diagnostics_for_keys(files, pairs, distinct_labels(pairs), locale, severity)
}

pub open spec fn labels_view(v: Seq<(Vec<char>, usize)>) -> Seq<Seq<char>> {
    v.map_values(|p: (Vec<char>, usize)| p.0@)
}

/// The pairs of `v`, each command taken from `commands` by its index.
pub open spec fn pairs_of(v: Seq<(Vec<char>, usize)>, commands: Seq<CommandIndexView>) -> Seq<(Seq<char>, CommandIndexView)> {
    v.map_values(|p: (Vec<char>, usize)| (p.0@, commands[p.1 as int]))
}

fn keyed_commands(commands: &Vec<CommandIndex>) -> (res: Vec<(Vec<char>, usize)>)
    ensures
        pairs_of(res@, commands_view(commands@)) == keyed(commands_view(commands@)),
        forall|j: int| 0 <= j < res@.len() ==> (#[trigger] res@[j]).1 < commands@.len(),
{
    let ghost cv = commands_view(commands@);
    let mut out: Vec<(Vec<char>, usize)> = Vec::new();
    let mut i: usize = 0;
    assert(cv.take(0) =~= Seq::<CommandIndexView>::empty());
    assert(pairs_of(out@, cv) =~= Seq::<(Seq<char>, CommandIndexView)>::empty());
    while i < commands.len()
        invariant
            i <= commands@.len(),
            cv == commands_view(commands@),
            pairs_of(out@, cv) == keyed(cv.take(i as int)),
            forall|j: int| 0 <= j < out@.len() ==> (#[trigger] out@[j]).1 < i,
        decreases commands@.len() - i,
    {
        let c = &commands[i];
        assert(cv.take(i + 1).drop_last() =~= cv.take(i as int));
        assert(cv.take(i + 1).last() == c@);
        if c.kind != CommandKind::Unknown {
            match &c.key {
                Some(k) => {
                    let kc = crate::text::chars_of(k.as_str());
                    let ghost before = pairs_of(out@, cv);
                    out.push((kc, i));
                    assert(pairs_of(out@, cv) =~= before.push((k@, cv[i as int])));
                },
                None => {},
            }
        }
        i = i + 1;
    }
    assert(cv.take(cv.len() as int) =~= cv);
    out
}

/// How many pairs carry `label`.
pub fn count_labelled(pairs: &Vec<(Vec<char>, usize)>, label: &[char], Ghost(commands): Ghost<Seq<CommandIndexView>>) -> (n: usize)
    ensures
        n == labelled(pairs_of(pairs@, commands), label@).len(),
{
    let ghost pv = pairs_of(pairs@, commands);
    let mut count: usize = 0;
    let mut j: usize = 0;
    assert(pv.take(0) =~= Seq::<(Seq<char>, CommandIndexView)>::empty());
    while j < pairs.len()
        invariant
            j <= pairs@.len(),
            pv == pairs_of(pairs@, commands),
            count <= j,
            count == labelled(pv.take(j as int), label@).len(),
        decreases pairs@.len() - j,
    {
        assert(pv.take(j + 1).drop_last() =~= pv.take(j as int));
        assert(pv.take(j + 1).last().0 == pairs@[j as int].0@);
        if crate::text::chars_eq(&pairs[j].0, label) {
            count = count + 1;
        }
        j = j + 1;
    }
    assert(pv.take(pv.len() as int) =~= pv);
    count
}

/// Adds a diagnostic for each command that holds `key`.
fn push_key_diagnostics(
    context: &RuleContext,
    pairs: &Vec<(Vec<char>, usize)>,
    key: &[char],
    severity: LintRuleSeverity,
    out: &mut Vec<Diagnostic>,
)
    requires
        forall|j: int| 0 <= j < pairs@.len() ==> (#[trigger] pairs@[j]).1 < context.project.index.commands@.len(),
    ensures
        diags_view(final(out)@) == diags_view(old(out)@) + key_diagnostics(
            context.files@,
            labelled(pairs_of(pairs@, commands_view(context.project.index.commands@)), key@),
            key@,
            context.locale,
            severity,
        ),
{
    let commands = &context.project.index.commands;
    let ghost cv = commands_view(commands@);
    let ghost pv = pairs_of(pairs@, cv);
    let ghost o0 = diags_view(out@);
    let key_text = crate::text::string_of(key);
    let args = [("key", key_text.as_str())];
    proof {
        reveal_strlit("key");
    }
    assert(crate::lang::args_view(args@) =~= seq![("key"@, key@)]);
    let mut k: usize = 0;
    assert(pv.take(0) =~= Seq::<(Seq<char>, CommandIndexView)>::empty());
    assert(o0 + key_diagnostics(context.files@, labelled(pv.take(0), key@), key@, context.locale, severity) =~= o0);
    while k < pairs.len()
        invariant
            k <= pairs@.len(),
            pv == pairs_of(pairs@, cv),
            cv == commands_view(commands@),
            commands == &context.project.index.commands,
            forall|j: int| 0 <= j < pairs@.len() ==> (#[trigger] pairs@[j]).1 < commands@.len(),
            crate::lang::args_view(args@) == seq![("key"@, key@)],
            diags_view(out@) == o0 + key_diagnostics(context.files@, labelled(pv.take(k as int), key@), key@, context.locale, severity),
        decreases pairs@.len() - k,
    {
        let ghost prev_group = labelled(pv.take(k as int), key@);
        assert(pv.take(k + 1).drop_last() =~= pv.take(k as int));
        assert(pv.take(k + 1).last() == (pairs@[k as int].0@, cv[pairs@[k as int].1 as int]));
        if crate::text::chars_eq(&pairs[k].0, key) {
            let c = &commands[pairs[k].1];
            let d = context.diagnostic(
                DiagnosticCode::PATTO_LINT_DUPLICATE_COMMANDS,
                severity,
                "duplicate-commands.message",
                &args,
            );
            let d = context.attach_command_location(d, c);
            let ghost before = diags_view(out@);
            out.push(d);
            assert(labelled(pv.take(k + 1), key@) == prev_group.push(c@));
            assert(prev_group.push(c@).drop_last() =~= prev_group);
            assert(diags_view(out@) =~= before.push(d@));
        }
        k = k + 1;
    }
    assert(pv.take(pv.len() as int) =~= pv);
}

/// Reports the commands that share a key.
pub fn run(context: &RuleContext, severity: LintRuleSeverity) -> (res: Vec<Diagnostic>)
    ensures
        diags_view(res@) == diagnostics_for(
            context.files@,
            commands_view(context.project.index.commands@),
            context.locale,
            severity,
        ),
{
    let commands = &context.project.index.commands;
    let ghost cv = commands_view(commands@);
    let pairs = keyed_commands(commands);
    let ghost pv = pairs_of(pairs@, cv);
    let mut keys: Vec<Vec<char>> = Vec::new();
    let mut i: usize = 0;
    assert(pv.take(0) =~= Seq::<(Seq<char>, CommandIndexView)>::empty());
    assert(keys.deep_view() =~= Seq::<Seq<char>>::empty());
    while i < pairs.len()
        invariant
            i <= pairs@.len(),
            pv == pairs_of(pairs@, cv),
            keys.deep_view() == distinct_labels(pv.take(i as int)),
        decreases pairs@.len() - i,
    {
        assert(pv.take(i + 1).drop_last() =~= pv.take(i as int));
        assert(pv.take(i + 1).last().0 == pairs@[i as int].0@);
        if !crate::lint::i18n::holds_name(&keys, &pairs[i].0) {
            let k = crate::text::slice_to_vec(&pairs[i].0, 0, pairs[i].0.len());
            assert(k@ =~= pairs@[i as int].0@);
            let ghost before = keys.deep_view();
            assert(k.deep_view() =~= k@);
            keys.push(k);
            assert(keys.deep_view() =~= before.push(pairs@[i as int].0@));
        }
        i = i + 1;
    }
    assert(pv.take(pv.len() as int) =~= pv);
    let ghost kv = keys.deep_view();
    let mut out: Vec<Diagnostic> = Vec::new();
    let mut m: usize = 0;
    assert(kv.take(0) =~= Seq::<Seq<char>>::empty());
    assert(diags_view(out@) =~= Seq::<DiagnosticView>::empty());
    while m < keys.len()
        invariant
            m <= keys@.len(),
            kv == keys.deep_view(),
            kv.len() == keys@.len(),
            pv == pairs_of(pairs@, cv),
            cv == commands_view(commands@),
            commands == &context.project.index.commands,
            forall|j: int| 0 <= j < pairs@.len() ==> (#[trigger] pairs@[j]).1 < commands@.len(),
            diags_view(out@) == diagnostics_for_keys(context.files@, pv, kv.take(m as int), context.locale, severity),
        decreases keys@.len() - m,
    {
        let key = &keys[m];
        assert(key@ == kv[m as int]);
        assert(kv.take(m + 1).drop_last() =~= kv.take(m as int));
        assert(kv.take(m + 1).last() == key@);
        let count = count_labelled(&pairs, key, Ghost(cv));
        if count > 1 {
            push_key_diagnostics(context, &pairs, key, severity, &mut out);
        }
        m = m + 1;
    }
    assert(kv.take(kv.len() as int) =~= kv);
    out
}

pub proof fn lemma_key_codes(
    files: Seq<ProjectFile>,
    cs: Seq<CommandIndexView>,
    key: Seq<char>,
    locale: crate::lang::Lang,
    severity: LintRuleSeverity,
)
    ensures
        all_coded(key_diagnostics(files, cs, key, locale, severity), "duplicate-commands"@, severity),
    decreases cs.len(),
{
    if cs.len() > 0 {
        lemma_key_codes(files, cs.drop_last(), key, locale, severity);
        let prev = key_diagnostics(files, cs.drop_last(), key, locale, severity);
        let res = key_diagnostics(files, cs, key, locale, severity);
        lemma_coded_push(prev, res.last(), "duplicate-commands"@, severity);
        assert(res =~= prev.push(res.last()));
    }
}

pub proof fn lemma_keys_codes(
    files: Seq<ProjectFile>,
    pairs: Seq<(Seq<char>, CommandIndexView)>,
    keys: Seq<Seq<char>>,
    locale: crate::lang::Lang,
    severity: LintRuleSeverity,
)
    ensures
        all_coded(diagnostics_for_keys(files, pairs, keys, locale, severity), "duplicate-commands"@, severity),
    decreases keys.len(),
{
    if keys.len() > 0 {
        lemma_keys_codes(files, pairs, keys.drop_last(), locale, severity);
        let group = labelled(pairs, keys.last());
        lemma_key_codes(files, group, keys.last(), locale, severity);
        lemma_coded_concat(
            diagnostics_for_keys(files, pairs, keys.drop_last(), locale, severity),
            key_diagnostics(files, group, keys.last(), locale, severity),
            "duplicate-commands"@,
            severity,
        );
    }
}

/// Each diagnostic of the rule has the rule's code and the level of
/// `severity`.
pub proof fn lemma_codes(
    files: Seq<ProjectFile>,
    commands: Seq<CommandIndexView>,
    locale: crate::lang::Lang,
    severity: LintRuleSeverity,
)
    ensures
        all_coded(diagnostics_for(files, commands, locale, severity), "duplicate-commands"@, severity),
{
    let pairs = keyed(commands);
    lemma_keys_codes(files, pairs, distinct_labels(pairs), locale, severity);
}

} // verus!
