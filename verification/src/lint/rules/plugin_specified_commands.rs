//! Plugins registered with `PluginScope.Specified` must list the commands
//! they apply to.
use vstd::prelude::*;

use crate::diagnostic::{diags_view, located, Diagnostic, DiagnosticCode, DiagnosticView};
use crate::lang::Lang;
use crate::lexer::{lemma_byte_len_concat, law_mask_keeps_byte_length, mask, mask_source, MaskStyle};
use crate::lint::context::{all_coded, lemma_coded_concat, file_text, files_fit, lemma_file_text_fits, lint_diag, ProjectFile, RuleContext};
use crate::output::LintRuleSeverity;
use crate::text::{
    byte_len, chars_of, contains, contains_str, find_from, find_from_exec, is_ws, is_whitespace_char,
    lemma_find_from_bounds, occurs_at, char_utf8_len,
};
use crate::utils::{char_offset_line_column, line_column};

verus! {

/// Where the plugins are registered.
pub open spec fn plugins_file() -> Seq<char> {
    "src/config/plugins.config.ts"@
}

/// What opens a block that applies a plugin to chosen commands.
pub open spec fn specified_marker() -> Seq<char> {
    "PluginScope.Specified"@
}

/// What closes a registration block.
pub open spec fn block_close() -> Seq<char> {
    seq!['}', ')', ';']
}

/// `s` without its white space.
pub open spec fn compact(s: Seq<char>) -> Seq<char>
    decreases s.len(),
{
    if s.len() == 0 {
        Seq::empty()
    } else if is_ws(s.last()) {
        compact(s.drop_last())
    } else {
        compact(s.drop_last()).push(s.last())
    }
}

/// A block that gives a non-empty `commands` list.
pub open spec fn lists_commands(block: Seq<char>) -> bool {
    contains(compact(block), "commands:"@) && !contains(compact(block), "commands:[]"@)
}

/// Every `PluginScope.Specified` of `code` is followed by a `});`.
pub open spec fn blocks_closed(code: Seq<char>) -> bool {
    forall|k: int| #[trigger] occurs_at(code, specified_marker(), k) ==> find_from(code, block_close(), k) is Some
}

/// The plugins file, where it was read, closes each of its
/// `PluginScope.Specified` blocks.
pub open spec fn plugins_config_readable(files: Seq<ProjectFile>) -> bool {
    match file_text(files, plugins_file()) {
        Some(c) => blocks_closed(mask(c, MaskStyle::ByteWidth)),
        None => true,
    }
}

/// The diagnostic for the block that starts at index `k` of `code`, the
/// mask of `content`: placed at the line and column of its byte offset.
pub open spec fn block_diagnostic(
    locale: Lang,
    severity: LintRuleSeverity,
    content: Seq<char>,
    code: Seq<char>,
    k: int,
) -> DiagnosticView {
    let (line, column) = line_column(content, byte_len(code.take(k)) as int);
    located(
        lint_diag(
            locale,
            "plugin-specified-commands"@,
            severity,
            "plugin-specified-commands.message"@,
            Seq::empty(),
        ),
        plugins_file(),
        line as u32,
        column as u32,
    )
}

/// The diagnostics for the `PluginScope.Specified` blocks of `code` found at
/// or after index `from` that list no commands, each block running to the
/// next `});` and the search going on after it.
pub open spec fn reports_from(
    locale: Lang,
    severity: LintRuleSeverity,
    content: Seq<char>,
    code: Seq<char>,
    from: int,
) -> Seq<DiagnosticView>
    decreases code.len() + 1 - from,
{
    if from < 0 {
        Seq::empty()
    } else {
        match find_from(code, specified_marker(), from) {
            None => Seq::empty(),
            Some(k) => match find_from(code, block_close(), k) {
                // excluded by `plugins_config_readable`
                None => Seq::empty(),
                Some(e) => {
                    proof {
                        lemma_find_from_bounds(code, specified_marker(), from);
                        lemma_find_from_bounds(code, block_close(), k);
                    }
                    let rest = reports_from(locale, severity, content, code, e + 3);
                    if lists_commands(code.subrange(k, e)) {
                        rest
                    } else {
                        seq![block_diagnostic(locale, severity, content, code, k)] + rest
                    }
                },
            },
        }
    }
}

/// A diagnostic for each `PluginScope.Specified` block of the plugins file
/// that lists no commands, placed where the block starts.
pub open spec fn diagnostics_for(files: Seq<ProjectFile>, locale: Lang, severity: LintRuleSeverity) -> Seq<DiagnosticView> {
    match file_text(files, plugins_file()) {
        Some(c) => reports_from(locale, severity, c, mask(c, MaskStyle::ByteWidth), 0),
        None => Seq::empty(),
    }
}

/// `s[from..to]` without its white space.
fn compact_range(s: &[char], from: usize, to: usize) -> (res: Vec<char>)
    requires
        from <= to <= s@.len(),
    ensures
        res@ == compact(s@.subrange(from as int, to as int)),
{
    let mut out: Vec<char> = Vec::new();
    let mut i = from;
    assert(s@.subrange(from as int, from as int) =~= Seq::<char>::empty());
    while i < to
        invariant
            from <= i <= to <= s@.len(),
            out@ == compact(s@.subrange(from as int, i as int)),
        decreases to - i,
    {
        assert(s@.subrange(from as int, i + 1).drop_last() =~= s@.subrange(from as int, i as int));
        assert(s@.subrange(from as int, i + 1).last() == s@[i as int]);
        if !is_whitespace_char(s[i]) {
            out.push(s[i]);
        }
        i = i + 1;
    }
    out
}

/// At most four bytes a character.
proof fn lemma_byte_len_bound(s: Seq<char>)
    ensures
        byte_len(s) <= 4 * s.len(),
    decreases s.len(),
{
    if s.len() > 0 {
        lemma_byte_len_bound(s.drop_last());
    }
}

/// Whether the code of `content` closes each of its `PluginScope.Specified`
/// blocks with a `});`.
pub fn plugin_blocks_closed(content: &str) -> (res: bool)
    ensures
        res == blocks_closed(mask(content@, MaskStyle::ByteWidth)),
{
    let text = chars_of(content);
    let code = mask_source(&text, MaskStyle::ByteWidth);
    let marker = chars_of("PluginScope.Specified");
    let close = chars_of("});");
    proof {
        reveal_strlit("});");
        assert(close@ =~= block_close());
    }
    let n = code.len();
    let mut from: usize = 0;
    while from <= n
        invariant
            n == code@.len(),
            code@ == mask(content@, MaskStyle::ByteWidth),
            marker@ == specified_marker(),
            close@ == block_close(),
            forall|j: int| 0 <= j < from && #[trigger] occurs_at(code@, specified_marker(), j)
                ==> find_from(code@, block_close(), j) is Some,
        decreases n + 1 - from,
    {
        proof {
            lemma_find_from_bounds(code@, specified_marker(), from as int);
        }
        let k = match find_from_exec(&code, &marker, from) {
            None => {
                assert forall|j: int| #[trigger] occurs_at(code@, specified_marker(), j) implies find_from(
                    code@,
                    block_close(),
                    j,
                ) is Some by {
                    if j >= from {
                        assert(!occurs_at(code@, specified_marker(), j));
                    }
                }
                return true;
            },
            Some(k) => k,
        };
        if find_from_exec(&code, &close, k).is_none() {
            assert(occurs_at(code@, specified_marker(), k as int));
            return false;
        }
        assert forall|j: int| 0 <= j < k + 1 && #[trigger] occurs_at(code@, specified_marker(), j)
            implies find_from(code@, block_close(), j) is Some by {
            if from <= j < k {
                assert(!occurs_at(code@, specified_marker(), j));
            }
        }
        from = k + 1;
    }
    assert forall|j: int| #[trigger] occurs_at(code@, specified_marker(), j) implies find_from(
        code@,
        block_close(),
        j,
    ) is Some by {
        assert(j < from);
    }
    true
}

/// Reports the `PluginScope.Specified` blocks that list no commands.
pub fn run(context: &RuleContext, severity: LintRuleSeverity) -> (res: Vec<Diagnostic>)
    requires
        files_fit(context.files@),
        plugins_config_readable(context.files@),
    ensures
        diags_view(res@) == diagnostics_for(context.files@, context.locale, severity),
{
    proof {
        reveal_strlit("src/config/plugins.config.ts");
        lemma_file_text_fits(context.files@, plugins_file());
    }
    let content = match context.read_file("src/config/plugins.config.ts") {
        Some(c) => c,
        None => return Vec::new(),
    };
    let text = chars_of(content.as_str());
    let code = mask_source(&text, MaskStyle::ByteWidth);
    let marker = chars_of("PluginScope.Specified");
    let close = chars_of("});");
    proof {
        reveal_strlit("});");
        assert(close@ =~= block_close());
        law_mask_keeps_byte_length(text@);
        lemma_byte_len_bound(text@);
    }
    let ghost locale = context.locale;
    let ghost whole = reports_from(locale, severity, text@, code@, 0);
    let mut out: Vec<Diagnostic> = Vec::new();
    let n = code.len();
    let mut from: usize = 0;
    let mut pos: usize = 0;
    let mut byte: u64 = 0;
    assert(code@.take(0) =~= Seq::<char>::empty());
    loop
        invariant
            text@ == content@,
            text@.len() < u32::MAX,
            code@ == mask(text@, MaskStyle::ByteWidth),
            byte_len(code@) == byte_len(text@),
            byte_len(text@) <= 4 * text@.len(),
            blocks_closed(code@),
            marker@ == specified_marker(),
            close@ == block_close(),
            locale == context.locale,
            whole == reports_from(locale, severity, text@, code@, 0),
            pos <= from,
            n == code@.len(),
            pos <= code@.len(),
            byte == byte_len(code@.take(pos as int)),
            diags_view(out@) + reports_from(locale, severity, text@, code@, from as int) == whole,
        ensures
            diags_view(out@) == whole,
        decreases code@.len() + 1 - from,
    {
        let found = find_from_exec(&code, &marker, from);
        proof {
            lemma_find_from_bounds(code@, specified_marker(), from as int);
        }
        let k = match found {
            Some(k) => k,
            None => {
                assert(diags_view(out@) =~= whole);
                break;
            },
        };
        let closing = find_from_exec(&code, &close, k);
        proof {
            lemma_find_from_bounds(code@, block_close(), k as int);
        }
        let e = match closing {
            Some(e) => e,
            None => {
                assert(occurs_at(code@, specified_marker(), k as int));
                assert(false);
                break;
            },
        };
        while pos < k
            invariant
                pos <= k < code@.len(),
                byte == byte_len(code@.take(pos as int)),
                byte_len(code@) == byte_len(text@),
                byte_len(text@) <= 4 * text@.len(),
                text@.len() < u32::MAX,
            decreases k - pos,
        {
            proof {
                assert(code@.take(pos + 1).drop_last() =~= code@.take(pos as int));
                assert(code@.take(pos + 1).last() == code@[pos as int]);
                lemma_byte_len_concat(code@.take(pos + 1), code@.skip(pos + 1));
                assert(code@.take(pos + 1) + code@.skip(pos + 1) =~= code@);
            }
            byte = byte + char_utf8_len(code[pos]) as u64;
            pos = pos + 1;
        }
        let block = compact_range(&code, k, e);
        let listed = contains_str(&block, "commands:") && !contains_str(&block, "commands:[]");
        let ghost rest = reports_from(locale, severity, text@, code@, e + 3);
        assert(reports_from(locale, severity, text@, code@, from as int) == if listed {
            rest
        } else {
            seq![block_diagnostic(locale, severity, text@, code@, k as int)] + rest
        });
        if !listed {
            let (line, column) = char_offset_line_column(&text, byte);
            let d = context.diagnostic(
                DiagnosticCode::PATTO_LINT_PLUGIN_SPECIFIED_COMMANDS,
                severity,
                "plugin-specified-commands.message",
                &[],
            );
            let d = d.with_location("src/config/plugins.config.ts", line, column);
            proof {
                assert(crate::lang::args_view(Seq::<(&str, &str)>::empty()) =~= Seq::<(Seq<char>, Seq<char>)>::empty());
            }
            let ghost before = diags_view(out@);
            out.push(d);
            assert(diags_view(out@) =~= before.push(d@));
            assert(d@ == block_diagnostic(locale, severity, text@, code@, k as int));
            assert(diags_view(out@) + rest =~= before + (seq![d@] + rest));
        }
        assert(occurs_at(code@, block_close(), e as int));
        assert(e + 3 <= n);
        from = e + 3;
    }
    out
}

pub proof fn lemma_reports_codes(
    locale: Lang,
    severity: LintRuleSeverity,
    content: Seq<char>,
    code: Seq<char>,
    from: int,
)
    ensures
        all_coded(reports_from(locale, severity, content, code, from), "plugin-specified-commands"@, severity),
    decreases code.len() + 1 - from,
{
    if from >= 0 {
        lemma_find_from_bounds(code, specified_marker(), from);
        match find_from(code, specified_marker(), from) {
            None => {},
            Some(k) => {
                lemma_find_from_bounds(code, block_close(), k);
                match find_from(code, block_close(), k) {
                    None => {},
                    Some(e) => {
                        lemma_reports_codes(locale, severity, content, code, e + 3);
                        let rest = reports_from(locale, severity, content, code, e + 3);
                        if !lists_commands(code.subrange(k, e)) {
                            let d = block_diagnostic(locale, severity, content, code, k);
                            lemma_coded_concat(seq![d], rest, "plugin-specified-commands"@, severity);
                        }
                    },
                }
            },
        }
    }
}

/// Each diagnostic of the rule has the rule's code and the level of
/// `severity`.
pub proof fn lemma_codes(files: Seq<ProjectFile>, locale: Lang, severity: LintRuleSeverity)
    ensures
        all_coded(diagnostics_for(files, locale, severity), "plugin-specified-commands"@, severity),
{
    match file_text(files, plugins_file()) {
        Some(c) => lemma_reports_codes(locale, severity, c, mask(c, MaskStyle::ByteWidth), 0),
        None => {},
    }
}

} // verus!
