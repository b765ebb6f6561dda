//! A sharded bot needs a Redis URL and the Redis stores.
use vstd::prelude::*;

use crate::diagnostic::{diags_view, located, Diagnostic, DiagnosticCode, DiagnosticView};
use crate::doctor::checks::{env_blank, env_is_true, env_true, sharding_required_files, sharding_store_files};
use crate::lang::Lang;
use crate::lint::context::{all_coded, lemma_coded_concat, lemma_coded_push, file_text, lint_diag, ProjectFile, RuleContext};
use crate::lint::rules::broken_alias_imports::holds_file;
use crate::output::{strings_view, LintRuleSeverity};
use crate::text::{chars_of, lines};
use crate::utils::{env_entries, EnvFile};

verus! {

/// The entries of the project's `.env`, none where it was not read.
pub open spec fn env_of(files: Seq<ProjectFile>) -> Seq<(Seq<char>, Seq<char>)> {
    match file_text(files, ".env"@) {
        Some(c) => env_entries(lines(c)),
        None => Seq::empty(),
    }
}

/// A diagnostic of this rule placed at the start of `file`.
pub open spec fn config_diag(
    locale: Lang,
    severity: LintRuleSeverity,
    file: Seq<char>,
    key: Seq<char>,
    args: Seq<(Seq<char>, Seq<char>)>,
) -> DiagnosticView {
    located(lint_diag(locale, "sharding-redis-config"@, severity, key, args), file, 1, 1)
}

/// A diagnostic for each of `stores` that is not among `paths`, in order.
pub open spec fn missing_stores(
    locale: Lang,
    severity: LintRuleSeverity,
    paths: Seq<Seq<char>>,
    stores: Seq<Seq<char>>,
) -> Seq<DiagnosticView>
    decreases stores.len(),
{
    if stores.len() == 0 {
        Seq::empty()
    } else {
        let prev = missing_stores(locale, severity, paths, stores.drop_last());
        let f = stores.last();
        if paths.contains(f) {
            prev
        } else {
            prev.push(
                config_diag(
                    locale,
                    severity,
                    f,
                    "sharding-redis-config.missing-store.message"@,
                    seq![("file"@, f)],
                ),
            )
        }
    }
}

/// Where `.env` sets `SHARDING_ENABLED` to `true`: a diagnostic at `.env`
/// when `REDIS_URL` is missing or blank, then one for each Redis store that
/// is not among the project's files.
pub open spec fn diagnostics_for(
    files: Seq<ProjectFile>,
    paths: Seq<Seq<char>>,
    locale: Lang,
    severity: LintRuleSeverity,
) -> Seq<DiagnosticView> {
    let env = env_of(files);
    if !env_true(env, "SHARDING_ENABLED"@) {
        Seq::empty()
    } else {
        let url = if env_blank(env, "REDIS_URL"@) {
            seq![
                config_diag(
                    locale,
                    severity,
                    ".env"@,
                    "sharding-redis-config.redis-url.message"@,
                    Seq::empty(),
                ),
            ]
        } else {
            Seq::empty()
        };
        url + missing_stores(locale, severity, paths, sharding_store_files())
    }
}

/// Reports a sharded setup without a Redis URL or without its stores.
pub fn run(context: &RuleContext, severity: LintRuleSeverity) -> (res: Vec<Diagnostic>)
    ensures
        diags_view(res@) == diagnostics_for(
            context.files@,
            strings_view(context.project.files@),
            context.locale,
            severity,
        ),
{
    let env = match context.read_file(".env") {
        Some(c) => EnvFile::parse(c.as_str()),
        None => EnvFile::empty(),
    };
    assert(env@ == env_of(context.files@));
    let mut out: Vec<Diagnostic> = Vec::new();
    if !env_is_true(&env, "SHARDING_ENABLED") {
        assert(diags_view(out@) =~= Seq::<DiagnosticView>::empty());
        return out;
    }
    let blank = match env.get("REDIS_URL") {
        Some(v) => crate::utils::is_blank(v.as_str()),
        None => true,
    };
    assert(blank == env_blank(env@, "REDIS_URL"@));
    if blank {
        let d = context.diagnostic(
            DiagnosticCode::PATTO_LINT_SHARDING_REDIS_CONFIG,
            severity,
            "sharding-redis-config.redis-url.message",
            &[],
        ).with_location(".env", 1, 1);
        proof {
            assert(crate::lang::args_view(Seq::<(&str, &str)>::empty()) =~= Seq::<(Seq<char>, Seq<char>)>::empty());
        }
        out.push(d);
        assert(diags_view(out@) =~= seq![d@]);
    } else {
        assert(diags_view(out@) =~= Seq::<DiagnosticView>::empty());
    }
    let ghost url = diags_view(out@);
    let stores = sharding_required_files();
    let ghost sv = stores@.map_values(|f: &str| f@);
    let ghost pv = strings_view(context.project.files@);
    let mut i: usize = 0;
    assert(sv.take(0) =~= Seq::<Seq<char>>::empty());
    assert(url + Seq::<DiagnosticView>::empty() =~= url);
    proof {
        reveal_strlit("file");
    }
    while i < 3
        invariant
            i <= 3,
            stores@.len() == 3,
            sv == stores@.map_values(|f: &str| f@),
            sv == sharding_store_files(),
            pv == strings_view(context.project.files@),
            diags_view(out@) == url + missing_stores(context.locale, severity, pv, sv.take(i as int)),
        decreases 3 - i,
    {
        let f = stores[i];
        assert(sv.take(i + 1).drop_last() =~= sv.take(i as int));
        assert(sv.take(i + 1).last() == f@);
        let fc = chars_of(f);
        if !holds_file(&context.project.files, &fc) {
            let args = [("file", f)];
            assert(crate::lang::args_view(args@) =~= seq![("file"@, f@)]);
            let d = context.diagnostic(
                DiagnosticCode::PATTO_LINT_SHARDING_REDIS_CONFIG,
                severity,
                "sharding-redis-config.missing-store.message",
                &args,
            ).with_location(f, 1, 1);
            let ghost before = diags_view(out@);
            out.push(d);
            assert(diags_view(out@) =~= before.push(d@));
        }
        i = i + 1;
    }
    assert(sv.take(3) =~= sv);
    out
}

pub proof fn lemma_store_codes(
    locale: Lang,
    severity: LintRuleSeverity,
    paths: Seq<Seq<char>>,
    stores: Seq<Seq<char>>,
)
    ensures
        all_coded(missing_stores(locale, severity, paths, stores), "sharding-redis-config"@, severity),
    decreases stores.len(),
{
    if stores.len() > 0 {
        lemma_store_codes(locale, severity, paths, stores.drop_last());
        let prev = missing_stores(locale, severity, paths, stores.drop_last());
        let res = missing_stores(locale, severity, paths, stores);
        if res != prev {
            lemma_coded_push(prev, res.last(), "sharding-redis-config"@, severity);
            assert(res =~= prev.push(res.last()));
        }
    }
}

/// Each diagnostic of the rule has the rule's code and the level of
/// `severity`.
pub proof fn lemma_codes(files: Seq<ProjectFile>, paths: Seq<Seq<char>>, locale: Lang, severity: LintRuleSeverity)
    ensures
        all_coded(diagnostics_for(files, paths, locale, severity), "sharding-redis-config"@, severity),
{
    let env = env_of(files);
    if env_true(env, "SHARDING_ENABLED"@) {
        lemma_store_codes(locale, severity, paths, sharding_store_files());
        let url = if env_blank(env, "REDIS_URL"@) {
            seq![config_diag(locale, severity, ".env"@, "sharding-redis-config.redis-url.message"@, Seq::empty())]
        } else {
            Seq::empty()
        };
        lemma_coded_concat(url, missing_stores(locale, severity, paths, sharding_store_files()), "sharding-redis-config"@, severity);
    }
}

} // verus!
