//! Running all checks of the doctor and summing them up.
use vstd::prelude::*;

use crate::diagnostic::{diags_view, Diagnostic, DiagnosticLevel, DiagnosticView};
use crate::doctor::checks::{
    build_output_check, check_build_output, check_env, check_i18n, check_package_json,
    check_project_config, check_runtime, check_sharding_redis, check_tsconfig, env_check,
    i18n_check, package_check, project_config_check, runtime_check, sharding_check,
    tsconfig_check,
};
use crate::doctor::report::{texts, CheckResult, CheckView};
use crate::json::{bool_value, deref_opt, json_bool, json_member, member, parse_json, parsed_json, JsonValue};
use crate::lang::Lang;
use crate::output::{
    DoctorCheck, DoctorCheckStatus, DoctorCommandOutput, DoctorSummary, OutputStats, OutputStatus,
};
use crate::project::scanner::ProjectScan;
use crate::utils::{env_entries, EnvFile};

verus! {

/// The feature `feature` is switched on in the configuration's `features`.
pub open spec fn feature_on(config: Option<JsonValue>, feature: Seq<char>) -> bool {
    json_bool(json_member(json_member(config, "features"@), feature)) == Some(true)
}

/// Whether the configuration switches `feature` on.
pub fn feature_enabled(config: Option<&JsonValue>, feature: &str) -> (res: bool)
    ensures
        res == feature_on(deref_opt(config), feature@),
{
    bool_value(member(member(config, "features"), feature)) == Some(true)
}

/// What the doctor read and ran outside the project index: the versions
/// that Node.js and the package manager answered with, which files exist,
/// and the texts of `.env`, `tsconfig.json`, the base command and the
/// configuration (`None` where missing or unreadable). The flags of the
/// i18n files and of the stores follow the order of the files the checks
/// list.
pub struct DoctorFacts {
    pub node_version: Option<String>,
    pub package_manager_version: Option<String>,
    pub env_exists: bool,
    pub env_template_exists: bool,
    pub env_content: Option<String>,
    pub tsconfig_content: Option<String>,
    pub i18n_files_present: Vec<bool>,
    pub base_command_content: Option<String>,
    pub config_content: Option<String>,
    pub sharding_stores_present: Vec<bool>,
    pub main_is_file: bool,
}

/// The `.env` entries the doctor reads.
pub open spec fn env_of(facts: DoctorFacts) -> Seq<(Seq<char>, Seq<char>)> {
    match facts.env_content {
        Some(c) => env_entries(crate::text::lines(c@)),
        None => Seq::empty(),
    }
}

/// Where the configuration first mentions `i18n`.
pub open spec fn i18n_location(facts: DoctorFacts) -> Option<(u32, u32)> {
    match facts.config_content {
        Some(c) => if c@.len() < u32::MAX {
            match crate::project::locations::text_location(c@, "i18n"@) {
                Some((l, k)) => Some((l as u32, k as u32)),
                None => None,
            }
        } else {
            None
        },
        None => None,
    }
}

/// The checks of the doctor, in order.
pub open spec fn doctor_checks(project: ProjectScan, facts: DoctorFacts, locale: Lang) -> Seq<CheckView> {
    let package = project.index.package;
    seq![
        runtime_check(
            locale,
            crate::diagnostic::opt_view(facts.node_version),
            package.package_manager,
            crate::diagnostic::opt_view(facts.package_manager_version),
        ),
        package_check(locale, package),
        env_check(locale, facts.env_exists, facts.env_template_exists, env_of(facts)),
        tsconfig_check(
            locale,
            match facts.tsconfig_content {
                Some(t) => parsed_json(t@),
                None => None,
            },
        ),
        project_config_check(locale, project.index.config, project.config_json is Some),
        i18n_check(
            locale,
            feature_on(project.config_json, "i18n"@),
            facts.i18n_files_present@,
            crate::diagnostic::opt_view(facts.base_command_content),
            i18n_location(facts),
        ),
        sharding_check(locale, env_of(facts), facts.sharding_stores_present@),
        build_output_check(locale, crate::diagnostic::opt_view(package.main), facts.main_is_file),
    ]
}

/// The diagnostics of all checks, check after check.
pub open spec fn all_diagnostics(views: Seq<CheckView>) -> Seq<DiagnosticView>
    decreases views.len(),
{
    if views.len() == 0 {
        Seq::empty()
    } else {
        all_diagnostics(views.drop_last()) + views.last().diagnostics
    }
}

/// A check as the output lists it.
pub open spec fn listed(c: DoctorCheck, v: CheckView) -> bool {
    c.id@ == v.id && c.status == v.status && c.message@ == v.message && texts(c.details@)
        == v.details
}

/// The checks and their diagnostics.
pub struct DoctorEvaluation {
    pub diagnostics: Vec<Diagnostic>,
    pub checks: Vec<DoctorCheck>,
}

fn take_result(
    r: CheckResult,
    checks: &mut Vec<DoctorCheck>,
    diagnostics: &mut Vec<Diagnostic>,
)
    ensures
        final(checks)@ == old(checks)@.push(r.check),
        diags_view(final(diagnostics)@) == diags_view(old(diagnostics)@) + r@.diagnostics,
{
    let ghost before = diags_view(diagnostics@);
    let CheckResult { check, diagnostics: mut found } = r;
    let ghost fv = diags_view(found@);
    checks.push(check);
    diagnostics.append(&mut found);
    assert(diags_view(diagnostics@) =~= before + fv);
}

/// Runs every check of the doctor on the scanned project and what was
/// read for it.
#[verifier::rlimit(60)]
pub fn evaluate(project: &ProjectScan, facts: &DoctorFacts, locale: Lang) -> (res: DoctorEvaluation)
    ensures
        res.checks@.len() == 8,
        forall|i: int| 0 <= i < 8 ==> listed(
            #[trigger] res.checks@[i],
            doctor_checks(*project, *facts, locale)[i],
        ),
        diags_view(res.diagnostics@) == all_diagnostics(doctor_checks(*project, *facts, locale)),
{
    let ghost views = doctor_checks(*project, *facts, locale);
    let env = match &facts.env_content {
        Some(c) => EnvFile::parse(c.as_str()),
        None => EnvFile::empty(),
    };
    assert(env@ == crate::doctor::evaluate::env_of(*facts));
    let tsconfig = match &facts.tsconfig_content {
        Some(t) => parse_json(t.as_str()),
        None => None,
    };
    let location = match &facts.config_content {
        Some(c) => {
            let count = crate::text::chars_of(c.as_str()).len();
            if count < u32::MAX as usize {
                crate::project::locations::find_text_location(c.as_str(), "i18n")
            } else {
                None
            }
        },
        None => None,
    };
    assert(location == i18n_location(*facts)) by {
        match facts.config_content {
            Some(c) => {
                if c@.len() < u32::MAX {
                    assert(crate::project::locations::location_view(location)
                        == crate::project::locations::text_location(c@, "i18n"@));
                }
            },
            None => {},
        }
    }
    let package = &project.index.package;
    let ts = tsconfig.as_ref();
    assert(deref_opt(ts) == tsconfig);
    let cj = project.config_json.as_ref();
    assert(deref_opt(cj) == project.config_json);
    let mut checks: Vec<DoctorCheck> = Vec::new();
    let mut diagnostics: Vec<Diagnostic> = Vec::new();
    let r0 = check_runtime(
        locale,
        crate::diagnostic::copy_opt_string(&facts.node_version),
        package.package_manager,
        crate::diagnostic::copy_opt_string(&facts.package_manager_version),
    );
    let ghost v0 = r0@;
    take_result(r0, &mut checks, &mut diagnostics);
    let r1 = check_package_json(locale, package);
    let ghost v1 = r1@;
    take_result(r1, &mut checks, &mut diagnostics);
    let r2 = check_env(locale, facts.env_exists, facts.env_template_exists, &env);
    let ghost v2 = r2@;
    take_result(r2, &mut checks, &mut diagnostics);
    let r3 = check_tsconfig(locale, ts);
    let ghost v3 = r3@;
    take_result(r3, &mut checks, &mut diagnostics);
    let r4 = check_project_config(locale, &project.index.config, project.config_json.is_some());
    let ghost v4 = r4@;
    take_result(r4, &mut checks, &mut diagnostics);
    let r5 = check_i18n(
        locale,
        feature_enabled(cj, "i18n"),
        &facts.i18n_files_present,
        &facts.base_command_content,
        location,
    );
    let ghost v5 = r5@;
    take_result(r5, &mut checks, &mut diagnostics);
    let r6 = check_sharding_redis(locale, &env, &facts.sharding_stores_present);
    let ghost v6 = r6@;
    take_result(r6, &mut checks, &mut diagnostics);
    let r7 = check_build_output(locale, &package.main, facts.main_is_file);
    let ghost v7 = r7@;
    take_result(r7, &mut checks, &mut diagnostics);
    proof {
        assert(views =~= seq![v0, v1, v2, v3, v4, v5, v6, v7]);
        reveal_with_fuel(all_diagnostics, 9);
        assert(views.drop_last().drop_last().drop_last().drop_last().drop_last().drop_last().drop_last().drop_last() =~= Seq::<CheckView>::empty());
        assert(diags_view(diagnostics@) =~= all_diagnostics(views));
    }
    DoctorEvaluation { diagnostics, checks }
}


/// How many checks of `cs` have `status`.
pub open spec fn checks_with(cs: Seq<DoctorCheck>, status: DoctorCheckStatus) -> nat
    decreases cs.len(),
{
    if cs.len() == 0 {
        0
    } else {
        checks_with(cs.drop_last(), status) + if cs.last().status == status {
            1nat
        } else {
            0nat
        }
    }
}

/// How many diagnostics of `ds` have `level`.
pub open spec fn diagnostics_at(ds: Seq<DiagnosticView>, level: DiagnosticLevel) -> nat
    decreases ds.len(),
{
    if ds.len() == 0 {
        0
    } else {
        diagnostics_at(ds.drop_last(), level) + if ds.last().level == level {
            1nat
        } else {
            0nat
        }
    }
}

pub open spec fn max_nat(a: nat, b: nat) -> nat {
    if a >= b {
        a
    } else {
        b
    }
}

/// Counts the checks of `cs` that have `status`.
pub fn count_checks(cs: &Vec<DoctorCheck>, status: DoctorCheckStatus) -> (n: usize)
    ensures
        n == checks_with(cs@, status),
{
    let mut n: usize = 0;
    let mut i: usize = 0;
    while i < cs.len()
        invariant
            i <= cs@.len(),
            n <= i,
            n == checks_with(cs@.take(i as int), status),
        decreases cs@.len() - i,
    {
        assert(cs@.take(i + 1).drop_last() =~= cs@.take(i as int));
        if cs[i].status == status {
            n = n + 1;
        }
        i = i + 1;
    }
    assert(cs@.take(cs@.len() as int) =~= cs@);
    n
}

/// Counts the diagnostics of `ds` that have `level`.
pub fn count_level(ds: &Vec<Diagnostic>, level: DiagnosticLevel) -> (n: usize)
    ensures
        n == diagnostics_at(diags_view(ds@), level),
{
    let ghost dv = diags_view(ds@);
    let mut n: usize = 0;
    let mut i: usize = 0;
    while i < ds.len()
        invariant
            i <= ds@.len(),
            dv == diags_view(ds@),
            n <= i,
            n == diagnostics_at(dv.take(i as int), level),
        decreases ds@.len() - i,
    {
        assert(dv.take(i + 1).drop_last() =~= dv.take(i as int));
        if ds[i].level == level {
            n = n + 1;
        }
        i = i + 1;
    }
    assert(dv.take(dv.len() as int) =~= dv);
    n
}

/// The output of `doctor`: the checks counted by status, warnings and
/// errors counted as the larger of the checks and the diagnostics with
/// them; failed where there is an error.
pub fn build_output(diagnostics: Vec<Diagnostic>, stats: OutputStats, checks: Vec<DoctorCheck>) -> (res:
    DoctorCommandOutput)
    ensures
        res.summary.checks_run == checks@.len(),
        res.summary.ok == checks_with(checks@, DoctorCheckStatus::Passed),
        res.summary.warnings == max_nat(
            checks_with(checks@, DoctorCheckStatus::Warning),
            diagnostics_at(diags_view(diagnostics@), DiagnosticLevel::Warning),
        ),
        res.summary.errors == max_nat(
            checks_with(checks@, DoctorCheckStatus::Error),
            diagnostics_at(diags_view(diagnostics@), DiagnosticLevel::Error),
        ),
        res.summary.skipped == checks_with(checks@, DoctorCheckStatus::Skipped),
        res.status == (if res.summary.errors > 0 {
            OutputStatus::Failed
        } else {
            OutputStatus::Passed
        }),
        res.command@ == "doctor"@,
        res.diagnostics@ == diagnostics@,
        res.stats == stats,
        res.checks@ == checks@,
{
    let diagnostic_errors = count_level(&diagnostics, DiagnosticLevel::Error);
    let diagnostic_warnings = count_level(&diagnostics, DiagnosticLevel::Warning);
    let check_errors = count_checks(&checks, DoctorCheckStatus::Error);
    let check_warnings = count_checks(&checks, DoctorCheckStatus::Warning);
    let summary = DoctorSummary {
        checks_run: checks.len(),
        ok: count_checks(&checks, DoctorCheckStatus::Passed),
        warnings: if check_warnings >= diagnostic_warnings {
            check_warnings
        } else {
            diagnostic_warnings
        },
        errors: if check_errors >= diagnostic_errors {
            check_errors
        } else {
            diagnostic_errors
        },
        skipped: count_checks(&checks, DoctorCheckStatus::Skipped),
    };
    DoctorCommandOutput {
        status: if summary.errors > 0 {
            OutputStatus::Failed
        } else {
            OutputStatus::Passed
        },
        command: "doctor".to_owned(),
        diagnostics,
        stats,
        summary,
        checks,
    }
}

} // verus!
