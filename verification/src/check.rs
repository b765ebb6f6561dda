//! The check command: scan, lint and doctor in one report.
use vstd::prelude::*;

use crate::diagnostic::{append_all, diags_view, duplicate_all, Diagnostic, DiagnosticLevel, DiagnosticView};
use crate::doctor::evaluate::{checks_with, count_checks, count_level, diagnostics_at, max_nat, DoctorEvaluation};
use crate::lang::Lang;
use crate::lint::{count_off, rules_off_in, LintEvaluation};
use crate::output::{
    CheckCommandOutput, CheckDoctorSection, CheckLintSection, CheckScanSection, CheckSummary,
    DoctorCheck, DoctorCheckStatus, DoctorSummary, LintRuleSetting, LintSummary, OutputStats,
    OutputStatus,
};
use crate::project::scanner::{index_write_failed, index_write_failed_diagnostic, ProjectScan};

verus! {

/// Failed where there is an error.
pub open spec fn status_of(errors: nat) -> OutputStatus {
    if errors > 0 {
        OutputStatus::Failed
    } else {
        OutputStatus::Passed
    }
}

/// Failed where there is an error.
pub fn status_from_error_count(errors: usize) -> (res: OutputStatus)
    ensures
        res == status_of(errors as nat),
{
    if errors > 0 {
        OutputStatus::Failed
    } else {
        OutputStatus::Passed
    }
}

/// How many diagnostics are errors.
pub fn count_errors(diagnostics: &Vec<Diagnostic>) -> (n: usize)
    ensures
        n == diagnostics_at(diags_view(diagnostics@), DiagnosticLevel::Error),
{
    count_level(diagnostics, DiagnosticLevel::Error)
}

/// How many diagnostics are warnings.
pub fn count_warnings(diagnostics: &Vec<Diagnostic>) -> (n: usize)
    ensures
        n == diagnostics_at(diags_view(diagnostics@), DiagnosticLevel::Warning),
{
    count_level(diagnostics, DiagnosticLevel::Warning)
}

/// How many diagnostics are informations.
pub fn count_infos(diagnostics: &Vec<Diagnostic>) -> (n: usize)
    ensures
        n == diagnostics_at(diags_view(diagnostics@), DiagnosticLevel::Info),
{
    count_level(diagnostics, DiagnosticLevel::Info)
}

/// Failed where a diagnostic is an error.
pub fn status_from_diagnostics(diagnostics: &Vec<Diagnostic>) -> (res: OutputStatus)
    ensures
        res == status_of(diagnostics_at(diags_view(diagnostics@), DiagnosticLevel::Error)),
{
    status_from_error_count(count_errors(diagnostics))
}

/// `s` counts the rules run and off and the diagnostics by level.
pub open spec fn lint_summary_of(s: LintSummary, ds: Seq<DiagnosticView>, rules: Seq<LintRuleSetting>) -> bool {
    &&& s.rules_off == rules_off_in(rules)
    &&& s.rules_run == rules.len() - rules_off_in(rules)
    &&& s.errors == diagnostics_at(ds, DiagnosticLevel::Error)
    &&& s.warnings == diagnostics_at(ds, DiagnosticLevel::Warning)
    &&& s.infos == diagnostics_at(ds, DiagnosticLevel::Info)
}

/// `s` counts the checks by status; its warnings and errors are the larger
/// of the checks and the diagnostics that have them.
pub open spec fn doctor_summary_of(s: DoctorSummary, ds: Seq<DiagnosticView>, checks: Seq<DoctorCheck>) -> bool {
    &&& s.checks_run == checks.len()
    &&& s.ok == checks_with(checks, DoctorCheckStatus::Passed)
    &&& s.warnings == max_nat(
        checks_with(checks, DoctorCheckStatus::Warning),
        diagnostics_at(ds, DiagnosticLevel::Warning),
    )
    &&& s.errors == max_nat(
        checks_with(checks, DoctorCheckStatus::Error),
        diagnostics_at(ds, DiagnosticLevel::Error),
    )
    &&& s.skipped == checks_with(checks, DoctorCheckStatus::Skipped)
}

/// The lint part of the summary.
pub fn build_lint_summary(diagnostics: &Vec<Diagnostic>, rules: &Vec<LintRuleSetting>) -> (res: LintSummary)
    ensures
        lint_summary_of(res, diags_view(diagnostics@), rules@),
{
    let off = count_off(rules);
    LintSummary {
        rules_run: rules.len() - off,
        rules_off: off,
        errors: count_errors(diagnostics),
        warnings: count_warnings(diagnostics),
        infos: count_infos(diagnostics),
    }
}

/// The doctor part of the summary.
pub fn build_doctor_summary(diagnostics: &Vec<Diagnostic>, checks: &Vec<DoctorCheck>) -> (res: DoctorSummary)
    ensures
        doctor_summary_of(res, diags_view(diagnostics@), checks@),
{
    let diagnostic_errors = count_errors(diagnostics);
    let diagnostic_warnings = count_warnings(diagnostics);
    let check_errors = count_checks(checks, DoctorCheckStatus::Error);
    let check_warnings = count_checks(checks, DoctorCheckStatus::Warning);
    DoctorSummary {
        checks_run: checks.len(),
        ok: count_checks(checks, DoctorCheckStatus::Passed),
        warnings: if check_warnings >= diagnostic_warnings {
            check_warnings
        } else {
            diagnostic_warnings
        },
        errors: if check_errors >= diagnostic_errors {
            check_errors
        } else {
            diagnostic_errors
        },
        skipped: count_checks(checks, DoctorCheckStatus::Skipped),
    }
}

/// The report for a root that cannot be checked: the root's diagnostics,
/// failed, with empty sections.
pub fn empty_output(diagnostics: Vec<Diagnostic>, duration_ms: u128) -> (res: CheckCommandOutput)
    ensures
        res.status == OutputStatus::Failed,
        res.command@ == "check"@,
        diags_view(res.diagnostics@) == diags_view(diagnostics@),
        res.stats == (OutputStats { files_scanned: 0, directories_scanned: 0, duration_ms }),
        res.summary.errors == diagnostics_at(diags_view(diagnostics@), DiagnosticLevel::Error),
        res.summary.warnings == diagnostics_at(diags_view(diagnostics@), DiagnosticLevel::Warning),
        res.summary.infos == diagnostics_at(diags_view(diagnostics@), DiagnosticLevel::Info),
        res.summary.scan_errors == diagnostics_at(diags_view(diagnostics@), DiagnosticLevel::Error),
        res.summary.lint_errors == 0,
        res.summary.doctor_errors == 0,
        res.scan.status == OutputStatus::Failed,
        diags_view(res.scan.diagnostics@) == diags_view(diagnostics@),
        res.scan.index_path is None,
        res.scan.files_scanned == 0,
        res.scan.directories_scanned == 0,
        res.scan.commands == 0,
        res.scan.subcommands == 0,
        res.scan.subcommand_groups == 0,
        res.lint.status == OutputStatus::Passed,
        res.lint.diagnostics@.len() == 0,
        res.lint.rules@.len() == 0,
        res.lint.summary == (LintSummary { rules_run: 0, rules_off: 0, errors: 0, warnings: 0, infos: 0 }),
        res.doctor.status == OutputStatus::Passed,
        res.doctor.diagnostics@.len() == 0,
        res.doctor.checks@.len() == 0,
        res.doctor.summary == (DoctorSummary { checks_run: 0, ok: 0, warnings: 0, errors: 0, skipped: 0 }),
{
    let scan_index = crate::project::scanner::empty_project_index();
    let summary = CheckSummary {
        errors: count_errors(&diagnostics),
        warnings: count_warnings(&diagnostics),
        infos: count_infos(&diagnostics),
        scan_errors: count_errors(&diagnostics),
        lint_errors: 0,
        doctor_errors: 0,
    };
    let copy = duplicate_all(&diagnostics);
    CheckCommandOutput {
        status: OutputStatus::Failed,
        command: "check".to_owned(),
        diagnostics: copy,
        stats: OutputStats { files_scanned: 0, directories_scanned: 0, duration_ms },
        summary,
        scan: CheckScanSection {
            status: OutputStatus::Failed,
            diagnostics,
            index_path: None,
            files_scanned: 0,
            directories_scanned: 0,
            commands: scan_index.summary.commands,
            subcommands: scan_index.summary.subcommands,
            subcommand_groups: scan_index.summary.subcommand_groups,
        },
        lint: CheckLintSection {
            status: OutputStatus::Passed,
            diagnostics: Vec::new(),
            summary: LintSummary { rules_run: 0, rules_off: 0, errors: 0, warnings: 0, infos: 0 },
            rules: Vec::new(),
        },
        doctor: CheckDoctorSection {
            status: OutputStatus::Passed,
            diagnostics: Vec::new(),
            summary: DoctorSummary { checks_run: 0, ok: 0, warnings: 0, errors: 0, skipped: 0 },
            checks: Vec::new(),
        },
    }
}

/// The scan's diagnostics: those of the scan, then the index's failure to
/// be written, if it failed.
pub open spec fn scan_diagnostics(project: ProjectScan, write_error: Option<Seq<char>>, locale: Lang) -> Seq<DiagnosticView> {
    diags_view(project.diagnostics@) + match write_error {
        Some(e) => seq![index_write_failed(locale, e)],
        None => Seq::empty(),
    }
}

/// The report of `check` from the scanned project, the error writing its
/// index (if any), the lint and the doctor's evaluations and how long it
/// took: three sections, each failed where it holds an error, and the
/// whole, whose diagnostics are those of the sections in order.
pub fn check_output(
    project: &ProjectScan,
    write_error: Option<&str>,
    lint: LintEvaluation,
    doctor: DoctorEvaluation,
    locale: Lang,
    duration_ms: u128,
) -> (res: CheckCommandOutput)
    ensures
        ({
            let sd = scan_diagnostics(
                *project,
                match write_error { Some(e) => Some(e@), None => None },
                locale,
            );
            let ld = diags_view(lint.diagnostics@);
            let dd = diags_view(doctor.diagnostics@);
            let all = sd + ld + dd;
            &&& diags_view(res.scan.diagnostics@) == sd
            &&& res.scan.status == status_of(diagnostics_at(sd, DiagnosticLevel::Error))
            &&& crate::output::opt_str_view(res.scan.index_path) == match write_error {
                Some(_) => None,
                None => Some(".patto/index.json"@),
            }
            &&& res.scan.files_scanned == project.files_scanned
            &&& res.scan.directories_scanned == project.directories_scanned
            &&& res.scan.commands == project.index.summary.commands
            &&& res.scan.subcommands == project.index.summary.subcommands
            &&& res.scan.subcommand_groups == project.index.summary.subcommand_groups
            &&& diags_view(res.lint.diagnostics@) == ld
            &&& lint_summary_of(res.lint.summary, ld, lint.rules@)
            &&& res.lint.rules@ == lint.rules@
            &&& res.lint.status == status_of(res.lint.summary.errors as nat)
            &&& diags_view(res.doctor.diagnostics@) == dd
            &&& doctor_summary_of(res.doctor.summary, dd, doctor.checks@)
            &&& res.doctor.checks@ == doctor.checks@
            &&& res.doctor.status == status_of(res.doctor.summary.errors as nat)
            &&& diags_view(res.diagnostics@) == all
            &&& res.summary.scan_errors == diagnostics_at(sd, DiagnosticLevel::Error)
            &&& res.summary.lint_errors == res.lint.summary.errors
            &&& res.summary.doctor_errors == res.doctor.summary.errors
            &&& res.summary.errors == diagnostics_at(all, DiagnosticLevel::Error)
            &&& res.summary.warnings == diagnostics_at(all, DiagnosticLevel::Warning)
            &&& res.summary.infos == diagnostics_at(all, DiagnosticLevel::Info)
            &&& res.status == status_of(res.summary.errors as nat)
            &&& res.command@ == "check"@
            &&& res.stats == (OutputStats {
                files_scanned: project.files_scanned,
                directories_scanned: project.directories_scanned,
                duration_ms,
            })
        }),
{
    let mut scan_diags = duplicate_all(&project.diagnostics);
    let index_path = match write_error {
        Some(e) => {
            let d = index_write_failed_diagnostic(locale, e);
            let ghost before = diags_view(scan_diags@);
            scan_diags.push(d);
            assert(diags_view(scan_diags@) =~= before.push(d@));
            None
        },
        None => {
            assert(diags_view(scan_diags@) =~= diags_view(project.diagnostics@) + Seq::<DiagnosticView>::empty());
            Some(".patto/index.json".to_owned())
        },
    };
    let lint_summary = build_lint_summary(&lint.diagnostics, &lint.rules);
    let doctor_summary = build_doctor_summary(&doctor.diagnostics, &doctor.checks);
    let mut diagnostics = duplicate_all(&scan_diags);
    append_all(&mut diagnostics, duplicate_all(&lint.diagnostics));
    append_all(&mut diagnostics, duplicate_all(&doctor.diagnostics));
    let summary = CheckSummary {
        scan_errors: count_errors(&scan_diags),
        lint_errors: lint_summary.errors,
        doctor_errors: doctor_summary.errors,
        errors: count_errors(&diagnostics),
        warnings: count_warnings(&diagnostics),
        infos: count_infos(&diagnostics),
    };
    let scan = CheckScanSection {
        status: status_from_diagnostics(&scan_diags),
        diagnostics: scan_diags,
        index_path,
        files_scanned: project.files_scanned,
        directories_scanned: project.directories_scanned,
        commands: project.index.summary.commands,
        subcommands: project.index.summary.subcommands,
        subcommand_groups: project.index.summary.subcommand_groups,
    };
    let lint_section = CheckLintSection {
        status: status_from_error_count(lint_summary.errors),
        diagnostics: lint.diagnostics,
        summary: lint_summary,
        rules: lint.rules,
    };
    let doctor_section = CheckDoctorSection {
        status: status_from_error_count(doctor_summary.errors),
        diagnostics: doctor.diagnostics,
        summary: doctor_summary,
        checks: doctor.checks,
    };
    CheckCommandOutput {
        status: status_from_error_count(summary.errors),
        command: "check".to_owned(),
        diagnostics,
        stats: OutputStats {
            files_scanned: project.files_scanned,
            directories_scanned: project.directories_scanned,
            duration_ms,
        },
        summary,
        scan,
        lint: lint_section,
        doctor: doctor_section,
    }
}

} // verus!
