//! The scan command's report.
use vstd::prelude::*;

use crate::check::{scan_diagnostics, status_of};
use crate::diagnostic::{diags_view, Diagnostic, DiagnosticLevel, DiagnosticView};
use crate::doctor::evaluate::diagnostics_at;
use crate::lang::Lang;
use crate::output::{opt_str_view, OutputStats, OutputStatus, ScanCommandOutput};
use crate::project::scanner::{empty_project_index, index_write_failed_diagnostic, is_empty_index, ProjectScan};

verus! {

/// The report for a root that cannot be scanned: its diagnostics, failed,
/// with an empty index.
pub fn empty_output(diagnostics: Vec<Diagnostic>, duration_ms: u128) -> (res: ScanCommandOutput)
    ensures
        res.status == OutputStatus::Failed,
        res.command@ == "scan"@,
        res.diagnostics@ == diagnostics@,
        res.stats == (OutputStats { files_scanned: 0, directories_scanned: 0, duration_ms }),
        res.index_path is None,
        is_empty_index(res.index),
{
    ScanCommandOutput {
        status: OutputStatus::Failed,
        command: "scan".to_owned(),
        diagnostics,
        stats: OutputStats { files_scanned: 0, directories_scanned: 0, duration_ms },
        index_path: None,
        index: empty_project_index(),
    }
}

/// The report of `scan` from the scanned project and the error writing its
/// index, if any: the scan's diagnostics, then the failure to write;
/// failed where one is an error.
pub fn scan_output(project: ProjectScan, write_error: Option<&str>, locale: Lang, duration_ms: u128) -> (res: ScanCommandOutput)
    ensures
        diags_view(res.diagnostics@) == scan_diagnostics(
            project,
            match write_error { Some(e) => Some(e@), None => None },
            locale,
        ),
        res.status == status_of(diagnostics_at(diags_view(res.diagnostics@), DiagnosticLevel::Error)),
        res.command@ == "scan"@,
        res.stats == (OutputStats {
            files_scanned: project.files_scanned,
            directories_scanned: project.directories_scanned,
            duration_ms,
        }),
        opt_str_view(res.index_path) == match write_error {
            Some(_) => None,
            None => Some(".patto/index.json"@),
        },
        res.index == project.index,
{
    let ProjectScan { index, diagnostics, files_scanned, directories_scanned, .. } = project;
    let mut diagnostics = diagnostics;
    let index_path = match write_error {
        Some(e) => {
            let d = index_write_failed_diagnostic(locale, e);
            let ghost before = diags_view(diagnostics@);
            diagnostics.push(d);
            assert(diags_view(diagnostics@) =~= before.push(d@));
            None
        },
        None => {
            assert(diags_view(diagnostics@) =~= diags_view(project.diagnostics@) + Seq::<DiagnosticView>::empty());
            Some(".patto/index.json".to_owned())
        },
    };
    let errors = crate::check::count_errors(&diagnostics);
    ScanCommandOutput {
        status: crate::check::status_from_error_count(errors),
        command: "scan".to_owned(),
        diagnostics,
        stats: OutputStats { files_scanned, directories_scanned, duration_ms },
        index_path,
        index,
    }
}

} // verus!
