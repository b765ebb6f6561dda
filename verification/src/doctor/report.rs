//! Diagnostics, messages and check results of the doctor.
use vstd::prelude::*;

use crate::diagnostic::{hinted, plain_diagnostic, Diagnostic, DiagnosticLevel, DiagnosticView};
use crate::lang::{args_view, message, message_text, text, translation, Lang};
use crate::output::{DoctorCheck, DoctorCheckStatus};
use crate::utils::{hint_key, hint_text};

verus! {

/// A doctor diagnostic: its message is message `key` filled from `args`,
/// its hint the text of `code.hint`.
pub open spec fn doc_diag(
    locale: Lang,
    code: Seq<char>,
    level: DiagnosticLevel,
    key: Seq<char>,
    args: Seq<(Seq<char>, Seq<char>)>,
) -> DiagnosticView {
    hinted(
        plain_diagnostic(level, code, message_text(locale, key, args)),
        translation(locale, hint_key(code)),
    )
}

/// A doctor diagnostic whose message has no arguments.
pub fn diag0(locale: Lang, code: &str, level: DiagnosticLevel, key: &str) -> (res: Diagnostic)
    ensures
        res@ == doc_diag(locale, code@, level, key@, Seq::empty()),
{
    let args: [(&str, &str); 0] = [];
    assert(args_view(args@) =~= Seq::<(Seq<char>, Seq<char>)>::empty());
    Diagnostic::new(level, code, message(locale, key, &args)).with_hint(hint_text(locale, code))
}

/// A doctor diagnostic whose message has one argument.
pub fn diag1(locale: Lang, code: &str, level: DiagnosticLevel, key: &str, name: &str, value: &str) -> (res:
    Diagnostic)
    ensures
        res@ == doc_diag(locale, code@, level, key@, seq![(name@, value@)]),
{
    let args = [(name, value)];
    assert(args_view(args@) =~= seq![(name@, value@)]);
    Diagnostic::new(level, code, message(locale, key, &args)).with_hint(hint_text(locale, code))
}

/// Message `key` filled with one argument.
pub fn msg1(locale: Lang, key: &str, name: &str, value: &str) -> (res: String)
    ensures
        res@ == message_text(locale, key@, seq![(name@, value@)]),
{
    let args = [(name, value)];
    assert(args_view(args@) =~= seq![(name@, value@)]);
    message(locale, key, &args)
}

/// Message `key` filled with two arguments.
pub fn msg2(locale: Lang, key: &str, n1: &str, v1: &str, n2: &str, v2: &str) -> (res: String)
    ensures
        res@ == message_text(locale, key@, seq![(n1@, v1@), (n2@, v2@)]),
{
    let args = [(n1, v1), (n2, v2)];
    assert(args_view(args@) =~= seq![(n1@, v1@), (n2@, v2@)]);
    message(locale, key, &args)
}

/// What a check found.
#[verifier::ext_equal]
pub struct CheckView {
    pub id: Seq<char>,
    pub status: DoctorCheckStatus,
    pub message: Seq<char>,
    pub details: Seq<Seq<char>>,
    pub diagnostics: Seq<DiagnosticView>,
}

/// A check and the diagnostics it brought.
pub struct CheckResult {
    pub check: DoctorCheck,
    pub diagnostics: Vec<Diagnostic>,
}

pub open spec fn texts(v: Seq<String>) -> Seq<Seq<char>> {
    v.map_values(|t: String| t@)
}

impl View for CheckResult {
    type V = CheckView;

    open spec fn view(&self) -> CheckView {
        CheckView {
            id: self.check.id@,
            status: self.check.status,
            message: self.check.message@,
            details: texts(self.check.details@),
            diagnostics: self.diagnostics@.map_values(|d: Diagnostic| d@),
        }
    }
}

/// The check `id` with the title `title_key` in `locale`.
pub open spec fn check_view(
    locale: Lang,
    id: Seq<char>,
    title_key: Seq<char>,
    status: DoctorCheckStatus,
    details: Seq<Seq<char>>,
    diagnostics: Seq<DiagnosticView>,
) -> CheckView {
    CheckView { id, status, message: translation(locale, title_key), details, diagnostics }
}

/// Puts a check result together.
pub fn check_result(
    locale: Lang,
    id: &str,
    title_key: &str,
    status: DoctorCheckStatus,
    details: Vec<String>,
    diagnostics: Vec<Diagnostic>,
) -> (res: CheckResult)
    ensures
        res@ == check_view(
            locale,
            id@,
            title_key@,
            status,
            texts(details@),
            diagnostics@.map_values(|d: Diagnostic| d@),
        ),
{
    CheckResult {
        check: DoctorCheck {
            id: id.to_owned(),
            status,
            message: text(locale, title_key),
            details,
        },
        diagnostics,
    }
}

/// A status that is no longer fine: `Passed` becomes `Warning`, any other
/// status stays.
pub open spec fn downgraded(status: DoctorCheckStatus) -> DoctorCheckStatus {
    match status {
        DoctorCheckStatus::Passed => DoctorCheckStatus::Warning,
        other => other,
    }
}

/// Turns a passing status into a warning; keeps any other status.
pub fn downgrade_to_warning(status: DoctorCheckStatus) -> (res: DoctorCheckStatus)
    ensures
        res == downgraded(status),
{
    match status {
        DoctorCheckStatus::Passed => DoctorCheckStatus::Warning,
        other => other,
    }
}

/// Downgrading twice is downgrading once, and an error stays an error.
pub proof fn law_downgrade_idempotent(status: DoctorCheckStatus)
    ensures
        downgraded(downgraded(status)) == downgraded(status),
        status == DoctorCheckStatus::Error ==> downgraded(status) == DoctorCheckStatus::Error,
        downgraded(status) != DoctorCheckStatus::Passed,
{
}

} // verus!
