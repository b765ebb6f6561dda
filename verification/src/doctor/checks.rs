//! The checks of the doctor, each on what was read of the project.
use vstd::prelude::*;

use crate::diagnostic::{DiagnosticCode, DiagnosticLevel, DiagnosticView, Diagnostic};
use crate::doctor::report::{
    check_result, check_view, diag0, diag1, doc_diag, downgrade_to_warning, downgraded, msg1,
    msg2, texts, CheckResult, CheckView,
};
use crate::lang::{message_text, text, translation, Lang};
use crate::output::{DoctorCheckStatus, PackageIndex, PackageManager};
use crate::text::{chars_of, contains, find_char_from, find_char_exec, is_ascii_digit, trim};
use crate::utils::{env_value, EnvFile};
use crate::project::parser_support::ascii_lower;
use crate::json::{json_bool, json_member, JsonValue, deref_opt, member, bool_value};
use crate::output::ProjectConfigIndex;
use crate::diagnostic::located;

verus! {

/// `s` without the `v`s it starts with.
pub open spec fn strip_leading_v(s: Seq<char>) -> Seq<char>
    decreases s.len(),
{
    if s.len() > 0 && s[0] == 'v' {
        strip_leading_v(s.drop_first())
    } else {
        s
    }
}

/// The number that the decimal digits `d` write.
pub open spec fn digits_value(d: Seq<char>) -> int
    decreases d.len(),
{
    if d.len() == 0 {
        0
    } else {
        digits_value(d.drop_last()) * 10 + (d.last() as u32 - '0' as u32)
    }
}

pub open spec fn all_digits(d: Seq<char>) -> bool {
    forall|i: int| 0 <= i < d.len() ==> is_ascii_digit(#[trigger] d[i])
}

/// The `u32` that `s` writes in decimal, an optional `+` first, as
/// `u32::from_str` reads it.
pub open spec fn parsed_u32(s: Seq<char>) -> Option<u32> {
    let d = if s.len() > 0 && s[0] == '+' {
        s.drop_first()
    } else {
        s
    };
    if d.len() > 0 && all_digits(d) && digits_value(d) <= u32::MAX {
        Some(digits_value(d) as u32)
    } else {
        None
    }
}

/// The major version of a Node.js version text such as `v20.11.1`: the
/// number before the first `.`, leading `v`s left out.
pub open spec fn node_major(version: Seq<char>) -> Option<u32> {
    let t = strip_leading_v(version);
    match find_char_from(t, '.', 0) {
        Some(k) => parsed_u32(t.take(k)),
        None => parsed_u32(t),
    }
}

pub proof fn lemma_digits_value_grows(d: Seq<char>, i: int)
    requires
        0 <= i <= d.len(),
        all_digits(d),
    ensures
        digits_value(d.take(i)) <= digits_value(d),
        0 <= digits_value(d.take(i)),
    decreases d.len() - i,
{
    if i < d.len() {
        lemma_digits_value_grows(d, i + 1);
        assert(d.take(i + 1).drop_last() =~= d.take(i));
        assert(is_ascii_digit(d[i]));
        assert(d.take(i + 1).last() == d[i]);
        lemma_digits_value_nonneg(d.take(i));
    } else {
        assert(d.take(i) =~= d);
        lemma_digits_value_nonneg(d);
    }
}

pub proof fn lemma_digits_value_nonneg(d: Seq<char>)
    requires
        all_digits(d),
    ensures
        0 <= digits_value(d),
    decreases d.len(),
{
    if d.len() > 0 {
        assert(all_digits(d.drop_last())) by {
            assert forall|i: int| 0 <= i < d.drop_last().len() implies is_ascii_digit(
                #[trigger] d.drop_last()[i],
            ) by {
                assert(d.drop_last()[i] == d[i]);
            }
        }
        lemma_digits_value_nonneg(d.drop_last());
        assert(is_ascii_digit(d[d.len() - 1]));
    }
}

/// Reads the `u32` that `s[from..to]` writes.
fn parse_u32_range(s: &[char], from: usize, to: usize) -> (res: Option<u32>)
    requires
        from <= to <= s@.len(),
    ensures
        res == parsed_u32(s@.subrange(from as int, to as int)),
{
    let ghost seg = s@.subrange(from as int, to as int);
    let mut start = from;
    if start < to && s[start] == '+' {
        start = start + 1;
        assert(seg.drop_first() =~= s@.subrange(start as int, to as int));
    }
    let ghost d = s@.subrange(start as int, to as int);
    assert(d == (if seg.len() > 0 && seg[0] == '+' {
        seg.drop_first()
    } else {
        seg
    }));
    if start == to {
        return None;
    }
    let mut value: u64 = 0;
    let mut i = start;
    while i < to
        invariant
            start <= i <= to <= s@.len(),
            d == s@.subrange(start as int, to as int),
            seg == s@.subrange(from as int, to as int),
            d == (if seg.len() > 0 && seg[0] == '+' {
                seg.drop_first()
            } else {
                seg
            }),
            all_digits(d.take(i - start)),
            value as int == digits_value(d.take(i - start)),
            value <= u32::MAX,
        decreases to - i,
    {
        let c = s[i];
        if !('0' <= c && c <= '9') {
            assert(d[i - start] == c);
            return None;
        }
        let digit = (c as u32 - '0' as u32) as u64;
        proof {
            assert(d.take(i - start + 1).drop_last() =~= d.take(i - start));
            assert(d.take(i - start + 1).last() == c);
            assert forall|k: int| 0 <= k < d.take(i - start + 1).len() implies is_ascii_digit(
                #[trigger] d.take(i - start + 1)[k],
            ) by {
                if k < i - start {
                    assert(d.take(i - start + 1)[k] == d.take(i - start)[k]);
                }
            }
        }
        let next = value * 10 + digit;
        assert(next as int == digits_value(d.take(i - start + 1)));
        if next > u32::MAX as u64 {
            proof {
                let j = i - start + 1;
                if all_digits(d) {
                    lemma_digits_value_grows(d, j);
                }
            }
            return None;
        }
        value = next;
        i = i + 1;
    }
    assert(d.take(to - start) =~= d);
    Some(value as u32)
}

/// Reads the major version of a Node.js version text.
pub fn parse_node_major(version: &str) -> (res: Option<u32>)
    ensures
        res == node_major(version@),
{
    let v = chars_of(version);
    let mut k: usize = 0;
    assert(v@.skip(0) =~= v@);
    while k < v.len() && v[k] == 'v'
        invariant
            k <= v@.len(),
            strip_leading_v(v@.skip(k as int)) == strip_leading_v(v@),
        decreases v@.len() - k,
    {
        assert(v@.skip(k as int).drop_first() =~= v@.skip(k + 1));
        k = k + 1;
    }
    assert(v@.skip(k as int) =~= v@.subrange(k as int, v@.len() as int));
    let ghost t = v@.skip(k as int);
    assert(strip_leading_v(t) == t);
    let t_vec = crate::text::slice_to_vec(&v, k, v.len());
    proof {
        crate::text::lemma_find_char_from_bounds(t_vec@, '.', 0);
    }
    match find_char_exec(&t_vec, '.', 0) {
        Some(dot) => {
            assert(t_vec@.take(dot as int) =~= t_vec@.subrange(0, dot as int));
            parse_u32_range(&t_vec, 0, dot)
        },
        None => {
            assert(t_vec@ =~= t_vec@.subrange(0, t_vec@.len() as int));
            parse_u32_range(&t_vec, 0, t_vec.len())
        },
    }
}


/// The command that reports the version of a package manager.
pub open spec fn pm_command_name(pm: PackageManager) -> Option<Seq<char>> {
    match pm {
        PackageManager::Npm => Some("npm"@),
        PackageManager::Pnpm => Some("pnpm"@),
        PackageManager::Yarn => Some("yarn"@),
        PackageManager::Unknown => None,
    }
}

/// The command that reports the version of a package manager.
pub fn package_manager_command(pm: PackageManager) -> (res: Option<&'static str>)
    ensures
        match res {
            Some(c) => pm_command_name(pm) == Some(c@),
            None => pm_command_name(pm) is None,
        },
{
    match pm {
        PackageManager::Npm => Some("npm"),
        PackageManager::Pnpm => Some("pnpm"),
        PackageManager::Yarn => Some("yarn"),
        PackageManager::Unknown => None,
    }
}

pub open spec fn version_detail(locale: Lang, command: Seq<char>, version: Seq<char>) -> Seq<char> {
    message_text(
        locale,
        "doctor-runtime.detail.command-version"@,
        seq![("command"@, command), ("version"@, version)],
    )
}

/// What the runtime check finds: Node.js must answer with a version of at
/// least 18 (an unreadable major counts as 0), and the package manager of
/// the project must answer too; an unknown package manager is a warning.
#[verifier::opaque]
pub open spec fn runtime_check(
    locale: Lang,
    node_version: Option<Seq<char>>,
    pm: PackageManager,
    pm_version: Option<Seq<char>>,
) -> CheckView {
    let (details, diags, status) = match node_version {
        Some(v) => {
            let major = match node_major(v) {
                Some(m) => m,
                None => 0,
            };
            if major < 18 {
                (
                    seq![version_detail(locale, "node"@, v)],
                    seq![
                        doc_diag(
                            locale,
                            "doctor-runtime"@,
                            DiagnosticLevel::Error,
                            "doctor-runtime.node-version.message"@,
                            seq![("version"@, v)],
                        ),
                    ],
                    DoctorCheckStatus::Error,
                )
            } else {
                (seq![version_detail(locale, "node"@, v)], Seq::empty(), DoctorCheckStatus::Passed)
            }
        },
        None => (
            Seq::empty(),
            seq![
                doc_diag(
                    locale,
                    "doctor-runtime"@,
                    DiagnosticLevel::Error,
                    "doctor-runtime.node-missing.message"@,
                    Seq::empty(),
                ),
            ],
            DoctorCheckStatus::Error,
        ),
    };
    let title = "doctor-runtime.check.title"@;
    match pm_command_name(pm) {
        Some(cmd) => match pm_version {
            Some(v) => check_view(
                locale,
                "runtime"@,
                title,
                status,
                details.push(version_detail(locale, cmd, v)),
                diags,
            ),
            None => check_view(
                locale,
                "runtime"@,
                title,
                DoctorCheckStatus::Error,
                details,
                diags.push(
                    doc_diag(
                        locale,
                        "doctor-runtime"@,
                        DiagnosticLevel::Error,
                        "doctor-runtime.package-manager-missing.message"@,
                        seq![("command"@, cmd)],
                    ),
                ),
            ),
        },
        None => check_view(
            locale,
            "runtime"@,
            title,
            downgraded(status),
            details.push(translation(locale, "doctor-runtime.detail.package-manager-unknown"@)),
            diags,
        ),
    }
}

pub open spec fn diags_of(v: Seq<Diagnostic>) -> Seq<DiagnosticView> {
    v.map_values(|d: Diagnostic| d@)
}

/// Checks the runtime: the versions that Node.js and the package manager
/// answered with (`None` where they did not answer).
pub fn check_runtime(
    locale: Lang,
    node_version: Option<String>,
    pm: PackageManager,
    pm_version: Option<String>,
) -> (res: CheckResult)
    ensures
        res@ == runtime_check(
            locale,
            crate::diagnostic::opt_view(node_version),
            pm,
            crate::diagnostic::opt_view(pm_version),
        ),
{
    proof {
        reveal(runtime_check);
    }
    let mut details: Vec<String> = Vec::new();
    let mut diagnostics: Vec<Diagnostic> = Vec::new();
    let mut status = DoctorCheckStatus::Passed;
    match &node_version {
        Some(v) => {
            details.push(
                msg2(locale, "doctor-runtime.detail.command-version", "command", "node", "version", v.as_str()),
            );
            let major = match parse_node_major(v.as_str()) {
                Some(m) => m,
                None => 0,
            };
            if major < 18 {
                status = DoctorCheckStatus::Error;
                diagnostics.push(
                    diag1(
                        locale,
                        DiagnosticCode::PATTO_DOCTOR_RUNTIME,
                        DiagnosticLevel::Error,
                        "doctor-runtime.node-version.message",
                        "version",
                        v.as_str(),
                    ),
                );
            }
        },
        None => {
            status = DoctorCheckStatus::Error;
            diagnostics.push(
                diag0(
                    locale,
                    DiagnosticCode::PATTO_DOCTOR_RUNTIME,
                    DiagnosticLevel::Error,
                    "doctor-runtime.node-missing.message",
                ),
            );
        },
    }
    proof {
        reveal_strlit("command");
        reveal_strlit("version");
    }
    let ghost d0 = texts(details@);
    let ghost g0 = diags_of(diagnostics@);
    match package_manager_command(pm) {
        Some(cmd) => match &pm_version {
            Some(v) => {
                let m = msg2(locale, "doctor-runtime.detail.command-version", "command", cmd, "version", v.as_str());
                details.push(m);
                assert(texts(details@) =~= d0.push(m@));
            },
            None => {
                status = DoctorCheckStatus::Error;
                let d = diag1(
                    locale,
                    DiagnosticCode::PATTO_DOCTOR_RUNTIME,
                    DiagnosticLevel::Error,
                    "doctor-runtime.package-manager-missing.message",
                    "command",
                    cmd,
                );
                diagnostics.push(d);
                assert(diags_of(diagnostics@) =~= g0.push(d@));
            },
        },
        None => {
            status = downgrade_to_warning(status);
            let t = text(locale, "doctor-runtime.detail.package-manager-unknown");
            details.push(t);
            assert(texts(details@) =~= d0.push(t@));
        },
    }
    check_result(locale, "runtime", "doctor-runtime.check.title", status, details, diagnostics)
}

/// The dependencies a Patto project needs.
pub open spec fn required_dependencies() -> Seq<Seq<char>> {
    seq!["discord.js"@, "dotenv"@, "reflect-metadata"@, "typescript"@]
}

/// The scripts a Patto project is expected to have.
pub open spec fn required_scripts() -> Seq<Seq<char>> {
    seq!["dev"@, "build"@, "start"@, "test"@, "lint"@]
}

/// A diagnostic for each of `names` that `have` lacks, with `level`, the
/// message `key` and the argument `arg`.
pub open spec fn lacking(
    locale: Lang,
    names: Seq<Seq<char>>,
    have: Seq<Seq<char>>,
    level: DiagnosticLevel,
    key: Seq<char>,
    arg: Seq<char>,
) -> Seq<DiagnosticView>
    decreases names.len(),
{
    if names.len() == 0 {
        Seq::empty()
    } else {
        let prev = lacking(locale, names.drop_last(), have, level, key, arg);
        if have.contains(names.last()) {
            prev
        } else {
            prev.push(doc_diag(locale, "doctor-package-json"@, level, key, seq![(arg, names.last())]))
        }
    }
}

/// What the package check finds: `package.json` must exist, name the
/// required dependencies (errors) and scripts (warnings).
#[verifier::opaque]
pub open spec fn package_check(locale: Lang, p: PackageIndex) -> CheckView {
    let title = "doctor-package-json.check.title"@;
    if !p.exists {
        check_view(
            locale,
            "package-json"@,
            title,
            DoctorCheckStatus::Error,
            Seq::empty(),
            seq![
                doc_diag(
                    locale,
                    "doctor-package-json"@,
                    DiagnosticLevel::Error,
                    "doctor-package-json.missing.message"@,
                    Seq::empty(),
                ),
            ],
        )
    } else {
        let deps = texts(p.dependencies@) + texts(p.dev_dependencies@);
        let dd = lacking(
            locale,
            required_dependencies(),
            deps,
            DiagnosticLevel::Error,
            "doctor-package-json.missing-dependency.message"@,
            "dependency"@,
        );
        let sd = lacking(
            locale,
            required_scripts(),
            texts(p.scripts@),
            DiagnosticLevel::Warning,
            "doctor-package-json.missing-script.message"@,
            "script"@,
        );
        let status = if dd.len() > 0 {
            DoctorCheckStatus::Error
        } else if sd.len() > 0 {
            DoctorCheckStatus::Warning
        } else {
            DoctorCheckStatus::Passed
        };
        let name = match crate::diagnostic::opt_view(p.name) {
            Some(n) => n,
            None => translation(locale, "common.unnamed"@),
        };
        let version = match crate::diagnostic::opt_view(p.version) {
            Some(v) => v,
            None => translation(locale, "common.unknown-version"@),
        };
        check_view(
            locale,
            "package-json"@,
            title,
            status,
            seq![
                message_text(
                    locale,
                    "doctor-package-json.detail.package"@,
                    seq![("name"@, name), ("version"@, version)],
                ),
                message_text(
                    locale,
                    "doctor-package-json.detail.scripts"@,
                    seq![("scripts"@, crate::utils::join(texts(p.scripts@), ", "@))],
                ),
            ],
            dd + sd,
        )
    }
}

fn holds_text(v: &Vec<String>, t: &str) -> (res: bool)
    ensures
        res == texts(v@).contains(t@),
{
    let mut i: usize = 0;
    while i < v.len()
        invariant
            i <= v@.len(),
            forall|j: int| 0 <= j < i ==> v@[j]@ != t@,
        decreases v@.len() - i,
    {
        if crate::text::str_eq(v[i].as_str(), t) {
            assert(texts(v@)[i as int] == t@);
            return true;
        }
        i = i + 1;
    }
    proof {
        if texts(v@).contains(t@) {
            let j = choose|j: int| 0 <= j < texts(v@).len() && texts(v@)[j] == t@;
            assert(v@[j]@ == t@);
        }
    }
    false
}

fn push_lacking(
    out: &mut Vec<Diagnostic>,
    locale: Lang,
    names: &[&str],
    have_a: &Vec<String>,
    have_b: &Vec<String>,
    level: DiagnosticLevel,
    key: &str,
    arg: &str,
)
    ensures
        diags_of(final(out)@) == diags_of(old(out)@) + lacking(
            locale,
            names@.map_values(|n: &str| n@),
            texts(have_a@) + texts(have_b@),
            level,
            key@,
            arg@,
        ),
{
    let ghost nv = names@.map_values(|n: &str| n@);
    let ghost have = texts(have_a@) + texts(have_b@);
    let ghost o0 = diags_of(out@);
    let mut i: usize = 0;
    assert(nv.take(0) =~= Seq::<Seq<char>>::empty());
    assert(diags_of(out@) =~= o0 + Seq::<DiagnosticView>::empty());
    while i < names.len()
        invariant
            i <= names@.len(),
            nv == names@.map_values(|n: &str| n@),
            have == texts(have_a@) + texts(have_b@),
            diags_of(out@) == o0 + lacking(locale, nv.take(i as int), have, level, key@, arg@),
        decreases names@.len() - i,
    {
        let name = names[i];
        proof {
            assert(nv.take(i + 1).drop_last() =~= nv.take(i as int));
            assert(nv.take(i + 1).last() == name@);
        }
        let present_a = holds_text(have_a, name);
        let present_b = holds_text(have_b, name);
        proof {
            if have.contains(name@) {
                let j = choose|j: int| 0 <= j < have.len() && have[j] == name@;
                if j < texts(have_a@).len() {
                    assert(texts(have_a@)[j] == name@);
                } else {
                    assert(texts(have_b@)[j - texts(have_a@).len()] == name@);
                }
            }
            if present_a {
                let j = choose|j: int| 0 <= j < texts(have_a@).len() && texts(have_a@)[j] == name@;
                assert(have[j] == name@);
            }
            if present_b {
                let j = choose|j: int| 0 <= j < texts(have_b@).len() && texts(have_b@)[j] == name@;
                assert(have[texts(have_a@).len() + j] == name@);
            }
        }
        if !present_a && !present_b {
            let d = diag1(locale, DiagnosticCode::PATTO_DOCTOR_PACKAGE_JSON, level, key, arg, name);
            let ghost before = diags_of(out@);
            out.push(d);
            assert(diags_of(out@) =~= before.push(d@));
        }
        i = i + 1;
    }
    assert(nv.take(nv.len() as int) =~= nv);
}

/// Checks `package.json`.
pub fn check_package_json(locale: Lang, package: &PackageIndex) -> (res: CheckResult)
    ensures
        res@ == package_check(locale, *package),
{
    proof {
        reveal(package_check);
    }
    let mut diagnostics: Vec<Diagnostic> = Vec::new();
    let mut details: Vec<String> = Vec::new();
    if !package.exists {
        diagnostics.push(
            diag0(
                locale,
                DiagnosticCode::PATTO_DOCTOR_PACKAGE_JSON,
                DiagnosticLevel::Error,
                "doctor-package-json.missing.message",
            ),
        );
        assert(texts(details@) =~= Seq::<Seq<char>>::empty());
        assert(diags_of(diagnostics@) =~= seq![diagnostics@[0]@]);
        return check_result(
            locale,
            "package-json",
            "doctor-package-json.check.title",
            DoctorCheckStatus::Error,
            details,
            diagnostics,
        );
    }
    let unknown_name = text(locale, "common.unnamed");
    let unknown_version = text(locale, "common.unknown-version");
    let name = match &package.name {
        Some(n) => n.as_str(),
        None => unknown_name.as_str(),
    };
    let version = match &package.version {
        Some(v) => v.as_str(),
        None => unknown_version.as_str(),
    };
    let pm = msg2(locale, "doctor-package-json.detail.package", "name", name, "version", version);
    details.push(pm);
    assert(texts(details@) =~= seq![pm@]);
    assert(diags_of(diagnostics@) =~= Seq::<DiagnosticView>::empty());
    let deps = ["discord.js", "dotenv", "reflect-metadata", "typescript"];
    let scripts_needed = ["dev", "build", "start", "test", "lint"];
    proof {
        reveal_strlit("discord.js");
        reveal_strlit("dotenv");
        reveal_strlit("reflect-metadata");
        reveal_strlit("typescript");
        assert(deps@.map_values(|n: &str| n@) =~= required_dependencies());
        assert(scripts_needed@.map_values(|n: &str| n@) =~= required_scripts());
    }
    push_lacking(
        &mut diagnostics,
        locale,
        &deps,
        &package.dependencies,
        &package.dev_dependencies,
        DiagnosticLevel::Error,
        "doctor-package-json.missing-dependency.message",
        "dependency",
    );
    let dependency_count = diagnostics.len();
    let ghost dd = diags_of(diagnostics@);
    assert(dd =~= Seq::<DiagnosticView>::empty() + dd);
    let none: Vec<String> = Vec::new();
    assert(texts(package.scripts@) + texts(none@) =~= texts(package.scripts@));
    push_lacking(
        &mut diagnostics,
        locale,
        &scripts_needed,
        &package.scripts,
        &none,
        DiagnosticLevel::Warning,
        "doctor-package-json.missing-script.message",
        "script",
    );
    let status = if dependency_count > 0 {
        DoctorCheckStatus::Error
    } else if diagnostics.len() > 0 {
        DoctorCheckStatus::Warning
    } else {
        DoctorCheckStatus::Passed
    };
    let joined = crate::utils::join_texts(&package.scripts, ", ");
    let ghost d1 = texts(details@);
    let m = msg1(locale, "doctor-package-json.detail.scripts", "scripts", joined.as_str());
    details.push(m);
    assert(texts(details@) =~= d1.push(m@));
    check_result(
        locale,
        "package-json",
        "doctor-package-json.check.title",
        status,
        details,
        diagnostics,
    )
}

/// What the build-output check finds: the `main` file of `package.json`
/// should exist (skipped where there is no `main`).
#[verifier::opaque]
pub open spec fn build_output_check(locale: Lang, main: Option<Seq<char>>, main_is_file: bool) -> CheckView {
    let title = "doctor-build-output.check.title"@;
    match main {
        None => check_view(
            locale,
            "build-output"@,
            title,
            DoctorCheckStatus::Skipped,
            seq![translation(locale, "doctor-build-output.detail.main-missing"@)],
            Seq::empty(),
        ),
        Some(m) => {
            let details = seq![
                message_text(locale, "doctor-build-output.detail.main"@, seq![("main"@, m)]),
            ];
            if main_is_file {
                check_view(locale, "build-output"@, title, DoctorCheckStatus::Passed, details, Seq::empty())
            } else {
                check_view(
                    locale,
                    "build-output"@,
                    title,
                    DoctorCheckStatus::Warning,
                    details,
                    seq![
                        doc_diag(
                            locale,
                            "doctor-build-output"@,
                            DiagnosticLevel::Info,
                            "doctor-build-output.missing.message"@,
                            seq![("main"@, m)],
                        ),
                    ],
                )
            }
        },
    }
}

/// Checks the build output, given whether the `main` file exists.
pub fn check_build_output(locale: Lang, main: &Option<String>, main_is_file: bool) -> (res: CheckResult)
    ensures
        res@ == build_output_check(locale, crate::diagnostic::opt_view(*main), main_is_file),
{
    proof {
        reveal(build_output_check);
    }
    let mut details: Vec<String> = Vec::new();
    let mut diagnostics: Vec<Diagnostic> = Vec::new();
    assert(diags_of(diagnostics@) =~= Seq::<DiagnosticView>::empty());
    match main {
        None => {
            details.push(text(locale, "doctor-build-output.detail.main-missing"));
            assert(texts(details@) =~= seq![translation(locale, "doctor-build-output.detail.main-missing"@)]);
            check_result(
                locale,
                "build-output",
                "doctor-build-output.check.title",
                DoctorCheckStatus::Skipped,
                details,
                diagnostics,
            )
        },
        Some(m) => {
            let dm = msg1(locale, "doctor-build-output.detail.main", "main", m.as_str());
            details.push(dm);
            assert(texts(details@) =~= seq![dm@]);
            if main_is_file {
                return check_result(
                    locale,
                    "build-output",
                    "doctor-build-output.check.title",
                    DoctorCheckStatus::Passed,
                    details,
                    diagnostics,
                );
            }
            diagnostics.push(
                diag1(
                    locale,
                    DiagnosticCode::PATTO_DOCTOR_BUILD_OUTPUT,
                    DiagnosticLevel::Info,
                    "doctor-build-output.missing.message",
                    "main",
                    m.as_str(),
                ),
            );
            assert(diags_of(diagnostics@) =~= seq![diagnostics@[0]@]);
            check_result(
                locale,
                "build-output",
                "doctor-build-output.check.title",
                DoctorCheckStatus::Warning,
                details,
                diagnostics,
            )
        },
    }
}


/// `key` is missing from the `.env` entries or only white space.
pub open spec fn env_blank(env: Seq<(Seq<char>, Seq<char>)>, key: Seq<char>) -> bool {
    match env_value(env, key) {
        Some(v) => trim(v).len() == 0,
        None => true,
    }
}

/// `key` is `true` in the `.env` entries, with no regard to ASCII case.
pub open spec fn env_true(env: Seq<(Seq<char>, Seq<char>)>, key: Seq<char>) -> bool {
    match env_value(env, key) {
        Some(v) => ascii_lower(v) == "true"@,
        None => false,
    }
}

pub open spec fn env_diag(locale: Lang, key: Seq<char>, args: Seq<(Seq<char>, Seq<char>)>) -> DiagnosticView {
    doc_diag(locale, "doctor-env"@, DiagnosticLevel::Warning, key, args)
}

/// The warnings for the required `.env` names that are blank.
pub open spec fn env_required_diags(locale: Lang, env: Seq<(Seq<char>, Seq<char>)>) -> Seq<
    DiagnosticView,
> {
    (if env_blank(env, "BOT_TOKEN"@) {
        seq![env_diag(locale, "doctor-env.required-missing.message"@, seq![("name"@, "BOT_TOKEN"@)])]
    } else {
        Seq::empty()
    }) + (if env_blank(env, "CLIENT_ID"@) {
        seq![env_diag(locale, "doctor-env.required-missing.message"@, seq![("name"@, "CLIENT_ID"@)])]
    } else {
        Seq::empty()
    })
}

/// What the `.env` check finds: a `.env.template` and a `.env` should
/// exist, and the `.env` should set `BOT_TOKEN` and `CLIENT_ID`.
#[verifier::opaque]
pub open spec fn env_check(
    locale: Lang,
    has_env: bool,
    has_template: bool,
    env: Seq<(Seq<char>, Seq<char>)>,
) -> CheckView {
    let d1 = if has_template {
        seq![translation(locale, "doctor-env.detail.template-present"@)]
    } else {
        Seq::empty()
    };
    let g1 = if has_template {
        Seq::empty()
    } else {
        seq![env_diag(locale, "doctor-env.template-missing.message"@, Seq::empty())]
    };
    let title = "doctor-env.check.title"@;
    if !has_env {
        check_view(
            locale,
            "env"@,
            title,
            DoctorCheckStatus::Warning,
            d1,
            g1.push(env_diag(locale, "doctor-env.env-missing.message"@, Seq::empty())),
        )
    } else {
        let d2 = d1.push(translation(locale, "doctor-env.detail.env-present"@));
        let g2 = g1 + env_required_diags(locale, env);
        let d3 = if env_true(env, "USE_MESSAGE_CONTENT"@) {
            d2.push(translation(locale, "doctor-env.detail.message-content"@))
        } else {
            d2
        };
        let status = if g2.len() > 0 {
            DoctorCheckStatus::Warning
        } else {
            DoctorCheckStatus::Passed
        };
        check_view(locale, "env"@, title, status, d3, g2)
    }
}

/// Law: where `.env` exists but leaves a required name (`BOT_TOKEN` or
/// `CLIENT_ID`) out or sets it to white space, the `.env` check warns, with a
/// `doctor-env` warning whose message names it.
pub proof fn law_env_required_name_missing(
    locale: Lang,
    has_template: bool,
    env: Seq<(Seq<char>, Seq<char>)>,
    key: Seq<char>,
)
    requires
        key == "BOT_TOKEN"@ || key == "CLIENT_ID"@,
        match env_value(env, key) {
            Some(v) => trim(v).len() == 0,
            None => true,
        },
    ensures
        env_check(locale, true, has_template, env).status == DoctorCheckStatus::Warning,
        exists|i: int|
            0 <= i < env_check(locale, true, has_template, env).diagnostics.len()
                && #[trigger] env_check(locale, true, has_template, env).diagnostics[i] == (DiagnosticView {
                level: DiagnosticLevel::Warning,
                code: "doctor-env"@,
                message: message_text(locale, "doctor-env.required-missing.message"@, seq![("name"@, key)]),
                file: None,
                line: None,
                column: None,
                hint: Some(translation(locale, "doctor-env"@ + ".hint"@)),
            }),
{
    reveal(env_check);
    let c = env_check(locale, true, has_template, env);
    let g1: Seq<DiagnosticView> = if has_template {
        Seq::empty()
    } else {
        seq![env_diag(locale, "doctor-env.template-missing.message"@, Seq::empty())]
    };
    let r = env_required_diags(locale, env);
    assert(c.diagnostics == g1 + r);
    if key == "BOT_TOKEN"@ {
        assert(r[0] == env_diag(locale, "doctor-env.required-missing.message"@, seq![("name"@, key)]));
        assert(c.diagnostics[g1.len() as int] == r[0]);
    } else {
        let k: int = if env_blank(env, "BOT_TOKEN"@) { 1 } else { 0 };
        assert(r[k] == env_diag(locale, "doctor-env.required-missing.message"@, seq![("name"@, key)]));
        assert(c.diagnostics[g1.len() + k] == r[k]);
    }
}

/// Law: a missing `.env` or `.env.template` makes the `.env` check warn,
/// with a `doctor-env` warning that says which file is missing.
pub proof fn law_env_files_missing(
    locale: Lang,
    has_env: bool,
    has_template: bool,
    env: Seq<(Seq<char>, Seq<char>)>,
)
    ensures
        !has_env || !has_template ==> env_check(locale, has_env, has_template, env).status
            == DoctorCheckStatus::Warning,
        !has_env ==> exists|i: int|
            0 <= i < env_check(locale, has_env, has_template, env).diagnostics.len()
                && #[trigger] env_check(locale, has_env, has_template, env).diagnostics[i].message
                == message_text(locale, "doctor-env.env-missing.message"@, Seq::empty())
                && env_check(locale, has_env, has_template, env).diagnostics[i].level == DiagnosticLevel::Warning,
        !has_template ==> env_check(locale, has_env, has_template, env).diagnostics.len() > 0
            && env_check(locale, has_env, has_template, env).diagnostics[0].message == message_text(
            locale,
            "doctor-env.template-missing.message"@,
            Seq::empty(),
        ) && env_check(locale, has_env, has_template, env).diagnostics[0].level == DiagnosticLevel::Warning,
{
    reveal(env_check);
    let c = env_check(locale, has_env, has_template, env);
    if !has_env {
        let k = c.diagnostics.len() - 1;
        assert(c.diagnostics[k].message == message_text(locale, "doctor-env.env-missing.message"@, Seq::empty()));
    }
}

/// Law: where `.env` and `.env.template` exist and `.env` sets both
/// `BOT_TOKEN` and `CLIENT_ID` to more than white space, the `.env` check
/// passes with no diagnostic.
pub proof fn law_env_complete_passes(locale: Lang, env: Seq<(Seq<char>, Seq<char>)>)
    requires
        (env_value(env, "BOT_TOKEN"@) matches Some(v) && trim(v).len() > 0),
        (env_value(env, "CLIENT_ID"@) matches Some(v) && trim(v).len() > 0),
    ensures
        env_check(locale, true, true, env).status == DoctorCheckStatus::Passed,
        env_check(locale, true, true, env).diagnostics.len() == 0,
{
    reveal(env_check);
    assert(env_required_diags(locale, env) =~= Seq::<DiagnosticView>::empty());
    assert(Seq::<DiagnosticView>::empty() + env_required_diags(locale, env) =~= Seq::<DiagnosticView>::empty());
}

fn env_is_blank(env: &EnvFile, key: &str) -> (res: bool)
    ensures
        res == env_blank(env@, key@),
{
    match env.get(key) {
        Some(v) => crate::utils::is_blank(v.as_str()),
        None => true,
    }
}

/// Whether `key` is `true` in `env`, with no regard to ASCII case.
pub fn env_is_true(env: &EnvFile, key: &str) -> (res: bool)
    ensures
        res == env_true(env@, key@),
{
    match env.get(key) {
        Some(v) => crate::utils::is_true_text(v.as_str()),
        None => false,
    }
}

/// Checks the `.env` file, given whether `.env` and `.env.template` exist
/// and the values of `.env`.
pub fn check_env(locale: Lang, has_env: bool, has_template: bool, env: &EnvFile) -> (res: CheckResult)
    ensures
        res@ == env_check(locale, has_env, has_template, env@),
{
    proof {
        reveal(env_check);
    }
    let mut details: Vec<String> = Vec::new();
    let mut diagnostics: Vec<Diagnostic> = Vec::new();
    if has_template {
        let t = text(locale, "doctor-env.detail.template-present");
        details.push(t);
        assert(texts(details@) =~= seq![t@]);
        assert(diags_of(diagnostics@) =~= Seq::<DiagnosticView>::empty());
    } else {
        let d = diag0(locale, DiagnosticCode::PATTO_DOCTOR_ENV, DiagnosticLevel::Warning, "doctor-env.template-missing.message");
        diagnostics.push(d);
        assert(texts(details@) =~= Seq::<Seq<char>>::empty());
        assert(diags_of(diagnostics@) =~= seq![d@]);
    }
    let ghost d1 = texts(details@);
    let ghost g1 = diags_of(diagnostics@);
    if !has_env {
        let d = diag0(locale, DiagnosticCode::PATTO_DOCTOR_ENV, DiagnosticLevel::Warning, "doctor-env.env-missing.message");
        diagnostics.push(d);
        assert(diags_of(diagnostics@) =~= g1.push(d@));
        return check_result(locale, "env", "doctor-env.check.title", DoctorCheckStatus::Warning, details, diagnostics);
    }
    let t = text(locale, "doctor-env.detail.env-present");
    details.push(t);
    assert(texts(details@) =~= d1.push(t@));
    let ghost d2 = texts(details@);
    proof {
        reveal_strlit("name");
        reveal_strlit("BOT_TOKEN");
        reveal_strlit("CLIENT_ID");
    }
    if env_is_blank(env, "BOT_TOKEN") {
        let d = diag1(locale, DiagnosticCode::PATTO_DOCTOR_ENV, DiagnosticLevel::Warning, "doctor-env.required-missing.message", "name", "BOT_TOKEN");
        let ghost before = diags_of(diagnostics@);
        diagnostics.push(d);
        assert(diags_of(diagnostics@) =~= before.push(d@));
    }
    let ghost gb = diags_of(diagnostics@);
    if env_is_blank(env, "CLIENT_ID") {
        let d = diag1(locale, DiagnosticCode::PATTO_DOCTOR_ENV, DiagnosticLevel::Warning, "doctor-env.required-missing.message", "name", "CLIENT_ID");
        let ghost before = diags_of(diagnostics@);
        diagnostics.push(d);
        assert(diags_of(diagnostics@) =~= before.push(d@));
    }
    assert(diags_of(diagnostics@) =~= g1 + env_required_diags(locale, env@));
    if env_is_true(env, "USE_MESSAGE_CONTENT") {
        let m = text(locale, "doctor-env.detail.message-content");
        details.push(m);
        assert(texts(details@) =~= d2.push(m@));
    }
    let status = if diagnostics.len() > 0 {
        DoctorCheckStatus::Warning
    } else {
        DoctorCheckStatus::Passed
    };
    check_result(locale, "env", "doctor-env.check.title", status, details, diagnostics)
}

pub open spec fn ts_diag(locale: Lang, key: Seq<char>, args: Seq<(Seq<char>, Seq<char>)>) -> DiagnosticView {
    doc_diag(locale, "doctor-tsconfig"@, DiagnosticLevel::Error, key, args)
}

/// What the `tsconfig.json` check finds: the file must parse, enable
/// `experimentalDecorators` and `emitDecoratorMetadata`, and map `@/*`.
#[verifier::opaque]
pub open spec fn tsconfig_check(locale: Lang, doc: Option<JsonValue>) -> CheckView {
    let title = "doctor-tsconfig.check.title"@;
    match doc {
        None => check_view(
            locale,
            "tsconfig"@,
            title,
            DoctorCheckStatus::Error,
            Seq::empty(),
            seq![ts_diag(locale, "doctor-tsconfig.missing.message"@, Seq::empty())],
        ),
        Some(d) => {
            let compiler = json_member(Some(d), "compilerOptions"@);
            let g = (if json_bool(json_member(compiler, "experimentalDecorators"@)) != Some(true) {
                seq![
                    ts_diag(
                        locale,
                        "doctor-tsconfig.option-required.message"@,
                        seq![("key"@, "experimentalDecorators"@)],
                    ),
                ]
            } else {
                Seq::empty()
            }) + (if json_bool(json_member(compiler, "emitDecoratorMetadata"@)) != Some(true) {
                seq![
                    ts_diag(
                        locale,
                        "doctor-tsconfig.option-required.message"@,
                        seq![("key"@, "emitDecoratorMetadata"@)],
                    ),
                ]
            } else {
                Seq::empty()
            }) + (if json_member(json_member(compiler, "paths"@), "@/*"@) is None {
                seq![ts_diag(locale, "doctor-tsconfig.alias-missing.message"@, Seq::empty())]
            } else {
                Seq::empty()
            });
            check_view(
                locale,
                "tsconfig"@,
                title,
                if g.len() > 0 {
                    DoctorCheckStatus::Error
                } else {
                    DoctorCheckStatus::Passed
                },
                seq![translation(locale, "doctor-tsconfig.detail.read"@)],
                g,
            )
        },
    }
}

/// Checks the parsed `tsconfig.json` (`None` where it is missing or
/// invalid).
pub fn check_tsconfig(locale: Lang, doc: Option<&JsonValue>) -> (res: CheckResult)
    ensures
        res@ == tsconfig_check(locale, deref_opt(doc)),
{
    proof {
        reveal(tsconfig_check);
    }
    let mut details: Vec<String> = Vec::new();
    let mut diagnostics: Vec<Diagnostic> = Vec::new();
    let d = match doc {
        None => {
            let g = diag0(locale, DiagnosticCode::PATTO_DOCTOR_TSCONFIG, DiagnosticLevel::Error, "doctor-tsconfig.missing.message");
            diagnostics.push(g);
            assert(texts(details@) =~= Seq::<Seq<char>>::empty());
            assert(diags_of(diagnostics@) =~= seq![g@]);
            return check_result(locale, "tsconfig", "doctor-tsconfig.check.title", DoctorCheckStatus::Error, details, diagnostics);
        },
        Some(d) => d,
    };
    let compiler = member(Some(d), "compilerOptions");
    assert(diags_of(diagnostics@) =~= Seq::<DiagnosticView>::empty());
    proof {
        reveal_strlit("key");
        reveal_strlit("experimentalDecorators");
        reveal_strlit("emitDecoratorMetadata");
    }
    if bool_value(member(compiler, "experimentalDecorators")) != Some(true) {
        let g = diag1(locale, DiagnosticCode::PATTO_DOCTOR_TSCONFIG, DiagnosticLevel::Error, "doctor-tsconfig.option-required.message", "key", "experimentalDecorators");
        let ghost before = diags_of(diagnostics@);
        diagnostics.push(g);
        assert(diags_of(diagnostics@) =~= before.push(g@));
    }
    if bool_value(member(compiler, "emitDecoratorMetadata")) != Some(true) {
        let g = diag1(locale, DiagnosticCode::PATTO_DOCTOR_TSCONFIG, DiagnosticLevel::Error, "doctor-tsconfig.option-required.message", "key", "emitDecoratorMetadata");
        let ghost before = diags_of(diagnostics@);
        diagnostics.push(g);
        assert(diags_of(diagnostics@) =~= before.push(g@));
    }
    if member(member(compiler, "paths"), "@/*").is_none() {
        let g = diag0(locale, DiagnosticCode::PATTO_DOCTOR_TSCONFIG, DiagnosticLevel::Error, "doctor-tsconfig.alias-missing.message");
        let ghost before = diags_of(diagnostics@);
        diagnostics.push(g);
        assert(diags_of(diagnostics@) =~= before.push(g@));
    }
    let t = text(locale, "doctor-tsconfig.detail.read");
    details.push(t);
    assert(texts(details@) =~= seq![t@]);
    let status = if diagnostics.len() > 0 {
        DoctorCheckStatus::Error
    } else {
        DoctorCheckStatus::Passed
    };
    check_result(locale, "tsconfig", "doctor-tsconfig.check.title", status, details, diagnostics)
}

pub open spec fn config_diag(locale: Lang, key: Seq<char>, args: Seq<(Seq<char>, Seq<char>)>) -> DiagnosticView {
    doc_diag(locale, "doctor-project-config"@, DiagnosticLevel::Warning, key, args)
}

/// What the project configuration check finds: the configuration should
/// exist, parse and ask for a supported language.
#[verifier::opaque]
pub open spec fn project_config_check(locale: Lang, config: ProjectConfigIndex, parsed: bool) -> CheckView {
    let path = seq![("path"@, ".patto/config.json"@)];
    let lang = seq![("lang"@, config.lang@)];
    let (details, g) = if !config.exists {
        (Seq::empty(), seq![config_diag(locale, "doctor-project-config.missing.message"@, path)])
    } else if !parsed {
        (Seq::empty(), seq![config_diag(locale, "doctor-project-config.invalid-json.message"@, path)])
    } else {
        (seq![message_text(locale, "doctor-project-config.detail.lang"@, lang)], Seq::empty())
    };
    let g2 = if !config.supported_lang {
        g.push(config_diag(locale, "doctor-project-config.unsupported-lang.message"@, lang))
    } else {
        g
    };
    check_view(
        locale,
        "project-config"@,
        "doctor-project-config.check.title"@,
        if g2.len() > 0 {
            DoctorCheckStatus::Warning
        } else {
            DoctorCheckStatus::Passed
        },
        details,
        g2,
    )
}

/// Checks the project configuration, given whether it parsed.
pub fn check_project_config(locale: Lang, config: &ProjectConfigIndex, parsed: bool) -> (res: CheckResult)
    ensures
        res@ == project_config_check(locale, *config, parsed),
{
    proof {
        reveal(project_config_check);
    }
    let mut details: Vec<String> = Vec::new();
    let mut diagnostics: Vec<Diagnostic> = Vec::new();
    proof {
        reveal_strlit("path");
        reveal_strlit(".patto/config.json");
        reveal_strlit("lang");
    }
    if !config.exists {
        let g = diag1(locale, DiagnosticCode::PATTO_DOCTOR_PROJECT_CONFIG, DiagnosticLevel::Warning, "doctor-project-config.missing.message", "path", ".patto/config.json");
        diagnostics.push(g);
        assert(diags_of(diagnostics@) =~= seq![g@]);
        assert(texts(details@) =~= Seq::<Seq<char>>::empty());
    } else if !parsed {
        let g = diag1(locale, DiagnosticCode::PATTO_DOCTOR_PROJECT_CONFIG, DiagnosticLevel::Warning, "doctor-project-config.invalid-json.message", "path", ".patto/config.json");
        diagnostics.push(g);
        assert(diags_of(diagnostics@) =~= seq![g@]);
        assert(texts(details@) =~= Seq::<Seq<char>>::empty());
    } else {
        let m = msg1(locale, "doctor-project-config.detail.lang", "lang", config.lang.as_str());
        details.push(m);
        assert(texts(details@) =~= seq![m@]);
        assert(diags_of(diagnostics@) =~= Seq::<DiagnosticView>::empty());
    }
    if !config.supported_lang {
        let g = diag1(locale, DiagnosticCode::PATTO_DOCTOR_PROJECT_CONFIG, DiagnosticLevel::Warning, "doctor-project-config.unsupported-lang.message", "lang", config.lang.as_str());
        let ghost before = diags_of(diagnostics@);
        diagnostics.push(g);
        assert(diags_of(diagnostics@) =~= before.push(g@));
    }
    let status = if diagnostics.len() > 0 {
        DoctorCheckStatus::Warning
    } else {
        DoctorCheckStatus::Passed
    };
    check_result(locale, "project-config", "doctor-project-config.check.title", status, details, diagnostics)
}


/// The files an i18n-enabled project needs.
pub open spec fn required_i18n_files() -> Seq<Seq<char>> {
    seq![
        "src/i18n/index.ts"@,
        "src/i18n/translator.ts"@,
        "src/i18n/types.ts"@,
        "src/i18n/registry.ts"@,
        "src/i18n/locale.resolver.ts"@,
        "src/i18n/store/locale.store.ts"@,
        "src/i18n/locale/es.ts"@,
        "src/i18n/locale/en.ts"@,
        "src/i18n/locale/pt.ts"@,
        "src/core/structures/BaseCommand.ts"@,
    ]
}

/// The files an i18n-enabled project needs, in the order they are checked.
pub fn i18n_required_files() -> (res: [&'static str; 10])
    ensures
        res@.map_values(|f: &str| f@) == required_i18n_files(),
{
    let res = [
        "src/i18n/index.ts",
        "src/i18n/translator.ts",
        "src/i18n/types.ts",
        "src/i18n/registry.ts",
        "src/i18n/locale.resolver.ts",
        "src/i18n/store/locale.store.ts",
        "src/i18n/locale/es.ts",
        "src/i18n/locale/en.ts",
        "src/i18n/locale/pt.ts",
        "src/core/structures/BaseCommand.ts",
    ];
    assert(res@.map_values(|f: &str| f@) =~= required_i18n_files());
    res
}

/// Whether entry `j` of `present` is set (an entry past the end is not).
pub open spec fn flag(present: Seq<bool>, j: int) -> bool {
    0 <= j < present.len() && present[j]
}

/// A diagnostic placed where the configuration mentions `i18n`, or at its
/// start.
pub open spec fn at_config(d: DiagnosticView, location: Option<(u32, u32)>) -> DiagnosticView {
    match location {
        Some((l, c)) => located(d, ".patto/config.json"@, l, c),
        None => located(d, ".patto/config.json"@, 1, 1),
    }
}

pub open spec fn i18n_diag(locale: Lang, key: Seq<char>, args: Seq<(Seq<char>, Seq<char>)>, location: Option<(u32, u32)>) -> DiagnosticView {
    at_config(doc_diag(locale, "doctor-i18n"@, DiagnosticLevel::Warning, key, args), location)
}

/// The details and diagnostics for the first `names` of the required files.
pub open spec fn i18n_file_parts(
    locale: Lang,
    names: Seq<Seq<char>>,
    present: Seq<bool>,
    location: Option<(u32, u32)>,
) -> (Seq<Seq<char>>, Seq<DiagnosticView>)
    decreases names.len(),
{
    if names.len() == 0 {
        (Seq::empty(), Seq::empty())
    } else {
        let prev = i18n_file_parts(locale, names.drop_last(), present, location);
        let f = names.last();
        let args = seq![("file"@, f)];
        if flag(present, names.len() - 1) {
            (prev.0.push(message_text(locale, "doctor-i18n.detail.file-present"@, args)), prev.1)
        } else {
            (
                prev.0.push(message_text(locale, "doctor-i18n.detail.file-missing"@, args)),
                prev.1.push(i18n_diag(locale, "doctor-i18n.missing-file.message"@, args, location)),
            )
        }
    }
}

/// The base command lacks the translator helper.
pub open spec fn lacks_helper(base: Option<Seq<char>>) -> bool {
    match base {
        Some(c) => !contains(c, "get t"@) || !contains(c, "i18n.for"@),
        None => false,
    }
}

/// What the i18n check finds, where the feature is on: the required files
/// should exist and the base command should have the translator helper.
#[verifier::opaque]
pub open spec fn i18n_check(
    locale: Lang,
    enabled: bool,
    present: Seq<bool>,
    base: Option<Seq<char>>,
    location: Option<(u32, u32)>,
) -> CheckView {
    let title = "doctor-i18n.check.title"@;
    if !enabled {
        check_view(
            locale,
            "i18n"@,
            title,
            DoctorCheckStatus::Skipped,
            seq![translation(locale, "doctor-i18n.detail.disabled"@)],
            Seq::empty(),
        )
    } else {
        let parts = i18n_file_parts(locale, required_i18n_files(), present, location);
        let g = if lacks_helper(base) {
            parts.1.push(i18n_diag(locale, "doctor-i18n.base-command-helper.message"@, Seq::empty(), location))
        } else {
            parts.1
        };
        check_view(
            locale,
            "i18n"@,
            title,
            if g.len() > 0 {
                DoctorCheckStatus::Warning
            } else {
                DoctorCheckStatus::Passed
            },
            parts.0,
            g,
        )
    }
}

fn place_at_config(d: Diagnostic, location: Option<(u32, u32)>) -> (res: Diagnostic)
    ensures
        res@ == at_config(d@, location),
{
    match location {
        Some((l, c)) => d.with_location(".patto/config.json", l, c),
        None => d.with_location(".patto/config.json", 1, 1),
    }
}

/// Checks the i18n setup: whether the feature is on, which required files
/// exist (one flag per file, in order), the base command's text and where
/// the configuration mentions `i18n`.
pub fn check_i18n(
    locale: Lang,
    enabled: bool,
    present: &Vec<bool>,
    base: &Option<String>,
    location: Option<(u32, u32)>,
) -> (res: CheckResult)
    ensures
        res@ == i18n_check(locale, enabled, present@, crate::diagnostic::opt_view(*base), location),
{
    proof {
        reveal(i18n_check);
    }
    let mut details: Vec<String> = Vec::new();
    let mut diagnostics: Vec<Diagnostic> = Vec::new();
    if !enabled {
        let t = text(locale, "doctor-i18n.detail.disabled");
        details.push(t);
        assert(texts(details@) =~= seq![t@]);
        assert(diags_of(diagnostics@) =~= Seq::<DiagnosticView>::empty());
        return check_result(locale, "i18n", "doctor-i18n.check.title", DoctorCheckStatus::Skipped, details, diagnostics);
    }
    let files = i18n_required_files();
    let ghost names = files@.map_values(|f: &str| f@);
    let mut j: usize = 0;
    assert(names.take(0) =~= Seq::<Seq<char>>::empty());
    assert(texts(details@) =~= Seq::<Seq<char>>::empty());
    assert(diags_of(diagnostics@) =~= Seq::<DiagnosticView>::empty());
    proof {
        reveal_strlit("file");
    }
    while j < 10
        invariant
            j <= 10,
            names == files@.map_values(|f: &str| f@),
            names.len() == 10,
            (texts(details@), diags_of(diagnostics@)) == i18n_file_parts(locale, names.take(j as int), present@, location),
        decreases 10 - j,
    {
        let f = files[j];
        proof {
            assert(names.take(j + 1).drop_last() =~= names.take(j as int));
            assert(names.take(j + 1).last() == f@);
        }
        let ghost d0 = texts(details@);
        let ghost g0 = diags_of(diagnostics@);
        let here = j < present.len() && present[j];
        if here {
            let m = msg1(locale, "doctor-i18n.detail.file-present", "file", f);
            details.push(m);
            assert(texts(details@) =~= d0.push(m@));
            assert(diags_of(diagnostics@) =~= g0);
        } else {
            let m = msg1(locale, "doctor-i18n.detail.file-missing", "file", f);
            details.push(m);
            assert(texts(details@) =~= d0.push(m@));
            let d = place_at_config(
                diag1(locale, DiagnosticCode::PATTO_DOCTOR_I18N, DiagnosticLevel::Warning, "doctor-i18n.missing-file.message", "file", f),
                location,
            );
            diagnostics.push(d);
            assert(diags_of(diagnostics@) =~= g0.push(d@));
        }
        j = j + 1;
    }
    assert(names.take(10) =~= required_i18n_files());
    let helper_missing = match base {
        Some(c) => {
            let cc = chars_of(c.as_str());
            !crate::text::contains_str(&cc, "get t") || !crate::text::contains_str(&cc, "i18n.for")
        },
        None => false,
    };
    if helper_missing {
        let d = place_at_config(
            diag0(locale, DiagnosticCode::PATTO_DOCTOR_I18N, DiagnosticLevel::Warning, "doctor-i18n.base-command-helper.message"),
            location,
        );
        let ghost before = diags_of(diagnostics@);
        diagnostics.push(d);
        assert(diags_of(diagnostics@) =~= before.push(d@));
    }
    let status = if diagnostics.len() > 0 {
        DoctorCheckStatus::Warning
    } else {
        DoctorCheckStatus::Passed
    };
    check_result(locale, "i18n", "doctor-i18n.check.title", status, details, diagnostics)
}

/// The stores a sharded project needs.
pub open spec fn sharding_store_files() -> Seq<Seq<char>> {
    seq![
        "src/core/store/redis.cooldown.store.ts"@,
        "src/core/store/redis.payload.store.ts"@,
        "src/core/store/store.registry.ts"@,
    ]
}

/// The stores a sharded project needs, in the order they are checked.
pub fn sharding_required_files() -> (res: [&'static str; 3])
    ensures
        res@.map_values(|f: &str| f@) == sharding_store_files(),
{
    let res = [
        "src/core/store/redis.cooldown.store.ts",
        "src/core/store/redis.payload.store.ts",
        "src/core/store/store.registry.ts",
    ];
    assert(res@.map_values(|f: &str| f@) =~= sharding_store_files());
    res
}

pub open spec fn redis_diag(locale: Lang, key: Seq<char>, args: Seq<(Seq<char>, Seq<char>)>) -> DiagnosticView {
    doc_diag(locale, "doctor-sharding-redis"@, DiagnosticLevel::Error, key, args)
}

/// The details and diagnostics for the first `names` of the stores.
pub open spec fn store_parts(locale: Lang, names: Seq<Seq<char>>, present: Seq<bool>) -> (
    Seq<Seq<char>>,
    Seq<DiagnosticView>,
)
    decreases names.len(),
{
    if names.len() == 0 {
        (Seq::empty(), Seq::empty())
    } else {
        let prev = store_parts(locale, names.drop_last(), present);
        let args = seq![("file"@, names.last())];
        if flag(present, names.len() - 1) {
            (prev.0.push(message_text(locale, "doctor-sharding-redis.detail.store-present"@, args)), prev.1)
        } else {
            (prev.0, prev.1.push(redis_diag(locale, "doctor-sharding-redis.missing-store.message"@, args)))
        }
    }
}

/// What the sharding check finds, where `SHARDING_ENABLED` is `true`:
/// `REDIS_URL` should be set and the Redis stores should exist.
#[verifier::opaque]
pub open spec fn sharding_check(locale: Lang, env: Seq<(Seq<char>, Seq<char>)>, present: Seq<bool>) -> CheckView {
    let title = "doctor-sharding-redis.check.title"@;
    if !env_true(env, "SHARDING_ENABLED"@) {
        check_view(
            locale,
            "sharding-redis"@,
            title,
            DoctorCheckStatus::Skipped,
            seq![translation(locale, "doctor-sharding-redis.detail.disabled"@)],
            Seq::empty(),
        )
    } else {
        let g1 = if env_blank(env, "REDIS_URL"@) {
            seq![redis_diag(locale, "doctor-sharding-redis.redis-url.message"@, Seq::empty())]
        } else {
            Seq::empty()
        };
        let parts = store_parts(locale, sharding_store_files(), present);
        let g = g1 + parts.1;
        check_view(
            locale,
            "sharding-redis"@,
            title,
            if g.len() > 0 {
                DoctorCheckStatus::Error
            } else {
                DoctorCheckStatus::Passed
            },
            seq![translation(locale, "doctor-sharding-redis.detail.enabled"@)] + parts.0,
            g,
        )
    }
}

/// Checks the sharding setup: the `.env` values and which stores exist
/// (one flag per store, in order).
pub fn check_sharding_redis(locale: Lang, env: &EnvFile, present: &Vec<bool>) -> (res: CheckResult)
    ensures
        res@ == sharding_check(locale, env@, present@),
{
    proof {
        reveal(sharding_check);
    }
    let mut details: Vec<String> = Vec::new();
    let mut diagnostics: Vec<Diagnostic> = Vec::new();
    if !env_is_true(env, "SHARDING_ENABLED") {
        let t = text(locale, "doctor-sharding-redis.detail.disabled");
        details.push(t);
        assert(texts(details@) =~= seq![t@]);
        assert(diags_of(diagnostics@) =~= Seq::<DiagnosticView>::empty());
        return check_result(locale, "sharding-redis", "doctor-sharding-redis.check.title", DoctorCheckStatus::Skipped, details, diagnostics);
    }
    let t = text(locale, "doctor-sharding-redis.detail.enabled");
    details.push(t);
    assert(texts(details@) =~= seq![t@]);
    if env_is_blank(env, "REDIS_URL") {
        let d = diag0(locale, DiagnosticCode::PATTO_DOCTOR_SHARDING_REDIS, DiagnosticLevel::Error, "doctor-sharding-redis.redis-url.message");
        diagnostics.push(d);
        assert(diags_of(diagnostics@) =~= seq![d@]);
    } else {
        assert(diags_of(diagnostics@) =~= Seq::<DiagnosticView>::empty());
    }
    let ghost d1 = texts(details@);
    let ghost g1 = diags_of(diagnostics@);
    let files = sharding_required_files();
    let ghost names = files@.map_values(|f: &str| f@);
    let mut j: usize = 0;
    assert(names.take(0) =~= Seq::<Seq<char>>::empty());
    assert(d1 + Seq::<Seq<char>>::empty() =~= d1);
    assert(g1 + Seq::<DiagnosticView>::empty() =~= g1);
    proof {
        reveal_strlit("file");
    }
    while j < 3
        invariant
            j <= 3,
            names == files@.map_values(|f: &str| f@),
            names.len() == 3,
            texts(details@) == d1 + store_parts(locale, names.take(j as int), present@).0,
            diags_of(diagnostics@) == g1 + store_parts(locale, names.take(j as int), present@).1,
        decreases 3 - j,
    {
        let f = files[j];
        proof {
            assert(names.take(j + 1).drop_last() =~= names.take(j as int));
            assert(names.take(j + 1).last() == f@);
        }
        let ghost d0 = texts(details@);
        let ghost g0 = diags_of(diagnostics@);
        let here = j < present.len() && present[j];
        if here {
            let m = msg1(locale, "doctor-sharding-redis.detail.store-present", "file", f);
            details.push(m);
            assert(texts(details@) =~= d0.push(m@));
        } else {
            let d = diag1(locale, DiagnosticCode::PATTO_DOCTOR_SHARDING_REDIS, DiagnosticLevel::Error, "doctor-sharding-redis.missing-store.message", "file", f);
            diagnostics.push(d);
            assert(diags_of(diagnostics@) =~= g0.push(d@));
        }
        j = j + 1;
    }
    assert(names.take(3) =~= sharding_store_files());
    let status = if diagnostics.len() > 0 {
        DoctorCheckStatus::Error
    } else {
        DoctorCheckStatus::Passed
    };
    check_result(locale, "sharding-redis", "doctor-sharding-redis.check.title", status, details, diagnostics)
}

} // verus!
