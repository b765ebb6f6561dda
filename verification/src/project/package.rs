//! The project configuration and `package.json`.
use vstd::prelude::*;

use crate::diagnostic::{diags_view, opt_view, Diagnostic, DiagnosticCode, DiagnosticLevel};
use crate::json::{
    deref_opt, json_keys, json_member, json_str, member, object_keys, parse_json, parsed_json,
    text_value, JsonValue,
};
use crate::lang::Lang;
use crate::output::{PackageIndex, PackageManager, ProjectConfigIndex};
use crate::text::{chars_eq_str, chars_of, starts_with};
use crate::utils::{coded, coded_diagnostic, sort_texts, sorted_texts};

verus! {

/// The configuration a project gets where none can be read.
pub open spec fn default_config(c: ProjectConfigIndex, exists: bool) -> bool {
    &&& c.path@ == ".patto/config.json"@
    &&& c.exists == exists
    &&& c.lang@ == "es"@
    &&& c.supported_lang
}

/// The language a configuration document asks for: its `lang` text, or
/// Spanish.
pub open spec fn config_lang(parsed: Option<JsonValue>) -> Seq<char> {
    match json_str(json_member(parsed, "lang"@)) {
        Some(l) => l,
        None => "es"@,
    }
}

/// What reading the configuration reports, given whether the file exists
/// and its text (`None` where it could not be read).
pub open spec fn config_diagnostics(locale: Lang, exists: bool, content: Option<Seq<char>>) -> Seq<
    crate::diagnostic::DiagnosticView,
> {
    if !exists {
        seq![coded(DiagnosticLevel::Warning, locale, "patto_config_missing"@)]
    } else {
        match content {
            None => seq![coded(DiagnosticLevel::Warning, locale, "patto_config_invalid"@)],
            Some(t) => {
                let parsed = parsed_json(t);
                let invalid = if parsed is None {
                    seq![coded(DiagnosticLevel::Warning, locale, "patto_config_invalid"@)]
                } else {
                    Seq::empty()
                };
                let unsupported = if config_lang(parsed) != "es"@ {
                    seq![coded(DiagnosticLevel::Warning, locale, "patto_config_lang_unsupported"@)]
                } else {
                    Seq::empty()
                };
                invalid + unsupported
            },
        }
    }
}

/// Reads the project configuration (`.patto/config.json`): whether it
/// exists, its language and whether that language is supported, and the
/// parsed document.
pub fn scan_project_config(
    exists: bool,
    content: Option<String>,
    diagnostics: &mut Vec<Diagnostic>,
    locale: Lang,
) -> (res: (ProjectConfigIndex, Option<JsonValue>))
    ensures
        diags_view(final(diagnostics)@) == diags_view(old(diagnostics)@) + config_diagnostics(
            locale,
            exists,
            opt_view(content),
        ),
        !exists ==> default_config(res.0, false) && res.1 is None,
        exists && content is None ==> default_config(res.0, true) && res.1 is None,
        exists && content is Some ==> {
            let parsed = parsed_json(opt_view(content)->0);
            &&& res.1 == parsed
            &&& res.0.path@ == ".patto/config.json"@
            &&& res.0.exists
            &&& res.0.lang@ == config_lang(parsed)
            &&& res.0.supported_lang == (config_lang(parsed) == "es"@)
        },
{
    proof {
        reveal_strlit(".patto/config.json");
    }
    let ghost before = diags_view(diagnostics@);
    if !exists {
        let d = coded_diagnostic(
            DiagnosticLevel::Warning,
            DiagnosticCode::PATTO_CONFIG_MISSING,
            locale,
        );
        diagnostics.push(d);
        assert(diags_view(diagnostics@) =~= before + seq![d@]);
        return (
            ProjectConfigIndex {
                path: ".patto/config.json".to_owned(),
                exists: false,
                lang: "es".to_owned(),
                supported_lang: true,
            },
            None,
        );
    }
    let text = match content {
        None => {
            let d = coded_diagnostic(
                DiagnosticLevel::Warning,
                DiagnosticCode::PATTO_CONFIG_INVALID,
                locale,
            );
            diagnostics.push(d);
            assert(diags_view(diagnostics@) =~= before + seq![d@]);
            return (
                ProjectConfigIndex {
                    path: ".patto/config.json".to_owned(),
                    exists: true,
                    lang: "es".to_owned(),
                    supported_lang: true,
                },
                None,
            );
        },
        Some(t) => t,
    };
    let parsed = parse_json(text.as_str());
    let pr = parsed.as_ref();
    assert(deref_opt(pr) == parsed);
    let lang = match text_value(member(pr, "lang")) {
        Some(l) => l,
        None => "es".to_owned(),
    };
    assert(lang@ == config_lang(parsed));
    let ghost mid = diags_view(diagnostics@);
    if parsed.is_none() {
        let d = coded_diagnostic(
            DiagnosticLevel::Warning,
            DiagnosticCode::PATTO_CONFIG_INVALID,
            locale,
        );
        diagnostics.push(d);
        assert(diags_view(diagnostics@) =~= mid + seq![d@]);
    } else {
        assert(diags_view(diagnostics@) =~= mid + Seq::<crate::diagnostic::DiagnosticView>::empty());
    }
    let ghost after_invalid = diags_view(diagnostics@);
    let lc = chars_of(lang.as_str());
    let supported_lang = chars_eq_str(&lc, "es");
    if !supported_lang {
        let d = coded_diagnostic(
            DiagnosticLevel::Warning,
            DiagnosticCode::PATTO_CONFIG_LANG_UNSUPPORTED,
            locale,
        );
        diagnostics.push(d);
        assert(diags_view(diagnostics@) =~= after_invalid + seq![d@]);
    } else {
        assert(diags_view(diagnostics@) =~= after_invalid + Seq::<
            crate::diagnostic::DiagnosticView,
        >::empty());
    }
    (
        ProjectConfigIndex {
            path: ".patto/config.json".to_owned(),
            exists: true,
            lang,
            supported_lang,
        },
        parsed,
    )
}

/// The diagnostic for an unreadable or invalid configuration.
pub fn config_invalid_diagnostic(locale: Lang) -> (res: Diagnostic)
    ensures
        res@ == coded(DiagnosticLevel::Warning, locale, "patto_config_invalid"@),
{
    coded_diagnostic(DiagnosticLevel::Warning, DiagnosticCode::PATTO_CONFIG_INVALID, locale)
}

/// Which lock files a project has.
#[derive(PartialEq, Eq, Structural, Clone, Copy, Debug)]
pub struct LockFiles {
    pub pnpm: bool,
    pub yarn: bool,
    pub npm: bool,
}

/// The package manager a project uses: the one its `packageManager` field
/// names, else the one whose lock file it has (pnpm, then yarn, then npm).
pub open spec fn package_manager_of(package_json: Option<JsonValue>, locks: LockFiles) -> PackageManager {
    let declared = json_str(json_member(package_json, "packageManager"@));
    if declared is Some && starts_with(declared->0, "pnpm@"@) {
        PackageManager::Pnpm
    } else if declared is Some && starts_with(declared->0, "npm@"@) {
        PackageManager::Npm
    } else if declared is Some && starts_with(declared->0, "yarn@"@) {
        PackageManager::Yarn
    } else if locks.pnpm {
        PackageManager::Pnpm
    } else if locks.yarn {
        PackageManager::Yarn
    } else if locks.npm {
        PackageManager::Npm
    } else {
        PackageManager::Unknown
    }
}

/// Tells the package manager of a project.
pub fn detect_package_manager(package_json: Option<&JsonValue>, locks: LockFiles) -> (res:
    PackageManager)
    ensures
        res == package_manager_of(deref_opt(package_json), locks),
{
    match text_value(member(package_json, "packageManager")) {
        Some(declared) => {
            let d = chars_of(declared.as_str());
            if crate::text::starts_with_str(&d, "pnpm@") {
                return PackageManager::Pnpm;
            }
            if crate::text::starts_with_str(&d, "npm@") {
                return PackageManager::Npm;
            }
            if crate::text::starts_with_str(&d, "yarn@") {
                return PackageManager::Yarn;
            }
        },
        None => {},
    }
    if locks.pnpm {
        PackageManager::Pnpm
    } else if locks.yarn {
        PackageManager::Yarn
    } else if locks.npm {
        PackageManager::Npm
    } else {
        PackageManager::Unknown
    }
}

/// The keys of the object `v`, sorted.
pub fn sorted_object_keys(v: Option<&JsonValue>) -> (res: Vec<String>)
    ensures
        res@.map_values(|t: String| t@) == sorted_texts(json_keys(deref_opt(v))),
{
    sort_texts(object_keys(v))
}

pub open spec fn texts_view(v: Seq<String>) -> Seq<Seq<char>> {
    v.map_values(|t: String| t@)
}

/// The index of a project without `package.json`.
pub open spec fn is_empty_package(p: PackageIndex) -> bool {
    &&& p.path@ == "package.json"@
    &&& !p.exists
    &&& p.name is None
    &&& p.version is None
    &&& p.main is None
    &&& p.package_manager == PackageManager::Unknown
    &&& p.scripts@.len() == 0
    &&& p.dependencies@.len() == 0
    &&& p.dev_dependencies@.len() == 0
}

/// The index of a project without `package.json`.
pub fn empty_package_index() -> (res: PackageIndex)
    ensures
        is_empty_package(res),
{
    PackageIndex {
        path: "package.json".to_owned(),
        exists: false,
        name: None,
        version: None,
        main: None,
        package_manager: PackageManager::Unknown,
        scripts: Vec::new(),
        dependencies: Vec::new(),
        dev_dependencies: Vec::new(),
    }
}

/// What the index records of an existing `package.json` whose parsed
/// document is `doc` (`None` where it is unreadable or invalid).
pub open spec fn package_read(p: PackageIndex, doc: Option<JsonValue>, locks: LockFiles) -> bool {
    &&& p.path@ == "package.json"@
    &&& p.exists
    &&& opt_view(p.name) == json_str(json_member(doc, "name"@))
    &&& opt_view(p.version) == json_str(json_member(doc, "version"@))
    &&& opt_view(p.main) == json_str(json_member(doc, "main"@))
    &&& p.package_manager == package_manager_of(doc, locks)
    &&& texts_view(p.scripts@) == sorted_texts(json_keys(json_member(doc, "scripts"@)))
    &&& texts_view(p.dependencies@) == sorted_texts(json_keys(json_member(doc, "dependencies"@)))
    &&& texts_view(p.dev_dependencies@) == sorted_texts(
        json_keys(json_member(doc, "devDependencies"@)),
    )
}

/// Reads `package.json`, given whether it exists and its text (`None`
/// where it could not be read).
pub fn scan_package_json(
    exists: bool,
    content: Option<String>,
    locks: LockFiles,
    diagnostics: &mut Vec<Diagnostic>,
    locale: Lang,
) -> (res: PackageIndex)
    ensures
        !exists ==> is_empty_package(res) && diags_view(final(diagnostics)@) == diags_view(
            old(diagnostics)@,
        ).push(coded(DiagnosticLevel::Warning, locale, "patto_package_json_missing"@)),
        exists ==> diags_view(final(diagnostics)@) == diags_view(old(diagnostics)@)
            && package_read(
            res,
            match content {
                Some(t) => parsed_json(t@),
                None => None,
            },
            locks,
        ),
{
    if !exists {
        let ghost before = diags_view(diagnostics@);
        let d = coded_diagnostic(
            DiagnosticLevel::Warning,
            DiagnosticCode::PATTO_PACKAGE_JSON_MISSING,
            locale,
        );
        diagnostics.push(d);
        assert(diags_view(diagnostics@) =~= before.push(d@));
        return empty_package_index();
    }
    let doc = match content {
        Some(t) => parse_json(t.as_str()),
        None => None,
    };
    let d = doc.as_ref();
    assert(deref_opt(d) == doc);
    let scripts = sorted_object_keys(member(d, "scripts"));
    let dependencies = sorted_object_keys(member(d, "dependencies"));
    let dev_dependencies = sorted_object_keys(member(d, "devDependencies"));
    PackageIndex {
        path: "package.json".to_owned(),
        exists: true,
        name: text_value(member(d, "name")),
        version: text_value(member(d, "version")),
        main: text_value(member(d, "main")),
        package_manager: detect_package_manager(d, locks),
        scripts,
        dependencies,
        dev_dependencies,
    }
}

} // verus!
