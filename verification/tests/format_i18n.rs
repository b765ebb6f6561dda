use patto_cli_core::format_i18n::{format_locale_source, render_entry, sort_entries, split_top_level_entries, FormatSourceResult};

#[test]
fn sorts_string_translation_keys() {
    let source = "export const es = {\n    'zeta.ache.be': 'A',\n    'be.ache.zeta': 'B',\n};\n";
    let expected = "export const es = {\n    'be.ache.zeta': 'B',\n    'zeta.ache.be': 'A',\n};\n";

    assert_eq!(
        format_locale_source(source, Some("es")),
        FormatSourceResult::Formatted(expected.to_string())
    );
}

#[test]
fn keeps_values_attached_when_values_contain_commas_and_braces() {
    let source = "export const es = {\n    'z.key': (value: string) => `Hola, ${value}`,\n    'a.key': ({ count }: { count: number }) => count === 1 ? 'Uno' : `${count}, varios`,\n};\n";
    let expected = "export const es = {\n    'a.key': ({ count }: { count: number }) => count === 1 ? 'Uno' : `${count}, varios`,\n    'z.key': (value: string) => `Hola, ${value}`,\n};\n";

    assert_eq!(
        format_locale_source(source, Some("es")),
        FormatSourceResult::Formatted(expected.to_string())
    );
}

#[test]
fn ignores_commas_inside_nested_literals() {
    let source = "export const es = {\n    'b.key': ['B, one', 'B, two'].join(', '),\n    'a.key': { label: 'A, one' }.label,\n};\n";
    let expected = "export const es = {\n    'a.key': { label: 'A, one' }.label,\n    'b.key': ['B, one', 'B, two'].join(', '),\n};\n";

    assert_eq!(
        format_locale_source(source, Some("es")),
        FormatSourceResult::Formatted(expected.to_string())
    );
}

#[test]
fn returns_unchanged_when_already_sorted() {
    let source = "export const es = {\n    'a.key': 'A',\n    'b.key': 'B',\n};\n";

    assert_eq!(
        format_locale_source(source, Some("es")),
        FormatSourceResult::Unchanged
    );
}

#[test]
fn skips_files_without_exported_locale_object() {
    assert_eq!(
        format_locale_source("export const LOCALE = 'es';\n", Some("es")),
        FormatSourceResult::Unsupported
    );
}

#[test]
fn formatting_twice_leaves_the_result_unchanged() {
    let source = "export const es = {\n  'b': 'B',\n  // note\n  'a': 'A'\n};\n";
    let first = format_locale_source(source, Some("es"));
    match first {
        FormatSourceResult::Formatted(text) => {
            assert_eq!(text, "export const es = {\n  // note\n  'a': 'A',\n  'b': 'B',\n};\n");
            assert_eq!(format_locale_source(&text, Some("es")), FormatSourceResult::Unchanged);
        }
        other => panic!("unexpected result {:?}", other),
    }
}

#[test]
fn picks_the_export_with_the_expected_name() {
    let source = "export const other = { 'z': 1 };\nexport const en = {\n\t'y': 2,\n\t'x': 1,\n};\n";
    assert_eq!(
        format_locale_source(source, Some("en")),
        FormatSourceResult::Formatted(
            "export const other = { 'z': 1 };\nexport const en = {\n\t'x': 1,\n\t'y': 2,\n};\n"
                .to_string()
        )
    );
}

#[test]
fn entries_without_quoted_keys_are_unsupported() {
    let source = "export const es = {\n    plain: 'A',\n    'b': 'B',\n};\n";
    assert_eq!(format_locale_source(source, Some("es")), FormatSourceResult::Unsupported);
}

#[test]
fn empty_objects_are_unchanged() {
    assert_eq!(
        format_locale_source("export const es = {\n};\n", None),
        FormatSourceResult::Unchanged
    );
}

#[test]
fn split_pieces_join_back_to_the_body() {
    let body = "\n 'a': f(1, 2), // x, y\n 'b': [3, 4], 'c': \"5,6\"\n";
    let chars: Vec<char> = body.chars().collect();
    let pieces: Vec<String> = split_top_level_entries(&chars)
        .into_iter()
        .map(|p| p.into_iter().collect())
        .collect();
    assert_eq!(
        pieces,
        vec!["\n 'a': f(1, 2)", " // x, y\n 'b': [3, 4]", " 'c': \"5,6\"\n"]
    );
    assert_eq!(pieces.join(","), body);
}

#[test]
fn keys_with_line_breaks_can_reorder_on_a_second_pass() {
    let source = "export const es = {\n  'a\u{e}': 1,\n  'a \nb': 2,\n};\n";
    let once = "export const es = {\n  'a\u{e}': 1,\n  'a\nb': 2,\n};\n";
    let twice = "export const es = {\n  'a\nb': 2,\n  'a\u{e}': 1,\n};\n";
    assert_eq!(
        format_locale_source(source, Some("es")),
        FormatSourceResult::Formatted(once.to_string())
    );
    assert_eq!(
        format_locale_source(once, Some("es")),
        FormatSourceResult::Formatted(twice.to_string())
    );
}

#[test]
fn rendering_a_rendered_entry_gives_it_back() {
    let entry: Vec<char> = "\n   'k': [1,  \r\n  2] // note ,\n ,, ".chars().collect();
    let indent: Vec<char> = "  ".chars().collect();
    let once = render_entry(&entry, &indent);
    assert_eq!(once.iter().collect::<String>(), "  'k': [1,\n  2] // note");
    assert_eq!(render_entry(&once, &indent), once);
}

#[test]
fn sorting_sorted_entries_changes_nothing() {
    let pair = |k: &str, v: &str| (k.chars().collect::<Vec<char>>(), v.chars().collect::<Vec<char>>());
    let items = vec![pair("a", "1"), pair("b", "2"), pair("b", "3"), pair("c", "4")];
    assert_eq!(sort_entries(items.clone()), items);
}
