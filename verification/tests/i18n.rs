use patto_cli_core::lint::i18n::{extract_translation_calls, extract_translation_keys};

#[test]
fn i18n_extract_translation_keys_reads_quoted_object_keys() {
    let keys = extract_translation_keys("  'a.b': 'A',\n  \"c.d\": () => 'C',\n  plain: true,");

    assert!(keys.iter().any(|key| key == "a.b"));
    assert!(keys.iter().any(|key| key == "c.d"));
    assert!(!keys.iter().any(|key| key == "plain"));
}

#[test]
fn locale_files_extract_translation_keys_reads_quoted_object_keys() {
    let keys = extract_translation_keys("  'a.b': 'A',\n  \"c.d\": () => 'C',\n  plain: true,");

    assert!(keys.iter().any(|key| key == "a.b"));
    assert!(keys.iter().any(|key| key == "c.d"));
    assert!(!keys.iter().any(|key| key == "plain"));
}

#[test]
fn extract_translation_calls_reads_this_t_and_aliases() {
    let calls = extract_translation_calls(
        "const t = this.t;\nthis.t('ping.title');\nt(\"ping.body\");\nthis.t(key);",
    );

    assert_eq!(
        calls
            .static_calls
            .iter()
            .map(|call| call.key.as_str())
            .collect::<Vec<_>>(),
        vec!["ping.title", "ping.body"]
    );
    assert_eq!(calls.dynamic_offsets.len(), 1);
}

#[test]
fn i18n_extract_translation_calls_ignores_comments() {
    let calls = extract_translation_calls(
        "// this.t('ignored.line')
/** this.t('ignored.block') */
this.t('real.key');",
    );

    assert_eq!(calls.static_calls.len(), 1);
    assert_eq!(calls.static_calls[0].key, "real.key");
}

#[test]
fn extract_translation_calls_reads_literals_from_this_t_and_aliases() {
    let calls = extract_translation_calls(
        "const t = this.t;\nthis.t('ping.title');\nt(\"ping.body\");",
    );

    assert_eq!(
        calls
            .static_calls
            .iter()
            .map(|call| call.key.as_str())
            .collect::<Vec<_>>(),
        vec!["ping.title", "ping.body"]
    );
    assert!(calls.dynamic_offsets.is_empty());
}

#[test]
fn extract_translation_calls_reports_untyped_dynamic_keys() {
    let calls = extract_translation_calls(
        "const t = this.t;\nthis.t(key);\nt(messageKey);\nthis.t(`help.${field}`);",
    );

    assert_eq!(calls.static_calls.len(), 0);
    assert_eq!(calls.dynamic_offsets.len(), 3);
}

#[test]
fn translation_calls_extract_translation_calls_ignores_comments() {
    let calls = extract_translation_calls(
        "// this.t('ignored.line')\n/** this.t('ignored.block') */\nthis.t('real.key');",
    );

    assert_eq!(calls.static_calls.len(), 1);
    assert_eq!(calls.static_calls[0].key, "real.key");
    assert!(calls.dynamic_offsets.is_empty());
}

#[test]
fn extract_translation_calls_allows_translation_key_function_results() {
    let calls = extract_translation_calls(
        "function categoryKey(tag: Category, field: 'name' | 'description'): TranslationKey {\n  return `category.${tag}.${field}` as TranslationKey;\n}\nconst t = this.t;\nt(categoryKey(category.tag, 'name'));\nthis.t(categoryKey(category.tag, 'description'));",
    );

    assert!(calls.static_calls.is_empty());
    assert!(calls.dynamic_offsets.is_empty());
}

#[test]
fn extract_translation_calls_allows_arrow_functions_returning_translation_key() {
    let calls = extract_translation_calls(
        "const toKey = (name: string): TranslationKey => `help.${name}` as TranslationKey;\nthis.t(toKey(name));",
    );

    assert!(calls.static_calls.is_empty());
    assert!(calls.dynamic_offsets.is_empty());
}

#[test]
fn extract_translation_calls_allows_translation_key_variables_and_casts() {
    let calls = extract_translation_calls(
        "const typedKey: TranslationKey = 'help.root.title';\nthis.t(typedKey);\nthis.t(rawKey as TranslationKey);\nthis.t(`category.${tag}.name` as TranslationKey);",
    );

    assert!(calls.static_calls.is_empty());
    assert!(calls.dynamic_offsets.is_empty());
}

#[test]
fn extract_translation_calls_still_reports_untyped_function_results() {
    let calls = extract_translation_calls(
        "function unsafeKey(name: string): string { return name; }\nthis.t(unsafeKey(name));",
    );

    assert_eq!(calls.dynamic_offsets.len(), 1);
}

#[test]
fn extract_translation_calls_reads_first_argument_with_nested_commas() {
    let calls = extract_translation_calls(
        "function keyFor(a: string, b: string): TranslationKey { return `x.${a}.${b}` as TranslationKey; }\nthis.t(keyFor('a,b', nested(value, other)), 'arg');\nthis.t(plain(value, other));",
    );

    assert_eq!(calls.dynamic_offsets.len(), 1);
}

#[test]
fn static_call_offsets_point_at_the_key_text() {
    let content = "x;\n  this.t('a.b');";
    let calls = extract_translation_calls(content);
    assert_eq!(calls.static_calls.len(), 1);
    let offset = calls.static_calls[0].offset;
    let chars: Vec<char> = content.chars().collect();
    assert_eq!(chars[offset], 'a');
    assert_eq!(chars[offset - 1], '\'');
}

#[test]
fn duplicate_keys_are_listed_once() {
    let keys = extract_translation_keys("'a': 1,\n'a': 2,\n'b': 3,");
    assert_eq!(keys, vec!["a".to_string(), "b".to_string()]);
}
