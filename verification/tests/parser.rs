use patto_cli_core::output::{ArgumentOptionValueKind, CommandKind};
use patto_cli_core::project::parser::parse_command_index;
use patto_cli_core::project::parser_support::{extract_class_name, extract_string_property, has_run_method};

fn chars(s: &str) -> Vec<char> {
    s.chars().collect()
}

#[test]
fn parse_command_index_reads_command_metadata_and_arguments() {
    let content = r#"
@Arg({ name: "count", required: true, type: Number, options: [{ name: "One", value: 1 }, { name: "Two", value: 2 }] })
@Arg({ name: "text", required: false, rawText: true })
@Command({ name: "Ping", description: "Pong", category: CommandCategory.Utility, aliases: ["p", "pong"] })
export class PingCommand extends BaseCommand {
  async run(): Promise<void> {}
}
"#;

    let command = parse_command_index(
        &chars(content),
        "src/commands/general/ping.command.ts",
        Some("PingCommand".to_string()),
    )
    .expect("command metadata should be parsed");

    assert_eq!(command.kind, CommandKind::Command);
    assert_eq!(command.key.as_deref(), Some("ping"));
    assert_eq!(command.name.as_deref(), Some("Ping"));
    assert_eq!(command.description.as_deref(), Some("Pong"));
    assert_eq!(command.category.as_deref(), Some("CommandCategory.Utility"));
    assert_eq!(command.aliases, vec!["p", "pong"]);
    assert_eq!(command.class_name.as_deref(), Some("PingCommand"));
    assert_eq!(command.extends_name.as_deref(), Some("BaseCommand"));
    assert!(command.has_base_command_ancestor);
    assert!(command.has_run_method);
    assert_eq!(command.arguments.len(), 2);
    assert_eq!(command.arguments[0].name.as_deref(), Some("count"));
    assert!(command.arguments[0].required);
    assert_eq!(
        command.arguments[0].option_values[0].kind,
        ArgumentOptionValueKind::Number
    );
    assert_eq!(command.arguments[1].name.as_deref(), Some("text"));
    assert!(command.arguments[1].raw_text);
}

#[test]
fn parse_command_index_reads_subcommand_group_key() {
    let content = r#"
@SubcommandGroup({ parent: "admin", name: "roles", subcommand: "add", description: "Add role" })
export class AddRoleCommand extends BaseCommand {
  run() {}
}
"#;

    let command = parse_command_index(
        &chars(content),
        "src/commands/admin/roles/add.command.ts",
        Some("AddRoleCommand".to_string()),
    )
    .expect("subcommand group metadata should be parsed");

    assert_eq!(command.kind, CommandKind::SubcommandGroup);
    assert_eq!(command.key.as_deref(), Some("admin-roles-add"));
    assert_eq!(command.parent.as_deref(), Some("admin"));
    assert_eq!(command.group.as_deref(), Some("roles"));
    assert_eq!(command.subcommand.as_deref(), Some("add"));
}

#[test]
fn parse_command_index_ignores_commented_decorators() {
    let content = r#"
// @Command({ name: "ghost", description: "Not real" })
export class GhostCommand extends BaseCommand {
  async run(): Promise<void> {}
}
"#;

    assert!(parse_command_index(&chars(content), "src/commands/ghost.command.ts", None).is_none());
}

#[test]
fn has_run_method_ignores_comments_strings_and_other_identifiers() {
    assert!(!has_run_method(&chars(
        r#"
export class NoRunCommand extends BaseCommand {
  // async run(): Promise<void> {}
  label = "run()";
  brun() {}
}
"#
    )));
    assert!(has_run_method(&chars(
        r#"
export class RunCommand extends BaseCommand {
  public async run(): Promise<void> {}
}
"#
    )));
}

#[test]
fn extract_property_tail_uses_exact_property_names() {
    let block = r#"{ username: "wrong", name: "right" }"#;

    assert_eq!(
        extract_string_property(&chars(block), "name").as_deref(),
        Some("right")
    );
}

#[test]
fn class_names_keep_unicode_letters() {
    let content = chars("export class CaféCommand extends BaseCommand {}\n");
    assert_eq!(extract_class_name(&content).as_deref(), Some("CaféCommand"));
}
