use tendril::cli::{
    AliasCommand, ClipboardCommand, ClipboardGetCommand, ClipboardSubcommand, Command, ElementListCommand,
    ListCommand, ListenCommand, McpCommand, McpSubcommand, RunCommand, TendrilCli, UpdateCommand,
    VersionBumpCommand, VersionBumpLevel, VersionCommand, VersionSubcommand,
};
use tendril::cli::CaptureCommand;
use tendril::clipboard::{ClipboardGetInput, ClipboardSelection, ClipboardSetInput};
use tendril::envelope::{EnvelopeMeta, JSON_SCHEMA_VERSION};
use tendril::logging::{LogDestination, LoggingMode};
use tendril::win32::{ModifierKey, MouseButton};

#[test]
fn envelope_meta_defaults_are_stable() {
    let meta = EnvelopeMeta::default();

    assert_eq!(meta.schema_version, JSON_SCHEMA_VERSION);
    assert!(meta.command.is_none());
}

#[test]
fn envelope_meta_for_command_names_the_command() {
    let meta = EnvelopeMeta::for_command("list");
    assert_eq!(meta.schema_version, 1);
    assert_eq!(meta.command.as_deref(), Some("list"));
}

#[test]
fn enums_remain_stable_for_cross_crate_callers() {
    assert_eq!(ModifierKey::Ctrl.as_str(), "ctrl");
    assert_eq!(format!("{:?}", MouseButton::Left), "Left");
}

#[test]
fn agent_help_includes_workflow_hint() {
    let help = TendrilCli::agent_help();

    assert!(help.contains("Workflow:"));
    assert!(help.contains("tendril list --json"));
    assert!(help.contains("tendril --remote me@box list --json"));
    assert!(help.contains("capture --json"));
    assert!(help.contains("capture -o /tmp/screen.png"));
    assert!(help.contains(" run 'send(\"hello\")'"));
    assert!(help.contains("clipboard get --json"));
    assert!(help.contains("alias --name desk"));
    assert!(help.contains("update"));
    assert!(help.contains("version"));
}

#[test]
fn command_name_maps_each_subcommand_to_its_stable_label() {
    assert_eq!(Command::List(ListCommand::default()).name(), "list");
    assert_eq!(Command::ListElements(ElementListCommand::default()).name(), "list-elements");
    assert_eq!(Command::Capture(CaptureCommand::default()).name(), "capture");
    assert_eq!(Command::Run(RunCommand::default()).name(), "run");
    assert_eq!(Command::Listen(ListenCommand::default()).name(), "listen");
    assert_eq!(
        Command::Clipboard(ClipboardCommand {
            command: ClipboardSubcommand::Get(ClipboardGetCommand::default()),
        })
        .name(),
        "clipboard"
    );
    assert_eq!(
        Command::Alias(AliasCommand { name: Some("desk".to_owned()), ..AliasCommand::default() }).name(),
        "alias"
    );
    assert_eq!(Command::Update(UpdateCommand::default()).name(), "update");
    assert_eq!(
        Command::Version(VersionCommand {
            command: VersionSubcommand::Bump(VersionBumpCommand { level: VersionBumpLevel::Minor }),
        })
        .name(),
        "version"
    );
    assert_eq!(Command::Mcp(McpCommand { command: McpSubcommand::Stdio }).name(), "mcp");
}

#[test]
fn parses_clipboard_selection_names() {
    assert_eq!(
        ClipboardSelection::parse(None).expect("default selection"),
        ClipboardSelection::Clipboard
    );
    assert_eq!(
        ClipboardSelection::parse(Some("primary")).expect("primary selection"),
        ClipboardSelection::Primary
    );
    assert!(ClipboardSelection::parse(Some("secondary")).is_err());
}

#[test]
fn validates_clipboard_inputs() {
    assert!(
        ClipboardGetInput { selection: ClipboardSelection::Clipboard, timeout_ms: 1 }
            .validate()
            .is_ok()
    );
    assert!(
        ClipboardGetInput { selection: ClipboardSelection::Clipboard, timeout_ms: 0 }
            .validate()
            .is_err()
    );
    assert!(
        ClipboardSetInput {
            selection: ClipboardSelection::Clipboard,
            text: "hello".to_owned(),
            serve_ms: 0,
        }
        .validate()
        .is_ok()
    );
    assert!(
        ClipboardSetInput { selection: ClipboardSelection::Clipboard, text: String::new(), serve_ms: 0 }
            .validate()
            .is_err()
    );
}

#[test]
fn mcp_stdio_logging_policy_is_protocol_safe() {
    let policy = LoggingMode::McpStdio.policy();

    assert_eq!(policy.destination, LogDestination::Stderr);
    assert!(!policy.ansi);
    assert!(policy.quiet_stdout);
}

#[test]
fn cli_logging_policy_still_avoids_stdout_log_pollution() {
    let policy = LoggingMode::Cli.policy();

    assert_eq!(policy.destination, LogDestination::Stderr);
    assert!(!policy.ansi);
    assert!(!policy.quiet_stdout);
}
