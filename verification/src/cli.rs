//! The command-line surface: global flags, the subcommands and their
//! options, the agent-oriented help text and each command's stable label.
use vstd::prelude::*;

use crate::text::owned;

verus! {

/// Recommended high-level workflow for agents and operators.
pub const WORKFLOW_HINT: &'static str = "Recommended workflow: tendril list -> tendril capture -> tendril run";

/// Top-level Tendril CLI.
#[derive(Debug, Clone)]
pub struct TendrilCli {
    /// Emit machine-readable JSON envelopes.
    pub json: bool,
    /// Scope target-aware commands to a window.
    pub window: Option<String>,
    /// Scope target-aware commands to a display.
    pub display: Option<String>,
    /// Execute this Tendril invocation on a remote host over SSH.
    pub remote: Option<String>,
    /// Proxy this invocation from WSL/Linux to a Windows-host Tendril binary.
    pub wsl_tunnel: bool,
    /// Drive an Android device or emulator through adb.
    pub android: Option<String>,
    pub command: Option<Command>,
}

/// The agent-oriented help text.
pub open spec fn agent_help_text() -> Seq<char> {
    "Tendril is a stateless desktop inspection and control CLI for agents.\n\nWorkflow:\n  1. list targets:    tendril list --json\n  2. remote targets:  tendril --remote me@box list --json\n  3. WSL host:        tendril --wsl-tunnel list --json\n  4. Android device:  tendril --android sgu24:5555 list --json\n  5. list elements:   tendril --window <id> list-elements --json\n  6. capture state:   tendril --window <id> capture --json\n  7. save to file:    tendril --window <id> capture -o /tmp/screen.png\n  8. run input:       tendril --window <id> run 'send(\"hello\")'\n  9. click element:   tendril --window <id> run 'click(33)'\n  10. read clipboard: tendril clipboard get --json\n  11. reuse a target: eval \"$(tendril --window <id> alias --name desk)\"\n\nCommands:\n  list           Discover windows, displays, and Android devices\n  list-elements  Discover UI elements for a window/display or Android device\n  capture        Capture a screenshot from a window/display/Android target\n  run            Type text or execute an input sequence against a target\n  clipboard      Read or serve Linux/X11 text selections for deterministic browser↔OS transfer\n  alias          Emit a shell helper that pre-fills --window/--display\n  listen         Probe supported audio capture paths\n  update         Download and install a Tendril release binary\n  version        Inspect or bump the workspace release version\n  mcp            Serve Tendril over MCP stdio\n\nUse --json for machine-readable success/error envelopes.\nUse --remote user@host to proxy any invocation over ssh; Linux remotes auto-discover X11/Wayland session variables when SSH did not inherit them.\nUse -o/--output on capture to save the image directly to a file.\nUse --help on any subcommand for detailed flags.\n\nRecommended workflow: tendril list -> tendril capture -> tendril run\n"@
}

impl TendrilCli {
    /// The help text for agents: the workflow, the commands and the
    /// conventions, ending with the workflow hint.
    #[must_use]
    pub fn agent_help() -> (r: String)
        ensures
            r@ == agent_help_text(),
    {
        owned("Tendril is a stateless desktop inspection and control CLI for agents.\n\nWorkflow:\n  1. list targets:    tendril list --json\n  2. remote targets:  tendril --remote me@box list --json\n  3. WSL host:        tendril --wsl-tunnel list --json\n  4. Android device:  tendril --android sgu24:5555 list --json\n  5. list elements:   tendril --window <id> list-elements --json\n  6. capture state:   tendril --window <id> capture --json\n  7. save to file:    tendril --window <id> capture -o /tmp/screen.png\n  8. run input:       tendril --window <id> run 'send(\"hello\")'\n  9. click element:   tendril --window <id> run 'click(33)'\n  10. read clipboard: tendril clipboard get --json\n  11. reuse a target: eval \"$(tendril --window <id> alias --name desk)\"\n\nCommands:\n  list           Discover windows, displays, and Android devices\n  list-elements  Discover UI elements for a window/display or Android device\n  capture        Capture a screenshot from a window/display/Android target\n  run            Type text or execute an input sequence against a target\n  clipboard      Read or serve Linux/X11 text selections for deterministic browser↔OS transfer\n  alias          Emit a shell helper that pre-fills --window/--display\n  listen         Probe supported audio capture paths\n  update         Download and install a Tendril release binary\n  version        Inspect or bump the workspace release version\n  mcp            Serve Tendril over MCP stdio\n\nUse --json for machine-readable success/error envelopes.\nUse --remote user@host to proxy any invocation over ssh; Linux remotes auto-discover X11/Wayland session variables when SSH did not inherit them.\nUse -o/--output on capture to save the image directly to a file.\nUse --help on any subcommand for detailed flags.\n\nRecommended workflow: tendril list -> tendril capture -> tendril run\n")
    }
}

/// Top-level commands.
#[derive(Debug, Clone)]
pub enum Command {
    /// Discover windows, displays, and other targets.
    List(ListCommand),
    /// List lower-level UI elements for a window/display or globally.
    ListElements(ElementListCommand),
    /// Capture a screenshot from a window or display target.
    Capture(CaptureCommand),
    /// Execute input against a target.
    Run(RunCommand),
    /// Capture audio from a supported source.
    Listen(ListenCommand),
    /// Read or serve an OS clipboard/text selection.
    Clipboard(ClipboardCommand),
    /// Emit shell helpers for repeated targeting.
    Alias(AliasCommand),
    /// Download and install a Tendril release binary.
    Update(UpdateCommand),
    /// Inspect or bump the workspace release version.
    Version(VersionCommand),
    /// Report input and screen-capture permission status for this platform.
    Permissions(PermissionsCommand),
    /// Expose the CLI surface over MCP stdio.
    Mcp(McpCommand),
}

/// The stable label of each command.
pub open spec fn command_label(c: Command) -> Seq<char> {
    match c {
        Command::List(_) => "list"@,
        Command::ListElements(_) => "list-elements"@,
        Command::Capture(_) => "capture"@,
        Command::Run(_) => "run"@,
        Command::Listen(_) => "listen"@,
        Command::Clipboard(_) => "clipboard"@,
        Command::Alias(_) => "alias"@,
        Command::Update(_) => "update"@,
        Command::Version(_) => "version"@,
        Command::Permissions(_) => "permissions"@,
        Command::Mcp(_) => "mcp"@,
    }
}

impl Command {
    /// The command's stable label, as used in envelopes and logs.
    #[must_use]
    pub fn name(&self) -> (r: &'static str)
        ensures
            r@ == command_label(*self),
    {
        match self {
            Command::List(_) => "list",
            Command::ListElements(_) => "list-elements",
            Command::Capture(_) => "capture",
            Command::Run(_) => "run",
            Command::Listen(_) => "listen",
            Command::Clipboard(_) => "clipboard",
            Command::Alias(_) => "alias",
            Command::Update(_) => "update",
            Command::Version(_) => "version",
            Command::Permissions(_) => "permissions",
            Command::Mcp(_) => "mcp",
        }
    }
}

/// Report input and screen-capture permission status for the active
/// platform adapter (a read-only probe).
#[derive(Debug, Clone, Default, PartialEq, Eq)]
pub struct PermissionsCommand {}

#[derive(Debug, Clone, Default, PartialEq, Eq)]
pub struct ListCommand {
    /// Android only: include all launchable apps as switchable window targets.
    pub all_apps: bool,
}

#[derive(Debug, Clone, Default, PartialEq, Eq)]
pub struct ElementListCommand {
    /// Include elements outside the target bounds when the backend reports them.
    pub include_offscreen: bool,
}

#[derive(Debug, Clone, Default, PartialEq, Eq)]
pub struct CaptureCommand {
    pub max_width: Option<u32>,
    pub max_height: Option<u32>,
    pub format: Option<String>,
    pub compression: Option<u8>,
    /// Write the decoded image to this file.
    pub output: Option<String>,
    /// Maximum time (milliseconds) to wait for the capture backend.
    pub timeout_ms: Option<u64>,
}

#[derive(Debug, Clone, PartialEq, Eq)]
pub struct RunCommand {
    /// Disable the host-local execution lock/queue for this run.
    pub no_lock: bool,
    /// Maximum time in milliseconds to wait for the execution lock.
    pub lock_timeout_ms: Option<u64>,
    /// Age in milliseconds after which an unrefreshed lock/ticket is stale.
    pub lock_stale_ms: Option<u64>,
    /// Override the execution lock root path.
    pub lock_path: Option<String>,
    /// Text or DSL input definition.
    pub input_definition: Option<String>,
    /// Restore the focus that was active before the run (the default).
    pub restore_focus: bool,
    /// Leave focus on the automation target after the run.
    pub no_restore_focus: bool,
}

impl Default for RunCommand {
    fn default() -> (r: Self)
        ensures
            !r.no_lock && r.lock_timeout_ms is None && r.lock_stale_ms is None && r.lock_path is None,
            r.input_definition is None && r.restore_focus && !r.no_restore_focus,
    {
        RunCommand {
            no_lock: false,
            lock_timeout_ms: None,
            lock_stale_ms: None,
            lock_path: None,
            input_definition: None,
            restore_focus: true,
            no_restore_focus: false,
        }
    }
}

#[derive(Debug, Clone, PartialEq, Eq)]
pub struct ClipboardCommand {
    pub command: ClipboardSubcommand,
}

#[derive(Debug, Clone, PartialEq, Eq)]
pub enum ClipboardSubcommand {
    /// Read a text selection from the OS clipboard.
    Get(ClipboardGetCommand),
    /// Own and serve a text selection for other applications to paste.
    SetSelection(ClipboardSetCommand),
}

#[derive(Debug, Clone, Default, PartialEq, Eq)]
pub struct ClipboardGetCommand {
    /// Selection to read: `clipboard` or `primary`.
    pub selection: Option<String>,
    /// Maximum time in milliseconds to wait for the owner to answer.
    pub timeout_ms: Option<u64>,
}

#[derive(Debug, Clone, PartialEq, Eq)]
pub struct ClipboardSetCommand {
    /// Selection to serve: `clipboard` or `primary`.
    pub selection: Option<String>,
    /// Text to expose through the selection.
    pub text: String,
    /// Time in milliseconds to stay alive serving requests.
    pub serve_ms: Option<u64>,
}

#[derive(Debug, Clone, Default, PartialEq, Eq)]
pub struct ListenCommand {
    /// Audio source selector: `system`, `loopback`, `microphone`, or `device:<id>`.
    pub source: Option<String>,
    /// Requested capture duration in milliseconds.
    pub duration_ms: Option<u64>,
    /// Requested audio format: `wav`, `flac`, or `opus`.
    pub format: Option<String>,
    /// Write the captured audio to this path.
    pub output: Option<String>,
}

#[derive(Debug, Clone, Default, PartialEq, Eq)]
pub struct AliasCommand {
    pub shell: Option<String>,
    pub name: Option<String>,
}

#[derive(Debug, Clone, Default, PartialEq, Eq)]
pub struct UpdateCommand {
    /// Install a specific release version.
    pub release_version: Option<String>,
    /// Override the GitHub repository in owner/name form.
    pub repository: Option<String>,
    /// Directory where the binary should be installed.
    pub install_dir: Option<String>,
    /// Print the download/install plan without writing files.
    pub dry_run: bool,
}

#[derive(Debug, Clone, PartialEq, Eq)]
pub struct VersionCommand {
    pub command: VersionSubcommand,
}

#[derive(Debug, Clone, PartialEq, Eq)]
pub enum VersionSubcommand {
    /// Bump the workspace semver version and create a git commit.
    Bump(VersionBumpCommand),
}

#[derive(Debug, Clone, PartialEq, Eq)]
pub struct VersionBumpCommand {
    /// Semver component to increment.
    pub level: VersionBumpLevel,
}

#[derive(Debug, Clone, Copy, PartialEq, Eq, Structural)]
pub enum VersionBumpLevel {
    Patch,
    Minor,
    Major,
}

#[derive(Debug, Clone)]
pub struct McpCommand {
    pub command: McpSubcommand,
}

#[derive(Debug, Clone)]
pub enum McpSubcommand {
    /// Serve MCP tools over stdio.
    Stdio,
}

} // verus!
