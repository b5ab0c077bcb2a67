//! The command layer: the request shapes shared by the CLI and the MCP
//! tools, the help document, the conversion of command options into
//! validated inputs, shell alias generation, and the human renderings of
//! command outputs. Dispatching to adapters and printing is done by the
//! caller.
use vstd::prelude::*;

use crate::cli::{
    AliasCommand, CaptureCommand, ClipboardGetCommand, ClipboardSetCommand, ElementListCommand, ListCommand,
    ListenCommand, RunCommand, TendrilCli,
};
use crate::clipboard::{ClipboardGetInput, ClipboardSelection, ClipboardSetInput};
use crate::config::{ImageFormat, TendrilConfig};
use crate::envelope::ErrorCategory;
use crate::error::{is_invalid, DetailValue, TendrilError};
use crate::listen::{ListenArtifact, ListenCaptureResult, ListenSkipReason};
use crate::model::{
    AliasInput, AliasOutput, AudioFormat, AudioSourceKind, AudioSourceSelector, CaptureInput, ElementListInput,
    ListenInput, RunInput, RunInputPayload, ShellKind, TargetKind, TargetSelector,
};
use crate::platform::{
    platform_name_spec, session_name_spec, AdapterInfo, AudioCapabilityReport, PermissionKind,
    PermissionRequestOutcome, PermissionState, PermissionStatus, PlatformKind,
};
use crate::text::{self, decimal, joined, lower, owned, strings_view, trim};

verus! {

/// Which target a command is scoped to.
#[derive(Debug, Clone, Default, PartialEq, Eq)]
pub struct TargetScope {
    pub window: Option<String>,
    pub display: Option<String>,
    pub camera: Option<String>,
    /// Explicit X11 display name (for example `:99`) to connect to for this
    /// call, overriding the ambient `$DISPLAY` (Linux/X11 only).
    pub x11_display: Option<String>,
}

/// The `list` tool's request: the `list` options plus an X11 display override.
#[derive(Debug, Clone, Default, PartialEq, Eq)]
pub struct ListRequest {
    pub options: ListCommand,
    pub x11_display: Option<String>,
}

#[derive(Debug, Clone, PartialEq, Eq)]
pub struct CaptureRequest {
    pub target: TargetScope,
    pub options: CaptureCommand,
}

#[derive(Debug, Clone, PartialEq, Eq)]
pub struct RunRequest {
    pub target: TargetScope,
    pub options: RunCommand,
}

#[derive(Debug, Clone, PartialEq, Eq)]
pub struct ElementListRequest {
    pub target: TargetScope,
    pub options: ElementListCommand,
}

#[derive(Debug, Clone, PartialEq, Eq)]
pub struct AliasRequest {
    pub target: TargetScope,
    pub options: AliasCommand,
}

#[derive(Debug, Clone, Default, PartialEq, Eq)]
pub struct ClipboardGetRequest {
    /// Selection to read: `clipboard` or `primary`.
    pub selection: Option<String>,
    /// Maximum time in milliseconds to wait for the owner to answer.
    pub timeout_ms: Option<u64>,
}

#[derive(Debug, Clone, PartialEq, Eq)]
pub struct ClipboardSetRequest {
    /// Selection to serve: `clipboard` or `primary`.
    pub selection: Option<String>,
    /// Text to expose through the selection.
    pub text: String,
    /// Time in milliseconds to stay alive serving requests.
    pub serve_ms: Option<u64>,
}

/// The `listen` tool's request; unlike the CLI it carries the output path.
#[derive(Debug, Clone, Default, PartialEq, Eq)]
pub struct ListenRequest {
    pub source: Option<String>,
    pub duration_ms: Option<u64>,
    pub format: Option<String>,
    pub output: Option<String>,
}

impl ListenRequest {
    /// The same options as a CLI `listen` command.
    pub fn to_listen_command(&self) -> (c: ListenCommand)
        ensures
            c.source == self.source && c.duration_ms == self.duration_ms && c.format == self.format && c.output
                == self.output,
    {
        ListenCommand {
            source: clone_opt(&self.source),
            duration_ms: self.duration_ms,
            format: clone_opt(&self.format),
            output: clone_opt(&self.output),
        }
    }
}

fn clone_opt(o: &Option<String>) -> (r: Option<String>)
    ensures
        r == *o,
{
    match o {
        Some(s) => Some(s.clone()),
        None => None,
    }
}

#[derive(Debug, Clone, PartialEq, Eq)]
pub struct HelpWorkflowStep {
    pub command: String,
    pub description: String,
}

#[derive(Debug, Clone, PartialEq, Eq)]
pub struct HelpCommandSummary {
    pub name: String,
    pub description: String,
}

#[derive(Debug, Clone, PartialEq, Eq)]
pub struct HelpExample {
    pub description: String,
    pub command: String,
}

/// The help document (`tendril` with no command).
#[derive(Debug, Clone, PartialEq, Eq)]
pub struct HelpOutput {
    pub help: String,
    pub workflow_hint: String,
    pub workflow_steps: Vec<HelpWorkflowStep>,
    pub commands: Vec<HelpCommandSummary>,
    pub examples: Vec<HelpExample>,
    pub notes: Vec<String>,
}

#[derive(Debug, Clone, PartialEq, Eq)]
pub struct ListenExecutionStatus {
    pub status: String,
    pub artifact_available: bool,
    pub artifact: Option<ListenArtifact>,
    pub notes: Vec<String>,
}

#[derive(Debug, Clone, PartialEq, Eq)]
pub struct ListenResponse {
    pub request: ListenInput,
    pub adapter: AdapterInfo,
    pub capability: AudioCapabilityReport,
    pub execution: ListenExecutionStatus,
}

// ---------------------------------------------------------------------------
// Help
// ---------------------------------------------------------------------------
/// The workflow steps: command and description.
pub open spec fn help_steps() -> Seq<(Seq<char>, Seq<char>)> {
    seq![
        ("tendril list --json"@, "Discover actionable window and display targets."@),
        ("tendril --remote me@box list --json"@, "Discover windows/displays on a remote desktop over SSH with session auto-detection."@),
        ("tendril --window <id> list-elements --json"@, "Discover clickable UI elements without choosing screenshot pixels."@),
        ("tendril --window <id> capture --json"@, "Capture target state and keep resize metadata in JSON."@),
        ("tendril --window <id> capture -o /tmp/screen.png"@, "Save the captured image directly to a file."@),
        ("tendril --window <id> run 'send(\"hello\")'"@, "Execute text or input sequences against the chosen target."@),
        ("tendril clipboard get --json"@, "Read text copied by a browser or app from the Linux/X11 clipboard selection."@),
        ("tendril --wsl-tunnel list --json"@, "Discover Windows-host targets from WSL by proxying to the Windows tendril.exe."@),
        ("tendril --android <serial> list --json"@, "Discover Android device or emulator targets through adb."@),
    ]
}

/// The commands: name and description.
pub open spec fn help_commands() -> Seq<(Seq<char>, Seq<char>)> {
    seq![
        ("list"@, "Discover windows and displays."@),
        ("list-elements"@, "Discover lower-level UI elements for target-aware control."@),
        ("capture"@, "Capture a screenshot from a window or display target."@),
        ("run"@, "Execute text or input sequences against a target."@),
        ("clipboard"@, "Read or serve Linux/X11 text selections for deterministic browser↔OS clipboard transfer."@),
        ("alias"@, "Emit a shell helper that pre-fills --window or --display."@),
        ("listen"@, "Probe supported audio capture paths."@),
        ("update"@, "Download and install a Tendril release binary."@),
        ("version"@, "Inspect or bump the workspace release version."@),
        ("mcp stdio"@, "Serve Tendril over MCP stdio."@),
    ]
}

/// The examples: description and command.
pub open spec fn help_examples() -> Seq<(Seq<char>, Seq<char>)> {
    seq![
        ("Inspect targets"@, "tendril list --json"@),
        ("Inspect targets on a remote host over SSH"@, "tendril --remote me@box list --json"@),
        ("Inspect target elements"@, "tendril --window <id> list-elements --json"@),
        ("Click a discovered element"@, "tendril --window <id> run 'click(33)'"@),
        ("Capture a chosen target"@, "tendril --window <id> capture --json"@),
        ("Save a capture directly to a file"@, "tendril --display <id> capture -o /tmp/screen.png"@),
        ("Capture to file and get JSON metadata"@, "tendril --window <id> capture --json -o /tmp/screen.png"@),
        ("Read text copied from a browser through the X11 clipboard"@, "tendril clipboard get --json"@),
        ("Serve text for another X11 app to paste"@, "tendril clipboard set --text 'hello from OS' --serve-ms 8000"@),
        ("Create a reusable wrapper for repeated targeting"@, "eval \"$(tendril --window <id> alias --name desk)\""@),
    ]
}

/// The notes.
pub open spec fn help_notes() -> Seq<Seq<char>> {
    seq![
        "Use --json for machine-readable success and error envelopes."@,
        "Use --remote user@host to proxy the invocation over SSH; Linux remotes bootstrap DISPLAY/WAYLAND_DISPLAY/XDG_RUNTIME_DIR when an SSH login did not inherit the graphical session."@,
        "Use -o/--output on capture to save the decoded image directly to a file; combine with --json to also get the JSON envelope."@,
        "Alias helpers are plain shell wrappers around explicit tendril arguments; Tendril does not store session state."@,
        "Element ids are snapshot-local and should be refreshed with list-elements when the UI changes."@,
        "On Linux/X11, clipboard selections are owned by a live process; `clipboard set` intentionally stays alive for --serve-ms so browser/terminal paste requests can complete deterministically."@,
    ]
}

fn help_step_list() -> (r: Vec<HelpWorkflowStep>)
    ensures
        r@.len() == help_steps().len(),
        forall|i: int| 0 <= i < r@.len() ==> (#[trigger] r@[i]).command@ == help_steps()[i].0 && r@[i].description@ == help_steps()[i].1,
{
    let mut r: Vec<HelpWorkflowStep> = Vec::new();
    r.push(HelpWorkflowStep { command: owned("tendril list --json"), description: owned("Discover actionable window and display targets.") });
    r.push(HelpWorkflowStep { command: owned("tendril --remote me@box list --json"), description: owned("Discover windows/displays on a remote desktop over SSH with session auto-detection.") });
    r.push(HelpWorkflowStep { command: owned("tendril --window <id> list-elements --json"), description: owned("Discover clickable UI elements without choosing screenshot pixels.") });
    r.push(HelpWorkflowStep { command: owned("tendril --window <id> capture --json"), description: owned("Capture target state and keep resize metadata in JSON.") });
    r.push(HelpWorkflowStep { command: owned("tendril --window <id> capture -o /tmp/screen.png"), description: owned("Save the captured image directly to a file.") });
    r.push(HelpWorkflowStep { command: owned("tendril --window <id> run 'send(\"hello\")'"), description: owned("Execute text or input sequences against the chosen target.") });
    r.push(HelpWorkflowStep { command: owned("tendril clipboard get --json"), description: owned("Read text copied by a browser or app from the Linux/X11 clipboard selection.") });
    r.push(HelpWorkflowStep { command: owned("tendril --wsl-tunnel list --json"), description: owned("Discover Windows-host targets from WSL by proxying to the Windows tendril.exe.") });
    r.push(HelpWorkflowStep { command: owned("tendril --android <serial> list --json"), description: owned("Discover Android device or emulator targets through adb.") });
    r
}

fn help_command_list() -> (r: Vec<HelpCommandSummary>)
    ensures
        r@.len() == help_commands().len(),
        forall|i: int| 0 <= i < r@.len() ==> (#[trigger] r@[i]).name@ == help_commands()[i].0 && r@[i].description@ == help_commands()[i].1,
{
    let mut r: Vec<HelpCommandSummary> = Vec::new();
    r.push(HelpCommandSummary { name: owned("list"), description: owned("Discover windows and displays.") });
    r.push(HelpCommandSummary { name: owned("list-elements"), description: owned("Discover lower-level UI elements for target-aware control.") });
    r.push(HelpCommandSummary { name: owned("capture"), description: owned("Capture a screenshot from a window or display target.") });
    r.push(HelpCommandSummary { name: owned("run"), description: owned("Execute text or input sequences against a target.") });
    r.push(HelpCommandSummary { name: owned("clipboard"), description: owned("Read or serve Linux/X11 text selections for deterministic browser↔OS clipboard transfer.") });
    r.push(HelpCommandSummary { name: owned("alias"), description: owned("Emit a shell helper that pre-fills --window or --display.") });
    r.push(HelpCommandSummary { name: owned("listen"), description: owned("Probe supported audio capture paths.") });
    r.push(HelpCommandSummary { name: owned("update"), description: owned("Download and install a Tendril release binary.") });
    r.push(HelpCommandSummary { name: owned("version"), description: owned("Inspect or bump the workspace release version.") });
    r.push(HelpCommandSummary { name: owned("mcp stdio"), description: owned("Serve Tendril over MCP stdio.") });
    r
}

fn help_example_list() -> (r: Vec<HelpExample>)
    ensures
        r@.len() == help_examples().len(),
        forall|i: int| 0 <= i < r@.len() ==> (#[trigger] r@[i]).description@ == help_examples()[i].0 && r@[i].command@ == help_examples()[i].1,
{
    let mut r: Vec<HelpExample> = Vec::new();
    r.push(HelpExample { description: owned("Inspect targets"), command: owned("tendril list --json") });
    r.push(HelpExample { description: owned("Inspect targets on a remote host over SSH"), command: owned("tendril --remote me@box list --json") });
    r.push(HelpExample { description: owned("Inspect target elements"), command: owned("tendril --window <id> list-elements --json") });
    r.push(HelpExample { description: owned("Click a discovered element"), command: owned("tendril --window <id> run 'click(33)'") });
    r.push(HelpExample { description: owned("Capture a chosen target"), command: owned("tendril --window <id> capture --json") });
    r.push(HelpExample { description: owned("Save a capture directly to a file"), command: owned("tendril --display <id> capture -o /tmp/screen.png") });
    r.push(HelpExample { description: owned("Capture to file and get JSON metadata"), command: owned("tendril --window <id> capture --json -o /tmp/screen.png") });
    r.push(HelpExample { description: owned("Read text copied from a browser through the X11 clipboard"), command: owned("tendril clipboard get --json") });
    r.push(HelpExample { description: owned("Serve text for another X11 app to paste"), command: owned("tendril clipboard set --text 'hello from OS' --serve-ms 8000") });
    r.push(HelpExample { description: owned("Create a reusable wrapper for repeated targeting"), command: owned("eval \"$(tendril --window <id> alias --name desk)\"") });
    r
}

fn help_note_list() -> (r: Vec<String>)
    ensures
        strings_view(r@) == help_notes(),
{
    let mut r: Vec<String> = Vec::new();
    r.push(owned("Use --json for machine-readable success and error envelopes."));
    r.push(owned("Use --remote user@host to proxy the invocation over SSH; Linux remotes bootstrap DISPLAY/WAYLAND_DISPLAY/XDG_RUNTIME_DIR when an SSH login did not inherit the graphical session."));
    r.push(owned("Use -o/--output on capture to save the decoded image directly to a file; combine with --json to also get the JSON envelope."));
    r.push(owned("Alias helpers are plain shell wrappers around explicit tendril arguments; Tendril does not store session state."));
    r.push(owned("Element ids are snapshot-local and should be refreshed with list-elements when the UI changes."));
    r.push(owned("On Linux/X11, clipboard selections are owned by a live process; `clipboard set` intentionally stays alive for --serve-ms so browser/terminal paste requests can complete deterministically."));
    assert(strings_view(r@) =~= help_notes());
    r
}

/// The help document: the agent help text, the workflow hint, the
/// workflow steps, the commands, examples and notes.
pub fn build_help_output() -> (h: HelpOutput)
    ensures
        h.help@ == crate::cli::agent_help_text(),
        h.workflow_hint@ == crate::cli::WORKFLOW_HINT@,
        h.workflow_steps@.len() == help_steps().len(),
        forall|i: int| 0 <= i < h.workflow_steps@.len() ==> (#[trigger] h.workflow_steps@[i]).command@ == help_steps()[i].0
            && h.workflow_steps@[i].description@ == help_steps()[i].1,
        h.commands@.len() == help_commands().len(),
        forall|i: int| 0 <= i < h.commands@.len() ==> (#[trigger] h.commands@[i]).name@ == help_commands()[i].0
            && h.commands@[i].description@ == help_commands()[i].1,
        h.examples@.len() == help_examples().len(),
        forall|i: int| 0 <= i < h.examples@.len() ==> (#[trigger] h.examples@[i]).description@ == help_examples()[i].0
            && h.examples@[i].command@ == help_examples()[i].1,
        strings_view(h.notes@) == help_notes(),
{
    HelpOutput {
        help: TendrilCli::agent_help(),
        workflow_hint: owned(crate::cli::WORKFLOW_HINT),
        workflow_steps: help_step_list(),
        commands: help_command_list(),
        examples: help_example_list(),
        notes: help_note_list(),
    }
}

// ---------------------------------------------------------------------------
// Command-line scope
// ---------------------------------------------------------------------------

/// The flags that do not apply to the MCP server, as given.
pub open spec fn inherited_flags(cli: TendrilCli) -> Seq<Seq<char>> {
    (if cli.window is Some { seq!["--window"@] } else { seq![] }) + (if cli.display is Some {
        seq!["--display"@]
    } else {
        seq![]
    }) + (if cli.json { seq!["--json"@] } else { seq![] })
}

/// The MCP server takes its target scope and output format from each tool
/// request, so the top-level `--window`, `--display` and `--json` flags are
/// rejected rather than silently ignored.
pub fn reject_inherited_target_flags_for_mcp(cli: &TendrilCli) -> (r: Result<(), TendrilError>)
    ensures
        r is Ok <==> inherited_flags(*cli).len() == 0,
        r matches Err(e) ==> {
            &&& e.is_structured()
            &&& e.category_spec() == ErrorCategory::Validation
            &&& e.code_spec() == "validation_failed"@
            &&& e.message_spec() == "the MCP server does not honor top-level CLI flag(s) "@ + joined(
                inherited_flags(*cli),
                ", "@,
            ) + "; pass target scope and output formatting in each MCP tool request payload instead"@
        },
{
    let mut offending: Vec<String> = Vec::new();
    if cli.window.is_some() {
        offending.push(owned("--window"));
    }
    if cli.display.is_some() {
        offending.push(owned("--display"));
    }
    if cli.json {
        offending.push(owned("--json"));
    }
    assert(strings_view(offending@) =~= inherited_flags(*cli));
    if offending.len() == 0 {
        return Ok(());
    }
    let mut m = owned("the MCP server does not honor top-level CLI flag(s) ");
    let j = text::join_strings(&offending, ", ");
    text::push_str(&mut m, j.as_str());
    text::push_str(&mut m, "; pass target scope and output formatting in each MCP tool request payload instead");
    Err(TendrilError::validation(m))
}

/// The target scope the top-level flags give.
pub fn target_scope_from_cli(cli: &TendrilCli) -> (t: TargetScope)
    ensures
        t.window == cli.window && t.display == cli.display && t.camera is None && t.x11_display is None,
{
    TargetScope { window: clone_opt(&cli.window), display: clone_opt(&cli.display), camera: None, x11_display: None }
}

/// The selector a scope names: a window or a display, not both.
pub open spec fn selected_spec(t: TargetScope) -> Option<Option<TargetSelector>> {
    match (t.window, t.display) {
        (Some(_), Some(_)) => None,
        (Some(id), None) => Some(Some(TargetSelector::Window { id })),
        (None, Some(id)) => Some(Some(TargetSelector::Display { id })),
        (None, None) => Some(None),
    }
}

pub open spec fn both_targets_message() -> Seq<char> {
    "choose either `--window` or `--display`, but not both"@
}

/// The selector of a scope, failing when both a window and a display are given.
pub fn selected_target(target: &TargetScope) -> (r: Result<Option<TargetSelector>, TendrilError>)
    ensures
        match selected_spec(*target) {
            Some(sel) => r == Ok::<Option<TargetSelector>, TendrilError>(sel),
            None => r matches Err(e) && is_invalid(e, "invalid_target_selector"@, "target"@, both_targets_message()),
        },
{
    match (&target.window, &target.display) {
        (Some(_), Some(_)) => Err(
            TendrilError::invalid(
                owned("choose either `--window` or `--display`, but not both"),
                "invalid_target_selector",
                "target",
            ),
        ),
        (Some(id), None) => Ok(Some(TargetSelector::Window { id: id.clone() })),
        (None, Some(id)) => Ok(Some(TargetSelector::Display { id: id.clone() })),
        (None, None) => Ok(None),
    }
}

/// An optional selector, for `list-elements`.
pub fn optional_target(target: &TargetScope) -> (r: Result<Option<TargetSelector>, TendrilError>)
    ensures
        match selected_spec(*target) {
            Some(sel) => r == Ok::<Option<TargetSelector>, TendrilError>(sel),
            None => r matches Err(e) && is_invalid(e, "invalid_list_elements_input"@, "target"@, both_targets_message()),
        },
{
    match selected_target(target) {
        Ok(sel) => Ok(sel),
        Err(e) => Err(e.with_code("invalid_list_elements_input").with_field("target")),
    }
}

/// The validation code of a command's input.
pub open spec fn input_code(command: Seq<char>) -> Seq<char> {
    if command == "capture"@ {
        "invalid_capture_input"@
    } else if command == "run"@ {
        "invalid_run_input"@
    } else if command == "alias"@ {
        "invalid_alias_input"@
    } else {
        "invalid_input"@
    }
}

fn input_code_exec(command: &str) -> (r: &'static str)
    ensures
        r@ == input_code(command@),
{
    let v = text::chars_of(command);
    if text::is(v.as_slice(), "capture") {
        "invalid_capture_input"
    } else if text::is(v.as_slice(), "run") {
        "invalid_run_input"
    } else if text::is(v.as_slice(), "alias") {
        "invalid_alias_input"
    } else {
        "invalid_input"
    }
}

/// A required selector: exactly one of a window or a display.
pub fn required_target(target: &TargetScope, command: &str) -> (r: Result<TargetSelector, TendrilError>)
    ensures
        match selected_spec(*target) {
            Some(Some(sel)) => r == Ok::<TargetSelector, TendrilError>(sel),
            Some(None) => r matches Err(e) && is_invalid(
                e,
                input_code(command@),
                "target"@,
                command@ + " requires exactly one of `--window <id>` or `--display <id>`"@,
            ),
            None => r matches Err(e) && is_invalid(e, input_code(command@), "target"@, both_targets_message()),
        },
{
    let code = input_code_exec(command);
    match selected_target(target) {
        Ok(Some(sel)) => Ok(sel),
        Ok(None) => {
            let mut m = owned(command);
            text::push_str(&mut m, " requires exactly one of `--window <id>` or `--display <id>`");
            Err(TendrilError::invalid(m, code, "target"))
        },
        Err(e) => Err(e.with_code(code)),
    }
}

// ---------------------------------------------------------------------------
// Option values
// ---------------------------------------------------------------------------

/// `png`, or `jpeg`/`jpg`.
pub fn parse_image_format(value: &str) -> (r: Result<ImageFormat, TendrilError>)
    ensures
        value@ == "png"@ ==> r == Ok::<ImageFormat, TendrilError>(ImageFormat::Png),
        (value@ == "jpeg"@ || value@ == "jpg"@) ==> r == Ok::<ImageFormat, TendrilError>(ImageFormat::Jpeg),
        !(value@ == "png"@ || value@ == "jpeg"@ || value@ == "jpg"@) ==> (r matches Err(e) && is_invalid(
            e,
            "invalid_capture_input"@,
            "format"@,
            "unsupported image format `"@ + value@ + "`; expected `png` or `jpeg`"@,
        )),
{
    proof {
        reveal_strlit("png");
        reveal_strlit("jpeg");
        reveal_strlit("jpg");
        assert("png"@.len() == 3 && "jpeg"@.len() == 4 && "jpg"@.len() == 3);
        assert("png"@[0] == 'p' && "jpg"@[0] == 'j');
    }
    let v = text::chars_of(value);
    if text::is(v.as_slice(), "png") {
        Ok(ImageFormat::Png)
    } else if text::is(v.as_slice(), "jpeg") || text::is(v.as_slice(), "jpg") {
        Ok(ImageFormat::Jpeg)
    } else {
        let mut m = owned("unsupported image format `");
        text::push_str(&mut m, value);
        text::push_str(&mut m, "`; expected `png` or `jpeg`");
        Err(TendrilError::invalid(m, "invalid_capture_input", "format"))
    }
}

/// `wav`, `flac` or `opus`.
pub fn parse_audio_format(value: &str) -> (r: Result<AudioFormat, TendrilError>)
    ensures
        value@ == "wav"@ ==> r == Ok::<AudioFormat, TendrilError>(AudioFormat::Wav),
        value@ == "flac"@ ==> r == Ok::<AudioFormat, TendrilError>(AudioFormat::Flac),
        value@ == "opus"@ ==> r == Ok::<AudioFormat, TendrilError>(AudioFormat::Opus),
        !(value@ == "wav"@ || value@ == "flac"@ || value@ == "opus"@) ==> (r matches Err(e) && is_invalid(
            e,
            "invalid_listen_input"@,
            "format"@,
            "unsupported audio format `"@ + value@ + "`; expected `wav`, `flac`, or `opus`"@,
        )),
{
    proof {
        reveal_strlit("wav");
        reveal_strlit("flac");
        reveal_strlit("opus");
        assert("wav"@.len() == 3 && "flac"@.len() == 4 && "opus"@.len() == 4);
        assert("flac"@[0] == 'f' && "opus"@[0] == 'o');
    }
    let v = text::chars_of(value);
    if text::is(v.as_slice(), "wav") {
        Ok(AudioFormat::Wav)
    } else if text::is(v.as_slice(), "flac") {
        Ok(AudioFormat::Flac)
    } else if text::is(v.as_slice(), "opus") {
        Ok(AudioFormat::Opus)
    } else {
        let mut m = owned("unsupported audio format `");
        text::push_str(&mut m, value);
        text::push_str(&mut m, "`; expected `wav`, `flac`, or `opus`");
        Err(TendrilError::invalid(m, "invalid_listen_input", "format"))
    }
}

/// A shell name without ASCII case: bash, zsh, fish, powershell or pwsh.
pub fn parse_shell(value: &str) -> (r: Result<ShellKind, TendrilError>)
    ensures
        ({
            let l = lower(value@);
            &&& l == "bash"@ ==> r == Ok::<ShellKind, TendrilError>(ShellKind::Bash)
            &&& l == "zsh"@ ==> r == Ok::<ShellKind, TendrilError>(ShellKind::Zsh)
            &&& l == "fish"@ ==> r == Ok::<ShellKind, TendrilError>(ShellKind::Fish)
            &&& (l == "powershell"@ || l == "pwsh"@) ==> r == Ok::<ShellKind, TendrilError>(ShellKind::PowerShell)
            &&& !(l == "bash"@ || l == "zsh"@ || l == "fish"@ || l == "powershell"@ || l == "pwsh"@) ==> (r matches Err(
                e,
            ) && is_invalid(
                e,
                "invalid_alias_input"@,
                "shell"@,
                "unsupported shell `"@ + l + "`; expected bash, zsh, fish, or powershell"@,
            ))
        }),
{
    proof {
        reveal_strlit("bash");
        reveal_strlit("zsh");
        reveal_strlit("fish");
        reveal_strlit("powershell");
        reveal_strlit("pwsh");
        assert("bash"@.len() == 4 && "zsh"@.len() == 3 && "fish"@.len() == 4 && "powershell"@.len() == 10
            && "pwsh"@.len() == 4);
        assert("bash"@[0] == 'b' && "fish"@[0] == 'f' && "pwsh"@[0] == 'p');
    }
    let l = text::to_lower(text::chars_of(value).as_slice());
    if text::is(l.as_slice(), "bash") {
        Ok(ShellKind::Bash)
    } else if text::is(l.as_slice(), "zsh") {
        Ok(ShellKind::Zsh)
    } else if text::is(l.as_slice(), "fish") {
        Ok(ShellKind::Fish)
    } else if text::is(l.as_slice(), "powershell") || text::is(l.as_slice(), "pwsh") {
        Ok(ShellKind::PowerShell)
    } else {
        let mut m = owned("unsupported shell `");
        text::push_chars(&mut m, l.as_slice());
        text::push_str(&mut m, "`; expected bash, zsh, fish, or powershell");
        Err(TendrilError::invalid(m, "invalid_alias_input", "shell"))
    }
}

// ---------------------------------------------------------------------------
// Permissions
// ---------------------------------------------------------------------------

/// The permissions the adapter reports.
#[derive(Debug, Clone, PartialEq, Eq)]
pub struct PermissionsReport {
    pub adapter: AdapterInfo,
    pub permissions: Vec<PermissionStatus>,
}

/// The outcome of `permissions --request`, with the status afterwards.
#[derive(Debug, Clone, PartialEq, Eq)]
pub struct PermissionRequestReport {
    pub adapter: AdapterInfo,
    pub requested: Vec<PermissionRequestOutcome>,
    pub permissions: Vec<PermissionStatus>,
}

pub open spec fn permission_kind_text(kind: PermissionKind) -> Seq<char> {
    match kind {
        PermissionKind::ScreenCapture => "Screen Recording"@,
        PermissionKind::Accessibility => "Accessibility (input control)"@,
        PermissionKind::Microphone => "Microphone"@,
        PermissionKind::Camera => "Camera"@,
    }
}

pub fn permission_kind_label(kind: PermissionKind) -> (r: &'static str)
    ensures
        r@ == permission_kind_text(kind),
{
    match kind {
        PermissionKind::ScreenCapture => "Screen Recording",
        PermissionKind::Accessibility => "Accessibility (input control)",
        PermissionKind::Microphone => "Microphone",
        PermissionKind::Camera => "Camera",
    }
}

pub open spec fn permission_state_text(state: PermissionState) -> Seq<char> {
    match state {
        PermissionState::Granted => "granted"@,
        PermissionState::NotRequired => "not required"@,
        PermissionState::Unknown => "unknown"@,
        PermissionState::Denied => "denied"@,
    }
}

pub fn permission_state_label(state: PermissionState) -> (r: &'static str)
    ensures
        r@ == permission_state_text(state),
{
    match state {
        PermissionState::Granted => "granted",
        PermissionState::NotRequired => "not required",
        PermissionState::Unknown => "unknown",
        PermissionState::Denied => "denied",
    }
}

/// The lines of one permission status: its state, its summary (when not
/// empty) and its suggested action (when any).
pub open spec fn status_lines(p: PermissionStatus) -> Seq<char> {
    "- "@ + permission_kind_text(p.permission) + ": "@ + permission_state_text(p.state) + "\n"@ + (if p.summary@.len()
        > 0 {
        "    "@ + p.summary@ + "\n"@
    } else {
        seq![]
    }) + match p.suggested_action {
        Some(a) => "    -> "@ + a@ + "\n"@,
        None => seq![],
    }
}

pub open spec fn all_status_lines(ps: Seq<PermissionStatus>) -> Seq<char>
    decreases ps.len(),
{
    if ps.len() == 0 {
        seq![]
    } else {
        all_status_lines(ps.drop_last()) + status_lines(ps.last())
    }
}

pub open spec fn platform_line(adapter: AdapterInfo) -> Seq<char> {
    "platform: "@ + platform_name_spec(adapter.platform) + " ("@ + session_name_spec(adapter.session) + " session)"@
}

fn push_platform_line(r: &mut String, adapter: &AdapterInfo)
    ensures
        final(r)@ == old(r)@ + platform_line(*adapter),
{
    text::push_str(r, "platform: ");
    text::push_str(r, crate::platform::platform_name(adapter.platform));
    text::push_str(r, " (");
    text::push_str(r, crate::platform::session_name(adapter.session));
    text::push_str(r, " session)");
}

fn push_status(r: &mut String, st: &PermissionStatus)
    ensures
        final(r)@ == old(r)@ + status_lines(*st),
{
    let ghost start = r@;
    text::push_str(r, "- ");
    text::push_str(r, permission_kind_label(st.permission));
    text::push_str(r, ": ");
    text::push_str(r, permission_state_label(st.state));
    text::push_str(r, "\n");
    if !st.summary.as_str().is_empty() {
        text::push_str(r, "    ");
        text::push_str(r, st.summary.as_str());
        text::push_str(r, "\n");
    }
    match &st.suggested_action {
        Some(a) => {
            text::push_str(r, "    -> ");
            text::push_str(r, a.as_str());
            text::push_str(r, "\n");
        },
        None => {},
    }
    assert(r@ =~= start + status_lines(*st));
}

/// The human rendering of the permission report.
pub fn render_permissions_human(report: &PermissionsReport) -> (r: String)
    ensures
        r@ == platform_line(report.adapter) + "\n"@ + if report.permissions@.len() == 0 {
            "no platform permissions are required\n"@
        } else {
            all_status_lines(report.permissions@)
        },
{
    let mut r = String::new();
    push_platform_line(&mut r, &report.adapter);
    text::push_str(&mut r, "\n");
    if report.permissions.len() == 0 {
        text::push_str(&mut r, "no platform permissions are required\n");
        return r;
    }
    let ghost head = r@;
    let ghost ps = report.permissions@;
    let mut i: usize = 0;
    assert(ps.take(0) =~= Seq::<PermissionStatus>::empty());
    while i < report.permissions.len()
        invariant
            ps == report.permissions@,
            i <= ps.len(),
            r@ == head + all_status_lines(ps.take(i as int)),
        decreases report.permissions.len() - i,
    {
        let st = &report.permissions[i];
        push_status(&mut r, st);
        proof {
            assert(ps.take(i + 1).drop_last() =~= ps.take(i as int));
            assert(ps.take(i + 1).last() == *st);
            assert(r@ =~= head + all_status_lines(ps.take(i + 1)));
        }
        i += 1;
    }
    assert(ps.take(i as int) =~= ps);
    r
}

pub open spec fn outcome_lines(o: PermissionRequestOutcome) -> Seq<char> {
    "- "@ + permission_kind_text(o.permission) + ": "@ + permission_state_text(o.state_after) + " (after request)\n"@
        + action_lines(text::strings_view(o.actions@)) + match o.note {
        Some(n) => "    note: "@ + n@ + "\n"@,
        None => seq![],
    }
}

pub open spec fn action_lines(actions: Seq<Seq<char>>) -> Seq<char>
    decreases actions.len(),
{
    if actions.len() == 0 {
        seq![]
    } else {
        action_lines(actions.drop_last()) + "    * "@ + actions.last() + "\n"@
    }
}

pub open spec fn all_outcome_lines(os: Seq<PermissionRequestOutcome>) -> Seq<char>
    decreases os.len(),
{
    if os.len() == 0 {
        seq![]
    } else {
        all_outcome_lines(os.drop_last()) + outcome_lines(os.last())
    }
}

pub open spec fn current_status_lines(ps: Seq<PermissionStatus>) -> Seq<char>
    decreases ps.len(),
{
    if ps.len() == 0 {
        seq![]
    } else {
        current_status_lines(ps.drop_last()) + "  - "@ + permission_kind_text(ps.last().permission) + ": "@
            + permission_state_text(ps.last().state) + "\n"@
    }
}

fn push_outcome(r: &mut String, o: &PermissionRequestOutcome)
    ensures
        final(r)@ == old(r)@ + outcome_lines(*o),
{
    let ghost start = r@;
    text::push_str(r, "- ");
    text::push_str(r, permission_kind_label(o.permission));
    text::push_str(r, ": ");
    text::push_str(r, permission_state_label(o.state_after));
    text::push_str(r, " (after request)\n");
    let ghost head = r@;
    let ghost acts = text::strings_view(o.actions@);
    let mut i: usize = 0;
    assert(acts.take(0) =~= Seq::<Seq<char>>::empty());
    while i < o.actions.len()
        invariant
            acts == text::strings_view(o.actions@),
            i <= acts.len(),
            r@ == head + action_lines(acts.take(i as int)),
        decreases o.actions.len() - i,
    {
        text::push_str(r, "    * ");
        text::push_str(r, o.actions[i].as_str());
        text::push_str(r, "\n");
        proof {
            assert(acts.take(i + 1).drop_last() =~= acts.take(i as int));
            assert(r@ =~= head + action_lines(acts.take(i + 1)));
        }
        i += 1;
    }
    assert(acts.take(i as int) =~= acts);
    match &o.note {
        Some(n) => {
            text::push_str(r, "    note: ");
            text::push_str(r, n.as_str());
            text::push_str(r, "\n");
        },
        None => {},
    }
    assert(r@ =~= start + outcome_lines(*o));
}

/// The human rendering of a permission request.
pub fn render_permission_request_human(report: &PermissionRequestReport) -> (r: String)
    ensures
        r@ == platform_line(report.adapter) + " - permission request flow\n"@ + all_outcome_lines(report.requested@)
            + "\ncurrent status:\n"@ + (if report.permissions@.len() == 0 {
            "  no platform permissions are required\n"@
        } else {
            seq![]
        }) + current_status_lines(report.permissions@),
{
    let mut r = String::new();
    push_platform_line(&mut r, &report.adapter);
    text::push_str(&mut r, " - permission request flow\n");
    let ghost head = r@;
    let ghost os = report.requested@;
    let mut i: usize = 0;
    assert(os.take(0) =~= Seq::<PermissionRequestOutcome>::empty());
    while i < report.requested.len()
        invariant
            os == report.requested@,
            i <= os.len(),
            r@ == head + all_outcome_lines(os.take(i as int)),
        decreases report.requested.len() - i,
    {
        push_outcome(&mut r, &report.requested[i]);
        proof {
            assert(os.take(i + 1).drop_last() =~= os.take(i as int));
            assert(r@ =~= head + all_outcome_lines(os.take(i + 1)));
        }
        i += 1;
    }
    assert(os.take(i as int) =~= os);
    text::push_str(&mut r, "\ncurrent status:\n");
    if report.permissions.len() == 0 {
        text::push_str(&mut r, "  no platform permissions are required\n");
    }
    let ghost mid = r@;
    let ghost ps = report.permissions@;
    let mut i: usize = 0;
    assert(ps.take(0) =~= Seq::<PermissionStatus>::empty());
    while i < report.permissions.len()
        invariant
            ps == report.permissions@,
            i <= ps.len(),
            r@ == mid + current_status_lines(ps.take(i as int)),
        decreases report.permissions.len() - i,
    {
        let st = &report.permissions[i];
        text::push_str(&mut r, "  - ");
        text::push_str(&mut r, permission_kind_label(st.permission));
        text::push_str(&mut r, ": ");
        text::push_str(&mut r, permission_state_label(st.state));
        text::push_str(&mut r, "\n");
        proof {
            assert(ps.take(i + 1).drop_last() =~= ps.take(i as int));
            assert(ps.take(i + 1).last() == *st);
            assert(r@ =~= mid + current_status_lines(ps.take(i + 1)));
        }
        i += 1;
    }
    assert(ps.take(i as int) =~= ps);
    r
}

pub open spec fn no_prompt_note() -> Seq<char> {
    "On this platform, grant capture/input permissions through the OS settings surface reported by `tendril permissions`."@
}

/// Where no programmatic request flow exists, `--request` reports that no
/// prompt was fired rather than doing nothing.
pub fn unsupported_permission_request(platform: PlatformKind) -> (r: Vec<PermissionRequestOutcome>)
    ensures
        r@.len() == 1,
        r@[0].permission == PermissionKind::ScreenCapture,
        r@[0].state_after == PermissionState::Unknown,
        text::strings_view(r@[0].actions@) == seq![
            "--request is only implemented on macOS; no prompt was fired on "@ + platform_name_spec(platform),
        ],
        r@[0].note matches Some(n) && n@ == no_prompt_note(),
{
    let mut action = owned("--request is only implemented on macOS; no prompt was fired on ");
    text::push_str(&mut action, crate::platform::platform_name(platform));
    let mut actions: Vec<String> = Vec::new();
    actions.push(action);
    assert(text::strings_view(actions@) =~= seq![
        "--request is only implemented on macOS; no prompt was fired on "@ + platform_name_spec(platform),
    ]);
    let mut r: Vec<PermissionRequestOutcome> = Vec::new();
    r.push(
        PermissionRequestOutcome {
            permission: PermissionKind::ScreenCapture,
            actions,
            state_after: PermissionState::Unknown,
            note: Some(
                owned(
                    "On this platform, grant capture/input permissions through the OS settings surface reported by `tendril permissions`.",
                ),
            ),
        },
    );
    r
}

// ---------------------------------------------------------------------------
// Inputs from command options
// ---------------------------------------------------------------------------

/// The image format asked for, or the configured one; `None` when the
/// name is unknown.
pub open spec fn capture_format(command: CaptureCommand, config: TendrilConfig) -> Option<ImageFormat> {
    match command.format {
        None => Some(config.capture.format),
        Some(f) => if f@ == "png"@ {
            Some(ImageFormat::Png)
        } else if f@ == "jpeg"@ || f@ == "jpg"@ {
            Some(ImageFormat::Jpeg)
        } else {
            None
        },
    }
}

pub open spec fn or_u32(a: Option<u32>, b: Option<u32>) -> Option<u32> {
    match a {
        Some(x) => Some(x),
        None => b,
    }
}

pub open spec fn or_u64(a: Option<u64>, b: Option<u64>) -> Option<u64> {
    match a {
        Some(x) => Some(x),
        None => b,
    }
}

/// What `CaptureInput::validate` accepts.
pub open spec fn capture_input_ok(i: CaptureInput) -> bool {
    i.max_width != Some(0u32) && i.max_height != Some(0u32) && i.compression <= 100 && !crate::model::identifier_rejected(
        i.target.id_spec(),
    ) && i.timeout_ms != Some(0u64)
}

/// The capture input: the command's options over the configured defaults,
/// validated.
pub fn build_capture_input(target: &TargetScope, command: &CaptureCommand, config: &TendrilConfig) -> (r: Result<CaptureInput, TendrilError>)
    ensures
        match selected_spec(*target) {
            Some(Some(sel)) => match capture_format(*command, *config) {
                Some(format) => {
                    let candidate = CaptureInput {
                        target: sel,
                        max_width: or_u32(command.max_width, config.capture.max_width),
                        max_height: or_u32(command.max_height, config.capture.max_height),
                        format,
                        compression: match command.compression {
                            Some(c) => c,
                            None => config.capture.compression,
                        },
                        timeout_ms: or_u64(command.timeout_ms, config.capture.timeout_ms),
                    };
                    &&& r is Ok <==> capture_input_ok(candidate)
                    &&& r matches Ok(i) ==> i == candidate
                },
                None => r matches Err(e) && e.code_spec() == "invalid_capture_input"@,
            },
            _ => r matches Err(e) && e.code_spec() == "invalid_capture_input"@,
        },
{
    let sel = required_target(target, "capture")?;
    proof {
        reveal_strlit("capture");
    }
    let format = match &command.format {
        Some(f) => parse_image_format(f.as_str())?,
        None => config.capture.format,
    };
    let input = CaptureInput {
        target: sel,
        max_width: match command.max_width {
            Some(w) => Some(w),
            None => config.capture.max_width,
        },
        max_height: match command.max_height {
            Some(h) => Some(h),
            None => config.capture.max_height,
        },
        format,
        compression: match command.compression {
            Some(c) => c,
            None => config.capture.compression,
        },
        timeout_ms: match command.timeout_ms {
            Some(t) => Some(t),
            None => config.capture.timeout_ms,
        },
    };
    input.validate()?;
    Ok(input)
}

/// The element listing input: an optional target, validated.
pub fn build_element_list_input(target: &TargetScope, command: &ElementListCommand) -> (r: Result<ElementListInput, TendrilError>)
    ensures
        match selected_spec(*target) {
            Some(sel) => {
                &&& r is Ok <==> (sel matches Some(t) ==> !crate::model::identifier_rejected(t.id_spec()))
                &&& r matches Ok(i) ==> i.target == sel && i.include_offscreen == command.include_offscreen
            },
            None => r matches Err(e) && is_invalid(e, "invalid_list_elements_input"@, "target"@, both_targets_message()),
        },
{
    let sel = optional_target(target)?;
    let input = ElementListInput { target: sel, include_offscreen: command.include_offscreen };
    input.validate()?;
    Ok(input)
}

/// A run input from its parts.
pub open spec fn run_input_of(target: TargetSelector, payload: RunInputPayload, command: RunCommand) -> RunInput {
    RunInput { target, payload, restore_focus: command.restore_focus && !command.no_restore_focus }
}

/// The run input: an input definition is required, then a target; the
/// definition is parsed, focus is restored unless asked not to, and the
/// result validated.
pub fn build_run_input(target: &TargetScope, command: &RunCommand) -> (r: Result<RunInput, TendrilError>)
    ensures
        command.input_definition is None ==> (r matches Err(e) && is_invalid(
            e,
            "invalid_run_input"@,
            "input_definition"@,
            "run requires an input definition"@,
        )),
        command.input_definition is Some ==> match selected_spec(*target) {
            Some(Some(sel)) => r matches Ok(i) ==> i.target == sel && i.restore_focus == (command.restore_focus
                && !command.no_restore_focus),
            _ => r matches Err(e) && e.code_spec() == "invalid_run_input"@,
        },
        command.input_definition matches Some(d) ==> (r matches Ok(i) ==> crate::input::input_definition_result(
            d@,
            Ok(i.payload),
        ) && crate::model::run_input_ok(i)),
        command.input_definition matches Some(d) ==> (selected_spec(*target) matches Some(Some(sel)) ==> (r matches Err(
            e,
        ) ==> crate::input::input_definition_result(d@, Err(e)) || exists|p: RunInputPayload|
            crate::input::input_definition_result(d@, Ok(p)) && !crate::model::run_input_ok(
                #[trigger] run_input_of(sel, p, *command),
            ))),
{
    let definition = match &command.input_definition {
        Some(d) => d,
        None => {
            return Err(
                TendrilError::invalid(owned("run requires an input definition"), "invalid_run_input", "input_definition"),
            );
        },
    };
    proof {
        reveal_strlit("run");
        reveal_strlit("capture");
        assert("run"@.len() == 3 && "capture"@.len() == 7);
    }
    let sel = required_target(target, "run")?;
    let payload = crate::input::parse_input_definition(definition.as_str())?;
    let input = RunInput { target: sel, payload, restore_focus: command.restore_focus && !command.no_restore_focus };
    match input.validate() {
        Ok(()) => Ok(input),
        Err(e) => {
            proof {
                assert(input == run_input_of(input.target, input.payload, *command));
            }
            Err(e)
        },
    }
}

/// The clipboard read input: the selection (default `clipboard`) and the
/// wait (default three seconds), validated.
pub fn build_clipboard_get_input(command: &ClipboardGetCommand) -> (r: Result<ClipboardGetInput, TendrilError>)
    ensures
        match crate::clipboard::parse_selection_spec(crate::text::opt_view(command.selection)) {
            Some(sel) => {
                let timeout = match command.timeout_ms {
                    Some(t) => t,
                    None => crate::clipboard::DEFAULT_CLIPBOARD_TIMEOUT_MS,
                };
                &&& r is Ok <==> timeout != 0
                &&& r matches Ok(i) ==> i.selection == sel && i.timeout_ms == timeout
            },
            None => r matches Err(e) && e.code_spec() == "invalid_clipboard_input"@,
        },
{
    let selection = match &command.selection {
        Some(s) => ClipboardSelection::parse(Some(s.as_str()))?,
        None => ClipboardSelection::parse(None)?,
    };
    let input = ClipboardGetInput {
        selection,
        timeout_ms: match command.timeout_ms {
            Some(t) => t,
            None => crate::clipboard::DEFAULT_CLIPBOARD_TIMEOUT_MS,
        },
    };
    input.validate()?;
    Ok(input)
}

/// The clipboard serve input: the selection (default `clipboard`), the text
/// and the serving time (default five seconds), validated.
pub fn build_clipboard_set_input(command: &ClipboardSetCommand) -> (r: Result<ClipboardSetInput, TendrilError>)
    ensures
        match crate::clipboard::parse_selection_spec(crate::text::opt_view(command.selection)) {
            Some(sel) => {
                &&& r is Ok <==> command.text@.len() > 0
                &&& r matches Ok(i) ==> i.selection == sel && i.text == command.text && i.serve_ms == match command.serve_ms {
                    Some(t) => t,
                    None => crate::clipboard::DEFAULT_CLIPBOARD_SERVE_MS,
                }
            },
            None => r matches Err(e) && e.code_spec() == "invalid_clipboard_input"@,
        },
{
    let selection = match &command.selection {
        Some(s) => ClipboardSelection::parse(Some(s.as_str()))?,
        None => ClipboardSelection::parse(None)?,
    };
    let input = ClipboardSetInput {
        selection,
        text: command.text.clone(),
        serve_ms: match command.serve_ms {
            Some(t) => t,
            None => crate::clipboard::DEFAULT_CLIPBOARD_SERVE_MS,
        },
    };
    input.validate()?;
    Ok(input)
}

/// The source a `--source` value names: its kind and device identifier.
pub open spec fn audio_source_spec(value: Option<Seq<char>>) -> Option<(AudioSourceKind, Option<Seq<char>>)> {
    match value {
        None => Some((AudioSourceKind::System, None)),
        Some(v) => {
            let l = lower(v);
            if l == "system"@ || l == "loopback"@ {
                Some((AudioSourceKind::System, None))
            } else if l == "microphone"@ || l == "mic"@ {
                Some((AudioSourceKind::Microphone, None))
            } else {
                match text::index_of(v, ':') {
                    Some(i) => if lower(v.take(i)) == "device"@ {
                        Some((AudioSourceKind::Device, Some(v.skip(i + 1))))
                    } else {
                        None
                    },
                    None => None,
                }
            }
        },
    }
}

fn audio_source(value: &Option<String>) -> (r: Option<AudioSourceSelector>)
    ensures
        match audio_source_spec(crate::text::opt_view(*value)) {
            Some((kind, id)) => r matches Some(sel) && sel.kind == kind && crate::text::opt_view(sel.id) == id,
            None => r is None,
        },
{
    proof {
        reveal_strlit("system");
        reveal_strlit("loopback");
        reveal_strlit("microphone");
        reveal_strlit("mic");
        assert("system"@.len() == 6 && "loopback"@.len() == 8 && "microphone"@.len() == 10 && "mic"@.len() == 3);
        assert("system"@[0] == 's' && "loopback"@[0] == 'l' && "microphone"@[0] == 'm');
    }
    let v = match value {
        Some(v) => v,
        None => return Some(AudioSourceSelector { kind: AudioSourceKind::System, id: None }),
    };
    let chars = text::chars_of(v.as_str());
    let l = text::to_lower(chars.as_slice());
    if text::is(l.as_slice(), "system") || text::is(l.as_slice(), "loopback") {
        return Some(AudioSourceSelector { kind: AudioSourceKind::System, id: None });
    }
    if text::is(l.as_slice(), "microphone") || text::is(l.as_slice(), "mic") {
        return Some(AudioSourceSelector { kind: AudioSourceKind::Microphone, id: None });
    }
    let i = text::index_of_char(chars.as_slice(), ':')?;
    let n = chars.len();
    let head = text::slice_vec(chars.as_slice(), 0, i);
    assert(head@ =~= chars@.take(i as int));
    let prefix = text::to_lower(head.as_slice());
    if text::is(prefix.as_slice(), "device") {
        let rest = text::slice_vec(chars.as_slice(), i + 1, n);
        assert(rest@ =~= chars@.skip(i + 1));
        Some(AudioSourceSelector { kind: AudioSourceKind::Device, id: Some(text::string_of(rest.as_slice())) })
    } else {
        None
    }
}

/// The format a `--format` value names (default WAV).
pub open spec fn audio_format_spec(v: Option<Seq<char>>) -> Option<AudioFormat> {
    match v {
        None => Some(AudioFormat::Wav),
        Some(f) => if f == "wav"@ {
            Some(AudioFormat::Wav)
        } else if f == "flac"@ {
            Some(AudioFormat::Flac)
        } else if f == "opus"@ {
            Some(AudioFormat::Opus)
        } else {
            None
        },
    }
}

/// The listen input: the source (default the system loopback), duration
/// (default five seconds) and format (default WAV), validated.
pub fn build_listen_input(command: &ListenCommand) -> (r: Result<ListenInput, TendrilError>)
    ensures
        match audio_source_spec(crate::text::opt_view(command.source)) {
            None => r matches Err(e) && is_invalid(
                e,
                "invalid_listen_input"@,
                "source"@,
                "unsupported audio source `"@ + command.source->0@
                    + "`; use `system`, `loopback`, `microphone`, or `device:<id>`"@,
            ),
            Some((kind, id)) => {
                let duration: u64 = match command.duration_ms {
                    Some(d) => d,
                    None => 5000,
                };
                &&& r is Ok <==> (audio_format_spec(crate::text::opt_view(command.format)) is Some && duration
                    != 0 && !(kind == AudioSourceKind::Device && (id matches Some(x) ==> x.len() == 0)))
                &&& r matches Ok(i) ==> {
                    &&& i.source.kind == kind
                    &&& crate::text::opt_view(i.source.id) == id
                    &&& i.duration_ms == duration
                    &&& audio_format_spec(crate::text::opt_view(command.format)) == Some(i.format)
                }
                &&& (command.format matches Some(f) && audio_format_spec(Some(f@)) is None) ==> (r matches Err(e)
                    && e.code_spec() == "invalid_listen_input"@)
            },
        },
{
    let source = match audio_source(&command.source) {
        Some(s) => s,
        None => {
            let v = match &command.source {
                Some(v) => v.as_str(),
                None => "",
            };
            let mut m = owned("unsupported audio source `");
            text::push_str(&mut m, v);
            text::push_str(&mut m, "`; use `system`, `loopback`, `microphone`, or `device:<id>`");
            return Err(TendrilError::invalid(m, "invalid_listen_input", "source"));
        },
    };
    let format = match &command.format {
        Some(f) => parse_audio_format(f.as_str())?,
        None => AudioFormat::Wav,
    };
    let input = ListenInput {
        source,
        duration_ms: match command.duration_ms {
            Some(d) => d,
            None => 5000,
        },
        format,
    };
    input.validate()?;
    Ok(input)
}

// ---------------------------------------------------------------------------
// Aliases
// ---------------------------------------------------------------------------

/// `_` in place of every character that is not an ASCII letter or digit.
pub open spec fn sanitized_identifier(v: Seq<char>) -> Seq<char> {
    Seq::new(v.len(), |i: int| if text::is_ascii_alnum(v[i]) { v[i] } else { '_' })
}

pub fn sanitize_identifier(value: &str) -> (r: String)
    ensures
        r@ == sanitized_identifier(value@),
{
    let v = text::chars_of(value);
    let mut r = String::new();
    let mut i: usize = 0;
    while i < v.len()
        invariant
            i <= v@.len(),
            v@ == value@,
            r@ == Seq::new(i as nat, |k: int| if text::is_ascii_alnum(v@[k]) { v@[k] } else { '_' }),
        decreases v.len() - i,
    {
        let c = v[i];
        text::push_char(&mut r, if text::is_alnum(c) { c } else { '_' });
        i += 1;
        assert(r@ =~= Seq::new(i as nat, |k: int| if text::is_ascii_alnum(v@[k]) { v@[k] } else { '_' }));
    }
    r
}

pub open spec fn default_alias_name_spec(t: TargetScope) -> Seq<char> {
    match t.window {
        Some(w) => "tendril_window_"@ + sanitized_identifier(w@),
        None => match t.display {
            Some(d) => "tendril_display_"@ + sanitized_identifier(d@),
            None => "tendril_target"@,
        },
    }
}

/// The alias name for a scope: `tendril_window_ID` or `tendril_display_ID`
/// with the identifier made a safe identifier.
pub fn default_alias_name(target: &TargetScope) -> (r: String)
    ensures
        r@ == default_alias_name_spec(*target),
{
    match &target.window {
        Some(w) => {
            let mut r = owned("tendril_window_");
            let s = sanitize_identifier(w.as_str());
            text::push_str(&mut r, s.as_str());
            r
        },
        None => match &target.display {
            Some(d) => {
                let mut r = owned("tendril_display_");
                let s = sanitize_identifier(d.as_str());
                text::push_str(&mut r, s.as_str());
                r
            },
            None => owned("tendril_target"),
        },
    }
}

/// The shell a `--shell` value names, without ASCII case (default bash).
pub open spec fn shell_spec(v: Option<Seq<char>>) -> Option<ShellKind> {
    match v {
        None => Some(ShellKind::Bash),
        Some(s) => {
            let l = lower(s);
            if l == "bash"@ {
                Some(ShellKind::Bash)
            } else if l == "zsh"@ {
                Some(ShellKind::Zsh)
            } else if l == "fish"@ {
                Some(ShellKind::Fish)
            } else if l == "powershell"@ || l == "pwsh"@ {
                Some(ShellKind::PowerShell)
            } else {
                None
            }
        },
    }
}

/// The alias name: the given one, or the one derived from the target.
pub open spec fn alias_name_spec(target: TargetScope, name: Option<String>) -> Seq<char> {
    match name {
        Some(n) => n@,
        None => default_alias_name_spec(target),
    }
}

/// The alias input: a required target, the shell (default bash) and the
/// name (default from the target), validated.
pub fn build_alias_input(target: &TargetScope, command: &AliasCommand) -> (r: Result<AliasInput, TendrilError>)
    ensures
        match selected_spec(*target) {
            Some(Some(sel)) => {
                &&& r is Ok <==> (shell_spec(crate::text::opt_view(command.shell)) matches Some(sh)
                    && exists|i: AliasInput| #[trigger] crate::model::alias_input_ok(i) && i.target == sel && i.shell == sh
                    && i.name@ == alias_name_spec(*target, command.name))
                &&& r matches Ok(i) ==> {
                    &&& i.target == sel
                    &&& shell_spec(crate::text::opt_view(command.shell)) == Some(i.shell)
                    &&& i.name@ == alias_name_spec(*target, command.name)
                    &&& crate::model::alias_input_ok(i)
                }
            },
            _ => r matches Err(e) && e.code_spec() == "invalid_alias_input"@,
        },
{
    proof {
        reveal_strlit("alias");
        reveal_strlit("capture");
        reveal_strlit("run");
        assert("alias"@.len() == 5 && "capture"@.len() == 7 && "run"@.len() == 3);
    }
    let sel = required_target(target, "alias")?;
    let shell = match &command.shell {
        Some(s) => parse_shell(s.as_str())?,
        None => ShellKind::Bash,
    };
    let name = match &command.name {
        Some(n) => n.clone(),
        None => default_alias_name(target),
    };
    let input = AliasInput { target: sel, shell, name };
    match input.validate() {
        Ok(()) => Ok(input),
        Err(e) => {
            proof {
                assert forall|i: AliasInput| #[trigger] crate::model::alias_input_ok(i) && i.target == input.target
                    && i.shell == input.shell && i.name@ == input.name@ implies false by {
                    assert(i.name@ == input.name@);
                }
            }
            Err(e)
        },
    }
}

/// The argument vector that selects a target.
pub open spec fn alias_argv_spec(t: TargetSelector) -> Seq<Seq<char>> {
    match t {
        TargetSelector::Window { id } => seq!["tendril"@, "--window"@, id@],
        TargetSelector::Display { id } => seq!["tendril"@, "--display"@, id@],
    }
}

pub fn alias_argv(target: &TargetSelector) -> (r: Vec<String>)
    ensures
        strings_view(r@) == alias_argv_spec(*target),
{
    let mut r: Vec<String> = Vec::new();
    r.push(owned("tendril"));
    match target {
        TargetSelector::Window { id } => {
            r.push(owned("--window"));
            r.push(id.clone());
        },
        TargetSelector::Display { id } => {
            r.push(owned("--display"));
            r.push(id.clone());
        },
    }
    assert(strings_view(r@) =~= alias_argv_spec(*target));
    r
}

/// Characters a shell argument may hold without quoting.
pub open spec fn shell_safe(c: char) -> bool {
    text::is_ascii_alnum(c) || c == '-' || c == '_' || c == '.' || c == '/' || c == ':'
}

pub fn is_shell_safe_character(c: char) -> (r: bool)
    ensures
        r == shell_safe(c),
{
    text::is_alnum(c) || c == '-' || c == '_' || c == '.' || c == '/' || c == ':'
}

/// Every `'` of `s` replaced by `rep`.
pub open spec fn quote_escaped(s: Seq<char>, rep: Seq<char>) -> Seq<char>
    decreases s.len(),
{
    if s.len() == 0 {
        seq![]
    } else {
        quote_escaped(s.drop_last(), rep) + if s.last() == '\'' { rep } else { seq![s.last()] }
    }
}

/// The quote escape of a shell.
pub open spec fn quote_escape(shell: ShellKind) -> Seq<char> {
    match shell {
        ShellKind::PowerShell => seq!['\'', '\''],
        _ => seq!['\'', '"', '\'', '"', '\''],
    }
}

/// An argument as a shell reads it back: unchanged when every character is
/// safe, otherwise single-quoted with the shell's escape for `'`.
pub open spec fn quoted_spec(arg: Seq<char>, shell: ShellKind) -> Seq<char> {
    if arg.len() > 0 && (forall|i: int| 0 <= i < arg.len() ==> shell_safe(#[trigger] arg[i])) {
        arg
    } else {
        seq!['\''] + quote_escaped(arg, quote_escape(shell)) + seq!['\'']
    }
}

pub fn quote_for_shell(argument: &str, shell: ShellKind) -> (r: String)
    ensures
        r@ == quoted_spec(argument@, shell),
{
    let v = text::chars_of(argument);
    let mut safe = v.len() > 0;
    let mut i: usize = 0;
    while i < v.len()
        invariant
            i <= v@.len(),
            v@ == argument@,
            safe == (v@.len() > 0 && forall|k: int| 0 <= k < i ==> shell_safe(#[trigger] v@[k])),
        decreases v.len() - i,
    {
        if !is_shell_safe_character(v[i]) {
            safe = false;
        }
        i += 1;
    }
    if safe {
        return owned(argument);
    }
    let mut r = String::new();
    text::push_char(&mut r, '\'');
    let ghost head = r@;
    let mut i: usize = 0;
    assert(v@.take(0) =~= Seq::<char>::empty());
    while i < v.len()
        invariant
            i <= v@.len(),
            v@ == argument@,
            r@ == head + quote_escaped(v@.take(i as int), quote_escape(shell)),
        decreases v.len() - i,
    {
        let c = v[i];
        if c == '\'' {
            match shell {
                ShellKind::PowerShell => {
                    text::push_char(&mut r, '\'');
                    text::push_char(&mut r, '\'');
                },
                _ => {
                    text::push_char(&mut r, '\'');
                    text::push_char(&mut r, '"');
                    text::push_char(&mut r, '\'');
                    text::push_char(&mut r, '"');
                    text::push_char(&mut r, '\'');
                },
            }
        } else {
            text::push_char(&mut r, c);
        }
        proof {
            assert(v@.take(i + 1).drop_last() =~= v@.take(i as int));
            assert(r@ =~= head + quote_escaped(v@.take(i + 1), quote_escape(shell)));
        }
        i += 1;
    }
    assert(v@.take(i as int) =~= v@);
    text::push_char(&mut r, '\'');
    assert(r@ =~= seq!['\''] + quote_escaped(argument@, quote_escape(shell)) + seq!['\'']);
    r
}

/// The program, then the quoted arguments, joined with spaces.
pub open spec fn shell_command_spec(argv: Seq<Seq<char>>, shell: ShellKind) -> Seq<char> {
    if argv.len() == 0 {
        seq![]
    } else {
        joined(seq![argv[0]] + argv.skip(1).map_values(|a: Seq<char>| quoted_spec(a, shell)), " "@)
    }
}

pub fn render_shell_command(argv: &Vec<String>, shell: ShellKind) -> (r: String)
    ensures
        r@ == shell_command_spec(strings_view(argv@), shell),
{
    let ghost av = strings_view(argv@);
    let mut parts: Vec<String> = Vec::new();
    if argv.len() == 0 {
        return String::new();
    }
    parts.push(argv[0].clone());
    let mut i: usize = 1;
    assert(strings_view(parts@) =~= seq![av[0]] + av.skip(1).take(0).map_values(|a: Seq<char>| quoted_spec(a, shell)));
    while i < argv.len()
        invariant
            av == strings_view(argv@),
            1 <= i <= av.len(),
            strings_view(parts@) == seq![av[0]] + av.skip(1).take(i - 1).map_values(|a: Seq<char>| quoted_spec(a, shell)),
        decreases argv.len() - i,
    {
        let q = quote_for_shell(argv[i].as_str(), shell);
        let ghost before = strings_view(parts@);
        parts.push(q);
        proof {
            assert(av.skip(1).take(i as int) =~= av.skip(1).take(i - 1).push(av[i as int]));
            assert(strings_view(parts@) =~= before.push(quoted_spec(av[i as int], shell)));
            assert(strings_view(parts@) =~= seq![av[0]] + av.skip(1).take(i as int).map_values(|a: Seq<char>| quoted_spec(a, shell)));
        }
        i += 1;
    }
    assert(av.skip(1).take(i - 1) =~= av.skip(1));
    text::join_strings(&parts, " ")
}

pub open spec fn shell_invocation_spec(argv: Seq<Seq<char>>, shell: ShellKind) -> Seq<char> {
    match shell {
        ShellKind::PowerShell => "& "@ + shell_command_spec(argv, shell),
        _ => "command "@ + shell_command_spec(argv, shell),
    }
}

pub fn render_shell_invocation(argv: &Vec<String>, shell: ShellKind) -> (r: String)
    ensures
        r@ == shell_invocation_spec(strings_view(argv@), shell),
{
    let mut r = match shell {
        ShellKind::PowerShell => owned("& "),
        _ => owned("command "),
    };
    let c = render_shell_command(argv, shell);
    text::push_str(&mut r, c.as_str());
    r
}

/// The shell function that forwards its arguments to Tendril scoped to
/// the alias's target.
pub open spec fn alias_code_spec(name: Seq<char>, invocation: Seq<char>, shell: ShellKind) -> Seq<char> {
    match shell {
        ShellKind::Fish => "function "@ + name + "\n    "@ + invocation + " $argv\nend\n"@,
        ShellKind::PowerShell => "function "@ + name
            + " {\n    param(\n        [Parameter(ValueFromRemainingArguments = $true)]\n        [string[]]$Args\n    )\n    "@
            + invocation + " @Args\n}\n"@,
        _ => name + "() {\n  "@ + invocation + " \"$@\"\n}\n"@,
    }
}

pub fn render_alias_shell_code(input: &AliasInput) -> (r: String)
    ensures
        r@ == alias_code_spec(
            input.name@,
            shell_invocation_spec(alias_argv_spec(input.target), input.shell),
            input.shell,
        ),
{
    let argv = alias_argv(&input.target);
    let invocation = render_shell_invocation(&argv, input.shell);
    match input.shell {
        ShellKind::Fish => {
            let mut r = owned("function ");
            text::push_str(&mut r, input.name.as_str());
            text::push_str(&mut r, "\n    ");
            text::push_str(&mut r, invocation.as_str());
            text::push_str(&mut r, " $argv\nend\n");
            r
        },
        ShellKind::PowerShell => {
            let mut r = owned("function ");
            text::push_str(&mut r, input.name.as_str());
            text::push_str(
                &mut r,
                " {\n    param(\n        [Parameter(ValueFromRemainingArguments = $true)]\n        [string[]]$Args\n    )\n    ",
            );
            text::push_str(&mut r, invocation.as_str());
            text::push_str(&mut r, " @Args\n}\n");
            r
        },
        _ => {
            let mut r = input.name.clone();
            text::push_str(&mut r, "() {\n  ");
            text::push_str(&mut r, invocation.as_str());
            text::push_str(&mut r, " \"$@\"\n}\n");
            r
        },
    }
}

/// The alias for a target: its argument vector, the plain command and the
/// shell function.
pub fn execute_alias(input: &AliasInput) -> (r: AliasOutput)
    ensures
        r.shell == input.shell,
        r.name == input.name,
        strings_view(r.argv@) == alias_argv_spec(input.target),
        r.command@ == shell_command_spec(alias_argv_spec(input.target), input.shell),
        r.shell_code@ == alias_code_spec(
            input.name@,
            shell_invocation_spec(alias_argv_spec(input.target), input.shell),
            input.shell,
        ),
        r.target == input.target,
{
    let argv = alias_argv(&input.target);
    let command = render_shell_command(&argv, input.shell);
    let shell_code = render_alias_shell_code(input);
    AliasOutput {
        shell: input.shell,
        name: input.name.clone(),
        command,
        argv,
        shell_code,
        target: input.target.duplicate(),
    }
}

/// The human rendering of an alias: its shell code.
pub fn render_alias_human(output: &AliasOutput) -> (r: String)
    ensures
        r == output.shell_code,
{
    output.shell_code.clone()
}

/// The label of a run payload's kind.
pub fn payload_kind(payload: &RunInputPayload) -> (r: &'static str)
    ensures
        r@ == match payload {
            RunInputPayload::Text { .. } => "text"@,
            RunInputPayload::Dsl { .. } => "dsl"@,
            RunInputPayload::Actions { .. } => "actions"@,
        },
{
    match payload {
        RunInputPayload::Text { .. } => "text",
        RunInputPayload::Dsl { .. } => "dsl",
        RunInputPayload::Actions { .. } => "actions",
    }
}

} // verus!

verus! {

// ---------------------------------------------------------------------------
// Execution lock requests
// ---------------------------------------------------------------------------

/// The words an environment flag accepts as true and as false, ignoring
/// ASCII case.
pub open spec fn env_bool_spec(value: Seq<char>) -> Option<bool> {
    let l = lower(value);
    if l == "1"@ || l == "true"@ || l == "yes"@ || l == "on"@ {
        Some(true)
    } else if l == "0"@ || l == "false"@ || l == "no"@ || l == "off"@ {
        Some(false)
    } else {
        None
    }
}

/// A boolean environment variable's value, or the validation error naming
/// the variable.
pub fn parse_bool_env(name: &str, value: &str) -> (r: Result<bool, TendrilError>)
    ensures
        match env_bool_spec(value@) {
            Some(b) => r == Ok::<bool, TendrilError>(b),
            None => r matches Err(e) && is_invalid(
                e,
                "invalid_run_input"@,
                name@,
                "environment variable "@ + name@ + " must be a boolean (true/false or 1/0)"@,
            ),
        },
{
    let chars = text::chars_of(value);
    let l = text::to_lower(chars.as_slice());
    let ls = l.as_slice();
    if text::is(ls, "1") || text::is(ls, "true") || text::is(ls, "yes") || text::is(ls, "on") {
        return Ok(true);
    }
    if text::is(ls, "0") || text::is(ls, "false") || text::is(ls, "no") || text::is(ls, "off") {
        return Ok(false);
    }
    let mut m = owned("environment variable ");
    text::push_str(&mut m, name);
    text::push_str(&mut m, " must be a boolean (true/false or 1/0)");
    Err(TendrilError::invalid(m, "invalid_run_input", name))
}

/// The message `str::parse::<u64>` gives for text it refuses.
pub open spec fn u64_parse_error_text(value: Seq<char>) -> Seq<char> {
    if value.len() == 0 {
        "cannot parse integer from empty string"@
    } else if text::unsigned_value(value) is Some {
        "number too large to fit in target type"@
    } else {
        "invalid digit found in string"@
    }
}

/// An unsigned environment variable's value, or the validation error naming
/// the variable and why the text is no number.
pub fn parse_u64_env(name: &str, value: &str) -> (r: Result<u64, TendrilError>)
    ensures
        match text::parse_u64_spec(value@) {
            Some(n) => r == Ok::<u64, TendrilError>(n),
            None => r matches Err(e) && is_invalid(
                e,
                "invalid_run_input"@,
                name@,
                "environment variable "@ + name@ + " must be an unsigned integer: "@ + u64_parse_error_text(value@),
            ),
        },
{
    let chars = text::chars_of(value);
    match text::parse_u64(chars.as_slice()) {
        Some(n) => Ok(n),
        None => {
            let mut m = owned("environment variable ");
            text::push_str(&mut m, name);
            text::push_str(&mut m, " must be an unsigned integer: ");
            let why = if chars.len() == 0 {
                "cannot parse integer from empty string"
            } else if unsigned_syntax(chars.as_slice()) {
                "number too large to fit in target type"
            } else {
                "invalid digit found in string"
            };
            text::push_str(&mut m, why);
            Err(TendrilError::invalid(m, "invalid_run_input", name))
        },
    }
}

/// Whether the text has the shape of an unsigned number (an optional `+`
/// and at least one digit), whatever its size.
fn unsigned_syntax(s: &[char]) -> (r: bool)
    ensures
        r == text::unsigned_value(s@) is Some,
{
    if s.len() > 1 && s[0] == '+' {
        let rest = text::slice_vec(s, 1, s.len());
        assert(rest@ =~= s@.drop_first());
        text::digits_only(rest.as_slice())
    } else {
        s.len() > 0 && text::digits_only(s)
    }
}

/// The environment values the lock request reads, each `None` where the
/// variable is unset.
pub struct LockEnvironment {
    /// `TENDRIL_NO_LOCK`.
    pub no_lock: Option<String>,
    /// `TENDRIL_LOCK_PATH`.
    pub lock_path: Option<String>,
    /// `TENDRIL_LOCK_TIMEOUT_MS`.
    pub timeout_ms: Option<String>,
    /// `TENDRIL_LOCK_STALE_MS`.
    pub stale_ms: Option<String>,
}

/// An optional environment value parsed as a number, or the error.
fn env_u64(name: &str, value: &Option<String>) -> (r: Result<Option<u64>, TendrilError>)
    ensures
        match value {
            None => r == Ok::<Option<u64>, TendrilError>(None),
            Some(v) => match text::parse_u64_spec(v@) {
                Some(n) => r == Ok::<Option<u64>, TendrilError>(Some(n)),
                None => r matches Err(e) && is_invalid(
                    e,
                    "invalid_run_input"@,
                    name@,
                    "environment variable "@ + name@ + " must be an unsigned integer: "@ + u64_parse_error_text(v@),
                ),
            },
        },
{
    match value {
        None => Ok(None),
        Some(v) => {
            let n = parse_u64_env(name, v.as_str())?;
            Ok(Some(n))
        },
    }
}

/// What disables the lock, in the order they are checked: the flag, the
/// environment, the configuration.
pub open spec fn lock_disabled_reason(no_lock_flag: bool, env_no_lock: bool, config_enabled: bool) -> Option<Seq<char>> {
    if no_lock_flag {
        Some("--no-lock"@)
    } else if env_no_lock {
        Some("TENDRIL_NO_LOCK"@)
    } else if !config_enabled {
        Some("config.execution_lock.enabled=false"@)
    } else {
        None
    }
}

/// The lower-case name of a target kind.
pub open spec fn target_kind_word(kind: TargetKind) -> Seq<char> {
    match kind {
        TargetKind::Window => "window"@,
        TargetKind::Display => "display"@,
        TargetKind::AudioSource => "audiosource"@,
    }
}

/// The execution lock request for a `run`: each setting from the command
/// line, else the environment, else the configuration (the path finally
/// from `default_path`); the lock is off when the flag, `TENDRIL_NO_LOCK`
/// or the configuration turns it off. A malformed environment value is a
/// validation error naming the variable.
pub fn build_execution_lock_request(
    command: &RunCommand,
    input: &RunInput,
    config: &TendrilConfig,
    env: &LockEnvironment,
    default_path: String,
) -> (r: Result<crate::execution_lock::ExecutionLockRequest, TendrilError>)
    ensures
        ({
            let no_lock_ok = match env.no_lock {
                Some(v) => env_bool_spec(v@) is Some,
                None => true,
            };
            let timeout_ok = command.lock_timeout_ms is Some || match env.timeout_ms {
                Some(v) => text::parse_u64_spec(v@) is Some,
                None => true,
            };
            let stale_ok = command.lock_stale_ms is Some || match env.stale_ms {
                Some(v) => text::parse_u64_spec(v@) is Some,
                None => true,
            };
            r is Ok <==> no_lock_ok && timeout_ok && stale_ok
        }),
        r matches Ok(req) ==> {
            let env_off = match env.no_lock {
                Some(v) => env_bool_spec(v@) == Some(true),
                None => false,
            };
            &&& req.enabled == (config.execution_lock.enabled && !command.no_lock && !env_off)
            &&& crate::text::opt_view(req.reason) == lock_disabled_reason(
                command.no_lock,
                env_off,
                config.execution_lock.enabled,
            )
            &&& req.lock_path@ == match command.lock_path {
                Some(p) => p@,
                None => match env.lock_path {
                    Some(p) => p@,
                    None => match config.execution_lock.path {
                        Some(p) => p@,
                        None => default_path@,
                    },
                },
            }
            &&& req.timeout_ms == match command.lock_timeout_ms {
                Some(t) => t,
                None => match env.timeout_ms {
                    Some(v) => text::parse_u64_spec(v@)->0,
                    None => config.execution_lock.timeout_ms,
                },
            }
            &&& req.stale_ms == match command.lock_stale_ms {
                Some(t) => t,
                None => match env.stale_ms {
                    Some(v) => text::parse_u64_spec(v@)->0,
                    None => config.execution_lock.stale_ms,
                },
            }
            &&& req.command@ == "run"@
            &&& crate::text::opt_view(req.target_kind) == Some(target_kind_word(input.target.kind_spec()))
            &&& crate::text::opt_view(req.target_id) == Some(input.target.id_spec())
        },
{
    let env_no_lock = match &env.no_lock {
        Some(v) => Some(parse_bool_env("TENDRIL_NO_LOCK", v.as_str())?),
        None => None,
    };
    let disabled_by_cli = command.no_lock;
    let disabled_by_env = match env_no_lock {
        Some(b) => b,
        None => false,
    };
    let enabled = config.execution_lock.enabled && !disabled_by_cli && !disabled_by_env;
    let reason = if disabled_by_cli {
        Some(owned("--no-lock"))
    } else if disabled_by_env {
        Some(owned("TENDRIL_NO_LOCK"))
    } else if !config.execution_lock.enabled {
        Some(owned("config.execution_lock.enabled=false"))
    } else {
        None
    };
    let lock_path = match &command.lock_path {
        Some(p) => p.clone(),
        None => match &env.lock_path {
            Some(p) => p.clone(),
            None => match &config.execution_lock.path {
                Some(p) => p.clone(),
                None => default_path,
            },
        },
    };
    let timeout_ms = match command.lock_timeout_ms {
        Some(t) => t,
        None => match env_u64("TENDRIL_LOCK_TIMEOUT_MS", &env.timeout_ms)? {
            Some(t) => t,
            None => config.execution_lock.timeout_ms,
        },
    };
    let stale_ms = match command.lock_stale_ms {
        Some(t) => t,
        None => match env_u64("TENDRIL_LOCK_STALE_MS", &env.stale_ms)? {
            Some(t) => t,
            None => config.execution_lock.stale_ms,
        },
    };
    let kind = match input.target.kind() {
        TargetKind::Window => "window",
        TargetKind::Display => "display",
        TargetKind::AudioSource => "audiosource",
    };
    Ok(crate::execution_lock::ExecutionLockRequest {
        enabled,
        lock_path,
        timeout_ms,
        stale_ms,
        command: owned("run"),
        target_kind: Some(owned(kind)),
        target_id: Some(owned(input.target.id())),
        reason,
    })
}

} // verus!

verus! {

// ---------------------------------------------------------------------------
// Listing
// ---------------------------------------------------------------------------

/// The model's kind for a discovered target's kind.
pub open spec fn model_kind(kind: crate::platform::CaptureTargetKind) -> TargetKind {
    match kind {
        crate::platform::CaptureTargetKind::Window => TargetKind::Window,
        crate::platform::CaptureTargetKind::Display => TargetKind::Display,
    }
}

/// A discovered target as the command output describes it: the same
/// fields, its kind in the model's terms, its capture and input support as
/// capabilities (audio is never offered by a window or display).
pub fn model_target_from_platform(target: crate::platform::TargetDescriptor) -> (r: crate::model::TargetDescriptor)
    ensures
        r.id == target.id,
        r.kind == model_kind(target.kind),
        r.name == target.name,
        r.title == target.title,
        r.bounds == target.bounds,
        r.scale_factor == target.scale_factor,
        r.capabilities.capture == target.capture_supported,
        r.capabilities.input == target.input_supported,
        !r.capabilities.audio,
        r.diagnostics == target.diagnostics,
        r.app_name == target.app_name,
        r.process_id == target.process_id,
{
    crate::model::TargetDescriptor {
        id: target.id,
        kind: match target.kind {
            crate::platform::CaptureTargetKind::Window => TargetKind::Window,
            crate::platform::CaptureTargetKind::Display => TargetKind::Display,
        },
        name: target.name,
        title: target.title,
        bounds: target.bounds,
        scale_factor: target.scale_factor,
        capabilities: crate::model::CapabilitySet {
            capture: target.capture_supported,
            input: target.input_supported,
            audio: false,
        },
        diagnostics: target.diagnostics,
        app_name: target.app_name,
        process_id: target.process_id,
    }
}

/// Whether a listing keeps a discovered target of this kind.
pub open spec fn listed(input: crate::model::ListInput, kind: crate::platform::CaptureTargetKind) -> bool {
    match kind {
        crate::platform::CaptureTargetKind::Window => input.include_windows,
        crate::platform::CaptureTargetKind::Display => input.include_displays,
    }
}

/// The targets a listing keeps, in discovery order.
pub open spec fn listed_targets(
    input: crate::model::ListInput,
    targets: Seq<crate::platform::TargetDescriptor>,
) -> Seq<crate::platform::TargetDescriptor> {
    targets.filter(|t: crate::platform::TargetDescriptor| listed(input, t.kind))
}

/// The `list` output from what the adapter reported: the windows and
/// displays the input asks for, in discovery order and in the model's
/// terms, with the adapter, its permissions and the cameras.
pub fn list_output(
    input: &crate::model::ListInput,
    adapter: AdapterInfo,
    permissions: Vec<PermissionStatus>,
    inventory: crate::platform::TargetInventory,
    cameras: Vec<crate::camera::CameraDescriptor>,
) -> (r: crate::model::ListOutput)
    ensures
        r.adapter == adapter,
        r.permissions == permissions,
        r.cameras == cameras,
        r.targets@.len() == listed_targets(*input, inventory.targets@).len(),
        forall|i: int|
            0 <= i < r.targets@.len() ==> {
                let t = #[trigger] listed_targets(*input, inventory.targets@)[i];
                &&& r.targets@[i].id == t.id
                &&& r.targets@[i].kind == model_kind(t.kind)
                &&& r.targets@[i].name == t.name
                &&& r.targets@[i].title == t.title
                &&& r.targets@[i].bounds == t.bounds
                &&& r.targets@[i].scale_factor == t.scale_factor
                &&& r.targets@[i].capabilities == crate::model::CapabilitySet {
                    capture: t.capture_supported,
                    input: t.input_supported,
                    audio: false,
                }
                &&& r.targets@[i].diagnostics == t.diagnostics
                &&& r.targets@[i].app_name == t.app_name
                &&& r.targets@[i].process_id == t.process_id
            },
{
    let ghost all = inventory.targets@;
    let mut source = inventory.targets;
    let total = source.len();
    let mut rev: Vec<crate::platform::TargetDescriptor> = Vec::new();
    while source.len() > 0
        invariant
            source@ + rev@.reverse() == all,
        decreases source.len(),
    {
        let t = source.pop().unwrap();
        proof {
            assert(source@ + rev@.push(t).reverse() =~= all);
        }
        rev.push(t);
    }
    assert(rev@.reverse() =~= all);
    let mut targets: Vec<crate::model::TargetDescriptor> = Vec::new();
    let mut j: usize = 0;
    while rev.len() > 0
        invariant
            rev@.reverse() == all.skip(j as int),
            j + rev@.len() == all.len(),
            all.len() == total,
            targets@.len() == listed_targets(*input, all.take(j as int)).len(),
            forall|k: int|
                0 <= k < targets@.len() ==> {
                    let t = #[trigger] listed_targets(*input, all.take(j as int))[k];
                    &&& targets@[k].id == t.id
                    &&& targets@[k].kind == model_kind(t.kind)
                    &&& targets@[k].name == t.name
                    &&& targets@[k].title == t.title
                    &&& targets@[k].bounds == t.bounds
                    &&& targets@[k].scale_factor == t.scale_factor
                    &&& targets@[k].capabilities == crate::model::CapabilitySet {
                        capture: t.capture_supported,
                        input: t.input_supported,
                        audio: false,
                    }
                    &&& targets@[k].diagnostics == t.diagnostics
                    &&& targets@[k].app_name == t.app_name
                    &&& targets@[k].process_id == t.process_id
                },
        decreases rev.len(),
    {
        let ghost before = rev@;
        let ghost prev = listed_targets(*input, all.take(j as int));
        let t = rev.pop().unwrap();
        proof {
            assert(before == rev@.push(t));
            assert(before.reverse() =~= seq![t] + rev@.reverse());
            assert(all.skip(j as int)[0] == all[j as int]);
            assert(rev@.reverse() =~= all.skip(j as int).skip(1));
            assert(all.skip(j as int).skip(1) =~= all.skip(j + 1));
            assert(all.take(j + 1).drop_last() =~= all.take(j as int));
            reveal(Seq::filter);
        }
        let keep = match t.kind {
            crate::platform::CaptureTargetKind::Window => input.include_windows,
            crate::platform::CaptureTargetKind::Display => input.include_displays,
        };
        if keep {
            proof {
                assert(listed_targets(*input, all.take(j + 1)) == prev.push(t));
            }
            targets.push(model_target_from_platform(t));
        } else {
            proof {
                assert(listed_targets(*input, all.take(j + 1)) == prev);
            }
        }
        j += 1;
    }
    assert(all.take(j as int) =~= all);
    crate::model::ListOutput { adapter, permissions, targets, cameras }
}

} // verus!

verus! {

// ---------------------------------------------------------------------------
// Listen responses
// ---------------------------------------------------------------------------

/// The note added when a recording was made.
pub open spec fn captured_note() -> Seq<char> {
    "listen captured a real audio artifact; the JSON envelope reports its on-disk path."@
}

/// The note that leads a probe-only answer for each reason a recording was
/// not attempted.
pub open spec fn skip_note_text(reason: ListenSkipReason) -> Seq<char> {
    match reason {
        ListenSkipReason::UnsupportedPlatform =>
            "listen capture is not yet wired for this platform; returning probe-only diagnostics."@,
        ListenSkipReason::UnsupportedFormat =>
            "listen capture currently emits only WAV; falling back to probe-only diagnostics."@,
        ListenSkipReason::UnsupportedSource =>
            "listen capture does not yet drive this source kind; returning probe-only diagnostics."@,
        ListenSkipReason::RecorderUnavailable =>
            "no usable audio recorder was found on PATH; returning probe-only diagnostics."@,
    }
}

/// The note that leads a probe-only answer after a recorder failed.
pub open spec fn recorder_failed_note(recorder: Seq<char>, message: Seq<char>) -> Seq<char> {
    "listen recorder `"@ + recorder + "` failed: "@ + message + "; returning probe-only diagnostics."@
}

fn skip_note(reason: ListenSkipReason) -> (r: String)
    ensures
        r@ == skip_note_text(reason),
{
    match reason {
        ListenSkipReason::UnsupportedPlatform => owned(
            "listen capture is not yet wired for this platform; returning probe-only diagnostics.",
        ),
        ListenSkipReason::UnsupportedFormat => owned(
            "listen capture currently emits only WAV; falling back to probe-only diagnostics.",
        ),
        ListenSkipReason::UnsupportedSource => owned(
            "listen capture does not yet drive this source kind; returning probe-only diagnostics.",
        ),
        ListenSkipReason::RecorderUnavailable => owned(
            "no usable audio recorder was found on PATH; returning probe-only diagnostics.",
        ),
    }
}

/// What the execution part of a listen answer says for a recording outcome.
pub open spec fn execution_reports(r: ListenExecutionStatus, capture: ListenCaptureResult) -> bool {
    match capture {
        ListenCaptureResult::Captured { artifact, notes } => {
            &&& r.status@ == "captured"@
            &&& r.artifact_available
            &&& r.artifact == Some(artifact)
            &&& strings_view(r.notes@) == strings_view(notes@).push(captured_note())
        },
        ListenCaptureResult::Skipped { reason, notes } => {
            &&& r.status@ == "probe_only"@
            &&& !r.artifact_available
            &&& r.artifact is None
            &&& strings_view(r.notes@) == seq![skip_note_text(reason)] + strings_view(notes@)
        },
        ListenCaptureResult::Failed { recorder, message, notes } => {
            &&& r.status@ == "probe_only"@
            &&& !r.artifact_available
            &&& r.artifact is None
            &&& strings_view(r.notes@) == seq![recorder_failed_note(recorder@, message@)] + strings_view(notes@)
        },
    }
}

/// The execution part of a listen answer: `captured` with the artifact and
/// a closing note, or `probe_only` with a leading note that says why no
/// recording is returned.
pub fn listen_execution_status(capture: ListenCaptureResult) -> (r: ListenExecutionStatus)
    ensures
        execution_reports(r, capture),
{
    match capture {
        ListenCaptureResult::Captured { artifact, notes } => {
            let ghost before = notes@;
            let mut notes = notes;
            notes.push(
                owned("listen captured a real audio artifact; the JSON envelope reports its on-disk path."),
            );
            assert(strings_view(notes@) =~= strings_view(before).push(captured_note()));
            ListenExecutionStatus {
                status: owned("captured"),
                artifact_available: true,
                artifact: Some(artifact),
                notes,
            }
        },
        ListenCaptureResult::Skipped { reason, notes } => {
            let ghost before = notes@;
            let mut notes = notes;
            notes.insert(0, skip_note(reason));
            assert(strings_view(notes@) =~= seq![skip_note_text(reason)] + strings_view(before));
            ListenExecutionStatus { status: owned("probe_only"), artifact_available: false, artifact: None, notes }
        },
        ListenCaptureResult::Failed { recorder, message, notes } => {
            let ghost before = notes@;
            let mut lead = owned("listen recorder `");
            text::push_str(&mut lead, recorder.as_str());
            text::push_str(&mut lead, "` failed: ");
            text::push_str(&mut lead, message.as_str());
            text::push_str(&mut lead, "; returning probe-only diagnostics.");
            let mut notes = notes;
            notes.insert(0, lead);
            assert(strings_view(notes@) =~= seq![recorder_failed_note(recorder@, message@)] + strings_view(before));
            ListenExecutionStatus { status: owned("probe_only"), artifact_available: false, artifact: None, notes }
        },
    }
}

/// The listen answer: the request, the adapter, the capability report and
/// the execution status for the recording outcome.
pub fn build_listen_response(
    input: ListenInput,
    adapter: AdapterInfo,
    capability: AudioCapabilityReport,
    capture: ListenCaptureResult,
) -> (r: ListenResponse)
    ensures
        r.request == input,
        r.adapter == adapter,
        r.capability == capability,
        execution_reports(r.execution, capture),
{
    ListenResponse { request: input, adapter, capability, execution: listen_execution_status(capture) }
}

/// The listen source an adapter can be probed for: an explicit device is
/// refused, as per-device binding is not implemented.
pub fn check_listen_source(input: &ListenInput) -> (r: Result<(), TendrilError>)
    ensures
        r is Ok <==> input.source.kind != AudioSourceKind::Device,
        r matches Err(e) ==> {
            &&& e.is_structured()
            &&& e.category_spec() == ErrorCategory::UnsupportedCapability
            &&& e.code_spec() == "audio_device_selection_not_implemented"@
            &&& e.message_spec()
                == "explicit input-device selection is not implemented in the v0.0.1 listen surface"@
            &&& crate::error::is_text_detail(e.detail_spec("suggested_action"@), listen_device_action())
        },
{
    match input.source.kind {
        AudioSourceKind::Device => Err(
            TendrilError::unsupported_capability(
                "audio_device_selection_not_implemented",
                owned("explicit input-device selection is not implemented in the v0.0.1 listen surface"),
            ).with_detail_entry(
                "suggested_action",
                DetailValue::Text(
                    owned(
                        "Use `--source microphone` for the shippable v0.0.1 slice. Explicit per-device binding remains a documented gap for a future adapter implementation.",
                    ),
                ),
            ),
        ),
        _ => Ok(()),
    }
}

/// What the device refusal suggests instead.
pub open spec fn listen_device_action() -> Seq<char> {
    "Use `--source microphone` for the shippable v0.0.1 slice. Explicit per-device binding remains a documented gap for a future adapter implementation."@
}

} // verus!

verus! {

// ---------------------------------------------------------------------------
// Android
// ---------------------------------------------------------------------------

/// What an `--android` invocation does once the device is resolved.
#[derive(Debug, Clone, PartialEq, Eq)]
pub enum AndroidCommandPlan {
    /// List the device, with every launchable app where asked.
    List { all_apps: bool },
    /// List the UIAutomator elements.
    ListElements { include_offscreen: bool },
    /// Capture the screen, writing the PNG to `output` where given.
    Capture { compression: u8, output: Option<String> },
    /// Perform the payload's steps.
    Run { payload: RunInputPayload },
}

/// `--android` picks the target, so `--window` and `--display` are refused
/// beside it.
pub fn check_android_scope(cli: &TendrilCli) -> (r: Result<(), TendrilError>)
    ensures
        r is Ok <==> (cli.window is None && cli.display is None),
        r matches Err(e) ==> e.is_structured() && e.category_spec() == ErrorCategory::Validation && e.code_spec()
            == "invalid_android_target_scope"@ && e.message_spec()
            == "--android selects the Android target; do not combine it with --window or --display"@,
{
    if cli.window.is_some() || cli.display.is_some() {
        return Err(
            TendrilError::validation(
                owned("--android selects the Android target; do not combine it with --window or --display"),
            ).with_code("invalid_android_target_scope"),
        );
    }
    Ok(())
}

/// The device serial an invocation names: `--android`, else
/// `TENDRIL_ANDROID_SERIAL`; a blank value names none.
pub fn android_selection(flag: &Option<String>, env_serial: &Option<String>) -> (r: Option<String>)
    ensures
        crate::text::opt_view(r) == match flag {
            Some(f) => if trim(f@).len() == 0 {
                None
            } else {
                Some(f@)
            },
            None => match env_serial {
                Some(v) => if trim(v@).len() == 0 {
                    None
                } else {
                    Some(v@)
                },
                None => None,
            },
        },
{
    let chosen = match flag {
        Some(f) => f,
        None => match env_serial {
            Some(v) => v,
            None => return None,
        },
    };
    let c = text::chars_of(chosen.as_str());
    if text::is_blank(c.as_slice()) {
        None
    } else {
        Some(chosen.clone())
    }
}

/// The plan for an `--android` command: listing, element listing, capture
/// (at the given or configured compression) and run (of the parsed input
/// definition); every other command is refused.
pub fn plan_android_command(command: &crate::cli::Command, config: &TendrilConfig) -> (r: Result<AndroidCommandPlan, TendrilError>)
    ensures
        match command {
            crate::cli::Command::List(c) => r == Ok::<AndroidCommandPlan, TendrilError>(
                AndroidCommandPlan::List { all_apps: c.all_apps },
            ),
            crate::cli::Command::ListElements(c) => r == Ok::<AndroidCommandPlan, TendrilError>(
                AndroidCommandPlan::ListElements { include_offscreen: c.include_offscreen },
            ),
            crate::cli::Command::Capture(c) => r matches Ok(AndroidCommandPlan::Capture { compression, output })
                && compression == match c.compression {
                Some(q) => q,
                None => config.capture.compression,
            } && output == c.output,
            crate::cli::Command::Run(c) => match c.input_definition {
                None => r matches Err(e) && is_invalid(
                    e,
                    "invalid_run_input"@,
                    "input_definition"@,
                    "run requires text or a DSL input definition"@,
                ),
                Some(d) => match r {
                    Ok(AndroidCommandPlan::Run { payload }) => crate::input::input_definition_result(
                        d@,
                        Ok(payload),
                    ),
                    Ok(_) => false,
                    Err(e) => crate::input::input_definition_result(d@, Err(e)),
                },
            },
            _ => r matches Err(e) && e.is_structured() && e.category_spec() == ErrorCategory::UnsupportedCapability
                && e.code_spec() == "android_command_unsupported"@ && e.message_spec() == "--android does not support the `"@
                + crate::cli::command_label(*command) + "` command"@ && crate::error::is_text_detail(
                e.detail_spec("command"@),
                crate::cli::command_label(*command),
            ),
        },
{
    match command {
        crate::cli::Command::List(c) => Ok(AndroidCommandPlan::List { all_apps: c.all_apps }),
        crate::cli::Command::ListElements(c) => Ok(
            AndroidCommandPlan::ListElements { include_offscreen: c.include_offscreen },
        ),
        crate::cli::Command::Capture(c) => Ok(
            AndroidCommandPlan::Capture {
                compression: match c.compression {
                    Some(q) => q,
                    None => config.capture.compression,
                },
                output: match &c.output {
                    Some(o) => Some(o.clone()),
                    None => None,
                },
            },
        ),
        crate::cli::Command::Run(c) => {
            let definition = match &c.input_definition {
                Some(d) => d,
                None => {
                    return Err(
                        TendrilError::invalid(
                            owned("run requires text or a DSL input definition"),
                            "invalid_run_input",
                            "input_definition",
                        ),
                    );
                },
            };
            match crate::input::parse_input_definition(definition.as_str()) {
                Ok(payload) => Ok(AndroidCommandPlan::Run { payload }),
                Err(e) => Err(e),
            }
        },
        _ => {
            let name = command.name();
            let mut m = owned("--android does not support the `");
            text::push_str(&mut m, name);
            text::push_str(&mut m, "` command");
            Err(
                TendrilError::unsupported_capability("android_command_unsupported", m).with_detail_entry(
                    "command",
                    DetailValue::Text(owned(name)),
                ),
            )
        },
    }
}

/// The header of the Android listing: the device line, the focused window
/// and active app where known, and the app counts.
pub open spec fn android_list_header(
    device: crate::android::AndroidDeviceSummary,
    active: Option<crate::android::AndroidAppSummary>,
    recent_count: nat,
    launchable_count: nat,
) -> Seq<char> {
    "android device: "@ + device.serial@ + " state="@ + device.state@ + " model="@ + or_unknown(device.model)
        + " wm_size="@ + or_unknown(device.wm_size) + " wm_density="@ + or_unknown(device.wm_density)
        + " artifacts="@ + device.artifact_dir@ + "\n"@ + match device.focused_window {
        Some(f) => "focused: "@ + f@ + "\n"@,
        None => seq![],
    } + match active {
        Some(a) => "active app: "@ + a.package@ + "\n"@,
        None => seq![],
    } + "recent apps: "@ + decimal(recent_count) + " launchable apps listed: "@ + decimal(launchable_count) + "\n"@
}

/// `focused: WINDOW` where the focused window is known.
pub open spec fn focused_line(f: Option<String>) -> Seq<char> {
    match f {
        Some(f) => "focused: "@ + f@ + "\n"@,
        None => seq![],
    }
}

/// `active app: PACKAGE` where an app is in focus.
pub open spec fn active_line(a: Option<crate::android::AndroidAppSummary>) -> Seq<char> {
    match a {
        Some(a) => "active app: "@ + a.package@ + "\n"@,
        None => seq![],
    }
}

/// The value, or `<unknown>`.
pub open spec fn or_unknown(v: Option<String>) -> Seq<char> {
    match v {
        Some(s) => s@,
        None => "<unknown>"@,
    }
}

fn push_or_unknown(r: &mut String, v: &Option<String>)
    ensures
        final(r)@ == old(r)@ + or_unknown(*v),
{
    match v {
        Some(s) => text::push_str(r, s.as_str()),
        None => text::push_str(r, "<unknown>"),
    }
}

fn push_device_line(r: &mut String, device: &crate::android::AndroidDeviceSummary)
    ensures
        final(r)@ == old(r)@ + "android device: "@ + device.serial@ + " state="@ + device.state@ + " model="@
            + or_unknown(device.model) + " wm_size="@ + or_unknown(device.wm_size) + " wm_density="@ + or_unknown(
            device.wm_density,
        ) + " artifacts="@ + device.artifact_dir@ + "\n"@,
{
    let ghost start = r@;
    text::push_str(r, "android device: ");
    text::push_str(r, device.serial.as_str());
    text::push_str(r, " state=");
    text::push_str(r, device.state.as_str());
    text::push_str(r, " model=");
    push_or_unknown(r, &device.model);
    text::push_str(r, " wm_size=");
    push_or_unknown(r, &device.wm_size);
    text::push_str(r, " wm_density=");
    push_or_unknown(r, &device.wm_density);
    text::push_str(r, " artifacts=");
    text::push_str(r, device.artifact_dir.as_str());
    text::push_str(r, "\n");
    assert(r@ =~= start + "android device: "@ + device.serial@ + " state="@ + device.state@ + " model="@
        + or_unknown(device.model) + " wm_size="@ + or_unknown(device.wm_size) + " wm_density="@ + or_unknown(
        device.wm_density,
    ) + " artifacts="@ + device.artifact_dir@ + "\n"@);
}

/// The human Android listing: the header, then the target listing.
pub fn render_android_list_human(
    device: &crate::android::AndroidDeviceSummary,
    active: &Option<crate::android::AndroidAppSummary>,
    recent: &Vec<crate::android::AndroidAppSummary>,
    launchable: &Vec<crate::android::AndroidAppSummary>,
    targets: &crate::model::ListOutput,
) -> (r: String)
    ensures
        r@ == android_list_header(*device, *active, recent@.len(), launchable@.len()) + crate::rendering::list_text(
            *targets,
        ),
{
    let mut r = String::new();
    push_device_line(&mut r, device);
    let ghost a = r@;
    match &device.focused_window {
        Some(f) => {
            text::push_str(&mut r, "focused: ");
            text::push_str(&mut r, f.as_str());
            text::push_str(&mut r, "\n");
        },
        None => {},
    }
    let ghost b = r@;
    match active {
        Some(app) => {
            text::push_str(&mut r, "active app: ");
            text::push_str(&mut r, app.package.as_str());
            text::push_str(&mut r, "\n");
        },
        None => {},
    }
    let ghost c = r@;
    text::push_str(&mut r, "recent apps: ");
    text::push_str(&mut r, text::format_u64(recent.len() as u64).as_str());
    text::push_str(&mut r, " launchable apps listed: ");
    text::push_str(&mut r, text::format_u64(launchable.len() as u64).as_str());
    text::push_str(&mut r, "\n");
    proof {
        assert(b =~= a + focused_line(device.focused_window));
        assert(c =~= b + active_line(*active));
        assert(r@ =~= android_list_header(*device, *active, recent@.len(), launchable@.len()));
    }
    let listing = crate::rendering::render_list_human(targets);
    text::push_str(&mut r, listing.as_str());
    r
}

} // verus!

verus! {

// ---------------------------------------------------------------------------
// Camera capture
// ---------------------------------------------------------------------------

/// `--camera` picks one capture device and excludes the window and display
/// selectors.
pub fn ensure_camera_target_exclusive(target: &TargetScope) -> (r: Result<(), TendrilError>)
    ensures
        r is Ok <==> (target.window is None && target.display is None),
        r matches Err(e) ==> is_invalid(
            e,
            "invalid_target_selector"@,
            "target"@,
            "choose either `--camera` or a window/display target, but not both"@,
        ),
{
    if target.window.is_some() || target.display.is_some() {
        return Err(
            TendrilError::invalid(
                owned("choose either `--camera` or a window/display target, but not both"),
                "invalid_target_selector",
                "target",
            ),
        );
    }
    Ok(())
}

/// How a camera frame is processed: the limits, format and compression
/// from the command, else the configuration.
#[derive(Debug, Clone, Copy, PartialEq, Eq)]
pub struct CameraCaptureSettings {
    pub max_width: Option<u32>,
    pub max_height: Option<u32>,
    pub format: ImageFormat,
    pub compression: u8,
}

pub fn camera_capture_settings(command: &CaptureCommand, config: &TendrilConfig) -> (r: Result<CameraCaptureSettings, TendrilError>)
    ensures
        match command.format {
            Some(f) => match r {
                Ok(s) => (f@ == "png"@ && s.format == ImageFormat::Png) || ((f@ == "jpeg"@ || f@ == "jpg"@) && s.format
                    == ImageFormat::Jpeg),
                Err(e) => !(f@ == "png"@ || f@ == "jpeg"@ || f@ == "jpg"@) && is_invalid(
                    e,
                    "invalid_capture_input"@,
                    "format"@,
                    "unsupported image format `"@ + f@ + "`; expected `png` or `jpeg`"@,
                ),
            },
            None => r matches Ok(s) && s.format == config.capture.format,
        },
        r matches Ok(s) ==> {
            &&& s.max_width == match command.max_width {
                Some(w) => Some(w),
                None => config.capture.max_width,
            }
            &&& s.max_height == match command.max_height {
                Some(h) => Some(h),
                None => config.capture.max_height,
            }
            &&& s.compression == match command.compression {
                Some(c) => c,
                None => config.capture.compression,
            }
        },
{
    let format = match &command.format {
        Some(f) => parse_image_format(f.as_str())?,
        None => config.capture.format,
    };
    Ok(CameraCaptureSettings {
        max_width: match command.max_width {
            Some(w) => Some(w),
            None => config.capture.max_width,
        },
        max_height: match command.max_height {
            Some(h) => Some(h),
            None => config.capture.max_height,
        },
        format,
        compression: match command.compression {
            Some(c) => c,
            None => config.capture.compression,
        },
    })
}

} // verus!
