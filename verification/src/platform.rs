//! Descriptions of the platform adapter: which platform and session Tendril
//! runs on, what each discovered target supports, and the permission states
//! the adapter reports.
use vstd::prelude::*;

use crate::model::{Bounds, ScaleFactor};
use crate::text::owned;

verus! {

#[derive(Debug, Clone, Copy, PartialEq, Eq, Structural)]
pub enum PlatformKind {
    Linux,
    Windows11,
    MacOs,
    Android,
}

#[derive(Debug, Clone, Copy, PartialEq, Eq, Structural)]
pub enum DesktopSession {
    X11,
    Wayland,
    MacOsWindowServer,
    WindowsDesktop,
    AndroidDevice,
    Unknown,
}

#[derive(Debug, Clone, Copy, PartialEq, Eq, Structural)]
pub enum AudioBackend {
    PipeWire,
    PulseAudio,
    CoreAudio,
    Wasapi,
}

/// Static description of the adapter serving a request.
#[derive(Debug, Clone, Copy, PartialEq, Eq, Structural)]
pub struct AdapterInfo {
    pub platform: PlatformKind,
    pub session: DesktopSession,
    pub audio_backend: Option<AudioBackend>,
    pub stateless: bool,
}

/// A capability a target or the adapter may lack.
#[derive(Debug, Clone, Copy, PartialEq, Eq, Structural)]
pub enum Capability {
    TargetDiscovery,
    WindowCapture,
    DisplayCapture,
    InputControl,
    AudioInputCapture,
}

#[derive(Debug, Clone, Copy, PartialEq, Eq, Structural)]
pub enum PermissionKind {
    ScreenCapture,
    Accessibility,
    Microphone,
    Camera,
}

#[derive(Debug, Clone, Copy, PartialEq, Eq, Structural)]
pub enum PermissionState {
    Granted,
    Denied,
    NotRequired,
    Unknown,
}

/// The state of one platform permission as the adapter sees it.
#[derive(Debug, Clone, PartialEq, Eq)]
pub struct PermissionStatus {
    pub permission: PermissionKind,
    pub state: PermissionState,
    pub summary: String,
    pub suggested_action: Option<String>,
}

impl PermissionStatus {
    pub fn granted(permission: PermissionKind, summary: &str) -> (s: Self)
        ensures
            s.permission == permission,
            s.state == PermissionState::Granted,
            s.summary@ == summary@,
            s.suggested_action is None,
    {
        PermissionStatus {
            permission,
            state: PermissionState::Granted,
            summary: owned(summary),
            suggested_action: None,
        }
    }

    pub fn denied(permission: PermissionKind, summary: &str, action: &str) -> (s: Self)
        ensures
            s.permission == permission,
            s.state == PermissionState::Denied,
            s.summary@ == summary@,
            s.suggested_action matches Some(a) && a@ == action@,
    {
        PermissionStatus {
            permission,
            state: PermissionState::Denied,
            summary: owned(summary),
            suggested_action: Some(owned(action)),
        }
    }

    pub fn not_required(permission: PermissionKind, summary: &str) -> (s: Self)
        ensures
            s.permission == permission,
            s.state == PermissionState::NotRequired,
            s.summary@ == summary@,
            s.suggested_action is None,
    {
        PermissionStatus {
            permission,
            state: PermissionState::NotRequired,
            summary: owned(summary),
            suggested_action: None,
        }
    }
}

/// Outcome of asking the platform for one permission.
#[derive(Debug, Clone, PartialEq, Eq)]
pub struct PermissionRequestOutcome {
    pub permission: PermissionKind,
    /// What the request flow did (prompts surfaced, settings panes opened).
    pub actions: Vec<String>,
    pub state_after: PermissionState,
    pub note: Option<String>,
}

#[derive(Debug, Clone, Copy, PartialEq, Eq, Structural)]
pub enum CaptureTargetKind {
    Window,
    Display,
}

/// Why a discovered target cannot offer one capability.
#[derive(Debug, Clone, PartialEq, Eq)]
pub struct TargetCapabilityDiagnostic {
    pub capability: Capability,
    pub code: String,
    pub message: String,
    pub suggested_action: Option<String>,
}

impl TargetCapabilityDiagnostic {
    pub fn capture_unavailable(capability: Capability, code: &str, message: String, suggested_action: &str) -> (d: Self)
        ensures
            d.capability == capability,
            d.code@ == code@,
            d.message@ == message@,
            d.suggested_action matches Some(a) && a@ == suggested_action@,
    {
        TargetCapabilityDiagnostic {
            capability,
            code: owned(code),
            message,
            suggested_action: Some(owned(suggested_action)),
        }
    }
}

/// A window or display as the platform adapter discovered it.
#[derive(Debug, Clone, PartialEq, Eq)]
pub struct TargetDescriptor {
    pub id: String,
    pub kind: CaptureTargetKind,
    pub name: String,
    pub title: Option<String>,
    pub bounds: Bounds,
    pub scale_factor: ScaleFactor,
    pub capture_supported: bool,
    pub input_supported: bool,
    pub diagnostics: Vec<TargetCapabilityDiagnostic>,
    pub app_name: Option<String>,
    pub process_id: Option<u32>,
}

/// An image captured by the adapter.
#[derive(Debug, Clone, PartialEq, Eq)]
pub struct CaptureArtifact {
    pub target_id: String,
    pub media_type: String,
    pub image_bytes: Vec<u8>,
    pub captured_at: String,
}

/// Every target the adapter discovered.
#[derive(Debug, Clone, PartialEq, Eq)]
pub struct TargetInventory {
    pub targets: Vec<TargetDescriptor>,
}


/// The name `{:?}` prints for a platform.
pub open spec fn platform_name_spec(p: PlatformKind) -> Seq<char> {
    match p {
        PlatformKind::Linux => "Linux"@,
        PlatformKind::Windows11 => "Windows11"@,
        PlatformKind::MacOs => "MacOs"@,
        PlatformKind::Android => "Android"@,
    }
}

pub fn platform_name(p: PlatformKind) -> (r: &'static str)
    ensures
        r@ == platform_name_spec(p),
{
    match p {
        PlatformKind::Linux => "Linux",
        PlatformKind::Windows11 => "Windows11",
        PlatformKind::MacOs => "MacOs",
        PlatformKind::Android => "Android",
    }
}

/// The name `{:?}` prints for a session.
pub open spec fn session_name_spec(s: DesktopSession) -> Seq<char> {
    match s {
        DesktopSession::X11 => "X11"@,
        DesktopSession::Wayland => "Wayland"@,
        DesktopSession::MacOsWindowServer => "MacOsWindowServer"@,
        DesktopSession::WindowsDesktop => "WindowsDesktop"@,
        DesktopSession::AndroidDevice => "AndroidDevice"@,
        DesktopSession::Unknown => "Unknown"@,
    }
}

pub fn session_name(s: DesktopSession) -> (r: &'static str)
    ensures
        r@ == session_name_spec(s),
{
    match s {
        DesktopSession::X11 => "X11",
        DesktopSession::Wayland => "Wayland",
        DesktopSession::MacOsWindowServer => "MacOsWindowServer",
        DesktopSession::WindowsDesktop => "WindowsDesktop",
        DesktopSession::AndroidDevice => "AndroidDevice",
        DesktopSession::Unknown => "Unknown",
    }
}

/// The name `{:?}` prints for an audio backend.
pub open spec fn audio_backend_name_spec(b: AudioBackend) -> Seq<char> {
    match b {
        AudioBackend::PipeWire => "PipeWire"@,
        AudioBackend::PulseAudio => "PulseAudio"@,
        AudioBackend::CoreAudio => "CoreAudio"@,
        AudioBackend::Wasapi => "Wasapi"@,
    }
}

pub fn audio_backend_name(b: AudioBackend) -> (r: &'static str)
    ensures
        r@ == audio_backend_name_spec(b),
{
    match b {
        AudioBackend::PipeWire => "PipeWire",
        AudioBackend::PulseAudio => "PulseAudio",
        AudioBackend::CoreAudio => "CoreAudio",
        AudioBackend::Wasapi => "Wasapi",
    }
}


/// What the adapter reports about recording audio from a source.
#[derive(Debug, Clone, PartialEq, Eq)]
pub struct AudioCapabilityReport {
    pub backend: Option<AudioBackend>,
    pub supported_sample_rates_hz: Vec<u32>,
    pub supported_channel_counts: Vec<u8>,
    pub permissions: Vec<PermissionStatus>,
}

} // verus!
