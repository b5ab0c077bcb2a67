//! Machine-local configuration: capture, logging and execution-lock
//! defaults, their validation, and where the configuration file lives.
use vstd::prelude::*;

use crate::error::{is_text_detail, TendrilError};
use crate::envelope::ErrorCategory;
use crate::execution_lock::{DEFAULT_LOCK_STALE_MS, DEFAULT_LOCK_TIMEOUT_MS};
use crate::text::{self, opt_view, owned};

verus! {

/// Environment variable that overrides the configuration directory.
pub const CONFIG_DIR_ENV: &'static str = "TENDRIL_CONFIG_DIR";

#[derive(Debug, Clone, Copy, PartialEq, Eq, Structural)]
pub enum ImageFormat {
    Png,
    Jpeg,
}

impl Default for ImageFormat {
    fn default() -> (f: Self)
        ensures
            f == ImageFormat::Png,
    {
        ImageFormat::Png
    }
}

/// Screenshot defaults stored in the configuration file.
#[derive(Debug, Clone, Copy, PartialEq, Eq, Structural)]
pub struct CaptureDefaults {
    pub format: ImageFormat,
    pub compression: u8,
    pub max_width: Option<u32>,
    pub max_height: Option<u32>,
    /// Default per-call backend timeout; `None` lets the adapter choose.
    pub timeout_ms: Option<u64>,
}

impl Default for CaptureDefaults {
    /// PNG at compression 85 inside a 512x512 bounding box, no timeout.
    fn default() -> (d: Self)
        ensures
            d.format == ImageFormat::Png,
            d.compression == 85,
            d.max_width == Some(512u32),
            d.max_height == Some(512u32),
            d.timeout_ms is None,
    {
        CaptureDefaults {
            format: ImageFormat::Png,
            compression: 85,
            max_width: Some(512),
            max_height: Some(512),
            timeout_ms: None,
        }
    }
}

/// `e` is the configuration failure for `field` in the file at `path`.
pub open spec fn is_config_error(e: TendrilError, path: Seq<char>, field: Seq<char>, message: Seq<char>) -> bool {
    &&& e.is_structured()
    &&& e.category_spec() == ErrorCategory::ConfigError
    &&& e.code_spec() == "invalid_config"@
    &&& e.message_spec() == message
    &&& is_text_detail(e.detail_spec("field"@), field)
    &&& is_text_detail(e.detail_spec("path"@), path)
}

fn config_error(path: &str, message: &str, field: &str) -> (e: TendrilError)
    ensures
        is_config_error(e, path@, field@, message@),
{
    proof {
        reveal_strlit("path");
        reveal_strlit("field");
        assert("path"@.len() != "field"@.len());
    }
    TendrilError::config_path(path, message).with_code("invalid_config").with_field(field)
}

impl CaptureDefaults {
    /// Compression at most 100; limits and timeout, when set, non-zero.
    pub fn validate(&self, path: &str) -> (r: Result<(), TendrilError>)
        ensures
            r is Ok <==> (self.compression <= 100 && self.max_width != Some(0u32)
                && self.max_height != Some(0u32) && self.timeout_ms != Some(0u64)),
            r matches Err(e) ==> if self.compression > 100 {
                is_config_error(e, path@, "capture.compression"@, "capture.compression must be between 0 and 100"@)
            } else if self.max_width == Some(0u32) {
                is_config_error(e, path@, "capture.max_width"@, "capture.max_width must be greater than zero"@)
            } else if self.max_height == Some(0u32) {
                is_config_error(e, path@, "capture.max_height"@, "capture.max_height must be greater than zero"@)
            } else {
                is_config_error(e, path@, "capture.timeout_ms"@, "capture.timeout_ms must be greater than zero"@)
            },
    {
        if self.compression > 100 {
            return Err(config_error(path, "capture.compression must be between 0 and 100", "capture.compression"));
        }
        if self.max_width == Some(0u32) {
            return Err(config_error(path, "capture.max_width must be greater than zero", "capture.max_width"));
        }
        if self.max_height == Some(0u32) {
            return Err(config_error(path, "capture.max_height must be greater than zero", "capture.max_height"));
        }
        if self.timeout_ms == Some(0u64) {
            return Err(config_error(path, "capture.timeout_ms must be greater than zero", "capture.timeout_ms"));
        }
        Ok(())
    }
}

#[derive(Debug, Clone, Copy, PartialEq, Eq, Structural)]
pub enum LogLevel {
    Error,
    Warn,
    Info,
    Debug,
    Trace,
}

impl Default for LogLevel {
    fn default() -> (l: Self)
        ensures
            l == LogLevel::Info,
    {
        LogLevel::Info
    }
}

impl LogLevel {
    /// True for the levels that emit more than warnings: info, debug, trace.
    #[must_use]
    pub fn is_more_verbose_than_warn(self) -> (r: bool)
        ensures
            r == (self == LogLevel::Info || self == LogLevel::Debug || self == LogLevel::Trace),
    {
        match self {
            LogLevel::Info | LogLevel::Debug | LogLevel::Trace => true,
            LogLevel::Error | LogLevel::Warn => false,
        }
    }
}

#[derive(Debug, Clone, Copy, PartialEq, Eq, Structural)]
pub struct LoggingDefaults {
    pub level: LogLevel,
}

impl Default for LoggingDefaults {
    fn default() -> (d: Self)
        ensures
            d.level == LogLevel::Info,
    {
        LoggingDefaults { level: LogLevel::Info }
    }
}

/// Host-local execution lock defaults used by side-effecting commands.
#[derive(Debug, Clone, PartialEq, Eq)]
pub struct ExecutionLockDefaults {
    /// Whether `run` takes the host-local execution lock.
    pub enabled: bool,
    /// Longest wait in the local queue before a structured timeout.
    pub timeout_ms: u64,
    /// Heartbeat age after which a lock or ticket is reaped.
    pub stale_ms: u64,
    /// Optional override for the lock root.
    pub path: Option<String>,
}

impl Default for ExecutionLockDefaults {
    fn default() -> (d: Self)
        ensures
            d.enabled,
            d.timeout_ms == DEFAULT_LOCK_TIMEOUT_MS,
            d.stale_ms == DEFAULT_LOCK_STALE_MS,
            d.path is None,
    {
        ExecutionLockDefaults {
            enabled: true,
            timeout_ms: DEFAULT_LOCK_TIMEOUT_MS,
            stale_ms: DEFAULT_LOCK_STALE_MS,
            path: None,
        }
    }
}

impl ExecutionLockDefaults {
    /// Timeout and staleness must both be non-zero.
    pub fn validate(&self, path: &str) -> (r: Result<(), TendrilError>)
        ensures
            r is Ok <==> (self.timeout_ms != 0 && self.stale_ms != 0),
            r matches Err(e) ==> if self.timeout_ms == 0 {
                is_config_error(
                    e,
                    path@,
                    "execution_lock.timeout_ms"@,
                    "execution_lock.timeout_ms must be greater than zero"@,
                )
            } else {
                is_config_error(
                    e,
                    path@,
                    "execution_lock.stale_ms"@,
                    "execution_lock.stale_ms must be greater than zero"@,
                )
            },
    {
        if self.timeout_ms == 0 {
            return Err(config_error(
                path,
                "execution_lock.timeout_ms must be greater than zero",
                "execution_lock.timeout_ms",
            ));
        }
        if self.stale_ms == 0 {
            return Err(config_error(
                path,
                "execution_lock.stale_ms must be greater than zero",
                "execution_lock.stale_ms",
            ));
        }
        Ok(())
    }
}

/// Runtime configuration of machine-local defaults.
#[derive(Debug, Clone, PartialEq, Eq)]
pub struct TendrilConfig {
    pub capture: CaptureDefaults,
    pub logging: LoggingDefaults,
    pub execution_lock: ExecutionLockDefaults,
}

impl Default for TendrilConfig {
    fn default() -> (c: Self)
        ensures
            c.capture.format == ImageFormat::Png,
            c.capture.compression == 85,
            c.capture.max_width == Some(512u32),
            c.capture.max_height == Some(512u32),
            c.capture.timeout_ms is None,
            c.logging.level == LogLevel::Info,
            c.execution_lock.enabled,
            c.execution_lock.timeout_ms == DEFAULT_LOCK_TIMEOUT_MS,
            c.execution_lock.stale_ms == DEFAULT_LOCK_STALE_MS,
            c.execution_lock.path is None,
    {
        TendrilConfig {
            capture: CaptureDefaults::default(),
            logging: LoggingDefaults::default(),
            execution_lock: ExecutionLockDefaults::default(),
        }
    }
}

impl TendrilConfig {
    /// The configuration is valid when its capture and lock sections are.
    pub open spec fn valid(&self) -> bool {
        &&& self.capture.compression <= 100
        &&& self.capture.max_width != Some(0u32)
        &&& self.capture.max_height != Some(0u32)
        &&& self.capture.timeout_ms != Some(0u64)
        &&& self.execution_lock.timeout_ms != 0
        &&& self.execution_lock.stale_ms != 0
    }

    /// Validates the configuration read from the file at `path`.
    pub fn validate_with_path(&self, path: &str) -> (r: Result<(), TendrilError>)
        ensures
            r is Ok <==> self.valid(),
    {
        self.capture.validate(path)?;
        self.execution_lock.validate(path)?;
        Ok(())
    }

    /// Validates the configuration as if it came from `config.yaml`.
    pub fn validate(&self) -> (r: Result<(), TendrilError>)
        ensures
            r is Ok <==> self.valid(),
    {
        self.validate_with_path("config.yaml")
    }
}

/// Derived configuration locations.
#[derive(Debug, Clone, PartialEq, Eq)]
pub struct ConfigPaths {
    pub dir: String,
    pub file: String,
}

/// `Path::join` of a relative component: a separator is inserted unless the
/// base is empty or already ends with one.
pub open spec fn join_path(base: Seq<char>, rel: Seq<char>) -> Seq<char> {
    if base.len() == 0 {
        rel
    } else if base.last() == '/' {
        base + rel
    } else {
        base + seq!['/'] + rel
    }
}

pub(crate) fn join(base: &str, rel: &str) -> (r: String)
    ensures
        r@ == join_path(base@, rel@),
{
    let b = text::chars_of(base);
    let mut r = owned(base);
    if b.len() == 0 {
        return owned(rel);
    }
    if b[b.len() - 1] != '/' {
        text::push_char(&mut r, '/');
    }
    text::push_str(&mut r, rel);
    proof {
        assert(b@.last() == base@.last());
    }
    r
}

/// The configuration directory: the explicit override, else
/// `$XDG_CONFIG_HOME/tendril`, else `$HOME/.config/tendril`, else the relative
/// `.config/tendril`.
pub open spec fn config_dir_spec(config_dir: Option<Seq<char>>, xdg: Option<Seq<char>>, home: Option<Seq<char>>) -> Seq<char> {
    match config_dir {
        Some(d) => d,
        None => match xdg {
            Some(x) => join_path(x, "tendril"@),
            None => match home {
                Some(h) => join_path(h, ".config/tendril"@),
                None => ".config/tendril"@,
            },
        },
    }
}

/// Resolves the configuration directory and file from the environment's
/// values; the file is `config.yaml` inside the directory.
pub fn detect_paths(config_dir: Option<String>, xdg_config_home: Option<String>, home_dir: Option<String>) -> (p: ConfigPaths)
    ensures
        p.dir@ == config_dir_spec(opt_view(config_dir), opt_view(xdg_config_home), opt_view(home_dir)),
        p.file@ == join_path(p.dir@, "config.yaml"@),
{
    let dir = match config_dir {
        Some(d) => d,
        None => match xdg_config_home {
            Some(x) => join(x.as_str(), "tendril"),
            None => match home_dir {
                Some(h) => join(h.as_str(), ".config/tendril"),
                None => owned(".config/tendril"),
            },
        },
    };
    let file = join(dir.as_str(), "config.yaml");
    ConfigPaths { dir, file }
}

} // verus!
