//! Plugin manifest vocabulary: transports, plugin kinds, runtime status,
//! per-platform commands and the errors a plugin call can raise.

use vstd::prelude::*;

verus! {

/// What went wrong in a plugin call; each variant carries a detail message.
#[derive(Debug)]
pub enum PluginError {
    NotFound(String),
    Plugin(String),
    Transport(String),
    InvalidPayload(String),
    InvalidResponse(String),
    UnsupportedAction(String),
    Init(String),
    Shutdown(String),
}

/// The text before the detail in a plugin error's message.
pub open spec fn plugin_error_prefix(e: PluginError) -> Seq<char> {
    match e {
        PluginError::NotFound(_) => "Plugin not found: "@,
        PluginError::Plugin(_) => "Plugin error: "@,
        PluginError::Transport(_) => "Transport error: "@,
        PluginError::InvalidPayload(_) => "Invalid payload: "@,
        PluginError::InvalidResponse(_) => "Invalid response: "@,
        PluginError::UnsupportedAction(_) => "Unsupported action: "@,
        PluginError::Init(_) => "Initialization failed: "@,
        PluginError::Shutdown(_) => "Shutdown failed: "@,
    }
}

pub open spec fn plugin_error_detail(e: PluginError) -> Seq<char> {
    match e {
        PluginError::NotFound(s) => s@,
        PluginError::Plugin(s) => s@,
        PluginError::Transport(s) => s@,
        PluginError::InvalidPayload(s) => s@,
        PluginError::InvalidResponse(s) => s@,
        PluginError::UnsupportedAction(s) => s@,
        PluginError::Init(s) => s@,
        PluginError::Shutdown(s) => s@,
    }
}

impl PluginError {
    /// The human-readable message: a fixed prefix naming the kind of
    /// failure, then the detail.
    pub fn message(&self) -> (r: String)
        ensures
            r@ == plugin_error_prefix(*self) + plugin_error_detail(*self),
    {
        let (prefix, detail) = match self {
            PluginError::NotFound(s) => ("Plugin not found: ", s),
            PluginError::Plugin(s) => ("Plugin error: ", s),
            PluginError::Transport(s) => ("Transport error: ", s),
            PluginError::InvalidPayload(s) => ("Invalid payload: ", s),
            PluginError::InvalidResponse(s) => ("Invalid response: ", s),
            PluginError::UnsupportedAction(s) => ("Unsupported action: ", s),
            PluginError::Init(s) => ("Initialization failed: ", s),
            PluginError::Shutdown(s) => ("Shutdown failed: ", s),
        };
        let mut r = prefix.to_owned();
        r.append(detail.as_str());
        r
    }
}

/// How the host talks to a plugin.
#[derive(PartialEq, Eq, Structural, Clone, Copy, Debug)]
pub enum Transport {
    Http,
    Stdio,
    /// Compiled into the application.
    Builtin,
}

/// What a plugin is for.
#[derive(PartialEq, Eq, Structural, Clone, Copy, Debug)]
pub enum PluginType {
    AsrEngine,
    LlmProvider,
    Recorder,
    Uploader,
    SyncProvider,
    WorkspaceAdapter,
    DanmakuSource,
    DanmakuRenderer,
    Exporter,
    StorageProvider,
}

/// Runtime status of a plugin.
#[derive(PartialEq, Eq, Structural, Clone, Copy, Debug)]
pub enum PluginStatus {
    /// Discovered but not loaded.
    Discovered,
    /// Loaded and ready.
    Loaded,
    /// Its managed service is running.
    Running,
    /// It failed.
    Error,
    /// Disabled by the user.
    Disabled,
}

/// The operating systems a plugin can ship commands for.
#[derive(PartialEq, Eq, Structural, Clone, Copy, Debug)]
pub enum HostOs {
    Windows,
    MacOs,
    Linux,
}

/// The host system named as `std::env::consts::OS` names it, if it is one
/// that plugin manifests address.
pub open spec fn host_os_named(name: Seq<char>) -> Option<HostOs> {
    if name == "windows"@ {
        Some(HostOs::Windows)
    } else if name == "macos"@ {
        Some(HostOs::MacOs)
    } else if name == "linux"@ {
        Some(HostOs::Linux)
    } else {
        None
    }
}

impl HostOs {
    /// Reads an operating system name as `std::env::consts::OS` spells it.
    pub fn from_name(name: &str) -> (r: Option<HostOs>)
        ensures
            r == host_os_named(name@),
    {
        proof {
            reveal_strlit("windows");
            reveal_strlit("macos");
            reveal_strlit("linux");
        }
        let cs = crate::text::chars_of(name);
        let w = crate::text::chars_of("windows");
        let m = crate::text::chars_of("macos");
        let l = crate::text::chars_of("linux");
        if crate::text::chars_eq(&cs, &w) {
            Some(HostOs::Windows)
        } else if crate::text::chars_eq(&cs, &m) {
            Some(HostOs::MacOs)
        } else if crate::text::chars_eq(&cs, &l) {
            Some(HostOs::Linux)
        } else {
            None
        }
    }
}

/// A startup command or executable path per platform.
pub struct PlatformCommand {
    pub windows: Option<String>,
    pub darwin: Option<String>,
    pub linux: Option<String>,
}

pub open spec fn opt_view(o: Option<String>) -> Option<Seq<char>> {
    match o {
        Some(s) => Some(s@),
        None => None,
    }
}

impl PlatformCommand {
    pub open spec fn for_os(self, os: HostOs) -> Option<String> {
        match os {
            HostOs::Windows => self.windows,
            HostOs::MacOs => self.darwin,
            HostOs::Linux => self.linux,
        }
    }

    /// The command for the platform `os`.
    pub fn current(&self, os: HostOs) -> (r: Option<String>)
        ensures
            opt_view(r) == opt_view(self.for_os(os)),
    {
        let slot = match os {
            HostOs::Windows => &self.windows,
            HostOs::MacOs => &self.darwin,
            HostOs::Linux => &self.linux,
        };
        match slot {
            Some(s) => Some(s.clone()),
            None => None,
        }
    }
}

impl Default for PlatformCommand {
    fn default() -> (r: Self)
        ensures
            r.windows.is_none(),
            r.darwin.is_none(),
            r.linux.is_none(),
    {
        PlatformCommand { windows: None, darwin: None, linux: None }
    }
}

/// A plugin this one needs.
pub struct PluginDependency {
    pub id: String,
    /// Semver requirement such as `>=1.0.0`.
    pub version: Option<String>,
}

/// A plugin this one cannot run beside.
pub struct PluginConflict {
    pub id: String,
    pub reason: Option<String>,
}

/// Where a plugin's UI bundle lives and where it mounts.
pub struct PluginFrontend {
    /// Path of the script bundle, relative to the plugin directory.
    pub entry: String,
    /// Mount point in the settings page.
    pub target: String,
}

pub open spec fn default_frontend_target_spec() -> Seq<char> {
    "settings"@
}

/// The mount point used when a manifest names none.
pub fn default_frontend_target() -> (r: String)
    ensures
        r@ == default_frontend_target_spec(),
{
    "settings".to_owned()
}

/// The plugin API version assumed when a manifest names none.
pub fn default_api_version() -> (r: u32)
    ensures
        r == 1,
{
    1
}

/// A plugin driven over standard input and output, one JSON line each way.
pub struct StdioTransport {
    pub executable: String,
    pub working_dir: String,
}

impl StdioTransport {
    pub fn new(executable: String, working_dir: String) -> (r: Self)
        ensures
            r.executable == executable,
            r.working_dir == working_dir,
    {
        StdioTransport { executable, working_dir }
    }
}

/// A plugin's `plugin.json`, as the host reads it.
pub struct PluginManifest {
    pub id: String,
    pub name: String,
    pub plugin_type: PluginType,
    pub version: String,
    /// The plugin API version ([`default_api_version`] when not given).
    pub api_version: u32,
    pub transport: Transport,
    /// Whether the host starts and stops the plugin's service.
    pub managed: bool,
    /// Whether at most one plugin of this type may be active.
    pub singleton: bool,
    /// The service's startup command, per platform.
    pub startup: Option<PlatformCommand>,
    /// The executable of a stdio plugin, per platform.
    pub executable: Option<PlatformCommand>,
    /// The health check path of an HTTP service.
    pub health_endpoint: Option<String>,
    /// The service's default port.
    pub port: Option<u16>,
    /// The settings form: each setting's name and its JSON schema.
    pub config_schema: Vec<(String, serde_json::Value)>,
    pub dependencies: Vec<PluginDependency>,
    pub conflicts: Vec<PluginConflict>,
    pub description: Option<String>,
    pub frontend: Option<PluginFrontend>,
}

/// A loaded plugin: its manifest, its directory (empty for built-in
/// plugins) and its runtime status.
pub struct PluginMeta {
    pub manifest: PluginManifest,
    pub dir: String,
    pub status: PluginStatus,
}

} // verus!
