//! Desktop integration decisions: the Start with Windows command and registry
//! plan, the minimized-start flag, the tray's wording for each Session state,
//! and the application manifest that keeps Formation Lap unprivileged.
use crate::model::SessionState;
use crate::text::{chars_of, same_text, string_from_chars};
use crate::update_providers::{parsed_url, url_parts, url_view, UrlParts, UrlView};
use vstd::prelude::*;

verus! {

/// The argument that opens Formation Lap minimized to the tray.
pub const START_MINIMIZED_ARGUMENT: &'static str = "--minimized";

/// The per-user registry key whose values Windows runs at sign-in.
pub const STARTUP_RUN_SUBKEY: &'static str = "Software\\Microsoft\\Windows\\CurrentVersion\\Run";

/// The registry value Formation Lap owns under the run key.
pub const STARTUP_VALUE_NAME: &'static str = "com.formationlap.desktop.StartWithWindows.v1";

/// The registry value earlier releases wrote.
pub const LEGACY_STARTUP_VALUE_NAME: &'static str = "Formation Lap";

/// Whether the process was started with the minimized flag.
pub open spec fn has_minimized_argument(arguments: Seq<String>) -> bool {
    exists|index: int| 0 <= index < arguments.len() && #[trigger] arguments[index]@ == "--minimized"@
}

/// Whether any command-line argument asks for a minimized start.
pub fn started_minimized(arguments: &Vec<String>) -> (res: bool)
    ensures
        res == has_minimized_argument(arguments@),
{
    proof {
        reveal_strlit("--minimized");
    }
    let mut index: usize = 0;
    while index < arguments.len()
        invariant
            index <= arguments@.len(),
            forall|earlier: int| 0 <= earlier < index ==> arguments@[earlier]@ != "--minimized"@,
        decreases arguments@.len() - index,
    {
        if same_text(arguments[index].as_str(), START_MINIMIZED_ARGUMENT) {
            assert(arguments@[index as int]@ == "--minimized"@);
            return true;
        }
        index = index + 1;
    }
    false
}

/// The command Windows runs at sign-in: the quoted executable path and the
/// minimized flag, nothing else.
pub open spec fn startup_command_text(executable: Seq<char>) -> Seq<char> {
    "\""@ + executable + "\" --minimized"@
}

/// Renders the Start with Windows command for an executable path.
pub fn startup_command(executable: &str) -> (res: String)
    ensures
        res@ == startup_command_text(executable@),
{
    let mut command = chars_of("\"");
    let mut path = chars_of(executable);
    let mut tail = chars_of("\" --minimized");
    command.append(&mut path);
    command.append(&mut tail);
    string_from_chars(&command)
}

/// The commands this executable may own: the command for its path, and the
/// command for its canonical path when that differs.
pub fn owned_startup_commands(expected: String, canonical: Option<String>) -> (res: Vec<String>)
    ensures
        canonical is Some && canonical->0@ != expected@ ==> res@ == seq![expected, canonical->0],
        !(canonical is Some && canonical->0@ != expected@) ==> res@ == seq![expected],
{
    let mut commands: Vec<String> = Vec::new();
    match canonical {
        Some(other) => {
            let differs = !same_text(other.as_str(), expected.as_str());
            commands.push(expected);
            if differs {
                commands.push(other);
            }
        },
        None => {
            commands.push(expected);
        },
    }
    commands
}

/// Which registry writes and deletions bring the startup values in line.
#[derive(Clone, Copy, Debug, PartialEq, Eq, Structural)]
pub struct StartupRegistrationPlan {
    pub write_namespaced: bool,
    pub delete_namespaced: bool,
    pub delete_legacy: bool,
}

impl Default for StartupRegistrationPlan {
    fn default() -> (res: Self)
        ensures
            !res.write_namespaced && !res.delete_namespaced && !res.delete_legacy,
    {
        StartupRegistrationPlan { write_namespaced: false, delete_namespaced: false, delete_legacy: false }
    }
}

/// Why the startup values cannot be changed.
#[derive(Debug)]
pub struct StartupRegistrationError {
    pub message: String,
}

/// Whether a registry value is one of the commands this executable owns.
pub open spec fn is_owned_command(owned_commands: Seq<&str>, value: Seq<char>) -> bool {
    exists|index: int| 0 <= index < owned_commands.len() && #[trigger] owned_commands[index]@ == value
}

fn command_is_owned(owned_commands: &[&str], value: &str) -> (res: bool)
    ensures
        res == is_owned_command(owned_commands@, value@),
{
    let mut index: usize = 0;
    while index < owned_commands.len()
        invariant
            index <= owned_commands@.len(),
            forall|earlier: int| 0 <= earlier < index ==> owned_commands@[earlier]@ != value@,
        decreases owned_commands@.len() - index,
    {
        if same_text(owned_commands[index], value) {
            assert(owned_commands@[index as int]@ == value@);
            return true;
        }
        index = index + 1;
    }
    false
}

/// Plans the registry changes for the Start with Windows setting.
///
/// A namespaced value that this executable does not own is never overwritten
/// or deleted: the plan is refused. Only exact owned commands are deleted, and
/// the namespaced value is written only where none exists.
pub fn plan_startup_registration(
    enabled: bool,
    owned_commands: &[&str],
    namespaced_value: Option<&str>,
    legacy_value: Option<&str>,
) -> (res: Result<StartupRegistrationPlan, StartupRegistrationError>)
    ensures
        res is Err <==> (namespaced_value matches Some(value) && !is_owned_command(
            owned_commands@,
            value@,
        )),
        res matches Ok(plan) ==> {
            &&& plan.write_namespaced == (enabled && namespaced_value is None)
            &&& plan.delete_namespaced == (!enabled && namespaced_value is Some && is_owned_command(
                owned_commands@,
                namespaced_value->0@,
            ))
            &&& plan.delete_legacy == (legacy_value matches Some(value) && is_owned_command(
                owned_commands@,
                value@,
            ))
        },
{
    let namespaced_owned = match namespaced_value {
        Some(value) => {
            let owned = command_is_owned(owned_commands, value);
            if !owned {
                return Err(
                    StartupRegistrationError {
                        message: String::from_str(
                            "the Formation Lap startup value is not owned by this executable",
                        ),
                    },
                );
            }
            true
        },
        None => false,
    };
    let legacy_owned = match legacy_value {
        Some(value) => command_is_owned(owned_commands, value),
        None => false,
    };
    Ok(
        StartupRegistrationPlan {
            write_namespaced: enabled && namespaced_value.is_none(),
            delete_namespaced: !enabled && namespaced_owned,
            delete_legacy: legacy_owned,
        },
    )
}

/// The tray's status line, its Session action label, and whether that action is enabled.
pub open spec fn tray_status_text(state: SessionState) -> (Seq<char>, Seq<char>, bool) {
    match state {
        SessionState::Idle => ("Ready"@, "No Active Session"@, false),
        SessionState::Starting => ("Starting Session"@, "Cancel Startup"@, true),
        SessionState::Cancelling => ("Cancelling Startup"@, "Cancelling…"@, false),
        SessionState::Active => ("Session active"@, "Close Session"@, true),
        SessionState::Closing => ("Closing Session"@, "Closing…"@, false),
        SessionState::RecoveryAvailable => ("Recovery available"@, "Review Recovery"@, true),
    }
}

/// The tray's wording for a Session state.
pub fn tray_status(state: SessionState) -> (res: (&'static str, &'static str, bool))
    ensures
        (res.0@, res.1@, res.2) == tray_status_text(state),
{
    match state {
        SessionState::Idle => ("Ready", "No Active Session", false),
        SessionState::Starting => ("Starting Session", "Cancel Startup", true),
        SessionState::Cancelling => ("Cancelling Startup", "Cancelling…", false),
        SessionState::Active => ("Session active", "Close Session", true),
        SessionState::Closing => ("Closing Session", "Closing…", false),
        SessionState::RecoveryAvailable => ("Recovery available", "Review Recovery", true),
    }
}

/// Whether the window may show a page: Formation Lap's own `tauri:` pages, the
/// bundled origin `tauri.localhost`, and in a development build the local
/// development server.
pub open spec fn navigation_allowed(url: UrlView, development_build: bool) -> bool {
    ||| url.scheme == "tauri"@
    ||| (url.scheme == "http"@ || url.scheme == "https"@) && url.host == Some("tauri.localhost"@)
    ||| development_build && url.scheme == "http"@ && (url.host == Some("localhost"@) || url.host == Some(
        "127.0.0.1"@,
    ))
}

/// Decides a navigation from the parts of its URL.
pub fn navigation_allowed_for(url: &UrlParts, development_build: bool) -> (res: bool)
    ensures
        res == navigation_allowed(url_view(*url), development_build),
{
    let scheme = url.scheme.as_str();
    let host_is = |expected: &str| -> (matches: bool)
        ensures
            matches == (url.host matches Some(host) && host@ == expected@),
        {
            match &url.host {
                Some(host) => same_text(host.as_str(), expected),
                None => false,
            }
        };
    if same_text(scheme, "tauri") {
        return true;
    }
    if (same_text(scheme, "http") || same_text(scheme, "https")) && host_is("tauri.localhost") {
        return true;
    }
    development_build && same_text(scheme, "http") && (host_is("localhost") || host_is("127.0.0.1"))
}

/// Whether the window may navigate to a URL; a URL that does not parse is refused.
pub fn navigation_is_allowed(url: &str, development_build: bool) -> (res: bool)
    ensures
        res == match parsed_url(url@) {
            Some(parts) => navigation_allowed(parts, development_build),
            None => false,
        },
{
    match url_parts(url) {
        Some(parts) => navigation_allowed_for(&parts, development_build),
        None => false,
    }
}

/// The privilege level a Windows executable asks for when it starts.
#[derive(Clone, Copy, Debug, PartialEq, Eq, Structural)]
pub enum RequestedExecutionLevel {
    /// Runs with the rights of the user who started it.
    AsInvoker,
    /// Runs with the highest rights the user can grant without switching account.
    HighestAvailable,
    /// Asks for administrator rights at every start.
    RequireAdministrator,
}

/// The name Windows manifests give an execution level.
pub open spec fn execution_level_text(level: RequestedExecutionLevel) -> Seq<char> {
    match level {
        RequestedExecutionLevel::AsInvoker => "asInvoker"@,
        RequestedExecutionLevel::HighestAvailable => "highestAvailable"@,
        RequestedExecutionLevel::RequireAdministrator => "requireAdministrator"@,
    }
}

/// The name Windows manifests give an execution level.
pub fn execution_level_name(level: RequestedExecutionLevel) -> (res: &'static str)
    ensures
        res@ == execution_level_text(level),
{
    match level {
        RequestedExecutionLevel::AsInvoker => "asInvoker",
        RequestedExecutionLevel::HighestAvailable => "highestAvailable",
        RequestedExecutionLevel::RequireAdministrator => "requireAdministrator",
    }
}

/// The level Formation Lap itself asks for: it runs as the signed-in user, and
/// only the elevated helper, launched on request, ever holds administrator rights.
pub fn main_application_execution_level() -> (res: RequestedExecutionLevel)
    ensures
        res == RequestedExecutionLevel::AsInvoker,
{
    RequestedExecutionLevel::AsInvoker
}

/// The part of the application manifest before the requested execution level.
pub const APP_MANIFEST_HEAD: &'static str = "<assembly xmlns=\"urn:schemas-microsoft-com:asm.v1\" manifestVersion=\"1.0\">\n  <dependency>\n    <dependentAssembly>\n      <assemblyIdentity\n        type=\"win32\"\n        name=\"Microsoft.Windows.Common-Controls\"\n        version=\"6.0.0.0\"\n        processorArchitecture=\"*\"\n        publicKeyToken=\"6595b64144ccf1df\"\n        language=\"*\"\n      />\n    </dependentAssembly>\n  </dependency>\n  <trustInfo xmlns=\"urn:schemas-microsoft-com:asm.v3\">\n    <security>\n      <requestedPrivileges>\n        <requestedExecutionLevel level=\"";

/// The part of the application manifest after the requested execution level.
pub const APP_MANIFEST_TAIL: &'static str = "\" uiAccess=\"false\" />\n      </requestedPrivileges>\n    </security>\n  </trustInfo>\n</assembly>\n";

/// The Windows application manifest for an execution level.
pub open spec fn app_manifest_text(level: RequestedExecutionLevel) -> Seq<char> {
    APP_MANIFEST_HEAD@ + execution_level_text(level) + APP_MANIFEST_TAIL@
}

/// The Windows application manifest embedded in Formation Lap's executable: it
/// requests the main application's own execution level, never administrator rights.
pub fn windows_app_manifest() -> (res: String)
    ensures
        res@ == app_manifest_text(RequestedExecutionLevel::AsInvoker),
{
    let level = main_application_execution_level();
    let mut characters = chars_of(APP_MANIFEST_HEAD);
    let mut middle = chars_of(execution_level_name(level));
    let mut tail = chars_of(APP_MANIFEST_TAIL);
    characters.append(&mut middle);
    characters.append(&mut tail);
    string_from_chars(&characters)
}

} // verus!
