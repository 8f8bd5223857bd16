use vstd::prelude::*;

verus! {

/// The failure taxonomy of the plugin.
///
/// - `Resolution`: a project name or its path could not be determined.
/// - `InvalidSource` / `InvalidDestination`: a supplied filesystem path does
///   not point at an existing file or directory.
/// - `AlreadyExists`: refusing to overwrite an installed wallpaper without
///   an explicit replace request.
/// - `NotInstalled`: the project has no wallpaper directory.
/// - `Io`: a file that must exist is missing, or a read/write/delete failed.
/// - `Subprocess`: an external command could not be launched or its output
///   could not be read (only raised at the process boundary, never by the
///   library's own logic).
#[derive(Clone, Copy, Debug, PartialEq, Eq, Structural)]
pub enum PluginError {
    Resolution,
    InvalidSource,
    InvalidDestination,
    AlreadyExists,
    NotInstalled,
    Io,
    Subprocess,
}

} // verus!
