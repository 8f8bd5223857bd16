//! Path derivation for the plugin. The external switcher resolves project
//! names to filesystem roots; this module only validates those answers and
//! derives the fixed wallpaper subdirectory from them. Paths are handled as
//! byte strings, the form in which they leave and enter the process boundary.

use vstd::prelude::*;

use crate::bytes::append_bytes;
use crate::bytes::clone_bytes;
use crate::errors::PluginError;

verus! {

/// The fixed hidden subdirectory holding a project's wallpapers:
/// the byte string `/.wechsel_wallpapers`.
pub open spec fn wallpaper_subdir() -> Seq<u8> {
    seq![
        47u8, 46u8, 119u8, 101u8, 99u8, 104u8, 115u8, 101u8, 108u8, 95u8, 119u8, 97u8, 108u8,
        108u8, 112u8, 97u8, 112u8, 101u8, 114u8, 115u8,
    ]
}

/// Appends the fixed wallpaper subdirectory to a project's root path.
pub fn get_wallpaper_dir(project_path: &Vec<u8>) -> (r: Vec<u8>)
    ensures
        r@ == project_path@ + wallpaper_subdir(),
{
    let mut r = clone_bytes(project_path);
    let mut suffix: Vec<u8> = Vec::new();
    suffix.push(47);
    suffix.push(46);
    suffix.push(119);
    suffix.push(101);
    suffix.push(99);
    suffix.push(104);
    suffix.push(115);
    suffix.push(101);
    suffix.push(108);
    suffix.push(95);
    suffix.push(119);
    suffix.push(97);
    suffix.push(108);
    suffix.push(108);
    suffix.push(112);
    suffix.push(97);
    suffix.push(112);
    suffix.push(101);
    suffix.push(114);
    suffix.push(115);
    proof {
        assert(suffix@ =~= wallpaper_subdir());
    }
    append_bytes(&mut r, &suffix);
    r
}

/// Picks the project name an operation acts on: the explicitly given one,
/// or the current project reported by the external switcher. An empty name
/// — given or current — cannot be resolved.
pub fn resolve_project_name(project: Option<Vec<u8>>, current: Vec<u8>) -> (r: Result<
    Vec<u8>,
    PluginError,
>)
    ensures
        ({
            let chosen = match project {
                Some(p) => p@,
                None => current@,
            };
            if chosen.len() == 0 {
                r == Err::<Vec<u8>, PluginError>(PluginError::Resolution)
            } else {
                r matches Ok(n) && n@ == chosen
            }
        }),
{
    let chosen = match project {
        Some(p) => p,
        None => current,
    };
    if chosen.len() == 0 {
        Err(PluginError::Resolution)
    } else {
        Ok(chosen)
    }
}

/// Derives the wallpaper directory of a resolved project. `project_path` is
/// the root path the external switcher reported for `project_name`; an empty
/// answer means the lookup failed, as does an empty name.
pub fn get_project_wallpaper_dir(project_name: &Vec<u8>, project_path: &Vec<u8>) -> (r: Result<
    Vec<u8>,
    PluginError,
>)
    ensures
        if project_name@.len() == 0 || project_path@.len() == 0 {
            r == Err::<Vec<u8>, PluginError>(PluginError::Resolution)
        } else {
            r matches Ok(d) && d@ == project_path@ + wallpaper_subdir()
        },
{
    if project_name.len() == 0 || project_path.len() == 0 {
        Err(PluginError::Resolution)
    } else {
        Ok(get_wallpaper_dir(project_path))
    }
}

} // verus!
