use wechsel_wallpaper::errors::PluginError;
use wechsel_wallpaper::paths::get_project_wallpaper_dir;
use wechsel_wallpaper::paths::get_wallpaper_dir;
use wechsel_wallpaper::paths::resolve_project_name;

#[test]
fn wallpaper_dir_is_the_fixed_hidden_subdirectory() {
    let d = get_wallpaper_dir(&b"/home/u/prj".to_vec());
    assert_eq!(d, b"/home/u/prj/.wechsel_wallpapers".to_vec());
}

#[test]
fn resolve_prefers_the_given_name() {
    let r = resolve_project_name(Some(b"beta".to_vec()), b"alpha".to_vec());
    assert_eq!(r, Ok(b"beta".to_vec()));
}

#[test]
fn resolve_falls_back_to_the_current_project() {
    let r = resolve_project_name(None, b"alpha".to_vec());
    assert_eq!(r, Ok(b"alpha".to_vec()));
}

#[test]
fn resolve_rejects_empty_names() {
    assert_eq!(
        resolve_project_name(Some(Vec::new()), b"alpha".to_vec()),
        Err(PluginError::Resolution),
    );
    assert_eq!(resolve_project_name(None, Vec::new()), Err(PluginError::Resolution));
}

#[test]
fn project_wallpaper_dir_rejects_an_empty_path_answer() {
    assert_eq!(
        get_project_wallpaper_dir(&b"p".to_vec(), &Vec::new()),
        Err(PluginError::Resolution),
    );
    assert_eq!(
        get_project_wallpaper_dir(&Vec::new(), &b"/root/p".to_vec()),
        Err(PluginError::Resolution),
    );
    assert_eq!(
        get_project_wallpaper_dir(&b"p".to_vec(), &b"/root/p".to_vec()),
        Ok(b"/root/p/.wechsel_wallpapers".to_vec()),
    );
}
