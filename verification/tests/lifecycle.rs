use wechsel_wallpaper::errors::PluginError;
use wechsel_wallpaper::orchestrator::PluginState;
use wechsel_wallpaper::orchestrator::ProjectEntry;
use wechsel_wallpaper::store::SourceArg;
use wechsel_wallpaper::store::WallpaperStore;

fn count_occurrences(h: &[u8], n: &[u8]) -> usize {
    if n.is_empty() || n.len() > h.len() {
        return 0;
    }
    let mut count = 0;
    for i in 0..=(h.len() - n.len()) {
        if &h[i..i + n.len()] == n {
            count += 1;
        }
    }
    count
}

fn entry(name: &[u8], dark: Option<&[u8]>, light: Option<&[u8]>) -> ProjectEntry {
    ProjectEntry {
        name: name.to_vec(),
        store: WallpaperStore { dark: dark.map(|d| d.to_vec()), light: light.map(|l| l.to_vec()) },
    }
}

#[test]
fn init_creates_files_and_splices_hook_once() {
    let mut s = PluginState::new();
    s.hook = Some(b"#!/bin/sh\necho hi\n".to_vec());
    let block = b"wechsel-wallpaper hook block\n".to_vec();
    let r = s.init(b"script one".to_vec(), b"script two".to_vec(), &block);
    assert!(r.is_ok());
    assert_eq!(s.wallpaper_script, Some(b"script one".to_vec()));
    assert_eq!(s.deinit_script, Some(b"script two".to_vec()));
    assert_eq!(s.ledger, Some(Vec::new()));
    let hook = s.hook.clone().unwrap();
    assert_eq!(hook, b"#!/bin/sh\necho hi\nwechsel-wallpaper hook block\n".to_vec());
    assert_eq!(count_occurrences(&hook, &block), 1);
}

#[test]
fn init_without_hook_script_fails_but_writes_files() {
    let mut s = PluginState::new();
    let r = s.init(b"a".to_vec(), b"b".to_vec(), &b"block".to_vec());
    assert_eq!(r, Err(PluginError::Io));
    assert_eq!(s.wallpaper_script, Some(b"a".to_vec()));
    assert_eq!(s.deinit_script, Some(b"b".to_vec()));
    assert_eq!(s.ledger, Some(Vec::new()));
    assert!(s.hook.is_none());
}

#[test]
fn install_then_remove_clears_directory_and_ledger_entry() {
    let mut s = PluginState::new();
    s.ledger = Some(b"alpha\n".to_vec());
    let r1 = s.install(&b"beta".to_vec(), &SourceArg::NotGiven, &SourceArg::NotGiven, false);
    assert!(r1.is_ok());
    assert_eq!(s.ledger, Some(b"alpha\nbeta\n".to_vec()));
    assert_eq!(s.projects.len(), 1);
    let r2 = s.remove(&b"beta".to_vec());
    assert!(r2.is_ok());
    assert_eq!(s.projects.len(), 0);
    assert_eq!(s.ledger, Some(b"alpha\n\n".to_vec()));
    assert_eq!(count_occurrences(s.ledger.as_ref().unwrap(), b"beta"), 0);
}

#[test]
fn install_without_replace_refuses_existing_dark() {
    let mut s = PluginState::new();
    s.ledger = Some(Vec::new());
    s.projects.push(entry(b"p", Some(b"old dark"), None));
    let r = s.install(
        &b"p".to_vec(),
        &SourceArg::Bytes(b"new dark".to_vec()),
        &SourceArg::NotGiven,
        false,
    );
    assert_eq!(r, Err(PluginError::AlreadyExists));
    assert_eq!(s.projects[0].store.dark, Some(b"old dark".to_vec()));
    // the ledger line is already written by then: reruns accumulate
    assert_eq!(s.ledger, Some(b"p\n".to_vec()));
}

#[test]
fn install_with_replace_overwrites_exactly() {
    let mut s = PluginState::new();
    s.ledger = Some(Vec::new());
    s.projects.push(entry(b"p", Some(b"old dark"), Some(b"old light")));
    let r = s.install(
        &b"p".to_vec(),
        &SourceArg::Bytes(b"new dark".to_vec()),
        &SourceArg::Bytes(b"new light".to_vec()),
        true,
    );
    assert!(r.is_ok());
    assert_eq!(s.projects[0].store.dark, Some(b"new dark".to_vec()));
    assert_eq!(s.projects[0].store.light, Some(b"new light".to_vec()));
}

#[test]
fn install_missing_source_is_invalid() {
    let mut s = PluginState::new();
    s.ledger = Some(Vec::new());
    let r = s.install(&b"p".to_vec(), &SourceArg::Missing, &SourceArg::NotGiven, false);
    assert_eq!(r, Err(PluginError::InvalidSource));
    // the directory was still created and the name recorded
    assert_eq!(s.projects.len(), 1);
    assert_eq!(s.ledger, Some(b"p\n".to_vec()));
}

#[test]
fn install_without_ledger_fails_after_creating_directory() {
    let mut s = PluginState::new();
    let r = s.install(&b"p".to_vec(), &SourceArg::NotGiven, &SourceArg::NotGiven, false);
    assert_eq!(r, Err(PluginError::Io));
    assert_eq!(s.projects.len(), 1);
    assert!(s.ledger.is_none());
}

#[test]
fn install_save_round_trip() {
    let mut s = PluginState::new();
    s.ledger = Some(Vec::new());
    let r1 = s.install(
        &b"p".to_vec(),
        &SourceArg::Bytes(b"dark bytes".to_vec()),
        &SourceArg::Bytes(b"light bytes".to_vec()),
        false,
    );
    assert!(r1.is_ok());
    let saved = s.save(&b"p".to_vec(), true).unwrap();
    assert_eq!(saved.0, b"dark bytes".to_vec());
    assert_eq!(saved.1, b"light bytes".to_vec());
}

#[test]
fn save_errors() {
    let mut s = PluginState::new();
    assert_eq!(s.save(&b"p".to_vec(), true), Err(PluginError::NotInstalled));
    s.projects.push(entry(b"p", Some(b"d"), Some(b"l")));
    assert_eq!(s.save(&b"p".to_vec(), false), Err(PluginError::InvalidDestination));
    s.projects[0].store.light = None;
    assert_eq!(s.save(&b"p".to_vec(), true), Err(PluginError::Io));
}

#[test]
fn remove_of_absent_project_is_a_noop() {
    let mut s = PluginState::new();
    let r = s.remove(&b"ghost".to_vec());
    assert!(r.is_ok());
    assert!(s.ledger.is_none());
    assert_eq!(s.projects.len(), 0);
}

#[test]
fn deinit_without_delete_touches_no_store() {
    let mut s = PluginState::new();
    s.wallpaper_script = Some(b"ws".to_vec());
    s.deinit_script = Some(b"ds".to_vec());
    s.ledger = Some(b"p\n".to_vec());
    s.hook = Some(b"pre BLOCK post".to_vec());
    s.projects.push(entry(b"p", Some(b"d"), None));
    let r = s.deinit(&b"BLOCK".to_vec(), false);
    assert!(r.is_ok());
    assert!(s.wallpaper_script.is_none());
    assert_eq!(s.deinit_script, Some(b"ds".to_vec()));
    assert_eq!(s.hook, Some(b"pre  post".to_vec()));
    assert_eq!(s.ledger, Some(b"p\n".to_vec()));
    assert_eq!(s.projects.len(), 1);
    assert_eq!(s.projects[0].store.dark, Some(b"d".to_vec()));
}

#[test]
fn deinit_with_delete_purges_listed_stores_and_ledger() {
    let mut s = PluginState::new();
    s.ledger = Some(b"alpha\nbeta\n".to_vec());
    s.hook = Some(b"BLOCK".to_vec());
    s.projects.push(entry(b"alpha", Some(b"a"), None));
    s.projects.push(entry(b"gamma", Some(b"g"), None));
    s.projects.push(entry(b"beta", None, Some(b"b")));
    let r = s.deinit(&b"BLOCK".to_vec(), true);
    assert!(r.is_ok());
    assert!(s.ledger.is_none());
    assert_eq!(s.hook, Some(Vec::new()));
    assert_eq!(s.projects.len(), 1);
    assert_eq!(s.projects[0].name, b"gamma".to_vec());
}

#[test]
fn deinit_with_delete_needs_the_ledger() {
    let mut s = PluginState::new();
    let r = s.deinit(&b"BLOCK".to_vec(), true);
    assert_eq!(r, Err(PluginError::Io));
}

#[test]
fn deinit_twice_in_a_row_succeeds() {
    let mut s = PluginState::new();
    s.wallpaper_script = Some(b"ws".to_vec());
    s.hook = Some(b"a BLOCK b".to_vec());
    s.ledger = Some(Vec::new());
    assert!(s.deinit(&b"BLOCK".to_vec(), false).is_ok());
    // already deinitialized: script gone, block gone — must still succeed
    assert!(s.deinit(&b"BLOCK".to_vec(), false).is_ok());
    assert_eq!(s.hook, Some(b"a  b".to_vec()));
    // and after a delete-all pass, a further run also succeeds
    assert!(s.deinit(&b"BLOCK".to_vec(), true).is_ok());
    assert!(s.deinit(&b"BLOCK".to_vec(), false).is_ok());
}

#[test]
fn repeated_installs_leave_duplicate_ledger_lines() {
    let mut s = PluginState::new();
    s.ledger = Some(Vec::new());
    assert!(s.install(&b"p".to_vec(), &SourceArg::NotGiven, &SourceArg::NotGiven, false).is_ok());
    assert!(s.install(&b"p".to_vec(), &SourceArg::NotGiven, &SourceArg::NotGiven, false).is_ok());
    assert_eq!(s.ledger, Some(b"p\np\n".to_vec()));
    assert_eq!(s.projects.len(), 1);
}
