//! The mathematical model of the plugin's on-disk state and the exact
//! meaning of the five lifecycle operations. Each executable operation in
//! `orchestrator` is proved equal to one transition function here, so every
//! law about sequences of operations can be stated and proved over these
//! definitions alone.

use vstd::prelude::*;

use crate::bytes::remove_first_spec;
use crate::errors::PluginError;
use crate::ledger::nonempty_lines;
use crate::store::put_outcome;
use crate::store::SourceV;
use crate::store::StoreV;

verus! {

/// One project that currently has a wallpaper directory: its name and the
/// contents of its store.
#[verifier::ext_equal]
pub struct EntryV {
    pub name: Seq<u8>,
    pub store: StoreV,
}

/// Everything the plugin owns or mutates, each file either absent or
/// present with its bytes:
/// - the generated `wechsel-wallpaper` and `wechsel-wallpaper-deinit`
///   scripts,
/// - the ledger file `wechsel-wallpaper-installed`,
/// - the external `on-prj-change` hook script (mutated, not owned),
/// - the per-project wallpaper stores.
#[verifier::ext_equal]
pub struct StateV {
    pub wallpaper_script: Option<Seq<u8>>,
    pub deinit_script: Option<Seq<u8>>,
    pub ledger: Option<Seq<u8>>,
    pub hook: Option<Seq<u8>>,
    pub projects: Seq<EntryV>,
}

/// Index of the first entry named `name`, or `ps.len()` when there is none.
pub open spec fn find_entry_spec(ps: Seq<EntryV>, name: Seq<u8>) -> nat
    decreases ps.len(),
{
    if ps.len() == 0 {
        0
    } else if ps[0].name == name {
        0
    } else {
        1 + find_entry_spec(ps.drop_first(), name)
    }
}

/// No two entries carry the same project name.
pub open spec fn wf_projects(ps: Seq<EntryV>) -> bool {
    forall|i: int, j: int| 0 <= i < j < ps.len() ==> ps[i].name != ps[j].name
}

/// `find_entry_spec` is determined by where the names sit: if nothing
/// before `j` is named `name` and `j` is (or `j` is the end), the index is
/// `j`.
pub proof fn lemma_find_entry_at(ps: Seq<EntryV>, name: Seq<u8>, j: int)
    requires
        0 <= j <= ps.len(),
        forall|i: int| 0 <= i < j ==> ps[i].name != name,
        j == ps.len() || ps[j].name == name,
    ensures
        find_entry_spec(ps, name) == j,
    decreases ps.len(),
{
    if ps.len() == 0 {
    } else if ps[0].name == name {
        if j > 0 {
            assert(ps[0].name != name);
        }
    } else {
        assert(j != 0);
        let t = ps.drop_first();
        assert(forall|i: int| 0 <= i < j - 1 ==> t[i] == ps[i + 1] && t[i].name != name);
        if j < ps.len() {
            assert(t[j - 1] == ps[j]);
        }
        lemma_find_entry_at(t, name, j - 1);
    }
}

/// The index found by `find_entry_spec` is in range, names an entry called
/// `name` when it is not the end, and nothing before it is called `name`.
pub proof fn lemma_find_entry_bounds(ps: Seq<EntryV>, name: Seq<u8>)
    ensures
        find_entry_spec(ps, name) <= ps.len(),
        find_entry_spec(ps, name) < ps.len() ==> ps[find_entry_spec(ps, name) as int].name
            == name,
        forall|i: int| 0 <= i < find_entry_spec(ps, name) ==> ps[i].name != name,
    decreases ps.len(),
{
    if ps.len() == 0 {
    } else if ps[0].name == name {
    } else {
        let t = ps.drop_first();
        lemma_find_entry_bounds(t, name);
        assert(forall|i: int| 1 <= i < ps.len() ==> ps[i] == t[i - 1]);
    }
}

/// The projects with an entry for `name` guaranteed: unchanged when one
/// exists, with a fresh empty store appended when none does.
pub open spec fn ensure_spec(ps: Seq<EntryV>, name: Seq<u8>) -> Seq<EntryV> {
    if find_entry_spec(ps, name) < ps.len() {
        ps
    } else {
        ps.push(EntryV { name, store: StoreV { dark: None, light: None } })
    }
}

/// After `ensure_spec` the entry exists; its store is the old one or empty;
/// uniqueness of names is preserved; other entries are untouched.
pub proof fn lemma_ensure_spec(ps: Seq<EntryV>, name: Seq<u8>)
    requires
        wf_projects(ps),
    ensures
        ({
            let ps1 = ensure_spec(ps, name);
            let k = find_entry_spec(ps1, name);
            &&& wf_projects(ps1)
            &&& k < ps1.len()
            &&& ps1[k as int].name == name
            &&& k == find_entry_spec(ps, name)
            &&& (k < ps.len() ==> ps1 == ps)
            &&& (k == ps.len() ==> ps1 == ps.push(
                EntryV { name, store: StoreV { dark: None, light: None } },
            ))
            &&& forall|i: int| 0 <= i < ps.len() ==> ps1[i] == ps[i]
        }),
{
    lemma_find_entry_bounds(ps, name);
    let k0 = find_entry_spec(ps, name);
    if k0 < ps.len() {
    } else {
        let ps1 = ps.push(EntryV { name, store: StoreV { dark: None, light: None } });
        lemma_find_entry_at(ps1, name, ps.len() as int);
        assert(wf_projects(ps1)) by {
            assert(forall|i: int| 0 <= i < ps.len() ==> ps1[i] == ps[i] && ps1[i].name != name);
        }
    }
}

/// The projects with the entry for `name` removed, when one exists.
pub open spec fn destroy_spec(ps: Seq<EntryV>, name: Seq<u8>) -> Seq<EntryV> {
    let k = find_entry_spec(ps, name);
    if k < ps.len() {
        ps.remove(k as int)
    } else {
        ps
    }
}

/// Destroying preserves uniqueness of names, and with unique names the
/// destroyed name is gone.
pub proof fn lemma_destroy_spec(ps: Seq<EntryV>, name: Seq<u8>)
    requires
        wf_projects(ps),
    ensures
        ({
            let ps1 = destroy_spec(ps, name);
            &&& wf_projects(ps1)
            &&& find_entry_spec(ps1, name) == ps1.len()
        }),
{
    lemma_find_entry_bounds(ps, name);
    let k = find_entry_spec(ps, name);
    let ps1 = destroy_spec(ps, name);
    if k < ps.len() {
        assert(forall|i: int|
            0 <= i < ps1.len() ==> ps1[i] == (if i < k { ps[i] } else { ps[i + 1] }));
        assert(forall|i: int| 0 <= i < ps1.len() ==> ps1[i].name != name);
        lemma_find_entry_at(ps1, name, ps1.len() as int);
    } else {
        lemma_find_entry_bounds(ps1, name);
        assert(forall|i: int| 0 <= i < ps1.len() ==> ps1[i].name != name);
        lemma_find_entry_at(ps1, name, ps1.len() as int);
    }
}

/// Destroys the stores of all listed names, first name first.
pub open spec fn purge_spec(ps: Seq<EntryV>, names: Seq<Seq<u8>>) -> Seq<EntryV>
    decreases names.len(),
{
    if names.len() == 0 {
        ps
    } else {
        purge_spec(destroy_spec(ps, names[0]), names.drop_first())
    }
}

/// Purging preserves uniqueness of names.
pub proof fn lemma_purge_spec_wf(ps: Seq<EntryV>, names: Seq<Seq<u8>>)
    requires
        wf_projects(ps),
    ensures
        wf_projects(purge_spec(ps, names)),
    decreases names.len(),
{
    if names.len() > 0 {
        lemma_destroy_spec(ps, names[0]);
        lemma_purge_spec_wf(destroy_spec(ps, names[0]), names.drop_first());
    }
}

/// Init: write both generated scripts, truncate the ledger to empty, then
/// append the hook block to the hook script. A missing hook script is a
/// fatal error — but the three files have already been written by then, as
/// a rerun is the accepted recovery.
pub open spec fn init_spec(s: StateV, wallpaper_script: Seq<u8>, deinit_script: Seq<u8>, block: Seq<u8>) -> (
    StateV,
    Result<(), PluginError>,
) {
    let s1 = StateV {
        wallpaper_script: Some(wallpaper_script),
        deinit_script: Some(deinit_script),
        ledger: Some(Seq::empty()),
        ..s
    };
    match s.hook {
        None => (s1, Err(PluginError::Io)),
        Some(h) => (StateV { hook: Some(h + block), ..s1 }, Ok(())),
    }
}

/// DeInit: delete the `wechsel-wallpaper` script (tolerating absence),
/// strip the first occurrence of the hook block from the hook script
/// (tolerating a missing script or block), and — only when `delete_all` is
/// set — destroy the store of every project the ledger lists and delete the
/// ledger. Without `delete_all` no store and no ledger is touched and the
/// operation cannot fail; with it, a missing ledger is a fatal error.
pub open spec fn deinit_spec(s: StateV, block: Seq<u8>, delete_all: bool) -> (
    StateV,
    Result<(), PluginError>,
) {
    let hook1 = match s.hook {
        None => None,
        Some(h) => Some(remove_first_spec(h, block)),
    };
    let s1 = StateV { wallpaper_script: None, hook: hook1, ..s };
    if !delete_all {
        (s1, Ok(()))
    } else {
        match s.ledger {
            None => (s1, Err(PluginError::Io)),
            Some(l) => (
                StateV { projects: purge_spec(s.projects, nonempty_lines(l)), ledger: None, ..s1 },
                Ok(()),
            ),
        }
    }
}

/// Install: make sure the project's wallpaper directory exists, append the
/// project's line to the ledger (a missing ledger is fatal, but the
/// directory has been created by then), then copy in the dark and the light
/// source under the replace policy, dark first; the first refusal stops the
/// operation with the store mutated only as far as the copies got.
pub open spec fn install_spec(
    s: StateV,
    name: Seq<u8>,
    dark: SourceV,
    light: SourceV,
    replace: bool,
) -> (StateV, Result<(), PluginError>) {
    let ps1 = ensure_spec(s.projects, name);
    let s_dir = StateV { projects: ps1, ..s };
    match s.ledger {
        None => (s_dir, Err(PluginError::Io)),
        Some(l) => {
            let s_led = StateV { ledger: Some(l + name + seq![10u8]), ..s_dir };
            let k = find_entry_spec(ps1, name) as int;
            let e = ps1[k];
            match put_outcome(e.store.dark, dark, replace) {
                Err(er) => (s_led, Err(er)),
                Ok(d1) => {
                    let e1 = EntryV { store: StoreV { dark: d1, ..e.store }, ..e };
                    match put_outcome(e.store.light, light, replace) {
                        Err(er) => (
                            StateV { projects: ps1.update(k, e1), ..s_led },
                            Err(er),
                        ),
                        Ok(l1) => (
                            StateV {
                                projects: ps1.update(
                                    k,
                                    EntryV { store: StoreV { dark: d1, light: l1 }, ..e },
                                ),
                                ..s_led
                            },
                            Ok(()),
                        ),
                    }
                }
            }
        }
    }
}

/// Remove: a project without a wallpaper directory is removed trivially;
/// otherwise the directory is destroyed and the name is forgotten from the
/// ledger — whose absence at that point is fatal, after the directory is
/// already gone.
pub open spec fn remove_spec(s: StateV, name: Seq<u8>) -> (StateV, Result<(), PluginError>) {
    let k = find_entry_spec(s.projects, name);
    if k == s.projects.len() {
        (s, Ok(()))
    } else {
        let ps1 = s.projects.remove(k as int);
        match s.ledger {
            None => (StateV { projects: ps1, ..s }, Err(PluginError::Io)),
            Some(l) => (
                StateV { projects: ps1, ledger: Some(remove_first_spec(l, name)), ..s },
                Ok(()),
            ),
        }
    }
}

/// Save: a project without a wallpaper directory is `NotInstalled`; the
/// destination must exist; then both files' bytes are handed out, either
/// one missing being fatal.
pub open spec fn save_spec(s: StateV, name: Seq<u8>, dest_exists: bool) -> Result<
    (Seq<u8>, Seq<u8>),
    PluginError,
> {
    let k = find_entry_spec(s.projects, name);
    if k == s.projects.len() {
        Err(PluginError::NotInstalled)
    } else {
        crate::store::export_outcome(s.projects[k as int].store, dest_exists)
    }
}

} // verus!
