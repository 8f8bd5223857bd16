//! The executable plugin state and the five lifecycle operations. Every
//! operation is proved equal to its transition function in `model`, so a
//! caller knows the exact state that results, not just a property of it.
//! The surrounding process reads the real files into a `PluginState`, runs
//! one operation, and persists the result.

use vstd::prelude::*;

use crate::bytes::bytes_eq;
use crate::bytes::clone_bytes;
use crate::bytes::remove_first;
use crate::errors::PluginError;
use crate::ledger::list_all;
use crate::ledger::record_installed;
use crate::model::destroy_spec;
use crate::model::deinit_spec;
use crate::model::ensure_spec;
use crate::model::find_entry_spec;
use crate::model::init_spec;
use crate::model::install_spec;
use crate::model::lemma_find_entry_at;
use crate::model::lemma_find_entry_bounds;
use crate::model::purge_spec;
use crate::model::remove_spec;
use crate::model::save_spec;
use crate::model::wf_projects;
use crate::model::EntryV;
use crate::model::StateV;
use crate::store::Kind;
use crate::store::SourceArg;
use crate::store::WallpaperStore;

verus! {

/// A project that currently has a wallpaper directory.
pub struct ProjectEntry {
    pub name: Vec<u8>,
    pub store: WallpaperStore,
}

impl View for ProjectEntry {
    type V = EntryV;

    open spec fn view(&self) -> EntryV {
        EntryV { name: self.name@, store: self.store@ }
    }
}

impl DeepView for ProjectEntry {
    type V = EntryV;

    open spec fn deep_view(&self) -> EntryV {
        self@
    }
}

/// The plugin's whole observable state: each owned file either absent or
/// present with its bytes, plus the per-project wallpaper stores.
pub struct PluginState {
    pub wallpaper_script: Option<Vec<u8>>,
    pub deinit_script: Option<Vec<u8>>,
    pub ledger: Option<Vec<u8>>,
    pub hook: Option<Vec<u8>>,
    pub projects: Vec<ProjectEntry>,
}

impl View for PluginState {
    type V = StateV;

    open spec fn view(&self) -> StateV {
        StateV {
            wallpaper_script: match self.wallpaper_script {
                Some(b) => Some(b@),
                None => None,
            },
            deinit_script: match self.deinit_script {
                Some(b) => Some(b@),
                None => None,
            },
            ledger: match self.ledger {
                Some(b) => Some(b@),
                None => None,
            },
            hook: match self.hook {
                Some(b) => Some(b@),
                None => None,
            },
            projects: self.projects.deep_view(),
        }
    }
}

/// Index of the first entry named `name`, or the length when there is none.
fn find_entry(projects: &Vec<ProjectEntry>, name: &Vec<u8>) -> (r: usize)
    ensures
        r == find_entry_spec(projects.deep_view(), name@),
{
    let mut i: usize = 0;
    while i < projects.len()
        invariant
            0 <= i <= projects@.len(),
            forall|j: int| 0 <= j < i ==> projects.deep_view()[j].name != name@,
        decreases projects@.len() - i,
    {
        if bytes_eq(&projects[i].name, name) {
            proof {
                assert(projects.deep_view()[i as int].name == name@);
                lemma_find_entry_at(projects.deep_view(), name@, i as int);
            }
            return i;
        }
        proof {
            assert(projects.deep_view()[i as int].name != name@);
        }
        i += 1;
    }
    proof {
        lemma_find_entry_at(projects.deep_view(), name@, projects@.len() as int);
    }
    i
}

/// Deletes the wallpaper directory of `name`; absence is a no-op.
fn destroy_entry(projects: &mut Vec<ProjectEntry>, name: &Vec<u8>)
    ensures
        final(projects).deep_view() == destroy_spec(old(projects).deep_view(), name@),
{
    let k = find_entry(projects, name);
    if k < projects.len() {
        let _removed = projects.remove(k);
        proof {
            assert(projects.deep_view() =~~= old(projects).deep_view().remove(k as int));
        }
    }
}

impl PluginState {
    /// Uniqueness of project names, the invariant every operation keeps.
    pub open spec fn wf(&self) -> bool {
        wf_projects(self@.projects)
    }

    /// A state in which nothing exists yet.
    pub fn new() -> (r: PluginState)
        ensures
            r@ == (StateV {
                wallpaper_script: None,
                deinit_script: None,
                ledger: None,
                hook: None,
                projects: Seq::empty(),
            }),
            r.wf(),
    {
        let r = PluginState {
            wallpaper_script: None,
            deinit_script: None,
            ledger: None,
            hook: None,
            projects: Vec::new(),
        };
        proof {
            assert(r@.projects =~~= Seq::<EntryV>::empty());
        }
        r
    }

    /// Init: write the two generated scripts, truncate the ledger to empty,
    /// then append the hook block to the hook script; a missing hook script
    /// fails after the three files are already written.
    pub fn init(&mut self, wallpaper_script: Vec<u8>, deinit_script: Vec<u8>, block: &Vec<u8>) -> (r:
        Result<(), PluginError>)
        ensures
            final(self)@ == init_spec(old(self)@, wallpaper_script@, deinit_script@, block@).0,
            r == init_spec(old(self)@, wallpaper_script@, deinit_script@, block@).1,
            old(self).wf() ==> final(self).wf(),
    {
        let ghost s0 = self@;
        let ghost ws = wallpaper_script@;
        let ghost ds = deinit_script@;
        self.wallpaper_script = Some(wallpaper_script);
        self.deinit_script = Some(deinit_script);
        self.ledger = Some(Vec::new());
        let hook0 = self.hook.take();
        match hook0 {
            None => {
                proof {
                    assert(self@ =~~= init_spec(s0, ws, ds, block@).0);
                }
                Err(PluginError::Io)
            }
            Some(mut h) => {
                crate::bytes::append_bytes(&mut h, block);
                self.hook = Some(h);
                proof {
                    assert(self@ =~~= init_spec(s0, ws, ds, block@).0);
                }
                Ok(())
            }
        }
    }

    /// DeInit: drop the `wechsel-wallpaper` script, strip the hook block,
    /// and with `delete_all` destroy every store the ledger lists and the
    /// ledger itself. Without `delete_all` it cannot fail and touches no
    /// store.
    pub fn deinit(&mut self, block: &Vec<u8>, delete_all: bool) -> (r: Result<(), PluginError>)
        ensures
            final(self)@ == deinit_spec(old(self)@, block@, delete_all).0,
            r == deinit_spec(old(self)@, block@, delete_all).1,
            old(self).wf() ==> final(self).wf(),
    {
        let ghost s0 = self@;
        proof {
            if old(self).wf() {
                crate::model::lemma_purge_spec_wf(
                    s0.projects,
                    crate::ledger::nonempty_lines(
                        match s0.ledger {
                            Some(l) => l,
                            None => Seq::empty(),
                        },
                    ),
                );
            }
        }
        self.wallpaper_script = None;
        let hook0 = self.hook.take();
        match hook0 {
            Some(h) => {
                let stripped = remove_first(&h, block);
                self.hook = Some(stripped);
            }
            None => {}
        }
        if !delete_all {
            proof {
                assert(self@ =~~= deinit_spec(s0, block@, false).0);
            }
            return Ok(());
        }
        let ledger0 = self.ledger.take();
        match ledger0 {
            None => {
                proof {
                    assert(self@ =~~= deinit_spec(s0, block@, true).0);
                }
                Err(PluginError::Io)
            }
            Some(l) => {
                let names = list_all(&l);
                let ghost names_v = names.deep_view();
                let ghost smid = self@;
                let mut idx: usize = 0;
                proof {
                    assert(names_v.subrange(0, names_v.len() as int) =~~= names_v);
                }
                while idx < names.len()
                    invariant
                        0 <= idx <= names@.len(),
                        names.deep_view() == names_v,
                        names_v.len() == names@.len(),
                        self@.wallpaper_script == smid.wallpaper_script,
                        self@.deinit_script == smid.deinit_script,
                        self@.ledger == smid.ledger,
                        self@.hook == smid.hook,
                        purge_spec(s0.projects, names_v) == purge_spec(
                            self@.projects,
                            names_v.subrange(idx as int, names_v.len() as int),
                        ),
                    decreases names@.len() - idx,
                {
                    let ghost cur = self@.projects;
                    let ghost rest = names_v.subrange(idx as int, names_v.len() as int);
                    destroy_entry(&mut self.projects, &names[idx]);
                    proof {
                        let nm = names@[idx as int];
                        assert(names_v[idx as int] == nm.deep_view());
                        assert(nm.deep_view() =~= nm@);
                        assert(rest[0] == names_v[idx as int]);
                        assert(rest.drop_first() =~~= names_v.subrange(
                            idx + 1,
                            names_v.len() as int,
                        ));
                        assert(purge_spec(cur, rest) == purge_spec(
                            destroy_spec(cur, rest[0]),
                            rest.drop_first(),
                        ));
                    }
                    idx += 1;
                }
                proof {
                    let tail = names_v.subrange(names_v.len() as int, names_v.len() as int);
                    assert(tail =~~= Seq::<Seq<u8>>::empty());
                    assert(purge_spec(self@.projects, tail) == self@.projects);
                    assert(self@ =~~= deinit_spec(s0, block@, true).0);
                }
                Ok(())
            }
        }
    }

    /// Install: ensure the project's wallpaper directory, record the name in
    /// the ledger, then copy in the dark and the light source under the
    /// replace policy, dark first.
    pub fn install(
        &mut self,
        project: &Vec<u8>,
        dark: &SourceArg,
        light: &SourceArg,
        replace: bool,
    ) -> (r: Result<(), PluginError>)
        ensures
            final(self)@ == install_spec(old(self)@, project@, dark@, light@, replace).0,
            r == install_spec(old(self)@, project@, dark@, light@, replace).1,
            old(self).wf() ==> final(self).wf(),
    {
        let ghost s0 = self@;
        proof {
            if old(self).wf() {
                crate::model::lemma_ensure_spec(s0.projects, project@);
            }
        }
        let mut k = find_entry(&self.projects, project);
        if k == self.projects.len() {
            let e = ProjectEntry { name: clone_bytes(project), store: WallpaperStore::empty() };
            self.projects.push(e);
            proof {
                lemma_find_entry_bounds(s0.projects, project@);
                assert(self@.projects =~~= ensure_spec(s0.projects, project@));
                lemma_find_entry_at(self@.projects, project@, k as int);
            }
        } else {
            proof {
                lemma_find_entry_bounds(s0.projects, project@);
                assert(self@.projects =~~= ensure_spec(s0.projects, project@));
            }
        }
        let ghost ps1 = ensure_spec(s0.projects, project@);
        proof {
            assert(self@.projects == ps1);
            assert(find_entry_spec(ps1, project@) == k);
            lemma_find_entry_bounds(ps1, project@);
            assert(k < ps1.len());
            if old(self).wf() {
                assert(wf_projects(ps1));
            }
        }
        let ledger0 = self.ledger.take();
        match ledger0 {
            None => {
                proof {
                    assert(self@ =~~= install_spec(s0, project@, dark@, light@, replace).0);
                }
                return Err(PluginError::Io);
            }
            Some(mut l) => {
                record_installed(&mut l, project);
                self.ledger = Some(l);
            }
        }
        let ghost s_led = self@;
        let ghost e0 = ps1[k as int];
        let mut entry = self.projects.remove(k);
        proof {
            assert(entry@ == e0);
        }
        let r_dark = entry.store.put(Kind::Dark, dark, replace);
        if let Err(er) = r_dark {
            self.projects.insert(k, entry);
            proof {
                assert(self@.projects =~~= ps1);
                assert(self@ =~~= install_spec(s0, project@, dark@, light@, replace).0);
            }
            return Err(er);
        }
        let r_light = entry.store.put(Kind::Light, light, replace);
        self.projects.insert(k, entry);
        proof {
            assert(self@.projects =~~= ps1.update(k as int, entry@));
            if old(self).wf() {
                assert(forall|i: int|
                    0 <= i < ps1.len() ==> self@.projects[i].name == ps1[i].name);
                assert(final(self).wf());
            }
        }
        match r_light {
            Err(er) => {
                proof {
                    assert(self@ =~~= install_spec(s0, project@, dark@, light@, replace).0);
                }
                Err(er)
            }
            Ok(()) => {
                proof {
                    assert(self@ =~~= install_spec(s0, project@, dark@, light@, replace).0);
                }
                Ok(())
            }
        }
    }

    /// Remove: a project without a wallpaper directory is removed trivially;
    /// otherwise its directory is destroyed and its name forgotten from the
    /// ledger.
    pub fn remove(&mut self, project: &Vec<u8>) -> (r: Result<(), PluginError>)
        ensures
            final(self)@ == remove_spec(old(self)@, project@).0,
            r == remove_spec(old(self)@, project@).1,
            old(self).wf() ==> final(self).wf(),
    {
        let ghost s0 = self@;
        let k = find_entry(&self.projects, project);
        proof {
            lemma_find_entry_bounds(s0.projects, project@);
        }
        if k == self.projects.len() {
            return Ok(());
        }
        let _removed = self.projects.remove(k);
        proof {
            assert(self@.projects =~~= s0.projects.remove(k as int));
        }
        let ledger0 = self.ledger.take();
        match ledger0 {
            None => {
                proof {
                    assert(self@ =~~= remove_spec(s0, project@).0);
                }
                Err(PluginError::Io)
            }
            Some(l) => {
                let stripped = remove_first(&l, project);
                self.ledger = Some(stripped);
                proof {
                    assert(self@ =~~= remove_spec(s0, project@).0);
                }
                Ok(())
            }
        }
    }

    /// Save: hand out copies of both wallpaper files of an installed
    /// project, for an existing destination directory.
    pub fn save(&self, project: &Vec<u8>, dest_exists: bool) -> (r: Result<
        (Vec<u8>, Vec<u8>),
        PluginError,
    >)
        ensures
            match r {
                Ok(p) => save_spec(self@, project@, dest_exists) == Ok::<
                    (Seq<u8>, Seq<u8>),
                    PluginError,
                >((p.0@, p.1@)),
                Err(e) => save_spec(self@, project@, dest_exists) == Err::<
                    (Seq<u8>, Seq<u8>),
                    PluginError,
                >(e),
            },
    {
        let k = find_entry(&self.projects, project);
        proof {
            lemma_find_entry_bounds(self@.projects, project@);
        }
        if k == self.projects.len() {
            return Err(PluginError::NotInstalled);
        }
        proof {
            assert(self@.projects[k as int].store == self.projects@[k as int].store@);
        }
        self.projects[k].store.export(dest_exists)
    }
}

} // verus!
