//! The laws of the lifecycle: statements that relate several operations,
//! proved over the transition functions of `model` that every executable
//! operation is pinned to.

use vstd::prelude::*;

use crate::bytes::contains_seq;
use crate::bytes::is_first_match;
use crate::bytes::is_match_at;
use crate::bytes::lemma_first_match_unique;
use crate::bytes::remove_first_spec;
use crate::bytes::splice_out;
use crate::errors::PluginError;
use crate::model::deinit_spec;
use crate::model::ensure_spec;
use crate::model::find_entry_spec;
use crate::model::install_spec;
use crate::model::lemma_destroy_spec;
use crate::model::lemma_ensure_spec;
use crate::model::lemma_find_entry_at;
use crate::model::lemma_find_entry_bounds;
use crate::model::remove_spec;
use crate::model::save_spec;
use crate::model::wf_projects;
use crate::model::StateV;
use crate::store::SourceV;

verus! {

/// A project name the external switcher could hand out: nonempty and free
/// of newline bytes, which the ledger uses as its record separator.
pub open spec fn valid_name(p: Seq<u8>) -> bool {
    &&& p.len() > 0
    &&& forall|k: int| 0 <= k < p.len() ==> p[k] != 10u8
}

/// A ledger buffer in which every record line is closed by its newline —
/// the shape every run of `record_installed` leaves behind.
pub open spec fn ledger_closed(l: Seq<u8>) -> bool {
    l.len() == 0 || l[l.len() - 1] == 10u8
}

/// Appending the record `p\n` to a closed ledger that does not mention `p`
/// makes that record the first occurrence of `p`; removing it restores the
/// old content plus the bare newline, and `p` no longer occurs.
pub proof fn lemma_remove_appended(l: Seq<u8>, p: Seq<u8>)
    requires
        valid_name(p),
        !contains_seq(l, p),
        ledger_closed(l),
    ensures
        is_first_match(l + p + seq![10u8], p, l.len() as int),
        remove_first_spec(l + p + seq![10u8], p) == l + seq![10u8],
        !contains_seq(l + seq![10u8], p),
{
    let h = l + p + seq![10u8];
    let ll = l.len() as int;
    assert(h.subrange(ll, ll + p.len() as int) =~= p);
    assert(is_match_at(h, p, ll));
    assert forall|j: int| 0 <= j < ll implies !is_match_at(h, p, j) by {
        if is_match_at(h, p, j) {
            if j + p.len() <= ll {
                assert(l.subrange(j, j + p.len() as int) =~= h.subrange(j, j + p.len() as int));
                assert(is_match_at(l, p, j));
                assert(contains_seq(l, p));
            } else {
                assert(l[ll - 1] == 10u8);
                assert(h.subrange(j, j + p.len() as int)[ll - 1 - j] == h[ll - 1]);
                assert(p[ll - 1 - j] == 10u8);
            }
        }
    }
    assert(is_first_match(h, p, ll));
    assert(contains_seq(h, p));
    let i = choose|i: int| is_first_match(h, p, i);
    lemma_first_match_unique(h, p, i, ll);
    assert(remove_first_spec(h, p) == splice_out(h, ll, p.len() as int));
    assert(splice_out(h, ll, p.len() as int) =~= l + seq![10u8]);
    let t = l + seq![10u8];
    assert forall|j: int| !is_match_at(t, p, j) by {
        if is_match_at(t, p, j) {
            if j + p.len() <= l.len() {
                assert(l.subrange(j, j + p.len() as int) =~= t.subrange(j, j + p.len() as int));
                assert(is_match_at(l, p, j));
                assert(contains_seq(l, p));
            } else {
                assert(j + p.len() == l.len() + 1);
                assert(t.subrange(j, j + p.len() as int)[p.len() - 1] == t[l.len() as int]);
                assert(p[p.len() - 1] == 10u8);
            }
        }
    }
}

/// Installing a project and then removing it leaves no wallpaper directory
/// for it, and restores the ledger's textual content — up to the bare
/// newline the removal leaves behind — so that the name no longer occurs.
/// The ledger must not already mention the name: forgetting is a substring
/// operation and would otherwise hit the earlier occurrence.
pub proof fn lemma_install_remove_round_trip(s: StateV, p: Seq<u8>, replace: bool)
    requires
        wf_projects(s.projects),
        valid_name(p),
        s.ledger is Some,
        !contains_seq(s.ledger->Some_0, p),
        ledger_closed(s.ledger->Some_0),
    ensures
        ({
            let (s1, r1) = install_spec(s, p, SourceV::NotGiven, SourceV::NotGiven, replace);
            let (s2, r2) = remove_spec(s1, p);
            &&& r1 == Ok::<(), PluginError>(())
            &&& r2 == Ok::<(), PluginError>(())
            &&& find_entry_spec(s2.projects, p) == s2.projects.len()
            &&& s2.ledger == Some(s.ledger->Some_0 + seq![10u8])
            &&& !contains_seq(s2.ledger->Some_0, p)
        }),
{
    let l = s.ledger->Some_0;
    lemma_ensure_spec(s.projects, p);
    let ps1 = ensure_spec(s.projects, p);
    let k = find_entry_spec(ps1, p) as int;
    let e = ps1[k];
    let (s1, r1) = install_spec(s, p, SourceV::NotGiven, SourceV::NotGiven, replace);
    assert(s1.projects =~~= ps1);
    assert(s1.ledger == Some(l + p + seq![10u8]));
    assert(find_entry_spec(s1.projects, p) == k);
    lemma_destroy_spec(ps1, p);
    let (s2, r2) = remove_spec(s1, p);
    assert(s2.projects == ps1.remove(k));
    assert(find_entry_spec(s2.projects, p) == s2.projects.len());
    lemma_remove_appended(l, p);
    assert(s2.ledger == Some(remove_first_spec(l + p + seq![10u8], p)));
}

/// Without `delete_all`, DeInit succeeds on every state and touches neither
/// any per-project wallpaper store, nor the ledger, nor the deinit script.
pub proof fn lemma_deinit_preserves_stores(s: StateV, block: Seq<u8>)
    ensures
        ({
            let (s1, r) = deinit_spec(s, block, false);
            &&& r == Ok::<(), PluginError>(())
            &&& s1.projects == s.projects
            &&& s1.ledger == s.ledger
            &&& s1.deinit_script == s.deinit_script
        }),
{
}

/// DeInit can be rerun: a second pass over an already-deinitialized state —
/// missing scripts, missing hook block, even after a delete-all — succeeds.
pub proof fn lemma_deinit_rerun_safe(s: StateV, block: Seq<u8>)
    ensures
        deinit_spec(s, block, false).1 == Ok::<(), PluginError>(()),
        deinit_spec(deinit_spec(s, block, false).0, block, false).1 == Ok::<(), PluginError>(()),
        deinit_spec(deinit_spec(s, block, true).0, block, false).1 == Ok::<(), PluginError>(()),
{
}

/// Installing over an existing dark wallpaper without the replace flag
/// fails with `AlreadyExists` and leaves every store — in particular the
/// existing dark file — byte-identical.
pub proof fn lemma_install_refuses_overwrite(
    s: StateV,
    p: Seq<u8>,
    b: Seq<u8>,
    light: SourceV,
)
    requires
        wf_projects(s.projects),
        s.ledger is Some,
        find_entry_spec(s.projects, p) < s.projects.len(),
        s.projects[find_entry_spec(s.projects, p) as int].store.dark is Some,
    ensures
        ({
            let (s1, r) = install_spec(s, p, SourceV::Bytes(b), light, false);
            &&& r == Err::<(), PluginError>(PluginError::AlreadyExists)
            &&& s1.projects == s.projects
        }),
{
    lemma_ensure_spec(s.projects, p);
}

/// Installing with the replace flag set writes the new source's bytes
/// exactly as the project's dark wallpaper, whatever was there before.
pub proof fn lemma_install_replace_overwrites(s: StateV, p: Seq<u8>, b: Seq<u8>, light: SourceV)
    requires
        wf_projects(s.projects),
        s.ledger is Some,
    ensures
        ({
            let (s1, r) = install_spec(s, p, SourceV::Bytes(b), light, true);
            let k = find_entry_spec(s1.projects, p);
            &&& k < s1.projects.len()
            &&& s1.projects[k as int].store.dark == Some(b)
        }),
{
    lemma_ensure_spec(s.projects, p);
    let ps1 = ensure_spec(s.projects, p);
    let k = find_entry_spec(ps1, p) as int;
    lemma_find_entry_bounds(ps1, p);
    let (s1, r) = install_spec(s, p, SourceV::Bytes(b), light, true);
    assert(forall|i: int| 0 <= i < k ==> s1.projects[i].name == ps1[i].name);
    assert(s1.projects[k].name == p);
    lemma_find_entry_at(s1.projects, p, k);
}

/// The save round trip: after a successful install of `dark = a` and
/// `light = b`, saving the project to an existing destination hands back
/// exactly `a` and `b`.
pub proof fn lemma_install_save_round_trip(
    s: StateV,
    p: Seq<u8>,
    a: Seq<u8>,
    b: Seq<u8>,
    replace: bool,
)
    requires
        wf_projects(s.projects),
        install_spec(s, p, SourceV::Bytes(a), SourceV::Bytes(b), replace).1 == Ok::<
            (),
            PluginError,
        >(()),
    ensures
        save_spec(install_spec(s, p, SourceV::Bytes(a), SourceV::Bytes(b), replace).0, p, true)
            == Ok::<(Seq<u8>, Seq<u8>), PluginError>((a, b)),
{
    lemma_ensure_spec(s.projects, p);
    let ps1 = ensure_spec(s.projects, p);
    let k = find_entry_spec(ps1, p) as int;
    lemma_find_entry_bounds(ps1, p);
    let (s1, r) = install_spec(s, p, SourceV::Bytes(a), SourceV::Bytes(b), replace);
    assert(s1.projects[k].store.dark == Some(a));
    assert(s1.projects[k].store.light == Some(b));
    assert(forall|i: int| 0 <= i < k ==> s1.projects[i].name == ps1[i].name);
    assert(s1.projects[k].name == p);
    lemma_find_entry_at(s1.projects, p, k);
}

} // verus!
