//! The per-project wallpaper store: a directory holding at most two files,
//! `dark.jpg` and `light.jpg`, modelled here by their byte contents. The
//! store decides the overwrite policy (`AlreadyExists` without an explicit
//! replace) and the export of both files.

use vstd::prelude::*;

use crate::bytes::clone_bytes;
use crate::errors::PluginError;

verus! {

/// Which of the two wallpaper files an operation addresses.
#[derive(Clone, Copy, Debug, PartialEq, Eq, Structural)]
pub enum Kind {
    Dark,
    Light,
}

/// A wallpaper file handed to an install: not given at all, given but
/// pointing at nothing, or given with the file's bytes.
pub enum SourceArg {
    NotGiven,
    Missing,
    Bytes(Vec<u8>),
}

/// Mathematical image of a `SourceArg`.
pub enum SourceV {
    NotGiven,
    Missing,
    Bytes(Seq<u8>),
}

impl View for SourceArg {
    type V = SourceV;

    open spec fn view(&self) -> SourceV {
        match self {
            SourceArg::NotGiven => SourceV::NotGiven,
            SourceArg::Missing => SourceV::Missing,
            SourceArg::Bytes(b) => SourceV::Bytes(b@),
        }
    }
}

/// The contents of a wallpaper store: each file either absent or present
/// with its bytes.
pub struct WallpaperStore {
    pub dark: Option<Vec<u8>>,
    pub light: Option<Vec<u8>>,
}

/// Mathematical image of a `WallpaperStore`.
#[verifier::ext_equal]
pub struct StoreV {
    pub dark: Option<Seq<u8>>,
    pub light: Option<Seq<u8>>,
}

impl View for WallpaperStore {
    type V = StoreV;

    open spec fn view(&self) -> StoreV {
        StoreV {
            dark: match self.dark {
                Some(b) => Some(b@),
                None => None,
            },
            light: match self.light {
                Some(b) => Some(b@),
                None => None,
            },
        }
    }
}

/// The file of the given kind.
pub open spec fn get_kind(s: StoreV, kind: Kind) -> Option<Seq<u8>> {
    match kind {
        Kind::Dark => s.dark,
        Kind::Light => s.light,
    }
}

/// The store with the file of the given kind replaced.
pub open spec fn set_kind(s: StoreV, kind: Kind, v: Option<Seq<u8>>) -> StoreV {
    match kind {
        Kind::Dark => StoreV { dark: v, ..s },
        Kind::Light => StoreV { light: v, ..s },
    }
}

/// What putting a source over an existing file yields: the new file on
/// success, or the error that refuses the write. A source that is not given
/// leaves the file as it is; a missing source is invalid; an existing
/// destination is only overwritten when `replace` is set.
pub open spec fn put_outcome(
    existing: Option<Seq<u8>>,
    source: SourceV,
    replace: bool,
) -> Result<Option<Seq<u8>>, PluginError> {
    match source {
        SourceV::NotGiven => Ok(existing),
        SourceV::Missing => Err(PluginError::InvalidSource),
        SourceV::Bytes(b) => if existing is Some && !replace {
            Err(PluginError::AlreadyExists)
        } else {
            Ok(Some(b))
        },
    }
}

/// What exporting a store to a destination yields: both files' bytes, or
/// the error: a destination that does not exist is invalid, and either file
/// missing from the store makes the copy fail.
pub open spec fn export_outcome(s: StoreV, dest_exists: bool) -> Result<
    (Seq<u8>, Seq<u8>),
    PluginError,
> {
    if !dest_exists {
        Err(PluginError::InvalidDestination)
    } else {
        match (s.dark, s.light) {
            (Some(d), Some(l)) => Ok((d, l)),
            _ => Err(PluginError::Io),
        }
    }
}

impl WallpaperStore {
    /// A store with neither wallpaper file, as a freshly created directory
    /// has it.
    pub fn empty() -> (r: Self)
        ensures
            r@ == (StoreV { dark: None, light: None }),
    {
        WallpaperStore { dark: None, light: None }
    }

    /// Copies a source file in as the wallpaper of the given kind, refusing
    /// to overwrite an existing file unless `replace` is set.
    pub fn put(&mut self, kind: Kind, source: &SourceArg, replace: bool) -> (r: Result<
        (),
        PluginError,
    >)
        ensures
            match put_outcome(get_kind(old(self)@, kind), source@, replace) {
                Ok(nv) => r == Ok::<(), PluginError>(()) && final(self)@ == set_kind(
                    old(self)@,
                    kind,
                    nv,
                ),
                Err(e) => r == Err::<(), PluginError>(e) && final(self)@ == old(self)@,
            },
    {
        match source {
            SourceArg::NotGiven => {
                proof {
                    assert(set_kind(self@, kind, get_kind(self@, kind)) =~= self@);
                }
                Ok(())
            }
            SourceArg::Missing => Err(PluginError::InvalidSource),
            SourceArg::Bytes(b) => {
                let dest_exists = match kind {
                    Kind::Dark => self.dark.is_some(),
                    Kind::Light => self.light.is_some(),
                };
                if dest_exists && !replace {
                    Err(PluginError::AlreadyExists)
                } else {
                    let copy = clone_bytes(b);
                    match kind {
                        Kind::Dark => {
                            self.dark = Some(copy);
                        }
                        Kind::Light => {
                            self.light = Some(copy);
                        }
                    }
                    proof {
                        assert(self@ =~= set_kind(old(self)@, kind, Some(b@)));
                    }
                    Ok(())
                }
            }
        }
    }

    /// Hands out copies of both wallpaper files for saving into an existing
    /// destination directory.
    pub fn export(&self, dest_exists: bool) -> (r: Result<(Vec<u8>, Vec<u8>), PluginError>)
        ensures
            match r {
                Ok(p) => export_outcome(self@, dest_exists) == Ok::<(Seq<u8>, Seq<u8>), PluginError>(
                    (p.0@, p.1@),
                ),
                Err(e) => export_outcome(self@, dest_exists) == Err::<
                    (Seq<u8>, Seq<u8>),
                    PluginError,
                >(e),
            },
    {
        if !dest_exists {
            return Err(PluginError::InvalidDestination);
        }
        match (&self.dark, &self.light) {
            (Some(d), Some(l)) => Ok((clone_bytes(d), clone_bytes(l))),
            _ => Err(PluginError::Io),
        }
    }
}

} // verus!
