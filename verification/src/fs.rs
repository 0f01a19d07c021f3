//! Scratch directories and the files inside them, as paths.
//!
//! A working directory is the root under which every stream gets a scratch directory of
//! its own. A file is claimed from a directory by its relative name, and only a name that
//! stays inside the directory is accepted. The handles here name paths and keep the
//! directory of a file reachable; they do not touch the disk.

use crate::text::{chars_of, has_at, push_str, string_of};
use std::sync::Arc;
use vstd::prelude::*;

verus! {

/// Whether a `..` component of the path `name` starts at `i`.
pub open spec fn parent_at(name: Seq<char>, i: int) -> bool {
    &&& has_at(name, i, seq!['.', '.'])
    &&& (i == 0 || name[i - 1] == '/')
    &&& (i + 2 == name.len() || name[i + 2] == '/')
}

/// Whether `name` has a `..` component.
pub open spec fn climbs(name: Seq<char>) -> bool {
    exists|i: int| 0 <= i < name.len() && parent_at(name, i)
}

/// A name that stays inside the directory it is joined to: not empty, not absolute, and
/// without a `..` component.
pub open spec fn contained(name: Seq<char>) -> bool {
    name.len() > 0 && name[0] != '/' && !climbs(name)
}

/// The path of `name` under `base`.
pub open spec fn joined(base: Seq<char>, name: Seq<char>) -> Seq<char> {
    if base.len() == 0 {
        name
    } else if base.last() == '/' {
        base + name
    } else {
        base.push('/') + name
    }
}

/// Whether `path` lies inside the directory `dir`.
pub open spec fn inside(path: Seq<char>, dir: Seq<char>) -> bool {
    exists|name: Seq<char>| contained(name) && path == joined(dir, name)
}

/// Whether `name` stays inside the directory it is joined to.
pub fn is_contained(name: &str) -> (ok: bool)
    ensures
        ok == contained(name@),
{
    let v = chars_of(name);
    if v.len() == 0 || v[0] == '/' {
        return false;
    }
    let mut i: usize = 0;
    while i < v.len()
        invariant
            v@ == name@,
            v@.len() > 0 && v@[0] != '/',
            i <= v.len(),
            forall|k: int| 0 <= k < i ==> !parent_at(v@, k),
        decreases v.len() - i,
    {
        if v[i] == '.' && i + 1 < v.len() && v[i + 1] == '.' && (i == 0 || v[i - 1] == '/') && (i
            + 2 == v.len() || v[i + 2] == '/') {
            assert(v@.subrange(i as int, i + 2) =~= seq!['.', '.']);
            assert(parent_at(v@, i as int));
            return false;
        }
        proof {
            if has_at(v@, i as int, seq!['.', '.']) {
                assert(v@.subrange(i as int, i + 2)[0] == v@[i as int]);
                assert(v@.subrange(i as int, i + 2)[1] == v@[i + 1]);
            }
        }
        i += 1;
    }
    true
}

/// The path of `name` under `base`.
pub fn join(base: &str, name: &str) -> (path: String)
    ensures
        path@ == joined(base@, name@),
{
    let mut out: Vec<char> = Vec::new();
    push_str(&mut out, base);
    assert(out@ =~= base@);
    if out.len() > 0 && out[out.len() - 1] != '/' {
        out.push('/');
    }
    push_str(&mut out, name);
    assert(out@ =~= joined(base@, name@));
    string_of(&out)
}

/// `Arc::clone` hands out another pointer to the same value.
#[verifier::external_body]
pub(crate) fn share<T>(a: &Arc<T>) -> (b: Arc<T>)
    ensures
        b == *a,
{
    Arc::clone(a)
}

/// The root under which scratch directories are made.
#[derive(Debug)]
pub struct WorkingDirectory {
    path: String,
}

impl WorkingDirectory {
    /// The path of this root.
    pub closed spec fn spec_path(&self) -> Seq<char> {
        self.path@
    }

    /// The working directory at `path`. The caller makes sure that the directory is
    /// there.
    pub fn open_or_create(path: String) -> (root: Self)
        ensures
            root.spec_path() == path@,
    {
        WorkingDirectory { path }
    }

    /// The path of this root.
    pub fn path(&self) -> (p: &str)
        ensures
            p@ == self.spec_path(),
    {
        self.path.as_str()
    }

    /// The scratch directory `name` under this root, for the caller to make on disk, or
    /// `None` where `name` would leave the root.
    pub fn create_dir(&self, name: &str) -> (dir: Option<OwnedDir>)
        ensures
            dir is Some <==> contained(name@),
            dir is Some ==> dir->0.spec_path() == joined(self.spec_path(), name@),
            dir is Some ==> inside(dir->0.spec_path(), self.spec_path()),
    {
        if is_contained(name) {
            Some(OwnedDir { path: join(self.path.as_str(), name) })
        } else {
            None
        }
    }
}

impl Clone for WorkingDirectory {
    fn clone(&self) -> (root: Self)
        ensures
            root.spec_path() == self.spec_path(),
    {
        WorkingDirectory { path: self.path.clone() }
    }
}

/// A scratch directory with one owner.
#[derive(Debug)]
pub struct OwnedDir {
    path: String,
}

impl OwnedDir {
    /// The path of this directory.
    pub closed spec fn spec_path(&self) -> Seq<char> {
        self.path@
    }

    /// The directory at `path`, for the caller to make on disk.
    pub fn create(path: String) -> (dir: Self)
        ensures
            dir.spec_path() == path@,
    {
        OwnedDir { path }
    }

    /// Makes the directory shareable: every file claimed from it keeps it reachable.
    pub fn into_shared(self) -> (shared: SharedDir)
        ensures
            shared.spec_path() == self.spec_path(),
    {
        SharedDir(Arc::new(self))
    }

    /// The path of this directory.
    pub fn path(&self) -> (p: &str)
        ensures
            p@ == self.spec_path(),
    {
        self.path.as_str()
    }
}

/// A scratch directory shared by the files claimed from it.
#[derive(Debug)]
pub struct SharedDir(Arc<OwnedDir>);

impl SharedDir {
    /// The path of this directory.
    pub closed spec fn spec_path(&self) -> Seq<char> {
        self.0.path@
    }

    /// The path of this directory.
    pub fn path(&self) -> (p: &str)
        ensures
            p@ == self.spec_path(),
    {
        self.0.path.as_str()
    }

    /// Claims the file `name` of this directory, which something else wrote there. The
    /// file keeps the directory reachable. A name that would leave the directory is
    /// refused.
    pub fn claim_external_file(&self, name: &str) -> (file: Option<OwnedFile>)
        ensures
            file is Some <==> contained(name@),
            file is Some ==> file->0.spec_path() == joined(self.spec_path(), name@),
            file is Some ==> file->0.spec_dir() == Some(self.spec_path()),
            file is Some ==> inside(file->0.spec_path(), self.spec_path()),
    {
        if is_contained(name) {
            Some(OwnedFile { path: join(self.0.path.as_str(), name), _dir: Some(self.clone()) })
        } else {
            None
        }
    }
}

impl Clone for SharedDir {
    fn clone(&self) -> (dir: Self)
        ensures
            dir == *self,
    {
        SharedDir(share(&self.0))
    }
}

/// A file with one owner, and the directory it was claimed from, if any.
#[derive(Debug)]
pub struct OwnedFile {
    path: String,
    _dir: Option<SharedDir>,
}

impl OwnedFile {
    /// The path of this file.
    pub closed spec fn spec_path(&self) -> Seq<char> {
        self.path@
    }

    /// The path of the directory that this file keeps reachable, if any.
    pub closed spec fn spec_dir(&self) -> Option<Seq<char>> {
        match self._dir {
            Some(dir) => Some(dir.spec_path()),
            None => None,
        }
    }

    /// A file at `path` that belongs to no scratch directory.
    pub fn at(path: String) -> (file: Self)
        ensures
            file.spec_path() == path@,
            file.spec_dir() is None,
    {
        OwnedFile { path, _dir: None }
    }

    /// The path of this file.
    pub fn path(&self) -> (p: &str)
        ensures
            p@ == self.spec_path(),
    {
        self.path.as_str()
    }

    /// Makes the file shareable.
    pub fn into_shared(self) -> (shared: SharedFile)
        ensures
            shared.spec_path() == self.spec_path(),
            shared.spec_dir() == self.spec_dir(),
    {
        SharedFile(Arc::new(self))
    }
}

/// A file shared by several holders.
#[derive(Debug)]
pub struct SharedFile(Arc<OwnedFile>);

impl SharedFile {
    /// The path of this file.
    pub closed spec fn spec_path(&self) -> Seq<char> {
        self.0.spec_path()
    }

    /// The path of the directory that this file keeps reachable, if any.
    pub closed spec fn spec_dir(&self) -> Option<Seq<char>> {
        self.0.spec_dir()
    }

    /// The path of this file.
    pub fn path(&self) -> (p: &str)
        ensures
            p@ == self.spec_path(),
    {
        self.0.path()
    }
}

impl Clone for SharedFile {
    fn clone(&self) -> (file: Self)
        ensures
            file == *self,
    {
        SharedFile(share(&self.0))
    }
}

} // verus!
