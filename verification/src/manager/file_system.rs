//! The staged filesystem image: an in-memory record of the files,
//! directories and symlinks an operation reads and writes. The embedding
//! application loads the relevant paths from disk before an operation and
//! applies the staged state afterwards, so a half-written state is never
//! visible on disk.

use vstd::prelude::*;
use vstd::string::StrSliceExecFns;

use crate::error::ValetError;
use crate::strutil::{concat_str, contains_seq, contains_str, occurs_at, starts_with,
    str_eq, lemma_concat_cancel_left};

verus! {

/// An in-memory filesystem image: file contents by path, the set of
/// directories, and the set of symlink paths.
pub struct ValetFilesystem {
    pub files: Vec<(String, String)>,
    pub dirs: Vec<String>,
    pub links: Vec<String>,
}

impl ValetFilesystem {
    /// Paths are unique in each table.
    pub open spec fn wf(self) -> bool {
        &&& forall|i: int, j: int|
            0 <= i < j < self.files@.len() ==> (#[trigger] self.files@[i]).0@ != (
            #[trigger] self.files@[j]).0@
        &&& forall|i: int, j: int|
            0 <= i < j < self.dirs@.len() ==> (#[trigger] self.dirs@[i])@ != (
            #[trigger] self.dirs@[j])@
        &&& forall|i: int, j: int|
            0 <= i < j < self.links@.len() ==> (#[trigger] self.links@[i])@ != (
            #[trigger] self.links@[j])@
    }

    /// A file exists at `p`.
    pub open spec fn has_file(self, p: Seq<char>) -> bool {
        exists|i: int| 0 <= i < self.files@.len() && (#[trigger] self.files@[i]).0@ == p
    }

    pub open spec fn file_idx(self, p: Seq<char>) -> int {
        choose|i: int| 0 <= i < self.files@.len() && (#[trigger] self.files@[i]).0@ == p
    }

    /// The contents of the file at `p` (meaningful when `has_file`).
    pub open spec fn file_at(self, p: Seq<char>) -> Seq<char> {
        self.files@[self.file_idx(p)].1@
    }

    /// A directory exists at `p`.
    pub open spec fn has_dir(self, p: Seq<char>) -> bool {
        exists|i: int| 0 <= i < self.dirs@.len() && (#[trigger] self.dirs@[i])@ == p
    }

    /// A symlink exists at `p`.
    pub open spec fn has_link(self, p: Seq<char>) -> bool {
        exists|i: int| 0 <= i < self.links@.len() && (#[trigger] self.links@[i])@ == p
    }

    /// Any entry exists at `p`.
    pub open spec fn has_entry(self, p: Seq<char>) -> bool {
        self.has_file(p) || self.has_dir(p) || self.has_link(p)
    }

    /// The file tables of two images agree.
    pub open spec fn same_files(self, other: Self) -> bool {
        &&& forall|q: Seq<char>| self.has_file(q) == other.has_file(q)
        &&& forall|q: Seq<char>| self.has_file(q) ==> self.file_at(q) == other.file_at(q)
    }

    /// An index holding path `p` pins down `file_at(p)`.
    proof fn lemma_file_at_is(self, p: Seq<char>, i: int)
        requires
            self.wf(),
            0 <= i < self.files@.len(),
            self.files@[i].0@ == p,
        ensures
            self.has_file(p),
            self.file_at(p) == self.files@[i].1@,
            self.file_idx(p) == i,
    {
        assert(self.has_file(p));
        let k = self.file_idx(p);
        if k < i {
            assert(self.files@[k].0@ != self.files@[i].0@);
        } else if k > i {
            assert(self.files@[i].0@ != self.files@[k].0@);
        }
    }

    /// Equal directory tables record the same directories.
    pub proof fn lemma_same_dirs(a: Self, b: Self)
        requires
            a.dirs@ == b.dirs@,
        ensures
            forall|q: Seq<char>| a.has_dir(q) == b.has_dir(q),
    {
        assert forall|q: Seq<char>| a.has_dir(q) == b.has_dir(q) by {
            if a.has_dir(q) {
                let k = choose|k: int| 0 <= k < a.dirs@.len() && (#[trigger] a.dirs@[k])@ == q;
                assert(b.dirs@[k]@ == q);
            }
            if b.has_dir(q) {
                let k = choose|k: int| 0 <= k < b.dirs@.len() && (#[trigger] b.dirs@[k])@ == q;
                assert(a.dirs@[k]@ == q);
            }
        }
    }

    /// Equal link tables record the same symlinks.
    pub proof fn lemma_same_links(a: Self, b: Self)
        requires
            a.links@ == b.links@,
        ensures
            forall|q: Seq<char>| a.has_link(q) == b.has_link(q),
    {
        assert forall|q: Seq<char>| a.has_link(q) == b.has_link(q) by {
            if a.has_link(q) {
                let k = choose|k: int| 0 <= k < a.links@.len() && (#[trigger] a.links@[k])@ == q;
                assert(b.links@[k]@ == q);
            }
            if b.has_link(q) {
                let k = choose|k: int| 0 <= k < b.links@.len() && (#[trigger] b.links@[k])@ == q;
                assert(a.links@[k]@ == q);
            }
        }
    }

    /// Equal file tables record the same files and contents.
    pub proof fn lemma_same_file_table(a: Self, b: Self)
        requires
            a.files@ == b.files@,
        ensures
            forall|q: Seq<char>| a.has_file(q) == b.has_file(q),
            forall|q: Seq<char>| a.has_file(q) ==> a.file_at(q) == b.file_at(q),
    {
        assert forall|q: Seq<char>| a.has_file(q) == b.has_file(q) by {
            if a.has_file(q) {
                let k = choose|k: int|
                    0 <= k < a.files@.len() && (#[trigger] a.files@[k]).0@ == q;
                assert(b.files@[k].0@ == q);
            }
            if b.has_file(q) {
                let k = choose|k: int|
                    0 <= k < b.files@.len() && (#[trigger] b.files@[k]).0@ == q;
                assert(a.files@[k].0@ == q);
            }
        }
        assert forall|q: Seq<char>| a.has_file(q) implies a.file_at(q) == b.file_at(q) by {
            assert(a.file_idx(q) == b.file_idx(q));
        }
    }

    pub fn new() -> (r: Self)
        ensures
            r.wf(),
            forall|q: Seq<char>| !r.has_file(q),
            forall|q: Seq<char>| !r.has_dir(q),
            forall|q: Seq<char>| !r.has_link(q),
    {
        ValetFilesystem { files: Vec::new(), dirs: Vec::new(), links: Vec::new() }
    }

    /// Index of the file at `path`, if any.
    fn find_file(&self, path: &str) -> (r: Option<usize>)
        ensures
            match r {
                Some(i) => i < self.files@.len() && self.files@[i as int].0@ == path@,
                None => !self.has_file(path@),
            },
    {
        let n = self.files.len();
        let mut i: usize = 0;
        while i < n
            invariant
                n == self.files@.len(),
                i <= n,
                forall|j: int| 0 <= j < i ==> (#[trigger] self.files@[j]).0@ != path@,
            decreases n - i,
        {
            if str_eq(self.files[i].0.as_str(), path) {
                return Some(i);
            }
            i += 1;
        }
        None
    }

    fn find_dir(&self, path: &str) -> (r: Option<usize>)
        ensures
            match r {
                Some(i) => i < self.dirs@.len() && self.dirs@[i as int]@ == path@,
                None => !self.has_dir(path@),
            },
    {
        let n = self.dirs.len();
        let mut i: usize = 0;
        while i < n
            invariant
                n == self.dirs@.len(),
                i <= n,
                forall|j: int| 0 <= j < i ==> (#[trigger] self.dirs@[j])@ != path@,
            decreases n - i,
        {
            if str_eq(self.dirs[i].as_str(), path) {
                return Some(i);
            }
            i += 1;
        }
        None
    }

    fn find_link(&self, path: &str) -> (r: Option<usize>)
        ensures
            match r {
                Some(i) => i < self.links@.len() && self.links@[i as int]@ == path@,
                None => !self.has_link(path@),
            },
    {
        let n = self.links.len();
        let mut i: usize = 0;
        while i < n
            invariant
                n == self.links@.len(),
                i <= n,
                forall|j: int| 0 <= j < i ==> (#[trigger] self.links@[j])@ != path@,
            decreases n - i,
        {
            if str_eq(self.links[i].as_str(), path) {
                return Some(i);
            }
            i += 1;
        }
        None
    }

    /// Some entry exists at `path`.
    pub fn path_exists(&self, path: &str) -> (r: bool)
        ensures
            r == self.has_entry(path@),
    {
        if let Some(_) = self.find_file(path) {
            return true;
        }
        if let Some(_) = self.find_dir(path) {
            return true;
        }
        if let Some(_) = self.find_link(path) {
            return true;
        }
        false
    }

    /// A directory exists at `path`.
    pub fn is_dir(&self, path: &str) -> (r: bool)
        ensures
            r == self.has_dir(path@),
    {
        match self.find_dir(path) {
            Some(_) => true,
            None => false,
        }
    }

    /// A regular file exists at `path`.
    pub fn is_file(&self, path: &str) -> (r: bool)
        ensures
            r == self.has_file(path@),
    {
        match self.find_file(path) {
            Some(_) => true,
            None => false,
        }
    }

    /// A symlink exists at `path`.
    pub fn is_link(&self, path: &str) -> (r: bool)
        ensures
            r == self.has_link(path@),
    {
        match self.find_link(path) {
            Some(_) => true,
            None => false,
        }
    }

    /// Reads the file at `path`.
    pub fn get(&self, path: &str) -> (r: Result<String, ValetError>)
        requires
            self.wf(),
        ensures
            match r {
                Ok(c) => self.has_file(path@) && c@ == self.file_at(path@),
                Err(e) => !self.has_file(path@) && e is IoFailure,
            },
    {
        match self.find_file(path) {
            Some(i) => {
                let c = self.files[i].1.clone();
                proof {
                    self.lemma_file_at_is(path@, i as int);
                }
                Ok(c)
            },
            None => Err(ValetError::IoFailure(path.to_owned())),
        }
    }

    /// Writes `contents` to the file at `path`, creating or overwriting
    /// it. Directories and symlinks are untouched.
    pub fn put(&mut self, path: &str, contents: &str)
        requires
            old(self).wf(),
        ensures
            final(self).wf(),
            forall|q: Seq<char>|
                final(self).has_file(q) == (old(self).has_file(q) || q == path@),
            final(self).file_at(path@) == contents@,
            forall|q: Seq<char>|
                q != path@ && old(self).has_file(q) ==> final(self).file_at(q) == old(self).file_at(q),
            final(self).dirs@ == old(self).dirs@,
            final(self).links@ == old(self).links@,
    {
        match self.find_file(path) {
            Some(i) => {
                let entry = (path.to_owned(), contents.to_owned());
                self.files.set(i, entry);
                proof {
                    assert forall|q: Seq<char>|
                        final(self).has_file(q) == (old(self).has_file(q) || q == path@) by {
                        if final(self).has_file(q) {
                            let k = choose|k: int|
                                0 <= k < final(self).files@.len() && (
                                #[trigger] final(self).files@[k]).0@ == q;
                            if k != i {
                                assert(old(self).files@[k].0@ == q);
                            }
                        }
                        if old(self).has_file(q) {
                            let k = choose|k: int|
                                0 <= k < old(self).files@.len() && (
                                #[trigger] old(self).files@[k]).0@ == q;
                            if k != i {
                                assert(final(self).files@[k].0@ == q);
                            } else {
                                assert(q == path@);
                            }
                        }
                    }
                    final(self).lemma_file_at_is(path@, i as int);
                    assert forall|q: Seq<char>|
                        q != path@ && old(self).has_file(q) implies final(self).file_at(q) == old(self).file_at(q) by {
                        let k = choose|k: int|
                            0 <= k < old(self).files@.len() && (#[trigger] old(self).files@[k]).0@ == q;
                        assert(k != i);
                        old(self).lemma_file_at_is(q, k);
                        final(self).lemma_file_at_is(q, k);
                    }
                }
            },
            None => {
                let entry = (path.to_owned(), contents.to_owned());
                self.files.push(entry);
                proof {
                    let n = old(self).files@.len();
                    assert(final(self).files@[n as int].0@ == path@);
                    assert forall|q: Seq<char>|
                        final(self).has_file(q) == (old(self).has_file(q) || q == path@) by {
                        if final(self).has_file(q) {
                            let k = choose|k: int|
                                0 <= k < final(self).files@.len() && (
                                #[trigger] final(self).files@[k]).0@ == q;
                            if k < n {
                                assert(old(self).files@[k].0@ == q);
                            }
                        }
                        if old(self).has_file(q) {
                            let k = choose|k: int|
                                0 <= k < old(self).files@.len() && (
                                #[trigger] old(self).files@[k]).0@ == q;
                            assert(final(self).files@[k].0@ == q);
                        }
                    }
                    final(self).lemma_file_at_is(path@, n as int);
                    assert forall|q: Seq<char>|
                        q != path@ && old(self).has_file(q) implies final(self).file_at(q) == old(self).file_at(q) by {
                        let k = choose|k: int|
                            0 <= k < old(self).files@.len() && (#[trigger] old(self).files@[k]).0@ == q;
                        old(self).lemma_file_at_is(q, k);
                        final(self).lemma_file_at_is(q, k);
                    }
                }
            },
        }
    }

    /// Removes the file or symlink record at `path`; a missing entry is
    /// a no-op.
    pub fn unlink(&mut self, path: &str)
        requires
            old(self).wf(),
        ensures
            final(self).wf(),
            forall|q: Seq<char>|
                final(self).has_file(q) == (old(self).has_file(q) && q != path@),
            forall|q: Seq<char>|
                q != path@ && old(self).has_file(q) ==> final(self).file_at(q) == old(self).file_at(q),
            forall|q: Seq<char>|
                final(self).has_link(q) == (old(self).has_link(q) && q != path@),
            final(self).dirs@ == old(self).dirs@,
    {
        self.remove_link_entry(path);
        let ghost mid = *self;
        match self.find_file(path) {
            Some(i) => {
                let ghost pre = self.files@;
                self.files.remove(i);
                proof {
                    let n = pre.len();
                    assert(final(self).files@ =~= pre.subrange(0, i as int) + pre.subrange(
                        i + 1,
                        n as int,
                    ));
                    assert forall|k: int, l: int|
                        0 <= k < l < final(self).files@.len() implies (#[trigger] final(self).files@[k]).0@ != (#[trigger] final(self).files@[l]).0@ by {
                        let ok: int = if k < i { k } else { k + 1 };
                        let ol: int = if l < i { l } else { l + 1 };
                        assert(final(self).files@[k] == pre[ok]);
                        assert(final(self).files@[l] == pre[ol]);
                    }
                    assert forall|q: Seq<char>|
                        final(self).has_file(q) == (old(self).has_file(q) && q != path@) by {
                        if final(self).has_file(q) {
                            let k = choose|k: int|
                                0 <= k < final(self).files@.len() && (
                                #[trigger] final(self).files@[k]).0@ == q;
                            let ok: int = if k < i { k } else { k + 1 };
                            assert(pre[ok].0@ == q);
                            if q == path@ {
                                assert(pre[i as int].0@ == path@);
                                assert(ok != i);
                            }
                        }
                        if old(self).has_file(q) && q != path@ {
                            let k = choose|k: int|
                                0 <= k < pre.len() && (#[trigger] pre[k]).0@ == q;
                            assert(k != i);
                            if k < i {
                                assert(final(self).files@[k].0@ == q);
                            } else {
                                assert(final(self).files@[k - 1].0@ == q);
                            }
                        }
                    }
                    assert forall|q: Seq<char>|
                        q != path@ && old(self).has_file(q) implies final(self).file_at(q) == old(self).file_at(q) by {
                        let k = choose|k: int|
                            0 <= k < pre.len() && (#[trigger] pre[k]).0@ == q;
                        assert(k != i);
                        old(self).lemma_file_at_is(q, k);
                        if k < i {
                            assert(final(self).files@[k] == pre[k]);
                            final(self).lemma_file_at_is(q, k);
                        } else {
                            assert(final(self).files@[k - 1] == pre[k]);
                            final(self).lemma_file_at_is(q, k - 1);
                        }
                    }
                }
            },
            None => {
            },
        }
        proof {
            assert(self.links@ == mid.links@);
            Self::lemma_same_links(*self, mid);
            assert forall|q: Seq<char>|
                self.has_link(q) == (old(self).has_link(q) && q != path@) by {
                assert(mid.has_link(q) == (old(self).has_link(q) && q != path@));
            }
        }
    }

    /// Records a directory at `path`, as `mkdir -p` would.
    pub fn mkdir(&mut self, path: &str, mode: u32)
        requires
            old(self).wf(),
        ensures
            final(self).wf(),
            forall|q: Seq<char>| final(self).has_dir(q) == (old(self).has_dir(q) || q == path@),
            final(self).files@ == old(self).files@,
            final(self).links@ == old(self).links@,
    {
        match self.find_dir(path) {
            Some(_) => {
                proof {
                    assert forall|q: Seq<char>|
                        final(self).has_dir(q) == (old(self).has_dir(q) || q == path@) by {}
                }
            },
            None => {
                let n = self.dirs.len();
                self.dirs.push(path.to_owned());
                proof {
                    assert(final(self).dirs@[n as int]@ == path@);
                    assert forall|q: Seq<char>|
                        final(self).has_dir(q) == (old(self).has_dir(q) || q == path@) by {
                        if final(self).has_dir(q) {
                            let k = choose|k: int|
                                0 <= k < final(self).dirs@.len() && (#[trigger] final(self).dirs@[k])@ == q;
                            if k < n {
                                assert(old(self).dirs@[k]@ == q);
                            }
                        }
                        if old(self).has_dir(q) {
                            let k = choose|k: int|
                                0 <= k < old(self).dirs@.len() && (#[trigger] old(self).dirs@[k])@ == q;
                            assert(final(self).dirs@[k]@ == q);
                        }
                    }
                }
            },
        }
    }

    /// Ensures a directory exists at `path`; `owner` and `mode` are
    /// applied by the executing application.
    pub fn ensure_dir_exists(&mut self, path: &str, owner: &str, mode: u32)
        requires
            old(self).wf(),
        ensures
            final(self).wf(),
            forall|q: Seq<char>| final(self).has_dir(q) == (old(self).has_dir(q) || q == path@),
            final(self).files@ == old(self).files@,
            final(self).links@ == old(self).links@,
    {
        self.mkdir(path, mode)
    }

    /// Creates an empty file at `path` when none exists.
    pub fn touch(&mut self, path: &str)
        requires
            old(self).wf(),
        ensures
            final(self).wf(),
            forall|q: Seq<char>|
                final(self).has_file(q) == (old(self).has_file(q) || q == path@),
            forall|q: Seq<char>|
                q != path@ && old(self).has_file(q) ==> final(self).file_at(q) == old(self).file_at(q),
            old(self).has_file(path@) ==> final(self).file_at(path@) == old(self).file_at(path@),
            !old(self).has_file(path@) ==> final(self).file_at(path@) == Seq::<char>::empty(),
            final(self).dirs@ == old(self).dirs@,
            final(self).links@ == old(self).links@,
    {
        match self.find_file(path) {
            Some(i) => {
                proof {
                    self.lemma_file_at_is(path@, i as int);
                }
            },
            None => {
                self.put(path, "");
                proof {
                    reveal_strlit("");
                    assert(""@ =~= Seq::<char>::empty());
                }
            },
        }
    }

    /// Copies the file at `from` over the file at `to`.
    pub fn copy(&mut self, from: &str, to: &str) -> (r: Result<(), ValetError>)
        requires
            old(self).wf(),
        ensures
            final(self).wf(),
            match r {
                Ok(()) => {
                    &&& old(self).has_file(from@)
                    &&& forall|q: Seq<char>|
                        final(self).has_file(q) == (old(self).has_file(q) || q == to@)
                    &&& final(self).file_at(to@) == old(self).file_at(from@)
                    &&& forall|q: Seq<char>|
                        q != to@ && old(self).has_file(q) ==> final(self).file_at(q) == old(self).file_at(q)
                },
                Err(e) => !old(self).has_file(from@) && e is IoFailure && *final(self) == *old(self),
            },
            final(self).dirs@ == old(self).dirs@,
            final(self).links@ == old(self).links@,
    {
        let contents = match self.get(from) {
            Ok(c) => c,
            Err(e) => {
                return Err(e);
            },
        };
        self.put(to, contents.as_str());
        Ok(())
    }

    /// Copies `file` to `<file>.bak` unless a backup already exists.
    pub fn backup(&mut self, file: &str)
        requires
            old(self).wf(),
        ensures
            final(self).wf(),
            final(self).dirs@ == old(self).dirs@,
            final(self).links@ == old(self).links@,
            forall|q: Seq<char>|
                final(self).has_file(q) == (old(self).has_file(q) || (q == file@ + ".bak"@ && old(self).has_file(file@))),
            forall|q: Seq<char>|
                q != file@ + ".bak"@ && old(self).has_file(q) ==> final(self).file_at(q) == old(self).file_at(q),
            // a fresh backup holds the file's contents; an existing one is
            // kept as it is
            old(self).has_file(file@) && !old(self).has_file(file@ + ".bak"@) ==> final(self).file_at(file@ + ".bak"@) == old(self).file_at(file@),
            old(self).has_file(file@ + ".bak"@) ==> final(self).file_at(file@ + ".bak"@) == old(
                self,
            ).file_at(file@ + ".bak"@),
    {
        let bak = concat_str(file, ".bak");
        let has_src = match self.find_file(file) {
            Some(_) => true,
            None => false,
        };
        let has_bak = match self.find_file(bak.as_str()) {
            Some(_) => true,
            None => false,
        };
        if has_src && !has_bak {
            let _copy_result = self.copy(file, bak.as_str());
        }
    }

    /// Restores `<file>.bak` over `file`, removing the backup.
    pub fn restore(&mut self, file: &str)
        requires
            old(self).wf(),
        ensures
            final(self).wf(),
            final(self).dirs@ == old(self).dirs@,
            forall|q: Seq<char>|
                q != file@ && q != file@ + ".bak"@ ==> final(self).has_file(q) == old(
                    self,
                ).has_file(q) && (old(self).has_file(q) ==> final(self).file_at(q) == old(
                    self,
                ).file_at(q)),
    {
        let bak = concat_str(file, ".bak");
        let has_bak = match self.find_file(bak.as_str()) {
            Some(_) => true,
            None => false,
        };
        if has_bak {
            let _copy_result = self.copy(bak.as_str(), file);
            self.unlink(bak.as_str());
        }
    }

    /// Records a symlink at `link`; the target is resolved by the
    /// executing application.
    pub fn symlink(&mut self, target: &str, link: &str)
        requires
            old(self).wf(),
        ensures
            final(self).wf(),
            forall|q: Seq<char>| final(self).has_link(q) == (old(self).has_link(q) || q == link@),
            final(self).files@ == old(self).files@,
            final(self).dirs@ == old(self).dirs@,
    {
        match self.find_link(link) {
            Some(_) => {
                proof {
                    assert forall|q: Seq<char>|
                        final(self).has_link(q) == (old(self).has_link(q) || q == link@) by {}
                }
            },
            None => {
                let n = self.links.len();
                self.links.push(link.to_owned());
                proof {
                    assert(final(self).links@[n as int]@ == link@);
                    assert forall|q: Seq<char>|
                        final(self).has_link(q) == (old(self).has_link(q) || q == link@) by {
                        if final(self).has_link(q) {
                            let k = choose|k: int|
                                0 <= k < final(self).links@.len() && (#[trigger] final(self).links@[k])@ == q;
                            if k < n {
                                assert(old(self).links@[k]@ == q);
                            }
                        }
                        if old(self).has_link(q) {
                            let k = choose|k: int|
                                0 <= k < old(self).links@.len() && (#[trigger] old(self).links@[k])@ == q;
                            assert(final(self).links@[k]@ == q);
                        }
                    }
                }
            },
        }
    }

    /// Removes the entry at `path`: the file, directory or symlink record.
    pub fn remove(&mut self, path: &str)
        requires
            old(self).wf(),
        ensures
            final(self).wf(),
            forall|q: Seq<char>|
                final(self).has_file(q) == (old(self).has_file(q) && q != path@),
            forall|q: Seq<char>|
                q != path@ && old(self).has_file(q) ==> final(self).file_at(q) == old(self).file_at(q),
            forall|q: Seq<char>|
                final(self).has_dir(q) == (old(self).has_dir(q) && q != path@),
    {
        self.unlink(path);
        let ghost mid = *self;
        self.remove_dir_entry(path);
        proof {
            assert(mid.dirs@ == old(self).dirs@);
            Self::lemma_same_dirs(mid, *old(self));
            assert(self.files@ == mid.files@);
            Self::lemma_same_file_table(*self, mid);
            assert forall|q: Seq<char>|
                final(self).has_dir(q) == (old(self).has_dir(q) && q != path@) by {
                assert(final(self).has_dir(q) == (mid.has_dir(q) && q != path@));
                assert(mid.has_dir(q) == old(self).has_dir(q));
            }
            assert forall|q: Seq<char>|
                final(self).has_file(q) == (old(self).has_file(q) && q != path@) by {
                assert(final(self).has_file(q) == mid.has_file(q));
                assert(mid.has_file(q) == (old(self).has_file(q) && q != path@));
            }
            assert forall|q: Seq<char>|
                q != path@ && old(self).has_file(q) implies final(self).file_at(q) == old(self).file_at(q) by {
                assert(mid.has_file(q));
                assert(final(self).file_at(q) == mid.file_at(q));
            }
        }
    }

    /// Removes the directory record at `path`, if any.
    fn remove_dir_entry(&mut self, path: &str)
        requires
            old(self).wf(),
        ensures
            final(self).wf(),
            forall|q: Seq<char>|
                final(self).has_dir(q) == (old(self).has_dir(q) && q != path@),
            final(self).files@ == old(self).files@,
            final(self).links@ == old(self).links@,
    {
        match self.find_dir(path) {
            Some(i) => {
                let ghost pre = self.dirs@;
                self.dirs.remove(i);
                proof {
                    let n = pre.len();
                    assert(final(self).dirs@ =~= pre.subrange(0, i as int) + pre.subrange(
                        i + 1,
                        n as int,
                    ));
                    assert forall|k: int, l: int|
                        0 <= k < l < final(self).dirs@.len() implies (#[trigger] final(self).dirs@[k])@ != (#[trigger] final(self).dirs@[l])@ by {
                        let ok: int = if k < i { k } else { k + 1 };
                        let ol: int = if l < i { l } else { l + 1 };
                        assert(final(self).dirs@[k] == pre[ok]);
                        assert(final(self).dirs@[l] == pre[ol]);
                    }
                    assert forall|q: Seq<char>|
                        final(self).has_dir(q) == (old(self).has_dir(q) && q != path@) by {
                        if final(self).has_dir(q) {
                            let k = choose|k: int|
                                0 <= k < final(self).dirs@.len() && (#[trigger] final(self).dirs@[k])@ == q;
                            let ok: int = if k < i { k } else { k + 1 };
                            assert(pre[ok]@ == q);
                            if q == path@ {
                                assert(pre[i as int]@ == path@);
                                assert(ok != i);
                            }
                        }
                        if old(self).has_dir(q) && q != path@ {
                            let k = choose|k: int|
                                0 <= k < pre.len() && (#[trigger] pre[k])@ == q;
                            assert(k != i);
                            if k < i {
                                assert(final(self).dirs@[k]@ == q);
                            } else {
                                assert(final(self).dirs@[k - 1]@ == q);
                            }
                        }
                    }
                }
            },
            None => {
            },
        }
    }

    /// Removes the symlink record at `path`, if any.
    fn remove_link_entry(&mut self, path: &str)
        requires
            old(self).wf(),
        ensures
            final(self).wf(),
            forall|q: Seq<char>|
                final(self).has_link(q) == (old(self).has_link(q) && q != path@),
            final(self).files@ == old(self).files@,
            final(self).dirs@ == old(self).dirs@,
    {
        match self.find_link(path) {
            Some(i) => {
                let ghost pre = self.links@;
                self.links.remove(i);
                proof {
                    let n = pre.len();
                    assert(final(self).links@ =~= pre.subrange(0, i as int) + pre.subrange(
                        i + 1,
                        n as int,
                    ));
                    assert forall|k: int, l: int|
                        0 <= k < l < final(self).links@.len() implies (#[trigger] final(self).links@[k])@ != (#[trigger] final(self).links@[l])@ by {
                        let ok: int = if k < i { k } else { k + 1 };
                        let ol: int = if l < i { l } else { l + 1 };
                        assert(final(self).links@[k] == pre[ok]);
                        assert(final(self).links@[l] == pre[ol]);
                    }
                    assert forall|q: Seq<char>|
                        final(self).has_link(q) == (old(self).has_link(q) && q != path@) by {
                        if final(self).has_link(q) {
                            let k = choose|k: int|
                                0 <= k < final(self).links@.len() && (#[trigger] final(self).links@[k])@ == q;
                            let ok: int = if k < i { k } else { k + 1 };
                            assert(pre[ok]@ == q);
                            if q == path@ {
                                assert(pre[i as int]@ == path@);
                                assert(ok != i);
                            }
                        }
                        if old(self).has_link(q) && q != path@ {
                            let k = choose|k: int|
                                0 <= k < pre.len() && (#[trigger] pre[k])@ == q;
                            assert(k != i);
                            if k < i {
                                assert(final(self).links@[k]@ == q);
                            } else {
                                assert(final(self).links@[k - 1]@ == q);
                            }
                        }
                    }
                }
            },
            None => {
            },
        }
    }

    /// A directory listing is sound: every listed name has an entry
    /// directly under `dir`, no listed name holds a `/`, is empty or is
    /// the `.keep` placeholder.
    pub open spec fn listing_sound(self, dir: Seq<char>, v: Seq<String>) -> bool {
        forall|i: int|
            0 <= i < v.len() ==> self.has_entry(dir + "/"@ + (#[trigger] v[i])@)
                && !contains_seq(v[i]@, "/"@) && v[i]@.len() > 0 && v[i]@ != ".keep"@
    }

    /// A directory listing is complete: every name with an entry directly
    /// under `dir` is listed.
    pub open spec fn listing_complete(self, dir: Seq<char>, v: Seq<String>) -> bool {
        forall|n: Seq<char>|
            #[trigger] self.has_entry(dir + "/"@ + n) && !contains_seq(n, "/"@) && n.len() > 0
                && n != ".keep"@ ==> exists|i: int| 0 <= i < v.len() && (#[trigger] v[i])@ == n
    }

    /// Lists the names of the entries directly under `dir`.
    pub fn scandir(&self, dir: &str) -> (r: Result<Vec<String>, ValetError>)
        requires
            self.wf(),
        ensures
            r is Ok,
            self.listing_sound(dir@, r.unwrap()@),
            self.listing_complete(dir@, r.unwrap()@),
    {
        Ok(self.scan_names(dir))
    }

    /// The working half of `scandir`.
    fn scan_names(&self, dir: &str) -> (out: Vec<String>)
        requires
            self.wf(),
        ensures
            self.listing_sound(dir@, out@),
            self.listing_complete(dir@, out@),
    {
        let mut out: Vec<String> = Vec::new();
        let prefix = concat_str(dir, "/");
        let plen = prefix.as_str().unicode_len();
        proof {
            reveal_strlit("/");
            assert(prefix@ == dir@ + "/"@);
        }
        let n_files = self.files.len();
        let mut i: usize = 0;
        while i < n_files
            invariant
                self.wf(),
                n_files == self.files@.len(),
                i <= n_files,
                prefix@ == dir@ + "/"@,
                plen == prefix@.len(),
                forall|k: int|
                    0 <= k < out@.len() ==> self.has_entry(dir@ + "/"@ + (#[trigger] out@[k])@)
                        && !contains_seq(out@[k]@, "/"@) && out@[k]@.len() > 0 && out@[k]@
                        != ".keep"@,
                forall|j: int|
                    0 <= j < i ==> (exists|n: Seq<char>|
                        (#[trigger] self.files@[j]).0@ == dir@ + "/"@ + n && !contains_seq(
                            n,
                            "/"@,
                        ) && n.len() > 0 && n != ".keep"@) ==> exists|k: int|
                        0 <= k < out@.len() && dir@ + "/"@ + out@[k]@ == self.files@[j].0@,
            decreases n_files - i,
        {
            self.take_child(self.files[i].0.as_str(), prefix.as_str(), plen, &mut out, Ghost(dir@));
            proof {
                assert(self.has_file(self.files@[i as int].0@)) by {
                    assert(self.files@[i as int].0@ == self.files@[i as int].0@);
                }
            }
            i += 1;
        }
        let n_dirs = self.dirs.len();
        let mut j: usize = 0;
        while j < n_dirs
            invariant
                self.wf(),
                n_dirs == self.dirs@.len(),
                j <= n_dirs,
                prefix@ == dir@ + "/"@,
                plen == prefix@.len(),
                forall|k: int|
                    0 <= k < out@.len() ==> self.has_entry(dir@ + "/"@ + (#[trigger] out@[k])@)
                        && !contains_seq(out@[k]@, "/"@) && out@[k]@.len() > 0 && out@[k]@
                        != ".keep"@,
                forall|jj: int|
                    0 <= jj < self.files@.len() ==> (exists|n: Seq<char>|
                        (#[trigger] self.files@[jj]).0@ == dir@ + "/"@ + n && !contains_seq(
                            n,
                            "/"@,
                        ) && n.len() > 0 && n != ".keep"@) ==> exists|k: int|
                        0 <= k < out@.len() && dir@ + "/"@ + out@[k]@ == self.files@[jj].0@,
                forall|jj: int|
                    0 <= jj < j ==> (exists|n: Seq<char>|
                        (#[trigger] self.dirs@[jj])@ == dir@ + "/"@ + n && !contains_seq(n, "/"@)
                            && n.len() > 0 && n != ".keep"@) ==> exists|k: int|
                        0 <= k < out@.len() && dir@ + "/"@ + out@[k]@ == self.dirs@[jj]@,
            decreases n_dirs - j,
    {
            self.take_child(self.dirs[j].as_str(), prefix.as_str(), plen, &mut out, Ghost(dir@));
            j += 1;
        }
        let n_links = self.links.len();
        let mut l: usize = 0;
        while l < n_links
            invariant
                self.wf(),
                n_links == self.links@.len(),
                l <= n_links,
                prefix@ == dir@ + "/"@,
                plen == prefix@.len(),
                forall|k: int|
                    0 <= k < out@.len() ==> self.has_entry(dir@ + "/"@ + (#[trigger] out@[k])@)
                        && !contains_seq(out@[k]@, "/"@) && out@[k]@.len() > 0 && out@[k]@
                        != ".keep"@,
                forall|jj: int|
                    0 <= jj < self.files@.len() ==> (exists|n: Seq<char>|
                        (#[trigger] self.files@[jj]).0@ == dir@ + "/"@ + n && !contains_seq(
                            n,
                            "/"@,
                        ) && n.len() > 0 && n != ".keep"@) ==> exists|k: int|
                        0 <= k < out@.len() && dir@ + "/"@ + out@[k]@ == self.files@[jj].0@,
                forall|jj: int|
                    0 <= jj < self.dirs@.len() ==> (exists|n: Seq<char>|
                        (#[trigger] self.dirs@[jj])@ == dir@ + "/"@ + n && !contains_seq(n, "/"@)
                            && n.len() > 0 && n != ".keep"@) ==> exists|k: int|
                        0 <= k < out@.len() && dir@ + "/"@ + out@[k]@ == self.dirs@[jj]@,
                forall|jj: int|
                    0 <= jj < l ==> (exists|n: Seq<char>|
                        (#[trigger] self.links@[jj])@ == dir@ + "/"@ + n && !contains_seq(n, "/"@)
                            && n.len() > 0 && n != ".keep"@) ==> exists|k: int|
                        0 <= k < out@.len() && dir@ + "/"@ + out@[k]@ == self.links@[jj]@,
            decreases n_links - l,
        {
            self.take_child(self.links[l].as_str(), prefix.as_str(), plen, &mut out, Ghost(dir@));
            l += 1;
        }
        proof {
            assert forall|n: Seq<char>|
                #[trigger] self.has_entry(dir@ + "/"@ + n) && !contains_seq(n, "/"@) && n.len() > 0
                    && n != ".keep"@ implies exists|k: int|
                0 <= k < out@.len() && out@[k]@ == n by {
                let q = dir@ + "/"@ + n;
                if self.has_file(q) {
                    let jj = choose|jj: int|
                        0 <= jj < self.files@.len() && (#[trigger] self.files@[jj]).0@ == q;
                    let k = choose|k: int|
                        0 <= k < out@.len() && dir@ + "/"@ + (#[trigger] out@[k])@
                            == self.files@[jj].0@;
                    assert(dir@ + "/"@ + out@[k]@ == dir@ + "/"@ + n);
                    lemma_concat_cancel_left(dir@ + "/"@, out@[k]@, n);
                    assert(0 <= k < out@.len() && out@[k]@ == n);
                } else if self.has_dir(q) {
                    let jj = choose|jj: int|
                        0 <= jj < self.dirs@.len() && (#[trigger] self.dirs@[jj])@ == q;
                    let k = choose|k: int|
                        0 <= k < out@.len() && dir@ + "/"@ + (#[trigger] out@[k])@
                            == self.dirs@[jj]@;
                    assert(dir@ + "/"@ + out@[k]@ == dir@ + "/"@ + n);
                    lemma_concat_cancel_left(dir@ + "/"@, out@[k]@, n);
                    assert(0 <= k < out@.len() && out@[k]@ == n);
                } else {
                    let jj = choose|jj: int|
                        0 <= jj < self.links@.len() && (#[trigger] self.links@[jj])@ == q;
                    let k = choose|k: int|
                        0 <= k < out@.len() && dir@ + "/"@ + (#[trigger] out@[k])@
                            == self.links@[jj]@;
                    assert(dir@ + "/"@ + out@[k]@ == dir@ + "/"@ + n);
                    lemma_concat_cancel_left(dir@ + "/"@, out@[k]@, n);
                    assert(0 <= k < out@.len() && out@[k]@ == n);
                }
            }
            assert(forall|i: int|
                0 <= i < out@.len() ==> self.has_entry(dir@ + "/"@ + (#[trigger] out@[i])@)
                    && !contains_seq(out@[i]@, "/"@) && out@[i]@.len() > 0 && out@[i]@
                    != ".keep"@);
            assert(forall|n: Seq<char>|
                #[trigger] self.has_entry(dir@ + "/"@ + n) && !contains_seq(n, "/"@) && n.len()
                    > 0 && n != ".keep"@ ==> exists|i: int|
                    0 <= i < out@.len() && (#[trigger] out@[i])@ == n);
        }
        out
    }

    /// Pushes the child name of `path` under `dir` onto `out` when `path`
    /// lies directly under it.
    fn take_child(
        &self,
        path: &str,
        prefix: &str,
        plen: usize,
        out: &mut Vec<String>,
        Ghost(dir): Ghost<Seq<char>>,
    )
        requires
            self.has_entry(path@),
            prefix@ == dir + "/"@,
            plen == prefix@.len(),
            forall|k: int|
                0 <= k < old(out)@.len() ==> self.has_entry(dir + "/"@ + (#[trigger] old(out)@[k])@) && !contains_seq(old(out)@[k]@, "/"@) && old(out)@[k]@.len() > 0 && old(out)@[k]@ != ".keep"@,
        ensures
            forall|k: int|
                0 <= k < final(out)@.len() ==> self.has_entry(dir + "/"@ + (#[trigger] final(out)@[k])@) && !contains_seq(final(out)@[k]@, "/"@) && final(out)@[k]@.len() > 0
                    && final(out)@[k]@ != ".keep"@,
            (exists|n: Seq<char>|
                path@ == dir + "/"@ + n && !contains_seq(n, "/"@) && n.len() > 0 && n
                    != ".keep"@) ==> exists|k: int|
                0 <= k < final(out)@.len() && dir + "/"@ + final(out)@[k]@ == path@,
            forall|k: int| 0 <= k < old(out)@.len() ==> final(out)@[k] == old(out)@[k],
            final(out)@.len() >= old(out)@.len(),
    {
        proof {
            reveal_strlit("/");
            reveal_strlit(".keep");
        }
        let path_len = path.unicode_len();
        if starts_with(path, prefix) && path_len > plen {
            let name = path.substring_char(plen, path_len);
            proof {
                assert(name@ == path@.subrange(plen as int, path_len as int));
            }
            if !contains_str(name, "/") && !str_eq(name, ".keep") {
                proof {
                    assert(path@ =~= dir + "/"@ + name@);
                }
                out.push(name.to_owned());
                proof {
                    let k = final(out)@.len() - 1;
                    assert(final(out)@[k]@ == name@);
                    assert(dir + "/"@ + final(out)@[k]@ == path@);
                    assert(self.has_entry(dir + "/"@ + final(out)@[k]@));
                }
                return;
            }
        }
        proof {
            if exists|n: Seq<char>|
                path@ == dir + "/"@ + n && !contains_seq(n, "/"@) && n.len() > 0 && n != ".keep"@ {
                let n = choose|n: Seq<char>|
                    path@ == dir + "/"@ + n && !contains_seq(n, "/"@) && n.len() > 0 && n
                        != ".keep"@;
                assert(occurs_at(path@, prefix@, 0)) by {
                    assert(path@.subrange(0, plen as int) =~= prefix@);
                }
                assert(path@.len() > plen);
                assert(path@.subrange(plen as int, path@.len() as int) =~= n);
                assert(false);
            }
        }
    }
}

} // verus!
