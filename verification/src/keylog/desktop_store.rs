//! The files that `.desktop` injection touches, as the injection sees them: every operation
//! is recorded with what it answered, and what a sequence of operations does to a file system
//! is stated by `replay`.

use vstd::prelude::*;

use crate::shared::opt_view;
use crate::text::{owned, str_eq};

use super::injection::DesktopFiles;

verus! {

/// One file operation with its answer.
pub enum FileOp {
    /// The entry found for a binary.
    Find(Seq<char>, Option<Seq<char>>),
    /// Whether a path exists.
    Exists(Seq<char>, bool),
    /// A directory created, and whether it succeeded.
    CreateDir(Seq<char>, bool),
    /// A copy from the first path to the second, and whether it succeeded.
    Copy(Seq<char>, Seq<char>, bool),
    /// A file read, and its content when it could be read.
    Read(Seq<char>, Option<Seq<char>>),
    /// A file written with the given content, and whether it succeeded.
    Write(Seq<char>, Seq<char>, bool),
    /// A file removed if present, and whether it succeeded.
    Remove(Seq<char>, bool),
}

/// What a successful operation does to the files (path to content); the others change
/// nothing.
pub open spec fn apply_op(m: Map<Seq<char>, Seq<char>>, op: FileOp) -> Map<Seq<char>, Seq<char>> {
    match op {
        FileOp::Copy(from, to, ok) => if ok && m.contains_key(from) {
            m.insert(to, m[from])
        } else {
            m
        },
        FileOp::Write(p, c, ok) => if ok {
            m.insert(p, c)
        } else {
            m
        },
        FileOp::Remove(p, ok) => if ok {
            m.remove(p)
        } else {
            m
        },
        _ => m,
    }
}

/// The files after the operations, in order.
pub open spec fn replay(m: Map<Seq<char>, Seq<char>>, ops: Seq<FileOp>) -> Map<Seq<char>, Seq<char>>
    decreases ops.len(),
{
    if ops.len() == 0 {
        m
    } else {
        apply_op(replay(m, ops.drop_last()), ops.last())
    }
}

/// The content a read gave, if any.
pub open spec fn read_result(r: Result<String, String>) -> Option<Seq<char>> {
    match r {
        Ok(c) => Some(c@),
        Err(_) => None,
    }
}

/// The files of injection, each operation recorded with its answer.
pub trait DesktopStore {
    /// The operations made, in order.
    spec fn spec_ops(&self) -> Seq<FileOp>;

    fn find_desktop_file(&mut self, exe_path: &str) -> (r: Option<String>)
        ensures
            final(self).spec_ops() == old(self).spec_ops().push(FileOp::Find(exe_path@, opt_view(r))),
    ;

    fn path_exists(&mut self, path: &str) -> (b: bool)
        ensures
            final(self).spec_ops() == old(self).spec_ops().push(FileOp::Exists(path@, b)),
    ;

    fn create_dir_all(&mut self, path: &str) -> (r: Result<(), String>)
        ensures
            final(self).spec_ops() == old(self).spec_ops().push(FileOp::CreateDir(path@, r is Ok)),
    ;

    fn copy(&mut self, from: &str, to: &str) -> (r: Result<(), String>)
        ensures
            final(self).spec_ops() == old(self).spec_ops().push(FileOp::Copy(from@, to@, r is Ok)),
    ;

    fn read_to_string(&mut self, path: &str) -> (r: Result<String, String>)
        ensures
            final(self).spec_ops() == old(self).spec_ops().push(FileOp::Read(path@, read_result(r))),
    ;

    fn write(&mut self, path: &str, content: &str) -> (r: Result<(), String>)
        ensures
            final(self).spec_ops() == old(self).spec_ops().push(
                FileOp::Write(path@, content@, r is Ok),
            ),
    ;

    fn remove_if_present(&mut self, path: &str) -> (r: Result<(), String>)
        ensures
            final(self).spec_ops() == old(self).spec_ops().push(FileOp::Remove(path@, r is Ok)),
    ;
}

/// The files of the system, through the application's file operations.
pub struct SystemDesktopFiles<F: DesktopFiles> {
    files: F,
    ops: Ghost<Seq<FileOp>>,
}

impl<F: DesktopFiles> SystemDesktopFiles<F> {
    pub fn new(files: F) -> (s: SystemDesktopFiles<F>)
        ensures
            s.spec_ops().len() == 0,
    {
        SystemDesktopFiles { files, ops: Ghost(Seq::empty()) }
    }
}

impl<F: DesktopFiles> DesktopStore for SystemDesktopFiles<F> {
    closed spec fn spec_ops(&self) -> Seq<FileOp> {
        self.ops@
    }

    fn find_desktop_file(&mut self, exe_path: &str) -> (r: Option<String>) {
        let r = self.files.find_desktop_file(exe_path);
        proof {
            self.ops@ = self.ops@.push(FileOp::Find(exe_path@, opt_view(r)));
        }
        r
    }

    fn path_exists(&mut self, path: &str) -> (b: bool) {
        let b = self.files.path_exists(path);
        proof {
            self.ops@ = self.ops@.push(FileOp::Exists(path@, b));
        }
        b
    }

    fn create_dir_all(&mut self, path: &str) -> (r: Result<(), String>) {
        let r = self.files.create_dir_all(path);
        proof {
            self.ops@ = self.ops@.push(FileOp::CreateDir(path@, r is Ok));
        }
        r
    }

    fn copy(&mut self, from: &str, to: &str) -> (r: Result<(), String>) {
        let r = self.files.copy(from, to);
        proof {
            self.ops@ = self.ops@.push(FileOp::Copy(from@, to@, r is Ok));
        }
        r
    }

    fn read_to_string(&mut self, path: &str) -> (r: Result<String, String>) {
        let r = self.files.read_to_string(path);
        proof {
            self.ops@ = self.ops@.push(FileOp::Read(path@, read_result(r)));
        }
        r
    }

    fn write(&mut self, path: &str, content: &str) -> (r: Result<(), String>) {
        let r = self.files.write(path, content);
        proof {
            self.ops@ = self.ops@.push(FileOp::Write(path@, content@, r is Ok));
        }
        r
    }

    fn remove_if_present(&mut self, path: &str) -> (r: Result<(), String>) {
        let r = self.files.remove_if_present(path);
        proof {
            self.ops@ = self.ops@.push(FileOp::Remove(path@, r is Ok));
        }
        r
    }
}

/// Files held in memory: the files by path, and the entry found for each binary.
pub struct MemFiles {
    files: Vec<(String, String)>,
    entries: Vec<(String, String)>,
    ops: Ghost<Seq<FileOp>>,
}

/// The content held for `path`: the last one recorded.
pub open spec fn mem_lookup(files: Seq<(Seq<char>, Seq<char>)>, path: Seq<char>) -> Option<Seq<char>>
    decreases files.len(),
{
    if files.len() == 0 {
        None
    } else if files.last().0 == path {
        Some(files.last().1)
    } else {
        mem_lookup(files.drop_last(), path)
    }
}

impl MemFiles {
    pub closed spec fn spec_files(&self) -> Seq<(Seq<char>, Seq<char>)> {
        self.files@.map_values(|e: (String, String)| (e.0@, e.1@))
    }

    /// No file and no entry.
    pub fn new() -> (m: MemFiles)
        ensures
            m.spec_files().len() == 0,
            m.spec_ops().len() == 0,
    {
        let m = MemFiles { files: Vec::new(), entries: Vec::new(), ops: Ghost(Seq::empty()) };
        assert(m.spec_files() =~= Seq::<(Seq<char>, Seq<char>)>::empty());
        m
    }

    /// Holds `content` at `path` (recorded as no operation of injection).
    pub fn put_file(&mut self, path: &str, content: &str)
        ensures
            mem_lookup(final(self).spec_files(), path@) == Some(content@),
            final(self).spec_ops() == old(self).spec_ops(),
    {
        let ghost before = self.spec_files();
        self.files.push((owned(path), owned(content)));
        assert(self.spec_files() =~= before.push((path@, content@)));
    }

    /// Makes `path` the entry found for `binary`.
    pub fn put_entry(&mut self, binary: &str, path: &str)
        ensures
            final(self).spec_files() == old(self).spec_files(),
            final(self).spec_ops() == old(self).spec_ops(),
    {
        self.entries.push((owned(binary), owned(path)));
    }

    /// The content held for `path`.
    pub fn content(&self, path: &str) -> (r: Option<String>)
        ensures
            opt_view(r) == mem_lookup(self.spec_files(), path@),
    {
        let mut i = self.files.len();
        assert(self.spec_files().subrange(0, i as int) =~= self.spec_files());
        while i > 0
            invariant
                0 <= i <= self.files@.len(),
                mem_lookup(self.spec_files(), path@) == mem_lookup(
                    self.spec_files().subrange(0, i as int),
                    path@,
                ),
            decreases i,
        {
            let ghost sub = self.spec_files().subrange(0, i as int);
            assert(sub.drop_last() =~= self.spec_files().subrange(0, i - 1));
            if str_eq(self.files[i - 1].0.as_str(), path) {
                return Some(self.files[i - 1].1.clone());
            }
            i -= 1;
        }
        assert(self.spec_files().subrange(0, 0) =~= Seq::<(Seq<char>, Seq<char>)>::empty());
        None
    }

    fn entry(&self, binary: &str) -> Option<String> {
        let mut i: usize = 0;
        while i < self.entries.len()
            invariant
                0 <= i <= self.entries@.len(),
            decreases self.entries@.len() - i,
        {
            if str_eq(self.entries[i].0.as_str(), binary) {
                return Some(self.entries[i].1.clone());
            }
            i += 1;
        }
        None
    }
}

impl DesktopStore for MemFiles {
    closed spec fn spec_ops(&self) -> Seq<FileOp> {
        self.ops@
    }

    fn find_desktop_file(&mut self, exe_path: &str) -> (r: Option<String>) {
        let r = self.entry(exe_path);
        proof {
            self.ops@ = self.ops@.push(FileOp::Find(exe_path@, opt_view(r)));
        }
        r
    }

    fn path_exists(&mut self, path: &str) -> (b: bool) {
        let b = self.content(path).is_some();
        proof {
            self.ops@ = self.ops@.push(FileOp::Exists(path@, b));
        }
        b
    }

    fn create_dir_all(&mut self, path: &str) -> (r: Result<(), String>) {
        proof {
            self.ops@ = self.ops@.push(FileOp::CreateDir(path@, true));
        }
        Ok(())
    }

    fn copy(&mut self, from: &str, to: &str) -> (r: Result<(), String>) {
        match self.content(from) {
            Some(c) => {
                self.files.push((owned(to), c));
                proof {
                    self.ops@ = self.ops@.push(FileOp::Copy(from@, to@, true));
                }
                Ok(())
            },
            None => {
                proof {
                    self.ops@ = self.ops@.push(FileOp::Copy(from@, to@, false));
                }
                Err(owned("absent"))
            },
        }
    }

    fn read_to_string(&mut self, path: &str) -> (r: Result<String, String>) {
        let r = match self.content(path) {
            Some(c) => Ok(c),
            None => Err(owned("absent")),
        };
        proof {
            self.ops@ = self.ops@.push(FileOp::Read(path@, read_result(r)));
        }
        r
    }

    fn write(&mut self, path: &str, content: &str) -> (r: Result<(), String>) {
        self.files.push((owned(path), owned(content)));
        proof {
            self.ops@ = self.ops@.push(FileOp::Write(path@, content@, true));
        }
        Ok(())
    }

    fn remove_if_present(&mut self, path: &str) -> (r: Result<(), String>) {
        let mut kept: Vec<(String, String)> = Vec::new();
        let mut i: usize = 0;
        while i < self.files.len()
            invariant
                0 <= i <= self.files@.len(),
            decreases self.files@.len() - i,
        {
            if !str_eq(self.files[i].0.as_str(), path) {
                kept.push((self.files[i].0.clone(), self.files[i].1.clone()));
            }
            i += 1;
        }
        self.files = kept;
        proof {
            self.ops@ = self.ops@.push(FileOp::Remove(path@, true));
        }
        Ok(())
    }
}

} // verus!
