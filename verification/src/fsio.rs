//! The file-system collaborator boundary. The deployer and the swap
//! engine decide; an implementation of this trait performs the reads and
//! writes. Tests supply an in-memory implementation, a program a real one.

use vstd::prelude::*;

verus! {

/// File-system operations the deployer drives. Paths are plain strings
/// with `/` separators. Nothing is assumed of outcomes: every caller in
/// the library states what holds whatever an implementation returns.
pub trait FsIo {
    /// Whether a path exists.
    fn path_exists(&self, p: &String) -> bool;

    /// Whether a path is a regular file.
    fn is_file(&self, p: &String) -> bool;

    /// The bytes of a file.
    fn read(&self, p: &String) -> Result<Vec<u8>, String>;

    /// Writes text, replacing the file.
    fn write_text(&mut self, p: &String, contents: &String) -> Result<(), String>;

    /// Copies a file byte for byte.
    fn copy_file(&mut self, from: &String, to: &String) -> Result<(), String>;

    /// Creates a directory and its missing parents.
    fn create_dir_all(&mut self, p: &String) -> Result<(), String>;

    /// Every regular file under a root, in walk order, each path
    /// beginning with the root.
    fn walk_files(&self, root: &String) -> Result<Vec<String>, String>;
}

} // verus!
