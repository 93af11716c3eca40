//! Where files are kept.

use vstd::prelude::*;

use crate::text;
use crate::text::{copy_texts, list2, list3, owned};

verus! {

/// A path, part by part: below the home directory, or as it was given.
#[derive(Debug)]
pub struct FilePath {
    pub at_home: bool,
    pub parts: Vec<String>,
}

/// What a path holds, as plain text.
#[verifier::ext_equal]
pub struct FilePathView {
    pub at_home: bool,
    pub parts: Seq<Seq<char>>,
}

impl View for FilePath {
    type V = FilePathView;

    open spec fn view(&self) -> FilePathView {
        FilePathView { at_home: self.at_home, parts: text::texts(self.parts@) }
    }
}

impl FilePathView {
    /// The path of something inside.
    pub open spec fn inside(self, name: Seq<char>) -> FilePathView {
        FilePathView { at_home: self.at_home, parts: self.parts.push(name) }
    }
}

impl FilePath {
    /// The same path again.
    pub fn copy(&self) -> (r: FilePath)
        ensures
            r@ == self@,
    {
        FilePath { at_home: self.at_home, parts: copy_texts(&self.parts) }
    }

    /// The path of something inside.
    pub fn child(&self, name: &str) -> (r: FilePath)
        ensures
            r@ == self@.inside(name@),
    {
        let mut parts = copy_texts(&self.parts);
        let name = owned(name);
        proof {
            text::lemma_texts_push(parts@, name);
        }
        parts.push(name);
        FilePath { at_home: self.at_home, parts }
    }
}

/// A path below the home directory.
pub open spec fn home_path(parts: Seq<Seq<char>>) -> FilePathView {
    FilePathView { at_home: true, parts }
}

/// The directory of the user's launch agents.
pub open spec fn agents_place() -> FilePathView {
    home_path(seq!["Library"@, "LaunchAgents"@])
}

/// The directory of the user's launch agents.
pub fn launch_agents_dir() -> (r: FilePath)
    ensures
        r@ == agents_place(),
{
    FilePath { at_home: true, parts: list2("Library", "LaunchAgents") }
}

/// The directory of the user's logs.
pub open spec fn logs_place() -> FilePathView {
    home_path(seq!["Library"@, "Logs"@])
}

/// The directory of the user's logs.
pub fn logs_dir() -> (r: FilePath)
    ensures
        r@ == logs_place(),
{
    FilePath { at_home: true, parts: list2("Library", "Logs") }
}

/// The directory of this program's own files.
pub open spec fn support_place() -> FilePathView {
    home_path(seq!["Library"@, "Application Support"@, "displayed"@])
}

/// The directory of this program's own files.
pub fn support_dir() -> (r: FilePath)
    ensures
        r@ == support_place(),
{
    FilePath { at_home: true, parts: list3("Library", "Application Support", "displayed") }
}

/// The path of one of this program's own files.
pub fn support_file_path(file_name: &str) -> (r: FilePath)
    ensures
        r@ == support_place().inside(file_name@),
{
    let dir = support_dir();
    dir.child(file_name)
}

/// A path as it was given.
pub open spec fn given_path(path: Seq<char>) -> FilePathView {
    FilePathView { at_home: false, parts: seq![path] }
}

/// A path as it was given.
pub fn plain_path(path: &str) -> (r: FilePath)
    ensures
        r@ == given_path(path@),
{
    FilePath { at_home: false, parts: text::list1(path) }
}

} // verus!
