//! Where on a class path the file of a class is looked for.

use vstd::prelude::*;
use vstd::string::StringExecFns;

verus! {

/// A class that was found on the class path: where, and the bytes of its file.
#[derive(Debug, Clone)]
pub struct ClassPathResult {
    pub path: String,
    pub data: Vec<u8>,
}

/// The text with every `from` turned into `to`.
pub open spec fn with_char(text: Seq<char>, from: char, to: char) -> Seq<char> {
    text.map_values(
        |c: char|
            if c == from {
                to
            } else {
                c
            },
    )
}

/// The name of a class as a path: every `/` and every `.` is a separator.
pub open spec fn class_path_name(name: Seq<char>, sep: char) -> Seq<char> {
    name.map_values(
        |c: char|
            if c == '/' || c == '.' {
                sep
            } else {
                c
            },
    )
}

/// `str::replace` with a pattern of one character and a replacement of one
/// character: every occurrence of the one becomes the other, and the rest of
/// the text stays.
#[verifier::external_body]
fn replace_char(text: &str, from: char, to: &str) -> (r: String)
    requires
        to@.len() == 1,
    ensures
        r@ == with_char(text@, from, to@[0]),
{
    text.replace(from, to)
}

/// The name of the file of a class inside an archive or below a directory:
/// the name of the class as a path, and `.class` behind it.
pub fn class_entry_name(name: &str, file_sep: &str) -> (entry: String)
    requires
        file_sep@.len() == 1,
    ensures
        entry@ == class_path_name(name@, file_sep@[0]) + ".class"@,
{
    let slashes = replace_char(name, '/', file_sep);
    let dots = replace_char(slashes.as_str(), '.', file_sep);
    proof {
        assert(dots@ =~= class_path_name(name@, file_sep@[0]));
    }
    dots.concat(".class")
}

/// The path of the file of a class below a directory of the class path.
pub fn class_file_path(dir: &str, name: &str, file_sep: &str) -> (path: String)
    requires
        file_sep@.len() == 1,
    ensures
        path@ == dir@ + file_sep@ + (class_path_name(name@, file_sep@[0]) + ".class"@),
{
    let entry = class_entry_name(name, file_sep);
    String::from_str(dir).concat(file_sep).concat(entry.as_str())
}

/// What an entry of the class path is.
#[derive(Debug, Clone, Copy, PartialEq, Eq)]
pub enum ClassSource {
    /// A directory, below which each class has a file of its own.
    Dir,
    /// An archive, in which each class has an entry.
    Jar,
}

/// One entry of the class path.
#[derive(Debug, Clone)]
pub struct ClassPathEntry {
    pub source: ClassSource,
    pub path: String,
}

/// The class path: its entries in the order in which they are searched.
pub struct ClassPathManager {
    pub class_path: Vec<ClassPathEntry>,
}

impl ClassPathManager {
    /// The name under which the entry at `index` would hold the class: a
    /// path below the entry for a directory, the name of an entry for an
    /// archive.
    pub open spec fn spec_lookup(&self, index: int, name: Seq<char>, sep: Seq<char>) -> Seq<char> {
        match self.class_path@[index].source {
            ClassSource::Dir => self.class_path@[index].path@ + sep + (class_path_name(name, sep[0])
                + ".class"@),
            ClassSource::Jar => class_path_name(name, sep[0]) + ".class"@,
        }
    }

    /// A class path without entries.
    pub fn new() -> (manager: Self)
        ensures
            manager.class_path@.len() == 0,
    {
        ClassPathManager { class_path: Vec::new() }
    }

    /// Adds an entry behind the others. Whether the path is a directory or
    /// an archive that can be opened is for the caller to find out.
    pub fn add_class_path(&mut self, path: &str, source: ClassSource)
        ensures
            final(self).class_path@.len() == old(self).class_path@.len() + 1,
            forall|i: int|
                0 <= i < old(self).class_path@.len() ==> final(self).class_path@[i] == old(
                    self,
                ).class_path@[i],
            final(self).class_path@.last().source == source,
            final(self).class_path@.last().path@ == path@,
    {
        self.class_path.push(ClassPathEntry { source, path: path.to_owned() });
    }

    /// The number of entries.
    pub fn size(&self) -> (n: usize)
        ensures
            n == self.class_path@.len(),
    {
        self.class_path.len()
    }

    /// What the entry at `index` is, and the name under which it would hold
    /// the class.
    pub fn lookup(&self, index: usize, name: &str, file_sep: &str) -> (found: (ClassSource, String))
        requires
            index < self.class_path@.len(),
            file_sep@.len() == 1,
        ensures
            found.0 == self.class_path@[index as int].source,
            found.1@ == self.spec_lookup(index as int, name@, file_sep@),
    {
        let entry = &self.class_path[index];
        match entry.source {
            ClassSource::Dir => (
                ClassSource::Dir,
                class_file_path(entry.path.as_str(), name, file_sep),
            ),
            ClassSource::Jar => (ClassSource::Jar, class_entry_name(name, file_sep)),
        }
    }
}

} // verus!
