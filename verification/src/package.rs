//! Packages as the runtime records them.

use vstd::prelude::*;
use crate::oops::module::ModuleEntry;

verus! {

/// The class-path index of a package none of whose classes has been loaded:
/// the 16-bit pattern of -1.
pub const NO_CLASSPATH_INDEX: u16 = 0xFFFF;

/// A package: the module that holds it and how it is exported.
pub struct PackageEntry {
    pub module: std::sync::Arc<ModuleEntry>,
    /// Whether the package is exported without qualification or to all
    /// unnamed modules.
    pub export_flags: u16,
    /// For a package with classes of the boot loader, the class-path entry
    /// from which a class of it was loaded.
    pub classpath_index: u16,
    pub must_walk_exports: bool,
}

impl PackageEntry {
    pub fn classpath_index(&self) -> (index: u16)
        ensures
            index == self.classpath_index,
    {
        self.classpath_index
    }

    /// Whether a class of the package has been loaded.
    pub fn has_loaded_class(&self) -> (loaded: bool)
        ensures
            loaded == (self.classpath_index != NO_CLASSPATH_INDEX),
    {
        self.classpath_index != NO_CLASSPATH_INDEX
    }

    /// Whether the package belongs to a module without a name. As no module
    /// has a name yet, every package does.
    pub fn in_unnamed_module(&self) -> (unnamed: bool)
        ensures
            unnamed == !self.module.named(),
            unnamed,
    {
        !self.module.is_named()
    }
}

/// The packages of a class loader.
pub struct PackageEntryTable {
    pub entries: Vec<PackageEntry>,
}

impl PackageEntryTable {
    /// Adds a package at the end of the table.
    pub fn add_entry(&mut self, entry: PackageEntry)
        ensures
            final(self).entries@ == old(self).entries@.push(entry),
    {
        self.entries.push(entry);
    }

    /// The number of packages in the table.
    pub fn entry_size(&self) -> (n: usize)
        ensures
            n == self.entries@.len(),
    {
        self.entries.len()
    }
}

} // verus!
