//! The namespaces that the input declares: for each namespace character
//! its index, and whether its features carry a number.

use vstd::prelude::*;

verus! {

/// One declared namespace.
#[derive(Clone, Copy, Debug, PartialEq, Eq, Structural)]
pub struct VwNamespaceMapEntry {
    pub namespace_char: char,
    pub namespace_index: u32,
    pub namespace_is_float: bool,
}

/// The declared namespaces, in the order of their declaration. Where a
/// character is declared twice, the first declaration counts.
pub struct VwNamespaceMap {
    pub entries: Vec<VwNamespaceMapEntry>,
}

/// The first entry for `namespace_char` from position `from` on.
pub open spec fn spec_find_entry(
    entries: Seq<VwNamespaceMapEntry>,
    namespace_char: char,
    from: int,
) -> Option<VwNamespaceMapEntry>
    decreases entries.len() - from,
{
    if from < 0 || from >= entries.len() {
        None
    } else if entries[from].namespace_char == namespace_char {
        Some(entries[from])
    } else {
        spec_find_entry(entries, namespace_char, from + 1)
    }
}

impl VwNamespaceMap {
    /// The declaration of `namespace_char`, if there is one.
    pub open spec fn spec_entry(&self, namespace_char: char) -> Option<VwNamespaceMapEntry> {
        spec_find_entry(self.entries@, namespace_char, 0)
    }

    /// The index of `namespace_char`, if it is declared.
    pub open spec fn spec_index(&self, namespace_char: char) -> Option<u32> {
        match self.spec_entry(namespace_char) {
            Some(entry) => Some(entry.namespace_index),
            None => None,
        }
    }

    /// `namespace_char` is declared, and declared as carrying numbers.
    pub open spec fn spec_is_float(&self, namespace_char: char) -> bool {
        match self.spec_entry(namespace_char) {
            Some(entry) => entry.namespace_is_float,
            None => false,
        }
    }

    pub fn new(entries: Vec<VwNamespaceMapEntry>) -> (vw: VwNamespaceMap)
        ensures
            vw.entries == entries,
    {
        VwNamespaceMap { entries }
    }

    /// The declaration of `namespace_char`, if there is one.
    pub fn entry(&self, namespace_char: char) -> (r: Option<VwNamespaceMapEntry>)
        ensures
            r == self.spec_entry(namespace_char),
    {
        let mut i: usize = 0;
        while i < self.entries.len()
            invariant
                i <= self.entries@.len(),
                spec_find_entry(self.entries@, namespace_char, 0) == spec_find_entry(
                    self.entries@,
                    namespace_char,
                    i as int,
                ),
            decreases self.entries@.len() - i,
        {
            if self.entries[i].namespace_char == namespace_char {
                return Some(self.entries[i]);
            }
            i += 1;
        }
        None
    }

    /// The index of `namespace_char`, if it is declared.
    pub fn index(&self, namespace_char: char) -> (r: Option<u32>)
        ensures
            r == self.spec_index(namespace_char),
    {
        match self.entry(namespace_char) {
            Some(entry) => Some(entry.namespace_index),
            None => None,
        }
    }

    /// Whether `namespace_char` is declared as carrying numbers.
    pub fn is_float(&self, namespace_char: char) -> (r: bool)
        ensures
            r == self.spec_is_float(namespace_char),
    {
        match self.entry(namespace_char) {
            Some(entry) => entry.namespace_is_float,
            None => false,
        }
    }
}

} // verus!
